//! Input sanitizer: keeps only an allow-listed character set before text
//! is sent anywhere. The list covers ASCII (letters, digits, punctuation,
//! whitespace) and the Japanese writing ranges, so the two supported
//! languages and embedded code or URLs pass through unharmed while
//! confusable or adversarial code points are dropped silently.
//!
//! The request builder's delimiter wrapping is the defense actually
//! applied to outbound text; this filter is offered to callers as an
//! explicit, stricter policy they may apply first.
use vstd::prelude::*;
use crate::strutil::{chars_to_string, str_to_chars};

verus! {

/// The allow list: ASCII printable characters and common ASCII
/// whitespace; CJK symbols and punctuation, Hiragana and Katakana;
/// the unified CJK ideographs; and the fullwidth and halfwidth forms.
pub open spec fn spec_allowed_char(c: char) -> bool {
    let u = c as u32;
    ||| (0x20 <= u <= 0x7e)  // ASCII letters, digits, punctuation, space
    ||| u == 0x09 || u == 0x0a || u == 0x0d  // tab, line feed, carriage return
    ||| (0x3000 <= u <= 0x303f)  // CJK symbols and punctuation
    ||| (0x3040 <= u <= 0x309f)  // Hiragana
    ||| (0x30a0 <= u <= 0x30ff)  // Katakana
    ||| (0x4e00 <= u <= 0x9fff)  // CJK unified ideographs
    ||| (0xff00 <= u <= 0xffef)  // fullwidth and halfwidth forms
}

/// The allow-listed subsequence of `s`, in order.
pub open spec fn spec_sanitize(s: Seq<char>) -> Seq<char>
    decreases s.len(),
{
    if s.len() == 0 {
        Seq::empty()
    } else {
        spec_sanitize(s.drop_last()) + if spec_allowed_char(s.last()) {
            seq![s.last()]
        } else {
            Seq::empty()
        }
    }
}

/// Appending one character extends the filtered sequence by that
/// character exactly when it is allowed.
pub proof fn lemma_sanitize_snoc(a: Seq<char>, c: char)
    ensures
        spec_sanitize(a.push(c)) == spec_sanitize(a) + if spec_allowed_char(c) {
            seq![c]
        } else {
            Seq::<char>::empty()
        },
{
    assert(a.push(c).drop_last() =~= a);
    assert(a.push(c).last() == c);
    assert(a.push(c).len() == a.len() + 1);
}

/// Sanitizing is idempotent: a sanitized text passes the filter
/// unchanged.
pub proof fn lemma_sanitize_idempotent(s: Seq<char>)
    ensures
        spec_sanitize(spec_sanitize(s)) == spec_sanitize(s),
    decreases s.len(),
{
    if s.len() == 0 {
    } else {
        let p = s.drop_last();
        let c = s.last();
        lemma_sanitize_idempotent(p);
        assert(s =~= p.push(c));
        lemma_sanitize_snoc(p, c);
        if spec_allowed_char(c) {
            lemma_sanitize_snoc(spec_sanitize(p), c);
            assert(spec_sanitize(p) + seq![c] =~= spec_sanitize(p).push(c));
        } else {
            assert(spec_sanitize(p) + Seq::<char>::empty() =~= spec_sanitize(p));
        }
    }
}

fn is_allowed_char(c: char) -> (r: bool)
    ensures
        r == spec_allowed_char(c),
{
    let u = c as u32;
    (0x20 <= u && u <= 0x7e) || u == 0x09 || u == 0x0a || u == 0x0d || (0x3000 <= u && u <= 0x303f)
        || (0x3040 <= u && u <= 0x309f) || (0x30a0 <= u && u <= 0x30ff) || (0x4e00 <= u && u
        <= 0x9fff) || (0xff00 <= u && u <= 0xffef)
}

/// Keeps only allow-listed characters, dropping every other code point
/// silently. Total, deterministic, and idempotent.
pub fn sanitize(text: &str) -> (r: String)
    ensures
        r@ == spec_sanitize(text@),
{
    let chars = str_to_chars(text);
    let mut kept: Vec<char> = Vec::new();
    let mut i: usize = 0;
    while i < chars.len()
        invariant
            i <= chars@.len(),
            chars@ == text@,
            kept@ == spec_sanitize(text@.take(i as int)),
        decreases chars@.len() - i,
    {
        let c = chars[i];
        proof {
            assert(text@.take(i + 1 as int) =~= text@.take(i as int).push(text@[i as int]));
            lemma_sanitize_snoc(text@.take(i as int), text@[i as int]);
        }
        if is_allowed_char(c) {
            kept.push(c);
        }
        i = i + 1;
    }
    proof {
        assert(text@.take(text@.len() as int) =~= text@);
    }
    chars_to_string(&kept)
}

} // verus!
