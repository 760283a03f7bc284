//! Masking of sensitive patterns in cache previews. Email addresses,
//! web URLs and runs of four or more ASCII digits are replaced by fixed
//! placeholder tokens, in three passes in that order, each pass scanning
//! left to right and replacing the leftmost match first. The preview of
//! a cached source text is its first characters with these patterns
//! masked, so the stored preview can never leak an address, a link or a
//! card-sized number.
use vstd::prelude::*;
use crate::strutil::{chars_to_string, spec_has_at, chars_have_at, str_to_chars};

verus! {

/// Characters a preview keeps of the source text.
pub const SOURCE_PREVIEW_LENGTH: usize = 30;

/// The character classes the three patterns are built from.
#[derive(Clone, Copy, Debug, PartialEq, Eq, Structural)]
pub enum CharClass {
    /// An ASCII decimal digit
    Digit,
    /// An ASCII letter
    Alpha,
    /// A character allowed in the part of an address before the `@`
    LocalPart,
    /// A character allowed in the part of an address after the `@`
    DomainPart,
    /// Anything but ASCII whitespace
    NonSpace,
}

/// Which characters belong to each class.
pub open spec fn spec_in_class(cl: CharClass, c: char) -> bool {
    match cl {
        CharClass::Digit => '0' <= c <= '9',
        CharClass::Alpha => ('a' <= c <= 'z') || ('A' <= c <= 'Z'),
        CharClass::LocalPart => ('a' <= c <= 'z') || ('A' <= c <= 'Z') || ('0' <= c <= '9') || c
            == '.' || c == '_' || c == '%' || c == '+' || c == '-',
        CharClass::DomainPart => ('a' <= c <= 'z') || ('A' <= c <= 'Z') || ('0' <= c <= '9') || c
            == '.' || c == '-',
        CharClass::NonSpace => !(c == ' ' || c == '\t' || c == '\n' || c == '\r' || c == '\u{b}'
            || c == '\u{c}'),
    }
}

fn in_class(cl: CharClass, c: char) -> (r: bool)
    ensures
        r == spec_in_class(cl, c),
{
    match cl {
        CharClass::Digit => '0' <= c && c <= '9',
        CharClass::Alpha => ('a' <= c && c <= 'z') || ('A' <= c && c <= 'Z'),
        CharClass::LocalPart => ('a' <= c && c <= 'z') || ('A' <= c && c <= 'Z') || ('0' <= c && c
            <= '9') || c == '.' || c == '_' || c == '%' || c == '+' || c == '-',
        CharClass::DomainPart => ('a' <= c && c <= 'z') || ('A' <= c && c <= 'Z') || ('0' <= c && c
            <= '9') || c == '.' || c == '-',
        CharClass::NonSpace => !(c == ' ' || c == '\t' || c == '\n' || c == '\r' || c == '\u{b}'
            || c == '\u{c}'),
    }
}

/// Index just past the longest run of class characters starting at `i`.
pub open spec fn spec_run_end(cl: CharClass, s: Seq<char>, i: int) -> int
    decreases s.len() - i,
{
    if !(0 <= i < s.len()) {
        i
    } else if !spec_in_class(cl, s[i]) {
        i
    } else {
        spec_run_end(cl, s, i + 1)
    }
}

/// The run end is between `i` and the end of the text, every character
/// inside the run is in the class, and the run is maximal.
pub proof fn lemma_run_end_bounds(cl: CharClass, s: Seq<char>, i: int)
    requires
        0 <= i <= s.len(),
    ensures
        i <= spec_run_end(cl, s, i) <= s.len(),
        forall|k: int| i <= k < spec_run_end(cl, s, i) ==> spec_in_class(cl, s[k]),
        spec_run_end(cl, s, i) == s.len() || !spec_in_class(cl, s[spec_run_end(cl, s, i)]),
    decreases s.len() - i,
{
    if i < s.len() && spec_in_class(cl, s[i]) {
        lemma_run_end_bounds(cl, s, i + 1);
    }
}

/// The next position to process: past the piece just handled, strictly
/// forward and never past the end of the text.
pub open spec fn spec_adv(s: Seq<char>, i: int, e: int) -> int {
    if e > i && e <= s.len() {
        e
    } else if e > s.len() {
        s.len() as int
    } else {
        i + 1
    }
}

/// Masking of digit runs: a maximal run of four or more digits becomes
/// `[***]`; shorter runs and all other characters are kept.
pub open spec fn spec_mask_numbers_from(s: Seq<char>, i: int) -> Seq<char>
    decreases s.len() - i,
{
    if !(0 <= i < s.len()) {
        Seq::empty()
    } else if spec_in_class(CharClass::Digit, s[i]) {
        let e = spec_run_end(CharClass::Digit, s, i);
        if e - i >= 4 {
            "[***]"@ + spec_mask_numbers_from(s, spec_adv(s, i, e))
        } else {
            s.subrange(i, spec_adv(s, i, e)) + spec_mask_numbers_from(s, spec_adv(s, i, e))
        }
    } else {
        seq![s[i]] + spec_mask_numbers_from(s, i + 1)
    }
}

pub open spec fn spec_mask_numbers(s: Seq<char>) -> Seq<char> {
    spec_mask_numbers_from(s, 0)
}

/// Masking of URLs: at a position where the text spells `http://` or
/// `https://` and at least one more character follows before whitespace,
/// the whole whitespace-free run becomes `[URL]`.
pub open spec fn spec_mask_urls_from(s: Seq<char>, i: int) -> Seq<char>
    decreases s.len() - i,
{
    if !(0 <= i < s.len()) {
        Seq::empty()
    } else {
        let e = spec_run_end(CharClass::NonSpace, s, i);
        if (spec_has_at(s, "https://"@, i) && e > i + 8) || (spec_has_at(s, "http://"@, i) && e > i
            + 7) {
            "[URL]"@ + spec_mask_urls_from(s, spec_adv(s, i, e))
        } else {
            seq![s[i]] + spec_mask_urls_from(s, i + 1)
        }
    }
}

pub open spec fn spec_mask_urls(s: Seq<char>) -> Seq<char> {
    spec_mask_urls_from(s, 0)
}

/// A dot position that closes an address: strictly inside the domain
/// run that starts at `ds`, with at least two letters after it.
pub open spec fn spec_dot_ok(s: Seq<char>, ds: int, dend: int, q: int) -> bool {
    ds < q < dend && q + 2 < s.len() && s[q] == '.' && spec_in_class(CharClass::Alpha, s[q + 1])
        && spec_in_class(CharClass::Alpha, s[q + 2])
}

/// The rightmost dot position in `[ds + 1, q]` that closes an address,
/// mirroring how a greedy domain match gives characters back from the
/// right until the dot-and-letters tail fits.
pub open spec fn spec_best_dot(s: Seq<char>, ds: int, dend: int, q: int) -> Option<int>
    decreases q - ds,
{
    if q <= ds {
        None
    } else if spec_dot_ok(s, ds, dend, q) {
        Some(q)
    } else {
        spec_best_dot(s, ds, dend, q - 1)
    }
}

/// Masking of email addresses: a maximal run of local-part characters,
/// an `@`, then a domain run holding a dot followed by at least two
/// letters, becomes `[EMAIL]` up to the end of those letters. A local
/// run not followed this way is kept and scanning resumes after it.
pub open spec fn spec_mask_emails_from(s: Seq<char>, i: int) -> Seq<char>
    decreases s.len() - i,
{
    if !(0 <= i < s.len()) {
        Seq::empty()
    } else if spec_in_class(CharClass::LocalPart, s[i]) {
        let l = spec_run_end(CharClass::LocalPart, s, i);
        if 0 <= l < s.len() && s[l] == '@' {
            let dend = spec_run_end(CharClass::DomainPart, s, l + 1);
            match spec_best_dot(s, l + 1, dend, dend - 1) {
                Some(q) => {
                    let e = spec_run_end(CharClass::Alpha, s, q + 1);
                    "[EMAIL]"@ + spec_mask_emails_from(s, spec_adv(s, i, e))
                },
                None => s.subrange(i, spec_adv(s, i, l)) + spec_mask_emails_from(s, spec_adv(s, i, l)),
            }
        } else {
            s.subrange(i, spec_adv(s, i, l)) + spec_mask_emails_from(s, spec_adv(s, i, l))
        }
    } else {
        seq![s[i]] + spec_mask_emails_from(s, i + 1)
    }
}

pub open spec fn spec_mask_emails(s: Seq<char>) -> Seq<char> {
    spec_mask_emails_from(s, 0)
}

/// All three passes, in the order they are applied.
pub open spec fn spec_mask_all(s: Seq<char>) -> Seq<char> {
    spec_mask_numbers(spec_mask_urls(spec_mask_emails(s)))
}

/// The part of the source text a preview shows, before masking.
pub open spec fn spec_preview_source(s: Seq<char>) -> Seq<char> {
    if s.len() <= SOURCE_PREVIEW_LENGTH {
        s
    } else {
        s.take(SOURCE_PREVIEW_LENGTH as int)
    }
}

fn run_end(cl: CharClass, v: &Vec<char>, i: usize) -> (r: usize)
    requires
        i <= v@.len(),
    ensures
        r as int == spec_run_end(cl, v@, i as int),
        i <= r <= v@.len(),
{
    let n = v.len();
    let mut j = i;
    while j < n && in_class(cl, v[j])
        invariant
            i <= j <= n,
            n == v@.len(),
            spec_run_end(cl, v@, i as int) == spec_run_end(cl, v@, j as int),
        decreases n - j,
    {
        j = j + 1;
    }
    proof {
        lemma_run_end_bounds(cl, v@, i as int);
    }
    j
}

fn push_str_chars(out: &mut Vec<char>, p: &str)
    ensures
        final(out)@ == old(out)@ + p@,
{
    let mut chars = str_to_chars(p);
    out.append(&mut chars);
}

fn push_range(out: &mut Vec<char>, v: &Vec<char>, from: usize, to: usize)
    requires
        from <= to <= v@.len(),
    ensures
        final(out)@ == old(out)@ + v@.subrange(from as int, to as int),
{
    let mut k = from;
    while k < to
        invariant
            from <= k <= to <= v@.len(),
            out@ == old(out)@ + v@.subrange(from as int, k as int),
        decreases to - k,
    {
        out.push(v[k]);
        proof {
            assert(old(out)@ + v@.subrange(from as int, k + 1 as int) =~= (old(out)@
                + v@.subrange(from as int, k as int)).push(v@[k as int]));
        }
        k = k + 1;
    }
    proof {
        assert(out@ =~= old(out)@ + v@.subrange(from as int, to as int));
    }
}

fn mask_numbers_chars(v: &Vec<char>) -> (r: Vec<char>)
    ensures
        r@ == spec_mask_numbers(v@),
{
    let n = v.len();
    let mut out: Vec<char> = Vec::new();
    let mut i: usize = 0;
    while i < n
        invariant
            i <= n,
            n == v@.len(),
            spec_mask_numbers_from(v@, 0) == out@ + spec_mask_numbers_from(v@, i as int),
        decreases n - i,
    {
        let ghost out0 = out@;
        proof {
            lemma_run_end_bounds(CharClass::Digit, v@, i as int);
        }
        if in_class(CharClass::Digit, v[i]) {
            let e = run_end(CharClass::Digit, v, i);
            proof {
                assert(e > i);
            }
            if e - i >= 4 {
                push_str_chars(&mut out, "[***]");
                proof {
                    assert(out@ + spec_mask_numbers_from(v@, e as int) =~= out0 + ("[***]"@
                        + spec_mask_numbers_from(v@, e as int)));
                }
            } else {
                push_range(&mut out, v, i, e);
                proof {
                    assert(out@ + spec_mask_numbers_from(v@, e as int) =~= out0 + (v@.subrange(
                        i as int,
                        e as int,
                    ) + spec_mask_numbers_from(v@, e as int)));
                }
            }
            i = e;
        } else {
            out.push(v[i]);
            proof {
                assert(out@ + spec_mask_numbers_from(v@, i + 1 as int) =~= out0 + (seq![v@[i as int]]
                    + spec_mask_numbers_from(v@, i + 1 as int)));
            }
            i = i + 1;
        }
    }
    proof {
        assert(out@ + spec_mask_numbers_from(v@, n as int) =~= out@);
    }
    out
}

fn mask_urls_chars(v: &Vec<char>) -> (r: Vec<char>)
    ensures
        r@ == spec_mask_urls(v@),
{
    let n = v.len();
    let mut out: Vec<char> = Vec::new();
    let mut i: usize = 0;
    while i < n
        invariant
            i <= n,
            n == v@.len(),
            spec_mask_urls_from(v@, 0) == out@ + spec_mask_urls_from(v@, i as int),
        decreases n - i,
    {
        let ghost out0 = out@;
        proof {
            lemma_run_end_bounds(CharClass::NonSpace, v@, i as int);
        }
        let e = run_end(CharClass::NonSpace, v, i);
        let https_here = chars_have_at(v, "https://", i) && e - i > 8;
        let http_here = chars_have_at(v, "http://", i) && e - i > 7;
        if https_here || http_here {
            proof {
                assert(e > i);
            }
            push_str_chars(&mut out, "[URL]");
            proof {
                assert(out@ + spec_mask_urls_from(v@, e as int) =~= out0 + ("[URL]"@
                    + spec_mask_urls_from(v@, e as int)));
            }
            i = e;
        } else {
            out.push(v[i]);
            proof {
                assert(out@ + spec_mask_urls_from(v@, i + 1 as int) =~= out0 + (seq![v@[i as int]]
                    + spec_mask_urls_from(v@, i + 1 as int)));
            }
            i = i + 1;
        }
    }
    proof {
        assert(out@ + spec_mask_urls_from(v@, n as int) =~= out@);
    }
    out
}

/// A found dot position satisfies the closing-dot conditions.
pub proof fn lemma_best_dot_ok(s: Seq<char>, ds: int, dend: int, q0: int)
    ensures
        spec_best_dot(s, ds, dend, q0) matches Some(q) ==> spec_dot_ok(s, ds, dend, q),
    decreases q0 - ds,
{
    if q0 > ds && !spec_dot_ok(s, ds, dend, q0) {
        lemma_best_dot_ok(s, ds, dend, q0 - 1);
    }
}

fn best_dot(v: &Vec<char>, ds: usize, dend: usize) -> (r: Option<usize>)
    requires
        ds <= dend <= v@.len(),
    ensures
        match r {
            Some(q) => Some(q as int) == spec_best_dot(v@, ds as int, dend as int, dend - 1),
            None => spec_best_dot(v@, ds as int, dend as int, dend - 1) is None,
        },
{
    if dend <= ds {
        return None;
    }
    let n = v.len();
    let mut q = dend - 1;
    while q > ds
        invariant
            ds <= q < dend <= n,
            n == v@.len(),
            spec_best_dot(v@, ds as int, dend as int, dend - 1) == spec_best_dot(
                v@,
                ds as int,
                dend as int,
                q as int,
            ),
        decreases q,
    {
        let ok = v[q] == '.' && n - q > 2 && in_class(CharClass::Alpha, v[q + 1]) && in_class(
            CharClass::Alpha,
            v[q + 2],
        );
        if ok {
            return Some(q);
        }
        q = q - 1;
    }
    None
}

fn mask_emails_chars(v: &Vec<char>) -> (r: Vec<char>)
    ensures
        r@ == spec_mask_emails(v@),
{
    let n = v.len();
    let mut out: Vec<char> = Vec::new();
    let mut i: usize = 0;
    while i < n
        invariant
            i <= n,
            n == v@.len(),
            spec_mask_emails_from(v@, 0) == out@ + spec_mask_emails_from(v@, i as int),
        decreases n - i,
    {
        let ghost out0 = out@;
        proof {
            lemma_run_end_bounds(CharClass::LocalPart, v@, i as int);
        }
        if in_class(CharClass::LocalPart, v[i]) {
            let l = run_end(CharClass::LocalPart, v, i);
            proof {
                assert(l > i);
            }
            let mut matched_end: Option<usize> = None;
            if l < n && v[l] == '@' {
                let dend = run_end(CharClass::DomainPart, v, l + 1);
                proof {
                    lemma_best_dot_ok(v@, l + 1 as int, dend as int, dend - 1);
                }
                match best_dot(v, l + 1, dend) {
                    Some(q) => {
                        proof {
                            lemma_run_end_bounds(CharClass::Alpha, v@, q + 1 as int);
                        }
                        let e = run_end(CharClass::Alpha, v, q + 1);
                        matched_end = Some(e);
                    },
                    None => {
                    },
                }
            }
            match matched_end {
                Some(e) => {
                    proof {
                        assert(e > i);
                    }
                    push_str_chars(&mut out, "[EMAIL]");
                    proof {
                        assert(out@ + spec_mask_emails_from(v@, e as int) =~= out0 + ("[EMAIL]"@
                            + spec_mask_emails_from(v@, e as int)));
                    }
                    i = e;
                },
                None => {
                    push_range(&mut out, v, i, l);
                    proof {
                        assert(out@ + spec_mask_emails_from(v@, l as int) =~= out0 + (v@.subrange(
                            i as int,
                            l as int,
                        ) + spec_mask_emails_from(v@, l as int)));
                    }
                    i = l;
                },
            }
        } else {
            out.push(v[i]);
            proof {
                assert(out@ + spec_mask_emails_from(v@, i + 1 as int) =~= out0 + (seq![v@[i as int]]
                    + spec_mask_emails_from(v@, i + 1 as int)));
            }
            i = i + 1;
        }
    }
    proof {
        assert(out@ + spec_mask_emails_from(v@, n as int) =~= out@);
    }
    out
}

/// Masks email addresses, then URLs, then runs of four or more digits,
/// each with its fixed placeholder.
pub fn mask_sensitive_patterns(text: &str) -> (r: String)
    ensures
        r@ == spec_mask_all(text@),
{
    let chars = str_to_chars(text);
    let pass1 = mask_emails_chars(&chars);
    let pass2 = mask_urls_chars(&pass1);
    let pass3 = mask_numbers_chars(&pass2);
    chars_to_string(&pass3)
}

/// The safe preview of a source text: its first characters, truncated,
/// with sensitive patterns masked. Only this preview is ever stored.
pub fn create_safe_preview(text: &str) -> (r: String)
    ensures
        r@ == spec_mask_all(spec_preview_source(text@)),
{
    let mut chars = str_to_chars(text);
    chars.truncate(SOURCE_PREVIEW_LENGTH);
    proof {
        if text@.len() <= SOURCE_PREVIEW_LENGTH {
            assert(chars@ =~= text@);
        }
    }
    let pass1 = mask_emails_chars(&chars);
    let pass2 = mask_urls_chars(&pass1);
    let pass3 = mask_numbers_chars(&pass2);
    chars_to_string(&pass3)
}

} // verus!
