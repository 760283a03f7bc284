//! Stream decoder: reassembles server-sent-event lines out of a byte
//! stream that arrives in arbitrary chunks, normalizing every
//! line-ending variant, and turns one `data:` payload into a structured
//! protocol event. A terminator may straddle two reads; no line is ever
//! mis-parsed for it. Blank lines and `event:` tag lines carry no data
//! and are dropped; a payload that fails to parse is skipped, never
//! fatal.
use vstd::prelude::*;
use vstd::string::{StrSliceExecFns, StringExecFns};
use crate::jsonio::{abs_fields, event_fields_of, extract_event_fields, spec_view_opt, RawEventFields};
use crate::strutil::{chars_have_at, chars_to_string, spec_has_at, str_to_chars, subrange_chars};

verus! {

/// One structured event out of the stream.
pub enum ProtocolEvent {
    /// A piece of translated text for one content block
    ContentDelta { block_index: u64, text: String },
    /// The latest usage snapshot; a later one supersedes it
    UsageUpdate { input_tokens: u32, output_tokens: u32 },
    /// The stream's terminator
    StreamEnd,
    /// Anything recognized but carrying nothing for this pipeline
    Other,
}

/// The mathematical image of a protocol event.
pub enum ProtocolEventModel {
    ContentDelta { block_index: u64, text: Seq<char> },
    UsageUpdate { input_tokens: u32, output_tokens: u32 },
    StreamEnd,
    Other,
}

/// The image of an event as the contracts speak of it.
pub open spec fn abs_event(e: ProtocolEvent) -> ProtocolEventModel {
    match e {
        ProtocolEvent::ContentDelta { block_index, text } => ProtocolEventModel::ContentDelta {
            block_index,
            text: text@,
        },
        ProtocolEvent::UsageUpdate { input_tokens, output_tokens } => ProtocolEventModel::UsageUpdate {
            input_tokens,
            output_tokens,
        },
        ProtocolEvent::StreamEnd => ProtocolEventModel::StreamEnd,
        ProtocolEvent::Other => ProtocolEventModel::Other,
    }
}

/// What one payload's fields mean. A content delta needs its index and
/// its text; a usage delta needs both counters, in range; the
/// terminator needs only its tag; everything else carries nothing.
pub open spec fn spec_interpret(
    event_type: Seq<char>,
    index: Option<u64>,
    delta_text: Option<Seq<char>>,
    usage: Option<(u64, u64)>,
) -> ProtocolEventModel {
    if event_type == "content_block_delta"@ {
        match (index, delta_text) {
            (Some(i), Some(t)) => ProtocolEventModel::ContentDelta { block_index: i, text: t },
            _ => ProtocolEventModel::Other,
        }
    } else if event_type == "message_delta"@ {
        match usage {
            Some((a, b)) => if a <= u32::MAX as u64 && b <= u32::MAX as u64 {
                ProtocolEventModel::UsageUpdate {
                    input_tokens: a as u32,
                    output_tokens: b as u32,
                }
            } else {
                ProtocolEventModel::Other
            },
            None => ProtocolEventModel::Other,
        }
    } else if event_type == "message_stop"@ {
        ProtocolEventModel::StreamEnd
    } else {
        ProtocolEventModel::Other
    }
}

/// Turns extracted payload fields into the event they mean.
pub fn interpret_fields(f: RawEventFields) -> (e: ProtocolEvent)
    ensures
        abs_event(e) == spec_interpret(f.event_type@, f.index, spec_view_opt(f.delta_text), f.usage),
{
    let t_content = String::from_str("content_block_delta");
    let t_usage = String::from_str("message_delta");
    let t_stop = String::from_str("message_stop");
    if f.event_type == t_content {
        match (f.index, f.delta_text) {
            (Some(i), Some(t)) => ProtocolEvent::ContentDelta { block_index: i, text: t },
            _ => ProtocolEvent::Other,
        }
    } else if f.event_type == t_usage {
        match f.usage {
            Some((a, b)) => {
                if a <= 0xffff_ffff && b <= 0xffff_ffff {
                    ProtocolEvent::UsageUpdate { input_tokens: a as u32, output_tokens: b as u32 }
                } else {
                    ProtocolEvent::Other
                }
            },
            None => ProtocolEvent::Other,
        }
    } else if f.event_type == t_stop {
        ProtocolEvent::StreamEnd
    } else {
        ProtocolEvent::Other
    }
}

/// ASCII whitespace, as trimmed from the edges of a protocol line.
pub open spec fn spec_is_ws(c: char) -> bool {
    c == ' ' || c == '\t' || c == '\r' || c == '\n' || c == '\u{b}' || c == '\u{c}'
}

fn is_ws(c: char) -> (r: bool)
    ensures
        r == spec_is_ws(c),
{
    c == ' ' || c == '\t' || c == '\r' || c == '\n' || c == '\u{b}' || c == '\u{c}'
}

/// First position at or past `i` holding something besides whitespace.
pub open spec fn spec_trim_from(s: Seq<char>, i: int) -> int
    decreases s.len() - i,
{
    if !(0 <= i < s.len()) {
        s.len() as int
    } else if !spec_is_ws(s[i]) {
        i
    } else {
        spec_trim_from(s, i + 1)
    }
}

/// Position just past the last non-whitespace strictly before `j`.
pub open spec fn spec_trim_upto(s: Seq<char>, j: int) -> int
    decreases j,
{
    if j <= 0 {
        0
    } else if spec_is_ws(s[j - 1]) {
        spec_trim_upto(s, j - 1)
    } else {
        j
    }
}

/// The line with ASCII whitespace stripped from both ends.
pub open spec fn spec_trim(s: Seq<char>) -> Seq<char> {
    let a = spec_trim_from(s, 0);
    let b = spec_trim_upto(s, s.len() as int);
    if a < b {
        s.subrange(a, b)
    } else {
        Seq::empty()
    }
}

proof fn lemma_trim_upto_bounds(s: Seq<char>, j: int)
    requires
        0 <= j,
    ensures
        0 <= spec_trim_upto(s, j) <= j,
    decreases j,
{
    if j > 0 && spec_is_ws(s[j - 1]) {
        lemma_trim_upto_bounds(s, j - 1);
    }
}

fn trim_chars(v: &Vec<char>) -> (r: Vec<char>)
    ensures
        r@ == spec_trim(v@),
{
    let n = v.len();
    let mut a: usize = 0;
    while a < n && is_ws(v[a])
        invariant
            a <= n,
            n == v@.len(),
            spec_trim_from(v@, 0) == spec_trim_from(v@, a as int),
        decreases n - a,
    {
        a = a + 1;
    }
    if a == n {
        proof {
            lemma_trim_upto_bounds(v@, n as int);
            assert(spec_trim(v@) =~= Seq::<char>::empty());
        }
        return Vec::new();
    }
    let mut b: usize = n;
    while b > a && is_ws(v[b - 1])
        invariant
            a < n,
            a < b <= n,
            n == v@.len(),
            !spec_is_ws(v@[a as int]),
            spec_trim_upto(v@, n as int) == spec_trim_upto(v@, b as int),
        decreases b,
    {
        b = b - 1;
    }
    proof {
        assert(b > a);
        assert(spec_trim_upto(v@, b as int) == b as int);
    }
    subrange_chars(v, a, b)
}

/// What one trimmed line is to the protocol.
pub enum LineKind {
    /// An empty line: an event separator, dropped
    Blank,
    /// An `event:` tag line, dropped
    EventTag,
    /// A `data: ` line, carrying the payload after the prefix
    Data(String),
    /// Anything else, dropped
    Other,
}

/// The mathematical image of a line's kind.
pub enum LineKindModel {
    Blank,
    EventTag,
    Data(Seq<char>),
    Other,
}

/// The image of a classified line.
pub open spec fn abs_line_kind(k: LineKind) -> LineKindModel {
    match k {
        LineKind::Blank => LineKindModel::Blank,
        LineKind::EventTag => LineKindModel::EventTag,
        LineKind::Data(s) => LineKindModel::Data(s@),
        LineKind::Other => LineKindModel::Other,
    }
}

/// How a trimmed line is classified: blank, an `event:` tag, a
/// `data: ` payload, or nothing the protocol knows.
pub open spec fn spec_classify_line(t: Seq<char>) -> LineKindModel {
    if t.len() == 0 {
        LineKindModel::Blank
    } else if spec_has_at(t, "event:"@, 0) {
        LineKindModel::EventTag
    } else if spec_has_at(t, "data: "@, 0) {
        LineKindModel::Data(t.skip("data: "@.len() as int))
    } else {
        LineKindModel::Other
    }
}

/// Trims and classifies one line.
pub fn classify_line(line: &str) -> (k: LineKind)
    ensures
        abs_line_kind(k) == spec_classify_line(spec_trim(line@)),
{
    let chars = str_to_chars(line);
    let t = trim_chars(&chars);
    if t.len() == 0 {
        LineKind::Blank
    } else if chars_have_at(&t, "event:", 0) {
        LineKind::EventTag
    } else if chars_have_at(&t, "data: ", 0) {
        let plen = "data: ".unicode_len();
        let payload = subrange_chars(&t, plen, t.len());
        proof {
            assert(t@.subrange("data: "@.len() as int, t@.len() as int) =~= t@.skip(
                "data: "@.len() as int,
            ));
        }
        LineKind::Data(chars_to_string(&payload))
    } else {
        LineKind::Other
    }
}

/// The event one raw line means: nothing unless it is a `data: ` line
/// whose payload yields named fields, and then their interpretation.
pub open spec fn spec_line_event(l: Seq<char>) -> Option<ProtocolEventModel> {
    match spec_classify_line(spec_trim(l)) {
        LineKindModel::Data(p) => match event_fields_of(p) {
            Some(f) => Some(spec_interpret(f.event_type, f.index, f.delta_text, f.usage)),
            None => None,
        },
        _ => None,
    }
}

/// Decodes one raw line: exactly the event the line means. Only a
/// `data: ` payload can produce an event, and a payload that does not
/// parse produces none — a malformed line is skipped, never fatal.
pub fn decode_line(line: &str) -> (r: Option<ProtocolEvent>)
    ensures
        match spec_line_event(line@) {
            Some(m) => r matches Some(e) && abs_event(e) == m,
            None => r is None,
        },
{
    match classify_line(line) {
        LineKind::Data(payload) => match extract_event_fields(payload.as_str()) {
            Some(f) => {
                proof {
                    assert(event_fields_of(payload@) == Some(abs_fields(f)));
                }
                Some(interpret_fields(f))
            },
            None => None,
        },
        _ => None,
    }
}

/// All line-ending variants folded to a single newline: a `\r\n` pair
/// becomes one newline, a bare `\r` becomes one newline.
pub open spec fn spec_normalize_from(s: Seq<char>, i: int) -> Seq<char>
    decreases s.len() - i,
{
    if !(0 <= i < s.len()) {
        Seq::empty()
    } else if s[i] == '\r' {
        if i + 1 < s.len() && s[i + 1] == '\n' {
            seq!['\n'] + spec_normalize_from(s, i + 2)
        } else {
            seq!['\n'] + spec_normalize_from(s, i + 1)
        }
    } else {
        seq![s[i]] + spec_normalize_from(s, i + 1)
    }
}

pub open spec fn spec_normalize(s: Seq<char>) -> Seq<char> {
    spec_normalize_from(s, 0)
}

/// Position of the first newline at or past `i`, or the end.
pub open spec fn spec_nl_pos(s: Seq<char>, i: int) -> int
    decreases s.len() - i,
{
    if !(0 <= i < s.len()) {
        s.len() as int
    } else if s[i] == '\n' {
        i
    } else {
        spec_nl_pos(s, i + 1)
    }
}

proof fn lemma_nl_pos_bounds(s: Seq<char>, i: int)
    requires
        0 <= i <= s.len(),
    ensures
        i <= spec_nl_pos(s, i) <= s.len(),
        spec_nl_pos(s, i) == s.len() || s[spec_nl_pos(s, i)] == '\n',
    decreases s.len() - i,
{
    if i < s.len() && s[i] != '\n' {
        lemma_nl_pos_bounds(s, i + 1);
    }
}

/// The complete lines the buffer holds, in order, without their
/// newlines.
pub open spec fn spec_split_lines(s: Seq<char>) -> Seq<Seq<char>>
    decreases s.len(),
{
    let p0 = spec_nl_pos(s, 0);
    let p = if 0 <= p0 < s.len() {
        p0
    } else {
        s.len() as int
    };
    if p >= s.len() {
        Seq::empty()
    } else {
        seq![s.take(p)] + spec_split_lines(s.skip(p + 1))
    }
}

/// What stays in the buffer after every complete line is taken.
pub open spec fn spec_line_rest(s: Seq<char>) -> Seq<char>
    decreases s.len(),
{
    let p0 = spec_nl_pos(s, 0);
    let p = if 0 <= p0 < s.len() {
        p0
    } else {
        s.len() as int
    };
    if p >= s.len() {
        s
    } else {
        spec_line_rest(s.skip(p + 1))
    }
}

/// The lines rejoined, each with the newline that ended it.
pub open spec fn spec_join_lines(lines: Seq<Seq<char>>) -> Seq<char>
    decreases lines.len(),
{
    if lines.len() == 0 {
        Seq::empty()
    } else {
        lines[0] + seq!['\n'] + spec_join_lines(lines.drop_first())
    }
}

/// Cutting lines loses nothing and reorders nothing: the completed
/// lines, each with its newline, followed by the unfinished tail,
/// spell the buffered text exactly. Together with `feed`'s contract
/// this is why a line can never be mis-parsed by how the network cut
/// the stream into chunks.
pub proof fn lemma_lines_reconstruct(s: Seq<char>)
    ensures
        spec_join_lines(spec_split_lines(s)) + spec_line_rest(s) == s,
    decreases s.len(),
{
    let p0 = spec_nl_pos(s, 0);
    lemma_nl_pos_bounds(s, 0);
    let p = if 0 <= p0 < s.len() {
        p0
    } else {
        s.len() as int
    };
    if p >= s.len() {
        assert(spec_join_lines(spec_split_lines(s)) + spec_line_rest(s) =~= s);
    } else {
        let tail = s.skip(p + 1);
        lemma_lines_reconstruct(tail);
        let rest_lines = spec_split_lines(tail);
        assert(spec_split_lines(s) == seq![s.take(p)] + rest_lines);
        assert((seq![s.take(p)] + rest_lines)[0] == s.take(p));
        assert((seq![s.take(p)] + rest_lines).drop_first() =~= rest_lines);
        assert(spec_join_lines(seq![s.take(p)] + rest_lines) == s.take(p) + seq!['\n']
            + spec_join_lines(rest_lines));
        assert(s[p] == '\n');
        assert((s.take(p) + seq!['\n'] + spec_join_lines(rest_lines)) + spec_line_rest(tail) =~= s.take(
            p,
        ) + seq!['\n'] + (spec_join_lines(rest_lines) + spec_line_rest(tail)));
        assert(s.take(p) + seq!['\n'] + tail =~= s);
    }
}

/// The decoder's state: text received but not yet cut into lines, and
/// whether the terminator has closed the stream.
pub struct StreamDecoder {
    /// Normalized text still waiting for its newline
    pub buffer: Vec<char>,
    /// Set once the stream's terminator was seen; a closed decoder
    /// accepts nothing more
    pub closed: bool,
}

impl StreamDecoder {
    /// A decoder with nothing buffered.
    pub fn new() -> (r: StreamDecoder)
        ensures
            r.buffer@ == Seq::<char>::empty(),
            !r.closed,
    {
        let r = StreamDecoder { buffer: Vec::new(), closed: false };
        r
    }

    /// Takes one received chunk and hands back every line it completes.
    /// The chunk is normalized and appended to the buffer; the buffer's
    /// complete lines come out in order and the unfinished tail stays,
    /// so a terminator cut in two by the network is never mis-read. A
    /// closed decoder swallows the chunk whole.
    pub fn feed(&mut self, chunk: &str) -> (lines: Vec<String>)
        ensures
            final(self).closed == old(self).closed,
            old(self).closed ==> final(self).buffer@ == old(self).buffer@ && lines@.len() == 0,
            !old(self).closed ==> ({
                let whole = old(self).buffer@ + spec_normalize(chunk@);
                &&& lines@.map_values(|l: String| l@) == spec_split_lines(whole)
                &&& final(self).buffer@ == spec_line_rest(whole)
            }),
    {
        if self.closed {
            return Vec::new();
        }
        let chars = str_to_chars(chunk);
        let n = chars.len();
        let mut i: usize = 0;
        let ghost mut built: Seq<char> = Seq::empty();
        proof {
            assert(Seq::<char>::empty() + spec_normalize_from(chunk@, 0) =~= spec_normalize_from(
                chunk@,
                0,
            ));
        }
        while i < n
            invariant
                i <= n,
                n == chars@.len(),
                chars@ == chunk@,
                self.closed == old(self).closed,
                self.buffer@ == old(self).buffer@ + built,
                spec_normalize(chunk@) == built + spec_normalize_from(chunk@, i as int),
            decreases n - i,
        {
            let ghost built0 = built;
            let c = chars[i];
            if c == '\r' {
                let pair = i + 1 < n && chars[i + 1] == '\n';
                self.buffer.push('\n');
                proof {
                    built = built0 + seq!['\n'];
                    assert(self.buffer@ =~= old(self).buffer@ + built);
                }
                if pair {
                    proof {
                        assert(built0 + (seq!['\n'] + spec_normalize_from(chunk@, i + 2 as int))
                            =~= built + spec_normalize_from(chunk@, i + 2 as int));
                    }
                    i = i + 2;
                } else {
                    proof {
                        assert(built0 + (seq!['\n'] + spec_normalize_from(chunk@, i + 1 as int))
                            =~= built + spec_normalize_from(chunk@, i + 1 as int));
                    }
                    i = i + 1;
                }
            } else {
                self.buffer.push(c);
                proof {
                    built = built0 + seq![c];
                    assert(self.buffer@ =~= old(self).buffer@ + built);
                    assert(built0 + (seq![chunk@[i as int]] + spec_normalize_from(
                        chunk@,
                        i + 1 as int,
                    )) =~= built + spec_normalize_from(chunk@, i + 1 as int));
                }
                i = i + 1;
            }
        }
        let ghost whole = old(self).buffer@ + spec_normalize(chunk@);
        proof {
            assert(spec_normalize_from(chunk@, n as int) =~= Seq::<char>::empty());
            assert(built + Seq::<char>::empty() =~= built);
            assert(self.buffer@ == whole);
        }

        // Cut out every complete line.
        let mut lines: Vec<String> = Vec::new();
        let mut go = true;
        proof {
            assert(lines@.map_values(|l: String| l@) =~= Seq::<Seq<char>>::empty());
            assert(Seq::<Seq<char>>::empty() + spec_split_lines(self.buffer@) =~= spec_split_lines(
                self.buffer@,
            ));
        }
        while go
            invariant
                self.closed == old(self).closed,
                spec_split_lines(whole) == lines@.map_values(|l: String| l@) + spec_split_lines(
                    self.buffer@,
                ),
                spec_line_rest(whole) == spec_line_rest(self.buffer@),
                !go ==> spec_nl_pos(self.buffer@, 0) >= self.buffer@.len(),
            decreases self.buffer@.len(), (if go {
                1int
            } else {
                0int
            }),
        {
            let blen = self.buffer.len();
            let mut j: usize = 0;
            while j < blen && self.buffer[j] != '\n'
                invariant
                    j <= blen,
                    blen == self.buffer@.len(),
                    spec_nl_pos(self.buffer@, 0) == spec_nl_pos(self.buffer@, j as int),
                decreases blen - j,
            {
                j = j + 1;
            }
            proof {
                lemma_nl_pos_bounds(self.buffer@, 0);
            }
            if j >= blen {
                go = false;
            } else {
                let ghost cur = self.buffer@;
                let line_chars = subrange_chars(&self.buffer, 0, j);
                let line = chars_to_string(&line_chars);
                let ghost lines0 = lines@.map_values(|l: String| l@);
                lines.push(line);
                let tail = subrange_chars(&self.buffer, j + 1, blen);
                self.buffer = tail;
                proof {
                    assert(cur.take(j as int) =~= cur.subrange(0, j as int));
                    assert(cur.skip(j + 1 as int) =~= cur.subrange(j + 1 as int, cur.len() as int));
                    assert(lines@.map_values(|l: String| l@) =~= lines0 + seq![cur.take(j as int)]);
                    assert(spec_split_lines(cur) == seq![cur.take(j as int)] + spec_split_lines(
                        self.buffer@,
                    ));
                    assert(lines0 + (seq![cur.take(j as int)] + spec_split_lines(self.buffer@))
                        =~= (lines0 + seq![cur.take(j as int)]) + spec_split_lines(self.buffer@));
                }
            }
        }
        proof {
            assert(spec_split_lines(self.buffer@) =~= Seq::<Seq<char>>::empty());
            assert(lines@.map_values(|l: String| l@) + Seq::<Seq<char>>::empty() =~= lines@.map_values(
                |l: String| l@,
            ));
        }
        lines
    }

    /// Marks the stream terminated: whatever is still buffered is
    /// discarded and nothing further is accepted.
    pub fn close(&mut self)
        ensures
            final(self).closed,
            final(self).buffer@ == Seq::<char>::empty(),
    {
        self.buffer.clear();
        self.closed = true;
    }
}

} // verus!
