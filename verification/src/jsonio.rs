//! The crate's narrow window onto serde_json. The protocol payloads are
//! JSON documents; what serde_json extracts from one is named by an
//! uninterpreted function of the document alone, each trusted reader's
//! contract ties its result to that name, and everything that
//! interprets the extracted plain values is verified code.
use vstd::prelude::*;
use vstd::string::StringExecFns;
use crate::error::TranslateError;

verus! {

/// The view of an optional string.
pub open spec fn spec_view_opt(o: Option<String>) -> Option<Seq<char>> {
    match o {
        Some(s) => Some(s@),
        None => None,
    }
}

/// The plain values a protocol event document may carry: its tag, the
/// content-block index, the delta text, and the usage counters.
pub struct RawEventFields {
    /// The document's `type` tag
    pub event_type: String,
    /// The content-block index, where the document carries one
    pub index: Option<u64>,
    /// The text under `delta.text`, where the document carries it
    pub delta_text: Option<String>,
    /// `usage.input_tokens` and `usage.output_tokens`, where both exist
    pub usage: Option<(u64, u64)>,
}

/// The mathematical image of the extracted fields.
pub struct RawEventFieldsModel {
    pub event_type: Seq<char>,
    pub index: Option<u64>,
    pub delta_text: Option<Seq<char>>,
    pub usage: Option<(u64, u64)>,
}

/// The image of extracted fields as the contracts speak of them.
pub open spec fn abs_fields(f: RawEventFields) -> RawEventFieldsModel {
    RawEventFieldsModel {
        event_type: f.event_type@,
        index: f.index,
        delta_text: spec_view_opt(f.delta_text),
        usage: f.usage,
    }
}

/// Names what serde_json extracts from one `data:` payload: nothing for
/// a payload that is not a JSON document with a string `type`; else the
/// tag, the `index` where it is an unsigned number, the `delta.text`
/// where it is a string, and the usage pair where both counters are
/// unsigned numbers. A function of the payload alone.
pub uninterp spec fn event_fields_of(payload: Seq<char>) -> Option<RawEventFieldsModel>;

/// Relies on serde_json — `from_str` for `Value` and the `get`,
/// `as_str` and `as_u64` accessors — to pull the protocol fields out of
/// one payload; the result is a function of the payload alone.
#[verifier::external_body]
pub fn extract_event_fields(data: &str) -> (r: Option<RawEventFields>)
    ensures
        match r {
            Some(f) => event_fields_of(data@) == Some(abs_fields(f)),
            None => event_fields_of(data@) is None,
        },
{
    let v: serde_json::Value = serde_json::from_str(data).ok()?;
    let event_type = v.get("type")?.as_str()?.to_string();
    let index = v.get("index").and_then(|i| i.as_u64());
    let delta_text = v.get("delta").and_then(|d| d.get("text")).and_then(|t| t.as_str()).map(String::from);
    let input = v.get("usage").and_then(|u| u.get("input_tokens")).and_then(|x| x.as_u64());
    let output = v.get("usage").and_then(|u| u.get("output_tokens")).and_then(|x| x.as_u64());
    Some(RawEventFields { event_type, index, delta_text, usage: input.zip(output) })
}

/// Names the server's message in an error body: the string under
/// `error.message` exactly when the body is a JSON document carrying
/// one. A function of the body alone.
pub uninterp spec fn error_message_of(body: Seq<char>) -> Option<Seq<char>>;

/// Relies on serde_json — `from_str` for `Value`, `get` and `as_str` —
/// for the string under `error.message`, if the body carries one.
#[verifier::external_body]
fn server_error_message(body: &str) -> (r: Option<String>)
    ensures
        match r {
            Some(m) => error_message_of(body@) == Some(m@),
            None => error_message_of(body@) is None,
        },
{
    let v: serde_json::Value = serde_json::from_str(body).ok()?;
    v.get("error")?.get("message")?.as_str().map(String::from)
}

/// The words an error body contributes to a user-facing message: the
/// extracted `error.message`, or the fixed fallback — never any other
/// fragment of the body.
pub open spec fn spec_api_error_message(body: Seq<char>) -> Seq<char> {
    match error_message_of(body) {
        Some(m) => m,
        None => "Unknown API error"@,
    }
}

/// The server's own words for an error, taken from the body's
/// `error.message` field only, so nothing else in the response can leak
/// into a user-facing message. A body without that field yields the
/// fixed fallback.
pub fn parse_api_error_message(body: &str) -> (r: String)
    ensures
        r@ == spec_api_error_message(body@),
{
    match server_error_message(body) {
        Some(m) => m,
        None => String::from_str("Unknown API error"),
    }
}

/// Names the content blocks serde_json finds in a one-shot response
/// body: nothing unless the body is a JSON document whose `content` is
/// an array; else one entry per block — the block's `text` where it is
/// a string, nothing for a block without one. A function of the body
/// alone.
pub uninterp spec fn content_texts_of(body: Seq<char>) -> Option<Seq<Option<Seq<char>>>>;

/// Relies on serde_json — `from_str` for `Value`, `get`, `as_array` and
/// `as_str` — mapping each content block to its optional text, or
/// reporting the parser's message.
#[verifier::external_body]
fn content_block_texts(body: &str) -> (r: Result<Vec<Option<String>>, String>)
    ensures
        match r {
            Ok(v) => content_texts_of(body@) == Some(
                v@.map_values(|o: Option<String>| spec_view_opt(o)),
            ),
            Err(m) => content_texts_of(body@) is None,
        },
{
    let v: serde_json::Value = serde_json::from_str(body).map_err(|e| e.to_string())?;
    match v.get("content").and_then(|c| c.as_array()) {
        Some(blocks) => Ok(blocks
            .iter()
            .map(|b| b.get("text").and_then(|t| t.as_str()).map(String::from))
            .collect()),
        None => Err(String::from("response carries no content array")),
    }
}

/// The texts of the blocks that carry one, joined in order.
pub open spec fn spec_join_texts(ts: Seq<Option<Seq<char>>>) -> Seq<char>
    decreases ts.len(),
{
    if ts.len() == 0 {
        Seq::empty()
    } else {
        spec_join_texts(ts.drop_last()) + match ts.last() {
            Some(t) => t,
            None => Seq::<char>::empty(),
        }
    }
}

/// Reads the one-shot (non-streaming) response body: exactly the named
/// content blocks' texts, joined in order, blocks without text skipped.
/// A body without such blocks is a parse error carrying the parser's
/// words, never the body itself.
pub fn parse_once_response(body: &str) -> (r: Result<String, TranslateError>)
    ensures
        match content_texts_of(body@) {
            Some(ts) => r matches Ok(t) && t@ == spec_join_texts(ts),
            None => r matches Err(e) && e is ParseError,
        },
{
    let blocks = match content_block_texts(body) {
        Ok(v) => v,
        Err(msg) => {
            return Err(TranslateError::ParseError { message: msg });
        },
    };
    let ghost ts = blocks@.map_values(|o: Option<String>| spec_view_opt(o));
    let mut out = String::new();
    let n = blocks.len();
    proof {
        assert(ts.take(0) =~= Seq::<Option<Seq<char>>>::empty());
    }
    let mut i: usize = 0;
    while i < n
        invariant
            i <= n,
            n == blocks@.len(),
            ts == blocks@.map_values(|o: Option<String>| spec_view_opt(o)),
            out@ == spec_join_texts(ts.take(i as int)),
        decreases n - i,
    {
        proof {
            assert(ts.take(i + 1 as int).drop_last() =~= ts.take(i as int));
            assert(ts.take(i + 1 as int).last() == ts[i as int]);
        }
        match &blocks[i] {
            Some(t) => {
                out.append(t.as_str());
            },
            None => {
            },
        }
        i = i + 1;
    }
    proof {
        assert(ts.take(n as int) =~= ts);
    }
    Ok(out)
}

} // verus!
