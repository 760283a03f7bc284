//! Core of a clipboard-translation pipeline: request building, cost
//! accounting, a content-addressed translation cache, server-sent-event
//! stream decoding, and the orchestration state machine that ties them
//! together. OS integration (windows, clipboard, keychain, HTTP transport)
//! lives outside this crate and talks to it through plain values.
pub mod cache;
pub mod decoder;
pub mod error;
pub mod jsonio;
pub mod mask;
pub mod orchestrator;
pub mod pricing;
pub mod request;
pub mod sanitize;
pub mod settings;
pub mod strutil;

use vstd::prelude::*;

verus! {

/// Seconds before a request is abandoned with a timeout error.
pub const REQUEST_TIMEOUT_SECS: u64 = 30;

/// Whether a secret key is present. Secret retrieval is a capability of
/// the surrounding shell; it hands the stored secret in, and this is
/// the one question the pipeline asks of it.
pub fn has_api_key(api_key: &Option<String>) -> (r: bool)
    ensures
        r == api_key.is_some(),
{
    match api_key {
        Some(_) => true,
        None => false,
    }
}

} // verus!
