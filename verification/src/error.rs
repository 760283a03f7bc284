//! Closed taxonomy of translation failures, their user-safe messages, the
//! classification of transport and HTTP signals into it, and the bounded
//! history of recorded failures kept for diagnostics.
use vstd::prelude::*;
use vstd::string::{StrSliceExecFns, StringExecFns};
use crate::strutil::{spec_dec_str, u64_to_dec};

verus! {

/// Most recent failures kept by the diagnostics history.
pub const MAX_ERROR_HISTORY: usize = 50;

/// Structured error type for translation operations.
#[derive(Debug, Clone)]
pub enum TranslateError {
    /// API key not configured
    ApiKeyMissing,
    /// Invalid or expired API key (HTTP 401)
    AuthenticationFailed { message: String },
    /// Rate limit exceeded (HTTP 429)
    RateLimitExceeded { retry_after_secs: Option<u64> },
    /// Backend overloaded (HTTP 529)
    Overloaded,
    /// Request timeout
    Timeout { timeout_secs: u64 },
    /// Network connectivity issue
    NetworkError { message: String },
    /// Any other non-success status returned by the API
    ApiError { status: u16, message: String },
    /// Failed to parse the API response
    ParseError { message: String },
    /// Stream closed without a terminator event
    IncompleteResponse,
    /// Generic/unknown error
    Unknown { message: String },
}

/// The user-facing message owed for each error, character for character.
pub open spec fn spec_user_message(e: TranslateError) -> Seq<char> {
    match e {
        TranslateError::ApiKeyMissing => "API key not configured. Please add your API key in Settings."@,
        TranslateError::AuthenticationFailed { message } => "Invalid API key. Please check your API key in Settings."@
            + if message@.len() > 0 {
                " "@ + message@
            } else {
                Seq::<char>::empty()
            },
        TranslateError::RateLimitExceeded { retry_after_secs } => match retry_after_secs {
            Some(secs) => "Rate limit exceeded. Please wait "@ + spec_dec_str(secs as nat)
                + " seconds."@,
            None => "Rate limit exceeded. Please wait a moment and try again."@,
        },
        TranslateError::Overloaded => "The API is currently overloaded. Please try again in a moment."@,
        TranslateError::Timeout { timeout_secs } => "Request timed out after "@ + spec_dec_str(
            timeout_secs as nat,
        ) + " seconds. Please try again."@,
        TranslateError::NetworkError { message } => "Network error. Please check your internet connection."@,
        TranslateError::ApiError { status, message } => "API error ("@ + spec_dec_str(status as nat)
            + "): "@ + message@,
        TranslateError::ParseError { message } => "Failed to parse API response. Please try again."@,
        TranslateError::IncompleteResponse => "The response ended before it was complete. Please try again."@,
        TranslateError::Unknown { message } => "An error occurred: "@ + message@,
    }
}

/// The name of the variant, used to tag diagnostics records.
pub open spec fn spec_kind_name(e: TranslateError) -> Seq<char> {
    match e {
        TranslateError::ApiKeyMissing => "ApiKeyMissing"@,
        TranslateError::AuthenticationFailed { message } => "AuthenticationFailed"@,
        TranslateError::RateLimitExceeded { retry_after_secs } => "RateLimitExceeded"@,
        TranslateError::Overloaded => "Overloaded"@,
        TranslateError::Timeout { timeout_secs } => "Timeout"@,
        TranslateError::NetworkError { message } => "NetworkError"@,
        TranslateError::ApiError { status, message } => "ApiError"@,
        TranslateError::ParseError { message } => "ParseError"@,
        TranslateError::IncompleteResponse => "IncompleteResponse"@,
        TranslateError::Unknown { message } => "Unknown"@,
    }
}

impl TranslateError {
    /// User-friendly error message, safe for display: never the raw response
    /// body, never a secret. An authentication failure and an API error
    /// carry the server's own words, but only the extracted
    /// `error.message` field, never anything else from the response.
    pub fn user_message(&self) -> (r: String)
        ensures
            r@ == spec_user_message(*self),
    {
        match self {
            TranslateError::ApiKeyMissing => String::from_str(
                "API key not configured. Please add your API key in Settings.",
            ),
            TranslateError::AuthenticationFailed { message } => {
                let mut s = String::from_str("Invalid API key. Please check your API key in Settings.");
                if !message.as_str().is_empty() {
                    s.append(" ");
                    s.append(message.as_str());
                    proof {
                        assert(s@ =~= spec_user_message(*self));
                    }
                } else {
                    proof {
                        assert(s@ =~= spec_user_message(*self));
                    }
                }
                s
            },
            TranslateError::RateLimitExceeded { retry_after_secs } => match retry_after_secs {
                Some(secs) => {
                    let mut s = String::from_str("Rate limit exceeded. Please wait ");
                    let num = u64_to_dec(*secs);
                    s.append(num.as_str());
                    s.append(" seconds.");
                    s
                },
                None => String::from_str("Rate limit exceeded. Please wait a moment and try again."),
            },
            TranslateError::Overloaded => String::from_str(
                "The API is currently overloaded. Please try again in a moment.",
            ),
            TranslateError::Timeout { timeout_secs } => {
                let mut s = String::from_str("Request timed out after ");
                let num = u64_to_dec(*timeout_secs);
                s.append(num.as_str());
                s.append(" seconds. Please try again.");
                s
            },
            TranslateError::NetworkError { message } => String::from_str(
                "Network error. Please check your internet connection.",
            ),
            TranslateError::ApiError { status, message } => {
                let mut s = String::from_str("API error (");
                let num = u64_to_dec(*status as u64);
                s.append(num.as_str());
                s.append("): ");
                s.append(message.as_str());
                s
            },
            TranslateError::ParseError { message } => String::from_str(
                "Failed to parse API response. Please try again.",
            ),
            TranslateError::IncompleteResponse => String::from_str(
                "The response ended before it was complete. Please try again.",
            ),
            TranslateError::Unknown { message } => {
                let mut s = String::from_str("An error occurred: ");
                s.append(message.as_str());
                s
            },
        }
    }

    /// The variant's name, used as the kind tag of a diagnostics record.
    pub fn kind_name(&self) -> (r: String)
        ensures
            r@ == spec_kind_name(*self),
    {
        match self {
            TranslateError::ApiKeyMissing => String::from_str("ApiKeyMissing"),
            TranslateError::AuthenticationFailed { message } => String::from_str(
                "AuthenticationFailed",
            ),
            TranslateError::RateLimitExceeded { retry_after_secs } => String::from_str(
                "RateLimitExceeded",
            ),
            TranslateError::Overloaded => String::from_str("Overloaded"),
            TranslateError::Timeout { timeout_secs } => String::from_str("Timeout"),
            TranslateError::NetworkError { message } => String::from_str("NetworkError"),
            TranslateError::ApiError { status, message } => String::from_str("ApiError"),
            TranslateError::ParseError { message } => String::from_str("ParseError"),
            TranslateError::IncompleteResponse => String::from_str("IncompleteResponse"),
            TranslateError::Unknown { message } => String::from_str("Unknown"),
        }
    }
}

/// True for an HTTP status that reports success.
pub open spec fn spec_is_success_status(status: u16) -> bool {
    200 <= status < 300
}

/// Classifies a non-success HTTP response. A 401 always becomes
/// `AuthenticationFailed`, a 429 `RateLimitExceeded` with the server's
/// retry hint, a 529 `Overloaded`, and anything else `ApiError` carrying
/// the status and the server's message. A success status yields `None`.
pub fn classify_http_status(status: u16, retry_after_secs: Option<u64>, message: String) -> (r:
    Option<TranslateError>)
    ensures
        spec_is_success_status(status) ==> r is None,
        !spec_is_success_status(status) ==> r == Some(
            if status == 401 {
                TranslateError::AuthenticationFailed { message }
            } else if status == 429 {
                TranslateError::RateLimitExceeded { retry_after_secs }
            } else if status == 529 {
                TranslateError::Overloaded
            } else {
                TranslateError::ApiError { status, message }
            },
        ),
{
    if 200 <= status && status < 300 {
        None
    } else if status == 401 {
        Some(TranslateError::AuthenticationFailed { message })
    } else if status == 429 {
        Some(TranslateError::RateLimitExceeded { retry_after_secs })
    } else if status == 529 {
        Some(TranslateError::Overloaded)
    } else {
        Some(TranslateError::ApiError { status, message })
    }
}

/// Classifies a transport-level failure from the two signals the HTTP
/// client reports: a timeout becomes `Timeout` with the configured bound,
/// a connection failure `NetworkError`, anything else `Unknown`.
pub fn classify_transport_error(is_timeout: bool, is_connect: bool, message: String) -> (r:
    TranslateError)
    ensures
        is_timeout ==> r == (TranslateError::Timeout {
            timeout_secs: crate::REQUEST_TIMEOUT_SECS,
        }),
        !is_timeout && is_connect ==> r == (TranslateError::NetworkError { message }),
        !is_timeout && !is_connect ==> r == (TranslateError::Unknown { message }),
{
    if is_timeout {
        TranslateError::Timeout { timeout_secs: crate::REQUEST_TIMEOUT_SECS }
    } else if is_connect {
        TranslateError::NetworkError { message }
    } else {
        TranslateError::Unknown { message }
    }
}

/// One recorded failure: when it happened, which kind, the user-safe
/// message, how long the input was (never the input itself), and the model.
#[derive(Debug, Clone)]
pub struct ErrorHistoryEntry {
    /// Unix timestamp in seconds
    pub timestamp: i64,
    /// Variant name, e.g. "RateLimitExceeded"
    pub error_type: String,
    /// User-friendly error message
    pub error_message: String,
    /// Length of the input text that triggered the error
    pub input_length: usize,
    /// Model in use when the error occurred
    pub model: String,
}

/// What the history holds after recording `e`: everything it held, then
/// `e`, trimmed at the front to the most recent `MAX_ERROR_HISTORY`.
pub open spec fn spec_record(s: Seq<ErrorHistoryEntry>, e: ErrorHistoryEntry) -> Seq<
    ErrorHistoryEntry,
> {
    let grown = s + seq![e];
    if grown.len() > MAX_ERROR_HISTORY {
        grown.skip(grown.len() - MAX_ERROR_HISTORY)
    } else {
        grown
    }
}

/// Bounded ring of the most recent failures, oldest first.
pub struct ErrorHistory {
    entries: Vec<ErrorHistoryEntry>,
}

impl ErrorHistory {
    /// A history with nothing recorded.
    pub fn new() -> (r: ErrorHistory)
        ensures
            r@ == Seq::<ErrorHistoryEntry>::empty(),
    {
        ErrorHistory { entries: Vec::new() }
    }

    /// Rebuilds a history from persisted entries.
    pub fn from_entries(entries: Vec<ErrorHistoryEntry>) -> (r: ErrorHistory)
        ensures
            r@ == entries@,
    {
        ErrorHistory { entries }
    }

    /// The recorded entries, oldest first.
    pub fn entries(&self) -> (r: &Vec<ErrorHistoryEntry>)
        ensures
            r@ == self@,
    {
        &self.entries
    }

    /// Appends one failure, dropping the oldest entries beyond the cap.
    pub fn record(&mut self, entry: ErrorHistoryEntry)
        ensures
            final(self)@ == spec_record(old(self)@, entry),
    {
        self.entries.push(entry);
        let ghost grown = self.entries@;
        proof {
            assert(self.entries@ =~= grown.skip(grown.len() - self.entries@.len()));
        }
        while self.entries.len() > MAX_ERROR_HISTORY
            invariant
                grown.len() <= old(self)@.len() + 1,
                self.entries@.len() <= grown.len(),
                self.entries@.len() >= MAX_ERROR_HISTORY || self.entries@.len() == grown.len(),
                self.entries@ == grown.skip(grown.len() - self.entries@.len()),
            decreases self.entries@.len(),
        {
            self.entries.remove(0);
            proof {
                assert(self.entries@ =~= grown.skip(grown.len() - self.entries@.len()));
            }
        }
        proof {
            if grown.len() <= MAX_ERROR_HISTORY {
                assert(self.entries@ =~= grown);
            }
        }
    }

    /// Forgets everything recorded.
    pub fn clear(&mut self)
        ensures
            final(self)@ == Seq::<ErrorHistoryEntry>::empty(),
    {
        self.entries.clear();
    }
}

impl View for ErrorHistory {
    type V = Seq<ErrorHistoryEntry>;

    closed spec fn view(&self) -> Seq<ErrorHistoryEntry> {
        self.entries@
    }
}

/// Builds the diagnostics record for a failure and appends it to the
/// history: the kind tag and user-safe message of `e`, the input's length
/// (never its content), the model, and the given timestamp.
pub fn record_error(
    history: &mut ErrorHistory,
    e: &TranslateError,
    input_length: usize,
    model: &str,
    now: i64,
)
    ensures
        final(history)@.len() > 0,
        final(history)@ == spec_record(old(history)@, final(history)@.last()),
        ({
            let rec = final(history)@.last();
            &&& rec.timestamp == now
            &&& rec.error_type@ == spec_kind_name(*e)
            &&& rec.error_message@ == spec_user_message(*e)
            &&& rec.input_length == input_length
            &&& rec.model@ == model@
        }),
{
    let entry = ErrorHistoryEntry {
        timestamp: now,
        error_type: e.kind_name(),
        error_message: e.user_message(),
        input_length,
        model: String::from_str(model),
    };
    history.record(entry);
    proof {
        assert(history@.last() == entry);
    }
}

} // verus!
