//! The typed failure vocabulary that travels in command replies.

use vstd::prelude::*;

use crate::ids::RequestId;
use crate::text::same_text;

verus! {

/// What went wrong, as a wire code.
#[derive(Clone, Copy, Debug, PartialEq, Eq, Structural)]
pub enum ErrorCode {
    InvalidArgument,
    UnknownCommand,
    NotFound,
    Conflict,
    Internal,
    OutcomeUnknown,
    Timeout,
    RequestIdConflict,
}

/// What the caller may do next with the same request.
#[derive(Clone, Copy, Debug, PartialEq, Eq, Structural)]
pub enum RetryMode {
    /// Do not ask again under this request id.
    Never,
    /// Asking again under the same request id is safe.
    SameRequestId,
    /// Ask again, but under a new request id.
    NewRequestId,
}

/// The wire word of each retry hint.
pub open spec fn retry_text(r: RetryMode) -> Seq<char> {
    match r {
        RetryMode::Never => "never"@,
        RetryMode::SameRequestId => "same-request-id"@,
        RetryMode::NewRequestId => "new-request-id"@,
    }
}

/// The retry hint a wire word reads as: a known word is itself, any other reads as `Never` (the
/// safe reading: nothing is asked again on a hint this daemon does not understand).
pub open spec fn retry_of_text(t: Seq<char>) -> RetryMode {
    if t == "same-request-id"@ {
        RetryMode::SameRequestId
    } else if t == "new-request-id"@ {
        RetryMode::NewRequestId
    } else {
        RetryMode::Never
    }
}

impl RetryMode {
    pub fn as_str(&self) -> (s: &'static str)
        ensures
            s@ == retry_text(*self),
    {
        match self {
            RetryMode::Never => "never",
            RetryMode::SameRequestId => "same-request-id",
            RetryMode::NewRequestId => "new-request-id",
        }
    }

    /// Reads a wire word; see `retry_of_text`.
    pub fn read(text: &str) -> (r: RetryMode)
        ensures
            r == retry_of_text(text@),
    {
        if same_text(text, "same-request-id") {
            RetryMode::SameRequestId
        } else if same_text(text, "new-request-id") {
            RetryMode::NewRequestId
        } else {
            RetryMode::Never
        }
    }
}

/// Every retry hint this daemon writes reads back as itself.
pub proof fn lemma_a_written_retry_reads_back(r: RetryMode)
    ensures
        retry_of_text(retry_text(r)) == r,
{
    reveal_strlit("never");
    reveal_strlit("same-request-id");
    reveal_strlit("new-request-id");
    assert("never"@[0] != "same-request-id"@[0]);
    assert("never"@.len() != "new-request-id"@.len());
    assert("same-request-id"@[0] != "new-request-id"@[0]);
}

/// The wire text of each code.
pub open spec fn code_text(code: ErrorCode) -> Seq<char> {
    match code {
        ErrorCode::InvalidArgument => "INVALID_ARGUMENT"@,
        ErrorCode::UnknownCommand => "UNKNOWN_COMMAND"@,
        ErrorCode::NotFound => "NOT_FOUND"@,
        ErrorCode::Conflict => "CONFLICT"@,
        ErrorCode::Internal => "INTERNAL"@,
        ErrorCode::OutcomeUnknown => "OUTCOME_UNKNOWN"@,
        ErrorCode::Timeout => "TIMEOUT"@,
        ErrorCode::RequestIdConflict => "REQUEST_ID_CONFLICT"@,
    }
}

/// The retry hint a code carries by default: an outcome that is uncertain may be asked about
/// again under the same id, a clashing id calls for a new one, everything else is final.
pub open spec fn default_retry(code: ErrorCode) -> RetryMode {
    match code {
        ErrorCode::OutcomeUnknown | ErrorCode::Timeout => RetryMode::SameRequestId,
        ErrorCode::RequestIdConflict => RetryMode::NewRequestId,
        _ => RetryMode::Never,
    }
}

/// The code a wire text reads as: a known code is itself, any other reads as `Internal` (the
/// text itself still travels in a relayed failure's `received` object).
pub open spec fn code_of_text(t: Seq<char>) -> ErrorCode {
    if t == "INVALID_ARGUMENT"@ {
        ErrorCode::InvalidArgument
    } else if t == "UNKNOWN_COMMAND"@ {
        ErrorCode::UnknownCommand
    } else if t == "NOT_FOUND"@ {
        ErrorCode::NotFound
    } else if t == "CONFLICT"@ {
        ErrorCode::Conflict
    } else if t == "OUTCOME_UNKNOWN"@ {
        ErrorCode::OutcomeUnknown
    } else if t == "TIMEOUT"@ {
        ErrorCode::Timeout
    } else if t == "REQUEST_ID_CONFLICT"@ {
        ErrorCode::RequestIdConflict
    } else {
        ErrorCode::Internal
    }
}

/// Every code this daemon writes reads back as itself.
pub proof fn lemma_a_written_code_reads_back(c: ErrorCode)
    ensures
        code_of_text(code_text(c)) == c,
{
    reveal_strlit("INVALID_ARGUMENT");
    reveal_strlit("UNKNOWN_COMMAND");
    reveal_strlit("NOT_FOUND");
    reveal_strlit("CONFLICT");
    reveal_strlit("INTERNAL");
    reveal_strlit("OUTCOME_UNKNOWN");
    reveal_strlit("TIMEOUT");
    reveal_strlit("REQUEST_ID_CONFLICT");
    assert("INVALID_ARGUMENT"@[0] != "UNKNOWN_COMMAND"@[0]);
    assert("NOT_FOUND"@[0] != "CONFLICT"@[0]);
    assert("OUTCOME_UNKNOWN"@[0] != "TIMEOUT"@[0]);
    assert("REQUEST_ID_CONFLICT"@[0] != "INTERNAL"@[0]);
    assert("INTERNAL"@[0] != "CONFLICT"@[0]);
    assert("INTERNAL"@[0] != "TIMEOUT"@[0]);
    assert("INTERNAL"@[2] != "INVALID_ARGUMENT"@[2]);
    assert("CONFLICT"@[0] != "UNKNOWN_COMMAND"@[0]);
}

impl ErrorCode {
    /// Reads a wire code; see `code_of_text`.
    pub fn read(text: &str) -> (c: ErrorCode)
        ensures
            c == code_of_text(text@),
    {
        if same_text(text, "INVALID_ARGUMENT") {
            ErrorCode::InvalidArgument
        } else if same_text(text, "UNKNOWN_COMMAND") {
            ErrorCode::UnknownCommand
        } else if same_text(text, "NOT_FOUND") {
            ErrorCode::NotFound
        } else if same_text(text, "CONFLICT") {
            ErrorCode::Conflict
        } else if same_text(text, "OUTCOME_UNKNOWN") {
            ErrorCode::OutcomeUnknown
        } else if same_text(text, "TIMEOUT") {
            ErrorCode::Timeout
        } else if same_text(text, "REQUEST_ID_CONFLICT") {
            ErrorCode::RequestIdConflict
        } else {
            ErrorCode::Internal
        }
    }

    pub fn as_str(&self) -> (s: &'static str)
        ensures
            s@ == code_text(*self),
    {
        match self {
            ErrorCode::InvalidArgument => "INVALID_ARGUMENT",
            ErrorCode::UnknownCommand => "UNKNOWN_COMMAND",
            ErrorCode::NotFound => "NOT_FOUND",
            ErrorCode::Conflict => "CONFLICT",
            ErrorCode::Internal => "INTERNAL",
            ErrorCode::OutcomeUnknown => "OUTCOME_UNKNOWN",
            ErrorCode::Timeout => "TIMEOUT",
            ErrorCode::RequestIdConflict => "REQUEST_ID_CONFLICT",
        }
    }
}

/// A typed failure: code, message and retry hint — and, for a failure relayed from an owner,
/// the error object exactly as the owner wrote it, so that a code this daemon does not know and
/// fields outside the contract (a `hint`) reach the caller unchanged.
#[derive(Debug)]
pub struct CommandError {
    pub code: ErrorCode,
    pub message: String,
    pub retry: RetryMode,
    /// The owner's own error object; `None` for a failure built here.
    pub received: Option<serde_json::Value>,
}

impl CommandError {
    /// A failure whose retry hint follows from its code.
    pub fn of(code: ErrorCode, message: String) -> (e: CommandError)
        ensures
            e.code == code,
            e.message@ == message@,
            e.retry == default_retry(code),
            e.received is None,
    {
        let retry = match code {
            ErrorCode::OutcomeUnknown | ErrorCode::Timeout => RetryMode::SameRequestId,
            ErrorCode::RequestIdConflict => RetryMode::NewRequestId,
            _ => RetryMode::Never,
        };
        CommandError { code, message, retry, received: None }
    }

    /// A failure with an explicit retry hint.
    pub fn with_retry(code: ErrorCode, message: String, retry: RetryMode) -> (e: CommandError)
        ensures
            e.code == code,
            e.message@ == message@,
            e.retry == retry,
            e.received is None,
    {
        CommandError { code, message, retry, received: None }
    }

    /// A failure as an owner sent it: its typed reading (an unknown code reads as `Internal`)
    /// and the object it was read from.
    pub fn relayed(code: ErrorCode, message: String, retry: RetryMode, received: serde_json::Value) -> (e: CommandError)
        ensures
            e.code == code,
            e.message@ == message@,
            e.retry == retry,
            e.received == Some(received),
    {
        CommandError { code, message, retry, received: Some(received) }
    }
}

/// A failure this daemon builds on the delivery path: its retry hint is always `Never`.
///
/// Asking again under the same id would be safe only if completed requests were replayed from a
/// store, and there is no such store — a repeat would run the command a second time.
pub fn no_retry(code: ErrorCode, message: String) -> (e: CommandError)
    ensures
        e.code == code,
        e.message@ == message@,
        e.retry == RetryMode::Never,
        e.received is None,
{
    CommandError::with_retry(code, message, RetryMode::Never)
}

/// JSON payload of a successful reply — carried through unopened.
#[verifier::external_type_specification]
#[verifier::external_body]
pub struct ExJsonValue(serde_json::Value);

/// The one answer to one command round trip.
pub struct CommandReply {
    pub request_id: RequestId,
    pub outcome: Result<serde_json::Value, CommandError>,
}

impl CommandReply {
    pub fn err(request_id: RequestId, error: CommandError) -> (r: CommandReply)
        ensures
            r.request_id == request_id,
            r.outcome == Err::<serde_json::Value, CommandError>(error),
    {
        CommandReply { request_id, outcome: Err(error) }
    }

    pub fn ok(request_id: RequestId, payload: serde_json::Value) -> (r: CommandReply)
        ensures
            r.request_id == request_id,
            r.outcome == Ok::<serde_json::Value, CommandError>(payload),
    {
        CommandReply { request_id, outcome: Ok(payload) }
    }
}

} // verus!
