//! The answers a command delivery gives when it cannot forward, and the retry rule on the way
//! out. Every frame a delivery sends rests on one decision of the seat table; these functions
//! word the replies for the decisions that do not forward.

use vstd::prelude::*;

use crate::error::{code_text, no_retry, CommandError, CommandReply, ErrorCode, RetryMode};
use crate::ids::{format_uuid, uuid_text, RequestId};
use crate::seats::Seat;
use crate::text::concat3;

verus! {

/// The message when the asking connection already left — this reply has nowhere to go either.
pub const CALLER_ALREADY_GONE: &'static str = "the calling connection went away before the envelope was sent";

/// The reply a refused seat gives its asker, or `None` when the seat forwards (`Opened`) or the
/// round trip already under way answers for it (`Coalesced`).
///
/// `holder_attached` says whether the connection holding the key is still attached: a live
/// holder means a clash of keys and nothing ran (`REQUEST_ID_CONFLICT`); a departed holder most
/// likely means the same client reconnected and asks again, and its earlier envelope may already
/// have reached the owner (`OUTCOME_UNKNOWN`).
pub open spec fn refusal_reply(seat: Seat, request_id: RequestId, holder_attached: bool) -> Option<(ErrorCode, Seq<char>)> {
    match seat {
        Seat::Opened { .. } => None,
        Seat::Coalesced => None,
        Seat::Conflict => Some((
            ErrorCode::RequestIdConflict,
            "request_id "@ + uuid_text(request_id) + " is already in flight for a different command"@,
        )),
        Seat::Taken { .. } => if holder_attached {
            Some((
                ErrorCode::RequestIdConflict,
                "request_id "@ + uuid_text(request_id) + " is already in flight for another connection"@,
            ))
        } else {
            Some((
                ErrorCode::OutcomeUnknown,
                "request_id "@ + uuid_text(request_id) + " is still held by a round trip whose caller is gone"@,
            ))
        },
        Seat::Closed => Some((
            ErrorCode::OutcomeUnknown,
            "the daemon is shutting down and no longer takes commands"@,
        )),
    }
}

/// The failure carried by `reply`, as code and message.
pub open spec fn failure_of(reply: CommandReply) -> Option<(ErrorCode, Seq<char>)> {
    match reply.outcome {
        Ok(_) => None,
        Err(e) => Some((e.code, e.message@)),
    }
}

/// Words the reply for a seat that was not opened; `None` when no reply is owed from here.
pub fn refused_seat_reply(seat: &Seat, request_id: RequestId, holder_attached: bool) -> (r: Option<CommandReply>)
    ensures
        match r {
            None => refusal_reply(*seat, request_id, holder_attached) is None,
            Some(reply) => {
                &&& reply.request_id == request_id
                &&& Some(failure_of(reply)->0) == refusal_reply(*seat, request_id, holder_attached)
                &&& failure_of(reply) is Some
                &&& reply.outcome->Err_0.retry == RetryMode::Never
            },
        },
{
    match seat {
        Seat::Opened { .. } => None,
        Seat::Coalesced => None,
        Seat::Conflict => {
            let id = format_uuid(request_id);
            let m = concat3("request_id ", id.as_str(), " is already in flight for a different command");
            Some(CommandReply::err(request_id, no_retry(ErrorCode::RequestIdConflict, m)))
        },
        Seat::Taken { .. } => {
            let id = format_uuid(request_id);
            if holder_attached {
                let m = concat3("request_id ", id.as_str(), " is already in flight for another connection");
                Some(CommandReply::err(request_id, no_retry(ErrorCode::RequestIdConflict, m)))
            } else {
                let m = concat3(
                    "request_id ",
                    id.as_str(),
                    " is still held by a round trip whose caller is gone",
                );
                Some(CommandReply::err(request_id, no_retry(ErrorCode::OutcomeUnknown, m)))
            }
        },
        Seat::Closed => {
            let m = "the daemon is shutting down and no longer takes commands".to_owned();
            Some(CommandReply::err(request_id, no_retry(ErrorCode::OutcomeUnknown, m)))
        },
    }
}

/// Why handing the envelope over to the owner failed.
#[derive(Clone, Copy, Debug, PartialEq, Eq, Structural)]
pub enum HandOverFault {
    /// The reply seat of this round trip was already taken out — a second hand-over attempt.
    SecondAttempt,
    /// The asking connection is no longer attached: the command must not run for nobody.
    CallerGone,
    /// The owner was attached at lookup and gone by hand-over.
    OwnerGone,
    /// The envelope could not be encoded.
    EncodeFailed,
    /// The owner's frame queue did not take the envelope (full or closed).
    OwnerQueueRefused,
}

/// The failure each hand-over fault answers with; `name` is the command's name.
pub open spec fn hand_over_failure(fault: HandOverFault, name: Seq<char>) -> (ErrorCode, Seq<char>) {
    match fault {
        HandOverFault::SecondAttempt => (
            ErrorCode::Internal,
            "this daemon tried to hand '"@ + name + "' over twice for one round trip"@,
        ),
        HandOverFault::CallerGone => (ErrorCode::Conflict, CALLER_ALREADY_GONE@),
        HandOverFault::OwnerGone => (
            ErrorCode::OutcomeUnknown,
            "the owner of '"@ + name + "' went away while the envelope was being handed over"@,
        ),
        HandOverFault::EncodeFailed => (
            ErrorCode::Internal,
            "this daemon could not encode the envelope for '"@ + name + "'"@,
        ),
        HandOverFault::OwnerQueueRefused => (
            ErrorCode::OutcomeUnknown,
            "the owner of '"@ + name + "' could not take the envelope right now"@,
        ),
    }
}

/// The failure a hand-over fault is answered with. Its retry hint is `Never`.
pub fn hand_over_refusal(fault: HandOverFault, name: &str) -> (e: CommandError)
    ensures
        (e.code, e.message@) == hand_over_failure(fault, name@),
        e.retry == RetryMode::Never,
{
    match fault {
        HandOverFault::SecondAttempt => no_retry(
            ErrorCode::Internal,
            concat3("this daemon tried to hand '", name, "' over twice for one round trip"),
        ),
        HandOverFault::CallerGone => no_retry(ErrorCode::Conflict, CALLER_ALREADY_GONE.to_owned()),
        HandOverFault::OwnerGone => no_retry(
            ErrorCode::OutcomeUnknown,
            concat3("the owner of '", name, "' went away while the envelope was being handed over"),
        ),
        HandOverFault::EncodeFailed => no_retry(
            ErrorCode::Internal,
            concat3("this daemon could not encode the envelope for '", name, "'"),
        ),
        HandOverFault::OwnerQueueRefused => no_retry(
            ErrorCode::OutcomeUnknown,
            concat3("the owner of '", name, "' could not take the envelope right now"),
        ),
    }
}

/// What a hand-over found, in the order it looks: whether its reply seat was still there to take,
/// whether the asking connection is still attached (an envelope is never sent for a caller that
/// left), whether the owner is still reachable, whether the envelope encoded, and whether the
/// owner's queue took it.
pub open spec fn first_hand_over_fault(
    seat_taken: bool,
    caller_attached: bool,
    owner_reachable: bool,
    encoded: bool,
    queued: bool,
) -> Option<HandOverFault> {
    if !seat_taken {
        Some(HandOverFault::SecondAttempt)
    } else if !caller_attached {
        Some(HandOverFault::CallerGone)
    } else if !owner_reachable {
        Some(HandOverFault::OwnerGone)
    } else if !encoded {
        Some(HandOverFault::EncodeFailed)
    } else if !queued {
        Some(HandOverFault::OwnerQueueRefused)
    } else {
        None
    }
}

/// A caller that left is never forwarded to: once its connection is detached (the cleanup
/// detaches before it sweeps the table), a hand-over that finds the caller gone answers with a
/// fault instead of sending the envelope.
pub proof fn lemma_a_detached_caller_is_never_forwarded(seat_taken: bool, owner_reachable: bool, encoded: bool, queued: bool)
    ensures
        first_hand_over_fault(seat_taken, false, owner_reachable, encoded, queued) is Some,
        seat_taken ==> first_hand_over_fault(seat_taken, false, owner_reachable, encoded, queued)
            == Some(HandOverFault::CallerGone),
{
}

/// Decides the hand-over: `None` means the envelope is with the owner and the reply seat is
/// awaited; otherwise the fault the round trip is answered with.
pub fn hand_over_verdict(
    seat_taken: bool,
    caller_attached: bool,
    owner_reachable: bool,
    encoded: bool,
    queued: bool,
) -> (r: Option<HandOverFault>)
    ensures
        r == first_hand_over_fault(seat_taken, caller_attached, owner_reachable, encoded, queued),
{
    if !seat_taken {
        Some(HandOverFault::SecondAttempt)
    } else if !caller_attached {
        Some(HandOverFault::CallerGone)
    } else if !owner_reachable {
        Some(HandOverFault::OwnerGone)
    } else if !encoded {
        Some(HandOverFault::EncodeFailed)
    } else if !queued {
        Some(HandOverFault::OwnerQueueRefused)
    } else {
        None
    }
}

/// The answer of a round trip whose deadline passed (`TIMEOUT`, final).
pub fn timeout_reply(request_id: RequestId) -> (r: CommandReply)
    ensures
        r.request_id == request_id,
        failure_of(r) == Some((ErrorCode::Timeout, "the owner did not answer before the deadline"@)),
        r.outcome->Err_0.retry == RetryMode::Never,
{
    CommandReply::err(
        request_id,
        no_retry(ErrorCode::Timeout, "the owner did not answer before the deadline".to_owned()),
    )
}

/// The answer of a round trip still in flight at shutdown (`OUTCOME_UNKNOWN`, final).
pub fn shutdown_reply(request_id: RequestId) -> (r: CommandReply)
    ensures
        r.request_id == request_id,
        failure_of(r) == Some(
            (ErrorCode::OutcomeUnknown, "the daemon shut down while this command was in flight"@),
        ),
        r.outcome->Err_0.retry == RetryMode::Never,
{
    CommandReply::err(
        request_id,
        no_retry(
            ErrorCode::OutcomeUnknown,
            "the daemon shut down while this command was in flight".to_owned(),
        ),
    )
}

/// The answer when the seat vanished without a reply — the asking connection went away.
pub fn caller_gone_reply(request_id: RequestId) -> (r: CommandReply)
    ensures
        r.request_id == request_id,
        failure_of(r) == Some(
            (ErrorCode::OutcomeUnknown, "the caller's connection went away before the owner answered"@),
        ),
        r.outcome->Err_0.retry == RetryMode::Never,
{
    CommandReply::err(
        request_id,
        no_retry(
            ErrorCode::OutcomeUnknown,
            "the caller's connection went away before the owner answered".to_owned(),
        ),
    )
}

/// The answer of a round trip whose owner's connection went away after the envelope was handed
/// to it (`OUTCOME_UNKNOWN`: the command may or may not have run).
pub fn owner_gone_reply(request_id: RequestId) -> (r: CommandReply)
    ensures
        r.request_id == request_id,
        failure_of(r) == Some(
            (ErrorCode::OutcomeUnknown, "the owner's connection went away before it answered"@),
        ),
        r.outcome->Err_0.retry == RetryMode::Never,
{
    CommandReply::err(
        request_id,
        no_retry(
            ErrorCode::OutcomeUnknown,
            "the owner's connection went away before it answered".to_owned(),
        ),
    )
}

/// The one exit rule of every reply this daemon sends a caller: a failure leaves with the retry
/// hint `Never`, whoever built it (this daemon, or the owner it relays). Code, message, the
/// owner's own error object (its code and extra fields as written) and success payloads pass
/// unchanged; the typed retry hint is the one the frame carries.
pub fn lower_retry(reply: CommandReply) -> (r: CommandReply)
    ensures
        r.request_id == reply.request_id,
        failure_of(r) == failure_of(reply),
        reply.outcome is Ok ==> r.outcome == reply.outcome,
        r.outcome is Err ==> r.outcome->Err_0.retry == RetryMode::Never,
        reply.outcome is Err ==> r.outcome is Err && r.outcome->Err_0.received == reply.outcome->Err_0.received,
{
    let CommandReply { request_id, outcome } = reply;
    match outcome {
        Ok(payload) => CommandReply { request_id, outcome: Ok(payload) },
        Err(e) => {
            let CommandError { code, message, retry: _, received } = e;
            CommandReply { request_id, outcome: Err(CommandError { code, message, retry: RetryMode::Never, received }) }
        },
    }
}

} // verus!
