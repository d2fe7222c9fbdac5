//! Decisions of an asynchronous export job: after the job is started its
//! download address is polled until the server reports it ready, failed, or
//! answers with a status it does not explain.
//!
//! The caller performs each action and reports what happened as the next event.

use vstd::prelude::*;

verus! {

/// The job is still running.
pub const STATUS_CONFLICT: u16 = 409;

/// The result is ready.
pub const STATUS_OK: u16 = 200;

/// The job failed; the body explains why.
pub const STATUS_GONE: u16 = 410;

/// Pause between two polls of a running job.
pub const POLL_INTERVAL_SECONDS: u64 = 1;

/// Where a job stands.
#[derive(Debug, PartialEq, Eq, Structural)]
pub enum ExportPhase {
    /// The start of the export has been requested.
    Requested,
    /// The job runs; its download address is being polled.
    Pending,
    /// The result is ready (terminal).
    Ready,
    /// The job failed (terminal).
    Failed,
    /// The server answered with an unexpected status (terminal).
    UnknownError,
}

/// What the caller observed.
#[derive(Debug)]
pub enum ExportEvent {
    /// The start request answered with a download address.
    Started,
    /// A poll of the download address answered with this HTTP status.
    Status(u16),
    /// The body of a failed job, decoded, held this message.
    FailureMessage(String),
}

/// Why an export did not produce a result.
#[derive(Debug)]
pub enum ExporterFailure {
    /// The job failed, for the reason the server gave.
    ExportFail { reason: String },
    /// The server answered with an unexpected status.
    Other { status: u16 },
}

/// What the caller does next.
#[derive(Debug)]
pub enum ExportAction {
    /// Poll the download address now.
    Poll,
    /// Wait this many seconds, then poll again.
    WaitThenPoll(u64),
    /// Take the body of the last response as the result.
    TakeBody,
    /// Decode the failure message from the body of the last response.
    ReadFailureMessage,
    /// Give up with this failure.
    Fail(ExporterFailure),
    /// The event does not belong to this phase; nothing to do.
    Ignore,
}

/// One step of the job: the next phase and the action to perform.
pub fn next_step(phase: ExportPhase, event: ExportEvent) -> (r: (ExportPhase, ExportAction))
    ensures
        phase == ExportPhase::Requested && event is Started ==> r == (
        ExportPhase::Pending,
        ExportAction::Poll,
        ),
        phase == ExportPhase::Pending && event == ExportEvent::Status(STATUS_CONFLICT) ==> r == (
        ExportPhase::Pending,
        ExportAction::WaitThenPoll(POLL_INTERVAL_SECONDS),
        ),
        phase == ExportPhase::Pending && event == ExportEvent::Status(STATUS_OK) ==> r == (
        ExportPhase::Ready,
        ExportAction::TakeBody,
        ),
        phase == ExportPhase::Pending && event == ExportEvent::Status(STATUS_GONE) ==> r == (
        ExportPhase::Failed,
        ExportAction::ReadFailureMessage,
        ),
        event matches ExportEvent::Status(s) ==> (phase == ExportPhase::Pending && s
            != STATUS_CONFLICT && s != STATUS_OK && s != STATUS_GONE ==> r == (
        ExportPhase::UnknownError,
        ExportAction::Fail(ExporterFailure::Other { status: s }),
        )),
        event matches ExportEvent::FailureMessage(m) ==> (phase == ExportPhase::Failed ==> r == (
        ExportPhase::Failed,
        ExportAction::Fail(ExporterFailure::ExportFail { reason: m }),
        )),
        !(phase == ExportPhase::Requested && event is Started) && !(phase == ExportPhase::Pending
            && event is Status) && !(phase == ExportPhase::Failed && event is FailureMessage)
            ==> r == (phase, ExportAction::Ignore),
{
    match (phase, event) {
        (ExportPhase::Requested, ExportEvent::Started) => (ExportPhase::Pending, ExportAction::Poll),
        (ExportPhase::Pending, ExportEvent::Status(s)) => {
            if s == STATUS_CONFLICT {
                (ExportPhase::Pending, ExportAction::WaitThenPoll(POLL_INTERVAL_SECONDS))
            } else if s == STATUS_OK {
                (ExportPhase::Ready, ExportAction::TakeBody)
            } else if s == STATUS_GONE {
                (ExportPhase::Failed, ExportAction::ReadFailureMessage)
            } else {
                (ExportPhase::UnknownError, ExportAction::Fail(ExporterFailure::Other { status: s }))
            }
        },
        (ExportPhase::Failed, ExportEvent::FailureMessage(m)) => (
            ExportPhase::Failed,
            ExportAction::Fail(ExporterFailure::ExportFail { reason: m }),
        ),
        (p, _) => (p, ExportAction::Ignore),
    }
}

impl ExportPhase {
    /// The job has reached an end.
    pub fn is_terminal(&self) -> (r: bool)
        ensures
            r <==> (*self == ExportPhase::Ready || *self == ExportPhase::Failed || *self
                == ExportPhase::UnknownError),
    {
        match self {
            ExportPhase::Ready | ExportPhase::Failed | ExportPhase::UnknownError => true,
            _ => false,
        }
    }
}

} // verus!
