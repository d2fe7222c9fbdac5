use knaaktomatisering::export::{next_step, ExportAction, ExportEvent, ExportPhase, ExporterFailure};

#[test]
fn pending_pending_ready() {
    let (phase, action) = next_step(ExportPhase::Requested, ExportEvent::Started);
    assert_eq!(phase, ExportPhase::Pending);
    assert!(matches!(action, ExportAction::Poll));

    let (phase, action) = next_step(phase, ExportEvent::Status(409));
    assert_eq!(phase, ExportPhase::Pending);
    assert!(matches!(action, ExportAction::WaitThenPoll(1)));

    let (phase, action) = next_step(phase, ExportEvent::Status(409));
    assert_eq!(phase, ExportPhase::Pending);
    assert!(matches!(action, ExportAction::WaitThenPoll(1)));

    let (phase, action) = next_step(phase, ExportEvent::Status(200));
    assert_eq!(phase, ExportPhase::Ready);
    assert!(matches!(action, ExportAction::TakeBody));
    assert!(phase.is_terminal());
}

#[test]
fn gone_fails_with_the_message() {
    let (phase, action) = next_step(ExportPhase::Pending, ExportEvent::Status(410));
    assert_eq!(phase, ExportPhase::Failed);
    assert!(matches!(action, ExportAction::ReadFailureMessage));
    let (phase, action) =
        next_step(phase, ExportEvent::FailureMessage("Export took too long".to_string()));
    assert_eq!(phase, ExportPhase::Failed);
    match action {
        ExportAction::Fail(ExporterFailure::ExportFail { reason }) => {
            assert_eq!(reason, "Export took too long")
        }
        other => panic!("unexpected action {:?}", other),
    }
}

#[test]
fn unknown_status_carries_the_code() {
    let (phase, action) = next_step(ExportPhase::Pending, ExportEvent::Status(503));
    assert_eq!(phase, ExportPhase::UnknownError);
    assert!(matches!(action, ExportAction::Fail(ExporterFailure::Other { status: 503 })));
    assert!(phase.is_terminal());
}

#[test]
fn events_out_of_phase_are_ignored() {
    let (phase, action) = next_step(ExportPhase::Ready, ExportEvent::Status(409));
    assert_eq!(phase, ExportPhase::Ready);
    assert!(matches!(action, ExportAction::Ignore));
    let (phase, action) = next_step(ExportPhase::Requested, ExportEvent::Status(200));
    assert_eq!(phase, ExportPhase::Requested);
    assert!(matches!(action, ExportAction::Ignore));
    assert!(!ExportPhase::Pending.is_terminal());
}
