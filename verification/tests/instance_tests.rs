use multi_mouse_canvas::app::commands::AppCommand;
use multi_mouse_canvas::app::state::{decide_app_command, CommandDecision, PendingTransition};
use multi_mouse_canvas::ipc::{
    decide_instance, RecordedTransport, format_wire_command, parse_wire_command, read_wire_message, wire_message, CommandTransport,
    InstanceDecision,
};
use multi_mouse_canvas::session::events::{TransitionKind, TransitionRequestId};
use multi_mouse_canvas::session::model::RecordingStatus;
use multi_mouse_canvas::settings::storage::DebouncedSettingsSave;
use multi_mouse_canvas::tray::TrayInitError;

#[derive(Default)]
struct Fake {
    claimed: bool,
    forwards: Vec<AppCommand>,
}

impl CommandTransport for Fake {
    fn claim_primary(&mut self) -> bool {
        self.claimed
    }
    fn forward(&mut self, c: AppCommand) -> bool {
        self.forwards.push(c);
        true
    }
}

#[test]
fn forwarding_logic_uses_fake_transport() {
    let mut f = RecordedTransport::new(Fake { claimed: false, forwards: vec![] });
    assert_eq!(decide_instance(&mut f, &[AppCommand::StartRecording]), InstanceDecision::Forwarded);
    assert_eq!(f.transport.forwards, vec![AppCommand::StartRecording]);
}

#[test]
fn duplicate_without_command_is_rejected() {
    let mut f = RecordedTransport::new(Fake { claimed: false, forwards: vec![] });
    assert_eq!(decide_instance(&mut f, &[]), InstanceDecision::RejectedDuplicate);
}

#[test]
fn duplicate_recorder_startup_is_forwarded() {
    let mut f = RecordedTransport::new(Fake { claimed: false, forwards: vec![] });
    assert_eq!(decide_instance(&mut f, &[AppCommand::StartRecording]), InstanceDecision::Forwarded);
}

#[test]
fn the_first_instance_is_primary() {
    let mut f = RecordedTransport::new(Fake { claimed: true, forwards: vec![] });
    assert_eq!(decide_instance(&mut f, &[AppCommand::Show]), InstanceDecision::Primary);
    assert!(f.transport.forwards.is_empty());
}

#[test]
fn wire_words_round_trip() {
    for c in [
        AppCommand::Show,
        AppCommand::StartRecording,
        AppCommand::PauseRecording,
        AppCommand::ResumeRecording,
        AppCommand::TogglePauseResume,
        AppCommand::FinishSession,
        AppCommand::ExportCurrentCanvas,
        AppCommand::Exit,
    ] {
        let word = format_wire_command(c).unwrap();
        assert_eq!(parse_wire_command(word), Some(c));
        let message = wire_message(c).unwrap();
        assert_eq!(read_wire_message(&message), Some(c));
    }
    assert_eq!(format_wire_command(AppCommand::ExitFromTray), None);
    assert_eq!(format_wire_command(AppCommand::StartRecording), Some("start"));
    assert_eq!(parse_wire_command("bogus"), None);
}

#[test]
fn debounced_settings_save_scheduling() {
    let ms = 1_000_000u64;
    let now = 5_000 * ms;
    let mut d = DebouncedSettingsSave::new(350 * ms);
    d.schedule_at(now);
    assert!(!d.should_save(now + 349 * ms));
    assert!(d.should_save(now + 350 * ms));
    d.mark_saved();
    assert!(!d.should_save(now + 1_000 * ms));
}

#[test]
fn window_commands_follow_the_action_table() {
    let d = |status, c| decide_app_command(status, false, false, true, true, c);
    assert_eq!(d(RecordingStatus::Stopped, AppCommand::StartRecording), CommandDecision::ScheduleStart);
    assert_eq!(d(RecordingStatus::Recording, AppCommand::StartRecording), CommandDecision::NotAvailable);
    assert_eq!(
        d(RecordingStatus::Paused, AppCommand::TogglePauseResume),
        CommandDecision::Transition { kind: TransitionKind::Resume, expected: RecordingStatus::Recording }
    );
    assert_eq!(
        d(RecordingStatus::Recording, AppCommand::FinishSession),
        CommandDecision::Transition { kind: TransitionKind::Finish, expected: RecordingStatus::Finished }
    );
    assert_eq!(d(RecordingStatus::Finished, AppCommand::ExportCurrentCanvas), CommandDecision::Export);
    assert_eq!(d(RecordingStatus::Finished, AppCommand::MinimizeToTray), CommandDecision::Minimize);
    assert_eq!(
        decide_app_command(RecordingStatus::Recording, true, false, true, true, AppCommand::PauseRecording),
        CommandDecision::NotAvailable
    );
    assert_eq!(
        decide_app_command(RecordingStatus::Finished, false, true, true, true, AppCommand::ExportCurrentCanvas),
        CommandDecision::NotAvailable
    );
}

#[test]
fn pending_transitions_and_tray_errors_carry_their_data() {
    let p = PendingTransition {
        request_id: TransitionRequestId::from_raw(3),
        kind: TransitionKind::Pause,
        submitted_at: 10,
        expected_status: RecordingStatus::Paused,
    };
    assert_eq!(p.request_id.raw(), 3);
    assert_eq!(TrayInitError("no tray".into()).message(), "no tray");
}

use multi_mouse_canvas::app::engine_bridge::{
    is_authoritative, reconcile_acknowledgment, submission_message, transition_timed_out, AckOutcome, BridgeSync,
    FrameAdmission,
};
use multi_mouse_canvas::canvas::coordinates::TileCoordinate;
use multi_mouse_canvas::canvas::preview_state::{PreviewApplyError, PreviewFrame, PreviewState};
use multi_mouse_canvas::ipc::instance_decision;
use multi_mouse_canvas::session::engine::SubmitError;
use multi_mouse_canvas::session::events::{FullStateRequestId, TransitionAcknowledgment, TransitionRejection, TransitionResult};
use multi_mouse_canvas::session::snapshot::TileDelta;
use multi_mouse_canvas::session::statistics::SessionStatistics;

fn pending(n: u64, kind: TransitionKind, at: u64) -> PendingTransition {
    PendingTransition {
        request_id: TransitionRequestId::from_raw(n),
        kind,
        submitted_at: at,
        expected_status: RecordingStatus::Stopped,
    }
}

fn ack(n: u64, kind: TransitionKind, result: TransitionResult) -> TransitionAcknowledgment {
    TransitionAcknowledgment { request_id: TransitionRequestId::from_raw(n), kind, status: RecordingStatus::Stopped, result }
}

#[test]
fn only_the_awaited_acknowledgment_completes_a_request() {
    let p = Some(pending(4, TransitionKind::Clear, 0));
    assert_eq!(reconcile_acknowledgment(p, &ack(5, TransitionKind::Clear, TransitionResult::Success), true), AckOutcome::Ignored);
    assert_eq!(reconcile_acknowledgment(p, &ack(4, TransitionKind::Start, TransitionResult::Success), true), AckOutcome::Ignored);
    assert_eq!(reconcile_acknowledgment(None, &ack(4, TransitionKind::Clear, TransitionResult::Success), true), AckOutcome::Ignored);
    assert_eq!(
        reconcile_acknowledgment(p, &ack(4, TransitionKind::Clear, TransitionResult::Success), true),
        AckOutcome::Completed { status: RecordingStatus::Stopped, refusal: None, start_next: true }
    );
    assert_eq!(
        reconcile_acknowledgment(
            p,
            &ack(4, TransitionKind::Clear, TransitionResult::Rejected(TransitionRejection::ShutdownInProgress)),
            true
        ),
        AckOutcome::Completed {
            status: RecordingStatus::Stopped,
            refusal: Some(TransitionRejection::ShutdownInProgress),
            start_next: false
        }
    );
}

#[test]
fn waiting_times_out_after_two_seconds() {
    let s = 1_000_000_000u64;
    assert!(!transition_timed_out(None, 10 * s));
    assert!(!transition_timed_out(Some(pending(1, TransitionKind::Pause, 5 * s)), 6 * s));
    assert!(transition_timed_out(Some(pending(1, TransitionKind::Pause, 5 * s)), 7 * s));
    assert!(!transition_timed_out(Some(pending(1, TransitionKind::Pause, 5 * s)), 1));
    assert_eq!(submission_message(SubmitError::QueueFull), "Recording engine is busy; please retry.");
}

fn frame(generation: u64, sequence: u64, full: bool, deltas: Vec<TileDelta>) -> PreviewFrame {
    PreviewFrame { generation, sequence, full_tile_snapshot: full, tile_deltas: deltas, statistics: SessionStatistics::default() }
}

fn delta(x: i32, generation: u64) -> TileDelta {
    TileDelta {
        coordinate: TileCoordinate { x, y: 0 },
        revision: 1,
        width: 1,
        height: 1,
        rgba: vec![1, 2, 3, 4],
        removed: false,
        generation,
    }
}

#[test]
fn frames_are_accepted_in_order_and_answers_override() {
    let mut sync = BridgeSync::new();
    let mut preview = PreviewState::new();
    assert_eq!(sync.reconcile_frame(&mut preview, &frame(2, 5, false, vec![delta(0, 2)]), false), FrameAdmission::Applied);
    assert_eq!(sync, BridgeSync { generation: 2, accepted_sequence: 5 });
    assert_eq!(sync.reconcile_frame(&mut preview, &frame(2, 4, false, vec![]), false), FrameAdmission::Stale);
    assert_eq!(sync.reconcile_frame(&mut preview, &frame(1, 9, false, vec![]), false), FrameAdmission::Stale);
    assert_eq!(
        sync.reconcile_frame(&mut preview, &frame(2, 6, false, vec![delta(1, 1)]), false),
        FrameAdmission::Refused(PreviewApplyError::DeltaGeneration)
    );
    // An authoritative answer replaces everything, even with an older sequence.
    assert_eq!(sync.reconcile_frame(&mut preview, &frame(2, 1, true, vec![delta(7, 2)]), true), FrameAdmission::Applied);
    assert_eq!(preview.tiles().len(), 1);
    assert_eq!(preview.tiles()[0].0, TileCoordinate { x: 7, y: 0 });
    assert_eq!(sync.accepted_sequence, 5);
    assert!(is_authoritative(Some(FullStateRequestId::from_raw(3)), Some(FullStateRequestId::from_raw(3)), true));
    assert!(!is_authoritative(Some(FullStateRequestId::from_raw(3)), Some(FullStateRequestId::from_raw(4)), true));
    assert!(!is_authoritative(None, None, true));
    assert!(!is_authoritative(Some(FullStateRequestId::from_raw(3)), Some(FullStateRequestId::from_raw(3)), false));
}

#[test]
fn instance_decisions_follow_the_transport() {
    assert_eq!(instance_decision(true, 0, 0), InstanceDecision::Primary);
    assert_eq!(instance_decision(false, 2, 2), InstanceDecision::Forwarded);
    assert_eq!(instance_decision(false, 2, 1), InstanceDecision::RejectedDuplicate);
    assert_eq!(instance_decision(false, 0, 0), InstanceDecision::RejectedDuplicate);
}
