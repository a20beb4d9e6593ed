use multi_mouse_canvas::app::action_policy::action_policy;
use multi_mouse_canvas::app::commands::{cli_help_text, parse_cli_args, AppCommand, CliParseError};
use multi_mouse_canvas::app::dialogs::{ClearDialogAction, LifecycleDialogState};
use multi_mouse_canvas::app::lifecycle::{
    confirmation_worthy, ExitRequestResult, ExitSource, LifecycleCoordinator, LifecycleState,
    FORCE_BUTTON_DELAY, HARD_DEADLINE,
};
use multi_mouse_canvas::session::model::RecordingStatus;
use multi_mouse_canvas::session::shutdown::{ShutdownPoll, ShutdownProgress, ShutdownResult};

#[test]
fn lifecycle_table_is_consistent() {
    let stopped = action_policy(RecordingStatus::Stopped, false, false, false, true, false);
    assert!(stopped.start.enabled);
    assert!(!stopped.pause_resume.enabled && !stopped.finish.enabled);
    let recording = action_policy(RecordingStatus::Recording, false, false, true, true, false);
    assert!(!recording.start.enabled && recording.pause_resume.enabled && recording.finish.enabled);
    let paused = action_policy(RecordingStatus::Paused, false, false, true, true, false);
    assert_eq!(paused.pause_resume.label, "Resume");
    let finished = action_policy(RecordingStatus::Finished, false, false, true, true, false);
    assert!(finished.export.enabled && finished.clear.enabled && !finished.start.enabled);
}

#[test]
fn pending_disables_every_mutating_or_export_action() {
    let p = action_policy(RecordingStatus::Recording, true, false, true, true, false);
    assert!(
        !p.start.enabled
            && !p.pause_resume.enabled
            && !p.finish.enabled
            && !p.export.enabled
            && !p.clear.enabled
    );
}

#[test]
fn pending_labels_name_the_transition_in_flight() {
    let p = action_policy(RecordingStatus::Paused, true, false, true, true, false);
    assert_eq!(p.pause_resume.label, "Resuming…");
    assert_eq!(p.start.label, "Starting…");
    assert_eq!(p.clear.label, "Clearing…");
    let q = action_policy(RecordingStatus::Recording, true, false, true, true, false);
    assert_eq!(q.pause_resume.label, "Pausing…");
    assert_eq!(q.finish.label, "Finishing…");
}

#[test]
fn disconnected_or_shutting_down_disables_everything() {
    for (connected, shutting) in [(false, false), (true, true)] {
        let p = action_policy(RecordingStatus::Stopped, false, false, true, connected, shutting);
        assert!(!p.start.enabled && !p.export.enabled && !p.edit_settings.enabled);
        assert!(!p.edit_profiles.enabled && !p.clear.enabled);
    }
}

#[test]
fn parses_cli_arguments_into_app_commands() {
    assert_eq!(
        parse_cli_args(&["--start", "--show", "--pause", "--resume", "--finish", "--export", "--exit"])
            .unwrap(),
        vec![
            AppCommand::StartRecording,
            AppCommand::Show,
            AppCommand::PauseRecording,
            AppCommand::ResumeRecording,
            AppCommand::FinishSession,
            AppCommand::ExportCurrentCanvas,
            AppCommand::Exit,
        ]
    );
    assert_eq!(
        parse_cli_args(&["--bad"]),
        Err(CliParseError::UnknownArgument("--bad".into()))
    );
}

#[test]
fn ui_tray_and_cli_share_command_enum() {
    assert_eq!(AppCommand::wire_sources(), &["ui", "tray", "ipc", "cli"]);
}

#[test]
fn cli_help_documents_privacy_sensitive_recording_commands() {
    let help = cli_help_text();
    assert!(help.contains("Start recording global mouse position samples"));
    assert!(help.contains("Pause recording without collecting mouse samples"));
    assert!(help.contains("Finish the session and stop recording"));
    assert!(help.contains("do not collect clicks"));
    assert!(help.contains("keyboard input"));
    assert!(help.contains("screenshots"));
    assert!(matches!(parse_cli_args(&["--help"]), Err(CliParseError::HelpRequested)));
}

#[test]
fn first_unrecognised_argument_decides_the_error() {
    assert_eq!(parse_cli_args(&["--start", "-h", "--bogus"]), Err(CliParseError::HelpRequested));
    assert_eq!(
        parse_cli_args(&["--show", "--bogus", "--help"]),
        Err(CliParseError::UnknownArgument("--bogus".into()))
    );
    assert_eq!(parse_cli_args(&[]), Ok(vec![]));
}

#[test]
fn lifecycle_dialog_state_transitions_do_not_silently_clear_data() {
    let mut s = LifecycleDialogState::default();
    s.request_clear(true);
    assert!(s.clear_confirmation_open);
    assert!(!s.clear_transition(ClearDialogAction::Cancel));
    s.request_clear(true);
    assert!(s.clear_transition(ClearDialogAction::ConfirmClear));
    assert!(!s.clear_confirmation_open);
}

#[test]
fn thresholds_are_exact() {
    let n: u64 = 7_000_000_000_000;
    let mut c = LifecycleCoordinator::default();
    c.exit_requested(ExitSource::Tray, true, n);
    c.confirm_exit(n);
    assert!(!c.force_visible(n + FORCE_BUTTON_DELAY - 1));
    assert!(c.force_visible(n + FORCE_BUTTON_DELAY));
    assert!(c.deadline_reached(n + HARD_DEADLINE));
}

#[test]
fn empty_is_ready_without_ticket() {
    let n: u64 = 1_000;
    let mut c = LifecycleCoordinator::default();
    c.exit_requested(ExitSource::WindowClose, false, n);
    assert_eq!(c.state(), &LifecycleState::ReadyToClose);
}

#[test]
fn second_exit_request_is_already_in_progress_and_cancel_restores_running() {
    let mut c = LifecycleCoordinator::default();
    assert_eq!(c.exit_requested(ExitSource::CliOrIpc, true, 5), ExitRequestResult::ConfirmationRequired);
    assert_eq!(c.exit_requested(ExitSource::Tray, false, 6), ExitRequestResult::AlreadyInProgress);
    assert_eq!(c.source(), Some(ExitSource::CliOrIpc));
    c.cancel_confirmation();
    assert_eq!(c.state(), &LifecycleState::Running);
    assert_eq!(c.source(), None);
    assert_eq!(c.elapsed(100), 0);
}

#[test]
fn shutdown_results_decide_between_closing_and_asking() {
    let mut c = LifecycleCoordinator::default();
    c.record_shutdown_poll(Some(ShutdownProgress::SavingRecovery), ShutdownPoll::Pending);
    assert_eq!(c.progress, Some(ShutdownProgress::SavingRecovery));
    assert_eq!(c.state(), &LifecycleState::Running);
    c.record_shutdown_poll(None, ShutdownPoll::Disconnected);
    assert_eq!(c.state(), &LifecycleState::RecoveryFailedAwaitingChoice);
    assert_eq!(
        c.outcome,
        Some(ShutdownResult::WorkerShutdownFailed {
            error: "shutdown result channel disconnected".into(),
            previous_recovery_valid: true
        })
    );
    assert!(!c.exit_anyway());
    c.record_shutdown_poll(None, ShutdownPoll::Finished(ShutdownResult::RecoveryFailedWorkersStopped {
        error: "disk full".into(),
        previous_recovery_valid: false,
    }));
    assert_eq!(c.state(), &LifecycleState::RecoveryFailedAwaitingChoice);
    assert!(c.exit_anyway());
    assert_eq!(c.state(), &LifecycleState::ReadyToClose);
    assert!(!c.cancel_after_failure());
}

#[test]
fn deadline_needs_a_started_shutdown() {
    let mut c = LifecycleCoordinator::default();
    assert!(!c.deadline_reached(u64::MAX));
    c.exit_requested(ExitSource::Tray, true, 10);
    assert!(!c.deadline_reached(u64::MAX));
    c.confirm_exit(10);
    assert!(!c.deadline_reached(10 + HARD_DEADLINE - 1));
    assert!(c.deadline_reached(10 + HARD_DEADLINE));
    c.force();
    assert_eq!(c.state(), &LifecycleState::ForceExiting);
}

#[test]
fn confirmation_needed_only_when_something_could_be_lost() {
    assert!(!confirmation_worthy(RecordingStatus::Stopped, false, false));
    assert!(confirmation_worthy(RecordingStatus::Paused, false, false));
    assert!(confirmation_worthy(RecordingStatus::Stopped, true, false));
    assert!(confirmation_worthy(RecordingStatus::Stopped, false, true));
}

use multi_mouse_canvas::app::commands::commands_to_forward;
use multi_mouse_canvas::app::state::{CommandState, PendingTransition, QueuedCommand, NOT_AVAILABLE_MESSAGE};
use multi_mouse_canvas::session::events::{TransitionKind, TransitionRequestId};

fn command_state(status: RecordingStatus) -> CommandState {
    CommandState::new(status)
}

#[test]
fn an_allowed_pause_is_queued_and_awaited_under_its_id() {
    let mut s = command_state(RecordingStatus::Recording);
    let id = TransitionRequestId::from_raw(7);
    s.apply_command(AppCommand::PauseRecording, false, true, true, id, 1, 500);
    let queued = QueuedCommand::Transition { kind: TransitionKind::Pause, id };
    assert_eq!(s.engine_commands, vec![queued]);
    assert_eq!(s.retry_transition, Some(queued));
    assert_eq!(
        s.pending_transition,
        Some(PendingTransition {
            request_id: id,
            kind: TransitionKind::Pause,
            submitted_at: 500,
            expected_status: RecordingStatus::Paused
        })
    );
    // While it is pending, further lifecycle commands are not available.
    s.apply_command(AppCommand::FinishSession, false, true, true, TransitionRequestId::from_raw(8), 2, 600);
    assert_eq!(s.engine_commands.len(), 1);
    assert_eq!(s.status_message.as_deref(), Some(NOT_AVAILABLE_MESSAGE));
}

#[test]
fn exports_start_and_minimize_are_recorded() {
    let mut s = command_state(RecordingStatus::Stopped);
    s.apply_command(AppCommand::ExportCurrentCanvas, false, true, true, TransitionRequestId::from_raw(1), 9, 0);
    assert_eq!(s.engine_commands, vec![QueuedCommand::Export { request: 9 }]);
    assert_eq!(s.pending_export_requests, vec![9]);
    s.apply_command(AppCommand::StartRecording, false, true, true, TransitionRequestId::from_raw(2), 10, 0);
    assert!(s.automatic_start_pending);
    assert!(s.pending_transition.is_none());
    s.apply_command(AppCommand::MinimizeToTray, false, true, true, TransitionRequestId::from_raw(3), 11, 0);
    assert!(s.minimize_requested);
    let mut busy = command_state(RecordingStatus::Stopped);
    busy.apply_command(AppCommand::ExportCurrentCanvas, true, true, true, TransitionRequestId::from_raw(4), 12, 0);
    assert!(busy.engine_commands.is_empty());
    assert_eq!(busy.status_message.as_deref(), Some(NOT_AVAILABLE_MESSAGE));
}

#[test]
fn a_second_instance_without_commands_asks_to_show() {
    assert_eq!(commands_to_forward(&[]), vec![AppCommand::Show]);
    assert_eq!(
        commands_to_forward(&[AppCommand::StartRecording, AppCommand::Exit]),
        vec![AppCommand::StartRecording, AppCommand::Exit]
    );
}

use multi_mouse_canvas::app::lifecycle::{route_command, CommandRoute};

#[test]
fn commands_during_shutdown_are_refused_but_exits_go_through() {
    assert_eq!(route_command(AppCommand::Show, false), CommandRoute::ShowWindow);
    assert_eq!(route_command(AppCommand::Show, true), CommandRoute::RejectDuringShutdown);
    assert_eq!(route_command(AppCommand::StartRecording, true), CommandRoute::RejectDuringShutdown);
    assert_eq!(route_command(AppCommand::StartRecording, false), CommandRoute::Apply(AppCommand::StartRecording));
    assert_eq!(route_command(AppCommand::Exit, true), CommandRoute::RequestExit(ExitSource::CliOrIpc));
    assert_eq!(route_command(AppCommand::ExitFromTray, false), CommandRoute::RequestExit(ExitSource::Tray));
    assert_eq!(route_command(AppCommand::MinimizeToTray, true), CommandRoute::MinimizeToTray);
}

use multi_mouse_canvas::app::commands::NewSessionOutcome;
use multi_mouse_canvas::app::state::{SettingKind, CLEAR_WHILE_RECORDING_MESSAGE, SETTINGS_SAVE_DELAY};
use multi_mouse_canvas::session::engine::ExportRejection;
use multi_mouse_canvas::session::export_activity::ExportOutcome;

#[test]
fn clearing_is_refused_while_recording_and_queued_otherwise() {
    let mut s = command_state(RecordingStatus::Recording);
    s.clear_confirmation_open = true;
    s.confirm_clear_canvas(TransitionRequestId::from_raw(1), 5);
    assert_eq!(s.status_message.as_deref(), Some(CLEAR_WHILE_RECORDING_MESSAGE));
    assert!(s.engine_commands.is_empty());
    assert!(s.clear_confirmation_open);
    let mut s = command_state(RecordingStatus::Finished);
    s.clear_confirmation_open = true;
    let id = TransitionRequestId::from_raw(2);
    s.confirm_clear_canvas(id, 5);
    assert!(!s.clear_confirmation_open);
    assert_eq!(s.engine_commands, vec![QueuedCommand::Transition { kind: TransitionKind::Clear, id }]);
    assert_eq!(s.pending_transition.unwrap().expected_status, RecordingStatus::Stopped);
}

#[test]
fn a_new_session_after_clearing_starts_recording_once_cleared() {
    let mut s = command_state(RecordingStatus::Finished);
    s.pending_new_session_decision = true;
    s.resolve_new_session(NewSessionOutcome::Cancel, TransitionRequestId::from_raw(1), 0);
    assert!(!s.pending_new_session_decision && s.engine_commands.is_empty());
    s.resolve_new_session(NewSessionOutcome::ClearPreviousCanvas, TransitionRequestId::from_raw(2), 0);
    assert!(s.start_after_clear);
    assert_eq!(s.engine_commands.len(), 1);
}

#[test]
fn export_results_are_taken_in_once_and_only_when_asked_for() {
    let mut s = command_state(RecordingStatus::Finished);
    s.export_and_start_new_session(7);
    assert_eq!(s.export_start_new, Some(7));
    assert_eq!(s.pending_export_requests, vec![7]);
    // A result nobody asked for changes nothing but the open requests.
    s.take_export_result(ExportOutcome::Success { request_id: 3, path: "x.png".into() }, TransitionRequestId::from_raw(1), 0);
    assert_eq!(s.export_result, None);
    let done = ExportOutcome::Success { request_id: 7, path: "/art/a.png".into() };
    let clear = TransitionRequestId::from_raw(9);
    s.take_export_result(done.clone(), clear, 11);
    assert_eq!(s.status_message.as_deref(), Some("Export saved to /art/a.png"));
    assert_eq!(s.export_result, Some(done.clone()));
    assert!(s.pending_export_requests.is_empty());
    assert_eq!(s.export_start_new, None);
    assert!(s.start_after_clear);
    assert_eq!(s.engine_commands.last(), Some(&QueuedCommand::Transition { kind: TransitionKind::Clear, id: clear }));
    // The same result seen again is not taken in twice.
    let queued = s.engine_commands.len();
    s.take_export_result(done, TransitionRequestId::from_raw(10), 12);
    assert_eq!(s.engine_commands.len(), queued);
}

#[test]
fn failed_and_refused_exports_report_and_can_be_retried() {
    let mut s = command_state(RecordingStatus::Finished);
    s.queue_export(1);
    s.take_export_result(
        ExportOutcome::Failure { request_id: 1, error: "disk full".into(), retry_request: 1 },
        TransitionRequestId::from_raw(1),
        0,
    );
    assert_eq!(s.export_error.as_deref(), Some("disk full"));
    s.retry_export(2);
    assert_eq!(s.export_error, None);
    assert_eq!(s.pending_export_requests, vec![2]);
    s.take_export_result(
        ExportOutcome::Rejected { request_id: 2, reason: ExportRejection::ConcurrentExport },
        TransitionRequestId::from_raw(2),
        0,
    );
    assert_eq!(s.export_error.as_deref(), Some("Export rejected: ConcurrentExport"));
    let before = s.engine_commands.len();
    s.retry_export(3);
    assert_eq!(s.engine_commands.len(), before);
}

#[test]
fn settings_changes_reach_the_engine_and_are_saved_later() {
    let mut s = command_state(RecordingStatus::Stopped);
    s.apply_settings_update(SettingKind::Drawing, 100);
    assert_eq!(s.engine_commands, vec![QueuedCommand::UpdateDrawingStyle]);
    assert_eq!(s.pending_settings_save, Some(100 + SETTINGS_SAVE_DELAY));
    s.apply_settings_update(SettingKind::Ui, 200);
    assert_eq!(s.engine_commands.len(), 1);
    assert_eq!(s.pending_settings_save, Some(200 + SETTINGS_SAVE_DELAY));
}
