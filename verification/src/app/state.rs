//! The window's decisions on the commands it receives.
use vstd::prelude::*;

use crate::app::action_policy::{action_policy, available, recording_or_paused};
use crate::app::commands::AppCommand;
use crate::app::commands::NewSessionOutcome;
use crate::session::engine::ExportRejection;
use crate::session::events::{TransitionKind, TransitionRequestId};
use crate::session::export_activity::{outcome_request, ExportOutcome};
use crate::text::{push_str, string_of};
use crate::session::model::RecordingStatus;

verus! {

/// A lifecycle request sent to the engine and not yet acknowledged. The time
/// is monotonic nanoseconds.
#[derive(Debug, Clone, Copy, PartialEq, Eq, Structural)]
pub struct PendingTransition {
    pub request_id: TransitionRequestId,
    pub kind: TransitionKind,
    pub submitted_at: u64,
    pub expected_status: RecordingStatus,
}

/// What the window does with a command.
#[derive(Debug, Clone, Copy, PartialEq, Eq, Structural)]
pub enum CommandDecision {
    /// The action is disabled; the window says so.
    NotAvailable,
    /// Ask whether to keep or clear the finished canvas before starting.
    AskNewSession,
    /// Start as soon as the engine can.
    ScheduleStart,
    /// Send a lifecycle request and expect the given status.
    Transition { kind: TransitionKind, expected: RecordingStatus },
    /// Ask the engine for an export.
    Export,
    /// Hide the window to the tray.
    Minimize,
    /// Nothing to do here.
    Nothing,
}

/// The message shown for a disabled action.
pub const NOT_AVAILABLE_MESSAGE: &'static str = "That action is not available in the confirmed engine state.";

/// Whether the action table enables a command.
pub open spec fn command_enabled(
    status: RecordingStatus,
    pending: bool,
    export_busy: bool,
    retained_canvas: bool,
    connected: bool,
    c: AppCommand,
) -> bool {
    let a = available(pending, connected, false);
    match c {
        AppCommand::StartRecording => a && status == RecordingStatus::Stopped,
        AppCommand::PauseRecording | AppCommand::ResumeRecording | AppCommand::TogglePauseResume => a
            && recording_or_paused(status),
        AppCommand::FinishSession => a && recording_or_paused(status),
        AppCommand::ExportCurrentCanvas => a && retained_canvas && !export_busy,
        _ => true,
    }
}

/// The window's decision on command `c` in the given confirmed state.
pub open spec fn command_decision(
    status: RecordingStatus,
    pending: bool,
    export_busy: bool,
    retained_canvas: bool,
    connected: bool,
    c: AppCommand,
) -> CommandDecision {
    if !command_enabled(status, pending, export_busy, retained_canvas, connected, c) {
        CommandDecision::NotAvailable
    } else {
        match c {
            AppCommand::StartRecording => if status == RecordingStatus::Finished {
                CommandDecision::AskNewSession
            } else {
                CommandDecision::ScheduleStart
            },
            AppCommand::PauseRecording => CommandDecision::Transition {
                kind: TransitionKind::Pause,
                expected: RecordingStatus::Paused,
            },
            AppCommand::ResumeRecording => CommandDecision::Transition {
                kind: TransitionKind::Resume,
                expected: RecordingStatus::Recording,
            },
            AppCommand::TogglePauseResume => if status == RecordingStatus::Paused {
                CommandDecision::Transition { kind: TransitionKind::Resume, expected: RecordingStatus::Recording }
            } else {
                CommandDecision::Transition { kind: TransitionKind::Pause, expected: RecordingStatus::Paused }
            },
            AppCommand::FinishSession => CommandDecision::Transition {
                kind: TransitionKind::Finish,
                expected: RecordingStatus::Finished,
            },
            AppCommand::ExportCurrentCanvas => CommandDecision::Export,
            AppCommand::MinimizeToTray => CommandDecision::Minimize,
            _ => CommandDecision::Nothing,
        }
    }
}

/// Decides a command against the action table of the confirmed engine state
/// (`connected` is whether the engine is known to be connected).
pub fn decide_app_command(
    status: RecordingStatus,
    pending: bool,
    export_busy: bool,
    retained_canvas: bool,
    connected: bool,
    c: AppCommand,
) -> (d: CommandDecision)
    ensures
        d == command_decision(status, pending, export_busy, retained_canvas, connected, c),
{
    let policy = action_policy(status, pending, export_busy, retained_canvas, connected, false);
    let allowed = match c {
        AppCommand::StartRecording => policy.start.enabled,
        AppCommand::PauseRecording | AppCommand::ResumeRecording | AppCommand::TogglePauseResume => {
            policy.pause_resume.enabled
        },
        AppCommand::FinishSession => policy.finish.enabled,
        AppCommand::ExportCurrentCanvas => policy.export.enabled,
        AppCommand::Show | AppCommand::MinimizeToTray | AppCommand::Exit | AppCommand::ExitFromTray => true,
    };
    if !allowed {
        return CommandDecision::NotAvailable;
    }
    match c {
        AppCommand::StartRecording => {
            if status == RecordingStatus::Finished {
                CommandDecision::AskNewSession
            } else {
                CommandDecision::ScheduleStart
            }
        },
        AppCommand::PauseRecording => CommandDecision::Transition {
            kind: TransitionKind::Pause,
            expected: RecordingStatus::Paused,
        },
        AppCommand::ResumeRecording => CommandDecision::Transition {
            kind: TransitionKind::Resume,
            expected: RecordingStatus::Recording,
        },
        AppCommand::TogglePauseResume => {
            if status == RecordingStatus::Paused {
                CommandDecision::Transition { kind: TransitionKind::Resume, expected: RecordingStatus::Recording }
            } else {
                CommandDecision::Transition { kind: TransitionKind::Pause, expected: RecordingStatus::Paused }
            }
        },
        AppCommand::FinishSession => CommandDecision::Transition {
            kind: TransitionKind::Finish,
            expected: RecordingStatus::Finished,
        },
        AppCommand::ExportCurrentCanvas => CommandDecision::Export,
        AppCommand::MinimizeToTray => CommandDecision::Minimize,
        AppCommand::Show | AppCommand::Exit | AppCommand::ExitFromTray => CommandDecision::Nothing,
    }
}

/// A command the window queues for the engine.
#[derive(Debug, Clone, Copy, PartialEq, Eq, Structural)]
pub enum QueuedCommand {
    /// A lifecycle request with its identifier.
    Transition { kind: TransitionKind, id: TransitionRequestId },
    /// An export request with its identifier.
    Export { request: u64 },
    /// New recording parameters.
    UpdateRecordingParameters,
    /// A new drawing style.
    UpdateDrawingStyle,
    /// A new background.
    UpdateBackground,
    /// New colour rules per application.
    UpdateApplicationColorRules,
}

/// Which part of the settings a change touches.
#[derive(Debug, Clone, Copy, PartialEq, Eq, Structural)]
pub enum SettingKind {
    Recording,
    Drawing,
    Background,
    Applications,
    Ui,
}

/// How long (in nanoseconds) a settings change waits before it is saved.
pub const SETTINGS_SAVE_DELAY: u64 = 350_000_000;

/// The message shown when clearing is asked for while recording.
pub const CLEAR_WHILE_RECORDING_MESSAGE: &'static str = "Pause or finish recording before clearing the canvas.";

/// What the window keeps of the commands it handles: the confirmed status,
/// the lifecycle request it waits on (and the command to send again on a
/// retry), the commands queued for the engine and the export requests still
/// open, the message shown, and the requests left for the window to act on.
pub struct CommandState {
    pub recording_status: RecordingStatus,
    pub pending_transition: Option<PendingTransition>,
    pub retry_transition: Option<QueuedCommand>,
    pub engine_commands: Vec<QueuedCommand>,
    pub pending_export_requests: Vec<u64>,
    pub status_message: Option<String>,
    pub pending_new_session_decision: bool,
    pub automatic_start_pending: bool,
    pub minimize_requested: bool,
    /// The export result last taken in, and the error it reported.
    pub export_result: Option<ExportOutcome>,
    pub export_error: Option<String>,
    /// The export after which a new session starts.
    pub export_start_new: Option<u64>,
    /// Whether recording starts once the canvas is cleared.
    pub start_after_clear: bool,
    /// Whether the dialog that confirms clearing is open.
    pub clear_confirmation_open: bool,
    /// When the settings are next saved (monotonic nanoseconds).
    pub pending_settings_save: Option<u64>,
}

/// The name of a refusal, as the rejected-export message gives it.
pub open spec fn rejection_name(r: ExportRejection) -> Seq<char> {
    match r {
        ExportRejection::ConcurrentExport => "ConcurrentExport"@,
        ExportRejection::UnsupportedFormat => "UnsupportedFormat"@,
        ExportRejection::NotExportable => "NotExportable"@,
    }
}

/// The export requests still open once `id` is answered.
pub open spec fn without_request(open: Seq<u64>, id: u64) -> Seq<u64> {
    open.filter(|r: u64| r != id)
}

/// The export requests still open once `id` is queued: unchanged when it is
/// there already.
pub open spec fn with_export_request(open: Seq<u64>, id: u64) -> Seq<u64> {
    if open.contains(id) {
        open
    } else {
        open.push(id)
    }
}

/// The engine command a settings change sends, if any.
pub open spec fn settings_command(kind: SettingKind) -> Option<QueuedCommand> {
    match kind {
        SettingKind::Recording => Some(QueuedCommand::UpdateRecordingParameters),
        SettingKind::Drawing => Some(QueuedCommand::UpdateDrawingStyle),
        SettingKind::Background => Some(QueuedCommand::UpdateBackground),
        SettingKind::Applications => Some(QueuedCommand::UpdateApplicationColorRules),
        SettingKind::Ui => None,
    }
}

impl CommandState {
    /// Handles a command: decides it by [`command_decision`] and records what
    /// follows. A disabled command leaves only the message; a lifecycle
    /// request is queued under `transition_id`, sent at `now`, and becomes the
    /// pending one (unless one is pending already); an export is queued
    /// under `export_id`; the other commands set the request they stand for.
    pub fn apply_command(
        &mut self,
        c: AppCommand,
        export_busy: bool,
        retained_canvas: bool,
        connected: bool,
        transition_id: TransitionRequestId,
        export_id: u64,
        now: u64,
    )
        ensures
            ({
                let d = command_decision(
                    old(self).recording_status,
                    old(self).pending_transition is Some,
                    export_busy,
                    retained_canvas,
                    connected,
                    c,
                );
                &&& final(self).recording_status == old(self).recording_status
                &&& (d is NotAvailable ==> (final(self).status_message matches Some(m) && m@
                    == NOT_AVAILABLE_MESSAGE@))
                &&& (!(d is NotAvailable) ==> final(self).status_message == old(self).status_message)
                &&& final(self).pending_new_session_decision == (old(self).pending_new_session_decision
                    || d is AskNewSession)
                &&& final(self).automatic_start_pending == (old(self).automatic_start_pending || d is ScheduleStart)
                &&& final(self).minimize_requested == (old(self).minimize_requested || d is Minimize)
                &&& final(self).engine_commands@ == match d {
                    CommandDecision::Transition { kind, expected } => if old(self).pending_transition is Some {
                        old(self).engine_commands@
                    } else {
                        old(self).engine_commands@.push(QueuedCommand::Transition { kind, id: transition_id })
                    },
                    CommandDecision::Export => old(self).engine_commands@.push(QueuedCommand::Export { request: export_id }),
                    _ => old(self).engine_commands@,
                }
                &&& final(self).pending_export_requests@ == if d is Export {
                    with_export_request(old(self).pending_export_requests@, export_id)
                } else {
                    old(self).pending_export_requests@
                }
                &&& (final(self).pending_transition, final(self).retry_transition) == match d {
                    CommandDecision::Transition { kind, expected } => if old(self).pending_transition is Some {
                        (old(self).pending_transition, old(self).retry_transition)
                    } else {
                        (
                            Some(
                                PendingTransition {
                                    request_id: transition_id,
                                    kind,
                                    submitted_at: now,
                                    expected_status: expected,
                                },
                            ),
                            Some(QueuedCommand::Transition { kind, id: transition_id }),
                        )
                    },
                    _ => (old(self).pending_transition, old(self).retry_transition),
                }
            }),
    {
        let d = decide_app_command(
            self.recording_status,
            self.pending_transition.is_some(),
            export_busy,
            retained_canvas,
            connected,
            c,
        );
        match d {
            CommandDecision::NotAvailable => {
                self.status_message = Some(NOT_AVAILABLE_MESSAGE.to_owned());
            },
            CommandDecision::AskNewSession => {
                self.pending_new_session_decision = true;
            },
            CommandDecision::ScheduleStart => {
                self.automatic_start_pending = true;
            },
            CommandDecision::Transition { kind, expected } => {
                if self.pending_transition.is_none() {
                    let queued = QueuedCommand::Transition { kind, id: transition_id };
                    self.retry_transition = Some(queued);
                    self.pending_transition = Some(
                        PendingTransition {
                            request_id: transition_id,
                            kind,
                            submitted_at: now,
                            expected_status: expected,
                        },
                    );
                    self.engine_commands.push(queued);
                }
            },
            CommandDecision::Export => {
                let mut known = false;
                let mut i: usize = 0;
                while i < self.pending_export_requests.len()
                    invariant
                        i <= self.pending_export_requests@.len(),
                        known == exists|j: int| 0 <= j < i && self.pending_export_requests@[j] == export_id,
                    decreases self.pending_export_requests@.len() - i,
                {
                    if self.pending_export_requests[i] == export_id {
                        known = true;
                    }
                    i = i + 1;
                }
                if !known {
                    self.pending_export_requests.push(export_id);
                }
                proof {
                    if known {
                        let j = choose|j: int| 0 <= j < i && self.pending_export_requests@[j] == export_id;
                        assert(self.pending_export_requests@.contains(export_id));
                    }
                }
                self.engine_commands.push(QueuedCommand::Export { request: export_id });
            },
            CommandDecision::Minimize => {
                self.minimize_requested = true;
            },
            CommandDecision::Nothing => {},
        }
    }
}

/// `after` is `before` with lifecycle request `id` of `kind` queued at `now`,
/// expecting `expected`, and awaited; nothing changes while another request
/// is awaited.
pub open spec fn transition_queued(
    before: CommandState,
    after: CommandState,
    kind: TransitionKind,
    id: TransitionRequestId,
    expected: RecordingStatus,
    now: u64,
) -> bool {
    if before.pending_transition is Some {
        after == before
    } else {
        &&& after.engine_commands@ == before.engine_commands@.push(QueuedCommand::Transition { kind, id })
        &&& after == (CommandState {
            pending_transition: Some(PendingTransition { request_id: id, kind, submitted_at: now, expected_status: expected }),
            retry_transition: Some(QueuedCommand::Transition { kind, id }),
            engine_commands: after.engine_commands,
            ..before
        })
    }
}

/// `after` is `before` with export request `id` queued and open.
pub open spec fn export_queued(before: CommandState, after: CommandState, id: u64) -> bool {
    &&& after.engine_commands@ == before.engine_commands@.push(QueuedCommand::Export { request: id })
    &&& after.pending_export_requests@ == with_export_request(before.pending_export_requests@, id)
    &&& after == (CommandState {
        engine_commands: after.engine_commands,
        pending_export_requests: after.pending_export_requests,
        ..before
    })
}

/// The request of the export result last taken in, if any.
pub open spec fn shown_result_request(o: Option<ExportOutcome>) -> Option<u64> {
    match o {
        Some(r) => Some(outcome_request(r)),
        None => None,
    }
}

/// Whether an export result is one the window takes in: it answers an open
/// request and differs from the result last taken in.
pub open spec fn result_is_taken(before: CommandState, result: ExportOutcome) -> bool {
    &&& shown_result_request(before.export_result) != Some(outcome_request(result))
    &&& before.pending_export_requests@.contains(outcome_request(result))
}

/// `after` is `before` once the engine's latest export result `result` has
/// been seen: its request is no longer open; where it is taken in, it
/// becomes the shown result with its message or error, and a success that
/// ends the export before a new session queues the clear (as request `id`
/// at `now`) after which recording starts.
pub open spec fn export_result_seen(
    before: CommandState,
    after: CommandState,
    result: ExportOutcome,
    id: TransitionRequestId,
    now: u64,
) -> bool {
    let rid = outcome_request(result);
    let b1 = CommandState { pending_export_requests: after.pending_export_requests, ..before };
    &&& after.pending_export_requests@ == without_request(before.pending_export_requests@, rid)
    &&& if !result_is_taken(before, result) {
        after == b1
    } else {
        match result {
            ExportOutcome::Success { request_id, path } => {
                &&& after.status_message matches Some(m) && m@ == "Export saved to "@ + path@
                &&& after.export_error is None
                &&& after.export_result == Some(result)
                &&& if before.export_start_new == Some(rid) {
                    transition_queued(
                        CommandState {
                            status_message: after.status_message,
                            export_error: None,
                            export_result: Some(result),
                            export_start_new: None,
                            start_after_clear: true,
                            ..b1
                        },
                        after,
                        TransitionKind::Clear,
                        id,
                        RecordingStatus::Stopped,
                        now,
                    )
                } else {
                    after == (CommandState {
                        status_message: after.status_message,
                        export_error: None,
                        export_result: Some(result),
                        ..b1
                    })
                }
            },
            ExportOutcome::Failure { error, .. } => after == (CommandState {
                export_error: Some(error),
                export_result: Some(result),
                ..b1
            }),
            ExportOutcome::Rejected { reason, .. } => {
                &&& after.export_error matches Some(e) && e@ == "Export rejected: "@ + rejection_name(reason)
                &&& after == (CommandState { export_error: after.export_error, export_result: Some(result), ..b1 })
            },
        }
    }
}

/// Adds `id` to the open export requests unless it is there.
fn add_export_request(open: &mut Vec<u64>, id: u64)
    ensures
        final(open)@ == with_export_request(old(open)@, id),
{
    let mut i: usize = 0;
    while i < open.len()
        invariant
            i <= open@.len(),
            forall|j: int| 0 <= j < i ==> open@[j] != id,
        decreases open@.len() - i,
    {
        if open[i] == id {
            assert(open@.contains(id));
            return;
        }
        i = i + 1;
    }
    open.push(id);
}

/// Drops `id` from the open export requests; says whether it was there.
fn remove_export_request(open: &mut Vec<u64>, id: u64) -> (was_open: bool)
    ensures
        was_open == old(open)@.contains(id),
        final(open)@ == without_request(old(open)@, id),
{
    let ghost before = open@;
    let mut kept: Vec<u64> = Vec::new();
    let mut found = false;
    let mut i: usize = 0;
    while i < open.len()
        invariant
            before == open@,
            i <= open@.len(),
            kept@ == without_request(open@.subrange(0, i as int), id),
            found == exists|k: int| 0 <= k < i && #[trigger] open@[k] == id,
        decreases open@.len() - i,
    {
        let r = open[i];
        proof {
            assert(open@.subrange(0, i + 1).drop_last() =~= open@.subrange(0, i as int));
            reveal_with_fuel(Seq::filter, 1);
        }
        if r != id {
            kept.push(r);
        } else {
            found = true;
        }
        i = i + 1;
    }
    assert(open@.subrange(0, i as int) =~= before);
    proof {
        if found {
            let k = choose|k: int| 0 <= k < i && #[trigger] open@[k] == id;
            assert(before.contains(id));
        }
    }
    *open = kept;
    found
}

impl CommandState {
    /// A record with the confirmed status and nothing pending, queued or shown.
    pub fn new(recording_status: RecordingStatus) -> (s: Self)
        ensures
            s.recording_status == recording_status,
            s.pending_transition is None,
            s.retry_transition is None,
            s.engine_commands@.len() == 0,
            s.pending_export_requests@.len() == 0,
            s.status_message is None,
            !s.pending_new_session_decision,
            !s.automatic_start_pending,
            !s.minimize_requested,
            s.export_result is None,
            s.export_error is None,
            s.export_start_new is None,
            !s.start_after_clear,
            !s.clear_confirmation_open,
            s.pending_settings_save is None,
    {
        CommandState {
            recording_status,
            pending_transition: None,
            retry_transition: None,
            engine_commands: Vec::new(),
            pending_export_requests: Vec::new(),
            status_message: None,
            pending_new_session_decision: false,
            automatic_start_pending: false,
            minimize_requested: false,
            export_result: None,
            export_error: None,
            export_start_new: None,
            start_after_clear: false,
            clear_confirmation_open: false,
            pending_settings_save: None,
        }
    }

    /// Queues lifecycle request `id` of `kind`, sent at `now` and expecting
    /// `expected`, and awaits it; does nothing while another is awaited.
    pub fn queue_transition(&mut self, kind: TransitionKind, id: TransitionRequestId, expected: RecordingStatus, now: u64)
        ensures
            transition_queued(*old(self), *final(self), kind, id, expected, now),
    {
        if self.pending_transition.is_some() {
            return;
        }
        let queued = QueuedCommand::Transition { kind, id };
        self.retry_transition = Some(queued);
        self.pending_transition = Some(
            PendingTransition { request_id: id, kind, submitted_at: now, expected_status: expected },
        );
        self.engine_commands.push(queued);
    }

    /// Queues export request `id` and keeps it open.
    pub fn queue_export(&mut self, id: u64)
        ensures
            export_queued(*old(self), *final(self), id),
    {
        add_export_request(&mut self.pending_export_requests, id);
        self.engine_commands.push(QueuedCommand::Export { request: id });
    }

    /// Clears the canvas once confirmed: refused while recording, with a
    /// message; otherwise the clear is queued as request `id` at `now` and the
    /// confirmation closes.
    pub fn confirm_clear_canvas(&mut self, id: TransitionRequestId, now: u64)
        ensures
            old(self).recording_status == RecordingStatus::Recording ==> (final(self).status_message matches Some(m)
                && m@ == CLEAR_WHILE_RECORDING_MESSAGE@) && *final(self) == (CommandState {
                status_message: final(self).status_message,
                ..*old(self)
            }),
            old(self).recording_status != RecordingStatus::Recording ==> !final(self).clear_confirmation_open
                && transition_queued(
                *old(self),
                CommandState { clear_confirmation_open: old(self).clear_confirmation_open, ..*final(self) },
                TransitionKind::Clear,
                id,
                RecordingStatus::Stopped,
                now,
            ),
    {
        if self.recording_status == RecordingStatus::Recording {
            self.status_message = Some(CLEAR_WHILE_RECORDING_MESSAGE.to_owned());
            return;
        }
        let open = self.clear_confirmation_open;
        self.queue_transition(TransitionKind::Clear, id, RecordingStatus::Stopped, now);
        let ghost queued = *self;
        self.clear_confirmation_open = false;
        assert(queued == CommandState { clear_confirmation_open: open, ..*self });
    }

    /// Takes the user's answer on a finished canvas before a new session:
    /// clearing it queues the clear (request `id` at `now`) after which
    /// recording starts; keeping it for export, or cancelling, does nothing
    /// more.
    pub fn resolve_new_session(&mut self, outcome: NewSessionOutcome, id: TransitionRequestId, now: u64)
        ensures
            outcome == NewSessionOutcome::ClearPreviousCanvas ==> transition_queued(
                CommandState { pending_new_session_decision: false, start_after_clear: true, ..*old(self) },
                *final(self),
                TransitionKind::Clear,
                id,
                RecordingStatus::Stopped,
                now,
            ),
            outcome != NewSessionOutcome::ClearPreviousCanvas ==> *final(self) == (CommandState {
                pending_new_session_decision: false,
                ..*old(self)
            }),
    {
        self.pending_new_session_decision = false;
        match outcome {
            NewSessionOutcome::ClearPreviousCanvas => {
                self.start_after_clear = true;
                self.queue_transition(TransitionKind::Clear, id, RecordingStatus::Stopped, now);
            },
            NewSessionOutcome::PreserveForExport | NewSessionOutcome::Cancel => {},
        }
    }

    /// Exports the canvas as request `id`, and starts a new session once that
    /// export succeeds.
    pub fn export_and_start_new_session(&mut self, id: u64)
        ensures
            export_queued(CommandState { export_start_new: Some(id), ..*old(self) }, *final(self), id),
    {
        self.export_start_new = Some(id);
        self.queue_export(id);
    }

    /// Sends a failed export again, as request `id`; does nothing unless the
    /// result shown is a failure.
    pub fn retry_export(&mut self, id: u64)
        ensures
            old(self).export_result matches Some(ExportOutcome::Failure { .. }) ==> export_queued(
                CommandState { export_error: None, ..*old(self) },
                *final(self),
                id,
            ),
            !(old(self).export_result matches Some(ExportOutcome::Failure { .. })) ==> *final(self) == *old(self),
    {
        let failed = match &self.export_result {
            Some(ExportOutcome::Failure { .. }) => true,
            _ => false,
        };
        if failed {
            self.export_error = None;
            self.queue_export(id);
        }
    }

    /// Takes in a settings change of `kind` made at `now`: sends the engine
    /// what it needs of it and saves the settings a moment later.
    pub fn apply_settings_update(&mut self, kind: SettingKind, now: u64)
        requires
            now + SETTINGS_SAVE_DELAY <= u64::MAX,
        ensures
            final(self).engine_commands@ == match settings_command(kind) {
                Some(c) => old(self).engine_commands@.push(c),
                None => old(self).engine_commands@,
            },
            *final(self) == (CommandState {
                engine_commands: final(self).engine_commands,
                pending_settings_save: Some((now + SETTINGS_SAVE_DELAY) as u64),
                ..*old(self)
            }),
    {
        let c = match kind {
            SettingKind::Recording => Some(QueuedCommand::UpdateRecordingParameters),
            SettingKind::Drawing => Some(QueuedCommand::UpdateDrawingStyle),
            SettingKind::Background => Some(QueuedCommand::UpdateBackground),
            SettingKind::Applications => Some(QueuedCommand::UpdateApplicationColorRules),
            SettingKind::Ui => None,
        };
        match c {
            Some(c) => self.engine_commands.push(c),
            None => {},
        }
        self.pending_settings_save = Some(now + SETTINGS_SAVE_DELAY);
    }

    /// Takes in the engine's latest export result; see
    /// [`export_result_seen`]. A clear it leads to is request `id` at `now`.
    pub fn take_export_result(&mut self, result: ExportOutcome, id: TransitionRequestId, now: u64)
        ensures
            export_result_seen(*old(self), *final(self), result, id, now),
    {
        let rid = match &result {
            ExportOutcome::Success { request_id, .. } => *request_id,
            ExportOutcome::Failure { request_id, .. } => *request_id,
            ExportOutcome::Rejected { request_id, .. } => *request_id,
        };
        let is_new = match &self.export_result {
            Some(ExportOutcome::Success { request_id, .. }) => *request_id != rid,
            Some(ExportOutcome::Failure { request_id, .. }) => *request_id != rid,
            Some(ExportOutcome::Rejected { request_id, .. }) => *request_id != rid,
            None => true,
        };
        let ghost before = *old(self);
        let correlated = remove_export_request(&mut self.pending_export_requests, rid);
        let ghost b1 = *self;
        if !(is_new && correlated) {
            return;
        }
        let mut start_new = false;
        match &result {
            ExportOutcome::Success { path, .. } => {
                self.export_error = None;
                let mut out: Vec<char> = Vec::new();
                push_str(&mut out, "Export saved to ");
                push_str(&mut out, path.as_str());
                self.status_message = Some(string_of(out.as_slice()));
                start_new = match self.export_start_new {
                    Some(e) => e == rid,
                    None => false,
                };
            },
            ExportOutcome::Failure { error, .. } => {
                self.export_error = Some(error.clone());
            },
            ExportOutcome::Rejected { reason, .. } => {
                let mut out: Vec<char> = Vec::new();
                push_str(&mut out, "Export rejected: ");
                let name = match reason {
                    ExportRejection::ConcurrentExport => "ConcurrentExport",
                    ExportRejection::UnsupportedFormat => "UnsupportedFormat",
                    ExportRejection::NotExportable => "NotExportable",
                };
                proof {
                    reveal_strlit("ConcurrentExport");
                    reveal_strlit("UnsupportedFormat");
                    reveal_strlit("NotExportable");
                }
                push_str(&mut out, name);
                self.export_error = Some(string_of(out.as_slice()));
            },
        }
        self.export_result = Some(result);
        if start_new {
            self.export_start_new = None;
            self.start_after_clear = true;
            self.queue_transition(TransitionKind::Clear, id, RecordingStatus::Stopped, now);
        }
    }
}

/// Every lifecycle request the window sends is one the engine accepts in the
/// confirmed state, and it expects the status the engine then reports; an
/// explicit pause while paused, or resume while recording, is the exception.
pub proof fn lemma_window_requests_are_accepted(
    status: RecordingStatus,
    pending: bool,
    export_busy: bool,
    retained_canvas: bool,
    connected: bool,
    c: AppCommand,
)
    requires
        !(c == AppCommand::PauseRecording && status == RecordingStatus::Paused),
        !(c == AppCommand::ResumeRecording && status == RecordingStatus::Recording),
    ensures
        command_decision(status, pending, export_busy, retained_canvas, connected, c) matches CommandDecision::Transition {
            kind,
            expected,
        } ==> !pending && crate::session::engine::transition_outcome(status, kind, false, false) == Ok::<
            RecordingStatus,
            crate::session::events::TransitionRejection,
        >(expected),
{
}

} // verus!
