//! The decisions of the recording engine: which lifecycle requests it accepts
//! in which state, and what it acknowledges.
use vstd::prelude::*;

use crate::session::controller::DiscontinuityReason;
use crate::session::error::EngineError;
use crate::session::events::{
    CommandPriority, FullStateRequestId, TransitionAcknowledgment, TransitionKind, TransitionRejection,
    TransitionRequestId, TransitionResult,
};
use crate::session::model::RecordingStatus;

verus! {

/// The status the engine moves to when it accepts `kind` in `status`, or the
/// reason it refuses. While shutting down it refuses every lifecycle request;
/// a start additionally needs at least one display in the effective topology.
pub open spec fn transition_outcome(
    status: RecordingStatus,
    kind: TransitionKind,
    shutting_down: bool,
    effective_topology_empty: bool,
) -> Result<RecordingStatus, TransitionRejection> {
    if shutting_down {
        Err(TransitionRejection::ShutdownInProgress)
    } else {
        let wrong = Err(TransitionRejection::WrongCurrentState { current: status });
        match kind {
            TransitionKind::Start => if status != RecordingStatus::Stopped {
                wrong
            } else if effective_topology_empty {
                Err(TransitionRejection::EmptyEffectiveTopology)
            } else {
                Ok(RecordingStatus::Recording)
            },
            TransitionKind::Pause => if status == RecordingStatus::Recording {
                Ok(RecordingStatus::Paused)
            } else {
                wrong
            },
            TransitionKind::Resume => if status == RecordingStatus::Paused {
                Ok(RecordingStatus::Recording)
            } else {
                wrong
            },
            TransitionKind::Finish => if status == RecordingStatus::Recording || status
                == RecordingStatus::Paused {
                Ok(RecordingStatus::Finished)
            } else {
                wrong
            },
            TransitionKind::Clear => if status == RecordingStatus::Stopped || status
                == RecordingStatus::Finished {
                Ok(RecordingStatus::Stopped)
            } else {
                wrong
            },
        }
    }
}

/// Decides a lifecycle request as the engine does before it touches any state.
pub fn decide_transition(
    status: RecordingStatus,
    kind: TransitionKind,
    shutting_down: bool,
    effective_topology_empty: bool,
) -> (r: Result<RecordingStatus, TransitionRejection>)
    ensures
        r == transition_outcome(status, kind, shutting_down, effective_topology_empty),
{
    if shutting_down {
        return Err(TransitionRejection::ShutdownInProgress);
    }
    let wrong = TransitionRejection::WrongCurrentState { current: status };
    match kind {
        TransitionKind::Start => {
            if status != RecordingStatus::Stopped {
                Err(wrong)
            } else if effective_topology_empty {
                Err(TransitionRejection::EmptyEffectiveTopology)
            } else {
                Ok(RecordingStatus::Recording)
            }
        },
        TransitionKind::Pause => {
            if status == RecordingStatus::Recording {
                Ok(RecordingStatus::Paused)
            } else {
                Err(wrong)
            }
        },
        TransitionKind::Resume => {
            if status == RecordingStatus::Paused {
                Ok(RecordingStatus::Recording)
            } else {
                Err(wrong)
            }
        },
        TransitionKind::Finish => {
            if status == RecordingStatus::Recording || status == RecordingStatus::Paused {
                Ok(RecordingStatus::Finished)
            } else {
                Err(wrong)
            }
        },
        TransitionKind::Clear => {
            if status == RecordingStatus::Stopped || status == RecordingStatus::Finished {
                Ok(RecordingStatus::Stopped)
            } else {
                Err(wrong)
            }
        },
    }
}

/// The acknowledgment the engine sends for a decided request: the status after
/// the request (unchanged when refused) and the result.
pub fn acknowledgment(
    request_id: TransitionRequestId,
    kind: TransitionKind,
    current: RecordingStatus,
    decision: Result<RecordingStatus, TransitionRejection>,
) -> (a: TransitionAcknowledgment)
    ensures
        a.request_id == request_id,
        a.kind == kind,
        decision matches Ok(next) ==> a.status == next && a.result == TransitionResult::Success,
        decision matches Err(reason) ==> a.status == current && a.result
            == TransitionResult::Rejected(reason),
{
    match decision {
        Ok(next) => TransitionAcknowledgment {
            request_id,
            kind,
            status: next,
            result: TransitionResult::Success,
        },
        Err(reason) => TransitionAcknowledgment {
            request_id,
            kind,
            status: current,
            result: TransitionResult::Rejected(reason),
        },
    }
}

/// Why a command could not be handed to the engine.
#[derive(Debug, Clone, Copy, PartialEq, Eq, Structural)]
pub enum SubmitError {
    QueueFull,
    Disconnected,
    ShuttingDown,
}

/// What the engine's loop does after a command.
#[derive(Debug, Clone, Copy, PartialEq, Eq, Structural)]
pub enum CommandEffect {
    /// Carry on with the loop.
    Continue,
    PublishImmediately,
    TerminateAfterPublish,
}

/// Why an export request was refused.
#[derive(Debug, Clone, Copy, PartialEq, Eq, Structural)]
pub enum ExportRejection {
    ConcurrentExport,
    UnsupportedFormat,
    NotExportable,
}

/// What the engine does with an export request.
#[derive(Debug, Clone, Copy, PartialEq, Eq, Structural)]
pub enum ExportDecision {
    /// Prepare the export's snapshot.
    Prepare,
    Rejected(ExportRejection),
}

/// A status line the engine shows.
#[derive(Debug, Clone, Copy, PartialEq, Eq, Structural)]
pub enum EngineMessage {
    ShutdownRejected,
    RecordingStarted,
    TopologyRetained,
}

impl EngineMessage {
    /// The text of the status line.
    pub fn text(&self) -> (t: &'static str)
        ensures
            t@ == match *self {
                EngineMessage::ShutdownRejected => "Command rejected: engine shutdown is in progress."@,
                EngineMessage::RecordingStarted => "Recording started."@,
                EngineMessage::TopologyRetained =>
                    "Display topology refresh was unavailable; the prior topology was retained."@,
            },
    {
        match self {
            EngineMessage::ShutdownRejected => "Command rejected: engine shutdown is in progress.",
            EngineMessage::RecordingStarted => "Recording started.",
            EngineMessage::TopologyRetained => {
                "Display topology refresh was unavailable; the prior topology was retained."
            },
        }
    }
}

/// A command to the engine, reduced to what the engine's decisions read.
#[derive(Debug, Clone, Copy, PartialEq, Eq, Structural)]
pub enum ControlCommand {
    /// A start request; whether the effective topology has no display, and
    /// whether a fresh canvas could begin a session on it.
    Start { id: TransitionRequestId, effective_topology_empty: bool, session_begins: bool },
    Pause { id: TransitionRequestId },
    Resume { id: TransitionRequestId },
    Finish { id: TransitionRequestId },
    Clear { id: TransitionRequestId },
    RestoreStoppedSession,
    UpdateRecordingParameters { sampling_interval_changed: bool },
    UpdateDrawingStyle,
    UpdateBackground,
    UpdateApplicationColorRules,
    /// A topology refresh; `available` is false when none could be read.
    RefreshTopology { available: bool, effective_changed: bool, detected_changed: bool },
    InvalidateTopology,
    SetUiVisibility { visible: bool },
    RequestExport { png: bool, bounds_empty: bool },
    RequestRecoveryCheckpoint,
    RequestSnapshot,
    RequireFullState { id: FullStateRequestId },
    PrepareShutdown { recovery_required: bool, tiles_empty: bool },
    ForceShutdown,
}

/// The queue a command goes to: lifecycle requests that stop or end
/// recording, shutdown, recovery checkpoints and topology changes are urgent.
pub open spec fn priority_of(c: ControlCommand) -> CommandPriority {
    match c {
        ControlCommand::Pause { .. } | ControlCommand::Finish { .. } | ControlCommand::Clear { .. }
        | ControlCommand::PrepareShutdown { .. } | ControlCommand::ForceShutdown
        | ControlCommand::RequestRecoveryCheckpoint | ControlCommand::InvalidateTopology
        | ControlCommand::RefreshTopology { .. } => CommandPriority::High,
        _ => CommandPriority::Normal,
    }
}

impl ControlCommand {
    /// The queue this command goes to.
    pub fn priority(&self) -> (p: CommandPriority)
        ensures
            p == priority_of(*self),
    {
        match self {
            ControlCommand::Pause { .. } | ControlCommand::Finish { .. } | ControlCommand::Clear { .. }
            | ControlCommand::PrepareShutdown { .. } | ControlCommand::ForceShutdown
            | ControlCommand::RequestRecoveryCheckpoint | ControlCommand::InvalidateTopology
            | ControlCommand::RefreshTopology { .. } => CommandPriority::High,
            _ => CommandPriority::Normal,
        }
    }

    /// Whether this command goes to the urgent queue.
    pub fn is_high_priority(&self) -> (b: bool)
        ensures
            b == (priority_of(*self) == CommandPriority::High),
    {
        match self.priority() {
            CommandPriority::High => true,
            CommandPriority::Normal => false,
        }
    }
}

/// Where a command is sent: nowhere but a forced shutdown once shutdown has
/// begun; otherwise to the queue of its priority.
pub fn submit_route(shutting_down: bool, c: ControlCommand) -> (r: Result<CommandPriority, SubmitError>)
    ensures
        r == if shutting_down && !(c is ForceShutdown) {
            Err::<CommandPriority, SubmitError>(SubmitError::ShuttingDown)
        } else {
            Ok::<CommandPriority, SubmitError>(priority_of(c))
        },
{
    let forced = match c {
        ControlCommand::ForceShutdown => true,
        _ => false,
    };
    if shutting_down && !forced {
        return Err(SubmitError::ShuttingDown);
    }
    Ok(c.priority())
}

/// The error for a command a queue would not take: full, or disconnected.
pub fn queue_refusal(full: bool) -> (e: SubmitError)
    ensures
        e == if full { SubmitError::QueueFull } else { SubmitError::Disconnected },
{
    if full {
        SubmitError::QueueFull
    } else {
        SubmitError::Disconnected
    }
}

/// The engine's own state, as its decisions read and change it.
#[derive(Debug, Clone, Copy, PartialEq, Eq, Structural)]
pub struct EngineControl {
    pub status: RecordingStatus,
    pub generation: u64,
    pub sequence: u64,
    pub shutting_down: bool,
    pub full_snapshot: bool,
    pub ui_visible: bool,
    pub force_discontinuity: bool,
    pub excluded: bool,
    pub full_state_request_id: Option<FullStateRequestId>,
    pub export_in_progress: bool,
}

/// The work the engine does for a command, in this order: drain pending
/// samples, end the current path for `flush`, stop the sampler, drop the
/// live overlays, take the start's settings and begin a session on a fresh
/// canvas, record every tile as removed and clear the canvas, reset the
/// counts, forget the revisions sent, take new settings or colour rules,
/// adopt the refreshed topology, forget the last published key, start the
/// sampler, save a final recovery checkpoint.
#[derive(Debug, Clone, Copy, PartialEq, Eq, Structural)]
pub struct EngineWork {
    pub drain_samples: bool,
    pub flush: Option<DiscontinuityReason>,
    pub stop_sampler: bool,
    pub clear_overlays: bool,
    pub begin_session: bool,
    pub clear_canvas: bool,
    pub reset_statistics: bool,
    pub clear_sent_revisions: bool,
    pub apply_settings: bool,
    pub apply_color_rules: bool,
    pub adopt_effective_topology: bool,
    pub adopt_detected_topology: bool,
    pub clear_deduper: bool,
    pub start_sampler: bool,
    pub save_recovery: bool,
}

/// What the engine does and reports for a command.
#[derive(Debug, Clone, PartialEq, Eq, Structural)]
pub struct ControlStep {
    pub effect: CommandEffect,
    pub acknowledgment: Option<TransitionAcknowledgment>,
    pub message: Option<EngineMessage>,
    pub work: EngineWork,
    pub export: Option<ExportDecision>,
}

/// No work at all.
pub open spec fn no_work() -> EngineWork {
    EngineWork {
        drain_samples: false,
        flush: None,
        stop_sampler: false,
        clear_overlays: false,
        begin_session: false,
        clear_canvas: false,
        reset_statistics: false,
        clear_sent_revisions: false,
        apply_settings: false,
        apply_color_rules: false,
        adopt_effective_topology: false,
        adopt_detected_topology: false,
        clear_deduper: false,
        start_sampler: false,
        save_recovery: false,
    }
}

/// The lifecycle request a command carries, if any.
pub open spec fn lifecycle_of(c: ControlCommand) -> Option<(TransitionRequestId, TransitionKind)> {
    match c {
        ControlCommand::Start { id, .. } => Some((id, TransitionKind::Start)),
        ControlCommand::Pause { id } => Some((id, TransitionKind::Pause)),
        ControlCommand::Resume { id } => Some((id, TransitionKind::Resume)),
        ControlCommand::Finish { id } => Some((id, TransitionKind::Finish)),
        ControlCommand::Clear { id } => Some((id, TransitionKind::Clear)),
        _ => None,
    }
}

/// Whether a command is heard while the engine shuts down.
pub open spec fn allowed_while_shutting_down(c: ControlCommand) -> bool {
    c is ForceShutdown || c is PrepareShutdown || c is RequestSnapshot || c is RequireFullState
}

/// A step with the given effect and work, and nothing reported.
pub open spec fn quiet_step(effect: CommandEffect, work: EngineWork) -> ControlStep {
    ControlStep { effect, acknowledgment: None, message: None, work, export: None }
}

/// The step of an acknowledged lifecycle request.
pub open spec fn ack_step(
    id: TransitionRequestId,
    kind: TransitionKind,
    status: RecordingStatus,
    result: TransitionResult,
    message: Option<EngineMessage>,
    work: EngineWork,
) -> ControlStep {
    ControlStep {
        effect: CommandEffect::PublishImmediately,
        acknowledgment: Some(TransitionAcknowledgment { request_id: id, kind, status, result }),
        message,
        work,
        export: None,
    }
}

/// The engine's state and step after command `c`.
pub open spec fn control_outcome(s: EngineControl, c: ControlCommand) -> (EngineControl, ControlStep) {
    if s.shutting_down && !allowed_while_shutting_down(c) {
        let ack = match lifecycle_of(c) {
            Some((id, kind)) => Some(
                TransitionAcknowledgment {
                    request_id: id,
                    kind,
                    status: s.status,
                    result: TransitionResult::Rejected(TransitionRejection::ShutdownInProgress),
                },
            ),
            None => None,
        };
        (
            s,
            ControlStep {
                effect: CommandEffect::PublishImmediately,
                acknowledgment: ack,
                message: Some(EngineMessage::ShutdownRejected),
                work: no_work(),
                export: None,
            },
        )
    } else {
        match c {
            ControlCommand::Start { id, effective_topology_empty, session_begins } => {
                match transition_outcome(s.status, TransitionKind::Start, false, effective_topology_empty) {
                    Err(reason) => (s, ack_step(id, TransitionKind::Start, s.status, TransitionResult::Rejected(reason), None, no_work())),
                    Ok(next) => if !session_begins {
                        (
                            s,
                            ack_step(
                                id,
                                TransitionKind::Start,
                                s.status,
                                TransitionResult::Rejected(TransitionRejection::EmptyEffectiveTopology),
                                None,
                                EngineWork { begin_session: true, ..no_work() },
                            ),
                        )
                    } else {
                        let s2 = EngineControl {
                            generation: (s.generation + 1) as u64,
                            excluded: false,
                            force_discontinuity: true,
                            status: next,
                            full_snapshot: true,
                            ..s
                        };
                        (
                            s2,
                            ack_step(
                                id,
                                TransitionKind::Start,
                                next,
                                TransitionResult::Success,
                                Some(EngineMessage::RecordingStarted),
                                EngineWork {
                                    begin_session: true,
                                    reset_statistics: true,
                                    clear_sent_revisions: true,
                                    stop_sampler: true,
                                    start_sampler: true,
                                    ..no_work()
                                },
                            ),
                        )
                    },
                }
            },
            ControlCommand::Pause { id } => match transition_outcome(s.status, TransitionKind::Pause, false, false) {
                Err(reason) => (s, ack_step(id, TransitionKind::Pause, s.status, TransitionResult::Rejected(reason), None, no_work())),
                Ok(next) => (
                    EngineControl { status: next, ..s },
                    ack_step(
                        id,
                        TransitionKind::Pause,
                        next,
                        TransitionResult::Success,
                        None,
                        EngineWork {
                            drain_samples: true,
                            flush: Some(DiscontinuityReason::PauseResume),
                            stop_sampler: true,
                            ..no_work()
                        },
                    ),
                ),
            },
            ControlCommand::Resume { id } => match transition_outcome(s.status, TransitionKind::Resume, false, false) {
                Err(reason) => (s, ack_step(id, TransitionKind::Resume, s.status, TransitionResult::Rejected(reason), None, no_work())),
                Ok(next) => (
                    EngineControl { status: next, force_discontinuity: true, ..s },
                    ack_step(
                        id,
                        TransitionKind::Resume,
                        next,
                        TransitionResult::Success,
                        None,
                        EngineWork {
                            flush: Some(DiscontinuityReason::PauseResume),
                            stop_sampler: true,
                            start_sampler: true,
                            ..no_work()
                        },
                    ),
                ),
            },
            ControlCommand::Finish { id } => match transition_outcome(s.status, TransitionKind::Finish, false, false) {
                Err(reason) => (s, ack_step(id, TransitionKind::Finish, s.status, TransitionResult::Rejected(reason), None, no_work())),
                Ok(next) => (
                    EngineControl { status: next, ..s },
                    ack_step(
                        id,
                        TransitionKind::Finish,
                        next,
                        TransitionResult::Success,
                        None,
                        EngineWork {
                            drain_samples: true,
                            stop_sampler: true,
                            flush: Some(DiscontinuityReason::PauseResume),
                            clear_overlays: true,
                            ..no_work()
                        },
                    ),
                ),
            },
            ControlCommand::Clear { id } => match transition_outcome(s.status, TransitionKind::Clear, false, false) {
                Err(reason) => (s, ack_step(id, TransitionKind::Clear, s.status, TransitionResult::Rejected(reason), None, no_work())),
                Ok(next) => (
                    EngineControl {
                        status: next,
                        generation: (s.generation + 1) as u64,
                        full_snapshot: true,
                        ..s
                    },
                    ack_step(
                        id,
                        TransitionKind::Clear,
                        next,
                        TransitionResult::Success,
                        None,
                        EngineWork {
                            clear_canvas: true,
                            reset_statistics: true,
                            clear_sent_revisions: true,
                            ..no_work()
                        },
                    ),
                ),
            },
            ControlCommand::UpdateRecordingParameters { sampling_interval_changed } => {
                let restart = s.status == RecordingStatus::Recording && sampling_interval_changed;
                (
                    EngineControl { force_discontinuity: s.force_discontinuity || restart, ..s },
                    quiet_step(
                        CommandEffect::Continue,
                        EngineWork {
                            flush: Some(DiscontinuityReason::PauseResume),
                            apply_settings: true,
                            stop_sampler: restart,
                            start_sampler: restart,
                            ..no_work()
                        },
                    ),
                )
            },
            ControlCommand::UpdateDrawingStyle | ControlCommand::UpdateBackground => (
                s,
                quiet_step(
                    CommandEffect::Continue,
                    EngineWork { flush: Some(DiscontinuityReason::PauseResume), apply_settings: true, ..no_work() },
                ),
            ),
            ControlCommand::UpdateApplicationColorRules => (
                s,
                quiet_step(CommandEffect::Continue, EngineWork { apply_color_rules: true, ..no_work() }),
            ),
            ControlCommand::RefreshTopology { available, effective_changed, detected_changed } => {
                if !available {
                    (
                        s,
                        ControlStep {
                            effect: CommandEffect::PublishImmediately,
                            acknowledgment: None,
                            message: Some(EngineMessage::TopologyRetained),
                            work: no_work(),
                            export: None,
                        },
                    )
                } else {
                    (
                        EngineControl {
                            force_discontinuity: s.force_discontinuity || effective_changed,
                            full_snapshot: s.full_snapshot || effective_changed || detected_changed,
                            ..s
                        },
                        quiet_step(
                            CommandEffect::Continue,
                            EngineWork {
                                drain_samples: effective_changed,
                                flush: if effective_changed {
                                    Some(DiscontinuityReason::DisplayConfigurationChanged)
                                } else {
                                    None
                                },
                                clear_overlays: effective_changed,
                                adopt_effective_topology: effective_changed,
                                adopt_detected_topology: true,
                                clear_deduper: effective_changed || detected_changed,
                                ..no_work()
                            },
                        ),
                    )
                }
            },
            ControlCommand::InvalidateTopology => (
                s,
                ControlStep {
                    effect: CommandEffect::PublishImmediately,
                    acknowledgment: None,
                    message: Some(EngineMessage::TopologyRetained),
                    work: no_work(),
                    export: None,
                },
            ),
            ControlCommand::SetUiVisibility { visible } => (
                EngineControl { ui_visible: visible, ..s },
                quiet_step(CommandEffect::Continue, no_work()),
            ),
            ControlCommand::RequestSnapshot => (
                EngineControl { full_snapshot: true, ..s },
                quiet_step(CommandEffect::Continue, EngineWork { clear_deduper: true, ..no_work() }),
            ),
            ControlCommand::RequireFullState { id } => (
                EngineControl { full_state_request_id: Some(id), full_snapshot: true, ..s },
                quiet_step(CommandEffect::PublishImmediately, EngineWork { clear_deduper: true, ..no_work() }),
            ),
            ControlCommand::RestoreStoppedSession => (
                EngineControl {
                    status: RecordingStatus::Stopped,
                    generation: (s.generation + 1) as u64,
                    full_snapshot: true,
                    ..s
                },
                quiet_step(CommandEffect::Continue, EngineWork { stop_sampler: true, ..no_work() }),
            ),
            ControlCommand::RequestExport { png, bounds_empty } => {
                let decision = if s.export_in_progress {
                    ExportDecision::Rejected(ExportRejection::ConcurrentExport)
                } else if !png {
                    ExportDecision::Rejected(ExportRejection::UnsupportedFormat)
                } else if s.status == RecordingStatus::Stopped || bounds_empty {
                    ExportDecision::Rejected(ExportRejection::NotExportable)
                } else {
                    ExportDecision::Prepare
                };
                (
                    EngineControl { export_in_progress: s.export_in_progress || decision is Prepare, ..s },
                    ControlStep {
                        effect: CommandEffect::PublishImmediately,
                        acknowledgment: None,
                        message: None,
                        work: no_work(),
                        export: Some(decision),
                    },
                )
            },
            ControlCommand::RequestRecoveryCheckpoint => (s, quiet_step(CommandEffect::Continue, no_work())),
            ControlCommand::PrepareShutdown { recovery_required, tiles_empty } => (
                EngineControl { shutting_down: true, ..s },
                quiet_step(
                    CommandEffect::TerminateAfterPublish,
                    EngineWork {
                        stop_sampler: true,
                        flush: Some(DiscontinuityReason::PauseResume),
                        save_recovery: recovery_required || s.status != RecordingStatus::Stopped || !tiles_empty,
                        ..no_work()
                    },
                ),
            ),
            ControlCommand::ForceShutdown => (
                EngineControl { shutting_down: true, ..s },
                quiet_step(
                    CommandEffect::TerminateAfterPublish,
                    EngineWork { stop_sampler: true, flush: Some(DiscontinuityReason::PauseResume), ..no_work() },
                ),
            ),
        }
    }
}

fn idle_work() -> (w: EngineWork)
    ensures
        w == no_work(),
{
    EngineWork {
        drain_samples: false,
        flush: None,
        stop_sampler: false,
        clear_overlays: false,
        begin_session: false,
        clear_canvas: false,
        reset_statistics: false,
        clear_sent_revisions: false,
        apply_settings: false,
        apply_color_rules: false,
        adopt_effective_topology: false,
        adopt_detected_topology: false,
        clear_deduper: false,
        start_sampler: false,
        save_recovery: false,
    }
}

fn lifecycle_step(
    id: TransitionRequestId,
    kind: TransitionKind,
    status: RecordingStatus,
    result: TransitionResult,
    message: Option<EngineMessage>,
    work: EngineWork,
) -> (step: ControlStep)
    ensures
        step == ack_step(id, kind, status, result, message, work),
{
    ControlStep {
        effect: CommandEffect::PublishImmediately,
        acknowledgment: Some(TransitionAcknowledgment { request_id: id, kind, status, result }),
        message,
        work,
        export: None,
    }
}

fn plain_step(effect: CommandEffect, work: EngineWork) -> (step: ControlStep)
    ensures
        step == quiet_step(effect, work),
{
    ControlStep { effect, acknowledgment: None, message: None, work, export: None }
}

impl EngineControl {
    /// The state of a new engine: stopped, generation 1, owing a full
    /// snapshot, with the window shown.
    pub fn new() -> (s: Self)
        ensures
            s == (EngineControl {
                status: RecordingStatus::Stopped,
                generation: 1,
                sequence: 0,
                shutting_down: false,
                full_snapshot: true,
                ui_visible: true,
                force_discontinuity: false,
                excluded: false,
                full_state_request_id: None,
                export_in_progress: false,
            }),
    {
        EngineControl {
            status: RecordingStatus::Stopped,
            generation: 1,
            sequence: 0,
            shutting_down: false,
            full_snapshot: true,
            ui_visible: true,
            force_discontinuity: false,
            excluded: false,
            full_state_request_id: None,
            export_in_progress: false,
        }
    }

    /// Decides command `c`: changes the engine's state and says what work to
    /// do, what to acknowledge and report, and whether to publish or stop.
    pub fn apply(&mut self, c: ControlCommand) -> (step: ControlStep)
        requires
            renews_canvas(c) ==> old(self).generation < u64::MAX,
        ensures
            (*final(self), step) == control_outcome(*old(self), c),
    {
        let allowed = match c {
            ControlCommand::ForceShutdown | ControlCommand::PrepareShutdown { .. }
            | ControlCommand::RequestSnapshot | ControlCommand::RequireFullState { .. } => true,
            _ => false,
        };
        if self.shutting_down && !allowed {
            let reject = TransitionResult::Rejected(TransitionRejection::ShutdownInProgress);
            let ack = match c {
                ControlCommand::Start { id, .. } => Some(
                    TransitionAcknowledgment { request_id: id, kind: TransitionKind::Start, status: self.status, result: reject },
                ),
                ControlCommand::Pause { id } => Some(
                    TransitionAcknowledgment { request_id: id, kind: TransitionKind::Pause, status: self.status, result: reject },
                ),
                ControlCommand::Resume { id } => Some(
                    TransitionAcknowledgment { request_id: id, kind: TransitionKind::Resume, status: self.status, result: reject },
                ),
                ControlCommand::Finish { id } => Some(
                    TransitionAcknowledgment { request_id: id, kind: TransitionKind::Finish, status: self.status, result: reject },
                ),
                ControlCommand::Clear { id } => Some(
                    TransitionAcknowledgment { request_id: id, kind: TransitionKind::Clear, status: self.status, result: reject },
                ),
                _ => None,
            };
            return ControlStep {
                effect: CommandEffect::PublishImmediately,
                acknowledgment: ack,
                message: Some(EngineMessage::ShutdownRejected),
                work: idle_work(),
                export: None,
            };
        }
        let lifecycle = match c {
            ControlCommand::Start { .. } | ControlCommand::Pause { .. } | ControlCommand::Resume { .. }
            | ControlCommand::Finish { .. } | ControlCommand::Clear { .. } => true,
            _ => false,
        };
        if lifecycle {
            self.apply_lifecycle(c)
        } else {
            self.apply_other(c)
        }
    }

    fn apply_lifecycle(&mut self, c: ControlCommand) -> (step: ControlStep)
        requires
            renews_canvas(c) ==> old(self).generation < u64::MAX,
            !(old(self).shutting_down && !allowed_while_shutting_down(c)),
            lifecycle_of(c) is Some,
        ensures
            (*final(self), step) == control_outcome(*old(self), c),
    {
        match c {
            ControlCommand::Start { id, effective_topology_empty, session_begins } => {
                match decide_transition(self.status, TransitionKind::Start, false, effective_topology_empty) {
                    Err(reason) => lifecycle_step(
                        id,
                        TransitionKind::Start,
                        self.status,
                        TransitionResult::Rejected(reason),
                        None,
                        idle_work(),
                    ),
                    Ok(next) => {
                        if !session_begins {
                            return lifecycle_step(
                                id,
                                TransitionKind::Start,
                                self.status,
                                TransitionResult::Rejected(TransitionRejection::EmptyEffectiveTopology),
                                None,
                                EngineWork { begin_session: true, ..idle_work() },
                            );
                        }
                        self.generation = self.generation + 1;
                        self.excluded = false;
                        self.force_discontinuity = true;
                        self.status = next;
                        self.full_snapshot = true;
                        lifecycle_step(
                            id,
                            TransitionKind::Start,
                            next,
                            TransitionResult::Success,
                            Some(EngineMessage::RecordingStarted),
                            EngineWork {
                                begin_session: true,
                                reset_statistics: true,
                                clear_sent_revisions: true,
                                stop_sampler: true,
                                start_sampler: true,
                                ..idle_work()
                            },
                        )
                    },
                }
            },
            ControlCommand::Pause { id } => match decide_transition(self.status, TransitionKind::Pause, false, false) {
                Err(reason) => lifecycle_step(id, TransitionKind::Pause, self.status, TransitionResult::Rejected(reason), None, idle_work()),
                Ok(next) => {
                    self.status = next;
                    lifecycle_step(
                        id,
                        TransitionKind::Pause,
                        next,
                        TransitionResult::Success,
                        None,
                        EngineWork {
                            drain_samples: true,
                            flush: Some(DiscontinuityReason::PauseResume),
                            stop_sampler: true,
                            ..idle_work()
                        },
                    )
                },
            },
            ControlCommand::Resume { id } => match decide_transition(self.status, TransitionKind::Resume, false, false) {
                Err(reason) => lifecycle_step(id, TransitionKind::Resume, self.status, TransitionResult::Rejected(reason), None, idle_work()),
                Ok(next) => {
                    self.status = next;
                    self.force_discontinuity = true;
                    lifecycle_step(
                        id,
                        TransitionKind::Resume,
                        next,
                        TransitionResult::Success,
                        None,
                        EngineWork {
                            flush: Some(DiscontinuityReason::PauseResume),
                            stop_sampler: true,
                            start_sampler: true,
                            ..idle_work()
                        },
                    )
                },
            },
            ControlCommand::Finish { id } => match decide_transition(self.status, TransitionKind::Finish, false, false) {
                Err(reason) => lifecycle_step(id, TransitionKind::Finish, self.status, TransitionResult::Rejected(reason), None, idle_work()),
                Ok(next) => {
                    self.status = next;
                    lifecycle_step(
                        id,
                        TransitionKind::Finish,
                        next,
                        TransitionResult::Success,
                        None,
                        EngineWork {
                            drain_samples: true,
                            stop_sampler: true,
                            flush: Some(DiscontinuityReason::PauseResume),
                            clear_overlays: true,
                            ..idle_work()
                        },
                    )
                },
            },
            ControlCommand::Clear { id } => match decide_transition(self.status, TransitionKind::Clear, false, false) {
                Err(reason) => lifecycle_step(id, TransitionKind::Clear, self.status, TransitionResult::Rejected(reason), None, idle_work()),
                Ok(next) => {
                    self.status = next;
                    self.generation = self.generation + 1;
                    self.full_snapshot = true;
                    lifecycle_step(
                        id,
                        TransitionKind::Clear,
                        next,
                        TransitionResult::Success,
                        None,
                        EngineWork {
                            clear_canvas: true,
                            reset_statistics: true,
                            clear_sent_revisions: true,
                            ..idle_work()
                        },
                    )
                },
            },
            _ => plain_step(CommandEffect::Continue, idle_work()),
        }
    }

    #[verifier::rlimit(60)]
    fn apply_other(&mut self, c: ControlCommand) -> (step: ControlStep)
        requires
            renews_canvas(c) ==> old(self).generation < u64::MAX,
            !(old(self).shutting_down && !allowed_while_shutting_down(c)),
            lifecycle_of(c) is None,
        ensures
            (*final(self), step) == control_outcome(*old(self), c),
    {
        match c {
            ControlCommand::Start { .. } | ControlCommand::Pause { .. } | ControlCommand::Resume { .. }
            | ControlCommand::Finish { .. } | ControlCommand::Clear { .. } => plain_step(CommandEffect::Continue, idle_work()),
            ControlCommand::UpdateRecordingParameters { sampling_interval_changed } => {
                let restart = self.status == RecordingStatus::Recording && sampling_interval_changed;
                self.force_discontinuity = self.force_discontinuity || restart;
                plain_step(
                    CommandEffect::Continue,
                    EngineWork {
                        flush: Some(DiscontinuityReason::PauseResume),
                        apply_settings: true,
                        stop_sampler: restart,
                        start_sampler: restart,
                        ..idle_work()
                    },
                )
            },
            ControlCommand::UpdateDrawingStyle | ControlCommand::UpdateBackground => plain_step(
                CommandEffect::Continue,
                EngineWork { flush: Some(DiscontinuityReason::PauseResume), apply_settings: true, ..idle_work() },
            ),
            ControlCommand::UpdateApplicationColorRules => plain_step(
                CommandEffect::Continue,
                EngineWork { apply_color_rules: true, ..idle_work() },
            ),
            ControlCommand::RefreshTopology { available, effective_changed, detected_changed } => {
                if !available {
                    return ControlStep {
                        effect: CommandEffect::PublishImmediately,
                        acknowledgment: None,
                        message: Some(EngineMessage::TopologyRetained),
                        work: idle_work(),
                        export: None,
                    };
                }
                self.force_discontinuity = self.force_discontinuity || effective_changed;
                self.full_snapshot = self.full_snapshot || effective_changed || detected_changed;
                plain_step(
                    CommandEffect::Continue,
                    EngineWork {
                        drain_samples: effective_changed,
                        flush: if effective_changed {
                            Some(DiscontinuityReason::DisplayConfigurationChanged)
                        } else {
                            None
                        },
                        clear_overlays: effective_changed,
                        adopt_effective_topology: effective_changed,
                        adopt_detected_topology: true,
                        clear_deduper: effective_changed || detected_changed,
                        ..idle_work()
                    },
                )
            },
            ControlCommand::InvalidateTopology => ControlStep {
                effect: CommandEffect::PublishImmediately,
                acknowledgment: None,
                message: Some(EngineMessage::TopologyRetained),
                work: idle_work(),
                export: None,
            },
            ControlCommand::SetUiVisibility { visible } => {
                self.ui_visible = visible;
                plain_step(CommandEffect::Continue, idle_work())
            },
            ControlCommand::RequestSnapshot => {
                self.full_snapshot = true;
                plain_step(CommandEffect::Continue, EngineWork { clear_deduper: true, ..idle_work() })
            },
            ControlCommand::RequireFullState { id } => {
                self.full_state_request_id = Some(id);
                self.full_snapshot = true;
                plain_step(CommandEffect::PublishImmediately, EngineWork { clear_deduper: true, ..idle_work() })
            },
            ControlCommand::RestoreStoppedSession => {
                self.status = RecordingStatus::Stopped;
                self.generation = self.generation + 1;
                self.full_snapshot = true;
                plain_step(CommandEffect::Continue, EngineWork { stop_sampler: true, ..idle_work() })
            },
            ControlCommand::RequestExport { png, bounds_empty } => {
                let decision = if self.export_in_progress {
                    ExportDecision::Rejected(ExportRejection::ConcurrentExport)
                } else if !png {
                    ExportDecision::Rejected(ExportRejection::UnsupportedFormat)
                } else if self.status == RecordingStatus::Stopped || bounds_empty {
                    ExportDecision::Rejected(ExportRejection::NotExportable)
                } else {
                    ExportDecision::Prepare
                };
                let prepare = match decision {
                    ExportDecision::Prepare => true,
                    ExportDecision::Rejected(_) => false,
                };
                self.export_in_progress = self.export_in_progress || prepare;
                ControlStep {
                    effect: CommandEffect::PublishImmediately,
                    acknowledgment: None,
                    message: None,
                    work: idle_work(),
                    export: Some(decision),
                }
            },
            ControlCommand::RequestRecoveryCheckpoint => plain_step(CommandEffect::Continue, idle_work()),
            ControlCommand::PrepareShutdown { recovery_required, tiles_empty } => {
                self.shutting_down = true;
                plain_step(
                    CommandEffect::TerminateAfterPublish,
                    EngineWork {
                        stop_sampler: true,
                        flush: Some(DiscontinuityReason::PauseResume),
                        save_recovery: recovery_required || self.status != RecordingStatus::Stopped || !tiles_empty,
                        ..idle_work()
                    },
                )
            },
            ControlCommand::ForceShutdown => {
                self.shutting_down = true;
                plain_step(
                    CommandEffect::TerminateAfterPublish,
                    EngineWork { stop_sampler: true, flush: Some(DiscontinuityReason::PauseResume), ..idle_work() },
                )
            },
        }
    }
}

/// Whether a step acknowledges its request as done.
pub open spec fn accepted(step: ControlStep) -> bool {
    step.acknowledgment is Some && step.acknowledgment.unwrap().result == TransitionResult::Success
}

/// While the engine shuts down, no command changes its status or
/// generation, and it stays shutting down.
pub proof fn lemma_shutdown_freezes_state(s: EngineControl, c: ControlCommand)
    requires
        s.shutting_down,
    ensures
        control_outcome(s, c).0.status == s.status,
        control_outcome(s, c).0.generation == s.generation,
        control_outcome(s, c).0.shutting_down,
{
}

/// The commands that may start a new canvas, and so a new generation: start,
/// clear, and restoring a stopped session.
pub open spec fn renews_canvas(c: ControlCommand) -> bool {
    c is Start || c is Clear || c is RestoreStoppedSession
}

/// The generation never goes back; it advances by one exactly for an
/// accepted start or clear and for restoring a stopped session.
pub proof fn lemma_generation_advances_only_on_new_canvas(s: EngineControl, c: ControlCommand)
    requires
        renews_canvas(c) ==> s.generation < u64::MAX,
    ensures
        control_outcome(s, c).0.generation == s.generation || control_outcome(s, c).0.generation == s.generation + 1,
        control_outcome(s, c).0.generation == s.generation + 1 <==> !(s.shutting_down && !allowed_while_shutting_down(c))
            && (c is RestoreStoppedSession || ((c is Clear || c is Start) && accepted(control_outcome(s, c).1))),
{
}

/// Every lifecycle request is acknowledged once, with the status the engine
/// is in afterwards; no other command is acknowledged.
pub proof fn lemma_every_lifecycle_request_is_acknowledged(s: EngineControl, c: ControlCommand)
    ensures
        lifecycle_of(c) is Some <==> control_outcome(s, c).1.acknowledgment is Some,
        lifecycle_of(c) matches Some((id, kind)) ==> control_outcome(s, c).1.acknowledgment.unwrap().request_id == id
            && control_outcome(s, c).1.acknowledgment.unwrap().kind == kind
            && control_outcome(s, c).1.acknowledgment.unwrap().status == control_outcome(s, c).0.status,
        lifecycle_of(c) is Some ==> control_outcome(s, c).1.effect == CommandEffect::PublishImmediately,
{
}

/// The engine stops exactly on a shutdown command, and is then shutting down.
pub proof fn lemma_terminates_only_on_shutdown(s: EngineControl, c: ControlCommand)
    ensures
        control_outcome(s, c).1.effect == CommandEffect::TerminateAfterPublish <==> (c is PrepareShutdown
            || c is ForceShutdown),
        control_outcome(s, c).1.effect == CommandEffect::TerminateAfterPublish ==> control_outcome(s, c).0.shutting_down,
{
}

/// How often the engine asks which application is in front, in nanoseconds.
pub const FOREGROUND_CHECK_INTERVAL: u64 = 250_000_000;

/// Whether the engine asks for the foreground application now: on the first
/// sample, and then once the interval has passed (a clock reading before the
/// last check counts as no time passed).
pub fn foreground_check_due(last_check: Option<u64>, now: u64) -> (r: bool)
    ensures
        r == match last_check {
            None => true,
            Some(t) => now >= t && now - t >= FOREGROUND_CHECK_INTERVAL,
        },
{
    match last_check {
        None => true,
        Some(t) => now.saturating_sub(t) >= FOREGROUND_CHECK_INTERVAL,
    }
}

/// Records that the foreground application could not be determined: one
/// degradation error is kept, however often it happens.
pub fn record_foreground_failure(errors: &mut Vec<EngineError>)
    ensures
        (exists|i: int| 0 <= i < old(errors)@.len() && old(errors)@[i] is ForegroundDegradation) ==> final(errors)@
            == old(errors)@,
        !(exists|i: int| 0 <= i < old(errors)@.len() && old(errors)@[i] is ForegroundDegradation) ==> (
        final(errors)@.len() == old(errors)@.len() + 1 && final(errors)@.subrange(0, old(errors)@.len() as int)
            == old(errors)@ && (final(errors)@.last() matches EngineError::ForegroundDegradation(m) && m@
            == "application identity unavailable"@)),
{
    let mut i: usize = 0;
    while i < errors.len()
        invariant
            i <= errors@.len(),
            errors@ == old(errors)@,
            forall|j: int| 0 <= j < i ==> !(errors@[j] is ForegroundDegradation),
        decreases errors@.len() - i,
    {
        if let EngineError::ForegroundDegradation(_) = &errors[i] {
            return;
        }
        i = i + 1;
    }
    errors.push(EngineError::ForegroundDegradation("application identity unavailable".to_owned()));
    assert(errors@.subrange(0, old(errors)@.len() as int) =~= old(errors)@);
}

/// What the engine does with a cursor sample, given where it lies.
#[derive(Debug, Clone, Copy, PartialEq, Eq, Structural)]
pub struct SampleAdmission {
    /// End the current path because the pointer left the chosen displays.
    pub flush_for_display: bool,
    /// Draw from this sample on.
    pub accept: bool,
    /// Break the path because the pointer came back to a chosen display.
    pub rejoin_discontinuity: bool,
    /// Break the path because recording resumed.
    pub resume_discontinuity: bool,
    /// Whether the pointer is outside the chosen displays after this sample.
    pub excluded: bool,
    /// Whether a resume break is still owed after this sample.
    pub force_discontinuity: bool,
}

/// The engine's decision on a sample. A sample off every detected display
/// (when any is known), or on a detected display that was not chosen, is
/// dropped, ending the current path the first time. A sample back on a chosen
/// display breaks the path; a break owed for a resume is taken now.
pub open spec fn sample_admission_of(
    detected_known: bool,
    in_detected: bool,
    in_effective: bool,
    excluded: bool,
    force_discontinuity: bool,
) -> SampleAdmission {
    if (detected_known && !in_detected) || (in_detected && !in_effective) {
        SampleAdmission {
            flush_for_display: !excluded,
            accept: false,
            rejoin_discontinuity: false,
            resume_discontinuity: false,
            excluded: true,
            force_discontinuity,
        }
    } else {
        SampleAdmission {
            flush_for_display: false,
            accept: true,
            rejoin_discontinuity: excluded,
            resume_discontinuity: force_discontinuity,
            excluded: false,
            force_discontinuity: false,
        }
    }
}

/// Decides what to do with a sample; see [`sample_admission_of`].
pub fn sample_admission(
    detected_known: bool,
    in_detected: bool,
    in_effective: bool,
    excluded: bool,
    force_discontinuity: bool,
) -> (a: SampleAdmission)
    ensures
        a == sample_admission_of(detected_known, in_detected, in_effective, excluded, force_discontinuity),
{
    if (detected_known && !in_detected) || (in_detected && !in_effective) {
        return SampleAdmission {
            flush_for_display: !excluded,
            accept: false,
            rejoin_discontinuity: false,
            resume_discontinuity: false,
            excluded: true,
            force_discontinuity,
        };
    }
    SampleAdmission {
        flush_for_display: false,
        accept: true,
        rejoin_discontinuity: excluded,
        resume_discontinuity: force_discontinuity,
        excluded: false,
        force_discontinuity: false,
    }
}

/// How an export the engine was running ended.
#[derive(Debug, Clone, Copy, PartialEq, Eq, Structural)]
pub enum ExportCompletion {
    Succeeded,
    Failed,
}

impl EngineControl {
    /// Takes in the result of an export: a result for any request but the
    /// active one is ignored; otherwise the export is over.
    pub fn finish_export(&mut self, active: Option<u64>, result_for: u64, succeeded: bool) -> (r: Option<
        ExportCompletion,
    >)
        ensures
            active != Some(result_for) ==> r is None && *final(self) == *old(self),
            active == Some(result_for) ==> r == Some(
                if succeeded {
                    ExportCompletion::Succeeded
                } else {
                    ExportCompletion::Failed
                },
            ) && *final(self) == (EngineControl { export_in_progress: false, ..*old(self) }),
    {
        match active {
            Some(a) => {
                if a != result_for {
                    return None;
                }
            },
            None => {
                return None;
            },
        }
        self.export_in_progress = false;
        if succeeded {
            Some(ExportCompletion::Succeeded)
        } else {
            Some(ExportCompletion::Failed)
        }
    }
}

/// Pausing a recording and resuming it returns to recording; finishing and
/// clearing returns to stopped; a refused request names the current status
/// unless the engine is shutting down or the topology is empty.
pub proof fn lemma_lifecycle_round_trips(status: RecordingStatus, empty: bool)
    ensures
        status == RecordingStatus::Recording ==> transition_outcome(status, TransitionKind::Pause, false, empty)
            == Ok::<RecordingStatus, TransitionRejection>(RecordingStatus::Paused)
            && transition_outcome(RecordingStatus::Paused, TransitionKind::Resume, false, empty)
            == Ok::<RecordingStatus, TransitionRejection>(RecordingStatus::Recording),
        (status == RecordingStatus::Recording || status == RecordingStatus::Paused)
            ==> transition_outcome(status, TransitionKind::Finish, false, empty)
            == Ok::<RecordingStatus, TransitionRejection>(RecordingStatus::Finished)
            && transition_outcome(RecordingStatus::Finished, TransitionKind::Clear, false, empty)
            == Ok::<RecordingStatus, TransitionRejection>(RecordingStatus::Stopped),
        forall|kind: TransitionKind|
            #![trigger transition_outcome(status, kind, false, empty)]
            transition_outcome(status, kind, false, empty) matches Err(reason) ==> (reason
                == TransitionRejection::WrongCurrentState { current: status } || reason
                == TransitionRejection::EmptyEffectiveTopology),
{
}

/// A start is accepted exactly from the stopped state with a non-empty topology,
/// and nothing but a start leaves the stopped state.
pub proof fn lemma_only_start_leaves_stopped(kind: TransitionKind, empty: bool)
    ensures
        transition_outcome(RecordingStatus::Stopped, kind, false, empty) matches Ok(next) ==> (
        next == RecordingStatus::Stopped || (kind == TransitionKind::Start && !empty && next
            == RecordingStatus::Recording)),
{
}

} // verus!
