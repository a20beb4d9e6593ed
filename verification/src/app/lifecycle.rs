//! The exit lifecycle of the window: confirmation, orderly shutdown with a
//! visible force button, and a hard deadline.
//!
//! Instants are nanoseconds on the process's monotonic clock.
use vstd::prelude::*;

use crate::app::commands::AppCommand;
use crate::session::model::RecordingStatus;
use crate::session::shutdown::{ShutdownPoll, ShutdownProgress, ShutdownResult, ShutdownTicket};

verus! {

/// After this long (in nanoseconds) the "Force exit" button appears.
pub const FORCE_BUTTON_DELAY: u64 = 2_000_000_000;

/// After this long (in nanoseconds) an orderly shutdown is abandoned.
pub const HARD_DEADLINE: u64 = 5_000_000_000;

/// Process termination seam. Tests use a recorder; production is the only
/// implementation that calls the non-destructor-dependent exit path.
pub trait ProcessTerminator {
    fn terminate(&self, code: i32);
}

#[derive(Debug, Clone, Copy, PartialEq, Eq, Structural)]
pub enum ExitSource {
    WindowClose,
    Tray,
    CliOrIpc,
}

#[derive(Debug, Clone, Copy, PartialEq, Eq, Structural)]
pub enum LifecycleState {
    Running,
    ExitConfirmationRequested,
    StartingShutdown,
    WaitingForEngineAndRecovery,
    RecoveryFailedAwaitingChoice,
    ReadyToClose,
    ForceExiting,
}

#[derive(Debug, Clone, Copy, PartialEq, Eq, Structural)]
pub enum ExitRequestResult {
    ConfirmationRequired,
    BeginShutdown,
    AlreadyInProgress,
}

/// What the coordinator's private state is, seen from outside.
pub struct LifecycleModel {
    pub state: LifecycleState,
    pub source: Option<ExitSource>,
    /// When the shutdown began.
    pub started: Option<u64>,
    /// Whether the coordinator holds the engine's shutdown ticket.
    pub has_ticket: bool,
    pub progress: Option<ShutdownProgress>,
    pub outcome: Option<ShutdownResult>,
    pub final_close_sent: bool,
}

pub struct LifecycleCoordinator {
    state: LifecycleState,
    source: Option<ExitSource>,
    started: Option<u64>,
    ticket: Option<ShutdownTicket>,
    pub progress: Option<ShutdownProgress>,
    pub outcome: Option<ShutdownResult>,
    pub final_close_sent: bool,
}

impl View for LifecycleCoordinator {
    type V = LifecycleModel;

    closed spec fn view(&self) -> LifecycleModel {
        LifecycleModel {
            state: self.state,
            source: self.source,
            started: self.started,
            has_ticket: self.ticket is Some,
            progress: self.progress,
            outcome: self.outcome,
            final_close_sent: self.final_close_sent,
        }
    }
}

/// Whether a coordinator is in its initial state.
pub open spec fn is_initial(c: LifecycleCoordinator) -> bool {
    &&& c@.state == LifecycleState::Running
    &&& c@.source is None
    &&& c@.started is None
    &&& !c@.has_ticket
    &&& c@.progress is None
    &&& c@.outcome is None
    &&& !c@.final_close_sent
}

/// Nanoseconds since the shutdown began (zero before it began or for an
/// earlier `now`).
pub open spec fn elapsed_at(m: LifecycleModel, now: u64) -> nat {
    match m.started {
        Some(s) => if now >= s {
            (now - s) as nat
        } else {
            0
        },
        None => 0,
    }
}

pub open spec fn preparing(state: LifecycleState) -> bool {
    !(state == LifecycleState::Running || state == LifecycleState::ExitConfirmationRequested)
}

impl Default for LifecycleCoordinator {
    fn default() -> (c: Self)
        ensures
            is_initial(c),
    {
        LifecycleCoordinator {
            state: LifecycleState::Running,
            source: None,
            started: None,
            ticket: None,
            progress: None,
            outcome: None,
            final_close_sent: false,
        }
    }
}

impl LifecycleCoordinator {
    /// The engine's shutdown ticket, once handed over.
    pub closed spec fn held_ticket(&self) -> Option<ShutdownTicket> {
        self.ticket
    }

    pub fn state(&self) -> (s: &LifecycleState)
        ensures
            *s == self@.state,
    {
        &self.state
    }

    pub fn source(&self) -> (s: Option<ExitSource>)
        ensures
            s == self@.source,
    {
        self.source
    }

    /// Whether an orderly shutdown is under way or over.
    pub fn is_preparing(&self) -> (r: bool)
        ensures
            r == preparing(self@.state),
    {
        match self.state {
            LifecycleState::Running | LifecycleState::ExitConfirmationRequested => false,
            _ => true,
        }
    }

    pub fn confirmation_pending(&self) -> (r: bool)
        ensures
            r == (self@.state == LifecycleState::ExitConfirmationRequested),
    {
        self.state == LifecycleState::ExitConfirmationRequested
    }

    /// A request to exit. Only the first request while running counts: it asks
    /// for confirmation when there is something to lose, and otherwise the
    /// window may close at once.
    pub fn exit_requested(&mut self, source: ExitSource, needs: bool, now: u64) -> (r:
        ExitRequestResult)
        ensures
            old(self)@.state != LifecycleState::Running ==> r == ExitRequestResult::AlreadyInProgress
                && final(self)@ == old(self)@,
            old(self)@.state == LifecycleState::Running && needs ==> r
                == ExitRequestResult::ConfirmationRequired && final(self)@ == (LifecycleModel {
                state: LifecycleState::ExitConfirmationRequested,
                source: Some(source),
                ..old(self)@
            }),
            old(self)@.state == LifecycleState::Running && !needs ==> r
                == ExitRequestResult::BeginShutdown && final(self)@ == (LifecycleModel {
                state: LifecycleState::ReadyToClose,
                source: Some(source),
                started: Some(now),
                ..old(self)@
            }),
    {
        if self.state != LifecycleState::Running {
            return ExitRequestResult::AlreadyInProgress;
        }
        self.source = Some(source);
        if needs {
            self.state = LifecycleState::ExitConfirmationRequested;
            ExitRequestResult::ConfirmationRequired
        } else {
            self.started = Some(now);
            self.state = LifecycleState::ReadyToClose;
            ExitRequestResult::BeginShutdown
        }
    }

    /// Withdraws a pending confirmation, returning to the initial state.
    pub fn cancel_confirmation(&mut self)
        ensures
            old(self)@.state == LifecycleState::ExitConfirmationRequested ==> is_initial(*final(self)),
            old(self)@.state != LifecycleState::ExitConfirmationRequested ==> final(self)@ == old(self)@,
    {
        if self.confirmation_pending() {
            *self = Self::default();
        }
    }

    /// The user confirmed the exit: the orderly shutdown starts now.
    pub fn confirm_exit(&mut self, now: u64) -> (r: bool)
        ensures
            r == (old(self)@.state == LifecycleState::ExitConfirmationRequested),
            r ==> final(self)@ == (LifecycleModel {
                state: LifecycleState::StartingShutdown,
                started: Some(now),
                ..old(self)@
            }),
            !r ==> final(self)@ == old(self)@,
    {
        if !self.confirmation_pending() {
            return false;
        }
        self.started = Some(now);
        self.state = LifecycleState::StartingShutdown;
        true
    }

    /// Hands over the engine's shutdown ticket once the shutdown has started.
    pub fn start(&mut self, ticket: ShutdownTicket)
        ensures
            old(self)@.state == LifecycleState::StartingShutdown ==> final(self)@ == (LifecycleModel {
                state: LifecycleState::WaitingForEngineAndRecovery,
                has_ticket: true,
                ..old(self)@
            }),
            old(self)@.state != LifecycleState::StartingShutdown ==> final(self)@ == old(self)@,
            final(self).held_ticket() == if old(self)@.state == LifecycleState::StartingShutdown {
                Some(ticket)
            } else {
                old(self).held_ticket()
            },
    {
        if self.state == LifecycleState::StartingShutdown {
            self.ticket = Some(ticket);
            self.state = LifecycleState::WaitingForEngineAndRecovery;
        }
    }

    /// Takes in what the shutdown ticket reported: the latest progress message
    /// and the state of the result channel. A failed or lost result waits for
    /// the user's choice; any other result lets the window close.
    pub fn record_shutdown_poll(&mut self, latest: Option<ShutdownProgress>, result: ShutdownPoll)
        ensures
            final(self)@.progress == (if latest is Some { latest } else { old(self)@.progress }),
            final(self)@.source == old(self)@.source,
            final(self)@.started == old(self)@.started,
            final(self)@.has_ticket == old(self)@.has_ticket,
            final(self)@.final_close_sent == old(self)@.final_close_sent,
            result is Pending ==> final(self)@.state == old(self)@.state && final(self)@.outcome == old(self)@.outcome,
            result matches ShutdownPoll::Finished(r) ==> final(self)@.outcome == Some(r) && final(self)@.state == (if r is RecoveryFailedWorkersStopped || r is WorkerShutdownFailed {
                LifecycleState::RecoveryFailedAwaitingChoice
            } else {
                LifecycleState::ReadyToClose
            }),
            result is Disconnected ==> final(self)@.state == LifecycleState::RecoveryFailedAwaitingChoice,
            result is Disconnected ==> (final(self)@.outcome matches Some(
                ShutdownResult::WorkerShutdownFailed { error, previous_recovery_valid },
            ) && error@ == "shutdown result channel disconnected"@ && previous_recovery_valid),
    {
        if let Some(p) = latest {
            self.progress = Some(p);
        }
        match result {
            ShutdownPoll::Finished(r) => {
                let failed = r.is_failure();
                self.outcome = Some(r);
                self.state =
                    if failed {
                        LifecycleState::RecoveryFailedAwaitingChoice
                    } else {
                        LifecycleState::ReadyToClose
                    };
            },
            ShutdownPoll::Disconnected => {
                self.outcome = Some(
                    ShutdownResult::WorkerShutdownFailed {
                        error: "shutdown result channel disconnected".to_owned(),
                        previous_recovery_valid: true,
                    },
                );
                self.state = LifecycleState::RecoveryFailedAwaitingChoice;
            },
            ShutdownPoll::Pending => {},
        }
    }

    /// Reads the shutdown ticket, if there is one, and records what it reports.
    /// What the engine reports depends on its thread; whatever it is, only the
    /// state and the reported fields change, and only to what
    /// [`Self::record_shutdown_poll`] allows.
    pub fn poll(&mut self)
        ensures
            !old(self)@.has_ticket ==> final(self)@ == old(self)@,
            final(self)@.source == old(self)@.source,
            final(self)@.started == old(self)@.started,
            final(self)@.has_ticket == old(self)@.has_ticket,
            final(self)@.final_close_sent == old(self)@.final_close_sent,
            final(self)@.state == old(self)@.state || final(self)@.state
                == LifecycleState::ReadyToClose || final(self)@.state
                == LifecycleState::RecoveryFailedAwaitingChoice,
            final(self)@.progress == old(self)@.progress || final(self)@.progress is Some,
            final(self)@.state != old(self)@.state || final(self)@.outcome != old(self)@.outcome
                ==> (final(self)@.outcome matches Some(r) && final(self)@.state == (if r is RecoveryFailedWorkersStopped
                || r is WorkerShutdownFailed {
                LifecycleState::RecoveryFailedAwaitingChoice
            } else {
                LifecycleState::ReadyToClose
            })),
    {
        let (latest, result) = match &self.ticket {
            Some(t) => (t.latest_progress(), t.poll_result()),
            None => return ,
        };
        self.record_shutdown_poll(latest, result);
    }

    /// Nanoseconds since the shutdown began.
    pub fn elapsed(&self, now: u64) -> (d: u64)
        ensures
            d == elapsed_at(self@, now),
    {
        match self.started {
            Some(s) => now.saturating_sub(s),
            None => 0,
        }
    }

    /// Whether the "Force exit" button is shown.
    pub fn force_visible(&self, now: u64) -> (r: bool)
        ensures
            r == (elapsed_at(self@, now) >= FORCE_BUTTON_DELAY),
    {
        self.elapsed(now) >= FORCE_BUTTON_DELAY
    }

    /// Whether a shutdown has run past the hard deadline.
    pub fn deadline_reached(&self, now: u64) -> (r: bool)
        ensures
            r == (preparing(self@.state) && elapsed_at(self@, now) >= HARD_DEADLINE),
    {
        self.is_preparing() && self.elapsed(now) >= HARD_DEADLINE
    }

    pub fn force(&mut self)
        ensures
            final(self)@ == (LifecycleModel { state: LifecycleState::ForceExiting, ..old(self)@ }),
    {
        self.state = LifecycleState::ForceExiting;
    }

    /// Closes despite a failed recovery, which is allowed only once every
    /// worker is known to have stopped.
    pub fn exit_anyway(&mut self) -> (r: bool)
        ensures
            r == (old(self)@.outcome matches Some(o) && !(o is WorkerShutdownFailed)),
            r ==> final(self)@ == (LifecycleModel { state: LifecycleState::ReadyToClose, ..old(self)@ }),
            !r ==> final(self)@ == old(self)@,
    {
        let stopped = match &self.outcome {
            Some(o) => o.workers_stopped(),
            None => false,
        };
        if stopped {
            self.state = LifecycleState::ReadyToClose;
            true
        } else {
            false
        }
    }

    /// A terminated authoritative engine cannot safely resume, so a failed
    /// shutdown can never be cancelled.
    pub fn cancel_after_failure(&mut self) -> (r: bool)
        ensures
            !r,
            final(self)@ == old(self)@,
    {
        false
    }
}

/// Whether exiting could lose something the user would want asked about.
pub fn confirmation_worthy(
    status: RecordingStatus,
    canvas_nonempty: bool,
    recoverable_or_unexported: bool,
) -> (r: bool)
    ensures
        r == (status != RecordingStatus::Stopped || canvas_nonempty || recoverable_or_unexported),
{
    status != RecordingStatus::Stopped || canvas_nonempty || recoverable_or_unexported
}

/// Once the hard deadline has passed the force button is shown, and once the
/// force button is shown it stays shown: the button appears no later than the
/// deadline and never disappears as time passes.
pub proof fn lemma_force_button_before_deadline(m: LifecycleModel, now: u64, later: u64)
    ensures
        elapsed_at(m, now) >= HARD_DEADLINE ==> elapsed_at(m, now) >= FORCE_BUTTON_DELAY,
        now <= later && elapsed_at(m, now) >= FORCE_BUTTON_DELAY ==> elapsed_at(m, later)
            >= FORCE_BUTTON_DELAY,
        now <= later && preparing(m.state) && elapsed_at(m, now) >= HARD_DEADLINE ==> elapsed_at(m, later) >= HARD_DEADLINE,
{
}

/// Where the window sends a command it received.
#[derive(Debug, Clone, Copy, PartialEq, Eq, Structural)]
pub enum CommandRoute {
    /// Bring the window back.
    ShowWindow,
    /// Ask to exit, from the given source.
    RequestExit(ExitSource),
    /// Hide the window to the tray.
    MinimizeToTray,
    /// Decide it against the action table.
    Apply(AppCommand),
    /// Refuse it: the program is shutting down.
    RejectDuringShutdown,
}

/// The message shown for a command refused while shutting down.
pub const SHUTDOWN_IN_PROGRESS_MESSAGE: &'static str = "Command rejected: shutdown is in progress.";

/// Routes a received command: exits and minimizing always go through; while
/// the shutdown is being prepared every other command is refused; otherwise
/// `Show` brings the window back and the rest are decided by the action table.
pub fn route_command(c: AppCommand, preparing: bool) -> (r: CommandRoute)
    ensures
        r == match c {
            AppCommand::Exit => CommandRoute::RequestExit(ExitSource::CliOrIpc),
            AppCommand::ExitFromTray => CommandRoute::RequestExit(ExitSource::Tray),
            AppCommand::MinimizeToTray => CommandRoute::MinimizeToTray,
            _ => if preparing {
                CommandRoute::RejectDuringShutdown
            } else if c == AppCommand::Show {
                CommandRoute::ShowWindow
            } else {
                CommandRoute::Apply(c)
            },
        },
{
    match c {
        AppCommand::Exit => CommandRoute::RequestExit(ExitSource::CliOrIpc),
        AppCommand::ExitFromTray => CommandRoute::RequestExit(ExitSource::Tray),
        AppCommand::MinimizeToTray => CommandRoute::MinimizeToTray,
        AppCommand::Show => if preparing {
            CommandRoute::RejectDuringShutdown
        } else {
            CommandRoute::ShowWindow
        },
        _ => if preparing {
            CommandRoute::RejectDuringShutdown
        } else {
            CommandRoute::Apply(c)
        },
    }
}

} // verus!
