use vstd::prelude::*;

use std::sync::mpsc::{Receiver, TryRecvError};

verus! {

#[verifier::external_type_specification]
#[verifier::external_body]
#[verifier::reject_recursive_types(T)]
pub struct ExReceiver<T>(Receiver<T>);

#[verifier::external_type_specification]
#[verifier::external_body]
pub struct ExTryRecvError(TryRecvError);

/// What one look at a channel found.
#[derive(Debug, Clone, PartialEq, Eq)]
pub enum Received<T> {
    /// A message was waiting.
    Message(T),
    /// Nothing is waiting yet.
    Empty,
    /// The sender went away.
    Disconnected,
}

/// Calls `Receiver::try_recv` and tells its outcomes apart. Whether a message
/// is waiting depends on the other threads, so nothing is stated of the
/// result.
#[verifier::external_body]
fn try_receive<T>(r: &Receiver<T>) -> Received<T> {
    match r.try_recv() {
        Ok(v) => Received::Message(v),
        Err(TryRecvError::Empty) => Received::Empty,
        Err(TryRecvError::Disconnected) => Received::Disconnected,
    }
}

/// The error `Receiver::try_recv` reports for a channel whose sender went
/// away: `TryRecvError::Disconnected`.
#[verifier::external_body]
fn disconnected_error() -> TryRecvError {
    TryRecvError::Disconnected
}

/// The outcome the window acts on for a look at the result channel: the
/// result once it arrived, waiting while nothing is there, and a lost engine
/// once the sender is gone.
pub fn classify_poll(r: Received<ShutdownResult>) -> (p: ShutdownPoll)
    ensures
        p == match r {
            Received::Message(v) => ShutdownPoll::Finished(v),
            Received::Empty => ShutdownPoll::Pending,
            Received::Disconnected => ShutdownPoll::Disconnected,
        },
{
    match r {
        Received::Message(v) => ShutdownPoll::Finished(v),
        Received::Empty => ShutdownPoll::Pending,
        Received::Disconnected => ShutdownPoll::Disconnected,
    }
}

/// Calls `Receiver::try_iter` and collects every message already waiting, in
/// order. What is waiting depends on the other threads, so nothing is stated.
#[verifier::external_body]
fn drain_waiting<T>(r: &Receiver<T>) -> Vec<T> {
    r.try_iter().collect()
}

/// Serializable data needed by the engine to finish a session. Deliberately
/// contains no monotonic instant: UI deadlines belong to the UI process.
#[derive(Debug, Clone, PartialEq, Eq)]
pub struct ShutdownRequest {
    pub recovery_directory: Option<String>,
    pub recovery_required: bool,
}

#[derive(Debug, Clone, PartialEq, Eq, Structural)]
pub enum ShutdownProgress {
    FinalizingActivity,
    StoppingSampler,
    SavingRecovery,
    JoiningEngine,
}

#[derive(Debug, Clone, PartialEq, Eq)]
pub enum ShutdownResult {
    RecoverySavedAndWorkersStopped,
    NoRecoveryRequiredAndWorkersStopped,
    RecoveryFailedWorkersStopped { error: String, previous_recovery_valid: bool },
    WorkerShutdownFailed { error: String, previous_recovery_valid: bool },
}

impl ShutdownResult {
    /// Whether every worker is known to have stopped.
    pub fn workers_stopped(&self) -> (r: bool)
        ensures
            r == !(self is WorkerShutdownFailed),
    {
        match self {
            ShutdownResult::WorkerShutdownFailed { .. } => false,
            _ => true,
        }
    }

    /// Whether the result reports a failure that needs the user's choice.
    pub fn is_failure(&self) -> (r: bool)
        ensures
            r == (self is RecoveryFailedWorkersStopped || self is WorkerShutdownFailed),
    {
        match self {
            ShutdownResult::RecoveryFailedWorkersStopped { .. }
            | ShutdownResult::WorkerShutdownFailed { .. } => true,
            _ => false,
        }
    }
}

/// What one look at the result channel of a shutdown found.
#[derive(Debug, Clone, PartialEq, Eq)]
pub enum ShutdownPoll {
    /// No result yet.
    Pending,
    /// The engine reported how the shutdown ended.
    Finished(ShutdownResult),
    /// The engine went away without reporting.
    Disconnected,
}

/// The progress message a look at the progress channel found, if any.
pub fn progress_of(r: Received<ShutdownProgress>) -> (p: Option<ShutdownProgress>)
    ensures
        p == match r {
            Received::Message(v) => Some(v),
            _ => None,
        },
{
    match r {
        Received::Message(v) => Some(v),
        _ => None,
    }
}

/// What a look at the result channel found, in the form
/// [`ShutdownTicket::try_result`] reports it: the result once it arrived,
/// `Ok(None)` while nothing is there, and `disconnected` once the sender is
/// gone.
pub fn result_of(r: Received<ShutdownResult>, disconnected: TryRecvError) -> (out: Result<Option<ShutdownResult>, TryRecvError>)
    ensures
        out == match r {
            Received::Message(v) => Ok(Some(v)),
            Received::Empty => Ok(None),
            Received::Disconnected => Err(disconnected),
        },
{
    match r {
        Received::Message(v) => Ok(Some(v)),
        Received::Empty => Ok(None),
        Received::Disconnected => Err(disconnected),
    }
}

/// The last of the messages that were waiting, if any.
pub fn latest_of<T>(waiting: Vec<T>) -> (last: Option<T>)
    ensures
        last == if waiting@.len() == 0 {
            None
        } else {
            Some(waiting@.last())
        },
{
    let mut waiting = waiting;
    waiting.pop()
}

/// The receiving ends through which an orderly shutdown reports.
pub struct ShutdownTicket {
    progress: Receiver<ShutdownProgress>,
    result: Receiver<ShutdownResult>,
}

impl ShutdownTicket {
    /// The channel the progress messages come through.
    pub closed spec fn progress_channel(&self) -> Receiver<ShutdownProgress> {
        self.progress
    }

    /// The channel the final result comes through.
    pub closed spec fn result_channel(&self) -> Receiver<ShutdownResult> {
        self.result
    }

    /// A ticket that reads progress from `progress` and the result from
    /// `result`.
    pub fn new(progress: Receiver<ShutdownProgress>, result: Receiver<ShutdownResult>) -> (t: Self)
        ensures
            t.progress_channel() == progress,
            t.result_channel() == result,
    {
        ShutdownTicket { progress, result }
    }

    /// The next progress message, if one is waiting; see [`progress_of`].
    /// Whether one is waiting depends on the engine's thread, so nothing is
    /// stated of the result.
    pub fn try_progress(&self) -> Option<ShutdownProgress> {
        progress_of(try_receive(&self.progress))
    }

    /// The final result if it has arrived, `Ok(None)` while it has not, and the
    /// channel error once the engine has gone without a result; see
    /// [`result_of`]. Which of these holds depends on the engine's thread, so
    /// nothing is stated of the result.
    pub fn try_result(&self) -> Result<Option<ShutdownResult>, TryRecvError> {
        result_of(try_receive(&self.result), disconnected_error())
    }

    /// The most recent of the progress messages waiting, if any; see
    /// [`latest_of`]. What is waiting depends on the engine's thread, so
    /// nothing is stated of the result.
    pub fn latest_progress(&self) -> Option<ShutdownProgress> {
        latest_of(drain_waiting(&self.progress))
    }

    /// The result channel as one of the three outcomes that matter to the UI;
    /// see [`classify_poll`]. Which one depends on the engine's thread, so
    /// nothing is stated of the result.
    pub fn poll_result(&self) -> ShutdownPoll {
        classify_poll(try_receive(&self.result))
    }
}

} // verus!
