use vstd::prelude::*;

use crate::session::model::RecordingStatus;

verus! {

/// Correlates a lifecycle request with its acknowledgment.
#[derive(Debug, Clone, Copy, PartialEq, Eq, Hash, Structural)]
pub struct TransitionRequestId(u64);

impl View for TransitionRequestId {
    type V = u64;

    closed spec fn view(&self) -> u64 {
        self.0
    }
}

impl TransitionRequestId {
    /// The identifier with the given sequence number; the application hands
    /// these out from one process-wide counter that starts at 1.
    pub fn from_raw(n: u64) -> (id: Self)
        ensures
            id@ == n,
    {
        TransitionRequestId(n)
    }

    /// The sequence number of this identifier.
    pub fn raw(&self) -> (n: u64)
        ensures
            n == self@,
    {
        self.0
    }
}

#[derive(Debug, Clone, Copy, PartialEq, Eq, Hash, Structural)]
pub enum TransitionKind {
    Start,
    Pause,
    Resume,
    Finish,
    Clear,
}

/// A lifecycle request and the data it carries.
#[derive(Debug, Clone)]
pub struct TransitionRequest<T> {
    pub id: TransitionRequestId,
    pub data: T,
}

impl<T> TransitionRequest<T> {
    /// A request with the given identifier.
    pub fn with_id(id: TransitionRequestId, data: T) -> (r: Self)
        ensures
            r.id == id,
            r.data == data,
    {
        TransitionRequest { id, data }
    }
}

#[derive(Debug, Clone, PartialEq, Eq, Structural)]
pub enum TransitionRejection {
    WrongCurrentState { current: RecordingStatus },
    ShutdownInProgress,
    EmptyEffectiveTopology,
    OperationInProgress,
}

impl TransitionRejection {
    /// The user-facing explanation of the rejection.
    pub fn message(&self) -> (m: &'static str)
        ensures
            m@ == match *self {
                TransitionRejection::WrongCurrentState { .. } =>
                    "That operation is not available in the current recording state."@,
                TransitionRejection::ShutdownInProgress => "The recording engine is shutting down."@,
                TransitionRejection::EmptyEffectiveTopology =>
                    "Select at least one display before starting recording."@,
                TransitionRejection::OperationInProgress =>
                    "Another recording operation is already being applied."@,
            },
    {
        match self {
            TransitionRejection::WrongCurrentState { .. } => {
                "That operation is not available in the current recording state."
            },
            TransitionRejection::ShutdownInProgress => "The recording engine is shutting down.",
            TransitionRejection::EmptyEffectiveTopology => {
                "Select at least one display before starting recording."
            },
            TransitionRejection::OperationInProgress => {
                "Another recording operation is already being applied."
            },
        }
    }
}

#[derive(Debug, Clone, PartialEq, Eq, Structural)]
pub enum TransitionResult {
    Success,
    Rejected(TransitionRejection),
}

#[derive(Debug, Clone, PartialEq, Eq, Structural)]
pub struct TransitionAcknowledgment {
    pub request_id: TransitionRequestId,
    pub kind: TransitionKind,
    pub status: RecordingStatus,
    pub result: TransitionResult,
}

/// Correlates a full-state request with the snapshot that answers it.
#[derive(Debug, Clone, Copy, PartialEq, Eq, Hash, Structural)]
pub struct FullStateRequestId(u64);

impl View for FullStateRequestId {
    type V = u64;

    closed spec fn view(&self) -> u64 {
        self.0
    }
}

impl FullStateRequestId {
    /// The identifier with the given sequence number.
    pub fn from_raw(n: u64) -> (id: Self)
        ensures
            id@ == n,
    {
        FullStateRequestId(n)
    }
}

#[derive(Debug, Clone, Copy, PartialEq, Eq, Structural)]
pub enum CommandPriority {
    High,
    Normal,
}

} // verus!
