//! The engine's record of the export it runs: its phase, the request it
//! serves and the last result, as the window sees them.
use vstd::prelude::*;

use crate::session::engine::{ExportDecision, ExportRejection};
use crate::session::shutdown::Received;

verus! {

/// Where the engine's export stands; requests are named by their identifier.
#[derive(Debug, Clone, Copy, PartialEq, Eq, Structural)]
pub enum ExportState {
    Idle,
    PreparingSnapshot { request_id: u64 },
    Exporting { request_id: u64 },
    Succeeded { request_id: u64 },
    Failed { request_id: u64 },
}

/// How an export request ended.
#[derive(Debug, Clone, PartialEq, Eq)]
pub enum ExportOutcome {
    /// The file was written at `path`.
    Success { request_id: u64, path: String },
    /// The export failed; `retry_request` is the request to send again.
    Failure { request_id: u64, error: String, retry_request: u64 },
    /// The engine refused the request.
    Rejected { request_id: u64, reason: ExportRejection },
}

/// The request an outcome answers.
pub open spec fn outcome_request(o: ExportOutcome) -> u64 {
    match o {
        ExportOutcome::Success { request_id, .. } => request_id,
        ExportOutcome::Failure { request_id, .. } => request_id,
        ExportOutcome::Rejected { request_id, .. } => request_id,
    }
}

/// The engine's export activity: the phase, the request being served, and
/// the last result.
pub struct ExportActivity {
    pub export: ExportState,
    pub active_export: Option<u64>,
    pub last_export_result: Option<ExportOutcome>,
}

/// The message of a failure caused by the export worker going away.
pub const WORKER_DISCONNECTED: &'static str = "export worker disconnected";

impl ExportActivity {
    /// No export yet.
    pub fn new() -> (a: Self)
        ensures
            a.export == ExportState::Idle,
            a.active_export is None,
            a.last_export_result is None,
    {
        ExportActivity { export: ExportState::Idle, active_export: None, last_export_result: None }
    }

    /// Whether an export is being prepared or written.
    pub fn in_progress(&self) -> (b: bool)
        ensures
            b == (self.export is PreparingSnapshot || self.export is Exporting),
    {
        match self.export {
            ExportState::PreparingSnapshot { .. } | ExportState::Exporting { .. } => true,
            _ => false,
        }
    }

    /// Records the engine's decision on request `request_id`: a refusal
    /// becomes the last result; an accepted request is prepared and served,
    /// and the last result is cleared.
    pub fn record_decision(&mut self, request_id: u64, decision: ExportDecision)
        ensures
            decision matches ExportDecision::Rejected(reason) ==> final(self).export == old(self).export
                && final(self).active_export == old(self).active_export && final(self).last_export_result == Some(
                ExportOutcome::Rejected { request_id, reason },
            ),
            decision is Prepare ==> final(self).export == (ExportState::PreparingSnapshot { request_id })
                && final(self).active_export == Some(request_id) && final(self).last_export_result is None,
    {
        match decision {
            ExportDecision::Rejected(reason) => {
                self.last_export_result = Some(ExportOutcome::Rejected { request_id, reason });
            },
            ExportDecision::Prepare => {
                self.export = ExportState::PreparingSnapshot { request_id };
                self.last_export_result = None;
                self.active_export = Some(request_id);
            },
        }
    }

    /// Moves a prepared export on to writing once its snapshot is taken; says
    /// whether it did.
    pub fn begin_exporting(&mut self) -> (started: bool)
        ensures
            started == (old(self).export is PreparingSnapshot),
            started ==> final(self).export == (ExportState::Exporting {
                request_id: old(self).export->PreparingSnapshot_request_id,
            }) && final(self).active_export == old(self).active_export && final(self).last_export_result
                == old(self).last_export_result,
            !started ==> *final(self) == *old(self),
    {
        match self.export {
            ExportState::PreparingSnapshot { request_id } => {
                self.export = ExportState::Exporting { request_id };
                true
            },
            _ => false,
        }
    }

    /// Takes in what a look at the export worker's channel found: a result,
    /// nothing yet, or that the worker went away, which fails the request
    /// being served (to be sent again). A result for any request but the one
    /// being served is ignored. A result for it ends the export, succeeded or
    /// failed, and becomes the last result; says whether it did.
    pub fn take_result(&mut self, received: Received<ExportOutcome>) -> (changed: bool)
        ensures
            received is Empty ==> !changed && *final(self) == *old(self),
            received matches Received::Message(o) ==> if old(self).active_export == Some(outcome_request(o)) {
                &&& changed
                &&& final(self).export == if o is Success {
                    ExportState::Succeeded { request_id: outcome_request(o) }
                } else {
                    ExportState::Failed { request_id: outcome_request(o) }
                }
                &&& final(self).last_export_result == Some(o)
                &&& final(self).active_export is None
            } else {
                !changed && *final(self) == *old(self)
            },
            received is Disconnected ==> match old(self).active_export {
                Some(r) => {
                    &&& changed
                    &&& final(self).export == (ExportState::Failed { request_id: r })
                    &&& final(self).active_export is None
                    &&& final(self).last_export_result matches Some(ExportOutcome::Failure { request_id, error, retry_request })
                    &&& request_id == r && retry_request == r && error@ == WORKER_DISCONNECTED@
                },
                None => !changed && *final(self) == *old(self),
            },
    {
        let result = match received {
            Received::Message(v) => Some(v),
            Received::Empty => None,
            Received::Disconnected => match self.active_export {
                Some(r) => Some(
                    ExportOutcome::Failure { request_id: r, error: WORKER_DISCONNECTED.to_owned(), retry_request: r },
                ),
                None => None,
            },
        };
        let result = match result {
            Some(o) => o,
            None => return false,
        };
        let result_id = match &result {
            ExportOutcome::Success { request_id, .. } => *request_id,
            ExportOutcome::Failure { request_id, .. } => *request_id,
            ExportOutcome::Rejected { request_id, .. } => *request_id,
        };
        match self.active_export {
            Some(a) => {
                if a != result_id {
                    return false;
                }
            },
            None => return false,
        }
        self.export = match &result {
            ExportOutcome::Success { .. } => ExportState::Succeeded { request_id: result_id },
            _ => ExportState::Failed { request_id: result_id },
        };
        self.last_export_result = Some(result);
        self.active_export = None;
        true
    }
}

} // verus!
