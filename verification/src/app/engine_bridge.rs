//! How the window takes in what the engine sends: which published frames it
//! accepts, which acknowledgment completes the request it waits on, and when
//! it gives up waiting.
use vstd::prelude::*;

use crate::app::state::PendingTransition;
use crate::canvas::preview_state::{
    apply_outcome, reset_to_generation, FrameModel, PreviewApplyError, PreviewFrame, PreviewModel, PreviewState,
};
use crate::session::engine::SubmitError;
use crate::session::events::{
    FullStateRequestId, TransitionAcknowledgment, TransitionKind, TransitionRejection, TransitionResult,
};
use crate::session::model::RecordingStatus;

verus! {

/// How long the window waits for an acknowledgment, in nanoseconds.
pub const TRANSITION_TIMEOUT: u64 = 2_000_000_000;

/// What the window tells the user when a command cannot be handed over.
pub fn submission_message(e: SubmitError) -> (m: &'static str)
    ensures
        m@ == match e {
            SubmitError::QueueFull => "Recording engine is busy; please retry."@,
            SubmitError::Disconnected => "Recording engine disconnected; preview preserved."@,
            SubmitError::ShuttingDown => "Recording engine is shutting down."@,
        },
{
    match e {
        SubmitError::QueueFull => "Recording engine is busy; please retry.",
        SubmitError::Disconnected => "Recording engine disconnected; preview preserved.",
        SubmitError::ShuttingDown => "Recording engine is shutting down.",
    }
}

/// Whether the request the window waits on has waited too long; times are
/// monotonic nanoseconds, and a clock reading before the submission counts
/// as no time passed.
pub fn transition_timed_out(pending: Option<PendingTransition>, now: u64) -> (r: bool)
    ensures
        r == (pending matches Some(p) && now >= p.submitted_at && now - p.submitted_at >= TRANSITION_TIMEOUT),
{
    match pending {
        Some(p) => now.saturating_sub(p.submitted_at) >= TRANSITION_TIMEOUT,
        None => false,
    }
}

/// What an acknowledgment does to the request the window waits on.
#[derive(Debug, Clone, PartialEq, Eq, Structural)]
pub enum AckOutcome {
    /// It answers another request; nothing changes.
    Ignored,
    /// It answers the waiting request: the engine's status, the reason it
    /// refused, if it did, and whether a start waits on the clear it
    /// acknowledged.
    Completed { status: RecordingStatus, refusal: Option<TransitionRejection>, start_next: bool },
}

/// The outcome of an acknowledgment for the waiting request `pending`.
pub open spec fn ack_outcome(
    pending: Option<PendingTransition>,
    ack: TransitionAcknowledgment,
    start_after_clear: bool,
) -> AckOutcome {
    if pending matches Some(p) && p.request_id == ack.request_id && p.kind == ack.kind {
        match ack.result {
            TransitionResult::Success => AckOutcome::Completed {
                status: ack.status,
                refusal: None,
                start_next: ack.kind == TransitionKind::Clear && start_after_clear,
            },
            TransitionResult::Rejected(reason) => AckOutcome::Completed {
                status: ack.status,
                refusal: Some(reason),
                start_next: false,
            },
        }
    } else {
        AckOutcome::Ignored
    }
}

/// Matches an acknowledgment against the waiting request.
pub fn reconcile_acknowledgment(
    pending: Option<PendingTransition>,
    ack: &TransitionAcknowledgment,
    start_after_clear: bool,
) -> (r: AckOutcome)
    ensures
        r == ack_outcome(pending, *ack, start_after_clear),
{
    let correlated = match pending {
        Some(p) => p.request_id == ack.request_id && p.kind == ack.kind,
        None => false,
    };
    if !correlated {
        return AckOutcome::Ignored;
    }
    match &ack.result {
        TransitionResult::Success => AckOutcome::Completed {
            status: ack.status,
            refusal: None,
            start_next: ack.kind == TransitionKind::Clear && start_after_clear,
        },
        TransitionResult::Rejected(reason) => {
            let refusal = match reason {
                TransitionRejection::WrongCurrentState { current } => TransitionRejection::WrongCurrentState {
                    current: *current,
                },
                TransitionRejection::ShutdownInProgress => TransitionRejection::ShutdownInProgress,
                TransitionRejection::EmptyEffectiveTopology => TransitionRejection::EmptyEffectiveTopology,
                TransitionRejection::OperationInProgress => TransitionRejection::OperationInProgress,
            };
            AckOutcome::Completed { status: ack.status, refusal: Some(refusal), start_next: false }
        },
    }
}

/// Whether a frame is the authoritative answer to the full-state request the
/// window is waiting for.
pub fn is_authoritative(
    waiting_for: Option<FullStateRequestId>,
    answers: Option<FullStateRequestId>,
    full_tile_snapshot: bool,
) -> (r: bool)
    ensures
        r == (waiting_for is Some && waiting_for == answers && full_tile_snapshot),
{
    match (waiting_for, answers) {
        (Some(w), Some(a)) => w == a && full_tile_snapshot,
        _ => false,
    }
}

/// The generation and the latest sequence the window has accepted.
#[derive(Debug, Clone, Copy, PartialEq, Eq, Structural)]
pub struct BridgeSync {
    pub generation: u64,
    pub accepted_sequence: u64,
}

/// What became of a frame.
#[derive(Debug, Clone, Copy, PartialEq, Eq, Structural)]
pub enum FrameAdmission {
    /// Older than what was accepted; dropped unseen.
    Stale,
    /// Refused by the preview; the window asks for a fresh snapshot.
    Refused(PreviewApplyError),
    /// Shown.
    Applied,
}

/// The preview after a newer generation is announced.
pub open spec fn announced(p: PreviewModel, g: u64) -> PreviewModel {
    if g <= p.generation {
        p
    } else {
        reset_to_generation(p, g)
    }
}

/// What taking in frame `f` leaves and returns. A frame older than what was
/// accepted is dropped unless it is the authoritative answer to a full-state
/// request. A newer generation resets the accepted sequence and the preview;
/// an authoritative frame starts the preview over; then the preview applies
/// the frame, and the accepted sequence advances to the frame's.
pub open spec fn frame_admission(s: BridgeSync, p: PreviewModel, f: FrameModel, authoritative: bool) -> (
    BridgeSync,
    PreviewModel,
    FrameAdmission,
) {
    if f.generation < s.generation || (!authoritative && f.generation == s.generation && f.sequence
        < s.accepted_sequence) {
        (s, p, FrameAdmission::Stale)
    } else {
        let s1 = if f.generation > s.generation {
            BridgeSync { generation: f.generation, accepted_sequence: 0 }
        } else {
            s
        };
        let p1 = if f.generation > s.generation {
            announced(p, f.generation)
        } else {
            p
        };
        let p2 = if authoritative {
            reset_to_generation(p1, f.generation)
        } else {
            p1
        };
        let (p3, r) = apply_outcome(p2, f);
        match r {
            Err(e) => (s1, p3, FrameAdmission::Refused(e)),
            Ok(()) => (
                BridgeSync {
                    generation: s1.generation,
                    accepted_sequence: if s1.accepted_sequence >= f.sequence {
                        s1.accepted_sequence
                    } else {
                        f.sequence
                    },
                },
                p3,
                FrameAdmission::Applied,
            ),
        }
    }
}

impl BridgeSync {
    /// Nothing accepted yet.
    pub fn new() -> (s: Self)
        ensures
            s == (BridgeSync { generation: 0, accepted_sequence: 0 }),
    {
        BridgeSync { generation: 0, accepted_sequence: 0 }
    }

    /// Takes in a frame; see [`frame_admission`].
    pub fn reconcile_frame(&mut self, preview: &mut PreviewState, frame: &PreviewFrame, authoritative: bool) -> (r:
        FrameAdmission)
        requires
            old(preview).wf(),
            forall|i: int|
                0 <= i < frame.tile_deltas@.len() && !frame.tile_deltas@[i].removed ==> #[trigger] frame.tile_deltas@[i].width
                    * frame.tile_deltas@[i].height * 4 <= u32::MAX,
            old(preview)@.texture_epoch + frame.tile_deltas@.len() + 4 <= u64::MAX,
        ensures
            final(preview).wf(),
            (*final(self), final(preview)@, r) == frame_admission(*old(self), old(preview)@, frame@, authoritative),
    {
        if frame.generation < self.generation || (!authoritative && frame.generation == self.generation
            && frame.sequence < self.accepted_sequence) {
            return FrameAdmission::Stale;
        }
        if frame.generation > self.generation {
            self.generation = frame.generation;
            self.accepted_sequence = 0;
            preview.invalidate_generation(frame.generation);
        }
        if authoritative {
            preview.prepare_authoritative_full_state(frame.generation);
        }
        match preview.apply_snapshot(frame) {
            Err(e) => FrameAdmission::Refused(e),
            Ok(()) => {
                if self.accepted_sequence < frame.sequence {
                    self.accepted_sequence = frame.sequence;
                }
                FrameAdmission::Applied
            },
        }
    }
}

/// The window never goes back: whatever frame arrives, the accepted
/// generation does not decrease, and within a generation neither does the
/// accepted sequence.
pub proof fn lemma_window_never_goes_back(s: BridgeSync, p: PreviewModel, f: FrameModel, authoritative: bool)
    ensures
        ({
            let s2 = frame_admission(s, p, f, authoritative).0;
            &&& s.generation <= s2.generation
            &&& (s2.generation == s.generation ==> s.accepted_sequence <= s2.accepted_sequence)
        }),
{
}

/// Only the acknowledgment of the request the window waits on completes it.
pub proof fn lemma_only_the_matching_acknowledgment_completes(
    pending: Option<PendingTransition>,
    ack: TransitionAcknowledgment,
    start_after_clear: bool,
)
    ensures
        ack_outcome(pending, ack, start_after_clear) is Completed <==> (pending matches Some(p)
            && p.request_id == ack.request_id && p.kind == ack.kind),
        ack_outcome(pending, ack, start_after_clear) matches AckOutcome::Completed { status, .. }
            ==> status == ack.status,
{
}

} // verus!
