//! Which toolbar/tray actions are available in which recording state.
use vstd::prelude::*;

use crate::session::engine::transition_outcome;
use crate::session::events::TransitionKind;
use crate::session::model::RecordingStatus;

verus! {

#[derive(Debug, Clone, PartialEq, Eq)]
pub struct Action {
    pub enabled: bool,
    pub label: &'static str,
}

#[derive(Debug, Clone, PartialEq, Eq)]
pub struct ActionPolicy {
    pub start: Action,
    pub pause_resume: Action,
    pub finish: Action,
    pub export: Action,
    pub clear: Action,
    pub edit_profiles: Action,
    pub edit_settings: Action,
}

/// Actions are available only while connected to the engine, not shutting
/// down and with no lifecycle request pending.
pub open spec fn available(pending: bool, connected: bool, shutting_down: bool) -> bool {
    connected && !shutting_down && !pending
}

pub open spec fn recording_or_paused(status: RecordingStatus) -> bool {
    status == RecordingStatus::Recording || status == RecordingStatus::Paused
}

pub open spec fn stopped_or_finished(status: RecordingStatus) -> bool {
    status == RecordingStatus::Stopped || status == RecordingStatus::Finished
}

/// The label of the pause/resume action.
pub open spec fn pause_resume_label(status: RecordingStatus, pending: bool) -> Seq<char> {
    if pending {
        if status == RecordingStatus::Paused {
            "Resuming…"@
        } else {
            "Pausing…"@
        }
    } else if status == RecordingStatus::Paused {
        "Resume"@
    } else {
        "Pause"@
    }
}

/// The action table for the given recording state.
pub fn action_policy(
    status: RecordingStatus,
    pending: bool,
    export_busy: bool,
    retained_canvas: bool,
    connected: bool,
    shutting_down: bool,
) -> (p: ActionPolicy)
    ensures
        p.start.enabled == (available(pending, connected, shutting_down) && status
            == RecordingStatus::Stopped),
        p.start.label@ == (if pending { "Starting…"@ } else { "Start"@ }),
        p.pause_resume.enabled == (available(pending, connected, shutting_down)
            && recording_or_paused(status)),
        p.pause_resume.label@ == pause_resume_label(status, pending),
        p.finish.enabled == (available(pending, connected, shutting_down) && recording_or_paused(
            status,
        )),
        p.finish.label@ == (if pending { "Finishing…"@ } else { "Finish"@ }),
        p.export.enabled == (available(pending, connected, shutting_down) && retained_canvas
            && !export_busy),
        p.export.label@ == "Export PNG"@,
        p.clear.enabled == (available(pending, connected, shutting_down) && stopped_or_finished(
            status,
        ) && retained_canvas),
        p.clear.label@ == (if pending { "Clearing…"@ } else { "Clear"@ }),
        p.edit_profiles.enabled == (available(pending, connected, shutting_down)
            && stopped_or_finished(status)),
        p.edit_profiles.label@ == "Profiles"@,
        p.edit_settings.enabled == available(pending, connected, shutting_down),
        p.edit_settings.label@ == "Settings"@,
{
    let available = connected && !shutting_down && !pending;
    let recording_or_paused = status == RecordingStatus::Recording || status
        == RecordingStatus::Paused;
    let stopped_or_finished = status == RecordingStatus::Stopped || status
        == RecordingStatus::Finished;
    ActionPolicy {
        start: Action {
            enabled: available && status == RecordingStatus::Stopped,
            label: if pending {
                "Starting…"
            } else {
                "Start"
            },
        },
        pause_resume: Action {
            enabled: available && recording_or_paused,
            label: if pending {
                if status == RecordingStatus::Paused {
                    "Resuming…"
                } else {
                    "Pausing…"
                }
            } else if status == RecordingStatus::Paused {
                "Resume"
            } else {
                "Pause"
            },
        },
        finish: Action {
            enabled: available && recording_or_paused,
            label: if pending {
                "Finishing…"
            } else {
                "Finish"
            },
        },
        export: Action { enabled: available && retained_canvas && !export_busy, label: "Export PNG" },
        clear: Action {
            enabled: available && stopped_or_finished && retained_canvas,
            label: if pending {
                "Clearing…"
            } else {
                "Clear"
            },
        },
        edit_profiles: Action { enabled: available && stopped_or_finished, label: "Profiles" },
        edit_settings: Action { enabled: available, label: "Settings" },
    }
}

/// Every lifecycle action the policy enables is one the engine accepts in that
/// state (when it is not shutting down and the chosen topology is not empty):
/// start from stopped, pause from recording, resume from paused, finish from
/// recording or paused, clear from stopped or finished.
pub proof fn lemma_enabled_actions_are_accepted(
    status: RecordingStatus,
    pending: bool,
    retained_canvas: bool,
    connected: bool,
    shutting_down: bool,
)
    ensures
        available(pending, connected, shutting_down) && status == RecordingStatus::Stopped
            ==> transition_outcome(status, TransitionKind::Start, false, false) is Ok,
        available(pending, connected, shutting_down) && recording_or_paused(status) ==> {
            let kind = if status == RecordingStatus::Paused {
                TransitionKind::Resume
            } else {
                TransitionKind::Pause
            };
            transition_outcome(status, kind, false, false) is Ok
        },
        available(pending, connected, shutting_down) && recording_or_paused(status)
            ==> transition_outcome(status, TransitionKind::Finish, false, false) is Ok,
        available(pending, connected, shutting_down) && stopped_or_finished(status)
            && retained_canvas ==> transition_outcome(status, TransitionKind::Clear, false, false) is Ok,
{
}

/// A pending lifecycle request disables every action, so nothing can be
/// submitted twice or exported while a transition is in flight.
pub proof fn lemma_pending_disables_everything(
    status: RecordingStatus,
    export_busy: bool,
    retained_canvas: bool,
    connected: bool,
    shutting_down: bool,
)
    ensures
        !available(true, connected, shutting_down),
{
}

} // verus!
