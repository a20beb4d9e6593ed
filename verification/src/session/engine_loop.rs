//! The order in which the engine's loop does its work in each round: look at
//! the running export, take every high-priority command, take one normal
//! command, then take up to a batch of samples (high-priority commands still
//! first before each), publish and rest. The loop itself, with its channels
//! and sleep, belongs to the program; this decides what it does next.
use vstd::prelude::*;

use crate::session::engine::CommandEffect;

verus! {

/// How many samples the engine takes in one round.
pub const SAMPLE_BATCH: u64 = 32;

/// Where the loop stands within a round.
#[derive(Debug, Clone, Copy, PartialEq, Eq, Structural)]
pub enum LoopPhase {
    /// Looking at the running export.
    Export,
    /// Taking high-priority commands before the normal one.
    HighFirst,
    /// Taking one normal command.
    Normal,
    /// Taking samples, `handled` so far this round; until `high_done`,
    /// high-priority commands are taken first.
    Samples { handled: u64, high_done: bool },
    /// Publishing the round and resting.
    Publish,
    /// The engine has stopped.
    Stopped,
}

/// What the loop does next.
#[derive(Debug, Clone, Copy, PartialEq, Eq, Structural)]
pub enum LoopAction {
    /// Look at the export: start writing a prepared one, or take a result.
    PollExport,
    /// Take the next high-priority command, if any, and apply it.
    TakeHigh,
    /// Take the next normal command, if any, and apply it.
    TakeNormal,
    /// Take the next sample, if any.
    TakeSample,
    /// Publish what changed, then rest before the next round.
    PublishRound,
    /// Stop the engine.
    Stop,
}

/// What the last action found.
#[derive(Debug, Clone, Copy, PartialEq, Eq, Structural)]
pub enum LoopEvent {
    /// The export was looked at; whether anything changed.
    ExportPolled { changed: bool },
    /// A command was taken and applied, with this effect.
    Command(CommandEffect),
    /// No command was waiting.
    NoCommand,
    /// A sample was taken.
    Sample,
    /// No sample was waiting.
    NoSample,
    /// The round was published and the rest is over.
    Published,
}

/// What the loop does after an event: whether to publish at once, and the
/// next action.
#[derive(Debug, Clone, Copy, PartialEq, Eq, Structural)]
pub struct LoopStep {
    pub publish_now: bool,
    pub next: LoopAction,
}

/// The action that a phase asks for.
pub open spec fn action_of(p: LoopPhase) -> LoopAction {
    match p {
        LoopPhase::Export => LoopAction::PollExport,
        LoopPhase::HighFirst => LoopAction::TakeHigh,
        LoopPhase::Normal => LoopAction::TakeNormal,
        LoopPhase::Samples { handled, high_done } => if high_done {
            LoopAction::TakeSample
        } else {
            LoopAction::TakeHigh
        },
        LoopPhase::Publish => LoopAction::PublishRound,
        LoopPhase::Stopped => LoopAction::Stop,
    }
}

/// The phase after a command was applied in a phase that takes commands: a
/// command that ends the engine stops it; otherwise `then`.
pub open spec fn after_command(e: CommandEffect, then: LoopPhase) -> LoopPhase {
    if e == CommandEffect::TerminateAfterPublish {
        LoopPhase::Stopped
    } else {
        then
    }
}

/// The sample phase at the start of a batch, or the publish phase once the
/// batch is full.
pub open spec fn samples_from(handled: u64) -> LoopPhase {
    if handled < SAMPLE_BATCH {
        LoopPhase::Samples { handled, high_done: false }
    } else {
        LoopPhase::Publish
    }
}

/// The phase after event `e` in phase `p`, and whether to publish at once.
/// An event that the phase's action cannot bring changes nothing.
pub open spec fn loop_transition(p: LoopPhase, e: LoopEvent) -> (LoopPhase, bool) {
    match (p, e) {
        (LoopPhase::Stopped, _) => (LoopPhase::Stopped, false),
        (LoopPhase::Export, LoopEvent::ExportPolled { changed }) => (LoopPhase::HighFirst, changed),
        (LoopPhase::HighFirst, LoopEvent::Command(c)) => (after_command(c, LoopPhase::HighFirst), c != CommandEffect::Continue),
        (LoopPhase::HighFirst, LoopEvent::NoCommand) => (LoopPhase::Normal, false),
        (LoopPhase::Normal, LoopEvent::Command(c)) => (after_command(c, samples_from(0)), c != CommandEffect::Continue),
        (LoopPhase::Normal, LoopEvent::NoCommand) => (samples_from(0), false),
        (LoopPhase::Samples { handled, high_done: false }, LoopEvent::Command(c)) => (
            after_command(c, LoopPhase::Samples { handled, high_done: false }),
            c != CommandEffect::Continue,
        ),
        (LoopPhase::Samples { handled, high_done: false }, LoopEvent::NoCommand) => (
            LoopPhase::Samples { handled, high_done: true },
            false,
        ),
        (LoopPhase::Samples { handled, high_done: true }, LoopEvent::Sample) => (samples_from((handled + 1) as u64), false),
        (LoopPhase::Samples { handled, high_done: true }, LoopEvent::NoSample) => (LoopPhase::Publish, false),
        (LoopPhase::Publish, LoopEvent::Published) => (LoopPhase::Export, false),
        _ => (p, false),
    }
}

/// The engine's loop: where it stands in the current round.
pub struct EngineLoop {
    pub phase: LoopPhase,
}

impl EngineLoop {
    /// Whether the phase can occur: a round never holds more than a batch of
    /// samples.
    pub open spec fn wf(&self) -> bool {
        self.phase matches LoopPhase::Samples { handled, .. } ==> handled < SAMPLE_BATCH
    }

    /// A loop about to start its first round.
    pub fn new() -> (l: Self)
        ensures
            l.phase == LoopPhase::Export,
            l.wf(),
    {
        EngineLoop { phase: LoopPhase::Export }
    }

    /// The action the loop is about to do.
    pub fn action(&self) -> (a: LoopAction)
        ensures
            a == action_of(self.phase),
    {
        match self.phase {
            LoopPhase::Export => LoopAction::PollExport,
            LoopPhase::HighFirst => LoopAction::TakeHigh,
            LoopPhase::Normal => LoopAction::TakeNormal,
            LoopPhase::Samples { handled: _, high_done } => if high_done {
                LoopAction::TakeSample
            } else {
                LoopAction::TakeHigh
            },
            LoopPhase::Publish => LoopAction::PublishRound,
            LoopPhase::Stopped => LoopAction::Stop,
        }
    }

    /// Takes in what the last action found and says what to do next.
    pub fn step(&mut self, e: LoopEvent) -> (s: LoopStep)
        requires
            old(self).wf(),
        ensures
            final(self).wf(),
            (final(self).phase, s.publish_now) == loop_transition(old(self).phase, e),
            s.next == action_of(final(self).phase),
    {
        let stop_or = |c: CommandEffect, then: LoopPhase| -> (p: LoopPhase)
            ensures
                p == after_command(c, then),
            {
                if c == CommandEffect::TerminateAfterPublish {
                    LoopPhase::Stopped
                } else {
                    then
                }
            };
        let (phase, publish_now) = match (self.phase, e) {
            (LoopPhase::Stopped, _) => (LoopPhase::Stopped, false),
            (LoopPhase::Export, LoopEvent::ExportPolled { changed }) => (LoopPhase::HighFirst, changed),
            (LoopPhase::HighFirst, LoopEvent::Command(c)) => (
                stop_or(c, LoopPhase::HighFirst),
                c != CommandEffect::Continue,
            ),
            (LoopPhase::HighFirst, LoopEvent::NoCommand) => (LoopPhase::Normal, false),
            (LoopPhase::Normal, LoopEvent::Command(c)) => (
                stop_or(c, LoopPhase::Samples { handled: 0, high_done: false }),
                c != CommandEffect::Continue,
            ),
            (LoopPhase::Normal, LoopEvent::NoCommand) => (LoopPhase::Samples { handled: 0, high_done: false }, false),
            (LoopPhase::Samples { handled, high_done: false }, LoopEvent::Command(c)) => (
                stop_or(c, LoopPhase::Samples { handled, high_done: false }),
                c != CommandEffect::Continue,
            ),
            (LoopPhase::Samples { handled, high_done: false }, LoopEvent::NoCommand) => (
                LoopPhase::Samples { handled, high_done: true },
                false,
            ),
            (LoopPhase::Samples { handled, high_done: true }, LoopEvent::Sample) => {
                let next = handled + 1;
                if next < SAMPLE_BATCH {
                    (LoopPhase::Samples { handled: next, high_done: false }, false)
                } else {
                    (LoopPhase::Publish, false)
                }
            },
            (LoopPhase::Samples { handled: _, high_done: true }, LoopEvent::NoSample) => (LoopPhase::Publish, false),
            (LoopPhase::Publish, LoopEvent::Published) => (LoopPhase::Export, false),
            (p, _) => (p, false),
        };
        self.phase = phase;
        LoopStep { publish_now, next: self.action() }
    }
}

/// The loop stops only on a command that ends the engine, and publishes
/// before it stops; once stopped it stays stopped and publishes nothing more.
pub proof fn lemma_loop_stops_only_after_publishing(p: LoopPhase, e: LoopEvent)
    ensures
        p != LoopPhase::Stopped && loop_transition(p, e).0 == LoopPhase::Stopped ==> e == LoopEvent::Command(
            CommandEffect::TerminateAfterPublish,
        ) && loop_transition(p, e).1,
        p == LoopPhase::Stopped ==> loop_transition(p, e) == (LoopPhase::Stopped, false),
{
}

} // verus!
