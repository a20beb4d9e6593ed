//! Single-instance forwarding: the wire format of commands and the decision
//! a second instance makes.
use vstd::prelude::*;

use crate::app::commands::AppCommand;
use crate::text::{chars_of, push_str, str_eq, string_of, trim, trim_chars, TrimSet};

verus! {

pub const IPC_ADDR: &'static str = "127.0.0.1:47839";

#[derive(Debug, Clone, Copy, PartialEq, Eq, Structural)]
pub enum InstanceDecision {
    Primary,
    Forwarded,
    RejectedDuplicate,
}

/// A call a starting instance made on its transport, with the answer it got.
#[derive(Debug, Clone, Copy, PartialEq, Eq)]
pub enum TransportCall {
    /// A try to claim the primary role, and whether it succeeded.
    Claim(bool),
    /// A command handed to the primary instance, and whether it arrived.
    Forward(AppCommand, bool),
}

/// How an instance claims the primary role and forwards commands to the
/// primary instance.
pub trait CommandTransport {
    fn claim_primary(&mut self) -> bool;
    fn forward(&mut self, command: AppCommand) -> bool;
}

/// A transport together with the record of the calls made through it and
/// the answers they got.
pub struct RecordedTransport<T: CommandTransport> {
    pub transport: T,
    calls: Ghost<Seq<TransportCall>>,
}

impl<T: CommandTransport> RecordedTransport<T> {
    /// The calls made so far, in order, with their answers.
    pub closed spec fn calls(&self) -> Seq<TransportCall> {
        self.calls@
    }

    /// The transport, with no calls recorded yet.
    pub fn new(transport: T) -> (r: Self)
        ensures
            r.calls().len() == 0,
    {
        RecordedTransport { transport, calls: Ghost(Seq::empty()) }
    }

    /// Tries to claim the primary role, and records the try.
    pub fn claim_primary(&mut self) -> (claimed: bool)
        ensures
            final(self).calls() == old(self).calls().push(TransportCall::Claim(claimed)),
    {
        let claimed = self.transport.claim_primary();
        proof {
            self.calls@ = self.calls@.push(TransportCall::Claim(claimed));
        }
        claimed
    }

    /// Hands a command to the primary instance, and records the call.
    pub fn forward(&mut self, command: AppCommand) -> (arrived: bool)
        ensures
            final(self).calls() == old(self).calls().push(TransportCall::Forward(command, arrived)),
    {
        let arrived = self.transport.forward(command);
        proof {
            self.calls@ = self.calls@.push(TransportCall::Forward(command, arrived));
        }
        arrived
    }
}

/// The forwarding calls for the first `delivered` commands, each answered
/// with success, followed, when `failed`, by the call for the next command,
/// answered with failure.
pub open spec fn forwarding_calls(commands: Seq<AppCommand>, delivered: nat, failed: bool) -> Seq<TransportCall> {
    Seq::new(delivered, |j: int| TransportCall::Forward(commands[j], true)) + if failed {
        seq![TransportCall::Forward(commands[delivered as int], false)]
    } else {
        Seq::empty()
    }
}

/// What a starting instance does, given whether it claimed the primary role,
/// how many commands it has, and how many of them, in order, reached the
/// primary instance: it is primary when it claimed the role; it forwarded
/// when it had commands and all of them went through; else it is a rejected
/// duplicate.
pub open spec fn instance_outcome(claimed: bool, count: nat, delivered: nat) -> InstanceDecision {
    if claimed {
        InstanceDecision::Primary
    } else if count > 0 && delivered == count {
        InstanceDecision::Forwarded
    } else {
        InstanceDecision::RejectedDuplicate
    }
}

/// The decision for the given transport results.
pub fn instance_decision(claimed: bool, count: usize, delivered: usize) -> (r: InstanceDecision)
    ensures
        r == instance_outcome(claimed, count as nat, delivered as nat),
{
    if claimed {
        InstanceDecision::Primary
    } else if count > 0 && delivered == count {
        InstanceDecision::Forwarded
    } else {
        InstanceDecision::RejectedDuplicate
    }
}

/// Decides what a starting instance does: it first tries to claim the
/// primary role and is primary when it can, forwarding nothing; otherwise it
/// forwards its commands in order and stops at the first that does not
/// arrive. It forwarded when it had commands and all of them arrived; else it
/// is a rejected duplicate. What the transport answers depends on the other
/// instance; whatever it answers, the calls made and the decision are these.
pub fn decide_instance<T: CommandTransport>(transport: &mut RecordedTransport<T>, commands: &[AppCommand]) -> (r:
    InstanceDecision)
    ensures
        ({
            let made = final(transport).calls().skip(old(transport).calls().len() as int);
            &&& final(transport).calls().take(old(transport).calls().len() as int) == old(transport).calls()
            &&& made.len() >= 1
            &&& made[0] is Claim
            &&& (made[0] == TransportCall::Claim(true) ==> made.len() == 1 && r == InstanceDecision::Primary)
            &&& (made[0] == TransportCall::Claim(false) ==> exists|delivered: nat, failed: bool|
                {
                    &&& if failed { delivered < commands@.len() } else { delivered == commands@.len() }
                    &&& made.drop_first() == forwarding_calls(commands@, delivered, failed)
                    &&& r == instance_outcome(false, commands@.len(), delivered)
                })
        }),
{
    let ghost start = transport.calls();
    if transport.claim_primary() {
        let r = instance_decision(true, commands.len(), 0);
        proof {
            let made = transport.calls().skip(start.len() as int);
            assert(made =~= seq![TransportCall::Claim(true)]);
            assert(transport.calls().take(start.len() as int) =~= start);
        }
        return r;
    }
    let ghost after_claim = transport.calls();
    let mut delivered: usize = 0;
    let mut failed = false;
    if commands.len() > 0 {
        while delivered < commands.len()
            invariant_except_break
                delivered <= commands@.len(),
                !failed,
                transport.calls() == after_claim + forwarding_calls(commands@, delivered as nat, false),
            ensures
                delivered <= commands@.len(),
                failed ==> delivered < commands@.len(),
                !failed ==> delivered == commands@.len(),
                transport.calls() == after_claim + forwarding_calls(commands@, delivered as nat, failed),
            decreases commands@.len() - delivered,
        {
            let ghost before = transport.calls();
            let ok = transport.forward(commands[delivered]);
            if !ok {
                failed = true;
                proof {
                    assert(forwarding_calls(commands@, delivered as nat, true) =~= forwarding_calls(
                        commands@,
                        delivered as nat,
                        false,
                    ).push(TransportCall::Forward(commands@[delivered as int], false)));
                }
                break;
            }
            proof {
                assert(forwarding_calls(commands@, (delivered + 1) as nat, false) =~= forwarding_calls(
                    commands@,
                    delivered as nat,
                    false,
                ).push(TransportCall::Forward(commands@[delivered as int], true)));
            }
            delivered = delivered + 1;
        }
    } else {
        proof {
            assert(forwarding_calls(commands@, 0, false) =~= Seq::<TransportCall>::empty());
            assert(transport.calls() =~= after_claim + forwarding_calls(commands@, 0, false));
        }
    }
    let r = instance_decision(false, commands.len(), delivered);
    proof {
        let made = transport.calls().skip(start.len() as int);
        assert(after_claim == start.push(TransportCall::Claim(false)));
        assert(made.drop_first() =~= forwarding_calls(commands@, delivered as nat, failed));
        assert(made[0] == TransportCall::Claim(false));
        assert(transport.calls().take(start.len() as int) =~= start);
    }
    r
}

/// The word that names a command on the wire; the internal tray and window
/// commands have none.
pub open spec fn wire_word(c: AppCommand) -> Option<Seq<char>> {
    match c {
        AppCommand::Show => Some("show"@),
        AppCommand::StartRecording => Some("start"@),
        AppCommand::PauseRecording => Some("pause"@),
        AppCommand::ResumeRecording => Some("resume"@),
        AppCommand::TogglePauseResume => Some("toggle_pause_resume"@),
        AppCommand::FinishSession => Some("finish"@),
        AppCommand::ExportCurrentCanvas => Some("export"@),
        AppCommand::Exit => Some("exit"@),
        AppCommand::MinimizeToTray => None,
        AppCommand::ExitFromTray => None,
    }
}

/// The command a wire word names.
pub open spec fn wire_command(s: Seq<char>) -> Option<AppCommand> {
    if s == "show"@ {
        Some(AppCommand::Show)
    } else if s == "start"@ {
        Some(AppCommand::StartRecording)
    } else if s == "pause"@ {
        Some(AppCommand::PauseRecording)
    } else if s == "resume"@ {
        Some(AppCommand::ResumeRecording)
    } else if s == "toggle_pause_resume"@ {
        Some(AppCommand::TogglePauseResume)
    } else if s == "finish"@ {
        Some(AppCommand::FinishSession)
    } else if s == "export"@ {
        Some(AppCommand::ExportCurrentCanvas)
    } else if s == "exit"@ {
        Some(AppCommand::Exit)
    } else {
        None
    }
}

pub fn format_wire_command(command: AppCommand) -> (r: Option<&'static str>)
    ensures
        match wire_word(command) {
            Some(w) => r matches Some(s) && s@ == w,
            None => r is None,
        },
{
    match command {
        AppCommand::Show => Some("show"),
        AppCommand::StartRecording => Some("start"),
        AppCommand::PauseRecording => Some("pause"),
        AppCommand::ResumeRecording => Some("resume"),
        AppCommand::TogglePauseResume => Some("toggle_pause_resume"),
        AppCommand::FinishSession => Some("finish"),
        AppCommand::ExportCurrentCanvas => Some("export"),
        AppCommand::Exit => Some("exit"),
        AppCommand::MinimizeToTray => None,
        AppCommand::ExitFromTray => None,
    }
}

pub fn parse_wire_command(s: &str) -> (r: Option<AppCommand>)
    ensures
        r == wire_command(s@),
{
    if str_eq(s, "show") {
        Some(AppCommand::Show)
    } else if str_eq(s, "start") {
        Some(AppCommand::StartRecording)
    } else if str_eq(s, "pause") {
        Some(AppCommand::PauseRecording)
    } else if str_eq(s, "resume") {
        Some(AppCommand::ResumeRecording)
    } else if str_eq(s, "toggle_pause_resume") {
        Some(AppCommand::TogglePauseResume)
    } else if str_eq(s, "finish") {
        Some(AppCommand::FinishSession)
    } else if str_eq(s, "export") {
        Some(AppCommand::ExportCurrentCanvas)
    } else if str_eq(s, "exit") {
        Some(AppCommand::Exit)
    } else {
        None
    }
}

/// The message a forwarding instance writes: the command's word and a newline.
pub fn wire_message(command: AppCommand) -> (r: Option<String>)
    ensures
        match wire_word(command) {
            Some(w) => r matches Some(m) && m@ == w + "\n"@,
            None => r is None,
        },
{
    match format_wire_command(command) {
        Some(w) => {
            let mut out: Vec<char> = Vec::new();
            push_str(&mut out, w);
            push_str(&mut out, "\n");
            Some(string_of(out.as_slice()))
        },
        None => None,
    }
}

/// The command a received message names, surrounding white space ignored.
pub fn read_wire_message(text: &str) -> (r: Option<AppCommand>)
    ensures
        r == wire_command(trim(text@, TrimSet::Whitespace)),
{
    let cs = chars_of(text);
    let t = trim_chars(cs.as_slice(), TrimSet::Whitespace);
    let s = string_of(t.as_slice());
    parse_wire_command(s.as_str())
}

/// A command forwarded over the wire arrives as itself: reading the message
/// written for a command gives that command back, and every word read names
/// the command it was written for.
pub proof fn lemma_wire_round_trip(c: AppCommand, s: Seq<char>)
    ensures
        wire_word(c) matches Some(w) ==> wire_command(trim(w + "\n"@, TrimSet::Whitespace)) == Some(c),
        wire_command(s) matches Some(d) ==> wire_word(d) == Some(s),
{
    reveal_strlit("show");
    reveal_strlit("start");
    reveal_strlit("pause");
    reveal_strlit("resume");
    reveal_strlit("toggle_pause_resume");
    reveal_strlit("finish");
    reveal_strlit("export");
    reveal_strlit("exit");
    reveal_strlit("\n");
    if let Some(w) = wire_word(c) {
        let m = w + "\n"@;
        crate::text::lemma_trim_newline(w);
    }
}

} // verus!
