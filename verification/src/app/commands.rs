//! The commands that the window, the tray, IPC and the command line share.
use vstd::prelude::*;

use crate::text::str_eq;

verus! {

#[derive(Debug, Clone, Copy, PartialEq, Eq, Structural)]
pub enum AppCommand {
    Show,
    StartRecording,
    PauseRecording,
    ResumeRecording,
    TogglePauseResume,
    FinishSession,
    ExportCurrentCanvas,
    MinimizeToTray,
    Exit,
    /// Internal tray source marker (not part of the CLI/wire protocol).
    ExitFromTray,
}

impl AppCommand {
    /// The sources that deliver commands.
    pub fn wire_sources() -> (r: &'static [&'static str])
        ensures
            r@.len() == 4,
            r@[0]@ == "ui"@,
            r@[1]@ == "tray"@,
            r@[2]@ == "ipc"@,
            r@[3]@ == "cli"@,
    {
        &["ui", "tray", "ipc", "cli"]
    }
}

#[derive(Debug, Clone, PartialEq, Eq)]
pub enum CliParseError {
    UnknownArgument(String),
    HelpRequested,
}

/// The text printed for `--help`.
pub fn cli_help_text() -> (r: &'static str)
    ensures
        r@ == "MultiMouseCanvas command-line commands:\n--show      Show the application window\n--start     Start recording global mouse position samples\n--pause     Pause recording without collecting mouse samples\n--resume    Resume recording mouse position samples\n--finish    Finish the session and stop recording\n--export    Export the current canvas\n--exit      Exit the running application\n--help      Print this help text\n\nPrivacy: commands control mouse-position recording only; they do not collect clicks, keyboard input, screenshots, window contents, browser URLs, or window titles by default."@,
{
    "MultiMouseCanvas command-line commands:\n--show      Show the application window\n--start     Start recording global mouse position samples\n--pause     Pause recording without collecting mouse samples\n--resume    Resume recording mouse position samples\n--finish    Finish the session and stop recording\n--export    Export the current canvas\n--exit      Exit the running application\n--help      Print this help text\n\nPrivacy: commands control mouse-position recording only; they do not collect clicks, keyboard input, screenshots, window contents, browser URLs, or window titles by default."
}

/// The command a command-line argument names, if any.
pub open spec fn cli_command(arg: Seq<char>) -> Option<AppCommand> {
    if arg == "--start"@ {
        Some(AppCommand::StartRecording)
    } else if arg == "--show"@ {
        Some(AppCommand::Show)
    } else if arg == "--pause"@ {
        Some(AppCommand::PauseRecording)
    } else if arg == "--resume"@ {
        Some(AppCommand::ResumeRecording)
    } else if arg == "--finish"@ {
        Some(AppCommand::FinishSession)
    } else if arg == "--export"@ {
        Some(AppCommand::ExportCurrentCanvas)
    } else if arg == "--exit"@ {
        Some(AppCommand::Exit)
    } else {
        None
    }
}

/// Whether an argument asks for help.
pub open spec fn is_help_argument(arg: Seq<char>) -> bool {
    arg == "--help"@ || arg == "-h"@
}

fn parse_cli_arg(arg: &str) -> (r: Result<AppCommand, CliParseError>)
    ensures
        r matches Ok(c) ==> cli_command(arg@) == Some(c),
        r is Err <==> cli_command(arg@) is None,
        r matches Err(e) ==> (e is HelpRequested <==> is_help_argument(arg@)),
        r matches Err(CliParseError::UnknownArgument(s)) ==> s@ == arg@,
{
    if str_eq(arg, "--start") {
        Ok(AppCommand::StartRecording)
    } else if str_eq(arg, "--show") {
        Ok(AppCommand::Show)
    } else if str_eq(arg, "--pause") {
        Ok(AppCommand::PauseRecording)
    } else if str_eq(arg, "--resume") {
        Ok(AppCommand::ResumeRecording)
    } else if str_eq(arg, "--finish") {
        Ok(AppCommand::FinishSession)
    } else if str_eq(arg, "--export") {
        Ok(AppCommand::ExportCurrentCanvas)
    } else if str_eq(arg, "--exit") {
        Ok(AppCommand::Exit)
    } else if str_eq(arg, "--help") || str_eq(arg, "-h") {
        proof {
            reveal_strlit("--help");
            reveal_strlit("-h");
            reveal_strlit("--start");
            reveal_strlit("--show");
            reveal_strlit("--pause");
            reveal_strlit("--resume");
            reveal_strlit("--finish");
            reveal_strlit("--export");
            reveal_strlit("--exit");
        }
        Err(CliParseError::HelpRequested)
    } else {
        Err(CliParseError::UnknownArgument(arg.to_owned()))
    }
}

/// Parses the command-line arguments (the program name excluded). The first
/// argument that names no command decides the error: a help request, or the
/// unknown argument itself.
pub fn parse_cli_args(args: &[&str]) -> (r: Result<Vec<AppCommand>, CliParseError>)
    ensures
        r is Ok <==> forall|i: int| 0 <= i < args@.len() ==> #[trigger] cli_command(args@[i]@) is Some,
        r matches Ok(v) ==> v@.len() == args@.len() && forall|i: int|
            0 <= i < args@.len() ==> cli_command(args@[i]@) == Some(#[trigger] v@[i]),
        r matches Err(e) ==> exists|i: int|
            0 <= i < args@.len() && cli_command(#[trigger] args@[i]@) is None && (forall|j: int|
                0 <= j < i ==> #[trigger] cli_command(args@[j]@) is Some) && (e is HelpRequested
                <==> is_help_argument(args@[i]@)) && (e matches CliParseError::UnknownArgument(s)
                ==> s@ == args@[i]@),
{
    let mut out: Vec<AppCommand> = Vec::new();
    let mut i: usize = 0;
    while i < args.len()
        invariant
            i <= args@.len(),
            out@.len() == i,
            forall|j: int| 0 <= j < i ==> cli_command(args@[j]@) == Some(#[trigger] out@[j]),
        decreases args@.len() - i,
    {
        match parse_cli_arg(args[i]) {
            Ok(c) => out.push(c),
            Err(e) => {
                assert(forall|j: int| 0 <= j < i ==> #[trigger] cli_command(args@[j]@) is Some) by {
                    assert forall|j: int| 0 <= j < i implies #[trigger] cli_command(args@[j]@) is Some by {
                        assert(cli_command(args@[j]@) == Some(out@[j]));
                    }
                }
                assert(cli_command(args@[i as int]@) is None);
                return Err(e);
            },
        }
        i = i + 1;
    }
    assert forall|j: int| 0 <= j < args@.len() implies #[trigger] cli_command(args@[j]@) is Some by {
        assert(cli_command(args@[j]@) == Some(out@[j]));
    }
    Ok(out)
}

/// The commands a second instance hands on to the running one: those it was
/// given, or, when it was given none, a request to show the window.
pub fn commands_to_forward(commands: &[AppCommand]) -> (r: Vec<AppCommand>)
    ensures
        r@ == if commands@.len() == 0 {
            seq![AppCommand::Show]
        } else {
            commands@
        },
{
    let mut r: Vec<AppCommand> = Vec::new();
    if commands.len() == 0 {
        r.push(AppCommand::Show);
        return r;
    }
    let mut i: usize = 0;
    while i < commands.len()
        invariant
            i <= commands@.len(),
            r@ == commands@.take(i as int),
        decreases commands@.len() - i,
    {
        r.push(commands[i]);
        i = i + 1;
        assert(r@ =~= commands@.take(i as int));
    }
    assert(commands@.take(i as int) =~= commands@);
    r
}

#[derive(Debug, Clone, Copy, PartialEq, Eq, Structural)]
pub enum NewSessionOutcome {
    ClearPreviousCanvas,
    PreserveForExport,
    Cancel,
}

} // verus!
