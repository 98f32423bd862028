//! What the command line decides before anything is read or written.

use vstd::prelude::*;
use crate::device::Info;
use crate::interactive::{handle_tui, Action, SessionState};

pub mod args;

verus! {

/// What is left to do once the command line was handled.
#[derive(Debug, PartialEq, Eq)]
pub enum CliAction {
    /// All work is done.
    Quit,
    /// An interactive session: on the device given, or on a list of the
    /// devices to pick from where none was given.
    Interactive(Option<Info>),
}

/// What the command line asks for.
#[derive(Debug, Clone, Copy, PartialEq, Eq, Structural)]
pub enum Mode {
    /// Run the subcommand.
    Command,
    /// Start a session on the list of devices.
    SelectDevice,
    /// Start a session on the device given.
    UseDevice,
}

/// How much is logged, the more the later in this list.
#[derive(Debug, Clone, Copy, PartialEq, Eq, Structural)]
pub enum Level {
    Error,
    Warn,
    Info,
    Debug,
    Trace,
}

/// The device name that stands for "no device given".
pub open spec fn auto_device() -> Seq<char> {
    "Auto"@
}

/// What a command line asks for that has a subcommand or not, asks for a
/// session or not, and names `device`. A subcommand wins over a session; a
/// session without a device starts on the list of devices.
pub open spec fn mode_of(has_command: bool, device: Seq<char>) -> Mode {
    if has_command {
        Mode::Command
    } else if device == auto_device() {
        Mode::SelectDevice
    } else {
        Mode::UseDevice
    }
}

/// What the command line asks for. One that has neither a subcommand nor
/// asks for a session does not get past the parsing of the arguments.
pub fn handle_args(has_command: bool, interactive: bool, device: &str) -> (mode: Mode)
    requires
        has_command || interactive,
    ensures
        mode == mode_of(has_command, device@),
{
    if has_command {
        Mode::Command
    } else {
        let given = String::from_str(device);
        let auto = String::from_str("Auto");
        if given == auto {
            Mode::SelectDevice
        } else {
            Mode::UseDevice
        }
    }
}

/// The verbosity that is used: three where nothing is written to the device
/// and no verbosity was asked for, so that a dry run says what it would do.
pub fn verbosity(verbose: u8, dry_run: bool) -> (used: u8)
    ensures
        used == (if dry_run && verbose == 0 {
            3u8
        } else {
            verbose
        }),
{
    if dry_run && verbose == 0 {
        3
    } else {
        verbose
    }
}

/// Whether anything is logged at this verbosity: nothing at zero.
pub fn logs(verbose: u8) -> (enabled: bool)
    ensures
        enabled == (verbose != 0),
{
    verbose != 0
}

/// The level up to which messages are logged at this verbosity.
pub fn max_level(verbose: u8) -> (level: Level)
    ensures
        level == (match verbose {
            1 => Level::Error,
            2 => Level::Warn,
            3 => Level::Info,
            4 => Level::Debug,
            _ => Level::Trace,
        }),
{
    match verbose {
        1 => Level::Error,
        2 => Level::Warn,
        3 => Level::Info,
        4 => Level::Debug,
        _ => Level::Trace,
    }
}

impl CliAction {
    /// The session to run, if one is left to run, and what it asks for
    /// first. `devices` is the list of devices, or why there is none; it is
    /// looked at only where no device was given.
    pub fn session(self, devices: Result<Vec<Info>, String>) -> (start: Option<
        (SessionState, Action),
    >)
        ensures
            self is Quit ==> start is None,
            self matches CliAction::Interactive(info) ==> {
                &&& start matches Some(s)
                &&& s.0@ == crate::interactive::machine::initial(info, devices).0
                &&& s.1@ == crate::interactive::machine::initial(info, devices).1
            },
    {
        match self {
            CliAction::Quit => None,
            CliAction::Interactive(info) => Some(handle_tui(info, devices)),
        }
    }
}

} // verus!
