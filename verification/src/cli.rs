//! The command line shared by the console and windowless binaries: which
//! command the arguments name, what it says, and how it exits.

pub mod probe;
pub mod report;
pub mod setup;
pub mod wording;

use vstd::prelude::*;

use crate::hold::KEEPALIVE_INTERVAL;
use crate::text;
use crate::time::Duration;

verus! {

/// The program's name.
pub const NAME: &'static str = "ezrama";

/// What `help` shows.
pub const USAGE: &'static str = "\
Usage: ezrama <command> [options]

Commands:
  probe      Find the Panorama SE printer interface and open it briefly
  info       Start a session and print the device's state; changes nothing
  activate   Start a session and switch the panel to its stored media once
  run        Start a session and hold it with keepalive pings until Ctrl+C
  watch      Hold a session whenever the panel is present, with a tray icon
  pause      Ask the running watcher to release the panel and wait for it
  resume     Ask the running watcher to take the panel back
  kanali     Ask the running watcher to release the panel, start KANALI, and
             take the panel back once KANALI exits
  stop       Ask the running watcher to exit
  install    Copy the binaries to local app data, add the logon, Start
             Menu, and Settings entries, and start the watcher
  uninstall  Stop the watcher and remove everything install added
  status     Report the installation, the watcher, and the panel
  help       Show this message
  version    Print the version

Options:
  -v, --verbose        Extra detail: interfaces and exclusivity for probe,
                       one line per ping for run and watch
  --io                 With probe: arm one read, cancel it, and reap it
  --interval <secs>    With run and watch: seconds between pings (default 4.5)
";

/// Exit code of a command that did what it was asked.
pub const EXIT_SUCCESS: u8 = 0;

/// Exit code of a command that failed.
pub const EXIT_FAILURE: u8 = 1;

/// Exit code when the arguments make no sense.
pub const EXIT_USAGE: u8 = 2;

/// Exit code when more than one display is present.
pub const EXIT_SEVERAL: u8 = 3;

/// Exit code when another program holds the device.
pub const EXIT_BUSY: u8 = 4;

/// Exit code when `watch` finds a watcher already running.
pub const EXIT_ALREADY_RUNNING: u8 = 5;

/// How long `pause` waits for the watcher to confirm the release.
pub const PAUSE_CONFIRMATION: Duration = 5_000_000_000;

/// How long `install` and `uninstall` wait for a stopped watcher to exit;
/// a session start attempt can hold it for the readiness deadline.
pub const STOP_CONFIRMATION: Duration = 30_000_000_000;

/// A request for a running watcher.
#[derive(Debug, Clone, Copy, PartialEq, Eq, Structural)]
pub enum WatcherRequest {
    Pause,
    Resume,
    OpenKanali,
    Stop,
}

// ---------------------------------------------------------------------------
// Arguments.
// ---------------------------------------------------------------------------

/// Whether `word` is among the arguments.
pub open spec fn given(args: Seq<String>, word: Seq<char>) -> bool {
    exists|i: int| 0 <= i < args.len() && (#[trigger] args[i])@ == word
}

/// Whether `word` is among the arguments.
fn is_given(args: &[String], word: &str) -> (found: bool)
    ensures
        found == given(args@, word@),
{
    let mut i: usize = 0;
    while i < args.len()
        invariant
            i <= args@.len(),
            forall|j: int| 0 <= j < i ==> (#[trigger] args@[j])@ != word@,
        decreases args@.len() - i,
    {
        if text::same(args[i].as_str(), word) {
            return true;
        }
        i = i + 1;
    }
    false
}

/// Whether the argument at `index` is the value of a preceding option.
pub open spec fn option_value(args: Seq<String>, index: int) -> bool {
    index > 0 && args[index - 1]@ == "--interval"@
}

/// Whether the argument at `index` is the value of a preceding option.
pub fn is_option_value(args: &[String], index: usize) -> (value: bool)
    requires
        index <= args@.len(),
    ensures
        value == option_value(args@, index as int),
{
    index > 0 && text::same(args[index - 1].as_str(), "--interval")
}

/// Whether the argument at `index` may be a command: it is no option, nor the
/// value of one.
pub open spec fn may_be_command(args: Seq<String>, index: int) -> bool {
    !(args[index]@.len() > 0 && args[index]@[0] == '-') && !option_value(args, index)
}

/// Where the command stands: the first argument that may be one, if any.
pub open spec fn command_at(args: Seq<String>, at: Option<int>) -> bool {
    match at {
        Some(at) => {
            &&& 0 <= at < args.len()
            &&& may_be_command(args, at)
            &&& forall|i: int| 0 <= i < at ==> !#[trigger] may_be_command(args, i)
        },
        None => forall|i: int| 0 <= i < args.len() ==> !#[trigger] may_be_command(args, i),
    }
}

/// Where the command stands.
fn find_command(args: &[String]) -> (at: Option<usize>)
    ensures
        match at {
            Some(at) => command_at(args@, Some(at as int)),
            None => command_at(args@, None),
        },
{
    let mut i: usize = 0;
    while i < args.len()
        invariant
            i <= args@.len(),
            forall|j: int| 0 <= j < i ==> !#[trigger] may_be_command(args@, j),
        decreases args@.len() - i,
    {
        let chars = text::chars_of(args[i].as_str());
        let option = chars.len() > 0 && chars[0] == '-';
        if !option && !is_option_value(args, i) {
            assert(may_be_command(args@, i as int));
            return Some(i);
        }
        assert(!may_be_command(args@, i as int));
        i = i + 1;
    }
    None
}

/// What the arguments say about the ping interval.
#[derive(Debug, Clone, PartialEq, Eq)]
pub enum IntervalText {
    /// Nothing: the built-in interval holds.
    Absent,
    /// `--interval` without a value.
    Missing,
    /// The value given.
    Given(String),
}

/// Whether `found` is what the arguments say about the ping interval: the
/// argument behind the first `--interval`.
pub open spec fn interval_words(args: Seq<String>, found: IntervalText) -> bool {
    match found {
        IntervalText::Absent => !given(args, "--interval"@),
        IntervalText::Missing => exists|i: int|
            #![trigger args[i]]
            0 <= i && i + 1 == args.len() && args[i]@ == "--interval"@ && !given(
                args.take(i),
                "--interval"@,
            ),
        IntervalText::Given(value) => exists|i: int|
            #![trigger args[i]]
            0 <= i && i + 1 < args.len() && args[i]@ == "--interval"@ && !given(
                args.take(i),
                "--interval"@,
            ) && args[i + 1]@ == value@,
    }
}

/// What the arguments say about the ping interval.
pub fn interval_text(args: &[String]) -> (found: IntervalText)
    ensures
        interval_words(args@, found),
{
    let mut i: usize = 0;
    while i < args.len()
        invariant
            i <= args@.len(),
            forall|j: int| 0 <= j < i ==> (#[trigger] args@[j])@ != "--interval"@,
        decreases args@.len() - i,
    {
        if text::same(args[i].as_str(), "--interval") {
            proof {
                assert(args@[i as int]@ == "--interval"@);
                assert forall|j: int| 0 <= j < i implies (#[trigger] args@.take(
                    i as int,
                )[j])@ != "--interval"@ by {
                    assert(args@[j]@ != "--interval"@);
                }
            }
            if i + 1 == args.len() {
                return IntervalText::Missing;
            }
            return IntervalText::Given(args[i + 1].clone());
        }
        i = i + 1;
    }
    IntervalText::Absent
}

/// The ping interval that the arguments ask for: `parsed` is the span that the
/// value names, if it is a number of seconds from 0.1 to 3600. The built-in
/// interval when absent.
pub fn interval_argument(found: &IntervalText, parsed: Option<Duration>) -> (interval: Result<
    Duration,
    String,
>)
    ensures
        match *found {
            IntervalText::Absent => interval == Ok::<Duration, String>(KEEPALIVE_INTERVAL),
            IntervalText::Missing => interval matches Err(message) && message@
                == "--interval needs a value in seconds"@,
            IntervalText::Given(value) => match parsed {
                Some(span) => interval == Ok::<Duration, String>(span),
                None => interval matches Err(message) && message@
                    == "--interval must be between 0.1 and 3600 seconds, not "@ + value@,
            },
        },
{
    match found {
        IntervalText::Absent => Ok(KEEPALIVE_INTERVAL),
        IntervalText::Missing => Err("--interval needs a value in seconds".to_owned()),
        IntervalText::Given(value) => match parsed {
            Some(span) => Ok(span),
            None => Err(
                text::join(
                    "--interval must be between 0.1 and 3600 seconds, not ",
                    value.as_str(),
                ),
            ),
        },
    }
}

// ---------------------------------------------------------------------------
// Commands.
// ---------------------------------------------------------------------------

/// What the arguments ask for.
#[derive(Debug, Clone, PartialEq, Eq)]
pub enum Action {
    Probe { verbose: bool, io_check: bool },
    Info,
    Activate,
    Run { verbose: bool, interval: Duration },
    Watch { verbose: bool, interval: Duration },
    Control(WatcherRequest),
    Install,
    Uninstall,
    Status,
    /// Print the name and version.
    Version,
    /// Print the usage.
    Help,
    /// Print this message and the usage as errors.
    UsageError(String),
    /// Print the usage as an error.
    Usage,
}

impl Action {
    /// How the program exits after an action that only prints; nothing for one
    /// that has to be performed first.
    pub fn exit_code(&self) -> (code: Option<u8>)
        ensures
            code == match *self {
                Action::Version | Action::Help => Some(EXIT_SUCCESS),
                Action::Usage | Action::UsageError(_) => Some(EXIT_USAGE),
                _ => None,
            },
    {
        match self {
            Action::Version => Some(EXIT_SUCCESS),
            Action::Help => Some(EXIT_SUCCESS),
            Action::Usage => Some(EXIT_USAGE),
            Action::UsageError(_) => Some(EXIT_USAGE),
            _ => None,
        }
    }
}

/// Whether detail is asked for.
pub open spec fn verbose(args: Seq<String>) -> bool {
    given(args, "-v"@) || given(args, "--verbose"@)
}

/// Whether `action` is what the arguments ask for; `interval` is the ping
/// interval that they name.
pub open spec fn asks(
    args: Seq<String>,
    interval: Result<Duration, String>,
    name: Seq<char>,
    action: Action,
) -> bool {
    if name == "probe"@ {
        action == Action::Probe { verbose: verbose(args), io_check: given(args, "--io"@) }
    } else if name == "info"@ {
        action == Action::Info
    } else if name == "activate"@ {
        action == Action::Activate
    } else if name == "run"@ {
        match interval {
            Ok(interval) => action == Action::Run { verbose: verbose(args), interval },
            Err(message) => action matches Action::UsageError(text) && text@ == message@,
        }
    } else if name == "watch"@ {
        match interval {
            Ok(interval) => action == Action::Watch { verbose: verbose(args), interval },
            Err(message) => action matches Action::UsageError(text) && text@ == message@,
        }
    } else if name == "pause"@ {
        action == Action::Control(WatcherRequest::Pause)
    } else if name == "resume"@ {
        action == Action::Control(WatcherRequest::Resume)
    } else if name == "kanali"@ {
        action == Action::Control(WatcherRequest::OpenKanali)
    } else if name == "stop"@ {
        action == Action::Control(WatcherRequest::Stop)
    } else if name == "install"@ {
        action == Action::Install
    } else if name == "uninstall"@ {
        action == Action::Uninstall
    } else if name == "status"@ {
        action == Action::Status
    } else if name == "version"@ {
        action == Action::Version
    } else if name == "help"@ {
        action == Action::Help
    } else {
        action matches Action::UsageError(text) && text@ == "unknown command: "@ + name
    }
}

/// What the command `name` asks for.
fn command_action(args: &[String], interval: Result<Duration, String>, name: &str) -> (action:
    Action)
    ensures
        asks(args@, interval, name@, action),
{
    let verbose = is_given(args, "-v") || is_given(args, "--verbose");
    if text::same(name, "probe") {
        Action::Probe { verbose, io_check: is_given(args, "--io") }
    } else if text::same(name, "info") {
        Action::Info
    } else if text::same(name, "activate") {
        Action::Activate
    } else if text::same(name, "run") {
        match interval {
            Ok(interval) => Action::Run { verbose, interval },
            Err(message) => Action::UsageError(message),
        }
    } else if text::same(name, "watch") {
        match interval {
            Ok(interval) => Action::Watch { verbose, interval },
            Err(message) => Action::UsageError(message),
        }
    } else if text::same(name, "pause") {
        Action::Control(WatcherRequest::Pause)
    } else if text::same(name, "resume") {
        Action::Control(WatcherRequest::Resume)
    } else if text::same(name, "kanali") {
        Action::Control(WatcherRequest::OpenKanali)
    } else if text::same(name, "stop") {
        Action::Control(WatcherRequest::Stop)
    } else if text::same(name, "install") {
        Action::Install
    } else if text::same(name, "uninstall") {
        Action::Uninstall
    } else if text::same(name, "status") {
        Action::Status
    } else if text::same(name, "version") {
        Action::Version
    } else if text::same(name, "help") {
        Action::Help
    } else {
        Action::UsageError(text::join("unknown command: ", name))
    }
}

/// What the arguments ask for; `interval` is the ping interval that they name.
pub fn dispatch(args: &[String], interval: Result<Duration, String>) -> (action: Action)
    ensures
        forall|at: int|
            #![trigger args@[at]]
            command_at(args@, Some(at)) ==> asks(args@, interval, args@[at]@, action),
        command_at(args@, None) ==> action == if given(args@, "--version"@) || given(args@, "-V"@) {
            Action::Version
        } else if given(args@, "--help"@) || given(args@, "-h"@) {
            Action::Help
        } else {
            Action::Usage
        },
{
    match find_command(args) {
        Some(at) => {
            assert forall|other: int|
                #![trigger args@[other]]
                command_at(args@, Some(other)) implies other == at by {
                assert(may_be_command(args@, at as int));
                assert(may_be_command(args@, other));
            }
            assert(may_be_command(args@, at as int));
            command_action(args, interval, args[at].as_str())
        },
        None => {
            assert forall|other: int|
                #![trigger args@[other]]
                !command_at(args@, Some(other)) by {
                if command_at(args@, Some(other)) {
                    assert(may_be_command(args@, other));
                }
            }
            if is_given(args, "--version") || is_given(args, "-V") {
                Action::Version
            } else if is_given(args, "--help") || is_given(args, "-h") {
                Action::Help
            } else {
                Action::Usage
            }
        },
    }
}

/// Renders a device string, making an empty one visible.
pub fn show<'a>(value: &'a str) -> (text: &'a str)
    ensures
        text@ == crate::backend::shown(value@),
{
    crate::backend::show(value)
}

// ---------------------------------------------------------------------------
// Laws.
// ---------------------------------------------------------------------------

/// There is at most one command among the arguments.
pub proof fn command_is_unique(args: Seq<String>, a: int, b: int)
    requires
        command_at(args, Some(a)),
        command_at(args, Some(b)),
    ensures
        a == b,
{
    assert(may_be_command(args, a));
    assert(may_be_command(args, b));
}

/// Neither an option nor the value of `--interval` is ever taken for the
/// command.
pub proof fn option_values_are_never_commands(args: Seq<String>, at: int)
    requires
        command_at(args, Some(at)),
    ensures
        at > 0 ==> args[at - 1]@ != "--interval"@,
        args[at]@.len() > 0 ==> args[at]@[0] != '-',
{
    assert(may_be_command(args, at));
}

/// Each command asks for what it names, with the options that go with it, and
/// every other word is an unknown command.
pub proof fn commands_ask_for_what_they_name(
    args: Seq<String>,
    interval: Result<Duration, String>,
    name: Seq<char>,
    action: Action,
)
    requires
        asks(args, interval, name, action),
    ensures
        name == "probe"@ ==> action == (Action::Probe {
            verbose: given(args, "-v"@) || given(args, "--verbose"@),
            io_check: given(args, "--io"@),
        }),
        name == "info"@ <==> action is Info,
        name == "activate"@ <==> action is Activate,
        name == "run"@ && interval is Ok ==> action == (Action::Run {
            verbose: given(args, "-v"@) || given(args, "--verbose"@),
            interval: interval->Ok_0,
        }),
        name == "watch"@ && interval is Ok ==> action == (Action::Watch {
            verbose: given(args, "-v"@) || given(args, "--verbose"@),
            interval: interval->Ok_0,
        }),
        (name == "run"@ || name == "watch"@) && interval is Err ==> (action
            matches Action::UsageError(text) && text@ == interval->Err_0@),
        name == "pause"@ <==> action == Action::Control(WatcherRequest::Pause),
        name == "resume"@ <==> action == Action::Control(WatcherRequest::Resume),
        name == "kanali"@ <==> action == Action::Control(WatcherRequest::OpenKanali),
        name == "stop"@ <==> action == Action::Control(WatcherRequest::Stop),
        name == "install"@ <==> action is Install,
        name == "uninstall"@ <==> action is Uninstall,
        name == "status"@ <==> action is Status,
        name == "version"@ <==> action is Version,
        name == "help"@ <==> action is Help,
        action is Run ==> name == "run"@,
        action is Watch ==> name == "watch"@,
        action is Probe ==> name == "probe"@,
        action !is Usage,
        action matches Action::UsageError(text) ==> ((name == "run"@ || name == "watch"@)
            && interval is Err) || text@ == "unknown command: "@ + name,
{
    reveal_strlit("probe");
    reveal_strlit("info");
    reveal_strlit("activate");
    reveal_strlit("run");
    reveal_strlit("watch");
    reveal_strlit("pause");
    reveal_strlit("resume");
    reveal_strlit("kanali");
    reveal_strlit("stop");
    reveal_strlit("install");
    reveal_strlit("uninstall");
    reveal_strlit("status");
    reveal_strlit("version");
    reveal_strlit("help");
    assert("probe"@[1] == 'r' && "pause"@[1] == 'a' && "watch"@[1] == 'a' && "watch"@[0] == 'w'
        && "pause"@[0] == 'p');
    assert("info"@[0] == 'i' && "stop"@[0] == 's' && "help"@[0] == 'h');
    assert("run"@.len() == 3 && "info"@.len() == 4 && "probe"@.len() == 5 && "activate"@.len() == 8
        && "uninstall"@.len() == 9 && "watch"@.len() == 5 && "pause"@.len() == 5 && "resume"@.len()
        == 6 && "kanali"@.len() == 6 && "status"@.len() == 6 && "stop"@.len() == 4 && "help"@.len()
        == 4 && "install"@.len() == 7 && "version"@.len() == 7);
    assert("resume"@[0] == 'r' && "kanali"@[0] == 'k' && "status"@[0] == 's');
    assert("install"@[0] == 'i' && "version"@[0] == 'v');
}

} // verus!
