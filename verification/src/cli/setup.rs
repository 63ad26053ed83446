//! Installing, uninstalling, and reporting on the installation: the order of
//! the steps, what is said about each, and which failures end the command.

use vstd::prelude::*;
use vstd::string::{StrSliceExecFns, StringExecFns};

use crate::cli::report::{complained, said, LineView, Output};
use crate::cli::{EXIT_FAILURE, EXIT_SUCCESS, STOP_CONFIRMATION};
use crate::install::{file_in, path_in};
use crate::install::{RunEntry, CONSOLE_BINARY, ICON_FILE, RUN_VALUE, WATCHER_BINARY};
use crate::log::LOG_FILE;
use crate::text;
use crate::time;
use crate::usbprint::Discovery;
use crate::watch::State;

verus! {

/// How a step came out.
#[derive(Debug, Clone, PartialEq, Eq)]
pub enum Outcome {
    /// It was done; what with.
    Done(String),
    /// There was nothing to do.
    Unneeded,
    /// It failed, for this reason.
    Failed(String),
}

/// What a step comes to: whether the command goes on, and the lines that say
/// how it came out.
pub type Progress = (bool, Seq<LineView>);

// ---------------------------------------------------------------------------
// Installing.
// ---------------------------------------------------------------------------

/// The steps of an installation.
#[derive(Debug, Clone, Copy, PartialEq, Eq, Structural)]
pub enum InstallStep {
    /// Stop a watcher that runs; done if one did, failed if it has not exited
    /// in time.
    StopWatcher,
    /// Copy the program; done with the number of bytes, unneeded where it
    /// already runs from the directory.
    CopyProgram,
    /// Write the windowless copy; done with its path.
    WriteWatcher,
    /// Write the icon file; done with its path.
    WriteIcon,
    /// Write the Start Menu entry; done with its path, unneeded where there is
    /// no roaming app data directory.
    StartMenu,
    /// Write the logon entry; done with its command.
    LogonEntry,
    /// Write the installed-apps entry; done with its name.
    AppsEntry,
    /// Add the directory to the search path; unneeded where it is there.
    SearchPath,
    /// Start the installed watcher; done with its process id.
    StartWatcher,
}

/// Where an installation goes and comes from.
#[derive(Debug, Clone, PartialEq, Eq)]
pub struct InstallPlan {
    /// The installation directory.
    pub directory: String,
    /// The program that is installed.
    pub source: String,
    /// Where it is copied to.
    pub destination: String,
}

/// What an installation into `directory` of the program at `source` plans,
/// each as far as it is known, or how the command exits where it cannot start.
pub open spec fn planned(
    directory: Option<Seq<char>>,
    source: Option<Seq<char>>,
    lines: Seq<LineView>,
) -> (Result<(Seq<char>, Seq<char>, Seq<char>), u8>, Seq<LineView>) {
    match directory {
        None => (
            Err(EXIT_FAILURE),
            complained(
                lines,
                "LOCALAPPDATA is not set; cannot choose an installation directory"@,
            ),
        ),
        Some(directory) => match source {
            None => (
                Err(EXIT_FAILURE),
                complained(lines, "cannot locate this program's own directory"@),
            ),
            Some(source) => (Ok((directory, source, path_in(directory, CONSOLE_BINARY@))), lines),
        },
    }
}

/// What an optional text says.
pub open spec fn text_view(text: Option<String>) -> Option<Seq<char>> {
    match text {
        Some(text) => Some(text@),
        None => None,
    }
}

/// What a plan says.
pub open spec fn plan_view(plan: Result<InstallPlan, u8>) -> Result<
    (Seq<char>, Seq<char>, Seq<char>),
    u8,
> {
    match plan {
        Ok(plan) => Ok((plan.directory@, plan.source@, plan.destination@)),
        Err(code) => Err(code),
    }
}

/// Plans an installation, saying why where it cannot start. `directory` is the
/// installation directory and `source` this program's own file.
pub fn install_plan(directory: Option<String>, source: Option<String>, output: &mut Output) -> (
    plan: Result<InstallPlan, u8>)
    ensures
        (plan_view(plan), final(output)@) == planned(
            text_view(directory),
            text_view(source),
            old(output)@,
        ),
{
    match directory {
        None => {
            output.problem("LOCALAPPDATA is not set; cannot choose an installation directory");
            Err(EXIT_FAILURE)
        },
        Some(directory) => match source {
            None => {
                output.problem("cannot locate this program's own directory");
                Err(EXIT_FAILURE)
            },
            Some(source) => {
                let destination = file_in(directory.as_str(), CONSOLE_BINARY);
                Ok(InstallPlan { directory, source, destination })
            },
        },
    }
}

/// The step after this one.
pub open spec fn next_install_step(step: InstallStep) -> Option<InstallStep> {
    match step {
        InstallStep::StopWatcher => Some(InstallStep::CopyProgram),
        InstallStep::CopyProgram => Some(InstallStep::WriteWatcher),
        InstallStep::WriteWatcher => Some(InstallStep::WriteIcon),
        InstallStep::WriteIcon => Some(InstallStep::StartMenu),
        InstallStep::StartMenu => Some(InstallStep::LogonEntry),
        InstallStep::LogonEntry => Some(InstallStep::AppsEntry),
        InstallStep::AppsEntry => Some(InstallStep::SearchPath),
        InstallStep::SearchPath => Some(InstallStep::StartWatcher),
        InstallStep::StartWatcher => None,
    }
}

/// What follows a step after which the installation goes on or not: the next
/// step, or how the command exits.
pub open spec fn install_after(step: InstallStep, go_on: bool) -> Result<InstallStep, u8> {
    if !go_on {
        Err(EXIT_FAILURE)
    } else {
        match next_install_step(step) {
            Some(next) => Ok(next),
            None => Err(EXIT_SUCCESS),
        }
    }
}

/// What to say where a step fails and the command ends.
pub open spec fn install_complaint(step: InstallStep, plan: InstallPlan) -> Seq<char> {
    match step {
        InstallStep::StopWatcher => ""@,
        InstallStep::CopyProgram => "cannot copy "@ + plan.source@ + " to "@ + plan.destination@
            + ": "@,
        InstallStep::WriteWatcher => "cannot write the windowless program: "@,
        InstallStep::WriteIcon => "cannot write the icon file: "@,
        InstallStep::StartMenu => "cannot write the Start Menu entry: "@,
        InstallStep::LogonEntry => "cannot register the logon entry: "@,
        InstallStep::AppsEntry => "cannot write the Settings entry: "@,
        InstallStep::SearchPath => "cannot edit the search path: "@,
        InstallStep::StartWatcher => "installed, but could not start the watcher now: "@,
    }
}

/// What to say where a step was done, with what.
pub open spec fn install_success(step: InstallStep, plan: InstallPlan, detail: Seq<char>) -> Seq<
    char,
> {
    match step {
        InstallStep::StopWatcher => "stopped the running watcher"@,
        InstallStep::CopyProgram => "copied "@ + CONSOLE_BINARY@ + " to "@ + plan.directory@ + " ("@
            + detail + " bytes)"@,
        InstallStep::WriteWatcher => "wrote "@ + detail,
        InstallStep::WriteIcon => "wrote "@ + detail,
        InstallStep::StartMenu => "Start Menu entry "@ + detail,
        InstallStep::LogonEntry => "logon entry "@ + RUN_VALUE@ + ": "@ + detail,
        InstallStep::AppsEntry => "Settings entry "@ + detail,
        InstallStep::SearchPath => "added "@ + plan.directory@ + " to the search path"@,
        InstallStep::StartWatcher => "started the installed watcher (process "@ + detail + ")"@,
    }
}

/// What an outcome of a step comes to. A watcher that would not stop is
/// complained about, but does not end the command; every other failure does.
pub open spec fn install_progress(
    step: InstallStep,
    plan: InstallPlan,
    outcome: Outcome,
    lines: Seq<LineView>,
) -> Progress {
    match outcome {
        Outcome::Done(detail) => (true, said(lines, install_success(step, plan, detail@))),
        Outcome::Unneeded => (
            true,
            match step {
                InstallStep::CopyProgram => said(
                    lines,
                    "already running from "@ + plan.directory@,
                ),
                InstallStep::StartMenu => said(
                    lines,
                    "APPDATA is not set; no Start Menu entry"@,
                ),
                InstallStep::SearchPath => said(
                    lines,
                    "the search path already lists "@ + plan.directory@,
                ),
                _ => lines,
            },
        ),
        Outcome::Failed(reason) => if step is StopWatcher {
            (true, said(complained(lines, reason@), "stopped the running watcher"@))
        } else {
            (false, complained(lines, install_complaint(step, plan) + reason@))
        },
    }
}

impl InstallStep {
    /// The step after this one.
    pub fn next(self) -> (step: Option<InstallStep>)
        ensures
            step == next_install_step(self),
    {
        match self {
            InstallStep::StopWatcher => Some(InstallStep::CopyProgram),
            InstallStep::CopyProgram => Some(InstallStep::WriteWatcher),
            InstallStep::WriteWatcher => Some(InstallStep::WriteIcon),
            InstallStep::WriteIcon => Some(InstallStep::StartMenu),
            InstallStep::StartMenu => Some(InstallStep::LogonEntry),
            InstallStep::LogonEntry => Some(InstallStep::AppsEntry),
            InstallStep::AppsEntry => Some(InstallStep::SearchPath),
            InstallStep::SearchPath => Some(InstallStep::StartWatcher),
            InstallStep::StartWatcher => None,
        }
    }

    /// What follows this step, if the installation goes on or not: the next
    /// step, or how the command exits.
    pub fn after(self, go_on: bool) -> (next: Result<InstallStep, u8>)
        ensures
            next == install_after(self, go_on),
    {
        if !go_on {
            return Err(EXIT_FAILURE);
        }
        match self.next() {
            Some(step) => Ok(step),
            None => Err(EXIT_SUCCESS),
        }
    }

    /// What to say where this step fails and the command ends.
    fn complaint(self, plan: &InstallPlan) -> (text: String)
        ensures
            text@ == install_complaint(self, *plan),
    {
        match self {
            InstallStep::StopWatcher => "".to_owned(),
            InstallStep::CopyProgram => {
                let line = text::join3("cannot copy ", plan.source.as_str(), " to ");
                text::join3(line.as_str(), plan.destination.as_str(), ": ")
            },
            InstallStep::WriteWatcher => "cannot write the windowless program: ".to_owned(),
            InstallStep::WriteIcon => "cannot write the icon file: ".to_owned(),
            InstallStep::StartMenu => "cannot write the Start Menu entry: ".to_owned(),
            InstallStep::LogonEntry => "cannot register the logon entry: ".to_owned(),
            InstallStep::AppsEntry => "cannot write the Settings entry: ".to_owned(),
            InstallStep::SearchPath => "cannot edit the search path: ".to_owned(),
            InstallStep::StartWatcher => {
                "installed, but could not start the watcher now: ".to_owned()
            },
        }
    }

    /// What to say where this step was done, with what.
    fn success(self, plan: &InstallPlan, detail: &str) -> (text: String)
        ensures
            text@ == install_success(self, *plan, detail@),
    {
        match self {
            InstallStep::StopWatcher => "stopped the running watcher".to_owned(),
            InstallStep::CopyProgram => {
                let line = text::join3("copied ", CONSOLE_BINARY, " to ");
                let line = text::join3(line.as_str(), plan.directory.as_str(), " (");
                text::join3(line.as_str(), detail, " bytes)")
            },
            InstallStep::WriteWatcher => text::join("wrote ", detail),
            InstallStep::WriteIcon => text::join("wrote ", detail),
            InstallStep::StartMenu => text::join("Start Menu entry ", detail),
            InstallStep::LogonEntry => {
                let line = text::join3("logon entry ", RUN_VALUE, ": ");
                text::join(line.as_str(), detail)
            },
            InstallStep::AppsEntry => text::join("Settings entry ", detail),
            InstallStep::SearchPath => text::join3(
                "added ",
                plan.directory.as_str(),
                " to the search path",
            ),
            InstallStep::StartWatcher => text::join3(
                "started the installed watcher (process ",
                detail,
                ")",
            ),
        }
    }

    /// Says how this step came out; whether the installation goes on.
    pub fn report(self, plan: &InstallPlan, outcome: &Outcome, output: &mut Output) -> (go_on: bool)
        ensures
            (go_on, final(output)@) == install_progress(self, *plan, *outcome, old(output)@),
    {
        match outcome {
            Outcome::Done(detail) => {
                output.out(self.success(plan, detail.as_str()).as_str());
                true
            },
            Outcome::Unneeded => {
                match self {
                    InstallStep::CopyProgram => output.out(
                        text::join("already running from ", plan.directory.as_str()).as_str(),
                    ),
                    InstallStep::StartMenu => output.out("APPDATA is not set; no Start Menu entry"),
                    InstallStep::SearchPath => output.out(
                        text::join(
                            "the search path already lists ",
                            plan.directory.as_str(),
                        ).as_str(),
                    ),
                    _ => {},
                }
                true
            },
            Outcome::Failed(reason) => {
                match self {
                    InstallStep::StopWatcher => {
                        output.problem(reason.as_str());
                        output.out("stopped the running watcher");
                        true
                    },
                    _ => {
                        let complaint = self.complaint(plan);
                        output.problem(text::join(complaint.as_str(), reason.as_str()).as_str());
                        false
                    },
                }
            },
        }
    }
}

/// What is said where a watcher has not exited in time.
pub fn not_exited() -> (line: String)
    ensures
        line@ == "the watcher has not exited within "@ + text::decimal(
            (STOP_CONFIRMATION / time::NANOS_PER_SEC) as nat,
        ) + " s"@,
{
    let secs = text::number(time::as_secs(STOP_CONFIRMATION));
    text::join3("the watcher has not exited within ", secs.as_str(), " s")
}

/// A note for each KANALI startup entry.
pub open spec fn entry_notes(lines: Seq<LineView>, entries: Seq<RunEntry>) -> Seq<LineView>
    decreases entries.len(),
{
    if entries.len() == 0 {
        lines
    } else {
        let entry = entries.last();
        said(
            entry_notes(lines, entries.drop_last()),
            "note: a KANALI startup entry named "@ + entry.name@ + " is still enabled: "@
                + entry.command@,
        )
    }
}

/// What `install` says about KANALI startup entries.
pub open spec fn kanali_notes(lines: Seq<LineView>, found: Result<Vec<RunEntry>, String>) -> Seq<
    LineView,
> {
    match found {
        Ok(entries) => if entries@.len() == 0 {
            lines
        } else {
            said(
                entry_notes(lines, entries@),
                "      turn off start with Windows in KANALI's settings, or the two will race for the panel at logon"@,
            )
        },
        Err(error) => said(lines, "could not check for KANALI startup entries: "@ + error@),
    }
}

/// What `install` says about KANALI startup entries.
pub fn note_kanali_entries(found: &Result<Vec<RunEntry>, String>, output: &mut Output)
    ensures
        final(output)@ == kanali_notes(old(output)@, *found),
{
    match found {
        Ok(entries) => {
            if entries.len() == 0 {
                return;
            }
            let ghost start = output@;
            let mut i: usize = 0;
            while i < entries.len()
                invariant
                    i <= entries@.len(),
                    output@ == entry_notes(start, entries@.take(i as int)),
                decreases entries@.len() - i,
            {
                assert(entries@.take(i + 1).drop_last() == entries@.take(i as int));
                let line = text::join3(
                    "note: a KANALI startup entry named ",
                    entries[i].name.as_str(),
                    " is still enabled: ",
                );
                output.out(text::join(line.as_str(), entries[i].command.as_str()).as_str());
                i = i + 1;
            }
            assert(entries@.take(i as int) == entries@);
            output.out(
                "      turn off start with Windows in KANALI's settings, or the two will race for the panel at logon",
            );
        },
        Err(error) => output.out(
            text::join("could not check for KANALI startup entries: ", error.as_str()).as_str(),
        ),
    }
}

// ---------------------------------------------------------------------------
// Uninstalling.
// ---------------------------------------------------------------------------

/// The steps of an uninstallation.
#[derive(Debug, Clone, Copy, PartialEq, Eq, Structural)]
pub enum UninstallStep {
    /// Stop a watcher that runs.
    StopWatcher,
    /// Remove the logon entry.
    LogonEntry,
    /// Remove the installed-apps entry.
    AppsEntry,
    /// Take the directory out of the search path.
    SearchPath,
    /// Remove the Start Menu entry.
    StartMenu,
    /// Delete the program.
    DeleteProgram,
    /// Delete the windowless copy.
    DeleteWatcher,
    /// Delete the icon file.
    DeleteIcon,
}

/// The step after this one.
pub open spec fn next_uninstall_step(step: UninstallStep) -> Option<UninstallStep> {
    match step {
        UninstallStep::StopWatcher => Some(UninstallStep::LogonEntry),
        UninstallStep::LogonEntry => Some(UninstallStep::AppsEntry),
        UninstallStep::AppsEntry => Some(UninstallStep::SearchPath),
        UninstallStep::SearchPath => Some(UninstallStep::StartMenu),
        UninstallStep::StartMenu => Some(UninstallStep::DeleteProgram),
        UninstallStep::DeleteProgram => Some(UninstallStep::DeleteWatcher),
        UninstallStep::DeleteWatcher => Some(UninstallStep::DeleteIcon),
        UninstallStep::DeleteIcon => None,
    }
}

/// The file that a step deletes, if it deletes one.
pub open spec fn deleted_file(step: UninstallStep) -> Option<Seq<char>> {
    match step {
        UninstallStep::DeleteProgram => Some(CONSOLE_BINARY@),
        UninstallStep::DeleteWatcher => Some(WATCHER_BINARY@),
        UninstallStep::DeleteIcon => Some(ICON_FILE@),
        _ => None,
    }
}

/// What to say where a step was done; `path` is the file or directory it was
/// about.
pub open spec fn uninstall_success(step: UninstallStep, path: Seq<char>) -> Seq<char> {
    match step {
        UninstallStep::StopWatcher => "stopped the running watcher"@,
        UninstallStep::LogonEntry => "removed the logon entry"@,
        UninstallStep::AppsEntry => "removed the Settings entry"@,
        UninstallStep::SearchPath => "removed "@ + path + " from the search path"@,
        UninstallStep::StartMenu => "removed the Start Menu entry"@,
        _ => "deleted "@ + path,
    }
}

/// What to say where a step failed; `path` is the file or directory it was
/// about.
pub open spec fn uninstall_complaint(step: UninstallStep, path: Seq<char>) -> Seq<char> {
    match step {
        UninstallStep::StopWatcher => ""@,
        UninstallStep::LogonEntry => "cannot remove the logon entry: "@,
        UninstallStep::AppsEntry => "cannot remove the Settings entry: "@,
        UninstallStep::SearchPath => "cannot edit the search path: "@,
        UninstallStep::StartMenu => "cannot remove "@ + path + ": "@,
        _ => "cannot delete "@ + path + ": "@,
    }
}

/// Where an uninstallation stands: whether a step has failed that did not end
/// it.
#[derive(Debug, Clone, Copy, PartialEq, Eq, Structural)]
pub struct Uninstall {
    pub failed: bool,
}

/// What an outcome of a step comes to: whether the uninstallation goes on, how
/// it stands then, and the lines. A logon entry that cannot be removed ends it;
/// every other failure is remembered for the exit code.
pub open spec fn uninstall_progress(
    u: Uninstall,
    step: UninstallStep,
    path: Seq<char>,
    outcome: Outcome,
    lines: Seq<LineView>,
) -> (bool, Uninstall, Seq<LineView>) {
    match outcome {
        Outcome::Done(_) => (true, u, said(lines, uninstall_success(step, path))),
        Outcome::Unneeded => (
            true,
            u,
            if step is LogonEntry {
                said(lines, "no logon entry was registered"@)
            } else {
                lines
            },
        ),
        Outcome::Failed(reason) => {
            let complaint = complained(lines, uninstall_complaint(step, path) + reason@);
            match step {
                UninstallStep::StopWatcher => (
                    true,
                    u,
                    said(complaint, "stopped the running watcher"@),
                ),
                UninstallStep::LogonEntry => (false, Uninstall { failed: true }, complaint),
                _ => (true, Uninstall { failed: true }, complaint),
            }
        },
    }
}

impl UninstallStep {
    /// The step after this one.
    pub fn next(self) -> (step: Option<UninstallStep>)
        ensures
            step == next_uninstall_step(self),
    {
        match self {
            UninstallStep::StopWatcher => Some(UninstallStep::LogonEntry),
            UninstallStep::LogonEntry => Some(UninstallStep::AppsEntry),
            UninstallStep::AppsEntry => Some(UninstallStep::SearchPath),
            UninstallStep::SearchPath => Some(UninstallStep::StartMenu),
            UninstallStep::StartMenu => Some(UninstallStep::DeleteProgram),
            UninstallStep::DeleteProgram => Some(UninstallStep::DeleteWatcher),
            UninstallStep::DeleteWatcher => Some(UninstallStep::DeleteIcon),
            UninstallStep::DeleteIcon => None,
        }
    }

    /// The file that this step deletes, if it deletes one.
    pub fn file(self) -> (name: Option<&'static str>)
        ensures
            match name {
                Some(name) => deleted_file(self) == Some(name@),
                None => deleted_file(self) is None,
            },
    {
        match self {
            UninstallStep::DeleteProgram => Some(CONSOLE_BINARY),
            UninstallStep::DeleteWatcher => Some(WATCHER_BINARY),
            UninstallStep::DeleteIcon => Some(ICON_FILE),
            _ => None,
        }
    }

    /// What to say where this step was done.
    fn success(self, path: &str) -> (text: String)
        ensures
            text@ == uninstall_success(self, path@),
    {
        match self {
            UninstallStep::StopWatcher => "stopped the running watcher".to_owned(),
            UninstallStep::LogonEntry => "removed the logon entry".to_owned(),
            UninstallStep::AppsEntry => "removed the Settings entry".to_owned(),
            UninstallStep::SearchPath => text::join3("removed ", path, " from the search path"),
            UninstallStep::StartMenu => "removed the Start Menu entry".to_owned(),
            _ => text::join("deleted ", path),
        }
    }

    /// What to say where this step failed.
    fn complaint(self, path: &str) -> (text: String)
        ensures
            text@ == uninstall_complaint(self, path@),
    {
        match self {
            UninstallStep::StopWatcher => "".to_owned(),
            UninstallStep::LogonEntry => "cannot remove the logon entry: ".to_owned(),
            UninstallStep::AppsEntry => "cannot remove the Settings entry: ".to_owned(),
            UninstallStep::SearchPath => "cannot edit the search path: ".to_owned(),
            UninstallStep::StartMenu => text::join3("cannot remove ", path, ": "),
            _ => text::join3("cannot delete ", path, ": "),
        }
    }
}

impl Uninstall {
    pub fn new() -> (uninstall: Self)
        ensures
            !uninstall.failed,
    {
        Uninstall { failed: false }
    }

    /// Says how a step came out; whether the uninstallation goes on. `path` is
    /// the file or directory the step was about.
    pub fn report(
        &mut self,
        step: UninstallStep,
        path: &str,
        outcome: &Outcome,
        output: &mut Output,
    ) -> (go_on: bool)
        ensures
            (go_on, *final(self), final(output)@) == uninstall_progress(
                *old(self),
                step,
                path@,
                *outcome,
                old(output)@,
            ),
    {
        match outcome {
            Outcome::Done(_) => {
                output.out(step.success(path).as_str());
                true
            },
            Outcome::Unneeded => {
                match step {
                    UninstallStep::LogonEntry => output.out("no logon entry was registered"),
                    _ => {},
                }
                true
            },
            Outcome::Failed(reason) => {
                let complaint = step.complaint(path);
                output.problem(text::join(complaint.as_str(), reason.as_str()).as_str());
                match step {
                    UninstallStep::StopWatcher => {
                        output.out("stopped the running watcher");
                        true
                    },
                    UninstallStep::LogonEntry => {
                        self.failed = true;
                        false
                    },
                    _ => {
                        self.failed = true;
                        true
                    },
                }
            },
        }
    }

    /// How the uninstallation exits where there is no installation directory.
    pub fn no_directory(&self, output: &mut Output) -> (code: u8)
        ensures
            code == EXIT_FAILURE,
            final(output)@ == complained(
                old(output)@,
                "LOCALAPPDATA is not set; nothing to delete"@,
            ),
    {
        output.problem("LOCALAPPDATA is not set; nothing to delete");
        EXIT_FAILURE
    }

    /// Says where the log is kept, if there is one, and how the uninstallation
    /// exits.
    pub fn end(&self, log: &Option<String>, output: &mut Output) -> (code: u8)
        ensures
            code == if self.failed {
                EXIT_FAILURE
            } else {
                EXIT_SUCCESS
            },
            final(output)@ == match *log {
                Some(path) => said(old(output)@, "log kept at "@ + path@),
                None => old(output)@,
            },
    {
        match log {
            Some(path) => output.out(text::join("log kept at ", path.as_str()).as_str()),
            None => {},
        }
        self.exit_code()
    }

    /// How the uninstallation exits.
    pub fn exit_code(&self) -> (code: u8)
        ensures
            code == if self.failed {
                EXIT_FAILURE
            } else {
                EXIT_SUCCESS
            },
    {
        if self.failed {
            EXIT_FAILURE
        } else {
            EXIT_SUCCESS
        }
    }
}

// ---------------------------------------------------------------------------
// Status.
// ---------------------------------------------------------------------------

/// `text` with spaces behind it up to `width` characters.
pub open spec fn padded(text: Seq<char>, width: nat) -> Seq<char> {
    if text.len() >= width {
        text
    } else {
        text + Seq::new((width - text.len()) as nat, |i: int| ' ')
    }
}

/// `text` with spaces behind it up to `width` characters.
fn pad(text: &str, width: usize) -> (padded: String)
    ensures
        padded@ == self::padded(text@, width as nat),
{
    let mut padded = text.to_owned();
    let mut length: usize = text.unicode_len();
    let ghost first = length;
    proof {
        reveal_strlit(" ");
    }
    while length < width
        invariant
            first <= length,
            length == padded@.len(),
            first == text@.len(),
            first <= width ==> length <= width,
            first > width ==> length == first,
            padded@ == text@ + Seq::new((length - first) as nat, |i: int| ' '),
            " "@ == seq![' '],
        decreases width - length,
    {
        padded.append(" ");
        length = length + 1;
        assert(padded@ == text@ + Seq::new((length - first) as nat, |i: int| ' '));
    }
    assert(first >= width ==> padded@ == text@);
    padded
}

/// What is known about one installed binary.
#[derive(Debug, Clone, PartialEq, Eq)]
pub struct BinaryFacts {
    pub name: String,
    pub path: String,
    pub exists: bool,
}

/// What is known about the running watcher.
#[derive(Debug, Clone, PartialEq, Eq)]
pub enum WatcherFacts {
    Absent,
    Silent,
    Answering(State),
}

/// What `status` reports on.
#[derive(Debug, PartialEq, Eq)]
pub struct StatusFacts {
    /// The binaries, or nothing where there is no installation directory.
    pub binaries: Option<Vec<BinaryFacts>>,
    /// The logon entry's command, if there is one.
    pub logon: Result<Option<String>, String>,
    /// The Start Menu entry, if it is there.
    pub start_menu: Option<String>,
    pub kanali: Result<Vec<RunEntry>, String>,
    pub watcher: WatcherFacts,
    pub panel: Result<Discovery, String>,
}

/// What `status` says about one binary.
pub open spec fn binary_line(binary: BinaryFacts) -> Seq<char> {
    padded(binary.name@, 12) + " "@ + if binary.exists {
        "installed at "@ + binary.path@
    } else {
        "not installed"@
    }
}

/// What `status` says about the binaries.
pub open spec fn binary_lines(lines: Seq<LineView>, binaries: Seq<BinaryFacts>) -> Seq<LineView>
    decreases binaries.len(),
{
    if binaries.len() == 0 {
        lines
    } else {
        said(binary_lines(lines, binaries.drop_last()), binary_line(binaries.last()))
    }
}

/// What `status` says about KANALI startup entries.
pub open spec fn entry_lines(lines: Seq<LineView>, entries: Seq<RunEntry>) -> Seq<LineView>
    decreases entries.len(),
{
    if entries.len() == 0 {
        lines
    } else {
        let entry = entries.last();
        said(
            entry_lines(lines, entries.drop_last()),
            "kanali       startup entry "@ + entry.name@ + ": "@ + entry.command@,
        )
    }
}

/// What `status` says.
pub open spec fn status_lines(lines: Seq<LineView>, facts: StatusFacts) -> Seq<LineView> {
    let l1 = match facts.binaries {
        Some(binaries) => binary_lines(lines, binaries@),
        None => said(lines, "install dir  unknown (LOCALAPPDATA is not set)"@),
    };
    let l2 = match facts.logon {
        Ok(Some(command)) => said(l1, "logon entry  "@ + command@),
        Ok(None) => said(l1, "logon entry  none"@),
        Err(error) => said(l1, "logon entry  unreadable: "@ + error@),
    };
    let l3 = match facts.start_menu {
        Some(link) => said(l2, "start menu   "@ + link@),
        None => said(l2, "start menu   none"@),
    };
    let l4 = match facts.kanali {
        Ok(entries) => if entries@.len() == 0 {
            said(l3, "kanali       no startup entry"@)
        } else {
            entry_lines(l3, entries@)
        },
        Err(error) => said(l3, "kanali       unreadable: "@ + error@),
    };
    let l5 = said(
        l4,
        "watcher      "@ + match facts.watcher {
            WatcherFacts::Absent => "not running"@,
            WatcherFacts::Silent => "running, not answering"@,
            WatcherFacts::Answering(state) => "running: "@ + crate::watch::state_label(state),
        },
    );
    match facts.panel {
        Ok(Discovery::One(path)) => said(l5, "panel        present at "@ + path@),
        Ok(Discovery::Absent) => said(l5, "panel        not present"@),
        Ok(Discovery::Several(paths)) => said(
            l5,
            "panel        "@ + text::decimal(paths@.len()) + " present"@,
        ),
        Err(error) => said(l5, "panel        discovery failed: "@ + error@),
    }
}

/// What `status` says about one binary.
fn binary_text(binary: &BinaryFacts) -> (line: String)
    ensures
        line@ == binary_line(*binary),
{
    let name = pad(binary.name.as_str(), 12);
    if binary.exists {
        let place = text::join("installed at ", binary.path.as_str());
        text::join3(name.as_str(), " ", place.as_str())
    } else {
        text::join3(name.as_str(), " ", "not installed")
    }
}

/// What `status` says about KANALI startup entries.
fn entry_report(entries: &Vec<RunEntry>, output: &mut Output)
    ensures
        final(output)@ == entry_lines(old(output)@, entries@),
{
    let ghost start = output@;
    let mut i: usize = 0;
    while i < entries.len()
        invariant
            i <= entries@.len(),
            output@ == entry_lines(start, entries@.take(i as int)),
        decreases entries@.len() - i,
    {
        assert(entries@.take(i + 1).drop_last() == entries@.take(i as int));
        let line = text::join3("kanali       startup entry ", entries[i].name.as_str(), ": ");
        output.out(text::join(line.as_str(), entries[i].command.as_str()).as_str());
        i = i + 1;
    }
    assert(entries@.take(i as int) == entries@);
}

/// Reports the installation, the watcher, and the panel.
pub fn status(facts: &StatusFacts, output: &mut Output)
    ensures
        final(output)@ == status_lines(old(output)@, *facts),
{
    match &facts.binaries {
        Some(binaries) => {
            let ghost start = output@;
            let mut i: usize = 0;
            while i < binaries.len()
                invariant
                    i <= binaries@.len(),
                    output@ == binary_lines(start, binaries@.take(i as int)),
                decreases binaries@.len() - i,
            {
                assert(binaries@.take(i + 1).drop_last() == binaries@.take(i as int));
                output.out(binary_text(&binaries[i]).as_str());
                i = i + 1;
            }
            assert(binaries@.take(i as int) == binaries@);
        },
        None => output.out("install dir  unknown (LOCALAPPDATA is not set)"),
    }
    match &facts.logon {
        Ok(Some(command)) => output.out(text::join("logon entry  ", command.as_str()).as_str()),
        Ok(None) => output.out("logon entry  none"),
        Err(error) => output.out(text::join("logon entry  unreadable: ", error.as_str()).as_str()),
    }
    match &facts.start_menu {
        Some(link) => output.out(text::join("start menu   ", link.as_str()).as_str()),
        None => output.out("start menu   none"),
    }
    match &facts.kanali {
        Ok(entries) => {
            if entries.len() == 0 {
                output.out("kanali       no startup entry");
            } else {
                entry_report(entries, output);
            }
        },
        Err(error) => output.out(text::join("kanali       unreadable: ", error.as_str()).as_str()),
    }
    let watcher = match &facts.watcher {
        WatcherFacts::Absent => "not running".to_owned(),
        WatcherFacts::Silent => "running, not answering".to_owned(),
        WatcherFacts::Answering(state) => text::join("running: ", state.label()),
    };
    output.out(text::join("watcher      ", watcher.as_str()).as_str());
    match &facts.panel {
        Ok(Discovery::One(path)) => output.out(
            text::join("panel        present at ", path.as_str()).as_str(),
        ),
        Ok(Discovery::Absent) => output.out("panel        not present"),
        Ok(Discovery::Several(paths)) => {
            let count = text::number(paths.len() as u128);
            output.out(text::join3("panel        ", count.as_str(), " present").as_str());
        },
        Err(error) => output.out(
            text::join("panel        discovery failed: ", error.as_str()).as_str(),
        ),
    }
}

// ---------------------------------------------------------------------------
// Laws.
// ---------------------------------------------------------------------------

/// A step of an installation that fails ends it, but for a watcher that would
/// not stop; one that succeeds or has nothing to do never does.
pub proof fn failed_step_ends_the_installation(
    step: InstallStep,
    plan: InstallPlan,
    outcome: Outcome,
    lines: Seq<LineView>,
)
    ensures
        install_progress(step, plan, outcome, lines).0 == !(outcome is Failed
            && !(step is StopWatcher)),
{
}

/// An uninstallation goes on past every failure but that of the logon entry,
/// and a failure once remembered is not forgotten.
pub proof fn uninstallation_remembers_failures(
    u: Uninstall,
    step: UninstallStep,
    path: Seq<char>,
    outcome: Outcome,
    lines: Seq<LineView>,
)
    ensures
        ({
            let (go_on, after, _) = uninstall_progress(u, step, path, outcome, lines);
            &&& go_on == !(outcome is Failed && step is LogonEntry)
            &&& u.failed ==> after.failed
            &&& outcome is Failed && !(step is StopWatcher) ==> after.failed
            &&& !(outcome is Failed) ==> after.failed == u.failed
        }),
{
}

/// What an installation leaves on the machine, and the log that the watcher
/// keeps beside it.
pub enum Piece {
    Program,
    WindowlessProgram,
    IconFile,
    StartMenuEntry,
    LogonEntry,
    AppsEntry,
    SearchPathEntry,
    RunningWatcher,
    Log,
}

/// The file in the installation directory that a piece is, if it is one.
pub open spec fn piece_file(piece: Piece) -> Option<Seq<char>> {
    match piece {
        Piece::Program => Some(CONSOLE_BINARY@),
        Piece::WindowlessProgram => Some(WATCHER_BINARY@),
        Piece::IconFile => Some(ICON_FILE@),
        Piece::Log => Some(LOG_FILE@),
        _ => None,
    }
}

/// The piece that a step of an installation adds; nothing where it stops the
/// running watcher.
pub open spec fn added_piece(step: InstallStep) -> Option<Piece> {
    match step {
        InstallStep::StopWatcher => None,
        InstallStep::CopyProgram => Some(Piece::Program),
        InstallStep::WriteWatcher => Some(Piece::WindowlessProgram),
        InstallStep::WriteIcon => Some(Piece::IconFile),
        InstallStep::StartMenu => Some(Piece::StartMenuEntry),
        InstallStep::LogonEntry => Some(Piece::LogonEntry),
        InstallStep::AppsEntry => Some(Piece::AppsEntry),
        InstallStep::SearchPath => Some(Piece::SearchPathEntry),
        InstallStep::StartWatcher => Some(Piece::RunningWatcher),
    }
}

/// The machine after a step of an installation was done.
pub open spec fn with_step_done(step: InstallStep, machine: Set<Piece>) -> Set<Piece> {
    match added_piece(step) {
        Some(piece) => machine.insert(piece),
        None => machine.remove(Piece::RunningWatcher),
    }
}

/// The piece that a step of an uninstallation takes away.
pub open spec fn removed_piece(step: UninstallStep) -> Piece {
    match step {
        UninstallStep::StopWatcher => Piece::RunningWatcher,
        UninstallStep::LogonEntry => Piece::LogonEntry,
        UninstallStep::AppsEntry => Piece::AppsEntry,
        UninstallStep::SearchPath => Piece::SearchPathEntry,
        UninstallStep::StartMenu => Piece::StartMenuEntry,
        UninstallStep::DeleteProgram => Piece::Program,
        UninstallStep::DeleteWatcher => Piece::WindowlessProgram,
        UninstallStep::DeleteIcon => Piece::IconFile,
    }
}

/// How many steps of an installation are left from this one on.
pub open spec fn install_steps_left(step: InstallStep) -> nat {
    match step {
        InstallStep::StopWatcher => 9,
        InstallStep::CopyProgram => 8,
        InstallStep::WriteWatcher => 7,
        InstallStep::WriteIcon => 6,
        InstallStep::StartMenu => 5,
        InstallStep::LogonEntry => 4,
        InstallStep::AppsEntry => 3,
        InstallStep::SearchPath => 2,
        InstallStep::StartWatcher => 1,
    }
}

/// How many steps of an uninstallation are left from this one on.
pub open spec fn uninstall_steps_left(step: UninstallStep) -> nat {
    match step {
        UninstallStep::StopWatcher => 8,
        UninstallStep::LogonEntry => 7,
        UninstallStep::AppsEntry => 6,
        UninstallStep::SearchPath => 5,
        UninstallStep::StartMenu => 4,
        UninstallStep::DeleteProgram => 3,
        UninstallStep::DeleteWatcher => 2,
        UninstallStep::DeleteIcon => 1,
    }
}

/// An installation from `step` on, whose steps come out as `outcomes` say: how
/// the command exits, and what is on the machine then.
pub open spec fn install_run(
    step: InstallStep,
    plan: InstallPlan,
    outcomes: spec_fn(InstallStep) -> Outcome,
    machine: Set<Piece>,
) -> (u8, Set<Piece>)
    decreases install_steps_left(step),
{
    let (go_on, _) = install_progress(step, plan, outcomes(step), Seq::empty());
    let after = if outcomes(step) is Done {
        with_step_done(step, machine)
    } else {
        machine
    };
    match install_after(step, go_on) {
        Ok(next) => install_run(next, plan, outcomes, after),
        Err(code) => (code, after),
    }
}

/// An uninstallation from `step` on, whose steps come out as `outcomes` say: how
/// it stands at its end, and what is on the machine then.
pub open spec fn uninstall_run(
    u: Uninstall,
    step: UninstallStep,
    outcomes: spec_fn(UninstallStep) -> Outcome,
    machine: Set<Piece>,
) -> (Uninstall, Set<Piece>)
    decreases uninstall_steps_left(step),
{
    let (go_on, then, _) = uninstall_progress(
        u,
        step,
        Seq::empty(),
        outcomes(step),
        Seq::empty(),
    );
    let after = if outcomes(step) is Done {
        machine.remove(removed_piece(step))
    } else {
        machine
    };
    match next_uninstall_step(step) {
        Some(next) => if go_on {
            uninstall_run(then, next, outcomes, after)
        } else {
            (then, after)
        },
        None => (then, after),
    }
}

/// Whether a step of an installation on `machine` came out as it may without
/// failing: it was done, or there was nothing to do since its piece was there
/// already. There may be no watcher to stop, and one is there already to be
/// started only if it was not stopped.
pub open spec fn install_step_held(
    step: InstallStep,
    outcomes: spec_fn(InstallStep) -> Outcome,
    machine: Set<Piece>,
) -> bool {
    match outcomes(step) {
        Outcome::Done(_) => true,
        Outcome::Unneeded => match added_piece(step) {
            Some(piece) => machine.contains(piece) && (step is StartWatcher ==> !(outcomes(
                InstallStep::StopWatcher,
            ) is Done)),
            None => true,
        },
        Outcome::Failed(_) => false,
    }
}

/// An installation none of whose steps fails leaves every piece on the machine,
/// does not touch the log, and exits well; a step has nothing to do only where
/// its piece was there already, or where no watcher ran.
pub proof fn installation_adds_every_piece(
    plan: InstallPlan,
    outcomes: spec_fn(InstallStep) -> Outcome,
    machine: Set<Piece>,
)
    requires
        forall|step: InstallStep| #[trigger] install_step_held(step, outcomes, machine),
    ensures
        ({
            let (code, after) = install_run(InstallStep::StopWatcher, plan, outcomes, machine);
            &&& code == EXIT_SUCCESS
            &&& forall|piece: Piece| !(piece is Log) ==> #[trigger] after.contains(piece)
            &&& after.contains(Piece::Log) == machine.contains(Piece::Log)
        }),
{
    reveal_with_fuel(install_run, 9);
    lemma_installation_leaves_the_log(InstallStep::StopWatcher, plan, outcomes, machine);
    assert(install_step_held(InstallStep::StopWatcher, outcomes, machine));
    assert(install_step_held(InstallStep::CopyProgram, outcomes, machine));
    assert(install_step_held(InstallStep::WriteWatcher, outcomes, machine));
    assert(install_step_held(InstallStep::WriteIcon, outcomes, machine));
    assert(install_step_held(InstallStep::StartMenu, outcomes, machine));
    assert(install_step_held(InstallStep::LogonEntry, outcomes, machine));
    assert(install_step_held(InstallStep::AppsEntry, outcomes, machine));
    assert(install_step_held(InstallStep::SearchPath, outcomes, machine));
    assert(install_step_held(InstallStep::StartWatcher, outcomes, machine));
    let after = install_run(InstallStep::StopWatcher, plan, outcomes, machine).1;
    assert(after.contains(Piece::RunningWatcher));
    assert forall|piece: Piece| !(piece is Log) implies #[trigger] after.contains(piece) by {
        match piece {
            Piece::Program => {},
            Piece::WindowlessProgram => {},
            Piece::IconFile => {},
            Piece::StartMenuEntry => {},
            Piece::LogonEntry => {},
            Piece::AppsEntry => {},
            Piece::SearchPathEntry => {},
            _ => {},
        }
    }
}

proof fn lemma_installation_leaves_the_log(
    step: InstallStep,
    plan: InstallPlan,
    outcomes: spec_fn(InstallStep) -> Outcome,
    machine: Set<Piece>,
)
    ensures
        install_run(step, plan, outcomes, machine).1.contains(Piece::Log) == machine.contains(
            Piece::Log,
        ),
    decreases install_steps_left(step),
{
    let (go_on, _) = install_progress(step, plan, outcomes(step), Seq::empty());
    let after = if outcomes(step) is Done {
        with_step_done(step, machine)
    } else {
        machine
    };
    if let Ok(next) = install_after(step, go_on) {
        lemma_installation_leaves_the_log(next, plan, outcomes, after);
    }
}

/// Uninstalling undoes installing. However the installation came out, an
/// uninstallation none of whose steps fails leaves no piece of it behind, keeps
/// the log as it was, and exits well; a step has nothing to do only where its
/// piece is not on the machine.
pub proof fn uninstalling_undoes_installing(
    plan: InstallPlan,
    installed: spec_fn(InstallStep) -> Outcome,
    uninstalled: spec_fn(UninstallStep) -> Outcome,
    machine: Set<Piece>,
)
    requires
        forall|step: UninstallStep| !(#[trigger] uninstalled(step) is Failed),
        forall|step: UninstallStep| #[trigger]
            uninstalled(step) is Unneeded ==> !install_run(
                InstallStep::StopWatcher,
                plan,
                installed,
                machine,
            ).1.contains(removed_piece(step)),
    ensures
        ({
            let there = install_run(InstallStep::StopWatcher, plan, installed, machine).1;
            let (end, left) = uninstall_run(
                Uninstall { failed: false },
                UninstallStep::StopWatcher,
                uninstalled,
                there,
            );
            &&& !end.failed
            &&& forall|piece: Piece| !(piece is Log) ==> !#[trigger] left.contains(piece)
            &&& left.contains(Piece::Log) == machine.contains(Piece::Log)
        }),
{
    reveal_with_fuel(uninstall_run, 8);
    lemma_installation_leaves_the_log(InstallStep::StopWatcher, plan, installed, machine);
    let there = install_run(InstallStep::StopWatcher, plan, installed, machine).1;
    let u = Uninstall { failed: false };
    let left = uninstall_run(u, UninstallStep::StopWatcher, uninstalled, there).1;
    assert forall|piece: Piece| !(piece is Log) implies !#[trigger] left.contains(piece) by {
        let step = match piece {
            Piece::RunningWatcher => UninstallStep::StopWatcher,
            Piece::LogonEntry => UninstallStep::LogonEntry,
            Piece::AppsEntry => UninstallStep::AppsEntry,
            Piece::SearchPathEntry => UninstallStep::SearchPath,
            Piece::StartMenuEntry => UninstallStep::StartMenu,
            Piece::Program => UninstallStep::DeleteProgram,
            Piece::WindowlessProgram => UninstallStep::DeleteWatcher,
            _ => UninstallStep::DeleteIcon,
        };
        assert(removed_piece(step) == piece);
        assert(uninstalled(step) is Done || !there.contains(piece));
    }
}

/// A step deletes the file of the piece it takes away and no other, and none
/// deletes the log.
pub proof fn only_installed_files_are_deleted(step: UninstallStep)
    ensures
        deleted_file(step) == piece_file(removed_piece(step)),
        deleted_file(step) != Some(LOG_FILE@),
{
    reveal_strlit("ezrama.log");
    reveal_strlit("ezrama.exe");
    reveal_strlit("ezramaw.exe");
    reveal_strlit("ezrama.ico");
    assert(CONSOLE_BINARY@[7] != LOG_FILE@[7]);
    assert(WATCHER_BINARY@[6] != LOG_FILE@[6]);
    assert(ICON_FILE@[7] != LOG_FILE@[7]);
}

/// The steps of an installation in their order: the watcher is stopped before
/// anything is written, the files are there before anything refers to them, and
/// the watcher is started when all is done.
pub open spec fn install_order() -> Seq<InstallStep> {
    seq![
        InstallStep::StopWatcher,
        InstallStep::CopyProgram,
        InstallStep::WriteWatcher,
        InstallStep::WriteIcon,
        InstallStep::StartMenu,
        InstallStep::LogonEntry,
        InstallStep::AppsEntry,
        InstallStep::SearchPath,
        InstallStep::StartWatcher,
    ]
}

/// The steps of an uninstallation in their order: the watcher is stopped before
/// anything is taken away, and the files go last, after all that refers to them.
pub open spec fn uninstall_order() -> Seq<UninstallStep> {
    seq![
        UninstallStep::StopWatcher,
        UninstallStep::LogonEntry,
        UninstallStep::AppsEntry,
        UninstallStep::SearchPath,
        UninstallStep::StartMenu,
        UninstallStep::DeleteProgram,
        UninstallStep::DeleteWatcher,
        UninstallStep::DeleteIcon,
    ]
}

/// Each step is followed by the next one in the order, and the last by none;
/// an installation that goes on exits well only after the last.
pub proof fn steps_follow_their_order(i: int)
    ensures
        0 <= i < 8 ==> next_install_step(install_order()[i]) == Some(install_order()[i + 1]),
        next_install_step(install_order()[8]) is None,
        0 <= i < 7 ==> next_uninstall_step(uninstall_order()[i]) == Some(uninstall_order()[i + 1]),
        next_uninstall_step(uninstall_order()[7]) is None,
        0 <= i < 9 ==> {
            &&& install_after(install_order()[i], false) == Err::<InstallStep, u8>(1)
            &&& install_after(install_order()[i], true) == if i < 8 {
                Ok::<InstallStep, u8>(install_order()[i + 1])
            } else {
                Err::<InstallStep, u8>(0)
            }
        },
{
}

/// An installation plans to copy this program under its own name into the
/// installation directory; without a directory, or without knowing where this
/// program is, it says so and exits with 1.
pub proof fn installations_need_two_places(
    directory: Option<Seq<char>>,
    source: Option<Seq<char>>,
    lines: Seq<LineView>,
)
    ensures
        ({
            let (plan, printed) = planned(directory, source, lines);
            match (directory, source) {
                (Some(directory), Some(source)) => plan == Ok::<
                    (Seq<char>, Seq<char>, Seq<char>),
                    u8,
                >((directory, source, path_in(directory, "ezrama.exe"@))) && printed == lines,
                (None, _) => plan == Err::<(Seq<char>, Seq<char>, Seq<char>), u8>(1) && printed
                    == lines.push(
                    LineView::Problem(
                        "LOCALAPPDATA is not set; cannot choose an installation directory"@,
                    ),
                ),
                (_, None) => plan == Err::<(Seq<char>, Seq<char>, Seq<char>), u8>(1) && printed
                    == lines.push(
                    LineView::Problem("cannot locate this program's own directory"@),
                ),
            }
        }),
{
}

} // verus!
