//! The `probe` command: which call it makes next, what it says, and how it
//! exits.

use vstd::prelude::*;

use crate::cli::report;
use crate::cli::report::{complained, listed, said, LineView, Output};
use crate::cli::{EXIT_BUSY, EXIT_FAILURE, EXIT_SUCCESS};
use crate::overlapped::Disarm;
use crate::text;
use crate::time::Duration;
use crate::transport::ReadError;
use crate::usbprint;
use crate::usbprint::{Discovery, OpenError};

verus! {

/// How long the transfer check lets its read wait.
pub const CHECK_WAIT: Duration = 300_000_000;

/// What a probe does next.
#[derive(Debug, PartialEq, Eq)]
pub enum ProbeAction {
    /// List the printer-class interfaces.
    List,
    /// Look for the display.
    Find,
    /// Open the display at this path.
    Open(String),
    /// Open it once more while it is held, and let go of what that gives.
    OpenAgain,
    /// Read with this timeout. Nothing is written to the device.
    Read(Duration),
    /// Take down the armed read.
    Disarm,
    /// Close the display.
    Close,
    /// The probe is over, and the command exits with this.
    Finish(u8),
}

/// What a [`ProbeAction`] says.
pub enum ActionView {
    List,
    Find,
    Open(Seq<char>),
    OpenAgain,
    Read(Duration),
    Disarm,
    Close,
    Finish(u8),
}

impl View for ProbeAction {
    type V = ActionView;

    open spec fn view(&self) -> ActionView {
        match *self {
            ProbeAction::List => ActionView::List,
            ProbeAction::Find => ActionView::Find,
            ProbeAction::Open(path) => ActionView::Open(path@),
            ProbeAction::OpenAgain => ActionView::OpenAgain,
            ProbeAction::Read(timeout) => ActionView::Read(timeout),
            ProbeAction::Disarm => ActionView::Disarm,
            ProbeAction::Close => ActionView::Close,
            ProbeAction::Finish(code) => ActionView::Finish(code),
        }
    }
}

/// How what was done last has ended.
#[derive(Debug, PartialEq, Eq)]
pub enum ProbeEvent {
    Listed(Result<Vec<String>, String>),
    Found(Result<Discovery, String>),
    /// The display was opened, or why it was not, with the system's
    /// description of that.
    Opened(Option<OpenError>, String),
    /// The same of the second open.
    OpenedAgain(Option<OpenError>, String),
    /// What the read came to, how long it took, and whether a read is armed.
    Read(Result<Vec<u8>, ReadError>, Duration, bool),
    /// How the read was taken down, whether one is armed, and why the
    /// transport is lost, if it is.
    Disarmed(Disarm, bool, Option<String>),
    Closed,
}

/// How far a probe has come.
#[derive(Debug, Clone, Copy, PartialEq, Eq, Structural)]
pub enum ProbePhase {
    Listing,
    Finding,
    Opening,
    OpeningAgain,
    Reading,
    Disarming,
    Closing,
    Over,
}

/// A probe under way.
#[derive(Debug, Clone, Copy, PartialEq, Eq, Structural)]
pub struct Probe {
    /// Whether to list the interfaces and to check exclusivity.
    pub verbose: bool,
    /// Whether to check transfers.
    pub io_check: bool,
    pub phase: ProbePhase,
    /// How the command exits once the display is closed.
    pub code: u8,
}

/// What a step comes to: the next action, the probe, and the lines.
pub type ProbeStep = (ActionView, Probe, Seq<LineView>);

/// Whether an event is one that is waited for.
pub open spec fn probe_awaits(p: Probe, event: ProbeEvent) -> bool {
    match p.phase {
        ProbePhase::Listing => event is Listed,
        ProbePhase::Finding => event is Found,
        ProbePhase::Opening => event is Opened,
        ProbePhase::OpeningAgain => event is OpenedAgain,
        ProbePhase::Reading => event is Read,
        ProbePhase::Disarming => event is Disarmed,
        ProbePhase::Closing => event is Closed,
        ProbePhase::Over => false,
    }
}

/// A probe that is over.
pub open spec fn probe_over(p: Probe, code: u8, lines: Seq<LineView>) -> ProbeStep {
    (ActionView::Finish(code), Probe { phase: ProbePhase::Over, ..p }, lines)
}

/// A probe that closes the display and exits with `code` then.
pub open spec fn probe_closes(p: Probe, code: u8, lines: Seq<LineView>) -> ProbeStep {
    (ActionView::Close, Probe { phase: ProbePhase::Closing, code, ..p }, lines)
}

/// What follows once the display is open and, if that was asked for, its
/// exclusivity checked.
pub open spec fn probe_checks(p: Probe, lines: Seq<LineView>) -> ProbeStep {
    if p.io_check {
        (ActionView::Read(CHECK_WAIT), Probe { phase: ProbePhase::Reading, ..p }, lines)
    } else {
        probe_closes(p, EXIT_SUCCESS, lines)
    }
}

/// What is said about whether a read is armed.
pub open spec fn armed_line(armed: bool) -> Seq<char> {
    "read still armed: "@ + if armed {
        "true"@
    } else {
        "false"@
    }
}

/// What a probe starts with.
pub open spec fn probe_started(verbose: bool, io_check: bool) -> (ActionView, Probe) {
    if verbose {
        (
            ActionView::List,
            Probe { verbose, io_check, phase: ProbePhase::Listing, code: EXIT_SUCCESS },
        )
    } else {
        (
            ActionView::Find,
            Probe { verbose, io_check, phase: ProbePhase::Finding, code: EXIT_SUCCESS },
        )
    }
}

/// What follows an event.
pub open spec fn probe_next(p: Probe, event: ProbeEvent, lines: Seq<LineView>) -> ProbeStep {
    match event {
        ProbeEvent::Listed(Ok(paths)) => (
            ActionView::Find,
            Probe { phase: ProbePhase::Finding, ..p },
            listed(
                said(lines, "printer-class interfaces present: "@ + text::decimal(paths@.len())),
                paths@,
            ),
        ),
        ProbeEvent::Listed(Err(reason)) => probe_over(
            p,
            EXIT_FAILURE,
            complained(lines, "probe failed: "@ + reason@),
        ),
        ProbeEvent::Found(found) => {
            let (result, more) = report::located(found, lines);
            match result {
                Ok(path) => (
                    ActionView::Open(path),
                    Probe { phase: ProbePhase::Opening, ..p },
                    more,
                ),
                Err(code) => probe_over(p, code, more),
            }
        },
        ProbeEvent::Opened(Some(error), message) => probe_over(
            p,
            if error is Busy {
                EXIT_BUSY
            } else {
                EXIT_FAILURE
            },
            complained(lines, usbprint::open_error_text(error, message@)),
        ),
        ProbeEvent::Opened(None, _) => {
            let more = said(lines, "opened for exclusive use"@);
            if p.verbose {
                (
                    ActionView::OpenAgain,
                    Probe { phase: ProbePhase::OpeningAgain, ..p },
                    more,
                )
            } else {
                probe_checks(p, more)
            }
        },
        ProbeEvent::OpenedAgain(refusal, message) => probe_checks(
            p,
            said(lines, report::second_open_line(refusal, message@)),
        ),
        ProbeEvent::Read(result, elapsed, armed) => {
            let (go_on, more) = report::armed_read(result, elapsed, lines);
            if go_on {
                (
                    ActionView::Disarm,
                    Probe { phase: ProbePhase::Disarming, ..p },
                    said(more, armed_line(armed)),
                )
            } else {
                probe_closes(p, EXIT_FAILURE, more)
            }
        },
        ProbeEvent::Disarmed(disarm, armed, lost) => {
            let (go_on, more) = report::disarmed(disarm, lines);
            let checked = said(more, armed_line(armed));
            if !go_on {
                probe_closes(p, EXIT_FAILURE, more)
            } else {
                match lost {
                    None => probe_closes(p, EXIT_SUCCESS, checked),
                    Some(reason) => probe_closes(
                        p,
                        EXIT_FAILURE,
                        complained(checked, "transport lost: "@ + reason@),
                    ),
                }
            }
        },
        ProbeEvent::Closed => probe_over(p, p.code, said(lines, "closed"@)),
    }
}

impl Probe {
    /// Starts a probe.
    pub fn start(verbose: bool, io_check: bool) -> (started: (ProbeAction, Self))
        ensures
            (started.0@, started.1) == probe_started(verbose, io_check),
    {
        if verbose {
            (
                ProbeAction::List,
                Probe { verbose, io_check, phase: ProbePhase::Listing, code: EXIT_SUCCESS },
            )
        } else {
            (
                ProbeAction::Find,
                Probe { verbose, io_check, phase: ProbePhase::Finding, code: EXIT_SUCCESS },
            )
        }
    }

    fn over(&mut self, code: u8) -> (action: ProbeAction)
        ensures
            forall|lines: Seq<LineView>| #[trigger]
                probe_over(*old(self), code, lines) == (action@, *final(self), lines),
    {
        self.phase = ProbePhase::Over;
        ProbeAction::Finish(code)
    }

    fn closes(&mut self, code: u8) -> (action: ProbeAction)
        ensures
            forall|lines: Seq<LineView>| #[trigger]
                probe_closes(*old(self), code, lines) == (action@, *final(self), lines),
    {
        self.phase = ProbePhase::Closing;
        self.code = code;
        ProbeAction::Close
    }

    fn checks(&mut self) -> (action: ProbeAction)
        ensures
            forall|lines: Seq<LineView>| #[trigger]
                probe_checks(*old(self), lines) == (action@, *final(self), lines),
    {
        let ghost p = *self;
        if self.io_check {
            self.phase = ProbePhase::Reading;
            ProbeAction::Read(CHECK_WAIT)
        } else {
            let action = self.closes(EXIT_SUCCESS);
            assert forall|lines: Seq<LineView>| #[trigger] probe_checks(p, lines) == (
                action@,
                *self,
                lines,
            ) by {
                assert(probe_closes(p, EXIT_SUCCESS, lines) == (action@, *self, lines));
            }
            action
        }
    }

    /// What follows an event.
    pub fn next(&mut self, event: ProbeEvent, output: &mut Output) -> (action: ProbeAction)
        requires
            probe_awaits(*old(self), event),
        ensures
            (action@, *final(self), final(output)@) == probe_next(
                *old(self),
                event,
                old(output)@,
            ),
    {
        let ghost p = *self;
        match event {
            ProbeEvent::Listed(Ok(paths)) => {
                report::interfaces(&paths, output);
                self.phase = ProbePhase::Finding;
                ProbeAction::Find
            },
            ProbeEvent::Listed(Err(reason)) => {
                output.problem(text::join("probe failed: ", reason.as_str()).as_str());
                let action = self.over(EXIT_FAILURE);
                assert(probe_over(p, EXIT_FAILURE, output@) == (action@, *self, output@));
                action
            },
            ProbeEvent::Found(found) => match report::locate(found, output) {
                Ok(path) => {
                    self.phase = ProbePhase::Opening;
                    ProbeAction::Open(path)
                },
                Err(code) => {
                    let action = self.over(code);
                    assert(probe_over(p, code, output@) == (action@, *self, output@));
                    action
                },
            },
            ProbeEvent::Opened(Some(error), message) => {
                let code = report::open_failed(&error, message.as_str(), output);
                let action = self.over(code);
                assert(probe_over(p, code, output@) == (action@, *self, output@));
                action
            },
            ProbeEvent::Opened(None, _) => {
                output.out("opened for exclusive use");
                if self.verbose {
                    self.phase = ProbePhase::OpeningAgain;
                    ProbeAction::OpenAgain
                } else {
                    let action = self.checks();
                    assert(probe_checks(p, output@) == (action@, *self, output@));
                    action
                }
            },
            ProbeEvent::OpenedAgain(refusal, message) => {
                report::second_open(&refusal, message.as_str(), output);
                let action = self.checks();
                assert(probe_checks(p, output@) == (action@, *self, output@));
                action
            },
            ProbeEvent::Read(result, elapsed, armed) => {
                if report::read_outcome(&result, elapsed, output) {
                    report::still_armed(armed, output);
                    self.phase = ProbePhase::Disarming;
                    ProbeAction::Disarm
                } else {
                    let action = self.closes(EXIT_FAILURE);
                    assert(probe_closes(p, EXIT_FAILURE, output@) == (action@, *self, output@));
                    action
                }
            },
            ProbeEvent::Disarmed(disarm, armed, lost) => {
                if report::disarm_outcome(&disarm, output) {
                    report::still_armed(armed, output);
                    let code = report::check_end(&lost, output);
                    let action = self.closes(code);
                    assert(probe_closes(p, code, output@) == (action@, *self, output@));
                    action
                } else {
                    let action = self.closes(EXIT_FAILURE);
                    assert(probe_closes(p, EXIT_FAILURE, output@) == (action@, *self, output@));
                    action
                }
            },
            ProbeEvent::Closed => {
                output.out("closed");
                let code: u8 = self.code;
                let action = self.over(code);
                assert(probe_over(p, code, output@) == (action@, *self, output@));
                action
            },
        }
    }
}

// ---------------------------------------------------------------------------
// Laws.
// ---------------------------------------------------------------------------

/// Whether the display is held open.
pub open spec fn holds_display(p: Probe) -> bool {
    p.phase is OpeningAgain || p.phase is Reading || p.phase is Disarming || p.phase is Closing
}

/// A display that was opened is closed before the probe is over, whatever the
/// checks came to; and a probe that never had it ends with a failure.
pub proof fn probe_closes_what_it_opens(p: Probe, event: ProbeEvent, lines: Seq<LineView>)
    requires
        probe_awaits(p, event),
    ensures
        ({
            let (action, q, _) = probe_next(p, event, lines);
            &&& holds_display(p) && !holds_display(q) ==> p.phase is Closing
            &&& action is Finish <==> q.phase is Over
            &&& action is Close <==> q.phase is Closing
            &&& action matches ActionView::Finish(code) ==> if p.phase is Closing {
                code == p.code
            } else {
                code != EXIT_SUCCESS
            }
        }),
{
}

/// A probe does what was asked for: with detail it lists the interfaces first
/// and opens the display a second time; with the transfer check it reads for
/// 300 ms at most and takes the read down again; it does neither otherwise.
pub proof fn probes_check_what_was_asked(p: Probe, event: ProbeEvent, lines: Seq<LineView>)
    requires
        probe_awaits(p, event),
    ensures
        ({
            let (action, q, _) = probe_next(p, event, lines);
            let (first, start) = probe_started(p.verbose, p.io_check);
            &&& first is List <==> p.verbose
            &&& first is Find <==> !p.verbose
            &&& start.verbose == p.verbose && start.io_check == p.io_check
            &&& q.verbose == p.verbose && q.io_check == p.io_check
            &&& event matches ProbeEvent::Opened(error, _) ==> {
                &&& error is None && p.verbose <==> action is OpenAgain
                &&& error is None && !p.verbose && p.io_check <==> action == ActionView::Read(
                    300_000_000,
                )
                &&& error is None && !p.verbose && !p.io_check <==> action is Close
            }
            &&& event is OpenedAgain ==> if p.io_check {
                action == ActionView::Read(300_000_000)
            } else {
                action is Close
            }
            &&& event matches ProbeEvent::Read(result, _, _) ==> (result is Ok <==> action
                is Disarm)
        }),
{
}

/// A probe exits with 0 exactly if the display was found and opened and every
/// check went well; with 3 if there are several displays, with 4 if another
/// program holds it, and with 1 otherwise.
pub proof fn probes_exit_by_what_they_found(p: Probe, event: ProbeEvent, lines: Seq<LineView>)
    requires
        probe_awaits(p, event),
    ensures
        ({
            let (action, q, _) = probe_next(p, event, lines);
            match event {
                ProbeEvent::Listed(result) => result is Err <==> action == ActionView::Finish(1),
                ProbeEvent::Found(Ok(Discovery::One(path))) => action == ActionView::Open(path@),
                ProbeEvent::Found(Ok(Discovery::Several(_))) => action == ActionView::Finish(3),
                ProbeEvent::Found(_) => action == ActionView::Finish(1),
                ProbeEvent::Opened(Some(OpenError::Busy(_)), _) => action == ActionView::Finish(4),
                ProbeEvent::Opened(Some(_), _) => action == ActionView::Finish(1),
                ProbeEvent::Opened(None, _) => action is Close ==> q.code == 0,
                ProbeEvent::OpenedAgain(_, _) => action is Close ==> q.code == 0,
                ProbeEvent::Read(result, _, _) => result is Err ==> action is Close && q.code == 1,
                ProbeEvent::Disarmed(disarm, _, lost) => action is Close && (q.code == 0 <==> disarm
                    !is Abandoned && lost is None) && (q.code == 0 || q.code == 1),
                ProbeEvent::Closed => action == ActionView::Finish(p.code),
            }
        }),
{
}

} // verus!
