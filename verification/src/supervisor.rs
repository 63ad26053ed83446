//! The resident watcher's supervisor: which mode it is in, what each event
//! means there, and when to try the display again. The machine is behind
//! [`Backend`], and whoever drives the supervisor receives the events for it,
//! so the policy runs, and is tested, anywhere.

pub mod laws;
pub mod testing;

use vstd::prelude::*;

use crate::log::{LogView, Logger};
use crate::session::SessionError;
use crate::text;
use crate::time::{self, Duration};
use crate::watch::{Control, Directive, Event, Reconnect, State};

verus! {

/// What a look for the display found.
#[derive(Debug, PartialEq, Eq)]
pub enum Panel {
    /// Exactly one display, at this interface path.
    One(String),
    Absent,
    /// More than one display; the count.
    Several(usize),
}

/// Why a session start did not produce a session.
#[derive(Debug, PartialEq, Eq)]
pub enum StartError {
    /// An event cut the attempt short; nothing is wrong with the display.
    Interrupted,
    /// The attempt failed for this reason.
    Failed(String),
}

impl StartError {
    /// What [`StartError::describe`] says.
    pub open spec fn text(self) -> Seq<char> {
        match self {
            StartError::Interrupted => "session start interrupted"@,
            StartError::Failed(reason) => reason@,
        }
    }

    /// The error in words.
    pub fn describe(&self) -> (text: String)
        ensures
            text@ == self.text(),
    {
        match self {
            StartError::Interrupted => "session start interrupted".to_owned(),
            StartError::Failed(reason) => reason.clone(),
        }
    }
}

/// How a held session ended.
#[derive(Debug, PartialEq, Eq)]
pub enum Hold {
    /// Stopped on request after this many pings.
    Stopped { pings: u64 },
    /// Lost after this many pings.
    Lost { pings: u64, error: SessionError },
}

/// One call on the machine, with what came back. A call that was handed the
/// log says how it was `given` it and how it left it.
pub enum Call {
    StopRequested { stop: bool },
    ClearInterrupt,
    SetReleased { released: bool },
    Report { state: State },
    FindPanel { found: Result<Panel, String> },
    StartSession { path: Seq<char>, outcome: Result<(), StartError>, given: LogView, log: LogView },
    HoldSession { interval: Duration, verbose: bool, hold: Hold, given: LogView, log: LogView },
    StartKanali { started: bool, given: LogView, log: LogView },
}

/// What the supervisor needs from the machine.
pub trait Backend {
    /// Every call made so far, in order, with what came back.
    open spec fn calls(&self) -> Seq<Call> {
        arbitrary()
    }

    /// Whether a stop has been asked for outside the event channel.
    fn stop_requested(&mut self) -> (stop: bool)
        ensures
            final(self).calls() == old(self).calls().push(Call::StopRequested { stop }),
    ;

    /// Forgets a pending interrupt once its events have been handled.
    fn clear_interrupt(&mut self)
        ensures
            final(self).calls() == old(self).calls().push(Call::ClearInterrupt),
    ;

    /// Tells the machine whether the display is released on request.
    fn set_released(&mut self, released: bool)
        ensures
            final(self).calls() == old(self).calls().push(Call::SetReleased { released }),
    ;

    /// Reports the state the watcher is in.
    fn report(&mut self, state: State)
        ensures
            final(self).calls() == old(self).calls().push(Call::Report { state }),
    ;

    /// Looks for the display.
    fn find_panel(&mut self) -> (found: Result<Panel, String>)
        ensures
            final(self).calls() == old(self).calls().push(Call::FindPanel { found }),
    ;

    /// Opens the display at `path` and runs the session start, logging
    /// each step.
    fn start_session(&mut self, path: &str, log: &mut Logger) -> (outcome: Result<(), StartError>)
        ensures
            final(self).calls() == old(self).calls().push(
                Call::StartSession { path: path@, outcome, given: old(log)@, log: final(log)@ },
            ),
    ;

    /// Holds the started session until interrupted or lost, then releases
    /// it.
    fn hold_session(&mut self, interval: Duration, verbose: bool, log: &mut Logger) -> (hold: Hold)
        ensures
            final(self).calls() == old(self).calls().push(
                Call::HoldSession { interval, verbose, hold, given: old(log)@, log: final(log)@ },
            ),
    ;

    /// Starts KANALI, arranging for [`Event::KanaliClosed`] once it has
    /// exited. False when it could not be started.
    fn start_kanali(&mut self, log: &mut Logger) -> (started: bool)
        ensures
            final(self).calls() == old(self).calls().push(
                Call::StartKanali { started, given: old(log)@, log: final(log)@ },
            ),
    ;
}

/// What the supervisor wants of the event source next.
#[derive(Debug, Clone, Copy, PartialEq, Eq, Structural)]
pub enum Want {
    /// An event, if one is queued.
    Poll,
    /// An event, however long it takes.
    Wait,
    /// An event, if one comes within this time.
    WaitFor(Duration),
    /// Nothing more: the watch is over.
    Done,
}

/// What the event source gave.
#[derive(Debug, PartialEq, Eq)]
pub enum Got {
    /// An event.
    Event(Event),
    /// No event within the time that was allowed.
    Nothing,
    /// No event, and there will be none: the source is gone.
    Gone,
}

/// What the supervisor does with what it gets next.
#[derive(Debug, Clone, Copy, PartialEq, Eq, Structural)]
pub enum Phase {
    /// Queued events are handled before the next turn.
    Polling,
    /// A turn has ended; one event starts the next.
    Waiting,
    /// The watch is over.
    Over,
}

/// Keeps a session whenever the display is present, releases it on
/// request, and retries a failed start with growing pauses.
pub struct Supervisor<B: Backend> {
    pub backend: B,
    pub log: Logger,
    pub interval: Duration,
    pub verbose: bool,
    pub control: Control,
    pub reconnect: Reconnect,
    pub announced: Option<State>,
    pub phase: Phase,
}

// ---------------------------------------------------------------------------
// What a supervisor does, as a function of what the machine answered.
// ---------------------------------------------------------------------------

/// What a supervisor remembers, and every call it has made.
#[verifier::ext_equal]
pub struct Watch {
    pub control: Control,
    pub reconnect: Reconnect,
    pub announced: Option<State>,
    pub phase: Phase,
    pub interval: Duration,
    pub verbose: bool,
    pub log: LogView,
    pub calls: Seq<Call>,
}

impl<B: Backend> View for Supervisor<B> {
    type V = Watch;

    open spec fn view(&self) -> Watch {
        Watch {
            control: self.control,
            reconnect: self.reconnect,
            announced: self.announced,
            phase: self.phase,
            interval: self.interval,
            verbose: self.verbose,
            log: self.log@,
            calls: self.backend.calls(),
        }
    }
}

impl Watch {
    /// After one more call.
    pub open spec fn called(self, call: Call) -> Watch {
        Watch { calls: self.calls.push(call), ..self }
    }

    /// After one more line in the log.
    pub open spec fn said(self, line: Seq<char>) -> Watch {
        Watch { log: self.log.with(line), ..self }
    }

    /// With the log as a call left it.
    pub open spec fn with_log(self, log: LogView) -> Watch {
        Watch { log, ..self }
    }

    /// The next call in the record `o`, which begins with the calls made so
    /// far.
    pub open spec fn next(self, o: Seq<Call>) -> Call {
        o[self.calls.len() as int]
    }

    /// The pause before the next session start attempt.
    pub open spec fn delay(self) -> int {
        time::scaled(
            self.reconnect.unit as int,
            crate::watch::reconnect_units(self.reconnect.attempt),
        )
    }

    /// After one more attempt was counted.
    pub open spec fn counted(self) -> Watch {
        Watch {
            reconnect: Reconnect {
                attempt: if self.reconnect.attempt == u32::MAX {
                    u32::MAX
                } else {
                    (self.reconnect.attempt + 1) as u32
                },
                ..self.reconnect
            },
            ..self
        }
    }
}

/// What the log says of an event.
pub open spec fn event_line(event: Event) -> Seq<char> {
    match event {
        Event::Arrived(path) => "panel arrived: "@ + path@,
        Event::Removed(path) => "panel removed: "@ + path@,
        Event::Pause => "pause requested"@,
        Event::Resume => "resume requested"@,
        Event::OpenKanali => "KANALI requested"@,
        Event::KanaliClosed => "KANALI has exited"@,
        Event::StartupSet { enabled, result } => {
            let wording = if enabled {
                "on"@
            } else {
                "off"@
            };
            match result {
                Ok(changed) => if changed {
                    "start with Windows turned "@ + wording
                } else {
                    "start with Windows was already "@ + wording
                },
                Err(reason) => "start with Windows not changed: "@ + reason@,
            }
        },
        Event::Quit => "stop requested"@,
    }
}

/// The supervisor after an event was logged and applied.
pub open spec fn applied(w: Watch, event: Event) -> Watch {
    Watch { control: crate::watch::control_after(w.control, event), ..w.said(event_line(event)) }
}

/// The end of the watch.
pub open spec fn finished(w: Watch) -> Watch {
    Watch {
        phase: Phase::Over,
        ..w.called(Call::Report { state: State::Quitting }).said("watch stopping"@)
    }
}

/// The start of a round: a stop asked for elsewhere ends the watch, otherwise
/// the queued events come first.
pub open spec fn round_run(w: Watch, o: Seq<Call>) -> (Want, Watch) {
    let stop = w.next(o)->stop;
    let w1 = w.called(Call::StopRequested { stop });
    if stop {
        (Want::Done, finished(w1))
    } else {
        (Want::Poll, Watch { phase: Phase::Polling, ..w1 })
    }
}

/// What a turn asks for: `None` to go on with the next round at once, or the
/// wait that follows.
pub open spec fn paused_turn_run(w: Watch, o: Seq<Call>) -> (Option<Want>, Watch) {
    let w1 = w.called(Call::SetReleased { released: true });
    let asked = w1.control.launch_pending;
    let w2 = Watch { control: Control { launch_pending: false, ..w1.control }, ..w1 };
    let started = w2.next(o)->started;
    let log = w2.next(o)->StartKanali_log;
    let w3 = if asked {
        w2.called(Call::StartKanali { started, given: w2.log, log }).with_log(log)
    } else {
        w2
    };
    if asked && !started {
        (
            None,
            Watch {
                control: crate::watch::control_after(w3.control, Event::KanaliClosed),
                ..w3
            },
        )
    } else {
        let state = crate::watch::state_when_paused(w3.control);
        let w4 = w3.called(Call::Report { state });
        let w5 = if w4.announced == Some(state) {
            w4
        } else {
            Watch {
                announced: Some(state),
                ..w4.said(
                    if state is WaitingForKanali {
                        "paused until KANALI exits"@
                    } else {
                        "paused: the panel is released until resume"@
                    },
                )
            }
        };
        (Some(Want::Wait), w5)
    }
}

/// The hold of a started session.
pub open spec fn holding_run(w: Watch, o: Seq<Call>) -> (Option<Want>, Watch) {
    let w1 = Watch { reconnect: Reconnect { attempt: 0, ..w.reconnect }, ..w }.called(
        Call::Report { state: State::Active },
    ).said("holding: ping every "@ + text::decimal(w.interval as nat / 1_000_000) + " ms"@);
    let hold = w1.next(o)->hold;
    let log = w1.next(o)->HoldSession_log;
    let w2 = w1.called(
        Call::HoldSession {
            interval: w1.interval,
            verbose: w1.verbose,
            hold,
            given: w1.log,
            log,
        },
    ).with_log(log);
    match hold {
        Hold::Stopped { pings } => (
            None,
            w2.said("session released after "@ + text::decimal(pings as nat) + " pings"@),
        ),
        Hold::Lost { pings, error } => (
            Some(Want::WaitFor(w2.delay() as u128)),
            w2.counted().called(Call::Report { state: State::Connecting }).said(
                "session lost after "@ + text::decimal(pings as nat) + " pings: "@ + error.text()
                    + "; retrying in "@ + text::decimal(w2.delay() as nat / 1_000_000_000) + " s"@,
            ),
        ),
    }
}

/// The session start on the one display there is.
pub open spec fn connecting_run(w: Watch, o: Seq<Call>, path: Seq<char>) -> (Option<Want>, Watch) {
    let w1 = w.called(Call::Report { state: State::Connecting });
    let outcome = w1.next(o)->outcome;
    let log = w1.next(o)->StartSession_log;
    let w2 = w1.called(Call::StartSession { path, outcome, given: w1.log, log }).with_log(log);
    match outcome {
        Ok(()) => holding_run(w2, o),
        Err(StartError::Interrupted) => (None, w2.said("session start interrupted"@)),
        Err(StartError::Failed(reason)) => (
            Some(Want::WaitFor(w2.delay() as u128)),
            w2.counted().said(
                reason@ + "; retrying in "@ + text::decimal(w2.delay() as nat / 1_000_000_000)
                    + " s"@,
            ),
        ),
    }
}

/// One turn of the holding mode: find the display, start a session, hold it
/// until something happens.
pub open spec fn active_turn_run(w: Watch, o: Seq<Call>) -> (Option<Want>, Watch) {
    let w1 = Watch { announced: None, ..w.called(Call::SetReleased { released: false }) };
    let found = w1.next(o)->found;
    let w2 = w1.called(Call::FindPanel { found });
    match found {
        Ok(Panel::One(path)) => connecting_run(w2, o, path@),
        Ok(Panel::Absent) => (
            Some(Want::Wait),
            w2.called(Call::Report { state: State::NoDisplay }).said("panel not present; waiting"@),
        ),
        Ok(Panel::Several(count)) => (
            Some(Want::Wait),
            w2.called(Call::Report { state: State::NoDisplay }).said(
                text::decimal(count as nat) + " panels present; waiting for exactly one"@,
            ),
        ),
        Err(reason) => (
            Some(Want::WaitFor(w2.delay() as u128)),
            w2.called(Call::Report { state: State::Connecting }).said(
                "discovery failed: "@ + reason@,
            ).counted(),
        ),
    }
}

/// A turn, once the queued events have been handled.
pub open spec fn turn_run(w: Watch, o: Seq<Call>) -> (Want, Watch) {
    let w1 = w.called(Call::ClearInterrupt);
    let (want, w2) = if w1.control.paused {
        paused_turn_run(w1, o)
    } else {
        active_turn_run(w1, o)
    };
    match want {
        Some(want) => (want, Watch { phase: Phase::Waiting, ..w2 }),
        None => round_run(w2, o),
    }
}

/// What [`Supervisor::step`] does.
pub open spec fn step_run(w: Watch, o: Seq<Call>, got: Got) -> (Want, Watch) {
    match (w.phase, got) {
        (Phase::Over, _) => (Want::Done, w),
        (_, Got::Event(event)) => if event is Quit {
            (Want::Done, finished(applied(w, event)))
        } else if w.phase is Polling {
            (Want::Poll, applied(w, event))
        } else {
            round_run(applied(w, event), o)
        },
        (Phase::Polling, _) => turn_run(w, o),
        (Phase::Waiting, Got::Nothing) => round_run(w, o),
        (Phase::Waiting, Got::Gone) => (Want::Done, finished(w)),
    }
}

/// A record that begins with the calls after `call` has it right behind the
/// calls before.
proof fn lemma_recorded(w: Watch, call: Call, o: Seq<Call>)
    requires
        w.called(call).calls.is_prefix_of(o),
    ensures
        w.calls.is_prefix_of(o),
        w.next(o) == call,
{
    assert(w.called(call).calls[w.calls.len() as int] == o[w.calls.len() as int]);
    assert(w.calls == o.subrange(0, w.calls.len() as int)) by {
        assert(w.called(call).calls == o.subrange(0, w.calls.len() as int + 1));
        assert(w.called(call).calls.subrange(0, w.calls.len() as int) == w.calls);
    }
}

/// Calls made later leave those made earlier in front.
proof fn lemma_earlier(a: Seq<Call>, b: Seq<Call>, o: Seq<Call>)
    requires
        a.is_prefix_of(b),
        b.is_prefix_of(o),
    ensures
        a.is_prefix_of(o),
{
    assert(a == o.subrange(0, a.len() as int)) by {
        assert(a == b.subrange(0, a.len() as int));
        assert(b == o.subrange(0, b.len() as int));
    }
}

/// What the log says of an event.
pub fn describe_event(event: &Event) -> (line: String)
    ensures
        line@ == event_line(*event),
{
    match event {
        Event::Arrived(path) => text::join("panel arrived: ", path.as_str()),
        Event::Removed(path) => text::join("panel removed: ", path.as_str()),
        Event::Pause => "pause requested".to_owned(),
        Event::Resume => "resume requested".to_owned(),
        Event::OpenKanali => "KANALI requested".to_owned(),
        Event::KanaliClosed => "KANALI has exited".to_owned(),
        Event::StartupSet { enabled, result } => {
            let wording = if *enabled {
                "on"
            } else {
                "off"
            };
            match result {
                Ok(changed) => if *changed {
                    text::join("start with Windows turned ", wording)
                } else {
                    text::join("start with Windows was already ", wording)
                },
                Err(reason) => text::join("start with Windows not changed: ", reason.as_str()),
            }
        },
        Event::Quit => "stop requested".to_owned(),
    }
}

impl<B: Backend> Supervisor<B> {
    /// A supervisor with the usual retry schedule.
    pub fn new(backend: B, log: Logger, interval: Duration, verbose: bool) -> (supervisor: Self)
        ensures
            supervisor.backend == backend,
            supervisor@ == (Watch {
                control: crate::watch::initial_control(),
                reconnect: Reconnect { attempt: 0, unit: crate::watch::RECONNECT_INITIAL },
                announced: None,
                phase: Phase::Waiting,
                interval,
                verbose,
                log: log@,
                calls: backend.calls(),
            }),
    {
        Supervisor::with_reconnect(backend, log, interval, verbose, Reconnect::new())
    }

    /// A supervisor with its own retry schedule.
    pub fn with_reconnect(
        backend: B,
        log: Logger,
        interval: Duration,
        verbose: bool,
        reconnect: Reconnect,
    ) -> (supervisor: Self)
        ensures
            supervisor.backend == backend,
            supervisor@ == (Watch {
                control: crate::watch::initial_control(),
                reconnect,
                announced: None,
                phase: Phase::Waiting,
                interval,
                verbose,
                log: log@,
                calls: backend.calls(),
            }),
    {
        Supervisor {
            backend,
            log,
            interval,
            verbose,
            control: Control::new(),
            reconnect,
            announced: None,
            phase: Phase::Waiting,
        }
    }

    /// Applies one event to the control state and logs it.
    fn apply(&mut self, event: &Event) -> (directive: Directive)
        ensures
            final(self)@ == applied(old(self)@, *event),
            directive == crate::watch::directive_for(*event),
    {
        self.log.log(describe_event(event).as_str());
        self.control.apply(event)
    }

    /// Ends the watch.
    fn finish(&mut self) -> (want: Want)
        ensures
            want is Done,
            final(self)@ == finished(old(self)@),
    {
        self.backend.report(State::Quitting);
        self.log.log("watch stopping");
        self.phase = Phase::Over;
        Want::Done
    }

    /// Starts a round. The first call of a watch.
    pub fn round(&mut self) -> (want: Want)
        ensures
            old(self)@.calls.is_prefix_of(final(self)@.calls),
            forall|o: Seq<Call>| #[trigger]
                final(self)@.calls.is_prefix_of(o) ==> round_run(old(self)@, o) == (
                    want,
                    final(self)@,
                ),
    {
        let ghost w0 = self@;
        let stop = self.backend.stop_requested();
        let ghost w1 = self@;
        let want = if stop {
            self.finish()
        } else {
            self.phase = Phase::Polling;
            Want::Poll
        };
        proof {
            let w2 = self@;
            let call = Call::StopRequested { stop };
            assert(w1 == w0.called(call));
            assert(w1.calls.is_prefix_of(w2.calls));
            lemma_earlier(w0.calls, w1.calls, w2.calls);
            assert forall|o: Seq<Call>| #[trigger] w2.calls.is_prefix_of(o) implies round_run(w0, o)
                == (want, w2) by {
                lemma_earlier(w1.calls, w2.calls, o);
                lemma_recorded(w0, call, o);
            }
        }
        want
    }

    /// One turn of the released mode: the launch if one is owed, then a
    /// wait for the next event.
    fn paused(&mut self) -> (want: Option<Want>)
        ensures
            old(self)@.calls.is_prefix_of(final(self)@.calls),
            forall|o: Seq<Call>| #[trigger]
                final(self)@.calls.is_prefix_of(o) ==> paused_turn_run(old(self)@, o) == (
                    want,
                    final(self)@,
                ),
    {
        let ghost w0 = self@;
        self.backend.set_released(true);
        let asked = self.control.take_launch();
        let ghost w2 = self@;
        proof {
            assert(w0.calls.is_prefix_of(w2.calls));
        }
        if asked {
            let started = self.backend.start_kanali(&mut self.log);
            let ghost w3 = self@;
            let ghost call = Call::StartKanali { started, given: w2.log, log: w3.log };
            proof {
                assert(w3.calls == w2.called(call).calls);
                lemma_earlier(w0.calls, w2.calls, w3.calls);
                assert forall|o: Seq<Call>| #[trigger] w3.calls.is_prefix_of(o) implies w2.next(o)
                    == call by {
                    lemma_recorded(w2, call, o);
                }
            }
            if !started {
                let _ = self.control.apply(&Event::KanaliClosed);
                return None;
            }
        }
        let ghost w3 = self@;
        let state = self.control.paused_state();
        self.backend.report(state);
        let known = match self.announced {
            Some(announced) => announced == state,
            None => false,
        };
        if !known {
            self.log.log(
                match state {
                    State::WaitingForKanali => "paused until KANALI exits",
                    _ => "paused: the panel is released until resume",
                },
            );
            self.announced = Some(state);
        }
        proof {
            let w5 = self@;
            assert(w3.calls.is_prefix_of(w5.calls));
            lemma_earlier(w0.calls, w3.calls, w5.calls);
            assert forall|o: Seq<Call>| #[trigger] w5.calls.is_prefix_of(o) implies w3.calls.is_prefix_of(
                o,
            ) by {
                lemma_earlier(w3.calls, w5.calls, o);
            }
        }
        Some(Want::Wait)
    }

    /// Holds the session that was started.
    fn holding(&mut self) -> (want: Option<Want>)
        ensures
            old(self)@.calls.is_prefix_of(final(self)@.calls),
            forall|o: Seq<Call>| #[trigger]
                final(self)@.calls.is_prefix_of(o) ==> holding_run(old(self)@, o) == (
                    want,
                    final(self)@,
                ),
    {
        let ghost w0 = self@;
        self.reconnect.reset();
        self.backend.report(State::Active);
        self.log.log(
            text::join3(
                "holding: ping every ",
                text::number(time::as_millis(self.interval)).as_str(),
                " ms",
            ).as_str(),
        );
        let ghost w1 = self@;
        let hold = self.backend.hold_session(self.interval, self.verbose, &mut self.log);
        let ghost w2 = self@;
        let ghost call = Call::HoldSession {
            interval: w1.interval,
            verbose: w1.verbose,
            hold,
            given: w1.log,
            log: w2.log,
        };
        proof {
            assert(w0.calls.is_prefix_of(w1.calls));
            assert(w2.calls == w1.called(call).calls);
            lemma_earlier(w0.calls, w1.calls, w2.calls);
            assert forall|o: Seq<Call>| #[trigger] w2.calls.is_prefix_of(o) implies w1.next(o)
                == call by {
                lemma_recorded(w1, call, o);
            }
        }
        match hold {
            Hold::Stopped { pings } => {
                self.log.log(
                    text::join3(
                        "session released after ",
                        text::number(pings as u128).as_str(),
                        " pings",
                    ).as_str(),
                );
                None
            },
            Hold::Lost { pings, error } => {
                self.backend.report(State::Connecting);
                let delay: Duration = self.reconnect.next_delay();
                let start = text::join3(
                    "session lost after ",
                    text::number(pings as u128).as_str(),
                    " pings: ",
                );
                let middle = text::join3(
                    start.as_str(),
                    error.describe().as_str(),
                    "; retrying in ",
                );
                self.log.log(
                    text::join3(
                        middle.as_str(),
                        text::number(time::as_secs(delay)).as_str(),
                        " s",
                    ).as_str(),
                );
                proof {
                    let w3 = self@;
                    assert(w2.calls.is_prefix_of(w3.calls));
                    lemma_earlier(w0.calls, w2.calls, w3.calls);
                    assert forall|o: Seq<Call>| #[trigger]
                        w3.calls.is_prefix_of(o) implies w2.calls.is_prefix_of(o) by {
                        lemma_earlier(w2.calls, w3.calls, o);
                    }
                }
                Some(Want::WaitFor(delay))
            },
        }
    }

    /// Starts a session on the display at `path`.
    fn connecting(&mut self, path: &str) -> (want: Option<Want>)
        ensures
            old(self)@.calls.is_prefix_of(final(self)@.calls),
            forall|o: Seq<Call>| #[trigger]
                final(self)@.calls.is_prefix_of(o) ==> connecting_run(old(self)@, o, path@) == (
                    want,
                    final(self)@,
                ),
    {
        let ghost w0 = self@;
        self.backend.report(State::Connecting);
        let ghost w1 = self@;
        let outcome = self.backend.start_session(path, &mut self.log);
        let ghost w2 = self@;
        let ghost call = Call::StartSession { path: path@, outcome, given: w1.log, log: w2.log };
        proof {
            assert(w0.calls.is_prefix_of(w1.calls));
            assert(w2.calls == w1.called(call).calls);
            lemma_earlier(w0.calls, w1.calls, w2.calls);
            assert forall|o: Seq<Call>| #[trigger] w2.calls.is_prefix_of(o) implies w1.next(o)
                == call by {
                lemma_recorded(w1, call, o);
            }
        }
        match outcome {
            Ok(()) => {
                let want = self.holding();
                proof {
                    let w3 = self@;
                    lemma_earlier(w0.calls, w2.calls, w3.calls);
                    assert forall|o: Seq<Call>| #[trigger]
                        w3.calls.is_prefix_of(o) implies w2.calls.is_prefix_of(o) by {
                        lemma_earlier(w2.calls, w3.calls, o);
                    }
                }
                want
            },
            Err(StartError::Interrupted) => {
                self.log.log("session start interrupted");
                None
            },
            Err(StartError::Failed(reason)) => {
                let delay: Duration = self.reconnect.next_delay();
                let start = text::join(reason.as_str(), "; retrying in ");
                self.log.log(
                    text::join3(
                        start.as_str(),
                        text::number(time::as_secs(delay)).as_str(),
                        " s",
                    ).as_str(),
                );
                Some(Want::WaitFor(delay))
            },
        }
    }

    /// One turn of the holding mode: find the display, start a session,
    /// hold it until something happens.
    fn active(&mut self) -> (want: Option<Want>)
        ensures
            old(self)@.calls.is_prefix_of(final(self)@.calls),
            forall|o: Seq<Call>| #[trigger]
                final(self)@.calls.is_prefix_of(o) ==> active_turn_run(old(self)@, o) == (
                    want,
                    final(self)@,
                ),
    {
        let ghost w0 = self@;
        self.backend.set_released(false);
        self.announced = None;
        let ghost w1 = self@;
        let found = self.backend.find_panel();
        let ghost told = found;
        let ghost w2 = self@;
        proof {
            assert(w0.calls.is_prefix_of(w1.calls));
            assert(w2 == w1.called(Call::FindPanel { found }));
            lemma_earlier(w0.calls, w1.calls, w2.calls);
            assert forall|o: Seq<Call>| #[trigger] w2.calls.is_prefix_of(o) implies w1.next(o)
                == Call::FindPanel { found } by {
                lemma_recorded(w1, Call::FindPanel { found }, o);
            }
        }
        let want = match found {
            Ok(Panel::One(path)) => self.connecting(path.as_str()),
            Ok(Panel::Absent) => {
                self.backend.report(State::NoDisplay);
                self.log.log("panel not present; waiting");
                Some(Want::Wait)
            },
            Ok(Panel::Several(count)) => {
                self.backend.report(State::NoDisplay);
                self.log.log(
                    text::join(
                        text::number(count as u128).as_str(),
                        " panels present; waiting for exactly one",
                    ).as_str(),
                );
                Some(Want::Wait)
            },
            Err(reason) => {
                self.backend.report(State::Connecting);
                self.log.log(text::join("discovery failed: ", reason.as_str()).as_str());
                let delay: Duration = self.reconnect.next_delay();
                Some(Want::WaitFor(delay))
            },
        };
        proof {
            let w3 = self@;
            assert(w2.calls.is_prefix_of(w3.calls));
            lemma_earlier(w0.calls, w2.calls, w3.calls);
            assert forall|o: Seq<Call>| #[trigger] w3.calls.is_prefix_of(o) implies active_turn_run(
                w0,
                o,
            ) == (want, w3) by {
                lemma_earlier(w2.calls, w3.calls, o);
                assert(w1.next(o) == Call::FindPanel { found: told });
            }
        }
        want
    }

    /// A turn, once the queued events have been handled.
    fn turn(&mut self) -> (want: Want)
        ensures
            old(self)@.calls.is_prefix_of(final(self)@.calls),
            forall|o: Seq<Call>| #[trigger]
                final(self)@.calls.is_prefix_of(o) ==> turn_run(old(self)@, o) == (
                    want,
                    final(self)@,
                ),
    {
        let ghost w0 = self@;
        self.backend.clear_interrupt();
        let ghost w1 = self@;
        let asked = if self.control.paused() {
            self.paused()
        } else {
            self.active()
        };
        let ghost w2 = self@;
        proof {
            assert(w0.calls.is_prefix_of(w1.calls));
            lemma_earlier(w0.calls, w1.calls, w2.calls);
        }
        match asked {
            Some(want) => {
                self.phase = Phase::Waiting;
                want
            },
            None => {
                let want = self.round();
                proof {
                    let w3 = self@;
                    lemma_earlier(w0.calls, w2.calls, w3.calls);
                    assert forall|o: Seq<Call>| #[trigger]
                        w3.calls.is_prefix_of(o) implies w2.calls.is_prefix_of(o) by {
                        lemma_earlier(w2.calls, w3.calls, o);
                    }
                }
                want
            },
        }
    }

    /// Takes what the event source gave and goes on until something is wanted
    /// of it again. [`Want::Done`] ends the watch.
    pub fn step(&mut self, got: Got) -> (want: Want)
        ensures
            old(self)@.calls.is_prefix_of(final(self)@.calls),
            forall|o: Seq<Call>| #[trigger]
                final(self)@.calls.is_prefix_of(o) ==> step_run(old(self)@, o, got) == (
                    want,
                    final(self)@,
                ),
    {
        let ghost w0 = self@;
        match self.phase {
            Phase::Over => Want::Done,
            Phase::Polling => match got {
                Got::Event(event) => match self.apply(&event) {
                    Directive::Quit => self.finish(),
                    Directive::Continue => Want::Poll,
                },
                _ => self.turn(),
            },
            Phase::Waiting => match got {
                Got::Event(event) => match self.apply(&event) {
                    Directive::Quit => self.finish(),
                    Directive::Continue => self.round(),
                },
                Got::Nothing => self.round(),
                Got::Gone => self.finish(),
            },
        }
    }
}

// ---------------------------------------------------------------------------
// Laws.
// ---------------------------------------------------------------------------

/// Whether a call touches the display.
pub open spec fn touches_display(call: Call) -> bool {
    call is FindPanel || call is StartSession || call is HoldSession
}

/// A quit is obeyed at once from any phase: the only call is the report, and
/// the watch is over.
pub proof fn quit_ends_the_watch(w: Watch, o: Seq<Call>)
    requires
        w.phase !is Over,
    ensures
        ({
            let (want, end) = step_run(w, o, Got::Event(Event::Quit));
            &&& want is Done
            &&& end.phase is Over
            &&& end.calls == w.calls.push(Call::Report { state: State::Quitting })
        }),
{
}

/// A watch that is over stays over: nothing is called and nothing changes.
pub proof fn over_is_final(w: Watch, o: Seq<Call>, got: Got)
    requires
        w.phase is Over,
    ensures
        step_run(w, o, got) == (Want::Done, w),
{
}

/// A stop asked for elsewhere ends the watch before anything else happens.
pub proof fn stop_comes_before_anything_else(w: Watch, o: Seq<Call>)
    requires
        w.next(o)->stop,
    ensures
        ({
            let (want, end) = round_run(w, o);
            &&& want is Done
            &&& end.calls == w.calls.push(Call::StopRequested { stop: true }).push(
                Call::Report { state: State::Quitting },
            )
        }),
{
}

/// A vanished event source counts as a quit while the supervisor waits.
pub proof fn vanished_source_is_a_quit(w: Watch, o: Seq<Call>)
    requires
        w.phase is Waiting,
    ensures
        step_run(w, o, Got::Gone) == (Want::Done, finished(w)),
{
}

/// While the display is released it is left alone: the turn looks for no
/// display and starts no session, it says that the display is released, and
/// the launch that was owed is owed no more.
pub proof fn released_display_is_left_alone(w: Watch, o: Seq<Call>)
    ensures
        ({
            let (want, end) = paused_turn_run(w, o);
            &&& w.calls.is_prefix_of(end.calls)
            &&& forall|i: int|
                w.calls.len() <= i < end.calls.len() ==> !touches_display(#[trigger] end.calls[i])
            &&& end.calls[w.calls.len() as int] == Call::SetReleased { released: true }
            &&& !end.control.launch_pending
        }),
{
}

/// KANALI is started only when that is owed.
pub proof fn kanali_starts_only_on_request(w: Watch, o: Seq<Call>)
    requires
        !w.control.launch_pending,
    ensures
        ({
            let (want, end) = paused_turn_run(w, o);
            forall|i: int|
                w.calls.len() <= i < end.calls.len() ==> (#[trigger] end.calls[i]) !is StartKanali
        }),
{
}

/// A launch that fails resumes at once: the supervisor goes on without a wait,
/// and is no longer paused.
pub proof fn failed_launch_resumes(w: Watch, o: Seq<Call>)
    requires
        w.control.launch_pending,
        w.control.launched,
        ({
            let asked = w.called(Call::SetReleased { released: true });
            !(asked.next(o)->started)
        }),
    ensures
        paused_turn_run(w, o).0 is None,
        !paused_turn_run(w, o).1.control.paused,
{
}

/// A session that was held starts the retry schedule afresh; a failed start
/// moves it on by one and waits for what it says.
pub proof fn retries_back_off_until_a_session_holds(w: Watch, o: Seq<Call>, path: Seq<char>)
    ensures
        ({
            let (want, end) = connecting_run(w, o, path);
            let outcome = w.called(Call::Report { state: State::Connecting }).next(o)->outcome;
            match outcome {
                Ok(()) => match want {
                    None => end.reconnect.attempt == 0,
                    Some(want) => end.reconnect.attempt == 1 && want == Want::WaitFor(
                        time::scaled(w.reconnect.unit as int, 1) as u128,
                    ),
                },
                Err(StartError::Interrupted) => want is None && end.reconnect == w.reconnect,
                Err(StartError::Failed(_)) => want == Some(Want::WaitFor(w.delay() as u128))
                    && end.reconnect == w.counted().reconnect,
            }
        }),
{
}

/// A startup change is only logged: no call is made and no mode changes.
pub proof fn startup_change_is_only_logged(
    w: Watch,
    o: Seq<Call>,
    enabled: bool,
    result: Result<bool, String>,
)
    requires
        w.phase is Polling,
    ensures
        step_run(w, o, Got::Event(Event::StartupSet { enabled, result })) == (
            Want::Poll,
            w.said(event_line(Event::StartupSet { enabled, result })),
        ),
{
}

} // verus!
