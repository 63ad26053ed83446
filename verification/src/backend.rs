//! What the supervisor asks of the machine, as far as it does not need the
//! machine: the session start, what is logged while a session is held, and
//! what discoveries, console events, and a started KANALI come to.

use vstd::prelude::*;

use crate::hold::{HoldEvent, KEEPALIVE_WRITE_RETRIES};
use crate::log::{LogView, Logger};
use crate::session::laws;
use crate::session::model::{self, ErrorView, Record, State};
use crate::session::{Clock, KeepaliveOutcome, OptionalReply, Session, SessionError};
use crate::supervisor::{Hold, Panel, StartError};
use crate::text;
use crate::time::{self, Duration, Instant};
use crate::transport::{ReadError, Transport};
use crate::usbprint::Discovery;
use crate::win::{CTRL_BREAK_EVENT, CTRL_CLOSE_EVENT, CTRL_C_EVENT};

verus! {

/// A device string, with an empty one made visible.
pub open spec fn shown(value: Seq<char>) -> Seq<char> {
    if value.len() == 0 {
        "(empty)"@
    } else {
        value
    }
}

/// Renders a device string, making an empty one visible.
pub fn show<'a>(value: &'a str) -> (text: &'a str)
    ensures
        text@ == shown(value@),
{
    if value.is_empty() {
        "(empty)"
    } else {
        value
    }
}

// ---------------------------------------------------------------------------
// The session start.
// ---------------------------------------------------------------------------

/// What a [`StartError`] says.
pub enum StartView {
    Interrupted,
    Failed(Seq<char>),
}

impl View for StartError {
    type V = StartView;

    open spec fn view(&self) -> StartView {
        match *self {
            StartError::Interrupted => StartView::Interrupted,
            StartError::Failed(reason) => StartView::Failed(reason@),
        }
    }
}

/// Why a step of the session start failed.
pub open spec fn start_failure(step: Seq<char>, error: ErrorView) -> StartView {
    if error == ErrorView::Read(ReadError::Interrupted) {
        StartView::Interrupted
    } else {
        StartView::Failed(step + error.text())
    }
}

/// Why a step of the session start failed: an event may have cut it short.
fn failed(step: &str, error: &SessionError) -> (reason: StartError)
    ensures
        reason@ == start_failure(step@, error@),
{
    match error {
        SessionError::Read(ReadError::Interrupted) => StartError::Interrupted,
        _ => StartError::Failed(text::join(step, error.describe().as_str())),
    }
}

/// The line for a session that has started.
pub open spec fn started_line(
    span: Duration,
    device: crate::wire::DeviceInformationView,
) -> Seq<char> {
    "session started in "@ + text::decimal((span / time::NANOS_PER_MILLI) as nat) + " ms: "@
        + shown(device.product_name) + " firmware "@ + shown(device.firmware_version)
}

/// The line for an activation that was sent.
pub open spec fn activation_line(reply: OptionalReply) -> Seq<char> {
    match reply {
        OptionalReply::Acknowledged => "activation trigger acknowledged"@,
        OptionalReply::Nothing => "activation trigger sent; no reply within the window"@,
        OptionalReply::Drained => "activation trigger sent; an unrelated frame was consumed"@,
    }
}

/// The line for a first Ping that was sent.
pub open spec fn ping_line(reply: OptionalReply) -> Seq<char> {
    match reply {
        OptionalReply::Nothing => "ping sent; no reply within the window"@,
        _ => "ping sent; a reply was consumed"@,
    }
}

/// What [`establish`] does: bootstrap, activation, Ping, each only after the
/// one before it has succeeded, and a line for each.
pub open spec fn establish_run(s: State, o: Record, log: LogView) -> (
    Result<(), StartView>,
    State,
    LogView,
) {
    let started = s.next_now(o);
    let (bootstrap, s2) = model::bootstrap_run(s.timed(started), o);
    match bootstrap {
        Err(error) => (Err(start_failure("session start failed: "@, error)), s2, log),
        Ok(bootstrap) => {
            let now = s2.next_now(o);
            let span = time::span_since(now as int, started as int) as u128;
            let log1 = log.with(started_line(span, bootstrap.device));
            let (activation, s4) = model::activate_run(s2.timed(now), o);
            match activation {
                Err(error) => (Err(start_failure("activation failed: "@, error)), s4, log1),
                Ok(reply) => {
                    let log2 = log1.with(activation_line(reply));
                    let (outcome, s5) = model::ping_run(s4, o);
                    match outcome {
                        model::OutcomeView::Sent(reply) => (
                            Ok(()),
                            s5,
                            log2.with(ping_line(reply)),
                        ),
                        model::OutcomeView::Retryable(error) => (
                            Ok(()),
                            s5,
                            log2.with("ping did not transfer: "@ + error.text()),
                        ),
                        model::OutcomeView::Fatal(error) => (
                            Err(start_failure("ping failed: "@, error)),
                            s5,
                            log2,
                        ),
                    }
                },
            }
        },
    }
}

/// What a [`Result`] of the session start says.
pub open spec fn start_view(result: Result<(), StartError>) -> Result<(), StartView> {
    match result {
        Ok(_) => Ok(()),
        Err(error) => Err(error@),
    }
}

/// Runs the session start: bootstrap, the activation trigger, and the first
/// Ping. Each step is reported to `log`.
pub fn establish<T: Transport, C: Clock>(session: &mut Session<T, C>, log: &mut Logger) -> (result:
    Result<(), StartError>)
    ensures
        old(session)@.begins(final(session)@.record()),
        forall|o: Record| #[trigger]
            final(session)@.begins(o) ==> establish_run(old(session)@, o, old(log)@) == (
                start_view(result),
                final(session)@,
                final(log)@,
            ),
{
    let ghost s0 = session@;
    let started: Instant = session.now();
    let ghost s1 = session@;
    proof {
        model::calls_are_kept(s0);
    }
    let bootstrap = session.bootstrap();
    let ghost s2 = session@;
    proof {
        model::begins_earlier(s0, s1, s2.record());
        assert forall|o: Record| #[trigger] s2.begins(o) implies s0.next_now(o) == started by {
            model::begins_earlier(s1, s2, o);
            model::time_is_recorded(s0, started, o);
        }
    }
    let bootstrap = match bootstrap {
        Ok(bootstrap) => bootstrap,
        Err(error) => return Err(failed("session start failed: ", &error)),
    };
    let now: Instant = session.now();
    let ghost s3 = session@;
    let span: Duration = time::saturating_since(now, started);
    let millis = text::number(time::as_millis(span));
    let line = text::join3("session started in ", millis.as_str(), " ms: ");
    let line = text::join3(line.as_str(), show(bootstrap.device.product_name.as_str()), " firmware ");
    let line = text::join(line.as_str(), show(bootstrap.device.firmware_version.as_str()));
    log.log(line.as_str());
    proof {
        model::calls_are_kept(s2);
        model::begins_earlier(s0, s2, s3.record());
    }
    let activation = session.activate();
    let ghost s4 = session@;
    proof {
        model::begins_earlier(s0, s3, s4.record());
        assert forall|o: Record| #[trigger] s4.begins(o) implies s2.begins(o) && s2.next_now(o)
            == now by {
            model::begins_earlier(s3, s4, o);
            model::time_is_recorded(s2, now, o);
        }
    }
    match activation {
        Ok(OptionalReply::Acknowledged) => log.log("activation trigger acknowledged"),
        Ok(OptionalReply::Nothing) => log.log(
            "activation trigger sent; no reply within the window",
        ),
        Ok(OptionalReply::Drained) => log.log(
            "activation trigger sent; an unrelated frame was consumed",
        ),
        Err(error) => return Err(failed("activation failed: ", &error)),
    }
    let outcome = session.ping();
    proof {
        let s5 = session@;
        model::begins_earlier(s0, s4, s5.record());
        assert forall|o: Record| #[trigger] s5.begins(o) implies s4.begins(o) by {
            model::begins_earlier(s4, s5, o);
        }
    }
    match outcome {
        KeepaliveOutcome::Sent(OptionalReply::Nothing) => log.log(
            "ping sent; no reply within the window",
        ),
        KeepaliveOutcome::Sent(_) => log.log("ping sent; a reply was consumed"),
        KeepaliveOutcome::Retryable(error) => log.log(
            text::join("ping did not transfer: ", error.describe().as_str()).as_str(),
        ),
        KeepaliveOutcome::Fatal(error) => return Err(failed("ping failed: ", &error)),
    }
    Ok(())
}

// ---------------------------------------------------------------------------
// Looking for the display.
// ---------------------------------------------------------------------------

/// Whether a panel is what the supervisor makes of a discovery.
pub open spec fn panel_view(found: Discovery, panel: Panel) -> bool {
    match found {
        Discovery::One(path) => panel matches Panel::One(seen) && seen@ == path@,
        Discovery::Absent => panel == Panel::Absent,
        Discovery::Several(paths) => panel matches Panel::Several(count) && count == paths@.len(),
    }
}

/// What the supervisor makes of a discovery.
pub fn panel_of(found: Discovery) -> (panel: Panel)
    ensures
        panel_view(found, panel),
{
    match found {
        Discovery::One(path) => Panel::One(path),
        Discovery::Absent => Panel::Absent,
        Discovery::Several(paths) => Panel::Several(paths.len()),
    }
}

// ---------------------------------------------------------------------------
// Holding.
// ---------------------------------------------------------------------------

/// The line for a Ping retry.
pub open spec fn retry_line(attempt: u32, error: ErrorView) -> Seq<char> {
    "ping retry "@ + text::decimal(attempt as nat) + " of "@ + text::decimal(
        KEEPALIVE_WRITE_RETRIES as nat,
    ) + ": "@ + error.text()
}

/// The line for a Ping retry.
pub fn retry_text(attempt: u32, error: &SessionError) -> (line: String)
    ensures
        line@ == retry_line(attempt, error@),
{
    let number = text::number(attempt as u128);
    let limit = text::number(KEEPALIVE_WRITE_RETRIES as u128);
    let line = text::join3("ping retry ", number.as_str(), " of ");
    let line = text::join3(line.as_str(), limit.as_str(), ": ");
    text::join(line.as_str(), error.describe().as_str())
}

/// The line for the `pings`th Ping of a held session.
pub open spec fn ping_count_line(pings: u64, drained: u64) -> Seq<char> {
    "ping "@ + text::decimal(pings as nat) + "; "@ + text::decimal(drained as nat)
        + " unasked frames drained so far"@
}

/// What is counted and logged while a session is held.
#[derive(Debug, Clone, Copy, PartialEq, Eq)]
pub struct HoldLog {
    pub pings: u64,
    pub verbose: bool,
}

/// How an event changes the count and the log.
pub open spec fn noted(
    h: HoldLog,
    event: crate::hold::EventView,
    log: LogView,
) -> (HoldLog, LogView) {
    match event {
        crate::hold::EventView::Pinged { drained, .. } => {
            let pings = (h.pings + 1) as u64;
            (
                HoldLog { pings, ..h },
                if h.verbose {
                    log.with(ping_count_line(pings, drained))
                } else {
                    log
                },
            )
        },
        crate::hold::EventView::Retrying { attempt, error } => (
            h,
            log.with(retry_line(attempt, error)),
        ),
        crate::hold::EventView::Stopped => (h, log),
    }
}

impl HoldLog {
    pub fn new(verbose: bool) -> (log: Self)
        ensures
            log == (HoldLog { pings: 0, verbose }),
    {
        HoldLog { pings: 0, verbose }
    }

    /// Counts and logs an event of the holding loop: every retry, and every
    /// Ping where detail is wanted.
    pub fn note(&mut self, event: &HoldEvent, log: &mut Logger)
        requires
            old(self).pings < u64::MAX,
        ensures
            (*final(self), final(log)@) == noted(*old(self), event@, old(log)@),
    {
        match event {
            HoldEvent::Pinged { drained, .. } => {
                self.pings = self.pings + 1;
                if self.verbose {
                    let count = text::number(self.pings as u128);
                    let swept = text::number(*drained as u128);
                    let line = text::join3("ping ", count.as_str(), "; ");
                    let line = text::join3(
                        line.as_str(),
                        swept.as_str(),
                        " unasked frames drained so far",
                    );
                    log.log(line.as_str());
                }
            },
            HoldEvent::Retrying { attempt, error } => {
                log.log(retry_text(*attempt, error).as_str());
            },
            HoldEvent::Stopped => {},
        }
    }

    /// How the held session ended. A read that an interrupt cut short is a
    /// stop on request.
    pub fn end(&self, result: Result<(), SessionError>) -> (hold: Hold)
        ensures
            hold == match result {
                Ok(_) => Hold::Stopped { pings: self.pings },
                Err(SessionError::Read(ReadError::Interrupted)) => Hold::Stopped {
                    pings: self.pings,
                },
                Err(error) => Hold::Lost { pings: self.pings, error },
            },
    {
        match result {
            Ok(_) => Hold::Stopped { pings: self.pings },
            Err(error) => match error {
                SessionError::Read(ReadError::Interrupted) => Hold::Stopped { pings: self.pings },
                error => Hold::Lost { pings: self.pings, error },
            },
        }
    }
}

/// How a hold ends when no session was started: it counts as lost.
pub fn hold_without_session() -> (hold: Hold)
    ensures
        hold == (Hold::Lost { pings: 0, error: SessionError::Closed }),
{
    Hold::Lost { pings: 0, error: SessionError::Closed }
}

// ---------------------------------------------------------------------------
// Stop requests and KANALI.
// ---------------------------------------------------------------------------

/// Whether a console control event is a request to stop.
pub fn is_stop_event(kind: u32) -> (stop: bool)
    ensures
        stop == (kind == CTRL_C_EVENT || kind == CTRL_BREAK_EVENT || kind == CTRL_CLOSE_EVENT),
{
    match kind {
        CTRL_C_EVENT | CTRL_BREAK_EVENT | CTRL_CLOSE_EVENT => true,
        _ => false,
    }
}

/// What came of starting KANALI.
#[derive(Debug, Clone, PartialEq, Eq)]
pub enum KanaliStart {
    /// It is not installed.
    Missing,
    /// It runs as this process.
    Started(u32),
    /// It could not be started, for this reason.
    Failed(String),
}

/// The line for what came of starting KANALI.
pub open spec fn kanali_line(start: KanaliStart) -> Seq<char> {
    match start {
        KanaliStart::Missing => "KANALI is not installed"@,
        KanaliStart::Started(id) => "started KANALI (process "@ + text::decimal(id as nat) + ")"@,
        KanaliStart::Failed(reason) => "could not start KANALI: "@ + reason@,
    }
}

/// Logs what came of starting KANALI; whether it runs.
pub fn kanali_started(start: &KanaliStart, log: &mut Logger) -> (started: bool)
    ensures
        started == (*start is Started),
        final(log)@ == old(log)@.with(kanali_line(*start)),
{
    match start {
        KanaliStart::Missing => {
            log.log("KANALI is not installed");
            false
        },
        KanaliStart::Started(id) => {
            let id = text::number(*id as u128);
            log.log(text::join3("started KANALI (process ", id.as_str(), ")").as_str());
            true
        },
        KanaliStart::Failed(reason) => {
            log.log(text::join("could not start KANALI: ", reason.as_str()).as_str());
            false
        },
    }
}

// ---------------------------------------------------------------------------
// Laws.
// ---------------------------------------------------------------------------

/// What has been written after a session start: what had been before, the
/// DeviceInfo request so many times, the other two bootstrap requests, the
/// activation trigger under a track id, and one Ping.
pub open spec fn start_frames(before: Seq<Seq<u8>>, attempts: nat, track: u64) -> Seq<Seq<u8>> {
    (before + laws::copies(laws::probe_frame(), attempts)).push(laws::system_frame()).push(
        laws::auth_frame(),
    ).push(crate::frame::frame_of(crate::wire::activation_trigger_bytes(track))).push(
        crate::frame::frame_of(crate::wire::keepalive_ping_bytes()),
    )
}

/// A session start that succeeds leaves the session open and has written the
/// DeviceInfo request one or more times, then the other two bootstrap requests,
/// the activation trigger, and one Ping, in this order. One that fails has
/// closed the session.
pub proof fn session_start_writes_in_order(s: State, o: Record, log: LogView)
    requires
        s.closed is None,
    ensures
        ({
            let (result, end, _) = establish_run(s, o, log);
            &&& result is Err ==> end.closed is Some
            &&& result is Ok ==> {
                &&& end.closed is None
                &&& exists|attempts: nat, track: u64|
                    attempts >= 1 && laws::written(end.io) == #[trigger] start_frames(
                        laws::written(s.io),
                        attempts,
                        track,
                    )
            }
        }),
{
    let started = s.next_now(o);
    let s1 = s.timed(started);
    laws::bootstrap_asks_in_order(s1, o);
    let (bootstrap, s2) = model::bootstrap_run(s1, o);
    if bootstrap is Ok {
        let s3 = s2.timed(s2.next_now(o));
        laws::activate_fails_closed(s3, o);
        let (activation, s4) = model::activate_run(s3, o);
        if activation is Ok {
            laws::ping_keeps_or_closes(s4, o);
            let attempts = bootstrap->Ok_0.readiness_attempts as nat;
            let track = model::track_from(s3.next_track);
            let end = model::ping_run(s4, o).1;
            if establish_run(s, o, log).0 is Ok {
                assert(laws::written(end.io) == start_frames(laws::written(s.io), attempts, track));
            }
        }
    }
}

/// A session start says each step as it is done: the time that the bootstrap
/// took and what the device calls itself, how the activation was answered, and
/// how the first Ping was.
pub proof fn session_starts_say_each_step(s: State, o: Record, log: LogView)
    requires
        s.closed is None,
        !log.silent,
    ensures
        ({
            let (result, end, told) = establish_run(s, o, log);
            let n = log.lines.len() as int;
            let started = s.next_now(o);
            let (bootstrap, s2) = model::bootstrap_run(s.timed(started), o);
            let s3 = s2.timed(s2.next_now(o));
            let (activation, s4) = model::activate_run(s3, o);
            let ping = model::ping_run(s4, o).0;
            let steps: int = if bootstrap is Err {
                0
            } else if activation is Err {
                1
            } else if ping is Fatal {
                2
            } else {
                3
            };
            &&& result is Ok <==> steps == 3
            &&& told.lines.len() == n + steps
            &&& log.lines.is_prefix_of(told.lines)
            &&& steps >= 1 ==> told.lines[n] == "session started in "@ + text::decimal(
                time::span_since(s2.next_now(o) as int, started as int) as nat / 1_000_000,
            ) + " ms: "@ + shown(bootstrap->Ok_0.device.product_name) + " firmware "@ + shown(
                bootstrap->Ok_0.device.firmware_version,
            )
            &&& steps >= 2 ==> told.lines[n + 1] == match activation->Ok_0 {
                OptionalReply::Acknowledged => "activation trigger acknowledged"@,
                OptionalReply::Nothing => "activation trigger sent; no reply within the window"@,
                OptionalReply::Drained =>
                "activation trigger sent; an unrelated frame was consumed"@,
            }
            &&& steps == 3 ==> told.lines[n + 2] == match ping {
                model::OutcomeView::Sent(OptionalReply::Nothing) =>
                "ping sent; no reply within the window"@,
                model::OutcomeView::Sent(_) => "ping sent; a reply was consumed"@,
                model::OutcomeView::Retryable(error) => "ping did not transfer: "@ + error.text(),
                model::OutcomeView::Fatal(_) => Seq::empty(),
            }
        }),
{
}

/// A session start that fails says which step failed and why, unless an
/// interrupt cut the step short: then nothing is wrong with the display.
pub proof fn failed_starts_say_which_step(s: State, o: Record, log: LogView)
    ensures
        ({
            let (result, _, _) = establish_run(s, o, log);
            let (bootstrap, s2) = model::bootstrap_run(s.timed(s.next_now(o)), o);
            let (activation, s4) = model::activate_run(s2.timed(s2.next_now(o)), o);
            let ping = model::ping_run(s4, o).0;
            let cut = ErrorView::Read(ReadError::Interrupted);
            match (bootstrap, activation, ping) {
                (Err(error), _, _) => result == Err::<(), StartView>(
                    if error == cut {
                        StartView::Interrupted
                    } else {
                        StartView::Failed("session start failed: "@ + error.text())
                    },
                ),
                (_, Err(error), _) => result == Err::<(), StartView>(
                    if error == cut {
                        StartView::Interrupted
                    } else {
                        StartView::Failed("activation failed: "@ + error.text())
                    },
                ),
                (_, _, model::OutcomeView::Fatal(error)) => result == Err::<(), StartView>(
                    if error == cut {
                        StartView::Interrupted
                    } else {
                        StartView::Failed("ping failed: "@ + error.text())
                    },
                ),
                _ => result is Ok,
            }
        }),
{
}

/// A hold counts every Ping, says each one only where detail is wanted, and says
/// every retry with its number out of three.
pub proof fn holds_count_every_ping(h: HoldLog, event: crate::hold::EventView, log: LogView)
    requires
        h.pings < u64::MAX,
        !log.silent,
    ensures
        ({
            let (after, told) = noted(h, event, log);
            &&& after.verbose == h.verbose
            &&& after.pings == h.pings + if event is Pinged {
                1int
            } else {
                0
            }
            &&& told.lines == match event {
                crate::hold::EventView::Pinged { drained, .. } => if h.verbose {
                    log.lines.push(
                        "ping "@ + text::decimal((h.pings + 1) as nat) + "; "@ + text::decimal(
                            drained as nat,
                        ) + " unasked frames drained so far"@,
                    )
                } else {
                    log.lines
                },
                crate::hold::EventView::Retrying { attempt, error } => log.lines.push(
                    "ping retry "@ + text::decimal(attempt as nat) + " of "@ + text::decimal(3)
                        + ": "@ + error.text(),
                ),
                crate::hold::EventView::Stopped => log.lines,
            }
        }),
{
}

/// Starting KANALI is told as it came out.
pub proof fn kanali_starts_are_told_as_they_came_out(start: KanaliStart)
    ensures
        kanali_line(start) == match start {
            KanaliStart::Missing => "KANALI is not installed"@,
            KanaliStart::Started(id) => "started KANALI (process "@ + text::decimal(id as nat)
                + ")"@,
            KanaliStart::Failed(reason) => "could not start KANALI: "@ + reason@,
        },
{
}

} // verus!
