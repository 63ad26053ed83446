//! Keeps a started display session alive with periodic Pings.
//!
//! [`Holding`] decides: when to Ping, what to report, when to stop and when to
//! give up. Whoever drives it waits, and says after each wait whether a stop
//! has been requested.

use vstd::prelude::*;

use crate::session::model::{self, ErrorView, Record, State};
use crate::session::{Clock, KeepaliveOutcome, OptionalReply, Session, SessionError};
use crate::time::{self, Duration, Instant};
use crate::transport::Transport;

verus! {

/// Time between keepalive Pings, measured from one write to the next.
/// The panel blanks after 5 s of silence; this leaves half a second of
/// margin over the write itself.
pub const KEEPALIVE_INTERVAL: Duration = 4_500_000_000;

/// Consecutive retryable Ping write failures tolerated before the session
/// is given up.
pub const KEEPALIVE_WRITE_RETRIES: u32 = 3;

/// Base pause before retrying a Ping write; multiplied by the attempt
/// number and capped at [`KEEPALIVE_RETRY_MAX_BACKOFF`].
pub const KEEPALIVE_RETRY_BACKOFF: Duration = 500_000_000;

/// Longest pause before a Ping retry.
pub const KEEPALIVE_RETRY_MAX_BACKOFF: Duration = 2_000_000_000;

/// Something the holding loop did.
#[derive(Debug, Clone, PartialEq, Eq)]
pub enum HoldEvent {
    /// A Ping transferred.
    Pinged {
        reply: OptionalReply,
        /// How many frames the session had swept up, unasked for, before
        /// this Ping went out.
        drained: u64,
        /// Time since the previous Ping's write began; zero for the first.
        gap: Duration,
    },
    /// A Ping write transferred nothing and will be retried after a pause.
    Retrying { attempt: u32, error: SessionError },
    /// A stop was requested and honoured.
    Stopped,
}

/// What a [`HoldEvent`] says.
pub enum EventView {
    Pinged { reply: OptionalReply, drained: u64, gap: Duration },
    Retrying { attempt: u32, error: ErrorView },
    Stopped,
}

impl View for HoldEvent {
    type V = EventView;

    open spec fn view(&self) -> EventView {
        match *self {
            HoldEvent::Pinged { reply, drained, gap } => EventView::Pinged { reply, drained, gap },
            HoldEvent::Retrying { attempt, error } => EventView::Retrying {
                attempt,
                error: error@,
            },
            HoldEvent::Stopped => EventView::Stopped,
        }
    }
}

/// The pause before the `attempt`th retry of a Ping write: half a second more
/// each time, and never more than two seconds.
pub open spec fn retry_pause(attempt: u32) -> int {
    time::shorter_of(
        KEEPALIVE_RETRY_BACKOFF * attempt,
        KEEPALIVE_RETRY_MAX_BACKOFF as int,
    )
}

/// Pause before the `attempt`th retry of a Ping write.
pub fn retry_backoff(attempt: u32) -> (pause: Duration)
    ensures
        pause == retry_pause(attempt),
{
    time::shorter(KEEPALIVE_RETRY_BACKOFF * attempt as u128, KEEPALIVE_RETRY_MAX_BACKOFF)
}

/// What to do after a turn of the holding loop.
#[derive(Debug, Clone, PartialEq, Eq)]
pub enum HoldStep {
    /// It is not yet time for a Ping: wait for the rest.
    Early,
    /// Report this event, then wait for the next Ping.
    Report(HoldEvent),
    /// Report [`HoldEvent::Stopped`]; the hold is over.
    Stopped,
    /// The session is lost; the hold is over.
    Failed(SessionError),
}

/// What a [`HoldStep`] says.
pub enum StepView {
    Early,
    Report(EventView),
    Stopped,
    Failed(ErrorView),
}

impl View for HoldStep {
    type V = StepView;

    open spec fn view(&self) -> StepView {
        match *self {
            HoldStep::Early => StepView::Early,
            HoldStep::Report(event) => StepView::Report(event@),
            HoldStep::Stopped => StepView::Stopped,
            HoldStep::Failed(error) => StepView::Failed(error@),
        }
    }
}

/// Where a holding loop stands.
#[derive(Debug, Clone, Copy, PartialEq, Eq, Structural)]
pub struct Holding {
    /// Time between Pings.
    pub interval: Duration,
    /// Ping writes that transferred nothing since the last one that did.
    pub retries: u32,
    /// Whether the pause before a retry is still to be made.
    pub retrying: bool,
    /// When the last Ping's write began.
    pub previous: Option<Instant>,
    /// When the next Ping is due.
    pub next: Instant,
}

/// What [`Holding::time_to_wait`] does: the pause before a retry first, if one
/// is owed, after which the retry is due at once.
pub open spec fn wait_run(h: Holding, s: State, o: Record) -> (Duration, Holding, State) {
    if h.retrying {
        let s1 = s.paused(retry_pause(h.retries) as u128);
        let due = s1.next_now(o);
        let s2 = s1.timed(due);
        let now = s2.next_now(o);
        (
            time::span_since(due as int, now as int) as u128,
            Holding { retrying: false, next: due, ..h },
            s2.timed(now),
        )
    } else {
        let now = s.next_now(o);
        (time::span_since(h.next as int, now as int) as u128, h, s.timed(now))
    }
}

/// How a Ping whose write began at `sent` moves the holding loop on.
pub open spec fn after_ping(
    h: Holding,
    sent: Instant,
    outcome: model::OutcomeView,
    s: State,
) -> (StepView, Holding, State) {
    match outcome {
        model::OutcomeView::Sent(reply) => (
            StepView::Report(
                EventView::Pinged {
                    reply,
                    drained: s.drained,
                    gap: match h.previous {
                        Some(earlier) => time::span_since(sent as int, earlier as int) as u128,
                        None => 0,
                    },
                },
            ),
            Holding {
                retries: 0,
                previous: Some(sent),
                next: time::point_after(sent as int, h.interval as int) as u128,
                ..h
            },
            s,
        ),
        model::OutcomeView::Retryable(error) => if h.retries >= KEEPALIVE_WRITE_RETRIES {
            (StepView::Failed(error), h, s.close(error))
        } else {
            let attempt = (h.retries + 1) as u32;
            (
                StepView::Report(EventView::Retrying { attempt, error }),
                Holding { retries: attempt, retrying: true, ..h },
                s,
            )
        },
        model::OutcomeView::Fatal(error) => (StepView::Failed(error), h, s),
    }
}

/// What [`Holding::turn`] does.
pub open spec fn turn_run(h: Holding, s: State, o: Record, stop: bool) -> (
    StepView,
    Holding,
    State,
) {
    if stop {
        (StepView::Stopped, h, s)
    } else {
        let now = s.next_now(o);
        let s1 = s.timed(now);
        if now < h.next {
            (StepView::Early, h, s1)
        } else {
            let sent = s1.next_now(o);
            let (outcome, s2) = model::ping_run(s1.timed(sent), o);
            after_ping(h, sent, outcome, s2)
        }
    }
}

impl Holding {
    /// A hold that Pings every `interval`.
    ///
    /// `last_outbound` is when the previous write began, so the first Ping
    /// lands one interval after the session start rather than immediately.
    pub fn new(interval: Duration, last_outbound: Instant) -> (holding: Self)
        ensures
            holding == (Holding {
                interval,
                retries: 0,
                retrying: false,
                previous: None,
                next: time::point_after(last_outbound as int, interval as int) as u128,
            }),
    {
        Holding {
            interval,
            retries: 0,
            retrying: false,
            previous: None,
            next: time::after(last_outbound, interval),
        }
    }

    /// How long to wait before the next turn. Makes the pause before a retry
    /// first, if one is owed.
    pub fn time_to_wait<T: Transport, C: Clock>(&mut self, session: &mut Session<T, C>) -> (span:
        Duration)
        ensures
            old(session)@.begins(final(session)@.record()),
            forall|o: Record| #[trigger]
                final(session)@.begins(o) ==> wait_run(*old(self), old(session)@, o) == (
                    span,
                    *final(self),
                    final(session)@,
                ),
    {
        let ghost s0 = session@;
        if self.retrying {
            session.sleep(retry_backoff(self.retries));
            let ghost s1 = session@;
            let due: Instant = session.now();
            let ghost s2 = session@;
            self.next = due;
            self.retrying = false;
            proof {
                model::calls_are_kept(s0);
                model::calls_are_kept(s1);
                model::calls_are_kept(s2);
                model::begins_earlier(s0, s1, s2.record());
            }
            let now: Instant = session.now();
            proof {
                let s3 = session@;
                model::begins_earlier(s0, s2, s3.record());
                assert forall|o: Record| #[trigger] s3.begins(o) implies s1.next_now(o) == due
                    && s2.next_now(o) == now by {
                    model::time_is_recorded(s2, now, o);
                    model::time_is_recorded(s1, due, o);
                }
            }
            time::saturating_since(self.next, now)
        } else {
            let now: Instant = session.now();
            proof {
                let s1 = session@;
                model::calls_are_kept(s0);
                assert forall|o: Record| #[trigger] s1.begins(o) implies s0.next_now(o) == now by {
                    model::time_is_recorded(s0, now, o);
                }
            }
            time::saturating_since(self.next, now)
        }
    }

    /// One turn after a wait: stop when that was requested, wait on when the
    /// Ping is not yet due, and Ping otherwise.
    ///
    /// Each Ping is timed from the moment the previous one was written, not
    /// from when its reply wait ended, so the gap between writes is the
    /// interval itself. A retryable write failure is retried up to
    /// [`KEEPALIVE_WRITE_RETRIES`] times with growing pauses; beyond that, or
    /// on any fatal failure, the session is closed and the error given back.
    pub fn turn<T: Transport, C: Clock>(&mut self, session: &mut Session<T, C>, stop: bool) -> (step:
        HoldStep)
        ensures
            old(session)@.begins(final(session)@.record()),
            forall|o: Record| #[trigger]
                final(session)@.begins(o) ==> turn_run(*old(self), old(session)@, o, stop) == (
                    step@,
                    *final(self),
                    final(session)@,
                ),
    {
        let ghost h = *self;
        let ghost s0 = session@;
        proof {
            model::calls_are_kept(s0);
        }
        if stop {
            return HoldStep::Stopped;
        }
        let now: Instant = session.now();
        let ghost s1 = session@;
        proof {
            assert forall|o: Record| #[trigger] s1.begins(o) implies s0.next_now(o) == now by {
                model::time_is_recorded(s0, now, o);
            }
        }
        if now < self.next {
            return HoldStep::Early;
        }
        let sent: Instant = session.now();
        let ghost s2 = session@;
        let outcome = session.ping();
        let ghost s3 = session@;
        let ghost told = outcome@;
        proof {
            model::calls_are_kept(s1);
            model::begins_earlier(s0, s1, s2.record());
            model::begins_earlier(s0, s2, s3.record());
            assert forall|o: Record| #[trigger] s3.begins(o) implies turn_run(h, s0, o, stop)
                == after_ping(h, sent, told, s3) by {
                model::begins_earlier(s2, s3, o);
                model::time_is_recorded(s1, sent, o);
                assert(s1.begins(o));
            }
        }
        match outcome {
            KeepaliveOutcome::Sent(reply) => {
                let gap: Duration = match self.previous {
                    Some(earlier) => time::saturating_since(sent, earlier),
                    None => 0,
                };
                self.retries = 0;
                self.next = time::after(sent, self.interval);
                self.previous = Some(sent);
                HoldStep::Report(
                    HoldEvent::Pinged { reply, drained: session.drained_frames(), gap },
                )
            },
            KeepaliveOutcome::Retryable(error) => {
                if self.retries >= KEEPALIVE_WRITE_RETRIES {
                    let error = session.close(error);
                    assert(session@.record() == s3.record());
                    return HoldStep::Failed(error);
                }
                self.retries = self.retries + 1;
                self.retrying = true;
                HoldStep::Report(HoldEvent::Retrying { attempt: self.retries, error })
            },
            KeepaliveOutcome::Fatal(error) => HoldStep::Failed(error),
        }
    }
}

// ---------------------------------------------------------------------------
// Laws.
// ---------------------------------------------------------------------------

/// The pauses before retries grow by half a second each and stop growing at
/// two seconds.
pub proof fn retry_pauses_grow_and_cap(attempt: u32)
    ensures
        attempt <= 4 ==> retry_pause(attempt) == 500_000_000 * attempt,
        attempt >= 4 ==> retry_pause(attempt) == 2_000_000_000,
{
}

/// A stop is honoured before anything else: no call is made, and so nothing is
/// written.
pub proof fn stop_comes_first(h: Holding, s: State, o: Record)
    ensures
        turn_run(h, s, o, true) == (StepView::Stopped, h, s),
{
}

/// No Ping goes out before it is due: the turn that comes early writes
/// nothing, and one that writes was given a time at or after the due one.
pub proof fn pings_are_never_early(h: Holding, s: State, o: Record)
    requires
        s.closed is None,
    ensures
        turn_run(h, s, o, false).0 is Early <==> s.next_now(o) < h.next,
        crate::session::laws::written(turn_run(h, s, o, false).2.io)
            != crate::session::laws::written(s.io) ==> s.next_now(o) >= h.next,
{
    let now = s.next_now(o);
    if now >= h.next {
        let sent = s.timed(now).next_now(o);
        let (outcome, s2) = model::ping_run(s.timed(now).timed(sent), o);
        assert(after_ping(h, sent, outcome, s2).0 !is Early);
    }
}

/// The next Ping is due one interval after the write of the last one began,
/// and the one after it is reported with at least that gap.
pub proof fn gap_is_at_least_the_interval(h: Holding, s: State, o: Record, earlier: Instant)
    requires
        h.previous == Some(earlier),
        h.next == time::point_after(earlier as int, h.interval as int),
        h.next < u128::MAX,
        s.timed(s.next_now(o)).next_now(o) >= s.next_now(o),
    ensures
        turn_run(h, s, o, false).0 matches StepView::Report(EventView::Pinged { gap, .. }) ==> {
            &&& gap >= h.interval
            &&& turn_run(h, s, o, false).1.next == time::point_after(
                s.timed(s.next_now(o)).next_now(o) as int,
                h.interval as int,
            )
        },
{
}

/// A retryable failure is tried again three times and then given up, which
/// closes the session; a Ping that goes out starts the count afresh.
pub proof fn retries_are_bounded(h: Holding, sent: Instant, s: State, error: ErrorView)
    requires
        s.closed is None,
    ensures
        h.retries < 3 ==> after_ping(h, sent, model::OutcomeView::Retryable(error), s).0
            == StepView::Report(EventView::Retrying { attempt: (h.retries + 1) as u32, error }),
        h.retries >= 3 ==> {
            let (step, _, end) = after_ping(h, sent, model::OutcomeView::Retryable(error), s);
            step == StepView::Failed(error) && end.closed == Some(error)
        },
        forall|reply: OptionalReply|
            (#[trigger] after_ping(h, sent, model::OutcomeView::Sent(reply), s)).1.retries == 0,
{
}

/// A hold that failed leaves a closed session.
pub proof fn failed_hold_has_closed(h: Holding, s: State, o: Record)
    requires
        s.closed is None,
    ensures
        turn_run(h, s, o, false).0 matches StepView::Failed(error) ==> turn_run(
            h,
            s,
            o,
            false,
        ).2.closed == Some(error),
{
    let now = s.next_now(o);
    let s1 = s.timed(now);
    crate::session::laws::ping_keeps_or_closes(s1.timed(s1.next_now(o)), o);
}

/// A holding loop after some turns: what each turn came to, and where the loop
/// and the session stand.
pub struct HoldRun {
    pub steps: Seq<StepView>,
    pub holding: Holding,
    pub session: State,
}

/// A holding loop that takes one turn after another, each after a wait that
/// said whether a stop was requested.
pub open spec fn hold_run(h: Holding, s: State, o: Record, stops: Seq<bool>) -> HoldRun
    decreases stops.len(),
{
    if stops.len() == 0 {
        HoldRun { steps: Seq::empty(), holding: h, session: s }
    } else {
        let run = hold_run(h, s, o, stops.drop_last());
        let (_, h1, s1) = wait_run(run.holding, run.session, o);
        let (step, h2, s2) = turn_run(h1, s1, o, stops.last());
        HoldRun { steps: run.steps.push(step), holding: h2, session: s2 }
    }
}

/// Whether a step ends the hold.
pub open spec fn ends_hold(step: StepView) -> bool {
    step is Stopped || step is Failed
}

/// Whether the hold is not over before its last turn.
pub open spec fn hold_goes_on(h: Holding, s: State, o: Record, stops: Seq<bool>) -> bool
    decreases stops.len(),
{
    stops.len() == 0 || {
        let earlier = stops.drop_last();
        hold_goes_on(h, s, o, earlier) && (earlier.len() > 0 ==> !ends_hold(
            hold_run(h, s, o, earlier).steps.last(),
        ))
    }
}

proof fn lemma_turn_keeps_or_closes(h: Holding, s: State, o: Record, stop: bool)
    requires
        s.closed is None,
    ensures
        match turn_run(h, s, o, stop).0 {
            StepView::Failed(error) => turn_run(h, s, o, stop).2.closed == Some(error),
            _ => turn_run(h, s, o, stop).2.closed is None,
        },
        turn_run(h, s, o, stop).0 is Stopped <==> stop,
{
    let now = s.next_now(o);
    let s1 = s.timed(now);
    crate::session::laws::ping_keeps_or_closes(s1.timed(s1.next_now(o)), o);
}

/// A hold ends well exactly when a wait asked it to stop, and then at once: the
/// stop is reported once, as the last thing. It ends with an error only once
/// that error has closed the session, and leaves the session open otherwise.
pub proof fn hold_ends_once(h: Holding, s: State, o: Record, stops: Seq<bool>)
    requires
        s.closed is None,
        hold_goes_on(h, s, o, stops),
    ensures
        ({
            let run = hold_run(h, s, o, stops);
            let n = stops.len();
            &&& run.steps.len() == n
            &&& forall|i: int|
                0 <= i < n - 1 ==> !ends_hold(#[trigger] run.steps[i]) && !stops[i]
            &&& n > 0 ==> (run.steps[n - 1] is Stopped <==> stops[n - 1])
            &&& if n > 0 && run.steps[n - 1] is Failed {
                run.session.closed == Some(run.steps[n - 1]->Failed_0)
            } else {
                run.session.closed is None
            }
        }),
    decreases stops.len(),
{
    if stops.len() > 0 {
        let earlier = stops.drop_last();
        hold_ends_once(h, s, o, earlier);
        let run = hold_run(h, s, o, earlier);
        let (_, h1, s1) = wait_run(run.holding, run.session, o);
        assert(s1.closed is None);
        lemma_turn_keeps_or_closes(h1, s1, o, stops.last());
        let steps = hold_run(h, s, o, stops).steps;
        assert forall|i: int| 0 <= i < stops.len() - 1 implies !ends_hold(#[trigger] steps[i])
            && !stops[i] by {
            assert(steps[i] == run.steps[i]);
            assert(stops[i] == earlier[i]);
        }
    }
}

/// When the Ping of the last turn begins, if that turn begins one.
pub open spec fn ping_begins(h: Holding, s: State, o: Record, stops: Seq<bool>) -> Option<Instant> {
    let run = hold_run(h, s, o, stops.drop_last());
    let (_, h1, s1) = wait_run(run.holding, run.session, o);
    if stops.last() || s1.next_now(o) < h1.next {
        None
    } else {
        Some(s1.timed(s1.next_now(o)).next_now(o))
    }
}

/// Whether the clock did not run backwards within the last turn.
pub open spec fn turn_runs_forward(h: Holding, s: State, o: Record, stops: Seq<bool>) -> bool {
    let run = hold_run(h, s, o, stops.drop_last());
    let (_, _, s1) = wait_run(run.holding, run.session, o);
    s1.timed(s1.next_now(o)).next_now(o) >= s1.next_now(o)
}

/// When the last Ping that was sent began.
pub open spec fn last_sent(h: Holding, s: State, o: Record, stops: Seq<bool>) -> Option<Instant>
    decreases stops.len(),
{
    if stops.len() == 0 {
        None
    } else if hold_run(h, s, o, stops).steps.last() matches StepView::Report(
        EventView::Pinged { .. },
    ) {
        ping_begins(h, s, o, stops)
    } else {
        last_sent(h, s, o, stops.drop_last())
    }
}

/// Whether a retry was called for since the last Ping that was sent.
pub open spec fn retry_owed(h: Holding, s: State, o: Record, stops: Seq<bool>) -> bool
    decreases stops.len(),
{
    stops.len() > 0 && match hold_run(h, s, o, stops).steps.last() {
        StepView::Report(EventView::Pinged { .. }) => false,
        StepView::Report(EventView::Retrying { .. }) => true,
        _ => retry_owed(h, s, o, stops.drop_last()),
    }
}

proof fn lemma_hold_remembers(h: Holding, s: State, o: Record, stops: Seq<bool>)
    requires
        h.previous is None,
        h.retries == 0,
        !h.retrying,
        hold_goes_on(h, s, o, stops),
    ensures
        ({
            let now = hold_run(h, s, o, stops).holding;
            let sent = last_sent(h, s, o, stops);
            &&& now.interval == h.interval
            &&& now.previous == sent
            &&& (now.retries > 0) == retry_owed(h, s, o, stops)
            &&& now.retries == 0 ==> {
                &&& !now.retrying
                &&& now.next == match sent {
                    Some(begun) => time::point_after(begun as int, h.interval as int),
                    None => h.next as int,
                }
            }
        }),
    decreases stops.len(),
{
    if stops.len() > 0 {
        lemma_hold_remembers(h, s, o, stops.drop_last());
    }
}

/// Each Ping begins at least an interval after the last one that was sent, and
/// the first when it is due, unless it is a retry; and the gap that is reported
/// is the time between the two. The clock may run as it likes, but not
/// backwards within the turn.
pub proof fn pings_keep_the_interval(h: Holding, s: State, o: Record, stops: Seq<bool>)
    requires
        h.previous is None,
        h.retries == 0,
        !h.retrying,
        stops.len() > 0,
        hold_goes_on(h, s, o, stops),
        turn_runs_forward(h, s, o, stops),
    ensures
        ({
            let earlier = last_sent(h, s, o, stops.drop_last());
            let step = hold_run(h, s, o, stops).steps.last();
            &&& ping_begins(h, s, o, stops) is Some <==> !(step is Early || step is Stopped)
            &&& ping_begins(h, s, o, stops) matches Some(begin) ==> {
                &&& !retry_owed(h, s, o, stops.drop_last()) ==> begin >= match earlier {
                    Some(begun) => time::point_after(begun as int, h.interval as int),
                    None => h.next as int,
                }
                &&& step matches StepView::Report(EventView::Pinged { gap, .. }) ==> gap
                    == match earlier {
                    Some(begun) => time::span_since(begin as int, begun as int),
                    None => 0,
                }
            }
        }),
{
    lemma_hold_remembers(h, s, o, stops.drop_last());
}

/// The wait before a turn lasts until the next Ping is due, from the clock's
/// last word on. Before a retry the pause comes first, half a second for each
/// failed write in a row and two seconds at most, and the retry is due when it
/// is over.
pub proof fn waits_last_until_the_ping_is_due(h: Holding, s: State, o: Record)
    ensures
        ({
            let (span, after, end) = wait_run(h, s, o);
            let n = s.ticks.len() as int;
            &&& end.io == s.io
            &&& end.ticks.len() > 0
            &&& end.ticks.last() matches crate::session::Tick::Now(now)
            &&& time::lasts_until(span as int, now as int, after.next as int)
            &&& !after.retrying
            &&& after.retries == h.retries
            &&& after.interval == h.interval
            &&& after.previous == h.previous
            &&& if h.retrying {
                &&& end.ticks[n] == crate::session::Tick::Slept(
                    if h.retries < 4 {
                        (500_000_000 * h.retries) as u128
                    } else {
                        2_000_000_000
                    },
                )
                &&& end.ticks[n + 1] == crate::session::Tick::Now(after.next)
            } else {
                after.next == h.next
            }
        }),
{
}

} // verus!
