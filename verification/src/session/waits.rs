//! How long a session waits for answers, and what it allows its writes.

use vstd::prelude::*;

use crate::session::laws::{
    clock_floor, drain_fails_closed, lemma_next_reading, lemma_probe_grows, lemma_search,
    lemma_send, probe_frame, runs_true, write_closes_only_when_lost,
};
use crate::session::model::{
    bootstrap_exchange_run, bootstrap_run, bootstrap_verdict, bootstrap_wait_run, drain_left,
    drain_rounds_run, drain_run, execute_run, longer_backoff, optional_reply_run, ping_run,
    probe_answer_run, probe_run, probe_timeout, readiness_left, search_left, search_run, send_run,
    sweep, sweep_of, tracked_verdict, tracked_wait_run, write_run, write_tracked_only_run,
    ErrorView, Record, Skipped, State, Sweep,
};
use crate::session::{OptionalReply, Tick, MAX_SKIPPED_FRAMES};
use crate::time::{span_end, Duration, Instant};
use crate::transport::{Exchange, WriteError};
use crate::wire::field;

verus! {

// ---------------------------------------------------------------------------
// Waiting for input.
// ---------------------------------------------------------------------------

/// Whether waiting for input until `deadline` was the last that was done: the
/// clock said that it is reached, or a read that was to last until then brought
/// nothing.
pub open spec fn waited_until(end: State, deadline: int) -> bool {
    &&& end.ticks.len() > 0
    &&& end.ticks.last() matches Tick::Now(now)
    &&& now >= deadline || {
        &&& end.io.len() > 0
        &&& end.io.last() matches Exchange::Read { timeout, received }
        &&& received matches Ok(bytes) && bytes.len() == 0
        &&& now + timeout == deadline
    }
}

/// Whether waiting for input until `deadline` or later was the last that was
/// done.
pub open spec fn waited_past(end: State, deadline: int) -> bool {
    &&& end.ticks.len() > 0
    &&& end.ticks.last() matches Tick::Now(now)
    &&& now >= deadline || {
        &&& end.io.len() > 0
        &&& end.io.last() matches Exchange::Read { timeout, received }
        &&& received matches Ok(bytes) && bytes.len() == 0
        &&& now + timeout >= deadline
    }
}

/// The search for a frame ends with none only once it has waited until its
/// deadline.
pub proof fn searches_wait_until_their_deadline(
    s: State,
    o: Record,
    deadline: Instant,
    discarded: nat,
)
    requires
        s.closed is None,
    ensures
        search_run(s, o, deadline, discarded).0 == Ok::<Option<Seq<u8>>, ErrorView>(None)
            ==> waited_until(search_run(s, o, deadline, discarded).1, deadline as int),
    decreases search_left(s.stream, discarded),
{
    let (taken, rest, dropped) = crate::frame::resync_from(s.stream, discarded);
    crate::frame::resync_accounts_for_every_byte(s.stream, discarded);
    if taken == Ok::<Option<Seq<u8>>, crate::frame::FrameError>(None) {
        let s1 = s.with_stream(rest);
        let now = s1.next_now(o);
        let s2 = s1.timed(now);
        if now < deadline {
            let result = s2.next_read(o);
            let timeout = (deadline - now) as u128;
            if let Ok(bytes) = result {
                if bytes.len() > 0 {
                    let s3 = s2.read(timeout, result).with_stream(rest + bytes);
                    searches_wait_until_their_deadline(s3, o, deadline, dropped);
                }
            }
        }
    }
}

proof fn lemma_tracked_wait_lasts(
    s: State,
    o: Record,
    track: u64,
    expected: u32,
    keep_open: bool,
    deadline: Instant,
    discarded: nat,
    skipped: Skipped,
)
    requires
        s.closed is None,
    ensures
        ({
            let (result, end) = tracked_wait_run(
                s,
                o,
                track,
                expected,
                keep_open,
                deadline,
                discarded,
                skipped,
            );
            result matches Err(error) ==> (error is Timeout || error is IncompleteResponse)
                ==> waited_until(end, deadline as int)
        }),
    decreases MAX_SKIPPED_FRAMES - skipped.frames,
{
    lemma_search(s, o, deadline, discarded);
    searches_wait_until_their_deadline(s, o, deadline, discarded);
    let (found, s1, discarded) = search_run(s, o, deadline, discarded);
    if let Ok(Some(payload)) = found {
        let more = skipped.and(payload.len());
        if tracked_verdict(payload, track, expected) is Skip && more.allowed() {
            lemma_tracked_wait_lasts(
                s1,
                o,
                track,
                expected,
                keep_open,
                deadline,
                discarded,
                more,
            );
        }
    }
}

proof fn lemma_bootstrap_wait_lasts(
    s: State,
    o: Record,
    expected: u32,
    deadline: Instant,
    discarded: nat,
    skipped: Skipped,
)
    requires
        s.closed is None,
    ensures
        ({
            let (result, end) = bootstrap_wait_run(s, o, expected, deadline, discarded, skipped);
            result matches Err(error) ==> error is Timeout ==> waited_until(end, deadline as int)
        }),
    decreases MAX_SKIPPED_FRAMES - skipped.frames,
{
    lemma_search(s, o, deadline, discarded);
    searches_wait_until_their_deadline(s, o, deadline, discarded);
    let (found, s1, discarded) = search_run(s, o, deadline, discarded);
    if let Ok(Some(payload)) = found {
        let more = skipped.and(payload.len());
        if bootstrap_verdict(payload, expected) is Skip && more.allowed() {
            lemma_bootstrap_wait_lasts(s1, o, expected, deadline, discarded, more);
        }
    }
}

/// A request's response may take three seconds from when the request was
/// written: a tracked exchange times out, or gives up on a partial response,
/// only once it has waited that long.
pub proof fn responses_may_take_three_seconds(
    s: State,
    o: Record,
    payload: Seq<u8>,
    expected: u32,
    keep_open: bool,
)
    requires
        s.closed is None,
    ensures
        ({
            let (result, end) = execute_run(s, o, payload, expected, keep_open);
            let frame = crate::frame::frame_of(payload);
            let written = send_run(s.with_track_taken(), o, frame, 3_000_000_000).1;
            result matches Err(error) ==> (error is Timeout || error is IncompleteResponse)
                ==> waited_until(end, span_end(written.next_now(o), 3_000_000_000))
        }),
{
    reveal(execute_run);
    let frame = crate::frame::frame_of(payload);
    let s0 = s.with_track_taken();
    lemma_send(s0, o, frame, 3_000_000_000);
    lemma_send_error(s0, o, frame, 3_000_000_000);
    let (sent, s1) = send_run(s0, o, frame, 3_000_000_000);
    if sent is Ok {
        let now = s1.next_now(o);
        lemma_tracked_wait_lasts(
            s1.timed(now),
            o,
            crate::session::model::track_from(s.next_track),
            expected,
            keep_open,
            span_end(now, 3_000_000_000) as u128,
            0,
            Skipped::none(),
        );
    }
}

proof fn lemma_send_error(s: State, o: Record, frame: Seq<u8>, timeout: Duration)
    requires
        s.closed is None,
    ensures
        send_run(s, o, frame, timeout).0 matches Err(error) ==> !(error is Timeout || error
            is IncompleteResponse),
{
    reveal(send_run);
    drain_fails_closed(s, o);
    lemma_drain_error(s.timed(s.next_now(o)), o, s.next_now(o), sweep_of(s.stream));
    if drain_run(s, o).0 is Ok {
        write_closes_only_when_lost(drain_run(s, o).1, o, frame, timeout);
    }
}

proof fn lemma_drain_error(s: State, o: Record, started: Instant, w: Sweep)
    requires
        s.closed is None,
        w.skipped.allowed(),
    ensures
        drain_rounds_run(s, o, started, w).0 matches Err(error) ==> error is Frame || error is Read
            || error is TooManySkipped,
    decreases drain_left(w),
{
    let (failure, end) = sweep(w);
    crate::session::model::sweep_accounts_for_every_byte(w);
    crate::session::laws::lemma_sweep_failure(w);
    if failure is None {
        let s1 = s.with_stream(end.rest);
        let s2 = s1.timed(s1.next_now(o));
        let result = s2.next_read(o);
        if let Ok(bytes) = result {
            if bytes.len() > 0 {
                lemma_drain_error(
                    s2.read(0, result).with_stream(end.rest + bytes),
                    o,
                    started,
                    Sweep { rest: end.rest + bytes, ..end },
                );
            }
        }
    }
}

/// The two exchanges that end a bootstrap may take three seconds each, from when
/// the request was written.
pub proof fn bootstrap_responses_may_take_three_seconds(
    s: State,
    o: Record,
    payload: Seq<u8>,
    expected: u32,
)
    requires
        s.closed is None,
    ensures
        ({
            let (result, end) = bootstrap_exchange_run(s, o, payload, expected);
            let frame = crate::frame::frame_of(payload);
            let written = send_run(s, o, frame, 2_000_000_000).1;
            result matches Err(error) ==> error is Timeout ==> waited_until(
                end,
                span_end(written.next_now(o), 3_000_000_000),
            )
        }),
{
    reveal(bootstrap_exchange_run);
    let frame = crate::frame::frame_of(payload);
    lemma_send(s, o, frame, 2_000_000_000);
    let (sent, s1) = send_run(s, o, frame, 2_000_000_000);
    if sent is Ok {
        let now = s1.next_now(o);
        lemma_bootstrap_wait_lasts(
            s1.timed(now),
            o,
            expected,
            span_end(now, 3_000_000_000) as u128,
            0,
            Skipped::none(),
        );
    }
}

/// An optional reply is given a quarter of a second: that there was none is said
/// only after that long.
pub proof fn optional_replies_are_given_a_quarter_second(s: State, o: Record, track: Option<u64>)
    requires
        s.closed is None,
    ensures
        ({
            let (result, end) = optional_reply_run(s, o, track);
            result == Ok::<OptionalReply, ErrorView>(OptionalReply::Nothing) ==> waited_until(
                end,
                span_end(s.next_now(o), 250_000_000),
            )
        }),
{
    reveal(optional_reply_run);
    let now = s.next_now(o);
    searches_wait_until_their_deadline(
        s.timed(now),
        o,
        span_end(now, 250_000_000) as u128,
        0,
    );
}

/// A drain does not wait: it ends once a read that was to take no time brings
/// nothing, or a quarter of a second after it began.
pub proof fn drains_do_not_wait(s: State, o: Record)
    requires
        s.closed is None,
    ensures
        ({
            let (result, end) = drain_run(s, o);
            result is Ok ==> {
                &&& end.ticks.len() > 0
                &&& end.ticks.last() matches Tick::Now(now)
                &&& now >= s.next_now(o) + 250_000_000 || {
                    &&& end.io.len() > 0
                    &&& end.io.last() matches Exchange::Read { timeout, received }
                    &&& received matches Ok(bytes) && bytes.len() == 0
                    &&& timeout == 0
                }
            }
        }),
{
    let started = s.next_now(o);
    lemma_drain_ends(s.timed(started), o, started, sweep_of(s.stream));
}

proof fn lemma_drain_ends(s: State, o: Record, started: Instant, w: Sweep)
    requires
        s.closed is None,
        w.skipped.allowed(),
    ensures
        ({
            let (result, end) = drain_rounds_run(s, o, started, w);
            result is Ok ==> {
                &&& end.ticks.len() > 0
                &&& end.ticks.last() matches Tick::Now(now)
                &&& now >= started + 250_000_000 || {
                    &&& end.io.len() > 0
                    &&& end.io.last() matches Exchange::Read { timeout, received }
                    &&& received matches Ok(bytes) && bytes.len() == 0
                    &&& timeout == 0
                }
            }
        }),
    decreases drain_left(w),
{
    let (failure, end) = sweep(w);
    crate::session::model::sweep_accounts_for_every_byte(w);
    if failure is None {
        let s1 = s.with_stream(end.rest);
        let s2 = s1.timed(s1.next_now(o));
        let result = s2.next_read(o);
        if let Ok(bytes) = result {
            if bytes.len() > 0 {
                lemma_drain_ends(
                    s2.read(0, result).with_stream(end.rest + bytes),
                    o,
                    started,
                    Sweep { rest: end.rest + bytes, ..end },
                );
            }
        }
    }
}

// ---------------------------------------------------------------------------
// Waiting for the device to become ready.
// ---------------------------------------------------------------------------

proof fn lemma_probe_answer_lasts(s: State, o: Record, started: Instant)
    requires
        s.closed is None,
        runs_true(o.ticks),
        started <= clock_floor(s.ticks),
        probe_answer_run(s, o, started).1.begins(o),
    ensures
        ({
            let (result, end) = probe_answer_run(s, o, started);
            result matches Err(error) ==> error is Timeout ==> waited_past(
                end,
                span_end(started, 20_000_000_000),
            )
        }),
{
    reveal(probe_answer_run);
    let end = probe_answer_run(s, o, started).1;
    let now = s.next_now(o);
    let s1 = s.timed(now);
    crate::session::model::calls_are_kept(s);
    let left = readiness_left(now, started);
    if left != 0 {
        let later = s1.next_now(o);
        let s2 = s1.timed(later);
        let deadline = crate::time::point_after(later as int, left) as u128;
        crate::session::model::calls_are_kept(s1);
        crate::session::laws::lemma_bootstrap_wait_grows(
            s2,
            o,
            field::DEVICE_INFORMATION,
            deadline,
            0,
            Skipped::none(),
        );
        crate::session::model::begins_earlier(s1, s2, end.record());
        lemma_next_reading(s, o, end);
        lemma_next_reading(s1, o, end);
        lemma_bootstrap_wait_lasts(
            s2,
            o,
            field::DEVICE_INFORMATION,
            deadline,
            0,
            Skipped::none(),
        );
        assert(deadline >= span_end(started, 20_000_000_000));
    } else {
        crate::session::model::begins_earlier(s, s1, end.record());
        lemma_next_reading(s, o, end);
    }
}

/// A device is given twenty seconds to become ready, from when it was first
/// asked: with a clock that never runs backwards, the wait for its answer times
/// out only once it has lasted until then, and the device counts as not ready
/// only once the clock has said so.
pub proof fn devices_are_given_twenty_seconds(
    s: State,
    o: Record,
    started: Instant,
    attempts: u32,
    backoff: Duration,
)
    requires
        s.closed is None,
        runs_true(o.ticks),
        started <= clock_floor(s.ticks),
        probe_run(s, o, started, attempts, backoff).1.begins(o),
    ensures
        ({
            let (result, end) = probe_run(s, o, started, attempts, backoff);
            match result {
                Err(ErrorView::Timeout) => waited_past(end, span_end(started, 20_000_000_000)),
                Err(ErrorView::NotReady { attempts: made }) => made == u32::MAX || (
                end.ticks.len() > 0 && end.ticks.last() is Now && end.ticks.last()->Now_0
                    >= started + 20_000_000_000),
                _ => true,
            }
        }),
    decreases u32::MAX - attempts,
{
    let end = probe_run(s, o, started, attempts, backoff).1;
    let now = s.next_now(o);
    let s1 = s.timed(now);
    let left = readiness_left(now, started);
    lemma_probe_grows(s, o, started, attempts, backoff);
    lemma_next_reading(s, o, end);
    if left != 0 && attempts != u32::MAX {
        let timeout = probe_timeout(left) as u128;
        let (sent, s2) = write_run(s1, o, probe_frame(), timeout);
        write_closes_only_when_lost(s1, o, probe_frame(), timeout);
        if sent is Ok {
            lemma_probe_answer_lasts(s2, o, started);
            crate::session::laws::lemma_probe_answer_error(s2, o, started);
        } else if sent == Err::<(), ErrorView>(ErrorView::Write(WriteError::TimedOut)) {
            let later = s2.next_now(o);
            let s3 = s2.timed(later);
            let left = readiness_left(later, started);
            if left != 0 {
                let pause = crate::time::shorter_of(backoff as int, left) as u128;
                let s4 = s3.paused(pause);
                let more = (attempts + 1) as u32;
                let next = longer_backoff(backoff);
                lemma_probe_grows(s4, o, started, more, next);
                assert(s3.begins(end.record())) by {
                    crate::session::model::calls_are_kept(s3);
                    crate::session::model::begins_earlier(s3, s4, end.record());
                }
                lemma_next_reading(s2, o, end);
                assert(s4.ticks.drop_last() == s3.ticks);
                devices_are_given_twenty_seconds(s4, o, started, more, next);
            } else {
                crate::session::model::calls_are_kept(s2);
                lemma_next_reading(s2, o, end);
            }
        }
    }
}

/// A bootstrap that ends while the device has not answered has given it twenty
/// seconds, counted from when what was buffered had been drained.
pub proof fn bootstraps_wait_for_the_device(s: State, o: Record)
    requires
        s.closed is None,
        runs_true(o.ticks),
        bootstrap_run(s, o).1.begins(o),
    ensures
        ({
            let (result, end) = bootstrap_run(s, o);
            let (drained, quiet) = drain_run(s, o);
            let started = quiet.next_now(o);
            let answered = probe_run(quiet.timed(started), o, started, 0, 500_000_000).0 is Ok;
            drained is Ok && !answered ==> match result {
                Err(ErrorView::Timeout) => waited_past(end, span_end(started, 20_000_000_000)),
                Err(ErrorView::NotReady { attempts }) => attempts == u32::MAX || (
                end.ticks.len() > 0 && end.ticks.last() is Now && end.ticks.last()->Now_0
                    >= started + 20_000_000_000),
                _ => result is Err,
            }
        }),
{
    drain_fails_closed(s, o);
    let (drained, quiet) = drain_run(s, o);
    let started = quiet.next_now(o);
    let s1 = quiet.timed(started);
    if drained is Ok && probe_run(s1, o, started, 0, 500_000_000).0 is Err {
        devices_are_given_twenty_seconds(s1, o, started, 0, 500_000_000);
    }
}

// ---------------------------------------------------------------------------
// What writes are allowed.
// ---------------------------------------------------------------------------

/// How long each write was allowed to take, in order.
pub open spec fn limits(io: Seq<Exchange>) -> Seq<Duration>
    decreases io.len(),
{
    if io.len() == 0 {
        Seq::empty()
    } else {
        match io.last() {
            Exchange::Write { timeout, .. } => limits(io.drop_last()).push(timeout),
            Exchange::Read { .. } => limits(io.drop_last()),
        }
    }
}

proof fn lemma_search_limits(s: State, o: Record, deadline: Instant, discarded: nat)
    ensures
        limits(search_run(s, o, deadline, discarded).1.io) == limits(s.io),
    decreases search_left(s.stream, discarded),
{
    let (taken, rest, dropped) = crate::frame::resync_from(s.stream, discarded);
    crate::frame::resync_accounts_for_every_byte(s.stream, discarded);
    if taken == Ok::<Option<Seq<u8>>, crate::frame::FrameError>(None) {
        let s1 = s.with_stream(rest);
        let now = s1.next_now(o);
        let s2 = s1.timed(now);
        if now < deadline {
            let result = s2.next_read(o);
            let s3 = s2.read((deadline - now) as u128, result);
            assert(s3.io.drop_last() == s.io);
            if let Ok(bytes) = result {
                if bytes.len() > 0 {
                    lemma_search_limits(s3.with_stream(rest + bytes), o, deadline, dropped);
                }
            }
        }
    }
}

proof fn lemma_drain_limits(s: State, o: Record, started: Instant, w: Sweep)
    requires
        w.skipped.allowed(),
    ensures
        limits(drain_rounds_run(s, o, started, w).1.io) == limits(s.io),
    decreases drain_left(w),
{
    let (failure, end) = sweep(w);
    crate::session::model::sweep_accounts_for_every_byte(w);
    if failure is None {
        let s1 = s.with_stream(end.rest);
        let s2 = s1.timed(s1.next_now(o));
        let result = s2.next_read(o);
        let s3 = s2.read(0, result);
        assert(s3.io.drop_last() == s.io);
        if let Ok(bytes) = result {
            if bytes.len() > 0 {
                lemma_drain_limits(
                    s3.with_stream(end.rest + bytes),
                    o,
                    started,
                    Sweep { rest: end.rest + bytes, ..end },
                );
            }
        }
    }
}

proof fn lemma_drained_limits(s: State, o: Record)
    ensures
        limits(drain_run(s, o).1.io) == limits(s.io),
{
    if s.closed is None {
        let started = s.next_now(o);
        lemma_drain_limits(s.timed(started), o, started, sweep_of(s.stream));
    }
}

/// Whether `after` is `before`, or `before` and one write that was allowed
/// `limit`.
pub open spec fn at_most_one_write(before: State, after: State, limit: int) -> bool {
    limits(after.io) == limits(before.io) || limits(after.io) == limits(before.io).push(
        limit as u128,
    )
}

proof fn lemma_send_limits(s: State, o: Record, frame: Seq<u8>, timeout: Duration)
    ensures
        at_most_one_write(s, send_run(s, o, frame, timeout).1, timeout as int),
{
    reveal(send_run);
    lemma_drained_limits(s, o);
    let s1 = drain_run(s, o).1;
    assert(s1.wrote(frame, timeout, s1.next_write(o)).io.drop_last() == s1.io);
}

proof fn lemma_optional_reply_limits(s: State, o: Record, track: Option<u64>)
    ensures
        limits(optional_reply_run(s, o, track).1.io) == limits(s.io),
{
    reveal(optional_reply_run);
    let now = s.next_now(o);
    lemma_search_limits(s.timed(now), o, span_end(now, 250_000_000) as u128, 0);
}

proof fn lemma_tracked_wait_limits(
    s: State,
    o: Record,
    track: u64,
    expected: u32,
    keep_open: bool,
    deadline: Instant,
    discarded: nat,
    skipped: Skipped,
)
    ensures
        limits(
            tracked_wait_run(
                s,
                o,
                track,
                expected,
                keep_open,
                deadline,
                discarded,
                skipped,
            ).1.io,
        ) == limits(s.io),
    decreases MAX_SKIPPED_FRAMES - skipped.frames,
{
    lemma_search_limits(s, o, deadline, discarded);
    let (found, s1, discarded) = crate::session::model::read_frame_run(s, o, deadline, discarded);
    if let Ok(Some(payload)) = found {
        let more = skipped.and(payload.len());
        if tracked_verdict(payload, track, expected) is Skip && more.allowed() {
            lemma_tracked_wait_limits(
                s1,
                o,
                track,
                expected,
                keep_open,
                deadline,
                discarded,
                more,
            );
        }
    }
}

proof fn lemma_bootstrap_wait_limits(
    s: State,
    o: Record,
    expected: u32,
    deadline: Instant,
    discarded: nat,
    skipped: Skipped,
)
    ensures
        limits(bootstrap_wait_run(s, o, expected, deadline, discarded, skipped).1.io) == limits(
            s.io,
        ),
    decreases MAX_SKIPPED_FRAMES - skipped.frames,
{
    lemma_search_limits(s, o, deadline, discarded);
    let (found, s1, discarded) = crate::session::model::read_frame_run(s, o, deadline, discarded);
    if let Ok(Some(payload)) = found {
        let more = skipped.and(payload.len());
        if bootstrap_verdict(payload, expected) is Skip && more.allowed() {
            lemma_bootstrap_wait_limits(s1, o, expected, deadline, discarded, more);
        }
    }
}

/// A Ping may take two seconds to be written, and so may each request of a
/// bootstrap after the first; a tracked request may take three.
pub proof fn writes_are_given_their_time(
    s: State,
    o: Record,
    payload: Seq<u8>,
    expected: u32,
    keep_open: bool,
)
    ensures
        at_most_one_write(s, ping_run(s, o).1, 2_000_000_000),
        at_most_one_write(s, bootstrap_exchange_run(s, o, payload, expected).1, 2_000_000_000),
        at_most_one_write(s, write_tracked_only_run(s, o, payload).1, 3_000_000_000),
        at_most_one_write(s, execute_run(s, o, payload, expected, keep_open).1, 3_000_000_000),
{
    let ping = crate::frame::frame_of(crate::wire::keepalive_ping_bytes());
    let frame = crate::frame::frame_of(payload);
    lemma_drained_limits(s, o);
    let quiet = drain_run(s, o).1;
    assert(quiet.wrote(ping, 2_000_000_000, quiet.next_write(o)).io.drop_last() == quiet.io);
    lemma_optional_reply_limits(write_run(quiet, o, ping, 2_000_000_000).1, o, None);
    reveal(bootstrap_exchange_run);
    lemma_send_limits(s, o, frame, 2_000_000_000);
    let s1 = send_run(s, o, frame, 2_000_000_000).1;
    let now = s1.next_now(o);
    lemma_bootstrap_wait_limits(
        s1.timed(now),
        o,
        expected,
        span_end(now, 3_000_000_000) as u128,
        0,
        Skipped::none(),
    );
    reveal(write_tracked_only_run);
    reveal(execute_run);
    let track = crate::session::model::track_from(s.next_track);
    let s0 = s.with_track_taken();
    lemma_send_limits(s0, o, frame, 3_000_000_000);
    let s2 = send_run(s0, o, frame, 3_000_000_000).1;
    lemma_optional_reply_limits(s2, o, Some(track));
    let now = s2.next_now(o);
    lemma_tracked_wait_limits(
        s2.timed(now),
        o,
        track,
        expected,
        keep_open,
        span_end(now, 3_000_000_000) as u128,
        0,
        Skipped::none(),
    );
}

/// A DeviceInfo request may take two seconds to be written, but not longer than
/// what is left of the twenty seconds that the device is given, and a
/// millisecond in any case.
pub proof fn probes_are_given_their_time(
    s: State,
    o: Record,
    started: Instant,
    attempts: u32,
    backoff: Duration,
)
    requires
        s.closed is None,
    ensures
        ({
            let made = limits(probe_run(s, o, started, attempts, backoff).1.io);
            let before = limits(s.io);
            let left = started + 20_000_000_000 - s.next_now(o);
            &&& before.is_prefix_of(made)
            &&& made.len() > before.len() ==> left > 0
            &&& made.len() > before.len() && s.next_now(o) >= started ==> {
                let first = made[before.len() as int];
                &&& first <= 2_000_000_000
                &&& left >= 2_000_000_000 ==> first == 2_000_000_000
                &&& 1_000_000 <= left < 2_000_000_000 ==> first == left
                &&& left < 1_000_000 ==> first == 1_000_000
            }
        }),
    decreases u32::MAX - attempts,
{
    let now = s.next_now(o);
    let s1 = s.timed(now);
    let left = readiness_left(now, started);
    if left != 0 && attempts != u32::MAX {
        let timeout = probe_timeout(left) as u128;
        let (sent, s2) = write_run(s1, o, probe_frame(), timeout);
        assert(s2.io.drop_last() == s1.io);
        assert(limits(s2.io) == limits(s.io).push(timeout));
        if sent is Ok {
            reveal(probe_answer_run);
            let later = s2.next_now(o);
            let s3 = s2.timed(later);
            let left = readiness_left(later, started);
            let then = s3.next_now(o);
            lemma_bootstrap_wait_limits(
                s3.timed(then),
                o,
                field::DEVICE_INFORMATION,
                crate::time::point_after(then as int, left) as u128,
                0,
                Skipped::none(),
            );
        } else if sent == Err::<(), ErrorView>(ErrorView::Write(WriteError::TimedOut)) {
            let later = s2.next_now(o);
            let s3 = s2.timed(later);
            let left = readiness_left(later, started);
            if left != 0 {
                let pause = crate::time::shorter_of(backoff as int, left) as u128;
                probes_are_given_their_time(
                    s3.paused(pause),
                    o,
                    started,
                    (attempts + 1) as u32,
                    longer_backoff(backoff),
                );
                let made = limits(probe_run(s, o, started, attempts, backoff).1.io);
                assert(limits(s2.io).is_prefix_of(made));
                assert(made[limits(s.io).len() as int] == limits(s2.io)[limits(s.io).len() as int]);
            }
        }
    }
}

/// Before a request that timed out is asked again, a quarter of a second passes;
/// and it is asked again exactly if the first answer timed out.
pub proof fn second_queries_wait_a_quarter_second(s: State, o: Record)
    ensures
        ({
            let track = crate::session::model::track_from(s.next_track);
            let first = execute_run(
                s,
                o,
                crate::wire::user_configuration_query_bytes(track),
                field::USER_CONFIGURATION,
                true,
            );
            let (result, end) = crate::session::model::query_run(s, o);
            match first.0 {
                Ok(_) => end.ticks == first.1.ticks && end.io == first.1.io,
                Err(error) => if error is Timeout {
                    let again = first.1.paused(250_000_000);
                    let track = crate::session::model::track_from(again.next_track);
                    let second = execute_run(
                        again,
                        o,
                        crate::wire::user_configuration_query_bytes(track),
                        field::USER_CONFIGURATION,
                        false,
                    );
                    end.ticks == second.1.ticks && end.io == second.1.io && (second.0 is Err
                        ==> result is Err)
                } else {
                    end == first.1 && result == Err::<
                        crate::wire::UserConfigurationView,
                        ErrorView,
                    >(error)
                },
            }
        }),
{
    reveal_with_fuel(crate::session::model::query_attempts_run, 3);
}

} // verus!
