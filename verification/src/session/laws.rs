//! What holds of every session, whatever its clock and its transport answer.

use vstd::prelude::*;

use crate::session::model::{
    activate_run, bootstrap_exchange_run, bootstrap_rest_run, bootstrap_run, bootstrap_wait_run,
    drain_left, drain_rounds_run, drain_run, execute_run, longer_backoff,
    optional_reply_run, ping_run, probe_answer_run, probe_run, query_attempts_run, query_run,
    read_frame_run, search_left, search_run, send_run, sweep, sweep_of, track_from,
    tracked_verdict, tracked_wait_run, write_run, write_tracked_only_run, ErrorView,
    OutcomeView, Record, Skipped, State, Sweep, VerdictView,
};
use crate::session::{MAX_SKIPPED_BYTES, MAX_SKIPPED_FRAMES, READINESS_INITIAL_BACKOFF};
use crate::time::{Duration, Instant};
use crate::transport::{ReadError, WriteError};
use crate::wire::field;

verus! {

// ---------------------------------------------------------------------------
// Closing, track ids, budgets and pauses.
// ---------------------------------------------------------------------------

/// The first reason for closing stays, and closing drops what was received.
pub proof fn first_reason_stays(s: State, first: ErrorView, second: ErrorView)
    requires
        s.closed is None,
    ensures
        s.close(first).closed == Some(first),
        s.close(first).stream.len() == 0,
        s.close(first).close(second) == s.close(first),
{
}

/// Track ids are never zero, and two that are handed out one after the other
/// differ: the second follows the first, past the largest one from one again.
pub proof fn track_ids_advance(s: State)
    ensures
        track_from(s.next_track) != 0,
        track_from(s.with_track_taken().next_track) == if track_from(s.next_track) == u64::MAX {
            1u64
        } else {
            (track_from(s.next_track) + 1) as u64
        },
        track_from(s.with_track_taken().next_track) != track_from(s.next_track),
{
}

/// A budget that is used up stays used up, and it is used up after
/// [`MAX_SKIPPED_FRAMES`] frames or [`MAX_SKIPPED_BYTES`] bytes at the latest.
pub proof fn budget_only_shrinks(skipped: Skipped, payload_len: nat)
    ensures
        !skipped.allowed() ==> !skipped.and(payload_len).allowed(),
        skipped.frames >= MAX_SKIPPED_FRAMES ==> !skipped.and(payload_len).allowed(),
        skipped.bytes >= MAX_SKIPPED_BYTES ==> !skipped.and(payload_len).allowed(),
{
}

/// The pause before the attempt after `retries` retries.
pub open spec fn readiness_pause(retries: nat) -> Duration
    decreases retries,
{
    if retries == 0 {
        READINESS_INITIAL_BACKOFF
    } else {
        longer_backoff(readiness_pause((retries - 1) as nat))
    }
}

/// The pauses between DeviceInfo attempts double from half a second and stop
/// growing at two seconds.
pub proof fn readiness_pauses_double_and_cap(retries: nat)
    ensures
        readiness_pause(0) == 500_000_000,
        readiness_pause(1) == 1_000_000_000,
        retries >= 2 ==> readiness_pause(retries) == 2_000_000_000,
    decreases retries,
{
    reveal_with_fuel(readiness_pause, 3);
    if retries > 2 {
        readiness_pauses_double_and_cap((retries - 1) as nat);
    }
}

// ---------------------------------------------------------------------------
// What is written.
// ---------------------------------------------------------------------------

/// The frames handed to the transport, in order.
pub open spec fn written(io: Seq<crate::transport::Exchange>) -> Seq<Seq<u8>>
    decreases io.len(),
{
    if io.len() == 0 {
        Seq::empty()
    } else {
        match io.last() {
            crate::transport::Exchange::Write { data, .. } => written(io.drop_last()).push(data),
            crate::transport::Exchange::Read { .. } => written(io.drop_last()),
        }
    }
}

/// Whether `end` lies after `s` with nothing written in between and no track
/// id handed out.
pub open spec fn only_listened(s: State, end: State) -> bool {
    &&& written(end.io) == written(s.io)
    &&& end.next_track == s.next_track
}

/// Whether an open session ends as its result says: open after a success,
/// closed by the failure after a failure.
pub open spec fn fails_closed<A>(result: Result<A, ErrorView>, end: State) -> bool {
    match result {
        Ok(_) => end.closed is None,
        Err(error) => end.closed == Some(error),
    }
}

proof fn lemma_read_writes_nothing(s: State, timeout: Duration, result: Result<Seq<u8>, ReadError>)
    ensures
        written(s.read(timeout, result).io) == written(s.io),
{
    assert(s.read(timeout, result).io.drop_last() == s.io);
}

proof fn lemma_wrote(s: State, data: Seq<u8>, timeout: Duration, result: Result<(), WriteError>)
    ensures
        written(s.wrote(data, timeout, result).io) == written(s.io).push(data),
{
    assert(s.wrote(data, timeout, result).io.drop_last() == s.io);
}

pub(crate) proof fn lemma_search(s: State, o: Record, deadline: Instant, discarded: nat)
    requires
        s.closed is None,
    ensures
        fails_closed(
            search_run(s, o, deadline, discarded).0,
            search_run(s, o, deadline, discarded).1,
        ),
        only_listened(s, search_run(s, o, deadline, discarded).1),
        search_run(s, o, deadline, discarded).0 matches Err(error) ==> error is Frame || error is Read,
    decreases search_left(s.stream, discarded),
{
    let (taken, rest, dropped) = crate::frame::resync_from(s.stream, discarded);
    crate::frame::resync_accounts_for_every_byte(s.stream, discarded);
    if taken == Ok::<Option<Seq<u8>>, crate::frame::FrameError>(None) {
        let s1 = s.with_stream(rest);
        let now = s1.next_now(o);
        let s2 = s1.timed(now);
        if now < deadline {
            let result = s2.next_read(o);
            let timeout = (deadline - now) as u128;
            lemma_read_writes_nothing(s2, timeout, result);
            if let Ok(bytes) = result {
                if bytes.len() > 0 {
                    let s3 = s2.read(timeout, result).with_stream(rest + bytes);
                    lemma_search(s3, o, deadline, dropped);
                }
            }
        }
    }
}

/// Waiting for a frame writes nothing, and a failure closes the session.
pub proof fn read_frame_fails_closed(s: State, o: Record, deadline: Instant, discarded: nat)
    requires
        s.closed is None,
    ensures
        fails_closed(
            read_frame_run(s, o, deadline, discarded).0,
            read_frame_run(s, o, deadline, discarded).1,
        ),
        only_listened(s, read_frame_run(s, o, deadline, discarded).1),
{
    lemma_search(s, o, deadline, discarded);
}

pub(crate) proof fn lemma_sweep_failure(w: Sweep)
    ensures
        sweep(w).0 matches Some(error) ==> error is Frame || error is TooManySkipped,
    decreases w.rest.len(),
{
    crate::frame::resync_accounts_for_every_byte(w.rest, w.discarded);
    let (taken, rest, discarded) = crate::frame::resync_from(w.rest, w.discarded);
    if let Ok(Some(payload)) = taken {
        let skipped = w.skipped.and(payload.len());
        if skipped.allowed() {
            lemma_sweep_failure(Sweep { rest, discarded, skipped, frames: w.frames.push(payload) });
        }
    }
}

proof fn lemma_drain_rounds(s: State, o: Record, started: Instant, w: Sweep)
    requires
        s.closed is None,
        w.skipped.allowed(),
    ensures
        fails_closed(
            drain_rounds_run(s, o, started, w).0,
            drain_rounds_run(s, o, started, w).1,
        ),
        only_listened(s, drain_rounds_run(s, o, started, w).1),
        drain_rounds_run(s, o, started, w).1.stream.len() == 0,
        drain_rounds_run(s, o, started, w).0 matches Err(error) ==> error !is Timeout,
    decreases drain_left(w),
{
    let (failure, end) = sweep(w);
    crate::session::model::sweep_accounts_for_every_byte(w);
    lemma_sweep_failure(w);
    if failure is None {
        let s1 = s.with_stream(end.rest);
        let now = s1.next_now(o);
        let s2 = s1.timed(now);
        if crate::time::span_since(now as int, started as int) < crate::session::DRAIN_WINDOW {
            let result = s2.next_read(o);
            lemma_read_writes_nothing(s2, 0, result);
            if let Ok(bytes) = result {
                if bytes.len() > 0 {
                    lemma_drain_rounds(
                        s2.read(0, result).with_stream(end.rest + bytes),
                        o,
                        started,
                        Sweep { rest: end.rest + bytes, ..end },
                    );
                }
            }
        }
    }
}

/// A drain writes nothing, leaves nothing buffered, and closes the session
/// when it fails.
pub proof fn drain_fails_closed(s: State, o: Record)
    requires
        s.closed is None,
    ensures
        fails_closed(drain_run(s, o).0, drain_run(s, o).1),
        only_listened(s, drain_run(s, o).1),
        drain_run(s, o).1.stream.len() == 0,
        drain_run(s, o).0 matches Err(error) ==> error !is Timeout,
{
    let started = s.next_now(o);
    lemma_drain_rounds(s.timed(started), o, started, sweep_of(s.stream));
}

/// A write hands exactly these bytes to the transport; it closes the session
/// if and only if the transport is lost or the outcome unknown.
pub proof fn write_closes_only_when_lost(s: State, o: Record, bytes: Seq<u8>, timeout: Duration)
    requires
        s.closed is None,
    ensures
        ({
            let (result, end) = write_run(s, o, bytes, timeout);
            &&& written(end.io) == written(s.io).push(bytes)
            &&& end.next_track == s.next_track
            &&& match result {
                Ok(()) => end.closed is None,
                Err(error) => {
                    &&& error matches ErrorView::Write(reason)
                    &&& if reason is Lost || reason is Unknown {
                        end.closed == Some(error)
                    } else {
                        end.closed is None
                    }
                },
            }
        }),
{
    lemma_wrote(s, bytes, timeout, s.next_write(o));
}

proof fn lemma_optional_reply(s: State, o: Record, track: Option<u64>)
    requires
        s.closed is None,
    ensures
        ({
            let (result, end) = optional_reply_run(s, o, track);
            &&& only_listened(s, end)
            &&& match result {
                Ok(_) => end.closed is None,
                Err(error) => end.closed == Some(error) || (error is Rejected
                    && end.closed is None),
            }
        }),
{
    reveal(optional_reply_run);
    let now = s.next_now(o);
    let deadline = crate::time::point_after(
        now as int,
        crate::session::DRAIN_WINDOW as int,
    ) as u128;
    lemma_search(s.timed(now), o, deadline, 0);
}

pub(crate) proof fn lemma_send(s: State, o: Record, frame: Seq<u8>, timeout: Duration)
    requires
        s.closed is None,
    ensures
        ({
            let (result, end) = send_run(s, o, frame, timeout);
            &&& fails_closed(result, end)
            &&& result matches Err(error) ==> error !is Timeout
            &&& end.next_track == s.next_track
            &&& result is Ok ==> written(end.io) == written(s.io).push(frame)
            &&& result is Err ==> written(end.io) == written(s.io) || written(end.io) == written(
                s.io,
            ).push(frame)
        }),
{
    reveal(send_run);
    drain_fails_closed(s, o);
    if drain_run(s, o).0 is Ok {
        write_closes_only_when_lost(drain_run(s, o).1, o, frame, timeout);
    }
}

// ---------------------------------------------------------------------------
// Keepalives and activation.
// ---------------------------------------------------------------------------

/// A Ping writes the keepalive once. After it the session is open if the Ping
/// was sent or may be sent again, and only a write that timed out with nothing
/// transferred may be sent again; a fatal outcome has closed the session.
pub proof fn ping_keeps_or_closes(s: State, o: Record)
    requires
        s.closed is None,
    ensures
        ({
            let (outcome, end) = ping_run(s, o);
            let ping = crate::frame::frame_of(crate::wire::keepalive_ping_bytes());
            match outcome {
                OutcomeView::Sent(_) => end.closed is None && written(end.io) == written(
                    s.io,
                ).push(ping),
                OutcomeView::Retryable(error) => {
                    &&& error == ErrorView::Write(WriteError::TimedOut)
                    &&& end.closed is None
                    &&& written(end.io) == written(s.io).push(ping)
                },
                OutcomeView::Fatal(error) => {
                    &&& end.closed == Some(error)
                    &&& written(end.io) == written(s.io) || written(end.io) == written(s.io).push(
                        ping,
                    )
                },
            }
        }),
{
    let ping = crate::frame::frame_of(crate::wire::keepalive_ping_bytes());
    let timeout = crate::session::KEEPALIVE_WRITE_TIMEOUT;
    drain_fails_closed(s, o);
    let (drained, s1) = drain_run(s, o);
    if drained is Ok {
        write_closes_only_when_lost(s1, o, ping, timeout);
        let (sent, s2) = write_run(s1, o, ping, timeout);
        if sent is Ok {
            lemma_optional_reply(s2, o, None);
        }
    }
}

/// A tracked write-only request is written once, for a fresh track id. A
/// failure closes the session unless the device itself rejected the request.
pub proof fn write_tracked_only_closes_unless_rejected(s: State, o: Record, payload: Seq<u8>)
    requires
        s.closed is None,
        payload.len() <= crate::frame::MAX_PAYLOAD,
    ensures
        ({
            let (result, end) = write_tracked_only_run(s, o, payload);
            let frame = crate::frame::frame_of(payload);
            &&& end.next_track == s.with_track_taken().next_track
            &&& match result {
                Ok(_) => end.closed is None && written(end.io) == written(s.io).push(frame),
                Err(error) => {
                    &&& end.closed == Some(error) || (error is Rejected && end.closed is None)
                    &&& written(end.io) == written(s.io) || written(end.io) == written(
                        s.io,
                    ).push(frame)
                },
            }
        }),
{
    reveal(write_tracked_only_run);
    let frame = crate::frame::frame_of(payload);
    let timeout = crate::session::TRANSACTION_TIMEOUT;
    let s0 = s.with_track_taken();
    lemma_send(s0, o, frame, timeout);
    let (sent, s1) = send_run(s0, o, frame, timeout);
    if sent is Ok {
        lemma_optional_reply(s1, o, Some(track_from(s.next_track)));
    }
}

/// An activation writes the trigger once, for a fresh track id; any failure, a
/// rejection included, closes the session.
pub proof fn activate_fails_closed(s: State, o: Record)
    requires
        s.closed is None,
    ensures
        fails_closed(activate_run(s, o).0, activate_run(s, o).1),
        activate_run(s, o).0 is Ok ==> written(activate_run(s, o).1.io) == written(s.io).push(
            crate::frame::frame_of(
                crate::wire::activation_trigger_bytes(track_from(s.next_track)),
            ),
        ),
{
    let track = track_from(s.next_track);
    crate::wire::requests_fit_in_a_frame(track);
    write_tracked_only_closes_unless_rejected(
        s,
        o,
        crate::wire::activation_trigger_bytes(track),
    );
}

// ---------------------------------------------------------------------------
// Tracked exchanges.
// ---------------------------------------------------------------------------

/// A frame that is taken as the response of a tracked exchange carries the
/// track id of the request, no device error, and the awaited body.
pub proof fn tracked_response_matches(payload: Seq<u8>, track: u64, expected: u32)
    ensures
        tracked_verdict(payload, track, expected) matches VerdictView::Body(body) ==> {
            &&& crate::wire::response_of(payload) matches Ok(response)
            &&& response.header matches Some(header) && header.track_id == track
            &&& response.rejection() is None
            &&& response.body == Some((expected, body))
        },
{
}

proof fn lemma_tracked_wait(
    s: State,
    o: Record,
    track: u64,
    expected: u32,
    keep_open: bool,
    deadline: Instant,
    discarded: nat,
    skipped: Skipped,
)
    requires
        s.closed is None,
    ensures
        ({
            let (result, end) = tracked_wait_run(
                s,
                o,
                track,
                expected,
                keep_open,
                deadline,
                discarded,
                skipped,
            );
            &&& only_listened(s, end)
            &&& match result {
                Ok(body) => {
                    &&& end.closed is None
                    &&& exists|payload: Seq<u8>| #[trigger]
                        tracked_verdict(payload, track, expected) == VerdictView::Body(body)
                },
                Err(error) => if error is Timeout && keep_open {
                    end.closed is None
                } else {
                    end.closed == Some(error) || (end.closed is None && error is Rejected)
                },
            }
        }),
    decreases MAX_SKIPPED_FRAMES - skipped.frames,
{
    lemma_search(s, o, deadline, discarded);
    let (found, s1, discarded) = read_frame_run(s, o, deadline, discarded);
    if let Ok(Some(payload)) = found {
        if tracked_verdict(payload, track, expected) is Skip && skipped.and(
            payload.len(),
        ).allowed() {
            lemma_tracked_wait(
                s1,
                o,
                track,
                expected,
                keep_open,
                deadline,
                discarded,
                skipped.and(payload.len()),
            );
        }
    }
}

/// A tracked exchange writes its request once, under a fresh track id. What it
/// returns is the body of a frame that carries that id. A failure closes the
/// session, but for a device error and, where asked for, a clean timeout.
pub proof fn execute_answers_its_own_request(
    s: State,
    o: Record,
    payload: Seq<u8>,
    expected: u32,
    keep_open: bool,
)
    requires
        s.closed is None,
        payload.len() <= crate::frame::MAX_PAYLOAD,
    ensures
        ({
            let (result, end) = execute_run(s, o, payload, expected, keep_open);
            let frame = crate::frame::frame_of(payload);
            &&& end.next_track == s.with_track_taken().next_track
            &&& match result {
                Ok(body) => {
                    &&& end.closed is None
                    &&& written(end.io) == written(s.io).push(frame)
                    &&& exists|answer: Seq<u8>| #[trigger]
                        tracked_verdict(answer, track_from(s.next_track), expected)
                            == VerdictView::Body(body)
                },
                Err(error) => {
                    &&& if error is Timeout && keep_open {
                        end.closed is None
                    } else {
                        end.closed == Some(error) || (end.closed is None && error is Rejected)
                    }
                    &&& written(end.io) == written(s.io) || written(end.io) == written(
                        s.io,
                    ).push(frame)
                    &&& end.closed is None ==> written(end.io) == written(s.io).push(frame)
                },
            }
        }),
{
    reveal(execute_run);
    let frame = crate::frame::frame_of(payload);
    let timeout = crate::session::TRANSACTION_TIMEOUT;
    let s0 = s.with_track_taken();
    lemma_send(s0, o, frame, timeout);
    let (sent, s1) = send_run(s0, o, frame, timeout);
    if sent is Ok {
        let now = s1.next_now(o);
        lemma_tracked_wait(
            s1.timed(now),
            o,
            track_from(s.next_track),
            expected,
            keep_open,
            crate::time::point_after(now as int, timeout as int) as u128,
            0,
            Skipped::none(),
        );
    }
}

/// The frame of a configuration query with this track id.
pub open spec fn query_frame(track: u64) -> Seq<u8> {
    crate::frame::frame_of(crate::wire::user_configuration_query_bytes(track))
}

/// Reading the configuration writes nothing but the query, at most twice and
/// under fresh track ids, and a failure closes the session unless the device
/// itself rejected the query.
pub proof fn query_only_asks(s: State, o: Record)
    requires
        s.closed is None,
    ensures
        ({
            let (result, end) = query_run(s, o);
            let first = track_from(s.next_track);
            let second = track_from(s.with_track_taken().next_track);
            &&& match result {
                Ok(_) => end.closed is None,
                Err(error) => end.closed == Some(error) || (error is Rejected
                    && end.closed is None),
            }
            &&& {
                ||| written(end.io) == written(s.io)
                ||| written(end.io) == written(s.io).push(query_frame(first))
                ||| written(end.io) == written(s.io).push(query_frame(first)).push(
                    query_frame(second),
                )
            }
        }),
{
    reveal_with_fuel(query_attempts_run, 3);
    let first = crate::wire::user_configuration_query_bytes(track_from(s.next_track));
    crate::wire::requests_fit_in_a_frame(track_from(s.next_track));
    execute_answers_its_own_request(s, o, first, field::USER_CONFIGURATION, true);
    let (answer, s1) = execute_run(s, o, first, field::USER_CONFIGURATION, true);
    if answer matches Err(error) && error is Timeout {
        let s2 = s1.paused(crate::session::IDEMPOTENT_QUERY_BACKOFF);
        let second = crate::wire::user_configuration_query_bytes(track_from(s2.next_track));
        crate::wire::requests_fit_in_a_frame(track_from(s2.next_track));
        execute_answers_its_own_request(s2, o, second, field::USER_CONFIGURATION, false);
    }
}

// ---------------------------------------------------------------------------
// Bootstrap.
// ---------------------------------------------------------------------------

/// The DeviceInfo request on the wire.
pub open spec fn probe_frame() -> Seq<u8> {
    crate::frame::frame_of(crate::wire::device_information_query_bytes())
}

/// The SystemConfiguration request on the wire.
pub open spec fn system_frame() -> Seq<u8> {
    crate::frame::frame_of(crate::wire::system_configuration_query_bytes())
}

/// The DeviceAuth request on the wire.
pub open spec fn auth_frame() -> Seq<u8> {
    crate::frame::frame_of(crate::wire::device_authentication_query_bytes())
}

/// `frame`, `count` times.
pub open spec fn copies(frame: Seq<u8>, count: nat) -> Seq<Seq<u8>> {
    Seq::new(count, |i: int| frame)
}

proof fn lemma_bootstrap_wait(
    s: State,
    o: Record,
    expected: u32,
    deadline: Instant,
    discarded: nat,
    skipped: Skipped,
)
    requires
        s.closed is None,
    ensures
        ({
            let (result, end) = bootstrap_wait_run(s, o, expected, deadline, discarded, skipped);
            fails_closed(result, end) && only_listened(s, end)
        }),
    decreases MAX_SKIPPED_FRAMES - skipped.frames,
{
    lemma_search(s, o, deadline, discarded);
    let (found, s1, discarded) = read_frame_run(s, o, deadline, discarded);
    if let Ok(Some(payload)) = found {
        if crate::session::model::bootstrap_verdict(payload, expected) is Skip && skipped.and(
            payload.len(),
        ).allowed() {
            lemma_bootstrap_wait(s1, o, expected, deadline, discarded, skipped.and(payload.len()));
        }
    }
}

proof fn lemma_bootstrap_exchange(s: State, o: Record, payload: Seq<u8>, expected: u32)
    requires
        s.closed is None,
    ensures
        ({
            let (result, end) = bootstrap_exchange_run(s, o, payload, expected);
            let frame = crate::frame::frame_of(payload);
            &&& fails_closed(result, end)
            &&& result is Ok ==> written(end.io) == written(s.io).push(frame)
            &&& written(end.io) == written(s.io) || written(end.io) == written(s.io).push(frame)
        }),
{
    reveal(bootstrap_exchange_run);
    let frame = crate::frame::frame_of(payload);
    let timeout = crate::session::BOOTSTRAP_WRITE_TIMEOUT;
    lemma_send(s, o, frame, timeout);
    let (sent, s1) = send_run(s, o, frame, timeout);
    if sent is Ok {
        let now = s1.next_now(o);
        lemma_bootstrap_wait(
            s1.timed(now),
            o,
            expected,
            crate::time::point_after(
                now as int,
                crate::session::TRANSACTION_TIMEOUT as int,
            ) as u128,
            0,
            Skipped::none(),
        );
    }
}

proof fn lemma_probe_answer(s: State, o: Record, started: Instant)
    requires
        s.closed is None,
    ensures
        fails_closed(probe_answer_run(s, o, started).0, probe_answer_run(s, o, started).1),
        only_listened(s, probe_answer_run(s, o, started).1),
{
    reveal(probe_answer_run);
    let now = s.next_now(o);
    let s1 = s.timed(now);
    let left = crate::session::model::readiness_left(now, started);
    if left != 0 {
        let later = s1.next_now(o);
        lemma_bootstrap_wait(
            s1.timed(later),
            o,
            field::DEVICE_INFORMATION,
            crate::time::point_after(later as int, left) as u128,
            0,
            Skipped::none(),
        );
    }
}

proof fn lemma_probe(s: State, o: Record, started: Instant, attempts: u32, backoff: Duration)
    requires
        s.closed is None,
    ensures
        ({
            let (result, end) = probe_run(s, o, started, attempts, backoff);
            match result {
                Ok((_, made)) => {
                    &&& end.closed is None
                    &&& made > attempts
                    &&& written(end.io) == written(s.io) + copies(
                        probe_frame(),
                        (made - attempts) as nat,
                    )
                },
                Err(error) => {
                    &&& end.closed == Some(error)
                    &&& exists|count: nat|
                        written(end.io) == written(s.io) + #[trigger] copies(probe_frame(), count)
                },
            }
        }),
    decreases u32::MAX - attempts,
{
    let now = s.next_now(o);
    let s1 = s.timed(now);
    let left = crate::session::model::readiness_left(now, started);
    assert(written(s.io) + copies(probe_frame(), 0) == written(s.io));
    assert(written(s.io) + copies(probe_frame(), 1) == written(s.io).push(probe_frame()));
    if left != 0 && attempts != u32::MAX {
        let timeout = crate::session::model::probe_timeout(left) as u128;
        write_closes_only_when_lost(s1, o, probe_frame(), timeout);
        let (sent, s2) = write_run(s1, o, probe_frame(), timeout);
        if sent is Ok {
            lemma_probe_answer(s2, o, started);
        } else if sent == Err::<(), ErrorView>(ErrorView::Write(WriteError::TimedOut)) {
            let now = s2.next_now(o);
            let s3 = s2.timed(now);
            let left = crate::session::model::readiness_left(now, started);
            if left != 0 {
                let pause = crate::time::shorter_of(backoff as int, left) as u128;
                let s4 = s3.paused(pause);
                let made = (attempts + 1) as u32;
                lemma_probe(s4, o, started, made, longer_backoff(backoff));
                let (result, end) = probe_run(s4, o, started, made, longer_backoff(backoff));
                match result {
                    Ok((_, total)) => {
                        assert(written(s4.io) + copies(probe_frame(), (total - made) as nat)
                            == written(s.io) + copies(probe_frame(), (total - attempts) as nat));
                    },
                    Err(_) => {
                        let count = choose|count: nat|
                            written(end.io) == written(s4.io) + #[trigger] copies(
                                probe_frame(),
                                count,
                            );
                        assert(written(s4.io) + copies(probe_frame(), count) == written(s.io)
                            + copies(probe_frame(), count + 1));
                    },
                }
            }
        }
    }
}

/// A bootstrap that succeeds leaves the session open and has written the
/// DeviceInfo request as often as it says, then each of the other two requests
/// exactly once. One that fails has closed the session.
pub proof fn bootstrap_asks_in_order(s: State, o: Record)
    requires
        s.closed is None,
    ensures
        ({
            let (result, end) = bootstrap_run(s, o);
            &&& fails_closed(result, end)
            &&& result matches Ok(learned) ==> {
                &&& learned.readiness_attempts >= 1
                &&& written(end.io) == (written(s.io) + copies(
                    probe_frame(),
                    learned.readiness_attempts as nat,
                )).push(system_frame()).push(auth_frame())
            }
        }),
{
    reveal(bootstrap_rest_run);
    drain_fails_closed(s, o);
    let (drained, s1) = drain_run(s, o);
    if drained is Ok {
        let started = s1.next_now(o);
        let s2 = s1.timed(started);
        lemma_probe(s2, o, started, 0, READINESS_INITIAL_BACKOFF);
        let (probed, s3) = probe_run(s2, o, started, 0, READINESS_INITIAL_BACKOFF);
        if let Ok((body, _)) = probed {
            if crate::wire::device_information_of(body) is Ok {
                let system = crate::wire::system_configuration_query_bytes();
                lemma_bootstrap_exchange(s3, o, system, field::SYSTEM_CONFIGURATION);
                let (answer, s4) = bootstrap_exchange_run(
                    s3,
                    o,
                    system,
                    field::SYSTEM_CONFIGURATION,
                );
                if answer is Ok {
                    lemma_bootstrap_exchange(
                        s4,
                        o,
                        crate::wire::device_authentication_query_bytes(),
                        field::DEVICE_AUTHENTICATION,
                    );
                }
            }
        }
    }
}

/// Whether `frames` holds nothing but the requests of a bootstrap.
pub open spec fn only_bootstrap_requests(frames: Seq<Seq<u8>>) -> bool {
    forall|i: int|
        0 <= i < frames.len() ==> (#[trigger] frames[i] == probe_frame() || frames[i]
            == system_frame() || frames[i] == auth_frame())
}

/// A bootstrap, whether it succeeds or fails, writes nothing but its own three
/// read-only requests, after what had been written before.
pub proof fn bootstrap_only_asks(s: State, o: Record)
    requires
        s.closed is None,
    ensures
        ({
            let before = written(s.io);
            let after = written(bootstrap_run(s, o).1.io);
            &&& before.is_prefix_of(after)
            &&& only_bootstrap_requests(after.skip(before.len() as int))
        }),
{
    reveal(bootstrap_rest_run);
    let before = written(s.io);
    drain_fails_closed(s, o);
    let (drained, s1) = drain_run(s, o);
    if drained is Ok {
        let started = s1.next_now(o);
        let s2 = s1.timed(started);
        lemma_probe(s2, o, started, 0, READINESS_INITIAL_BACKOFF);
        let (probed, s3) = probe_run(s2, o, started, 0, READINESS_INITIAL_BACKOFF);
        let count = match probed {
            Ok((_, made)) => made as nat,
            Err(_) => choose|count: nat|
                written(s3.io) == before + #[trigger] copies(probe_frame(), count),
        };
        assert(written(s3.io) == before + copies(probe_frame(), count));
        assert(written(s3.io).skip(before.len() as int) == copies(probe_frame(), count));
        if let Ok((body, _)) = probed {
            if crate::wire::device_information_of(body) is Ok {
                let system = crate::wire::system_configuration_query_bytes();
                lemma_bootstrap_exchange(s3, o, system, field::SYSTEM_CONFIGURATION);
                let (answer, s4) = bootstrap_exchange_run(
                    s3,
                    o,
                    system,
                    field::SYSTEM_CONFIGURATION,
                );
                if answer is Ok {
                    lemma_bootstrap_exchange(
                        s4,
                        o,
                        crate::wire::device_authentication_query_bytes(),
                        field::DEVICE_AUTHENTICATION,
                    );
                }
            }
        }
    }
}

// ---------------------------------------------------------------------------
// How often a device is asked before it counts as not ready.
// ---------------------------------------------------------------------------

/// The earliest point that a clock can say next, if it never runs backwards
/// and every pause takes at least as long as asked for.
pub open spec fn clock_floor(ticks: Seq<crate::session::Tick>) -> int
    decreases ticks.len(),
{
    if ticks.len() == 0 {
        0
    } else {
        match ticks.last() {
            crate::session::Tick::Now(now) => now as int,
            crate::session::Tick::Slept(span) => clock_floor(ticks.drop_last()) + span,
        }
    }
}

/// Whether a clock never ran backwards, and paused at least as long as asked.
pub open spec fn runs_true(ticks: Seq<crate::session::Tick>) -> bool {
    forall|i: int|
        0 <= i < ticks.len() && #[trigger] ticks[i] is Now ==> ticks[i]->Now_0 >= clock_floor(
            ticks.take(i),
        )
}

proof fn lemma_search_grows(s: State, o: Record, deadline: Instant, discarded: nat)
    ensures
        s.begins(search_run(s, o, deadline, discarded).1.record()),
    decreases search_left(s.stream, discarded),
{
    let (taken, rest, dropped) = crate::frame::resync_from(s.stream, discarded);
    crate::frame::resync_accounts_for_every_byte(s.stream, discarded);
    crate::session::model::calls_are_kept(s);
    if taken == Ok::<Option<Seq<u8>>, crate::frame::FrameError>(None) {
        let s1 = s.with_stream(rest);
        let now = s1.next_now(o);
        let s2 = s1.timed(now);
        crate::session::model::calls_are_kept(s1);
        if now < deadline {
            let result = s2.next_read(o);
            let timeout = (deadline - now) as u128;
            let s3 = s2.read(timeout, result);
            crate::session::model::calls_are_kept(s2);
            crate::session::model::begins_earlier(s, s2, s3.record());
            if let Ok(bytes) = result {
                if bytes.len() > 0 {
                    let s4 = s3.with_stream(rest + bytes);
                    lemma_search_grows(s4, o, deadline, dropped);
                    crate::session::model::begins_earlier(
                        s,
                        s4,
                        search_run(s4, o, deadline, dropped).1.record(),
                    );
                }
            }
        }
    }
}

pub(crate) proof fn lemma_bootstrap_wait_grows(
    s: State,
    o: Record,
    expected: u32,
    deadline: Instant,
    discarded: nat,
    skipped: Skipped,
)
    ensures
        s.begins(
            bootstrap_wait_run(s, o, expected, deadline, discarded, skipped).1.record(),
        ),
    decreases MAX_SKIPPED_FRAMES - skipped.frames,
{
    crate::session::model::calls_are_kept(s);
    lemma_search_grows(s, o, deadline, discarded);
    let (found, s1, discarded) = read_frame_run(s, o, deadline, discarded);
    if let Ok(Some(payload)) = found {
        let more = skipped.and(payload.len());
        if crate::session::model::bootstrap_verdict(payload, expected) is Skip && more.allowed() {
            lemma_bootstrap_wait_grows(s1, o, expected, deadline, discarded, more);
            crate::session::model::begins_earlier(
                s,
                s1,
                bootstrap_wait_run(s1, o, expected, deadline, discarded, more).1.record(),
            );
        }
    }
}

proof fn lemma_probe_answer_grows(s: State, o: Record, started: Instant)
    ensures
        s.begins(probe_answer_run(s, o, started).1.record()),
{
    reveal(probe_answer_run);
    let now = s.next_now(o);
    let s1 = s.timed(now);
    crate::session::model::calls_are_kept(s);
    let left = crate::session::model::readiness_left(now, started);
    if left != 0 {
        let later = s1.next_now(o);
        let s2 = s1.timed(later);
        let deadline = crate::time::point_after(later as int, left) as u128;
        crate::session::model::calls_are_kept(s1);
        crate::session::model::begins_earlier(s, s1, s2.record());
        lemma_bootstrap_wait_grows(
            s2,
            o,
            field::DEVICE_INFORMATION,
            deadline,
            0,
            Skipped::none(),
        );
        crate::session::model::begins_earlier(
            s,
            s2,
            bootstrap_wait_run(
                s2,
                o,
                field::DEVICE_INFORMATION,
                deadline,
                0,
                Skipped::none(),
            ).1.record(),
        );
    }
}

pub(crate) proof fn lemma_probe_grows(s: State, o: Record, started: Instant, attempts: u32, backoff: Duration)
    ensures
        ({
            let s1 = s.timed(s.next_now(o));
            s1.begins(probe_run(s, o, started, attempts, backoff).1.record())
        }),
        s.begins(probe_run(s, o, started, attempts, backoff).1.record()),
    decreases u32::MAX - attempts,
{
    let end = probe_run(s, o, started, attempts, backoff).1;
    let now = s.next_now(o);
    let s1 = s.timed(now);
    let left = crate::session::model::readiness_left(now, started);
    crate::session::model::calls_are_kept(s);
    crate::session::model::calls_are_kept(s1);
    if left != 0 && attempts != u32::MAX {
        let timeout = crate::session::model::probe_timeout(left) as u128;
        let (sent, s2) = write_run(s1, o, probe_frame(), timeout);
        crate::session::model::calls_are_kept(s2);
        assert(s1.begins(s2.record()));
        if sent is Ok {
            lemma_probe_answer_grows(s2, o, started);
            crate::session::model::begins_earlier(s1, s2, end.record());
        } else if sent == Err::<(), ErrorView>(ErrorView::Write(WriteError::TimedOut)) {
            let later = s2.next_now(o);
            let s3 = s2.timed(later);
            crate::session::model::begins_earlier(s1, s2, s3.record());
            let left = crate::session::model::readiness_left(later, started);
            if left != 0 {
                let pause = crate::time::shorter_of(backoff as int, left) as u128;
                let s4 = s3.paused(pause);
                crate::session::model::calls_are_kept(s3);
                crate::session::model::begins_earlier(s1, s3, s4.record());
                lemma_probe_grows(
                    s4,
                    o,
                    started,
                    (attempts + 1) as u32,
                    longer_backoff(backoff),
                );
                crate::session::model::begins_earlier(s1, s4, end.record());
            }
        }
    }
    crate::session::model::begins_earlier(s, s1, end.record());
}

/// The pauses before the attempt after `retries` retries, taken together.
spec fn pauses_before(retries: nat) -> int
    decreases retries,
{
    if retries == 0 {
        0
    } else {
        pauses_before((retries - 1) as nat) + readiness_pause((retries - 1) as nat)
    }
}

proof fn lemma_pauses_before(retries: nat)
    ensures
        retries >= 12 ==> pauses_before(retries) >= crate::session::READINESS_DEADLINE,
        pauses_before(retries) >= 0,
    decreases retries,
{
    readiness_pauses_double_and_cap(0);
    if retries > 0 {
        lemma_pauses_before((retries - 1) as nat);
    }
    if retries == 12 {
        reveal_with_fuel(pauses_before, 13);
        readiness_pauses_double_and_cap(2);
        readiness_pauses_double_and_cap(3);
        readiness_pauses_double_and_cap(4);
        readiness_pauses_double_and_cap(5);
        readiness_pauses_double_and_cap(6);
        readiness_pauses_double_and_cap(7);
        readiness_pauses_double_and_cap(8);
        readiness_pauses_double_and_cap(9);
        readiness_pauses_double_and_cap(10);
        readiness_pauses_double_and_cap(11);
    }
}

/// What the clock says next, when it runs true.
pub(crate) proof fn lemma_next_reading(s: State, o: Record, end: State)
    requires
        runs_true(o.ticks),
        s.timed(s.next_now(o)).begins(end.record()),
        end.begins(o),
    ensures
        s.next_now(o) >= clock_floor(s.ticks),
        clock_floor(s.timed(s.next_now(o)).ticks) == s.next_now(o),
{
    let now = s.next_now(o);
    let s1 = s.timed(now);
    crate::session::model::begins_earlier(s1, end, o);
    let at = s.ticks.len() as int;
    assert(s1.ticks[at] == o.ticks[at]);
    assert(o.ticks.take(at) == s.ticks) by {
        assert(s1.ticks == o.ticks.subrange(0, s1.ticks.len() as int));
        assert(s1.ticks.take(at) == s.ticks);
    }
}

proof fn lemma_probe_bounded(
    s: State,
    o: Record,
    started: Instant,
    attempts: u32,
    backoff: Duration,
)
    requires
        s.closed is None,
        runs_true(o.ticks),
        probe_run(s, o, started, attempts, backoff).1.begins(o),
        attempts <= 12,
        backoff == readiness_pause(attempts as nat),
        clock_floor(s.ticks) - started >= crate::time::shorter_of(
            pauses_before(attempts as nat),
            crate::session::READINESS_DEADLINE as int,
        ),
    ensures
        match probe_run(s, o, started, attempts, backoff).0 {
            Ok((_, made)) => made <= 12,
            Err(ErrorView::NotReady { attempts: made }) => made <= 12,
            Err(_) => true,
        },
    decreases u32::MAX - attempts,
{
    let end = probe_run(s, o, started, attempts, backoff).1;
    let now = s.next_now(o);
    let s1 = s.timed(now);
    let left = crate::session::model::readiness_left(now, started);
    lemma_probe_grows(s, o, started, attempts, backoff);
    lemma_next_reading(s, o, end);
    lemma_pauses_before(attempts as nat);
    if left != 0 {
        assert(attempts < 12);
        let timeout = crate::session::model::probe_timeout(left) as u128;
        let (sent, s2) = write_run(s1, o, probe_frame(), timeout);
        write_closes_only_when_lost(s1, o, probe_frame(), timeout);
        if sent is Ok {
            lemma_probe_answer_error(s2, o, started);
        } else if sent == Err::<(), ErrorView>(ErrorView::Write(WriteError::TimedOut)) {
            let later = s2.next_now(o);
            let s3 = s2.timed(later);
            let left = crate::session::model::readiness_left(later, started);
            if left != 0 {
                let pause = crate::time::shorter_of(backoff as int, left) as u128;
                let s4 = s3.paused(pause);
                let more = (attempts + 1) as u32;
                let next = longer_backoff(backoff);
                lemma_probe_grows(s4, o, started, more, next);
                assert(s3.begins(end.record())) by {
                    crate::session::model::calls_are_kept(s3);
                    crate::session::model::begins_earlier(s3, s4, end.record());
                }
                lemma_next_reading(s2, o, end);
                assert(s4.ticks.drop_last() == s3.ticks);
                assert(pauses_before(more as nat) == pauses_before(attempts as nat) + backoff);
                lemma_probe_bounded(s4, o, started, more, next);
            }
        }
    }
}

proof fn lemma_bootstrap_wait_error(
    s: State,
    o: Record,
    expected: u32,
    deadline: Instant,
    discarded: nat,
    skipped: Skipped,
)
    requires
        s.closed is None,
    ensures
        bootstrap_wait_run(s, o, expected, deadline, discarded, skipped).0 matches Err(error)
            ==> error !is NotReady,
    decreases MAX_SKIPPED_FRAMES - skipped.frames,
{
    lemma_search(s, o, deadline, discarded);
    let (found, s1, discarded) = read_frame_run(s, o, deadline, discarded);
    if let Ok(Some(payload)) = found {
        let more = skipped.and(payload.len());
        if crate::session::model::bootstrap_verdict(payload, expected) is Skip && more.allowed() {
            lemma_bootstrap_wait_error(s1, o, expected, deadline, discarded, more);
        }
    }
}

pub(crate) proof fn lemma_probe_answer_error(s: State, o: Record, started: Instant)
    requires
        s.closed is None,
    ensures
        probe_answer_run(s, o, started).0 matches Err(error) ==> error !is NotReady,
{
    reveal(probe_answer_run);
    let now = s.next_now(o);
    let s1 = s.timed(now);
    let left = crate::session::model::readiness_left(now, started);
    if left != 0 {
        let later = s1.next_now(o);
        lemma_bootstrap_wait_error(
            s1.timed(later),
            o,
            field::DEVICE_INFORMATION,
            crate::time::point_after(later as int, left) as u128,
            0,
            Skipped::none(),
        );
    }
}

/// With a clock that never runs backwards and pauses at least as long as
/// asked, the DeviceInfo request is written at most twelve times, whether the
/// device answers in the end or counts as not ready.
pub proof fn device_is_asked_at_most_twelve_times(s: State, o: Record, started: Instant)
    requires
        s.closed is None,
        runs_true(o.ticks),
        started <= clock_floor(s.ticks),
        probe_run(s, o, started, 0, READINESS_INITIAL_BACKOFF).1.begins(o),
    ensures
        match probe_run(s, o, started, 0, READINESS_INITIAL_BACKOFF).0 {
            Ok((_, attempts)) => attempts <= 12,
            Err(ErrorView::NotReady { attempts }) => attempts <= 12,
            Err(_) => true,
        },
{
    lemma_probe_bounded(s, o, started, 0, READINESS_INITIAL_BACKOFF);
}

// ---------------------------------------------------------------------------
// What drains sweep up.
// ---------------------------------------------------------------------------

proof fn lemma_drain_counts(s: State, o: Record, started: Instant, w: Sweep)
    requires
        w.skipped.allowed(),
    ensures
        ({
            let (result, end) = drain_rounds_run(s, o, started, w);
            match result {
                Ok(frames) => {
                    &&& w.frames.is_prefix_of(frames)
                    &&& end.drained == if s.drained + frames.len() <= u64::MAX {
                        s.drained + frames.len()
                    } else {
                        u64::MAX as int
                    }
                },
                Err(_) => end.drained == s.drained,
            }
        }),
    decreases drain_left(w),
{
    let (failure, end) = sweep(w);
    crate::session::model::sweep_accounts_for_every_byte(w);
    lemma_sweep_keeps(w);
    if failure is None {
        let s1 = s.with_stream(end.rest);
        let s2 = s1.timed(s1.next_now(o));
        let result = s2.next_read(o);
        if let Ok(bytes) = result {
            if bytes.len() > 0 {
                let next = Sweep { rest: end.rest + bytes, ..end };
                lemma_drain_counts(
                    s2.read(0, result).with_stream(end.rest + bytes),
                    o,
                    started,
                    next,
                );
            }
        }
    }
}

proof fn lemma_sweep_keeps(w: Sweep)
    ensures
        w.frames.is_prefix_of(sweep(w).1.frames),
    decreases w.rest.len(),
{
    crate::frame::resync_accounts_for_every_byte(w.rest, w.discarded);
    let (taken, rest, discarded) = crate::frame::resync_from(w.rest, w.discarded);
    if let Ok(Some(payload)) = taken {
        let skipped = w.skipped.and(payload.len());
        if skipped.allowed() {
            lemma_sweep_keeps(Sweep { rest, discarded, skipped, frames: w.frames.push(payload) });
        }
    }
}

/// A drain counts every frame that it sweeps up, and nothing when it fails.
pub proof fn drained_frames_are_counted(s: State, o: Record)
    ensures
        ({
            let (result, end) = drain_run(s, o);
            end.drained == match result {
                Ok(frames) => if s.drained + frames.len() <= u64::MAX {
                    s.drained + frames.len()
                } else {
                    u64::MAX as int
                },
                Err(_) => s.drained as int,
            }
        }),
{
    if s.closed is None {
        let started = s.next_now(o);
        lemma_drain_counts(s.timed(started), o, started, sweep_of(s.stream));
    }
}

/// A drain gives the frames that are buffered in the order in which they came:
/// one that stands first is given first.
pub proof fn drained_frames_keep_their_order(s: State, o: Record, first: Seq<u8>, rest: Seq<u8>)
    requires
        s.closed is None,
        first.len() <= crate::frame::MAX_PAYLOAD,
        s.stream == crate::frame::frame_of(first) + rest,
    ensures
        drain_run(s, o).0 matches Ok(frames) ==> frames.len() > 0 && frames[0] == first,
{
    let started = s.next_now(o);
    let w = sweep_of(s.stream);
    let none = Seq::<u8>::empty();
    assert(none + crate::frame::frame_of(first) + rest == s.stream);
    crate::frame::garbage_before_a_frame_is_dropped(none, first, rest, 0);
    let skipped = w.skipped.and(first.len());
    let next = Sweep { rest, discarded: 0, skipped, frames: w.frames.push(first) };
    if skipped.allowed() {
        crate::frame::resync_accounts_for_every_byte(w.rest, w.discarded);
        assert(sweep(w) == sweep(next));
        lemma_sweep_keeps(next);
        assert(next.frames[0] == first);
        assert(sweep(next).1.frames[0] == next.frames[0]);
        lemma_drain_keeps(s.timed(started), o, started, w, first);
    }
}

proof fn lemma_drain_keeps(s: State, o: Record, started: Instant, w: Sweep, first: Seq<u8>)
    requires
        w.skipped.allowed(),
        sweep(w).1.frames.len() > 0,
        sweep(w).1.frames[0] == first,
    ensures
        drain_rounds_run(s, o, started, w).0 matches Ok(frames) ==> frames.len() > 0 && frames[0]
            == first,
{
    let (failure, end) = sweep(w);
    crate::session::model::sweep_accounts_for_every_byte(w);
    if failure is None {
        let s1 = s.with_stream(end.rest);
        let s2 = s1.timed(s1.next_now(o));
        let result = s2.next_read(o);
        if let Ok(bytes) = result {
            if bytes.len() > 0 {
                let next = Sweep { rest: end.rest + bytes, ..end };
                lemma_drain_counts(
                    s2.read(0, result).with_stream(end.rest + bytes),
                    o,
                    started,
                    next,
                );
            }
        }
    }
}

} // verus!
