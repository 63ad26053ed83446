//! Which frames count as answers, and that an answer that arrives in time is
//! taken.

use vstd::prelude::*;

use crate::frame::{
    frame_of, garbage_before_a_frame_is_dropped, resync_from, FrameError, MAX_PAYLOAD,
};
use crate::session::laws::{
    drain_fails_closed, lemma_send, probe_frame, write_closes_only_when_lost,
};
use crate::session::model::{
    bootstrap_exchange_run, bootstrap_verdict, execute_run, optional_reply, optional_reply_run,
    probe_answer_run, probe_run, probe_timeout, readiness_left, search_run, send_run, track_from,
    tracked_verdict, write_run, ErrorView, Record, State, VerdictView,
};
use crate::session::OptionalReply;
use crate::time::{span_end, Duration, Instant};
use crate::transport::ReadError;
use crate::wire::field;

verus! {

// ---------------------------------------------------------------------------
// What counts as an answer.
// ---------------------------------------------------------------------------

/// The number of an event that the device sends unasked.
pub open spec fn is_event(response: crate::wire::ResponseView) -> bool {
    response.body_number() == Some(field::ASYNCHRONOUS_EVENT)
}

/// Whether a response is an answer to a Ping.
pub open spec fn is_pong(response: crate::wire::ResponseView) -> bool {
    response.body_number() == Some(field::PONG)
}

/// A frame is the answer to a tracked request exactly if it can be read, is no
/// event and no Pong that was not asked for, carries the request's track id and
/// no error, and has the awaited body. It is passed over exactly if it is an
/// event, such a Pong, or belongs to another track. A device error for the
/// request leaves the session open; anything else closes it.
pub proof fn tracked_answers_are_recognised(payload: Seq<u8>, track: u64, expected: u32)
    ensures
        ({
            let verdict = tracked_verdict(payload, track, expected);
            match crate::wire::response_of(payload) {
                Err(error) => verdict == VerdictView::Close(ErrorView::Decode(error)),
                Ok(response) => {
                    let unasked = is_event(response) || (is_pong(response) && expected
                        != field::PONG);
                    let headed = response.header is Some;
                    let ours = headed && response.header->Some_0.track_id == track;
                    &&& verdict is Skip <==> unasked || (headed && !ours)
                    &&& verdict == VerdictView::Close(ErrorView::UnexpectedHeader) <==> !unasked
                        && !headed
                    &&& !unasked && ours ==> match response.rejection() {
                        Some(rejection) => verdict == VerdictView::Fail(
                            ErrorView::Rejected(rejection),
                        ),
                        None => match response.body {
                            Some((number, body)) => if number == expected {
                                verdict == VerdictView::Body(body)
                            } else {
                                verdict == VerdictView::Close(
                                    ErrorView::UnexpectedBody { expected, actual: Some(number) },
                                )
                            },
                            None => verdict == VerdictView::Close(
                                ErrorView::UnexpectedBody { expected, actual: None },
                            ),
                        },
                    }
                },
            }
        }),
{
}

/// A frame is the answer to an untracked request exactly if it can be read, its
/// header has version one, track id zero and no checksum, it carries no error,
/// and it has the awaited body. It is passed over exactly if it belongs to a
/// track, or is an event or a Pong without a header. Anything else, a device
/// error included, closes the session.
pub proof fn bootstrap_answers_are_recognised(payload: Seq<u8>, expected: u32)
    ensures
        ({
            let verdict = bootstrap_verdict(payload, expected);
            match crate::wire::response_of(payload) {
                Err(error) => verdict == VerdictView::Close(ErrorView::Decode(error)),
                Ok(response) => match response.header {
                    None => {
                        &&& verdict is Skip <==> is_event(response) || is_pong(response)
                        &&& verdict !is Skip ==> verdict == VerdictView::Close(
                            ErrorView::UnexpectedHeader,
                        )
                    },
                    Some(header) => {
                        let plain = header.version == 1 && header.payload_crc32 == 0;
                        &&& verdict is Skip <==> plain && header.track_id != 0
                        &&& !plain ==> verdict == VerdictView::Close(ErrorView::UnexpectedHeader)
                        &&& plain && header.track_id == 0 ==> match response.rejection() {
                            Some(rejection) => verdict == VerdictView::Close(
                                ErrorView::Rejected(rejection),
                            ),
                            None => match response.body {
                                Some((number, body)) => if number == expected {
                                    verdict == VerdictView::Body(body)
                                } else {
                                    verdict == VerdictView::Close(
                                        ErrorView::UnexpectedBody {
                                            expected,
                                            actual: Some(number),
                                        },
                                    )
                                },
                                None => verdict == VerdictView::Close(
                                    ErrorView::UnexpectedBody { expected, actual: None },
                                ),
                            },
                        }
                    },
                },
            }
        }),
{
}

/// The frame after a request that needs no answer is a rejection exactly if it
/// carries a device error, an acknowledgement exactly if its header has version
/// one and the request's track id, and is passed over otherwise.
pub proof fn optional_answers_are_recognised(payload: Seq<u8>, track: Option<u64>)
    ensures
        ({
            let reply = optional_reply(payload, track);
            match crate::wire::response_of(payload) {
                Err(_) => reply == Ok::<OptionalReply, ErrorView>(OptionalReply::Drained),
                Ok(response) => {
                    let ours = response.header is Some && track is Some
                        && response.header->Some_0.version == 1 && response.header->Some_0.track_id
                        == track->Some_0;
                    &&& response.rejection() matches Some(rejection) ==> reply == Err::<
                        OptionalReply,
                        ErrorView,
                    >(ErrorView::Rejected(rejection))
                    &&& response.rejection() is None ==> reply == Ok::<OptionalReply, ErrorView>(
                        if ours {
                            OptionalReply::Acknowledged
                        } else {
                            OptionalReply::Drained
                        },
                    )
                },
            }
        }),
{
}

// ---------------------------------------------------------------------------
// Answers that arrive in time.
// ---------------------------------------------------------------------------

/// Whether the next read is made before `deadline` and brings a whole frame with
/// this payload, and `rest` behind it.
pub open spec fn arrives(s: State, o: Record, deadline: int, payload: Seq<u8>, rest: Seq<u8>) -> bool {
    &&& s.next_now(o) < deadline
    &&& s.timed(s.next_now(o)).next_read(o) == Ok::<Seq<u8>, ReadError>(frame_of(payload) + rest)
}

/// A session after such a frame was taken.
pub open spec fn after_arrival(s: State, o: Record, deadline: int, rest: Seq<u8>) -> State {
    let now = s.next_now(o);
    let s1 = s.timed(now);
    s1.read((deadline - now) as u128, s1.next_read(o)).with_stream(rest)
}

/// A frame that arrives while nothing is buffered is found at once, and what
/// came behind it is kept.
pub proof fn arriving_frames_are_found(
    s: State,
    o: Record,
    deadline: Instant,
    payload: Seq<u8>,
    rest: Seq<u8>,
)
    requires
        s.stream.len() == 0,
        payload.len() <= MAX_PAYLOAD,
        arrives(s, o, deadline as int, payload, rest),
    ensures
        search_run(s, o, deadline, 0) == (
            Ok::<Option<Seq<u8>>, ErrorView>(Some(payload)),
            after_arrival(s, o, deadline as int, rest),
            0nat,
        ),
{
    let none = Seq::<u8>::empty();
    assert(s.stream == none);
    assert(resync_from(none, 0) == (Ok::<Option<Seq<u8>>, FrameError>(None), none, 0nat)) by {
        assert(none.skip(0) == none);
    }
    assert(s.with_stream(none) == s);
    let now = s.next_now(o);
    let s1 = s.timed(now);
    let bytes = frame_of(payload) + rest;
    assert(bytes.len() > 0);
    let s2 = s1.read((deadline - now) as u128, s1.next_read(o)).with_stream(none + bytes);
    assert(none + bytes == bytes);
    assert(none + frame_of(payload) + rest == bytes);
    garbage_before_a_frame_is_dropped(none, payload, rest, 0);
    assert(search_run(s2, o, deadline, 0) == (
        Ok::<Option<Seq<u8>>, ErrorView>(Some(payload)),
        s2.with_stream(rest),
        0nat,
    ));
}

/// The response to a tracked request that arrives within three seconds of the
/// request is what the exchange gives.
pub proof fn prompt_responses_are_taken(
    s: State,
    o: Record,
    payload: Seq<u8>,
    expected: u32,
    keep_open: bool,
    answer: Seq<u8>,
    rest: Seq<u8>,
    body: Seq<u8>,
)
    requires
        s.closed is None,
        payload.len() <= MAX_PAYLOAD,
        answer.len() <= MAX_PAYLOAD,
        ({
            let (sent, s1) = send_run(
                s.with_track_taken(),
                o,
                frame_of(payload),
                3_000_000_000,
            );
            let now = s1.next_now(o);
            &&& sent is Ok
            &&& arrives(s1.timed(now), o, span_end(now, 3_000_000_000), answer, rest)
        }),
        tracked_verdict(answer, track_from(s.next_track), expected) == VerdictView::Body(body),
    ensures
        execute_run(s, o, payload, expected, keep_open).0 == Ok::<Seq<u8>, ErrorView>(body),
        execute_run(s, o, payload, expected, keep_open).1.closed is None,
        execute_run(s, o, payload, expected, keep_open).1.stream == rest,
{
    reveal(execute_run);
    let s0 = s.with_track_taken();
    lemma_send(s0, o, frame_of(payload), 3_000_000_000);
    lemma_sent_is_quiet(s0, o, frame_of(payload), 3_000_000_000);
    let s1 = send_run(s0, o, frame_of(payload), 3_000_000_000).1;
    let now = s1.next_now(o);
    let deadline = span_end(now, 3_000_000_000) as u128;
    arriving_frames_are_found(s1.timed(now), o, deadline, answer, rest);
}

proof fn lemma_sent_is_quiet(s: State, o: Record, frame: Seq<u8>, timeout: Duration)
    requires
        s.closed is None,
    ensures
        send_run(s, o, frame, timeout).0 is Ok ==> send_run(s, o, frame, timeout).1.stream.len()
            == 0,
{
    reveal(send_run);
    drain_fails_closed(s, o);
}

/// The response to a bootstrap request after the first that arrives within three
/// seconds of the request is what the exchange gives.
pub proof fn prompt_bootstrap_responses_are_taken(
    s: State,
    o: Record,
    payload: Seq<u8>,
    expected: u32,
    answer: Seq<u8>,
    rest: Seq<u8>,
    body: Seq<u8>,
)
    requires
        s.closed is None,
        answer.len() <= MAX_PAYLOAD,
        ({
            let (sent, s1) = send_run(s, o, frame_of(payload), 2_000_000_000);
            let now = s1.next_now(o);
            &&& sent is Ok
            &&& arrives(s1.timed(now), o, span_end(now, 3_000_000_000), answer, rest)
        }),
        bootstrap_verdict(answer, expected) == VerdictView::Body(body),
    ensures
        bootstrap_exchange_run(s, o, payload, expected).0 == Ok::<Seq<u8>, ErrorView>(body),
        bootstrap_exchange_run(s, o, payload, expected).1.closed is None,
{
    reveal(bootstrap_exchange_run);
    lemma_send(s, o, frame_of(payload), 2_000_000_000);
    lemma_sent_is_quiet(s, o, frame_of(payload), 2_000_000_000);
    let s1 = send_run(s, o, frame_of(payload), 2_000_000_000).1;
    let now = s1.next_now(o);
    let deadline = span_end(now, 3_000_000_000) as u128;
    arriving_frames_are_found(s1.timed(now), o, deadline, answer, rest);
}

/// A device that takes the DeviceInfo request and answers it before the twenty
/// seconds that it is given are over is ready: the answer is what the attempts
/// give, with their number. The clock must not run backwards.
pub proof fn slow_devices_become_ready(
    s: State,
    o: Record,
    started: Instant,
    attempts: u32,
    backoff: Duration,
    answer: Seq<u8>,
    rest: Seq<u8>,
    body: Seq<u8>,
)
    requires
        s.closed is None,
        s.stream.len() == 0,
        attempts < u32::MAX,
        answer.len() <= MAX_PAYLOAD,
        started + 20_000_000_000 <= u128::MAX,
        ({
            let now = s.next_now(o);
            let s1 = s.timed(now);
            let left = started + 20_000_000_000 - now;
            let limit = if left >= 2_000_000_000 {
                2_000_000_000
            } else if left >= 1_000_000 {
                left
            } else {
                1_000_000
            };
            let (sent, s2) = write_run(s1, o, probe_frame(), limit as u128);
            let first = s2.next_now(o);
            let s3 = s2.timed(first);
            let second = s3.next_now(o);
            &&& started <= now <= first <= second
            &&& first < started + 20_000_000_000
            &&& second + 20_000_000_000 <= u128::MAX
            &&& sent is Ok
            &&& arrives(s3.timed(second), o, started + 20_000_000_000, answer, rest)
        }),
        bootstrap_verdict(answer, field::DEVICE_INFORMATION) == VerdictView::Body(body),
    ensures
        probe_run(s, o, started, attempts, backoff).0 == Ok::<(Seq<u8>, u32), ErrorView>(
            (body, (attempts + 1) as u32),
        ),
{
    reveal(probe_answer_run);
    let now = s.next_now(o);
    let s1 = s.timed(now);
    let left = readiness_left(now, started);
    assert(left != 0);
    let timeout = probe_timeout(left) as u128;
    let s2 = write_run(s1, o, probe_frame(), timeout).1;
    write_closes_only_when_lost(s1, o, probe_frame(), timeout);
    let first = s2.next_now(o);
    let s3 = s2.timed(first);
    let second = s3.next_now(o);
    let budget = readiness_left(first, started);
    let deadline = crate::time::point_after(second as int, budget) as u128;
    assert(deadline >= started + 20_000_000_000);
    let s4 = s3.timed(second);
    assert(arrives(s4, o, deadline as int, answer, rest));
    arriving_frames_are_found(s4, o, deadline, answer, rest);
}

/// A frame that arrives within a quarter of a second of a request that needs no
/// answer is what the request is answered by.
pub proof fn prompt_replies_are_taken(
    s: State,
    o: Record,
    track: Option<u64>,
    answer: Seq<u8>,
    rest: Seq<u8>,
)
    requires
        s.closed is None,
        s.stream.len() == 0,
        answer.len() <= MAX_PAYLOAD,
        arrives(
            s.timed(s.next_now(o)),
            o,
            span_end(s.next_now(o), 250_000_000),
            answer,
            rest,
        ),
    ensures
        optional_reply_run(s, o, track).0 == optional_reply(answer, track),
        optional_reply_run(s, o, track).1.stream == rest,
{
    reveal(optional_reply_run);
    let now = s.next_now(o);
    let deadline = span_end(now, 250_000_000) as u128;
    arriving_frames_are_found(s.timed(now), o, deadline, answer, rest);
}

} // verus!
