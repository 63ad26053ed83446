//! What a session does, as a function of where it starts and of the record of
//! what its clock and its transport answered.
//!
//! A [`State`] holds everything a session remembers together with every call
//! it has made. A [`Record`] is a longer list of calls: what a session in some
//! state is told next stands in the record right behind the calls it has made.
//! The `.._run` functions replay a session operation against a record; they
//! give its result and the state it ends in, and so fix every byte that is
//! written, every time limit, and every pause.

use vstd::prelude::*;

use crate::frame::{FrameError, HEADER_LEN, MAX_PAYLOAD, MAX_RESYNC_BYTES};
use crate::pb::DecodeError;
use crate::session::{
    OptionalReply, Tick, BOOTSTRAP_WRITE_TIMEOUT, DRAIN_WINDOW, IDEMPOTENT_QUERY_ATTEMPTS,
    IDEMPOTENT_QUERY_BACKOFF, KEEPALIVE_WRITE_TIMEOUT, MAX_SKIPPED_BYTES, MAX_SKIPPED_FRAMES,
    READINESS_DEADLINE, READINESS_INITIAL_BACKOFF, READINESS_MAX_BACKOFF, TRANSACTION_TIMEOUT,
};
use crate::time::{Duration, Instant};
use crate::transport::{ReadError, WriteError};
use crate::wire::field;

verus! {

/// What a [`crate::session::SessionError`] says.
pub enum ErrorView {
    Closed,
    Read(ReadError),
    Write(WriteError),
    Frame(FrameError),
    Decode(DecodeError),
    TooManySkipped,
    Timeout,
    IncompleteResponse,
    UnexpectedHeader,
    Rejected(crate::wire::ProtocolErrorView),
    UnexpectedBody { expected: u32, actual: Option<u32> },
    NotReady { attempts: u32 },
}

impl ErrorView {
    /// The error in words.
    pub open spec fn text(self) -> Seq<char> {
        match self {
            ErrorView::Closed => "the session is closed"@,
            ErrorView::Read(error) => error.text(),
            ErrorView::Write(error) => error.text(),
            ErrorView::Frame(error) => error.text(),
            ErrorView::Decode(error) => error.text(),
            ErrorView::TooManySkipped => "too many unrelated response frames"@,
            ErrorView::Timeout => "timed out waiting for the matching response"@,
            ErrorView::IncompleteResponse => "the response was cut off before the deadline"@,
            ErrorView::UnexpectedHeader => "response has an unexpected header"@,
            ErrorView::Rejected(error) => if error.why.len() == 0 {
                "device rejected the request with error "@ + crate::text::decimal(error.code as nat)
            } else {
                "device rejected the request: "@ + error.why
            },
            ErrorView::UnexpectedBody { expected, actual } => match actual {
                Some(actual) => "response body "@ + crate::text::decimal(actual as nat)
                    + " does not match expected "@ + crate::text::decimal(expected as nat),
                None => "response has no body; expected "@ + crate::text::decimal(expected as nat),
            },
            ErrorView::NotReady { attempts } => "device did not become ready after "@
                + crate::text::decimal(attempts as nat) + " attempts"@,
        }
    }
}

/// Calls on a clock and on a transport, in order, with what came back.
pub struct Record {
    pub io: Seq<crate::transport::Exchange>,
    pub ticks: Seq<Tick>,
}

impl Record {
    /// Whether `longer` begins with these calls.
    pub open spec fn begins(self, longer: Record) -> bool {
        self.io.is_prefix_of(longer.io) && self.ticks.is_prefix_of(longer.ticks)
    }
}

/// What a session remembers, and every call it has made.
#[verifier::ext_equal]
pub struct State {
    /// Bytes received and not yet taken.
    pub stream: Seq<u8>,
    /// The failure that closed the session.
    pub closed: Option<ErrorView>,
    /// Where track ids continue from.
    pub next_track: u64,
    /// How many frames drains have swept up.
    pub drained: u64,
    /// The calls on the transport.
    pub io: Seq<crate::transport::Exchange>,
    /// The calls on the clock.
    pub ticks: Seq<Tick>,
}

impl State {
    /// The calls made so far.
    pub open spec fn record(self) -> Record {
        Record { io: self.io, ticks: self.ticks }
    }

    /// Whether `record` begins with the calls made so far.
    #[verifier::inline]
    pub open spec fn begins(self, record: Record) -> bool {
        self.record().begins(record)
    }

    /// Closed by `error`, unless it was closed before; nothing that was
    /// received is kept.
    pub open spec fn close(self, error: ErrorView) -> State {
        if self.closed is None {
            State { closed: Some(error), stream: Seq::empty(), ..self }
        } else {
            self
        }
    }

    /// With this stream in place of the one there was.
    pub open spec fn with_stream(self, stream: Seq<u8>) -> State {
        State { stream, ..self }
    }

    /// After the clock was read.
    pub open spec fn timed(self, now: Instant) -> State {
        State { ticks: self.ticks.push(Tick::Now(now)), ..self }
    }

    /// After a pause.
    pub open spec fn paused(self, span: Duration) -> State {
        State { ticks: self.ticks.push(Tick::Slept(span)), ..self }
    }

    /// After a read.
    pub open spec fn read(self, timeout: Duration, result: Result<Seq<u8>, ReadError>) -> State {
        State { io: self.io.push(crate::transport::Exchange::Read { timeout, received: result }), ..self }
    }

    /// After a write.
    pub open spec fn wrote(
        self,
        data: Seq<u8>,
        timeout: Duration,
        result: Result<(), WriteError>,
    ) -> State {
        State {
            io: self.io.push(crate::transport::Exchange::Write { data, timeout, outcome: result }),
            ..self
        }
    }

    /// What the clock says next.
    pub open spec fn next_now(self, record: Record) -> Instant {
        record.ticks[self.ticks.len() as int]->Now_0
    }

    /// What the next read brings.
    pub open spec fn next_read(self, record: Record) -> Result<Seq<u8>, ReadError> {
        record.io[self.io.len() as int]->received
    }

    /// How the next write ends.
    pub open spec fn next_write(self, record: Record) -> Result<(), WriteError> {
        record.io[self.io.len() as int]->outcome
    }
}

/// If `later` has made the calls of `earlier` first, a record that begins with
/// those of `later` begins with those of `earlier`.
pub proof fn begins_earlier(earlier: State, later: State, record: Record)
    requires
        earlier.begins(later.record()),
        later.begins(record),
    ensures
        earlier.begins(record),
{
    assert(earlier.io == record.io.subrange(0, earlier.io.len() as int)) by {
        assert(earlier.io == later.io.subrange(0, earlier.io.len() as int));
        assert(later.io == record.io.subrange(0, later.io.len() as int));
    }
    assert(earlier.ticks == record.ticks.subrange(0, earlier.ticks.len() as int)) by {
        assert(earlier.ticks == later.ticks.subrange(0, earlier.ticks.len() as int));
        assert(later.ticks == record.ticks.subrange(0, later.ticks.len() as int));
    }
}

/// A state begins its own record, and one call later the record still begins
/// with what was there, followed by that call.
pub proof fn calls_are_kept(s: State)
    ensures
        s.begins(s.record()),
        forall|now: Instant| s.begins(#[trigger] s.timed(now).record()),
        forall|span: Duration| s.begins(#[trigger] s.paused(span).record()),
        forall|timeout: Duration, result: Result<Seq<u8>, ReadError>|
            s.begins(#[trigger] s.read(timeout, result).record()),
        forall|data: Seq<u8>, timeout: Duration, result: Result<(), WriteError>|
            s.begins(#[trigger] s.wrote(data, timeout, result).record()),
{
}

/// A record that begins with the calls after reading the clock says what the
/// clock said.
pub proof fn time_is_recorded(s: State, now: Instant, record: Record)
    requires
        s.timed(now).begins(record),
    ensures
        s.begins(record),
        s.next_now(record) == now,
{
    let later = s.timed(now);
    assert(later.ticks[s.ticks.len() as int] == record.ticks[s.ticks.len() as int]);
    begins_earlier(s, later, record);
}

/// A record that begins with the calls after a read says what it brought.
pub proof fn read_is_recorded(
    s: State,
    timeout: Duration,
    result: Result<Seq<u8>, ReadError>,
    record: Record,
)
    requires
        s.read(timeout, result).begins(record),
    ensures
        s.begins(record),
        s.next_read(record) == result,
{
    let later = s.read(timeout, result);
    assert(later.io[s.io.len() as int] == record.io[s.io.len() as int]);
    begins_earlier(s, later, record);
}

/// A record that begins with the calls after a write says how it ended.
pub proof fn write_is_recorded(
    s: State,
    data: Seq<u8>,
    timeout: Duration,
    result: Result<(), WriteError>,
    record: Record,
)
    requires
        s.wrote(data, timeout, result).begins(record),
    ensures
        s.begins(record),
        s.next_write(record) == result,
{
    let later = s.wrote(data, timeout, result);
    assert(later.io[s.io.len() as int] == record.io[s.io.len() as int]);
    begins_earlier(s, later, record);
}

// ---------------------------------------------------------------------------
// Track ids.
// ---------------------------------------------------------------------------

/// The id that follows `id` when counting on, past the largest one back to
/// zero.
pub open spec fn id_after(id: u64) -> u64 {
    if id == u64::MAX {
        0
    } else {
        (id + 1) as u64
    }
}

/// The track id that is handed out when ids continue from `next`; never zero.
pub open spec fn track_from(next: u64) -> u64 {
    if next == 0 {
        1
    } else {
        next
    }
}

/// Where ids continue from once [`track_from`] has been handed out.
pub open spec fn next_after(next: u64) -> u64 {
    if id_after(track_from(next)) == 0 {
        1
    } else {
        id_after(track_from(next))
    }
}

impl State {
    /// After a track id was handed out.
    pub open spec fn with_track_taken(self) -> State {
        State { next_track: next_after(self.next_track), ..self }
    }
}

// ---------------------------------------------------------------------------
// Frames.
// ---------------------------------------------------------------------------

/// How much more may be received before a search for one frame must have
/// ended.
pub open spec fn search_left(stream: Seq<u8>, discarded: nat) -> nat {
    let bound = MAX_RESYNC_BYTES + HEADER_LEN + MAX_PAYLOAD;
    if discarded + stream.len() <= bound {
        (bound - discarded - stream.len() + 1) as nat
    } else {
        0
    }
}

/// The search for a frame by an open session: what is buffered first, then
/// what each read brings until the deadline.
pub open spec fn search_run(s: State, o: Record, deadline: Instant, discarded: nat) -> (
    Result<Option<Seq<u8>>, ErrorView>,
    State,
    nat,
)
    decreases search_left(s.stream, discarded),
{
    let (taken, rest, dropped) = crate::frame::resync_from(s.stream, discarded);
    let s1 = s.with_stream(rest);
    match taken {
        Err(error) => (
            Err(ErrorView::Frame(error)),
            s1.close(ErrorView::Frame(error)),
            dropped,
        ),
        Ok(Some(payload)) => (Ok(Some(payload)), s1, dropped),
        Ok(None) => {
            let now = s1.next_now(o);
            let s2 = s1.timed(now);
            if now >= deadline {
                (Ok(None), s2, dropped)
            } else {
                let result = s2.next_read(o);
                let s3 = s2.read((deadline - now) as u128, result);
                match result {
                    Err(error) => (
                        Err(ErrorView::Read(error)),
                        s3.close(ErrorView::Read(error)),
                        dropped,
                    ),
                    Ok(bytes) => if bytes.len() == 0 {
                        (Ok(None), s3, dropped)
                    } else {
                        proof {
                            crate::frame::resync_accounts_for_every_byte(s.stream, discarded);
                        }
                        search_run(s3.with_stream(rest + bytes), o, deadline, dropped)
                    },
                }
            }
        },
    }
}

/// What [`crate::session::Session::read_frame`] does.
pub open spec fn read_frame_run(s: State, o: Record, deadline: Instant, discarded: nat) -> (
    Result<Option<Seq<u8>>, ErrorView>,
    State,
    nat,
) {
    if s.closed is Some {
        (Err(ErrorView::Closed), s, discarded)
    } else {
        search_run(s, o, deadline, discarded)
    }
}

/// What [`crate::session::Session::write_bytes`] does: a lost transport and an
/// unknown outcome close the session.
pub open spec fn write_run(s: State, o: Record, bytes: Seq<u8>, timeout: Duration) -> (
    Result<(), ErrorView>,
    State,
) {
    if s.closed is Some {
        (Err(ErrorView::Closed), s)
    } else {
        let result = s.next_write(o);
        let s1 = s.wrote(bytes, timeout, result);
        match result {
            Ok(()) => (Ok(()), s1),
            Err(error) => (
                Err(ErrorView::Write(error)),
                if error is Lost || error is Unknown {
                    s1.close(ErrorView::Write(error))
                } else {
                    s1
                },
            ),
        }
    }
}

// ---------------------------------------------------------------------------
// Draining.
// ---------------------------------------------------------------------------

/// Frames set aside, and how many bytes they took.
pub struct Skipped {
    pub frames: nat,
    pub bytes: nat,
}

impl Skipped {
    /// Nothing set aside yet.
    pub open spec fn none() -> Skipped {
        Skipped { frames: 0, bytes: 0 }
    }

    /// With one more frame that has `payload_len` bytes of payload.
    pub open spec fn and(self, payload_len: nat) -> Skipped {
        Skipped { frames: self.frames + 1, bytes: self.bytes + payload_len + HEADER_LEN as nat }
    }

    /// Whether the budget still allows waiting.
    pub open spec fn allowed(self) -> bool {
        self.frames <= MAX_SKIPPED_FRAMES && self.bytes <= MAX_SKIPPED_BYTES
    }
}

/// Where a sweep of what is buffered has got to.
#[verifier::ext_equal]
pub struct Sweep {
    pub rest: Seq<u8>,
    pub discarded: nat,
    pub skipped: Skipped,
    pub frames: Seq<Seq<u8>>,
}

/// Takes every complete frame off the stream, within the budget. Gives the
/// failure, if one ended the sweep, and where it has got to.
pub open spec fn sweep(w: Sweep) -> (Option<ErrorView>, Sweep)
    decreases w.rest.len(),
{
    let (taken, rest, discarded) = crate::frame::resync_from(w.rest, w.discarded);
    let next = Sweep { rest, discarded, ..w };
    match taken {
        Err(error) => (Some(ErrorView::Frame(error)), next),
        Ok(None) => (None, next),
        Ok(Some(payload)) => {
            let skipped = w.skipped.and(payload.len());
            if skipped.allowed() {
                proof {
                    crate::frame::resync_accounts_for_every_byte(w.rest, w.discarded);
                }
                sweep(Sweep { skipped, frames: w.frames.push(payload), ..next })
            } else {
                (Some(ErrorView::TooManySkipped), Sweep { skipped, ..next })
            }
        },
    }
}

/// A sweep neither makes nor loses bytes: each is kept, counted as dropped, or
/// counted as skipped.
pub proof fn sweep_accounts_for_every_byte(w: Sweep)
    ensures
        ({
            let (failure, end) = sweep(w);
            failure is None ==> {
                &&& end.rest.len() + end.discarded + end.skipped.bytes == w.rest.len()
                    + w.discarded + w.skipped.bytes
                &&& end.rest.len() < HEADER_LEN + MAX_PAYLOAD
                &&& end.discarded <= MAX_RESYNC_BYTES
                &&& w.skipped.allowed() ==> end.skipped.allowed()
                &&& w.skipped.allowed() ==> end.skipped.bytes <= MAX_SKIPPED_BYTES
                &&& end.frames.len() - w.frames.len() == end.skipped.frames - w.skipped.frames
                &&& end.frames.len() >= w.frames.len()
            }
        }),
    decreases w.rest.len(),
{
    crate::frame::resync_accounts_for_every_byte(w.rest, w.discarded);
    let (taken, rest, discarded) = crate::frame::resync_from(w.rest, w.discarded);
    if let Ok(Some(payload)) = taken {
        let skipped = w.skipped.and(payload.len());
        if skipped.allowed() {
            sweep_accounts_for_every_byte(
                Sweep { rest, discarded, skipped, frames: w.frames.push(payload) },
            );
        }
    }
}

/// How much more may be received before a drain must have ended.
pub open spec fn drain_left(w: Sweep) -> nat {
    let bound = MAX_SKIPPED_BYTES + MAX_RESYNC_BYTES + HEADER_LEN + MAX_PAYLOAD;
    let used = w.skipped.bytes + w.discarded + w.rest.len();
    if used <= bound {
        (bound - used + 1) as nat
    } else {
        0
    }
}

/// The end of a drain: the partial frame that is left is dropped, and the
/// frames that were swept up are counted.
pub open spec fn drain_end(s: State, frames: Seq<Seq<u8>>) -> State {
    State {
        stream: Seq::empty(),
        drained: if s.drained + frames.len() > u64::MAX {
            u64::MAX
        } else {
            (s.drained + frames.len()) as u64
        },
        ..s
    }
}

/// The rounds of a drain: sweep, look at the clock, read what is there without
/// waiting. The stream of `s` is that of the sweep.
pub open spec fn drain_rounds_run(s: State, o: Record, started: Instant, w: Sweep) -> (
    Result<Seq<Seq<u8>>, ErrorView>,
    State,
)
    decreases drain_left(w),
        when w.skipped.allowed()
{
    let (failure, end) = sweep(w);
    let s1 = s.with_stream(end.rest);
    match failure {
        Some(error) => (Err(error), s1.close(error)),
        None => {
            let now = s1.next_now(o);
            let s2 = s1.timed(now);
            if crate::time::span_since(now as int, started as int) >= DRAIN_WINDOW {
                (Ok(end.frames), drain_end(s2, end.frames))
            } else {
                let result = s2.next_read(o);
                let s3 = s2.read(0, result);
                match result {
                    Err(error) => (Err(ErrorView::Read(error)), s3.close(ErrorView::Read(error))),
                    Ok(bytes) => if bytes.len() == 0 {
                        (Ok(end.frames), drain_end(s3, end.frames))
                    } else {
                        proof {
                            sweep_accounts_for_every_byte(w);
                        }
                        drain_rounds_run(
                            s3.with_stream(end.rest + bytes),
                            o,
                            started,
                            Sweep { rest: end.rest + bytes, ..end },
                        )
                    },
                }
            }
        },
    }
}

/// A sweep that starts with this stream.
pub open spec fn sweep_of(stream: Seq<u8>) -> Sweep {
    Sweep { rest: stream, discarded: 0, skipped: Skipped::none(), frames: Seq::empty() }
}

/// What [`crate::session::Session::drain_queued`] does.
pub open spec fn drain_run(s: State, o: Record) -> (Result<Seq<Seq<u8>>, ErrorView>, State) {
    if s.closed is Some {
        (Err(ErrorView::Closed), s)
    } else {
        let started = s.next_now(o);
        drain_rounds_run(s.timed(started), o, started, sweep_of(s.stream))
    }
}

// ---------------------------------------------------------------------------
// Optional replies.
// ---------------------------------------------------------------------------

/// What one frame after a write-only request means: a device error is a
/// rejection, a frame for the request's track id an acknowledgement, and
/// anything else is consumed.
pub open spec fn optional_reply(payload: Seq<u8>, track: Option<u64>) -> Result<
    OptionalReply,
    ErrorView,
> {
    match crate::wire::response_of(payload) {
        Err(_) => Ok(OptionalReply::Drained),
        Ok(response) => match response.rejection() {
            Some(rejection) => Err(ErrorView::Rejected(rejection)),
            None => match (response.header, track) {
                (Some(header), Some(track)) => if header.version == 1 && header.track_id == track {
                    Ok(OptionalReply::Acknowledged)
                } else {
                    Ok(OptionalReply::Drained)
                },
                _ => Ok(OptionalReply::Drained),
            },
        },
    }
}

/// What [`crate::session::Session::await_optional_reply`] does.
#[verifier::opaque]
pub open spec fn optional_reply_run(s: State, o: Record, track: Option<u64>) -> (
    Result<OptionalReply, ErrorView>,
    State,
) {
    if s.closed is Some {
        (Err(ErrorView::Closed), s)
    } else {
        let now = s.next_now(o);
        let deadline = crate::time::point_after(now as int, DRAIN_WINDOW as int) as u128;
        let (found, s1, _) = read_frame_run(s.timed(now), o, deadline, 0);
        match found {
            Err(error) => (Err(error), s1),
            Ok(None) => (Ok(OptionalReply::Nothing), s1.with_stream(Seq::empty())),
            Ok(Some(payload)) => (optional_reply(payload, track), s1),
        }
    }
}

/// The error for a request whose payload does not fit in a frame, if it does
/// not.
pub open spec fn framing_error(payload: Seq<u8>) -> Option<ErrorView> {
    if payload.len() > MAX_PAYLOAD {
        Some(ErrorView::Frame(FrameError::Oversize(payload.len() as usize)))
    } else {
        None
    }
}

/// Drains, then writes `frame`; a write that fails closes the session.
#[verifier::opaque]
pub open spec fn send_run(s: State, o: Record, frame: Seq<u8>, timeout: Duration) -> (
    Result<(), ErrorView>,
    State,
) {
    let (drained, s1) = drain_run(s, o);
    match drained {
        Err(error) => (Err(error), s1),
        Ok(_) => {
            let (written, s2) = write_run(s1, o, frame, timeout);
            match written {
                Err(error) => (Err(error), s2.close(error)),
                Ok(()) => (Ok(()), s2),
            }
        },
    }
}

/// What [`crate::session::Session::write_tracked_only`] does with the request
/// `payload`, built for the track id that was handed out.
#[verifier::opaque]
pub open spec fn write_tracked_only_run(s: State, o: Record, payload: Seq<u8>) -> (
    Result<OptionalReply, ErrorView>,
    State,
) {
    if s.closed is Some {
        (Err(ErrorView::Closed), s)
    } else {
        match framing_error(payload) {
            Some(error) => (Err(error), s.with_track_taken()),
            None => {
                let (sent, s1) = send_run(
                    s.with_track_taken(),
                    o,
                    crate::frame::frame_of(payload),
                    TRANSACTION_TIMEOUT,
                );
                match sent {
                    Err(error) => (Err(error), s1),
                    Ok(()) => optional_reply_run(s1, o, Some(track_from(s.next_track))),
                }
            },
        }
    }
}

/// What [`crate::session::Session::activate`] does: any failure closes the
/// session.
pub open spec fn activate_run(s: State, o: Record) -> (Result<OptionalReply, ErrorView>, State) {
    let (reply, s1) = write_tracked_only_run(
        s,
        o,
        crate::wire::activation_trigger_bytes(track_from(s.next_track)),
    );
    match reply {
        Ok(reply) => (Ok(reply), s1),
        Err(error) => (Err(error), s1.close(error)),
    }
}

/// What a [`crate::session::KeepaliveOutcome`] says.
pub enum OutcomeView {
    Sent(OptionalReply),
    Retryable(ErrorView),
    Fatal(ErrorView),
}

/// What [`crate::session::Session::ping`] does: of all failures only a write
/// that timed out with nothing transferred leaves the session open.
pub open spec fn ping_run(s: State, o: Record) -> (OutcomeView, State) {
    let (drained, s1) = drain_run(s, o);
    match drained {
        Err(error) => (OutcomeView::Fatal(error), s1),
        Ok(_) => {
            let (written, s2) = write_run(
                s1,
                o,
                crate::frame::frame_of(crate::wire::keepalive_ping_bytes()),
                KEEPALIVE_WRITE_TIMEOUT,
            );
            match written {
                Err(error) => if error == ErrorView::Write(WriteError::TimedOut) {
                    (OutcomeView::Retryable(error), s2)
                } else {
                    (OutcomeView::Fatal(error), s2.close(error))
                },
                Ok(()) => {
                    let (reply, s3) = optional_reply_run(s2, o, None);
                    match reply {
                        Ok(reply) => (OutcomeView::Sent(reply), s3),
                        Err(error) => (OutcomeView::Fatal(error), s3.close(error)),
                    }
                },
            }
        },
    }
}

// ---------------------------------------------------------------------------
// Exchanges.
// ---------------------------------------------------------------------------

/// What a frame means to an exchange that waits for its response.
pub enum VerdictView {
    /// It belongs to something else.
    Skip,
    /// It is the response, and it carries this body.
    Body(Seq<u8>),
    /// It ends the exchange with this error; the session stays open.
    Fail(ErrorView),
    /// It closes the session with this error.
    Close(ErrorView),
}

/// What the body of the response says, when `expected` is awaited.
pub open spec fn body_verdict(
    response: crate::wire::ResponseView,
    expected: u32,
) -> VerdictView {
    match response.body {
        Some((number, body)) => if number == expected {
            VerdictView::Body(body)
        } else {
            VerdictView::Close(ErrorView::UnexpectedBody { expected, actual: Some(number) })
        },
        None => VerdictView::Close(ErrorView::UnexpectedBody { expected, actual: None }),
    }
}

/// What a frame means to the tracked exchange with this track id: events and
/// Pongs that were not asked for, and frames of other tracks, are skipped.
pub open spec fn tracked_verdict(payload: Seq<u8>, track: u64, expected: u32) -> VerdictView {
    match crate::wire::response_of(payload) {
        Err(error) => VerdictView::Close(ErrorView::Decode(error)),
        Ok(response) => if response.body_number() == Some(field::ASYNCHRONOUS_EVENT) || (
        response.body_number() == Some(field::PONG) && expected != field::PONG) {
            VerdictView::Skip
        } else {
            match response.header {
                None => VerdictView::Close(ErrorView::UnexpectedHeader),
                Some(header) => if header.track_id != track {
                    VerdictView::Skip
                } else {
                    match response.rejection() {
                        Some(rejection) => VerdictView::Fail(ErrorView::Rejected(rejection)),
                        None => body_verdict(response, expected),
                    }
                },
            }
        },
    }
}

/// What a frame means to an untracked exchange: stale tracked frames and
/// header-less Pongs and events are skipped; any other header than version
/// one, track id zero and no checksum closes, as a device error does.
pub open spec fn bootstrap_verdict(payload: Seq<u8>, expected: u32) -> VerdictView {
    match crate::wire::response_of(payload) {
        Err(error) => VerdictView::Close(ErrorView::Decode(error)),
        Ok(response) => match response.header {
            None => if response.body_number() == Some(field::PONG) || response.body_number()
                == Some(field::ASYNCHRONOUS_EVENT) {
                VerdictView::Skip
            } else {
                VerdictView::Close(ErrorView::UnexpectedHeader)
            },
            Some(header) => if header.version != 1 || header.payload_crc32 != 0 {
                VerdictView::Close(ErrorView::UnexpectedHeader)
            } else if header.track_id != 0 {
                VerdictView::Skip
            } else {
                match response.rejection() {
                    Some(rejection) => VerdictView::Close(ErrorView::Rejected(rejection)),
                    None => body_verdict(response, expected),
                }
            },
        },
    }
}

/// The wait of a tracked exchange for its response.
pub open spec fn tracked_wait_run(
    s: State,
    o: Record,
    track: u64,
    expected: u32,
    keep_open: bool,
    deadline: Instant,
    discarded: nat,
    skipped: Skipped,
) -> (Result<Seq<u8>, ErrorView>, State)
    decreases MAX_SKIPPED_FRAMES - skipped.frames,
{
    let (found, s1, discarded) = read_frame_run(s, o, deadline, discarded);
    match found {
        Err(error) => (Err(error), s1),
        Ok(None) => if s1.stream.len() > 0 {
            (Err(ErrorView::IncompleteResponse), s1.close(ErrorView::IncompleteResponse))
        } else if keep_open {
            (Err(ErrorView::Timeout), s1)
        } else {
            (Err(ErrorView::Timeout), s1.close(ErrorView::Timeout))
        },
        Ok(Some(payload)) => match tracked_verdict(payload, track, expected) {
            VerdictView::Skip => {
                let skipped = skipped.and(payload.len());
                if skipped.allowed() {
                    tracked_wait_run(
                        s1,
                        o,
                        track,
                        expected,
                        keep_open,
                        deadline,
                        discarded,
                        skipped,
                    )
                } else {
                    (Err(ErrorView::TooManySkipped), s1.close(ErrorView::TooManySkipped))
                }
            },
            VerdictView::Body(body) => (Ok(body), s1),
            VerdictView::Fail(error) => (Err(error), s1),
            VerdictView::Close(error) => (Err(error), s1.close(error)),
        },
    }
}

/// What [`crate::session::Session::execute`] does with the request `payload`,
/// built for the track id that was handed out.
#[verifier::opaque]
pub open spec fn execute_run(
    s: State,
    o: Record,
    payload: Seq<u8>,
    expected: u32,
    keep_open: bool,
) -> (Result<Seq<u8>, ErrorView>, State) {
    if s.closed is Some {
        (Err(ErrorView::Closed), s)
    } else {
        match framing_error(payload) {
            Some(error) => (Err(error), s.with_track_taken()),
            None => {
                let (sent, s1) = send_run(
                    s.with_track_taken(),
                    o,
                    crate::frame::frame_of(payload),
                    TRANSACTION_TIMEOUT,
                );
                match sent {
                    Err(error) => (Err(error), s1),
                    Ok(()) => {
                        let now = s1.next_now(o);
                        tracked_wait_run(
                            s1.timed(now),
                            o,
                            track_from(s.next_track),
                            expected,
                            keep_open,
                            crate::time::point_after(now as int, TRANSACTION_TIMEOUT as int) as u128,
                            0,
                            Skipped::none(),
                        )
                    },
                }
            },
        }
    }
}

/// The attempts of [`crate::session::Session::query_user_configuration`], from
/// this one on.
pub open spec fn query_attempts_run(s: State, o: Record, attempt: u32) -> (
    Result<crate::wire::UserConfigurationView, ErrorView>,
    State,
)
    decreases IDEMPOTENT_QUERY_ATTEMPTS - attempt,
{
    let retry = attempt < IDEMPOTENT_QUERY_ATTEMPTS;
    let payload = crate::wire::user_configuration_query_bytes(track_from(s.next_track));
    let (answer, s1) = execute_run(s, o, payload, field::USER_CONFIGURATION, retry);
    match answer {
        Ok(body) => match crate::wire::configuration_of(body) {
            Ok(config) => (Ok(config), s1),
            Err(error) => (Err(ErrorView::Decode(error)), s1.close(ErrorView::Decode(error))),
        },
        Err(error) => if error is Timeout && retry {
            query_attempts_run(s1.paused(IDEMPOTENT_QUERY_BACKOFF), o, (attempt + 1) as u32)
        } else {
            (Err(error), s1)
        },
    }
}

/// What [`crate::session::Session::query_user_configuration`] does.
pub open spec fn query_run(s: State, o: Record) -> (
    Result<crate::wire::UserConfigurationView, ErrorView>,
    State,
) {
    query_attempts_run(s, o, 1)
}

// ---------------------------------------------------------------------------
// Bootstrap.
// ---------------------------------------------------------------------------

/// The wait of an untracked exchange for its response; silence until the
/// deadline closes the session.
pub open spec fn bootstrap_wait_run(
    s: State,
    o: Record,
    expected: u32,
    deadline: Instant,
    discarded: nat,
    skipped: Skipped,
) -> (Result<Seq<u8>, ErrorView>, State)
    decreases MAX_SKIPPED_FRAMES - skipped.frames,
{
    let (found, s1, discarded) = read_frame_run(s, o, deadline, discarded);
    match found {
        Err(error) => (Err(error), s1),
        Ok(None) => (Err(ErrorView::Timeout), s1.close(ErrorView::Timeout)),
        Ok(Some(payload)) => match bootstrap_verdict(payload, expected) {
            VerdictView::Skip => {
                let skipped = skipped.and(payload.len());
                if skipped.allowed() {
                    bootstrap_wait_run(s1, o, expected, deadline, discarded, skipped)
                } else {
                    (Err(ErrorView::TooManySkipped), s1.close(ErrorView::TooManySkipped))
                }
            },
            VerdictView::Body(body) => (Ok(body), s1),
            VerdictView::Fail(error) => (Err(error), s1),
            VerdictView::Close(error) => (Err(error), s1.close(error)),
        },
    }
}

/// One untracked exchange, sent exactly once.
#[verifier::opaque]
pub open spec fn bootstrap_exchange_run(s: State, o: Record, payload: Seq<u8>, expected: u32) -> (
    Result<Seq<u8>, ErrorView>,
    State,
) {
    let (sent, s1) = send_run(
        s,
        o,
        crate::frame::frame_of(payload),
        BOOTSTRAP_WRITE_TIMEOUT,
    );
    match sent {
        Err(error) => (Err(error), s1),
        Ok(()) => {
            let now = s1.next_now(o);
            bootstrap_wait_run(
                s1.timed(now),
                o,
                expected,
                crate::time::point_after(now as int, TRANSACTION_TIMEOUT as int) as u128,
                0,
                Skipped::none(),
            )
        },
    }
}

/// How much of the readiness deadline is left.
pub open spec fn readiness_left(now: Instant, started: Instant) -> int {
    crate::time::span_since(
        READINESS_DEADLINE as int,
        crate::time::span_since(now as int, started as int),
    )
}

/// How long one DeviceInfo write may take.
pub open spec fn probe_timeout(left: int) -> int {
    crate::time::shorter_of(
        BOOTSTRAP_WRITE_TIMEOUT as int,
        if left < 1_000_000 {
            1_000_000
        } else {
            left
        },
    )
}

/// The pause after the one of `backoff`.
pub open spec fn longer_backoff(backoff: Duration) -> Duration {
    crate::time::shorter_of(backoff * 2, READINESS_MAX_BACKOFF as int) as u128
}

/// The wait for the answer to a DeviceInfo request that was transferred, for
/// what is left of the readiness deadline.
#[verifier::opaque]
pub open spec fn probe_answer_run(s: State, o: Record, started: Instant) -> (
    Result<Seq<u8>, ErrorView>,
    State,
) {
    let now = s.next_now(o);
    let s1 = s.timed(now);
    let left = readiness_left(now, started);
    if left == 0 {
        (Err(ErrorView::Timeout), s1.close(ErrorView::Timeout))
    } else {
        let now = s1.next_now(o);
        bootstrap_wait_run(
            s1.timed(now),
            o,
            field::DEVICE_INFORMATION,
            crate::time::point_after(now as int, left) as u128,
            0,
            Skipped::none(),
        )
    }
}

/// The DeviceInfo attempts, when `attempts` writes have been made and the next
/// pause is `backoff`. Only a write that timed out with nothing transferred is
/// made again. Gives the response body and the number of writes.
pub open spec fn probe_run(
    s: State,
    o: Record,
    started: Instant,
    attempts: u32,
    backoff: Duration,
) -> (Result<(Seq<u8>, u32), ErrorView>, State)
    decreases u32::MAX - attempts,
{
    let now = s.next_now(o);
    let s1 = s.timed(now);
    let left = readiness_left(now, started);
    if left == 0 || attempts == u32::MAX {
        (Err(ErrorView::NotReady { attempts }), s1.close(ErrorView::NotReady { attempts }))
    } else {
        let attempts = (attempts + 1) as u32;
        let frame = crate::frame::frame_of(crate::wire::device_information_query_bytes());
        let (written, s2) = write_run(s1, o, frame, probe_timeout(left) as u128);
        match written {
            Err(error) => if error == ErrorView::Write(WriteError::TimedOut) {
                let now = s2.next_now(o);
                let s3 = s2.timed(now);
                let left = readiness_left(now, started);
                if left == 0 {
                    (
                        Err(ErrorView::NotReady { attempts }),
                        s3.close(ErrorView::NotReady { attempts }),
                    )
                } else {
                    let pause = crate::time::shorter_of(backoff as int, left) as u128;
                    probe_run(s3.paused(pause), o, started, attempts, longer_backoff(backoff))
                }
            } else {
                (Err(error), s2.close(error))
            },
            Ok(()) => {
                let (answer, s3) = probe_answer_run(s2, o, started);
                match answer {
                    Err(error) => (Err(error), s3),
                    Ok(body) => (Ok((body, attempts)), s3),
                }
            },
        }
    }
}

/// What a [`crate::session::Bootstrap`] holds.
pub struct BootstrapView {
    pub device: crate::wire::DeviceInformationView,
    pub auth: Seq<char>,
    pub readiness_attempts: u32,
}

/// The two exchanges that follow the DeviceInfo one.
#[verifier::opaque]
pub open spec fn bootstrap_rest_run(
    s: State,
    o: Record,
    device: crate::wire::DeviceInformationView,
    readiness_attempts: u32,
) -> (Result<BootstrapView, ErrorView>, State) {
    let (system, s1) = bootstrap_exchange_run(
        s,
        o,
        crate::wire::system_configuration_query_bytes(),
        field::SYSTEM_CONFIGURATION,
    );
    match system {
        Err(error) => (Err(error), s1),
        Ok(_) => {
            let (auth, s2) = bootstrap_exchange_run(
                s1,
                o,
                crate::wire::device_authentication_query_bytes(),
                field::DEVICE_AUTHENTICATION,
            );
            match auth {
                Err(error) => (Err(error), s2),
                Ok(body) => match crate::wire::text_of(body, 1) {
                    Err(error) => (
                        Err(ErrorView::Decode(error)),
                        s2.close(ErrorView::Decode(error)),
                    ),
                    Ok(auth) => (Ok(BootstrapView { device, auth, readiness_attempts }), s2),
                },
            }
        },
    }
}

/// What [`crate::session::Session::bootstrap`] does.
pub open spec fn bootstrap_run(s: State, o: Record) -> (Result<BootstrapView, ErrorView>, State) {
    let (drained, s1) = drain_run(s, o);
    match drained {
        Err(error) => (Err(error), s1),
        Ok(_) => {
            let started = s1.next_now(o);
            let (probed, s2) = probe_run(
                s1.timed(started),
                o,
                started,
                0,
                READINESS_INITIAL_BACKOFF,
            );
            match probed {
                Err(error) => (Err(error), s2),
                Ok((body, attempts)) => match crate::wire::device_information_of(body) {
                    Err(error) => (
                        Err(ErrorView::Decode(error)),
                        s2.close(ErrorView::Decode(error)),
                    ),
                    Ok(device) => bootstrap_rest_run(s2, o, device, attempts),
                },
            }
        },
    }
}

// ---------------------------------------------------------------------------
// Laws.
// ---------------------------------------------------------------------------

/// A closed session fails closed: every operation is refused with
/// [`ErrorView::Closed`], makes no call, and leaves the session as it is.
pub proof fn closed_session_refuses(
    s: State,
    o: Record,
    deadline: Instant,
    discarded: nat,
    bytes: Seq<u8>,
    timeout: Duration,
    track: Option<u64>,
    expected: u32,
    keep_open: bool,
)
    requires
        s.closed is Some,
    ensures
        read_frame_run(s, o, deadline, discarded) == (
            Err::<Option<Seq<u8>>, ErrorView>(ErrorView::Closed),
            s,
            discarded,
        ),
        write_run(s, o, bytes, timeout) == (Err::<(), ErrorView>(ErrorView::Closed), s),
        drain_run(s, o) == (Err::<Seq<Seq<u8>>, ErrorView>(ErrorView::Closed), s),
        optional_reply_run(s, o, track) == (Err::<OptionalReply, ErrorView>(ErrorView::Closed), s),
        write_tracked_only_run(s, o, bytes) == (
            Err::<OptionalReply, ErrorView>(ErrorView::Closed),
            s,
        ),
        activate_run(s, o) == (Err::<OptionalReply, ErrorView>(ErrorView::Closed), s),
        ping_run(s, o) == (OutcomeView::Fatal(ErrorView::Closed), s),
        execute_run(s, o, bytes, expected, keep_open) == (
            Err::<Seq<u8>, ErrorView>(ErrorView::Closed),
            s,
        ),
        query_run(s, o) == (
            Err::<crate::wire::UserConfigurationView, ErrorView>(ErrorView::Closed),
            s,
        ),
        bootstrap_run(s, o) == (Err::<BootstrapView, ErrorView>(ErrorView::Closed), s),
{
    reveal(optional_reply_run);
    reveal(write_tracked_only_run);
    reveal(execute_run);
}

/// Each failure of a session is told in its own words: what the transport, the
/// framing or the decoding says, or what was wrong with the response.
pub proof fn session_errors_say_what_happened(error: ErrorView)
    ensures
        error.text() == match error {
            ErrorView::Closed => "the session is closed"@,
            ErrorView::Read(read) => read.text(),
            ErrorView::Write(write) => write.text(),
            ErrorView::Frame(frame) => frame.text(),
            ErrorView::Decode(decode) => decode.text(),
            ErrorView::TooManySkipped => "too many unrelated response frames"@,
            ErrorView::Timeout => "timed out waiting for the matching response"@,
            ErrorView::IncompleteResponse => "the response was cut off before the deadline"@,
            ErrorView::UnexpectedHeader => "response has an unexpected header"@,
            ErrorView::Rejected(rejection) => if rejection.why.len() > 0 {
                "device rejected the request: "@ + rejection.why
            } else {
                "device rejected the request with error "@ + crate::text::decimal(
                    rejection.code as nat,
                )
            },
            ErrorView::UnexpectedBody { expected, actual: Some(actual) } => "response body "@
                + crate::text::decimal(actual as nat) + " does not match expected "@
                + crate::text::decimal(expected as nat),
            ErrorView::UnexpectedBody { expected, actual: None } => "response has no body; expected "@
                + crate::text::decimal(expected as nat),
            ErrorView::NotReady { attempts } => "device did not become ready after "@
                + crate::text::decimal(attempts as nat) + " attempts"@,
        },
{
}

} // verus!
