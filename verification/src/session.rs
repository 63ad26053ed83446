//! The device session: framed exchange over a transport.
//!
//! The session fails closed. Once a malformed stream, an exhausted budget,
//! a rejected exchange, or a lost transport has been seen, every further
//! call returns [`SessionError::Closed`] and a new session must be started
//! on a fresh transport.

pub mod answers;
pub mod laws;
pub mod model;
pub mod testing;
pub mod waits;

use std::collections::hash_map::RandomState;
use std::hash::BuildHasher;

use vstd::prelude::*;
use vstd::slice::slice_to_vec;

use crate::frame::{self, Decoder, FrameError};
use crate::pb::DecodeError;
use crate::session::model::{ErrorView, Record, State};
use crate::text;
use crate::time::{self, Duration, Instant};
use crate::transport::{ReadError, Transport, WriteError};
use crate::wire::{self, field, DeviceInformation, ProtocolError, Response, UserConfiguration};

verus! {

/// Unrelated complete frames tolerated while waiting for a match.
pub const MAX_SKIPPED_FRAMES: usize = 256;

/// Bytes of unrelated complete frames tolerated while waiting for a match.
pub const MAX_SKIPPED_BYTES: usize = 4_194_304;

/// Bound on a drain sweep, and how long to wait for one optional reply.
pub const DRAIN_WINDOW: Duration = 250_000_000;

/// How long a keepalive Ping may take to transfer.
pub const KEEPALIVE_WRITE_TIMEOUT: Duration = 2_000_000_000;

/// How long a matching response may take.
pub const TRANSACTION_TIMEOUT: Duration = 3_000_000_000;

/// How long a bootstrap request may take to transfer.
pub const BOOTSTRAP_WRITE_TIMEOUT: Duration = 2_000_000_000;

/// How long the device may take to answer its first DeviceInfo request
/// after enumeration.
pub const READINESS_DEADLINE: Duration = 20_000_000_000;

/// First pause after a DeviceInfo write that transferred nothing.
pub const READINESS_INITIAL_BACKOFF: Duration = 500_000_000;

/// Longest pause between DeviceInfo attempts.
pub const READINESS_MAX_BACKOFF: Duration = 2_000_000_000;

/// Attempts allowed for a read-only query whose reply times out cleanly.
pub const IDEMPOTENT_QUERY_ATTEMPTS: u32 = 2;

/// Pause before the second attempt of a read-only query.
pub const IDEMPOTENT_QUERY_BACKOFF: Duration = 250_000_000;

/// One call on a clock and what came back.
pub enum Tick {
    /// The clock was read, and said this.
    Now(Instant),
    /// A pause of this length was made.
    Slept(Duration),
}

/// Time source for deadlines and backoff, replaceable in tests.
pub trait Clock {
    /// Every call made so far, in order, with what came back.
    open spec fn ticks(&self) -> Seq<Tick> {
        arbitrary()
    }

    /// The present point in time.
    fn now(&mut self) -> (now: Instant)
        ensures
            final(self).ticks() == old(self).ticks().push(Tick::Now(now)),
    ;

    /// Pauses for `duration`.
    fn sleep(&mut self, duration: Duration)
        ensures
            final(self).ticks() == old(self).ticks().push(Tick::Slept(duration)),
    ;
}

/// Why a session call failed.
#[derive(Debug, PartialEq, Eq)]
pub enum SessionError {
    /// The session has been closed by an earlier failure.
    Closed,
    /// The transport reported a read failure.
    Read(ReadError),
    /// The transport reported a write failure.
    Write(WriteError),
    /// The byte stream could not be framed.
    Frame(FrameError),
    /// A response payload was not a valid message.
    Decode(DecodeError),
    /// Too many unrelated frames arrived while waiting for a match.
    TooManySkipped,
    /// No matching response arrived before the deadline.
    Timeout,
    /// The deadline passed with part of a frame received.
    IncompleteResponse,
    /// A response carried a header the exchange does not accept.
    UnexpectedHeader,
    /// The device answered with an error.
    Rejected(ProtocolError),
    /// The matching response carried the wrong body.
    UnexpectedBody { expected: u32, actual: Option<u32> },
    /// The device never accepted a DeviceInfo request within the readiness
    /// deadline.
    NotReady { attempts: u32 },
}

impl View for SessionError {
    type V = ErrorView;

    open spec fn view(&self) -> ErrorView {
        match *self {
            SessionError::Closed => ErrorView::Closed,
            SessionError::Read(error) => ErrorView::Read(error),
            SessionError::Write(error) => ErrorView::Write(error),
            SessionError::Frame(error) => ErrorView::Frame(error),
            SessionError::Decode(error) => ErrorView::Decode(error),
            SessionError::TooManySkipped => ErrorView::TooManySkipped,
            SessionError::Timeout => ErrorView::Timeout,
            SessionError::IncompleteResponse => ErrorView::IncompleteResponse,
            SessionError::UnexpectedHeader => ErrorView::UnexpectedHeader,
            SessionError::Rejected(error) => ErrorView::Rejected(error@),
            SessionError::UnexpectedBody { expected, actual } => ErrorView::UnexpectedBody {
                expected,
                actual,
            },
            SessionError::NotReady { attempts } => ErrorView::NotReady { attempts },
        }
    }
}

impl Clone for SessionError {
    fn clone(&self) -> (copy: Self)
        ensures
            copy == *self,
    {
        match self {
            SessionError::Closed => SessionError::Closed,
            SessionError::Read(error) => SessionError::Read(error.clone()),
            SessionError::Write(error) => SessionError::Write(error.clone()),
            SessionError::Frame(error) => SessionError::Frame(*error),
            SessionError::Decode(error) => SessionError::Decode(*error),
            SessionError::TooManySkipped => SessionError::TooManySkipped,
            SessionError::Timeout => SessionError::Timeout,
            SessionError::IncompleteResponse => SessionError::IncompleteResponse,
            SessionError::UnexpectedHeader => SessionError::UnexpectedHeader,
            SessionError::Rejected(error) => SessionError::Rejected(error.clone()),
            SessionError::UnexpectedBody { expected, actual } => SessionError::UnexpectedBody {
                expected: *expected,
                actual: *actual,
            },
            SessionError::NotReady { attempts } => SessionError::NotReady { attempts: *attempts },
        }
    }
}

impl SessionError {
    /// What [`SessionError::describe`] says.
    pub open spec fn text(self) -> Seq<char> {
        self@.text()
    }

    /// The error in words.
    pub fn describe(&self) -> (text: String)
        ensures
            text@ == self.text(),
    {
        match self {
            SessionError::Closed => "the session is closed".to_owned(),
            SessionError::Read(error) => error.describe(),
            SessionError::Write(error) => error.describe(),
            SessionError::Frame(error) => error.describe(),
            SessionError::Decode(error) => error.describe(),
            SessionError::TooManySkipped => "too many unrelated response frames".to_owned(),
            SessionError::Timeout => "timed out waiting for the matching response".to_owned(),
            SessionError::IncompleteResponse => {
                "the response was cut off before the deadline".to_owned()
            },
            SessionError::UnexpectedHeader => "response has an unexpected header".to_owned(),
            SessionError::Rejected(error) => if error.why.as_str().is_empty() {
                text::join(
                    "device rejected the request with error ",
                    text::number(error.code as u128).as_str(),
                )
            } else {
                text::join("device rejected the request: ", error.why.as_str())
            },
            SessionError::UnexpectedBody { expected, actual } => match actual {
                Some(actual) => {
                    let start = text::join3(
                        "response body ",
                        text::number(*actual as u128).as_str(),
                        " does not match expected ",
                    );
                    text::join(start.as_str(), text::number(*expected as u128).as_str())
                },
                None => text::join(
                    "response has no body; expected ",
                    text::number(*expected as u128).as_str(),
                ),
            },
            SessionError::NotReady { attempts } => text::join3(
                "device did not become ready after ",
                text::number(*attempts as u128).as_str(),
                " attempts",
            ),
        }
    }
}

/// Counts frames set aside while waiting for the one that matters.
#[derive(Debug, Clone, Copy, PartialEq, Eq, Structural)]
pub struct SkipBudget {
    pub frames: usize,
    pub bytes: usize,
}

impl View for SkipBudget {
    type V = model::Skipped;

    open spec fn view(&self) -> model::Skipped {
        model::Skipped { frames: self.frames as nat, bytes: self.bytes as nat }
    }
}

impl Default for SkipBudget {
    /// Nothing set aside yet.
    fn default() -> (budget: Self)
        ensures
            budget@ == model::Skipped::none(),
    {
        SkipBudget { frames: 0, bytes: 0 }
    }
}

impl SkipBudget {
    /// Records a skipped frame with `payload_len` bytes of payload. Returns
    /// whether the budget still allows waiting.
    pub fn skip(&mut self, payload_len: usize) -> (allowed: bool)
        requires
            old(self).frames < usize::MAX,
            old(self).bytes + payload_len + 8 <= usize::MAX,
        ensures
            final(self)@ == old(self)@.and(payload_len as nat),
            allowed == final(self)@.allowed(),
    {
        self.frames = self.frames + 1;
        self.bytes = self.bytes + payload_len + frame::HEADER_LEN;
        self.frames <= MAX_SKIPPED_FRAMES && self.bytes <= MAX_SKIPPED_BYTES
    }
}

/// What arrived after a write-only request.
#[derive(Debug, Clone, Copy, PartialEq, Eq, Structural)]
pub enum OptionalReply {
    /// Nothing arrived within the window.
    Nothing,
    /// The device acknowledged the request by track id.
    Acknowledged,
    /// An unrelated frame arrived and was consumed.
    Drained,
}

/// How a keepalive Ping ended.
#[derive(Debug, Clone, PartialEq, Eq)]
pub enum KeepaliveOutcome {
    /// The Ping transferred; the reply, if any, was consumed.
    Sent(OptionalReply),
    /// The write transferred nothing before its deadline; the session is
    /// still open and the Ping may be sent again.
    Retryable(SessionError),
    /// The session has been closed.
    Fatal(SessionError),
}

impl View for KeepaliveOutcome {
    type V = model::OutcomeView;

    open spec fn view(&self) -> model::OutcomeView {
        match *self {
            KeepaliveOutcome::Sent(reply) => model::OutcomeView::Sent(reply),
            KeepaliveOutcome::Retryable(error) => model::OutcomeView::Retryable(error@),
            KeepaliveOutcome::Fatal(error) => model::OutcomeView::Fatal(error@),
        }
    }
}

/// What the bootstrap learned.
#[derive(Debug, Clone, PartialEq, Eq)]
pub struct Bootstrap {
    pub device: DeviceInformation,
    pub auth: String,
    /// DeviceInfo writes made before the device answered.
    pub readiness_attempts: u32,
}

impl View for Bootstrap {
    type V = model::BootstrapView;

    open spec fn view(&self) -> model::BootstrapView {
        model::BootstrapView {
            device: self.device@,
            auth: self.auth@,
            readiness_attempts: self.readiness_attempts,
        }
    }
}

/// What a result says, by the view of its error.
pub open spec fn plain<A>(result: Result<A, SessionError>) -> Result<A, ErrorView> {
    match result {
        Ok(value) => Ok(value),
        Err(error) => Err(error@),
    }
}

/// What a result says, by the views of its value and its error.
pub open spec fn viewed<A: View>(result: Result<A, SessionError>) -> Result<A::V, ErrorView> {
    match result {
        Ok(value) => Ok(value@),
        Err(error) => Err(error@),
    }
}

/// What a search for a frame gave.
pub open spec fn found_view(result: Result<Option<Vec<u8>>, SessionError>) -> Result<
    Option<Seq<u8>>,
    ErrorView,
> {
    match result {
        Ok(Some(payload)) => Ok(Some(payload@)),
        Ok(None) => Ok(None),
        Err(error) => Err(error@),
    }
}

/// The frames that a drain swept up.
pub open spec fn frames_view(frames: Seq<Vec<u8>>) -> Seq<Seq<u8>> {
    frames.map_values(|frame: Vec<u8>| frame@)
}

/// What a drain gave.
pub open spec fn drained_view(result: Result<Vec<Vec<u8>>, SessionError>) -> Result<
    Seq<Seq<u8>>,
    ErrorView,
> {
    match result {
        Ok(frames) => Ok(frames_view(frames@)),
        Err(error) => Err(error@),
    }
}

/// What one frame after a write-only request means: a device error is a
/// rejection, a frame for `track` an acknowledgement, and anything else is
/// consumed.
pub fn classify_optional_reply(payload: &[u8], track: Option<u64>) -> (result: Result<
    OptionalReply,
    SessionError,
>)
    ensures
        plain(result) == model::optional_reply(payload@, track),
{
    if let Ok(response) = Response::parse(payload) {
        if let Some(rejection) = response.rejection() {
            return Err(SessionError::Rejected(rejection.clone()));
        }
        if let (Some(header), Some(track)) = (response.header, track) {
            if header.version == 1 && header.track_id == track {
                return Ok(OptionalReply::Acknowledged);
            }
        }
    }
    Ok(OptionalReply::Drained)
}

/// What a frame means to an exchange that waits for its response.
#[derive(Debug, Clone, PartialEq, Eq)]
pub enum Verdict {
    /// It belongs to something else.
    Skip,
    /// It is the response, and it carries this body.
    Body(Vec<u8>),
    /// It ends the exchange with this error; the session stays open.
    Fail(SessionError),
    /// It closes the session with this error.
    Close(SessionError),
}

impl View for Verdict {
    type V = model::VerdictView;

    open spec fn view(&self) -> model::VerdictView {
        match *self {
            Verdict::Skip => model::VerdictView::Skip,
            Verdict::Body(body) => model::VerdictView::Body(body@),
            Verdict::Fail(error) => model::VerdictView::Fail(error@),
            Verdict::Close(error) => model::VerdictView::Close(error@),
        }
    }
}

/// What the body of the response says, when `expected` is awaited.
fn judge_body(response: &Response<'_>, expected: u32) -> (verdict: Verdict)
    ensures
        verdict@ == model::body_verdict(response@, expected),
{
    match response.body {
        Some((number, body)) => if number == expected {
            Verdict::Body(slice_to_vec(body))
        } else {
            Verdict::Close(SessionError::UnexpectedBody { expected, actual: Some(number) })
        },
        None => Verdict::Close(SessionError::UnexpectedBody { expected, actual: None }),
    }
}

/// What a frame means to the tracked exchange with this track id.
pub fn judge_tracked(payload: &[u8], track: u64, expected: u32) -> (verdict: Verdict)
    ensures
        verdict@ == model::tracked_verdict(payload@, track, expected),
{
    let response = match Response::parse(payload) {
        Ok(response) => response,
        Err(error) => return Verdict::Close(SessionError::Decode(error)),
    };
    if let Some(number) = response.body_number() {
        if number == field::ASYNCHRONOUS_EVENT || (number == field::PONG && expected
            != field::PONG) {
            return Verdict::Skip;
        }
    }
    let header = match response.header {
        Some(header) => header,
        None => return Verdict::Close(SessionError::UnexpectedHeader),
    };
    if header.track_id != track {
        return Verdict::Skip;
    }
    if let Some(rejection) = response.rejection() {
        return Verdict::Fail(SessionError::Rejected(rejection.clone()));
    }
    judge_body(&response, expected)
}

/// What a frame means to an untracked exchange.
///
/// Accepted headers carry version 1, track id 0, and crc 0. Frames with a
/// stale tracked header, and header-less Pong or event frames, are skipped.
pub fn judge_bootstrap(payload: &[u8], expected: u32) -> (verdict: Verdict)
    ensures
        verdict@ == model::bootstrap_verdict(payload@, expected),
{
    let response = match Response::parse(payload) {
        Ok(response) => response,
        Err(error) => return Verdict::Close(SessionError::Decode(error)),
    };
    let header = match response.header {
        Some(header) => header,
        None => {
            if let Some(number) = response.body_number() {
                if number == field::PONG || number == field::ASYNCHRONOUS_EVENT {
                    return Verdict::Skip;
                }
            }
            return Verdict::Close(SessionError::UnexpectedHeader);
        },
    };
    if header.version != 1 || header.payload_crc32 != 0 {
        return Verdict::Close(SessionError::UnexpectedHeader);
    }
    if header.track_id != 0 {
        return Verdict::Skip;
    }
    if let Some(rejection) = response.rejection() {
        return Verdict::Close(SessionError::Rejected(rejection.clone()));
    }
    judge_body(&response, expected)
}

/// A framed session over one transport.
pub struct Session<T: Transport, C: Clock> {
    pub transport: T,
    pub decoder: Decoder,
    pub closed: Option<SessionError>,
    pub clock: C,
    pub next_track: u64,
    pub drained: u64,
}

impl<T: Transport, C: Clock> View for Session<T, C> {
    type V = State;

    open spec fn view(&self) -> State {
        State {
            stream: self.decoder@,
            closed: match self.closed {
                Some(error) => Some(error@),
                None => None,
            },
            next_track: self.next_track,
            drained: self.drained,
            io: self.transport.history(),
            ticks: self.clock.ticks(),
        }
    }
}

/// A random starting point for track ids, so a new session's ids do not
/// collide with responses left over from an earlier one.
///
/// Calls `RandomState::new` and hashes one byte with it. The seed is a new one
/// each time, so nothing is claimed of the result.
#[verifier::external_body]
fn random_track_seed() -> u64 {
    RandomState::new().hash_one(0u8)
}

/// The frame around `payload`.
fn framed(payload: &[u8]) -> (result: Result<Vec<u8>, SessionError>)
    ensures
        match model::framing_error(payload@) {
            Some(error) => result matches Err(failure) && failure@ == error,
            None => result matches Ok(bytes) && bytes@ == crate::frame::frame_of(payload@),
        },
{
    match frame::encode(payload) {
        Ok(bytes) => Ok(bytes),
        Err(error) => Err(SessionError::Frame(error)),
    }
}

impl<T: Transport, C: Clock> Session<T, C> {
    /// A session over `transport` with a clock of its own.
    pub fn new(transport: T) -> (session: Self) where C: Default
        ensures
            session.transport == transport,
            session@.stream.len() == 0,
            session@.closed is None,
            session@.drained == 0,
    {
        Session::with_clock(transport, C::default())
    }

    /// A session over `transport` that goes by `clock`.
    pub fn with_clock(transport: T, clock: C) -> (session: Self)
        ensures
            session.transport == transport,
            session.clock == clock,
            session@.stream.len() == 0,
            session@.closed is None,
            session@.drained == 0,
    {
        Session {
            transport,
            decoder: Decoder::new(),
            closed: None,
            clock,
            next_track: random_track_seed(),
            drained: 0,
        }
    }

    /// Sets where track ids continue from, for reproducible sessions.
    pub fn seed_track_ids(&mut self, seed: u64)
        ensures
            final(self)@ == (State { next_track: seed, ..old(self)@ }),
    {
        self.next_track = seed;
    }

    /// The next track id, never zero.
    pub fn allocate_track(&mut self) -> (track: u64)
        ensures
            track == model::track_from(old(self)@.next_track),
            final(self)@ == old(self)@.with_track_taken(),
    {
        let mut id: u64 = self.next_track;
        self.next_track = self.next_track.wrapping_add(1);
        if id == 0 {
            id = self.next_track;
            self.next_track = self.next_track.wrapping_add(1);
        }
        if self.next_track == 0 {
            self.next_track = 1;
        }
        id
    }

    /// Whether the session can still be used.
    pub fn is_open(&self) -> (open: bool)
        ensures
            open == (self@.closed is None),
    {
        self.closed.is_none()
    }

    /// The failure that closed the session, if any.
    pub fn closed_by(&self) -> (error: Option<&SessionError>)
        ensures
            match self@.closed {
                Some(view) => error matches Some(failure) && failure@ == view,
                None => error is None,
            },
    {
        self.closed.as_ref()
    }

    /// How many frames drains have swept up, unasked for.
    pub fn drained_frames(&self) -> (count: u64)
        ensures
            count == self@.drained,
    {
        self.drained
    }

    /// Gives the transport back once the session is finished with it.
    pub fn into_transport(self) -> (transport: T)
        ensures
            transport == self.transport,
    {
        self.transport
    }

    /// The session's idea of now.
    pub fn now(&mut self) -> (now: Instant)
        ensures
            final(self)@ == old(self)@.timed(now),
    {
        self.clock.now()
    }

    /// Pauses on the session's clock.
    pub fn sleep(&mut self, duration: Duration)
        ensures
            final(self)@ == old(self)@.paused(duration),
    {
        self.clock.sleep(duration);
    }

    /// Closes the session, recording `error` as the reason, and returns it.
    /// The first reason stays.
    pub fn close(&mut self, error: SessionError) -> (reason: SessionError)
        ensures
            reason == error,
            final(self)@ == old(self)@.close(error@),
    {
        if self.closed.is_none() {
            self.closed = Some(error.clone());
            self.decoder.clear();
        }
        error
    }

    fn ensure_open(&self) -> (result: Result<(), SessionError>)
        ensures
            self@.closed is Some <==> result is Err,
            result matches Err(error) ==> error is Closed,
    {
        match &self.closed {
            Some(_) => Err(SessionError::Closed),
            None => Ok(()),
        }
    }

    /// Returns the next complete frame payload that arrives before
    /// `deadline`, or `None` when the deadline passes first.
    ///
    /// `discarded` accumulates bytes dropped during resynchronisation for
    /// the current operation; the caller keeps it across calls that belong
    /// to one exchange. A stream that cannot be resynchronised or a lost
    /// transport closes the session.
    pub fn read_frame(&mut self, deadline: Instant, discarded: &mut usize) -> (result: Result<
        Option<Vec<u8>>,
        SessionError,
    >)
        ensures
            old(self)@.begins(final(self)@.record()),
            forall|o: Record| #[trigger]
                final(self)@.begins(o) ==> model::read_frame_run(
                    old(self)@,
                    o,
                    deadline,
                    *old(discarded) as nat,
                ) == (found_view(result), final(self)@, *final(discarded) as nat),
            result matches Ok(Some(payload)) ==> payload@.len() <= frame::MAX_PAYLOAD,
    {
        let ghost start = self@;
        let ghost dropped = *discarded as nat;
        proof {
            model::calls_are_kept(start);
        }
        if let Err(error) = self.ensure_open() {
            return Err(error);
        }
        loop
            invariant
                self@.closed is None,
                start.closed is None,
                start.begins(self@.record()),
                forall|o: Record| #[trigger]
                    self@.begins(o) ==> model::search_run(start, o, deadline, dropped)
                        == model::search_run(self@, o, deadline, *discarded as nat),
                start == old(self)@,
                dropped == *old(discarded),
            decreases model::search_left(self@.stream, *discarded as nat),
        {
            let ghost s0 = self@;
            let ghost d0 = *discarded as nat;
            proof {
                frame::resync_accounts_for_every_byte(s0.stream, d0);
                model::calls_are_kept(s0);
            }
            match self.decoder.resync_and_take_frame(discarded) {
                Ok(Some(payload)) => return Ok(Some(payload)),
                Ok(None) => {},
                Err(error) => return Err(self.close(SessionError::Frame(error))),
            }
            let ghost s1 = self@;
            let now: Instant = self.clock.now();
            let ghost s2 = self@;
            proof {
                model::calls_are_kept(s1);
                model::calls_are_kept(s2);
                model::begins_earlier(start, s0, s1.record());
                model::begins_earlier(start, s1, s2.record());
                assert forall|o: Record| #[trigger] s2.begins(o) implies s0.begins(o) && s1.next_now(
                    o,
                ) == now by {
                    model::time_is_recorded(s1, now, o);
                }
            }
            if now >= deadline {
                return Ok(None);
            }
            let result = self.transport.read(deadline - now);
            let ghost s3 = self@;
            proof {
                let read = crate::transport::read_view(result);
                assert(s3 == s2.read((deadline - now) as u128, read));
                model::begins_earlier(start, s2, s3.record());
                assert forall|o: Record| #[trigger] s3.begins(o) implies s2.begins(o)
                    && s2.next_read(o) == read by {
                    model::read_is_recorded(s2, (deadline - now) as u128, read, o);
                }
            }
            let bytes = match result {
                Ok(bytes) => bytes,
                Err(error) => return Err(self.close(SessionError::Read(error))),
            };
            if bytes.is_empty() {
                return Ok(None);
            }
            self.decoder.push(bytes.as_slice());
        }
    }

    /// Writes one frame's bytes. A lost transport or an unknown outcome
    /// closes the session; other write failures are returned for the caller
    /// to classify.
    pub fn write_bytes(&mut self, bytes: &[u8], timeout: Duration) -> (result: Result<
        (),
        SessionError,
    >)
        ensures
            old(self)@.begins(final(self)@.record()),
            forall|o: Record| #[trigger]
                final(self)@.begins(o) ==> model::write_run(old(self)@, o, bytes@, timeout) == (
                    plain(result),
                    final(self)@,
                ),
    {
        let ghost s0 = self@;
        proof {
            model::calls_are_kept(s0);
        }
        if let Err(error) = self.ensure_open() {
            return Err(error);
        }
        let written = self.transport.write(bytes, timeout);
        let ghost outcome = written;
        let ghost s1 = self@;
        assert(s1 == s0.wrote(bytes@, timeout, outcome));
        let result = match written {
            Ok(()) => Ok(()),
            Err(WriteError::Lost(reason)) => {
                Err(self.close(SessionError::Write(WriteError::Lost(reason))))
            },
            Err(WriteError::Unknown) => Err(self.close(SessionError::Write(WriteError::Unknown))),
            Err(error) => Err(SessionError::Write(error)),
        };
        proof {
            assert forall|o: Record| #[trigger] self@.begins(o) implies model::write_run(
                s0,
                o,
                bytes@,
                timeout,
            ) == (plain(result), self@) by {
                assert(s1.begins(o));
                model::write_is_recorded(s0, bytes@, timeout, outcome, o);
            }
        }
        result
    }

    /// Where the sweep of a drain has got to.
    spec fn sweep_at(
        &self,
        discarded: usize,
        budget: SkipBudget,
        drained: Seq<Vec<u8>>,
    ) -> model::Sweep {
        model::Sweep {
            rest: self@.stream,
            discarded: discarded as nat,
            skipped: budget@,
            frames: frames_view(drained),
        }
    }

    /// Takes every complete frame that is buffered, within the budget.
    fn sweep_buffered(
        &mut self,
        discarded: &mut usize,
        budget: &mut SkipBudget,
        drained: &mut Vec<Vec<u8>>,
    ) -> (result: Result<(), SessionError>)
        requires
            old(budget)@.allowed(),
        ensures
            ({
                let (failure, end) = model::sweep(
                    old(self).sweep_at(*old(discarded), *old(budget), old(drained)@),
                );
                match failure {
                    None => {
                        &&& result is Ok
                        &&& final(self)@ == old(self)@.with_stream(end.rest)
                        &&& end == final(self).sweep_at(
                            *final(discarded),
                            *final(budget),
                            final(drained)@,
                        )
                    },
                    Some(error) => {
                        &&& result matches Err(found) && found@ == error
                        &&& final(self)@ == old(self)@.with_stream(end.rest).close(error)
                    },
                }
            }),
    {
        let ghost s0 = self@;
        let ghost whole = self.sweep_at(*discarded, *budget, drained@);
        loop
            invariant
                budget@.allowed(),
                self@ == s0.with_stream(self@.stream),
                s0 == old(self)@,
                whole == old(self).sweep_at(*old(discarded), *old(budget), old(drained)@),
                model::sweep(whole) == model::sweep(self.sweep_at(*discarded, *budget, drained@)),
            decreases self@.stream.len(),
        {
            proof {
                frame::resync_accounts_for_every_byte(self@.stream, *discarded as nat);
            }
            match self.decoder.resync_and_take_frame(discarded) {
                Ok(Some(payload)) => {
                    if !budget.skip(payload.len()) {
                        return Err(self.close(SessionError::TooManySkipped));
                    }
                    let ghost before = drained@;
                    let ghost taken = payload@;
                    drained.push(payload);
                    assert(frames_view(drained@) == frames_view(before).push(taken));
                },
                Ok(None) => return Ok(()),
                Err(error) => return Err(self.close(SessionError::Frame(error))),
            }
        }
    }

    /// Sweeps up every complete frame the device has already sent, without
    /// waiting for more, then discards any partial frame left over so the
    /// next exchange starts from a clean stream. Bounded by the skip budget
    /// and by [`DRAIN_WINDOW`] of processing time.
    pub fn drain_queued(&mut self) -> (result: Result<Vec<Vec<u8>>, SessionError>)
        ensures
            old(self)@.begins(final(self)@.record()),
            forall|o: Record| #[trigger]
                final(self)@.begins(o) ==> model::drain_run(old(self)@, o) == (
                    drained_view(result),
                    final(self)@,
                ),
    {
        let ghost start = self@;
        proof {
            model::calls_are_kept(start);
        }
        if let Err(error) = self.ensure_open() {
            return Err(error);
        }
        let started: Instant = self.clock.now();
        let mut discarded: usize = 0;
        let mut budget = SkipBudget::default();
        let mut drained: Vec<Vec<u8>> = Vec::new();
        proof {
            let s0 = self@;
            assert(s0 == start.timed(started));
            assert(self.sweep_at(discarded, budget, drained@) == model::sweep_of(start.stream));
            assert forall|o: Record| #[trigger] s0.begins(o) implies model::drain_run(start, o)
                == model::drain_rounds_run(
                s0,
                o,
                started,
                self.sweep_at(discarded, budget, drained@),
            ) by {
                model::time_is_recorded(start, started, o);
            }
        }
        loop
            invariant_except_break
                forall|o: Record| #[trigger]
                    self@.begins(o) ==> model::drain_run(start, o) == model::drain_rounds_run(
                        self@,
                        o,
                        started,
                        self.sweep_at(discarded, budget, drained@),
                    ),
            invariant
                self@.closed is None,
                budget@.allowed(),
                start == old(self)@,
                start.begins(self@.record()),
            ensures
                start.begins(self@.record()),
                forall|o: Record| #[trigger]
                    self@.begins(o) ==> model::drain_run(start, o) == (
                        Ok::<Seq<Seq<u8>>, ErrorView>(frames_view(drained@)),
                        model::drain_end(self@, frames_view(drained@)),
                    ),
            decreases model::drain_left(self.sweep_at(discarded, budget, drained@)),
        {
            let ghost s0 = self@;
            let ghost w0 = self.sweep_at(discarded, budget, drained@);
            proof {
                model::sweep_accounts_for_every_byte(w0);
                model::calls_are_kept(s0);
            }
            if let Err(error) = self.sweep_buffered(&mut discarded, &mut budget, &mut drained) {
                return Err(error);
            }
            let ghost s1 = self@;
            let ghost end = self.sweep_at(discarded, budget, drained@);
            let now: Instant = self.clock.now();
            let ghost s2 = self@;
            proof {
                model::calls_are_kept(s1);
                model::calls_are_kept(s2);
                model::begins_earlier(start, s1, s2.record());
                assert forall|o: Record| #[trigger] s2.begins(o) implies s0.begins(o)
                    && s1.next_now(o) == now by {
                    model::time_is_recorded(s1, now, o);
                }
            }
            if time::saturating_since(now, started) >= DRAIN_WINDOW {
                break;
            }
            let result = self.transport.read(0);
            let ghost s3 = self@;
            proof {
                let read = crate::transport::read_view(result);
                assert(s3 == s2.read(0, read));
                model::begins_earlier(start, s2, s3.record());
                assert forall|o: Record| #[trigger] s3.begins(o) implies s2.begins(o)
                    && s2.next_read(o) == read by {
                    model::read_is_recorded(s2, 0, read, o);
                }
            }
            let bytes = match result {
                Ok(bytes) => bytes,
                Err(error) => return Err(self.close(SessionError::Read(error))),
            };
            if bytes.is_empty() {
                break;
            }
            self.decoder.push(bytes.as_slice());
            proof {
                assert(self.sweep_at(discarded, budget, drained@) == (model::Sweep {
                    rest: end.rest + bytes@,
                    ..end
                }));
            }
        }
        self.decoder.clear();
        self.drained = self.drained.saturating_add(drained.len() as u64);
        Ok(drained)
    }

    /// Waits up to [`DRAIN_WINDOW`] for at most one frame after a
    /// write-only request. A frame for `track` without an error is an
    /// acknowledgement; any frame carrying a device error is a rejection,
    /// returned without closing; any other frame is consumed. A partial
    /// frame left at the deadline is discarded.
    pub fn await_optional_reply(&mut self, track: Option<u64>) -> (result: Result<
        OptionalReply,
        SessionError,
    >)
        ensures
            old(self)@.begins(final(self)@.record()),
            forall|o: Record| #[trigger]
                final(self)@.begins(o) ==> model::optional_reply_run(old(self)@, o, track) == (
                    plain(result),
                    final(self)@,
                ),
    {
        let ghost s0 = self@;
        proof {
            reveal(model::optional_reply_run);
            model::calls_are_kept(s0);
        }
        if let Err(error) = self.ensure_open() {
            return Err(error);
        }
        let now: Instant = self.clock.now();
        let ghost s1 = self@;
        let deadline: Instant = time::after(now, DRAIN_WINDOW);
        let mut discarded: usize = 0;
        let found = self.read_frame(deadline, &mut discarded);
        proof {
            let s2 = self@;
            model::begins_earlier(s0, s1, s2.record());
            assert forall|o: Record| #[trigger] s2.begins(o) implies s0.next_now(o) == now
                && model::read_frame_run(s1, o, deadline, 0) == (
                found_view(found),
                s2,
                discarded as nat,
            ) by {
                model::begins_earlier(s1, s2, o);
                model::time_is_recorded(s0, now, o);
            }
        }
        match found {
            Err(error) => Err(error),
            Ok(None) => {
                self.decoder.clear();
                Ok(OptionalReply::Nothing)
            },
            Ok(Some(payload)) => classify_optional_reply(payload.as_slice(), track),
        }
    }

    /// Drains, then writes `frame`. A write failure closes the session.
    fn send(&mut self, frame: &[u8], timeout: Duration) -> (result: Result<(), SessionError>)
        ensures
            old(self)@.begins(final(self)@.record()),
            forall|o: Record| #[trigger]
                final(self)@.begins(o) ==> model::send_run(old(self)@, o, frame@, timeout) == (
                    plain(result),
                    final(self)@,
                ),
    {
        let ghost s0 = self@;
        proof {
            reveal(model::send_run);
        }
        let drained = self.drain_queued();
        let ghost s1 = self@;
        let _ = match drained {
            Ok(frames) => frames,
            Err(error) => return Err(error),
        };
        let written = self.write_bytes(frame, timeout);
        proof {
            let s2 = self@;
            model::begins_earlier(s0, s1, s2.record());
            assert forall|o: Record| #[trigger] s2.begins(o) implies model::drain_run(s0, o) == (
                drained_view(drained),
                s1,
            ) && model::write_run(s1, o, frame@, timeout) == (plain(written), s2) by {
                model::begins_earlier(s1, s2, o);
            }
        }
        match written {
            Ok(()) => Ok(()),
            Err(error) => Err(self.close(error)),
        }
    }

    /// Writes a tracked request whose reply is optional: drain, write, then
    /// wait for at most one reply. A write failure closes the session; a
    /// rejection is returned without closing.
    ///
    /// `request` builds the request for the track id it is given.
    pub fn write_tracked_only<F: FnOnce(u64) -> Vec<u8>>(&mut self, request: F) -> (result: Result<
        OptionalReply,
        SessionError,
    >)
        requires
            forall|track: u64| track != 0 ==> call_requires(request, (track,)),
        ensures
            old(self)@.begins(final(self)@.record()),
            old(self)@.closed is Some ==> plain(result) == Err::<OptionalReply, ErrorView>(
                ErrorView::Closed,
            ) && final(self)@ == old(self)@,
            old(self)@.closed is None ==> exists|payload: Vec<u8>|
                {
                    &&& #[trigger] call_ensures(
                        request,
                        (model::track_from(old(self)@.next_track),),
                        payload,
                    )
                    &&& forall|o: Record| #[trigger]
                        final(self)@.begins(o) ==> model::write_tracked_only_run(
                            old(self)@,
                            o,
                            payload@,
                        ) == (plain(result), final(self)@)
                },
    {
        let ghost s0 = self@;
        proof {
            reveal(model::write_tracked_only_run);
            model::calls_are_kept(s0);
        }
        if let Err(error) = self.ensure_open() {
            return Err(error);
        }
        let track: u64 = self.allocate_track();
        let payload = request(track);
        let frame = match framed(payload.as_slice()) {
            Ok(frame) => frame,
            Err(error) => return Err(error),
        };
        let ghost s1 = self@;
        let sent = self.send(frame.as_slice(), TRANSACTION_TIMEOUT);
        let ghost s2 = self@;
        proof {
            model::begins_earlier(s0, s1, s2.record());
        }
        if let Err(error) = sent {
            return Err(error);
        }
        let result = self.await_optional_reply(Some(track));
        proof {
            let s3 = self@;
            model::begins_earlier(s0, s2, s3.record());
            assert forall|o: Record| #[trigger] s3.begins(o) implies s2.begins(o) by {
                model::begins_earlier(s2, s3, o);
            }
        }
        result
    }

    /// Sends the empty overlay layout that switches the panel to its stored
    /// work configuration. Any failure, including a rejection, closes the
    /// session.
    pub fn activate(&mut self) -> (result: Result<OptionalReply, SessionError>)
        ensures
            old(self)@.begins(final(self)@.record()),
            forall|o: Record| #[trigger]
                final(self)@.begins(o) ==> model::activate_run(old(self)@, o) == (
                    plain(result),
                    final(self)@,
                ),
    {
        let ghost s0 = self@;
        let sent = self.write_tracked_only(wire::activation_trigger);
        proof {
            let s1 = self@;
            assert forall|o: Record| #[trigger] s1.begins(o) implies model::write_tracked_only_run(
                s0,
                o,
                wire::activation_trigger_bytes(model::track_from(s0.next_track)),
            ) == (plain(sent), s1) by {
                if s0.closed is Some {
                    let payload = wire::activation_trigger_bytes(model::track_from(s0.next_track));
                    model::closed_session_refuses(s0, o, 0, 0, payload, 0, None, 0, false);
                }
            }
        }
        match sent {
            Ok(reply) => Ok(reply),
            Err(error) => Err(self.close(error)),
        }
    }

    /// Sends one keepalive Ping. The session stays open after a Ping write
    /// that timed out with nothing transferred; every other failure closes
    /// it.
    pub fn ping(&mut self) -> (outcome: KeepaliveOutcome)
        ensures
            old(self)@.begins(final(self)@.record()),
            forall|o: Record| #[trigger]
                final(self)@.begins(o) ==> model::ping_run(old(self)@, o) == (
                    outcome@,
                    final(self)@,
                ),
    {
        let ghost s0 = self@;
        let drained = self.drain_queued();
        let ghost s1 = self@;
        let _ = match drained {
            Ok(frames) => frames,
            Err(error) => return KeepaliveOutcome::Fatal(error),
        };
        proof {
            wire::requests_fit_in_a_frame(0);
        }
        let frame = match framed(wire::keepalive_ping().as_slice()) {
            Ok(frame) => frame,
            Err(error) => return KeepaliveOutcome::Fatal(self.close(error)),
        };
        let written = self.write_bytes(
            frame.as_slice(),
            time::shorter(TRANSACTION_TIMEOUT, KEEPALIVE_WRITE_TIMEOUT),
        );
        let ghost s2 = self@;
        proof {
            model::begins_earlier(s0, s1, s2.record());
            assert forall|o: Record| #[trigger] s2.begins(o) implies s1.begins(o) by {
                model::begins_earlier(s1, s2, o);
            }
        }
        match written {
            Ok(()) => {},
            Err(SessionError::Write(WriteError::TimedOut)) => {
                return KeepaliveOutcome::Retryable(SessionError::Write(WriteError::TimedOut));
            },
            Err(error) => return KeepaliveOutcome::Fatal(self.close(error)),
        }
        let reply = self.await_optional_reply(None);
        proof {
            let s3 = self@;
            model::begins_earlier(s0, s2, s3.record());
            assert forall|o: Record| #[trigger] s3.begins(o) implies s2.begins(o) by {
                model::begins_earlier(s2, s3, o);
            }
        }
        match reply {
            Ok(reply) => KeepaliveOutcome::Sent(reply),
            Err(error) => KeepaliveOutcome::Fatal(self.close(error)),
        }
    }

    /// Waits for the response of the tracked exchange with this track id.
    fn await_tracked(
        &mut self,
        track: u64,
        expected_body: u32,
        keep_open_on_timeout: bool,
        deadline: Instant,
    ) -> (result: Result<Vec<u8>, SessionError>)
        ensures
            old(self)@.begins(final(self)@.record()),
            forall|o: Record| #[trigger]
                final(self)@.begins(o) ==> model::tracked_wait_run(
                    old(self)@,
                    o,
                    track,
                    expected_body,
                    keep_open_on_timeout,
                    deadline,
                    0,
                    model::Skipped::none(),
                ) == (viewed(result), final(self)@),
    {
        let ghost start = self@;
        proof {
            model::calls_are_kept(start);
        }
        let mut discarded: usize = 0;
        let mut budget = SkipBudget::default();
        loop
            invariant
                start == old(self)@,
                start.begins(self@.record()),
                budget@.allowed(),
                forall|o: Record| #[trigger]
                    self@.begins(o) ==> model::tracked_wait_run(
                        start,
                        o,
                        track,
                        expected_body,
                        keep_open_on_timeout,
                        deadline,
                        0,
                        model::Skipped::none(),
                    ) == model::tracked_wait_run(
                        self@,
                        o,
                        track,
                        expected_body,
                        keep_open_on_timeout,
                        deadline,
                        discarded as nat,
                        budget@,
                    ),
            decreases MAX_SKIPPED_FRAMES - budget.frames,
        {
            let ghost s0 = self@;
            let found = self.read_frame(deadline, &mut discarded);
            let ghost s1 = self@;
            proof {
                model::begins_earlier(start, s0, s1.record());
                assert forall|o: Record| #[trigger] s1.begins(o) implies s0.begins(o) by {
                    model::begins_earlier(s0, s1, o);
                }
            }
            let payload = match found {
                Err(error) => return Err(error),
                Ok(Some(payload)) => payload,
                Ok(None) => {
                    if self.decoder.buffered() > 0 {
                        return Err(self.close(SessionError::IncompleteResponse));
                    }
                    if keep_open_on_timeout {
                        return Err(SessionError::Timeout);
                    }
                    return Err(self.close(SessionError::Timeout));
                },
            };
            match judge_tracked(payload.as_slice(), track, expected_body) {
                Verdict::Skip => {
                    if !budget.skip(payload.len()) {
                        return Err(self.close(SessionError::TooManySkipped));
                    }
                },
                Verdict::Body(body) => return Ok(body),
                Verdict::Fail(error) => return Err(error),
                Verdict::Close(error) => return Err(self.close(error)),
            }
        }
    }

    /// One tracked exchange: drain, write the request built for a fresh
    /// track id, and wait for the response carrying that id and
    /// `expected_body`.
    ///
    /// Frames for other track ids, header-less Pong frames, and events are
    /// skipped within the budget. A response without a header, a wrong
    /// body, a malformed frame, or a write failure closes the session. A
    /// device error is returned without closing. A clean timeout closes the
    /// session unless `keep_open_on_timeout` is set; a timeout with part of
    /// a frame received always closes.
    ///
    /// `request` builds the request for the track id it is given.
    pub fn execute<F: FnOnce(u64) -> Vec<u8>>(
        &mut self,
        request: F,
        expected_body: u32,
        keep_open_on_timeout: bool,
    ) -> (result: Result<Vec<u8>, SessionError>)
        requires
            forall|track: u64| track != 0 ==> call_requires(request, (track,)),
        ensures
            old(self)@.begins(final(self)@.record()),
            old(self)@.closed is Some ==> viewed(result) == Err::<Seq<u8>, ErrorView>(
                ErrorView::Closed,
            ) && final(self)@ == old(self)@,
            old(self)@.closed is None ==> exists|payload: Vec<u8>|
                {
                    &&& #[trigger] call_ensures(
                        request,
                        (model::track_from(old(self)@.next_track),),
                        payload,
                    )
                    &&& forall|o: Record| #[trigger]
                        final(self)@.begins(o) ==> model::execute_run(
                            old(self)@,
                            o,
                            payload@,
                            expected_body,
                            keep_open_on_timeout,
                        ) == (viewed(result), final(self)@)
                },
    {
        let ghost s0 = self@;
        proof {
            reveal(model::execute_run);
            model::calls_are_kept(s0);
        }
        if let Err(error) = self.ensure_open() {
            return Err(error);
        }
        let track: u64 = self.allocate_track();
        let payload = request(track);
        let frame = match framed(payload.as_slice()) {
            Ok(frame) => frame,
            Err(error) => return Err(error),
        };
        let ghost s1 = self@;
        let sent = self.send(frame.as_slice(), TRANSACTION_TIMEOUT);
        let ghost s2 = self@;
        proof {
            model::begins_earlier(s0, s1, s2.record());
        }
        if let Err(error) = sent {
            return Err(error);
        }
        let now: Instant = self.clock.now();
        let ghost s3 = self@;
        let deadline: Instant = time::after(now, TRANSACTION_TIMEOUT);
        let result = self.await_tracked(track, expected_body, keep_open_on_timeout, deadline);
        proof {
            let s4 = self@;
            model::calls_are_kept(s2);
            model::begins_earlier(s0, s2, s3.record());
            model::begins_earlier(s0, s3, s4.record());
            assert forall|o: Record| #[trigger] s4.begins(o) implies s2.begins(o) && s2.next_now(o)
                == now by {
                model::begins_earlier(s3, s4, o);
                model::time_is_recorded(s2, now, o);
            }
        }
        result
    }

    /// One attempt to read the user configuration.
    fn query_once(&mut self, keep_open_on_timeout: bool) -> (result: Result<Vec<u8>, SessionError>)
        ensures
            old(self)@.begins(final(self)@.record()),
            forall|o: Record| #[trigger]
                final(self)@.begins(o) ==> model::execute_run(
                    old(self)@,
                    o,
                    wire::user_configuration_query_bytes(
                        model::track_from(old(self)@.next_track),
                    ),
                    field::USER_CONFIGURATION,
                    keep_open_on_timeout,
                ) == (viewed(result), final(self)@),
    {
        let ghost s0 = self@;
        let result = self.execute(
            wire::user_configuration_query,
            field::USER_CONFIGURATION,
            keep_open_on_timeout,
        );
        proof {
            if s0.closed is Some {
                assert forall|o: Record| #[trigger] self@.begins(o) implies model::execute_run(
                    s0,
                    o,
                    wire::user_configuration_query_bytes(model::track_from(s0.next_track)),
                    field::USER_CONFIGURATION,
                    keep_open_on_timeout,
                ) == (viewed(result), self@) by {
                    model::closed_session_refuses(
                        s0,
                        o,
                        0,
                        0,
                        wire::user_configuration_query_bytes(model::track_from(s0.next_track)),
                        0,
                        None,
                        field::USER_CONFIGURATION,
                        keep_open_on_timeout,
                    );
                }
            }
        }
        result
    }

    /// Reads the device's user configuration. The query is idempotent, so a
    /// clean timeout on the first attempt is followed by one more after a
    /// short pause.
    pub fn query_user_configuration(&mut self) -> (result: Result<UserConfiguration, SessionError>)
        ensures
            old(self)@.begins(final(self)@.record()),
            forall|o: Record| #[trigger]
                final(self)@.begins(o) ==> model::query_run(old(self)@, o) == (
                    viewed(result),
                    final(self)@,
                ),
    {
        let ghost start = self@;
        proof {
            model::calls_are_kept(start);
        }
        let mut attempt: u32 = 1;
        loop
            invariant
                start == old(self)@,
                start.begins(self@.record()),
                1 <= attempt <= IDEMPOTENT_QUERY_ATTEMPTS,
                forall|o: Record| #[trigger]
                    self@.begins(o) ==> model::query_run(start, o) == model::query_attempts_run(
                        self@,
                        o,
                        attempt,
                    ),
            decreases IDEMPOTENT_QUERY_ATTEMPTS - attempt,
        {
            let ghost s0 = self@;
            let retry_available = attempt < IDEMPOTENT_QUERY_ATTEMPTS;
            let answer = self.query_once(retry_available);
            let ghost s1 = self@;
            proof {
                model::begins_earlier(start, s0, s1.record());
                assert forall|o: Record| #[trigger] s1.begins(o) implies s0.begins(o) by {
                    model::begins_earlier(s0, s1, o);
                }
            }
            match answer {
                Ok(body) => {
                    return match UserConfiguration::parse(body.as_slice()) {
                        Ok(config) => Ok(config),
                        Err(error) => Err(self.close(SessionError::Decode(error))),
                    };
                },
                Err(error) => {
                    if !retry_available || !matches!(error, SessionError::Timeout) {
                        return Err(error);
                    }
                    self.clock.sleep(IDEMPOTENT_QUERY_BACKOFF);
                    attempt = attempt + 1;
                    proof {
                        let s2 = self@;
                        model::calls_are_kept(s1);
                        model::begins_earlier(start, s1, s2.record());
                        assert forall|o: Record| #[trigger] s2.begins(o) implies s1.begins(o) by {
                            model::begins_earlier(s1, s2, o);
                        }
                    }
                },
            }
        }
    }

    /// Waits for a bootstrap response carrying `expected_body`.
    ///
    /// Accepted headers carry version 1, track id 0, and crc 0. Frames with
    /// a stale tracked header, and header-less Pong or event frames, are
    /// skipped within the budget. Anything else, a device error, or a
    /// different body closes the session.
    fn read_bootstrap_response(&mut self, expected_body: u32, deadline: Instant) -> (result: Result<
        Vec<u8>,
        SessionError,
    >)
        ensures
            old(self)@.begins(final(self)@.record()),
            forall|o: Record| #[trigger]
                final(self)@.begins(o) ==> model::bootstrap_wait_run(
                    old(self)@,
                    o,
                    expected_body,
                    deadline,
                    0,
                    model::Skipped::none(),
                ) == (viewed(result), final(self)@),
    {
        let ghost start = self@;
        proof {
            model::calls_are_kept(start);
        }
        let mut discarded: usize = 0;
        let mut budget = SkipBudget::default();
        loop
            invariant
                start == old(self)@,
                start.begins(self@.record()),
                budget@.allowed(),
                forall|o: Record| #[trigger]
                    self@.begins(o) ==> model::bootstrap_wait_run(
                        start,
                        o,
                        expected_body,
                        deadline,
                        0,
                        model::Skipped::none(),
                    ) == model::bootstrap_wait_run(
                        self@,
                        o,
                        expected_body,
                        deadline,
                        discarded as nat,
                        budget@,
                    ),
            decreases MAX_SKIPPED_FRAMES - budget.frames,
        {
            let ghost s0 = self@;
            let found = self.read_frame(deadline, &mut discarded);
            let ghost s1 = self@;
            proof {
                model::begins_earlier(start, s0, s1.record());
                assert forall|o: Record| #[trigger] s1.begins(o) implies s0.begins(o) by {
                    model::begins_earlier(s0, s1, o);
                }
            }
            let payload = match found {
                Err(error) => return Err(error),
                Ok(Some(payload)) => payload,
                Ok(None) => return Err(self.close(SessionError::Timeout)),
            };
            match judge_bootstrap(payload.as_slice(), expected_body) {
                Verdict::Skip => {
                    if !budget.skip(payload.len()) {
                        return Err(self.close(SessionError::TooManySkipped));
                    }
                },
                Verdict::Body(body) => return Ok(body),
                Verdict::Fail(error) => return Err(error),
                Verdict::Close(error) => return Err(self.close(error)),
            }
        }
    }

    /// One untracked exchange sent exactly once: drain, write, and wait for
    /// the exact response body. Any failure closes the session.
    fn bootstrap_exchange(&mut self, payload: &[u8], expected_body: u32) -> (result: Result<
        Vec<u8>,
        SessionError,
    >)
        requires
            payload@.len() <= frame::MAX_PAYLOAD,
        ensures
            old(self)@.begins(final(self)@.record()),
            forall|o: Record| #[trigger]
                final(self)@.begins(o) ==> model::bootstrap_exchange_run(
                    old(self)@,
                    o,
                    payload@,
                    expected_body,
                ) == (viewed(result), final(self)@),
    {
        let ghost s0 = self@;
        proof {
            reveal(model::bootstrap_exchange_run);
            model::calls_are_kept(s0);
        }
        let frame = match framed(payload) {
            Ok(frame) => frame,
            Err(error) => return Err(error),
        };
        let sent = self.send(
            frame.as_slice(),
            time::shorter(TRANSACTION_TIMEOUT, BOOTSTRAP_WRITE_TIMEOUT),
        );
        let ghost s1 = self@;
        if let Err(error) = sent {
            return Err(error);
        }
        let now: Instant = self.clock.now();
        let ghost s2 = self@;
        let deadline: Instant = time::after(now, TRANSACTION_TIMEOUT);
        let result = self.read_bootstrap_response(expected_body, deadline);
        proof {
            let s3 = self@;
            model::calls_are_kept(s1);
            model::begins_earlier(s0, s1, s2.record());
            model::begins_earlier(s0, s2, s3.record());
            assert forall|o: Record| #[trigger] s3.begins(o) implies s1.begins(o) && s1.next_now(o)
                == now by {
                model::begins_earlier(s2, s3, o);
                model::time_is_recorded(s1, now, o);
            }
        }
        result
    }

    /// How long is left of the readiness deadline.
    fn readiness_left(now: Instant, started: Instant) -> (left: Duration)
        ensures
            left == model::readiness_left(now, started),
    {
        time::saturating_since(READINESS_DEADLINE, time::saturating_since(now, started))
    }

    /// Waits for the answer to a DeviceInfo request that was transferred.
    fn probe_answer(&mut self, started: Instant) -> (result: Result<Vec<u8>, SessionError>)
        ensures
            old(self)@.begins(final(self)@.record()),
            forall|o: Record| #[trigger]
                final(self)@.begins(o) ==> model::probe_answer_run(old(self)@, o, started) == (
                    viewed(result),
                    final(self)@,
                ),
    {
        let ghost s0 = self@;
        let first: Instant = self.clock.now();
        let ghost s1 = self@;
        proof {
            reveal(model::probe_answer_run);
            model::calls_are_kept(s0);
            assert forall|o: Record| #[trigger] s1.begins(o) implies s0.next_now(o) == first by {
                model::time_is_recorded(s0, first, o);
            }
        }
        let left: Duration = Self::readiness_left(first, started);
        if left == 0 {
            let error = self.close(SessionError::Timeout);
            proof {
                assert forall|o: Record| #[trigger] self@.begins(o) implies model::probe_answer_run(
                    s0,
                    o,
                    started,
                ) == (Err::<Seq<u8>, ErrorView>(error@), self@) by {
                    assert(s1.begins(o));
                }
            }
            return Err(error);
        }
        let now: Instant = self.clock.now();
        let ghost s2 = self@;
        let deadline: Instant = time::after(now, left);
        let result = self.read_bootstrap_response(field::DEVICE_INFORMATION, deadline);
        proof {
            let s3 = self@;
            model::calls_are_kept(s1);
            model::begins_earlier(s0, s1, s2.record());
            model::begins_earlier(s0, s2, s3.record());
            assert forall|o: Record| #[trigger] s3.begins(o) implies s1.begins(o) && s1.next_now(o)
                == now by {
                model::begins_earlier(s2, s3, o);
                model::time_is_recorded(s1, now, o);
            }
        }
        result
    }

    /// Asks for the device information until a request has been transferred,
    /// with backoff inside the readiness deadline, and waits for the answer.
    /// Gives the response body and how many requests were written.
    fn probe(&mut self, started: Instant) -> (result: Result<(Vec<u8>, u32), SessionError>)
        ensures
            old(self)@.begins(final(self)@.record()),
            forall|o: Record| #[trigger]
                final(self)@.begins(o) ==> model::probe_run(
                    old(self)@,
                    o,
                    started,
                    0,
                    READINESS_INITIAL_BACKOFF,
                ) == (
                    match result {
                        Ok((body, attempts)) => Ok((body@, attempts)),
                        Err(error) => Err(error@),
                    },
                    final(self)@,
                ),
    {
        let ghost start = self@;
        proof {
            model::calls_are_kept(start);
            wire::requests_fit_in_a_frame(0);
        }
        let probe = match framed(wire::device_information_query().as_slice()) {
            Ok(frame) => frame,
            Err(error) => return Err(error),
        };
        let mut attempts: u32 = 0;
        let mut backoff: Duration = READINESS_INITIAL_BACKOFF;
        loop
            invariant
                start == old(self)@,
                start.begins(self@.record()),
                backoff <= READINESS_MAX_BACKOFF,
                probe@ == crate::frame::frame_of(wire::device_information_query_bytes()),
                forall|o: Record| #[trigger]
                    self@.begins(o) ==> model::probe_run(
                        start,
                        o,
                        started,
                        0,
                        READINESS_INITIAL_BACKOFF,
                    ) == model::probe_run(self@, o, started, attempts, backoff),
            decreases u32::MAX - attempts,
        {
            let ghost s0 = self@;
            let now: Instant = self.clock.now();
            let ghost s1 = self@;
            proof {
                model::calls_are_kept(s0);
                model::begins_earlier(start, s0, s1.record());
                assert forall|o: Record| #[trigger] s1.begins(o) implies s0.begins(o)
                    && s0.next_now(o) == now by {
                    model::time_is_recorded(s0, now, o);
                }
            }
            let left: Duration = Self::readiness_left(now, started);
            if left == 0 || attempts == u32::MAX {
                return Err(self.close(SessionError::NotReady { attempts }));
            }
            attempts = attempts + 1;
            let floor: Duration = if left < time::NANOS_PER_MILLI {
                time::NANOS_PER_MILLI
            } else {
                left
            };
            let timeout: Duration = time::shorter(
                time::shorter(TRANSACTION_TIMEOUT, BOOTSTRAP_WRITE_TIMEOUT),
                floor,
            );
            let written = self.write_bytes(probe.as_slice(), timeout);
            let ghost s2 = self@;
            proof {
                model::begins_earlier(start, s1, s2.record());
                assert forall|o: Record| #[trigger] s2.begins(o) implies s1.begins(o) by {
                    model::begins_earlier(s1, s2, o);
                }
            }
            match written {
                Ok(()) => {
                    let answer = self.probe_answer(started);
                    proof {
                        let s3 = self@;
                        model::begins_earlier(start, s2, s3.record());
                        assert forall|o: Record| #[trigger] s3.begins(o) implies s2.begins(o) by {
                            model::begins_earlier(s2, s3, o);
                        }
                    }
                    return match answer {
                        Ok(body) => Ok((body, attempts)),
                        Err(error) => Err(error),
                    };
                },
                Err(SessionError::Write(WriteError::TimedOut)) => {},
                Err(error) => return Err(self.close(error)),
            }
            let now: Instant = self.clock.now();
            let ghost s3 = self@;
            proof {
                model::calls_are_kept(s2);
                model::begins_earlier(start, s2, s3.record());
                assert forall|o: Record| #[trigger] s3.begins(o) implies s2.begins(o)
                    && s2.next_now(o) == now by {
                    model::time_is_recorded(s2, now, o);
                }
            }
            let left: Duration = Self::readiness_left(now, started);
            if left == 0 {
                return Err(self.close(SessionError::NotReady { attempts }));
            }
            self.clock.sleep(time::shorter(backoff, left));
            backoff = time::shorter(backoff * 2, READINESS_MAX_BACKOFF);
            proof {
                let s4 = self@;
                model::calls_are_kept(s3);
                model::begins_earlier(start, s3, s4.record());
                assert forall|o: Record| #[trigger] s4.begins(o) implies s3.begins(o) by {
                    model::begins_earlier(s3, s4, o);
                }
            }
        }
    }

    /// The two exchanges that follow the DeviceInfo one.
    fn bootstrap_rest(&mut self, device: DeviceInformation, readiness_attempts: u32) -> (result:
        Result<Bootstrap, SessionError>)
        ensures
            old(self)@.begins(final(self)@.record()),
            forall|o: Record| #[trigger]
                final(self)@.begins(o) ==> model::bootstrap_rest_run(
                    old(self)@,
                    o,
                    device@,
                    readiness_attempts,
                ) == (viewed(result), final(self)@),
    {
        let ghost s0 = self@;
        proof {
            reveal(model::bootstrap_rest_run);
            wire::requests_fit_in_a_frame(0);
        }
        let system = self.bootstrap_exchange(
            wire::system_configuration_query().as_slice(),
            field::SYSTEM_CONFIGURATION,
        );
        let ghost s1 = self@;
        if let Err(error) = system {
            return Err(error);
        }
        let auth = self.bootstrap_exchange(
            wire::device_authentication_query().as_slice(),
            field::DEVICE_AUTHENTICATION,
        );
        let ghost s2 = self@;
        proof {
            model::begins_earlier(s0, s1, s2.record());
            assert forall|o: Record| #[trigger] s2.begins(o) implies s1.begins(o) by {
                model::begins_earlier(s1, s2, o);
            }
        }
        let body = match auth {
            Ok(body) => body,
            Err(error) => return Err(error),
        };
        match wire::parse_device_authentication(body.as_slice()) {
            Ok(auth) => Ok(Bootstrap { device, auth, readiness_attempts }),
            Err(error) => Err(self.close(SessionError::Decode(error))),
        }
    }

    /// Runs the three untracked exchanges that open a display session:
    /// DeviceInfo, SystemConfiguration, and DeviceAuth.
    ///
    /// Only the DeviceInfo write is retried, and only when it transferred
    /// nothing before its timeout, with backoff inside the readiness
    /// deadline. Any other failure closes the session.
    pub fn bootstrap(&mut self) -> (result: Result<Bootstrap, SessionError>)
        ensures
            old(self)@.begins(final(self)@.record()),
            forall|o: Record| #[trigger]
                final(self)@.begins(o) ==> model::bootstrap_run(old(self)@, o) == (
                    viewed(result),
                    final(self)@,
                ),
    {
        let ghost s0 = self@;
        let drained = self.drain_queued();
        let ghost s1 = self@;
        if let Err(error) = drained {
            return Err(error);
        }
        let started: Instant = self.clock.now();
        let ghost s2 = self@;
        let probed = self.probe(started);
        let ghost s3 = self@;
        proof {
            model::calls_are_kept(s1);
            model::begins_earlier(s0, s1, s2.record());
            model::begins_earlier(s0, s2, s3.record());
            assert forall|o: Record| #[trigger] s3.begins(o) implies s1.begins(o) && s1.next_now(o)
                == started by {
                model::begins_earlier(s2, s3, o);
                model::time_is_recorded(s1, started, o);
            }
        }
        let (body, attempts) = match probed {
            Ok(answer) => answer,
            Err(error) => return Err(error),
        };
        let device = match DeviceInformation::parse(body.as_slice()) {
            Ok(device) => device,
            Err(error) => return Err(self.close(SessionError::Decode(error))),
        };
        let result = self.bootstrap_rest(device, attempts);
        proof {
            let s4 = self@;
            model::begins_earlier(s0, s3, s4.record());
            assert forall|o: Record| #[trigger] s4.begins(o) implies s3.begins(o) by {
                model::begins_earlier(s3, s4, o);
            }
        }
        result
    }
}

} // verus!
