//! Overlapped I/O on the printer interface handle: what the results of the
//! transfers mean.
//!
//! One input transfer is armed before every output transfer and stays armed
//! while the output is in flight. It is never re-armed while an output is
//! pending. A timed-out output is cancelled and the cancellation is waited
//! for before its buffer is released; if the cancellation never completes
//! the buffer is leaked on purpose and the transport is marked lost, since
//! the kernel may still write into it.
//!
//! [`Channel`] keeps what the transport has learned, and [`transfer`] decides
//! which call comes next; whoever makes the calls says how they ended.

pub mod transfer;
pub mod waits;

use vstd::prelude::*;

use crate::text;
use crate::time::{self, Duration};
use crate::transport::{ReadError, WriteError};
use crate::win::{
    ERROR_BAD_UNIT, ERROR_DEVICE_NOT_CONNECTED, ERROR_DEVICE_REMOVED, ERROR_FILE_NOT_FOUND,
    ERROR_INVALID_HANDLE, ERROR_NOT_FOUND, ERROR_NO_SUCH_DEVICE, ERROR_OPERATION_ABORTED,
    WAIT_FAILED, WAIT_OBJECT_0, WAIT_TIMEOUT,
};

verus! {

/// Size of each input transfer.
pub const READ_BUFFER_SIZE: usize = 65_536;

/// Input transfer errors tolerated before the transport latches as lost.
pub const MAX_READ_ERROR_RETRIES: u32 = 10;

/// Longest wait for a cancelled transfer to complete before its buffer is
/// abandoned.
pub const CANCEL_DRAIN_TIMEOUT: Duration = 2_000_000_000;

/// First pause before input is armed again after an error.
pub const READ_RETRY_INITIAL_BACKOFF: Duration = 5_000_000;

/// Longest pause before input is armed again after an error.
pub const READ_RETRY_MAX_BACKOFF: Duration = 100_000_000;

/// Longest single wait for an output transfer.
pub const WAIT_SLICE: Duration = 50_000_000;

/// Whether an error code means the device has gone away.
pub open spec fn lost_code(code: u32) -> bool {
    code == ERROR_FILE_NOT_FOUND || code == ERROR_INVALID_HANDLE || code == ERROR_BAD_UNIT || code
        == ERROR_NO_SUCH_DEVICE || code == ERROR_DEVICE_NOT_CONNECTED || code
        == ERROR_DEVICE_REMOVED
}

/// Whether an error code means the device has gone away.
pub fn is_device_lost(code: u32) -> (lost: bool)
    ensures
        lost == lost_code(code),
{
    code == ERROR_FILE_NOT_FOUND || code == ERROR_INVALID_HANDLE || code == ERROR_BAD_UNIT || code
        == ERROR_NO_SUCH_DEVICE || code == ERROR_DEVICE_NOT_CONNECTED || code
        == ERROR_DEVICE_REMOVED
}

/// The pause in milliseconds after the `attempt`th error in a row: 5, 10, 20,
/// 40, 80, then 100.
pub open spec fn retry_millis(attempt: u32) -> int {
    if attempt <= 1 {
        5
    } else if attempt == 2 {
        10
    } else if attempt == 3 {
        20
    } else if attempt == 4 {
        40
    } else if attempt == 5 {
        80
    } else {
        100
    }
}

/// Backoff before re-arming input after its `attempt`th consecutive error.
pub fn read_retry_backoff(attempt: u32) -> (pause: Duration)
    ensures
        pause == retry_millis(attempt) * 1_000_000,
{
    let doublings: u32 = if attempt <= 1 {
        0
    } else if attempt > 9 {
        8
    } else {
        attempt - 1
    };
    let mut pause: Duration = READ_RETRY_INITIAL_BACKOFF;
    let mut done: u32 = 0;
    while done < doublings && pause < READ_RETRY_MAX_BACKOFF
        invariant
            done <= doublings,
            doublings == if attempt <= 1 {
                0u32
            } else if attempt > 9 {
                8u32
            } else {
                (attempt - 1) as u32
            },
            done == 0 ==> pause == 5_000_000,
            done == 1 ==> pause == 10_000_000,
            done == 2 ==> pause == 20_000_000,
            done == 3 ==> pause == 40_000_000,
            done == 4 ==> pause == 80_000_000,
            done == 5 ==> pause == 160_000_000,
            done <= 5,
        decreases doublings - done,
    {
        pause = pause * 2;
        done = done + 1;
    }
    time::shorter(pause, READ_RETRY_MAX_BACKOFF)
}

/// Milliseconds for a wait call, never the infinite sentinel.
pub fn wait_millis(duration: Duration) -> (millis: u32)
    ensures
        millis == if duration / 1_000_000 < WAIT_FAILED {
            duration / 1_000_000
        } else {
            (WAIT_FAILED - 1) as u128
        },
        millis != WAIT_FAILED,
{
    let whole: u128 = time::as_millis(duration);
    if whole < WAIT_FAILED as u128 {
        whole as u32
    } else {
        WAIT_FAILED - 1
    }
}

/// Outcome of taking down an armed read.
#[derive(Debug, Clone, Copy, PartialEq, Eq, Structural)]
pub enum Disarm {
    /// No read was armed.
    NotArmed,
    /// The read had already completed with this many bytes, now queued.
    Completed(usize),
    /// The read was cancelled and reaped within the given time.
    Cancelled(Duration),
    /// The cancellation did not complete; the buffer was abandoned and the
    /// transport is now lost.
    Abandoned,
}

/// Result of a transfer whose event has been signalled.
#[derive(Debug, PartialEq, Eq)]
pub enum Completion {
    /// Completed; this many bytes were transferred.
    Done(usize),
    /// Cancelled; this many bytes were transferred before that.
    Aborted(usize),
    /// Failed; `transferred` bytes were transferred before that. `reason` is
    /// the error in words.
    Error { code: u32, reason: String, transferred: usize },
}

impl Completion {
    /// How many bytes a transfer moved.
    pub open spec fn moved(self) -> usize {
        match self {
            Completion::Done(n) => n,
            Completion::Aborted(n) => n,
            Completion::Error { transferred, .. } => transferred,
        }
    }

    /// What the result of a transfer says: the call's success, the error code
    /// behind a failure, and how many bytes were transferred.
    pub fn from_result(ok: bool, transferred: usize, code: u32, reason: String) -> (completion:
        Self)
        ensures
            completion == if ok {
                Completion::Done(transferred)
            } else if code == ERROR_OPERATION_ABORTED {
                Completion::Aborted(transferred)
            } else {
                Completion::Error { code, reason, transferred }
            },
    {
        if ok {
            Completion::Done(transferred)
        } else if code == ERROR_OPERATION_ABORTED {
            Completion::Aborted(transferred)
        } else {
            Completion::Error { code, reason, transferred }
        }
    }

    /// How many bytes were transferred.
    pub fn transferred(&self) -> (count: usize)
        ensures
            count == self.moved(),
    {
        match self {
            Completion::Done(n) => *n,
            Completion::Aborted(n) => *n,
            Completion::Error { transferred, .. } => *transferred,
        }
    }
}

/// How a wait for a transfer ended.
#[derive(Debug, Clone, Copy, PartialEq, Eq, Structural)]
pub enum WaitEnd {
    /// The transfer's event was signalled.
    Signalled,
    /// The interrupt was signalled.
    Interrupted,
    /// Neither was.
    Timeout,
}

/// What a wait on the transfer's event, and on the interrupt if there is one,
/// came back with.
pub fn wait_end(waited: u32, has_interrupt: bool) -> (end: WaitEnd)
    ensures
        end == if has_interrupt && waited == 1 {
            WaitEnd::Interrupted
        } else if waited == WAIT_OBJECT_0 {
            WaitEnd::Signalled
        } else {
            WaitEnd::Timeout
        },
{
    if has_interrupt && waited == WAIT_OBJECT_0 + 1 {
        WaitEnd::Interrupted
    } else if waited == WAIT_OBJECT_0 {
        WaitEnd::Signalled
    } else {
        WaitEnd::Timeout
    }
}

/// What to do after one slice of the wait for an output transfer.
#[derive(Debug, Clone, Copy, PartialEq, Eq, Structural)]
pub enum SliceEnd {
    /// The transfer has ended.
    Signalled,
    /// The time is up, or the wait failed: cancel the transfer.
    GiveUp,
    /// Wait for another slice.
    Again,
}

/// How long the next slice of a wait is.
pub fn next_slice(remaining: Duration) -> (slice: Duration)
    ensures
        slice == time::shorter_of(remaining as int, WAIT_SLICE as int),
{
    time::shorter(remaining, WAIT_SLICE)
}

/// What one slice of the wait for an output transfer came to, when `remaining`
/// was left before it.
pub fn slice_end(waited: u32, remaining: Duration) -> (end: SliceEnd)
    ensures
        end == if waited == WAIT_OBJECT_0 {
            SliceEnd::Signalled
        } else if waited != WAIT_TIMEOUT || remaining == 0 {
            SliceEnd::GiveUp
        } else {
            SliceEnd::Again
        },
{
    if waited == WAIT_OBJECT_0 {
        SliceEnd::Signalled
    } else if waited != WAIT_TIMEOUT || remaining == 0 {
        SliceEnd::GiveUp
    } else {
        SliceEnd::Again
    }
}

/// What a transport has learned from its transfers.
#[derive(Debug)]
pub struct Channel {
    /// Bytes received and not yet handed out.
    pub queue: Vec<u8>,
    /// Input errors in a row.
    pub read_errors: u32,
    /// Why the transport is unusable, once it has latched.
    pub lost: Option<String>,
    /// Whether an input transfer is pending.
    pub armed: bool,
}

/// What a [`Channel`] holds.
#[verifier::ext_equal]
pub struct ChannelView {
    pub queue: Seq<u8>,
    pub read_errors: u32,
    pub lost: Option<Seq<char>>,
    pub armed: bool,
}

impl View for Channel {
    type V = ChannelView;

    open spec fn view(&self) -> ChannelView {
        ChannelView {
            queue: self.queue@,
            read_errors: self.read_errors,
            lost: match self.lost {
                Some(reason) => Some(reason@),
                None => None,
            },
            armed: self.armed,
        }
    }
}

impl ChannelView {
    /// Lost for `reason`, unless it was lost before.
    pub open spec fn latched(self, reason: Seq<char>) -> ChannelView {
        ChannelView {
            lost: match self.lost {
                Some(first) => Some(first),
                None => Some(reason),
            },
            ..self
        }
    }

    /// The reason a lost transport gives when `reason` is the latest.
    pub open spec fn loss(self, reason: Seq<char>) -> Seq<char> {
        match self.lost {
            Some(first) => first,
            None => reason,
        }
    }

    /// With one more input error in a row.
    pub open spec fn with_error(self) -> ChannelView {
        ChannelView {
            read_errors: if self.read_errors == u32::MAX {
                u32::MAX
            } else {
                (self.read_errors + 1) as u32
            },
            ..self
        }
    }
}

/// The reason for giving up on input after `count` errors, the last of which
/// was `last`.
pub open spec fn input_failed(count: u32, last: Seq<char>) -> Seq<char> {
    "input failed "@ + text::decimal(count as nat) + " times in a row, last: "@ + last
}

/// What an input error comes to: the pause before another attempt, or the
/// reason for which the transport is lost, and the channel after it.
pub open spec fn read_failure_of(c: ChannelView, code: u32, reason: Seq<char>) -> (
    Result<int, Seq<char>>,
    ChannelView,
) {
    if lost_code(code) {
        (Err(c.loss(reason)), c.latched(reason))
    } else {
        let counted = c.with_error();
        if counted.read_errors > MAX_READ_ERROR_RETRIES {
            let why = input_failed(counted.read_errors, reason);
            (Err(counted.loss(why)), counted.latched(why))
        } else {
            (Ok(retry_millis(counted.read_errors) * 1_000_000), counted)
        }
    }
}

/// The channel after an input transfer was reaped: on completion or
/// cancellation its bytes are queued.
pub open spec fn reaped(c: ChannelView, completion: Completion, buffer: Seq<u8>) -> ChannelView {
    ChannelView {
        queue: if completion is Error {
            c.queue
        } else {
            c.queue + filled(buffer, completion.moved())
        },
        ..c
    }
}

/// What an input completion comes to: how many bytes it brought and the pause
/// that an error asks for, or the reason for which the transport is lost, and
/// the channel after it.
pub open spec fn applied(c: ChannelView, completion: Completion) -> (
    Result<(usize, int), Seq<char>>,
    ChannelView,
) {
    match completion {
        Completion::Error { code, reason, transferred } => {
            let (verdict, after) = read_failure_of(c, code, reason@);
            match verdict {
                Ok(pause) => (Ok((transferred, pause)), after),
                Err(why) => (Err(why), after),
            }
        },
        _ => (
            Ok((completion.moved(), 0)),
            ChannelView {
                read_errors: if completion.moved() > 0 {
                    0
                } else {
                    c.read_errors
                },
                ..c
            },
        ),
    }
}

/// What an output error comes to, and the channel after it.
pub open spec fn write_failure_of(
    c: ChannelView,
    code: u32,
    reason: Seq<char>,
    written: usize,
) -> (WriteErrorView, ChannelView) {
    if lost_code(code) {
        (WriteErrorView::Lost(c.loss(reason)), c.latched(reason))
    } else {
        (WriteErrorView::Failed { written, reason }, c)
    }
}

/// What a [`WriteError`] says.
pub enum WriteErrorView {
    TimedOut,
    Partial { written: usize },
    Unknown,
    Lost(Seq<char>),
    Failed { written: usize, reason: Seq<char> },
}

/// What a [`WriteError`] says.
pub open spec fn write_error_view(error: WriteError) -> WriteErrorView {
    match error {
        WriteError::TimedOut => WriteErrorView::TimedOut,
        WriteError::Partial { written } => WriteErrorView::Partial { written },
        WriteError::Unknown => WriteErrorView::Unknown,
        WriteError::Lost(reason) => WriteErrorView::Lost(reason@),
        WriteError::Failed { written, reason } => WriteErrorView::Failed {
            written,
            reason: reason@,
        },
    }
}

/// What an output transfer of `len` bytes came to, and the channel after it.
/// `in_time` when its event was signalled before it was cancelled.
pub open spec fn write_end_of(
    c: ChannelView,
    in_time: bool,
    completion: Completion,
    len: usize,
) -> (Result<(), WriteErrorView>, ChannelView) {
    match completion {
        Completion::Done(n) => if n == len {
            (Ok(()), c)
        } else {
            (Err(WriteErrorView::Partial { written: n }), c)
        },
        Completion::Aborted(n) => if in_time {
            (Err(WriteErrorView::Failed { written: n, reason: "transfer was aborted"@ }), c)
        } else if n == 0 {
            (Err(WriteErrorView::TimedOut), c)
        } else {
            (Err(WriteErrorView::Partial { written: n }), c)
        },
        Completion::Error { code, reason, transferred } => {
            let (error, after) = write_failure_of(c, code, reason@, transferred);
            (Err(error), after)
        },
    }
}

/// The first `count` bytes of `buffer`, or all of them when there are fewer.
pub open spec fn filled(buffer: Seq<u8>, count: usize) -> Seq<u8> {
    if count <= buffer.len() {
        buffer.take(count as int)
    } else {
        buffer
    }
}

impl Channel {
    /// A channel that has learned nothing yet.
    pub fn new() -> (channel: Self)
        ensures
            channel@ == (ChannelView {
                queue: Seq::empty(),
                read_errors: 0,
                lost: None,
                armed: false,
            }),
    {
        Channel { queue: Vec::new(), read_errors: 0, lost: None, armed: false }
    }

    /// Marks the transport as lost; the first reason stays, and is given back.
    pub fn latch_lost(&mut self, reason: String) -> (first: String)
        ensures
            first@ == old(self)@.loss(reason@),
            final(self)@ == old(self)@.latched(reason@),
    {
        match &self.lost {
            Some(first) => first.clone(),
            None => {
                self.lost = Some(reason.clone());
                reason
            },
        }
    }

    /// Refuses a read on a lost transport.
    pub fn check_lost_for_read(&self) -> (result: Result<(), ReadError>)
        ensures
            match self@.lost {
                Some(reason) => result matches Err(ReadError::Lost(told)) && told@ == reason,
                None => result is Ok,
            },
    {
        match &self.lost {
            Some(reason) => Err(ReadError::Lost(reason.clone())),
            None => Ok(()),
        }
    }

    /// Refuses a write on a lost transport.
    pub fn check_lost_for_write(&self) -> (result: Result<(), WriteError>)
        ensures
            match self@.lost {
                Some(reason) => result matches Err(WriteError::Lost(told)) && told@ == reason,
                None => result is Ok,
            },
    {
        match &self.lost {
            Some(reason) => Err(WriteError::Lost(reason.clone())),
            None => Ok(()),
        }
    }

    /// Hands out the bytes received.
    pub fn take_queue(&mut self) -> (bytes: Vec<u8>)
        ensures
            bytes@ == old(self)@.queue,
            final(self)@ == (ChannelView { queue: Seq::empty(), ..old(self)@ }),
    {
        let mut bytes: Vec<u8> = Vec::new();
        bytes.append(&mut self.queue);
        assert(bytes@ == old(self)@.queue);
        bytes
    }

    /// Records an input error. Gives the pause before another attempt when one
    /// is allowed, or the latched error when the budget is spent.
    pub fn read_failure(&mut self, code: u32, reason: &str) -> (result: Result<Duration, ReadError>)
        ensures
            match read_failure_of(old(self)@, code, reason@).0 {
                Ok(pause) => result matches Ok(told) && told == pause,
                Err(why) => result matches Err(ReadError::Lost(told)) && told@ == why,
            },
            final(self)@ == read_failure_of(old(self)@, code, reason@).1,
    {
        if is_device_lost(code) {
            return Err(ReadError::Lost(self.latch_lost(reason.to_owned())));
        }
        self.read_errors = self.read_errors.saturating_add(1);
        if self.read_errors > MAX_READ_ERROR_RETRIES {
            let start = text::join3(
                "input failed ",
                text::number(self.read_errors as u128).as_str(),
                " times in a row, last: ",
            );
            let why = text::join(start.as_str(), reason);
            return Err(ReadError::Lost(self.latch_lost(why)));
        }
        Ok(read_retry_backoff(self.read_errors))
    }

    /// Takes up what a reaped input transfer brought: on completion or
    /// cancellation its bytes are queued.
    pub fn reap_read(&mut self, completion: &Completion, buffer: &[u8])
        ensures
            final(self)@ == reaped(old(self)@, *completion, buffer@),
    {
        match completion {
            Completion::Error { .. } => {},
            _ => self.queue_bytes(buffer, completion.transferred()),
        }
    }

    /// Queues the first `count` bytes of `buffer`, or all of them when there
    /// are fewer.
    pub fn queue_bytes(&mut self, buffer: &[u8], count: usize)
        ensures
            final(self)@ == (ChannelView {
                queue: old(self)@.queue + filled(buffer@, count),
                ..old(self)@
            }),
    {
        let end: usize = if count <= buffer.len() {
            count
        } else {
            buffer.len()
        };
        let part = vstd::slice::slice_subrange(buffer, 0, end);
        assert(part@ == filled(buffer@, count));
        self.queue.extend_from_slice(part);
        assert(self@.queue == old(self)@.queue + part@);
    }

    /// Applies an input completion: resets or advances the error budget. Gives
    /// how many bytes it brought and the pause that an error asks for.
    pub fn apply_read_completion(&mut self, completion: Completion) -> (result: Result<
        (usize, Duration),
        ReadError,
    >)
        ensures
            match applied(old(self)@, completion).0 {
                Ok((brought, pause)) => result matches Ok(told) && told.0 == brought && told.1
                    == pause,
                Err(why) => result matches Err(ReadError::Lost(told)) && told@ == why,
            },
            final(self)@ == applied(old(self)@, completion).1,
    {
        match completion {
            Completion::Done(n) | Completion::Aborted(n) => {
                if n > 0 {
                    self.read_errors = 0;
                }
                Ok((n, 0))
            },
            Completion::Error { code, reason, transferred } => {
                match self.read_failure(code, reason.as_str()) {
                    Ok(pause) => Ok((transferred, pause)),
                    Err(error) => Err(error),
                }
            },
        }
    }

    /// What a read gives back after a completion that brought `brought` bytes:
    /// what is queued, nothing when the time is up, or `None` to arm and wait
    /// again.
    pub fn read_end(&mut self, brought: usize, past_deadline: bool) -> (bytes: Option<Vec<u8>>)
        ensures
            if brought > 0 {
                &&& bytes matches Some(told) && told@ == old(self)@.queue
                &&& final(self)@ == (ChannelView { queue: Seq::empty(), ..old(self)@ })
            } else {
                &&& final(self)@ == old(self)@
                &&& if past_deadline {
                    bytes matches Some(told) && told@.len() == 0
                } else {
                    bytes is None
                }
            },
    {
        if brought > 0 {
            Some(self.take_queue())
        } else if past_deadline {
            Some(Vec::new())
        } else {
            None
        }
    }

    /// Records an output error.
    pub fn write_failure(&mut self, code: u32, reason: &str, written: usize) -> (error: WriteError)
        ensures
            write_error_view(error) == write_failure_of(old(self)@, code, reason@, written).0,
            final(self)@ == write_failure_of(old(self)@, code, reason@, written).1,
    {
        if is_device_lost(code) {
            WriteError::Lost(self.latch_lost(reason.to_owned()))
        } else {
            WriteError::Failed { written, reason: reason.to_owned() }
        }
    }

    /// What a write of `len` bytes comes to once its transfer has ended, in
    /// time or after it was cancelled.
    pub fn finish_write(&mut self, in_time: bool, completion: Completion, len: usize) -> (result:
        Result<(), WriteError>)
        ensures
            match write_end_of(old(self)@, in_time, completion, len).0 {
                Ok(()) => result is Ok,
                Err(view) => result matches Err(error) && write_error_view(error) == view,
            },
            final(self)@ == write_end_of(old(self)@, in_time, completion, len).1,
    {
        match completion {
            Completion::Done(n) => if n == len {
                Ok(())
            } else {
                Err(WriteError::Partial { written: n })
            },
            Completion::Aborted(n) => if in_time {
                Err(WriteError::Failed { written: n, reason: "transfer was aborted".to_owned() })
            } else if n == 0 {
                Err(WriteError::TimedOut)
            } else {
                Err(WriteError::Partial { written: n })
            },
            Completion::Error { code, reason, transferred } => Err(
                self.write_failure(code, reason.as_str(), transferred),
            ),
        }
    }

    /// What a cancellation that could not be asked for means: nothing when the
    /// transfer had ended by itself, a lost transport otherwise. `transfer`
    /// names it.
    pub fn cancel_failed(&mut self, code: u32, transfer: &str, reason: &str) -> (abandon: bool)
        ensures
            abandon == (code != ERROR_NOT_FOUND),
            final(self)@ == if code == ERROR_NOT_FOUND {
                old(self)@
            } else {
                old(self)@.latched(
                    "could not cancel the "@ + transfer@ + " transfer: "@ + reason@,
                )
            },
    {
        if code == ERROR_NOT_FOUND {
            return false;
        }
        let start = text::join3("could not cancel the ", transfer, " transfer: ");
        let _ = self.latch_lost(text::join(start.as_str(), reason));
        true
    }

    /// Gives up on a cancellation that did not complete. `transfer` names what
    /// was cancelled.
    pub fn abandon(&mut self, transfer: &str)
        ensures
            final(self)@ == old(self)@.latched(transfer@ + " cancellation did not complete"@),
    {
        let _ = self.latch_lost(text::join(transfer, " cancellation did not complete"));
    }
}

/// What a failure to arm input means for the write that needed it.
pub fn arm_failure_for_write(error: ReadError) -> (failure: WriteError)
    ensures
        write_error_view(failure) == match error {
            ReadError::Lost(reason) => WriteErrorView::Lost(reason@),
            ReadError::Failed(reason) => WriteErrorView::Failed { written: 0, reason: reason@ },
            ReadError::Interrupted => WriteErrorView::Failed {
                written: 0,
                reason: "interrupted"@,
            },
        },
{
    match error {
        ReadError::Lost(reason) => WriteError::Lost(reason),
        ReadError::Failed(reason) => WriteError::Failed { written: 0, reason },
        ReadError::Interrupted => WriteError::Failed {
            written: 0,
            reason: "interrupted".to_owned(),
        },
    }
}

/// How taking down an armed read ended, when it had completed before or was
/// cancelled and reaped in `taken`.
pub fn disarmed(already_done: bool, transferred: usize, taken: Duration) -> (disarm: Disarm)
    ensures
        disarm == if already_done {
            Disarm::Completed(transferred)
        } else {
            Disarm::Cancelled(taken)
        },
{
    if already_done {
        Disarm::Completed(transferred)
    } else {
        Disarm::Cancelled(taken)
    }
}

// ---------------------------------------------------------------------------
// Laws.
// ---------------------------------------------------------------------------

/// Once lost, always lost, and for the first reason.
pub proof fn first_loss_stays(c: ChannelView, first: Seq<char>, second: Seq<char>)
    ensures
        c.latched(first).lost is Some,
        c.latched(first).latched(second) == c.latched(first),
        c.lost is None ==> c.latched(first).loss(second) == first,
{
}

/// A write that is reported as timed out was cancelled with nothing
/// transferred, so sending the same bytes again is safe; one that is reported
/// as done transferred every byte.
pub proof fn timed_out_means_nothing_was_sent(
    c: ChannelView,
    in_time: bool,
    completion: Completion,
    len: usize,
)
    ensures
        write_end_of(c, in_time, completion, len).0 == Err::<(), WriteErrorView>(
            WriteErrorView::TimedOut,
        ) <==> !in_time && completion == Completion::Aborted(0),
        write_end_of(c, in_time, completion, len).0 is Ok <==> completion == Completion::Done(len),
{
}

/// Input errors are tolerated ten times in a row; the next one, like one that
/// says that the device is gone, loses the transport.
pub proof fn input_errors_are_bounded(c: ChannelView, code: u32, reason: Seq<char>)
    ensures
        read_failure_of(c, code, reason).0 is Ok <==> !lost_code(code) && c.read_errors
            < MAX_READ_ERROR_RETRIES,
        read_failure_of(c, code, reason).0 is Err ==> read_failure_of(c, code, reason).1.lost
            is Some,
{
}

/// The pauses before input is armed again double and stop growing at a tenth
/// of a second.
pub proof fn read_retry_pauses_double_and_cap(attempt: u32)
    ensures
        5 <= retry_millis(attempt) <= 100,
        1 <= attempt <= 4 ==> retry_millis((attempt + 1) as u32) == 2 * retry_millis(attempt),
        attempt >= 6 ==> retry_millis(attempt) == 100,
{
}

} // verus!
