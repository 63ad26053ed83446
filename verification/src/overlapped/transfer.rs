//! Which call on the handle comes next: for a write, for a read, and for
//! taking down an armed read.

use vstd::prelude::*;

use crate::overlapped::{
    applied, disarmed, filled, next_slice, read_failure_of, reaped, slice_end, wait_end,
    write_end_of, write_error_view, write_failure_of, Channel, ChannelView, Completion, Disarm,
    SliceEnd, WaitEnd, WriteErrorView, CANCEL_DRAIN_TIMEOUT, WAIT_SLICE,
};
use crate::time::{self, Duration, Instant};
use crate::transport::{ReadError, WriteError};
use crate::win::{ERROR_IO_PENDING, ERROR_NOT_FOUND, WAIT_OBJECT_0, WAIT_TIMEOUT};

verus! {

/// How submitting or cancelling a transfer ended: whether the call succeeded,
/// the error code behind a failure, and the error in words.
#[derive(Debug, PartialEq, Eq)]
pub struct CallEnd {
    pub ok: bool,
    pub code: u32,
    pub reason: String,
}

impl CallEnd {
    /// Whether a submitted transfer is under way.
    pub open spec fn submitted(self) -> bool {
        self.ok || self.code == ERROR_IO_PENDING
    }

    /// Whether a transfer has been cancelled, or had ended before.
    pub open spec fn cancelled(self) -> bool {
        self.ok || self.code == ERROR_NOT_FOUND
    }

    /// Whether a submitted transfer is under way.
    fn is_submitted(&self) -> (under_way: bool)
        ensures
            under_way == self.submitted(),
    {
        self.ok || self.code == ERROR_IO_PENDING
    }
}

/// What a [`ReadError`] says.
pub enum ReadErrorView {
    Lost(Seq<char>),
    Failed(Seq<char>),
    Interrupted,
}

/// What a [`ReadError`] says.
pub open spec fn read_error_view(error: ReadError) -> ReadErrorView {
    match error {
        ReadError::Lost(reason) => ReadErrorView::Lost(reason@),
        ReadError::Failed(reason) => ReadErrorView::Failed(reason@),
        ReadError::Interrupted => ReadErrorView::Interrupted,
    }
}

// ---------------------------------------------------------------------------
// Writing.
// ---------------------------------------------------------------------------

/// What a write does next.
#[derive(Debug, PartialEq, Eq)]
pub enum WriteAction {
    /// Submit an input transfer.
    ArmRead,
    /// Pause for this long.
    Pause(Duration),
    /// Submit the output transfer.
    Submit,
    /// Wait for the output transfer for this long.
    Await(Duration),
    /// Cancel the output transfer.
    Cancel,
    /// Read the result of the output transfer, which has ended, and release its
    /// buffer.
    Reap,
    /// Give up the output transfer's buffer without releasing it.
    Leak,
    /// See whether the armed read has ended, without waiting.
    PollRead,
    /// Read the result of the armed read, which has ended, and release its
    /// buffer.
    ReapRead,
    /// The write is over.
    Finish(Result<(), WriteError>),
}

/// What a [`WriteAction`] says.
pub enum WriteActionView {
    ArmRead,
    Pause(int),
    Submit,
    Await(int),
    Cancel,
    Reap,
    Leak,
    PollRead,
    ReapRead,
    Finish(Result<(), WriteErrorView>),
}

/// What the end of a write says.
pub open spec fn write_result_view(result: Result<(), WriteError>) -> Result<(), WriteErrorView> {
    match result {
        Ok(_) => Ok(()),
        Err(error) => Err(write_error_view(error)),
    }
}

impl View for WriteAction {
    type V = WriteActionView;

    open spec fn view(&self) -> WriteActionView {
        match *self {
            WriteAction::ArmRead => WriteActionView::ArmRead,
            WriteAction::Pause(span) => WriteActionView::Pause(span as int),
            WriteAction::Submit => WriteActionView::Submit,
            WriteAction::Await(span) => WriteActionView::Await(span as int),
            WriteAction::Cancel => WriteActionView::Cancel,
            WriteAction::Reap => WriteActionView::Reap,
            WriteAction::Leak => WriteActionView::Leak,
            WriteAction::PollRead => WriteActionView::PollRead,
            WriteAction::ReapRead => WriteActionView::ReapRead,
            WriteAction::Finish(result) => WriteActionView::Finish(write_result_view(result)),
        }
    }
}

/// How what a write did last has ended.
#[derive(Debug, PartialEq, Eq)]
pub enum WriteEvent {
    /// A transfer could not be prepared, for this reason.
    Unprepared(String),
    /// An input transfer was submitted, or not.
    Armed(CallEnd),
    /// A pause is over.
    Paused,
    /// The output transfer was submitted, or not, and it is now this time.
    Submitted(CallEnd, Instant),
    /// A wait ended with this status, and it is now this time.
    Waited(u32, Instant),
    /// The output transfer was cancelled, or not.
    Cancelled(CallEnd),
    /// The output transfer came to this.
    Reaped(Completion),
    /// The buffer was given up.
    Leaked,
    /// The armed read came to this, with this buffer.
    ReadReaped(Completion, Vec<u8>),
}

/// How far a write has come.
#[derive(Debug, Clone, Copy, PartialEq, Eq, Structural)]
pub enum WritePhase {
    /// Input is being armed.
    Arming,
    /// Input is armed and the output transfer is submitted.
    Submitting,
    /// The output transfer is under way.
    InFlight,
    /// The output transfer is being cancelled.
    Cancelling,
    /// The output transfer was cancelled and has not ended yet.
    Landing,
    /// The output transfer has ended by itself.
    Ended,
    /// The output transfer has ended after it was cancelled.
    Landed,
    /// The output transfer has not ended and is given up.
    Lost,
    /// The output transfer is over; the armed read is looked at.
    Polling,
    /// The armed read has ended too.
    ReapingRead,
    /// The pause after an input error is made.
    Settling,
    /// The write is over.
    Over,
}

/// A write that is under way.
#[derive(Debug)]
pub struct Writing {
    /// How many bytes are written.
    pub len: usize,
    /// How long they may take.
    pub timeout: Duration,
    /// Whether waits for input also end on an interrupt.
    pub interruptible: bool,
    pub phase: WritePhase,
    /// Until when the output transfer may take.
    pub deadline: Instant,
    /// How much of that was left before the last wait.
    pub remaining: Duration,
    /// What the output transfer came to, once it is over.
    pub result: Option<Result<(), WriteError>>,
}

/// What a [`Writing`] holds.
#[verifier::ext_equal]
pub struct WritingView {
    pub len: usize,
    pub timeout: Duration,
    pub interruptible: bool,
    pub phase: WritePhase,
    pub deadline: Instant,
    pub remaining: Duration,
    pub result: Option<Result<(), WriteErrorView>>,
}

impl View for Writing {
    type V = WritingView;

    open spec fn view(&self) -> WritingView {
        WritingView {
            len: self.len,
            timeout: self.timeout,
            interruptible: self.interruptible,
            phase: self.phase,
            deadline: self.deadline,
            remaining: self.remaining,
            result: match self.result {
                Some(result) => Some(write_result_view(result)),
                None => None,
            },
        }
    }
}

/// Whether an event is one that a write waits for in this phase.
pub open spec fn write_awaits(w: WritingView, event: WriteEvent) -> bool {
    match w.phase {
        WritePhase::Arming => event is Armed || event is Paused || event is Unprepared,
        WritePhase::Submitting => event is Submitted || event is Unprepared,
        WritePhase::InFlight => event is Waited,
        WritePhase::Cancelling => event is Cancelled,
        WritePhase::Landing => event is Waited,
        WritePhase::Ended => event is Reaped,
        WritePhase::Landed => event is Reaped,
        WritePhase::Lost => event is Leaked,
        WritePhase::Polling => event is Waited && w.result is Some,
        WritePhase::ReapingRead => event is ReadReaped && w.result is Some,
        WritePhase::Settling => event is Paused && w.result is Some,
        WritePhase::Over => false,
    }
}

/// What a step comes to: the next action, the write, and the channel.
pub type WriteStep = (WriteActionView, WritingView, ChannelView);

/// A write that ends with `result`.
pub open spec fn write_finished(
    w: WritingView,
    c: ChannelView,
    result: Result<(), WriteErrorView>,
) -> WriteStep {
    (WriteActionView::Finish(result), WritingView { phase: WritePhase::Over, ..w }, c)
}

/// What a write starts with: nothing on a lost channel; input is armed before
/// the output goes out.
pub open spec fn write_started(
    c: ChannelView,
    len: usize,
    timeout: Duration,
    interruptible: bool,
) -> (WriteActionView, WritingView) {
    let w = WritingView {
        len,
        timeout,
        interruptible,
        phase: WritePhase::Over,
        deadline: 0,
        remaining: 0,
        result: None,
    };
    match c.lost {
        Some(reason) => (WriteActionView::Finish(Err(WriteErrorView::Lost(reason))), w),
        None => if c.armed {
            (WriteActionView::Submit, WritingView { phase: WritePhase::Submitting, ..w })
        } else {
            (WriteActionView::ArmRead, WritingView { phase: WritePhase::Arming, ..w })
        },
    }
}

/// What follows an attempt to arm input.
pub open spec fn write_armed(w: WritingView, c: ChannelView, end: CallEnd) -> WriteStep {
    if end.submitted() {
        (
            WriteActionView::Submit,
            WritingView { phase: WritePhase::Submitting, ..w },
            ChannelView { armed: true, ..c },
        )
    } else {
        let (verdict, after) = read_failure_of(c, end.code, end.reason@);
        match verdict {
            Ok(pause) => (WriteActionView::Pause(pause), w, after),
            Err(why) => write_finished(w, after, Err(WriteErrorView::Lost(why))),
        }
    }
}

/// What follows the submission of the output transfer.
pub open spec fn write_submitted(
    w: WritingView,
    c: ChannelView,
    end: CallEnd,
    now: Instant,
) -> WriteStep {
    if end.submitted() {
        let deadline = time::point_after(now as int, w.timeout as int) as u128;
        let remaining = time::span_since(deadline as int, now as int) as u128;
        (
            WriteActionView::Await(time::shorter_of(remaining as int, WAIT_SLICE as int)),
            WritingView { phase: WritePhase::InFlight, deadline, remaining, ..w },
            c,
        )
    } else {
        let (error, after) = write_failure_of(c, end.code, end.reason@, 0);
        write_finished(w, after, Err(error))
    }
}

/// What follows a wait for the output transfer.
pub open spec fn write_waited(w: WritingView, c: ChannelView, status: u32, now: Instant) -> WriteStep {
    if status == WAIT_OBJECT_0 {
        (WriteActionView::Reap, WritingView { phase: WritePhase::Ended, ..w }, c)
    } else if status != WAIT_TIMEOUT || w.remaining == 0 {
        (WriteActionView::Cancel, WritingView { phase: WritePhase::Cancelling, ..w }, c)
    } else {
        let remaining = time::span_since(w.deadline as int, now as int) as u128;
        (
            WriteActionView::Await(time::shorter_of(remaining as int, WAIT_SLICE as int)),
            WritingView { remaining, ..w },
            c,
        )
    }
}

/// What follows the cancellation of the output transfer.
pub open spec fn write_cancelled(w: WritingView, c: ChannelView, end: CallEnd) -> WriteStep {
    if end.cancelled() {
        (
            WriteActionView::Await(CANCEL_DRAIN_TIMEOUT as int),
            WritingView { phase: WritePhase::Landing, ..w },
            c,
        )
    } else {
        (
            WriteActionView::Leak,
            WritingView { phase: WritePhase::Lost, ..w },
            c.latched("could not cancel the "@ + "output"@ + " transfer: "@ + end.reason@),
        )
    }
}

/// What follows the wait for a cancelled output transfer.
pub open spec fn write_landed(w: WritingView, c: ChannelView, status: u32) -> WriteStep {
    if status == WAIT_OBJECT_0 {
        (WriteActionView::Reap, WritingView { phase: WritePhase::Landed, ..w }, c)
    } else {
        (
            WriteActionView::Leak,
            WritingView { phase: WritePhase::Lost, ..w },
            c.latched("output"@ + " cancellation did not complete"@),
        )
    }
}

/// What follows the end of the output transfer.
pub open spec fn write_reaped(w: WritingView, c: ChannelView, completion: Completion) -> WriteStep {
    let (result, after) = write_end_of(c, w.phase is Ended, completion, w.len);
    (
        WriteActionView::PollRead,
        WritingView { phase: WritePhase::Polling, result: Some(result), ..w },
        after,
    )
}

/// What follows the end of the armed read.
pub open spec fn write_read_reaped(
    w: WritingView,
    c: ChannelView,
    completion: Completion,
    buffer: Seq<u8>,
) -> WriteStep {
    let arrived = ChannelView { armed: false, ..reaped(c, completion, buffer) };
    let (verdict, after) = applied(arrived, completion);
    match verdict {
        Ok((_, pause)) => if pause > 0 {
            (
                WriteActionView::Pause(pause),
                WritingView { phase: WritePhase::Settling, ..w },
                after,
            )
        } else {
            write_finished(w, after, w.result->Some_0)
        },
        Err(_) => write_finished(w, after, w.result->Some_0),
    }
}

/// What follows an event.
pub open spec fn write_next(w: WritingView, c: ChannelView, event: WriteEvent) -> WriteStep {
    match event {
        WriteEvent::Unprepared(reason) => write_finished(
            w,
            c,
            Err(WriteErrorView::Failed { written: 0, reason: reason@ }),
        ),
        WriteEvent::Armed(end) => write_armed(w, c, end),
        WriteEvent::Paused => if w.phase is Arming {
            (WriteActionView::ArmRead, w, c)
        } else {
            write_finished(w, c, w.result->Some_0)
        },
        WriteEvent::Submitted(end, now) => write_submitted(w, c, end, now),
        WriteEvent::Waited(status, now) => match w.phase {
            WritePhase::InFlight => write_waited(w, c, status, now),
            WritePhase::Landing => write_landed(w, c, status),
            _ => if status == WAIT_OBJECT_0 {
                (WriteActionView::ReapRead, WritingView { phase: WritePhase::ReapingRead, ..w }, c)
            } else {
                write_finished(w, c, w.result->Some_0)
            },
        },
        WriteEvent::Cancelled(end) => write_cancelled(w, c, end),
        WriteEvent::Reaped(completion) => write_reaped(w, c, completion),
        WriteEvent::Leaked => write_finished(w, c, Err(WriteErrorView::Unknown)),
        WriteEvent::ReadReaped(completion, buffer) => write_read_reaped(w, c, completion, buffer@),
    }
}

impl Writing {
    /// Starts a write of `len` bytes that may take `timeout`.
    pub fn start(channel: &Channel, len: usize, timeout: Duration, interruptible: bool) -> (started:
        (WriteAction, Self))
        ensures
            (started.0@, started.1@) == write_started(channel@, len, timeout, interruptible),
    {
        let writing = Writing {
            len,
            timeout,
            interruptible,
            phase: WritePhase::Over,
            deadline: 0,
            remaining: 0,
            result: None,
        };
        match channel.check_lost_for_write() {
            Err(error) => (WriteAction::Finish(Err(error)), writing),
            Ok(_) => {
                if channel.armed {
                    (
                        WriteAction::Submit,
                        Writing { phase: WritePhase::Submitting, ..writing },
                    )
                } else {
                    (WriteAction::ArmRead, Writing { phase: WritePhase::Arming, ..writing })
                }
            },
        }
    }

    /// Ends the write.
    fn finish(&mut self, result: Result<(), WriteError>) -> (action: WriteAction)
        ensures
            action@ == WriteActionView::Finish(write_result_view(result)),
            final(self)@ == (WritingView { phase: WritePhase::Over, ..old(self)@ }),
    {
        self.phase = WritePhase::Over;
        WriteAction::Finish(result)
    }

    /// Ends the write with what the output transfer came to.
    fn finish_settled(&mut self) -> (action: WriteAction)
        requires
            old(self)@.result is Some,
        ensures
            action@ == WriteActionView::Finish(old(self)@.result->Some_0),
            final(self)@ == (WritingView { phase: WritePhase::Over, ..old(self)@ }),
    {
        self.phase = WritePhase::Over;
        match &self.result {
            Some(Ok(_)) => WriteAction::Finish(Ok(())),
            Some(Err(error)) => WriteAction::Finish(Err(error.clone())),
            None => WriteAction::Finish(Ok(())),
        }
    }

    /// What follows an attempt to arm input.
    fn armed(&mut self, channel: &mut Channel, end: CallEnd) -> (action: WriteAction)
        ensures
            (action@, final(self)@, final(channel)@) == write_armed(old(self)@, old(channel)@, end),
    {
        if end.is_submitted() {
            channel.armed = true;
            self.phase = WritePhase::Submitting;
            return WriteAction::Submit;
        }
        match channel.read_failure(end.code, end.reason.as_str()) {
            Ok(pause) => WriteAction::Pause(pause),
            Err(error) => self.finish(Err(crate::overlapped::arm_failure_for_write(error))),
        }
    }

    /// What follows the submission of the output transfer.
    fn submitted(&mut self, channel: &mut Channel, end: CallEnd, now: Instant) -> (action:
        WriteAction)
        ensures
            (action@, final(self)@, final(channel)@) == write_submitted(
                old(self)@,
                old(channel)@,
                end,
                now,
            ),
    {
        if end.is_submitted() {
            self.deadline = time::after(now, self.timeout);
            self.remaining = time::saturating_since(self.deadline, now);
            self.phase = WritePhase::InFlight;
            return WriteAction::Await(next_slice(self.remaining));
        }
        let error = channel.write_failure(end.code, end.reason.as_str(), 0);
        self.finish(Err(error))
    }

    /// What follows a wait for the output transfer.
    fn waited(&mut self, status: u32, now: Instant) -> (action: WriteAction)
        ensures
            forall|c: ChannelView| (action@, final(self)@, c) == #[trigger] write_waited(
                old(self)@,
                c,
                status,
                now,
            ),
    {
        match slice_end(status, self.remaining) {
            SliceEnd::Signalled => {
                self.phase = WritePhase::Ended;
                WriteAction::Reap
            },
            SliceEnd::GiveUp => {
                self.phase = WritePhase::Cancelling;
                WriteAction::Cancel
            },
            SliceEnd::Again => {
                self.remaining = time::saturating_since(self.deadline, now);
                WriteAction::Await(next_slice(self.remaining))
            },
        }
    }

    /// What follows the cancellation of the output transfer.
    fn cancelled(&mut self, channel: &mut Channel, end: CallEnd) -> (action: WriteAction)
        ensures
            (action@, final(self)@, final(channel)@) == write_cancelled(
                old(self)@,
                old(channel)@,
                end,
            ),
    {
        if end.ok || !channel.cancel_failed(end.code, "output", end.reason.as_str()) {
            self.phase = WritePhase::Landing;
            WriteAction::Await(CANCEL_DRAIN_TIMEOUT)
        } else {
            self.phase = WritePhase::Lost;
            WriteAction::Leak
        }
    }

    /// What follows the wait for a cancelled output transfer.
    fn landed(&mut self, channel: &mut Channel, status: u32) -> (action: WriteAction)
        ensures
            (action@, final(self)@, final(channel)@) == write_landed(
                old(self)@,
                old(channel)@,
                status,
            ),
    {
        if status == WAIT_OBJECT_0 {
            self.phase = WritePhase::Landed;
            WriteAction::Reap
        } else {
            channel.abandon("output");
            self.phase = WritePhase::Lost;
            WriteAction::Leak
        }
    }

    /// What follows the end of the output transfer.
    fn reaped(&mut self, channel: &mut Channel, completion: Completion) -> (action: WriteAction)
        ensures
            (action@, final(self)@, final(channel)@) == write_reaped(
                old(self)@,
                old(channel)@,
                completion,
            ),
    {
        let in_time = match self.phase {
            WritePhase::Ended => true,
            _ => false,
        };
        self.result = Some(channel.finish_write(in_time, completion, self.len));
        self.phase = WritePhase::Polling;
        WriteAction::PollRead
    }

    /// What follows the end of the armed read.
    fn read_reaped(&mut self, channel: &mut Channel, completion: Completion, buffer: Vec<u8>) -> (
        action: WriteAction)
        requires
            old(self)@.result is Some,
        ensures
            (action@, final(self)@, final(channel)@) == write_read_reaped(
                old(self)@,
                old(channel)@,
                completion,
                buffer@,
            ),
    {
        channel.reap_read(&completion, buffer.as_slice());
        channel.armed = false;
        match channel.apply_read_completion(completion) {
            Ok((_, pause)) => {
                if pause > 0 {
                    self.phase = WritePhase::Settling;
                    WriteAction::Pause(pause)
                } else {
                    self.finish_settled()
                }
            },
            Err(_) => self.finish_settled(),
        }
    }

    /// What follows an event: how what the write did last has ended.
    pub fn next(&mut self, channel: &mut Channel, event: WriteEvent) -> (action: WriteAction)
        requires
            write_awaits(old(self)@, event),
        ensures
            (action@, final(self)@, final(channel)@) == write_next(
                old(self)@,
                old(channel)@,
                event,
            ),
    {
        match event {
            WriteEvent::Unprepared(reason) => self.finish(
                Err(WriteError::Failed { written: 0, reason }),
            ),
            WriteEvent::Armed(end) => self.armed(channel, end),
            WriteEvent::Paused => match self.phase {
                WritePhase::Arming => WriteAction::ArmRead,
                _ => self.finish_settled(),
            },
            WriteEvent::Submitted(end, now) => self.submitted(channel, end, now),
            WriteEvent::Waited(status, now) => match self.phase {
                WritePhase::InFlight => {
                    let ghost c = channel@;
                    let ghost w = self@;
                    let action = self.waited(status, now);
                    assert((action@, self@, c) == write_waited(w, c, status, now));
                    action
                },
                WritePhase::Landing => self.landed(channel, status),
                _ => match wait_end(status, self.interruptible) {
                    WaitEnd::Signalled => {
                        self.phase = WritePhase::ReapingRead;
                        WriteAction::ReapRead
                    },
                    _ => self.finish_settled(),
                },
            },
            WriteEvent::Cancelled(end) => self.cancelled(channel, end),
            WriteEvent::Reaped(completion) => self.reaped(channel, completion),
            WriteEvent::Leaked => self.finish(Err(WriteError::Unknown)),
            WriteEvent::ReadReaped(completion, buffer) => self.read_reaped(
                channel,
                completion,
                buffer,
            ),
        }
    }
}

// ---------------------------------------------------------------------------
// Reading.
// ---------------------------------------------------------------------------

/// What a read does next.
#[derive(Debug, PartialEq, Eq)]
pub enum ReadAction {
    /// Submit an input transfer.
    ArmRead,
    /// Pause for this long.
    Pause(Duration),
    /// Wait for the armed read, and for the interrupt if there is one, for this
    /// long.
    Await(Duration),
    /// Read the result of the armed read, which has ended, and release its
    /// buffer.
    Reap,
    /// The read is over.
    Finish(Result<Vec<u8>, ReadError>),
}

/// What a [`ReadAction`] says.
pub enum ReadActionView {
    ArmRead,
    Pause(int),
    Await(int),
    Reap,
    Finish(Result<Seq<u8>, ReadErrorView>),
}

/// What the end of a read says.
pub open spec fn read_result_view(result: Result<Vec<u8>, ReadError>) -> Result<
    Seq<u8>,
    ReadErrorView,
> {
    match result {
        Ok(bytes) => Ok(bytes@),
        Err(error) => Err(read_error_view(error)),
    }
}

impl View for ReadAction {
    type V = ReadActionView;

    open spec fn view(&self) -> ReadActionView {
        match *self {
            ReadAction::ArmRead => ReadActionView::ArmRead,
            ReadAction::Pause(span) => ReadActionView::Pause(span as int),
            ReadAction::Await(span) => ReadActionView::Await(span as int),
            ReadAction::Reap => ReadActionView::Reap,
            ReadAction::Finish(result) => ReadActionView::Finish(read_result_view(result)),
        }
    }
}

/// How what a read did last has ended.
#[derive(Debug, PartialEq, Eq)]
pub enum ReadEvent {
    /// A transfer could not be prepared, for this reason.
    Unprepared(String),
    /// An input transfer was submitted, or not, and it is now this time.
    Armed(CallEnd, Instant),
    /// A pause is over, and it is now this time.
    Paused(Instant),
    /// A wait ended with this status.
    Waited(u32),
    /// The armed read came to this, with this buffer, and it is now this time.
    Reaped(Completion, Vec<u8>, Instant),
}

/// How far a read has come.
#[derive(Debug, Clone, Copy, PartialEq, Eq, Structural)]
pub enum ReadPhase {
    /// Input is being armed.
    Arming,
    /// The armed read is waited for.
    Waiting,
    /// The armed read has ended.
    Reaping,
    /// The pause after an input error is made.
    Settling,
    /// The read is over.
    Over,
}

/// A read that is under way.
#[derive(Debug, Clone, Copy, PartialEq, Eq, Structural)]
pub struct Reading {
    /// Until when the read may take.
    pub deadline: Instant,
    /// Whether waits also end on an interrupt.
    pub interruptible: bool,
    pub phase: ReadPhase,
    /// How many bytes the last transfer brought.
    pub brought: usize,
}

/// Whether an event is one that a read waits for in this phase.
pub open spec fn read_awaits(r: Reading, event: ReadEvent) -> bool {
    match r.phase {
        ReadPhase::Arming => event is Armed || event is Paused || event is Unprepared,
        ReadPhase::Waiting => event is Waited,
        ReadPhase::Reaping => event is Reaped,
        ReadPhase::Settling => event is Paused,
        ReadPhase::Over => false,
    }
}

/// What a step comes to: the next action, the read, and the channel.
pub type ReadStep = (ReadActionView, Reading, ChannelView);

/// A read that ends with `result`.
pub open spec fn read_finished(
    r: Reading,
    c: ChannelView,
    result: Result<Seq<u8>, ReadErrorView>,
) -> ReadStep {
    (ReadActionView::Finish(result), Reading { phase: ReadPhase::Over, ..r }, c)
}

/// What a read starts with: nothing on a lost channel, and what is queued if
/// anything is.
pub open spec fn read_started(
    c: ChannelView,
    timeout: Duration,
    interruptible: bool,
    now: Instant,
) -> ReadStep {
    let deadline = time::point_after(now as int, timeout as int) as u128;
    let r = Reading { deadline, interruptible, phase: ReadPhase::Over, brought: 0 };
    match c.lost {
        Some(reason) => (ReadActionView::Finish(Err(ReadErrorView::Lost(reason))), r, c),
        None => if c.queue.len() > 0 {
            (
                ReadActionView::Finish(Ok(c.queue)),
                r,
                ChannelView { queue: Seq::empty(), ..c },
            )
        } else if c.armed {
            (
                ReadActionView::Await(time::span_since(deadline as int, now as int)),
                Reading { phase: ReadPhase::Waiting, ..r },
                c,
            )
        } else {
            (ReadActionView::ArmRead, Reading { phase: ReadPhase::Arming, ..r }, c)
        },
    }
}

/// What follows an attempt to arm input.
pub open spec fn read_armed(r: Reading, c: ChannelView, end: CallEnd, now: Instant) -> ReadStep {
    if end.submitted() {
        (
            ReadActionView::Await(time::span_since(r.deadline as int, now as int)),
            Reading { phase: ReadPhase::Waiting, ..r },
            ChannelView { armed: true, ..c },
        )
    } else {
        let (verdict, after) = read_failure_of(c, end.code, end.reason@);
        match verdict {
            Ok(pause) => (ReadActionView::Pause(pause), r, after),
            Err(why) => read_finished(r, after, Err(ReadErrorView::Lost(why))),
        }
    }
}

/// What follows a transfer that brought `brought` bytes: what is queued, or
/// nothing when the time is up, or another transfer.
pub open spec fn read_settled(r: Reading, c: ChannelView, brought: usize, now: Instant) -> ReadStep {
    if brought > 0 {
        read_finished(r, ChannelView { queue: Seq::empty(), ..c }, Ok(c.queue))
    } else if now >= r.deadline {
        read_finished(r, c, Ok(Seq::empty()))
    } else {
        (ReadActionView::ArmRead, Reading { phase: ReadPhase::Arming, ..r }, c)
    }
}

/// What follows the end of the armed read.
pub open spec fn read_reaped(
    r: Reading,
    c: ChannelView,
    completion: Completion,
    buffer: Seq<u8>,
    now: Instant,
) -> ReadStep {
    let arrived = ChannelView { armed: false, ..reaped(c, completion, buffer) };
    let (verdict, after) = applied(arrived, completion);
    match verdict {
        Ok((brought, pause)) => {
            let r = Reading { brought, ..r };
            if pause > 0 {
                (ReadActionView::Pause(pause), Reading { phase: ReadPhase::Settling, ..r }, after)
            } else {
                read_settled(r, after, brought, now)
            }
        },
        Err(why) => read_finished(r, after, Err(ReadErrorView::Lost(why))),
    }
}

/// What follows an event.
pub open spec fn read_next(r: Reading, c: ChannelView, event: ReadEvent) -> ReadStep {
    match event {
        ReadEvent::Unprepared(reason) => read_finished(r, c, Err(ReadErrorView::Failed(reason@))),
        ReadEvent::Armed(end, now) => read_armed(r, c, end, now),
        ReadEvent::Paused(now) => if r.phase is Arming {
            (ReadActionView::ArmRead, r, c)
        } else {
            read_settled(r, c, r.brought, now)
        },
        ReadEvent::Waited(status) => if r.interruptible && status == 1 {
            read_finished(r, c, Err(ReadErrorView::Interrupted))
        } else if status == WAIT_OBJECT_0 {
            (ReadActionView::Reap, Reading { phase: ReadPhase::Reaping, ..r }, c)
        } else {
            read_finished(r, c, Ok(Seq::empty()))
        },
        ReadEvent::Reaped(completion, buffer, now) => read_reaped(r, c, completion, buffer@, now),
    }
}

impl Reading {
    /// Starts a read that may take `timeout`.
    pub fn start(channel: &mut Channel, timeout: Duration, interruptible: bool, now: Instant) -> (
        started: (ReadAction, Self))
        ensures
            (started.0@, started.1, final(channel)@) == read_started(
                old(channel)@,
                timeout,
                interruptible,
                now,
            ),
    {
        let deadline: Instant = time::after(now, timeout);
        let reading = Reading { deadline, interruptible, phase: ReadPhase::Over, brought: 0 };
        match channel.check_lost_for_read() {
            Err(error) => (ReadAction::Finish(Err(error)), reading),
            Ok(_) => {
                if channel.queue.len() > 0 {
                    (ReadAction::Finish(Ok(channel.take_queue())), reading)
                } else if channel.armed {
                    (
                        ReadAction::Await(time::saturating_since(deadline, now)),
                        Reading { phase: ReadPhase::Waiting, ..reading },
                    )
                } else {
                    (ReadAction::ArmRead, Reading { phase: ReadPhase::Arming, ..reading })
                }
            },
        }
    }

    /// Ends the read.
    fn finish(&mut self, result: Result<Vec<u8>, ReadError>) -> (action: ReadAction)
        ensures
            action@ == ReadActionView::Finish(read_result_view(result)),
            *final(self) == (Reading { phase: ReadPhase::Over, ..*old(self) }),
    {
        self.phase = ReadPhase::Over;
        ReadAction::Finish(result)
    }

    /// What follows an attempt to arm input.
    fn armed(&mut self, channel: &mut Channel, end: CallEnd, now: Instant) -> (action: ReadAction)
        ensures
            (action@, *final(self), final(channel)@) == read_armed(
                *old(self),
                old(channel)@,
                end,
                now,
            ),
    {
        if end.is_submitted() {
            channel.armed = true;
            self.phase = ReadPhase::Waiting;
            return ReadAction::Await(time::saturating_since(self.deadline, now));
        }
        match channel.read_failure(end.code, end.reason.as_str()) {
            Ok(pause) => ReadAction::Pause(pause),
            Err(error) => self.finish(Err(error)),
        }
    }

    /// What follows a transfer that brought `brought` bytes.
    fn settled(&mut self, channel: &mut Channel, brought: usize, now: Instant) -> (action:
        ReadAction)
        ensures
            (action@, *final(self), final(channel)@) == read_settled(
                *old(self),
                old(channel)@,
                brought,
                now,
            ),
    {
        match channel.read_end(brought, now >= self.deadline) {
            Some(bytes) => {
                if brought == 0 {
                    assert(bytes@ == Seq::<u8>::empty());
                }
                self.finish(Ok(bytes))
            },
            None => {
                self.phase = ReadPhase::Arming;
                ReadAction::ArmRead
            },
        }
    }

    /// What follows the end of the armed read.
    fn reaped(
        &mut self,
        channel: &mut Channel,
        completion: Completion,
        buffer: Vec<u8>,
        now: Instant,
    ) -> (action: ReadAction)
        ensures
            (action@, *final(self), final(channel)@) == read_reaped(
                *old(self),
                old(channel)@,
                completion,
                buffer@,
                now,
            ),
    {
        channel.reap_read(&completion, buffer.as_slice());
        channel.armed = false;
        match channel.apply_read_completion(completion) {
            Ok((brought, pause)) => {
                self.brought = brought;
                if pause > 0 {
                    self.phase = ReadPhase::Settling;
                    ReadAction::Pause(pause)
                } else {
                    self.settled(channel, brought, now)
                }
            },
            Err(error) => self.finish(Err(error)),
        }
    }

    /// What follows an event: how what the read did last has ended.
    pub fn next(&mut self, channel: &mut Channel, event: ReadEvent) -> (action: ReadAction)
        requires
            read_awaits(*old(self), event),
        ensures
            (action@, *final(self), final(channel)@) == read_next(*old(self), old(channel)@, event),
    {
        match event {
            ReadEvent::Unprepared(reason) => self.finish(Err(ReadError::Failed(reason))),
            ReadEvent::Armed(end, now) => self.armed(channel, end, now),
            ReadEvent::Paused(now) => match self.phase {
                ReadPhase::Arming => ReadAction::ArmRead,
                _ => {
                    let brought: usize = self.brought;
                    self.settled(channel, brought, now)
                },
            },
            ReadEvent::Waited(status) => match wait_end(status, self.interruptible) {
                WaitEnd::Interrupted => self.finish(Err(ReadError::Interrupted)),
                WaitEnd::Signalled => {
                    self.phase = ReadPhase::Reaping;
                    ReadAction::Reap
                },
                WaitEnd::Timeout => {
                    let nothing: Vec<u8> = Vec::new();
                    assert(nothing@ == Seq::<u8>::empty());
                    self.finish(Ok(nothing))
                },
            },
            ReadEvent::Reaped(completion, buffer, now) => self.reaped(
                channel,
                completion,
                buffer,
                now,
            ),
        }
    }
}

// ---------------------------------------------------------------------------
// Taking down an armed read.
// ---------------------------------------------------------------------------

/// What taking down an armed read does next.
#[derive(Debug, PartialEq, Eq)]
pub enum DisarmAction {
    /// Wait for the armed read for this long.
    Await(Duration),
    /// Cancel the armed read.
    Cancel,
    /// Read the result of the armed read, which has ended, and release its
    /// buffer.
    Reap,
    /// Give up the armed read's buffer without releasing it.
    Leak,
    /// It is over.
    Finish(Disarm),
}

/// How what was done last has ended.
#[derive(Debug, PartialEq, Eq)]
pub enum DisarmEvent {
    /// A wait ended with this status.
    Waited(u32),
    /// The armed read was cancelled, or not.
    Cancelled(CallEnd),
    /// The armed read came to this, with this buffer, so long after the start.
    Reaped(Completion, Vec<u8>, Duration),
    /// The buffer was given up.
    Leaked,
}

/// How far taking down an armed read has come.
#[derive(Debug, Clone, Copy, PartialEq, Eq, Structural)]
pub enum Disarming {
    /// Whether the read has ended by itself is being looked at.
    Looking,
    /// The read is being cancelled.
    Cancelling,
    /// The read was cancelled and has not ended yet.
    Landing,
    /// The read has ended by itself.
    Ended,
    /// The read has ended after it was cancelled.
    Landed,
    /// The read has not ended and is given up.
    Lost,
    /// It is over.
    Over,
}

/// Whether an event is one that is waited for.
pub open spec fn disarm_awaits(d: Disarming, event: DisarmEvent) -> bool {
    match d {
        Disarming::Looking => event is Waited,
        Disarming::Cancelling => event is Cancelled,
        Disarming::Landing => event is Waited,
        Disarming::Ended => event is Reaped,
        Disarming::Landed => event is Reaped,
        Disarming::Lost => event is Leaked,
        Disarming::Over => false,
    }
}

/// What follows an event: the next action, how far it has come, and the
/// channel.
pub open spec fn disarm_next(d: Disarming, c: ChannelView, event: DisarmEvent) -> (
    DisarmAction,
    Disarming,
    ChannelView,
) {
    match event {
        DisarmEvent::Waited(status) => if d is Looking {
            if status == WAIT_OBJECT_0 {
                (DisarmAction::Reap, Disarming::Ended, c)
            } else {
                (DisarmAction::Cancel, Disarming::Cancelling, c)
            }
        } else if status == WAIT_OBJECT_0 {
            (DisarmAction::Reap, Disarming::Landed, c)
        } else {
            (
                DisarmAction::Leak,
                Disarming::Lost,
                c.latched("input"@ + " cancellation did not complete"@),
            )
        },
        DisarmEvent::Cancelled(end) => if end.cancelled() {
            (DisarmAction::Await(CANCEL_DRAIN_TIMEOUT), Disarming::Landing, c)
        } else {
            (
                DisarmAction::Leak,
                Disarming::Lost,
                c.latched("could not cancel the "@ + "input"@ + " transfer: "@ + end.reason@),
            )
        },
        DisarmEvent::Reaped(completion, buffer, taken) => (
            DisarmAction::Finish(
                if d is Ended {
                    Disarm::Completed(completion.moved())
                } else {
                    Disarm::Cancelled(taken)
                },
            ),
            Disarming::Over,
            ChannelView { queue: c.queue + filled(buffer@, completion.moved()), ..c },
        ),
        DisarmEvent::Leaked => (
            DisarmAction::Finish(Disarm::Abandoned),
            Disarming::Over,
            c,
        ),
    }
}

impl Disarming {
    /// Starts to take down the armed read, if one is armed.
    pub fn start(channel: &mut Channel) -> (started: (DisarmAction, Self))
        ensures
            final(channel)@ == (ChannelView { armed: false, ..old(channel)@ }),
            started == if old(channel)@.armed {
                (DisarmAction::Await(0), Disarming::Looking)
            } else {
                (DisarmAction::Finish(Disarm::NotArmed), Disarming::Over)
            },
    {
        if !channel.armed {
            return (DisarmAction::Finish(Disarm::NotArmed), Disarming::Over);
        }
        channel.armed = false;
        (DisarmAction::Await(0), Disarming::Looking)
    }

    /// What follows an event: how what was done last has ended.
    pub fn next(&mut self, channel: &mut Channel, event: DisarmEvent) -> (action: DisarmAction)
        requires
            disarm_awaits(*old(self), event),
        ensures
            (action, *final(self), final(channel)@) == disarm_next(
                *old(self),
                old(channel)@,
                event,
            ),
    {
        match event {
            DisarmEvent::Waited(status) => match *self {
                Disarming::Looking => {
                    if status == WAIT_OBJECT_0 {
                        *self = Disarming::Ended;
                        DisarmAction::Reap
                    } else {
                        *self = Disarming::Cancelling;
                        DisarmAction::Cancel
                    }
                },
                _ => {
                    if status == WAIT_OBJECT_0 {
                        *self = Disarming::Landed;
                        DisarmAction::Reap
                    } else {
                        channel.abandon("input");
                        *self = Disarming::Lost;
                        DisarmAction::Leak
                    }
                },
            },
            DisarmEvent::Cancelled(end) => {
                if end.ok || !channel.cancel_failed(end.code, "input", end.reason.as_str()) {
                    *self = Disarming::Landing;
                    DisarmAction::Await(CANCEL_DRAIN_TIMEOUT)
                } else {
                    *self = Disarming::Lost;
                    DisarmAction::Leak
                }
            },
            DisarmEvent::Reaped(completion, buffer, taken) => {
                let already_done = match *self {
                    Disarming::Ended => true,
                    _ => false,
                };
                let count: usize = completion.transferred();
                channel.queue_bytes(buffer.as_slice(), count);
                *self = Disarming::Over;
                DisarmAction::Finish(disarmed(already_done, count, taken))
            },
            DisarmEvent::Leaked => {
                *self = Disarming::Over;
                DisarmAction::Finish(Disarm::Abandoned)
            },
        }
    }
}

// ---------------------------------------------------------------------------
// Laws.
// ---------------------------------------------------------------------------

/// Whether the output transfer is under way, from its submission to the end or
/// to giving it up.
pub open spec fn output_pending(phase: WritePhase) -> bool {
    phase is InFlight || phase is Cancelling || phase is Landing || phase is Ended
        || phase is Landed || phase is Lost
}

/// Whether input is armed wherever a write has come past arming it.
pub open spec fn input_is_armed(w: WritingView, c: ChannelView) -> bool {
    w.phase is Submitting || output_pending(w.phase) || w.phase is Polling
        || w.phase is ReapingRead ==> c.armed
}

/// Input is armed before every output transfer, and stays armed while the
/// output is in flight: a write starts that way and every step keeps it so.
pub proof fn input_is_armed_before_every_output(
    w: WritingView,
    c: ChannelView,
    len: usize,
    timeout: Duration,
    interruptible: bool,
    event: WriteEvent,
)
    ensures
        input_is_armed(write_started(c, len, timeout, interruptible).1, c),
        write_started(c, len, timeout, interruptible).0 is Submit ==> c.armed,
        input_is_armed(w, c) && write_awaits(w, event) ==> {
            let (action, next, after) = write_next(w, c, event);
            &&& input_is_armed(next, after)
            &&& action is Submit ==> after.armed
        },
{
}

/// Input is never armed while an output is pending, and an output is submitted
/// at most once.
pub proof fn input_is_never_armed_while_output_is_pending(
    w: WritingView,
    c: ChannelView,
    event: WriteEvent,
)
    requires
        write_awaits(w, event),
        output_pending(w.phase) || w.phase is Polling || w.phase is ReapingRead
            || w.phase is Settling,
    ensures
        !(write_next(w, c, event).0 is ArmRead),
        !(write_next(w, c, event).0 is Submit),
        output_pending(w.phase) ==> write_next(w, c, event).2.armed == c.armed,
        !(write_next(w, c, event).1.phase is Arming),
        !(write_next(w, c, event).1.phase is Submitting),
{
}

/// A buffer is released only after its transfer has ended: the result of a
/// transfer is read only where a wait has just said so.
pub proof fn buffers_are_released_only_after_the_transfer(
    w: WritingView,
    r: Reading,
    d: Disarming,
    c: ChannelView,
    write: WriteEvent,
    read: ReadEvent,
    disarm: DisarmEvent,
)
    ensures
        write_awaits(w, write) && (write_next(w, c, write).0 is Reap || write_next(
            w,
            c,
            write,
        ).0 is ReapRead) ==> (write matches WriteEvent::Waited(status, _) && status
            == WAIT_OBJECT_0),
        read_awaits(r, read) && read_next(r, c, read).0 is Reap ==> read == ReadEvent::Waited(
            WAIT_OBJECT_0,
        ),
        disarm_awaits(d, disarm) && disarm_next(d, c, disarm).0 is Reap ==> disarm
            == DisarmEvent::Waited(WAIT_OBJECT_0),
{
}

/// A buffer that is given up marks the transport as lost: the kernel may still
/// write into it.
pub proof fn leaked_buffers_lose_the_transport(
    w: WritingView,
    d: Disarming,
    c: ChannelView,
    write: WriteEvent,
    disarm: DisarmEvent,
)
    ensures
        write_next(w, c, write).0 is Leak ==> write_next(w, c, write).2.lost is Some,
        disarm_next(d, c, disarm).0 is Leak ==> disarm_next(d, c, disarm).2.lost is Some,
{
}

/// A timed-out output is cancelled and the cancellation is waited for: the
/// write ends with [`WriteErrorView::TimedOut`] only if the cancelled transfer
/// has ended with nothing transferred.
pub proof fn timed_out_writes_were_cancelled(w: WritingView, c: ChannelView, completion: Completion)
    requires
        w.phase is Ended || w.phase is Landed,
    ensures
        write_reaped(w, c, completion).1.result == Some(
            Err::<(), WriteErrorView>(WriteErrorView::TimedOut),
        ) <==> w.phase is Landed && completion == Completion::Aborted(0),
{
}

/// What a write does in answer to `events`, from its start on, how far it comes,
/// and the channel then.
pub open spec fn write_run(
    c: ChannelView,
    len: usize,
    timeout: Duration,
    interruptible: bool,
    events: Seq<WriteEvent>,
) -> (Seq<WriteActionView>, WritingView, ChannelView)
    decreases events.len(),
{
    if events.len() == 0 {
        let (action, w) = write_started(c, len, timeout, interruptible);
        (seq![action], w, c)
    } else {
        let (actions, w, now) = write_run(c, len, timeout, interruptible, events.drop_last());
        let (action, next, after) = write_next(w, now, events.last());
        (actions.push(action), next, after)
    }
}

/// Whether every event is one that the write waits for when it comes.
pub open spec fn write_accepts(
    c: ChannelView,
    len: usize,
    timeout: Duration,
    interruptible: bool,
    events: Seq<WriteEvent>,
) -> bool
    decreases events.len(),
{
    events.len() == 0 || {
        let earlier = events.drop_last();
        write_accepts(c, len, timeout, interruptible, earlier) && write_awaits(
            write_run(c, len, timeout, interruptible, earlier).1,
            events.last(),
        )
    }
}

/// What the output transfer came to, once its result was read.
pub open spec fn output_end(events: Seq<WriteEvent>) -> Option<Completion>
    decreases events.len(),
{
    if events.len() == 0 {
        None
    } else {
        match events.last() {
            WriteEvent::Reaped(completion) => Some(completion),
            _ => output_end(events.drop_last()),
        }
    }
}

/// Whether the output transfer was cancelled.
pub open spec fn output_cancelled(events: Seq<WriteEvent>) -> bool
    decreases events.len(),
{
    events.len() > 0 && ((events.last() matches WriteEvent::Cancelled(end) && end.cancelled())
        || output_cancelled(events.drop_last()))
}

/// Whether `result` is how a write of `len` bytes ends whose output transfer
/// came to `end`, with the channel lost or not.
pub open spec fn write_told(
    result: Result<(), WriteErrorView>,
    end: Option<Completion>,
    cancelled: bool,
    len: usize,
    lost: bool,
) -> bool {
    match result {
        Ok(_) => end == Some(Completion::Done(len)),
        Err(WriteErrorView::Partial { written }) => match end {
            Some(Completion::Done(n)) => n == written && n != len,
            Some(Completion::Aborted(n)) => n == written && cancelled && n > 0,
            _ => false,
        },
        Err(WriteErrorView::TimedOut) => end == Some(Completion::Aborted(0)) && cancelled,
        Err(WriteErrorView::Unknown) => end is None && lost,
        Err(WriteErrorView::Lost(_)) => lost && (end is None || end->Some_0 is Error),
        Err(WriteErrorView::Failed { written, .. }) => match end {
            Some(Completion::Done(_)) => false,
            Some(completion) => written == completion.moved(),
            None => written == 0,
        },
    }
}

/// A write ends as its output transfer did, whatever happened between: it is
/// well exactly if the transfer came to its whole length; a partial one states
/// what the transfer came to; one that timed out was cancelled with nothing
/// transferred; and where it is unknown what was sent, no result was read and
/// the transport is lost.
pub proof fn writes_end_as_the_transfer_did(
    c: ChannelView,
    len: usize,
    timeout: Duration,
    interruptible: bool,
    events: Seq<WriteEvent>,
)
    requires
        write_accepts(c, len, timeout, interruptible, events),
    ensures
        ({
            let (actions, w, after) = write_run(c, len, timeout, interruptible, events);
            let end = output_end(events);
            &&& actions.len() == events.len() + 1
            &&& w.phase is Over <==> actions.last() is Finish
            &&& actions.last() matches WriteActionView::Finish(result) ==> {
                &&& write_told(result, end, output_cancelled(events), len, after.lost is Some)
                &&& end == Some(Completion::Done(len)) ==> result is Ok
            }
        }),
{
    reveal(write_so_far);
    lemma_write_so_far(c, len, timeout, interruptible, events);
}

/// What holds of a write on its way.
#[verifier::opaque]
spec fn write_so_far(
    action: WriteActionView,
    w: WritingView,
    c: ChannelView,
    len: usize,
    end: Option<Completion>,
    cancelled: bool,
) -> bool {
    let lost = c.lost is Some;
    &&& w.len == len
    &&& w.phase is Over <==> action is Finish
    &&& match w.phase {
        WritePhase::Landing => end is None && cancelled,
        WritePhase::Landed => end is None && cancelled,
        WritePhase::Lost => end is None && lost,
        WritePhase::Polling | WritePhase::ReapingRead | WritePhase::Settling => w.result is Some
            && write_told(w.result->Some_0, end, cancelled, len, lost) && (end == Some(
            Completion::Done(len),
        ) ==> w.result->Some_0 is Ok),
        WritePhase::Over => action matches WriteActionView::Finish(result) ==> write_told(
            result,
            end,
            cancelled,
            len,
            lost,
        ) && (end == Some(Completion::Done(len)) ==> result is Ok),
        _ => end is None,
    }
}

proof fn lemma_write_step(
    action: WriteActionView,
    w: WritingView,
    c: ChannelView,
    len: usize,
    end: Option<Completion>,
    cancelled: bool,
    event: WriteEvent,
)
    requires
        write_so_far(action, w, c, len, end, cancelled),
        write_awaits(w, event),
    ensures
        ({
            let (next_action, next, after) = write_next(w, c, event);
            write_so_far(
                next_action,
                next,
                after,
                len,
                if let WriteEvent::Reaped(completion) = event {
                    Some(completion)
                } else {
                    end
                },
                cancelled || (event matches WriteEvent::Cancelled(stop) && stop.cancelled()),
            )
        }),
{
    reveal(write_so_far);
    match event {
        WriteEvent::Unprepared(_) => {},
        WriteEvent::Armed(_) => {},
        WriteEvent::Paused => {},
        WriteEvent::Submitted(_, _) => {},
        WriteEvent::Waited(_, _) => match w.phase {
            WritePhase::InFlight => {},
            WritePhase::Landing => {},
            _ => {},
        },
        WriteEvent::Cancelled(_) => {},
        WriteEvent::Reaped(completion) => {
            assert(end is None);
            assert(w.phase is Landed ==> cancelled);
        },
        WriteEvent::Leaked => {},
        WriteEvent::ReadReaped(completion, buffer) => {
            let arrived = ChannelView { armed: false, ..reaped(c, completion, buffer@) };
            assert(c.lost is Some ==> applied(arrived, completion).1.lost is Some);
        },
    }
}

proof fn lemma_write_so_far(
    c: ChannelView,
    len: usize,
    timeout: Duration,
    interruptible: bool,
    events: Seq<WriteEvent>,
)
    requires
        write_accepts(c, len, timeout, interruptible, events),
    ensures
        ({
            let (actions, w, after) = write_run(c, len, timeout, interruptible, events);
            &&& actions.len() == events.len() + 1
            &&& write_so_far(
                actions.last(),
                w,
                after,
                len,
                output_end(events),
                output_cancelled(events),
            )
        }),
    decreases events.len(),
{
    if events.len() == 0 {
        reveal(write_so_far);
    } else {
        let earlier = events.drop_last();
        lemma_write_so_far(c, len, timeout, interruptible, earlier);
        let (actions, w, now) = write_run(c, len, timeout, interruptible, earlier);
        lemma_write_step(
            actions.last(),
            w,
            now,
            len,
            output_end(earlier),
            output_cancelled(earlier),
            events.last(),
        );
    }
}

/// No received byte is lost or handed out twice: what a step of a read hands
/// out and what it leaves queued is what was queued before, followed by what
/// the step brought in.
pub proof fn received_bytes_are_handed_out_once(r: Reading, c: ChannelView, event: ReadEvent)
    requires
        read_awaits(r, event),
    ensures
        ({
            let (action, _, after) = read_next(r, c, event);
            let handed = match action {
                ReadActionView::Finish(Ok(bytes)) => bytes,
                _ => Seq::<u8>::empty(),
            };
            let arrived = match event {
                ReadEvent::Reaped(completion, buffer, _) => if completion is Error {
                    Seq::<u8>::empty()
                } else {
                    filled(buffer@, completion.moved())
                },
                _ => Seq::<u8>::empty(),
            };
            handed + after.queue == c.queue + arrived
        }),
{
    let (action, _, after) = read_next(r, c, event);
    match event {
        ReadEvent::Reaped(completion, buffer, _) => {
            let all = reaped(c, completion, buffer@).queue;
            assert(c.queue + Seq::<u8>::empty() == c.queue);
            assert(Seq::<u8>::empty() + all == all);
            assert(all + Seq::<u8>::empty() == all);
        },
        _ => {
            assert(c.queue + Seq::<u8>::empty() == c.queue);
            assert(Seq::<u8>::empty() + c.queue == c.queue);
        },
    }
}

} // verus!
