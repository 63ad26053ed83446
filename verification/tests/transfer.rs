//! The order of the calls on the handle, on a scripted device.

use std::collections::VecDeque;

use ezrama::overlapped::transfer::{
    CallEnd, DisarmAction, DisarmEvent, Disarming, ReadAction, ReadEvent, Reading, WriteAction,
    WriteEvent, Writing,
};
use ezrama::overlapped::{Channel, Completion, Disarm, CANCEL_DRAIN_TIMEOUT};
use ezrama::time::{from_millis, Duration, Instant};
use ezrama::transport::{ReadError, WriteError};
use ezrama::win::{WAIT_OBJECT_0, WAIT_TIMEOUT};

fn ok() -> CallEnd {
    CallEnd { ok: true, code: 0, reason: String::new() }
}

fn failed(code: u32) -> CallEnd {
    CallEnd { ok: false, code, reason: format!("error {code}") }
}

/// A device whose calls end as scripted; each name is recorded as it is made.
struct Handle {
    now: Instant,
    calls: Vec<&'static str>,
    pauses: Vec<Duration>,
    arms: VecDeque<CallEnd>,
    submits: VecDeque<CallEnd>,
    waits: VecDeque<u32>,
    cancels: VecDeque<CallEnd>,
    writes: VecDeque<Completion>,
    reads: VecDeque<(Completion, Vec<u8>)>,
}

impl Handle {
    fn new() -> Self {
        Self {
            now: 0,
            calls: Vec::new(),
            pauses: Vec::new(),
            arms: VecDeque::new(),
            submits: VecDeque::new(),
            waits: VecDeque::new(),
            cancels: VecDeque::new(),
            writes: VecDeque::new(),
            reads: VecDeque::new(),
        }
    }

    fn arm(&mut self) -> CallEnd {
        self.calls.push("arm");
        self.arms.pop_front().unwrap_or_else(ok)
    }

    /// A wait: one that times out takes its whole time.
    fn wait(&mut self, span: Duration) -> u32 {
        self.calls.push("wait");
        let status = self.waits.pop_front().unwrap_or(WAIT_TIMEOUT);
        if status == WAIT_TIMEOUT {
            self.now += span;
        }
        status
    }

    fn pause(&mut self, span: Duration) {
        self.pauses.push(span);
        self.now += span;
    }

    fn cancel(&mut self) -> CallEnd {
        self.calls.push("cancel");
        self.cancels.pop_front().unwrap_or_else(ok)
    }

    fn reap_read(&mut self) -> (Completion, Vec<u8>) {
        self.calls.push("reap read");
        self.reads.pop_front().unwrap()
    }

    fn write(&mut self, channel: &mut Channel, len: usize, timeout: Duration) -> Result<(), WriteError> {
        let (mut action, mut writing) = Writing::start(channel, len, timeout, true);
        loop {
            let event = match action {
                WriteAction::ArmRead => WriteEvent::Armed(self.arm()),
                WriteAction::Pause(span) => {
                    self.pause(span);
                    WriteEvent::Paused
                }
                WriteAction::Submit => {
                    self.calls.push("submit");
                    WriteEvent::Submitted(self.submits.pop_front().unwrap_or_else(ok), self.now)
                }
                WriteAction::Await(span) => {
                    let status = self.wait(span);
                    WriteEvent::Waited(status, self.now)
                }
                WriteAction::Cancel => WriteEvent::Cancelled(self.cancel()),
                WriteAction::Reap => {
                    self.calls.push("reap");
                    WriteEvent::Reaped(self.writes.pop_front().unwrap())
                }
                WriteAction::Leak => {
                    self.calls.push("leak");
                    WriteEvent::Leaked
                }
                WriteAction::PollRead => {
                    self.calls.push("poll");
                    WriteEvent::Waited(self.waits.pop_front().unwrap_or(WAIT_TIMEOUT), self.now)
                }
                WriteAction::ReapRead => {
                    let (completion, buffer) = self.reap_read();
                    WriteEvent::ReadReaped(completion, buffer)
                }
                WriteAction::Finish(result) => return result,
            };
            action = writing.next(channel, event);
        }
    }

    fn read(&mut self, channel: &mut Channel, timeout: Duration) -> Result<Vec<u8>, ReadError> {
        let (mut action, mut reading) = Reading::start(channel, timeout, true, self.now);
        loop {
            let event = match action {
                ReadAction::ArmRead => {
                    let end = self.arm();
                    ReadEvent::Armed(end, self.now)
                }
                ReadAction::Pause(span) => {
                    self.pause(span);
                    ReadEvent::Paused(self.now)
                }
                ReadAction::Await(span) => ReadEvent::Waited(self.wait(span)),
                ReadAction::Reap => {
                    let (completion, buffer) = self.reap_read();
                    ReadEvent::Reaped(completion, buffer, self.now)
                }
                ReadAction::Finish(result) => return result,
            };
            action = reading.next(channel, event);
        }
    }

    fn disarm(&mut self, channel: &mut Channel) -> Disarm {
        let (mut action, mut disarming) = Disarming::start(channel);
        loop {
            let event = match action {
                DisarmAction::Await(span) => DisarmEvent::Waited(self.wait(span)),
                DisarmAction::Cancel => DisarmEvent::Cancelled(self.cancel()),
                DisarmAction::Reap => {
                    let (completion, buffer) = self.reap_read();
                    DisarmEvent::Reaped(completion, buffer, 7)
                }
                DisarmAction::Leak => {
                    self.calls.push("leak");
                    DisarmEvent::Leaked
                }
                DisarmAction::Finish(end) => return end,
            };
            action = disarming.next(channel, event);
        }
    }
}

#[test]
fn input_is_armed_before_the_output_goes_out() {
    let mut channel = Channel::new();
    let mut handle = Handle::new();
    handle.waits.extend([WAIT_TIMEOUT, WAIT_OBJECT_0, WAIT_TIMEOUT]);
    handle.writes.push_back(Completion::Done(5));
    assert_eq!(handle.write(&mut channel, 5, from_millis(100)), Ok(()));
    assert_eq!(handle.calls, ["arm", "submit", "wait", "wait", "reap", "poll"]);
    assert!(channel.armed);
    handle.calls.clear();
    handle.waits.extend([WAIT_OBJECT_0, WAIT_TIMEOUT]);
    handle.writes.push_back(Completion::Done(3));
    assert_eq!(handle.write(&mut channel, 5, 0), Err(WriteError::Partial { written: 3 }));
    assert_eq!(handle.calls, ["submit", "wait", "reap", "poll"], "the armed read is kept");
}

#[test]
fn a_pending_submission_counts_as_under_way() {
    let mut channel = Channel::new();
    let mut handle = Handle::new();
    handle.arms.push_back(failed(997));
    handle.submits.push_back(failed(997));
    handle.waits.extend([WAIT_OBJECT_0]);
    handle.writes.push_back(Completion::Done(5));
    assert_eq!(handle.write(&mut channel, 5, 0), Ok(()));
    handle.submits.push_back(failed(31));
    assert_eq!(
        handle.write(&mut channel, 5, 0),
        Err(WriteError::Failed { written: 0, reason: "error 31".into() })
    );
    handle.submits.push_back(failed(1167));
    assert_eq!(handle.write(&mut channel, 5, 0), Err(WriteError::Lost("error 1167".into())));
    assert_eq!(handle.write(&mut channel, 5, 0), Err(WriteError::Lost("error 1167".into())));
    assert_eq!(handle.read(&mut channel, 0), Err(ReadError::Lost("error 1167".into())));
}

#[test]
fn a_timed_out_output_is_cancelled_and_waited_for() {
    let mut channel = Channel::new();
    let mut handle = Handle::new();
    handle.waits.extend([WAIT_TIMEOUT, WAIT_TIMEOUT, WAIT_TIMEOUT, WAIT_OBJECT_0]);
    handle.writes.push_back(Completion::Aborted(0));
    assert_eq!(handle.write(&mut channel, 5, from_millis(100)), Err(WriteError::TimedOut));
    assert_eq!(
        handle.calls,
        ["arm", "submit", "wait", "wait", "wait", "cancel", "wait", "reap", "poll"]
    );
    assert_eq!(handle.now, from_millis(100));
    assert!(channel.lost.is_none());
}

#[test]
fn writes_end_as_the_transfer_did() {
    for (completion, expected) in [
        (Completion::Aborted(0), Err(WriteError::TimedOut)),
        (Completion::Aborted(3), Err(WriteError::Partial { written: 3 })),
        (Completion::Done(4), Err(WriteError::Partial { written: 4 })),
        (Completion::Done(5), Ok(())),
    ] {
        let mut channel = Channel::new();
        let mut handle = Handle::new();
        handle.waits.extend([WAIT_TIMEOUT, WAIT_OBJECT_0]);
        handle.writes.push_back(completion);
        assert_eq!(handle.write(&mut channel, 5, 0), expected);
        assert_eq!(handle.calls, ["arm", "submit", "wait", "cancel", "wait", "reap", "poll"]);
        assert!(channel.lost.is_none());
    }
}

#[test]
fn a_cancellation_that_never_lands_loses_the_transport() {
    let mut channel = Channel::new();
    let mut handle = Handle::new();
    assert_eq!(handle.write(&mut channel, 5, 0), Err(WriteError::Unknown));
    assert_eq!(handle.calls, ["arm", "submit", "wait", "cancel", "wait", "leak"]);
    assert_eq!(handle.now, CANCEL_DRAIN_TIMEOUT);
    assert_eq!(channel.lost.as_deref(), Some("output cancellation did not complete"));

    let mut channel = Channel::new();
    let mut handle = Handle::new();
    handle.cancels.push_back(failed(5));
    assert_eq!(handle.write(&mut channel, 5, 0), Err(WriteError::Unknown));
    assert_eq!(handle.calls, ["arm", "submit", "wait", "cancel", "leak"]);
    assert_eq!(
        channel.lost.as_deref(),
        Some("could not cancel the output transfer: error 5")
    );
}

#[test]
fn what_arrived_during_a_write_is_queued() {
    let mut channel = Channel::new();
    let mut handle = Handle::new();
    handle.waits.extend([WAIT_OBJECT_0, WAIT_OBJECT_0]);
    handle.writes.push_back(Completion::Done(5));
    handle.reads.push_back((Completion::Done(2), b"abcd".to_vec()));
    assert_eq!(handle.write(&mut channel, 5, 0), Ok(()));
    assert!(!channel.armed);
    assert_eq!(handle.read(&mut channel, 0), Ok(b"ab".to_vec()));
    assert_eq!(handle.read(&mut channel, 0), Ok(Vec::new()));
    handle.waits.push_back(WAIT_OBJECT_0);
    handle.reads.push_back((Completion::Error { code: 31, reason: "x".into(), transferred: 0 }, vec![]));
    let error = Completion::Done(5);
    handle.waits.push_front(WAIT_OBJECT_0);
    handle.writes.push_back(error);
    assert_eq!(handle.write(&mut channel, 5, 0), Ok(()), "an input error does not fail the write");
    assert_eq!(handle.pauses, [from_millis(5)]);
}

#[test]
fn a_read_waits_retries_and_gives_up() {
    let mut channel = Channel::new();
    let mut handle = Handle::new();
    handle.arms.push_back(failed(31));
    handle.waits.extend([WAIT_OBJECT_0, WAIT_OBJECT_0]);
    handle.reads.push_back((Completion::Done(0), vec![0; 4]));
    handle.reads.push_back((Completion::Done(3), b"abcd".to_vec()));
    assert_eq!(handle.read(&mut channel, from_millis(1000)), Ok(b"abc".to_vec()));
    assert_eq!(handle.calls, ["arm", "arm", "wait", "reap read", "arm", "wait", "reap read"]);
    assert_eq!(handle.pauses, [from_millis(5)]);
    assert_eq!(channel.read_errors, 0);

    assert_eq!(handle.read(&mut channel, from_millis(10)), Ok(Vec::new()), "nothing in time");
    assert!(channel.armed, "the read stays armed");
    handle.waits.push_back(WAIT_OBJECT_0 + 1);
    assert_eq!(handle.read(&mut channel, from_millis(10)), Err(ReadError::Interrupted));
    assert!(channel.armed, "an interrupt leaves it armed");
}

#[test]
fn too_many_input_errors_lose_the_transport() {
    let mut channel = Channel::new();
    let mut handle = Handle::new();
    for _ in 0..11 {
        handle.arms.push_back(failed(31));
    }
    let lost = "input failed 11 times in a row, last: error 31".to_string();
    assert_eq!(handle.read(&mut channel, 0), Err(ReadError::Lost(lost.clone())));
    assert_eq!(handle.pauses.len(), 10);
    assert_eq!(handle.write(&mut channel, 1, 0), Err(WriteError::Lost(lost)));
}

#[test]
fn an_armed_read_is_taken_down() {
    let mut channel = Channel::new();
    let mut handle = Handle::new();
    assert_eq!(handle.disarm(&mut channel), Disarm::NotArmed);
    channel.armed = true;
    handle.waits.push_back(WAIT_OBJECT_0);
    handle.reads.push_back((Completion::Done(2), b"ab".to_vec()));
    assert_eq!(handle.disarm(&mut channel), Disarm::Completed(2));
    assert!(!channel.armed);
    assert_eq!(channel.take_queue(), b"ab");
    channel.armed = true;
    handle.cancels.push_back(failed(1168));
    handle.waits.extend([WAIT_TIMEOUT, WAIT_OBJECT_0]);
    handle.reads.push_back((Completion::Aborted(0), b"ab".to_vec()));
    assert_eq!(handle.disarm(&mut channel), Disarm::Cancelled(7));
    channel.armed = true;
    assert_eq!(handle.disarm(&mut channel), Disarm::Abandoned);
    assert_eq!(channel.lost.as_deref(), Some("input cancellation did not complete"));
}

#[test]
fn a_transfer_that_cannot_be_prepared_fails_the_call() {
    let channel = Channel::new();
    let (action, mut writing) = Writing::start(&channel, 5, 0, false);
    assert_eq!(action, WriteAction::ArmRead);
    let mut channel = channel;
    assert_eq!(
        writing.next(&mut channel, WriteEvent::Unprepared("no event".into())),
        WriteAction::Finish(Err(WriteError::Failed { written: 0, reason: "no event".into() }))
    );
    let (_, mut reading) = Reading::start(&mut channel, 0, false, 0);
    assert_eq!(
        reading.next(&mut channel, ReadEvent::Unprepared("no event".into())),
        ReadAction::Finish(Err(ReadError::Failed("no event".into())))
    );
    assert!(channel.lost.is_none());
}
