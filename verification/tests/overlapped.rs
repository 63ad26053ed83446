//! What the transfers of the display come to.

use ezrama::overlapped::{
    arm_failure_for_write, disarmed, is_device_lost, next_slice, read_retry_backoff, slice_end,
    wait_end, wait_millis, Channel, Completion, Disarm, SliceEnd, WaitEnd, READ_RETRY_MAX_BACKOFF,
};
use ezrama::time::{as_millis, from_millis, from_secs};
use ezrama::transport::{ReadError, WriteError};
use ezrama::win::{WAIT_FAILED, WAIT_OBJECT_0, WAIT_TIMEOUT};

#[test]
fn device_loss_codes() {
    for code in [2, 6, 20, 433, 1167, 1617] {
        assert!(is_device_lost(code), "{code}");
    }
    for code in [5, 31, 995, 996, 997, 1168] {
        assert!(!is_device_lost(code), "{code}");
    }
}

#[test]
fn read_retry_backoff_doubles_and_caps() {
    let millis: Vec<u64> = (0..=8).map(|n| as_millis(read_retry_backoff(n)) as u64).collect();
    assert_eq!(millis, [5, 5, 10, 20, 40, 80, 100, 100, 100]);
    assert_eq!(read_retry_backoff(u32::MAX), READ_RETRY_MAX_BACKOFF);
}

#[test]
fn wait_millis_never_produces_the_infinite_sentinel() {
    assert_eq!(wait_millis(0), 0);
    assert_eq!(wait_millis(from_millis(300)), 300);
    assert_eq!(wait_millis(from_secs(u64::MAX)), WAIT_FAILED - 1);
}

#[test]
fn a_lost_channel_refuses_everything_with_the_first_reason() {
    let mut channel = Channel::new();
    assert_eq!(channel.check_lost_for_read(), Ok(()));
    assert_eq!(channel.check_lost_for_write(), Ok(()));
    assert_eq!(channel.latch_lost("first".into()), "first");
    assert_eq!(channel.latch_lost("second".into()), "first");
    assert_eq!(channel.check_lost_for_read(), Err(ReadError::Lost("first".into())));
    assert_eq!(channel.check_lost_for_write(), Err(WriteError::Lost("first".into())));
}

#[test]
fn received_bytes_are_queued_and_taken_once() {
    let mut channel = Channel::new();
    channel.reap_read(&Completion::Done(3), b"abcdef");
    channel.queue_bytes(b"xyz", 1);
    assert_eq!(channel.take_queue(), b"abcx");
    assert_eq!(channel.take_queue(), b"");
}

#[test]
fn completions_follow_the_result() {
    assert_eq!(Completion::from_result(true, 4, 995, "x".into()), Completion::Done(4));
    assert_eq!(Completion::from_result(false, 4, 995, "x".into()), Completion::Aborted(4));
    let failed = Completion::from_result(false, 4, 31, "x".into());
    assert_eq!(failed, Completion::Error { code: 31, reason: "x".into(), transferred: 4 });
    assert_eq!(failed.transferred(), 4);
}

#[test]
fn a_write_that_times_out_with_nothing_sent_can_be_retried() {
    let mut channel = Channel::new();
    assert_eq!(channel.finish_write(true, Completion::Done(5), 5), Ok(()));
    assert_eq!(
        channel.finish_write(true, Completion::Done(3), 5),
        Err(WriteError::Partial { written: 3 })
    );
    assert_eq!(channel.finish_write(false, Completion::Aborted(0), 5), Err(WriteError::TimedOut));
    assert!(channel.lost.is_none());
}

#[test]
fn waits_end_by_what_was_signalled() {
    assert_eq!(wait_end(WAIT_OBJECT_0, true), WaitEnd::Signalled);
    assert_eq!(wait_end(1, true), WaitEnd::Interrupted);
    assert_eq!(wait_end(1, false), WaitEnd::Timeout);
    assert_eq!(wait_end(WAIT_TIMEOUT, true), WaitEnd::Timeout);
    assert_eq!(slice_end(WAIT_OBJECT_0, 0), SliceEnd::Signalled);
    assert_eq!(slice_end(WAIT_TIMEOUT, 0), SliceEnd::GiveUp);
    assert_eq!(slice_end(WAIT_TIMEOUT, 1), SliceEnd::Again);
    assert_eq!(slice_end(WAIT_FAILED, 1), SliceEnd::GiveUp);
    assert!(next_slice(from_secs(3600)) < from_secs(3600));
    assert_eq!(next_slice(1), 1);
}

#[test]
fn a_device_that_goes_away_latches_and_other_input_errors_are_retried() {
    let mut channel = Channel::new();
    assert_eq!(channel.read_failure(31, "busy"), Ok(from_millis(5)));
    assert_eq!(channel.read_failure(1167, "gone"), Err(ReadError::Lost("gone".into())));
    assert_eq!(channel.lost.as_deref(), Some("gone"));
    assert_eq!(
        arm_failure_for_write(ReadError::Lost("gone".into())),
        WriteError::Lost("gone".into())
    );
}

#[test]
fn a_disarmed_read_had_completed_or_was_cancelled() {
    assert_eq!(disarmed(true, 9, 1), Disarm::Completed(9));
    assert_eq!(disarmed(false, 0, 7), Disarm::Cancelled(7));
}
