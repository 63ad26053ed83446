//! How long reads and writes wait, and how an armed read is taken down, whatever
//! happens on the way.

use vstd::prelude::*;

use crate::overlapped::transfer::{
    disarm_awaits, disarm_next, read_awaits, read_next, read_started, write_accepts, write_next,
    write_run, CallEnd, DisarmAction, DisarmEvent, Disarming, ReadActionView, ReadErrorView,
    ReadEvent, Reading, WriteActionView, WriteEvent, WritingView,
};
use crate::overlapped::{
    filled, write_end_of, ChannelView, Completion, Disarm, WriteErrorView,
};
use crate::time::{lasts_until, span_end, Duration, Instant};

verus! {

// ---------------------------------------------------------------------------
// Reads.
// ---------------------------------------------------------------------------

/// What a read does in answer to `events`, from its start on, how far it comes,
/// and the channel then.
pub open spec fn read_run(
    c: ChannelView,
    timeout: Duration,
    interruptible: bool,
    started: Instant,
    events: Seq<ReadEvent>,
) -> (Seq<ReadActionView>, Reading, ChannelView)
    decreases events.len(),
{
    if events.len() == 0 {
        let (action, r, now) = read_started(c, timeout, interruptible, started);
        (seq![action], r, now)
    } else {
        let (actions, r, now) = read_run(c, timeout, interruptible, started, events.drop_last());
        let (action, next, after) = read_next(r, now, events.last());
        (actions.push(action), next, after)
    }
}

/// Whether every event is one that the read waits for when it comes.
pub open spec fn read_accepts(
    c: ChannelView,
    timeout: Duration,
    interruptible: bool,
    started: Instant,
    events: Seq<ReadEvent>,
) -> bool
    decreases events.len(),
{
    events.len() == 0 || {
        let earlier = events.drop_last();
        read_accepts(c, timeout, interruptible, started, earlier) && read_awaits(
            read_run(c, timeout, interruptible, started, earlier).1,
            events.last(),
        )
    }
}

/// What time it was last known to be.
pub open spec fn read_time(started: Instant, events: Seq<ReadEvent>) -> Instant
    decreases events.len(),
{
    if events.len() == 0 {
        started
    } else {
        match events.last() {
            ReadEvent::Armed(_, now) => now,
            ReadEvent::Paused(now) => now,
            ReadEvent::Reaped(_, _, now) => now,
            _ => read_time(started, events.drop_last()),
        }
    }
}

/// How many bytes the last input transfer that ended has moved.
pub open spec fn last_moved(events: Seq<ReadEvent>) -> usize
    decreases events.len(),
{
    if events.len() == 0 {
        0
    } else {
        match events.last() {
            ReadEvent::Reaped(completion, _, _) => completion.moved(),
            _ => last_moved(events.drop_last()),
        }
    }
}

/// What holds of a read on its way.
spec fn read_so_far(
    actions: Seq<ReadActionView>,
    r: Reading,
    c: ChannelView,
    timeout: Duration,
    interruptible: bool,
    started: Instant,
    events: Seq<ReadEvent>,
) -> bool {
    &&& actions.len() == events.len() + 1
    &&& r.deadline == span_end(started, timeout)
    &&& r.interruptible == interruptible
    &&& r.phase is Over <==> actions.last() is Finish
    &&& r.phase is Waiting <==> actions.last() is Await
    &&& r.phase is Reaping <==> actions.last() is Reap
    &&& r.phase is Settling ==> r.brought == last_moved(events)
    &&& r.phase is Waiting || r.phase is Reaping ==> c.armed
    &&& actions.last() matches ReadActionView::Await(span) ==> lasts_until(
        span,
        read_time(started, events) as int,
        span_end(started, timeout),
    )
}

proof fn lemma_read_so_far(
    c: ChannelView,
    timeout: Duration,
    interruptible: bool,
    started: Instant,
    events: Seq<ReadEvent>,
)
    requires
        read_accepts(c, timeout, interruptible, started, events),
    ensures
        ({
            let (actions, r, after) = read_run(c, timeout, interruptible, started, events);
            read_so_far(actions, r, after, timeout, interruptible, started, events)
        }),
    decreases events.len(),
{
    if events.len() > 0 {
        lemma_read_so_far(c, timeout, interruptible, started, events.drop_last());
    }
}

/// A read may wait until its timeout is over, and not longer. Each wait for the
/// armed transfer lasts from when it is asked for until the read's start and its
/// timeout lie behind. So a read that ends with nothing has waited until then,
/// or has seen that the time is up, unless a transfer claims to have moved bytes
/// that are not there.
pub proof fn reads_wait_until_their_deadline(
    c: ChannelView,
    timeout: Duration,
    interruptible: bool,
    started: Instant,
    events: Seq<ReadEvent>,
)
    requires
        read_accepts(c, timeout, interruptible, started, events),
    ensures
        ({
            let (actions, _, after) = read_run(c, timeout, interruptible, started, events);
            let n = events.len() as int;
            let end = span_end(started, timeout);
            &&& actions.len() == n + 1
            &&& actions[n] matches ReadActionView::Await(span) ==> {
                &&& after.armed
                &&& lasts_until(span, read_time(started, events) as int, end)
            }
            &&& actions[n] matches ReadActionView::Finish(Ok(bytes)) ==> bytes.len() > 0 || {
                ||| {
                    &&& n > 0 && events[n - 1] is Waited
                    &&& actions[n - 1] matches ReadActionView::Await(span)
                    &&& lasts_until(span, read_time(started, events) as int, end)
                }
                ||| read_time(started, events) >= end
                ||| last_moved(events) > 0
            }
        }),
{
    lemma_read_so_far(c, timeout, interruptible, started, events);
    if events.len() > 0 {
        let earlier = events.drop_last();
        lemma_read_so_far(c, timeout, interruptible, started, earlier);
        let (actions, r, _) = read_run(c, timeout, interruptible, started, events);
        let before = read_run(c, timeout, interruptible, started, earlier).0;
        assert(actions[events.len() - 1] == before.last());
    }
}

/// What ends a wait decides: an interrupt ends the read, if the read listens for
/// one; the armed transfer is reaped when it has ended; and otherwise the read
/// ends with nothing.
pub proof fn read_waits_end_as_told(
    c: ChannelView,
    timeout: Duration,
    interruptible: bool,
    started: Instant,
    events: Seq<ReadEvent>,
    status: u32,
)
    requires
        read_accepts(c, timeout, interruptible, started, events),
        read_run(c, timeout, interruptible, started, events).0.last() is Await,
    ensures
        ({
            let more = events.push(ReadEvent::Waited(status));
            let next = read_run(c, timeout, interruptible, started, more).0.last();
            &&& read_accepts(c, timeout, interruptible, started, more)
            &&& next is Reap <==> status == 0
            &&& next == ReadActionView::Finish(Err(ReadErrorView::Interrupted)) <==> status == 1
                && interruptible
            &&& next is Reap || next is Finish
            &&& next matches ReadActionView::Finish(Ok(bytes)) ==> bytes.len() == 0
            &&& next matches ReadActionView::Finish(Err(error)) ==> error is Interrupted
        }),
{
    lemma_read_so_far(c, timeout, interruptible, started, events);
    assert(events.push(ReadEvent::Waited(status)).drop_last() == events);
}

/// A reply is handed out as soon as its transfer has ended: the read ends with
/// what was queued and what the transfer brought. A transfer that was cancelled
/// hands out what it had brought by then. One that ended empty is followed by
/// another until the time is up.
pub proof fn reads_end_with_what_arrived(
    c: ChannelView,
    timeout: Duration,
    interruptible: bool,
    started: Instant,
    events: Seq<ReadEvent>,
    completion: Completion,
    buffer: Vec<u8>,
    now: Instant,
)
    requires
        read_accepts(c, timeout, interruptible, started, events),
        read_run(c, timeout, interruptible, started, events).0.last() is Reap,
    ensures
        ({
            let before = read_run(c, timeout, interruptible, started, events).2;
            let more = events.push(ReadEvent::Reaped(completion, buffer, now));
            let (actions, _, after) = read_run(c, timeout, interruptible, started, more);
            &&& read_accepts(c, timeout, interruptible, started, more)
            &&& !after.armed
            &&& completion !is Error && completion.moved() > 0 ==> {
                &&& actions.last() == ReadActionView::Finish(
                    Ok(before.queue + filled(buffer@, completion.moved())),
                )
                &&& after.queue.len() == 0
            }
            &&& completion !is Error && completion.moved() == 0 ==> if now < span_end(
                started,
                timeout,
            ) {
                actions.last() is ArmRead
            } else {
                actions.last() matches ReadActionView::Finish(Ok(bytes)) && bytes.len() == 0
            }
        }),
{
    lemma_read_so_far(c, timeout, interruptible, started, events);
    assert(events.push(ReadEvent::Reaped(completion, buffer, now)).drop_last() == events);
}

/// A read starts with what there is: the loss of the transport, then what is
/// queued, all of it, then the transfer that is already armed; and only without
/// one is a transfer armed.
pub proof fn reads_start_with_what_is_there(
    c: ChannelView,
    timeout: Duration,
    interruptible: bool,
    started: Instant,
)
    ensures
        ({
            let (action, _, after) = read_started(c, timeout, interruptible, started);
            &&& c.lost matches Some(reason) ==> action == ReadActionView::Finish(
                Err(ReadErrorView::Lost(reason)),
            ) && after == c
            &&& c.lost is None && c.queue.len() > 0 ==> {
                &&& action == ReadActionView::Finish(Ok(c.queue))
                &&& after.queue.len() == 0
                &&& after.armed == c.armed
            }
            &&& c.lost is None && c.queue.len() == 0 ==> {
                &&& after == c
                &&& c.armed <==> action == ReadActionView::Await(
                    span_end(started, timeout) - started,
                )
                &&& !c.armed <==> action is ArmRead
            }
        }),
{
}

// ---------------------------------------------------------------------------
// Writes.
// ---------------------------------------------------------------------------

/// When the output transfer was submitted, once it was.
pub open spec fn submitted_at(events: Seq<WriteEvent>) -> Option<Instant>
    decreases events.len(),
{
    if events.len() == 0 {
        None
    } else {
        match events.last() {
            WriteEvent::Submitted(_, now) => Some(now),
            _ => submitted_at(events.drop_last()),
        }
    }
}

/// What time it was last known to be, once it was known.
pub open spec fn write_time(events: Seq<WriteEvent>) -> Option<Instant>
    decreases events.len(),
{
    if events.len() == 0 {
        None
    } else {
        match events.last() {
            WriteEvent::Submitted(_, now) => Some(now),
            WriteEvent::Waited(_, now) => Some(now),
            _ => write_time(events.drop_last()),
        }
    }
}

/// Whether a wait of `span` that begins at `now` is one of the short waits of
/// which the time until `end` is made: 50 ms, or what is left if that is less.
pub open spec fn slice_of(span: int, now: int, end: int) -> bool {
    if now + 50_000_000 <= end {
        span == 50_000_000
    } else {
        lasts_until(span, now, end)
    }
}

/// What holds of the waits of a write on its way.
#[verifier::opaque]
spec fn write_waits(
    actions: Seq<WriteActionView>,
    w: WritingView,
    timeout: Duration,
    events: Seq<WriteEvent>,
) -> bool {
    &&& actions.len() == events.len() + 1
    &&& w.timeout == timeout
    &&& w.phase is InFlight || w.phase is Landing <==> actions.last() is Await
    &&& w.phase is Cancelling <==> actions.last() is Cancel
    &&& w.phase is InFlight ==> {
        &&& submitted_at(events) is Some
        &&& write_time(events) is Some
        &&& w.deadline == span_end(submitted_at(events)->Some_0, timeout)
        &&& lasts_until(w.remaining as int, write_time(events)->Some_0 as int, w.deadline as int)
        &&& slice_of(
            actions.last()->Await_0,
            write_time(events)->Some_0 as int,
            w.deadline as int,
        )
    }
    &&& w.phase is Landing ==> actions.last() == WriteActionView::Await(2_000_000_000)
}

proof fn lemma_write_waits(
    c: ChannelView,
    len: usize,
    timeout: Duration,
    interruptible: bool,
    events: Seq<WriteEvent>,
)
    requires
        write_accepts(c, len, timeout, interruptible, events),
    ensures
        ({
            let (actions, w, _) = write_run(c, len, timeout, interruptible, events);
            write_waits(actions, w, timeout, events)
        }),
    decreases events.len(),
{
    reveal(write_waits);
    if events.len() > 0 {
        let earlier = events.drop_last();
        lemma_write_waits(c, len, timeout, interruptible, earlier);
    }
}

/// A write may take as long as its timeout from when its output was submitted:
/// it is waited for in slices of 50 ms that add up to that, and cancelled only
/// when a wait failed or when one came to nothing that began with no time left.
/// A cancelled transfer is given two seconds to land.
pub proof fn writes_wait_until_their_deadline(
    c: ChannelView,
    len: usize,
    timeout: Duration,
    interruptible: bool,
    events: Seq<WriteEvent>,
)
    requires
        write_accepts(c, len, timeout, interruptible, events),
        events.len() > 0,
    ensures
        ({
            let (actions, _, _) = write_run(c, len, timeout, interruptible, events);
            let n = events.len() as int;
            &&& actions.len() == n + 1
            &&& actions[n] matches WriteActionView::Await(span) ==> if events.last() is Cancelled {
                span == 2_000_000_000
            } else {
                &&& submitted_at(events) matches Some(begun)
                &&& write_time(events) matches Some(now)
                &&& slice_of(span, now as int, span_end(begun, timeout))
            }
            &&& actions[n] is Cancel ==> {
                &&& events.last() matches WriteEvent::Waited(status, _)
                &&& status != 0
                &&& status == 258 ==> {
                    &&& submitted_at(events) matches Some(begun)
                    &&& write_time(events.drop_last()) matches Some(asked)
                    &&& asked >= span_end(begun, timeout)
                }
            }
        }),
{
    reveal(write_waits);
    let earlier = events.drop_last();
    lemma_write_waits(c, len, timeout, interruptible, events);
    lemma_write_waits(c, len, timeout, interruptible, earlier);
}

// ---------------------------------------------------------------------------
// Taking down an armed read.
// ---------------------------------------------------------------------------

/// A read that has not ended when it is looked at is cancelled, and is given two
/// seconds to land. What it brought is queued either way, and how it is told to
/// have ended is how it did: by itself, cancelled, or not at all.
pub proof fn armed_reads_are_taken_down(d: Disarming, c: ChannelView, event: DisarmEvent)
    requires
        disarm_awaits(d, event),
    ensures
        ({
            let (action, next, after) = disarm_next(d, c, event);
            &&& d is Looking ==> {
                &&& action is Reap <==> event == DisarmEvent::Waited(0)
                &&& action is Cancel <==> event != DisarmEvent::Waited(0)
                &&& after == c
            }
            &&& d is Landing ==> {
                &&& action is Reap <==> event == DisarmEvent::Waited(0)
                &&& action is Leak <==> event != DisarmEvent::Waited(0)
            }
            &&& event matches DisarmEvent::Cancelled(end) ==> {
                &&& action == DisarmAction::Await(2_000_000_000) <==> end.ok || end.code == 1168
                &&& action is Leak <==> !(end.ok || end.code == 1168)
            }
            &&& event matches DisarmEvent::Reaped(completion, buffer, taken) ==> {
                &&& action == DisarmAction::Finish(
                    if d is Ended {
                        Disarm::Completed(completion.moved())
                    } else {
                        Disarm::Cancelled(taken)
                    },
                )
                &&& after.queue == c.queue + filled(buffer@, completion.moved())
                &&& after.lost == c.lost
            }
            &&& event is Leaked ==> action == DisarmAction::Finish(Disarm::Abandoned)
            &&& action is Leak ==> next is Lost && after.queue == c.queue
            &&& action is Finish <==> next is Over
            &&& after.armed == c.armed
        }),
{
}

/// A transport that is lost says why: which transfer could not be cancelled, or
/// did not land after it was.
pub proof fn losses_say_why(
    w: WritingView,
    c: ChannelView,
    end: CallEnd,
    status: u32,
    now: Instant,
)
    requires
        c.lost is None,
        !(end.ok || end.code == 1168),
        status != 0,
    ensures
        disarm_next(Disarming::Cancelling, c, DisarmEvent::Cancelled(end)).2.lost == Some(
            "could not cancel the "@ + "input"@ + " transfer: "@ + end.reason@,
        ),
        disarm_next(Disarming::Landing, c, DisarmEvent::Waited(status)).2.lost == Some(
            "input"@ + " cancellation did not complete"@,
        ),
        write_next(w, c, WriteEvent::Cancelled(end)).2.lost == Some(
            "could not cancel the "@ + "output"@ + " transfer: "@ + end.reason@,
        ),
        w.phase is Landing ==> write_next(w, c, WriteEvent::Waited(status, now)).2.lost == Some(
            "output"@ + " cancellation did not complete"@,
        ),
{
}

/// After an input error the pause before the next attempt is 5 ms for the first
/// in a row, then twice as long each time, and 100 ms at most; the eleventh in a
/// row, or one that says that the device is gone, ends it. A transfer that brings
/// bytes starts the count afresh.
pub proof fn input_errors_are_paused_for(
    r: Reading,
    c: ChannelView,
    end: CallEnd,
    now: Instant,
    completion: Completion,
    buffer: Vec<u8>,
)
    requires
        r.phase is Arming,
        !(end.ok || end.code == 997),
        c.lost is None,
    ensures
        ({
            let (action, _, after) = read_next(r, c, ReadEvent::Armed(end, now));
            let gone = end.code == 2 || end.code == 6 || end.code == 20 || end.code == 433
                || end.code == 1167 || end.code == 1617;
            let n = c.read_errors + 1;
            &&& gone ==> action == ReadActionView::Finish(
                Err(ReadErrorView::Lost(end.reason@)),
            ) && after.lost == Some(end.reason@)
            &&& !gone && n > 10 ==> action is Finish && after.lost is Some
            &&& !gone && n <= 10 ==> {
                &&& after.read_errors == n
                &&& after.lost is None
                &&& action == ReadActionView::Pause(
                    if n == 1 {
                        5_000_000
                    } else if n == 2 {
                        10_000_000
                    } else if n == 3 {
                        20_000_000
                    } else if n == 4 {
                        40_000_000
                    } else if n == 5 {
                        80_000_000
                    } else {
                        100_000_000
                    },
                )
            }
        }),
        completion !is Error && completion.moved() > 0 ==> read_next(
            Reading { phase: crate::overlapped::transfer::ReadPhase::Reaping, ..r },
            c,
            ReadEvent::Reaped(completion, buffer, now),
        ).2.read_errors == 0,
{
}

/// An output transfer that failed is told with the reason and with how much was
/// written, unless the device is gone: then the transport is lost for that
/// reason. One that was aborted without having been cancelled says so.
pub proof fn failed_outputs_say_why(
    c: ChannelView,
    in_time: bool,
    code: u32,
    reason: String,
    written: usize,
    len: usize,
)
    requires
        c.lost is None,
    ensures
        ({
            let (result, after) = write_end_of(
                c,
                in_time,
                Completion::Error { code, reason, transferred: written },
                len,
            );
            let gone = code == 2 || code == 6 || code == 20 || code == 433 || code == 1167 || code
                == 1617;
            if gone {
                &&& result == Err::<(), WriteErrorView>(WriteErrorView::Lost(reason@))
                &&& after.lost == Some(reason@)
            } else {
                &&& result == Err::<(), WriteErrorView>(
                    WriteErrorView::Failed { written, reason: reason@ },
                )
                &&& after == c
            }
        }),
        write_end_of(c, true, Completion::Aborted(written), len) == (
            Err::<(), WriteErrorView>(
                WriteErrorView::Failed { written, reason: "transfer was aborted"@ },
            ),
            c,
        ),
{
}

} // verus!
