//! Holding a session with Pings.

use std::cell::Cell;
use std::rc::Rc;

use ezrama::frame::encode;
use ezrama::hold::{retry_backoff, HoldEvent, HoldStep, Holding, KEEPALIVE_INTERVAL};
use ezrama::session::testing::FakeClock;
use ezrama::session::{Clock, OptionalReply, Session, SessionError, DRAIN_WINDOW};
use ezrama::time::{as_millis, from_millis, Duration, Instant};
use ezrama::transport::{MockTransport, ReadError, Transport, WriteError};
use ezrama::wire;

fn holding_session(mock: MockTransport) -> Session<MockTransport, FakeClock> {
    Session::with_clock(mock, FakeClock::new())
}

/// Drives a hold to its end. `wait` is told how long to wait and how many Pings
/// have gone out, and says whether to stop.
fn hold<T: Transport, C: Clock>(
    session: &mut Session<T, C>,
    interval: Duration,
    last_outbound: Instant,
    mut wait: impl FnMut(&mut Session<T, C>, Duration, u32) -> bool,
) -> (Result<(), SessionError>, Vec<HoldEvent>) {
    let mut holding = Holding::new(interval, last_outbound);
    let mut events = Vec::new();
    let mut pings = 0;
    loop {
        let remaining = holding.time_to_wait(session);
        let stop = wait(session, remaining, pings);
        match holding.turn(session, stop) {
            HoldStep::Early => {}
            HoldStep::Report(event) => {
                if matches!(event, HoldEvent::Pinged { .. }) {
                    pings += 1;
                }
                events.push(event);
            }
            HoldStep::Stopped => {
                events.push(HoldEvent::Stopped);
                return (Ok(()), events);
            }
            HoldStep::Failed(error) => return (Err(error), events),
        }
    }
}

/// Runs the hold with a waiter that sleeps the clock through each wait and asks
/// for a stop once `max_pings` Pings have gone out.
fn run_until<T: Transport, C: Clock>(
    session: &mut Session<T, C>,
    interval: Duration,
    max_pings: u32,
) -> (Result<(), SessionError>, Vec<HoldEvent>) {
    let start = session.now();
    hold(session, interval, start, |session, remaining, pings| {
        if pings >= max_pings {
            return true;
        }
        session.sleep(remaining);
        false
    })
}

fn pinged(gap: Duration) -> HoldEvent {
    HoldEvent::Pinged {
        reply: OptionalReply::Nothing,
        drained: 0,
        gap,
    }
}

#[test]
fn pings_once_per_interval_until_stopped() {
    let mut session = holding_session(MockTransport::new());
    let (result, events) = run_until(&mut session, KEEPALIVE_INTERVAL, 3);
    assert_eq!(result, Ok(()));
    assert_eq!(
        events,
        vec![
            pinged(0),
            pinged(KEEPALIVE_INTERVAL),
            pinged(KEEPALIVE_INTERVAL),
            HoldEvent::Stopped,
        ]
    );
    assert_eq!(session.clock.elapsed, KEEPALIVE_INTERVAL * 3);
    assert!(session.is_open());
    let mock = session.into_transport();
    assert_eq!(mock.writes.len(), 3);
    assert!(mock.writes.iter().all(|w| *w == encode(&wire::keepalive_ping()).unwrap()));
}

/// A clock that several owners move.
#[derive(Clone)]
struct SharedClock {
    elapsed: Rc<Cell<Duration>>,
}

impl Clock for SharedClock {
    fn now(&mut self) -> Instant {
        self.elapsed.get()
    }

    fn sleep(&mut self, duration: Duration) {
        self.elapsed.set(self.elapsed.get() + duration);
    }
}

/// A transport on which nothing ever arrives, and whose reads last as long as
/// they may.
struct SilentTransport {
    clock: SharedClock,
}

impl Transport for SilentTransport {
    fn write(&mut self, _data: &[u8], _timeout: Duration) -> Result<(), WriteError> {
        Ok(())
    }

    fn read(&mut self, timeout: Duration) -> Result<Vec<u8>, ReadError> {
        self.clock.sleep(timeout);
        Ok(Vec::new())
    }
}

#[test]
fn the_gap_is_timed_from_the_write_not_from_the_reply_wait() {
    let clock = SharedClock { elapsed: Rc::new(Cell::new(0)) };
    let transport = SilentTransport { clock: clock.clone() };
    let mut session = Session::with_clock(transport, clock.clone());
    let (result, events) = run_until(&mut session, KEEPALIVE_INTERVAL, 3);
    assert_eq!(result, Ok(()));
    let gaps: Vec<Duration> = events
        .iter()
        .filter_map(|event| match event {
            HoldEvent::Pinged { gap, .. } => Some(*gap),
            _ => None,
        })
        .collect();
    assert_eq!(gaps, [0, KEEPALIVE_INTERVAL, KEEPALIVE_INTERVAL]);
    assert_eq!(clock.elapsed.get(), KEEPALIVE_INTERVAL * 3 + DRAIN_WINDOW);
}

#[test]
fn honours_a_custom_interval() {
    let mut session = holding_session(MockTransport::new());
    let (result, _) = run_until(&mut session, from_millis(500), 4);
    assert_eq!(result, Ok(()));
    assert_eq!(session.clock.elapsed, from_millis(2000));
}

#[test]
fn stop_before_the_first_ping_sends_nothing() {
    let mut session = holding_session(MockTransport::new());
    let (result, events) = run_until(&mut session, KEEPALIVE_INTERVAL, 0);
    assert_eq!(result, Ok(()));
    assert_eq!(events, vec![HoldEvent::Stopped]);
    assert_eq!(session.clock.elapsed, 0);
    assert!(session.into_transport().writes.is_empty());
}

#[test]
fn an_early_wake_waits_again_for_the_rest() {
    let mut session = holding_session(MockTransport::new());
    let mut waits = Vec::new();
    let start = session.now();
    let (result, events) = hold(&mut session, from_millis(1000), start, |session, remaining, _| {
        waits.push(remaining);
        if waits.len() > 3 {
            return true;
        }
        session.sleep(remaining / 2);
        false
    });
    assert_eq!(result, Ok(()));
    assert_eq!(events, vec![HoldEvent::Stopped]);
    assert_eq!(
        waits.iter().map(|w| as_millis(*w)).collect::<Vec<_>>(),
        [1000, 500, 250, 125]
    );
}

#[test]
fn retries_a_zero_byte_write_with_growing_pauses() {
    let mut mock = MockTransport::new();
    mock.queue_write_result(Err(WriteError::TimedOut))
        .queue_write_result(Err(WriteError::TimedOut))
        .queue_write_result(Ok(()));
    let mut session = holding_session(mock);
    let (result, events) = run_until(&mut session, KEEPALIVE_INTERVAL, 1);
    assert_eq!(result, Ok(()));
    assert_eq!(
        events,
        vec![
            HoldEvent::Retrying {
                attempt: 1,
                error: SessionError::Write(WriteError::TimedOut)
            },
            HoldEvent::Retrying {
                attempt: 2,
                error: SessionError::Write(WriteError::TimedOut)
            },
            pinged(0),
            HoldEvent::Stopped,
        ]
    );
    let sleeps = session.clock.sleeps_ms();
    assert!(sleeps.contains(&500));
    assert!(sleeps.contains(&1000));
    assert_eq!(session.into_transport().writes.len(), 3);
}

#[test]
fn gives_up_after_the_retry_budget() {
    let mut mock = MockTransport::new();
    for _ in 0..4 {
        mock.queue_write_result(Err(WriteError::TimedOut));
    }
    let mut session = holding_session(mock);
    let (result, events) = run_until(&mut session, KEEPALIVE_INTERVAL, 1);
    assert_eq!(result, Err(SessionError::Write(WriteError::TimedOut)));
    assert!(!session.is_open());
    assert_eq!(events.len(), 3);
    let sleeps = session.clock.sleeps_ms();
    assert!(sleeps.contains(&500));
    assert!(sleeps.contains(&1000));
    assert!(sleeps.contains(&1500));
    assert_eq!(session.into_transport().writes.len(), 4);
}

#[test]
fn a_fatal_ping_ends_the_hold() {
    let mut mock = MockTransport::new();
    mock.queue_write_result(Err(WriteError::Partial { written: 2 }));
    let mut session = holding_session(mock);
    let (result, events) = run_until(&mut session, KEEPALIVE_INTERVAL, 1);
    assert_eq!(
        result,
        Err(SessionError::Write(WriteError::Partial { written: 2 }))
    );
    assert!(events.is_empty());
    assert!(!session.is_open());
}

#[test]
fn backoff_schedule() {
    let millis: Vec<u64> = (1..=5).map(|n| as_millis(retry_backoff(n)) as u64).collect();
    assert_eq!(millis, [500, 1000, 1500, 2000, 2000]);
}
