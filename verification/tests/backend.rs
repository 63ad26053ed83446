//! The session start and what the machine's answers come to.

use ezrama::backend::{
    establish, hold_without_session, is_stop_event, kanali_started, panel_of, show, HoldLog,
    KanaliStart,
};
use ezrama::frame::encode;
use ezrama::hold::HoldEvent;
use ezrama::log::Logger;
use ezrama::pb::Message;
use ezrama::session::testing::FakeClock;
use ezrama::session::{OptionalReply, Session, SessionError};
use ezrama::supervisor::{Hold, Panel, StartError};
use ezrama::transport::{MockTransport, ReadError, WriteError};
use ezrama::usbprint::Discovery;
use ezrama::wire::{self, field};

fn reply(number: u32, body: Message) -> Vec<u8> {
    let header = Message::new().uint(1, 1);
    let message = Message::new().message(field::HEADER, &header).message(number, &body);
    encode(message.as_bytes()).unwrap()
}

/// A transport that answers the bootstrap.
fn answering() -> MockTransport {
    let device = Message::new().bytes(3, b"1.2.3").bytes(4, b"PASE");
    let mut mock = MockTransport::new();
    mock.queue_after_write(reply(field::DEVICE_INFORMATION, device))
        .queue_after_write(reply(field::SYSTEM_CONFIGURATION, Message::new()))
        .queue_after_write(reply(field::DEVICE_AUTHENTICATION, Message::new().bytes(1, b"token")));
    mock
}

fn seeded(mock: MockTransport) -> Session<MockTransport, FakeClock> {
    let mut session = Session::with_clock(mock, FakeClock::new());
    session.seed_track_ids(41);
    session
}

#[test]
fn a_session_start_writes_its_requests_in_order() {
    let mut mock = answering();
    let header = Message::new().uint(1, 1).uint(2, 41);
    let acknowledged = Message::new()
        .message(field::HEADER, &header)
        .message(field::ACKNOWLEDGEMENT, &Message::new());
    mock.queue_after_write(encode(acknowledged.as_bytes()).unwrap());
    let mut session = seeded(mock);
    let mut log = Logger::new();
    assert_eq!(establish(&mut session, &mut log), Ok(()));
    assert!(session.is_open());
    assert_eq!(
        log.take(),
        [
            "session started in 0 ms: PASE firmware 1.2.3",
            "activation trigger acknowledged",
            "ping sent; no reply within the window",
        ]
    );
    let expected: Vec<Vec<u8>> = [
        wire::device_information_query(),
        wire::system_configuration_query(),
        wire::device_authentication_query(),
        wire::activation_trigger(41),
        wire::keepalive_ping(),
    ]
    .iter()
    .map(|payload| encode(payload).unwrap())
    .collect();
    assert_eq!(session.into_transport().writes, expected);
}

#[test]
fn each_step_of_a_session_start_can_fail() {
    let mut log = Logger::new();
    let mut mock = MockTransport::new();
    mock.queue_write_result(Err(WriteError::Lost("gone".into())));
    assert_eq!(
        establish(&mut seeded(mock), &mut log),
        Err(StartError::Failed("session start failed: device lost: gone".into()))
    );
    assert_eq!(log.take(), Vec::<String>::new());

    let mut mock = answering();
    for _ in 0..3 {
        mock.queue_write_result(Ok(()));
    }
    mock.queue_write_result(Err(WriteError::TimedOut));
    let mut session = seeded(mock);
    let failed = establish(&mut session, &mut log).unwrap_err();
    assert!(failed.describe().starts_with("activation failed: "), "{failed:?}");
    assert!(!session.is_open());
    assert_eq!(log.take().len(), 1);

    let mut mock = answering();
    for _ in 0..4 {
        mock.queue_write_result(Ok(()));
    }
    mock.queue_write_result(Err(WriteError::TimedOut));
    let mut session = seeded(mock);
    assert_eq!(establish(&mut session, &mut log), Ok(()));
    assert!(session.is_open());
    assert!(log.take()[2].starts_with("ping did not transfer: "));

    let mut mock = answering();
    for _ in 0..4 {
        mock.queue_write_result(Ok(()));
    }
    mock.queue_write_result(Err(WriteError::Partial { written: 1 }));
    let mut session = seeded(mock);
    let failed = establish(&mut session, &mut log).unwrap_err();
    assert!(failed.describe().starts_with("ping failed: "), "{failed:?}");
    assert!(!session.is_open());
}

#[test]
fn an_interrupted_read_interrupts_the_start() {
    let mut mock = MockTransport::new();
    mock.queue_read_error(ReadError::Interrupted);
    let mut log = Logger::silent();
    assert_eq!(establish(&mut seeded(mock), &mut log), Err(StartError::Interrupted));
}

#[test]
fn discovery_maps_onto_the_supervisor_view() {
    assert_eq!(panel_of(Discovery::One("p".into())), Panel::One("p".into()));
    assert_eq!(panel_of(Discovery::Absent), Panel::Absent);
    assert_eq!(panel_of(Discovery::Several(vec!["a".into(), "b".into()])), Panel::Several(2));
}

#[test]
fn holding_without_a_session_reports_it_closed() {
    assert_eq!(
        hold_without_session(),
        Hold::Lost {
            pings: 0,
            error: SessionError::Closed
        }
    );
}

#[test]
fn a_hold_counts_and_logs() {
    let mut log = Logger::new();
    let mut hold = HoldLog::new(true);
    let ping = HoldEvent::Pinged { reply: OptionalReply::Nothing, drained: 2, gap: 0 };
    hold.note(&ping, &mut log);
    hold.note(&HoldEvent::Retrying { attempt: 1, error: SessionError::Timeout }, &mut log);
    hold.note(&HoldEvent::Stopped, &mut log);
    assert_eq!(
        log.take(),
        [
            "ping 1; 2 unasked frames drained so far",
            "ping retry 1 of 3: timed out waiting for the matching response",
        ]
    );
    let mut quiet = HoldLog::new(false);
    quiet.note(&ping, &mut log);
    assert_eq!(log.take(), Vec::<String>::new());
    assert_eq!(quiet.end(Ok(())), Hold::Stopped { pings: 1 });
    let interrupted = Err(SessionError::Read(ReadError::Interrupted));
    assert_eq!(quiet.end(interrupted), Hold::Stopped { pings: 1 });
    assert_eq!(
        quiet.end(Err(SessionError::Timeout)),
        Hold::Lost { pings: 1, error: SessionError::Timeout }
    );
}

#[test]
fn a_missing_kanali_does_not_start() {
    let mut log = Logger::new();
    assert!(!kanali_started(&KanaliStart::Missing, &mut log));
    assert!(!kanali_started(&KanaliStart::Failed("x".into()), &mut log));
    assert!(kanali_started(&KanaliStart::Started(7), &mut log));
    assert_eq!(
        log.take(),
        ["KANALI is not installed", "could not start KANALI: x", "started KANALI (process 7)"]
    );
}

#[test]
fn console_events_ask_for_a_stop() {
    let stops: Vec<u32> = (0..8).filter(|&kind| is_stop_event(kind)).collect();
    assert_eq!(stops, [0, 1, 2]);
}

#[test]
fn empty_device_strings_are_shown() {
    assert_eq!(show(""), "(empty)");
    assert_eq!(show(" "), " ");
}
