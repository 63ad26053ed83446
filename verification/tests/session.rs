//! Sessions over a scripted transport and a clock that only moves with pauses.

use ezrama::frame::{encode, FrameError, MAX_RESYNC_BYTES};
use ezrama::pb::{DecodeError, Message};
use ezrama::session::testing::FakeClock;
use ezrama::session::{
    KeepaliveOutcome, OptionalReply, Session, SessionError, SkipBudget, MAX_SKIPPED_BYTES,
    MAX_SKIPPED_FRAMES,
};
use ezrama::time::{from_millis, Instant};
use ezrama::transport::{MockTransport, ReadError, WriteError};
use ezrama::wire::{self, field, ProtocolError};

fn soon() -> Instant {
    from_millis(200)
}

fn session(mock: MockTransport) -> Session<MockTransport, FakeClock> {
    Session::new(mock)
}

#[test]
fn frame_split_across_three_reads() {
    let frame = encode(b"payload").unwrap();
    let mut mock = MockTransport::new();
    mock.queue_read(frame[..3].to_vec())
        .queue_read(frame[3..9].to_vec())
        .queue_read(frame[9..].to_vec());
    let mut session = session(mock);
    let mut discarded = 0;
    assert_eq!(
        session.read_frame(soon(), &mut discarded),
        Ok(Some(b"payload".to_vec()))
    );
    assert_eq!(discarded, 0);
    assert!(session.is_open());
}

#[test]
fn two_frames_in_one_read_are_returned_in_order() {
    let mut bytes = encode(b"first").unwrap();
    bytes.extend(encode(b"second").unwrap());
    let mut mock = MockTransport::new();
    mock.queue_read(bytes);
    let mut session = session(mock);
    let mut discarded = 0;
    assert_eq!(
        session.read_frame(soon(), &mut discarded),
        Ok(Some(b"first".to_vec()))
    );
    assert_eq!(
        session.read_frame(soon(), &mut discarded),
        Ok(Some(b"second".to_vec()))
    );
    assert_eq!(session.into_transport().pending_reads(), 0);
}

#[test]
fn garbage_before_a_frame_is_discarded_and_counted() {
    let mut bytes = b"stale tail".to_vec();
    bytes.extend(encode(b"ok").unwrap());
    let mut mock = MockTransport::new();
    mock.queue_read(bytes);
    let mut session = session(mock);
    let mut discarded = 0;
    assert_eq!(
        session.read_frame(soon(), &mut discarded),
        Ok(Some(b"ok".to_vec()))
    );
    assert_eq!(discarded, 10);
    assert!(session.is_open());
}

#[test]
fn deadline_without_a_frame_returns_none_and_keeps_partial_bytes() {
    let frame = encode(b"late").unwrap();
    let mut mock = MockTransport::new();
    mock.queue_read(frame[..5].to_vec()).queue_timeout();
    let mut session = session(mock);
    let mut discarded = 0;
    assert_eq!(session.read_frame(soon(), &mut discarded), Ok(None));
    assert!(session.is_open());
    assert_eq!(session.decoder.buffered(), 5);

    session.transport.queue_read(frame[5..].to_vec());
    assert_eq!(
        session.read_frame(soon(), &mut discarded),
        Ok(Some(b"late".to_vec()))
    );
}

#[test]
fn exhausted_resync_closes_the_session() {
    let mut mock = MockTransport::new();
    mock.queue_read(vec![0u8; MAX_RESYNC_BYTES + 1]);
    let mut session = session(mock);
    let mut discarded = 0;
    assert_eq!(
        session.read_frame(soon(), &mut discarded),
        Err(SessionError::Frame(FrameError::ResyncExhausted))
    );
    assert!(!session.is_open());
    assert_eq!(
        session.closed_by(),
        Some(&SessionError::Frame(FrameError::ResyncExhausted))
    );
    assert_eq!(
        session.read_frame(soon(), &mut discarded),
        Err(SessionError::Closed)
    );
    assert_eq!(
        session.write_bytes(b"x", from_millis(10)),
        Err(SessionError::Closed)
    );
    assert_eq!(session.bootstrap(), Err(SessionError::Closed));
}

#[test]
fn lost_transport_closes_the_session() {
    let mut mock = MockTransport::new();
    mock.queue_read_error(ReadError::Lost("gone".into()));
    let mut session = session(mock);
    let mut discarded = 0;
    assert_eq!(
        session.read_frame(soon(), &mut discarded),
        Err(SessionError::Read(ReadError::Lost("gone".into())))
    );
    assert!(!session.is_open());
}

#[test]
fn write_passes_bytes_through_and_classifies_failures() {
    let mut mock = MockTransport::new();
    mock.queue_write_result(Ok(()))
        .queue_write_result(Err(WriteError::TimedOut))
        .queue_write_result(Err(WriteError::Partial { written: 2 }))
        .queue_write_result(Err(WriteError::Unknown));
    let mut session = session(mock);
    let timeout = from_millis(10);
    assert_eq!(session.write_bytes(b"a", timeout), Ok(()));
    assert_eq!(
        session.write_bytes(b"b", timeout),
        Err(SessionError::Write(WriteError::TimedOut))
    );
    assert!(session.is_open());
    assert_eq!(
        session.write_bytes(b"c", timeout),
        Err(SessionError::Write(WriteError::Partial { written: 2 }))
    );
    assert!(session.is_open());
    assert_eq!(
        session.write_bytes(b"d", timeout),
        Err(SessionError::Write(WriteError::Unknown))
    );
    assert!(!session.is_open());
    let mock = session.into_transport();
    assert_eq!(mock.writes, vec![b"a".to_vec(), b"b".to_vec(), b"c".to_vec(), b"d".to_vec()]);
}

#[test]
fn write_on_a_lost_transport_closes_the_session() {
    let mut mock = MockTransport::new();
    mock.queue_write_result(Err(WriteError::Lost("unplugged".into())));
    let mut session = session(mock);
    assert_eq!(
        session.write_bytes(b"a", from_millis(10)),
        Err(SessionError::Write(WriteError::Lost("unplugged".into())))
    );
    assert!(!session.is_open());
}

#[test]
fn drain_collects_complete_frames_and_drops_the_partial_tail() {
    let mut bytes = encode(b"one").unwrap();
    bytes.extend(encode(b"two").unwrap());
    bytes.extend(&encode(b"three").unwrap()[..6]);
    let mut mock = MockTransport::new();
    mock.queue_read(bytes).queue_timeout();
    let mut session = session(mock);
    let drained = session.drain_queued().unwrap();
    assert_eq!(drained, vec![b"one".to_vec(), b"two".to_vec()]);
    assert!(session.is_open());
    assert_eq!(session.decoder.buffered(), 0);
}

#[test]
fn drain_with_nothing_queued_is_empty() {
    let mut session = session(MockTransport::new());
    assert_eq!(session.drain_queued(), Ok(Vec::new()));
    assert!(session.is_open());
}

#[test]
fn drain_does_not_wait_for_a_pending_reply() {
    let mut mock = MockTransport::new();
    mock.queue_after_write(encode(b"reply").unwrap());
    let mut session = session(mock);
    assert_eq!(session.drain_queued(), Ok(Vec::new()));
    assert_eq!(session.into_transport().pending_reads(), 2);
}

#[test]
fn drain_beyond_the_skip_budget_closes_the_session() {
    let one = encode(b"x").unwrap();
    let mut bytes = Vec::new();
    for _ in 0..=MAX_SKIPPED_FRAMES {
        bytes.extend(&one);
    }
    let mut mock = MockTransport::new();
    mock.queue_read(bytes);
    let mut session = session(mock);
    assert_eq!(session.drain_queued(), Err(SessionError::TooManySkipped));
    assert!(!session.is_open());
}

#[test]
fn skip_budget_limits_frames_and_bytes() {
    let mut budget = SkipBudget::default();
    for _ in 0..MAX_SKIPPED_FRAMES {
        assert!(budget.skip(0));
    }
    assert!(!budget.skip(0));

    let mut budget = SkipBudget::default();
    assert!(budget.skip(MAX_SKIPPED_BYTES - 8));
    assert!(!budget.skip(0));
}

fn bootstrap_session(mock: MockTransport) -> Session<MockTransport, FakeClock> {
    Session::with_clock(mock, FakeClock::new())
}

fn response(header: Option<Message>, error: Option<Message>, body: Option<(u32, Message)>) -> Vec<u8> {
    let mut message = Message::new();
    if let Some(header) = header {
        message = message.message(field::HEADER, &header);
    }
    if let Some(error) = error {
        message = message.message(field::ERROR, &error);
    }
    if let Some((number, body)) = body {
        message = message.message(number, &body);
    }
    encode(message.as_bytes()).unwrap()
}

fn bootstrap_header() -> Message {
    Message::new().uint(1, 1)
}

fn device_info_body() -> Message {
    Message::new()
        .bytes(1, b"Linux")
        .bytes(3, b"1.2.3")
        .bytes(4, b"PASE")
        .bytes(8, b"SN42")
}

fn device_info_response() -> Vec<u8> {
    response(
        Some(bootstrap_header()),
        None,
        Some((field::DEVICE_INFORMATION, device_info_body())),
    )
}

fn system_configuration_response() -> Vec<u8> {
    response(
        Some(bootstrap_header()),
        None,
        Some((field::SYSTEM_CONFIGURATION, Message::new())),
    )
}

fn auth_response() -> Vec<u8> {
    response(
        Some(bootstrap_header()),
        None,
        Some((field::DEVICE_AUTHENTICATION, Message::new().bytes(1, b"token"))),
    )
}

fn queue_remaining_exchanges(mock: &mut MockTransport) {
    mock.queue_after_write(system_configuration_response())
        .queue_after_write(auth_response());
}

fn expected_writes() -> Vec<Vec<u8>> {
    vec![
        encode(&wire::device_information_query()).unwrap(),
        encode(&wire::system_configuration_query()).unwrap(),
        encode(&wire::device_authentication_query()).unwrap(),
    ]
}

#[test]
fn bootstrap_happy_path() {
    let mut mock = MockTransport::new();
    mock.queue_after_write(device_info_response());
    queue_remaining_exchanges(&mut mock);
    let mut session = bootstrap_session(mock);

    let bootstrap = session.bootstrap().unwrap();
    assert_eq!(bootstrap.device.os_name, "Linux");
    assert_eq!(bootstrap.device.firmware_version, "1.2.3");
    assert_eq!(bootstrap.device.product_name, "PASE");
    assert_eq!(bootstrap.device.serial_number, "SN42");
    assert_eq!(bootstrap.auth, "token");
    assert_eq!(bootstrap.readiness_attempts, 1);
    assert!(session.is_open());
    assert_eq!(session.clock.sleeps_ms(), Vec::<u128>::new());
    let mock = session.into_transport();
    assert_eq!(mock.writes, expected_writes());
    assert_eq!(mock.pending_reads(), 0);
}

#[test]
fn bootstrap_drains_stale_frames_before_the_first_probe() {
    let stale = response(
        Some(Message::new().uint(1, 1).uint(2, 77)),
        None,
        Some((field::ACKNOWLEDGEMENT, Message::new())),
    );
    let mut mock = MockTransport::new();
    mock.queue_read(stale).queue_after_write(device_info_response());
    queue_remaining_exchanges(&mut mock);
    let mut session = bootstrap_session(mock);
    assert!(session.bootstrap().is_ok());
}

#[test]
fn bootstrap_skips_stale_tracked_responses() {
    let stale = response(
        Some(Message::new().uint(1, 1).uint(2, 9)),
        None,
        Some((field::DEVICE_INFORMATION, device_info_body())),
    );
    let mut mock = MockTransport::new();
    mock.queue_after_write(stale).queue_read(device_info_response());
    queue_remaining_exchanges(&mut mock);
    let mut session = bootstrap_session(mock);
    assert_eq!(session.bootstrap().unwrap().readiness_attempts, 1);
}

#[test]
fn bootstrap_skips_headerless_pong_and_events() {
    let pong = response(None, None, Some((field::PONG, Message::new().bytes(1, b"hello?"))));
    let event = response(None, None, Some((field::ASYNCHRONOUS_EVENT, Message::new().uint(1, 1))));
    let mut mock = MockTransport::new();
    mock.queue_after_write(pong)
        .queue_read(event)
        .queue_read(device_info_response());
    queue_remaining_exchanges(&mut mock);
    let mut session = bootstrap_session(mock);
    assert!(session.bootstrap().is_ok());
}

#[test]
fn bootstrap_rejects_unexpected_headers() {
    let wrong_version = response(
        Some(Message::new().uint(1, 2)),
        None,
        Some((field::DEVICE_INFORMATION, device_info_body())),
    );
    let mut mock = MockTransport::new();
    mock.queue_after_write(wrong_version);
    let mut session = bootstrap_session(mock);
    assert_eq!(session.bootstrap(), Err(SessionError::UnexpectedHeader));
    assert!(!session.is_open());

    let missing = response(None, None, Some((field::DEVICE_INFORMATION, device_info_body())));
    let mut mock = MockTransport::new();
    mock.queue_after_write(missing);
    let mut session = bootstrap_session(mock);
    assert_eq!(session.bootstrap(), Err(SessionError::UnexpectedHeader));
}

#[test]
fn bootstrap_fails_on_a_device_error() {
    let rejected = response(
        Some(bootstrap_header()),
        Some(Message::new().uint(1, 1).bytes(2, b"busy")),
        Some((field::DEVICE_INFORMATION, device_info_body())),
    );
    let mut mock = MockTransport::new();
    mock.queue_after_write(rejected);
    let mut session = bootstrap_session(mock);
    assert_eq!(
        session.bootstrap(),
        Err(SessionError::Rejected(ProtocolError {
            code: 1,
            why: "busy".into()
        }))
    );
    assert!(!session.is_open());
}

#[test]
fn bootstrap_fails_on_the_wrong_body() {
    let mut mock = MockTransport::new();
    mock.queue_after_write(system_configuration_response());
    let mut session = bootstrap_session(mock);
    assert_eq!(
        session.bootstrap(),
        Err(SessionError::UnexpectedBody {
            expected: field::DEVICE_INFORMATION,
            actual: Some(field::SYSTEM_CONFIGURATION)
        })
    );

    let header_only = response(Some(bootstrap_header()), None, None);
    let mut mock = MockTransport::new();
    mock.queue_after_write(header_only);
    let mut session = bootstrap_session(mock);
    assert_eq!(
        session.bootstrap(),
        Err(SessionError::UnexpectedBody {
            expected: field::DEVICE_INFORMATION,
            actual: None
        })
    );
}

#[test]
fn bootstrap_fails_on_a_malformed_response() {
    let mut mock = MockTransport::new();
    mock.queue_after_write(encode(&[0x0a, 0x09, 0x08]).unwrap());
    let mut session = bootstrap_session(mock);
    assert_eq!(
        session.bootstrap(),
        Err(SessionError::Decode(DecodeError::Truncated))
    );
    assert!(!session.is_open());
}

#[test]
fn bootstrap_retries_only_zero_byte_writes_with_backoff() {
    let mut mock = MockTransport::new();
    mock.queue_write_result(Err(WriteError::TimedOut))
        .queue_write_result(Err(WriteError::TimedOut))
        .queue_write_result(Ok(()));
    mock.queue_wait_for_write()
        .queue_wait_for_write()
        .queue_after_write(device_info_response());
    queue_remaining_exchanges(&mut mock);
    let mut session = bootstrap_session(mock);

    let bootstrap = session.bootstrap().unwrap();
    assert_eq!(bootstrap.readiness_attempts, 3);
    assert_eq!(session.clock.sleeps_ms(), [500, 1000]);
    let mock = session.into_transport();
    assert_eq!(mock.writes.len(), 5);
    assert_eq!(mock.writes[0], mock.writes[2]);
}

#[test]
fn bootstrap_backoff_caps_at_two_seconds() {
    let mut mock = MockTransport::new();
    for _ in 0..4 {
        mock.queue_write_result(Err(WriteError::TimedOut));
        mock.queue_wait_for_write();
    }
    mock.queue_write_result(Ok(()));
    mock.queue_after_write(device_info_response());
    queue_remaining_exchanges(&mut mock);
    let mut session = bootstrap_session(mock);

    assert_eq!(session.bootstrap().unwrap().readiness_attempts, 5);
    assert_eq!(session.clock.sleeps_ms(), [500, 1000, 2000, 2000]);
}

#[test]
fn bootstrap_partial_write_is_terminal() {
    let mut mock = MockTransport::new();
    mock.queue_write_result(Err(WriteError::Partial { written: 3 }));
    let mut session = bootstrap_session(mock);
    assert_eq!(
        session.bootstrap(),
        Err(SessionError::Write(WriteError::Partial { written: 3 }))
    );
    assert!(!session.is_open());
    assert_eq!(session.clock.sleeps_ms(), Vec::<u128>::new());
    assert_eq!(session.into_transport().writes.len(), 1);
}

#[test]
fn bootstrap_gives_up_at_the_readiness_deadline() {
    let mut mock = MockTransport::new();
    for _ in 0..20 {
        mock.queue_write_result(Err(WriteError::TimedOut));
    }
    let mut session = bootstrap_session(mock);
    assert_eq!(
        session.bootstrap(),
        Err(SessionError::NotReady { attempts: 12 })
    );
    assert!(!session.is_open());
    let sleeps = session.clock.sleeps_ms();
    assert_eq!(sleeps.len(), 12);
    assert_eq!(&sleeps[..3], [500, 1000, 2000]);
    assert_eq!(sleeps[11], 500);
    assert_eq!(sleeps.iter().sum::<u128>(), 20_000);
    assert_eq!(session.into_transport().writes.len(), 12);
}

#[test]
fn bootstrap_does_not_resend_after_a_complete_write_without_reply() {
    let mut mock = MockTransport::new();
    mock.queue_wait_for_write();
    let mut session = bootstrap_session(mock);
    assert_eq!(session.bootstrap(), Err(SessionError::Timeout));
    assert!(!session.is_open());
    assert_eq!(session.clock.sleeps_ms(), Vec::<u128>::new());
    assert_eq!(session.into_transport().writes.len(), 1);
}

#[test]
fn later_exchanges_are_sent_once_and_any_write_failure_is_terminal() {
    let mut mock = MockTransport::new();
    mock.queue_write_result(Ok(()))
        .queue_write_result(Err(WriteError::TimedOut));
    mock.queue_after_write(device_info_response())
        .queue_after_write(system_configuration_response());
    let mut session = bootstrap_session(mock);
    assert_eq!(
        session.bootstrap(),
        Err(SessionError::Write(WriteError::TimedOut))
    );
    assert!(!session.is_open());
    assert_eq!(session.clock.sleeps_ms(), Vec::<u128>::new());
    assert_eq!(session.into_transport().writes.len(), 2);
}

#[test]
fn later_exchange_wrong_body_is_terminal() {
    let mut mock = MockTransport::new();
    mock.queue_after_write(device_info_response())
        .queue_after_write(auth_response());
    let mut session = bootstrap_session(mock);
    assert_eq!(
        session.bootstrap(),
        Err(SessionError::UnexpectedBody {
            expected: field::SYSTEM_CONFIGURATION,
            actual: Some(field::DEVICE_AUTHENTICATION)
        })
    );
}

#[test]
fn bootstrap_stops_after_too_many_stale_frames() {
    let stale = response(
        Some(Message::new().uint(1, 1).uint(2, 5)),
        None,
        Some((field::PONG, Message::new())),
    );
    let mut bytes = Vec::new();
    for _ in 0..=MAX_SKIPPED_FRAMES {
        bytes.extend(&stale);
    }
    let mut mock = MockTransport::new();
    mock.queue_after_write(bytes);
    let mut session = bootstrap_session(mock);
    assert_eq!(session.bootstrap(), Err(SessionError::TooManySkipped));
    assert!(!session.is_open());
}

fn tracked_header(track: u64) -> Message {
    Message::new().uint(1, 1).uint(2, track)
}

fn config_body() -> Message {
    let work = Message::new().uint(2, 1).bytes(3, b"wall.mp4");
    let display = Message::new().uint(1, 1).uint(2, 75);
    Message::new()
        .message(1, &Message::new().bytes(1, b"boot.mp4"))
        .message(2, &Message::new().uint(1, 1).bytes(2, b"idle.mp4"))
        .message(3, &work)
        .message(5, &display)
}

fn config_response(track: u64) -> Vec<u8> {
    response(
        Some(tracked_header(track)),
        None,
        Some((field::USER_CONFIGURATION, config_body())),
    )
}

fn tracked_session(mock: MockTransport, seed: u64) -> Session<MockTransport, FakeClock> {
    let mut session = bootstrap_session(mock);
    session.seed_track_ids(seed);
    session
}

#[test]
fn track_ids_increment_and_skip_zero() {
    let mut session = tracked_session(MockTransport::new(), u64::MAX - 1);
    assert_eq!(session.allocate_track(), u64::MAX - 1);
    assert_eq!(session.allocate_track(), u64::MAX);
    assert_eq!(session.allocate_track(), 1);
    assert_eq!(session.allocate_track(), 2);
    session.seed_track_ids(0);
    assert_eq!(session.allocate_track(), 1);
}

#[test]
fn track_ids_start_from_a_random_non_zero_seed() {
    let first = session(MockTransport::new()).allocate_track();
    let second = session(MockTransport::new()).allocate_track();
    assert_ne!(first, 0);
    assert_ne!(first, second);
}

#[test]
fn query_returns_the_configuration_and_writes_the_tracked_request() {
    let mut mock = MockTransport::new();
    mock.queue_after_write(config_response(41));
    let mut session = tracked_session(mock, 41);

    let config = session.query_user_configuration().unwrap();
    assert_eq!(config.work.as_ref().unwrap().single_mode_media_file, "wall.mp4");
    assert_eq!(config.display.as_ref().unwrap().backlight_brightness, 75);
    assert_eq!(config.standby.as_ref().unwrap().media_file, "idle.mp4");
    assert!(session.is_open());
    assert_eq!(session.clock.sleeps_ms(), Vec::<u128>::new());
    let mock = session.into_transport();
    assert_eq!(
        mock.writes,
        vec![encode(&wire::user_configuration_query(41)).unwrap()]
    );
}

#[test]
fn execute_drains_stale_frames_before_writing() {
    let stale = config_response(40);
    let mut mock = MockTransport::new();
    mock.queue_read(stale).queue_after_write(config_response(41));
    let mut session = tracked_session(mock, 41);
    assert!(session.query_user_configuration().is_ok());
}

#[test]
fn execute_skips_other_tracks_pongs_and_events() {
    let other_track = config_response(99);
    let pong = response(None, None, Some((field::PONG, Message::new().bytes(1, b"hello?"))));
    let event = response(
        Some(tracked_header(41)),
        None,
        Some((field::ASYNCHRONOUS_EVENT, Message::new().uint(1, 1))),
    );
    let mut mock = MockTransport::new();
    mock.queue_after_write(other_track)
        .queue_read(pong)
        .queue_read(event)
        .queue_read(config_response(41));
    let mut session = tracked_session(mock, 41);
    assert!(session.query_user_configuration().is_ok());
    assert!(session.is_open());
}

#[test]
fn execute_rejects_a_headerless_response() {
    let missing = response(None, None, Some((field::USER_CONFIGURATION, config_body())));
    let mut mock = MockTransport::new();
    mock.queue_after_write(missing);
    let mut session = tracked_session(mock, 41);
    assert_eq!(session.query_user_configuration(), Err(SessionError::UnexpectedHeader));
    assert!(!session.is_open());
}

#[test]
fn execute_returns_a_device_error_without_closing() {
    let rejected = response(
        Some(tracked_header(41)),
        Some(Message::new().uint(1, 2).bytes(2, b"unsupported")),
        None,
    );
    let mut mock = MockTransport::new();
    mock.queue_after_write(rejected);
    let mut session = tracked_session(mock, 41);
    assert_eq!(
        session.query_user_configuration(),
        Err(SessionError::Rejected(ProtocolError {
            code: 2,
            why: "unsupported".into()
        }))
    );
    assert!(session.is_open());
    assert_eq!(session.clock.sleeps_ms(), Vec::<u128>::new());
}

#[test]
fn execute_closes_on_the_wrong_body() {
    let wrong = response(
        Some(tracked_header(41)),
        None,
        Some((field::ACKNOWLEDGEMENT, Message::new())),
    );
    let mut mock = MockTransport::new();
    mock.queue_after_write(wrong);
    let mut session = tracked_session(mock, 41);
    assert_eq!(
        session.query_user_configuration(),
        Err(SessionError::UnexpectedBody {
            expected: field::USER_CONFIGURATION,
            actual: Some(field::ACKNOWLEDGEMENT)
        })
    );
    assert!(!session.is_open());
}

#[test]
fn execute_closes_on_a_malformed_response() {
    let mut mock = MockTransport::new();
    mock.queue_after_write(encode(&[0x0a, 0x09, 0x08]).unwrap());
    let mut session = tracked_session(mock, 41);
    assert_eq!(
        session.query_user_configuration(),
        Err(SessionError::Decode(DecodeError::Truncated))
    );
    assert!(!session.is_open());
}

#[test]
fn query_retries_once_after_a_clean_timeout() {
    let mut mock = MockTransport::new();
    mock.queue_wait_for_write().queue_after_write(config_response(42));
    let mut session = tracked_session(mock, 41);

    assert!(session.query_user_configuration().is_ok());
    assert!(session.is_open());
    assert_eq!(session.clock.sleeps_ms(), [250]);
    let mock = session.into_transport();
    assert_eq!(mock.writes.len(), 2);
    assert_eq!(
        mock.writes[0],
        encode(&wire::user_configuration_query(41)).unwrap()
    );
    assert_eq!(
        mock.writes[1],
        encode(&wire::user_configuration_query(42)).unwrap()
    );
}

#[test]
fn query_gives_up_after_the_second_clean_timeout() {
    let mut mock = MockTransport::new();
    mock.queue_wait_for_write().queue_wait_for_write();
    let mut session = tracked_session(mock, 41);
    assert_eq!(session.query_user_configuration(), Err(SessionError::Timeout));
    assert!(!session.is_open());
    assert_eq!(session.clock.sleeps_ms(), [250]);
    assert_eq!(session.into_transport().writes.len(), 2);
}

#[test]
fn a_partial_frame_at_the_deadline_is_not_retried() {
    let partial = config_response(41)[..5].to_vec();
    let mut mock = MockTransport::new();
    mock.queue_after_write(partial);
    let mut session = tracked_session(mock, 41);
    assert_eq!(
        session.query_user_configuration(),
        Err(SessionError::IncompleteResponse)
    );
    assert!(!session.is_open());
    assert_eq!(session.clock.sleeps_ms(), Vec::<u128>::new());
    assert_eq!(session.into_transport().writes.len(), 1);
}

#[test]
fn a_tracked_write_failure_closes_without_retry() {
    let mut mock = MockTransport::new();
    mock.queue_write_result(Err(WriteError::TimedOut));
    let mut session = tracked_session(mock, 41);
    assert_eq!(
        session.query_user_configuration(),
        Err(SessionError::Write(WriteError::TimedOut))
    );
    assert!(!session.is_open());
    assert_eq!(session.clock.sleeps_ms(), Vec::<u128>::new());
    assert_eq!(session.into_transport().writes.len(), 1);
}

#[test]
fn execute_stops_after_too_many_unrelated_tracks() {
    let unrelated = config_response(7);
    let mut bytes = Vec::new();
    for _ in 0..=MAX_SKIPPED_FRAMES {
        bytes.extend(&unrelated);
    }
    let mut mock = MockTransport::new();
    mock.queue_after_write(bytes);
    let mut session = tracked_session(mock, 41);
    assert_eq!(session.query_user_configuration(), Err(SessionError::TooManySkipped));
    assert!(!session.is_open());
}

#[test]
fn execute_on_a_closed_session_is_refused() {
    let mut mock = MockTransport::new();
    mock.queue_write_result(Err(WriteError::Unknown));
    let mut session = tracked_session(mock, 41);
    assert!(session.query_user_configuration().is_err());
    assert_eq!(session.query_user_configuration(), Err(SessionError::Closed));
}

fn trigger_frame(track: u64) -> Vec<u8> {
    encode(&wire::activation_trigger(track)).unwrap()
}

fn acknowledgement(track: u64) -> Vec<u8> {
    response(
        Some(tracked_header(track)),
        None,
        Some((field::ACKNOWLEDGEMENT, Message::new())),
    )
}

#[test]
fn activate_writes_the_trigger_and_takes_the_acknowledgement() {
    let mut mock = MockTransport::new();
    mock.queue_after_write(acknowledgement(41));
    let mut session = tracked_session(mock, 41);
    assert_eq!(session.activate(), Ok(OptionalReply::Acknowledged));
    assert!(session.is_open());
    let mock = session.into_transport();
    assert_eq!(mock.writes, vec![trigger_frame(41)]);
    assert_eq!(mock.pending_reads(), 0);
}

#[test]
fn activate_accepts_no_reply() {
    let mut mock = MockTransport::new();
    mock.queue_wait_for_write();
    let mut session = tracked_session(mock, 41);
    assert_eq!(session.activate(), Ok(OptionalReply::Nothing));
    assert!(session.is_open());
}

#[test]
fn activate_consumes_one_unrelated_frame() {
    let pong = response(None, None, Some((field::PONG, Message::new().bytes(1, b"hello?"))));
    let mut mock = MockTransport::new();
    mock.queue_after_write(pong).queue_read(acknowledgement(41));
    let mut session = tracked_session(mock, 41);
    assert_eq!(session.activate(), Ok(OptionalReply::Drained));
    assert!(session.is_open());
    assert_eq!(session.into_transport().pending_reads(), 1);
}

#[test]
fn activate_discards_a_partial_frame_at_the_deadline() {
    let partial = acknowledgement(41)[..5].to_vec();
    let mut mock = MockTransport::new();
    mock.queue_after_write(partial);
    let mut session = tracked_session(mock, 41);
    assert_eq!(session.activate(), Ok(OptionalReply::Nothing));
    assert!(session.is_open());
    assert_eq!(session.decoder.buffered(), 0);
}

#[test]
fn activate_treats_a_malformed_reply_as_drained() {
    let mut mock = MockTransport::new();
    mock.queue_after_write(encode(&[0x0a, 0x09, 0x08]).unwrap());
    let mut session = tracked_session(mock, 41);
    assert_eq!(session.activate(), Ok(OptionalReply::Drained));
    assert!(session.is_open());
}

#[test]
fn activate_closes_on_a_matching_rejection() {
    let rejected = response(
        Some(tracked_header(41)),
        Some(Message::new().uint(1, 1).bytes(2, b"no")),
        None,
    );
    let mut mock = MockTransport::new();
    mock.queue_after_write(rejected);
    let mut session = tracked_session(mock, 41);
    assert_eq!(
        session.activate(),
        Err(SessionError::Rejected(ProtocolError {
            code: 1,
            why: "no".into()
        }))
    );
    assert!(!session.is_open());
}

#[test]
fn activate_closes_on_an_unrelated_error_frame() {
    let rejected = response(
        Some(tracked_header(9)),
        Some(Message::new().uint(1, 2)),
        Some((field::ACKNOWLEDGEMENT, Message::new())),
    );
    let mut mock = MockTransport::new();
    mock.queue_after_write(rejected);
    let mut session = tracked_session(mock, 41);
    assert!(matches!(session.activate(), Err(SessionError::Rejected(_))));
    assert!(!session.is_open());
}

#[test]
fn activate_closes_on_a_write_failure() {
    let mut mock = MockTransport::new();
    mock.queue_write_result(Err(WriteError::TimedOut));
    let mut session = tracked_session(mock, 41);
    assert_eq!(
        session.activate(),
        Err(SessionError::Write(WriteError::TimedOut))
    );
    assert!(!session.is_open());
}

#[test]
fn ping_writes_the_keepalive_and_accepts_silence() {
    let mut mock = MockTransport::new();
    mock.queue_wait_for_write();
    let mut session = tracked_session(mock, 41);
    assert_eq!(session.ping(), KeepaliveOutcome::Sent(OptionalReply::Nothing));
    assert!(session.is_open());
    let mock = session.into_transport();
    assert_eq!(mock.writes, vec![encode(&wire::keepalive_ping()).unwrap()]);
}

#[test]
fn ping_consumes_an_optional_pong() {
    let pong = response(None, None, Some((field::PONG, Message::new().bytes(1, b"hello?"))));
    let mut mock = MockTransport::new();
    mock.queue_after_write(pong);
    let mut session = tracked_session(mock, 41);
    assert_eq!(session.ping(), KeepaliveOutcome::Sent(OptionalReply::Drained));
    assert!(session.is_open());
}

#[test]
fn ping_zero_byte_timeout_is_retryable_and_keeps_the_session() {
    let mut mock = MockTransport::new();
    mock.queue_write_result(Err(WriteError::TimedOut));
    let mut session = tracked_session(mock, 41);
    assert_eq!(
        session.ping(),
        KeepaliveOutcome::Retryable(SessionError::Write(WriteError::TimedOut))
    );
    assert!(session.is_open());
    assert_eq!(session.ping(), KeepaliveOutcome::Sent(OptionalReply::Nothing));
}

#[test]
fn ping_partial_write_is_fatal() {
    let mut mock = MockTransport::new();
    mock.queue_write_result(Err(WriteError::Partial { written: 4 }));
    let mut session = tracked_session(mock, 41);
    assert_eq!(
        session.ping(),
        KeepaliveOutcome::Fatal(SessionError::Write(WriteError::Partial { written: 4 }))
    );
    assert!(!session.is_open());
    assert_eq!(session.ping(), KeepaliveOutcome::Fatal(SessionError::Closed));
}

#[test]
fn ping_error_frame_is_fatal() {
    let rejected = response(None, Some(Message::new().uint(1, 1)), None);
    let mut mock = MockTransport::new();
    mock.queue_after_write(rejected);
    let mut session = tracked_session(mock, 41);
    assert!(matches!(session.ping(), KeepaliveOutcome::Fatal(SessionError::Rejected(_))));
    assert!(!session.is_open());
}
