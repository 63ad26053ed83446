//! Requests and responses.

use ezrama::pb::{DecodeError, Message};
use ezrama::wire::{
    activation_trigger, device_authentication_query, device_information_query, field,
    keepalive_ping, parse_device_authentication, system_configuration_query,
    user_configuration_query, DeviceInformation, DisplayConfiguration, Header, LoopMode, MediaMode,
    PowerOnConfiguration, ProtocolError, Response, StandbyConfiguration, UserConfiguration,
    WorkConfiguration,
};

fn track(id: u64) -> u64 {
    id
}

#[test]
fn device_information_query_fixture() {
    assert_eq!(
        device_information_query(),
        [0x0a, 0x02, 0x08, 0x01, 0xa2, 0x06, 0x04, 0x0a, 0x02, b'N', b'A']
    );
}

#[test]
fn system_configuration_query_fixture() {
    assert_eq!(
        system_configuration_query(),
        [0x0a, 0x02, 0x08, 0x01, 0xb2, 0x06, 0x04, 0x0a, 0x02, b'N', b'A']
    );
}

#[test]
fn device_authentication_query_fixture() {
    assert_eq!(
        device_authentication_query(),
        [0x0a, 0x02, 0x08, 0x01, 0xaa, 0x06, 0x02, 0x08, 0x01]
    );
}

#[test]
fn keepalive_ping_fixture() {
    assert_eq!(
        keepalive_ping(),
        [0x0a, 0x00, 0x52, 0x08, 0x0a, 0x06, b'h', b'e', b'l', b'l', b'o', b'?']
    );
}

#[test]
fn activation_trigger_fixture() {
    assert_eq!(
        activation_trigger(track(1)),
        [0x0a, 0x04, 0x08, 0x01, 0x10, 0x01, 0xca, 0x0c, 0x00]
    );
    assert_eq!(
        activation_trigger(track(300)),
        [0x0a, 0x05, 0x08, 0x01, 0x10, 0xac, 0x02, 0xca, 0x0c, 0x00]
    );
}

#[test]
fn user_configuration_query_fixture() {
    assert_eq!(
        user_configuration_query(track(2)),
        [0x0a, 0x04, 0x08, 0x01, 0x10, 0x02, 0xc2, 0x06, 0x00]
    );
}

#[test]
fn requests_round_trip_through_the_response_view() {
    let request = activation_trigger(track(9));
    let view = Response::parse(&request).unwrap();
    assert_eq!(
        view.header,
        Some(Header {
            version: 1,
            track_id: 9,
            payload_crc32: 0
        })
    );
    assert_eq!(view.error, None);
    assert_eq!(view.body, None);
}

#[test]
fn response_with_every_part_and_unknown_fields() {
    let info = Message::new()
        .bytes(1, b"Linux")
        .bytes(2, b"5.10")
        .bytes(3, b"1.2.3")
        .bytes(4, b"PASE")
        .bytes(5, b"2.0")
        .bytes(6, b"gap")
        .uint(7, 42)
        .bytes(8, b"SN123")
        .uint(9, 1)
        .bytes(10, b"chip")
        .bytes(11, b"later");
    let payload = Message::new()
        .message(field::HEADER, &Message::new().uint(1, 1).uint(2, 7))
        .message(field::ERROR, &Message::new())
        .uint(3000, 5)
        .message(field::DEVICE_INFORMATION, &info)
        .into_bytes();

    let view = Response::parse(&payload).unwrap();
    assert_eq!(
        view.header,
        Some(Header {
            version: 1,
            track_id: 7,
            payload_crc32: 0
        })
    );
    assert_eq!(view.error, Some(ProtocolError::default()));
    assert_eq!(view.rejection(), None);
    assert_eq!(view.body_number(), Some(field::DEVICE_INFORMATION));

    let parsed = DeviceInformation::parse(view.body.unwrap().1).unwrap();
    assert_eq!(
        parsed,
        DeviceInformation {
            os_name: "Linux".into(),
            os_version: "5.10".into(),
            firmware_version: "1.2.3".into(),
            product_name: "PASE".into(),
            app_version: "2.0".into(),
            serial_number: "SN123".into(),
            serial_number_locked: true,
            chip_id: "chip".into(),
        }
    );
}

#[test]
fn missing_header_and_present_empty_header_are_distinct() {
    let without = Message::new()
        .message(field::PONG, &Message::new().bytes(1, b"hello?"))
        .into_bytes();
    let view = Response::parse(&without).unwrap();
    assert_eq!(view.header, None);
    assert_eq!(view.body_number(), Some(field::PONG));

    let with_empty = keepalive_ping();
    let view = Response::parse(&with_empty).unwrap();
    assert_eq!(view.header, Some(Header::default()));
}

#[test]
fn header_only_response_has_no_body() {
    let payload = Message::new()
        .message(field::HEADER, &Message::new().uint(1, 1).uint(2, 3))
        .into_bytes();
    let view = Response::parse(&payload).unwrap();
    assert_eq!(view.body, None);
    assert_eq!(view.body_number(), None);
}

#[test]
fn rejection_carries_code_and_reason() {
    let payload = Message::new()
        .message(field::HEADER, &Message::new().uint(1, 1).uint(2, 3))
        .message(
            field::ERROR,
            &Message::new().uint(1, 2).bytes(2, b"unsupported body"),
        )
        .into_bytes();
    let view = Response::parse(&payload).unwrap();
    let rejection = view.rejection().unwrap();
    assert_eq!(rejection.code, 2);
    assert_eq!(rejection.why, "unsupported body");
    assert!(!rejection.is_success());
}

#[test]
fn last_body_field_wins() {
    let payload = Message::new()
        .message(field::PONG, &Message::new())
        .message(field::ACKNOWLEDGEMENT, &Message::new())
        .into_bytes();
    let view = Response::parse(&payload).unwrap();
    assert_eq!(view.body_number(), Some(field::ACKNOWLEDGEMENT));
}

#[test]
fn malformed_response_is_an_error() {
    assert_eq!(Response::parse(&[0x0a, 0x09, 0x08]), Err(DecodeError::Truncated));
    let bad_header = [0x0a, 0x01, 0x80];
    assert_eq!(Response::parse(&bad_header), Err(DecodeError::Truncated));
}

#[test]
fn device_authentication_body() {
    let body = Message::new().bytes(1, b"token").uint(2, 1).into_bytes();
    assert_eq!(parse_device_authentication(&body).unwrap(), "token");
    assert_eq!(parse_device_authentication(&[]).unwrap(), "");
}

#[test]
fn user_configuration_sections() {
    let work = Message::new()
        .uint(2, 1)
        .bytes(3, b"wall.mp4")
        .bytes(4, b"left.mp4")
        .bytes(5, b"right.mp4")
        .bytes(6, b"k.mp4")
        .uint(7, 1);
    let display = Message::new()
        .uint(1, 1)
        .uint(2, 75)
        .uint(4, 90)
        .uint(5, 180);
    let body = Message::new()
        .message(1, &Message::new().bytes(1, b"boot.mp4"))
        .message(2, &Message::new().uint(1, 1).bytes(2, b"idle.mp4"))
        .message(3, &work)
        .message(4, &Message::new().uint(1, 1))
        .message(5, &display)
        .bytes(9, b"future")
        .into_bytes();

    let config = UserConfiguration::parse(&body).unwrap();
    assert_eq!(
        config.poweron,
        Some(PowerOnConfiguration {
            media_file: "boot.mp4".into()
        })
    );
    assert_eq!(
        config.standby,
        Some(StandbyConfiguration {
            enable: true,
            media_file: "idle.mp4".into()
        })
    );
    assert_eq!(
        config.work,
        Some(WorkConfiguration {
            media_mode: MediaMode::Single,
            loop_mode: LoopMode::All,
            single_mode_media_file: "wall.mp4".into(),
            dual_mode_left_media_file: "left.mp4".into(),
            dual_mode_right_media_file: "right.mp4".into(),
            kaleidoscope_media_file: "k.mp4".into(),
            kaleidoscope_source: 1,
        })
    );
    assert_eq!(
        config.display,
        Some(DisplayConfiguration {
            backlight_enable: true,
            backlight_brightness: 75,
            mirror: false,
            ui_rotation: 90,
            media_rotation: 180,
        })
    );
}

#[test]
fn user_configuration_absent_sections_stay_none() {
    let body = Message::new().message(5, &Message::new()).into_bytes();
    let config = UserConfiguration::parse(&body).unwrap();
    assert_eq!(config.poweron, None);
    assert_eq!(config.standby, None);
    assert_eq!(config.work, None);
    assert_eq!(config.display, Some(DisplayConfiguration::default()));
    assert_eq!(UserConfiguration::parse(&[]).unwrap(), UserConfiguration::default());
}

#[test]
fn enum_mapping() {
    assert_eq!(MediaMode::from(0), MediaMode::Single);
    assert_eq!(MediaMode::from(1), MediaMode::Dual);
    assert_eq!(MediaMode::from(2), MediaMode::Kaleidoscope);
    assert_eq!(MediaMode::from(9), MediaMode::Unknown(9));
    assert_eq!(LoopMode::from(0), LoopMode::Single);
    assert_eq!(LoopMode::from(1), LoopMode::All);
    assert_eq!(LoopMode::from(2), LoopMode::Random);
    assert_eq!(LoopMode::from(9), LoopMode::Unknown(9));
}

#[test]
fn text_fields_tolerate_invalid_utf8() {
    let body = Message::new().bytes(4, b"PA\xffSE").into_bytes();
    let info = DeviceInformation::parse(&body).unwrap();
    assert_eq!(info.product_name, "PA\u{fffd}SE");
}

#[test]
fn text_fields_keep_characters_beyond_ascii() {
    let body = Message::new().bytes(4, "Pänorama \u{1f4a7}".as_bytes()).into_bytes();
    let info = DeviceInformation::parse(&body).unwrap();
    assert_eq!(info.product_name, "Pänorama \u{1f4a7}");
}

#[test]
fn tracked_requests_carry_their_track_id() {
    for id in [1, 127, 128, u64::MAX] {
        for request in [activation_trigger(id), user_configuration_query(id)] {
            let view = Response::parse(&request).unwrap();
            assert_eq!(view.header, Some(Header { version: 1, track_id: id, payload_crc32: 0 }));
        }
    }
}
