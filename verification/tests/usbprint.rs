//! Discovery and open failures.

use ezrama::usbprint::{
    decode_detail_path, is_panorama_path, select_panorama, wide, Discovery, ListAction, ListEvent,
    Listing, OpenError, WinError,
};
use ezrama::win::DEVICE_INTERFACE_DETAIL_CB_SIZE;

fn detail_buffer(path: &str, trailing: &[u8]) -> Vec<u8> {
    let mut bytes = DEVICE_INTERFACE_DETAIL_CB_SIZE.to_le_bytes().to_vec();
    for unit in path.encode_utf16() {
        bytes.extend_from_slice(&unit.to_le_bytes());
    }
    bytes.extend_from_slice(&[0, 0]);
    bytes.extend_from_slice(trailing);
    bytes
}

#[test]
fn decodes_path_after_the_size_prefix() {
    let path = r"\\?\usb#vid_391a&pid_1021#9358baa5e4ed588d#{28d78fad-5a12-11d1-ae5b-0000f803a8c2}";
    let buffer = detail_buffer(path, b"junk after the terminator");
    assert_eq!(decode_detail_path(&buffer), path);
}

#[test]
fn decodes_empty_and_short_buffers() {
    assert_eq!(decode_detail_path(&[]), "");
    assert_eq!(decode_detail_path(&[8, 0, 0, 0]), "");
    assert_eq!(decode_detail_path(&[8, 0, 0, 0, b'a']), "");
}

#[test]
fn marker_match_is_case_insensitive() {
    assert!(is_panorama_path(r"\\?\USB#VID_391A&PID_1021#abc#{guid}"));
    assert!(is_panorama_path(r"\\?\usb#vid_391a&pid_1021#abc#{guid}"));
    assert!(!is_panorama_path(r"\\?\usb#vid_391a&pid_1011#abc#{guid}"));
    assert!(!is_panorama_path(r"\\?\usb#vid_04b8&pid_0005#printer#{guid}"));
}

#[test]
fn selection_distinguishes_none_one_and_several() {
    let other = r"\\?\usb#vid_04b8&pid_0005#printer#{guid}".to_string();
    let panel = r"\\?\usb#vid_391a&pid_1021#one#{guid}".to_string();
    let second = r"\\?\usb#vid_391a&pid_1021#two#{guid}".to_string();

    assert_eq!(select_panorama(vec![]), Discovery::Absent);
    assert_eq!(select_panorama(vec![other.clone()]), Discovery::Absent);
    assert_eq!(
        select_panorama(vec![other.clone(), panel.clone()]),
        Discovery::One(panel.clone())
    );
    assert_eq!(
        select_panorama(vec![panel.clone(), other, second.clone()]),
        Discovery::Several(vec![panel, second])
    );
}

fn error(code: u32) -> WinError {
    WinError {
        call: "CreateFileW",
        code,
    }
}

#[test]
fn open_errors_are_classified() {
    assert_eq!(OpenError::classify(error(5)), OpenError::Busy(error(5)));
    assert_eq!(OpenError::classify(error(32)), OpenError::Busy(error(32)));
    for code in [2, 3, 31, 1167] {
        assert_eq!(OpenError::classify(error(code)), OpenError::Gone(error(code)));
    }
    assert_eq!(OpenError::classify(error(87)), OpenError::Other(error(87)));
}

#[test]
fn wide_strings_are_nul_terminated() {
    assert_eq!(wide(""), [0]);
    assert_eq!(wide("ab"), [b'a' as u16, b'b' as u16, 0]);
    assert_eq!(wide("\u{1F600}").len(), 3);
}

#[test]
fn failures_say_the_call_the_code_and_the_message() {
    assert_eq!(error(87).describe(""), "CreateFileW failed with Windows error 87");
    assert_eq!(error(87).describe("bad"), "CreateFileW failed: bad (Windows error 87)");
    assert_eq!(
        OpenError::classify(error(5)).describe("no"),
        "another program holds the device (CreateFileW failed: no (Windows error 5))"
    );
    assert_eq!(
        OpenError::classify(error(2)).describe(""),
        "the device is not available (CreateFileW failed with Windows error 2)"
    );
    assert_eq!(OpenError::classify(error(87)).describe("bad"), error(87).describe("bad"));
    assert_eq!(OpenError::classify(error(5)).error(), error(5));
}

#[test]
fn paths_keep_characters_beyond_the_basic_plane() {
    let buffer = detail_buffer("\u{1f600}\u{e9}", &[]);
    assert_eq!(decode_detail_path(&buffer), "\u{1f600}\u{e9}");
}

#[test]
fn interfaces_are_listed_until_there_are_no_more() {
    let (action, mut listing) = Listing::start();
    assert_eq!(action, ListAction::Next(0));
    assert_eq!(listing.next(ListEvent::Found(true, 0)), ListAction::Measure);
    assert_eq!(listing.next(ListEvent::Measured(122, 13)), ListAction::Fetch(4));
    let detail = detail_buffer("one", &[]);
    assert_eq!(listing.next(ListEvent::Fetched(true, 0, detail)), ListAction::Next(1));
    assert_eq!(listing.next(ListEvent::Found(true, 0)), ListAction::Measure);
    assert_eq!(listing.next(ListEvent::Measured(122, 4)), ListAction::Fetch(2));
    let detail = detail_buffer("two", &[]);
    assert_eq!(listing.next(ListEvent::Fetched(true, 0, detail)), ListAction::Next(2));
    assert_eq!(
        listing.next(ListEvent::Found(false, 259)),
        ListAction::Finish(vec!["one".to_string(), "two".to_string()])
    );
}

#[test]
fn listing_ends_at_the_first_failure() {
    let failed = |call, code| ListAction::Fail(WinError { call, code });
    let (_, mut listing) = Listing::start();
    assert_eq!(listing.next(ListEvent::Found(false, 5)), failed("SetupDiEnumDeviceInterfaces", 5));
    assert_eq!(
        listing.next(ListEvent::Measured(0, 8)),
        failed("SetupDiGetDeviceInterfaceDetailW", 0)
    );
    assert_eq!(
        listing.next(ListEvent::Fetched(false, 6, Vec::new())),
        failed("SetupDiGetDeviceInterfaceDetailW", 6)
    );
}
