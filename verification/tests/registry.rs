//! Registry values and statuses.

use ezrama::registry::{
    expand_environment, found, listed, listed_value, number_value, read_string, registry_string,
    string_value, succeeded, utf16_string, Root, Stored,
};
use ezrama::usbprint::WinError;
use ezrama::win::{REG_DWORD, REG_EXPAND_SZ, REG_SZ};

#[test]
fn utf16_strings_stop_at_the_terminator() {
    let mut bytes = Vec::new();
    for unit in "ab".encode_utf16() {
        bytes.extend_from_slice(&unit.to_le_bytes());
    }
    bytes.extend_from_slice(&[0, 0, b'z', 0]);
    assert_eq!(utf16_string(&bytes), "ab");
    assert_eq!(utf16_string(&[]), "");
}

#[test]
fn only_expandable_strings_ask_for_the_environment() {
    let bytes: Vec<u8> = "%SystemRoot%".encode_utf16().flat_map(u16::to_le_bytes).collect();
    let text = "%SystemRoot%".to_string();
    assert_eq!(registry_string(REG_EXPAND_SZ, &bytes), Stored::Expandable(text.clone()));
    assert_eq!(registry_string(REG_SZ, &bytes), Stored::Plain(text));
}

#[test]
fn expansion_falls_back_to_the_text() {
    let buffer: Vec<u16> = "C:\\Windows\0junk".encode_utf16().collect();
    let needed = 11;
    assert_eq!(expand_environment("%SystemRoot%", needed, needed, &buffer), "C:\\Windows");
    assert_eq!(expand_environment("plain", 0, 0, &[]), "plain");
    assert_eq!(expand_environment("plain", 6, 0, &[]), "plain");
    assert_eq!(expand_environment("plain", 6, 7, &buffer), "plain");
}

#[test]
fn values_are_written_as_they_are_read() {
    let (kind, bytes) = string_value("%SystemRoot%", REG_EXPAND_SZ);
    assert_eq!(kind, REG_EXPAND_SZ);
    assert_eq!(utf16_string(&bytes), "%SystemRoot%");
    assert_eq!(&bytes[bytes.len() - 2..], &[0, 0]);
    assert_eq!(string_value("a\u{1f600}", REG_SZ).1, [0x61, 0, 0x3d, 0xd8, 0x00, 0xde, 0, 0]);
    assert_eq!(number_value(7), (REG_DWORD, vec![7, 0, 0, 0]));
    assert_eq!(number_value(0x1234_5678).1, 0x1234_5678u32.to_le_bytes());
}

#[test]
fn only_string_values_read_as_strings() {
    assert_eq!(read_string(&None), None, "no value");
    assert_eq!(read_string(&Some(number_value(7))), None, "not a string");
    let path = string_value(r"C:\ezrama test\x", REG_SZ);
    assert_eq!(read_string(&Some(path)), Some(Stored::Plain(r"C:\ezrama test\x".to_string())));
    let expandable = string_value("%x%", REG_EXPAND_SZ);
    assert_eq!(read_string(&Some(expandable)), Some(Stored::Expandable("%x%".to_string())));
}

#[test]
fn statuses_tell_missing_from_failed() {
    let failed = WinError { call: "RegOpenKeyExW", code: 5 };
    assert_eq!(succeeded("RegOpenKeyExW", 0), Ok(()));
    assert_eq!(succeeded("RegOpenKeyExW", 5), Err(failed));
    assert_eq!(found("RegOpenKeyExW", 0), Ok(true));
    assert_eq!(found("RegOpenKeyExW", 2), Ok(false));
    assert_eq!(found("RegOpenKeyExW", 5), Err(failed));
    assert_eq!(listed("RegOpenKeyExW", 0), Ok(true));
    assert_eq!(listed("RegOpenKeyExW", 234), Ok(true));
    assert_eq!(listed("RegOpenKeyExW", 259), Ok(false));
    assert_eq!(listed("RegOpenKeyExW", 5), Err(failed));
}

#[test]
fn listed_values_hold_text_only_for_string_types() {
    let name: Vec<u16> = "plain\0\0".encode_utf16().collect();
    let (_, data) = string_value("one", REG_SZ);
    let value = listed_value(&name, 5, REG_SZ, &data, 1000);
    assert_eq!((value.name.as_str(), value.kind, value.text.as_str()), ("plain", REG_SZ, "one"));
    let value = listed_value(&name, 2, REG_DWORD, &data, 4);
    assert_eq!((value.name.as_str(), value.kind, value.text.as_str()), ("pl", REG_DWORD, ""));
    assert_eq!(listed_value(&name, 0, REG_SZ, &data, 2).text, "o");
    assert_ne!(Root::CurrentUser, Root::LocalMachine);
}

#[test]
fn lone_surrogates_are_replaced() {
    let bytes: Vec<u8> = [0xd834u16, 0xdd1e, 0x6d, 0xdd1e, 0xd834, 0xd834, 0xdd1e, 0xd834]
        .iter()
        .flat_map(|unit| unit.to_le_bytes())
        .collect();
    assert_eq!(
        utf16_string(&bytes),
        "\u{1d11e}m\u{fffd}\u{fffd}\u{1d11e}\u{fffd}"
    );
}
