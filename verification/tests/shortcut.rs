//! Start Menu shortcuts.

use ezrama::shortcut::{check, com_started, read, start_menu_path, Shortcut, SHORTCUT_FILE};
use ezrama::usbprint::WinError;

#[test]
fn the_start_menu_path_ends_with_the_entry() {
    let path = start_menu_path(r"C:\Users\me\AppData\Roaming");
    assert!(path.ends_with(&format!(r"Programs\{SHORTCUT_FILE}")));
    assert_eq!(
        path,
        r"C:\Users\me\AppData\Roaming\Microsoft\Windows\Start Menu\Programs\ezrama.lnk"
    );
}

#[test]
fn negative_results_are_failures() {
    assert_eq!(check("Save", 0), Ok(()));
    assert_eq!(check("Save", 1), Ok(()));
    assert_eq!(check("Save", -1), Err(WinError { call: "Save", code: 0xffff_ffff }));
    let access_denied = 0x8007_0005u32 as i32;
    assert_eq!(check("Save", access_denied), Err(WinError { call: "Save", code: 0x8007_0005 }));
    assert_eq!(com_started(0), Ok(true));
    assert_eq!(com_started(1), Ok(true));
    assert_eq!(com_started(0x8001_0106u32 as i32), Ok(false));
    assert_eq!(com_started(-1), Err(WinError { call: "CoInitializeEx", code: 0xffff_ffff }));
}

#[test]
fn shortcuts_are_read_up_to_the_terminator() {
    let target: Vec<u16> = "C:\\t.exe\0junk".encode_utf16().collect();
    let arguments: Vec<u16> = "watch --interval 4".encode_utf16().collect();
    assert_eq!(
        read(&target, &arguments),
        Shortcut { target: "C:\\t.exe".to_string(), arguments: "watch --interval 4".to_string() }
    );
}
