//! Installing: the windowless copy, the entries, and the search path.

use ezrama::install::{
    edit_user_path, file_in, install_dir, is_kanali_entry, kanali_run_entries, path_with,
    path_without, run_command, same_directory, set_startup, startup_disabled, uninstall_entry_for,
    uninstall_key, uninstall_values, user_path_has, windowless_image, PathChange, PathEdit,
    RunEntry, StartupChange, UninstallEntry, WATCHER_BINARY,
};
use ezrama::registry::{read_string, string_value, utf16_string, Stored};
use ezrama::win::{REG_DWORD, REG_EXPAND_SZ, REG_SZ};

/// A minimal 64-bit image: DOS stub, PE signature, COFF header, and an
/// optional header with the console subsystem and a checksum.
fn console_image() -> Vec<u8> {
    let header = 128usize;
    let mut image = vec![0u8; header + 4 + 20 + 240];
    image[..2].copy_from_slice(b"MZ");
    image[60..64].copy_from_slice(&(header as u32).to_le_bytes());
    image[header..header + 4].copy_from_slice(b"PE\0\0");
    let optional = header + 24;
    image[optional..optional + 2].copy_from_slice(&0x20bu16.to_le_bytes());
    image[optional + 64..optional + 68].copy_from_slice(&0xdead_beefu32.to_le_bytes());
    image[optional + 68..optional + 70].copy_from_slice(&3u16.to_le_bytes());
    image
}

#[test]
fn run_command_quotes_the_path() {
    let command = run_command(r"C:\Users\me\AppData\Local\ezrama\ezramaw.exe");
    assert_eq!(command, r#""C:\Users\me\AppData\Local\ezrama\ezramaw.exe" watch"#);
}

#[test]
fn a_console_image_becomes_windowless_by_two_fields() {
    let image = console_image();
    let windowless = windowless_image(&image).unwrap();
    assert_eq!(windowless.len(), image.len());
    let optional = 128 + 24;
    assert_eq!(&windowless[optional + 68..optional + 70], &2u16.to_le_bytes());
    assert_eq!(&windowless[optional + 64..optional + 68], &0u32.to_le_bytes());
    let differing = windowless.iter().zip(&image).filter(|(a, b)| a != b).count();
    assert_eq!(differing, 5, "only the subsystem byte and the four checksum bytes change");
    assert!(windowless_image(b"MZ").is_err());
    assert!(windowless_image(b"not an image at all, but long enough to read a header from").is_err());
    let mut wrong_magic = image.clone();
    wrong_magic[optional..optional + 2].copy_from_slice(&0x10bu16.to_le_bytes());
    assert_eq!(windowless_image(&wrong_magic), Err("not a 64-bit executable".to_string()));
}

#[test]
fn search_path_edits_are_case_blind_and_separator_tolerant() {
    assert_eq!(path_with("", r"C:\a"), Some(r"C:\a".to_string()));
    assert_eq!(path_with(r"C:\x;", r"C:\a"), Some(r"C:\x;C:\a".to_string()));
    assert_eq!(path_with(r"C:\x;c:\A\", r"C:\a"), None);
    assert_eq!(path_with(r"%SystemRoot%;C:\x", r"C:\a"), Some(r"%SystemRoot%;C:\x;C:\a".to_string()));
    assert_eq!(path_without(r"C:\x;C:\a;C:\y", r"c:\a\"), Some(r"C:\x;C:\y".to_string()));
    assert_eq!(path_without(r"C:\a", r"C:\a"), Some(String::new()));
    assert_eq!(path_without(r"C:\x;;C:\y", r"C:\a"), None);
    assert_eq!(path_without("", r"C:\a"), None);
}

#[test]
fn install_dir_is_under_local_app_data() {
    let dir = install_dir(r"C:\Users\me\AppData\Local");
    assert!(dir.ends_with("ezrama"));
    assert_eq!(dir, r"C:\Users\me\AppData\Local\ezrama");
}

#[test]
fn separators_are_not_doubled() {
    assert_eq!(file_in(r"C:\a", "b"), r"C:\a\b");
    assert_eq!(file_in(r"C:\", "b"), r"C:\b");
    assert_eq!(file_in("a/", "b"), "a/b");
    assert_eq!(file_in("", "b"), "b");
}

#[test]
fn every_fault_of_an_image_is_named() {
    let fault = |image: &[u8]| windowless_image(image).unwrap_err();
    assert_eq!(fault(b""), "not a Windows executable");
    assert_eq!(fault(b"ZM"), "not a Windows executable");
    assert_eq!(fault(b"MZ"), "the image is too short");
    let mut image = console_image();
    image[128] = b'Q';
    assert_eq!(fault(&image), "no executable header");
    image = console_image();
    image[60..64].copy_from_slice(&u32::MAX.to_le_bytes());
    assert_eq!(fault(&image), "no executable header");
    image = console_image();
    image.truncate(128 + 25);
    assert_eq!(fault(&image), "the image is too short");
    image = console_image();
    image.truncate(128 + 24 + 69);
    assert_eq!(fault(&image), "the image is too short");
}

#[test]
fn a_windowless_image_stays_as_it_is() {
    let windowless = windowless_image(&console_image()).unwrap();
    assert_eq!(windowless_image(&windowless), Ok(windowless));
}

/// Applies a change to a stored search path value.
fn applied(raw: &mut Option<(u32, Vec<u8>)>, change: PathChange) -> bool {
    match change {
        PathChange::Nothing => false,
        PathChange::Delete => {
            *raw = None;
            true
        }
        PathChange::Write(value) => {
            *raw = Some(value);
            true
        }
    }
}

#[test]
fn a_search_path_value_round_trips_with_its_type_unexpanded() {
    let mut value = None;
    let change = edit_user_path(&value, PathEdit::Add, r"%SystemRoot%\x");
    assert!(applied(&mut value, change));
    let (kind, bytes) = value.clone().unwrap();
    assert_eq!(kind, REG_EXPAND_SZ);
    assert_eq!(utf16_string(&bytes), r"%SystemRoot%\x");
    let text = r"C:\ezrama-test\bin";
    let change = edit_user_path(&value, PathEdit::Add, text);
    assert!(applied(&mut value, change));
    let change = edit_user_path(&value, PathEdit::Add, text);
    assert!(!applied(&mut value, change));
    assert!(user_path_has(&value, text));
    assert_eq!(utf16_string(&value.clone().unwrap().1), format!(r"%SystemRoot%\x;{text}"));
    let change = edit_user_path(&value, PathEdit::Remove, text);
    assert!(applied(&mut value, change));
    assert!(!user_path_has(&value, text));
    assert_eq!(utf16_string(&value.clone().unwrap().1), r"%SystemRoot%\x");
    let change = edit_user_path(&value, PathEdit::Remove, r"%SystemRoot%\x");
    assert!(applied(&mut value, change));
    assert_eq!(value, None, "an emptied value is deleted");
}

#[test]
fn a_plain_search_path_stays_plain() {
    let value = Some(string_value("C:\\x", REG_SZ));
    match edit_user_path(&value, PathEdit::Add, "C:\\a") {
        PathChange::Write((kind, bytes)) => {
            assert_eq!(kind, REG_SZ);
            assert_eq!(utf16_string(&bytes), "C:\\x;C:\\a");
        }
        other => panic!("{other:?}"),
    }
}

#[test]
fn directories_match_whatever_the_case_spaces_and_separators() {
    assert!(!same_directory(" C:\\A\\ ", "c:/a"));
    assert!(same_directory(" C:\\A\\ ", "c:\\a/"));
    assert!(same_directory("\u{2003}x\u{a0}", "X"));
    assert!(!same_directory("C:\\a", "C:\\ab"));
}

#[test]
fn a_logon_entry_toggles_on_and_off() {
    let directory = r"C:\ezrama";
    assert_eq!(set_startup(false, directory, &None), StartupChange::Delete);
    let command = match set_startup(true, directory, &None) {
        StartupChange::Write(command) => command,
        other => panic!("{other:?}"),
    };
    assert!(command.ends_with(&format!("{WATCHER_BINARY}\" watch")));
    assert_eq!(set_startup(true, directory, &Some(command.clone())), StartupChange::Nothing, "already set");
    assert_eq!(set_startup(true, directory, &Some("x".to_string())), StartupChange::Write(command.clone()));
    assert_eq!(set_startup(false, directory, &Some(command)), StartupChange::Delete);
}

#[test]
fn an_installed_apps_entry_holds_what_settings_needs() {
    let entry = UninstallEntry {
        display_name: "ezrama test".to_string(),
        version: "0.0.0".to_string(),
        icon: r"C:\ezrama-test\ezrama.ico".to_string(),
        location: r"C:\ezrama-test".to_string(),
        uninstall_command: r#""C:\ezrama-test\ezrama.exe" uninstall"#.to_string(),
        size_kb: 840,
    };
    let values = uninstall_values(&entry);
    let text = |name: &str| {
        let (_, raw) = values.iter().find(|(key, _)| *key == name).unwrap();
        match read_string(&Some(raw.clone())) {
            Some(Stored::Plain(text)) => text,
            other => panic!("{other:?}"),
        }
    };
    assert_eq!(text("DisplayName"), "ezrama test");
    assert_eq!(text("DisplayVersion"), "0.0.0");
    assert_eq!(text("DisplayIcon"), r"C:\ezrama-test\ezrama.ico");
    assert_eq!(text("InstallLocation"), r"C:\ezrama-test");
    assert_eq!(text("UninstallString"), entry.uninstall_command);
    assert_eq!(values[7], ("EstimatedSize", (REG_DWORD, 840u32.to_le_bytes().to_vec())));
    assert_eq!(
        uninstall_key("ezrama"),
        r"Software\Microsoft\Windows\CurrentVersion\Uninstall\ezrama"
    );
}

#[test]
fn the_entry_for_a_directory_names_its_files() {
    let entry = uninstall_entry_for(r"C:\ezrama-test", "ezrama", "0.0.0", &[]);
    assert_eq!(entry.icon, r"C:\ezrama-test\ezrama.ico");
    assert_eq!(entry.uninstall_command, r#""C:\ezrama-test\ezrama.exe" uninstall"#);
    assert_eq!(entry.size_kb, 0, "nothing is there");
    let entry = uninstall_entry_for(r"C:\ezrama-test", "ezrama", "0.0.0", &[1024, 1, 1023]);
    assert_eq!(entry.size_kb, 2);
    let entry = uninstall_entry_for(r"C:\ezrama-test", "ezrama", "0.0.0", &[1025]);
    assert_eq!(entry.size_kb, 2);
}

#[test]
fn startup_approval_of_an_unknown_entry_is_enabled() {
    assert!(!startup_disabled(&None));
    assert!(!startup_disabled(&Some((3, vec![]))));
    assert!(!startup_disabled(&Some((3, vec![2, 0, 0]))));
    assert!(startup_disabled(&Some((3, vec![3, 0, 0]))));
}

#[test]
fn enabled_kanali_entries_are_listed_in_order() {
    let entry = |name: &str, command: &str| RunEntry {
        name: name.to_string(),
        command: command.to_string(),
    };
    assert!(is_kanali_entry(&entry("K", r"C:\KaNaLi.exe")));
    assert!(!is_kanali_entry(&entry("ezrama", r"C:\kanali.exe")));
    assert!(!is_kanali_entry(&entry("other", "x")));
    let found = vec![
        (entry("a", "kanali one"), None),
        (entry("b", "kanali two"), Some((3, vec![1]))),
        (entry("ezrama", "kanali"), None),
        (entry("c", "KANALI three"), Some((3, vec![2]))),
        (entry("d", "something else"), None),
    ];
    let names: Vec<String> = kanali_run_entries(&found).into_iter().map(|entry| entry.name).collect();
    assert_eq!(names, ["a", "c"]);
}
