//! Starting programs and waiting for them.

use ezrama::launcher::{
    command_line, icon_source_path, kanali_candidates, processes_named, Handover, Look,
    HANDOVER_CHECKS, MAXIMUM_WAITED,
};

#[test]
fn launcher_icon_source_paths_lose_quotes_and_indices() {
    assert_eq!(icon_source_path(r"C:\P\KANALI.exe"), r"C:\P\KANALI.exe");
    assert_eq!(icon_source_path(r"C:\P\KANALI.exe,0"), r"C:\P\KANALI.exe");
    assert_eq!(icon_source_path(r"C:\P\KANALI.exe, -1"), r"C:\P\KANALI.exe");
    assert_eq!(icon_source_path(r#""C:\P q\KANALI.exe",0"#), r"C:\P q\KANALI.exe");
    assert_eq!(icon_source_path(r"C:\a,b\KANALI.exe"), r"C:\a,b\KANALI.exe");
    assert_eq!(icon_source_path("  "), "");
}

#[test]
fn only_an_index_is_cut_off() {
    assert_eq!(icon_source_path("a,+7"), "a");
    assert_eq!(icon_source_path("a,2147483647"), "a");
    assert_eq!(icon_source_path("a,2147483648"), "a,2147483648");
    assert_eq!(icon_source_path("a,-2147483648"), "a");
    assert_eq!(icon_source_path("a,-2147483649"), "a,-2147483649");
    assert_eq!(icon_source_path("a,"), "a,");
    assert_eq!(icon_source_path("a,-"), "a,-");
    assert_eq!(icon_source_path("a,1,2"), "a,1");
    assert_eq!(icon_source_path("\"a,0"), "a,0");
    assert_eq!(icon_source_path("\" a \" b"), "a");
    for text in ["0", "+0", "-0", "00012", "1 ", " 1", "1_0", "x", "--1", "99999999999999999999"] {
        let cut = icon_source_path(&format!("p,{text}")) == "p";
        assert_eq!(cut, text.trim().parse::<i32>().is_ok(), "{text}");
    }
}

#[test]
fn kanali_is_looked_for_in_order() {
    let icons = vec![None, Some(r#""C:\K\KANALI.exe",0"#.to_string())];
    let programs = Some(r"C:\Program Files".to_string());
    assert_eq!(
        kanali_candidates(&icons, &programs),
        [r"C:\K\KANALI.exe", r"C:\Program Files\KANALI\KANALI.exe"]
    );
    assert_eq!(kanali_candidates(&vec![None], &None), Vec::<String>::new());
}

#[test]
fn command_lines_quote_the_program_and_end_with_a_terminator() {
    let program: Vec<u16> = "C:\\a b.exe".encode_utf16().collect();
    let line = command_line(&program, "/c exit 0");
    assert_eq!(line.last(), Some(&0));
    assert_eq!(String::from_utf16(&line[..line.len() - 1]).unwrap(), "\"C:\\a b.exe\" /c exit 0");
}

#[test]
fn the_own_process_is_not_listed() {
    let listed = vec![
        (1, "kanali.EXE".to_string()),
        (2, "KANALI.exe".to_string()),
        (3, "other.exe".to_string()),
        (4, "KANALI.exe".to_string()),
    ];
    assert_eq!(processes_named(&listed, 2, "KANALI.exe"), [1, 4]);
    assert_eq!(processes_named(&listed, 9, "no-such-program-ezrama.exe"), Vec::<u32>::new());
}

#[test]
fn a_handover_gets_its_grace_once() {
    let mut handover = Handover::new();
    for _ in 0..HANDOVER_CHECKS {
        assert_eq!(handover.look(0), Look::Pause);
    }
    assert_eq!(handover.look(0), Look::Gone);

    let mut handover = Handover::new();
    assert_eq!(handover.look(0), Look::Pause);
    assert_eq!(handover.look(2), Look::Wait(2));
    assert_eq!(handover.look(1000), Look::Wait(MAXIMUM_WAITED));
    assert_eq!(handover.look(0), Look::Gone);
}
