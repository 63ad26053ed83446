//! The notification-area icon.

use ezrama::icon::{opaque, Image};
use ezrama::tray::{
    bitmap_side, chosen_item, icon_image, icon_source_path, item_flags, program_icon,
    small_icon_size, tip_units, Notice, ShowStep, TrayIcon, TIP_UNITS,
};

#[test]
fn tray_icon_source_paths_lose_quotes_and_indices() {
    assert_eq!(icon_source_path(r"C:\P\KANALI.exe"), r"C:\P\KANALI.exe");
    assert_eq!(icon_source_path(r"C:\P\KANALI.exe,0"), r"C:\P\KANALI.exe");
    assert_eq!(icon_source_path(r"C:\P\KANALI.exe, -1"), r"C:\P\KANALI.exe");
    assert_eq!(icon_source_path(r#""C:\P q\KANALI.exe",0"#), r"C:\P q\KANALI.exe");
    assert_eq!(icon_source_path(r"C:\a,b\KANALI.exe"), r"C:\a,b\KANALI.exe");
    assert_eq!(icon_source_path("  "), "");
}

#[test]
fn small_icons_have_a_fallback_size() {
    assert_eq!(small_icon_size(20), 20);
    assert_eq!(small_icon_size(0), 16);
    assert_eq!(small_icon_size(-1), 16);
}

#[test]
fn only_square_bitmaps_are_read() {
    assert_eq!(bitmap_side(1, 16, 16), Some(16));
    assert_eq!(bitmap_side(1, 16, -16), Some(16));
    assert_eq!(bitmap_side(0, 16, 16), None);
    assert_eq!(bitmap_side(1, 16, 32), None);
    assert_eq!(bitmap_side(1, 0, 0), None);
    assert_eq!(bitmap_side(1, i32::MAX, i32::MIN), None);
}

#[test]
fn an_icon_without_alpha_takes_it_from_its_mask() {
    let color = || Image::from_pixels(2, vec![0x0001_0203; 4]).unwrap();
    let mask = Image::from_pixels(2, vec![0, 0x00ff_ffff, 0, 0]).unwrap();
    assert_eq!(
        icon_image(color(), Some(mask)).pixels,
        [opaque(1, 2, 3), 0, opaque(1, 2, 3), opaque(1, 2, 3)]
    );
    assert_eq!(icon_image(color(), Some(Image::blank(1))).pixels, [opaque(1, 2, 3); 4]);
    assert_eq!(icon_image(color(), None).pixels, [opaque(1, 2, 3); 4]);
    let with_alpha = Image::from_pixels(1, vec![0x8040_2010]).unwrap();
    assert_eq!(icon_image(with_alpha.clone(), None), with_alpha);
}

#[test]
fn the_smallest_rendering_that_is_large_enough_is_taken() {
    assert_eq!(program_icon(&[16, 32], 10), Some(0));
    assert_eq!(program_icon(&[16, 32], 17), Some(1));
    assert_eq!(program_icon(&[16, 32], 4096), Some(1));
    assert_eq!(program_icon(&[32, 16], 4096), Some(0));
    assert_eq!(program_icon(&[32, 16, 20], 17), Some(2));
    assert_eq!(program_icon(&[16, 16], 4), Some(0));
    assert_eq!(program_icon(&[16, 16], 99), Some(1));
    assert_eq!(program_icon(&[], 16), None);
}

#[test]
fn tooltips_are_cut_to_their_room() {
    let units = tip_units("ab");
    assert_eq!(units.len(), TIP_UNITS);
    assert_eq!(units[..3], [b'a' as u16, b'b' as u16, 0]);
    let long = tip_units(&"x".repeat(500));
    assert_eq!(long.len(), TIP_UNITS);
    assert!(long[..TIP_UNITS - 1].iter().all(|&unit| unit == b'x' as u16));
    assert_eq!(long[TIP_UNITS - 1], 0);
}

/// Shows an entry on a shell that takes only some notices.
fn shown(entry: &mut TrayIcon, takes: &[Notice]) -> (bool, Vec<Notice>) {
    let mut notices = Vec::new();
    let mut step = entry.show();
    loop {
        match step {
            ShowStep::Finished(there) => return (there, notices),
            ShowStep::Notify(notice) => {
                notices.push(notice);
                step = entry.notified(notice, takes.contains(&notice));
            }
        }
    }
}

#[test]
fn a_failed_add_is_followed_by_a_modify() {
    let mut entry = TrayIcon::new();
    assert_eq!(entry.set_tip(), None);
    assert_eq!(shown(&mut entry, &[]), (false, vec![Notice::Add, Notice::Modify]));
    assert!(!entry.shown);
    assert_eq!(
        shown(&mut entry, &[Notice::Modify, Notice::SetVersion]),
        (true, vec![Notice::Add, Notice::Modify, Notice::SetVersion])
    );
    assert!(entry.shown);
    assert_eq!(entry.set_tip(), Some(Notice::Modify));
    assert_eq!(
        shown(&mut entry, &[Notice::Add]),
        (false, vec![Notice::Delete, Notice::Add, Notice::SetVersion])
    );
    assert!(entry.shown);
    assert_eq!(Notice::Add.code(), 0);
    assert_eq!(Notice::SetVersion.code(), 4);
}

#[test]
fn the_menu_reports_positive_choices() {
    assert_eq!(chosen_item(3), Some(3));
    assert_eq!(chosen_item(0), None);
    assert_eq!(chosen_item(-1), None);
    assert_ne!(item_flags(true), item_flags(false));
}
