//! Log lines and rotation.

use ezrama::log::{format_line, is_printed, should_rotate, timestamp, LocalTime, Logger, MAX_LOG_BYTES};

#[test]
fn rotation_threshold() {
    assert!(!should_rotate(0));
    assert!(!should_rotate(MAX_LOG_BYTES - 1));
    assert!(should_rotate(MAX_LOG_BYTES));
}

#[test]
fn line_format() {
    assert_eq!(format_line("t", "hello"), "t hello\n");
}

#[test]
fn timestamp_has_a_stable_shape() {
    let stamp = timestamp(LocalTime {
        year: 2024,
        month: 3,
        day: 9,
        hour: 7,
        minute: 5,
        second: 59,
    });
    assert!(!stamp.is_empty());
    assert!(stamp.chars().all(|c| c.is_ascii_digit() || " -:".contains(c)));
}

#[test]
fn timestamps_are_padded_to_a_fixed_width() {
    let stamp = timestamp(LocalTime { year: 2024, month: 3, day: 9, hour: 7, minute: 5, second: 59 });
    assert_eq!(stamp, "2024-03-09 07:05:59");
    let stamp = timestamp(LocalTime { year: 33, month: 12, day: 31, hour: 23, minute: 0, second: 0 });
    assert_eq!(stamp, "0033-12-31 23:00:00");
}

#[test]
fn a_log_keeps_its_lines_until_they_are_taken() {
    let mut log = Logger::new();
    log.log("one");
    log.log("two");
    assert_eq!(log.take(), ["one", "two"]);
    assert_eq!(log.take(), Vec::<String>::new());
    let mut silent = Logger::silent();
    silent.log("lost");
    assert_eq!(silent.take(), Vec::<String>::new());
}

#[test]
fn lines_without_a_file_are_printed() {
    assert!(is_printed(true, true));
    assert!(is_printed(false, true));
    assert!(is_printed(false, false));
    assert!(!is_printed(true, false));
}
