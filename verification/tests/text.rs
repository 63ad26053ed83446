//! Text helpers, held against the standard library.

use ezrama::text::{
    find_last, holds_ignoring_case, is_i32, is_white_space, join_all, number, same,
    same_ignoring_case, split, trim, trim_end, up_to,
};
use ezrama::time::{after, as_millis, as_secs, from_millis, from_secs, saturating_since, scale, shorter};

#[test]
fn white_space_is_that_of_the_standard_library() {
    for c in '\0'..=char::MAX {
        assert_eq!(is_white_space(c), c.is_whitespace(), "{:x}", c as u32);
    }
}

const SAMPLES: [&str; 9] = [
    "", " ", ";", "a", ";a;;b;", "  a b\t", "\u{a0}x\u{2003}", "a,b,\u{1f600},c", ";;;",
];

#[test]
fn trimming_and_splitting_follow_the_standard_library() {
    for text in SAMPLES {
        assert_eq!(trim(text), text.trim());
        assert_eq!(trim_end(text, ';', ';'), text.trim_end_matches(';'));
        assert_eq!(split(text, ';'), text.split(';').collect::<Vec<_>>());
        assert_eq!(up_to(text, ';'), text.split(';').next().unwrap());
        assert_eq!(join_all(&split(text, ';'), ";"), text);
        assert_eq!(same_ignoring_case(text, &text.to_ascii_uppercase()), true);
        for other in SAMPLES {
            assert_eq!(same(text, other), text == other);
            let (big, small) = (text.to_ascii_lowercase(), other.to_ascii_lowercase());
            assert_eq!(holds_ignoring_case(text, other), big.contains(&small), "{text:?} {other:?}");
        }
    }
    assert_eq!(trim_end("a\\/\\", '\\', '/'), "a");
    assert_eq!(find_last("a,b,\u{1f600},c", ','), Some(5));
    assert_eq!(find_last("abc", ','), None);
}

#[test]
fn numbers_are_written_and_recognised_in_decimal() {
    for n in [0u128, 7, 10, 99, 100, 1234567890, u64::MAX as u128, u128::MAX] {
        assert_eq!(number(n), n.to_string());
    }
    for text in ["", "+", "-", "0", "-0", "+5", "2147483647", "2147483648", "-2147483648", "-2147483649", "1a", " 1"] {
        assert_eq!(is_i32(text), text.parse::<i32>().is_ok(), "{text:?}");
    }
}

#[test]
fn spans_saturate() {
    assert_eq!(from_millis(1500), 1_500_000_000);
    assert_eq!(from_secs(2), 2_000_000_000);
    assert_eq!(as_millis(1_999_999), 1);
    assert_eq!(as_secs(1_999_999_999), 1);
    assert_eq!(saturating_since(5, 3), 2);
    assert_eq!(saturating_since(3, 5), 0);
    assert_eq!(after(3, 5), 8);
    assert_eq!(after(u128::MAX, 1), u128::MAX);
    assert_eq!(shorter(3, 5), 3);
    assert_eq!(scale(3, 5), 15);
    assert_eq!(scale(u128::MAX, 2), u128::MAX);
}
