use paper_plane::format::{
    format_duration, format_minutes, push_decimal, push_digits, push_two_digits,
};
use paper_plane::types::{same_text, CalendarDay};

#[test]
fn durations_below_an_hour_have_two_parts() {
    assert_eq!(format_duration(0), "0:00");
    assert_eq!(format_duration(7), "0:07");
    assert_eq!(format_duration(65), "1:05");
    assert_eq!(format_duration(3599), "59:59");
}

#[test]
fn durations_from_an_hour_on_have_three_parts() {
    assert_eq!(format_duration(3600), "1:00:00");
    assert_eq!(format_duration(3661), "1:01:01");
    assert_eq!(format_duration(100 * 3600 + 59), "100:00:59");
}

#[test]
fn voice_notes_have_two_digits_for_minutes() {
    assert_eq!(format_minutes(0), "00:00");
    assert_eq!(format_minutes(5), "00:05");
    assert_eq!(format_minutes(125), "02:05");
    assert_eq!(format_minutes(6000), "100:00");
}

#[test]
fn negative_durations_are_written_as_rust_writes_them() {
    let seconds: i32 = -5;
    assert_eq!(format_minutes(seconds), format!("{:02}:{:02}", seconds / 60, seconds % 60));
    let seconds: i32 = -125;
    assert_eq!(format_minutes(seconds), format!("{:02}:{:02}", seconds / 60, seconds % 60));
}

#[test]
fn numbers_are_written_in_decimal() {
    for value in [0i64, 9, 10, 12345, -1, -10, i64::MAX, i64::MIN] {
        let mut text = String::from("x");
        push_decimal(&mut text, value);
        assert_eq!(text, format!("x{value}"));
    }
    for value in [0u64, 7, 100, u64::MAX] {
        let mut text = String::new();
        push_digits(&mut text, value);
        assert_eq!(text, format!("{value}"));
    }
    for value in [0i64, 7, 10, 123, -3] {
        let mut text = String::new();
        push_two_digits(&mut text, value);
        assert_eq!(text, format!("{value:02}"));
    }
}

#[test]
fn texts_are_compared_by_their_characters() {
    assert!(same_text("Grüße", "Grüße"));
    assert!(!same_text("a", "A"));
    assert!(same_text("", ""));
}

#[test]
fn days_are_ordered() {
    let day = CalendarDay { year: 2024, month: 2, day: 29 };
    assert!(day.is_before(&CalendarDay { year: 2024, month: 3, day: 1 }));
    assert!(day.is_before(&CalendarDay { year: 2025, month: 1, day: 1 }));
    assert!(!day.is_before(&day));
    assert!(!day.is_before(&CalendarDay { year: 2024, month: 2, day: 28 }));
}
