use visen::duration::{decimal_string, is_readable_duration};
use visen::{seconds_to_human_shorthand_duration, word_count_to_seconds};

#[test]
fn shorthand_of_zero_is_empty() {
    assert_eq!(seconds_to_human_shorthand_duration(0), "");
}

#[test]
fn shorthand_of_hour_minute_second() {
    assert_eq!(seconds_to_human_shorthand_duration(3661), "1h 1m 1s");
}

#[test]
fn shorthand_of_minute_and_a_half() {
    assert_eq!(seconds_to_human_shorthand_duration(90), "1m 30s");
}

#[test]
fn shorthand_skips_zero_components() {
    assert_eq!(seconds_to_human_shorthand_duration(3600), "1h");
    assert_eq!(seconds_to_human_shorthand_duration(3605), "1h 5s");
    assert_eq!(seconds_to_human_shorthand_duration(59), "59s");
    assert_eq!(seconds_to_human_shorthand_duration(120), "2m");
}

#[test]
fn shorthand_of_many_hours() {
    assert_eq!(seconds_to_human_shorthand_duration(36000 + 600 + 10), "10h 10m 10s");
    assert_eq!(
        seconds_to_human_shorthand_duration(u64::MAX),
        "5124095576030431h 15s"
    );
}

#[test]
fn ten_words_take_twenty_five_seconds() {
    assert_eq!(word_count_to_seconds(10), 25);
}

#[test]
fn words_to_seconds_rounds_halves_up() {
    assert_eq!(word_count_to_seconds(0), 0);
    assert_eq!(word_count_to_seconds(1), 3);
    assert_eq!(word_count_to_seconds(3), 8);
    assert_eq!(word_count_to_seconds(4), 10);
}

#[test]
fn words_to_seconds_saturates() {
    assert_eq!(word_count_to_seconds(u64::MAX), u64::MAX);
    assert_eq!(word_count_to_seconds(u64::MAX / 5 * 2), u64::MAX / 5 * 5);
}

#[test]
fn decimal_forms() {
    assert_eq!(decimal_string(0), "0");
    assert_eq!(decimal_string(7), "7");
    assert_eq!(decimal_string(1090), "1090");
    assert_eq!(decimal_string(u64::MAX), "18446744073709551615");
}

#[test]
fn readable_duration_bounds_values() {
    assert!(is_readable_duration(""));
    assert!(is_readable_duration("1h 30m"));
    assert!(is_readable_duration("12h 30m 15s 250ms 500us"));
    assert!(is_readable_duration("100000000000s"));
    assert!(is_readable_duration("584542046089y"));
    assert!(!is_readable_duration("584542046090y"));
    assert!(!is_readable_duration("18446744073709551615s 1000ms"));
    assert!(!is_readable_duration("5 8 4 5 4 2 0 4 6 0 9 0 s"));
    assert!(is_readable_duration("292271023044y 292271023044y"));
    assert!(!is_readable_duration("292271023045y 292271023044y"));
}
