use crock::utils::{format_time, parse_time};

#[test]
fn parses_minutes_written_as_min() {
    assert_eq!(parse_time("25min"), 1_500_000);
}

#[test]
fn parses_minutes_written_as_m() {
    assert_eq!(parse_time("25m"), 1_500_000);
}

#[test]
fn parses_hours_and_minutes_with_a_space() {
    assert_eq!(parse_time("1h 30m"), 5_400_000);
}

#[test]
fn parses_seconds() {
    assert_eq!(parse_time("45s"), 45_000);
}

#[test]
fn parses_fractional_hours() {
    assert_eq!(parse_time("1.5h"), 5_400_000);
}

#[test]
fn parses_any_letter_case() {
    assert_eq!(parse_time("1H30MIN"), 5_400_000);
    assert_eq!(parse_time("2S"), 2_000);
}

#[test]
fn parses_a_fraction_without_whole_part() {
    assert_eq!(parse_time(".5s"), 500);
}

#[test]
fn parses_all_three_components() {
    assert_eq!(parse_time("1h 30m 15s"), 5_415_000);
    assert_eq!(parse_time("1h30min15.5s"), 5_415_500);
}

#[test]
fn rounds_down_below_a_millisecond() {
    assert_eq!(parse_time("0.0001s"), 0);
    assert_eq!(parse_time("0.00001h"), 36);
}

#[test]
fn rounding_stays_within_a_millisecond() {
    assert_eq!(parse_time("0.0015s"), 1);
    assert_eq!(parse_time("0.9999s"), 999);
}

#[test]
fn numbers_with_other_unicode_digits_count_zero_but_are_read_past() {
    assert_eq!(parse_time("\u{663}h5s"), 5_000);
    assert_eq!(parse_time("1\u{663}min2s"), 2_000);
}

#[test]
fn non_durations_read_as_zero() {
    assert_eq!(parse_time(""), 0);
    assert_eq!(parse_time("abc"), 0);
    assert_eq!(parse_time("5.h"), 0);
    assert_eq!(parse_time("  5s"), 0);
}

#[test]
fn reading_stops_at_the_first_stray_character() {
    assert_eq!(parse_time("1h30"), 3_600_000);
    assert_eq!(parse_time("5ms"), 300_000);
    assert_eq!(parse_time("2h x 5s"), 7_200_000);
}

#[test]
fn components_out_of_order_are_not_read() {
    assert_eq!(parse_time("5s 1h"), 5_000);
}

#[test]
fn huge_durations_are_held_at_the_maximum() {
    assert_eq!(parse_time("99999999999999999999h"), i64::MAX);
}

#[test]
fn formats_zero_as_seconds() {
    assert_eq!(format_time(0), "0s");
}

#[test]
fn formats_whole_parts() {
    assert_eq!(format_time(45_000), "45s");
    assert_eq!(format_time(1_500_000), "25min");
    assert_eq!(format_time(3_600_000), "1h");
    assert_eq!(format_time(5_400_000), "1h30min");
}

#[test]
fn formats_fractional_seconds_without_trailing_zeros() {
    assert_eq!(format_time(5_415_500), "1h30min15.5s");
    assert_eq!(format_time(1_250), "1.25s");
    assert_eq!(format_time(1), "0.001s");
    assert_eq!(format_time(3_661_001), "1h1min1.001s");
}

#[test]
fn formats_an_overdrawn_countdown_as_negative_seconds() {
    assert_eq!(format_time(-500), "-0.5s");
    assert_eq!(format_time(-1), "-0.001s");
}

#[test]
fn formatted_durations_read_back_unchanged() {
    for ms in [0i64, 1, 999, 1_000, 59_999, 60_000, 61_500, 3_599_999, 3_600_000, 5_415_500, 86_400_123] {
        assert_eq!(parse_time(&format_time(ms)), ms);
    }
}
