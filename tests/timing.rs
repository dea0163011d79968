use drive_scraper::report::found_line;
use drive_scraper::timing::get_time;

#[test]
fn under_a_second_is_whole_milliseconds() {
    assert_eq!(get_time(0, 850_000_000), "850ms");
}

#[test]
fn a_second_and_a_half_has_two_decimals() {
    assert_eq!(get_time(1, 500_000_000), "1.50s");
}

#[test]
fn zero_duration() {
    assert_eq!(get_time(0, 0), "0ms");
}

#[test]
fn milliseconds_are_truncated() {
    assert_eq!(get_time(0, 999_999_999), "999ms");
}

#[test]
fn hundredths_are_rounded_half_up() {
    assert_eq!(get_time(61, 5_000_000), "61.01s");
    assert_eq!(get_time(61, 4_999_999), "61.00s");
}

#[test]
fn rounding_carries_into_seconds() {
    assert_eq!(get_time(1, 999_000_000), "2.00s");
}

#[test]
fn whole_seconds() {
    assert_eq!(get_time(12, 0), "12.00s");
}

#[test]
fn found_line_reports_count_and_time() {
    assert_eq!(found_line(3, 0, 850_000_000), "3 files found in 850ms");
    assert_eq!(found_line(0, 2, 250_000_000), "0 files found in 2.25s");
}
