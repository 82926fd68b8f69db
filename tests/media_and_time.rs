use elementary::clock::{format_sent_time, format_systime_at};
use elementary::media::{parse_mxc, MxcUrlError};

#[test]
fn parse_mxc_splits_server_and_path() {
    assert_eq!(
        parse_mxc("mxc://example.org/abc123"),
        Ok(("example.org".to_string(), "abc123".to_string()))
    );
    assert_eq!(
        parse_mxc("mxc://matrix.org/a/b"),
        Ok(("matrix.org".to_string(), "a/b".to_string()))
    );
}

#[test]
fn parse_mxc_rejects_other_urls() {
    assert_eq!(parse_mxc("https://example.org/abc"), Err(MxcUrlError));
    assert_eq!(parse_mxc("mxc://example.org"), Err(MxcUrlError));
    assert_eq!(parse_mxc("mxc://example.org/"), Err(MxcUrlError));
    assert_eq!(parse_mxc("mxc:///abc"), Err(MxcUrlError));
    assert_eq!(parse_mxc(""), Err(MxcUrlError));
    assert_eq!(MxcUrlError.to_string(), "invalid mxc url");
}

#[test]
fn format_same_day_shows_clock_only() {
    // 1970-01-02 10:17:36 UTC, read at noon the same day.
    assert_eq!(format_systime_at(123_456, 0, 129_600), "10:17:36");
}

#[test]
fn format_other_day_shows_date() {
    assert_eq!(format_systime_at(123_456, 0, 0), "1970-01-02 10:17:36");
    assert_eq!(format_systime_at(1_546_300_800, 0, 1_546_400_000), "2019-01-01 0:00:00");
}

#[test]
fn format_uses_offset_for_day_and_clock() {
    // time prints the hour of %T without padding.
    // 23:30 UTC is 01:30 the next day at UTC+2, the same day as 02:00 there.
    assert_eq!(format_systime_at(84_600, 7_200, 86_400), "1:30:00");
    // In UTC the two moments fall on different days.
    assert_eq!(format_systime_at(84_600, 0, 86_400), "1970-01-01 23:30:00");
}

#[test]
fn format_systime_of_the_epoch_shows_its_date() {
    // The epoch is never today, so the date is printed, in the local offset.
    let text = elementary::clock::format_systime(0);
    assert!(text.starts_with("1970-01-01 ") || text.starts_with("1969-12-31 "), "{}", text);
}

#[test]
fn format_before_the_epoch() {
    // 1969-12-31 23:00:00 UTC.
    assert_eq!(format_systime_at(-3_600, 0, 0), "1969-12-31 23:00:00");
    assert_eq!(format_systime_at(-3_600, 0, -60), "23:00:00");
}

#[test]
fn format_sent_time_drops_milliseconds() {
    let text = format_sent_time(1_546_300_800_999);
    assert!(text.starts_with("2019-01-01 ") || text.starts_with("2018-12-31 "), "{}", text);
}
