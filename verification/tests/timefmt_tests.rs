use gh_dash::timefmt::{chrono_now_iso, chrono_timestamp_to_local_time, days_to_date,
    format_epoch_iso};

#[test]
fn epoch_origin_renders_as_midnight() {
    assert_eq!(format_epoch_iso(0), "1970-01-01T00:00:00Z");
}

#[test]
fn day_start_round_trip() {
    // 2024-03-01T00:00:00Z as epoch seconds
    assert_eq!(format_epoch_iso(1709251200), "2024-03-01T00:00:00Z");
}

#[test]
fn time_of_day_rendered() {
    // 2024-02-29T12:34:56Z
    assert_eq!(format_epoch_iso(1709210096), "2024-02-29T12:34:56Z");
}

#[test]
fn days_to_date_origin() {
    assert_eq!(days_to_date(0), (1970, 1, 1));
}

#[test]
fn days_to_date_leap_day() {
    // 2024-02-29 is 19782 days after the epoch
    assert_eq!(days_to_date(19782), (2024, 2, 29));
}

#[test]
fn days_to_date_century_non_leap() {
    // 2100 is not a leap year: the day after 2100-02-28 is 2100-03-01
    // 2100-02-28 is 47540 days after the epoch
    assert_eq!(days_to_date(47540), (2100, 2, 28));
    assert_eq!(days_to_date(47541), (2100, 3, 1));
}

#[test]
fn days_to_date_year_boundary() {
    // 1999-12-31 and 2000-01-01
    assert_eq!(days_to_date(10956), (1999, 12, 31));
    assert_eq!(days_to_date(10957), (2000, 1, 1));
}

#[test]
fn local_time_rendering() {
    assert_eq!(chrono_timestamp_to_local_time(0), "00:00:00 UTC");
    assert_eq!(chrono_timestamp_to_local_time(3661), "01:01:01 UTC");
    assert_eq!(chrono_timestamp_to_local_time(86399), "23:59:59 UTC");
    assert_eq!(chrono_timestamp_to_local_time(86400), "00:00:00 UTC");
}

#[test]
fn now_renders_a_full_stamp() {
    let s = chrono_now_iso();
    assert_eq!(s.len(), 20);
    assert!(s.ends_with('Z'));
    assert_eq!(s.as_bytes()[10], b'T');
}
