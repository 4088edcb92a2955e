use ntp_time_api::iso8601::format_epoch_ms_to_iso8601;

#[test]
fn test_iso8601_formatting() {
    let epoch_ms = 1735459200000; // Recent timestamp
    let iso = format_epoch_ms_to_iso8601(epoch_ms);
    // Verify it's not invalid and contains a date and time
    assert_ne!(iso, "invalid");
    assert!(iso.contains("T")); // ISO8601 has T separator
    assert!(iso.len() > 10); // Should be full date-time
}

#[test]
fn iso8601_exact_values() {
    assert_eq!(
        format_epoch_ms_to_iso8601(0),
        "1970-01-01T00:00:00.000+00:00"
    );
    assert_eq!(
        format_epoch_ms_to_iso8601(1234567890123),
        "2009-02-13T23:31:30.123+00:00"
    );
    // leap day
    assert_eq!(
        format_epoch_ms_to_iso8601(951782400000),
        "2000-02-29T00:00:00.000+00:00"
    );
    // before the epoch
    assert_eq!(
        format_epoch_ms_to_iso8601(-1000),
        "1969-12-31T23:59:59.000+00:00"
    );
}

#[test]
fn iso8601_range_edges() {
    assert_eq!(
        format_epoch_ms_to_iso8601(-62135596800000),
        "0001-01-01T00:00:00.000+00:00"
    );
    assert_eq!(
        format_epoch_ms_to_iso8601(253402300799999),
        "9999-12-31T23:59:59.999+00:00"
    );
    assert_eq!(format_epoch_ms_to_iso8601(-62135596800001), "invalid");
    assert_eq!(format_epoch_ms_to_iso8601(253402300800000), "invalid");
    assert_eq!(format_epoch_ms_to_iso8601(i64::MIN), "invalid");
    assert_eq!(format_epoch_ms_to_iso8601(i64::MAX), "invalid");
}

/// Read an epoch back out of the fixed-width rendering.
fn parse_back(s: &str) -> i64 {
    let bytes = s.as_bytes();
    assert_eq!(bytes.len(), 29);
    let num = |from: usize, to: usize| -> i64 { s[from..to].parse::<i64>().unwrap() };
    let (y, m, d) = (num(0, 4), num(5, 7), num(8, 10));
    let (h, mi, sec, ms) = (num(11, 13), num(14, 16), num(17, 19), num(20, 23));
    assert_eq!(&s[23..], "+00:00");
    let leap = |y: i64| (y % 4 == 0 && y % 100 != 0) || y % 400 == 0;
    let days_before_year = |y: i64| 365 * (y - 1) + (y - 1) / 4 - (y - 1) / 100 + (y - 1) / 400;
    let month_days = [31, 28, 31, 30, 31, 30, 31, 31, 30, 31, 30, 31];
    let mut doy = 0i64;
    for k in 0..(m - 1) as usize {
        doy += month_days[k];
        if k == 1 && leap(y) {
            doy += 1;
        }
    }
    let day = days_before_year(y) + doy + (d - 1);
    (day - 719162) * 86400000 + h * 3600000 + mi * 60000 + sec * 1000 + ms
}

#[test]
fn iso8601_round_trip_lossless() {
    // Formatting then parsing back is lossless at millisecond granularity.
    let cases = [
        0,
        1,
        -1,
        999,
        -999,
        1234567890123,
        1735459200000,
        951782400000,
        -62135596800000,
        253402300799999,
        86400000,
        -86400000,
    ];
    for &e in cases.iter() {
        let s = format_epoch_ms_to_iso8601(e);
        assert_eq!(parse_back(&s), e, "round trip failed for {}", e);
    }
}
