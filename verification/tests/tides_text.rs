use chrono::TimeZone;
use herron_island::errors::ParseError;
use herron_island::tides::{parse_level, Tide};
use herron_island::timestamp::Timestamp;
use herron_island::utils::{parse_tide_lines, parse_tide_tuple, parse_time_string};

fn sep27() -> Timestamp {
    Timestamp {
        year: 2021,
        month: 9,
        day: 27,
        hour: 0,
        minute: 0,
    }
}

#[test]
fn test_parse_ts() {
    let today = sep27();
    let res = parse_time_string(&today, "3:35 AM").unwrap();
    let rendered = chrono::Utc
        .with_ymd_and_hms(
            res.year as i32,
            res.month,
            res.day,
            res.hour,
            res.minute,
            0,
        )
        .unwrap()
        .to_rfc2822();
    assert_eq!(rendered, "Mon, 27 Sep 2021 03:35:00 +0000");
}

#[test]
fn test_parse_ts_pm() {
    let today = sep27();
    let res = parse_time_string(&today, "9:11 PM").unwrap();
    let rendered = chrono::Utc
        .with_ymd_and_hms(
            res.year as i32,
            res.month,
            res.day,
            res.hour,
            res.minute,
            0,
        )
        .unwrap()
        .to_rfc2822();
    assert_eq!(rendered, "Mon, 27 Sep 2021 21:11:00 +0000");
}

#[test]
fn test_single_parse_ok() {
    let today = sep27();
    let ret = parse_tide_tuple("3:35 AM|0.6|low", &today);
    assert!(ret.is_ok());
    let val = ret.unwrap();
    assert_eq!(val.level, 600);
    assert_eq!((val.level as f64) / 1000.0, 0.6);
    assert_eq!(val.tide, Tide::Low);
}

#[test]
fn twelve_hour_fold() {
    let today = sep27();
    // 12:mm AM is hour 0; h:mm AM is hour h.
    assert_eq!(parse_time_string(&today, "12:15 AM").unwrap().hour, 0);
    assert_eq!(parse_time_string(&today, "7:15 AM").unwrap().hour, 7);
    // 12:mm PM is hour 12; h:mm PM is hour h + 12.
    assert_eq!(parse_time_string(&today, "12:15 PM").unwrap().hour, 12);
    assert_eq!(parse_time_string(&today, "7:15 PM").unwrap().hour, 19);
    assert_eq!(parse_time_string(&today, "11:59 PM").unwrap().hour, 23);
    // The date and the minutes come through unchanged.
    let ts = parse_time_string(&today, "4:06 PM").unwrap();
    assert_eq!(
        (ts.year, ts.month, ts.day, ts.hour, ts.minute),
        (2021, 9, 27, 16, 6)
    );
}

#[test]
fn malformed_times_are_rejected() {
    let today = sep27();
    for bad in [
        "",
        "3:35",
        "3:35 AM extra",
        "335 AM",
        "a:35 AM",
        "3:b5 AM",
        "25:00 PM",
        "13:00 PM",
        "3:60 AM",
    ] {
        assert_eq!(
            parse_time_string(&today, bad).unwrap_err(),
            ParseError::MalformedTime,
            "input: {:?}",
            bad
        );
    }
    // Any non-PM meridian token counts as AM, and hours are only held
    // to the final 0..=23 range.
    assert_eq!(parse_time_string(&today, "3:35 XX").unwrap().hour, 3);
    assert_eq!(parse_time_string(&today, "13:00 AM").unwrap().hour, 13);
    assert_eq!(parse_time_string(&today, "0:30 AM").unwrap().hour, 0);
}

#[test]
fn round_trip_text_record() {
    let today = sep27();
    let p = parse_tide_tuple("3:35 AM|0.6|low", &today).unwrap();
    assert_eq!(p.level, 600);
    assert_eq!(p.tide, Tide::Low);
    assert_eq!((p.dt.hour, p.dt.minute), (3, 35));
    assert_eq!((p.dt.year, p.dt.month, p.dt.day), (2021, 9, 27));
}

#[test]
fn evening_high_record() {
    let today = sep27();
    let p = parse_tide_tuple("9:11 PM|11.7|high", &today).unwrap();
    assert_eq!((p.dt.hour, p.dt.minute), (21, 11));
    assert_eq!(p.level, 11700);
    assert_eq!((p.level as f64) / 1000.0, 11.7);
    assert_eq!(p.tide, Tide::High);
}

#[test]
fn malformed_records_are_rejected() {
    let today = sep27();
    // Wrong field count, bad kind token, bad level: malformed records.
    for bad in [
        "",
        "3:35 AM|0.6",
        "3:35 AM|0.6|low|extra",
        "3:35 AM|0.6|Low",
        "3:35 AM|0.6|HIGH",
        "9:11 PM|high",
        "3:35 AM|x.y|low",
        "3:35 AM||low",
    ] {
        assert_eq!(
            parse_tide_tuple(bad, &today).unwrap_err(),
            ParseError::MalformedRecord,
            "input: {:?}",
            bad
        );
    }
    // A bad clock string is a malformed time instead.
    assert_eq!(
        parse_tide_tuple("25:00 PM|0.6|low", &today).unwrap_err(),
        ParseError::MalformedTime
    );
}

#[test]
fn batch_skips_malformed_lines() {
    let today = sep27();
    let data = "3:35 AM|0.6|low\n10:23 AM|12.3|high\n9:11 PM|high\n4:06 PM|6.9|low";
    let points = parse_tide_lines(data, &today);
    // One malformed line among four: exactly three points survive.
    assert_eq!(points.len(), 3);
    assert_eq!(points[0].level, 600);
    assert_eq!(points[1].level, 12300);
    assert_eq!(points[2].level, 6900);
    assert_eq!(points[2].tide, Tide::Low);
    assert_eq!((points[2].dt.hour, points[2].dt.minute), (16, 6));
}

#[test]
fn batch_tolerates_trailing_whitespace() {
    let today = sep27();
    let data = "3:35 AM|0.6|low \r\n9:11 PM|11.7|high\t\n";
    let points = parse_tide_lines(data, &today);
    assert_eq!(points.len(), 2);
    assert_eq!(points[0].tide, Tide::Low);
    assert_eq!(points[1].tide, Tide::High);
}

#[test]
fn levels_parse_to_thousandths() {
    assert_eq!(parse_level("0.6").unwrap(), 600);
    assert_eq!(parse_level("11.7").unwrap(), 11700);
    assert_eq!(parse_level("5.086").unwrap(), 5086);
    assert_eq!(parse_level("-0.058").unwrap(), -58);
    assert_eq!(parse_level("-1.516").unwrap(), -1516);
    assert_eq!(parse_level("14").unwrap(), 14000);
    assert_eq!(parse_level("0").unwrap(), 0);
    assert_eq!(parse_level("1.23456").unwrap(), 1234);
    for bad in ["", "-", ".", ".5", "5.", "1.2.3", "1e3", "inf", "+5", " 5"] {
        assert_eq!(
            parse_level(bad).unwrap_err(),
            ParseError::MalformedLevel,
            "input: {:?}",
            bad
        );
    }
}

#[test]
fn error_descriptions() {
    assert_eq!(
        ParseError::MalformedTime.describe(),
        "malformed time-of-day string"
    );
    assert_eq!(ParseError::MalformedRecord.describe(), "malformed tide record");
    assert_eq!(
        ParseError::MalformedDate.describe(),
        "malformed date-time string"
    );
    assert_eq!(ParseError::MalformedLevel.describe(), "malformed level field");
}

#[test]
fn tide_point_rendering() {
    let today = sep27();
    let p = parse_tide_tuple("9:11 PM|11.7|high", &today).unwrap();
    assert_eq!(p.to_string(), "High::2021-09-27 21:11:11.700");
    let q = parse_tide_tuple("3:35 AM|-0.058|low", &today).unwrap();
    assert_eq!(q.to_string(), "Low::2021-09-27 03:35:-0.058");
}

#[test]
fn level_cap_boundaries() {
    // The largest representable magnitude is accepted exactly.
    assert_eq!(parse_level("100000000000").unwrap(), 100_000_000_000_000);
    assert_eq!(parse_level("-100000000000").unwrap(), -100_000_000_000_000);
    // One step beyond overflows the fixed-point range.
    assert_eq!(
        parse_level("100000000000.001").unwrap_err(),
        ParseError::MalformedLevel
    );
    assert_eq!(
        parse_level("100000000001").unwrap_err(),
        ParseError::MalformedLevel
    );
}

#[test]
fn empty_batch_yields_no_points() {
    let today = sep27();
    assert_eq!(parse_tide_lines("", &today).len(), 0);
    assert_eq!(parse_tide_lines("\n\n", &today).len(), 0);
}
