use herron_island::errors::ParseError;
use herron_island::json::predictions_from_json;
use herron_island::tides::{JsonTide, Predictions, Tide, TidePoint};
use herron_island::timestamp::{parse_datetime, Timestamp};

const PREDICTED_JSON_DATA: &str = r#"{ "predictions" : [{"t":"2022-01-10 05:05", "v":"5.086", "type":"L"},{"t":"2022-01-10 11:32", "v":"14.668", "type":"H"},{"t":"2022-01-10 19:03", "v":"2.498", "type":"L"},{"t":"2022-01-11 01:42", "v":"10.228", "type":"H"},{"t":"2022-01-11 06:15", "v":"6.854", "type":"L"},{"t":"2022-01-11 12:11", "v":"14.150", "type":"H"},{"t":"2022-01-11 19:51", "v":"1.503", "type":"L"},{"t":"2022-01-12 03:19", "v":"11.508", "type":"H"},{"t":"2022-01-12 07:45", "v":"8.101", "type":"L"},{"t":"2022-01-12 12:51", "v":"13.639", "type":"H"},{"t":"2022-01-12 20:33", "v":"0.666", "type":"L"}]}"#;

#[test]
fn json_parse() {
    let p: Predictions = predictions_from_json(PREDICTED_JSON_DATA).unwrap();
    let tidepoints: Vec<TidePoint> = p.tide_points().unwrap();
    tidepoints.iter().for_each(|t| println!("{:?}", t));

    let x = "2022-01-11 19:51";
    let parsed = parse_datetime(x).unwrap();
    let today = Timestamp {
        hour: 0,
        minute: 0,
        ..parsed
    };
    println!("today: {:?} utc-dt: {:?}", parsed, today);
    let chart_points = herron_island::curve::coordinates_from_prediction(&tidepoints, &today);
    println!("{:?}", chart_points);
}

#[test]
fn noaa_prediction_datetime_parse() {
    let x = "2022-01-11 19:51";
    let t = parse_datetime(x);

    match t {
        Err(e) => println!("error: {:?}", e),
        Ok(t) => println!("{:?}", t),
    }
    assert!(t.is_ok());
}

#[test]
fn json_record_parses_exactly() {
    let record = JsonTide {
        t: String::from("2022-01-10 05:05"),
        v: String::from("5.086"),
        tide: String::from("L"),
    };
    let p = record.to_tide_point().unwrap();
    assert_eq!(p.tide, Tide::Low);
    assert_eq!(p.level, 5086);
    assert_eq!((p.level as f64) / 1000.0, 5.086);
    assert_eq!(
        (p.dt.year, p.dt.month, p.dt.day, p.dt.hour, p.dt.minute),
        (2022, 1, 10, 5, 5)
    );
}

#[test]
fn json_type_codes() {
    for (code, kind) in [
        ("H", Tide::High),
        ("L", Tide::Low),
        ("X", Tide::Unknown),
        ("", Tide::Unknown),
        ("HH", Tide::Unknown),
        ("h", Tide::Unknown),
    ] {
        let record = JsonTide {
            t: String::from("2022-01-10 05:05"),
            v: String::from("1.0"),
            tide: String::from(code),
        };
        assert_eq!(record.to_tide_point().unwrap().tide, kind, "code: {:?}", code);
    }
}

#[test]
fn json_record_errors() {
    let bad_date = JsonTide {
        t: String::from("2022-13-10 05:05"),
        v: String::from("1.0"),
        tide: String::from("L"),
    };
    assert_eq!(bad_date.to_tide_point().unwrap_err(), ParseError::MalformedDate);
    let bad_shape = JsonTide {
        t: String::from("2022-1-10 05:05"),
        v: String::from("1.0"),
        tide: String::from("L"),
    };
    assert_eq!(bad_shape.to_tide_point().unwrap_err(), ParseError::MalformedDate);
    let bad_level = JsonTide {
        t: String::from("2022-01-10 05:05"),
        v: String::from("five"),
        tide: String::from("L"),
    };
    assert_eq!(bad_level.to_tide_point().unwrap_err(), ParseError::MalformedLevel);
    // The date is checked before the level.
    let both_bad = JsonTide {
        t: String::from("nonsense"),
        v: String::from("five"),
        tide: String::from("L"),
    };
    assert_eq!(both_bad.to_tide_point().unwrap_err(), ParseError::MalformedDate);
}

#[test]
fn json_batch_aborts_on_one_malformed_record() {
    let mut records = Vec::new();
    records.push(JsonTide {
        t: String::from("2022-01-10 05:05"),
        v: String::from("5.086"),
        tide: String::from("L"),
    });
    records.push(JsonTide {
        t: String::from("2022-01-10 11:32"),
        v: String::from("not-a-number"),
        tide: String::from("H"),
    });
    records.push(JsonTide {
        t: String::from("2022-01-10 19:03"),
        v: String::from("2.498"),
        tide: String::from("L"),
    });
    let batch = Predictions {
        predictions: records,
    };
    // One malformed record fails the whole batch with its error.
    assert_eq!(batch.tide_points().unwrap_err(), ParseError::MalformedLevel);
}

#[test]
fn json_payload_decodes_all_records() {
    let p = predictions_from_json(PREDICTED_JSON_DATA).unwrap();
    assert_eq!(p.predictions.len(), 11);
    assert_eq!(p.predictions[0].t, "2022-01-10 05:05");
    assert_eq!(p.predictions[0].v, "5.086");
    assert_eq!(p.predictions[0].tide, "L");
    assert_eq!(p.predictions[10].t, "2022-01-12 20:33");

    let points = p.tide_points().unwrap();
    assert_eq!(points.len(), 11);
    assert_eq!(points[0].level, 5086);
    assert_eq!(points[0].tide, Tide::Low);
    assert_eq!(points[10].level, 666);
    assert_eq!(
        (points[10].dt.year, points[10].dt.month, points[10].dt.day),
        (2022, 1, 12)
    );
    assert_eq!((points[10].dt.hour, points[10].dt.minute), (20, 33));
}

#[test]
fn json_structural_errors() {
    for bad in [
        "",
        "not json",
        "{}",
        r#"{"predictions": 5}"#,
        r#"{"predictions": [{"t": "2022-01-10 05:05", "v": "1.0"}]}"#,
        r#"{"predictions": [{"t": 5, "v": "1.0", "type": "L"}]}"#,
    ] {
        assert_eq!(
            predictions_from_json(bad).unwrap_err(),
            ParseError::MalformedRecord,
            "input: {:?}",
            bad
        );
    }
}

#[test]
fn datetime_parse_edges() {
    assert!(parse_datetime("2022-01-10 05:05").is_ok());
    let t = parse_datetime("2020-02-29 23:59").unwrap();
    assert_eq!((t.month, t.day), (2, 29));
    for bad in [
        "2021-02-29 00:00",
        "2022-00-10 05:05",
        "2022-13-10 05:05",
        "2022-01-32 05:05",
        "2022-01-10 24:00",
        "2022-01-10 05:60",
        "2022-01-10T05:05",
        "2022-01-10 05:05:00",
        "0000-01-10 05:05",
        "22-01-10 05:05",
    ] {
        assert!(parse_datetime(bad).is_err(), "input: {:?}", bad);
    }
}

#[test]
fn total_minutes_is_the_linear_scale() {
    let epoch = Timestamp {
        year: 1,
        month: 1,
        day: 1,
        hour: 0,
        minute: 0,
    };
    assert_eq!(epoch.total_minutes(), 0);
    let unix = Timestamp {
        year: 1970,
        month: 1,
        day: 1,
        hour: 0,
        minute: 0,
    };
    // 719162 days separate 0001-01-01 from 1970-01-01.
    assert_eq!(unix.total_minutes(), 719162 * 1440);
    let feb29 = parse_datetime("2020-02-29 12:00").unwrap();
    let mar01 = parse_datetime("2020-03-01 12:00").unwrap();
    assert_eq!(mar01.total_minutes() - feb29.total_minutes(), 1440);
    let dec31 = parse_datetime("2021-12-31 23:59").unwrap();
    let jan01 = parse_datetime("2022-01-01 00:00").unwrap();
    assert_eq!(jan01.total_minutes() - dec31.total_minutes(), 1);
}

#[test]
fn predictions_rendering() {
    let p = predictions_from_json(
        r#"{"predictions": [{"t":"2022-01-10 05:05","v":"5.086","type":"L"},{"t":"2022-01-10 11:32","v":"14.668","type":"H"}]}"#,
    )
    .unwrap();
    assert_eq!(
        p.to_string(),
        "2022-01-10 05:05 5.086 L\n2022-01-10 11:32 14.668 H\n"
    );
}
