use srtshift::timestamp::{cutoff_point, parse_timestamp, MAX_TIMESTAMP_MSECS};
use srtshift::timetypes::{TimeDelta, TimePoint};

#[test]
fn parses_unsigned_timestamp() {
    assert_eq!(parse_timestamp("01:02:03,456"), Some(TimeDelta::from_msecs(3_723_456)));
}

#[test]
fn parses_negative_timestamp() {
    assert_eq!(parse_timestamp("-01:02:03,456"), Some(TimeDelta::from_msecs(-3_723_456)));
}

#[test]
fn parses_plus_sign_as_positive() {
    assert_eq!(parse_timestamp("+01:02:03,456"), Some(TimeDelta::from_msecs(3_723_456)));
    assert_eq!(parse_timestamp("+00:00:00,500"), Some(TimeDelta::from_msecs(500)));
}

#[test]
fn rejects_timestamp_without_milliseconds() {
    assert_eq!(parse_timestamp("01:02:03"), None);
    assert_eq!(parse_timestamp("-01:02:03"), None);
    assert_eq!(parse_timestamp("01:02:03,"), None);
    assert_eq!(parse_timestamp("01:02:03.456"), None);
}

#[test]
fn zero_is_zero_with_either_sign() {
    assert_eq!(parse_timestamp("00:00:00,000"), Some(TimeDelta::from_msecs(0)));
    assert_eq!(parse_timestamp("-00:00:00,000"), Some(TimeDelta::from_msecs(0)));
    assert_eq!(parse_timestamp("+00:00:00,000"), Some(TimeDelta::from_msecs(0)));
}

#[test]
fn each_field_counts_with_its_weight() {
    assert_eq!(parse_timestamp("00:00:00,001").map(|d| d.msecs()), Some(1));
    assert_eq!(parse_timestamp("00:00:00,010").map(|d| d.msecs()), Some(10));
    assert_eq!(parse_timestamp("00:00:00,100").map(|d| d.msecs()), Some(100));
    assert_eq!(parse_timestamp("00:00:01,000").map(|d| d.msecs()), Some(1_000));
    assert_eq!(parse_timestamp("00:00:10,000").map(|d| d.msecs()), Some(10_000));
    assert_eq!(parse_timestamp("00:01:00,000").map(|d| d.msecs()), Some(60_000));
    assert_eq!(parse_timestamp("00:10:00,000").map(|d| d.msecs()), Some(600_000));
    assert_eq!(parse_timestamp("01:00:00,000").map(|d| d.msecs()), Some(3_600_000));
    assert_eq!(parse_timestamp("10:00:00,000").map(|d| d.msecs()), Some(36_000_000));
}

#[test]
fn fields_have_no_upper_limit() {
    assert_eq!(parse_timestamp("00:60:00,000").map(|d| d.msecs()), Some(3_600_000));
    assert_eq!(parse_timestamp("00:00:99,000").map(|d| d.msecs()), Some(99_000));
    assert_eq!(parse_timestamp("99:99:99,999").map(|d| d.msecs()), Some(362_439_999));
    assert_eq!(parse_timestamp("-99:99:99,999").map(|d| d.msecs()), Some(-362_439_999));
    assert_eq!(MAX_TIMESTAMP_MSECS, 362_439_999);
}

#[test]
fn rejects_fields_of_the_wrong_width() {
    assert_eq!(parse_timestamp("1:02:03,456"), None);
    assert_eq!(parse_timestamp("001:02:03,456"), None);
    assert_eq!(parse_timestamp("01:2:03,456"), None);
    assert_eq!(parse_timestamp("01:02:3,456"), None);
    assert_eq!(parse_timestamp("01:02:03,45"), None);
    assert_eq!(parse_timestamp("01:02:03,4567"), None);
}

#[test]
fn rejects_text_around_a_timestamp() {
    assert_eq!(parse_timestamp(" 01:02:03,456"), None);
    assert_eq!(parse_timestamp("01:02:03,456 "), None);
    assert_eq!(parse_timestamp("x01:02:03,456"), None);
    assert_eq!(parse_timestamp("01:02:03,456\n"), None);
    assert_eq!(parse_timestamp("--01:02:03,456"), None);
    assert_eq!(parse_timestamp("+-01:02:03,456"), None);
}

#[test]
fn rejects_other_characters_in_place_of_digits_and_separators() {
    assert_eq!(parse_timestamp(""), None);
    assert_eq!(parse_timestamp("-"), None);
    assert_eq!(parse_timestamp("ab:cd:ef,ghi"), None);
    assert_eq!(parse_timestamp("01-02-03,456"), None);
    assert_eq!(parse_timestamp("01:02:03:456"), None);
    assert_eq!(parse_timestamp("0a:02:03,456"), None);
    assert_eq!(parse_timestamp("01:02:03,45x"), None);
    assert_eq!(parse_timestamp("/1:02:03,456"), None);
    assert_eq!(parse_timestamp(":1:02:03,456"), None);
}

#[test]
fn rejects_digits_outside_ascii() {
    // twelve characters, the first two of them Arabic-Indic digits
    assert_eq!(parse_timestamp("\u{0660}\u{0661}:02:03,456"), None);
    // a full-width colon in place of the first separator
    assert_eq!(parse_timestamp("01\u{ff1a}02:03,456"), None);
}

#[test]
fn cutoff_defaults_to_the_greatest_timestamp() {
    assert_eq!(cutoff_point(None), Some(TimePoint::from_msecs(362_439_999)));
    assert_eq!(
        cutoff_point(None).map(|p| p.msecs()),
        parse_timestamp("99:99:99,999").map(|d| d.msecs())
    );
}

#[test]
fn cutoff_is_the_time_that_its_timestamp_denotes() {
    assert_eq!(cutoff_point(Some("00:00:05,500")), Some(TimePoint::from_msecs(5_500)));
    assert_eq!(cutoff_point(Some("+00:01:00,000")), Some(TimePoint::from_msecs(60_000)));
    assert_eq!(cutoff_point(Some("-00:00:01,000")), Some(TimePoint::from_msecs(-1_000)));
}

#[test]
fn cutoff_that_is_no_timestamp_is_refused() {
    assert_eq!(cutoff_point(Some("5500")), None);
    assert_eq!(cutoff_point(Some("00:00:05")), None);
    assert_eq!(cutoff_point(Some("")), None);
}

#[test]
fn minus_sign_negates_what_the_rest_denotes() {
    for text in ["00:00:00,001", "01:02:03,456", "12:34:56,789", "99:99:99,999"] {
        let plain = parse_timestamp(text).map(|d| d.msecs());
        let minus = parse_timestamp(&format!("-{}", text)).map(|d| d.msecs());
        let plus = parse_timestamp(&format!("+{}", text)).map(|d| d.msecs());
        assert!(plain.is_some());
        assert_eq!(minus, plain.map(|m| -m));
        assert_eq!(plus, plain);
    }
}
