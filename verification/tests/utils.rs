use boox_note::error::NoteError;
use boox_note::scalar::Scalar;
use boox_note::utils::{
    convert_timestamp_to_datetime, deserialize_color, parse_json, reversed, Timestamp,
    MAX_DATETIME_MILLIS, MIN_DATETIME_MILLIS, YEAR_9999_MILLIS,
};

#[test]
fn converts_the_epoch() {
    assert_eq!(convert_timestamp_to_datetime(0).unwrap(), Timestamp { millis: 0 });
}

#[test]
fn converts_a_date_of_2024() {
    let t = convert_timestamp_to_datetime(1_705_314_600_000).unwrap();
    assert_eq!(t.to_millis(), 1_705_314_600_000);
    let date = chrono::DateTime::<chrono::Utc>::from_timestamp_millis(t.to_millis()).unwrap();
    assert_eq!(date.to_rfc3339(), "2024-01-15T10:30:00+00:00");
}

#[test]
fn converts_every_instant_up_to_the_year_9999() {
    for millis in [0i64, 1, 999, 1_000, 86_400_000, 1_705_314_600_000, YEAR_9999_MILLIS] {
        let t = convert_timestamp_to_datetime(millis as u64).unwrap();
        assert_eq!(t, Timestamp { millis });
        assert_eq!(convert_timestamp_to_datetime(t.to_millis() as u64).unwrap(), t);
    }
}

#[test]
fn the_year_9999_starts_where_the_constant_says() {
    let date = chrono::DateTime::<chrono::Utc>::from_timestamp_millis(YEAR_9999_MILLIS).unwrap();
    assert_eq!(date.to_rfc3339(), "9999-01-01T00:00:00+00:00");
}

#[test]
fn rejects_a_number_that_is_no_date() {
    let far = i64::MAX as u64;
    match convert_timestamp_to_datetime(far) {
        Err(NoteError::InvalidTimestamp(v)) => assert_eq!(v, far),
        other => panic!("unexpected {:?}", other),
    }
}

#[test]
fn rejects_a_number_past_the_signed_range() {
    for far in [u64::MAX, i64::MAX as u64 + 1, i64::MIN as u64, u64::MAX - 5] {
        assert!(matches!(
            convert_timestamp_to_datetime(far),
            Err(NoteError::InvalidTimestamp(v)) if v == far
        ));
    }
}

#[test]
fn accepts_every_number_up_to_the_last_date_and_none_after_it() {
    let last = MAX_DATETIME_MILLIS as u64;
    assert_eq!(
        convert_timestamp_to_datetime(last).unwrap(),
        Timestamp { millis: MAX_DATETIME_MILLIS }
    );
    assert_eq!(
        convert_timestamp_to_datetime(last - 1).unwrap(),
        Timestamp { millis: MAX_DATETIME_MILLIS - 1 }
    );
    assert!(matches!(
        convert_timestamp_to_datetime(last + 1),
        Err(NoteError::InvalidTimestamp(v)) if v == last + 1
    ));
}

#[test]
fn the_range_of_dates_is_that_of_the_date_library() {
    let date = |millis| chrono::DateTime::<chrono::Utc>::from_timestamp_millis(millis);
    assert!(date(MAX_DATETIME_MILLIS).is_some());
    assert!(date(MAX_DATETIME_MILLIS + 1).is_none());
    assert!(date(MIN_DATETIME_MILLIS).is_some());
    assert!(date(MIN_DATETIME_MILLIS - 1).is_none());
    assert_eq!(date(MAX_DATETIME_MILLIS).unwrap(), chrono::DateTime::<chrono::Utc>::MAX_UTC
        .checked_sub_signed(chrono::TimeDelta::nanoseconds(999_999)).unwrap());
    assert_eq!(date(MIN_DATETIME_MILLIS).unwrap(), chrono::DateTime::<chrono::Utc>::MIN_UTC);
    assert!(date(i64::MAX).is_none());
    assert!(date(i64::MIN).is_none());
}

#[test]
fn reads_a_signed_colour_as_argb() {
    assert_eq!(deserialize_color(0), 0);
    assert_eq!(deserialize_color(-1), 0xFFFF_FFFF);
    assert_eq!(deserialize_color(-16777216), 0xFF00_0000);
    assert_eq!(deserialize_color(i32::MIN), 0x8000_0000);
    assert_eq!(deserialize_color(i32::MAX), 0x7FFF_FFFF);
}

#[test]
fn reads_every_colour_back() {
    for c in [0u32, 1, 0x7FFF_FFFF, 0x8000_0000, 0xFF00_0000, 0xFFFF_FFFF, 0x1234_5678] {
        assert_eq!(deserialize_color(c as i32), c);
    }
}

#[test]
fn keeps_a_decoded_document() {
    let parsed: Result<u32, serde_json::Error> = serde_json::from_str("7");
    assert_eq!(parse_json(parsed, "7").unwrap(), 7);
}

#[test]
fn keeps_the_text_of_a_rejected_document() {
    let parsed: Result<u32, serde_json::Error> = serde_json::from_str("{oops");
    match parse_json(parsed, "{oops") {
        Err(NoteError::Json { error, json_string }) => {
            assert_eq!(json_string, "{oops");
            assert_eq!(error.line(), 1);
        }
        other => panic!("unexpected {:?}", other),
    }
}

#[test]
fn reverses_a_list() {
    assert_eq!(reversed(vec![1, 2, 3]), vec![3, 2, 1]);
    assert_eq!(reversed(Vec::<u8>::new()), Vec::<u8>::new());
    assert_eq!(reversed(vec![9]), vec![9]);
}

#[test]
fn carries_a_number_by_its_bits() {
    let s = Scalar::from_bits(1.5f32.to_bits());
    assert_eq!(f32::from_bits(s.to_bits()), 1.5);
    assert_eq!(Scalar::from_bits(0).bits, 0);
}
