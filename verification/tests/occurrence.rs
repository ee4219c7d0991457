use claw_expense::occurrence::{
    date_from_occurred_at, normalize_occurred_at, validate_occurrence,
};

#[test]
fn preserves_precision_and_offset_local_date() {
    for value in [
        "2026-09-30T23:30-07:00",
        "2026-09-30T23:30:12-07:00",
        "2026-09-30T23:30:12.1-07:00",
        "2026-09-30T23:30:12.123456789-07:00",
        "2026-09-30T23:30Z",
        "2026-09-30T23:30:00.000Z",
        "0001-01-01T00:00+08:00",
        "9999-12-31T23:59:59-12:00",
        "2024-02-29T12:34+05:30",
    ] {
        assert_eq!(normalize_occurred_at(value).unwrap(), value);
        assert_eq!(date_from_occurred_at(value).unwrap(), &value[..10]);
    }
    assert_eq!(
        normalize_occurred_at("2026-09-30T23:30+00:00").unwrap(),
        "2026-09-30T23:30Z"
    );
    assert_eq!(
        normalize_occurred_at("2026-09-30T23:30:12.123+00:00").unwrap(),
        "2026-09-30T23:30:12.123Z"
    );
    assert!(validate_occurrence("2026-10-01", Some("2026-09-30T23:30:12-07:00")).is_err());
    assert_eq!(validate_occurrence("2026-09-30", None).unwrap(), None);
}

#[test]
fn rejects_ambiguous_invalid_or_overprecise_times() {
    for value in [
        "",
        "2026-09-30",
        "2026-09-30T23:30",
        "2026-09-30T23:30:12",
        "2026-09-30T23:30-00:00",
        "2026-09-30T23:30:12-00:00",
        "2026-09-30T24:00Z",
        "2026-09-30T23:60Z",
        "2026-09-30T23:59:60Z",
        "2026-09-30T23:30+24:00",
        "2026-09-30T23:30+08:60",
        "2026-09-30T23:30+0800",
        "2026-09-30T23:30:12.1234567890Z",
        "2026-09-30T23:30:12.Z",
        "2026-09-30T23:30.1Z",
        "2026-09-31T23:30Z",
        "2026-02-29T12:30Z",
        "0000-01-01T12:30Z",
        "10000-01-01T12:30Z",
        "2026-09-30 23:30Z",
        "2026-09-30t23:30Z",
        "2026-09-30T23:30z",
        "2026-09-30T23:30Z ",
        "２０２６-09-30T23:30Z",
        "2026-09-30T1:30Z",
        "2026-09-30T23:30:1Z",
        "2026-09-30T23:30:12..1Z",
        "2026-09-30T23:30:12.1aZ",
        "2026-09-30T23:30+0a:00",
    ] {
        assert!(normalize_occurred_at(value).is_err(), "accepted {value}");
    }
}

#[test]
fn errors_tell_times_dates_and_mismatches_apart() {
    let time = normalize_occurred_at("2026-09-30T23:30-00:00").unwrap_err();
    assert_eq!(time.code, "INVALID_INPUT");
    assert!(time.message.starts_with("occurred-at 必须为带明确时区的 ISO 8601 时间"));
    let date = normalize_occurred_at("2026-09-31T23:30Z").unwrap_err();
    assert_eq!(date.message, "日期必须为有效的 YYYY-MM-DD（年份 0001..9999）");
    let mismatch =
        validate_occurrence("2026-10-01", Some("2026-09-30T23:30:12-07:00")).unwrap_err();
    assert_eq!(mismatch.message, "date 必须与 occurred-at 自带时区中的本地日期一致");
    let bad_date = validate_occurrence("2026-02-30", None).unwrap_err();
    assert_eq!(bad_date.message, "日期必须为有效的 YYYY-MM-DD（年份 0001..9999）");
}

#[test]
fn normalizing_twice_is_normalizing_once() {
    for value in ["2026-09-30T23:30+00:00", "2026-09-30T23:30:12.5+00:00"] {
        let once = normalize_occurred_at(value).unwrap();
        assert_ne!(once, value);
        assert_eq!(normalize_occurred_at(&once).unwrap(), once);
        assert_eq!(
            date_from_occurred_at(value).unwrap(),
            date_from_occurred_at(&once).unwrap()
        );
    }
}
