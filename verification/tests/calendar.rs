use claw_expense::calendar::{later_date, names_date, validate_date};

#[test]
fn only_days_of_the_calendar_are_dates() {
    for date in ["0001-01-01", "2024-02-29", "2000-02-29", "9999-12-31", "2026-09-30"] {
        assert!(names_date(date), "rejected {date}");
        assert!(validate_date(date).is_ok());
    }
    for date in [
        "",
        "0000-01-01",
        "2026-02-29",
        "1900-02-29",
        "2026-13-01",
        "2026-00-10",
        "2026-09-31",
        "2026-9-30",
        "2026-09-3",
        "2026/09/30",
        "+026-09-30",
        " 026-09-30",
        "10000-01-01",
        "2026-09-30 ",
        "２０２６-09-30",
    ] {
        assert!(!names_date(date), "accepted {date}");
        let error = validate_date(date).unwrap_err();
        assert_eq!(error.code, "INVALID_INPUT");
        assert_eq!(error.message, "日期必须为有效的 YYYY-MM-DD（年份 0001..9999）");
    }
}

#[test]
fn later_dates_cross_months_years_and_leap_days() {
    assert_eq!(later_date("2026-09-29", 3).unwrap(), "2026-10-02");
    assert_eq!(later_date("2024-02-27", 3).unwrap(), "2024-03-01");
    assert_eq!(later_date("2026-02-27", 3).unwrap(), "2026-03-02");
    assert_eq!(later_date("2026-12-30", 3).unwrap(), "2027-01-02");
    assert_eq!(later_date("0001-01-01", 0).unwrap(), "0001-01-01");
    assert_eq!(later_date("9999-12-28", 3).unwrap(), "9999-12-31");
    assert_eq!(
        later_date("9999-12-29", 3).unwrap_err().message,
        "日期必须为有效的 YYYY-MM-DD（年份 0001..9999）"
    );
}
