use ledger_sync::date::parse_date;
use ledger_sync::date::timestamp_at_nine;
use ledger_sync::Date;

#[test]
fn parse_valid_date() {
    let d = parse_date("2021-08-16").unwrap();
    assert_eq!(d, Date { year: 2021, month: 8, day: 16 });
}

#[test]
fn parse_first_and_last_days() {
    assert_eq!(parse_date("0000-01-01").unwrap(), Date { year: 0, month: 1, day: 1 });
    assert_eq!(parse_date("9999-12-31").unwrap(), Date { year: 9999, month: 12, day: 31 });
}

#[test]
fn parse_leap_days() {
    assert_eq!(parse_date("2020-02-29").unwrap(), Date { year: 2020, month: 2, day: 29 });
    assert_eq!(parse_date("2000-02-29").unwrap(), Date { year: 2000, month: 2, day: 29 });
    assert!(parse_date("2021-02-29").is_none());
    assert!(parse_date("1900-02-29").is_none());
}

#[test]
fn parse_rejects_bad_shapes() {
    assert!(parse_date("").is_none());
    assert!(parse_date("2021-8-16").is_none());
    assert!(parse_date("20210816ab").is_none());
    assert!(parse_date("2021/08/16").is_none());
    assert!(parse_date("2021-08-16 ").is_none());
    assert!(parse_date("a021-08-16").is_none());
}

#[test]
fn parse_rejects_nonexistent_days() {
    assert!(parse_date("2021-13-01").is_none());
    assert!(parse_date("2021-00-10").is_none());
    assert!(parse_date("2021-01-00").is_none());
    assert!(parse_date("2021-04-31").is_none());
    assert!(parse_date("2021-06-31").is_none());
}

#[test]
fn timestamp_of_epoch_day() {
    let d = Date { year: 1970, month: 1, day: 1 };
    assert_eq!(timestamp_at_nine(&d), 32400);
}

#[test]
fn timestamp_of_known_day() {
    let d = Date { year: 2021, month: 8, day: 16 };
    assert_eq!(timestamp_at_nine(&d), 1629104400);
}

#[test]
fn timestamp_before_epoch() {
    let d = Date { year: 1969, month: 12, day: 31 };
    assert_eq!(timestamp_at_nine(&d), -86400 + 32400);
}

#[test]
fn timestamps_match_chrono() {
    let days = [
        (1970, 1, 1),
        (1960, 5, 5),
        (1999, 12, 31),
        (2000, 2, 29),
        (2000, 3, 1),
        (2021, 8, 16),
        (2021, 11, 30),
        (2024, 3, 1),
        (2100, 2, 28),
    ];
    for &(y, m, d) in days.iter() {
        let date = Date { year: y, month: m, day: d };
        let expected = chrono::NaiveDate::from_ymd_opt(y as i32, m, d)
            .unwrap()
            .and_time(chrono::NaiveTime::from_hms_opt(9, 0, 0).unwrap())
            .and_utc()
            .timestamp();
        assert_eq!(timestamp_at_nine(&date), expected);
    }
}
