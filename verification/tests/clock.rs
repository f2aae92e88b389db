use am03127::clock::datetime_from_unix;
use am03127::datetime::DateTime;

#[test]
fn epoch_maps_to_the_first_day_of_1970() {
    let date_time = datetime_from_unix(0, 0).unwrap();
    assert_eq!(
        date_time,
        DateTime { year: 70, week: 1, month: 1, day: 1, hour: 0, minute: 0, second: 0 }
    );
}

#[test]
fn offset_shifts_the_civil_time() {
    let date_time = datetime_from_unix(0, 1).unwrap();
    assert_eq!(date_time.hour, 1);
    assert_eq!(date_time.day, 1);
    let date_time = datetime_from_unix(0, -1).unwrap();
    assert_eq!(date_time.hour, 23);
    assert_eq!(date_time.day, 31);
    assert_eq!(date_time.month, 12);
    assert_eq!(date_time.year, 69);
}

#[test]
fn a_recent_timestamp_maps_to_its_calendar_date() {
    // 2025-02-14 09:30:05 UTC
    let date_time = datetime_from_unix(1_739_525_405, 0).unwrap();
    assert_eq!(
        date_time,
        DateTime { year: 25, week: 7, month: 2, day: 14, hour: 9, minute: 30, second: 5 }
    );
}

#[test]
fn iso_week_53_is_clamped_to_the_panel_range() {
    // 2020-12-31 00:00:00 UTC falls in ISO week 53
    let date_time = datetime_from_unix(1_609_372_800, 0).unwrap();
    assert_eq!(date_time.year, 20);
    assert_eq!(date_time.month, 12);
    assert_eq!(date_time.day, 31);
    assert_eq!(date_time.week, 52);
}

#[test]
fn timestamps_outside_the_calendar_range_are_refused() {
    assert_eq!(datetime_from_unix(i64::MIN, 0), None);
    assert_eq!(datetime_from_unix(i64::MAX, 0), None);
}
