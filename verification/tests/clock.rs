use lcn_core::clock::{paris_datetime, weekday_from_monday, weekday_id, Weekday};

#[test]
fn weekday_ids() {
    assert_eq!(weekday_id(Weekday::Mon), "mon");
    assert_eq!(weekday_id(Weekday::Sun), "sun");
}

#[test]
fn paris_datetime_construit() {
    let dt = paris_datetime(2026, 6, 13, 15, 10).unwrap();
    assert_eq!(dt.wall.hour, 15);
    assert_eq!(dt.wall.minute, 10);
}

#[test]
fn paris_datetime_summer_offset_and_invalid_dates() {
    // 15:10 in Paris in June is 13:10 UTC (UTC+2).
    let dt = paris_datetime(2026, 6, 13, 15, 10).unwrap();
    assert_eq!(dt.instant.secs % 86400, 13 * 3600 + 10 * 60);
    assert_eq!(dt.wall.weekday, Weekday::Sat);
    // No 13th month, no 25th hour.
    assert!(paris_datetime(2026, 13, 1, 0, 0).is_none());
    assert!(paris_datetime(2026, 6, 13, 25, 0).is_none());
    // 02:30 on the spring-forward night does not exist in Paris.
    assert!(paris_datetime(2026, 3, 29, 2, 30).is_none());
}

#[test]
fn weekday_ids_cover_the_week() {
    let ids: Vec<&str> = (0..7).map(|n| weekday_id(weekday_from_monday(n))).collect();
    assert_eq!(ids, ["mon", "tue", "wed", "thu", "fri", "sat", "sun"]);
}
