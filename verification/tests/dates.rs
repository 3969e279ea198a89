use feed_sync::dates::Date;

fn date(y: i32, m: u32, d: u32) -> Date {
    Date::new(y, m, d).unwrap()
}

#[test]
fn sub_months_plain() {
    assert_eq!(date(2024, 6, 15).sub_months(1).unwrap(), date(2024, 5, 15));
    assert_eq!(date(2024, 6, 15).sub_months(6).unwrap(), date(2023, 12, 15));
    assert_eq!(date(2024, 6, 15).sub_months(18).unwrap(), date(2022, 12, 15));
}

#[test]
fn sub_months_clamps_to_month_end() {
    // Jan 31 minus one month lands on the last valid day of December.
    assert_eq!(date(2024, 1, 31).sub_months(1).unwrap(), date(2023, 12, 31));
    // Mar 31 minus one month clamps to February's length.
    assert_eq!(date(2024, 3, 31).sub_months(1).unwrap(), date(2024, 2, 29));
    assert_eq!(date(2023, 3, 31).sub_months(1).unwrap(), date(2023, 2, 28));
    // May 31 minus one month clamps to Apr 30.
    assert_eq!(date(2024, 5, 31).sub_months(1).unwrap(), date(2024, 4, 30));
}

#[test]
fn date_new_rejects_invalid() {
    assert!(Date::new(2023, 2, 29).is_none());
    assert!(Date::new(2024, 2, 29).is_some());
    assert!(Date::new(2024, 0, 1).is_none());
    assert!(Date::new(2024, 13, 1).is_none());
    assert!(Date::new(2024, 4, 31).is_none());
}

#[test]
fn date_order_is_calendar_order() {
    assert!(date(2024, 5, 1).le(&date(2024, 5, 1)));
    assert!(date(2024, 4, 30).le(&date(2024, 5, 1)));
    assert!(date(2023, 12, 31).le(&date(2024, 1, 1)));
    assert!(!date(2024, 5, 2).le(&date(2024, 5, 1)));
}
