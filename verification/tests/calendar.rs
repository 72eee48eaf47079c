use celestial_overlay::calendar::{day_after, day_before, Date};

#[test]
fn day_before_counts_back_over_months_and_years() {
    let day = Date { year: 2024, month: 3, day: 10 };
    assert_eq!(day_before(day, 0), Some("2024-03-10".to_string()));
    assert_eq!(day_before(day, 1), Some("2024-03-09".to_string()));
    assert_eq!(day_before(day, 7), Some("2024-03-03".to_string()));
    assert_eq!(day_before(day, 10), Some("2024-02-29".to_string()));
    assert_eq!(day_before(Date { year: 2023, month: 3, day: 1 }, 1), Some("2023-02-28".to_string()));
    assert_eq!(day_before(Date { year: 2024, month: 1, day: 1 }, 1), Some("2023-12-31".to_string()));
}

#[test]
fn day_after_counts_on_over_months_and_years() {
    assert_eq!(day_after(Date { year: 2024, month: 2, day: 28 }, 1), Some("2024-02-29".to_string()));
    assert_eq!(day_after(Date { year: 2024, month: 12, day: 31 }, 1), Some("2025-01-01".to_string()));
    assert_eq!(day_after(Date { year: 2024, month: 12, day: 31 }, 0), Some("2024-12-31".to_string()));
}

#[test]
fn a_day_that_does_not_exist_has_no_text() {
    assert_eq!(day_before(Date { year: 2023, month: 2, day: 29 }, 0), None);
    assert_eq!(day_before(Date { year: 2024, month: 13, day: 1 }, 0), None);
    assert_eq!(day_after(Date { year: 2024, month: 0, day: 1 }, 1), None);
    assert_eq!(day_after(Date { year: 2024, month: 4, day: 31 }, 1), None);
}

#[test]
fn a_day_out_of_the_calendar_has_no_text() {
    assert_eq!(day_before(Date { year: -262143, month: 1, day: 1 }, 1), None);
    assert_eq!(day_after(Date { year: 262142, month: 12, day: 31 }, 1), None);
    assert_eq!(day_before(Date { year: 2024, month: 1, day: 1 }, u32::MAX), None);
}

#[test]
fn years_are_written_with_four_digits() {
    assert_eq!(day_before(Date { year: 987, month: 6, day: 5 }, 0), Some("0987-06-05".to_string()));
}
