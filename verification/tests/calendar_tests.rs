use pointeuse::calendar::{last_day_of_month, month_start};

#[test]
fn month_ends() {
    assert_eq!(last_day_of_month(2026, 1), "2026-01-31");
    assert_eq!(last_day_of_month(2026, 2), "2026-02-28");
    assert_eq!(last_day_of_month(2024, 2), "2024-02-29");
    assert_eq!(last_day_of_month(1900, 2), "1900-02-28");
    assert_eq!(last_day_of_month(2000, 2), "2000-02-29");
    assert_eq!(last_day_of_month(2026, 4), "2026-04-30");
    assert_eq!(last_day_of_month(2026, 12), "2026-12-31");
    assert_eq!(last_day_of_month(999, 11), "0999-11-30");
    assert_eq!(last_day_of_month(12345, 6), "+12345-06-30");
    assert_eq!(last_day_of_month(-5, 2), "-0005-02-28");
}

#[test]
fn month_starts() {
    assert_eq!(month_start(2026, 3), "2026-03-01");
    assert_eq!(month_start(7, 11), "0007-11-01");
    assert_eq!(month_start(-5, 1), "-005-01-01");
}
