use pointeuse::error::AppError;
use pointeuse::manual::{
    check_manual_entry, entry_day, preflight_warnings, rejection, validate_manual_entry, DayLoad, DuplicateCheck,
    DurationCheck,
};

#[test]
fn boundary_checks_run_in_order() {
    let ok = DurationCheck::Accepted;
    assert!(validate_manual_entry(ok, "2026-03-25", 1, 2, "work").is_ok());
    let e = validate_manual_entry(DurationCheck::NotANumber, "bad", 0, 0, "").unwrap_err();
    assert_eq!(e.message(), "Duration is not a valid number");
    assert_eq!(validate_manual_entry(DurationCheck::TooShort, "x", 1, 1, "").unwrap_err().message(), "Duration must be at least 0.01 h");
    assert_eq!(validate_manual_entry(DurationCheck::TooLong, "x", 1, 1, "").unwrap_err().message(), "Duration cannot exceed 24 h");
    let e = validate_manual_entry(ok, "2026-02-30", 1, 1, "").unwrap_err();
    assert!(matches!(e, AppError::General(_)));
    assert_eq!(e.message(), "Invalid date: 2026-02-30");
    assert_eq!(validate_manual_entry(ok, "2026-03-25", 0, 1, "").unwrap_err().message(), "A task must be selected");
    assert_eq!(validate_manual_entry(ok, "2026-03-25", 1, -1, "").unwrap_err().message(), "A project must be selected");
    let long = "é".repeat(513);
    assert_eq!(
        validate_manual_entry(ok, "2026-03-25", 1, 1, &long).unwrap_err().message(),
        "Description is too long (max 512 characters)"
    );
    assert!(validate_manual_entry(ok, "2026-03-25", 1, 1, &"é".repeat(512)).is_ok());
    assert!(check_manual_entry(ok, "whatever", Some(1), 1, 1, "").is_ok());
}

#[test]
fn entry_days_are_counted_from_the_common_era() {
    assert_eq!(entry_day("0001-01-01"), Some(1));
    assert_eq!(entry_day("2026-03-25").unwrap() - entry_day("2026-03-24").unwrap(), 1);
    assert_eq!(entry_day("2026-13-01"), None);
}

#[test]
fn an_offline_composer_warns_that_the_entry_will_queue() {
    let ws = preflight_warnings(false, &DuplicateCheck::NotRun, &DayLoad::Normal, None, 1, Some(100), 100);
    assert_eq!(ws.len(), 1);
    assert_eq!(ws[0].code, "OFFLINE_WILL_QUEUE");
}

#[test]
fn warnings_come_in_order() {
    let ws = preflight_warnings(
        true,
        &DuplicateCheck::Done(Some((77, "1.50".to_string()))),
        &DayLoad::Over24("25.00".to_string()),
        Some(4),
        4,
        Some(10),
        200,
    );
    let codes: Vec<&str> = ws.iter().map(|w| w.code.as_str()).collect();
    assert_eq!(codes, vec!["DUPLICATE_LIKELY", "DAY_OVER_24", "TIMER_RUNNING_SAME_TASK", "VERY_OLD_DATE"]);
    assert!(ws[0].message.starts_with("Odoo already has a matching line (#77, 1.50 h) on this"));
    assert!(ws[0].message.ends_with(" task and day."));
    assert_eq!(ws[1].message, "That would put this day at 25.00 h — over 24 h.");
    assert_eq!(ws[3].message, "This date is 190 days old — timesheets may already be locked.");
}

#[test]
fn other_warnings() {
    let ws = preflight_warnings(true, &DuplicateCheck::Failed, &DayLoad::Over16("17.00".into()), None, 4, Some(201), 200);
    let codes: Vec<&str> = ws.iter().map(|w| w.code.as_str()).collect();
    assert_eq!(codes, vec!["DEDUP_UNAVAILABLE", "DAY_OVER_16", "FUTURE_DATE"]);
    assert_eq!(ws[1].message, "That would put this day at 17.00 h.");
    let ws = preflight_warnings(true, &DuplicateCheck::Done(None), &DayLoad::Normal, Some(0), 0, Some(110), 200);
    assert!(ws.is_empty());
}

#[test]
fn a_rejection_keeps_the_error_verbatim() {
    let (msg, permanent) = rejection(&AppError::Odoo("Access Denied".into()));
    assert_eq!(msg, "Access Denied");
    assert!(permanent);
    let (_, permanent) = rejection(&AppError::Http("timeout".into()));
    assert!(!permanent);
}
