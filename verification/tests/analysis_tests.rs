use pointeuse::analysis::{plan_suggestions, suggestion_id, suggestion_type, DayGap, SuggestionKind};

fn gap(balanced: bool, under: bool, over: bool, left: bool) -> DayGap {
    DayGap { balanced, under_logged: under, over_logged: over, gap_left_after_recurring: left }
}

#[test]
fn a_balanced_day_suggests_a_missing_daily_task_or_says_all_good() {
    assert_eq!(plan_suggestions(gap(true, false, false, false), &[5], &[], 2, None), vec![SuggestionKind::MissingRecurring(0)]);
    assert_eq!(plan_suggestions(gap(true, false, false, false), &[], &[1], 2, None), vec![SuggestionKind::AllGood]);
}

#[test]
fn an_under_logged_day_fills_the_gap_in_priority_order() {
    let plan = plan_suggestions(gap(false, true, false, true), &[5, 6], &[5, 7, 8], 1, Some(0));
    assert_eq!(
        plan,
        vec![SuggestionKind::AddRecurring(0), SuggestionKind::AddForgotten(1), SuggestionKind::AlsoRecurring(1)]
    );
}

#[test]
fn without_patterns_the_largest_entry_takes_the_gap() {
    assert_eq!(plan_suggestions(gap(false, true, false, true), &[], &[], 3, Some(2)), vec![SuggestionKind::SplitLargest(2)]);
    assert_eq!(plan_suggestions(gap(false, true, false, true), &[], &[], 3, None), vec![]);
    assert_eq!(plan_suggestions(gap(false, true, false, false), &[], &[], 0, None), vec![SuggestionKind::NothingLogged]);
}

#[test]
fn an_over_logged_day_is_flagged() {
    assert_eq!(plan_suggestions(gap(false, false, true, false), &[1], &[], 1, None), vec![SuggestionKind::OverLogged]);
    assert_eq!(plan_suggestions(gap(false, false, false, false), &[1], &[2], 1, Some(0)), vec![]);
}

#[test]
fn suggestions_carry_ids_and_tags() {
    assert_eq!(suggestion_id(0), "s1");
    assert_eq!(suggestion_id(11), "s12");
    assert_eq!(suggestion_type(SuggestionKind::AddForgotten(0)), "add_time");
    assert_eq!(suggestion_type(SuggestionKind::AlsoRecurring(1)), "missing_recurring");
    assert_eq!(suggestion_type(SuggestionKind::OverLogged), "info");
    assert_eq!(suggestion_type(SuggestionKind::AllGood), "all_good");
}
