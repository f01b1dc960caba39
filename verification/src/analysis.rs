//! The day analysis: which suggestions the app offers for closing the gap
//! between presence and logged time. Hours are measured by the caller; the
//! plan here decides, from those measurements, what to suggest and in what
//! order.
use vstd::prelude::*;

use crate::text::{from_chars, u64_text};
use vstd::string::StringExecFns;

verus! {

/// A suggestion, by what it points at.
#[derive(Debug, Clone, Copy, PartialEq, Eq)]
pub enum SuggestionKind {
    /// A daily task not logged yet, while the day is balanced (index into the recurring tasks).
    MissingRecurring(usize),
    /// Presence and logged time match.
    AllGood,
    /// Fill the gap with a daily task (index into the recurring tasks).
    AddRecurring(usize),
    /// Fill the gap with a recently worked task (index into the forgotten tasks).
    AddForgotten(usize),
    /// Add the gap to the largest entry of the day (index into the entries).
    SplitLargest(usize),
    /// Present, but nothing logged.
    NothingLogged,
    /// Another daily task not logged today (index into the recurring tasks).
    AlsoRecurring(usize),
    /// More logged than present.
    OverLogged,
}

/// What the day's hours look like, as measured by the caller.
#[derive(Debug, Clone, Copy, PartialEq, Eq)]
pub struct DayGap {
    /// Presence and logged time are within a quarter hour, both non-zero.
    pub balanced: bool,
    /// Presence exceeds logged time by more than a quarter hour.
    pub under_logged: bool,
    /// Logged time exceeds presence by more than a quarter hour.
    pub over_logged: bool,
    /// What is left of the gap after the first daily task's usual hours
    /// still exceeds a quarter hour.
    pub gap_left_after_recurring: bool,
}

/// The first forgotten task that is not also a recurring one.
pub open spec fn first_new_forgotten(forgotten: Seq<i64>, recurring: Seq<i64>) -> Option<int>
    decreases forgotten.len(),
{
    if forgotten.len() == 0 {
        None
    } else {
        match first_new_forgotten(forgotten.drop_last(), recurring) {
            Some(k) => Some(k),
            None => if recurring.contains(forgotten.last()) {
                None
            } else {
                Some(forgotten.len() - 1)
            },
        }
    }
}

/// The suggestions when presence exceeds logged time.
pub open spec fn under_logged_plan(
    gap: DayGap,
    recurring: Seq<i64>,
    forgotten: Seq<i64>,
    entries: nat,
    largest: Option<usize>,
) -> Seq<SuggestionKind> {
    let a = if recurring.len() > 0 {
        seq![SuggestionKind::AddRecurring(0)]
    } else {
        Seq::empty()
    };
    let b = if gap.gap_left_after_recurring {
        match first_new_forgotten(forgotten, recurring) {
            Some(k) => a.push(SuggestionKind::AddForgotten(k as usize)),
            None => a,
        }
    } else {
        a
    };
    let c = if b.len() == 0 && entries > 0 {
        match largest {
            Some(i) => b.push(SuggestionKind::SplitLargest(i)),
            None => b,
        }
    } else {
        b
    };
    let d = if c.len() == 0 && entries == 0 {
        c.push(SuggestionKind::NothingLogged)
    } else {
        c
    };
    if recurring.len() > 1 && d.len() < 3 {
        d.push(SuggestionKind::AlsoRecurring(1))
    } else {
        d
    }
}

/// All suggestions for a day, at most three, in the order they are offered.
pub open spec fn suggestion_plan(
    gap: DayGap,
    recurring: Seq<i64>,
    forgotten: Seq<i64>,
    entries: nat,
    largest: Option<usize>,
) -> Seq<SuggestionKind> {
    if gap.balanced {
        if recurring.len() > 0 {
            seq![SuggestionKind::MissingRecurring(0)]
        } else {
            seq![SuggestionKind::AllGood]
        }
    } else {
        let under = if gap.under_logged {
            under_logged_plan(gap, recurring, forgotten, entries, largest)
        } else {
            Seq::empty()
        };
        let all = if gap.over_logged {
            under.push(SuggestionKind::OverLogged)
        } else {
            under
        };
        if all.len() > 3 {
            all.take(3)
        } else {
            all
        }
    }
}

/// The first new forgotten task is a forgotten task that is not recurring.
proof fn lemma_first_new_forgotten(forgotten: Seq<i64>, recurring: Seq<i64>)
    ensures
        first_new_forgotten(forgotten, recurring) matches Some(k) ==> 0 <= k < forgotten.len() && !recurring.contains(
            forgotten[k],
        ),
    decreases forgotten.len(),
{
    if forgotten.len() > 0 {
        lemma_first_new_forgotten(forgotten.drop_last(), recurring);
        if let Some(k) = first_new_forgotten(forgotten.drop_last(), recurring) {
            assert(forgotten.drop_last()[k] == forgotten[k]);
        }
    }
}

/// A forgotten-task suggestion stands where it may: one comes only with
/// gap left after the first daily task, and names the first forgotten task
/// that is not a daily one.
pub open spec fn forgotten_ok(x: SuggestionKind, gap: DayGap, recurring: Seq<i64>, forgotten: Seq<i64>) -> bool {
    x matches SuggestionKind::AddForgotten(k) ==> gap.gap_left_after_recurring && (first_new_forgotten(forgotten, recurring)
        matches Some(j) && j as usize == k)
}

proof fn lemma_push_ok(s: Seq<SuggestionKind>, x: SuggestionKind, gap: DayGap, recurring: Seq<i64>, forgotten: Seq<i64>)
    requires
        forall|i: int| 0 <= i < s.len() ==> forgotten_ok(#[trigger] s[i], gap, recurring, forgotten),
        forgotten_ok(x, gap, recurring, forgotten),
    ensures
        forall|i: int| 0 <= i < s.push(x).len() ==> forgotten_ok(#[trigger] s.push(x)[i], gap, recurring, forgotten),
{
    assert forall|i: int| 0 <= i < s.push(x).len() implies forgotten_ok(#[trigger] s.push(x)[i], gap, recurring, forgotten) by {
        if i < s.len() {
            assert(s.push(x)[i] == s[i]);
        }
    }
}

/// Every forgotten-task suggestion in a day's plan stands where it may, so
/// none comes without gap left after the first daily task, and each names a
/// forgotten task that is not a daily one.
pub proof fn lemma_forgotten_in_plan(
    gap: DayGap,
    recurring: Seq<i64>,
    forgotten: Seq<i64>,
    entries: nat,
    largest: Option<usize>,
    i: int,
)
    requires
        0 <= i < suggestion_plan(gap, recurring, forgotten, entries, largest).len(),
        forgotten.len() <= usize::MAX,
    ensures
        !gap.gap_left_after_recurring ==> !(suggestion_plan(gap, recurring, forgotten, entries, largest)[i] is AddForgotten),
        suggestion_plan(gap, recurring, forgotten, entries, largest)[i] matches SuggestionKind::AddForgotten(k) ==> (
            0 <= k < forgotten.len() && !recurring.contains(forgotten[k as int])),
{
    lemma_first_new_forgotten(forgotten, recurring);
    let e: Seq<SuggestionKind> = Seq::empty();
    let a = if recurring.len() > 0 { e.push(SuggestionKind::AddRecurring(0)) } else { e };
    lemma_push_ok(e, SuggestionKind::AddRecurring(0), gap, recurring, forgotten);
    let b = if gap.gap_left_after_recurring {
        match first_new_forgotten(forgotten, recurring) {
            Some(k) => a.push(SuggestionKind::AddForgotten(k as usize)),
            None => a,
        }
    } else {
        a
    };
    if gap.gap_left_after_recurring {
        if let Some(k) = first_new_forgotten(forgotten, recurring) {
            lemma_push_ok(a, SuggestionKind::AddForgotten(k as usize), gap, recurring, forgotten);
        }
    }
    let c = if b.len() == 0 && entries > 0 {
        match largest {
            Some(j) => b.push(SuggestionKind::SplitLargest(j)),
            None => b,
        }
    } else {
        b
    };
    if let Some(j) = largest {
        lemma_push_ok(b, SuggestionKind::SplitLargest(j), gap, recurring, forgotten);
    }
    let d = if c.len() == 0 && entries == 0 { c.push(SuggestionKind::NothingLogged) } else { c };
    lemma_push_ok(c, SuggestionKind::NothingLogged, gap, recurring, forgotten);
    lemma_push_ok(d, SuggestionKind::AlsoRecurring(1), gap, recurring, forgotten);
    let u = under_logged_plan(gap, recurring, forgotten, entries, largest);
    assert(u == if recurring.len() > 1 && d.len() < 3 { d.push(SuggestionKind::AlsoRecurring(1)) } else { d });
    assert(seq![SuggestionKind::AddRecurring(0)] =~= e.push(SuggestionKind::AddRecurring(0)));
    let under = if gap.under_logged { u } else { e };
    lemma_push_ok(under, SuggestionKind::OverLogged, gap, recurring, forgotten);
    let all = if gap.over_logged { under.push(SuggestionKind::OverLogged) } else { under };
    let plan = suggestion_plan(gap, recurring, forgotten, entries, largest);
    if !gap.balanced {
        assert(plan == if all.len() > 3 { all.take(3) } else { all });
        if all.len() > 3 {
            assert(plan[i] == all[i]);
        }
        assert(forgotten_ok(plan[i], gap, recurring, forgotten));
    }
}

fn first_new_forgotten_index(forgotten: &[i64], recurring: &[i64]) -> (res: Option<usize>)
    ensures
        match (res, first_new_forgotten(forgotten@, recurring@)) {
            (Some(a), Some(b)) => a == b,
            (None, None) => true,
            _ => false,
        },
{
    let mut k: usize = 0;
    assert(forgotten@.take(0) =~= Seq::<i64>::empty());
    while k < forgotten.len()
        invariant
            k <= forgotten@.len(),
            first_new_forgotten(forgotten@.take(k as int), recurring@) is None,
        decreases forgotten@.len() - k,
    {
        let id = forgotten[k];
        let mut found = false;
        let mut j: usize = 0;
        while j < recurring.len()
            invariant
                j <= recurring@.len(),
                found == (exists|i: int| 0 <= i < j && recurring@[i] == id),
            decreases recurring@.len() - j,
        {
            if recurring[j] == id {
                found = true;
            }
            j += 1;
        }
        assert(found == recurring@.contains(id));
        assert(forgotten@.take(k + 1).drop_last() == forgotten@.take(k as int));
        if !found {
            proof {
                lemma_first_new_prefix(forgotten@, recurring@, k + 1);
            }
            return Some(k);
        }
        k += 1;
    }
    assert(forgotten@.take(forgotten@.len() as int) == forgotten@);
    None
}

proof fn lemma_first_new_prefix(forgotten: Seq<i64>, recurring: Seq<i64>, j: int)
    requires
        0 <= j <= forgotten.len(),
        first_new_forgotten(forgotten.take(j), recurring) is Some,
    ensures
        first_new_forgotten(forgotten, recurring) == first_new_forgotten(forgotten.take(j), recurring),
    decreases forgotten.len(),
{
    if j < forgotten.len() {
        assert(forgotten.drop_last().take(j) == forgotten.take(j));
        lemma_first_new_prefix(forgotten.drop_last(), recurring, j);
    } else {
        assert(forgotten.take(j) == forgotten);
    }
}

/// Plans the day's suggestions. `recurring` and `forgotten` are the task ids
/// of the daily tasks not logged today and of the tasks worked on recently,
/// best first; `entries` counts the day's entries and `largest` is the
/// largest one that has a task.
pub fn plan_suggestions(
    gap: DayGap,
    recurring: &[i64],
    forgotten: &[i64],
    entries: usize,
    largest: Option<usize>,
) -> (plan: Vec<SuggestionKind>)
    ensures
        plan@ == suggestion_plan(gap, recurring@, forgotten@, entries as nat, largest),
{
    let mut plan: Vec<SuggestionKind> = Vec::new();
    if gap.balanced {
        if recurring.len() > 0 {
            plan.push(SuggestionKind::MissingRecurring(0));
        } else {
            plan.push(SuggestionKind::AllGood);
        }
        assert(plan@ =~= suggestion_plan(gap, recurring@, forgotten@, entries as nat, largest));
        return plan;
    }
    if gap.under_logged {
        if recurring.len() > 0 {
            plan.push(SuggestionKind::AddRecurring(0));
        }
        if gap.gap_left_after_recurring {
            match first_new_forgotten_index(forgotten, recurring) {
                Some(k) => plan.push(SuggestionKind::AddForgotten(k)),
                None => {},
            }
        }
        if plan.len() == 0 && entries > 0 {
            match largest {
                Some(i) => plan.push(SuggestionKind::SplitLargest(i)),
                None => {},
            }
        }
        if plan.len() == 0 && entries == 0 {
            plan.push(SuggestionKind::NothingLogged);
        }
        if recurring.len() > 1 && plan.len() < 3 {
            plan.push(SuggestionKind::AlsoRecurring(1));
        }
        assert(plan@ =~= under_logged_plan(gap, recurring@, forgotten@, entries as nat, largest));
    }
    if gap.over_logged {
        plan.push(SuggestionKind::OverLogged);
    }
    if plan.len() > 3 {
        plan.truncate(3);
    }
    assert(plan@ =~= suggestion_plan(gap, recurring@, forgotten@, entries as nat, largest));
    plan
}

/// The kind tag the interface shows for a suggestion.
pub open spec fn kind_tag(k: SuggestionKind) -> Seq<char> {
    match k {
        SuggestionKind::MissingRecurring(_) => "missing_recurring"@,
        SuggestionKind::AlsoRecurring(_) => "missing_recurring"@,
        SuggestionKind::AllGood => "all_good"@,
        SuggestionKind::AddRecurring(_) => "add_time"@,
        SuggestionKind::AddForgotten(_) => "add_time"@,
        SuggestionKind::SplitLargest(_) => "add_time"@,
        SuggestionKind::NothingLogged => "info"@,
        SuggestionKind::OverLogged => "info"@,
    }
}

pub fn suggestion_type(k: SuggestionKind) -> (res: String)
    ensures
        res@ == kind_tag(k),
{
    match k {
        SuggestionKind::MissingRecurring(_) => String::from_str("missing_recurring"),
        SuggestionKind::AlsoRecurring(_) => String::from_str("missing_recurring"),
        SuggestionKind::AllGood => String::from_str("all_good"),
        SuggestionKind::AddRecurring(_) => String::from_str("add_time"),
        SuggestionKind::AddForgotten(_) => String::from_str("add_time"),
        SuggestionKind::SplitLargest(_) => String::from_str("add_time"),
        SuggestionKind::NothingLogged => String::from_str("info"),
        SuggestionKind::OverLogged => String::from_str("info"),
    }
}

/// The id of the suggestion at `position` (counted from 0): `s1`, `s2`, ...
pub fn suggestion_id(position: usize) -> (res: String)
    requires
        position < usize::MAX,
    ensures
        res@ == "s"@ + crate::text::nat_text((position + 1) as nat),
{
    let n = (position as u64) + 1;
    let digits = u64_text(n);
    let mut out = String::from_str("s");
    out.append(from_chars(digits.as_slice()).as_str());
    out
}

} // verus!
