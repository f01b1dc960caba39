//! Month bounds as the monthly summary asks for them: the first and last
//! day of a month as `YYYY-MM-DD` text, in the proleptic Gregorian calendar.
use vstd::prelude::*;

use crate::text::{from_chars, nat_text, u64_text};
use vstd::string::StringExecFns;

verus! {

/// The earliest year `chrono` dates reach.
pub const MIN_YEAR: i32 = -262143;

/// The latest year `chrono` dates reach.
pub const MAX_YEAR: i32 = 262142;

pub open spec fn is_leap(y: int) -> bool {
    y % 4 == 0 && (y % 100 != 0 || y % 400 == 0)
}

pub open spec fn days_in_month(y: int, m: int) -> int {
    if m == 2 {
        if is_leap(y) {
            29
        } else {
            28
        }
    } else if m == 4 || m == 6 || m == 9 || m == 11 {
        30
    } else {
        31
    }
}

/// `n` in decimal, zero-padded on the left to at least `w` digits.
pub open spec fn padded(n: nat, w: nat) -> Seq<char>
    decreases w,
{
    if nat_text(n).len() >= w || w == 0 {
        nat_text(n)
    } else {
        seq!['0'] + padded(n, (w - 1) as nat)
    }
}

/// A year as `chrono` writes `%Y`: four digits from 0 to 9999, otherwise a
/// sign and at least four digits.
pub open spec fn chrono_year(y: int) -> Seq<char> {
    if 0 <= y <= 9999 {
        padded(y as nat, 4)
    } else if y > 9999 {
        seq!['+'] + padded(y as nat, 4)
    } else {
        seq!['-'] + padded((-y) as nat, 4)
    }
}

/// A year as `format!("{:04}")` writes it: zero-padded to four characters,
/// the sign counting as one.
pub open spec fn rust_year(y: int) -> Seq<char> {
    if y >= 0 {
        padded(y as nat, 4)
    } else {
        seq!['-'] + padded((-y) as nat, 3)
    }
}

fn padded_text(n: u64, w: usize) -> (res: Vec<char>)
    ensures
        res@ == padded(n as nat, w as nat),
    decreases w,
{
    let digits = u64_text(n);
    if digits.len() >= w || w == 0 {
        digits
    } else {
        let rest = padded_text(n, w - 1);
        let mut out: Vec<char> = Vec::new();
        out.push('0');
        let mut i: usize = 0;
        while i < rest.len()
            invariant
                i <= rest@.len(),
                out@ == seq!['0'] + rest@.take(i as int),
            decreases rest@.len() - i,
        {
            out.push(rest[i]);
            assert(rest@.take(i + 1) == rest@.take(i as int).push(rest@[i as int]));
            i += 1;
        }
        assert(rest@.take(rest@.len() as int) == rest@);
        out
    }
}

fn chrono_year_text(y: i32) -> (res: String)
    ensures
        res@ == chrono_year(y as int),
{
    if 0 <= y && y <= 9999 {
        from_chars(padded_text(y as u64, 4).as_slice())
    } else if y > 9999 {
        let mut s = String::from_str("+");
        s.append(from_chars(padded_text(y as u64, 4).as_slice()).as_str());
        proof {
            reveal_strlit("+");
        }
        s
    } else {
        let a: u64 = (-(y as i64)) as u64;
        let mut s = String::from_str("-");
        s.append(from_chars(padded_text(a, 4).as_slice()).as_str());
        proof {
            reveal_strlit("-");
        }
        s
    }
}

fn rust_year_text(y: i32) -> (res: String)
    ensures
        res@ == rust_year(y as int),
{
    if y >= 0 {
        from_chars(padded_text(y as u64, 4).as_slice())
    } else {
        let a: u64 = (-(y as i64)) as u64;
        let mut s = String::from_str("-");
        s.append(from_chars(padded_text(a, 3).as_slice()).as_str());
        proof {
            reveal_strlit("-");
        }
        s
    }
}

/// `YYYY-MM-DD` of the last day of a month, as `chrono` formats it.
pub open spec fn last_day_text(year: int, month: int) -> Seq<char> {
    chrono_year(year) + seq!['-'] + padded(month as nat, 2) + seq!['-'] + padded(days_in_month(year, month) as nat, 2)
}

/// The last day of a month as `YYYY-MM-DD`.
pub fn last_day_of_month(year: i32, month: u32) -> (res: String)
    requires
        1 <= month <= 12,
        MIN_YEAR <= year <= MAX_YEAR,
        month == 12 ==> year < MAX_YEAR,
    ensures
        res@ == last_day_text(year as int, month as int),
{
    let leap = year % 4 == 0 && (year % 100 != 0 || year % 400 == 0);
    assert(leap == is_leap(year as int)) by {
        assert((year % 4 == 0) == ((year as int) % 4 == 0));
    }
    let days: u64 = if month == 2 {
        if leap { 29 } else { 28 }
    } else if month == 4 || month == 6 || month == 9 || month == 11 {
        30
    } else {
        31
    };
    let mut s = chrono_year_text(year);
    s.append("-");
    s.append(from_chars(padded_text(month as u64, 2).as_slice()).as_str());
    s.append("-");
    s.append(from_chars(padded_text(days, 2).as_slice()).as_str());
    proof {
        reveal_strlit("-");
    }
    s
}

/// `YYYY-MM-01` of a month, the year as `format!("{:04}")` writes it.
pub fn month_start(year: i32, month: u32) -> (res: String)
    ensures
        res@ == rust_year(year as int) + seq!['-'] + padded(month as nat, 2) + seq!['-', '0', '1'],
{
    let mut s = rust_year_text(year);
    s.append("-");
    s.append(from_chars(padded_text(month as u64, 2).as_slice()).as_str());
    s.append("-01");
    proof {
        reveal_strlit("-");
        reveal_strlit("-01");
    }
    s
}

} // verus!

verus! {

// ── The days of a monthly summary ────────────────────────────────────

/// One day of a monthly summary: its date and the positions of its entries.
#[derive(Debug, Clone)]
pub struct DayGroup {
    pub date: String,
    pub entries: Vec<usize>,
}

/// The positions, in order, at which `x` occurs in `s`.
pub open spec fn positions_of(s: Seq<Seq<char>>, x: Seq<char>) -> Seq<int>
    decreases s.len(),
{
    if s.len() == 0 {
        Seq::empty()
    } else if s.last() == x {
        positions_of(s.drop_last(), x).push(s.len() - 1)
    } else {
        positions_of(s.drop_last(), x)
    }
}

/// A position is listed exactly when `x` stands there.
pub proof fn lemma_positions_of_contains(s: Seq<Seq<char>>, x: Seq<char>, k: int)
    ensures
        positions_of(s, x).contains(k) <==> (0 <= k < s.len() && s[k] == x),
    decreases s.len(),
{
    if s.len() > 0 {
        let d = s.drop_last();
        lemma_positions_of_contains(d, x, k);
        let p = positions_of(d, x);
        if s.last() == x {
            let q = p.push(s.len() - 1);
            if q.contains(k) {
                let j = choose|j: int| 0 <= j < q.len() && #[trigger] q[j] == k;
                if j < p.len() {
                    assert(p[j] == k);
                }
            }
            if 0 <= k < s.len() && s[k] == x {
                if k == s.len() - 1 {
                    assert(q[p.len() as int] == k);
                } else {
                    assert(d[k] == s[k]);
                    let j = choose|j: int| 0 <= j < p.len() && #[trigger] p[j] == k;
                    assert(q[j] == k);
                }
            }
        } else if 0 <= k < d.len() {
            assert(d[k] == s[k]);
        }
    }
}

fn positions(dates: &[String], x: &str) -> (res: Vec<usize>)
    ensures
        res@.map_values(|i: usize| i as int) == positions_of(dates@.map_values(|s: String| s@), x@),
{
    let ghost ds = dates@.map_values(|s: String| s@);
    let mut res: Vec<usize> = Vec::new();
    let mut i: usize = 0;
    while i < dates.len()
        invariant
            i <= dates@.len(),
            ds == dates@.map_values(|s: String| s@),
            res@.map_values(|k: usize| k as int) == positions_of(ds.take(i as int), x@),
        decreases dates@.len() - i,
    {
        proof {
            assert(ds.take(i + 1).drop_last() =~= ds.take(i as int));
            assert(ds.take(i + 1).last() == dates@[i as int]@);
        }
        if crate::timer::str_eq(dates[i].as_str(), x) {
            res.push(i);
            proof {
                assert(res@.map_values(|k: usize| k as int) =~= positions_of(ds.take(i as int), x@).push(i as int));
            }
        }
        i += 1;
    }
    proof {
        assert(ds.take(dates@.len() as int) =~= ds);
    }
    res
}

/// The entries of a month grouped by day: one group per distinct date, in
/// date order, each with the positions of that day's entries in order.
pub fn day_groups(dates: &[String]) -> (res: Vec<DayGroup>)
    ensures
        res@.len() == crate::sync::distinct_dates(dates@.map_values(|s: String| s@)).len(),
        forall|i: int| 0 <= i < res@.len() ==> {
            &&& (#[trigger] res@[i]).date@ == crate::sync::distinct_dates(dates@.map_values(|s: String| s@))[i]
            &&& res@[i].entries@.map_values(|k: usize| k as int) == positions_of(
                dates@.map_values(|s: String| s@),
                res@[i].date@,
            )
        },
{
    let days = crate::sync::unique_dates(dates);
    let ghost ds = dates@.map_values(|s: String| s@);
    let ghost dd = days@.map_values(|s: String| s@);
    let mut res: Vec<DayGroup> = Vec::new();
    let mut j: usize = 0;
    while j < days.len()
        invariant
            j <= days@.len(),
            ds == dates@.map_values(|s: String| s@),
            dd == days@.map_values(|s: String| s@),
            dd == crate::sync::distinct_dates(ds),
            res@.len() == j,
            forall|i: int| 0 <= i < j ==> {
                &&& (#[trigger] res@[i]).date@ == dd[i]
                &&& res@[i].entries@.map_values(|k: usize| k as int) == positions_of(ds, res@[i].date@)
            },
        decreases days@.len() - j,
    {
        let entries = positions(dates, days[j].as_str());
        let g = DayGroup { date: days[j].clone(), entries };
        res.push(g);
        proof {
            assert(res@[j as int].date@ == dd[j as int]);
        }
        j += 1;
    }
    res
}

} // verus!
