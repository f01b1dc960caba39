//! Offline timesheet queue: which server errors are permanent, and how one
//! sync pass is tallied.
use vstd::prelude::*;

use crate::text::{contains_seq, find_chars, to_chars};
use crate::error::AppError;
use vstd::string::StringExecFns;

verus! {

/// Counts of queued entries by status.
#[derive(Debug, Clone, Copy)]
pub struct SyncStatusCounts {
    pub pending: i64,
    pub syncing: i64,
    pub synced: i64,
    pub failed: i64,
    pub duplicate: i64,
    pub rejected: i64,
}

/// Outcome of one sync pass.
#[derive(Debug, Clone, Copy)]
pub struct SyncResult {
    pub synced: usize,
    pub failed: usize,
    pub duplicates: usize,
    pub rejected: usize,
    pub remaining: usize,
    pub needs_review: usize,
}

/// The queue as the status view shows it.
#[derive(Debug, Clone, Copy)]
pub struct SyncStatus {
    pub pending_count: usize,
    pub counts: SyncStatusCounts,
    pub needs_review: usize,
}

// ── Permanent errors ─────────────────────────────────────────────────

/// What `str::to_lowercase` makes of `s` (Unicode lowercase mapping).
pub uninterp spec fn lowercase_of(s: Seq<char>) -> Seq<char>;

/// `str::to_lowercase`: the result is the Unicode lowercase mapping of the
/// argument, a function of the argument alone; the mapping itself is named,
/// not written out.
#[verifier::external_body]
pub(crate) fn to_lowercase(s: &str) -> (res: String)
    ensures
        res@ == lowercase_of(s@),
{
    s.to_lowercase()
}

/// Phrases in a server error that mean retrying cannot help.
pub open spec fn permanent_indicators() -> Seq<Seq<char>> {
    seq![
        "private task"@,
        "access denied"@,
        "access error"@,
        "permission denied"@,
        "not allowed"@,
        "cannot be created"@,
        "forbidden"@,
        "access right"@,
        "access rights"@,
        "does not exist"@,
        "record not found"@,
        "validation error"@,
    ]
}

/// An error is permanent when its lowercased text contains one of the indicators.
pub open spec fn is_permanent(msg: Seq<char>) -> bool {
    exists|k: int| 0 <= k < permanent_indicators().len() && contains_seq(lowercase_of(msg), #[trigger] permanent_indicators()[k])
}

/// Whether a server error is permanent (non-retryable).
pub fn is_permanent_error(error_msg: &str) -> (b: bool)
    ensures
        b == is_permanent(error_msg@),
{
    let msg = to_lowercase(error_msg);
    let m = to_chars(msg.as_str());
    let indicators: [&str; 12] = [
        "private task",
        "access denied",
        "access error",
        "permission denied",
        "not allowed",
        "cannot be created",
        "forbidden",
        "access right",
        "access rights",
        "does not exist",
        "record not found",
        "validation error",
    ];
    assert(indicators@.map_values(|s: &str| s@) =~= permanent_indicators());
    let mut k: usize = 0;
    while k < 12
        invariant
            k <= 12,
            m@ == lowercase_of(error_msg@),
            indicators@.map_values(|s: &str| s@) == permanent_indicators(),
            forall|j: int| 0 <= j < k ==> !contains_seq(m@, #[trigger] permanent_indicators()[j]),
        decreases 12 - k,
    {
        let ind = to_chars(indicators[k]);
        assert(ind@ == permanent_indicators()[k as int]);
        if find_chars(m.as_slice(), ind.as_slice()).is_some() {
            return true;
        }
        k += 1;
    }
    false
}

// ── Tallying a pass ──────────────────────────────────────────────────

/// What happened to one claimed entry.
#[derive(Debug, Clone, Copy, PartialEq, Eq)]
pub enum EntryEvent {
    /// It matched a line already on the server and was marked duplicate.
    DuplicateMarked,
    /// It matched a line, but marking it failed (it was released for retry).
    DuplicateMarkFailed,
    /// The server accepted it; `marked` says whether the local mark succeeded.
    Accepted { marked: bool },
    /// The server refused it; permanent refusals are rejected, others retried.
    Refused { permanent: bool },
}

/// Running counts of a pass.
#[derive(Debug, Clone, Copy)]
pub struct SyncTally {
    pub synced: usize,
    pub failed: usize,
    pub duplicates: usize,
    pub rejected: usize,
}

impl SyncTally {
    pub fn new() -> (t: SyncTally)
        ensures
            t.synced == 0 && t.failed == 0 && t.duplicates == 0 && t.rejected == 0,
    {
        SyncTally { synced: 0, failed: 0, duplicates: 0, rejected: 0 }
    }

    pub open spec fn total(&self) -> int {
        self.synced + self.failed + self.duplicates + self.rejected
    }

    /// Count one entry's outcome: a marked duplicate is a duplicate, an
    /// accepted entry that was marked is synced, a permanent refusal is
    /// rejected, and everything else is a failure to retry.
    pub fn record(&mut self, e: EntryEvent)
        requires
            old(self).total() < usize::MAX,
        ensures
            final(self).total() == old(self).total() + 1,
            final(self).duplicates == old(self).duplicates + if e == EntryEvent::DuplicateMarked { 1int } else { 0 },
            final(self).synced == old(self).synced + if e == (EntryEvent::Accepted { marked: true }) { 1int } else { 0 },
            final(self).rejected == old(self).rejected + if e == (EntryEvent::Refused { permanent: true }) { 1int } else { 0 },
            final(self).failed == old(self).failed + if e == EntryEvent::DuplicateMarkFailed || e == (EntryEvent::Accepted { marked: false })
                || e == (EntryEvent::Refused { permanent: false }) { 1int } else { 0 },
    {
        match e {
            EntryEvent::DuplicateMarked => self.duplicates = self.duplicates + 1,
            EntryEvent::DuplicateMarkFailed => self.failed = self.failed + 1,
            EntryEvent::Accepted { marked } => {
                if marked {
                    self.synced = self.synced + 1;
                } else {
                    self.failed = self.failed + 1;
                }
            },
            EntryEvent::Refused { permanent } => {
                if permanent {
                    self.rejected = self.rejected + 1;
                } else {
                    self.failed = self.failed + 1;
                }
            },
        }
    }
}

/// Entries still waiting for the server: pending plus failed.
pub open spec fn remaining_of(counts: SyncStatusCounts) -> int {
    counts.pending + counts.failed
}

/// The result of a pass: its tally, what remains queued, and how many
/// entries need the user's review.
pub fn finish_sync(tally: SyncTally, counts: SyncStatusCounts, needs_review: usize) -> (r: SyncResult)
    requires
        0 <= remaining_of(counts) <= usize::MAX,
    ensures
        r.synced == tally.synced && r.failed == tally.failed && r.duplicates == tally.duplicates
            && r.rejected == tally.rejected,
        r.remaining == remaining_of(counts),
        r.needs_review == needs_review,
{
    SyncResult {
        synced: tally.synced,
        failed: tally.failed,
        duplicates: tally.duplicates,
        rejected: tally.rejected,
        remaining: ((counts.pending as i128) + (counts.failed as i128)) as usize,
        needs_review,
    }
}

/// A pass that did nothing (another one was running, or nothing was
/// claimed): zero counts, with what remains and what needs review.
pub fn idle_sync(remaining: usize, needs_review: usize) -> (r: SyncResult)
    ensures
        r.synced == 0 && r.failed == 0 && r.duplicates == 0 && r.rejected == 0,
        r.remaining == remaining,
        r.needs_review == needs_review,
{
    SyncResult { synced: 0, failed: 0, duplicates: 0, rejected: 0, remaining, needs_review }
}

} // verus!

verus! {

// ── Retrying queued entries ──────────────────────────────────────────

/// Retries after which an entry waits for the user.
pub const MAX_AUTO_RETRIES: i64 = 10;

/// The longest wait between retries, in seconds.
pub const MAX_RETRY_BACKOFF_SECS: u64 = 3600;

pub open spec fn twice(k: nat) -> int
    decreases k,
{
    if k == 0 {
        1
    } else {
        2 * twice((k - 1) as nat)
    }
}

pub proof fn lemma_twice_grows(a: nat, b: nat)
    requires
        a <= b,
    ensures
        twice(a) <= twice(b),
        twice(a) >= 1,
    decreases b,
{
    if b > a {
        lemma_twice_grows(a, (b - 1) as nat);
    } else if a > 0 {
        lemma_twice_grows((a - 1) as nat, (a - 1) as nat);
    }
}

/// The wait before retry number `retry_count`: none before the first, then
/// 30 s doubling per retry, capped at an hour.
pub open spec fn retry_backoff(retry_count: i64) -> int {
    if retry_count <= 0 {
        0
    } else if 30 * twice((retry_count - 1) as nat) > MAX_RETRY_BACKOFF_SECS {
        MAX_RETRY_BACKOFF_SECS as int
    } else {
        30 * twice((retry_count - 1) as nat)
    }
}

pub fn retry_backoff_secs(retry_count: i64) -> (secs: u64)
    ensures
        secs == retry_backoff(retry_count),
{
    if retry_count <= 0 {
        return 0;
    }
    let mut v: u64 = 30;
    let mut k: i64 = 1;
    while k < retry_count && v <= MAX_RETRY_BACKOFF_SECS
        invariant
            1 <= k <= retry_count,
            v == 30 * twice((k - 1) as nat),
            v <= 2 * MAX_RETRY_BACKOFF_SECS,
        decreases retry_count - k,
    {
        v = v * 2;
        k = k + 1;
    }
    proof {
        if k < retry_count {
            lemma_twice_grows((k - 1) as nat, (retry_count - 1) as nat);
        }
    }
    if v > MAX_RETRY_BACKOFF_SECS {
        MAX_RETRY_BACKOFF_SECS
    } else {
        v
    }
}

/// Whether a queued entry may be retried now: it has retries left and its
/// wait is over (an entry never tried, or with an unreadable last attempt,
/// has nothing to wait for).
pub fn eligible_for_retry(retry_count: i64, secs_since_attempt: Option<i64>) -> (b: bool)
    ensures
        b == (retry_count < MAX_AUTO_RETRIES && match secs_since_attempt {
            None => true,
            Some(e) => e >= retry_backoff(retry_count),
        }),
{
    if retry_count >= MAX_AUTO_RETRIES {
        return false;
    }
    match secs_since_attempt {
        None => true,
        Some(e) => {
            let wait = retry_backoff_secs(retry_count);
            e >= 0 && (e as u64) >= wait
        },
    }
}

/// What `NaiveDateTime::parse_from_str(ts, "%Y-%m-%d %H:%M:%S")` followed by
/// `and_utc().timestamp()` makes of a stored timestamp: seconds since the
/// epoch, or `None` when the text does not parse.
pub uninterp spec fn sql_time_of(ts: Seq<char>) -> Option<i64>;

/// `chrono::NaiveDateTime::parse_from_str(ts, "%Y-%m-%d %H:%M:%S")`, read as
/// UTC seconds since the epoch. The result is a function of `ts` alone.
#[verifier::external_body]
fn sql_time_secs(ts: &str) -> (r: Option<i64>)
    ensures
        r == sql_time_of(ts@),
{
    match chrono::NaiveDateTime::parse_from_str(ts, "%Y-%m-%d %H:%M:%S") {
        Ok(dt) => Some(dt.and_utc().timestamp()),
        Err(_) => None,
    }
}

/// Whether a queued entry may be claimed at `now_secs`: it has retries left
/// and, when its last attempt's stored time reads, the backoff has passed
/// since then.
pub fn claimable(retry_count: i64, last_attempt_at: Option<&str>, now_secs: i64) -> (b: bool)
    ensures
        b == (retry_count < MAX_AUTO_RETRIES && match last_attempt_at {
            None => true,
            Some(t) => match sql_time_of(t@) {
                None => true,
                Some(s) => now_secs - s >= retry_backoff(retry_count),
            },
        }),
{
    if retry_count >= MAX_AUTO_RETRIES {
        return false;
    }
    let last = match last_attempt_at {
        None => {
            return true;
        },
        Some(t) => sql_time_secs(t),
    };
    match last {
        None => true,
        Some(s) => {
            let e: i128 = (now_secs as i128) - (s as i128);
            let wait = retry_backoff_secs(retry_count);
            e >= (wait as i128)
        },
    }
}

} // verus!

verus! {

// ── The dates a pass checks for duplicates ───────────────────────────

/// Inserts a date into a sorted list of distinct dates: after every date
/// that does not sort after it, unless it is already there.
pub open spec fn insert_date(sorted: Seq<Seq<char>>, x: Seq<char>) -> Seq<Seq<char>>
    decreases sorted.len(),
{
    if sorted.len() == 0 {
        seq![x]
    } else if crate::models::text_lt(x, sorted.last()) {
        insert_date(sorted.drop_last(), x).push(sorted.last())
    } else if x == sorted.last() {
        sorted
    } else {
        sorted.push(x)
    }
}

/// The distinct dates, in string order.
pub open spec fn distinct_dates(s: Seq<Seq<char>>) -> Seq<Seq<char>>
    decreases s.len(),
{
    if s.len() == 0 {
        Seq::empty()
    } else {
        insert_date(distinct_dates(s.drop_last()), s.last())
    }
}

/// Every date sorts strictly before every later one.
pub open spec fn strictly_sorted(s: Seq<Seq<char>>) -> bool {
    forall|i: int, j: int| 0 <= i < j < s.len() ==> crate::models::text_lt(#[trigger] s[i], #[trigger] s[j])
}

proof fn lemma_push_contains(s: Seq<Seq<char>>, x: Seq<char>)
    ensures
        forall|y: Seq<char>| #[trigger] s.push(x).contains(y) <==> (s.contains(y) || y == x),
{
    assert forall|y: Seq<char>| #[trigger] s.push(x).contains(y) implies (s.contains(y) || y == x) by {
        let k = choose|k: int| 0 <= k < s.push(x).len() && s.push(x)[k] == y;
        if k < s.len() {
            assert(s[k] == y);
        }
    }
    assert forall|y: Seq<char>| s.contains(y) || y == x implies #[trigger] s.push(x).contains(y) by {
        if y == x {
            assert(s.push(x)[s.len() as int] == y);
        } else {
            let k = choose|k: int| 0 <= k < s.len() && s[k] == y;
            assert(s.push(x)[k] == y);
        }
    }
}

/// Inserting into a strictly sorted list keeps it strictly sorted and adds
/// exactly the inserted date.
proof fn lemma_insert_date_sorted(sorted: Seq<Seq<char>>, x: Seq<char>)
    requires
        strictly_sorted(sorted),
    ensures
        strictly_sorted(insert_date(sorted, x)),
        forall|y: Seq<char>| #[trigger] insert_date(sorted, x).contains(y) <==> (sorted.contains(y) || y == x),
    decreases sorted.len(),
{
    if sorted.len() == 0 {
        lemma_push_contains(sorted, x);
        assert(sorted.push(x) =~= seq![x]);
    } else {
        let last = sorted.last();
        let d = sorted.drop_last();
        assert(d.push(last) =~= sorted);
        lemma_push_contains(d, last);
        assert(strictly_sorted(d)) by {
            assert forall|i: int, j: int| 0 <= i < j < d.len() implies crate::models::text_lt(
                #[trigger] d[i],
                #[trigger] d[j],
            ) by {
                assert(d[i] == sorted[i] && d[j] == sorted[j]);
            }
        }
        if crate::models::text_lt(x, last) {
            lemma_insert_date_sorted(d, x);
            let r = insert_date(d, x);
            lemma_push_contains(r, last);
            assert forall|i: int| 0 <= i < r.len() implies crate::models::text_lt(#[trigger] r[i], last) by {
                assert(r.contains(r[i]));
                if r[i] != x {
                    assert(d.contains(r[i]));
                    let k = choose|k: int| 0 <= k < d.len() && d[k] == r[i];
                    assert(sorted[k] == d[k]);
                    assert(sorted[sorted.len() - 1] == last);
                }
            }
            assert forall|i: int, j: int| 0 <= i < j < r.push(last).len() implies crate::models::text_lt(
                #[trigger] r.push(last)[i],
                #[trigger] r.push(last)[j],
            ) by {
                assert(r.push(last)[i] == r[i]);
                if j < r.len() {
                    assert(r.push(last)[j] == r[j]);
                }
            }
        } else if x == last {
            assert(sorted[sorted.len() - 1] == x);
        } else {
            crate::models::lemma_text_lt_total(x, last);
            lemma_push_contains(sorted, x);
            assert forall|i: int, j: int| 0 <= i < j < sorted.push(x).len() implies crate::models::text_lt(
                #[trigger] sorted.push(x)[i],
                #[trigger] sorted.push(x)[j],
            ) by {
                assert(sorted.push(x)[i] == sorted[i]);
                if j < sorted.len() {
                    assert(sorted.push(x)[j] == sorted[j]);
                } else if i < sorted.len() - 1 {
                    assert(crate::models::text_lt(sorted[i], sorted[sorted.len() - 1]));
                    crate::models::lemma_text_lt_transitive(sorted[i], last, x);
                }
            }
        }
    }
}

/// The distinct dates are strictly sorted and hold exactly the dates given.
pub proof fn lemma_distinct_dates(s: Seq<Seq<char>>)
    ensures
        strictly_sorted(distinct_dates(s)),
        forall|y: Seq<char>| #[trigger] distinct_dates(s).contains(y) <==> s.contains(y),
    decreases s.len(),
{
    if s.len() > 0 {
        let d = s.drop_last();
        lemma_distinct_dates(d);
        lemma_insert_date_sorted(distinct_dates(d), s.last());
        assert(d.push(s.last()) =~= s);
        lemma_push_contains(d, s.last());
    }
}

proof fn lemma_insert_date_at(sorted: Seq<Seq<char>>, x: Seq<char>, j: int)
    requires
        0 <= j <= sorted.len(),
        forall|i: int| j <= i < sorted.len() ==> crate::models::text_lt(x, #[trigger] sorted[i]),
        j > 0 ==> !crate::models::text_lt(x, sorted[j - 1]),
    ensures
        insert_date(sorted, x) == if j > 0 && sorted[j - 1] == x { sorted } else { sorted.insert(j, x) },
    decreases sorted.len(),
{
    if sorted.len() == j {
        if sorted.len() == 0 {
            assert(sorted.insert(0, x) =~= seq![x]);
        } else {
            assert(sorted.push(x) =~= sorted.insert(j, x));
        }
    } else {
        let last = sorted.last();
        assert(crate::models::text_lt(x, sorted[sorted.len() - 1]));
        let d = sorted.drop_last();
        assert forall|i: int| j <= i < d.len() implies crate::models::text_lt(x, #[trigger] d[i]) by {
            assert(d[i] == sorted[i]);
        }
        if j > 0 {
            assert(d[j - 1] == sorted[j - 1]);
        }
        lemma_insert_date_at(d, x, j);
        if j > 0 && sorted[j - 1] == x {
            assert(d.push(last) =~= sorted);
        } else {
            assert(d.insert(j, x).push(last) =~= sorted.insert(j, x));
        }
    }
}

/// The distinct dates of a pass's entries, in string order (what sorting
/// and removing repeats gives).
pub fn unique_dates(dates: &[String]) -> (res: Vec<String>)
    ensures
        res@.map_values(|s: String| s@) == distinct_dates(dates@.map_values(|s: String| s@)),
{
    let ghost src = dates@.map_values(|s: String| s@);
    let mut res: Vec<String> = Vec::new();
    let mut keys: Vec<Vec<char>> = Vec::new();
    let mut n: usize = 0;
    while n < dates.len()
        invariant
            n <= dates@.len(),
            src == dates@.map_values(|s: String| s@),
            keys@.len() == res@.len(),
            forall|i: int| 0 <= i < res@.len() ==> (#[trigger] keys@[i])@ == res@[i]@,
            res@.map_values(|s: String| s@) == distinct_dates(src.take(n as int)),
        decreases dates@.len() - n,
    {
        let k = to_chars(dates[n].as_str());
        let ghost sorted = res@.map_values(|s: String| s@);
        let ghost x = dates@[n as int]@;
        let mut j = res.len();
        while j > 0 && crate::models::chars_lt(k.as_slice(), keys[j - 1].as_slice())
            invariant
                j <= res@.len(),
                keys@.len() == res@.len(),
                forall|i: int| 0 <= i < res@.len() ==> (#[trigger] keys@[i])@ == res@[i]@,
                k@ == x,
                sorted == res@.map_values(|s: String| s@),
                forall|i: int| j <= i < sorted.len() ==> crate::models::text_lt(x, #[trigger] sorted[i]),
            decreases j,
        {
            assert(sorted[j - 1] == res@[j - 1]@);
            j -= 1;
        }
        proof {
            if j > 0 {
                assert(sorted[j - 1] == res@[j - 1]@);
            }
            lemma_insert_date_at(sorted, x, j as int);
            assert(src.take(n + 1).drop_last() == src.take(n as int));
            assert(src.take(n + 1).last() == x);
        }
        let dup = j > 0 && crate::text::chars_eq(keys[j - 1].as_slice(), k.as_slice());
        if !dup {
            let ghost old_res = res@;
            let ghost old_keys = keys@;
            res.insert(j, dates[n].clone());
            keys.insert(j, k);
            proof {
                assert(res@.map_values(|s: String| s@) =~= sorted.insert(j as int, x));
                assert forall|i: int| 0 <= i < res@.len() implies (#[trigger] keys@[i])@ == res@[i]@ by {
                    if i < j {
                        assert(keys@[i] == old_keys[i] && res@[i] == old_res[i]);
                    } else if i > j {
                        assert(keys@[i] == old_keys[i - 1] && res@[i] == old_res[i - 1]);
                    }
                }
            }
        }
        n += 1;
    }
    assert(src.take(src.len() as int) == src);
    res
}

} // verus!

verus! {

/// Every entry the queue still holds, whatever its status but synced.
pub open spec fn queued_total(c: SyncStatusCounts) -> int {
    c.pending + c.failed + c.syncing + c.duplicate + c.rejected
}

/// The queue as the status view shows it.
pub fn sync_status(counts: SyncStatusCounts, needs_review: usize) -> (s: SyncStatus)
    requires
        0 <= queued_total(counts) <= usize::MAX,
    ensures
        s.pending_count == queued_total(counts),
        s.counts == counts,
        s.needs_review == needs_review,
{
    let total: i128 = (counts.pending as i128) + (counts.failed as i128) + (counts.syncing as i128)
        + (counts.duplicate as i128) + (counts.rejected as i128);
    SyncStatus { pending_count: total as usize, counts, needs_review }
}

} // verus!

verus! {

// ── Lines on the server that match an entry ──────────────────────────

/// A line on the server matches an entry when it is not the excluded line,
/// names the entry's task, falls on its date and (as the caller measured,
/// within the tolerance) carries the same hours.
pub open spec fn line_matches(
    l: crate::models::LineView,
    task_id: i64,
    date: Seq<char>,
    hours_close: bool,
    exclude: Option<i64>,
) -> bool {
    &&& exclude != Some(l.id)
    &&& l.task_id matches Some(t) && t.0 == task_id
    &&& l.date == date
    &&& hours_close
}

/// The indices, in order, of the lines that match.
pub open spec fn matching_lines(
    ls: Seq<crate::models::LineView>,
    task_id: i64,
    date: Seq<char>,
    close: Seq<bool>,
    exclude: Option<i64>,
) -> Seq<int>
    decreases ls.len(),
{
    if ls.len() == 0 {
        Seq::empty()
    } else {
        let prev = matching_lines(ls.drop_last(), task_id, date, close.take(ls.len() - 1), exclude);
        if line_matches(ls.last(), task_id, date, close[ls.len() - 1], exclude) {
            prev.push(ls.len() - 1)
        } else {
            prev
        }
    }
}

/// The lines on `date` that would be flagged as duplicates of an entry on
/// `task_id`; `hours_close[i]` says whether line `i` carries the entry's
/// hours, and `exclude` keeps a line being edited from matching itself.
pub fn duplicate_matches(
    lines: &[crate::models::LineFields],
    task_id: i64,
    date: &str,
    hours_close: &[bool],
    exclude: Option<i64>,
) -> (res: Vec<usize>)
    requires
        hours_close@.len() == lines@.len(),
    ensures
        res@.map_values(|i: usize| i as int) == matching_lines(
            lines@.map_values(|l: crate::models::LineFields| l@),
            task_id,
            date@,
            hours_close@,
            exclude,
        ),
{
    let ghost ls = lines@.map_values(|l: crate::models::LineFields| l@);
    let mut res: Vec<usize> = Vec::new();
    let mut i: usize = 0;
    while i < lines.len()
        invariant
            i <= lines@.len(),
            hours_close@.len() == lines@.len(),
            ls == lines@.map_values(|l: crate::models::LineFields| l@),
            res@.map_values(|k: usize| k as int) == matching_lines(
                ls.take(i as int),
                task_id,
                date@,
                hours_close@.take(i as int),
                exclude,
            ),
        decreases lines@.len() - i,
    {
        let l = &lines[i];
        let not_excluded = match exclude {
            Some(x) => x != l.id,
            None => true,
        };
        let task_ok = match &l.task_id {
            Some(t) => t.0 == task_id,
            None => false,
        };
        let hit = not_excluded && task_ok && crate::timer::str_eq(l.date.as_str(), date) && hours_close[i];
        proof {
            assert(ls.take(i + 1).drop_last() =~= ls.take(i as int));
            assert(hours_close@.take(i + 1).take(i as int) =~= hours_close@.take(i as int));
            assert(ls.take(i + 1).last() == l@);
            assert(hit == line_matches(l@, task_id, date@, hours_close@[i as int], exclude));
        }
        if hit {
            res.push(i);
            proof {
                assert(res@.map_values(|k: usize| k as int) =~= matching_lines(
                    ls.take(i as int),
                    task_id,
                    date@,
                    hours_close@.take(i as int),
                    exclude,
                ).push(i as int));
            }
        }
        i += 1;
    }
    proof {
        assert(ls.take(lines@.len() as int) =~= ls);
        assert(hours_close@.take(lines@.len() as int) =~= hours_close@);
    }
    res
}

/// The first line on the server that already holds a queued entry, if any.
pub fn find_duplicate(
    lines: &[crate::models::LineFields],
    task_id: i64,
    date: &str,
    hours_close: &[bool],
) -> (res: Option<usize>)
    requires
        hours_close@.len() == lines@.len(),
    ensures
        ({
            let m = matching_lines(
                lines@.map_values(|l: crate::models::LineFields| l@),
                task_id,
                date@,
                hours_close@,
                None,
            );
            match res {
                Some(i) => m.len() > 0 && i as int == m[0],
                None => m.len() == 0,
            }
        }),
{
    let all = duplicate_matches(lines, task_id, date, hours_close, None);
    if all.len() == 0 {
        None
    } else {
        Some(all[0])
    }
}

} // verus!

verus! {

// ── Queue bookkeeping ────────────────────────────────────────────────

/// The status a failed attempt leaves: `rejected` when retrying cannot help,
/// `failed` otherwise.
pub fn failed_status(permanent: bool) -> (s: &'static str)
    ensures
        s@ == if permanent { "rejected"@ } else { "failed"@ },
{
    if permanent {
        "rejected"
    } else {
        "failed"
    }
}

/// Counts before any status was read.
pub fn no_counts() -> (c: SyncStatusCounts)
    ensures
        c.pending == 0 && c.syncing == 0 && c.synced == 0 && c.failed == 0 && c.duplicate == 0 && c.rejected == 0,
{
    SyncStatusCounts { pending: 0, syncing: 0, synced: 0, failed: 0, duplicate: 0, rejected: 0 }
}

/// Record the count of one status; an unknown status changes nothing.
pub fn count_status(counts: &mut SyncStatusCounts, status: &str, count: i64)
    ensures
        final(counts).pending == if status@ == "pending"@ { count } else { old(counts).pending },
        final(counts).syncing == if status@ == "syncing"@ { count } else { old(counts).syncing },
        final(counts).synced == if status@ == "synced"@ { count } else { old(counts).synced },
        final(counts).failed == if status@ == "failed"@ { count } else { old(counts).failed },
        final(counts).duplicate == if status@ == "duplicate"@ { count } else { old(counts).duplicate },
        final(counts).rejected == if status@ == "rejected"@ { count } else { old(counts).rejected },
{
    proof {
        reveal_strlit("pending");
        reveal_strlit("syncing");
        reveal_strlit("synced");
        reveal_strlit("failed");
        reveal_strlit("duplicate");
        reveal_strlit("rejected");
        assert("syncing"@[1] != "pending"@[1]);
        assert("synced"@[0] != "pending"@[0] && "synced"@.len() != "syncing"@.len());
        assert("failed"@[0] != "pending"@[0] && "failed"@[0] != "syncing"@[0] && "failed"@[0] != "synced"@[0]);
        assert("rejected"@.len() == 8 && "duplicate"@.len() == 9 && "pending"@.len() == 7 && "failed"@.len() == 6);
    }
    if crate::timer::str_eq(status, "pending") {
        counts.pending = count;
    } else if crate::timer::str_eq(status, "syncing") {
        counts.syncing = count;
    } else if crate::timer::str_eq(status, "synced") {
        counts.synced = count;
    } else if crate::timer::str_eq(status, "failed") {
        counts.failed = count;
    } else if crate::timer::str_eq(status, "duplicate") {
        counts.duplicate = count;
    } else if crate::timer::str_eq(status, "rejected") {
        counts.rejected = count;
    }
}

/// What the user decided for an entry under review.
#[derive(Debug, Clone, Copy, PartialEq, Eq)]
pub enum ResolveAction {
    /// Keep the line already on the server: the entry counts as synced.
    Skip,
    /// Send it again from scratch.
    Force,
    /// Drop it.
    Discard,
}

/// Read the user's decision; any other word is refused.
pub fn resolve_action(action: &str) -> (res: Result<ResolveAction, AppError>)
    ensures
        action@ == "skip"@ ==> res == Ok::<ResolveAction, AppError>(ResolveAction::Skip),
        action@ == "force"@ ==> res == Ok::<ResolveAction, AppError>(ResolveAction::Force),
        action@ == "discard"@ ==> res == Ok::<ResolveAction, AppError>(ResolveAction::Discard),
        !(action@ == "skip"@ || action@ == "force"@ || action@ == "discard"@) ==> (res matches Err(e) && e is General
            && e.text() == "Unknown resolve action: "@ + action@),
{
    proof {
        reveal_strlit("skip");
        reveal_strlit("force");
        reveal_strlit("discard");
        assert("force"@.len() != "skip"@.len());
        assert("discard"@.len() != "skip"@.len() && "discard"@.len() != "force"@.len());
    }
    if crate::timer::str_eq(action, "skip") {
        Ok(ResolveAction::Skip)
    } else if crate::timer::str_eq(action, "force") {
        Ok(ResolveAction::Force)
    } else if crate::timer::str_eq(action, "discard") {
        Ok(ResolveAction::Discard)
    } else {
        let mut m = String::from_str("Unknown resolve action: ");
        m.append(action);
        Err(AppError::General(m))
    }
}

} // verus!
