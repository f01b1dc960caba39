//! In-memory cache entries with a time-to-live.
use vstd::prelude::*;

use std::time::{Duration, Instant};

verus! {

#[verifier::external_type_specification]
#[verifier::external_body]
pub struct ExInstant(Instant);

/// `Instant::now()`. Nothing is promised about the value: it is the clock.
#[verifier::external_body]
fn instant_now() -> Instant {
    Instant::now()
}

/// `Instant::elapsed`: the time since `i`. Nothing is promised about the
/// value: it is the clock.
#[verifier::external_body]
fn instant_elapsed(i: &Instant) -> Duration {
    i.elapsed()
}

/// `Duration::as_secs`: the whole seconds of `d`. Nothing is promised about
/// the value, which only the clock that gave `d` determines here.
#[verifier::external_body]
fn duration_secs(d: &Duration) -> u64 {
    d.as_secs()
}

/// Whole seconds since `i`, from the clock.
fn whole_secs_since(i: &Instant) -> u64 {
    duration_secs(&instant_elapsed(i))
}

/// A cached value and when it was fetched.
pub struct CacheEntry<T> {
    pub data: T,
    pub fetched_at: Instant,
}

/// An entry `elapsed_secs` old is stale once that age exceeds `max_age_secs`.
pub fn stale_after(elapsed_secs: u64, max_age_secs: u64) -> (b: bool)
    ensures
        b == (elapsed_secs > max_age_secs),
{
    elapsed_secs > max_age_secs
}

impl<T: Clone> CacheEntry<T> {
    /// A fresh entry holding `data`, fetched now.
    pub fn new(data: T) -> (e: CacheEntry<T>)
        ensures
            e.data == data,
    {
        CacheEntry { data, fetched_at: instant_now() }
    }

    /// Whether the entry is older than `max_age_secs` whole seconds.
    pub fn is_stale(&self, max_age_secs: u64) -> (b: bool)
        ensures
            max_age_secs == u64::MAX ==> !b,
    {
        let elapsed = whole_secs_since(&self.fetched_at);
        stale_after(elapsed, max_age_secs)
    }
}

} // verus!

verus! {

/// How old cached data for today may be before it is refreshed, in seconds.
pub const CACHE_MAX_AGE_TODAY: i64 = 60;

/// How old cached data for another day may be, in seconds.
pub const CACHE_MAX_AGE_PAST: i64 = 3600;

/// The age limit for a date's cached data: short for today, long otherwise.
pub fn max_age_for_date(date: &str, today: &str) -> (secs: i64)
    ensures
        secs == if date@ == today@ { CACHE_MAX_AGE_TODAY } else { CACHE_MAX_AGE_PAST },
{
    if crate::timer::str_eq(date, today) {
        CACHE_MAX_AGE_TODAY
    } else {
        CACHE_MAX_AGE_PAST
    }
}

/// How old a day of the background weekly prefetch may be before it is
/// fetched again, in seconds, for a day other than today.
pub const PREFETCH_MAX_AGE_PAST: i64 = 300;

/// The age limit the weekly prefetch uses: short for today, five minutes otherwise.
pub fn prefetch_max_age(date: &str, today: &str) -> (secs: i64)
    ensures
        secs == if date@ == today@ { CACHE_MAX_AGE_TODAY } else { PREFETCH_MAX_AGE_PAST },
{
    if crate::timer::str_eq(date, today) {
        CACHE_MAX_AGE_TODAY
    } else {
        PREFETCH_MAX_AGE_PAST
    }
}

/// Cached data is stale when its age is unknown or over the limit.
pub fn cache_is_stale(age_secs: Option<i64>, max_age_secs: i64) -> (b: bool)
    ensures
        b == match age_secs {
            None => true,
            Some(a) => a > max_age_secs,
        },
{
    match age_secs {
        None => true,
        Some(a) => a > max_age_secs,
    }
}

} // verus!
