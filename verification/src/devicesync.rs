//! Cross-device timer sync: the live-session marker carried in a timesheet
//! line's description, the identities it names, the newest-start-wins
//! reconciliation rule, and the reconciler's poll cadence.
//!
//! A running timer is mirrored as a timesheet line whose description carries a
//! marker; every instance logged into the same server reads those markers back
//! to agree on what is being tracked. If two devices run a timer at once, the
//! one that started most recently wins and the loser's time is written rather
//! than discarded.
use chrono::TimeZone;
use std::hash::{BuildHasher, Hasher};
use vstd::prelude::*;

use crate::text::{
    char_is_control, contains_seq, find_chars, from_chars, i64_text, int_text, is_control,
    is_first_occurrence, occurs_at, parse_i64, parse_int, slice_chars, split_chars, split_on, to_chars,
    trim, trim_chars, trim_end, trim_end_chars, trim_start, lemma_trim_is_infix,
    lemma_trim_end_idempotent, lemma_int_text_chars, is_digit, lemma_split_on_none,
    lemma_split_on_concat, lemma_parse_int_text, hex16, hex16_text,
};
use vstd::string::StrSliceExecFns;
use crate::timer::SessionMeta;

verus! {

/// Sentinel that turns a timesheet line into a live session. ASCII on purpose:
/// it travels through XML-RPC `like` domains and list views unharmed.
pub const MARKER: &'static str = "#PTZ1#";

pub open spec fn marker_seq() -> Seq<char> {
    seq!['#', 'P', 'T', 'Z', '1', '#']
}

/// The characters of [`MARKER`].
pub fn marker_chars() -> (res: Vec<char>)
    ensures
        res@ == marker_seq(),
{
    proof {
        reveal_strlit("#PTZ1#");
    }
    let v = to_chars(MARKER);
    assert(v@ =~= marker_seq());
    v
}

// ── Marker codec ─────────────────────────────────────────────────────

/// The live-session header parsed out of a timesheet line's description.
/// `start` is the run's start in whole seconds since the Unix epoch (UTC).
#[derive(Debug, Clone)]
pub struct SessionMarker {
    pub session_id: String,
    pub device_id: String,
    pub device_label: String,
    pub start: i64,
}

/// What a marker says, as plain sequences.
pub struct MarkerFields {
    pub session_id: Seq<char>,
    pub device_id: Seq<char>,
    pub device_label: Seq<char>,
    pub start: i64,
}

impl SessionMarker {
    pub open spec fn fields(&self) -> MarkerFields {
        MarkerFields {
            session_id: self.session_id@,
            device_id: self.device_id@,
            device_label: self.device_label@,
            start: self.start,
        }
    }
}

/// `#` separates marker fields, and control characters have no business in a
/// description: both become `-`.
pub open spec fn sanitize_char(c: char) -> char {
    if c == '#' || is_control(c) {
        '-'
    } else {
        c
    }
}

pub open spec fn sanitized(s: Seq<char>) -> Seq<char> {
    s.map_values(|c: char| sanitize_char(c))
}

fn sanitize_into(out: &mut Vec<char>, field: &str)
    ensures
        final(out)@ == old(out)@ + sanitized(field@),
{
    let cs = to_chars(field);
    let ghost start = out@;
    let mut i: usize = 0;
    while i < cs.len()
        invariant
            i <= cs@.len(),
            cs@ == field@,
            out@ == start + sanitized(cs@.take(i as int)),
        decreases cs@.len() - i,
    {
        let c = cs[i];
        let d = if c == '#' || char_is_control(c) { '-' } else { c };
        out.push(d);
        assert(sanitized(cs@.take(i + 1)) =~= sanitized(cs@.take(i as int)).push(d));
        i += 1;
    }
    assert(cs@.take(cs@.len() as int) == cs@);
}

/// `field` with `#` and control characters replaced by `-`.
pub fn sanitize(field: &str) -> (res: String)
    ensures
        res@ == sanitized(field@),
{
    let mut out: Vec<char> = Vec::new();
    sanitize_into(&mut out, field);
    assert(out@ =~= sanitized(field@));
    from_chars(out.as_slice())
}

fn push_all(out: &mut Vec<char>, cs: &[char])
    ensures
        final(out)@ == old(out)@ + cs@,
{
    let ghost start = out@;
    let mut i: usize = 0;
    while i < cs.len()
        invariant
            i <= cs@.len(),
            out@ == start + cs@.take(i as int),
        decreases cs@.len() - i,
    {
        out.push(cs[i]);
        assert(cs@.take(i + 1) =~= cs@.take(i as int).push(cs@[i as int]));
        i += 1;
    }
    assert(cs@.take(cs@.len() as int) == cs@);
}

/// The description of a live line: the trimmed description, a space, the
/// marker, then session id, device id, device label and start seconds, each
/// followed by `#`.
pub open spec fn marked_text(
    description: Seq<char>,
    session_id: Seq<char>,
    device: Seq<char>,
    label: Seq<char>,
    start: i64,
) -> Seq<char> {
    trim(description) + seq![' '] + marker_seq() + sanitized(session_id) + seq!['#']
        + sanitized(device) + seq!['#'] + sanitized(label) + seq!['#'] + int_text(start as int)
        + seq!['#']
}

/// Append the live-session marker to a description.
pub fn mark_description(description: &str, session: &SessionMeta, start: i64) -> (res: String)
    ensures
        res@ == marked_text(
            description@,
            session.session_id@,
            session.origin_device@,
            session.origin_label@,
            start,
        ),
{
    let d = to_chars(description);
    let mut out = trim_chars(d.as_slice());
    out.push(' ');
    let m = marker_chars();
    push_all(&mut out, m.as_slice());
    sanitize_into(&mut out, session.session_id.as_str());
    out.push('#');
    sanitize_into(&mut out, session.origin_device.as_str());
    out.push('#');
    sanitize_into(&mut out, session.origin_label.as_str());
    out.push('#');
    let secs = i64_text(start);
    push_all(&mut out, secs.as_slice());
    out.push('#');
    assert(out@ =~= marked_text(
        description@,
        session.session_id@,
        session.origin_device@,
        session.origin_label@,
        start,
    ));
    from_chars(out.as_slice())
}

/// Whether `secs` whole seconds after the epoch is a representable UTC
/// instant (what `chrono` can hold: years -262143 through 262142).
pub open spec fn utc_seconds_in_range(secs: int) -> bool {
    -8334601228800 <= secs <= 8210266876799
}

/// `chrono::Utc.timestamp_opt(secs, 0).single().is_some()`: the source of
/// `DateTime::from_timestamp` accepts exactly the seconds whose day falls
/// between `NaiveDate::MIN` (1 Jan -262143) and `NaiveDate::MAX`
/// (31 Dec 262142); that is the range stated here.
#[verifier::external_body]
fn utc_timestamp_exists(secs: i64) -> (b: bool)
    ensures
        b == utc_seconds_in_range(secs as int),
{
    chrono::Utc.timestamp_opt(secs, 0).single().is_some()
}

/// How a description splits into its visible part and its marker.
pub open spec fn split_marker_spec(name: Seq<char>) -> (Seq<char>, Option<MarkerFields>) {
    if !contains_seq(name, marker_seq()) {
        (name, None)
    } else {
        let idx = choose|i: int| is_first_occurrence(name, marker_seq(), i);
        let clean = trim_end(name.take(idx));
        let parts = split_on(name.skip(idx + 6), '#');
        if parts.len() < 4 {
            (clean, None)
        } else {
            match parse_int(parts[3]) {
                None => (clean, None),
                Some(secs) => if !utc_seconds_in_range(secs as int) || parts[0].len() == 0 {
                    (clean, None)
                } else {
                    (
                        clean,
                        Some(
                            MarkerFields {
                                session_id: parts[0],
                                device_id: parts[1],
                                device_label: parts[2],
                                start: secs,
                            },
                        ),
                    )
                },
            }
        }
    }
}

proof fn lemma_first_occurrence_unique(s: Seq<char>, p: Seq<char>, i: int, j: int)
    requires
        is_first_occurrence(s, p, i),
        is_first_occurrence(s, p, j),
    ensures
        i == j,
{
    if i < j {
        assert(!occurs_at(s, p, i));
    } else if j < i {
        assert(!occurs_at(s, p, j));
    }
}

/// Split a description into its user-visible part and its marker, if any.
pub fn split_marker(name: &str) -> (res: (String, Option<SessionMarker>))
    ensures
        res.0@ == split_marker_spec(name@).0,
        match (res.1, split_marker_spec(name@).1) {
            (None, None) => true,
            (Some(m), Some(f)) => m.fields() == f,
            _ => false,
        },
{
    let cs = to_chars(name);
    let m = marker_chars();
    let found = find_chars(cs.as_slice(), m.as_slice());
    let idx = match found {
        None => {
            return (from_chars(cs.as_slice()), None);
        },
        Some(i) => i,
    };
    proof {
        let j = choose|j: int| is_first_occurrence(name@, marker_seq(), j);
        lemma_first_occurrence_unique(name@, marker_seq(), idx as int, j);
    }
    assert(m@.len() == 6);
    assert(occurs_at(cs@, m@, idx as int));
    let n = cs.len();
    assert(idx + 6 <= n);
    let head = slice_chars(cs.as_slice(), 0, idx);
    let clean_chars = trim_end_chars(head.as_slice());
    let clean = from_chars(clean_chars.as_slice());
    let rest = slice_chars(cs.as_slice(), idx + 6, cs.len());
    assert(head@ == name@.take(idx as int));
    assert(rest@ == name@.skip(idx + 6));
    let parts = split_chars(rest.as_slice(), '#');
    if parts.len() < 4 {
        return (clean, None);
    }
    let secs = match parse_i64(parts[3].as_slice()) {
        None => {
            return (clean, None);
        },
        Some(s) => s,
    };
    if !utc_timestamp_exists(secs) {
        return (clean, None);
    }
    if parts[0].len() == 0 {
        return (clean, None);
    }
    let marker = SessionMarker {
        session_id: from_chars(parts[0].as_slice()),
        device_id: from_chars(parts[1].as_slice()),
        device_label: from_chars(parts[2].as_slice()),
        start: secs,
    };
    (clean, Some(marker))
}

} // verus!

verus! {

proof fn lemma_sanitized_no_hash(s: Seq<char>)
    ensures
        forall|i: int| 0 <= i < sanitized(s).len() ==> sanitized(s)[i] != '#',
        sanitized(s).len() == s.len(),
{
}

/// Where the marker of a marked description sits.
proof fn lemma_marker_position(td: Seq<char>, description: Seq<char>, tail: Seq<char>)
    requires
        td == trim(description),
        !contains_seq(description, marker_seq()),
    ensures
        is_first_occurrence(td + seq![' '] + marker_seq() + tail, marker_seq(), td.len() as int + 1),
{
    let m = marker_seq();
    let t = td + seq![' '] + m + tail;
    let k = td.len() as int;
    assert(t.subrange(k + 1, k + 7) =~= m);
    assert forall|j: int| 0 <= j < k + 1 implies !occurs_at(t, m, j) by {
        if occurs_at(t, m, j) {
            if j + 6 <= k {
                lemma_trim_is_infix(description);
                let (a, b) = choose|a: int, b: int|
                    0 <= a <= b <= description.len() && td == description.subrange(a, b);
                assert(t.subrange(j, j + 6) =~= td.subrange(j, j + 6));
                assert(description.subrange(a + j, a + j + 6) =~= td.subrange(j, j + 6));
                assert(occurs_at(description, m, a + j));
            } else {
                assert(t[k] == ' ');
                assert(t.subrange(j, j + 6)[k - j] == t[k]);
                assert(m[k - j] != ' ');
            }
        }
    }
}

/// The fields after the marker split into exactly five pieces.
proof fn lemma_marker_fields_split(session_id: Seq<char>, device: Seq<char>, label: Seq<char>, start: i64)
    ensures
        ({
            let h = seq!['#'];
            let sid = sanitized(session_id);
            let sdev = sanitized(device);
            let slab = sanitized(label);
            let it = int_text(start as int);
            split_on(sid + h + sdev + h + slab + h + it + h, '#') == seq![sid, sdev, slab, it, Seq::<char>::empty()]
        }),
{
    let sid = sanitized(session_id);
    let sdev = sanitized(device);
    let slab = sanitized(label);
    let it = int_text(start as int);
    let h = seq!['#'];
    lemma_sanitized_no_hash(session_id);
    lemma_sanitized_no_hash(device);
    lemma_sanitized_no_hash(label);
    lemma_int_text_chars(start as int);
    assert forall|i: int| 0 <= i < it.len() implies it[i] != '#' by {
        assert(is_digit(it[i]) || it[i] == '-');
    }
    lemma_split_on_none(sid, '#');
    lemma_split_on_none(sdev, '#');
    lemma_split_on_none(slab, '#');
    lemma_split_on_none(it, '#');
    let e = Seq::<char>::empty();
    lemma_split_on_none(e, '#');
    lemma_split_on_concat(it, e, '#');
    assert(it + h + e =~= it + h);
    lemma_split_on_concat(slab, it + h, '#');
    assert(slab + h + (it + h) =~= slab + h + it + h);
    lemma_split_on_concat(sdev, slab + h + it + h, '#');
    assert(sdev + h + (slab + h + it + h) =~= sdev + h + slab + h + it + h);
    lemma_split_on_concat(sid, sdev + h + slab + h + it + h, '#');
    assert(sid + h + (sdev + h + slab + h + it + h) =~= sid + h + sdev + h + slab + h + it + h);
    assert(split_on(sid + h + sdev + h + slab + h + it + h, '#') =~= seq![sid, sdev, slab, it, e]);
}

/// Marking a description and splitting it again gives back the trimmed
/// description and the session's fields (sanitized), provided the description
/// does not itself contain the marker and the start is a representable
/// instant. A run with an empty session id yields no marker.
pub proof fn law_marker_round_trip(
    description: Seq<char>,
    session_id: Seq<char>,
    device: Seq<char>,
    label: Seq<char>,
    start: i64,
)
    requires
        !contains_seq(description, marker_seq()),
        utc_seconds_in_range(start as int),
    ensures
        split_marker_spec(marked_text(description, session_id, device, label, start)).0 == trim(description),
        session_id.len() == 0 ==> split_marker_spec(
            marked_text(description, session_id, device, label, start),
        ).1 is None,
        session_id.len() > 0 ==> split_marker_spec(
            marked_text(description, session_id, device, label, start),
        ).1 == Some(
            MarkerFields {
                session_id: sanitized(session_id),
                device_id: sanitized(device),
                device_label: sanitized(label),
                start,
            },
        ),
{
    let m = marker_seq();
    let td = trim(description);
    let k = td.len() as int;
    let h = seq!['#'];
    let tail = sanitized(session_id) + h + sanitized(device) + h + sanitized(label) + h + int_text(
        start as int,
    ) + h;
    let t = marked_text(description, session_id, device, label, start);
    assert(t =~= td + seq![' '] + m + tail);
    lemma_marker_position(td, description, tail);
    assert(contains_seq(t, m));
    let idx = choose|i: int| is_first_occurrence(t, m, i);
    lemma_first_occurrence_unique(t, m, idx, k + 1);
    assert(t.take(k + 1) =~= td.push(' '));
    assert(td.push(' ').drop_last() =~= td);
    lemma_trim_end_idempotent(trim_start(description));
    assert(trim_end(t.take(k + 1)) == trim_end(td));
    assert(t.skip(k + 7) =~= tail);
    lemma_marker_fields_split(session_id, device, label, start);
    lemma_parse_int_text(start);
    lemma_sanitized_no_hash(session_id);
}

} // verus!

verus! {

// ── Device identity ──────────────────────────────────────────────────

/// Stable identity of this install.
#[derive(Debug, Clone)]
pub struct DeviceIdentity {
    pub id: String,
    pub label: String,
}

#[verifier::external_type_specification]
#[verifier::external_body]
pub struct ExSystemTime(std::time::SystemTime);

/// `RandomState::new()`: std's hasher builder with fresh random keys. Nothing
/// is promised about the keys: they are random.
#[verifier::external_body]
fn random_state() -> std::collections::hash_map::RandomState {
    std::collections::hash_map::RandomState::new()
}

/// `BuildHasher::build_hasher`: a hasher keyed by the builder's keys. Nothing
/// is promised about its state.
#[verifier::external_body]
fn hasher_of(s: &std::collections::hash_map::RandomState) -> std::collections::hash_map::DefaultHasher {
    s.build_hasher()
}

/// A fresh seed: what a hasher with fresh random keys gives for no input.
fn random_seed() -> u64 {
    let h = hasher_of(&random_state());
    h.finish()
}

/// `SystemTime::now()`. Nothing is promised about the value: it is the clock.
#[verifier::external_body]
fn system_now() -> std::time::SystemTime {
    std::time::SystemTime::now()
}

/// `t.duration_since(UNIX_EPOCH)`: the time since the epoch, `None` when `t`
/// is earlier. Nothing is promised about the value: it comes from the clock.
#[verifier::external_body]
fn since_epoch(t: &std::time::SystemTime) -> Option<std::time::Duration> {
    match t.duration_since(std::time::UNIX_EPOCH) {
        Ok(d) => Some(d),
        Err(_) => None,
    }
}

/// `Duration::as_nanos`: the whole nanoseconds of `d`.
#[verifier::external_body]
fn duration_nanos(d: &std::time::Duration) -> u128 {
    d.as_nanos()
}

/// Nanoseconds since the Unix epoch, low 64 bits; `None` when the clock reads
/// earlier than the epoch.
fn clock_nanos() -> Option<u64> {
    match since_epoch(&system_now()) {
        Some(d) => {
            let n = duration_nanos(&d);
            Some((n % 0x1_0000_0000_0000_0000u128) as u64)
        },
        None => None,
    }
}

/// `x.rotate_left(17)`.
pub open spec fn rotl17(x: u64) -> u64 {
    (x << 17u64) | (x >> 47u64)
}

/// The id minted from a hasher seed and the clock: the seed xor the clock
/// rotated left by 17 bits, as sixteen lowercase hex digits.
pub open spec fn id_text(seed: u64, nanos: u64) -> Seq<char> {
    hex16(seed ^ rotl17(nanos))
}

/// Id text for the given seed and clock reading.
pub fn id_from(seed: u64, nanos: u64) -> (res: String)
    ensures
        res@ == id_text(seed, nanos),
{
    let mixed = seed ^ ((nanos << 17u64) | (nanos >> 47u64));
    let cs = hex16_text(mixed);
    from_chars(cs.as_slice())
}

/// 16 hex chars from a fresh random seed mixed with the wall clock — enough to
/// keep device and session ids apart.
pub fn random_id() -> (res: String)
    ensures
        res@.len() == 16,
        exists|seed: u64, nanos: u64| res@ == id_text(seed, nanos),
{
    let seed = random_seed();
    let nanos = match clock_nanos() {
        Some(n) => n,
        None => 0,
    };
    id_from(seed, nanos)
}

/// Pick this install's identity from what the settings hold: a stored id
/// that is not empty is kept, otherwise `fresh_id` is minted (and the second
/// component says so, so the caller persists it); a stored label that is not
/// blank is kept, otherwise `default_label` is used.
pub fn choose_identity(
    stored_id: Option<String>,
    stored_label: Option<String>,
    fresh_id: String,
    default_label: String,
) -> (res: (DeviceIdentity, bool))
    ensures
        match stored_id {
            Some(s) if s@.len() > 0 => res.0.id == s && !res.1,
            _ => res.0.id == fresh_id && res.1,
        },
        match stored_label {
            Some(l) if trim(l@).len() > 0 => res.0.label == l,
            _ => res.0.label == default_label,
        },
{
    let (id, minted) = match stored_id {
        Some(s) => {
            if s.as_str().unicode_len() > 0 {
                (s, false)
            } else {
                (fresh_id, true)
            }
        },
        None => (fresh_id, true),
    };
    let label = match stored_label {
        Some(l) => {
            let cs = to_chars(l.as_str());
            if trim_chars(cs.as_slice()).len() > 0 {
                l
            } else {
                default_label
            }
        },
        None => default_label,
    };
    (DeviceIdentity { id, label }, minted)
}

/// The session identity for a run started on this device: local-only when
/// sync is off, otherwise a fresh id stamped with this device's id and label.
pub fn session_for(sync_enabled: bool, device: &DeviceIdentity, fresh_id: String) -> (s: SessionMeta)
    ensures
        !sync_enabled ==> s.session_id@.len() == 0 && s.origin_device@.len() == 0
            && s.origin_label@.len() == 0 && s.odoo_line_id is None,
        sync_enabled ==> s == (SessionMeta {
            session_id: fresh_id,
            origin_device: device.id,
            origin_label: device.label,
            odoo_line_id: None,
        }),
{
    if !sync_enabled {
        return SessionMeta::local_only();
    }
    SessionMeta {
        session_id: fresh_id,
        origin_device: device.id.clone(),
        origin_label: device.label.clone(),
        odoo_line_id: None,
    }
}

// ── Poll cadence ─────────────────────────────────────────────────────

/// First interval after any activity, window on screen.
pub const POLL_FOREGROUND_SECS: u64 = 15;
/// First interval after any activity, minimised or backgrounded.
pub const POLL_BACKGROUND_SECS: u64 = 60;
/// Ceilings once the reconciler has had nothing to do for a while.
pub const POLL_FOREGROUND_MAX_SECS: u64 = 120;
pub const POLL_BACKGROUND_MAX_SECS: u64 = 600;
/// Clamp on the poll while the server cannot be reached (mobile only).
pub const NET_FAILURE_BASE_SECS: u64 = 60;
pub const NET_FAILURE_MAX_SECS: u64 = 600;
/// Log the first consecutive failure and then only every Nth.
pub const FAILURE_LOG_EVERY: u32 = 10;
/// Consecutive empty polls before concluding another device ended the run.
pub const MISSING_POLLS_BEFORE_STOP: u32 = 2;
/// How often the owning device refreshes the elapsed hours on its live line.
pub const HEARTBEAT_SECS: u64 = 60;

/// `2^min(k, cap)` for the small shifts the cadences use.
pub open spec fn doubling(k: int) -> int {
    if k <= 0 {
        1
    } else if k == 1 {
        2
    } else if k == 2 {
        4
    } else if k == 3 {
        8
    } else {
        16
    }
}

pub open spec fn min_int(a: int, b: int) -> int {
    if a < b {
        a
    } else {
        b
    }
}

/// The poll interval: the base cadence doubled per quiet pass (at most four
/// doublings), capped.
pub open spec fn poll_interval_spec(visible: bool, quiet_passes: u32) -> int {
    let (base, cap) = if visible {
        (POLL_FOREGROUND_SECS as int, POLL_FOREGROUND_MAX_SECS as int)
    } else {
        (POLL_BACKGROUND_SECS as int, POLL_BACKGROUND_MAX_SECS as int)
    };
    min_int(base * doubling(min_int(quiet_passes as int, 4)), cap)
}

proof fn lemma_shift_small(base: u64, k: u64)
    requires
        base <= 600,
        k <= 4,
    ensures
        (base << k) as int == base * doubling(k as int),
{
    assert(base << 0u64 == base * 1) by (bit_vector)
        requires
            base <= 600,
    ;
    assert(base << 1u64 == base * 2) by (bit_vector)
        requires
            base <= 600,
    ;
    assert(base << 2u64 == base * 4) by (bit_vector)
        requires
            base <= 600,
    ;
    assert(base << 3u64 == base * 8) by (bit_vector)
        requires
            base <= 600,
    ;
    assert(base << 4u64 == base * 16) by (bit_vector)
        requires
            base <= 600,
    ;
}

/// Back off while the reconciler has nothing to do: doubling per quiet pass,
/// from the base cadence up to a ceiling.
pub fn poll_interval(visible: bool, quiet_passes: u32) -> (secs: u64)
    ensures
        secs == poll_interval_spec(visible, quiet_passes),
{
    let (base, cap) = if visible {
        (POLL_FOREGROUND_SECS, POLL_FOREGROUND_MAX_SECS)
    } else {
        (POLL_BACKGROUND_SECS, POLL_BACKGROUND_MAX_SECS)
    };
    let k: u64 = if quiet_passes < 4 { quiet_passes as u64 } else { 4 };
    proof {
        lemma_shift_small(base, k);
    }
    let v = base << k;
    if v < cap { v } else { cap }
}

/// Doubling per consecutive failed pass from a minute, capped at ten minutes.
pub open spec fn net_failure_backoff_spec(failures: u32) -> int {
    let k = if failures == 0 { 0 } else { failures - 1 };
    min_int(NET_FAILURE_BASE_SECS as int * doubling(min_int(k, 4)), NET_FAILURE_MAX_SECS as int)
}

pub fn net_failure_backoff(failures: u32) -> (secs: u64)
    ensures
        secs == net_failure_backoff_spec(failures),
{
    let k0 = failures.saturating_sub(1);
    let k: u64 = if k0 < 4 { k0 as u64 } else { 4 };
    proof {
        lemma_shift_small(NET_FAILURE_BASE_SECS, k);
    }
    let v = NET_FAILURE_BASE_SECS << k;
    if v < NET_FAILURE_MAX_SECS { v } else { NET_FAILURE_MAX_SECS }
}

/// First consecutive failure, then only every [`FAILURE_LOG_EVERY`]th.
pub fn should_log_failure(failures: u32) -> (b: bool)
    ensures
        b == (failures == 1 || failures % FAILURE_LOG_EVERY == 0),
{
    failures == 1 || failures % FAILURE_LOG_EVERY == 0
}

/// The wait before the next reconcile pass. On mobile, while the server is
/// unreachable, the poll is stretched to at least the failure backoff.
pub fn next_poll_delay(visible: bool, quiet_passes: u32, mobile: bool, net_failures: u32) -> (secs: u64)
    ensures
        secs == (if mobile && net_failures > 0 && poll_interval_spec(visible, quiet_passes)
            < net_failure_backoff_spec(net_failures) {
            net_failure_backoff_spec(net_failures)
        } else {
            poll_interval_spec(visible, quiet_passes)
        }),
{
    let interval = poll_interval(visible, quiet_passes);
    if mobile && net_failures > 0 {
        let b = net_failure_backoff(net_failures);
        if interval < b { b } else { interval }
    } else {
        interval
    }
}

/// Consecutive failed polls after a poll: a success clears the count, a
/// failure adds one (the count stops at its largest value).
pub fn next_net_failures(failed: bool, failures: u32) -> (f: u32)
    ensures
        f == (if !failed { 0 } else if failures == u32::MAX { u32::MAX } else { (failures + 1) as u32 }),
{
    if failed { failures.saturating_add(1) } else { 0 }
}

/// Quiet passes after a pass: any activity resets the count.
pub fn next_quiet_passes(changed: bool, quiet_passes: u32) -> (q: u32)
    ensures
        q == (if changed { 0 } else if quiet_passes == u32::MAX { u32::MAX } else { (quiet_passes + 1) as u32 }),
{
    if changed { 0 } else { quiet_passes.saturating_add(1) }
}

} // verus!

verus! {

// ── Pull: what Odoo says is running vs what this device runs ──────────

/// A timesheet line that may carry a live-session marker, as the server lists it.
#[derive(Debug, Clone)]
pub struct LiveLine {
    pub id: i64,
    pub name: String,
    pub task_id: Option<(i64, String)>,
    pub project_id: Option<(i64, String)>,
    pub date: String,
}

/// A run some device publishes as live.
#[derive(Debug, Clone)]
pub struct RemoteRun {
    pub line_id: i64,
    pub task_id: i64,
    pub task_name: String,
    pub project_id: i64,
    pub project_name: String,
    pub description: String,
    pub date: String,
    pub marker: SessionMarker,
}

/// `queued` holds `id`.
pub open spec fn seq_has(queued: Seq<String>, id: Seq<char>) -> bool {
    exists|k: int| 0 <= k < queued.len() && queued[k]@ == id
}

/// A line drives a remote run when it carries a marker, its session is not
/// already queued for settlement here, and it names a task.
pub open spec fn line_is_remote_run(line: LiveLine, queued: Seq<String>) -> bool {
    &&& split_marker_spec(line.name@).1 is Some
    &&& !seq_has(queued, split_marker_spec(line.name@).1->Some_0.session_id)
    &&& line.task_id matches Some((t, _)) && t != 0
}

/// The lines that drive remote runs, in order.
pub open spec fn remote_lines(lines: Seq<LiveLine>, queued: Seq<String>) -> Seq<LiveLine>
    decreases lines.len(),
{
    if lines.len() == 0 {
        Seq::empty()
    } else {
        let prev = remote_lines(lines.drop_last(), queued);
        if line_is_remote_run(lines.last(), queued) {
            prev.push(lines.last())
        } else {
            prev
        }
    }
}

/// `run` is what `line` describes.
pub open spec fn describes(run: RemoteRun, line: LiveLine) -> bool {
    &&& run.line_id == line.id
    &&& line.task_id matches Some((t, n)) && run.task_id == t && run.task_name == n
    &&& match line.project_id {
        Some((p, n)) => run.project_id == p && run.project_name == n,
        None => run.project_id == 0 && run.project_name@.len() == 0,
    }
    &&& run.description@ == split_marker_spec(line.name@).0
    &&& split_marker_spec(line.name@).1 == Some(run.marker.fields())
    &&& run.date == line.date
}

fn queued_has(queued: &[String], id: &str) -> (b: bool)
    ensures
        b == seq_has(queued@, id@),
{
    let mut k: usize = 0;
    while k < queued.len()
        invariant
            k <= queued@.len(),
            forall|j: int| 0 <= j < k ==> queued@[j]@ != id@,
        decreases queued@.len() - k,
    {
        if crate::timer::str_eq(queued[k].as_str(), id) {
            return true;
        }
        k += 1;
    }
    false
}

/// The remote run a line describes, if it drives one.
pub fn remote_run_of(line: LiveLine, queued: &[String]) -> (res: Option<RemoteRun>)
    ensures
        line_is_remote_run(line, queued@) <==> res is Some,
        res matches Some(r) ==> describes(r, line),
        forall|k: int|
            0 <= k < queued@.len() && (split_marker_spec(line.name@).1 matches Some(m) && #[trigger] queued@[k]@
                == m.session_id) ==> res is None,
{
    let (description, marker) = split_marker(line.name.as_str());
    let marker = match marker {
        Some(m) => m,
        None => {
            return None;
        },
    };
    if queued_has(queued, marker.session_id.as_str()) {
        return None;
    }
    let (task_id, task_name) = match line.task_id {
        Some(t) => t,
        None => (0, String::new()),
    };
    let (project_id, project_name) = match line.project_id {
        Some(p) => p,
        None => (0, String::new()),
    };
    if task_id == 0 {
        return None;
    }
    Some(
        RemoteRun {
            line_id: line.id,
            task_id,
            task_name,
            project_id,
            project_name,
            description,
            date: line.date,
            marker,
        },
    )
}

/// The remote runs among the live lines, in order.
pub fn collect_remote_runs(lines: Vec<LiveLine>, queued: &[String]) -> (res: Vec<RemoteRun>)
    ensures
        res@.len() == remote_lines(lines@, queued@).len(),
        forall|k: int| 0 <= k < res@.len() ==> describes(#[trigger] res@[k], remote_lines(lines@, queued@)[k]),
{
    let mut res: Vec<RemoteRun> = Vec::new();
    let ghost all = lines@;
    let n = lines.len();
    assert(all.len() == n);
    let mut rest = lines;
    let mut i: usize = 0;
    while rest.len() > 0
        invariant
            i <= all.len(),
            all.len() <= usize::MAX,
            rest@ == all.skip(i as int),
            res@.len() == remote_lines(all.take(i as int), queued@).len(),
            forall|k: int| 0 <= k < res@.len() ==> describes(#[trigger] res@[k], remote_lines(all.take(i as int), queued@)[k]),
        decreases rest@.len(),
    {
        let line = rest.remove(0);
        assert(line == all[i as int]);
        assert(all.take(i + 1).drop_last() == all.take(i as int));
        assert(all.take(i + 1).last() == all[i as int]);
        let r = remote_run_of(line, queued);
        match r {
            Some(run) => {
                res.push(run);
            },
            None => {},
        }
        assert(rest@ == all.skip(i + 1));
        i += 1;
    }
    assert(all.take(all.len() as int) == all);
    res
}

} // verus!

verus! {

/// What the reconciler needs to know of the run this device is tracking.
/// `start_ns` is its start in nanoseconds since the epoch.
#[derive(Debug, Clone)]
pub struct LocalRunInfo {
    pub session_id: String,
    pub odoo_line_id: Option<i64>,
    pub start_ns: i64,
}

/// What one pull decides.
#[derive(Debug)]
pub struct PullPlan {
    /// The new count of consecutive polls that missed our published run.
    pub missing_polls: u32,
    /// Another device ended our run: stop the local timer without logging.
    pub accept_remote_stop: bool,
    /// Whether our own published line is (still) live, for the push that follows.
    pub ours_is_live: Option<bool>,
    /// Indices of remote runs that lost the newest-start contest: each is settled.
    pub losers: Vec<usize>,
    /// Index of the remote run that started last (the last one among equals).
    pub newest: Option<usize>,
    /// The local run started after every remote run and keeps going.
    pub local_wins: bool,
    /// We already track the winning run but lack its line: attach it.
    pub attach_winner_line: bool,
    /// Our own run lost and was not settled elsewhere: hand it to the outbox.
    pub settle_own: bool,
    /// Take over the newest remote run.
    pub adopt_newest: bool,
    /// The pass changed something (attaching the line, when it succeeds, also does).
    pub changed: bool,
}

/// `i` is the index of the latest start in `rs`, the last one among equals.
pub open spec fn is_newest(rs: Seq<RemoteRun>, i: int) -> bool {
    &&& 0 <= i < rs.len()
    &&& forall|j: int| 0 <= j < rs.len() ==> (#[trigger] rs[j]).marker.start <= rs[i].marker.start
    &&& forall|j: int| i < j < rs.len() ==> (#[trigger] rs[j]).marker.start < rs[i].marker.start
}

/// A local run that started at `start_ns` is newer than a remote run that
/// started at `secs`.
pub open spec fn starts_after(start_ns: i64, secs: i64) -> bool {
    start_ns as int > secs as int * 1_000_000_000
}

/// Whether some remote run carries `id`.
pub open spec fn remote_has_session(rs: Seq<RemoteRun>, id: Seq<char>) -> bool {
    exists|j: int| 0 <= j < rs.len() && (#[trigger] rs[j]).marker.session_id@ == id
}

/// `losers` lists, in increasing order, exactly the indices of `rs` whose
/// session is not `winner`.
pub open spec fn losers_are(losers: Seq<usize>, rs: Seq<RemoteRun>, winner: Seq<char>) -> bool {
    &&& forall|k: int| 0 <= k < losers.len() ==> (#[trigger] losers[k]) < rs.len() && rs[losers[k] as int].marker.session_id@ != winner
    &&& forall|k: int, l: int| 0 <= k < l < losers.len() ==> losers[k] < losers[l]
    &&& forall|i: int| 0 <= i < rs.len() && (#[trigger] rs[i]).marker.session_id@ != winner ==> exists|k: int| 0 <= k < losers.len() && losers[k] == i
}

fn find_newest(rs: &[RemoteRun]) -> (i: usize)
    requires
        rs@.len() > 0,
    ensures
        is_newest(rs@, i as int),
{
    let mut best: usize = 0;
    let mut j: usize = 1;
    while j < rs.len()
        invariant
            1 <= j <= rs@.len(),
            best < j,
            forall|k: int| 0 <= k < j ==> (#[trigger] rs@[k]).marker.start <= rs@[best as int].marker.start,
            forall|k: int| best < k < j ==> (#[trigger] rs@[k]).marker.start < rs@[best as int].marker.start,
        decreases rs@.len() - j,
    {
        if rs[j].marker.start >= rs[best].marker.start {
            best = j;
        }
        j += 1;
    }
    best
}

fn has_session(rs: &[RemoteRun], id: &str) -> (b: bool)
    ensures
        b == remote_has_session(rs@, id@),
{
    let mut j: usize = 0;
    while j < rs.len()
        invariant
            j <= rs@.len(),
            forall|k: int| 0 <= k < j ==> (#[trigger] rs@[k]).marker.session_id@ != id@,
        decreases rs@.len() - j,
    {
        if crate::timer::str_eq(rs[j].marker.session_id.as_str(), id) {
            return true;
        }
        j += 1;
    }
    false
}

fn collect_losers(rs: &[RemoteRun], winner: &str) -> (losers: Vec<usize>)
    ensures
        losers_are(losers@, rs@, winner@),
{
    let mut losers: Vec<usize> = Vec::new();
    let mut j: usize = 0;
    while j < rs.len()
        invariant
            j <= rs@.len(),
            forall|k: int| 0 <= k < losers@.len() ==> (#[trigger] losers@[k]) < j && rs@[losers@[k] as int].marker.session_id@ != winner@,
            forall|k: int, l: int| 0 <= k < l < losers@.len() ==> losers@[k] < losers@[l],
            forall|i: int| 0 <= i < j && (#[trigger] rs@[i]).marker.session_id@ != winner@ ==> exists|k: int| 0 <= k < losers@.len() && losers@[k] == i,
        decreases rs@.len() - j,
    {
        let ghost before = losers@;
        if !crate::timer::str_eq(rs[j].marker.session_id.as_str(), winner) {
            losers.push(j);
            assert(losers@[losers@.len() - 1] == j);
        }
        assert forall|i: int| 0 <= i < j + 1 && (#[trigger] rs@[i]).marker.session_id@ != winner@ implies exists|k: int| 0 <= k < losers@.len() && losers@[k] == i by {
            if i < j {
                let k = choose|k: int| 0 <= k < before.len() && before[k] == i;
                assert(losers@[k] == before[k]);
            } else {
                assert(losers@[losers@.len() - 1] == j);
            }
        }
        j += 1;
    }
    losers
}

/// Reconcile what the server says is running with what this device runs.
///
/// With no live remote run, a published local run that has gone missing for
/// [`MISSING_POLLS_BEFORE_STOP`] polls in a row was ended elsewhere. Otherwise
/// the newest start wins, local run included: every remote run of another
/// session is settled, and unless the local run is newest this device
/// mirrors the newest remote run, handing its own run to the outbox first
/// unless the winner's device already settled it.
pub fn decide_pull(rs: &[RemoteRun], local: Option<&LocalRunInfo>, missing_polls: u32) -> (plan: PullPlan)
    requires
        missing_polls < u32::MAX,
    ensures
        rs@.len() == 0 ==> {
            let published = local matches Some(r) && r.odoo_line_id is Some;
            &&& plan.newest is None
            &&& plan.losers@.len() == 0
            &&& !plan.local_wins && !plan.adopt_newest && !plan.settle_own && !plan.attach_winner_line
            &&& plan.ours_is_live == Some(false)
            &&& published && missing_polls + 1 >= MISSING_POLLS_BEFORE_STOP ==> plan.accept_remote_stop
                && plan.missing_polls == 0 && plan.changed
            &&& published && missing_polls + 1 < MISSING_POLLS_BEFORE_STOP ==> !plan.accept_remote_stop
                && plan.missing_polls == missing_polls + 1 && !plan.changed
            &&& !published ==> !plan.accept_remote_stop && plan.missing_polls == 0 && !plan.changed
        },
        rs@.len() > 0 ==> {
            let n = plan.newest->Some_0 as int;
            let ours_before = local matches Some(r) && r.odoo_line_id is Some
                && remote_has_session(rs@, r.session_id@);
            let winner = if plan.local_wins { local->Some_0.session_id@ } else { rs@[n].marker.session_id@ };
            &&& plan.newest is Some && is_newest(rs@, n)
            &&& plan.missing_polls == 0 && !plan.accept_remote_stop
            &&& plan.local_wins == (local matches Some(r) && starts_after(r.start_ns, rs@[n].marker.start))
            &&& losers_are(plan.losers@, rs@, winner)
            &&& plan.local_wins ==> plan.ours_is_live == Some(ours_before) && !plan.adopt_newest
                && !plan.settle_own && !plan.attach_winner_line && plan.changed == (plan.losers@.len() > 0)
            &&& !plan.local_wins && (local matches Some(r) && r.session_id@ == rs@[n].marker.session_id@)
                ==> plan.ours_is_live == Some(true) && !plan.adopt_newest && !plan.settle_own
                && plan.attach_winner_line == (local->Some_0.odoo_line_id is None)
                && plan.changed == (plan.losers@.len() > 0)
            &&& !plan.local_wins && (local matches Some(r) && r.session_id@ != rs@[n].marker.session_id@)
                ==> plan.ours_is_live == Some(false) && plan.adopt_newest && !plan.attach_winner_line
                && plan.settle_own == (ours_before || local->Some_0.odoo_line_id is None) && plan.changed
            &&& !plan.local_wins && local is None ==> plan.ours_is_live == Some(false) && plan.adopt_newest
                && !plan.settle_own && !plan.attach_winner_line && plan.changed
        },
{
    if rs.len() == 0 {
        let published = match local {
            Some(r) => r.odoo_line_id.is_some(),
            None => false,
        };
        let mut plan = PullPlan {
            missing_polls: 0,
            accept_remote_stop: false,
            ours_is_live: Some(false),
            losers: Vec::new(),
            newest: None,
            local_wins: false,
            attach_winner_line: false,
            settle_own: false,
            adopt_newest: false,
            changed: false,
        };
        if published {
            let m = missing_polls + 1;
            if m >= MISSING_POLLS_BEFORE_STOP {
                plan.accept_remote_stop = true;
                plan.changed = true;
            } else {
                plan.missing_polls = m;
            }
        }
        return plan;
    }
    let ours_before = match local {
        Some(r) => r.odoo_line_id.is_some() && has_session(rs, r.session_id.as_str()),
        None => false,
    };
    let n = find_newest(rs);
    let local_wins = match local {
        Some(r) => (r.start_ns as i128) > (rs[n].marker.start as i128) * 1_000_000_000,
        None => false,
    };
    let losers = if local_wins {
        collect_losers(rs, local.unwrap().session_id.as_str())
    } else {
        collect_losers(rs, rs[n].marker.session_id.as_str())
    };
    let any_losers = losers.len() > 0;
    let mut plan = PullPlan {
        missing_polls: 0,
        accept_remote_stop: false,
        ours_is_live: Some(ours_before),
        losers,
        newest: Some(n),
        local_wins,
        attach_winner_line: false,
        settle_own: false,
        adopt_newest: false,
        changed: any_losers,
    };
    if local_wins {
        return plan;
    }
    match local {
        Some(r) => {
            if crate::timer::str_eq(r.session_id.as_str(), rs[n].marker.session_id.as_str()) {
                plan.ours_is_live = Some(true);
                plan.attach_winner_line = r.odoo_line_id.is_none();
            } else {
                plan.settle_own = ours_before || r.odoo_line_id.is_none();
                plan.adopt_newest = true;
                plan.ours_is_live = Some(false);
                plan.changed = true;
            }
        },
        None => {
            plan.adopt_newest = true;
            plan.ours_is_live = Some(false);
            plan.changed = true;
        },
    }
    plan
}

// ── Push: local run → server ─────────────────────────────────────────

/// What the push step does for the local run.
#[derive(Debug, Clone, Copy, PartialEq, Eq)]
pub enum PushStep {
    /// Nothing to write.
    Idle,
    /// Create the live line for a run that has none yet.
    Publish,
    /// Refresh the hours on our live line.
    Heartbeat,
}

/// Only the device that started a run writes to its line. A run without a
/// line gets one; a run with a line gets a heartbeat when the line is known to
/// be live and the last heartbeat for this session is at least
/// [`HEARTBEAT_SECS`] old (or there was none).
pub fn push_step(
    origin_device: &str,
    my_device: &str,
    has_line: bool,
    line_is_live: Option<bool>,
    session_id: &str,
    last_heartbeat: Option<(&str, u64)>,
) -> (step: PushStep)
    ensures
        origin_device@ != my_device@ ==> step == PushStep::Idle,
        origin_device@ == my_device@ && !has_line ==> step == PushStep::Publish,
        origin_device@ == my_device@ && has_line ==> step == (if line_is_live == Some(true) && match last_heartbeat {
            Some((sid, age)) => sid@ != session_id@ || age >= HEARTBEAT_SECS,
            None => true,
        } {
            PushStep::Heartbeat
        } else {
            PushStep::Idle
        }),
{
    if !crate::timer::str_eq(origin_device, my_device) {
        return PushStep::Idle;
    }
    if !has_line {
        return PushStep::Publish;
    }
    match line_is_live {
        Some(true) => {},
        _ => {
            return PushStep::Idle;
        },
    }
    let due = match last_heartbeat {
        Some((sid, age)) => {
            if crate::timer::str_eq(sid, session_id) {
                age >= HEARTBEAT_SECS
            } else {
                true
            }
        },
        None => true,
    };
    if due { PushStep::Heartbeat } else { PushStep::Idle }
}


// ── Taking over and settling remote runs ────────────────────────────

/// Whole seconds since a run started at `start_secs`, at `now_ns`; zero for
/// a start in the future.
pub open spec fn run_age(start_secs: i64, now_ns: i64) -> int {
    let d = now_ns - start_secs * 1_000_000_000;
    if d > 0 {
        d / 1_000_000_000
    } else {
        0
    }
}

pub fn run_age_secs(start_secs: i64, now_ns: i64) -> (secs: u64)
    ensures
        secs == run_age(start_secs, now_ns),
{
    let d: i128 = (now_ns as i128) - (start_secs as i128) * 1_000_000_000;
    if d > 0 {
        (d / 1_000_000_000) as u64
    } else {
        0
    }
}

/// The session this device mirrors when it takes over a remote run: the
/// run's own session id, origin device and label, and its line.
pub fn adopted_session(remote: &RemoteRun) -> (s: SessionMeta)
    ensures
        s.session_id@ == remote.marker.session_id@,
        s.origin_device@ == remote.marker.device_id@,
        s.origin_label@ == remote.marker.device_label@,
        s.odoo_line_id == Some(remote.line_id),
{
    SessionMeta {
        session_id: remote.marker.session_id.clone(),
        origin_device: remote.marker.device_id.clone(),
        origin_label: remote.marker.device_label.clone(),
        odoo_line_id: Some(remote.line_id),
    }
}

/// The description written when a run that lost the newest-start contest is
/// settled: its own, or the task's name when it has none.
pub fn loser_description(remote: &RemoteRun) -> (d: String)
    ensures
        d@ == if remote.description@.len() == 0 { remote.task_name@ } else { remote.description@ },
{
    if remote.description.as_str().unicode_len() == 0 {
        remote.task_name.clone()
    } else {
        remote.description.clone()
    }
}

} // verus!
