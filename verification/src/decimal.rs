//! Decimal number syntax as Rust's `str::parse` reads it: why an integer fails
//! to parse, which texts are float literals, and the integer part of a float
//! literal (what casting the parsed `f64` to `i64` gives, saturating).
use vstd::prelude::*;

use crate::text::{all_digits, digits_value, is_digit, parse_int, digit_value};
use vstd::string::StringExecFns;

verus! {

// ── Integer parse errors ─────────────────────────────────────────────

/// Why `str::parse::<i64>` refused a text.
#[derive(Debug, Clone, Copy, PartialEq, Eq)]
pub enum IntErrorKind {
    Empty,
    InvalidDigit,
    PosOverflow,
    NegOverflow,
}

/// Scanning digits left to right from `acc`, the first failure: a
/// non-digit, or the running value leaving the `i64` range.
pub open spec fn int_scan_error(s: Seq<char>, neg: bool, acc: int) -> Option<IntErrorKind>
    decreases s.len(),
{
    if s.len() == 0 {
        None
    } else if !is_digit(s[0]) {
        Some(IntErrorKind::InvalidDigit)
    } else {
        let next = acc * 10 + digit_value(s[0]);
        if !neg && next > i64::MAX {
            Some(IntErrorKind::PosOverflow)
        } else if neg && next > 9223372036854775808 {
            Some(IntErrorKind::NegOverflow)
        } else {
            int_scan_error(s.drop_first(), neg, next)
        }
    }
}

/// The error `str::parse::<i64>` reports for `s` (meaningful when it fails).
pub open spec fn int_error(s: Seq<char>) -> IntErrorKind {
    if s.len() == 0 {
        IntErrorKind::Empty
    } else {
        let neg = s[0] == '-';
        let body = if s[0] == '-' || s[0] == '+' { s.drop_first() } else { s };
        if body.len() == 0 {
            IntErrorKind::InvalidDigit
        } else {
            match int_scan_error(body, neg, 0) {
                Some(k) => k,
                None => IntErrorKind::InvalidDigit,
            }
        }
    }
}

/// The text `ParseIntError` displays for each kind.
pub open spec fn int_error_text(k: IntErrorKind) -> Seq<char> {
    match k {
        IntErrorKind::Empty => "cannot parse integer from empty string"@,
        IntErrorKind::InvalidDigit => "invalid digit found in string"@,
        IntErrorKind::PosOverflow => "number too large to fit in target type"@,
        IntErrorKind::NegOverflow => "number too small to fit in target type"@,
    }
}

/// Why `s` does not parse as an `i64`.
pub fn int_error_of(s: &[char]) -> (k: IntErrorKind)
    ensures
        k == int_error(s@),
{
    if s.len() == 0 {
        return IntErrorKind::Empty;
    }
    let neg = s[0] == '-';
    let start: usize = if s[0] == '-' || s[0] == '+' { 1 } else { 0 };
    let ghost body = if s@[0] == '-' || s@[0] == '+' { s@.drop_first() } else { s@ };
    if start == s.len() {
        return IntErrorKind::InvalidDigit;
    }
    let mut acc: u64 = 0;
    let mut i = start;
    while i < s.len()
        invariant
            start <= i <= s@.len(),
            s@.len() > 0,
            neg == (s@[0] == '-'),
            start < s@.len(),
            body == (if s@[0] == '-' || s@[0] == '+' { s@.drop_first() } else { s@ }),
            body == s@.subrange(start as int, s@.len() as int),
            acc <= 9223372036854775808u64,
            int_scan_error(body, neg, 0) == int_scan_error(s@.subrange(i as int, s@.len() as int), neg, acc as int),
        decreases s@.len() - i,
    {
        let c = s[i];
        let ghost rest = s@.subrange(i as int, s@.len() as int);
        assert(rest[0] == c);
        assert(rest.drop_first() == s@.subrange(i + 1, s@.len() as int));
        if !('0' <= c && c <= '9') {
            return IntErrorKind::InvalidDigit;
        }
        let d: u64 = (c as u64) - 48;
        if acc > 922337203685477580u64 || (acc == 922337203685477580u64 && d > 8) {
            return if neg { IntErrorKind::NegOverflow } else { IntErrorKind::PosOverflow };
        }
        if !neg && acc == 922337203685477580u64 && d == 8 {
            return IntErrorKind::PosOverflow;
        }
        acc = acc * 10 + d;
        i += 1;
    }
    IntErrorKind::InvalidDigit
}

// ── Float literals ───────────────────────────────────────────────────

/// Number of leading decimal digits of `s`.
pub open spec fn digit_run(s: Seq<char>) -> nat
    decreases s.len(),
{
    if s.len() > 0 && is_digit(s[0]) {
        1 + digit_run(s.drop_first())
    } else {
        0
    }
}

pub open spec fn ascii_lower(c: char) -> char {
    if 'A' <= c && c <= 'Z' {
        (((c as u8) + 32) as u8) as char
    } else {
        c
    }
}

/// `s` equals `word` ignoring ASCII case (`word` lowercase).
pub open spec fn eq_ignore_case(s: Seq<char>, word: Seq<char>) -> bool {
    s.len() == word.len() && forall|i: int| 0 <= i < s.len() ==> ascii_lower(#[trigger] s[i]) == word[i]
}

/// The pieces of an unsigned decimal float literal: integral digits,
/// fractional digits, and the exponent (sign applied), when `s` is one.
pub struct FloatParts {
    pub int_digits: Seq<char>,
    pub frac_digits: Seq<char>,
    pub exponent: int,
}

/// `s` read as digits, an optional `.` and digits (at least one digit in
/// all), then an optional exponent: `e` or `E`, an optional sign and at least
/// one digit; nothing else.
pub open spec fn float_parts(s: Seq<char>) -> Option<FloatParts> {
    let a = digit_run(s) as int;
    let ip = s.take(a);
    let r1 = s.skip(a);
    let has_dot = r1.len() > 0 && r1[0] == '.';
    let f = if has_dot { digit_run(r1.drop_first()) as int } else { 0 };
    let fp = if has_dot { r1.drop_first().take(f) } else { Seq::empty() };
    let r2 = if has_dot { r1.skip(1 + f) } else { r1 };
    if a + f == 0 {
        None
    } else if r2.len() == 0 {
        Some(FloatParts { int_digits: ip, frac_digits: fp, exponent: 0 })
    } else if r2[0] != 'e' && r2[0] != 'E' {
        None
    } else {
        let r3 = r2.drop_first();
        let eneg = r3.len() > 0 && r3[0] == '-';
        let r4 = if r3.len() > 0 && (r3[0] == '-' || r3[0] == '+') { r3.drop_first() } else { r3 };
        let g = digit_run(r4) as int;
        if g == 0 || g != r4.len() {
            None
        } else {
            let ev = digits_value(r4);
            Some(FloatParts { int_digits: ip, frac_digits: fp, exponent: if eneg { -ev } else { ev } })
        }
    }
}

/// What a float literal denotes, as far as its integer part goes.
pub enum FloatKind {
    NaN,
    Infinite { neg: bool },
    Finite { neg: bool, parts: FloatParts },
}

/// How `str::parse::<f64>` reads `s`: an optional sign, then `inf`,
/// `infinity` or `nan` in any ASCII case, or a decimal literal.
pub open spec fn float_kind(s: Seq<char>) -> Option<FloatKind> {
    if s.len() == 0 {
        None
    } else {
        let neg = s[0] == '-';
        let body = if s[0] == '-' || s[0] == '+' { s.drop_first() } else { s };
        if eq_ignore_case(body, "nan"@) {
            Some(FloatKind::NaN)
        } else if eq_ignore_case(body, "inf"@) || eq_ignore_case(body, "infinity"@) {
            Some(FloatKind::Infinite { neg })
        } else {
            match float_parts(body) {
                Some(p) => Some(FloatKind::Finite { neg, parts: p }),
                None => None,
            }
        }
    }
}

pub open spec fn pow10(k: nat) -> int
    decreases k,
{
    if k == 0 {
        1
    } else {
        10 * pow10((k - 1) as nat)
    }
}

/// The integer part of an unsigned literal: its digits shifted by the
/// exponent, fractional digits dropped.
pub open spec fn literal_int_part(p: FloatParts) -> int {
    let d = p.int_digits + p.frac_digits;
    let k = p.int_digits.len() + p.exponent;
    if k <= 0 {
        0
    } else if k <= d.len() {
        digits_value(d.take(k))
    } else {
        digits_value(d) * pow10((k - d.len()) as nat)
    }
}

/// The integer a float literal truncates to, saturating at the `i64` bounds;
/// NaN and texts that are not float literals give 0.
pub open spec fn float_trunc(s: Seq<char>) -> i64 {
    match float_kind(s) {
        None => 0,
        Some(FloatKind::NaN) => 0,
        Some(FloatKind::Infinite { neg }) => if neg { i64::MIN } else { i64::MAX },
        Some(FloatKind::Finite { neg, parts }) => {
            let q = literal_int_part(parts);
            if neg {
                if q >= 9223372036854775808 { i64::MIN } else { (-q) as i64 }
            } else {
                if q > i64::MAX { i64::MAX } else { q as i64 }
            }
        },
    }
}

/// The text `ParseFloatError` displays: empty input, or anything else invalid.
pub open spec fn float_error_text(s: Seq<char>) -> Seq<char> {
    if s.len() == 0 {
        "cannot parse float from empty string"@
    } else {
        "invalid float literal"@
    }
}

} // verus!

verus! {

pub proof fn lemma_digit_run(s: Seq<char>)
    ensures
        digit_run(s) <= s.len(),
        all_digits(s.take(digit_run(s) as int)),
        digit_run(s) < s.len() ==> !is_digit(s[digit_run(s) as int]),
    decreases s.len(),
{
    if s.len() > 0 && is_digit(s[0]) {
        lemma_digit_run(s.drop_first());
        let r = digit_run(s) as int;
        assert forall|i: int| 0 <= i < r implies is_digit(#[trigger] s.take(r)[i]) by {
            if i > 0 {
                assert(s.take(r)[i] == s.drop_first().take(r - 1)[i - 1]);
            }
        }
        if r < s.len() {
            assert(s[r] == s.drop_first()[r - 1]);
        }
    }
}

/// `digit_run(s[from..])`.
fn digit_run_from(s: &[char], from: usize) -> (n: usize)
    requires
        from <= s@.len(),
    ensures
        n == digit_run(s@.skip(from as int)),
        from + n <= s@.len(),
{
    let mut i = from;
    while i < s.len() && '0' <= s[i] && s[i] <= '9'
        invariant
            from <= i <= s@.len(),
            digit_run(s@.skip(from as int)) == (i - from) + digit_run(s@.skip(i as int)),
        decreases s@.len() - i,
    {
        assert(s@.skip(i as int).drop_first() == s@.skip(i + 1));
        assert(s@.skip(i as int)[0] == s@[i as int]);
        i += 1;
    }
    if i < s.len() {
        assert(s@.skip(i as int)[0] == s@[i as int]);
    }
    i - from
}

fn eq_ignore_case_exec(s: &[char], from: usize, word: &str) -> (b: bool)
    requires
        from <= s@.len(),
    ensures
        b == eq_ignore_case(s@.skip(from as int), word@),
{
    let w = crate::text::to_chars(word);
    let ghost body = s@.skip(from as int);
    if s.len() - from != w.len() {
        return false;
    }
    assert(from + w@.len() == s@.len());
    let mut i: usize = 0;
    while i < w.len()
        invariant
            s@.len() - from == w@.len(),
            from + w@.len() <= usize::MAX,
            w@ == word@,
            body == s@.skip(from as int),
            i <= w@.len(),
            forall|j: int| 0 <= j < i ==> ascii_lower(#[trigger] body[j]) == w@[j],
        decreases w@.len() - i,
    {
        let c = s[from + i];
        assert(c == body[i as int]);
        let lc = if 'A' <= c && c <= 'Z' { ((c as u8) + 32) as char } else { c };
        if lc != w[i] {
            return false;
        }
        i += 1;
    }
    true
}

/// Largest magnitude an `i64` can take: `|i64::MIN|`.
pub open spec fn i64_limit() -> int {
    9223372036854775808
}

pub open spec fn cap(x: int, c: int) -> int {
    if x < c {
        x
    } else {
        c
    }
}

/// Accumulate `s[lo..hi]` as decimal digits on top of `start`, saturating at `c`.
fn capped_digits(s: &[char], lo: usize, hi: usize, start: u128, c: u128) -> (acc: u128)
    requires
        lo <= hi <= s@.len(),
        all_digits(s@.subrange(lo as int, hi as int)),
        start <= c,
        10 <= c,
        c <= 0x4000_0000_0000_0000_0000_0000_0000_0000u128,
    ensures
        acc == cap(start * pow10((hi - lo) as nat) + digits_value(s@.subrange(lo as int, hi as int)), c as int),
{
    let mut acc = start;
    let mut i = lo;
    proof {
        assert(s@.subrange(lo as int, lo as int) =~= Seq::<char>::empty());
    }
    while i < hi
        invariant
            lo <= i <= hi <= s@.len(),
            all_digits(s@.subrange(lo as int, hi as int)),
            start <= c,
            10 <= c,
            c <= 0x4000_0000_0000_0000_0000_0000_0000_0000u128,
            acc <= c,
            acc == cap(start * pow10((i - lo) as nat) + digits_value(s@.subrange(lo as int, i as int)), c as int),
        decreases hi - i,
    {
        let ghost sub = s@.subrange(lo as int, i as int);
        let ghost sub1 = s@.subrange(lo as int, i + 1);
        assert(sub1.drop_last() == sub);
        assert(sub1.last() == s@[i as int]);
        assert(s@.subrange(lo as int, hi as int)[i - lo] == s@[i as int]);
        let d: u128 = (s[i] as u128) - 48;
        proof {
            crate::text::lemma_digits_value_nonneg_prefix(s@.subrange(lo as int, hi as int), i - lo);
            assert(s@.subrange(lo as int, hi as int).take(i - lo) == sub);
            let x = start * pow10((i - lo) as nat) + digits_value(sub);
            lemma_pow10_pos((i - lo) as nat);
            assert(start * pow10((i - lo) as nat) + digits_value(sub) >= 0) by (nonlinear_arith)
                requires
                    start >= 0,
                    pow10((i - lo) as nat) >= 1,
                    digits_value(sub) >= 0,
            ;
            assert(pow10((i + 1 - lo) as nat) == 10 * pow10((i - lo) as nat));
            assert(start * pow10((i + 1 - lo) as nat) + digits_value(sub1) == x * 10 + d) by (nonlinear_arith)
                requires
                    pow10((i + 1 - lo) as nat) == 10 * pow10((i - lo) as nat),
                    digits_value(sub1) == digits_value(sub) * 10 + d,
                    x == start * pow10((i - lo) as nat) + digits_value(sub),
            ;
            lemma_cap_step(x, d as int, c as int);
        }
        if acc > (c - d) / 10 {
            acc = c;
        } else {
            acc = acc * 10 + d;
        }
        i += 1;
    }
    acc
}

pub proof fn lemma_pow10_pos(k: nat)
    ensures
        pow10(k) >= 1,
    decreases k,
{
    if k > 0 {
        lemma_pow10_pos((k - 1) as nat);
    }
}

proof fn lemma_cap_step(x: int, d: int, c: int)
    requires
        x >= 0,
        0 <= d < 10,
        c >= 10,
    ensures
        cap(cap(x, c) * 10 + d, c) == cap(x * 10 + d, c),
{
}

} // verus!

verus! {

pub open spec fn abs_int(x: int) -> int {
    if x < 0 { -x } else { x }
}

pub open spec fn exp_cap() -> int {
    0x4000_0000_0000_0000_0000_0000_0000_0000
}

/// Where the pieces of a float literal body lie.
pub struct PartsAt {
    pub int_hi: usize,
    pub frac_lo: usize,
    pub frac_hi: usize,
    pub exp_neg: bool,
    pub exp_mag: u128,
}

/// The exponent suffix `s[p2..]` (starting at `e`/`E`, or empty).
pub open spec fn exponent_of(r2: Seq<char>) -> Option<int> {
    if r2.len() == 0 {
        Some(0)
    } else if r2[0] != 'e' && r2[0] != 'E' {
        None
    } else {
        let r3 = r2.drop_first();
        let eneg = r3.len() > 0 && r3[0] == '-';
        let r4 = if r3.len() > 0 && (r3[0] == '-' || r3[0] == '+') { r3.drop_first() } else { r3 };
        let g = digit_run(r4) as int;
        if g == 0 || g != r4.len() {
            None
        } else {
            let ev = digits_value(r4);
            Some(if eneg { -ev } else { ev })
        }
    }
}

proof fn lemma_float_parts_split(s: Seq<char>)
    ensures
        ({
            let a = digit_run(s) as int;
            let r1 = s.skip(a);
            let has_dot = r1.len() > 0 && r1[0] == '.';
            let f = if has_dot { digit_run(r1.drop_first()) as int } else { 0 };
            let r2 = if has_dot { r1.skip(1 + f) } else { r1 };
            float_parts(s) == (if a + f == 0 {
                None
            } else {
                match exponent_of(r2) {
                    None => None,
                    Some(e) => Some(FloatParts {
                        int_digits: s.take(a),
                        frac_digits: if has_dot { r1.drop_first().take(f) } else { Seq::empty() },
                        exponent: e,
                    }),
                }
            })
        }),
{
}

fn exponent_at(s: &[char], p2: usize) -> (res: Option<(bool, u128)>)
    requires
        p2 <= s@.len(),
    ensures
        res is Some <==> exponent_of(s@.skip(p2 as int)) is Some,
        res matches Some((eneg, emag)) ==> {
            let e = exponent_of(s@.skip(p2 as int))->Some_0;
            &&& (eneg ==> e <= 0) && (!eneg ==> e >= 0)
            &&& emag == cap(abs_int(e), exp_cap())
        },
{
    let n = s.len();
    let ghost r2 = s@.skip(p2 as int);
    if p2 == n {
        return Some((false, 0));
    }
    assert(r2[0] == s@[p2 as int]);
    if s[p2] != 'e' && s[p2] != 'E' {
        return None;
    }
    let p3 = p2 + 1;
    let ghost r3 = r2.drop_first();
    assert(r3 == s@.skip(p3 as int));
    let eneg = p3 < n && s[p3] == '-';
    let p4 = if p3 < n && (s[p3] == '-' || s[p3] == '+') { p3 + 1 } else { p3 };
    if p3 < n {
        assert(r3[0] == s@[p3 as int]);
    }
    let ghost r4 = if r3.len() > 0 && (r3[0] == '-' || r3[0] == '+') { r3.drop_first() } else { r3 };
    assert(r4 == s@.skip(p4 as int));
    let g = digit_run_from(s, p4);
    if g == 0 || p4 + g != n {
        return None;
    }
    proof {
        lemma_digit_run(r4);
        assert(r4.take(g as int) == r4);
        assert(r4 == s@.subrange(p4 as int, s@.len() as int));
        crate::text::lemma_digits_value_nonneg(r4);
    }
    let emag = capped_digits(s, p4, n, 0, 0x4000_0000_0000_0000_0000_0000_0000_0000u128);
    proof {
        assert(0 * pow10((s@.len() - p4) as nat) == 0);
    }
    Some((eneg, emag))
}

fn float_parts_at(s: &[char], from: usize) -> (res: Option<PartsAt>)
    requires
        from <= s@.len(),
    ensures
        res is Some <==> float_parts(s@.skip(from as int)) is Some,
        res matches Some(r) ==> {
            let p = float_parts(s@.skip(from as int))->Some_0;
            &&& from <= r.int_hi <= r.frac_lo <= r.frac_hi <= s@.len()
            &&& p.int_digits == s@.subrange(from as int, r.int_hi as int)
            &&& p.frac_digits == s@.subrange(r.frac_lo as int, r.frac_hi as int)
            &&& all_digits(p.int_digits) && all_digits(p.frac_digits)
            &&& (r.exp_neg ==> p.exponent <= 0) && (!r.exp_neg ==> p.exponent >= 0)
            &&& r.exp_mag == cap(abs_int(p.exponent), exp_cap())
        },
{
    let n = s.len();
    let ghost body = s@.skip(from as int);
    proof {
        lemma_float_parts_split(body);
    }
    let a = digit_run_from(s, from);
    proof {
        lemma_digit_run(body);
        assert(body.take(a as int) == s@.subrange(from as int, from + a));
    }
    let p1 = from + a;
    let ghost r1 = body.skip(a as int);
    assert(r1 == s@.skip(p1 as int));
    let has_dot = p1 < n && s[p1] == '.';
    if p1 < n {
        assert(r1[0] == s@[p1 as int]);
    }
    let (f_lo, f) = if has_dot {
        assert(r1.drop_first() == s@.skip(p1 + 1));
        let f = digit_run_from(s, p1 + 1);
        proof {
            lemma_digit_run(r1.drop_first());
            assert(r1.drop_first().take(f as int) == s@.subrange(p1 + 1, p1 + 1 + f));
        }
        (p1 + 1, f)
    } else {
        assert(s@.subrange(p1 as int, p1 as int) =~= Seq::<char>::empty());
        (p1, 0)
    };
    let p2 = f_lo + f;
    let ghost r2 = if has_dot { r1.skip(1 + f) } else { r1 };
    assert(r2 == s@.skip(p2 as int));
    if a + f == 0 {
        return None;
    }
    match exponent_at(s, p2) {
        None => None,
        Some((eneg, emag)) => Some(PartsAt { int_hi: p1, frac_lo: f_lo, frac_hi: p2, exp_neg: eneg, exp_mag: emag }),
    }
}

} // verus!

verus! {

proof fn lemma_pow10_monotone(a: nat, b: nat)
    requires
        a <= b,
    ensures
        pow10(a) <= pow10(b),
    decreases b - a,
{
    if a < b {
        lemma_pow10_monotone(a, (b - 1) as nat);
        lemma_pow10_pos((b - 1) as nat);
    }
}

proof fn lemma_pow10_19()
    ensures
        pow10(19) == 10000000000000000000,
{
    reveal_with_fuel(pow10, 20);
}

/// `q * 10^m`, saturated at `i64_limit()`, from `cap(q, i64_limit())`.
fn times_pow10_capped(acc0: u128, m: u128, ghost_q: Ghost<int>) -> (acc: u128)
    requires
        ghost_q@ >= 0,
        acc0 == cap(ghost_q@, i64_limit()),
    ensures
        acc == cap(ghost_q@ * pow10(m as nat), i64_limit()),
{
    let ghost q = ghost_q@;
    let limit: u128 = 9223372036854775808u128;
    let mut acc = acc0;
    let mut j: u128 = 0;
    proof {
        assert(pow10(0) == 1);
    }
    while j < m && acc != 0 && acc < limit
        invariant
            q >= 0,
            j <= m,
            limit == i64_limit(),
            acc == cap(q * pow10(j as nat), i64_limit()),
        decreases m - j,
    {
        proof {
            lemma_pow10_pos(j as nat);
            assert(pow10((j + 1) as nat) == 10 * pow10(j as nat));
            assert(q * pow10((j + 1) as nat) == (q * pow10(j as nat)) * 10) by (nonlinear_arith)
                requires
                    pow10((j + 1) as nat) == 10 * pow10(j as nat),
            ;
            assert(q * pow10(j as nat) >= 0) by (nonlinear_arith)
                requires
                    q >= 0,
                    pow10(j as nat) >= 1,
            ;
            lemma_cap_step(q * pow10(j as nat), 0, i64_limit());
        }
        acc = if acc > limit / 10 { limit } else { acc * 10 };
        j += 1;
    }
    proof {
        lemma_pow10_pos(j as nat);
        lemma_pow10_pos(m as nat);
        lemma_pow10_monotone(j as nat, m as nat);
        if j < m {
            if acc == 0 {
                assert(q * pow10(j as nat) == 0);
                assert(q == 0) by (nonlinear_arith)
                    requires
                        q * pow10(j as nat) == 0,
                        pow10(j as nat) >= 1,
                        q >= 0,
                ;
                assert(q * pow10(m as nat) == 0);
            } else {
                assert(q * pow10(j as nat) >= i64_limit());
                assert(q * pow10(m as nat) >= q * pow10(j as nat)) by (nonlinear_arith)
                    requires
                        q >= 0,
                        pow10(j as nat) <= pow10(m as nat),
                ;
            }
        }
    }
    acc
}

/// `s[lo..hi]` followed by `s[lo2..hi2]`.
fn concat_ranges(s: &[char], lo: usize, hi: usize, lo2: usize, hi2: usize) -> (res: Vec<char>)
    requires
        lo <= hi <= s@.len(),
        lo2 <= hi2 <= s@.len(),
    ensures
        res@ == s@.subrange(lo as int, hi as int) + s@.subrange(lo2 as int, hi2 as int),
{
    let mut res = crate::text::slice_chars(s, lo, hi);
    let mut i = lo2;
    while i < hi2
        invariant
            lo2 <= i <= hi2 <= s@.len(),
            res@ == s@.subrange(lo as int, hi as int) + s@.subrange(lo2 as int, i as int),
        decreases hi2 - i,
    {
        res.push(s[i]);
        assert(s@.subrange(lo2 as int, i + 1) == s@.subrange(lo2 as int, i as int).push(s@[i as int]));
        i += 1;
    }
    res
}

/// The integer part of an unsigned literal, saturated at `i64_limit()`.
fn literal_int_part_capped(s: &[char], from: usize, r: &PartsAt, ghost_p: Ghost<FloatParts>) -> (q: u128)
    requires
        from <= r.int_hi <= r.frac_lo <= r.frac_hi <= s@.len(),
        ghost_p@.int_digits == s@.subrange(from as int, r.int_hi as int),
        ghost_p@.frac_digits == s@.subrange(r.frac_lo as int, r.frac_hi as int),
        all_digits(ghost_p@.int_digits),
        all_digits(ghost_p@.frac_digits),
        (r.exp_neg ==> ghost_p@.exponent <= 0),
        (!r.exp_neg ==> ghost_p@.exponent >= 0),
        r.exp_mag == cap(abs_int(ghost_p@.exponent), exp_cap()),
    ensures
        q == cap(literal_int_part(ghost_p@), i64_limit()),
{
    let ghost p = ghost_p@;
    let d = concat_ranges(s, from, r.int_hi, r.frac_lo, r.frac_hi);
    assert(d@ == p.int_digits + p.frac_digits);
    assert(all_digits(d@)) by {
        assert forall|i: int| 0 <= i < d@.len() implies is_digit(#[trigger] d@[i]) by {
            if i < p.int_digits.len() {
                assert(d@[i] == p.int_digits[i]);
            } else {
                assert(d@[i] == p.frac_digits[i - p.int_digits.len()]);
            }
        }
    }
    let a = (r.int_hi - from) as i128;
    let k: i128 = if r.exp_neg { a - (r.exp_mag as i128) } else { a + (r.exp_mag as i128) };
    let limit: u128 = 9223372036854775808u128;
    let n = d.len();
    proof {
        assert(d@.subrange(0, d@.len() as int) == d@);
        assert(0 * pow10(d@.len() as nat) == 0);
    }
    if k <= 0 {
        proof {
            if r.exp_mag as int == exp_cap() {
                assert(p.exponent <= -exp_cap());
            }
        }
        return 0;
    }
    if k <= n as i128 {
        proof {
            if r.exp_mag as int == exp_cap() {
                assert(false);
            }
            assert(d@.subrange(0, k as int) == d@.take(k as int));
            assert(0 * pow10(k as nat) == 0);
        }
        return capped_digits(d.as_slice(), 0, k as usize, 0, limit);
    }
    let acc0 = capped_digits(d.as_slice(), 0, n, 0, limit);
    proof {
        crate::text::lemma_digits_value_nonneg(d@);
        assert(d@.subrange(0, n as int) == d@);
    }
    let m = (k - (n as i128)) as u128;
    let acc = times_pow10_capped(acc0, m, Ghost(digits_value(d@)));
    proof {
        if r.exp_mag as int == exp_cap() {
            // saturated exponent: both shifts are far beyond 19 digits
            let kt = p.int_digits.len() + p.exponent;
            let mt = (kt - d@.len()) as nat;
            lemma_pow10_19();
            lemma_pow10_monotone(19, m as nat);
            lemma_pow10_monotone(19, mt);
            let dv = digits_value(d@);
            if dv == 0 {
                assert(dv * pow10(mt) == 0) by (nonlinear_arith)
                    requires
                        dv == 0,
                ;
                assert(dv * pow10(m as nat) == 0) by (nonlinear_arith)
                    requires
                        dv == 0,
                ;
            } else {
                assert(dv >= 1);
                assert(dv * pow10(mt) >= pow10(19)) by (nonlinear_arith)
                    requires
                        dv >= 1,
                        pow10(19) >= 1,
                        pow10(mt) >= pow10(19),
                ;
                assert(dv * pow10(m as nat) >= pow10(19)) by (nonlinear_arith)
                    requires
                        dv >= 1,
                        pow10(19) >= 1,
                        pow10(m as nat) >= pow10(19),
                ;
            }
        }
    }
    acc
}

/// Whether `str::parse::<f64>` accepts `s`.
pub fn is_float_literal(s: &[char]) -> (b: bool)
    ensures
        b == (float_kind(s@) is Some),
{
    if s.len() == 0 {
        return false;
    }
    let start: usize = if s[0] == '-' || s[0] == '+' { 1 } else { 0 };
    let ghost body = if s@[0] == '-' || s@[0] == '+' { s@.drop_first() } else { s@ };
    assert(body == s@.skip(start as int));
    if eq_ignore_case_exec(s, start, "nan") || eq_ignore_case_exec(s, start, "inf") || eq_ignore_case_exec(s, start, "infinity") {
        return true;
    }
    float_parts_at(s, start).is_some()
}

/// The integer the `f64` that `s` parses to truncates to, saturating; 0 for
/// NaN and for texts that are not float literals.
pub fn float_trunc_of(s: &[char]) -> (v: i64)
    ensures
        v == float_trunc(s@),
{
    if s.len() == 0 {
        return 0;
    }
    let neg = s[0] == '-';
    let start: usize = if s[0] == '-' || s[0] == '+' { 1 } else { 0 };
    let ghost body = if s@[0] == '-' || s@[0] == '+' { s@.drop_first() } else { s@ };
    assert(body == s@.skip(start as int));
    if eq_ignore_case_exec(s, start, "nan") {
        return 0;
    }
    if eq_ignore_case_exec(s, start, "inf") || eq_ignore_case_exec(s, start, "infinity") {
        return if neg { i64::MIN } else { i64::MAX };
    }
    let r = match float_parts_at(s, start) {
        None => {
            return 0;
        },
        Some(r) => r,
    };
    let ghost p = float_parts(body)->Some_0;
    let q = literal_int_part_capped(s, start, &r, Ghost(p));
    if neg {
        if q >= 9223372036854775808u128 {
            i64::MIN
        } else {
            -(q as i64)
        }
    } else {
        if q > 9223372036854775807u128 {
            i64::MAX
        } else {
            q as i64
        }
    }
}

} // verus!

verus! {

/// The text `ParseIntError` displays for `k`.
pub fn int_error_message(k: IntErrorKind) -> (res: String)
    ensures
        res@ == int_error_text(k),
{
    match k {
        IntErrorKind::Empty => String::from_str("cannot parse integer from empty string"),
        IntErrorKind::InvalidDigit => String::from_str("invalid digit found in string"),
        IntErrorKind::PosOverflow => String::from_str("number too large to fit in target type"),
        IntErrorKind::NegOverflow => String::from_str("number too small to fit in target type"),
    }
}

/// The text `ParseFloatError` displays when `s` does not parse.
pub fn float_error_message(s: &[char]) -> (res: String)
    ensures
        res@ == float_error_text(s@),
{
    if s.len() == 0 {
        String::from_str("cannot parse float from empty string")
    } else {
        String::from_str("invalid float literal")
    }
}

} // verus!
