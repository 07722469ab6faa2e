use vstd::prelude::*;

use crate::palette::SCALE;

verus! {

/// Number of fractional digits that a fixed-point value keeps; further digits
/// are cut off. `10` to this power is `SCALE`.
pub const FRACTION_DIGITS: usize = 6;

/// Largest whole part accepted in a fixed-point value.
pub const MAX_WHOLE: u64 = 1_000_000;

pub open spec fn is_digit(c: char) -> bool {
    '0' <= c && c <= '9'
}

pub open spec fn digit_value(c: char) -> int {
    (c as int) - ('0' as int)
}

pub open spec fn all_digits(s: Seq<char>) -> bool {
    forall|i: int| 0 <= i < s.len() ==> is_digit(#[trigger] s[i])
}

/// The number that a string of decimal digits writes, most significant first.
pub open spec fn digits_value(s: Seq<char>) -> int
    decreases s.len(),
{
    if s.len() == 0 {
        0
    } else {
        digits_value(s.drop_last()) * 10 + digit_value(s.last())
    }
}

pub open spec fn pow10(n: nat) -> int
    decreases n,
{
    if n == 0 {
        1
    } else {
        10 * pow10((n - 1) as nat)
    }
}

/// What an unsigned integer text holds once an optional leading `+` is removed.
pub open spec fn unsigned_body(s: Seq<char>) -> Seq<char> {
    if s.len() > 0 && s[0] == '+' {
        s.skip(1)
    } else {
        s
    }
}

/// The `u32` that a text writes in decimal: an optional `+`, then one or more
/// digits whose value fits in 32 bits.
pub open spec fn u32_of_text(s: Seq<char>) -> Option<u32> {
    let b = unsigned_body(s);
    if b.len() > 0 && all_digits(b) && digits_value(b) <= u32::MAX {
        Some(digits_value(b) as u32)
    } else {
        None
    }
}

/// Length of the optional leading sign.
pub open spec fn sign_len(s: Seq<char>) -> int {
    if s.len() > 0 && (s[0] == '+' || s[0] == '-') {
        1
    } else {
        0
    }
}

/// Position of the first `.` in `r`, or its length where there is none.
pub open spec fn first_dot(r: Seq<char>) -> int
    decreases r.len(),
{
    if r.len() == 0 {
        0
    } else if r[0] == '.' {
        0
    } else {
        1 + first_dot(r.skip(1))
    }
}

/// The digits before the decimal point.
pub open spec fn whole_part(s: Seq<char>) -> Seq<char> {
    let r = s.skip(sign_len(s));
    r.take(first_dot(r))
}

/// The digits after the decimal point (none where there is no point).
pub open spec fn fraction_part(s: Seq<char>) -> Seq<char> {
    let r = s.skip(sign_len(s));
    let d = first_dot(r);
    if d < r.len() {
        r.skip(d + 1)
    } else {
        Seq::empty()
    }
}

/// Number of fractional digits that count.
pub open spec fn kept_len(f: Seq<char>) -> nat {
    if f.len() < FRACTION_DIGITS {
        f.len()
    } else {
        FRACTION_DIGITS as nat
    }
}

/// The magnitude of a fixed-point text in units of `1 / SCALE`.
pub open spec fn fixed_magnitude(s: Seq<char>) -> int {
    let f = fraction_part(s);
    let n = kept_len(f);
    digits_value(whole_part(s)) * (SCALE as int) + digits_value(f.take(n as int)) * pow10(
        (FRACTION_DIGITS - n) as nat,
    )
}

/// The value, in units of `1 / SCALE`, of a decimal text: an optional sign,
/// digits, and optionally a point followed by more digits, with at least one
/// digit in all and a whole part of at most `MAX_WHOLE`. Fractional digits past
/// the sixth are cut off.
pub open spec fn fixed_of_text(s: Seq<char>) -> Option<i64> {
    let w = whole_part(s);
    let f = fraction_part(s);
    if all_digits(w) && all_digits(f) && w.len() + f.len() > 0 && digits_value(w)
        <= MAX_WHOLE {
        if s.len() > 0 && s[0] == '-' {
            Some((-fixed_magnitude(s)) as i64)
        } else {
            Some(fixed_magnitude(s) as i64)
        }
    } else {
        None
    }
}

proof fn lemma_digits_value_nonneg(s: Seq<char>)
    requires
        all_digits(s),
    ensures
        digits_value(s) >= 0,
    decreases s.len(),
{
    if s.len() > 0 {
        lemma_digits_value_nonneg(s.drop_last());
    }
}

proof fn lemma_digits_value_prefix(s: Seq<char>, k: int)
    requires
        all_digits(s),
        0 <= k <= s.len(),
    ensures
        digits_value(s.take(k)) <= digits_value(s),
    decreases s.len(),
{
    if k < s.len() {
        lemma_digits_value_nonneg(s.drop_last());
        assert(s.drop_last().take(k) =~= s.take(k));
        lemma_digits_value_prefix(s.drop_last(), k);
    } else {
        assert(s.take(k) =~= s);
    }
}

proof fn lemma_first_dot(r: Seq<char>, k: int)
    requires
        0 <= k <= r.len(),
        forall|j: int| 0 <= j < k ==> r[j] != '.',
        k == r.len() || r[k] == '.',
    ensures
        first_dot(r) == k,
    decreases k,
{
    if k > 0 {
        lemma_first_dot(r.skip(1), k - 1);
    }
}

/// The value of the digits in `s[from..to]`, where they are all digits and
/// that value is at most `limit`.
fn digits_in(s: &str, from: usize, to: usize, limit: u64) -> (r: Option<u64>)
    requires
        from <= to <= s@.len(),
        limit <= 1_000_000_000_000,
    ensures
        r == (if all_digits(s@.subrange(from as int, to as int)) && digits_value(
            s@.subrange(from as int, to as int),
        ) <= limit {
            Some(digits_value(s@.subrange(from as int, to as int)) as u64)
        } else {
            None
        }),
        r matches Some(v) ==> v == digits_value(s@.subrange(from as int, to as int)),
{
    let ghost t = s@.subrange(from as int, to as int);
    let mut acc: u64 = 0;
    let mut i: usize = from;
    while i < to
        invariant
            from <= i <= to <= s@.len(),
            t == s@.subrange(from as int, to as int),
            limit <= 1_000_000_000_000,
            all_digits(s@.subrange(from as int, i as int)),
            acc == digits_value(s@.subrange(from as int, i as int)),
            acc <= limit,
        decreases to - i,
    {
        let c = s.get_char(i);
        if c < '0' || c > '9' {
            assert(!is_digit(t[i - from]));
            return None;
        }
        let d: u64 = (c as u32 - '0' as u32) as u64;
        let ghost next = s@.subrange(from as int, i + 1);
        assert(next.drop_last() =~= s@.subrange(from as int, i as int));
        if acc * 10 + d > limit {
            proof {
                assert(t.take(i + 1 - from) =~= next);
                assert(all_digits(t) ==> digits_value(next) <= digits_value(t)) by {
                    if all_digits(t) {
                        lemma_digits_value_prefix(t, i + 1 - from);
                    }
                }
            }
            return None;
        }
        acc = acc * 10 + d;
        i = i + 1;
    }
    Some(acc)
}

proof fn lemma_digits_value_bound(s: Seq<char>)
    requires
        all_digits(s),
    ensures
        0 <= digits_value(s) < pow10(s.len()),
    decreases s.len(),
{
    if s.len() > 0 {
        let p = s.drop_last();
        lemma_digits_value_bound(p);
        assert(pow10(s.len()) == 10 * pow10(p.len()));
        assert(digits_value(p) * 10 + digit_value(s.last()) < 10 * pow10(p.len())) by (nonlinear_arith)
            requires
                digits_value(p) < pow10(p.len()),
                0 <= digit_value(s.last()) <= 9,
        ;
    }
}

/// Whether `s[from..to]` holds digits only.
fn all_digits_in(s: &str, from: usize, to: usize) -> (r: bool)
    requires
        from <= to <= s@.len(),
    ensures
        r == all_digits(s@.subrange(from as int, to as int)),
{
    let mut i: usize = from;
    while i < to
        invariant
            from <= i <= to <= s@.len(),
            all_digits(s@.subrange(from as int, i as int)),
        decreases to - i,
    {
        let c = s.get_char(i);
        if c < '0' || c > '9' {
            assert(!is_digit(s@.subrange(from as int, to as int)[i - from]));
            return false;
        }
        assert(forall|j: int|
            0 <= j < i + 1 - from ==> #[trigger] s@.subrange(from as int, i + 1)[j] == s@[from + j]);
        i = i + 1;
    }
    true
}

/// Position of the first `.` at or after `from`, or the length of `s`.
fn find_dot(s: &str, from: usize) -> (d: usize)
    requires
        from <= s@.len(),
    ensures
        from <= d <= s@.len(),
        d - from == first_dot(s@.skip(from as int)),
{
    let len = s.unicode_len();
    let mut d: usize = from;
    while d < len
        invariant
            from <= d <= len,
            len == s@.len(),
            forall|j: int| from <= j < d ==> s@[j] != '.',
        ensures
            from <= d <= len,
            forall|j: int| from <= j < d ==> s@[j] != '.',
            d == len || s@[d as int] == '.',
        decreases len - d,
    {
        if s.get_char(d) == '.' {
            break;
        }
        d = d + 1;
    }
    proof {
        lemma_first_dot(s@.skip(from as int), d - from);
    }
    d
}

/// The kept fractional digits, of value `kept` and `n` in number, as units of
/// `1 / SCALE`.
fn scale_fraction(kept: u64, n: usize) -> (m: u64)
    requires
        n <= FRACTION_DIGITS,
        kept < pow10(n as nat),
    ensures
        m == kept * pow10((FRACTION_DIGITS - n) as nat),
        m < SCALE,
{
    proof {
        reveal_with_fuel(pow10, 7);
    }
    let mut m: u64 = kept;
    let mut k: usize = n;
    while k < FRACTION_DIGITS
        invariant
            n <= k <= FRACTION_DIGITS,
            m == kept * pow10((k - n) as nat),
            m < pow10(k as nat),
            pow10(0) == 1 && pow10(1) == 10 && pow10(2) == 100 && pow10(3) == 1000 && pow10(4)
                == 10000 && pow10(5) == 100000 && pow10(6) == 1000000,
        decreases FRACTION_DIGITS - k,
    {
        let ghost e = pow10((k - n) as nat);
        assert(pow10((k + 1 - n) as nat) == 10 * e);
        assert(pow10((k + 1) as nat) == 10 * pow10(k as nat));
        assert(kept * (10 * e) == (kept * e) * 10) by (nonlinear_arith);
        m = m * 10;
        k = k + 1;
    }
    m
}

/// Reads a decimal text as a fixed-point value in units of `1 / SCALE`: an
/// optional sign, digits with at most one decimal point, at least one digit,
/// a whole part of at most `MAX_WHOLE`; digits past the sixth after the point
/// are cut off.
#[verifier::rlimit(40)]
pub fn parse_fixed(s: &str) -> (r: Option<i64>)
    ensures
        r == fixed_of_text(s@),
        r matches Some(v) ==> -1_000_001_000_000 <= v <= 1_000_001_000_000,
{
    let len = s.unicode_len();
    let sl: usize = if len > 0 && (s.get_char(0) == '+' || s.get_char(0) == '-') {
        1
    } else {
        0
    };
    let negative = len > 0 && s.get_char(0) == '-';
    assert(sl as int == sign_len(s@));
    let d = find_dot(s, sl);
    let fs: usize = if d < len {
        d + 1
    } else {
        len
    };
    assert(whole_part(s@) =~= s@.subrange(sl as int, d as int));
    assert(fraction_part(s@) =~= s@.subrange(fs as int, len as int));
    if d - sl + (len - fs) == 0 {
        return None;
    }
    let whole = match digits_in(s, sl, d, MAX_WHOLE) {
        Some(w) => w,
        None => {
            return None;
        },
    };
    if !all_digits_in(s, fs, len) {
        return None;
    }
    let ghost f = s@.subrange(fs as int, len as int);
    let n: usize = if len - fs < FRACTION_DIGITS {
        len - fs
    } else {
        FRACTION_DIGITS
    };
    assert(f.take(n as int) =~= s@.subrange(fs as int, (fs + n) as int));
    proof {
        lemma_digits_value_bound(f.take(n as int));
        reveal_with_fuel(pow10, 7);
    }
    let kept = match digits_in(s, fs, fs + n, 1_000_000) {
        Some(k) => k,
        None => {
            return None;
        },
    };
    let m = scale_fraction(kept, n);
    assert(whole * (SCALE as int) <= 1_000_000_000_000) by (nonlinear_arith)
        requires
            whole <= MAX_WHOLE,
    ;
    let magnitude: i64 = (whole * (SCALE as u64) + m) as i64;
    if negative {
        Some(-magnitude)
    } else {
        Some(magnitude)
    }
}

/// Reads a `u32` written in decimal, with an optional leading `+`.
pub fn parse_u32(s: &str) -> (r: Option<u32>)
    ensures
        r == u32_of_text(s@),
{
    let len = s.unicode_len();
    let start: usize = if len > 0 && s.get_char(0) == '+' {
        1
    } else {
        0
    };
    assert(unsigned_body(s@) =~= s@.subrange(start as int, len as int));
    if start == len {
        return None;
    }
    match digits_in(s, start, len, 4294967295) {
        Some(v) => Some(v as u32),
        None => None,
    }
}

} // verus!
