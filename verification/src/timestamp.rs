//! Timestamp tokens: `SS`, `SS.s`, `MM:SS`, `HH:MM:SS`, with an optional `s`
//! suffix and wrapping brackets or quotes, read into whole milliseconds.
//!
//! Numbers are read as Rust reads a float: an optional sign, digits, an
//! optional point and more digits (at least one digit in all), and an
//! optional exponent (`e` or `E`, an optional sign, digits). A component is
//! read as its value in thousandths of its unit, digits past the third
//! decimal dropped. A negative value is refused unless every digit is zero.

use vstd::prelude::*;
use crate::clock::{clock_short, decimal, digit_char, pad2};
use crate::text::skip_leading;
use crate::text::{
    char_is_ascii_digit, chars_of, find_class, has_class, in_class, is_ascii_digit,
    lemma_split_at_separator, lemma_split_no_separator, lemma_split_nonempty, skip_trailing,
    split_on, strip, strip_range, trailing_start, CharClass,
};

verus! {

pub open spec fn digit_val(c: char) -> int {
    c as int - '0' as int
}

pub open spec fn all_digits(s: Seq<char>) -> bool {
    forall|i: int| 0 <= i < s.len() ==> is_ascii_digit(#[trigger] s[i])
}

pub open spec fn all_zeros(s: Seq<char>) -> bool {
    forall|i: int| 0 <= i < s.len() ==> #[trigger] s[i] == '0'
}

/// The value of a string of decimal digits.
pub open spec fn digits_value(s: Seq<char>) -> int
    decreases s.len(),
{
    if s.len() == 0 {
        0
    } else {
        digits_value(s.drop_last()) * 10 + digit_val(s.last())
    }
}

pub open spec fn frac_digit(f: Seq<char>, i: int) -> int {
    if i < f.len() {
        digit_val(f[i])
    } else {
        0
    }
}

/// The first three digits of a fraction, as thousandths.
pub open spec fn frac_milli(f: Seq<char>) -> int {
    100 * frac_digit(f, 0) + 10 * frac_digit(f, 1) + frac_digit(f, 2)
}

/// Index of the first `.` in `s` (its length when there is none).
pub open spec fn dot_index(s: Seq<char>) -> int
    decreases s.len(),
{
    if s.len() == 0 {
        0
    } else if s[0] == '.' {
        0
    } else {
        1 + dot_index(s.drop_first())
    }
}

pub open spec fn has_sign(n: Seq<char>) -> bool {
    n.len() > 0 && (n[0] == '+' || n[0] == '-')
}

pub open spec fn unsigned_part(n: Seq<char>) -> Seq<char> {
    if has_sign(n) {
        n.drop_first()
    } else {
        n
    }
}

pub open spec fn int_part(n: Seq<char>) -> Seq<char> {
    let b = unsigned_part(n);
    b.take(dot_index(b))
}

pub open spec fn frac_part(n: Seq<char>) -> Seq<char> {
    let b = unsigned_part(n);
    if dot_index(b) < b.len() {
        b.skip(dot_index(b) + 1)
    } else {
        Seq::empty()
    }
}

/// A decimal number without an exponent, in thousandths, digits past the
/// third decimal dropped; `None` when `n` is not a number or is negative
/// and not zero.
pub open spec fn plain_milli(n: Seq<char>) -> Option<int> {
    let ip = int_part(n);
    let fp = frac_part(n);
    if !(all_digits(ip) && all_digits(fp) && ip.len() + fp.len() >= 1) {
        None
    } else if n.len() > 0 && n[0] == '-' {
        if all_zeros(ip) && all_zeros(fp) {
            Some(0)
        } else {
            None
        }
    } else {
        Some(digits_value(ip) * 1000 + frac_milli(fp))
    }
}

/// Index of the first `e` or `E` in `s` (its length when there is none).
pub open spec fn exp_index(s: Seq<char>) -> int
    decreases s.len(),
{
    if s.len() == 0 {
        0
    } else if s[0] == 'e' || s[0] == 'E' {
        0
    } else {
        1 + exp_index(s.drop_first())
    }
}

/// Ten to the `n`-th.
pub open spec fn pow10(n: nat) -> nat
    decreases n,
{
    if n == 0 {
        1
    } else {
        10 * pow10((n - 1) as nat)
    }
}

/// An exponent: an optional sign and at least one digit.
pub open spec fn exponent_value(x: Seq<char>) -> Option<int> {
    let d = unsigned_part(x);
    if !(d.len() >= 1 && all_digits(d)) {
        None
    } else if x[0] == '-' {
        Some(-digits_value(d))
    } else {
        Some(digits_value(d))
    }
}

/// The whole part of the digits `w` read with the point after the first
/// `k` of them (zeros added where `k` passes their end).
pub open spec fn shifted_value(w: Seq<char>, k: int) -> int {
    if k <= 0 {
        0
    } else if k <= w.len() {
        digits_value(w.take(k))
    } else {
        digits_value(w) * pow10((k - w.len()) as nat)
    }
}

/// A number in scientific notation, mantissa `m` and exponent `x`, in
/// thousandths, digits past the third decimal dropped.
pub open spec fn sci_milli(m: Seq<char>, x: Seq<char>) -> Option<int> {
    let ip = int_part(m);
    let fp = frac_part(m);
    if !(all_digits(ip) && all_digits(fp) && ip.len() + fp.len() >= 1) {
        None
    } else {
        match exponent_value(x) {
            None => None,
            Some(e) => if m.len() > 0 && m[0] == '-' {
                if all_zeros(ip) && all_zeros(fp) {
                    Some(0)
                } else {
                    None
                }
            } else {
                Some(shifted_value(ip + fp, ip.len() + 3 + e))
            },
        }
    }
}

/// A decimal number in thousandths, digits past the third decimal dropped:
/// an optional sign, digits with an optional point (at least one digit),
/// and an optional exponent (`e` or `E`, an optional sign, digits), as
/// Rust reads a float; `None` when `n` is not such a number or is negative
/// and not zero.
pub open spec fn decimal_milli(n: Seq<char>) -> Option<int> {
    let k = exp_index(n);
    if k < n.len() {
        sci_milli(n.take(k), n.skip(k + 1))
    } else {
        plain_milli(n)
    }
}

/// One `:`-separated component, surrounding white space ignored.
pub open spec fn component_milli(p: Seq<char>) -> Option<int> {
    decimal_milli(strip(p, CharClass::Space))
}

/// What is left of a token once white space, the `s` suffix and wrapping
/// brackets or quotes are gone.
pub open spec fn token_core(token: Seq<char>) -> Seq<char> {
    strip(
        strip(skip_trailing(strip(token, CharClass::Space), CharClass::SecondsSuffix), CharClass::Space),
        CharClass::Wrapper,
    )
}

/// The time a token denotes, in milliseconds.
pub open spec fn timestamp_milli(token: Seq<char>) -> Option<int> {
    let u = token_core(token);
    let parts = split_on(u, CharClass::Colon);
    if u.len() == 0 {
        None
    } else if parts.len() == 1 {
        component_milli(parts[0])
    } else if parts.len() == 2 {
        match (component_milli(parts[0]), component_milli(parts[1])) {
            (Some(m), Some(s)) => Some(60 * m + s),
            _ => None,
        }
    } else if parts.len() == 3 {
        match (component_milli(parts[0]), component_milli(parts[1]), component_milli(parts[2])) {
            (Some(h), Some(m), Some(s)) => Some(3600 * h + 60 * m + s),
            _ => None,
        }
    } else {
        None
    }
}

/// The result of `parse_timestamp_token`: the time in milliseconds when the
/// token denotes one that fits in a `u64`.
pub open spec fn spec_parse_timestamp(token: Seq<char>) -> Option<u64> {
    match timestamp_milli(token) {
        Some(x) => if x <= u64::MAX {
            Some(x as u64)
        } else {
            None
        },
        None => None,
    }
}

/// An executable reading of an optional spec value: the value when it fits
/// in a `u64`, else `None`.
pub open spec fn fits(r: Option<u64>, x: Option<int>) -> bool {
    match r {
        Some(v) => x == Some(v as int),
        None => x is None || x->0 > u64::MAX,
    }
}

proof fn lemma_digits_nonneg(s: Seq<char>)
    requires
        all_digits(s),
    ensures
        digits_value(s) >= 0,
    decreases s.len(),
{
    if s.len() > 0 {
        lemma_digits_nonneg(s.drop_last());
    }
}

proof fn lemma_dot_index(s: Seq<char>, p: int)
    requires
        0 <= p <= s.len(),
        forall|j: int| 0 <= j < p ==> #[trigger] s[j] != '.',
        p == s.len() || s[p] == '.',
    ensures
        dot_index(s) == p,
    decreases p,
{
    if p > 0 {
        lemma_dot_index(s.drop_first(), p - 1);
    }
}

proof fn lemma_dot_index_bounds(s: Seq<char>)
    ensures
        0 <= dot_index(s) <= s.len(),
        forall|j: int| 0 <= j < dot_index(s) ==> #[trigger] s[j] != '.',
        dot_index(s) < s.len() ==> s[dot_index(s)] == '.',
    decreases s.len(),
{
    if s.len() > 0 && s[0] != '.' {
        lemma_dot_index_bounds(s.drop_first());
        assert forall|j: int| 0 <= j < dot_index(s) implies #[trigger] s[j] != '.' by {
            if j > 0 {
                assert(s[j] == s.drop_first()[j - 1]);
            }
        }
    }
}

/// The number without an exponent in `v[lo..hi]`, in thousandths.
fn parse_plain_milli(v: &Vec<char>, lo: usize, hi: usize) -> (r: Option<u64>)
    requires
        lo <= hi <= v.len(),
    ensures
        fits(r, plain_milli(v@.subrange(lo as int, hi as int))),
{
    let ghost n = v@.subrange(lo as int, hi as int);
    let mut i = lo;
    let mut negative = false;
    if i < hi && (v[i] == '+' || v[i] == '-') {
        negative = v[i] == '-';
        i = i + 1;
    }
    let start = i;
    let ghost b = unsigned_part(n);
    assert(b =~= v@.subrange(start as int, hi as int));
    // integer digits
    let mut big = false;
    let mut ival: u64 = 0;
    let mut izero = true;
    while i < hi && char_is_ascii_digit(v[i])
        invariant
            start <= i <= hi <= v.len(),
            b == v@.subrange(start as int, hi as int),
            all_digits(v@.subrange(start as int, i as int)),
            !big ==> ival as int == digits_value(v@.subrange(start as int, i as int)),
            big ==> digits_value(v@.subrange(start as int, i as int)) > u64::MAX,
            izero == all_zeros(v@.subrange(start as int, i as int)),
        decreases hi - i,
    {
        let c = v[i];
        let d = (c as u32 - '0' as u32) as u64;
        let ghost pre = v@.subrange(start as int, i as int);
        let ghost post = v@.subrange(start as int, i + 1);
        assert(post.drop_last() =~= pre);
        assert(post.last() == c);
        proof {
            lemma_digits_nonneg(pre);
        }
        if !big {
            match ival.checked_mul(10) {
                Some(t) => match t.checked_add(d) {
                    Some(u) => {
                        ival = u;
                    },
                    None => {
                        big = true;
                    },
                },
                None => {
                    big = true;
                },
            }
        }
        izero = izero && c == '0';
        assert(all_zeros(post) == (all_zeros(pre) && c == '0')) by {
            if all_zeros(pre) && c == '0' {
                assert forall|j: int| 0 <= j < post.len() implies #[trigger] post[j] == '0' by {
                    if j < pre.len() {
                        assert(post[j] == pre[j]);
                    }
                }
            }
            if all_zeros(post) {
                assert forall|j: int| 0 <= j < pre.len() implies #[trigger] pre[j] == '0' by {
                    assert(post[j] == pre[j]);
                }
                assert(post[post.len() - 1] == '0');
            }
        }
        i = i + 1;
    }
    let int_end = i;
    let ghost ip = v@.subrange(start as int, int_end as int);
    // fraction digits
    let mut has_dot = false;
    let mut f0: u64 = 0;
    let mut f1: u64 = 0;
    let mut f2: u64 = 0;
    let mut fzero = true;
    let mut frac_start = i;
    if i < hi && v[i] == '.' {
        has_dot = true;
        i = i + 1;
        frac_start = i;
        while i < hi && char_is_ascii_digit(v[i])
            invariant
                frac_start <= i <= hi <= v.len(),
                all_digits(v@.subrange(frac_start as int, i as int)),
                f0 as int == frac_digit(v@.subrange(frac_start as int, i as int), 0),
                f1 as int == frac_digit(v@.subrange(frac_start as int, i as int), 1),
                f2 as int == frac_digit(v@.subrange(frac_start as int, i as int), 2),
                f0 <= 9 && f1 <= 9 && f2 <= 9,
                fzero == all_zeros(v@.subrange(frac_start as int, i as int)),
            decreases hi - i,
        {
            let c = v[i];
            let d = (c as u32 - '0' as u32) as u64;
            let ghost pre = v@.subrange(frac_start as int, i as int);
            let ghost post = v@.subrange(frac_start as int, i + 1);
            assert(forall|j: int| 0 <= j < pre.len() ==> post[j] == pre[j]);
            assert(post[pre.len() as int] == c);
            if i - frac_start == 0 {
                f0 = d;
            } else if i - frac_start == 1 {
                f1 = d;
            } else if i - frac_start == 2 {
                f2 = d;
            }
            fzero = fzero && c == '0';
            assert(all_zeros(post) == (all_zeros(pre) && c == '0')) by {
                if all_zeros(pre) && c == '0' {
                    assert forall|j: int| 0 <= j < post.len() implies #[trigger] post[j] == '0' by {
                        if j < pre.len() {
                            assert(post[j] == pre[j]);
                        }
                    }
                }
                if all_zeros(post) {
                    assert forall|j: int| 0 <= j < pre.len() implies #[trigger] pre[j] == '0' by {
                        assert(post[j] == pre[j]);
                    }
                    assert(post[post.len() - 1] == '0');
                }
            }
            i = i + 1;
        }
    }
    let ghost fp = if has_dot {
        v@.subrange(frac_start as int, hi as int)
    } else {
        Seq::<char>::empty()
    };
    proof {
        assert(n.len() > 0 && n[0] == '-' <==> negative);
        if has_dot {
            lemma_dot_index(b, int_end - start);
        } else if int_end == hi {
            lemma_dot_index(b, int_end - start);
        }
        lemma_dot_index_bounds(b);
    }
    if i != hi {
        // a character that is neither a digit nor the first point
        proof {
            let p = i - start;
            assert(b[p] == v@[i as int]);
            if !has_dot {
                assert(b[p] != '.');
                if dot_index(b) > p {
                    assert(int_part(n)[p] == b[p]);
                } else {
                    assert(dot_index(b) == p) by {
                        assert(forall|j: int| 0 <= j < p ==> is_ascii_digit(#[trigger] ip[j]));
                        assert forall|j: int| 0 <= j < p implies #[trigger] b[j] != '.' by {
                            assert(b[j] == ip[j]);
                        }
                    }
                }
            } else {
                assert(frac_part(n) =~= v@.subrange(frac_start as int, hi as int));
                assert(frac_part(n)[i - frac_start] == v@[i as int]);
            }
        }
        return None;
    }
    proof {
        assert(int_part(n) =~= ip);
        assert(frac_part(n) =~= fp);
    }
    if int_end == start && !(has_dot && frac_start < hi) {
        return None;
    }
    if negative {
        if izero && fzero {
            return Some(0);
        } else {
            return None;
        }
    }
    if big {
        proof {
            lemma_digits_nonneg(fp);
        }
        return None;
    }
    let frac = f0 * 100 + f1 * 10 + f2;
    match ival.checked_mul(1000) {
        Some(t) => t.checked_add(frac),
        None => None,
    }
}

proof fn lemma_exp_index(s: Seq<char>, p: int)
    requires
        0 <= p <= s.len(),
        forall|j: int| 0 <= j < p ==> #[trigger] s[j] != 'e' && s[j] != 'E',
        p == s.len() || s[p] == 'e' || s[p] == 'E',
    ensures
        exp_index(s) == p,
    decreases p,
{
    if p > 0 {
        assert forall|j: int| 0 <= j < p - 1 implies #[trigger] s.drop_first()[j] != 'e'
            && s.drop_first()[j] != 'E' by {
            assert(s.drop_first()[j] == s[j + 1]);
        }
        lemma_exp_index(s.drop_first(), p - 1);
    }
}

proof fn lemma_pow10_pos(n: nat)
    ensures
        pow10(n) >= 1,
    decreases n,
{
    if n > 0 {
        lemma_pow10_pos((n - 1) as nat);
    }
}

proof fn lemma_pow10_mono(a: nat, b: nat)
    requires
        a <= b,
    ensures
        1 <= pow10(a) <= pow10(b),
    decreases b - a,
{
    lemma_pow10_pos(a);
    if b > a {
        lemma_pow10_mono(a, (b - 1) as nat);
    }
}

proof fn lemma_pow10_big(n: nat)
    requires
        n >= 20,
    ensures
        pow10(n) > u64::MAX,
{
    lemma_pow10_mono(20, n);
    assert(pow10(20) == 100_000_000_000_000_000_000) by {
        reveal_with_fuel(pow10, 21);
    }
}

/// Whether every character of `v[a..b]` is `0`.
fn zeros_in(v: &Vec<char>, a: usize, b: usize) -> (r: bool)
    requires
        a <= b <= v.len(),
    ensures
        r == all_zeros(v@.subrange(a as int, b as int)),
{
    let mut i = a;
    while i < b
        invariant
            a <= i <= b <= v.len(),
            all_zeros(v@.subrange(a as int, i as int)),
        decreases b - i,
    {
        if v[i] != '0' {
            assert(v@.subrange(a as int, b as int)[i - a] != '0');
            return false;
        }
        assert forall|j: int| 0 <= j < i + 1 - a implies #[trigger] v@.subrange(a as int, i + 1)[j]
            == '0' by {
            if j < i - a {
                assert(v@.subrange(a as int, i + 1)[j] == v@.subrange(a as int, i as int)[j]);
            }
        }
        i = i + 1;
    }
    true
}

/// The value of the first `n` digits of `v[s0..ie] + v[fs..fe]`, or
/// `None` when it passes `u64::MAX`.
fn digits_prefix(v: &Vec<char>, s0: usize, ie: usize, fs: usize, fe: usize, n: usize) -> (r: Option<u64>)
    requires
        s0 <= ie <= v.len(),
        fs <= fe <= v.len(),
        n <= (ie - s0) + (fe - fs),
        all_digits(v@.subrange(s0 as int, ie as int) + v@.subrange(fs as int, fe as int)),
    ensures
        ({
            let w = v@.subrange(s0 as int, ie as int) + v@.subrange(fs as int, fe as int);
            match r {
                Some(x) => x == digits_value(w.take(n as int)),
                None => digits_value(w.take(n as int)) > u64::MAX,
            }
        }),
{
    let ghost w = v@.subrange(s0 as int, ie as int) + v@.subrange(fs as int, fe as int);
    let il = ie - s0;
    let mut acc: u64 = 0;
    let mut big = false;
    let mut j: usize = 0;
    assert(w.take(0) =~= Seq::<char>::empty());
    while j < n
        invariant
            s0 <= ie <= v.len(),
            fs <= fe <= v.len(),
            il == ie - s0,
            n <= il + (fe - fs),
            0 <= j <= n,
            w == v@.subrange(s0 as int, ie as int) + v@.subrange(fs as int, fe as int),
            all_digits(w),
            !big ==> acc as int == digits_value(w.take(j as int)),
            big ==> digits_value(w.take(j as int)) > u64::MAX,
        decreases n - j,
    {
        let c = if j < il {
            v[s0 + j]
        } else {
            v[fs + (j - il)]
        };
        assert(c == w[j as int]);
        assert(is_ascii_digit(w[j as int]));
        let d = (c as u32 - '0' as u32) as u64;
        let ghost pre = w.take(j as int);
        let ghost post = w.take(j + 1);
        assert(post.drop_last() =~= pre);
        assert(post.last() == c);
        proof {
            lemma_digits_nonneg(pre);
        }
        if !big {
            match acc.checked_mul(10) {
                Some(t) => match t.checked_add(d) {
                    Some(u) => {
                        acc = u;
                    },
                    None => {
                        big = true;
                    },
                },
                None => {
                    big = true;
                },
            }
        }
        j = j + 1;
    }
    if big {
        None
    } else {
        Some(acc)
    }
}

/// The exponent in `v[lo..hi]`, held within `10^30` either way (a larger
/// one is read as `10^30`).
fn parse_exponent(v: &Vec<char>, lo: usize, hi: usize) -> (r: Option<i128>)
    requires
        lo <= hi <= v.len(),
    ensures
        r is None <==> exponent_value(v@.subrange(lo as int, hi as int)) is None,
        r matches Some(e) ==> (exponent_value(v@.subrange(lo as int, hi as int)) matches Some(ev)
            && -1_000_000_000_000_000_000_000_000_000_000 <= e <= 1_000_000_000_000_000_000_000_000_000_000
            && (e == ev || (e == 1_000_000_000_000_000_000_000_000_000_000 && ev
            >= 1_000_000_000_000_000_000_000_000_000_000) || (e
            == -1_000_000_000_000_000_000_000_000_000_000 && ev
            <= -1_000_000_000_000_000_000_000_000_000_000))),
{
    let ghost x = v@.subrange(lo as int, hi as int);
    let cap: i128 = 1_000_000_000_000_000_000_000_000_000_000;
    let mut i = lo;
    let mut neg = false;
    if i < hi && (v[i] == '+' || v[i] == '-') {
        neg = v[i] == '-';
        i = i + 1;
    }
    let start = i;
    assert(unsigned_part(x) =~= v@.subrange(start as int, hi as int));
    if start == hi {
        return None;
    }
    let mut val: i128 = 0;
    assert(v@.subrange(start as int, start as int) =~= Seq::<char>::empty());
    while i < hi
        invariant
            lo <= start <= i <= hi <= v.len(),
            x == v@.subrange(lo as int, hi as int),
            unsigned_part(x) == v@.subrange(start as int, hi as int),
            cap == 1_000_000_000_000_000_000_000_000_000_000,
            all_digits(v@.subrange(start as int, i as int)),
            ({
                let dv = digits_value(v@.subrange(start as int, i as int));
                &&& dv >= 0
                &&& val == if dv >= cap {
                    cap as int
                } else {
                    dv
                }
            }),
        decreases hi - i,
    {
        let c = v[i];
        if !char_is_ascii_digit(c) {
            assert(unsigned_part(x)[i - start] == c);
            assert(!is_ascii_digit(unsigned_part(x)[i - start]));
            return None;
        }
        let d = (c as u32 - '0' as u32) as i128;
        let ghost pre = v@.subrange(start as int, i as int);
        let ghost post = v@.subrange(start as int, i + 1);
        assert(post.drop_last() =~= pre);
        assert(post.last() == c);
        assert forall|j: int| 0 <= j < post.len() implies is_ascii_digit(#[trigger] post[j]) by {
            if j < pre.len() {
                assert(post[j] == pre[j]);
            }
        }
        if val < cap {
            let t = val * 10 + d;
            val = if t >= cap {
                cap
            } else {
                t
            };
        }
        i = i + 1;
    }
    assert(v@.subrange(start as int, hi as int) == unsigned_part(x));
    proof {
        if neg {
            assert(x[0] == '-');
        } else if start > lo {
            assert(x[0] == '+');
        }
    }
    if neg {
        Some(-val)
    } else {
        Some(val)
    }
}

/// The parts of the mantissa `v[lo..k]`: whether it is negative, and the
/// bounds of its integer and fraction digits; `None` when it is not a
/// number.
fn scan_mantissa(v: &Vec<char>, lo: usize, k: usize) -> (r: Option<(bool, usize, usize, usize, usize)>)
    requires
        lo <= k <= v.len(),
    ensures
        ({
            let m = v@.subrange(lo as int, k as int);
            let ip = int_part(m);
            let fp = frac_part(m);
            &&& r is None <==> !(all_digits(ip) && all_digits(fp) && ip.len() + fp.len() >= 1)
            &&& r matches Some((neg, s0, ie, fs, fe)) ==> {
                &&& lo <= s0 <= ie <= fs <= fe <= k
                &&& ip == v@.subrange(s0 as int, ie as int)
                &&& fp == v@.subrange(fs as int, fe as int)
                &&& neg == (m.len() > 0 && m[0] == '-')
            }
        }),
{
    let ghost m = v@.subrange(lo as int, k as int);
    let mut i = lo;
    let mut negative = false;
    if i < k && (v[i] == '+' || v[i] == '-') {
        negative = v[i] == '-';
        i = i + 1;
    }
    let s0 = i;
    let ghost b = unsigned_part(m);
    assert(b =~= v@.subrange(s0 as int, k as int));
    while i < k && char_is_ascii_digit(v[i])
        invariant
            s0 <= i <= k <= v.len(),
            all_digits(v@.subrange(s0 as int, i as int)),
        decreases k - i,
    {
        assert forall|j: int| 0 <= j < i + 1 - s0 implies is_ascii_digit(
            #[trigger] v@.subrange(s0 as int, i + 1)[j],
        ) by {
            if j < i - s0 {
                assert(v@.subrange(s0 as int, i + 1)[j] == v@.subrange(s0 as int, i as int)[j]);
            }
        }
        i = i + 1;
    }
    let ie = i;
    let mut fs = ie;
    let mut fe = ie;
    let mut has_dot = false;
    if i < k && v[i] == '.' {
        has_dot = true;
        i = i + 1;
        fs = i;
        while i < k && char_is_ascii_digit(v[i])
            invariant
                fs <= i <= k <= v.len(),
                all_digits(v@.subrange(fs as int, i as int)),
            decreases k - i,
        {
            assert forall|j: int| 0 <= j < i + 1 - fs implies is_ascii_digit(
                #[trigger] v@.subrange(fs as int, i + 1)[j],
            ) by {
                if j < i - fs {
                    assert(v@.subrange(fs as int, i + 1)[j] == v@.subrange(fs as int, i as int)[j]);
                }
            }
            i = i + 1;
        }
        fe = i;
    }
    proof {
        assert(m.len() > 0 && m[0] == '-' <==> negative);
        if has_dot || ie == k {
            assert forall|j: int| 0 <= j < ie - s0 implies #[trigger] b[j] != '.' by {
                assert(b[j] == v@.subrange(s0 as int, ie as int)[j]);
            }
            lemma_dot_index(b, ie - s0);
        }
        lemma_dot_index_bounds(b);
    }
    if i != k {
        proof {
            let p = i - s0;
            assert(b[p] == v@[i as int]);
            if !has_dot {
                assert(b[p] != '.');
                if dot_index(b) > p {
                    assert(int_part(m)[p] == b[p]);
                } else {
                    assert(dot_index(b) == p) by {
                        assert forall|j: int| 0 <= j < p implies #[trigger] b[j] != '.' by {
                            assert(b[j] == v@.subrange(s0 as int, ie as int)[j]);
                        }
                    }
                }
            } else {
                assert(frac_part(m) =~= v@.subrange(fs as int, k as int));
                assert(frac_part(m)[i - fs] == v@[i as int]);
            }
        }
        return None;
    }
    proof {
        assert(int_part(m) =~= v@.subrange(s0 as int, ie as int));
        if has_dot {
            assert(frac_part(m) =~= v@.subrange(fs as int, fe as int));
        } else {
            assert(frac_part(m) =~= v@.subrange(fs as int, fe as int));
        }
    }
    if ie == s0 && fe == fs {
        return None;
    }
    Some((negative, s0, ie, fs, fe))
}

/// `shifted_value` of the digits `v[s0..ie] + v[fs..fe]` with the point
/// after `ie - s0 + 3 + ev` of them, where `e` is `ev` or, beyond `10^30`
/// either way, `10^30` with its sign.
fn shifted_milli(v: &Vec<char>, s0: usize, ie: usize, fs: usize, fe: usize, e: i128, Ghost(ev): Ghost<int>) -> (r: Option<u64>)
    requires
        s0 <= ie <= fs <= fe <= v.len(),
        all_digits(v@.subrange(s0 as int, ie as int) + v@.subrange(fs as int, fe as int)),
        -1_000_000_000_000_000_000_000_000_000_000 <= e <= 1_000_000_000_000_000_000_000_000_000_000,
        e == ev || (e == 1_000_000_000_000_000_000_000_000_000_000 && ev
            >= 1_000_000_000_000_000_000_000_000_000_000) || (e
            == -1_000_000_000_000_000_000_000_000_000_000 && ev
            <= -1_000_000_000_000_000_000_000_000_000_000),
    ensures
        fits(
            r,
            Some(shifted_value(v@.subrange(s0 as int, ie as int) + v@.subrange(fs as int, fe as int), (ie - s0) + 3 + ev)),
        ),
{
    let ghost w = v@.subrange(s0 as int, ie as int) + v@.subrange(fs as int, fe as int);
    let il = ie - s0;
    let l = il + (fe - fs);
    assert(w.len() == l);
    let kk: i128 = il as i128 + 3 + e;
    assert(l < 1_000_000_000_000_000_000_000_000);
    if kk <= 0 {
        proof {
            assert(il + 3 + ev <= 0);
            assert(shifted_value(w, il + 3 + ev) == 0);
        }
        return Some(0);
    }
    if kk <= l as i128 {
        proof {
            assert(e == ev);
            assert(shifted_value(w, il + 3 + ev) == digits_value(w.take(kk as int)));
        }
        return digits_prefix(v, s0, ie, fs, fe, kk as usize);
    }
    let ghost rn = (il + 3 + ev - l) as nat;
    assert(il + 3 + ev - l >= kk - l);
    let dv = digits_prefix(v, s0, ie, fs, fe, l);
    assert(w.take(l as int) =~= w);
    let d = match dv {
        Some(d) => d,
        None => {
            proof {
                lemma_pow10_mono(0, rn);
                assert(digits_value(w) * pow10(rn) >= digits_value(w)) by (nonlinear_arith)
                    requires
                        digits_value(w) >= 0,
                        pow10(rn) >= 1,
                ;
            }
            return None;
        },
    };
    assert(digits_value(w) == d);
    assert(shifted_value(w, il + 3 + ev) == d * pow10(rn));
    if d == 0 {
        assert(0 * pow10(rn) == 0);
        return Some(0);
    }
    let steps: i128 = kk - l as i128;
    proof {
        if e != ev {
            assert(steps >= 20);
        } else {
            assert(rn == steps);
        }
    }
    let mut acc: u64 = d;
    let mut t: i128 = 0;
    assert(pow10(0) == 1);
    assert(d * pow10(0nat) == d);
    while t < steps
        invariant
            0 <= t <= steps,
            steps <= rn,
            d >= 1,
            acc as int == d * pow10(t as nat),
            shifted_value(w, il + 3 + ev) == d * pow10(rn),
            w == v@.subrange(s0 as int, ie as int) + v@.subrange(fs as int, fe as int),
            il == ie - s0,
            e != ev ==> steps >= 20,
            e == ev ==> rn == steps,
        decreases steps - t,
    {
        assert(pow10((t + 1) as nat) == 10 * pow10(t as nat));
        assert(d * pow10((t + 1) as nat) == 10 * (d * pow10(t as nat))) by (nonlinear_arith)
            requires
                pow10((t + 1) as nat) == 10 * pow10(t as nat),
        ;
        match acc.checked_mul(10) {
            Some(a) => {
                acc = a;
            },
            None => {
                proof {
                    assert(acc * 10 > u64::MAX);
                    assert(d * pow10((t + 1) as nat) > u64::MAX);
                    lemma_pow10_mono((t + 1) as nat, rn);
                    assert(d * pow10(rn) >= d * pow10((t + 1) as nat)) by (nonlinear_arith)
                        requires
                            d >= 1,
                            pow10(rn) >= pow10((t + 1) as nat),
                    ;
                    assert(shifted_value(w, il + 3 + ev) > u64::MAX);
                }
                return None;
            },
        }
        t = t + 1;
    }
    proof {
        if e != ev {
            lemma_pow10_big(steps as nat);
            assert(d * pow10(steps as nat) >= pow10(steps as nat)) by (nonlinear_arith)
                requires
                    d >= 1,
            ;
        }
    }
    Some(acc)
}

/// The number in scientific notation with mantissa `v[lo..k]` and exponent
/// `v[k + 1..hi]`, in thousandths.
fn parse_sci_milli(v: &Vec<char>, lo: usize, k: usize, hi: usize) -> (r: Option<u64>)
    requires
        lo <= k < hi <= v.len(),
    ensures
        fits(r, sci_milli(v@.subrange(lo as int, k as int), v@.subrange(k + 1, hi as int))),
{
    let ghost m = v@.subrange(lo as int, k as int);
    let ghost x = v@.subrange(k + 1, hi as int);
    let (negative, s0, ie, fs, fe) = match scan_mantissa(v, lo, k) {
        Some(p) => p,
        None => {
            return None;
        },
    };
    let e = match parse_exponent(v, k + 1, hi) {
        Some(e) => e,
        None => {
            return None;
        },
    };
    if negative {
        if zeros_in(v, s0, ie) && zeros_in(v, fs, fe) {
            return Some(0);
        } else {
            return None;
        }
    }
    let ghost ip = v@.subrange(s0 as int, ie as int);
    let ghost fp = v@.subrange(fs as int, fe as int);
    let ghost w = ip + fp;
    assert forall|j: int| 0 <= j < w.len() implies is_ascii_digit(#[trigger] w[j]) by {
        if j < ip.len() {
            assert(w[j] == ip[j]);
        } else {
            assert(w[j] == fp[j - ip.len()]);
        }
    }
    let ghost ev = exponent_value(x)->0;
    shifted_milli(v, s0, ie, fs, fe, e, Ghost(ev))
}

/// The decimal number in `v[lo..hi]`, in thousandths.
pub fn parse_decimal_milli(v: &Vec<char>, lo: usize, hi: usize) -> (r: Option<u64>)
    requires
        lo <= hi <= v.len(),
    ensures
        fits(r, decimal_milli(v@.subrange(lo as int, hi as int))),
{
    let ghost n = v@.subrange(lo as int, hi as int);
    let mut k = lo;
    while k < hi && v[k] != 'e' && v[k] != 'E'
        invariant
            lo <= k <= hi <= v.len(),
            forall|j: int| lo <= j < k ==> #[trigger] v@[j] != 'e' && v@[j] != 'E',
        decreases hi - k,
    {
        k = k + 1;
    }
    proof {
        assert forall|j: int| 0 <= j < k - lo implies #[trigger] n[j] != 'e' && n[j] != 'E' by {
            assert(n[j] == v@[lo + j]);
        }
        lemma_exp_index(n, k - lo);
    }
    if k == hi {
        parse_plain_milli(v, lo, hi)
    } else {
        assert(n.take(k - lo) =~= v@.subrange(lo as int, k as int));
        assert(n.skip(k - lo + 1) =~= v@.subrange(k + 1, hi as int));
        parse_sci_milli(v, lo, k, hi)
    }
}

/// The component in `v[lo..hi]`, surrounding white space ignored.
fn parse_component(v: &Vec<char>, lo: usize, hi: usize) -> (r: Option<u64>)
    requires
        lo <= hi <= v.len(),
    ensures
        fits(r, component_milli(v@.subrange(lo as int, hi as int))),
{
    let (a, b) = strip_range(v, lo, hi, CharClass::Space);
    parse_decimal_milli(v, a, b)
}

/// A decimal number is never negative.
pub proof fn lemma_decimal_nonneg(n: Seq<char>)
    ensures
        decimal_milli(n) matches Some(x) ==> x >= 0,
{
    let k = exp_index(n);
    if k < n.len() {
        let m = n.take(k);
        let ip = int_part(m);
        let fp = frac_part(m);
        if all_digits(ip) && all_digits(fp) {
            let w = ip + fp;
            assert forall|j: int| 0 <= j < w.len() implies is_ascii_digit(#[trigger] w[j]) by {
                if j < ip.len() {
                    assert(w[j] == ip[j]);
                } else {
                    assert(w[j] == fp[j - ip.len()]);
                }
            }
            lemma_digits_nonneg(w);
            if exponent_value(n.skip(k + 1)) is Some {
                let kk = ip.len() + 3 + exponent_value(n.skip(k + 1))->0;
                if 0 < kk <= w.len() {
                    assert forall|j: int| 0 <= j < w.take(kk).len() implies is_ascii_digit(
                        #[trigger] w.take(kk)[j],
                    ) by {
                        assert(w.take(kk)[j] == w[j]);
                    }
                    lemma_digits_nonneg(w.take(kk));
                } else if kk > w.len() {
                    let p = pow10((kk - w.len()) as nat);
                    assert(digits_value(w) * p >= 0) by (nonlinear_arith)
                        requires
                            digits_value(w) >= 0,
                            p >= 0,
                    ;
                }
            }
        }
    } else if all_digits(int_part(n)) && all_digits(frac_part(n)) {
        lemma_digits_nonneg(int_part(n));
        let f = frac_part(n);
        assert(frac_digit(f, 0) >= 0 && frac_digit(f, 1) >= 0 && frac_digit(f, 2) >= 0);
    }
}

proof fn lemma_component_nonneg(p: Seq<char>)
    ensures
        component_milli(p) matches Some(x) ==> x >= 0,
{
    lemma_decimal_nonneg(strip(p, CharClass::Space));
}

/// The time that the token in `v[lo..hi]` denotes, in milliseconds.
pub fn parse_timestamp_in(v: &Vec<char>, lo: usize, hi: usize) -> (r: Option<u64>)
    requires
        lo <= hi <= v.len(),
    ensures
        r == spec_parse_timestamp(v@.subrange(lo as int, hi as int)),
{
    let ghost t = v@.subrange(lo as int, hi as int);
    let (a1, b1) = strip_range(v, lo, hi, CharClass::Space);
    let b2 = trailing_start(v, a1, b1, CharClass::SecondsSuffix);
    let (a3, b3) = strip_range(v, a1, b2, CharClass::Space);
    let (a, b) = strip_range(v, a3, b3, CharClass::Wrapper);
    let ghost u = v@.subrange(a as int, b as int);
    assert(u == token_core(t));
    if a == b {
        return None;
    }
    match find_class(v, a, b, CharClass::Colon) {
        None => {
            proof {
                assert(!has_class(u, CharClass::Colon)) by {
                    if has_class(u, CharClass::Colon) {
                        let j = choose|j: int| 0 <= j < u.len() && in_class(CharClass::Colon, #[trigger] u[j]);
                        assert(u[j] == v@[a + j]);
                    }
                }
                lemma_split_no_separator(u, CharClass::Colon);
            }
            match parse_component(v, a, b) {
                Some(x) => Some(x),
                None => None,
            }
        },
        Some(c1) => {
            let ghost i1 = c1 - a;
            proof {
                assert(u[i1] == v@[c1 as int]);
                lemma_split_at_separator(u, CharClass::Colon, i1);
                assert(u.take(i1) =~= v@.subrange(a as int, c1 as int));
                assert(u.skip(i1 + 1) =~= v@.subrange(c1 + 1, b as int));
                lemma_split_nonempty(u.take(i1), CharClass::Colon);
            }
            let ghost r1 = v@.subrange(c1 + 1, b as int);
            match find_class(v, c1 + 1, b, CharClass::Colon) {
                None => {
                    proof {
                        assert(!has_class(r1, CharClass::Colon)) by {
                            if has_class(r1, CharClass::Colon) {
                                let j = choose|j: int| 0 <= j < r1.len() && in_class(CharClass::Colon, #[trigger] r1[j]);
                                assert(r1[j] == v@[c1 + 1 + j]);
                            }
                        }
                        lemma_split_no_separator(r1, CharClass::Colon);
                        assert(!has_class(u.take(i1), CharClass::Colon)) by {
                            if has_class(u.take(i1), CharClass::Colon) {
                                let j = choose|j: int| 0 <= j < u.take(i1).len() && in_class(CharClass::Colon, #[trigger] u.take(i1)[j]);
                                assert(u.take(i1)[j] == v@[a + j]);
                            }
                        }
                        lemma_split_no_separator(u.take(i1), CharClass::Colon);
                        lemma_component_nonneg(u.take(i1));
                        lemma_component_nonneg(r1);
                    }
                    let m = parse_component(v, a, c1);
                    let s = parse_component(v, c1 + 1, b);
                    match (m, s) {
                        (Some(m), Some(s)) => {
                            match m.checked_mul(60) {
                                Some(mm) => mm.checked_add(s),
                                None => None,
                            }
                        },
                        _ => None,
                    }
                },
                Some(c2) => {
                    let ghost i2 = c2 - (c1 + 1);
                    proof {
                        assert(r1[i2] == v@[c2 as int]);
                        lemma_split_at_separator(r1, CharClass::Colon, i2);
                        assert(r1.take(i2) =~= v@.subrange(c1 + 1, c2 as int));
                        assert(r1.skip(i2 + 1) =~= v@.subrange(c2 + 1, b as int));
                        lemma_split_nonempty(r1.take(i2), CharClass::Colon);
                    }
                    let ghost r2 = v@.subrange(c2 + 1, b as int);
                    match find_class(v, c2 + 1, b, CharClass::Colon) {
                        None => {
                            proof {
                                assert(!has_class(r2, CharClass::Colon)) by {
                                    if has_class(r2, CharClass::Colon) {
                                        let j = choose|j: int| 0 <= j < r2.len() && in_class(CharClass::Colon, #[trigger] r2[j]);
                                        assert(r2[j] == v@[c2 + 1 + j]);
                                    }
                                }
                                lemma_split_no_separator(r2, CharClass::Colon);
                                let p0 = u.take(i1);
                                let p1 = r1.take(i2);
                                assert(!has_class(p0, CharClass::Colon)) by {
                                    if has_class(p0, CharClass::Colon) {
                                        let j = choose|j: int| 0 <= j < p0.len() && in_class(CharClass::Colon, #[trigger] p0[j]);
                                        assert(p0[j] == v@[a + j]);
                                    }
                                }
                                assert(!has_class(p1, CharClass::Colon)) by {
                                    if has_class(p1, CharClass::Colon) {
                                        let j = choose|j: int| 0 <= j < p1.len() && in_class(CharClass::Colon, #[trigger] p1[j]);
                                        assert(p1[j] == v@[c1 + 1 + j]);
                                    }
                                }
                                lemma_split_no_separator(p0, CharClass::Colon);
                                lemma_split_no_separator(p1, CharClass::Colon);
                                lemma_component_nonneg(p0);
                                lemma_component_nonneg(p1);
                                lemma_component_nonneg(r2);
                            }
                            let h = parse_component(v, a, c1);
                            let m = parse_component(v, c1 + 1, c2);
                            let s = parse_component(v, c2 + 1, b);
                            match (h, m, s) {
                                (Some(h), Some(m), Some(s)) => {
                                    match h.checked_mul(3600) {
                                        Some(hh) => match m.checked_mul(60) {
                                            Some(mm) => match hh.checked_add(mm) {
                                                Some(t) => t.checked_add(s),
                                                None => None,
                                            },
                                            None => None,
                                        },
                                        None => None,
                                    }
                                },
                                _ => None,
                            }
                        },
                        Some(c3) => {
                            proof {
                                let i3 = c3 - (c2 + 1);
                                assert(r2[i3] == v@[c3 as int]);
                                lemma_split_at_separator(r2, CharClass::Colon, i3);
                                lemma_split_nonempty(r2.take(i3), CharClass::Colon);
                                lemma_split_nonempty(r2.skip(i3 + 1), CharClass::Colon);
                            }
                            None
                        },
                    }
                },
            }
        },
    }
}

/// Parse a single timestamp token into milliseconds.
///
/// Accepted forms (white space trimmed, trailing `s` allowed, wrapping
/// brackets or quotes ignored): `SS`, `SS.s`, `MM:SS`, `MM:SS.s`, `HH:MM:SS`.
pub fn parse_timestamp_token(token: &str) -> (r: Option<u64>)
    ensures
        r == spec_parse_timestamp(token@),
{
    let v = chars_of(token);
    assert(v@.subrange(0, v@.len() as int) =~= token@);
    parse_timestamp_in(&v, 0, v.len())
}


/// A non-empty run of decimal digits.
pub open spec fn digit_run(s: Seq<char>) -> bool {
    s.len() > 0 && all_digits(s)
}

proof fn lemma_digit_char(d: nat)
    requires
        d < 10,
    ensures
        is_ascii_digit(digit_char(d)),
        digit_val(digit_char(d)) == d,
{
}

/// `decimal(n)` is a run of digits whose value is `n`.
proof fn lemma_decimal_digits(n: nat)
    ensures
        digit_run(decimal(n)),
        digits_value(decimal(n)) == n,
    decreases n,
{
    if n < 10 {
        lemma_digit_char(n);
        let d = decimal(n);
        assert(d.drop_last() =~= Seq::<char>::empty());
        assert(digits_value(d.drop_last()) == 0);
        assert(d.last() == digit_char(n));
    } else {
        lemma_decimal_digits(n / 10);
        lemma_digit_char(n % 10);
        let d = decimal(n);
        assert(d.drop_last() =~= decimal(n / 10));
        assert(d.last() == digit_char(n % 10));
        assert(digits_value(d) == digits_value(decimal(n / 10)) * 10 + digit_val(d.last()));
        assert(n == (n / 10) * 10 + n % 10);
        assert forall|i: int| 0 <= i < d.len() implies is_ascii_digit(#[trigger] d[i]) by {
            if i < d.len() - 1 {
                assert(d[i] == decimal(n / 10)[i]);
            }
        }
    }
}

/// A leading zero does not change the value of digits.
proof fn lemma_leading_zero(s: Seq<char>)
    ensures
        digits_value(seq!['0'] + s) == digits_value(s),
    decreases s.len(),
{
    let z = seq!['0'] + s;
    if s.len() == 0 {
        assert(z.drop_last() =~= Seq::<char>::empty());
        assert(digits_value(z.drop_last()) == 0);
        assert(z.last() == '0');
        assert(digits_value(s) == 0);
    } else {
        lemma_leading_zero(s.drop_last());
        assert(z.drop_last() =~= seq!['0'] + s.drop_last());
        assert(z.last() == s.last());
    }
}

/// `pad2(n)` is a run of digits whose value is `n`.
pub proof fn lemma_pad2_digits(n: nat)
    ensures
        digit_run(pad2(n)),
        digits_value(pad2(n)) == n,
{
    lemma_decimal_digits(n);
    if n < 10 {
        lemma_leading_zero(decimal(n));
        let p = pad2(n);
        assert forall|i: int| 0 <= i < p.len() implies is_ascii_digit(#[trigger] p[i]) by {
            if i > 0 {
                assert(p[i] == decimal(n)[i - 1]);
            }
        }
    }
}

/// A run of digits has no dot.
proof fn lemma_dot_index_digits(s: Seq<char>)
    requires
        all_digits(s),
    ensures
        dot_index(s) == s.len(),
    decreases s.len(),
{
    if s.len() > 0 {
        assert(is_ascii_digit(s[0]));
        assert forall|i: int| 0 <= i < s.drop_first().len() implies is_ascii_digit(
            #[trigger] s.drop_first()[i],
        ) by {
            assert(s.drop_first()[i] == s[i + 1]);
        }
        lemma_dot_index_digits(s.drop_first());
    }
}

/// A run of digits, read as a component, is its value in whole units.
proof fn lemma_component_digits(s: Seq<char>)
    requires
        digit_run(s),
    ensures
        component_milli(s) == Some(digits_value(s) * 1000),
        !has_class(s, CharClass::Colon),
{
    assert(is_ascii_digit(s[0]) && is_ascii_digit(s.last()));
    assert(skip_leading(s, CharClass::Space) == s);
    assert(skip_trailing(s, CharClass::Space) == s);
    assert forall|j: int| 0 <= j < s.len() implies #[trigger] s[j] != 'e' && s[j] != 'E' by {
        assert(is_ascii_digit(s[j]));
    }
    lemma_exp_index(s, s.len() as int);
    assert(decimal_milli(s) == plain_milli(s));
    lemma_dot_index_digits(s);
    assert(s.take(s.len() as int) =~= s);
    assert(frac_part(s) =~= Seq::<char>::empty());
    if has_class(s, CharClass::Colon) {
        let i = choose|i: int| 0 <= i < s.len() && in_class(CharClass::Colon, #[trigger] s[i]);
        assert(is_ascii_digit(s[i]));
    }
}

/// A text made of runs of digits joined by colons is its own token core.
proof fn lemma_core_digits(u: Seq<char>)
    requires
        u.len() > 0,
        is_ascii_digit(u[0]),
        is_ascii_digit(u.last()),
    ensures
        token_core(u) == u,
{
    assert(skip_leading(u, CharClass::Space) == u);
    assert(skip_trailing(u, CharClass::Space) == u);
    assert(skip_trailing(u, CharClass::SecondsSuffix) == u);
    assert(skip_leading(u, CharClass::Wrapper) == u);
    assert(skip_trailing(u, CharClass::Wrapper) == u);
}

/// Two runs of digits joined by a colon split into those runs.
proof fn lemma_split_two(a: Seq<char>, b: Seq<char>)
    requires
        digit_run(a),
        digit_run(b),
    ensures
        split_on(a + seq![':'] + b, CharClass::Colon) == seq![a, b],
{
    let u = a + seq![':'] + b;
    let i = a.len() as int;
    assert(u[i] == ':');
    lemma_split_at_separator(u, CharClass::Colon, i);
    assert(u.take(i) =~= a);
    assert(u.skip(i + 1) =~= b);
    lemma_component_digits(a);
    lemma_component_digits(b);
    lemma_split_no_separator(a, CharClass::Colon);
    lemma_split_no_separator(b, CharClass::Colon);
    assert(seq![a] + seq![b] =~= seq![a, b]);
}

/// Parsing the short clock text of a duration (`M:SS` or `H:MM:SS`) gives
/// back its whole seconds: what `parse_timestamp_token` makes of
/// `format_duration_short(ms)` is `ms` rounded down to the second.
#[verifier::rlimit(60)]
pub proof fn law_parse_clock_short(ms: u64)
    ensures
        spec_parse_timestamp(clock_short(ms as nat)) == Some(((ms / 1000) * 1000) as u64),
{
    let secs: nat = (ms / 1000) as nat;
    let h: nat = secs / 3600;
    let m: nat = (secs % 3600) / 60;
    let s: nat = secs % 60;
    assert(3600 * h + 60 * m + s == secs) by (nonlinear_arith)
        requires
            h == secs / 3600,
            m == (secs % 3600) / 60,
            s == secs % 60,
    {
        assert(secs == 3600 * (secs / 3600) + secs % 3600);
        assert(secs % 3600 == 60 * ((secs % 3600) / 60) + (secs % 3600) % 60);
        assert((secs % 3600) % 60 == secs % 60);
    }
    lemma_pad2_digits(s);
    lemma_pad2_digits(m);
    lemma_decimal_digits(h);
    lemma_decimal_digits(m);
    let u = clock_short(ms as nat);
    if h > 0 {
        let a = decimal(h);
        let b = pad2(m);
        let c = pad2(s);
        assert(u =~= a + seq![':'] + (b + seq![':'] + c));
        let bc = b + seq![':'] + c;
        lemma_split_two(b, c);
        let i = a.len() as int;
        assert(u[i] == ':');
        lemma_split_at_separator(u, CharClass::Colon, i);
        assert(u.take(i) =~= a);
        assert(u.skip(i + 1) =~= bc);
        lemma_component_digits(a);
        lemma_component_digits(b);
        lemma_component_digits(c);
        lemma_split_no_separator(a, CharClass::Colon);
        assert(split_on(u, CharClass::Colon) =~= seq![a, b, c]);
        assert(u[0] == a[0]);
        assert(u.last() == c.last());
        lemma_core_digits(u);
    } else {
        let a = decimal(m);
        let c = pad2(s);
        assert(u =~= a + seq![':'] + c);
        lemma_split_two(a, c);
        lemma_component_digits(a);
        lemma_component_digits(c);
        assert(u[0] == a[0]);
        assert(u.last() == c.last());
        lemma_core_digits(u);
    }
}

/// Wrapping text whose ends are digits in a pair of wrapper characters
/// leaves its token core unchanged.
proof fn lemma_core_wrapped(t: Seq<char>, o: char, c: char)
    requires
        t.len() > 0,
        is_ascii_digit(t[0]),
        is_ascii_digit(t.last()),
        in_class(CharClass::Wrapper, o),
        in_class(CharClass::Wrapper, c),
        !in_class(CharClass::Space, o),
        !in_class(CharClass::Space, c),
        c != 's',
    ensures
        token_core(seq![o] + t + seq![c]) == t,
{
    let w = seq![o] + t + seq![c];
    let inner = t + seq![c];
    assert(w[0] == o);
    assert(w.last() == c);
    assert(skip_leading(w, CharClass::Space) == w);
    assert(skip_trailing(w, CharClass::Space) == w);
    assert(skip_trailing(w, CharClass::SecondsSuffix) == w);
    assert(w.drop_first() =~= inner);
    assert(inner[0] == t[0]);
    assert(skip_leading(inner, CharClass::Wrapper) == inner);
    assert(skip_leading(w, CharClass::Wrapper) == inner);
    assert(inner.drop_last() =~= t);
    assert(inner.last() == c);
    assert(skip_trailing(t, CharClass::Wrapper) == t);
    assert(skip_trailing(inner, CharClass::Wrapper) == t);
}

/// A token wrapped in parentheses, brackets or quotes reads as the bare
/// token does, for any token that starts and ends with a digit (such as
/// `75`, `1:15` or `01:02:03`).
pub proof fn law_wrapped_token_reads_same(t: Seq<char>)
    requires
        t.len() > 0,
        is_ascii_digit(t[0]),
        is_ascii_digit(t.last()),
    ensures
        spec_parse_timestamp(seq!['('] + t + seq![')']) == spec_parse_timestamp(t),
        spec_parse_timestamp(seq!['['] + t + seq![']']) == spec_parse_timestamp(t),
        spec_parse_timestamp(seq!['"'] + t + seq!['"']) == spec_parse_timestamp(t),
        spec_parse_timestamp(seq!['\''] + t + seq!['\'']) == spec_parse_timestamp(t),
{
    lemma_core_digits(t);
    lemma_core_wrapped(t, '(', ')');
    lemma_core_wrapped(t, '[', ']');
    lemma_core_wrapped(t, '"', '"');
    lemma_core_wrapped(t, '\'', '\'');
}

/// A run of digits is a number of whole seconds: its value times a
/// thousand milliseconds, bare or wrapped in parentheses.
pub proof fn law_seconds_token(d: Seq<char>)
    requires
        digit_run(d),
        digits_value(d) * 1000 <= u64::MAX,
    ensures
        spec_parse_timestamp(d) == Some((digits_value(d) * 1000) as u64),
        spec_parse_timestamp(seq!['('] + d + seq![')']) == Some((digits_value(d) * 1000) as u64),
{
    lemma_component_digits(d);
    lemma_split_no_separator(d, CharClass::Colon);
    lemma_core_digits(d);
    law_wrapped_token_reads_same(d);
}

/// `MM:SS` reads as that many minutes and seconds: `pad2(m):pad2(s)` is
/// `60 * m + s` seconds, in milliseconds.
pub proof fn law_minutes_seconds_token(m: nat, s: nat)
    requires
        (60 * m + s) * 1000 <= u64::MAX,
    ensures
        spec_parse_timestamp(pad2(m) + seq![':'] + pad2(s)) == Some(((60 * m + s) * 1000) as u64),
{
    lemma_pad2_digits(m);
    lemma_pad2_digits(s);
    let a = pad2(m);
    let b = pad2(s);
    let u = a + seq![':'] + b;
    lemma_split_two(a, b);
    lemma_component_digits(a);
    lemma_component_digits(b);
    assert(u[0] == a[0]);
    assert(u.last() == b.last());
    lemma_core_digits(u);
}

/// The seconds suffix and surrounding white space do not change what a
/// token reads as: `t`, `ts`, ` t ` and ` ts ` agree for any token `t`
/// that starts and ends with a digit (so `75s` is `75`).
pub proof fn law_suffix_and_spaces_ignored(t: Seq<char>)
    requires
        t.len() > 0,
        is_ascii_digit(t[0]),
        is_ascii_digit(t.last()),
    ensures
        spec_parse_timestamp(t + seq!['s']) == spec_parse_timestamp(t),
        spec_parse_timestamp(seq![' '] + t + seq![' ']) == spec_parse_timestamp(t),
        spec_parse_timestamp(seq![' '] + t + seq!['s', ' ']) == spec_parse_timestamp(t),
{
    lemma_core_digits(t);
    let a = t + seq!['s'];
    assert(a[0] == t[0]);
    assert(a.last() == 's');
    assert(skip_leading(a, CharClass::Space) == a);
    assert(skip_trailing(a, CharClass::Space) == a);
    assert(a.drop_last() =~= t);
    assert(skip_trailing(t, CharClass::SecondsSuffix) == t);
    assert(skip_trailing(a, CharClass::SecondsSuffix) == t);
    assert(token_core(a) == t);
    let b = seq![' '] + t + seq![' '];
    let bt = t + seq![' '];
    assert(b[0] == ' ');
    assert(b.drop_first() =~= bt);
    assert(bt[0] == t[0]);
    assert(skip_leading(bt, CharClass::Space) == bt);
    assert(skip_leading(b, CharClass::Space) == bt);
    assert(bt.drop_last() =~= t);
    assert(skip_trailing(t, CharClass::Space) == t);
    assert(skip_trailing(bt, CharClass::Space) == t);
    assert(token_core(b) == t);
    let c = seq![' '] + t + seq!['s', ' '];
    let ct = t + seq!['s', ' '];
    assert(c.drop_first() =~= ct);
    assert(ct[0] == t[0]);
    assert(skip_leading(ct, CharClass::Space) == ct);
    assert(skip_leading(c, CharClass::Space) == ct);
    assert(ct.drop_last() =~= a);
    assert(skip_trailing(ct, CharClass::Space) == a);
    assert(token_core(c) == t);
}

} // verus!
