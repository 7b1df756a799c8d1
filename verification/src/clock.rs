//! Clock-style rendering of durations: `M:SS`, `H:MM:SS`, `MM:SS`.

use vstd::prelude::*;
use crate::text::string_from_chars;

verus! {

pub open spec fn digit_char(d: nat) -> char {
    ('0' as int + d) as char
}

/// The decimal digits of `n`.
pub open spec fn decimal(n: nat) -> Seq<char>
    decreases n,
{
    if n < 10 {
        seq![digit_char(n)]
    } else {
        decimal(n / 10).push(digit_char(n % 10))
    }
}

/// The decimal digits of `n`, at least two of them (`{:02}`).
pub open spec fn pad2(n: nat) -> Seq<char> {
    if n < 10 {
        seq!['0'] + decimal(n)
    } else {
        decimal(n)
    }
}

/// `decimal(n)` into `out`.
fn push_decimal(out: &mut Vec<char>, n: u64)
    ensures
        final(out)@ == old(out)@ + decimal(n as nat),
    decreases n,
{
    if n < 10 {
        let c = if n == 0 {
            '0'
        } else if n == 1 {
            '1'
        } else if n == 2 {
            '2'
        } else if n == 3 {
            '3'
        } else if n == 4 {
            '4'
        } else if n == 5 {
            '5'
        } else if n == 6 {
            '6'
        } else if n == 7 {
            '7'
        } else if n == 8 {
            '8'
        } else {
            '9'
        };
        out.push(c);
        assert(out@ =~= old(out)@ + decimal(n as nat));
    } else {
        push_decimal(out, n / 10);
        let d = n % 10;
        let c = if d == 0 {
            '0'
        } else if d == 1 {
            '1'
        } else if d == 2 {
            '2'
        } else if d == 3 {
            '3'
        } else if d == 4 {
            '4'
        } else if d == 5 {
            '5'
        } else if d == 6 {
            '6'
        } else if d == 7 {
            '7'
        } else if d == 8 {
            '8'
        } else {
            '9'
        };
        out.push(c);
        assert(out@ =~= old(out)@ + decimal(n as nat));
    }
}

/// The decimal digits of `n` as a string.
pub fn decimal_string(n: u64) -> (r: String)
    ensures
        r@ == decimal(n as nat),
{
    let mut out: Vec<char> = Vec::new();
    push_decimal(&mut out, n);
    assert(out@ =~= decimal(n as nat));
    string_from_chars(&out)
}

fn push_pad2(out: &mut Vec<char>, n: u64)
    ensures
        final(out)@ == old(out)@ + pad2(n as nat),
{
    if n < 10 {
        out.push('0');
    }
    push_decimal(out, n);
    assert(out@ =~= old(out)@ + pad2(n as nat));
}

/// `H:MM:SS` with hours, else `M:SS`, of whole seconds.
pub open spec fn clock_short(ms: nat) -> Seq<char> {
    let secs = ms / 1000;
    let h = secs / 3600;
    let m = (secs % 3600) / 60;
    let s = secs % 60;
    if h > 0 {
        decimal(h) + seq![':'] + pad2(m) + seq![':'] + pad2(s)
    } else {
        decimal(m) + seq![':'] + pad2(s)
    }
}

/// `HH:MM:SS` with hours, else `MM:SS`, of whole seconds.
pub open spec fn clock_padded(ms: nat) -> Seq<char> {
    let secs = ms / 1000;
    let h = secs / 3600;
    let m = (secs % 3600) / 60;
    let s = secs % 60;
    if h > 0 {
        pad2(h) + seq![':'] + pad2(m) + seq![':'] + pad2(s)
    } else {
        pad2(m) + seq![':'] + pad2(s)
    }
}

/// Format a duration as `M:SS`, or `H:MM:SS` from one hour on.
pub fn format_duration_short(ms: u64) -> (r: String)
    ensures
        r@ == clock_short(ms as nat),
{
    let secs = ms / 1000;
    let h = secs / 3600;
    let m = (secs % 3600) / 60;
    let s = secs % 60;
    let mut out: Vec<char> = Vec::new();
    if h > 0 {
        push_decimal(&mut out, h);
        out.push(':');
        push_pad2(&mut out, m);
        out.push(':');
        push_pad2(&mut out, s);
    } else {
        push_decimal(&mut out, m);
        out.push(':');
        push_pad2(&mut out, s);
    }
    assert(out@ =~= clock_short(ms as nat));
    string_from_chars(&out)
}

/// Format a duration as `MM:SS`, or `HH:MM:SS` from one hour on.
pub fn format_duration(ms: u64) -> (r: String)
    ensures
        r@ == clock_padded(ms as nat),
{
    let secs = ms / 1000;
    let h = secs / 3600;
    let m = (secs % 3600) / 60;
    let s = secs % 60;
    let mut out: Vec<char> = Vec::new();
    if h > 0 {
        push_pad2(&mut out, h);
        out.push(':');
        push_pad2(&mut out, m);
        out.push(':');
        push_pad2(&mut out, s);
    } else {
        push_pad2(&mut out, m);
        out.push(':');
        push_pad2(&mut out, s);
    }
    assert(out@ =~= clock_padded(ms as nat));
    string_from_chars(&out)
}

} // verus!
