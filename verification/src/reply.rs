//! Reading skip ranges out of free-form model replies: one range per line
//! (`00:15-00:25`, `15s - 25s`, `15 --> 25`, `15 to 25`, `15, 25`), and the
//! first timestamp inside a fragment of prose.

use vstd::prelude::*;
use crate::text::{
    char_in_class, char_is_ascii_digit, chars_of, find_class, has_class, in_class,
    is_ascii_digit, leading_end, lemma_skip_leading_len, lemma_split_at_separator, lemma_split_no_separator,
    lemma_split_nonempty, rfind_class, skip_leading, skip_trailing, split_on, strip, strip_range, utf8_len,
    utf8_prefix_len, CharClass,
};
use crate::timestamp::{
    law_minutes_seconds_token, lemma_pad2_digits, parse_timestamp_in, spec_parse_timestamp,
};
use crate::clock::pad2;
use crate::seqsearch::{
    first_where, last_where, lemma_first_where, lemma_first_where_unique, lemma_last_where,
    lemma_last_where_unique,
};

verus! {

/// The first token of `tokens` that reads as a timestamp.
pub open spec fn first_parsed(tokens: Seq<Seq<char>>) -> Option<u64>
    decreases tokens.len(),
{
    if tokens.len() == 0 {
        None
    } else if spec_parse_timestamp(tokens[0]) is Some {
        spec_parse_timestamp(tokens[0])
    } else {
        first_parsed(tokens.drop_first())
    }
}

/// The first timestamp in a fragment: the whole fragment, else its first
/// token (between white space and `, ; [ ] " ' ( )`) that reads as one.
pub open spec fn first_timestamp(f: Seq<char>) -> Option<u64> {
    if spec_parse_timestamp(f) is Some {
        spec_parse_timestamp(f)
    } else {
        first_parsed(split_on(f, CharClass::TokenBreak))
    }
}

proof fn lemma_first_parsed_cons(x: Seq<char>, rest: Seq<Seq<char>>)
    ensures
        first_parsed(seq![x] + rest) == if spec_parse_timestamp(x) is Some {
            spec_parse_timestamp(x)
        } else {
            first_parsed(rest)
        },
{
    assert((seq![x] + rest)[0] == x);
    assert((seq![x] + rest).drop_first() =~= rest);
}

proof fn no_class_in(v: Seq<char>, lo: int, hi: int, k: CharClass)
    requires
        0 <= lo <= hi <= v.len(),
        forall|j: int| lo <= j < hi ==> !in_class(k, #[trigger] v[j]),
    ensures
        !has_class(v.subrange(lo, hi), k),
{
    let s = v.subrange(lo, hi);
    if has_class(s, k) {
        let j = choose|j: int| 0 <= j < s.len() && in_class(k, #[trigger] s[j]);
        assert(s[j] == v[lo + j]);
    }
}

/// The first timestamp in `v[lo..hi]`.
pub fn first_timestamp_in_range(v: &Vec<char>, lo: usize, hi: usize) -> (r: Option<u64>)
    requires
        lo <= hi <= v.len(),
    ensures
        r == first_timestamp(v@.subrange(lo as int, hi as int)),
{
    let ghost f = v@.subrange(lo as int, hi as int);
    let whole = parse_timestamp_in(v, lo, hi);
    if whole.is_some() {
        return whole;
    }
    let mut start = lo;
    let mut i = lo;
    assert(v@.subrange(start as int, hi as int) =~= f);
    while i < hi
        invariant
            lo <= start <= i <= hi <= v.len(),
            f == v@.subrange(lo as int, hi as int),
            spec_parse_timestamp(f) is None,
            first_parsed(split_on(f, CharClass::TokenBreak)) == first_parsed(
                split_on(v@.subrange(start as int, hi as int), CharClass::TokenBreak),
            ),
            forall|j: int| start <= j < i ==> !in_class(CharClass::TokenBreak, #[trigger] v@[j]),
        decreases hi - i,
    {
        if char_in_class(CharClass::TokenBreak, v[i]) {
            let t = parse_timestamp_in(v, start, i);
            proof {
                let g = v@.subrange(start as int, hi as int);
                let p = i - start;
                assert(g[p] == v@[i as int]);
                lemma_split_at_separator(g, CharClass::TokenBreak, p);
                assert(g.take(p) =~= v@.subrange(start as int, i as int));
                assert(g.skip(p + 1) =~= v@.subrange(i + 1, hi as int));
                no_class_in(v@, start as int, i as int, CharClass::TokenBreak);
                lemma_split_no_separator(g.take(p), CharClass::TokenBreak);
                lemma_first_parsed_cons(g.take(p), split_on(g.skip(p + 1), CharClass::TokenBreak));
            }
            if t.is_some() {
                proof {
                    let g = v@.subrange(start as int, hi as int);
                    let p = i - start;
                    assert(first_parsed(split_on(g, CharClass::TokenBreak)) == t);
                }
                return t;
            }
            start = i + 1;
        }
        i = i + 1;
    }
    proof {
        no_class_in(v@, start as int, hi as int, CharClass::TokenBreak);
        let g = v@.subrange(start as int, hi as int);
        lemma_split_no_separator(g, CharClass::TokenBreak);
        lemma_first_parsed_cons(g, Seq::empty());
        assert(seq![g] + Seq::<Seq<char>>::empty() =~= seq![g]);
    }
    parse_timestamp_in(v, start, hi)
}

/// Bullet, numbering, quote and bracket characters that may lead a line.
pub open spec fn is_bullet(c: char) -> bool {
    c == '-' || c == '*' || c == '•' || c == '[' || c == ']' || c == '"' || c == '\'' || c
        == '(' || c == ')' || c == '{' || c == '}' || c == ' '
}

/// `s` without leading bullets (each followed by white space), stopping at a
/// `-` that is the sign of a number.
pub open spec fn strip_bullets(s: Seq<char>) -> Seq<char>
    decreases s.len(),
{
    if s.len() == 0 {
        s
    } else if s[0] == '-' && s.len() >= 2 && is_ascii_digit(s[1]) {
        s
    } else if is_bullet(s[0]) {
        proof {
            lemma_skip_leading_len(s.drop_first(), CharClass::Space);
        }
        strip_bullets(skip_leading(s.drop_first(), CharClass::Space))
    } else {
        s
    }
}

/// `s` with every non-overlapping occurrence of `pat`, leftmost first,
/// replaced by `rep` (`str::replace`).
pub open spec fn replace_seq(s: Seq<char>, pat: Seq<char>, rep: Seq<char>) -> Seq<char>
    decreases s.len(),
{
    if s.len() == 0 {
        s
    } else if pat.len() > 0 && s.len() >= pat.len() && s.take(pat.len() as int) == pat {
        rep + replace_seq(s.skip(pat.len() as int), pat, rep)
    } else {
        seq![s[0]] + replace_seq(s.drop_first(), pat, rep)
    }
}

/// Arrow and long dash characters become `-`.
pub open spec fn dash_of(c: char) -> char {
    if c == '→' || c == '–' || c == '—' {
        '-'
    } else {
        c
    }
}

/// All range separators brought to a single `-`: `-->` and `->` first, then
/// `→`, `–` and `—`.
pub open spec fn normalize_dashes(s: Seq<char>) -> Seq<char> {
    replace_seq(replace_seq(s, seq!['-', '-', '>'], seq!['-']), seq!['-', '>'], seq!['-']).map_values(
        |c: char| dash_of(c),
    )
}

/// A ` to ` (any letter case) starting at `i`.
pub open spec fn to_at(s: Seq<char>, i: int) -> bool {
    &&& 0 <= i
    &&& i + 4 <= s.len()
    &&& s[i] == ' '
    &&& (s[i + 1] == 't' || s[i + 1] == 'T')
    &&& (s[i + 2] == 'o' || s[i + 2] == 'O')
    &&& s[i + 3] == ' '
}

/// A `-` with a space right before or after it.
pub open spec fn spaced_dash_at(s: Seq<char>, i: int) -> bool {
    &&& 0 <= i < s.len()
    &&& s[i] == '-'
    &&& ((i > 0 && s[i - 1] == ' ') || (i + 1 < s.len() && s[i + 1] == ' '))
}

/// A `-` not at the start, followed by a digit.
pub open spec fn digit_dash_at(s: Seq<char>, i: int) -> bool {
    &&& 0 < i
    &&& i + 1 < s.len()
    &&& s[i] == '-'
    &&& is_ascii_digit(s[i + 1])
}

/// The `-` that separates start from end: the first spaced one, else the
/// last one followed by a digit (so `00:15-00:25` splits in the middle).
pub open spec fn range_dash(s: Seq<char>) -> Option<int> {
    let f = first_where(s.len() as int, |i: int| spaced_dash_at(s, i));
    let l = last_where(s.len() as int, |i: int| digit_dash_at(s, i));
    if f < s.len() {
        Some(f)
    } else if l >= 0 {
        Some(l)
    } else {
        None
    }
}

/// The start and end fragments of a normalized line.
pub open spec fn range_sides(n: Seq<char>) -> Option<(Seq<char>, Seq<char>)> {
    let t = first_where(n.len() as int, |i: int| to_at(n, i));
    if t < n.len() {
        Some((n.take(t), n.skip(t + 4)))
    } else if range_dash(n) is Some {
        let d = range_dash(n)->0;
        Some((n.take(d), n.skip(d + 1)))
    } else if has_class(n, CharClass::Comma) {
        let p = split_on(n, CharClass::Comma);
        Some((p[0], p.last()))
    } else if has_class(n, CharClass::Semicolon) {
        let p = split_on(n, CharClass::Semicolon);
        Some((p[0], p.last()))
    } else {
        None
    }
}

/// The range one line of a reply denotes: start and end in milliseconds,
/// end after start.
pub open spec fn range_line(line: Seq<char>) -> Option<(u64, u64)> {
    let s = strip(line, CharClass::Space);
    if s.len() == 0 {
        None
    } else {
        match range_sides(normalize_dashes(strip_bullets(s))) {
            None => None,
            Some((l, r)) => match (first_timestamp(l), first_timestamp(r)) {
                (Some(a), Some(b)) => if b > a {
                    Some((a, b))
                } else {
                    None
                },
                _ => None,
            },
        }
    }
}

/// The bullets at the start of `v[lo..hi]` skipped.
fn skip_bullets(v: &Vec<char>, lo: usize, hi: usize) -> (i: usize)
    requires
        lo <= hi <= v.len(),
    ensures
        lo <= i <= hi,
        strip_bullets(v@.subrange(lo as int, hi as int)) == v@.subrange(i as int, hi as int),
{
    let mut i = lo;
    while i < hi
        invariant
            lo <= i <= hi <= v.len(),
            strip_bullets(v@.subrange(lo as int, hi as int)) == strip_bullets(
                v@.subrange(i as int, hi as int),
            ),
        decreases hi - i,
    {
        let ghost s = v@.subrange(i as int, hi as int);
        let c = v[i];
        if c == '-' && i + 1 < hi && char_is_ascii_digit(v[i + 1]) {
            return i;
        }
        let bullet = c == '-' || c == '*' || c == '•' || c == '[' || c == ']' || c == '"' || c
            == '\'' || c == '(' || c == ')' || c == '{' || c == '}' || c == ' ';
        if !bullet {
            return i;
        }
        assert(s.drop_first() =~= v@.subrange(i + 1, hi as int));
        i = leading_end(v, i + 1, hi, CharClass::Space);
    }
    i
}

/// Whether `pat` occurs in `v` at `i`.
fn occurs_at(v: &Vec<char>, i: usize, pat: &Vec<char>) -> (b: bool)
    requires
        i <= v.len(),
    ensures
        b == (v.len() - i >= pat.len() && v@.skip(i as int).take(pat.len() as int) == pat@),
{
    if v.len() - i < pat.len() {
        return false;
    }
    let mut j: usize = 0;
    while j < pat.len()
        invariant
            i <= v.len(),
            v.len() - i >= pat.len(),
            0 <= j <= pat.len(),
            forall|k: int| 0 <= k < j ==> v@[i + k] == pat@[k],
        decreases pat.len() - j,
    {
        if v[i + j] != pat[j] {
            assert(v@.skip(i as int).take(pat.len() as int)[j as int] != pat@[j as int]);
            return false;
        }
        j = j + 1;
    }
    assert(v@.skip(i as int).take(pat.len() as int) =~= pat@);
    true
}

/// `replace_seq(v, pat, [rep])`.
fn replace_with_char(v: &Vec<char>, pat: &Vec<char>, rep: char) -> (r: Vec<char>)
    requires
        pat.len() > 0,
    ensures
        r@ == replace_seq(v@, pat@, seq![rep]),
{
    let mut out: Vec<char> = Vec::new();
    let mut i: usize = 0;
    assert(v@.skip(0) =~= v@);
    while i < v.len()
        invariant
            0 <= i <= v.len(),
            pat.len() > 0,
            replace_seq(v@, pat@, seq![rep]) == out@ + replace_seq(v@.skip(i as int), pat@, seq![rep]),
        decreases v.len() - i,
    {
        let ghost s = v@.skip(i as int);
        if occurs_at(v, i, pat) {
            assert(s.skip(pat.len() as int) =~= v@.skip(i + pat.len()));
            assert(out@ + (seq![rep] + replace_seq(s.skip(pat.len() as int), pat@, seq![rep]))
                =~= out@.push(rep) + replace_seq(v@.skip(i + pat.len()), pat@, seq![rep]));
            out.push(rep);
            i = i + pat.len();
        } else {
            assert(s.drop_first() =~= v@.skip(i + 1));
            assert(s[0] == v@[i as int]);
            assert(out@ + (seq![s[0]] + replace_seq(s.drop_first(), pat@, seq![rep])) =~= out@.push(
                v@[i as int],
            ) + replace_seq(v@.skip(i + 1), pat@, seq![rep]));
            out.push(v[i]);
            i = i + 1;
        }
    }
    assert(v@.skip(v.len() as int) =~= Seq::<char>::empty());
    assert(out@ + Seq::<char>::empty() =~= out@);
    out
}

/// `normalize_dashes(v[lo..hi])`.
fn normalized_dashes(v: &Vec<char>, lo: usize, hi: usize) -> (r: Vec<char>)
    requires
        lo <= hi <= v.len(),
    ensures
        r@ == normalize_dashes(v@.subrange(lo as int, hi as int)),
{
    let mut src: Vec<char> = Vec::new();
    let mut i = lo;
    while i < hi
        invariant
            lo <= i <= hi <= v.len(),
            src@ == v@.subrange(lo as int, i as int),
        decreases hi - i,
    {
        src.push(v[i]);
        assert(src@ =~= v@.subrange(lo as int, i + 1));
        i = i + 1;
    }
    let long_arrow = vec!['-', '-', '>'];
    let arrow = vec!['-', '>'];
    assert(long_arrow@ =~= seq!['-', '-', '>']);
    assert(arrow@ =~= seq!['-', '>']);
    let a = replace_with_char(&src, &long_arrow, '-');
    let b = replace_with_char(&a, &arrow, '-');
    let mut out: Vec<char> = Vec::new();
    let mut j: usize = 0;
    while j < b.len()
        invariant
            0 <= j <= b.len(),
            out@ == b@.take(j as int).map_values(|c: char| dash_of(c)),
        decreases b.len() - j,
    {
        let c = b[j];
        let d = if c == '→' || c == '–' || c == '—' {
            '-'
        } else {
            c
        };
        out.push(d);
        assert(out@ =~= b@.take(j + 1).map_values(|c: char| dash_of(c)));
        j = j + 1;
    }
    assert(b@.take(b.len() as int) =~= b@);
    out
}

/// First position of ` to ` in `v`.
fn find_to(v: &Vec<char>) -> (r: usize)
    ensures
        r == first_where(v.len() as int, |i: int| to_at(v@, i)),
{
    let mut i: usize = 0;
    while i < v.len() && v.len() - i >= 4
        invariant
            0 <= i <= v.len(),
            forall|j: int| 0 <= j < i ==> !#[trigger] to_at(v@, j),
        decreases v.len() - i,
    {
        if v[i] == ' ' && (v[i + 1] == 't' || v[i + 1] == 'T') && (v[i + 2] == 'o' || v[i + 2]
            == 'O') && v[i + 3] == ' ' {
            proof {
                assert(to_at(v@, i as int));
                lemma_first_where_unique(v.len() as int, |i: int| to_at(v@, i), i as int);
            }
            return i;
        }
        i = i + 1;
    }
    proof {
        assert forall|j: int| 0 <= j < v.len() implies !#[trigger] to_at(v@, j) by {
            if j >= i {
                assert(!to_at(v@, j));
            }
        }
        lemma_first_where_unique(v.len() as int, |i: int| to_at(v@, i), v.len() as int);
    }
    v.len()
}

/// The separating dash of `v` (see `range_dash`).
pub fn find_range_dash_in(v: &Vec<char>) -> (r: Option<usize>)
    ensures
        match r {
            Some(i) => range_dash(v@) == Some(i as int) && i < v.len(),
            None => range_dash(v@) is None,
        },
{
    let n = v.len();
    let mut i: usize = 0;
    while i < n
        invariant
            0 <= i <= n == v.len(),
            forall|j: int| 0 <= j < i ==> !#[trigger] spaced_dash_at(v@, j),
        decreases n - i,
    {
        if v[i] == '-' && ((i > 0 && v[i - 1] == ' ') || (i + 1 < n && v[i + 1] == ' ')) {
            proof {
                assert(spaced_dash_at(v@, i as int));
                lemma_first_where_unique(n as int, |i: int| spaced_dash_at(v@, i), i as int);
            }
            return Some(i);
        }
        i = i + 1;
    }
    proof {
        lemma_first_where_unique(n as int, |i: int| spaced_dash_at(v@, i), n as int);
    }
    let mut k = n;
    while k > 1
        invariant
            0 <= k <= n == v.len(),
            forall|j: int| k <= j < n ==> !#[trigger] digit_dash_at(v@, j),
            first_where(n as int, |i: int| spaced_dash_at(v@, i)) == n,
        decreases k,
    {
        let m = k - 1;
        if v[m] == '-' && m + 1 < n && char_is_ascii_digit(v[m + 1]) {
            proof {
                assert(digit_dash_at(v@, m as int));
                lemma_last_where_unique(n as int, |i: int| digit_dash_at(v@, i), m as int);
            }
            return Some(m);
        }
        k = m;
    }
    proof {
        assert forall|j: int| -1 < j < n implies !#[trigger] digit_dash_at(v@, j) by {
            if j < k {
                assert(!digit_dash_at(v@, j));
            }
        }
        lemma_last_where_unique(n as int, |i: int| digit_dash_at(v@, i), -1);
    }
    None
}

/// The two sides of the first and last separator of class `k` in `n`.
fn sides_at_class(n: &Vec<char>, k: CharClass) -> (r: Option<(usize, usize)>)
    ensures
        match r {
            Some((f, l)) => has_class(n@, k) && f <= l < n.len() && split_on(n@, k)[0] == n@.take(
                f as int,
            ) && split_on(n@, k).last() == n@.skip(l + 1),
            None => !has_class(n@, k),
        },
{
    match find_class(n, 0, n.len(), k) {
        None => {
            proof {
                assert(n@.subrange(0, n.len() as int) =~= n@);
                no_class_in(n@, 0 as int, n.len() as int, k);
            }
            None
        },
        Some(f) => {
            let l = match rfind_class(n, 0, n.len(), k) {
                Some(l) => l,
                None => f,
            };
            proof {
                let s = n@;
                lemma_split_at_separator(s, k, f as int);
                no_class_in(n@, 0 as int, f as int, k);
                assert(s.subrange(0, f as int) =~= s.take(f as int));
                lemma_split_no_separator(s.take(f as int), k);
                lemma_split_nonempty(s.skip(f + 1), k);
                lemma_split_at_separator(s, k, l as int);
                no_class_in(n@, (l + 1) as int, n.len() as int, k);
                assert(s.subrange(l + 1, n.len() as int) =~= s.skip(l + 1));
                lemma_split_no_separator(s.skip(l + 1), k);
                lemma_split_nonempty(s.take(l as int), k);
                assert(f <= l) by {
                    if l < f {
                        assert(!in_class(k, n@[l as int]));
                    }
                }
            }
            Some((f, l))
        },
    }
}

/// Parse one `"<start> <sep> <end>"` line into a range in milliseconds.
/// Separators: `-`, `–`, `—`, `-->`, `->`, `→`, ` to `, `,`, `;`.
pub fn parse_range_line(line: &str) -> (r: Option<(u64, u64)>)
    ensures
        r == range_line(line@),
{
    let v = chars_of(line);
    assert(v@.subrange(0, v.len() as int) =~= line@);
    range_line_in(&v, 0, v.len())
}

/// The range that the line `v[lo..hi]` denotes.
pub fn range_line_in(v: &Vec<char>, lo: usize, hi: usize) -> (r: Option<(u64, u64)>)
    requires
        lo <= hi <= v.len(),
    ensures
        r == range_line(v@.subrange(lo as int, hi as int)),
{
    let (a, b) = strip_range(v, lo, hi, CharClass::Space);
    if a == b {
        return None;
    }
    let c = skip_bullets(v, a, b);
    let n = normalized_dashes(v, c, b);
    let t = find_to(&n);
    proof {
        lemma_first_where(n.len() as int, |i: int| to_at(n@, i));
    }
    let (l_lo, l_hi, r_lo, r_hi) = if t < n.len() {
        (0, t, t + 4, n.len())
    } else {
        match find_range_dash_in(&n) {
            Some(d) => (0, d, d + 1, n.len()),
            None => match sides_at_class(&n, CharClass::Comma) {
                Some((f, l)) => (0, f, l + 1, n.len()),
                None => match sides_at_class(&n, CharClass::Semicolon) {
                    Some((f, l)) => (0, f, l + 1, n.len()),
                    None => {
                        return None;
                    },
                },
            },
        }
    };
    proof {
        lemma_first_where(n.len() as int, |i: int| to_at(n@, i));
        let sides = range_sides(n@);
        assert(sides is Some);
        let (sl, sr) = sides->0;
        assert(sl =~= n@.subrange(l_lo as int, l_hi as int));
        assert(sr =~= n@.subrange(r_lo as int, r_hi as int));
    }
    let start = match first_timestamp_in_range(&n, l_lo, l_hi) {
        Some(s) => s,
        None => {
            return None;
        },
    };
    let end = match first_timestamp_in_range(&n, r_lo, r_hi) {
        Some(e) => e,
        None => {
            return None;
        },
    };
    if end > start {
        Some((start, end))
    } else {
        None
    }
}

/// Extract the first timestamp-like token from free-form text: the whole
/// fragment if it is one, else the first of its tokens that is.
pub fn first_timestamp_in(fragment: &str) -> (r: Option<u64>)
    ensures
        r == first_timestamp(fragment@),
{
    let v = chars_of(fragment);
    assert(v@.subrange(0, v.len() as int) =~= fragment@);
    first_timestamp_in_range(&v, 0, v.len())
}

/// The byte offset of the dash separating a range's start and end (see
/// `range_dash`), skipping the colons of `MM:SS`; `None` without one.
pub fn find_range_dash(s: &str) -> (r: Option<usize>)
    ensures
        r == match range_dash(s@) {
            Some(i) => Some(utf8_len(s@.take(i)) as usize),
            None => None::<usize>,
        },
{
    let v = chars_of(s);
    match find_range_dash_in(&v) {
        Some(i) => {
            let b = utf8_prefix_len(&v, i);
            Some(b as usize)
        },
        None => None,
    }
}

/// `replace_seq` changes nothing where the first two characters of the
/// pattern never stand side by side.
proof fn lemma_replace_absent(s: Seq<char>, pat: Seq<char>, rep: Seq<char>)
    requires
        pat.len() >= 2,
        forall|i: int| 0 <= i < s.len() - 1 && #[trigger] s[i] == pat[0] ==> s[i + 1] != pat[1],
    ensures
        replace_seq(s, pat, rep) == s,
    decreases s.len(),
{
    if s.len() > 0 {
        if s.len() >= pat.len() {
            let h = s.take(pat.len() as int);
            assert(h[0] == s[0]);
            assert(h[1] == s[1]);
            if s[0] == pat[0] {
                assert(s[1] != pat[1]);
            }
            assert(h != pat);
        }
        let t = s.drop_first();
        assert forall|i: int| 0 <= i < t.len() - 1 && #[trigger] t[i] == pat[0] implies t[i + 1]
            != pat[1] by {
            assert(t[i] == s[i + 1]);
            assert(t[i + 1] == s[i + 2]);
        }
        lemma_replace_absent(t, pat, rep);
        assert(seq![s[0]] + t =~= s);
    }
}

/// Text made of digits and colons that starts and ends with a digit, such
/// as `01:15`.
pub open spec fn clock_text(x: Seq<char>) -> bool {
    &&& x.len() > 0
    &&& is_ascii_digit(x[0])
    &&& is_ascii_digit(x.last())
    &&& forall|i: int| 0 <= i < x.len() ==> is_ascii_digit(#[trigger] x[i]) || x[i] == ':'
}

/// A line `x<sep>y` of two clock texts, with `sep` any of the dashes, is
/// brought to `x-y` before it is split.
pub proof fn lemma_dash_line_normal(x: Seq<char>, y: Seq<char>, sep: char)
    requires
        clock_text(x),
        clock_text(y),
        sep == '-' || sep == '–' || sep == '—' || sep == '→',
    ensures
        strip(x + seq![sep] + y, CharClass::Space) == x + seq![sep] + y,
        strip_bullets(x + seq![sep] + y) == x + seq![sep] + y,
        normalize_dashes(x + seq![sep] + y) == x + seq!['-'] + y,
{
    let l = x + seq![sep] + y;
    let k = x.len() as int;
    assert(l[0] == x[0]);
    assert(l.last() == y.last());
    assert(skip_leading(l, CharClass::Space) == l);
    assert(skip_trailing(l, CharClass::Space) == l);
    assert forall|i: int| 0 <= i < l.len() && i != k implies #[trigger] l[i] != '-' && l[i] != '>'
        && dash_of(l[i]) == l[i] by {
        if i < k {
            assert(l[i] == x[i]);
            assert(is_ascii_digit(x[i]) || x[i] == ':');
        } else {
            assert(l[i] == y[i - k - 1]);
            assert(is_ascii_digit(y[i - k - 1]) || y[i - k - 1] == ':');
        }
    }
    assert(l[k + 1] == y[0]);
    let p3 = seq!['-', '-', '>'];
    let p2 = seq!['-', '>'];
    assert forall|i: int| 0 <= i < l.len() - 1 && #[trigger] l[i] == p3[0] implies l[i + 1] != p3[1] by {
        if i != k {
            assert(l[i] != '-');
        }
    }
    lemma_replace_absent(l, p3, seq!['-']);
    assert forall|i: int| 0 <= i < l.len() - 1 && #[trigger] l[i] == p2[0] implies l[i + 1] != p2[1] by {
        if i != k {
            assert(l[i] != '-');
        }
    }
    lemma_replace_absent(l, p2, seq!['-']);
    assert(l.map_values(|c: char| dash_of(c)) =~= x + seq!['-'] + y) by {
        assert forall|i: int| 0 <= i < l.len() implies l.map_values(|c: char| dash_of(c))[i] == (x
            + seq!['-'] + y)[i] by {
            if i != k {
                assert(dash_of(l[i]) == l[i]);
            }
        }
    }
}

/// The normalized line `x-y` of two clock texts splits at its dash into
/// `x` and `y`.
proof fn lemma_dash_line_sides(x: Seq<char>, y: Seq<char>)
    requires
        clock_text(x),
        clock_text(y),
    ensures
        range_sides(x + seq!['-'] + y) == Some((x, y)),
{
    let n = x + seq!['-'] + y;
    let k = x.len() as int;
    assert forall|i: int| 0 <= i < n.len() implies #[trigger] n[i] != ' ' && (i != k ==> n[i]
        != '-') by {
        if i < k {
            assert(n[i] == x[i]);
            assert(is_ascii_digit(x[i]) || x[i] == ':');
        } else if i > k {
            assert(n[i] == y[i - k - 1]);
            assert(is_ascii_digit(y[i - k - 1]) || y[i - k - 1] == ':');
        }
    }
    assert forall|j: int| 0 <= j < n.len() implies !#[trigger] to_at(n, j) by {
        if to_at(n, j) {
            assert(n[j] == ' ');
        }
    }
    lemma_first_where_unique(n.len() as int, |i: int| to_at(n, i), n.len() as int);
    assert(n[k - 1] == x.last());
    assert(n[k + 1] == y[0]);
    assert forall|j: int| 0 <= j < n.len() implies !#[trigger] spaced_dash_at(n, j) by {
        if spaced_dash_at(n, j) {
            assert(j == k);
        }
    }
    lemma_first_where_unique(n.len() as int, |i: int| spaced_dash_at(n, i), n.len() as int);
    assert(digit_dash_at(n, k));
    assert forall|j: int| k < j < n.len() implies !#[trigger] digit_dash_at(n, j) by {
        assert(n[j] != '-');
    }
    lemma_last_where_unique(n.len() as int, |i: int| digit_dash_at(n, i), k);
    assert(range_dash(n) == Some(k));
    assert(n.take(k) =~= x);
    assert(n.skip(k + 1) =~= y);
}

/// `pad2(m):pad2(s)` is a clock text.
pub proof fn lemma_clock_pair_text(m: nat, s: nat)
    ensures
        clock_text(pad2(m) + seq![':'] + pad2(s)),
{
    lemma_pad2_digits(m);
    lemma_pad2_digits(s);
    let x = pad2(m) + seq![':'] + pad2(s);
    assert forall|i: int| 0 <= i < x.len() implies is_ascii_digit(#[trigger] x[i]) || x[i] == ':' by {
        if i < pad2(m).len() {
            assert(x[i] == pad2(m)[i]);
        } else if i > pad2(m).len() {
            assert(x[i] == pad2(s)[i - pad2(m).len() - 1]);
        }
    }
    assert(x[0] == pad2(m)[0]);
    assert(x.last() == pad2(s).last());
}

/// A line joining two clock texts with an en dash, an em dash or an arrow
/// reads as the same line joined with a plain `-`.
pub proof fn law_dash_separators_agree(x: Seq<char>, y: Seq<char>)
    requires
        clock_text(x),
        clock_text(y),
    ensures
        range_line(x + seq!['–'] + y) == range_line(x + seq!['-'] + y),
        range_line(x + seq!['—'] + y) == range_line(x + seq!['-'] + y),
        range_line(x + seq!['→'] + y) == range_line(x + seq!['-'] + y),
{
    lemma_dash_line_normal(x, y, '-');
    lemma_dash_line_normal(x, y, '–');
    lemma_dash_line_normal(x, y, '—');
    lemma_dash_line_normal(x, y, '→');
}

/// The line `MM:SS<sep>MM:SS`, with `sep` any of `-`, `–`, `—` or `→`,
/// is the range from the first time to the second, in milliseconds, when
/// the second is later.
pub proof fn law_dash_range_line(m1: nat, s1: nat, m2: nat, s2: nat, sep: char)
    requires
        sep == '-' || sep == '–' || sep == '—' || sep == '→',
        60 * m1 + s1 < 60 * m2 + s2,
        (60 * m2 + s2) * 1000 <= u64::MAX,
    ensures
        range_line(pad2(m1) + seq![':'] + pad2(s1) + seq![sep] + pad2(m2) + seq![':'] + pad2(s2))
            == Some((((60 * m1 + s1) * 1000) as u64, ((60 * m2 + s2) * 1000) as u64)),
{
    lemma_clock_pair_text(m1, s1);
    lemma_clock_pair_text(m2, s2);
    let x = pad2(m1) + seq![':'] + pad2(s1);
    let y = pad2(m2) + seq![':'] + pad2(s2);
    law_minutes_seconds_token(m1, s1);
    law_minutes_seconds_token(m2, s2);
    lemma_dash_line_normal(x, y, sep);
    lemma_dash_line_sides(x, y);
    let line = pad2(m1) + seq![':'] + pad2(s1) + seq![sep] + pad2(m2) + seq![':'] + pad2(s2);
    assert(line =~= x + seq![sep] + y);
}

/// Replacing a pattern that occurs once, between text holding no first
/// character of it and text where it cannot start.
proof fn lemma_replace_once(x: Seq<char>, pat: Seq<char>, rep: Seq<char>, y: Seq<char>)
    requires
        pat.len() >= 2,
        forall|i: int| 0 <= i < x.len() ==> #[trigger] x[i] != pat[0],
        forall|i: int| 0 <= i < y.len() - 1 && #[trigger] y[i] == pat[0] ==> y[i + 1] != pat[1],
    ensures
        replace_seq(x + pat + y, pat, rep) == x + rep + y,
    decreases x.len(),
{
    let s = x + pat + y;
    if x.len() == 0 {
        assert(s.take(pat.len() as int) =~= pat);
        assert(s.skip(pat.len() as int) =~= y);
        lemma_replace_absent(y, pat, rep);
        assert(x + rep + y =~= rep + y);
    } else {
        let h = s.take(pat.len() as int);
        if s.len() >= pat.len() {
            assert(h[0] == x[0]);
            assert(h != pat);
        }
        let x1 = x.drop_first();
        assert forall|i: int| 0 <= i < x1.len() implies #[trigger] x1[i] != pat[0] by {
            assert(x1[i] == x[i + 1]);
        }
        lemma_replace_once(x1, pat, rep, y);
        assert(s.drop_first() =~= x1 + pat + y);
        assert(seq![x[0]] + (x1 + rep + y) =~= x + rep + y);
    }
}

/// A clock text holds no dash, arrow head or space.
proof fn lemma_clock_text_chars(x: Seq<char>)
    requires
        clock_text(x),
    ensures
        forall|i: int|
            0 <= i < x.len() ==> #[trigger] x[i] != '-' && x[i] != '>' && x[i] != ' ' && dash_of(x[i])
                == x[i],
{
    assert forall|i: int| 0 <= i < x.len() implies #[trigger] x[i] != '-' && x[i] != '>' && x[i]
        != ' ' && dash_of(x[i]) == x[i] by {
        assert(is_ascii_digit(x[i]) || x[i] == ':');
    }
}

/// A line joining two clock texts with `-->`, `->` or ` to ` reads as the
/// same line joined with a plain `-`.
pub proof fn law_arrow_and_to_separators_agree(x: Seq<char>, y: Seq<char>)
    requires
        clock_text(x),
        clock_text(y),
    ensures
        range_line(x + seq!['-', '-', '>'] + y) == range_line(x + seq!['-'] + y),
        range_line(x + seq!['-', '>'] + y) == range_line(x + seq!['-'] + y),
        range_line(x + seq![' ', 't', 'o', ' '] + y) == range_line(x + seq!['-'] + y),
{
    lemma_clock_text_chars(x);
    lemma_clock_text_chars(y);
    lemma_dash_line_normal(x, y, '-');
    lemma_dash_line_sides(x, y);
    let p3 = seq!['-', '-', '>'];
    let p2 = seq!['-', '>'];
    let d = x + seq!['-'] + y;
    let k = x.len() as int;
    assert(y[0] != '-' && y[0] != '>');
    assert forall|i: int| 0 <= i < y.len() - 1 && #[trigger] y[i] == p3[0] implies y[i + 1] != p3[1] by {}
    assert forall|i: int| 0 <= i < y.len() - 1 && #[trigger] y[i] == p2[0] implies y[i + 1] != p2[1] by {}
    assert forall|i: int| 0 <= i < d.len() - 1 && #[trigger] d[i] == p2[0] implies d[i + 1] != p2[1] by {
        if i < k {
            assert(d[i] == x[i]);
        } else if i == k {
            assert(d[i + 1] == y[0]);
        } else {
            assert(d[i] == y[i - k - 1]);
        }
    }
    assert forall|i: int| 0 <= i < x.len() implies #[trigger] x[i] != p3[0] by {}
    assert forall|i: int| 0 <= i < x.len() implies #[trigger] x[i] != p2[0] by {}
    // `-->`
    let l3 = x + p3 + y;
    assert(l3[0] == x[0]);
    assert(l3.last() == y.last());
    assert(skip_leading(l3, CharClass::Space) == l3);
    assert(skip_trailing(l3, CharClass::Space) == l3);
    lemma_replace_once(x, p3, seq!['-'], y);
    lemma_replace_absent(d, p2, seq!['-']);
    assert(normalize_dashes(l3) == normalize_dashes(d));
    // `->`
    let l2 = x + p2 + y;
    assert(l2[0] == x[0]);
    assert(l2.last() == y.last());
    assert(skip_leading(l2, CharClass::Space) == l2);
    assert(skip_trailing(l2, CharClass::Space) == l2);
    assert forall|i: int| 0 <= i < l2.len() - 1 && #[trigger] l2[i] == p3[0] implies l2[i + 1] != p3[1] by {
        if i < k {
            assert(l2[i] == x[i]);
        } else if i == k {
            assert(l2[i + 1] == '>');
        } else if i == k + 1 {
            assert(l2[i] == '>');
        } else {
            assert(l2[i] == y[i - k - 2]);
        }
    }
    lemma_replace_absent(l2, p3, seq!['-']);
    lemma_replace_once(x, p2, seq!['-'], y);
    assert(normalize_dashes(l2) == normalize_dashes(d));
    // ` to `
    let w = seq![' ', 't', 'o', ' '];
    let lt = x + w + y;
    assert(lt[0] == x[0]);
    assert(lt.last() == y.last());
    assert(skip_leading(lt, CharClass::Space) == lt);
    assert(skip_trailing(lt, CharClass::Space) == lt);
    assert forall|i: int| 0 <= i < lt.len() implies #[trigger] lt[i] != '-' && dash_of(lt[i]) == lt[i] by {
        if i < k {
            assert(lt[i] == x[i]);
        } else if i >= k + 4 {
            assert(lt[i] == y[i - k - 4]);
        }
    }
    lemma_replace_absent(lt, p3, seq!['-']);
    lemma_replace_absent(lt, p2, seq!['-']);
    assert(lt.map_values(|c: char| dash_of(c)) =~= lt);
    assert(normalize_dashes(lt) == lt);
    assert(to_at(lt, k));
    assert forall|j: int| 0 <= j < k implies !#[trigger] to_at(lt, j) by {
        assert(lt[j] == x[j]);
    }
    lemma_first_where_unique(lt.len() as int, |i: int| to_at(lt, i), k);
    assert(lt.take(k) =~= x);
    assert(lt.skip(k + 4) =~= y);
    assert(range_sides(lt) == Some((x, y)));
}

/// The line `x<c>y` of two clock texts, with `c` a comma or a semicolon,
/// splits at `c` into `x` and `y`.
proof fn lemma_list_line(x: Seq<char>, y: Seq<char>, c: char, k: CharClass)
    requires
        clock_text(x),
        clock_text(y),
        (c == ',' && k == CharClass::Comma) || (c == ';' && k == CharClass::Semicolon),
    ensures
        strip(x + seq![c] + y, CharClass::Space) == x + seq![c] + y,
        strip_bullets(x + seq![c] + y) == x + seq![c] + y,
        normalize_dashes(x + seq![c] + y) == x + seq![c] + y,
        range_sides(x + seq![c] + y) == Some((x, y)),
{
    lemma_clock_text_chars(x);
    lemma_clock_text_chars(y);
    let l = x + seq![c] + y;
    let n = x.len() as int;
    assert(l[0] == x[0]);
    assert(l.last() == y.last());
    assert(skip_leading(l, CharClass::Space) == l);
    assert(skip_trailing(l, CharClass::Space) == l);
    assert forall|i: int| 0 <= i < l.len() implies #[trigger] l[i] != '-' && l[i] != ' ' && dash_of(
        l[i],
    ) == l[i] by {
        if i < n {
            assert(l[i] == x[i]);
        } else if i > n {
            assert(l[i] == y[i - n - 1]);
        }
    }
    lemma_replace_absent(l, seq!['-', '-', '>'], seq!['-']);
    lemma_replace_absent(l, seq!['-', '>'], seq!['-']);
    assert(l.map_values(|ch: char| dash_of(ch)) =~= l);
    assert forall|j: int| 0 <= j < l.len() implies !#[trigger] to_at(l, j) by {
        if to_at(l, j) {
            assert(l[j] == ' ');
        }
    }
    lemma_first_where_unique(l.len() as int, |i: int| to_at(l, i), l.len() as int);
    assert forall|j: int| 0 <= j < l.len() implies !#[trigger] spaced_dash_at(l, j) by {}
    lemma_first_where_unique(l.len() as int, |i: int| spaced_dash_at(l, i), l.len() as int);
    assert forall|j: int| -1 < j < l.len() implies !#[trigger] digit_dash_at(l, j) by {}
    lemma_last_where_unique(l.len() as int, |i: int| digit_dash_at(l, i), -1);
    assert(range_dash(l) is None);
    assert(in_class(k, l[n]));
    assert(has_class(l, k));
    if c == ';' {
        assert(!has_class(l, CharClass::Comma)) by {
            if has_class(l, CharClass::Comma) {
                let i = choose|i: int| 0 <= i < l.len() && in_class(CharClass::Comma, #[trigger] l[i]);
                if i < n {
                    assert(l[i] == x[i]);
                    assert(is_ascii_digit(x[i]) || x[i] == ':');
                } else if i > n {
                    assert(l[i] == y[i - n - 1]);
                    assert(is_ascii_digit(y[i - n - 1]) || y[i - n - 1] == ':');
                }
            }
        }
    }
    lemma_split_at_separator(l, k, n);
    assert(l.take(n) =~= x);
    assert(l.skip(n + 1) =~= y);
    assert(!has_class(x, k)) by {
        if has_class(x, k) {
            let i = choose|i: int| 0 <= i < x.len() && in_class(k, #[trigger] x[i]);
            assert(is_ascii_digit(x[i]) || x[i] == ':');
        }
    }
    assert(!has_class(y, k)) by {
        if has_class(y, k) {
            let i = choose|i: int| 0 <= i < y.len() && in_class(k, #[trigger] y[i]);
            assert(is_ascii_digit(y[i]) || y[i] == ':');
        }
    }
    lemma_split_no_separator(x, k);
    lemma_split_no_separator(y, k);
    assert(split_on(l, k) =~= seq![x, y]);
}

/// A line joining two clock texts with a comma or a semicolon reads as the
/// same line joined with a plain `-`.
pub proof fn law_list_separators_agree(x: Seq<char>, y: Seq<char>)
    requires
        clock_text(x),
        clock_text(y),
    ensures
        range_line(x + seq![','] + y) == range_line(x + seq!['-'] + y),
        range_line(x + seq![';'] + y) == range_line(x + seq!['-'] + y),
{
    lemma_dash_line_normal(x, y, '-');
    lemma_dash_line_sides(x, y);
    lemma_list_line(x, y, ',', CharClass::Comma);
    lemma_list_line(x, y, ';', CharClass::Semicolon);
}

/// A list bullet (`-`, `*` or `•`, then a space) before a line that starts
/// and ends with a digit does not change the range it reads as.
pub proof fn law_bullet_ignored(l: Seq<char>)
    requires
        l.len() > 0,
        is_ascii_digit(l[0]),
        is_ascii_digit(l.last()),
    ensures
        range_line(seq!['-', ' '] + l) == range_line(l),
        range_line(seq!['*', ' '] + l) == range_line(l),
        range_line(seq!['•', ' '] + l) == range_line(l),
{
    assert(skip_leading(l, CharClass::Space) == l);
    assert(skip_trailing(l, CharClass::Space) == l);
    assert(strip_bullets(l) == l);
    let sp = seq![' '] + l;
    assert(sp[0] == ' ');
    assert(sp.drop_first() =~= l);
    assert(skip_leading(sp, CharClass::Space) == l);
    lemma_bullet_prefix(l, '-');
    lemma_bullet_prefix(l, '*');
    lemma_bullet_prefix(l, '•');
}

proof fn lemma_bullet_prefix(l: Seq<char>, b: char)
    requires
        l.len() > 0,
        is_ascii_digit(l[0]),
        is_ascii_digit(l.last()),
        is_bullet(b),
        !in_class(CharClass::Space, b),
        strip_bullets(l) == l,
        skip_leading(seq![' '] + l, CharClass::Space) == l,
    ensures
        strip(seq![b, ' '] + l, CharClass::Space) == seq![b, ' '] + l,
        strip_bullets(seq![b, ' '] + l) == l,
{
    let w = seq![b, ' '] + l;
    assert(w[0] == b);
    assert(w[1] == ' ');
    assert(w.last() == l.last());
    assert(skip_leading(w, CharClass::Space) == w);
    assert(skip_trailing(w, CharClass::Space) == w);
    assert(w.drop_first() =~= seq![' '] + l);
}

} // verus!
