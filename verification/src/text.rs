//! Character-level text helpers over `Seq<char>`: trimming by a class of
//! characters, splitting on a separator class and line splitting, each with
//! a mathematical definition and an executable counterpart on `Vec<char>`.

use vstd::prelude::*;

verus! {

/// The classes of characters that the parsers trim away or split on.
#[derive(Debug, Clone, Copy, PartialEq, Eq)]
pub enum CharClass {
    /// Unicode `White_Space`, as `char::is_whitespace` decides it.
    Space,
    /// The seconds suffix `s`.
    SecondsSuffix,
    /// Brackets and quotes that often wrap model output: `[ ] " ' ( )`.
    Wrapper,
    /// The `:` between hours, minutes and seconds.
    Colon,
    /// Token boundaries inside free text: white space and `, ; [ ] " ' ( )`.
    TokenBreak,
    /// A comma.
    Comma,
    /// A semicolon.
    Semicolon,
    /// A line feed.
    LineFeed,
}

/// Unicode `White_Space` (the set that `char::is_whitespace` accepts).
pub open spec fn is_space(c: char) -> bool {
    ||| c == '\t'
    ||| c == '\n'
    ||| c == '\u{0B}'
    ||| c == '\u{0C}'
    ||| c == '\r'
    ||| c == ' '
    ||| c == '\u{85}'
    ||| c == '\u{A0}'
    ||| c == '\u{1680}'
    ||| ('\u{2000}' <= c && c <= '\u{200A}')
    ||| c == '\u{2028}'
    ||| c == '\u{2029}'
    ||| c == '\u{202F}'
    ||| c == '\u{205F}'
    ||| c == '\u{3000}'
}

pub open spec fn is_wrapper(c: char) -> bool {
    c == '[' || c == ']' || c == '"' || c == '\'' || c == '(' || c == ')'
}

pub open spec fn is_ascii_digit(c: char) -> bool {
    '0' <= c && c <= '9'
}

/// Membership of a character in a class.
pub open spec fn in_class(k: CharClass, c: char) -> bool {
    match k {
        CharClass::Space => is_space(c),
        CharClass::SecondsSuffix => c == 's',
        CharClass::Wrapper => is_wrapper(c),
        CharClass::Colon => c == ':',
        CharClass::TokenBreak => is_space(c) || c == ',' || c == ';' || is_wrapper(c),
        CharClass::Comma => c == ',',
        CharClass::Semicolon => c == ';',
        CharClass::LineFeed => c == '\n',
    }
}

/// Executable test of `is_space`.
pub fn char_is_space(c: char) -> (b: bool)
    ensures
        b == is_space(c),
{
    c == '\t' || c == '\n' || c == '\u{0B}' || c == '\u{0C}' || c == '\r' || c == ' '
        || c == '\u{85}' || c == '\u{A0}' || c == '\u{1680}' || ('\u{2000}' <= c && c
        <= '\u{200A}') || c == '\u{2028}' || c == '\u{2029}' || c == '\u{202F}' || c
        == '\u{205F}' || c == '\u{3000}'
}

/// Executable test of `is_ascii_digit`.
pub fn char_is_ascii_digit(c: char) -> (b: bool)
    ensures
        b == is_ascii_digit(c),
{
    '0' <= c && c <= '9'
}

/// Executable test of `in_class`.
pub fn char_in_class(k: CharClass, c: char) -> (b: bool)
    ensures
        b == in_class(k, c),
{
    let wrapper = c == '[' || c == ']' || c == '"' || c == '\'' || c == '(' || c == ')';
    match k {
        CharClass::Space => char_is_space(c),
        CharClass::SecondsSuffix => c == 's',
        CharClass::Wrapper => wrapper,
        CharClass::Colon => c == ':',
        CharClass::TokenBreak => char_is_space(c) || c == ',' || c == ';' || wrapper,
        CharClass::Comma => c == ',',
        CharClass::Semicolon => c == ';',
        CharClass::LineFeed => c == '\n',
    }
}

/// `s` without its leading characters of class `k`.
pub open spec fn skip_leading(s: Seq<char>, k: CharClass) -> Seq<char>
    decreases s.len(),
{
    if s.len() > 0 && in_class(k, s[0]) {
        skip_leading(s.drop_first(), k)
    } else {
        s
    }
}

/// `s` without its trailing characters of class `k`.
pub open spec fn skip_trailing(s: Seq<char>, k: CharClass) -> Seq<char>
    decreases s.len(),
{
    if s.len() > 0 && in_class(k, s.last()) {
        skip_trailing(s.drop_last(), k)
    } else {
        s
    }
}

/// `s` without leading and trailing characters of class `k`
/// (`str::trim_matches`; with `Space` it is `str::trim`).
pub open spec fn strip(s: Seq<char>, k: CharClass) -> Seq<char> {
    skip_trailing(skip_leading(s, k), k)
}

/// One step of splitting: the character `c` either ends the current piece
/// (it is a separator) or is appended to it.
pub open spec fn split_step(pieces: Seq<Seq<char>>, c: char, k: CharClass) -> Seq<Seq<char>> {
    if in_class(k, c) {
        pieces.push(Seq::empty())
    } else {
        pieces.update(pieces.len() - 1, pieces.last().push(c))
    }
}

/// The pieces of `s` between separators of class `k` (`str::split`): one
/// more piece than there are separators, empty pieces included.
pub open spec fn split_on(s: Seq<char>, k: CharClass) -> Seq<Seq<char>>
    decreases s.len(),
{
    if s.len() == 0 {
        seq![Seq::empty()]
    } else {
        split_step(split_on(s.drop_last(), k), s.last(), k)
    }
}

/// Whether `s` holds a character of class `k`.
pub open spec fn has_class(s: Seq<char>, k: CharClass) -> bool {
    exists|i: int| 0 <= i < s.len() && in_class(k, #[trigger] s[i])
}

/// A line without its trailing carriage return.
pub open spec fn without_cr(l: Seq<char>) -> Seq<char> {
    if l.len() > 0 && l.last() == '\r' {
        l.drop_last()
    } else {
        l
    }
}

/// The lines of `s` (`str::lines`): split at line feeds, a final empty piece
/// dropped, each line without a trailing carriage return.
pub open spec fn lines_of(s: Seq<char>) -> Seq<Seq<char>> {
    let pieces = split_on(s, CharClass::LineFeed);
    let kept = if pieces.last().len() == 0 {
        pieces.drop_last()
    } else {
        pieces
    };
    kept.map_values(|l: Seq<char>| without_cr(l))
}

pub proof fn lemma_skip_leading_len(s: Seq<char>, k: CharClass)
    ensures
        skip_leading(s, k).len() <= s.len(),
    decreases s.len(),
{
    if s.len() > 0 && in_class(k, s[0]) {
        lemma_skip_leading_len(s.drop_first(), k);
    }
}

pub proof fn lemma_split_nonempty(s: Seq<char>, k: CharClass)
    ensures
        split_on(s, k).len() >= 1,
    decreases s.len(),
{
    if s.len() > 0 {
        lemma_split_nonempty(s.drop_last(), k);
    }
}

/// Splitting at a separator at position `i` splits the pieces there.
pub proof fn lemma_split_at_separator(s: Seq<char>, k: CharClass, i: int)
    requires
        0 <= i < s.len(),
        in_class(k, s[i]),
    ensures
        split_on(s, k) == split_on(s.take(i), k) + split_on(s.skip(i + 1), k),
    decreases s.len(),
{
    lemma_split_nonempty(s.take(i), k);
    if i == s.len() - 1 {
        assert(s.drop_last() =~= s.take(i));
        assert(s.skip(i + 1) =~= Seq::<char>::empty());
        assert(split_on(s.skip(i + 1), k) =~= seq![Seq::<char>::empty()]);
    } else {
        let t = s.drop_last();
        assert(t[i] == s[i]);
        lemma_split_at_separator(t, k, i);
        assert(t.take(i) =~= s.take(i));
        let r = s.skip(i + 1);
        assert(t.skip(i + 1) =~= r.drop_last());
        assert(r.last() == s.last());
        let a = split_on(s.take(i), k);
        let b = split_on(r.drop_last(), k);
        lemma_split_nonempty(r.drop_last(), k);
        if in_class(k, s.last()) {
            assert((a + b).push(Seq::empty()) =~= a + b.push(Seq::empty()));
        } else {
            assert((a + b).update((a + b).len() - 1, (a + b).last().push(s.last())) =~= a
                + b.update(b.len() - 1, b.last().push(s.last())));
        }
    }
}

/// Without a separator, `s` is a single piece.
pub proof fn lemma_split_no_separator(s: Seq<char>, k: CharClass)
    requires
        !has_class(s, k),
    ensures
        split_on(s, k) == seq![s],
    decreases s.len(),
{
    if s.len() > 0 {
        let t = s.drop_last();
        assert(!has_class(t, k)) by {
            if has_class(t, k) {
                let i = choose|i: int| 0 <= i < t.len() && in_class(k, #[trigger] t[i]);
                assert(s[i] == t[i]);
            }
        }
        lemma_split_no_separator(t, k);
        assert(!in_class(k, s[s.len() - 1]));
        assert(t.push(s.last()) =~= s);
        assert(seq![t].update(0, t.push(s.last())) =~= seq![s]);
    } else {
        assert(s =~= Seq::<char>::empty());
    }
}

/// The characters of a string.
pub fn chars_of(s: &str) -> (v: Vec<char>)
    ensures
        v@ == s@,
{
    let mut v: Vec<char> = Vec::new();
    for c in it: s.chars()
        invariant
            v@ == it.seq().take(it.index() as int),
            it.seq() == s@,
    {
        v.push(c);
    }
    v
}

/// Index of the first character in `v[lo..hi]` that is not of class `k`
/// (or `hi`): what `skip_leading` leaves starts there.
pub fn leading_end(v: &Vec<char>, lo: usize, hi: usize, k: CharClass) -> (i: usize)
    requires
        lo <= hi <= v.len(),
    ensures
        lo <= i <= hi,
        skip_leading(v@.subrange(lo as int, hi as int), k) == v@.subrange(i as int, hi as int),
{
    let mut i = lo;
    while i < hi
        invariant
            lo <= i <= hi <= v.len(),
            skip_leading(v@.subrange(lo as int, hi as int), k) == skip_leading(
                v@.subrange(i as int, hi as int),
                k,
            ),
        decreases hi - i,
    {
        if !char_in_class(k, v[i]) {
            return i;
        }
        assert(v@.subrange(i as int, hi as int).drop_first() =~= v@.subrange(
            i + 1,
            hi as int,
        ));
        i = i + 1;
    }
    i
}

/// Index just past the last character in `v[lo..hi]` that is not of class
/// `k` (or `lo`): what `skip_trailing` leaves ends there.
pub fn trailing_start(v: &Vec<char>, lo: usize, hi: usize, k: CharClass) -> (j: usize)
    requires
        lo <= hi <= v.len(),
    ensures
        lo <= j <= hi,
        skip_trailing(v@.subrange(lo as int, hi as int), k) == v@.subrange(lo as int, j as int),
{
    let mut j = hi;
    while j > lo
        invariant
            lo <= j <= hi <= v.len(),
            skip_trailing(v@.subrange(lo as int, hi as int), k) == skip_trailing(
                v@.subrange(lo as int, j as int),
                k,
            ),
        decreases j - lo,
    {
        if !char_in_class(k, v[j - 1]) {
            return j;
        }
        assert(v@.subrange(lo as int, j as int).drop_last() =~= v@.subrange(
            lo as int,
            j - 1,
        ));
        j = j - 1;
    }
    j
}

/// The bounds of `strip(v[lo..hi], k)`.
pub fn strip_range(v: &Vec<char>, lo: usize, hi: usize, k: CharClass) -> (r: (usize, usize))
    requires
        lo <= hi <= v.len(),
    ensures
        lo <= r.0 <= r.1 <= hi,
        strip(v@.subrange(lo as int, hi as int), k) == v@.subrange(r.0 as int, r.1 as int),
{
    let a = leading_end(v, lo, hi, k);
    let b = trailing_start(v, a, hi, k);
    (a, b)
}

/// Position of the first character of class `k` in `v[lo..hi]`.
pub fn find_class(v: &Vec<char>, lo: usize, hi: usize, k: CharClass) -> (r: Option<usize>)
    requires
        lo <= hi <= v.len(),
    ensures
        match r {
            Some(i) => lo <= i < hi && in_class(k, v@[i as int]) && forall|j: int|
                lo <= j < i ==> !in_class(k, #[trigger] v@[j]),
            None => forall|j: int| lo <= j < hi ==> !in_class(k, #[trigger] v@[j]),
        },
{
    let mut i = lo;
    while i < hi
        invariant
            lo <= i <= hi <= v.len(),
            forall|j: int| lo <= j < i ==> !in_class(k, #[trigger] v@[j]),
        decreases hi - i,
    {
        if char_in_class(k, v[i]) {
            return Some(i);
        }
        i = i + 1;
    }
    None
}

/// Position of the last character of class `k` in `v[lo..hi]`.
pub fn rfind_class(v: &Vec<char>, lo: usize, hi: usize, k: CharClass) -> (r: Option<usize>)
    requires
        lo <= hi <= v.len(),
    ensures
        match r {
            Some(i) => lo <= i < hi && in_class(k, v@[i as int]) && forall|j: int|
                i < j < hi ==> !in_class(k, #[trigger] v@[j]),
            None => forall|j: int| lo <= j < hi ==> !in_class(k, #[trigger] v@[j]),
        },
{
    let mut i = hi;
    while i > lo
        invariant
            lo <= i <= hi <= v.len(),
            forall|j: int| i <= j < hi ==> !in_class(k, #[trigger] v@[j]),
        decreases i - lo,
    {
        if char_in_class(k, v[i - 1]) {
            return Some(i - 1);
        }
        i = i - 1;
    }
    None
}

/// A string holding the given characters (`FromIterator<char>` for
/// `String`, documented to collect the characters in order).
#[verifier::external_body]
pub(crate) fn string_from_chars(v: &Vec<char>) -> (s: String)
    ensures
        s@ == v@,
{
    v.iter().collect()
}

/// The number of bytes of the UTF-8 encoding of `s`.
pub open spec fn utf8_len(s: Seq<char>) -> nat
    decreases s.len(),
{
    if s.len() == 0 {
        0
    } else {
        utf8_len(s.drop_last()) + char_utf8_len(s.last())
    }
}

/// The UTF-8 length of one character.
pub open spec fn char_utf8_len(c: char) -> nat {
    if (c as u32) < 0x80 {
        1
    } else if (c as u32) < 0x800 {
        2
    } else if (c as u32) < 0x10000 {
        3
    } else {
        4
    }
}

/// The UTF-8 length of the first `k` characters of `v`.
pub fn utf8_prefix_len(v: &Vec<char>, k: usize) -> (r: u128)
    requires
        k <= v@.len(),
    ensures
        r == utf8_len(v@.take(k as int)),
{
    let mut n: u128 = 0;
    let mut i: usize = 0;
    while i < k
        invariant
            0 <= i <= k <= v@.len(),
            n == utf8_len(v@.take(i as int)),
            n <= 4 * i,
        decreases k - i,
    {
        let c = v[i];
        let w: u128 = if (c as u32) < 0x80 {
            1
        } else if (c as u32) < 0x800 {
            2
        } else if (c as u32) < 0x10000 {
            3
        } else {
            4
        };
        assert(v@.take(i + 1).drop_last() =~= v@.take(i as int));
        n = n + w;
        i = i + 1;
    }
    n
}

} // verus!
