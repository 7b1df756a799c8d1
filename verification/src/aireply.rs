//! Skip ranges out of a model reply, whatever shape it takes:
//! a JSON array of `{"start": .., "end": ..}` objects (or `start_time` /
//! `end_time`), of `[start, end]` pairs or of `"00:15-00:25"` strings, else
//! plain text with one range per line. The ranges come out merged.

use vstd::prelude::*;
use crate::json::{
    element, get_element, get_member, json_document, member, parse_json, JsonValue,
};
use crate::reply::{
    law_dash_range_line, lemma_clock_pair_text, lemma_dash_line_normal, range_line,
    range_line_in,
};
use crate::clock::pad2;
use crate::segments::{canonical, covers, normalize_segments};
use crate::text::{
    char_in_class, chars_of, in_class, lemma_split_at_separator, lemma_split_no_separator,
    lemma_split_nonempty, has_class, lines_of, split_on, string_from_chars, strip, strip_range,
    without_cr, CharClass,
};
use crate::timestamp::{decimal_milli, lemma_decimal_nonneg, parse_decimal_milli, parse_timestamp_in, spec_parse_timestamp};

verus! {

/// An optional value as a sequence of at most one element.
pub open spec fn opt_seq<T>(o: Option<T>) -> Seq<T> {
    match o {
        Some(x) => seq![x],
        None => Seq::empty(),
    }
}

/// A number of seconds that fits in a `u64` of milliseconds.
pub open spec fn fit_u64(x: Option<int>) -> Option<u64> {
    match x {
        Some(y) => if 0 <= y <= u64::MAX {
            Some(y as u64)
        } else {
            None
        },
        None => None,
    }
}

/// A JSON value read as a time: a non-negative number of seconds or a
/// timestamp string.
pub open spec fn json_seconds(v: JsonValue) -> Option<u64> {
    match v {
        JsonValue::Number(n) => fit_u64(decimal_milli(n@)),
        JsonValue::Str(s) => spec_parse_timestamp(s@),
        _ => None,
    }
}

/// Two times as a range, when the end comes after the start.
pub open spec fn ordered(a: Option<u64>, b: Option<u64>) -> Option<(u64, u64)> {
    match (a, b) {
        (Some(x), Some(y)) => if y > x {
            Some((x, y))
        } else {
            None
        },
        _ => None,
    }
}

pub open spec fn or_else(a: Option<JsonValue>, b: Option<JsonValue>) -> Option<JsonValue> {
    if a is Some {
        a
    } else {
        b
    }
}

pub open spec fn key_start() -> Seq<char> {
    seq!['s', 't', 'a', 'r', 't']
}

pub open spec fn key_end() -> Seq<char> {
    seq!['e', 'n', 'd']
}

pub open spec fn key_start_time() -> Seq<char> {
    seq!['s', 't', 'a', 'r', 't', '_', 't', 'i', 'm', 'e']
}

pub open spec fn key_end_time() -> Seq<char> {
    seq!['e', 'n', 'd', '_', 't', 'i', 'm', 'e']
}

/// The range one element of a JSON reply array denotes.
pub open spec fn item_range(item: JsonValue) -> Option<(u64, u64)> {
    match item {
        JsonValue::Object(_) => {
            let s = or_else(member(item, key_start()), member(item, key_start_time()));
            let e = or_else(member(item, key_end()), member(item, key_end_time()));
            match (s, e) {
                (Some(sv), Some(ev)) => ordered(json_seconds(sv), json_seconds(ev)),
                _ => None,
            }
        },
        JsonValue::Array(pair) => if pair@.len() == 2 {
            ordered(json_seconds(pair@[0]), json_seconds(pair@[1]))
        } else {
            None
        },
        JsonValue::Str(s) => range_line(s@),
        _ => None,
    }
}

/// The ranges of the elements of a JSON reply array, in order.
pub open spec fn items_ranges(items: Seq<JsonValue>) -> Seq<(u64, u64)>
    decreases items.len(),
{
    if items.len() == 0 {
        Seq::empty()
    } else {
        opt_seq(item_range(items[0])) + items_ranges(items.drop_first())
    }
}

/// The ranges of the lines of a plain-text reply, in order.
pub open spec fn lines_ranges(lines: Seq<Seq<char>>) -> Seq<(u64, u64)>
    decreases lines.len(),
{
    if lines.len() == 0 {
        Seq::empty()
    } else {
        opt_seq(range_line(lines[0])) + lines_ranges(lines.drop_first())
    }
}

/// The ranges a reply yields before merging: those of the JSON array when
/// it yields any, else those of the lines, else the whole text read as a
/// single range.
pub open spec fn raw_reply_ranges(text: Seq<char>) -> Seq<(u64, u64)> {
    let from_json = match json_document(strip(text, CharClass::Space)) {
        Some(JsonValue::Array(items)) => items_ranges(items@),
        _ => Seq::empty(),
    };
    let from_lines = lines_ranges(lines_of(text));
    if from_json.len() > 0 {
        from_json
    } else if from_lines.len() > 0 {
        from_lines
    } else {
        opt_seq(range_line(text))
    }
}

/// The time a JSON value denotes.
fn json_seconds_of(v: &JsonValue) -> (r: Option<u64>)
    ensures
        r == json_seconds(*v),
{
    match v {
        JsonValue::Number(n) => {
            let c = chars_of(n.as_str());
            assert(c@.subrange(0, c.len() as int) =~= n@);
            proof {
                lemma_decimal_nonneg(n@);
            }
            parse_decimal_milli(&c, 0, c.len())
        },
        JsonValue::Str(s) => {
            let c = chars_of(s.as_str());
            assert(c@.subrange(0, c.len() as int) =~= s@);
            parse_timestamp_in(&c, 0, c.len())
        },
        _ => None,
    }
}

fn ordered_pair(a: Option<u64>, b: Option<u64>) -> (r: Option<(u64, u64)>)
    ensures
        r == ordered(a, b),
{
    match (a, b) {
        (Some(x), Some(y)) => if y > x {
            Some((x, y))
        } else {
            None
        },
        _ => None,
    }
}

fn member_either<'a>(v: &'a JsonValue, k1: &Vec<char>, k2: &Vec<char>) -> (r: Option<&'a JsonValue>)
    ensures
        match r {
            Some(x) => or_else(member(*v, k1@), member(*v, k2@)) == Some(*x),
            None => or_else(member(*v, k1@), member(*v, k2@)) is None,
        },
{
    match get_member(v, k1) {
        Some(x) => Some(x),
        None => get_member(v, k2),
    }
}

/// The range one element of a JSON reply array denotes.
fn item_range_of(item: &JsonValue) -> (r: Option<(u64, u64)>)
    ensures
        r == item_range(*item),
{
    match item {
        JsonValue::Object(_) => {
            let k_start = vec!['s', 't', 'a', 'r', 't'];
            let k_end = vec!['e', 'n', 'd'];
            let k_start_time = vec!['s', 't', 'a', 'r', 't', '_', 't', 'i', 'm', 'e'];
            let k_end_time = vec!['e', 'n', 'd', '_', 't', 'i', 'm', 'e'];
            assert(k_start@ =~= key_start());
            assert(k_end@ =~= key_end());
            assert(k_start_time@ =~= key_start_time());
            assert(k_end_time@ =~= key_end_time());
            let s = member_either(item, &k_start, &k_start_time);
            let e = member_either(item, &k_end, &k_end_time);
            match (s, e) {
                (Some(sv), Some(ev)) => ordered_pair(json_seconds_of(sv), json_seconds_of(ev)),
                _ => None,
            }
        },
        JsonValue::Array(pair) => if pair.len() == 2 {
            ordered_pair(json_seconds_of(&pair[0]), json_seconds_of(&pair[1]))
        } else {
            None
        },
        JsonValue::Str(s) => {
            let c = chars_of(s.as_str());
            assert(c@.subrange(0, c.len() as int) =~= s@);
            range_line_in(&c, 0, c.len())
        },
        _ => None,
    }
}

/// The ranges of the elements of a parsed JSON reply array, in order:
/// objects with `start`/`end` (or `start_time`/`end_time`), pairs, and
/// range strings; elements that denote no range are skipped.
pub fn items_ranges_of(items: &Vec<JsonValue>) -> (r: Vec<(u64, u64)>)
    ensures
        r@ == items_ranges(items@),
{
    let mut out: Vec<(u64, u64)> = Vec::new();
    let mut i: usize = 0;
    assert(items@.skip(0) =~= items@);
    while i < items.len()
        invariant
            0 <= i <= items.len(),
            items_ranges(items@) == out@ + items_ranges(items@.skip(i as int)),
        decreases items.len() - i,
    {
        let ghost rest = items@.skip(i as int);
        assert(rest[0] == items@[i as int]);
        assert(rest.drop_first() =~= items@.skip(i + 1));
        let ghost before = out@;
        match item_range_of(&items[i]) {
            Some(x) => {
                out.push(x);
                assert(before + (seq![x] + items_ranges(items@.skip(i + 1))) =~= out@
                    + items_ranges(items@.skip(i + 1)));
            },
            None => {
                assert(before + (Seq::<(u64, u64)>::empty() + items_ranges(items@.skip(i + 1)))
                    =~= out@ + items_ranges(items@.skip(i + 1)));
            },
        }
        i = i + 1;
    }
    assert(items@.skip(items.len() as int) =~= Seq::<JsonValue>::empty());
    assert(out@ + Seq::<(u64, u64)>::empty() =~= out@);
    out
}

proof fn lemma_lines_at_feed(g: Seq<char>, p: int)
    requires
        0 <= p < g.len(),
        g[p] == '\n',
        !has_class(g.take(p), CharClass::LineFeed),
    ensures
        lines_of(g) == seq![without_cr(g.take(p))] + lines_of(g.skip(p + 1)),
{
    let k = CharClass::LineFeed;
    lemma_split_at_separator(g, k, p);
    lemma_split_no_separator(g.take(p), k);
    let tail = split_on(g.skip(p + 1), k);
    lemma_split_nonempty(g.skip(p + 1), k);
    let pieces = split_on(g, k);
    assert(pieces == seq![g.take(p)] + tail);
    assert(pieces.last() == tail.last());
    if tail.last().len() == 0 {
        assert(pieces.drop_last() =~= seq![g.take(p)] + tail.drop_last());
        assert(pieces.drop_last().map_values(|l: Seq<char>| without_cr(l)) =~= seq![
            without_cr(g.take(p)),
        ] + tail.drop_last().map_values(|l: Seq<char>| without_cr(l)));
    } else {
        assert(pieces.map_values(|l: Seq<char>| without_cr(l)) =~= seq![without_cr(g.take(p))]
            + tail.map_values(|l: Seq<char>| without_cr(l)));
    }
}

proof fn lemma_lines_last(g: Seq<char>)
    requires
        !has_class(g, CharClass::LineFeed),
    ensures
        lines_of(g) == if g.len() == 0 {
            Seq::<Seq<char>>::empty()
        } else {
            seq![without_cr(g)]
        },
{
    lemma_split_no_separator(g, CharClass::LineFeed);
    if g.len() == 0 {
        assert(seq![g].drop_last() =~= Seq::<Seq<char>>::empty());
        assert(Seq::<Seq<char>>::empty().map_values(|l: Seq<char>| without_cr(l)) =~= Seq::<
            Seq<char>,
        >::empty());
    } else {
        assert(seq![g].map_values(|l: Seq<char>| without_cr(l)) =~= seq![without_cr(g)]);
    }
}

proof fn lemma_lines_ranges_cons(x: Seq<char>, rest: Seq<Seq<char>>)
    ensures
        lines_ranges(seq![x] + rest) == opt_seq(range_line(x)) + lines_ranges(rest),
{
    assert((seq![x] + rest)[0] == x);
    assert((seq![x] + rest).drop_first() =~= rest);
}

proof fn lemma_no_feed(v: Seq<char>, lo: int, hi: int)
    requires
        0 <= lo <= hi <= v.len(),
        forall|j: int| lo <= j < hi ==> #[trigger] v[j] != '\n',
    ensures
        !has_class(v.subrange(lo, hi), CharClass::LineFeed),
{
    let s = v.subrange(lo, hi);
    if has_class(s, CharClass::LineFeed) {
        let j = choose|j: int| 0 <= j < s.len() && in_class(CharClass::LineFeed, #[trigger] s[j]);
        assert(s[j] == v[lo + j]);
    }
}

/// The ranges of the lines of `v`.
fn lines_ranges_of(v: &Vec<char>) -> (r: Vec<(u64, u64)>)
    ensures
        r@ == lines_ranges(lines_of(v@)),
{
    let n = v.len();
    let mut out: Vec<(u64, u64)> = Vec::new();
    let mut start: usize = 0;
    let mut i: usize = 0;
    assert(v@.subrange(0, n as int) =~= v@);
    while i < n
        invariant
            0 <= start <= i <= n == v.len(),
            lines_ranges(lines_of(v@)) == out@ + lines_ranges(
                lines_of(v@.subrange(start as int, n as int)),
            ),
            forall|j: int| start <= j < i ==> #[trigger] v@[j] != '\n',
        decreases n - i,
    {
        if v[i] == '\n' {
            let end = if i > start && v[i - 1] == '\r' {
                i - 1
            } else {
                i
            };
            let got = range_line_in(v, start, end);
            proof {
                let g = v@.subrange(start as int, n as int);
                let p = i - start;
                assert(g[p] == v@[i as int]);
                assert(g.take(p) =~= v@.subrange(start as int, i as int));
                lemma_no_feed(v@, start as int, i as int);
                lemma_lines_at_feed(g, p);
                assert(g.skip(p + 1) =~= v@.subrange(i + 1, n as int));
                assert(without_cr(g.take(p)) =~= v@.subrange(start as int, end as int));
                lemma_lines_ranges_cons(without_cr(g.take(p)), lines_of(g.skip(p + 1)));
            }
            let ghost before = out@;
            match got {
                Some(x) => {
                    out.push(x);
                    assert(before + (seq![x] + lines_ranges(lines_of(v@.subrange(i + 1, n as int))))
                        =~= out@ + lines_ranges(lines_of(v@.subrange(i + 1, n as int))));
                },
                None => {
                    assert(before + (Seq::<(u64, u64)>::empty() + lines_ranges(
                        lines_of(v@.subrange(i + 1, n as int)),
                    )) =~= out@ + lines_ranges(lines_of(v@.subrange(i + 1, n as int))));
                },
            }
            start = i + 1;
        }
        i = i + 1;
    }
    proof {
        let g = v@.subrange(start as int, n as int);
        lemma_no_feed(v@, start as int, n as int);
        lemma_lines_last(g);
    }
    if start < n {
        let end = if v[n - 1] == '\r' {
            n - 1
        } else {
            n
        };
        let got = range_line_in(v, start, end);
        proof {
            let g = v@.subrange(start as int, n as int);
            assert(without_cr(g) =~= v@.subrange(start as int, end as int));
            lemma_lines_ranges_cons(without_cr(g), Seq::empty());
            assert(seq![without_cr(g)] + Seq::<Seq<char>>::empty() =~= seq![without_cr(g)]);
        }
        let ghost before = out@;
        match got {
            Some(x) => {
                out.push(x);
                assert(before + (seq![x] + Seq::<(u64, u64)>::empty()) =~= out@);
            },
            None => {
                assert(before + (Seq::<(u64, u64)>::empty() + Seq::<(u64, u64)>::empty()) =~= out@);
            },
        }
    } else {
        assert(out@ + Seq::<(u64, u64)>::empty() =~= out@);
    }
    out
}

/// The unmerged ranges of a reply (see `raw_reply_ranges`).
fn raw_ranges_of(text: &str) -> (r: Vec<(u64, u64)>)
    ensures
        r@ == raw_reply_ranges(text@),
{
    let v = chars_of(text);
    let n = v.len();
    let (a, b) = strip_range(&v, 0, n, CharClass::Space);
    let mut w: Vec<char> = Vec::new();
    let mut i = a;
    while i < b
        invariant
            a <= i <= b <= n == v.len(),
            w@ == v@.subrange(a as int, i as int),
        decreases b - i,
    {
        w.push(v[i]);
        assert(w@ =~= v@.subrange(a as int, i + 1));
        i = i + 1;
    }
    assert(v@.subrange(0, n as int) =~= text@);
    let trimmed = string_from_chars(&w);
    let from_json = match parse_json(trimmed.as_str()) {
        Some(JsonValue::Array(items)) => items_ranges_of(&items),
        _ => Vec::new(),
    };
    if from_json.len() > 0 {
        return from_json;
    }
    let from_lines = lines_ranges_of(&v);
    if from_lines.len() > 0 {
        return from_lines;
    }
    match range_line_in(&v, 0, n) {
        Some(x) => {
            let mut one: Vec<(u64, u64)> = Vec::new();
            one.push(x);
            assert(one@ =~= seq![x]);
            one
        },
        None => {
            let none: Vec<(u64, u64)> = Vec::new();
            assert(none@ =~= Seq::<(u64, u64)>::empty());
            none
        },
    }
}

/// Parse a model reply into merged skip ranges `(start_ms, end_ms)`.
///
/// Handles a JSON array of objects (`start`/`end`, or `start_time`/
/// `end_time`), of `[start, end]` pairs or of range strings, and plain text
/// with one range per line (`00:15-00:25`, `15s - 25s`, `15 --> 25`,
/// `15 to 25`). Empty ranges are dropped; the rest come out sorted, with
/// overlapping or touching ranges joined.
pub fn parse_ai_timestamps(text: &str) -> (r: Vec<(u64, u64)>)
    ensures
        canonical(r@),
        forall|t: int| covers(r@, t) == covers(raw_reply_ranges(text@), t),
{
    let raw = raw_ranges_of(text);
    normalize_segments(raw)
}

pub open spec fn key_candidates() -> Seq<char> {
    seq!['c', 'a', 'n', 'd', 'i', 'd', 'a', 't', 'e', 's']
}

pub open spec fn key_content() -> Seq<char> {
    seq!['c', 'o', 'n', 't', 'e', 'n', 't']
}

pub open spec fn key_parts() -> Seq<char> {
    seq!['p', 'a', 'r', 't', 's']
}

pub open spec fn key_text() -> Seq<char> {
    seq!['t', 'e', 'x', 't']
}

pub open spec fn then_member(o: Option<JsonValue>, key: Seq<char>) -> Option<JsonValue> {
    match o {
        Some(v) => member(v, key),
        None => None,
    }
}

pub open spec fn then_first(o: Option<JsonValue>) -> Option<JsonValue> {
    match o {
        Some(v) => element(v, 0),
        None => None,
    }
}

/// The text of the first part of the first candidate of a Gemini
/// `generateContent` response (`candidates[0].content.parts[0].text`).
pub open spec fn reply_text_of(doc: JsonValue) -> Option<String> {
    let part = then_first(
        then_member(then_member(then_first(member(doc, key_candidates())), key_content()), key_parts()),
    );
    match then_member(part, key_text()) {
        Some(JsonValue::Str(s)) => Some(s),
        _ => None,
    }
}

/// The reply text of a parsed Gemini `generateContent` response.
pub fn doc_reply_text(doc: &JsonValue) -> (r: Option<String>)
    ensures
        r == reply_text_of(*doc),
{
    let k_candidates = vec!['c', 'a', 'n', 'd', 'i', 'd', 'a', 't', 'e', 's'];
    let k_content = vec!['c', 'o', 'n', 't', 'e', 'n', 't'];
    let k_parts = vec!['p', 'a', 'r', 't', 's'];
    let k_text = vec!['t', 'e', 'x', 't'];
    assert(k_candidates@ =~= key_candidates());
    assert(k_content@ =~= key_content());
    assert(k_parts@ =~= key_parts());
    assert(k_text@ =~= key_text());
    let c = match get_member(doc, &k_candidates) {
        Some(c) => c,
        None => {
            return None;
        },
    };
    let c0 = match get_element(c, 0) {
        Some(x) => x,
        None => {
            return None;
        },
    };
    let content = match get_member(c0, &k_content) {
        Some(x) => x,
        None => {
            return None;
        },
    };
    let parts = match get_member(content, &k_parts) {
        Some(x) => x,
        None => {
            return None;
        },
    };
    let p0 = match get_element(parts, 0) {
        Some(x) => x,
        None => {
            return None;
        },
    };
    match get_member(p0, &k_text) {
        Some(JsonValue::Str(s)) => Some(s.clone()),
        _ => None,
    }
}

/// The reply text of a Gemini `generateContent` response body.
pub fn reply_text(body: &str) -> (r: Option<String>)
    ensures
        r == match json_document(body@) {
            Some(doc) => reply_text_of(doc),
            None => None,
        },
{
    match parse_json(body) {
        Some(d) => doc_reply_text(&d),
        None => None,
    }
}

/// The skip ranges in a Gemini response body: those of its reply text, or
/// none when the body has no reply text or the text is blank.
pub fn skip_ranges_from_response(body: &str) -> (r: Vec<(u64, u64)>)
    ensures
        match json_document(body@) {
            Some(doc) => match reply_text_of(doc) {
                Some(t) => if strip(t@, CharClass::Space).len() == 0 {
                    r@.len() == 0
                } else {
                    canonical(r@) && forall|x: int| covers(r@, x) == covers(raw_reply_ranges(t@), x)
                },
                None => r@.len() == 0,
            },
            None => r@.len() == 0,
        },
{
    match reply_text(body) {
        Some(t) => {
            let c = chars_of(t.as_str());
            let (a, b) = strip_range(&c, 0, c.len(), CharClass::Space);
            assert(c@.subrange(0, c.len() as int) =~= t@);
            if a == b {
                Vec::new()
            } else {
                parse_ai_timestamps(t.as_str())
            }
        },
        None => Vec::new(),
    }
}

/// A reply that is not a JSON array and reads `MM:SS<sep>MM:SS`, with
/// `sep` any of `-`, `–`, `—` or `→` and the second time later, yields the
/// one range between the two times: what `parse_ai_timestamps` makes of
/// it covers exactly the milliseconds from the first time up to the second.
pub proof fn law_dash_reply_range(m1: nat, s1: nat, m2: nat, s2: nat, sep: char)
    requires
        sep == '-' || sep == '–' || sep == '—' || sep == '→',
        60 * m1 + s1 < 60 * m2 + s2,
        (60 * m2 + s2) * 1000 <= u64::MAX,
        !(json_document(
            pad2(m1) + seq![':'] + pad2(s1) + seq![sep] + pad2(m2) + seq![':'] + pad2(s2),
        ) matches Some(JsonValue::Array(_))),
    ensures
        raw_reply_ranges(pad2(m1) + seq![':'] + pad2(s1) + seq![sep] + pad2(m2) + seq![':'] + pad2(
            s2,
        )) == seq![(((60 * m1 + s1) * 1000) as u64, ((60 * m2 + s2) * 1000) as u64)],
        forall|t: int|
            covers(
                raw_reply_ranges(
                    pad2(m1) + seq![':'] + pad2(s1) + seq![sep] + pad2(m2) + seq![':'] + pad2(s2),
                ),
                t,
            ) <==> (60 * m1 + s1) * 1000 <= t < (60 * m2 + s2) * 1000,
{
    let text = pad2(m1) + seq![':'] + pad2(s1) + seq![sep] + pad2(m2) + seq![':'] + pad2(s2);
    let a = ((60 * m1 + s1) * 1000) as u64;
    let b = ((60 * m2 + s2) * 1000) as u64;
    lemma_clock_pair_text(m1, s1);
    lemma_clock_pair_text(m2, s2);
    let x = pad2(m1) + seq![':'] + pad2(s1);
    let y = pad2(m2) + seq![':'] + pad2(s2);
    assert(text =~= x + seq![sep] + y);
    lemma_dash_line_normal(x, y, sep);
    law_dash_range_line(m1, s1, m2, s2, sep);
    assert(range_line(text) == Some((a, b)));
    assert(strip(text, CharClass::Space) == text);
    let k = x.len() as int;
    assert(!has_class(text, CharClass::LineFeed)) by {
        if has_class(text, CharClass::LineFeed) {
            let i = choose|i: int| 0 <= i < text.len() && in_class(CharClass::LineFeed, #[trigger] text[i]);
            if i < k {
                assert(text[i] == x[i]);
                assert(crate::text::is_ascii_digit(x[i]) || x[i] == ':');
            } else if i > k {
                assert(text[i] == y[i - k - 1]);
                assert(crate::text::is_ascii_digit(y[i - k - 1]) || y[i - k - 1] == ':');
            }
        }
    }
    lemma_split_no_separator(text, CharClass::LineFeed);
    assert(text.last() == y.last());
    assert(without_cr(text) == text);
    assert(lines_of(text) =~= seq![text]);
    assert(seq![text].drop_first() =~= Seq::<Seq<char>>::empty());
    assert(seq![text][0] == text);
    assert(lines_ranges(Seq::<Seq<char>>::empty()) =~= Seq::<(u64, u64)>::empty());
    assert(opt_seq(range_line(text)) =~= seq![(a, b)]);
    assert(lines_ranges(seq![text]) =~= seq![(a, b)]);
    assert(raw_reply_ranges(text) =~= seq![(a, b)]);
    assert forall|t: int| covers(raw_reply_ranges(text), t) <==> a <= t < b by {
        if a <= t < b {
            assert(crate::segments::holds(raw_reply_ranges(text)[0], t));
        }
    }
}

} // verus!
