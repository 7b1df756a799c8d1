//! Player-screen helpers: chapters, subtitle choices, network streams and
//! render qualities.

use vstd::prelude::*;
use vstd::string::{StrSliceExecFns, StringExecFns};
use crate::text::{CharClass, char_utf8_len, chars_of, strip, strip_range, string_from_chars, utf8_len};
use crate::seqsearch::{last_where, lemma_last_where_unique};

verus! {

/// One embedded chapter: its title and start time.
#[derive(Debug, Clone)]
pub struct ChapterInfo {
    pub title: String,
    pub time_ms: u64,
}

/// One embedded subtitle track: the player's track id, title and language.
#[derive(Debug, Clone)]
pub struct SubTrackInfo {
    pub id: i64,
    pub title: String,
    pub lang: String,
}

/// Position predicate: chapter `i` starts at or before `pos_ms`.
pub open spec fn started_by(chapters: Seq<ChapterInfo>, pos_ms: u64) -> spec_fn(int) -> bool {
    |i: int| chapters[i].time_ms <= pos_ms
}

/// The title of the last chapter (in list order) that starts at or before
/// `pos_ms`.
pub open spec fn chapter_title_at(chapters: Seq<ChapterInfo>, pos_ms: u64) -> Option<Seq<char>> {
    let l = last_where(chapters.len() as int, started_by(chapters, pos_ms));
    if l >= 0 {
        Some(chapters[l].title@)
    } else {
        None
    }
}

/// Title of the chapter containing `pos_ms` (chapters sorted by start).
pub fn current_chapter_title(chapters: &Vec<ChapterInfo>, pos_ms: u64) -> (r: Option<&str>)
    ensures
        match r {
            Some(t) => chapter_title_at(chapters@, pos_ms) == Some(t@),
            None => chapter_title_at(chapters@, pos_ms) is None,
        },
{
    let mut k = chapters.len();
    while k > 0
        invariant
            0 <= k <= chapters.len(),
            forall|j: int| k <= j < chapters.len() ==> !((#[trigger] chapters@[j]).time_ms <= pos_ms),
        decreases k,
    {
        if chapters[k - 1].time_ms <= pos_ms {
            proof {
                assert forall|j: int| k - 1 < j < chapters.len() implies !#[trigger] started_by(
                    chapters@,
                    pos_ms,
                )(j) by {
                    assert(!(chapters@[j].time_ms <= pos_ms));
                }
                lemma_last_where_unique(chapters.len() as int, started_by(chapters@, pos_ms), k - 1);
            }
            return Some(chapters[k - 1].title.as_str());
        }
        k = k - 1;
    }
    proof {
        assert forall|j: int| -1 < j < chapters.len() implies !#[trigger] started_by(
            chapters@,
            pos_ms,
        )(j) by {
            assert(!(chapters@[j].time_ms <= pos_ms));
        }
        lemma_last_where_unique(chapters.len() as int, started_by(chapters@, pos_ms), -1);
    }
    None
}

/// A chapter start clipped to the duration.
pub open spec fn clipped(c: ChapterInfo, d: u64) -> u64 {
    if c.time_ms < d {
        c.time_ms
    } else {
        d
    }
}

/// The boundaries of the chapter strip: the start, the end, and every
/// chapter start clipped to the duration.
pub open spec fn strip_point(chapters: Seq<ChapterInfo>, d: u64, x: u64) -> bool {
    x == 0 || x == d || exists|i: int| 0 <= i < chapters.len() && clipped(#[trigger] chapters[i], d) == x
}

/// Contiguous segments from `0` to `d`, each non-empty, whose boundaries
/// are exactly the points `strip_point` names.
pub open spec fn chapter_strip(chapters: Seq<ChapterInfo>, d: u64, r: Seq<(u64, u64)>) -> bool {
    &&& r.len() > 0
    &&& r[0].0 == 0
    &&& r.last().1 == d
    &&& forall|i: int| 0 <= i < r.len() ==> (#[trigger] r[i]).0 < r[i].1
    &&& forall|i: int| 0 <= i < r.len() - 1 ==> (#[trigger] r[i]).1 == r[i + 1].0
    &&& forall|x: u64|
        strip_point(chapters, d, x) <==> (x == d || exists|i: int|
            0 <= i < r.len() && (#[trigger] r[i]).0 == x)
}

/// The smallest clipped chapter start above `prev`, if any.
fn next_bound(chapters: &Vec<ChapterInfo>, d: u64, prev: u64) -> (r: Option<u64>)
    ensures
        match r {
            Some(b) => {
                &&& prev < b
                &&& exists|i: int| 0 <= i < chapters@.len() && clipped(#[trigger] chapters@[i], d) == b
                &&& forall|i: int|
                    0 <= i < chapters@.len() && prev < clipped(#[trigger] chapters@[i], d) ==> b
                        <= clipped(chapters@[i], d)
            },
            None => forall|i: int|
                0 <= i < chapters@.len() ==> clipped(#[trigger] chapters@[i], d) <= prev,
        },
{
    let mut best: Option<u64> = None;
    let mut i: usize = 0;
    while i < chapters.len()
        invariant
            0 <= i <= chapters.len(),
            match best {
                Some(b) => {
                    &&& prev < b
                    &&& exists|j: int| 0 <= j < i && clipped(#[trigger] chapters@[j], d) == b
                    &&& forall|j: int|
                        0 <= j < i && prev < clipped(#[trigger] chapters@[j], d) ==> b <= clipped(
                            chapters@[j],
                            d,
                        )
                },
                None => forall|j: int| 0 <= j < i ==> clipped(#[trigger] chapters@[j], d) <= prev,
            },
        decreases chapters.len() - i,
    {
        let t = chapters[i].time_ms;
        let c = if t < d {
            t
        } else {
            d
        };
        assert(c == clipped(chapters@[i as int], d));
        if c > prev {
            match best {
                Some(b) => {
                    if c < b {
                        best = Some(c);
                    }
                },
                None => {
                    best = Some(c);
                },
            }
        }
        i = i + 1;
    }
    best
}

/// Clickable chapter segments `(start, end)` clipped to `duration_ms`:
/// empty without chapters or duration; zero-length segments are dropped.
pub fn chapter_segments(chapters: &Vec<ChapterInfo>, duration_ms: u64) -> (r: Vec<(u64, u64)>)
    ensures
        chapters@.len() == 0 || duration_ms == 0 ==> r@.len() == 0,
        chapters@.len() > 0 && duration_ms > 0 ==> chapter_strip(chapters@, duration_ms, r@),
{
    let mut segs: Vec<(u64, u64)> = Vec::new();
    if chapters.len() == 0 || duration_ms == 0 {
        return segs;
    }
    let d = duration_ms;
    let mut prev: u64 = 0;
    while prev < d
        invariant
            chapters@.len() > 0,
            d > 0,
            prev <= d,
            segs@.len() == 0 ==> prev == 0,
            segs@.len() > 0 ==> segs@[0].0 == 0 && segs@.last().1 == prev,
            forall|i: int| 0 <= i < segs@.len() ==> (#[trigger] segs@[i]).0 < segs@[i].1,
            forall|i: int| 0 <= i < segs@.len() - 1 ==> (#[trigger] segs@[i]).1 == segs@[i + 1].0,
            forall|i: int| 0 <= i < segs@.len() ==> (#[trigger] segs@[i]).1 <= prev,
            forall|i: int| 0 <= i < segs@.len() ==> strip_point(chapters@, d, (#[trigger] segs@[i]).0),
            strip_point(chapters@, d, prev),
            forall|x: u64|
                strip_point(chapters@, d, x) && x < prev ==> exists|i: int|
                    0 <= i < segs@.len() && (#[trigger] segs@[i]).0 == x,
        decreases d - prev,
    {
        let next = match next_bound(chapters, d, prev) {
            Some(b) => b,
            None => d,
        };
        let ghost old_segs = segs@;
        segs.push((prev, next));
        proof {
            assert(strip_point(chapters@, d, next));
            assert forall|x: u64| strip_point(chapters@, d, x) && x < next implies exists|i: int|
                0 <= i < segs@.len() && (#[trigger] segs@[i]).0 == x by {
                if x < prev {
                    let i = choose|i: int| 0 <= i < old_segs.len() && (#[trigger] old_segs[i]).0 == x;
                    assert(segs@[i] == old_segs[i]);
                } else if x == prev {
                    assert(segs@[old_segs.len() as int].0 == x);
                } else {
                    if x != d && x != 0 {
                        let j = choose|j: int|
                            0 <= j < chapters@.len() && clipped(#[trigger] chapters@[j], d) == x;
                        assert(prev < clipped(chapters@[j], d));
                    }
                }
            }
            assert forall|i: int| 0 <= i < segs@.len() - 1 implies (#[trigger] segs@[i]).1
                == segs@[i + 1].0 by {
                if i < old_segs.len() - 1 {
                    assert(segs@[i] == old_segs[i] && segs@[i + 1] == old_segs[i + 1]);
                }
            }
        }
        prev = next;
    }
    proof {
        let r = segs@;
        assert forall|x: u64| strip_point(chapters@, d, x) <==> (x == d || exists|i: int|
            0 <= i < r.len() && (#[trigger] r[i]).0 == x) by {
            if strip_point(chapters@, d, x) && x != d {
                if x > d {
                    let j = choose|j: int|
                        0 <= j < chapters@.len() && clipped(#[trigger] chapters@[j], d) == x;
                }
            }
        }
    }
    segs
}

/// Subtitle picker choice: captions off, or one embedded track.
#[derive(Debug, Clone, PartialEq)]
pub enum SubtitleOption {
    Off,
    Track { id: i64, label: String },
}

/// The picker label of a choice.
pub open spec fn option_label(o: SubtitleOption) -> Seq<char> {
    match o {
        SubtitleOption::Off => "Off"@,
        SubtitleOption::Track { label, .. } => label@,
    }
}

impl SubtitleOption {
    /// The text shown in the picker.
    pub fn to_string(&self) -> (r: String)
        ensures
            r@ == option_label(*self),
    {
        match self {
            SubtitleOption::Off => String::from_str("Off"),
            SubtitleOption::Track { label, .. } => label.clone(),
        }
    }
}

/// The label of a track: its title, with the language in brackets unless
/// the language is empty or `und`.
pub open spec fn track_label(t: SubTrackInfo) -> Seq<char> {
    if t.lang@.len() == 0 || t.lang@ == "und"@ {
        t.title@
    } else {
        t.title@ + " ["@ + t.lang@ + "]"@
    }
}

/// Whether `o` is the track choice with this id and label.
pub open spec fn is_track(o: SubtitleOption, id: i64, label: Seq<char>) -> bool {
    o matches SubtitleOption::Track { id: i, label: l } && i == id && l@ == label
}

/// Picker options for loaded tracks: `Off` first, then one labelled entry
/// per track in order.
pub fn build_subtitle_options(tracks: &Vec<SubTrackInfo>) -> (r: Vec<SubtitleOption>)
    ensures
        r@.len() == tracks@.len() + 1,
        r@[0] == SubtitleOption::Off,
        forall|i: int|
            0 <= i < tracks@.len() ==> is_track(
                #[trigger] r@[i + 1],
                tracks@[i].id,
                track_label(tracks@[i]),
            ),
{
    let mut options: Vec<SubtitleOption> = Vec::new();
    options.push(SubtitleOption::Off);
    let mut i: usize = 0;
    while i < tracks.len()
        invariant
            0 <= i <= tracks.len(),
            options@.len() == i + 1,
            options@[0] == SubtitleOption::Off,
            forall|j: int|
                0 <= j < i ==> is_track(
                    #[trigger] options@[j + 1],
                    tracks@[j].id,
                    track_label(tracks@[j]),
                ),
        decreases tracks.len() - i,
    {
        let track = &tracks[i];
        let lang = track.lang.as_str();
        let plain = lang.is_empty() || crate::config::str_eq(lang, "und");
        let label = if plain {
            track.title.clone()
        } else {
            let mut l = track.title.clone();
            l.append(" [");
            l.append(lang);
            l.append("]");
            l
        };
        options.push(SubtitleOption::Track { id: track.id, label });
        i = i + 1;
    }
    options
}

/// Whether `s` starts with `p`.
pub open spec fn starts_with(s: Seq<char>, p: Seq<char>) -> bool {
    p.len() <= s.len() && s.take(p.len() as int) == p
}

/// A direct `http://` or `https://` URL longer than twelve bytes, once
/// trimmed.
pub open spec fn playable(text: Seq<char>) -> bool {
    let url = strip(text, CharClass::Space);
    (starts_with(url, "http://"@) || starts_with(url, "https://"@)) && utf8_len(url) > 12
}

/// Whether `v[lo..]` starts with `p`.
fn has_prefix_at(v: &Vec<char>, lo: usize, hi: usize, p: &str) -> (r: bool)
    requires
        lo <= hi <= v@.len(),
    ensures
        r == starts_with(v@.subrange(lo as int, hi as int), p@),
{
    let n = p.unicode_len();
    if n > hi - lo {
        return false;
    }
    let mut i: usize = 0;
    while i < n
        invariant
            n == p@.len(),
            lo + n <= hi <= v@.len(),
            0 <= i <= n,
            forall|j: int| 0 <= j < i ==> v@[lo + j] == p@[j],
        decreases n - i,
    {
        if v[lo + i] != p.get_char(i) {
            assert(v@.subrange(lo as int, hi as int).take(n as int)[i as int] != p@[i as int]);
            return false;
        }
        i = i + 1;
    }
    assert(v@.subrange(lo as int, hi as int).take(n as int) =~= p@);
    true
}

/// The UTF-8 length of `v[lo..hi]`, capped: the exact length when it is at
/// most `cap`, else some value above `cap`.
fn utf8_len_capped(v: &Vec<char>, lo: usize, hi: usize, cap: usize) -> (r: usize)
    requires
        lo <= hi <= v@.len(),
        cap < usize::MAX - 4,
    ensures
        utf8_len(v@.subrange(lo as int, hi as int)) <= cap ==> r == utf8_len(
            v@.subrange(lo as int, hi as int),
        ),
        utf8_len(v@.subrange(lo as int, hi as int)) > cap ==> r > cap,
{
    let mut n: usize = 0;
    let mut i = lo;
    while i < hi && n <= cap
        invariant
            lo <= i <= hi <= v@.len(),
            cap < usize::MAX - 4,
            n <= cap + 4,
            n == utf8_len(v@.subrange(lo as int, i as int)),
        decreases hi - i,
    {
        let c = v[i];
        let k: usize = if (c as u32) < 0x80 {
            1
        } else if (c as u32) < 0x800 {
            2
        } else if (c as u32) < 0x10000 {
            3
        } else {
            4
        };
        assert(v@.subrange(lo as int, i + 1).drop_last() =~= v@.subrange(lo as int, i as int));
        n = n + k;
        i = i + 1;
    }
    if i < hi {
        proof {
            lemma_utf8_len_grows(v@.subrange(lo as int, hi as int), (i - lo) as int);
            assert(v@.subrange(lo as int, hi as int).take((i - lo) as int) =~= v@.subrange(
                lo as int,
                i as int,
            ));
        }
    }
    n
}

/// A prefix is no longer in UTF-8 than the whole.
proof fn lemma_utf8_len_grows(s: Seq<char>, k: int)
    requires
        0 <= k <= s.len(),
    ensures
        utf8_len(s.take(k)) <= utf8_len(s),
    decreases s.len(),
{
    if k < s.len() {
        lemma_utf8_len_grows(s.drop_last(), k);
        assert(s.drop_last().take(k) =~= s.take(k));
    } else {
        assert(s.take(k) =~= s);
    }
}

/// Accepts direct http(s) media URLs and HLS/DASH playlists.
pub fn is_playable_url(text: &str) -> (r: bool)
    ensures
        r == playable(text@),
{
    let v = chars_of(text);
    let (a, b) = strip_range(&v, 0, v.len(), CharClass::Space);
    assert(v@.subrange(0, v.len() as int) =~= text@);
    let scheme = has_prefix_at(&v, a, b, "http://") || has_prefix_at(&v, a, b, "https://");
    if !scheme {
        return false;
    }
    utf8_len_capped(&v, a, b, 12) > 12
}

/// The longest display name, in characters, before it is shortened.
pub const MAX_STREAM_NAME: usize = 48;

/// The URL without surrounding space and without its `https://` or
/// `http://` scheme.
pub open spec fn without_scheme(url: Seq<char>) -> Seq<char> {
    let u = strip(url, CharClass::Space);
    if starts_with(u, "https://"@) {
        u.skip(8)
    } else if starts_with(u, "http://"@) {
        u.skip(7)
    } else {
        u
    }
}

/// The display name of a stream: `Network stream` when the host part
/// (before the first `/`) is empty; else the URL without its scheme, cut to
/// 48 characters followed by `…` when longer.
pub open spec fn stream_name(url: Seq<char>) -> Seq<char> {
    let w = without_scheme(url);
    if w.len() == 0 || w[0] == '/' {
        "Network stream"@
    } else if w.len() > MAX_STREAM_NAME {
        w.take(MAX_STREAM_NAME as int).push('…')
    } else {
        w
    }
}

/// Short display name for a stream: host and path, for the window title
/// and the player placeholder.
pub fn stream_display_name(url: &str) -> (r: String)
    ensures
        r@ == stream_name(url@),
{
    let v = chars_of(url);
    let (a, b) = strip_range(&v, 0, v.len(), CharClass::Space);
    assert(v@.subrange(0, v.len() as int) =~= url@);
    let ghost u = v@.subrange(a as int, b as int);
    let start = if has_prefix_at(&v, a, b, "https://") {
        proof {
            reveal_strlit("https://");
        }
        a + 8
    } else if has_prefix_at(&v, a, b, "http://") {
        proof {
            reveal_strlit("https://");
            reveal_strlit("http://");
        }
        a + 7
    } else {
        a
    };
    proof {
        reveal_strlit("https://");
        reveal_strlit("http://");
        assert(v@.subrange(start as int, b as int) =~= without_scheme(url@));
    }
    if start == b || v[start] == '/' {
        return String::from_str("Network stream");
    }
    let end = if b - start > MAX_STREAM_NAME {
        start + MAX_STREAM_NAME
    } else {
        b
    };
    let mut out: Vec<char> = Vec::new();
    let mut i = start;
    while i < end
        invariant
            start <= i <= end <= b <= v@.len(),
            out@ == v@.subrange(start as int, i as int),
        decreases end - i,
    {
        out.push(v[i]);
        assert(out@ =~= v@.subrange(start as int, i + 1));
        i = i + 1;
    }
    if b - start > MAX_STREAM_NAME {
        out.push('…');
    }
    assert(out@ =~= stream_name(url@));
    string_from_chars(&out)
}

/// Software render targets of the player.
#[derive(Debug, Clone, Copy, PartialEq, Eq, Structural)]
pub enum RenderQuality {
    P360,
    P540,
    P720,
    P1080,
}

impl RenderQuality {
    /// Width and height of the render target.
    pub fn dimensions(&self) -> (r: (u32, u32))
        ensures
            r == match self {
                RenderQuality::P360 => (640u32, 360u32),
                RenderQuality::P540 => (960u32, 540u32),
                RenderQuality::P720 => (1280u32, 720u32),
                RenderQuality::P1080 => (1920u32, 1080u32),
            },
    {
        match self {
            RenderQuality::P360 => (640, 360),
            RenderQuality::P540 => (960, 540),
            RenderQuality::P720 => (1280, 720),
            RenderQuality::P1080 => (1920, 1080),
        }
    }

    /// The label shown in the quality menu.
    pub fn label(&self) -> (r: &'static str)
        ensures
            r@ == match self {
                RenderQuality::P360 => "360p"@,
                RenderQuality::P540 => "540p"@,
                RenderQuality::P720 => "720p"@,
                RenderQuality::P1080 => "1080p"@,
            },
    {
        match self {
            RenderQuality::P360 => "360p",
            RenderQuality::P540 => "540p",
            RenderQuality::P720 => "720p",
            RenderQuality::P1080 => "1080p",
        }
    }
}

} // verus!
