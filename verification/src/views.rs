//! What the screens show, decided from the application state: the library
//! listing and its labels, and the AI panel's labels and cut chips.

use vstd::prelude::*;
use vstd::string::StringExecFns;
use crate::clock::{clock_short, decimal, decimal_string, format_duration_short};
use crate::session::{file_name, file_name_of, slash_at, AppModel};
use crate::scan::trimmed;
use crate::config::str_eq;
use crate::text::{CharClass, strip};

verus! {

/// The video file extensions the library lists.
pub open spec fn video_extension(e: Seq<char>) -> bool {
    ||| e == "mp4"@
    ||| e == "mkv"@
    ||| e == "avi"@
    ||| e == "mov"@
    ||| e == "webm"@
    ||| e == "flv"@
    ||| e == "wmv"@
    ||| e == "m4v"@
    ||| e == "mpg"@
    ||| e == "mpeg"@
}

/// ASCII letters made lower case; other characters kept.
pub open spec fn ascii_lower(s: Seq<char>) -> Seq<char> {
    s.map_values(|c: char| lower_char(c))
}

pub open spec fn lower_char(c: char) -> char {
    if 'A' <= c && c <= 'Z' {
        ((c as u32) + 32) as char
    } else {
        c
    }
}

/// Position predicate: `name` has a `.` at `k`.
pub open spec fn dot_at(name: Seq<char>) -> spec_fn(int) -> bool {
    |k: int| name[k] == '.'
}

/// The extension of a file name: the text after its last `.`, unless that
/// dot starts the name (a hidden file) or there is none.
pub open spec fn extension(name: Seq<char>) -> Option<Seq<char>> {
    let d = crate::seqsearch::last_where(name.len() as int, dot_at(name));
    if d <= 0 {
        None
    } else {
        Some(name.skip(d + 1))
    }
}

/// Whether a path names a video file by its extension (in any case).
pub open spec fn is_video_path(path: Seq<char>) -> bool {
    match extension(file_name(path)) {
        Some(e) => video_extension(ascii_lower(e)),
        None => false,
    }
}

/// Whether a path names a video file, judged by its extension.
pub fn has_video_extension(path: &str) -> (r: bool)
    ensures
        r == is_video_path(path@),
{
    let name = file_name_of(path);
    let v = crate::text::chars_of(name.as_str());
    let mut k = v.len();
    while k > 0 && v[k - 1] != '.'
        invariant
            0 <= k <= v.len(),
            v@ == file_name(path@),
            forall|j: int| k <= j < v.len() ==> v@[j] != '.',
        decreases k,
    {
        k = k - 1;
    }
    proof {
        assert forall|j: int| k - 1 < j < v@.len() implies !#[trigger] dot_at(v@)(j) by {
            assert(v@[j] != '.');
        }
        crate::seqsearch::lemma_last_where_unique(v@.len() as int, dot_at(v@), k - 1);
    }
    if k <= 1 {
        return false;
    }
    let mut e: Vec<char> = Vec::new();
    let mut i = k;
    while i < v.len()
        invariant
            k <= i <= v.len(),
            e@ == ascii_lower(v@.subrange(k as int, i as int)),
        decreases v.len() - i,
    {
        let c = v[i];
        let l = if 'A' <= c && c <= 'Z' {
            lower_ascii(c)
        } else {
            c
        };
        e.push(l);
        assert(e@ =~= ascii_lower(v@.subrange(k as int, i + 1)));
        i = i + 1;
    }
    assert(v@.subrange(k as int, v.len() as int) =~= v@.skip(k as int));
    let ext = crate::text::string_from_chars(&e);
    let s = ext.as_str();
    str_eq(s, "mp4") || str_eq(s, "mkv") || str_eq(s, "avi") || str_eq(s, "mov") || str_eq(s, "webm")
        || str_eq(s, "flv") || str_eq(s, "wmv") || str_eq(s, "m4v") || str_eq(s, "mpg") || str_eq(
        s,
        "mpeg",
    )
}

/// The stem of a file name: the name without its extension.
pub open spec fn file_stem(name: Seq<char>) -> Seq<char> {
    let d = crate::seqsearch::last_where(name.len() as int, dot_at(name));
    if d <= 0 {
        name
    } else {
        name.take(d)
    }
}

/// The stem of a path's file name, as a string.
pub fn file_stem_of(path: &str) -> (r: String)
    ensures
        r@ == file_stem(file_name(path@)),
{
    let name = file_name_of(path);
    let v = crate::text::chars_of(name.as_str());
    let mut k = v.len();
    while k > 0 && v[k - 1] != '.'
        invariant
            0 <= k <= v.len(),
            v@ == file_name(path@),
            forall|j: int| k <= j < v.len() ==> v@[j] != '.',
        decreases k,
    {
        k = k - 1;
    }
    proof {
        assert forall|j: int| k - 1 < j < v@.len() implies !#[trigger] dot_at(v@)(j) by {
            assert(v@[j] != '.');
        }
        crate::seqsearch::lemma_last_where_unique(v@.len() as int, dot_at(v@), k - 1);
    }
    if k <= 1 {
        return name;
    }
    let mut e: Vec<char> = Vec::new();
    let mut i: usize = 0;
    while i < k - 1
        invariant
            1 < k <= v.len(),
            0 <= i <= k - 1,
            e@ == v@.take(i as int),
        decreases k - 1 - i,
    {
        e.push(v[i]);
        assert(e@ =~= v@.take(i + 1));
        i = i + 1;
    }
    crate::text::string_from_chars(&e)
}

/// The extension of a path's file name, as a string.
fn extension_of(path: &str) -> (r: Option<String>)
    ensures
        match r {
            Some(e) => extension(file_name(path@)) == Some(e@),
            None => extension(file_name(path@)) is None,
        },
{
    let name = file_name_of(path);
    let v = crate::text::chars_of(name.as_str());
    let mut k = v.len();
    while k > 0 && v[k - 1] != '.'
        invariant
            0 <= k <= v.len(),
            v@ == file_name(path@),
            forall|j: int| k <= j < v.len() ==> v@[j] != '.',
        decreases k,
    {
        k = k - 1;
    }
    proof {
        assert forall|j: int| k - 1 < j < v@.len() implies !#[trigger] dot_at(v@)(j) by {
            assert(v@[j] != '.');
        }
        crate::seqsearch::lemma_last_where_unique(v@.len() as int, dot_at(v@), k - 1);
    }
    if k <= 1 {
        return None;
    }
    let mut e: Vec<char> = Vec::new();
    let mut i = k;
    while i < v.len()
        invariant
            k <= i <= v.len(),
            e@ == v@.subrange(k as int, i as int),
        decreases v.len() - i,
    {
        e.push(v[i]);
        assert(e@ =~= v@.subrange(k as int, i + 1));
        i = i + 1;
    }
    assert(v@.subrange(k as int, v.len() as int) =~= v@.skip(k as int));
    Some(crate::text::string_from_chars(&e))
}

/// A JPEG file by its extension (exactly `jpg`).
pub open spec fn is_jpg_path(path: Seq<char>) -> bool {
    extension(file_name(path)) == Some("jpg"@)
}

/// An extracted frame: a `frame_*.jpg` file.
pub open spec fn is_frame_jpg_path(path: Seq<char>) -> bool {
    let n = file_name(path);
    is_jpg_path(path) && n.len() >= 6 && n.take(6) == "frame_"@
}

/// Whether a path names a JPEG file.
pub fn is_jpg(path: &str) -> (r: bool)
    ensures
        r == is_jpg_path(path@),
{
    match extension_of(path) {
        Some(e) => str_eq(e.as_str(), "jpg"),
        None => false,
    }
}

/// Whether a path names an extracted frame (`frame_*.jpg`).
pub fn is_frame_jpg(path: &str) -> (r: bool)
    ensures
        r == is_frame_jpg_path(path@),
{
    if !is_jpg(path) {
        return false;
    }
    let name = file_name_of(path);
    let v = crate::text::chars_of(name.as_str());
    if v.len() < 6 {
        return false;
    }
    let p = ['f', 'r', 'a', 'm', 'e', '_'];
    proof {
        reveal_strlit("frame_");
        assert(p@ =~= "frame_"@);
    }
    let mut i: usize = 0;
    while i < 6
        invariant
            v@ == file_name(path@),
            v@.len() >= 6,
            0 <= i <= 6,
            p@ == "frame_"@,
            forall|j: int| 0 <= j < i ==> v@[j] == p@[j],
        decreases 6 - i,
    {
        if v[i] != p[i] {
            assert(v@.take(6)[i as int] != "frame_"@[i as int]);
            return false;
        }
        i = i + 1;
    }
    assert(v@.take(6) =~= "frame_"@);
    true
}

/// The lower-case form of an upper-case ASCII letter.
fn lower_ascii(c: char) -> (r: char)
    requires
        'A' <= c <= 'Z',
    ensures
        r == lower_char(c),
{
    if c == 'A' { 'a' } else if c == 'B' { 'b' } else if c == 'C' { 'c' } else if c == 'D' { 'd' }
    else if c == 'E' { 'e' } else if c == 'F' { 'f' } else if c == 'G' { 'g' } else if c == 'H' { 'h' }
    else if c == 'I' { 'i' } else if c == 'J' { 'j' } else if c == 'K' { 'k' } else if c == 'L' { 'l' }
    else if c == 'M' { 'm' } else if c == 'N' { 'n' } else if c == 'O' { 'o' } else if c == 'P' { 'p' }
    else if c == 'Q' { 'q' } else if c == 'R' { 'r' } else if c == 'S' { 's' } else if c == 'T' { 't' }
    else if c == 'U' { 'u' } else if c == 'V' { 'v' } else if c == 'W' { 'w' } else if c == 'X' { 'x' }
    else if c == 'Y' { 'y' } else { 'z' }
}

/// What `str::to_lowercase` makes of a text (full Unicode lower-casing).
pub uninterp spec fn lowercased(s: Seq<char>) -> Seq<char>;

/// Calls `str::to_lowercase`. Claimed: the result is `lowercased` of the
/// text; the Unicode case tables themselves are not described.
#[verifier::external_body]
fn to_lowercase(s: &str) -> (r: String)
    ensures
        r@ == lowercased(s@),
{
    s.to_lowercase()
}

/// Whether `s` holds `sub` at some position.
pub open spec fn has_substring(s: Seq<char>, sub: Seq<char>) -> bool {
    exists|i: int| 0 <= i <= s.len() - sub.len() && #[trigger] s.subrange(i, i + sub.len()) == sub
}

/// Whether `s` holds `sub`.
fn contains_text(s: &Vec<char>, sub: &Vec<char>) -> (r: bool)
    ensures
        r == has_substring(s@, sub@),
{
    let n = s.len();
    if sub.len() > n {
        return false;
    }
    let mut i: usize = 0;
    while i <= s.len() - sub.len()
        invariant
            n == s@.len(),
            sub@.len() <= s@.len(),
            0 <= i <= s.len() - sub.len() + 1,
            forall|j: int| 0 <= j < i ==> #[trigger] s@.subrange(j, j + sub@.len()) != sub@,
        decreases s.len() - sub.len() + 1 - i,
    {
        let mut k: usize = 0;
        let mut same = true;
        while k < sub.len() && same
            invariant
                n == s@.len(),
                sub@.len() <= s@.len(),
                i + sub@.len() <= s@.len(),
                0 <= k <= sub.len(),
                same ==> forall|m: int| 0 <= m < k ==> s@[i + m] == sub@[m],
                !same ==> k < sub.len() && s@[i + k] != sub@[k as int],
            decreases sub.len() - k + if same {
                1int
            } else {
                0int
            },
        {
            let pos = i + k;
            if s[pos] == sub[k] {
                k = k + 1;
            } else {
                same = false;
            }
        }
        if same {
            assert(s@.subrange(i as int, i + sub@.len()) =~= sub@);
            return true;
        }
        assert(s@.subrange(i as int, i + sub@.len())[k as int] != sub@[k as int]);
        i = i + 1;
    }
    false
}

/// Whether the library shows a video for the search query: always for a
/// blank query, else when its lower-cased file name holds the lower-cased,
/// trimmed query.
pub open spec fn shown_for(path: Seq<char>, query: Seq<char>) -> bool {
    let q = lowercased(strip(query, CharClass::Space));
    q.len() == 0 || has_substring(lowercased(file_name(path)), q)
}

impl AppModel {
    /// The indices of the library videos the search query lets through, in
    /// library order.
    pub fn visible_videos(&self) -> (r: Vec<usize>)
        ensures
            forall|i: int| 0 <= i < r@.len() ==> (#[trigger] r@[i]) < self.library_videos@.len(),
            forall|i: int, j: int| 0 <= i < j < r@.len() ==> (#[trigger] r@[i]) < (#[trigger] r@[j]),
            forall|k: int|
                0 <= k < self.library_videos@.len() ==> (shown_for(
                    self.library_videos@[k]@,
                    self.search_query@,
                ) <==> exists|i: int| 0 <= i < r@.len() && r@[i] == k),
    {
        let t = trimmed(self.search_query.as_str());
        let q = to_lowercase(t.as_str());
        let qv = crate::text::chars_of(q.as_str());
        let mut out: Vec<usize> = Vec::new();
        let mut i: usize = 0;
        while i < self.library_videos.len()
            invariant
                0 <= i <= self.library_videos.len(),
                qv@ == lowercased(strip(self.search_query@, CharClass::Space)),
                forall|a: int| 0 <= a < out@.len() ==> (#[trigger] out@[a]) < i,
                forall|a: int, b: int| 0 <= a < b < out@.len() ==> (#[trigger] out@[a]) < (#[trigger] out@[b]),
                forall|k: int|
                    0 <= k < i ==> (shown_for(self.library_videos@[k]@, self.search_query@) <==> exists|a: int|
                        0 <= a < out@.len() && out@[a] == k),
            decreases self.library_videos.len() - i,
        {
            let show = if qv.len() == 0 {
                true
            } else {
                let name = file_name_of(self.library_videos[i].as_str());
                let lower = to_lowercase(name.as_str());
                let nv = crate::text::chars_of(lower.as_str());
                contains_text(&nv, &qv)
            };
            let ghost before = out@;
            if show {
                out.push(i);
            }
            proof {
                assert forall|k: int|
                    0 <= k < i + 1 implies (shown_for(self.library_videos@[k]@, self.search_query@)
                    <==> exists|a: int| 0 <= a < out@.len() && out@[a] == k) by {
                    if k < i {
                        if exists|a: int| 0 <= a < before.len() && before[a] == k {
                            let a = choose|a: int| 0 <= a < before.len() && before[a] == k;
                            assert(out@[a] == k);
                        }
                        if exists|a: int| 0 <= a < out@.len() && out@[a] == k {
                            let a = choose|a: int| 0 <= a < out@.len() && out@[a] == k;
                            if a == before.len() {
                                assert(out@[a] == i);
                            } else {
                                assert(before[a] == k);
                            }
                        }
                    } else {
                        if show {
                            assert(out@[before.len() as int] == i);
                        } else {
                            if exists|a: int| 0 <= a < out@.len() && out@[a] == k {
                                let a = choose|a: int| 0 <= a < out@.len() && out@[a] == k;
                                assert(before[a] < i);
                            }
                        }
                    }
                }
            }
            i = i + 1;
        }
        out
    }

    /// The library's heading: the chosen folder, or how many videos the
    /// automatic scan found, or that no folder is chosen.
    pub fn folder_label(&self) -> (r: String)
        ensures
            r@ == match self.library_folder {
                Some(f) => f@,
                None => if self.library_videos@.len() > 0 {
                    "Auto-Scanned • "@ + decimal(self.library_videos@.len()) + " videos found"@
                } else {
                    "No folder selected"@
                },
            },
    {
        match &self.library_folder {
            Some(f) => f.clone(),
            None => if self.library_videos.len() > 0 {
                let mut r = String::from_str("Auto-Scanned • ");
                let d = decimal_string(self.library_videos.len() as u64);
                r.append(d.as_str());
                r.append(" videos found");
                r
            } else {
                String::from_str("No folder selected")
            },
        }
    }

    /// What an empty listing says: the library is empty, or nothing matches
    /// the search.
    pub fn empty_library_message(&self) -> (r: &'static str)
        ensures
            r@ == if self.library_videos@.len() == 0 {
                "No videos in library"@
            } else {
                "No videos match your search"@
            },
    {
        if self.library_videos.len() == 0 {
            "No videos in library"
        } else {
            "No videos match your search"
        }
    }

    /// The API key badge of the AI panel.
    pub fn key_badge(&self) -> (r: &'static str)
        ensures
            r@ == if strip(self.gemini_api_key@, CharClass::Space).len() == 0 {
                "API Key Required"@
            } else {
                "Gemini Ready"@
            },
    {
        let k = trimmed(self.gemini_api_key.as_str());
        if k.as_str().is_empty() {
            "API Key Required"
        } else {
            "Gemini Ready"
        }
    }

    /// The scan button's label; the button is enabled exactly when no scan
    /// runs.
    pub fn scan_button(&self) -> (r: (&'static str, bool))
        ensures
            r.0@ == if self.scan_running {
                "Scanning in Progress..."@
            } else {
                "Run Gemini Lookahead Scan"@
            },
            r.1 == !self.scan_running,
    {
        if self.scan_running {
            ("Scanning in Progress...", false)
        } else {
            ("Run Gemini Lookahead Scan", true)
        }
    }

    /// The legend of the timeline's skip colour: how many ranges are set to
    /// be skipped, or `Explicit Skip` when none are.
    pub fn skip_legend(&self) -> (r: String)
        ensures
            r@ == if self.unsafe_segments@.len() > 0 {
                "Auto-Skip ("@ + decimal(self.unsafe_segments@.len()) + " cuts)"@
            } else {
                "Explicit Skip"@
            },
    {
        let n = self.unsafe_segments.len();
        if n > 0 {
            let mut r = String::from_str("Auto-Skip (");
            let d = decimal_string(n as u64);
            r.append(d.as_str());
            r.append(" cuts)");
            r
        } else {
            String::from_str("Explicit Skip")
        }
    }

    /// The cut summary of the AI panel: how many ranges are set to be
    /// skipped, and the first four as `M:SS-M:SS` chips.
    pub fn cut_summary(&self) -> (r: (String, Vec<String>))
        ensures
            r.0@ == if self.unsafe_segments@.len() == 0 {
                "No explicit segments detected yet"@
            } else {
                decimal(self.unsafe_segments@.len()) + " cuts ready"@
            },
            r.1@.len() == if self.unsafe_segments@.len() < 4 {
                self.unsafe_segments@.len()
            } else {
                4
            },
            forall|i: int|
                0 <= i < r.1@.len() ==> (#[trigger] r.1@[i])@ == clock_short(
                    self.unsafe_segments@[i].0 as nat,
                ) + seq!['-'] + clock_short(self.unsafe_segments@[i].1 as nat),
    {
        let n = self.unsafe_segments.len();
        let head = if n == 0 {
            String::from_str("No explicit segments detected yet")
        } else {
            let mut h = decimal_string(n as u64);
            h.append(" cuts ready");
            h
        };
        let mut chips: Vec<String> = Vec::new();
        let mut i: usize = 0;
        while i < n && i < 4
            invariant
                n == self.unsafe_segments@.len(),
                0 <= i <= n,
                i <= 4,
                chips@.len() == i,
                forall|j: int|
                    0 <= j < i ==> (#[trigger] chips@[j])@ == clock_short(
                        self.unsafe_segments@[j].0 as nat,
                    ) + seq!['-'] + clock_short(self.unsafe_segments@[j].1 as nat),
            decreases n - i,
        {
            let (a, b) = self.unsafe_segments[i];
            let mut c = format_duration_short(a);
            c.append("-");
            let e = format_duration_short(b);
            c.append(e.as_str());
            proof {
                reveal_strlit("-");
            }
            chips.push(c);
            i = i + 1;
        }
        (head, chips)
    }
}

/// `e` spells `lit` with each ASCII letter in either case.
pub open spec fn spelled_any_case(e: Seq<char>, lit: Seq<char>) -> bool {
    &&& e.len() == lit.len()
    &&& forall|i: int|
        0 <= i < e.len() ==> (#[trigger] e[i] == lit[i] || ('a' <= lit[i] <= 'z' && e[i] as u32 + 32
            == lit[i] as u32))
}

/// A file named `name.ext`, in any folder, is listed as a video whenever
/// `ext` is one of mp4, mkv, avi, mov, webm, flv, wmv, m4v, mpg or mpeg,
/// written in any case, and the name before it is not empty.
pub proof fn law_video_extensions_listed(dir: Seq<char>, name: Seq<char>, ext: Seq<char>)
    requires
        name.len() > 0,
        forall|i: int| 0 <= i < name.len() ==> name[i] != '/',
        spelled_any_case(ext, "mp4"@) || spelled_any_case(ext, "mkv"@) || spelled_any_case(
            ext,
            "avi"@,
        ) || spelled_any_case(ext, "mov"@) || spelled_any_case(ext, "webm"@) || spelled_any_case(
            ext,
            "flv"@,
        ) || spelled_any_case(ext, "wmv"@) || spelled_any_case(ext, "m4v"@) || spelled_any_case(
            ext,
            "mpg"@,
        ) || spelled_any_case(ext, "mpeg"@),
    ensures
        is_video_path(dir + "/"@ + name + "."@ + ext),
{
    reveal_strlit("/");
    reveal_strlit(".");
    reveal_strlit("mp4");
    reveal_strlit("mkv");
    reveal_strlit("avi");
    reveal_strlit("mov");
    reveal_strlit("webm");
    reveal_strlit("flv");
    reveal_strlit("wmv");
    reveal_strlit("m4v");
    reveal_strlit("mpg");
    reveal_strlit("mpeg");
    let lit: Seq<char> = if spelled_any_case(ext, "mp4"@) {
        "mp4"@
    } else if spelled_any_case(ext, "mkv"@) {
        "mkv"@
    } else if spelled_any_case(ext, "avi"@) {
        "avi"@
    } else if spelled_any_case(ext, "mov"@) {
        "mov"@
    } else if spelled_any_case(ext, "webm"@) {
        "webm"@
    } else if spelled_any_case(ext, "flv"@) {
        "flv"@
    } else if spelled_any_case(ext, "wmv"@) {
        "wmv"@
    } else if spelled_any_case(ext, "m4v"@) {
        "m4v"@
    } else if spelled_any_case(ext, "mpg"@) {
        "mpg"@
    } else {
        "mpeg"@
    };
    assert(spelled_any_case(ext, lit));
    assert(video_extension(lit));
    assert forall|i: int| 0 <= i < lit.len() implies 'a' <= #[trigger] lit[i] <= 'z' || ('0' <= lit[i]
        <= '9') by {}
    assert forall|i: int| 0 <= i < ext.len() implies #[trigger] ext[i] != '/' && ext[i] != '.' && lower_char(
        ext[i],
    ) == lit[i] by {
        assert(ext[i] == lit[i] || ('a' <= lit[i] <= 'z' && ext[i] as u32 + 32 == lit[i] as u32));
    }
    assert(ascii_lower(ext) =~= lit);
    let tail = name + "."@ + ext;
    let p = dir + "/"@ + tail;
    assert(p =~= dir + ("/"@ + tail));
    assert forall|j: int| dir.len() < j < p.len() implies !#[trigger] slash_at(p)(j) by {
        let t = j - dir.len() - 1;
        assert(p[j] == tail[t]);
        if t < name.len() {
            assert(tail[t] == name[t]);
        } else if t > name.len() {
            assert(tail[t] == ext[t - name.len() - 1]);
        }
    }
    assert(slash_at(p)(dir.len() as int));
    crate::seqsearch::lemma_last_where_unique(p.len() as int, slash_at(p), dir.len() as int);
    assert(file_name(p) =~= tail);
    assert forall|j: int| name.len() < j < tail.len() implies !#[trigger] dot_at(tail)(j) by {
        assert(tail[j] == ext[j - name.len() - 1]);
    }
    assert(dot_at(tail)(name.len() as int));
    crate::seqsearch::lemma_last_where_unique(tail.len() as int, dot_at(tail), name.len() as int);
    assert(tail.skip(name.len() + 1int) =~= ext);
    assert(extension(tail) == Some(ext));
    assert(dir + "/"@ + name + "."@ + ext =~= p);
}

/// Only those ten extensions make a video: a path is listed only when its
/// file name has an extension that spells one of them, in any case.
pub proof fn law_video_only_listed_extensions(path: Seq<char>)
    requires
        is_video_path(path),
    ensures
        extension(file_name(path)) is Some,
        spelled_any_case(extension(file_name(path))->0, "mp4"@) || spelled_any_case(
            extension(file_name(path))->0,
            "mkv"@,
        ) || spelled_any_case(extension(file_name(path))->0, "avi"@) || spelled_any_case(
            extension(file_name(path))->0,
            "mov"@,
        ) || spelled_any_case(extension(file_name(path))->0, "webm"@) || spelled_any_case(
            extension(file_name(path))->0,
            "flv"@,
        ) || spelled_any_case(extension(file_name(path))->0, "wmv"@) || spelled_any_case(
            extension(file_name(path))->0,
            "m4v"@,
        ) || spelled_any_case(extension(file_name(path))->0, "mpg"@) || spelled_any_case(
            extension(file_name(path))->0,
            "mpeg"@,
        ),
{
    if is_video_path(path) {
        let e = extension(file_name(path))->0;
        let lit = ascii_lower(e);
        assert(spelled_any_case(e, lit)) by {
            assert forall|i: int| 0 <= i < e.len() implies (#[trigger] e[i] == lit[i] || ('a' <= lit[i]
                <= 'z' && e[i] as u32 + 32 == lit[i] as u32)) by {
                assert(lit[i] == lower_char(e[i]));
            }
        }
    }
}

} // verus!
