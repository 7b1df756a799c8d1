//! The AI scan pipeline's decisions: how densely to sample a video, how to
//! batch frames, when to retry a rate-limited request, how a grid reply
//! becomes timeline segments.

use vstd::prelude::*;
use vstd::arithmetic::power2::{pow2, lemma_pow2_unfold, lemma_pow2_pos};
use vstd::string::StringExecFns;
use crate::domain::{QuadrantFlags, ScanSegment, TimelineSegment, TimelineSegmentType, lists};
use crate::error::ScannerError;
use crate::json::{JsonValue, json_byte_array, parse_byte_array};
use crate::aireply::{doc_reply_text, reply_text_of};
use crate::text::{CharClass, chars_of, strip, strip_range, string_from_chars};
use crate::clock::{decimal, decimal_string};
use crate::config::AppConfig;
use crate::grid::{RgbFrame, composite, encode_grid, fit_frame, fitted_pixels, frame_ok, grid_byte, jpeg_bytes, ImageFormat};

verus! {

/// Max per-frame width sent to the model.
pub const MAX_FRAME_WIDTH: u32 = 320;

/// Max per-frame height paired with `MAX_FRAME_WIDTH` (4:3 cells).
pub const MAX_FRAME_HEIGHT: u32 = 240;

/// JPEG quality of a grid upload.
pub const GRID_JPEG_QUALITY: u8 = 75;

/// Timeout of one model request.
pub const GEMINI_TIMEOUT_SECS: u64 = 60;

/// Interval between extracted frames, in milliseconds: one per second.
pub const AI_SCAN_FRAME_INTERVAL: u64 = 1000;

/// Frames per grid image: one 2x2 grid.
pub const AI_SCAN_FRAMES_PER_BATCH: usize = 4;

/// No batch ever holds more frames than this.
pub const AI_SCAN_MAX_FRAMES_PER_BATCH: usize = 20;

/// Pause between two batch requests.
pub const AI_SCAN_BATCH_DELAY_SECS: u64 = 4;

/// Retries of a rate-limited batch before it is skipped.
pub const AI_SCAN_MAX_RETRIES: u32 = 3;

/// First retry delay; each further retry doubles it.
pub const AI_SCAN_RETRY_BASE_DELAY_SECS: u64 = 10;

/// Videos longer than this are sampled more sparsely.
pub const AI_SCAN_LONG_VIDEO_SECS: u64 = 300;

/// The instruction used when the user gives no skip prompt.
pub const DEFAULT_AI_SKIP_PROMPT: &'static str =
    "Detect sponsorships, intros/outros, and explicit or sensitive content worth skipping.";

/// The model endpoint (without the model name).
pub const GEMINI_ENDPOINT: &'static str = "https://generativelanguage.googleapis.com/v1beta/models";

/// Seconds between sampled frames: every second up to five minutes, every
/// two up to fifteen, every three beyond; unknown length counts as short.
pub open spec fn frame_step(duration_secs: Option<u64>) -> u64 {
    match duration_secs {
        Some(d) => if d > 900 {
            3
        } else if d > AI_SCAN_LONG_VIDEO_SECS {
            2
        } else {
            1
        },
        None => 1,
    }
}

/// Adaptive extraction step in seconds for a video of the given length.
pub fn adaptive_frame_step_secs(duration_secs: Option<u64>) -> (r: u64)
    ensures
        r == frame_step(duration_secs),
        1 <= r <= 3,
{
    match duration_secs {
        Some(d) => if d > 900 {
            3
        } else if d > AI_SCAN_LONG_VIDEO_SECS {
            2
        } else {
            1
        },
        None => 1,
    }
}

/// The frames expected from a video of known length at the given step.
pub fn expected_frames(duration_secs: Option<u64>, step_secs: u64) -> (r: Option<u64>)
    ensures
        r == match duration_secs {
            Some(d) => Some((d / if step_secs == 0 {
                1u64
            } else {
                step_secs
            }) as u64),
            None => None::<u64>,
        },
{
    let step = if step_secs == 0 {
        1
    } else {
        step_secs
    };
    match duration_secs {
        Some(d) => Some(d / step),
        None => None,
    }
}

/// A rate-limit answer from the model: 429 Too Many Requests or 503
/// overloaded. Anything else ends the batch.
pub fn is_retryable_status(code: u16) -> (r: bool)
    ensures
        r == (code == 429 || code == 503),
{
    code == 429 || code == 503
}

/// `x` capped at `u64::MAX`.
pub open spec fn cap_u64(x: int) -> u64 {
    if x > u64::MAX {
        u64::MAX
    } else {
        x as u64
    }
}

/// The delay before retry `attempt` (counted from 1): ten seconds, doubled
/// for each earlier retry, capped at `u64::MAX`.
pub open spec fn backoff_secs(attempt: u32) -> u64 {
    let e: nat = if attempt == 0 {
        0
    } else {
        (attempt - 1) as nat
    };
    cap_u64(AI_SCAN_RETRY_BASE_DELAY_SECS * pow2(e))
}

/// Exponential backoff before retry `attempt` (1-based): 10s, 20s, 40s, ...
pub fn retry_backoff_secs(attempt: u32) -> (r: u64)
    ensures
        r == backoff_secs(attempt),
{
    let e = attempt.saturating_sub(1);
    let mut p: u64 = 1;
    let mut i: u32 = 0;
    proof {
        reveal_pow2_zero();
    }
    while i < e && p < u64::MAX
        invariant
            0 <= i <= e,
            p == cap_u64(pow2(i as nat) as int),
        decreases e - i,
    {
        proof {
            lemma_pow2_unfold((i + 1) as nat);
        }
        if p > u64::MAX / 2 {
            p = u64::MAX;
        } else {
            p = p * 2;
        }
        i = i + 1;
    }
    proof {
        if i < e {
            lemma_pow2_grows_past_cap(i as nat, e as nat);
        }
        lemma_pow2_pos(e as nat);
    }
    if p == u64::MAX {
        u64::MAX
    } else if p > u64::MAX / 10 {
        u64::MAX
    } else {
        10 * p
    }
}

proof fn reveal_pow2_zero()
    ensures
        pow2(0) == 1,
{
    vstd::arithmetic::power2::lemma2_to64();
}

/// Once `2^i` reaches the cap it stays there.
proof fn lemma_pow2_grows_past_cap(i: nat, e: nat)
    requires
        i <= e,
        pow2(i) >= u64::MAX,
    ensures
        pow2(e) >= u64::MAX,
    decreases e - i,
{
    if i < e {
        lemma_pow2_unfold((i + 1) as nat);
        lemma_pow2_grows_past_cap(i + 1, e);
    }
}

/// `s` cut into consecutive runs of `n`, the last one possibly shorter.
pub open spec fn chunks<T>(s: Seq<T>, n: nat) -> Seq<Seq<T>>
    decreases s.len(),
{
    if s.len() == 0 || n == 0 {
        Seq::empty()
    } else if s.len() <= n {
        seq![s]
    } else {
        seq![s.take(n as int)] + chunks(s.skip(n as int), n)
    }
}

/// The batch size actually used: at most `AI_SCAN_MAX_FRAMES_PER_BATCH`.
pub open spec fn capped_batch(batch_size: usize) -> nat {
    if batch_size > AI_SCAN_MAX_FRAMES_PER_BATCH {
        AI_SCAN_MAX_FRAMES_PER_BATCH as nat
    } else {
        batch_size as nat
    }
}

/// Group frames into batches of `batch_size` (capped at
/// `AI_SCAN_MAX_FRAMES_PER_BATCH`), in order; the last batch may be
/// smaller. A zero batch size gives no batches.
pub fn chunk_frames_into_batches<T>(frames: Vec<T>, batch_size: usize) -> (r: Vec<Vec<T>>)
    ensures
        r@.len() == chunks(frames@, capped_batch(batch_size)).len(),
        forall|i: int|
            0 <= i < r@.len() ==> (#[trigger] r@[i])@ == chunks(frames@, capped_batch(batch_size))[i],
{
    let mut out: Vec<Vec<T>> = Vec::new();
    if batch_size == 0 {
        return out;
    }
    let n = if batch_size > AI_SCAN_MAX_FRAMES_PER_BATCH {
        AI_SCAN_MAX_FRAMES_PER_BATCH
    } else {
        batch_size
    };
    let ghost all = frames@;
    let mut rest = frames;
    let ghost mut done: Seq<Seq<T>> = Seq::empty();
    while rest.len() > n
        invariant
            n == capped_batch(batch_size),
            n > 0,
            out@.len() == done.len(),
            forall|i: int| 0 <= i < out@.len() ==> (#[trigger] out@[i])@ == done[i],
            done + chunks(rest@, n as nat) == chunks(all, n as nat),
        decreases rest.len(),
    {
        let tail = rest.split_off(n);
        proof {
            let whole = rest@ + tail@;
            assert(whole.take(n as int) =~= rest@);
            assert(whole.skip(n as int) =~= tail@);
            assert(chunks(whole, n as nat) == seq![rest@] + chunks(tail@, n as nat));
            assert(done.push(rest@) + chunks(tail@, n as nat) =~= done + (seq![rest@] + chunks(
                tail@,
                n as nat,
            )));
            done = done.push(rest@);
        }
        out.push(rest);
        rest = tail;
    }
    if rest.len() > 0 {
        proof {
            assert(chunks(rest@, n as nat) == seq![rest@]);
            assert(done.push(rest@) =~= done + seq![rest@]);
            done = done.push(rest@);
        }
        out.push(rest);
    } else {
        proof {
            assert(done + chunks(rest@, n as nat) =~= done);
        }
    }
    out
}

/// Statistics of a scanner.
#[derive(Debug, Clone, Copy)]
pub struct ScannerStats {
    pub frames_processed: u64,
    pub grids_sent: u64,
    pub explicit_found: u64,
    pub api_errors: u64,
    pub total_scan_ms: u64,
}

impl Default for ScannerStats {
    fn default() -> (r: Self)
        ensures
            r.frames_processed == 0,
            r.grids_sent == 0,
            r.explicit_found == 0,
            r.api_errors == 0,
            r.total_scan_ms == 0,
    {
        ScannerStats {
            frames_processed: 0,
            grids_sent: 0,
            explicit_found: 0,
            api_errors: 0,
            total_scan_ms: 0,
        }
    }
}

/// What a scan sends the model: the key, the model, the instruction, the
/// file label and the request URL.
#[derive(Debug, Clone)]
pub struct AiScanPlan {
    pub api_key: String,
    pub model: String,
    pub prompt: String,
    pub file_name: String,
    pub url: String,
}

/// `s` if it is not empty, else `default`.
pub open spec fn or_default(s: Seq<char>, default: Seq<char>) -> Seq<char> {
    if s.len() == 0 {
        default
    } else {
        s
    }
}

/// The request URL of a `generateContent` call.
pub open spec fn request_url(endpoint: Seq<char>, model: Seq<char>, key: Seq<char>) -> Seq<char> {
    endpoint + seq!['/'] + model + ":generateContent?key="@ + key
}

/// `s` without surrounding whitespace, as a string.
pub(crate) fn trimmed(s: &str) -> (r: String)
    ensures
        r@ == strip(s@, CharClass::Space),
{
    let c = chars_of(s);
    let (a, b) = strip_range(&c, 0, c.len(), CharClass::Space);
    let mut v: Vec<char> = Vec::new();
    let mut i = a;
    while i < b
        invariant
            a <= i <= b <= c.len(),
            v@ == c@.subrange(a as int, i as int),
        decreases b - i,
    {
        v.push(c[i]);
        assert(v@ =~= c@.subrange(a as int, i + 1));
        i = i + 1;
    }
    assert(c@.subrange(0, c.len() as int) =~= s@);
    string_from_chars(&v)
}

/// Validate and complete the inputs of an AI scan. `None` when the API key
/// is blank; a blank model becomes the default model, a blank prompt the
/// default instruction, a missing file name `video`.
pub fn prepare_ai_scan(api_key: &str, model: &str, prompt: &str, file_name: Option<&str>) -> (r:
    Option<AiScanPlan>)
    ensures
        r is None <==> strip(api_key@, CharClass::Space).len() == 0,
        r matches Some(p) ==> {
            &&& p.api_key@ == strip(api_key@, CharClass::Space)
            &&& p.model@ == or_default(
                strip(model@, CharClass::Space),
                crate::config::GEMINI_DEFAULT_MODEL@,
            )
            &&& p.prompt@ == or_default(strip(prompt@, CharClass::Space), DEFAULT_AI_SKIP_PROMPT@)
            &&& p.file_name@ == match file_name {
                Some(f) => f@,
                None => "video"@,
            }
            &&& p.url@ == request_url(GEMINI_ENDPOINT@, p.model@, p.api_key@)
        },
{
    let key = trimmed(api_key);
    if key.as_str().is_empty() {
        return None;
    }
    let m = trimmed(model);
    let model_name = if m.as_str().is_empty() {
        String::from_str(crate::config::GEMINI_DEFAULT_MODEL)
    } else {
        m
    };
    let p = trimmed(prompt);
    let prompt_text = if p.as_str().is_empty() {
        String::from_str(DEFAULT_AI_SKIP_PROMPT)
    } else {
        p
    };
    let name = match file_name {
        Some(f) => String::from_str(f),
        None => String::from_str("video"),
    };
    let mut url = String::from_str(GEMINI_ENDPOINT);
    url.append("/");
    url.append(model_name.as_str());
    url.append(":generateContent?key=");
    url.append(key.as_str());
    proof {
        reveal_strlit("/");
        assert(url@ =~= request_url(GEMINI_ENDPOINT@, model_name@, key@));
    }
    Some(AiScanPlan { api_key: key, model: model_name, prompt: prompt_text, file_name: name, url })
}

/// What to do after one batch request.
#[derive(Debug, Clone, Copy, PartialEq, Eq, Structural)]
pub enum BatchStep {
    /// Wait `backoff_secs`, then send again as retry `attempt`.
    Retry { attempt: u32, backoff_secs: u64 },
    /// Skip the batch: it yields no segments.
    GiveUp,
    /// Read the reply body.
    Read,
}

/// The decision after a batch request that has been retried `attempt`
/// times, given the HTTP status (`None` when the request itself failed).
pub open spec fn batch_decision(attempt: u32, status: Option<u16>) -> BatchStep {
    match status {
        None => BatchStep::GiveUp,
        Some(code) => if code == 429 || code == 503 {
            if attempt >= AI_SCAN_MAX_RETRIES {
                BatchStep::GiveUp
            } else {
                BatchStep::Retry {
                    attempt: (attempt + 1) as u32,
                    backoff_secs: backoff_secs((attempt + 1) as u32),
                }
            }
        } else if 200 <= code < 300 {
            BatchStep::Read
        } else {
            BatchStep::GiveUp
        },
    }
}

/// Decide what follows a batch request: rate limits are retried with
/// exponential backoff up to `AI_SCAN_MAX_RETRIES` times, a success is read,
/// anything else skips the batch.
pub fn batch_step(attempt: u32, status: Option<u16>) -> (r: BatchStep)
    ensures
        r == batch_decision(attempt, status),
{
    match status {
        None => BatchStep::GiveUp,
        Some(code) => if is_retryable_status(code) {
            if attempt >= AI_SCAN_MAX_RETRIES {
                BatchStep::GiveUp
            } else {
                let next = attempt + 1;
                BatchStep::Retry { attempt: next, backoff_secs: retry_backoff_secs(next) }
            }
        } else if 200 <= code && code < 300 {
            BatchStep::Read
        } else {
            BatchStep::GiveUp
        },
    }
}

/// The quadrant numbers of `qs` that name a quadrant (1 to 4), in order.
pub open spec fn valid_quadrants(qs: Seq<u8>) -> Seq<u8>
    decreases qs.len(),
{
    if qs.len() == 0 {
        qs
    } else {
        let rest = valid_quadrants(qs.drop_last());
        if 1 <= qs.last() <= 4 {
            rest.push(qs.last())
        } else {
            rest
        }
    }
}

/// The explicit quadrants a grid reply names: `Err` when the document has
/// no reply text or the text is no JSON array of bytes.
pub open spec fn grid_reply(doc: JsonValue) -> Result<Seq<u8>, ()> {
    match reply_text_of(doc) {
        Some(t) => match json_byte_array(strip(t@, CharClass::Space)) {
            Some(qs) => Ok(valid_quadrants(qs)),
            None => Err(()),
        },
        None => Err(()),
    }
}

/// Keep the quadrant numbers 1 to 4.
fn keep_valid_quadrants(qs: Vec<u8>) -> (r: Vec<u8>)
    ensures
        r@ == valid_quadrants(qs@),
{
    let mut out: Vec<u8> = Vec::new();
    let mut i: usize = 0;
    while i < qs.len()
        invariant
            0 <= i <= qs.len(),
            out@ == valid_quadrants(qs@.take(i as int)),
        decreases qs.len() - i,
    {
        assert(qs@.take(i + 1).drop_last() =~= qs@.take(i as int));
        let q = qs[i];
        if 1 <= q && q <= 4 {
            out.push(q);
        }
        i = i + 1;
    }
    assert(qs@.take(qs.len() as int) =~= qs@);
    out
}

/// Read the explicit quadrants from a grid reply document
/// (`candidates[0].content.parts[0].text`, a JSON array such as `[1, 3]`);
/// numbers outside 1 to 4 are dropped.
pub fn parse_gemini_response(doc: &JsonValue) -> (r: Result<Vec<u8>, ScannerError>)
    ensures
        r is Ok <==> grid_reply(*doc) is Ok,
        r matches Ok(qs) ==> grid_reply(*doc) == Ok::<Seq<u8>, ()>(qs@),
        reply_text_of(*doc) is None ==> (r matches Err(ScannerError::ResponseParseError(m)) && m@
            == "No text in response"@),
        r is Err ==> r matches Err(ScannerError::ResponseParseError(_)),
{
    let text = match doc_reply_text(doc) {
        Some(t) => t,
        None => {
            return Err(ScannerError::ResponseParseError(String::from_str("No text in response")));
        },
    };
    let t = trimmed(text.as_str());
    match parse_byte_array(t.as_str()) {
        Ok(qs) => Ok(keep_valid_quadrants(qs)),
        Err(msg) => Err(ScannerError::ResponseParseError(msg)),
    }
}

/// The one-second segment of quadrant `q` of a grid starting at
/// `start_ms`, explicit or safe, with a confidence of 90%.
pub open spec fn quadrant_segment(start_ms: u64, q: u8, explicit: bool) -> TimelineSegment {
    let s = (start_ms + (q - 1) * 1000) as u64;
    let e = (s + 1000) as u64;
    TimelineSegment {
        start_ms: s,
        end_ms: e,
        segment_type: if explicit {
            TimelineSegmentType::ExplicitContent
        } else {
            TimelineSegmentType::ScannedSafe
        },
        scan_segment: Some(
            ScanSegment {
                start_ms: s,
                end_ms: e,
                is_explicit: explicit,
                confidence_pct: 90,
                quadrant_flags: Some(single_quadrant(q)),
            },
        ),
    }
}

/// The flags with only quadrant `q` set.
pub open spec fn single_quadrant(q: u8) -> QuadrantFlags {
    QuadrantFlags { top_left: q == 1, top_right: q == 2, bottom_left: q == 3, bottom_right: q == 4 }
}

/// The safe segment of quadrant `q`, unless `qs` names it.
pub open spec fn safe_part(start_ms: u64, qs: Seq<u8>, q: u8) -> Seq<TimelineSegment> {
    if qs.contains(q) {
        Seq::empty()
    } else {
        seq![quadrant_segment(start_ms, q, false)]
    }
}

/// The segments of one analysed grid: one explicit segment per named
/// quadrant, in the order named, then one safe segment for each other
/// quadrant, in quadrant order.
pub open spec fn grid_segments(start_ms: u64, qs: Seq<u8>) -> Seq<TimelineSegment> {
    qs.map_values(|q: u8| quadrant_segment(start_ms, q, true)) + safe_part(start_ms, qs, 1)
        + safe_part(start_ms, qs, 2) + safe_part(start_ms, qs, 3) + safe_part(start_ms, qs, 4)
}

/// The timeline segment of quadrant `q`.
fn make_quadrant_segment(start_ms: u64, q: u8, explicit: bool) -> (r: TimelineSegment)
    requires
        1 <= q <= 4,
        start_ms + 4000 <= u64::MAX,
    ensures
        r == quadrant_segment(start_ms, q, explicit),
{
    let s = start_ms + (q as u64 - 1) * 1000;
    let e = s + 1000;
    let one = [q];
    let flags = QuadrantFlags::from_quadrant_numbers(&one);
    proof {
        assert(one@ =~= seq![q]);
        assert(lists(seq![q], 1) == (q == 1)) by {
            if q == 1 {
                assert(seq![q][0] == 1);
            }
        }
        assert(lists(seq![q], 2) == (q == 2)) by {
            if q == 2 {
                assert(seq![q][0] == 2);
            }
        }
        assert(lists(seq![q], 3) == (q == 3)) by {
            if q == 3 {
                assert(seq![q][0] == 3);
            }
        }
        assert(lists(seq![q], 4) == (q == 4)) by {
            if q == 4 {
                assert(seq![q][0] == 4);
            }
        }
    }
    TimelineSegment {
        start_ms: s,
        end_ms: e,
        segment_type: if explicit {
            TimelineSegmentType::ExplicitContent
        } else {
            TimelineSegmentType::ScannedSafe
        },
        scan_segment: Some(
            ScanSegment {
                start_ms: s,
                end_ms: e,
                is_explicit: explicit,
                confidence_pct: 90,
                quadrant_flags: Some(flags),
            },
        ),
    }
}

/// Whether `qs` holds `q`.
fn contains_quadrant(qs: &Vec<u8>, q: u8) -> (r: bool)
    ensures
        r == qs@.contains(q),
{
    let mut i: usize = 0;
    while i < qs.len()
        invariant
            0 <= i <= qs.len(),
            forall|j: int| 0 <= j < i ==> qs@[j] != q,
        decreases qs.len() - i,
    {
        if qs[i] == q {
            assert(qs@[i as int] == q);
            return true;
        }
        i = i + 1;
    }
    false
}

/// The timeline segments of one analysed grid starting at `start_ms`:
/// explicit segments for the quadrants `explicit` names, in that order,
/// then safe segments for the other quadrants.
pub fn quadrant_segments(start_ms: u64, explicit: &Vec<u8>) -> (r: Vec<TimelineSegment>)
    requires
        forall|i: int| 0 <= i < explicit@.len() ==> 1 <= #[trigger] explicit@[i] <= 4,
        start_ms + 4000 <= u64::MAX,
    ensures
        r@ == grid_segments(start_ms, explicit@),
{
    let mut out: Vec<TimelineSegment> = Vec::new();
    let mut i: usize = 0;
    while i < explicit.len()
        invariant
            0 <= i <= explicit.len(),
            forall|k: int| 0 <= k < explicit@.len() ==> 1 <= #[trigger] explicit@[k] <= 4,
            start_ms + 4000 <= u64::MAX,
            out@ == explicit@.take(i as int).map_values(
                |q: u8| quadrant_segment(start_ms, q, true),
            ),
        decreases explicit.len() - i,
    {
        let seg = make_quadrant_segment(start_ms, explicit[i], true);
        out.push(seg);
        assert(out@ =~= explicit@.take(i + 1).map_values(
            |q: u8| quadrant_segment(start_ms, q, true),
        ));
        i = i + 1;
    }
    assert(explicit@.take(explicit.len() as int) =~= explicit@);
    push_safe(&mut out, explicit, start_ms, 1);
    push_safe(&mut out, explicit, start_ms, 2);
    push_safe(&mut out, explicit, start_ms, 3);
    push_safe(&mut out, explicit, start_ms, 4);
    assert(out@ =~= grid_segments(start_ms, explicit@));
    out
}

/// Append the safe segment of quadrant `q` unless `explicit` names it.
fn push_safe(out: &mut Vec<TimelineSegment>, explicit: &Vec<u8>, start_ms: u64, q: u8)
    requires
        1 <= q <= 4,
        start_ms + 4000 <= u64::MAX,
    ensures
        final(out)@ == old(out)@ + safe_part(start_ms, explicit@, q),
{
    if !contains_quadrant(explicit, q) {
        let seg = make_quadrant_segment(start_ms, q, false);
        out.push(seg);
        assert(out@ =~= old(out)@ + safe_part(start_ms, explicit@, q));
    } else {
        assert(out@ =~= old(out)@ + safe_part(start_ms, explicit@, q));
    }
}

/// A frame whose buffer holds exactly its pixels.
pub open spec fn frame_exact(f: RgbFrame) -> bool {
    f.pixels@.len() == f.width * f.height * 3
}

/// The cell size of the scanner's grids: the configured resolution capped
/// at `MAX_FRAME_WIDTH` by `MAX_FRAME_HEIGHT`.
pub open spec fn cell_size(frame_resolution: (u32, u32)) -> (u32, u32) {
    (
        if frame_resolution.0 < MAX_FRAME_WIDTH {
            frame_resolution.0
        } else {
            MAX_FRAME_WIDTH
        },
        if frame_resolution.1 < MAX_FRAME_HEIGHT {
            frame_resolution.1
        } else {
            MAX_FRAME_HEIGHT
        },
    )
}

/// The first `n` frames, each scaled into a `fw` by `fh` cell.
pub open spec fn fitted_cells(frames: Seq<RgbFrame>, n: int, fw: u32, fh: u32) -> Seq<
    (u32, u32, Seq<u8>),
> {
    let m = if frames.len() < n {
        frames.len() as int
    } else {
        n
    };
    frames.take(m).map_values(
        |f: RgbFrame| (fw, fh, fitted_pixels(f.width, f.height, f.pixels@, fw, fh)),
    )
}

/// The RGB bytes of the scanner's grid for `frames`.
pub open spec fn scanner_grid_pixels(grid_size: (u32, u32), frame_resolution: (u32, u32), frames: Seq<
    RgbFrame,
>) -> Seq<u8> {
    let (cols, rows) = grid_size;
    let (fw, fh) = cell_size(frame_resolution);
    Seq::new(
        ((cols * fw) * (rows * fh) * 3) as nat,
        |k: int| grid_byte(fitted_cells(frames, cols * rows, fw, fh), cols as int, fw as int, fh as int, k),
    )
}

/// The scanner's grid image: `grid_size` is columns by rows; the first
/// `columns * rows` frames are each scaled into a cell (the configured
/// resolution capped at 320x240) and laid out row by row; the grid is
/// encoded as JPEG at `GRID_JPEG_QUALITY`.
pub fn create_grid_image(grid_size: (u32, u32), frame_resolution: (u32, u32), frames: &Vec<RgbFrame>) -> (r:
    Result<Vec<u8>, ScannerError>)
    requires
        forall|i: int| 0 <= i < frames@.len() ==> frame_exact(#[trigger] frames@[i]),
        grid_size.0 * grid_size.1 <= u32::MAX,
        grid_size.0 * MAX_FRAME_WIDTH <= u32::MAX,
        grid_size.1 * MAX_FRAME_HEIGHT <= u32::MAX,
        (grid_size.0 * MAX_FRAME_WIDTH) * (grid_size.1 * MAX_FRAME_HEIGHT) * 3 <= usize::MAX,
    ensures
        ({
            let (cols, rows) = grid_size;
            let (fw, fh) = cell_size(frame_resolution);
            let pixels = scanner_grid_pixels(grid_size, frame_resolution, frames@);
            &&& r is Ok <==> jpeg_bytes((cols * fw) as u32, (rows * fh) as u32, pixels, GRID_JPEG_QUALITY) is Some
            &&& r matches Ok(b) ==> jpeg_bytes((cols * fw) as u32, (rows * fh) as u32, pixels, GRID_JPEG_QUALITY) == Some(b@)
            &&& r is Err ==> r matches Err(ScannerError::GridCreationFailed(_))
        }),
{
    let (cols, rows) = grid_size;
    let (cfg_w, cfg_h) = frame_resolution;
    let fw = if cfg_w < MAX_FRAME_WIDTH {
        cfg_w
    } else {
        MAX_FRAME_WIDTH
    };
    let fh = if cfg_h < MAX_FRAME_HEIGHT {
        cfg_h
    } else {
        MAX_FRAME_HEIGHT
    };
    assert(cols * fw <= cols * MAX_FRAME_WIDTH) by (nonlinear_arith)
        requires
            fw <= MAX_FRAME_WIDTH,
    ;
    assert(rows * fh <= rows * MAX_FRAME_HEIGHT) by (nonlinear_arith)
        requires
            fh <= MAX_FRAME_HEIGHT,
    ;
    assert((cols * fw) * (rows * fh) <= (cols * MAX_FRAME_WIDTH) * (rows * MAX_FRAME_HEIGHT))
        by (nonlinear_arith)
        requires
            cols * fw <= cols * MAX_FRAME_WIDTH,
            rows * fh <= rows * MAX_FRAME_HEIGHT,
            0 <= cols * fw,
            0 <= rows * fh,
    ;
    let n = (cols * rows) as usize;
    let mut cells: Vec<RgbFrame> = Vec::new();
    let mut i: usize = 0;
    while i < frames.len() && i < n
        invariant
            0 <= i <= frames.len(),
            i <= n,
            n == cols * rows,
            forall|j: int| 0 <= j < frames@.len() ==> frame_exact(#[trigger] frames@[j]),
            cells@.len() == i,
            forall|j: int|
                0 <= j < i ==> (#[trigger] cells@[j]).width == fw && cells@[j].height == fh
                    && cells@[j].pixels@ == fitted_pixels(
                    frames@[j].width,
                    frames@[j].height,
                    frames@[j].pixels@,
                    fw,
                    fh,
                ),
            forall|j: int| 0 <= j < i ==> frame_ok(#[trigger] cells@[j]),
        decreases frames.len() - i,
    {
        let f = &frames[i];
        assert(frame_exact(frames@[i as int]));
        let c = fit_frame(f, fw, fh);
        cells.push(c);
        i = i + 1;
    }
    let pixels = composite(rows, cols, fw, fh, &cells);
    proof {
        let want = fitted_cells(frames@, cols * rows, fw, fh);
        assert(crate::grid::views(cells@) =~= want);
        assert(pixels@ =~= scanner_grid_pixels(grid_size, frame_resolution, frames@));
    }
    encode_grid(cols * fw, rows * fh, pixels, ImageFormat::Jpeg, GRID_JPEG_QUALITY)
}

/// Each retry waits twice as long as the one before (until the wait
/// reaches the `u64` cap).
pub proof fn law_backoff_doubles(attempt: u32)
    requires
        1 <= attempt < u32::MAX,
    ensures
        backoff_secs((attempt + 1) as u32) == cap_u64(2 * backoff_secs(attempt)),
{
    let e = (attempt - 1) as nat;
    lemma_pow2_unfold(e + 1);
    lemma_pow2_pos(e);
}

/// A rate-limited batch is retried at most `AI_SCAN_MAX_RETRIES` times:
/// every retry is numbered one above the last and never beyond the limit.
pub proof fn law_retries_bounded(attempt: u32, status: Option<u16>)
    ensures
        batch_decision(attempt, status) matches BatchStep::Retry { attempt: n, .. } ==> n == attempt
            + 1 && n <= AI_SCAN_MAX_RETRIES,
{
}

/// A longer video is never sampled more densely than a shorter one.
pub proof fn law_step_grows_with_length(d1: u64, d2: u64)
    requires
        d1 <= d2,
    ensures
        frame_step(Some(d1)) <= frame_step(Some(d2)),
{
}

/// The batches joined back together.
pub open spec fn joined_batches<T>(c: Seq<Seq<T>>) -> Seq<T>
    decreases c.len(),
{
    if c.len() == 0 {
        Seq::empty()
    } else {
        c[0] + joined_batches(c.drop_first())
    }
}

/// Batching keeps every frame, in order, and no batch is empty or holds
/// more than the batch size.
pub proof fn law_batches_partition<T>(s: Seq<T>, n: nat)
    requires
        n > 0,
    ensures
        joined_batches(chunks(s, n)) == s,
        forall|i: int|
            0 <= i < chunks(s, n).len() ==> 0 < (#[trigger] chunks(s, n)[i]).len() <= n,
    decreases s.len(),
{
    if s.len() == 0 {
        assert(s =~= Seq::<T>::empty());
    } else if s.len() <= n {
        let c = chunks(s, n);
        assert(c =~= seq![s]);
        assert(c.drop_first() =~= Seq::<Seq<T>>::empty());
        assert(joined_batches(c.drop_first()) =~= Seq::<T>::empty());
        assert(s + Seq::<T>::empty() =~= s);
        assert(joined_batches(c) == c[0] + joined_batches(c.drop_first()));
    } else {
        let rest = s.skip(n as int);
        law_batches_partition(rest, n);
        let c = chunks(s, n);
        assert(c.drop_first() =~= chunks(rest, n));
        assert(c[0] == s.take(n as int));
        assert(joined_batches(c) == c[0] + joined_batches(c.drop_first()));
        assert(s.take(n as int) + rest =~= s);
        assert forall|i: int| 0 <= i < c.len() implies 0 < (#[trigger] c[i]).len() <= n by {
            if i > 0 {
                assert(c[i] == chunks(rest, n)[i - 1]);
            }
        }
    }
}

/// Scanner configuration. The confidence threshold is a percentage.
#[derive(Debug)]
pub struct ScannerConfig {
    pub frame_interval_ms: u64,
    /// Columns by rows.
    pub grid_size: (u32, u32),
    pub frame_resolution: (u32, u32),
    pub confidence_threshold_pct: u8,
    pub max_concurrent: usize,
    pub api_key: String,
    pub model: String,
    pub endpoint: String,
}

impl Default for ScannerConfig {
    fn default() -> (r: Self)
        ensures
            r.frame_interval_ms == 1000,
            r.grid_size == (2u32, 2u32),
            r.frame_resolution == (320u32, 240u32),
            r.confidence_threshold_pct == 70,
            r.max_concurrent == 3,
            r.api_key@.len() == 0,
            r.model@ == crate::config::GEMINI_DEFAULT_MODEL@,
            r.endpoint@ == GEMINI_ENDPOINT@,
    {
        ScannerConfig {
            frame_interval_ms: 1000,
            grid_size: (2, 2),
            frame_resolution: (320, 240),
            confidence_threshold_pct: 70,
            max_concurrent: 3,
            api_key: String::new(),
            model: String::from_str(crate::config::GEMINI_DEFAULT_MODEL),
            endpoint: String::from_str(GEMINI_ENDPOINT),
        }
    }
}

impl ScannerConfig {
    /// The scanner settings of an application configuration; the key is the
    /// configured one (see `AppConfig::get_gemini_api_key`, with `env_key`
    /// the environment's), or empty.
    pub fn from_app_config(config: &AppConfig, env_key: Option<String>) -> (r: Self)
        ensures
            r.frame_interval_ms == config.scan_frame_interval * 1000,
            r.grid_size == config.grid_size,
            r.frame_resolution == config.frame_resolution,
            r.confidence_threshold_pct == config.preferences.confidence_threshold_pct,
            r.max_concurrent == config.max_concurrent_scans,
            r.api_key@ == match config.gemini_api_key {
                Some(k) => k@,
                None => match config.preferences.api_key {
                    Some(k) => k@,
                    None => match env_key {
                        Some(k) => k@,
                        None => Seq::<char>::empty(),
                    },
                },
            },
            r.model@ == config.gemini_model@,
            r.endpoint@ == config.gemini_endpoint@,
    {
        let key = match config.get_gemini_api_key(env_key) {
            Some(k) => k,
            None => String::new(),
        };
        ScannerConfig {
            frame_interval_ms: config.scan_frame_interval as u64 * 1000,
            grid_size: config.grid_size,
            frame_resolution: config.frame_resolution,
            confidence_threshold_pct: config.preferences.confidence_threshold_pct,
            max_concurrent: config.max_concurrent_scans,
            api_key: key,
            model: config.gemini_model.clone(),
            endpoint: config.gemini_endpoint.clone(),
        }
    }
}

/// A grid to analyse: its index, the time of its first frame and how many
/// buffered frames it takes.
#[derive(Debug, Clone, Copy, PartialEq, Eq, Structural)]
pub struct GridJob {
    pub index: u32,
    pub start_ms: u64,
    pub frames: usize,
}

/// What follows one extracted frame: whether a progress report is due
/// and the grid to analyse, if the buffer filled one.
#[derive(Debug, Clone, Copy, PartialEq, Eq, Structural)]
pub struct FrameStep {
    pub report_progress: bool,
    pub grid: Option<GridJob>,
}

/// Buffers extracted frames (by timestamp) into grids of
/// `frames_per_grid`, counting grids and scanned frames.
pub struct FrameBatcher {
    frames_per_grid: usize,
    buffered: Vec<u64>,
    grid_index: u32,
    scanned_ms: u64,
}

impl FrameBatcher {
    pub closed spec fn per_grid(&self) -> nat {
        self.frames_per_grid as nat
    }

    pub closed spec fn pending(&self) -> Seq<u64> {
        self.buffered@
    }

    pub closed spec fn next_index(&self) -> u32 {
        self.grid_index
    }

    pub closed spec fn last_ms(&self) -> u64 {
        self.scanned_ms
    }

    #[verifier::type_invariant]
    spec fn batcher_ok(self) -> bool {
        self.frames_per_grid > 0 && self.buffered@.len() < self.frames_per_grid
    }

    /// A batcher for grids of `frames_per_grid` frames.
    pub fn new(frames_per_grid: usize) -> (r: Self)
        requires
            frames_per_grid > 0,
        ensures
            r.per_grid() == frames_per_grid,
            r.pending().len() == 0,
            r.next_index() == 0,
            r.last_ms() == 0,
    {
        FrameBatcher { frames_per_grid, buffered: Vec::new(), grid_index: 0, scanned_ms: 0 }
    }

    /// Take in the frame at `timestamp_ms`. A progress report is due when
    /// the buffer holds a multiple of ten frames; once it holds a grid's
    /// worth they leave as the next grid, starting at the first one's time.
    pub fn on_frame(&mut self, timestamp_ms: u64) -> (r: FrameStep)
        requires
            old(self).next_index() < u32::MAX,
        ensures
            final(self).per_grid() == old(self).per_grid(),
            final(self).last_ms() == timestamp_ms,
            ({
                let b = old(self).pending().push(timestamp_ms);
                &&& r.report_progress == (b.len() % 10 == 0)
                &&& if b.len() >= old(self).per_grid() {
                    &&& r.grid == Some(
                        GridJob { index: old(self).next_index(), start_ms: b[0], frames: old(self).per_grid() as usize },
                    )
                    &&& final(self).pending().len() == 0
                    &&& final(self).next_index() == old(self).next_index() + 1
                } else {
                    &&& r.grid is None
                    &&& final(self).pending() == b
                    &&& final(self).next_index() == old(self).next_index()
                }
            }),
    {
        proof {
            use_type_invariant(&*self);
        }
        let mut b: Vec<u64> = Vec::new();
        std::mem::swap(&mut b, &mut self.buffered);
        b.push(timestamp_ms);
        self.scanned_ms = timestamp_ms;
        let report = b.len() % 10 == 0;
        if b.len() >= self.frames_per_grid {
            let job = GridJob { index: self.grid_index, start_ms: b[0], frames: self.frames_per_grid };
            self.grid_index = self.grid_index + 1;
            FrameStep { report_progress: report, grid: Some(job) }
        } else {
            self.buffered = b;
            FrameStep { report_progress: report, grid: None }
        }
    }

    /// The last, partial grid of the frames still buffered, if any.
    pub fn finish(&mut self) -> (r: Option<GridJob>)
        ensures
            final(self).pending().len() == 0,
            final(self).next_index() == old(self).next_index(),
            final(self).per_grid() == old(self).per_grid(),
            final(self).last_ms() == old(self).last_ms(),
            r == if old(self).pending().len() == 0 {
                None
            } else {
                Some(
                    GridJob {
                        index: old(self).next_index(),
                        start_ms: old(self).pending()[0],
                        frames: old(self).pending().len() as usize,
                    },
                )
            },
    {
        proof {
            use_type_invariant(&*self);
        }
        if self.buffered.len() == 0 {
            None
        } else {
            let job = GridJob {
                index: self.grid_index,
                start_ms: self.buffered[0],
                frames: self.buffered.len(),
            };
            let mut b: Vec<u64> = Vec::new();
            std::mem::swap(&mut b, &mut self.buffered);
            Some(job)
        }
    }
}

/// `[a, b, c]`: the numbers in decimal, comma-separated, in brackets.
pub open spec fn number_list(v: Seq<u64>) -> Seq<char> {
    seq!['['] + number_items(v) + seq![']']
}

pub open spec fn number_items(v: Seq<u64>) -> Seq<char>
    decreases v.len(),
{
    if v.len() == 0 {
        Seq::empty()
    } else if v.len() == 1 {
        decimal(v[0] as nat)
    } else {
        number_items(v.drop_last()) + ", "@ + decimal(v.last() as nat)
    }
}

/// `number_list` as a string.
fn list_text(v: &Vec<u64>) -> (r: String)
    ensures
        r@ == number_list(v@),
{
    let mut out = String::from_str("[");
    let mut i: usize = 0;
    proof {
        reveal_strlit("[");
        assert(v@.take(0) =~= Seq::<u64>::empty());
        assert(out@ =~= seq!['['] + number_items(v@.take(0)));
    }
    while i < v.len()
        invariant
            0 <= i <= v.len(),
            out@ == seq!['['] + number_items(v@.take(i as int)),
        decreases v.len() - i,
    {
        if i > 0 {
            out.append(", ");
        }
        let d = decimal_string(v[i]);
        out.append(d.as_str());
        proof {
            reveal_strlit("[");
            let t = v@.take(i + 1);
            assert(t.drop_last() =~= v@.take(i as int));
            if i == 0 {
                assert(v@.take(0) =~= Seq::<u64>::empty());
            }
        }
        i = i + 1;
    }
    out.append("]");
    proof {
        reveal_strlit("[");
        reveal_strlit("]");
        assert(v@.take(v.len() as int) =~= v@);
    }
    out
}

/// The instruction sent with one batch grid: the file, the batch's place,
/// the frames' seconds, the user's request and the expected reply.
pub open spec fn batch_instruction_text(file_name: Seq<char>, batch: nat, count: nat, stamps: Seq<u64>, prompt: Seq<char>) -> Seq<char> {
    let first: nat = if stamps.len() > 0 {
        stamps[0] as nat
    } else {
        0
    };
    "Video file under analysis: \""@ + file_name + "\" (batch "@ + decimal(batch) + seq!['/']
        + decimal(count) + ", frames at seconds "@ + number_list(stamps)
        + ", sampled through the video).\nUser skip request: "@ + prompt
        + "\nAnalyse these "@ + decimal(stamps.len()) + " frame(s) in time order. Return ONLY a JSON array of objects with numeric \"start\" and \"end\" fields in ABSOLUTE video seconds, e.g. [{\"start\": "@
        + decimal(first) + ", \"end\": "@ + decimal(first + 1)
        + "}] covering the parts matching the skip request. If nothing should be skipped, return []."@
}

/// The instruction for batch `batch_idx` (from 0) of `batch_count`, whose
/// frames were taken at `stamps_secs`.
pub fn batch_instruction(file_name: &str, batch_idx: usize, batch_count: usize, stamps_secs: &Vec<u64>, prompt: &str) -> (r: String)
    requires
        batch_idx < usize::MAX,
        stamps_secs@.len() > 0 ==> stamps_secs@[0] < u64::MAX,
    ensures
        r@ == batch_instruction_text(file_name@, (batch_idx + 1) as nat, batch_count as nat, stamps_secs@, prompt@),
{
    let first: u64 = if stamps_secs.len() > 0 {
        stamps_secs[0]
    } else {
        0
    };
    let mut r = String::from_str("Video file under analysis: \"");
    r.append(file_name);
    r.append("\" (batch ");
    let a = decimal_string((batch_idx + 1) as u64);
    r.append(a.as_str());
    r.append("/");
    let b = decimal_string(batch_count as u64);
    r.append(b.as_str());
    r.append(", frames at seconds ");
    let l = list_text(stamps_secs);
    r.append(l.as_str());
    r.append(", sampled through the video).\nUser skip request: ");
    r.append(prompt);
    r.append("\nAnalyse these ");
    let c = decimal_string(stamps_secs.len() as u64);
    r.append(c.as_str());
    r.append(" frame(s) in time order. Return ONLY a JSON array of objects with numeric \"start\" and \"end\" fields in ABSOLUTE video seconds, e.g. [{\"start\": ");
    let f = decimal_string(first);
    r.append(f.as_str());
    r.append(", \"end\": ");
    let g = decimal_string(first + 1);
    r.append(g.as_str());
    r.append("}] covering the parts matching the skip request. If nothing should be skipped, return [].");
    proof {
        reveal_strlit("/");
    }
    r
}

/// The instruction of the text-only probe, sent when no frames could be
/// extracted.
pub open spec fn probe_instruction_text(file_name: Seq<char>, prompt: Seq<char>) -> Seq<char> {
    "Video file under analysis: \""@ + file_name + "\".\nUser skip request: "@ + prompt
        + "\nThe full video will be analysed frame-by-frame after this probe. For now, based on the request, reply with the skip segments as data.\nReturn ONLY a JSON array of objects with numeric \"start\" and \"end\" fields in seconds, e.g. [{\"start\": 15, \"end\": 25}]. If nothing should be skipped, return []."@
}

/// The text-only probe's instruction.
pub fn probe_instruction(file_name: &str, prompt: &str) -> (r: String)
    ensures
        r@ == probe_instruction_text(file_name@, prompt@),
{
    let mut r = String::from_str("Video file under analysis: \"");
    r.append(file_name);
    r.append("\".\nUser skip request: ");
    r.append(prompt);
    r.append("\nThe full video will be analysed frame-by-frame after this probe. For now, based on the request, reply with the skip segments as data.\nReturn ONLY a JSON array of objects with numeric \"start\" and \"end\" fields in seconds, e.g. [{\"start\": 15, \"end\": 25}]. If nothing should be skipped, return [].");
    r
}

/// No batch ever holds more than `AI_SCAN_MAX_FRAMES_PER_BATCH` frames,
/// whatever batch size is asked for.
pub proof fn law_batches_capped<T>(frames: Seq<T>, batch_size: usize)
    requires
        batch_size > 0,
    ensures
        forall|i: int|
            0 <= i < chunks(frames, capped_batch(batch_size)).len() ==> (#[trigger] chunks(
                frames,
                capped_batch(batch_size),
            )[i]).len() <= AI_SCAN_MAX_FRAMES_PER_BATCH,
{
    law_batches_partition(frames, capped_batch(batch_size));
}

/// Rate limits (429 and 503) are retried while retries remain, the first
/// retry after ten seconds; any 2xx answer is read; other answers and
/// failed requests skip the batch.
pub proof fn law_batch_statuses(attempt: u32, code: u16)
    ensures
        attempt < AI_SCAN_MAX_RETRIES ==> batch_decision(attempt, Some(429u16)) is Retry
            && batch_decision(attempt, Some(503u16)) is Retry,
        attempt >= AI_SCAN_MAX_RETRIES ==> batch_decision(attempt, Some(429u16)) == BatchStep::GiveUp,
        batch_decision(0, Some(429u16)) == (BatchStep::Retry { attempt: 1, backoff_secs: 10 }),
        200 <= code < 300 ==> batch_decision(attempt, Some(code)) == BatchStep::Read,
        code != 429 && code != 503 && !(200 <= code < 300) ==> batch_decision(attempt, Some(code))
            == BatchStep::GiveUp,
        batch_decision(attempt, None) == BatchStep::GiveUp,
{
    reveal_pow2_zero();
}

} // verus!
