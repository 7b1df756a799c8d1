//! Core domain types of the player. Times are whole milliseconds.

use vstd::prelude::*;

verus! {

/// Unique identifier for a video session (the 128 bits of a UUID).
#[derive(Debug, Clone, Copy, PartialEq, Eq, Hash, PartialOrd, Ord)]
pub struct VideoId {
    pub uuid: u128,
}

/// Whether 128 bits are a version 4 UUID of the RFC 4122 variant: the
/// version field holds 4 and the variant's top bits are `10`.
pub open spec fn is_v4_uuid(bits: u128) -> bool {
    &&& bits & 0xF000_0000_0000_0000_0000u128 == 0x4000_0000_0000_0000_0000u128
    &&& bits & 0xC000_0000_0000_0000u128 == 0x8000_0000_0000_0000u128
}

/// Calls `uuid::Uuid::new_v4()` and takes its 128 bits (`as_u128`, big
/// endian). Claimed: the version and variant bits that `new_v4` sets; the
/// other bits are random, so nothing is claimed of them.
#[verifier::external_body]
fn random_uuid_bits() -> (r: u128)
    ensures
        is_v4_uuid(r),
{
    uuid::Uuid::new_v4().as_u128()
}

impl VideoId {
    /// A fresh random identifier (a version 4 UUID).
    pub fn new() -> (r: Self)
        ensures
            is_v4_uuid(r.uuid),
    {
        VideoId { uuid: random_uuid_bits() }
    }

    /// The identifier holding the given UUID bits.
    pub fn from_bits(uuid: u128) -> (r: Self)
        ensures
            r.uuid == uuid,
    {
        VideoId { uuid }
    }
}

impl Default for VideoId {
    /// A fresh random identifier, as `new`.
    fn default() -> (r: Self)
        ensures
            is_v4_uuid(r.uuid),
    {
        VideoId::new()
    }
}

/// Playback mode selected by the user when a video starts.
#[derive(Debug, Clone, Copy, PartialEq, Eq, Structural)]
pub enum PlaybackMode {
    /// Wait for the full scan before playing.
    SafeMode,
    /// Start immediately, scan in the background.
    InstantPlay,
    /// Skip explicit segments on the fly.
    AutoSkip,
}

impl Default for PlaybackMode {
    /// Safe mode.
    fn default() -> (r: Self)
        ensures
            r == PlaybackMode::SafeMode,
    {
        PlaybackMode::SafeMode
    }
}

impl PlaybackMode {
    /// The mode a session starts in.
    pub fn default_mode() -> (r: Self)
        ensures
            r == PlaybackMode::SafeMode,
    {
        PlaybackMode::SafeMode
    }

    /// The label shown for the mode.
    pub fn label(&self) -> (r: &'static str)
        ensures
            r@ == mode_label(*self),
    {
        match self {
            PlaybackMode::SafeMode => {
                proof {
                    reveal_strlit("Safe Mode");
                }
                "Safe Mode"
            },
            PlaybackMode::InstantPlay => {
                proof {
                    reveal_strlit("Instant Play (Zero Trust)");
                }
                "Instant Play (Zero Trust)"
            },
            PlaybackMode::AutoSkip => {
                proof {
                    reveal_strlit("Auto-Skip");
                }
                "Auto-Skip"
            },
        }
    }
}

pub open spec fn mode_label(m: PlaybackMode) -> Seq<char> {
    match m {
        PlaybackMode::SafeMode => seq!['S', 'a', 'f', 'e', ' ', 'M', 'o', 'd', 'e'],
        PlaybackMode::InstantPlay => seq![
            'I', 'n', 's', 't', 'a', 'n', 't', ' ', 'P', 'l', 'a', 'y', ' ', '(', 'Z', 'e', 'r',
            'o', ' ', 'T', 'r', 'u', 's', 't', ')',
        ],
        PlaybackMode::AutoSkip => seq!['A', 'u', 't', 'o', '-', 'S', 'k', 'i', 'p'],
    }
}

/// Current state of video playback.
#[derive(Debug, Clone, Copy, PartialEq, Eq, Structural)]
pub enum PlaybackState {
    Stopped,
    Playing,
    Paused,
    Buffering,
    Seeking,
    Ended,
    Error,
}

/// Flags for the four cells of a 2x2 frame grid (TL, TR, BL, BR).
#[derive(Debug, Clone, Copy, PartialEq, Eq, Structural)]
pub struct QuadrantFlags {
    pub top_left: bool,
    pub top_right: bool,
    pub bottom_left: bool,
    pub bottom_right: bool,
}

pub open spec fn flag_count(b: bool) -> nat {
    if b {
        1
    } else {
        0
    }
}

pub open spec fn lists(q: Seq<u8>, n: u8) -> bool {
    exists|i: int| 0 <= i < q.len() && q[i] == n
}

impl QuadrantFlags {
    /// Flags with no quadrant set.
    pub fn new() -> (r: Self)
        ensures
            !r.top_left && !r.top_right && !r.bottom_left && !r.bottom_right,
    {
        QuadrantFlags { top_left: false, top_right: false, bottom_left: false, bottom_right: false }
    }

    /// Whether any quadrant is flagged.
    pub fn any_explicit(&self) -> (r: bool)
        ensures
            r == (self.top_left || self.top_right || self.bottom_left || self.bottom_right),
    {
        self.top_left || self.top_right || self.bottom_left || self.bottom_right
    }

    /// How many quadrants are flagged.
    pub fn explicit_count(&self) -> (r: u8)
        ensures
            r == flag_count(self.top_left) + flag_count(self.top_right) + flag_count(
                self.bottom_left,
            ) + flag_count(self.bottom_right),
    {
        let mut n: u8 = 0;
        if self.top_left {
            n = n + 1;
        }
        if self.top_right {
            n = n + 1;
        }
        if self.bottom_left {
            n = n + 1;
        }
        if self.bottom_right {
            n = n + 1;
        }
        n
    }

    /// Flags from quadrant numbers: 1 top-left, 2 top-right, 3 bottom-left,
    /// 4 bottom-right; other numbers are ignored.
    pub fn from_quadrant_numbers(quadrants: &[u8]) -> (r: Self)
        ensures
            r.top_left == lists(quadrants@, 1),
            r.top_right == lists(quadrants@, 2),
            r.bottom_left == lists(quadrants@, 3),
            r.bottom_right == lists(quadrants@, 4),
    {
        let mut flags = Self::new();
        let mut i: usize = 0;
        while i < quadrants.len()
            invariant
                0 <= i <= quadrants.len(),
                flags.top_left == lists(quadrants@.take(i as int), 1),
                flags.top_right == lists(quadrants@.take(i as int), 2),
                flags.bottom_left == lists(quadrants@.take(i as int), 3),
                flags.bottom_right == lists(quadrants@.take(i as int), 4),
            decreases quadrants.len() - i,
        {
            let q = quadrants[i];
            let ghost pre = quadrants@.take(i as int);
            let ghost post = quadrants@.take(i + 1);
            assert(post =~= pre.push(q));
            assert forall|n: u8| lists(post, n) == (lists(pre, n) || q == n) by {
                if lists(post, n) {
                    let j = choose|j: int| 0 <= j < post.len() && post[j] == n;
                    if j < pre.len() {
                        assert(pre[j] == n);
                    }
                }
                if lists(pre, n) {
                    let j = choose|j: int| 0 <= j < pre.len() && pre[j] == n;
                    assert(post[j] == n);
                }
                if q == n {
                    assert(post[i as int] == n);
                }
            }
            if q == 1 {
                flags.top_left = true;
            } else if q == 2 {
                flags.top_right = true;
            } else if q == 3 {
                flags.bottom_left = true;
            } else if q == 4 {
                flags.bottom_right = true;
            }
            i = i + 1;
        }
        assert(quadrants@.take(quadrants.len() as int) =~= quadrants@);
        flags
    }
}

impl Default for QuadrantFlags {
    /// No quadrant flagged, as `new`.
    fn default() -> (r: Self)
        ensures
            !r.top_left && !r.top_right && !r.bottom_left && !r.bottom_right,
    {
        QuadrantFlags::new()
    }
}

/// Result of explicit-content detection for a time span. The confidence is
/// a percentage.
#[derive(Debug, Clone, Copy, PartialEq, Eq, Structural)]
pub struct ScanSegment {
    pub start_ms: u64,
    pub end_ms: u64,
    pub is_explicit: bool,
    pub confidence_pct: u8,
    pub quadrant_flags: Option<QuadrantFlags>,
}

/// Visual indicator for timeline segments.
#[derive(Debug, Clone, Copy, PartialEq, Eq, Structural)]
pub enum TimelineSegmentType {
    Unknown,
    ScannedSafe,
    ExplicitContent,
    SkipZone,
}

/// A segment on the visual timeline.
#[derive(Debug, Clone, Copy, PartialEq, Eq, Structural)]
pub struct TimelineSegment {
    pub start_ms: u64,
    pub end_ms: u64,
    pub segment_type: TimelineSegmentType,
    pub scan_segment: Option<ScanSegment>,
}

/// Video thumbnail data (encoded image bytes).
#[derive(Debug, Clone)]
pub struct VideoThumbnail {
    pub data: Vec<u8>,
    pub width: u32,
    pub height: u32,
}

impl VideoThumbnail {
    pub fn new(data: Vec<u8>, width: u32, height: u32) -> (r: Self)
        ensures
            r.data@ == data@,
            r.width == width,
            r.height == height,
    {
        VideoThumbnail { data, width, height }
    }
}

/// Scan progress information.
#[derive(Debug, Clone)]
pub struct ScanProgress {
    pub video_id: VideoId,
    pub scanned_ms: u64,
    pub total_ms: u64,
    pub segments_found: usize,
    pub explicit_segments: usize,
    pub current_ms: u64,
    pub is_complete: bool,
    pub error: Option<String>,
}

/// Application theme.
#[derive(Debug, Clone, Copy, PartialEq, Eq, Structural)]
pub enum Theme {
    Light,
    Dark,
    System,
}

impl Theme {
    /// The label shown for the theme.
    pub fn label(&self) -> (r: &'static str)
        ensures
            r@ == theme_label(*self),
    {
        match self {
            Theme::Light => {
                proof {
                    reveal_strlit("Light");
                }
                "Light"
            },
            Theme::Dark => {
                proof {
                    reveal_strlit("Dark");
                }
                "Dark"
            },
            Theme::System => {
                proof {
                    reveal_strlit("System");
                }
                "System"
            },
        }
    }
}

pub open spec fn theme_label(t: Theme) -> Seq<char> {
    match t {
        Theme::Light => seq!['L', 'i', 'g', 'h', 't'],
        Theme::Dark => seq!['D', 'a', 'r', 'k'],
        Theme::System => seq!['S', 'y', 's', 't', 'e', 'm'],
    }
}

/// AI scan request for a grid of frames.
#[derive(Debug, Clone)]
pub struct GridScanRequest {
    pub video_id: VideoId,
    pub grid_index: u32,
    pub start_ms: u64,
    pub frame_data: Vec<u8>,
    pub mime_type: String,
}

} // verus!
