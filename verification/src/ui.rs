//! Interface state that does not depend on the toolkit: the pre-play mode
//! choice, the model picker, the timeline widget's messages, the palette
//! roles and the masked API key.

use vstd::prelude::*;
use vstd::string::StringExecFns;
use crate::domain::{PlaybackMode, TimelineSegmentType};
use crate::config::str_eq;

verus! {

/// Pre-play mode selection screen.
pub struct ModeSelectionScreen {
    selected_mode: PlaybackMode,
}

impl ModeSelectionScreen {
    pub closed spec fn mode(&self) -> PlaybackMode {
        self.selected_mode
    }

    pub fn new(m: PlaybackMode) -> (r: Self)
        ensures
            r.mode() == m,
    {
        ModeSelectionScreen { selected_mode: m }
    }

    pub fn selected_mode(&self) -> (r: PlaybackMode)
        ensures
            r == self.mode(),
    {
        self.selected_mode
    }

    pub fn set_selected_mode(&mut self, m: PlaybackMode)
        ensures
            final(self).mode() == m,
    {
        self.selected_mode = m;
    }
}

/// The model picker's entries.
#[derive(Debug, Clone, Copy, PartialEq, Eq, Structural)]
pub enum GeminiModelOpt {
    Flash37,
    FlashLite35,
}

impl GeminiModelOpt {
    /// The model id of the entry.
    pub fn id(&self) -> (r: &'static str)
        ensures
            r@ == match self {
                GeminiModelOpt::Flash37 => crate::config::GEMINI_37_FLASH@,
                GeminiModelOpt::FlashLite35 => crate::config::GEMINI_35_FLASH_LITE@,
            },
    {
        match self {
            GeminiModelOpt::Flash37 => crate::config::GEMINI_37_FLASH,
            GeminiModelOpt::FlashLite35 => crate::config::GEMINI_35_FLASH_LITE,
        }
    }

    /// The entry of a model id; any id but the Flash Lite one (legacy ids
    /// included) picks 3.7 Flash.
    pub fn from_id(id: &str) -> (r: Self)
        ensures
            r == if id@ == crate::config::GEMINI_35_FLASH_LITE@ {
                GeminiModelOpt::FlashLite35
            } else {
                GeminiModelOpt::Flash37
            },
    {
        if str_eq(id, crate::config::GEMINI_35_FLASH_LITE) {
            GeminiModelOpt::FlashLite35
        } else {
            GeminiModelOpt::Flash37
        }
    }

    /// All entries, in picker order.
    pub fn all() -> (r: [Self; 2])
        ensures
            r@ == seq![GeminiModelOpt::Flash37, GeminiModelOpt::FlashLite35],
    {
        let r = [GeminiModelOpt::Flash37, GeminiModelOpt::FlashLite35];
        assert(r@ =~= seq![GeminiModelOpt::Flash37, GeminiModelOpt::FlashLite35]);
        r
    }

    /// The text shown in the picker.
    pub fn to_string(&self) -> (r: String)
        ensures
            r@ == match self {
                GeminiModelOpt::Flash37 => "Gemini 3.7 Flash"@,
                GeminiModelOpt::FlashLite35 => "Gemini 3.5 Flash Lite"@,
            },
    {
        match self {
            GeminiModelOpt::Flash37 => String::from_str("Gemini 3.7 Flash"),
            GeminiModelOpt::FlashLite35 => String::from_str("Gemini 3.5 Flash Lite"),
        }
    }
}

/// The settings screen (its layout is drawn by the toolkit).
pub struct SettingsScreen;

/// Timeline widget: progress bar, times and legend.
pub struct TimelineWidget;

impl Default for TimelineWidget {
    fn default() -> (r: Self) {
        TimelineWidget
    }
}

impl TimelineWidget {
    pub fn new() -> (r: Self) {
        TimelineWidget
    }

    /// Drop cached drawing (nothing is cached).
    pub fn clear_cache(&mut self) {
    }
}

/// Messages of the timeline widget; times in milliseconds.
#[derive(Debug, Clone, Copy)]
pub enum TimelineMessage {
    Seek(u64),
    Hover(Option<u64>),
    DragStart,
    DragEnd(u64),
}

/// Messages of the video display.
#[derive(Debug, Clone, Copy)]
pub enum VideoDisplayMessage {
    DoubleClick,
    RightClick,
}

/// Roles of the custom color palette.
#[derive(Debug, Clone, Copy, PartialEq, Eq, Structural)]
pub enum PaletteRole {
    Primary,
    PrimaryHover,
    PrimaryPressed,
    Background,
    Surface,
    SurfaceVariant,
    SurfaceElevated,
    OnBackground,
    OnSurface,
    OnSurfaceVariant,
    OnPrimary,
    Success,
    Warning,
    Error,
    Info,
    TimelineUnknown,
    TimelineSafe,
    TimelineExplicit,
    TimelineSkip,
    TimelinePlayhead,
    TimelineHover,
    Border,
    BorderFocus,
}

/// The custom color palette; the toolkit maps each role to its color.
pub struct OtipPalette;

impl OtipPalette {
    /// The color role of a timeline segment.
    pub fn timeline_role(t: TimelineSegmentType) -> (r: PaletteRole)
        ensures
            r == match t {
                TimelineSegmentType::Unknown => PaletteRole::TimelineUnknown,
                TimelineSegmentType::ScannedSafe => PaletteRole::TimelineSafe,
                TimelineSegmentType::ExplicitContent => PaletteRole::TimelineExplicit,
                TimelineSegmentType::SkipZone => PaletteRole::TimelineSkip,
            },
    {
        match t {
            TimelineSegmentType::Unknown => PaletteRole::TimelineUnknown,
            TimelineSegmentType::ScannedSafe => PaletteRole::TimelineSafe,
            TimelineSegmentType::ExplicitContent => PaletteRole::TimelineExplicit,
            TimelineSegmentType::SkipZone => PaletteRole::TimelineSkip,
        }
    }
}

/// The API key as shown: empty stays empty; a visible key is shown whole;
/// a hidden key longer than eight characters shows its first and last four
/// around `…`; a shorter hidden key shows eight dots.
pub open spec fn masked(key: Seq<char>, visible: bool) -> Seq<char> {
    if key.len() == 0 {
        key
    } else if visible {
        key
    } else if key.len() > 8 {
        key.take(4) + seq!['…'] + key.skip(key.len() - 4)
    } else {
        seq!['•', '•', '•', '•', '•', '•', '•', '•']
    }
}

/// The API key for display, masked unless `visible`. The key is taken as
/// ASCII, as API keys are.
pub fn masked_api_key(key: &str, visible: bool) -> (r: String)
    ensures
        r@ == masked(key@, visible),
{
    let v = crate::text::chars_of(key);
    assert(v@ =~= key@) by {
        assert(v@.subrange(0, v.len() as int) =~= v@);
    }
    if v.len() == 0 || visible {
        return String::from_str(key);
    }
    let mut out: Vec<char> = Vec::new();
    if v.len() > 8 {
        let n = v.len();
        let mut i: usize = 0;
        while i < 4
            invariant
                n == v@.len(),
                n > 8,
                0 <= i <= 4,
                out@ == v@.take(i as int),
            decreases 4 - i,
        {
            out.push(v[i]);
            assert(out@ =~= v@.take(i + 1));
            i = i + 1;
        }
        out.push('…');
        let mut j: usize = n - 4;
        while j < n
            invariant
                n == v@.len(),
                n > 8,
                n - 4 <= j <= n,
                out@ == v@.take(4) + seq!['…'] + v@.subrange(n - 4, j as int),
            decreases n - j,
        {
            out.push(v[j]);
            assert(out@ =~= v@.take(4) + seq!['…'] + v@.subrange(n - 4, j + 1));
            j = j + 1;
        }
        assert(v@.subrange(n - 4, n as int) =~= v@.skip(n - 4));
    } else {
        let mut i: usize = 0;
        while i < 8
            invariant
                0 <= i <= 8,
                out@.len() == i,
                forall|k: int| 0 <= k < i ==> out@[k] == '•',
            decreases 8 - i,
        {
            out.push('•');
            i = i + 1;
        }
        assert(out@ =~= seq!['•', '•', '•', '•', '•', '•', '•', '•']);
    }
    crate::text::string_from_chars(&out)
}

/// A hidden key never shows more than its first four and last four
/// characters: a long one shows nine characters, those eight around `…`;
/// a short one shows eight dots and nothing of the key; a visible key is
/// shown as it is.
pub proof fn law_masked_key_hides_middle(key: Seq<char>)
    ensures
        masked(key, true) == key,
        key.len() > 8 ==> masked(key, false).len() == 9 && masked(key, false)[4] == '…' && (forall|
            i: int,
        |
            0 <= i < 4 ==> #[trigger] masked(key, false)[i] == key[i] && masked(key, false)[5 + i]
                == key[key.len() - 4 + i]),
        0 < key.len() <= 8 ==> masked(key, false).len() == 8 && (forall|i: int|
            0 <= i < 8 ==> #[trigger] masked(key, false)[i] == '•'),
        key.len() == 0 ==> masked(key, false).len() == 0,
{
}

} // verus!
