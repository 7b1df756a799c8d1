//! Application configuration: the user's preferences, the model settings
//! and where the API key comes from.

use vstd::prelude::*;
use vstd::string::{StrSliceExecFns, StringExecFns};
use crate::domain::{PlaybackMode, Theme};

verus! {

pub const GEMINI_37_FLASH: &'static str = "gemini-3.7-flash";

pub const GEMINI_35_FLASH_LITE: &'static str = "gemini-3.5-flash-lite";

/// The models offered in the settings, the default first.
pub const GEMINI_AVAILABLE_MODELS: [&'static str; 2] = [GEMINI_37_FLASH, GEMINI_35_FLASH_LITE];

pub const GEMINI_DEFAULT_MODEL: &'static str = GEMINI_37_FLASH;

/// The model a new configuration names (its documented default).
pub const CONFIG_DEFAULT_MODEL: &'static str = "gemini-3.8-flash";

/// The label shown for a model id: the known ids have names, any other id
/// is shown as it is.
pub open spec fn model_name(model_id: Seq<char>) -> Seq<char> {
    if model_id == GEMINI_37_FLASH@ {
        "Gemini 3.7 Flash"@
    } else if model_id == GEMINI_35_FLASH_LITE@ {
        "Gemini 3.5 Flash Lite"@
    } else if model_id == "gemini-1.5-flash-latest"@ {
        "Gemini 1.5 Flash (legacy)"@
    } else if model_id == "gemini-2.0-flash"@ {
        "Gemini 2.0 Flash"@
    } else {
        model_id
    }
}

/// Whether two strings hold the same characters.
pub fn str_eq(a: &str, b: &str) -> (r: bool)
    ensures
        r == (a@ == b@),
{
    let n = a.unicode_len();
    if n != b.unicode_len() {
        return false;
    }
    let mut i: usize = 0;
    while i < n
        invariant
            n == a@.len() == b@.len(),
            0 <= i <= n,
            forall|j: int| 0 <= j < i ==> a@[j] == b@[j],
        decreases n - i,
    {
        if a.get_char(i) != b.get_char(i) {
            return false;
        }
        i = i + 1;
    }
    assert(a@ =~= b@);
    true
}

/// Human-readable label for a model id.
pub fn gemini_model_label(model_id: &str) -> (r: &str)
    ensures
        r@ == model_name(model_id@),
{
    if str_eq(model_id, GEMINI_37_FLASH) {
        "Gemini 3.7 Flash"
    } else if str_eq(model_id, GEMINI_35_FLASH_LITE) {
        "Gemini 3.5 Flash Lite"
    } else if str_eq(model_id, "gemini-1.5-flash-latest") {
        "Gemini 1.5 Flash (legacy)"
    } else if str_eq(model_id, "gemini-2.0-flash") {
        "Gemini 2.0 Flash"
    } else {
        model_id
    }
}

/// User preferences. The confidence threshold is a percentage.
#[derive(Debug, Clone)]
pub struct UserPreferences {
    pub default_playback_mode: PlaybackMode,
    pub auto_skip_enabled: bool,
    pub scan_ahead_seconds: u32,
    pub confidence_threshold_pct: u8,
    pub api_key: Option<String>,
    pub hardware_acceleration: bool,
    pub theme: Theme,
    pub language: String,
}

impl Default for UserPreferences {
    fn default() -> (r: Self)
        ensures
            r.default_playback_mode == PlaybackMode::SafeMode,
            r.auto_skip_enabled,
            r.scan_ahead_seconds == 30,
            r.confidence_threshold_pct == 70,
            r.api_key is None,
            r.hardware_acceleration,
            r.theme == Theme::System,
            r.language@ == "en"@,
    {
        UserPreferences {
            default_playback_mode: PlaybackMode::SafeMode,
            auto_skip_enabled: true,
            scan_ahead_seconds: 30,
            confidence_threshold_pct: 70,
            api_key: None,
            hardware_acceleration: true,
            theme: Theme::System,
            language: String::from_str("en"),
        }
    }
}

impl UserPreferences {
    /// A field-by-field copy.
    pub fn copied(&self) -> (r: Self)
        ensures
            r == *self,
    {
        UserPreferences {
            default_playback_mode: self.default_playback_mode,
            auto_skip_enabled: self.auto_skip_enabled,
            scan_ahead_seconds: self.scan_ahead_seconds,
            confidence_threshold_pct: self.confidence_threshold_pct,
            api_key: match &self.api_key {
                Some(k) => Some(k.clone()),
                None => None,
            },
            hardware_acceleration: self.hardware_acceleration,
            theme: self.theme,
            language: self.language.clone(),
        }
    }
}

/// Application configuration.
#[derive(Debug)]
pub struct AppConfig {
    pub preferences: UserPreferences,
    pub gemini_api_key: Option<String>,
    pub gemini_model: String,
    pub gemini_endpoint: String,
    /// Seconds between scanned frames.
    pub scan_frame_interval: u32,
    /// Frames per grid (columns, rows).
    pub grid_size: (u32, u32),
    /// Extraction resolution.
    pub frame_resolution: (u32, u32),
    pub max_concurrent_scans: usize,
    pub cache_dir: String,
    pub log_level: String,
}

impl AppConfig {
    /// The default configuration, caching under `cache_dir`.
    pub fn with_cache_dir(cache_dir: String) -> (r: Self)
        ensures
            r.gemini_api_key is None,
            r.gemini_model@ == CONFIG_DEFAULT_MODEL@,
            r.gemini_endpoint@ == crate::scan::GEMINI_ENDPOINT@,
            r.scan_frame_interval == 1,
            r.grid_size == (2u32, 2u32),
            r.frame_resolution == (320u32, 240u32),
            r.max_concurrent_scans == 3,
            r.cache_dir@ == cache_dir@,
            r.log_level@ == "info"@,
            r.preferences.default_playback_mode == PlaybackMode::SafeMode,
            r.preferences.auto_skip_enabled,
            r.preferences.scan_ahead_seconds == 30,
            r.preferences.confidence_threshold_pct == 70,
            r.preferences.api_key is None,
            r.preferences.theme == Theme::System,
    {
        AppConfig {
            preferences: UserPreferences::default(),
            gemini_api_key: None,
            gemini_model: String::from_str(CONFIG_DEFAULT_MODEL),
            gemini_endpoint: String::from_str(crate::scan::GEMINI_ENDPOINT),
            scan_frame_interval: 1,
            grid_size: (2, 2),
            frame_resolution: (320, 240),
            max_concurrent_scans: 3,
            cache_dir,
            log_level: String::from_str("info"),
        }
    }

    /// The API key to use: the configured one, else the one in the
    /// preferences, else `env_key` (the `GEMINI_API_KEY` variable).
    pub fn get_gemini_api_key(&self, env_key: Option<String>) -> (r: Option<String>)
        ensures
            r == match self.gemini_api_key {
                Some(k) => Some(k),
                None => match self.preferences.api_key {
                    Some(k) => Some(k),
                    None => env_key,
                },
            },
    {
        match &self.gemini_api_key {
            Some(k) => Some(k.clone()),
            None => match &self.preferences.api_key {
                Some(k) => Some(k.clone()),
                None => env_key,
            },
        }
    }
}

} // verus!
