//! Error kinds of the player, the scanner, the interface and the
//! configuration, each with the message it shows.

use vstd::prelude::*;
use vstd::string::StringExecFns;
use crate::clock::{decimal, decimal_string};

verus! {

/// `prefix` followed by `detail`.
fn prefixed(prefix: &str, detail: &String) -> (r: String)
    ensures
        r@ == prefix@ + detail@,
{
    let mut r = String::from_str(prefix);
    r.append(detail.as_str());
    r
}

/// Errors of the video engines.
#[derive(Debug)]
pub enum VideoError {
    InitFailed(String),
    UnsupportedFormat(String),
    DecodeError(String),
    SeekFailed(String),
    NoVideoTrack,
    HwAccelUnavailable(String),
    Mpv(String),
    GStreamer(String),
}

/// The message of a `VideoError`.
pub open spec fn video_error_text(e: VideoError) -> Seq<char> {
    match e {
        VideoError::InitFailed(s) => "Failed to initialize video engine: "@ + s@,
        VideoError::UnsupportedFormat(s) => "Unsupported format: "@ + s@,
        VideoError::DecodeError(s) => "Decode error: "@ + s@,
        VideoError::SeekFailed(s) => "Seek failed: "@ + s@,
        VideoError::NoVideoTrack => "No video track found"@,
        VideoError::HwAccelUnavailable(s) => "Hardware acceleration not available: "@ + s@,
        VideoError::Mpv(s) => "MPV error: "@ + s@,
        VideoError::GStreamer(s) => "GStreamer error: "@ + s@,
    }
}

impl VideoError {
    /// The message shown for the error.
    pub fn message(&self) -> (r: String)
        ensures
            r@ == video_error_text(*self),
    {
        match self {
            VideoError::InitFailed(s) => prefixed("Failed to initialize video engine: ", s),
            VideoError::UnsupportedFormat(s) => prefixed("Unsupported format: ", s),
            VideoError::DecodeError(s) => prefixed("Decode error: ", s),
            VideoError::SeekFailed(s) => prefixed("Seek failed: ", s),
            VideoError::NoVideoTrack => String::from_str("No video track found"),
            VideoError::HwAccelUnavailable(s) => prefixed(
                "Hardware acceleration not available: ",
                s,
            ),
            VideoError::Mpv(s) => prefixed("MPV error: ", s),
            VideoError::GStreamer(s) => prefixed("GStreamer error: ", s),
        }
    }
}

/// Errors of the AI scanner.
#[derive(Debug)]
pub enum ScannerError {
    ApiKeyMissing,
    ApiRequestFailed(String),
    ResponseParseError(String),
    /// Retry after this many seconds.
    RateLimited(u64),
    FrameExtractionFailed(String),
    GridCreationFailed(String),
    Cancelled,
    VideoTooShort,
    LowConfidence,
}

/// The message of a `ScannerError`.
pub open spec fn scanner_error_text(e: ScannerError) -> Seq<char> {
    match e {
        ScannerError::ApiKeyMissing => "API key not configured"@,
        ScannerError::ApiRequestFailed(s) => "API request failed: "@ + s@,
        ScannerError::ResponseParseError(s) => "API response parsing failed: "@ + s@,
        ScannerError::RateLimited(n) => "Rate limited: retry after "@ + decimal(n as nat)
            + " seconds"@,
        ScannerError::FrameExtractionFailed(s) => "Frame extraction failed: "@ + s@,
        ScannerError::GridCreationFailed(s) => "Grid creation failed: "@ + s@,
        ScannerError::Cancelled => "Scan cancelled"@,
        ScannerError::VideoTooShort => "Video too short for scanning"@,
        ScannerError::LowConfidence => "Confidence below threshold"@,
    }
}

impl ScannerError {
    /// The message shown for the error.
    pub fn message(&self) -> (r: String)
        ensures
            r@ == scanner_error_text(*self),
    {
        match self {
            ScannerError::ApiKeyMissing => String::from_str("API key not configured"),
            ScannerError::ApiRequestFailed(s) => prefixed("API request failed: ", s),
            ScannerError::ResponseParseError(s) => prefixed("API response parsing failed: ", s),
            ScannerError::RateLimited(n) => {
                let mut r = String::from_str("Rate limited: retry after ");
                let d = decimal_string(*n);
                r.append(d.as_str());
                r.append(" seconds");
                r
            },
            ScannerError::FrameExtractionFailed(s) => prefixed("Frame extraction failed: ", s),
            ScannerError::GridCreationFailed(s) => prefixed("Grid creation failed: ", s),
            ScannerError::Cancelled => String::from_str("Scan cancelled"),
            ScannerError::VideoTooShort => String::from_str("Video too short for scanning"),
            ScannerError::LowConfidence => String::from_str("Confidence below threshold"),
        }
    }

    /// The seconds a rate limit asks to wait.
    pub fn retry_after_secs(&self) -> (r: Option<u64>)
        ensures
            r == match self {
                ScannerError::RateLimited(n) => Some(*n),
                _ => None::<u64>,
            },
    {
        match self {
            ScannerError::RateLimited(n) => Some(*n),
            _ => None,
        }
    }
}

/// Errors of the user interface.
#[derive(Debug)]
pub enum UiError {
    WindowCreationFailed(String),
    RendererError(String),
    FontLoadFailed(String),
    ThemeError(String),
}

/// The message of a `UiError`.
pub open spec fn ui_error_text(e: UiError) -> Seq<char> {
    match e {
        UiError::WindowCreationFailed(s) => "Window creation failed: "@ + s@,
        UiError::RendererError(s) => "Renderer error: "@ + s@,
        UiError::FontLoadFailed(s) => "Font loading failed: "@ + s@,
        UiError::ThemeError(s) => "Theme error: "@ + s@,
    }
}

impl UiError {
    /// The message shown for the error.
    pub fn message(&self) -> (r: String)
        ensures
            r@ == ui_error_text(*self),
    {
        match self {
            UiError::WindowCreationFailed(s) => prefixed("Window creation failed: ", s),
            UiError::RendererError(s) => prefixed("Renderer error: ", s),
            UiError::FontLoadFailed(s) => prefixed("Font loading failed: ", s),
            UiError::ThemeError(s) => prefixed("Theme error: ", s),
        }
    }
}

/// Errors of the configuration.
#[derive(Debug)]
pub enum ConfigError {
    NotFound(String),
    ParseError(String),
    ValidationError(String),
    PermissionDenied(String),
}

/// The message of a `ConfigError`.
pub open spec fn config_error_text(e: ConfigError) -> Seq<char> {
    match e {
        ConfigError::NotFound(s) => "Config file not found: "@ + s@,
        ConfigError::ParseError(s) => "Config parse error: "@ + s@,
        ConfigError::ValidationError(s) => "Config validation failed: "@ + s@,
        ConfigError::PermissionDenied(s) => "Permission denied: "@ + s@,
    }
}

impl ConfigError {
    /// The message shown for the error.
    pub fn message(&self) -> (r: String)
        ensures
            r@ == config_error_text(*self),
    {
        match self {
            ConfigError::NotFound(s) => prefixed("Config file not found: ", s),
            ConfigError::ParseError(s) => prefixed("Config parse error: ", s),
            ConfigError::ValidationError(s) => prefixed("Config validation failed: ", s),
            ConfigError::PermissionDenied(s) => prefixed("Permission denied: ", s),
        }
    }
}

/// The application's errors. The errors of I/O, JSON, the network and
/// images are held by their messages.
#[derive(Debug)]
pub enum OtipError {
    Video(VideoError),
    Scanner(ScannerError),
    Ui(UiError),
    Config(ConfigError),
    Io(String),
    Serde(String),
    Network(String),
    Image(String),
    Channel(String),
    InvalidState(String),
    NotFound(String),
    Timeout(String),
    Cancelled,
    Other(String),
}

/// The message of an `OtipError`.
pub open spec fn otip_error_text(e: OtipError) -> Seq<char> {
    match e {
        OtipError::Video(v) => "Video error: "@ + video_error_text(v),
        OtipError::Scanner(v) => "AI/Scanner error: "@ + scanner_error_text(v),
        OtipError::Ui(v) => "UI error: "@ + ui_error_text(v),
        OtipError::Config(v) => "Configuration error: "@ + config_error_text(v),
        OtipError::Io(s) => "IO error: "@ + s@,
        OtipError::Serde(s) => "Serialization error: "@ + s@,
        OtipError::Network(s) => "Network error: "@ + s@,
        OtipError::Image(s) => "Image processing error: "@ + s@,
        OtipError::Channel(s) => "Channel error: "@ + s@,
        OtipError::InvalidState(s) => "Invalid state: "@ + s@,
        OtipError::NotFound(s) => "Not found: "@ + s@,
        OtipError::Timeout(s) => "Timeout: "@ + s@,
        OtipError::Cancelled => "Cancelled"@,
        OtipError::Other(s) => "Other: "@ + s@,
    }
}

/// `prefix` followed by the message `inner`.
fn wrapped(prefix: &str, inner: String) -> (r: String)
    ensures
        r@ == prefix@ + inner@,
{
    let mut r = String::from_str(prefix);
    r.append(inner.as_str());
    r
}

impl OtipError {
    /// The message shown for the error.
    pub fn message(&self) -> (r: String)
        ensures
            r@ == otip_error_text(*self),
    {
        match self {
            OtipError::Video(v) => wrapped("Video error: ", v.message()),
            OtipError::Scanner(v) => wrapped("AI/Scanner error: ", v.message()),
            OtipError::Ui(v) => wrapped("UI error: ", v.message()),
            OtipError::Config(v) => wrapped("Configuration error: ", v.message()),
            OtipError::Io(s) => prefixed("IO error: ", s),
            OtipError::Serde(s) => prefixed("Serialization error: ", s),
            OtipError::Network(s) => prefixed("Network error: ", s),
            OtipError::Image(s) => prefixed("Image processing error: ", s),
            OtipError::Channel(s) => prefixed("Channel error: ", s),
            OtipError::InvalidState(s) => prefixed("Invalid state: ", s),
            OtipError::NotFound(s) => prefixed("Not found: ", s),
            OtipError::Timeout(s) => prefixed("Timeout: ", s),
            OtipError::Cancelled => String::from_str("Cancelled"),
            OtipError::Other(s) => prefixed("Other: ", s),
        }
    }
}

impl From<VideoError> for OtipError {
    fn from(e: VideoError) -> (r: Self) {
        OtipError::Video(e)
    }
}

impl vstd::std_specs::convert::FromSpecImpl<VideoError> for OtipError {
    open spec fn obeys_from_spec() -> bool {
        true
    }

    open spec fn from_spec(e: VideoError) -> Self {
        OtipError::Video(e)
    }
}

impl From<ScannerError> for OtipError {
    fn from(e: ScannerError) -> (r: Self) {
        OtipError::Scanner(e)
    }
}

impl vstd::std_specs::convert::FromSpecImpl<ScannerError> for OtipError {
    open spec fn obeys_from_spec() -> bool {
        true
    }

    open spec fn from_spec(e: ScannerError) -> Self {
        OtipError::Scanner(e)
    }
}

impl From<UiError> for OtipError {
    fn from(e: UiError) -> (r: Self) {
        OtipError::Ui(e)
    }
}

impl vstd::std_specs::convert::FromSpecImpl<UiError> for OtipError {
    open spec fn obeys_from_spec() -> bool {
        true
    }

    open spec fn from_spec(e: UiError) -> Self {
        OtipError::Ui(e)
    }
}

impl From<ConfigError> for OtipError {
    fn from(e: ConfigError) -> (r: Self) {
        OtipError::Config(e)
    }
}

impl vstd::std_specs::convert::FromSpecImpl<ConfigError> for OtipError {
    open spec fn obeys_from_spec() -> bool {
        true
    }

    open spec fn from_spec(e: ConfigError) -> Self {
        OtipError::Config(e)
    }
}

} // verus!
