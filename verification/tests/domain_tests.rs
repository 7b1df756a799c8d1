use otip::domain::{PlaybackMode, QuadrantFlags, Theme, VideoId, VideoThumbnail};
use otip::error::{ConfigError, OtipError, ScannerError, UiError, VideoError};
use otip::engine::{EngineConfig, EngineType, VideoEngineFactory};
use otip::clock::{format_duration, format_duration_short};
use otip::ui::{masked_api_key, GeminiModelOpt, ModeSelectionScreen, OtipPalette, PaletteRole, TimelineWidget};
use otip::domain::TimelineSegmentType;

#[test]
fn test_quadrant_flags() {
    let flags = QuadrantFlags::from_quadrant_numbers(&[1, 3]);
    assert!(flags.top_left);
    assert!(!flags.top_right);
    assert!(flags.bottom_left);
    assert!(!flags.bottom_right);
    assert_eq!(flags.explicit_count(), 2);
}

#[test]
fn quadrant_flags_ignore_unknown_numbers() {
    let flags = QuadrantFlags::from_quadrant_numbers(&[0, 5, 4, 4]);
    assert!(flags.bottom_right && flags.any_explicit());
    assert_eq!(flags.explicit_count(), 1);
    assert!(!QuadrantFlags::new().any_explicit());
}

#[test]
fn labels_and_messages() {
    assert_eq!(PlaybackMode::AutoSkip.label(), "Auto-Skip");
    assert_eq!(PlaybackMode::default_mode(), PlaybackMode::SafeMode);
    assert_eq!(Theme::Dark.label(), "Dark");
    assert_eq!(ScannerError::RateLimited(30).message(), "Rate limited: retry after 30 seconds");
    assert_eq!(ScannerError::ApiKeyMissing.message(), "API key not configured");
    assert_eq!(VideoError::Mpv("boom".into()).message(), "MPV error: boom");
    assert_eq!(UiError::ThemeError("x".into()).message(), "Theme error: x");
    assert_eq!(ConfigError::NotFound("c.toml".into()).message(), "Config file not found: c.toml");
}

#[test]
fn durations_format_as_clock() {
    assert_eq!(format_duration_short(0), "0:00");
    assert_eq!(format_duration_short(75_999), "1:15");
    assert_eq!(format_duration_short(3_723_000), "1:02:03");
    assert_eq!(format_duration(75_000), "01:15");
    assert_eq!(format_duration(3_723_000), "01:02:03");
}

#[test]
fn engines_and_widgets() {
    assert!(matches!(
        VideoEngineFactory::create(EngineType::Mpv),
        Err(VideoError::InitFailed(m)) if m == "MPV feature not enabled"
    ));
    assert!(VideoEngineFactory::create_best().is_none());
    let c = EngineConfig::default();
    assert_eq!(c.frame_extraction_resolution, (320, 180));
    assert_eq!(c.cache_duration_ms, 10_000);
    let mut screen = ModeSelectionScreen::new(PlaybackMode::SafeMode);
    screen.set_selected_mode(PlaybackMode::InstantPlay);
    assert_eq!(screen.selected_mode(), PlaybackMode::InstantPlay);
    assert_eq!(GeminiModelOpt::from_id("gemini-1.5-flash-latest"), GeminiModelOpt::Flash37);
    assert_eq!(GeminiModelOpt::from_id("gemini-3.5-flash-lite").id(), "gemini-3.5-flash-lite");
    assert_eq!(GeminiModelOpt::all(), [GeminiModelOpt::Flash37, GeminiModelOpt::FlashLite35]);
    assert_eq!(GeminiModelOpt::FlashLite35.to_string(), "Gemini 3.5 Flash Lite");
    let mut w = TimelineWidget::new();
    w.clear_cache();
    assert_eq!(
        OtipPalette::timeline_role(TimelineSegmentType::ExplicitContent),
        PaletteRole::TimelineExplicit
    );
    let thumb = VideoThumbnail::new(vec![1, 2], 3, 4);
    assert_eq!((thumb.data, thumb.width, thumb.height), (vec![1, 2], 3, 4));
    assert_ne!(VideoId::new(), VideoId::from_bits(0).clone());
}

#[test]
fn api_key_masking() {
    assert_eq!(masked_api_key("", false), "");
    assert_eq!(masked_api_key("abcdefghijkl", true), "abcdefghijkl");
    assert_eq!(masked_api_key("abcdefghijkl", false), "abcd…ijkl");
    assert_eq!(masked_api_key("short", false), "••••••••");
}

#[test]
fn otip_error_messages_wrap_their_kind() {
    let e: OtipError = VideoError::NoVideoTrack.into();
    assert!(matches!(e, OtipError::Video(VideoError::NoVideoTrack)));
    assert_eq!(e.message(), "Video error: No video track found");
    let e: OtipError = ScannerError::RateLimited(30).into();
    assert_eq!(e.message(), "AI/Scanner error: Rate limited: retry after 30 seconds");
    let e: OtipError = ConfigError::NotFound("x.toml".to_string()).into();
    assert_eq!(e.message(), "Configuration error: Config file not found: x.toml");
    let e: OtipError = UiError::ThemeError("dark".to_string()).into();
    assert_eq!(e.message(), "UI error: Theme error: dark");
    assert_eq!(OtipError::Io("file not found".to_string()).message(), "IO error: file not found");
    assert_eq!(OtipError::Cancelled.message(), "Cancelled");
    assert_eq!(OtipError::Timeout("5s".to_string()).message(), "Timeout: 5s");
}

#[test]
fn new_video_ids_are_version_4_uuids() {
    for _ in 0..20 {
        let id = VideoId::new();
        assert_eq!((id.uuid >> 76) & 0xF, 4);
        assert_eq!((id.uuid >> 62) & 0x3, 2);
    }
    assert_ne!(VideoId::new(), VideoId::new());
}

#[test]
fn defaults_match_new() {
    assert_eq!(QuadrantFlags::default(), QuadrantFlags::new());
    assert!(!QuadrantFlags::default().any_explicit());
    assert_eq!(PlaybackMode::default(), PlaybackMode::SafeMode);
    assert_eq!((VideoId::default().uuid >> 76) & 0xF, 4);
}
