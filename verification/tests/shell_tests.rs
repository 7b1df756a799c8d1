use otip::config::AppConfig;
use otip::domain::{PlaybackMode, ScanSegment, TimelineSegment, TimelineSegmentType, VideoId};
use otip::shell::{Message, OtipApp, Screen, UiEffect};
use otip::state::{BackendEvent, UiCommand};

fn explicit(start_ms: u64, end_ms: u64) -> TimelineSegment {
    TimelineSegment {
        start_ms,
        end_ms,
        segment_type: TimelineSegmentType::ExplicitContent,
        scan_segment: Some(ScanSegment {
            start_ms,
            end_ms,
            is_explicit: true,
            confidence_pct: 90,
            quadrant_flags: None,
        }),
    }
}

fn app() -> OtipApp {
    OtipApp::new(AppConfig::with_cache_dir("/tmp/otip".to_string()))
}

fn opened(id: VideoId) -> OtipApp {
    let mut a = app();
    assert!(matches!(a.update(Message::VideoOpened(id, "Clip".to_string(), 100_000)), UiEffect::Nothing));
    a
}

#[test]
fn fresh_player_shows_welcome() {
    let a = app();
    assert_eq!(a.title(), "Otip - Smart Video Player");
    assert_eq!(a.screen(), Screen::Welcome);
    assert_eq!(a.mode_selection.selected_mode(), PlaybackMode::SafeMode);
    assert_eq!(a.pending_name(), "Unknown");
}

#[test]
fn choosing_and_confirming_a_file() {
    let mut a = app();
    assert!(matches!(a.update(Message::OpenFile), UiEffect::PickFile));
    a.update(Message::FileSelected(Some("/v/Holiday.trip.mp4".to_string())));
    assert_eq!(a.screen(), Screen::ModeSelection);
    assert_eq!(a.pending_name(), "Holiday.trip");
    a.update(Message::ModeSelected(PlaybackMode::AutoSkip));
    assert_eq!(a.mode_selection.selected_mode(), PlaybackMode::AutoSkip);
    match a.update(Message::ConfirmMode) {
        UiEffect::Send(UiCommand::OpenVideo { path, mode }) => {
            assert_eq!(path, "/v/Holiday.trip.mp4");
            assert_eq!(mode, PlaybackMode::AutoSkip);
        },
        other => panic!("unexpected effect {:?}", other),
    }
    assert_eq!(a.screen(), Screen::Welcome);
    a.update(Message::FileSelected(None));
    assert_eq!(a.screen(), Screen::Welcome);
}

#[test]
fn pending_name_edge_cases() {
    let mut a = app();
    a.update(Message::FileSelected(Some("/v/".to_string())));
    assert_eq!(a.pending_name(), "Unknown");
    a.update(Message::FileSelected(Some("/v/.hidden".to_string())));
    assert_eq!(a.pending_name(), ".hidden");
    a.update(Message::CancelMode);
    assert_eq!(a.screen(), Screen::Welcome);
}

#[test]
fn opened_video_skips_flagged_zone() {
    let id = VideoId::from_bits(11);
    let mut a = opened(id);
    assert_eq!(a.title(), "Otip - Clip");
    assert_eq!(a.screen(), Screen::Player);
    a.update(Message::NewScanSegment(explicit(10_000, 12_000)));
    match a.update(Message::PositionUpdate(11_000, 100_000)) {
        UiEffect::Send(UiCommand::SkipSegment(v, from, to)) => {
            assert_eq!(v, id);
            assert_eq!(from, 11_000);
            assert_eq!(to, 13_000);
        },
        other => panic!("unexpected effect {:?}", other),
    }
    // dragging the timeline suppresses auto-skip
    a.update(Message::TimelineSeekStart);
    assert!(matches!(a.update(Message::PositionUpdate(11_000, 100_000)), UiEffect::Nothing));
    match a.update(Message::TimelineSeekEnd(20_000)) {
        UiEffect::Send(UiCommand::Seek(v, p)) => {
            assert_eq!(v, id);
            assert_eq!(p, 20_000);
        },
        other => panic!("unexpected effect {:?}", other),
    }
    assert!(a.state.is_seeking);
}

#[test]
fn scan_completion_in_safe_mode_starts_playback() {
    let id = VideoId::from_bits(12);
    let mut a = opened(id);
    a.state.is_scanning = true;
    match a.update(Message::ScanComplete(vec![explicit(1_000, 2_000), explicit(5_000, 6_000)])) {
        UiEffect::PlayAfterScan(v) => assert_eq!(v, id),
        other => panic!("unexpected effect {:?}", other),
    }
    assert!(!a.state.is_scanning);
    assert_eq!(a.state.timeline.as_ref().unwrap().get_all_segments().len(), 2);
    a.update(Message::ModeSelected(PlaybackMode::InstantPlay));
    assert!(matches!(a.update(Message::ScanComplete(Vec::new())), UiEffect::Nothing));
}

#[test]
fn saving_gemini_settings_trims_the_key() {
    let mut a = app();
    a.update(Message::ApiKeyChanged("  my-key  ".to_string()));
    a.update(Message::GeminiModelChanged("gemini-2.0-flash".to_string()));
    assert!(matches!(a.update(Message::SaveGeminiConfig), UiEffect::ApplyGeminiConfig));
    assert_eq!(a.config.gemini_api_key.as_deref(), Some("my-key"));
    assert_eq!(a.config.preferences.api_key.as_deref(), Some("my-key"));
    assert_eq!(a.state.preferences.api_key.as_deref(), Some("my-key"));
    assert_eq!(a.config.gemini_model, "gemini-2.0-flash");
    a.update(Message::ApiKeyChanged("   ".to_string()));
    a.update(Message::SaveGeminiConfig);
    assert!(a.config.gemini_api_key.is_none());
    a.update(Message::GeminiConfigSaved(Err("disk full".to_string())));
    assert_eq!(a.state.scan_error.as_deref(), Some("disk full"));
    a.update(Message::GeminiConfigSaved(Ok(())));
    assert!(a.state.scan_error.is_none());
}

#[test]
fn ticks_settings_and_shutdown() {
    let mut a = app();
    assert!(matches!(a.update(Message::Tick), UiEffect::Nothing));
    a.update(Message::ShowSettings(true));
    assert_eq!(a.screen(), Screen::Settings);
    a.update(Message::TogglePlaylist);
    assert!(a.state.show_playlist);
    assert!(matches!(a.update(Message::Shutdown), UiEffect::Exit));
    let id = VideoId::from_bits(13);
    let mut b = opened(id);
    assert!(matches!(b.update(Message::Tick), UiEffect::PollEngine(v) if v == id));
    assert!(matches!(b.update(Message::Stop), UiEffect::Send(UiCommand::Stop(v)) if v == id));
}

#[test]
fn backend_errors_are_shown() {
    let mut a = app();
    let ev = BackendEvent::VideoOpenFailed { path: "x.mp4".to_string(), error: "boom".to_string() };
    assert!(matches!(a.update(Message::BackendEvent(ev)), UiEffect::Nothing));
    assert_eq!(a.state.scan_error.as_deref(), Some("Failed to open video: boom"));
    let ev = BackendEvent::Error { video_id: None, message: "engine lost".to_string() };
    a.update(Message::BackendEvent(ev));
    assert_eq!(a.state.scan_error.as_deref(), Some("engine lost"));
    a.update(Message::VideoOpenFailed("bad codec".to_string()));
    assert_eq!(a.state.scan_error.as_deref(), Some("Failed to open video: bad codec"));
}
