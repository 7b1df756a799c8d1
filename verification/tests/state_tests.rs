use otip::config::UserPreferences;
use otip::domain::{
    PlaybackMode, PlaybackState, ScanProgress, ScanSegment, TimelineSegment, TimelineSegmentType,
    VideoId,
};
use otip::manager::TimelineManager;
use otip::state::{AppState, UiCommand};
use otip::timeline::Timeline;

fn explicit(start_ms: u64, end_ms: u64) -> TimelineSegment {
    TimelineSegment {
        start_ms,
        end_ms,
        segment_type: TimelineSegmentType::ExplicitContent,
        scan_segment: Some(ScanSegment {
            start_ms,
            end_ms,
            is_explicit: true,
            confidence_pct: 90,
            quadrant_flags: None,
        }),
    }
}

fn playing_state(id: VideoId) -> AppState {
    let mut s = AppState::new(UserPreferences::default());
    s.current_video = Some(id);
    let mut t = Timeline::new(id, 100_000);
    t.add_segment(explicit(10_000, 12_000));
    s.set_timeline(t);
    s
}

#[test]
fn app_state_starts_stopped_with_default_mode() {
    let s = AppState::new(UserPreferences::default());
    assert!(s.current_video.is_none());
    assert_eq!(s.playback_state, PlaybackState::Stopped);
    assert_eq!(s.selected_mode, PlaybackMode::SafeMode);
    assert!(!s.show_mode_selection);
    assert_eq!(s.gemini_model, "gemini-3.7-flash");
    assert_eq!(s.gemini_api_key, "");
    assert_eq!(s.masked_api_key(), "");
}

#[test]
fn open_then_confirm_sends_open_command() {
    let mut s = AppState::new(UserPreferences::default());
    s.open_video("/videos/a.mp4".to_string());
    assert!(s.show_mode_selection);
    assert_eq!(s.pending_video_path.as_deref(), Some("/videos/a.mp4"));
    s.selected_mode = PlaybackMode::AutoSkip;
    match s.confirm_mode_selection() {
        Some(UiCommand::OpenVideo { path, mode }) => {
            assert_eq!(path, "/videos/a.mp4");
            assert_eq!(mode, PlaybackMode::AutoSkip);
        },
        other => panic!("unexpected command {:?}", other),
    }
    assert!(!s.show_mode_selection);
    assert!(s.pending_video_path.is_none());
    // nothing pending any more
    assert!(s.confirm_mode_selection().is_none());
}

#[test]
fn open_then_cancel_leaves_nothing_pending() {
    let mut s = AppState::new(UserPreferences::default());
    s.open_video("b.mkv".to_string());
    s.cancel_mode_selection();
    assert!(!s.show_mode_selection);
    assert!(s.pending_video_path.is_none());
    assert!(s.confirm_mode_selection().is_none());
}

#[test]
fn position_in_skip_zone_orders_skip() {
    let id = VideoId::from_bits(7);
    let mut s = playing_state(id);
    // default look-ahead 30 s gives a 1000 ms margin: zone 9000..13000
    match s.update_position(11_000, 100_000) {
        Some(UiCommand::SkipSegment(v, from, to)) => {
            assert_eq!(v, id);
            assert_eq!(from, 11_000);
            assert_eq!(to, 13_000);
        },
        other => panic!("unexpected command {:?}", other),
    }
    assert_eq!(s.position_ms, 11_000);
    assert_eq!(s.duration_ms, 100_000);
    assert!(s.update_position(9_000, 100_000).is_some());
    assert!(s.update_position(8_999, 100_000).is_none());
    assert!(s.update_position(13_000, 100_000).is_none());
}

#[test]
fn no_skip_while_seeking_or_disabled() {
    let id = VideoId::from_bits(8);
    let mut s = playing_state(id);
    match s.seek(11_000) {
        Some(UiCommand::Seek(v, p)) => {
            assert_eq!(v, id);
            assert_eq!(p, 11_000);
        },
        other => panic!("unexpected command {:?}", other),
    }
    assert!(s.is_seeking);
    assert!(s.update_position(11_000, 100_000).is_none());

    let mut s2 = playing_state(id);
    s2.preferences.auto_skip_enabled = false;
    assert!(s2.update_position(11_000, 100_000).is_none());
}

#[test]
fn toggles_need_an_open_video() {
    let mut s = AppState::new(UserPreferences::default());
    assert!(s.toggle_playback().is_none());
    assert!(s.seek(5_000).is_none());
    assert!(!s.is_seeking);
    assert!(s.toggle_fullscreen().is_none());
    assert!(s.is_fullscreen);
    assert!(s.toggle_fullscreen().is_none());
    assert!(!s.is_fullscreen);

    let id = VideoId::from_bits(9);
    s.current_video = Some(id);
    assert!(matches!(s.toggle_playback(), Some(UiCommand::Play(v)) if v == id));
    s.update_playback_state(PlaybackState::Playing);
    assert!(matches!(s.toggle_playback(), Some(UiCommand::Pause(v)) if v == id));
    assert!(matches!(s.toggle_fullscreen(), Some(UiCommand::ToggleFullscreen(v)) if v == id));
}

#[test]
fn scan_progress_marks_scanning_until_complete() {
    let mut s = AppState::new(UserPreferences::default());
    let mut p = ScanProgress {
        video_id: VideoId::from_bits(1),
        scanned_ms: 50_000,
        total_ms: 100_000,
        segments_found: 10,
        explicit_segments: 2,
        current_ms: 50_000,
        is_complete: false,
        error: None,
    };
    s.update_scan_progress(p.clone());
    assert!(s.is_scanning);
    p.is_complete = true;
    s.update_scan_progress(p);
    assert!(!s.is_scanning);
    assert!(s.scan_progress.as_ref().unwrap().is_complete);
}

#[test]
fn timeline_segment_added_only_when_shown() {
    let mut s = AppState::new(UserPreferences::default());
    s.add_timeline_segment(explicit(1_000, 2_000));
    assert!(s.timeline.is_none());
    s.set_timeline(Timeline::new(VideoId::from_bits(3), 60_000));
    s.add_timeline_segment(explicit(1_000, 2_000));
    let t = s.timeline.as_ref().unwrap();
    assert_eq!(t.get_all_segments().len(), 1);
    assert_eq!(t.get_segment_at(1_500).unwrap().end_ms, 2_000);
}

#[test]
fn gemini_config_and_masking() {
    let mut s = AppState::new(UserPreferences::default());
    s.set_gemini_config(Some("abcd1234efgh5678".to_string()), "gemini-2.0-flash".to_string());
    assert_eq!(s.gemini_model, "gemini-2.0-flash");
    assert_eq!(s.masked_api_key(), "abcd…5678");
    s.gemini_api_key_visible = true;
    assert_eq!(s.masked_api_key(), "abcd1234efgh5678");
    s.set_gemini_config(None, "m".to_string());
    assert_eq!(s.gemini_api_key, "");
}

#[test]
fn app_state_format_duration() {
    assert_eq!(AppState::format_duration(65_000), "01:05");
    assert_eq!(AppState::format_duration(3_725_000), "01:02:05");
}

#[test]
fn manager_create_get_remove() {
    let mut m = TimelineManager::new();
    let a = VideoId::from_bits(1);
    let b = VideoId::from_bits(2);
    assert!(m.get_timeline(a).is_none());
    m.create_timeline(a, 10_000);
    m.create_timeline(b, 20_000);
    assert_eq!(m.get_timeline(a).unwrap().duration(), 10_000);
    assert_eq!(m.get_timeline(b).unwrap().video_id(), b);
    // creating again replaces
    m.create_timeline(a, 30_000);
    assert_eq!(m.get_timeline(a).unwrap().duration(), 30_000);
    assert!(m.get_timeline(a).unwrap().get_all_segments().is_empty());
    m.remove_timeline(a);
    assert!(m.get_timeline(a).is_none());
    assert_eq!(m.get_timeline(b).unwrap().duration(), 20_000);
    m.remove_timeline(a);
    assert!(m.get_timeline(b).is_some());
    let d = TimelineManager::default();
    assert!(d.get_timeline(b).is_none());
}
