use std::time::Duration;

use otip::domain::PlaybackMode;
use otip::player::{
    build_subtitle_options, chapter_segments, current_chapter_title, is_playable_url,
    stream_display_name, ChapterInfo, RenderQuality, SubTrackInfo, SubtitleOption,
};
use otip::session::{auto_skip, AppModel, AppScreen, UiAction, UiEvent};

fn ms(d: Duration) -> u64 {
    d.as_millis() as u64
}

fn test_chapters() -> Vec<ChapterInfo> {
    vec![
        ChapterInfo { title: "Intro".into(), time_ms: ms(Duration::from_secs(0)) },
        ChapterInfo { title: "Middle".into(), time_ms: ms(Duration::from_secs(60)) },
        ChapterInfo { title: "End".into(), time_ms: ms(Duration::from_secs(120)) },
    ]
}

fn seg(a: u64, b: u64) -> (Duration, Duration) {
    (Duration::from_millis(a), Duration::from_millis(b))
}

#[test]
fn chapter_title_tracks_position() {
    let chapters = test_chapters();
    assert_eq!(current_chapter_title(&chapters, ms(Duration::from_secs(0))), Some("Intro"));
    assert_eq!(current_chapter_title(&chapters, ms(Duration::from_secs(59))), Some("Intro"));
    assert_eq!(current_chapter_title(&chapters, ms(Duration::from_secs(60))), Some("Middle"));
    assert_eq!(current_chapter_title(&chapters, ms(Duration::from_secs(999))), Some("End"));
    assert_eq!(current_chapter_title(&vec![], ms(Duration::from_secs(10))), None);
}

#[test]
fn chapter_segments_cover_duration_without_gaps() {
    let duration = Duration::from_secs(180);
    let segments: Vec<(Duration, Duration)> =
        chapter_segments(&test_chapters(), ms(duration)).into_iter().map(|(a, b)| seg(a, b)).collect();
    assert_eq!(segments.len(), 3);
    assert_eq!(segments[0], (Duration::from_secs(0), Duration::from_secs(60)));
    assert_eq!(segments[2], (Duration::from_secs(120), duration));
    for pair in segments.windows(2) {
        assert_eq!(pair[0].1, pair[1].0);
    }
    assert!(chapter_segments(&vec![], ms(duration)).is_empty());
    assert!(chapter_segments(&test_chapters(), 0).is_empty());
}

#[test]
fn chapter_segments_clip_unsorted_and_repeated_starts() {
    let chapters = vec![
        ChapterInfo { title: "b".into(), time_ms: 50 },
        ChapterInfo { title: "a".into(), time_ms: 20 },
        ChapterInfo { title: "c".into(), time_ms: 50 },
        ChapterInfo { title: "late".into(), time_ms: 500 },
    ];
    assert_eq!(chapter_segments(&chapters, 100), vec![(0, 20), (20, 50), (50, 100)]);
}

fn test_sub_tracks() -> Vec<SubTrackInfo> {
    vec![
        SubTrackInfo { id: 1, title: "English".into(), lang: "en".into() },
        SubTrackInfo { id: 2, title: "Français".into(), lang: "fr".into() },
    ]
}

#[test]
fn subtitle_options_list_tracks_with_off_first() {
    let options = build_subtitle_options(&test_sub_tracks());
    assert_eq!(options.len(), 3);
    assert_eq!(options[0], SubtitleOption::Off);
    assert_eq!(options[1], SubtitleOption::Track { id: 1, label: "English [en]".into() });
    assert_eq!(options[2].to_string(), "Français [fr]");
    assert_eq!(build_subtitle_options(&vec![]), vec![SubtitleOption::Off]);
}

#[test]
fn subtitle_labels_skip_undetermined_language() {
    let options = build_subtitle_options(&vec![
        SubTrackInfo { id: 4, title: "Commentary".into(), lang: "und".into() },
        SubTrackInfo { id: 5, title: "Plain".into(), lang: "".into() },
    ]);
    assert_eq!(options[1].to_string(), "Commentary");
    assert_eq!(options[2].to_string(), "Plain");
}

#[test]
fn stream_url_validation() {
    assert!(is_playable_url("https://example.com/video.mp4"));
    assert!(is_playable_url("http://example.com/live.m3u8"));
    assert!(is_playable_url("  https://example.com/v.mpd  "));
    assert!(!is_playable_url(""));
    assert!(!is_playable_url("ftp://example.com/video.mp4"));
    assert!(!is_playable_url("/home/user/video.mp4"));
    assert!(!is_playable_url("https://x"));
}

#[test]
fn stream_display_name_uses_host() {
    assert_eq!(
        stream_display_name("https://cdn.example.com/live/playlist.m3u8"),
        "cdn.example.com/live/playlist.m3u8"
    );
    assert_eq!(stream_display_name("http://example.com"), "example.com");
    let long = format!("https://example.com/{}", "a".repeat(100));
    let shown = stream_display_name(&long);
    assert!(shown.ends_with('…'));
    assert_eq!(shown.chars().count(), 49);
}

#[test]
fn stream_display_name_without_host() {
    assert_eq!(stream_display_name("https:///path"), "Network stream");
    assert_eq!(stream_display_name("   "), "Network stream");
}

#[test]
fn test_app_creation() {
    let _ = AppModel::new();
}

#[test]
fn neighbor_video_navigation() {
    let mut app = AppModel::new();
    app.library_videos = vec!["a.mp4".into(), "b.mp4".into(), "c.mp4".into()];
    app.selected_video_path = Some("b.mp4".into());
    assert_eq!(app.neighbor_video(1), Some("c.mp4".into()));
    assert_eq!(app.neighbor_video(-1), Some("a.mp4".into()));
    app.selected_video_path = Some("c.mp4".into());
    assert_eq!(app.neighbor_video(1), None);
    app.selected_video_path = Some("a.mp4".into());
    assert_eq!(app.neighbor_video(-1), None);
    app.selected_video_path = Some("z.mp4".into());
    assert_eq!(app.neighbor_video(1), None);
    app.selected_video_path = None;
    assert_eq!(app.neighbor_video(1), None);
    app.library_videos.clear();
    assert_eq!(app.neighbor_video(1), None);
}

#[test]
fn toggle_loop_flips_state() {
    let mut app = AppModel::new();
    assert!(!app.is_looping);
    let _ = app.update(UiEvent::ToggleLoop);
    assert!(app.is_looping);
    let _ = app.update(UiEvent::ToggleLoop);
    assert!(!app.is_looping);
}

#[test]
fn captions_and_settings_toggle() {
    let mut app = AppModel::new();
    assert!(app.show_subs);
    let _ = app.update(UiEvent::ToggleCaptions);
    assert!(!app.show_subs);
    assert!(!app.settings_open);
    let _ = app.update(UiEvent::ToggleSettings);
    assert!(app.settings_open);
}

#[test]
fn ai_scan_progress_lifecycle() {
    let mut app = AppModel::new();
    assert!(!app.scan_running);
    let _ = app.update(UiEvent::AiScanProgress("Sending batch 1/4 to AI...".into()));
    assert!(app.scan_running);
    assert_eq!(app.scan_status, "Sending batch 1/4 to AI...");
    let _ = app.update(UiEvent::AiScanProgress("done".into()));
    assert!(app.scan_running);
    let _ = app.update(UiEvent::AiScanComplete(vec![]));
    assert!(!app.scan_running);
    assert!(app.scan_status.is_empty());
    assert_eq!(app.status, "AI Scan Complete: Found 0 skip segments!");
}

#[test]
fn quality_selection_applies() {
    let mut app = AppModel::new();
    assert_eq!(app.render_quality, RenderQuality::P360);
    let _ = app.update(UiEvent::QualitySelected(RenderQuality::P720));
    assert_eq!(app.render_quality, RenderQuality::P720);
    assert_eq!(RenderQuality::P720.dimensions(), (1280, 720));
    assert_eq!(RenderQuality::P540.label(), "540p");
}

#[test]
fn subtitle_selection_drives_cc_state() {
    let mut app = AppModel::new();
    let _ = app.update(UiEvent::SubTracksLoaded(test_sub_tracks()));
    assert_eq!(app.selected_subtitle, SubtitleOption::Track { id: 1, label: "English [en]".into() });
    let _ = app.update(UiEvent::SubtitleSelected(SubtitleOption::Off));
    assert!(!app.show_subs);
    assert_eq!(app.selected_subtitle, SubtitleOption::Off);
    let _ = app.update(UiEvent::ToggleCaptions);
    assert!(app.show_subs);
    assert_eq!(app.selected_subtitle, SubtitleOption::Track { id: 1, label: "English [en]".into() });
}

#[test]
fn mode_menu_opens_and_closes_on_select() {
    let mut app = AppModel::new();
    assert!(!app.mode_menu_open);
    let _ = app.update(UiEvent::ToggleModeMenu);
    assert!(app.mode_menu_open);
    let _ = app.update(UiEvent::SetPlaybackMode(PlaybackMode::AutoSkip));
    assert_eq!(app.playback_mode, PlaybackMode::AutoSkip);
    assert!(!app.mode_menu_open);
}

#[test]
fn popups_close_each_other() {
    let mut app = AppModel::new();
    let _ = app.update(UiEvent::ToggleSettings);
    let _ = app.update(UiEvent::ToggleAiPanel);
    assert!(app.ai_panel_open && !app.settings_open && !app.mode_menu_open);
    let _ = app.update(UiEvent::ToggleModeMenu);
    assert!(app.mode_menu_open && !app.ai_panel_open);
}

#[test]
fn url_dialog_flow_rejects_bad_input() {
    let mut app = AppModel::new();
    let _ = app.update(UiEvent::OpenUrlDialog);
    assert!(app.url_dialog_open);
    let _ = app.update(UiEvent::UrlInputChanged("not a url".into()));
    let _ = app.update(UiEvent::PlayUrl);
    assert_eq!(app.screen, AppScreen::Splash);
    assert!(!app.has_player);
    assert!(app.status_is_error);
    let _ = app.update(UiEvent::CloseUrlDialog);
    assert!(!app.url_dialog_open);
}

#[test]
fn play_url_starts_stream_player() {
    let mut app = AppModel::new();
    let _ = app.update(UiEvent::OpenUrlDialog);
    let _ = app.update(UiEvent::UrlInputChanged("https://example.com/stream.m3u8".into()));
    let action = app.update(UiEvent::PlayUrl);
    assert!(matches!(action, UiAction::SpawnStream(ref u) if u == "https://example.com/stream.m3u8"));
    assert_eq!(app.screen, AppScreen::Player);
    assert!(app.has_player);
    assert!(app.selected_video_path.is_none());
    assert_eq!(app.stream_title, Some("example.com/stream.m3u8".to_string()));
    assert!(!app.url_dialog_open);
    assert!(app.title().contains("example.com"));
}

#[test]
fn buffering_state_flips() {
    let mut app = AppModel::new();
    assert!(!app.is_buffering);
    let _ = app.update(UiEvent::Buffering(true));
    assert!(app.is_buffering);
    let _ = app.update(UiEvent::Buffering(false));
    assert!(!app.is_buffering);
}

#[test]
fn search_query_filters_videos() {
    let mut app = AppModel::new();
    assert_eq!(app.search_query, "");
    let _ = app.update(UiEvent::SearchQueryChanged("matrix".into()));
    assert_eq!(app.search_query, "matrix");
}

#[test]
fn preplay_dialog_flow() {
    let mut app = AppModel::new();
    assert!(!app.preplay_dialog_open);
    assert!(app.preplay_target.is_none());
    let video = String::from("/tmp/video.mp4");
    let _ = app.update(UiEvent::OpenPreplayDialog(video.clone()));
    assert!(app.preplay_dialog_open);
    assert_eq!(app.preplay_target, Some(video));
    let _ = app.update(UiEvent::ClosePreplayDialog);
    assert!(!app.preplay_dialog_open);
    assert!(app.preplay_target.is_none());
}

#[test]
fn select_video_with_mode_applies() {
    let mut app = AppModel::new();
    let video = String::from("/tmp/action_movie.mp4");
    let _ = app.update(UiEvent::SelectVideoWithMode(video.clone(), PlaybackMode::InstantPlay));
    assert_eq!(app.playback_mode, PlaybackMode::InstantPlay);
    assert_eq!(app.screen, AppScreen::Player);
    assert_eq!(app.selected_video_path, Some(video));
    assert!(!app.preplay_dialog_open);
    assert_eq!(app.title(), "Otip — action_movie.mp4 [Instant Play (Zero Trust)]");
}

#[test]
fn start_ai_scan_validates_inputs() {
    let mut app = AppModel::new();
    assert!(matches!(app.update(UiEvent::StartAiScan), UiAction::Nothing));
    assert_eq!(app.status, "Enter your Gemini API key to run AI scan");
    let _ = app.update(UiEvent::GeminiApiKeyChanged("KEY".into()));
    let _ = app.update(UiEvent::StartAiScan);
    assert_eq!(app.status, "Load a local video before starting AI scan");
    let _ = app.update(UiEvent::VideoSelected("/v/clip.mp4".into()));
    match app.update(UiEvent::StartAiScan) {
        UiAction::StartScan { video_path, api_key, model, .. } => {
            assert_eq!((video_path.as_str(), api_key.as_str(), model.as_str()), ("/v/clip.mp4", "KEY", "gemini-3.8-flash"));
        }
        other => panic!("unexpected {:?}", other),
    }
    assert!(app.scan_running && !app.status_is_error);
}

#[test]
fn auto_skip_jumps_once_then_debounces() {
    let mut app = AppModel::new();
    let _ = app.update(UiEvent::VideoSelected("/v/a.mp4".into()));
    let _ = app.update(UiEvent::SetPlaybackMode(PlaybackMode::AutoSkip));
    assert!(matches!(app.update(UiEvent::PositionUpdate(16_000, 60_000)), UiAction::SeekTo(25_000)));
    assert_eq!(app.last_skip_ms, 16_000);
    assert!(matches!(app.update(UiEvent::PositionUpdate(16_100, 60_000)), UiAction::Nothing));
    assert!(matches!(app.update(UiEvent::PositionUpdate(16_300, 60_000)), UiAction::SeekTo(25_000)));
    let _ = app.update(UiEvent::PositionUpdate(2_000, 60_000));
    assert_eq!(app.last_skip_ms, 0);
    assert_eq!(auto_skip(&vec![(1_000, 2_000)], 1_500, 0), (1_500, Some(2_000)));
    assert_eq!(auto_skip(&vec![(10, 20)], 15, 0), (0, None));
    assert_eq!(auto_skip(&vec![(10, 20)], 25, 15), (15, None));
}

#[test]
fn library_listing_updates_status() {
    let mut app = AppModel::new();
    assert!(matches!(app.update(UiEvent::NavigateTo(AppScreen::Library)), UiAction::ScanDefaultDirs));
    let action = app.update(UiEvent::LibraryScanned(vec!["x.mp4".into(), "y.mkv".into()]));
    assert!(matches!(action, UiAction::LoadThumbnails(ref v) if v.len() == 2));
    assert_eq!(app.status, "Auto-discovered 2 videos");
    let _ = app.update(UiEvent::FolderScanned("/media".into(), Err("denied".into())));
    assert!(app.library_videos.is_empty() && app.status_is_error);
    assert_eq!(app.status, "Failed to read folder: denied");
    let _ = app.update(UiEvent::LibraryScanned(vec![]));
    assert_eq!(app.status, "No videos found in Videos/Downloads — use Select Folder");
}
