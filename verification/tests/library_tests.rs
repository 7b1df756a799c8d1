use otip::config::AppConfig;
use otip::gemini::ModerationConfig;
use otip::reply::{find_range_dash, first_timestamp_in};
use otip::scan::{batch_instruction, probe_instruction, FrameBatcher, GridJob, ScannerConfig};
use otip::session::AppModel;
use otip::views::{has_video_extension, is_frame_jpg, is_jpg};

#[test]
fn test_moderation_config_default() {
    let config = ModerationConfig::default();
    assert_eq!(config.auto_skip_enabled, true);
    assert_eq!(config.skip_buffer_ms, 500);
    assert_eq!(config.confidence_threshold_pct, 70);
}

#[test]
fn range_dash_prefers_spaced_dash() {
    assert_eq!(find_range_dash("15 - 25"), Some(3));
    assert_eq!(find_range_dash("1:00 -2:00"), Some(5));
}

#[test]
fn range_dash_takes_last_dash_before_digit() {
    assert_eq!(find_range_dash("00:15-00:25"), Some(5));
    assert_eq!(find_range_dash("-5"), None);
    assert_eq!(find_range_dash("no dash"), None);
    assert_eq!(find_range_dash("a-b"), None);
}

#[test]
fn range_dash_is_a_byte_offset() {
    // 'é' takes two bytes, so the dash at character 4 is at byte 5
    assert_eq!(find_range_dash("é 10-20"), Some(5));
    let s = "é 10-20";
    assert_eq!(&s[find_range_dash(s).unwrap()..], "-20");
}

#[test]
fn first_timestamp_in_fragments() {
    assert_eq!(first_timestamp_in("01:15"), Some(75_000));
    assert_eq!(first_timestamp_in("from 1:30 onward"), Some(90_000));
    assert_eq!(first_timestamp_in("(start, 42s)"), Some(42_000));
    assert_eq!(first_timestamp_in("nothing here"), None);
    assert_eq!(first_timestamp_in(""), None);
}

#[test]
fn video_extension_in_any_case() {
    assert!(has_video_extension("/videos/Holiday.MP4"));
    assert!(has_video_extension("clip.webm"));
    assert!(!has_video_extension("notes.txt"));
    assert!(!has_video_extension("/videos/.mp4"));
    assert!(!has_video_extension("/videos.mp4/readme"));
}

#[test]
fn frame_jpg_names() {
    assert!(is_jpg("/tmp/x.jpg"));
    assert!(is_frame_jpg("/tmp/scan/frame_0001.jpg"));
    assert!(!is_frame_jpg("/tmp/scan/thumb_0001.jpg"));
    assert!(!is_frame_jpg("/tmp/scan/frame_0001.png"));
}

fn library() -> AppModel {
    let mut m = AppModel::new();
    m.library_videos = vec!["/v/Holiday.mp4".to_string(), "/v/work.mkv".to_string()];
    m
}

#[test]
fn search_filters_by_lowercased_file_name() {
    let mut m = library();
    assert_eq!(m.visible_videos(), vec![0, 1]);
    m.search_query = "  HOLI ".to_string();
    assert_eq!(m.visible_videos(), vec![0]);
    m.search_query = "MKV".to_string();
    assert_eq!(m.visible_videos(), vec![1]);
    m.search_query = "zzz".to_string();
    assert_eq!(m.visible_videos(), Vec::<usize>::new());
    assert_eq!(m.empty_library_message(), "No videos match your search");
}

#[test]
fn folder_label_cases() {
    let mut m = library();
    assert_eq!(m.folder_label(), "Auto-Scanned • 2 videos found");
    m.library_folder = Some("/v".to_string());
    assert_eq!(m.folder_label(), "/v");
    let e = AppModel::new();
    assert_eq!(e.folder_label(), "No folder selected");
    assert_eq!(e.empty_library_message(), "No videos in library");
}

#[test]
fn ai_panel_labels() {
    let mut m = AppModel::new();
    m.gemini_api_key = "   ".to_string();
    assert_eq!(m.key_badge(), "API Key Required");
    m.gemini_api_key = "key".to_string();
    assert_eq!(m.key_badge(), "Gemini Ready");
    assert_eq!(m.scan_button(), ("Run Gemini Lookahead Scan", true));
    m.scan_running = true;
    assert_eq!(m.scan_button(), ("Scanning in Progress...", false));
    m.unsafe_segments = Vec::new();
    let (head, chips) = m.cut_summary();
    assert_eq!(head, "No explicit segments detected yet");
    assert!(chips.is_empty());
    m.unsafe_segments = vec![(15_000, 25_000), (65_000, 70_000)];
    let (head, chips) = m.cut_summary();
    assert_eq!(head, "2 cuts ready");
    assert_eq!(chips, vec!["0:15-0:25".to_string(), "1:05-1:10".to_string()]);
    m.unsafe_segments = vec![(0, 1_000); 6];
    let (head, chips) = m.cut_summary();
    assert_eq!(head, "6 cuts ready");
    assert_eq!(chips.len(), 4);
}

#[test]
fn frame_batcher_groups_frames_into_grids() {
    let mut b = FrameBatcher::new(4);
    assert!(b.on_frame(0).grid.is_none());
    assert!(b.on_frame(1_000).grid.is_none());
    assert!(b.on_frame(2_000).grid.is_none());
    let step = b.on_frame(3_000);
    assert_eq!(step.grid, Some(GridJob { index: 0, start_ms: 0, frames: 4 }));
    assert!(!step.report_progress);
    assert!(b.on_frame(4_000).grid.is_none());
    assert_eq!(b.finish(), Some(GridJob { index: 1, start_ms: 4_000, frames: 1 }));
    assert_eq!(b.finish(), None);
}

#[test]
fn frame_batcher_reports_every_tenth_buffered_frame() {
    let mut b = FrameBatcher::new(20);
    for i in 0..9u64 {
        assert!(!b.on_frame(i * 1_000).report_progress);
    }
    assert!(b.on_frame(9_000).report_progress);
}

#[test]
fn batch_instruction_text() {
    let s = batch_instruction("clip.mp4", 0, 3, &vec![5, 10], "skip gore");
    assert_eq!(
        s,
        "Video file under analysis: \"clip.mp4\" (batch 1/3, frames at seconds [5, 10], sampled through the video).\nUser skip request: skip gore\nAnalyse these 2 frame(s) in time order. Return ONLY a JSON array of objects with numeric \"start\" and \"end\" fields in ABSOLUTE video seconds, e.g. [{\"start\": 5, \"end\": 6}] covering the parts matching the skip request. If nothing should be skipped, return []."
    );
}

#[test]
fn probe_instruction_text() {
    let s = probe_instruction("clip.mp4", "skip gore");
    assert!(s.starts_with("Video file under analysis: \"clip.mp4\".\nUser skip request: skip gore\n"));
    assert!(s.ends_with("If nothing should be skipped, return []."));
}

#[test]
fn scanner_config_from_app_config() {
    let config = AppConfig::with_cache_dir("/tmp/c".to_string());
    let sc = ScannerConfig::from_app_config(&config, Some("env-key".to_string()));
    assert_eq!(sc.frame_interval_ms, 1_000);
    assert_eq!(sc.grid_size, (2, 2));
    assert_eq!(sc.api_key, "env-key");
    let none = ScannerConfig::from_app_config(&config, None);
    assert_eq!(none.api_key, "");
    assert_eq!(none.model, "gemini-3.8-flash");
}

#[test]
fn skip_legend_counts_cuts() {
    let mut m = AppModel::new();
    m.unsafe_segments = vec![(1_000, 2_000), (5_000, 6_000), (9_000, 9_500)];
    assert_eq!(m.skip_legend(), "Auto-Skip (3 cuts)");
    m.unsafe_segments = Vec::new();
    assert_eq!(m.skip_legend(), "Explicit Skip");
}
