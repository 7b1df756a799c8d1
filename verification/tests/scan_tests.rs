use otip::clock::format_duration_short;
use std::time::Duration;

use otip::scan::{
    adaptive_frame_step_secs, batch_step, chunk_frames_into_batches, create_grid_image,
    expected_frames, is_retryable_status, parse_gemini_response, prepare_ai_scan,
    quadrant_segments, retry_backoff_secs, BatchStep, AI_SCAN_BATCH_DELAY_SECS,
    AI_SCAN_FRAMES_PER_BATCH, AI_SCAN_FRAME_INTERVAL, AI_SCAN_LONG_VIDEO_SECS,
    AI_SCAN_MAX_FRAMES_PER_BATCH, AI_SCAN_MAX_RETRIES, AI_SCAN_RETRY_BASE_DELAY_SECS,
    DEFAULT_AI_SKIP_PROMPT,
};
use otip::timestamp::parse_timestamp_token;
use otip::aireply::{parse_ai_timestamps, skip_ranges_from_response};
use otip::segments::normalize_segments;
use otip::grid::RgbFrame;
use otip::json::{parse_json, JsonValue};
use otip::domain::TimelineSegmentType;
use otip::error::ScannerError;

fn secs(r: Option<u64>) -> Option<Duration> {
    r.map(Duration::from_millis)
}

fn spans(v: Vec<(u64, u64)>) -> Vec<(Duration, Duration)> {
    v.into_iter()
        .map(|(a, b)| (Duration::from_millis(a), Duration::from_millis(b)))
        .collect()
}

#[test]
fn test_parse_timestamp_token() {
    assert_eq!(secs(parse_timestamp_token("75")), Some(Duration::from_secs(75)));
    assert_eq!(secs(parse_timestamp_token("75s")), Some(Duration::from_secs(75)));
    assert_eq!(secs(parse_timestamp_token("01:15")), Some(Duration::from_secs(75)));
    assert_eq!(secs(parse_timestamp_token("01:02:03")), Some(Duration::from_secs(3723)));
    assert!(parse_timestamp_token("").is_none());
}

#[test]
fn parse_timestamp_token_fractions_and_wrappers() {
    assert_eq!(parse_timestamp_token("75.5"), Some(75_500));
    assert_eq!(parse_timestamp_token(" [01:15.25] "), Some(75_250));
    assert_eq!(parse_timestamp_token("\"12\""), Some(12_000));
    assert_eq!(parse_timestamp_token("abc"), None);
    assert_eq!(parse_timestamp_token("-5"), None);
}

#[test]
fn test_parse_ai_timestamps_json_objects() {
    let segs = parse_ai_timestamps(r#"[{"start": 15, "end": 25}, {"start": "00:30", "end": "00:40"}]"#);
    assert_eq!(
        spans(segs),
        vec![
            (Duration::from_secs(15), Duration::from_secs(25)),
            (Duration::from_secs(30), Duration::from_secs(40)),
        ]
    );
}

#[test]
fn test_parse_ai_timestamps_plain_text() {
    let segs = spans(parse_ai_timestamps("00:15-00:25\n15s to 25s\n"));
    assert!(!segs.is_empty());
    assert_eq!(segs[0], (Duration::from_secs(15), Duration::from_secs(25)));
}

#[test]
fn test_parse_ai_timestamps_empty() {
    assert!(parse_ai_timestamps("[]").is_empty());
    assert!(parse_ai_timestamps("no segments here").is_empty());
}

#[test]
fn parse_ai_timestamps_merges_overlaps() {
    let segs = parse_ai_timestamps(r#"[[20, 30], [10, 22], [40, 45], [45, 50], [60, 60]]"#);
    assert_eq!(segs, vec![(10_000, 30_000), (40_000, 50_000)]);
}

#[test]
fn skip_ranges_come_from_reply_text() {
    let body = r#"{"candidates":[{"content":{"parts":[{"text":"[{\"start\": 3, \"end\": 5}]"}]}}]}"#;
    assert_eq!(skip_ranges_from_response(body), vec![(3_000, 5_000)]);
    assert!(skip_ranges_from_response(r#"{"candidates":[]}"#).is_empty());
    assert!(skip_ranges_from_response("not json").is_empty());
}

fn dummy_frames(n: u64) -> Vec<(Duration, u8)> {
    (0..n).map(|i| (Duration::from_secs(i), i as u8)).collect()
}

#[test]
fn test_chunk_frames_into_batches_of_four() {
    let frames = dummy_frames(10);
    let batches = chunk_frames_into_batches(frames, AI_SCAN_FRAMES_PER_BATCH);
    assert_eq!(batches.len(), 3);
    assert_eq!(batches[0].len(), 4);
    assert_eq!(batches[1].len(), 4);
    assert_eq!(batches[2].len(), 2);
    assert_eq!(batches[0][0].0, Duration::from_secs(0));
    assert_eq!(batches[1][0].0, Duration::from_secs(4));
    assert_eq!(batches[2][0].0, Duration::from_secs(8));
    assert_eq!(Duration::from_millis(AI_SCAN_FRAME_INTERVAL), Duration::from_secs(1));
}

#[test]
fn test_chunk_frames_empty_and_zero_size() {
    assert!(chunk_frames_into_batches(Vec::<(Duration, u8)>::new(), 4).is_empty());
    assert!(chunk_frames_into_batches(dummy_frames(4), 0).is_empty());
}

#[test]
fn test_chunk_frames_respects_max_batch_cap() {
    let batches = chunk_frames_into_batches(dummy_frames(100), 10_000);
    assert!(batches.iter().all(|b| b.len() <= AI_SCAN_MAX_FRAMES_PER_BATCH));
    assert_eq!(batches.len(), 100_usize.div_ceil(AI_SCAN_MAX_FRAMES_PER_BATCH));
}

#[test]
fn chunking_keeps_every_frame_in_order() {
    let batches = chunk_frames_into_batches(dummy_frames(13), 5);
    let joined: Vec<u8> = batches.iter().flatten().map(|f| f.1).collect();
    assert_eq!(joined, (0..13).collect::<Vec<u8>>());
    assert_eq!(batches.iter().map(|b| b.len()).collect::<Vec<_>>(), vec![5, 5, 3]);
}

#[test]
fn test_merge_batched_segments() {
    let mut all = Vec::new();
    all.extend(parse_ai_timestamps(r#"[{"start": 0, "end": 2}]"#));
    all.extend(parse_ai_timestamps(r#"[{"start": 5, "end": 7}]"#));
    all.extend(parse_ai_timestamps(r#"[]"#));
    let merged = normalize_segments(all);
    assert_eq!(
        spans(merged),
        vec![
            (Duration::from_secs(0), Duration::from_secs(2)),
            (Duration::from_secs(5), Duration::from_secs(7)),
        ]
    );
}

#[test]
fn normalizing_twice_changes_nothing() {
    let once = normalize_segments(vec![(5, 9), (1, 3), (2, 4), (9, 12), (20, 20)]);
    assert_eq!(once, vec![(1, 4), (5, 12)]);
    assert_eq!(normalize_segments(once.clone()), once);
}

#[test]
fn test_adaptive_frame_step_secs() {
    assert_eq!(adaptive_frame_step_secs(None), 1);
    assert_eq!(adaptive_frame_step_secs(Some(0)), 1);
    assert_eq!(adaptive_frame_step_secs(Some(60)), 1);
    assert_eq!(adaptive_frame_step_secs(Some(300)), 1);
    assert_eq!(adaptive_frame_step_secs(Some(301)), 2);
    assert_eq!(adaptive_frame_step_secs(Some(900)), 2);
    assert_eq!(adaptive_frame_step_secs(Some(901)), 3);
    assert_eq!(adaptive_frame_step_secs(Some(1361)), 3);
    let frames_22min = 1361u64 / adaptive_frame_step_secs(Some(1361));
    assert!(frames_22min < 1361 / 2);
}

#[test]
fn expected_frames_divides_by_step() {
    assert_eq!(expected_frames(Some(1361), 3), Some(453));
    assert_eq!(expected_frames(Some(10), 0), Some(10));
    assert_eq!(expected_frames(None, 2), None);
}

#[test]
fn test_is_retryable_status() {
    assert!(is_retryable_status(429));
    assert!(is_retryable_status(503));
    for code in [200, 201, 400, 401, 403, 404, 500, 502, 504] {
        assert!(!is_retryable_status(code), "{code} must not retry");
    }
}

#[test]
fn test_retry_backoff_secs_is_exponential() {
    assert_eq!(AI_SCAN_MAX_RETRIES, 3);
    assert_eq!(retry_backoff_secs(1), 10);
    assert_eq!(retry_backoff_secs(2), 20);
    assert_eq!(retry_backoff_secs(3), 40);
    assert!(retry_backoff_secs(2) > retry_backoff_secs(1));
}

#[test]
fn retry_backoff_saturates() {
    assert_eq!(retry_backoff_secs(0), 10);
    assert_eq!(retry_backoff_secs(61), 10 * (1u64 << 60));
    assert_eq!(retry_backoff_secs(62), u64::MAX);
    assert_eq!(retry_backoff_secs(u32::MAX), u64::MAX);
}

#[test]
fn test_rate_limit_constants() {
    assert_eq!(AI_SCAN_BATCH_DELAY_SECS, 4);
    assert_eq!(AI_SCAN_RETRY_BASE_DELAY_SECS, 10);
    assert_eq!(AI_SCAN_LONG_VIDEO_SECS, 300);
}

#[test]
fn batch_step_retries_rate_limits_then_gives_up() {
    assert_eq!(batch_step(0, Some(429)), BatchStep::Retry { attempt: 1, backoff_secs: 10 });
    assert_eq!(batch_step(2, Some(503)), BatchStep::Retry { attempt: 3, backoff_secs: 40 });
    assert_eq!(batch_step(3, Some(429)), BatchStep::GiveUp);
    assert_eq!(batch_step(0, Some(200)), BatchStep::Read);
    assert_eq!(batch_step(0, Some(500)), BatchStep::GiveUp);
    assert_eq!(batch_step(0, None), BatchStep::GiveUp);
}

#[test]
fn prepare_ai_scan_fills_defaults() {
    assert!(prepare_ai_scan("   ", "m", "p", None).is_none());
    let plan = prepare_ai_scan(" KEY ", "  ", "", Some("clip.mp4")).unwrap();
    assert_eq!(plan.api_key, "KEY");
    assert_eq!(plan.model, "gemini-3.7-flash");
    assert_eq!(plan.prompt, DEFAULT_AI_SKIP_PROMPT);
    assert_eq!(plan.file_name, "clip.mp4");
    assert_eq!(
        plan.url,
        "https://generativelanguage.googleapis.com/v1beta/models/gemini-3.7-flash:generateContent?key=KEY"
    );
    let plan = prepare_ai_scan("k", "gemini-2.0-flash", " skip ads ", None).unwrap();
    assert_eq!(plan.model, "gemini-2.0-flash");
    assert_eq!(plan.prompt, "skip ads");
    assert_eq!(plan.file_name, "video");
}

#[test]
fn grid_reply_quadrants_become_segments() {
    let doc = parse_json(r#"{"candidates":[{"content":{"parts":[{"text":" [3, 1, 9] "}]}}]}"#).unwrap();
    let quadrants = parse_gemini_response(&doc).unwrap();
    assert_eq!(quadrants, vec![3, 1]);
    let segs = quadrant_segments(8_000, &quadrants);
    assert_eq!(segs.len(), 4);
    assert_eq!((segs[0].start_ms, segs[0].end_ms), (10_000, 11_000));
    assert_eq!(segs[0].segment_type, TimelineSegmentType::ExplicitContent);
    assert_eq!((segs[1].start_ms, segs[1].end_ms), (8_000, 9_000));
    assert_eq!((segs[2].start_ms, segs[3].start_ms), (9_000, 11_000));
    assert_eq!(segs[2].segment_type, TimelineSegmentType::ScannedSafe);
    let flags = segs[0].scan_segment.unwrap().quadrant_flags.unwrap();
    assert!(flags.bottom_left && !flags.top_left);
    assert_eq!(segs[0].scan_segment.unwrap().confidence_pct, 90);
}

#[test]
fn grid_reply_errors() {
    let doc = parse_json(r#"{"candidates":[]}"#).unwrap();
    match parse_gemini_response(&doc) {
        Err(ScannerError::ResponseParseError(m)) => assert_eq!(m, "No text in response"),
        other => panic!("unexpected {:?}", other),
    }
    let doc = parse_json(r#"{"candidates":[{"content":{"parts":[{"text":"nope"}]}}]}"#).unwrap();
    assert!(matches!(parse_gemini_response(&doc), Err(ScannerError::ResponseParseError(_))));
}

fn solid_frame(w: u32, h: u32, rgb: [u8; 3]) -> RgbFrame {
    let mut pixels = Vec::with_capacity((w * h * 3) as usize);
    for _ in 0..(w * h) {
        pixels.extend_from_slice(&rgb);
    }
    RgbFrame { width: w, height: h, pixels }
}

#[test]
fn test_grid_creation() {
    let frames: Vec<RgbFrame> = (0..4u32)
        .map(|i| solid_frame(320, 240, [(i * 50) as u8, (i * 30) as u8, (i * 10) as u8]))
        .collect();
    let result = create_grid_image((2, 2), (320, 240), &frames);
    assert!(result.is_ok());
    let grid_bytes = result.unwrap();
    assert!(!grid_bytes.is_empty());
    let grid_img = image::load_from_memory(&grid_bytes).unwrap();
    assert_eq!(grid_img.width(), 640);
    assert_eq!(grid_img.height(), 480);
}

#[test]
fn scanner_grid_caps_cell_size() {
    let frames = vec![solid_frame(1920, 1080, [200, 10, 10])];
    let bytes = create_grid_image((2, 2), (1280, 720), &frames).unwrap();
    let img = image::load_from_memory(&bytes).unwrap();
    assert_eq!((img.width(), img.height()), (640, 480));
}

#[test]
fn parsing_the_short_clock_gives_back_whole_seconds() {
    for ms in [0u64, 999, 5_000, 65_432, 3_599_999, 3_600_000, 3_725_999, 360_000_000] {
        assert_eq!(parse_timestamp_token(&format_duration_short(ms)), Some(ms / 1000 * 1000));
    }
}

#[test]
fn json_items_step_of_the_reply_parser() {
    let obj = |s: JsonValue, e: JsonValue| {
        JsonValue::Object(vec![("start".to_string(), s), ("end".to_string(), e)])
    };
    let items = vec![
        obj(JsonValue::Number("15".into()), JsonValue::Number("25".into())),
        JsonValue::Array(vec![JsonValue::Str("00:30".into()), JsonValue::Number("40.5".into())]),
        JsonValue::Str("1:00 - 1:10".into()),
        obj(JsonValue::Number("9".into()), JsonValue::Number("3".into())),
        JsonValue::Null,
        JsonValue::Object(vec![
            ("start_time".to_string(), JsonValue::Number("70".into())),
            ("end_time".to_string(), JsonValue::Str("75s".into())),
        ]),
    ];
    assert_eq!(
        otip::aireply::items_ranges_of(&items),
        vec![(15_000, 25_000), (30_000, 40_500), (60_000, 70_000), (70_000, 75_000)]
    );
}

#[test]
fn prepare_ai_scan_refuses_without_a_key() {
    assert!(prepare_ai_scan("", "gemini-3.8-flash", "skip ads", Some("clip.mp4")).is_none());
    assert!(prepare_ai_scan("   \t", "gemini-3.8-flash", "skip ads", None).is_none());
    assert!(prepare_ai_scan(" KEY ", "", "", None).is_some());
}

#[test]
fn timestamp_tokens_in_exponent_notation() {
    assert_eq!(parse_timestamp_token("1e3"), Some(1_000_000));
    assert_eq!(parse_timestamp_token("1e2"), Some(100_000));
    assert_eq!(parse_timestamp_token("1.5E-1"), Some(150));
    assert_eq!(parse_timestamp_token("2e+1s"), Some(20_000));
    assert_eq!(parse_timestamp_token("1e-4"), Some(0));
    assert_eq!(parse_timestamp_token(".5e1"), Some(5_000));
    assert_eq!(parse_timestamp_token("-0e5"), Some(0));
    assert_eq!(parse_timestamp_token("0e400"), Some(0));
    assert_eq!(parse_timestamp_token("01:1e1"), Some(70_000));
    assert_eq!(parse_timestamp_token("-1e1"), None);
    assert_eq!(parse_timestamp_token("1e"), None);
    assert_eq!(parse_timestamp_token("e5"), None);
    assert_eq!(parse_timestamp_token("1e400"), None);
    assert_eq!(parse_timestamp_token("1e5e1"), None);
    assert_eq!(parse_timestamp_token("123456789012345678901234e-20"), Some(1_234_567));
}

#[test]
fn ai_ranges_with_exponent_numbers() {
    assert_eq!(parse_ai_timestamps(r#"[{"start": 1.5e1, "end": 2e1}]"#), vec![(15_000, 20_000)]);
    assert_eq!(parse_ai_timestamps("1e1 - 2e1"), vec![(10_000, 20_000)]);
}
