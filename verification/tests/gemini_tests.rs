use otip::request::grid_image_data;
use otip::config::{gemini_model_label, AppConfig, UserPreferences, GEMINI_AVAILABLE_MODELS};
use otip::gemini::{
    model_label, GeminiConfig, GeminiStats, GridAttempts, GridNext, GridReply, ModeratorStats,
    AVAILABLE_MODELS, DEFAULT_MODEL, GEMINI_35_FLASH_LITE, GEMINI_37_FLASH,
};
use otip::json::parse_json;
use otip::error::ScannerError;
use otip::domain::{PlaybackMode, Theme};

#[test]
fn test_config_default() {
    let config = GeminiConfig::default();
    assert_eq!(config.model, DEFAULT_MODEL);
    assert_eq!(config.temperature_milli as f32 / 1000.0, 0.1);
}

#[test]
fn test_available_models_contains_requested() {
    assert!(AVAILABLE_MODELS.contains(&GEMINI_37_FLASH));
    assert!(AVAILABLE_MODELS.contains(&GEMINI_35_FLASH_LITE));
}

fn reply(text: &str) -> GridReply {
    let body = format!(
        r#"{{"candidates":[{{"content":{{"parts":[{{"text":{}}}]}}}}]}}"#,
        serde_json::to_string(text).unwrap()
    );
    GridReply::Success(parse_json(&body).unwrap())
}

#[test]
fn test_parse_response() {
    let mut attempts = GridAttempts::new(3);
    match attempts.on_reply(reply("[1, 3]")) {
        GridNext::Finish(0, Ok(result)) => assert_eq!(result, vec![1, 3]),
        other => panic!("unexpected {:?}", other),
    }
}

#[test]
fn test_parse_empty_response() {
    let mut attempts = GridAttempts::new(3);
    match attempts.on_reply(reply("[]")) {
        GridNext::Finish(0, Ok(result)) => {
            let expected: Vec<u8> = vec![];
            assert_eq!(result, expected);
        }
        other => panic!("unexpected {:?}", other),
    }
}

#[test]
fn grid_attempts_retry_then_fail_with_last_error() {
    let mut a = GridAttempts::new(2);
    assert!(matches!(a.on_reply(GridReply::RateLimited(None)), GridNext::Resend(60)));
    assert!(matches!(
        a.on_reply(GridReply::Failed("500 Internal Server Error".into(), "boom".into())),
        GridNext::Resend(2)
    ));
    match a.on_reply(GridReply::Transport("timed out".into())) {
        GridNext::Finish(0, Err(ScannerError::ApiRequestFailed(m))) => assert_eq!(m, "timed out"),
        other => panic!("unexpected {:?}", other),
    }
}

#[test]
fn grid_attempts_rate_limit_on_last_attempt_reports_unknown_error() {
    let mut a = GridAttempts::new(0);
    match a.on_reply(GridReply::RateLimited(Some(7))) {
        GridNext::Finish(7, Err(ScannerError::ApiRequestFailed(m))) => {
            assert_eq!(m, "Unknown error")
        }
        other => panic!("unexpected {:?}", other),
    }
    let mut b = GridAttempts::new(0);
    match b.on_reply(GridReply::Failed("404 Not Found".into(), "no model".into())) {
        GridNext::Finish(0, Err(ScannerError::ApiRequestFailed(m))) => {
            assert_eq!(m, "Status 404 Not Found: no model")
        }
        other => panic!("unexpected {:?}", other),
    }
}

#[test]
fn model_labels() {
    assert_eq!(model_label("gemini-3.7-flash"), "Gemini 3.7 Flash");
    assert_eq!(gemini_model_label("gemini-3.5-flash-lite"), "Gemini 3.5 Flash Lite");
    assert_eq!(gemini_model_label("gemini-1.5-flash-latest"), "Gemini 1.5 Flash (legacy)");
    assert_eq!(gemini_model_label("gemini-2.0-flash"), "Gemini 2.0 Flash");
    assert_eq!(gemini_model_label("custom-model"), "custom-model");
    assert_eq!(GEMINI_AVAILABLE_MODELS, ["gemini-3.7-flash", "gemini-3.5-flash-lite"]);
}

#[test]
fn stats_count_requests() {
    let mut s = GeminiStats::default();
    s.record_success(120);
    s.record_rate_limited();
    s.record_failure();
    assert_eq!(s.requests_sent, 2);
    assert_eq!(s.successful_responses, 1);
    assert_eq!(s.failed_responses, 1);
    assert_eq!(s.rate_limited, 1);
    assert_eq!(s.total_latency_ms, 120);
    let m = ModeratorStats::default();
    assert_eq!(m.api_calls + m.videos_processed, 0);
    assert!(GeminiConfig { api_key: "k".into(), ..GeminiConfig::default() }.has_api_key());
    assert!(!GeminiConfig::default().has_api_key());
}

#[test]
fn test_default_config() {
    let config = AppConfig::with_cache_dir("/tmp/otip".into());
    assert_eq!(config.scan_frame_interval, 1);
    assert_eq!(config.grid_size, (2, 2));
    assert_eq!(config.frame_resolution, (320, 240));
}

#[test]
fn api_key_resolution_order() {
    let mut config = AppConfig::with_cache_dir("/tmp/otip".into());
    assert_eq!(config.get_gemini_api_key(Some("env".into())), Some("env".into()));
    config.preferences.api_key = Some("pref".into());
    assert_eq!(config.get_gemini_api_key(Some("env".into())), Some("pref".into()));
    config.gemini_api_key = Some("cfg".into());
    assert_eq!(config.get_gemini_api_key(None), Some("cfg".into()));
    let p = UserPreferences::default();
    assert_eq!(p.default_playback_mode, PlaybackMode::SafeMode);
    assert_eq!(p.theme, Theme::System);
    assert_eq!(p.scan_ahead_seconds, 30);
}

#[test]
fn config_defaults_as_documented() {
    let config = AppConfig::with_cache_dir("/tmp/otip".into());
    assert!(config.gemini_api_key.is_none());
    assert_eq!(config.gemini_model, "gemini-3.8-flash");
    assert_eq!(config.max_concurrent_scans, 3);
    assert_eq!(config.log_level, "info");
}

#[test]
fn grid_image_is_standard_padded_base64() {

    assert_eq!(grid_image_data(&b"Man".to_vec()), "TWFu");
    assert_eq!(grid_image_data(&b"Ma".to_vec()), "TWE=");
    assert_eq!(grid_image_data(&b"M".to_vec()), "TQ==");
    assert_eq!(grid_image_data(&Vec::new()), "");
    assert_eq!(grid_image_data(&vec![0xFB, 0xFF, 0xBF]), "+/+/");
    assert!(otip::request::GRID_PROMPT.starts_with("Analyze this 2x2 grid"));
}
