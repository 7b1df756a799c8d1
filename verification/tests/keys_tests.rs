use otip::config::AppConfig;
use otip::session::{AppModel, AppScreen, UiAction, UiEvent};
use otip::shell::{Message, OtipApp, ShortcutKey};

#[test]
fn desktop_shortcuts() {
    let mut a = OtipApp::new(AppConfig::with_cache_dir("/tmp/otip".to_string()));
    a.state.position_ms = 30_000;
    assert!(matches!(a.shortcut(ShortcutKey::Space, false, false), Some(Message::PlayPause)));
    assert!(a.shortcut(ShortcutKey::Space, false, true).is_none());
    assert!(matches!(a.shortcut(ShortcutKey::ArrowLeft, false, false), Some(Message::SeekTo(20_000))));
    assert!(matches!(a.shortcut(ShortcutKey::ArrowLeft, true, false), Some(Message::SeekTo(0))));
    assert!(matches!(a.shortcut(ShortcutKey::ArrowRight, false, false), Some(Message::SeekTo(40_000))));
    assert!(matches!(a.shortcut(ShortcutKey::ArrowRight, true, false), Some(Message::SeekTo(90_000))));
    assert!(matches!(a.shortcut(ShortcutKey::F, false, false), Some(Message::ToggleFullscreen)));
    assert!(a.shortcut(ShortcutKey::Escape, false, false).is_none());
    a.state.show_settings = true;
    assert!(matches!(a.shortcut(ShortcutKey::Escape, false, false), Some(Message::ShowSettings(false))));
    a.state.is_fullscreen = true;
    assert!(matches!(a.shortcut(ShortcutKey::Escape, false, false), Some(Message::ToggleFullscreen)));
    assert!(a.shortcut(ShortcutKey::ArrowUp, false, false).is_none());
    assert!(a.shortcut(ShortcutKey::Other, false, false).is_none());
}

#[test]
fn library_player_shortcuts() {
    let mut m = AppModel::new();
    m.position_ms = 3_000;
    m.duration_ms = 10_000;
    assert!(matches!(m.key_event(ShortcutKey::Space, false), Some(UiEvent::PlayPause)));
    assert!(matches!(m.key_event(ShortcutKey::ArrowLeft, false), Some(UiEvent::SeekRelative(-5))));
    assert!(matches!(m.key_event(ShortcutKey::ArrowRight, false), Some(UiEvent::SeekRelative(5))));
    assert!(matches!(m.key_event(ShortcutKey::F, false), Some(UiEvent::ToggleFullscreen)));
    assert!(matches!(m.key_event(ShortcutKey::C, false), Some(UiEvent::ToggleCaptions)));
    assert!(matches!(m.key_event(ShortcutKey::L, false), Some(UiEvent::ToggleLoop)));
    assert!(m.key_event(ShortcutKey::M, false).is_none());
    assert!(m.key_event(ShortcutKey::F, true).is_none());
    m.url_dialog_open = true;
    assert!(m.key_event(ShortcutKey::Space, false).is_none());
}

#[test]
fn controls_hide_after_three_idle_seconds() {
    let mut m = AppModel::new();
    m.screen = AppScreen::Player;
    m.controls_visible = true;
    assert!(m.tick_event(3_000).is_none());
    assert!(matches!(m.tick_event(3_001), Some(UiEvent::ControlsIdle)));
    m.controls_visible = false;
    assert!(m.tick_event(10_000).is_none());
    m.controls_visible = true;
    m.screen = AppScreen::Library;
    assert!(m.tick_event(10_000).is_none());
}

#[test]
fn relative_seek_moves_and_skips_the_player() {
    let mut m = AppModel::new();
    m.position_ms = 3_000;
    m.duration_ms = 10_000;
    assert!(matches!(m.update(UiEvent::SeekRelative(-5)), UiAction::Nothing));
    assert_eq!(m.position_ms, 0);
    assert!(m.controls_visible);
    m.has_player = true;
    m.position_ms = 7_000;
    assert!(matches!(m.update(UiEvent::SeekRelative(5)), UiAction::SkipBy(5)));
    assert_eq!(m.position_ms, 10_000);
    assert!(matches!(m.update(UiEvent::SeekRelative(-5)), UiAction::SkipBy(-5)));
    assert_eq!(m.position_ms, 5_000);
    m.duration_ms = 0;
    assert!(matches!(m.update(UiEvent::SeekRelative(5)), UiAction::SkipBy(5)));
    assert_eq!(m.position_ms, 0);
}
