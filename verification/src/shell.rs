//! The desktop player's message loop: each user or backend message changes
//! the state and names the one piece of outside work that follows (a command
//! to the backend, a file dialog, a configuration write, an engine poll),
//! which the caller performs.

use vstd::prelude::*;
use vstd::string::{StrSliceExecFns, StringExecFns};
use crate::config::{AppConfig, UserPreferences};
use crate::domain::{PlaybackMode, PlaybackState, ScanProgress, TimelineSegment, VideoId};
use crate::scan::trimmed;
use crate::session::{file_name, file_name_of};
use crate::state::{
    confirmed, cancelled, event_handled, event_ok, fullscreen_toggled, grown_by, grown_by_all,
    is_initial, opened, playback_toggled, positioned, scan_updated, skip_to, sought, AppState,
    BackendEvent, UiCommand,
};
use crate::text::{strip, CharClass};
use crate::timeline::span_ok;
use crate::ui::ModeSelectionScreen;
use crate::views::{file_stem, file_stem_of};

verus! {

/// Messages of the desktop player. Times are milliseconds.
#[derive(Debug)]
pub enum Message {
    PlayPause,
    Stop,
    SeekTo(u64),
    ToggleFullscreen,
    OpenFile,
    FileSelected(Option<String>),
    ModeSelected(PlaybackMode),
    ConfirmMode,
    CancelMode,
    ScanProgress(ScanProgress),
    ScanComplete(Vec<TimelineSegment>),
    ScanError(String),
    NewScanSegment(TimelineSegment),
    PositionUpdate(u64, u64),
    StateChanged(PlaybackState),
    /// An opened video: its id, title and duration.
    VideoOpened(VideoId, String, u64),
    VideoOpenFailed(String),
    AutoSkipTriggered(u64, u64),
    ShowSettings(bool),
    ShowPlaylist(bool),
    TogglePlaylist,
    TimelineHover(Option<u64>),
    TimelineSeekStart,
    TimelineSeekEnd(u64),
    PreferencesChanged(UserPreferences),
    ApiKeyChanged(String),
    ApiKeyVisibilityToggled,
    GeminiModelChanged(String),
    SaveGeminiConfig,
    GeminiConfigSaved(Result<(), String>),
    Tick,
    BackendEvent(BackendEvent),
    Shutdown,
}

/// The keys that have shortcuts, by name.
#[derive(Debug, Clone, Copy, PartialEq, Eq, Structural)]
pub enum ShortcutKey {
    Space,
    ArrowLeft,
    ArrowRight,
    ArrowUp,
    ArrowDown,
    F,
    C,
    L,
    M,
    Escape,
    Other,
}

/// `a - d`, stopping at zero.
pub open spec fn back_by(a: u64, d: u64) -> u64 {
    if a >= d {
        (a - d) as u64
    } else {
        0
    }
}

/// `a + d`, stopping at the largest `u64`.
pub open spec fn ahead_by(a: u64, d: u64) -> u64 {
    if a + d > u64::MAX {
        u64::MAX
    } else {
        (a + d) as u64
    }
}

/// The message of a key press: nothing with Ctrl or Cmd held; Space plays
/// or pauses; Left and Right seek 10 s (60 s with Shift) back, stopping at
/// zero, or ahead; F toggles fullscreen; Escape leaves fullscreen, else
/// closes the settings. Up and Down change the volume, which the host
/// keeps.
pub open spec fn shortcut_message(s: AppState, key: ShortcutKey, shift: bool, command: bool) -> Option<Message> {
    let step: u64 = if shift {
        60_000
    } else {
        10_000
    };
    if command {
        None
    } else {
        match key {
            ShortcutKey::Space => Some(Message::PlayPause),
            ShortcutKey::ArrowLeft => Some(Message::SeekTo(back_by(s.position_ms, step))),
            ShortcutKey::ArrowRight => Some(Message::SeekTo(ahead_by(s.position_ms, step))),
            ShortcutKey::F => Some(Message::ToggleFullscreen),
            ShortcutKey::Escape => if s.is_fullscreen {
                Some(Message::ToggleFullscreen)
            } else if s.show_settings {
                Some(Message::ShowSettings(false))
            } else {
                None
            },
            _ => None,
        }
    }
}

/// The outside work that follows a message.
#[derive(Debug, Clone)]
pub enum UiEffect {
    Nothing,
    /// Send the command to the backend.
    Send(UiCommand),
    /// Open the file dialog; its answer comes back as `FileSelected`.
    PickFile,
    /// Write the configuration file.
    SaveConfig,
    /// Write the configuration file and rebuild the moderator from the
    /// state's key and model; the outcome comes back as `GeminiConfigSaved`.
    ApplyGeminiConfig,
    /// Ask the engine for the video's position and state.
    PollEngine(VideoId),
    /// Start the video, now that its scan is complete.
    PlayAfterScan(VideoId),
    Exit,
}

/// Which screen is shown.
#[derive(Debug, Clone, Copy, PartialEq, Eq, Structural)]
pub enum Screen {
    Settings,
    ModeSelection,
    Player,
    Welcome,
}

/// The desktop player: its state, the mode popup and the configuration.
pub struct OtipApp {
    pub state: AppState,
    pub mode_selection: ModeSelectionScreen,
    pub config: AppConfig,
}

/// The effect of an optional command.
pub open spec fn sends(c: Option<UiCommand>) -> UiEffect {
    match c {
        Some(c) => UiEffect::Send(c),
        None => UiEffect::Nothing,
    }
}

/// The command a backend event leads to.
pub open spec fn event_command(s: AppState, e: BackendEvent) -> Option<UiCommand> {
    match e {
        BackendEvent::PositionUpdate { position_ms, duration_ms, .. } => positioned(
            s,
            position_ms,
            duration_ms,
        ).1,
        _ => None,
    }
}

/// What a message asks of the state (see `event_ok`).
pub open spec fn message_ok(s: AppState, m: Message) -> bool {
    match m {
        Message::PositionUpdate(p, _) => skip_to(s, p) is Some ==> s.current_video is Some,
        Message::ScanComplete(segs) => s.timeline is Some ==> forall|i: int|
            0 <= i < segs@.len() ==> span_ok(#[trigger] segs@[i]),
        Message::NewScanSegment(seg) => s.timeline is Some ==> span_ok(seg),
        Message::BackendEvent(e) => event_ok(s, e),
        _ => true,
    }
}

/// The key the settings save: the trimmed key, or none when it is blank.
pub open spec fn saved_key(key: Seq<char>, k: Option<String>) -> bool {
    match k {
        Some(k) => strip(key, CharClass::Space).len() > 0 && k@ == strip(key, CharClass::Space),
        None => strip(key, CharClass::Space).len() == 0,
    }
}

/// Only the state changes, to `st`, and the effect is `eff`.
pub open spec fn only_state(o: OtipApp, n: OtipApp, st: AppState, e: UiEffect, eff: UiEffect) -> bool {
    n == OtipApp { state: st, ..o } && e == eff
}

pub open spec fn step_stop(o: OtipApp, n: OtipApp, e: UiEffect) -> bool {
    n == o && e == match o.state.current_video {
        Some(id) => UiEffect::Send(UiCommand::Stop(id)),
        None => UiEffect::Nothing,
    }
}

pub open spec fn step_file_selected(o: OtipApp, f: Option<String>, n: OtipApp, e: UiEffect) -> bool {
    e == UiEffect::Nothing && match f {
        Some(p) => {
            &&& n.state == opened(o.state, p)
            &&& n.mode_selection.mode() == o.state.preferences.default_playback_mode
            &&& n.config == o.config
        },
        None => n == o,
    }
}

pub open spec fn step_mode_selected(o: OtipApp, mode: PlaybackMode, n: OtipApp, e: UiEffect) -> bool {
    &&& e == UiEffect::Nothing
    &&& n.state == (AppState { selected_mode: mode, ..o.state })
    &&& n.mode_selection.mode() == mode
    &&& n.config == o.config
}

/// The scan is over; its segments join the timeline, and a video held back
/// for it in safe mode starts.
pub open spec fn step_scan_complete(o: OtipApp, segs: Seq<TimelineSegment>, n: OtipApp, e: UiEffect) -> bool {
    let s = o.state;
    &&& grown_by_all(s.timeline, n.state.timeline, segs)
    &&& n == OtipApp {
        state: AppState { is_scanning: false, timeline: n.state.timeline, ..s },
        ..o
    }
    &&& e == if s.selected_mode == PlaybackMode::SafeMode && s.current_video is Some {
        UiEffect::PlayAfterScan(s.current_video.unwrap())
    } else {
        UiEffect::Nothing
    }
}

pub open spec fn step_new_segment(o: OtipApp, seg: TimelineSegment, n: OtipApp, e: UiEffect) -> bool {
    &&& grown_by(o.state.timeline, n.state.timeline, seg)
    &&& n == OtipApp { state: AppState { timeline: n.state.timeline, ..o.state }, ..o }
    &&& e == UiEffect::Nothing
}

pub open spec fn step_video_opened(o: OtipApp, id: VideoId, title: String, d: u64, n: OtipApp, e: UiEffect) -> bool {
    &&& event_handled(
        o.state,
        BackendEvent::VideoOpened { video_id: id, title, duration_ms: d },
        n.state,
        None,
    )
    &&& n == OtipApp { state: n.state, ..o }
    &&& e == UiEffect::Nothing
}

pub open spec fn step_open_failed(o: OtipApp, err: String, n: OtipApp, e: UiEffect) -> bool {
    &&& n.state.scan_error matches Some(msg) && msg@ == "Failed to open video: "@ + err@
    &&& n == OtipApp { state: AppState { scan_error: n.state.scan_error, ..o.state }, ..o }
    &&& e == UiEffect::Nothing
}

pub open spec fn step_preferences(o: OtipApp, prefs: UserPreferences, n: OtipApp, e: UiEffect) -> bool {
    &&& n.state == (AppState { preferences: prefs, ..o.state })
    &&& n.config == (AppConfig { preferences: prefs, ..o.config })
    &&& n.mode_selection == o.mode_selection
    &&& e == UiEffect::SaveConfig
}

/// Saving the model settings: the trimmed key (none when blank) and the
/// model go to the configuration, the key to both copies of the
/// preferences.
pub open spec fn step_save_gemini(o: OtipApp, n: OtipApp, e: UiEffect) -> bool {
    let s = o.state;
    let k = n.config.gemini_api_key;
    &&& saved_key(s.gemini_api_key@, k)
    &&& n.state == (AppState { preferences: UserPreferences { api_key: k, ..s.preferences }, ..s })
    &&& n.config == (AppConfig {
        gemini_api_key: k,
        gemini_model: s.gemini_model,
        preferences: UserPreferences { api_key: k, ..o.config.preferences },
        ..o.config
    })
    &&& n.mode_selection == o.mode_selection
    &&& e == UiEffect::ApplyGeminiConfig
}

pub open spec fn saved_error(res: Result<(), String>) -> Option<String> {
    match res {
        Ok(_) => None,
        Err(msg) => Some(msg),
    }
}

pub open spec fn step_tick(o: OtipApp, n: OtipApp, e: UiEffect) -> bool {
    n == o && e == match o.state.current_video {
        Some(id) => UiEffect::PollEngine(id),
        None => UiEffect::Nothing,
    }
}

pub open spec fn step_backend(o: OtipApp, ev: BackendEvent, n: OtipApp, e: UiEffect) -> bool {
    &&& event_handled(o.state, ev, n.state, event_command(o.state, ev))
    &&& n == OtipApp { state: n.state, ..o }
    &&& e == sends(event_command(o.state, ev))
}

/// The messages about playback and the scan.
pub open spec fn is_media_message(m: Message) -> bool {
    match m {
        Message::PlayPause => true,
        Message::Stop => true,
        Message::SeekTo(..) => true,
        Message::ToggleFullscreen => true,
        Message::ScanProgress(..) => true,
        Message::ScanComplete(..) => true,
        Message::ScanError(..) => true,
        Message::NewScanSegment(..) => true,
        Message::PositionUpdate(..) => true,
        Message::StateChanged(..) => true,
        Message::VideoOpened(..) => true,
        Message::VideoOpenFailed(..) => true,
        Message::AutoSkipTriggered(..) => true,
        Message::TimelineSeekStart => true,
        Message::TimelineSeekEnd(..) => true,
        Message::Tick => true,
        Message::BackendEvent(..) => true,
        _ => false,
    }
}

/// How the player `o` becomes `n` on message `m`, with effect `e`.
pub open spec fn shell_step(o: OtipApp, m: Message, n: OtipApp, e: UiEffect) -> bool {
    let s = o.state;
    match m {
        Message::PlayPause => n == o && e == sends(playback_toggled(s)),
        Message::Stop => step_stop(o, n, e),
        Message::SeekTo(p) => only_state(o, n, sought(s, p).0, e, sends(sought(s, p).1)),
        Message::ToggleFullscreen => only_state(
            o,
            n,
            fullscreen_toggled(s).0,
            e,
            sends(fullscreen_toggled(s).1),
        ),
        Message::OpenFile => n == o && e == UiEffect::PickFile,
        Message::FileSelected(f) => step_file_selected(o, f, n, e),
        Message::ModeSelected(mode) => step_mode_selected(o, mode, n, e),
        Message::ConfirmMode => only_state(o, n, confirmed(s).0, e, sends(confirmed(s).1)),
        Message::CancelMode => only_state(o, n, cancelled(s), e, UiEffect::Nothing),
        Message::ScanProgress(p) => only_state(o, n, scan_updated(s, p), e, UiEffect::Nothing),
        Message::ScanComplete(segs) => step_scan_complete(o, segs@, n, e),
        Message::ScanError(err) => only_state(
            o,
            n,
            AppState { scan_error: Some(err), is_scanning: false, ..s },
            e,
            UiEffect::Nothing,
        ),
        Message::NewScanSegment(seg) => step_new_segment(o, seg, n, e),
        Message::PositionUpdate(p, d) => only_state(
            o,
            n,
            positioned(s, p, d).0,
            e,
            sends(positioned(s, p, d).1),
        ),
        Message::StateChanged(st) => only_state(
            o,
            n,
            AppState { playback_state: st, ..s },
            e,
            UiEffect::Nothing,
        ),
        Message::VideoOpened(id, title, d) => step_video_opened(o, id, title, d, n, e),
        Message::VideoOpenFailed(err) => step_open_failed(o, err, n, e),
        Message::AutoSkipTriggered(_, _) => n == o && e == UiEffect::Nothing,
        Message::ShowSettings(b) => only_state(
            o,
            n,
            AppState { show_settings: b, ..s },
            e,
            UiEffect::Nothing,
        ),
        Message::ShowPlaylist(b) => only_state(
            o,
            n,
            AppState { show_playlist: b, ..s },
            e,
            UiEffect::Nothing,
        ),
        Message::TogglePlaylist => only_state(
            o,
            n,
            AppState { show_playlist: !s.show_playlist, ..s },
            e,
            UiEffect::Nothing,
        ),
        Message::TimelineHover(p) => only_state(
            o,
            n,
            AppState { hover_position_ms: p, ..s },
            e,
            UiEffect::Nothing,
        ),
        Message::TimelineSeekStart => only_state(
            o,
            n,
            AppState { is_seeking: true, ..s },
            e,
            UiEffect::Nothing,
        ),
        Message::TimelineSeekEnd(p) => only_state(
            o,
            n,
            sought(AppState { is_seeking: false, ..s }, p).0,
            e,
            sends(sought(AppState { is_seeking: false, ..s }, p).1),
        ),
        Message::PreferencesChanged(prefs) => step_preferences(o, prefs, n, e),
        Message::ApiKeyChanged(k) => only_state(
            o,
            n,
            AppState { gemini_api_key: k, ..s },
            e,
            UiEffect::Nothing,
        ),
        Message::ApiKeyVisibilityToggled => only_state(
            o,
            n,
            AppState { gemini_api_key_visible: !s.gemini_api_key_visible, ..s },
            e,
            UiEffect::Nothing,
        ),
        Message::GeminiModelChanged(model) => only_state(
            o,
            n,
            AppState { gemini_model: model, ..s },
            e,
            UiEffect::Nothing,
        ),
        Message::SaveGeminiConfig => step_save_gemini(o, n, e),
        Message::GeminiConfigSaved(res) => only_state(
            o,
            n,
            AppState { scan_error: saved_error(res), ..s },
            e,
            UiEffect::Nothing,
        ),
        Message::Tick => step_tick(o, n, e),
        Message::BackendEvent(ev) => step_backend(o, ev, n, e),
        Message::Shutdown => n == o && e == UiEffect::Exit,
    }
}

/// The title of the window.
pub open spec fn window_title(s: AppState) -> Seq<char> {
    match s.video_title {
        Some(t) => "Otip - "@ + t@,
        None => "Otip - Smart Video Player"@,
    }
}

/// The name shown on the mode popup: the pending file's stem, or
/// `Unknown`.
pub open spec fn pending_name(s: AppState) -> Seq<char> {
    match s.pending_video_path {
        Some(p) => if file_name(p@).len() > 0 {
            file_stem(file_name(p@))
        } else {
            "Unknown"@
        },
        None => "Unknown"@,
    }
}

/// The screen shown: settings over the popup over the player over the
/// welcome screen.
pub open spec fn shown_screen(s: AppState) -> Screen {
    if s.show_settings {
        Screen::Settings
    } else if s.show_mode_selection {
        Screen::ModeSelection
    } else if s.current_video is Some {
        Screen::Player
    } else {
        Screen::Welcome
    }
}

fn some_copy(k: &Option<String>) -> (r: Option<String>)
    ensures
        r == *k,
{
    match k {
        Some(k) => Some(k.clone()),
        None => None,
    }
}

impl OtipApp {
    /// The player for a loaded configuration: its preferences, key and
    /// model; the popup starts on safe mode.
    pub fn new(config: AppConfig) -> (r: Self)
        ensures
            is_initial(r.state, config.preferences),
            r.state.gemini_api_key@ == (match config.gemini_api_key {
                Some(k) => k@,
                None => Seq::<char>::empty(),
            }),
            r.state.gemini_model == config.gemini_model,
            r.mode_selection.mode() == PlaybackMode::SafeMode,
            r.config == config,
    {
        let prefs = config.preferences.copied();
        let mut state = AppState::new(prefs);
        let key = some_copy(&config.gemini_api_key);
        let model = config.gemini_model.clone();
        state.set_gemini_config(key, model);
        OtipApp { state, mode_selection: ModeSelectionScreen::new(PlaybackMode::SafeMode), config }
    }

    /// The message a key press gives (see `shortcut_message`).
    pub fn shortcut(&self, key: ShortcutKey, shift: bool, command: bool) -> (r: Option<Message>)
        ensures
            r == shortcut_message(self.state, key, shift, command),
    {
        if command {
            return None;
        }
        let step: u64 = if shift {
            60_000
        } else {
            10_000
        };
        let p = self.state.position_ms;
        match key {
            ShortcutKey::Space => Some(Message::PlayPause),
            ShortcutKey::ArrowLeft => Some(
                Message::SeekTo(
                    if p >= step {
                        p - step
                    } else {
                        0
                    },
                ),
            ),
            ShortcutKey::ArrowRight => Some(
                Message::SeekTo(
                    if p > u64::MAX - step {
                        u64::MAX
                    } else {
                        p + step
                    },
                ),
            ),
            ShortcutKey::F => Some(Message::ToggleFullscreen),
            ShortcutKey::Escape => if self.state.is_fullscreen {
                Some(Message::ToggleFullscreen)
            } else if self.state.show_settings {
                Some(Message::ShowSettings(false))
            } else {
                None
            },
            _ => None,
        }
    }

    /// The window title.
    pub fn title(&self) -> (r: String)
        ensures
            r@ == window_title(self.state),
    {
        match &self.state.video_title {
            Some(t) => {
                let mut r = String::from_str("Otip - ");
                r.append(t.as_str());
                r
            },
            None => String::from_str("Otip - Smart Video Player"),
        }
    }

    /// The screen shown.
    pub fn screen(&self) -> (r: Screen)
        ensures
            r == shown_screen(self.state),
    {
        if self.state.show_settings {
            Screen::Settings
        } else if self.state.show_mode_selection {
            Screen::ModeSelection
        } else if self.state.current_video.is_some() {
            Screen::Player
        } else {
            Screen::Welcome
        }
    }

    /// The name shown on the mode popup.
    pub fn pending_name(&self) -> (r: String)
        ensures
            r@ == pending_name(self.state),
    {
        match &self.state.pending_video_path {
            Some(p) => {
                let name = file_name_of(p.as_str());
                if name.as_str().is_empty() {
                    String::from_str("Unknown")
                } else {
                    file_stem_of(p.as_str())
                }
            },
            None => String::from_str("Unknown"),
        }
    }

    fn on_play_pause(&mut self) -> (e: UiEffect)
        ensures
            *final(self) == *old(self),
            e == sends(playback_toggled(old(self).state)),
    {
        match self.state.toggle_playback() {
            Some(c) => UiEffect::Send(c),
            None => UiEffect::Nothing,
        }
    }

    fn on_seek_to(&mut self, p: u64) -> (e: UiEffect)
        ensures
            only_state(*old(self), *final(self), sought(old(self).state, p).0, e, sends(sought(old(self).state, p).1)),
    {
        match self.state.seek(p) {
            Some(c) => UiEffect::Send(c),
            None => UiEffect::Nothing,
        }
    }

    fn on_toggle_fullscreen(&mut self) -> (e: UiEffect)
        ensures
            only_state(
                *old(self),
                *final(self),
                fullscreen_toggled(old(self).state).0,
                e,
                sends(fullscreen_toggled(old(self).state).1),
            ),
    {
        match self.state.toggle_fullscreen() {
            Some(c) => UiEffect::Send(c),
            None => UiEffect::Nothing,
        }
    }

    fn on_file_selected(&mut self, f: Option<String>) -> (e: UiEffect)
        ensures
            step_file_selected(*old(self), f, *final(self), e),
    {
        match f {
            Some(path) => {
                self.state.open_video(path);
                self.mode_selection = ModeSelectionScreen::new(self.state.selected_mode);
            },
            None => {},
        }
        UiEffect::Nothing
    }

    fn on_mode_selected(&mut self, mode: PlaybackMode) -> (e: UiEffect)
        ensures
            step_mode_selected(*old(self), mode, *final(self), e),
    {
        self.state.selected_mode = mode;
        self.mode_selection.set_selected_mode(mode);
        UiEffect::Nothing
    }

    fn on_confirm(&mut self) -> (e: UiEffect)
        ensures
            only_state(*old(self), *final(self), confirmed(old(self).state).0, e, sends(confirmed(old(self).state).1)),
    {
        match self.state.confirm_mode_selection() {
            Some(c) => UiEffect::Send(c),
            None => UiEffect::Nothing,
        }
    }

    fn on_scan_complete(&mut self, segs: Vec<TimelineSegment>) -> (e: UiEffect)
        requires
            old(self).state.timeline is Some ==> forall|i: int|
                0 <= i < segs@.len() ==> span_ok(#[trigger] segs@[i]),
        ensures
            step_scan_complete(*old(self), segs@, *final(self), e),
    {
        self.state.is_scanning = false;
        match self.state.timeline.take() {
            Some(mut t) => {
                t.add_segments(segs);
                self.state.timeline = Some(t);
            },
            None => {},
        }
        match (self.state.selected_mode, self.state.current_video) {
            (PlaybackMode::SafeMode, Some(id)) => UiEffect::PlayAfterScan(id),
            _ => UiEffect::Nothing,
        }
    }

    fn on_position(&mut self, p: u64, d: u64) -> (e: UiEffect)
        requires
            skip_to(old(self).state, p) is Some ==> old(self).state.current_video is Some,
        ensures
            only_state(*old(self), *final(self), positioned(old(self).state, p, d).0, e, sends(positioned(old(self).state, p, d).1)),
    {
        match self.state.update_position(p, d) {
            Some(c) => UiEffect::Send(c),
            None => UiEffect::Nothing,
        }
    }

    fn on_video_opened(&mut self, id: VideoId, title: String, d: u64) -> (e: UiEffect)
        ensures
            step_video_opened(*old(self), id, title, d, *final(self), e),
    {
        let ev = BackendEvent::VideoOpened { video_id: id, title, duration_ms: d };
        let _ = self.state.handle_backend_event(ev);
        UiEffect::Nothing
    }

    fn on_open_failed(&mut self, err: String) -> (e: UiEffect)
        ensures
            step_open_failed(*old(self), err, *final(self), e),
    {
        let mut m = String::from_str("Failed to open video: ");
        m.append(err.as_str());
        self.state.scan_error = Some(m);
        UiEffect::Nothing
    }

    fn on_seek_end(&mut self, p: u64) -> (e: UiEffect)
        ensures
            only_state(
                *old(self),
                *final(self),
                sought(AppState { is_seeking: false, ..old(self).state }, p).0,
                e,
                sends(sought(AppState { is_seeking: false, ..old(self).state }, p).1),
            ),
    {
        self.state.is_seeking = false;
        match self.state.seek(p) {
            Some(c) => UiEffect::Send(c),
            None => UiEffect::Nothing,
        }
    }

    fn on_preferences(&mut self, prefs: UserPreferences) -> (e: UiEffect)
        ensures
            step_preferences(*old(self), prefs, *final(self), e),
    {
        self.state.preferences = prefs.copied();
        self.config.preferences = prefs;
        UiEffect::SaveConfig
    }

    fn on_save_gemini(&mut self) -> (e: UiEffect)
        ensures
            step_save_gemini(*old(self), *final(self), e),
    {
        let t = trimmed(self.state.gemini_api_key.as_str());
        let key: Option<String> = if t.as_str().is_empty() {
            None
        } else {
            Some(t)
        };
        self.config.gemini_api_key = some_copy(&key);
        self.config.gemini_model = self.state.gemini_model.clone();
        self.config.preferences.api_key = some_copy(&key);
        self.state.preferences.api_key = key;
        UiEffect::ApplyGeminiConfig
    }

    fn on_backend(&mut self, ev: BackendEvent) -> (e: UiEffect)
        requires
            event_ok(old(self).state, ev),
        ensures
            step_backend(*old(self), ev, *final(self), e),
    {
        match self.state.handle_backend_event(ev) {
            Some(c) => UiEffect::Send(c),
            None => UiEffect::Nothing,
        }
    }

    /// Playback and scan messages.
    #[verifier::spinoff_prover]
    #[verifier::rlimit(50)]
    fn update_media(&mut self, message: Message) -> (e: UiEffect)
        requires
            is_media_message(message),
            message_ok(old(self).state, message),
        ensures
            shell_step(*old(self), message, *final(self), e),
    {
        match message {
            Message::PlayPause => self.on_play_pause(),
            Message::Stop => match self.state.current_video {
                Some(id) => UiEffect::Send(UiCommand::Stop(id)),
                None => UiEffect::Nothing,
            },
            Message::SeekTo(p) => self.on_seek_to(p),
            Message::ToggleFullscreen => self.on_toggle_fullscreen(),
            Message::ScanProgress(p) => {
                self.state.update_scan_progress(p);
                UiEffect::Nothing
            },
            Message::ScanComplete(segs) => self.on_scan_complete(segs),
            Message::ScanError(err) => {
                self.state.scan_error = Some(err);
                self.state.is_scanning = false;
                UiEffect::Nothing
            },
            Message::NewScanSegment(seg) => {
                self.state.add_timeline_segment(seg);
                UiEffect::Nothing
            },
            Message::PositionUpdate(p, d) => self.on_position(p, d),
            Message::StateChanged(st) => {
                self.state.update_playback_state(st);
                UiEffect::Nothing
            },
            Message::VideoOpened(id, title, d) => self.on_video_opened(id, title, d),
            Message::VideoOpenFailed(err) => self.on_open_failed(err),
            Message::AutoSkipTriggered(_, _) => UiEffect::Nothing,
            Message::TimelineSeekStart => {
                self.state.is_seeking = true;
                UiEffect::Nothing
            },
            Message::TimelineSeekEnd(p) => self.on_seek_end(p),
            Message::Tick => match self.state.current_video {
                Some(id) => UiEffect::PollEngine(id),
                None => UiEffect::Nothing,
            },
            Message::BackendEvent(ev) => self.on_backend(ev),
            _ => UiEffect::Nothing,
        }
    }

    /// File, popup and settings messages.
    #[verifier::spinoff_prover]
    #[verifier::rlimit(50)]
    fn update_ui(&mut self, message: Message) -> (e: UiEffect)
        requires
            !is_media_message(message),
        ensures
            shell_step(*old(self), message, *final(self), e),
    {
        match message {
            Message::OpenFile => UiEffect::PickFile,
            Message::FileSelected(f) => self.on_file_selected(f),
            Message::ModeSelected(mode) => self.on_mode_selected(mode),
            Message::ConfirmMode => self.on_confirm(),
            Message::CancelMode => {
                self.state.cancel_mode_selection();
                UiEffect::Nothing
            },
            Message::ShowSettings(b) => {
                self.state.show_settings = b;
                UiEffect::Nothing
            },
            Message::ShowPlaylist(b) => {
                self.state.show_playlist = b;
                UiEffect::Nothing
            },
            Message::TogglePlaylist => {
                self.state.show_playlist = !self.state.show_playlist;
                UiEffect::Nothing
            },
            Message::TimelineHover(p) => {
                self.state.hover_position_ms = p;
                UiEffect::Nothing
            },
            Message::PreferencesChanged(prefs) => self.on_preferences(prefs),
            Message::ApiKeyChanged(k) => {
                self.state.gemini_api_key = k;
                UiEffect::Nothing
            },
            Message::ApiKeyVisibilityToggled => {
                self.state.gemini_api_key_visible = !self.state.gemini_api_key_visible;
                UiEffect::Nothing
            },
            Message::GeminiModelChanged(model) => {
                self.state.gemini_model = model;
                UiEffect::Nothing
            },
            Message::SaveGeminiConfig => self.on_save_gemini(),
            Message::GeminiConfigSaved(res) => {
                match res {
                    Ok(()) => {
                        self.state.scan_error = None;
                    },
                    Err(msg) => {
                        self.state.scan_error = Some(msg);
                    },
                }
                UiEffect::Nothing
            },
            Message::Shutdown => UiEffect::Exit,
            _ => UiEffect::Nothing,
        }
    }

    /// Handle one message; the effect is the outside work that follows.
    pub fn update(&mut self, message: Message) -> (e: UiEffect)
        requires
            message_ok(old(self).state, message),
        ensures
            shell_step(*old(self), message, *final(self), e),
    {
        match message {
            Message::PlayPause
            | Message::Stop
            | Message::SeekTo(..)
            | Message::ToggleFullscreen
            | Message::ScanProgress(..)
            | Message::ScanComplete(..)
            | Message::ScanError(..)
            | Message::NewScanSegment(..)
            | Message::PositionUpdate(..)
            | Message::StateChanged(..)
            | Message::VideoOpened(..)
            | Message::VideoOpenFailed(..)
            | Message::AutoSkipTriggered(..)
            | Message::TimelineSeekStart
            | Message::TimelineSeekEnd(..)
            | Message::Tick
            | Message::BackendEvent(..) => self.update_media(message),
            _ => self.update_ui(message),
        }
    }
}

/// The arrow keys seek ten seconds (a minute with Shift) from the current
/// position: Left goes back, stopping at zero, Right goes ahead; with Ctrl
/// or Cmd held no key does anything.
pub proof fn law_arrow_shortcuts_seek(s: AppState, shift: bool, key: ShortcutKey)
    ensures
        shortcut_message(s, ShortcutKey::ArrowLeft, false, false) == Some(
            Message::SeekTo(
                if s.position_ms >= 10_000 {
                    (s.position_ms - 10_000) as u64
                } else {
                    0
                },
            ),
        ),
        shortcut_message(s, ShortcutKey::ArrowLeft, true, false) == Some(
            Message::SeekTo(
                if s.position_ms >= 60_000 {
                    (s.position_ms - 60_000) as u64
                } else {
                    0
                },
            ),
        ),
        s.position_ms + 10_000 <= u64::MAX ==> shortcut_message(s, ShortcutKey::ArrowRight, false, false)
            == Some(Message::SeekTo((s.position_ms + 10_000) as u64)),
        s.position_ms + 60_000 <= u64::MAX ==> shortcut_message(s, ShortcutKey::ArrowRight, true, false)
            == Some(Message::SeekTo((s.position_ms + 60_000) as u64)),
        shortcut_message(s, key, shift, true) is None,
{
}

} // verus!
