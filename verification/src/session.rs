//! The player application's state machine: screens, dialogs, menus,
//! subtitle choice, the AI scan's lifecycle and auto-skip. Each event
//! changes the state and names one action for the host to perform.

use vstd::prelude::*;
use vstd::string::StringExecFns;
use crate::clock::{decimal, decimal_string};
use crate::config::str_eq;
use crate::domain::PlaybackMode;
use crate::player::{
    ChapterInfo, RenderQuality, SubTrackInfo, SubtitleOption, build_subtitle_options,
    is_playable_url, playable, stream_display_name, stream_name, is_track, track_label,
};
use crate::scan::trimmed;
use crate::shell::ShortcutKey;
use crate::seqsearch::{first_where, lemma_first_where_unique};
use crate::text::{CharClass, strip};

verus! {

/// The application's screens.
#[derive(Debug, Clone, Copy, PartialEq, Eq, Structural)]
pub enum AppScreen {
    Splash,
    Library,
    Player,
}

/// What the host does after an event.
#[derive(Debug)]
pub enum UiAction {
    Nothing,
    /// Scan the default media folders for videos.
    ScanDefaultDirs,
    /// Show the open-file dialog.
    OpenFileDialog,
    /// Show the folder picker.
    PickFolder,
    /// Load the thumbnails of these videos.
    LoadThumbnails(Vec<String>),
    /// Stop any player and start one on this file.
    SpawnPlayer(String),
    /// Stop any player and start one on this stream URL.
    SpawnStream(String),
    TogglePause,
    SetLoop(bool),
    /// Show or hide captions, selecting a track when one is given.
    SetSubs(bool, Option<i64>),
    SetQuality(RenderQuality),
    /// Run the AI scan of a file.
    StartScan { video_path: String, api_key: String, model: String, prompt: String },
    SeekTo(u64),
    SkipForward,
    SkipBackward,
    /// Seek by this many seconds from where the player is.
    SkipBy(i32),
    SetMini(bool),
    SetFullscreen(bool),
    /// Stop the player and leave.
    Exit,
    /// Stop the player and close the window.
    CloseWindow,
}

/// The events the state machine answers. Times are milliseconds.
#[derive(Debug)]
pub enum UiEvent {
    NavigateTo(AppScreen),
    OpenFile,
    SearchQueryChanged(String),
    SelectVideoWithMode(String, PlaybackMode),
    OpenPreplayDialog(String),
    ClosePreplayDialog,
    LibraryScanned(Vec<String>),
    SelectFolder,
    /// A folder was read: its name and its videos (or the read error).
    FolderScanned(String, Result<Vec<String>, String>),
    VideoSelected(String),
    OpenUrlDialog,
    UrlInputChanged(String),
    AiPromptChanged(String),
    PlayUrl,
    CloseUrlDialog,
    Buffering(bool),
    FileSelected(Option<String>),
    SetPlaybackMode(PlaybackMode),
    ToggleModeMenu,
    PlayPause,
    NextVideo,
    PrevVideo,
    ToggleLoop,
    ToggleCaptions,
    SubTracksLoaded(Vec<SubTrackInfo>),
    SubtitleSelected(SubtitleOption),
    ToggleSettings,
    ToggleAiPanel,
    QualitySelected(RenderQuality),
    GeminiApiKeyChanged(String),
    GeminiModelSelected(String),
    StartAiScan,
    /// A progress label of the running scan.
    AiScanProgress(String),
    AiScanComplete(Vec<(u64, u64)>),
    ChaptersLoaded(Vec<ChapterInfo>),
    ToggleMini,
    SeekTo(u64),
    SkipForward,
    SkipBackward,
    /// Seek by this many seconds (the arrow keys).
    SeekRelative(i32),
    ToggleFullscreen,
    MouseMoved,
    /// The mouse has been still long enough to hide the controls.
    ControlsIdle,
    PositionUpdate(u64, u64),
    MpvError(String),
    CloseRequested,
    CloseWindow,
    Noop,
}

/// The state of the application.
#[derive(Debug)]
pub struct AppModel {
    pub screen: AppScreen,
    pub library_folder: Option<String>,
    pub library_videos: Vec<String>,
    pub search_query: String,
    pub preplay_dialog_open: bool,
    pub preplay_target: Option<String>,
    pub selected_video_path: Option<String>,
    pub stream_title: Option<String>,
    pub url_dialog_open: bool,
    pub url_input: String,
    pub is_buffering: bool,
    pub playback_mode: PlaybackMode,
    pub mode_menu_open: bool,
    pub is_playing: bool,
    pub position_ms: u64,
    pub duration_ms: u64,
    pub status: String,
    pub status_is_error: bool,
    /// A player is running.
    pub has_player: bool,
    pub controls_visible: bool,
    /// Position of the last auto-skip, for debouncing.
    pub last_skip_ms: u64,
    pub is_looping: bool,
    pub show_subs: bool,
    pub sub_tracks: Vec<SubTrackInfo>,
    pub subtitle_options: Vec<SubtitleOption>,
    pub selected_subtitle: SubtitleOption,
    pub settings_open: bool,
    pub ai_panel_open: bool,
    /// An AI scan is running.
    pub scan_running: bool,
    pub scan_status: String,
    /// The auto-skip ranges.
    pub unsafe_segments: Vec<(u64, u64)>,
    pub ai_skip_prompt: String,
    pub gemini_api_key: String,
    pub gemini_model: String,
    pub render_quality: RenderQuality,
    pub chapters: Vec<ChapterInfo>,
    pub is_mini: bool,
    pub is_fullscreen: bool,
}

/// The index of the first entry of `v` equal to `cur`.
pub open spec fn equal_at(v: Seq<String>, cur: Seq<char>) -> spec_fn(int) -> bool {
    |i: int| v[i]@ == cur
}

/// The neighbour `delta` places from the current video in the library.
pub open spec fn neighbor(videos: Seq<String>, current: Option<String>, delta: int) -> Option<String> {
    match current {
        None => None,
        Some(c) => {
            let idx = first_where(videos.len() as int, equal_at(videos, c@));
            let next = idx + delta;
            if idx >= videos.len() || next < 0 || next >= videos.len() {
                None
            } else {
                Some(videos[next])
            }
        },
    }
}

/// Auto-skip debounce: only skip when the position moved on by more than
/// 200 ms since the last skip.
pub open spec fn debounced(pos: u64, last: u64) -> bool {
    pos > last && pos - last > 200
}

/// The first unsafe range holding `pos` for which the debounce allows a
/// skip.
pub open spec fn skip_target(segs: Seq<(u64, u64)>, pos: u64, last: u64) -> spec_fn(int) -> bool {
    |i: int| segs[i].0 <= pos < segs[i].1 && debounced(pos, last)
}

/// The last-skip mark after a position update that skipped nothing: reset
/// to zero once the position is before a range the mark is in or past.
pub open spec fn reset_mark(segs: Seq<(u64, u64)>, pos: u64, last: u64) -> u64 {
    if exists|i: int| 0 <= i < segs.len() && pos < (#[trigger] segs[i]).0 && last >= segs[i].0 {
        0
    } else {
        last
    }
}

impl AppModel {
    /// The starting state: splash screen, safe mode, captions on, no
    /// player, one built-in test range (15 s to 25 s) to skip.
    pub fn new() -> (r: Self)
        ensures
            r.screen == AppScreen::Splash,
            r.playback_mode == PlaybackMode::SafeMode,
            r.library_videos@.len() == 0,
            r.selected_video_path is None,
            r.stream_title is None,
            !r.has_player,
            !r.is_looping,
            r.show_subs,
            r.subtitle_options@ == seq![SubtitleOption::Off],
            r.selected_subtitle == SubtitleOption::Off,
            !r.scan_running,
            r.unsafe_segments@ == seq![(15_000u64, 25_000u64)],
            r.status@ == "Welcome to Otip"@,
            r.gemini_model@ == "gemini-3.8-flash"@,
            r.render_quality == RenderQuality::P360,
            r.controls_visible,
    {
        let mut opts: Vec<SubtitleOption> = Vec::new();
        opts.push(SubtitleOption::Off);
        let mut segs: Vec<(u64, u64)> = Vec::new();
        segs.push((15_000, 25_000));
        AppModel {
            screen: AppScreen::Splash,
            library_folder: None,
            library_videos: Vec::new(),
            search_query: String::new(),
            preplay_dialog_open: false,
            preplay_target: None,
            selected_video_path: None,
            stream_title: None,
            url_dialog_open: false,
            url_input: String::new(),
            is_buffering: false,
            playback_mode: PlaybackMode::SafeMode,
            mode_menu_open: false,
            is_playing: false,
            position_ms: 0,
            duration_ms: 0,
            status: String::from_str("Welcome to Otip"),
            status_is_error: false,
            has_player: false,
            controls_visible: true,
            last_skip_ms: 0,
            is_looping: false,
            show_subs: true,
            sub_tracks: Vec::new(),
            subtitle_options: opts,
            selected_subtitle: SubtitleOption::Off,
            settings_open: false,
            ai_panel_open: false,
            scan_running: false,
            scan_status: String::new(),
            unsafe_segments: segs,
            ai_skip_prompt: String::new(),
            gemini_api_key: String::new(),
            gemini_model: String::from_str("gemini-3.8-flash"),
            render_quality: RenderQuality::P360,
            chapters: Vec::new(),
            is_mini: false,
            is_fullscreen: false,
        }
    }

    /// The video `delta` places from the current one in the library, if
    /// there is one.
    pub fn neighbor_video(&self, delta: isize) -> (r: Option<String>)
        ensures
            r == neighbor(self.library_videos@, self.selected_video_path, delta as int),
    {
        let cur = match &self.selected_video_path {
            Some(c) => c,
            None => {
                return None;
            },
        };
        let v = &self.library_videos;
        let mut i: usize = 0;
        let mut found = false;
        while i < v.len() && !found
            invariant
                0 <= i <= v.len(),
                found ==> i < v.len() && v@[i as int]@ == cur@,
                forall|j: int| 0 <= j < i ==> (#[trigger] v@[j])@ != cur@,
            decreases (v.len() - i) * 2 + if found {
                0int
            } else {
                1int
            },
        {
            if str_eq(v[i].as_str(), cur.as_str()) {
                found = true;
            } else {
                i = i + 1;
            }
        }
        proof {
            assert forall|j: int| 0 <= j < i implies !#[trigger] equal_at(v@, cur@)(j) by {
                assert(v@[j]@ != cur@);
            }
            if i < v.len() {
                assert(equal_at(v@, cur@)(i as int));
            }
            lemma_first_where_unique(v.len() as int, equal_at(v@, cur@), i as int);
        }
        if i == v.len() {
            return None;
        }
        let next: i128 = i as i128 + delta as i128;
        if next < 0 || next >= v.len() as i128 {
            None
        } else {
            Some(v[next as usize].clone())
        }
    }

    /// The title of the window.
    pub fn title(&self) -> (r: String)
        ensures
            r@ == match self.screen {
                AppScreen::Player => match self.selected_video_path {
                    Some(p) => "Otip — "@ + file_name(p@) + " ["@ + crate::domain::mode_label(
                        self.playback_mode,
                    ) + "]"@,
                    None => match self.stream_title {
                        Some(t) => "Otip — "@ + t@ + " ["@ + crate::domain::mode_label(
                            self.playback_mode,
                        ) + "]"@,
                        None => "Otip — Player"@,
                    },
                },
                AppScreen::Library => "Otip — Library"@,
                AppScreen::Splash => "Otip — AI Content Moderator"@,
            },
    {
        match self.screen {
            AppScreen::Player => {
                let name = match &self.selected_video_path {
                    Some(p) => Some(file_name_of(p.as_str())),
                    None => match &self.stream_title {
                        Some(t) => Some(t.clone()),
                        None => None,
                    },
                };
                match name {
                    Some(n) => {
                        let mut r = String::from_str("Otip — ");
                        r.append(n.as_str());
                        r.append(" [");
                        r.append(self.playback_mode.label());
                        r.append("]");
                        r
                    },
                    None => String::from_str("Otip — Player"),
                }
            },
            AppScreen::Library => String::from_str("Otip — Library"),
            AppScreen::Splash => String::from_str("Otip — AI Content Moderator"),
        }
    }
}

/// Position predicate: `p` has a `/` at `k`.
pub open spec fn slash_at(p: Seq<char>) -> spec_fn(int) -> bool {
    |k: int| p[k] == '/'
}

/// The last component of a path: the text after its last `/`.
pub open spec fn file_name(p: Seq<char>) -> Seq<char> {
    let i = crate::seqsearch::last_where(p.len() as int, slash_at(p));
    p.skip(i + 1)
}

/// The file name of a path.
pub fn file_name_of(p: &str) -> (r: String)
    ensures
        r@ == file_name(p@),
{
    let v = crate::text::chars_of(p);
    let mut k = v.len();
    while k > 0 && v[k - 1] != '/'
        invariant
            0 <= k <= v.len(),
            v@ == p@,
            forall|j: int| k <= j < v.len() ==> v@[j] != '/',
        decreases k,
    {
        k = k - 1;
    }
    proof {
        assert forall|j: int| k - 1 < j < p@.len() implies !#[trigger] slash_at(p@)(j) by {
            assert(v@[j] != '/');
        }
        crate::seqsearch::lemma_last_where_unique(p@.len() as int, slash_at(p@), k - 1);
    }
    let mut out: Vec<char> = Vec::new();
    let mut i = k;
    while i < v.len()
        invariant
            k <= i <= v.len(),
            out@ == v@.subrange(k as int, i as int),
        decreases v.len() - i,
    {
        out.push(v[i]);
        assert(out@ =~= v@.subrange(k as int, i + 1));
        i = i + 1;
    }
    assert(out@ =~= file_name(p@));
    crate::text::string_from_chars(&out)
}


/// The state after `o` with controls shown.
pub open spec fn shown(o: AppModel) -> AppModel {
    AppModel { controls_visible: true, ..o }
}

/// `n` is `o` after opening the file `path` in a new player: player
/// screen, playing, controls shown, per-source state reset, loading status.
pub open spec fn video_opened(o: AppModel, n: AppModel, path: String) -> bool {
    &&& n == AppModel {
        selected_video_path: Some(path),
        stream_title: None,
        url_dialog_open: false,
        screen: AppScreen::Player,
        is_playing: true,
        controls_visible: true,
        has_player: true,
        position_ms: 0,
        duration_ms: 0,
        chapters: n.chapters,
        is_buffering: false,
        sub_tracks: n.sub_tracks,
        subtitle_options: n.subtitle_options,
        selected_subtitle: SubtitleOption::Off,
        status: n.status,
        status_is_error: false,
        ..o
    }
    &&& n.chapters@.len() == 0
    &&& n.sub_tracks@.len() == 0
    &&& n.subtitle_options@ == seq![SubtitleOption::Off]
    &&& n.status@ == "Loading: "@ + path@
}

/// `n` is `o` with an error status reading `msg`.
pub open spec fn failed_with(o: AppModel, n: AppModel, msg: Seq<char>) -> bool {
    n == AppModel { status: n.status, status_is_error: true, ..o } && n.status@ == msg
}

/// The action of a player command: the command when a player runs.
pub open spec fn if_player(o: AppModel, a: UiAction, cmd: UiAction) -> bool {
    a == if o.has_player {
        cmd
    } else {
        UiAction::Nothing
    }
}

/// The status after a library listing of `n` videos.
pub open spec fn scanned_status(n: nat) -> Seq<char> {
    if n == 0 {
        "No videos found in Videos/Downloads — use Select Folder"@
    } else {
        "Auto-discovered "@ + decimal(n) + " videos"@
    }
}

/// The thumbnail action for a listing.
pub open spec fn thumbnails_for(a: UiAction, v: Vec<String>) -> bool {
    if v@.len() == 0 {
        a == UiAction::Nothing
    } else {
        a matches UiAction::LoadThumbnails(w) && w@ == v@
    }
}

/// `n` is `o` after a toggled popup: `open` is the popup's new state and
/// opening one closes the other two.
pub open spec fn menus_after(o: AppModel, n: AppModel, mode: bool, settings: bool, ai: bool) -> bool {
    n == AppModel {
        mode_menu_open: mode,
        settings_open: settings,
        ai_panel_open: ai,
        controls_visible: true,
        ..o
    }
}

/// The subtitle selection after captions are turned on or off: turning
/// them on with `Off` selected picks the first track, if there is one.
pub open spec fn caption_choice(o: AppModel, on: bool) -> SubtitleOption {
    if on && o.selected_subtitle == SubtitleOption::Off && o.subtitle_options@.len() > 1 {
        o.subtitle_options@[1]
    } else {
        o.selected_subtitle
    }
}

/// The track id of a choice, when it is a track and captions are on.
pub open spec fn shown_track(on: bool, c: SubtitleOption) -> Option<i64> {
    match c {
        SubtitleOption::Track { id, .. } => if on {
            Some(id)
        } else {
            None
        },
        SubtitleOption::Off => None,
    }
}

/// How the state and the action follow from an event.
pub open spec fn transition(o: AppModel, ev: UiEvent, n: AppModel, a: UiAction) -> bool {
    match ev {
        UiEvent::NavigateTo(s) => step_navigate_to(o, s, n, a),
        UiEvent::OpenFile => step_open_file(o, n, a),
        UiEvent::SearchQueryChanged(q) => step_search_query_changed(o, q, n, a),
        UiEvent::SelectVideoWithMode(p, m) => step_select_video_with_mode(o, p, m, n, a),
        UiEvent::OpenPreplayDialog(p) => step_open_preplay_dialog(o, p, n, a),
        UiEvent::ClosePreplayDialog => step_close_preplay_dialog(o, n, a),
        UiEvent::LibraryScanned(v) => step_library_scanned(o, v, n, a),
        UiEvent::SelectFolder => step_select_folder(o, n, a),
        UiEvent::FolderScanned(folder, res) => step_folder_scanned(o, folder, res, n, a),
        UiEvent::VideoSelected(p) => step_video_selected(o, p, n, a),
        UiEvent::OpenUrlDialog => step_open_url_dialog(o, n, a),
        UiEvent::UrlInputChanged(v) => step_url_input_changed(o, v, n, a),
        UiEvent::AiPromptChanged(v) => step_ai_prompt_changed(o, v, n, a),
        UiEvent::PlayUrl => step_play_url(o, n, a),
        UiEvent::CloseUrlDialog => step_close_url_dialog(o, n, a),
        UiEvent::Buffering(b) => step_buffering(o, b, n, a),
        UiEvent::FileSelected(f) => step_file_selected(o, f, n, a),
        UiEvent::SetPlaybackMode(m) => step_set_playback_mode(o, m, n, a),
        UiEvent::ToggleModeMenu => step_toggle_mode_menu(o, n, a),
        UiEvent::PlayPause => step_play_pause(o, n, a),
        UiEvent::NextVideo => step_next_video(o, n, a),
        UiEvent::PrevVideo => step_prev_video(o, n, a),
        UiEvent::ToggleLoop => step_toggle_loop(o, n, a),
        UiEvent::ToggleCaptions => step_toggle_captions(o, n, a),
        UiEvent::SubTracksLoaded(tracks) => step_sub_tracks_loaded(o, tracks, n, a),
        UiEvent::SubtitleSelected(c) => step_subtitle_selected(o, c, n, a),
        UiEvent::ToggleSettings => step_toggle_settings(o, n, a),
        UiEvent::ToggleAiPanel => step_toggle_ai_panel(o, n, a),
        UiEvent::QualitySelected(q) => step_quality_selected(o, q, n, a),
        UiEvent::GeminiApiKeyChanged(k) => step_gemini_api_key_changed(o, k, n, a),
        UiEvent::GeminiModelSelected(m) => step_gemini_model_selected(o, m, n, a),
        UiEvent::StartAiScan => step_start_ai_scan(o, n, a),
        UiEvent::AiScanProgress(label) => step_ai_scan_progress(o, label, n, a),
        UiEvent::AiScanComplete(segs) => step_ai_scan_complete(o, segs, n, a),
        UiEvent::ChaptersLoaded(c) => step_chapters_loaded(o, c, n, a),
        UiEvent::ToggleMini => step_toggle_mini(o, n, a),
        UiEvent::SeekTo(p) => step_seek_to(o, p, n, a),
        UiEvent::SkipForward => step_skip_forward(o, n, a),
        UiEvent::SkipBackward => step_skip_backward(o, n, a),
        UiEvent::SeekRelative(d) => step_seek_relative(o, d, n, a),
        UiEvent::ToggleFullscreen => step_toggle_fullscreen(o, n, a),
        UiEvent::MouseMoved => step_mouse_moved(o, n, a),
        UiEvent::ControlsIdle => step_controls_idle(o, n, a),
        UiEvent::PositionUpdate(pos, dur) => step_position_update(o, pos, dur, n, a),
        UiEvent::MpvError(e) => step_mpv_error(o, e, n, a),
        UiEvent::CloseRequested => step_close_requested(o, n, a),
        UiEvent::CloseWindow => step_close_window(o, n, a),
        UiEvent::Noop => step_noop(o, n, a),
    }
}

pub open spec fn step_navigate_to(o: AppModel, s: AppScreen, n: AppModel, a: UiAction) -> bool {
    n == AppModel { screen: s, ..o } && a == if s == AppScreen::Library
        && o.library_videos@.len() == 0 {
        UiAction::ScanDefaultDirs
    } else {
        UiAction::Nothing
    }
}

pub open spec fn step_open_file(o: AppModel, n: AppModel, a: UiAction) -> bool {
    n == o && a == UiAction::OpenFileDialog
}

pub open spec fn step_search_query_changed(o: AppModel, q: String, n: AppModel, a: UiAction) -> bool {
    n == AppModel { search_query: q, ..o } && a
        == UiAction::Nothing
}

pub open spec fn step_select_video_with_mode(o: AppModel, p: String, m: PlaybackMode, n: AppModel, a: UiAction) -> bool {
    video_opened(
        AppModel { playback_mode: m, preplay_dialog_open: false, preplay_target: None, ..o },
        n,
        p,
    ) && a == UiAction::SpawnPlayer(p)
}

pub open spec fn step_open_preplay_dialog(o: AppModel, p: String, n: AppModel, a: UiAction) -> bool {
    n == AppModel {
        preplay_target: Some(p),
        preplay_dialog_open: true,
        ..o
    } && a == UiAction::Nothing
}

pub open spec fn step_close_preplay_dialog(o: AppModel, n: AppModel, a: UiAction) -> bool {
    n == AppModel {
        preplay_dialog_open: false,
        preplay_target: None,
        ..o
    } && a == UiAction::Nothing
}

pub open spec fn step_library_scanned(o: AppModel, v: Vec<String>, n: AppModel, a: UiAction) -> bool {
        &&& n == AppModel { library_videos: v, status: n.status, status_is_error: false, ..o }
        &&& n.status@ == scanned_status(v@.len())
        &&& thumbnails_for(a, v)
    }

pub open spec fn step_select_folder(o: AppModel, n: AppModel, a: UiAction) -> bool {
    n == o && a == UiAction::PickFolder
}

pub open spec fn step_folder_scanned(o: AppModel, folder: String, res: Result<Vec<String>, String>, n: AppModel, a: UiAction) -> bool {
    match res {
            Ok(v) => {
                &&& n == AppModel {
                    library_folder: Some(folder),
                    library_videos: v,
                    status: n.status,
                    status_is_error: false,
                    ..o
                }
                &&& n.status@ == "Found "@ + decimal(v@.len()) + " videos in "@ + folder@
                &&& thumbnails_for(a, v)
            },
            Err(e) => {
                &&& n == AppModel {
                    library_folder: Some(folder),
                    library_videos: n.library_videos,
                    status: n.status,
                    status_is_error: true,
                    ..o
                }
                &&& n.library_videos@.len() == 0
                &&& n.status@ == "Failed to read folder: "@ + e@
                &&& a == UiAction::Nothing
            },
        }
}

pub open spec fn step_video_selected(o: AppModel, p: String, n: AppModel, a: UiAction) -> bool {
    video_opened(o, n, p) && a == UiAction::SpawnPlayer(p)
}

pub open spec fn step_open_url_dialog(o: AppModel, n: AppModel, a: UiAction) -> bool {
    n == AppModel {
        url_dialog_open: true,
        url_input: n.url_input,
        ..o
    } && n.url_input@.len() == 0 && a == UiAction::Nothing
}

pub open spec fn step_url_input_changed(o: AppModel, v: String, n: AppModel, a: UiAction) -> bool {
    n == AppModel { url_input: v, ..o } && a == UiAction::Nothing
}

pub open spec fn step_ai_prompt_changed(o: AppModel, v: String, n: AppModel, a: UiAction) -> bool {
    n == AppModel { ai_skip_prompt: v, ..o } && a
        == UiAction::Nothing
}

pub open spec fn step_play_url(o: AppModel, n: AppModel, a: UiAction) -> bool {
        let url = strip(o.url_input@, CharClass::Space);
        if !playable(url) {
            failed_with(o, n, "Enter a direct http(s) media or HLS/DASH playlist URL"@) && a
                == UiAction::Nothing
        } else {
            &&& n == AppModel {
                url_dialog_open: false,
                selected_video_path: None,
                stream_title: n.stream_title,
                screen: AppScreen::Player,
                is_playing: true,
                controls_visible: true,
                has_player: true,
                position_ms: 0,
                duration_ms: 0,
                chapters: n.chapters,
                is_buffering: false,
                sub_tracks: n.sub_tracks,
                subtitle_options: n.subtitle_options,
                selected_subtitle: SubtitleOption::Off,
                status: n.status,
                status_is_error: false,
                ..o
            }
            &&& n.stream_title matches Some(t) && t@ == stream_name(url)
            &&& n.chapters@.len() == 0
            &&& n.sub_tracks@.len() == 0
            &&& n.subtitle_options@ == seq![SubtitleOption::Off]
            &&& n.status@ == "Loading stream: "@ + url
            &&& a matches UiAction::SpawnStream(u) && u@ == url
        }
    }

pub open spec fn step_close_url_dialog(o: AppModel, n: AppModel, a: UiAction) -> bool {
    n == AppModel { url_dialog_open: false, ..o } && a
        == UiAction::Nothing
}

pub open spec fn step_buffering(o: AppModel, b: bool, n: AppModel, a: UiAction) -> bool {
    n == AppModel { is_buffering: b, ..o } && a == UiAction::Nothing
}

pub open spec fn step_file_selected(o: AppModel, f: Option<String>, n: AppModel, a: UiAction) -> bool {
    match f {
            Some(p) => video_opened(o, n, p) && a == UiAction::SpawnPlayer(p),
            None => n == o && a == UiAction::Nothing,
        }
}

pub open spec fn step_set_playback_mode(o: AppModel, m: PlaybackMode, n: AppModel, a: UiAction) -> bool {
    n == AppModel {
        playback_mode: m,
        mode_menu_open: false,
        ..o
    } && a == UiAction::Nothing
}

pub open spec fn step_toggle_mode_menu(o: AppModel, n: AppModel, a: UiAction) -> bool {
        let open = !o.mode_menu_open;
        menus_after(
            o,
            n,
            open,
            if open {
                false
            } else {
                o.settings_open
            },
            if open {
                false
            } else {
                o.ai_panel_open
            },
        ) && a == UiAction::Nothing
    }

pub open spec fn step_play_pause(o: AppModel, n: AppModel, a: UiAction) -> bool {
    n == AppModel { is_playing: !o.is_playing, ..o } && if_player(
        o,
        a,
        UiAction::TogglePause,
    )
}

pub open spec fn step_next_video(o: AppModel, n: AppModel, a: UiAction) -> bool {
    match neighbor(o.library_videos@, o.selected_video_path, 1) {
            Some(p) => video_opened(shown(o), n, p) && a == UiAction::SpawnPlayer(p),
            None => n == shown(o) && a == UiAction::Nothing,
        }
}

pub open spec fn step_prev_video(o: AppModel, n: AppModel, a: UiAction) -> bool {
    match neighbor(o.library_videos@, o.selected_video_path, -1) {
            Some(p) => video_opened(shown(o), n, p) && a == UiAction::SpawnPlayer(p),
            None => n == shown(o) && a == UiAction::Nothing,
        }
}

pub open spec fn step_toggle_loop(o: AppModel, n: AppModel, a: UiAction) -> bool {
    n == AppModel {
        is_looping: !o.is_looping,
        controls_visible: true,
        ..o
    } && if_player(o, a, UiAction::SetLoop(!o.is_looping))
}

pub open spec fn step_toggle_captions(o: AppModel, n: AppModel, a: UiAction) -> bool {
        let on = !o.show_subs;
        let sel = caption_choice(o, on);
        &&& n == AppModel {
            show_subs: on,
            selected_subtitle: sel,
            controls_visible: true,
            ..o
        }
        &&& if_player(o, a, UiAction::SetSubs(on, shown_track(on, sel)))
    }

pub open spec fn step_sub_tracks_loaded(o: AppModel, tracks: Vec<SubTrackInfo>, n: AppModel, a: UiAction) -> bool {
        let auto = o.show_subs && o.selected_subtitle == SubtitleOption::Off && tracks@.len() > 0;
        &&& n == AppModel {
            sub_tracks: tracks,
            subtitle_options: n.subtitle_options,
            selected_subtitle: n.selected_subtitle,
            ..o
        }
        &&& n.subtitle_options@.len() == tracks@.len() + 1
        &&& n.subtitle_options@[0] == SubtitleOption::Off
        &&& forall|i: int|
            0 <= i < tracks@.len() ==> is_track(
                #[trigger] n.subtitle_options@[i + 1],
                tracks@[i].id,
                track_label(tracks@[i]),
            )
        &&& n.selected_subtitle == if auto {
            n.subtitle_options@[1]
        } else {
            o.selected_subtitle
        }
        &&& a == if auto && o.has_player {
            UiAction::SetSubs(true, Some(tracks@[0].id))
        } else {
            UiAction::Nothing
        }
    }

pub open spec fn step_subtitle_selected(o: AppModel, c: SubtitleOption, n: AppModel, a: UiAction) -> bool {
        let on = c is Track;
        &&& n == AppModel {
            selected_subtitle: c,
            show_subs: on,
            controls_visible: true,
            ..o
        }
        &&& if_player(o, a, UiAction::SetSubs(on, shown_track(on, c)))
    }

pub open spec fn step_toggle_settings(o: AppModel, n: AppModel, a: UiAction) -> bool {
        let open = !o.settings_open;
        menus_after(
            o,
            n,
            if open {
                false
            } else {
                o.mode_menu_open
            },
            open,
            if open {
                false
            } else {
                o.ai_panel_open
            },
        ) && a == UiAction::Nothing
    }

pub open spec fn step_toggle_ai_panel(o: AppModel, n: AppModel, a: UiAction) -> bool {
        let open = !o.ai_panel_open;
        menus_after(
            o,
            n,
            if open {
                false
            } else {
                o.mode_menu_open
            },
            if open {
                false
            } else {
                o.settings_open
            },
            open,
        ) && a == UiAction::Nothing
    }

pub open spec fn step_quality_selected(o: AppModel, q: RenderQuality, n: AppModel, a: UiAction) -> bool {
    n == AppModel {
        render_quality: q,
        controls_visible: true,
        ..o
    } && if_player(o, a, UiAction::SetQuality(q))
}

pub open spec fn step_gemini_api_key_changed(o: AppModel, k: String, n: AppModel, a: UiAction) -> bool {
    n == AppModel {
        gemini_api_key: k,
        controls_visible: true,
        ..o
    } && a == UiAction::Nothing
}

pub open spec fn step_gemini_model_selected(o: AppModel, m: String, n: AppModel, a: UiAction) -> bool {
    n == AppModel {
        gemini_model: m,
        controls_visible: true,
        ..o
    } && a == UiAction::Nothing
}

pub open spec fn step_start_ai_scan(o: AppModel, n: AppModel, a: UiAction) -> bool {
    if strip(o.gemini_api_key@, CharClass::Space).len() == 0 {
            failed_with(o, n, "Enter your Gemini API key to run AI scan"@) && a == UiAction::Nothing
        } else if !o.has_player || o.selected_video_path is None {
            failed_with(o, n, "Load a local video before starting AI scan"@) && a
                == UiAction::Nothing
        } else {
            &&& n == AppModel {
                status: n.status,
                status_is_error: false,
                scan_running: true,
                scan_status: n.scan_status,
                controls_visible: true,
                ..o
            }
            &&& n.status@ == "Scanning video with AI..."@
            &&& n.scan_status@ == "Starting AI scan..."@
            &&& a == UiAction::StartScan {
                video_path: o.selected_video_path->0,
                api_key: o.gemini_api_key,
                model: o.gemini_model,
                prompt: o.ai_skip_prompt,
            }
        }
}

pub open spec fn step_ai_scan_progress(o: AppModel, label: String, n: AppModel, a: UiAction) -> bool {
    n == AppModel {
        scan_running: true,
        scan_status: label,
        controls_visible: true,
        ..o
    } && a == UiAction::Nothing
}

pub open spec fn step_ai_scan_complete(o: AppModel, segs: Vec<(u64, u64)>, n: AppModel, a: UiAction) -> bool {
        &&& n == AppModel {
            unsafe_segments: segs,
            scan_running: false,
            scan_status: n.scan_status,
            status: n.status,
            status_is_error: false,
            controls_visible: true,
            ..o
        }
        &&& n.scan_status@.len() == 0
        &&& n.status@ == "AI Scan Complete: Found "@ + decimal(segs@.len())
            + " skip segments!"@
        &&& a == UiAction::Nothing
    }

pub open spec fn step_chapters_loaded(o: AppModel, c: Vec<ChapterInfo>, n: AppModel, a: UiAction) -> bool {
    n == AppModel { chapters: c, ..o } && a == UiAction::Nothing
}

pub open spec fn step_toggle_mini(o: AppModel, n: AppModel, a: UiAction) -> bool {
    n == AppModel {
        is_mini: !o.is_mini,
        controls_visible: true,
        ..o
    } && a == UiAction::SetMini(!o.is_mini)
}

pub open spec fn step_seek_to(o: AppModel, p: u64, n: AppModel, a: UiAction) -> bool {
    n == AppModel {
        position_ms: p,
        controls_visible: true,
        ..o
    } && if_player(o, a, UiAction::SeekTo(p))
}

pub open spec fn step_skip_forward(o: AppModel, n: AppModel, a: UiAction) -> bool {
    n == AppModel {
        position_ms: if o.position_ms + 10_000 < o.duration_ms {
            (o.position_ms + 10_000) as u64
        } else {
            o.duration_ms
        },
        controls_visible: true,
        ..o
    } && if_player(o, a, UiAction::SkipForward)
}

pub open spec fn step_skip_backward(o: AppModel, n: AppModel, a: UiAction) -> bool {
    n == AppModel {
        position_ms: if o.position_ms >= 10_000 {
            (o.position_ms - 10_000) as u64
        } else {
            0
        },
        controls_visible: true,
        ..o
    } && if_player(o, a, UiAction::SkipBackward)
}

/// The position `d` seconds on from `pos`: forward stopping at the
/// duration, back stopping at zero.
pub open spec fn moved_by(pos: u64, dur: u64, d: i32) -> u64 {
    if d > 0 {
        if pos + d * 1000 < dur {
            (pos + d * 1000) as u64
        } else {
            dur
        }
    } else if pos >= -d * 1000 {
        (pos + d * 1000) as u64
    } else {
        0
    }
}

pub open spec fn step_seek_relative(o: AppModel, d: i32, n: AppModel, a: UiAction) -> bool {
    n == AppModel {
        position_ms: moved_by(o.position_ms, o.duration_ms, d),
        controls_visible: true,
        ..o
    } && if_player(o, a, UiAction::SkipBy(d))
}

pub open spec fn step_toggle_fullscreen(o: AppModel, n: AppModel, a: UiAction) -> bool {
    n == AppModel {
        is_fullscreen: !o.is_fullscreen,
        controls_visible: true,
        ..o
    } && a == UiAction::SetFullscreen(!o.is_fullscreen)
}

pub open spec fn step_mouse_moved(o: AppModel, n: AppModel, a: UiAction) -> bool {
    n == shown(o) && a == UiAction::Nothing
}

pub open spec fn step_controls_idle(o: AppModel, n: AppModel, a: UiAction) -> bool {
    n == (if o.screen == AppScreen::Player && o.controls_visible {
        AppModel { controls_visible: false, ..o }
    } else {
        o
    }) && a == UiAction::Nothing
}

/// The auto-skip decision at `pos` with last-skip mark `last`: the new
/// mark, and the position to seek to when a skip happens.
pub open spec fn skip_decision(segs: Seq<(u64, u64)>, pos: u64, last: u64) -> (u64, Option<u64>) {
    let f = first_where(segs.len() as int, skip_target(segs, pos, last));
    if f < segs.len() {
        (pos, Some(segs[f].1))
    } else {
        (reset_mark(segs, pos, last), None)
    }
}

pub open spec fn step_position_update(o: AppModel, pos: u64, dur: u64, n: AppModel, a: UiAction) -> bool {
    let base = AppModel { position_ms: pos, duration_ms: dur, ..o };
    if o.playback_mode != PlaybackMode::AutoSkip {
        n == base && a == UiAction::Nothing
    } else {
        let d = skip_decision(o.unsafe_segments@, pos, o.last_skip_ms);
        &&& n == AppModel { last_skip_ms: d.0, ..base }
        &&& a == match d.1 {
            Some(e) => if o.has_player {
                UiAction::SeekTo(e)
            } else {
                UiAction::Nothing
            },
            None => UiAction::Nothing,
        }
    }
}

pub open spec fn step_mpv_error(o: AppModel, e: String, n: AppModel, a: UiAction) -> bool {
    failed_with(o, n, "MPV error: "@ + e@) && a == UiAction::Nothing
}

pub open spec fn step_close_requested(o: AppModel, n: AppModel, a: UiAction) -> bool {
    n == AppModel { has_player: false, ..o } && a == UiAction::Exit
}

pub open spec fn step_close_window(o: AppModel, n: AppModel, a: UiAction) -> bool {
    n == o && a == UiAction::CloseWindow
}

pub open spec fn step_noop(o: AppModel, n: AppModel, a: UiAction) -> bool {
    n == o && a == UiAction::Nothing
}

/// `a` followed by `b`.
fn joined(a: &str, b: &str) -> (r: String)
    ensures
        r@ == a@ + b@,
{
    let mut r = String::from_str(a);
    r.append(b);
    r
}

/// A copy of a subtitle choice.
fn copy_choice(c: &SubtitleOption) -> (r: SubtitleOption)
    ensures
        r == *c,
{
    match c {
        SubtitleOption::Off => SubtitleOption::Off,
        SubtitleOption::Track { id, label } => SubtitleOption::Track { id: *id, label: label.clone() },
    }
}

/// A copy of a list of strings.
fn copy_strings(v: &Vec<String>) -> (r: Vec<String>)
    ensures
        r@ == v@,
{
    let mut out: Vec<String> = Vec::new();
    let mut i: usize = 0;
    while i < v.len()
        invariant
            0 <= i <= v.len(),
            out@ == v@.take(i as int),
        decreases v.len() - i,
    {
        out.push(v[i].clone());
        assert(out@ =~= v@.take(i + 1));
        i = i + 1;
    }
    assert(v@.take(v.len() as int) =~= v@);
    out
}

/// How long the mouse must rest before the player's controls hide.
pub const CONTROLS_HIDE_DELAY_MS: u64 = 3000;

/// The event of a key press: nothing while the URL dialog is open or with
/// Ctrl or Cmd held; Space plays or pauses; Left and Right seek 5 s back or
/// ahead from where the player is; F, C and L toggle
/// fullscreen, captions and loop. Up, Down and M change the volume, which
/// the host keeps.
pub open spec fn key_event_of(o: AppModel, key: ShortcutKey, command: bool) -> Option<UiEvent> {
    if o.url_dialog_open || command {
        None
    } else {
        match key {
            ShortcutKey::Space => Some(UiEvent::PlayPause),
            ShortcutKey::ArrowLeft => Some(UiEvent::SeekRelative(-5i32)),
            ShortcutKey::ArrowRight => Some(UiEvent::SeekRelative(5i32)),
            ShortcutKey::F => Some(UiEvent::ToggleFullscreen),
            ShortcutKey::C => Some(UiEvent::ToggleCaptions),
            ShortcutKey::L => Some(UiEvent::ToggleLoop),
            _ => None,
        }
    }
}

/// Whether a tick after `idle_ms` milliseconds without mouse movement hides
/// the controls: on the player, while they show, after more than
/// `CONTROLS_HIDE_DELAY_MS`.
pub open spec fn hides_controls(o: AppModel, idle_ms: u64) -> bool {
    o.screen == AppScreen::Player && o.controls_visible && idle_ms > CONTROLS_HIDE_DELAY_MS
}

impl AppModel {
    /// The event of a key press (see `key_event_of`).
    pub fn key_event(&self, key: ShortcutKey, command: bool) -> (r: Option<UiEvent>)
        ensures
            r == key_event_of(*self, key, command),
    {
        if self.url_dialog_open || command {
            return None;
        }
        match key {
            ShortcutKey::Space => Some(UiEvent::PlayPause),
            ShortcutKey::ArrowLeft => Some(UiEvent::SeekRelative(-5i32)),
            ShortcutKey::ArrowRight => Some(UiEvent::SeekRelative(5i32)),
            ShortcutKey::F => Some(UiEvent::ToggleFullscreen),
            ShortcutKey::C => Some(UiEvent::ToggleCaptions),
            ShortcutKey::L => Some(UiEvent::ToggleLoop),
            _ => None,
        }
    }

    /// The event of a periodic tick, `idle_ms` milliseconds after the last
    /// mouse movement: `ControlsIdle` when the controls are to hide.
    pub fn tick_event(&self, idle_ms: u64) -> (r: Option<UiEvent>)
        ensures
            r == (if hides_controls(*self, idle_ms) {
                Some(UiEvent::ControlsIdle)
            } else {
                None::<UiEvent>
            }),
    {
        if self.screen == AppScreen::Player && self.controls_visible && idle_ms > CONTROLS_HIDE_DELAY_MS {
            Some(UiEvent::ControlsIdle)
        } else {
            None
        }
    }
}

impl AppModel {
    /// Open a file in a new player.
    fn open_video(&mut self, path: String) -> (r: UiAction)
        ensures
            video_opened(*old(self), *final(self), path),
            r == UiAction::SpawnPlayer(path),
    {
        let status = joined("Loading: ", path.as_str());
        self.selected_video_path = Some(path.clone());
        self.stream_title = None;
        self.url_dialog_open = false;
        self.screen = AppScreen::Player;
        self.is_playing = true;
        self.controls_visible = true;
        self.has_player = true;
        self.reset_source_state();
        self.status = status;
        self.status_is_error = false;
        UiAction::SpawnPlayer(path)
    }

    /// Reset per-source state: position, chapters, subtitles, buffering.
    fn reset_source_state(&mut self)
        ensures
            *final(self) == (AppModel {
                position_ms: 0,
                duration_ms: 0,
                chapters: final(self).chapters,
                is_buffering: false,
                sub_tracks: final(self).sub_tracks,
                subtitle_options: final(self).subtitle_options,
                selected_subtitle: SubtitleOption::Off,
                ..*old(self)
            }),
            final(self).chapters@.len() == 0,
            final(self).sub_tracks@.len() == 0,
            final(self).subtitle_options@ == seq![SubtitleOption::Off],
    {
        self.position_ms = 0;
        self.duration_ms = 0;
        self.chapters = Vec::new();
        self.is_buffering = false;
        self.sub_tracks = Vec::new();
        let mut opts: Vec<SubtitleOption> = Vec::new();
        opts.push(SubtitleOption::Off);
        self.subtitle_options = opts;
        self.selected_subtitle = SubtitleOption::Off;
    }

    /// Set an error status.
    fn fail(&mut self, msg: String)
        ensures
            failed_with(*old(self), *final(self), msg@),
    {
        self.status = msg;
        self.status_is_error = true;
    }

    /// Answer one event: update the state and name the host's action.
    pub fn update(&mut self, ev: UiEvent) -> (r: UiAction)
        ensures
            transition(*old(self), ev, *final(self), r),
    {
        match ev {
            UiEvent::NavigateTo(screen) => self.on_navigate_to(screen),
            UiEvent::OpenFile => self.on_open_file(),
            UiEvent::SearchQueryChanged(q) => self.on_search_query_changed(q),
            UiEvent::SelectVideoWithMode(path, mode) => self.on_select_video_with_mode(path, mode),
            UiEvent::OpenPreplayDialog(path) => self.on_open_preplay_dialog(path),
            UiEvent::ClosePreplayDialog => self.on_close_preplay_dialog(),
            UiEvent::LibraryScanned(videos) => self.on_library_scanned(videos),
            UiEvent::SelectFolder => self.on_select_folder(),
            UiEvent::FolderScanned(folder, res) => self.on_folder_scanned(folder, res),
            UiEvent::VideoSelected(path) => self.on_video_selected(path),
            UiEvent::OpenUrlDialog => self.on_open_url_dialog(),
            UiEvent::UrlInputChanged(v) => self.on_url_input_changed(v),
            UiEvent::AiPromptChanged(v) => self.on_ai_prompt_changed(v),
            UiEvent::PlayUrl => self.on_play_url(),
            UiEvent::CloseUrlDialog => self.on_close_url_dialog(),
            UiEvent::Buffering(b) => self.on_buffering(b),
            UiEvent::FileSelected(f) => self.on_file_selected(f),
            UiEvent::SetPlaybackMode(m) => self.on_set_playback_mode(m),
            UiEvent::ToggleModeMenu => self.on_toggle_mode_menu(),
            UiEvent::PlayPause => self.on_play_pause(),
            UiEvent::NextVideo => self.on_next_video(),
            UiEvent::PrevVideo => self.on_prev_video(),
            UiEvent::ToggleLoop => self.on_toggle_loop(),
            UiEvent::ToggleCaptions => self.on_toggle_captions(),
            UiEvent::SubTracksLoaded(tracks) => self.on_sub_tracks_loaded(tracks),
            UiEvent::SubtitleSelected(choice) => self.on_subtitle_selected(choice),
            UiEvent::ToggleSettings => self.on_toggle_settings(),
            UiEvent::ToggleAiPanel => self.on_toggle_ai_panel(),
            UiEvent::QualitySelected(q) => self.on_quality_selected(q),
            UiEvent::GeminiApiKeyChanged(k) => self.on_gemini_api_key_changed(k),
            UiEvent::GeminiModelSelected(m) => self.on_gemini_model_selected(m),
            UiEvent::StartAiScan => self.on_start_ai_scan(),
            UiEvent::AiScanProgress(label) => self.on_ai_scan_progress(label),
            UiEvent::AiScanComplete(segments) => self.on_ai_scan_complete(segments),
            UiEvent::ChaptersLoaded(c) => self.on_chapters_loaded(c),
            UiEvent::ToggleMini => self.on_toggle_mini(),
            UiEvent::SeekTo(p) => self.on_seek_to(p),
            UiEvent::SkipForward => self.on_skip_forward(),
            UiEvent::SkipBackward => self.on_skip_backward(),
            UiEvent::SeekRelative(d) => self.on_seek_relative(d),
            UiEvent::ToggleFullscreen => self.on_toggle_fullscreen(),
            UiEvent::MouseMoved => self.on_mouse_moved(),
            UiEvent::ControlsIdle => self.on_controls_idle(),
            UiEvent::PositionUpdate(pos, dur) => self.on_position_update(pos, dur),
            UiEvent::MpvError(e) => self.on_mpv_error(e),
            UiEvent::CloseRequested => self.on_close_requested(),
            UiEvent::CloseWindow => self.on_close_window(),
            UiEvent::Noop => self.on_noop(),
        }
    }

    fn on_navigate_to(&mut self, screen: AppScreen) -> (r: UiAction)
        ensures
            step_navigate_to(*old(self), screen, *final(self), r),
    {
        self.screen = screen;
        if screen == AppScreen::Library && self.library_videos.len() == 0 {
            UiAction::ScanDefaultDirs
        } else {
            UiAction::Nothing
        }
    }

    fn on_open_file(&mut self) -> (r: UiAction)
        ensures
            step_open_file(*old(self), *final(self), r),
    {
        UiAction::OpenFileDialog
    }

    fn on_search_query_changed(&mut self, q: String) -> (r: UiAction)
        ensures
            step_search_query_changed(*old(self), q, *final(self), r),
    {
        self.search_query = q;
        UiAction::Nothing
    }

    fn on_select_video_with_mode(&mut self, path: String, mode: PlaybackMode) -> (r: UiAction)
        ensures
            step_select_video_with_mode(*old(self), path, mode, *final(self), r),
    {
        self.playback_mode = mode;
        self.preplay_dialog_open = false;
        self.preplay_target = None;
        self.open_video(path)
    }

    fn on_open_preplay_dialog(&mut self, path: String) -> (r: UiAction)
        ensures
            step_open_preplay_dialog(*old(self), path, *final(self), r),
    {
        self.preplay_target = Some(path);
        self.preplay_dialog_open = true;
        UiAction::Nothing
    }

    fn on_close_preplay_dialog(&mut self) -> (r: UiAction)
        ensures
            step_close_preplay_dialog(*old(self), *final(self), r),
    {
        self.preplay_dialog_open = false;
        self.preplay_target = None;
        UiAction::Nothing
    }

    fn on_library_scanned(&mut self, videos: Vec<String>) -> (r: UiAction)
        ensures
            step_library_scanned(*old(self), videos, *final(self), r),
    {
        let n = videos.len();
        let status = if n == 0 {
            String::from_str("No videos found in Videos/Downloads — use Select Folder")
        } else {
            let d = decimal_string(n as u64);
            let mut st = joined("Auto-discovered ", d.as_str());
            st.append(" videos");
            st
        };
        self.status = status;
        self.status_is_error = false;
        let action = if n == 0 {
            UiAction::Nothing
        } else {
            UiAction::LoadThumbnails(copy_strings(&videos))
        };
        self.library_videos = videos;
        action
    }

    fn on_select_folder(&mut self) -> (r: UiAction)
        ensures
            step_select_folder(*old(self), *final(self), r),
    {
        UiAction::PickFolder
    }

    fn on_folder_scanned(&mut self, folder: String, res: Result<Vec<String>, String>) -> (r: UiAction)
        ensures
            step_folder_scanned(*old(self), folder, res, *final(self), r),
    {
        match res {
            Ok(videos) => {
                let n = videos.len();
                let d = decimal_string(n as u64);
                let mut st = joined("Found ", d.as_str());
                st.append(" videos in ");
                st.append(folder.as_str());
                self.library_folder = Some(folder);
                self.status = st;
                self.status_is_error = false;
                let action = if n == 0 {
                    UiAction::Nothing
                } else {
                    UiAction::LoadThumbnails(copy_strings(&videos))
                };
                self.library_videos = videos;
                action
            },
            Err(e) => {
                self.library_folder = Some(folder);
                self.status = joined("Failed to read folder: ", e.as_str());
                self.status_is_error = true;
                self.library_videos = Vec::new();
                UiAction::Nothing
            },
        }
    }

    fn on_video_selected(&mut self, path: String) -> (r: UiAction)
        ensures
            step_video_selected(*old(self), path, *final(self), r),
    {
        self.open_video(path)
    }

    fn on_open_url_dialog(&mut self) -> (r: UiAction)
        ensures
            step_open_url_dialog(*old(self), *final(self), r),
    {
        self.url_dialog_open = true;
        self.url_input = String::new();
        UiAction::Nothing
    }

    fn on_url_input_changed(&mut self, v: String) -> (r: UiAction)
        ensures
            step_url_input_changed(*old(self), v, *final(self), r),
    {
        self.url_input = v;
        UiAction::Nothing
    }

    fn on_ai_prompt_changed(&mut self, v: String) -> (r: UiAction)
        ensures
            step_ai_prompt_changed(*old(self), v, *final(self), r),
    {
        self.ai_skip_prompt = v;
        UiAction::Nothing
    }

    fn on_play_url(&mut self) -> (r: UiAction)
        ensures
            step_play_url(*old(self), *final(self), r),
    {
        let url = trimmed(self.url_input.as_str());
        if !is_playable_url(url.as_str()) {
            self.fail(String::from_str("Enter a direct http(s) media or HLS/DASH playlist URL"));
            return UiAction::Nothing;
        }
        let title = stream_display_name(url.as_str());
        self.url_dialog_open = false;
        self.selected_video_path = None;
        self.stream_title = Some(title);
        self.screen = AppScreen::Player;
        self.is_playing = true;
        self.controls_visible = true;
        self.has_player = true;
        self.reset_source_state();
        self.status = joined("Loading stream: ", url.as_str());
        self.status_is_error = false;
        UiAction::SpawnStream(url)
    }

    fn on_close_url_dialog(&mut self) -> (r: UiAction)
        ensures
            step_close_url_dialog(*old(self), *final(self), r),
    {
        self.url_dialog_open = false;
        UiAction::Nothing
    }

    fn on_buffering(&mut self, b: bool) -> (r: UiAction)
        ensures
            step_buffering(*old(self), b, *final(self), r),
    {
        self.is_buffering = b;
        UiAction::Nothing
    }

    fn on_file_selected(&mut self, f: Option<String>) -> (r: UiAction)
        ensures
            step_file_selected(*old(self), f, *final(self), r),
    {
        match f {
                Some(path) => self.open_video(path),
                None => UiAction::Nothing,
            }
    }

    fn on_set_playback_mode(&mut self, m: PlaybackMode) -> (r: UiAction)
        ensures
            step_set_playback_mode(*old(self), m, *final(self), r),
    {
        self.playback_mode = m;
        self.mode_menu_open = false;
        UiAction::Nothing
    }

    fn on_toggle_mode_menu(&mut self) -> (r: UiAction)
        ensures
            step_toggle_mode_menu(*old(self), *final(self), r),
    {
        self.mode_menu_open = !self.mode_menu_open;
        if self.mode_menu_open {
            self.settings_open = false;
            self.ai_panel_open = false;
        }
        self.controls_visible = true;
        UiAction::Nothing
    }

    fn on_play_pause(&mut self) -> (r: UiAction)
        ensures
            step_play_pause(*old(self), *final(self), r),
    {
        self.is_playing = !self.is_playing;
        if self.has_player {
            UiAction::TogglePause
        } else {
            UiAction::Nothing
        }
    }

    fn on_next_video(&mut self) -> (r: UiAction)
        ensures
            step_next_video(*old(self), *final(self), r),
    {
        self.controls_visible = true;
        match self.neighbor_video(1) {
            Some(next) => self.open_video(next),
            None => UiAction::Nothing,
        }
    }

    fn on_prev_video(&mut self) -> (r: UiAction)
        ensures
            step_prev_video(*old(self), *final(self), r),
    {
        self.controls_visible = true;
        match self.neighbor_video(-1) {
            Some(prev) => self.open_video(prev),
            None => UiAction::Nothing,
        }
    }

    fn on_toggle_loop(&mut self) -> (r: UiAction)
        ensures
            step_toggle_loop(*old(self), *final(self), r),
    {
        self.is_looping = !self.is_looping;
        self.controls_visible = true;
        if self.has_player {
            UiAction::SetLoop(self.is_looping)
        } else {
            UiAction::Nothing
        }
    }

    fn on_toggle_captions(&mut self) -> (r: UiAction)
        ensures
            step_toggle_captions(*old(self), *final(self), r),
    {
        self.show_subs = !self.show_subs;
        self.controls_visible = true;
        if self.show_subs {
            let is_off = match &self.selected_subtitle {
                SubtitleOption::Off => true,
                _ => false,
            };
            if is_off && self.subtitle_options.len() > 1 {
                self.selected_subtitle = copy_choice(&self.subtitle_options[1]);
            }
        }
        if self.has_player {
            let track = match &self.selected_subtitle {
                SubtitleOption::Track { id, .. } => if self.show_subs {
                    Some(*id)
                } else {
                    None
                },
                SubtitleOption::Off => None,
            };
            UiAction::SetSubs(self.show_subs, track)
        } else {
            UiAction::Nothing
        }
    }

    #[verifier::spinoff_prover]
    #[verifier::rlimit(80)]
    fn on_sub_tracks_loaded(&mut self, tracks: Vec<SubTrackInfo>) -> (r: UiAction)
        ensures
            step_sub_tracks_loaded(*old(self), tracks, *final(self), r),
    {
        let opts = build_subtitle_options(&tracks);
        let is_off = match &self.selected_subtitle {
            SubtitleOption::Off => true,
            _ => false,
        };
        let auto = self.show_subs && is_off && tracks.len() > 0;
        assert(is_off == (self.selected_subtitle == SubtitleOption::Off));
        let choice = if auto {
            copy_choice(&opts[1])
        } else {
            copy_choice(&self.selected_subtitle)
        };
        let action = if auto && self.has_player {
            UiAction::SetSubs(true, Some(tracks[0].id))
        } else {
            UiAction::Nothing
        };
        self.selected_subtitle = choice;
        self.subtitle_options = opts;
        self.sub_tracks = tracks;
        action
    }

    fn on_subtitle_selected(&mut self, choice: SubtitleOption) -> (r: UiAction)
        ensures
            step_subtitle_selected(*old(self), choice, *final(self), r),
    {
        let on = match &choice {
            SubtitleOption::Track { .. } => true,
            SubtitleOption::Off => false,
        };
        let track = match &choice {
            SubtitleOption::Track { id, .. } => Some(*id),
            SubtitleOption::Off => None,
        };
        self.selected_subtitle = choice;
        self.show_subs = on;
        self.controls_visible = true;
        if self.has_player {
            UiAction::SetSubs(on, track)
        } else {
            UiAction::Nothing
        }
    }

    fn on_toggle_settings(&mut self) -> (r: UiAction)
        ensures
            step_toggle_settings(*old(self), *final(self), r),
    {
        self.settings_open = !self.settings_open;
        if self.settings_open {
            self.mode_menu_open = false;
            self.ai_panel_open = false;
        }
        self.controls_visible = true;
        UiAction::Nothing
    }

    fn on_toggle_ai_panel(&mut self) -> (r: UiAction)
        ensures
            step_toggle_ai_panel(*old(self), *final(self), r),
    {
        self.ai_panel_open = !self.ai_panel_open;
        if self.ai_panel_open {
            self.settings_open = false;
            self.mode_menu_open = false;
        }
        self.controls_visible = true;
        UiAction::Nothing
    }

    fn on_quality_selected(&mut self, q: RenderQuality) -> (r: UiAction)
        ensures
            step_quality_selected(*old(self), q, *final(self), r),
    {
        self.render_quality = q;
        self.controls_visible = true;
        if self.has_player {
            UiAction::SetQuality(q)
        } else {
            UiAction::Nothing
        }
    }

    fn on_gemini_api_key_changed(&mut self, k: String) -> (r: UiAction)
        ensures
            step_gemini_api_key_changed(*old(self), k, *final(self), r),
    {
        self.gemini_api_key = k;
        self.controls_visible = true;
        UiAction::Nothing
    }

    fn on_gemini_model_selected(&mut self, m: String) -> (r: UiAction)
        ensures
            step_gemini_model_selected(*old(self), m, *final(self), r),
    {
        self.gemini_model = m;
        self.controls_visible = true;
        UiAction::Nothing
    }

    fn on_start_ai_scan(&mut self) -> (r: UiAction)
        ensures
            step_start_ai_scan(*old(self), *final(self), r),
    {
        let key = trimmed(self.gemini_api_key.as_str());
        if key.as_str().is_empty() {
            self.fail(String::from_str("Enter your Gemini API key to run AI scan"));
            return UiAction::Nothing;
        }
        let path = match &self.selected_video_path {
            Some(p) => p.clone(),
            None => {
                self.fail(String::from_str("Load a local video before starting AI scan"));
                return UiAction::Nothing;
            },
        };
        if !self.has_player {
            self.fail(String::from_str("Load a local video before starting AI scan"));
            return UiAction::Nothing;
        }
        self.status = String::from_str("Scanning video with AI...");
        self.status_is_error = false;
        self.scan_running = true;
        self.scan_status = String::from_str("Starting AI scan...");
        self.controls_visible = true;
        UiAction::StartScan {
            video_path: path,
            api_key: self.gemini_api_key.clone(),
            model: self.gemini_model.clone(),
            prompt: self.ai_skip_prompt.clone(),
        }
    }

    fn on_ai_scan_progress(&mut self, label: String) -> (r: UiAction)
        ensures
            step_ai_scan_progress(*old(self), label, *final(self), r),
    {
        self.scan_running = true;
        self.scan_status = label;
        self.controls_visible = true;
        UiAction::Nothing
    }

    fn on_ai_scan_complete(&mut self, segments: Vec<(u64, u64)>) -> (r: UiAction)
        ensures
            step_ai_scan_complete(*old(self), segments, *final(self), r),
    {
        let d = decimal_string(segments.len() as u64);
        let mut st = joined("AI Scan Complete: Found ", d.as_str());
        st.append(" skip segments!");
        self.unsafe_segments = segments;
        self.scan_running = false;
        self.scan_status = String::new();
        self.status = st;
        self.status_is_error = false;
        self.controls_visible = true;
        UiAction::Nothing
    }

    fn on_chapters_loaded(&mut self, c: Vec<ChapterInfo>) -> (r: UiAction)
        ensures
            step_chapters_loaded(*old(self), c, *final(self), r),
    {
        self.chapters = c;
        UiAction::Nothing
    }

    fn on_toggle_mini(&mut self) -> (r: UiAction)
        ensures
            step_toggle_mini(*old(self), *final(self), r),
    {
        self.is_mini = !self.is_mini;
        self.controls_visible = true;
        UiAction::SetMini(self.is_mini)
    }

    fn on_seek_to(&mut self, p: u64) -> (r: UiAction)
        ensures
            step_seek_to(*old(self), p, *final(self), r),
    {
        self.position_ms = p;
        self.controls_visible = true;
        if self.has_player {
            UiAction::SeekTo(p)
        } else {
            UiAction::Nothing
        }
    }

    fn on_skip_forward(&mut self) -> (r: UiAction)
        ensures
            step_skip_forward(*old(self), *final(self), r),
    {
        self.controls_visible = true;
        self.position_ms = if (self.position_ms as u128) + 10_000 < self.duration_ms as u128 {
            self.position_ms + 10_000
        } else {
            self.duration_ms
        };
        if self.has_player {
            UiAction::SkipForward
        } else {
            UiAction::Nothing
        }
    }

    fn on_seek_relative(&mut self, d: i32) -> (r: UiAction)
        ensures
            step_seek_relative(*old(self), d, *final(self), r),
    {
        self.controls_visible = true;
        let pos = self.position_ms as i128;
        let step = d as i128 * 1000;
        self.position_ms = if d > 0 {
            if pos + step < self.duration_ms as i128 {
                (pos + step) as u64
            } else {
                self.duration_ms
            }
        } else if pos >= -step {
            (pos + step) as u64
        } else {
            0
        };
        if self.has_player {
            UiAction::SkipBy(d)
        } else {
            UiAction::Nothing
        }
    }

    fn on_skip_backward(&mut self) -> (r: UiAction)
        ensures
            step_skip_backward(*old(self), *final(self), r),
    {
        self.controls_visible = true;
        self.position_ms = if self.position_ms >= 10_000 {
            self.position_ms - 10_000
        } else {
            0
        };
        if self.has_player {
            UiAction::SkipBackward
        } else {
            UiAction::Nothing
        }
    }

    fn on_toggle_fullscreen(&mut self) -> (r: UiAction)
        ensures
            step_toggle_fullscreen(*old(self), *final(self), r),
    {
        self.is_fullscreen = !self.is_fullscreen;
        self.controls_visible = true;
        UiAction::SetFullscreen(self.is_fullscreen)
    }

    fn on_mouse_moved(&mut self) -> (r: UiAction)
        ensures
            step_mouse_moved(*old(self), *final(self), r),
    {
        self.controls_visible = true;
        UiAction::Nothing
    }

    fn on_controls_idle(&mut self) -> (r: UiAction)
        ensures
            step_controls_idle(*old(self), *final(self), r),
    {
        if self.screen == AppScreen::Player && self.controls_visible {
            self.controls_visible = false;
        }
        UiAction::Nothing
    }

    fn on_position_update(&mut self, pos: u64, dur: u64) -> (r: UiAction)
        ensures
            step_position_update(*old(self), pos, dur, *final(self), r),
    {
        self.position_ms = pos;
        self.duration_ms = dur;
        if self.playback_mode == PlaybackMode::AutoSkip {
            let (mark, seek) = auto_skip(&self.unsafe_segments, pos, self.last_skip_ms);
            self.last_skip_ms = mark;
            match seek {
                Some(e) => if self.has_player {
                    UiAction::SeekTo(e)
                } else {
                    UiAction::Nothing
                },
                None => UiAction::Nothing,
            }
        } else {
            UiAction::Nothing
        }
    }

    fn on_mpv_error(&mut self, e: String) -> (r: UiAction)
        ensures
            step_mpv_error(*old(self), e, *final(self), r),
    {
        self.fail(joined("MPV error: ", e.as_str()));
        UiAction::Nothing
    }

    fn on_close_requested(&mut self) -> (r: UiAction)
        ensures
            step_close_requested(*old(self), *final(self), r),
    {
        self.has_player = false;
        UiAction::Exit
    }

    fn on_close_window(&mut self) -> (r: UiAction)
        ensures
            step_close_window(*old(self), *final(self), r),
    {
        UiAction::CloseWindow
    }

    fn on_noop(&mut self) -> (r: UiAction)
        ensures
            step_noop(*old(self), *final(self), r),
    {
        UiAction::Nothing
    }

}

/// Auto-skip at `pos`: the end of the first unsafe range holding it when
/// the debounce allows a skip (the mark moves to `pos`); otherwise no skip,
/// and the mark is cleared once the position is back before a range.
pub fn auto_skip(segs: &Vec<(u64, u64)>, pos: u64, last: u64) -> (r: (u64, Option<u64>))
    ensures
        r == skip_decision(segs@, pos, last),
{
    let mut i: usize = 0;
    while i < segs.len()
        invariant
            0 <= i <= segs.len(),
            forall|j: int| 0 <= j < i ==> !#[trigger] skip_target(segs@, pos, last)(j),
        decreases segs.len() - i,
    {
        let (s, e) = segs[i];
        if s <= pos && pos < e && pos > last && pos - last > 200 {
            proof {
                assert(skip_target(segs@, pos, last)(i as int));
                lemma_first_where_unique(segs@.len() as int, skip_target(segs@, pos, last), i as int);
            }
            return (pos, Some(e));
        }
        i = i + 1;
    }
    proof {
        lemma_first_where_unique(segs@.len() as int, skip_target(segs@, pos, last), segs@.len() as int);
    }
    let mut reset = false;
    let mut k: usize = 0;
    while k < segs.len()
        invariant
            0 <= k <= segs.len(),
            reset <==> exists|j: int| 0 <= j < k && pos < (#[trigger] segs@[j]).0 && last >= segs@[j].0,
        decreases segs.len() - k,
    {
        let (s, _e) = segs[k];
        if pos < s && last >= s {
            assert(pos < segs@[k as int].0);
            reset = true;
        }
        k = k + 1;
    }
    if reset {
        (0, None)
    } else {
        (last, None)
    }
}

/// At most one of the three popups (mode menu, settings, AI panel) is
/// open.
pub open spec fn popups_exclusive(m: AppModel) -> bool {
    &&& !(m.mode_menu_open && m.settings_open)
    &&& !(m.mode_menu_open && m.ai_panel_open)
    &&& !(m.settings_open && m.ai_panel_open)
}

/// Every event keeps the popups exclusive: opening one closes the others.
#[verifier::spinoff_prover]
#[verifier::rlimit(100)]
pub proof fn law_popups_stay_exclusive(o: AppModel, ev: UiEvent, n: AppModel, a: UiAction)
    requires
        popups_exclusive(o),
        transition(o, ev, n, a),
    ensures
        popups_exclusive(n),
{
    match ev {
        UiEvent::NavigateTo(_) => {},
        UiEvent::OpenFile => {},
        UiEvent::SearchQueryChanged(_) => {},
        UiEvent::SelectVideoWithMode(_, _) => {},
        UiEvent::OpenPreplayDialog(_) => {},
        UiEvent::ClosePreplayDialog => {},
        UiEvent::LibraryScanned(_) => {},
        UiEvent::SelectFolder => {},
        UiEvent::FolderScanned(_, _) => {},
        UiEvent::VideoSelected(_) => {},
        UiEvent::OpenUrlDialog => {},
        UiEvent::UrlInputChanged(_) => {},
        UiEvent::AiPromptChanged(_) => {},
        UiEvent::PlayUrl => {},
        UiEvent::CloseUrlDialog => {},
        UiEvent::Buffering(_) => {},
        UiEvent::FileSelected(_) => {},
        UiEvent::SetPlaybackMode(_) => {},
        UiEvent::ToggleModeMenu => {},
        UiEvent::PlayPause => {},
        UiEvent::NextVideo => {},
        UiEvent::PrevVideo => {},
        UiEvent::ToggleLoop => {},
        UiEvent::ToggleCaptions => {},
        UiEvent::SubTracksLoaded(_) => {},
        UiEvent::SubtitleSelected(_) => {},
        UiEvent::ToggleSettings => {},
        UiEvent::ToggleAiPanel => {},
        UiEvent::QualitySelected(_) => {},
        UiEvent::GeminiApiKeyChanged(_) => {},
        UiEvent::GeminiModelSelected(_) => {},
        UiEvent::StartAiScan => {},
        UiEvent::AiScanProgress(_) => {},
        UiEvent::AiScanComplete(_) => {},
        UiEvent::ChaptersLoaded(_) => {},
        UiEvent::ToggleMini => {},
        UiEvent::SeekTo(_) => {},
        UiEvent::SkipForward => {},
        UiEvent::SkipBackward => {},
        UiEvent::SeekRelative(_) => {},
        UiEvent::ToggleFullscreen => {},
        UiEvent::MouseMoved => {},
        UiEvent::ControlsIdle => {},
        UiEvent::PositionUpdate(_, _) => {},
        UiEvent::MpvError(_) => {},
        UiEvent::CloseRequested => {},
        UiEvent::CloseWindow => {},
        UiEvent::Noop => {},
    }
}

/// Toggling the loop twice restores it.
pub proof fn law_toggle_loop_twice(o: AppModel, n1: AppModel, a1: UiAction, n2: AppModel, a2: UiAction)
    requires
        transition(o, UiEvent::ToggleLoop, n1, a1),
        transition(n1, UiEvent::ToggleLoop, n2, a2),
    ensures
        n2.is_looping == o.is_looping,
{
}

/// Toggling the captions twice restores whether they show.
pub proof fn law_toggle_captions_twice(o: AppModel, n1: AppModel, a1: UiAction, n2: AppModel, a2: UiAction)
    requires
        transition(o, UiEvent::ToggleCaptions, n1, a1),
        transition(n1, UiEvent::ToggleCaptions, n2, a2),
    ensures
        n2.show_subs == o.show_subs,
{
}

/// No two library entries hold the same path.
pub open spec fn distinct_paths(v: Seq<String>) -> bool {
    forall|i: int, j: int| 0 <= i < j < v.len() ==> (#[trigger] v[i])@ != (#[trigger] v[j])@
}

/// In a library without repeated paths, the previous video of the next
/// video is the current one.
pub proof fn law_next_then_prev(videos: Seq<String>, current: Option<String>)
    requires
        distinct_paths(videos),
        neighbor(videos, current, 1) is Some,
    ensures
        neighbor(videos, neighbor(videos, current, 1), -1) matches Some(p) && p@ == current->0@,
{
    let c = current->0;
    crate::seqsearch::lemma_first_where(videos.len() as int, equal_at(videos, c@));
    let i = first_where(videos.len() as int, equal_at(videos, c@));
    assert(equal_at(videos, c@)(i));
    let nx = videos[i + 1];
    assert forall|j: int| 0 <= j < i + 1 implies !#[trigger] equal_at(videos, nx@)(j) by {
        if j < i + 1 {
            assert(videos[j]@ != videos[i + 1]@);
        }
    }
    assert(equal_at(videos, nx@)(i + 1));
    lemma_first_where_unique(videos.len() as int, equal_at(videos, nx@), i + 1);
}

/// An auto-skip jumps to the end of an unsafe range holding the position.
pub proof fn law_skip_lands_at_range_end(segs: Seq<(u64, u64)>, pos: u64, last: u64)
    ensures
        skip_decision(segs, pos, last).1 matches Some(e) ==> exists|i: int|
            0 <= i < segs.len() && (#[trigger] segs[i]).0 <= pos < segs[i].1 && segs[i].1 == e,
{
    crate::seqsearch::lemma_first_where(segs.len() as int, skip_target(segs, pos, last));
    let f = first_where(segs.len() as int, skip_target(segs, pos, last));
    if f < segs.len() {
        assert(skip_target(segs, pos, last)(f));
    }
}

/// Skipping back moves the position ten seconds earlier, stopping at the
/// start: a position under ten seconds goes to zero.
pub proof fn law_skip_backward_position(o: AppModel, n: AppModel, a: UiAction)
    requires
        transition(o, UiEvent::SkipBackward, n, a),
    ensures
        n.position_ms == if o.position_ms >= 10_000 {
            o.position_ms - 10_000
        } else {
            0
        },
        o.position_ms < 10_000 ==> n.position_ms == 0,
        n.position_ms <= o.position_ms,
        n.duration_ms == o.duration_ms,
{
}

/// Ten seconds forward then ten seconds back returns to where playback
/// was, when the skip forward did not run into the end.
pub proof fn law_skip_forward_then_backward(
    o: AppModel,
    n1: AppModel,
    a1: UiAction,
    n2: AppModel,
    a2: UiAction,
)
    requires
        o.position_ms + 10_000 < o.duration_ms,
        transition(o, UiEvent::SkipForward, n1, a1),
        transition(n1, UiEvent::SkipBackward, n2, a2),
    ensures
        n2.position_ms == o.position_ms,
{
}

/// Skipping forward moves the position ten seconds later, stopping at the
/// end of the video.
pub proof fn law_skip_forward_position(o: AppModel, n: AppModel, a: UiAction)
    requires
        transition(o, UiEvent::SkipForward, n, a),
    ensures
        n.position_ms == if o.position_ms + 10_000 < o.duration_ms {
            o.position_ms + 10_000
        } else {
            o.duration_ms as int
        },
        n.duration_ms == o.duration_ms,
{
}

/// A relative seek of `d` seconds moves the position by `d` seconds,
/// stopping at the end going forward and at the start going back.
pub proof fn law_seek_relative_position(o: AppModel, d: i32, n: AppModel, a: UiAction)
    requires
        transition(o, UiEvent::SeekRelative(d), n, a),
    ensures
        d > 0 ==> n.position_ms == if o.position_ms + 1000 * d < o.duration_ms {
            o.position_ms + 1000 * d
        } else {
            o.duration_ms as int
        },
        d <= 0 ==> n.position_ms == if o.position_ms + 1000 * d >= 0 {
            o.position_ms + 1000 * d
        } else {
            0
        },
{
}

/// The arrow keys seek five seconds: left goes back, right goes forward,
/// unless the URL dialog is open or a command modifier is held.
pub proof fn law_arrow_keys_seek_five_seconds(o: AppModel)
    requires
        !o.url_dialog_open,
    ensures
        key_event_of(o, ShortcutKey::ArrowLeft, false) == Some(UiEvent::SeekRelative(-5i32)),
        key_event_of(o, ShortcutKey::ArrowRight, false) == Some(UiEvent::SeekRelative(5i32)),
        key_event_of(o, ShortcutKey::ArrowLeft, true) is None,
{
}

} // verus!
