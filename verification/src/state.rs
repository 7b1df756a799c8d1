//! The player screen's state: what is open, where playback stands, the
//! mode popup, the timeline and the scan. Each change is a method that says
//! which command, if any, goes to the playback backend; the caller sends it.

use vstd::prelude::*;
use vstd::string::{StrSliceExecFns, StringExecFns};
use crate::config::{UserPreferences, GEMINI_DEFAULT_MODEL};
use crate::domain::{PlaybackMode, PlaybackState, ScanProgress, TimelineSegment, VideoId};
use crate::segments::covers;
use crate::timeline::{safe_after, skip_zones_of, span_ok, upsert, upsert_all, Timeline};
use crate::ui::masked;

verus! {

/// Commands from the user interface to the playback backend. Times are
/// milliseconds.
#[derive(Debug, Clone)]
pub enum UiCommand {
    OpenVideo { path: String, mode: PlaybackMode },
    Play(VideoId),
    Pause(VideoId),
    Stop(VideoId),
    Seek(VideoId, u64),
    ToggleFullscreen(VideoId),
    RequestScan(VideoId),
    CancelScan(VideoId),
    /// Skip from the first time to the second.
    SkipSegment(VideoId, u64, u64),
    UpdatePreferences(UserPreferences),
    Shutdown,
}

/// Events from the playback backend to the user interface. Times are
/// milliseconds; of an opened video's metadata the title and duration are
/// carried.
#[derive(Debug, Clone)]
pub enum BackendEvent {
    VideoOpened { video_id: VideoId, title: String, duration_ms: u64 },
    VideoOpenFailed { path: String, error: String },
    PlaybackStateChanged { video_id: VideoId, state: PlaybackState },
    PositionUpdate { video_id: VideoId, position_ms: u64, duration_ms: u64 },
    ScanProgress(ScanProgress),
    ScanComplete { video_id: VideoId, segments: Vec<TimelineSegment> },
    ScanError { video_id: VideoId, error: String },
    NewScanSegment { video_id: VideoId, segment: TimelineSegment },
    AutoSkipTriggered { video_id: VideoId, from_ms: u64, to_ms: u64 },
    FrameReady { video_id: VideoId, timestamp_ms: u64, width: u32, height: u32, data: Vec<u8> },
    Error { video_id: Option<VideoId>, message: String },
}

/// Main application state. Times are milliseconds.
pub struct AppState {
    pub current_video: Option<VideoId>,
    /// The title of the open video, from its metadata.
    pub video_title: Option<String>,
    pub playback_state: PlaybackState,
    pub position_ms: u64,
    pub duration_ms: u64,
    pub is_fullscreen: bool,
    pub pending_video_path: Option<String>,
    pub show_mode_selection: bool,
    pub selected_mode: PlaybackMode,
    pub timeline: Option<Timeline>,
    pub hover_position_ms: Option<u64>,
    pub is_seeking: bool,
    pub scan_progress: Option<ScanProgress>,
    pub is_scanning: bool,
    pub scan_error: Option<String>,
    pub show_file_picker: bool,
    pub show_settings: bool,
    pub show_playlist: bool,
    pub playlist_index: Option<usize>,
    pub preferences: UserPreferences,
    pub gemini_api_key: String,
    pub gemini_model: String,
    pub gemini_api_key_visible: bool,
}

/// The state after a file is chosen: the mode popup opens on the default
/// mode.
pub open spec fn opened(s: AppState, path: String) -> AppState {
    AppState {
        pending_video_path: Some(path),
        show_mode_selection: true,
        selected_mode: s.preferences.default_playback_mode,
        ..s
    }
}

/// The state after the popup is dismissed.
pub open spec fn cancelled(s: AppState) -> AppState {
    AppState { pending_video_path: None, show_mode_selection: false, ..s }
}

/// Confirming the popup: with a pending file, the popup closes and the file
/// is opened in the selected mode; without one nothing happens.
pub open spec fn confirmed(s: AppState) -> (AppState, Option<UiCommand>) {
    match s.pending_video_path {
        Some(p) => (
            AppState { pending_video_path: None, show_mode_selection: false, ..s },
            Some(UiCommand::OpenVideo { path: p, mode: s.selected_mode }),
        ),
        None => (s, None),
    }
}

/// The skip-zone margin: a thirtieth of the look-ahead, in milliseconds.
pub open spec fn skip_buffer_ms(p: UserPreferences) -> u64 {
    (p.scan_ahead_seconds * 1000 / 30) as u64
}

/// Where auto-skip jumps from `position_ms`: the end of the skip zone that
/// holds it, when a timeline is shown, auto-skip is on and no seek is under
/// way.
pub open spec fn skip_to(s: AppState, position_ms: u64) -> Option<u64> {
    match s.timeline {
        Some(t) => if s.preferences.auto_skip_enabled && !s.is_seeking {
            safe_after(
                skip_zones_of(t.entries(), skip_buffer_ms(s.preferences), t.spec_duration()),
                position_ms,
            )
        } else {
            None
        },
        None => None,
    }
}

/// A position report: the position and duration are stored, and a skip is
/// ordered where one is due.
pub open spec fn positioned(s: AppState, position_ms: u64, duration_ms: u64) -> (
    AppState,
    Option<UiCommand>,
) {
    (
        AppState { position_ms, duration_ms, ..s },
        match skip_to(s, position_ms) {
            Some(next) => Some(UiCommand::SkipSegment(s.current_video.unwrap(), position_ms, next)),
            None => None,
        },
    )
}

/// Play or pause the open video: pause while it plays, else play.
pub open spec fn playback_toggled(s: AppState) -> Option<UiCommand> {
    match s.current_video {
        Some(id) => Some(
            if s.playback_state == PlaybackState::Playing {
                UiCommand::Pause(id)
            } else {
                UiCommand::Play(id)
            },
        ),
        None => None,
    }
}

/// Seeking the open video marks a seek as under way.
pub open spec fn sought(s: AppState, position_ms: u64) -> (AppState, Option<UiCommand>) {
    match s.current_video {
        Some(id) => (AppState { is_seeking: true, ..s }, Some(UiCommand::Seek(id, position_ms))),
        None => (s, None),
    }
}

/// Fullscreen flips; the backend hears of it when a video is open.
pub open spec fn fullscreen_toggled(s: AppState) -> (AppState, Option<UiCommand>) {
    (
        AppState { is_fullscreen: !s.is_fullscreen, ..s },
        match s.current_video {
            Some(id) => Some(UiCommand::ToggleFullscreen(id)),
            None => None,
        },
    )
}

/// The scan is under way until its progress says it is complete.
pub open spec fn scan_updated(s: AppState, progress: ScanProgress) -> AppState {
    AppState { scan_progress: Some(progress), is_scanning: !progress.is_complete, ..s }
}

/// A fresh timeline of `id` lasting `duration_ms`.
pub open spec fn fresh_timeline(t: Option<Timeline>, id: VideoId, duration_ms: u64) -> bool {
    match t {
        Some(t) => t.entries().len() == 0 && t.spec_duration() == duration_ms && t.spec_video_id()
            == id,
        None => false,
    }
}

/// The timeline `b` is `a` with `segs` added in turn (no timeline stays
/// none).
pub open spec fn grown_by_all(a: Option<Timeline>, b: Option<Timeline>, segs: Seq<TimelineSegment>) -> bool {
    match (a, b) {
        (Some(t0), Some(t1)) => t1.entries() == upsert_all(t0.entries(), segs) && t1.spec_duration()
            == t0.spec_duration() && t1.spec_video_id() == t0.spec_video_id(),
        (None, None) => true,
        _ => false,
    }
}

/// The timeline `b` is `a` with `seg` added (no timeline stays none).
pub open spec fn grown_by(a: Option<Timeline>, b: Option<Timeline>, seg: TimelineSegment) -> bool {
    match (a, b) {
        (Some(t0), Some(t1)) => t1.entries() == upsert(t0.entries(), seg) && t1.spec_duration()
            == t0.spec_duration() && t1.spec_video_id() == t0.spec_video_id(),
        (None, None) => true,
        _ => false,
    }
}

/// What an event asks of the state: a skip can only be ordered for an open
/// video, and segments added to a timeline have their end after their
/// start.
pub open spec fn event_ok(s: AppState, e: BackendEvent) -> bool {
    match e {
        BackendEvent::PositionUpdate { position_ms, .. } => skip_to(s, position_ms) is Some
            ==> s.current_video is Some,
        BackendEvent::ScanComplete { segments, .. } => s.timeline is Some ==> forall|i: int|
            0 <= i < segments@.len() ==> span_ok(#[trigger] segments@[i]),
        BackendEvent::NewScanSegment { segment, .. } => s.timeline is Some ==> span_ok(segment),
        _ => true,
    }
}

/// How the state `o` becomes `n` on a backend event, and the command `r`
/// that follows.
pub open spec fn event_handled(o: AppState, e: BackendEvent, n: AppState, r: Option<UiCommand>) -> bool {
    match e {
        BackendEvent::VideoOpened { video_id, title, duration_ms } => {
            &&& r is None
            &&& fresh_timeline(n.timeline, video_id, duration_ms)
            &&& n == AppState {
                current_video: Some(video_id),
                video_title: Some(title),
                duration_ms,
                playback_state: PlaybackState::Playing,
                timeline: n.timeline,
                ..o
            }
        },
        BackendEvent::VideoOpenFailed { error, .. } => {
            &&& r is None
            &&& n.scan_error matches Some(m) && m@ == "Failed to open video: "@ + error@
            &&& n == AppState { scan_error: n.scan_error, ..o }
        },
        BackendEvent::PlaybackStateChanged { state, .. } => r is None && n == AppState {
            playback_state: state,
            ..o
        },
        BackendEvent::PositionUpdate { position_ms, duration_ms, .. } => (n, r) == positioned(
            o,
            position_ms,
            duration_ms,
        ),
        BackendEvent::ScanProgress(p) => r is None && n == scan_updated(o, p),
        BackendEvent::ScanComplete { segments, .. } => {
            &&& r is None
            &&& grown_by_all(o.timeline, n.timeline, segments@)
            &&& n == AppState { is_scanning: false, timeline: n.timeline, ..o }
        },
        BackendEvent::ScanError { error, .. } => r is None && n == AppState {
            scan_error: Some(error),
            is_scanning: false,
            ..o
        },
        BackendEvent::NewScanSegment { segment, .. } => {
            &&& r is None
            &&& grown_by(o.timeline, n.timeline, segment)
            &&& n == AppState { timeline: n.timeline, ..o }
        },
        BackendEvent::AutoSkipTriggered { .. } => r is None && n == o,
        BackendEvent::FrameReady { .. } => r is None && n == o,
        BackendEvent::Error { message, .. } => r is None && n == AppState {
            scan_error: Some(message),
            ..o
        },
    }
}

/// A stopped player with nothing open, nothing shown, no scan, the popup
/// on the default mode of `preferences`, and the key hidden.
pub open spec fn is_initial(r: AppState, preferences: UserPreferences) -> bool {
    &&& r.current_video is None
    &&& r.video_title is None
    &&& r.playback_state == PlaybackState::Stopped
    &&& r.position_ms == 0
    &&& r.duration_ms == 0
    &&& !r.is_fullscreen
    &&& r.pending_video_path is None
    &&& !r.show_mode_selection
    &&& r.selected_mode == preferences.default_playback_mode
    &&& r.timeline is None
    &&& r.hover_position_ms is None
    &&& !r.is_seeking
    &&& r.scan_progress is None
    &&& !r.is_scanning
    &&& r.scan_error is None
    &&& !r.show_file_picker
    &&& !r.show_settings
    &&& !r.show_playlist
    &&& r.playlist_index is None
    &&& r.preferences == preferences
    &&& !r.gemini_api_key_visible
}

impl AppState {
    /// A stopped player with nothing open, the popup on the default mode of
    /// `preferences`, and the default model.
    pub fn new(preferences: UserPreferences) -> (r: Self)
        ensures
            is_initial(r, preferences),
            r.gemini_api_key@ == Seq::<char>::empty(),
            r.gemini_model@ == GEMINI_DEFAULT_MODEL@,
    {
        let mode = preferences.default_playback_mode;
        AppState {
            current_video: None,
            video_title: None,
            playback_state: PlaybackState::Stopped,
            position_ms: 0,
            duration_ms: 0,
            is_fullscreen: false,
            pending_video_path: None,
            show_mode_selection: false,
            selected_mode: mode,
            timeline: None,
            hover_position_ms: None,
            is_seeking: false,
            scan_progress: None,
            is_scanning: false,
            scan_error: None,
            show_file_picker: false,
            show_settings: false,
            show_playlist: false,
            playlist_index: None,
            preferences,
            gemini_api_key: String::new(),
            gemini_model: String::from_str(GEMINI_DEFAULT_MODEL),
            gemini_api_key_visible: false,
        }
    }

    /// Take the key and model of the loaded configuration; no key reads as
    /// an empty one.
    pub fn set_gemini_config(&mut self, api_key: Option<String>, model: String)
        ensures
            final(self).gemini_api_key@ == (match api_key {
                Some(k) => k@,
                None => Seq::<char>::empty(),
            }),
            final(self).gemini_model == model,
            (AppState {
                gemini_api_key: old(self).gemini_api_key,
                gemini_model: old(self).gemini_model,
                ..*final(self)
            }) == *old(self),
    {
        self.gemini_api_key = match api_key {
            Some(k) => k,
            None => String::new(),
        };
        self.gemini_model = model;
    }

    /// The API key for display, masked unless it is to be shown.
    pub fn masked_api_key(&self) -> (r: String)
        ensures
            r@ == masked(self.gemini_api_key@, self.gemini_api_key_visible),
    {
        crate::ui::masked_api_key(self.gemini_api_key.as_str(), self.gemini_api_key_visible)
    }

    /// A file was chosen: ask for the playback mode.
    pub fn open_video(&mut self, path: String)
        ensures
            *final(self) == opened(*old(self), path),
    {
        self.pending_video_path = Some(path);
        self.show_mode_selection = true;
        self.selected_mode = self.preferences.default_playback_mode;
    }

    /// Confirm the mode popup; the command opens the pending file.
    pub fn confirm_mode_selection(&mut self) -> (r: Option<UiCommand>)
        ensures
            (*final(self), r) == confirmed(*old(self)),
    {
        match self.pending_video_path.take() {
            Some(path) => {
                self.show_mode_selection = false;
                Some(UiCommand::OpenVideo { path, mode: self.selected_mode })
            },
            None => None,
        }
    }

    /// Dismiss the mode popup.
    pub fn cancel_mode_selection(&mut self)
        ensures
            *final(self) == cancelled(*old(self)),
    {
        self.pending_video_path = None;
        self.show_mode_selection = false;
    }

    /// Store a position report; the command, if any, skips the zone the
    /// position lies in.
    pub fn update_position(&mut self, position_ms: u64, duration_ms: u64) -> (r: Option<UiCommand>)
        requires
            skip_to(*old(self), position_ms) is Some ==> old(self).current_video is Some,
        ensures
            (*final(self), r) == positioned(*old(self), position_ms, duration_ms),
    {
        self.position_ms = position_ms;
        self.duration_ms = duration_ms;
        let buffer_ms: u64 = self.preferences.scan_ahead_seconds as u64 * 1000 / 30;
        match &self.timeline {
            Some(timeline) => {
                if self.preferences.auto_skip_enabled && !self.is_seeking {
                    match timeline.get_next_safe_position(position_ms, buffer_ms) {
                        Some(next_safe) => {
                            let id = self.current_video.unwrap();
                            Some(UiCommand::SkipSegment(id, position_ms, next_safe))
                        },
                        None => None,
                    }
                } else {
                    None
                }
            },
            None => None,
        }
    }

    pub fn update_playback_state(&mut self, state: PlaybackState)
        ensures
            *final(self) == (AppState { playback_state: state, ..*old(self) }),
    {
        self.playback_state = state;
    }

    /// Store the scan's progress.
    pub fn update_scan_progress(&mut self, progress: ScanProgress)
        ensures
            *final(self) == scan_updated(*old(self), progress),
    {
        self.is_scanning = !progress.is_complete;
        self.scan_progress = Some(progress);
    }

    /// Add a segment to the shown timeline, if there is one.
    pub fn add_timeline_segment(&mut self, segment: TimelineSegment)
        requires
            old(self).timeline is Some ==> span_ok(segment),
        ensures
            match (old(self).timeline, final(self).timeline) {
                (Some(t0), Some(t1)) => t1.entries() == upsert(t0.entries(), segment)
                    && t1.spec_duration() == t0.spec_duration() && t1.spec_video_id()
                    == t0.spec_video_id(),
                (None, None) => true,
                _ => false,
            },
            (AppState { timeline: old(self).timeline, ..*final(self) }) == *old(self),
    {
        match self.timeline.take() {
            Some(mut t) => {
                t.add_segment(segment);
                self.timeline = Some(t);
            },
            None => {},
        }
    }

    /// Show `timeline`.
    pub fn set_timeline(&mut self, timeline: Timeline)
        ensures
            *final(self) == (AppState { timeline: Some(timeline), ..*old(self) }),
    {
        self.timeline = Some(timeline);
    }

    /// Play or pause the open video.
    pub fn toggle_playback(&mut self) -> (r: Option<UiCommand>)
        ensures
            *final(self) == *old(self),
            r == playback_toggled(*old(self)),
    {
        match self.current_video {
            Some(video_id) => match self.playback_state {
                PlaybackState::Playing => Some(UiCommand::Pause(video_id)),
                _ => Some(UiCommand::Play(video_id)),
            },
            None => None,
        }
    }

    /// Seek the open video to `position_ms`.
    pub fn seek(&mut self, position_ms: u64) -> (r: Option<UiCommand>)
        ensures
            (*final(self), r) == sought(*old(self), position_ms),
    {
        match self.current_video {
            Some(video_id) => {
                self.is_seeking = true;
                Some(UiCommand::Seek(video_id, position_ms))
            },
            None => None,
        }
    }

    /// Flip fullscreen.
    pub fn toggle_fullscreen(&mut self) -> (r: Option<UiCommand>)
        ensures
            (*final(self), r) == fullscreen_toggled(*old(self)),
    {
        self.is_fullscreen = !self.is_fullscreen;
        match self.current_video {
            Some(video_id) => Some(UiCommand::ToggleFullscreen(video_id)),
            None => None,
        }
    }

    /// Apply an event from the backend; the command, if any, skips the
    /// zone a reported position lies in.
    pub fn handle_backend_event(&mut self, event: BackendEvent) -> (r: Option<UiCommand>)
        requires
            event_ok(*old(self), event),
        ensures
            event_handled(*old(self), event, *final(self), r),
    {
        match event {
            BackendEvent::VideoOpened { video_id, title, duration_ms } => {
                self.current_video = Some(video_id);
                self.video_title = Some(title);
                self.duration_ms = duration_ms;
                self.set_timeline(Timeline::new(video_id, duration_ms));
                self.playback_state = PlaybackState::Playing;
                None
            },
            BackendEvent::VideoOpenFailed { path: _, error } => {
                let mut m = String::from_str("Failed to open video: ");
                m.append(error.as_str());
                self.scan_error = Some(m);
                None
            },
            BackendEvent::PlaybackStateChanged { video_id: _, state } => {
                self.update_playback_state(state);
                None
            },
            BackendEvent::PositionUpdate { video_id: _, position_ms, duration_ms } => {
                self.update_position(position_ms, duration_ms)
            },
            BackendEvent::ScanProgress(progress) => {
                self.update_scan_progress(progress);
                None
            },
            BackendEvent::ScanComplete { video_id: _, segments } => {
                self.is_scanning = false;
                match self.timeline.take() {
                    Some(mut t) => {
                        t.add_segments(segments);
                        self.timeline = Some(t);
                    },
                    None => {},
                }
                None
            },
            BackendEvent::ScanError { video_id: _, error } => {
                self.scan_error = Some(error);
                self.is_scanning = false;
                None
            },
            BackendEvent::NewScanSegment { video_id: _, segment } => {
                self.add_timeline_segment(segment);
                None
            },
            BackendEvent::AutoSkipTriggered { .. } => None,
            BackendEvent::FrameReady { .. } => None,
            BackendEvent::Error { video_id: _, message } => {
                self.scan_error = Some(message);
                None
            },
        }
    }

    /// Format a duration as `MM:SS`, or `HH:MM:SS` from one hour on.
    pub fn format_duration(ms: u64) -> (r: String)
        ensures
            r@ == crate::clock::clock_padded(ms as nat),
    {
        crate::clock::format_duration(ms)
    }
}

/// Confirming right after choosing a file opens that file in the
/// preferences' default mode and closes the popup.
pub proof fn law_confirm_after_open(s: AppState, path: String)
    ensures
        confirmed(opened(s, path)) == (
            AppState {
                pending_video_path: None,
                show_mode_selection: false,
                selected_mode: s.preferences.default_playback_mode,
                ..s
            },
            Some(UiCommand::OpenVideo { path, mode: s.preferences.default_playback_mode }),
        ),
{
}

/// Dismissing the popup right after choosing a file leaves nothing pending,
/// and a later confirmation then does nothing.
pub proof fn law_cancel_after_open(s: AppState, path: String)
    ensures
        cancelled(opened(s, path)).pending_video_path is None,
        !cancelled(opened(s, path)).show_mode_selection,
        confirmed(cancelled(opened(s, path))) == (cancelled(opened(s, path)), None::<UiCommand>),
{
}

/// Toggling fullscreen twice restores the state.
pub proof fn law_fullscreen_twice(s: AppState)
    ensures
        fullscreen_toggled(fullscreen_toggled(s).0).0 == s,
{
    assert(fullscreen_toggled(fullscreen_toggled(s).0).0 =~= s);
}

/// No skip is ordered while a seek is under way, so a position report
/// after a seek of the open video never skips.
pub proof fn law_no_skip_after_seek(s: AppState, target_ms: u64, position_ms: u64, duration_ms: u64)
    requires
        s.current_video is Some,
    ensures
        positioned(sought(s, target_ms).0, position_ms, duration_ms).1 is None,
{
}

/// An ordered skip starts at the reported position and lands after it,
/// outside every skip zone of the shown timeline.
pub proof fn law_skip_lands_safe(s: AppState, position_ms: u64, duration_ms: u64)
    requires
        s.timeline is Some,
        skip_to(s, position_ms) is Some ==> s.current_video is Some,
    ensures
        positioned(s, position_ms, duration_ms).1 matches Some(UiCommand::SkipSegment(_, from, to))
            ==> from == position_ms && position_ms < to && !covers(
            skip_zones_of(
                s.timeline.unwrap().entries(),
                skip_buffer_ms(s.preferences),
                s.timeline.unwrap().spec_duration(),
            ),
            to as int,
        ),
{
    let t = s.timeline.unwrap();
    crate::timeline::law_safe_position_is_safe(
        t.entries(),
        skip_buffer_ms(s.preferences),
        t.spec_duration(),
        position_ms,
    );
}

} // verus!
