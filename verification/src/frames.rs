//! One frame of each part of the window: what the user did there, and what follows from it.

use vstd::prelude::*;

use crate::grid::ThumbnailGridLayout;
use crate::index::MediaIndex;
use crate::media::is_video;
use crate::path::MediaPath;
use crate::single::{
    change_audio, strip_places, Audio, AudioInput, SingleImage, VideoInput, VideoUiState,
    FILMSTRIP_LEN,
};
use crate::slideshow::{next_in_round, prev_in_round, SsInput, Wake, CONTROLS_VISIBLE_NANOS};
use crate::text::{push_decimal, push_text};
use crate::viewer::{PicViewApp, LIBRARY};
use crate::work::{Effect, ViewMode};

verus! {

// ── The address bar ──────────────────────────────────────────────────────────

/// What the user did in the address bar.
pub struct BarActions {
    pub go_back: bool,
    pub go_forward: bool,
    pub go_up: bool,
    /// A folder whose path was entered.
    pub enter_folder: Option<MediaPath>,
    pub open_folder: Option<MediaPath>,
    pub open_image: Option<MediaPath>,
    /// A folder for the library, and whether it is one.
    pub add_managed: Option<(MediaPath, bool)>,
    pub remove_managed: Option<MediaPath>,
}

/// What the user did in the left panel.
pub struct PanelActions {
    /// A folder for the library, and whether it is one.
    pub add_current: Option<(MediaPath, bool)>,
    pub open_managed: Option<MediaPath>,
    pub open_library: bool,
    pub remove_managed: Option<MediaPath>,
    /// The folder that is selected in the tree, and the one that was.
    pub selected: Option<MediaPath>,
    pub selected_before: Option<MediaPath>,
}

/// The keys that were pressed over the grid.
pub struct GridKeys {
    pub ctrl_l: bool,
    pub f5: bool,
    pub left: bool,
    pub right: bool,
    pub enter: bool,
}

/// The keys that were pressed, and the steps of the wheel, over a medium shown alone.
pub struct SingleKeys {
    pub escape: bool,
    pub f5: bool,
    pub back: bool,
    pub forward: bool,
}

/// What a frame of a medium shown alone is made of.
pub struct SingleFrame<N> {
    pub index: usize,
    pub path: MediaPath,
    pub is_video: bool,
    /// The place of the medium and the name that was on show.
    pub label: String,
    /// The picture of the medium has to be loaded.
    pub needs_picture: bool,
    /// There was a player for the controls to show.
    pub has_player: bool,
    pub controls: VideoUiState<N>,
}

/// What a frame of the slideshow is made of.
pub struct SsFrame<N> {
    pub label: String,
    pub interval: N,
    pub paused: bool,
    pub fade: bool,
    pub pixel_perfect: bool,
    /// The controls are on show.
    pub controls: bool,
}

/// What happened since the last frame.
pub struct FrameInput {
    pub now: u64,
    /// Something happened in a watched folder that matters.
    pub folder_changed: bool,
    /// The user did something.
    pub active: bool,
    /// The fade of the slideshow is over.
    pub fade_done: bool,
    /// The image of the slideshow has been on show for long enough.
    pub due: bool,
    pub alt_left: bool,
    pub alt_right: bool,
    /// What the start found has come, and waits to be taken.
    pub arrived: bool,
    /// The splash has been on show for long enough.
    pub splash_over: bool,
}

/// When the window has to be painted again, and which part fills it.
pub struct FrameOutput {
    /// After how many nanoseconds, on account of what the user did.
    pub controls_end: Option<u64>,
    pub slideshow: Wake,
    pub screen: Screen,
}

/// What a frame comes to.
pub enum FrameStep {
    /// Only the splash is drawn.
    Splash,
    /// The splash is drawn, and what the start found is to be taken.
    TakeStart,
    /// The viewer is drawn.
    Drawn(FrameOutput),
}

/// What the status bar says while thumbnails are still to come.
pub const CACHING: &'static str = "画像をキャッシュ中 ";

/// What is shown while a scan has nothing to say.
pub const SCANNING: &'static str = "Scanning…";

/// Which part of the viewer fills the window.
#[derive(Clone, Copy, PartialEq, Eq, Structural, Debug)]
pub enum Screen {
    Slideshow,
    Single,
    Grid,
}

/// Two optional paths are the same.
pub open spec fn same_option(
    a: Option<crate::path::PathSpec>,
    b: Option<crate::path::PathSpec>,
) -> bool {
    match (a, b) {
        (Some(x), Some(y)) => x.parts == y.parts,
        (None, None) => true,
        _ => false,
    }
}

impl<T, V, N, R> crate::viewer::AppSpec<T, V, N, R> {
    /// What the address bar goes back to.
    pub open spec fn restored_address(self) -> Seq<char> {
        if self.view_mode == ViewMode::Library {
            LIBRARY@
        } else {
            match self.selected_folder {
                Some(f) => f.text,
                None => Seq::empty(),
            }
        }
    }

    /// The address bar is no longer edited, and shows what is on show.
    pub open spec fn address_dropped(self) -> Self {
        crate::viewer::AppSpec {
            address_text: self.restored_address(),
            address_editing: false,
            ..self
        }
    }

    /// The keys in the address bar. Escape counts before Enter, and Enter before the loss of
    /// the focus. What was entered stays where it is a folder.
    pub open spec fn address_keyed(
        self,
        escape: bool,
        enter: bool,
        is_dir: bool,
        lost_focus: bool,
    ) -> Self {
        if !self.address_editing {
            self
        } else if escape || (enter && !is_dir) || (!enter && lost_focus) {
            self.address_dropped()
        } else if enter {
            crate::viewer::AppSpec { address_editing: false, ..self }
        } else {
            self
        }
    }

    /// The address bar is edited from now on.
    pub open spec fn address_opened(self) -> Self {
        crate::viewer::AppSpec { address_editing: true, address_needs_focus: true, ..self }
    }

    /// A folder is chosen, where there is one.
    pub open spec fn chosen(self, folder: Option<crate::path::PathSpec>) -> Self {
        match folder {
            Some(f) => self.folder_asked(f, true, false),
            None => self,
        }
    }

    /// A folder is put into the library, where there is one.
    pub open spec fn adding(self, folder: Option<(MediaPath, bool)>) -> Self {
        match folder {
            Some((p, is_dir)) => self.managed_added(p@, is_dir),
            None => self,
        }
    }

    /// A folder is taken out of the library, where there is one.
    pub open spec fn removing(self, folder: Option<crate::path::PathSpec>) -> Self {
        match folder {
            Some(f) => self.managed_removed(f.parts),
            None => self,
        }
    }

    /// Steps back, forward and up, in turn.
    pub open spec fn stepped_around(self, go_back: bool, go_forward: bool, go_up: bool) -> Self {
        let s1 = if go_back {
            self.went_back()
        } else {
            self
        };
        let s2 = if go_forward {
            s1.went_forward()
        } else {
            s1
        };
        if go_up {
            s2.went_up()
        } else {
            s2
        }
    }

    /// What the user did in the address bar, in turn.
    pub open spec fn bar_done(self, b: BarActions) -> Self {
        let s4 = self.stepped_around(b.go_back, b.go_forward, b.go_up).chosen(
            crate::path::option_view(b.enter_folder),
        ).chosen(crate::path::option_view(b.open_folder));
        let s5 = match crate::path::option_view(b.open_image) {
            Some(p) => s4.recent_opened(p),
            None => s4,
        };
        s5.adding(b.add_managed).removing(crate::path::option_view(b.remove_managed))
    }

    /// What the user did in the left panel, in turn.
    pub open spec fn panel_done(self, p: PanelActions) -> Self {
        let s1 = self.adding(p.add_current).chosen(crate::path::option_view(p.open_managed));
        let s2 = if p.open_library {
            s1.library_asked(false)
        } else {
            s1
        };
        let s3 = s2.removing(crate::path::option_view(p.remove_managed));
        let selected = crate::path::option_view(p.selected);
        if same_option(selected, crate::path::option_view(p.selected_before)) {
            s3
        } else {
            s3.chosen(selected)
        }
    }

    /// The left panel has a part for the library.
    pub open spec fn shows_library(self) -> bool {
        self.managed.paths.len() > 0 || self.selected_folder is Some || self.view_mode
            == ViewMode::Library
    }

    // ── The grid ─────────────────────────────────────────────────────────────

    /// Which part fills the window.
    pub open spec fn screen(self) -> Screen {
        if self.slideshow is Some {
            Screen::Slideshow
        } else if self.single_image is Some {
            Screen::Single
        } else {
            Screen::Grid
        }
    }

    /// Thumbnails are loaded ahead for the grid alone.
    pub open spec fn screen_begun(self) -> Self {
        if self.screen() == Screen::Grid {
            self
        } else {
            crate::viewer::AppSpec { thumbs: self.thumbs.out_of_view(), ..self }
        }
    }

    /// What the layout of the grid depends on.
    pub open spec fn signature(self, width: u32, thumb: u32) -> (u32, u32, usize, usize) {
        (width, thumb, self.groups.len() as usize, self.media.len() as usize)
    }

    /// The grid is laid out, where something that it depends on changed.
    pub open spec fn laid_out(self, width: u32, thumb: u32, cols: usize) -> Self {
        let sig = self.signature(width, thumb);
        if self.grid_signature == Some(sig) {
            self
        } else {
            crate::viewer::AppSpec {
                grid_signature: Some(sig),
                grid_layout: Some(
                    crate::grid::GridSpec {
                        sizes: crate::grid::sizes_of(self.groups),
                        cols: cols as int,
                    },
                ),
                ..self
            }
        }
    }

    /// The grid shows rows.
    pub open spec fn rows_shown(self, start: int, end: int, moving: bool) -> Self {
        match self.grid_layout {
            Some(g) => crate::viewer::AppSpec {
                thumbs: crate::thumbs::ThumbsSpec {
                    visible: crate::grid::visible_media(g, start, end),
                    prefetch: crate::grid::nearby_media(g, start, end, moving),
                    ..self.thumbs
                },
                ..self
            },
            None => self,
        }
    }

    /// The end of a frame of the grid: a medium is opened, or else a slideshow starts; the
    /// arrow keys start from where the user clicked.
    pub open spec fn grid_done(
        self,
        open: Option<usize>,
        slideshow: Option<usize>,
        cursor: Option<usize>,
        now: u64,
    ) -> Self {
        let a = match open {
            Some(i) => self.opened(i),
            None => match slideshow {
                Some(i) => self.slideshow_started(i, now),
                None => self,
            },
        };
        crate::viewer::AppSpec { grid_cursor: cursor, ..a }
    }

    /// The names of the files are shown or not.
    pub open spec fn names_shown(self, on: bool) -> Self {
        (crate::viewer::AppSpec { show_names: on, ..self }).saved()
    }

    /// The place that the right arrow key leads to.
    pub open spec fn right_of_cursor(self) -> usize {
        match self.grid_cursor {
            Some(c) => crate::slideshow::next_place(c, self.media.len() as usize),
            None => 0,
        }
    }

    /// The place that the left arrow key leads to.
    pub open spec fn left_of_cursor(self) -> usize {
        match self.grid_cursor {
            Some(c) => crate::slideshow::prev_place(c, self.media.len() as usize),
            None => (self.media.len() - 1) as usize,
        }
    }

    /// Enter over the grid opens the medium that the arrow keys start from.
    pub open spec fn entered_at_cursor(self) -> Self {
        match self.grid_cursor {
            Some(c) => self.opened(
                if c < self.media.len() {
                    c
                } else {
                    (self.media.len() - 1) as usize
                },
            ),
            None => self,
        }
    }

    /// The arrow keys show the medium beside the cursor alone.
    pub open spec fn arrowed(self, left: bool, right: bool) -> Self {
        if right {
            self.shown_alone(self.right_of_cursor()).emit(crate::work::EffectSpec::Focus)
        } else if left {
            self.shown_alone(self.left_of_cursor()).emit(crate::work::EffectSpec::Focus)
        } else {
            self
        }
    }

    /// The keys over the grid. While the address bar is edited they belong to it.
    pub open spec fn grid_keyed(self, k: GridKeys, now: u64) -> Self {
        let a = if k.ctrl_l {
            self.address_opened()
        } else {
            self
        };
        if a.address_editing || a.media.len() == 0 {
            a
        } else {
            let b = if k.f5 {
                a.slideshow_started(0, now)
            } else {
                a
            };
            let c = if k.enter {
                b.entered_at_cursor()
            } else {
                b
            };
            c.arrowed(k.left, k.right)
        }
    }

    // ── A medium shown alone ─────────────────────────────────────────────────

    /// The medium shown alone is closed by its button.
    pub open spec fn close_pressed(self, i: usize) -> Self {
        crate::viewer::AppSpec { grid_cursor: Some(i), single_image: None, ..self }
    }

    /// The keys over a medium shown alone end its view.
    pub open spec fn single_ends(self, k: SingleKeys) -> bool {
        self.media.len() == 0 || k.escape || (k.f5 && crate::index::slideshow_from(
            self.media,
            self.single_image->0.index as int,
        ) is Some)
    }

    /// The viewer after keys that end the view of a medium: without media it is just gone,
    /// Escape closes it, and F5 puts a slideshow in its place, which starts with the medium
    /// itself where that is an image.
    pub open spec fn single_ended(self, k: SingleKeys, now: u64) -> Self {
        if self.media.len() == 0 {
            crate::viewer::AppSpec { single_image: None, ..self }
        } else if k.escape {
            self.closed()
        } else {
            crate::viewer::AppSpec {
                single_image: None,
                ..self.slideshow_started(
                    crate::index::slideshow_from(
                        self.media,
                        self.single_image->0.index as int,
                    )->0 as usize,
                    now,
                )
            }
        }
    }

    /// The view of a medium after keys that do not end it, before the medium is shown: the
    /// seek bar of a video follows its player.
    pub open spec fn single_followed(
        self,
        k: SingleKeys,
        position: Option<N>,
    ) -> crate::single::SingleSpec<T, V, N> {
        followed_among(self.single_image->0, self.media, k, position)
    }

    /// The viewer after a frame of a medium shown alone.
    pub open spec fn single_shown(self, k: SingleKeys, position: Option<N>, now: u64) -> Self {
        if self.single_ends(k) {
            self.single_ended(k, now)
        } else {
            let a = self.single_followed(k, position);
            crate::viewer::AppSpec {
                single_image: Some(a.shown(self.media[a.index as int])),
                ..self
            }
        }
    }

    /// The controls of a video were used. The sound changes where there is a player.
    pub open spec fn video_used(
        self,
        is_video: bool,
        video: crate::single::VideoInput<N>,
        audio: AudioInput<N>,
    ) -> Self {
        if is_video && self.single_image is Some {
            let a = crate::viewer::AppSpec {
                single_image: Some(self.single_image->0.controlled(video)),
                ..self
            };
            if self.single_image->0.video is Some {
                a.audio_changed(audio)
            } else {
                a
            }
        } else {
            self
        }
    }

    /// The sound is changed.
    pub open spec fn audio_changed(self, input: AudioInput<N>) -> Self {
        if crate::single::audio_changes(input) {
            let a = crate::single::audio_after(
                Audio { volume: self.volume, muted: self.muted },
                input,
            );
            (crate::viewer::AppSpec { volume: a.volume, muted: a.muted, ..self }).saved()
        } else {
            self
        }
    }

    /// The medium shown alone is closed from the filmstrip.
    pub open spec fn strip_closed(self) -> Self {
        self.closed().emit(crate::work::EffectSpec::Focus)
    }

    /// A frame of the filmstrip was chosen.
    pub open spec fn strip_chosen(self, i: usize) -> Self {
        (crate::viewer::AppSpec {
            single_image: match self.single_image {
                Some(si) => Some(si.jumped(i)),
                None => None,
            },
            ..self
        }).emit(crate::work::EffectSpec::Focus)
    }

    // ── The slideshow ────────────────────────────────────────────────────────

    /// What the controls of the slideshow were set to is kept for the next one.
    pub open spec fn defaults_set(self, input: SsInput<N>) -> Self {
        let ss = self.slideshow->0;
        crate::viewer::AppSpec {
            interval: if input.interval_changed {
                input.interval
            } else {
                self.interval
            },
            fade: if input.fade != ss.fade_enabled {
                input.fade
            } else {
                self.fade
            },
            pixel_perfect: if input.pixel_perfect != ss.pixel_perfect {
                input.pixel_perfect
            } else {
                self.pixel_perfect
            },
            ..self
        }
    }

    /// The slideshow was stopped by the user: what its controls were set to is kept.
    pub open spec fn stop_pressed(self, input: SsInput<N>) -> Self {
        (crate::viewer::AppSpec {
            slideshow: Some(
                crate::slideshow::SlideshowSpec {
                    interval: input.interval,
                    fade_enabled: input.fade,
                    pixel_perfect: input.pixel_perfect,
                    ..self.slideshow->0
                },
            ),
            interval: input.interval,
            fade: input.fade,
            pixel_perfect: input.pixel_perfect,
            ..self
        }).slideshow_stopped()
    }

    /// The number of images that a slideshow goes through.
    pub open spec fn image_count(self) -> usize {
        crate::index::images_among(self.media).len() as usize
    }

    /// A frame of the slideshow starts. Without images there is none.
    pub open spec fn slideshow_begun(self, now: u64) -> Self {
        if self.image_count() == 0 {
            self.slideshow_stopped()
        } else {
            crate::viewer::AppSpec {
                slideshow: Some(self.slideshow->0.expired(now)),
                ..self
            }
        }
    }

    /// The slideshow after what the user did in a frame of it.
    pub open spec fn slideshow_steered(self, input: SsInput<N>, now: u64) -> Self {
        if input.stop {
            self.stop_pressed(input)
        } else {
            crate::viewer::AppSpec {
                slideshow: Some(self.slideshow->0.steered(self.image_count(), now, input)),
                ..self.defaults_set(input)
            }
        }
    }

    /// The user did something while a slideshow runs.
    pub open spec fn slideshow_stirred(self, now: u64) -> Self {
        match self.slideshow {
            Some(ss) => crate::viewer::AppSpec { slideshow: Some(ss.stirred(now)), ..self },
            None => self,
        }
    }

    /// The time has come to `now`, for a slideshow that runs.
    pub open spec fn slideshow_ticked(self, now: u64, fade_done: bool, due: bool) -> Self {
        match self.slideshow {
            Some(ss) => crate::viewer::AppSpec {
                slideshow: Some(ss.ticked(self.image_count(), now, fade_done, due)),
                ..self
            },
            None => self,
        }
    }

    // ── Each frame ───────────────────────────────────────────────────────────

    /// A frame begins: where the window is counts once the viewer has started.
    pub open spec fn frame_begun(self, rect: Option<R>, changed: bool, now: u64) -> Self {
        if self.startup_ready {
            self.placed(rect, changed, now)
        } else {
            self
        }
    }

    /// What happens in each frame before anything is drawn: nothing before the viewer has
    /// started.
    pub open spec fn woken(self, w: FrameInput) -> Self {
        if self.startup_ready {
            self.awake(w)
        } else {
            self
        }
    }

    /// What happens in each frame of a viewer that has started.
    pub open spec fn awake(self, w: FrameInput) -> Self {
        let a = self.watcher_polled(w.folder_changed, w.now);
        let b = if w.active {
            a.slideshow_stirred(w.now)
        } else {
            a
        };
        b.slideshow_ticked(w.now, w.fade_done, w.due).stepped_around(
            w.alt_left,
            w.alt_right,
            false,
        ).screen_begun()
    }

    /// What a frame says of when to paint again, and of the part that fills the window.
    pub open spec fn tells(self, w: FrameInput, out: FrameOutput) -> bool {
        let a = self.watcher_polled(w.folder_changed, w.now);
        let b = if w.active {
            a.slideshow_stirred(w.now)
        } else {
            a
        };
        &&& out.controls_end == if w.active && a.slideshow is Some && !a.slideshow->0.paused {
            Some(CONTROLS_VISIBLE_NANOS)
        } else {
            None
        }
        &&& out.slideshow == match b.slideshow {
            Some(ss) => ss.wake(b.image_count(), w.now, w.fade_done, w.due),
            None => Wake::No,
        }
        &&& out.screen == self.awake(w).screen()
    }

    // ── Texts ────────────────────────────────────────────────────────────────

    /// What the status bar says of where the user is.
    pub open spec fn location(self) -> Seq<char> {
        match self.selected_folder {
            Some(f) => f.text,
            None => LIBRARY@,
        }
    }

    /// Thumbnails are still to come.
    pub open spec fn is_caching(self) -> bool {
        self.thumbs.total > 0 && self.thumbs.queued != Set::<crate::path::PathKey>::empty()
    }

    /// What the status bar says of the thumbnails that are still to come.
    pub open spec fn caching_text(self) -> Seq<char> {
        let t = self.thumbs;
        CACHING@ + crate::text::decimal(t.done as nat) + "/"@ + crate::text::decimal(
            t.total as nat,
        ) + "  "@ + crate::text::decimal(t.queued_folders as nat) + " folders"@ + match t.current {
            Some(p) => "  "@ + p.text,
            None => Seq::empty(),
        }
    }
}

impl<T, V, N: Copy, R> PicViewApp<T, V, N, R> {
    // ── The address bar ──────────────────────────────────────────────────────

    /// What the address bar goes back to.
    pub fn restored_address(&self) -> (r: String)
        ensures
            r@ == self@.restored_address(),
    {
        let r = if self.view_mode == ViewMode::Library {
            LIBRARY.to_owned()
        } else {
            match &self.selected_folder {
                Some(f) => f.text.clone(),
                None => String::new(),
            }
        };
        assert(r@ =~= self@.restored_address());
        r
    }

    /// Starts to edit the address bar.
    pub fn open_address(&mut self)
        ensures
            final(self)@ == old(self)@.address_opened(),
    {
        self.address_editing = true;
        self.address_needs_focus = true;
    }

    /// Whether the address bar has to get the focus. It is asked for once.
    pub fn take_address_focus(&mut self) -> (r: bool)
        ensures
            r == old(self)@.address_needs_focus,
            final(self)@ == (crate::viewer::AppSpec { address_needs_focus: false, ..old(self)@ }),
    {
        let r = self.address_needs_focus;
        self.address_needs_focus = false;
        r
    }

    fn drop_address(&mut self)
        ensures
            final(self)@ == old(self)@.address_dropped(),
    {
        self.address_text = self.restored_address();
        self.address_editing = false;
    }

    /// The keys in the address bar; `is_dir` tells whether what was entered is a folder.
    /// Returns whether that folder is to be shown.
    pub fn key_address(&mut self, escape: bool, enter: bool, is_dir: bool, lost_focus: bool) -> (r:
        bool)
        ensures
            final(self)@ == old(self)@.address_keyed(escape, enter, is_dir, lost_focus),
            r == (old(self)@.address_editing && !escape && enter && is_dir),
    {
        if !self.address_editing {
            return false;
        }
        if escape {
            self.drop_address();
            false
        } else if enter {
            if is_dir {
                self.address_editing = false;
            } else {
                self.drop_address();
            }
            is_dir
        } else {
            if lost_focus {
                self.drop_address();
            }
            false
        }
    }

    fn pick(&mut self, folder: Option<MediaPath>)
        ensures
            final(self)@ == old(self)@.chosen(crate::path::option_view(folder)),
    {
        if let Some(f) = folder {
            self.select_folder(f);
        }
    }

    fn manage(&mut self, folder: Option<(MediaPath, bool)>)
        ensures
            final(self)@ == old(self)@.adding(folder),
    {
        if let Some((f, is_dir)) = folder {
            self.add_managed_folder(f, is_dir);
        }
    }

    fn unmanage(&mut self, folder: Option<MediaPath>)
        ensures
            final(self)@ == old(self)@.removing(crate::path::option_view(folder)),
    {
        if let Some(f) = folder {
            self.remove_managed_folder(&f);
        }
    }

    fn step_around(&mut self, go_back: bool, go_forward: bool, go_up: bool)
        ensures
            final(self)@ == old(self)@.stepped_around(go_back, go_forward, go_up),
    {
        if go_back {
            self.navigate_back();
        }
        if go_forward {
            self.navigate_forward();
        }
        if go_up {
            self.navigate_up();
        }
    }

    /// Does what the user did in the address bar.
    pub fn show_address_bar(&mut self, actions: BarActions)
        ensures
            final(self)@ == old(self)@.bar_done(actions),
    {
        self.step_around(actions.go_back, actions.go_forward, actions.go_up);
        self.pick(actions.enter_folder);
        self.pick(actions.open_folder);
        if let Some(p) = actions.open_image {
            self.open_recent_image(p);
        }
        self.manage(actions.add_managed);
        self.unmanage(actions.remove_managed);
    }

    // ── The left panel ───────────────────────────────────────────────────────

    /// Whether the left panel has a part for the library.
    pub fn shows_library(&self) -> (r: bool)
        ensures
            r == self@.shows_library(),
    {
        self.managed.paths().len() > 0 || self.selected_folder.is_some() || self.view_mode
            == ViewMode::Library
    }

    /// Whether the selected folder is in the library.
    pub fn selected_is_managed(&self) -> (r: bool)
        ensures
            r == (self@.selected_folder matches Some(f) && self@.managed.has(f.parts)),
    {
        match &self.selected_folder {
            Some(f) => self.has_managed_folder(f),
            None => false,
        }
    }

    /// Does what the user did in the left panel.
    pub fn show_folder_panel(&mut self, actions: PanelActions)
        ensures
            final(self)@ == old(self)@.panel_done(actions),
    {
        let moved = !same_paths(&actions.selected, &actions.selected_before);
        self.manage(actions.add_current);
        self.pick(actions.open_managed);
        if actions.open_library {
            self.select_library();
        }
        self.unmanage(actions.remove_managed);
        if moved {
            self.pick(actions.selected);
        }
    }
}

impl<T, V, N: Copy, R> PicViewApp<T, V, N, R> {
    // ── The grid ─────────────────────────────────────────────────────────────

    /// Which part fills the window. Thumbnails are loaded ahead for the grid alone.
    pub fn begin_screen(&mut self) -> (r: Screen)
        ensures
            r == old(self)@.screen(),
            final(self)@ == old(self)@.screen_begun(),
    {
        if self.slideshow.is_some() {
            self.thumbs.leave_view();
            Screen::Slideshow
        } else if self.single_image.is_some() {
            self.thumbs.leave_view();
            Screen::Single
        } else {
            Screen::Grid
        }
    }

    /// Lays out the grid, where something that the layout depends on changed.
    pub fn lay_out(&mut self, width: u32, thumb: u32, cols: usize)
        requires
            cols > 0,
            crate::grid::rows_of(crate::grid::sizes_of(old(self)@.groups), cols as int)
                <= usize::MAX,
            crate::grid::media_of(crate::grid::sizes_of(old(self)@.groups)) <= usize::MAX,
        ensures
            final(self)@ == old(self)@.laid_out(width, thumb, cols),
    {
        let signature: (u32, u32, usize, usize) = (
            width,
            thumb,
            self.folder_groups.len(),
            self.index.total_media(),
        );
        let same = match self.grid_signature {
            Some(s) => s.0 == signature.0 && s.1 == signature.1 && s.2 == signature.2 && s.3
                == signature.3,
            None => false,
        };
        if !same {
            self.grid_layout = Some(ThumbnailGridLayout::of_groups(&self.folder_groups, cols));
            self.grid_signature = Some(signature);
        }
    }

    /// Takes note of the rows on show, so that their thumbnails come first.
    pub fn show_rows(&mut self, start: usize, end: usize, moving: bool)
        ensures
            final(self)@ == old(self)@.rows_shown(start as int, end as int, moving),
    {
        if let Some(layout) = &self.grid_layout {
            let (visible, prefetch) = layout.media_on_show(start, end, moving);
            self.thumbs.visible = visible;
            self.thumbs.prefetch = prefetch;
        }
    }

    /// Ends a frame of the grid.
    pub fn finish_grid(
        &mut self,
        open: Option<usize>,
        slideshow: Option<usize>,
        cursor: Option<usize>,
        now: u64,
    )
        ensures
            final(self)@ == old(self)@.grid_done(open, slideshow, cursor, now),
    {
        if let Some(i) = open {
            self.open_single_image_at(i);
        } else if let Some(i) = slideshow {
            self.start_slideshow(i, now);
        }
        self.grid_cursor = cursor;
    }

    /// Shows the names of the files, or does not.
    pub fn set_show_names(&mut self, on: bool)
        ensures
            final(self)@ == old(self)@.names_shown(on),
    {
        self.show_thumbnail_filenames = on;
        self.do_save_settings();
    }

    fn open_at_cursor(&mut self, n: usize)
        requires
            n == old(self)@.media.len(),
            n > 0,
        ensures
            final(self)@ == old(self)@.entered_at_cursor(),
    {
        if let Some(c) = self.grid_cursor {
            let i: usize = if c < n {
                c
            } else {
                n - 1
            };
            self.open_single_image_at(i);
        }
    }

    fn go_beside(&mut self, n: usize, left: bool, right: bool)
        requires
            n == old(self)@.media.len(),
            n > 0,
        ensures
            final(self)@ == old(self)@.arrowed(left, right),
    {
        if right {
            let i: usize = match self.grid_cursor {
                Some(c) => next_in_round(c, n),
                None => 0,
            };
            self.show_alone(i);
            self.emit(Effect::Focus);
        } else if left {
            let i: usize = match self.grid_cursor {
                Some(c) => prev_in_round(c, n),
                None => n - 1,
            };
            self.show_alone(i);
            self.emit(Effect::Focus);
        }
    }

    /// The keys over the grid.
    pub fn key_grid(&mut self, keys: GridKeys, now: u64)
        ensures
            final(self)@ == old(self)@.grid_keyed(keys, now),
    {
        if keys.ctrl_l {
            self.open_address();
        }
        let n: usize = self.index.total_media();
        if self.address_editing || n == 0 {
            return ;
        }
        if keys.f5 {
            self.start_slideshow(0, now);
        }
        if keys.enter {
            self.open_at_cursor(n);
        }
        self.go_beside(n, keys.left, keys.right);
    }
}

impl<T, V, N: Copy, R> PicViewApp<T, V, N, R> {
    // ── A medium shown alone ─────────────────────────────────────────────────

    fn end_single(&mut self, keys: &SingleKeys, now: u64) -> (r: bool)
        requires
            old(self)@.single_image is Some,
        ensures
            r == old(self)@.single_ends(*keys),
            final(self)@ == if r {
                old(self)@.single_ended(*keys, now)
            } else {
                old(self)@
            },
    {
        if self.index.total_media() == 0 {
            self.single_image = None;
            return true;
        }
        if keys.escape {
            self.close_single_image();
            return true;
        }
        if keys.f5 {
            let i: usize = match &self.single_image {
                Some(si) => si.index,
                None => 0,
            };
            if let Some(first) = self.index.slideshow_index_from(i) {
                self.start_slideshow(first, now);
                self.single_image = None;
                return true;
            }
        }
        false
    }

    /// A frame of a medium shown alone; `position` is where its player is. Returns nothing
    /// where the view has ended.
    pub fn show_single_image(&mut self, keys: SingleKeys, position: Option<N>, now: u64) -> (r:
        Option<SingleFrame<N>>)
        requires
            old(self)@.single_image is Some,
        ensures
            final(self)@ == old(self)@.single_shown(keys, position, now),
            r is None <==> old(self)@.single_ends(keys),
            r matches Some(f) ==> f.index < old(self)@.media.len() && frame_tells(
                f,
                old(self)@.single_followed(keys, position),
                old(self)@.media,
            ),
    {
        if self.end_single(&keys, now) {
            return None;
        }
        match self.single_image.take() {
            Some(si) => {
                let mut si = si;
                let frame = frame_of(&mut si, &self.index, keys, position);
                self.single_image = Some(si);
                Some(frame)
            },
            None => None,
        }
    }

    /// The picture of the medium shown alone has come.
    pub fn single_picture_loaded(&mut self, tex: T)
        ensures
            final(self)@ == (crate::viewer::AppSpec {
                single_image: match old(self)@.single_image {
                    Some(si) => Some(crate::single::SingleSpec { tex: Some(tex), ..si }),
                    None => None,
                },
                ..old(self)@
            }),
    {
        if let Some(mut si) = self.single_image.take() {
            si.picture_loaded(tex);
            self.single_image = Some(si);
        }
    }

    /// The button that closes the medium shown alone was pressed.
    pub fn press_close(&mut self, i: usize)
        ensures
            final(self)@ == old(self)@.close_pressed(i),
    {
        self.grid_cursor = Some(i);
        self.single_image = None;
    }

    fn set_audio(&mut self, input: AudioInput<N>) -> (r: bool)
        ensures
            final(self)@ == old(self)@.audio_changed(input),
            r == crate::single::audio_changes(input),
    {
        let before = Audio { volume: self.media_volume, muted: self.media_muted };
        let (after, changed) = change_audio(before, input);
        if changed {
            self.media_volume = after.volume;
            self.media_muted = after.muted;
            self.do_save_settings();
        }
        changed
    }

    fn set_controls(&mut self, video: VideoInput<N>) -> (r: bool)
        ensures
            r == (old(self)@.single_image is Some && old(self)@.single_image->0.video is Some),
            final(self)@ == (crate::viewer::AppSpec {
                single_image: match old(self)@.single_image {
                    Some(si) => Some(si.controlled(video)),
                    None => None,
                },
                ..old(self)@
            }),
    {
        match self.single_image.take() {
            Some(si) => {
                let mut si = si;
                si.video_controls(video);
                let has_player = si.video.is_some();
                self.single_image = Some(si);
                has_player
            },
            None => false,
        }
    }

    /// The controls of a video were used. Returns whether the sound of its player changes.
    pub fn use_video(&mut self, is_video: bool, video: VideoInput<N>, audio: AudioInput<N>) -> (r:
        bool)
        ensures
            final(self)@ == old(self)@.video_used(is_video, video, audio),
            r == (is_video && old(self)@.single_image is Some && old(self)@.single_image->0.video
                is Some && crate::single::audio_changes(audio)),
    {
        if !is_video {
            return false;
        }
        let has_player = self.set_controls(video);
        if has_player {
            self.set_audio(audio)
        } else {
            false
        }
    }

    /// The media of the frames of the filmstrip, where there is one.
    pub fn filmstrip(&self) -> (r: Option<Vec<usize>>)
        ensures
            r is Some <==> self@.single_image is Some && self@.single_image->0.index
                < self@.media.len(),
            r matches Some(v) ==> v@.len() == FILMSTRIP_LEN && forall|i: int|
                0 <= i < v@.len() ==> #[trigger] v@[i] == crate::single::strip_place(
                    self@.single_image->0.index,
                    self@.media.len() as usize,
                    i,
                ) && v@[i] < self@.media.len(),
    {
        match &self.single_image {
            Some(si) => {
                let n: usize = self.index.total_media();
                if si.index < n {
                    Some(strip_places(si.index, n))
                } else {
                    None
                }
            },
            None => None,
        }
    }

    /// Closes the medium shown alone from the filmstrip.
    pub fn close_from_strip(&mut self)
        ensures
            final(self)@ == old(self)@.strip_closed(),
    {
        self.close_single_image();
        self.emit(Effect::Focus);
    }

    /// Shows the medium of a frame of the filmstrip.
    pub fn go_from_strip(&mut self, i: usize)
        ensures
            final(self)@ == old(self)@.strip_chosen(i),
    {
        if let Some(mut si) = self.single_image.take() {
            si.jump(i);
            self.single_image = Some(si);
        }
        self.emit(Effect::Focus);
    }
}

impl<T, V, N: Copy, R> PicViewApp<T, V, N, R> {
    // ── The slideshow ────────────────────────────────────────────────────────

    /// Starts a frame of the slideshow. Returns nothing where there is no image for it.
    pub fn begin_slideshow(&mut self, now: u64) -> (r: Option<SsFrame<N>>)
        requires
            old(self)@.slideshow is Some,
            old(self)@.slideshow->0.index < usize::MAX,
        ensures
            final(self)@ == old(self)@.slideshow_begun(now),
            r is Some <==> old(self)@.image_count() > 0,
            r matches Some(f) ==> {
                let ss = final(self)@.slideshow->0;
                &&& f.label@ == place_label(ss.index as nat, old(self)@.image_count() as nat)
                &&& f.interval == ss.interval
                &&& f.paused == ss.paused
                &&& f.fade == ss.fade_enabled
                &&& f.pixel_perfect == ss.pixel_perfect
                &&& f.controls == ss.shows_controls(now)
            },
    {
        let n: usize = self.index.total_images();
        if n == 0 {
            self.stop_slideshow();
            return None;
        }
        match self.slideshow.take() {
            Some(ss) => {
                let mut ss = ss;
                let controls = ss.begin_frame(now);
                let frame = SsFrame {
                    label: label_of_place(ss.index, n),
                    interval: ss.interval,
                    paused: ss.paused,
                    fade: ss.fade_enabled,
                    pixel_perfect: ss.pixel_perfect,
                    controls,
                };
                self.slideshow = Some(ss);
                Some(frame)
            },
            None => None,
        }
    }

    fn keep(&mut self, interval: N, fade: bool, pixel_perfect: bool)
        ensures
            final(self)@ == (crate::viewer::AppSpec {
                interval,
                fade,
                pixel_perfect,
                ..old(self)@
            }),
    {
        self.default_slideshow_interval = interval;
        self.default_fade_enabled = fade;
        self.default_slideshow_pixel_perfect = pixel_perfect;
    }

    fn set_slideshow(&mut self, interval: N, fade: bool, pixel_perfect: bool)
        requires
            old(self)@.slideshow is Some,
        ensures
            final(self)@ == (crate::viewer::AppSpec {
                slideshow: Some(
                    crate::slideshow::SlideshowSpec {
                        interval,
                        fade_enabled: fade,
                        pixel_perfect,
                        ..old(self)@.slideshow->0
                    },
                ),
                ..old(self)@
            }),
    {
        if let Some(ss) = self.slideshow.take() {
            let mut ss = ss;
            ss.interval = interval;
            ss.fade_enabled = fade;
            ss.pixel_perfect = pixel_perfect;
            self.slideshow = Some(ss);
        }
    }

    fn press_stop(&mut self, input: SsInput<N>)
        requires
            old(self)@.slideshow is Some,
        ensures
            final(self)@ == old(self)@.stop_pressed(input),
    {
        self.set_slideshow(input.interval, input.fade, input.pixel_perfect);
        self.keep(input.interval, input.fade, input.pixel_perfect);
        self.stop_slideshow();
    }

    fn set_defaults(&mut self, input: &SsInput<N>)
        requires
            old(self)@.slideshow is Some,
        ensures
            final(self)@ == old(self)@.defaults_set(*input),
    {
        let (fade, pixel_perfect) = match &self.slideshow {
            Some(ss) => (ss.fade_enabled, ss.pixel_perfect),
            None => (input.fade, input.pixel_perfect),
        };
        let interval = if input.interval_changed {
            input.interval
        } else {
            self.default_slideshow_interval
        };
        let fade = if input.fade != fade {
            input.fade
        } else {
            self.default_fade_enabled
        };
        let pixel_perfect = if input.pixel_perfect != pixel_perfect {
            input.pixel_perfect
        } else {
            self.default_slideshow_pixel_perfect
        };
        self.keep(interval, fade, pixel_perfect);
    }

    /// Does what the user did in a frame of the slideshow. Returns the image to show, and
    /// whether its picture has to be loaded; nothing where the slideshow was stopped.
    pub fn steer_slideshow(&mut self, input: SsInput<N>, now: u64) -> (r: Option<
        (MediaPath, bool),
    >)
        requires
            old(self)@.slideshow is Some,
            old(self)@.image_count() > 0,
        ensures
            final(self)@ == old(self)@.slideshow_steered(input, now),
            r is None <==> input.stop,
            r matches Some((p, load)) ==> {
                let ss = final(self)@.slideshow->0;
                &&& ss.index < old(self)@.image_count()
                &&& p@ == crate::index::images_among(old(self)@.media)[ss.index as int]
                &&& load == ss.lacks(p@)
            },
    {
        if input.stop {
            self.press_stop(input);
            return None;
        }
        self.set_defaults(&input);
        let all = self.index.all_slideshow_images();
        let n: usize = all.len();
        assert(crate::index::images_among(self@.media).len() == n);
        match self.slideshow.take() {
            Some(ss) => {
                let mut ss = ss;
                ss.steer(n, now, input);
                let path = all[ss.index].clone();
                assert(path@ == crate::index::images_among(self@.media)[ss.index as int]);
                let load = ss.needs_load(&path);
                self.slideshow = Some(ss);
                Some((path, load))
            },
            None => None,
        }
    }

    /// The picture of an image of the slideshow has come.
    pub fn slideshow_picture_loaded(&mut self, tex: T, path: MediaPath, now: u64)
        ensures
            final(self)@ == (crate::viewer::AppSpec {
                slideshow: match old(self)@.slideshow {
                    Some(ss) => Some(ss.loaded(tex, path@, now)),
                    None => None,
                },
                ..old(self)@
            }),
    {
        if let Some(ss) = self.slideshow.take() {
            let mut ss = ss;
            ss.picture_loaded(tex, path, now);
            self.slideshow = Some(ss);
        }
    }

    /// The user did something. Returns after how many nanoseconds to paint a slideshow again.
    pub fn note_slideshow_activity(&mut self, now: u64) -> (r: Option<u64>)
        ensures
            final(self)@ == old(self)@.slideshow_stirred(now),
            r == if old(self)@.slideshow is Some && !old(self)@.slideshow->0.paused {
                Some(CONTROLS_VISIBLE_NANOS)
            } else {
                None
            },
    {
        match self.slideshow.take() {
            Some(ss) => {
                let mut ss = ss;
                let r = ss.note_activity(now);
                self.slideshow = Some(ss);
                r
            },
            None => None,
        }
    }

    /// The time has come to `now`. Returns when to paint a slideshow again.
    pub fn tick_slideshow(&mut self, now: u64, fade_done: bool, due: bool) -> (r: Wake)
        ensures
            final(self)@ == old(self)@.slideshow_ticked(now, fade_done, due),
            r == match old(self)@.slideshow {
                Some(ss) => ss.wake(old(self)@.image_count(), now, fade_done, due),
                None => Wake::No,
            },
    {
        let n: usize = self.index.total_images();
        match self.slideshow.take() {
            Some(ss) => {
                let mut ss = ss;
                let r = ss.tick(n, now, fade_done, due);
                self.slideshow = Some(ss);
                r
            },
            None => Wake::No,
        }
    }

    // ── Each frame ───────────────────────────────────────────────────────────

    /// A frame begins with the window at a place; `changed` tells whether that is another than
    /// before. Returns whether scans, thumbnails and the scroll streak are looked after in this
    /// frame: they rest before the viewer has started, and while the window moves.
    pub fn begin_frame(&mut self, rect: Option<R>, changed: bool, now: u64) -> (r: bool)
        ensures
            final(self)@ == old(self)@.frame_begun(rect, changed, now),
            r == (final(self)@.startup_ready && !final(self)@.moving(now)),
    {
        if !self.startup_ready {
            return false;
        }
        self.tick_viewport_motion(rect, changed, now);
        !self.viewport_motion_active(now)
    }

    /// What happens in each frame before anything is drawn. Until the viewer has started there
    /// is only the splash; what the start found is taken once the splash has been on show for
    /// long enough.
    pub fn update(&mut self, input: FrameInput) -> (r: FrameStep)
        ensures
            final(self)@ == old(self)@.woken(input),
            r is Splash <==> !old(self)@.startup_ready && !(input.arrived && input.splash_over),
            r is TakeStart <==> !old(self)@.startup_ready && input.arrived && input.splash_over,
            r matches FrameStep::Drawn(out) ==> old(self)@.tells(input, out),
    {
        if !self.startup_ready {
            return if input.arrived && input.splash_over {
                FrameStep::TakeStart
            } else {
                FrameStep::Splash
            };
        }
        FrameStep::Drawn(self.wake(input))
    }

    fn wake(&mut self, input: FrameInput) -> (r: FrameOutput)
        ensures
            final(self)@ == old(self)@.awake(input),
            old(self)@.tells(input, r),
    {
        self.poll_watcher(input.folder_changed, input.now);
        let controls_end = if input.active {
            self.note_slideshow_activity(input.now)
        } else {
            None
        };
        let slideshow = self.tick_slideshow(input.now, input.fade_done, input.due);
        self.step_around(input.alt_left, input.alt_right, false);
        let screen = self.begin_screen();
        FrameOutput { controls_end, slideshow, screen }
    }

    // ── Texts ────────────────────────────────────────────────────────────────

    /// What the status bar says of where the user is.
    pub fn location(&self) -> (r: String)
        ensures
            r@ == self@.location(),
    {
        match &self.selected_folder {
            Some(f) => f.text.clone(),
            None => LIBRARY.to_owned(),
        }
    }

    /// What is shown in place of the grid while a scan is going on.
    pub fn scan_text(&self) -> (r: Option<String>)
        ensures
            crate::viewer::text_view(r) == if !self@.scan_in_progress {
                None
            } else if self@.scan_message is Some {
                self@.scan_message
            } else {
                Some(SCANNING@)
            },
    {
        if !self.scan_in_progress {
            return None;
        }
        match &self.scan_message {
            Some(m) => Some(m.clone()),
            None => Some(SCANNING.to_owned()),
        }
    }

    /// What the status bar says of the thumbnails that are still to come, if there are any.
    pub fn caching_text(&self) -> (r: Option<String>)
        ensures
            crate::viewer::text_view(r) == if self@.is_caching() {
                Some(self@.caching_text())
            } else {
                None
            },
    {
        if self.thumbs.total == 0 || self.thumbs.queued.is_empty() {
            return None;
        }
        let mut out = String::new();
        push_text(&mut out, CACHING);
        push_decimal(&mut out, self.thumbs.done as u64);
        push_text(&mut out, "/");
        push_decimal(&mut out, self.thumbs.total as u64);
        push_text(&mut out, "  ");
        push_decimal(&mut out, self.thumbs.queued_folders as u64);
        push_text(&mut out, " folders");
        if let Some(p) = &self.thumbs.current {
            push_text(&mut out, "  ");
            push_text(&mut out, p.text.as_str());
        }
        assert(out@ =~= self@.caching_text());
        Some(out)
    }
}

/// The view of a medium before it is shown, among the given media.
pub open spec fn followed_among<T, V, N>(
    si: crate::single::SingleSpec<T, V, N>,
    media: Seq<crate::path::PathSpec>,
    k: SingleKeys,
    position: Option<N>,
) -> crate::single::SingleSpec<T, V, N> {
    let a = si.walked(media.len() as usize, k.back, k.forward);
    if crate::media::video_key(media[a.index as int].parts) {
        a.followed(position)
    } else {
        a
    }
}

/// What a frame of a medium is made of, with its view before it is shown.
pub open spec fn frame_tells<T, V, N>(
    f: SingleFrame<N>,
    a: crate::single::SingleSpec<T, V, N>,
    media: Seq<crate::path::PathSpec>,
) -> bool {
    let path = media[a.index as int];
    &&& f.index == a.index
    &&& f.path@ == path
    &&& f.is_video == crate::media::video_key(path.parts)
    &&& f.label@ == single_label(a.index as nat, media.len(), a.display_name)
    &&& f.needs_picture == (a.lacks(path) && !f.is_video)
    &&& f.has_player == (a.video is Some)
    &&& f.controls == a.video_ui
}

fn frame_of<T, V, N: Copy>(
    si: &mut SingleImage<T, V, N>,
    index: &MediaIndex,
    keys: SingleKeys,
    position: Option<N>,
) -> (r: SingleFrame<N>)
    requires
        index@.len() > 0,
    ensures
        ({
            let a = followed_among(old(si)@, index@, keys, position);
            &&& a.index < index@.len()
            &&& final(si)@ == a.shown(index@[a.index as int])
            &&& frame_tells(r, a, index@)
        }),
{
    let all = index.all_images();
    let n: usize = all.len();
    assert(index@.len() == n);
    si.walk(n, keys.back, keys.forward);
    let i: usize = si.index;
    let path = all[i].clone();
    assert(path@ == index@[i as int]);
    let video = is_video(&path);
    if video {
        si.follow_player(position);
    }
    let label = label_of_single(i, n, si.display_name.as_str());
    let has_player = si.video.is_some();
    let controls = VideoUiState {
        seek_dragging: si.video_ui.seek_dragging,
        seek_position: si.video_ui.seek_position,
        volume_expanded: si.video_ui.volume_expanded,
    };
    let needs_picture = si.show(&path, video);
    SingleFrame { index: i, path, is_video: video, label, needs_picture, has_player, controls }
}

/// The place of a medium in the list, as the user counts.
pub open spec fn place_label(i: nat, n: nat) -> Seq<char> {
    crate::text::decimal(i + 1) + " / "@ + crate::text::decimal(n)
}

/// The place of a medium, and its name.
pub open spec fn single_label(i: nat, n: nat, name: Seq<char>) -> Seq<char> {
    place_label(i, n) + "  "@ + name
}

/// The place of a medium in the list, as the user counts.
pub fn label_of_place(i: usize, n: usize) -> (r: String)
    requires
        i < usize::MAX,
    ensures
        r@ == place_label(i as nat, n as nat),
{
    let mut out = String::new();
    push_decimal(&mut out, (i + 1) as u64);
    push_text(&mut out, " / ");
    push_decimal(&mut out, n as u64);
    assert(out@ =~= place_label(i as nat, n as nat));
    out
}

fn label_of_single(i: usize, n: usize, name: &str) -> (r: String)
    requires
        i < n,
    ensures
        r@ == single_label(i as nat, n as nat, name@),
{
    let mut out = label_of_place(i, n);
    push_text(&mut out, "  ");
    push_text(&mut out, name);
    out
}

/// Whether two optional paths are the same.
fn same_paths(a: &Option<MediaPath>, b: &Option<MediaPath>) -> (r: bool)
    ensures
        r == same_option(crate::path::option_view(*a), crate::path::option_view(*b)),
{
    match (a, b) {
        (Some(x), Some(y)) => x.same(y),
        (None, None) => true,
        _ => false,
    }
}

} // verus!
