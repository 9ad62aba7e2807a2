//! The viewer: what it shows, and what it does when something happens.
//!
//! What has to be done outside of it, such as writing a file or scanning a folder, is put into
//! its outbox, in turn.

use vstd::prelude::*;

use crate::grid::ThumbnailGridLayout;
use crate::history::History;
use crate::index::MediaIndex;
use crate::path::{copy_option, MediaPath};
use crate::pathmap::PathMap;
use crate::recent::{PathList, MANAGED_CAP, MANAGED_LABEL, RECENT_CAP, RECENT_LABEL};
use crate::scan::{DirSnapshot, FolderGroup};
use crate::settings::AppSettings;
use crate::single::SingleImage;
use crate::slideshow::Slideshow;
use crate::streak::ScrollStreak;
use crate::text::push_text;
use crate::thumbs::Thumbs;
use crate::tree::FolderNode;
use crate::work::{copy_snapshots, Effect, ScanRequest, ViewMode};

verus! {

/// What is shown in place of a folder when the library is on show.
pub const LIBRARY: &'static str = "Library";

/// How long the window counts as moving after it moved.
pub const MOTION_NANOS: u64 = 250_000_000;

/// How long the folders have to be quiet before they are scanned again.
pub const DEBOUNCE_NANOS: u64 = 800_000_000;

/// The viewer, with pictures of type `T`, players of type `V`, numbers of type `N` and areas of
/// the screen of type `R`.
pub struct PicViewApp<T, V, N, R> {
    pub roots: Vec<FolderNode>,
    pub selected_folder: Option<MediaPath>,
    pub view_mode: ViewMode,
    pub folder_groups: Vec<FolderGroup>,
    pub index: MediaIndex,
    /// All subfolders of the selected folder, not just those with media.
    pub direct_subdirs: Vec<MediaPath>,
    pub dir_snapshots: PathMap<DirSnapshot>,
    pub media_mtimes: PathMap<i64>,
    pub thumbs: Thumbs<T>,
    pub has_loader: bool,
    pub watcher_debounce: Option<u64>,
    pub address_text: String,
    pub address_editing: bool,
    pub address_needs_focus: bool,
    pub history: History,
    pub slideshow: Option<Slideshow<T, N>>,
    pub single_image: Option<SingleImage<T, V, N>>,
    /// The place of the medium that the arrow keys start from.
    pub grid_cursor: Option<usize>,
    pub streak: ScrollStreak,
    pub scroll_rect: Option<R>,
    pub outer_rect: Option<R>,
    pub motion_until: Option<u64>,
    pub grid_signature: Option<(u32, u32, usize, usize)>,
    pub grid_layout: Option<ThumbnailGridLayout>,
    pub left_panel_scroll_to_selected: bool,
    pub scan_generation: u64,
    pub scan_in_progress: bool,
    pub scan_message: Option<String>,
    pub startup_ready: bool,
    pub default_slideshow_interval: N,
    pub default_fade_enabled: bool,
    pub default_slideshow_pixel_perfect: bool,
    pub media_volume: N,
    pub media_muted: bool,
    pub show_thumbnail_filenames: bool,
    pub last_folder: Option<MediaPath>,
    pub managed: PathList,
    pub recent_folders: PathList,
    pub recent_images: PathList,
    pub outbox: Vec<Effect<N>>,
}

/// What the viewer holds.
pub struct AppSpec<T, V, N, R> {
    pub roots: Seq<FolderNode>,
    pub selected_folder: Option<crate::path::PathSpec>,
    pub view_mode: ViewMode,
    pub groups: Seq<crate::scan::GroupSpec>,
    pub media: Seq<crate::path::PathSpec>,
    pub direct_subdirs: Seq<crate::path::PathSpec>,
    pub snapshots: Map<crate::path::PathKey, crate::scan::SnapSpec>,
    pub mtimes: Map<crate::path::PathKey, i64>,
    pub thumbs: crate::thumbs::ThumbsSpec<T>,
    pub has_loader: bool,
    pub watcher_debounce: Option<u64>,
    pub address_text: Seq<char>,
    pub address_editing: bool,
    pub address_needs_focus: bool,
    pub history: crate::history::HistorySpec,
    pub slideshow: Option<crate::slideshow::SlideshowSpec<T, N>>,
    pub single_image: Option<crate::single::SingleSpec<T, V, N>>,
    pub grid_cursor: Option<usize>,
    pub streak: ScrollStreak,
    pub scroll_rect: Option<R>,
    pub outer_rect: Option<R>,
    pub motion_until: Option<u64>,
    pub grid_signature: Option<(u32, u32, usize, usize)>,
    pub grid_layout: Option<crate::grid::GridSpec>,
    pub left_panel_scroll_to_selected: bool,
    pub scan_generation: u64,
    pub scan_in_progress: bool,
    pub scan_message: Option<Seq<char>>,
    pub startup_ready: bool,
    pub interval: N,
    pub fade: bool,
    pub pixel_perfect: bool,
    pub volume: N,
    pub muted: bool,
    pub show_names: bool,
    pub last_folder: Option<crate::path::PathSpec>,
    pub managed: crate::recent::ListSpec,
    pub recent_folders: crate::recent::ListSpec,
    pub recent_images: crate::recent::ListSpec,
    pub outbox: Seq<crate::work::EffectSpec<N>>,
}

/// What an optional text holds.
pub open spec fn text_view(s: Option<String>) -> Option<Seq<char>> {
    match s {
        Some(t) => Some(t@),
        None => None,
    }
}

/// What an optional slideshow holds.
pub open spec fn slideshow_view<T, N>(s: Option<Slideshow<T, N>>) -> Option<
    crate::slideshow::SlideshowSpec<T, N>,
> {
    match s {
        Some(x) => Some(x@),
        None => None,
    }
}

/// What an optional view of a medium holds.
pub open spec fn single_view<T, V, N>(s: Option<SingleImage<T, V, N>>) -> Option<
    crate::single::SingleSpec<T, V, N>,
> {
    match s {
        Some(x) => Some(x@),
        None => None,
    }
}

/// What an optional layout holds.
pub open spec fn layout_view(l: Option<ThumbnailGridLayout>) -> Option<crate::grid::GridSpec> {
    match l {
        Some(x) => Some(x@),
        None => None,
    }
}

impl<T, V, N, R> View for PicViewApp<T, V, N, R> {
    type V = AppSpec<T, V, N, R>;

    open spec fn view(&self) -> AppSpec<T, V, N, R> {
        AppSpec {
            roots: self.roots@,
            selected_folder: crate::path::option_view(self.selected_folder),
            view_mode: self.view_mode,
            groups: crate::scan::groups_view(self.folder_groups@),
            media: self.index@,
            direct_subdirs: crate::path::paths_view(self.direct_subdirs@),
            snapshots: crate::scan::snaps_view(self.dir_snapshots@),
            mtimes: self.media_mtimes@,
            thumbs: self.thumbs@,
            has_loader: self.has_loader,
            watcher_debounce: self.watcher_debounce,
            address_text: self.address_text@,
            address_editing: self.address_editing,
            address_needs_focus: self.address_needs_focus,
            history: self.history@,
            slideshow: slideshow_view(self.slideshow),
            single_image: single_view(self.single_image),
            grid_cursor: self.grid_cursor,
            streak: self.streak,
            scroll_rect: self.scroll_rect,
            outer_rect: self.outer_rect,
            motion_until: self.motion_until,
            grid_signature: self.grid_signature,
            grid_layout: layout_view(self.grid_layout),
            left_panel_scroll_to_selected: self.left_panel_scroll_to_selected,
            scan_generation: self.scan_generation,
            scan_in_progress: self.scan_in_progress,
            scan_message: text_view(self.scan_message),
            startup_ready: self.startup_ready,
            interval: self.default_slideshow_interval,
            fade: self.default_fade_enabled,
            pixel_perfect: self.default_slideshow_pixel_perfect,
            volume: self.media_volume,
            muted: self.media_muted,
            show_names: self.show_thumbnail_filenames,
            last_folder: crate::path::option_view(self.last_folder),
            managed: self.managed@,
            recent_folders: self.recent_folders@,
            recent_images: self.recent_images@,
            outbox: crate::work::effects_view(self.outbox@),
        }
    }
}

/// An empty list of paths.
pub open spec fn empty_list(cap: nat, label_max: nat) -> crate::recent::ListSpec {
    crate::recent::ListSpec { paths: Seq::empty(), cap, label_max }
}

/// What is shown while a folder is scanned.
pub open spec fn scan_message(folder: Option<crate::path::PathSpec>) -> Seq<char> {
    match folder {
        Some(f) => "Scanning "@ + f.text,
        None => "Scanning Library"@,
    }
}

/// No steps of the wheel.
pub open spec fn no_streak() -> ScrollStreak {
    ScrollStreak { streak: 0, last_dir: 0, last_at: None, last_decay_at: None }
}

impl<T, V, N, R> AppSpec<T, V, N, R> {
    /// The viewer before it has read anything.
    pub open spec fn fresh(interval: N, volume: N) -> AppSpec<T, V, N, R> {
        AppSpec {
            roots: Seq::empty(),
            selected_folder: None,
            view_mode: ViewMode::Folder,
            groups: Seq::empty(),
            media: Seq::empty(),
            direct_subdirs: Seq::empty(),
            snapshots: Map::empty(),
            mtimes: Map::empty(),
            thumbs: crate::thumbs::ThumbsSpec::fresh(),
            has_loader: false,
            watcher_debounce: None,
            address_text: Seq::empty(),
            address_editing: false,
            address_needs_focus: false,
            history: crate::history::HistorySpec::fresh(),
            slideshow: None,
            single_image: None,
            grid_cursor: None,
            streak: no_streak(),
            scroll_rect: None,
            outer_rect: None,
            motion_until: None,
            grid_signature: None,
            grid_layout: None,
            left_panel_scroll_to_selected: false,
            scan_generation: 0,
            scan_in_progress: false,
            scan_message: None,
            startup_ready: false,
            interval,
            fade: true,
            pixel_perfect: false,
            volume,
            muted: false,
            show_names: true,
            last_folder: None,
            managed: empty_list(MANAGED_CAP as nat, MANAGED_LABEL as nat),
            recent_folders: empty_list(RECENT_CAP as nat, RECENT_LABEL as nat),
            recent_images: empty_list(RECENT_CAP as nat, RECENT_LABEL as nat),
            outbox: Seq::empty(),
        }
    }

    /// Something more is asked for.
    pub open spec fn emit(self, e: crate::work::EffectSpec<N>) -> AppSpec<T, V, N, R> {
        AppSpec { outbox: self.outbox.push(e), ..self }
    }

    /// The settings to write. While a slideshow runs, its fade and its pixels count.
    pub open spec fn settings(self) -> crate::settings::SettingsSpec<N> {
        crate::settings::SettingsSpec {
            last_folder: self.last_folder,
            interval: self.interval,
            fade_enabled: match self.slideshow {
                Some(ss) => ss.fade_enabled,
                None => self.fade,
            },
            pixel_perfect: match self.slideshow {
                Some(ss) => ss.pixel_perfect,
                None => self.pixel_perfect,
            },
            media_volume: self.volume,
            media_muted: self.muted,
            show_thumbnail_filenames: self.show_names,
            managed_folders: self.managed.paths,
            recent_folders: self.recent_folders.paths,
            recent_images: self.recent_images.paths,
        }
    }

    /// The settings are written.
    pub open spec fn saved(self) -> AppSpec<T, V, N, R> {
        self.emit(crate::work::EffectSpec::Save(self.settings()))
    }

    /// Nothing that a scan found is there. The requests for thumbnails are counted on, so that
    /// those of the next scan are newer than those of before.
    pub open spec fn cleared(self) -> AppSpec<T, V, N, R> {
        AppSpec {
            groups: Seq::empty(),
            media: Seq::empty(),
            direct_subdirs: Seq::empty(),
            snapshots: Map::empty(),
            mtimes: Map::empty(),
            thumbs: crate::thumbs::ThumbsSpec {
                generation: self.thumbs.generation,
                ..crate::thumbs::ThumbsSpec::fresh()
            },
            streak: no_streak(),
            scroll_rect: None,
            outer_rect: None,
            motion_until: None,
            grid_signature: None,
            grid_layout: None,
            slideshow: None,
            single_image: None,
            grid_cursor: None,
            ..self
        }
    }

    /// A scan is asked for. Unless only changes are asked for, what is there goes at once.
    pub open spec fn scanning(
        self,
        folder: Option<crate::path::PathSpec>,
        mode: ViewMode,
        push_history: bool,
        managed: Option<Seq<crate::path::PathSpec>>,
        incremental: bool,
    ) -> AppSpec<T, V, N, R> {
        let generation = self.scan_generation.wrapping_add(1);
        let a = AppSpec {
            scan_generation: generation,
            scan_in_progress: true,
            scan_message: Some(scan_message(folder)),
            ..self
        };
        let b = if incremental {
            a
        } else {
            a.cleared()
        };
        b.emit(
            crate::work::EffectSpec::Scan(
                crate::work::ScanSpec {
                    generation,
                    selected_folder: folder,
                    view_mode: mode,
                    push_history,
                    managed_folders: managed,
                    prev_snapshots: if incremental {
                        Some(self.snapshots)
                    } else {
                        None
                    },
                },
            ),
        )
    }

    /// A folder is to be shown.
    pub open spec fn folder_asked(
        self,
        folder: crate::path::PathSpec,
        push_history: bool,
        incremental: bool,
    ) -> AppSpec<T, V, N, R> {
        let a = self.emit(crate::work::EffectSpec::Log("select_folder: "@ + folder.text));
        (AppSpec {
            view_mode: ViewMode::Folder,
            address_text: folder.text,
            address_editing: false,
            selected_folder: Some(folder),
            left_panel_scroll_to_selected: true,
            history: if push_history {
                a.history.visited(folder)
            } else {
                a.history
            },
            last_folder: Some(folder),
            recent_folders: if push_history {
                a.recent_folders.pushed(folder)
            } else {
                a.recent_folders
            },
            ..a
        }).saved().scanning(Some(folder), ViewMode::Folder, push_history, None, incremental)
    }

    /// The library is to be shown.
    pub open spec fn library_asked(self, incremental: bool) -> AppSpec<T, V, N, R> {
        let a = self.emit(crate::work::EffectSpec::Log("select_library"@));
        (AppSpec {
            view_mode: ViewMode::Library,
            selected_folder: None,
            left_panel_scroll_to_selected: false,
            address_text: LIBRARY@,
            address_editing: false,
            ..a
        }).scanning(None, ViewMode::Library, false, Some(self.managed.paths), incremental)
    }
}

impl<T, V, N: Copy, R> PicViewApp<T, V, N, R> {
    /// The viewer before it has read anything.
    pub fn new(interval: N, volume: N) -> (r: Self)
        ensures
            r@ == AppSpec::<T, V, N, R>::fresh(interval, volume),
    {
        let r = PicViewApp {
            roots: Vec::new(),
            selected_folder: None,
            view_mode: ViewMode::Folder,
            folder_groups: Vec::new(),
            index: MediaIndex::new(),
            direct_subdirs: Vec::new(),
            dir_snapshots: PathMap::new(),
            media_mtimes: PathMap::new(),
            thumbs: Thumbs::new(),
            has_loader: false,
            watcher_debounce: None,
            address_text: String::new(),
            address_editing: false,
            address_needs_focus: false,
            history: History::new(),
            slideshow: None,
            single_image: None,
            grid_cursor: None,
            streak: ScrollStreak::new(),
            scroll_rect: None,
            outer_rect: None,
            motion_until: None,
            grid_signature: None,
            grid_layout: None,
            left_panel_scroll_to_selected: false,
            scan_generation: 0,
            scan_in_progress: false,
            scan_message: None,
            startup_ready: false,
            default_slideshow_interval: interval,
            default_fade_enabled: true,
            default_slideshow_pixel_perfect: false,
            media_volume: volume,
            media_muted: false,
            show_thumbnail_filenames: true,
            last_folder: None,
            managed: PathList::new(MANAGED_CAP, MANAGED_LABEL),
            recent_folders: PathList::new(RECENT_CAP, RECENT_LABEL),
            recent_images: PathList::new(RECENT_CAP, RECENT_LABEL),
            outbox: Vec::new(),
        };
        proof {
            let f = AppSpec::<T, V, N, R>::fresh(interval, volume);
            assert(r@.roots =~= f.roots);
            assert(r@.groups =~= f.groups);
            assert(r@.direct_subdirs =~= f.direct_subdirs);
            assert(r@.snapshots =~= f.snapshots);
            assert(r@.address_text =~= f.address_text);
            assert(r@.outbox =~= f.outbox);
        }
        r
    }

    /// Asks for something to be done.
    pub fn emit(&mut self, e: Effect<N>)
        ensures
            final(self)@ == old(self)@.emit(e@),
    {
        let ghost before = crate::work::effects_view(self.outbox@);
        self.outbox.push(e);
        assert(crate::work::effects_view(self.outbox@) =~= before.push(e@));
    }

    /// Hands out what has to be done, and forgets it.
    pub fn take_outbox(&mut self) -> (r: Vec<Effect<N>>)
        ensures
            crate::work::effects_view(r@) == old(self)@.outbox,
            final(self)@ == (AppSpec { outbox: Seq::empty(), ..old(self)@ }),
    {
        let mut out: Vec<Effect<N>> = Vec::new();
        std::mem::swap(&mut out, &mut self.outbox);
        assert(self@.outbox =~= Seq::empty());
        out
    }

    /// The settings to write.
    pub fn settings(&self) -> (r: AppSettings<N>)
        ensures
            r@ == self@.settings(),
    {
        let fade = match &self.slideshow {
            Some(ss) => ss.fade_enabled,
            None => self.default_fade_enabled,
        };
        let pixel_perfect = match &self.slideshow {
            Some(ss) => ss.pixel_perfect,
            None => self.default_slideshow_pixel_perfect,
        };
        AppSettings {
            last_folder: copy_option(&self.last_folder),
            interval: self.default_slideshow_interval,
            fade_enabled: fade,
            pixel_perfect,
            media_volume: self.media_volume,
            media_muted: self.media_muted,
            show_thumbnail_filenames: self.show_thumbnail_filenames,
            managed_folders: self.managed.copy(),
            recent_folders: self.recent_folders.copy(),
            recent_images: self.recent_images.copy(),
        }
    }

    /// Has the settings written.
    pub fn do_save_settings(&mut self)
        ensures
            final(self)@ == old(self)@.saved(),
    {
        let s = self.settings();
        self.emit(Effect::Save(s));
    }

    fn clear_scan(&mut self)
        ensures
            final(self)@ == old(self)@.cleared(),
    {
        self.folder_groups = Vec::new();
        self.index = MediaIndex::new();
        self.direct_subdirs = Vec::new();
        self.dir_snapshots = PathMap::new();
        self.media_mtimes = PathMap::new();
        let generation: u64 = self.thumbs.generation;
        self.thumbs = Thumbs::new();
        self.thumbs.generation = generation;
        self.streak = ScrollStreak::new();
        self.scroll_rect = None;
        self.outer_rect = None;
        self.motion_until = None;
        self.grid_signature = None;
        self.grid_layout = None;
        self.slideshow = None;
        self.single_image = None;
        self.grid_cursor = None;
        proof {
            let f = old(self)@.cleared();
            assert(self@.groups =~= f.groups);
            assert(self@.direct_subdirs =~= f.direct_subdirs);
            assert(self@.snapshots =~= f.snapshots);
        }
    }

    fn announce_scan(&mut self, selected_folder: &Option<MediaPath>)
        ensures
            final(self)@ == (AppSpec {
                scan_generation: old(self)@.scan_generation.wrapping_add(1),
                scan_in_progress: true,
                scan_message: Some(scan_message(crate::path::option_view(*selected_folder))),
                ..old(self)@
            }),
    {
        let mut message = String::new();
        match selected_folder {
            Some(f) => {
                push_text(&mut message, "Scanning ");
                push_text(&mut message, f.text.as_str());
            },
            None => {
                push_text(&mut message, "Scanning Library");
            },
        }
        assert(message@ =~= scan_message(crate::path::option_view(*selected_folder)));
        self.scan_generation = self.scan_generation.wrapping_add(1);
        self.scan_in_progress = true;
        self.scan_message = Some(message);
    }

    /// Asks for a scan. Unless only changes are asked for, what is there goes at once.
    pub fn start_scan_request(
        &mut self,
        selected_folder: Option<MediaPath>,
        view_mode: ViewMode,
        push_history: bool,
        managed_folders: Option<Vec<MediaPath>>,
        incremental: bool,
    )
        ensures
            final(self)@ == old(self)@.scanning(
                crate::path::option_view(selected_folder),
                view_mode,
                push_history,
                crate::work::list_view(managed_folders),
                incremental,
            ),
    {
        self.announce_scan(&selected_folder);
        let prev_snapshots = if incremental {
            Some(copy_snapshots(&self.dir_snapshots))
        } else {
            None
        };
        if !incremental {
            self.clear_scan();
        }
        let request = ScanRequest {
            generation: self.scan_generation,
            selected_folder,
            view_mode,
            push_history,
            managed_folders,
            prev_snapshots,
        };
        self.emit(Effect::Scan(request));
    }

    /// Asks for a folder to be shown.
    pub fn request_folder_scan(&mut self, folder: MediaPath, push_history: bool, incremental: bool)
        ensures
            final(self)@ == old(self)@.folder_asked(folder@, push_history, incremental),
    {
        let mut line = String::new();
        push_text(&mut line, "select_folder: ");
        push_text(&mut line, folder.text.as_str());
        assert(line@ =~= "select_folder: "@ + folder@.text);
        self.emit(Effect::Log(line));
        self.view_mode = ViewMode::Folder;
        self.address_text = folder.text.clone();
        self.address_editing = false;
        self.selected_folder = Some(folder.clone());
        self.left_panel_scroll_to_selected = true;
        if push_history {
            self.history.visit(&folder);
        }
        self.last_folder = Some(folder.clone());
        if push_history {
            self.recent_folders.push(folder.clone());
        }
        self.do_save_settings();
        self.start_scan_request(Some(folder), ViewMode::Folder, push_history, None, incremental);
    }

    /// Asks for the library to be shown.
    pub fn request_library_scan(&mut self, incremental: bool)
        ensures
            final(self)@ == old(self)@.library_asked(incremental),
    {
        let mut line = String::new();
        push_text(&mut line, "select_library");
        assert(line@ =~= "select_library"@);
        self.emit(Effect::Log(line));
        self.view_mode = ViewMode::Library;
        self.selected_folder = None;
        self.left_panel_scroll_to_selected = false;
        self.address_text = LIBRARY.to_owned();
        self.address_editing = false;
        let managed = self.managed.copy();
        self.start_scan_request(None, ViewMode::Library, false, Some(managed), incremental);
    }

    /// Shows a folder, as a visit.
    pub fn select_folder(&mut self, folder: MediaPath)
        ensures
            final(self)@ == old(self)@.folder_asked(folder@, true, false),
    {
        self.request_folder_scan(folder, true, false);
    }

    /// Shows the library.
    pub fn select_library(&mut self)
        ensures
            final(self)@ == old(self)@.library_asked(false),
    {
        self.request_library_scan(false);
    }

    /// Looks for changes in a folder. The history stays as it is.
    pub fn rescan_folder(&mut self, folder: MediaPath)
        ensures
            final(self)@ == old(self)@.folder_asked(folder@, false, true),
    {
        self.request_folder_scan(folder, false, true);
    }

    /// Looks for changes in the library.
    pub fn rescan_library(&mut self)
        ensures
            final(self)@ == old(self)@.library_asked(true),
    {
        self.request_library_scan(true);
    }
}

} // verus!
