//! What the viewer does when a folder is chosen, a scan is done, or a medium is opened.

use vstd::prelude::*;

use crate::index::MediaIndex;
use crate::loader::LoadRequest;
use crate::path::{copy_option, MediaPath};
use crate::pathmap::{PathMap, PathSet};
use crate::scan::{DirSnapshot, FolderGroup};
use crate::settings::AppSettings;
use crate::single::SingleImage;
use crate::slideshow::{is_path, Slideshow};
use crate::text::{push_decimal, push_text};
use crate::thumbs::{prioritized_thumbnail_items, prioritized_thumbnail_items_for_paths};
use crate::tree::FolderNode;
use crate::viewer::{PicViewApp, DEBOUNCE_NANOS, LIBRARY, MOTION_NANOS};
use crate::work::{Effect, ScanResult, StartupResult, ViewMode};

verus! {

/// The paths that a list has.
pub open spec fn keys_of(s: Seq<crate::path::PathSpec>) -> Set<crate::path::PathKey> {
    Set::new(|k: crate::path::PathKey| crate::pathmap::has_key(s, k))
}

/// What the log says of a scan.
pub open spec fn scan_line(groups: nat, media: nat, subdirs: nat) -> Seq<char> {
    "  groups="@ + crate::text::decimal(groups) + " total_items="@ + crate::text::decimal(media)
        + " subdirs="@ + crate::text::decimal(subdirs)
}

impl<T, V, N, R> crate::viewer::AppSpec<T, V, N, R> {
    // ── Navigation ───────────────────────────────────────────────────────────

    /// The folder that the selected one lies in, by the components of its path alone.
    pub open spec fn parent(self) -> Option<crate::path::PathSpec> {
        match self.selected_folder {
            Some(f) => crate::path::folder_of(f),
            None => None,
        }
    }

    /// One step back.
    pub open spec fn went_back(self) -> Self {
        if self.history.can_go_back() {
            let h = self.history.back();
            (crate::viewer::AppSpec { history: h, ..self }).folder_asked(
                h.current()->0,
                false,
                false,
            )
        } else {
            self
        }
    }

    /// One step forward.
    pub open spec fn went_forward(self) -> Self {
        if self.history.can_go_forward() {
            let h = self.history.forward();
            (crate::viewer::AppSpec { history: h, ..self }).folder_asked(
                h.current()->0,
                false,
                false,
            )
        } else {
            self
        }
    }

    /// One step up.
    pub open spec fn went_up(self) -> Self {
        match self.parent() {
            Some(p) => self.folder_asked(p, true, false),
            None => self,
        }
    }

    // ── The library ──────────────────────────────────────────────────────────

    /// The library has other folders.
    pub open spec fn managed_changed(self, managed: crate::recent::ListSpec) -> Self {
        let a = crate::viewer::AppSpec { managed, ..self };
        if a.view_mode == ViewMode::Library {
            a.library_asked(true)
        } else {
            a.saved()
        }
    }

    /// A folder is put into the library, where it is one.
    pub open spec fn managed_added(self, path: crate::path::PathSpec, is_dir: bool) -> Self {
        if is_dir {
            self.managed_changed(self.managed.pushed(path))
        } else {
            self
        }
    }

    /// A folder is taken out of the library.
    pub open spec fn managed_removed(self, k: crate::path::PathKey) -> Self {
        self.managed_changed(self.managed.removed(k))
    }

    // ── One medium ───────────────────────────────────────────────────────────

    /// The medium at a place is shown alone.
    pub open spec fn shown_alone(self, i: usize) -> Self {
        crate::viewer::AppSpec {
            grid_cursor: Some(i),
            single_image: Some(crate::single::SingleSpec::opened(i)),
            ..self
        }
    }

    /// The medium at a place is opened.
    pub open spec fn opened(self, i: usize) -> Self {
        let a = self.shown_alone(i);
        (crate::viewer::AppSpec {
            recent_images: if i < self.media.len() {
                a.recent_images.pushed(self.media[i as int])
            } else {
                a.recent_images
            },
            ..a
        }).emit(crate::work::EffectSpec::Focus)
    }

    /// The medium that was shown alone is closed.
    pub open spec fn closed(self) -> Self {
        crate::viewer::AppSpec {
            grid_cursor: match self.single_image {
                Some(si) => Some(si.index),
                None => self.grid_cursor,
            },
            single_image: None,
            ..self
        }
    }

    // ── The slideshow ────────────────────────────────────────────────────────

    /// A slideshow starts.
    pub open spec fn slideshow_started(self, i: usize, now: u64) -> Self {
        (crate::viewer::AppSpec {
            slideshow: Some(
                crate::slideshow::SlideshowSpec::started(
                    i,
                    self.interval,
                    self.fade,
                    self.pixel_perfect,
                    now,
                ),
            ),
            ..self
        }).emit(crate::work::EffectSpec::FullScreen(true)).emit(crate::work::EffectSpec::Focus)
    }

    /// The slideshow ends. Its settings are kept for the next one.
    pub open spec fn slideshow_stopped(self) -> Self {
        let a = match self.slideshow {
            Some(ss) => crate::viewer::AppSpec {
                interval: ss.interval,
                fade: ss.fade_enabled,
                pixel_perfect: ss.pixel_perfect,
                ..self
            },
            None => self,
        };
        (crate::viewer::AppSpec { slideshow: None, ..a }).emit(
            crate::work::EffectSpec::FullScreen(false),
        ).saved()
    }

    // ── Results ──────────────────────────────────────────────────────────────

    /// Thumbnails are asked for, if there are any.
    pub open spec fn asked(self, r: Option<crate::loader::RequestSpec>) -> Self {
        match r {
            Some(q) => self.emit(crate::work::EffectSpec::Load(q)),
            None => self,
        }
    }

    /// All thumbnails are asked for.
    pub open spec fn all_asked(self) -> Self {
        if self.has_loader {
            let items = crate::thumbs::prioritized(
                self.groups,
                self.selected_folder,
                crate::thumbs::every_medium(),
            );
            let t = self.thumbs.asked_anew(items);
            (crate::viewer::AppSpec { thumbs: t, ..self }).asked(
                crate::thumbs::request_for(t.generation, items),
            )
        } else {
            self
        }
    }

    /// The thumbnails of some media are asked for.
    pub open spec fn some_asked(self, changed: Set<crate::path::PathKey>) -> Self {
        if self.has_loader {
            let items = crate::thumbs::prioritized(
                self.groups,
                self.selected_folder,
                |k: crate::path::PathKey| changed.contains(k),
            );
            let t = self.thumbs.asked_more(items);
            (crate::viewer::AppSpec { thumbs: t, ..self }).asked(
                crate::thumbs::request_for(t.generation, items),
            )
        } else {
            self
        }
    }

    /// Media are gone.
    pub open spec fn media_gone(self, gone: Seq<crate::path::PathSpec>) -> Self {
        if gone.len() == 0 {
            self
        } else {
            let a = crate::viewer::AppSpec {
                thumbs: self.thumbs.forgotten(keys_of(gone)),
                ..self
            };
            if self.has_loader {
                a.emit(crate::work::EffectSpec::ForgetCached(gone))
            } else {
                a
            }
        }
    }

    /// What a scan found is on show.
    pub open spec fn found(
        self,
        selected: Option<crate::path::PathSpec>,
        mode: ViewMode,
        groups: Seq<crate::scan::GroupSpec>,
        subdirs: Seq<crate::path::PathSpec>,
        snapshots: Map<crate::path::PathKey, crate::scan::SnapSpec>,
        mtimes: Map<crate::path::PathKey, i64>,
    ) -> Self {
        let media = crate::index::groups_media(groups);
        (crate::viewer::AppSpec {
            scan_in_progress: false,
            scan_message: None,
            selected_folder: selected,
            view_mode: mode,
            snapshots,
            mtimes,
            groups,
            media,
            direct_subdirs: subdirs,
            ..self
        }).emit(
            crate::work::EffectSpec::Log(scan_line(groups.len(), media.len(), subdirs.len())),
        )
    }

    /// The thumbnails after a scan: only what changed is asked for where that was asked for
    /// and the grid is on show.
    pub open spec fn thumbs_renewed(
        self,
        incremental: bool,
        changed: Seq<crate::path::PathSpec>,
        removed: Seq<crate::path::PathSpec>,
    ) -> Self {
        if incremental && self.single_image is None && self.slideshow is None {
            self.media_gone(removed).some_asked(keys_of(changed))
        } else {
            self.all_asked()
        }
    }

    /// The grid is laid out anew.
    pub open spec fn unlaid(self) -> Self {
        crate::viewer::AppSpec {
            scroll_rect: None,
            outer_rect: None,
            motion_until: None,
            grid_signature: None,
            grid_layout: None,
            ..self
        }
    }

    /// Folders are watched: the selected one, or those of the library.
    pub open spec fn watched(
        self,
        mode: ViewMode,
        selected: Option<crate::path::PathSpec>,
        managed: Option<Seq<crate::path::PathSpec>>,
    ) -> Self {
        match mode {
            ViewMode::Folder => match selected {
                Some(f) => self.emit(crate::work::EffectSpec::Watch(seq![f])),
                None => self,
            },
            ViewMode::Library => match managed {
                Some(m) => self.emit(crate::work::EffectSpec::Watch(m)),
                None => self,
            },
        }
    }

    /// A scan is done. One that was asked for before the last one does not count.
    pub open spec fn scan_done(self, r: ScanResult) -> Self {
        if r.generation != self.scan_generation {
            self
        } else {
            let selected = crate::path::option_view(r.selected_folder);
            let a = self.found(
                selected,
                r.view_mode,
                crate::scan::groups_view(r.folder_groups@),
                crate::path::paths_view(r.direct_subdirs@),
                crate::scan::snaps_view(r.dir_snapshots@),
                r.media_mtimes@,
            ).thumbs_renewed(
                r.incremental,
                crate::path::paths_view(r.changed_media@),
                crate::path::paths_view(r.removed_media@),
            ).unlaid().watched(r.view_mode, selected, crate::work::list_view(r.managed_folders));
            let b = if r.push_history {
                a.saved()
            } else {
                a
            };
            b.emit(crate::work::EffectSpec::Repaint)
        }
    }
}

impl<T, V, N: Copy, R> PicViewApp<T, V, N, R> {
    // ── Navigation ───────────────────────────────────────────────────────────

    /// Whether there is a folder to go back to.
    pub fn can_go_back(&self) -> (r: bool)
        ensures
            r == self@.history.can_go_back(),
    {
        self.history.can_go_back()
    }

    /// Whether there is a folder to go forward to.
    pub fn can_go_forward(&self) -> (r: bool)
        ensures
            r == self@.history.can_go_forward(),
    {
        self.history.can_go_forward()
    }

    /// Whether the selected folder lies in another.
    pub fn can_go_up(&self) -> (r: bool)
        ensures
            r == (self@.parent() is Some),
    {
        self.parent_folder().is_some()
    }

    /// The folder that the selected one lies in, by the components of its path alone: no link is
    /// followed and nothing is looked up.
    pub fn parent_folder(&self) -> (r: Option<MediaPath>)
        ensures
            crate::path::option_view(r) == self@.parent(),
    {
        match &self.selected_folder {
            Some(f) => f.folder(),
            None => None,
        }
    }

    /// Goes one step back.
    pub fn navigate_back(&mut self)
        ensures
            final(self)@ == old(self)@.went_back(),
    {
        if let Some(folder) = self.history.go_back() {
            self.request_folder_scan(folder, false, false);
        }
    }

    /// Goes one step forward.
    pub fn navigate_forward(&mut self)
        ensures
            final(self)@ == old(self)@.went_forward(),
    {
        if let Some(folder) = self.history.go_forward() {
            self.request_folder_scan(folder, false, false);
        }
    }

    /// Goes one step up.
    pub fn navigate_up(&mut self)
        ensures
            final(self)@ == old(self)@.went_up(),
    {
        if let Some(parent) = self.parent_folder() {
            self.select_folder(parent);
        }
    }

    // ── The library ──────────────────────────────────────────────────────────

    /// Whether a folder is in the library.
    pub fn has_managed_folder(&self, path: &MediaPath) -> (r: bool)
        ensures
            r == self@.managed.has(path.key()),
    {
        self.managed.contains(path)
    }

    fn managed_changed(&mut self)
        ensures
            final(self)@ == old(self)@.managed_changed(old(self)@.managed),
    {
        if self.view_mode == ViewMode::Library {
            self.rescan_library();
        } else {
            self.do_save_settings();
        }
    }

    /// Puts a folder into the library, where it is one.
    pub fn add_managed_folder(&mut self, path: MediaPath, is_dir: bool)
        ensures
            final(self)@ == old(self)@.managed_added(path@, is_dir),
    {
        if !is_dir {
            return ;
        }
        self.managed.push(path);
        self.managed_changed();
    }

    /// Takes a folder out of the library.
    pub fn remove_managed_folder(&mut self, path: &MediaPath)
        ensures
            final(self)@ == old(self)@.managed_removed(path.key()),
    {
        self.managed.remove(path);
        self.managed_changed();
    }

    // ── One medium ───────────────────────────────────────────────────────────

    pub(crate) fn show_alone(&mut self, i: usize)
        ensures
            final(self)@ == old(self)@.shown_alone(i),
    {
        self.grid_cursor = Some(i);
        self.single_image = Some(SingleImage::new(i));
    }

    /// Opens the medium at a place.
    pub fn open_single_image_at(&mut self, i: usize)
        ensures
            final(self)@ == old(self)@.opened(i),
    {
        self.show_alone(i);
        if let Some(p) = self.index.media_at(i) {
            self.recent_images.push(p);
        }
        self.emit(Effect::Focus);
    }

    /// Closes the medium that is shown alone.
    pub fn close_single_image(&mut self)
        ensures
            final(self)@ == old(self)@.closed(),
    {
        if let Some(si) = &self.single_image {
            self.grid_cursor = Some(si.index);
        }
        self.single_image = None;
    }

    // ── The slideshow ────────────────────────────────────────────────────────

    /// Starts a slideshow.
    pub fn start_slideshow(&mut self, i: usize, now: u64)
        ensures
            final(self)@ == old(self)@.slideshow_started(i, now),
    {
        self.slideshow = Some(
            Slideshow::new(
                i,
                self.default_slideshow_interval,
                self.default_fade_enabled,
                self.default_slideshow_pixel_perfect,
                now,
            ),
        );
        self.emit(Effect::FullScreen(true));
        self.emit(Effect::Focus);
    }

    /// Ends the slideshow.
    pub fn stop_slideshow(&mut self)
        ensures
            final(self)@ == old(self)@.slideshow_stopped(),
    {
        if let Some(ss) = &self.slideshow {
            self.default_slideshow_interval = ss.interval;
            self.default_fade_enabled = ss.fade_enabled;
            self.default_slideshow_pixel_perfect = ss.pixel_perfect;
        }
        self.slideshow = None;
        self.emit(Effect::FullScreen(false));
        self.do_save_settings();
    }

    // ── Results ──────────────────────────────────────────────────────────────

    fn ask(&mut self, r: Option<LoadRequest>)
        ensures
            final(self)@ == old(self)@.asked(crate::thumbs::request_view(r)),
    {
        if let Some(q) = r {
            self.emit(Effect::Load(q));
        }
    }

    fn ask_for_all(&mut self)
        ensures
            final(self)@ == old(self)@.all_asked(),
    {
        let items = prioritized_thumbnail_items(&self.folder_groups, &self.selected_folder);
        let r = self.thumbs.queue_thumbnail_jobs_full(items, self.has_loader);
        self.ask(r);
    }

    fn ask_for_some(&mut self, changed: &Vec<MediaPath>)
        ensures
            final(self)@ == old(self)@.some_asked(keys_of(crate::path::paths_view(changed@))),
    {
        let paths = set_of(changed);
        let items = prioritized_thumbnail_items_for_paths(
            &self.folder_groups,
            &self.selected_folder,
            &paths,
        );
        proof {
            let keys = keys_of(crate::path::paths_view(changed@));
            assert(crate::thumbs::media_of(paths@) =~= |k: crate::path::PathKey| keys.contains(k));
        }
        let r = self.thumbs.queue_thumbnail_jobs_incremental(items, self.has_loader);
        self.ask(r);
    }

    fn drop_media(&mut self, gone: Vec<MediaPath>)
        ensures
            final(self)@ == old(self)@.media_gone(crate::path::paths_view(gone@)),
    {
        if gone.len() == 0 {
            return ;
        }
        let paths = set_of(&gone);
        self.thumbs.forget(&paths);
        if self.has_loader {
            self.emit(Effect::ForgetCached(gone));
        }
    }
}

/// The set of the paths of a list.
fn set_of(list: &Vec<MediaPath>) -> (r: PathSet)
    ensures
        r@.dom() == keys_of(crate::path::paths_view(list@)),
{
    let mut out: PathSet = PathMap::new();
    let ghost all = crate::path::paths_view(list@);
    out.add_all(list);
    proof {
        crate::pathmap::keys_are_paths(out);
        crate::pathmap::added_paths_are_there(Map::empty(), all);
        assert(out@.dom() =~= keys_of(all));
    }
    out
}

/// What the log says of a scan.
fn scan_report(groups: usize, media: usize, subdirs: usize) -> (r: String)
    ensures
        r@ == scan_line(groups as nat, media as nat, subdirs as nat),
{
    let mut line = String::new();
    push_text(&mut line, "  groups=");
    push_decimal(&mut line, groups as u64);
    push_text(&mut line, " total_items=");
    push_decimal(&mut line, media as u64);
    push_text(&mut line, " subdirs=");
    push_decimal(&mut line, subdirs as u64);
    assert(line@ =~= scan_line(groups as nat, media as nat, subdirs as nat));
    line
}

impl<T, V, N: Copy, R> PicViewApp<T, V, N, R> {
    fn watch_folder(&mut self, folder: MediaPath)
        ensures
            final(self)@ == old(self)@.emit(crate::work::EffectSpec::Watch(seq![folder@])),
    {
        let mut list: Vec<MediaPath> = Vec::new();
        list.push(folder);
        assert(crate::path::paths_view(list@) =~= seq![folder@]);
        self.emit(Effect::Watch(list));
    }

    fn lay_out_anew(&mut self)
        ensures
            final(self)@ == old(self)@.unlaid(),
    {
        self.scroll_rect = None;
        self.outer_rect = None;
        self.motion_until = None;
        self.grid_signature = None;
        self.grid_layout = None;
    }

    fn renew_thumbs(
        &mut self,
        incremental: bool,
        changed: Vec<MediaPath>,
        removed: Vec<MediaPath>,
    )
        ensures
            final(self)@ == old(self)@.thumbs_renewed(
                incremental,
                crate::path::paths_view(changed@),
                crate::path::paths_view(removed@),
            ),
    {
        if incremental && self.single_image.is_none() && self.slideshow.is_none() {
            self.drop_media(removed);
            self.ask_for_some(&changed);
        } else {
            self.ask_for_all();
        }
    }

    fn show_scan(
        &mut self,
        selected_folder: Option<MediaPath>,
        view_mode: ViewMode,
        groups: Vec<FolderGroup>,
        subdirs: Vec<MediaPath>,
        snapshots: PathMap<DirSnapshot>,
        times: PathMap<i64>,
    )
        ensures
            final(self)@ == old(self)@.found(
                crate::path::option_view(selected_folder),
                view_mode,
                crate::scan::groups_view(groups@),
                crate::path::paths_view(subdirs@),
                crate::scan::snaps_view(snapshots@),
                times@,
            ),
    {
        self.scan_in_progress = false;
        self.scan_message = None;
        self.selected_folder = selected_folder;
        self.view_mode = view_mode;
        self.dir_snapshots = snapshots;
        self.media_mtimes = times;
        self.folder_groups = groups;
        self.index = MediaIndex::of_groups(&self.folder_groups);
        self.direct_subdirs = subdirs;
        let line = scan_report(
            self.folder_groups.len(),
            self.index.total_media(),
            self.direct_subdirs.len(),
        );
        self.emit(Effect::Log(line));
    }

    fn watch(
        &mut self,
        view_mode: ViewMode,
        selected_folder: Option<MediaPath>,
        managed_folders: Option<Vec<MediaPath>>,
    )
        ensures
            final(self)@ == old(self)@.watched(
                view_mode,
                crate::path::option_view(selected_folder),
                crate::work::list_view(managed_folders),
            ),
    {
        match view_mode {
            ViewMode::Folder => {
                if let Some(folder) = selected_folder {
                    self.watch_folder(folder);
                }
            },
            ViewMode::Library => {
                if let Some(managed) = managed_folders {
                    self.emit(Effect::Watch(managed));
                }
            },
        }
    }

    /// Takes the result of a scan. Returns whether it was the one that was waited for.
    pub fn poll_scan(&mut self, result: ScanResult) -> (r: bool)
        ensures
            final(self)@ == old(self)@.scan_done(result),
            r == (result.generation == old(self)@.scan_generation),
    {
        if result.generation != self.scan_generation {
            return false;
        }
        self.show_scan(
            copy_option(&result.selected_folder),
            result.view_mode,
            result.folder_groups,
            result.direct_subdirs,
            result.dir_snapshots,
            result.media_mtimes,
        );
        self.renew_thumbs(result.incremental, result.changed_media, result.removed_media);
        self.lay_out_anew();
        self.watch(result.view_mode, result.selected_folder, result.managed_folders);
        if result.push_history {
            self.do_save_settings();
        }
        self.emit(Effect::Repaint);
        true
    }
}

// ── Start and end ────────────────────────────────────────────────────────────

/// What the address bar shows for a folder, or for none.
pub open spec fn address_of(selected: Option<crate::path::PathSpec>, mode: ViewMode) -> Seq<char> {
    match selected {
        Some(f) => f.text,
        None => if mode == ViewMode::Library {
            LIBRARY@
        } else {
            Seq::empty()
        },
    }
}

impl<T, V, N, R> crate::viewer::AppSpec<T, V, N, R> {
    /// The settings of before are in place.
    pub open spec fn configured(self, s: crate::settings::SettingsSpec<N>) -> Self {
        crate::viewer::AppSpec {
            interval: s.interval,
            fade: s.fade_enabled,
            pixel_perfect: s.pixel_perfect,
            volume: s.media_volume,
            muted: s.media_muted,
            show_names: s.show_thumbnail_filenames,
            last_folder: s.last_folder,
            managed: self.managed.with_paths(s.managed_folders),
            recent_folders: self.recent_folders.with_paths(s.recent_folders),
            recent_images: self.recent_images.with_paths(s.recent_images),
            ..self
        }
    }

    /// What was read at the start is in place.
    pub open spec fn furnished(self, init: StartupResult<N>) -> Self {
        let groups = crate::scan::groups_view(init.folder_groups@);
        let selected = crate::path::option_view(init.selected_folder);
        crate::viewer::AppSpec {
            roots: init.roots@,
            selected_folder: selected,
            view_mode: init.view_mode,
            groups,
            media: crate::index::groups_media(groups),
            direct_subdirs: crate::path::paths_view(init.direct_subdirs@),
            snapshots: crate::scan::snaps_view(init.dir_snapshots@),
            mtimes: init.media_mtimes@,
            has_loader: true,
            address_text: address_of(selected, init.view_mode),
            ..self
        }
    }

    /// The folder on show, or the library, is entered where that is kept, and watched.
    pub open spec fn entered(self) -> Self {
        match self.selected_folder {
            Some(f) => {
                let a = (crate::viewer::AppSpec { last_folder: Some(f), ..self }).emit(
                    crate::work::EffectSpec::Watch(seq![f]),
                );
                let b = (crate::viewer::AppSpec {
                    recent_folders: a.recent_folders.pushed(f),
                    ..a
                }).saved();
                crate::viewer::AppSpec { left_panel_scroll_to_selected: true, ..b }
            },
            None => if self.view_mode == ViewMode::Library {
                self.emit(crate::work::EffectSpec::Watch(self.managed.paths))
            } else {
                self
            },
        }
    }

    /// A medium is shown alone and is entered among the recent ones, where it is on show.
    pub open spec fn medium_found(self, p: crate::path::PathSpec) -> Self {
        match crate::index::place_in(self.media, p.parts) {
            Some(i) => {
                let a = self.shown_alone(i as usize);
                crate::viewer::AppSpec { recent_images: a.recent_images.pushed(p), ..a }
            },
            None => self,
        }
    }

    /// The viewer has started.
    pub open spec fn started(self, init: StartupResult<N>) -> Self {
        let a = self.furnished(init).configured(init.settings@).all_asked().entered();
        let b = match crate::path::option_view(init.initial_image) {
            Some(p) => a.medium_found(p),
            None => a,
        };
        crate::viewer::AppSpec { startup_ready: true, ..b }
    }

    /// The viewer ends: what the slideshow was set to is kept.
    pub open spec fn ended(self) -> Self {
        (match self.slideshow {
            Some(ss) => crate::viewer::AppSpec {
                interval: ss.interval,
                fade: ss.fade_enabled,
                ..self
            },
            None => self,
        }).saved()
    }

    /// A recent medium is to be shown.
    pub open spec fn recent_opened(self, p: crate::path::PathSpec) -> Self {
        match crate::path::folder_of(p) {
            None => self,
            Some(folder) => {
                let a = if self.view_mode == ViewMode::Library {
                    if self.managed.has(folder.parts) {
                        self.library_asked(true)
                    } else {
                        self.folder_asked(folder, true, false)
                    }
                } else if self.selected_folder is Some && self.selected_folder->0.parts
                    == folder.parts {
                    self
                } else {
                    self.folder_asked(folder, true, false)
                };
                if crate::index::place_in(a.media, p.parts) is Some {
                    a.medium_found(p).emit(crate::work::EffectSpec::Focus)
                } else {
                    a
                }
            },
        }
    }

    /// The folders on show were quiet for long enough after they changed.
    pub open spec fn settled_since(self, now: u64) -> bool {
        self.watcher_debounce is Some && now - self.watcher_debounce->0 >= DEBOUNCE_NANOS
    }

    /// Changes are looked for in what is on show.
    pub open spec fn refreshed(self) -> Self {
        match self.view_mode {
            ViewMode::Folder => match self.selected_folder {
                Some(f) => self.folder_asked(f, false, true),
                None => self,
            },
            ViewMode::Library => self.library_asked(true),
        }
    }

    /// What the watcher saw: every change starts the wait anew.
    pub open spec fn watcher_polled(self, relevant: bool, now: u64) -> Self {
        let a = if relevant {
            crate::viewer::AppSpec { watcher_debounce: Some(now), ..self }
        } else {
            self
        };
        if a.settled_since(now) {
            (crate::viewer::AppSpec { watcher_debounce: None, ..a }).refreshed()
        } else {
            a
        }
    }

    /// The window moves.
    pub open spec fn moving(self, now: u64) -> bool {
        self.motion_until is Some && self.motion_until->0 > now
    }

    /// The window is at a place; `changed` tells whether it moved.
    pub open spec fn placed(self, rect: Option<R>, changed: bool, now: u64) -> Self {
        match rect {
            None => self,
            Some(r) => crate::viewer::AppSpec {
                outer_rect: Some(r),
                motion_until: if self.outer_rect is Some && changed {
                    Some(crate::slideshow::later(now, MOTION_NANOS))
                } else {
                    self.motion_until
                },
                ..self
            },
        }
    }
}

impl<T, V, N: Copy, R> PicViewApp<T, V, N, R> {
    fn configure(&mut self, s: AppSettings<N>)
        ensures
            final(self)@ == old(self)@.configured(s@),
    {
        self.default_slideshow_interval = s.interval;
        self.default_fade_enabled = s.fade_enabled;
        self.default_slideshow_pixel_perfect = s.pixel_perfect;
        self.media_volume = s.media_volume;
        self.media_muted = s.media_muted;
        self.show_thumbnail_filenames = s.show_thumbnail_filenames;
        self.last_folder = s.last_folder;
        self.managed.set(s.managed_folders);
        self.recent_folders.set(s.recent_folders);
        self.recent_images.set(s.recent_images);
    }

    fn enter(&mut self)
        ensures
            final(self)@ == old(self)@.entered(),
    {
        match copy_option(&self.selected_folder) {
            Some(folder) => {
                self.last_folder = Some(folder.clone());
                self.watch_folder(folder.clone());
                self.recent_folders.push(folder);
                self.do_save_settings();
                self.left_panel_scroll_to_selected = true;
            },
            None => {
                if self.view_mode == ViewMode::Library {
                    let managed = self.managed.copy();
                    self.emit(Effect::Watch(managed));
                }
            },
        }
    }

    fn find_medium(&mut self, p: MediaPath) -> (r: bool)
        ensures
            final(self)@ == old(self)@.medium_found(p@),
            r == (crate::index::place_in(old(self)@.media, p.key()) is Some),
    {
        match self.index.place_of(&p) {
            Some(i) => {
                self.show_alone(i);
                self.recent_images.push(p);
                true
            },
            None => false,
        }
    }

    fn furnish(
        &mut self,
        roots: Vec<FolderNode>,
        selected_folder: Option<MediaPath>,
        view_mode: ViewMode,
        groups: Vec<FolderGroup>,
        subdirs: Vec<MediaPath>,
        snapshots: PathMap<DirSnapshot>,
        times: PathMap<i64>,
    )
        ensures
            final(self)@ == (crate::viewer::AppSpec {
                roots: roots@,
                selected_folder: crate::path::option_view(selected_folder),
                view_mode,
                groups: crate::scan::groups_view(groups@),
                media: crate::index::groups_media(crate::scan::groups_view(groups@)),
                direct_subdirs: crate::path::paths_view(subdirs@),
                snapshots: crate::scan::snaps_view(snapshots@),
                mtimes: times@,
                has_loader: true,
                address_text: address_of(crate::path::option_view(selected_folder), view_mode),
                ..old(self)@
            }),
    {
        self.roots = roots;
        self.address_text = match &selected_folder {
            Some(f) => f.text.clone(),
            None => if view_mode == ViewMode::Library {
                LIBRARY.to_owned()
            } else {
                String::new()
            },
        };
        assert(self.address_text@ =~= address_of(
            crate::path::option_view(selected_folder),
            view_mode,
        ));
        self.selected_folder = selected_folder;
        self.view_mode = view_mode;
        self.folder_groups = groups;
        self.index = MediaIndex::of_groups(&self.folder_groups);
        self.direct_subdirs = subdirs;
        self.dir_snapshots = snapshots;
        self.media_mtimes = times;
        self.has_loader = true;
    }

    /// Takes what was read at the start.
    pub fn apply_startup_result(&mut self, init: StartupResult<N>)
        ensures
            final(self)@ == old(self)@.started(init),
    {
        let ghost whole = init;
        let initial_image = init.initial_image;
        self.furnish(
            init.roots,
            init.selected_folder,
            init.view_mode,
            init.folder_groups,
            init.direct_subdirs,
            init.dir_snapshots,
            init.media_mtimes,
        );
        assert(self@ == old(self)@.furnished(whole));
        self.configure(init.settings);
        self.ask_for_all();
        self.enter();
        if let Some(p) = initial_image {
            let _ = self.find_medium(p);
        }
        self.startup_ready = true;
    }

    /// The viewer ends.
    pub fn on_exit(&mut self)
        ensures
            final(self)@ == old(self)@.ended(),
    {
        if let Some(ss) = &self.slideshow {
            self.default_slideshow_interval = ss.interval;
            self.default_fade_enabled = ss.fade_enabled;
        }
        self.do_save_settings();
    }

    /// Shows a recent medium.
    pub fn open_recent_image(&mut self, path: MediaPath)
        ensures
            final(self)@ == old(self)@.recent_opened(path@),
    {
        let folder = match path.folder() {
            Some(f) => f,
            None => {
                return ;
            },
        };
        if self.view_mode == ViewMode::Library {
            if self.has_managed_folder(&folder) {
                self.rescan_library();
            } else {
                self.request_folder_scan(folder, true, false);
            }
        } else if !is_path(&self.selected_folder, &folder) {
            self.request_folder_scan(folder, true, false);
        }
        if self.find_medium(path) {
            self.emit(Effect::Focus);
        }
    }

    fn refresh(&mut self)
        ensures
            final(self)@ == old(self)@.refreshed(),
    {
        match self.view_mode {
            ViewMode::Folder => {
                if let Some(folder) = copy_option(&self.selected_folder) {
                    self.rescan_folder(folder);
                }
            },
            ViewMode::Library => {
                self.rescan_library();
            },
        }
    }

    /// Takes what the watcher saw; `relevant` tells whether any of it matters.
    pub fn poll_watcher(&mut self, relevant: bool, now: u64)
        ensures
            final(self)@ == old(self)@.watcher_polled(relevant, now),
    {
        if relevant {
            self.watcher_debounce = Some(now);
        }
        if let Some(t) = self.watcher_debounce {
            if now >= t && now - t >= DEBOUNCE_NANOS {
                self.watcher_debounce = None;
                self.refresh();
            }
        }
    }

    /// Whether the window moves.
    pub fn viewport_motion_active(&self, now: u64) -> (r: bool)
        ensures
            r == self@.moving(now),
    {
        match self.motion_until {
            Some(until) => until > now,
            None => false,
        }
    }

    /// The window is at a place; `changed` tells whether that is another than before.
    pub fn tick_viewport_motion(&mut self, rect: Option<R>, changed: bool, now: u64)
        ensures
            final(self)@ == old(self)@.placed(rect, changed, now),
    {
        if let Some(r) = rect {
            let was = self.outer_rect.is_some();
            self.outer_rect = Some(r);
            if was && changed {
                self.motion_until = Some(now.saturating_add(MOTION_NANOS));
            }
        }
    }
}

/// What happened in a watched folder.
#[derive(Clone, Copy, PartialEq, Eq, Structural, Debug)]
pub enum WatchEvent {
    Created,
    Removed,
    Renamed,
    Written,
    /// Anything else, such as a look at a file or a change of its rights.
    Other,
}

/// Some event matters.
pub open spec fn some_matters(s: Seq<WatchEvent>) -> bool {
    exists|i: int| 0 <= i < s.len() && #[trigger] s[i] != WatchEvent::Other
}

/// Whether any event matters.
pub fn any_relevant(events: &Vec<WatchEvent>) -> (r: bool)
    ensures
        r == some_matters(events@),
{
    for i in 0..events.len()
        invariant
            forall|j: int| 0 <= j < i ==> #[trigger] events@[j] == WatchEvent::Other,
    {
        if events[i] != WatchEvent::Other {
            return true;
        }
    }
    false
}

} // verus!
