//! What each action of the viewer does, what it sends, and what it leaves alone.

use vstd::prelude::*;

use crate::viewer::AppSpec;
use crate::work::{EffectSpec, ScanResult, StartupResult, ViewMode};

verus! {

// ── What stays ───────────────────────────────────────────────────────────────

/// Nothing that the user sets has changed.
pub open spec fn same_preferences<T, V, N, R>(a: AppSpec<T, V, N, R>, b: AppSpec<T, V, N, R>) -> bool {
    &&& a.interval == b.interval && a.fade == b.fade && a.pixel_perfect == b.pixel_perfect
    &&& a.volume == b.volume && a.muted == b.muted && a.show_names == b.show_names
}

/// No list of paths has changed.
pub open spec fn same_lists<T, V, N, R>(a: AppSpec<T, V, N, R>, b: AppSpec<T, V, N, R>) -> bool {
    &&& a.last_folder == b.last_folder && a.managed == b.managed
    &&& a.recent_folders == b.recent_folders && a.recent_images == b.recent_images
    &&& a.history == b.history
}

/// What the folders on show hold has not changed.
pub open spec fn same_content<T, V, N, R>(a: AppSpec<T, V, N, R>, b: AppSpec<T, V, N, R>) -> bool {
    &&& a.roots == b.roots && a.groups == b.groups && a.media == b.media
    &&& a.direct_subdirs == b.direct_subdirs && a.snapshots == b.snapshots && a.mtimes == b.mtimes
    &&& a.thumbs == b.thumbs && a.has_loader == b.has_loader
}

/// What is shown alone, the slideshow and the cursor have not changed.
pub open spec fn same_views<T, V, N, R>(a: AppSpec<T, V, N, R>, b: AppSpec<T, V, N, R>) -> bool {
    &&& a.slideshow == b.slideshow && a.single_image == b.single_image
    &&& a.grid_cursor == b.grid_cursor
}

/// Where things stand in the window has not changed.
pub open spec fn same_layout<T, V, N, R>(a: AppSpec<T, V, N, R>, b: AppSpec<T, V, N, R>) -> bool {
    &&& a.streak == b.streak && a.scroll_rect == b.scroll_rect && a.outer_rect == b.outer_rect
    &&& a.motion_until == b.motion_until && a.grid_signature == b.grid_signature
    &&& a.grid_layout == b.grid_layout
}

/// Which folder is on show has not changed.
pub open spec fn same_place<T, V, N, R>(a: AppSpec<T, V, N, R>, b: AppSpec<T, V, N, R>) -> bool {
    &&& a.selected_folder == b.selected_folder && a.view_mode == b.view_mode
    &&& a.left_panel_scroll_to_selected == b.left_panel_scroll_to_selected
}

/// The address bar has not changed.
pub open spec fn same_address<T, V, N, R>(a: AppSpec<T, V, N, R>, b: AppSpec<T, V, N, R>) -> bool {
    &&& a.address_text == b.address_text && a.address_editing == b.address_editing
    &&& a.address_needs_focus == b.address_needs_focus
}

/// No scan has been asked for or taken, and no change of a folder was seen.
pub open spec fn same_scan<T, V, N, R>(a: AppSpec<T, V, N, R>, b: AppSpec<T, V, N, R>) -> bool {
    &&& a.scan_generation == b.scan_generation && a.scan_in_progress == b.scan_in_progress
    &&& a.scan_message == b.scan_message && a.watcher_debounce == b.watcher_debounce
    &&& a.startup_ready == b.startup_ready
}

/// Everything that was sent before has been sent, and `more` after it.
pub open spec fn sent<T, V, N, R>(
    a: AppSpec<T, V, N, R>,
    b: AppSpec<T, V, N, R>,
    more: Seq<EffectSpec<N>>,
) -> bool {
    b.outbox == a.outbox + more
}

/// The last folders that were asked to be watched: at place `i`, and none behind it.
pub open spec fn watched_last<N>(outbox: Seq<EffectSpec<N>>, i: int) -> bool {
    &&& 0 <= i < outbox.len() && outbox[i] is Watch
    &&& forall|j: int| i < j < outbox.len() ==> !((#[trigger] outbox[j]) is Watch)
}

/// At place `n` the loader is sent a request of this generation, with the medium as its item `j`.
pub open spec fn loads<N>(
    outbox: Seq<EffectSpec<N>>,
    n: int,
    j: int,
    generation: u64,
    p: crate::path::PathSpec,
) -> bool {
    &&& 0 <= n < outbox.len() && outbox[n] is Load
    &&& (outbox[n]->Load_0).generation == generation
    &&& 0 <= j < (outbox[n]->Load_0).items.len()
    &&& (outbox[n]->Load_0).items[j].path == p
}

/// Where nothing has changed, the viewer is as it was.
pub proof fn same_in_all_is_the_same<T, V, N, R>(a: AppSpec<T, V, N, R>, b: AppSpec<T, V, N, R>)
    requires
        same_preferences(a, b),
        same_lists(a, b),
        same_content(a, b),
        same_views(a, b),
        same_layout(a, b),
        same_place(a, b),
        same_address(a, b),
        same_scan(a, b),
        sent(a, b, Seq::empty()),
    ensures
        a == b,
{
    assert(a.outbox + Seq::empty() =~= a.outbox);
}

// ── Scans ────────────────────────────────────────────────────────────────────

/// What is watched are the folders on show: the selected folder, or else the folders that the
/// library was scanned for. Nothing is asked to be watched after that.
pub proof fn the_folders_on_show_are_watched<T, V, N, R>(s: AppSpec<T, V, N, R>, r: ScanResult)
    requires
        r.generation == s.scan_generation,
        r.view_mode == ViewMode::Folder ==> r.selected_folder is Some,
        r.view_mode == ViewMode::Library ==> r.managed_folders is Some,
    ensures
        exists|i: int| #[trigger]
            watched_last(s.scan_done(r).outbox, i) && s.outbox.len() <= i && ({
                let w = s.scan_done(r).outbox[i]->Watch_0;
                &&& r.view_mode == ViewMode::Folder ==> w.len() == 1 && w[0]
                    == r.selected_folder->0@ && s.scan_done(r).selected_folder == Some(w[0])
                &&& r.view_mode == ViewMode::Library ==> w == crate::path::paths_view(
                    r.managed_folders->0@,
                )
            }),
{
    let selected = crate::path::option_view(r.selected_folder);
    let a = s.found(
        selected,
        r.view_mode,
        crate::scan::groups_view(r.folder_groups@),
        crate::path::paths_view(r.direct_subdirs@),
        crate::scan::snaps_view(r.dir_snapshots@),
        r.media_mtimes@,
    ).thumbs_renewed(
        r.incremental,
        crate::path::paths_view(r.changed_media@),
        crate::path::paths_view(r.removed_media@),
    );
    let t = s.scan_done(r);
    assert(a.outbox.len() >= s.outbox.len());
    let i = a.outbox.len() as int;
    assert(watched_last(t.outbox, i));
}

/// What is on show stays as it is when thumbnails are asked for or forgotten.
proof fn thumbnails_change_nothing_else<T, V, N, R>(
    s: AppSpec<T, V, N, R>,
    incremental: bool,
    changed: Seq<crate::path::PathSpec>,
    removed: Seq<crate::path::PathSpec>,
)
    ensures
        ({
            let t = s.thumbs_renewed(incremental, changed, removed);
            &&& same_preferences(s, t) && same_lists(s, t) && same_views(s, t) && same_layout(s, t)
            &&& same_place(s, t) && same_address(s, t) && same_scan(s, t)
            &&& t.roots == s.roots && t.groups == s.groups && t.media == s.media
            &&& t.direct_subdirs == s.direct_subdirs && t.snapshots == s.snapshots && t.mtimes
                == s.mtimes && t.has_loader == s.has_loader
            &&& t.outbox.len() >= s.outbox.len()
            &&& forall|i: int| 0 <= i < s.outbox.len() ==> #[trigger] t.outbox[i] == s.outbox[i]
        }),
{
    let a = s.media_gone(removed);
    assert(forall|i: int| 0 <= i < s.outbox.len() ==> #[trigger] a.outbox[i] == s.outbox[i]);
    assert(a.outbox.len() >= s.outbox.len());
}

/// What is done last with the result of a scan lays the grid out anew, watches, saves and paints.
proof fn after_a_scan<T, V, N, R>(
    a: AppSpec<T, V, N, R>,
    b: AppSpec<T, V, N, R>,
    mode: ViewMode,
    selected: Option<crate::path::PathSpec>,
    managed: Option<Seq<crate::path::PathSpec>>,
    push_history: bool,
    c: AppSpec<T, V, N, R>,
    t: AppSpec<T, V, N, R>,
)
    requires
        c == b.unlaid().watched(mode, selected, managed),
        push_history ==> t == c.saved().emit(EffectSpec::Repaint),
        !push_history ==> t == c.emit(EffectSpec::Repaint),
        b.outbox.len() >= a.outbox.len(),
        forall|i: int| 0 <= i < a.outbox.len() ==> #[trigger] b.outbox[i] == a.outbox[i],
    ensures
        ({
            &&& same_preferences(b, t) && same_lists(b, t) && same_views(b, t) && same_content(b, t)
            &&& same_place(b, t) && same_address(b, t) && same_scan(b, t)
            &&& t.grid_layout is None && t.grid_signature is None && t.scroll_rect is None
                && t.outer_rect is None && t.motion_until is None && t.streak == b.streak
            &&& t.outbox.len() > a.outbox.len() && t.outbox.last() is Repaint
            &&& forall|i: int| 0 <= i < a.outbox.len() ==> #[trigger] t.outbox[i] == a.outbox[i]
            &&& push_history ==> t.outbox.len() >= 2 && t.outbox[t.outbox.len() - 2]
                == EffectSpec::<N>::Save(t.settings())
        }),
{
}

/// What the scan found that is waited for is on show: its folder, its groups with their media in
/// turn, its folders, snapshots and times. The scan is over, the grid is laid out anew, and the
/// window is painted. All else stays, and nothing that was sent is taken back.
#[verifier::spinoff_prover]
pub proof fn a_scan_shows_what_it_found<T, V, N, R>(s: AppSpec<T, V, N, R>, r: ScanResult)
    requires
        r.generation == s.scan_generation,
    ensures
        ({
            let t = s.scan_done(r);
            &&& t.selected_folder == crate::path::option_view(r.selected_folder)
            &&& t.view_mode == r.view_mode
            &&& t.groups == crate::scan::groups_view(r.folder_groups@)
            &&& t.media == crate::index::groups_media(t.groups)
            &&& t.direct_subdirs == crate::path::paths_view(r.direct_subdirs@)
            &&& t.snapshots == crate::scan::snaps_view(r.dir_snapshots@)
            &&& t.mtimes == r.media_mtimes@
            &&& t.roots == s.roots && t.has_loader == s.has_loader
            &&& !t.scan_in_progress && t.scan_message is None
            &&& t.grid_layout is None && t.grid_signature is None && t.scroll_rect is None
                && t.outer_rect is None && t.motion_until is None
            &&& t.streak == s.streak
        }),
        ({
            let t = s.scan_done(r);
            &&& same_preferences(s, t) && same_lists(s, t) && same_views(s, t) && same_address(s, t)
            &&& t.left_panel_scroll_to_selected == s.left_panel_scroll_to_selected
            &&& t.scan_generation == s.scan_generation && t.watcher_debounce == s.watcher_debounce
                && t.startup_ready == s.startup_ready
        }),
        ({
            let t = s.scan_done(r);
            &&& t.outbox.len() > s.outbox.len() && t.outbox.last() is Repaint
            &&& forall|i: int| 0 <= i < s.outbox.len() ==> #[trigger] t.outbox[i] == s.outbox[i]
            &&& r.push_history ==> t.outbox[t.outbox.len() - 2] == EffectSpec::<N>::Save(
                t.settings(),
            )
        }),
{
    let a = s.found(
        crate::path::option_view(r.selected_folder),
        r.view_mode,
        crate::scan::groups_view(r.folder_groups@),
        crate::path::paths_view(r.direct_subdirs@),
        crate::scan::snaps_view(r.dir_snapshots@),
        r.media_mtimes@,
    );
    scan_goes_on(s, a, r);
    assert(a.outbox.len() == s.outbox.len() + 1);
    assert forall|i: int| 0 <= i < s.outbox.len() implies #[trigger] s.scan_done(r).outbox[i]
        == s.outbox[i] by {
        assert(a.outbox[i] == s.outbox[i]);
    }
}

proof fn scan_goes_on<T, V, N, R>(s: AppSpec<T, V, N, R>, a: AppSpec<T, V, N, R>, r: ScanResult)
    requires
        r.generation == s.scan_generation,
        a == s.found(
            crate::path::option_view(r.selected_folder),
            r.view_mode,
            crate::scan::groups_view(r.folder_groups@),
            crate::path::paths_view(r.direct_subdirs@),
            crate::scan::snaps_view(r.dir_snapshots@),
            r.media_mtimes@,
        ),
    ensures
        ({
            let t = s.scan_done(r);
            &&& same_preferences(a, t) && same_lists(a, t) && same_views(a, t)
            &&& same_place(a, t) && same_address(a, t) && same_scan(a, t)
            &&& t.roots == a.roots && t.groups == a.groups && t.media == a.media
            &&& t.direct_subdirs == a.direct_subdirs && t.snapshots == a.snapshots && t.mtimes
                == a.mtimes && t.has_loader == a.has_loader
            &&& t.grid_layout is None && t.grid_signature is None && t.scroll_rect is None
                && t.outer_rect is None && t.motion_until is None && t.streak == a.streak
            &&& t.outbox.len() > a.outbox.len() && t.outbox.last() is Repaint
            &&& forall|i: int| 0 <= i < a.outbox.len() ==> #[trigger] t.outbox[i] == a.outbox[i]
            &&& r.push_history ==> t.outbox.len() >= 2 && t.outbox[t.outbox.len() - 2]
                == EffectSpec::<N>::Save(t.settings())
        }),
{
    let selected = crate::path::option_view(r.selected_folder);
    let changed = crate::path::paths_view(r.changed_media@);
    let removed = crate::path::paths_view(r.removed_media@);
    thumbnails_change_nothing_else(a, r.incremental, changed, removed);
    let b = a.thumbs_renewed(r.incremental, changed, removed);
    let managed = crate::work::list_view(r.managed_folders);
    let c = b.unlaid().watched(r.view_mode, selected, managed);
    let t = s.scan_done(r);
    assert(r.push_history ==> t == c.saved().emit(EffectSpec::Repaint));
    assert(!r.push_history ==> t == c.emit(EffectSpec::Repaint));
    after_a_scan(a, b, r.view_mode, selected, managed, r.push_history, c, t);
}

/// A result that is not waited for changes nothing.
pub proof fn other_results_change_nothing<T, V, N, R>(s: AppSpec<T, V, N, R>, r: ScanResult)
    requires
        r.generation != s.scan_generation,
    ensures
        s.scan_done(r) == s,
{
}

/// After a first scan, and while a medium or a slideshow fills the window, every thumbnail is asked
/// for anew: each medium that was found is waited for, and the loader is sent it.
pub proof fn every_medium_found_is_asked_for<T, V, N, R>(
    s: AppSpec<T, V, N, R>,
    r: ScanResult,
    g: int,
    i: int,
)
    requires
        r.generation == s.scan_generation,
        s.has_loader,
        !r.incremental || s.single_image is Some || s.slideshow is Some,
        0 <= g < r.folder_groups@.len() < 1_000_000,
        0 <= i < r.folder_groups@[g].images@.len() < 1_000_000,
    ensures
        ({
            let t = s.scan_done(r);
            let p = r.folder_groups@[g].images@[i]@;
            &&& t.thumbs.queued.contains(p.parts)
            &&& !t.thumbs.thumbnails.dom().contains(p.parts)
            &&& t.thumbs.done == 0
            &&& exists|n: int, j: int|
                s.outbox.len() <= n && #[trigger] loads(t.outbox, n, j, t.thumbs.generation, p)
        }),
{
    let t = s.scan_done(r);
    let groups = crate::scan::groups_view(r.folder_groups@);
    let selected = crate::path::option_view(r.selected_folder);
    let p = r.folder_groups@[g].images@[i]@;
    assert(groups[g].images[i] == p);
    let items = crate::thumbs::prioritized(groups, selected, crate::thumbs::every_medium());
    crate::thumbs::every_wanted_medium_is_asked_for(
        groups,
        selected,
        crate::thumbs::every_medium(),
        g,
        i,
    );
    let j = choose|j: int| 0 <= j < items.len() && (#[trigger] items[j]).path == p;
    crate::thumbs::item_keys_are_the_paths_of_items(items, p.parts);
    assert(items[j].path.parts == p.parts);
    let a = s.found(
        selected,
        r.view_mode,
        groups,
        crate::path::paths_view(r.direct_subdirs@),
        crate::scan::snaps_view(r.dir_snapshots@),
        r.media_mtimes@,
    );
    let n = a.outbox.len() as int;
    assert(loads(t.outbox, n, j, t.thumbs.generation, p));
}

/// A look for changes, with the grid on show, asks for the thumbnails of the media that changed and
/// of no others, and keeps all thumbnails but those of media that are gone or changed.
pub proof fn changed_media_are_asked_for<T, V, N, R>(
    s: AppSpec<T, V, N, R>,
    r: ScanResult,
    g: int,
    i: int,
)
    requires
        r.generation == s.scan_generation,
        s.has_loader,
        r.incremental,
        s.single_image is None,
        s.slideshow is None,
        0 <= g < r.folder_groups@.len() < 1_000_000,
        0 <= i < r.folder_groups@[g].images@.len() < 1_000_000,
        crate::pathmap::has_key(
            crate::path::paths_view(r.changed_media@),
            r.folder_groups@[g].images@[i]@.parts,
        ),
    ensures
        ({
            let t = s.scan_done(r);
            let p = r.folder_groups@[g].images@[i]@;
            &&& t.thumbs.queued.contains(p.parts)
            &&& t.thumbs.generation == s.thumbs.generation
            &&& exists|n: int, j: int|
                s.outbox.len() <= n && #[trigger] loads(t.outbox, n, j, t.thumbs.generation, p)
        }),
{
    let t = s.scan_done(r);
    let groups = crate::scan::groups_view(r.folder_groups@);
    let selected = crate::path::option_view(r.selected_folder);
    let p = r.folder_groups@[g].images@[i]@;
    let changed = crate::actions::keys_of(crate::path::paths_view(r.changed_media@));
    let wanted = |k: crate::path::PathKey| changed.contains(k);
    assert(groups[g].images[i] == p);
    assert(wanted(p.parts));
    let a = s.found(
        selected,
        r.view_mode,
        groups,
        crate::path::paths_view(r.direct_subdirs@),
        crate::scan::snaps_view(r.dir_snapshots@),
        r.media_mtimes@,
    ).media_gone(crate::path::paths_view(r.removed_media@));
    let items = crate::thumbs::prioritized(groups, selected, wanted);
    assert(a.some_asked(changed).thumbs == a.thumbs.asked_more(items));
    crate::thumbs::every_wanted_medium_is_asked_for(groups, selected, wanted, g, i);
    let j = choose|j: int| 0 <= j < items.len() && (#[trigger] items[j]).path == p;
    crate::thumbs::item_keys_are_the_paths_of_items(items, p.parts);
    assert(items[j].path.parts == p.parts);
    let n = a.outbox.len() as int;
    assert(loads(t.outbox, n, j, t.thumbs.generation, p));
}

/// What a look for changes reports as removed is forgotten, in the viewer and in the table, and
/// nothing else is; where nothing was removed, all thumbnails are kept and nothing is forgotten.
pub proof fn removed_media_are_forgotten<T, V, N, R>(
    s: AppSpec<T, V, N, R>,
    r: ScanResult,
    k: crate::path::PathKey,
)
    requires
        r.generation == s.scan_generation,
        r.incremental,
        s.single_image is None,
        s.slideshow is None,
    ensures
        ({
            let t = s.scan_done(r);
            let gone = crate::path::paths_view(r.removed_media@);
            let forgotten = exists|i: int| 0 <= i < gone.len() && (#[trigger] gone[i]).parts == k;
            &&& forgotten ==> !t.thumbs.thumbnails.dom().contains(k)
                && !t.thumbs.deferred.dom().contains(k)
            &&& !forgotten ==> (t.thumbs.thumbnails.dom().contains(k)
                <==> s.thumbs.thumbnails.dom().contains(k)) && (
            s.thumbs.thumbnails.dom().contains(k) ==> t.thumbs.thumbnails[k]
                == s.thumbs.thumbnails[k])
            &&& !forgotten ==> (t.thumbs.deferred.dom().contains(k)
                <==> s.thumbs.deferred.dom().contains(k))
            &&& s.has_loader && gone.len() > 0 ==> t.outbox[s.outbox.len() + 1int]
                == EffectSpec::<N>::ForgetCached(gone)
            &&& !s.has_loader || gone.len() == 0 ==> forall|i: int|
                s.outbox.len() <= i < t.outbox.len() ==> !((#[trigger] t.outbox[i]) is ForgetCached)
        }),
{
    let gone = crate::path::paths_view(r.removed_media@);
    if exists|i: int| 0 <= i < gone.len() && (#[trigger] gone[i]).parts == k {
        assert(crate::pathmap::has_key(gone, k));
    }
}

/// A scan that is asked for waits for its own result alone: the next generation, with what is to be
/// scanned and what is known of it.
pub proof fn asking_for_a_folder_scans_it<T, V, N, R>(
    s: AppSpec<T, V, N, R>,
    folder: crate::path::PathSpec,
    push_history: bool,
    incremental: bool,
)
    requires
        s.scan_generation < u64::MAX,
    ensures
        ({
            let t = s.folder_asked(folder, push_history, incremental);
            let n = s.outbox.len() as int;
            &&& t.selected_folder == Some(folder) && t.view_mode == ViewMode::Folder
            &&& t.address_text == folder.text && !t.address_editing
            &&& t.left_panel_scroll_to_selected && t.last_folder == Some(folder)
            &&& t.scan_generation == s.scan_generation + 1 && t.scan_in_progress
            &&& t.scan_message == Some("Scanning "@ + folder.text)
            &&& same_preferences(s, t)
            &&& t.managed == s.managed && t.recent_images == s.recent_images && t.roots == s.roots
                && t.has_loader == s.has_loader && t.watcher_debounce == s.watcher_debounce
                && t.startup_ready == s.startup_ready && t.address_needs_focus
                == s.address_needs_focus
            &&& push_history ==> t.history == s.history.visited(folder) && t.recent_folders
                == s.recent_folders.pushed(folder)
            &&& !push_history ==> t.history == s.history && t.recent_folders == s.recent_folders
            &&& t.outbox.len() == n + 3
            &&& forall|i: int| 0 <= i < n ==> #[trigger] t.outbox[i] == s.outbox[i]
            &&& t.outbox[n] == EffectSpec::<N>::Log("select_folder: "@ + folder.text)
            &&& t.outbox[n + 1] is Save
            &&& (t.outbox[n + 1]->Save_0).last_folder == Some(folder)
            &&& (t.outbox[n + 1]->Save_0).recent_folders == t.recent_folders.paths
            &&& (t.outbox[n + 1]->Save_0).managed_folders == s.managed.paths
            &&& t.outbox[n + 2] is Scan
            &&& (t.outbox[n + 2]->Scan_0).generation == t.scan_generation
            &&& (t.outbox[n + 2]->Scan_0).selected_folder == Some(folder)
            &&& (t.outbox[n + 2]->Scan_0).view_mode == ViewMode::Folder
            &&& (t.outbox[n + 2]->Scan_0).push_history == push_history
            &&& (t.outbox[n + 2]->Scan_0).managed_folders is None
            &&& (t.outbox[n + 2]->Scan_0).prev_snapshots == if incremental {
                Some(s.snapshots)
            } else {
                None
            }
        }),
{
}

/// A folder that is asked for anew is shown from an empty grid; a look for changes in it keeps all
/// that is on show.
pub proof fn only_a_new_folder_empties_the_view<T, V, N, R>(
    s: AppSpec<T, V, N, R>,
    folder: crate::path::PathSpec,
    push_history: bool,
)
    ensures
        ({
            let t = s.folder_asked(folder, push_history, true);
            same_content(s, t) && same_views(s, t) && same_layout(s, t)
        }),
        ({
            let t = s.library_asked(true);
            same_content(s, t) && same_views(s, t) && same_layout(s, t)
        }),
        ({
            let t = s.folder_asked(folder, push_history, false);
            nothing_on_show(t)
        }),
        nothing_on_show(s.library_asked(false)),
{
}

/// No media are on show, and nothing is left of those that were.
pub open spec fn nothing_on_show<T, V, N, R>(t: AppSpec<T, V, N, R>) -> bool {
    &&& t.groups.len() == 0 && t.media.len() == 0 && t.direct_subdirs.len() == 0
    &&& t.snapshots.dom() == Set::<crate::path::PathKey>::empty()
    &&& t.mtimes.dom() == Set::<crate::path::PathKey>::empty()
    &&& t.thumbs.thumbnails.dom() == Set::<crate::path::PathKey>::empty()
    &&& t.thumbs.deferred.dom() == Set::<crate::path::PathKey>::empty()
    &&& t.thumbs.queued == Set::<crate::path::PathKey>::empty()
    &&& t.thumbs.total == 0 && t.thumbs.done == 0 && t.thumbs.current is None
    &&& t.slideshow is None && t.single_image is None && t.grid_cursor is None
    &&& t.scroll_rect is None && t.outer_rect is None && t.motion_until is None
    &&& t.grid_signature is None && t.grid_layout is None
    &&& t.thumbs.visible.len() == 0 && t.thumbs.prefetch.len() == 0
    &&& t.thumbs.queued_folders == 0
    &&& t.streak.streak == 0 && t.streak.last_dir == 0 && t.streak.last_at is None
    &&& t.streak.last_decay_at is None
}

/// The library is scanned in its folders; it is no folder of the history or of the recent ones.
pub proof fn asking_for_the_library_scans_its_folders<T, V, N, R>(
    s: AppSpec<T, V, N, R>,
    incremental: bool,
)
    requires
        s.scan_generation < u64::MAX,
    ensures
        ({
            let t = s.library_asked(incremental);
            let n = s.outbox.len() as int;
            &&& t.selected_folder is None && t.view_mode == ViewMode::Library
            &&& t.address_text == "Library"@ && !t.address_editing
            &&& !t.left_panel_scroll_to_selected
            &&& t.scan_generation == s.scan_generation + 1 && t.scan_in_progress
            &&& t.scan_message == Some("Scanning Library"@)
            &&& same_preferences(s, t) && same_lists(s, t)
            &&& t.roots == s.roots && t.has_loader == s.has_loader && t.watcher_debounce
                == s.watcher_debounce && t.startup_ready == s.startup_ready
                && t.address_needs_focus == s.address_needs_focus
            &&& t.outbox.len() == n + 2
            &&& forall|i: int| 0 <= i < n ==> #[trigger] t.outbox[i] == s.outbox[i]
            &&& t.outbox[n] == EffectSpec::<N>::Log("select_library"@)
            &&& t.outbox[n + 1] is Scan
            &&& (t.outbox[n + 1]->Scan_0).generation == t.scan_generation
            &&& (t.outbox[n + 1]->Scan_0).selected_folder is None
            &&& (t.outbox[n + 1]->Scan_0).view_mode == ViewMode::Library
            &&& !(t.outbox[n + 1]->Scan_0).push_history
            &&& (t.outbox[n + 1]->Scan_0).managed_folders == Some(s.managed.paths)
            &&& (t.outbox[n + 1]->Scan_0).prev_snapshots == if incremental {
                Some(s.snapshots)
            } else {
                None
            }
        }),
{
}

// ── Going about ──────────────────────────────────────────────────────────────

/// A step back or forward shows the folder at that place of the history, which keeps all its
/// entries; without such a place nothing changes. A step up shows the folder that the one on show
/// lies in, as a new visit.
pub proof fn steps_show_the_folders_of_the_history<T, V, N, R>(s: AppSpec<T, V, N, R>)
    requires
        s.history.valid(),
    ensures
        s.history.pos >= 2 ==> {
            let t = s.went_back();
            &&& t.selected_folder == Some(s.history.entries[s.history.pos - 2])
            &&& t.history.entries == s.history.entries && t.history.pos == s.history.pos - 1
            &&& t.recent_folders == s.recent_folders && t.scan_in_progress && nothing_on_show(t)
        },
        s.history.pos < 2 ==> s.went_back() == s,
        s.history.pos < s.history.entries.len() ==> {
            let t = s.went_forward();
            &&& t.selected_folder == Some(s.history.entries[s.history.pos as int])
            &&& t.history.entries == s.history.entries && t.history.pos == s.history.pos + 1
            &&& t.recent_folders == s.recent_folders && t.scan_in_progress && nothing_on_show(t)
        },
        s.history.pos >= s.history.entries.len() ==> s.went_forward() == s,
        s.selected_folder is Some && crate::path::folder_of(s.selected_folder->0) is Some ==> {
            let t = s.went_up();
            let f = crate::path::folder_of(s.selected_folder->0)->0;
            &&& t.selected_folder == Some(f)
            &&& t.history == s.history.visited(f)
            &&& t.recent_folders == s.recent_folders.pushed(f)
            &&& t.scan_in_progress && nothing_on_show(t)
        },
        s.selected_folder is None || crate::path::folder_of(s.selected_folder->0) is None
            ==> s.went_up() == s,
{
    crate::history::steps_go_by_one_entry(s.history);
}

/// A folder that is added to the library or taken out of it changes that list alone. With the
/// library on show it is looked through for changes, with its new folders; else they are saved.
pub proof fn the_library_has_the_folders_given_to_it<T, V, N, R>(
    s: AppSpec<T, V, N, R>,
    path: crate::path::PathSpec,
    t: AppSpec<T, V, N, R>,
)
    requires
        s.scan_generation < u64::MAX,
        t == s.managed_added(path, true) || t == s.managed_removed(path.parts),
    ensures
        t == s.managed_added(path, true) || t.managed == s.managed.removed(path.parts),
        t == s.managed_removed(path.parts) || t.managed == s.managed.pushed(path),
        same_preferences(s, t) && same_content(s, t) && same_views(s, t) && same_layout(s, t),
        t.history == s.history && t.recent_folders == s.recent_folders && t.recent_images
            == s.recent_images && t.last_folder == s.last_folder,
        s.view_mode == ViewMode::Folder ==> {
            &&& same_place(s, t) && same_address(s, t) && same_scan(s, t)
            &&& sent(s, t, seq![EffectSpec::Save(t.settings())])
        },
        s.view_mode == ViewMode::Library ==> {
            &&& t.outbox.len() == s.outbox.len() + 2 && t.outbox.last() is Scan
            &&& (t.outbox.last()->Scan_0).managed_folders == Some(t.managed.paths)
            &&& (t.outbox.last()->Scan_0).prev_snapshots == Some(s.snapshots)
            &&& t.scan_in_progress && t.scan_generation == s.scan_generation + 1
        },
{
    if s.view_mode == ViewMode::Folder {
        assert(t.outbox =~= s.outbox + seq![EffectSpec::Save(t.settings())]);
    }
}

/// Nothing but a folder gets into the library.
pub proof fn only_folders_are_added<T, V, N, R>(s: AppSpec<T, V, N, R>, path: crate::path::PathSpec)
    ensures
        s.managed_added(path, false) == s,
{
}

/// The settings that are saved are those in use; a slideshow that runs tells its own.
pub proof fn the_settings_in_use_are_saved<T, V, N, R>(s: AppSpec<T, V, N, R>)
    ensures
        ({
            let x = s.settings();
            &&& x.last_folder == s.last_folder && x.interval == s.interval
            &&& x.media_volume == s.volume && x.media_muted == s.muted
            &&& x.show_thumbnail_filenames == s.show_names
            &&& x.managed_folders == s.managed.paths
            &&& x.recent_folders == s.recent_folders.paths
            &&& x.recent_images == s.recent_images.paths
            &&& s.slideshow is None ==> x.fade_enabled == s.fade && x.pixel_perfect
                == s.pixel_perfect
            &&& s.slideshow is Some ==> x.fade_enabled == s.slideshow->0.fade_enabled
                && x.pixel_perfect == s.slideshow->0.pixel_perfect
        }),
        ({
            let t = s.saved();
            &&& same_preferences(s, t) && same_lists(s, t) && same_content(s, t) && same_views(s, t)
            &&& same_layout(s, t) && same_place(s, t) && same_address(s, t) && same_scan(s, t)
            &&& sent(s, t, seq![EffectSpec::Save(s.settings())])
        }),
{
    assert(s.saved().outbox =~= s.outbox + seq![EffectSpec::Save(s.settings())]);
}

// ── Media and slideshow ──────────────────────────────────────────────────────

/// A medium that is opened is shown alone, with the cursor on it, and is the most recent one; the
/// window gets the focus. Closing it goes back to the grid, with the cursor on the medium that was
/// on show last. All else stays.
pub proof fn opening_and_closing_a_medium<T, V, N, R>(s: AppSpec<T, V, N, R>, i: usize)
    ensures
        ({
            let t = s.opened(i);
            &&& t.grid_cursor == Some(i)
            &&& t.single_image is Some && t.single_image->0.index == i
            &&& i < s.media.len() ==> t.recent_images == s.recent_images.pushed(s.media[i as int])
            &&& i >= s.media.len() ==> t.recent_images == s.recent_images
            &&& t.slideshow == s.slideshow && t.history == s.history && t.managed == s.managed
                && t.recent_folders == s.recent_folders && t.last_folder == s.last_folder
            &&& same_preferences(s, t) && same_content(s, t) && same_layout(s, t)
            &&& same_place(s, t) && same_address(s, t) && same_scan(s, t)
            &&& sent(s, t, seq![EffectSpec::Focus])
        }),
        ({
            let t = s.closed();
            &&& t.single_image is None && t.slideshow == s.slideshow
            &&& s.single_image is Some ==> t.grid_cursor == Some(s.single_image->0.index)
            &&& s.single_image is None ==> t.grid_cursor == s.grid_cursor
            &&& same_preferences(s, t) && same_lists(s, t) && same_content(s, t)
            &&& same_layout(s, t) && same_place(s, t) && same_address(s, t) && same_scan(s, t)
            &&& t.outbox == s.outbox
        }),
{
    assert(s.opened(i).outbox =~= s.outbox + seq![EffectSpec::Focus]);
}

/// A slideshow starts at its image with the settings of the viewer, on the whole screen. When it
/// stops, the window is as before, the settings of the slideshow are those of the viewer, and they
/// are saved. All else stays.
pub proof fn starting_and_stopping_a_slideshow<T, V, N, R>(
    s: AppSpec<T, V, N, R>,
    i: usize,
    now: u64,
)
    ensures
        ({
            let t = s.slideshow_started(i, now);
            &&& t.slideshow is Some && t.slideshow->0.index == i
            &&& t.slideshow->0.interval == s.interval && t.slideshow->0.fade_enabled == s.fade
                && t.slideshow->0.pixel_perfect == s.pixel_perfect
            &&& t.single_image == s.single_image && t.grid_cursor == s.grid_cursor
            &&& same_preferences(s, t) && same_lists(s, t) && same_content(s, t)
            &&& same_layout(s, t) && same_place(s, t) && same_address(s, t) && same_scan(s, t)
            &&& sent(s, t, seq![EffectSpec::FullScreen(true), EffectSpec::Focus])
        }),
        ({
            let t = s.slideshow_stopped();
            &&& t.slideshow is None
            &&& s.slideshow is Some ==> t.interval == s.slideshow->0.interval && t.fade
                == s.slideshow->0.fade_enabled && t.pixel_perfect == s.slideshow->0.pixel_perfect
            &&& s.slideshow is None ==> same_preferences(s, t)
            &&& t.volume == s.volume && t.muted == s.muted && t.show_names == s.show_names
            &&& t.single_image == s.single_image && t.grid_cursor == s.grid_cursor
            &&& same_lists(s, t) && same_content(s, t)
            &&& same_layout(s, t) && same_place(s, t) && same_address(s, t) && same_scan(s, t)
            &&& sent(
                s,
                t,
                seq![EffectSpec::FullScreen(false), EffectSpec::Save(t.settings())],
            )
        }),
{
    assert(s.slideshow_started(i, now).outbox =~= s.outbox + seq![
        EffectSpec::FullScreen(true),
        EffectSpec::Focus,
    ]);
    let t = s.slideshow_stopped();
    assert(t.outbox =~= s.outbox + seq![
        EffectSpec::FullScreen(false),
        EffectSpec::Save(t.settings()),
    ]);
}

/// A recent medium is shown alone where it is on show. Else its folder is asked for, or the library
/// where that is on show and has the folder.
pub proof fn recent_media_are_found_again<T, V, N, R>(
    s: AppSpec<T, V, N, R>,
    p: crate::path::PathSpec,
    folder: crate::path::PathSpec,
)
    requires
        crate::path::folder_of(p) == Some(folder),
    ensures
        ({
            let t = s.recent_opened(p);
            let here = s.view_mode == ViewMode::Folder && s.selected_folder is Some
                && s.selected_folder->0.parts == folder.parts;
            let in_library = s.view_mode == ViewMode::Library && s.managed.has(folder.parts);
            &&& !here && !in_library ==> t == s.folder_asked(folder, true, false)
            &&& in_library ==> t.view_mode == ViewMode::Library && t.scan_in_progress
            &&& here ==> same_scan(s, t) && same_place(s, t)
            &&& here || in_library ==> same_content(s, t) && t.recent_folders == s.recent_folders
                && t.history == s.history
            &&& (here || in_library) && crate::index::place_in(s.media, p.parts) is Some ==> {
                &&& t.single_image is Some
                &&& t.single_image->0.index == crate::index::place_in(s.media, p.parts)->0 as usize
                &&& t.grid_cursor == Some(t.single_image->0.index)
                &&& t.recent_images == s.recent_images.pushed(p)
                &&& t.outbox.last() is Focus
            }
            &&& (here || in_library) && crate::index::place_in(s.media, p.parts) is None
                ==> same_views(s, t) && t.recent_images == s.recent_images
            &&& here && crate::index::place_in(s.media, p.parts) is None ==> t == s
        }),
{
    let here = s.view_mode == ViewMode::Folder && s.selected_folder is Some
        && s.selected_folder->0.parts == folder.parts;
    let in_library = s.view_mode == ViewMode::Library && s.managed.has(folder.parts);
    if !here && !in_library {
        assert(s.folder_asked(folder, true, false).media.len() == 0);
        assert(crate::index::place_in(s.folder_asked(folder, true, false).media, p.parts) is None);
    }
}

// ── Start and end ────────────────────────────────────────────────────────────

/// The viewer starts with nothing, and with the settings that hold where none are read.
pub proof fn a_new_viewer_is_empty<T, V, N, R>(interval: N, volume: N)
    ensures
        ({
            let t = AppSpec::<T, V, N, R>::fresh(interval, volume);
            &&& nothing_on_show(t) && t.outbox.len() == 0 && t.roots.len() == 0
            &&& t.selected_folder is None && t.view_mode == ViewMode::Folder
            &&& t.address_text.len() == 0 && !t.address_editing && !t.address_needs_focus
            &&& !t.left_panel_scroll_to_selected && t.thumbs.generation == 0
            &&& !t.scan_in_progress && t.scan_message is None && t.scan_generation == 0
            &&& !t.startup_ready && !t.has_loader && t.watcher_debounce is None
            &&& t.interval == interval && t.volume == volume
            &&& t.fade && !t.pixel_perfect && !t.muted && t.show_names
            &&& t.last_folder is None && t.history.current() is None
            &&& t.managed.paths.len() == 0 && t.managed.cap == 20 && t.managed.label_max == 24
            &&& t.recent_folders.paths.len() == 0 && t.recent_folders.cap == 10
                && t.recent_folders.label_max == 32
            &&& t.recent_images.paths.len() == 0 && t.recent_images.cap == 10
                && t.recent_images.label_max == 32
        }),
{
}

/// The viewer starts with the settings that were read, and shows what the first scan found.
pub proof fn a_start_shows_what_was_found<T, V, N, R>(
    s: AppSpec<T, V, N, R>,
    init: StartupResult<N>,
)
    ensures
        ({
            let t = s.started(init);
            let x = init.settings@;
            &&& t.startup_ready && t.has_loader
            &&& t.roots == init.roots@
            &&& t.selected_folder == crate::path::option_view(init.selected_folder)
            &&& t.view_mode == init.view_mode
            &&& t.groups == crate::scan::groups_view(init.folder_groups@)
            &&& t.media == crate::index::groups_media(t.groups)
            &&& t.direct_subdirs == crate::path::paths_view(init.direct_subdirs@)
            &&& t.snapshots == crate::scan::snaps_view(init.dir_snapshots@)
            &&& t.mtimes == init.media_mtimes@
            &&& t.interval == x.interval && t.fade == x.fade_enabled && t.pixel_perfect
                == x.pixel_perfect
            &&& t.volume == x.media_volume && t.muted == x.media_muted && t.show_names
                == x.show_thumbnail_filenames
            &&& t.managed.paths == x.managed_folders
            &&& t.managed.cap == s.managed.cap && t.recent_folders.cap == s.recent_folders.cap
                && t.recent_images.cap == s.recent_images.cap
            &&& init.selected_folder is None ==> t.recent_folders.paths == x.recent_folders
                && t.last_folder == x.last_folder
            &&& init.selected_folder is Some ==> t.last_folder == t.selected_folder
                && t.left_panel_scroll_to_selected && t.address_text == t.selected_folder->0.text
            &&& init.selected_folder is Some && s.recent_folders.cap >= 1
                ==> t.recent_folders.paths.len() > 0 && t.recent_folders.paths[0]
                == t.selected_folder->0
            &&& init.selected_folder is None && init.view_mode == ViewMode::Library
                ==> t.address_text == "Library"@
            &&& init.selected_folder is None && init.view_mode == ViewMode::Folder
                ==> t.address_text.len() == 0
            &&& init.initial_image is None ==> same_views(s, t) && t.recent_images.paths
                == x.recent_images
            &&& t.history == s.history && t.scan_generation == s.scan_generation
                && t.scan_in_progress == s.scan_in_progress && same_layout(s, t)
        }),
{
}

/// What is watched from the start are the folders on show: the selected one, or those of the
/// library where that is on show. Without any folder nothing is watched.
pub proof fn a_start_watches_the_folders_on_show<T, V, N, R>(
    s: AppSpec<T, V, N, R>,
    init: StartupResult<N>,
)
    ensures
        init.selected_folder is Some || init.view_mode == ViewMode::Library ==> exists|i: int|
            #[trigger] watched_last(s.started(init).outbox, i) && s.outbox.len() <= i && ({
                let t = s.started(init);
                let w = t.outbox[i]->Watch_0;
                &&& t.selected_folder is Some ==> w.len() == 1 && w[0] == t.selected_folder->0
                &&& t.selected_folder is None ==> w == t.managed.paths
            }),
        init.selected_folder is None && init.view_mode == ViewMode::Folder ==> forall|i: int|
            s.outbox.len() <= i < s.started(init).outbox.len() ==> !((#[trigger] s.started(
                init,
            ).outbox[i]) is Watch),
{
    let a = s.furnished(init).configured(init.settings@).all_asked();
    let t = s.started(init);
    if init.selected_folder is Some || init.view_mode == ViewMode::Library {
        assert(watched_last(t.outbox, a.outbox.len() as int));
    }
}

/// A medium that the program is started with is shown alone where it is among the media, and is the
/// most recent one.
pub proof fn a_start_opens_the_medium_asked_for<T, V, N, R>(
    s: AppSpec<T, V, N, R>,
    init: StartupResult<N>,
    p: crate::path::PathSpec,
)
    requires
        crate::path::option_view(init.initial_image) == Some(p),
        s.recent_images.cap >= 1,
    ensures
        ({
            let t = s.started(init);
            let place = crate::index::place_in(t.media, p.parts);
            &&& place is Some ==> {
                &&& t.single_image is Some && t.single_image->0.index == place->0 as usize
                &&& t.grid_cursor == Some(place->0 as usize)
                &&& t.recent_images.paths.len() > 0 && t.recent_images.paths[0] == p
            }
            &&& place is None ==> same_views(s, t) && t.recent_images.paths
                == init.settings@.recent_images
        }),
{
}

/// Every medium that the viewer starts with is asked for.
pub proof fn a_start_asks_for_all_thumbnails<T, V, N, R>(
    s: AppSpec<T, V, N, R>,
    init: StartupResult<N>,
    g: int,
    i: int,
)
    requires
        0 <= g < init.folder_groups@.len() < 1_000_000,
        0 <= i < init.folder_groups@[g].images@.len() < 1_000_000,
    ensures
        ({
            let t = s.started(init);
            let p = init.folder_groups@[g].images@[i]@;
            &&& t.thumbs.queued.contains(p.parts)
            &&& exists|n: int, j: int|
                s.outbox.len() <= n && #[trigger] loads(t.outbox, n, j, t.thumbs.generation, p)
        }),
{
    let t = s.started(init);
    let groups = crate::scan::groups_view(init.folder_groups@);
    let selected = crate::path::option_view(init.selected_folder);
    let p = init.folder_groups@[g].images@[i]@;
    assert(groups[g].images[i] == p);
    let items = crate::thumbs::prioritized(groups, selected, crate::thumbs::every_medium());
    crate::thumbs::every_wanted_medium_is_asked_for(
        groups,
        selected,
        crate::thumbs::every_medium(),
        g,
        i,
    );
    let j = choose|j: int| 0 <= j < items.len() && (#[trigger] items[j]).path == p;
    crate::thumbs::item_keys_are_the_paths_of_items(items, p.parts);
    assert(items[j].path.parts == p.parts);
    let n = s.outbox.len() as int;
    assert(loads(t.outbox, n, j, t.thumbs.generation, p));
}

/// When the program ends, the settings in use are saved, those of a slideshow that runs among them,
/// and nothing else happens.
pub proof fn an_end_saves_the_settings<T, V, N, R>(s: AppSpec<T, V, N, R>)
    ensures
        ({
            let t = s.ended();
            &&& sent(s, t, seq![EffectSpec::Save(t.settings())])
            &&& s.slideshow is None ==> same_preferences(s, t)
            &&& s.slideshow is Some ==> t.interval == s.slideshow->0.interval && t.fade
                == s.slideshow->0.fade_enabled
            &&& t.volume == s.volume && t.muted == s.muted && t.show_names == s.show_names
            &&& same_lists(s, t) && same_content(s, t) && same_views(s, t) && same_layout(s, t)
            &&& same_place(s, t) && same_address(s, t) && same_scan(s, t)
        }),
{
    let t = s.ended();
    assert(t.outbox =~= s.outbox + seq![EffectSpec::Save(t.settings())]);
}

// ── Changes of folders and of the window ─────────────────────────────────────

/// A change of a folder is noted, and four fifths of a second after the last one the folder on show
/// is looked through for changes, once. Without a change nothing happens.
pub proof fn changed_folders_are_looked_through<T, V, N, R>(s: AppSpec<T, V, N, R>, now: u64)
    ensures
        s.watcher_debounce is None ==> s.watcher_polled(false, now) == s,
        s.watcher_debounce is Some && now < s.watcher_debounce->0 + 800_000_000
            ==> s.watcher_polled(false, now) == s,
        s.watcher_debounce is Some && now >= s.watcher_debounce->0 + 800_000_000 ==> {
            let t = s.watcher_polled(false, now);
            &&& t.watcher_debounce is None
            &&& same_content(s, t) && same_views(s, t) && same_layout(s, t)
            &&& same_preferences(s, t)
            &&& t.history == s.history && t.recent_folders == s.recent_folders && t.recent_images
                == s.recent_images && t.managed == s.managed
            &&& t.selected_folder == if s.view_mode == ViewMode::Folder {
                s.selected_folder
            } else {
                None
            }
            &&& t.view_mode == s.view_mode
            &&& s.selected_folder is Some || s.view_mode == ViewMode::Library ==> {
                &&& t.scan_in_progress
                &&& t.outbox.len() > s.outbox.len() && t.outbox.last() is Scan
                &&& (t.outbox.last()->Scan_0).view_mode == s.view_mode
                &&& (t.outbox.last()->Scan_0).prev_snapshots == Some(s.snapshots)
                &&& !(t.outbox.last()->Scan_0).push_history
                &&& s.view_mode == ViewMode::Folder ==> (
                t.outbox.last()->Scan_0).selected_folder == s.selected_folder
                &&& s.view_mode == ViewMode::Library ==> (
                t.outbox.last()->Scan_0).managed_folders == Some(s.managed.paths)
            }
            &&& s.selected_folder is None && s.view_mode == ViewMode::Folder ==> t.outbox
                == s.outbox && same_address(s, t)
        },
        ({
            let t = s.watcher_polled(true, now);
            &&& t.watcher_debounce == Some(now)
            &&& t.outbox == s.outbox && same_content(s, t) && same_views(s, t) && same_layout(s, t)
            &&& same_preferences(s, t) && same_lists(s, t) && same_place(s, t) && same_address(s, t)
            &&& t.scan_generation == s.scan_generation && t.scan_in_progress == s.scan_in_progress
                && t.scan_message == s.scan_message && t.startup_ready == s.startup_ready
        }),
{
}

/// Events matter where one of them is the making, writing, renaming or removing of something.
pub proof fn any_event_that_matters_counts(
    s: Seq<crate::actions::WatchEvent>,
    i: int,
)
    requires
        0 <= i < s.len(),
    ensures
        s[i] != crate::actions::WatchEvent::Other ==> crate::actions::some_matters(s),
        (forall|j: int| 0 <= j < s.len() ==> #[trigger] s[j] == crate::actions::WatchEvent::Other)
            ==> !crate::actions::some_matters(s),
{
}

/// A window that has moved counts as moving for a quarter of a second; one that was not placed
/// before, or stays where it is, does not begin to.
pub proof fn a_moved_window_moves_for_a_while<T, V, N, R>(
    s: AppSpec<T, V, N, R>,
    rect: R,
    now: u64,
    later: u64,
)
    requires
        now + 250_000_000 <= u64::MAX,
    ensures
        ({
            let t = s.placed(Some(rect), true, now);
            &&& t.outer_rect == Some(rect)
            &&& s.outer_rect is Some ==> (t.moving(later) <==> later < now + 250_000_000)
            &&& s.outer_rect is None ==> t.motion_until == s.motion_until
            &&& same_preferences(s, t) && same_lists(s, t) && same_content(s, t) && same_views(s, t)
            &&& same_place(s, t) && same_address(s, t) && same_scan(s, t) && t.outbox == s.outbox
            &&& t.streak == s.streak && t.scroll_rect == s.scroll_rect && t.grid_signature
                == s.grid_signature && t.grid_layout == s.grid_layout
        }),
        s.placed(Some(rect), false, now).outer_rect == Some(rect),
        s.placed(Some(rect), false, now).motion_until == s.motion_until,
        s.placed(None, true, now) == s,
        s.motion_until is None ==> !s.moving(later),
        s.motion_until is Some ==> (s.moving(later) <==> later < s.motion_until->0),
{
}

} // verus!
