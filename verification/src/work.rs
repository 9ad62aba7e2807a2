//! What the viewer asks for to be done outside of it, and what comes back.

use vstd::prelude::*;

use crate::diff::{scan_folder_diff, scan_library_diff};
use crate::loader::LoadRequest;
use crate::path::{copy_paths, MediaPath};
use crate::pathmap::PathMap;
use crate::scan::{
    copy_entries, media_mtimes, record_snapshot, scan_folder, scan_library, DirSnapshot, DirTree,
    FolderGroup, FolderScan,
};
use crate::settings::AppSettings;
use crate::tree::FolderNode;

verus! {

/// What is on show.
#[derive(Clone, Copy, PartialEq, Eq, Structural, Debug)]
pub enum ViewMode {
    /// One folder and what lies below it.
    Folder,
    /// The folders of the library.
    Library,
}

/// A scan that is asked for.
pub struct ScanRequest {
    pub generation: u64,
    pub selected_folder: Option<MediaPath>,
    pub view_mode: ViewMode,
    pub push_history: bool,
    pub managed_folders: Option<Vec<MediaPath>>,
    /// The snapshots of the last scan, where only what changed is asked for.
    pub prev_snapshots: Option<PathMap<DirSnapshot>>,
}

/// What a request for a scan holds.
pub struct ScanSpec {
    pub generation: u64,
    pub selected_folder: Option<crate::path::PathSpec>,
    pub view_mode: ViewMode,
    pub push_history: bool,
    pub managed_folders: Option<Seq<crate::path::PathSpec>>,
    pub prev_snapshots: Option<Map<crate::path::PathKey, crate::scan::SnapSpec>>,
}

/// What an optional list of paths holds.
pub open spec fn list_view(l: Option<Vec<MediaPath>>) -> Option<Seq<crate::path::PathSpec>> {
    match l {
        Some(v) => Some(crate::path::paths_view(v@)),
        None => None,
    }
}

impl View for ScanRequest {
    type V = ScanSpec;

    open spec fn view(&self) -> ScanSpec {
        ScanSpec {
            generation: self.generation,
            selected_folder: crate::path::option_view(self.selected_folder),
            view_mode: self.view_mode,
            push_history: self.push_history,
            managed_folders: list_view(self.managed_folders),
            prev_snapshots: match self.prev_snapshots {
                Some(m) => Some(crate::scan::snaps_view(m@)),
                None => None,
            },
        }
    }
}

/// The result of a scan that was asked for.
pub struct ScanResult {
    pub generation: u64,
    pub selected_folder: Option<MediaPath>,
    pub view_mode: ViewMode,
    pub folder_groups: Vec<FolderGroup>,
    pub direct_subdirs: Vec<MediaPath>,
    pub dir_snapshots: PathMap<DirSnapshot>,
    pub media_mtimes: PathMap<i64>,
    pub changed_media: Vec<MediaPath>,
    pub removed_media: Vec<MediaPath>,
    pub incremental: bool,
    pub push_history: bool,
    pub managed_folders: Option<Vec<MediaPath>>,
}

/// Something that the viewer asks for to be done.
pub enum Effect<N> {
    /// A line for the log.
    Log(String),
    /// The settings are written to their file.
    Save(AppSettings<N>),
    /// Folders are scanned.
    Scan(ScanRequest),
    /// Folders are watched, and no others.
    Watch(Vec<MediaPath>),
    /// Thumbnails are loaded.
    Load(LoadRequest),
    /// The thumbnails of media that are gone are dropped from the table.
    ForgetCached(Vec<MediaPath>),
    /// The window gets the focus.
    Focus,
    /// The window fills the screen, or no longer does.
    FullScreen(bool),
    /// The window is painted again.
    Repaint,
}

/// What an effect holds.
pub enum EffectSpec<N> {
    Log(Seq<char>),
    Save(crate::settings::SettingsSpec<N>),
    Scan(ScanSpec),
    Watch(Seq<crate::path::PathSpec>),
    Load(crate::loader::RequestSpec),
    ForgetCached(Seq<crate::path::PathSpec>),
    Focus,
    FullScreen(bool),
    Repaint,
}

impl<N> View for Effect<N> {
    type V = EffectSpec<N>;

    open spec fn view(&self) -> EffectSpec<N> {
        match self {
            Effect::Log(s) => EffectSpec::Log(s@),
            Effect::Save(s) => EffectSpec::Save(s@),
            Effect::Scan(r) => EffectSpec::Scan(r@),
            Effect::Watch(v) => EffectSpec::Watch(crate::path::paths_view(v@)),
            Effect::Load(r) => EffectSpec::Load(r@),
            Effect::ForgetCached(v) => EffectSpec::ForgetCached(crate::path::paths_view(v@)),
            Effect::Focus => EffectSpec::Focus,
            Effect::FullScreen(b) => EffectSpec::FullScreen(*b),
            Effect::Repaint => EffectSpec::Repaint,
        }
    }
}

/// What a list of effects holds.
pub open spec fn effects_view<N>(s: Seq<Effect<N>>) -> Seq<EffectSpec<N>> {
    Seq::new(s.len(), |i: int| s[i]@)
}

/// A copy of snapshots.
pub fn copy_snapshots(m: &PathMap<DirSnapshot>) -> (r: PathMap<DirSnapshot>)
    ensures
        crate::scan::snaps_view(r@) == crate::scan::snaps_view(m@),
{
    let n: usize = m.len();
    let mut out: PathMap<DirSnapshot> = PathMap::new();
    let ghost all = crate::scan::snaps_view(m@);
    let ghost order = m.order();
    assert(crate::scan::snaps_view(out@) =~= all.restrict(order.take(0).to_set()));
    for i in 0..n
        invariant
            n == order.len(),
            order == m.order(),
            all == crate::scan::snaps_view(m@),
            forall|k: crate::path::PathKey| m@.dom().contains(k) <==> order.contains(k),
            crate::scan::snaps_view(out@) == all.restrict(order.take(i as int).to_set()),
    {
        let path = m.path_at(i);
        let snapshot = m.value_at(i);
        let copy = DirSnapshot {
            images: copy_entries(&snapshot.images),
            subdirs: copy_paths(&snapshot.subdirs),
        };
        record_snapshot(&mut out, path, copy);
        proof {
            let a = order.take(i as int);
            let b = order.take(i + 1);
            let k = order[i as int];
            assert(b =~= a.push(k));
            assert(copy@ == snapshot@);
            assert(all.dom().contains(k) && all[k] == copy@);
            assert forall|q: crate::path::PathKey| b.to_set().contains(q) <==> a.to_set().contains(
                q,
            ) || q == k by {
                if b.contains(q) {
                    let j = choose|j: int| 0 <= j < b.len() && b[j] == q;
                    if j < i {
                        assert(a[j] == q);
                    }
                }
                if a.contains(q) {
                    let j = choose|j: int| 0 <= j < a.len() && a[j] == q;
                    assert(b[j] == q);
                }
                if q == k {
                    assert(b[i as int] == q);
                }
            }
            assert(crate::scan::snaps_view(out@) =~= all.restrict(b.to_set()));
        }
    }
    assert(order.take(n as int) =~= order);
    assert(all.restrict(order.to_set()) =~= all);
    out
}

/// The folders that a request wants to be read.
pub fn folders_to_read(request: &ScanRequest) -> (r: Vec<MediaPath>)
    requires
        request.view_mode == ViewMode::Folder ==> request.selected_folder is Some,
    ensures
        crate::path::paths_view(r@) == match request@.view_mode {
            ViewMode::Folder => seq![request@.selected_folder->0],
            ViewMode::Library => match request@.managed_folders {
                Some(v) => v,
                None => Seq::empty(),
            },
        },
{
    let mut out: Vec<MediaPath> = Vec::new();
    match request.view_mode {
        ViewMode::Folder => {
            if let Some(f) = &request.selected_folder {
                out.push(f.clone());
            }
            assert(crate::path::paths_view(out@) =~= seq![request@.selected_folder->0]);
            out
        },
        ViewMode::Library => match &request.managed_folders {
            Some(v) => copy_paths(v),
            None => {
                assert(crate::path::paths_view(out@) =~= Seq::empty());
                out
            },
        },
    }
}

/// What a scan finds that is asked for, in the folders as they were read.
pub open spec fn scan_finds(
    q: ScanSpec,
    trees: Seq<DirTree>,
    groups: Seq<crate::scan::GroupSpec>,
    subdirs: Seq<crate::path::PathSpec>,
    snaps: Map<crate::path::PathKey, crate::scan::SnapSpec>,
) -> bool {
    match q.view_mode {
        ViewMode::Folder => {
            &&& groups == crate::scan::tree_groups(trees[0])
            &&& subdirs == crate::scan::tree_paths(trees[0].children@)
            &&& snaps == crate::scan::tree_snaps(Map::empty(), trees[0])
        },
        ViewMode::Library => {
            &&& crate::sort::stable_sort_of(
                groups,
                crate::scan::first_groups(crate::scan::forest_groups(trees)),
                crate::scan::group_before(),
            )
            &&& crate::sort::stable_sort_of(
                subdirs,
                crate::scan::first_paths(crate::scan::forest_subdirs(trees)),
                crate::scan::text_before(),
            )
            &&& snaps == crate::scan::library_snaps(trees)
        },
    }
}

/// What a scan for changes reports as changed and as removed.
pub open spec fn diff_finds(
    q: ScanSpec,
    prev: Map<crate::path::PathKey, crate::scan::SnapSpec>,
    trees: Seq<DirTree>,
    changed: Seq<crate::path::PathSpec>,
    removed: Seq<crate::path::PathSpec>,
) -> bool {
    let (added, gone) = match q.view_mode {
        ViewMode::Folder => (
            crate::diff::tree_added(prev, trees[0]),
            crate::diff::tree_removed(prev, trees[0]),
        ),
        ViewMode::Library => (
            crate::diff::forest_added(prev, trees),
            crate::diff::forest_removed(prev, trees),
        ),
    };
    &&& crate::pathmap::lists(changed, crate::pathmap::add_paths(Map::empty(), added))
    &&& crate::pathmap::lists(removed, crate::pathmap::add_paths(Map::empty(), gone))
}

/// A list has the media of all folders and of those below them, and no others.
pub open spec fn all_media_listed(trees: Seq<DirTree>, v: Seq<crate::path::PathSpec>) -> bool {
    &&& forall|p: crate::path::PathSpec| #[trigger]
        crate::scan::library_media(trees, p) ==> crate::pathmap::has_key(v, p.parts)
    &&& forall|i: int|
        0 <= i < v.len() ==> crate::scan::library_media(trees, #[trigger] v[i])
}

/// What a first scan reports as changed: of a folder, the media of its snapshots, folder by
/// folder in the `order` of their paths; of a library, all its media in the order of their
/// paths. No medium is listed twice; of a folder that holds where it is as folders are read.
pub open spec fn first_finds(
    q: ScanSpec,
    trees: Seq<DirTree>,
    order: Seq<crate::path::PathKey>,
    snaps: Map<crate::path::PathKey, crate::scan::SnapSpec>,
    changed: Seq<crate::path::PathSpec>,
) -> bool {
    &&& all_media_listed(trees, changed)
    &&& match q.view_mode {
        ViewMode::Folder => {
            &&& crate::pathmap::in_path_order(order)
            &&& forall|k: crate::path::PathKey| snaps.dom().contains(k) <==> order.contains(k)
            &&& changed == crate::scan::media_in_order(order, snaps)
            &&& crate::reading::as_read(trees[0]) ==> crate::recent::distinct_paths(changed)
        },
        ViewMode::Library => {
            &&& crate::scan::lists_media(
                changed,
                |p: crate::path::PathSpec| crate::scan::library_media(trees, p),
            )
            &&& crate::recent::distinct_paths(changed)
        },
    }
}

/// Does a scan that was asked for, on the folders as they were read.
pub fn run_scan(request: ScanRequest, trees: &Vec<DirTree>) -> (r: ScanResult)
    requires
        request.view_mode == ViewMode::Folder ==> trees@.len() == 1,
    ensures
        r.generation == request.generation,
        r.selected_folder == request.selected_folder,
        r.view_mode == request.view_mode,
        r.push_history == request.push_history,
        r.managed_folders == request.managed_folders,
        r.incremental == (request.prev_snapshots is Some),
        scan_finds(
            request@,
            trees@,
            crate::scan::groups_view(r.folder_groups@),
            crate::path::paths_view(r.direct_subdirs@),
            crate::scan::snaps_view(r.dir_snapshots@),
        ),
        crate::scan::tells_mtimes(r.media_mtimes@, crate::scan::snaps_view(r.dir_snapshots@)),
        request@.prev_snapshots matches Some(prev) ==> diff_finds(
            request@,
            prev,
            trees@,
            crate::path::paths_view(r.changed_media@),
            crate::path::paths_view(r.removed_media@),
        ),
        request@.prev_snapshots is None ==> r.removed_media@.len() == 0,
        request@.prev_snapshots is None ==> first_finds(
            request@,
            trees@,
            r.dir_snapshots.order(),
            crate::scan::snaps_view(r.dir_snapshots@),
            crate::path::paths_view(r.changed_media@),
        ),
{
    let incremental = request.prev_snapshots.is_some();
    let scan: FolderScan = match request.view_mode {
        ViewMode::Folder => match &request.prev_snapshots {
            Some(prev) => scan_folder_diff(&trees[0], prev),
            None => {
                let s = scan_folder(&trees[0]);
                proof {
                    one_tree_is_covered(
                        trees@,
                        s.snapshots.order(),
                        crate::scan::snaps_view(s.snapshots@),
                        crate::path::paths_view(s.changed_media@),
                    );
                    if crate::reading::as_read(trees@[0]) {
                        crate::pathmap::order_has_no_duplicates(s.snapshots.order());
                        crate::reading::each_medium_is_listed_once(
                            trees@[0],
                            s.snapshots.order(),
                        );
                    }
                }
                s
            },
        },
        ViewMode::Library => match &request.prev_snapshots {
            Some(prev) => scan_library_diff(trees, prev),
            None => {
                let s = scan_library(trees);
                proof {
                    let v = crate::path::paths_view(s.changed_media@);
                    let media = |p: crate::path::PathSpec| crate::scan::library_media(trees@, p);
                    assert(crate::scan::lists_media(v, media));
                    assert forall|p: crate::path::PathSpec| #[trigger]
                        crate::scan::library_media(trees@, p) implies crate::pathmap::has_key(
                        v,
                        p.parts,
                    ) by {
                        assert(media(p));
                    }
                    assert forall|i: int| 0 <= i < v.len() implies crate::scan::library_media(
                        trees@,
                        #[trigger] v[i],
                    ) by {
                        assert(media(v[i]));
                    }
                    assert forall|i: int, j: int| 0 <= i < j < v.len() implies (
                    #[trigger] v[i]).parts != (#[trigger] v[j]).parts by {
                        crate::path::path_order_is_total(v[i].parts, v[j].parts);
                    }
                }
                s
            },
        },
    };
    let times = media_mtimes(&scan.snapshots);
    ScanResult {
        generation: request.generation,
        selected_folder: request.selected_folder,
        view_mode: request.view_mode,
        folder_groups: scan.groups,
        direct_subdirs: scan.direct_subdirs,
        dir_snapshots: scan.snapshots,
        media_mtimes: times,
        changed_media: scan.changed_media,
        removed_media: scan.removed_media,
        incremental,
        push_history: request.push_history,
        managed_folders: request.managed_folders,
    }
}

proof fn one_tree_is_covered(
    trees: Seq<DirTree>,
    order: Seq<crate::path::PathKey>,
    m: Map<crate::path::PathKey, crate::scan::SnapSpec>,
    changed: Seq<crate::path::PathSpec>,
)
    requires
        trees.len() == 1,
        m == crate::scan::tree_snaps(Map::empty(), trees[0]),
        changed == crate::scan::media_in_order(order, m),
        forall|k: crate::path::PathKey| m.dom().contains(k) <==> order.contains(k),
    ensures
        all_media_listed(trees, changed),
{
    assert forall|i: int| 0 <= i < changed.len() implies crate::scan::library_media(
        trees,
        #[trigger] changed[i],
    ) by {
        crate::scan::media_of_snapshots(order, m, changed[i]);
        assert(changed.contains(changed[i]));
        assert(crate::scan::media_in(
            crate::scan::tree_snaps(Map::empty(), trees[0]),
            changed[i],
        ));
    }
    assert forall|p: crate::path::PathSpec| #[trigger]
        crate::scan::library_media(trees, p) implies crate::pathmap::has_key(changed, p.parts) by {
        let i = choose|i: int|
            0 <= i < trees.len() && crate::scan::media_in(
                crate::scan::tree_snaps(Map::empty(), #[trigger] trees[i]),
                p,
            );
        crate::scan::media_of_snapshots(order, m, p);
        let j = choose|j: int| 0 <= j < changed.len() && changed[j] == p;
        assert(changed[j].parts == p.parts);
    }
}

/// What the viewer starts with.
pub struct StartupResult<N> {
    pub roots: Vec<FolderNode>,
    pub selected_folder: Option<MediaPath>,
    pub view_mode: ViewMode,
    pub folder_groups: Vec<FolderGroup>,
    pub direct_subdirs: Vec<MediaPath>,
    pub dir_snapshots: PathMap<DirSnapshot>,
    pub media_mtimes: PathMap<i64>,
    pub settings: AppSettings<N>,
    pub initial_image: Option<MediaPath>,
}

// ── What a scan that is asked for comes to ───────────────────────────────────

/// A scan of a folder finds every medium of it and of the folders below, in their order, the folders
/// that lie in it, and snapshots that hold every file with its time and no other.
pub proof fn a_scan_finds_all_of_a_folder(
    q: ScanSpec,
    trees: Seq<DirTree>,
    groups: Seq<crate::scan::GroupSpec>,
    subdirs: Seq<crate::path::PathSpec>,
    snaps: Map<crate::path::PathKey, crate::scan::SnapSpec>,
    e: crate::scan::EntrySpec,
    k: crate::path::PathKey,
)
    requires
        q.view_mode == ViewMode::Folder,
        trees.len() == 1,
        scan_finds(q, trees, groups, subdirs, snaps),
    ensures
        crate::index::groups_media(groups) == crate::scan::entry_paths(
            crate::reading::tree_entries(trees[0]),
        ),
        subdirs.len() == trees[0].children@.len(),
        forall|i: int|
            0 <= i < subdirs.len() ==> #[trigger] subdirs[i] == trees[0].children@[i].path@,
        crate::reading::as_read(trees[0]) ==> (crate::reading::tree_entries(trees[0]).contains(e)
            <==> crate::reading::kept_entry(snaps, e)),
        crate::reading::as_read(trees[0]) ==> (crate::scan::has_group(groups, k)
            <==> snaps.dom().contains(k) && snaps[k].images.len() > 0),
{
    crate::reading::every_medium_is_on_show(trees[0]);
    if crate::reading::as_read(trees[0]) {
        crate::reading::snapshots_hold_every_entry(trees[0], e);
        crate::reading::every_folder_with_media_has_its_group(trees[0], k);
    }
}

/// A scan of the library finds each folder with media in one of its folders or below, once, in the
/// order of the texts in lower case, and the folders that lie directly in its folders likewise.
pub proof fn a_scan_finds_all_of_the_library(
    q: ScanSpec,
    trees: Seq<DirTree>,
    groups: Seq<crate::scan::GroupSpec>,
    subdirs: Seq<crate::path::PathSpec>,
    snaps: Map<crate::path::PathKey, crate::scan::SnapSpec>,
    k: crate::path::PathKey,
)
    requires
        q.view_mode == ViewMode::Library,
        scan_finds(q, trees, groups, subdirs, snaps),
    ensures
        crate::scan::has_group(groups, k) <==> exists|i: int|
            0 <= i < trees.len() && crate::scan::has_group(
                crate::scan::tree_groups(#[trigger] trees[i]),
                k,
            ),
        forall|i: int, j: int|
            0 <= i < j < groups.len() ==> !crate::text::text_lt(
                crate::text::lower_text((#[trigger] groups[j]).path.text),
                crate::text::lower_text((#[trigger] groups[i]).path.text),
            ),
        crate::pathmap::has_key(subdirs, k) <==> exists|i: int, j: int|
            0 <= i < trees.len() && 0 <= j < trees[i].children@.len() && (
            #[trigger] trees[i].children@[j]).path@.parts == k,
        forall|i: int, j: int|
            0 <= i < j < subdirs.len() ==> !crate::text::text_lt(
                crate::text::lower_text((#[trigger] subdirs[j]).text),
                crate::text::lower_text((#[trigger] subdirs[i]).text),
            ),
{
    crate::scan::library_groups_stand_by_their_texts(groups, trees, k);
    crate::scan::library_folders_stand_by_their_texts(subdirs, trees, k);
}

/// The snapshots of a library hold every file of its folders.
pub proof fn library_snapshots_hold_every_folder(
    q: ScanSpec,
    trees: Seq<DirTree>,
    groups: Seq<crate::scan::GroupSpec>,
    subdirs: Seq<crate::path::PathSpec>,
    snaps: Map<crate::path::PathKey, crate::scan::SnapSpec>,
    i: int,
    k: crate::path::PathKey,
)
    requires
        q.view_mode == ViewMode::Library,
        scan_finds(q, trees, groups, subdirs, snaps),
        crate::reading::read_at_once(trees),
        0 <= i < trees.len(),
        crate::scan::tree_snaps(Map::empty(), trees[i]).dom().contains(k),
    ensures
        snaps.dom().contains(k),
        snaps[k] == crate::scan::tree_snaps(Map::empty(), trees[i])[k],
{
    crate::reading::library_snapshots_are_those_of_its_folders(trees, i, k);
}

/// A look for changes in a folder reports exactly the media that came, went or were written since
/// the snapshots were taken: as changed those that are there, as removed those that were.
pub proof fn a_look_for_changes_reports_them(
    q: ScanSpec,
    before: DirTree,
    now: DirTree,
    changed: Seq<crate::path::PathSpec>,
    removed: Seq<crate::path::PathSpec>,
    k: crate::path::PathKey,
)
    requires
        q.view_mode == ViewMode::Folder,
        crate::reading::as_read(before),
        crate::reading::as_read(now),
        before.path.key() == now.path.key(),
        diff_finds(
            q,
            crate::scan::tree_snaps(Map::empty(), before),
            seq![now],
            changed,
            removed,
        ),
    ensures
        crate::reading::paths_in_order(changed),
        crate::reading::paths_in_order(removed),
        crate::pathmap::has_key(changed, k) <==> crate::reading::changed_key(
            crate::reading::tree_entries(now),
            crate::reading::tree_entries(before),
            k,
        ),
        crate::pathmap::has_key(removed, k) <==> crate::reading::changed_key(
            crate::reading::tree_entries(before),
            crate::reading::tree_entries(now),
            k,
        ),
{
    crate::reading::the_lists_of_a_scan_are_exact(before, now, changed, removed);
}

/// A look for changes in the library reports those of each of its folders.
pub proof fn a_look_through_the_library_reports_all_changes(
    q: ScanSpec,
    prev: Map<crate::path::PathKey, crate::scan::SnapSpec>,
    trees: Seq<DirTree>,
    changed: Seq<crate::path::PathSpec>,
    removed: Seq<crate::path::PathSpec>,
    k: crate::path::PathKey,
)
    requires
        q.view_mode == ViewMode::Library,
        diff_finds(q, prev, trees, changed, removed),
    ensures
        crate::pathmap::has_key(changed, k) <==> exists|i: int|
            0 <= i < trees.len() && crate::pathmap::has_key(
                crate::diff::tree_added(prev, #[trigger] trees[i]),
                k,
            ),
        crate::pathmap::has_key(removed, k) <==> exists|i: int|
            0 <= i < trees.len() && crate::pathmap::has_key(
                crate::diff::tree_removed(prev, #[trigger] trees[i]),
                k,
            ),
{
    crate::reading::changes_of_a_library_are_those_of_its_folders(prev, trees, changed, removed, k);
}

/// A first scan reports every medium of its folders and of the folders below as changed, each once,
/// and nothing else.
pub proof fn a_first_scan_reports_every_medium(
    q: ScanSpec,
    trees: Seq<DirTree>,
    order: Seq<crate::path::PathKey>,
    snaps: Map<crate::path::PathKey, crate::scan::SnapSpec>,
    changed: Seq<crate::path::PathSpec>,
    k: crate::path::PathKey,
)
    requires
        crate::reading::each_is_as_read(trees),
        q.view_mode == ViewMode::Folder ==> trees.len() == 1,
        first_finds(q, trees, order, snaps, changed),
    ensures
        crate::pathmap::has_key(changed, k) <==> exists|i: int|
            0 <= i < trees.len() && crate::reading::some_file(
                crate::reading::tree_entries(#[trigger] trees[i]),
                k,
            ),
        forall|i: int, j: int|
            0 <= i < j < changed.len() ==> (#[trigger] changed[i]).parts != (
            #[trigger] changed[j]).parts,
{
    crate::reading::listed_media_are_the_files(trees, changed, k);
    if q.view_mode == ViewMode::Folder {
        assert(crate::reading::as_read(trees[0]));
    }
    assert(crate::recent::distinct_paths(changed));
}

/// An optional list holds its paths, where there is one.
pub proof fn an_optional_list_is_its_paths(l: Option<Vec<MediaPath>>)
    ensures
        l is None <==> list_view(l) is None,
        l is Some ==> list_view(l) == Some(crate::path::paths_view(l->0@)),
{
}

/// A scan answers the request that it was asked for with: its generation, its folder or library,
/// and whether it looked for changes alone. It finds what is there, tells the times, and reports
/// nothing as removed where there was nothing before.
pub proof fn a_scan_answers_its_request(request: ScanRequest, trees: Vec<DirTree>, r: ScanResult)
    requires
        call_ensures(run_scan, (request, &trees), r),
    ensures
        r.generation == request.generation,
        r.view_mode == request.view_mode,
        r.selected_folder == request.selected_folder,
        r.managed_folders == request.managed_folders,
        r.push_history == request.push_history,
        r.incremental <==> request.prev_snapshots is Some,
        scan_finds(
            request@,
            trees@,
            crate::scan::groups_view(r.folder_groups@),
            crate::path::paths_view(r.direct_subdirs@),
            crate::scan::snaps_view(r.dir_snapshots@),
        ),
        crate::scan::tells_mtimes(r.media_mtimes@, crate::scan::snaps_view(r.dir_snapshots@)),
        request.prev_snapshots is None ==> r.removed_media@.len() == 0 && all_media_listed(
            trees@,
            crate::path::paths_view(r.changed_media@),
        ),
        request.prev_snapshots is Some ==> diff_finds(
            request@,
            crate::scan::snaps_view(request.prev_snapshots->0@),
            trees@,
            crate::path::paths_view(r.changed_media@),
            crate::path::paths_view(r.removed_media@),
        ),
{
}

/// The folders that are read for a request are those that it is for: the selected one, or those of
/// the library.
pub proof fn the_folders_asked_for_are_read(request: ScanRequest, r: Vec<MediaPath>)
    requires
        call_ensures(folders_to_read, (&request,), r),
        request.view_mode == ViewMode::Folder ==> request.selected_folder is Some,
    ensures
        request.view_mode == ViewMode::Folder ==> r@.len() == 1 && r@[0]@
            == request.selected_folder->0@,
        request.view_mode == ViewMode::Library && request.managed_folders is Some
            ==> crate::path::paths_view(r@) == crate::path::paths_view(
            request.managed_folders->0@,
        ),
        request.view_mode == ViewMode::Library && request.managed_folders is None ==> r@.len() == 0,
{
    assert(crate::path::paths_view(r@).len() == r@.len());
    if r@.len() > 0 {
        assert(crate::path::paths_view(r@)[0] == r@[0]@);
    }
}

} // verus!
