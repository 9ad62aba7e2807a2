//! What the viewer shows first.

use vstd::prelude::*;

use crate::media::is_media;
use crate::path::{copy_option, MediaPath};
use crate::pathmap::PathMap;
use crate::scan::{DirSnapshot, DirTree, FolderGroup};
use crate::settings::AppSettings;
use crate::tree::FolderNode;
use crate::work::{run_scan, ScanRequest, StartupResult, ViewMode};

verus! {

/// What the viewer shows first.
pub enum StartPlan {
    Folder(MediaPath),
    Library,
    Nothing,
}

/// The medium that the viewer was started with, if it was one.
pub open spec fn asked_medium(initial: Option<crate::path::PathSpec>) -> Option<
    crate::path::PathSpec,
> {
    match initial {
        Some(p) => if crate::media::media_key(p.parts) {
            Some(p)
        } else {
            None
        },
        None => None,
    }
}

/// The folder to show first, if it is there: that of the medium that the viewer was started
/// with, or else the one of last time.
pub open spec fn first_folder(
    medium: Option<crate::path::PathSpec>,
    last: Option<crate::path::PathSpec>,
) -> Option<crate::path::PathSpec> {
    match medium {
        Some(p) => match crate::path::folder_of(p) {
            Some(f) => Some(f),
            None => last,
        },
        None => last,
    }
}

/// The medium that the viewer was started with, if it was one.
pub fn requested_media(initial: Option<MediaPath>) -> (r: Option<MediaPath>)
    ensures
        crate::path::option_view(r) == asked_medium(crate::path::option_view(initial)),
{
    match initial {
        Some(p) => if is_media(&p) {
            Some(p)
        } else {
            None
        },
        None => None,
    }
}

/// The folder to show first, if it is there.
pub fn requested_folder(medium: &Option<MediaPath>, last: &Option<MediaPath>) -> (r: Option<
    MediaPath,
>)
    ensures
        crate::path::option_view(r) == first_folder(
            crate::path::option_view(*medium),
            crate::path::option_view(*last),
        ),
{
    match medium {
        Some(p) => match p.folder() {
            Some(f) => Some(f),
            None => copy_option(last),
        },
        None => copy_option(last),
    }
}

/// What is shown first: the folder, where it is there; else the library, where it has folders.
pub fn plan_start(folder: Option<MediaPath>, folder_is_dir: bool, managed: usize) -> (r: StartPlan)
    ensures
        r == if folder is Some && folder_is_dir {
            StartPlan::Folder(folder->0)
        } else if managed > 0 {
            StartPlan::Library
        } else {
            StartPlan::Nothing
        },
{
    match folder {
        Some(f) => if folder_is_dir {
            StartPlan::Folder(f)
        } else if managed > 0 {
            StartPlan::Library
        } else {
            StartPlan::Nothing
        },
        None => if managed > 0 {
            StartPlan::Library
        } else {
            StartPlan::Nothing
        },
    }
}

/// What was read at the start, for a plan, is what a scan of the folders finds.
pub open spec fn start_finds<N>(plan: StartPlan, trees: Seq<DirTree>, r: StartupResult<N>) -> bool {
    let groups = crate::scan::groups_view(r.folder_groups@);
    let subdirs = crate::path::paths_view(r.direct_subdirs@);
    let snaps = crate::scan::snaps_view(r.dir_snapshots@);
    match plan {
        StartPlan::Folder(f) => {
            &&& crate::path::option_view(r.selected_folder) == Some(f@)
            &&& r.view_mode == ViewMode::Folder
            &&& groups == crate::scan::tree_groups(trees[0])
            &&& subdirs == crate::scan::tree_paths(trees[0].children@)
            &&& snaps == crate::scan::tree_snaps(Map::empty(), trees[0])
        },
        StartPlan::Library => {
            &&& r.selected_folder is None
            &&& r.view_mode == ViewMode::Library
            &&& crate::sort::stable_sort_of(
                groups,
                crate::scan::first_groups(crate::scan::forest_groups(trees)),
                crate::scan::group_before(),
            )
            &&& crate::sort::stable_sort_of(
                subdirs,
                crate::scan::first_paths(crate::scan::forest_subdirs(trees)),
                crate::scan::text_before(),
            )
            &&& snaps == crate::scan::library_snaps(trees)
        },
        StartPlan::Nothing => {
            &&& r.selected_folder is None
            &&& r.view_mode == ViewMode::Folder
            &&& groups.len() == 0
            &&& subdirs.len() == 0
            &&& snaps == Map::<crate::path::PathKey, crate::scan::SnapSpec>::empty()
        },
    }
}

/// Reads what is shown first, in the folders as they were read. The medium that the viewer was
/// started with is opened where its folder is shown and it is a file.
pub fn finish_start<N>(
    plan: StartPlan,
    trees: &Vec<DirTree>,
    roots: Vec<FolderNode>,
    settings: AppSettings<N>,
    medium: Option<MediaPath>,
    medium_is_file: bool,
) -> (r: StartupResult<N>)
    requires
        plan is Folder ==> trees@.len() == 1,
    ensures
        start_finds(plan, trees@, r),
        crate::scan::tells_mtimes(r.media_mtimes@, crate::scan::snaps_view(r.dir_snapshots@)),
        r.roots == roots,
        r.settings == settings,
        crate::path::option_view(r.initial_image) == if plan is Folder && medium_is_file {
            crate::path::option_view(medium)
        } else {
            None
        },
{
    let (selected_folder, view_mode) = match &plan {
        StartPlan::Folder(f) => (Some(f.clone()), ViewMode::Folder),
        StartPlan::Library => (None, ViewMode::Library),
        StartPlan::Nothing => {
            let folder_groups: Vec<FolderGroup> = Vec::new();
            let direct_subdirs: Vec<MediaPath> = Vec::new();
            let dir_snapshots: PathMap<DirSnapshot> = PathMap::new();
            let media_mtimes: PathMap<i64> = PathMap::new();
            assert(crate::scan::snaps_view(dir_snapshots@) =~= Map::empty());
            return StartupResult {
                roots,
                selected_folder: None,
                view_mode: ViewMode::Folder,
                folder_groups,
                direct_subdirs,
                dir_snapshots,
                media_mtimes,
                settings,
                initial_image: None,
            };
        },
    };
    let in_folder = view_mode == ViewMode::Folder;
    let scan = run_scan(
        ScanRequest {
            generation: 0,
            selected_folder,
            view_mode,
            push_history: false,
            managed_folders: None,
            prev_snapshots: None,
        },
        trees,
    );
    let initial_image = if in_folder && medium_is_file {
        medium
    } else {
        None
    };
    StartupResult {
        roots,
        selected_folder: scan.selected_folder,
        view_mode: scan.view_mode,
        folder_groups: scan.folder_groups,
        direct_subdirs: scan.direct_subdirs,
        dir_snapshots: scan.dir_snapshots,
        media_mtimes: scan.media_mtimes,
        settings,
        initial_image,
    }
}

/// A medium that the program is started with is opened, in the folder that it lies in; without one,
/// the program starts with the folder of last time.
pub proof fn a_start_goes_by_the_medium_asked_for(
    p: crate::path::PathSpec,
    last: Option<crate::path::PathSpec>,
)
    ensures
        crate::media::media_key(p.parts) ==> asked_medium(Some(p)) == Some(p),
        !crate::media::media_key(p.parts) ==> asked_medium(Some(p)) is None,
        asked_medium(None) is None,
        crate::path::folder_of(p) is Some ==> first_folder(Some(p), last)
            == crate::path::folder_of(p),
        crate::path::folder_of(p) is None ==> first_folder(Some(p), last) == last,
        first_folder(None, last) == last,
{
}

/// The viewer starts with what a scan of its folder or of its library finds, and with nothing where
/// there is neither.
pub proof fn a_start_finds_what_a_scan_finds<N>(
    plan: StartPlan,
    trees: Seq<DirTree>,
    r: StartupResult<N>,
    q: crate::work::ScanSpec,
)
    requires
        start_finds(plan, trees, r),
        q.view_mode == r.view_mode,
    ensures
        plan is Folder ==> r.view_mode == ViewMode::Folder && r.selected_folder is Some
            && r.selected_folder->0@ == plan->Folder_0@,
        plan is Library ==> r.view_mode == ViewMode::Library && r.selected_folder is None,
        plan is Folder || plan is Library ==> crate::work::scan_finds(
            q,
            trees,
            crate::scan::groups_view(r.folder_groups@),
            crate::path::paths_view(r.direct_subdirs@),
            crate::scan::snaps_view(r.dir_snapshots@),
        ),
        plan is Nothing ==> r.view_mode == ViewMode::Folder && r.selected_folder is None
            && r.folder_groups@.len() == 0 && r.direct_subdirs@.len() == 0 && r.dir_snapshots@.dom()
            == Set::<crate::path::PathKey>::empty(),
{
    if plan is Nothing {
        assert(crate::scan::groups_view(r.folder_groups@).len() == r.folder_groups@.len());
        assert(crate::path::paths_view(r.direct_subdirs@).len() == r.direct_subdirs@.len());
        assert(crate::scan::snaps_view(r.dir_snapshots@).dom() =~= r.dir_snapshots@.dom());
    }
}

/// The viewer starts with the folder that is asked for where that is one, else with the library
/// where that has folders, and else with nothing.
pub proof fn a_start_goes_from_folder_to_library(
    folder: Option<MediaPath>,
    is_dir: bool,
    managed: usize,
    plan: StartPlan,
)
    requires
        call_ensures(plan_start, (folder, is_dir, managed), plan),
    ensures
        folder is Some && is_dir ==> plan == StartPlan::Folder(folder->0),
        (folder is None || !is_dir) && managed > 0 ==> plan == StartPlan::Library,
        (folder is None || !is_dir) && managed == 0 ==> plan == StartPlan::Nothing,
{
}

} // verus!
