//! Scanning folders: what a folder shows, what a library shows, and what changed since
//! the last scan.

use vstd::prelude::*;

use crate::media::{is_media, is_video, tile_label_for_path};
use crate::path::MediaPath;
use crate::pathmap::{PathMap, PathSet};
use crate::sort::sort_by_key;
use crate::text::{chars_of, to_lower};

verus! {

// ── What a folder holds ──────────────────────────────────────────────────────

/// An entry of a folder, as the file system tells of it.
pub struct RawEntry {
    pub path: MediaPath,
    pub name: String,
    pub is_file: bool,
    pub is_dir: bool,
    /// When the file was last written, in seconds since 1970, if that is known.
    pub mtime: Option<i64>,
}

/// A media file and when it was last written.
pub struct MediaEntry {
    pub path: MediaPath,
    pub mtime: i64,
}

/// What a media entry holds.
pub struct EntrySpec {
    pub path: crate::path::PathSpec,
    pub mtime: i64,
}

impl View for MediaEntry {
    type V = EntrySpec;

    open spec fn view(&self) -> EntrySpec {
        EntrySpec { path: self.path@, mtime: self.mtime }
    }
}

impl Clone for MediaEntry {
    fn clone(&self) -> (r: Self)
        ensures
            r@ == self@,
    {
        MediaEntry { path: self.path.clone(), mtime: self.mtime }
    }
}

/// What a list of entries holds.
pub open spec fn entries_view(s: Seq<MediaEntry>) -> Seq<EntrySpec> {
    Seq::new(s.len(), |i: int| s[i]@)
}

/// The paths of a list of entries.
pub open spec fn entry_paths(s: Seq<EntrySpec>) -> Seq<crate::path::PathSpec> {
    Seq::new(s.len(), |i: int| s[i].path)
}

/// The media and the subfolders of a folder at the time of a scan.
pub struct DirSnapshot {
    pub images: Vec<MediaEntry>,
    pub subdirs: Vec<MediaPath>,
}

/// What a snapshot holds.
pub struct SnapSpec {
    pub images: Seq<EntrySpec>,
    pub subdirs: Seq<crate::path::PathSpec>,
}

impl View for DirSnapshot {
    type V = SnapSpec;

    open spec fn view(&self) -> SnapSpec {
        SnapSpec {
            images: entries_view(self.images@),
            subdirs: crate::path::paths_view(self.subdirs@),
        }
    }
}

/// What a map of snapshots holds.
pub open spec fn snaps_view(m: Map<crate::path::PathKey, DirSnapshot>) -> Map<
    crate::path::PathKey,
    SnapSpec,
> {
    m.map_values(|s: DirSnapshot| s@)
}

/// The media of one folder, as the viewer shows them together.
pub struct FolderGroup {
    pub path: MediaPath,
    pub display_name: String,
    pub images: Vec<MediaPath>,
    pub image_labels_short18: Vec<String>,
    pub image_is_video: Vec<bool>,
}

/// What a group holds.
pub struct GroupSpec {
    pub path: crate::path::PathSpec,
    pub display_name: Seq<char>,
    pub images: Seq<crate::path::PathSpec>,
    pub labels: Seq<Seq<char>>,
    pub videos: Seq<bool>,
}

impl View for FolderGroup {
    type V = GroupSpec;

    open spec fn view(&self) -> GroupSpec {
        GroupSpec {
            path: self.path@,
            display_name: self.display_name@,
            images: crate::path::paths_view(self.images@),
            labels: crate::media::texts_view(self.image_labels_short18@),
            videos: self.image_is_video@,
        }
    }
}

/// What a list of groups holds.
pub open spec fn groups_view(s: Seq<FolderGroup>) -> Seq<GroupSpec> {
    Seq::new(s.len(), |i: int| s[i]@)
}

// ── Reading one folder ───────────────────────────────────────────────────────

/// An entry of a folder that the viewer shows.
pub open spec fn shown_entry(e: RawEntry) -> bool {
    e.is_file && crate::media::media_key(e.path.key()) && e.mtime is Some
}

/// The entries of a folder that the viewer shows, as read.
pub open spec fn shown_entries(s: Seq<RawEntry>) -> Seq<EntrySpec>
    decreases s.len(),
{
    if s.len() == 0 {
        Seq::empty()
    } else {
        let rest = shown_entries(s.drop_last());
        let e = s.last();
        if shown_entry(e) {
            rest.push(EntrySpec { path: e.path@, mtime: e.mtime->0 })
        } else {
            rest
        }
    }
}

/// A subfolder that the viewer shows: one whose name does not start with a dot.
pub open spec fn shown_subdir(e: RawEntry) -> bool {
    e.is_dir && !(e.name@.len() > 0 && e.name@[0] == '.')
}

/// The subfolders that the viewer shows, as read.
pub open spec fn shown_subdirs(s: Seq<RawEntry>) -> Seq<crate::path::PathSpec>
    decreases s.len(),
{
    if s.len() == 0 {
        Seq::empty()
    } else {
        let rest = shown_subdirs(s.drop_last());
        if shown_subdir(s.last()) {
            rest.push(s.last().path@)
        } else {
            rest
        }
    }
}

/// One entry stands before another by its path.
pub open spec fn entry_before() -> spec_fn(EntrySpec, EntrySpec) -> bool {
    |a: EntrySpec, b: EntrySpec| crate::path::path_lt(a.path.parts, b.path.parts)
}

/// One path stands before another.
pub open spec fn path_before() -> spec_fn(crate::path::PathSpec, crate::path::PathSpec) -> bool {
    |a: crate::path::PathSpec, b: crate::path::PathSpec| crate::path::path_lt(a.parts, b.parts)
}

/// The media files of a folder, in the order of their paths.
pub fn scan_images(entries: &Vec<RawEntry>) -> (r: Vec<MediaEntry>)
    ensures
        crate::sort::stable_sort_of(entries_view(r@), shown_entries(entries@), entry_before()),
{
    let mut found: Vec<MediaEntry> = Vec::new();
    let mut keys: Vec<MediaPath> = Vec::new();
    for i in 0..entries.len()
        invariant
            entries_view(found@) == shown_entries(entries@.take(i as int)),
            keys@.len() == found@.len(),
            forall|j: int| 0 <= j < keys@.len() ==> (#[trigger] keys@[j])@ == found@[j].path@,
    {
        let e = &entries[i];
        assert(entries@.take(i + 1).drop_last() =~= entries@.take(i as int));
        if e.is_file && is_media(&e.path) {
            if let Some(mtime) = e.mtime {
                let ghost before = found@;
                found.push(MediaEntry { path: e.path.clone(), mtime });
                keys.push(e.path.clone());
                assert(entries_view(found@) =~= entries_view(before).push(found@.last()@));
            }
        }
    }
    assert(entries@.take(entries@.len() as int) =~= entries@);
    let ghost read = found@;
    let ghost by = keys@;
    let (sorted, places) = sort_by_key(found, keys);
    proof {
        let spec_read = entries_view(read);
        crate::sort::order_by_other_keys(
            places@,
            by,
            spec_read,
            |a: MediaPath, b: MediaPath| crate::sort::SortKey::before(&a, &b),
            entry_before(),
        );
        assert(entries_view(sorted@) =~= crate::sort::at_places(spec_read, places@));
    }
    sorted
}

/// The subfolders of a folder, in the order of their paths.
pub fn scan_subdirs(entries: &Vec<RawEntry>) -> (r: Vec<MediaPath>)
    ensures
        crate::sort::stable_sort_of(
            crate::path::paths_view(r@),
            shown_subdirs(entries@),
            path_before(),
        ),
{
    let mut found: Vec<MediaPath> = Vec::new();
    let mut keys: Vec<MediaPath> = Vec::new();
    for i in 0..entries.len()
        invariant
            crate::path::paths_view(found@) == shown_subdirs(entries@.take(i as int)),
            crate::path::paths_view(keys@) == crate::path::paths_view(found@),
    {
        let e = &entries[i];
        assert(entries@.take(i + 1).drop_last() =~= entries@.take(i as int));
        if e.is_dir && !starts_with_dot(e.name.as_str()) {
            let ghost before = found@;
            found.push(e.path.clone());
            keys.push(e.path.clone());
            assert(crate::path::paths_view(found@) =~= crate::path::paths_view(before).push(
                found@.last()@,
            ));
            assert(crate::path::paths_view(keys@) =~= crate::path::paths_view(found@));
        }
    }
    assert(entries@.take(entries@.len() as int) =~= entries@);
    sort_paths(found, keys)
}

/// Sorts paths by the paths in `keys`, which are the same.
fn sort_paths(found: Vec<MediaPath>, keys: Vec<MediaPath>) -> (r: Vec<MediaPath>)
    requires
        crate::path::paths_view(keys@) == crate::path::paths_view(found@),
    ensures
        crate::sort::stable_sort_of(
            crate::path::paths_view(r@),
            crate::path::paths_view(found@),
            path_before(),
        ),
{
    let ghost read = found@;
    let ghost by = keys@;
    assert(crate::path::paths_view(by).len() == crate::path::paths_view(read).len());
    let (sorted, places) = sort_by_key(found, keys);
    proof {
        let spec_read = crate::path::paths_view(read);
        assert forall|i: int| 0 <= i < by.len() implies (#[trigger] by[i])@ == spec_read[i] by {
            assert(crate::path::paths_view(by)[i] == spec_read[i]);
        }
        crate::sort::order_by_other_keys(
            places@,
            by,
            spec_read,
            |a: MediaPath, b: MediaPath| crate::sort::SortKey::before(&a, &b),
            path_before(),
        );
        assert(crate::path::paths_view(sorted@) =~= crate::sort::at_places(spec_read, places@));
    }
    sorted
}

pub(crate) fn starts_with_dot(name: &str) -> (r: bool)
    ensures
        r == (name@.len() > 0 && name@[0] == '.'),
{
    let v = chars_of(name);
    v.len() > 0 && v[0] == '.'
}


// ── Scanning a folder and what lies below it ─────────────────────────────────

/// A folder as read: its media in order, and its subfolders in order, each as read.
pub struct DirTree {
    pub path: MediaPath,
    pub images: Vec<MediaEntry>,
    pub children: Vec<DirTree>,
}

/// The paths of the folders of a list.
pub open spec fn tree_paths(s: Seq<DirTree>) -> Seq<crate::path::PathSpec> {
    Seq::new(s.len(), |i: int| s[i].path@)
}

/// The snapshot of a folder.
pub open spec fn snapshot_of(t: DirTree) -> SnapSpec {
    SnapSpec { images: entries_view(t.images@), subdirs: tree_paths(t.children@) }
}

/// The group of a folder with the given media.
pub open spec fn group_of(path: crate::path::PathSpec, images: Seq<EntrySpec>) -> GroupSpec {
    GroupSpec {
        path,
        display_name: crate::path::name_or_text(path),
        images: entry_paths(images),
        labels: Seq::new(images.len(), |i: int| crate::media::tile_label(images[i].path.parts)),
        videos: Seq::new(images.len(), |i: int| crate::media::video_key(images[i].path.parts)),
    }
}

/// The group of a folder, if it has any media.
pub open spec fn own_groups(t: DirTree) -> Seq<GroupSpec> {
    if t.images@.len() == 0 {
        Seq::empty()
    } else {
        seq![group_of(t.path@, entries_view(t.images@))]
    }
}

/// The groups of a folder and of all that lies below it, parents first.
pub open spec fn tree_groups(t: DirTree) -> Seq<GroupSpec>
    decreases t,
{
    own_groups(t) + forest_groups(t.children@)
}

/// The groups of a list of folders.
pub open spec fn forest_groups(s: Seq<DirTree>) -> Seq<GroupSpec>
    decreases s,
{
    if s.len() == 0 {
        Seq::empty()
    } else {
        forest_groups(s.drop_last()) + tree_groups(s.last())
    }
}

/// Adds the snapshots of a folder and of all that lies below it.
pub open spec fn tree_snaps(m: Map<crate::path::PathKey, SnapSpec>, t: DirTree) -> Map<
    crate::path::PathKey,
    SnapSpec,
>
    decreases t,
{
    forest_snaps(m.insert(t.path.key(), snapshot_of(t)), t.children@)
}

/// Adds the snapshots of a list of folders.
pub open spec fn forest_snaps(m: Map<crate::path::PathKey, SnapSpec>, s: Seq<DirTree>) -> Map<
    crate::path::PathKey,
    SnapSpec,
>
    decreases s,
{
    if s.len() == 0 {
        m
    } else {
        tree_snaps(forest_snaps(m, s.drop_last()), s.last())
    }
}

/// Makes the group of a folder.
pub fn make_group(folder: &MediaPath, images: &Vec<MediaEntry>) -> (r: FolderGroup)
    ensures
        r@ == group_of(folder@, entries_view(images@)),
{
    let mut paths: Vec<MediaPath> = Vec::new();
    let mut labels: Vec<String> = Vec::new();
    let mut videos: Vec<bool> = Vec::new();
    for i in 0..images.len()
        invariant
            paths@.len() == i,
            labels@.len() == i,
            videos@.len() == i,
            forall|j: int| 0 <= j < i ==> (#[trigger] paths@[j])@ == images@[j].path@,
            forall|j: int|
                0 <= j < i ==> (#[trigger] labels@[j])@ == crate::media::tile_label(
                    images@[j].path.key(),
                ),
            forall|j: int|
                0 <= j < i ==> #[trigger] videos@[j] == crate::media::video_key(
                    images@[j].path.key(),
                ),
    {
        let path = &images[i].path;
        paths.push(path.clone());
        labels.push(tile_label_for_path(path));
        videos.push(is_video(path));
    }
    let r = FolderGroup {
        path: folder.clone(),
        display_name: folder.display_name(),
        images: paths,
        image_labels_short18: labels,
        image_is_video: videos,
    };
    proof {
        let g = group_of(folder@, entries_view(images@));
        assert(r@.images =~= g.images);
        assert(r@.labels =~= g.labels);
        assert(r@.videos =~= g.videos);
    }
    r
}

/// Copies the entries of a list.
pub fn copy_entries(list: &Vec<MediaEntry>) -> (r: Vec<MediaEntry>)
    ensures
        entries_view(r@) == entries_view(list@),
{
    let mut out: Vec<MediaEntry> = Vec::new();
    for i in 0..list.len()
        invariant
            out@.len() == i,
            forall|j: int| 0 <= j < i ==> (#[trigger] out@[j])@ == list@[j]@,
    {
        out.push(list[i].clone());
    }
    assert(entries_view(out@) =~= entries_view(list@));
    out
}

/// The snapshot of a folder.
pub fn take_snapshot(tree: &DirTree) -> (r: DirSnapshot)
    ensures
        r@ == snapshot_of(*tree),
{
    let mut subdirs: Vec<MediaPath> = Vec::new();
    for i in 0..tree.children.len()
        invariant
            subdirs@.len() == i,
            forall|j: int| 0 <= j < i ==> (#[trigger] subdirs@[j])@ == tree.children@[j].path@,
    {
        subdirs.push(tree.children[i].path.clone());
    }
    let r = DirSnapshot { images: copy_entries(&tree.images), subdirs };
    assert(r@.subdirs =~= tree_paths(tree.children@));
    r
}

/// Records a snapshot under its folder.
pub(crate) fn record_snapshot(
    snapshots: &mut PathMap<DirSnapshot>,
    folder: &MediaPath,
    snapshot: DirSnapshot,
)
    ensures
        snaps_view(final(snapshots)@) == snaps_view(old(snapshots)@).insert(
            folder.key(),
            snapshot@,
        ),
{
    let ghost before = snapshots@;
    snapshots.insert(folder.clone(), snapshot);
    assert(snaps_view(snapshots@) =~= snaps_view(before).insert(folder.key(), snapshot@));
}

/// Adds a path at the end of a list.
fn push_path(list: &mut Vec<MediaPath>, path: MediaPath)
    ensures
        crate::path::paths_view(final(list)@) == crate::path::paths_view(old(list)@).push(path@),
{
    let ghost before = list@;
    list.push(path);
    assert(crate::path::paths_view(list@) =~= crate::path::paths_view(before).push(path@));
}

/// Adds the paths of one list at the end of another.
pub(crate) fn append_paths(list: &mut Vec<MediaPath>, more: &Vec<MediaPath>)
    ensures
        crate::path::paths_view(final(list)@) == crate::path::paths_view(old(list)@)
            + crate::path::paths_view(more@),
{
    let ghost before = crate::path::paths_view(list@);
    let ghost all = crate::path::paths_view(more@);
    for i in 0..more.len()
        invariant
            all == crate::path::paths_view(more@),
            crate::path::paths_view(list@) == before + all.take(i as int),
    {
        push_path(list, more[i].clone());
        assert(before + all.take(i + 1) =~= (before + all.take(i as int)).push(all[i as int]));
    }
    assert(all.take(all.len() as int) =~= all);
}

/// Adds a group at the end of a list.
pub(crate) fn push_group(list: &mut Vec<FolderGroup>, group: FolderGroup)
    ensures
        groups_view(final(list)@) == groups_view(old(list)@).push(group@),
{
    let ghost before = list@;
    list.push(group);
    assert(groups_view(list@) =~= groups_view(before).push(group@));
}

/// Adds what a folder and all that lies below it show. Only the subfolders of the folder at
/// depth zero are listed as direct subfolders.
pub fn scan_folder_recursive(
    tree: &DirTree,
    depth: usize,
    direct_subdirs: &mut Vec<MediaPath>,
    groups: &mut Vec<FolderGroup>,
    snapshots: &mut PathMap<DirSnapshot>,
)
    ensures
        crate::path::paths_view(final(direct_subdirs)@) == crate::path::paths_view(
            old(direct_subdirs)@,
        ) + (if depth == 0 {
            tree_paths(tree.children@)
        } else {
            Seq::empty()
        }),
        groups_view(final(groups)@) == groups_view(old(groups)@) + tree_groups(*tree),
        snaps_view(final(snapshots)@) == tree_snaps(snaps_view(old(snapshots)@), *tree),
    decreases tree,
{
    let ghost direct_before = crate::path::paths_view(direct_subdirs@);
    let ghost groups_before = groups_view(groups@);
    if tree.images.len() > 0 {
        push_group(groups, make_group(&tree.path, &tree.images));
    }
    assert(groups_view(groups@) =~= groups_before + own_groups(*tree));
    record_snapshot(snapshots, &tree.path, take_snapshot(tree));
    let ghost snaps_start = snaps_view(snapshots@);
    let ghost kids = tree.children@;
    for i in 0..tree.children.len()
        invariant
            kids == tree.children@,
            crate::path::paths_view(direct_subdirs@) == direct_before + (if depth == 0 {
                tree_paths(kids.take(i as int))
            } else {
                Seq::empty()
            }),
            groups_view(groups@) == groups_before + own_groups(*tree) + forest_groups(
                kids.take(i as int),
            ),
            snaps_view(snapshots@) == forest_snaps(snaps_start, kids.take(i as int)),
    {
        let child = &tree.children[i];
        let ghost next = kids.take(i + 1);
        assert(next.drop_last() =~= kids.take(i as int));
        assert(next.last() == kids[i as int]);
        assert(decreases_to!(tree => kids[i as int]));
        if depth == 0 {
            push_path(direct_subdirs, child.path.clone());
            assert(tree_paths(next) =~= tree_paths(kids.take(i as int)).push(child.path@));
        }
        scan_folder_recursive(child, depth.saturating_add(1), direct_subdirs, groups, snapshots);
        assert(crate::path::paths_view(direct_subdirs@) =~= direct_before + (if depth == 0 {
            tree_paths(next)
        } else {
            Seq::empty()
        }));
        assert(groups_view(groups@) =~= groups_before + own_groups(*tree) + forest_groups(next));
    }
    assert(kids.take(kids.len() as int) =~= kids);
    assert(groups_view(groups@) =~= groups_before + tree_groups(*tree));
}


/// The media of the folders of `order`, folder by folder.
pub open spec fn media_in_order(
    order: Seq<crate::path::PathKey>,
    m: Map<crate::path::PathKey, SnapSpec>,
) -> Seq<crate::path::PathSpec>
    decreases order.len(),
{
    if order.len() == 0 {
        Seq::empty()
    } else {
        media_in_order(order.drop_last(), m) + entry_paths(m[order.last()].images)
    }
}

/// Some folder of the snapshots holds this media file.
pub open spec fn media_in(
    m: Map<crate::path::PathKey, SnapSpec>,
    p: crate::path::PathSpec,
) -> bool {
    exists|k: crate::path::PathKey| #[trigger]
        m.dom().contains(k) && entry_paths(m[k].images).contains(p)
}

/// The result of a scan.
pub struct FolderScan {
    pub direct_subdirs: Vec<MediaPath>,
    pub groups: Vec<FolderGroup>,
    pub snapshots: PathMap<DirSnapshot>,
    /// Media to load: new, or written since the last scan.
    pub changed_media: Vec<MediaPath>,
    /// Media to forget: gone, or written since the last scan.
    pub removed_media: Vec<MediaPath>,
}

/// Appends the paths of entries to a list.
fn append_entry_paths(list: &mut Vec<MediaPath>, entries: &Vec<MediaEntry>)
    ensures
        crate::path::paths_view(final(list)@) == crate::path::paths_view(old(list)@) + entry_paths(
            entries_view(entries@),
        ),
{
    let ghost before = crate::path::paths_view(list@);
    let ghost all = entry_paths(entries_view(entries@));
    for i in 0..entries.len()
        invariant
            all == entry_paths(entries_view(entries@)),
            crate::path::paths_view(list@) == before + all.take(i as int),
    {
        push_path(list, entries[i].path.clone());
        assert(before + all.take(i + 1) =~= (before + all.take(i as int)).push(all[i as int]));
    }
    assert(all.take(all.len() as int) =~= all);
}

/// All media of the snapshots, folder by folder.
fn all_media(snapshots: &PathMap<DirSnapshot>) -> (r: Vec<MediaPath>)
    ensures
        crate::path::paths_view(r@) == media_in_order(
            snapshots.order(),
            snaps_view(snapshots@),
        ),
        crate::pathmap::in_path_order(snapshots.order()),
        forall|k: crate::path::PathKey|
            snapshots@.dom().contains(k) <==> snapshots.order().contains(k),
{
    let n: usize = snapshots.len();
    let mut out: Vec<MediaPath> = Vec::new();
    let ghost order = snapshots.order();
    let ghost m = snaps_view(snapshots@);
    assert(crate::path::paths_view(out@) =~= media_in_order(order.take(0), m));
    for i in 0..n
        invariant
            order == snapshots.order(),
            n == order.len(),
            m == snaps_view(snapshots@),
            crate::path::paths_view(out@) == media_in_order(order.take(i as int), m),
    {
        let snapshot = snapshots.value_at(i);
        append_entry_paths(&mut out, &snapshot.images);
        assert(order.take(i + 1).drop_last() =~= order.take(i as int));
        assert(m[order[i as int]] == snapshot@);
    }
    assert(order.take(n as int) =~= order);
    out
}

/// Media listed folder by folder are the media of the snapshots.
pub proof fn media_in_order_are_all(
    order: Seq<crate::path::PathKey>,
    m: Map<crate::path::PathKey, SnapSpec>,
    p: crate::path::PathSpec,
)
    ensures
        media_in_order(order, m).contains(p) <==> exists|i: int|
            0 <= i < order.len() && entry_paths(m[#[trigger] order[i]].images).contains(p),
    decreases order.len(),
{
    if order.len() > 0 {
        let front = order.drop_last();
        media_in_order_are_all(front, m, p);
        let a = media_in_order(front, m);
        let b = entry_paths(m[order.last()].images);
        if (a + b).contains(p) {
            let i = choose|i: int| 0 <= i < (a + b).len() && (a + b)[i] == p;
            if i < a.len() {
                assert(a[i] == p);
                let j = choose|j: int|
                    0 <= j < front.len() && entry_paths(m[#[trigger] front[j]].images).contains(p);
                assert(order[j] == front[j]);
            } else {
                assert(b[i - a.len()] == p);
                assert(entry_paths(m[order[order.len() - 1]].images).contains(p));
            }
        }
        if exists|i: int|
            0 <= i < order.len() && entry_paths(m[#[trigger] order[i]].images).contains(p) {
            let i = choose|i: int|
                0 <= i < order.len() && entry_paths(m[#[trigger] order[i]].images).contains(p);
            if i < front.len() {
                assert(front[i] == order[i]);
                let j = choose|j: int| 0 <= j < a.len() && a[j] == p;
                assert((a + b)[j] == p);
            } else {
                let j = choose|j: int| 0 <= j < b.len() && b[j] == p;
                assert((a + b)[a.len() + j] == p);
            }
        }
    }
}

/// Scans a folder and all that lies below it. Everything found counts as changed.
pub fn scan_folder(tree: &DirTree) -> (r: FolderScan)
    ensures
        crate::path::paths_view(r.direct_subdirs@) == tree_paths(tree.children@),
        groups_view(r.groups@) == tree_groups(*tree),
        snaps_view(r.snapshots@) == tree_snaps(Map::empty(), *tree),
        crate::path::paths_view(r.changed_media@) == media_in_order(
            r.snapshots.order(),
            snaps_view(r.snapshots@),
        ),
        crate::pathmap::in_path_order(r.snapshots.order()),
        forall|k: crate::path::PathKey|
            r.snapshots@.dom().contains(k) <==> r.snapshots.order().contains(k),
        r.removed_media@.len() == 0,
{
    let mut direct_subdirs: Vec<MediaPath> = Vec::new();
    let mut groups: Vec<FolderGroup> = Vec::new();
    let mut snapshots: PathMap<DirSnapshot> = PathMap::new();
    assert(crate::path::paths_view(direct_subdirs@) =~= Seq::empty());
    assert(groups_view(groups@) =~= Seq::empty());
    assert(snaps_view(snapshots@) =~= Map::empty());
    scan_folder_recursive(tree, 0, &mut direct_subdirs, &mut groups, &mut snapshots);
    let changed_media = all_media(&snapshots);
    assert(crate::path::paths_view(direct_subdirs@) =~= tree_paths(tree.children@));
    assert(groups_view(groups@) =~= tree_groups(*tree));
    FolderScan { direct_subdirs, groups, snapshots, changed_media, removed_media: Vec::new() }
}

// ── Scanning a library ───────────────────────────────────────────────────────

/// Some group of the list is that of this folder.
pub open spec fn has_group(s: Seq<GroupSpec>, k: crate::path::PathKey) -> bool {
    exists|i: int| 0 <= i < s.len() && (#[trigger] s[i]).path.parts == k
}

/// Groups without those of a folder that came before.
pub open spec fn first_groups(s: Seq<GroupSpec>) -> Seq<GroupSpec>
    decreases s.len(),
{
    if s.len() == 0 {
        Seq::empty()
    } else if has_group(s.drop_last(), s.last().path.parts) {
        first_groups(s.drop_last())
    } else {
        first_groups(s.drop_last()).push(s.last())
    }
}

/// Paths without those that came before.
pub open spec fn first_paths(s: Seq<crate::path::PathSpec>) -> Seq<crate::path::PathSpec>
    decreases s.len(),
{
    if s.len() == 0 {
        Seq::empty()
    } else if crate::pathmap::has_key(s.drop_last(), s.last().parts) {
        first_paths(s.drop_last())
    } else {
        first_paths(s.drop_last()).push(s.last())
    }
}

proof fn has_group_of_push(s: Seq<GroupSpec>, g: GroupSpec, k: crate::path::PathKey)
    ensures
        has_group(s.push(g), k) <==> has_group(s, k) || g.path.parts == k,
{
    let t = s.push(g);
    if has_group(t, k) {
        let i = choose|i: int| 0 <= i < t.len() && (#[trigger] t[i]).path.parts == k;
        if i < s.len() {
            assert(s[i].path.parts == k);
        }
    }
    if has_group(s, k) {
        let i = choose|i: int| 0 <= i < s.len() && (#[trigger] s[i]).path.parts == k;
        assert(t[i].path.parts == k);
    }
    if g.path.parts == k {
        assert(t[s.len() as int].path.parts == k);
    }
}

pub(crate) proof fn has_key_of_push(
    s: Seq<crate::path::PathSpec>,
    p: crate::path::PathSpec,
    k: crate::path::PathKey,
)
    ensures
        crate::pathmap::has_key(s.push(p), k) <==> crate::pathmap::has_key(s, k) || p.parts == k,
{
    let t = s.push(p);
    if crate::pathmap::has_key(t, k) {
        let i = choose|i: int| 0 <= i < t.len() && (#[trigger] t[i]).parts == k;
        if i < s.len() {
            assert(s[i].parts == k);
        }
    }
    if crate::pathmap::has_key(s, k) {
        let i = choose|i: int| 0 <= i < s.len() && (#[trigger] s[i]).parts == k;
        assert(t[i].parts == k);
    }
    if p.parts == k {
        assert(t[s.len() as int].parts == k);
    }
}

/// Moves the groups of folders that are new to `seen` to the end of a list. `all` are the
/// groups that came before.
pub(crate) fn merge_groups(
    groups: &mut Vec<FolderGroup>,
    more: Vec<FolderGroup>,
    seen: &mut PathSet,
    Ghost(all): Ghost<Seq<GroupSpec>>,
)
    requires
        groups_view(old(groups)@) == first_groups(all),
        forall|k: crate::path::PathKey| #[trigger]
            old(seen)@.dom().contains(k) <==> has_group(all, k),
    ensures
        groups_view(final(groups)@) == first_groups(all + groups_view(more@)),
        forall|k: crate::path::PathKey| #[trigger]
            final(seen)@.dom().contains(k) <==> has_group(all + groups_view(more@), k),
{
    let ghost extra = groups_view(more@);
    assert(all + extra.take(0) =~= all);
    for group in it: more
        invariant
            it.seq() == more@,
            extra == groups_view(more@),
            groups_view(groups@) == first_groups(all + extra.take(it.index() as int)),
            forall|k: crate::path::PathKey| #[trigger]
                seen@.dom().contains(k) <==> has_group(all + extra.take(it.index() as int), k),
    {
        let ghost i = it.index() as int;
        let ghost now = all + extra.take(i);
        let ghost next = all + extra.take(i + 1);
        assert(next =~= now.push(group@));
        assert(next.drop_last() =~= now);
        let fresh = seen.add(group.path.clone());
        proof {
            assert forall|k: crate::path::PathKey| #[trigger]
                seen@.dom().contains(k) <==> has_group(next, k) by {
                has_group_of_push(now, group@, k);
            }
        }
        if fresh {
            push_group(groups, group);
        }
    }
    assert(extra.take(extra.len() as int) =~= extra);
}

/// Moves the paths that are new to `seen` to the end of a list. `all` are the paths that came
/// before.
pub(crate) fn merge_paths(
    list: &mut Vec<MediaPath>,
    more: Vec<MediaPath>,
    seen: &mut PathSet,
    Ghost(all): Ghost<Seq<crate::path::PathSpec>>,
)
    requires
        crate::path::paths_view(old(list)@) == first_paths(all),
        forall|k: crate::path::PathKey| #[trigger]
            old(seen)@.dom().contains(k) <==> crate::pathmap::has_key(all, k),
    ensures
        crate::path::paths_view(final(list)@) == first_paths(
            all + crate::path::paths_view(more@),
        ),
        forall|k: crate::path::PathKey| #[trigger]
            final(seen)@.dom().contains(k) <==> crate::pathmap::has_key(
                all + crate::path::paths_view(more@),
                k,
            ),
{
    let ghost extra = crate::path::paths_view(more@);
    assert(all + extra.take(0) =~= all);
    for path in it: more
        invariant
            it.seq() == more@,
            extra == crate::path::paths_view(more@),
            crate::path::paths_view(list@) == first_paths(all + extra.take(it.index() as int)),
            forall|k: crate::path::PathKey| #[trigger]
                seen@.dom().contains(k) <==> crate::pathmap::has_key(
                    all + extra.take(it.index() as int),
                    k,
                ),
    {
        let ghost i = it.index() as int;
        let ghost now = all + extra.take(i);
        let ghost next = all + extra.take(i + 1);
        assert(next =~= now.push(path@));
        assert(next.drop_last() =~= now);
        let fresh = seen.add(path.clone());
        proof {
            assert forall|k: crate::path::PathKey| #[trigger]
                seen@.dom().contains(k) <==> crate::pathmap::has_key(next, k) by {
                has_key_of_push(now, path@, k);
            }
        }
        if fresh {
            push_path(list, path);
        }
    }
    assert(extra.take(extra.len() as int) =~= extra);
}

/// One group stands before another by the text of its folder in lower case.
pub open spec fn group_before() -> spec_fn(GroupSpec, GroupSpec) -> bool {
    |a: GroupSpec, b: GroupSpec|
        crate::text::text_lt(
            crate::text::lower_text(a.path.text),
            crate::text::lower_text(b.path.text),
        )
}

/// One path stands before another by its text in lower case.
pub open spec fn text_before() -> spec_fn(crate::path::PathSpec, crate::path::PathSpec) -> bool {
    |a: crate::path::PathSpec, b: crate::path::PathSpec|
        crate::text::text_lt(crate::text::lower_text(a.text), crate::text::lower_text(b.text))
}

pub(crate) fn sort_groups(groups: Vec<FolderGroup>) -> (r: Vec<FolderGroup>)
    ensures
        crate::sort::stable_sort_of(groups_view(r@), groups_view(groups@), group_before()),
{
    let mut keys: Vec<String> = Vec::new();
    for i in 0..groups.len()
        invariant
            keys@.len() == i,
            forall|j: int|
                0 <= j < i ==> (#[trigger] keys@[j])@ == crate::text::lower_text(
                    groups@[j].path@.text,
                ),
    {
        keys.push(to_lower(groups[i].path.text.as_str()));
    }
    let ghost read = groups@;
    let ghost by = keys@;
    let (sorted, places) = sort_by_key(groups, keys);
    proof {
        crate::sort::order_by_other_keys(
            places@,
            by,
            groups_view(read),
            |a: String, b: String| crate::sort::SortKey::before(&a, &b),
            group_before(),
        );
        assert(groups_view(sorted@) =~= crate::sort::at_places(groups_view(read), places@));
    }
    sorted
}

pub(crate) fn sort_paths_by_text(list: Vec<MediaPath>) -> (r: Vec<MediaPath>)
    ensures
        crate::sort::stable_sort_of(
            crate::path::paths_view(r@),
            crate::path::paths_view(list@),
            text_before(),
        ),
{
    let mut keys: Vec<String> = Vec::new();
    for i in 0..list.len()
        invariant
            keys@.len() == i,
            forall|j: int|
                0 <= j < i ==> (#[trigger] keys@[j])@ == crate::text::lower_text(list@[j]@.text),
    {
        keys.push(to_lower(list[i].text.as_str()));
    }
    let ghost read = list@;
    let ghost by = keys@;
    let (sorted, places) = sort_by_key(list, keys);
    proof {
        let v = crate::path::paths_view(read);
        crate::sort::order_by_other_keys(
            places@,
            by,
            v,
            |a: String, b: String| crate::sort::SortKey::before(&a, &b),
            text_before(),
        );
        assert(crate::path::paths_view(sorted@) =~= crate::sort::at_places(v, places@));
    }
    sorted
}

/// The direct subfolders of the folders of a list, in turn.
pub open spec fn forest_subdirs(s: Seq<DirTree>) -> Seq<crate::path::PathSpec>
    decreases s.len(),
{
    if s.len() == 0 {
        Seq::empty()
    } else {
        forest_subdirs(s.drop_last()) + tree_paths(s.last().children@)
    }
}

/// The snapshots of the folders of a library; those of later folders replace earlier ones.
pub open spec fn library_snaps(s: Seq<DirTree>) -> Map<crate::path::PathKey, SnapSpec>
    decreases s.len(),
{
    if s.len() == 0 {
        Map::empty()
    } else {
        library_snaps(s.drop_last()).union_prefer_right(tree_snaps(Map::empty(), s.last()))
    }
}

/// Some folder of a library, or one below it, holds this media file.
pub open spec fn library_media(s: Seq<DirTree>, p: crate::path::PathSpec) -> bool {
    exists|i: int| 0 <= i < s.len() && media_in(tree_snaps(Map::empty(), #[trigger] s[i]), p)
}

/// A set of paths drawn from media: every one of these files by its components, and
/// no other file.
pub open spec fn covers_media(
    m: Map<crate::path::PathKey, crate::path::PathSpec>,
    media: spec_fn(crate::path::PathSpec) -> bool,
) -> bool {
    &&& forall|p: crate::path::PathSpec| #[trigger] media(p) ==> m.dom().contains(p.parts)
    &&& forall|k: crate::path::PathKey| #[trigger]
        m.dom().contains(k) ==> media(m[k]) && m[k].parts == k
}

/// A list of media in the order of their paths: every one of these files by its components,
/// none twice, and no other file.
pub open spec fn lists_media(
    v: Seq<crate::path::PathSpec>,
    media: spec_fn(crate::path::PathSpec) -> bool,
) -> bool {
    &&& forall|i: int, j: int|
        0 <= i < j < v.len() ==> crate::path::path_lt(
            (#[trigger] v[i]).parts,
            (#[trigger] v[j]).parts,
        )
    &&& forall|p: crate::path::PathSpec| #[trigger]
        media(p) ==> crate::pathmap::has_key(v, p.parts)
    &&& forall|i: int| 0 <= i < v.len() ==> media(#[trigger] v[i])
}

proof fn listed_media(
    v: Seq<crate::path::PathSpec>,
    m: Map<crate::path::PathKey, crate::path::PathSpec>,
    media: spec_fn(crate::path::PathSpec) -> bool,
)
    requires
        crate::pathmap::lists(v, m),
        covers_media(m, media),
    ensures
        lists_media(v, media),
{
    assert forall|i: int| 0 <= i < v.len() implies media(#[trigger] v[i]) by {
        assert(crate::pathmap::has_key(v, v[i].parts));
        assert(m.dom().contains(v[i].parts));
    }
}

pub(crate) proof fn media_of_snapshots(
    order: Seq<crate::path::PathKey>,
    m: Map<crate::path::PathKey, SnapSpec>,
    p: crate::path::PathSpec,
)
    requires
        forall|k: crate::path::PathKey| m.dom().contains(k) <==> order.contains(k),
    ensures
        media_in(m, p) <==> media_in_order(order, m).contains(p),
{
    media_in_order_are_all(order, m, p);
    if media_in(m, p) {
        let k = choose|k: crate::path::PathKey| #[trigger]
            m.dom().contains(k) && entry_paths(m[k].images).contains(p);
        assert(order.contains(k));
        let i = choose|i: int| 0 <= i < order.len() && order[i] == k;
        assert(entry_paths(m[order[i]].images).contains(p));
    }
    if media_in_order(order, m).contains(p) {
        let i = choose|i: int|
            0 <= i < order.len() && entry_paths(m[#[trigger] order[i]].images).contains(p);
        assert(order.contains(order[i]));
        assert(m.dom().contains(order[i]));
    }
}

proof fn cover_grows(
    m: Map<crate::path::PathKey, crate::path::PathSpec>,
    s: Seq<crate::path::PathSpec>,
    a: spec_fn(crate::path::PathSpec) -> bool,
    b: spec_fn(crate::path::PathSpec) -> bool,
)
    requires
        covers_media(m, a),
        forall|p: crate::path::PathSpec| #[trigger] b(p) <==> a(p) || s.contains(p),
    ensures
        covers_media(crate::pathmap::add_paths(m, s), b),
{
    crate::pathmap::added_paths_are_there(m, s);
    let n = crate::pathmap::add_paths(m, s);
    assert forall|p: crate::path::PathSpec| #[trigger] b(p) implies n.dom().contains(p.parts) by {
        if !a(p) {
            let i = choose|i: int| 0 <= i < s.len() && s[i] == p;
            assert(s[i].parts == p.parts);
            assert(crate::pathmap::has_key(s, p.parts));
        }
    }
    assert forall|k: crate::path::PathKey| #[trigger] n.dom().contains(k) implies b(n[k])
        && n[k].parts == k by {
        if m.dom().contains(k) {
            assert(n[k] == m[k]);
            assert(a(m[k]));
            assert(b(m[k]));
        } else {
            assert(crate::pathmap::has_key(s, k));
            assert(s.contains(n[k]));
            assert(b(n[k]));
        }
    }
}

proof fn library_media_grows(s: Seq<DirTree>, i: int, p: crate::path::PathSpec)
    requires
        0 <= i < s.len(),
    ensures
        library_media(s.take(i + 1), p) <==> library_media(s.take(i), p) || media_in(
            tree_snaps(Map::empty(), s[i]),
            p,
        ),
{
    let a = s.take(i);
    let b = s.take(i + 1);
    if library_media(b, p) {
        let j = choose|j: int|
            0 <= j < b.len() && media_in(tree_snaps(Map::empty(), #[trigger] b[j]), p);
        if j < i {
            assert(a[j] == b[j]);
        }
    }
    if library_media(a, p) {
        let j = choose|j: int|
            0 <= j < a.len() && media_in(tree_snaps(Map::empty(), #[trigger] a[j]), p);
        assert(a[j] == b[j]);
    }
    if media_in(tree_snaps(Map::empty(), s[i]), p) {
        assert(b[i] == s[i]);
    }
}

/// Adds all snapshots of another map.
pub(crate) fn absorb_snapshots(snapshots: &mut PathMap<DirSnapshot>, more: PathMap<DirSnapshot>)
    ensures
        snaps_view(final(snapshots)@) == snaps_view(old(snapshots)@).union_prefer_right(
            snaps_view(more@),
        ),
{
    let ghost before = snapshots@;
    snapshots.absorb(more);
    assert(snaps_view(snapshots@) =~= snaps_view(before).union_prefer_right(
        snaps_view(more@),
    ));
}

pub(crate) proof fn forest_groups_step(s: Seq<DirTree>, i: int)
    requires
        0 <= i < s.len(),
    ensures
        forest_groups(s.take(i + 1)) == forest_groups(s.take(i)) + tree_groups(s[i]),
        forest_subdirs(s.take(i + 1)) == forest_subdirs(s.take(i)) + tree_paths(s[i].children@),
        library_snaps(s.take(i + 1)) == library_snaps(s.take(i)).union_prefer_right(
            tree_snaps(Map::empty(), s[i]),
        ),
{
    assert(s.take(i + 1).drop_last() =~= s.take(i));
    assert(s.take(i + 1).last() == s[i]);
}

/// Scans the folders of a library. A folder that lies in two of them is shown once.
pub fn scan_library(folders: &Vec<DirTree>) -> (r: FolderScan)
    ensures
        crate::sort::stable_sort_of(
            crate::path::paths_view(r.direct_subdirs@),
            first_paths(forest_subdirs(folders@)),
            text_before(),
        ),
        crate::sort::stable_sort_of(
            groups_view(r.groups@),
            first_groups(forest_groups(folders@)),
            group_before(),
        ),
        snaps_view(r.snapshots@) == library_snaps(folders@),
        lists_media(
            crate::path::paths_view(r.changed_media@),
            |p: crate::path::PathSpec| library_media(folders@, p),
        ),
        r.removed_media@.len() == 0,
{
    let mut groups: Vec<FolderGroup> = Vec::new();
    let mut direct_subdirs: Vec<MediaPath> = Vec::new();
    let mut snapshots: PathMap<DirSnapshot> = PathMap::new();
    let mut changed: PathSet = PathMap::new();
    let mut seen_groups: PathSet = PathMap::new();
    let mut seen_subdirs: PathSet = PathMap::new();
    let ghost all = folders@;
    assert(groups_view(groups@) =~= first_groups(forest_groups(all.take(0))));
    assert(crate::path::paths_view(direct_subdirs@) =~= first_paths(forest_subdirs(all.take(0))));
    assert(snaps_view(snapshots@) =~= library_snaps(all.take(0)));
    for i in 0..folders.len()
        invariant
            all == folders@,
            groups_view(groups@) == first_groups(forest_groups(all.take(i as int))),
            forall|k: crate::path::PathKey| #[trigger]
                seen_groups@.dom().contains(k) <==> has_group(
                    forest_groups(all.take(i as int)),
                    k,
                ),
            crate::path::paths_view(direct_subdirs@) == first_paths(
                forest_subdirs(all.take(i as int)),
            ),
            forall|k: crate::path::PathKey| #[trigger]
                seen_subdirs@.dom().contains(k) <==> crate::pathmap::has_key(
                    forest_subdirs(all.take(i as int)),
                    k,
                ),
            snaps_view(snapshots@) == library_snaps(all.take(i as int)),
            covers_media(
                changed.paths(),
                |p: crate::path::PathSpec| library_media(all.take(i as int), p),
            ),
    {
        let scan = scan_folder(&folders[i]);
        proof {
            forest_groups_step(all, i as int);
        }
        merge_paths(
            &mut direct_subdirs,
            scan.direct_subdirs,
            &mut seen_subdirs,
            Ghost(forest_subdirs(all.take(i as int))),
        );
        merge_groups(
            &mut groups,
            scan.groups,
            &mut seen_groups,
            Ghost(forest_groups(all.take(i as int))),
        );
        let ghost before = changed.paths();
        changed.add_all(&scan.changed_media);
        proof {
            let m = tree_snaps(Map::empty(), all[i as int]);
            let found = media_in_order(scan.snapshots.order(), m);
            let a = |p: crate::path::PathSpec| library_media(all.take(i as int), p);
            let b = |p: crate::path::PathSpec| library_media(all.take(i + 1), p);
            assert forall|k: crate::path::PathKey|
                m.dom().contains(k) <==> scan.snapshots.order().contains(k) by {
                assert(scan.snapshots@.dom().contains(k) <==> scan.snapshots.order().contains(k));
                assert(m.dom().contains(k) <==> scan.snapshots@.dom().contains(k));
            }
            assert forall|p: crate::path::PathSpec| #[trigger] b(p) <==> a(p) || found.contains(
                p,
            ) by {
                library_media_grows(all, i as int, p);
                media_of_snapshots(scan.snapshots.order(), m, p);
            }
            cover_grows(before, found, a, b);
        }
        absorb_snapshots(&mut snapshots, scan.snapshots);
    }
    assert(all.take(all.len() as int) =~= all);
    let ghost media = |p: crate::path::PathSpec| library_media(all, p);
    let changed_media = changed.to_list();
    proof {
        listed_media(
            crate::path::paths_view(changed_media@),
            changed.paths(),
            media,
        );
    }
    FolderScan {
        direct_subdirs: sort_paths_by_text(direct_subdirs),
        groups: sort_groups(groups),
        snapshots,
        changed_media,
        removed_media: Vec::new(),
    }
}

/// Dropping repeated folders keeps every folder, once.
pub proof fn each_folder_is_shown_once(s: Seq<GroupSpec>)
    ensures
        forall|k: crate::path::PathKey| #[trigger]
            has_group(first_groups(s), k) <==> has_group(s, k),
        forall|i: int, j: int|
            0 <= i < j < first_groups(s).len() ==> (#[trigger] first_groups(s)[i]).path.parts != (
            #[trigger] first_groups(s)[j]).path.parts,
    decreases s.len(),
{
    if s.len() > 0 {
        let front = s.drop_last();
        let f = first_groups(front);
        each_folder_is_shown_once(front);
        assert(s =~= front.push(s.last()));
        assert forall|k: crate::path::PathKey| #[trigger]
            has_group(first_groups(s), k) <==> has_group(s, k) by {
            has_group_of_push(front, s.last(), k);
            has_group_of_push(f, s.last(), k);
            assert(has_group(f, k) <==> has_group(front, k));
        }
        if !has_group(front, s.last().path.parts) {
            assert(!has_group(f, s.last().path.parts));
            assert forall|i: int, j: int| 0 <= i < j < first_groups(s).len() implies (
            #[trigger] first_groups(s)[i]).path.parts != (
            #[trigger] first_groups(s)[j]).path.parts by {
                if j == f.len() {
                    assert(first_groups(s)[i] == f[i]);
                    assert(f[i].path.parts != s.last().path.parts);
                } else {
                    assert(first_groups(s)[i] == f[i] && first_groups(s)[j] == f[j]);
                }
            }
        }
    }
}

/// A map tells when each media file of the snapshots was last written, and of no other file.
pub open spec fn tells_mtimes(
    times: Map<crate::path::PathKey, i64>,
    m: Map<crate::path::PathKey, SnapSpec>,
) -> bool {
    &&& forall|d: crate::path::PathKey, i: int|
        m.dom().contains(d) && 0 <= i < m[d].images.len() ==> times.dom().contains(
            (#[trigger] m[d].images[i]).path.parts,
        )
    &&& forall|k: crate::path::PathKey| #[trigger]
        times.dom().contains(k) ==> some_entry(m, k, times[k])
}

/// Some folder of the snapshots has an entry with these components and this time.
pub open spec fn some_entry(
    m: Map<crate::path::PathKey, SnapSpec>,
    k: crate::path::PathKey,
    mtime: i64,
) -> bool {
    exists|d: crate::path::PathKey, i: int|
        m.dom().contains(d) && 0 <= i < m[d].images.len() && (#[trigger] m[d].images[i]).path.parts
            == k && m[d].images[i].mtime == mtime
}

/// When each media file of the snapshots was last written.
pub fn media_mtimes(snapshots: &PathMap<DirSnapshot>) -> (r: PathMap<i64>)
    ensures
        tells_mtimes(r@, snaps_view(snapshots@)),
{
    let n: usize = snapshots.len();
    let mut times: PathMap<i64> = PathMap::new();
    let ghost order = snapshots.order();
    let ghost m = snaps_view(snapshots@);
    assert forall|x: int| 0 <= x < n implies m.dom().contains(#[trigger] order[x]) by {
        assert(order.contains(order[x]));
        assert(snapshots@.dom().contains(order[x]));
    }
    for i in 0..n
        invariant
            order == snapshots.order(),
            n == order.len(),
            m == snaps_view(snapshots@),
            forall|x: int| 0 <= x < n ==> m.dom().contains(#[trigger] order[x]),
            forall|x: int, j: int|
                0 <= x < i && 0 <= j < m[order[x]].images.len() ==> times@.dom().contains(
                    (#[trigger] m[order[x]].images[j]).path.parts,
                ),
            forall|k: crate::path::PathKey| #[trigger]
                times@.dom().contains(k) ==> some_entry(m, k, times@[k]),
    {
        let snapshot = snapshots.value_at(i);
        let ghost d = order[i as int];
        assert(m[d] == snapshot@);
        for j in 0..snapshot.images.len()
            invariant
                0 <= i < n,
                n == order.len(),
                d == order[i as int],
                m.dom().contains(d),
                m[d] == snapshot@,
                forall|x: int, y: int|
                    0 <= x < i && 0 <= y < m[order[x]].images.len() ==> times@.dom().contains(
                        (#[trigger] m[order[x]].images[y]).path.parts,
                    ),
                forall|y: int|
                    0 <= y < j ==> times@.dom().contains((#[trigger] m[d].images[y]).path.parts),
                forall|k: crate::path::PathKey| #[trigger]
                    times@.dom().contains(k) ==> some_entry(m, k, times@[k]),
        {
            let entry = &snapshot.images[j];
            let ghost before = times@;
            times.insert(entry.path.clone(), entry.mtime);
            proof {
                let e = m[d].images[j as int];
                assert(e == entry@);
                assert forall|k: crate::path::PathKey| #[trigger]
                    times@.dom().contains(k) implies some_entry(m, k, times@[k]) by {
                    if k == entry.path.key() {
                        assert(m[d].images[j as int].path.parts == k);
                    } else {
                        assert(before.dom().contains(k));
                    }
                }
            }
        }
    }
    proof {
        assert forall|d: crate::path::PathKey, i: int|
            m.dom().contains(d) && 0 <= i < m[d].images.len() implies times@.dom().contains(
            (#[trigger] m[d].images[i]).path.parts,
        ) by {
            assert(snapshots@.dom().contains(d));
            assert(order.contains(d));
            let x = choose|x: int| 0 <= x < order.len() && order[x] == d;
            assert(times@.dom().contains(m[order[x]].images[i].path.parts));
        }
    }
    times
}

// ── What a scan finds ────────────────────────────────────────────────────────

/// Of a folder, the files that are media and have a time are shown with it, and no others.
pub proof fn media_files_with_a_time_are_shown(raw: Seq<RawEntry>, e: EntrySpec)
    ensures
        shown_entries(raw).contains(e) <==> exists|i: int|
            {
                &&& 0 <= i < raw.len()
                &&& (#[trigger] raw[i]).is_file
                &&& crate::media::media_key(raw[i].path@.parts)
                &&& raw[i].mtime == Some(e.mtime)
                &&& raw[i].path@ == e.path
            },
    decreases raw.len(),
{
    if raw.len() > 0 {
        let front = raw.drop_last();
        let f = shown_entries(front);
        let all = shown_entries(raw);
        media_files_with_a_time_are_shown(front, e);
        let shown = |x: RawEntry|
            x.is_file && crate::media::media_key(x.path@.parts) && x.mtime == Some(e.mtime)
                && x.path@ == e.path;
        assert(raw[raw.len() - 1] == raw.last());
        if f.contains(e) {
            let j = choose|j: int| 0 <= j < f.len() && f[j] == e;
            assert(all[j] == e);
            let i = choose|i: int|
                {
                    &&& 0 <= i < front.len()
                    &&& (#[trigger] front[i]).is_file
                    &&& crate::media::media_key(front[i].path@.parts)
                    &&& front[i].mtime == Some(e.mtime)
                    &&& front[i].path@ == e.path
                };
            assert(raw[i] == front[i]);
        }
        if shown(raw.last()) {
            assert(all[all.len() - 1] == e);
        }
        if all.contains(e) && !f.contains(e) {
            let j = choose|j: int| 0 <= j < all.len() && all[j] == e;
            if j < f.len() {
                assert(f[j] == e);
            }
            assert(shown(raw.last()));
        }
        if exists|i: int|
            {
                &&& 0 <= i < raw.len()
                &&& (#[trigger] raw[i]).is_file
                &&& crate::media::media_key(raw[i].path@.parts)
                &&& raw[i].mtime == Some(e.mtime)
                &&& raw[i].path@ == e.path
            } {
            let i = choose|i: int|
                {
                    &&& 0 <= i < raw.len()
                    &&& (#[trigger] raw[i]).is_file
                    &&& crate::media::media_key(raw[i].path@.parts)
                    &&& raw[i].mtime == Some(e.mtime)
                    &&& raw[i].path@ == e.path
                };
            if i < front.len() {
                assert(front[i] == raw[i]);
            }
        }
    }
}

/// A file with a time whose name ends in a dot and one of the extensions of images or of videos, in
/// capitals or small letters, is among the media of its folder.
pub proof fn files_with_these_extensions_are_found(
    raw: Seq<RawEntry>,
    found: Seq<EntrySpec>,
    i: int,
    stem: Seq<char>,
    e: Seq<char>,
)
    requires
        crate::sort::stable_sort_of(found, shown_entries(raw), entry_before()),
        0 <= i < raw.len(),
        raw[i].is_file,
        raw[i].mtime is Some,
        raw[i].path@.parts.len() > 0,
        raw[i].path@.parts.last() == crate::path::PartSpec::Normal(stem + seq!['.'] + e),
        stem.len() > 0,
        !e.contains('.'),
        ({
            let l = crate::text::lower_text(e);
            ||| l == "jpg"@ || l == "jpeg"@ || l == "png"@ || l == "gif"@
            ||| l == "bmp"@ || l == "webp"@ || l == "tiff"@ || l == "tif"@
            ||| l == "mp4"@ || l == "m4v"@ || l == "mov"@ || l == "avi"@ || l == "wmv"@
            ||| l == "mkv"@ || l == "webm"@ || l == "mpg"@ || l == "mpeg"@
        }),
    ensures
        found.contains(EntrySpec { path: raw[i].path@, mtime: raw[i].mtime->0 }),
{
    let key = raw[i].path@.parts;
    let l = crate::text::lower_text(e);
    if l == "jpg"@ || l == "jpeg"@ || l == "png"@ || l == "gif"@ || l == "bmp"@ || l == "webp"@ || l
        == "tiff"@ || l == "tif"@ {
        crate::media::image_files_are_images(key, stem, e);
    } else {
        crate::media::video_files_are_videos(key, stem, e);
    }
    let x = EntrySpec { path: raw[i].path@, mtime: raw[i].mtime->0 };
    media_files_with_a_time_are_shown(raw, x);
    found_media_are_in_order(raw, found, x);
}

/// What is found in a folder are its media, each one with its time, in the order of their paths.
pub proof fn found_media_are_in_order(raw: Seq<RawEntry>, found: Seq<EntrySpec>, e: EntrySpec)
    requires
        crate::sort::stable_sort_of(found, shown_entries(raw), entry_before()),
    ensures
        found.len() == shown_entries(raw).len(),
        found.contains(e) <==> shown_entries(raw).contains(e),
        forall|i: int, j: int|
            0 <= i < j < found.len() ==> !crate::path::path_lt(
                (#[trigger] found[j]).path.parts,
                (#[trigger] found[i]).path.parts,
            ),
{
    assert forall|a: EntrySpec, b: EntrySpec| #[trigger] entry_before()(a, b) implies !entry_before()(
        b,
        a,
    ) by {
        crate::path::path_order_is_total(a.path.parts, b.path.parts);
    }
    crate::sort::sorting_keeps_all(found, shown_entries(raw), entry_before());
    assert forall|i: int, j: int| 0 <= i < j < found.len() implies !crate::path::path_lt(
        (#[trigger] found[j]).path.parts,
        (#[trigger] found[i]).path.parts,
    ) by {
        assert(!entry_before()(found[j], found[i]));
    }
}

/// Of a folder, the folders in it whose names do not start with a dot are shown, and no others.
pub proof fn folders_that_are_not_hidden_are_shown(
    raw: Seq<RawEntry>,
    p: crate::path::PathSpec,
)
    ensures
        shown_subdirs(raw).contains(p) <==> exists|i: int|
            {
                &&& 0 <= i < raw.len()
                &&& (#[trigger] raw[i]).is_dir
                &&& raw[i].path@ == p
                &&& raw[i].name@.len() == 0 || raw[i].name@[0] != '.'
            },
    decreases raw.len(),
{
    if raw.len() > 0 {
        let front = raw.drop_last();
        let f = shown_subdirs(front);
        let all = shown_subdirs(raw);
        folders_that_are_not_hidden_are_shown(front, p);
        let shown = |x: RawEntry|
            x.is_dir && x.path@ == p && (x.name@.len() == 0 || x.name@[0] != '.');
        assert(raw[raw.len() - 1] == raw.last());
        if f.contains(p) {
            let j = choose|j: int| 0 <= j < f.len() && f[j] == p;
            assert(all[j] == p);
            let i = choose|i: int|
                {
                    &&& 0 <= i < front.len()
                    &&& (#[trigger] front[i]).is_dir
                    &&& front[i].path@ == p
                    &&& front[i].name@.len() == 0 || front[i].name@[0] != '.'
                };
            assert(raw[i] == front[i]);
        }
        if shown(raw.last()) {
            assert(all[all.len() - 1] == p);
        }
        if all.contains(p) && !f.contains(p) {
            let j = choose|j: int| 0 <= j < all.len() && all[j] == p;
            if j < f.len() {
                assert(f[j] == p);
            }
            assert(shown(raw.last()));
        }
        if exists|i: int|
            {
                &&& 0 <= i < raw.len()
                &&& (#[trigger] raw[i]).is_dir
                &&& raw[i].path@ == p
                &&& raw[i].name@.len() == 0 || raw[i].name@[0] != '.'
            } {
            let i = choose|i: int|
                {
                    &&& 0 <= i < raw.len()
                    &&& (#[trigger] raw[i]).is_dir
                    &&& raw[i].path@ == p
                    &&& raw[i].name@.len() == 0 || raw[i].name@[0] != '.'
                };
            if i < front.len() {
                assert(front[i] == raw[i]);
            }
        }
    }
}

/// The folders that are found in a folder are all that are shown, in the order of their paths.
pub proof fn found_folders_are_in_order(
    raw: Seq<RawEntry>,
    found: Seq<crate::path::PathSpec>,
    p: crate::path::PathSpec,
)
    requires
        crate::sort::stable_sort_of(found, shown_subdirs(raw), path_before()),
    ensures
        found.len() == shown_subdirs(raw).len(),
        found.contains(p) <==> shown_subdirs(raw).contains(p),
        forall|i: int, j: int|
            0 <= i < j < found.len() ==> !crate::path::path_lt(
                (#[trigger] found[j]).parts,
                (#[trigger] found[i]).parts,
            ),
{
    assert forall|a: crate::path::PathSpec, b: crate::path::PathSpec| #[trigger]
        path_before()(a, b) implies !path_before()(b, a) by {
        crate::path::path_order_is_total(a.parts, b.parts);
    }
    crate::sort::sorting_keeps_all(found, shown_subdirs(raw), path_before());
    assert forall|i: int, j: int| 0 <= i < j < found.len() implies !crate::path::path_lt(
        (#[trigger] found[j]).parts,
        (#[trigger] found[i]).parts,
    ) by {
        assert(!path_before()(found[j], found[i]));
    }
}

/// A group bears the name of its folder and has all its media in their order, each with its label
/// and marked where it is a video. A folder without media has none.
pub proof fn a_group_has_the_media_of_its_folder(t: DirTree, i: int)
    requires
        0 <= i < t.images@.len(),
    ensures
        own_groups(t).len() == 1,
        ({
            let g = own_groups(t)[0];
            &&& g.path == t.path@
            &&& g.display_name == crate::path::name_or_text(t.path@)
            &&& g.images.len() == t.images@.len() && g.labels.len() == t.images@.len()
                && g.videos.len() == t.images@.len()
            &&& g.images[i] == t.images@[i].path@
            &&& g.labels[i] == crate::media::tile_label(t.images@[i].path@.parts)
            &&& g.videos[i] == crate::media::video_key(t.images@[i].path@.parts)
        }),
{
}

/// The snapshot of a folder has its media with their times and its folders, in their order.
pub proof fn a_snapshot_has_what_its_folder_has(t: DirTree, i: int)
    ensures
        snapshot_of(t).images.len() == t.images@.len(),
        snapshot_of(t).subdirs.len() == t.children@.len(),
        0 <= i < t.images@.len() ==> snapshot_of(t).images[i].path == t.images@[i].path@
            && snapshot_of(t).images[i].mtime == t.images@[i].mtime,
        0 <= i < t.children@.len() ==> snapshot_of(t).subdirs[i] == t.children@[i].path@,
{
}

/// The groups of a folder are its own, and then those of the folders in it, one folder after the
/// other.
pub proof fn groups_go_from_the_folder_to_those_below(t: DirTree, s: Seq<DirTree>, more: DirTree)
    ensures
        t.images@.len() == 0 ==> tree_groups(t) == forest_groups(t.children@),
        t.images@.len() > 0 ==> tree_groups(t).len() == forest_groups(t.children@).len() + 1
            && tree_groups(t)[0].path == t.path@ && tree_groups(t).skip(1) == forest_groups(
            t.children@,
        ),
        forest_groups(Seq::empty()).len() == 0,
        forest_groups(s.push(more)) == forest_groups(s) + tree_groups(more),
{
    assert(s.push(more).drop_last() =~= s);
    if t.images@.len() == 0 {
        assert(tree_groups(t) =~= forest_groups(t.children@));
    } else {
        assert(tree_groups(t).skip(1) =~= forest_groups(t.children@));
    }
}

/// The groups of a library stand in the order of the texts of their folders in lower case, none of
/// them is lost, and no folder has two.
pub proof fn library_groups_stand_by_their_texts(
    r: Seq<GroupSpec>,
    s: Seq<DirTree>,
    k: crate::path::PathKey,
)
    requires
        crate::sort::stable_sort_of(r, first_groups(forest_groups(s)), group_before()),
    ensures
        has_group(r, k) <==> exists|i: int| 0 <= i < s.len() && has_group(tree_groups(#[trigger] s[i]), k),
        forall|i: int, j: int|
            0 <= i < j < r.len() ==> !crate::text::text_lt(
                crate::text::lower_text((#[trigger] r[j]).path.text),
                crate::text::lower_text((#[trigger] r[i]).path.text),
            ),
        r.len() == first_groups(forest_groups(s)).len(),
{
    let f = first_groups(forest_groups(s));
    assert forall|a: GroupSpec, b: GroupSpec| #[trigger] group_before()(a, b) implies !group_before()(
        b,
        a,
    ) by {
        crate::text::text_order_is_total(
            crate::text::lower_text(a.path.text),
            crate::text::lower_text(b.path.text),
        );
    }
    crate::sort::sorting_keeps_all(r, f, group_before());
    assert forall|i: int, j: int| 0 <= i < j < r.len() implies !crate::text::text_lt(
        crate::text::lower_text((#[trigger] r[j]).path.text),
        crate::text::lower_text((#[trigger] r[i]).path.text),
    ) by {
        assert(!group_before()(r[j], r[i]));
    }
    if has_group(r, k) {
        let i = choose|i: int| 0 <= i < r.len() && (#[trigger] r[i]).path.parts == k;
        assert(r.contains(r[i]));
        let j = choose|j: int| 0 <= j < f.len() && f[j] == r[i];
        assert(f[j].path.parts == k);
    }
    if has_group(f, k) {
        let i = choose|i: int| 0 <= i < f.len() && (#[trigger] f[i]).path.parts == k;
        assert(f.contains(f[i]));
        let j = choose|j: int| 0 <= j < r.len() && r[j] == f[i];
        assert(r[j].path.parts == k);
    }
    each_folder_is_shown_once(forest_groups(s));
    assert(has_group(f, k) <==> has_group(forest_groups(s), k));
    groups_of_some_folder(s, k);
}

proof fn groups_of_some_folder(s: Seq<DirTree>, k: crate::path::PathKey)
    ensures
        has_group(forest_groups(s), k) <==> exists|i: int|
            0 <= i < s.len() && has_group(tree_groups(#[trigger] s[i]), k),
    decreases s.len(),
{
    if s.len() > 0 {
        let front = s.drop_last();
        groups_of_some_folder(front, k);
        let a = forest_groups(front);
        let b = tree_groups(s.last());
        let c = forest_groups(s);
        assert(s[s.len() - 1] == s.last());
        if has_group(c, k) {
            let i = choose|i: int| 0 <= i < c.len() && (#[trigger] c[i]).path.parts == k;
            if i < a.len() {
                assert(a[i].path.parts == k);
                let j = choose|j: int| 0 <= j < front.len() && has_group(tree_groups(#[trigger] front[j]), k);
                assert(s[j] == front[j]);
            } else {
                assert(b[i - a.len()].path.parts == k);
            }
        }
        if exists|i: int| 0 <= i < s.len() && has_group(tree_groups(#[trigger] s[i]), k) {
            let i = choose|i: int| 0 <= i < s.len() && has_group(tree_groups(#[trigger] s[i]), k);
            if i < front.len() {
                assert(front[i] == s[i]);
                let j = choose|j: int| 0 <= j < a.len() && (#[trigger] a[j]).path.parts == k;
                assert(c[j].path.parts == k);
            } else {
                let j = choose|j: int| 0 <= j < b.len() && (#[trigger] b[j]).path.parts == k;
                assert(c[a.len() + j].path.parts == k);
            }
        }
    }
}

proof fn paths_of_first_paths(s: Seq<crate::path::PathSpec>, k: crate::path::PathKey)
    ensures
        crate::pathmap::has_key(first_paths(s), k) <==> crate::pathmap::has_key(s, k),
        forall|i: int, j: int|
            0 <= i < j < first_paths(s).len() ==> (#[trigger] first_paths(s)[i]).parts != (
            #[trigger] first_paths(s)[j]).parts,
    decreases s.len(),
{
    if s.len() > 0 {
        let front = s.drop_last();
        let f = first_paths(front);
        let all = first_paths(s);
        paths_of_first_paths(front, k);
        assert(s[s.len() - 1] == s.last());
        if crate::pathmap::has_key(front, k) {
            let i = choose|i: int| 0 <= i < front.len() && (#[trigger] front[i]).parts == k;
            assert(s[i].parts == k);
            let j = choose|j: int| 0 <= j < f.len() && (#[trigger] f[j]).parts == k;
            assert(all[j].parts == k);
        }
        if crate::pathmap::has_key(s, k) && !crate::pathmap::has_key(front, k) {
            let i = choose|i: int| 0 <= i < s.len() && (#[trigger] s[i]).parts == k;
            if i < front.len() {
                assert(front[i].parts == k);
            }
            assert(all[all.len() - 1].parts == k);
        }
        if crate::pathmap::has_key(all, k) {
            let i = choose|i: int| 0 <= i < all.len() && (#[trigger] all[i]).parts == k;
            if i < f.len() {
                assert(f[i].parts == k);
            }
        }
        if !crate::pathmap::has_key(front, s.last().parts) {
            assert forall|i: int, j: int| 0 <= i < j < all.len() implies (#[trigger] all[i]).parts
                != (#[trigger] all[j]).parts by {
                assert(all[i] == f[i]);
                if j < f.len() {
                    assert(all[j] == f[j]);
                } else {
                    paths_of_first_paths(front, s.last().parts);
                    if f[i].parts == s.last().parts {
                        assert(crate::pathmap::has_key(f, s.last().parts));
                    }
                }
            }
        }
    }
}

proof fn subdirs_of_some_folder(s: Seq<DirTree>, k: crate::path::PathKey)
    ensures
        crate::pathmap::has_key(forest_subdirs(s), k) <==> exists|i: int, j: int|
            0 <= i < s.len() && 0 <= j < s[i].children@.len() && (
            #[trigger] s[i].children@[j]).path@.parts == k,
    decreases s.len(),
{
    if s.len() > 0 {
        let front = s.drop_last();
        subdirs_of_some_folder(front, k);
        let a = forest_subdirs(front);
        let b = tree_paths(s.last().children@);
        let c = forest_subdirs(s);
        assert(s[s.len() - 1] == s.last());
        if crate::pathmap::has_key(c, k) {
            let i = choose|i: int| 0 <= i < c.len() && (#[trigger] c[i]).parts == k;
            if i < a.len() {
                assert(a[i].parts == k);
                let (x, y) = choose|x: int, y: int|
                    0 <= x < front.len() && 0 <= y < front[x].children@.len() && (
                    #[trigger] front[x].children@[y]).path@.parts == k;
                assert(s[x].children@[y].path@.parts == k);
            } else {
                assert(s[s.len() - 1].children@[i - a.len()].path@.parts == k);
            }
        }
        if exists|i: int, j: int|
            0 <= i < s.len() && 0 <= j < s[i].children@.len() && (
            #[trigger] s[i].children@[j]).path@.parts == k {
            let (x, y) = choose|x: int, y: int|
                0 <= x < s.len() && 0 <= y < s[x].children@.len() && (
                #[trigger] s[x].children@[y]).path@.parts == k;
            if x < front.len() {
                assert(front[x].children@[y].path@.parts == k);
                let j = choose|j: int| 0 <= j < a.len() && (#[trigger] a[j]).parts == k;
                assert(c[j].parts == k);
            } else {
                assert(c[a.len() + y].parts == k);
            }
        }
    }
}

/// The folders listed for a library are those that lie directly in one of its folders, each once,
/// in the order of their texts in lower case.
pub proof fn library_folders_stand_by_their_texts(
    r: Seq<crate::path::PathSpec>,
    s: Seq<DirTree>,
    k: crate::path::PathKey,
)
    requires
        crate::sort::stable_sort_of(r, first_paths(forest_subdirs(s)), text_before()),
    ensures
        crate::pathmap::has_key(r, k) <==> exists|i: int, j: int|
            0 <= i < s.len() && 0 <= j < s[i].children@.len() && (
            #[trigger] s[i].children@[j]).path@.parts == k,
        forall|i: int, j: int|
            0 <= i < j < r.len() ==> !crate::text::text_lt(
                crate::text::lower_text((#[trigger] r[j]).text),
                crate::text::lower_text((#[trigger] r[i]).text),
            ),
{
    let f = first_paths(forest_subdirs(s));
    assert forall|a: crate::path::PathSpec, b: crate::path::PathSpec| #[trigger]
        text_before()(a, b) implies !text_before()(b, a) by {
        crate::text::text_order_is_total(
            crate::text::lower_text(a.text),
            crate::text::lower_text(b.text),
        );
    }
    crate::sort::sorting_keeps_all(r, f, text_before());
    assert forall|i: int, j: int| 0 <= i < j < r.len() implies !crate::text::text_lt(
        crate::text::lower_text((#[trigger] r[j]).text),
        crate::text::lower_text((#[trigger] r[i]).text),
    ) by {
        assert(!text_before()(r[j], r[i]));
    }
    paths_of_first_paths(forest_subdirs(s), k);
    subdirs_of_some_folder(s, k);
    if crate::pathmap::has_key(r, k) {
        let i = choose|i: int| 0 <= i < r.len() && (#[trigger] r[i]).parts == k;
        assert(r.contains(r[i]));
        let j = choose|j: int| 0 <= j < f.len() && f[j] == r[i];
        assert(f[j].parts == k);
    }
    if crate::pathmap::has_key(f, k) {
        let i = choose|i: int| 0 <= i < f.len() && (#[trigger] f[i]).parts == k;
        assert(f.contains(f[i]));
        let j = choose|j: int| 0 <= j < r.len() && r[j] == f[i];
        assert(r[j].parts == k);
    }
}

} // verus!
