//! What changed between two scans.

use vstd::prelude::*;

use crate::path::{compare_paths, MediaPath};
use crate::pathmap::{PathMap, PathSet};
use crate::scan::{
    absorb_snapshots, append_paths, make_group, merge_groups, merge_paths, push_group,
    record_snapshot, sort_groups, sort_paths_by_text, take_snapshot, DirSnapshot, DirTree,
    FolderGroup, FolderScan,
};
use crate::text::Rank;

verus! {

// ── One folder ───────────────────────────────────────────────────────────────

/// What a walk through two lists of entries, both from the first path to the last, finds in
/// the second and not in the first: entries of new paths, and of paths written since.
pub open spec fn walk_added(
    prev: Seq<crate::scan::EntrySpec>,
    cur: Seq<crate::scan::EntrySpec>,
) -> Seq<crate::path::PathSpec>
    decreases prev.len() + cur.len(),
{
    if cur.len() == 0 {
        Seq::empty()
    } else if prev.len() == 0 || crate::path::path_lt(cur[0].path.parts, prev[0].path.parts) {
        seq![cur[0].path] + walk_added(prev, cur.drop_first())
    } else if crate::path::path_lt(prev[0].path.parts, cur[0].path.parts) {
        walk_added(prev.drop_first(), cur)
    } else if prev[0].mtime != cur[0].mtime {
        seq![cur[0].path] + walk_added(prev.drop_first(), cur.drop_first())
    } else {
        walk_added(prev.drop_first(), cur.drop_first())
    }
}

/// What the same walk finds in the first list and not in the second: entries of paths that
/// are gone, and of paths written since.
pub open spec fn walk_removed(
    prev: Seq<crate::scan::EntrySpec>,
    cur: Seq<crate::scan::EntrySpec>,
) -> Seq<crate::path::PathSpec>
    decreases prev.len() + cur.len(),
{
    if prev.len() == 0 {
        Seq::empty()
    } else if cur.len() == 0 || crate::path::path_lt(prev[0].path.parts, cur[0].path.parts) {
        seq![prev[0].path] + walk_removed(prev.drop_first(), cur)
    } else if crate::path::path_lt(cur[0].path.parts, prev[0].path.parts) {
        walk_removed(prev, cur.drop_first())
    } else if prev[0].mtime != cur[0].mtime {
        seq![prev[0].path] + walk_removed(prev.drop_first(), cur.drop_first())
    } else {
        walk_removed(prev.drop_first(), cur.drop_first())
    }
}

/// The entries of a folder at the last scan; none where it was not scanned.
pub open spec fn entries_then(prev: Option<crate::scan::SnapSpec>) -> Seq<
    crate::scan::EntrySpec,
> {
    match prev {
        Some(s) => s.images,
        None => Seq::empty(),
    }
}

/// What an optional snapshot holds.
pub open spec fn snap_view(s: Option<&DirSnapshot>) -> Option<crate::scan::SnapSpec> {
    match s {
        Some(d) => Some(d@),
        None => None,
    }
}

proof fn add_first(
    m: Map<crate::path::PathKey, crate::path::PathSpec>,
    p: crate::path::PathSpec,
    rest: Seq<crate::path::PathSpec>,
)
    ensures
        crate::pathmap::add_paths(m, seq![p] + rest) == crate::pathmap::add_paths(
            crate::pathmap::add_path(m, p),
            rest,
        ),
{
    crate::pathmap::add_paths_in_turn(m, seq![p], rest);
    assert(seq![p].drop_last() =~= Seq::empty());
    assert(crate::pathmap::add_paths(m, Seq::empty()) == m);
}

/// Walks through the entries of a folder, at the last scan and now. Adds what is new or was
/// written since to one set, and what is gone or was written since to another.
pub fn diff_entries(
    prev: Option<&DirSnapshot>,
    current: &DirSnapshot,
    added_or_changed: &mut PathSet,
    removed: &mut PathSet,
)
    ensures
        final(added_or_changed).paths() == crate::pathmap::add_paths(
            old(added_or_changed).paths(),
            walk_added(entries_then(snap_view(prev)), current@.images),
        ),
        final(removed).paths() == crate::pathmap::add_paths(
            old(removed).paths(),
            walk_removed(entries_then(snap_view(prev)), current@.images),
        ),
{
    let ghost then = entries_then(snap_view(prev));
    let ghost now = current@.images;
    let ghost added_start = added_or_changed.paths();
    let ghost removed_start = removed.paths();
    let mut prev_idx: usize = 0;
    let mut curr_idx: usize = 0;
    let prev_len: usize = match prev {
        Some(p) => p.images.len(),
        None => 0,
    };
    let cur_len: usize = current.images.len();
    assert(then.skip(0) =~= then);
    assert(now.skip(0) =~= now);
    while prev_idx < prev_len || curr_idx < cur_len
        invariant
            then == entries_then(snap_view(prev)),
            now == current@.images,
            prev_len == then.len(),
            cur_len == now.len() == current.images@.len(),
            prev is Some ==> prev_len == prev->0.images@.len(),
            prev is None ==> prev_len == 0,
            prev_idx <= prev_len,
            curr_idx <= cur_len,
            crate::pathmap::add_paths(added_start, walk_added(then, now))
                == crate::pathmap::add_paths(
                added_or_changed.paths(),
                walk_added(then.skip(prev_idx as int), now.skip(curr_idx as int)),
            ),
            crate::pathmap::add_paths(removed_start, walk_removed(then, now))
                == crate::pathmap::add_paths(
                removed.paths(),
                walk_removed(then.skip(prev_idx as int), now.skip(curr_idx as int)),
            ),
        decreases prev_len - prev_idx + cur_len - curr_idx,
    {
        let ghost a = then.skip(prev_idx as int);
        let ghost b = now.skip(curr_idx as int);
        let ghost p = a[0];
        let ghost c = b[0];
        assert(prev_idx < prev_len ==> a.drop_first() =~= then.skip(prev_idx + 1));
        assert(curr_idx < cur_len ==> b.drop_first() =~= now.skip(curr_idx + 1));
        let old_entry = match prev {
            Some(s) => if prev_idx < s.images.len() {
                Some(&s.images[prev_idx])
            } else {
                None
            },
            None => None,
        };
        let new_entry = if curr_idx < current.images.len() {
            Some(&current.images[curr_idx])
        } else {
            None
        };
        proof {
            add_first(
                added_or_changed.paths(),
                c.path,
                walk_added(a, b.drop_first()),
            );
            add_first(
                added_or_changed.paths(),
                c.path,
                walk_added(a.drop_first(), b.drop_first()),
            );
            add_first(removed.paths(), p.path, walk_removed(a.drop_first(), b));
            add_first(
                removed.paths(),
                p.path,
                walk_removed(a.drop_first(), b.drop_first()),
            );
            crate::path::path_order_is_total(p.path.parts, c.path.parts);
        }
        match (old_entry, new_entry) {
            (Some(o), Some(n)) => {
                assert(o@ == p && n@ == c);
                match compare_paths(&o.path, &n.path) {
                    Rank::Less => {
                        removed.add(o.path.clone());
                        prev_idx = prev_idx + 1;
                    },
                    Rank::Greater => {
                        added_or_changed.add(n.path.clone());
                        curr_idx = curr_idx + 1;
                    },
                    Rank::Equal => {
                        if o.mtime != n.mtime {
                            removed.add(o.path.clone());
                            added_or_changed.add(n.path.clone());
                        }
                        prev_idx = prev_idx + 1;
                        curr_idx = curr_idx + 1;
                    },
                }
            },
            (Some(o), None) => {
                assert(o@ == p);
                removed.add(o.path.clone());
                prev_idx = prev_idx + 1;
            },
            (None, Some(n)) => {
                assert(n@ == c);
                added_or_changed.add(n.path.clone());
                curr_idx = curr_idx + 1;
            },
            (None, None) => {},
        }
    }
}

// ── Folders that are gone ────────────────────────────────────────────────────

/// The media of a folder and of the folders below it, as the snapshots know them, at most
/// `depth` folders deep.
pub open spec fn subtree_media(
    m: Map<crate::path::PathKey, crate::scan::SnapSpec>,
    k: crate::path::PathKey,
    depth: nat,
) -> Seq<crate::path::PathSpec>
    decreases depth, 0nat,
{
    if depth == 0 || !m.dom().contains(k) {
        Seq::empty()
    } else {
        crate::scan::entry_paths(m[k].images) + subtrees_media(
            m,
            m[k].subdirs,
            (depth - 1) as nat,
        )
    }
}

/// The media of a list of folders and of the folders below them.
pub open spec fn subtrees_media(
    m: Map<crate::path::PathKey, crate::scan::SnapSpec>,
    dirs: Seq<crate::path::PathSpec>,
    depth: nat,
) -> Seq<crate::path::PathSpec>
    decreases depth, 1 + dirs.len(),
{
    if dirs.len() == 0 {
        Seq::empty()
    } else {
        subtrees_media(m, dirs.drop_last(), depth) + subtree_media(m, dirs.last().parts, depth)
    }
}

/// The media of a folder and of all folders below it. No way down passes more folders than
/// there are snapshots without passing one twice.
pub open spec fn media_below(
    m: Map<crate::path::PathKey, crate::scan::SnapSpec>,
    k: crate::path::PathKey,
) -> Seq<crate::path::PathSpec> {
    subtree_media(m, k, m.dom().len())
}

fn add_entries(set: &mut PathSet, entries: &Vec<crate::scan::MediaEntry>)
    ensures
        final(set).paths() == crate::pathmap::add_paths(
            old(set).paths(),
            crate::scan::entry_paths(crate::scan::entries_view(entries@)),
        ),
{
    let ghost all = crate::scan::entry_paths(crate::scan::entries_view(entries@));
    let ghost start = set.paths();
    for i in 0..entries.len()
        invariant
            all == crate::scan::entry_paths(crate::scan::entries_view(entries@)),
            set.paths() == crate::pathmap::add_paths(start, all.take(i as int)),
    {
        set.add(entries[i].path.clone());
        assert(all.take(i + 1).drop_last() =~= all.take(i as int));
    }
    assert(all.take(all.len() as int) =~= all);
}

fn collect_to_depth(
    folder: &MediaPath,
    snapshots: &PathMap<DirSnapshot>,
    depth: usize,
    removed_media: &mut PathSet,
)
    ensures
        final(removed_media).paths() == crate::pathmap::add_paths(
            old(removed_media).paths(),
            subtree_media(crate::scan::snaps_view(snapshots@), folder.key(), depth as nat),
        ),
    decreases depth,
{
    if depth == 0 {
        return ;
    }
    let ghost m = crate::scan::snaps_view(snapshots@);
    let snapshot = match snapshots.get(folder) {
        Some(s) => s,
        None => {
            return ;
        },
    };
    let ghost start = removed_media.paths();
    let ghost own = crate::scan::entry_paths(snapshot@.images);
    add_entries(removed_media, &snapshot.images);
    let ghost dirs = snapshot@.subdirs;
    assert(m[folder.key()] == snapshot@);
    assert(own + subtrees_media(m, dirs.take(0), (depth - 1) as nat) =~= own);
    for i in 0..snapshot.subdirs.len()
        invariant
            depth > 0,
            m == crate::scan::snaps_view(snapshots@),
            dirs == snapshot@.subdirs,
            removed_media.paths() == crate::pathmap::add_paths(
                start,
                own + subtrees_media(m, dirs.take(i as int), (depth - 1) as nat),
            ),
    {
        collect_to_depth(&snapshot.subdirs[i], snapshots, depth - 1, removed_media);
        proof {
            let d = (depth - 1) as nat;
            let a = own + subtrees_media(m, dirs.take(i as int), d);
            let b = subtree_media(m, dirs[i as int].parts, d);
            crate::pathmap::add_paths_in_turn(start, a, b);
            assert(dirs.take(i + 1).drop_last() =~= dirs.take(i as int));
            assert(a + b =~= own + subtrees_media(m, dirs.take(i + 1), d));
        }
    }
    assert(dirs.take(dirs.len() as int) =~= dirs);
}

/// Adds the media of a folder that is gone, and of all folders below it.
pub fn collect_removed_subtree(
    folder: &MediaPath,
    snapshots: &PathMap<DirSnapshot>,
    removed_media: &mut PathSet,
)
    ensures
        final(removed_media).paths() == crate::pathmap::add_paths(
            old(removed_media).paths(),
            media_below(crate::scan::snaps_view(snapshots@), folder.key()),
        ),
{
    let depth: usize = snapshots.len();
    assert(crate::scan::snaps_view(snapshots@).dom() =~= snapshots@.dom());
    collect_to_depth(folder, snapshots, depth, removed_media);
}

// ── A folder and what lies below it ──────────────────────────────────────────

/// The snapshot of a folder, if there is one.
pub open spec fn snap_at(
    m: Map<crate::path::PathKey, crate::scan::SnapSpec>,
    k: crate::path::PathKey,
) -> Option<crate::scan::SnapSpec> {
    if m.dom().contains(k) {
        Some(m[k])
    } else {
        None
    }
}

/// The media below those folders of `dirs` that are not among `kept`.
pub open spec fn gone_media(
    m: Map<crate::path::PathKey, crate::scan::SnapSpec>,
    dirs: Seq<crate::path::PathSpec>,
    kept: Seq<crate::path::PathSpec>,
) -> Seq<crate::path::PathSpec>
    decreases dirs.len(),
{
    if dirs.len() == 0 {
        Seq::empty()
    } else if crate::pathmap::has_key(kept, dirs.last().parts) {
        gone_media(m, dirs.drop_last(), kept)
    } else {
        gone_media(m, dirs.drop_last(), kept) + media_below(m, dirs.last().parts)
    }
}

/// The subfolders of a folder at the last scan.
pub open spec fn subdirs_then(prev: Option<crate::scan::SnapSpec>) -> Seq<
    crate::path::PathSpec,
> {
    match prev {
        Some(s) => s.subdirs,
        None => Seq::empty(),
    }
}

/// What is gone from a folder itself: media, and subfolders with all that was below them.
pub open spec fn gone_here(
    m: Map<crate::path::PathKey, crate::scan::SnapSpec>,
    t: DirTree,
) -> Seq<crate::path::PathSpec> {
    walk_removed(
        entries_then(snap_at(m, t.path.key())),
        crate::scan::entries_view(t.images@),
    ) + gone_media(
        m,
        subdirs_then(snap_at(m, t.path.key())),
        crate::scan::tree_paths(t.children@),
    )
}

/// What is new in a folder itself.
pub open spec fn new_here(
    m: Map<crate::path::PathKey, crate::scan::SnapSpec>,
    t: DirTree,
) -> Seq<crate::path::PathSpec> {
    walk_added(entries_then(snap_at(m, t.path.key())), crate::scan::entries_view(t.images@))
}

/// What is new in a folder and below it, or was written since the snapshots `m`.
pub open spec fn tree_added(
    m: Map<crate::path::PathKey, crate::scan::SnapSpec>,
    t: DirTree,
) -> Seq<crate::path::PathSpec>
    decreases t,
{
    new_here(m, t) + forest_added(m, t.children@)
}

/// What is new in a list of folders and below them.
pub open spec fn forest_added(
    m: Map<crate::path::PathKey, crate::scan::SnapSpec>,
    s: Seq<DirTree>,
) -> Seq<crate::path::PathSpec>
    decreases s,
{
    if s.len() == 0 {
        Seq::empty()
    } else {
        forest_added(m, s.drop_last()) + tree_added(m, s.last())
    }
}

/// What is gone from a folder and from below it, or was written since the snapshots `m`.
pub open spec fn tree_removed(
    m: Map<crate::path::PathKey, crate::scan::SnapSpec>,
    t: DirTree,
) -> Seq<crate::path::PathSpec>
    decreases t,
{
    gone_here(m, t) + forest_removed(m, t.children@)
}

/// What is gone from a list of folders and from below them.
pub open spec fn forest_removed(
    m: Map<crate::path::PathKey, crate::scan::SnapSpec>,
    s: Seq<DirTree>,
) -> Seq<crate::path::PathSpec>
    decreases s,
{
    if s.len() == 0 {
        Seq::empty()
    } else {
        forest_removed(m, s.drop_last()) + tree_removed(m, s.last())
    }
}

/// Whether a path is among those of a list.
fn listed(list: &Vec<MediaPath>, path: &MediaPath) -> (r: bool)
    ensures
        r == crate::pathmap::has_key(crate::path::paths_view(list@), path.key()),
{
    let ghost v = crate::path::paths_view(list@);
    for i in 0..list.len()
        invariant
            v == crate::path::paths_view(list@),
            forall|j: int| 0 <= j < i ==> (#[trigger] v[j]).parts != path.key(),
    {
        if list[i].same(path) {
            assert(v[i as int].parts == path.key());
            return true;
        }
        assert(v[i as int].parts == list@[i as int].key());
    }
    false
}

/// Adds the media below those subfolders that the last scan saw and this one does not.
fn collect_gone(
    prev: Option<&DirSnapshot>,
    subdirs: &Vec<MediaPath>,
    prev_snapshots: &PathMap<DirSnapshot>,
    removed_media: &mut PathSet,
)
    ensures
        final(removed_media).paths() == crate::pathmap::add_paths(
            old(removed_media).paths(),
            gone_media(
                crate::scan::snaps_view(prev_snapshots@),
                subdirs_then(snap_view(prev)),
                crate::path::paths_view(subdirs@),
            ),
        ),
{
    let ghost m = crate::scan::snaps_view(prev_snapshots@);
    let ghost kept = crate::path::paths_view(subdirs@);
    let ghost start = removed_media.paths();
    if let Some(p) = prev {
        let ghost dirs = p@.subdirs;
        assert(gone_media(m, dirs.take(0), kept) =~= Seq::empty());
        for i in 0..p.subdirs.len()
            invariant
                m == crate::scan::snaps_view(prev_snapshots@),
                kept == crate::path::paths_view(subdirs@),
                dirs == p@.subdirs,
                removed_media.paths() == crate::pathmap::add_paths(
                    start,
                    gone_media(m, dirs.take(i as int), kept),
                ),
        {
            let dir = &p.subdirs[i];
            assert(dirs.take(i + 1).drop_last() =~= dirs.take(i as int));
            if !listed(subdirs, dir) {
                proof {
                    crate::pathmap::add_paths_in_turn(
                        start,
                        gone_media(m, dirs.take(i as int), kept),
                        media_below(m, dir.key()),
                    );
                }
                collect_removed_subtree(dir, prev_snapshots, removed_media);
            }
        }
        assert(dirs.take(dirs.len() as int) =~= dirs);
    }
}

/// Adds what a folder and all that lies below it show, and what changed there since the last
/// scan.
pub fn scan_folder_diff_recursive(
    tree: &DirTree,
    depth: usize,
    prev_snapshots: &PathMap<DirSnapshot>,
    snapshots: &mut PathMap<DirSnapshot>,
    direct_subdirs: &mut Vec<MediaPath>,
    groups: &mut Vec<FolderGroup>,
    added_or_changed: &mut PathSet,
    removed_media: &mut PathSet,
)
    ensures
        crate::path::paths_view(final(direct_subdirs)@) == crate::path::paths_view(
            old(direct_subdirs)@,
        ) + (if depth == 0 {
            crate::scan::tree_paths(tree.children@)
        } else {
            Seq::empty()
        }),
        crate::scan::groups_view(final(groups)@) == crate::scan::groups_view(old(groups)@)
            + crate::scan::tree_groups(*tree),
        crate::scan::snaps_view(final(snapshots)@) == crate::scan::tree_snaps(
            crate::scan::snaps_view(old(snapshots)@),
            *tree,
        ),
        final(added_or_changed).paths() == crate::pathmap::add_paths(
            old(added_or_changed).paths(),
            tree_added(crate::scan::snaps_view(prev_snapshots@), *tree),
        ),
        final(removed_media).paths() == crate::pathmap::add_paths(
            old(removed_media).paths(),
            tree_removed(crate::scan::snaps_view(prev_snapshots@), *tree),
        ),
    decreases tree,
{
    let ghost m = crate::scan::snaps_view(prev_snapshots@);
    let ghost direct_before = crate::path::paths_view(direct_subdirs@);
    let ghost groups_before = crate::scan::groups_view(groups@);
    let ghost added_start = added_or_changed.paths();
    let ghost removed_start = removed_media.paths();
    let current = take_snapshot(tree);
    let prev = prev_snapshots.get(&tree.path);
    assert(snap_view(prev) == snap_at(m, tree.path.key()));
    diff_entries(prev, &current, added_or_changed, removed_media);
    if tree.images.len() > 0 {
        push_group(groups, make_group(&tree.path, &tree.images));
    }
    assert(crate::scan::groups_view(groups@) =~= groups_before + crate::scan::own_groups(*tree));
    if depth == 0 {
        append_paths(direct_subdirs, &current.subdirs);
    }
    assert(crate::path::paths_view(direct_subdirs@) =~= direct_before + (if depth == 0 {
        crate::scan::tree_paths(tree.children@)
    } else {
        Seq::empty()
    }));
    proof {
        crate::pathmap::add_paths_in_turn(
            removed_start,
            walk_removed(
                entries_then(snap_at(m, tree.path.key())),
                crate::scan::entries_view(tree.images@),
            ),
            gone_media(
                m,
                subdirs_then(snap_at(m, tree.path.key())),
                crate::scan::tree_paths(tree.children@),
            ),
        );
    }
    collect_gone(prev, &current.subdirs, prev_snapshots, removed_media);
    record_snapshot(snapshots, &tree.path, current);
    let ghost snaps_start = crate::scan::snaps_view(snapshots@);
    let ghost kids = tree.children@;
    let ghost direct_now = crate::path::paths_view(direct_subdirs@);
    let ghost added_now = new_here(m, *tree);
    let ghost removed_now = gone_here(m, *tree);
    assert(added_now + forest_added(m, kids.take(0)) =~= added_now);
    assert(removed_now + forest_removed(m, kids.take(0)) =~= removed_now);
    for i in 0..tree.children.len()
        invariant
            kids == tree.children@,
            m == crate::scan::snaps_view(prev_snapshots@),
            crate::path::paths_view(direct_subdirs@) == direct_now,
            crate::scan::groups_view(groups@) == groups_before + crate::scan::own_groups(*tree)
                + crate::scan::forest_groups(kids.take(i as int)),
            crate::scan::snaps_view(snapshots@) == crate::scan::forest_snaps(
                snaps_start,
                kids.take(i as int),
            ),
            added_or_changed.paths() == crate::pathmap::add_paths(
                added_start,
                added_now + forest_added(m, kids.take(i as int)),
            ),
            removed_media.paths() == crate::pathmap::add_paths(
                removed_start,
                removed_now + forest_removed(m, kids.take(i as int)),
            ),
    {
        let child = &tree.children[i];
        let ghost next = kids.take(i + 1);
        assert(next.drop_last() =~= kids.take(i as int));
        assert(next.last() == kids[i as int]);
        assert(decreases_to!(tree => kids[i as int]));
        scan_folder_diff_recursive(
            child,
            if depth == usize::MAX {
                depth
            } else {
                depth + 1
            },
            prev_snapshots,
            snapshots,
            direct_subdirs,
            groups,
            added_or_changed,
            removed_media,
        );
        proof {
            assert(crate::path::paths_view(direct_subdirs@) =~= direct_now);
            assert(crate::scan::groups_view(groups@) =~= groups_before + crate::scan::own_groups(
                *tree,
            ) + crate::scan::forest_groups(next));
            let a = added_now + forest_added(m, kids.take(i as int));
            crate::pathmap::add_paths_in_turn(added_start, a, tree_added(m, kids[i as int]));
            assert(a + tree_added(m, kids[i as int]) =~= added_now + forest_added(m, next));
            let b = removed_now + forest_removed(m, kids.take(i as int));
            crate::pathmap::add_paths_in_turn(removed_start, b, tree_removed(m, kids[i as int]));
            assert(b + tree_removed(m, kids[i as int]) =~= removed_now + forest_removed(m, next));
        }
    }
    assert(kids.take(kids.len() as int) =~= kids);
    assert(crate::scan::groups_view(groups@) =~= groups_before + crate::scan::tree_groups(*tree));
}

/// Scans a folder and all that lies below it, and tells what changed since the snapshots of
/// the last scan.
pub fn scan_folder_diff(tree: &DirTree, prev_snapshots: &PathMap<DirSnapshot>) -> (r: FolderScan)
    ensures
        crate::path::paths_view(r.direct_subdirs@) == crate::scan::tree_paths(tree.children@),
        crate::scan::groups_view(r.groups@) == crate::scan::tree_groups(*tree),
        crate::scan::snaps_view(r.snapshots@) == crate::scan::tree_snaps(Map::empty(), *tree),
        crate::pathmap::lists(
            crate::path::paths_view(r.changed_media@),
            crate::pathmap::add_paths(
                Map::empty(),
                tree_added(crate::scan::snaps_view(prev_snapshots@), *tree),
            ),
        ),
        crate::pathmap::lists(
            crate::path::paths_view(r.removed_media@),
            crate::pathmap::add_paths(
                Map::empty(),
                tree_removed(crate::scan::snaps_view(prev_snapshots@), *tree),
            ),
        ),
{
    let mut direct_subdirs: Vec<MediaPath> = Vec::new();
    let mut groups: Vec<FolderGroup> = Vec::new();
    let mut snapshots: PathMap<DirSnapshot> = PathMap::new();
    let mut added_or_changed: PathSet = PathMap::new();
    let mut removed_media: PathSet = PathMap::new();
    assert(crate::path::paths_view(direct_subdirs@) =~= Seq::empty());
    assert(crate::scan::groups_view(groups@) =~= Seq::empty());
    assert(crate::scan::snaps_view(snapshots@) =~= Map::empty());
    scan_folder_diff_recursive(
        tree,
        0,
        prev_snapshots,
        &mut snapshots,
        &mut direct_subdirs,
        &mut groups,
        &mut added_or_changed,
        &mut removed_media,
    );
    assert(crate::path::paths_view(direct_subdirs@) =~= crate::scan::tree_paths(tree.children@));
    assert(crate::scan::groups_view(groups@) =~= crate::scan::tree_groups(*tree));
    FolderScan {
        direct_subdirs,
        groups,
        snapshots,
        changed_media: added_or_changed.to_list(),
        removed_media: removed_media.to_list(),
    }
}

// ── A library ────────────────────────────────────────────────────────────────

/// Scans the folders of a library, and tells what changed since the snapshots of the last
/// scan.
pub fn scan_library_diff(
    folders: &Vec<DirTree>,
    prev_snapshots: &PathMap<DirSnapshot>,
) -> (r: FolderScan)
    ensures
        crate::sort::stable_sort_of(
            crate::path::paths_view(r.direct_subdirs@),
            crate::scan::first_paths(crate::scan::forest_subdirs(folders@)),
            crate::scan::text_before(),
        ),
        crate::sort::stable_sort_of(
            crate::scan::groups_view(r.groups@),
            crate::scan::first_groups(crate::scan::forest_groups(folders@)),
            crate::scan::group_before(),
        ),
        crate::scan::snaps_view(r.snapshots@) == crate::scan::library_snaps(folders@),
        crate::pathmap::lists(
            crate::path::paths_view(r.changed_media@),
            crate::pathmap::add_paths(
                Map::empty(),
                forest_added(crate::scan::snaps_view(prev_snapshots@), folders@),
            ),
        ),
        crate::pathmap::lists(
            crate::path::paths_view(r.removed_media@),
            crate::pathmap::add_paths(
                Map::empty(),
                forest_removed(crate::scan::snaps_view(prev_snapshots@), folders@),
            ),
        ),
{
    let mut groups: Vec<FolderGroup> = Vec::new();
    let mut direct_subdirs: Vec<MediaPath> = Vec::new();
    let mut snapshots: PathMap<DirSnapshot> = PathMap::new();
    let mut seen_groups: PathSet = PathMap::new();
    let mut seen_subdirs: PathSet = PathMap::new();
    let mut changed: PathSet = PathMap::new();
    let mut removed: PathSet = PathMap::new();
    let ghost all = folders@;
    let ghost m = crate::scan::snaps_view(prev_snapshots@);
    assert(crate::scan::groups_view(groups@) =~= crate::scan::first_groups(
        crate::scan::forest_groups(all.take(0)),
    ));
    assert(crate::path::paths_view(direct_subdirs@) =~= crate::scan::first_paths(
        crate::scan::forest_subdirs(all.take(0)),
    ));
    assert(crate::scan::snaps_view(snapshots@) =~= crate::scan::library_snaps(all.take(0)));
    for i in 0..folders.len()
        invariant
            all == folders@,
            m == crate::scan::snaps_view(prev_snapshots@),
            crate::scan::groups_view(groups@) == crate::scan::first_groups(
                crate::scan::forest_groups(all.take(i as int)),
            ),
            forall|k: crate::path::PathKey| #[trigger]
                seen_groups@.dom().contains(k) <==> crate::scan::has_group(
                    crate::scan::forest_groups(all.take(i as int)),
                    k,
                ),
            crate::path::paths_view(direct_subdirs@) == crate::scan::first_paths(
                crate::scan::forest_subdirs(all.take(i as int)),
            ),
            forall|k: crate::path::PathKey| #[trigger]
                seen_subdirs@.dom().contains(k) <==> crate::pathmap::has_key(
                    crate::scan::forest_subdirs(all.take(i as int)),
                    k,
                ),
            crate::scan::snaps_view(snapshots@) == crate::scan::library_snaps(all.take(i as int)),
            changed.paths() == crate::pathmap::add_paths(
                Map::empty(),
                forest_added(m, all.take(i as int)),
            ),
            removed.paths() == crate::pathmap::add_paths(
                Map::empty(),
                forest_removed(m, all.take(i as int)),
            ),
    {
        let scan = scan_folder_diff(&folders[i], prev_snapshots);
        proof {
            crate::scan::forest_groups_step(all, i as int);
        }
        merge_paths(
            &mut direct_subdirs,
            scan.direct_subdirs,
            &mut seen_subdirs,
            Ghost(crate::scan::forest_subdirs(all.take(i as int))),
        );
        merge_groups(
            &mut groups,
            scan.groups,
            &mut seen_groups,
            Ghost(crate::scan::forest_groups(all.take(i as int))),
        );
        changed.add_all(&scan.changed_media);
        removed.add_all(&scan.removed_media);
        proof {
            assert(all.take(i + 1).drop_last() =~= all.take(i as int));
            assert(all.take(i + 1).last() == all[i as int]);
            crate::pathmap::listed_paths_in_turn(
                Map::empty(),
                forest_added(m, all.take(i as int)),
                tree_added(m, all[i as int]),
                crate::path::paths_view(scan.changed_media@),
            );
            crate::pathmap::listed_paths_in_turn(
                Map::empty(),
                forest_removed(m, all.take(i as int)),
                tree_removed(m, all[i as int]),
                crate::path::paths_view(scan.removed_media@),
            );
        }
        absorb_snapshots(&mut snapshots, scan.snapshots);
    }
    assert(all.take(all.len() as int) =~= all);
    FolderScan {
        direct_subdirs: sort_paths_by_text(direct_subdirs),
        groups: sort_groups(groups),
        snapshots,
        changed_media: changed.to_list(),
        removed_media: removed.to_list(),
    }
}

// ── What holds of every scan ─────────────────────────────────────────────────

/// Entries from the first path to the last, none twice.
pub open spec fn entries_in_order(s: Seq<crate::scan::EntrySpec>) -> bool {
    forall|i: int, j: int|
        0 <= i < j < s.len() ==> crate::path::path_lt(
            (#[trigger] s[i]).path.parts,
            (#[trigger] s[j]).path.parts,
        )
}

/// The list has an entry of the same path that was written at the same time.
pub open spec fn unchanged_in(
    s: Seq<crate::scan::EntrySpec>,
    e: crate::scan::EntrySpec,
) -> bool {
    exists|i: int|
        0 <= i < s.len() && (#[trigger] s[i]).path.parts == e.path.parts && s[i].mtime == e.mtime
}

/// Some entry of `s` with this path is not unchanged in `other`.
pub open spec fn changed_path(
    s: Seq<crate::scan::EntrySpec>,
    other: Seq<crate::scan::EntrySpec>,
    p: crate::path::PathSpec,
) -> bool {
    exists|j: int| 0 <= j < s.len() && (#[trigger] s[j]).path == p && !unchanged_in(other, s[j])
}

proof fn unchanged_by_parts(s: Seq<crate::scan::EntrySpec>, e: crate::scan::EntrySpec)
    requires
        s.len() > 0,
    ensures
        unchanged_in(s, e) <==> (s[0].path.parts == e.path.parts && s[0].mtime == e.mtime)
            || unchanged_in(s.drop_first(), e),
{
    let t = s.drop_first();
    if unchanged_in(s, e) {
        let i = choose|i: int|
            0 <= i < s.len() && (#[trigger] s[i]).path.parts == e.path.parts && s[i].mtime
                == e.mtime;
        if i > 0 {
            assert(t[i - 1] == s[i]);
        }
    }
    if unchanged_in(t, e) {
        let i = choose|i: int|
            0 <= i < t.len() && (#[trigger] t[i]).path.parts == e.path.parts && t[i].mtime
                == e.mtime;
        assert(s[i + 1] == t[i]);
    }
}

proof fn later_is_not_unchanged(s: Seq<crate::scan::EntrySpec>, e: crate::scan::EntrySpec)
    requires
        entries_in_order(s),
        s.len() == 0 || crate::path::path_lt(e.path.parts, s[0].path.parts),
    ensures
        !unchanged_in(s, e),
{
    if unchanged_in(s, e) {
        let i = choose|i: int|
            0 <= i < s.len() && (#[trigger] s[i]).path.parts == e.path.parts && s[i].mtime
                == e.mtime;
        if i > 0 {
            crate::path::path_order_is_transitive(
                e.path.parts,
                s[0].path.parts,
                s[i].path.parts,
            );
        }
        crate::path::path_order_is_total(e.path.parts, s[i].path.parts);
    }
}

proof fn changed_by_parts(
    s: Seq<crate::scan::EntrySpec>,
    other: Seq<crate::scan::EntrySpec>,
    p: crate::path::PathSpec,
)
    requires
        s.len() > 0,
    ensures
        changed_path(s, other, p) <==> (s[0].path == p && !unchanged_in(other, s[0]))
            || changed_path(s.drop_first(), other, p),
{
    let t = s.drop_first();
    if changed_path(s, other, p) {
        let j = choose|j: int|
            0 <= j < s.len() && (#[trigger] s[j]).path == p && !unchanged_in(other, s[j]);
        if j > 0 {
            assert(t[j - 1] == s[j]);
        }
    }
    if changed_path(t, other, p) {
        let j = choose|j: int|
            0 <= j < t.len() && (#[trigger] t[j]).path == p && !unchanged_in(other, t[j]);
        assert(s[j + 1] == t[j]);
    }
}

proof fn contains_first(
    x: crate::path::PathSpec,
    rest: Seq<crate::path::PathSpec>,
    p: crate::path::PathSpec,
)
    ensures
        (seq![x] + rest).contains(p) <==> x == p || rest.contains(p),
{
    let all = seq![x] + rest;
    if all.contains(p) {
        let i = choose|i: int| 0 <= i < all.len() && all[i] == p;
        if i > 0 {
            assert(rest[i - 1] == p);
        }
    }
    if x == p {
        assert(all[0] == p);
    }
    if rest.contains(p) {
        let i = choose|i: int| 0 <= i < rest.len() && rest[i] == p;
        assert(all[i + 1] == p);
    }
}

proof fn rest_in_order(s: Seq<crate::scan::EntrySpec>)
    requires
        entries_in_order(s),
        s.len() > 0,
    ensures
        entries_in_order(s.drop_first()),
        forall|i: int|
            0 <= i < s.drop_first().len() ==> crate::path::path_lt(
                s[0].path.parts,
                (#[trigger] s.drop_first()[i]).path.parts,
            ),
{
    let t = s.drop_first();
    assert forall|i: int, j: int| 0 <= i < j < t.len() implies crate::path::path_lt(
        (#[trigger] t[i]).path.parts,
        (#[trigger] t[j]).path.parts,
    ) by {
        assert(t[i] == s[i + 1] && t[j] == s[j + 1]);
    }
    assert forall|i: int| 0 <= i < t.len() implies crate::path::path_lt(
        s[0].path.parts,
        (#[trigger] t[i]).path.parts,
    ) by {
        assert(t[i] == s[i + 1]);
    }
}

/// Dropping the first entry of `other` changes nothing for entries that stand behind it.
proof fn first_does_not_matter(
    s: Seq<crate::scan::EntrySpec>,
    other: Seq<crate::scan::EntrySpec>,
    p: crate::path::PathSpec,
)
    requires
        other.len() > 0,
        forall|j: int|
            0 <= j < s.len() ==> crate::path::path_lt(
                other[0].path.parts,
                (#[trigger] s[j]).path.parts,
            ),
    ensures
        changed_path(s, other, p) <==> changed_path(s, other.drop_first(), p),
{
    assert forall|j: int| 0 <= j < s.len() implies unchanged_in(other, #[trigger] s[j])
        == unchanged_in(other.drop_first(), s[j]) by {
        unchanged_by_parts(other, s[j]);
        crate::path::path_order_is_total(other[0].path.parts, s[j].path.parts);
    }
    if changed_path(s, other, p) {
        let j = choose|j: int|
            0 <= j < s.len() && (#[trigger] s[j]).path == p && !unchanged_in(other, s[j]);
        assert(!unchanged_in(other.drop_first(), s[j]));
    }
    if changed_path(s, other.drop_first(), p) {
        let j = choose|j: int|
            0 <= j < s.len() && (#[trigger] s[j]).path == p && !unchanged_in(
                other.drop_first(),
                s[j],
            );
        assert(!unchanged_in(other, s[j]));
    }
}

proof fn behind_first(s: Seq<crate::scan::EntrySpec>, e: crate::scan::EntrySpec)
    requires
        entries_in_order(s),
        s.len() > 0,
        crate::path::path_lt(e.path.parts, s[0].path.parts),
    ensures
        forall|i: int|
            0 <= i < s.len() ==> crate::path::path_lt(
                e.path.parts,
                (#[trigger] s[i]).path.parts,
            ),
{
    assert forall|i: int| 0 <= i < s.len() implies crate::path::path_lt(
        e.path.parts,
        (#[trigger] s[i]).path.parts,
    ) by {
        if i > 0 {
            crate::path::path_order_is_transitive(
                e.path.parts,
                s[0].path.parts,
                s[i].path.parts,
            );
        }
    }
}

/// Of two lists of entries in order, the walk reports as new exactly the entries of the
/// second that the first does not have with the same time, and as gone exactly the entries
/// of the first that the second does not have with the same time.
pub proof fn diff_finds_every_change(
    prev: Seq<crate::scan::EntrySpec>,
    cur: Seq<crate::scan::EntrySpec>,
    p: crate::path::PathSpec,
)
    requires
        entries_in_order(prev),
        entries_in_order(cur),
    ensures
        walk_added(prev, cur).contains(p) <==> changed_path(cur, prev, p),
        walk_removed(prev, cur).contains(p) <==> changed_path(prev, cur, p),
    decreases prev.len() + cur.len(),
{
    if prev.len() == 0 && cur.len() == 0 {
    } else if cur.len() == 0 {
        rest_in_order(prev);
        diff_finds_every_change(prev.drop_first(), cur, p);
        contains_first(prev[0].path, walk_removed(prev.drop_first(), cur), p);
        changed_by_parts(prev, cur, p);
    } else if prev.len() == 0 {
        rest_in_order(cur);
        diff_finds_every_change(prev, cur.drop_first(), p);
        contains_first(cur[0].path, walk_added(prev, cur.drop_first()), p);
        changed_by_parts(cur, prev, p);
    } else {
        rest_in_order(prev);
        rest_in_order(cur);
        crate::path::path_order_is_total(prev[0].path.parts, cur[0].path.parts);
        if crate::path::path_lt(cur[0].path.parts, prev[0].path.parts) {
            diff_finds_every_change(prev, cur.drop_first(), p);
            contains_first(cur[0].path, walk_added(prev, cur.drop_first()), p);
            changed_by_parts(cur, prev, p);
            later_is_not_unchanged(prev, cur[0]);
            behind_first(prev, cur[0]);
            first_does_not_matter(prev, cur, p);
        } else if crate::path::path_lt(prev[0].path.parts, cur[0].path.parts) {
            diff_finds_every_change(prev.drop_first(), cur, p);
            contains_first(prev[0].path, walk_removed(prev.drop_first(), cur), p);
            changed_by_parts(prev, cur, p);
            later_is_not_unchanged(cur, prev[0]);
            behind_first(cur, prev[0]);
            first_does_not_matter(cur, prev, p);
        } else {
            let a = prev.drop_first();
            let b = cur.drop_first();
            diff_finds_every_change(a, b, p);
            contains_first(cur[0].path, walk_added(a, b), p);
            contains_first(prev[0].path, walk_removed(a, b), p);
            changed_by_parts(cur, prev, p);
            changed_by_parts(prev, cur, p);
            first_does_not_matter(b, prev, p);
            first_does_not_matter(a, cur, p);
            unchanged_by_parts(prev, cur[0]);
            unchanged_by_parts(cur, prev[0]);
            later_is_not_unchanged(a, cur[0]);
            later_is_not_unchanged(b, prev[0]);
        }
    }
}

proof fn same_entries_do_not_differ(s: Seq<crate::scan::EntrySpec>)
    ensures
        walk_added(s, s) == Seq::<crate::path::PathSpec>::empty(),
        walk_removed(s, s) == Seq::<crate::path::PathSpec>::empty(),
    decreases s.len(),
{
    if s.len() > 0 {
        crate::path::path_order_is_total(s[0].path.parts, s[0].path.parts);
        same_entries_do_not_differ(s.drop_first());
    }
}

/// The snapshots hold a folder and all folders below it as they are.
pub open spec fn recorded(
    m: Map<crate::path::PathKey, crate::scan::SnapSpec>,
    t: DirTree,
) -> bool
    decreases t,
{
    &&& m.dom().contains(t.path.key())
    &&& m[t.path.key()] == crate::scan::snapshot_of(t)
    &&& all_recorded(m, t.children@)
}

/// The snapshots hold each folder of a list, and all folders below it, as they are.
pub open spec fn all_recorded(
    m: Map<crate::path::PathKey, crate::scan::SnapSpec>,
    s: Seq<DirTree>,
) -> bool
    decreases s,
{
    s.len() == 0 || (all_recorded(m, s.drop_last()) && recorded(m, s.last()))
}

proof fn nothing_gone(
    m: Map<crate::path::PathKey, crate::scan::SnapSpec>,
    dirs: Seq<crate::path::PathSpec>,
    kept: Seq<crate::path::PathSpec>,
)
    requires
        forall|i: int|
            0 <= i < dirs.len() ==> crate::pathmap::has_key(kept, (#[trigger] dirs[i]).parts),
    ensures
        gone_media(m, dirs, kept) == Seq::<crate::path::PathSpec>::empty(),
    decreases dirs.len(),
{
    if dirs.len() > 0 {
        let front = dirs.drop_last();
        assert forall|i: int| 0 <= i < front.len() implies crate::pathmap::has_key(
            kept,
            (#[trigger] front[i]).parts,
        ) by {
            assert(front[i] == dirs[i]);
        }
        assert(dirs.last() == dirs[dirs.len() - 1]);
        nothing_gone(m, front, kept);
    }
}

/// A scan that finds a folder and all that lies below it as the snapshots have them reports
/// no change.
pub proof fn unchanged_folders_do_not_differ(
    m: Map<crate::path::PathKey, crate::scan::SnapSpec>,
    t: DirTree,
)
    requires
        recorded(m, t),
    ensures
        tree_added(m, t) == Seq::<crate::path::PathSpec>::empty(),
        tree_removed(m, t) == Seq::<crate::path::PathSpec>::empty(),
    decreases t,
{
    same_entries_do_not_differ(crate::scan::entries_view(t.images@));
    let dirs = crate::scan::tree_paths(t.children@);
    assert forall|i: int| 0 <= i < dirs.len() implies crate::pathmap::has_key(
        dirs,
        (#[trigger] dirs[i]).parts,
    ) by {}
    nothing_gone(m, dirs, dirs);
    unchanged_forests_do_not_differ(m, t.children@);
    assert(tree_added(m, t) =~= Seq::empty());
    assert(tree_removed(m, t) =~= Seq::empty());
}

proof fn unchanged_forests_do_not_differ(
    m: Map<crate::path::PathKey, crate::scan::SnapSpec>,
    s: Seq<DirTree>,
)
    requires
        all_recorded(m, s),
    ensures
        forest_added(m, s) == Seq::<crate::path::PathSpec>::empty(),
        forest_removed(m, s) == Seq::<crate::path::PathSpec>::empty(),
    decreases s,
{
    if s.len() > 0 {
        unchanged_forests_do_not_differ(m, s.drop_last());
        unchanged_folders_do_not_differ(m, s.last());
        assert(forest_added(m, s) =~= Seq::empty());
        assert(forest_removed(m, s) =~= Seq::empty());
    }
}

/// The folders of a tree, parents first.
pub open spec fn tree_keys(t: DirTree) -> Seq<crate::path::PathKey>
    decreases t,
{
    seq![t.path.key()] + forest_keys(t.children@)
}

/// The folders of a list of trees.
pub open spec fn forest_keys(s: Seq<DirTree>) -> Seq<crate::path::PathKey>
    decreases s,
{
    if s.len() == 0 {
        Seq::empty()
    } else {
        forest_keys(s.drop_last()) + tree_keys(s.last())
    }
}

/// Two maps agree on the keys of a list.
spec fn agree(
    a: Map<crate::path::PathKey, crate::scan::SnapSpec>,
    b: Map<crate::path::PathKey, crate::scan::SnapSpec>,
    keys: Seq<crate::path::PathKey>,
) -> bool {
    forall|k: crate::path::PathKey| #[trigger]
        keys.contains(k) ==> (a.dom().contains(k) <==> b.dom().contains(k)) && a[k] == b[k]
}

pub(crate) proof fn contains_of_sum(
    a: Seq<crate::path::PathKey>,
    b: Seq<crate::path::PathKey>,
    k: crate::path::PathKey,
)
    ensures
        (a + b).contains(k) <==> a.contains(k) || b.contains(k),
{
    let c = a + b;
    if c.contains(k) {
        let i = choose|i: int| 0 <= i < c.len() && c[i] == k;
        if i < a.len() {
            assert(a[i] == k);
        } else {
            assert(b[i - a.len()] == k);
        }
    }
    if a.contains(k) {
        let i = choose|i: int| 0 <= i < a.len() && a[i] == k;
        assert(c[i] == k);
    }
    if b.contains(k) {
        let i = choose|i: int| 0 <= i < b.len() && b[i] == k;
        assert(c[a.len() + i] == k);
    }
}

proof fn recorded_by_agreement(
    a: Map<crate::path::PathKey, crate::scan::SnapSpec>,
    b: Map<crate::path::PathKey, crate::scan::SnapSpec>,
    t: DirTree,
)
    requires
        recorded(a, t),
        agree(a, b, tree_keys(t)),
    ensures
        recorded(b, t),
    decreases t,
{
    assert(tree_keys(t)[0] == t.path.key());
    assert(tree_keys(t).contains(t.path.key()));
    assert forall|k: crate::path::PathKey| #[trigger]
        forest_keys(t.children@).contains(k) implies (a.dom().contains(k) <==> b.dom().contains(
        k,
    )) && a[k] == b[k] by {
        contains_of_sum(seq![t.path.key()], forest_keys(t.children@), k);
        assert(tree_keys(t).contains(k));
    }
    all_recorded_by_agreement(a, b, t.children@);
}

proof fn all_recorded_by_agreement(
    a: Map<crate::path::PathKey, crate::scan::SnapSpec>,
    b: Map<crate::path::PathKey, crate::scan::SnapSpec>,
    s: Seq<DirTree>,
)
    requires
        all_recorded(a, s),
        agree(a, b, forest_keys(s)),
    ensures
        all_recorded(b, s),
    decreases s,
{
    if s.len() > 0 {
        assert forall|k: crate::path::PathKey| #[trigger]
            forest_keys(s.drop_last()).contains(k) implies (a.dom().contains(k)
            <==> b.dom().contains(k)) && a[k] == b[k] by {
            contains_of_sum(forest_keys(s.drop_last()), tree_keys(s.last()), k);
            assert(forest_keys(s).contains(k));
        }
        assert forall|k: crate::path::PathKey| #[trigger] tree_keys(s.last()).contains(k) implies (
        a.dom().contains(k) <==> b.dom().contains(k)) && a[k] == b[k] by {
            contains_of_sum(forest_keys(s.drop_last()), tree_keys(s.last()), k);
            assert(forest_keys(s).contains(k));
        }
        all_recorded_by_agreement(a, b, s.drop_last());
        recorded_by_agreement(a, b, s.last());
    }
}

proof fn no_duplicates_by_parts(a: Seq<crate::path::PathKey>, b: Seq<crate::path::PathKey>)
    requires
        (a + b).no_duplicates(),
    ensures
        a.no_duplicates(),
        b.no_duplicates(),
        forall|k: crate::path::PathKey| #[trigger] a.contains(k) ==> !b.contains(k),
{
    let c = a + b;
    assert forall|i: int, j: int| 0 <= i < a.len() && 0 <= j < a.len() && i != j implies a[i]
        != a[j] by {
        assert(c[i] == a[i] && c[j] == a[j]);
    }
    assert forall|i: int, j: int| 0 <= i < b.len() && 0 <= j < b.len() && i != j implies b[i]
        != b[j] by {
        assert(c[a.len() + i] == b[i] && c[a.len() + j] == b[j]);
    }
    assert forall|k: crate::path::PathKey| #[trigger] a.contains(k) implies !b.contains(k) by {
        if b.contains(k) {
            let i = choose|i: int| 0 <= i < a.len() && a[i] == k;
            let j = choose|j: int| 0 <= j < b.len() && b[j] == k;
            assert(c[i] == k && c[a.len() + j] == k);
        }
    }
}

/// Recording folders leaves other folders alone.
pub(crate) proof fn recording_is_local(
    m: Map<crate::path::PathKey, crate::scan::SnapSpec>,
    t: DirTree,
    k: crate::path::PathKey,
)
    requires
        !tree_keys(t).contains(k),
    ensures
        crate::scan::tree_snaps(m, t).dom().contains(k) <==> m.dom().contains(k),
        crate::scan::tree_snaps(m, t)[k] == m[k],
    decreases t,
{
    contains_of_sum(seq![t.path.key()], forest_keys(t.children@), k);
    assert(seq![t.path.key()][0] == t.path.key());
    assert(k != t.path.key());
    let n = m.insert(t.path.key(), crate::scan::snapshot_of(t));
    recording_all_is_local(n, t.children@, k);
    assert(n[k] == m[k]);
}

proof fn recording_all_is_local(
    m: Map<crate::path::PathKey, crate::scan::SnapSpec>,
    s: Seq<DirTree>,
    k: crate::path::PathKey,
)
    requires
        !forest_keys(s).contains(k),
    ensures
        crate::scan::forest_snaps(m, s).dom().contains(k) <==> m.dom().contains(k),
        crate::scan::forest_snaps(m, s)[k] == m[k],
    decreases s,
{
    if s.len() > 0 {
        contains_of_sum(forest_keys(s.drop_last()), tree_keys(s.last()), k);
        recording_all_is_local(m, s.drop_last(), k);
        recording_is_local(crate::scan::forest_snaps(m, s.drop_last()), s.last(), k);
    }
}

pub(crate) proof fn recording_records(
    m: Map<crate::path::PathKey, crate::scan::SnapSpec>,
    t: DirTree,
)
    requires
        tree_keys(t).no_duplicates(),
    ensures
        recorded(crate::scan::tree_snaps(m, t), t),
    decreases t,
{
    let k = t.path.key();
    let n = m.insert(k, crate::scan::snapshot_of(t));
    no_duplicates_by_parts(seq![k], forest_keys(t.children@));
    assert(seq![k][0] == k);
    assert(seq![k].contains(k));
    recording_all_records(n, t.children@);
    recording_all_is_local(n, t.children@, k);
}

proof fn recording_all_records(
    m: Map<crate::path::PathKey, crate::scan::SnapSpec>,
    s: Seq<DirTree>,
)
    requires
        forest_keys(s).no_duplicates(),
    ensures
        all_recorded(crate::scan::forest_snaps(m, s), s),
    decreases s,
{
    if s.len() > 0 {
        let front = s.drop_last();
        let a = crate::scan::forest_snaps(m, front);
        let b = crate::scan::forest_snaps(m, s);
        no_duplicates_by_parts(forest_keys(front), tree_keys(s.last()));
        recording_all_records(m, front);
        recording_records(a, s.last());
        assert forall|k: crate::path::PathKey| #[trigger] forest_keys(front).contains(k) implies (
        a.dom().contains(k) <==> b.dom().contains(k)) && a[k] == b[k] by {
            recording_is_local(a, s.last(), k);
        }
        all_recorded_by_agreement(a, b, front);
    }
}

/// Scanning folders that stayed as they were, each reached once, against the snapshots of
/// the scan before, reports no change.
pub proof fn rescan_of_unchanged_folders_finds_nothing(t: DirTree)
    requires
        tree_keys(t).no_duplicates(),
    ensures
        tree_added(crate::scan::tree_snaps(Map::empty(), t), t) == Seq::<
            crate::path::PathSpec,
        >::empty(),
        tree_removed(crate::scan::tree_snaps(Map::empty(), t), t) == Seq::<
            crate::path::PathSpec,
        >::empty(),
{
    recording_records(Map::empty(), t);
    unchanged_folders_do_not_differ(crate::scan::tree_snaps(Map::empty(), t), t);
}

proof fn all_is_new(s: Seq<crate::scan::EntrySpec>)
    ensures
        walk_added(Seq::empty(), s) == crate::scan::entry_paths(s),
        walk_removed(Seq::empty(), s) == Seq::<crate::path::PathSpec>::empty(),
    decreases s.len(),
{
    if s.len() > 0 {
        all_is_new(s.drop_first());
        assert(crate::scan::entry_paths(s) =~= seq![s[0].path] + crate::scan::entry_paths(
            s.drop_first(),
        ));
    } else {
        assert(crate::scan::entry_paths(s) =~= Seq::empty());
    }
}

/// All media of a folder and of those below it, folder by folder.
pub open spec fn tree_media(t: DirTree) -> Seq<crate::path::PathSpec>
    decreases t,
{
    crate::scan::entry_paths(crate::scan::entries_view(t.images@)) + forest_media(t.children@)
}

/// All media of a list of folders and of those below them.
pub open spec fn forest_media(s: Seq<DirTree>) -> Seq<crate::path::PathSpec>
    decreases s,
{
    if s.len() == 0 {
        Seq::empty()
    } else {
        forest_media(s.drop_last()) + tree_media(s.last())
    }
}

/// Against no snapshots, everything is new and nothing is gone.
pub proof fn first_scan_finds_everything_new(t: DirTree)
    ensures
        tree_added(Map::empty(), t) == tree_media(t),
        tree_removed(Map::empty(), t) == Seq::<crate::path::PathSpec>::empty(),
    decreases t,
{
    all_is_new(crate::scan::entries_view(t.images@));
    first_scan_of_all(t.children@);
    assert(tree_removed(Map::empty(), t) =~= Seq::empty());
}

proof fn first_scan_of_all(s: Seq<DirTree>)
    ensures
        forest_added(Map::empty(), s) == forest_media(s),
        forest_removed(Map::empty(), s) == Seq::<crate::path::PathSpec>::empty(),
    decreases s,
{
    if s.len() > 0 {
        first_scan_of_all(s.drop_last());
        first_scan_finds_everything_new(s.last());
        assert(forest_removed(Map::empty(), s) =~= Seq::empty());
    }
}

/// A way down through folders that the snapshots know, each a subfolder of the one before.
pub open spec fn way_down(
    m: Map<crate::path::PathKey, crate::scan::SnapSpec>,
    c: Seq<crate::path::PathKey>,
) -> bool {
    &&& c.len() > 0
    &&& forall|i: int| 0 <= i < c.len() ==> m.dom().contains(#[trigger] c[i])
    &&& forall|i: int|
        0 < i < c.len() ==> crate::pathmap::has_key(m[c[i - 1]].subdirs, #[trigger] c[i])
}

/// A way down from a folder leads to one that holds this media file.
pub open spec fn leads_to(
    m: Map<crate::path::PathKey, crate::scan::SnapSpec>,
    c: Seq<crate::path::PathKey>,
    k: crate::path::PathKey,
    p: crate::path::PathSpec,
) -> bool {
    way_down(m, c) && c[0] == k && crate::scan::entry_paths(m[c.last()].images).contains(p)
}

pub(crate) proof fn contains_of_paths(
    a: Seq<crate::path::PathSpec>,
    b: Seq<crate::path::PathSpec>,
    p: crate::path::PathSpec,
)
    ensures
        (a + b).contains(p) <==> a.contains(p) || b.contains(p),
{
    let c = a + b;
    if c.contains(p) {
        let i = choose|i: int| 0 <= i < c.len() && c[i] == p;
        if i < a.len() {
            assert(a[i] == p);
        } else {
            assert(b[i - a.len()] == p);
        }
    }
    if a.contains(p) {
        let i = choose|i: int| 0 <= i < a.len() && a[i] == p;
        assert(c[i] == p);
    }
    if b.contains(p) {
        let i = choose|i: int| 0 <= i < b.len() && b[i] == p;
        assert(c[a.len() + i] == p);
    }
}

proof fn media_of_some_subtree(
    m: Map<crate::path::PathKey, crate::scan::SnapSpec>,
    dirs: Seq<crate::path::PathSpec>,
    depth: nat,
    p: crate::path::PathSpec,
)
    ensures
        subtrees_media(m, dirs, depth).contains(p) <==> exists|i: int|
            0 <= i < dirs.len() && subtree_media(m, (#[trigger] dirs[i]).parts, depth).contains(p),
    decreases dirs.len(),
{
    if dirs.len() > 0 {
        let front = dirs.drop_last();
        media_of_some_subtree(m, front, depth, p);
        contains_of_paths(
            subtrees_media(m, front, depth),
            subtree_media(m, dirs.last().parts, depth),
            p,
        );
        if subtrees_media(m, front, depth).contains(p) {
            let i = choose|i: int|
                0 <= i < front.len() && subtree_media(
                    m,
                    (#[trigger] front[i]).parts,
                    depth,
                ).contains(p);
            assert(dirs[i] == front[i]);
        }
        if subtree_media(m, dirs.last().parts, depth).contains(p) {
            assert(dirs[dirs.len() - 1] == dirs.last());
        }
        if exists|i: int|
            0 <= i < dirs.len() && subtree_media(m, (#[trigger] dirs[i]).parts, depth).contains(
                p,
            ) {
            let i = choose|i: int|
                0 <= i < dirs.len() && subtree_media(
                    m,
                    (#[trigger] dirs[i]).parts,
                    depth,
                ).contains(p);
            if i < front.len() {
                assert(front[i] == dirs[i]);
            }
        }
    }
}

proof fn found_by_some_way(
    m: Map<crate::path::PathKey, crate::scan::SnapSpec>,
    k: crate::path::PathKey,
    depth: nat,
    p: crate::path::PathSpec,
) -> (c: Seq<crate::path::PathKey>)
    requires
        subtree_media(m, k, depth).contains(p),
    ensures
        leads_to(m, c, k, p),
    decreases depth,
{
    let own = crate::scan::entry_paths(m[k].images);
    let below = subtrees_media(m, m[k].subdirs, (depth - 1) as nat);
    contains_of_paths(own, below, p);
    if own.contains(p) {
        let c = seq![k];
        assert(c.last() == k);
        c
    } else {
        let dirs = m[k].subdirs;
        let d = (depth - 1) as nat;
        media_of_some_subtree(m, dirs, d, p);
        let i = choose|i: int|
            0 <= i < dirs.len() && subtree_media(m, (#[trigger] dirs[i]).parts, d).contains(p);
        let rest = found_by_some_way(m, dirs[i].parts, d, p);
        let c = seq![k] + rest;
        assert forall|j: int| 0 <= j < c.len() implies m.dom().contains(#[trigger] c[j]) by {
            if j > 0 {
                assert(c[j] == rest[j - 1]);
            }
        }
        assert forall|j: int| 0 < j < c.len() implies crate::pathmap::has_key(
            m[c[j - 1]].subdirs,
            #[trigger] c[j],
        ) by {
            assert(c[j] == rest[j - 1]);
            if j > 1 {
                assert(c[j - 1] == rest[j - 2]);
            } else {
                assert(dirs[i].parts == c[j]);
            }
        }
        assert(c.last() == rest.last());
        c
    }
}

proof fn short_way_is_found(
    m: Map<crate::path::PathKey, crate::scan::SnapSpec>,
    c: Seq<crate::path::PathKey>,
    k: crate::path::PathKey,
    depth: nat,
    p: crate::path::PathSpec,
)
    requires
        leads_to(m, c, k, p),
        c.len() <= depth,
    ensures
        subtree_media(m, k, depth).contains(p),
    decreases depth,
{
    let own = crate::scan::entry_paths(m[k].images);
    let d = (depth - 1) as nat;
    let dirs = m[k].subdirs;
    contains_of_paths(own, subtrees_media(m, dirs, d), p);
    assert(m.dom().contains(c[0]));
    if c.len() == 1 {
        assert(c.last() == k);
    } else {
        let rest = c.drop_first();
        assert forall|j: int| 0 <= j < rest.len() implies m.dom().contains(#[trigger] rest[j]) by {
            assert(rest[j] == c[j + 1]);
        }
        assert forall|j: int| 0 < j < rest.len() implies crate::pathmap::has_key(
            m[rest[j - 1]].subdirs,
            #[trigger] rest[j],
        ) by {
            assert(rest[j] == c[j + 1] && rest[j - 1] == c[j]);
        }
        assert(rest.last() == c.last());
        short_way_is_found(m, rest, c[1], d, p);
        assert(crate::pathmap::has_key(m[c[0]].subdirs, c[1]));
        let i = choose|i: int| 0 <= i < dirs.len() && (#[trigger] dirs[i]).parts == c[1];
        assert(subtree_media(m, dirs[i].parts, d).contains(p));
        media_of_some_subtree(m, dirs, d, p);
    }
}

proof fn way_without_turning_back(
    m: Map<crate::path::PathKey, crate::scan::SnapSpec>,
    c: Seq<crate::path::PathKey>,
    k: crate::path::PathKey,
    p: crate::path::PathSpec,
) -> (r: Seq<crate::path::PathKey>)
    requires
        leads_to(m, c, k, p),
    ensures
        leads_to(m, r, k, p),
        r.no_duplicates(),
    decreases c.len(),
{
    if c.no_duplicates() {
        c
    } else {
        let (x, y) = choose|x: int, y: int|
            0 <= x < c.len() && 0 <= y < c.len() && x != y && c[x] == c[y];
        let i = if x < y { x } else { y };
        let j = if x < y { y } else { x };
        let t = c.take(i) + c.skip(j);
        assert forall|n: int| 0 <= n < t.len() implies m.dom().contains(#[trigger] t[n]) by {
            if n < i {
                assert(t[n] == c[n]);
            } else {
                assert(t[n] == c[n - i + j]);
            }
        }
        assert forall|n: int| 0 < n < t.len() implies crate::pathmap::has_key(
            m[t[n - 1]].subdirs,
            #[trigger] t[n],
        ) by {
            if n < i {
                assert(t[n] == c[n] && t[n - 1] == c[n - 1]);
            } else if n == i {
                assert(t[n] == c[j] && c[j] == c[i] && t[n - 1] == c[i - 1]);
            } else {
                assert(t[n] == c[n - i + j] && t[n - 1] == c[n - i + j - 1]);
            }
        }
        assert(t.last() == c.last());
        assert(t[0] == c[0]);
        way_without_turning_back(m, t, k, p)
    }
}

/// The media reported for a folder that is gone are those of every folder that some way down
/// leads to, and no others.
pub proof fn nothing_below_is_missed(
    m: Map<crate::path::PathKey, crate::scan::SnapSpec>,
    k: crate::path::PathKey,
    p: crate::path::PathSpec,
)
    requires
        m.dom().finite(),
    ensures
        media_below(m, k).contains(p) <==> exists|c: Seq<crate::path::PathKey>| #[trigger]
            leads_to(m, c, k, p),
{
    if media_below(m, k).contains(p) {
        let c = found_by_some_way(m, k, m.dom().len(), p);
        assert(leads_to(m, c, k, p));
    }
    if exists|c: Seq<crate::path::PathKey>| #[trigger] leads_to(m, c, k, p) {
        let c = choose|c: Seq<crate::path::PathKey>| #[trigger] leads_to(m, c, k, p);
        let r = way_without_turning_back(m, c, k, p);
        r.unique_seq_to_set();
        assert(r.to_set().subset_of(m.dom()));
        vstd::set_lib::lemma_len_subset(r.to_set(), m.dom());
        short_way_is_found(m, r, k, m.dom().len(), p);
    }
}

} // verus!
