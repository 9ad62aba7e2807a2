//! Folders as they are read, and what holds of the scans of such folders as a whole.

use vstd::prelude::*;

use crate::path::{PathKey, PathSpec};
use crate::scan::{DirTree, EntrySpec, GroupSpec, SnapSpec};

verus! {

// ── Folders as they are read ─────────────────────────────────────────────────

/// A path lies directly in a folder.
pub open spec fn directly_in(p: PathKey, folder: PathKey) -> bool {
    p.len() > 0 && p.drop_last() == folder
}

/// A path lies in a folder or in one below it.
pub open spec fn inside(p: PathKey, folder: PathKey) -> bool {
    p.len() > 0 && crate::path::key_starts_with(p.drop_last(), folder)
}

/// Paths from the first to the last, none twice.
pub open spec fn paths_in_order(s: Seq<PathSpec>) -> bool {
    forall|i: int, j: int|
        0 <= i < j < s.len() ==> crate::path::path_lt(
            (#[trigger] s[i]).parts,
            (#[trigger] s[j]).parts,
        )
}

/// What a folder holds, as it is read: its media and its subfolders, both in order, none
/// twice, and all directly in it.
pub open spec fn folder_as_read(
    k: PathKey,
    images: Seq<EntrySpec>,
    subdirs: Seq<PathSpec>,
) -> bool {
    &&& crate::diff::entries_in_order(images)
    &&& forall|i: int|
        0 <= i < images.len() ==> crate::media::media_key((#[trigger] images[i]).path.parts)
            && directly_in(images[i].path.parts, k)
    &&& paths_in_order(subdirs)
    &&& forall|i: int| 0 <= i < subdirs.len() ==> directly_in((#[trigger] subdirs[i]).parts, k)
}

/// A folder and all folders below it are as they are read.
pub open spec fn as_read(t: DirTree) -> bool
    decreases t,
{
    folder_as_read(
        t.path.key(),
        crate::scan::entries_view(t.images@),
        crate::scan::tree_paths(t.children@),
    ) && all_as_read(t.children@)
}

/// The folders of a list, and all folders below them, are as they are read.
pub open spec fn all_as_read(s: Seq<DirTree>) -> bool
    decreases s,
{
    s.len() == 0 || (all_as_read(s.drop_last()) && as_read(s.last()))
}

proof fn each_as_read(s: Seq<DirTree>, i: int)
    requires
        all_as_read(s),
        0 <= i < s.len(),
    ensures
        as_read(s[i]),
    decreases s.len(),
{
    if i < s.len() - 1 {
        each_as_read(s.drop_last(), i);
    }
}

/// The media files of a folder that is read, sorted, and its subfolders, sorted, are as a
/// folder is read, where the entries that were read have different paths in the folder.
pub proof fn reading_gives_folders_as_read(
    k: PathKey,
    raw: Seq<crate::scan::RawEntry>,
    images: Seq<EntrySpec>,
    subdirs: Seq<PathSpec>,
)
    requires
        forall|i: int| 0 <= i < raw.len() ==> directly_in((#[trigger] raw[i]).path.key(), k),
        forall|i: int, j: int|
            0 <= i < j < raw.len() ==> (#[trigger] raw[i]).path.key() != (
            #[trigger] raw[j]).path.key(),
        crate::sort::stable_sort_of(
            images,
            crate::scan::shown_entries(raw),
            crate::scan::entry_before(),
        ),
        crate::sort::stable_sort_of(
            subdirs,
            crate::scan::shown_subdirs(raw),
            crate::scan::path_before(),
        ),
    ensures
        folder_as_read(k, images, subdirs),
{
    shown_entries_differ(raw);
    shown_subdirs_differ(raw);
    let s = crate::scan::shown_entries(raw);
    let a = choose|places: Seq<int>| #[trigger]
        crate::sort::order_of(places, s, crate::scan::entry_before()) && images
            == crate::sort::at_places(s, places);
    assert forall|i: int| 0 <= i < images.len() implies crate::media::media_key(
        (#[trigger] images[i]).path.parts,
    ) && directly_in(images[i].path.parts, k) by {
        let n = shown_entry_is_raw(raw, a[i]);
        assert(images[i] == s[a[i]]);
    }
    assert forall|i: int, j: int| 0 <= i < j < images.len() implies crate::path::path_lt(
        (#[trigger] images[i]).path.parts,
        (#[trigger] images[j]).path.parts,
    ) by {
        assert(images[i] == s[a[i]] && images[j] == s[a[j]]);
        assert(a[i] != a[j]);
        crate::path::path_order_is_total(images[i].path.parts, images[j].path.parts);
    }
    let d = crate::scan::shown_subdirs(raw);
    let b = choose|places: Seq<int>| #[trigger]
        crate::sort::order_of(places, d, crate::scan::path_before()) && subdirs
            == crate::sort::at_places(d, places);
    assert forall|i: int| 0 <= i < subdirs.len() implies directly_in(
        (#[trigger] subdirs[i]).parts,
        k,
    ) by {
        let n = shown_subdir_is_raw(raw, b[i]);
        assert(subdirs[i] == d[b[i]]);
    }
    assert forall|i: int, j: int| 0 <= i < j < subdirs.len() implies crate::path::path_lt(
        (#[trigger] subdirs[i]).parts,
        (#[trigger] subdirs[j]).parts,
    ) by {
        assert(subdirs[i] == d[b[i]] && subdirs[j] == d[b[j]]);
        assert(b[i] != b[j]);
        crate::path::path_order_is_total(subdirs[i].parts, subdirs[j].parts);
    }
}

proof fn shown_entry_is_raw(raw: Seq<crate::scan::RawEntry>, i: int) -> (n: int)
    requires
        0 <= i < crate::scan::shown_entries(raw).len(),
    ensures
        0 <= n < raw.len(),
        crate::scan::shown_entries(raw)[i].path == raw[n].path@,
        crate::scan::shown_entry(raw[n]),
    decreases raw.len(),
{
    let front = crate::scan::shown_entries(raw.drop_last());
    if i < front.len() {
        shown_entry_is_raw(raw.drop_last(), i)
    } else {
        raw.len() - 1
    }
}

proof fn shown_subdir_is_raw(raw: Seq<crate::scan::RawEntry>, i: int) -> (n: int)
    requires
        0 <= i < crate::scan::shown_subdirs(raw).len(),
    ensures
        0 <= n < raw.len(),
        crate::scan::shown_subdirs(raw)[i] == raw[n].path@,
    decreases raw.len(),
{
    let front = crate::scan::shown_subdirs(raw.drop_last());
    if i < front.len() {
        shown_subdir_is_raw(raw.drop_last(), i)
    } else {
        raw.len() - 1
    }
}

proof fn shown_entries_differ(raw: Seq<crate::scan::RawEntry>)
    requires
        forall|i: int, j: int|
            0 <= i < j < raw.len() ==> (#[trigger] raw[i]).path.key() != (
            #[trigger] raw[j]).path.key(),
    ensures
        forall|i: int, j: int|
            0 <= i < crate::scan::shown_entries(raw).len() && 0 <= j < crate::scan::shown_entries(
                raw,
            ).len() && i != j ==> (#[trigger] crate::scan::shown_entries(raw)[i]).path.parts != (
            #[trigger] crate::scan::shown_entries(raw)[j]).path.parts,
    decreases raw.len(),
{
    if raw.len() > 0 {
        let front = raw.drop_last();
        assert forall|i: int, j: int| 0 <= i < j < front.len() implies (
        #[trigger] front[i]).path.key() != (#[trigger] front[j]).path.key() by {
            assert(front[i] == raw[i] && front[j] == raw[j]);
        }
        shown_entries_differ(front);
        let s = crate::scan::shown_entries(raw);
        let f = crate::scan::shown_entries(front);
        assert forall|i: int, j: int|
            0 <= i < s.len() && 0 <= j < s.len() && i != j implies (#[trigger] s[i]).path.parts != (
        #[trigger] s[j]).path.parts by {
            if i < f.len() {
                let n = shown_entry_is_raw(front, i);
                assert(s[i] == f[i] && front[n] == raw[n]);
            }
            if j < f.len() {
                let n = shown_entry_is_raw(front, j);
                assert(s[j] == f[j] && front[n] == raw[n]);
            }
        }
    }
}

proof fn shown_subdirs_differ(raw: Seq<crate::scan::RawEntry>)
    requires
        forall|i: int, j: int|
            0 <= i < j < raw.len() ==> (#[trigger] raw[i]).path.key() != (
            #[trigger] raw[j]).path.key(),
    ensures
        forall|i: int, j: int|
            0 <= i < crate::scan::shown_subdirs(raw).len() && 0 <= j < crate::scan::shown_subdirs(
                raw,
            ).len() && i != j ==> (#[trigger] crate::scan::shown_subdirs(raw)[i]).parts != (
            #[trigger] crate::scan::shown_subdirs(raw)[j]).parts,
    decreases raw.len(),
{
    if raw.len() > 0 {
        let front = raw.drop_last();
        assert forall|i: int, j: int| 0 <= i < j < front.len() implies (
        #[trigger] front[i]).path.key() != (#[trigger] front[j]).path.key() by {
            assert(front[i] == raw[i] && front[j] == raw[j]);
        }
        shown_subdirs_differ(front);
        let s = crate::scan::shown_subdirs(raw);
        let f = crate::scan::shown_subdirs(front);
        assert forall|i: int, j: int|
            0 <= i < s.len() && 0 <= j < s.len() && i != j implies (#[trigger] s[i]).parts != (
        #[trigger] s[j]).parts by {
            if i < f.len() {
                let n = shown_subdir_is_raw(front, i);
                assert(s[i] == f[i] && front[n] == raw[n]);
            }
            if j < f.len() {
                let n = shown_subdir_is_raw(front, j);
                assert(s[j] == f[j] && front[n] == raw[n]);
            }
        }
    }
}

// ── Each folder once ─────────────────────────────────────────────────────────

proof fn starts_with_itself(k: PathKey)
    ensures
        crate::path::key_starts_with(k, k),
{
    assert(k.take(k.len() as int) =~= k);
}

proof fn starts_in_turn(a: PathKey, b: PathKey, c: PathKey)
    requires
        crate::path::key_starts_with(a, b),
        crate::path::key_starts_with(b, c),
    ensures
        crate::path::key_starts_with(a, c),
{
    assert(a.take(c.len() as int) =~= b.take(c.len() as int));
}

proof fn starts_with_its_folder(p: PathKey, k: PathKey)
    requires
        directly_in(p, k),
    ensures
        crate::path::key_starts_with(p, k),
        inside(p, k),
        p.len() == k.len() + 1,
{
    assert(p.take(k.len() as int) =~= p.drop_last());
    starts_with_itself(k);
}

/// The subfolder of `k` that a folder below it lies in, or is.
proof fn first_below(f: PathKey, k: PathKey)
    requires
        crate::path::key_starts_with(f, k),
        f.len() > k.len(),
    ensures
        directly_in(f.take(k.len() as int + 1), k),
        crate::path::key_starts_with(f, f.take(k.len() as int + 1)),
{
    let c = f.take(k.len() as int + 1);
    assert(c.drop_last() =~= f.take(k.len() as int));
}

spec fn below_one_of(x: PathKey, s: Seq<DirTree>) -> bool {
    exists|i: int| 0 <= i < s.len() && crate::path::key_starts_with(
        x,
        (#[trigger] s[i]).path.key(),
    )
}

/// In folders as they are read no folder is reached twice, and all lie below the first.
pub proof fn folders_are_reached_once(t: DirTree)
    requires
        as_read(t),
    ensures
        crate::diff::tree_keys(t).no_duplicates(),
        forall|x: PathKey| #[trigger]
            crate::diff::tree_keys(t).contains(x) ==> crate::path::key_starts_with(x, t.path.key()),
    decreases t,
{
    let k = t.path.key();
    let kids = t.children@;
    let rest = crate::diff::forest_keys(kids);
    let dirs = crate::scan::tree_paths(kids);
    assert forall|i: int| 0 <= i < kids.len() implies directly_in(
        (#[trigger] kids[i]).path.key(),
        k,
    ) by {
        assert(dirs[i].parts == kids[i].path.key());
    }
    assert forall|i: int, j: int| 0 <= i < j < kids.len() implies (#[trigger] kids[i]).path.key()
        != (#[trigger] kids[j]).path.key() by {
        assert(dirs[i].parts == kids[i].path.key() && dirs[j].parts == kids[j].path.key());
        crate::path::path_order_is_total(dirs[i].parts, dirs[j].parts);
    }
    folders_of_all_are_reached_once(kids, k);
    let all = crate::diff::tree_keys(t);
    assert forall|x: PathKey| #[trigger] all.contains(x) implies crate::path::key_starts_with(
        x,
        k,
    ) by {
        crate::diff::contains_of_sum(seq![k], rest, x);
        starts_with_itself(k);
        if rest.contains(x) {
            let i = choose|i: int|
                0 <= i < kids.len() && crate::path::key_starts_with(
                    x,
                    (#[trigger] kids[i]).path.key(),
                );
            starts_with_its_folder(kids[i].path.key(), k);
            starts_in_turn(x, kids[i].path.key(), k);
        } else {
            assert(seq![k].contains(x));
        }
    }
    assert(!rest.contains(k)) by {
        if rest.contains(k) {
            let i = choose|i: int|
                0 <= i < kids.len() && crate::path::key_starts_with(
                    k,
                    (#[trigger] kids[i]).path.key(),
                );
            starts_with_its_folder(kids[i].path.key(), k);
        }
    }
    assert forall|i: int, j: int|
        0 <= i < all.len() && 0 <= j < all.len() && i != j implies all[i] != all[j] by {
        if i > 0 {
            assert(all[i] == rest[i - 1]);
        }
        if j > 0 {
            assert(all[j] == rest[j - 1]);
        }
    }
}

proof fn folders_of_all_are_reached_once(s: Seq<DirTree>, k: PathKey)
    requires
        all_as_read(s),
        forall|i: int| 0 <= i < s.len() ==> directly_in((#[trigger] s[i]).path.key(), k),
        forall|i: int, j: int|
            0 <= i < j < s.len() ==> (#[trigger] s[i]).path.key() != (#[trigger] s[j]).path.key(),
    ensures
        crate::diff::forest_keys(s).no_duplicates(),
        forall|x: PathKey| #[trigger]
            crate::diff::forest_keys(s).contains(x) ==> below_one_of(x, s),
    decreases s,
{
    if s.len() > 0 {
        let front = s.drop_last();
        let a = crate::diff::forest_keys(front);
        let b = crate::diff::tree_keys(s.last());
        let top = s.last().path.key();
        assert forall|i: int| 0 <= i < front.len() implies directly_in(
            (#[trigger] front[i]).path.key(),
            k,
        ) by {
            assert(front[i] == s[i]);
        }
        assert forall|i: int, j: int| 0 <= i < j < front.len() implies (
        #[trigger] front[i]).path.key() != (#[trigger] front[j]).path.key() by {
            assert(front[i] == s[i] && front[j] == s[j]);
        }
        folders_of_all_are_reached_once(front, k);
        folders_are_reached_once(s.last());
        assert(s[s.len() - 1] == s.last());
        assert forall|x: PathKey| #[trigger]
            crate::diff::forest_keys(s).contains(x) implies below_one_of(x, s) by {
            crate::diff::contains_of_sum(a, b, x);
            if a.contains(x) {
                let i = choose|i: int|
                    0 <= i < front.len() && crate::path::key_starts_with(
                        x,
                        (#[trigger] front[i]).path.key(),
                    );
                assert(s[i] == front[i]);
            }
        }
        assert forall|x: PathKey| #[trigger] a.contains(x) implies !b.contains(x) by {
            if b.contains(x) {
                let i = choose|i: int|
                    0 <= i < front.len() && crate::path::key_starts_with(
                        x,
                        (#[trigger] front[i]).path.key(),
                    );
                assert(s[i] == front[i]);
                starts_with_its_folder(front[i].path.key(), k);
                starts_with_its_folder(top, k);
                assert(s[i].path.key() != s[s.len() - 1].path.key());
            }
        }
        let c = a + b;
        assert forall|i: int, j: int|
            0 <= i < c.len() && 0 <= j < c.len() && i != j implies c[i] != c[j] by {
            if i < a.len() && j >= a.len() {
                assert(a[i] == c[i] && b[j - a.len()] == c[j]);
                assert(a.contains(c[i]) && b.contains(b[j - a.len()]));
            } else if i >= a.len() && j < a.len() {
                assert(a[j] == c[j] && b[i - a.len()] == c[i]);
                assert(a.contains(c[j]) && b.contains(b[i - a.len()]));
            } else if i < a.len() {
                assert(a[i] == c[i] && a[j] == c[j]);
            } else {
                assert(b[i - a.len()] == c[i] && b[j - a.len()] == c[j]);
            }
        }
    }
}

// ── What the snapshots of folders hold ───────────────────────────────────────

proof fn recorded_folders_are_there(m: Map<PathKey, SnapSpec>, t: DirTree, x: PathKey)
    requires
        crate::diff::recorded(m, t),
        crate::diff::tree_keys(t).contains(x),
    ensures
        m.dom().contains(x),
    decreases t,
{
    crate::diff::contains_of_sum(seq![t.path.key()], crate::diff::forest_keys(t.children@), x);
    if crate::diff::forest_keys(t.children@).contains(x) {
        all_recorded_folders_are_there(m, t.children@, x);
    }
}

proof fn all_recorded_folders_are_there(m: Map<PathKey, SnapSpec>, s: Seq<DirTree>, x: PathKey)
    requires
        crate::diff::all_recorded(m, s),
        crate::diff::forest_keys(s).contains(x),
    ensures
        m.dom().contains(x),
    decreases s,
{
    if s.len() > 0 {
        crate::diff::contains_of_sum(
            crate::diff::forest_keys(s.drop_last()),
            crate::diff::tree_keys(s.last()),
            x,
        );
        if crate::diff::forest_keys(s.drop_last()).contains(x) {
            all_recorded_folders_are_there(m, s.drop_last(), x);
        } else {
            recorded_folders_are_there(m, s.last(), x);
        }
    }
}

/// The snapshots of a folder as it is read are those of the folders that it has, each as it
/// is.
pub proof fn snapshots_hold_every_folder(t: DirTree)
    requires
        as_read(t),
    ensures
        crate::diff::recorded(crate::scan::tree_snaps(Map::empty(), t), t),
        forall|x: PathKey| #[trigger]
            crate::scan::tree_snaps(Map::empty(), t).dom().contains(x)
                <==> crate::diff::tree_keys(t).contains(x),
{
    let m = crate::scan::tree_snaps(Map::empty(), t);
    folders_are_reached_once(t);
    crate::diff::recording_records(Map::empty(), t);
    assert forall|x: PathKey| #[trigger] m.dom().contains(x) <==> crate::diff::tree_keys(
        t,
    ).contains(x) by {
        if crate::diff::tree_keys(t).contains(x) {
            recorded_folders_are_there(m, t, x);
        } else {
            crate::diff::recording_is_local(Map::empty(), t, x);
        }
    }
}

/// A group that shows a folder: its media are those of the snapshot of the folder, in the same
/// order, and there is at least one. They are in order, none twice, all media files directly in
/// the folder, and each has its label and tells whether it is a video.
pub open spec fn shows_folder(g: GroupSpec, m: Map<PathKey, SnapSpec>) -> bool {
    let n = g.images.len();
    &&& n > 0 && g.labels.len() == n && g.videos.len() == n
    &&& g.display_name == crate::path::name_or_text(g.path)
    &&& paths_in_order(g.images)
    &&& forall|i: int|
        0 <= i < n ==> {
            let p = (#[trigger] g.images[i]).parts;
            &&& crate::media::media_key(p) && directly_in(p, g.path.parts)
            &&& g.labels[i] == crate::media::tile_label(p)
            &&& g.videos[i] == crate::media::video_key(p)
        }
    &&& m.dom().contains(g.path.parts)
    &&& crate::scan::entry_paths(m[g.path.parts].images) == g.images
}

proof fn own_group_shows_folder(m: Map<PathKey, SnapSpec>, t: DirTree)
    requires
        crate::diff::recorded(m, t),
        as_read(t),
        t.images@.len() > 0,
    ensures
        shows_folder(
            crate::scan::group_of(t.path@, crate::scan::entries_view(t.images@)),
            m,
        ),
{
    let e = crate::scan::entries_view(t.images@);
    let g = crate::scan::group_of(t.path@, e);
    assert(m[t.path.key()].images == e);
    assert forall|i: int| 0 <= i < g.images.len() implies {
        let p = (#[trigger] g.images[i]).parts;
        &&& crate::media::media_key(p) && directly_in(p, g.path.parts)
        &&& g.labels[i] == crate::media::tile_label(p)
        &&& g.videos[i] == crate::media::video_key(p)
    } by {
        assert(g.images[i] == e[i].path);
    }
    assert forall|i: int, j: int| 0 <= i < j < g.images.len() implies crate::path::path_lt(
        (#[trigger] g.images[i]).parts,
        (#[trigger] g.images[j]).parts,
    ) by {
        assert(g.images[i] == e[i].path && g.images[j] == e[j].path);
    }
}

proof fn contains_of_groups(a: Seq<GroupSpec>, b: Seq<GroupSpec>, g: GroupSpec)
    ensures
        (a + b).contains(g) <==> a.contains(g) || b.contains(g),
{
    let c = a + b;
    if c.contains(g) {
        let i = choose|i: int| 0 <= i < c.len() && c[i] == g;
        if i < a.len() {
            assert(a[i] == g);
        } else {
            assert(b[i - a.len()] == g);
        }
    }
    if a.contains(g) {
        let i = choose|i: int| 0 <= i < a.len() && a[i] == g;
        assert(c[i] == g);
    }
    if b.contains(g) {
        let i = choose|i: int| 0 <= i < b.len() && b[i] == g;
        assert(c[a.len() + i] == g);
    }
}

proof fn group_of_tree(m: Map<PathKey, SnapSpec>, t: DirTree, g: GroupSpec)
    requires
        crate::diff::recorded(m, t),
        as_read(t),
        crate::scan::tree_groups(t).contains(g),
    ensures
        shows_folder(g, m),
    decreases t,
{
    let own = crate::scan::own_groups(t);
    contains_of_groups(own, crate::scan::forest_groups(t.children@), g);
    if own.contains(g) {
        own_group_shows_folder(m, t);
    } else {
        group_of_forest(m, t.children@, g);
    }
}

proof fn group_of_forest(m: Map<PathKey, SnapSpec>, s: Seq<DirTree>, g: GroupSpec)
    requires
        crate::diff::all_recorded(m, s),
        all_as_read(s),
        crate::scan::forest_groups(s).contains(g),
    ensures
        shows_folder(g, m),
    decreases s,
{
    if s.len() > 0 {
        let front = crate::scan::forest_groups(s.drop_last());
        contains_of_groups(front, crate::scan::tree_groups(s.last()), g);
        if front.contains(g) {
            group_of_forest(m, s.drop_last(), g);
        } else {
            group_of_tree(m, s.last(), g);
        }
    }
}

/// Each group that the scan of a folder finds shows a folder, as its snapshot has it.
pub proof fn groups_show_their_folders(t: DirTree, g: GroupSpec)
    requires
        as_read(t),
        crate::scan::tree_groups(t).contains(g),
    ensures
        shows_folder(g, crate::scan::tree_snaps(Map::empty(), t)),
{
    snapshots_hold_every_folder(t);
    group_of_tree(crate::scan::tree_snaps(Map::empty(), t), t, g);
}

/// The folders of a library were read at one time: a folder that lies in two of them has the
/// same snapshot in both.
pub open spec fn read_at_once(s: Seq<DirTree>) -> bool {
    forall|i: int, j: int, k: PathKey|
        0 <= i < s.len() && 0 <= j < s.len() && (#[trigger] crate::scan::tree_snaps(
            Map::empty(),
            s[i],
        ).dom().contains(k)) && (#[trigger] crate::scan::tree_snaps(
            Map::empty(),
            s[j],
        ).dom().contains(k)) ==> crate::scan::tree_snaps(Map::empty(), s[i])[k]
            == crate::scan::tree_snaps(Map::empty(), s[j])[k]
}

/// Each folder of a library is as it is read.
pub open spec fn each_is_as_read(s: Seq<DirTree>) -> bool {
    forall|i: int| 0 <= i < s.len() ==> as_read(#[trigger] s[i])
}

proof fn library_has_some_snapshot(s: Seq<DirTree>, k: PathKey) -> (j: int)
    ensures
        crate::scan::library_snaps(s).dom().contains(k) ==> 0 <= j < s.len()
            && crate::scan::tree_snaps(Map::empty(), s[j]).dom().contains(k)
            && crate::scan::library_snaps(s)[k] == crate::scan::tree_snaps(Map::empty(), s[j])[k],
        forall|i: int|
            0 <= i < s.len() && crate::scan::tree_snaps(
                Map::empty(),
                #[trigger] s[i],
            ).dom().contains(k) ==> crate::scan::library_snaps(s).dom().contains(k),
    decreases s.len(),
{
    if s.len() == 0 {
        0
    } else {
        let front = s.drop_last();
        let n = library_has_some_snapshot(front, k);
        let last = crate::scan::tree_snaps(Map::empty(), s.last());
        assert forall|i: int|
            0 <= i < s.len() && crate::scan::tree_snaps(
                Map::empty(),
                #[trigger] s[i],
            ).dom().contains(k) implies crate::scan::library_snaps(s).dom().contains(k) by {
            if i < front.len() {
                assert(front[i] == s[i]);
            }
        }
        if last.dom().contains(k) {
            s.len() - 1
        } else {
            n
        }
    }
}

proof fn some_tree_has_the_group(s: Seq<DirTree>, g: GroupSpec) -> (i: int)
    requires
        crate::scan::forest_groups(s).contains(g),
    ensures
        0 <= i < s.len(),
        crate::scan::tree_groups(s[i]).contains(g),
    decreases s,
{
    if s.len() == 0 {
        0
    } else {
        let front = crate::scan::forest_groups(s.drop_last());
        contains_of_groups(front, crate::scan::tree_groups(s.last()), g);
        if front.contains(g) {
            some_tree_has_the_group(s.drop_last(), g)
        } else {
            s.len() - 1
        }
    }
}

proof fn first_groups_are_groups(s: Seq<GroupSpec>, g: GroupSpec)
    requires
        crate::scan::first_groups(s).contains(g),
    ensures
        s.contains(g),
    decreases s.len(),
{
    if s.len() > 0 {
        let front = s.drop_last();
        let f = crate::scan::first_groups(front);
        let i = choose|i: int|
            0 <= i < crate::scan::first_groups(s).len() && crate::scan::first_groups(s)[i] == g;
        if i < f.len() {
            assert(f[i] == g);
            first_groups_are_groups(front, g);
            let j = choose|j: int| 0 <= j < front.len() && front[j] == g;
            assert(s[j] == g);
        } else {
            assert(s[s.len() - 1] == g);
        }
    }
}

/// Each group that the scan of a library finds shows a folder, as its snapshot has it, where
/// the folders of the library were read at one time. `r` are the groups, as they are sorted.
pub proof fn library_groups_show_their_folders(
    s: Seq<DirTree>,
    r: Seq<GroupSpec>,
    g: GroupSpec,
)
    requires
        each_is_as_read(s),
        read_at_once(s),
        crate::sort::stable_sort_of(
            r,
            crate::scan::first_groups(crate::scan::forest_groups(s)),
            crate::scan::group_before(),
        ),
        r.contains(g),
    ensures
        shows_folder(g, crate::scan::library_snaps(s)),
{
    let f = crate::scan::first_groups(crate::scan::forest_groups(s));
    let places = choose|places: Seq<int>| #[trigger]
        crate::sort::order_of(places, f, crate::scan::group_before()) && r
            == crate::sort::at_places(f, places);
    let n = choose|n: int| 0 <= n < r.len() && r[n] == g;
    assert(f[places[n]] == g);
    first_groups_are_groups(crate::scan::forest_groups(s), g);
    let i = some_tree_has_the_group(s, g);
    assert(as_read(s[i]));
    groups_show_their_folders(s[i], g);
    let j = library_has_some_snapshot(s, g.path.parts);
    assert(crate::scan::tree_snaps(Map::empty(), s[i]).dom().contains(g.path.parts));
}

// ── The entries of folders and of their snapshots ────────────────────────────

/// The media files of a folder and of the folders below it, with their times.
pub open spec fn tree_entries(t: DirTree) -> Seq<EntrySpec>
    decreases t,
{
    crate::scan::entries_view(t.images@) + forest_entries(t.children@)
}

/// The media files of a list of folders and of the folders below them, with their times.
pub open spec fn forest_entries(s: Seq<DirTree>) -> Seq<EntrySpec>
    decreases s,
{
    if s.len() == 0 {
        Seq::empty()
    } else {
        forest_entries(s.drop_last()) + tree_entries(s.last())
    }
}

/// Some snapshot holds this entry.
pub open spec fn kept_entry(m: Map<PathKey, SnapSpec>, e: EntrySpec) -> bool {
    exists|k: PathKey| #[trigger] m.dom().contains(k) && m[k].images.contains(e)
}

proof fn contains_of_entries(a: Seq<EntrySpec>, b: Seq<EntrySpec>, e: EntrySpec)
    ensures
        (a + b).contains(e) <==> a.contains(e) || b.contains(e),
{
    let c = a + b;
    if c.contains(e) {
        let i = choose|i: int| 0 <= i < c.len() && c[i] == e;
        if i < a.len() {
            assert(a[i] == e);
        } else {
            assert(b[i - a.len()] == e);
        }
    }
    if a.contains(e) {
        let i = choose|i: int| 0 <= i < a.len() && a[i] == e;
        assert(c[i] == e);
    }
    if b.contains(e) {
        let i = choose|i: int| 0 <= i < b.len() && b[i] == e;
        assert(c[a.len() + i] == e);
    }
}

proof fn entry_of_forest(s: Seq<DirTree>, e: EntrySpec)
    ensures
        forest_entries(s).contains(e) <==> exists|i: int|
            0 <= i < s.len() && tree_entries(#[trigger] s[i]).contains(e),
    decreases s,
{
    if s.len() > 0 {
        let front = s.drop_last();
        entry_of_forest(front, e);
        contains_of_entries(forest_entries(front), tree_entries(s.last()), e);
        assert(s[s.len() - 1] == s.last());
        if forest_entries(front).contains(e) {
            let i = choose|i: int|
                0 <= i < front.len() && tree_entries(#[trigger] front[i]).contains(e);
            assert(s[i] == front[i]);
        }
        if exists|i: int| 0 <= i < s.len() && tree_entries(#[trigger] s[i]).contains(e) {
            let i = choose|i: int| 0 <= i < s.len() && tree_entries(#[trigger] s[i]).contains(e);
            if i < front.len() {
                assert(front[i] == s[i]);
            }
        }
    }
}

spec fn held_in(m: Map<PathKey, SnapSpec>, keys: Seq<PathKey>, e: EntrySpec) -> bool {
    exists|k: PathKey| #[trigger] keys.contains(k) && m[k].images.contains(e)
}

proof fn held_in_sum(
    m: Map<PathKey, SnapSpec>,
    a: Seq<PathKey>,
    b: Seq<PathKey>,
    e: EntrySpec,
)
    ensures
        held_in(m, a + b, e) <==> held_in(m, a, e) || held_in(m, b, e),
{
    if held_in(m, a + b, e) {
        let k = choose|k: PathKey| #[trigger] (a + b).contains(k) && m[k].images.contains(e);
        crate::diff::contains_of_sum(a, b, k);
    }
    if held_in(m, a, e) {
        let k = choose|k: PathKey| #[trigger] a.contains(k) && m[k].images.contains(e);
        crate::diff::contains_of_sum(a, b, k);
    }
    if held_in(m, b, e) {
        let k = choose|k: PathKey| #[trigger] b.contains(k) && m[k].images.contains(e);
        crate::diff::contains_of_sum(a, b, k);
    }
}

proof fn entry_by_folder(m: Map<PathKey, SnapSpec>, t: DirTree, e: EntrySpec)
    requires
        crate::diff::recorded(m, t),
    ensures
        tree_entries(t).contains(e) <==> held_in(m, crate::diff::tree_keys(t), e),
    decreases t,
{
    let k = t.path.key();
    let rest = crate::diff::forest_keys(t.children@);
    all_entries_by_folder(m, t.children@, e);
    held_in_sum(m, seq![k], rest, e);
    contains_of_entries(crate::scan::entries_view(t.images@), forest_entries(t.children@), e);
    assert(seq![k][0] == k);
    assert(seq![k].contains(k));
    if held_in(m, seq![k], e) {
        let x = choose|x: PathKey| #[trigger] seq![k].contains(x) && m[x].images.contains(e);
        assert(x == k);
    }
}

proof fn all_entries_by_folder(m: Map<PathKey, SnapSpec>, s: Seq<DirTree>, e: EntrySpec)
    requires
        crate::diff::all_recorded(m, s),
    ensures
        forest_entries(s).contains(e) <==> held_in(m, crate::diff::forest_keys(s), e),
    decreases s,
{
    if s.len() > 0 {
        all_entries_by_folder(m, s.drop_last(), e);
        entry_by_folder(m, s.last(), e);
        held_in_sum(
            m,
            crate::diff::forest_keys(s.drop_last()),
            crate::diff::tree_keys(s.last()),
            e,
        );
        contains_of_entries(forest_entries(s.drop_last()), tree_entries(s.last()), e);
    }
}

/// The snapshots of a folder as it is read hold the entries of that folder and of those below
/// it, and no others.
pub proof fn snapshots_hold_every_entry(t: DirTree, e: EntrySpec)
    requires
        as_read(t),
    ensures
        tree_entries(t).contains(e) <==> kept_entry(
            crate::scan::tree_snaps(Map::empty(), t),
            e,
        ),
{
    let m = crate::scan::tree_snaps(Map::empty(), t);
    snapshots_hold_every_folder(t);
    entry_by_folder(m, t, e);
    if held_in(m, crate::diff::tree_keys(t), e) {
        let k = choose|k: PathKey| #[trigger]
            crate::diff::tree_keys(t).contains(k) && m[k].images.contains(e);
        assert(m.dom().contains(k));
    }
    if kept_entry(m, e) {
        let k = choose|k: PathKey| #[trigger] m.dom().contains(k) && m[k].images.contains(e);
        assert(crate::diff::tree_keys(t).contains(k));
    }
}

proof fn entry_is_inside(t: DirTree, e: EntrySpec)
    requires
        as_read(t),
        tree_entries(t).contains(e),
    ensures
        inside(e.path.parts, t.path.key()),
    decreases t,
{
    let own = crate::scan::entries_view(t.images@);
    let kids = t.children@;
    contains_of_entries(own, forest_entries(kids), e);
    if own.contains(e) {
        let i = choose|i: int| 0 <= i < own.len() && own[i] == e;
        starts_with_its_folder(e.path.parts, t.path.key());
    } else {
        entry_of_forest(kids, e);
        let i = choose|i: int| 0 <= i < kids.len() && tree_entries(#[trigger] kids[i]).contains(e);
        each_as_read(kids, i);
        entry_is_inside(kids[i], e);
        assert(crate::scan::tree_paths(kids)[i].parts == kids[i].path.key());
        starts_with_its_folder(kids[i].path.key(), t.path.key());
        starts_in_turn(e.path.parts.drop_last(), kids[i].path.key(), t.path.key());
    }
}

// ── The snapshots of one folder and of those below it ────────────────────────

spec fn linked(m: Map<PathKey, SnapSpec>, root: PathKey, k: PathKey) -> bool {
    &&& folder_as_read(k, m[k].images, m[k].subdirs)
    &&& crate::path::key_starts_with(k, root)
    &&& k == root || (k.len() > root.len() && m.dom().contains(k.drop_last())
        && crate::pathmap::has_key(m[k.drop_last()].subdirs, k))
}

spec fn one_tree(m: Map<PathKey, SnapSpec>, root: PathKey) -> bool {
    &&& m.dom().finite()
    &&& forall|k: PathKey| m.dom().contains(k) ==> #[trigger] linked(m, root, k)
}

spec fn hangs(
    m: Map<PathKey, SnapSpec>,
    keys: Seq<PathKey>,
    tops: Seq<PathSpec>,
    x: PathKey,
) -> bool {
    &&& folder_as_read(x, m[x].images, m[x].subdirs)
    &&& crate::pathmap::has_key(tops, x) || (x.len() > 0 && keys.contains(x.drop_last())
        && crate::pathmap::has_key(m[x.drop_last()].subdirs, x))
}

proof fn folder_hangs(m: Map<PathKey, SnapSpec>, t: DirTree, x: PathKey)
    requires
        crate::diff::recorded(m, t),
        as_read(t),
        crate::diff::tree_keys(t).contains(x),
    ensures
        hangs(m, crate::diff::tree_keys(t), seq![t.path@], x),
    decreases t,
{
    let k = t.path.key();
    let kids = t.children@;
    let rest = crate::diff::forest_keys(kids);
    let all = crate::diff::tree_keys(t);
    crate::diff::contains_of_sum(seq![k], rest, x);
    assert(seq![k][0] == k);
    assert(all[0] == k);
    if x == k {
        assert(seq![t.path@][0].parts == k);
    } else {
        assert(rest.contains(x));
        folder_of_all_hangs(m, kids, x);
        let dirs = crate::scan::tree_paths(kids);
        if crate::pathmap::has_key(dirs, x) {
            let i = choose|i: int| 0 <= i < dirs.len() && (#[trigger] dirs[i]).parts == x;
            assert(directly_in(dirs[i].parts, k));
            assert(all.contains(k));
        } else {
            crate::diff::contains_of_sum(seq![k], rest, x.drop_last());
        }
    }
}

proof fn folder_of_all_hangs(m: Map<PathKey, SnapSpec>, s: Seq<DirTree>, x: PathKey)
    requires
        crate::diff::all_recorded(m, s),
        all_as_read(s),
        crate::diff::forest_keys(s).contains(x),
    ensures
        hangs(m, crate::diff::forest_keys(s), crate::scan::tree_paths(s), x),
    decreases s,
{
    if s.len() > 0 {
        let a = crate::diff::forest_keys(s.drop_last());
        let b = crate::diff::tree_keys(s.last());
        let tops = crate::scan::tree_paths(s);
        crate::diff::contains_of_sum(a, b, x);
        crate::diff::contains_of_sum(a, b, x.drop_last());
        if a.contains(x) {
            let front = crate::scan::tree_paths(s.drop_last());
            folder_of_all_hangs(m, s.drop_last(), x);
            if crate::pathmap::has_key(front, x) {
                let i = choose|i: int| 0 <= i < front.len() && (#[trigger] front[i]).parts == x;
                assert(tops[i] == front[i]);
            }
        } else {
            folder_hangs(m, s.last(), x);
            if crate::pathmap::has_key(seq![s.last().path@], x) {
                assert(tops[s.len() - 1].parts == x);
            }
        }
    }
}

proof fn snapshots_are_one_tree(t: DirTree)
    requires
        as_read(t),
    ensures
        one_tree(crate::scan::tree_snaps(Map::empty(), t), t.path.key()),
{
    let m = crate::scan::tree_snaps(Map::empty(), t);
    let root = t.path.key();
    let keys = crate::diff::tree_keys(t);
    snapshots_hold_every_folder(t);
    folders_are_reached_once(t);
    assert(m.dom() =~= keys.to_set());
    vstd::seq_lib::seq_to_set_is_finite(keys);
    assert forall|k: PathKey| m.dom().contains(k) implies #[trigger] linked(m, root, k) by {
        folder_hangs(m, t, k);
        if k != root {
            if crate::pathmap::has_key(seq![t.path@], k) {
                assert(false);
            }
            let up = k.drop_last();
            assert(m.dom().contains(up));
            assert(crate::path::key_starts_with(up, root));
        }
    }
}

/// Every folder on the way down to one that is known is known.
proof fn way_is_known(m: Map<PathKey, SnapSpec>, root: PathKey, f: PathKey, c: PathKey)
    requires
        one_tree(m, root),
        m.dom().contains(f),
        crate::path::key_starts_with(f, c),
        crate::path::key_starts_with(c, root),
    ensures
        m.dom().contains(c),
    decreases f.len(),
{
    assert(linked(m, root, f));
    if f.len() == c.len() {
        assert(f.take(c.len() as int) =~= f);
    } else {
        let up = f.drop_last();
        assert(up.take(c.len() as int) =~= f.take(c.len() as int));
        way_is_known(m, root, up, c);
    }
}

/// Some entry of the snapshots that lies in a folder, or below it, has this path.
spec fn has_entry_below(m: Map<PathKey, SnapSpec>, c: PathKey, p: PathSpec) -> bool {
    exists|e: EntrySpec| #[trigger] kept_entry(m, e) && e.path == p && inside(e.path.parts, c)
}

proof fn way_starts_there(
    m: Map<PathKey, SnapSpec>,
    root: PathKey,
    way: Seq<PathKey>,
    i: int,
)
    requires
        one_tree(m, root),
        crate::diff::way_down(m, way),
        0 <= i < way.len(),
    ensures
        crate::path::key_starts_with(way[i], way[0]),
    decreases i,
{
    if i == 0 {
        starts_with_itself(way[0]);
    } else {
        way_starts_there(m, root, way, i - 1);
        let up = way[i - 1];
        assert(linked(m, root, up));
        assert(crate::pathmap::has_key(m[way[i - 1]].subdirs, way[i]));
        let dirs = m[up].subdirs;
        let j = choose|j: int| 0 <= j < dirs.len() && (#[trigger] dirs[j]).parts == way[i];
        starts_with_its_folder(way[i], up);
        starts_in_turn(way[i], up, way[0]);
    }
}

proof fn below_is_all_below(m: Map<PathKey, SnapSpec>, root: PathKey, c: PathKey, p: PathSpec)
    requires
        one_tree(m, root),
        crate::path::key_starts_with(c, root),
    ensures
        crate::diff::media_below(m, c).contains(p) <==> has_entry_below(m, c, p),
{
    crate::diff::nothing_below_is_missed(m, c, p);
    if crate::diff::media_below(m, c).contains(p) {
        let way = choose|way: Seq<PathKey>| #[trigger] crate::diff::leads_to(m, way, c, p);
        let f = way.last();
        assert(f == way[way.len() - 1]);
        way_starts_there(m, root, way, way.len() - 1);
        assert(linked(m, root, f));
        let paths = crate::scan::entry_paths(m[f].images);
        let i = choose|i: int| 0 <= i < paths.len() && paths[i] == p;
        let e = m[f].images[i];
        assert(m[f].images.contains(e));
        assert(kept_entry(m, e));
        assert(directly_in(e.path.parts, f));
    }
    if has_entry_below(m, c, p) {
        let e = choose|e: EntrySpec| #[trigger]
            kept_entry(m, e) && e.path == p && inside(e.path.parts, c);
        let f = choose|k: PathKey| #[trigger] m.dom().contains(k) && m[k].images.contains(e);
        assert(linked(m, root, f));
        let i = choose|i: int| 0 <= i < m[f].images.len() && m[f].images[i] == e;
        assert(directly_in(m[f].images[i].path.parts, f));
        let n = f.len() - c.len() + 1;
        let way = Seq::new(n as nat, |j: int| f.take(c.len() as int + j));
        assert forall|j: int| 0 <= j < way.len() implies m.dom().contains(#[trigger] way[j]) by {
            assert(way[j].take(c.len() as int) =~= f.take(c.len() as int));
            starts_in_turn(way[j], c, root);
            assert(f.take(way[j].len() as int) =~= way[j]);
            way_is_known(m, root, f, way[j]);
        }
        assert forall|j: int| 0 < j < way.len() implies crate::pathmap::has_key(
            m[way[j - 1]].subdirs,
            #[trigger] way[j],
        ) by {
            assert(linked(m, root, way[j]));
            assert(way[j].drop_last() =~= way[j - 1]);
        }
        assert(way[0] =~= c);
        assert(way.last() =~= f);
        assert(crate::scan::entry_paths(m[f].images)[i] == p);
        assert(crate::diff::leads_to(m, way, c, p));
    }
}

/// The media of a folder as it is read, listed folder by folder from its snapshots, each folder
/// once, are listed once each.
pub proof fn each_medium_is_listed_once(t: DirTree, order: Seq<PathKey>)
    requires
        as_read(t),
        order.no_duplicates(),
        forall|k: PathKey|
            crate::scan::tree_snaps(Map::empty(), t).dom().contains(k) <==> order.contains(k),
    ensures
        crate::recent::distinct_paths(
            crate::scan::media_in_order(order, crate::scan::tree_snaps(Map::empty(), t)),
        ),
{
    let m = crate::scan::tree_snaps(Map::empty(), t);
    snapshots_are_one_tree(t);
    assert forall|i: int| 0 <= i < order.len() implies m.dom().contains(#[trigger] order[i]) by {
        assert(order.contains(order[i]));
    }
    listed_once(m, t.path.key(), order);
}

proof fn listed_once(m: Map<PathKey, SnapSpec>, root: PathKey, order: Seq<PathKey>)
    requires
        one_tree(m, root),
        order.no_duplicates(),
        forall|i: int| 0 <= i < order.len() ==> m.dom().contains(#[trigger] order[i]),
    ensures
        crate::recent::distinct_paths(crate::scan::media_in_order(order, m)),
        forall|i: int|
            0 <= i < crate::scan::media_in_order(order, m).len() ==> order.contains(
                (#[trigger] crate::scan::media_in_order(order, m)[i]).parts.drop_last(),
            ),
    decreases order.len(),
{
    if order.len() > 0 {
        let front = order.drop_last();
        let k = order.last();
        assert(order[order.len() - 1] == k);
        assert forall|i: int| 0 <= i < front.len() implies m.dom().contains(#[trigger] front[i]) by {
            assert(front[i] == order[i]);
        }
        assert forall|i: int, j: int|
            0 <= i < front.len() && 0 <= j < front.len() && i != j implies front[i] != front[j] by {
            assert(front[i] == order[i] && front[j] == order[j]);
        }
        listed_once(m, root, front);
        let a = crate::scan::media_in_order(front, m);
        let e = m[k].images;
        let b = crate::scan::entry_paths(e);
        let c = crate::scan::media_in_order(order, m);
        assert(linked(m, root, k));
        assert forall|i: int| 0 <= i < c.len() implies order.contains(
            (#[trigger] c[i]).parts.drop_last(),
        ) by {
            if i < a.len() {
                assert(c[i] == a[i]);
                let n = choose|n: int|
                    0 <= n < front.len() && front[n] == a[i].parts.drop_last();
                assert(order[n] == front[n]);
            } else {
                assert(c[i] == e[i - a.len()].path);
            }
        }
        assert forall|i: int, j: int| 0 <= i < j < c.len() implies (#[trigger] c[i]).parts != (
        #[trigger] c[j]).parts by {
            if j < a.len() {
                assert(c[i] == a[i] && c[j] == a[j]);
            } else if i < a.len() {
                assert(c[i] == a[i] && c[j] == e[j - a.len()].path);
                let n = choose|n: int|
                    0 <= n < front.len() && front[n] == a[i].parts.drop_last();
                assert(order[n] == front[n] && order[n] != order[order.len() - 1]);
            } else {
                assert(c[i] == e[i - a.len()].path && c[j] == e[j - a.len()].path);
                crate::path::path_order_is_total(c[i].parts, c[j].parts);
            }
        }
    }
}

// ── Every change is reported ─────────────────────────────────────────────────

/// Two entries are of the same path and of the same time.
spec fn same_entry(a: EntrySpec, b: EntrySpec) -> bool {
    a.path.parts == b.path.parts && a.mtime == b.mtime
}

proof fn unchanged_is_some_entry(s: Seq<EntrySpec>, e: EntrySpec)
    ensures
        crate::diff::unchanged_in(s, e) <==> exists|x: EntrySpec| #[trigger]
            s.contains(x) && same_entry(x, e),
{
    if crate::diff::unchanged_in(s, e) {
        let i = choose|i: int|
            0 <= i < s.len() && (#[trigger] s[i]).path.parts == e.path.parts && s[i].mtime
                == e.mtime;
        assert(s.contains(s[i]) && same_entry(s[i], e));
    }
    if exists|x: EntrySpec| #[trigger] s.contains(x) && same_entry(x, e) {
        let x = choose|x: EntrySpec| #[trigger] s.contains(x) && same_entry(x, e);
        let i = choose|i: int| 0 <= i < s.len() && s[i] == x;
        assert(s[i].path.parts == e.path.parts);
    }
}

proof fn changed_of_sum(
    a: Seq<EntrySpec>,
    b: Seq<EntrySpec>,
    other: Seq<EntrySpec>,
    p: PathSpec,
)
    ensures
        crate::diff::changed_path(a + b, other, p) <==> crate::diff::changed_path(a, other, p)
            || crate::diff::changed_path(b, other, p),
{
    let c = a + b;
    if crate::diff::changed_path(c, other, p) {
        let j = choose|j: int|
            0 <= j < c.len() && (#[trigger] c[j]).path == p && !crate::diff::unchanged_in(
                other,
                c[j],
            );
        if j < a.len() {
            assert(a[j] == c[j]);
        } else {
            assert(b[j - a.len()] == c[j]);
        }
    }
    if crate::diff::changed_path(a, other, p) {
        let j = choose|j: int|
            0 <= j < a.len() && (#[trigger] a[j]).path == p && !crate::diff::unchanged_in(
                other,
                a[j],
            );
        assert(c[j] == a[j]);
    }
    if crate::diff::changed_path(b, other, p) {
        let j = choose|j: int|
            0 <= j < b.len() && (#[trigger] b[j]).path == p && !crate::diff::unchanged_in(
                other,
                b[j],
            );
        assert(c[a.len() + j] == b[j]);
    }
}

/// What the snapshots know of a folder: its entries, where it is known.
proof fn entries_then_are_kept(m: Map<PathKey, SnapSpec>, root: PathKey, k: PathKey, e: EntrySpec)
    requires
        one_tree(m, root),
    ensures
        crate::diff::entries_in_order(crate::diff::entries_then(crate::diff::snap_at(m, k))),
        crate::diff::entries_then(crate::diff::snap_at(m, k)).contains(e) <==> kept_entry(m, e)
            && directly_in(e.path.parts, k),
{
    let then = crate::diff::entries_then(crate::diff::snap_at(m, k));
    if m.dom().contains(k) {
        assert(linked(m, root, k));
    }
    if then.contains(e) {
        let i = choose|i: int| 0 <= i < then.len() && then[i] == e;
        assert(m.dom().contains(k) && m[k].images.contains(e));
        assert(directly_in(m[k].images[i].path.parts, k));
    }
    if kept_entry(m, e) && directly_in(e.path.parts, k) {
        let f = choose|f: PathKey| #[trigger] m.dom().contains(f) && m[f].images.contains(e);
        assert(linked(m, root, f));
        let i = choose|i: int| 0 <= i < m[f].images.len() && m[f].images[i] == e;
        assert(directly_in(m[f].images[i].path.parts, f));
    }
}

proof fn added_here(
    m: Map<PathKey, SnapSpec>,
    root: PathKey,
    before: Seq<EntrySpec>,
    t: DirTree,
    p: PathSpec,
)
    requires
        one_tree(m, root),
        as_read(t),
        forall|e: EntrySpec| #[trigger] before.contains(e) <==> kept_entry(m, e),
    ensures
        crate::diff::new_here(m, t).contains(p) <==> crate::diff::changed_path(
            crate::scan::entries_view(t.images@),
            before,
            p,
        ),
{
    let k = t.path.key();
    let then = crate::diff::entries_then(crate::diff::snap_at(m, k));
    let now = crate::scan::entries_view(t.images@);
    entries_then_are_kept(m, root, k, arbitrary());
    crate::diff::diff_finds_every_change(then, now, p);
    assert forall|j: int| 0 <= j < now.len() implies crate::diff::unchanged_in(
        then,
        #[trigger] now[j],
    ) == crate::diff::unchanged_in(before, now[j]) by {
        let e = now[j];
        unchanged_is_some_entry(then, e);
        unchanged_is_some_entry(before, e);
        if crate::diff::unchanged_in(then, e) {
            let x = choose|x: EntrySpec| #[trigger] then.contains(x) && same_entry(x, e);
            entries_then_are_kept(m, root, k, x);
            assert(before.contains(x));
        }
        if crate::diff::unchanged_in(before, e) {
            let x = choose|x: EntrySpec| #[trigger] before.contains(x) && same_entry(x, e);
            entries_then_are_kept(m, root, k, x);
            assert(kept_entry(m, x));
            assert(then.contains(x));
        }
    }
    if crate::diff::changed_path(now, then, p) {
        let j = choose|j: int|
            0 <= j < now.len() && (#[trigger] now[j]).path == p && !crate::diff::unchanged_in(
                then,
                now[j],
            );
        assert(!crate::diff::unchanged_in(before, now[j]));
    }
    if crate::diff::changed_path(now, before, p) {
        let j = choose|j: int|
            0 <= j < now.len() && (#[trigger] now[j]).path == p && !crate::diff::unchanged_in(
                before,
                now[j],
            );
        assert(!crate::diff::unchanged_in(then, now[j]));
    }
}

proof fn added_below(
    m: Map<PathKey, SnapSpec>,
    root: PathKey,
    before: Seq<EntrySpec>,
    t: DirTree,
    p: PathSpec,
)
    requires
        one_tree(m, root),
        as_read(t),
        forall|e: EntrySpec| #[trigger] before.contains(e) <==> kept_entry(m, e),
    ensures
        crate::diff::tree_added(m, t).contains(p) <==> crate::diff::changed_path(
            tree_entries(t),
            before,
            p,
        ),
    decreases t,
{
    added_here(m, root, before, t, p);
    added_below_all(m, root, before, t.children@, p);
    crate::diff::contains_of_paths(
        crate::diff::new_here(m, t),
        crate::diff::forest_added(m, t.children@),
        p,
    );
    changed_of_sum(
        crate::scan::entries_view(t.images@),
        forest_entries(t.children@),
        before,
        p,
    );
}

proof fn added_below_all(
    m: Map<PathKey, SnapSpec>,
    root: PathKey,
    before: Seq<EntrySpec>,
    s: Seq<DirTree>,
    p: PathSpec,
)
    requires
        one_tree(m, root),
        all_as_read(s),
        forall|e: EntrySpec| #[trigger] before.contains(e) <==> kept_entry(m, e),
    ensures
        crate::diff::forest_added(m, s).contains(p) <==> crate::diff::changed_path(
            forest_entries(s),
            before,
            p,
        ),
    decreases s,
{
    if s.len() > 0 {
        added_below_all(m, root, before, s.drop_last(), p);
        added_below(m, root, before, s.last(), p);
        crate::diff::contains_of_paths(
            crate::diff::forest_added(m, s.drop_last()),
            crate::diff::tree_added(m, s.last()),
            p,
        );
        changed_of_sum(forest_entries(s.drop_last()), tree_entries(s.last()), before, p);
    }
}

/// Some entry of the snapshots in a folder, or below it, has this path and is not among `now`
/// with the same time.
spec fn gone_below(
    m: Map<PathKey, SnapSpec>,
    k: PathKey,
    now: Seq<EntrySpec>,
    p: PathSpec,
) -> bool {
    exists|e: EntrySpec| #[trigger]
        kept_entry(m, e) && e.path == p && inside(e.path.parts, k) && !crate::diff::unchanged_in(
            now,
            e,
        )
}

proof fn gone_folders(
    m: Map<PathKey, SnapSpec>,
    dirs: Seq<PathSpec>,
    kept: Seq<PathSpec>,
    p: PathSpec,
)
    ensures
        crate::diff::gone_media(m, dirs, kept).contains(p) <==> exists|i: int|
            0 <= i < dirs.len() && !crate::pathmap::has_key(kept, (#[trigger] dirs[i]).parts)
                && crate::diff::media_below(m, dirs[i].parts).contains(p),
    decreases dirs.len(),
{
    if dirs.len() > 0 {
        let front = dirs.drop_last();
        gone_folders(m, front, kept, p);
        crate::diff::contains_of_paths(
            crate::diff::gone_media(m, front, kept),
            crate::diff::media_below(m, dirs.last().parts),
            p,
        );
        assert(dirs[dirs.len() - 1] == dirs.last());
        if crate::diff::gone_media(m, front, kept).contains(p) {
            let i = choose|i: int|
                0 <= i < front.len() && !crate::pathmap::has_key(
                    kept,
                    (#[trigger] front[i]).parts,
                ) && crate::diff::media_below(m, front[i].parts).contains(p);
            assert(dirs[i] == front[i]);
        }
        if exists|i: int|
            0 <= i < dirs.len() && !crate::pathmap::has_key(kept, (#[trigger] dirs[i]).parts)
                && crate::diff::media_below(m, dirs[i].parts).contains(p) {
            let i = choose|i: int|
                0 <= i < dirs.len() && !crate::pathmap::has_key(
                    kept,
                    (#[trigger] dirs[i]).parts,
                ) && crate::diff::media_below(m, dirs[i].parts).contains(p);
            if i < front.len() {
                assert(front[i] == dirs[i]);
            }
        }
    }
}

/// An entry of a folder as it is read whose own folder is `f` is an entry of the folder itself
/// where `f` is that folder, and else of the subfolder that `f` lies in, or is.
proof fn entry_has_its_place(t: DirTree, x: EntrySpec)
    requires
        as_read(t),
        tree_entries(t).contains(x),
    ensures
        x.path.parts.drop_last() == t.path.key() ==> crate::scan::entries_view(
            t.images@,
        ).contains(x),
        x.path.parts.drop_last() != t.path.key() ==> exists|i: int|
            {
                &&& 0 <= i < t.children@.len()
                &&& tree_entries(#[trigger] t.children@[i]).contains(x)
                &&& inside(x.path.parts, t.children@[i].path.key())
            },
{
    let k = t.path.key();
    let own = crate::scan::entries_view(t.images@);
    let kids = t.children@;
    contains_of_entries(own, forest_entries(kids), x);
    if own.contains(x) {
        let i = choose|i: int| 0 <= i < own.len() && own[i] == x;
        assert(directly_in(own[i].path.parts, k));
    } else {
        entry_of_forest(kids, x);
        let i = choose|i: int| 0 <= i < kids.len() && tree_entries(#[trigger] kids[i]).contains(x);
        each_as_read(kids, i);
        entry_is_inside(kids[i], x);
        assert(crate::scan::tree_paths(kids)[i].parts == kids[i].path.key());
        starts_with_its_folder(kids[i].path.key(), k);
    }
}

proof fn gone_from_itself(t: DirTree, e: EntrySpec)
    requires
        as_read(t),
        e.path.parts.len() > 0,
        e.path.parts.drop_last() == t.path.key(),
    ensures
        crate::diff::unchanged_in(crate::scan::entries_view(t.images@), e)
            == crate::diff::unchanged_in(tree_entries(t), e),
{
    let own = crate::scan::entries_view(t.images@);
    unchanged_is_some_entry(own, e);
    unchanged_is_some_entry(tree_entries(t), e);
    if crate::diff::unchanged_in(own, e) {
        let x = choose|x: EntrySpec| #[trigger] own.contains(x) && same_entry(x, e);
        contains_of_entries(own, forest_entries(t.children@), x);
    }
    if crate::diff::unchanged_in(tree_entries(t), e) {
        let x = choose|x: EntrySpec| #[trigger] tree_entries(t).contains(x) && same_entry(x, e);
        entry_has_its_place(t, x);
    }
}

/// The subfolder that an entry below a folder lies in, if it is there, is one alone.
proof fn subfolder_is_one(t: DirTree, e: EntrySpec, c: PathKey, i: int)
    requires
        as_read(t),
        0 <= i < t.children@.len(),
        directly_in(c, t.path.key()),
        inside(e.path.parts, c),
        inside(e.path.parts, t.children@[i].path.key()),
    ensures
        t.children@[i].path.key() == c,
{
    let kids = t.children@;
    let f = e.path.parts.drop_last();
    assert(crate::scan::tree_paths(kids)[i].parts == kids[i].path.key());
    starts_with_its_folder(kids[i].path.key(), t.path.key());
    starts_with_its_folder(c, t.path.key());
    assert(f.take(c.len() as int) == c);
}

proof fn gone_from_subfolder(t: DirTree, e: EntrySpec, i: int)
    requires
        as_read(t),
        0 <= i < t.children@.len(),
        inside(e.path.parts, t.children@[i].path.key()),
    ensures
        crate::diff::unchanged_in(tree_entries(t.children@[i]), e) == crate::diff::unchanged_in(
            tree_entries(t),
            e,
        ),
{
    let kids = t.children@;
    let c = kids[i].path.key();
    let dirs = crate::scan::tree_paths(kids);
    assert(dirs[i].parts == c);
    starts_with_its_folder(c, t.path.key());
    unchanged_is_some_entry(tree_entries(kids[i]), e);
    unchanged_is_some_entry(tree_entries(t), e);
    if crate::diff::unchanged_in(tree_entries(kids[i]), e) {
        let x = choose|x: EntrySpec| #[trigger]
            tree_entries(kids[i]).contains(x) && same_entry(x, e);
        entry_of_forest(kids, x);
        contains_of_entries(crate::scan::entries_view(t.images@), forest_entries(kids), x);
    }
    if crate::diff::unchanged_in(tree_entries(t), e) {
        let x = choose|x: EntrySpec| #[trigger] tree_entries(t).contains(x) && same_entry(x, e);
        entry_has_its_place(t, x);
        assert(x.path.parts.drop_last() != t.path.key());
        let j = choose|j: int|
            {
                &&& 0 <= j < kids.len()
                &&& tree_entries(#[trigger] kids[j]).contains(x)
                &&& inside(x.path.parts, kids[j].path.key())
            };
        subfolder_is_one(t, x, c, j);
        assert(dirs[j].parts == dirs[i].parts);
        crate::path::path_order_is_total(dirs[i].parts, dirs[j].parts);
        assert(i == j);
    }
}

proof fn gone_from_absent_subfolder(t: DirTree, e: EntrySpec, c: PathKey)
    requires
        as_read(t),
        directly_in(c, t.path.key()),
        inside(e.path.parts, c),
        !crate::pathmap::has_key(crate::scan::tree_paths(t.children@), c),
    ensures
        !crate::diff::unchanged_in(tree_entries(t), e),
{
    let kids = t.children@;
    starts_with_its_folder(c, t.path.key());
    unchanged_is_some_entry(tree_entries(t), e);
    if crate::diff::unchanged_in(tree_entries(t), e) {
        let x = choose|x: EntrySpec| #[trigger] tree_entries(t).contains(x) && same_entry(x, e);
        entry_has_its_place(t, x);
        assert(x.path.parts.drop_last() != t.path.key());
        let j = choose|j: int|
            {
                &&& 0 <= j < kids.len()
                &&& tree_entries(#[trigger] kids[j]).contains(x)
                &&& inside(x.path.parts, kids[j].path.key())
            };
        subfolder_is_one(t, x, c, j);
        assert(crate::scan::tree_paths(kids)[j].parts == c);
    }
}

spec fn gone_from_some(m: Map<PathKey, SnapSpec>, s: Seq<DirTree>, p: PathSpec) -> bool {
    exists|i: int|
        0 <= i < s.len() && gone_below(
            m,
            (#[trigger] s[i]).path.key(),
            tree_entries(s[i]),
            p,
        )
}

proof fn removed_below(m: Map<PathKey, SnapSpec>, root: PathKey, t: DirTree, p: PathSpec)
    requires
        one_tree(m, root),
        as_read(t),
        crate::path::key_starts_with(t.path.key(), root),
    ensures
        crate::diff::tree_removed(m, t).contains(p) <==> gone_below(
            m,
            t.path.key(),
            tree_entries(t),
            p,
        ),
    decreases t,
{
    let k = t.path.key();
    let then = crate::diff::entries_then(crate::diff::snap_at(m, k));
    let now = crate::scan::entries_view(t.images@);
    let dirs = crate::diff::subdirs_then(crate::diff::snap_at(m, k));
    let kept = crate::scan::tree_paths(t.children@);
    let walk = crate::diff::walk_removed(then, now);
    let gone = crate::diff::gone_media(m, dirs, kept);
    crate::diff::contains_of_paths(walk, gone, p);
    crate::diff::contains_of_paths(
        crate::diff::gone_here(m, t),
        crate::diff::forest_removed(m, t.children@),
        p,
    );
    entries_then_are_kept(m, root, k, arbitrary());
    crate::diff::diff_finds_every_change(then, now, p);
    gone_folders(m, dirs, kept, p);
    assert forall|i: int| 0 <= i < t.children@.len() implies crate::path::key_starts_with(
        (#[trigger] t.children@[i]).path.key(),
        root,
    ) by {
        assert(kept[i].parts == t.children@[i].path.key());
        starts_with_its_folder(t.children@[i].path.key(), k);
        starts_in_turn(t.children@[i].path.key(), k, root);
    }
    removed_below_all(m, root, t.children@, p);
    if crate::diff::tree_removed(m, t).contains(p) {
        removed_is_gone(m, root, t, p);
    }
    if gone_below(m, k, tree_entries(t), p) {
        gone_is_removed(m, root, t, p);
    }
}

proof fn removed_below_all(m: Map<PathKey, SnapSpec>, root: PathKey, s: Seq<DirTree>, p: PathSpec)
    requires
        one_tree(m, root),
        all_as_read(s),
        forall|i: int|
            0 <= i < s.len() ==> crate::path::key_starts_with(
                (#[trigger] s[i]).path.key(),
                root,
            ),
    ensures
        crate::diff::forest_removed(m, s).contains(p) <==> gone_from_some(m, s, p),
    decreases s,
{
    if s.len() > 0 {
        let front = s.drop_last();
        assert forall|i: int| 0 <= i < front.len() implies crate::path::key_starts_with(
            (#[trigger] front[i]).path.key(),
            root,
        ) by {
            assert(front[i] == s[i]);
        }
        assert(s[s.len() - 1] == s.last());
        removed_below_all(m, root, front, p);
        removed_below(m, root, s.last(), p);
        crate::diff::contains_of_paths(
            crate::diff::forest_removed(m, front),
            crate::diff::tree_removed(m, s.last()),
            p,
        );
        if gone_from_some(m, front, p) {
            let i = choose|i: int|
                0 <= i < front.len() && gone_below(
                    m,
                    (#[trigger] front[i]).path.key(),
                    tree_entries(front[i]),
                    p,
                );
            assert(s[i] == front[i]);
        }
        if gone_from_some(m, s, p) {
            let i = choose|i: int|
                0 <= i < s.len() && gone_below(
                    m,
                    (#[trigger] s[i]).path.key(),
                    tree_entries(s[i]),
                    p,
                );
            if i < front.len() {
                assert(front[i] == s[i]);
            }
        }
    }
}

/// The three ways in which a medium of before can be missing from a folder: it was there
/// itself, it was in a subfolder that is gone, or it is missing from a subfolder.
spec fn removed_some_way(m: Map<PathKey, SnapSpec>, t: DirTree, p: PathSpec) -> bool {
    let dirs = crate::diff::subdirs_then(crate::diff::snap_at(m, t.path.key()));
    let kept = crate::scan::tree_paths(t.children@);
    ||| crate::diff::changed_path(
        crate::diff::entries_then(crate::diff::snap_at(m, t.path.key())),
        crate::scan::entries_view(t.images@),
        p,
    )
    ||| exists|i: int|
        0 <= i < dirs.len() && !crate::pathmap::has_key(kept, (#[trigger] dirs[i]).parts)
            && crate::diff::media_below(m, dirs[i].parts).contains(p)
    ||| gone_from_some(m, t.children@, p)
}

proof fn removed_is_gone(m: Map<PathKey, SnapSpec>, root: PathKey, t: DirTree, p: PathSpec)
    requires
        one_tree(m, root),
        as_read(t),
        crate::path::key_starts_with(t.path.key(), root),
        removed_some_way(m, t, p),
    ensures
        gone_below(m, t.path.key(), tree_entries(t), p),
{
    let k = t.path.key();
    let then = crate::diff::entries_then(crate::diff::snap_at(m, k));
    let now = crate::scan::entries_view(t.images@);
    let dirs = crate::diff::subdirs_then(crate::diff::snap_at(m, k));
    let kids = t.children@;
    let kept = crate::scan::tree_paths(kids);
    if crate::diff::changed_path(then, now, p) {
        let j = choose|j: int|
            0 <= j < then.len() && (#[trigger] then[j]).path == p && !crate::diff::unchanged_in(
                now,
                then[j],
            );
        let e = then[j];
        assert(then.contains(e));
        entries_then_are_kept(m, root, k, e);
        starts_with_its_folder(e.path.parts, k);
        gone_from_itself(t, e);
        assert(kept_entry(m, e));
    } else if gone_from_some(m, kids, p) {
        let i = choose|i: int|
            0 <= i < kids.len() && gone_below(
                m,
                (#[trigger] kids[i]).path.key(),
                tree_entries(kids[i]),
                p,
            );
        let c = kids[i].path.key();
        let e = choose|e: EntrySpec| #[trigger]
            kept_entry(m, e) && e.path == p && inside(e.path.parts, c)
                && !crate::diff::unchanged_in(tree_entries(kids[i]), e);
        gone_from_subfolder(t, e, i);
        assert(kept[i].parts == c);
        starts_with_its_folder(c, k);
        starts_in_turn(e.path.parts.drop_last(), c, k);
        assert(kept_entry(m, e));
    } else {
        let i = choose|i: int|
            0 <= i < dirs.len() && !crate::pathmap::has_key(kept, (#[trigger] dirs[i]).parts)
                && crate::diff::media_below(m, dirs[i].parts).contains(p);
        let c = dirs[i].parts;
        assert(m.dom().contains(k));
        assert(linked(m, root, k));
        assert(directly_in(dirs[i].parts, k));
        starts_with_its_folder(c, k);
        starts_in_turn(c, k, root);
        below_is_all_below(m, root, c, p);
        let e = choose|e: EntrySpec| #[trigger]
            kept_entry(m, e) && e.path == p && inside(e.path.parts, c);
        gone_from_absent_subfolder(t, e, c);
        starts_in_turn(e.path.parts.drop_last(), c, k);
        assert(kept_entry(m, e));
    }
}

proof fn gone_is_removed(m: Map<PathKey, SnapSpec>, root: PathKey, t: DirTree, p: PathSpec)
    requires
        one_tree(m, root),
        as_read(t),
        crate::path::key_starts_with(t.path.key(), root),
        gone_below(m, t.path.key(), tree_entries(t), p),
    ensures
        removed_some_way(m, t, p),
{
    let k = t.path.key();
    let then = crate::diff::entries_then(crate::diff::snap_at(m, k));
    let now = crate::scan::entries_view(t.images@);
    let kids = t.children@;
    let kept = crate::scan::tree_paths(kids);
    let e = choose|e: EntrySpec| #[trigger]
        kept_entry(m, e) && e.path == p && inside(e.path.parts, k) && !crate::diff::unchanged_in(
            tree_entries(t),
            e,
        );
    let f = e.path.parts.drop_last();
    if f.len() == k.len() {
        assert(f.take(k.len() as int) =~= f);
        entries_then_are_kept(m, root, k, e);
        gone_from_itself(t, e);
        let j = choose|j: int| 0 <= j < then.len() && then[j] == e;
        assert(then[j].path == p);
    } else {
        let c = f.take(k.len() as int + 1);
        first_below(f, k);
        starts_with_its_folder(c, k);
        starts_in_turn(c, k, root);
        let g = choose|g: PathKey| #[trigger] m.dom().contains(g) && m[g].images.contains(e);
        assert(linked(m, root, g));
        let n = choose|n: int| 0 <= n < m[g].images.len() && m[g].images[n] == e;
        assert(directly_in(m[g].images[n].path.parts, g));
        way_is_known(m, root, f, c);
        assert(linked(m, root, c));
        if crate::pathmap::has_key(kept, c) {
            let i = choose|i: int| 0 <= i < kept.len() && (#[trigger] kept[i]).parts == c;
            assert(kids[i].path.key() == c);
            gone_from_subfolder(t, e, i);
            assert(gone_below(m, kids[i].path.key(), tree_entries(kids[i]), p));
        } else {
            let dirs = m[k].subdirs;
            let i = choose|i: int| 0 <= i < dirs.len() && (#[trigger] dirs[i]).parts == c;
            assert(has_entry_below(m, c, p));
            below_is_all_below(m, root, c, p);
            assert(crate::diff::subdirs_then(crate::diff::snap_at(m, k)) == dirs);
            assert(!crate::pathmap::has_key(kept, dirs[i].parts));
        }
    }
}

/// Of two readings of a folder, with all folders below it, the second scan reports as new
/// exactly the entries that the first reading does not have with the same time, and as gone
/// exactly the entries of the first reading that the second does not have with the same time;
/// the media of subfolders that came or went are among them.
pub proof fn a_scan_reports_every_change(before: DirTree, now: DirTree, p: PathSpec)
    requires
        as_read(before),
        as_read(now),
        before.path.key() == now.path.key(),
    ensures
        crate::diff::tree_added(crate::scan::tree_snaps(Map::empty(), before), now).contains(p)
            <==> crate::diff::changed_path(tree_entries(now), tree_entries(before), p),
        crate::diff::tree_removed(crate::scan::tree_snaps(Map::empty(), before), now).contains(p)
            <==> crate::diff::changed_path(tree_entries(before), tree_entries(now), p),
{
    let m = crate::scan::tree_snaps(Map::empty(), before);
    let root = before.path.key();
    let old_entries = tree_entries(before);
    snapshots_are_one_tree(before);
    assert forall|e: EntrySpec| #[trigger] old_entries.contains(e) <==> kept_entry(m, e) by {
        snapshots_hold_every_entry(before, e);
    }
    added_below(m, root, old_entries, now, p);
    starts_with_itself(root);
    removed_below(m, root, now, p);
    if gone_below(m, root, tree_entries(now), p) {
        let e = choose|e: EntrySpec| #[trigger]
            kept_entry(m, e) && e.path == p && inside(e.path.parts, root)
                && !crate::diff::unchanged_in(tree_entries(now), e);
        assert(old_entries.contains(e));
        let j = choose|j: int| 0 <= j < old_entries.len() && old_entries[j] == e;
        assert(old_entries[j].path == p);
    }
    if crate::diff::changed_path(old_entries, tree_entries(now), p) {
        let j = choose|j: int|
            0 <= j < old_entries.len() && (#[trigger] old_entries[j]).path == p
                && !crate::diff::unchanged_in(tree_entries(now), old_entries[j]);
        let e = old_entries[j];
        assert(old_entries.contains(e));
        entry_is_inside(before, e);
        assert(kept_entry(m, e));
    }
}

/// A medium of these components is among `s`, and not among `other` with the same time.
pub open spec fn changed_key(s: Seq<EntrySpec>, other: Seq<EntrySpec>, k: PathKey) -> bool {
    exists|j: int|
        0 <= j < s.len() && (#[trigger] s[j]).path.parts == k && !crate::diff::unchanged_in(
            other,
            s[j],
        )
}

/// The lists of a second scan of a folder: `added` are exactly the media that the first reading
/// lacks with the same time, `gone` exactly those of the first that are lacking now. A medium in
/// both was written in between, and where nothing changed both are empty.
pub proof fn the_lists_of_a_scan_are_exact(
    before: DirTree,
    now: DirTree,
    added: Seq<PathSpec>,
    gone: Seq<PathSpec>,
)
    requires
        as_read(before),
        as_read(now),
        before.path.key() == now.path.key(),
        crate::pathmap::lists(
            added,
            crate::pathmap::add_paths(
                Map::empty(),
                crate::diff::tree_added(crate::scan::tree_snaps(Map::empty(), before), now),
            ),
        ),
        crate::pathmap::lists(
            gone,
            crate::pathmap::add_paths(
                Map::empty(),
                crate::diff::tree_removed(crate::scan::tree_snaps(Map::empty(), before), now),
            ),
        ),
    ensures
        paths_in_order(added),
        paths_in_order(gone),
        forall|k: PathKey| #[trigger]
            crate::pathmap::has_key(added, k) <==> changed_key(
                tree_entries(now),
                tree_entries(before),
                k,
            ),
        forall|k: PathKey| #[trigger]
            crate::pathmap::has_key(gone, k) <==> changed_key(
                tree_entries(before),
                tree_entries(now),
                k,
            ),
        forall|k: PathKey| #[trigger]
            crate::pathmap::has_key(added, k) && crate::pathmap::has_key(gone, k) ==> exists|
                i: int,
                j: int,
            |
                {
                    &&& 0 <= i < tree_entries(now).len() && 0 <= j < tree_entries(before).len()
                    &&& (#[trigger] tree_entries(now)[i]).path.parts == k
                    &&& (#[trigger] tree_entries(before)[j]).path.parts == k
                    &&& tree_entries(now)[i].mtime != tree_entries(before)[j].mtime
                },
        (forall|i: int|
            0 <= i < tree_entries(now).len() ==> crate::diff::unchanged_in(
                tree_entries(before),
                #[trigger] tree_entries(now)[i],
            )) ==> added.len() == 0,
        (forall|i: int|
            0 <= i < tree_entries(before).len() ==> crate::diff::unchanged_in(
                tree_entries(now),
                #[trigger] tree_entries(before)[i],
            )) ==> gone.len() == 0,
{
    let m = crate::scan::tree_snaps(Map::empty(), before);
    let c = tree_entries(now);
    let o = tree_entries(before);
    assert forall|p: PathSpec| #[trigger] crate::diff::tree_added(m, now).contains(p)
        <==> crate::diff::changed_path(c, o, p) by {
        a_scan_reports_every_change(before, now, p);
    }
    assert forall|p: PathSpec| #[trigger] crate::diff::tree_removed(m, now).contains(p)
        <==> crate::diff::changed_path(o, c, p) by {
        a_scan_reports_every_change(before, now, p);
    }
    assert forall|k: PathKey| #[trigger] crate::pathmap::has_key(added, k) <==> changed_key(
        c,
        o,
        k,
    ) by {
        listed_by_key(crate::diff::tree_added(m, now), added, c, o, k);
    }
    assert forall|k: PathKey| #[trigger] crate::pathmap::has_key(gone, k) <==> changed_key(
        o,
        c,
        k,
    ) by {
        listed_by_key(crate::diff::tree_removed(m, now), gone, o, c, k);
    }
    assert forall|k: PathKey| #[trigger]
        crate::pathmap::has_key(added, k) && crate::pathmap::has_key(gone, k) implies exists|
        i: int,
        j: int,
    |
        {
            &&& 0 <= i < c.len() && 0 <= j < o.len()
            &&& (#[trigger] c[i]).path.parts == k
            &&& (#[trigger] o[j]).path.parts == k
            &&& c[i].mtime != o[j].mtime
        } by {
        let i = choose|i: int|
            0 <= i < c.len() && (#[trigger] c[i]).path.parts == k && !crate::diff::unchanged_in(
                o,
                c[i],
            );
        let j = choose|j: int|
            0 <= j < o.len() && (#[trigger] o[j]).path.parts == k && !crate::diff::unchanged_in(
                c,
                o[j],
            );
        assert(c[i].mtime != o[j].mtime);
    }
    if added.len() > 0 {
        assert(crate::pathmap::has_key(added, added[0].parts));
    }
    if gone.len() > 0 {
        assert(crate::pathmap::has_key(gone, gone[0].parts));
    }
}

proof fn listed_by_key(
    found: Seq<PathSpec>,
    list: Seq<PathSpec>,
    s: Seq<EntrySpec>,
    other: Seq<EntrySpec>,
    k: PathKey,
)
    requires
        crate::pathmap::lists(list, crate::pathmap::add_paths(Map::empty(), found)),
        forall|p: PathSpec| #[trigger]
            found.contains(p) <==> crate::diff::changed_path(s, other, p),
    ensures
        crate::pathmap::has_key(list, k) <==> changed_key(s, other, k),
{
    crate::pathmap::added_paths_are_there(Map::empty(), found);
    let all = crate::pathmap::add_paths(Map::empty(), found);
    assert(all.dom().contains(k) <==> crate::pathmap::has_key(list, k));
    if crate::pathmap::has_key(found, k) {
        let i = choose|i: int| 0 <= i < found.len() && (#[trigger] found[i]).parts == k;
        assert(found.contains(found[i]));
        let j = choose|j: int|
            0 <= j < s.len() && (#[trigger] s[j]).path == found[i] && !crate::diff::unchanged_in(
                other,
                s[j],
            );
        assert(s[j].path.parts == k);
    }
    if changed_key(s, other, k) {
        let j = choose|j: int|
            0 <= j < s.len() && (#[trigger] s[j]).path.parts == k && !crate::diff::unchanged_in(
                other,
                s[j],
            );
        assert(crate::diff::changed_path(s, other, s[j].path));
        assert(found.contains(s[j].path));
        let i = choose|i: int| 0 <= i < found.len() && found[i] == s[j].path;
        assert(found[i].parts == k);
    }
}

// ── A folder that already lies in the library ────────────────────────────────

/// Two lists of entries are the same, entry by entry.
pub open spec fn same_entries(a: Seq<EntrySpec>, b: Seq<EntrySpec>) -> bool {
    &&& a.len() == b.len()
    &&& forall|i: int|
        0 <= i < a.len() ==> (#[trigger] a[i]).path.parts == (#[trigger] b[i]).path.parts
            && a[i].mtime == b[i].mtime
}

/// Two readings of a folder found the same.
pub open spec fn same_tree(a: DirTree, b: DirTree) -> bool
    decreases a,
{
    &&& a.path.key() == b.path.key()
    &&& same_entries(crate::scan::entries_view(a.images@), crate::scan::entries_view(b.images@))
    &&& same_trees(a.children@, b.children@)
}

/// Two readings of a list of folders found the same.
pub open spec fn same_trees(a: Seq<DirTree>, b: Seq<DirTree>) -> bool
    decreases a,
{
    a.len() == b.len() && (a.len() == 0 || (same_trees(a.drop_last(), b.drop_last()) && same_tree(
        a.last(),
        b.last(),
    )))
}

/// A folder is the other, or the other lies somewhere below it.
pub open spec fn holds_tree(t: DirTree, x: DirTree) -> bool
    decreases t,
{
    same_tree(t, x) || some_holds_tree(t.children@, x)
}

/// Some folder of a list is the other, or the other lies somewhere below it.
pub open spec fn some_holds_tree(s: Seq<DirTree>, x: DirTree) -> bool
    decreases s,
{
    s.len() > 0 && (some_holds_tree(s.drop_last(), x) || holds_tree(s.last(), x))
}

proof fn has_group_of_sum(a: Seq<GroupSpec>, b: Seq<GroupSpec>, k: PathKey)
    ensures
        crate::scan::has_group(a + b, k) <==> crate::scan::has_group(a, k)
            || crate::scan::has_group(b, k),
{
    let c = a + b;
    if crate::scan::has_group(c, k) {
        let i = choose|i: int| 0 <= i < c.len() && (#[trigger] c[i]).path.parts == k;
        if i < a.len() {
            assert(a[i].path.parts == k);
        } else {
            assert(b[i - a.len()].path.parts == k);
        }
    }
    if crate::scan::has_group(a, k) {
        let i = choose|i: int| 0 <= i < a.len() && (#[trigger] a[i]).path.parts == k;
        assert(c[i].path.parts == k);
    }
    if crate::scan::has_group(b, k) {
        let i = choose|i: int| 0 <= i < b.len() && (#[trigger] b[i]).path.parts == k;
        assert(c[a.len() + i].path.parts == k);
    }
}

/// What a folder shows of a path, or has of it: a group, itself or a folder below it, and an
/// entry at a time.
spec fn shows(t: DirTree, k: PathKey, e: EntrySpec) -> (bool, bool, bool) {
    (
        crate::scan::has_group(crate::scan::tree_groups(t), k),
        crate::diff::tree_keys(t).contains(k),
        crate::diff::unchanged_in(tree_entries(t), e),
    )
}

spec fn all_show(s: Seq<DirTree>, k: PathKey, e: EntrySpec) -> (bool, bool, bool) {
    (
        crate::scan::has_group(crate::scan::forest_groups(s), k),
        crate::diff::forest_keys(s).contains(k),
        crate::diff::unchanged_in(forest_entries(s), e),
    )
}

proof fn unchanged_of_sum(a: Seq<EntrySpec>, b: Seq<EntrySpec>, e: EntrySpec)
    ensures
        crate::diff::unchanged_in(a + b, e) <==> crate::diff::unchanged_in(a, e)
            || crate::diff::unchanged_in(b, e),
{
    unchanged_is_some_entry(a + b, e);
    unchanged_is_some_entry(a, e);
    unchanged_is_some_entry(b, e);
    if crate::diff::unchanged_in(a + b, e) {
        let x = choose|x: EntrySpec| #[trigger] (a + b).contains(x) && same_entry(x, e);
        contains_of_entries(a, b, x);
    }
    if crate::diff::unchanged_in(a, e) {
        let x = choose|x: EntrySpec| #[trigger] a.contains(x) && same_entry(x, e);
        contains_of_entries(a, b, x);
    }
    if crate::diff::unchanged_in(b, e) {
        let x = choose|x: EntrySpec| #[trigger] b.contains(x) && same_entry(x, e);
        contains_of_entries(a, b, x);
    }
}

proof fn shows_by_parts(t: DirTree, k: PathKey, e: EntrySpec)
    ensures
        shows(t, k, e).0 <==> (t.images@.len() > 0 && t.path.key() == k) || all_show(
            t.children@,
            k,
            e,
        ).0,
        shows(t, k, e).1 <==> t.path.key() == k || all_show(t.children@, k, e).1,
        shows(t, k, e).2 <==> crate::diff::unchanged_in(
            crate::scan::entries_view(t.images@),
            e,
        ) || all_show(t.children@, k, e).2,
{
    let own = crate::scan::own_groups(t);
    has_group_of_sum(own, crate::scan::forest_groups(t.children@), k);
    if t.images@.len() > 0 {
        assert(own[0].path == t.path@);
    }
    let top = seq![t.path.key()];
    assert(top[0] == t.path.key());
    crate::diff::contains_of_sum(top, crate::diff::forest_keys(t.children@), k);
    unchanged_of_sum(crate::scan::entries_view(t.images@), forest_entries(t.children@), e);
}

proof fn all_show_by_parts(s: Seq<DirTree>, k: PathKey, e: EntrySpec)
    requires
        s.len() > 0,
    ensures
        all_show(s, k, e).0 <==> all_show(s.drop_last(), k, e).0 || shows(s.last(), k, e).0,
        all_show(s, k, e).1 <==> all_show(s.drop_last(), k, e).1 || shows(s.last(), k, e).1,
        all_show(s, k, e).2 <==> all_show(s.drop_last(), k, e).2 || shows(s.last(), k, e).2,
{
    has_group_of_sum(
        crate::scan::forest_groups(s.drop_last()),
        crate::scan::tree_groups(s.last()),
        k,
    );
    crate::diff::contains_of_sum(
        crate::diff::forest_keys(s.drop_last()),
        crate::diff::tree_keys(s.last()),
        k,
    );
    unchanged_of_sum(forest_entries(s.drop_last()), tree_entries(s.last()), e);
}

proof fn same_entries_hold_the_same(a: Seq<EntrySpec>, b: Seq<EntrySpec>, e: EntrySpec)
    requires
        same_entries(a, b),
        crate::diff::unchanged_in(b, e),
    ensures
        crate::diff::unchanged_in(a, e),
{
    let i = choose|i: int|
        0 <= i < b.len() && (#[trigger] b[i]).path.parts == e.path.parts && b[i].mtime == e.mtime;
    assert(a[i].path.parts == b[i].path.parts);
}

proof fn same_tree_shows_the_same(t: DirTree, x: DirTree, k: PathKey, e: EntrySpec)
    requires
        same_tree(t, x),
    ensures
        shows(x, k, e).0 ==> shows(t, k, e).0,
        shows(x, k, e).1 ==> shows(t, k, e).1,
        shows(x, k, e).2 ==> shows(t, k, e).2,
    decreases t,
{
    let a = crate::scan::entries_view(t.images@);
    let b = crate::scan::entries_view(x.images@);
    assert(a.len() == t.images@.len() && b.len() == x.images@.len());
    shows_by_parts(t, k, e);
    shows_by_parts(x, k, e);
    same_trees_show_the_same(t.children@, x.children@, k, e);
    if crate::diff::unchanged_in(b, e) {
        same_entries_hold_the_same(a, b, e);
    }
}

proof fn same_trees_show_the_same(s: Seq<DirTree>, t: Seq<DirTree>, k: PathKey, e: EntrySpec)
    requires
        same_trees(s, t),
    ensures
        all_show(t, k, e).0 ==> all_show(s, k, e).0,
        all_show(t, k, e).1 ==> all_show(s, k, e).1,
        all_show(t, k, e).2 ==> all_show(s, k, e).2,
    decreases s,
{
    if s.len() > 0 {
        all_show_by_parts(s, k, e);
        all_show_by_parts(t, k, e);
        same_trees_show_the_same(s.drop_last(), t.drop_last(), k, e);
        same_tree_shows_the_same(s.last(), t.last(), k, e);
    }
}

proof fn held_tree_shows_no_more(t: DirTree, x: DirTree, k: PathKey, e: EntrySpec)
    requires
        holds_tree(t, x),
    ensures
        shows(x, k, e).0 ==> shows(t, k, e).0,
        shows(x, k, e).1 ==> shows(t, k, e).1,
        shows(x, k, e).2 ==> shows(t, k, e).2,
    decreases t,
{
    shows_by_parts(t, k, e);
    if same_tree(t, x) {
        same_tree_shows_the_same(t, x, k, e);
    } else {
        tree_held_by_some_shows_no_more(t.children@, x, k, e);
    }
}

proof fn tree_held_by_some_shows_no_more(s: Seq<DirTree>, x: DirTree, k: PathKey, e: EntrySpec)
    requires
        some_holds_tree(s, x),
    ensures
        shows(x, k, e).0 ==> all_show(s, k, e).0,
        shows(x, k, e).1 ==> all_show(s, k, e).1,
        shows(x, k, e).2 ==> all_show(s, k, e).2,
    decreases s,
{
    all_show_by_parts(s, k, e);
    if some_holds_tree(s.drop_last(), x) {
        tree_held_by_some_shows_no_more(s.drop_last(), x, k, e);
    } else {
        held_tree_shows_no_more(s.last(), x, k, e);
    }
}

/// Some medium of a folder as it is read, or of a folder below it, has these components.
spec fn has_medium(t: DirTree, k: PathKey) -> bool {
    exists|p: PathSpec| #[trigger]
        crate::scan::media_in(crate::scan::tree_snaps(Map::empty(), t), p) && p.parts == k
}

proof fn held_tree_has_no_more_media(t: DirTree, x: DirTree, p: PathSpec)
    requires
        as_read(t),
        as_read(x),
        holds_tree(t, x),
        crate::scan::media_in(crate::scan::tree_snaps(Map::empty(), x), p),
    ensures
        has_medium(t, p.parts),
{
    let mt = crate::scan::tree_snaps(Map::empty(), t);
    let mx = crate::scan::tree_snaps(Map::empty(), x);
    let k = choose|k: PathKey| #[trigger]
        mx.dom().contains(k) && crate::scan::entry_paths(mx[k].images).contains(p);
    let paths = crate::scan::entry_paths(mx[k].images);
    let i = choose|i: int| 0 <= i < paths.len() && paths[i] == p;
    let e = mx[k].images[i];
    assert(mx[k].images.contains(e));
    assert(kept_entry(mx, e));
    snapshots_hold_every_entry(x, e);
    unchanged_is_some_entry(tree_entries(x), e);
    assert(tree_entries(x).contains(e) && same_entry(e, e));
    held_tree_shows_no_more(t, x, k, e);
    unchanged_is_some_entry(tree_entries(t), e);
    let f = choose|f: EntrySpec| #[trigger] tree_entries(t).contains(f) && same_entry(f, e);
    snapshots_hold_every_entry(t, f);
    let n = choose|n: PathKey| #[trigger] mt.dom().contains(n) && mt[n].images.contains(f);
    let j = choose|j: int| 0 <= j < mt[n].images.len() && mt[n].images[j] == f;
    assert(crate::scan::entry_paths(mt[n].images)[j] == f.path);
    assert(crate::scan::entry_paths(mt[n].images).contains(f.path));
    assert(crate::scan::media_in(mt, f.path));
}

proof fn groups_that_are_there_add_nothing(a: Seq<GroupSpec>, b: Seq<GroupSpec>)
    requires
        forall|i: int|
            0 <= i < b.len() ==> crate::scan::has_group(a, (#[trigger] b[i]).path.parts),
    ensures
        crate::scan::first_groups(a + b) == crate::scan::first_groups(a),
    decreases b.len(),
{
    if b.len() == 0 {
        assert(a + b =~= a);
    } else {
        let front = b.drop_last();
        assert forall|i: int| 0 <= i < front.len() implies crate::scan::has_group(
            a,
            (#[trigger] front[i]).path.parts,
        ) by {
            assert(front[i] == b[i]);
        }
        groups_that_are_there_add_nothing(a, front);
        let c = a + b;
        assert(c.drop_last() =~= a + front);
        assert(c.last() == b[b.len() - 1]);
        let k = b.last().path.parts;
        let i = choose|i: int| 0 <= i < a.len() && (#[trigger] a[i]).path.parts == k;
        assert((a + front)[i].path.parts == k);
    }
}

/// A folder that already lies in the library, as one of its folders or below one, adds no
/// group and no medium, and no snapshot where all was read at one time. `groups` and `media`
/// are what the scan of the library finds, `more_groups` and `more_media` what it finds with
/// that folder.
pub proof fn a_folder_in_the_library_adds_nothing(
    folders: Seq<DirTree>,
    n: int,
    x: DirTree,
    groups: Seq<GroupSpec>,
    more_groups: Seq<GroupSpec>,
    media: Seq<PathSpec>,
    more_media: Seq<PathSpec>,
)
    requires
        0 <= n < folders.len(),
        as_read(folders[n]),
        as_read(x),
        holds_tree(folders[n], x),
        crate::sort::stable_sort_of(
            groups,
            crate::scan::first_groups(crate::scan::forest_groups(folders)),
            crate::scan::group_before(),
        ),
        crate::sort::stable_sort_of(
            more_groups,
            crate::scan::first_groups(crate::scan::forest_groups(folders.push(x))),
            crate::scan::group_before(),
        ),
        crate::scan::lists_media(
            media,
            |p: PathSpec| crate::scan::library_media(folders, p),
        ),
        crate::scan::lists_media(
            more_media,
            |p: PathSpec| crate::scan::library_media(folders.push(x), p),
        ),
    ensures
        more_groups == groups,
        forall|k: PathKey| #[trigger]
            crate::pathmap::has_key(more_media, k) <==> crate::pathmap::has_key(media, k),
        read_at_once(folders.push(x)) ==> crate::scan::library_snaps(folders.push(x))
            == crate::scan::library_snaps(folders),
{
    let all = folders.push(x);
    assert(all.drop_last() =~= folders);
    let a = crate::scan::forest_groups(folders);
    let b = crate::scan::tree_groups(x);
    assert forall|i: int| 0 <= i < b.len() implies crate::scan::has_group(
        a,
        (#[trigger] b[i]).path.parts,
    ) by {
        let k = b[i].path.parts;
        assert(crate::scan::has_group(b, k));
        held_tree_shows_no_more(folders[n], x, k, arbitrary());
        library_has_its_groups(folders, n, k);
    }
    groups_that_are_there_add_nothing(a, b);
    group_order_is_asymmetric();
    crate::sort::sorting_has_one_result(
        groups,
        more_groups,
        crate::scan::first_groups(a),
        crate::scan::group_before(),
    );
    same_media_same_lists(folders, n, x, media, more_media);
    if read_at_once(all) {
        snapshots_that_are_there_add_nothing(folders, n, x);
    }
}

proof fn snapshots_that_are_there_add_nothing(folders: Seq<DirTree>, n: int, x: DirTree)
    requires
        0 <= n < folders.len(),
        as_read(folders[n]),
        as_read(x),
        holds_tree(folders[n], x),
        read_at_once(folders.push(x)),
    ensures
        crate::scan::library_snaps(folders.push(x)) == crate::scan::library_snaps(folders),
{
    let all = folders.push(x);
    assert(all.drop_last() =~= folders);
    let s = crate::scan::library_snaps(folders);
    let mx = crate::scan::tree_snaps(Map::empty(), x);
    let mt = crate::scan::tree_snaps(Map::empty(), folders[n]);
    snapshots_hold_every_folder(folders[n]);
    snapshots_hold_every_folder(x);
    assert forall|k: PathKey| #[trigger] mx.dom().contains(k) implies s.dom().contains(k) && s[k]
        == mx[k] by {
        held_tree_shows_no_more(folders[n], x, k, arbitrary());
        assert(mt.dom().contains(k));
        let j = library_has_some_snapshot(folders, k);
        assert(all[j] == folders[j] && all[folders.len() as int] == x);
        assert(crate::scan::tree_snaps(Map::empty(), all[j]).dom().contains(k));
        assert(crate::scan::tree_snaps(Map::empty(), all[folders.len() as int]).dom().contains(k));
    }
    assert(crate::scan::library_snaps(all) =~= s);
}

proof fn library_has_its_groups(s: Seq<DirTree>, n: int, k: PathKey)
    requires
        0 <= n < s.len(),
        crate::scan::has_group(crate::scan::tree_groups(s[n]), k),
    ensures
        crate::scan::has_group(crate::scan::forest_groups(s), k),
    decreases s.len(),
{
    let front = s.drop_last();
    if n < front.len() {
        library_has_its_groups(front, n, k);
    }
    has_group_of_sum(
        crate::scan::forest_groups(front),
        crate::scan::tree_groups(s.last()),
        k,
    );
}

proof fn group_order_is_asymmetric()
    ensures
        forall|a: GroupSpec, b: GroupSpec| #[trigger]
            crate::scan::group_before()(a, b) ==> !crate::scan::group_before()(b, a),
{
    assert forall|a: GroupSpec, b: GroupSpec| #[trigger]
        crate::scan::group_before()(a, b) implies !crate::scan::group_before()(b, a) by {
        crate::text::text_order_is_total(
            crate::text::lower_text(a.path.text),
            crate::text::lower_text(b.path.text),
        );
    }
}

proof fn same_media_same_lists(
    folders: Seq<DirTree>,
    n: int,
    x: DirTree,
    media: Seq<PathSpec>,
    more_media: Seq<PathSpec>,
)
    requires
        0 <= n < folders.len(),
        as_read(folders[n]),
        as_read(x),
        holds_tree(folders[n], x),
        crate::scan::lists_media(
            media,
            |p: PathSpec| crate::scan::library_media(folders, p),
        ),
        crate::scan::lists_media(
            more_media,
            |p: PathSpec| crate::scan::library_media(folders.push(x), p),
        ),
    ensures
        forall|k: PathKey| #[trigger]
            crate::pathmap::has_key(more_media, k) <==> crate::pathmap::has_key(media, k),
{
    let all = folders.push(x);
    let a = |p: PathSpec| crate::scan::library_media(folders, p);
    let b = |p: PathSpec| crate::scan::library_media(all, p);
    assert forall|k: PathKey| #[trigger] crate::pathmap::has_key(more_media, k)
        <==> crate::pathmap::has_key(media, k) by {
        if crate::pathmap::has_key(more_media, k) {
            let i = choose|i: int|
                0 <= i < more_media.len() && (#[trigger] more_media[i]).parts == k;
            let p = more_media[i];
            assert(b(p));
            let j = choose|j: int|
                0 <= j < all.len() && crate::scan::media_in(
                    crate::scan::tree_snaps(Map::empty(), #[trigger] all[j]),
                    p,
                );
            if j < folders.len() {
                assert(folders[j] == all[j]);
                assert(a(p));
            } else {
                held_tree_has_no_more_media(folders[n], x, p);
                let q = choose|q: PathSpec| #[trigger]
                    crate::scan::media_in(
                        crate::scan::tree_snaps(Map::empty(), folders[n]),
                        q,
                    ) && q.parts == p.parts;
                assert(a(q));
            }
        }
        if crate::pathmap::has_key(media, k) {
            let i = choose|i: int| 0 <= i < media.len() && (#[trigger] media[i]).parts == k;
            let p = media[i];
            assert(a(p));
            let j = choose|j: int|
                0 <= j < folders.len() && crate::scan::media_in(
                    crate::scan::tree_snaps(Map::empty(), #[trigger] folders[j]),
                    p,
                );
            assert(all[j] == folders[j]);
            assert(b(p));
        }
    }
}

// ── What is shown of what is there ───────────────────────────────────────────

proof fn media_of_two_lists(a: Seq<GroupSpec>, b: Seq<GroupSpec>)
    ensures
        crate::index::groups_media(a + b) == crate::index::groups_media(a)
            + crate::index::groups_media(b),
    decreases b.len(),
{
    if b.len() == 0 {
        assert(a + b =~= a);
        assert(crate::index::groups_media(a) + crate::index::groups_media(b)
            =~= crate::index::groups_media(a));
    } else {
        media_of_two_lists(a, b.drop_last());
        assert((a + b).drop_last() =~= a + b.drop_last());
        assert((a + b).last() == b.last());
        assert(crate::index::groups_media(a + b) =~= crate::index::groups_media(a)
            + crate::index::groups_media(b));
    }
}

/// The media on show are those of the folder and of all folders below it, every one of them, in the
/// order in which the folders are gone through.
pub proof fn every_medium_is_on_show(t: DirTree)
    ensures
        crate::index::groups_media(crate::scan::tree_groups(t)) == crate::scan::entry_paths(
            tree_entries(t),
        ),
    decreases t,
{
    let own = crate::scan::own_groups(t);
    let rest = crate::scan::forest_groups(t.children@);
    let images = crate::scan::entries_view(t.images@);
    media_of_two_lists(own, rest);
    every_medium_of_folders_is_on_show(t.children@);
    if images.len() == 0 {
        assert(crate::index::groups_media(own) =~= crate::scan::entry_paths(images));
    } else {
        assert(own.drop_last().len() == 0);
        assert(crate::index::groups_media(own.drop_last()) =~= Seq::empty());
        assert(own.last() == crate::scan::group_of(t.path@, images));
        assert(crate::index::groups_media(own) =~= crate::scan::entry_paths(images));
    }
    assert(crate::scan::entry_paths(images) + crate::scan::entry_paths(forest_entries(t.children@))
        =~= crate::scan::entry_paths(tree_entries(t)));
}

/// The media on show of a list of folders are all of theirs.
pub proof fn every_medium_of_folders_is_on_show(s: Seq<DirTree>)
    ensures
        crate::index::groups_media(crate::scan::forest_groups(s)) == crate::scan::entry_paths(
            forest_entries(s),
        ),
    decreases s,
{
    if s.len() == 0 {
        assert(crate::index::groups_media(crate::scan::forest_groups(s))
            =~= crate::scan::entry_paths(forest_entries(s)));
    } else {
        every_medium_of_folders_is_on_show(s.drop_last());
        every_medium_is_on_show(s.last());
        media_of_two_lists(
            crate::scan::forest_groups(s.drop_last()),
            crate::scan::tree_groups(s.last()),
        );
        assert(crate::scan::entry_paths(forest_entries(s.drop_last()))
            + crate::scan::entry_paths(tree_entries(s.last())) =~= crate::scan::entry_paths(
            forest_entries(s),
        ));
    }
}

proof fn entries_of_some_folder(s: Seq<DirTree>, i: int, e: EntrySpec)
    requires
        0 <= i < s.len(),
        tree_entries(s[i]).contains(e),
    ensures
        forest_entries(s).contains(e),
    decreases s.len(),
{
    contains_of_entries(forest_entries(s.drop_last()), tree_entries(s.last()), e);
    if i < s.len() - 1 {
        assert(s.drop_last()[i] == s[i]);
        entries_of_some_folder(s.drop_last(), i, e);
    }
}

/// The media of a folder are its own and all those of the folders in it, and so on down.
pub proof fn media_of_subfolders_are_media_of_the_folder(t: DirTree, i: int, e: EntrySpec)
    ensures
        0 <= i < t.images@.len() && t.images@[i]@ == e ==> tree_entries(t).contains(e),
        0 <= i < t.children@.len() && tree_entries(t.children@[i]).contains(e) ==> tree_entries(
            t,
        ).contains(e),
{
    let own = crate::scan::entries_view(t.images@);
    contains_of_entries(own, forest_entries(t.children@), e);
    if 0 <= i < t.images@.len() && t.images@[i]@ == e {
        assert(own[i] == e);
    }
    if 0 <= i < t.children@.len() && tree_entries(t.children@[i]).contains(e) {
        entries_of_some_folder(t.children@, i, e);
    }
}

/// The times tell of each medium of a folder when it was last written, and of nothing else.
pub proof fn the_times_are_those_of_the_media(
    t: DirTree,
    times: Map<PathKey, i64>,
    e: EntrySpec,
    k: PathKey,
)
    requires
        as_read(t),
        crate::scan::tells_mtimes(times, crate::scan::tree_snaps(Map::empty(), t)),
    ensures
        tree_entries(t).contains(e) ==> times.dom().contains(e.path.parts) && times[e.path.parts]
            == e.mtime,
        times.dom().contains(k) ==> exists|i: int|
            0 <= i < tree_entries(t).len() && (#[trigger] tree_entries(t)[i]).path.parts == k
                && tree_entries(t)[i].mtime == times[k],
{
    let m = crate::scan::tree_snaps(Map::empty(), t);
    snapshots_are_one_tree(t);
    snapshots_hold_every_entry(t, e);
    if tree_entries(t).contains(e) {
        let d = choose|d: PathKey| #[trigger] m.dom().contains(d) && m[d].images.contains(e);
        let i = choose|i: int| 0 <= i < m[d].images.len() && m[d].images[i] == e;
        let p = e.path.parts;
        assert(m[d].images[i].path.parts == p);
        assert(times.dom().contains(p));
        assert(crate::scan::some_entry(m, p, times[p]));
        let (d2, j) = choose|d2: PathKey, j: int|
            m.dom().contains(d2) && 0 <= j < m[d2].images.len() && (
            #[trigger] m[d2].images[j]).path.parts == p && m[d2].images[j].mtime == times[p];
        assert(linked(m, t.path.key(), d) && linked(m, t.path.key(), d2));
        assert(directly_in(m[d].images[i].path.parts, d));
        assert(directly_in(m[d2].images[j].path.parts, d2));
        assert(d == d2);
        if i < j {
            crate::path::path_order_is_total(p, p);
            assert(crate::path::path_lt(m[d].images[i].path.parts, m[d].images[j].path.parts));
        } else if j < i {
            crate::path::path_order_is_total(p, p);
            assert(crate::path::path_lt(m[d].images[j].path.parts, m[d].images[i].path.parts));
        }
    }
    if times.dom().contains(k) {
        assert(crate::scan::some_entry(m, k, times[k]));
        let (d, j) = choose|d: PathKey, j: int|
            m.dom().contains(d) && 0 <= j < m[d].images.len() && (
            #[trigger] m[d].images[j]).path.parts == k && m[d].images[j].mtime == times[k];
        let x = m[d].images[j];
        assert(m[d].images.contains(x));
        snapshots_hold_every_entry(t, x);
        let i = choose|i: int| 0 <= i < tree_entries(t).len() && tree_entries(t)[i] == x;
        assert(tree_entries(t)[i].path.parts == k);
    }
}

proof fn media_of_some_group(s: Seq<GroupSpec>, p: PathSpec) -> (g: int)
    requires
        crate::index::groups_media(s).contains(p),
    ensures
        0 <= g < s.len(),
        s[g].images.contains(p),
    decreases s.len(),
{
    let front = crate::index::groups_media(s.drop_last());
    let all = crate::index::groups_media(s);
    let i = choose|i: int| 0 <= i < all.len() && all[i] == p;
    if i < front.len() {
        assert(front[i] == p);
        media_of_some_group(s.drop_last(), p)
    } else {
        assert(s.last().images[i - front.len()] == p);
        s.len() - 1
    }
}

/// A folder has its group exactly where it was read and holds media of its own.
pub proof fn every_folder_with_media_has_its_group(t: DirTree, k: PathKey)
    requires
        as_read(t),
    ensures
        crate::scan::has_group(crate::scan::tree_groups(t), k) <==> crate::scan::tree_snaps(
            Map::empty(),
            t,
        ).dom().contains(k) && crate::scan::tree_snaps(Map::empty(), t)[k].images.len() > 0,
{
    let m = crate::scan::tree_snaps(Map::empty(), t);
    let groups = crate::scan::tree_groups(t);
    if crate::scan::has_group(groups, k) {
        let i = choose|i: int| 0 <= i < groups.len() && (#[trigger] groups[i]).path.parts == k;
        assert(groups.contains(groups[i]));
        groups_show_their_folders(t, groups[i]);
    }
    if m.dom().contains(k) && m[k].images.len() > 0 {
        let e = m[k].images[0];
        assert(m[k].images.contains(e));
        snapshots_hold_every_entry(t, e);
        assert(kept_entry(m, e));
        every_medium_is_on_show(t);
        let all = tree_entries(t);
        let j = choose|j: int| 0 <= j < all.len() && all[j] == e;
        assert(crate::scan::entry_paths(all)[j] == e.path);
        let g = media_of_some_group(groups, e.path);
        assert(groups.contains(groups[g]));
        groups_show_their_folders(t, groups[g]);
        let n = choose|n: int| 0 <= n < groups[g].images.len() && groups[g].images[n] == e.path;
        assert(directly_in(groups[g].images[n].parts, groups[g].path.parts));
        snapshots_are_one_tree(t);
        assert(linked(m, t.path.key(), k));
        assert(directly_in(m[k].images[0].path.parts, k));
        assert(groups[g].path.parts == k);
    }
}

/// Some file among these has these components.
pub open spec fn some_file(s: Seq<EntrySpec>, k: PathKey) -> bool {
    exists|i: int| 0 <= i < s.len() && (#[trigger] s[i]).path.parts == k
}

proof fn media_in_snapshots_are_entries(t: DirTree, k: PathKey)
    requires
        as_read(t),
    ensures
        some_file(tree_entries(t), k) ==> exists|p: PathSpec|
            p.parts == k && #[trigger] crate::scan::media_in(
                crate::scan::tree_snaps(Map::empty(), t),
                p,
            ),
        forall|p: PathSpec|
            p.parts == k && #[trigger] crate::scan::media_in(
                crate::scan::tree_snaps(Map::empty(), t),
                p,
            ) ==> some_file(tree_entries(t), k),
{
    let m = crate::scan::tree_snaps(Map::empty(), t);
    if some_file(tree_entries(t), k) {
        let i = choose|i: int|
            0 <= i < tree_entries(t).len() && (#[trigger] tree_entries(t)[i]).path.parts == k;
        let e = tree_entries(t)[i];
        assert(tree_entries(t).contains(e));
        snapshots_hold_every_entry(t, e);
        let d = choose|d: PathKey| #[trigger] m.dom().contains(d) && m[d].images.contains(e);
        let j = choose|j: int| 0 <= j < m[d].images.len() && m[d].images[j] == e;
        assert(crate::scan::entry_paths(m[d].images)[j] == e.path);
        assert(crate::scan::entry_paths(m[d].images).contains(e.path));
        assert(crate::scan::media_in(m, e.path));
    }
    assert forall|p: PathSpec| p.parts == k && #[trigger] crate::scan::media_in(m, p) implies some_file(
        tree_entries(t),
        k,
    ) by {
        let d = choose|d: PathKey| #[trigger]
            m.dom().contains(d) && crate::scan::entry_paths(m[d].images).contains(p);
        let j = choose|j: int|
            0 <= j < crate::scan::entry_paths(m[d].images).len() && crate::scan::entry_paths(
                m[d].images,
            )[j] == p;
        let e = m[d].images[j];
        assert(m[d].images.contains(e));
        snapshots_hold_every_entry(t, e);
        assert(kept_entry(m, e));
        let i = choose|i: int| 0 <= i < tree_entries(t).len() && tree_entries(t)[i] == e;
        assert(tree_entries(t)[i].path.parts == k);
    }
}

/// A list with all media of folders, and with no others, has every file of each of them and below.
pub proof fn listed_media_are_the_files(trees: Seq<DirTree>, v: Seq<PathSpec>, k: PathKey)
    requires
        each_is_as_read(trees),
        crate::work::all_media_listed(trees, v),
    ensures
        crate::pathmap::has_key(v, k) <==> exists|i: int|
            0 <= i < trees.len() && some_file(tree_entries(#[trigger] trees[i]), k),
{
    if crate::pathmap::has_key(v, k) {
        let j = choose|j: int| 0 <= j < v.len() && (#[trigger] v[j]).parts == k;
        assert(crate::scan::library_media(trees, v[j]));
        let i = choose|i: int|
            0 <= i < trees.len() && crate::scan::media_in(
                crate::scan::tree_snaps(Map::empty(), #[trigger] trees[i]),
                v[j],
            );
        media_in_snapshots_are_entries(trees[i], k);
        assert(some_file(tree_entries(trees[i]), k));
    }
    if exists|i: int| 0 <= i < trees.len() && some_file(tree_entries(#[trigger] trees[i]), k) {
        let i = choose|i: int|
            0 <= i < trees.len() && some_file(tree_entries(#[trigger] trees[i]), k);
        media_in_snapshots_are_entries(trees[i], k);
        let p = choose|p: PathSpec|
            p.parts == k && #[trigger] crate::scan::media_in(
                crate::scan::tree_snaps(Map::empty(), trees[i]),
                p,
            );
        assert(crate::scan::library_media(trees, p));
    }
}

proof fn keys_of_forest_added(m: Map<PathKey, SnapSpec>, s: Seq<DirTree>, k: PathKey)
    ensures
        crate::pathmap::has_key(crate::diff::forest_added(m, s), k) <==> exists|i: int|
            0 <= i < s.len() && crate::pathmap::has_key(
                crate::diff::tree_added(m, #[trigger] s[i]),
                k,
            ),
        crate::pathmap::has_key(crate::diff::forest_removed(m, s), k) <==> exists|i: int|
            0 <= i < s.len() && crate::pathmap::has_key(
                crate::diff::tree_removed(m, #[trigger] s[i]),
                k,
            ),
    decreases s.len(),
{
    if s.len() > 0 {
        let front = s.drop_last();
        keys_of_forest_added(m, front, k);
        key_of_sum(crate::diff::forest_added(m, front), crate::diff::tree_added(m, s.last()), k);
        key_of_sum(crate::diff::forest_removed(m, front), crate::diff::tree_removed(m, s.last()), k);
        assert(s[s.len() - 1] == s.last());
        assert forall|i: int| 0 <= i < front.len() implies front[i] == #[trigger] s[i] by {}
        if crate::pathmap::has_key(crate::diff::forest_added(m, front), k) {
            let i = choose|i: int|
                0 <= i < front.len() && crate::pathmap::has_key(
                    crate::diff::tree_added(m, #[trigger] front[i]),
                    k,
                );
            assert(crate::pathmap::has_key(crate::diff::tree_added(m, s[i]), k));
        }
        if crate::pathmap::has_key(crate::diff::forest_removed(m, front), k) {
            let i = choose|i: int|
                0 <= i < front.len() && crate::pathmap::has_key(
                    crate::diff::tree_removed(m, #[trigger] front[i]),
                    k,
                );
            assert(crate::pathmap::has_key(crate::diff::tree_removed(m, s[i]), k));
        }
    }
}

proof fn key_of_sum(a: Seq<PathSpec>, b: Seq<PathSpec>, k: PathKey)
    ensures
        crate::pathmap::has_key(a + b, k) <==> crate::pathmap::has_key(a, k)
            || crate::pathmap::has_key(b, k),
{
    let c = a + b;
    if crate::pathmap::has_key(c, k) {
        let i = choose|i: int| 0 <= i < c.len() && (#[trigger] c[i]).parts == k;
        if i < a.len() {
            assert(a[i].parts == k);
        } else {
            assert(b[i - a.len()].parts == k);
        }
    }
    if crate::pathmap::has_key(a, k) {
        let i = choose|i: int| 0 <= i < a.len() && (#[trigger] a[i]).parts == k;
        assert(c[i].parts == k);
    }
    if crate::pathmap::has_key(b, k) {
        let i = choose|i: int| 0 <= i < b.len() && (#[trigger] b[i]).parts == k;
        assert(c[a.len() + i].parts == k);
    }
}

/// The changes of a library are those of each of its folders, every one of them, listed once in the
/// order of their paths.
pub proof fn changes_of_a_library_are_those_of_its_folders(
    m: Map<PathKey, SnapSpec>,
    s: Seq<DirTree>,
    changed: Seq<PathSpec>,
    removed: Seq<PathSpec>,
    k: PathKey,
)
    requires
        crate::pathmap::lists(
            changed,
            crate::pathmap::add_paths(Map::empty(), crate::diff::forest_added(m, s)),
        ),
        crate::pathmap::lists(
            removed,
            crate::pathmap::add_paths(Map::empty(), crate::diff::forest_removed(m, s)),
        ),
    ensures
        paths_in_order(changed),
        paths_in_order(removed),
        crate::pathmap::has_key(changed, k) <==> exists|i: int|
            0 <= i < s.len() && crate::pathmap::has_key(
                crate::diff::tree_added(m, #[trigger] s[i]),
                k,
            ),
        crate::pathmap::has_key(removed, k) <==> exists|i: int|
            0 <= i < s.len() && crate::pathmap::has_key(
                crate::diff::tree_removed(m, #[trigger] s[i]),
                k,
            ),
{
    let a = crate::diff::forest_added(m, s);
    let b = crate::diff::forest_removed(m, s);
    keys_of_forest_added(m, s, k);
    crate::pathmap::added_paths_are_there(Map::empty(), a);
    crate::pathmap::added_paths_are_there(Map::empty(), b);
    assert(crate::pathmap::add_paths(Map::empty(), a).dom().contains(k)
        <==> crate::pathmap::has_key(changed, k));
    assert(crate::pathmap::add_paths(Map::empty(), b).dom().contains(k)
        <==> crate::pathmap::has_key(removed, k));
}

/// A folder that lies in several folders of a library has one snapshot in all of them, and that is
/// its snapshot in the library.
pub proof fn library_snapshots_are_those_of_its_folders(s: Seq<DirTree>, i: int, k: PathKey)
    requires
        read_at_once(s),
        0 <= i < s.len(),
        crate::scan::tree_snaps(Map::empty(), s[i]).dom().contains(k),
    ensures
        crate::scan::library_snaps(s).dom().contains(k),
        crate::scan::library_snaps(s)[k] == crate::scan::tree_snaps(Map::empty(), s[i])[k],
{
    let j = library_has_some_snapshot(s, k);
    assert(crate::scan::library_snaps(s).dom().contains(k));
    assert(crate::scan::tree_snaps(Map::empty(), s[j]).dom().contains(k));
}

} // verus!
