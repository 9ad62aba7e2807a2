//! The tree of folders in the left panel.

use vstd::prelude::*;

use crate::media::is_windows_drive_root;
use crate::path::MediaPath;
use crate::scan::{starts_with_dot, RawEntry};
use crate::slideshow::is_path;
use crate::sort::sort_by_key;
use crate::text::to_lower;

verus! {

/// A folder of the tree. Its subfolders are read when it is opened.
pub struct FolderNode {
    pub path: MediaPath,
    pub name: String,
    pub children_loaded: bool,
    /// Whether it has subfolders to show, once that was looked up.
    pub has_visible_children: Option<bool>,
    pub children: Vec<FolderNode>,
}

/// A folder of which nothing was read yet.
pub open spec fn unread(node: FolderNode, p: crate::path::PathSpec) -> bool {
    &&& node.path@ == p
    &&& node.name@ == crate::path::name_or_text(p)
    &&& !node.children_loaded
    &&& node.has_visible_children is None
    &&& node.children@.len() == 0
}

/// Folders of which nothing was read yet.
pub open spec fn all_unread(s: Seq<FolderNode>, p: Seq<crate::path::PathSpec>) -> bool {
    &&& s.len() == p.len()
    &&& forall|i: int| 0 <= i < s.len() ==> unread(#[trigger] s[i], p[i])
}

/// One folder stands before another by its name in lower case.
pub open spec fn name_before() -> spec_fn(crate::path::PathSpec, crate::path::PathSpec) -> bool {
    |a: crate::path::PathSpec, b: crate::path::PathSpec|
        crate::text::text_lt(
            crate::text::lower_text(crate::path::name_or_text(a)),
            crate::text::lower_text(crate::path::name_or_text(b)),
        )
}

/// Some entry is a subfolder to show.
pub open spec fn some_subdir(s: Seq<RawEntry>) -> bool {
    exists|i: int| 0 <= i < s.len() && crate::scan::shown_subdir(#[trigger] s[i])
}

impl FolderNode {
    /// A folder of which nothing was read yet.
    pub fn new(path: MediaPath) -> (r: FolderNode)
        ensures
            unread(r, path@),
    {
        let name = path.display_name();
        FolderNode {
            path,
            name,
            children_loaded: false,
            has_visible_children: None,
            children: Vec::new(),
        }
    }

    /// Looks up whether the folder has subfolders to show; `entries` is what it holds, or
    /// nothing where it could not be read. What was looked up before stands.
    pub fn has_visible_children(&mut self, entries: Option<&Vec<RawEntry>>) -> (r: bool)
        ensures
            r == match old(self).has_visible_children {
                Some(b) => b,
                None => entries is Some && some_subdir(entries->0@),
            },
            final(self).has_visible_children == Some(r),
            final(self).path == old(self).path,
            final(self).name == old(self).name,
            final(self).children_loaded == old(self).children_loaded,
            final(self).children == old(self).children,
    {
        if let Some(known) = self.has_visible_children {
            return known;
        }
        let found = match entries {
            None => false,
            Some(list) => any_subdir(list),
        };
        self.has_visible_children = Some(found);
        found
    }

    /// Reads the subfolders, once: `entries` is what the folder holds, or nothing where it could
    /// not be read.
    pub fn ensure_children(&mut self, entries: Option<&Vec<RawEntry>>)
        ensures
            final(self).children_loaded,
            final(self).path == old(self).path,
            final(self).name == old(self).name,
            final(self).has_visible_children == old(self).has_visible_children,
            old(self).children_loaded || entries is None ==> final(self).children
                == old(self).children,
            !old(self).children_loaded && entries is Some ==> exists|p: Seq<crate::path::PathSpec>|
                crate::sort::stable_sort_of(
                    p,
                    crate::scan::shown_subdirs(entries->0@),
                    name_before(),
                ) && #[trigger] all_unread(final(self).children@, p),
    {
        if self.children_loaded {
            return ;
        }
        self.children_loaded = true;
        if let Some(list) = entries {
            let kids = subfolders(list);
            let ghost p = choose|p: Seq<crate::path::PathSpec>|
                crate::sort::stable_sort_of(p, crate::scan::shown_subdirs(list@), name_before())
                    && #[trigger] all_unread(kids@, p);
            self.children = kids;
            assert(all_unread(self.children@, p));
        }
    }
}

fn any_subdir(entries: &Vec<RawEntry>) -> (r: bool)
    ensures
        r == some_subdir(entries@),
{
    for i in 0..entries.len()
        invariant
            forall|j: int| 0 <= j < i ==> !crate::scan::shown_subdir(#[trigger] entries@[j]),
    {
        let e = &entries[i];
        if e.is_dir && !starts_with_dot(e.name.as_str()) {
            assert(crate::scan::shown_subdir(entries@[i as int]));
            return true;
        }
    }
    false
}

/// The subfolders to show, by their names.
fn subfolders(entries: &Vec<RawEntry>) -> (r: Vec<FolderNode>)
    ensures
        exists|p: Seq<crate::path::PathSpec>|
            crate::sort::stable_sort_of(p, crate::scan::shown_subdirs(entries@), name_before())
                && #[trigger] all_unread(r@, p),
{
    let mut found: Vec<FolderNode> = Vec::new();
    let mut keys: Vec<String> = Vec::new();
    let ghost mut read: Seq<crate::path::PathSpec> = Seq::empty();
    for i in 0..entries.len()
        invariant
            read == crate::scan::shown_subdirs(entries@.take(i as int)),
            all_unread(found@, read),
            keys@.len() == read.len(),
            forall|j: int|
                0 <= j < keys@.len() ==> (#[trigger] keys@[j])@ == crate::text::lower_text(
                    crate::path::name_or_text(read[j]),
                ),
    {
        let e = &entries[i];
        assert(entries@.take(i + 1).drop_last() =~= entries@.take(i as int));
        if e.is_dir && !starts_with_dot(e.name.as_str()) {
            let node = FolderNode::new(e.path.clone());
            keys.push(to_lower(node.name.as_str()));
            found.push(node);
            proof {
                read = read.push(e.path@);
            }
        }
    }
    assert(entries@.take(entries@.len() as int) =~= entries@);
    let ghost before = found@;
    let ghost by = keys@;
    let (sorted, places) = sort_by_key(found, keys);
    proof {
        crate::sort::order_by_other_keys(
            places@,
            by,
            read,
            |a: String, b: String| crate::sort::SortKey::before(&a, &b),
            name_before(),
        );
        let p = crate::sort::at_places(read, places@);
        assert(crate::sort::stable_sort_of(p, read, name_before()));
        assert forall|i: int| 0 <= i < sorted@.len() implies unread(#[trigger] sorted@[i], p[i]) by {
            let j = places@[i];
            assert(unread(before[j], read[j]));
        }
        assert(all_unread(sorted@, p));
    }
    sorted
}

// ── Roots ────────────────────────────────────────────────────────────────────

/// The roots of all drives that there may be, from A to Z.
pub open spec fn drive_texts() -> Seq<Seq<char>> {
    Seq::new(26, |i: int| seq![(65 + i) as u8 as char, ':', '\\'])
}

/// The roots of all drives that there may be.
pub fn drive_roots() -> (r: Vec<String>)
    ensures
        crate::media::texts_view(r@) == drive_texts(),
{
    let mut out: Vec<String> = Vec::new();
    for i in 0..26u8
        invariant
            out@.len() == i,
            forall|j: int| 0 <= j < i ==> (#[trigger] out@[j])@ == drive_texts()[j],
    {
        let mut root = String::new();
        root.push((65 + i) as char);
        root.push(':');
        root.push('\\');
        assert(root@ =~= drive_texts()[i as int]);
        out.push(root);
    }
    assert(crate::media::texts_view(out@) =~= drive_texts());
    out
}

/// The tree of the roots that are there.
pub fn get_roots(paths: Vec<MediaPath>) -> (r: Vec<FolderNode>)
    ensures
        all_unread(r@, crate::path::paths_view(paths@)),
{
    let mut out: Vec<FolderNode> = Vec::new();
    let ghost all = crate::path::paths_view(paths@);
    for path in it: paths
        invariant
            it.seq() == paths@,
            all == crate::path::paths_view(paths@),
            all_unread(out@, all.take(it.index() as int)),
    {
        out.push(FolderNode::new(path));
    }
    assert(all.take(all.len() as int) =~= all);
    out
}

// ── Rows ─────────────────────────────────────────────────────────────────────

/// What the sign in front of a folder tells.
#[derive(Clone, Copy, PartialEq, Eq, Structural, Debug)]
pub enum Arrow {
    Open,
    Closed,
    NoChildren,
}

/// How the row of a folder looks.
pub struct NodeRow {
    /// The folder on show lies somewhere in this one, so that this one is opened.
    pub expand: bool,
    pub selected: bool,
    pub drive: bool,
}

/// A folder lies somewhere in another.
pub open spec fn lies_in(p: crate::path::PathKey, base: crate::path::PathKey) -> bool {
    crate::path::key_starts_with(p, base) && p != base
}

/// How the row of a folder looks.
pub fn node_row(
    path: &MediaPath,
    selected: &Option<MediaPath>,
    expand_to: &Option<MediaPath>,
    windows: bool,
) -> (r: NodeRow)
    ensures
        r.expand == (expand_to matches Some(t) && lies_in(t.key(), path.key())),
        r.selected == (selected matches Some(s) && s.key() == path.key()),
        r.drive == crate::media::drive_root(path@.text, windows),
{
    let expand = match expand_to {
        Some(t) => t.starts_with(path) && !t.same(path),
        None => false,
    };
    NodeRow { expand, selected: is_path(selected, path), drive: is_windows_drive_root(path, windows) }
}

/// The sign in front of a folder.
pub fn arrow_of(children_loaded: bool, visible_children: bool, open: bool) -> (r: Arrow)
    ensures
        r == if !(children_loaded || visible_children) {
            Arrow::NoChildren
        } else if open {
            Arrow::Open
        } else {
            Arrow::Closed
        },
{
    if children_loaded || visible_children {
        if open {
            Arrow::Open
        } else {
            Arrow::Closed
        }
    } else {
        Arrow::NoChildren
    }
}

/// Ends the row of a folder: a click selects it, and the selected folder is scrolled to once.
/// Returns whether to scroll to it.
pub fn end_row(
    path: &MediaPath,
    row: &NodeRow,
    clicked: bool,
    selected: &mut Option<MediaPath>,
    scroll_to_selected: &mut bool,
) -> (r: bool)
    ensures
        crate::path::option_view(*final(selected)) == if clicked {
            Some(path@)
        } else {
            crate::path::option_view(*old(selected))
        },
        r == (row.selected && *old(scroll_to_selected)),
        *final(scroll_to_selected) == (*old(scroll_to_selected) && !row.selected),
{
    if clicked {
        *selected = Some(path.clone());
    }
    if row.selected && *scroll_to_selected {
        *scroll_to_selected = false;
        true
    } else {
        false
    }
}

/// The folders that are opened for a folder on show are exactly those that it lies in; such a
/// folder is never the one on show itself.
pub proof fn opened_folders_lead_to_the_one_on_show(
    a: crate::path::PathKey,
    b: crate::path::PathKey,
    shown: crate::path::PathKey,
)
    requires
        lies_in(shown, b),
        crate::path::key_starts_with(b, a),
    ensures
        lies_in(shown, a),
        !lies_in(b, shown),
{
    let n = a.len() as int;
    assert(shown.take(b.len() as int).take(n) =~= shown.take(n));
    assert(b.take(n) =~= a);
    if shown == a {
        assert(b.len() <= shown.len());
        assert(b =~= shown.take(b.len() as int));
        assert(b.len() == a.len());
        assert(shown.take(b.len() as int) =~= shown);
    }
    if shown.len() == b.len() {
        assert(shown.take(b.len() as int) =~= shown);
    }
}

/// A folder of the tree starts with its path and name, closed and unread.
pub proof fn a_new_folder_is_unread(node: FolderNode, p: crate::path::PathSpec)
    requires
        unread(node, p),
    ensures
        node.path@ == p,
        node.name@ == crate::path::name_or_text(p),
        !node.children_loaded,
        node.has_visible_children is None,
        node.children@.len() == 0,
{
}

/// The folders below one are shown once each, every one that is not hidden, by their names in lower
/// case.
pub proof fn subfolders_are_shown_by_name(
    children: Seq<FolderNode>,
    p: Seq<crate::path::PathSpec>,
    raw: Seq<RawEntry>,
    i: int,
    j: int,
)
    requires
        crate::sort::stable_sort_of(p, crate::scan::shown_subdirs(raw), name_before()),
        all_unread(children, p),
        0 <= i < j < children.len(),
    ensures
        children.len() == crate::scan::shown_subdirs(raw).len(),
        crate::scan::shown_subdirs(raw).contains(children[i].path@),
        !crate::text::text_lt(
            crate::text::lower_text(children[j].name@),
            crate::text::lower_text(children[i].name@),
        ),
{
    assert forall|a: crate::path::PathSpec, b: crate::path::PathSpec| #[trigger]
        name_before()(a, b) implies !name_before()(b, a) by {
        crate::text::text_order_is_total(
            crate::text::lower_text(crate::path::name_or_text(a)),
            crate::text::lower_text(crate::path::name_or_text(b)),
        );
    }
    crate::sort::sorting_keeps_all(p, crate::scan::shown_subdirs(raw), name_before());
    assert(p.contains(p[i]));
    assert(!name_before()(p[j], p[i]));
    assert(unread(children[i], p[i]) && unread(children[j], p[j]));
}

/// A folder has folders to show where one entry of it is a folder that is not hidden.
pub proof fn some_subdir_is_shown(raw: Seq<RawEntry>, i: int)
    requires
        0 <= i < raw.len(),
    ensures
        crate::scan::shown_subdir(raw[i]) ==> some_subdir(raw),
        !some_subdir(raw) ==> crate::scan::shown_subdirs(raw).len() == 0,
{
    if !some_subdir(raw) {
        nothing_shown(raw);
    }
}

proof fn nothing_shown(raw: Seq<RawEntry>)
    requires
        forall|i: int| 0 <= i < raw.len() ==> !crate::scan::shown_subdir(#[trigger] raw[i]),
    ensures
        crate::scan::shown_subdirs(raw).len() == 0,
    decreases raw.len(),
{
    if raw.len() > 0 {
        let front = raw.drop_last();
        assert forall|i: int| 0 <= i < front.len() implies !crate::scan::shown_subdir(
            #[trigger] front[i],
        ) by {
            assert(front[i] == raw[i]);
        }
        nothing_shown(front);
        assert(raw[raw.len() - 1] == raw.last());
    }
}

/// The drives are those from A to Z.
pub proof fn drives_go_from_a_to_z(i: int)
    requires
        0 <= i < 26,
    ensures
        drive_texts().len() == 26,
        drive_texts()[i].len() == 3,
        drive_texts()[i][0] as int == 'A' as int + i,
        drive_texts()[i][1] == ':',
        drive_texts()[i][2] == '\\',
        drive_texts()[0][0] == 'A',
        drive_texts()[25][0] == 'Z',
{
}

/// A path lies in the folders that it starts with, but not in itself.
pub proof fn paths_lie_in_the_folders_above(p: crate::path::PathKey, base: crate::path::PathKey)
    ensures
        lies_in(p, base) <==> base.len() < p.len() && forall|i: int|
            0 <= i < base.len() ==> #[trigger] p[i] == base[i],
{
    if base.len() < p.len() && forall|i: int|
        0 <= i < base.len() ==> #[trigger] p[i] == base[i] {
        assert(p.take(base.len() as int) =~= base);
    }
    if lies_in(p, base) {
        assert forall|i: int| 0 <= i < base.len() implies #[trigger] p[i] == base[i] by {
            assert(p.take(base.len() as int)[i] == p[i]);
        }
        if base.len() == p.len() {
            assert(p.take(base.len() as int) =~= p);
        }
    }
}

/// A folder without folders to show has no arrow; any other one has one that tells whether it is
/// open.
pub proof fn arrows_tell_what_is_open(loaded: bool, visible: bool, open: bool, r: Arrow)
    requires
        call_ensures(arrow_of, (loaded, visible, open), r),
    ensures
        !loaded && !visible ==> r == Arrow::NoChildren,
        (loaded || visible) && open ==> r == Arrow::Open,
        (loaded || visible) && !open ==> r == Arrow::Closed,
{
}

} // verus!
