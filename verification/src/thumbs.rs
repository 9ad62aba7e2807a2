//! The thumbnails on show: which are asked for first, which are waited for, and which have come.

use vstd::prelude::*;

use crate::index::MediaIndex;
use crate::loader::{are_whole, LoadItem, LoadRequest, LoadResult, Pixels};
use crate::path::MediaPath;
use crate::pathmap::{PathMap, PathSet};
use crate::scan::FolderGroup;

verus! {

// ── Priorities ───────────────────────────────────────────────────────────────

/// What the media of the selected folder start at.
pub const ACTIVE_BOOST: i32 = 1_000_000;

/// What the media of the group at a place start at, where it is not that of the selected
/// folder.
pub open spec fn group_boost(group: usize) -> i32 {
    100_000i32.wrapping_sub((group as i32).wrapping_mul(1_000))
}

/// The priority of the medium at a place of its group.
pub open spec fn item_priority(boost: i32, place: usize) -> i32 {
    boost.wrapping_sub(place as i32)
}

/// The items of the media of a group that are wanted.
pub open spec fn group_items(
    images: Seq<crate::path::PathSpec>,
    boost: i32,
    wanted: spec_fn(crate::path::PathKey) -> bool,
) -> Seq<crate::loader::ItemSpec>
    decreases images.len(),
{
    if images.len() == 0 {
        Seq::empty()
    } else if wanted(images.last().parts) {
        group_items(images.drop_last(), boost, wanted).push(
            crate::loader::ItemSpec {
                priority: item_priority(boost, (images.len() - 1) as usize),
                path: images.last(),
            },
        )
    } else {
        group_items(images.drop_last(), boost, wanted)
    }
}

/// The items of all groups but the active one.
pub open spec fn other_items(
    groups: Seq<crate::scan::GroupSpec>,
    active: Option<int>,
    wanted: spec_fn(crate::path::PathKey) -> bool,
) -> Seq<crate::loader::ItemSpec>
    decreases groups.len(),
{
    if groups.len() == 0 {
        Seq::empty()
    } else if active == Some(groups.len() - 1) {
        other_items(groups.drop_last(), active, wanted)
    } else {
        other_items(groups.drop_last(), active, wanted) + group_items(
            groups.last().images,
            group_boost((groups.len() - 1) as usize),
            wanted,
        )
    }
}

/// The first group of a folder.
pub open spec fn group_place(
    groups: Seq<crate::scan::GroupSpec>,
    folder: crate::path::PathKey,
) -> Option<int>
    decreases groups.len(),
{
    if groups.len() == 0 {
        None
    } else if group_place(groups.drop_last(), folder) is Some {
        group_place(groups.drop_last(), folder)
    } else if groups.last().path.parts == folder {
        Some(groups.len() - 1)
    } else {
        None
    }
}

/// The group of the selected folder.
pub open spec fn active_group(
    groups: Seq<crate::scan::GroupSpec>,
    selected: Option<crate::path::PathSpec>,
) -> Option<int> {
    match selected {
        Some(f) => group_place(groups, f.parts),
        None => None,
    }
}

/// The items of the wanted media: those of the selected folder, and then those of the others.
pub open spec fn prioritized(
    groups: Seq<crate::scan::GroupSpec>,
    selected: Option<crate::path::PathSpec>,
    wanted: spec_fn(crate::path::PathKey) -> bool,
) -> Seq<crate::loader::ItemSpec> {
    let active = active_group(groups, selected);
    (match active {
        Some(a) => group_items(groups[a].images, ACTIVE_BOOST, wanted),
        None => Seq::empty(),
    }) + other_items(groups, active, wanted)
}

/// Every medium is wanted.
pub open spec fn every_medium() -> spec_fn(crate::path::PathKey) -> bool {
    |k: crate::path::PathKey| true
}

/// The media of a set are wanted.
pub open spec fn media_of(m: Map<crate::path::PathKey, ()>) -> spec_fn(
    crate::path::PathKey,
) -> bool {
    |k: crate::path::PathKey| m.dom().contains(k)
}

spec fn wanted_by(paths: Option<&PathSet>) -> spec_fn(crate::path::PathKey) -> bool {
    match paths {
        Some(s) => media_of(s@),
        None => every_medium(),
    }
}

/// Adds the wanted items of a group.
fn push_items(
    items: &mut Vec<LoadItem>,
    images: &Vec<MediaPath>,
    boost: i32,
    paths: Option<&PathSet>,
)
    ensures
        crate::loader::items_view(final(items)@) == crate::loader::items_view(old(items)@)
            + group_items(crate::path::paths_view(images@), boost, wanted_by(paths)),
{
    let ghost before = crate::loader::items_view(items@);
    let ghost all = crate::path::paths_view(images@);
    let ghost wanted = wanted_by(paths);
    assert(before + group_items(all.take(0), boost, wanted) =~= before);
    for i in 0..images.len()
        invariant
            all == crate::path::paths_view(images@),
            wanted == wanted_by(paths),
            crate::loader::items_view(items@) == before + group_items(
                all.take(i as int),
                boost,
                wanted,
            ),
    {
        let path = &images[i];
        assert(all.take(i + 1).drop_last() =~= all.take(i as int));
        let take = match paths {
            Some(s) => s.contains(path),
            None => true,
        };
        if take {
            let ghost so_far = crate::loader::items_view(items@);
            let item = LoadItem { priority: boost.wrapping_sub(i as i32), path: path.clone() };
            items.push(item);
            assert(crate::loader::items_view(items@) =~= so_far.push(item@));
            assert(crate::loader::items_view(items@) =~= before + group_items(
                all.take(i + 1),
                boost,
                wanted,
            ));
        }
    }
    assert(all.take(all.len() as int) =~= all);
}

proof fn group_place_is_there(
    groups: Seq<crate::scan::GroupSpec>,
    folder: crate::path::PathKey,
)
    ensures
        group_place(groups, folder) matches Some(i) ==> 0 <= i < groups.len()
            && groups[i].path.parts == folder,
    decreases groups.len(),
{
    if groups.len() > 0 {
        group_place_is_there(groups.drop_last(), folder);
    }
}

/// The place of the group of the selected folder.
fn find_active(groups: &Vec<FolderGroup>, selected: &Option<MediaPath>) -> (r: Option<usize>)
    ensures
        r is Some <==> active_group(
            crate::scan::groups_view(groups@),
            crate::path::option_view(*selected),
        ) is Some,
        r matches Some(i) ==> i < groups@.len() && Some(i as int) == active_group(
            crate::scan::groups_view(groups@),
            crate::path::option_view(*selected),
        ),
{
    let ghost gs = crate::scan::groups_view(groups@);
    match selected {
        None => None,
        Some(folder) => {
            let ghost k = folder.key();
            for i in 0..groups.len()
                invariant
                    gs == crate::scan::groups_view(groups@),
                    k == folder.key(),
                    crate::path::option_view(*selected) == Some(folder@),
                    group_place(gs.take(i as int), k) is None,
            {
                assert(gs.take(i + 1).drop_last() =~= gs.take(i as int));
                assert(gs.take(i + 1).last() == groups@[i as int]@);
                if groups[i].path.same(folder) {
                    proof {
                        first_place_stays(gs, i + 1, k);
                    }
                    return Some(i);
                }
            }
            assert(gs.take(gs.len() as int) =~= gs);
            None
        },
    }
}

proof fn first_place_stays(
    groups: Seq<crate::scan::GroupSpec>,
    n: int,
    folder: crate::path::PathKey,
)
    requires
        0 <= n <= groups.len(),
        group_place(groups.take(n), folder) is Some,
    ensures
        group_place(groups, folder) == group_place(groups.take(n), folder),
    decreases groups.len(),
{
    if n == groups.len() {
        assert(groups.take(n) =~= groups);
    } else {
        assert(groups.drop_last().take(n) =~= groups.take(n));
        first_place_stays(groups.drop_last(), n, folder);
    }
}

fn prioritized_items(
    groups: &Vec<FolderGroup>,
    selected: &Option<MediaPath>,
    paths: Option<&PathSet>,
) -> (r: Vec<LoadItem>)
    ensures
        crate::loader::items_view(r@) == prioritized(
            crate::scan::groups_view(groups@),
            crate::path::option_view(*selected),
            wanted_by(paths),
        ),
{
    let ghost gs = crate::scan::groups_view(groups@);
    let ghost wanted = wanted_by(paths);
    let active = find_active(groups, selected);
    let mut items: Vec<LoadItem> = Vec::new();
    assert(crate::loader::items_view(items@) =~= Seq::empty());
    if let Some(a) = active {
        push_items(&mut items, &groups[a].images, ACTIVE_BOOST, paths);
    }
    let ghost first = crate::loader::items_view(items@);
    let ghost place = active_group(gs, crate::path::option_view(*selected));
    assert(first =~= (match place {
        Some(a) => group_items(gs[a].images, ACTIVE_BOOST, wanted),
        None => Seq::empty(),
    }));
    assert(first + other_items(gs.take(0), place, wanted) =~= first);
    for i in 0..groups.len()
        invariant
            gs == crate::scan::groups_view(groups@),
            wanted == wanted_by(paths),
            active is Some <==> place is Some,
            active matches Some(a) ==> Some(a as int) == place,
            crate::loader::items_view(items@) == first + other_items(
                gs.take(i as int),
                place,
                wanted,
            ),
    {
        assert(gs.take(i + 1).drop_last() =~= gs.take(i as int));
        assert(gs.take(i + 1).last() == groups@[i as int]@);
        let is_active = match active {
            Some(a) => a == i,
            None => false,
        };
        if !is_active {
            let ghost so_far = crate::loader::items_view(items@);
            let boost: i32 = 100_000i32.wrapping_sub((i as i32).wrapping_mul(1_000));
            push_items(&mut items, &groups[i].images, boost, paths);
            assert(crate::loader::items_view(items@) =~= first + other_items(
                gs.take(i + 1),
                place,
                wanted,
            ));
        }
    }
    assert(gs.take(gs.len() as int) =~= gs);
    items
}

/// The items of all media on show.
pub fn prioritized_thumbnail_items(
    groups: &Vec<FolderGroup>,
    selected: &Option<MediaPath>,
) -> (r: Vec<LoadItem>)
    ensures
        crate::loader::items_view(r@) == prioritized(
            crate::scan::groups_view(groups@),
            crate::path::option_view(*selected),
            every_medium(),
        ),
{
    prioritized_items(groups, selected, None)
}

/// The items of those media on show that a set holds.
pub fn prioritized_thumbnail_items_for_paths(
    groups: &Vec<FolderGroup>,
    selected: &Option<MediaPath>,
    paths: &PathSet,
) -> (r: Vec<LoadItem>)
    ensures
        crate::loader::items_view(r@) == prioritized(
            crate::scan::groups_view(groups@),
            crate::path::option_view(*selected),
            media_of(paths@),
        ),
{
    prioritized_items(groups, selected, Some(paths))
}

/// The folders that the items of a list lie in.
pub open spec fn folders_of(s: Seq<crate::loader::ItemSpec>) -> Set<crate::path::PathKey>
    decreases s.len(),
{
    if s.len() == 0 {
        Set::empty()
    } else {
        match crate::path::folder_of(s.last().path) {
            Some(f) => folders_of(s.drop_last()).insert(f.parts),
            None => folders_of(s.drop_last()),
        }
    }
}

/// In how many folders the items of a list lie.
pub fn count_queued_folders(items: &Vec<LoadItem>) -> (r: usize)
    ensures
        r == folders_of(crate::loader::items_view(items@)).len(),
        folders_of(crate::loader::items_view(items@)).finite(),
{
    let ghost all = crate::loader::items_view(items@);
    let mut folders: PathSet = PathMap::new();
    assert(folders@.dom() =~= folders_of(all.take(0)));
    for i in 0..items.len()
        invariant
            all == crate::loader::items_view(items@),
            folders@.dom() == folders_of(all.take(i as int)),
    {
        assert(all.take(i + 1).drop_last() =~= all.take(i as int));
        if let Some(folder) = items[i].path.folder() {
            folders.add(folder);
        }
    }
    assert(all.take(all.len() as int) =~= all);
    folders.len()
}

/// The media of the selected folder are asked for before all others, as long as that folder
/// has no more than 900,000 media, and the others no more than a million in a million
/// folders.
pub proof fn selected_folder_comes_first(a: usize, group: usize, b: usize)
    requires
        a < 900_000,
        b < 1_000_000,
        group < 1_000_000,
    ensures
        item_priority(ACTIVE_BOOST, a) > item_priority(group_boost(group), b),
{
}

/// Within a group, and from group to group, what stands earlier is asked for earlier, as long
/// as no group has more than a thousand media.
pub proof fn earlier_comes_first(g: usize, a: usize, h: usize, b: usize)
    requires
        a < 1_000,
        b < 1_000,
        g < 1_000_000,
        h < 1_000_000,
        g < h || (g == h && a < b),
    ensures
        item_priority(group_boost(g), a) > item_priority(group_boost(h), b),
        g == h ==> item_priority(ACTIVE_BOOST, a) > item_priority(ACTIVE_BOOST, b),
{
}

// ── What is waited for, and what has come ────────────────────────────────────

/// Up to how many results are taken in one frame.
pub const THUMBNAIL_PULL_BUDGET: usize = 24;

/// For how many milliseconds results are turned into textures in one frame.
pub const THUMBNAIL_UPLOAD_BUDGET_MS: u64 = 4;

/// How many media that are about to be shown are turned into textures in one frame.
pub const PREFETCH_UPLOADS: usize = 4;

/// How many other media are turned into textures in one frame.
pub const BACKGROUND_UPLOADS: usize = 2;

/// A thumbnail that has come.
pub enum ThumbState<T> {
    Ready(T),
    Failed,
}

/// The thumbnails of the media on show.
pub struct Thumbs<T> {
    pub thumbnails: PathMap<ThumbState<T>>,
    /// What was asked for and has not come.
    pub queued: PathSet,
    /// What has come and was not turned into a texture.
    pub deferred: PathMap<LoadResult>,
    /// The places of the media that the grid shows.
    pub visible: Vec<usize>,
    /// The places of the media that the grid is about to show.
    pub prefetch: Vec<usize>,
    pub generation: u64,
    pub total: usize,
    pub done: usize,
    pub queued_folders: usize,
    pub current: Option<MediaPath>,
}

/// What the thumbnails hold.
pub struct ThumbsSpec<T> {
    pub thumbnails: Map<crate::path::PathKey, ThumbState<T>>,
    pub queued: Set<crate::path::PathKey>,
    pub deferred: Map<crate::path::PathKey, crate::loader::ResultSpec>,
    pub visible: Seq<usize>,
    pub prefetch: Seq<usize>,
    pub generation: u64,
    pub total: usize,
    pub done: usize,
    pub queued_folders: usize,
    pub current: Option<crate::path::PathSpec>,
}

/// What a map of results holds.
pub open spec fn results_view(m: Map<crate::path::PathKey, LoadResult>) -> Map<
    crate::path::PathKey,
    crate::loader::ResultSpec,
> {
    m.map_values(|r: LoadResult| r@)
}

/// What a list of results holds.
pub open spec fn result_list(s: Seq<LoadResult>) -> Seq<crate::loader::ResultSpec> {
    Seq::new(s.len(), |i: int| s[i]@)
}

impl<T> View for Thumbs<T> {
    type V = ThumbsSpec<T>;

    open spec fn view(&self) -> ThumbsSpec<T> {
        ThumbsSpec {
            thumbnails: self.thumbnails@,
            queued: self.queued@.dom(),
            deferred: results_view(self.deferred@),
            visible: self.visible@,
            prefetch: self.prefetch@,
            generation: self.generation,
            total: self.total,
            done: self.done,
            queued_folders: self.queued_folders,
            current: crate::path::option_view(self.current),
        }
    }
}

/// The paths of the items of a list.
pub open spec fn item_keys(s: Seq<crate::loader::ItemSpec>) -> Set<crate::path::PathKey>
    decreases s.len(),
{
    if s.len() == 0 {
        Set::empty()
    } else {
        item_keys(s.drop_last()).insert(s.last().path.parts)
    }
}

/// The path of the first item of a list.
pub open spec fn first_item(s: Seq<crate::loader::ItemSpec>) -> Option<crate::path::PathSpec> {
    if s.len() == 0 {
        None
    } else {
        Some(s[0].path)
    }
}

/// Results of this generation, each under its path; a later one replaces an earlier one.
pub open spec fn with_results(
    m: Map<crate::path::PathKey, crate::loader::ResultSpec>,
    generation: u64,
    s: Seq<crate::loader::ResultSpec>,
) -> Map<crate::path::PathKey, crate::loader::ResultSpec>
    decreases s.len(),
{
    if s.len() == 0 {
        m
    } else if s.last().generation == generation {
        with_results(m, generation, s.drop_last()).insert(s.last().path.parts, s.last())
    } else {
        with_results(m, generation, s.drop_last())
    }
}

impl<T> ThumbsSpec<T> {
    /// Nothing was asked for.
    pub open spec fn fresh() -> ThumbsSpec<T> {
        ThumbsSpec {
            thumbnails: Map::empty(),
            queued: Set::empty(),
            deferred: Map::empty(),
            visible: Seq::empty(),
            prefetch: Seq::empty(),
            generation: 0,
            total: 0,
            done: 0,
            queued_folders: 0,
            current: None,
        }
    }

    /// All thumbnails are asked for anew.
    pub open spec fn asked_anew(self, items: Seq<crate::loader::ItemSpec>) -> ThumbsSpec<T> {
        ThumbsSpec {
            thumbnails: Map::empty(),
            queued: item_keys(items),
            deferred: Map::empty(),
            visible: Seq::empty(),
            prefetch: Seq::empty(),
            generation: self.generation.wrapping_add(1),
            total: items.len() as usize,
            done: 0,
            queued_folders: folders_of(items).len() as usize,
            current: first_item(items),
        }
    }

    /// More thumbnails are asked for.
    pub open spec fn asked_more(self, items: Seq<crate::loader::ItemSpec>) -> ThumbsSpec<T> {
        ThumbsSpec {
            queued: self.queued.union(item_keys(items)),
            total: items.len() as usize,
            done: 0,
            queued_folders: folders_of(items).len() as usize,
            current: first_item(items),
            ..self
        }
    }

    /// Results have come.
    pub open spec fn received(self, s: Seq<crate::loader::ResultSpec>) -> ThumbsSpec<T> {
        ThumbsSpec { deferred: with_results(self.deferred, self.generation, s), ..self }
    }

    /// Media are gone.
    pub open spec fn forgotten(self, gone: Set<crate::path::PathKey>) -> ThumbsSpec<T> {
        ThumbsSpec {
            thumbnails: self.thumbnails.remove_keys(gone),
            queued: self.queued.difference(gone),
            deferred: self.deferred.remove_keys(gone),
            ..self
        }
    }

    /// A result is one that is waited for: of this generation, and of the file as the last
    /// scan saw it.
    pub open spec fn awaits(
        self,
        times: Map<crate::path::PathKey, i64>,
        r: crate::loader::ResultSpec,
    ) -> bool {
        &&& r.generation == self.generation
        &&& times.dom().contains(r.path.parts)
        &&& times[r.path.parts] == r.mtime
        &&& self.queued.contains(r.path.parts)
    }

    /// A result was taken: it is no longer waited for.
    pub open spec fn taken(
        self,
        times: Map<crate::path::PathKey, i64>,
        r: crate::loader::ResultSpec,
    ) -> ThumbsSpec<T> {
        if self.awaits(times, r) {
            ThumbsSpec { queued: self.queued.remove(r.path.parts), ..self }
        } else {
            self
        }
    }

    /// A result becomes a texture.
    pub open spec fn shows(
        self,
        times: Map<crate::path::PathKey, i64>,
        r: crate::loader::ResultSpec,
    ) -> bool {
        self.awaits(times, r) && crate::loader::whole_pixels(
            r.width,
            r.height,
            r.rgba.len() as int,
        )
    }

    /// A texture is there.
    pub open spec fn uploaded(self, path: crate::path::PathSpec, tex: T) -> ThumbsSpec<T> {
        let done: usize = if self.done == usize::MAX {
            self.done
        } else {
            (self.done + 1) as usize
        };
        ThumbsSpec {
            thumbnails: self.thumbnails.insert(path.parts, ThumbState::Ready(tex)),
            done,
            current: if done % 100 == 0 || done == self.total {
                Some(path)
            } else {
                self.current
            },
            ..self
        }
    }

    /// Something is waited for, or is not yet turned into a texture.
    pub open spec fn busy(self) -> bool {
        !(self.deferred.dom() == Set::<crate::path::PathKey>::empty() && self.queued == Set::<
            crate::path::PathKey,
        >::empty())
    }

    /// The end of a frame: the counters go back when all is done.
    pub open spec fn settled(self) -> ThumbsSpec<T> {
        if self.busy() {
            self
        } else {
            ThumbsSpec { total: 0, done: 0, ..self }
        }
    }

    /// The grid is not on show.
    pub open spec fn out_of_view(self) -> ThumbsSpec<T> {
        ThumbsSpec { visible: Seq::empty(), prefetch: Seq::empty(), ..self }
    }

    /// How many steps turn results into textures in one frame.
    pub open spec fn steps(self) -> int {
        self.visible.len() + (if self.prefetch.len() < PREFETCH_UPLOADS {
            self.prefetch.len() as int
        } else {
            PREFETCH_UPLOADS as int
        }) + BACKGROUND_UPLOADS
    }

    /// The medium that a step looks at, where it looks at one on show or about to be shown.
    pub open spec fn step_target(
        self,
        media: Seq<crate::path::PathSpec>,
        step: int,
    ) -> Option<crate::path::PathSpec> {
        let place = if step < self.visible.len() {
            self.visible[step] as int
        } else {
            self.prefetch[step - self.visible.len()] as int
        };
        if place < media.len() {
            Some(media[place])
        } else {
            None
        }
    }
}

/// A result that becomes a texture.
pub struct Upload {
    pub path: MediaPath,
    pub pixels: Pixels,
}

/// What a step found: a result to turn into a texture, and whether the medium is on show or
/// about to be shown and had a result.
pub struct UploadStep {
    pub upload: Option<Upload>,
    pub urgent: bool,
}

fn add_items(set: &mut PathSet, items: &Vec<LoadItem>)
    ensures
        final(set)@.dom() == old(set)@.dom().union(
            item_keys(crate::loader::items_view(items@)),
        ),
{
    let ghost all = crate::loader::items_view(items@);
    let ghost start = set@.dom();
    assert(set@.dom() =~= start.union(item_keys(all.take(0))));
    for i in 0..items.len()
        invariant
            all == crate::loader::items_view(items@),
            set@.dom() == start.union(item_keys(all.take(i as int))),
    {
        assert(all.take(i + 1).drop_last() =~= all.take(i as int));
        set.add(items[i].path.clone());
        assert(set@.dom() =~= start.union(item_keys(all.take(i + 1))));
    }
    assert(all.take(all.len() as int) =~= all);
}

fn path_of_first(items: &Vec<LoadItem>) -> (r: Option<MediaPath>)
    ensures
        crate::path::option_view(r) == first_item(crate::loader::items_view(items@)),
{
    if items.len() > 0 {
        Some(items[0].path.clone())
    } else {
        None
    }
}

/// What is sent to the loader for these items: nothing where there are none.
pub open spec fn request_for(
    generation: u64,
    items: Seq<crate::loader::ItemSpec>,
) -> Option<crate::loader::RequestSpec> {
    if items.len() == 0 {
        None
    } else {
        Some(crate::loader::RequestSpec { generation, items })
    }
}

/// What an optional request holds.
pub open spec fn request_view(r: Option<LoadRequest>) -> Option<crate::loader::RequestSpec> {
    match r {
        Some(q) => Some(q@),
        None => None,
    }
}

impl<T> Thumbs<T> {
    /// Nothing was asked for.
    pub fn new() -> (r: Thumbs<T>)
        ensures
            r@ == ThumbsSpec::<T>::fresh(),
    {
        let r = Thumbs {
            thumbnails: PathMap::new(),
            queued: PathMap::new(),
            deferred: PathMap::new(),
            visible: Vec::new(),
            prefetch: Vec::new(),
            generation: 0,
            total: 0,
            done: 0,
            queued_folders: 0,
            current: None,
        };
        proof {
            let f = ThumbsSpec::<T>::fresh();
            assert(r@.queued =~= f.queued);
            assert(r@.deferred =~= f.deferred);
            assert(r@.visible =~= f.visible);
            assert(r@.prefetch =~= f.prefetch);
        }
        r
    }

    /// Asks for all thumbnails anew. Without a loader nothing happens. Returns what is sent to
    /// the loader.
    pub fn queue_thumbnail_jobs_full(&mut self, items: Vec<LoadItem>, has_loader: bool) -> (r:
        Option<LoadRequest>)
        ensures
            final(self)@ == if has_loader {
                old(self)@.asked_anew(crate::loader::items_view(items@))
            } else {
                old(self)@
            },
            request_view(r) == if has_loader {
                request_for(final(self)@.generation, crate::loader::items_view(items@))
            } else {
                None
            },
    {
        if !has_loader {
            return None;
        }
        let ghost all = crate::loader::items_view(items@);
        let ghost before = self@;
        let folders: usize = count_queued_folders(&items);
        let mut queued: PathSet = PathMap::new();
        let ghost none = queued@.dom();
        add_items(&mut queued, &items);
        let generation: u64 = self.generation.wrapping_add(1);
        *self = Thumbs {
            thumbnails: PathMap::new(),
            queued,
            deferred: PathMap::new(),
            visible: Vec::new(),
            prefetch: Vec::new(),
            generation,
            total: items.len(),
            done: 0,
            queued_folders: folders,
            current: path_of_first(&items),
        };
        proof {
            let f = before.asked_anew(all);
            assert(none =~= Set::empty());
            assert(self@.queued =~= f.queued);
            assert(self@.deferred =~= f.deferred);
            assert(self@.visible =~= f.visible);
            assert(self@.prefetch =~= f.prefetch);
        }
        if items.len() > 0 {
            Some(LoadRequest { generation, items })
        } else {
            None
        }
    }

    /// Asks for more thumbnails, and keeps those that are there.
    pub fn queue_thumbnail_jobs_incremental(
        &mut self,
        items: Vec<LoadItem>,
        has_loader: bool,
    ) -> (r: Option<LoadRequest>)
        ensures
            final(self)@ == if has_loader {
                old(self)@.asked_more(crate::loader::items_view(items@))
            } else {
                old(self)@
            },
            request_view(r) == if has_loader {
                request_for(final(self)@.generation, crate::loader::items_view(items@))
            } else {
                None
            },
    {
        if !has_loader {
            return None;
        }
        self.done = 0;
        self.total = items.len();
        self.queued_folders = count_queued_folders(&items);
        self.current = path_of_first(&items);
        add_items(&mut self.queued, &items);
        if items.len() > 0 {
            Some(LoadRequest { generation: self.generation, items })
        } else {
            None
        }
    }

    /// Takes results of the loader; those of other generations are dropped.
    pub fn receive(&mut self, results: Vec<LoadResult>)
        ensures
            final(self)@ == old(self)@.received(result_list(results@)),
    {
        let ghost all = result_list(results@);
        let ghost start = self@;
        for r in it: results
            invariant
                it.seq() == results@,
                all == result_list(results@),
                self@ == (ThumbsSpec {
                    deferred: with_results(
                        start.deferred,
                        start.generation,
                        all.take(it.index() as int),
                    ),
                    ..start
                }),
        {
            let ghost i = it.index() as int;
            assert(all.take(i + 1).drop_last() =~= all.take(i));
            assert(all.take(i + 1).last() == r@);
            if r.generation == self.generation {
                let ghost before = self.deferred@;
                let ghost k = r.path.key();
                let ghost v = r@;
                self.deferred.insert(r.path.clone(), r);
                assert(results_view(self.deferred@) =~= results_view(before).insert(k, v));
            }
        }
        assert(all.take(all.len() as int) =~= all);
    }

    /// Forgets media that are gone.
    pub fn forget(&mut self, gone: &PathSet)
        ensures
            final(self)@ == old(self)@.forgotten(gone@.dom()),
    {
        let ghost before = self@;
        self.queued.forget(gone);
        self.deferred.forget(gone);
        self.thumbnails.forget(gone);
        proof {
            let f = before.forgotten(gone@.dom());
            assert(self@.queued =~= f.queued);
            assert(self@.deferred =~= f.deferred);
        }
    }

    /// Takes one result: it is no longer waited for. Returns what becomes a texture.
    pub fn upload_thumbnail_result(&mut self, times: &PathMap<i64>, r: LoadResult) -> (u: Option<
        Upload,
    >)
        ensures
            final(self)@ == old(self)@.taken(times@, r@),
            u is Some <==> old(self)@.shows(times@, r@),
            u matches Some(x) ==> x.path@ == r.path@ && x.pixels.width == r.width
                && x.pixels.height == r.height && x.pixels.rgba@ == r.rgba@,
    {
        if r.generation != self.generation {
            return None;
        }
        let fresh = match times.get(&r.path) {
            Some(t) => *t == r.mtime,
            None => false,
        };
        if !fresh {
            return None;
        }
        let ghost before = self.queued@;
        match self.queued.remove(&r.path) {
            None => {
                assert(before.remove(r.path.key()) =~= before);
                return None;
            },
            Some(_) => {},
        }
        assert(self@.queued =~= old(self)@.queued.remove(r.path.key()));
        if !are_whole(r.width, r.height, r.rgba.len()) {
            return None;
        }
        Some(
            Upload {
                path: r.path,
                pixels: Pixels { width: r.width, height: r.height, rgba: r.rgba },
            },
        )
    }

    /// Keeps a texture.
    pub fn uploaded(&mut self, path: MediaPath, tex: T)
        ensures
            final(self)@ == old(self)@.uploaded(path@, tex),
    {
        self.thumbnails.insert(path.clone(), ThumbState::Ready(tex));
        self.done = self.done.saturating_add(1);
        if self.done % 100 == 0 || self.done == self.total {
            self.current = Some(path);
        }
    }

    /// For how many milliseconds results are turned into textures in this frame.
    pub fn upload_budget_ms(&self) -> (r: u64)
        ensures
            r == if self@.total > 2_000 {
                2
            } else {
                THUMBNAIL_UPLOAD_BUDGET_MS as int
            },
    {
        if self.total > 2_000 {
            THUMBNAIL_UPLOAD_BUDGET_MS - 2
        } else {
            THUMBNAIL_UPLOAD_BUDGET_MS
        }
    }

    /// How many steps turn results into textures in this frame.
    pub fn upload_steps(&self) -> (r: usize)
        requires
            self@.steps() <= usize::MAX,
        ensures
            r == self@.steps(),
    {
        let near: usize = if self.prefetch.len() < PREFETCH_UPLOADS {
            self.prefetch.len()
        } else {
            PREFETCH_UPLOADS
        };
        self.visible.len() + near + BACKGROUND_UPLOADS
    }

    fn take_target(&mut self, times: &PathMap<i64>, path: &MediaPath) -> (r: (
        bool,
        Option<Upload>,
    ))
        ensures
            r.0 == old(self)@.deferred.dom().contains(path.key()),
            r.0 ==> final(self)@ == (ThumbsSpec {
                deferred: old(self)@.deferred.remove(path.key()),
                ..old(self)@
            }).taken(times@, old(self)@.deferred[path.key()]),
            r.0 ==> (r.1 is Some <==> old(self)@.shows(times@, old(self)@.deferred[path.key()])),
            r.1 matches Some(x) ==> r.0 && x.path@ == old(self)@.deferred[path.key()].path
                && x.pixels.width == old(self)@.deferred[path.key()].width && x.pixels.height
                == old(self)@.deferred[path.key()].height && x.pixels.rgba@
                == old(self)@.deferred[path.key()].rgba,
            !r.0 ==> final(self)@ == old(self)@ && r.1 is None,
    {
        let ghost before = self.deferred@;
        match self.deferred.remove(path) {
            None => {
                assert(before.remove(path.key()) =~= before);
                (false, None)
            },
            Some(result) => {
                assert(results_view(self.deferred@) =~= results_view(before).remove(path.key()));
                assert(result@ == results_view(before)[path.key()]);
                (true, self.upload_thumbnail_result(times, result))
            },
        }
    }

    /// One step of turning results into textures: first the media on show, then some that are
    /// about to be shown, then the first that there are.
    pub fn upload_step(&mut self, index: &MediaIndex, times: &PathMap<i64>, step: usize) -> (r:
        UploadStep)
        requires
            step < old(self)@.steps(),
        ensures
            ({
                let s = old(self)@;
                let near = step < s.steps() - BACKGROUND_UPLOADS;
                let target = s.step_target(index@, step as int);
                let hit = target is Some && s.deferred.dom().contains(target->0.parts);
                &&& near ==> r.urgent == hit
                &&& near && !hit ==> final(self)@ == s && r.upload is None
                &&& near && hit ==> takes(s, final(self)@, times@, target->0.parts, r.upload)
                &&& !near ==> !r.urgent
                &&& !near && s.deferred.dom() == Set::<crate::path::PathKey>::empty()
                    ==> final(self)@ == s && r.upload is None
                &&& !near && s.deferred.dom() != Set::<crate::path::PathKey>::empty()
                    ==> exists|k: crate::path::PathKey|
                    s.deferred.dom().contains(k) && #[trigger] takes(
                        s,
                        final(self)@,
                        times@,
                        k,
                        r.upload,
                    )
            }),
    {
        let ghost s = self@;
        let seen: usize = self.visible.len();
        let near: usize = if self.prefetch.len() < PREFETCH_UPLOADS {
            self.prefetch.len()
        } else {
            PREFETCH_UPLOADS
        };
        if step < seen || step - seen < near {
            let place: usize = if step < seen {
                self.visible[step]
            } else {
                self.prefetch[step - seen]
            };
            match index.media_at(place) {
                None => UploadStep { upload: None, urgent: false },
                Some(path) => {
                    let (hit, upload) = self.take_target(times, &path);
                    UploadStep { upload, urgent: hit }
                },
            }
        } else if self.deferred.is_empty() {
            assert(results_view(self.deferred@).dom() =~= self.deferred@.dom());
            UploadStep { upload: None, urgent: false }
        } else {
            assert(results_view(self.deferred@).dom() =~= self.deferred@.dom());
            let n: usize = self.deferred.len();
            proof {
                if n == 0 {
                    assert(self.deferred@.dom() =~= Set::empty());
                }
            }
            let path = self.deferred.path_at(0).clone();
            let (_, upload) = self.take_target(times, &path);
            assert(takes(s, self@, times@, path.key(), upload));
            UploadStep { upload, urgent: false }
        }
    }

    /// Ends a frame. Returns after how many milliseconds to paint again.
    pub fn end_poll(&mut self, inserted: bool, urgent: bool) -> (r: Option<u64>)
        ensures
            final(self)@ == old(self)@.settled(),
            r == if !old(self)@.busy() && !inserted {
                None
            } else if inserted || urgent {
                Some(16u64)
            } else {
                Some(50u64)
            },
    {
        assert(results_view(self.deferred@).dom() =~= self.deferred@.dom());
        let busy = !self.deferred.is_empty() || !self.queued.is_empty();
        if !busy {
            self.total = 0;
            self.done = 0;
        }
        if busy || inserted {
            if inserted || urgent {
                Some(16)
            } else {
                Some(50)
            }
        } else {
            None
        }
    }

    /// The grid is no longer on show.
    pub fn leave_view(&mut self)
        ensures
            final(self)@ == old(self)@.out_of_view(),
    {
        self.visible.clear();
        self.prefetch.clear();
        assert(self@.visible =~= Seq::empty());
        assert(self@.prefetch =~= Seq::empty());
    }
}

/// The result of a medium was taken out and became the given upload, if any.
pub open spec fn takes<T>(
    s: ThumbsSpec<T>,
    after: ThumbsSpec<T>,
    times: Map<crate::path::PathKey, i64>,
    k: crate::path::PathKey,
    upload: Option<Upload>,
) -> bool {
    let r = s.deferred[k];
    &&& after == (ThumbsSpec { deferred: s.deferred.remove(k), ..s }).taken(times, r)
    &&& upload is Some <==> s.shows(times, r)
    &&& upload matches Some(x) ==> x.path@ == r.path && x.pixels.width == r.width
        && x.pixels.height == r.height && x.pixels.rgba@ == r.rgba
}

/// A thumbnail of an earlier generation, of a file that was written since, or of a medium that
/// nobody waits for, changes nothing and is not shown.
pub proof fn stale_results_are_dropped<T>(
    s: ThumbsSpec<T>,
    times: Map<crate::path::PathKey, i64>,
    r: crate::loader::ResultSpec,
)
    requires
        r.generation != s.generation || !times.dom().contains(r.path.parts)
            || times[r.path.parts] != r.mtime || !s.queued.contains(r.path.parts),
    ensures
        s.taken(times, r) == s,
        !s.shows(times, r),
{
}

/// What was asked for anew is waited for, and nothing else is; results of before are stale.
pub proof fn asking_anew_drops_the_past<T>(
    s: ThumbsSpec<T>,
    items: Seq<crate::loader::ItemSpec>,
    r: crate::loader::ResultSpec,
)
    requires
        r.generation == s.generation,
    ensures
        s.asked_anew(items).received(seq![r]) == s.asked_anew(items),
        s.asked_anew(items).thumbnails.dom() == Set::<crate::path::PathKey>::empty(),
{
    let a = s.asked_anew(items);
    assert(seq![r].drop_last() =~= Seq::empty());
    assert(a.generation != r.generation);
    assert(with_results(a.deferred, a.generation, Seq::empty()) == a.deferred);
}

/// A medium that is gone has no thumbnail, is not waited for, and has no result.
pub proof fn forgotten_media_are_gone<T>(
    s: ThumbsSpec<T>,
    gone: Set<crate::path::PathKey>,
    k: crate::path::PathKey,
)
    ensures
        gone.contains(k) ==> !s.forgotten(gone).thumbnails.dom().contains(k) && !s.forgotten(
            gone,
        ).queued.contains(k) && !s.forgotten(gone).deferred.dom().contains(k),
        !gone.contains(k) ==> (s.forgotten(gone).thumbnails.dom().contains(k)
            <==> s.thumbnails.dom().contains(k)) && (s.forgotten(gone).queued.contains(k)
            <==> s.queued.contains(k)),
{
}

// ── What the thumbnails are for ──────────────────────────────────────────────

/// A texture that is kept is the thumbnail of its path; every other path has the thumbnail that it
/// had, and nothing else that is waited for, asked for or on show changes.
pub proof fn a_kept_texture_is_one_more_thumbnail<T>(
    s: ThumbsSpec<T>,
    path: crate::path::PathSpec,
    tex: T,
    k: crate::path::PathKey,
)
    ensures
        ({
            let t = s.uploaded(path, tex);
            &&& t.thumbnails.dom().contains(path.parts)
            &&& t.thumbnails[path.parts] == ThumbState::Ready(tex)
            &&& k != path.parts ==> (t.thumbnails.dom().contains(k)
                <==> s.thumbnails.dom().contains(k)) && (s.thumbnails.dom().contains(k)
                ==> t.thumbnails[k] == s.thumbnails[k])
            &&& t.queued == s.queued && t.deferred == s.deferred && t.visible == s.visible
                && t.prefetch == s.prefetch
            &&& t.generation == s.generation && t.total == s.total && t.queued_folders
                == s.queued_folders
        }),
{
}

/// Each texture that is kept counts as one that is done. The status bar names its path where it is
/// the last one that was asked for, or every hundredth; else it names the one of before.
pub proof fn kept_textures_are_counted<T>(
    s: ThumbsSpec<T>,
    path: crate::path::PathSpec,
    tex: T,
)
    requires
        s.done < usize::MAX,
    ensures
        s.uploaded(path, tex).done == s.done + 1,
        s.done + 1 == s.total ==> s.uploaded(path, tex).current == Some(path),
        (s.done + 1) % 100 == 0 ==> s.uploaded(path, tex).current == Some(path),
        s.done + 1 != s.total && (s.done + 1) % 100 != 0 ==> s.uploaded(path, tex).current
            == s.current,
{
}

/// Two textures that are kept are both there, whichever came first.
pub proof fn all_kept_textures_are_there<T>(
    s: ThumbsSpec<T>,
    a: crate::path::PathSpec,
    x: T,
    b: crate::path::PathSpec,
    y: T,
)
    requires
        a.parts != b.parts,
    ensures
        s.uploaded(a, x).uploaded(b, y).thumbnails[a.parts] == ThumbState::Ready(x),
        s.uploaded(a, x).uploaded(b, y).thumbnails[b.parts] == ThumbState::Ready(y),
        s.uploaded(a, x).uploaded(b, y).thumbnails.dom().contains(a.parts),
        s.uploaded(a, x).uploaded(b, y).thumbnails.dom().contains(b.parts),
        s.uploaded(a, x).uploaded(b, y).thumbnails == s.uploaded(b, y).uploaded(
            a,
            x,
        ).thumbnails,
{
    assert(s.uploaded(a, x).uploaded(b, y).thumbnails =~= s.uploaded(b, y).uploaded(
        a,
        x,
    ).thumbnails);
}

/// The paths of items are those of the items, and no others.
pub proof fn item_keys_are_the_paths_of_items(
    s: Seq<crate::loader::ItemSpec>,
    k: crate::path::PathKey,
)
    ensures
        item_keys(s).contains(k) <==> exists|i: int|
            0 <= i < s.len() && (#[trigger] s[i]).path.parts == k,
        s.len() > 0 ==> first_item(s) == Some(s[0].path),
        s.len() == 0 ==> first_item(s) is None,
    decreases s.len(),
{
    if s.len() > 0 {
        let front = s.drop_last();
        item_keys_are_the_paths_of_items(front, k);
        if item_keys(front).contains(k) {
            let i = choose|i: int| 0 <= i < front.len() && (#[trigger] front[i]).path.parts == k;
            assert(s[i] == front[i]);
        }
        if s.last().path.parts == k {
            assert(s[s.len() - 1].path.parts == k);
        }
        if exists|i: int| 0 <= i < s.len() && (#[trigger] s[i]).path.parts == k {
            let i = choose|i: int| 0 <= i < s.len() && (#[trigger] s[i]).path.parts == k;
            if i < front.len() {
                assert(front[i] == s[i]);
            }
        }
    }
}

/// The folders of items are those that their paths lie in, and no others.
pub proof fn folders_are_those_of_the_items(
    s: Seq<crate::loader::ItemSpec>,
    k: crate::path::PathKey,
)
    ensures
        folders_of(s).contains(k) <==> exists|i: int|
            0 <= i < s.len() && (crate::path::folder_of((#[trigger] s[i]).path) matches Some(f)
                && f.parts == k),
    decreases s.len(),
{
    if s.len() > 0 {
        let front = s.drop_last();
        folders_are_those_of_the_items(front, k);
        if folders_of(front).contains(k) {
            let i = choose|i: int|
                0 <= i < front.len() && (crate::path::folder_of(
                    (#[trigger] front[i]).path,
                ) matches Some(f) && f.parts == k);
            assert(s[i] == front[i]);
        }
        assert(s[s.len() - 1] == s.last());
        if exists|i: int|
            0 <= i < s.len() && (crate::path::folder_of((#[trigger] s[i]).path) matches Some(f)
                && f.parts == k) {
            let i = choose|i: int|
                0 <= i < s.len() && (crate::path::folder_of(
                    (#[trigger] s[i]).path,
                ) matches Some(f) && f.parts == k);
            if i < front.len() {
                assert(front[i] == s[i]);
            }
        }
    }
}

/// What is asked for anew is all that is waited for, of the next generation; nothing of before is
/// kept, and the counters start at nothing done of all items.
pub proof fn asking_anew_starts_over<T>(
    s: ThumbsSpec<T>,
    items: Seq<crate::loader::ItemSpec>,
    k: crate::path::PathKey,
)
    requires
        items.len() <= usize::MAX,
    ensures
        ({
            let t = s.asked_anew(items);
            &&& t.queued.contains(k) <==> exists|i: int|
                0 <= i < items.len() && (#[trigger] items[i]).path.parts == k
            &&& !t.thumbnails.dom().contains(k) && !t.deferred.dom().contains(k)
            &&& t.visible.len() == 0 && t.prefetch.len() == 0
            &&& t.total == items.len() && t.done == 0
            &&& s.generation < u64::MAX ==> t.generation == s.generation + 1
            &&& items.len() > 0 ==> t.current == Some(items[0].path)
            &&& items.len() == 0 ==> t.current is None
            &&& folders_of(items).len() <= usize::MAX ==> t.queued_folders == folders_of(
                items,
            ).len()
        }),
{
    item_keys_are_the_paths_of_items(items, k);
}

/// What is asked for besides is waited for as well; all thumbnails and results of before are kept,
/// and so is the generation. The counters start at nothing done of the new items.
pub proof fn asking_for_more_keeps_the_rest<T>(
    s: ThumbsSpec<T>,
    items: Seq<crate::loader::ItemSpec>,
    k: crate::path::PathKey,
)
    requires
        items.len() <= usize::MAX,
    ensures
        ({
            let t = s.asked_more(items);
            &&& t.queued.contains(k) <==> s.queued.contains(k) || exists|i: int|
                0 <= i < items.len() && (#[trigger] items[i]).path.parts == k
            &&& t.thumbnails == s.thumbnails && t.deferred == s.deferred && t.visible == s.visible
                && t.prefetch == s.prefetch && t.generation == s.generation
            &&& t.total == items.len() && t.done == 0
            &&& items.len() > 0 ==> t.current == Some(items[0].path)
            &&& items.len() == 0 ==> t.current is None
            &&& folders_of(items).len() <= usize::MAX ==> t.queued_folders == folders_of(
                items,
            ).len()
        }),
{
    item_keys_are_the_paths_of_items(items, k);
}

/// The loader is sent all items, in their order, with the generation; nothing is sent where there
/// are none.
pub proof fn requests_hold_all_items(generation: u64, items: Seq<crate::loader::ItemSpec>)
    ensures
        items.len() == 0 <==> request_for(generation, items) is None,
        request_for(generation, items) matches Some(r) ==> r.generation == generation && r.items
            == items,
{
}

/// Of the results that come, those of this generation wait under their paths, the last one of a
/// path counting; results of other generations are dropped, and those that waited stay.
pub proof fn results_wait_under_their_paths<T>(
    t: ThumbsSpec<T>,
    s: Seq<crate::loader::ResultSpec>,
    k: crate::path::PathKey,
    i: int,
)
    requires
        -1 <= i < s.len(),
        i >= 0 ==> s[i].generation == t.generation && s[i].path.parts == k,
        forall|j: int|
            i < j < s.len() ==> (#[trigger] s[j]).generation != t.generation || s[j].path.parts
                != k,
    ensures
        i >= 0 ==> t.received(s).deferred.dom().contains(k) && t.received(s).deferred[k] == s[i],
        i == -1 ==> (t.received(s).deferred.dom().contains(k) <==> t.deferred.dom().contains(k))
            && (t.deferred.dom().contains(k) ==> t.received(s).deferred[k] == t.deferred[k]),
        t.received(s).thumbnails == t.thumbnails && t.received(s).queued == t.queued,
        t.received(s).generation == t.generation && t.received(s).total == t.total && t.received(
            s,
        ).done == t.done,
        t.received(s).visible == t.visible && t.received(s).prefetch == t.prefetch && t.received(
            s,
        ).current == t.current && t.received(s).queued_folders == t.queued_folders,
    decreases s.len(),
{
    if s.len() > 0 {
        let front = s.drop_last();
        if i < front.len() {
            assert forall|j: int| i < j < front.len() implies (#[trigger] front[j]).generation
                != t.generation || front[j].path.parts != k by {
                assert(front[j] == s[j]);
            }
            assert(i >= 0 ==> front[i] == s[i]);
            results_wait_under_their_paths(t, front, k, i);
            assert(s[s.len() - 1] == s.last());
        }
    }
}

/// Forgotten media have nothing left, and all else stays as it was.
pub proof fn forgetting_keeps_the_rest<T>(
    s: ThumbsSpec<T>,
    gone: Set<crate::path::PathKey>,
    k: crate::path::PathKey,
)
    requires
        !gone.contains(k),
    ensures
        ({
            let t = s.forgotten(gone);
            &&& t.thumbnails.dom().contains(k) <==> s.thumbnails.dom().contains(k)
            &&& s.thumbnails.dom().contains(k) ==> t.thumbnails[k] == s.thumbnails[k]
            &&& t.deferred.dom().contains(k) <==> s.deferred.dom().contains(k)
            &&& s.deferred.dom().contains(k) ==> t.deferred[k] == s.deferred[k]
            &&& t.queued.contains(k) <==> s.queued.contains(k)
            &&& t.generation == s.generation && t.total == s.total && t.done == s.done && t.visible
                == s.visible && t.prefetch == s.prefetch && t.current == s.current
                && t.queued_folders == s.queued_folders
        }),
{
}

/// A result that is waited for, of the file as the last scan saw it, is taken once: its path is no
/// longer waited for, every other path is as before, and it is shown where its pixels are whole.
pub proof fn awaited_results_are_taken_once<T>(
    s: ThumbsSpec<T>,
    times: Map<crate::path::PathKey, i64>,
    r: crate::loader::ResultSpec,
    k: crate::path::PathKey,
)
    requires
        r.generation == s.generation,
        times.dom().contains(r.path.parts) && times[r.path.parts] == r.mtime,
        s.queued.contains(r.path.parts),
    ensures
        ({
            let t = s.taken(times, r);
            &&& !t.queued.contains(r.path.parts)
            &&& k != r.path.parts ==> (t.queued.contains(k) <==> s.queued.contains(k))
            &&& t.thumbnails == s.thumbnails && t.deferred == s.deferred && t.generation
                == s.generation && t.done == s.done && t.total == s.total && t.visible == s.visible
                && t.prefetch == s.prefetch && t.current == s.current && t.queued_folders
                == s.queued_folders
            &&& r.width > 0 && r.height > 0 && r.rgba.len() == r.width * r.height * 4 ==> s.shows(
                times,
                r,
            )
            &&& r.width == 0 || r.height == 0 || r.rgba.len() != r.width * r.height * 4
                ==> !s.shows(times, r)
            &&& !t.shows(times, r) && t.taken(times, r) == t
        }),
{
}

/// The counters go back to nothing when nothing is waited for and nothing waits, and stay until
/// then; nothing else changes.
pub proof fn counters_go_back_when_all_is_done<T>(s: ThumbsSpec<T>, k: crate::path::PathKey)
    ensures
        s.queued.contains(k) ==> s.busy(),
        s.deferred.dom().contains(k) ==> s.busy(),
        s.busy() ==> s.settled() == s,
        !s.busy() ==> s.settled().total == 0 && s.settled().done == 0,
        s.settled().thumbnails == s.thumbnails && s.settled().queued == s.queued
            && s.settled().deferred == s.deferred && s.settled().generation == s.generation
            && s.settled().visible == s.visible && s.settled().prefetch == s.prefetch,
        (forall|p: crate::path::PathKey| !s.queued.contains(p)) && (forall|p: crate::path::PathKey|
            !s.deferred.dom().contains(p)) ==> !s.busy(),
{
    if forall|p: crate::path::PathKey| !s.queued.contains(p) {
        assert(s.queued =~= Set::empty());
    }
    if forall|p: crate::path::PathKey| !s.deferred.dom().contains(p) {
        assert(s.deferred.dom() =~= Set::empty());
    }
}

/// Where the grid is not on show, no medium counts as on show or about to be; all else stays.
pub proof fn out_of_view_nothing_is_on_show<T>(s: ThumbsSpec<T>)
    ensures
        s.out_of_view().visible.len() == 0,
        s.out_of_view().prefetch.len() == 0,
        s.out_of_view().thumbnails == s.thumbnails && s.out_of_view().queued == s.queued
            && s.out_of_view().deferred == s.deferred && s.out_of_view().generation
            == s.generation && s.out_of_view().total == s.total && s.out_of_view().done == s.done,
{
}

/// In each frame the media on show come first, each in its turn, then up to four that are about to
/// be shown, and then two others.
pub proof fn the_media_on_show_come_first<T>(
    s: ThumbsSpec<T>,
    media: Seq<crate::path::PathSpec>,
    i: int,
)
    requires
        0 <= i,
    ensures
        s.prefetch.len() <= 4 ==> s.steps() == s.visible.len() + s.prefetch.len() + 2,
        s.prefetch.len() > 4 ==> s.steps() == s.visible.len() + 6,
        i < s.visible.len() && s.visible[i] < media.len() ==> s.step_target(media, i) == Some(
            media[s.visible[i] as int],
        ),
        i < s.prefetch.len() && s.prefetch[i] < media.len() ==> s.step_target(
            media,
            s.visible.len() + i,
        ) == Some(media[s.prefetch[i] as int]),
        i < s.visible.len() && s.visible[i] >= media.len() ==> s.step_target(media, i) is None,
        i < s.prefetch.len() && s.prefetch[i] >= media.len() ==> s.step_target(
            media,
            s.visible.len() + i,
        ) is None,
{
}

/// A step that takes the result of a medium takes that one alone, and shows it where it is waited
/// for and whole.
pub proof fn a_step_takes_one_result<T>(
    s: ThumbsSpec<T>,
    t: ThumbsSpec<T>,
    times: Map<crate::path::PathKey, i64>,
    k: crate::path::PathKey,
    upload: Option<Upload>,
    other: crate::path::PathKey,
)
    requires
        takes(s, t, times, k, upload),
        s.deferred.dom().contains(k),
        s.deferred[k].path.parts == k,
    ensures
        !t.deferred.dom().contains(k),
        other != k ==> (t.deferred.dom().contains(other) <==> s.deferred.dom().contains(other)) && (
        t.queued.contains(other) <==> s.queued.contains(other)),
        other != k && s.deferred.dom().contains(other) ==> t.deferred[other] == s.deferred[other],
        upload matches Some(x) ==> x.path@.parts == k && x.pixels.rgba@ == s.deferred[k].rgba
            && x.pixels.width == s.deferred[k].width && x.pixels.height == s.deferred[k].height
            && s.queued.contains(k) && !t.queued.contains(k),
        s.queued.contains(k) && s.deferred[k].generation == s.generation && times.dom().contains(k)
            && times[k] == s.deferred[k].mtime && s.deferred[k].width > 0 && s.deferred[k].height
            > 0 && s.deferred[k].rgba.len() == s.deferred[k].width * s.deferred[k].height * 4
            ==> upload is Some,
        t.thumbnails == s.thumbnails && t.generation == s.generation && t.visible == s.visible
            && t.prefetch == s.prefetch && t.done == s.done && t.total == s.total,
{
}

/// In one frame up to twenty-four results are fetched, and results are turned into textures for
/// about four milliseconds.
pub proof fn a_frame_does_a_little_at_a_time()
    ensures
        THUMBNAIL_PULL_BUDGET == 24,
        THUMBNAIL_UPLOAD_BUDGET_MS == 4,
{
}

proof fn items_of_a_group(
    images: Seq<crate::path::PathSpec>,
    boost: i32,
    wanted: spec_fn(crate::path::PathKey) -> bool,
    i: int,
)
    requires
        0 <= i < images.len(),
        wanted(images[i].parts),
    ensures
        group_items(images, boost, wanted).contains(
            crate::loader::ItemSpec {
                priority: item_priority(boost, i as usize),
                path: images[i],
            },
        ),
    decreases images.len(),
{
    let x = crate::loader::ItemSpec {
        priority: item_priority(boost, i as usize),
        path: images[i],
    };
    let front = images.drop_last();
    let f = group_items(front, boost, wanted);
    let all = group_items(images, boost, wanted);
    if i < front.len() {
        items_of_a_group(front, boost, wanted, i);
        assert(front[i] == images[i]);
        let j = choose|j: int| 0 <= j < f.len() && f[j] == x;
        assert(all[j] == x);
    } else {
        assert(all[all.len() - 1] == x);
    }
}

proof fn items_are_of_the_group(
    images: Seq<crate::path::PathSpec>,
    boost: i32,
    wanted: spec_fn(crate::path::PathKey) -> bool,
    j: int,
) -> (i: int)
    requires
        0 <= j < group_items(images, boost, wanted).len(),
    ensures
        0 <= i < images.len(),
        wanted(images[i].parts),
        group_items(images, boost, wanted)[j].path == images[i],
        group_items(images, boost, wanted)[j].priority == item_priority(boost, i as usize),
    decreases images.len(),
{
    let front = images.drop_last();
    let f = group_items(front, boost, wanted);
    if j < f.len() {
        items_are_of_the_group(front, boost, wanted, j)
    } else {
        images.len() - 1
    }
}

proof fn items_of_the_others(
    groups: Seq<crate::scan::GroupSpec>,
    active: Option<int>,
    wanted: spec_fn(crate::path::PathKey) -> bool,
    g: int,
    i: int,
)
    requires
        0 <= g < groups.len(),
        active != Some(g),
        0 <= i < groups[g].images.len(),
        wanted(groups[g].images[i].parts),
    ensures
        other_items(groups, active, wanted).contains(
            crate::loader::ItemSpec {
                priority: item_priority(group_boost(g as usize), i as usize),
                path: groups[g].images[i],
            },
        ),
    decreases groups.len(),
{
    let x = crate::loader::ItemSpec {
        priority: item_priority(group_boost(g as usize), i as usize),
        path: groups[g].images[i],
    };
    let front = groups.drop_last();
    let f = other_items(front, active, wanted);
    let all = other_items(groups, active, wanted);
    if g < front.len() {
        items_of_the_others(front, active, wanted, g, i);
        assert(front[g] == groups[g]);
        let j = choose|j: int| 0 <= j < f.len() && f[j] == x;
        assert(all[j] == x);
    } else {
        let own = group_items(groups.last().images, group_boost(g as usize), wanted);
        items_of_a_group(groups.last().images, group_boost(g as usize), wanted, i);
        let j = choose|j: int| 0 <= j < own.len() && own[j] == x;
        assert(all[f.len() + j] == x);
    }
}

proof fn items_are_of_the_others(
    groups: Seq<crate::scan::GroupSpec>,
    active: Option<int>,
    wanted: spec_fn(crate::path::PathKey) -> bool,
    j: int,
) -> (r: (int, int))
    requires
        0 <= j < other_items(groups, active, wanted).len(),
    ensures
        0 <= r.0 < groups.len(),
        active != Some(r.0),
        0 <= r.1 < groups[r.0].images.len(),
        wanted(groups[r.0].images[r.1].parts),
        other_items(groups, active, wanted)[j].path == groups[r.0].images[r.1],
    decreases groups.len(),
{
    let front = groups.drop_last();
    let f = other_items(front, active, wanted);
    if j < f.len() {
        items_are_of_the_others(front, active, wanted, j)
    } else {
        let g = groups.len() - 1;
        let i = items_are_of_the_group(
            groups.last().images,
            group_boost(g as usize),
            wanted,
            j - f.len(),
        );
        (g, i)
    }
}

/// Every wanted medium of every group on show is asked for. Those of the selected folder get a
/// million less their place as priority, the others a hundred thousand less a thousand for each
/// group in front and less their place.
pub proof fn every_wanted_medium_is_asked_for(
    groups: Seq<crate::scan::GroupSpec>,
    selected: Option<crate::path::PathSpec>,
    wanted: spec_fn(crate::path::PathKey) -> bool,
    g: int,
    i: int,
)
    requires
        0 <= g < groups.len(),
        0 <= i < groups[g].images.len(),
        wanted(groups[g].images[i].parts),
        g < 1_000_000,
        i < 1_000_000,
    ensures
        exists|j: int|
            {
                &&& 0 <= j < prioritized(groups, selected, wanted).len()
                &&& (#[trigger] prioritized(groups, selected, wanted)[j]).path
                    == groups[g].images[i]
                &&& prioritized(groups, selected, wanted)[j].priority == if active_group(
                    groups,
                    selected,
                ) == Some(g) {
                    1_000_000 - i
                } else {
                    100_000 - 1_000 * g - i
                }
            },
{
    let active = active_group(groups, selected);
    let all = prioritized(groups, selected, wanted);
    let first = match active {
        Some(a) => group_items(groups[a].images, ACTIVE_BOOST, wanted),
        None => Seq::empty(),
    };
    let rest = other_items(groups, active, wanted);
    if active == Some(g) {
        let x = crate::loader::ItemSpec {
            priority: item_priority(ACTIVE_BOOST, i as usize),
            path: groups[g].images[i],
        };
        items_of_a_group(groups[g].images, ACTIVE_BOOST, wanted, i);
        let j = choose|j: int| 0 <= j < first.len() && first[j] == x;
        assert(all[j] == x);
    } else {
        let x = crate::loader::ItemSpec {
            priority: item_priority(group_boost(g as usize), i as usize),
            path: groups[g].images[i],
        };
        items_of_the_others(groups, active, wanted, g, i);
        let j = choose|j: int| 0 <= j < rest.len() && rest[j] == x;
        assert(all[first.len() + j] == x);
    }
}

/// Nothing else is asked for: each item is a wanted medium of some group on show.
pub proof fn only_wanted_media_are_asked_for(
    groups: Seq<crate::scan::GroupSpec>,
    selected: Option<crate::path::PathSpec>,
    wanted: spec_fn(crate::path::PathKey) -> bool,
    j: int,
)
    requires
        0 <= j < prioritized(groups, selected, wanted).len(),
    ensures
        exists|g: int, i: int|
            {
                &&& 0 <= g < groups.len() && 0 <= i < groups[g].images.len()
                &&& (#[trigger] groups[g].images[i]) == prioritized(groups, selected, wanted)[j].path
                &&& wanted(groups[g].images[i].parts)
            },
{
    let active = active_group(groups, selected);
    let first = match active {
        Some(a) => group_items(groups[a].images, ACTIVE_BOOST, wanted),
        None => Seq::empty(),
    };
    if j < first.len() {
        let a = active->0;
        if let Some(f) = selected {
            group_place_is_there(groups, f.parts);
        }
        let i = items_are_of_the_group(groups[a].images, ACTIVE_BOOST, wanted, j);
        assert(groups[a].images[i] == prioritized(groups, selected, wanted)[j].path);
    } else {
        let (g, i) = items_are_of_the_others(groups, active, wanted, j - first.len());
        assert(groups[g].images[i] == prioritized(groups, selected, wanted)[j].path);
    }
}

/// The group of the selected folder is the first one of that folder; without a selected folder, or
/// where it has no group, there is none.
pub proof fn the_active_group_is_that_of_the_selected_folder(
    groups: Seq<crate::scan::GroupSpec>,
    folder: crate::path::PathSpec,
)
    ensures
        active_group(groups, None) is None,
        active_group(groups, Some(folder)) matches Some(a) ==> 0 <= a < groups.len()
            && groups[a].path.parts == folder.parts && forall|i: int|
            0 <= i < a ==> (#[trigger] groups[i]).path.parts != folder.parts,
        active_group(groups, Some(folder)) is None ==> forall|i: int|
            0 <= i < groups.len() ==> (#[trigger] groups[i]).path.parts != folder.parts,
    decreases groups.len(),
{
    if groups.len() > 0 {
        let front = groups.drop_last();
        the_active_group_is_that_of_the_selected_folder(front, folder);
        assert forall|i: int| 0 <= i < front.len() implies front[i] == #[trigger] groups[i] by {}
    }
}

/// All media are wanted, or those of a set.
pub proof fn media_are_wanted_by_their_paths(
    m: Map<crate::path::PathKey, ()>,
    k: crate::path::PathKey,
)
    ensures
        every_medium()(k),
        media_of(m)(k) <==> m.dom().contains(k),
{
}

} // verus!
