//! All media of the folders on show, one after the other, and how to find them.

use vstd::prelude::*;

use crate::media::{is_image, tile_label_for_path};
use crate::path::MediaPath;
use crate::pathmap::PathMap;
use crate::scan::FolderGroup;

verus! {

/// The media of a list of groups, one after the other.
pub open spec fn groups_media(s: Seq<crate::scan::GroupSpec>) -> Seq<crate::path::PathSpec>
    decreases s.len(),
{
    if s.len() == 0 {
        Seq::empty()
    } else {
        groups_media(s.drop_last()) + s.last().images
    }
}

/// The images among media.
pub open spec fn images_among(s: Seq<crate::path::PathSpec>) -> Seq<crate::path::PathSpec>
    decreases s.len(),
{
    if s.len() == 0 {
        Seq::empty()
    } else if crate::media::image_key(s.last().parts) {
        images_among(s.drop_last()).push(s.last())
    } else {
        images_among(s.drop_last())
    }
}

/// The labels of the tiles of a list of media.
pub open spec fn tile_labels(s: Seq<crate::path::PathSpec>) -> Seq<Seq<char>> {
    Seq::new(s.len(), |i: int| crate::media::tile_label(s[i].parts))
}

/// Where a path stands in a list; the last place of a path that stands there twice.
pub open spec fn place_in(s: Seq<crate::path::PathSpec>, k: crate::path::PathKey) -> Option<int>
    decreases s.len(),
{
    if s.len() == 0 {
        None
    } else if s.last().parts == k {
        Some(s.len() - 1)
    } else {
        place_in(s.drop_last(), k)
    }
}

/// A map tells where each path of a list stands.
pub open spec fn tells_places(
    m: Map<crate::path::PathKey, usize>,
    s: Seq<crate::path::PathSpec>,
) -> bool {
    forall|k: crate::path::PathKey|
        (#[trigger] m.dom().contains(k) <==> place_in(s, k) is Some) && (m.dom().contains(k)
            ==> m[k] == place_in(s, k)->0)
}

/// The first image at `from` or behind it, by its place among the images.
pub open spec fn image_from(s: Seq<crate::path::PathSpec>, from: int) -> Option<int>
    decreases s.len() - from,
{
    if from < 0 || from >= s.len() {
        None
    } else if crate::media::image_key(s[from].parts) {
        place_in(images_among(s), s[from].parts)
    } else {
        image_from(s, from + 1)
    }
}

/// The last image in front of `to`, by its place among the images.
pub open spec fn image_before(s: Seq<crate::path::PathSpec>, to: int) -> Option<int>
    decreases to,
{
    if to <= 0 || to > s.len() {
        None
    } else if crate::media::image_key(s[to - 1].parts) {
        place_in(images_among(s), s[to - 1].parts)
    } else {
        image_before(s, to - 1)
    }
}

/// The image near the medium at `i` that a slideshow can start with: the next image, or else
/// the image before.
pub open spec fn slideshow_start(s: Seq<crate::path::PathSpec>, i: int) -> Option<int> {
    if i < 0 || i >= s.len() {
        None
    } else if image_from(s, i + 1) is Some {
        image_from(s, i + 1)
    } else {
        image_before(s, i)
    }
}

/// The image that F5 starts a slideshow with when the medium at `i` is on show: the medium
/// itself where it is an image, or else the image nearby.
pub open spec fn slideshow_from(s: Seq<crate::path::PathSpec>, i: int) -> Option<int> {
    if 0 <= i < s.len() && crate::media::image_key(s[i].parts) {
        place_in(images_among(s), s[i].parts)
    } else {
        slideshow_start(s, i)
    }
}

/// All media, and where each of them stands.
pub struct MediaIndex {
    media: Vec<MediaPath>,
    images: Vec<MediaPath>,
    labels: Vec<String>,
    media_at: PathMap<usize>,
    image_at: PathMap<usize>,
    next_image: Vec<Option<usize>>,
    prev_image: Vec<Option<usize>>,
}

impl View for MediaIndex {
    type V = Seq<crate::path::PathSpec>;

    closed spec fn view(&self) -> Seq<crate::path::PathSpec> {
        crate::path::paths_view(self.media@)
    }
}

spec fn option_int(x: Option<usize>) -> Option<int> {
    match x {
        Some(n) => Some(n as int),
        None => None,
    }
}

proof fn places_of_images(s: Seq<crate::path::PathSpec>, k: crate::path::PathKey)
    ensures
        place_in(images_among(s), k) is Some <==> crate::media::image_key(k) && place_in(s, k) is Some,
        images_among(s).len() <= s.len(),
    decreases s.len(),
{
    if s.len() > 0 {
        places_of_images(s.drop_last(), k);
        if crate::media::image_key(s.last().parts) {
            assert(images_among(s).drop_last() =~= images_among(s.drop_last()));
        }
    }
}

proof fn place_is_there(s: Seq<crate::path::PathSpec>, k: crate::path::PathKey)
    ensures
        place_in(s, k) matches Some(i) ==> 0 <= i < s.len() && s[i].parts == k,
        crate::pathmap::has_key(s, k) <==> place_in(s, k) is Some,
    decreases s.len(),
{
    if s.len() > 0 {
        let front = s.drop_last();
        place_is_there(front, k);
        assert(s =~= front.push(s.last()));
        crate::scan::has_key_of_push(front, s.last(), k);
        if place_in(front, k) is Some {
            assert(s[place_in(front, k)->0] == front[place_in(front, k)->0]);
        }
    }
}

proof fn place_of_item(s: Seq<crate::path::PathSpec>, i: int)
    requires
        0 <= i < s.len(),
    ensures
        place_in(s, s[i].parts) is Some,
{
    place_is_there(s, s[i].parts);
}

impl MediaIndex {
    #[verifier::type_invariant]
    spec fn inv(self) -> bool {
        let s = crate::path::paths_view(self.media@);
        &&& crate::path::paths_view(self.images@) == images_among(s)
        &&& crate::media::texts_view(self.labels@) == tile_labels(images_among(s))
        &&& tells_places(self.media_at@, s)
        &&& tells_places(self.image_at@, images_among(s))
        &&& self.next_image@.len() == s.len()
        &&& self.prev_image@.len() == s.len()
        &&& forall|i: int|
            0 <= i < s.len() ==> option_int(#[trigger] self.next_image@[i]) == image_from(s, i + 1)
        &&& forall|i: int|
            0 <= i < s.len() ==> option_int(#[trigger] self.prev_image@[i]) == image_before(s, i)
    }

    /// An index of no media.
    pub fn new() -> (r: MediaIndex)
        ensures
            r@ == Seq::<crate::path::PathSpec>::empty(),
    {
        let groups: Vec<FolderGroup> = Vec::new();
        assert(crate::scan::groups_view(groups@) =~= Seq::empty());
        MediaIndex::of_groups(&groups)
    }

    /// The index of the media of the groups on show.
    pub fn of_groups(groups: &Vec<FolderGroup>) -> (r: MediaIndex)
        ensures
            r@ == groups_media(crate::scan::groups_view(groups@)),
    {
        let mut media: Vec<MediaPath> = Vec::new();
        let mut images: Vec<MediaPath> = Vec::new();
        let mut labels: Vec<String> = Vec::new();
        let mut media_at: PathMap<usize> = PathMap::new();
        let mut image_at: PathMap<usize> = PathMap::new();
        let ghost gs = crate::scan::groups_view(groups@);
        assert(crate::path::paths_view(media@) =~= groups_media(gs.take(0)));
        assert(crate::path::paths_view(images@) =~= images_among(crate::path::paths_view(media@)));
        assert(crate::media::texts_view(labels@) =~= tile_labels(
            crate::path::paths_view(images@),
        ));
        for i in 0..groups.len()
            invariant
                gs == crate::scan::groups_view(groups@),
                crate::path::paths_view(media@) == groups_media(gs.take(i as int)),
                crate::path::paths_view(images@) == images_among(
                    crate::path::paths_view(media@),
                ),
                crate::media::texts_view(labels@) == tile_labels(
                    crate::path::paths_view(images@),
                ),
                tells_places(media_at@, crate::path::paths_view(media@)),
                tells_places(image_at@, crate::path::paths_view(images@)),
        {
            let group = &groups[i];
            let ghost before = crate::path::paths_view(media@);
            let ghost here = crate::path::paths_view(group.images@);
            assert(before + here.take(0) =~= before);
            for j in 0..group.images.len()
                invariant
                    here == crate::path::paths_view(group.images@),
                    crate::path::paths_view(media@) == before + here.take(j as int),
                    crate::path::paths_view(images@) == images_among(
                        crate::path::paths_view(media@),
                    ),
                    crate::media::texts_view(labels@) == tile_labels(
                        crate::path::paths_view(images@),
                    ),
                    tells_places(media_at@, crate::path::paths_view(media@)),
                    tells_places(image_at@, crate::path::paths_view(images@)),
            {
                let path = &group.images[j];
                enter(
                    path,
                    &mut media,
                    &mut images,
                    &mut labels,
                    &mut media_at,
                    &mut image_at,
                );
                assert(before + here.take(j + 1) =~= (before + here.take(j as int)).push(
                    here[j as int],
                ));
            }
            assert(here.take(here.len() as int) =~= here);
            assert(gs.take(i + 1).drop_last() =~= gs.take(i as int));
            assert(gs.take(i + 1).last() == groups@[i as int]@);
        }
        assert(gs.take(gs.len() as int) =~= gs);
        let next_image = next_images(&media, &images, &image_at);
        let prev_image = prev_images(&media, &images, &image_at);
        MediaIndex { media, images, labels, media_at, image_at, next_image, prev_image }
    }

    /// All media.
    pub fn all_images(&self) -> (r: &Vec<MediaPath>)
        ensures
            crate::path::paths_view(r@) == self@,
    {
        &self.media
    }

    /// The images, which a slideshow goes through.
    pub fn all_slideshow_images(&self) -> (r: &Vec<MediaPath>)
        ensures
            crate::path::paths_view(r@) == images_among(self@),
    {
        proof {
            use_type_invariant(&*self);
        }
        &self.images
    }

    /// The labels of the images.
    pub fn image_labels(&self) -> (r: &Vec<String>)
        ensures
            crate::media::texts_view(r@) == tile_labels(images_among(self@)),
    {
        proof {
            use_type_invariant(&*self);
        }
        &self.labels
    }

    /// The number of media.
    pub fn total_media(&self) -> (r: usize)
        ensures
            r == self@.len(),
    {
        self.media.len()
    }

    /// The number of images.
    pub fn total_images(&self) -> (r: usize)
        ensures
            r == images_among(self@).len(),
    {
        proof {
            use_type_invariant(&*self);
            assert(crate::path::paths_view(self.images@).len() == self.images@.len());
        }
        self.images.len()
    }

    /// Where a path stands among all media.
    pub fn place_of(&self, path: &MediaPath) -> (r: Option<usize>)
        ensures
            r is Some <==> place_in(self@, path.key()) is Some,
            r matches Some(i) ==> Some(i as int) == place_in(self@, path.key()) && i < self@.len(),
    {
        proof {
            use_type_invariant(&*self);
            place_is_there(self@, path.key());
        }
        match self.media_at.get(path) {
            Some(i) => Some(*i),
            None => None,
        }
    }

    /// The medium at a place.
    pub fn media_at(&self, i: usize) -> (r: Option<MediaPath>)
        ensures
            r is Some <==> i < self@.len(),
            r matches Some(p) ==> p@ == self@[i as int],
    {
        if i < self.media.len() {
            Some(self.media[i].clone())
        } else {
            None
        }
    }

    /// The image near the medium at a place that a slideshow can start with.
    pub fn slideshow_index_for_media_index(&self, media_index: usize) -> (r: Option<usize>)
        ensures
            r is Some <==> slideshow_start(self@, media_index as int) is Some,
            r matches Some(i) ==> Some(i as int) == slideshow_start(self@, media_index as int) && i
                < images_among(self@).len(),
    {
        proof {
            use_type_invariant(&*self);
        }
        if media_index >= self.media.len() || self.images.len() == 0 {
            proof {
                if media_index < self.media.len() {
                    assert(images_among(self@).len() == 0);
                    no_image_no_place(self@, media_index + 1);
                    no_image_before(self@, media_index as int);
                }
            }
            return None;
        }
        proof {
            image_from_is_one(self@, media_index + 1);
            image_before_is_one(self@, media_index as int);
        }
        match self.next_image[media_index] {
            Some(i) => Some(i),
            None => self.prev_image[media_index],
        }
    }

    /// The image that F5 starts a slideshow with when the medium at a place is on show.
    pub fn slideshow_index_from(&self, media_index: usize) -> (r: Option<usize>)
        ensures
            r is Some <==> slideshow_from(self@, media_index as int) is Some,
            r matches Some(i) ==> Some(i as int) == slideshow_from(self@, media_index as int) && i
                < images_among(self@).len(),
    {
        proof {
            use_type_invariant(&*self);
        }
        if media_index < self.media.len() {
            proof {
                places_of_images(self@, self@[media_index as int].parts);
                place_of_item(self@, media_index as int);
                place_is_there(images_among(self@), self@[media_index as int].parts);
            }
            if let Some(i) = self.image_at.get(&self.media[media_index]) {
                return Some(*i);
            }
        }
        self.slideshow_index_for_media_index(media_index)
    }
}

proof fn no_image_no_place(s: Seq<crate::path::PathSpec>, from: int)
    requires
        images_among(s).len() == 0,
        from >= 0,
    ensures
        image_from(s, from) is None,
    decreases s.len() - from,
{
    if from < s.len() {
        places_of_images(s, s[from].parts);
        place_of_item(s, from);
        place_is_there(images_among(s), s[from].parts);
        no_image_no_place(s, from + 1);
    }
}

proof fn no_image_before(s: Seq<crate::path::PathSpec>, to: int)
    requires
        images_among(s).len() == 0,
    ensures
        image_before(s, to) is None,
    decreases to,
{
    if 0 < to <= s.len() {
        places_of_images(s, s[to - 1].parts);
        place_of_item(s, to - 1);
        place_is_there(images_among(s), s[to - 1].parts);
        no_image_before(s, to - 1);
    }
}

/// Enters one more path.
fn enter(
    path: &MediaPath,
    media: &mut Vec<MediaPath>,
    images: &mut Vec<MediaPath>,
    labels: &mut Vec<String>,
    media_at: &mut PathMap<usize>,
    image_at: &mut PathMap<usize>,
)
    requires
        crate::path::paths_view(old(images)@) == images_among(
            crate::path::paths_view(old(media)@),
        ),
        crate::media::texts_view(old(labels)@) == tile_labels(
            crate::path::paths_view(old(images)@),
        ),
        tells_places(old(media_at)@, crate::path::paths_view(old(media)@)),
        tells_places(old(image_at)@, crate::path::paths_view(old(images)@)),
    ensures
        crate::path::paths_view(final(media)@) == crate::path::paths_view(old(media)@).push(path@),
        crate::path::paths_view(final(images)@) == images_among(
            crate::path::paths_view(final(media)@),
        ),
        crate::media::texts_view(final(labels)@) == tile_labels(
            crate::path::paths_view(final(images)@),
        ),
        tells_places(final(media_at)@, crate::path::paths_view(final(media)@)),
        tells_places(final(image_at)@, crate::path::paths_view(final(images)@)),
{
    let ghost ms = crate::path::paths_view(media@);
    let ghost is = crate::path::paths_view(images@);
    let ghost ls = crate::media::texts_view(labels@);
    let media_index: usize = media.len();
    media_at.insert(path.clone(), media_index);
    media.push(path.clone());
    assert(crate::path::paths_view(media@) =~= ms.push(path@));
    assert(ms.push(path@).drop_last() =~= ms);
    if is_image(path) {
        let image_index: usize = images.len();
        image_at.insert(path.clone(), image_index);
        images.push(path.clone());
        labels.push(tile_label_for_path(path));
        assert(crate::path::paths_view(images@) =~= is.push(path@));
        assert(is.push(path@).drop_last() =~= is);
        assert(crate::media::texts_view(labels@) =~= ls.push(
            crate::media::tile_label(path.key()),
        ));
        assert(crate::media::texts_view(labels@) =~= tile_labels(
            crate::path::paths_view(images@),
        ));
    }
}

proof fn image_from_is_one(s: Seq<crate::path::PathSpec>, from: int)
    ensures
        image_from(s, from) matches Some(i) ==> 0 <= i < images_among(s).len(),
    decreases s.len() - from,
{
    if 0 <= from < s.len() {
        place_is_there(images_among(s), s[from].parts);
        image_from_is_one(s, from + 1);
    }
}

proof fn image_before_is_one(s: Seq<crate::path::PathSpec>, to: int)
    ensures
        image_before(s, to) matches Some(i) ==> 0 <= i < images_among(s).len(),
    decreases to,
{
    if 0 < to <= s.len() {
        place_is_there(images_among(s), s[to - 1].parts);
        image_before_is_one(s, to - 1);
    }
}

/// For each medium the next image behind it.
fn next_images(
    media: &Vec<MediaPath>,
    images: &Vec<MediaPath>,
    image_at: &PathMap<usize>,
) -> (r: Vec<Option<usize>>)
    requires
        crate::path::paths_view(images@) == images_among(crate::path::paths_view(media@)),
        tells_places(image_at@, crate::path::paths_view(images@)),
    ensures
        r@.len() == media@.len(),
        forall|i: int|
            0 <= i < r@.len() ==> option_int(#[trigger] r@[i]) == image_from(
                crate::path::paths_view(media@),
                i + 1,
            ),
{
    let ghost s = crate::path::paths_view(media@);
    let n: usize = media.len();
    let mut out: Vec<Option<usize>> = Vec::new();
    for i in 0..n
        invariant
            out@.len() == i,
    {
        out.push(None);
    }
    let mut next: Option<usize> = None;
    let mut i: usize = n;
    while i > 0
        invariant
            s == crate::path::paths_view(media@),
            n == media@.len(),
            i <= n,
            out@.len() == n,
            crate::path::paths_view(images@) == images_among(s),
            tells_places(image_at@, images_among(s)),
            option_int(next) == image_from(s, i as int),
            forall|j: int|
                i <= j < n ==> option_int(#[trigger] out@[j]) == image_from(s, j + 1),
        decreases i,
    {
        i = i - 1;
        out.set(i, next);
        proof {
            places_of_images(s, s[i as int].parts);
            place_of_item(s, i as int);
        }
        if let Some(k) = image_at.get(&media[i]) {
            next = Some(*k);
        }
    }
    out
}

/// For each medium the image in front of it.
fn prev_images(
    media: &Vec<MediaPath>,
    images: &Vec<MediaPath>,
    image_at: &PathMap<usize>,
) -> (r: Vec<Option<usize>>)
    requires
        crate::path::paths_view(images@) == images_among(crate::path::paths_view(media@)),
        tells_places(image_at@, crate::path::paths_view(images@)),
    ensures
        r@.len() == media@.len(),
        forall|i: int|
            0 <= i < r@.len() ==> option_int(#[trigger] r@[i]) == image_before(
                crate::path::paths_view(media@),
                i,
            ),
{
    let ghost s = crate::path::paths_view(media@);
    let mut out: Vec<Option<usize>> = Vec::new();
    let mut prev: Option<usize> = None;
    for i in 0..media.len()
        invariant
            s == crate::path::paths_view(media@),
            out@.len() == i,
            crate::path::paths_view(images@) == images_among(s),
            tells_places(image_at@, images_among(s)),
            option_int(prev) == image_before(s, i as int),
            forall|j: int|
                0 <= j < i ==> option_int(#[trigger] out@[j]) == image_before(s, j),
    {
        out.push(prev);
        proof {
            places_of_images(s, s[i as int].parts);
            place_of_item(s, i as int);
        }
        if let Some(k) = image_at.get(&media[i]) {
            prev = Some(*k);
        }
    }
    out
}

/// A medium at `j` is an image, and none lies between it and `i`.
pub open spec fn nearest_image(s: Seq<crate::path::PathSpec>, i: int, j: int) -> bool {
    &&& 0 <= j < s.len()
    &&& crate::media::image_key(s[j].parts)
    &&& forall|k: int|
        (i < k < j || j < k < i) ==> !crate::media::image_key((#[trigger] s[k]).parts)
}

proof fn first_from(s: Seq<crate::path::PathSpec>, from: int) -> (j: int)
    requires
        0 <= from <= s.len(),
    ensures
        image_from(s, from) is None ==> forall|k: int|
            from <= k < s.len() ==> !crate::media::image_key((#[trigger] s[k]).parts),
        image_from(s, from) matches Some(p) ==> {
            &&& from <= j < s.len()
            &&& crate::media::image_key(s[j].parts)
            &&& 0 <= p < images_among(s).len()
            &&& images_among(s)[p].parts == s[j].parts
            &&& forall|k: int|
                from <= k < j ==> !crate::media::image_key((#[trigger] s[k]).parts)
        },
    decreases s.len() - from,
{
    if from == s.len() {
        from
    } else if crate::media::image_key(s[from].parts) {
        places_of_images(s, s[from].parts);
        place_of_item(s, from);
        place_is_there(images_among(s), s[from].parts);
        from
    } else {
        first_from(s, from + 1)
    }
}

proof fn last_before(s: Seq<crate::path::PathSpec>, to: int) -> (j: int)
    requires
        0 <= to <= s.len(),
    ensures
        image_before(s, to) is None ==> forall|k: int|
            0 <= k < to ==> !crate::media::image_key((#[trigger] s[k]).parts),
        image_before(s, to) matches Some(p) ==> {
            &&& 0 <= j < to
            &&& crate::media::image_key(s[j].parts)
            &&& 0 <= p < images_among(s).len()
            &&& images_among(s)[p].parts == s[j].parts
            &&& forall|k: int|
                j < k < to ==> !crate::media::image_key((#[trigger] s[k]).parts)
        },
    decreases to,
{
    if to == 0 {
        0
    } else if crate::media::image_key(s[to - 1].parts) {
        places_of_images(s, s[to - 1].parts);
        place_of_item(s, to - 1);
        place_is_there(images_among(s), s[to - 1].parts);
        to - 1
    } else {
        last_before(s, to - 1)
    }
}

/// The image near a medium is the nearest one behind it; where there is none, the nearest one
/// in front of it. There is none only where there is no other image.
pub proof fn slideshow_starts_nearby(s: Seq<crate::path::PathSpec>, i: int)
    requires
        0 <= i < s.len(),
    ensures
        slideshow_start(s, i) matches Some(p) ==> {
            &&& 0 <= p < images_among(s).len()
            &&& exists|j: int|
                {
                    &&& #[trigger] nearest_image(s, i, j)
                    &&& images_among(s)[p].parts == s[j].parts
                    &&& j > i || (j < i && forall|k: int|
                        i < k < s.len() ==> !crate::media::image_key((#[trigger] s[k]).parts))
                }
        },
        slideshow_start(s, i) is None <==> forall|k: int|
            0 <= k < s.len() && k != i ==> !crate::media::image_key((#[trigger] s[k]).parts),
{
    let a = first_from(s, i + 1);
    let b = last_before(s, i);
    if image_from(s, i + 1) is Some {
        assert(nearest_image(s, i, a));
    } else if image_before(s, i) is Some {
        assert(nearest_image(s, i, b));
    }
}

/// A slideshow that is started over an image starts with that image, whether or not there is
/// another one. Over a medium that is no image it starts with the nearest image, and it does
/// not start only where there is no image at all.
pub proof fn slideshow_starts_with_the_image_on_show(s: Seq<crate::path::PathSpec>, i: int)
    requires
        0 <= i < s.len(),
    ensures
        crate::media::image_key(s[i].parts) ==> (slideshow_from(s, i) matches Some(p) && 0 <= p
            < images_among(s).len() && images_among(s)[p].parts == s[i].parts),
        !crate::media::image_key(s[i].parts) ==> slideshow_from(s, i) == slideshow_start(s, i),
        slideshow_from(s, i) is None <==> forall|k: int|
            0 <= k < s.len() ==> !crate::media::image_key((#[trigger] s[k]).parts),
{
    slideshow_starts_nearby(s, i);
    if crate::media::image_key(s[i].parts) {
        places_of_images(s, s[i].parts);
        place_of_item(s, i);
        place_is_there(images_among(s), s[i].parts);
    }
}

proof fn media_of_front_groups(s: Seq<crate::scan::GroupSpec>, g: int)
    requires
        0 <= g <= s.len(),
    ensures
        groups_media(s.take(g)).len() <= groups_media(s).len(),
        forall|i: int|
            0 <= i < groups_media(s.take(g)).len() ==> #[trigger] groups_media(s)[i]
                == groups_media(s.take(g))[i],
    decreases s.len(),
{
    if g == s.len() {
        assert(s.take(g) =~= s);
    } else {
        media_of_front_groups(s.drop_last(), g);
        assert(s.drop_last().take(g) =~= s.take(g));
    }
}

/// The media of groups are those of the first group, then those of the second, and so on: behind
/// the media of the groups in front of it stand those of a group, in their order.
pub proof fn media_stand_group_by_group(s: Seq<crate::scan::GroupSpec>, g: int, i: int)
    requires
        0 <= g < s.len(),
        0 <= i < s[g].images.len(),
    ensures
        groups_media(s.take(g)).len() + i < groups_media(s).len(),
        groups_media(s)[groups_media(s.take(g)).len() + i] == s[g].images[i],
        groups_media(s.take(g + 1)).len() == groups_media(s.take(g)).len() + s[g].images.len(),
        groups_media(s.take(0)).len() == 0,
        groups_media(s.take(s.len() as int)) == groups_media(s),
{
    let t = s.take(g + 1);
    assert(t.drop_last() =~= s.take(g));
    assert(t.last() == s[g]);
    media_of_front_groups(s, g + 1);
    assert(groups_media(t)[groups_media(s.take(g)).len() + i] == s[g].images[i]);
    assert(s.take(s.len() as int) =~= s);
}

/// The images among media are those of the media that are images, and no others.
pub proof fn images_are_among_the_media(
    s: Seq<crate::path::PathSpec>,
    p: crate::path::PathSpec,
)
    ensures
        images_among(s).contains(p) <==> s.contains(p) && crate::media::image_key(p.parts),
        images_among(s).len() <= s.len(),
        (forall|i: int|
            0 <= i < s.len() ==> crate::media::image_key((#[trigger] s[i]).parts))
            ==> images_among(s) == s,
    decreases s.len(),
{
    if s.len() > 0 {
        let front = s.drop_last();
        let f = images_among(front);
        images_are_among_the_media(front, p);
        if f.contains(p) {
            let i = choose|i: int| 0 <= i < f.len() && f[i] == p;
            assert(images_among(s)[i] == p);
        }
        if front.contains(p) {
            let i = choose|i: int| 0 <= i < front.len() && front[i] == p;
            assert(s[i] == p);
        }
        assert(s[s.len() - 1] == s.last());
        if crate::media::image_key(s.last().parts) {
            assert(images_among(s)[f.len() as int] == s.last());
        }
        if s.contains(p) && s.last() != p {
            let i = choose|i: int| 0 <= i < s.len() && s[i] == p;
            assert(front[i] == p);
        }
        if images_among(s).contains(p) {
            let i = choose|i: int| 0 <= i < images_among(s).len() && images_among(s)[i] == p;
            if i < f.len() {
                assert(f[i] == p);
            }
        }
        if forall|i: int| 0 <= i < s.len() ==> crate::media::image_key((#[trigger] s[i]).parts) {
            assert forall|i: int| 0 <= i < front.len() implies crate::media::image_key(
                (#[trigger] front[i]).parts,
            ) by {
                assert(front[i] == s[i]);
            }
            assert(images_among(s) =~= s);
        }
    } else {
        assert(images_among(s) =~= s);
    }
}

/// The images stand in the order of the media: those of media in front come first, and those of
/// media behind follow.
pub proof fn images_stand_in_the_order_of_the_media(
    a: Seq<crate::path::PathSpec>,
    b: Seq<crate::path::PathSpec>,
)
    ensures
        images_among(a + b) == images_among(a) + images_among(b),
    decreases b.len(),
{
    if b.len() == 0 {
        assert(a + b =~= a);
        assert(images_among(a) + images_among(b) =~= images_among(a));
    } else {
        images_stand_in_the_order_of_the_media(a, b.drop_last());
        assert((a + b).drop_last() =~= a + b.drop_last());
        assert((a + b).last() == b.last());
        assert(images_among(a + b) =~= images_among(a) + images_among(b));
    }
}

/// A path is found where it stands, and is not found where it stands nowhere; of two places, the
/// last one is told.
pub proof fn a_path_is_found_where_it_stands(
    s: Seq<crate::path::PathSpec>,
    k: crate::path::PathKey,
)
    ensures
        place_in(s, k) matches Some(i) ==> 0 <= i < s.len() && s[i].parts == k && forall|j: int|
            i < j < s.len() ==> (#[trigger] s[j]).parts != k,
        place_in(s, k) is None <==> forall|j: int|
            0 <= j < s.len() ==> (#[trigger] s[j]).parts != k,
    decreases s.len(),
{
    if s.len() > 0 {
        let front = s.drop_last();
        a_path_is_found_where_it_stands(front, k);
        assert(s[s.len() - 1] == s.last());
        assert forall|j: int| 0 <= j < front.len() implies front[j] == #[trigger] s[j] by {}
        if place_in(front, k) is None && s.last().parts != k {
            assert forall|j: int| 0 <= j < s.len() implies (#[trigger] s[j]).parts != k by {
                if j < front.len() {
                    assert(front[j].parts != k);
                }
            }
        }
    }
}

/// Each tile is labelled with the name of its medium.
pub proof fn tiles_bear_the_names_of_their_media(s: Seq<crate::path::PathSpec>, i: int)
    requires
        0 <= i < s.len(),
    ensures
        tile_labels(s).len() == s.len(),
        tile_labels(s)[i] == crate::media::tile_label(s[i].parts),
{
}

} // verus!
