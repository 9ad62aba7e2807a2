//! The grid of thumbnails: a heading for each group, and below it the tiles in rows.

use vstd::prelude::*;

use crate::scan::FolderGroup;

verus! {

/// How many rows around the visible ones are loaded ahead.
pub const PREFETCH_ROWS: usize = 3;

/// How many rows of `cols` tiles `n` media take.
pub open spec fn rows_for(n: int, cols: int) -> int {
    (n + cols - 1) / cols
}

/// How many rows a group takes, with its heading; none where it has no media.
pub open spec fn group_rows(n: nat, cols: int) -> int {
    if n == 0 {
        0
    } else {
        1 + rows_for(n as int, cols)
    }
}

/// How many rows groups of the given sizes take.
pub open spec fn rows_of(sizes: Seq<nat>, cols: int) -> int
    decreases sizes.len(),
{
    if sizes.len() == 0 {
        0
    } else {
        rows_of(sizes.drop_last(), cols) + group_rows(sizes.last(), cols)
    }
}

/// How many media groups of the given sizes have.
pub open spec fn media_of(sizes: Seq<nat>) -> int
    decreases sizes.len(),
{
    if sizes.len() == 0 {
        0
    } else {
        media_of(sizes.drop_last()) + sizes.last()
    }
}

/// The lesser of two numbers.
pub open spec fn least(a: int, b: int) -> int {
    if a < b {
        a
    } else {
        b
    }
}

/// The media in a row of a group that starts at row `top` and at medium `base`: the first of
/// them, and the one behind the last. A heading has none.
pub open spec fn range_in_group(top: int, base: int, n: nat, cols: int, row: int) -> (int, int) {
    if row == top {
        (base, base)
    } else {
        (
            base + least((row - top - 1) * cols, n as int),
            base + least((row - top) * cols, n as int),
        )
    }
}

/// The group that a row belongs to; rows behind the last belong to the last group.
pub open spec fn row_group(sizes: Seq<nat>, cols: int, row: int) -> Option<int>
    decreases sizes.len(),
{
    if sizes.len() == 0 {
        None
    } else if sizes.last() == 0 || row < rows_of(sizes.drop_last(), cols) {
        row_group(sizes.drop_last(), cols, row)
    } else {
        Some(sizes.len() - 1)
    }
}

/// The media in a row: the first of them, and the one behind the last.
pub open spec fn row_range(sizes: Seq<nat>, cols: int, row: int) -> (int, int) {
    match row_group(sizes, cols, row) {
        None => (0, 0),
        Some(g) => range_in_group(
            rows_of(sizes.take(g), cols),
            media_of(sizes.take(g)),
            sizes[g],
            cols,
            row,
        ),
    }
}

/// A row is the heading of its group.
pub open spec fn is_heading(sizes: Seq<nat>, cols: int, row: int) -> bool {
    row_group(sizes, cols, row) matches Some(g) && row == rows_of(sizes.take(g), cols)
}

/// The sizes of groups.
pub open spec fn sizes_of(s: Seq<crate::scan::GroupSpec>) -> Seq<nat> {
    Seq::new(s.len(), |i: int| s[i].images.len())
}

/// Where a group starts.
#[derive(Clone, Copy)]
pub struct GroupLayout {
    pub group_idx: usize,
    pub row_start: usize,
    pub image_base: usize,
    pub image_count: usize,
}

/// The places of the groups with media.
pub open spec fn layouts_of(sizes: Seq<nat>, cols: int) -> Seq<(int, int, int, int)>
    decreases sizes.len(),
{
    if sizes.len() == 0 {
        Seq::empty()
    } else if sizes.last() == 0 {
        layouts_of(sizes.drop_last(), cols)
    } else {
        layouts_of(sizes.drop_last(), cols).push(
            (
                sizes.len() - 1,
                rows_of(sizes.drop_last(), cols),
                media_of(sizes.drop_last()),
                sizes.last() as int,
            ),
        )
    }
}

spec fn layouts_view(s: Seq<GroupLayout>) -> Seq<(int, int, int, int)> {
    Seq::new(
        s.len(),
        |i: int|
            (
                s[i].group_idx as int,
                s[i].row_start as int,
                s[i].image_base as int,
                s[i].image_count as int,
            ),
    )
}

/// The layout of the grid.
pub struct ThumbnailGridLayout {
    cols: usize,
    total_rows: usize,
    groups: Vec<GroupLayout>,
    sizes: Ghost<Seq<nat>>,
}

/// What a layout is made of.
pub struct GridSpec {
    pub sizes: Seq<nat>,
    pub cols: int,
}

impl View for ThumbnailGridLayout {
    type V = GridSpec;

    closed spec fn view(&self) -> GridSpec {
        GridSpec { sizes: self.sizes@, cols: self.cols as int }
    }
}

/// A row of the grid.
pub enum GridRow {
    /// The heading of a group.
    Heading { group: usize },
    /// Tiles of a group: the first of them and the one behind the last, by their places in the
    /// group, and the place of the first medium of the group among all media.
    Tiles { group: usize, from: usize, to: usize, base: usize },
}

proof fn rows_cover(n: int, cols: int)
    requires
        n > 0,
        cols > 0,
    ensures
        rows_for(n, cols) > 0,
        rows_for(n, cols) == n / cols + (if n % cols == 0 {
            0int
        } else {
            1
        }),
        rows_for(n, cols) * cols >= n,
        (rows_for(n, cols) - 1) * cols < n,
        rows_for(n, cols) <= n,
{
    let q = n / cols;
    let r = n % cols;
    vstd::arithmetic::div_mod::lemma_fundamental_div_mod(n, cols);
    vstd::arithmetic::mul::lemma_mul_is_commutative(cols, q);
    assert(0 <= r < cols);
    assert(n == q * cols + r);
    assert((q + 1) * cols == q * cols + cols) by (nonlinear_arith);
    assert((q - 1) * cols == q * cols - cols) by (nonlinear_arith);
    if r == 0 {
        vstd::arithmetic::div_mod::lemma_fundamental_div_mod_converse(
            n + cols - 1,
            cols,
            q,
            cols - 1,
        );
        assert(q >= 1) by (nonlinear_arith)
            requires
                q * cols > 0,
                cols > 0,
        ;
    } else {
        vstd::arithmetic::div_mod::lemma_fundamental_div_mod_converse(
            n + cols - 1,
            cols,
            q + 1,
            r - 1,
        );
        assert(q >= 0) by (nonlinear_arith)
            requires
                q * cols + r > 0,
                r < cols,
                cols > 0,
        ;
    }
    let m = rows_for(n, cols);
    assert(m - 1 <= (m - 1) * cols) by (nonlinear_arith)
        requires
            m >= 1,
            cols >= 1,
    ;
}

proof fn rows_grow(sizes: Seq<nat>, cols: int, g: int)
    requires
        cols > 0,
        0 <= g <= sizes.len(),
    ensures
        0 <= rows_of(sizes.take(g), cols) <= rows_of(sizes, cols),
        0 <= media_of(sizes.take(g)) <= media_of(sizes),
    decreases sizes.len(),
{
    if sizes.len() > 0 {
        if sizes.last() > 0 {
            rows_cover(sizes.last() as int, cols);
        }
        if g == sizes.len() {
            assert(sizes.take(g) =~= sizes);
            rows_grow(sizes.drop_last(), cols, g - 1);
            assert(sizes.drop_last().take(g - 1) =~= sizes.drop_last());
        } else {
            assert(sizes.drop_last().take(g) =~= sizes.take(g));
            rows_grow(sizes.drop_last(), cols, g);
        }
    } else {
        assert(sizes.take(g) =~= sizes);
    }
}

proof fn step_of_rows(sizes: Seq<nat>, cols: int, g: int)
    requires
        0 <= g < sizes.len(),
    ensures
        rows_of(sizes.take(g + 1), cols) == rows_of(sizes.take(g), cols) + group_rows(
            sizes[g],
            cols,
        ),
        media_of(sizes.take(g + 1)) == media_of(sizes.take(g)) + sizes[g],
{
    assert(sizes.take(g + 1).drop_last() =~= sizes.take(g));
    assert(sizes.take(g + 1).last() == sizes[g]);
}

/// The layouts are those of the groups with media, in their order, and each tells where its
/// group starts.
proof fn layouts_tell(sizes: Seq<nat>, cols: int)
    requires
        cols > 0,
    ensures
        ({
            let l = layouts_of(sizes, cols);
            &&& forall|i: int|
                0 <= i < l.len() ==> {
                    let (g, top, base, n) = #[trigger] l[i];
                    0 <= g < sizes.len() && sizes[g] > 0 && top == rows_of(sizes.take(g), cols)
                        && base == media_of(sizes.take(g)) && n == sizes[g]
                }
            &&& forall|i: int, j: int|
                0 <= i < j < l.len() ==> (#[trigger] l[i]).0 < (#[trigger] l[j]).0 && l[i].1
                    < l[j].1
            &&& l.len() > 0 ==> l[0].1 == 0
            &&& l.len() == 0 ==> rows_of(sizes, cols) == 0 && media_of(sizes) == 0
        }),
    decreases sizes.len(),
{
    if sizes.len() > 0 {
        let front = sizes.drop_last();
        let l = layouts_of(sizes, cols);
        let f = layouts_of(front, cols);
        layouts_tell(front, cols);
        assert forall|i: int| 0 <= i < l.len() implies ({
            let (g, top, base, n) = #[trigger] l[i];
            0 <= g < sizes.len() && sizes[g] > 0 && top == rows_of(sizes.take(g), cols) && base
                == media_of(sizes.take(g)) && n == sizes[g]
        }) by {
            if i < f.len() {
                assert(l[i] == f[i]);
                let g = f[i].0;
                assert(front.take(g) =~= sizes.take(g));
                assert(front[g] == sizes[g]);
            } else {
                assert(sizes.take(sizes.len() - 1) =~= front);
            }
        }
        assert forall|i: int, j: int| 0 <= i < j < l.len() implies (#[trigger] l[i]).0 < (
        #[trigger] l[j]).0 && l[i].1 < l[j].1 by {
            assert(l[i] == f[i]);
            if j < f.len() {
                assert(l[j] == f[j]);
            } else {
                let g = f[i].0;
                assert(front.take(g) =~= sizes.take(g));
                step_of_rows(front, cols, g);
                rows_cover(front[g] as int, cols);
                rows_grow(front, cols, g + 1);
            }
        }
        if f.len() > 0 {
            assert(l[0] == f[0]);
        }
    }
}

/// A row belongs to the last group that starts at it or above it.
proof fn group_of_row(sizes: Seq<nat>, cols: int, row: int, i: int)
    requires
        cols > 0,
        row >= 0,
        0 <= i < layouts_of(sizes, cols).len(),
        layouts_of(sizes, cols)[i].1 <= row,
        i + 1 < layouts_of(sizes, cols).len() ==> row < layouts_of(sizes, cols)[i + 1].1,
    ensures
        row_group(sizes, cols, row) == Some(layouts_of(sizes, cols)[i].0),
    decreases sizes.len(),
{
    let front = sizes.drop_last();
    let l = layouts_of(sizes, cols);
    let f = layouts_of(front, cols);
    if sizes.last() == 0 {
        group_of_row(front, cols, row, i);
    } else if i == f.len() {
    } else {
        assert(l[i] == f[i]);
        layouts_tell(sizes, cols);
        if i + 1 < f.len() {
            assert(l[i + 1] == f[i + 1]);
            assert(l[i + 1].1 < l[f.len() as int].1);
        }
        group_of_row(front, cols, row, i);
    }
}

proof fn no_group(sizes: Seq<nat>, cols: int, row: int)
    requires
        layouts_of(sizes, cols).len() == 0,
    ensures
        row_group(sizes, cols, row) is None,
    decreases sizes.len(),
{
    if sizes.len() > 0 {
        no_group(sizes.drop_last(), cols, row);
    }
}

/// A row of the grid lies between the start of its group and the start of the next one.
proof fn in_its_group(sizes: Seq<nat>, cols: int, row: int, g: int)
    requires
        cols > 0,
        0 <= row < rows_of(sizes, cols),
        row_group(sizes, cols, row) == Some(g),
    ensures
        0 <= g < sizes.len(),
        sizes[g] > 0,
        rows_of(sizes.take(g), cols) <= row < rows_of(sizes.take(g), cols) + 1 + rows_for(
            sizes[g] as int,
            cols,
        ),
    decreases sizes.len(),
{
    let front = sizes.drop_last();
    if sizes.last() == 0 || row < rows_of(front, cols) {
        in_its_group(front, cols, row, g);
        assert(front.take(g) =~= sizes.take(g));
    } else {
        assert(sizes.take(g) =~= front);
    }
}

impl ThumbnailGridLayout {
    #[verifier::type_invariant]
    spec fn inv(self) -> bool {
        &&& self.cols > 0
        &&& self.total_rows == rows_of(self.sizes@, self.cols as int)
        &&& layouts_view(self.groups@) == layouts_of(self.sizes@, self.cols as int)
        &&& media_of(self.sizes@) <= usize::MAX
    }

    /// Lays out the media of groups in rows of `cols` tiles.
    pub fn of_groups(groups: &Vec<FolderGroup>, cols: usize) -> (r: ThumbnailGridLayout)
        requires
            cols > 0,
            rows_of(sizes_of(crate::scan::groups_view(groups@)), cols as int) <= usize::MAX,
            media_of(sizes_of(crate::scan::groups_view(groups@))) <= usize::MAX,
        ensures
            r@ == (GridSpec {
                sizes: sizes_of(crate::scan::groups_view(groups@)),
                cols: cols as int,
            }),
    {
        let ghost sizes = sizes_of(crate::scan::groups_view(groups@));
        let ghost c = cols as int;
        let mut layouts: Vec<GroupLayout> = Vec::new();
        let mut row: usize = 0;
        let mut image: usize = 0;
        assert(layouts_view(layouts@) =~= layouts_of(sizes.take(0), c));
        for i in 0..groups.len()
            invariant
                sizes == sizes_of(crate::scan::groups_view(groups@)),
                c == cols,
                cols > 0,
                rows_of(sizes, c) <= usize::MAX,
                media_of(sizes) <= usize::MAX,
                row == rows_of(sizes.take(i as int), c),
                image == media_of(sizes.take(i as int)),
                layouts_view(layouts@) == layouts_of(sizes.take(i as int), c),
        {
            let n: usize = groups[i].images.len();
            assert(sizes[i as int] == n);
            assert(sizes.take(i + 1).drop_last() =~= sizes.take(i as int));
            assert(sizes.take(i + 1).last() == n);
            proof {
                rows_grow(sizes, c, i + 1);
            }
            if n > 0 {
                let ghost so_far = layouts_view(layouts@);
                layouts.push(
                    GroupLayout {
                        group_idx: i,
                        row_start: row,
                        image_base: image,
                        image_count: n,
                    },
                );
                assert(layouts_view(layouts@) =~= so_far.push((i as int, row as int, image as int, n as int)));
                proof {
                    rows_cover(n as int, c);
                }
                let whole: usize = n / cols;
                let image_rows: usize = if n % cols == 0 {
                    whole
                } else {
                    whole + 1
                };
                row = row + 1 + image_rows;
                image = image + n;
            }
        }
        assert(sizes.take(sizes.len() as int) =~= sizes);
        ThumbnailGridLayout { cols, total_rows: row, groups: layouts, sizes: Ghost(sizes) }
    }

    /// How many rows the grid has.
    pub fn total_rows(&self) -> (r: usize)
        ensures
            r == rows_of(self@.sizes, self@.cols),
    {
        proof {
            use_type_invariant(&*self);
        }
        self.total_rows
    }

    /// The place of the layout that a row belongs to.
    fn find_layout(&self, row: usize) -> (r: Option<usize>)
        ensures
            r is None <==> self.groups@.len() == 0,
            r matches Some(i) ==> i < self.groups@.len() && self.groups@[i as int].row_start <= row
                && row_group(self@.sizes, self@.cols, row as int) == Some(
                self.groups@[i as int].group_idx as int,
            ),
            r is None ==> row_group(self@.sizes, self@.cols, row as int) is None,
    {
        proof {
            use_type_invariant(&*self);
            layouts_tell(self.sizes@, self.cols as int);
        }
        let ghost l = layouts_of(self.sizes@, self.cols as int);
        assert(l.len() == self.groups@.len());
        if self.groups.len() == 0 {
            proof {
                no_group(self.sizes@, self.cols as int, row as int);
            }
            return None;
        }
        assert(layouts_view(self.groups@)[0] == l[0]);
        let mut lo: usize = 0;
        let mut hi: usize = self.groups.len();
        while hi - lo > 1
            invariant
                lo < hi <= self.groups@.len(),
                layouts_view(self.groups@) == l,
                l.len() == self.groups@.len(),
                self.groups@[lo as int].row_start <= row,
                hi < self.groups@.len() ==> row < self.groups@[hi as int].row_start,
            decreases hi - lo,
        {
            let mid: usize = lo + (hi - lo) / 2;
            if self.groups[mid].row_start <= row {
                lo = mid;
            } else {
                hi = mid;
            }
        }
        proof {
            assert(layouts_view(self.groups@)[lo as int] == l[lo as int]);
            if lo + 1 < l.len() {
                assert(layouts_view(self.groups@)[lo + 1] == l[lo + 1]);
            }
            group_of_row(self.sizes@, self.cols as int, row as int, lo as int);
        }
        Some(lo)
    }

    /// What a row holds. There is nothing behind the last row.
    pub fn row_at(&self, row: usize) -> (r: Option<GridRow>)
        ensures
            r is Some <==> row < rows_of(self@.sizes, self@.cols),
            r matches Some(GridRow::Heading { group }) ==> is_heading(
                self@.sizes,
                self@.cols,
                row as int,
            ) && row_group(self@.sizes, self@.cols, row as int) == Some(group as int),
            r matches Some(GridRow::Tiles { group, from, to, base }) ==> !is_heading(
                self@.sizes,
                self@.cols,
                row as int,
            ) && row_group(self@.sizes, self@.cols, row as int) == Some(group as int) && base
                == media_of(self@.sizes.take(group as int)) && from < to <= self@.sizes[group as int]
                && row_range(self@.sizes, self@.cols, row as int) == (base + from, base + to),
    {
        proof {
            use_type_invariant(&*self);
            layouts_tell(self.sizes@, self.cols as int);
        }
        if row >= self.total_rows {
            return None;
        }
        let found = self.find_layout(row);
        let ghost l = layouts_of(self.sizes@, self.cols as int);
        match found {
            None => {
                assert(layouts_view(self.groups@).len() == 0);
                None
            },
            Some(i) => {
                let layout = &self.groups[i];
                let ghost g = layout.group_idx as int;
                let ghost c = self.cols as int;
                assert(layouts_view(self.groups@)[i as int] == l[i as int]);
                if row == layout.row_start {
                    return Some(GridRow::Heading { group: layout.group_idx });
                }
                let k: usize = row - layout.row_start - 1;
                proof {
                    in_its_group(self.sizes@, c, row as int, g);
                    rows_cover(self.sizes@[g] as int, c);
                    let n = self.sizes@[g] as int;
                    let m = rows_for(n, c);
                    assert(k <= m - 1);
                    assert(k * c <= (m - 1) * c) by (nonlinear_arith)
                        requires
                            k <= m - 1,
                            c > 0,
                    ;
                    assert((k + 1) * c == k * c + c) by (nonlinear_arith);
                    assert(k * c >= 0) by (nonlinear_arith)
                        requires
                            k >= 0,
                            c > 0,
                    ;
                }
                let from: usize = k * self.cols;
                let n: usize = layout.image_count;
                let left: usize = n - from;
                let to: usize = if left < self.cols {
                    n
                } else {
                    from + self.cols
                };
                Some(
                    GridRow::Tiles {
                        group: layout.group_idx,
                        from,
                        to,
                        base: layout.image_base,
                    },
                )
            },
        }
    }
}

// ── Which media the rows show ────────────────────────────────────────────────

/// The places `lo`, `lo + 1` and so on, up to and without `hi`.
pub open spec fn places(lo: int, hi: int) -> Seq<usize> {
    Seq::new(
        if lo < hi {
            (hi - lo) as nat
        } else {
            0
        },
        |i: int| (lo + i) as usize,
    )
}

/// The media in the rows `from`, `from + 1` and so on, up to and without `to`.
pub open spec fn media_in_rows(g: GridSpec, from: int, to: int) -> Seq<usize>
    decreases to - from,
{
    if from >= to {
        Seq::empty()
    } else {
        let (lo, hi) = row_range(g.sizes, g.cols, to - 1);
        media_in_rows(g, from, to - 1) + places(lo, hi)
    }
}

/// The rows on show end with the grid.
pub open spec fn shown_end(g: GridSpec, end: int) -> int {
    least(end, rows_of(g.sizes, g.cols))
}

/// The media in the rows on show.
pub open spec fn visible_media(g: GridSpec, start: int, end: int) -> Seq<usize> {
    media_in_rows(g, start, shown_end(g, end))
}

/// The media in the rows around those on show; none while the window moves.
pub open spec fn nearby_media(g: GridSpec, start: int, end: int, moving: bool) -> Seq<usize> {
    if moving {
        Seq::empty()
    } else {
        media_in_rows(
            g,
            if start < PREFETCH_ROWS {
                0
            } else {
                start - PREFETCH_ROWS
            },
            start,
        ) + media_in_rows(
            g,
            shown_end(g, end),
            least(shown_end(g, end) + PREFETCH_ROWS, rows_of(g.sizes, g.cols)),
        )
    }
}

proof fn nothing_behind(sizes: Seq<nat>, cols: int, row: int)
    requires
        cols > 0,
        row >= rows_of(sizes, cols),
    ensures
        row_range(sizes, cols, row).0 == row_range(sizes, cols, row).1,
        row_range(sizes, cols, row).0 == media_of(sizes),
    decreases sizes.len(),
{
    if sizes.len() > 0 {
        let front = sizes.drop_last();
        assert(sizes.take(sizes.len() - 1) =~= front);
        if sizes.last() == 0 {
            nothing_behind(front, cols, row);
            if let Some(g) = row_group(front, cols, row) {
                group_is_one(front, cols, row);
                assert(front.take(g) =~= sizes.take(g));
            }
        } else {
            let n = sizes.last() as int;
            let top = rows_of(front, cols);
            rows_cover(n, cols);
            let m = rows_for(n, cols);
            let a = row - top - 1;
            assert(a * cols >= m * cols) by (nonlinear_arith)
                requires
                    a >= m,
                    cols > 0,
            ;
            assert((row - top) * cols >= m * cols) by (nonlinear_arith)
                requires
                    row - top >= m,
                    cols > 0,
            ;
        }
    }
}

proof fn group_is_one(sizes: Seq<nat>, cols: int, row: int)
    ensures
        row_group(sizes, cols, row) matches Some(g) ==> 0 <= g < sizes.len() && sizes[g] > 0,
    decreases sizes.len(),
{
    if sizes.len() > 0 {
        group_is_one(sizes.drop_last(), cols, row);
    }
}

impl ThumbnailGridLayout {
    /// Adds the media in some rows.
    fn collect_rows(&self, from: usize, to: usize, out: &mut Vec<usize>)
        ensures
            final(out)@ == old(out)@ + media_in_rows(self@, from as int, to as int),
    {
        proof {
            use_type_invariant(&*self);
        }
        let ghost g = self@;
        let ghost before = out@;
        assert(before + media_in_rows(g, from as int, from as int) =~= before);
        let mut row: usize = from;
        while row < to
            invariant
                g == self@,
                g.cols > 0,
                from <= row,
                from <= to ==> row <= to,
                from > to ==> row == from,
                out@ == before + media_in_rows(g, from as int, row as int),
            decreases to - row,
        {
            let ghost so_far = out@;
            let ghost range = row_range(g.sizes, g.cols, row as int);
            match self.row_at(row) {
                None => {
                    proof {
                        nothing_behind(g.sizes, g.cols, row as int);
                    }
                },
                Some(GridRow::Heading { group }) => {
                    assert(range.0 == range.1);
                },
                Some(GridRow::Tiles { group, from: first, to: last, base }) => {
                    proof {
                        use_type_invariant(&*self);
                        group_is_one(g.sizes, g.cols, row as int);
                        step_of_rows(g.sizes, g.cols, group as int);
                        rows_grow(g.sizes, g.cols, group + 1);
                    }
                    let mut i: usize = first;
                    assert(so_far + places(base + first, base + first) =~= so_far);
                    while i < last
                        invariant
                            first <= i <= last,
                            base + last <= usize::MAX,
                            out@ == so_far + places(base + first, base + i),
                        decreases last - i,
                    {
                        let ghost was = out@;
                        out.push(base + i);
                        i = i + 1;
                        assert(out@ =~= so_far + places(base + first, base + i));
                    }
                },
            }
            assert(out@ =~= so_far + places(range.0, range.1));
            row = row + 1;
            assert(out@ =~= before + media_in_rows(g, from as int, row as int));
        }
        assert(from >= to ==> media_in_rows(g, from as int, to as int) =~= Seq::empty());
        assert(out@ =~= before + media_in_rows(g, from as int, to as int));
    }

    /// The places of the media in the rows on show, and of those around them.
    pub fn media_on_show(&self, start: usize, end: usize, moving: bool) -> (r: (
        Vec<usize>,
        Vec<usize>,
    ))
        ensures
            r.0@ == visible_media(self@, start as int, end as int),
            r.1@ == nearby_media(self@, start as int, end as int, moving),
    {
        let total: usize = self.total_rows();
        let shown: usize = if end < total {
            end
        } else {
            total
        };
        let mut visible: Vec<usize> = Vec::new();
        let mut nearby: Vec<usize> = Vec::new();
        self.collect_rows(start, shown, &mut visible);
        assert(visible@ =~= visible_media(self@, start as int, end as int));
        if !moving {
            let above: usize = start.saturating_sub(PREFETCH_ROWS);
            let below: usize = if total - shown < PREFETCH_ROWS {
                total
            } else {
                shown + PREFETCH_ROWS
            };
            self.collect_rows(above, start, &mut nearby);
            self.collect_rows(shown, below, &mut nearby);
        }
        assert(nearby@ =~= nearby_media(self@, start as int, end as int, moving));
        (visible, nearby)
    }
}

/// The rows go through all media, from the first to the last, and through each of them once:
/// the first row starts with the first medium, each row starts behind the one above it, and
/// the last one ends with the last medium. No row has more tiles than there are columns.
pub proof fn rows_go_through_all_media(g: GridSpec, row: int)
    requires
        g.cols > 0,
        0 <= row < rows_of(g.sizes, g.cols),
    ensures
        row_range(g.sizes, g.cols, 0).0 == 0,
        row_range(g.sizes, g.cols, row).1 == row_range(g.sizes, g.cols, row + 1).0,
        row_range(g.sizes, g.cols, row).0 <= row_range(g.sizes, g.cols, row).1,
        row_range(g.sizes, g.cols, row).1 <= row_range(g.sizes, g.cols, row).0 + g.cols,
        row_range(g.sizes, g.cols, rows_of(g.sizes, g.cols) - 1).1 == media_of(g.sizes),
{
    first_row_starts(g.sizes, g.cols);
    row_follows(g.sizes, g.cols, row);
    let last = rows_of(g.sizes, g.cols) - 1;
    row_follows(g.sizes, g.cols, last);
    nothing_behind(g.sizes, g.cols, last + 1);
}

proof fn first_row_starts(sizes: Seq<nat>, cols: int)
    requires
        cols > 0,
    ensures
        row_range(sizes, cols, 0).0 == 0,
    decreases sizes.len(),
{
    if sizes.len() > 0 {
        let front = sizes.drop_last();
        assert(sizes.take(sizes.len() - 1) =~= front);
        rows_grow(front, cols, front.len() as int);
        assert(front.take(front.len() as int) =~= front);
        if sizes.last() == 0 || 0 < rows_of(front, cols) {
            first_row_starts(front, cols);
            group_is_one(front, cols, 0);
            if let Some(g) = row_group(front, cols, 0) {
                assert(front.take(g) =~= sizes.take(g));
            }
        } else {
            layouts_tell(front, cols);
            if layouts_of(front, cols).len() > 0 {
                let l = layouts_of(front, cols);
                let g = l[0].0;
                step_of_rows(front, cols, g);
                rows_cover(front[g] as int, cols);
                rows_grow(front, cols, g + 1);
                rows_grow(front.take(g), cols, g);
                assert(front.take(g).take(g) =~= front.take(g));
                assert(false);
            }
            assert(media_of(front) == 0);
        }
    }
}

proof fn row_follows(sizes: Seq<nat>, cols: int, row: int)
    requires
        cols > 0,
        0 <= row < rows_of(sizes, cols),
    ensures
        row_range(sizes, cols, row).1 == row_range(sizes, cols, row + 1).0,
        row_range(sizes, cols, row).0 <= row_range(sizes, cols, row).1,
        row_range(sizes, cols, row).1 <= row_range(sizes, cols, row).0 + cols,
    decreases sizes.len(),
{
    let front = sizes.drop_last();
    let top = rows_of(front, cols);
    assert(sizes.take(sizes.len() - 1) =~= front);
    if sizes.last() == 0 {
        row_follows(front, cols, row);
        group_is_one(front, cols, row);
        group_is_one(front, cols, row + 1);
        if let Some(g) = row_group(front, cols, row) {
            assert(front.take(g) =~= sizes.take(g));
        }
        if let Some(g) = row_group(front, cols, row + 1) {
            assert(front.take(g) =~= sizes.take(g));
        }
    } else if row < top {
        row_follows(front, cols, row);
        group_is_one(front, cols, row);
        if let Some(g) = row_group(front, cols, row) {
            assert(front.take(g) =~= sizes.take(g));
        }
        if row + 1 < top {
            group_is_one(front, cols, row + 1);
            if let Some(g) = row_group(front, cols, row + 1) {
                assert(front.take(g) =~= sizes.take(g));
            }
        } else {
            nothing_behind(front, cols, row + 1);
        }
    } else {
        let k = row - top;
        if k > 0 {
            assert(k * cols == (k - 1) * cols + cols) by (nonlinear_arith);
        } else {
            assert(0 * cols == 0) by (nonlinear_arith);
        }
    }
}

/// So many rows hold all tiles, and one less would not.
pub proof fn rows_are_filled(n: int, cols: int)
    requires
        n > 0,
        cols > 0,
    ensures
        (rows_for(n, cols) - 1) * cols < n <= rows_for(n, cols) * cols,
        rows_for(n, cols) >= 1,
        group_rows(n as nat, cols) == rows_for(n, cols) + 1,
        group_rows(0, cols) == 0,
{
    rows_cover(n, cols);
}

proof fn rows_belong_to_their_group(sizes: Seq<nat>, cols: int, g: int, k: int)
    requires
        cols > 0,
        0 <= g < sizes.len(),
        sizes[g] > 0,
        0 <= k <= rows_for(sizes[g] as int, cols),
    ensures
        row_group(sizes, cols, rows_of(sizes.take(g), cols) + k) == Some(g),
    decreases sizes.len(),
{
    let front = sizes.drop_last();
    let row = rows_of(sizes.take(g), cols) + k;
    if g == sizes.len() - 1 {
        assert(sizes.take(g) =~= front);
        rows_cover(sizes[g] as int, cols);
    } else {
        assert(front.take(g) =~= sizes.take(g));
        rows_belong_to_their_group(front, cols, g, k);
        step_of_rows(front, cols, g);
        rows_grow(front, cols, g + 1);
    }
}

/// Every group with media has its heading, right behind the rows of the groups in front; below it
/// come its tiles, in full rows but for the last one.
pub proof fn groups_have_a_heading_and_full_rows(g: GridSpec, group: int, k: int)
    requires
        g.cols > 0,
        0 <= group < g.sizes.len(),
        g.sizes[group] > 0,
        0 <= k < rows_for(g.sizes[group] as int, g.cols),
    ensures
        ({
            let top = rows_of(g.sizes.take(group), g.cols);
            let base = media_of(g.sizes.take(group));
            let n = g.sizes[group];
            &&& row_group(g.sizes, g.cols, top) == Some(group)
            &&& is_heading(g.sizes, g.cols, top)
            &&& row_group(g.sizes, g.cols, top + 1 + k) == Some(group)
            &&& !is_heading(g.sizes, g.cols, top + 1 + k)
            &&& row_range(g.sizes, g.cols, top + 1 + k).0 == base + k * g.cols
            &&& (k + 1) * g.cols <= n ==> row_range(g.sizes, g.cols, top + 1 + k).1 == base + (k
                + 1) * g.cols
            &&& (k + 1) * g.cols > n ==> row_range(g.sizes, g.cols, top + 1 + k).1 == base + n
        }),
{
    let n = g.sizes[group] as int;
    rows_cover(n, g.cols);
    rows_belong_to_their_group(g.sizes, g.cols, group, 0);
    rows_belong_to_their_group(g.sizes, g.cols, group, k + 1);
    let m = rows_for(n, g.cols);
    assert(k * g.cols <= (m - 1) * g.cols) by (nonlinear_arith)
        requires
            k <= m - 1,
            g.cols > 0,
    ;
}

proof fn media_of_rows_are_in_turn(g: GridSpec, from: int, to: int)
    requires
        g.cols > 0,
        0 <= from < to <= rows_of(g.sizes, g.cols),
        media_of(g.sizes) <= usize::MAX,
    ensures
        ({
            let first = row_range(g.sizes, g.cols, from).0;
            let end = row_range(g.sizes, g.cols, to - 1).1;
            &&& 0 <= first <= end <= media_of(g.sizes)
            &&& media_in_rows(g, from, to).len() == end - first
            &&& forall|i: int|
                0 <= i < end - first ==> #[trigger] media_in_rows(g, from, to)[i] == first + i
        }),
    decreases to - from,
{
    rows_go_through_all_media(g, to - 1);
    starts_in_range(g, to - 1);
    let a = row_range(g.sizes, g.cols, to - 1).0;
    let b = row_range(g.sizes, g.cols, to - 1).1;
    if from == to - 1 {
        assert(media_in_rows(g, from, to - 1) =~= Seq::empty());
    } else {
        media_of_rows_are_in_turn(g, from, to - 1);
        rows_go_through_all_media(g, to - 2);
    }
    assert(media_in_rows(g, from, to) =~= media_in_rows(g, from, to - 1) + places(a, b));
}

proof fn starts_in_range(g: GridSpec, row: int)
    requires
        g.cols > 0,
        0 <= row < rows_of(g.sizes, g.cols),
    ensures
        0 <= row_range(g.sizes, g.cols, row).0,
        row_range(g.sizes, g.cols, row).1 <= media_of(g.sizes),
{
    group_is_one(g.sizes, g.cols, row);
    rows_grow(g.sizes, g.cols, 0);
    if let Some(k) = row_group(g.sizes, g.cols, row) {
        rows_grow(g.sizes, g.cols, k);
        step_of_rows(g.sizes, g.cols, k);
        rows_grow(g.sizes, g.cols, k + 1);
        in_its_group(g.sizes, g.cols, row, k);
        let top = rows_of(g.sizes.take(k), g.cols);
        if row > top {
            assert((row - top - 1) * g.cols >= 0) by (nonlinear_arith)
                requires
                    row - top - 1 >= 0,
                    g.cols > 0,
            ;
        }
    }
}

/// The media on show are all those from the first one of the first row on show to the last one of
/// the last row on show, in their order.
pub proof fn the_media_on_show_are_those_of_the_rows_on_show(g: GridSpec, start: int, end: int)
    requires
        g.cols > 0,
        0 <= start < end <= rows_of(g.sizes, g.cols),
        media_of(g.sizes) <= usize::MAX,
    ensures
        ({
            let first = row_range(g.sizes, g.cols, start).0;
            let last = row_range(g.sizes, g.cols, end - 1).1;
            &&& visible_media(g, start, end).len() == last - first
            &&& forall|i: int|
                0 <= i < last - first ==> #[trigger] visible_media(g, start, end)[i] == first + i
        }),
        forall|past: int|
            past >= rows_of(g.sizes, g.cols) ==> #[trigger] visible_media(g, start, past)
                == visible_media(g, start, rows_of(g.sizes, g.cols)),
{
    media_of_rows_are_in_turn(g, start, end);
}

/// With all rows on show, all media are, each once.
pub proof fn the_whole_grid_shows_all_media(g: GridSpec, i: int)
    requires
        g.cols > 0,
        0 <= i < media_of(g.sizes) <= usize::MAX,
        rows_of(g.sizes, g.cols) > 0,
    ensures
        visible_media(g, 0, rows_of(g.sizes, g.cols)).len() == media_of(g.sizes),
        visible_media(g, 0, rows_of(g.sizes, g.cols))[i] == i,
{
    rows_go_through_all_media(g, 0);
    media_of_rows_are_in_turn(g, 0, rows_of(g.sizes, g.cols));
}

/// The media about to be shown are those of up to three rows above and then of up to three rows
/// below those on show, in the middle of the grid; none are while the window moves.
pub proof fn three_rows_around_are_about_to_be_shown(g: GridSpec, start: int, end: int)
    requires
        g.cols > 0,
        3 <= start <= end,
        end + 3 <= rows_of(g.sizes, g.cols),
        media_of(g.sizes) <= usize::MAX,
    ensures
        nearby_media(g, start, end, true).len() == 0,
        ({
            let above = visible_media(g, start - 3, start);
            let below = visible_media(g, end, end + 3);
            let nearby = nearby_media(g, start, end, false);
            &&& nearby.len() == above.len() + below.len()
            &&& forall|i: int| 0 <= i < above.len() ==> #[trigger] nearby[i] == above[i]
            &&& forall|i: int|
                0 <= i < below.len() ==> #[trigger] nearby[above.len() + i] == below[i]
        }),
{
}

/// Near the ends of the grid there are fewer rows around those on show.
pub proof fn fewer_rows_are_around_at_the_ends(g: GridSpec, start: int, end: int)
    requires
        g.cols > 0,
        0 <= start < 3,
        start <= rows_of(g.sizes, g.cols) <= end,
    ensures
        nearby_media(g, start, end, false) == visible_media(g, 0, start),
{
    let total = rows_of(g.sizes, g.cols);
    assert(media_in_rows(g, total, total) =~= Seq::empty());
    assert(nearby_media(g, start, end, false) =~= visible_media(g, 0, start));
}

/// The sizes are those of the groups, each at its place, and all media are counted.
pub proof fn sizes_are_those_of_the_groups(s: Seq<crate::scan::GroupSpec>, i: int)
    requires
        0 <= i < s.len(),
    ensures
        sizes_of(s).len() == s.len(),
        sizes_of(s)[i] == s[i].images.len(),
        media_of(sizes_of(s)) == crate::index::groups_media(s).len(),
{
    media_are_counted(s);
}

proof fn media_are_counted(s: Seq<crate::scan::GroupSpec>)
    ensures
        media_of(sizes_of(s)) == crate::index::groups_media(s).len(),
    decreases s.len(),
{
    if s.len() > 0 {
        media_are_counted(s.drop_last());
        assert(sizes_of(s).drop_last() =~= sizes_of(s.drop_last()));
    }
}

} // verus!
