//! The folders that were visited, as a browser keeps its pages.

use vstd::prelude::*;

use crate::path::MediaPath;

verus! {

/// The visited folders, and how many of them lie at or before the current one.
pub struct History {
    entries: Vec<MediaPath>,
    pos: usize,
}

/// What a history holds.
pub struct HistorySpec {
    pub entries: Seq<crate::path::PathSpec>,
    pub pos: int,
}

impl HistorySpec {
    /// No folder was visited yet.
    pub open spec fn fresh() -> HistorySpec {
        HistorySpec { entries: Seq::empty(), pos: 0 }
    }

    /// The position lies within the entries.
    pub open spec fn valid(self) -> bool {
        0 <= self.pos <= self.entries.len()
    }

    /// The history after a visit: what lay ahead is dropped, and a folder that is already
    /// the last one is not entered again.
    pub open spec fn visited(self, folder: crate::path::PathSpec) -> HistorySpec {
        let past = self.entries.take(self.pos);
        let entries = if past.len() > 0 && past.last().parts == folder.parts {
            past
        } else {
            past.push(folder)
        };
        HistorySpec { entries, pos: entries.len() as int }
    }

    /// There is a folder to go back to.
    pub open spec fn can_go_back(self) -> bool {
        self.pos > 1
    }

    /// There is a folder to go forward to.
    pub open spec fn can_go_forward(self) -> bool {
        self.pos < self.entries.len()
    }

    /// The current folder.
    pub open spec fn current(self) -> Option<crate::path::PathSpec> {
        if self.pos > 0 {
            Some(self.entries[self.pos - 1])
        } else {
            None
        }
    }

    /// One step back, where there is one.
    pub open spec fn back(self) -> HistorySpec {
        if self.can_go_back() {
            HistorySpec { pos: self.pos - 1, ..self }
        } else {
            self
        }
    }

    /// One step forward, where there is one.
    pub open spec fn forward(self) -> HistorySpec {
        if self.can_go_forward() {
            HistorySpec { pos: self.pos + 1, ..self }
        } else {
            self
        }
    }
}

impl View for History {
    type V = HistorySpec;

    closed spec fn view(&self) -> HistorySpec {
        HistorySpec {
            entries: crate::path::paths_view(self.entries@),
            pos: self.pos as int,
        }
    }
}

impl History {
    #[verifier::type_invariant]
    spec fn inv(self) -> bool {
        self.pos <= self.entries.len()
    }

    /// A history without visits.
    pub fn new() -> (r: History)
        ensures
            r@ == HistorySpec::fresh(),
    {
        let r = History { entries: Vec::new(), pos: 0 };
        assert(r@.entries =~= HistorySpec::fresh().entries);
        r
    }

    /// Enters a visit to a folder.
    pub fn visit(&mut self, folder: &MediaPath)
        ensures
            old(self)@.valid(),
            final(self)@ == old(self)@.visited(folder@),
    {
        proof {
            use_type_invariant(&*self);
        }
        let ghost before = self@;
        let mut entries: Vec<MediaPath> = Vec::new();
        let pos: usize = self.pos;
        self.pos = 0;
        std::mem::swap(&mut entries, &mut self.entries);
        let ghost full = entries@;
        if pos < entries.len() {
            entries.truncate(pos);
        }
        assert(entries@ =~= full.take(pos as int));
        let ghost past = crate::path::paths_view(entries@);
        assert(past =~= before.entries.take(pos as int));
        let again = entries.len() > 0 && entries[entries.len() - 1].same(folder);
        if !again {
            entries.push(folder.clone());
            assert(crate::path::paths_view(entries@) =~= past.push(folder@));
        }
        let len: usize = entries.len();
        self.entries = entries;
        self.pos = len;
        assert(self@ == before.visited(folder@));
    }

    /// Whether there is a folder to go back to.
    pub fn can_go_back(&self) -> (r: bool)
        ensures
            r == self@.can_go_back(),
    {
        self.pos > 1
    }

    /// Whether there is a folder to go forward to.
    pub fn can_go_forward(&self) -> (r: bool)
        ensures
            r == self@.can_go_forward(),
    {
        self.pos < self.entries.len()
    }

    /// Goes one step back; returns the folder to show.
    pub fn go_back(&mut self) -> (r: Option<MediaPath>)
        ensures
            old(self)@.valid(),
            final(self)@ == old(self)@.back(),
            r is Some <==> old(self)@.can_go_back(),
            r matches Some(p) ==> Some(p@) == final(self)@.current(),
    {
        proof {
            use_type_invariant(&*self);
        }
        if self.pos > 1 {
            self.pos = self.pos - 1;
            Some(self.entries[self.pos - 1].clone())
        } else {
            None
        }
    }

    /// Goes one step forward; returns the folder to show.
    pub fn go_forward(&mut self) -> (r: Option<MediaPath>)
        ensures
            old(self)@.valid(),
            final(self)@ == old(self)@.forward(),
            r is Some <==> old(self)@.can_go_forward(),
            r matches Some(p) ==> Some(p@) == final(self)@.current(),
    {
        proof {
            use_type_invariant(&*self);
        }
        if self.pos < self.entries.len() {
            self.pos = self.pos + 1;
            Some(self.entries[self.pos - 1].clone())
        } else {
            None
        }
    }
}

/// A step back is undone by a step forward, and the other way round where a folder was
/// shown before.
pub proof fn back_and_forward_undo_each_other(h: HistorySpec)
    requires
        h.valid(),
    ensures
        h.can_go_back() ==> h.back().forward() == h,
        h.can_go_forward() && h.pos > 0 ==> h.forward().back() == h,
        h.back().valid(),
        h.forward().valid(),
{
}

/// After a visit the folder is the current one, and there is nothing ahead.
pub proof fn visit_becomes_current(h: HistorySpec, folder: crate::path::PathSpec)
    requires
        h.valid(),
    ensures
        h.visited(folder).valid(),
        h.visited(folder).current() matches Some(p) && p.parts == folder.parts,
        !h.visited(folder).can_go_forward(),
{
}

/// Going back from a newly visited folder leads to the one before it.
pub proof fn back_leads_to_the_folder_before(h: HistorySpec, folder: crate::path::PathSpec)
    requires
        h.valid(),
        h.current() matches Some(p) && p.parts != folder.parts,
    ensures
        h.visited(folder).can_go_back(),
        h.visited(folder).back().current() == h.current(),
{
}

/// No entry is followed by itself.
pub open spec fn no_repeats(h: HistorySpec) -> bool {
    forall|i: int|
        0 < i < h.entries.len() ==> (#[trigger] h.entries[i]).parts != h.entries[i - 1].parts
}

/// Visits and steps never enter a folder behind itself.
pub proof fn visits_do_not_repeat(h: HistorySpec, folder: crate::path::PathSpec)
    requires
        h.valid(),
        no_repeats(h),
    ensures
        no_repeats(h.visited(folder)),
        no_repeats(h.back()),
        no_repeats(h.forward()),
{
    let n = h.visited(folder);
    assert forall|i: int| 0 < i < n.entries.len() implies (#[trigger] n.entries[i]).parts
        != n.entries[i - 1].parts by {
        if i < h.pos {
            assert(n.entries[i] == h.entries[i] && n.entries[i - 1] == h.entries[i - 1]);
        } else {
            assert(n.entries[i] == folder);
            assert(n.entries[i - 1] == h.entries.take(h.pos).last());
        }
    }
}

/// A visit to another folder is the last entry: what was visited up to the current folder stays in
/// its order, and what lay ahead is dropped. A visit to the current folder enters nothing.
pub proof fn a_visit_drops_what_lay_ahead(h: HistorySpec, f: crate::path::PathSpec)
    requires
        h.valid(),
    ensures
        ({
            let t = h.visited(f);
            &&& !t.can_go_forward() && t.valid()
            &&& h.current() is Some && h.current()->0.parts == f.parts ==> t.entries.len() == h.pos
                && t.pos == h.pos
            &&& h.current() is None || h.current()->0.parts != f.parts ==> t.entries.len() == h.pos
                + 1 && t.entries[h.pos] == f && t.pos == h.pos + 1
            &&& forall|i: int| 0 <= i < h.pos ==> #[trigger] t.entries[i] == h.entries[i]
        }),
{
}

/// There is a way back where more than one folder was visited up to the current one, and a way
/// forward where some lie ahead. Steps go by one entry and keep all entries; without a way there is
/// no step.
pub proof fn steps_go_by_one_entry(h: HistorySpec)
    requires
        h.valid(),
    ensures
        h.pos >= 2 ==> h.can_go_back() && h.back().current() == Some(h.entries[h.pos - 2]),
        h.pos <= 1 ==> !h.can_go_back() && h.back() == h,
        h.pos < h.entries.len() ==> h.can_go_forward() && h.forward().current() == Some(
            h.entries[h.pos],
        ),
        h.pos == h.entries.len() ==> !h.can_go_forward() && h.forward() == h,
        h.pos >= 1 ==> h.current() == Some(h.entries[h.pos - 1]),
        h.pos == 0 ==> h.current() is None,
        h.back().entries == h.entries && h.forward().entries == h.entries,
        h.back().valid() && h.forward().valid(),
        HistorySpec::fresh().current() is None && !HistorySpec::fresh().can_go_back()
            && !HistorySpec::fresh().can_go_forward(),
{
}

} // verus!
