//! Thumbnail jobs: what is asked for, in which order it is worked on, and what comes back.

use std::collections::VecDeque;

use vstd::prelude::*;

use crate::path::MediaPath;

verus! {

/// Long side of generated thumbnails (pixels).
/// Higher values give better quality when tiles are zoomed in.
pub const THUMB_SIZE: u32 = 300;

/// One thumbnail to load; a higher priority is worked on earlier.
pub struct LoadItem {
    pub priority: i32,
    pub path: MediaPath,
}

/// What an item holds.
pub struct ItemSpec {
    pub priority: i32,
    pub path: crate::path::PathSpec,
}

impl View for LoadItem {
    type V = ItemSpec;

    open spec fn view(&self) -> ItemSpec {
        ItemSpec { priority: self.priority, path: self.path@ }
    }
}

/// What a list of items holds.
pub open spec fn items_view(s: Seq<LoadItem>) -> Seq<ItemSpec> {
    Seq::new(s.len(), |i: int| s[i]@)
}

/// Thumbnails to load. Requests of a later generation make those of earlier ones stale.
pub struct LoadRequest {
    pub generation: u64,
    pub items: Vec<LoadItem>,
}

/// What a request holds.
pub struct RequestSpec {
    pub generation: u64,
    pub items: Seq<ItemSpec>,
}

impl View for LoadRequest {
    type V = RequestSpec;

    open spec fn view(&self) -> RequestSpec {
        RequestSpec { generation: self.generation, items: items_view(self.items@) }
    }
}

/// A loaded thumbnail.
pub struct LoadResult {
    pub generation: u64,
    pub path: MediaPath,
    pub mtime: i64,
    pub width: u32,
    pub height: u32,
    /// RGBA, one byte for each, row by row.
    pub rgba: Vec<u8>,
}

/// What a result holds.
pub struct ResultSpec {
    pub generation: u64,
    pub path: crate::path::PathSpec,
    pub mtime: i64,
    pub width: u32,
    pub height: u32,
    pub rgba: Seq<u8>,
}

impl View for LoadResult {
    type V = ResultSpec;

    open spec fn view(&self) -> ResultSpec {
        ResultSpec {
            generation: self.generation,
            path: self.path@,
            mtime: self.mtime,
            width: self.width,
            height: self.height,
            rgba: self.rgba@,
        }
    }
}

// ── The queue ────────────────────────────────────────────────────────────────

/// A job in the queue. Of two jobs with one priority, the one with the lower number was
/// asked for earlier.
pub struct QueuedJob {
    pub generation: u64,
    pub priority: i32,
    pub seq: u64,
    pub path: MediaPath,
}

/// What a job holds.
pub struct JobSpec {
    pub generation: u64,
    pub priority: i32,
    pub seq: u64,
    pub path: crate::path::PathSpec,
}

impl View for QueuedJob {
    type V = JobSpec;

    open spec fn view(&self) -> JobSpec {
        JobSpec {
            generation: self.generation,
            priority: self.priority,
            seq: self.seq,
            path: self.path@,
        }
    }
}

/// What a list of jobs holds.
pub open spec fn jobs_view(s: Seq<QueuedJob>) -> Seq<JobSpec> {
    Seq::new(s.len(), |i: int| s[i]@)
}

/// Job `a` is worked on after job `b`: it is of an earlier generation, or of a lower priority,
/// or was asked for later.
pub open spec fn job_after(a: JobSpec, b: JobSpec) -> bool {
    if a.generation != b.generation {
        a.generation < b.generation
    } else if a.priority != b.priority {
        a.priority < b.priority
    } else {
        b.seq < a.seq
    }
}

/// The queue with one more job, behind every job that does not come after it.
pub open spec fn with_job(s: Seq<JobSpec>, job: JobSpec) -> Seq<JobSpec>
    decreases s.len(),
{
    if s.len() > 0 && job_after(s.last(), job) {
        with_job(s.drop_last(), job).push(s.last())
    } else {
        s.push(job)
    }
}

/// The number behind `seq`; after the largest comes zero.
pub open spec fn seq_plus(seq: u64, n: nat) -> u64
    decreases n,
{
    if n == 0 {
        seq
    } else {
        seq_plus(seq, (n - 1) as nat).wrapping_add(1)
    }
}

/// The queue with the items of a request, numbered from `seq` on.
pub open spec fn with_items(
    s: Seq<JobSpec>,
    generation: u64,
    seq: u64,
    items: Seq<ItemSpec>,
) -> Seq<JobSpec>
    decreases items.len(),
{
    if items.len() == 0 {
        s
    } else {
        with_job(
            with_items(s, generation, seq, items.drop_last()),
            JobSpec {
                generation,
                priority: items.last().priority,
                seq: seq_plus(seq, (items.len() - 1) as nat),
                path: items.last().path,
            },
        )
    }
}

/// The jobs that wait, the newest generation, and the number of the next job.
pub struct LoaderQueue {
    pending: VecDeque<QueuedJob>,
    generation: u64,
    seq: u64,
}

/// What a queue holds: the jobs in the order in which they are worked on.
pub struct QueueSpec {
    pub pending: Seq<JobSpec>,
    pub generation: u64,
    pub seq: u64,
}

/// The number of jobs at the front that share the generation and the priority of the first.
pub open spec fn batch_len(s: Seq<JobSpec>) -> nat
    decreases s.len(),
{
    if s.len() == 0 {
        0
    } else if s.len() >= 2 && batch_len(s.drop_last()) < s.len() - 1 {
        batch_len(s.drop_last())
    } else if s.last().generation == s[0].generation && s.last().priority == s[0].priority {
        s.len()
    } else {
        (s.len() - 1) as nat
    }
}

impl QueueSpec {
    /// No jobs, and no request yet.
    pub open spec fn fresh() -> QueueSpec {
        QueueSpec { pending: Seq::empty(), generation: 0, seq: 0 }
    }

    /// The queue after a request: a newer generation drops what waits, an older one is
    /// dropped itself.
    pub open spec fn offered(self, r: RequestSpec) -> QueueSpec {
        if r.generation < self.generation {
            self
        } else {
            let base = if r.generation > self.generation {
                Seq::empty()
            } else {
                self.pending
            };
            QueueSpec {
                pending: with_items(base, r.generation, self.seq, r.items),
                generation: r.generation,
                seq: seq_plus(self.seq, r.items.len()),
            }
        }
    }

    /// The queue without its first batch.
    pub open spec fn after_batch(self) -> QueueSpec {
        QueueSpec { pending: self.pending.skip(batch_len(self.pending) as int), ..self }
    }
}

impl View for LoaderQueue {
    type V = QueueSpec;

    closed spec fn view(&self) -> QueueSpec {
        QueueSpec {
            pending: jobs_view(self.pending@),
            generation: self.generation,
            seq: self.seq,
        }
    }
}

/// Thumbnails that are worked on together.
pub struct Batch {
    pub generation: u64,
    pub paths: Vec<MediaPath>,
}

/// The paths of a list of jobs.
pub open spec fn job_paths(s: Seq<JobSpec>) -> Seq<crate::path::PathSpec> {
    Seq::new(s.len(), |i: int| s[i].path)
}

/// Whether job `a` is worked on after job `b`.
fn comes_after(a: &QueuedJob, b: &QueuedJob) -> (r: bool)
    ensures
        r == job_after(a@, b@),
{
    if a.generation != b.generation {
        a.generation < b.generation
    } else if a.priority != b.priority {
        a.priority < b.priority
    } else {
        b.seq < a.seq
    }
}

/// Puts a job at its place.
fn enqueue(pending: &mut VecDeque<QueuedJob>, job: QueuedJob)
    ensures
        jobs_view(final(pending)@) == with_job(jobs_view(old(pending)@), job@),
{
    let ghost s = jobs_view(pending@);
    let ghost start = pending@;
    let mut i: usize = pending.len();
    assert(s.take(i as int) =~= s);
    assert(s.skip(i as int) =~= Seq::empty());
    assert(with_job(s, job@) =~= with_job(s.take(i as int), job@) + s.skip(i as int));
    while i > 0 && comes_after(&pending[i - 1], &job)
        invariant
            i <= pending@.len(),
            pending@ == start,
            s == jobs_view(start),
            with_job(s, job@) == with_job(s.take(i as int), job@) + s.skip(i as int),
        decreases i,
    {
        let ghost front = s.take(i as int);
        assert(front.last() == s[i - 1]);
        assert(front.drop_last() =~= s.take(i - 1));
        assert(s.skip(i - 1) =~= seq![s[i - 1]] + s.skip(i as int));
        assert(with_job(front, job@) =~= with_job(s.take(i - 1), job@).push(s[i - 1]));
        assert(with_job(s, job@) =~= with_job(s.take(i - 1), job@) + s.skip(i - 1));
        i = i - 1;
    }
    assert(i > 0 ==> s.take(i as int).last() == s[i - 1]);
    assert(with_job(s.take(i as int), job@) == s.take(i as int).push(job@));
    pending.insert(i, job);
    assert(jobs_view(pending@) =~= s.take(i as int).push(job@) + s.skip(i as int));
}

proof fn batch_is_front(s: Seq<JobSpec>)
    ensures
        batch_len(s) <= s.len(),
        s.len() > 0 ==> batch_len(s) > 0,
        forall|i: int|
            0 <= i < batch_len(s) ==> (#[trigger] s[i]).generation == s[0].generation && s[i].priority
                == s[0].priority,
        batch_len(s) < s.len() ==> !(s[batch_len(s) as int].generation == s[0].generation
            && s[batch_len(s) as int].priority == s[0].priority),
    decreases s.len(),
{
    if s.len() > 0 {
        let f = s.drop_last();
        batch_is_front(f);
        assert forall|i: int| 0 <= i < batch_len(s) implies (#[trigger] s[i]).generation
            == s[0].generation && s[i].priority == s[0].priority by {
            if i < f.len() {
                assert(f[i] == s[i]);
                if f.len() > 0 {
                    assert(f[0] == s[0]);
                }
            }
        }
        if f.len() > 0 {
            assert(f[0] == s[0]);
        }
    }
}

proof fn batch_is_all(s: Seq<JobSpec>, n: int)
    requires
        0 < n <= s.len(),
        forall|i: int|
            0 <= i < n ==> (#[trigger] s[i]).generation == s[0].generation && s[i].priority
                == s[0].priority,
        n < s.len() ==> !(s[n].generation == s[0].generation && s[n].priority == s[0].priority),
    ensures
        batch_len(s) == n,
{
    batch_is_front(s);
    let b = batch_len(s) as int;
    if b < n {
        assert(s[b].generation == s[0].generation);
    } else if n < b {
        assert(s[n].generation == s[0].generation);
    }
}

impl LoaderQueue {
    /// A queue without jobs.
    pub fn new() -> (r: LoaderQueue)
        ensures
            r@ == QueueSpec::fresh(),
    {
        let r = LoaderQueue { pending: VecDeque::new(), generation: 0, seq: 0 };
        assert(r@.pending =~= Seq::empty());
        r
    }

    /// Takes a request.
    pub fn offer(&mut self, request: LoadRequest)
        ensures
            final(self)@ == old(self)@.offered(request@),
    {
        let generation: u64 = request.generation;
        if generation > self.generation {
            self.generation = generation;
            self.pending.clear();
            assert(jobs_view(self.pending@) =~= Seq::empty());
        }
        if generation == self.generation {
            let ghost base = jobs_view(self.pending@);
            let ghost seq0 = self.seq;
            let ghost all = items_view(request.items@);
            for item in it: request.items
                invariant
                    it.seq() == request.items@,
                    all == items_view(request.items@),
                    self.generation == generation,
                    self.seq == seq_plus(seq0, it.index() as nat),
                    jobs_view(self.pending@) == with_items(
                        base,
                        generation,
                        seq0,
                        all.take(it.index() as int),
                    ),
            {
                let ghost i = it.index() as int;
                assert(all.take(i + 1).drop_last() =~= all.take(i));
                assert(all.take(i + 1).last() == item@);
                enqueue(
                    &mut self.pending,
                    QueuedJob {
                        generation,
                        priority: item.priority,
                        seq: self.seq,
                        path: item.path,
                    },
                );
                self.seq = self.seq.wrapping_add(1);
            }
            assert(all.take(all.len() as int) =~= all);
        }
    }

    /// Takes the first batch out of the queue.
    pub fn next_batch(&mut self) -> (r: Option<Batch>)
        ensures
            r is Some <==> old(self)@.pending.len() > 0,
            r matches Some(b) ==> {
                &&& b.generation == old(self)@.pending[0].generation
                &&& crate::path::paths_view(b.paths@) == job_paths(
                    old(self)@.pending.take(batch_len(old(self)@.pending) as int),
                )
            },
            final(self)@ == old(self)@.after_batch(),
    {
        let ghost s = self@.pending;
        match self.pending.pop_front() {
            None => {
                assert(s.len() == 0);
                assert(s.skip(0) =~= s);
                None
            },
            Some(first) => {
                let generation: u64 = first.generation;
                let priority: i32 = first.priority;
                let mut paths: Vec<MediaPath> = Vec::new();
                paths.push(first.path);
                let ghost mut n: int = 1;
                assert(jobs_view(self.pending@) =~= s.skip(1));
                assert(crate::path::paths_view(paths@) =~= job_paths(s.take(1)));
                while self.pending.len() > 0 && self.pending[0].generation == generation
                    && self.pending[0].priority == priority
                    invariant
                        s.len() > 0,
                        s[0].generation == generation,
                        s[0].priority == priority,
                        0 < n <= s.len(),
                        jobs_view(self.pending@) == s.skip(n),
                        crate::path::paths_view(paths@) == job_paths(s.take(n)),
                        self.generation == old(self)@.generation,
                        self.seq == old(self)@.seq,
                        forall|i: int|
                            0 <= i < n ==> (#[trigger] s[i]).generation == s[0].generation
                                && s[i].priority == s[0].priority,
                    decreases self.pending@.len(),
                {
                    let ghost before = self.pending@;
                    assert(jobs_view(before).len() == before.len());
                    assert(s.skip(n).len() == s.len() - n);
                    assert(jobs_view(before)[0] == s.skip(n)[0]);
                    assert(before[0]@ == s[n]);
                    if let Some(job) = self.pending.pop_front() {
                        let ghost old_paths = paths@;
                        paths.push(job.path);
                        proof {
                            let now = jobs_view(self.pending@);
                            assert forall|i: int| 0 <= i < now.len() implies now[i] == s.skip(
                                n + 1,
                            )[i] by {
                                assert(jobs_view(before)[i + 1] == s.skip(n)[i + 1]);
                            }
                            assert(now =~= s.skip(n + 1));
                            assert(crate::path::paths_view(paths@)
                                =~= crate::path::paths_view(old_paths).push(s[n].path));
                            assert(job_paths(s.take(n + 1)) =~= job_paths(s.take(n)).push(
                                s[n].path,
                            ));
                            n = n + 1;
                        }
                    }
                }
                proof {
                    assert(jobs_view(self.pending@) == s.skip(n));
                    if n < s.len() {
                        assert(self.pending@.len() > 0);
                        assert(jobs_view(self.pending@)[0] == s[n]);
                        assert(self.pending@[0]@ == s[n]);
                    }
                    batch_is_all(s, n);
                }
                Some(Batch { generation, paths })
            },
        }
    }
}

// ── What holds of the queue ──────────────────────────────────────────────────

/// No job stands in front of one that it comes after.
pub open spec fn jobs_in_order(s: Seq<JobSpec>) -> bool {
    forall|i: int, j: int|
        0 <= i < j < s.len() ==> !job_after(#[trigger] s[i], #[trigger] s[j])
}

/// Every job is of this generation.
pub open spec fn all_of_generation(s: Seq<JobSpec>, generation: u64) -> bool {
    forall|i: int| 0 <= i < s.len() ==> (#[trigger] s[i]).generation == generation
}

proof fn with_job_keeps(s: Seq<JobSpec>, job: JobSpec)
    ensures
        forall|x: JobSpec| #[trigger] with_job(s, job).contains(x) <==> s.contains(x) || x == job,
        with_job(s, job).len() == s.len() + 1,
        jobs_in_order(s) ==> jobs_in_order(with_job(s, job)),
        all_of_generation(s, job.generation) ==> all_of_generation(
            with_job(s, job),
            job.generation,
        ),
    decreases s.len(),
{
    let t = with_job(s, job);
    if s.len() > 0 && job_after(s.last(), job) {
        let f = s.drop_last();
        let g = with_job(f, job);
        with_job_keeps(f, job);
        assert(s =~= f.push(s.last()));
        assert forall|x: JobSpec| #[trigger] t.contains(x) <==> s.contains(x) || x == job by {
            push_contains(g, s.last(), x);
            push_contains(f, s.last(), x);
            assert(g.contains(x) <==> f.contains(x) || x == job);
        }
        if jobs_in_order(s) {
            assert forall|i: int, j: int| 0 <= i < j < f.len() implies !job_after(
                #[trigger] f[i],
                #[trigger] f[j],
            ) by {
                assert(f[i] == s[i] && f[j] == s[j]);
            }
            assert forall|i: int, j: int| 0 <= i < j < t.len() implies !job_after(
                #[trigger] t[i],
                #[trigger] t[j],
            ) by {
                assert(t[i] == g[i]);
                if j < g.len() {
                    assert(t[j] == g[j]);
                } else {
                    assert(g.contains(g[i]));
                    if g[i] != job {
                        assert(f.contains(g[i]));
                        let x = choose|x: int| 0 <= x < f.len() && f[x] == g[i];
                        assert(s[x] == g[i] && s[s.len() - 1] == s.last());
                    }
                }
            }
        }
        if all_of_generation(s, job.generation) {
            assert forall|i: int| 0 <= i < f.len() implies (#[trigger] f[i]).generation
                == job.generation by {
                assert(f[i] == s[i]);
            }
            assert forall|i: int| 0 <= i < t.len() implies (#[trigger] t[i]).generation
                == job.generation by {
                if i < g.len() {
                    assert(t[i] == g[i]);
                } else {
                    assert(s[s.len() - 1] == s.last());
                }
            }
        }
    } else {
        assert forall|x: JobSpec| #[trigger] t.contains(x) <==> s.contains(x) || x == job by {
            push_contains(s, job, x);
        }
        if jobs_in_order(s) {
            assert forall|i: int, j: int| 0 <= i < j < t.len() implies !job_after(
                #[trigger] t[i],
                #[trigger] t[j],
            ) by {
                assert(t[i] == s[i]);
                if j < s.len() {
                    assert(t[j] == s[j]);
                } else {
                    assert(!job_after(s.last(), job));
                    if i < s.len() - 1 {
                        assert(!job_after(s[i], s[s.len() - 1]));
                    }
                }
            }
        }
    }
}

proof fn push_contains(s: Seq<JobSpec>, job: JobSpec, x: JobSpec)
    ensures
        s.push(job).contains(x) <==> s.contains(x) || x == job,
{
    let t = s.push(job);
    if t.contains(x) {
        let i = choose|i: int| 0 <= i < t.len() && t[i] == x;
        if i < s.len() {
            assert(s[i] == x);
        }
    }
    if s.contains(x) {
        let i = choose|i: int| 0 <= i < s.len() && s[i] == x;
        assert(t[i] == x);
    }
    if x == job {
        assert(t[s.len() as int] == x);
    }
}

proof fn with_items_keeps(s: Seq<JobSpec>, generation: u64, seq: u64, items: Seq<ItemSpec>)
    requires
        jobs_in_order(s),
        all_of_generation(s, generation),
    ensures
        jobs_in_order(with_items(s, generation, seq, items)),
        all_of_generation(with_items(s, generation, seq, items), generation),
        with_items(s, generation, seq, items).len() == s.len() + items.len(),
        forall|x: JobSpec|
            s.contains(x) ==> #[trigger] with_items(s, generation, seq, items).contains(x),
        forall|i: int|
            0 <= i < items.len() ==> with_items(s, generation, seq, items).contains(
                JobSpec {
                    generation,
                    priority: (#[trigger] items[i]).priority,
                    seq: seq_plus(seq, i as nat),
                    path: items[i].path,
                },
            ),
    decreases items.len(),
{
    if items.len() > 0 {
        let front = items.drop_last();
        with_items_keeps(s, generation, seq, front);
        let job = JobSpec {
            generation,
            priority: items.last().priority,
            seq: seq_plus(seq, (items.len() - 1) as nat),
            path: items.last().path,
        };
        let t = with_items(s, generation, seq, front);
        with_job_keeps(t, job);
        assert forall|x: JobSpec| s.contains(x) implies #[trigger] with_items(
            s,
            generation,
            seq,
            items,
        ).contains(x) by {
            assert(t.contains(x));
        }
        assert forall|i: int| 0 <= i < items.len() implies with_items(
            s,
            generation,
            seq,
            items,
        ).contains(
            JobSpec {
                generation,
                priority: (#[trigger] items[i]).priority,
                seq: seq_plus(seq, i as nat),
                path: items[i].path,
            },
        ) by {
            let x = JobSpec {
                generation,
                priority: items[i].priority,
                seq: seq_plus(seq, i as nat),
                path: items[i].path,
            };
            if i < front.len() {
                assert(front[i] == items[i]);
                assert(t.contains(x));
            } else {
                assert(x == job);
            }
        }
    }
}

/// A queue is in order and holds jobs of one generation alone.
pub open spec fn sound_queue(q: QueueSpec) -> bool {
    jobs_in_order(q.pending) && all_of_generation(q.pending, q.generation)
}

/// A request of an older generation is dropped. Any other is entered whole, keeps the
/// queue sound, and, where it is newer, leaves no job of an older generation.
pub proof fn newer_requests_drop_stale_jobs(q: QueueSpec, r: RequestSpec)
    requires
        sound_queue(q),
    ensures
        sound_queue(q.offered(r)),
        r.generation < q.generation ==> q.offered(r) == q,
        r.generation >= q.generation ==> q.offered(r).generation == r.generation,
        r.generation > q.generation ==> q.offered(r).pending.len() == r.items.len(),
        r.generation == q.generation ==> q.offered(r).pending.len() == q.pending.len()
            + r.items.len(),
        r.generation >= q.generation ==> forall|i: int|
            0 <= i < r.items.len() ==> q.offered(r).pending.contains(
                JobSpec {
                    generation: r.generation,
                    priority: (#[trigger] r.items[i]).priority,
                    seq: seq_plus(q.seq, i as nat),
                    path: r.items[i].path,
                },
            ),
{
    if r.generation > q.generation {
        with_items_keeps(Seq::empty(), r.generation, q.seq, r.items);
    } else if r.generation == q.generation {
        with_items_keeps(q.pending, r.generation, q.seq, r.items);
    }
}

/// A batch is a front part of the queue, of one priority; what stays behind is of a lower
/// priority. Taking batches loses no job and ends.
pub proof fn batches_go_by_priority(q: QueueSpec)
    requires
        sound_queue(q),
        q.pending.len() > 0,
    ensures
        0 < batch_len(q.pending) <= q.pending.len(),
        q.pending == q.pending.take(batch_len(q.pending) as int) + q.after_batch().pending,
        forall|i: int|
            0 <= i < batch_len(q.pending) ==> (#[trigger] q.pending[i]).priority
                == q.pending[0].priority,
        forall|i: int|
            0 <= i < q.after_batch().pending.len() ==> (
            #[trigger] q.after_batch().pending[i]).priority < q.pending[0].priority,
        sound_queue(q.after_batch()),
        q.after_batch().pending.len() < q.pending.len(),
{
    let s = q.pending;
    batch_is_front(s);
    let n = batch_len(s) as int;
    let rest = q.after_batch().pending;
    assert(s =~= s.take(n) + rest);
    assert forall|i: int| 0 <= i < rest.len() implies (#[trigger] rest[i]).priority
        < s[0].priority by {
        assert(rest[i] == s[n + i]);
        assert(s[n].generation == q.generation && s[0].generation == q.generation);
        assert(s[n + i].generation == q.generation);
        assert(!job_after(s[0], s[n]));
        if i > 0 {
            assert(!job_after(s[n], s[n + i]));
        }
    }
    assert forall|i: int, j: int| 0 <= i < j < rest.len() implies !job_after(
        #[trigger] rest[i],
        #[trigger] rest[j],
    ) by {
        assert(rest[i] == s[n + i] && rest[j] == s[n + j]);
    }
    assert forall|i: int| 0 <= i < rest.len() implies (#[trigger] rest[i]).generation
        == q.generation by {
        assert(rest[i] == s[n + i]);
    }
}

/// How many threads decode thumbnails: half of the logical processors, however many there are,
/// and at least one. The other half keeps the window responsive.
pub fn worker_threads(processors: usize) -> (r: usize)
    ensures
        r == if processors < 2 {
            1
        } else {
            processors as int / 2
        },
{
    let half: usize = processors / 2;
    if half < 1 {
        1
    } else {
        half
    }
}

// ── Results ──────────────────────────────────────────────────────────────────

/// Pixels as a row of a picture table or a decoder gives them.
pub struct Pixels {
    pub width: u32,
    pub height: u32,
    /// RGBA, one byte for each, row by row.
    pub rgba: Vec<u8>,
}

/// There are pixels, and four bytes for each of them.
pub open spec fn whole_pixels(width: u32, height: u32, bytes: int) -> bool {
    width > 0 && height > 0 && width * height * 4 == bytes
}

/// Whether there are four bytes for each pixel.
pub fn are_whole_or_empty(width: u32, height: u32, bytes: usize) -> (r: bool)
    ensures
        r == (width * height * 4 == bytes),
{
    assert(width * height <= 0xffff_ffff * 0xffff_ffff) by (nonlinear_arith)
        requires
            width <= 0xffff_ffff,
            height <= 0xffff_ffff,
    ;
    assert(0 <= width * height) by (nonlinear_arith)
        requires
            width >= 0,
            height >= 0,
    ;
    let want: u128 = width as u128 * height as u128;
    want * 4 == bytes as u128
}

/// Whether there are pixels, and four bytes for each of them.
pub fn are_whole(width: u32, height: u32, bytes: usize) -> (r: bool)
    ensures
        r == whole_pixels(width, height, bytes as int),
{
    width > 0 && height > 0 && are_whole_or_empty(width, height, bytes)
}

/// The result that pixels of a file give, if they are whole. A cached row that is not whole is
/// passed over, so that the file is decoded again; decoded pixels that are not whole are
/// neither cached nor shown.
pub fn result_of(
    generation: u64,
    path: &MediaPath,
    mtime: i64,
    pixels: Option<Pixels>,
) -> (r: Option<LoadResult>)
    ensures
        r is Some <==> pixels is Some && whole_pixels(
            pixels->0.width,
            pixels->0.height,
            pixels->0.rgba@.len() as int,
        ),
        r matches Some(x) ==> x@ == (ResultSpec {
            generation,
            path: path@,
            mtime,
            width: pixels->0.width,
            height: pixels->0.height,
            rgba: pixels->0.rgba@,
        }),
        r matches Some(x) ==> x.rgba@.len() == x.width * x.height * 4,
{
    match pixels {
        Some(p) => if are_whole(p.width, p.height, p.rgba.len()) {
            Some(
                LoadResult {
                    generation,
                    path: path.clone(),
                    mtime,
                    width: p.width,
                    height: p.height,
                    rgba: p.rgba,
                },
            )
        } else {
            None
        },
        None => None,
    }
}

/// The jobs of a queue wait in their order: none stands in front of one of a higher priority, and
/// of those of one priority, the one that was asked for earlier stands in front.
pub proof fn jobs_wait_in_their_order(q: QueueSpec, i: int, j: int)
    requires
        sound_queue(q),
        0 <= i < j < q.pending.len(),
    ensures
        q.pending[i].generation == q.generation,
        q.pending[i].priority >= q.pending[j].priority,
        q.pending[i].priority == q.pending[j].priority ==> q.pending[i].seq <= q.pending[j].seq,
{
    assert(!job_after(q.pending[i], q.pending[j]));
    assert(q.pending[i].generation == q.generation && q.pending[j].generation == q.generation);
}

/// The jobs of a request are numbered in the order of its items.
pub proof fn jobs_are_numbered_in_turn(seq: u64, n: nat)
    requires
        seq + n <= u64::MAX,
    ensures
        seq_plus(seq, n) == seq + n,
    decreases n,
{
    if n > 0 {
        jobs_are_numbered_in_turn(seq, (n - 1) as nat);
    }
}

/// A request of the current generation keeps every job that waits, and one of an older generation
/// adds none; the numbers go on behind those that were given.
pub proof fn requests_keep_what_waits(q: QueueSpec, r: RequestSpec, job: JobSpec)
    requires
        sound_queue(q),
    ensures
        r.generation == q.generation && q.pending.contains(job) ==> q.offered(r).pending.contains(
            job,
        ),
        r.generation >= q.generation && q.offered(r).pending.contains(job) ==> (r.generation
            == q.generation && q.pending.contains(job)) || exists|i: int|
            0 <= i < r.items.len() && (#[trigger] r.items[i]).path == job.path
                && r.items[i].priority == job.priority && job.generation == r.generation,
        r.generation >= q.generation && q.seq + r.items.len() <= u64::MAX ==> q.offered(r).seq
            == q.seq + r.items.len(),
{
    if r.generation >= q.generation {
        let base = if r.generation > q.generation {
            Seq::empty()
        } else {
            q.pending
        };
        items_become_jobs(base, r.generation, q.seq, r.items, job);
        if q.seq + r.items.len() <= u64::MAX {
            jobs_are_numbered_in_turn(q.seq, r.items.len());
        }
    }
}

proof fn items_become_jobs(
    s: Seq<JobSpec>,
    generation: u64,
    seq: u64,
    items: Seq<ItemSpec>,
    job: JobSpec,
)
    ensures
        s.contains(job) ==> with_items(s, generation, seq, items).contains(job),
        with_items(s, generation, seq, items).contains(job) ==> s.contains(job) || exists|i: int|
            0 <= i < items.len() && (#[trigger] items[i]).path == job.path && items[i].priority
                == job.priority && job.generation == generation,
    decreases items.len(),
{
    if items.len() > 0 {
        let front = items.drop_last();
        items_become_jobs(s, generation, seq, front, job);
        let own = JobSpec {
            generation,
            priority: items.last().priority,
            seq: seq_plus(seq, (items.len() - 1) as nat),
            path: items.last().path,
        };
        with_job_keeps(with_items(s, generation, seq, front), own);
        if with_items(s, generation, seq, items).contains(job) {
            if job == own {
                assert(items[items.len() - 1].path == job.path);
            } else if !s.contains(job) {
                let i = choose|i: int|
                    0 <= i < front.len() && (#[trigger] front[i]).path == job.path
                        && front[i].priority == job.priority && job.generation == generation;
                assert(items[i] == front[i]);
            }
        }
    }
}

/// A batch names the paths of its jobs, in their order.
pub proof fn a_batch_names_its_paths(s: Seq<JobSpec>, i: int)
    requires
        0 <= i < s.len(),
    ensures
        job_paths(s).len() == s.len(),
        job_paths(s)[i] == s[i].path,
{
}

/// A batch ends only where the queue does, or in front of a job of another priority.
pub proof fn a_batch_is_as_long_as_can_be(q: QueueSpec, i: int)
    requires
        sound_queue(q),
        0 <= i < q.pending.len(),
        q.pending[i].priority == q.pending[0].priority,
    ensures
        i < batch_len(q.pending),
        q.after_batch().generation == q.generation && q.after_batch().seq == q.seq,
{
    batches_go_by_priority(q);
    if i >= batch_len(q.pending) {
        let n = batch_len(q.pending) as int;
        assert(q.after_batch().pending[i - n] == q.pending[i]);
    }
}

/// Half of the processors decode thumbnails, and one at least.
pub proof fn half_of_the_processors_decode(processors: usize, r: usize)
    requires
        call_ensures(worker_threads, (processors,), r),
    ensures
        r >= 1,
        processors >= 2 ==> 2 * r == processors || 2 * r + 1 == processors,
        processors < 2 ==> r == 1,
{
}

} // verus!
