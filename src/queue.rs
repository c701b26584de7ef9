//! The job table and the queue's state machine: create, list, transition,
//! requeue one job, requeue a batch.
use vstd::prelude::*;
use crate::job::{job_views, state_named, text_of, JobState, JobView, PrintJob};
use crate::text::same_text;

verus! {

/// Why a queue operation was refused.
#[derive(Clone, Copy, Debug, PartialEq, Eq, Structural)]
pub enum QueueError {
    /// A transition named a state other than `new`, `printing` or `done`.
    InvalidState,
    /// No candidate location for the store accepted a write.
    NoWritableLocation,
    /// Every job id has been handed out.
    IdsExhausted,
    /// A job's print count cannot grow any further.
    PrintCountOverflow,
    /// Stored rows break the table's invariants.
    MalformedRows,
}

/// The time written by an operation at `now` on a table whose latest write
/// was at `clock`: time never runs backwards inside the table.
pub open spec fn stamp(clock: int, now: int) -> int {
    if now > clock {
        now
    } else {
        clock
    }
}

/// A freshly created job.
pub open spec fn fresh_job(
    id: int,
    batch_id: Seq<char>,
    requested_by: Seq<char>,
    payload: Seq<char>,
    t: int,
) -> JobView {
    JobView {
        id,
        batch_id,
        requested_by,
        payload,
        state: JobState::New,
        print_count: 0,
        last_error: None,
        created_at: t,
        updated_at: t,
    }
}

/// A job put back to `new` with its error cleared.
pub open spec fn reset_job(j: JobView, t: int) -> JobView {
    JobView { state: JobState::New, last_error: None, updated_at: t, ..j }
}

/// A job moved to `state`.
pub open spec fn moved_job(
    j: JobView,
    state: JobState,
    last_error: Option<Seq<char>>,
    increment: bool,
    t: int,
) -> JobView {
    JobView {
        state,
        last_error,
        print_count: if increment {
            j.print_count + 1
        } else {
            j.print_count
        },
        updated_at: t,
        ..j
    }
}

/// Rows after the job `id` moved to `state`.
pub open spec fn moved_rows(
    rows: Seq<JobView>,
    id: int,
    state: JobState,
    last_error: Option<Seq<char>>,
    increment: bool,
    t: int,
) -> Seq<JobView> {
    rows.map_values(
        |j: JobView|
            if j.id == id {
                moved_job(j, state, last_error, increment, t)
            } else {
                j
            },
    )
}

/// Rows after the job `id` was requeued.
pub open spec fn requeued_rows(rows: Seq<JobView>, id: int, t: int) -> Seq<JobView> {
    rows.map_values(|j: JobView| if j.id == id { reset_job(j, t) } else { j })
}

/// Rows after every job of `batch_id` was requeued.
pub open spec fn requeued_batch_rows(rows: Seq<JobView>, batch_id: Seq<char>, t: int) -> Seq<
    JobView,
> {
    rows.map_values(|j: JobView| if j.batch_id == batch_id { reset_job(j, t) } else { j })
}

/// The jobs of `rows` that belong to `batch_id`.
pub open spec fn batch_members(rows: Seq<JobView>, batch_id: Seq<char>) -> Seq<JobView> {
    rows.filter(|j: JobView| j.batch_id == batch_id)
}

/// Whether some row holds the id `id`.
pub open spec fn has_id(rows: Seq<JobView>, id: int) -> bool {
    exists|i: int| 0 <= i < rows.len() && rows[i].id == id
}

/// Whether an incremented print count of job `id` would not fit.
pub open spec fn count_saturated(rows: Seq<JobView>, id: int) -> bool {
    exists|i: int| 0 <= i < rows.len() && rows[i].id == id && rows[i].print_count == i64::MAX
}

/// Whether `a` comes before `b` in a listing: later creation first, and among
/// jobs created at the same time the lower id first.
pub open spec fn listed_before(a: JobView, b: JobView) -> bool {
    a.created_at > b.created_at || (a.created_at == b.created_at && a.id < b.id)
}

/// Whether `out` lists exactly the jobs of `rows`, in listing order.
pub open spec fn is_listing(out: Seq<JobView>, rows: Seq<JobView>) -> bool {
    &&& out.len() == rows.len()
    &&& forall|i: int| 0 <= i < out.len() ==> rows.contains(#[trigger] out[i])
    &&& forall|i: int| 0 <= i < rows.len() ==> out.contains(#[trigger] rows[i])
    &&& forall|i: int, k: int| 0 <= i < k < out.len() ==> listed_before(out[i], out[k])
}

/// The invariants of stored rows: ids strictly increase in storage order,
/// print counts are not negative, and no job was updated before it was
/// created.
pub open spec fn rows_valid(rows: Seq<JobView>) -> bool {
    &&& forall|i: int, k: int| 0 <= i < k < rows.len() ==> rows[i].id < rows[k].id
    &&& forall|i: int|
        0 <= i < rows.len() ==> 0 <= rows[i].print_count && rows[i].created_at
            <= rows[i].updated_at
}

/// The latest update time among `rows`, or the earliest time if there is none.
pub open spec fn latest_update(rows: Seq<JobView>) -> int
    decreases rows.len(),
{
    if rows.len() == 0 {
        i64::MIN as int
    } else {
        let before = latest_update(rows.drop_last());
        if rows.last().updated_at > before {
            rows.last().updated_at
        } else {
            before
        }
    }
}

/// The last id handed out in a table loaded from `rows`.
pub open spec fn restored_last_id(rows: Seq<JobView>) -> int {
    if rows.len() == 0 || rows.last().id < 0 {
        0
    } else {
        rows.last().id
    }
}

/// The job table: rows in creation order, the last id handed out, and the
/// latest time written.
pub struct JobQueue {
    jobs: Vec<PrintJob>,
    last_id: i64,
    clock: i64,
}

impl View for JobQueue {
    type V = Seq<JobView>;

    closed spec fn view(&self) -> Seq<JobView> {
        job_views(self.jobs@)
    }
}

impl JobQueue {
    /// The last id handed out; the next job gets the one after it.
    pub closed spec fn last_id(&self) -> int {
        self.last_id as int
    }

    /// The latest time written to the table.
    pub closed spec fn clock(&self) -> int {
        self.clock as int
    }

    /// The last id and the clock are machine integers.
    pub proof fn lemma_ranges(&self)
        ensures
            i64::MIN <= self.last_id() <= i64::MAX,
            i64::MIN <= self.clock() <= i64::MAX,
    {
    }

    /// What the table's invariant guarantees: ids strictly increase in
    /// creation order and never exceed the last id handed out, so a new id is
    /// never one in use; print counts are not negative; no job was updated
    /// before it was created, nor after the table's latest write.
    pub proof fn lemma_invariants(&self)
        requires
            self.wf(),
        ensures
            rows_valid(self@),
            forall|i: int| 0 <= i < self@.len() ==> #[trigger] self@[i].id <= self.last_id(),
            forall|i: int| 0 <= i < self@.len() ==> #[trigger] self@[i].updated_at <= self.clock(),
    {
    }

    /// The table's invariant.
    pub closed spec fn wf(&self) -> bool {
        &&& rows_valid(self@)
        &&& 0 <= self.last_id
        &&& forall|i: int| 0 <= i < self@.len() ==> self@[i].id <= self.last_id
        &&& forall|i: int| 0 <= i < self@.len() ==> self@[i].updated_at <= self.clock
    }

    /// An empty table.
    pub fn new() -> (r: JobQueue)
        ensures
            r.wf(),
            r@ == Seq::<JobView>::empty(),
            r.last_id() == 0,
            r.clock() == i64::MIN,
    {
        let r = JobQueue { jobs: Vec::new(), last_id: 0, clock: i64::MIN };
        assert(r@ =~= Seq::<JobView>::empty());
        r
    }

    /// The number of jobs.
    pub fn len(&self) -> (r: usize)
        ensures
            r == self@.len(),
    {
        self.jobs.len()
    }

    /// The position of the job `id`, if it is stored.
    fn position(&self, id: i64) -> (r: Option<usize>)
        requires
            self.wf(),
        ensures
            match r {
                Some(i) => i < self@.len() && self@[i as int].id == id,
                None => !has_id(self@, id as int),
            },
    {
        let mut i: usize = 0;
        while i < self.jobs.len()
            invariant
                i <= self@.len(),
                self@.len() == self.jobs@.len(),
                forall|k: int| 0 <= k < i ==> self@[k].id != id,
            decreases self.jobs.len() - i,
        {
            if self.jobs[i].id == id {
                return Some(i);
            }
            i = i + 1;
        }
        None
    }

    /// The job `id`, if it is stored.
    pub fn get(&self, id: i64) -> (r: Option<PrintJob>)
        requires
            self.wf(),
        ensures
            r is None <==> !has_id(self@, id as int),
            r matches Some(j) ==> j@.id == id && self@.contains(j@),
    {
        match self.position(id) {
            Some(i) => {
                let j = self.jobs[i].snapshot();
                assert(self@[i as int] == j@);
                Some(j)
            },
            None => None,
        }
    }

    /// Adds a job in state `new`, with a print count of 0 and no error, under
    /// the next id; fails once every id has been handed out.
    pub fn create_at(&mut self, batch_id: &str, requested_by: &str, payload: &str, now: i64) -> (r:
        Result<PrintJob, QueueError>)
        requires
            old(self).wf(),
        ensures
            final(self).wf(),
            r is Ok <==> old(self).last_id() < i64::MAX,
            match r {
                Ok(job) => {
                    &&& job@ == fresh_job(
                        old(self).last_id() + 1,
                        batch_id@,
                        requested_by@,
                        payload@,
                        stamp(old(self).clock(), now as int),
                    )
                    &&& final(self)@ == old(self)@.push(job@)
                    &&& final(self).last_id() == old(self).last_id() + 1
                    &&& final(self).clock() == stamp(old(self).clock(), now as int)
                },
                Err(e) => {
                    &&& e == QueueError::IdsExhausted
                    &&& final(self)@ == old(self)@
                    &&& final(self).last_id() == old(self).last_id()
                    &&& final(self).clock() == old(self).clock()
                },
            },
    {
        if self.last_id == i64::MAX {
            return Err(QueueError::IdsExhausted);
        }
        let t = if now > self.clock {
            now
        } else {
            self.clock
        };
        let id = self.last_id + 1;
        let job = PrintJob {
            id,
            batch_id: String::from_str(batch_id),
            requested_by: String::from_str(requested_by),
            payload: String::from_str(payload),
            state: JobState::New,
            print_count: 0,
            last_error: None,
            created_at: t,
            updated_at: t,
        };
        let copy = job.snapshot();
        self.jobs.push(copy);
        self.last_id = id;
        self.clock = t;
        assert(self@ =~= old(self)@.push(job@));
        Ok(job)
    }

    /// Moves the job `id` to the state named `state`, storing `last_error` as
    /// given and adding one to its print count when `increment_count` holds.
    /// Any of the three states may follow any other. An unknown state name is
    /// refused before anything is written; an unknown id changes no job.
    /// Returns the updated job, if `id` is stored.
    pub fn transition_at(
        &mut self,
        id: i64,
        state: &str,
        last_error: Option<String>,
        increment_count: bool,
        now: i64,
    ) -> (r: Result<Option<PrintJob>, QueueError>)
        requires
            old(self).wf(),
        ensures
            final(self).wf(),
            state_named(state@) is None ==> r == Err::<Option<PrintJob>, QueueError>(
                QueueError::InvalidState,
            ),
            state_named(state@) is Some && increment_count && count_saturated(old(self)@, id as int)
                ==> r == Err::<Option<PrintJob>, QueueError>(QueueError::PrintCountOverflow),
            r is Err ==> final(self)@ == old(self)@ && final(self).clock() == old(self).clock(),
            r is Ok <==> state_named(state@) is Some && !(increment_count && count_saturated(
                old(self)@,
                id as int,
            )),
            r is Ok ==> final(self)@ == moved_rows(
                old(self)@,
                id as int,
                state_named(state@)->0,
                text_of(last_error),
                increment_count,
                stamp(old(self).clock(), now as int),
            ) && final(self).clock() == stamp(old(self).clock(), now as int),
            r matches Ok(None) ==> !has_id(old(self)@, id as int),
            r matches Ok(Some(j)) ==> j@.id == id && final(self)@.contains(j@),
            final(self).last_id() == old(self).last_id(),
    {
        let st = match JobState::parse(state) {
            Some(st) => st,
            None => return Err(QueueError::InvalidState),
        };
        let pos = self.position(id);
        if let Some(i) = pos {
            if increment_count && self.jobs[i].print_count == i64::MAX {
                return Err(QueueError::PrintCountOverflow);
            }
        } else {
            proof {
                assert forall|k: int| 0 <= k < old(self)@.len() implies !(old(self)@[k].id == id
                    && old(self)@[k].print_count == i64::MAX) by {}
            }
        }
        let t = if now > self.clock {
            now
        } else {
            self.clock
        };
        self.clock = t;
        let ghost err = text_of(last_error);
        let ghost target = moved_rows(old(self)@, id as int, st, err, increment_count, t as int);
        match pos {
            Some(i) => {
                let count = if increment_count {
                    self.jobs[i].print_count + 1
                } else {
                    self.jobs[i].print_count
                };
                self.jobs[i].state = st;
                self.jobs[i].print_count = count;
                self.jobs[i].last_error = last_error;
                self.jobs[i].updated_at = t;
                proof {
                    assert forall|k: int| 0 <= k < self@.len() implies self@[k] == target[k] by {
                        if k != i {
                            assert(old(self)@[k].id != id);
                        }
                    }
                    assert(self@ =~= target);
                }
                let j = self.jobs[i].snapshot();
                assert(self@[i as int] == j@);
                Ok(Some(j))
            },
            None => {
                assert(self@ =~= target);
                Ok(None)
            },
        }
    }

    /// Puts the job `id` back to `new` and clears its error; its print count
    /// is kept. An unknown id changes no job. Returns the updated job, if
    /// `id` is stored.
    pub fn requeue_one_at(&mut self, id: i64, now: i64) -> (r: Option<PrintJob>)
        requires
            old(self).wf(),
        ensures
            final(self).wf(),
            final(self)@ == requeued_rows(old(self)@, id as int, stamp(old(self).clock(), now as int)),
            final(self).clock() == stamp(old(self).clock(), now as int),
            final(self).last_id() == old(self).last_id(),
            r is None <==> !has_id(old(self)@, id as int),
            r matches Some(j) ==> j@.id == id && final(self)@.contains(j@),
    {
        let t = if now > self.clock {
            now
        } else {
            self.clock
        };
        self.clock = t;
        let ghost target = requeued_rows(old(self)@, id as int, t as int);
        match self.position(id) {
            Some(i) => {
                self.jobs[i].state = JobState::New;
                self.jobs[i].last_error = None;
                self.jobs[i].updated_at = t;
                proof {
                    assert forall|k: int| 0 <= k < self@.len() implies self@[k] == target[k] by {
                        if k != i {
                            assert(old(self)@[k].id != id);
                        }
                    }
                    assert(self@ =~= target);
                }
                let j = self.jobs[i].snapshot();
                assert(self@[i as int] == j@);
                Some(j)
            },
            None => {
                assert(self@ =~= target);
                None
            },
        }
    }

    /// Puts every job of `batch_id` back to `new` and clears their errors, in
    /// one step; jobs of other batches are left as they were. Returns the
    /// updated jobs, in creation order.
    pub fn requeue_batch_at(&mut self, batch_id: &str, now: i64) -> (r: Vec<PrintJob>)
        requires
            old(self).wf(),
        ensures
            final(self).wf(),
            final(self)@ == requeued_batch_rows(
                old(self)@,
                batch_id@,
                stamp(old(self).clock(), now as int),
            ),
            final(self).clock() == stamp(old(self).clock(), now as int),
            final(self).last_id() == old(self).last_id(),
            job_views(r@) == batch_members(final(self)@, batch_id@),
    {
        let t = if now > self.clock {
            now
        } else {
            self.clock
        };
        self.clock = t;
        let ghost target = requeued_batch_rows(old(self)@, batch_id@, t as int);
        let ghost pred = |j: JobView| j.batch_id == batch_id@;
        let mut updated: Vec<PrintJob> = Vec::new();
        let mut i: usize = 0;
        while i < self.jobs.len()
            invariant
                old(self).wf(),
                self.clock == t,
                self.last_id == old(self).last_id,
                i <= self@.len(),
                self@.len() == old(self)@.len(),
                self@.len() == self.jobs@.len(),
                target.len() == old(self)@.len(),
                pred == (|j: JobView| j.batch_id == batch_id@),
                target == requeued_batch_rows(old(self)@, batch_id@, t as int),
                t >= old(self).clock,
                forall|k: int| 0 <= k < i ==> self@[k] == target[k],
                forall|k: int| i <= k < self@.len() ==> self@[k] == old(self)@[k],
                job_views(updated@) == target.subrange(0, i as int).filter(pred),
            decreases self.jobs.len() - i,
        {
            let ghost before = job_views(updated@);
            proof {
                assert(target.subrange(0, i + 1) =~= target.subrange(0, i as int).push(target[i as int]));
                target.subrange(0, i as int).lemma_filter_push(target[i as int], pred);
            }
            if same_text(self.jobs[i].batch_id.as_str(), batch_id) {
                self.jobs[i].state = JobState::New;
                self.jobs[i].last_error = None;
                self.jobs[i].updated_at = t;
                let j = self.jobs[i].snapshot();
                updated.push(j);
                assert(job_views(updated@) =~= before.push(j@));
            } else {
                assert(job_views(updated@) =~= before);
            }
            i = i + 1;
        }
        assert(self@ =~= target);
        assert(target.subrange(0, target.len() as int) =~= target);
        assert forall|k: int| 0 <= k < self@.len() implies self@[k].id == old(self)@[k].id
            && self@[k].print_count == old(self)@[k].print_count && self@[k].created_at
            == old(self)@[k].created_at && self@[k].updated_at <= t by {}
        updated
    }

    /// Every job, most recently created first; jobs created at the same time
    /// come in ascending id order.
    pub fn list(&self) -> (r: Vec<PrintJob>)
        requires
            self.wf(),
        ensures
            is_listing(job_views(r@), self@),
    {
        let ghost rows = self@;
        let mut out: Vec<PrintJob> = Vec::new();
        let mut i: usize = 0;
        while i < self.jobs.len()
            invariant
                self.wf(),
                rows == self@,
                rows.len() == self.jobs@.len(),
                i <= rows.len(),
                out@.len() == i,
                forall|q: int|
                    0 <= q < out@.len() ==> rows.subrange(0, i as int).contains(
                        #[trigger] job_views(out@)[q],
                    ),
                forall|m: int|
                    0 <= m < i ==> job_views(out@).contains(#[trigger] rows[m]),
                forall|q: int, k: int|
                    0 <= q < k < out@.len() ==> listed_before(
                        job_views(out@)[q],
                        job_views(out@)[k],
                    ),
            decreases self.jobs.len() - i,
        {
            let ghost ov = job_views(out@);
            let job = &self.jobs[i];
            let ghost x = rows[i as int];
            assert(job@ == x);
            proof {
                assert forall|q: int| 0 <= q < ov.len() implies ov[q].id < x.id by {
                    assert(rows.subrange(0, i as int).contains(ov[q]));
                    let m = choose|m: int| 0 <= m < i && rows.subrange(0, i as int)[m] == ov[q];
                    assert(rows[m] == ov[q]);
                }
            }
            let mut p: usize = 0;
            while p < out.len() && !(job.created_at > out[p].created_at || (job.created_at
                == out[p].created_at && job.id < out[p].id))
                invariant
                    p <= out@.len(),
                    ov == job_views(out@),
                    job@ == x,
                    forall|q: int| 0 <= q < ov.len() ==> ov[q].id < x.id,
                    forall|q: int| 0 <= q < p ==> listed_before(ov[q], x),
                decreases out.len() - p,
            {
                p = p + 1;
            }
            let copy = job.snapshot();
            out.insert(p, copy);
            proof {
                let nv = job_views(out@);
                assert(nv =~= ov.insert(p as int, x));
                let sub = rows.subrange(0, i + 1);
                assert(sub =~= rows.subrange(0, i as int).push(x));
                assert forall|q: int| 0 <= q < nv.len() implies sub.contains(#[trigger] nv[q]) by {
                    if q < p {
                        assert(rows.subrange(0, i as int).contains(ov[q]));
                        let m = choose|m: int| 0 <= m < i && rows.subrange(0, i as int)[m] == ov[q];
                        assert(sub[m] == nv[q]);
                    } else if q == p {
                        assert(sub[i as int] == nv[q]);
                    } else {
                        assert(rows.subrange(0, i as int).contains(ov[q - 1]));
                        let m = choose|m: int|
                            0 <= m < i && rows.subrange(0, i as int)[m] == ov[q - 1];
                        assert(sub[m] == nv[q]);
                    }
                }
                assert forall|m: int| 0 <= m < i + 1 implies nv.contains(#[trigger] rows[m]) by {
                    if m == i {
                        assert(nv[p as int] == rows[m]);
                    } else {
                        assert(ov.contains(rows[m]));
                        let q = choose|q: int| 0 <= q < ov.len() && ov[q] == rows[m];
                        if q < p {
                            assert(nv[q] == rows[m]);
                        } else {
                            assert(nv[q + 1] == rows[m]);
                        }
                    }
                }
                assert forall|a: int, b: int| 0 <= a < b < nv.len() implies listed_before(
                    nv[a],
                    nv[b],
                ) by {
                    if b < p {
                    } else if b == p {
                    } else if a < p {
                    } else if a == p {
                        if b - 1 > p {
                            assert(listed_before(ov[p as int], ov[b - 1]));
                        }
                    } else {
                    }
                }
            }
            i = i + 1;
        }
        assert(rows.subrange(0, rows.len() as int) =~= rows);
        out
    }

    /// A table holding `rows`, as a durable store returns them in id order;
    /// refused when they break the table's invariants.
    pub fn restore(rows: Vec<PrintJob>) -> (r: Result<JobQueue, QueueError>)
        ensures
            r is Ok <==> rows_valid(job_views(rows@)),
            match r {
                Ok(q) => {
                    &&& q.wf()
                    &&& q@ == job_views(rows@)
                    &&& q.last_id() == restored_last_id(job_views(rows@))
                    &&& q.clock() == latest_update(job_views(rows@))
                },
                Err(e) => e == QueueError::MalformedRows,
            },
    {
        let ghost v = job_views(rows@);
        let mut clock: i64 = i64::MIN;
        let mut i: usize = 0;
        while i < rows.len()
            invariant
                v == job_views(rows@),
                v.len() == rows@.len(),
                i <= v.len(),
                rows_valid(v.subrange(0, i as int)),
                clock == latest_update(v.subrange(0, i as int)),
                forall|k: int| 0 <= k < i ==> v[k].updated_at <= clock,
            decreases rows.len() - i,
        {
            let j = &rows[i];
            assert(v[i as int] == j@);
            if j.print_count < 0 || j.created_at > j.updated_at {
                assert(!rows_valid(v));
                return Err(QueueError::MalformedRows);
            }
            if i > 0 && rows[i - 1].id >= j.id {
                assert(v[i - 1] == rows@[i - 1]@);
                assert(!rows_valid(v));
                return Err(QueueError::MalformedRows);
            }
            proof {
                let sub = v.subrange(0, i + 1);
                assert(sub.drop_last() =~= v.subrange(0, i as int));
                assert forall|a: int, b: int| 0 <= a < b < sub.len() implies sub[a].id < sub[b].id by {
                    if b == i && a < i - 1 {
                        assert(v.subrange(0, i as int)[a].id < v.subrange(0, i as int)[i - 1].id);
                    }
                }
            }
            if j.updated_at > clock {
                clock = j.updated_at;
            }
            i = i + 1;
        }
        assert(v.subrange(0, v.len() as int) =~= v);
        let last_id: i64 = if rows.len() == 0 || rows[rows.len() - 1].id < 0 {
            0
        } else {
            rows[rows.len() - 1].id
        };
        let q = JobQueue { jobs: rows, last_id, clock };
        proof {
            assert forall|k: int| 0 <= k < q@.len() implies q@[k].id <= last_id by {
                if k < q@.len() - 1 {
                    assert(v[k].id < v[v.len() - 1].id);
                }
            }
        }
        Ok(q)
    }
}


/// A transition to a legal state stores exactly that state, the given error
/// and the transition's time on the addressed job, raises its print count by
/// one only when asked, and leaves every other job as it was.
pub proof fn lemma_transition_stores_state(
    rows: Seq<JobView>,
    id: int,
    state: JobState,
    last_error: Option<Seq<char>>,
    increment: bool,
    t: int,
)
    ensures
        moved_rows(rows, id, state, last_error, increment, t).len() == rows.len(),
        forall|k: int|
            0 <= k < rows.len() && rows[k].id == id ==> {
                let j = #[trigger] moved_rows(rows, id, state, last_error, increment, t)[k];
                &&& j.state == state
                &&& j.last_error == last_error
                &&& j.updated_at == t
                &&& j.print_count == rows[k].print_count + if increment {
                    1int
                } else {
                    0int
                }
                &&& j.id == rows[k].id && j.batch_id == rows[k].batch_id
                &&& j.payload == rows[k].payload && j.created_at == rows[k].created_at
            },
        forall|k: int|
            0 <= k < rows.len() && rows[k].id != id ==> #[trigger] moved_rows(
                rows,
                id,
                state,
                last_error,
                increment,
                t,
            )[k] == rows[k],
{
}

/// Requeueing a job twice in a row leaves the table as requeueing it once,
/// at the time of the second call: the job is `new`, without error, and keeps
/// its print count.
pub proof fn lemma_requeue_idempotent(rows: Seq<JobView>, id: int, t1: int, t2: int)
    ensures
        requeued_rows(requeued_rows(rows, id, t1), id, t2) == requeued_rows(rows, id, t2),
        forall|k: int|
            0 <= k < rows.len() && rows[k].id == id ==> {
                let j = #[trigger] requeued_rows(rows, id, t2)[k];
                j.state == JobState::New && j.last_error is None && j.print_count
                    == rows[k].print_count
            },
{
    assert(requeued_rows(requeued_rows(rows, id, t1), id, t2) =~= requeued_rows(rows, id, t2));
}

/// Requeueing a batch resets every job of that batch, keeping its print
/// count, and leaves the jobs of all other batches untouched; the jobs it
/// reports are exactly the batch's jobs.
pub proof fn lemma_requeue_batch_scope(rows: Seq<JobView>, batch_id: Seq<char>, t: int)
    ensures
        requeued_batch_rows(rows, batch_id, t).len() == rows.len(),
        forall|k: int|
            0 <= k < rows.len() && rows[k].batch_id == batch_id ==> {
                let j = #[trigger] requeued_batch_rows(rows, batch_id, t)[k];
                &&& j.state == JobState::New
                &&& j.last_error is None
                &&& j.print_count == rows[k].print_count
                &&& j.id == rows[k].id
                &&& j.batch_id == batch_id
            },
        forall|k: int|
            0 <= k < rows.len() && rows[k].batch_id != batch_id ==> #[trigger] requeued_batch_rows(
                rows,
                batch_id,
                t,
            )[k] == rows[k],
        batch_members(requeued_batch_rows(rows, batch_id, t), batch_id).len() == batch_members(
            rows,
            batch_id,
        ).len(),
{
    let after = requeued_batch_rows(rows, batch_id, t);
    lemma_members_count(rows, after, batch_id);
}

/// Two tables that agree on which positions hold a batch's jobs have
/// equally many of them.
proof fn lemma_members_count(a: Seq<JobView>, b: Seq<JobView>, batch_id: Seq<char>)
    requires
        a.len() == b.len(),
        forall|k: int| 0 <= k < a.len() ==> (a[k].batch_id == batch_id <==> b[k].batch_id == batch_id),
    ensures
        batch_members(a, batch_id).len() == batch_members(b, batch_id).len(),
    decreases a.len(),
{
    reveal(Seq::filter);
    if a.len() > 0 {
        lemma_members_count(a.drop_last(), b.drop_last(), batch_id);
    }
}

/// A created job always starts in `new`, with a print count of 0 and no
/// error, whoever submitted it.
pub proof fn lemma_fresh_job_starts_new(
    id: int,
    batch_id: Seq<char>,
    requested_by: Seq<char>,
    payload: Seq<char>,
    t: int,
)
    ensures
        fresh_job(id, batch_id, requested_by, payload, t).state == JobState::New,
        fresh_job(id, batch_id, requested_by, payload, t).print_count == 0,
        fresh_job(id, batch_id, requested_by, payload, t).last_error is None,
        fresh_job(id, batch_id, requested_by, payload, t).created_at == fresh_job(
            id,
            batch_id,
            requested_by,
            payload,
            t,
        ).updated_at,
{
}

/// A listing is fully determined by the table: any two listings of the same
/// rows are equal, so ties in creation time are never broken arbitrarily.
pub proof fn lemma_listing_unique(rows: Seq<JobView>, a: Seq<JobView>, b: Seq<JobView>)
    requires
        is_listing(a, rows),
        is_listing(b, rows),
    ensures
        a == b,
{
    assert forall|i: int| 0 <= i < a.len() implies a[i] == b[i] by {
        lemma_listing_agrees_upto(rows, a, b, i);
    }
    assert(a =~= b);
}

proof fn lemma_listing_agrees_upto(rows: Seq<JobView>, a: Seq<JobView>, b: Seq<JobView>, i: int)
    requires
        is_listing(a, rows),
        is_listing(b, rows),
        0 <= i < a.len(),
    ensures
        forall|k: int| 0 <= k <= i ==> a[k] == b[k],
    decreases i,
{
    if i > 0 {
        lemma_listing_agrees_upto(rows, a, b, i - 1);
    }
    if a[i] != b[i] {
        assert(rows.contains(a[i]));
        let r = choose|r: int| 0 <= r < rows.len() && rows[r] == a[i];
        assert(b.contains(rows[r]));
        let j = choose|j: int| 0 <= j < b.len() && b[j] == a[i];
        assert(rows.contains(b[i]));
        let r2 = choose|r2: int| 0 <= r2 < rows.len() && rows[r2] == b[i];
        assert(a.contains(rows[r2]));
        let m = choose|m: int| 0 <= m < a.len() && a[m] == b[i];
        if j < i {
            assert(a[j] == b[j]);
            assert(listed_before(a[j], a[i]));
        }
        if m < i {
            assert(a[m] == b[m]);
            assert(listed_before(b[m], b[i]));
        }
        assert(listed_before(b[i], b[j]));
        assert(listed_before(a[i], a[m]));
    }
}

} // verus!
