//! The queue's operations as callers invoke them: each write is stamped with
//! the current time.
use vstd::prelude::*;
use crate::clock::current_micros;
use crate::job::{state_named, text_of, job_views, PrintJob};
use crate::queue::{
    batch_members, count_saturated, fresh_job, has_id, is_listing, moved_rows,
    requeued_batch_rows, requeued_rows, JobQueue, QueueError,
};

verus! {

/// Stores a new job in state `new` under the next id, created and updated now.
pub fn insert_print_job(queue: &mut JobQueue, batch_id: &str, requested_by: &str, payload: &str) -> (r:
    Result<PrintJob, QueueError>)
    requires
        old(queue).wf(),
    ensures
        final(queue).wf(),
        r is Ok <==> old(queue).last_id() < i64::MAX,
        match r {
            Ok(job) => {
                &&& job@ == fresh_job(
                    old(queue).last_id() + 1,
                    batch_id@,
                    requested_by@,
                    payload@,
                    job@.created_at,
                )
                &&& job@.created_at >= old(queue).clock()
                &&& final(queue)@ == old(queue)@.push(job@)
            },
            Err(e) => e == QueueError::IdsExhausted && final(queue)@ == old(queue)@,
        },
{
    let now = current_micros();
    queue.create_at(batch_id, requested_by, payload, now)
}

/// Creates a job for an in-process caller. The payload is taken as given:
/// blank payloads are refused only at the network boundary.
pub fn create_print_job(queue: &mut JobQueue, batch_id: String, requested_by: String, payload: String) -> (r:
    Result<PrintJob, QueueError>)
    requires
        old(queue).wf(),
    ensures
        final(queue).wf(),
        r is Ok <==> old(queue).last_id() < i64::MAX,
        match r {
            Ok(job) => {
                &&& job@ == fresh_job(
                    old(queue).last_id() + 1,
                    batch_id@,
                    requested_by@,
                    payload@,
                    job@.created_at,
                )
                &&& job@.created_at >= old(queue).clock()
                &&& final(queue)@ == old(queue)@.push(job@)
            },
            Err(e) => e == QueueError::IdsExhausted && final(queue)@ == old(queue)@,
        },
{
    insert_print_job(queue, batch_id.as_str(), requested_by.as_str(), payload.as_str())
}

/// Every job, most recently created first, ties in ascending id order.
pub fn list_print_jobs(queue: &JobQueue) -> (r: Vec<PrintJob>)
    requires
        queue.wf(),
    ensures
        is_listing(job_views(r@), queue@),
{
    queue.list()
}

/// Moves job `id` to the state named `state`, now. See
/// [`JobQueue::transition_at`].
pub fn update_print_job_state(
    queue: &mut JobQueue,
    id: i64,
    state: String,
    last_error: Option<String>,
    increment_count: bool,
) -> (r: Result<Option<PrintJob>, QueueError>)
    requires
        old(queue).wf(),
    ensures
        final(queue).wf(),
        state_named(state@) is None ==> r == Err::<Option<PrintJob>, QueueError>(
            QueueError::InvalidState,
        ),
        state_named(state@) is Some && increment_count && count_saturated(old(queue)@, id as int)
            ==> r == Err::<Option<PrintJob>, QueueError>(QueueError::PrintCountOverflow),
        r is Ok <==> state_named(state@) is Some && !(increment_count && count_saturated(
            old(queue)@,
            id as int,
        )),
        r is Err ==> final(queue)@ == old(queue)@,
        r is Ok ==> exists|t: int|
            t >= old(queue).clock() && final(queue)@ == moved_rows(
                old(queue)@,
                id as int,
                state_named(state@)->0,
                text_of(last_error),
                increment_count,
                t,
            ),
        r matches Ok(None) ==> !has_id(old(queue)@, id as int),
        r matches Ok(Some(j)) ==> j@.id == id && final(queue)@.contains(j@),
{
    let now = current_micros();
    queue.transition_at(id, state.as_str(), last_error, increment_count, now)
}

/// Puts job `id` back to `new` and clears its error, now.
pub fn requeue_job(queue: &mut JobQueue, id: i64) -> (r: Option<PrintJob>)
    requires
        old(queue).wf(),
    ensures
        final(queue).wf(),
        exists|t: int|
            t >= old(queue).clock() && final(queue)@ == requeued_rows(old(queue)@, id as int, t),
        r is None <==> !has_id(old(queue)@, id as int),
        r matches Some(j) ==> j@.id == id && final(queue)@.contains(j@),
{
    let now = current_micros();
    queue.requeue_one_at(id, now)
}

/// Puts every job of `batch_id` back to `new` and clears their errors, now,
/// in one step. Returns the updated jobs.
pub fn requeue_batch(queue: &mut JobQueue, batch_id: String) -> (r: Vec<PrintJob>)
    requires
        old(queue).wf(),
    ensures
        final(queue).wf(),
        exists|t: int|
            t >= old(queue).clock() && final(queue)@ == requeued_batch_rows(
                old(queue)@,
                batch_id@,
                t,
            ),
        job_views(r@) == batch_members(final(queue)@, batch_id@),
{
    let now = current_micros();
    queue.requeue_batch_at(batch_id.as_str(), now)
}

} // verus!
