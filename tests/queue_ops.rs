use print_queue::job::{validate_state, JobState, PrintJob};
use print_queue::queue::{JobQueue, QueueError};
use print_queue::service::{
    create_print_job, insert_print_job, list_print_jobs, requeue_batch, requeue_job,
    update_print_job_state,
};

fn row(id: i64, batch: &str, created_at: i64, updated_at: i64) -> PrintJob {
    PrintJob {
        id,
        batch_id: batch.to_string(),
        requested_by: "tester".to_string(),
        payload: format!("payload-{id}"),
        state: JobState::Printing,
        print_count: 2,
        last_error: Some("paper jam".to_string()),
        created_at,
        updated_at,
    }
}

#[test]
fn state_names_are_validated() {
    assert!(validate_state("new"));
    assert!(validate_state("printing"));
    assert!(validate_state("done"));
    assert!(!validate_state("NEW"));
    assert!(!validate_state("paused"));
    assert!(!validate_state(""));
    assert_eq!(JobState::parse("done"), Some(JobState::Done));
    assert_eq!(JobState::parse("done "), None);
    assert_eq!(JobState::Printing.as_str(), "printing");
}

#[test]
fn created_job_starts_new() {
    let mut q = JobQueue::new();
    let job = q.create_at("b1", "desk", "hello", 100).unwrap();
    assert_eq!(job.id, 1);
    assert_eq!(job.batch_id, "b1");
    assert_eq!(job.requested_by, "desk");
    assert_eq!(job.payload, "hello");
    assert_eq!(job.state, JobState::New);
    assert_eq!(job.print_count, 0);
    assert_eq!(job.last_error, None);
    assert_eq!(job.created_at, 100);
    assert_eq!(job.updated_at, 100);
    let second = q.create_at("b1", "desk", "", 90).unwrap();
    assert_eq!(second.id, 2);
    assert_eq!(second.payload, "");
    // time inside the table never runs backwards
    assert_eq!(second.created_at, 100);
    assert_eq!(q.len(), 2);
}

#[test]
fn transition_stores_legal_states() {
    let mut q = JobQueue::new();
    let job = q.create_at("b1", "desk", "x", 100).unwrap();
    let moved = q
        .transition_at(job.id, "printing", Some("low toner".to_string()), true, 200)
        .unwrap()
        .unwrap();
    assert_eq!(moved.state, JobState::Printing);
    assert_eq!(moved.print_count, 1);
    assert_eq!(moved.last_error.as_deref(), Some("low toner"));
    assert_eq!(moved.updated_at, 200);
    assert_eq!(moved.created_at, 100);
    // any state may follow any other, including straight to done
    let done = q.transition_at(job.id, "done", None, false, 300).unwrap().unwrap();
    assert_eq!(done.state, JobState::Done);
    assert_eq!(done.print_count, 1);
    assert_eq!(done.last_error, None);
    assert_eq!(done.updated_at, 300);
    let back = q.transition_at(job.id, "new", None, true, 400).unwrap().unwrap();
    assert_eq!(back.state, JobState::New);
    assert_eq!(back.print_count, 2);
}

#[test]
fn transition_refuses_unknown_state() {
    let mut q = JobQueue::new();
    let job = q.create_at("b1", "desk", "x", 100).unwrap();
    let r = q.transition_at(job.id, "paused", Some("e".to_string()), true, 500);
    assert_eq!(r.unwrap_err(), QueueError::InvalidState);
    let after = q.get(job.id).unwrap();
    assert_eq!(after.state, JobState::New);
    assert_eq!(after.updated_at, 100);
    assert_eq!(after.print_count, 0);
    assert_eq!(after.last_error, None);
}

#[test]
fn transition_of_unknown_id_changes_nothing() {
    let mut q = JobQueue::new();
    q.create_at("b1", "desk", "x", 100).unwrap();
    let r = q.transition_at(42, "done", None, true, 200).unwrap();
    assert!(r.is_none());
    let job = q.get(1).unwrap();
    assert_eq!(job.state, JobState::New);
    assert_eq!(job.updated_at, 100);
    assert!(q.get(42).is_none());
}

#[test]
fn transition_refuses_count_overflow() {
    let mut full = row(5, "b", 10, 10);
    full.print_count = i64::MAX;
    let mut q = JobQueue::restore(vec![full]).unwrap();
    let r = q.transition_at(5, "done", None, true, 20);
    assert_eq!(r.unwrap_err(), QueueError::PrintCountOverflow);
    assert_eq!(q.get(5).unwrap().state, JobState::Printing);
    // without an increment the same transition goes through
    let ok = q.transition_at(5, "done", None, false, 20).unwrap().unwrap();
    assert_eq!(ok.state, JobState::Done);
    assert_eq!(ok.print_count, i64::MAX);
}

#[test]
fn requeue_twice_equals_once() {
    let mut q = JobQueue::restore(vec![row(1, "b", 10, 10), row(2, "b", 10, 10)]).unwrap();
    let once = q.requeue_one_at(1, 50).unwrap();
    assert_eq!(once.state, JobState::New);
    assert_eq!(once.last_error, None);
    assert_eq!(once.print_count, 2);
    assert_eq!(once.updated_at, 50);
    let twice = q.requeue_one_at(1, 50).unwrap();
    assert_eq!(twice.state, once.state);
    assert_eq!(twice.last_error, once.last_error);
    assert_eq!(twice.print_count, once.print_count);
    assert_eq!(twice.updated_at, once.updated_at);
    // the other job was not touched
    let other = q.get(2).unwrap();
    assert_eq!(other.state, JobState::Printing);
    assert_eq!(other.last_error.as_deref(), Some("paper jam"));
    assert_eq!(other.updated_at, 10);
}

#[test]
fn requeue_unknown_id_is_a_no_op() {
    let mut q = JobQueue::restore(vec![row(1, "b", 10, 10)]).unwrap();
    assert!(q.requeue_one_at(9, 50).is_none());
    assert_eq!(q.get(1).unwrap().state, JobState::Printing);
}

#[test]
fn requeue_batch_resets_only_that_batch() {
    let mut q = JobQueue::restore(vec![
        row(1, "alpha", 10, 10),
        row(2, "beta", 11, 11),
        row(3, "alpha", 12, 12),
        row(4, "alpha", 13, 13),
    ])
    .unwrap();
    let reset = q.requeue_batch_at("alpha", 100);
    let ids: Vec<i64> = reset.iter().map(|j| j.id).collect();
    assert_eq!(ids, vec![1, 3, 4]);
    for id in [1, 3, 4] {
        let j = q.get(id).unwrap();
        assert_eq!(j.state, JobState::New);
        assert_eq!(j.last_error, None);
        assert_eq!(j.print_count, 2);
        assert_eq!(j.updated_at, 100);
    }
    let beta = q.get(2).unwrap();
    assert_eq!(beta.state, JobState::Printing);
    assert_eq!(beta.last_error.as_deref(), Some("paper jam"));
    assert_eq!(beta.updated_at, 11);
    // an unknown batch resets nothing
    assert!(q.requeue_batch_at("gamma", 200).is_empty());
    assert_eq!(q.get(2).unwrap().state, JobState::Printing);
}

#[test]
fn listing_is_newest_first_with_ties_by_id() {
    let q = JobQueue::restore(vec![
        row(1, "b", 100, 100),
        row(2, "b", 300, 300),
        row(3, "b", 200, 200),
        row(4, "b", 300, 300),
        row(5, "b", 100, 150),
    ])
    .unwrap();
    let ids: Vec<i64> = q.list().iter().map(|j| j.id).collect();
    assert_eq!(ids, vec![2, 4, 3, 1, 5]);
    let again: Vec<i64> = list_print_jobs(&q).iter().map(|j| j.id).collect();
    assert_eq!(again, ids);
}

#[test]
fn listing_empty_table() {
    let q = JobQueue::new();
    assert!(q.list().is_empty());
    assert_eq!(q.len(), 0);
}

#[test]
fn restore_refuses_malformed_rows() {
    let out_of_order = JobQueue::restore(vec![row(2, "b", 1, 1), row(1, "b", 1, 1)]);
    assert_eq!(out_of_order.err().unwrap(), QueueError::MalformedRows);
    let duplicate = JobQueue::restore(vec![row(2, "b", 1, 1), row(2, "b", 1, 1)]);
    assert_eq!(duplicate.err().unwrap(), QueueError::MalformedRows);
    let updated_before_created = JobQueue::restore(vec![row(1, "b", 5, 4)]);
    assert_eq!(updated_before_created.err().unwrap(), QueueError::MalformedRows);
    let mut negative = row(1, "b", 1, 1);
    negative.print_count = -1;
    assert_eq!(JobQueue::restore(vec![negative]).err().unwrap(), QueueError::MalformedRows);
}

#[test]
fn restored_table_continues_ids_and_clock() {
    let mut q = JobQueue::restore(vec![row(3, "b", 10, 70), row(8, "b", 20, 20)]).unwrap();
    let job = q.create_at("c", "desk", "p", 50).unwrap();
    assert_eq!(job.id, 9);
    assert_eq!(job.created_at, 70);
}

#[test]
fn ids_run_out_at_the_largest_id() {
    let mut q = JobQueue::restore(vec![row(i64::MAX - 1, "b", 1, 1)]).unwrap();
    let last = q.create_at("b", "desk", "p", 5).unwrap();
    assert_eq!(last.id, i64::MAX);
    let r = q.create_at("b", "desk", "p", 5);
    assert_eq!(r.unwrap_err(), QueueError::IdsExhausted);
    assert_eq!(q.len(), 2);
}

#[test]
fn commands_stamp_with_the_clock() {
    let mut q = JobQueue::new();
    let a = create_print_job(&mut q, "b".to_string(), "desk".to_string(), "one".to_string()).unwrap();
    let b = insert_print_job(&mut q, "b", "desk", "two").unwrap();
    assert_eq!((a.id, b.id), (1, 2));
    assert!(a.created_at > 0);
    assert_eq!(a.created_at, a.updated_at);
    assert!(b.created_at >= a.created_at);
    let moved = update_print_job_state(&mut q, 1, "printing".to_string(), None, true)
        .unwrap()
        .unwrap();
    assert_eq!(moved.state, JobState::Printing);
    assert_eq!(moved.print_count, 1);
    assert!(moved.updated_at >= a.created_at);
    let refused = update_print_job_state(&mut q, 1, "lost".to_string(), None, false);
    assert_eq!(refused.unwrap_err(), QueueError::InvalidState);
    let requeued = requeue_job(&mut q, 1).unwrap();
    assert_eq!(requeued.state, JobState::New);
    assert_eq!(requeued.print_count, 1);
    let batch = requeue_batch(&mut q, "b".to_string());
    assert_eq!(batch.len(), 2);
    let listed = list_print_jobs(&q);
    assert_eq!(listed.len(), 2);
}
