use print_queue::ingest::{
    batch_id_for, collect_payloads, handle_print_request, is_print_route, listen_port, submit,
    IngestOutcome, PrintApiPayload, RequestBody, DEFAULT_PORT,
};
use print_queue::job::{JobState, PrintJob};
use print_queue::queue::{JobQueue, QueueError};

// 2023-11-14T22:13:20Z
const NOW: i64 = 1_700_000_000_000_000;

fn payload(jobs: Option<Vec<&str>>, single: Option<&str>) -> PrintApiPayload {
    PrintApiPayload {
        batch_id: None,
        requested_by: None,
        payload: single.map(|s| s.to_string()),
        jobs: jobs.map(|v| v.into_iter().map(|s| s.to_string()).collect()),
    }
}

#[test]
fn three_jobs_share_a_generated_batch() {
    let mut q = JobQueue::new();
    let body = RequestBody::Decoded(payload(Some(vec!["A", "B", "C"]), None));
    let out = handle_print_request(&mut q, "POST", "/print", body, NOW);
    assert_eq!(out.status_code(), 200);
    let jobs = match out {
        IngestOutcome::Accepted(jobs) => jobs,
        _ => panic!("expected the jobs to be accepted"),
    };
    let payloads: Vec<&str> = jobs.iter().map(|j| j.payload.as_str()).collect();
    assert_eq!(payloads, vec!["A", "B", "C"]);
    assert!(jobs[0].id < jobs[1].id && jobs[1].id < jobs[2].id);
    for j in &jobs {
        assert_eq!(j.batch_id, "api-20231114221320");
        assert_eq!(j.requested_by, "remote");
        assert_eq!(j.state, JobState::New);
        assert_eq!(j.print_count, 0);
        assert_eq!(j.last_error, None);
    }
    assert_eq!(q.len(), 3);
}

#[test]
fn blank_payload_is_refused() {
    let mut q = JobQueue::new();
    let body = RequestBody::Decoded(payload(None, Some("")));
    let out = handle_print_request(&mut q, "POST", "/print", body, NOW);
    assert_eq!(out.status_code(), 400);
    assert!(matches!(out, IngestOutcome::NoPayloads));
    assert_eq!(q.len(), 0);
}

#[test]
fn invalid_json_is_refused() {
    let mut q = JobQueue::new();
    let body = RequestBody::InvalidJson("expected value at line 1 column 1".to_string());
    let out = handle_print_request(&mut q, "POST", "/print", body, NOW);
    assert_eq!(out.status_code(), 400);
    match out {
        IngestOutcome::InvalidJson(msg) => assert_eq!(msg, "expected value at line 1 column 1"),
        _ => panic!("expected an invalid-JSON answer"),
    }
    assert_eq!(q.len(), 0);
}

#[test]
fn unreadable_body_is_refused() {
    let mut q = JobQueue::new();
    let out = handle_print_request(
        &mut q,
        "POST",
        "/print",
        RequestBody::Unreadable("stream closed".to_string()),
        NOW,
    );
    assert_eq!(out.status_code(), 400);
    assert!(matches!(out, IngestOutcome::UnreadableBody(_)));
    assert_eq!(q.len(), 0);
}

#[test]
fn other_routes_are_not_found() {
    let mut q = JobQueue::new();
    for (method, url) in [("GET", "/print"), ("POST", "/jobs"), ("POST", "/print/"), ("post", "/print")] {
        let body = RequestBody::Decoded(payload(Some(vec!["A"]), None));
        let out = handle_print_request(&mut q, method, url, body, NOW);
        assert_eq!(out.status_code(), 404);
        assert!(matches!(out, IngestOutcome::NotFound));
    }
    assert_eq!(q.len(), 0);
    assert!(is_print_route("POST", "/print"));
    assert!(!is_print_route("PUT", "/print"));
}

#[test]
fn failure_midway_keeps_earlier_jobs() {
    let seed = PrintJob {
        id: i64::MAX - 1,
        batch_id: "old".to_string(),
        requested_by: "x".to_string(),
        payload: "p".to_string(),
        state: JobState::Done,
        print_count: 1,
        last_error: None,
        created_at: 5,
        updated_at: 5,
    };
    let mut q = JobQueue::restore(vec![seed]).unwrap();
    let mut req = payload(Some(vec!["first", "second", "third"]), None);
    req.batch_id = Some("night-run".to_string());
    let out = handle_print_request(&mut q, "POST", "/print", RequestBody::Decoded(req), NOW);
    assert_eq!(out.status_code(), 500);
    match out {
        IngestOutcome::EnqueueFailed(e, created) => {
            assert_eq!(e, QueueError::IdsExhausted);
            assert_eq!(created.len(), 1);
            assert_eq!(created[0].payload, "first");
        }
        _ => panic!("expected a failed submission"),
    }
    let in_batch: Vec<PrintJob> =
        q.list().into_iter().filter(|j| j.batch_id == "night-run").collect();
    assert_eq!(in_batch.len(), 1);
    assert_eq!(in_batch[0].payload, "first");
    assert_eq!(in_batch[0].id, i64::MAX);
}

#[test]
fn payloads_are_jobs_then_single() {
    let req = payload(Some(vec!["A", "  ", "\t\n", "B", "\u{3000}"]), Some("C"));
    assert_eq!(collect_payloads(&req), vec!["A".to_string(), "B".to_string(), "C".to_string()]);
    let blank_single = payload(Some(vec!["A"]), Some(" \u{2003} "));
    assert_eq!(collect_payloads(&blank_single), vec!["A".to_string()]);
    let padded = payload(None, Some("  x  "));
    assert_eq!(collect_payloads(&padded), vec!["  x  ".to_string()]);
    let nothing = payload(None, None);
    assert!(collect_payloads(&nothing).is_empty());
}

#[test]
fn submission_uses_given_batch_and_requester() {
    let mut q = JobQueue::new();
    let req = PrintApiPayload {
        batch_id: Some("mine".to_string()),
        requested_by: Some("scanner-2".to_string()),
        payload: Some("only".to_string()),
        jobs: None,
    };
    let out = submit(&mut q, req, "unused", 77);
    match out {
        IngestOutcome::Accepted(jobs) => {
            assert_eq!(jobs.len(), 1);
            assert_eq!(jobs[0].batch_id, "mine");
            assert_eq!(jobs[0].requested_by, "scanner-2");
            assert_eq!(jobs[0].created_at, 77);
        }
        _ => panic!("expected the job to be accepted"),
    }
    let out = submit(&mut q, payload(Some(vec!["z"]), None), "fallback", 78);
    match out {
        IngestOutcome::Accepted(jobs) => assert_eq!(jobs[0].batch_id, "fallback"),
        _ => panic!("expected the job to be accepted"),
    }
}

#[test]
fn generated_batch_ids() {
    assert_eq!(batch_id_for(0), "api-19700101000000");
    assert_eq!(batch_id_for(NOW), "api-20231114221320");
    assert_eq!(batch_id_for(NOW + 999_999), "api-20231114221320");
}

#[test]
fn listen_port_settings() {
    assert_eq!(DEFAULT_PORT, 3333);
    assert_eq!(listen_port(None), 3333);
    assert_eq!(listen_port(Some("8080")), 8080);
    assert_eq!(listen_port(Some("+81")), 81);
    assert_eq!(listen_port(Some("0")), 0);
    assert_eq!(listen_port(Some("65535")), 65535);
    assert_eq!(listen_port(Some("65536")), 3333);
    assert_eq!(listen_port(Some("-1")), 3333);
    assert_eq!(listen_port(Some(" 80")), 3333);
    assert_eq!(listen_port(Some("")), 3333);
    assert_eq!(listen_port(Some("http")), 3333);
}
