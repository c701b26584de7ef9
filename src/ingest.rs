//! The ingestion endpoint's decisions: which requests are served, which
//! payloads a submission carries, and how a submission becomes jobs.
use vstd::prelude::*;
use crate::clock::{compact_utc, utc_compact, LAST_FOUR_DIGIT_YEAR_MICROS};
use crate::job::{job_views, text_of, PrintJob, JobView};
use crate::queue::{fresh_job, stamp, JobQueue, QueueError};
use crate::text::{all_digits, blank, is_blank, same_text, texts};

verus! {

/// A decoded submission. Absent fields are `None`.
pub struct PrintApiPayload {
    pub batch_id: Option<String>,
    pub requested_by: Option<String>,
    pub payload: Option<String>,
    pub jobs: Option<Vec<String>>,
}

/// What became of a request's body before it reached the queue.
pub enum RequestBody {
    /// The body could not be read.
    Unreadable(String),
    /// The body is not valid JSON of the expected shape.
    InvalidJson(String),
    /// The body was decoded.
    Decoded(PrintApiPayload),
}

/// How a request was answered.
pub enum IngestOutcome {
    /// Not `POST /print`.
    NotFound,
    /// The body could not be read.
    UnreadableBody(String),
    /// The body did not decode.
    InvalidJson(String),
    /// No non-blank payload was submitted.
    NoPayloads,
    /// A job could not be created; the jobs created before it stay stored.
    EnqueueFailed(QueueError, Vec<PrintJob>),
    /// Every payload became a job, in submission order.
    Accepted(Vec<PrintJob>),
}

/// The requester recorded when a submission names none.
pub open spec fn remote_requester() -> Seq<char> {
    seq!['r', 'e', 'm', 'o', 't', 'e']
}

/// What every generated batch id starts with.
pub open spec fn generated_batch_prefix() -> Seq<char> {
    seq!['a', 'p', 'i', '-']
}

/// The HTTP method that is served.
pub open spec fn served_method() -> Seq<char> {
    seq!['P', 'O', 'S', 'T']
}

/// The path that is served.
pub open spec fn served_path() -> Seq<char> {
    seq!['/', 'p', 'r', 'i', 'n', 't']
}

/// The characters of an optional list of strings.
pub open spec fn texts_of(o: Option<Vec<String>>) -> Option<Seq<Seq<char>>> {
    match o {
        Some(v) => Some(texts(v@)),
        None => None,
    }
}

/// The payloads a submission carries: the non-blank entries of `jobs`, in
/// order, then `payload` if it is present and not blank.
pub open spec fn effective_payloads(jobs: Option<Seq<Seq<char>>>, payload: Option<Seq<char>>) -> Seq<
    Seq<char>,
> {
    let listed = match jobs {
        Some(js) => js.filter(|j: Seq<char>| !blank(j)),
        None => Seq::empty(),
    };
    if payload is Some && !blank(payload->0) {
        listed.push(payload->0)
    } else {
        listed
    }
}

/// The payloads of a decoded submission.
pub open spec fn payloads_of(req: PrintApiPayload) -> Seq<Seq<char>> {
    effective_payloads(texts_of(req.jobs), text_of(req.payload))
}

/// The jobs created for `payloads`, with consecutive ids from `first_id`.
pub open spec fn submitted_jobs(
    first_id: int,
    batch_id: Seq<char>,
    requested_by: Seq<char>,
    payloads: Seq<Seq<char>>,
    t: int,
) -> Seq<JobView> {
    Seq::new(
        payloads.len(),
        |i: int| fresh_job(first_id + i, batch_id, requested_by, payloads[i], t),
    )
}

/// The batch a submission files its jobs under.
pub open spec fn batch_of(req: PrintApiPayload, default_batch: Seq<char>) -> Seq<char> {
    match req.batch_id {
        Some(b) => b@,
        None => default_batch,
    }
}

/// The requester a submission records.
pub open spec fn requester_of(req: PrintApiPayload) -> Seq<char> {
    match req.requested_by {
        Some(r) => r@,
        None => remote_requester(),
    }
}

/// The effect of submitting `req` at `now` to the table `before`, leaving
/// `after` and answering `r`: with no payload nothing is created; otherwise
/// one job per payload is created in order, sharing one batch and one time,
/// until ids run out, and the jobs created before a failure stay stored.
pub open spec fn submission_effect(
    before: JobQueue,
    after: JobQueue,
    req: PrintApiPayload,
    default_batch: Seq<char>,
    now: int,
    r: IngestOutcome,
) -> bool {
    let payloads = payloads_of(req);
    let room = i64::MAX - before.last_id();
    let made = |n: int|
        submitted_jobs(
            before.last_id() + 1,
            batch_of(req, default_batch),
            requester_of(req),
            payloads.subrange(0, n),
            stamp(before.clock(), now),
        );
    if payloads.len() == 0 {
        r is NoPayloads && after@ == before@ && after.last_id() == before.last_id()
    } else if payloads.len() <= room {
        &&& r matches IngestOutcome::Accepted(jobs) && job_views(jobs@) == made(payloads.len() as int)
        &&& after@ == before@ + made(payloads.len() as int)
        &&& after.last_id() == before.last_id() + payloads.len()
    } else {
        &&& r matches IngestOutcome::EnqueueFailed(e, jobs) && e == QueueError::IdsExhausted
            && job_views(jobs@) == made(room)
        &&& after@ == before@ + made(room)
        &&& after.last_id() == i64::MAX
    }
}

/// The payloads that `req` carries, in order.
pub fn collect_payloads(req: &PrintApiPayload) -> (r: Vec<String>)
    ensures
        texts(r@) == payloads_of(*req),
{
    let ghost keep = |j: Seq<char>| !blank(j);
    let mut out: Vec<String> = Vec::new();
    match &req.jobs {
        Some(jobs) => {
            let ghost js = texts(jobs@);
            let mut i: usize = 0;
            while i < jobs.len()
                invariant
                    js == texts(jobs@),
                    i <= jobs@.len(),
                    keep == (|j: Seq<char>| !blank(j)),
                    texts(out@) == js.subrange(0, i as int).filter(keep),
                decreases jobs.len() - i,
            {
                proof {
                    assert(js.subrange(0, i + 1) =~= js.subrange(0, i as int).push(js[i as int]));
                    js.subrange(0, i as int).lemma_filter_push(js[i as int], keep);
                }
                let ghost before = texts(out@);
                if !is_blank(jobs[i].as_str()) {
                    out.push(jobs[i].clone());
                    assert(texts(out@) =~= before.push(js[i as int]));
                } else {
                    assert(texts(out@) =~= before);
                }
                i = i + 1;
            }
            assert(js.subrange(0, js.len() as int) =~= js);
        },
        None => {
            assert(texts(out@) =~= Seq::<Seq<char>>::empty());
        },
    }
    let ghost listed = texts(out@);
    match &req.payload {
        Some(p) => {
            if !is_blank(p.as_str()) {
                out.push(p.clone());
                assert(texts(out@) =~= listed.push(p@));
            }
        },
        None => {},
    }
    out
}

/// Creates one job per payload of `req`, in order, under its batch (or
/// `default_batch`) and requester (or `remote`). Stops at the first failure;
/// the jobs created before it stay stored.
pub fn submit(queue: &mut JobQueue, req: PrintApiPayload, default_batch: &str, now: i64) -> (r:
    IngestOutcome)
    requires
        old(queue).wf(),
    ensures
        final(queue).wf(),
        submission_effect(*old(queue), *final(queue), req, default_batch@, now as int, r),
{
    let payloads = collect_payloads(&req);
    if payloads.len() == 0 {
        return IngestOutcome::NoPayloads;
    }
    let ghost pv = texts(payloads@);
    let batch = match &req.batch_id {
        Some(b) => b.clone(),
        None => String::from_str(default_batch),
    };
    let requester = match &req.requested_by {
        Some(r) => r.clone(),
        None => {
            proof {
                reveal_strlit("remote");
                assert("remote"@ =~= remote_requester());
            }
            String::from_str("remote")
        },
    };
    let ghost t = stamp(old(queue).clock(), now as int);
    let ghost first = old(queue).last_id() + 1;
    let ghost made = |n: int|
        submitted_jobs(first, batch@, requester@, pv.subrange(0, n), t);
    let mut created: Vec<PrintJob> = Vec::new();
    let mut k: usize = 0;
    while k < payloads.len()
        invariant
            queue.wf(),
            pv == texts(payloads@),
            pv == payloads_of(req),
            batch@ == batch_of(req, default_batch@),
            requester@ == requester_of(req),
            t == stamp(old(queue).clock(), now as int),
            first == old(queue).last_id() + 1,
            made == (|n: int| submitted_jobs(first, batch@, requester@, pv.subrange(0, n), t)),
            k <= pv.len(),
            queue.last_id() == old(queue).last_id() + k,
            k == 0 ==> queue.clock() == old(queue).clock(),
            k > 0 ==> queue.clock() == t,
            queue@ == old(queue)@ + made(k as int),
            job_views(created@) == made(k as int),
        decreases payloads.len() - k,
    {
        proof {
            queue.lemma_ranges();
        }
        let result = queue.create_at(batch.as_str(), requester.as_str(), payloads[k].as_str(), now);
        match result {
            Ok(job) => {
                proof {
                    assert(made(k + 1) =~= made(k as int).push(job@));
                }
                created.push(job);
                assert(job_views(created@) =~= made(k as int).push(job@));
            },
            Err(e) => {
                assert(queue@ == old(queue)@ + made(k as int));
                return IngestOutcome::EnqueueFailed(e, created);
            },
        }
        k = k + 1;
    }
    proof {
        queue.lemma_ranges();
        assert(pv.subrange(0, pv.len() as int) =~= pv);
    }
    IngestOutcome::Accepted(created)
}

/// Whether `label` is the batch id generated for a submission at `now`:
/// `api-` followed by the UTC time at `now`, or `api-` alone for an instant
/// that has no four-digit year.
pub open spec fn generated_batch_id(now: int, label: Seq<char>) -> bool {
    ||| label == generated_batch_prefix() + utc_compact(now)
    ||| label == generated_batch_prefix() && !(0 <= now <= LAST_FOUR_DIGIT_YEAR_MICROS)
}

/// The batch id given to a submission at `now` that names none.
pub fn batch_id_for(now: i64) -> (r: String)
    ensures
        generated_batch_id(now as int, r@),
        0 <= now <= LAST_FOUR_DIGIT_YEAR_MICROS ==> r@ == generated_batch_prefix() + utc_compact(
            now as int,
        ),
{
    proof {
        reveal_strlit("api-");
        assert("api-"@ =~= generated_batch_prefix());
    }
    let mut label = String::from_str("api-");
    match compact_utc(now) {
        Some(stamp) => {
            label.append(stamp.as_str());
        },
        None => {
            assert(label@ =~= generated_batch_prefix());
        },
    }
    label
}

/// Whether a request is `POST /print`, the one route served.
pub fn is_print_route(method: &str, url: &str) -> (r: bool)
    ensures
        r == (method@ == served_method() && url@ == served_path()),
{
    proof {
        reveal_strlit("POST");
        reveal_strlit("/print");
        assert("POST"@ =~= served_method());
        assert("/print"@ =~= served_path());
    }
    same_text(method, "POST") && same_text(url, "/print")
}

/// Answers one request: anything but `POST /print` is not found, a body
/// that could not be read or decoded is refused, and a decoded submission is
/// handed to [`submit`] with a batch id generated from `now`.
pub fn handle_print_request(
    queue: &mut JobQueue,
    method: &str,
    url: &str,
    body: RequestBody,
    now: i64,
) -> (r: IngestOutcome)
    requires
        old(queue).wf(),
    ensures
        final(queue).wf(),
        !(method@ == served_method() && url@ == served_path()) ==> r is NotFound,
        (r is NotFound || r is UnreadableBody || r is InvalidJson) ==> final(queue)@ == old(
            queue,
        )@ && final(queue).last_id() == old(queue).last_id(),
        method@ == served_method() && url@ == served_path() ==> match body {
            RequestBody::Unreadable(e) => r == IngestOutcome::UnreadableBody(e),
            RequestBody::InvalidJson(e) => r == IngestOutcome::InvalidJson(e),
            RequestBody::Decoded(req) => exists|label: Seq<char>|
                generated_batch_id(now as int, label) && submission_effect(
                    *old(queue),
                    *final(queue),
                    req,
                    label,
                    now as int,
                    r,
                ),
        },
{
    if !is_print_route(method, url) {
        return IngestOutcome::NotFound;
    }
    match body {
        RequestBody::Unreadable(e) => IngestOutcome::UnreadableBody(e),
        RequestBody::InvalidJson(e) => IngestOutcome::InvalidJson(e),
        RequestBody::Decoded(req) => {
            let label = batch_id_for(now);
            submit(queue, req, label.as_str(), now)
        },
    }
}

impl IngestOutcome {
    /// The HTTP status that answers this outcome.
    pub fn status_code(&self) -> (r: u16)
        ensures
            r == match *self {
                IngestOutcome::NotFound => 404u16,
                IngestOutcome::UnreadableBody(_) => 400u16,
                IngestOutcome::InvalidJson(_) => 400u16,
                IngestOutcome::NoPayloads => 400u16,
                IngestOutcome::EnqueueFailed(_, _) => 500u16,
                IngestOutcome::Accepted(_) => 200u16,
            },
    {
        match self {
            IngestOutcome::NotFound => 404,
            IngestOutcome::UnreadableBody(_) => 400,
            IngestOutcome::InvalidJson(_) => 400,
            IngestOutcome::NoPayloads => 400,
            IngestOutcome::EnqueueFailed(_, _) => 500,
            IngestOutcome::Accepted(_) => 200,
        }
    }
}

/// The port served when none is configured, or the setting does not parse.
pub const DEFAULT_PORT: u16 = 3333;

/// The value of a string of ASCII digits, read in base ten.
pub open spec fn decimal_value(s: Seq<char>) -> int
    decreases s.len(),
{
    if s.len() == 0 {
        0
    } else {
        decimal_value(s.drop_last()) * 10 + (s.last() as u32 - 48)
    }
}

/// The port number that `s` spells: an optional `+`, then one or more ASCII
/// digits whose value fits in 16 bits.
pub open spec fn port_number(s: Seq<char>) -> Option<u16> {
    let digits = if s.len() > 0 && s[0] == '+' {
        s.drop_first()
    } else {
        s
    };
    if digits.len() > 0 && all_digits(digits) && decimal_value(digits) <= u16::MAX {
        Some(decimal_value(digits) as u16)
    } else {
        None
    }
}

/// Relies on `u16`'s `FromStr`, whose documentation accepts an optional `+`
/// followed by ASCII digits and refuses anything else or a value that does
/// not fit.
#[verifier::external_body]
fn parse_u16(s: &str) -> (r: Option<u16>)
    ensures
        r == port_number(s@),
{
    s.parse::<u16>().ok()
}

/// The port to listen on, given the configured setting, if any.
pub fn listen_port(setting: Option<&str>) -> (r: u16)
    ensures
        r == match setting {
            Some(s) => match port_number(s@) {
                Some(p) => p,
                None => DEFAULT_PORT,
            },
            None => DEFAULT_PORT,
        },
{
    match setting {
        Some(s) => match parse_u16(s) {
            Some(p) => p,
            None => DEFAULT_PORT,
        },
        None => DEFAULT_PORT,
    }
}

} // verus!
