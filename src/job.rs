//! The print job entity and its state.
use vstd::prelude::*;
use crate::text::same_text;

verus! {

/// The three states a job can be in. Any transition between them is allowed.
#[derive(Clone, Copy, Debug, PartialEq, Eq, Structural)]
pub enum JobState {
    New,
    Printing,
    Done,
}

/// The name under which a state is stored and exchanged.
pub open spec fn state_name(s: JobState) -> Seq<char> {
    match s {
        JobState::New => seq!['n', 'e', 'w'],
        JobState::Printing => seq!['p', 'r', 'i', 'n', 't', 'i', 'n', 'g'],
        JobState::Done => seq!['d', 'o', 'n', 'e'],
    }
}

/// The state with the given name, if there is one.
pub open spec fn state_named(s: Seq<char>) -> Option<JobState> {
    if s == state_name(JobState::New) {
        Some(JobState::New)
    } else if s == state_name(JobState::Printing) {
        Some(JobState::Printing)
    } else if s == state_name(JobState::Done) {
        Some(JobState::Done)
    } else {
        None
    }
}

impl JobState {
    /// The stored name of this state.
    pub fn as_str(&self) -> (r: &'static str)
        ensures
            r@ == state_name(*self),
    {
        proof {
            reveal_strlit("new");
            reveal_strlit("printing");
            reveal_strlit("done");
        }
        match self {
            JobState::New => "new",
            JobState::Printing => "printing",
            JobState::Done => "done",
        }
    }

    /// The state named `name`; `None` for any other string.
    pub fn parse(name: &str) -> (r: Option<JobState>)
        ensures
            r == state_named(name@),
    {
        proof {
            reveal_strlit("new");
            reveal_strlit("printing");
            reveal_strlit("done");
            assert("new"@ =~= state_name(JobState::New));
            assert("printing"@ =~= state_name(JobState::Printing));
            assert("done"@ =~= state_name(JobState::Done));
        }
        if same_text(name, "new") {
            Some(JobState::New)
        } else if same_text(name, "printing") {
            Some(JobState::Printing)
        } else if same_text(name, "done") {
            Some(JobState::Done)
        } else {
            None
        }
    }
}

/// Whether `state` names one of the three legal states.
pub fn validate_state(state: &str) -> (r: bool)
    ensures
        r == state_named(state@) is Some,
{
    JobState::parse(state).is_some()
}

/// One unit of print work. Timestamps count microseconds since the Unix
/// epoch, UTC.
#[derive(Clone, Debug)]
pub struct PrintJob {
    pub id: i64,
    pub batch_id: String,
    pub requested_by: String,
    pub payload: String,
    pub state: JobState,
    pub print_count: i64,
    pub last_error: Option<String>,
    pub created_at: i64,
    pub updated_at: i64,
}

/// What a job holds, as mathematical values.
pub struct JobView {
    pub id: int,
    pub batch_id: Seq<char>,
    pub requested_by: Seq<char>,
    pub payload: Seq<char>,
    pub state: JobState,
    pub print_count: int,
    pub last_error: Option<Seq<char>>,
    pub created_at: int,
    pub updated_at: int,
}

/// The characters of an optional string.
pub open spec fn text_of(o: Option<String>) -> Option<Seq<char>> {
    match o {
        Some(s) => Some(s@),
        None => None,
    }
}

impl View for PrintJob {
    type V = JobView;

    open spec fn view(&self) -> JobView {
        JobView {
            id: self.id as int,
            batch_id: self.batch_id@,
            requested_by: self.requested_by@,
            payload: self.payload@,
            state: self.state,
            print_count: self.print_count as int,
            last_error: text_of(self.last_error),
            created_at: self.created_at as int,
            updated_at: self.updated_at as int,
        }
    }
}

/// The views of a sequence of jobs.
pub open spec fn job_views(jobs: Seq<PrintJob>) -> Seq<JobView> {
    jobs.map_values(|j: PrintJob| j@)
}

/// A copy of an optional string.
pub fn copy_text(o: &Option<String>) -> (r: Option<String>)
    ensures
        text_of(r) == text_of(*o),
{
    match o {
        Some(s) => Some(s.clone()),
        None => None,
    }
}

impl PrintJob {
    /// A copy of this job.
    pub fn snapshot(&self) -> (r: PrintJob)
        ensures
            r@ == self@,
    {
        PrintJob {
            id: self.id,
            batch_id: self.batch_id.clone(),
            requested_by: self.requested_by.clone(),
            payload: self.payload.clone(),
            state: self.state,
            print_count: self.print_count,
            last_error: copy_text(&self.last_error),
            created_at: self.created_at,
            updated_at: self.updated_at,
        }
    }
}

} // verus!
