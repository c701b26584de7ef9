//! The record shapes of the stores that share the queue's backing file:
//! saved tasks and code-generation history, and their export envelopes.
use vstd::prelude::*;

verus! {

/// A saved task.
#[derive(Clone, Debug)]
pub struct Task {
    pub id: i64,
    pub name: String,
    pub number: String,
    pub feature_type: String,
    pub branch: String,
    pub pr_title: String,
    pub created_at: String,
}

/// Saved tasks as written to an export file.
#[derive(Clone, Debug)]
pub struct TasksExport {
    pub tasks: Vec<Task>,
    pub export_date: String,
    pub version: String,
}

/// One saved code-generation state.
#[derive(Clone, Debug)]
pub struct CodegenHistoryEntry {
    pub id: i64,
    pub mode: String,
    pub summary: String,
    pub payload: String,
    pub created_at: String,
}

/// Code-generation history as written to an export file.
#[derive(Clone, Debug)]
pub struct CodegenHistoryExport {
    pub entries: Vec<CodegenHistoryEntry>,
    pub export_date: String,
    pub version: String,
}

/// The version written into every export file.
pub open spec fn export_format_version() -> Seq<char> {
    seq!['1', '.', '0']
}

/// The current export format version.
fn format_version() -> (r: String)
    ensures
        r@ == export_format_version(),
{
    proof {
        reveal_strlit("1.0");
        assert("1.0"@ =~= export_format_version());
    }
    String::from_str("1.0")
}

impl TasksExport {
    /// An export of `tasks`, dated `export_date`, in the current format.
    pub fn new(tasks: Vec<Task>, export_date: String) -> (r: TasksExport)
        ensures
            r.tasks == tasks,
            r.export_date == export_date,
            r.version@ == export_format_version(),
    {
        TasksExport { tasks, export_date, version: format_version() }
    }
}

impl CodegenHistoryExport {
    /// An export of `entries`, dated `export_date`, in the current format.
    pub fn new(entries: Vec<CodegenHistoryEntry>, export_date: String) -> (r: CodegenHistoryExport)
        ensures
            r.entries == entries,
            r.export_date == export_date,
            r.version@ == export_format_version(),
    {
        CodegenHistoryExport { entries, export_date, version: format_version() }
    }
}

} // verus!
