//! Choosing where the store lives: candidate locations are tried in a fixed
//! order, each with a real write probe, and the first that passes is used.
//! The probing itself is done by the caller; this is the decision logic.
use vstd::prelude::*;
use crate::queue::QueueError;

verus! {

/// A place where the store file may live, in order of preference.
#[derive(Clone, Copy, Debug, PartialEq, Eq, Structural)]
pub enum StoreLocation {
    /// The platform's application-data directory.
    AppData,
    /// The platform's local application-data directory.
    AppLocalData,
    /// A dot-directory under the user's home directory.
    HomeDotfile,
    /// The system's temporary directory.
    TempDir,
}

/// The candidates, in the order they are tried.
pub open spec fn candidate_order() -> Seq<StoreLocation> {
    seq![
        StoreLocation::AppData,
        StoreLocation::AppLocalData,
        StoreLocation::HomeDotfile,
        StoreLocation::TempDir,
    ]
}

/// The candidates, in the order they are tried.
pub fn candidate_locations() -> (r: Vec<StoreLocation>)
    ensures
        r@ == candidate_order(),
{
    let r = vec![
        StoreLocation::AppData,
        StoreLocation::AppLocalData,
        StoreLocation::HomeDotfile,
        StoreLocation::TempDir,
    ];
    assert(r@ =~= candidate_order());
    r
}

/// What to do next while looking for a store location.
#[derive(Clone, Copy, Debug, PartialEq, Eq, Structural)]
pub enum SearchStep {
    /// Probe the candidate at this position.
    Probe(usize),
    /// Open the store at the candidate at this position.
    Use(usize),
    /// Every candidate failed its probe.
    Exhausted,
}

/// The state of a search: how many candidates there are, how many have
/// failed their probe, and whether the next one passed.
pub struct SearchView {
    pub candidates: nat,
    pub failed: nat,
    pub found: bool,
}

/// The step a search in state `v` asks for.
pub open spec fn next_step(v: SearchView) -> SearchStep {
    if v.found {
        SearchStep::Use(v.failed as usize)
    } else if v.failed < v.candidates {
        SearchStep::Probe(v.failed as usize)
    } else {
        SearchStep::Exhausted
    }
}

/// A search after the candidate it asked for was probed.
pub open spec fn after_probe(v: SearchView, writable: bool) -> SearchView {
    if writable {
        SearchView { found: true, ..v }
    } else {
        SearchView { failed: v.failed + 1, ..v }
    }
}

/// A search fed probe outcomes, in order, for as long as it asks for probes.
pub open spec fn after_probes(v: SearchView, outcomes: Seq<bool>) -> SearchView
    decreases outcomes.len(),
{
    if outcomes.len() == 0 || !(next_step(v) is Probe) {
        v
    } else {
        after_probes(after_probe(v, outcomes[0]), outcomes.drop_first())
    }
}

/// The position of the first passed probe, if any.
pub open spec fn first_writable(outcomes: Seq<bool>) -> Option<int>
    decreases outcomes.len(),
{
    if outcomes.len() == 0 {
        None
    } else if outcomes[0] {
        Some(0)
    } else {
        match first_writable(outcomes.drop_first()) {
            Some(i) => Some(i + 1),
            None => None,
        }
    }
}

/// A fresh search over `candidates` locations.
pub open spec fn search_start(candidates: nat) -> SearchView {
    SearchView { candidates, failed: 0, found: false }
}

/// A search for a writable store location.
pub struct LocationSearch {
    candidates: usize,
    failed: usize,
    found: bool,
}

impl View for LocationSearch {
    type V = SearchView;

    closed spec fn view(&self) -> SearchView {
        SearchView {
            candidates: self.candidates as nat,
            failed: self.failed as nat,
            found: self.found,
        }
    }
}

impl LocationSearch {
    /// The search's invariant.
    pub closed spec fn wf(&self) -> bool {
        self.failed <= self.candidates
    }

    /// A search over `candidates` locations, none probed yet.
    pub fn new(candidates: usize) -> (r: LocationSearch)
        ensures
            r.wf(),
            r@ == search_start(candidates as nat),
    {
        LocationSearch { candidates, failed: 0, found: false }
    }

    /// What to do next.
    pub fn next(&self) -> (r: SearchStep)
        requires
            self.wf(),
        ensures
            r == next_step(self@),
    {
        if self.found {
            SearchStep::Use(self.failed)
        } else if self.failed < self.candidates {
            SearchStep::Probe(self.failed)
        } else {
            SearchStep::Exhausted
        }
    }

    /// Records the outcome of the probe that [`LocationSearch::next`] asked
    /// for.
    pub fn record(&mut self, writable: bool)
        requires
            old(self).wf(),
            next_step(old(self)@) is Probe,
        ensures
            final(self).wf(),
            final(self)@ == after_probe(old(self)@, writable),
    {
        if writable {
            self.found = true;
        } else {
            self.failed = self.failed + 1;
        }
    }

    /// The chosen position, or the failure that ends the search; `None`
    /// while probes are still to be made.
    pub fn outcome(&self) -> (r: Option<Result<usize, QueueError>>)
        requires
            self.wf(),
        ensures
            r == match next_step(self@) {
                SearchStep::Use(i) => Some(Ok::<usize, QueueError>(i)),
                SearchStep::Exhausted => Some(Err::<usize, QueueError>(QueueError::NoWritableLocation)),
                SearchStep::Probe(_) => None::<Result<usize, QueueError>>,
            },
    {
        match self.next() {
            SearchStep::Use(i) => Some(Ok(i)),
            SearchStep::Exhausted => Some(Err(QueueError::NoWritableLocation)),
            SearchStep::Probe(_) => None,
        }
    }
}

/// Fed one probe outcome per candidate, a search uses the first candidate
/// whose probe passed, probes no further, and fails only when every probe
/// failed.
pub proof fn lemma_search_uses_first_writable(candidates: nat, outcomes: Seq<bool>)
    requires
        outcomes.len() == candidates,
        candidates <= usize::MAX,
    ensures
        next_step(after_probes(search_start(candidates), outcomes)) == match first_writable(
            outcomes,
        ) {
            Some(i) => SearchStep::Use(i as usize),
            None => SearchStep::Exhausted,
        },
{
    lemma_search_from(candidates, 0, outcomes);
}

proof fn lemma_search_from(candidates: nat, failed: nat, outcomes: Seq<bool>)
    requires
        failed + outcomes.len() == candidates,
        candidates <= usize::MAX,
    ensures
        next_step(after_probes(SearchView { candidates, failed, found: false }, outcomes))
            == match first_writable(outcomes) {
            Some(i) => SearchStep::Use((failed + i) as usize),
            None => SearchStep::Exhausted,
        },
    decreases outcomes.len(),
{
    let v = SearchView { candidates, failed, found: false };
    if outcomes.len() > 0 {
        let rest = outcomes.drop_first();
        if outcomes[0] {
            let w = after_probe(v, true);
            assert(after_probes(w, rest) == w);
        } else {
            lemma_search_from(candidates, failed + 1, rest);
        }
    }
}

/// When every candidate but the last fails its probe, the search uses the
/// last one.
pub proof fn lemma_falls_back_to_last(candidates: nat, outcomes: Seq<bool>)
    requires
        outcomes.len() == candidates,
        0 < candidates <= usize::MAX,
        forall|i: int| 0 <= i < candidates - 1 ==> !outcomes[i],
        outcomes[candidates - 1],
    ensures
        next_step(after_probes(search_start(candidates), outcomes)) == SearchStep::Use(
            (candidates - 1) as usize,
        ),
{
    lemma_search_uses_first_writable(candidates, outcomes);
    lemma_first_writable_last(outcomes);
}

proof fn lemma_first_writable_last(outcomes: Seq<bool>)
    requires
        outcomes.len() > 0,
        forall|i: int| 0 <= i < outcomes.len() - 1 ==> !outcomes[i],
        outcomes[outcomes.len() - 1],
    ensures
        first_writable(outcomes) == Some(outcomes.len() - 1),
    decreases outcomes.len(),
{
    if outcomes.len() > 1 {
        lemma_first_writable_last(outcomes.drop_first());
    }
}

} // verus!
