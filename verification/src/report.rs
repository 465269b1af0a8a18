//! Step outcomes and the scenario report they aggregate into.
use vstd::prelude::*;

verus! {

/// The tri-state result of one step.  A step is `Skipped` only when an
/// earlier substantive (non-cleanup) step failed and the fail-fast policy
/// passed it over.  An outcome is immutable once recorded.
#[derive(Debug)]
pub enum StepOutcome {
    Passed,
    Failed(String),
    Skipped,
}

impl StepOutcome {
    pub fn is_passed(&self) -> (r: bool)
        ensures
            r == (self is Passed),
    {
        match self {
            StepOutcome::Passed => true,
            _ => false,
        }
    }

    pub fn is_failed(&self) -> (r: bool)
        ensures
            r == (self is Failed),
    {
        match self {
            StepOutcome::Failed(_) => true,
            _ => false,
        }
    }

    pub fn is_skipped(&self) -> (r: bool)
        ensures
            r == (self is Skipped),
    {
        match self {
            StepOutcome::Skipped => true,
            _ => false,
        }
    }

    /// The reason of a failed outcome.
    pub fn failure_reason<'a>(&'a self) -> (r: Option<&'a String>)
        ensures
            self matches StepOutcome::Failed(m) ==> (r matches Some(s) && s@ == m@),
            !(self is Failed) ==> r is None,
    {
        match self {
            StepOutcome::Failed(m) => Some(m),
            _ => None,
        }
    }
}

/// Every outcome of the run is `Passed`.
pub open spec fn all_passed(outcomes: Seq<StepOutcome>) -> bool {
    forall|i: int| 0 <= i < outcomes.len() ==> outcomes[i] is Passed
}

/// Some outcome of the run is `Failed`.
pub open spec fn some_failed(outcomes: Seq<StepOutcome>) -> bool {
    exists|i: int| 0 <= i < outcomes.len() && outcomes[i] is Failed
}

/// Some substantive (non-cleanup) outcome is `Failed`.
pub open spec fn some_substantive_failed(outcomes: Seq<StepOutcome>, cleanup: Seq<bool>) -> bool {
    exists|i: int| 0 <= i < outcomes.len() && outcomes[i] is Failed && !cleanup[i]
}

/// Index `i` names the failure the report presents: the first substantive
/// failure when one exists, otherwise the first cleanup failure.  Cleanup
/// failures are recorded but never hide an earlier substantive reason.
pub open spec fn is_reported_failure(outcomes: Seq<StepOutcome>, cleanup: Seq<bool>, i: int) -> bool {
    &&& 0 <= i < outcomes.len()
    &&& outcomes[i] is Failed
    &&& if !cleanup[i] {
        forall|j: int| 0 <= j < i ==> !(outcomes[j] is Failed && !cleanup[j])
    } else {
        &&& !some_substantive_failed(outcomes, cleanup)
        &&& forall|j: int| 0 <= j < i ==> !(outcomes[j] is Failed)
    }
}

/// The failure a report names: the step's index and its recorded reason.
pub struct FailureSummary {
    pub step: usize,
    pub reason: String,
}

/// The finalized result of one scenario run: the ordered outcomes, the
/// overall verdict, the failure the run is reported under (if any), and the
/// wall-clock duration the caller measured.
pub struct ScenarioReport {
    pub outcomes: Vec<StepOutcome>,
    pub passed: bool,
    pub first_failure: Option<FailureSummary>,
    pub duration_ms: u64,
}

} // verus!
