//! The scenario runner: executes a fixed, ordered list of steps once,
//! threading the fixture registry between them, and aggregates a scenario
//! report.
//!
//! Failure policy is fail-fast with guaranteed cleanup: after the first
//! failed substantive step the remaining substantive steps are recorded as
//! `Skipped`, while every cleanup step still runs.  A cleanup failure is
//! recorded but never hides the first substantive failure.
//!
//! The runner performs no transport itself: [`Runner::next_request`] hands
//! the host the next request to carry out, and [`Runner::complete`] takes
//! back what the call came to.  The host loop may be a real network client
//! or the in-memory service model.
use crate::fixtures::{map_of, FixtureRegistry, FixtureValue};
use crate::report::{
    all_passed, is_reported_failure, some_failed, some_substantive_failed, FailureSummary,
    ScenarioReport, StepOutcome,
};
use crate::rpc::{CallEvent, RpcRequest};
use crate::steps::{
    build_request, interpret_response, spec_build_ok, spec_built, spec_failure_msg,
    spec_missing_name, spec_passes, spec_write, StepDef,
};
use vstd::prelude::*;

verus! {

/// The cleanup flags of a step list, in step order.
pub open spec fn cleanup_flags(steps: Seq<StepDef>) -> Seq<bool> {
    steps.map_values(|s: StepDef| s.cleanup)
}

/// Outcome `i` obeys the fail-fast policy: a step is skipped exactly when
/// it is substantive and some earlier substantive step failed.
pub open spec fn skip_policy(outcomes: Seq<StepOutcome>, cleanup: Seq<bool>) -> bool {
    forall|i: int| #![trigger outcomes[i]]
        0 <= i < outcomes.len() ==> ((outcomes[i] is Skipped) <==> (!cleanup[i] && exists|j: int|
            0 <= j < i && outcomes[j] is Failed && !cleanup[j]))
}

/// One scenario execution in flight.
pub struct Runner {
    steps: Vec<StepDef>,
    registry: FixtureRegistry,
    outcomes: Vec<StepOutcome>,
    pending: bool,
    failed: bool,
    first_sub: Option<FailureSummary>,
    first_clean: Option<FailureSummary>,
}

impl Runner {
    /// The scenario's step list.
    pub closed spec fn steps_view(self) -> Seq<StepDef> {
        self.steps@
    }

    /// The outcomes recorded so far, in step order.
    pub closed spec fn outcomes_view(self) -> Seq<StepOutcome> {
        self.outcomes@
    }

    /// The registry's current name-to-value map.
    pub closed spec fn bindings(self) -> Map<Seq<char>, FixtureValue> {
        self.registry.bindings()
    }

    /// Whether a request has been handed out whose completion is awaited.
    pub closed spec fn is_pending(self) -> bool {
        self.pending
    }

    /// The runner's internal consistency: outcomes never outnumber steps,
    /// the fail-fast flag and the remembered first failures agree with the
    /// recorded outcomes, and every recorded outcome obeys the skip policy.
    pub closed spec fn wf(self) -> bool {
        let oc = self.outcomes@;
        let cl = cleanup_flags(self.steps@);
        &&& oc.len() <= self.steps@.len()
        &&& self.failed == some_substantive_failed(oc, cl)
        &&& skip_policy(oc, cl)
        &&& (self.pending ==> {
            &&& oc.len() < self.steps@.len()
            &&& (cl[oc.len() as int] || !self.failed)
        })
        &&& ((self.first_sub is Some) == some_substantive_failed(oc, cl))
        &&& (self.first_sub matches Some(f) ==> {
            &&& 0 <= (f.step as int) < oc.len()
            &&& oc[f.step as int] is Failed
            &&& !cl[f.step as int]
            &&& (forall|j: int| 0 <= j < f.step ==> !(oc[j] is Failed && !cl[j]))
            &&& (oc[f.step as int] matches StepOutcome::Failed(m) && f.reason@ == m@)
        })
        &&& ((self.first_clean is Some) == (exists|i: int|
            0 <= i < oc.len() && oc[i] is Failed && cl[i]))
        &&& (self.first_clean matches Some(f) ==> {
            &&& 0 <= (f.step as int) < oc.len()
            &&& oc[f.step as int] is Failed
            &&& cl[f.step as int]
            &&& (forall|j: int| 0 <= j < f.step ==> !(oc[j] is Failed && cl[j]))
            &&& (oc[f.step as int] matches StepOutcome::Failed(m) && f.reason@ == m@)
        })
    }

    /// A fresh runner over the given scenario, with an empty registry.
    pub fn new(steps: Vec<StepDef>) -> (r: Runner)
        ensures
            r.wf(),
            !r.is_pending(),
            r.steps_view() == steps@,
            r.outcomes_view() == Seq::<StepOutcome>::empty(),
            r.bindings() == Map::<Seq<char>, FixtureValue>::empty(),
    {
        Runner {
            steps,
            registry: FixtureRegistry::new(),
            outcomes: Vec::new(),
            pending: false,
            failed: false,
            first_sub: None,
            first_clean: None,
        }
    }

    /// Records the outcome of the step now at the head and keeps the flags
    /// and remembered failures consistent.
    fn push_outcome(&mut self, o: StepOutcome)
        requires
            old(self).wf(),
            !old(self).pending,
            old(self).outcomes@.len() < old(self).steps@.len(),
            (o is Skipped) ==> (!old(self).steps@[old(self).outcomes@.len() as int].cleanup && old(
                self,
            ).failed),
            !(o is Skipped) ==> (old(self).steps@[old(self).outcomes@.len() as int].cleanup || !old(
                self,
            ).failed),
        ensures
            final (self).wf(),
            !final (self).pending,
            final (self).outcomes@ == old(self).outcomes@.push(o),
            final (self).steps@ == old(self).steps@,
            final (self).registry == old(self).registry,
    {
        let ghost oc0 = self.outcomes@;
        let ghost cl = cleanup_flags(self.steps@);
        let i = self.outcomes.len();
        let is_cleanup = self.steps[i].cleanup;
        let failure_reason: Option<String> = match &o {
            StepOutcome::Failed(m) => Some(m.clone()),
            _ => None,
        };
        self.outcomes.push(o);
        proof {
            assert forall|t: int| 0 <= t < oc0.len() implies self.outcomes@[t] == oc0[t] by {}
        }
        match failure_reason {
            Some(reason) => {
                if !is_cleanup {
                    if self.first_sub.is_none() {
                        self.first_sub = Some(FailureSummary { step: i, reason });
                    }
                    self.failed = true;
                } else {
                    if self.first_clean.is_none() {
                        self.first_clean = Some(FailureSummary { step: i, reason });
                    }
                }
            },
            None => {},
        }
        proof {
            let oc = self.outcomes@;
            if self.failed {
                assert(some_substantive_failed(oc, cl)) by {
                    if old(self).failed {
                        let j = choose|j: int| 0 <= j < oc0.len() && oc0[j] is Failed && !cl[j];
                        assert(oc[j] is Failed && !cl[j]);
                    } else {
                        assert(oc[i as int] is Failed && !cl[i as int]);
                    }
                }
            }
            if some_substantive_failed(oc, cl) && !self.failed {
                let j = choose|j: int| 0 <= j < oc.len() && oc[j] is Failed && !cl[j];
                if j < i {
                    assert(oc0[j] is Failed && !cl[j]);
                }
                assert(false);
            }
            if self.first_clean is Some && !(exists|t: int|
                0 <= t < oc.len() && oc[t] is Failed && cl[t])
            {
                let f = self.first_clean->Some_0;
                if (f.step as int) < oc0.len() {
                    assert(oc[f.step as int] is Failed && cl[f.step as int]);
                } else {
                    assert(oc[i as int] is Failed && cl[i as int]);
                }
            }
            assert(oc.len() == oc0.len() + 1);
            assert(oc[i as int] == o);
            assert(cl[i as int] == old(self).steps@[i as int].cleanup);
            assert(skip_policy(oc0, cl));
            assert(skip_policy(oc, cl)) by {
                assert forall|t: int|
                    0 <= t < oc.len() implies ((oc[t] is Skipped) <==> (!cl[t] && exists|j: int|
                        0 <= j < t && oc[j] is Failed && !cl[j])) by {
                    if t < oc0.len() {
                        assert(oc[t] == oc0[t]);
                        assert((oc0[t] is Skipped) <==> (!cl[t] && exists|j: int|
                            0 <= j < t && oc0[j] is Failed && !cl[j]));
                        if oc0[t] is Skipped {
                            let j = choose|j: int| 0 <= j < t && oc0[j] is Failed && !cl[j];
                            assert(oc[j] is Failed && !cl[j]);
                        } else if !cl[t] && exists|j: int| 0 <= j < t && oc[j] is Failed && !cl[j] {
                            let j = choose|j: int| 0 <= j < t && oc[j] is Failed && !cl[j];
                            assert(oc0[j] is Failed && !cl[j]);
                        }
                    } else {
                        if o is Skipped {
                            let j = choose|j: int|
                                0 <= j < oc0.len() && oc0[j] is Failed && !cl[j];
                            assert(oc[j] is Failed && !cl[j]);
                        } else if !cl[t] && exists|j: int| 0 <= j < t && oc[j] is Failed && !cl[j] {
                            let j = choose|j: int| 0 <= j < t && oc[j] is Failed && !cl[j];
                            assert(oc0[j] is Failed && !cl[j]);
                            assert(old(self).failed);
                        }
                    }
                }
            }
        }
    }

    /// Advances to the next step that actually performs a remote call and
    /// returns its request, recording `Skipped` for substantive steps passed
    /// over after a failure and `Failed` for steps whose fixtures do not
    /// build.  Returns `None` when every step has its outcome: the run is
    /// complete.  The returned request carries the step's index as its
    /// correlation id, so correlation ids are unique within the run.
    pub fn next_request(&mut self) -> (r: Option<RpcRequest>)
        requires
            old(self).wf(),
            !old(self).is_pending(),
        ensures
            final (self).wf(),
            final (self).steps_view() == old(self).steps_view(),
            final (self).bindings() == old(self).bindings(),
            final (self).outcomes_view().len() >= old(self).outcomes_view().len(),
            forall|j: int|
                0 <= j < old(self).outcomes_view().len() ==> final (self).outcomes_view()[j] == old(
                    self,
                ).outcomes_view()[j],
            forall|j: int|
                old(self).outcomes_view().len() <= j < final (self).outcomes_view().len() ==> {
                    ||| final (self).outcomes_view()[j] is Skipped
                    ||| {
                        &&& !spec_build_ok(
                            final (self).steps_view()[j].kind,
                            final (self).bindings(),
                        )
                        &&& (final (self).outcomes_view()[j] matches StepOutcome::Failed(m) && m@
                            == "missing fixture: "@ + spec_missing_name(
                            final (self).steps_view()[j].kind,
                            final (self).bindings(),
                        ))
                    }
                },
            skip_policy(final (self).outcomes_view(), cleanup_flags(final (self).steps_view())),
            (r is Some) == final (self).is_pending(),
            r is None ==> final (self).outcomes_view().len() == final (self).steps_view().len(),
            r matches Some(req) ==> {
                &&& final (self).outcomes_view().len() < final (self).steps_view().len()
                &&& !(some_substantive_failed(
                    final (self).outcomes_view(),
                    cleanup_flags(final (self).steps_view()),
                ) && !final (self).steps_view()[final (self).outcomes_view().len() as int].cleanup)
                &&& spec_build_ok(
                    final (self).steps_view()[final (self).outcomes_view().len() as int].kind,
                    final (self).bindings(),
                )
                &&& req == spec_built(
                    final (self).steps_view()[final (self).outcomes_view().len() as int].kind,
                    final (self).bindings(),
                    final (self).outcomes_view().len() as u64,
                )
                &&& req.correlation_id == final (self).outcomes_view().len()
            },
    {
        loop
            invariant
                self.wf(),
                !self.pending,
                self.steps@ == old(self).steps@,
                self.registry == old(self).registry,
                self.outcomes@.len() >= old(self).outcomes@.len(),
                forall|j: int|
                    0 <= j < old(self).outcomes@.len() ==> self.outcomes@[j] == old(
                        self,
                    ).outcomes@[j],
                forall|j: int|
                    old(self).outcomes@.len() <= j < self.outcomes@.len() ==> {
                        ||| self.outcomes@[j] is Skipped
                        ||| {
                            &&& !spec_build_ok(self.steps@[j].kind, self.registry.bindings())
                            &&& (self.outcomes@[j] matches StepOutcome::Failed(m) && m@
                                == "missing fixture: "@ + spec_missing_name(
                                self.steps@[j].kind,
                                self.registry.bindings(),
                            ))
                        }
                    },
            decreases self.steps@.len() - self.outcomes@.len(),
        {
            let i = self.outcomes.len();
            if i >= self.steps.len() {
                return None;
            }
            let runnable = !self.failed || self.steps[i].cleanup;
            if !runnable {
                self.push_outcome(StepOutcome::Skipped);
            } else {
                let built = build_request(&self.steps[i], &self.registry, i as u64);
                match built {
                    Ok(req) => {
                        self.pending = true;
                        return Some(req);
                    },
                    Err(e) => {
                        let msg = e.describe();
                        self.push_outcome(StepOutcome::Failed(msg));
                    },
                }
            }
        }
    }

    /// Takes back what the pending call came to, interprets it under the
    /// pending step's validation rule, and records the outcome.
    pub fn complete(&mut self, event: &CallEvent)
        requires
            old(self).wf(),
            old(self).is_pending(),
        ensures
            final (self).wf(),
            !final (self).is_pending(),
            final (self).steps_view() == old(self).steps_view(),
            final (self).outcomes_view().len() == old(self).outcomes_view().len() + 1,
            forall|j: int|
                0 <= j < old(self).outcomes_view().len() ==> final (self).outcomes_view()[j] == old(
                    self,
                ).outcomes_view()[j],
            !(final (self).outcomes_view().last() is Skipped),
            (final (self).outcomes_view().last() is Passed) == spec_passes(
                old(self).steps_view()[old(self).outcomes_view().len() as int],
                *event,
                old(self).bindings(),
            ),
            final (self).outcomes_view().last() matches StepOutcome::Failed(m) ==> m@
                == spec_failure_msg(
                old(self).steps_view()[old(self).outcomes_view().len() as int],
                *event,
                old(self).bindings(),
            ),
            (match spec_write(
                old(self).steps_view()[old(self).outcomes_view().len() as int],
                *event,
                old(self).bindings(),
            ) {
                Some(p) => final (self).bindings() == old(self).bindings().insert(p.0@, p.1),
                None => final (self).bindings() == old(self).bindings(),
            }),
    {
        let i = self.outcomes.len();
        self.pending = false;
        let ghost old_log = self.registry.log();
        let o = interpret_response(&self.steps[i], event, &mut self.registry);
        proof {
            match spec_write(self.steps@[i as int], *event, map_of(old_log)) {
                Some(p) => {
                    assert(self.registry.log() == old_log.push(p));
                    assert(self.registry.log().drop_last() =~= old_log);
                    assert(self.registry.bindings() == map_of(old_log).insert(p.0@, p.1));
                },
                None => {},
            }
        }
        self.push_outcome(o);
    }

    /// Finalizes the run into its immutable report, with the wall-clock
    /// duration the caller measured.  Requires every step's outcome to be
    /// recorded, so the report always carries exactly one outcome per
    /// defined step.  The report passes exactly when every outcome passed,
    /// and otherwise names the first substantive failure, or the first
    /// cleanup failure when only cleanup failed.
    pub fn finish(self, duration_ms: u64) -> (rep: ScenarioReport)
        requires
            self.wf(),
            !self.is_pending(),
            self.outcomes_view().len() == self.steps_view().len(),
        ensures
            rep.outcomes@ == self.outcomes_view(),
            rep.outcomes@.len() == self.steps_view().len(),
            rep.passed == all_passed(rep.outcomes@),
            rep.passed == !some_failed(rep.outcomes@),
            rep.duration_ms == duration_ms,
            skip_policy(rep.outcomes@, cleanup_flags(self.steps_view())),
            (rep.first_failure is Some) == some_failed(rep.outcomes@),
            rep.first_failure matches Some(f) ==> {
                &&& is_reported_failure(
                    rep.outcomes@,
                    cleanup_flags(self.steps_view()),
                    f.step as int,
                )
                &&& (rep.outcomes@[f.step as int] matches StepOutcome::Failed(m) && f.reason@
                    == m@)
            },
    {
        let ghost oc = self.outcomes@;
        let ghost cl = cleanup_flags(self.steps@);
        let n = self.outcomes.len();
        let mut passed = true;
        let mut i: usize = 0;
        while i < n
            invariant
                n == self.outcomes@.len(),
                i <= n,
                passed == (forall|j: int| 0 <= j < i ==> self.outcomes@[j] is Passed),
            decreases n - i,
        {
            if !self.outcomes[i].is_passed() {
                passed = false;
            }
            i = i + 1;
        }
        let first_failure = match self.first_sub {
            Some(f) => Some(f),
            None => self.first_clean,
        };
        proof {
            if passed {
                assert forall|j: int| 0 <= j < oc.len() implies !(oc[j] is Failed) by {
                    assert(oc[j] is Passed);
                }
            }
            if !passed {
                let j = choose|j: int| 0 <= j < oc.len() && !(oc[j] is Passed);
                if oc[j] is Skipped {
                    assert((oc[j] is Skipped) <==> (!cl[j] && exists|k: int|
                        0 <= k < j && oc[k] is Failed && !cl[k]));
                    let k = choose|k: int| 0 <= k < j && oc[k] is Failed && !cl[k];
                    assert(some_failed(oc));
                } else {
                    assert(oc[j] is Failed);
                }
            }
            if some_failed(oc) && self.first_sub is None && self.first_clean is None {
                let j = choose|j: int| 0 <= j < oc.len() && oc[j] is Failed;
                if cl[j] {
                    assert(exists|t: int| 0 <= t < oc.len() && oc[t] is Failed && cl[t]);
                } else {
                    assert(some_substantive_failed(oc, cl));
                }
                assert(false);
            }
            match &first_failure {
                Some(f) => {
                    if self.first_sub is None {
                        assert forall|j: int| 0 <= j < f.step implies !(oc[j] is Failed) by {
                            if oc[j] is Failed {
                                if cl[j] {
                                    assert(oc[f.step as int] is Failed && cl[f.step as int]);
                                } else {
                                    assert(some_substantive_failed(oc, cl));
                                }
                            }
                        }
                    }
                    assert(oc[f.step as int] is Failed);
                    assert(some_failed(oc));
                },
                None => {},
            }
        }
        ScenarioReport { outcomes: self.outcomes, passed, first_failure, duration_ms }
    }
}

} // verus!
