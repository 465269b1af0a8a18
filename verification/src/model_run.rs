//! The run semantics: what a scenario comes to, as a function of its steps
//! and the service's initial state.  [`spec_run`] folds the steps under the
//! service model's specified behaviour, yielding the outcomes, the fixture
//! bindings, the final service state and the fail-fast flag; the scenario
//! loop's contract pins its report and the service against this fold, so
//! identical steps and initial state always give identical outcomes.
use crate::fixtures::FixtureValue;
use crate::report::{some_substantive_failed, StepOutcome};
use crate::rpc::Identity;
use crate::runner::cleanup_flags;
use crate::service_model::{
    credentials_valid, has_item, has_username, not_owned_records, owned_records, without_item,
    without_username, ListItem, Record, ServiceModel,
};
use crate::steps::{
    spec_bool_chars, spec_build_ok, spec_fixture_id, spec_fixture_identity, spec_missing_name,
    StepDef, StepKind,
};
use crate::strings::spec_decimal;
use vstd::prelude::*;

verus! {

/// The service's abstract state: what its contracts speak of.
pub struct ServiceState {
    pub identities: Seq<Identity>,
    pub records: Seq<Record>,
    pub list_items: Seq<ListItem>,
    pub next_id: int,
}

/// The abstract state a concrete service holds.
pub open spec fn service_abs(m: ServiceModel) -> ServiceState {
    ServiceState {
        identities: m.identities(),
        records: m.records(),
        list_items: m.list_items(),
        next_id: m.next_id() as int,
    }
}

/// A step outcome reduced to its observable content: the classification
/// and, for a failure, the reason.
pub enum SpecOutcome {
    Passed,
    Failed(Seq<char>),
    Skipped,
}

pub open spec fn outcome_abs(o: StepOutcome) -> SpecOutcome {
    match o {
        StepOutcome::Passed => SpecOutcome::Passed,
        StepOutcome::Failed(m) => SpecOutcome::Failed(m@),
        StepOutcome::Skipped => SpecOutcome::Skipped,
    }
}

/// One run's whole state under the semantics: the outcomes so far, the
/// fixture bindings, the service, and whether a substantive step failed.
pub struct RunState {
    pub outcomes: Seq<SpecOutcome>,
    pub bindings: Map<Seq<char>, FixtureValue>,
    pub service: ServiceState,
    pub failed: bool,
}

/// A run about to start: nothing recorded, no fixtures, the given service.
pub open spec fn init_run_state(s: ServiceState) -> RunState {
    RunState { outcomes: Seq::empty(), bindings: Map::empty(), service: s, failed: false }
}

/// Whether a buildable step passes against this service state: the model's
/// specified answer satisfies the step's validation rule and the fixture
/// write (where one is due) succeeds.
pub open spec fn model_passes(step: StepDef, m: Map<Seq<char>, FixtureValue>, s: ServiceState) -> bool
    recommends
        spec_build_ok(step.kind, m),
{
    match step.kind {
        StepKind::CreateIdentity { fixture, username, .. } => !has_username(
            s.identities,
            username@,
        ) && !m.contains_key(fixture@),
        StepKind::ValidateIdentity { fixture, secret_override, expect_valid } => {
            let ident = spec_fixture_identity(m[fixture@]);
            let sent = match secret_override {
                Some(s2) => s2@,
                None => ident.secret@,
            };
            credentials_valid(s.identities, ident.username@, sent) == expect_valid
        },
        StepKind::CreateRecord { owner_fixture, .. } => has_username(
            s.identities,
            spec_fixture_identity(m[owner_fixture@]).username@,
        ) && s.next_id != u64::MAX,
        StepKind::SearchRecords { owner_fixture, caller_fixture, expect_count, expect_ids } => {
            let owner = spec_fixture_identity(m[owner_fixture@]).username@;
            let visible = match caller_fixture {
                Some(cf) => {
                    let c = spec_fixture_identity(m[cf@]);
                    c.username@ == owner && credentials_valid(s.identities, c.username@, c.secret@)
                },
                None => false,
            };
            let found = owned_records(s.records, owner);
            found.len() == expect_count && (found.len() == 0 || visible == expect_ids)
        },
        StepKind::DeleteIdentity { fixture, expect_deleted } => {
            let owner = spec_fixture_identity(m[fixture@]).username@;
            if has_username(s.identities, owner) {
                match expect_deleted {
                    Some(n) => owned_records(s.records, owner).len() == n,
                    None => true,
                }
            } else {
                step.cleanup
            }
        },
        StepKind::AddListItem { .. } => s.next_id != u64::MAX,
        StepKind::DeleteListItem { id_fixture } => has_item(
            s.list_items,
            spec_fixture_id(m[id_fixture@]),
        ),
    }
}

/// The reason a buildable step fails against this service state.
pub open spec fn model_failure_msg(
    step: StepDef,
    m: Map<Seq<char>, FixtureValue>,
    s: ServiceState,
) -> Seq<char>
    recommends
        spec_build_ok(step.kind, m),
        !model_passes(step, m, s),
{
    match step.kind {
        StepKind::CreateIdentity { fixture, username, .. } => {
            if has_username(s.identities, username@) {
                "remote error: "@ + "identity already exists"@
            } else {
                "duplicate fixture: "@ + fixture@
            }
        },
        StepKind::ValidateIdentity { fixture, secret_override, expect_valid } => {
            let ident = spec_fixture_identity(m[fixture@]);
            let sent = match secret_override {
                Some(s2) => s2@,
                None => ident.secret@,
            };
            "identity validation mismatch: expected "@ + spec_bool_chars(expect_valid)
                + ", actual "@ + spec_bool_chars(
                credentials_valid(s.identities, ident.username@, sent),
            )
        },
        StepKind::CreateRecord { owner_fixture, .. } => {
            if !has_username(s.identities, spec_fixture_identity(m[owner_fixture@]).username@) {
                "remote error: "@ + "identity not found"@
            } else {
                "remote error: "@ + "id space exhausted"@
            }
        },
        StepKind::SearchRecords { owner_fixture, caller_fixture, expect_count, expect_ids } => {
            let owner = spec_fixture_identity(m[owner_fixture@]).username@;
            let found = owned_records(s.records, owner);
            if found.len() != expect_count {
                "search result count mismatch: expected "@ + spec_decimal(expect_count as nat)
                    + ", actual "@ + spec_decimal(found.len())
            } else if expect_ids {
                "record id visibility mismatch: expected ids present"@
            } else {
                "record id visibility mismatch: expected ids absent"@
            }
        },
        StepKind::DeleteIdentity { fixture, expect_deleted } => {
            let owner = spec_fixture_identity(m[fixture@]).username@;
            if has_username(s.identities, owner) {
                match expect_deleted {
                    Some(n) => "cascade delete count mismatch: expected "@ + spec_decimal(
                        n as nat,
                    ) + ", actual "@ + spec_decimal(owned_records(s.records, owner).len()),
                    None => Seq::empty(),
                }
            } else {
                "remote error: "@ + "identity not found"@
            }
        },
        StepKind::AddListItem { .. } => "remote error: "@ + "id space exhausted"@,
        StepKind::DeleteListItem { .. } => "remote error: "@ + "list item not found"@,
    }
}

/// The fixture entry a passing step leaves, under the model: the created
/// identity, or the id the service assigned.
pub open spec fn model_write(
    step: StepDef,
    m: Map<Seq<char>, FixtureValue>,
    s: ServiceState,
) -> Option<(String, FixtureValue)>
    recommends
        spec_build_ok(step.kind, m),
        model_passes(step, m, s),
{
    match step.kind {
        StepKind::CreateIdentity { fixture, username, secret } => Some(
            (fixture, FixtureValue::Identity(Identity { username, secret })),
        ),
        StepKind::CreateRecord { id_fixture, .. } => Some(
            (id_fixture, FixtureValue::Id(s.next_id as u64)),
        ),
        StepKind::AddListItem { id_fixture, .. } => Some(
            (id_fixture, FixtureValue::Id(s.next_id as u64)),
        ),
        _ => None,
    }
}

/// The service state after a buildable step's call, whether or not the
/// step's validation passed: the service acts on the request alone.
pub open spec fn model_next_state(
    step: StepDef,
    m: Map<Seq<char>, FixtureValue>,
    s: ServiceState,
) -> ServiceState
    recommends
        spec_build_ok(step.kind, m),
{
    match step.kind {
        StepKind::CreateIdentity { username, secret, .. } => {
            if !has_username(s.identities, username@) {
                ServiceState {
                    identities: s.identities.push(Identity { username, secret }),
                    records: s.records,
                    list_items: s.list_items,
                    next_id: s.next_id,
                }
            } else {
                s
            }
        },
        StepKind::ValidateIdentity { .. } => s,
        StepKind::CreateRecord { owner_fixture, content, .. } => {
            let owner = spec_fixture_identity(m[owner_fixture@]).username;
            if has_username(s.identities, owner@) && s.next_id != u64::MAX {
                ServiceState {
                    identities: s.identities,
                    records: s.records.push(Record { id: s.next_id as u64, owner, content }),
                    list_items: s.list_items,
                    next_id: s.next_id + 1,
                }
            } else {
                s
            }
        },
        StepKind::SearchRecords { .. } => s,
        StepKind::DeleteIdentity { fixture, .. } => {
            let owner = spec_fixture_identity(m[fixture@]).username@;
            if has_username(s.identities, owner) {
                ServiceState {
                    identities: without_username(s.identities, owner),
                    records: not_owned_records(s.records, owner),
                    list_items: s.list_items,
                    next_id: s.next_id,
                }
            } else {
                s
            }
        },
        StepKind::AddListItem { list_type, name, .. } => {
            if s.next_id != u64::MAX {
                ServiceState {
                    identities: s.identities,
                    records: s.records,
                    list_items: s.list_items.push(
                        ListItem { id: s.next_id as u64, list_type, name },
                    ),
                    next_id: s.next_id + 1,
                }
            } else {
                s
            }
        },
        StepKind::DeleteListItem { id_fixture } => {
            let id = spec_fixture_id(m[id_fixture@]);
            if has_item(s.list_items, id) {
                ServiceState {
                    identities: s.identities,
                    records: s.records,
                    list_items: without_item(s.list_items, id),
                    next_id: s.next_id,
                }
            } else {
                s
            }
        },
    }
}

/// One step of the run: skipped under fail-fast, failed without a call
/// when a fixture is missing, otherwise called and judged against the
/// model.
pub open spec fn spec_run_step(step: StepDef, st: RunState) -> RunState {
    if st.failed && !step.cleanup {
        RunState {
            outcomes: st.outcomes.push(SpecOutcome::Skipped),
            bindings: st.bindings,
            service: st.service,
            failed: st.failed,
        }
    } else if !spec_build_ok(step.kind, st.bindings) {
        RunState {
            outcomes: st.outcomes.push(
                SpecOutcome::Failed(
                    "missing fixture: "@ + spec_missing_name(step.kind, st.bindings),
                ),
            ),
            bindings: st.bindings,
            service: st.service,
            failed: st.failed || !step.cleanup,
        }
    } else {
        let s2 = model_next_state(step, st.bindings, st.service);
        if model_passes(step, st.bindings, st.service) {
            let b2 = match model_write(step, st.bindings, st.service) {
                Some(p) => st.bindings.insert(p.0@, p.1),
                None => st.bindings,
            };
            RunState {
                outcomes: st.outcomes.push(SpecOutcome::Passed),
                bindings: b2,
                service: s2,
                failed: st.failed,
            }
        } else {
            RunState {
                outcomes: st.outcomes.push(
                    SpecOutcome::Failed(model_failure_msg(step, st.bindings, st.service)),
                ),
                bindings: st.bindings,
                service: s2,
                failed: st.failed || !step.cleanup,
            }
        }
    }
}

/// The run after the first `k` steps.
pub open spec fn spec_run(steps: Seq<StepDef>, k: int, init: RunState) -> RunState
    decreases k,
{
    if k <= 0 {
        init
    } else {
        spec_run_step(steps[k - 1], spec_run(steps, k - 1, init))
    }
}

/// The recorded outcomes, the bindings and the service agree with the run
/// semantics after as many steps as there are outcomes.
pub open spec fn run_matches(
    steps: Seq<StepDef>,
    init: RunState,
    oc: Seq<StepOutcome>,
    bindings: Map<Seq<char>, FixtureValue>,
    s: ServiceState,
) -> bool {
    let st = spec_run(steps, oc.len() as int, init);
    &&& oc.len() <= steps.len()
    &&& st.outcomes == oc.map_values(|o: StepOutcome| outcome_abs(o))
    &&& st.bindings == bindings
    &&& st.service == s
    &&& st.failed == some_substantive_failed(oc, cleanup_flags(steps))
}

/// Pushing an outcome extends the abstracted sequence by its abstraction.
pub proof fn lemma_outcome_abs_push(oc: Seq<StepOutcome>, o: StepOutcome)
    ensures
        oc.push(o).map_values(|x: StepOutcome| outcome_abs(x)) == oc.map_values(
            |x: StepOutcome| outcome_abs(x),
        ).push(outcome_abs(o)),
{
    assert(oc.push(o).map_values(|x: StepOutcome| outcome_abs(x)) =~= oc.map_values(
        |x: StepOutcome| outcome_abs(x),
    ).push(outcome_abs(o)));
}

/// Recording one more outcome raises the substantive-failure flag exactly
/// when the new outcome is a substantive failure.
pub proof fn lemma_substantive_failed_push(oc: Seq<StepOutcome>, cl: Seq<bool>, o: StepOutcome)
    requires
        oc.len() < cl.len(),
    ensures
        some_substantive_failed(oc.push(o), cl) == (some_substantive_failed(oc, cl) || (o
            is Failed && !cl[oc.len() as int])),
{
    let i = oc.len() as int;
    let oc2 = oc.push(o);
    if some_substantive_failed(oc, cl) {
        let j = choose|j: int| 0 <= j < oc.len() && oc[j] is Failed && !cl[j];
        assert(oc2[j] is Failed && !cl[j]);
    }
    if o is Failed && !cl[i] {
        assert(oc2[i] is Failed && !cl[i]);
    }
    if some_substantive_failed(oc2, cl) && !(some_substantive_failed(oc, cl) || (o is Failed
        && !cl[i])) {
        let j = choose|j: int| 0 <= j < oc2.len() && oc2[j] is Failed && !cl[j];
        if j < i {
            assert(oc[j] is Failed && !cl[j]);
        }
        assert(false);
    }
}

/// Outcomes the runner records without a call — skipped steps and missing
/// fixtures — advance the run semantics without touching the bindings or
/// the service.
pub proof fn lemma_run_extends_nocall(
    steps: Seq<StepDef>,
    init: RunState,
    oc_old: Seq<StepOutcome>,
    oc_new: Seq<StepOutcome>,
    bindings: Map<Seq<char>, FixtureValue>,
    s: ServiceState,
)
    requires
        oc_old.len() <= oc_new.len() <= steps.len(),
        forall|j: int| 0 <= j < oc_old.len() ==> oc_new[j] == oc_old[j],
        run_matches(steps, init, oc_old, bindings, s),
        crate::runner::skip_policy(oc_new, cleanup_flags(steps)),
        forall|j: int|
            oc_old.len() <= j < oc_new.len() ==> {
                ||| #[trigger] oc_new[j] is Skipped
                ||| {
                    &&& !spec_build_ok(steps[j].kind, bindings)
                    &&& (oc_new[j] matches StepOutcome::Failed(m) && m@ == "missing fixture: "@
                        + spec_missing_name(steps[j].kind, bindings))
                }
            },
    ensures
        run_matches(steps, init, oc_new, bindings, s),
    decreases oc_new.len() - oc_old.len(),
{
    let cl = cleanup_flags(steps);
    if oc_new.len() == oc_old.len() {
        assert(oc_new =~= oc_old);
    } else {
        let j = oc_old.len() as int;
        let oc_mid = oc_new.take(j + 1);
        assert(forall|t: int| 0 <= t < oc_mid.len() ==> oc_mid[t] == oc_new[t]);
        assert(oc_mid =~= oc_old.push(oc_new[j]));
        assert(cl[j] == steps[j].cleanup);
        let st = spec_run(steps, j, init);
        let st2 = spec_run(steps, j + 1, init);
        assert(st2 == spec_run_step(steps[j], st));
        lemma_outcome_abs_push(oc_old, oc_new[j]);
        lemma_substantive_failed_push(oc_old, cl, oc_new[j]);
        assert((oc_new[j] is Skipped) <==> (!cl[j] && exists|k: int|
            0 <= k < j && oc_new[k] is Failed && !cl[k]));
        if oc_new[j] is Skipped {
            let k = choose|k: int| 0 <= k < j && oc_new[k] is Failed && !cl[k];
            assert(oc_old[k] is Failed && !cl[k]);
            assert(some_substantive_failed(oc_old, cl));
            assert(st.failed && !steps[j].cleanup);
            assert(outcome_abs(oc_new[j]) == SpecOutcome::Skipped);
            assert(run_matches(steps, init, oc_mid, bindings, s));
        } else {
            assert(!spec_build_ok(steps[j].kind, bindings));
            assert(oc_new[j] matches StepOutcome::Failed(m) && m@ == "missing fixture: "@
                + spec_missing_name(steps[j].kind, bindings));
            if st.failed && !steps[j].cleanup {
                let k = choose|k: int| 0 <= k < oc_old.len() && oc_old[k] is Failed && !cl[k];
                assert(oc_new[k] is Failed && !cl[k]);
                assert(false);
            }
            assert(outcome_abs(oc_new[j]) == SpecOutcome::Failed(
                "missing fixture: "@ + spec_missing_name(steps[j].kind, bindings),
            ));
            assert(run_matches(steps, init, oc_mid, bindings, s));
        }
        lemma_run_extends_nocall(steps, init, oc_mid, oc_new, bindings, s);
    }
}

} // verus!
