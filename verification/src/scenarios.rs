//! The integration-test command: the scenarios the harness runs, and the
//! loop that drives a scenario to its report.
use crate::clock;
use crate::fixtures::FixtureValue;
use crate::model_run::{
    init_run_state, lemma_outcome_abs_push, lemma_run_extends_nocall,
    lemma_substantive_failed_push, model_failure_msg, model_next_state, model_passes, model_write,
    outcome_abs, run_matches, service_abs, spec_run, spec_run_step, RunState, ServiceState,
    SpecOutcome,
};
use crate::report::{
    all_passed, is_reported_failure, some_failed, some_substantive_failed, ScenarioReport,
    StepOutcome,
};
use crate::rpc::{
    CallEvent, Identity, Params, Payload, RpcRequest, RpcResponse, NOT_FOUND_CODE,
};
use crate::runner::{cleanup_flags, skip_policy, Runner};
use crate::service_model::{
    credentials_valid, has_username, owned_records, record_views, spec_visible,
    without_username, Record, ServiceModel,
};
use crate::steps::{
    spec_build_ok, spec_built, spec_failure_msg, spec_fixture_id, spec_fixture_identity,
    spec_passes, spec_write, StepDef, StepKind,
};
use crate::strings::with_run_suffix;
use crate::IntegrationTestsOpts;
use vstd::prelude::*;

verus! {

/// Relies on uuid's `Uuid::new_v4` and its display form: a fresh random
/// identifier, rendered hyphenated as 36 characters.  The value is random;
/// nothing is assumed beyond its length.
#[verifier::external_body]
pub fn new_run_id() -> (r: String)
    ensures
        r@.len() == 36,
{
    uuid::Uuid::new_v4().to_string()
}

/// This step is a cleanup delete of the identity under `fixture`.
pub open spec fn is_cleanup_delete_of(s: StepDef, fixture: Seq<char>) -> bool {
    s.cleanup && (s.kind matches StepKind::DeleteIdentity { fixture: f, .. } && f@ == fixture)
}

/// Exactly one cleanup step deletes the identity under `fixture`.
pub open spec fn cleanup_covers(steps: Seq<StepDef>, fixture: Seq<char>) -> bool {
    &&& exists|j: int| 0 <= j < steps.len() && is_cleanup_delete_of(#[trigger] steps[j], fixture)
    &&& forall|j1: int, j2: int|
        0 <= j1 < steps.len() && 0 <= j2 < steps.len() && is_cleanup_delete_of(
            #[trigger] steps[j1],
            fixture,
        ) && is_cleanup_delete_of(#[trigger] steps[j2], fixture) ==> j1 == j2
}

/// Every identity the scenario creates is referenced by exactly one
/// cleanup step, so the run deletes it even when an earlier step failed.
pub open spec fn identities_cleaned(steps: Seq<StepDef>) -> bool {
    forall|i: int|
        0 <= i < steps.len() ==> ((#[trigger] steps[i].kind) matches StepKind::CreateIdentity {
            fixture,
            ..
        } ==> cleanup_covers(steps, fixture@))
}

/// Identity names that carry run suffixes of the same length, as fresh run
/// ids are, differ between two runs whenever the run ids differ: re-running
/// the identity-and-record scenario with a fresh run id never reuses an
/// earlier run's remote username, and each run's registry is its own, so
/// runs cannot collide on fixtures either.
pub proof fn lemma_rerun_usernames_distinct(run1: Seq<char>, run2: Seq<char>)
    requires
        run1.len() == run2.len(),
        run1 != run2,
    ensures
        "u1-"@ + run1 != "u1-"@ + run2,
{
    crate::strings::lemma_suffixed_names_distinct("u1-"@, run1, "u1-"@, run2);
}

/// Carries out one remote call of the run: hands the built request to the
/// service, records the interpreted outcome, and shows the whole exchange
/// agrees with the run semantics.
#[verifier::rlimit(100)]
fn run_one_call(
    runner: &mut Runner,
    service: &mut ServiceModel,
    req: RpcRequest,
    Ghost(steps_seq): Ghost<Seq<StepDef>>,
    Ghost(init): Ghost<RunState>,
)
    requires
        old(runner).wf(),
        old(runner).is_pending(),
        old(runner).steps_view() == steps_seq,
        old(runner).outcomes_view().len() < steps_seq.len(),
        !(some_substantive_failed(old(runner).outcomes_view(), cleanup_flags(steps_seq))
            && !steps_seq[old(runner).outcomes_view().len() as int].cleanup),
        spec_build_ok(
            steps_seq[old(runner).outcomes_view().len() as int].kind,
            old(runner).bindings(),
        ),
        req == spec_built(
            steps_seq[old(runner).outcomes_view().len() as int].kind,
            old(runner).bindings(),
            old(runner).outcomes_view().len() as u64,
        ),
        run_matches(
            steps_seq,
            init,
            old(runner).outcomes_view(),
            old(runner).bindings(),
            service_abs(*old(service)),
        ),
        old(service).wf(),
    ensures
        final (runner).wf(),
        !final (runner).is_pending(),
        final (runner).steps_view() == steps_seq,
        final (runner).outcomes_view().len() == old(runner).outcomes_view().len() + 1,
        run_matches(
            steps_seq,
            init,
            final (runner).outcomes_view(),
            final (runner).bindings(),
            service_abs(*final (service)),
        ),
        final (service).wf(),
{
    let ghost k = old(runner).outcomes_view().len() as int;
    let ghost step = steps_seq[k];
    let ghost m = old(runner).bindings();
    let ghost s = service_abs(*old(service));
    let ghost oc_old = old(runner).outcomes_view();
    let ghost cl = cleanup_flags(steps_seq);
    let ghost st = spec_run(steps_seq, k, init);
    let resp = service.handle(&req);
    let ev = CallEvent::Reply(resp);
    runner.complete(&ev);
    proof {
        let s2 = service_abs(*service);
        let o = runner.outcomes_view().last();
        assert(runner.outcomes_view() =~= oc_old.push(o));
        assert(cl[k] == steps_seq[k].cleanup);
        assert(!(st.failed && !step.cleanup));
        // The exchange matches the model, by the step's kind.
        if step.kind is CreateIdentity {
            if has_username(s.identities, req.params->CreateIdentity_username@) {
                assert(spec_passes(step, ev, m) == model_passes(step, m, s));
                assert(!model_passes(step, m, s));
                assert(spec_failure_msg(step, ev, m) == model_failure_msg(step, m, s));
                assert(s2 == model_next_state(step, m, s));
            } else {
                assert(spec_passes(step, ev, m) == model_passes(step, m, s));
                if model_passes(step, m, s) {
                    assert(spec_write(step, ev, m) == model_write(step, m, s));
                } else {
                    assert(spec_failure_msg(step, ev, m) == model_failure_msg(step, m, s));
                }
                assert(s2 == model_next_state(step, m, s));
            }
        } else if step.kind is ValidateIdentity {
            assert(req.params->ValidateIdentity_username == spec_fixture_identity(
                m[step.kind->ValidateIdentity_fixture@],
            ).username);
            assert(spec_passes(step, ev, m) == model_passes(step, m, s));
            if !model_passes(step, m, s) {
                assert(spec_failure_msg(step, ev, m) == model_failure_msg(step, m, s));
            }
            assert(s2 == model_next_state(step, m, s));
        } else if step.kind is CreateRecord {
            let owner = spec_fixture_identity(m[step.kind->CreateRecord_owner_fixture@]).username;
            assert(req.params->CreateRecord_owner == owner);
            if has_username(s.identities, owner@) && s.next_id != u64::MAX {
                assert(s.next_id as u64 == old(service).next_id());
                assert(resp matches RpcResponse::Success(Payload::RecordCreated { id }) && id
                    == s.next_id as u64);
                assert(spec_passes(step, ev, m) == model_passes(step, m, s));
                assert(spec_write(step, ev, m) == model_write(step, m, s));
                assert(s2 == model_next_state(step, m, s));
            } else {
                assert(spec_passes(step, ev, m) == model_passes(step, m, s));
                assert(spec_failure_msg(step, ev, m) == model_failure_msg(step, m, s));
                assert(s2 == model_next_state(step, m, s));
            }
        } else if step.kind is SearchRecords {
            let owner = spec_fixture_identity(
                m[step.kind->SearchRecords_owner_fixture@],
            ).username@;
            let found = owned_records(s.records, owner);
            let visible = spec_visible(s.identities, owner, req.params->SearchRecords_caller);
            assert(resp matches RpcResponse::Success(Payload::SearchResults { records })
                && records@ == record_views(found, visible));
            let rv = resp->Success_0->SearchResults_records;
            assert(rv@.len() == found.len());
            assert(forall|i: int|
                0 <= i < rv@.len() ==> #[trigger] rv@[i] == crate::service_model::record_view_of(
                    found[i],
                    visible,
                ));
            assert(forall|i: int| 0 <= i < rv@.len() ==> ((#[trigger] rv@[i].id is Some)
                == visible));
            let mvisible = match step.kind->SearchRecords_caller_fixture {
                Some(cf) => {
                    let c = spec_fixture_identity(m[cf@]);
                    c.username@ == owner && credentials_valid(s.identities, c.username@, c.secret@)
                },
                None => false,
            };
            assert(visible == mvisible);
            if found.len() == step.kind->expect_count && (found.len() == 0 || mvisible
                == step.kind->expect_ids) {
                assert(model_passes(step, m, s));
                if found.len() > 0 {
                    assert(rv@[0].id is Some == step.kind->expect_ids);
                }
                assert(spec_passes(step, ev, m));
            } else {
                assert(!model_passes(step, m, s));
                if found.len() == step.kind->expect_count {
                    assert(found.len() > 0 && mvisible != step.kind->expect_ids);
                    assert((rv@[0].id is Some) != step.kind->expect_ids);
                    assert(!spec_passes(step, ev, m));
                } else {
                    assert(!spec_passes(step, ev, m));
                }
                assert(spec_failure_msg(step, ev, m) == model_failure_msg(step, m, s));
            }
            assert(spec_write(step, ev, m) is None && model_write(step, m, s) is None);
            assert(s2 == model_next_state(step, m, s));
        } else if step.kind is DeleteIdentity {
            let owner = spec_fixture_identity(m[step.kind->DeleteIdentity_fixture@]).username@;
            assert(req.params->DeleteIdentity_username@ == owner);
            if has_username(s.identities, owner) {
                assert(resp matches RpcResponse::Success(Payload::IdentityDeleted {
                    success,
                    deleted_records,
                }) && success && deleted_records == owned_records(s.records, owner).len());
                assert(spec_passes(step, ev, m) == model_passes(step, m, s));
                if !model_passes(step, m, s) {
                    assert(spec_failure_msg(step, ev, m) == model_failure_msg(step, m, s));
                }
            } else {
                assert(resp matches RpcResponse::Error(re) && re.code == NOT_FOUND_CODE
                    && re.message@ == "identity not found"@);
                assert(spec_passes(step, ev, m) == step.cleanup);
                assert(model_passes(step, m, s) == step.cleanup);
                if !model_passes(step, m, s) {
                    assert(spec_failure_msg(step, ev, m) == model_failure_msg(step, m, s));
                }
            }
            assert(spec_write(step, ev, m) is None && model_write(step, m, s) is None);
            assert(s2 == model_next_state(step, m, s));
        } else if step.kind is AddListItem {
            if s.next_id != u64::MAX {
                assert(s.next_id as u64 == old(service).next_id());
                assert(resp matches RpcResponse::Success(Payload::ListItemAdded { id }) && id
                    == s.next_id as u64);
                assert(spec_passes(step, ev, m) == model_passes(step, m, s));
                assert(spec_write(step, ev, m) == model_write(step, m, s));
            } else {
                assert(spec_passes(step, ev, m) == model_passes(step, m, s));
                assert(spec_failure_msg(step, ev, m) == model_failure_msg(step, m, s));
            }
            assert(s2 == model_next_state(step, m, s));
        } else {
            let id = spec_fixture_id(m[step.kind->DeleteListItem_id_fixture@]);
            assert(req.params->DeleteListItem_id == id);
            assert(spec_passes(step, ev, m) == model_passes(step, m, s));
            if !model_passes(step, m, s) {
                assert(spec_failure_msg(step, ev, m) == model_failure_msg(step, m, s));
            }
            assert(spec_write(step, ev, m) is None && model_write(step, m, s) is None);
            assert(s2 == model_next_state(step, m, s));
        }
        assert(spec_passes(step, ev, m) == model_passes(step, m, s));
        assert((o is Passed) == model_passes(step, m, s));
        if !model_passes(step, m, s) {
            assert(o matches StepOutcome::Failed(msg) && msg@ == model_failure_msg(step, m, s));
        }
        lemma_outcome_abs_push(oc_old, o);
        lemma_substantive_failed_push(oc_old, cl, o);
        let st2 = spec_run(steps_seq, k + 1, init);
        assert(st2 == spec_run_step(step, st));
        assert(run_matches(
            steps_seq,
            init,
            runner.outcomes_view(),
            runner.bindings(),
            service_abs(*service),
        ));
    }
}

/// Drives one scenario to completion against the given service and
/// finalizes its report: one outcome per defined step, fail-fast with
/// guaranteed cleanup, the reported failure as the report module
/// specifies, and the wall-clock duration measured around the run.  The
/// outcomes and the service's final state equal what the run semantics
/// [`spec_run`] assigns to these steps from this initial state: the report
/// is a function of the scenario and the service, never fabricated.
pub fn run_scenario(steps: Vec<StepDef>, service: &mut ServiceModel) -> (rep: ScenarioReport)
    requires
        old(service).wf(),
    ensures
        final (service).wf(),
        rep.outcomes@.len() == steps@.len(),
        rep.passed == all_passed(rep.outcomes@),
        rep.passed == !some_failed(rep.outcomes@),
        (rep.first_failure is Some) == some_failed(rep.outcomes@),
        rep.first_failure matches Some(f) ==> {
            &&& is_reported_failure(rep.outcomes@, cleanup_flags(steps@), f.step as int)
            &&& (rep.outcomes@[f.step as int] matches StepOutcome::Failed(m) && f.reason@ == m@)
        },
        skip_policy(rep.outcomes@, cleanup_flags(steps@)),
        rep.outcomes@.map_values(|o: StepOutcome| outcome_abs(o)) == spec_run(
            steps@,
            steps@.len() as int,
            init_run_state(service_abs(*old(service))),
        ).outcomes,
        service_abs(*final (service)) == spec_run(
            steps@,
            steps@.len() as int,
            init_run_state(service_abs(*old(service))),
        ).service,
{
    let ghost steps_seq = steps@;
    let ghost init = init_run_state(service_abs(*service));
    let started = clock::unix_millis();
    let mut runner = Runner::new(steps);
    proof {
        assert(runner.outcomes_view().map_values(|o: StepOutcome| outcome_abs(o))
            =~= Seq::<SpecOutcome>::empty());
        assert(run_matches(
            steps_seq,
            init,
            runner.outcomes_view(),
            runner.bindings(),
            service_abs(*service),
        ));
    }
    loop
        invariant
            runner.wf(),
            !runner.is_pending(),
            runner.steps_view() == steps_seq,
            service.wf(),
            run_matches(
                steps_seq,
                init,
                runner.outcomes_view(),
                runner.bindings(),
                service_abs(*service),
            ),
        ensures
            runner.wf(),
            !runner.is_pending(),
            runner.steps_view() == steps_seq,
            service.wf(),
            runner.outcomes_view().len() == steps_seq.len(),
            run_matches(
                steps_seq,
                init,
                runner.outcomes_view(),
                runner.bindings(),
                service_abs(*service),
            ),
        decreases steps_seq.len() - runner.outcomes_view().len(),
    {
        let ghost oc0 = runner.outcomes_view();
        let req = runner.next_request();
        proof {
            lemma_run_extends_nocall(
                steps_seq,
                init,
                oc0,
                runner.outcomes_view(),
                runner.bindings(),
                service_abs(*service),
            );
        }
        match req {
            Some(r) => {
                run_one_call(&mut runner, service, r, Ghost(steps_seq), Ghost(init));
            },
            None => {
                break ;
            },
        }
    }
    let ended = clock::unix_millis();
    runner.finish(clock::elapsed_millis(started, ended))
}


/// The list-item scenario's step list, exactly: add one item under the
/// fixture name, then delete it by that fixture.
pub open spec fn list_item_scenario_shape(s: Seq<StepDef>) -> bool {
    &&& s.len() == 2
    &&& (s[0].kind matches StepKind::AddListItem { id_fixture, list_type, name } && id_fixture@
        == "list_item_id"@ && list_type@ == "test_list_type"@ && name@ == "Test item"@)
    &&& !s[0].cleanup
    &&& (s[1].kind matches StepKind::DeleteListItem { id_fixture } && id_fixture@
        == "list_item_id"@)
    &&& !s[1].cleanup
}

/// The identity-and-record scenario's step list, exactly, for a given run
/// id.
pub open spec fn standard_scenario_shape(s: Seq<StepDef>, run_id: Seq<char>) -> bool {
    &&& s.len() == 8
    &&& (s[0].kind matches StepKind::CreateIdentity { fixture, username, secret } && fixture@
        == "test_user"@ && username@ == "u1-"@ + run_id && secret@ == "user-one-secret"@)
    &&& !s[0].cleanup
    &&& (s[1].kind matches StepKind::ValidateIdentity { fixture, secret_override, expect_valid }
        && fixture@ == "test_user"@ && secret_override is None && expect_valid)
    &&& !s[1].cleanup
    &&& (s[2].kind matches StepKind::ValidateIdentity { fixture, secret_override, expect_valid }
        && fixture@ == "test_user"@ && (secret_override matches Some(sec) && sec@
        == "wrong-secret"@) && !expect_valid)
    &&& !s[2].cleanup
    &&& (s[3].kind matches StepKind::CreateRecord { owner_fixture, id_fixture, content }
        && owner_fixture@ == "test_user"@ && id_fixture@ == "last_record_id"@ && content@
        == "Test record"@)
    &&& !s[3].cleanup
    &&& (s[4].kind matches StepKind::SearchRecords {
        owner_fixture,
        caller_fixture,
        expect_count,
        expect_ids,
    } && owner_fixture@ == "test_user"@ && (caller_fixture matches Some(cf) && cf@
        == "test_user"@) && expect_count == 1 && expect_ids)
    &&& !s[4].cleanup
    &&& (s[5].kind matches StepKind::SearchRecords {
        owner_fixture,
        caller_fixture,
        expect_count,
        expect_ids,
    } && owner_fixture@ == "test_user"@ && caller_fixture is None && expect_count == 1
        && !expect_ids)
    &&& !s[5].cleanup
    &&& (s[6].kind matches StepKind::DeleteIdentity { fixture, expect_deleted } && fixture@
        == "test_user"@ && expect_deleted == Some(1u64))
    &&& !s[6].cleanup
    &&& (s[7].kind matches StepKind::DeleteIdentity { fixture, expect_deleted } && fixture@
        == "test_user"@ && expect_deleted is None)
    &&& s[7].cleanup
}

/// The identity-and-record scenario passes in full from any service state
/// in which the run-suffixed username is unused and owns no records: the
/// run semantics records eight passing outcomes.  Since names suffixed
/// with a fresh run id differ from every other run's names
/// ([`lemma_rerun_usernames_distinct`]), a re-run under a fresh run id
/// passes — and collides with nothing — whatever state earlier runs left.
/// The id-counter bound is inherent, not a proof convenience: a service
/// whose counter is exhausted refuses the record creation, so the law is
/// stated without that one input.
#[verifier::rlimit(100)]
pub proof fn lemma_standard_scenario_passes(steps: Seq<StepDef>, run_id: Seq<char>, s0: ServiceState)
    requires
        standard_scenario_shape(steps, run_id),
        !has_username(s0.identities, "u1-"@ + run_id),
        owned_records(s0.records, "u1-"@ + run_id) == Seq::<Record>::empty(),
        0 <= s0.next_id < u64::MAX,
    ensures
        ({
            let st = spec_run(steps, 8, init_run_state(s0));
            &&& st.outcomes.len() == 8
            &&& (forall|i: int| 0 <= i < 8 ==> st.outcomes[i] is Passed)
        }),
{
    reveal_strlit("test_user");
    reveal_strlit("last_record_id");
    reveal_strlit("user-one-secret");
    reveal_strlit("wrong-secret");
    let u0v = "u1-"@ + run_id;
    let init = init_run_state(s0);
    let st0 = spec_run(steps, 0, init);
    assert(st0 == init);

    // Step 0: create the identity under the unused name.
    let st1 = spec_run(steps, 1, init);
    assert(st1 == spec_run_step(steps[0], st0));
    assert(spec_build_ok(steps[0].kind, st0.bindings));
    assert(!st0.bindings.contains_key("test_user"@));
    assert(model_passes(steps[0], st0.bindings, st0.service));
    let m1 = st1.bindings;
    let ids1 = st1.service.identities;
    assert(st1.outcomes =~= Seq::<SpecOutcome>::empty().push(SpecOutcome::Passed));
    assert(m1.contains_key("test_user"@) && m1["test_user"@] is Identity);
    assert(spec_fixture_identity(m1["test_user"@]).username@ == u0v);
    assert(spec_fixture_identity(m1["test_user"@]).secret@ == "user-one-secret"@);
    assert(ids1 == s0.identities.push(spec_fixture_identity(m1["test_user"@]))) by {
        assert(st1.service == model_next_state(steps[0], st0.bindings, st0.service));
    }
    let at = s0.identities.len() as int;
    assert(ids1[at].username@ == u0v && ids1[at].secret@ == "user-one-secret"@);
    assert(credentials_valid(ids1, u0v, "user-one-secret"@));
    assert(st1.service.records == s0.records && st1.service.next_id == s0.next_id);
    assert(!st1.failed);

    // Step 1: the identity validates with its own secret.
    let st2 = spec_run(steps, 2, init);
    assert(st2 == spec_run_step(steps[1], st1));
    assert(spec_build_ok(steps[1].kind, m1));
    assert(model_passes(steps[1], m1, st1.service));
    assert(st2.bindings == m1 && st2.service == st1.service && !st2.failed);

    // Step 2: a wrong secret reports invalid, which the step expects.
    let st3 = spec_run(steps, 3, init);
    assert(st3 == spec_run_step(steps[2], st2));
    assert(spec_build_ok(steps[2].kind, m1));
    if credentials_valid(ids1, u0v, "wrong-secret"@) {
        let j = choose|j: int|
            0 <= j < ids1.len() && ids1[j].username@ == u0v && ids1[j].secret@ == "wrong-secret"@;
        if j < at {
            assert(s0.identities[j].username@ == u0v);
            assert(has_username(s0.identities, u0v));
        } else {
            assert("user-one-secret"@.len() == 15);
            assert("wrong-secret"@.len() == 12);
        }
        assert(false);
    }
    assert(model_passes(steps[2], m1, st2.service));
    assert(st3.bindings == m1 && st3.service == st1.service && !st3.failed);

    // Step 3: the record is created and its id stored.
    let st4 = spec_run(steps, 4, init);
    assert(st4 == spec_run_step(steps[3], st3));
    assert(spec_build_ok(steps[3].kind, m1));
    assert(has_username(ids1, u0v));
    assert(model_passes(steps[3], m1, st3.service));
    let m3 = st4.bindings;
    let rs4 = st4.service.records;
    assert(m3 == m1.insert("last_record_id"@, FixtureValue::Id(s0.next_id as u64)));
    assert("last_record_id"@.len() == 14);
    assert("test_user"@.len() == 9);
    assert(m3.contains_key("test_user"@) && m3["test_user"@] == m1["test_user"@]);
    let rec = Record {
        id: s0.next_id as u64,
        owner: spec_fixture_identity(m1["test_user"@]).username,
        content: steps[3].kind->CreateRecord_content,
    };
    assert(rs4 == s0.records.push(rec)) by {
        assert(st4.service == model_next_state(steps[3], m1, st3.service));
    }
    assert(rs4.drop_last() =~= s0.records);
    assert(owned_records(rs4, u0v) =~= owned_records(s0.records, u0v).push(rec));
    assert(owned_records(rs4, u0v) =~= Seq::<Record>::empty().push(rec));
    assert(owned_records(rs4, u0v).len() == 1);
    assert(st4.service.identities == ids1 && !st4.failed);

    // Step 4: the owner's search sees the one record with its id.
    let st5 = spec_run(steps, 5, init);
    assert(st5 == spec_run_step(steps[4], st4));
    assert(spec_build_ok(steps[4].kind, m3));
    assert(model_passes(steps[4], m3, st4.service));
    assert(st5.bindings == m3 && st5.service == st4.service && !st5.failed);

    // Step 5: the anonymous search sees the record without its id.
    let st6 = spec_run(steps, 6, init);
    assert(st6 == spec_run_step(steps[5], st5));
    assert(spec_build_ok(steps[5].kind, m3));
    assert(model_passes(steps[5], m3, st5.service));
    assert(st6.bindings == m3 && st6.service == st4.service && !st6.failed);

    // Step 6: the delete cascades over exactly the one record.
    let st7 = spec_run(steps, 7, init);
    assert(st7 == spec_run_step(steps[6], st6));
    assert(spec_build_ok(steps[6].kind, m3));
    assert(model_passes(steps[6], m3, st6.service));
    assert(st7.service.identities == without_username(ids1, u0v)) by {
        assert(st7.service == model_next_state(steps[6], m3, st6.service));
    }
    crate::service_model::lemma_without_username_no_match(ids1, u0v);
    assert(!has_username(st7.service.identities, u0v));
    assert(st7.bindings == m3 && !st7.failed);

    // Step 7: the cleanup delete finds the identity already gone.
    let st8 = spec_run(steps, 8, init);
    assert(st8 == spec_run_step(steps[7], st7));
    assert(spec_build_ok(steps[7].kind, m3));
    assert(steps[7].cleanup);
    assert(model_passes(steps[7], m3, st7.service));

    assert(st8.outcomes.len() == 8);
    assert(forall|i: int| 0 <= i < 8 ==> st8.outcomes[i] is Passed);
}

/// The integration-test command: holds its options and defines the
/// scenarios it runs.
pub struct IntegrationTests {
    pub opts: IntegrationTestsOpts,
}

impl IntegrationTests {
    pub fn new(opts: IntegrationTestsOpts) -> (r: IntegrationTests)
        ensures
            r.opts == opts,
    {
        IntegrationTests { opts }
    }

    /// The list-item scenario: add a list item, then delete it again by the
    /// id the first step produced.
    pub fn list_item_scenario(&self) -> (r: Vec<StepDef>)
        ensures
            list_item_scenario_shape(r@),
            identities_cleaned(r@),
    {
        let mut v: Vec<StepDef> = Vec::new();
        v.push(
            StepDef {
                kind: StepKind::AddListItem {
                    id_fixture: "list_item_id".to_owned(),
                    list_type: "test_list_type".to_owned(),
                    name: "Test item".to_owned(),
                },
                cleanup: false,
            },
        );
        v.push(
            StepDef {
                kind: StepKind::DeleteListItem { id_fixture: "list_item_id".to_owned() },
                cleanup: false,
            },
        );
        v
    }

    /// The identity-and-record scenario: create an identity under a
    /// run-unique name; validate it with its own secret and with a wrong
    /// one; create a record it owns; search as the owner (one result, id
    /// present) and with no caller (one result, id absent); delete the
    /// identity expecting one cascade-deleted record; and a final cleanup
    /// delete that tolerates the identity being already gone.
    pub fn standard_scenario(&self, run_id: &str) -> (r: Vec<StepDef>)
        ensures
            standard_scenario_shape(r@, run_id@),
            identities_cleaned(r@),
    {
        let mut v: Vec<StepDef> = Vec::new();
        v.push(
            StepDef {
                kind: StepKind::CreateIdentity {
                    fixture: "test_user".to_owned(),
                    username: with_run_suffix("u1-", run_id),
                    secret: "user-one-secret".to_owned(),
                },
                cleanup: false,
            },
        );
        v.push(
            StepDef {
                kind: StepKind::ValidateIdentity {
                    fixture: "test_user".to_owned(),
                    secret_override: None,
                    expect_valid: true,
                },
                cleanup: false,
            },
        );
        v.push(
            StepDef {
                kind: StepKind::ValidateIdentity {
                    fixture: "test_user".to_owned(),
                    secret_override: Some("wrong-secret".to_owned()),
                    expect_valid: false,
                },
                cleanup: false,
            },
        );
        v.push(
            StepDef {
                kind: StepKind::CreateRecord {
                    owner_fixture: "test_user".to_owned(),
                    id_fixture: "last_record_id".to_owned(),
                    content: "Test record".to_owned(),
                },
                cleanup: false,
            },
        );
        v.push(
            StepDef {
                kind: StepKind::SearchRecords {
                    owner_fixture: "test_user".to_owned(),
                    caller_fixture: Some("test_user".to_owned()),
                    expect_count: 1,
                    expect_ids: true,
                },
                cleanup: false,
            },
        );
        v.push(
            StepDef {
                kind: StepKind::SearchRecords {
                    owner_fixture: "test_user".to_owned(),
                    caller_fixture: None,
                    expect_count: 1,
                    expect_ids: false,
                },
                cleanup: false,
            },
        );
        v.push(
            StepDef {
                kind: StepKind::DeleteIdentity {
                    fixture: "test_user".to_owned(),
                    expect_deleted: Some(1),
                },
                cleanup: false,
            },
        );
        v.push(
            StepDef {
                kind: StepKind::DeleteIdentity { fixture: "test_user".to_owned(), expect_deleted: None },
                cleanup: true,
            },
        );
        proof {
            assert(identities_cleaned(v@)) by {
                assert forall|i: int|
                    0 <= i < v@.len() implies ((#[trigger] v@[i].kind)
                    matches StepKind::CreateIdentity { fixture, .. } ==> cleanup_covers(
                    v@,
                    fixture@,
                )) by {
                    if v@[i].kind is CreateIdentity {
                        assert(i == 0);
                        assert(cleanup_covers(v@, "test_user"@)) by {
                            assert(is_cleanup_delete_of(v@[7], "test_user"@));
                            assert forall|j1: int, j2: int|
                                0 <= j1 < v@.len() && 0 <= j2 < v@.len() && is_cleanup_delete_of(
                                    #[trigger] v@[j1],
                                    "test_user"@,
                                ) && is_cleanup_delete_of(#[trigger] v@[j2], "test_user"@) implies
                                j1 == j2 by {
                                assert(j1 == 7 && j2 == 7);
                            }
                        }
                    }
                }
            }
        }
        v
    }


    /// The identity-and-record scenario, run against a fresh in-memory
    /// service, passes every step: the created identity validates with its
    /// secret and not with another, its record is visible with its id
    /// exactly to the owner, the delete reports one cascade-deleted record,
    /// and the final cleanup finds the identity already gone.  The passing
    /// report is proved, for every run id, not observed, and the outcomes
    /// follow the run semantics over the built scenario.
    pub fn self_check(&self, run_id: &str) -> (rep: ScenarioReport)
        ensures
            rep.outcomes@.len() == 8,
            rep.passed,
            exists|steps: Seq<StepDef>|
                #[trigger] standard_scenario_shape(steps, run_id@) && rep.outcomes@.map_values(
                    |o: StepOutcome| outcome_abs(o),
                ) == spec_run(
                    steps,
                    8,
                    init_run_state(
                        ServiceState {
                            identities: Seq::empty(),
                            records: Seq::empty(),
                            list_items: Seq::empty(),
                            next_id: 1,
                        },
                    ),
                ).outcomes,
    {
        let mut service = ServiceModel::new();
        let ghost s0 = service_abs(service);
        let steps = self.standard_scenario(run_id);
        let ghost steps_seq = steps@;
        let rep = run_scenario(steps, &mut service);
        proof {
            assert(s0 == ServiceState {
                identities: Seq::<Identity>::empty(),
                records: Seq::<Record>::empty(),
                list_items: Seq::<crate::service_model::ListItem>::empty(),
                next_id: 1,
            });
            assert(!has_username(s0.identities, "u1-"@ + run_id@));
            assert(owned_records(s0.records, "u1-"@ + run_id@) =~= Seq::<Record>::empty());
            lemma_standard_scenario_passes(steps_seq, run_id@, s0);
            let st = spec_run(steps_seq, 8, init_run_state(s0));
            assert(rep.outcomes@.map_values(|o: StepOutcome| outcome_abs(o)) == st.outcomes);
            assert forall|i: int| 0 <= i < 8 implies rep.outcomes@[i] is Passed by {
                assert(outcome_abs(rep.outcomes@[i]) == st.outcomes[i]);
                assert(st.outcomes[i] is Passed);
            }
            assert(all_passed(rep.outcomes@));
        }
        rep
    }

    /// Runs both scenarios, each under its own runner and registry, against
    /// the given service: success exactly when both reports passed, and
    /// otherwise the first failing report's reported failure reason.  Both
    /// reports and the service's final state are pinned by the run
    /// semantics: the first follows [`spec_run`] over a list-item scenario
    /// from the given service, the second follows it over an
    /// identity-and-record scenario (under the fresh run id) from the state
    /// the first run left.
    pub fn run_tests(&self, service: &mut ServiceModel) -> (r: (
        Vec<ScenarioReport>,
        Result<(), String>,
    ))
        requires
            old(service).wf(),
        ensures
            final (service).wf(),
            r.0@.len() == 2,
            r.0@[0].outcomes@.len() == 2,
            r.0@[1].outcomes@.len() == 8,
            r.0@[0].passed == all_passed(r.0@[0].outcomes@),
            r.0@[1].passed == all_passed(r.0@[1].outcomes@),
            (r.1 is Ok) == (r.0@[0].passed && r.0@[1].passed),
            r.1 matches Err(m) ==> {
                ||| (!r.0@[0].passed && (r.0@[0].first_failure matches Some(f) && m@
                    == f.reason@))
                ||| (r.0@[0].passed && !r.0@[1].passed && (r.0@[1].first_failure matches Some(f)
                    && m@ == f.reason@))
            },
            exists|steps1: Seq<StepDef>, steps2: Seq<StepDef>, rid: Seq<char>|
                #![trigger list_item_scenario_shape(steps1), standard_scenario_shape(steps2, rid)]
                {
                    let st1 = spec_run(
                        steps1,
                        steps1.len() as int,
                        init_run_state(service_abs(*old(service))),
                    );
                    let st2 = spec_run(steps2, steps2.len() as int, init_run_state(st1.service));
                    &&& list_item_scenario_shape(steps1)
                    &&& standard_scenario_shape(steps2, rid)
                    &&& r.0@[0].outcomes@.map_values(|o: StepOutcome| outcome_abs(o))
                        == st1.outcomes
                    &&& r.0@[1].outcomes@.map_values(|o: StepOutcome| outcome_abs(o))
                        == st2.outcomes
                    &&& service_abs(*final (service)) == st2.service
                },
    {
        let run_id = new_run_id();
        let steps1 = self.list_item_scenario();
        let ghost steps1_seq = steps1@;
        let rep1 = run_scenario(steps1, service);
        let steps2 = self.standard_scenario(run_id.as_str());
        let ghost steps2_seq = steps2@;
        let rep2 = run_scenario(steps2, service);
        proof {
            assert(list_item_scenario_shape(steps1_seq) && standard_scenario_shape(
                steps2_seq,
                run_id@,
            ));
        }
        let result: Result<(), String> = if rep1.passed && rep2.passed {
            Ok(())
        } else if !rep1.passed {
            match &rep1.first_failure {
                Some(f) => Err(f.reason.clone()),
                None => {
                    proof {
                        assert(false);
                    }
                    Err(String::new())
                },
            }
        } else {
            match &rep2.first_failure {
                Some(f) => Err(f.reason.clone()),
                None => {
                    proof {
                        assert(false);
                    }
                    Err(String::new())
                },
            }
        };
        let mut reports: Vec<ScenarioReport> = Vec::new();
        reports.push(rep1);
        reports.push(rep2);
        (reports, result)
    }
}

} // verus!