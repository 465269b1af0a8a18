//! The scenario harness end to end: fixtures, steps, runner policy, and the
//! service model's behavioural invariants.
use mngr::fixtures::{FixtureError, FixtureRegistry, FixtureValue};
use mngr::report::StepOutcome;
use mngr::rpc::{CallEvent, Identity, Method, Params, Payload, RpcRequest, RpcResponse};
use mngr::scenarios::{new_run_id, run_scenario, IntegrationTests};
use mngr::service_model::ServiceModel;
use mngr::steps::{build_request, interpret_response, StepDef, StepKind};
use mngr::IntegrationTestsOpts;

fn request(method: Method, params: Params, correlation_id: u64) -> RpcRequest {
    RpcRequest { method, params, correlation_id }
}

fn create_identity(service: &mut ServiceModel, username: &str, secret: &str) {
    let resp = service.handle(&request(
        Method::CreateIdentity,
        Params::CreateIdentity { username: username.to_string(), secret: secret.to_string() },
        0,
    ));
    assert!(matches!(resp, RpcResponse::Success(Payload::IdentityCreated { .. })));
}

fn create_record(service: &mut ServiceModel, owner: &str, content: &str) -> u64 {
    let resp = service.handle(&request(
        Method::CreateRecord,
        Params::CreateRecord { owner: owner.to_string(), content: content.to_string() },
        0,
    ));
    match resp {
        RpcResponse::Success(Payload::RecordCreated { id }) => id,
        _ => panic!("record creation refused"),
    }
}

fn search(service: &mut ServiceModel, owner: &str, caller: Option<Identity>) -> Vec<mngr::rpc::RecordView> {
    let resp = service.handle(&request(
        Method::SearchRecords,
        Params::SearchRecords { owner: owner.to_string(), caller },
        0,
    ));
    match resp {
        RpcResponse::Success(Payload::SearchResults { records }) => records,
        _ => panic!("search refused"),
    }
}

#[test]
fn registry_defines_once() {
    let mut reg = FixtureRegistry::new();
    assert!(reg.define("name".to_string(), FixtureValue::Id(1)).is_ok());
    match reg.define("name".to_string(), FixtureValue::Id(2)) {
        Err(FixtureError::DuplicateFixture(n)) => assert_eq!(n, "name"),
        _ => panic!("second definition must be a duplicate"),
    }
    match reg.get("name") {
        Ok(FixtureValue::Id(id)) => assert_eq!(*id, 1),
        _ => panic!("defined fixture must be readable"),
    }
}

#[test]
fn registry_reports_missing() {
    let reg = FixtureRegistry::new();
    match reg.get("absent") {
        Err(FixtureError::MissingFixture(n)) => assert_eq!(n, "absent"),
        _ => panic!("an absent fixture must be missing"),
    }
}

#[test]
fn registry_set_updates() {
    let mut reg = FixtureRegistry::new();
    assert!(reg.define("last_record_id".to_string(), FixtureValue::Id(1)).is_ok());
    reg.set("last_record_id".to_string(), FixtureValue::Id(9));
    match reg.get("last_record_id") {
        Ok(FixtureValue::Id(id)) => assert_eq!(*id, 9),
        _ => panic!("updated fixture must hold the newer value"),
    }
}

#[test]
fn build_request_names_missing_fixture() {
    let reg = FixtureRegistry::new();
    let step = StepDef {
        kind: StepKind::DeleteIdentity { fixture: "test_user".to_string(), expect_deleted: None },
        cleanup: false,
    };
    match build_request(&step, &reg, 0) {
        Err(FixtureError::MissingFixture(n)) => assert_eq!(n, "test_user"),
        _ => panic!("building without the fixture must fail"),
    }
}

#[test]
fn transport_failure_is_a_failed_step() {
    let mut reg = FixtureRegistry::new();
    let step = StepDef {
        kind: StepKind::AddListItem {
            id_fixture: "list_item_id".to_string(),
            list_type: "test_list_type".to_string(),
            name: "Test item".to_string(),
        },
        cleanup: false,
    };
    let outcome = interpret_response(&step, &CallEvent::Transport("timeout".to_string()), &mut reg);
    match outcome {
        StepOutcome::Failed(reason) => assert_eq!(reason, "transport failure: timeout"),
        _ => panic!("a transport failure must fail the step"),
    }
}

#[test]
fn remote_error_detail_is_preserved() {
    let mut reg = FixtureRegistry::new();
    let step = StepDef {
        kind: StepKind::AddListItem {
            id_fixture: "list_item_id".to_string(),
            list_type: "test_list_type".to_string(),
            name: "Test item".to_string(),
        },
        cleanup: false,
    };
    let event = CallEvent::Reply(RpcResponse::Error(mngr::rpc::RemoteError {
        code: 500,
        message: "backend out of order".to_string(),
    }));
    let outcome = interpret_response(&step, &event, &mut reg);
    match outcome {
        StepOutcome::Failed(reason) => assert_eq!(reason, "remote error: backend out of order"),
        _ => panic!("a remote error must fail the step"),
    }
}

#[test]
fn search_count_mismatch_shows_expected_and_actual() {
    let mut reg = FixtureRegistry::new();
    let step = StepDef {
        kind: StepKind::SearchRecords {
            owner_fixture: "test_user".to_string(),
            caller_fixture: None,
            expect_count: 5,
            expect_ids: false,
        },
        cleanup: false,
    };
    let event = CallEvent::Reply(RpcResponse::Success(Payload::SearchResults { records: Vec::new() }));
    let outcome = interpret_response(&step, &event, &mut reg);
    match outcome {
        StepOutcome::Failed(reason) => {
            assert_eq!(reason, "search result count mismatch: expected 5, actual 0")
        }
        _ => panic!("a count mismatch must fail the step"),
    }
}

#[test]
fn cascade_count_mismatch_shows_expected_and_actual() {
    let mut reg = FixtureRegistry::new();
    let step = StepDef {
        kind: StepKind::DeleteIdentity {
            fixture: "test_user".to_string(),
            expect_deleted: Some(2),
        },
        cleanup: false,
    };
    let event = CallEvent::Reply(RpcResponse::Success(Payload::IdentityDeleted {
        success: true,
        deleted_records: 1,
    }));
    let outcome = interpret_response(&step, &event, &mut reg);
    match outcome {
        StepOutcome::Failed(reason) => {
            assert_eq!(reason, "cascade delete count mismatch: expected 2, actual 1")
        }
        _ => panic!("a cascade mismatch must fail the step"),
    }
}

#[test]
fn validation_mismatch_shows_expected_and_actual() {
    let mut reg = FixtureRegistry::new();
    let step = StepDef {
        kind: StepKind::ValidateIdentity {
            fixture: "test_user".to_string(),
            secret_override: None,
            expect_valid: true,
        },
        cleanup: false,
    };
    let event = CallEvent::Reply(RpcResponse::Success(Payload::Validation { valid: false }));
    let outcome = interpret_response(&step, &event, &mut reg);
    match outcome {
        StepOutcome::Failed(reason) => {
            assert_eq!(reason, "identity validation mismatch: expected true, actual false")
        }
        _ => panic!("a validation mismatch must fail the step"),
    }
}

#[test]
fn search_ids_visible_only_to_owner() {
    let mut service = ServiceModel::new();
    create_identity(&mut service, "alice", "wonder");
    create_identity(&mut service, "bob", "builder");
    let id = create_record(&mut service, "alice", "note");

    let as_owner = search(
        &mut service,
        "alice",
        Some(Identity::new("alice".to_string(), "wonder".to_string())),
    );
    assert_eq!(as_owner.len(), 1);
    assert_eq!(as_owner[0].id, Some(id));
    assert_eq!(as_owner[0].owner, "alice");
    assert_eq!(as_owner[0].content, "note");

    let no_caller = search(&mut service, "alice", None);
    assert_eq!(no_caller.len(), 1);
    assert_eq!(no_caller[0].id, None);
    assert_eq!(no_caller[0].owner, "alice");
    assert_eq!(no_caller[0].content, "note");

    let as_other = search(
        &mut service,
        "alice",
        Some(Identity::new("bob".to_string(), "builder".to_string())),
    );
    assert_eq!(as_other.len(), 1);
    assert_eq!(as_other[0].id, None);

    let wrong_secret = search(
        &mut service,
        "alice",
        Some(Identity::new("alice".to_string(), "guessed".to_string())),
    );
    assert_eq!(wrong_secret.len(), 1);
    assert_eq!(wrong_secret[0].id, None);
}

#[test]
fn search_with_no_records_returns_zero_results() {
    let mut service = ServiceModel::new();
    create_identity(&mut service, "alice", "wonder");
    let results = search(&mut service, "alice", None);
    assert_eq!(results.len(), 0);
}

#[test]
fn cascade_delete_reports_exact_count() {
    let mut service = ServiceModel::new();
    create_identity(&mut service, "alice", "wonder");
    create_identity(&mut service, "bob", "builder");
    create_record(&mut service, "alice", "only record");

    let resp = service.handle(&request(
        Method::DeleteIdentity,
        Params::DeleteIdentity { username: "alice".to_string() },
        0,
    ));
    match resp {
        RpcResponse::Success(Payload::IdentityDeleted { success, deleted_records }) => {
            assert!(success);
            assert_eq!(deleted_records, 1);
        }
        _ => panic!("deleting an existing identity must succeed"),
    }

    let resp = service.handle(&request(
        Method::DeleteIdentity,
        Params::DeleteIdentity { username: "bob".to_string() },
        1,
    ));
    match resp {
        RpcResponse::Success(Payload::IdentityDeleted { success, deleted_records }) => {
            assert!(success);
            assert_eq!(deleted_records, 0);
        }
        _ => panic!("deleting an unrelated identity must succeed"),
    }
}

#[test]
fn validate_identity_reports_flag_not_error() {
    let mut service = ServiceModel::new();
    create_identity(&mut service, "alice", "wonder");

    let resp = service.handle(&request(
        Method::ValidateIdentity,
        Params::ValidateIdentity { username: "alice".to_string(), secret: "wonder".to_string() },
        0,
    ));
    match resp {
        RpcResponse::Success(Payload::Validation { valid }) => assert!(valid),
        _ => panic!("validation must answer, not error"),
    }

    let resp = service.handle(&request(
        Method::ValidateIdentity,
        Params::ValidateIdentity { username: "alice".to_string(), secret: "guessed".to_string() },
        1,
    ));
    match resp {
        RpcResponse::Success(Payload::Validation { valid }) => assert!(!valid),
        _ => panic!("a wrong secret must answer valid = false, not an error"),
    }
}

#[test]
fn duplicate_identity_is_a_conflict() {
    let mut service = ServiceModel::new();
    create_identity(&mut service, "alice", "wonder");
    let resp = service.handle(&request(
        Method::CreateIdentity,
        Params::CreateIdentity { username: "alice".to_string(), secret: "again".to_string() },
        1,
    ));
    match resp {
        RpcResponse::Error(e) => assert_eq!(e.code, mngr::service_model::CONFLICT_CODE),
        _ => panic!("a duplicate identity must be refused"),
    }
}

#[test]
fn standard_scenario_end_to_end() {
    let mut service = ServiceModel::new();
    let harness = IntegrationTests::new(IntegrationTestsOpts::new(
        "localhost".to_string(),
        "key".to_string(),
        "value".to_string(),
    ));
    let run_id = new_run_id();
    assert_eq!(run_id.chars().count(), 36);
    let steps = harness.standard_scenario(&run_id);
    assert_eq!(steps.len(), 8);
    let report = run_scenario(steps, &mut service);
    assert_eq!(report.outcomes.len(), 8);
    for outcome in &report.outcomes {
        assert!(outcome.is_passed(), "step failed: {:?}", outcome.failure_reason());
    }
    assert!(report.passed);
    assert!(report.first_failure.is_none());
}

#[test]
fn list_item_scenario_round_trip() {
    let mut service = ServiceModel::new();
    let harness = IntegrationTests::new(IntegrationTestsOpts::new(
        "localhost".to_string(),
        "key".to_string(),
        "value".to_string(),
    ));
    let report = run_scenario(harness.list_item_scenario(), &mut service);
    assert_eq!(report.outcomes.len(), 2);
    assert!(report.passed);
}

#[test]
fn self_check_passes() {
    let harness = IntegrationTests::new(IntegrationTestsOpts::new(
        "localhost".to_string(),
        "key".to_string(),
        "value".to_string(),
    ));
    let report = harness.self_check("fresh-run-id");
    assert_eq!(report.outcomes.len(), 8);
    assert!(report.passed);
}

#[test]
fn run_tests_passes_on_a_fresh_service() {
    let mut service = ServiceModel::new();
    let harness = IntegrationTests::new(IntegrationTestsOpts::new(
        "localhost".to_string(),
        "key".to_string(),
        "value".to_string(),
    ));
    let (reports, verdict) = harness.run_tests(&mut service);
    assert_eq!(reports.len(), 2);
    assert!(reports[0].passed);
    assert!(reports[1].passed);
    assert!(verdict.is_ok());
}

#[test]
fn reruns_with_fresh_run_ids_do_not_collide() {
    let mut service = ServiceModel::new();
    let harness = IntegrationTests::new(IntegrationTestsOpts::new(
        "localhost".to_string(),
        "key".to_string(),
        "value".to_string(),
    ));
    let (first_reports, first_result) = harness.run_tests(&mut service);
    let (second_reports, second_result) = harness.run_tests(&mut service);
    assert!(first_result.is_ok());
    assert!(second_result.is_ok(), "a rerun under a fresh run id must not collide");
    assert!(first_reports[1].passed && second_reports[1].passed);
}

#[test]
fn fail_fast_skips_substantive_steps_but_runs_cleanup() {
    let mut service = ServiceModel::new();
    let steps = vec![
        StepDef {
            kind: StepKind::CreateIdentity {
                fixture: "test_user".to_string(),
                username: "carol".to_string(),
                secret: "maze".to_string(),
            },
            cleanup: false,
        },
        StepDef {
            kind: StepKind::SearchRecords {
                owner_fixture: "test_user".to_string(),
                caller_fixture: None,
                expect_count: 5,
                expect_ids: false,
            },
            cleanup: false,
        },
        StepDef {
            kind: StepKind::CreateRecord {
                owner_fixture: "test_user".to_string(),
                id_fixture: "last_record_id".to_string(),
                content: "never created".to_string(),
            },
            cleanup: false,
        },
        StepDef {
            kind: StepKind::DeleteIdentity { fixture: "test_user".to_string(), expect_deleted: None },
            cleanup: true,
        },
    ];
    let report = run_scenario(steps, &mut service);
    assert_eq!(report.outcomes.len(), 4);
    assert!(report.outcomes[0].is_passed());
    assert!(report.outcomes[1].is_failed());
    assert!(report.outcomes[2].is_skipped());
    assert!(report.outcomes[3].is_passed(), "cleanup must still run after a failure");
    assert!(!report.passed);
    let failure = report.first_failure.expect("a failed run must name its failure");
    assert_eq!(failure.step, 1);
    assert_eq!(failure.reason, "search result count mismatch: expected 5, actual 0");

    // The cleanup really deleted the identity: validating it now reports invalid.
    let resp = service.handle(&request(
        Method::ValidateIdentity,
        Params::ValidateIdentity { username: "carol".to_string(), secret: "maze".to_string() },
        9,
    ));
    match resp {
        RpcResponse::Success(Payload::Validation { valid }) => assert!(!valid),
        _ => panic!("validation must answer"),
    }
}

#[test]
fn cleanup_tolerates_already_deleted_identity() {
    let mut reg = FixtureRegistry::new();
    let step = StepDef {
        kind: StepKind::DeleteIdentity { fixture: "test_user".to_string(), expect_deleted: None },
        cleanup: true,
    };
    let event = CallEvent::Reply(RpcResponse::Error(mngr::rpc::RemoteError {
        code: mngr::rpc::NOT_FOUND_CODE,
        message: "identity not found".to_string(),
    }));
    let outcome = interpret_response(&step, &event, &mut reg);
    assert!(outcome.is_passed(), "an already-gone identity is a successful cleanup");
}

#[test]
fn correlation_ids_follow_step_order() {
    let reg = {
        let mut reg = FixtureRegistry::new();
        reg.define(
            "test_user".to_string(),
            FixtureValue::Identity(Identity::new("dave".to_string(), "pit".to_string())),
        )
        .unwrap();
        reg
    };
    let step = StepDef {
        kind: StepKind::ValidateIdentity {
            fixture: "test_user".to_string(),
            secret_override: None,
            expect_valid: true,
        },
        cleanup: false,
    };
    let req = build_request(&step, &reg, 3).expect("fixture is present");
    assert_eq!(req.correlation_id, 3);
    match req.params {
        Params::ValidateIdentity { username, secret } => {
            assert_eq!(username, "dave");
            assert_eq!(secret, "pit");
        }
        _ => panic!("a validate step builds a validate request"),
    }
}
