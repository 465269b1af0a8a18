//! Step definitions: one unit per business operation.  A step names the
//! fixtures it consumes, builds its request from them, and judges the
//! response against its validation rule, writing any produced fixtures back
//! into the registry.
use crate::fixtures::{FixtureError, FixtureRegistry, FixtureValue};
use crate::report::StepOutcome;
use crate::rpc::{
    CallEvent, Identity, Method, Params, Payload, RpcRequest, RpcResponse,
    NOT_FOUND_CODE,
};
use crate::strings::{decimal_string, spec_decimal, str_eq};
use vstd::prelude::*;

verus! {

/// One remote operation together with its validation rule.  Fixture fields
/// name registry entries; the other fields are literal scenario data.
pub enum StepKind {
    /// Creates a remote identity and defines it under `fixture`.
    CreateIdentity { fixture: String, username: String, secret: String },
    /// Validates the identity stored under `fixture`, with `secret_override`
    /// in place of the stored secret when supplied, and expects the service
    /// to answer with the given validity flag.
    ValidateIdentity { fixture: String, secret_override: Option<String>, expect_valid: bool },
    /// Creates a record owned by the identity under `owner_fixture` and
    /// stores the produced record id under `id_fixture` (documented update:
    /// a later creation may overwrite it).
    CreateRecord { owner_fixture: String, id_fixture: String, content: String },
    /// Searches the records owned by the identity under `owner_fixture`,
    /// optionally calling as the identity under `caller_fixture`, and
    /// expects the given result count and id visibility.
    SearchRecords {
        owner_fixture: String,
        caller_fixture: Option<String>,
        expect_count: u64,
        expect_ids: bool,
    },
    /// Deletes the identity under `fixture`; when `expect_deleted` is given,
    /// the reported cascade-deleted-record count must equal it.
    DeleteIdentity { fixture: String, expect_deleted: Option<u64> },
    /// Adds a list item and stores the produced id under `id_fixture`.
    AddListItem { id_fixture: String, list_type: String, name: String },
    /// Deletes the list item whose id is stored under `id_fixture`.
    DeleteListItem { id_fixture: String },
}

/// A step definition: its operation and whether it is a cleanup step.
/// Cleanup steps still run after a failure, and a cleanup delete treats an
/// already-absent entity as success (best effort).
pub struct StepDef {
    pub kind: StepKind,
    pub cleanup: bool,
}

/// Whether the registry holds every fixture the step consumes, with the
/// shape the step expects.  A fixture of the wrong shape counts as missing:
/// either way no earlier step produced what this step references.
pub open spec fn spec_build_ok(k: StepKind, m: Map<Seq<char>, FixtureValue>) -> bool {
    match k {
        StepKind::CreateIdentity { .. } => true,
        StepKind::ValidateIdentity { fixture, .. } => m.contains_key(fixture@) && m[fixture@]
            is Identity,
        StepKind::CreateRecord { owner_fixture, .. } => m.contains_key(owner_fixture@)
            && m[owner_fixture@] is Identity,
        StepKind::SearchRecords { owner_fixture, caller_fixture, .. } => {
            &&& m.contains_key(owner_fixture@) && m[owner_fixture@] is Identity
            &&& (caller_fixture matches Some(cf) ==> m.contains_key(cf@) && m[cf@] is Identity)
        },
        StepKind::DeleteIdentity { fixture, .. } => m.contains_key(fixture@) && m[fixture@]
            is Identity,
        StepKind::AddListItem { .. } => true,
        StepKind::DeleteListItem { id_fixture } => m.contains_key(id_fixture@) && m[id_fixture@]
            is Id,
    }
}

/// The name whose entry stops the step from building, when one does: the
/// first consumed fixture, in the order the step reads them, that is absent
/// or of the wrong shape.
pub open spec fn spec_missing_name(k: StepKind, m: Map<Seq<char>, FixtureValue>) -> Seq<char>
    recommends
        !spec_build_ok(k, m),
{
    match k {
        StepKind::CreateIdentity { fixture, .. } => fixture@,
        StepKind::ValidateIdentity { fixture, .. } => fixture@,
        StepKind::CreateRecord { owner_fixture, .. } => owner_fixture@,
        StepKind::SearchRecords { owner_fixture, caller_fixture, .. } => {
            if !(m.contains_key(owner_fixture@) && m[owner_fixture@] is Identity) {
                owner_fixture@
            } else {
                match caller_fixture {
                    Some(cf) => cf@,
                    None => owner_fixture@,
                }
            }
        },
        StepKind::DeleteIdentity { fixture, .. } => fixture@,
        StepKind::AddListItem { .. } => fixture_unreachable(),
        StepKind::DeleteListItem { id_fixture } => id_fixture@,
    }
}

/// The empty name, for kinds that consume no fixture and so never fail to
/// build.
pub open spec fn fixture_unreachable() -> Seq<char> {
    Seq::empty()
}

/// The identity stored in a fixture value.
pub open spec fn spec_fixture_identity(v: FixtureValue) -> Identity
    recommends
        v is Identity,
{
    match v {
        FixtureValue::Identity(id) => id,
        _ => arbitrary(),
    }
}

/// The id stored in a fixture value.
pub open spec fn spec_fixture_id(v: FixtureValue) -> u64
    recommends
        v is Id,
{
    match v {
        FixtureValue::Id(id) => id,
        _ => arbitrary(),
    }
}

/// The request a step builds from the registry, given the correlation id the
/// runner assigned.
pub open spec fn spec_built(k: StepKind, m: Map<Seq<char>, FixtureValue>, cid: u64) -> RpcRequest
    recommends
        spec_build_ok(k, m),
{
    match k {
        StepKind::CreateIdentity { fixture, username, secret } => RpcRequest {
            method: Method::CreateIdentity,
            params: Params::CreateIdentity { username, secret },
            correlation_id: cid,
        },
        StepKind::ValidateIdentity { fixture, secret_override, expect_valid } => {
            let ident = spec_fixture_identity(m[fixture@]);
            RpcRequest {
                method: Method::ValidateIdentity,
                params: Params::ValidateIdentity {
                    username: ident.username,
                    secret: match secret_override {
                        Some(s) => s,
                        None => ident.secret,
                    },
                },
                correlation_id: cid,
            }
        },
        StepKind::CreateRecord { owner_fixture, id_fixture, content } => {
            let ident = spec_fixture_identity(m[owner_fixture@]);
            RpcRequest {
                method: Method::CreateRecord,
                params: Params::CreateRecord { owner: ident.username, content },
                correlation_id: cid,
            }
        },
        StepKind::SearchRecords { owner_fixture, caller_fixture, expect_count, expect_ids } => {
            let owner = spec_fixture_identity(m[owner_fixture@]);
            RpcRequest {
                method: Method::SearchRecords,
                params: Params::SearchRecords {
                    owner: owner.username,
                    caller: match caller_fixture {
                        Some(cf) => Some(spec_fixture_identity(m[cf@])),
                        None => None,
                    },
                },
                correlation_id: cid,
            }
        },
        StepKind::DeleteIdentity { fixture, expect_deleted } => {
            let ident = spec_fixture_identity(m[fixture@]);
            RpcRequest {
                method: Method::DeleteIdentity,
                params: Params::DeleteIdentity { username: ident.username },
                correlation_id: cid,
            }
        },
        StepKind::AddListItem { id_fixture, list_type, name } => RpcRequest {
            method: Method::AddListItem,
            params: Params::AddListItem { list_type, name },
            correlation_id: cid,
        },
        StepKind::DeleteListItem { id_fixture } => RpcRequest {
            method: Method::DeleteListItem,
            params: Params::DeleteListItem { id: spec_fixture_id(m[id_fixture@]) },
            correlation_id: cid,
        },
    }
}

/// Builds the step's request from the registry.  Fails exactly when a
/// consumed fixture is absent or of the wrong shape, naming that fixture.
pub fn build_request(step: &StepDef, reg: &FixtureRegistry, cid: u64) -> (r: Result<
    RpcRequest,
    FixtureError,
>)
    ensures
        (r is Ok) == spec_build_ok(step.kind, reg.bindings()),
        r matches Ok(req) ==> req == spec_built(step.kind, reg.bindings(), cid),
        r matches Err(e) ==> (e matches FixtureError::MissingFixture(n) && n@ == spec_missing_name(
            step.kind,
            reg.bindings(),
        )),
{
    match &step.kind {
        StepKind::CreateIdentity { fixture, username, secret } => Ok(RpcRequest {
            method: Method::CreateIdentity,
            params: Params::CreateIdentity { username: username.clone(), secret: secret.clone() },
            correlation_id: cid,
        }),
        StepKind::ValidateIdentity { fixture, secret_override, expect_valid } => {
            let ident = match lookup_identity(reg, fixture) {
                Ok(i) => i,
                Err(e) => {
                    return Err(e);
                },
            };
            let sent_secret = match secret_override {
                Some(s) => s.clone(),
                None => ident.secret.clone(),
            };
            Ok(RpcRequest {
                method: Method::ValidateIdentity,
                params: Params::ValidateIdentity {
                    username: ident.username.clone(),
                    secret: sent_secret,
                },
                correlation_id: cid,
            })
        },
        StepKind::CreateRecord { owner_fixture, id_fixture, content } => {
            let ident = match lookup_identity(reg, owner_fixture) {
                Ok(i) => i,
                Err(e) => {
                    return Err(e);
                },
            };
            Ok(RpcRequest {
                method: Method::CreateRecord,
                params: Params::CreateRecord {
                    owner: ident.username.clone(),
                    content: content.clone(),
                },
                correlation_id: cid,
            })
        },
        StepKind::SearchRecords { owner_fixture, caller_fixture, expect_count, expect_ids } => {
            let owner = match lookup_identity(reg, owner_fixture) {
                Ok(i) => i,
                Err(e) => {
                    return Err(e);
                },
            };
            let owner_name = owner.username.clone();
            let caller = match caller_fixture {
                Some(cf) => {
                    let ident = match lookup_identity(reg, cf) {
                        Ok(i) => i,
                        Err(e) => {
                            return Err(e);
                        },
                    };
                    Some(ident.duplicate())
                },
                None => None,
            };
            Ok(RpcRequest {
                method: Method::SearchRecords,
                params: Params::SearchRecords { owner: owner_name, caller },
                correlation_id: cid,
            })
        },
        StepKind::DeleteIdentity { fixture, expect_deleted } => {
            let ident = match lookup_identity(reg, fixture) {
                Ok(i) => i,
                Err(e) => {
                    return Err(e);
                },
            };
            Ok(RpcRequest {
                method: Method::DeleteIdentity,
                params: Params::DeleteIdentity { username: ident.username.clone() },
                correlation_id: cid,
            })
        },
        StepKind::AddListItem { id_fixture, list_type, name } => Ok(RpcRequest {
            method: Method::AddListItem,
            params: Params::AddListItem { list_type: list_type.clone(), name: name.clone() },
            correlation_id: cid,
        }),
        StepKind::DeleteListItem { id_fixture } => {
            match reg.get(id_fixture.as_str()) {
                Ok(FixtureValue::Id(id)) => Ok(RpcRequest {
                    method: Method::DeleteListItem,
                    params: Params::DeleteListItem { id: *id },
                    correlation_id: cid,
                }),
                Ok(_) => Err(FixtureError::MissingFixture(id_fixture.clone())),
                Err(e) => Err(e),
            }
        },
    }
}

/// Looks an identity fixture up, treating a wrong-shaped entry as missing.
fn lookup_identity<'a>(reg: &'a FixtureRegistry, name: &String) -> (r: Result<
    &'a Identity,
    FixtureError,
>)
    ensures
        (r is Ok) == (reg.bindings().contains_key(name@) && reg.bindings()[name@] is Identity),
        r matches Ok(i) ==> *i == spec_fixture_identity(reg.bindings()[name@]),
        r matches Err(e) ==> (e matches FixtureError::MissingFixture(n) && n@ == name@),
{
    match reg.get(name.as_str()) {
        Ok(FixtureValue::Identity(ident)) => Ok(ident),
        Ok(_) => Err(FixtureError::MissingFixture(name.clone())),
        Err(e) => Err(e),
    }
}


/// The characters of a boolean flag, as failure messages print it.
pub open spec fn spec_bool_chars(b: bool) -> Seq<char> {
    if b {
        "true"@
    } else {
        "false"@
    }
}

/// Whether the step passes on this event: its validation predicate, applied
/// to the response, plus the fixture write succeeding where one is due.  A
/// cleanup delete passes on a not-found remote error: the entity it was to
/// remove is already gone.
pub open spec fn spec_passes(step: StepDef, event: CallEvent, m: Map<Seq<char>, FixtureValue>) -> bool {
    match (step.kind, event) {
        (
            StepKind::DeleteIdentity { .. },
            CallEvent::Reply(RpcResponse::Error(re)),
        ) => step.cleanup && re.code == NOT_FOUND_CODE,
        (_, CallEvent::Transport(_)) => false,
        (_, CallEvent::Reply(RpcResponse::Error(_))) => false,
        (
            StepKind::CreateIdentity { fixture, username, secret },
            CallEvent::Reply(RpcResponse::Success(Payload::IdentityCreated { username: ru })),
        ) => ru@ == username@ && !m.contains_key(fixture@),
        (
            StepKind::ValidateIdentity { expect_valid, .. },
            CallEvent::Reply(RpcResponse::Success(Payload::Validation { valid })),
        ) => valid == expect_valid,
        (
            StepKind::CreateRecord { .. },
            CallEvent::Reply(RpcResponse::Success(Payload::RecordCreated { .. })),
        ) => true,
        (
            StepKind::SearchRecords { expect_count, expect_ids, .. },
            CallEvent::Reply(RpcResponse::Success(Payload::SearchResults { records })),
        ) => records@.len() == expect_count && (forall|i: int|
            0 <= i < records@.len() ==> (records@[i].id is Some) == expect_ids),
        (
            StepKind::DeleteIdentity { expect_deleted, .. },
            CallEvent::Reply(
                RpcResponse::Success(Payload::IdentityDeleted { success, deleted_records }),
            ),
        ) => success && (expect_deleted matches Some(n) ==> deleted_records == n),
        (
            StepKind::AddListItem { .. },
            CallEvent::Reply(RpcResponse::Success(Payload::ListItemAdded { .. })),
        ) => true,
        (
            StepKind::DeleteListItem { .. },
            CallEvent::Reply(RpcResponse::Success(Payload::ListItemDeleted { success })),
        ) => success,
        _ => false,
    }
}

/// The reason a failing step records, with expected against actual values
/// where the validation compares them.
pub open spec fn spec_failure_msg(
    step: StepDef,
    event: CallEvent,
    m: Map<Seq<char>, FixtureValue>,
) -> Seq<char>
    recommends
        !spec_passes(step, event, m),
{
    match (step.kind, event) {
        (_, CallEvent::Transport(reason)) => "transport failure: "@ + reason@,
        (_, CallEvent::Reply(RpcResponse::Error(re))) => "remote error: "@ + re.message@,
        (
            StepKind::CreateIdentity { fixture, username, .. },
            CallEvent::Reply(RpcResponse::Success(Payload::IdentityCreated { username: ru })),
        ) => if ru@ != username@ {
            "created identity name mismatch: expected "@ + username@ + ", actual "@ + ru@
        } else {
            "duplicate fixture: "@ + fixture@
        },
        (
            StepKind::ValidateIdentity { expect_valid, .. },
            CallEvent::Reply(RpcResponse::Success(Payload::Validation { valid })),
        ) => "identity validation mismatch: expected "@ + spec_bool_chars(expect_valid)
            + ", actual "@ + spec_bool_chars(valid),
        (
            StepKind::SearchRecords { expect_count, expect_ids, .. },
            CallEvent::Reply(RpcResponse::Success(Payload::SearchResults { records })),
        ) => if records@.len() != expect_count {
            "search result count mismatch: expected "@ + spec_decimal(expect_count as nat)
                + ", actual "@ + spec_decimal(records@.len())
        } else if expect_ids {
            "record id visibility mismatch: expected ids present"@
        } else {
            "record id visibility mismatch: expected ids absent"@
        },
        (
            StepKind::DeleteIdentity { expect_deleted, .. },
            CallEvent::Reply(
                RpcResponse::Success(Payload::IdentityDeleted { success, deleted_records }),
            ),
        ) => if !success {
            "delete identity reported failure"@
        } else {
            match expect_deleted {
                Some(n) => "cascade delete count mismatch: expected "@ + spec_decimal(n as nat)
                    + ", actual "@ + spec_decimal(deleted_records as nat),
                None => Seq::empty(),
            }
        },
        (
            StepKind::DeleteListItem { .. },
            CallEvent::Reply(RpcResponse::Success(Payload::ListItemDeleted { .. })),
        ) => "delete list item reported failure"@,
        _ => "unexpected response payload"@,
    }
}

/// The registry entry a passing step leaves behind, when its kind produces
/// one.
pub open spec fn spec_write(
    step: StepDef,
    event: CallEvent,
    m: Map<Seq<char>, FixtureValue>,
) -> Option<(String, FixtureValue)> {
    if !spec_passes(step, event, m) {
        None
    } else {
        match (step.kind, event) {
            (StepKind::CreateIdentity { fixture, username, secret }, _) => Some(
                (fixture, FixtureValue::Identity(Identity { username, secret })),
            ),
            (
                StepKind::CreateRecord { id_fixture, .. },
                CallEvent::Reply(RpcResponse::Success(Payload::RecordCreated { id })),
            ) => Some((id_fixture, FixtureValue::Id(id))),
            (
                StepKind::AddListItem { id_fixture, .. },
                CallEvent::Reply(RpcResponse::Success(Payload::ListItemAdded { id })),
            ) => Some((id_fixture, FixtureValue::Id(id))),
            _ => None,
        }
    }
}

/// Applies the step's validation rule to what the call came to, records any
/// produced fixture, and returns the step's outcome.  The outcome is
/// `Passed` exactly when the validation predicate holds and the fixture
/// write (where one is due) succeeds; otherwise it is `Failed` with the
/// reason [`spec_failure_msg`] describes, never `Skipped`.
pub fn interpret_response(step: &StepDef, event: &CallEvent, reg: &mut FixtureRegistry) -> (o:
    StepOutcome)
    ensures
        !(o is Skipped),
        (o is Passed) == spec_passes(*step, *event, old(reg).bindings()),
        o matches StepOutcome::Failed(msg) ==> msg@ == spec_failure_msg(
            *step,
            *event,
            old(reg).bindings(),
        ),
        (match spec_write(*step, *event, old(reg).bindings()) {
            Some(p) => final (reg).log() == old(reg).log().push(p),
            None => final (reg).log() == old(reg).log(),
        }),
{
    match (&step.kind, event) {
        (StepKind::DeleteIdentity { .. }, CallEvent::Reply(RpcResponse::Error(re))) => {
            if step.cleanup && re.code == NOT_FOUND_CODE {
                StepOutcome::Passed
            } else {
                StepOutcome::Failed("remote error: ".to_owned().concat(re.message.as_str()))
            }
        },
        (_, CallEvent::Transport(reason)) => StepOutcome::Failed(
            "transport failure: ".to_owned().concat(reason.as_str()),
        ),
        (_, CallEvent::Reply(RpcResponse::Error(re))) => StepOutcome::Failed(
            "remote error: ".to_owned().concat(re.message.as_str()),
        ),
        (
            StepKind::CreateIdentity { fixture, username, secret },
            CallEvent::Reply(RpcResponse::Success(Payload::IdentityCreated { username: ru })),
        ) => {
            if !str_eq(ru.as_str(), username.as_str()) {
                StepOutcome::Failed(
                    "created identity name mismatch: expected ".to_owned().concat(
                        username.as_str(),
                    ).concat(", actual ").concat(ru.as_str()),
                )
            } else {
                let entry = FixtureValue::Identity(
                    Identity { username: username.clone(), secret: secret.clone() },
                );
                match reg.define(fixture.clone(), entry) {
                    Ok(()) => StepOutcome::Passed,
                    Err(e) => StepOutcome::Failed(e.describe()),
                }
            }
        },
        (
            StepKind::ValidateIdentity { expect_valid, .. },
            CallEvent::Reply(RpcResponse::Success(Payload::Validation { valid })),
        ) => {
            if *valid == *expect_valid {
                StepOutcome::Passed
            } else {
                let expected = if *expect_valid {
                    "true"
                } else {
                    "false"
                };
                let actual = if *valid {
                    "true"
                } else {
                    "false"
                };
                StepOutcome::Failed(
                    "identity validation mismatch: expected ".to_owned().concat(expected).concat(
                        ", actual ",
                    ).concat(actual),
                )
            }
        },
        (
            StepKind::CreateRecord { id_fixture, .. },
            CallEvent::Reply(RpcResponse::Success(Payload::RecordCreated { id })),
        ) => {
            reg.set(id_fixture.clone(), FixtureValue::Id(*id));
            StepOutcome::Passed
        },
        (
            StepKind::SearchRecords { expect_count, expect_ids, .. },
            CallEvent::Reply(RpcResponse::Success(Payload::SearchResults { records })),
        ) => {
            let n = records.len();
            if (n as u64) != *expect_count {
                let expected = decimal_string(*expect_count);
                let actual = decimal_string(n as u64);
                StepOutcome::Failed(
                    "search result count mismatch: expected ".to_owned().concat(
                        expected.as_str(),
                    ).concat(", actual ").concat(actual.as_str()),
                )
            } else {
                let mut i: usize = 0;
                let mut all_ok = true;
                while i < n
                    invariant
                        n == records@.len(),
                        i <= n,
                        all_ok == (forall|j: int|
                            0 <= j < i ==> (records@[j].id is Some) == expect_ids),
                    decreases n - i,
                {
                    let rv = &records[i];
                    if rv.id.is_some() != *expect_ids {
                        all_ok = false;
                    }
                    i = i + 1;
                }
                if all_ok {
                    StepOutcome::Passed
                } else if *expect_ids {
                    StepOutcome::Failed(
                        "record id visibility mismatch: expected ids present".to_owned(),
                    )
                } else {
                    StepOutcome::Failed(
                        "record id visibility mismatch: expected ids absent".to_owned(),
                    )
                }
            }
        },
        (
            StepKind::DeleteIdentity { expect_deleted, .. },
            CallEvent::Reply(
                RpcResponse::Success(Payload::IdentityDeleted { success, deleted_records }),
            ),
        ) => {
            if !*success {
                StepOutcome::Failed("delete identity reported failure".to_owned())
            } else {
                match expect_deleted {
                    Some(n) => {
                        if *deleted_records == *n {
                            StepOutcome::Passed
                        } else {
                            let expected = decimal_string(*n);
                            let actual = decimal_string(*deleted_records);
                            StepOutcome::Failed(
                                "cascade delete count mismatch: expected ".to_owned().concat(
                                    expected.as_str(),
                                ).concat(", actual ").concat(actual.as_str()),
                            )
                        }
                    },
                    None => StepOutcome::Passed,
                }
            }
        },
        (
            StepKind::AddListItem { id_fixture, .. },
            CallEvent::Reply(RpcResponse::Success(Payload::ListItemAdded { id })),
        ) => {
            reg.set(id_fixture.clone(), FixtureValue::Id(*id));
            StepOutcome::Passed
        },
        (
            StepKind::DeleteListItem { .. },
            CallEvent::Reply(RpcResponse::Success(Payload::ListItemDeleted { success })),
        ) => {
            if *success {
                StepOutcome::Passed
            } else {
                StepOutcome::Failed("delete list item reported failure".to_owned())
            }
        },
        _ => StepOutcome::Failed("unexpected response payload".to_owned()),
    }
}

} // verus!
