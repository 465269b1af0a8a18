//! The remote-call envelope: requests the harness constructs and responses it
//! interprets.  The transport that carries them over the wire lives outside
//! the library; the envelope itself is plain data.
use vstd::prelude::*;

verus! {

/// A logical test user.  Equality is by username: two identities with the
/// same username name the same remote account.
pub struct Identity {
    pub username: String,
    pub secret: String,
}

impl Identity {
    pub fn new(username: String, secret: String) -> (r: Identity)
        ensures
            r.username@ == username@,
            r.secret@ == secret@,
    {
        Identity { username, secret }
    }

    pub fn duplicate(&self) -> (r: Identity)
        ensures
            r == *self,
    {
        Identity { username: self.username.clone(), secret: self.secret.clone() }
    }
}

impl PartialEq for Identity {
    fn eq(&self, other: &Identity) -> (r: bool) {
        self.username == other.username
    }
}

impl vstd::std_specs::cmp::PartialEqSpecImpl for Identity {
    open spec fn obeys_eq_spec() -> bool {
        true
    }

    open spec fn eq_spec(&self, other: &Identity) -> bool {
        self.username@ == other.username@
    }
}

/// The remote procedures the harness is known to invoke.
pub enum Method {
    CreateIdentity,
    ValidateIdentity,
    CreateRecord,
    SearchRecords,
    DeleteIdentity,
    AddListItem,
    DeleteListItem,
}

impl Method {
    /// The method name as it is written into the outgoing envelope.
    pub fn wire_name(&self) -> (r: &'static str)
        ensures
            r@ == self.spec_wire_name(),
    {
        match self {
            Method::CreateIdentity => "create_identity",
            Method::ValidateIdentity => "validate_identity",
            Method::CreateRecord => "create_record",
            Method::SearchRecords => "search_records",
            Method::DeleteIdentity => "delete_identity",
            Method::AddListItem => "add_list_item",
            Method::DeleteListItem => "delete_list_item",
        }
    }

    pub open spec fn spec_wire_name(&self) -> Seq<char> {
        match self {
            Method::CreateIdentity => "create_identity"@,
            Method::ValidateIdentity => "validate_identity"@,
            Method::CreateRecord => "create_record"@,
            Method::SearchRecords => "search_records"@,
            Method::DeleteIdentity => "delete_identity"@,
            Method::AddListItem => "add_list_item"@,
            Method::DeleteListItem => "delete_list_item"@,
        }
    }
}

/// The parameters of one request, one variant per method.
pub enum Params {
    CreateIdentity { username: String, secret: String },
    ValidateIdentity { username: String, secret: String },
    CreateRecord { owner: String, content: String },
    SearchRecords { owner: String, caller: Option<Identity> },
    DeleteIdentity { username: String },
    AddListItem { list_type: String, name: String },
    DeleteListItem { id: u64 },
}

/// One outgoing request: method, parameters, and a correlation id that is
/// unique within a scenario run (the runner assigns the step's index).
pub struct RpcRequest {
    pub method: Method,
    pub params: Params,
    pub correlation_id: u64,
}

/// A well-formed error object the service itself returned.
pub struct RemoteError {
    pub code: i64,
    pub message: String,
}

/// The error code a service answers with when the named entity does not
/// exist.  Cleanup deletes treat it as "already gone".
pub const NOT_FOUND_CODE: i64 = 404;

/// One record as a search result presents it: the id is populated only when
/// the caller owns the record.
pub struct RecordView {
    pub id: Option<u64>,
    pub owner: String,
    pub content: String,
}

/// The success payloads of the known methods.
pub enum Payload {
    IdentityCreated { username: String },
    Validation { valid: bool },
    RecordCreated { id: u64 },
    SearchResults { records: Vec<RecordView> },
    IdentityDeleted { success: bool, deleted_records: u64 },
    ListItemAdded { id: u64 },
    ListItemDeleted { success: bool },
}

/// A response as the envelope classifies it: a success payload or a typed
/// remote error.
pub enum RpcResponse {
    Success(Payload),
    Error(RemoteError),
}

/// What one remote call came to, as the transport hands it back: a response
/// from the service, or a transport-level failure (network fault, timeout,
/// malformed reply) with its reason.
pub enum CallEvent {
    Reply(RpcResponse),
    Transport(String),
}

} // verus!
