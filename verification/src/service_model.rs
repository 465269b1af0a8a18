//! An in-memory model of the remote service: identities, records owned by
//! identities, and list items.  It answers every request the harness builds,
//! with a contract that pins each answer down — in particular the two
//! central behavioural invariants: a record's id is visible in a search
//! result exactly when the search is performed as the record's owning
//! identity, and deleting an identity reports exactly the number of records
//! it owned.
//!
//! The model serves as the fake collaborator the step definitions are
//! exercised against without network access; a host may instead carry the
//! same requests to a live service.
use crate::rpc::{
    Identity, Params, Payload, RecordView, RemoteError, RpcRequest, RpcResponse,
    NOT_FOUND_CODE,
};
use crate::strings::str_eq;
use vstd::prelude::*;

verus! {

/// The error code for a request that names an entity the service already
/// holds.
pub const CONFLICT_CODE: i64 = 409;

/// The error code for a service that has run out of fresh ids.
pub const EXHAUSTED_CODE: i64 = 507;

/// A stored record: its id, the username of its owning identity, and its
/// content.
pub struct Record {
    pub id: u64,
    pub owner: String,
    pub content: String,
}

/// A stored list item.
pub struct ListItem {
    pub id: u64,
    pub list_type: String,
    pub name: String,
}

/// Some identity carries this username.
pub open spec fn has_username(ids: Seq<Identity>, username: Seq<char>) -> bool {
    exists|i: int| 0 <= i < ids.len() && ids[i].username@ == username
}

/// Some identity carries this username with this secret.
pub open spec fn credentials_valid(ids: Seq<Identity>, username: Seq<char>, secret: Seq<
    char>) -> bool {
    exists|i: int| 0 <= i < ids.len() && ids[i].username@ == username && ids[i].secret@ == secret
}

/// No two identities share a username.
pub open spec fn distinct_usernames(ids: Seq<Identity>) -> bool {
    forall|i: int, j: int|
        0 <= i < j < ids.len() ==> ids[i].username@ != ids[j].username@
}

/// The identities left after removing the one with this username.
pub open spec fn without_username(ids: Seq<Identity>, username: Seq<char>) -> Seq<Identity>
    decreases ids.len(),
{
    if ids.len() == 0 {
        Seq::empty()
    } else {
        let prefix = without_username(ids.drop_last(), username);
        if ids.last().username@ == username {
            prefix
        } else {
            prefix.push(ids.last())
        }
    }
}

/// The records owned by this username, in store order.
pub open spec fn owned_records(rs: Seq<Record>, owner: Seq<char>) -> Seq<Record>
    decreases rs.len(),
{
    if rs.len() == 0 {
        Seq::empty()
    } else {
        let prefix = owned_records(rs.drop_last(), owner);
        if rs.last().owner@ == owner {
            prefix.push(rs.last())
        } else {
            prefix
        }
    }
}

/// The records not owned by this username, in store order.
pub open spec fn not_owned_records(rs: Seq<Record>, owner: Seq<char>) -> Seq<Record>
    decreases rs.len(),
{
    if rs.len() == 0 {
        Seq::empty()
    } else {
        let prefix = not_owned_records(rs.drop_last(), owner);
        if rs.last().owner@ == owner {
            prefix
        } else {
            prefix.push(rs.last())
        }
    }
}

/// Some list item carries this id.
pub open spec fn has_item(ls: Seq<ListItem>, id: u64) -> bool {
    exists|i: int| 0 <= i < ls.len() && ls[i].id == id
}

/// The list items left after removing the one with this id.
pub open spec fn without_item(ls: Seq<ListItem>, id: u64) -> Seq<ListItem>
    decreases ls.len(),
{
    if ls.len() == 0 {
        Seq::empty()
    } else {
        let prefix = without_item(ls.drop_last(), id);
        if ls.last().id == id {
            prefix
        } else {
            prefix.push(ls.last())
        }
    }
}

/// How one record presents itself in a search result: the id is populated
/// only for a caller that owns it.
pub open spec fn record_view_of(r: Record, visible: bool) -> RecordView {
    RecordView {
        id: if visible {
            Some(r.id)
        } else {
            None
        },
        owner: r.owner,
        content: r.content,
    }
}

/// The presentation of a whole result sequence.
pub open spec fn record_views(rs: Seq<Record>, visible: bool) -> Seq<RecordView> {
    rs.map_values(|r: Record| record_view_of(r, visible))
}

/// Whether a search sees record ids: the caller must be supplied, must be
/// the owner searched for, and must present valid credentials.
pub open spec fn spec_visible(ids: Seq<Identity>, owner: Seq<char>, caller: Option<
    Identity>) -> bool {
    caller matches Some(c) && c.username@ == owner && credentials_valid(ids, c.username@, c.secret@)
}

/// The in-memory service state.
pub struct ServiceModel {
    identities: Vec<Identity>,
    records: Vec<Record>,
    list_items: Vec<ListItem>,
    next_id: u64,
}

impl ServiceModel {
    pub closed spec fn identities(self) -> Seq<Identity> {
        self.identities@
    }

    pub closed spec fn records(self) -> Seq<Record> {
        self.records@
    }

    pub closed spec fn list_items(self) -> Seq<ListItem> {
        self.list_items@
    }

    pub closed spec fn next_id(self) -> u64 {
        self.next_id
    }

    /// Usernames are unique, and every stored id is below the id counter
    /// (so ids are unique and fresh ids never collide).
    pub closed spec fn wf(self) -> bool {
        &&& distinct_usernames(self.identities@)
        &&& (forall|i: int|
            0 <= i < self.records@.len() ==> #[trigger] self.records@[i].id < self.next_id)
        &&& (forall|i: int, j: int|
            0 <= i < j < self.records@.len() ==> self.records@[i].id != self.records@[j].id)
        &&& (forall|i: int|
            0 <= i < self.list_items@.len() ==> #[trigger] self.list_items@[i].id < self.next_id)
        &&& (forall|i: int, j: int|
            0 <= i < j < self.list_items@.len() ==> self.list_items@[i].id
                != self.list_items@[j].id)
    }

    /// An empty service.
    pub fn new() -> (r: ServiceModel)
        ensures
            r.wf(),
            r.identities() == Seq::<Identity>::empty(),
            r.records() == Seq::<Record>::empty(),
            r.list_items() == Seq::<ListItem>::empty(),
            r.next_id() == 1,
    {
        ServiceModel { identities: Vec::new(), records: Vec::new(), list_items: Vec::new(), next_id: 1 }
    }

    /// Whether an identity with this username exists.
    fn has_identity(&self, username: &str) -> (r: bool)
        ensures
            r == has_username(self.identities(), username@),
    {
        let n = self.identities.len();
        let mut i: usize = 0;
        while i < n
            invariant
                n == self.identities@.len(),
                i <= n,
                forall|t: int| 0 <= t < i ==> self.identities@[t].username@ != username@,
            decreases n - i,
        {
            let ident = &self.identities[i];
            if str_eq(ident.username.as_str(), username) {
                proof {
                    assert(self.identities@[i as int].username@ == username@);
                }
                return true;
            }
            i = i + 1;
        }
        false
    }

    /// Whether some identity carries this username with this secret.
    fn credentials_match(&self, username: &str, secret: &str) -> (r: bool)
        ensures
            r == credentials_valid(self.identities(), username@, secret@),
    {
        let n = self.identities.len();
        let mut i: usize = 0;
        while i < n
            invariant
                n == self.identities@.len(),
                i <= n,
                forall|t: int|
                    0 <= t < i ==> !(self.identities@[t].username@ == username@
                        && self.identities@[t].secret@ == secret@),
            decreases n - i,
        {
            let ident = &self.identities[i];
            if str_eq(ident.username.as_str(), username) && str_eq(ident.secret.as_str(), secret) {
                proof {
                    assert(self.identities@[i as int].username@ == username@ && self.identities@[
                        i as int].secret@ == secret@);
                }
                return true;
            }
            i = i + 1;
        }
        false
    }

    /// The search results for this owner as this caller sees them.
    fn do_search(&self, owner: &String, caller: &Option<Identity>) -> (rv: Vec<RecordView>)
        ensures
            rv@ == record_views(
                owned_records(self.records(), owner@),
                spec_visible(self.identities(), owner@, *caller),
            ),
    {
        let visible = match caller {
            Some(c) => {
                if str_eq(c.username.as_str(), owner.as_str()) {
                    self.credentials_match(c.username.as_str(), c.secret.as_str())
                } else {
                    false
                }
            },
            None => false,
        };
        proof {
            assert(visible == spec_visible(self.identities(), owner@, *caller));
        }
        let n = self.records.len();
        let mut out: Vec<RecordView> = Vec::new();
        let mut i: usize = 0;
        while i < n
            invariant
                n == self.records@.len(),
                i <= n,
                out@ == record_views(owned_records(self.records@.take(i as int), owner@), visible),
            decreases n - i,
        {
            let ghost prefix = self.records@.take(i as int);
            let r = &self.records[i];
            proof {
                assert(self.records@.take(i + 1).drop_last() =~= prefix);
                assert(self.records@.take(i + 1).last() == self.records@[i as int]);
            }
            if str_eq(r.owner.as_str(), owner.as_str()) {
                let view = RecordView {
                    id: if visible {
                        Some(r.id)
                    } else {
                        None
                    },
                    owner: r.owner.clone(),
                    content: r.content.clone(),
                };
                out.push(view);
                proof {
                    assert(record_views(owned_records(prefix, owner@), visible).push(
                        record_view_of(self.records@[i as int], visible),
                    ) =~= record_views(
                        owned_records(self.records@.take(i + 1), owner@),
                        visible,
                    ));
                }
            } else {
                proof {
                    assert(record_views(
                        owned_records(self.records@.take(i + 1), owner@),
                        visible,
                    ) =~= out@);
                }
            }
            i = i + 1;
        }
        proof {
            assert(self.records@.take(n as int) =~= self.records@);
        }
        out
    }

    /// Removes the identity with this username and every record it owns;
    /// returns how many records went with it.
    fn do_delete_identity(&mut self, username: &String) -> (deleted: u64)
        requires
            old(self).wf(),
        ensures
            final (self).wf(),
            final (self).identities() == without_username(old(self).identities(), username@),
            final (self).records() == not_owned_records(old(self).records(), username@),
            final (self).list_items() == old(self).list_items(),
            final (self).next_id() == old(self).next_id(),
            deleted == owned_records(old(self).records(), username@).len(),
    {
        let n_ids = self.identities.len();
        let mut kept_ids: Vec<Identity> = Vec::new();
        let mut i: usize = 0;
        while i < n_ids
            invariant
                n_ids == self.identities@.len(),
                i <= n_ids,
                kept_ids@ == without_username(self.identities@.take(i as int), username@),
            decreases n_ids - i,
        {
            let ghost prefix = self.identities@.take(i as int);
            proof {
                assert(self.identities@.take(i + 1).drop_last() =~= prefix);
                assert(self.identities@.take(i + 1).last() == self.identities@[i as int]);
            }
            let ident = &self.identities[i];
            if !str_eq(ident.username.as_str(), username.as_str()) {
                kept_ids.push(ident.duplicate());
            }
            i = i + 1;
        }
        proof {
            assert(self.identities@.take(n_ids as int) =~= self.identities@);
        }
        let n_rs = self.records.len();
        let mut kept_rs: Vec<Record> = Vec::new();
        let mut deleted: u64 = 0;
        let mut j: usize = 0;
        while j < n_rs
            invariant
                n_rs == self.records@.len(),
                j <= n_rs,
                kept_rs@ == not_owned_records(self.records@.take(j as int), username@),
                deleted == owned_records(self.records@.take(j as int), username@).len(),
                deleted <= j,
            decreases n_rs - j,
        {
            let ghost prefix = self.records@.take(j as int);
            proof {
                assert(self.records@.take(j + 1).drop_last() =~= prefix);
                assert(self.records@.take(j + 1).last() == self.records@[j as int]);
            }
            let r = &self.records[j];
            if str_eq(r.owner.as_str(), username.as_str()) {
                deleted = deleted + 1;
            } else {
                kept_rs.push(Record { id: r.id, owner: r.owner.clone(), content: r.content.clone() });
            }
            j = j + 1;
        }
        proof {
            assert(self.records@.take(n_rs as int) =~= self.records@);
            lemma_without_username_wf(self.identities@, username@);
            lemma_not_owned_wf(self.records@, username@);
            let bound = self.next_id;
            assert forall|t: int|
                0 <= t < kept_rs@.len() implies #[trigger] kept_rs@[t].id < bound by {
                let s = choose|s: int|
                    0 <= s < self.records@.len() && self.records@[s] == kept_rs@[t];
                assert(self.records@[s].id < bound);
            }
        }
        self.identities = kept_ids;
        self.records = kept_rs;
        deleted
    }

    /// Answers one request, as the remote service would.
    ///
    /// For every request the state afterwards and the classification and
    /// content of the answer are fixed by the clauses below: creation
    /// conflicts and deletions of absent entities answer with typed remote
    /// errors and leave the state unchanged; validation always answers, with
    /// the flag reporting whether the credentials match; a search presents
    /// exactly the owned records, ids populated exactly for the owner
    /// calling with valid credentials; deleting an identity reports exactly
    /// the number of records it owned.  A service whose id counter is
    /// exhausted refuses further creations.
    pub fn handle(&mut self, req: &RpcRequest) -> (resp: RpcResponse)
        requires
            old(self).wf(),
        ensures
            final (self).wf(),
            (match req.params {
                Params::CreateIdentity { username, secret } => {
                    if has_username(old(self).identities(), username@) {
                        &&& (resp matches RpcResponse::Error(re) && re.code == CONFLICT_CODE
                            && re.message@ == "identity already exists"@)
                        &&& *final (self) == *old(self)
                    } else {
                        &&& (resp matches RpcResponse::Success(Payload::IdentityCreated {
                            username: ru,
                        }) && ru@ == username@)
                        &&& final (self).identities() == old(self).identities().push(
                            Identity { username, secret },
                        )
                        &&& final (self).records() == old(self).records()
                        &&& final (self).list_items() == old(self).list_items()
                        &&& final (self).next_id() == old(self).next_id()
                    }
                },
                Params::ValidateIdentity { username, secret } => {
                    &&& (resp matches RpcResponse::Success(Payload::Validation { valid })
                        && valid == credentials_valid(old(self).identities(), username@, secret@))
                    &&& *final (self) == *old(self)
                },
                Params::CreateRecord { owner, content } => {
                    if !has_username(old(self).identities(), owner@) {
                        &&& (resp matches RpcResponse::Error(re) && re.code == NOT_FOUND_CODE
                            && re.message@ == "identity not found"@)
                        &&& *final (self) == *old(self)
                    } else if old(self).next_id() == u64::MAX {
                        &&& (resp matches RpcResponse::Error(re) && re.code == EXHAUSTED_CODE
                            && re.message@ == "id space exhausted"@)
                        &&& *final (self) == *old(self)
                    } else {
                        &&& (resp matches RpcResponse::Success(Payload::RecordCreated { id }) && id
                            == old(self).next_id())
                        &&& final (self).records() == old(self).records().push(
                            Record { id: old(self).next_id(), owner, content },
                        )
                        &&& final (self).identities() == old(self).identities()
                        &&& final (self).list_items() == old(self).list_items()
                        &&& final (self).next_id() == old(self).next_id() + 1
                    }
                },
                Params::SearchRecords { owner, caller } => {
                    &&& (resp matches RpcResponse::Success(Payload::SearchResults { records: rv })
                        && rv@ == record_views(
                        owned_records(old(self).records(), owner@),
                        spec_visible(old(self).identities(), owner@, caller),
                    ))
                    &&& *final (self) == *old(self)
                },
                Params::DeleteIdentity { username } => {
                    if !has_username(old(self).identities(), username@) {
                        &&& (resp matches RpcResponse::Error(re) && re.code == NOT_FOUND_CODE
                            && re.message@ == "identity not found"@)
                        &&& *final (self) == *old(self)
                    } else {
                        &&& (resp matches RpcResponse::Success(Payload::IdentityDeleted {
                            success,
                            deleted_records,
                        }) && success && deleted_records == owned_records(
                            old(self).records(),
                            username@,
                        ).len())
                        &&& final (self).identities() == without_username(
                            old(self).identities(),
                            username@,
                        )
                        &&& final (self).records() == not_owned_records(
                            old(self).records(),
                            username@,
                        )
                        &&& final (self).list_items() == old(self).list_items()
                        &&& final (self).next_id() == old(self).next_id()
                    }
                },
                Params::AddListItem { list_type, name } => {
                    if old(self).next_id() == u64::MAX {
                        &&& (resp matches RpcResponse::Error(re) && re.code == EXHAUSTED_CODE
                            && re.message@ == "id space exhausted"@)
                        &&& *final (self) == *old(self)
                    } else {
                        &&& (resp matches RpcResponse::Success(Payload::ListItemAdded { id }) && id
                            == old(self).next_id())
                        &&& final (self).list_items() == old(self).list_items().push(
                            ListItem { id: old(self).next_id(), list_type, name },
                        )
                        &&& final (self).identities() == old(self).identities()
                        &&& final (self).records() == old(self).records()
                        &&& final (self).next_id() == old(self).next_id() + 1
                    }
                },
                Params::DeleteListItem { id } => {
                    if has_item(old(self).list_items(), id) {
                        &&& (resp matches RpcResponse::Success(Payload::ListItemDeleted { success })
                            && success)
                        &&& final (self).list_items() == without_item(old(self).list_items(), id)
                        &&& final (self).identities() == old(self).identities()
                        &&& final (self).records() == old(self).records()
                        &&& final (self).next_id() == old(self).next_id()
                    } else {
                        &&& (resp matches RpcResponse::Error(re) && re.code == NOT_FOUND_CODE
                            && re.message@ == "list item not found"@)
                        &&& *final (self) == *old(self)
                    }
                },
            }),
    {
        match &req.params {
            Params::CreateIdentity { username, secret } => {
                if self.has_identity(username.as_str()) {
                    RpcResponse::Error(
                        RemoteError {
                            code: CONFLICT_CODE,
                            message: "identity already exists".to_owned(),
                        },
                    )
                } else {
                    let ghost old_ids = self.identities@;
                    self.identities.push(
                        Identity { username: username.clone(), secret: secret.clone() },
                    );
                    proof {
                        assert forall|i: int, j: int|
                            0 <= i < j < self.identities@.len() implies self.identities@[i].username@
                            != self.identities@[j].username@ by {
                            if j < old_ids.len() {
                                assert(self.identities@[i] == old_ids[i]);
                                assert(self.identities@[j] == old_ids[j]);
                            } else {
                                assert(self.identities@[i] == old_ids[i]);
                                assert(!(old_ids[i].username@ == username@));
                            }
                        }
                    }
                    RpcResponse::Success(Payload::IdentityCreated { username: username.clone() })
                }
            },
            Params::ValidateIdentity { username, secret } => {
                let valid = self.credentials_match(username.as_str(), secret.as_str());
                RpcResponse::Success(Payload::Validation { valid })
            },
            Params::CreateRecord { owner, content } => {
                if !self.has_identity(owner.as_str()) {
                    RpcResponse::Error(
                        RemoteError { code: NOT_FOUND_CODE, message: "identity not found".to_owned() },
                    )
                } else if self.next_id == u64::MAX {
                    RpcResponse::Error(
                        RemoteError { code: EXHAUSTED_CODE, message: "id space exhausted".to_owned() },
                    )
                } else {
                    let id = self.next_id;
                    let ghost old_rs = self.records@;
                    self.records.push(
                        Record { id, owner: owner.clone(), content: content.clone() },
                    );
                    self.next_id = self.next_id + 1;
                    proof {
                        assert forall|i: int|
                            0 <= i < self.records@.len() implies #[trigger] self.records@[i].id
                            < self.next_id by {
                            if i < old_rs.len() {
                                assert(self.records@[i] == old_rs[i]);
                            }
                        }
                        assert forall|i: int, j: int|
                            0 <= i < j < self.records@.len() implies self.records@[i].id
                            != self.records@[j].id by {
                            assert(self.records@[i] == old_rs[i]);
                            if j < old_rs.len() {
                                assert(self.records@[j] == old_rs[j]);
                            } else {
                                assert(old_rs[i].id < id);
                            }
                        }
                    }
                    RpcResponse::Success(Payload::RecordCreated { id })
                }
            },
            Params::SearchRecords { owner, caller } => {
                let records = self.do_search(owner, caller);
                RpcResponse::Success(Payload::SearchResults { records })
            },
            Params::DeleteIdentity { username } => {
                if !self.has_identity(username.as_str()) {
                    RpcResponse::Error(
                        RemoteError { code: NOT_FOUND_CODE, message: "identity not found".to_owned() },
                    )
                } else {
                    let deleted_records = self.do_delete_identity(username);
                    RpcResponse::Success(
                        Payload::IdentityDeleted { success: true, deleted_records },
                    )
                }
            },
            Params::AddListItem { list_type, name } => {
                if self.next_id == u64::MAX {
                    RpcResponse::Error(
                        RemoteError { code: EXHAUSTED_CODE, message: "id space exhausted".to_owned() },
                    )
                } else {
                    let id = self.next_id;
                    let ghost old_ls = self.list_items@;
                    self.list_items.push(
                        ListItem { id, list_type: list_type.clone(), name: name.clone() },
                    );
                    self.next_id = self.next_id + 1;
                    proof {
                        assert forall|i: int|
                            0 <= i < self.list_items@.len() implies #[trigger] self.list_items@[i].id
                            < self.next_id by {
                            if i < old_ls.len() {
                                assert(self.list_items@[i] == old_ls[i]);
                            }
                        }
                        assert forall|i: int, j: int|
                            0 <= i < j < self.list_items@.len() implies self.list_items@[i].id
                            != self.list_items@[j].id by {
                            assert(self.list_items@[i] == old_ls[i]);
                            if j < old_ls.len() {
                                assert(self.list_items@[j] == old_ls[j]);
                            } else {
                                assert(old_ls[i].id < id);
                            }
                        }
                    }
                    RpcResponse::Success(Payload::ListItemAdded { id })
                }
            },
            Params::DeleteListItem { id } => {
                if self.remove_list_item(*id) {
                    RpcResponse::Success(Payload::ListItemDeleted { success: true })
                } else {
                    RpcResponse::Error(
                        RemoteError { code: NOT_FOUND_CODE, message: "list item not found".to_owned() },
                    )
                }
            },
        }
    }

    /// Removes the list item with this id; reports whether one existed.
    fn remove_list_item(&mut self, id: u64) -> (r: bool)
        requires
            old(self).wf(),
        ensures
            final (self).wf(),
            r == has_item(old(self).list_items(), id),
            r ==> final (self).list_items() == without_item(old(self).list_items(), id),
            !r ==> *final (self) == *old(self),
            final (self).identities() == old(self).identities(),
            final (self).records() == old(self).records(),
            final (self).next_id() == old(self).next_id(),
    {
        let n = self.list_items.len();
        let mut found = false;
        let mut i: usize = 0;
        while i < n
            invariant
                n == self.list_items@.len(),
                i <= n,
                found == (exists|t: int| 0 <= t < i && self.list_items@[t].id == id),
            decreases n - i,
        {
            if self.list_items[i].id == id {
                found = true;
                proof {
                    assert(self.list_items@[i as int].id == id);
                }
            }
            i = i + 1;
        }
        if !found {
            return false;
        }
        let n_ls = self.list_items.len();
        let mut kept: Vec<ListItem> = Vec::new();
        let mut j: usize = 0;
        while j < n_ls
            invariant
                n_ls == self.list_items@.len(),
                j <= n_ls,
                kept@ == without_item(self.list_items@.take(j as int), id),
            decreases n_ls - j,
        {
            let ghost prefix = self.list_items@.take(j as int);
            proof {
                assert(self.list_items@.take(j + 1).drop_last() =~= prefix);
                assert(self.list_items@.take(j + 1).last() == self.list_items@[j as int]);
            }
            let item = &self.list_items[j];
            if item.id != id {
                kept.push(
                    ListItem {
                        id: item.id,
                        list_type: item.list_type.clone(),
                        name: item.name.clone(),
                    },
                );
            }
            j = j + 1;
        }
        proof {
            assert(self.list_items@.take(n_ls as int) =~= self.list_items@);
            lemma_without_item_wf(self.list_items@, id);
            let bound = self.next_id;
            assert forall|t: int|
                0 <= t < kept@.len() implies #[trigger] kept@[t].id < bound by {
                let s = choose|s: int|
                    0 <= s < self.list_items@.len() && self.list_items@[s] == kept@[t];
                assert(self.list_items@[s].id < bound);
            }
        }
        self.list_items = kept;
        true
    }
}

/// Removing a username keeps usernames distinct, removes every identity
/// of that username, and keeps exactly identities that stood there before.
pub proof fn lemma_without_username_wf(ids: Seq<Identity>, username: Seq<char>)
    requires
        distinct_usernames(ids),
    ensures
        distinct_usernames(without_username(ids, username)),
        forall|t: int|
            0 <= t < without_username(ids, username).len() ==> #[trigger] without_username(
                ids,
                username,
            )[t].username@ != username,
        forall|t: int|
            0 <= t < without_username(ids, username).len() ==> exists|s: int|
                0 <= s < ids.len() && ids[s] == #[trigger] without_username(ids, username)[t],
    decreases ids.len(),
{
    if ids.len() > 0 {
        assert(distinct_usernames(ids.drop_last()));
        lemma_without_username_wf(ids.drop_last(), username);
        let w = without_username(ids, username);
        let wp = without_username(ids.drop_last(), username);
        assert forall|t: int|
            0 <= t < w.len() implies #[trigger] w[t].username@ != username by {
            if t < wp.len() {
                assert(w[t] == wp[t]);
                assert(wp[t].username@ != username);
            } else {
                assert(w[t] == ids.last());
            }
        }
        assert forall|t: int|
            0 <= t < w.len() implies exists|s: int|
                0 <= s < ids.len() && ids[s] == #[trigger] w[t] by {
            if t < wp.len() {
                assert(w[t] == wp[t]);
                assert(exists|s: int|
                    0 <= s < ids.drop_last().len() && ids.drop_last()[s] == wp[t]);
                let s = choose|s: int|
                    0 <= s < ids.drop_last().len() && ids.drop_last()[s] == wp[t];
                assert(ids[s] == w[t]);
            } else {
                assert(w[t] == ids.last());
                assert(ids[ids.len() - 1] == w[t]);
            }
        }
        assert forall|i: int, j: int|
            0 <= i < j < w.len() implies w[i].username@ != w[j].username@ by {
            if ids.last().username@ != username && j == w.len() - 1 {
                assert(w[j] == ids.last());
                assert(w[i] == wp[i]);
                assert(exists|s: int|
                    0 <= s < ids.drop_last().len() && ids.drop_last()[s] == wp[i]);
                let s = choose|s: int|
                    0 <= s < ids.drop_last().len() && ids.drop_last()[s] == wp[i];
                assert(ids[s] == w[i]);
                assert(ids[s].username@ != ids[ids.len() - 1].username@);
            }
        }
    }
}

/// Every record kept by a delete stood in the store before it, and kept
/// ids stay distinct.
pub proof fn lemma_not_owned_wf(rs: Seq<Record>, owner: Seq<char>)
    requires
        forall|i: int, j: int| 0 <= i < j < rs.len() ==> rs[i].id != rs[j].id,
    ensures
        forall|t: int|
            0 <= t < not_owned_records(rs, owner).len() ==> exists|s: int|
                0 <= s < rs.len() && rs[s] == #[trigger] not_owned_records(rs, owner)[t],
        forall|i: int, j: int|
            0 <= i < j < not_owned_records(rs, owner).len() ==> not_owned_records(rs, owner)[i].id
                != not_owned_records(rs, owner)[j].id,
    decreases rs.len(),
{
    if rs.len() > 0 {
        lemma_not_owned_wf(rs.drop_last(), owner);
        let w = not_owned_records(rs, owner);
        let wp = not_owned_records(rs.drop_last(), owner);
        assert forall|t: int|
            0 <= t < w.len() implies exists|s: int|
                0 <= s < rs.len() && rs[s] == #[trigger] w[t] by {
            if t < wp.len() {
                assert(w[t] == wp[t]);
                assert(exists|s: int| 0 <= s < rs.drop_last().len() && rs.drop_last()[s] == wp[t]);
                let s = choose|s: int| 0 <= s < rs.drop_last().len() && rs.drop_last()[s] == wp[t];
                assert(rs[s] == w[t]);
            } else {
                assert(w[t] == rs.last());
                assert(rs[rs.len() - 1] == w[t]);
            }
        }
        assert forall|i: int, j: int| 0 <= i < j < w.len() implies w[i].id != w[j].id by {
            if rs.last().owner@ != owner && j == w.len() - 1 {
                assert(w[j] == rs.last());
                assert(w[i] == wp[i]);
                assert(exists|s: int| 0 <= s < rs.drop_last().len() && rs.drop_last()[s] == wp[i]);
                let s = choose|s: int| 0 <= s < rs.drop_last().len() && rs.drop_last()[s] == wp[i];
                assert(rs[s].id != rs[rs.len() - 1].id);
            } else {
                assert(w[i] == wp[i] && w[j] == wp[j]);
            }
        }
    }
}

/// Every list item kept by a removal stood in the store before it, and
/// kept ids stay distinct.
pub proof fn lemma_without_item_wf(ls: Seq<ListItem>, id: u64)
    requires
        forall|i: int, j: int| 0 <= i < j < ls.len() ==> ls[i].id != ls[j].id,
    ensures
        forall|t: int|
            0 <= t < without_item(ls, id).len() ==> exists|s: int|
                0 <= s < ls.len() && ls[s] == #[trigger] without_item(ls, id)[t],
        forall|i: int, j: int|
            0 <= i < j < without_item(ls, id).len() ==> without_item(ls, id)[i].id != without_item(
                ls,
                id,
            )[j].id,
    decreases ls.len(),
{
    if ls.len() > 0 {
        lemma_without_item_wf(ls.drop_last(), id);
        let w = without_item(ls, id);
        let wp = without_item(ls.drop_last(), id);
        assert forall|t: int|
            0 <= t < w.len() implies exists|s: int|
                0 <= s < ls.len() && ls[s] == #[trigger] w[t] by {
            if t < wp.len() {
                assert(w[t] == wp[t]);
                assert(exists|s: int| 0 <= s < ls.drop_last().len() && ls.drop_last()[s] == wp[t]);
                let s = choose|s: int| 0 <= s < ls.drop_last().len() && ls.drop_last()[s] == wp[t];
                assert(ls[s] == w[t]);
            } else {
                assert(w[t] == ls.last());
                assert(ls[ls.len() - 1] == w[t]);
            }
        }
        assert forall|i: int, j: int| 0 <= i < j < w.len() implies w[i].id != w[j].id by {
            if ls.last().id != id && j == w.len() - 1 {
                assert(w[j] == ls.last());
                assert(w[i] == wp[i]);
                assert(exists|s: int| 0 <= s < ls.drop_last().len() && ls.drop_last()[s] == wp[i]);
                let s = choose|s: int| 0 <= s < ls.drop_last().len() && ls.drop_last()[s] == wp[i];
                assert(ls[s].id != ls[ls.len() - 1].id);
            } else {
                assert(w[i] == wp[i] && w[j] == wp[j]);
            }
        }
    }
}


/// Removing a username removes every identity carrying it.
pub proof fn lemma_without_username_no_match(ids: Seq<Identity>, username: Seq<char>)
    ensures
        !has_username(without_username(ids, username), username),
    decreases ids.len(),
{
    if ids.len() > 0 {
        lemma_without_username_no_match(ids.drop_last(), username);
        let w = without_username(ids, username);
        let wp = without_username(ids.drop_last(), username);
        if has_username(w, username) {
            let t = choose|t: int| 0 <= t < w.len() && w[t].username@ == username;
            if ids.last().username@ == username {
                assert(wp[t].username@ == username);
            } else {
                if t < wp.len() {
                    assert(wp[t].username@ == username);
                } else {
                    assert(w[t] == ids.last());
                }
            }
            assert(false);
        }
    }
}

/// Searching for records owned by an identity, performed as that identity,
/// presents each owned record with its id populated; the same search with
/// no caller, or with a caller other than the owner, presents the same
/// records — same owner and content, in the same order — but with no id.
pub proof fn lemma_search_id_visibility(
    ids: Seq<Identity>,
    rs: Seq<Record>,
    owner: Seq<char>,
    caller: Option<Identity>,
)
    ensures
        record_views(owned_records(rs, owner), true).len() == owned_records(rs, owner).len(),
        record_views(owned_records(rs, owner), false).len() == owned_records(rs, owner).len(),
        forall|i: int|
            0 <= i < owned_records(rs, owner).len() ==> {
                let shown = #[trigger] record_views(owned_records(rs, owner), true)[i];
                let hidden = record_views(owned_records(rs, owner), false)[i];
                &&& shown.id == Some(owned_records(rs, owner)[i].id)
                &&& hidden.id is None
                &&& shown.owner == owned_records(rs, owner)[i].owner
                &&& hidden.owner == shown.owner
                &&& hidden.content == shown.content
            },
        caller is None ==> !spec_visible(ids, owner, caller),
        (caller matches Some(c) && c.username@ != owner) ==> !spec_visible(ids, owner, caller),
        (caller matches Some(c) && c.username@ == owner && credentials_valid(
            ids,
            c.username@,
            c.secret@,
        )) ==> spec_visible(ids, owner, caller),
{
    let own = owned_records(rs, owner);
    assert forall|i: int|
        0 <= i < own.len() implies {
            let shown = #[trigger] record_views(own, true)[i];
            let hidden = record_views(own, false)[i];
            &&& shown.id == Some(own[i].id)
            &&& hidden.id is None
            &&& shown.owner == own[i].owner
            &&& hidden.owner == shown.owner
            &&& hidden.content == shown.content
        } by {
        assert(record_views(own, true)[i] == record_view_of(own[i], true));
        assert(record_views(own, false)[i] == record_view_of(own[i], false));
    }
}

/// Validating an identity the service holds reports `valid = true` for its
/// own secret and `valid = false` — an answer, not an error — for any other
/// secret, since the service keeps usernames unique.
pub proof fn lemma_validate_flag(ids: Seq<Identity>, i: int, other_secret: Seq<char>)
    requires
        distinct_usernames(ids),
        0 <= i < ids.len(),
    ensures
        credentials_valid(ids, ids[i].username@, ids[i].secret@),
        other_secret != ids[i].secret@ ==> !credentials_valid(ids, ids[i].username@, other_secret),
{
    assert(ids[i].username@ == ids[i].username@ && ids[i].secret@ == ids[i].secret@);
    if other_secret != ids[i].secret@ && credentials_valid(ids, ids[i].username@, other_secret) {
        let j = choose|j: int|
            0 <= j < ids.len() && ids[j].username@ == ids[i].username@ && ids[j].secret@
                == other_secret;
        if j < i {
            assert(ids[j].username@ != ids[i].username@);
        } else if i < j {
            assert(ids[i].username@ != ids[j].username@);
        }
        assert(false);
    }
}

/// A cascade delete is exact: the records that go are exactly those the
/// identity owned, the records that stay are exactly the others, and the
/// two counts partition the store — so the reported count is the number of
/// records actually owned, no more, no less.
pub proof fn lemma_cascade_exact(rs: Seq<Record>, owner: Seq<char>)
    ensures
        owned_records(rs, owner).len() + not_owned_records(rs, owner).len() == rs.len(),
        forall|t: int|
            0 <= t < owned_records(rs, owner).len() ==> #[trigger] owned_records(rs, owner)[t].owner@
                == owner,
        forall|t: int|
            0 <= t < not_owned_records(rs, owner).len() ==> #[trigger] not_owned_records(
                rs,
                owner,
            )[t].owner@ != owner,
    decreases rs.len(),
{
    if rs.len() > 0 {
        lemma_cascade_exact(rs.drop_last(), owner);
        let w = owned_records(rs, owner);
        let wp = owned_records(rs.drop_last(), owner);
        assert forall|t: int|
            0 <= t < w.len() implies #[trigger] w[t].owner@ == owner by {
            if t < wp.len() {
                assert(w[t] == wp[t]);
                assert(wp[t].owner@ == owner);
            } else {
                assert(w[t] == rs.last());
            }
        }
        let v = not_owned_records(rs, owner);
        let vp = not_owned_records(rs.drop_last(), owner);
        assert forall|t: int|
            0 <= t < v.len() implies #[trigger] v[t].owner@ != owner by {
            if t < vp.len() {
                assert(v[t] == vp[t]);
                assert(vp[t].owner@ != owner);
            } else {
                assert(v[t] == rs.last());
            }
        }
    }
}

} // verus!
