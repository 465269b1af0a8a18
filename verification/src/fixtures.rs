//! The fixture registry: the single source of truth for values produced by
//! one step and consumed by a later one within the same scenario run.
//!
//! The registry is an ordered log of named entries.  A name is write-once
//! through [`FixtureRegistry::define`]; the few steps documented as updating
//! an entry go through [`FixtureRegistry::set`], which appends a newer
//! binding that shadows the older one.  Lookup always sees the newest
//! binding, so the registry denotes the map [`FixtureRegistry::bindings`].
use crate::rpc::Identity;
use crate::strings::str_eq;
use vstd::prelude::*;

verus! {

/// A value a step may leave for later steps: a created identity, an opaque
/// id, or an arbitrary textual payload.
pub enum FixtureValue {
    Identity(Identity),
    Id(u64),
    Text(String),
}

/// A scenario-authoring defect around fixtures: either a second definition
/// of a name, or a reference to a name no earlier step produced.
#[derive(Debug)]
pub enum FixtureError {
    DuplicateFixture(String),
    MissingFixture(String),
}

impl FixtureError {
    /// The reason string a step outcome carries for this defect.
    pub fn describe(&self) -> (r: String)
        ensures
            r@ == self.spec_describe(),
    {
        match self {
            FixtureError::DuplicateFixture(name) => "duplicate fixture: ".to_owned().concat(
                name.as_str(),
            ),
            FixtureError::MissingFixture(name) => "missing fixture: ".to_owned().concat(
                name.as_str(),
            ),
        }
    }

    pub open spec fn spec_describe(&self) -> Seq<char> {
        match self {
            FixtureError::DuplicateFixture(name) => "duplicate fixture: "@ + name@,
            FixtureError::MissingFixture(name) => "missing fixture: "@ + name@,
        }
    }
}

/// The map denoted by an entry log: later entries shadow earlier ones.
pub open spec fn map_of(entries: Seq<(String, FixtureValue)>) -> Map<Seq<char>, FixtureValue>
    decreases entries.len(),
{
    if entries.len() == 0 {
        Map::empty()
    } else {
        map_of(entries.drop_last()).insert(entries.last().0@, entries.last().1)
    }
}

/// A name is bound exactly when some entry carries it.
pub proof fn lemma_map_of_contains_iff(entries: Seq<(String, FixtureValue)>, name: Seq<char>)
    ensures
        map_of(entries).contains_key(name) <==> exists|t: int|
            0 <= t < entries.len() && entries[t].0@ == name,
    decreases entries.len(),
{
    if entries.len() > 0 {
        lemma_map_of_contains_iff(entries.drop_last(), name);
        if entries.last().0@ == name {
            assert(entries[entries.len() - 1].0@ == name);
        } else if map_of(entries.drop_last()).contains_key(name) {
            let t = choose|t: int|
                0 <= t < entries.drop_last().len() && entries.drop_last()[t].0@ == name;
            assert(entries[t].0@ == name);
        } else if exists|t: int| 0 <= t < entries.len() && entries[t].0@ == name {
            let t = choose|t: int| 0 <= t < entries.len() && entries[t].0@ == name;
            assert(entries.drop_last()[t].0@ == name);
        }
    }
}

/// The newest entry carrying a name is the one the denoted map holds.
pub proof fn lemma_map_of_last_match(entries: Seq<(String, FixtureValue)>, name: Seq<char>, j: int)
    requires
        0 <= j < entries.len(),
        entries[j].0@ == name,
        forall|t: int| j < t < entries.len() ==> entries[t].0@ != name,
    ensures
        map_of(entries).contains_key(name),
        map_of(entries)[name] == entries[j].1,
    decreases entries.len(),
{
    if j == entries.len() - 1 {
    } else {
        lemma_map_of_last_match(entries.drop_last(), name, j);
    }
}

/// Named values shared across the steps of one scenario run.  One registry
/// serves exactly one sequential run; concurrent runs each get their own.
pub struct FixtureRegistry {
    entries: Vec<(String, FixtureValue)>,
}

impl FixtureRegistry {
    /// The ordered log of entries, oldest first.
    pub closed spec fn log(self) -> Seq<(String, FixtureValue)> {
        self.entries@
    }

    /// The name-to-value map the registry currently denotes.
    pub open spec fn bindings(self) -> Map<Seq<char>, FixtureValue> {
        map_of(self.log())
    }

    pub fn new() -> (r: FixtureRegistry)
        ensures
            r.log() == Seq::<(String, FixtureValue)>::empty(),
            r.bindings() == Map::<Seq<char>, FixtureValue>::empty(),
    {
        FixtureRegistry { entries: Vec::new() }
    }

    /// Whether any entry carries the name.
    pub fn contains(&self, name: &str) -> (r: bool)
        ensures
            r == self.bindings().contains_key(name@),
    {
        proof {
            lemma_map_of_contains_iff(self.log(), name@);
        }
        let n = self.entries.len();
        let mut i: usize = 0;
        while i < n
            invariant
                n == self.log().len(),
                i <= n,
                forall|t: int| 0 <= t < i ==> self.log()[t].0@ != name@,
            decreases n - i,
        {
            let entry = &self.entries[i];
            if str_eq(entry.0.as_str(), name) {
                proof {
                    lemma_map_of_contains_iff(self.log(), name@);
                    assert(exists|t: int| 0 <= t < self.log().len() && self.log()[t].0@ == name@)
                        by {
                        assert(self.log()[i as int].0@ == name@);
                    }
                }
                return true;
            }
            i = i + 1;
        }
        false
    }

    /// Binds a fresh name; a name already bound is a `DuplicateFixture`
    /// defect and leaves the registry untouched.
    pub fn define(&mut self, name: String, value: FixtureValue) -> (r: Result<(), FixtureError>)
        ensures
            old(self).bindings().contains_key(name@) ==> {
                &&& (r matches Err(e) && e matches FixtureError::DuplicateFixture(n) && n@
                    == name@)
                &&& final (self).log() == old(self).log()
            },
            !old(self).bindings().contains_key(name@) ==> {
                &&& r is Ok
                &&& final (self).log() == old(self).log().push((name, value))
                &&& final (self).bindings() == old(self).bindings().insert(name@, value)
            },
    {
        if self.contains(name.as_str()) {
            return Err(FixtureError::DuplicateFixture(name));
        }
        let ghost old_log = self.entries@;
        self.entries.push((name, value));
        proof {
            assert(self.entries@.drop_last() =~= old_log);
        }
        Ok(())
    }

    /// Binds a name whether or not it is already bound: the update the few
    /// documented steps (such as storing a newly created record id) rely on.
    pub fn set(&mut self, name: String, value: FixtureValue)
        ensures
            final (self).log() == old(self).log().push((name, value)),
            final (self).bindings() == old(self).bindings().insert(name@, value),
    {
        let ghost old_log = self.entries@;
        self.entries.push((name, value));
        proof {
            assert(self.entries@.drop_last() =~= old_log);
        }
    }

    /// Looks a name up; a name never produced is a `MissingFixture` defect.
    pub fn get<'a>(&'a self, name: &str) -> (r: Result<&'a FixtureValue, FixtureError>)
        ensures
            self.bindings().contains_key(name@) ==> (r matches Ok(v) && *v
                == self.bindings().index(name@)),
            !self.bindings().contains_key(name@) ==> (r matches Err(e) && e
                matches FixtureError::MissingFixture(n) && n@ == name@),
    {
        let n = self.entries.len();
        let mut i: usize = n;
        while i > 0
            invariant
                n == self.log().len(),
                i <= n,
                forall|t: int| i <= t < n ==> self.log()[t].0@ != name@,
            decreases i,
        {
            i = i - 1;
            let entry = &self.entries[i];
            if str_eq(entry.0.as_str(), name) {
                proof {
                    lemma_map_of_last_match(self.log(), name@, i as int);
                }
                return Ok(&entry.1);
            }
        }
        proof {
            lemma_map_of_contains_iff(self.log(), name@);
        }
        Err(FixtureError::MissingFixture(name.to_owned()))
    }
}

} // verus!
