//! The local metric database: one table of named, timestamped values,
//! reached through rusqlite.
use core::marker::PhantomData;
use vstd::prelude::*;

verus! {

#[verifier::external_type_specification]
#[verifier::external_body]
pub struct ExConnection(rusqlite::Connection);

#[verifier::external_type_specification]
#[verifier::external_body]
pub struct ExSqliteError(rusqlite::Error);

/// Relies on rusqlite's `Connection::open`: opens (creating if absent) the
/// database file at the path.  Whether it succeeds depends on the
/// filesystem.
#[verifier::external_body]
pub(crate) fn open_connection(path: &str) -> Result<rusqlite::Connection, rusqlite::Error> {
    rusqlite::Connection::open(path)
}

/// Relies on the `Debug` form of rusqlite's `Error`: the failure text the
/// caller stores or logs.
#[verifier::external_body]
pub(crate) fn describe_sqlite_error(e: &rusqlite::Error) -> String {
    format!("{:?}", e)
}

/// Relies on rusqlite's `Connection::execute` with an INSERT statement:
/// adds one row to the metric table, binding the three fields in order.
/// The value arrives as its decimal text; the column's affinity converts
/// it.  On success the call returns the number of rows changed.
#[verifier::external_body]
fn execute_insert_metric(
    conn: &rusqlite::Connection,
    name: &str,
    value: &str,
    timestamp: i64,
) -> Result<usize, rusqlite::Error> {
    conn.execute(
        "
            INSERT INTO metric (name, value, timestamp)
            VALUES (?1, ?2, ?3)",
        (name, value, timestamp),
    )
}

/// One row of the metric table: a name, the metric's decimal text, and a
/// Unix timestamp.
#[derive(Debug)]
pub struct MetricRow {
    pub name: String,
    pub value: String,
    pub timestamp: i64,
}

impl MetricRow {
    pub fn new(name: String, value: String, timestamp: i64) -> (r: MetricRow)
        ensures
            r.name@ == name@,
            r.value@ == value@,
            r.timestamp == timestamp,
    {
        MetricRow { name, value, timestamp }
    }
}

/// A handle on the database file, typed by the row it stores.
pub struct Db<T> {
    path: String,
    _phantom: PhantomData<T>,
}

impl Db<MetricRow> {
    /// The path of the database file this handle opens.
    pub closed spec fn path_view(self) -> Seq<char> {
        self.path@
    }

    pub fn new(path: String) -> (r: Db<MetricRow>)
        ensures
            r.path_view() == path@,
    {
        Db { path, _phantom: PhantomData }
    }

    /// Inserts one metric row, opening a connection to the handle's file.
    /// Success depends on the filesystem and the database; a failure is
    /// reported as its stored failure text.
    pub fn insert_metric(&self, metric: MetricRow) -> Result<(), String> {
        let conn = match open_connection(self.path.as_str()) {
            Ok(c) => c,
            Err(e) => {
                return Err(describe_sqlite_error(&e));
            },
        };
        match execute_insert_metric(&conn, metric.name.as_str(), metric.value.as_str(), metric.timestamp) {
            Ok(_) => Ok(()),
            Err(e) => Err(describe_sqlite_error(&e)),
        }
    }
}

} // verus!
