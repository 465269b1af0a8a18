//! Pruning the message store: deletes rows older than a cutoff computed
//! from the current time and an age in days, and optionally vacuums the
//! database afterwards.
use crate::clock;
use crate::db::{describe_sqlite_error, open_connection};
use crate::CleanMqttStoreDbOpts;
use vstd::prelude::*;

verus! {

/// Seconds in one day.
pub const DAY_SECONDS: u32 = 86400;

/// Relies on rusqlite's `Connection::execute` with a DELETE statement:
/// removes every message row whose bucket lies before the cutoff.  On
/// success the call returns the number of rows deleted.
#[verifier::external_body]
fn execute_delete_older_than(
    conn: &rusqlite::Connection,
    bucket: u32,
) -> Result<usize, rusqlite::Error> {
    conn.execute("DELETE FROM message WHERE bucket < ?1", (bucket,))
}

/// Relies on rusqlite's `Connection::execute` with a VACUUM statement:
/// compacts the database file.
#[verifier::external_body]
fn execute_vacuum(conn: &rusqlite::Connection) -> Result<usize, rusqlite::Error> {
    conn.execute("VACUUM", ())
}

/// The clock reading clamped into bucket range: negative readings become
/// zero and readings beyond `u32::MAX` saturate.
pub fn timestamp_bucket(now: i64) -> (r: u32)
    ensures
        now < 0 ==> r == 0,
        0 <= now <= u32::MAX ==> r == now,
        now > u32::MAX ==> r == u32::MAX,
{
    if now < 0 {
        0
    } else if now > u32::MAX as i64 {
        u32::MAX
    } else {
        now as u32
    }
}

/// The cutoff bucket: the current bucket moved back by the age bound,
/// stopping at zero.  An age of up to 255 days always fits in a `u32`.
pub fn cutoff_bucket(current: u32, days: u8) -> (r: u32)
    ensures
        current >= days * DAY_SECONDS ==> r == current - days * DAY_SECONDS,
        current < days * DAY_SECONDS ==> r == 0,
{
    let back = (days as u32) * DAY_SECONDS;
    if current >= back {
        current - back
    } else {
        0
    }
}

/// The message-store pruning command: holds its options and an open
/// connection to the store.
pub struct CleanMqttStoreDb {
    pub opts: CleanMqttStoreDbOpts,
    connection: rusqlite::Connection,
}

impl CleanMqttStoreDb {
    /// The options the command was opened with.
    pub closed spec fn options(self) -> CleanMqttStoreDbOpts {
        self.opts
    }

    /// Opens the store named by the options.  Whether the open succeeds
    /// depends on the filesystem; a failure is reported as its stored
    /// failure text.
    pub fn new(opts: CleanMqttStoreDbOpts) -> (r: Result<CleanMqttStoreDb, String>)
        ensures
            r matches Ok(c) ==> c.options() == opts,
    {
        match open_connection(opts.db_path.as_str()) {
            Ok(connection) => Ok(CleanMqttStoreDb { opts, connection }),
            Err(e) => Err(describe_sqlite_error(&e)),
        }
    }

    /// Deletes every row from before the cutoff the options define and, if
    /// asked to, vacuums the store.  Reports the deleted row count; the
    /// database decides success.
    pub fn clean_mqtt_store_db(&self) -> Result<usize, String> {
        let current = timestamp_bucket(clock::unix_timestamp());
        let days_ago = cutoff_bucket(current, self.opts.days);
        let deleted_rows = match execute_delete_older_than(&self.connection, days_ago) {
            Ok(n) => n,
            Err(e) => {
                return Err(describe_sqlite_error(&e));
            },
        };
        if self.opts.vacuum {
            match execute_vacuum(&self.connection) {
                Ok(_) => {},
                Err(e) => {
                    return Err(describe_sqlite_error(&e));
                },
            }
        }
        Ok(deleted_rows)
    }
}

} // verus!
