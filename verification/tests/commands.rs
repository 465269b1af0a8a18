//! The smaller operator commands against a real database file, plus the
//! metric shaping and the clock arithmetic.
use mngr::clock::elapsed_millis;
use mngr::db::{Db, MetricRow};
use mngr::metrics::{measurements_of, Measurement, Processes, UsedMemory};
use mngr::mqtt_store::{cutoff_bucket, timestamp_bucket, CleanMqttStoreDb, DAY_SECONDS};
use mngr::rpc::Method;
use mngr::webserver_logs::ParseWebserverLogs;
use mngr::{CleanMqttStoreDbOpts, ParseWebserverLogsOpts};

fn fresh_db_path(tag: &str) -> String {
    let stamp = mngr::clock::unix_millis();
    format!("/tmp/mngr_test_{}_{}.sqlite3", tag, stamp)
}

#[test]
fn metric_rows_reach_the_database() {
    let path = fresh_db_path("metrics");
    {
        let conn = rusqlite::Connection::open(&path).expect("create database");
        conn.execute(
            "CREATE TABLE metric (name TEXT, value REAL, timestamp INTEGER)",
            (),
        )
        .expect("create table");
    }
    let db: Db<MetricRow> = Db::new(path.clone());
    db.insert_metric(MetricRow::new("cpu".to_string(), "0.5".to_string(), 1610000000))
        .expect("insert into existing table");

    let conn = rusqlite::Connection::open(&path).expect("reopen database");
    let (name, value, timestamp): (String, f64, i64) = conn
        .query_row("SELECT name, value, timestamp FROM metric", (), |row| {
            Ok((row.get(0)?, row.get(1)?, row.get(2)?))
        })
        .expect("read the row back");
    assert_eq!(name, "cpu");
    assert!((value - 0.5).abs() < 1e-9);
    assert_eq!(timestamp, 1610000000);
}

#[test]
fn insert_without_table_reports_an_error() {
    let path = fresh_db_path("no_table");
    let db: Db<MetricRow> = Db::new(path);
    let result = db.insert_metric(MetricRow::new("cpu".to_string(), "1".to_string(), 0));
    assert!(result.is_err());
}

#[test]
fn insert_in_db_counts_accepted_rows() {
    let path = fresh_db_path("count");
    {
        let conn = rusqlite::Connection::open(&path).expect("create database");
        conn.execute(
            "CREATE TABLE metric (name TEXT, value REAL, timestamp INTEGER)",
            (),
        )
        .expect("create table");
    }
    let command = ParseWebserverLogs::new(ParseWebserverLogsOpts::new(path));
    let rows = vec![
        MetricRow::new("a".to_string(), "1".to_string(), 1),
        MetricRow::new("b".to_string(), "2".to_string(), 2),
    ];
    assert_eq!(command.insert_in_db(&rows), 2);
    assert!(command.parse(&vec!["x metric:c;3;3".to_string()]).is_ok());
}

#[test]
fn clean_mqtt_store_deletes_old_rows() {
    let path = fresh_db_path("mqtt");
    {
        let conn = rusqlite::Connection::open(&path).expect("create database");
        conn.execute("CREATE TABLE message (bucket INTEGER, payload TEXT)", ())
            .expect("create table");
        conn.execute("INSERT INTO message VALUES (1, 'ancient')", ()).expect("insert");
        conn.execute("INSERT INTO message VALUES (2, 'old')", ()).expect("insert");
        conn.execute("INSERT INTO message VALUES (4102444800, 'far future')", ())
            .expect("insert");
    }
    let opts = CleanMqttStoreDbOpts::new(path, 7, true);
    let cleaner = CleanMqttStoreDb::new(opts).expect("open store");
    let deleted = cleaner.clean_mqtt_store_db().expect("prune");
    assert_eq!(deleted, 2);
}

#[test]
fn unopenable_store_reports_an_error() {
    let opts = CleanMqttStoreDbOpts::new(
        "/nonexistent_directory_for_mngr/store.sqlite3".to_string(),
        7,
        false,
    );
    assert!(CleanMqttStoreDb::new(opts).is_err());
}

#[test]
fn cutoff_bucket_saturates() {
    assert_eq!(cutoff_bucket(1_700_000_000, 7), 1_700_000_000 - 7 * DAY_SECONDS);
    assert_eq!(cutoff_bucket(100, 7), 0);
    assert_eq!(cutoff_bucket(86400, 1), 0);
    assert_eq!(cutoff_bucket(86401, 1), 1);
}

#[test]
fn timestamp_bucket_clamps() {
    assert_eq!(timestamp_bucket(-5), 0);
    assert_eq!(timestamp_bucket(0), 0);
    assert_eq!(timestamp_bucket(1_700_000_000), 1_700_000_000);
    assert_eq!(timestamp_bucket(i64::MAX), u32::MAX);
}

#[test]
fn elapsed_millis_clamps() {
    assert_eq!(elapsed_millis(100, 350), 250);
    assert_eq!(elapsed_millis(350, 100), 0);
    assert_eq!(elapsed_millis(i64::MIN, i64::MAX), u64::MAX);
}

#[test]
fn measurements_carry_the_samples() {
    let batch = measurements_of(2048, 75);
    assert_eq!(batch.len(), 2);
    assert_eq!(batch[0].name, "used_mem");
    assert_eq!(batch[0].field_name, "kb");
    assert_eq!(batch[0].value, 2048);
    assert_eq!(batch[1].name, "number_of_processes");
    assert_eq!(batch[1].field_name, "count");
    assert_eq!(batch[1].value, 75);
}

#[test]
fn samples_convert_into_measurements() {
    let m: Measurement = UsedMemory::new(512).into();
    assert_eq!(m.name, "used_mem");
    assert_eq!(m.value, 512);
    let m: Measurement = Processes::new(9).into();
    assert_eq!(m.name, "number_of_processes");
    assert_eq!(m.value, 9);
}

#[test]
fn wire_names_are_stable() {
    assert_eq!(Method::CreateIdentity.wire_name(), "create_identity");
    assert_eq!(Method::ValidateIdentity.wire_name(), "validate_identity");
    assert_eq!(Method::CreateRecord.wire_name(), "create_record");
    assert_eq!(Method::SearchRecords.wire_name(), "search_records");
    assert_eq!(Method::DeleteIdentity.wire_name(), "delete_identity");
    assert_eq!(Method::AddListItem.wire_name(), "add_list_item");
    assert_eq!(Method::DeleteListItem.wire_name(), "delete_list_item");
}
