//! The log-metric extraction path: marker extraction, triple parsing, the
//! numeric grammar, and the string utilities.
use mngr::strings::{decimal_string, str_eq, with_run_suffix};
use mngr::webserver_logs::{
    extract_metric_csv, is_numeric_value, parse_i64, parse_line, ParseWebserverLogs,
};

#[test]
fn extracts_text_after_marker() {
    let line = "2021-01-02 INFO metric:cpu;0.5;1610000000";
    assert_eq!(extract_metric_csv(line), Some("cpu;0.5;1610000000".to_string()));
}

#[test]
fn extracts_after_last_marker() {
    let line = "metric:first;1;2 and metric:cpu;0.5;3";
    assert_eq!(extract_metric_csv(line), Some("cpu;0.5;3".to_string()));
}

#[test]
fn no_marker_yields_nothing() {
    assert_eq!(extract_metric_csv("plain log line"), None);
    assert_eq!(extract_metric_csv(""), None);
}

#[test]
fn marker_needs_a_tail() {
    assert_eq!(extract_metric_csv("ends with metric:"), None);
}

#[test]
fn parses_a_metric_triple() {
    let row = parse_line("cpu_load;0.75;1610000000").expect("well-formed triple");
    assert_eq!(row.name, "cpu_load");
    assert_eq!(row.value, "0.75");
    assert_eq!(row.timestamp, 1610000000);
}

#[test]
fn parses_a_negative_timestamp() {
    let row = parse_line("t;1;-5").expect("negative timestamps are timestamps");
    assert_eq!(row.timestamp, -5);
}

#[test]
fn rejects_wrong_arity() {
    let err = parse_line("only;two").unwrap_err();
    assert_eq!(err, "wrong number of values in metric csv");
    let err = parse_line("a;b;c;d").unwrap_err();
    assert_eq!(err, "wrong number of values in metric csv");
    let err = parse_line("no separators").unwrap_err();
    assert_eq!(err, "wrong number of values in metric csv");
}

#[test]
fn rejects_non_numeric_value() {
    let err = parse_line("cpu;high;1610000000").unwrap_err();
    assert_eq!(err, "invalid metric value");
}

#[test]
fn rejects_bad_timestamp() {
    let err = parse_line("cpu;1.0;soon").unwrap_err();
    assert_eq!(err, "invalid timestamp");
    let err = parse_line("cpu;1.0;").unwrap_err();
    assert_eq!(err, "invalid timestamp");
}

#[test]
fn parse_i64_covers_the_type_bounds() {
    assert_eq!(parse_i64("0"), Some(0));
    assert_eq!(parse_i64("42"), Some(42));
    assert_eq!(parse_i64("-42"), Some(-42));
    assert_eq!(parse_i64("+42"), Some(42));
    assert_eq!(parse_i64("9223372036854775807"), Some(i64::MAX));
    assert_eq!(parse_i64("+9223372036854775807"), Some(i64::MAX));
    assert_eq!(parse_i64("-9223372036854775808"), Some(i64::MIN));
    assert_eq!(parse_i64("9223372036854775808"), None);
    assert_eq!(parse_i64("+9223372036854775808"), None);
    assert_eq!(parse_i64("-9223372036854775809"), None);
    assert_eq!(parse_i64(""), None);
    assert_eq!(parse_i64("-"), None);
    assert_eq!(parse_i64("+"), None);
    assert_eq!(parse_i64("+-5"), None);
    assert_eq!(parse_i64("12a"), None);
    assert_eq!(parse_i64("0007"), Some(7));
}

#[test]
fn parse_i64_agrees_with_integer_parsing() {
    for text in [
        "0", "7", "-7", "+7", "007", "+007", "-007", "9223372036854775807",
        "+9223372036854775807", "-9223372036854775808", "9223372036854775808",
        "-9223372036854775809", "", "-", "+", "+-1", "--1", "1 ", " 1", "1.0", "abc",
    ] {
        assert_eq!(parse_i64(text), text.parse::<i64>().ok(), "disagreement on {:?}", text);
    }
}

#[test]
fn plus_signed_timestamps_are_timestamps() {
    let row = parse_line("t;1;+5").expect("a plus-signed timestamp is a timestamp");
    assert_eq!(row.timestamp, 5);
}

#[test]
fn numeric_grammar_accepts_decimal_forms() {
    assert!(is_numeric_value("1"));
    assert!(is_numeric_value("-1.5"));
    assert!(is_numeric_value("+0.25"));
    assert!(is_numeric_value(".5"));
    assert!(is_numeric_value("1."));
    assert!(is_numeric_value("1e9"));
    assert!(is_numeric_value("3.2E-7"));
    assert!(!is_numeric_value(""));
    assert!(!is_numeric_value("."));
    assert!(!is_numeric_value("-"));
    assert!(!is_numeric_value("1e"));
    assert!(!is_numeric_value("1.2.3"));
    assert!(!is_numeric_value("abc"));
}

#[test]
fn numeric_grammar_matches_float_parsing_spellings() {
    for text in [
        "inf", "Inf", "INF", "-inf", "+inf", "infinity", "INFINITY", "-Infinity", "nan", "NaN",
        "NAN", "-nan", "+NaN",
    ] {
        assert!(is_numeric_value(text), "{} must be numeric", text);
        assert!(text.parse::<f64>().is_ok(), "{} must parse as a float", text);
    }
    for text in ["in", "infin", "infinit", "na", "nans", "infx", "- inf"] {
        assert!(!is_numeric_value(text), "{} must not be numeric", text);
        assert!(text.parse::<f64>().is_err(), "{} must not parse as a float", text);
    }
}

#[test]
fn special_float_values_are_stored_not_dropped() {
    let row = parse_line("load;inf;1610000000").expect("an infinite sample is a sample");
    assert_eq!(row.value, "inf");
    let row = parse_line("load;NaN;1610000000").expect("a NaN sample is a sample");
    assert_eq!(row.value, "NaN");
}

#[test]
fn collect_rows_keeps_only_yielding_lines() {
    let lines = vec![
        "boot complete".to_string(),
        "INFO metric:mem;2048;1610000001".to_string(),
        "WARN metric:broken".to_string(),
        "DEBUG metric:cpu;0.5;1610000002".to_string(),
    ];
    let rows = ParseWebserverLogs::collect_rows(&lines);
    assert_eq!(rows.len(), 2);
    assert_eq!(rows[0].name, "mem");
    assert_eq!(rows[0].value, "2048");
    assert_eq!(rows[0].timestamp, 1610000001);
    assert_eq!(rows[1].name, "cpu");
    assert_eq!(rows[1].value, "0.5");
    assert_eq!(rows[1].timestamp, 1610000002);
}

#[test]
fn decimal_rendering_is_exact() {
    assert_eq!(decimal_string(0), "0");
    assert_eq!(decimal_string(7), "7");
    assert_eq!(decimal_string(1203), "1203");
    assert_eq!(decimal_string(u64::MAX), "18446744073709551615");
}

#[test]
fn run_suffix_concatenates() {
    assert_eq!(with_run_suffix("u1-", "abc"), "u1-abc");
    assert_ne!(with_run_suffix("u1-", "run1"), with_run_suffix("u1-", "run2"));
}

#[test]
fn str_eq_compares_by_characters() {
    assert!(str_eq("same", "same"));
    assert!(!str_eq("same", "sane"));
    assert!(!str_eq("same", "same "));
    assert!(str_eq("", ""));
    assert!(str_eq("naïve", "naïve"));
}
