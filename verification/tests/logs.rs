use deck_optimizer::logs::{
    laid_out, log_file_name, most_recent_log, names_log, read_latest_log,
    read_most_recent_log_pretty, LogFile,
};
use deck_optimizer::text::{chars_of, decimal_string, parse_u64};

fn file(name: &str, modified: Option<u64>) -> LogFile {
    LogFile { name: name.to_string(), modified }
}

#[test]
fn decimal_string_has_no_leading_zeros() {
    assert_eq!(decimal_string(0), "0");
    assert_eq!(decimal_string(7), "7");
    assert_eq!(decimal_string(10), "10");
    assert_eq!(decimal_string(1_700_000_000), "1700000000");
    assert_eq!(decimal_string(u64::MAX), "18446744073709551615");
}

#[test]
fn decimal_string_reads_back_as_the_number() {
    for n in [0u64, 1, 9, 10, 99, 100, 12345, 1_700_000_000, u64::MAX - 1, u64::MAX] {
        assert_eq!(parse_u64(&chars_of(&decimal_string(n))), Some(n));
        assert_eq!(decimal_string(n), n.to_string());
    }
}

#[test]
fn log_file_is_named_by_its_timestamp() {
    assert_eq!(log_file_name(1_700_000_000), "logs/system_log_1700000000.json");
    assert_eq!(log_file_name(0), "logs/system_log_0.json");
}

#[test]
fn log_names_end_in_json() {
    assert!(names_log("system_log_1700000000.json"));
    assert!(names_log("a.json"));
    assert!(names_log("..json"));
    assert!(!names_log(".json"));
    assert!(!names_log("json"));
    assert!(!names_log("a.json.bak"));
    assert!(!names_log("a.JSON"));
    assert!(!names_log(""));
}

#[test]
fn most_recent_log_is_the_one_modified_last() {
    let files = vec![
        file("system_log_3.json", Some(300)),
        file("notes.txt", Some(900)),
        file("system_log_1.json", Some(500)),
        file("system_log_2.json", Some(400)),
    ];
    assert_eq!(most_recent_log(&files), Some(2));
}

#[test]
fn of_logs_modified_together_the_last_listed_wins() {
    let files = vec![
        file("a.json", Some(500)),
        file("b.json", Some(500)),
        file("c.json", Some(100)),
    ];
    assert_eq!(most_recent_log(&files), Some(1));
}

#[test]
fn unknown_modification_time_ranks_lowest() {
    let files = vec![file("a.json", None), file("b.json", Some(0)), file("c.json", None)];
    assert_eq!(most_recent_log(&files), Some(1));
    let files = vec![file("a.json", None), file("c.json", None)];
    assert_eq!(most_recent_log(&files), Some(1));
}

#[test]
fn no_log_means_no_most_recent_log() {
    assert_eq!(most_recent_log(&[]), None);
    assert_eq!(most_recent_log(&[file("notes.txt", Some(1)), file(".json", Some(2))]), None);
}

#[test]
fn a_log_is_laid_out_for_reading() {
    assert_eq!(
        read_most_recent_log_pretty("{\"timestamp\":1700000000,\"per_core\":[1.5,2.0]}"),
        Some(
            "{\n  \"per_core\": [\n    1.5,\n    2.0\n  ],\n  \"timestamp\": 1700000000\n}"
                .to_string()
        )
    );
    assert_eq!(read_most_recent_log_pretty("null"), Some("null".to_string()));
}

#[test]
fn text_that_is_no_json_is_not_shown() {
    assert_eq!(read_most_recent_log_pretty(""), None);
    assert_eq!(read_most_recent_log_pretty("{\"timestamp\":"), None);
    assert_eq!(read_most_recent_log_pretty("{} trailing"), None);
}

#[test]
fn missing_log_is_reported_in_words() {
    assert_eq!(read_latest_log(Some("{}".to_string())), "{}");
    assert_eq!(read_latest_log(None), "[Error] No logs found.");
}

#[test]
fn laying_out_that_failed_shows_nothing() {
    assert_eq!(laid_out(Ok("{}".to_string())), Some("{}".to_string()));
    let error = serde_json::from_str::<serde_json::Value>("{").unwrap_err();
    assert_eq!(laid_out(Err(error)), None);
}

#[test]
fn every_json_value_is_laid_out() {
    let deep = format!("{}{}", "[".repeat(100), "]".repeat(100));
    let cases = [
        "0",
        "-1.5e300",
        "1e-400",
        "\"a\\u0000\\n\\\"b\"",
        "[]",
        "{}",
        "  [1, {\"k\": [true, false, null]}, \"x\"]  ",
        "{\"b\": {\"\": 1}, \"a\": 18446744073709551615}",
        deep.as_str(),
    ];
    for case in cases {
        let shown = read_most_recent_log_pretty(case);
        assert!(shown.is_some(), "case {:?}", case);
        let again = read_most_recent_log_pretty(&shown.clone().unwrap());
        assert_eq!(again, shown, "case {:?}", case);
    }
    assert_eq!(
        read_most_recent_log_pretty("[1,{\"k\":[]}]"),
        Some("[\n  1,\n  {\n    \"k\": []\n  }\n]".to_string())
    );
}
