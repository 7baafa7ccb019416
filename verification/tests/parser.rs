use sheila::parser::{parse_line, parse_seconds, JsonLineParser, JsonRecord, StandardLineParser};
use sheila::test::TestStatus;
use sheila::types::TestOutputLine;

fn result_of(line: &str) -> (String, TestStatus, Option<u64>) {
    match parse_line(line) {
        Some(TestOutputLine::TestResult { name, status, duration_ms }) => (name, status, duration_ms),
        other => panic!("not a result line: {:?}", other),
    }
}

#[test]
fn text_result_lines_give_name_and_status() {
    assert_eq!(result_of("test mymod::add ... ok"), ("mymod::add".to_string(), TestStatus::Passed, None));
    assert_eq!(
        result_of("test mymod::add ... FAILED"),
        ("mymod::add".to_string(), TestStatus::Failed, None)
    );
    assert_eq!(
        result_of("test mymod::add ... ignored"),
        ("mymod::add".to_string(), TestStatus::Skipped, None)
    );
}

#[test]
fn text_result_line_ignores_what_follows_the_status() {
    assert_eq!(
        result_of("test a::b ... ok <0.001s>"),
        ("a::b".to_string(), TestStatus::Passed, None)
    );
}

#[test]
fn text_line_without_outcome_is_a_start() {
    match parse_line("test mymod::add") {
        Some(TestOutputLine::TestStart { name }) => assert_eq!(name, "mymod::add"),
        other => panic!("unexpected: {:?}", other),
    }
    match StandardLineParser::parse_test_output("test mymod::add ... maybe") {
        Some(TestOutputLine::TestStart { name }) => assert_eq!(name, "mymod::add"),
        other => panic!("unexpected: {:?}", other),
    }
}

#[test]
fn text_line_with_empty_name_says_nothing() {
    assert!(StandardLineParser::parse_test_start("test ").is_none());
    assert!(StandardLineParser::parse_test_start("test  x").is_none());
}

#[test]
fn running_line_gives_the_count() {
    match parse_line("running 12 tests") {
        Some(TestOutputLine::SuiteStart { count }) => assert_eq!(count, 12),
        other => panic!("unexpected: {:?}", other),
    }
    match parse_line("running 1 test") {
        Some(TestOutputLine::SuiteStart { count }) => assert_eq!(count, 1),
        other => panic!("unexpected: {:?}", other),
    }
}

#[test]
fn running_line_with_a_count_too_large_gives_zero() {
    match parse_line("running 99999999999999999999999999 tests") {
        Some(TestOutputLine::SuiteStart { count }) => assert_eq!(count, 0),
        other => panic!("unexpected: {:?}", other),
    }
}

#[test]
fn running_line_needs_digits_and_the_word_test() {
    assert!(parse_line("running tests").is_none());
    assert!(parse_line("running 3 things").is_none());
}

#[test]
fn unknown_lines_are_dropped() {
    assert!(parse_line("").is_none());
    assert!(parse_line("hello world").is_none());
    assert!(parse_line("{\"type\":\"bench\",\"event\":\"ok\"}").is_none());
    assert!(parse_line("{not json").is_none());
}

#[test]
fn panic_group_gives_test_location_and_message() {
    let group = "thread 'mymod::add' panicked at src/lib.rs:10:5:\nassertion failed";
    match StandardLineParser::parse_error_output(group) {
        Ok(TestOutputLine::Panic { message, test, location }) => {
            assert_eq!(message, "assertion failed");
            assert_eq!(test, "mymod::add");
            let location = location.expect("a location");
            assert_eq!(location.file, "src/lib.rs");
            assert_eq!(location.line, 10);
            assert_eq!(location.column, 5);
        }
        other => panic!("unexpected: {:?}", other),
    }
}

#[test]
fn panic_message_is_trimmed() {
    let group = "thread 't' panicked at a.rs:1:2:\n   left != right  \n";
    match StandardLineParser::parse_panic(group) {
        Some(TestOutputLine::Panic { message, .. }) => assert_eq!(message, "left != right"),
        other => panic!("unexpected: {:?}", other),
    }
}

#[test]
fn what_is_no_panic_group_is_an_error() {
    assert!(StandardLineParser::parse_error_output("warning: unused variable").is_err());
    assert!(StandardLineParser::parse_error_output("thread 'x' panicked at a.rs:1:2").is_err());
    assert!(StandardLineParser::parse_error_output("thread 'x' panicked at a.rs:b:2:\nm").is_err());
    assert!(
        StandardLineParser::parse_error_output("thread 'x' panicked at a.rs:99999999999:2:\nm").is_err()
    );
}

#[test]
fn structured_ok_line_gives_a_passed_result_with_its_duration() {
    let line = "{\"type\":\"test\",\"event\":\"ok\",\"name\":\"x\",\"exec_time\":0.01}";
    assert_eq!(result_of(line), ("x".to_string(), TestStatus::Passed, Some(10)));
}

#[test]
fn structured_lines_select_by_type_and_event() {
    match parse_line("{\"type\":\"suite\",\"event\":\"started\",\"test_count\":7}") {
        Some(TestOutputLine::SuiteStart { count }) => assert_eq!(count, 7),
        other => panic!("unexpected: {:?}", other),
    }
    match parse_line("{\"type\":\"suite\",\"event\":\"started\"}") {
        Some(TestOutputLine::SuiteStart { count }) => assert_eq!(count, 0),
        other => panic!("unexpected: {:?}", other),
    }
    match parse_line("{\"type\":\"test\",\"event\":\"started\",\"name\":\"a::b\"}") {
        Some(TestOutputLine::TestStart { name }) => assert_eq!(name, "a::b"),
        other => panic!("unexpected: {:?}", other),
    }
    assert_eq!(
        result_of("{\"type\":\"test\",\"event\":\"failed\",\"name\":\"a\",\"exec_time\":1.5}"),
        ("a".to_string(), TestStatus::Failed, Some(1500))
    );
    assert_eq!(
        result_of("{\"type\":\"test\",\"event\":\"ignored\",\"name\":\"a\",\"exec_time\":1.5}"),
        ("a".to_string(), TestStatus::Skipped, None)
    );
    assert_eq!(
        result_of("{\"type\":\"test\",\"event\":\"ok\",\"name\":\"a\"}"),
        ("a".to_string(), TestStatus::Passed, None)
    );
}

#[test]
fn structured_test_line_without_a_name_says_nothing() {
    assert!(matches!(JsonLineParser::parse_test_output("{\"type\":\"test\",\"event\":\"ok\"}"), Ok(None)));
    assert!(matches!(JsonLineParser::parse_test_output("{\"type\":\"suite\",\"event\":\"ok\"}"), Ok(None)));
    assert!(matches!(JsonLineParser::parse_test_output("[1,2]"), Ok(None)));
}

#[test]
fn structured_parser_reports_what_is_no_json() {
    let e = JsonLineParser::parse_test_output("test a ... ok").unwrap_err();
    assert_eq!(e.kind(), sheila::error::ErrorKind::Serialization);
    assert!(!e.message().is_empty());
}

#[test]
fn record_decides_the_event() {
    let record = JsonRecord {
        kind: Some("test".to_string()),
        event: Some("ok".to_string()),
        name: Some("n".to_string()),
        test_count: None,
        exec_time: Some("2".to_string()),
    };
    match JsonLineParser::event_of(record) {
        Some(TestOutputLine::TestResult { name, status, duration_ms }) => {
            assert_eq!(name, "n");
            assert_eq!(status, TestStatus::Passed);
            assert_eq!(duration_ms, Some(2000));
        }
        other => panic!("unexpected: {:?}", other),
    }
    let none = JsonRecord { kind: None, event: Some("ok".to_string()), name: None, test_count: None, exec_time: None };
    assert!(JsonLineParser::event_of(none).is_none());
}

#[test]
fn seconds_are_turned_into_milliseconds() {
    assert_eq!(parse_seconds("0.01"), Some(10));
    assert_eq!(parse_seconds("0"), Some(0));
    assert_eq!(parse_seconds("12"), Some(12_000));
    assert_eq!(parse_seconds("1.5"), Some(1_500));
    assert_eq!(parse_seconds("1.2349"), Some(1_234));
    assert_eq!(parse_seconds("0.001"), Some(1));
    assert_eq!(parse_seconds("0.0009"), Some(0));
    assert_eq!(parse_seconds("18446744073709551.615"), Some(u64::MAX));
}

#[test]
fn seconds_of_another_shape_give_no_duration() {
    assert_eq!(parse_seconds(""), None);
    assert_eq!(parse_seconds("-1.0"), None);
    assert_eq!(parse_seconds("1e-7"), None);
    assert_eq!(parse_seconds("1."), None);
    assert_eq!(parse_seconds(".5"), None);
    assert_eq!(parse_seconds("\"1.0\""), None);
    assert_eq!(parse_seconds("18446744073709551.616"), None);
    assert_eq!(parse_seconds("99999999999999999999999"), None);
}
