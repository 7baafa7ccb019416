use sheila::error::{with_context, ErrorKind, ResultExt};
use sheila::output::{classify_line, split_colons, split_words, LegacyLine, OutputParser};
use sheila::reporting::types::{ReportFormat, ReportMetadata};
use sheila::reporting::{
    CompositeReporter, CsvReporter, HtmlReporter, JsonReporter, Reporter, TextReporter,
};
use sheila::runners::{RunResult, RunnerConfig};
use sheila::suite::SuiteResult;
use sheila::test::{TestMetadata, TestResult, TestStatus};
use sheila::tracker::TestTracker;
use sheila::types::ProcessOutput;
use uuid::Uuid;

fn chars(s: &str) -> Vec<char> {
    s.chars().collect()
}

fn strings(parts: Vec<Vec<char>>) -> Vec<String> {
    parts.into_iter().map(|p| p.into_iter().collect()).collect()
}

#[test]
fn words_are_what_stands_between_white_space() {
    assert_eq!(strings(split_words(&chars("  test  a::b ...\tok \n"))), ["test", "a::b", "...", "ok"]);
    assert_eq!(strings(split_words(&chars("one"))), ["one"]);
    assert!(split_words(&chars(" \t ")).is_empty());
    assert!(split_words(&chars("")).is_empty());
}

#[test]
fn colons_part_a_text_into_pieces() {
    assert_eq!(strings(split_colons(&chars("src/lib.rs:10:5"))), ["src/lib.rs", "10", "5"]);
    assert_eq!(strings(split_colons(&chars("a"))), ["a"]);
    assert_eq!(strings(split_colons(&chars(""))), [""]);
    assert_eq!(strings(split_colons(&chars(":a::"))), ["", "a", "", ""]);
}

#[test]
fn the_older_reading_knows_finished_tests_and_announcements() {
    match classify_line("test a::b ... ok") {
        LegacyLine::Finished { name, outcome } => assert_eq!((name.as_str(), outcome.as_str()), ("a::b", "ok")),
        other => panic!("unexpected: {:?}", other),
    }
    assert!(matches!(classify_line("test a ... ok"), LegacyLine::Finished { .. }));
    assert!(matches!(classify_line("test a... ok"), LegacyLine::Other));
    assert!(matches!(classify_line("running 12 tests"), LegacyLine::Running { count: 12 }));
    assert!(matches!(classify_line("now running test 3 of 9"), LegacyLine::Running { count: 3 }));
    assert!(matches!(classify_line("running tests"), LegacyLine::Other));
    assert!(matches!(classify_line("test a"), LegacyLine::Other));
}

#[test]
fn the_older_reading_gives_lifecycle_events() {
    match OutputParser::parse_test_line("test m::t ... ok", "bin", 12) {
        Some(ProcessOutput::TestPassed { result, duration_ms }) => {
            assert_eq!(result.name, "m::t");
            assert_eq!(result.status, TestStatus::Passed);
            assert_eq!(duration_ms, 12);
        }
        other => panic!("unexpected: {:?}", other),
    }
    match OutputParser::parse_test_line("test m::t ... FAILED", "bin", 7) {
        Some(ProcessOutput::TestFailed { result, duration_ms, error, location }) => {
            assert_eq!(result.status, TestStatus::Failed);
            assert_eq!(result.error.as_ref().unwrap().message(), "Test failed");
            assert_eq!(duration_ms, 7);
            assert!(error.is_empty() && location.is_none());
        }
        other => panic!("unexpected: {:?}", other),
    }
    match OutputParser::parse_test_line("test m::t ... okay then", "bin", 7) {
        Some(ProcessOutput::TestSkipped { result }) => assert_eq!(result.status, TestStatus::Skipped),
        other => panic!("unexpected: {:?}", other),
    }
    match OutputParser::parse_test_line("running 3 tests", "bin", 0) {
        Some(ProcessOutput::SuiteStarted { name, test_count }) => {
            assert_eq!(name, "bin");
            assert_eq!(test_count, 3);
        }
        other => panic!("unexpected: {:?}", other),
    }
    assert!(OutputParser::parse_test_line("warning: x", "bin", 0).is_none());
}

fn lines(list: &[&str]) -> Vec<String> {
    list.iter().map(|s| s.to_string()).collect()
}

#[test]
fn the_context_of_a_panic_is_shown_as_a_pointer() {
    let output = lines(&[
        "running 1 test",
        "  thread 'math::adds' panicked at examples/src/filesystem.rs:243:9:",
        "  assertion `left == right` failed  ",
        "note: run with `RUST_BACKTRACE=1`",
    ]);
    assert_eq!(
        OutputParser::parse_error_context(&output, "math::adds"),
        "--> examples/src/filesystem.rs:243:9\n    |\n243 | <source code placeholder>\n    |         ^ assertion `left == right` failed\n    |"
    );
}

#[test]
fn the_context_of_a_panic_with_less_detail() {
    assert_eq!(
        OutputParser::parse_error_context(&lines(&["nothing here"]), "t"),
        "Test 't' failed - check test output for details"
    );
    assert_eq!(
        OutputParser::parse_error_context(&[], "t"),
        "Test 't' failed - check test output for details"
    );
    assert_eq!(
        OutputParser::parse_error_context(&lines(&["thread 't' panicked at a.rs:1:2:", "note: x"]), "t"),
        "--> a.rs:1:2\n    Test failed at this location"
    );
    assert_eq!(
        OutputParser::parse_error_context(&lines(&["thread 't' panicked at a.rs:1:2:"]), "t"),
        "--> a.rs:1:2\n    Test failed at this location"
    );
    assert_eq!(
        OutputParser::parse_error_context(&lines(&["thread 't' panicked at nowhere", "boom"]), "t"),
        "Test panicked: boom"
    );
    assert_eq!(
        OutputParser::parse_error_context(&lines(&["t panicked at a.rs:7:", "boom"]), "t"),
        "--> a.rs:7\n    boom"
    );
    assert_eq!(
        OutputParser::parse_error_context(&lines(&["t panicked at a.rs:7:x:", "boom"]), "t"),
        "--> a.rs:7:x\n    |\n7 | <source code placeholder>\n    | ^ boom\n    |"
    );
    assert_eq!(
        OutputParser::parse_error_context(&lines(&["x panicked at a:1:1:", "m", "zz panicked at b:2:3:", "n"]), "zz"),
        "--> b:2:3\n    |\n2 | <source code placeholder>\n    |   ^ n\n    |"
    );
    assert_eq!(
        OutputParser::parse_error_context(&lines(&["x panicked at a:1:1:", "m", "t panicked at b:2:3:", "n"]), "t"),
        "--> a:1:1\n    |\n1 | <source code placeholder>\n    | ^ m\n    |"
    );
}

#[test]
fn gathered_lines() {
    let mut parser = OutputParser::new();
    assert!(parser.get_lines().is_empty());
    parser.push("a".to_string());
    parser.push("b".to_string());
    assert_eq!(parser.get_lines(), &lines(&["a", "b"]));
    let made = OutputParser::create_test_result("x::__sheila_s_tests::t", "FAILED");
    assert_eq!(made.name, "x::t");
    assert_eq!(made.status, TestStatus::Failed);
    assert_eq!(OutputParser::create_test_result("t", "ok").status, TestStatus::Passed);
    assert_eq!(OutputParser::create_test_result("t", "ignored").status, TestStatus::Skipped);
    let suite = parser.create_suite_result("bin", &[made]);
    assert_eq!((suite.total_tests, suite.failed_tests), (1, 1));
    parser.clear();
    assert!(parser.get_lines().is_empty());
    assert!(OutputParser::default().get_lines().is_empty());
}

#[test]
fn the_tracker_of_the_running_test() {
    let mut tracker = TestTracker::new_at(100);
    assert!(tracker.current_test_name.is_none());
    tracker.start_test_at("a".to_string(), 150);
    assert_eq!(tracker.current_test_name.as_deref(), Some("a"));
    assert_eq!(tracker.elapsed_at(400), 250);
    tracker.start_test_at("b".to_string(), 500);
    assert_eq!(tracker.previous_test_name.as_deref(), Some("a"));
    tracker.end_test_with_error("boom".to_string());
    assert!(tracker.current_test_name.is_none());
    assert_eq!(tracker.previous_test_name.as_deref(), Some("b"));
    assert_eq!(tracker.test_state.pending_error("b").unwrap().message.as_deref(), Some("boom"));
    tracker.end_test_with_error("lost".to_string());
    assert!(tracker.previous_test_name.is_none());
    tracker.start_test("c".to_string());
    tracker.end_test();
    assert_eq!(tracker.previous_test_name.as_deref(), Some("c"));
    let fresh = TestTracker::new();
    assert!(fresh.current_test_name.is_none());
    let _ = fresh.elapsed_ms();
}

#[test]
fn errors_of_other_kinds_are_turned_into_ours() {
    let bad: Result<u8, String> = Err("disk full".to_string());
    assert_eq!(bad.clone().into_test_error().unwrap_err().to_string(), "Test execution failed: disk full");
    assert_eq!(bad.clone().into_fixture_error().unwrap_err().kind(), ErrorKind::Fixture);
    assert_eq!(
        bad.clone().into_hook_error("before_all").unwrap_err().to_string(),
        "Hook execution failed: before_all: disk full"
    );
    assert_eq!(bad.clone().into_assertion_error().unwrap_err().kind(), ErrorKind::Assertion);
    assert_eq!(with_context(bad, "while saving").unwrap_err().to_string(), "while saving: disk full");
    let good: Result<u8, String> = Ok(3);
    assert_eq!(good.clone().into_test_error().unwrap(), 3);
    assert_eq!(with_context(good, "ctx").unwrap(), 3);
}

fn finished(name: &str, status: TestStatus, error: Option<sheila::error::Error>) -> TestResult {
    let mut r = TestResult::new_at(Uuid::new_v4(), name.to_string(), TestMetadata::new(name), 100);
    r.finish_at(status, error, 350);
    r
}

fn sample_run() -> RunResult {
    let mut first = SuiteResult::new_at(Uuid::new_v4(), "math".to_string(), TestMetadata::new("math"), 0);
    first.add_test_result(finished("adds", TestStatus::Passed, None));
    first.add_test_result(finished("divides", TestStatus::Failed, Some(sheila::error::Error::assertion("said \"no\""))));
    let mut second = SuiteResult::new_at(Uuid::new_v4(), "text".to_string(), TestMetadata::new("text"), 0);
    second.add_test_result(TestResult::new_at(Uuid::new_v4(), "trims".to_string(), TestMetadata::new("trims"), 5));
    let mut run = RunResult::new_at(RunnerConfig::default(), 0);
    run.add_suite_result(first);
    run.add_suite_result(second);
    run
}

#[test]
fn the_csv_report_has_one_row_for_each_test() {
    let run = sample_run();
    let report = CsvReporter::new().generate(&run).unwrap();
    assert_eq!(report.format, ReportFormat::Csv);
    assert_eq!(
        report.content,
        "suite_name,test_name,status,duration_ms,error\n\
         \"math\",\"adds\",passed,250,\n\
         \"math\",\"divides\",failed,250,\"Assertion failed: said \"\"no\"\"\"\n\
         \"text\",\"trims\",skipped,,\n"
    );
    assert_eq!(report.run_result.total_tests, 3);
    assert_eq!(report.run_result.suite_results[0].test_results[1].name, "divides");
    assert_eq!(report.metadata.title, "Test Report");
    let bare = CsvReporter::new().include_headers(false);
    assert!(bare.content(&run).starts_with("\"math\""));
    assert_eq!(CsvReporter::new().content(&RunResult::new(RunnerConfig::default())), "suite_name,test_name,status,duration_ms,error\n");
    assert_eq!(bare.format(), ReportFormat::Csv);
}

#[test]
fn reporters_are_configured_by_builders() {
    let metadata = ReportMetadata {
        title: "Nightly".to_string(),
        description: Some("all suites".to_string()),
        version: "2".to_string(),
        generator: "ci".to_string(),
    };
    let text = TextReporter::new().with_metadata(metadata.clone()).show_timing(false);
    assert_eq!(text.metadata.title, "Nightly");
    assert!(text.show_details && !text.show_timing);
    let json = JsonReporter::new().pretty(false).with_metadata(metadata.clone());
    assert!(!json.pretty);
    assert_eq!(json.metadata.generator, "ci");
    let html = HtmlReporter::new().include_styles(false).show_timing(false).with_metadata(metadata.clone());
    assert!(!html.include_styles && !html.show_timing);
    let csv = CsvReporter::default().with_metadata(metadata);
    assert!(csv.include_headers);
    assert_eq!(csv.metadata.description.as_deref(), Some("all suites"));
    let standard = ReportMetadata::default();
    assert_eq!(
        (standard.title.as_str(), standard.version.as_str(), standard.generator.as_str()),
        ("Test Report", "1.0", "Sheila Testing Framework")
    );
    assert!(TextReporter::default().show_timing && JsonReporter::default().pretty && HtmlReporter::default().include_styles);
    assert_eq!(ReportFormat::JUnit.to_string(), "junit");
    assert_eq!(ReportFormat::Composite(Vec::new()).to_string(), "composite()");
    assert_eq!(
        ReportFormat::Composite(vec![
            ReportFormat::Text,
            ReportFormat::Composite(vec![ReportFormat::Csv]),
            ReportFormat::Html,
        ])
        .to_string(),
        "composite(text, composite(csv), html)"
    );
}

#[test]
fn a_composite_reporter_writes_every_report() {
    let run = sample_run();
    let composite = CompositeReporter::new()
        .add_reporter(Box::new(CsvReporter::new()))
        .add_reporter(Box::new(CsvReporter::new().include_headers(false)));
    let reports = composite.generate_all(&run).unwrap();
    assert_eq!(reports.len(), 2);
    assert!(reports[0].content.len() > reports[1].content.len());
    assert!(CompositeReporter::default().generate_all(&run).unwrap().is_empty());
}

struct Broken;

impl Reporter for Broken {
    fn generate(&self, _run_result: &RunResult) -> Result<sheila::reporting::types::TestReport, sheila::error::Error> {
        Err(sheila::error::Error::reporter("disk full"))
    }

    fn format(&self) -> ReportFormat {
        ReportFormat::Text
    }
}

#[test]
fn the_first_reporter_that_fails_ends_the_composite_report() {
    let run = sample_run();
    let composite = CompositeReporter::new()
        .add_reporter(Box::new(CsvReporter::new()))
        .add_reporter(Box::new(Broken))
        .add_reporter(Box::new(CsvReporter::new()));
    let e = composite.generate_all(&run).unwrap_err();
    assert_eq!(e.kind(), ErrorKind::Reporter);
    assert_eq!(e.message(), "disk full");
}
