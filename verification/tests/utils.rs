use sheila::text::{decimal_string, first_word_of, join_strings, str_contains, str_ends_with, str_eq, str_starts_with};
use sheila::utils::{format_duration, parse_target, OutputFormat, TargetSpec, Utils};

fn shown(spec: TargetSpec) -> String {
    match spec {
        TargetSpec::File(f) => format!("file {}", f),
        TargetSpec::FileLine { file, line } => format!("line {} of {}", line, file),
        TargetSpec::Function(f) => format!("function {}", f),
        TargetSpec::Tag(t) => format!("tag {}", t),
    }
}

#[test]
fn targets_name_files_lines_functions_and_tags() {
    assert_eq!(shown(parse_target("src/lib.rs:42")), "line 42 of src/lib.rs");
    assert_eq!(shown(parse_target("src/lib.rs:+7")), "line 7 of src/lib.rs");
    assert_eq!(shown(parse_target("a:1:2")), "function a:1:2");
    assert_eq!(shown(parse_target("src/lib.rs:x")), "file src/lib.rs:x");
    assert_eq!(shown(parse_target("src/lib.rs:")), "file src/lib.rs:");
    assert_eq!(shown(parse_target("src/lib.rs:99999999999999999999999")), "file src/lib.rs:99999999999999999999999");
    assert_eq!(shown(parse_target("@slow")), "tag slow");
    assert_eq!(shown(parse_target("@")), "tag ");
    assert_eq!(shown(parse_target("@a:3")), "line 3 of @a");
    assert_eq!(shown(parse_target("tests/math")), "file tests/math");
    assert_eq!(shown(parse_target("math.rs")), "file math.rs");
    assert_eq!(shown(parse_target("test_addition")), "function test_addition");
    assert_eq!(shown(parse_target("")), "function ");
    assert_eq!(shown(Utils::parse_target(":5")), "line 5 of ");
}

#[test]
fn durations_are_shown_in_the_largest_fitting_unit() {
    assert_eq!(format_duration(0), "0ms");
    assert_eq!(format_duration(999), "999ms");
    assert_eq!(format_duration(1_000), "1.0s");
    assert_eq!(format_duration(1_950), "1.9s");
    assert_eq!(format_duration(59_999), "59.9s");
    assert_eq!(format_duration(60_000), "1m 0s");
    assert_eq!(format_duration(125_400), "2m 5s");
    assert_eq!(format_duration(3_600_000), "1h 0m 0s");
    assert_eq!(format_duration(3_725_999), "1h 2m 5s");
    assert_eq!(Utils::format_duration(u64::MAX), "5124095576030h 25m 51s");
}

#[test]
fn text_helpers() {
    assert_eq!(decimal_string(0), "0");
    assert_eq!(decimal_string(7), "7");
    assert_eq!(decimal_string(1_234_567_890), "1234567890");
    assert_eq!(decimal_string(u64::MAX), "18446744073709551615");
    assert!(str_contains("andré was here", "dré"));
    assert!(str_contains("abc", ""));
    assert!(!str_contains("abc", "abcd"));
    assert!(!str_contains("", "a"));
    assert!(str_starts_with("abc", "ab") && !str_starts_with("abc", "bc"));
    assert!(str_ends_with("abc", "bc") && !str_ends_with("abc", "ab") && str_ends_with("abc", ""));
    assert!(str_eq("", "") && str_eq("añb", "añb") && !str_eq("a", "ab") && !str_eq("ab", "ac"));
    assert_eq!(join_strings(&vec!["a".to_string(), "b".to_string()], ", "), "a, b");
    assert_eq!(join_strings(&Vec::new(), ","), "");
    assert_eq!(first_word_of("  hello world"), Some("hello".to_string()));
    assert_eq!(first_word_of("one"), Some("one".to_string()));
    assert_eq!(first_word_of(" \t\n"), None);
    assert_eq!(first_word_of(""), None);
}

#[test]
fn report_formats_have_words() {
    for (format, word) in [
        (OutputFormat::Text, "text"),
        (OutputFormat::Json, "json"),
        (OutputFormat::Csv, "csv"),
        (OutputFormat::Html, "html"),
        (OutputFormat::Junit, "junit"),
        (OutputFormat::Tap, "tap"),
    ] {
        assert_eq!(format.to_string(), word);
        assert_eq!(OutputFormat::from_name(word), Some(format));
    }
    assert_eq!(OutputFormat::from_name("JSON"), None);
    assert_eq!(OutputFormat::from_name(""), None);
}
