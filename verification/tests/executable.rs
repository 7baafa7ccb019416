use sheila::error::ErrorKind;
use sheila::executable::{
    build_args, executable_of, extract_test_executable, filter_executables, read_artifact,
    ArtifactMessage, CargoRunnerConfig, ExecutableBuilder, TestExecutable,
};

fn exe(path: &str, name: &str) -> TestExecutable {
    TestExecutable::new(path.to_string(), name.to_string(), "pkg".to_string())
}

fn strings(list: &[&str]) -> Vec<String> {
    list.iter().map(|s| s.to_string()).collect()
}

#[test]
fn the_group_of_a_binary_comes_from_its_path() {
    assert_eq!(TestExecutable::determine_target_crate("target/debug/deps/sheila_examples-1a"), "examples");
    assert_eq!(TestExecutable::determine_target_crate("crates/cli/x"), "cli");
    assert_eq!(TestExecutable::determine_target_crate("a/core/b"), "core");
    assert_eq!(TestExecutable::determine_target_crate("a/server/b"), "server");
    assert_eq!(TestExecutable::determine_target_crate("a/proc-macros/b"), "proc_macros");
    assert_eq!(TestExecutable::determine_target_crate("a/proc_macros/b"), "proc_macros");
    assert_eq!(TestExecutable::determine_target_crate("somewhere/else"), "examples");
    assert_eq!(TestExecutable::determine_target_crate("cli/examples"), "examples");
    let e = exe("target/debug/deps/sheila_core-77", "sheila_core");
    assert_eq!(e.target_crate, "core");
    assert_eq!(e.package_name, "pkg");
    let copy = e.clone();
    assert_eq!((copy.path, copy.name, copy.target_crate), (e.path, e.name, e.target_crate));
}

#[test]
fn executables_are_chosen_by_the_target_filter() {
    let all = vec![
        exe("target/debug/deps/sheila_core-1", "sheila_core"),
        exe("target/debug/deps/sheila_cli-2", "sheila_cli"),
        exe("target/debug/deps/sheila_examples-3", "sheila_examples"),
        exe("target/debug/deps/other-4", "other"),
    ];
    let names = |v: Vec<TestExecutable>| v.into_iter().map(|e| e.name).collect::<Vec<_>>();
    assert_eq!(names(filter_executables(&all, None)).len(), 4);
    assert_eq!(names(filter_executables(&all, Some("core"))), ["sheila_core"]);
    assert_eq!(names(filter_executables(&all, Some("crates/cli/src/main.rs"))), ["sheila_cli"]);
    assert_eq!(names(filter_executables(&all, Some("examples"))), ["sheila_examples", "other"]);
    assert_eq!(names(filter_executables(&all, Some("foo.rs"))), ["sheila_examples", "other"]);
    assert_eq!(names(filter_executables(&all, Some("sheila"))).len(), 3);
    assert!(filter_executables(&all, Some("nothing")).is_empty());
    let builder = ExecutableBuilder::new(None, None, Vec::new());
    assert_eq!(names(builder.filter_executables(&all, Some("cli"))), ["sheila_cli"]);
}

#[test]
fn the_build_tool_is_asked_with_these_arguments() {
    let default = CargoRunnerConfig::default();
    assert_eq!(default.features, ["sheila-proc-macros/__sheila_test"]);
    assert_eq!(default.executable_timeout, Some(300_000));
    assert!(default.capture_output);
    assert_eq!(
        build_args(&default),
        strings(&["test", "--no-run", "--message-format=json", "--features", "sheila-proc-macros/__sheila_test"])
    );
    let config = CargoRunnerConfig {
        profile: Some("release".to_string()),
        features: strings(&["a", "b", "c"]),
        executable_timeout: None,
        capture_output: false,
        cargo_args: strings(&["--offline", "-q"]),
        test_args: Vec::new(),
    };
    assert_eq!(
        build_args(&config),
        strings(&[
            "test", "--no-run", "--message-format=json", "--profile", "release", "--features", "a,b,c",
            "--offline", "-q",
        ])
    );
    let bare = CargoRunnerConfig { features: Vec::new(), ..CargoRunnerConfig::default() };
    assert_eq!(build_args(&bare), strings(&["test", "--no-run", "--message-format=json"]));
}

#[test]
fn the_builder_writes_its_command() {
    let plain = ExecutableBuilder::new(None, None, Vec::new());
    assert_eq!(
        plain.args().unwrap(),
        strings(&[
            "test", "--no-run", "--tests", "--verbose", "--workspace",
            "--message-format=json-diagnostic-rendered-ansi",
            "--features", "sheila-proc-macros/__sheila_test,sheila/full",
        ])
    );
    let full = ExecutableBuilder::new(Some("math".to_string()), Some("ci".to_string()), strings(&["-j", "2"]));
    assert_eq!(
        full.args().unwrap(),
        strings(&[
            "test", "--filter=math", "--no-run", "--tests", "--verbose", "--workspace",
            "--message-format=json-diagnostic-rendered-ansi", "--profile", "ci",
            "--features", "sheila-proc-macros/__sheila_test,sheila/full", "-j", "2",
        ])
    );
}

fn artifact(reason: &str) -> serde_json::Value {
    let text = format!(
        "{{\"reason\":\"{}\",\"package_id\":\"  sheila-core 0.1.0 (path+file:///x)\",\"target\":{{\"name\":\"sheila_core\",\"kind\":[\"lib\"]}},\"profile\":{{\"test\":true}},\"executable\":\"/w/target/debug/deps/sheila_core-1\"}}",
        reason
    );
    serde_json::from_str(&text).unwrap()
}

fn message(text: &str) -> serde_json::Value {
    serde_json::from_str(text).unwrap()
}

#[test]
fn a_test_artifact_with_an_executable_yields_it() {
    let found = extract_test_executable(&artifact("compiler-artifact")).unwrap().unwrap();
    assert_eq!(found.path, "/w/target/debug/deps/sheila_core-1");
    assert_eq!(found.name, "sheila_core");
    assert_eq!(found.package_name, "sheila-core");
    assert_eq!(found.target_crate, "core");
    let builder = ExecutableBuilder::new(None, None, Vec::new());
    assert!(builder.extract_test_executable(&artifact("compiler-artifact")).unwrap().is_some());
}

#[test]
fn other_messages_yield_nothing() {
    assert!(extract_test_executable(&artifact("build-finished")).unwrap().is_none());
    let not_test = message("{\"reason\":\"compiler-artifact\",\"package_id\":\"p 1\",\"profile\":{\"test\":false},\"executable\":\"/x\",\"target\":{\"name\":\"n\"}}");
    assert!(extract_test_executable(&not_test).unwrap().is_none());
    let no_exe = message("{\"reason\":\"compiler-artifact\",\"package_id\":\"p 1\",\"profile\":{\"test\":true},\"executable\":null}");
    assert!(extract_test_executable(&no_exe).unwrap().is_none());
}

#[test]
fn malformed_messages_are_errors() {
    let cases = [
        ("{}", "Missing reason field in cargo output"),
        ("{\"reason\":7}", "Missing reason field in cargo output"),
        ("{\"reason\":\"compiler-artifact\"}", "Missing package_id field"),
        ("{\"reason\":\"compiler-artifact\",\"package_id\":\"   \"}", "Invalid package_id format"),
        ("{\"reason\":\"compiler-artifact\",\"package_id\":\"p\"}", "Missing profile field"),
        ("{\"reason\":\"compiler-artifact\",\"package_id\":\"p\",\"profile\":{}}", "Missing test field in profile"),
        ("{\"reason\":\"compiler-artifact\",\"package_id\":\"p\",\"profile\":{\"test\":\"yes\"}}", "Missing test field in profile"),
        ("{\"reason\":\"compiler-artifact\",\"package_id\":\"p\",\"profile\":{\"test\":true},\"executable\":\"/x\"}", "Missing target field"),
        ("{\"reason\":\"compiler-artifact\",\"package_id\":\"p\",\"profile\":{\"test\":true},\"executable\":\"/x\",\"target\":{}}", "Missing name field in target"),
    ];
    for (text, expected) in cases {
        let e = extract_test_executable(&message(text)).unwrap_err();
        assert_eq!(e.kind(), ErrorKind::TestExecution);
        assert_eq!(e.message(), expected);
    }
}

#[test]
fn what_is_read_of_a_message_decides_what_it_yields() {
    let read = read_artifact(&artifact("compiler-artifact"));
    assert_eq!(read.reason.as_deref(), Some("compiler-artifact"));
    assert!(read.has_profile && read.has_target);
    assert_eq!(read.is_test, Some(true));
    assert_eq!(read.target_name.as_deref(), Some("sheila_core"));
    let by_hand = ArtifactMessage {
        reason: Some("compiler-artifact".to_string()),
        package_id: Some("pkg 1.0".to_string()),
        has_profile: true,
        is_test: Some(true),
        executable: Some("/bin/cli-test".to_string()),
        has_target: true,
        target_name: Some("t".to_string()),
    };
    let found = executable_of(by_hand).unwrap().unwrap();
    assert_eq!((found.package_name.as_str(), found.target_crate.as_str()), ("pkg", "cli"));
}
