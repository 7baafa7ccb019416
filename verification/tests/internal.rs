use sheila::error::{Error, ErrorKind};
use sheila::internal::mock::{MockBuilder, MockCollection, MockConfig, MockValidator};
use sheila::internal::param::{
    cartesian_rows, ParameterBuilder, ParameterCollection, ParameterSet,
};
use sheila::reporting::logging::{DebugConfig, DebugContext, DebugFormatter, DebugLevel};
use serde_json::Value;

fn num(n: u64) -> Value {
    Value::from(n)
}

fn text(s: &str) -> Value {
    Value::from(s)
}

#[test]
fn a_parameter_set_keeps_its_keys_in_order() {
    let set = ParameterSet::new()
        .with_param("b", num(2))
        .with_param("a", text("x"))
        .with_param("b", num(3));
    assert!(set.contains("a") && set.contains("b") && !set.contains("c"));
    assert_eq!(set.get("b").unwrap(), &num(3));
    assert_eq!(set.get("a").unwrap(), &text("x"));
    let e = set.get("c").unwrap_err();
    assert_eq!(e.kind(), ErrorKind::TestSetup);
    assert_eq!(e.message(), "Parameter 'c' not found");
    assert_eq!(set.display_name(), "[b=3, a=\"x\"]");
    assert_eq!(ParameterSet::new().display_name(), "[]");
    let named = set.with_name("first").with_description("the first set");
    assert_eq!(named.display_name(), "first");
    assert_eq!(named.description.as_deref(), Some("the first set"));
}

#[test]
fn the_cartesian_product_takes_one_value_for_each_key() {
    let rows = cartesian_rows(&vec![vec![num(1), num(2)], vec![text("a"), text("b"), text("c")]]);
    assert_eq!(
        rows,
        vec![
            vec![num(1), text("a")],
            vec![num(1), text("b")],
            vec![num(1), text("c")],
            vec![num(2), text("a")],
            vec![num(2), text("b")],
            vec![num(2), text("c")],
        ]
    );
    assert!(cartesian_rows(&Vec::new()).is_empty());
    assert!(cartesian_rows(&vec![vec![num(1)], Vec::new()]).is_empty());
    assert_eq!(cartesian_rows(&vec![vec![num(1)]]), vec![vec![num(1)]]);
}

#[test]
fn the_builder_makes_a_set_for_each_choice() {
    let collection = ParameterBuilder::new()
        .add_param("n", vec![num(1), num(2)])
        .add_param("s", vec![text("a")])
        .add_param("n", vec![num(7), num(8), num(9)])
        .build();
    assert_eq!(collection.len(), 3);
    assert!(!collection.is_empty());
    let shown: Vec<String> = collection.sets.iter().map(|s| s.display_name()).collect();
    assert_eq!(shown, ["[n=7, s=\"a\"]", "[n=8, s=\"a\"]", "[n=9, s=\"a\"]"]);
    assert!(ParameterBuilder::new().build().is_empty());
    let direct = ParameterCollection::cartesian_product(&vec!["k".to_string()], &vec![vec![num(1), num(2)]]);
    assert_eq!(direct.len(), 2);
    assert_eq!(direct.sets[1].get("k").unwrap(), &num(2));
    let grown = ParameterCollection::new()
        .add_set(ParameterSet::new())
        .with_name("all")
        .with_description("every set");
    assert_eq!(grown.len(), 1);
    assert_eq!(grown.name.as_deref(), Some("all"));
    assert_eq!(grown.description.as_deref(), Some("every set"));
}

struct NeedsArguments;

impl MockValidator for NeedsArguments {
    fn validate(&self, arguments: &Vec<Value>) -> Result<(), Error> {
        if arguments.is_empty() {
            Err(Error::mock("no arguments"))
        } else {
            Ok(())
        }
    }
}

#[test]
fn a_mock_answers_call_by_call() {
    let mut mocks = MockCollection::new();
    mocks.register_mock("load", MockBuilder::new().returning(num(1)).returns_sequence(vec![num(2), num(3)]).build());
    mocks.register_mock("plain", MockConfig::default());
    assert_eq!(mocks.record_call("load", vec![text("a")]).unwrap(), num(1));
    assert_eq!(mocks.record_call("load", vec![]).unwrap(), num(2));
    assert_eq!(mocks.record_call("load", vec![]).unwrap(), num(3));
    assert_eq!(mocks.record_call("load", vec![]).unwrap(), num(3));
    assert_eq!(mocks.record_call("plain", vec![]).unwrap(), Value::Null);
    assert_eq!(mocks.record_call("unknown", vec![num(9)]).unwrap(), Value::Null);
    assert_eq!(mocks.get_call_count("load"), 4);
    assert_eq!(mocks.get_call_count("unknown"), 1);
    assert_eq!(mocks.get_call_count("never"), 0);
    let calls = mocks.get_calls("load");
    assert_eq!(calls.len(), 4);
    assert_eq!(calls[0].args, vec![text("a")]);
    assert_eq!(mocks.get_all_calls().iter().map(|c| c.fn_name.as_str()).collect::<Vec<_>>(),
        ["load", "load", "load", "load", "plain", "unknown"]);
    assert_eq!(mocks.get_all_calls()[0].args, vec![text("a")]);
    assert_eq!(mocks.get_all_calls()[5].args, vec![num(9)]);
    assert_eq!(mocks.get_all_calls()[5].ts, mocks.calls[5].ts);
    assert_eq!(mocks.get_calls("unknown")[0].args, vec![num(9)]);
    mocks.clear();
    assert_eq!(mocks.get_call_count("load"), 0);
    assert!(mocks.get_all_calls().is_empty());
    assert_eq!(mocks.record_call("load", vec![]).unwrap(), num(1));
}

#[test]
fn a_call_beyond_the_expected_ones_is_an_error() {
    let mut mocks = MockCollection::new();
    mocks.register_mock("save", MockBuilder::new().expect_calls(1).returning(text("ok")).build());
    assert!(!mocks.would_panic("save"));
    assert_eq!(mocks.record_call("save", vec![]).unwrap(), text("ok"));
    let e = mocks.record_call("save", vec![]).unwrap_err();
    assert_eq!(e.kind(), ErrorKind::Mock);
    assert_eq!(e.message(), "Unexpected call to 'save': expected 1 calls, got 2");
    assert_eq!(mocks.get_call_count("save"), 2);

    let mut strict = MockCollection::new();
    strict.register_mock("once", MockBuilder::new().expect_calls(1).panic_on_unexpected(true).build());
    assert!(!strict.would_panic("once"));
    assert!(strict.record_call("once", vec![]).is_ok());
    assert!(strict.would_panic("once"));
    assert!(!strict.would_panic("other"));
}

#[test]
fn a_validator_sees_the_arguments_first() {
    let mut mocks = MockCollection::new();
    mocks.register_mock("send", MockBuilder::new().with_validator(Box::new(NeedsArguments)).returning(num(5)).build());
    assert_eq!(mocks.record_call("send", vec![]).unwrap_err().message(), "no arguments");
    assert_eq!(mocks.get_call_count("send"), 1);
    assert_eq!(mocks.record_call("send", vec![num(1)]).unwrap(), num(5));
}

#[test]
fn verification_names_the_first_function_that_was_not_called_as_expected() {
    let mut mocks = MockCollection::new();
    mocks.register_mock("free", MockConfig::default());
    mocks.register_mock("a", MockBuilder::new().expect_calls(1).build());
    mocks.register_mock("b", MockBuilder::new().expect_calls(2).build());
    mocks.register_mock("c", MockBuilder::new().expect_calls(0).build());
    mocks.record_call("a", vec![]).unwrap();
    mocks.record_call("b", vec![]).unwrap();
    let e = mocks.verify().unwrap_err();
    assert_eq!(e.kind(), ErrorKind::Mock);
    assert_eq!(e.message(), "Mock verification failed for 'b': expected 2 calls, got 1");
    mocks.record_call("b", vec![]).unwrap();
    assert!(mocks.verify().is_ok());
    mocks.register_mock("b", MockBuilder::new().expect_calls(5).build());
    assert_eq!(mocks.verify().unwrap_err().message(), "Mock verification failed for 'b': expected 5 calls, got 2");
    assert!(MockCollection::new().verify().is_ok());
}

#[test]
fn notes_of_a_test() {
    let mut notes = DebugContext::new(DebugConfig::default());
    assert_eq!(notes.current_path(), "");
    notes.add_breadcrumb("suite");
    notes.add_breadcrumb("test");
    notes.add_breadcrumb("step 3");
    assert_eq!(notes.current_path(), "suite -> test -> step 3");
    notes.add_data("rows", num(3));
    notes.add_data("user", text("ann"));
    notes.add_data("rows", num(4));
    assert_eq!(notes.get_data("rows").unwrap(), &num(4));
    let e = notes.get_data("none").unwrap_err();
    assert_eq!(e.kind(), ErrorKind::Generic);
    assert_eq!(e.message(), "Debug data 'none' not found");
    let snapshot = notes.snapshot();
    assert_eq!(snapshot.breadcrumbs, ["suite", "test", "step 3"]);
    assert_eq!(snapshot.keys, ["rows", "user"]);
    assert_eq!(snapshot.values, vec![num(4), text("ann")]);

    assert_eq!(DebugLevel::default(), DebugLevel::Info);
    assert!(DebugLevel::Trace.includes(DebugLevel::Debug));
    assert!(DebugLevel::Info.includes(DebugLevel::Info));
    assert!(!DebugLevel::Off.includes(DebugLevel::Info));
    assert_eq!(DebugLevel::Debug.rank(), 2);
    assert!(notes.config.capture_output && notes.config.show_timing && notes.config.show_stack_traces);

    assert_eq!(DebugFormatter::truncate_string("hello", 5), "hello");
    assert_eq!(DebugFormatter::truncate_string("hello world", 8), "hello...");
    assert_eq!(DebugFormatter::truncate_string("hello", 3), "...");
    assert_eq!(DebugFormatter::truncate_string("hello", 0), "...");
    assert_eq!(DebugFormatter::truncate_string("", 0), "");
    assert_eq!(DebugFormatter::truncate_string("\u{e9}\u{e9}\u{e9}", 6), "\u{e9}\u{e9}\u{e9}");
    assert_eq!(DebugFormatter::truncate_string("\u{e9}\u{e9}\u{e9}\u{e9}\u{e9}", 7), "\u{e9}\u{e9}...");
    assert_eq!(DebugFormatter::truncate_string("\u{e9}\u{e9}\u{e9}\u{e9}\u{e9}", 8), "\u{e9}\u{e9}...");
    assert_eq!(DebugFormatter::truncate_string("h\u{e9}llo", 5), "h...");
    assert_eq!(DebugFormatter::debug_value(&Some(1)), "Some(\n    1,\n)");
}
