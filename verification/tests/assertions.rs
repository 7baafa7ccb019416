use sheila::assertions::{create_diff, render_diff, Assertion, AssertionResult, DiffLine, DiffTag};
use sheila::error::ErrorKind;

#[test]
fn results_become_ok_or_an_assertion_error() {
    assert!(AssertionResult::pass("fine".to_string()).into_result().is_ok());
    let plain = AssertionResult::fail("wrong".to_string()).into_result().unwrap_err();
    assert_eq!(plain.kind(), ErrorKind::Assertion);
    assert_eq!(plain.message(), "wrong");
    let e = AssertionResult::fail_with_values("wrong".to_string(), "1", "2")
        .with_context("in loop")
        .with_context("row 3")
        .into_result()
        .unwrap_err();
    assert_eq!(e.message(), "wrong\nExpected: 1\nActual: 2\nContext: in loop\nContext: row 3");
    assert_eq!(e.to_string(), "Assertion failed: wrong\nExpected: 1\nActual: 2\nContext: in loop\nContext: row 3");
}

#[test]
fn values_of_more_than_one_line_are_compared_line_by_line() {
    let one_line = AssertionResult::fail_with_values("m".to_string(), "a", "b");
    assert!(one_line.diff.is_none());
    assert!(!one_line.passed);
    assert_eq!(one_line.expected.as_deref(), Some("a"));
    let r = AssertionResult::fail_with_values("m".to_string(), "a\nb\nc\n", "a\nx\nc\n");
    assert_eq!(r.diff.as_deref(), Some(" a\n-b\n+x\n c\n"));
    let e = r.into_result().unwrap_err();
    assert_eq!(e.message(), "m\nExpected: a\nb\nc\n\nActual: a\nx\nc\n\nDiff:\n a\n-b\n+x\n c\n");
    assert_eq!(create_diff("same\n", "same\n"), " same\n");
    assert_eq!(create_diff("old", "new"), "-old\n+new\n");
    assert_eq!(create_diff("", ""), "");
}

#[test]
fn a_comparison_is_written_behind_signs() {
    let lines = vec![
        DiffLine { tag: DiffTag::Equal, text: "a\n".to_string() },
        DiffLine { tag: DiffTag::Delete, text: "b\n".to_string() },
        DiffLine { tag: DiffTag::Insert, text: "c\n".to_string() },
    ];
    assert_eq!(render_diff(&lines), " a\n-b\n+c\n");
    assert_eq!(render_diff(&Vec::new()), "");
}

#[test]
fn truth_assertions() {
    assert!(Assertion::is_true(true).is_ok());
    assert_eq!(Assertion::is_true(false).unwrap_err().message(), "Expected true\nExpected: true\nActual: false");
    assert!(Assertion::is_false(false).is_ok());
    assert_eq!(Assertion::is_false(true).unwrap_err().message(), "Expected false\nExpected: false\nActual: true");
    let _ = Assertion::new();
    let _ = Assertion::default();
}

#[test]
fn equality_assertions() {
    assert!(Assertion::eq(3, 3).is_ok());
    assert_eq!(Assertion::eq(3, 4).unwrap_err().message(), "Values are not equal\nExpected: 3\nActual: 4");
    assert!(Assertion::eq("a", "a").is_ok());
    assert!(Assertion::ne(3, 4).is_ok());
    assert_eq!(Assertion::ne("x", "x").unwrap_err().message(), "Values should not be equal\nExpected: x\nActual: x");
}

#[test]
fn order_assertions() {
    assert!(Assertion::gt(5, 4).is_ok());
    assert_eq!(Assertion::gt(4, 4).unwrap_err().message(), "Expected value to be greater\nExpected: >4\nActual: 4");
    assert!(Assertion::ge(4, 4).is_ok());
    assert_eq!(
        Assertion::ge(3, 4).unwrap_err().message(),
        "Expected value to be greater than or equal\nExpected: >=4\nActual: 3"
    );
    assert!(Assertion::lt(3, 4).is_ok());
    assert_eq!(Assertion::lt(4, 4).unwrap_err().message(), "Expected value to be less\nExpected: <4\nActual: 4");
    assert!(Assertion::le(4, 4).is_ok());
    assert_eq!(
        Assertion::le(5, 4).unwrap_err().message(),
        "Expected value to be less than or equal\nExpected: <=4\nActual: 5"
    );
}

#[test]
fn option_and_result_assertions() {
    assert!(Assertion::is_none(None::<u8>).is_ok());
    assert_eq!(Assertion::is_none(Some(7)).unwrap_err().message(), "Expected None\nExpected: None\nActual: Some(7)");
    assert!(Assertion::is_some(Some("x")).is_ok());
    assert_eq!(Assertion::is_some(None::<u8>).unwrap_err().message(), "Expected Some\nExpected: Some(_\nActual: None");
    assert!(Assertion::is_ok(Ok::<u8, u8>(1)).is_ok());
    assert_eq!(
        Assertion::is_ok(Err::<u8, &str>("bad")).unwrap_err().message(),
        "Expected Ok\nExpected: Ok(_\nActual: Err(\"bad\")"
    );
    assert!(Assertion::is_err(Err::<u8, u8>(1)).is_ok());
    assert_eq!(Assertion::is_err(Ok::<u8, u8>(2)).unwrap_err().message(), "Expected Err\nExpected: Err(_\nActual: Ok(2)");
}

#[test]
fn text_assertions() {
    assert!(Assertion::contains("hello world", "o w").is_ok());
    assert!(Assertion::contains("hello", "").is_ok());
    assert_eq!(
        Assertion::contains("hello", "xyz").unwrap_err().message(),
        "String should contain 'xyz'\nExpected: string containing 'xyz'\nActual: hello"
    );
    assert!(Assertion::starts_with("hello", "he").is_ok());
    assert_eq!(
        Assertion::starts_with("hello", "lo").unwrap_err().message(),
        "String should start with 'lo'\nExpected: string starting with 'lo'\nActual: hello"
    );
    assert!(Assertion::ends_with("hello", "lo").is_ok());
    assert!(Assertion::ends_with("hello", "hello").is_ok());
    assert_eq!(
        Assertion::ends_with("lo", "hello").unwrap_err().message(),
        "String should end with 'hello'\nExpected: string ending with 'hello'\nActual: lo"
    );
}

#[test]
fn collection_assertions() {
    let none: [u8; 0] = [];
    assert!(Assertion::is_empty(&none).is_ok());
    assert_eq!(
        Assertion::is_empty(&[1, 2, 3]).unwrap_err().message(),
        "Collection should be empty\nExpected: empty collection\nActual: collection with 3 items"
    );
    assert!(Assertion::is_not_empty(&[1]).is_ok());
    assert_eq!(
        Assertion::is_not_empty(&none).unwrap_err().message(),
        "Collection should not be empty\nExpected: non-empty collection\nActual: empty collection"
    );
    assert!(Assertion::has_length(&[1, 2], 2).is_ok());
    assert_eq!(
        Assertion::has_length(&[1, 2], 10).unwrap_err().message(),
        "Collection has wrong length\nExpected: 10\nActual: 2"
    );
    assert!(Assertion::contains_item(&[1, 2, 3], &3).is_ok());
    assert_eq!(
        Assertion::contains_item(&[1, 2], &3).unwrap_err().message(),
        "Collection should contain item\nExpected: collection containing 3\nActual: collection: [1, 2]"
    );
}

#[test]
fn custom_assertions() {
    assert!(Assertion::that(4, |n: &i32| n % 2 == 0, "even").is_ok());
    assert_eq!(
        Assertion::that(5, |n: &i32| n % 2 == 0, "even").unwrap_err().message(),
        "Custom assertion failed: even\nExpected: even\nActual: 5"
    );
}

#[test]
fn pattern_assertions() {
    assert!(Assertion::matches("test_42", "^test_[0-9]+$").is_ok());
    assert_eq!(
        Assertion::matches("test_x", "^test_[0-9]+$").unwrap_err().message(),
        "String should match pattern '^test_[0-9]+$'\nExpected: string matching '^test_[0-9]+$'\nActual: test_x"
    );
    let e = Assertion::matches("x", "(").unwrap_err();
    assert_eq!(e.kind(), ErrorKind::Assertion);
    assert_eq!(e.message(), "Invalid regex pattern '('");
}
