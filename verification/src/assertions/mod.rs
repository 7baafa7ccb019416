//! Assertions for test bodies: each checks a condition and, where it does
//! not hold, returns an error that says what was expected and what was
//! found.

pub mod compare;

use vstd::prelude::*;
use vstd::std_specs::cmp::PartialEqSpec;
use vstd::string::StringExecFns;
use vstd::string::to_string_from_display_ensures;
use crate::error::{Error, ErrorKind, ErrorView};
use crate::names::{regex_compiled, regex_is_match, regex_matches, regex_new};
use crate::text::{
    contains, decimal, decimal_string, ends_with, opt_text, starts_with, str_contains,
    str_ends_with, str_starts_with, texts,
};

verus! {

/// What became of a line when two texts are compared line by line.
#[derive(Debug, Clone, Copy, PartialEq, Eq, Structural)]
pub enum DiffTag {
    /// The line is in both texts.
    Equal,
    /// The line is in the first text only.
    Delete,
    /// The line is in the second text only.
    Insert,
}

/// One line of a comparison of two texts.
#[derive(Debug)]
pub struct DiffLine {
    pub tag: DiffTag,
    /// The line, with a line break at its end.
    pub text: String,
}

/// The contents of each line of `lines`.
pub open spec fn diff_views(lines: Seq<DiffLine>) -> Seq<(DiffTag, Seq<char>)> {
    lines.map_values(|l: DiffLine| (l.tag, l.text@))
}

/// The line-by-line comparison of two texts that `similar` computes: every
/// line of both texts with what became of it, each with a line break at
/// its end.
pub uninterp spec fn line_changes(old: Seq<char>, new: Seq<char>) -> Seq<(DiffTag, Seq<char>)>;

/// `similar::TextDiff::from_lines` and `iter_all_changes`: the changes
/// from `old` to `new`, line by line. Each change is handed on with its tag
/// and with the text that its `Display` writes.
#[verifier::external_body]
pub(crate) fn diff_lines(old: &str, new: &str) -> (r: Vec<DiffLine>)
    ensures
        diff_views(r@) == line_changes(old@, new@),
{
    similar::TextDiff::from_lines(old, new).iter_all_changes().map(
        |change| DiffLine {
            tag: match change.tag() {
                similar::ChangeTag::Equal => DiffTag::Equal,
                similar::ChangeTag::Delete => DiffTag::Delete,
                similar::ChangeTag::Insert => DiffTag::Insert,
            },
            text: change.to_string(),
        },
    ).collect()
}

/// The sign that marks a line of a comparison.
pub open spec fn diff_sign(tag: DiffTag) -> Seq<char> {
    match tag {
        DiffTag::Delete => "-"@,
        DiffTag::Insert => "+"@,
        DiffTag::Equal => " "@,
    }
}

/// The comparison written out: each line behind its sign.
pub open spec fn diff_text(changes: Seq<(DiffTag, Seq<char>)>) -> Seq<char>
    decreases changes.len(),
{
    if changes.len() == 0 {
        Seq::empty()
    } else {
        diff_text(changes.drop_last()) + diff_sign(changes.last().0) + changes.last().1
    }
}

/// Writes a comparison out: each line behind its sign.
pub fn render_diff(changes: &Vec<DiffLine>) -> (r: String)
    ensures
        r@ == diff_text(diff_views(changes@)),
{
    let mut out = String::new();
    let mut i: usize = 0;
    let ghost all = diff_views(changes@);
    assert(all.take(0) =~= Seq::empty());
    while i < changes.len()
        invariant
            i <= changes.len(),
            all == diff_views(changes@),
            out@ == diff_text(all.take(i as int)),
        decreases changes.len() - i,
    {
        proof {
            assert(all.take(i + 1).drop_last() =~= all.take(i as int));
            assert(all.take(i + 1).last() == (changes@[i as int].tag, changes@[i as int].text@));
        }
        match changes[i].tag {
            DiffTag::Delete => out.append("-"),
            DiffTag::Insert => out.append("+"),
            DiffTag::Equal => out.append(" "),
        }
        out.append(changes[i].text.as_str());
        i += 1;
    }
    assert(all.take(i as int) =~= all);
    out
}

/// The comparison of `expected` with `actual`, line by line, written out.
pub fn create_diff(expected: &str, actual: &str) -> (r: String)
    ensures
        r@ == diff_text(line_changes(expected@, actual@)),
{
    let changes = diff_lines(expected, actual);
    render_diff(&changes)
}

/// What an assertion found.
#[derive(Debug)]
pub struct AssertionResult {
    /// Whether the assertion held.
    pub passed: bool,
    /// What was expected, where that can be said.
    pub expected: Option<String>,
    /// What was found, where that can be said.
    pub actual: Option<String>,
    pub message: String,
    /// Notes on where the assertion was made.
    pub context: Vec<String>,
    /// The comparison of the expected with the found text, where either
    /// has more than one line.
    pub diff: Option<String>,
}

/// The mathematical content of an [`AssertionResult`].
pub ghost struct AssertionResultView {
    pub passed: bool,
    pub expected: Option<Seq<char>>,
    pub actual: Option<Seq<char>>,
    pub message: Seq<char>,
    pub context: Seq<Seq<char>>,
    pub diff: Option<Seq<char>>,
}

impl View for AssertionResult {
    type V = AssertionResultView;

    open spec fn view(&self) -> AssertionResultView {
        AssertionResultView {
            passed: self.passed,
            expected: opt_text(self.expected),
            actual: opt_text(self.actual),
            message: self.message@,
            context: texts(self.context@),
            diff: opt_text(self.diff),
        }
    }
}

/// The notes `context` written out, each on a line of its own.
pub open spec fn context_text(context: Seq<Seq<char>>) -> Seq<char>
    decreases context.len(),
{
    if context.len() == 0 {
        Seq::empty()
    } else {
        context_text(context.drop_last()) + "\nContext: "@ + context.last()
    }
}

impl AssertionResultView {
    /// A failed assertion with the values it compared. The values are
    /// compared line by line where one of them has more than one line.
    pub open spec fn failed_with(message: Seq<char>, expected: Seq<char>, actual: Seq<char>) ->
        AssertionResultView {
        AssertionResultView {
            passed: false,
            expected: Some(expected),
            actual: Some(actual),
            message,
            context: Seq::empty(),
            diff: if contains(expected, "\n"@) || contains(actual, "\n"@) {
                Some(diff_text(line_changes(expected, actual)))
            } else {
                None
            },
        }
    }

    /// The message of the error that a failed assertion becomes: the
    /// message, then the expected and the found value where both are there,
    /// then the comparison where there is one, then the notes.
    pub open spec fn failure_text(self) -> Seq<char> {
        self.message + (if self.expected is Some && self.actual is Some {
            "\nExpected: "@ + self.expected->0 + "\nActual: "@ + self.actual->0
        } else {
            Seq::empty()
        }) + (match self.diff {
            Some(d) => "\nDiff:\n"@ + d,
            None => Seq::empty(),
        }) + context_text(self.context)
    }

    /// The error that a failed assertion becomes.
    pub open spec fn failure(self) -> ErrorView {
        ErrorView { kind: ErrorKind::Assertion, stage: Seq::empty(), message: self.failure_text() }
    }
}

impl AssertionResult {
    /// An assertion that held.
    pub fn pass(message: String) -> (r: Self)
        ensures
            r@ == (AssertionResultView {
                passed: true,
                expected: None,
                actual: None,
                message: message@,
                context: Seq::empty(),
                diff: None,
            }),
    {
        let r = AssertionResult {
            passed: true,
            expected: None,
            actual: None,
            message,
            context: Vec::new(),
            diff: None,
        };
        assert(texts(r.context@) =~= Seq::empty());
        r
    }

    /// An assertion that did not hold.
    pub fn fail(message: String) -> (r: Self)
        ensures
            r@ == (AssertionResultView {
                passed: false,
                expected: None,
                actual: None,
                message: message@,
                context: Seq::empty(),
                diff: None,
            }),
    {
        let r = AssertionResult {
            passed: false,
            expected: None,
            actual: None,
            message,
            context: Vec::new(),
            diff: None,
        };
        assert(texts(r.context@) =~= Seq::empty());
        r
    }

    /// An assertion that did not hold, with the values it compared.
    pub fn fail_with_values(message: String, expected: &str, actual: &str) -> (r: Self)
        ensures
            r@ == AssertionResultView::failed_with(message@, expected@, actual@),
    {
        let diff = if str_contains(expected, "\n") || str_contains(actual, "\n") {
            Some(create_diff(expected, actual))
        } else {
            None
        };
        let r = AssertionResult {
            passed: false,
            expected: Some(String::from_str(expected)),
            actual: Some(String::from_str(actual)),
            message,
            context: Vec::new(),
            diff,
        };
        assert(texts(r.context@) =~= Seq::empty());
        r
    }

    /// This result with one more note.
    pub fn with_context(self, context: &str) -> (r: Self)
        ensures
            r@ == (AssertionResultView { context: self@.context.push(context@), ..self@ }),
    {
        let mut r = self;
        r.context.push(String::from_str(context));
        assert(texts(r.context@) =~= texts(self.context@).push(context@));
        r
    }

    /// `Ok` for an assertion that held; for one that did not, an assertion
    /// error whose message says what was expected and what was found.
    pub fn into_result(self) -> (r: Result<(), Error>)
        ensures
            match r {
                Ok(_) => self.passed,
                Err(e) => !self.passed && e@ == self@.failure(),
            },
    {
        if self.passed {
            return Ok(());
        }
        let mut message = self.message.clone();
        match (&self.expected, &self.actual) {
            (Some(expected), Some(actual)) => {
                message.append("\nExpected: ");
                message.append(expected.as_str());
                message.append("\nActual: ");
                message.append(actual.as_str());
            },
            _ => {},
        }
        match &self.diff {
            Some(diff) => {
                message.append("\nDiff:\n");
                message.append(diff.as_str());
            },
            None => {},
        }
        let ghost head = message@;
        let ghost notes = texts(self.context@);
        let mut i: usize = 0;
        assert(notes.take(0) =~= Seq::empty());
        assert(message@ =~= head + context_text(notes.take(0)));
        while i < self.context.len()
            invariant
                i <= self.context.len(),
                notes == texts(self.context@),
                message@ == head + context_text(notes.take(i as int)),
            decreases self.context.len() - i,
        {
            proof {
                assert(notes.take(i + 1).drop_last() =~= notes.take(i as int));
                assert(notes.take(i + 1).last() == self.context@[i as int]@);
            }
            message.append("\nContext: ");
            message.append(self.context[i].as_str());
            i += 1;
            assert(message@ =~= head + context_text(notes.take(i as int)));
        }
        assert(notes.take(i as int) =~= notes);
        assert(message@ =~= self@.failure_text());
        Err(Error::assertion(message.as_str()))
    }
}

/// `Debug` formatting, through `format!`: the text that the value's
/// `Debug` writes. Nothing is claimed of it.
#[verifier::external_body]
pub(crate) fn debug_text<T: std::fmt::Debug>(value: &T) -> (r: String) {
    format!("{:?}", value)
}

/// The assertions.
#[derive(Debug, Clone, Copy)]
pub struct Assertion;

impl Default for Assertion {
    fn default() -> Self {
        Assertion
    }
}

/// The error of the failed assertion with the message `message` that
/// expected `expected` and found `actual`.
pub open spec fn mismatch(message: Seq<char>, expected: Seq<char>, actual: Seq<char>) -> ErrorView {
    AssertionResultView::failed_with(message, expected, actual).failure()
}

impl Assertion {
    pub fn new() -> Self {
        Assertion
    }

    fn failed(message: &str, expected: &str, actual: &str) -> (r: Result<(), Error>)
        ensures
            r is Err,
            r->Err_0@ == mismatch(message@, expected@, actual@),
    {
        AssertionResult::fail_with_values(String::from_str(message), expected, actual).into_result()
    }

    /// Holds where `value` is true.
    pub fn is_true(value: bool) -> (r: Result<(), Error>)
        ensures
            r is Ok <==> value,
            r is Err ==> r->Err_0@ == mismatch("Expected true"@, "true"@, "false"@),
    {
        if value {
            AssertionResult::pass(String::from_str("Value is true")).into_result()
        } else {
            Self::failed("Expected true", "true", "false")
        }
    }

    /// Holds where `value` is false.
    pub fn is_false(value: bool) -> (r: Result<(), Error>)
        ensures
            r is Ok <==> !value,
            r is Err ==> r->Err_0@ == mismatch("Expected false"@, "false"@, "true"@),
    {
        if !value {
            AssertionResult::pass(String::from_str("Value is false")).into_result()
        } else {
            Self::failed("Expected false", "false", "true")
        }
    }

    /// Holds where the two values are equal. The error shows both values
    /// as their `Display` writes them.
    pub fn eq<T: PartialEq + std::fmt::Display>(expected: T, actual: T) -> (r: Result<(), Error>)
        ensures
            T::obeys_eq_spec() ==> (r is Ok <==> expected.eq_spec(&actual)),
            r is Err ==> exists|e: String, a: String|
                to_string_from_display_ensures::<T>(&expected, e) && to_string_from_display_ensures::<
                    T,
                >(&actual, a) && r->Err_0@ == #[trigger] mismatch("Values are not equal"@, e@, a@),
    {
        if expected == actual {
            AssertionResult::pass(String::from_str("Values are equal")).into_result()
        } else {
            let e = expected.to_string();
            let a = actual.to_string();
            let r = Self::failed("Values are not equal", e.as_str(), a.as_str());
            assert(r->Err_0@ == mismatch("Values are not equal"@, e@, a@));
            r
        }
    }

    /// Holds where the two values are not equal.
    pub fn ne<T: PartialEq + std::fmt::Display>(expected: T, actual: T) -> (r: Result<(), Error>)
        ensures
            T::obeys_eq_spec() ==> (r is Ok <==> !expected.eq_spec(&actual)),
            r is Err ==> exists|e: String, a: String|
                to_string_from_display_ensures::<T>(&expected, e) && to_string_from_display_ensures::<
                    T,
                >(&actual, a) && r->Err_0@ == #[trigger] mismatch(
                    "Values should not be equal"@,
                    e@,
                    a@,
                ),
    {
        if expected != actual {
            AssertionResult::pass(String::from_str("Values are not equal")).into_result()
        } else {
            let e = expected.to_string();
            let a = actual.to_string();
            let r = Self::failed("Values should not be equal", e.as_str(), a.as_str());
            assert(r->Err_0@ == mismatch("Values should not be equal"@, e@, a@));
            r
        }
    }

    /// Holds where `value` is `None`.
    pub fn is_none<T: std::fmt::Debug>(value: Option<T>) -> (r: Result<(), Error>)
        ensures
            r is Ok <==> value is None,
            r is Err ==> r->Err_0@.kind == ErrorKind::Assertion,
            r is Err ==> exists|shown: Seq<char>|
                r->Err_0@ == #[trigger] mismatch("Expected None"@, "None"@, "Some("@ + shown + ")"@),
    {
        match value {
            None => AssertionResult::pass(String::from_str("Value is None")).into_result(),
            Some(v) => {
                let mut found = String::from_str("Some(");
                let shown = debug_text(&v);
                found.append(shown.as_str());
                found.append(")");
                let r = Self::failed("Expected None", "None", found.as_str());
                assert(r->Err_0@ == mismatch("Expected None"@, "None"@, "Some("@ + shown@ + ")"@));
                r
            },
        }
    }

    /// Holds where `value` is `Some`.
    pub fn is_some<T: std::fmt::Debug>(value: Option<T>) -> (r: Result<(), Error>)
        ensures
            r is Ok <==> value is Some,
            r is Err ==> r->Err_0@ == mismatch("Expected Some"@, "Some(_"@, "None"@),
    {
        match value {
            Some(_) => AssertionResult::pass(String::from_str("Value is Some")).into_result(),
            None => Self::failed("Expected Some", "Some(_", "None"),
        }
    }

    /// Holds where `value` is `Ok`.
    pub fn is_ok<T: std::fmt::Debug, E: std::fmt::Debug>(value: Result<T, E>) -> (r: Result<
        (),
        Error,
    >)
        ensures
            r is Ok <==> value is Ok,
            r is Err ==> r->Err_0@.kind == ErrorKind::Assertion,
            r is Err ==> exists|shown: Seq<char>|
                r->Err_0@ == #[trigger] mismatch("Expected Ok"@, "Ok(_"@, "Err("@ + shown + ")"@),
    {
        match value {
            Ok(_) => AssertionResult::pass(String::from_str("Result is Ok")).into_result(),
            Err(e) => {
                let mut found = String::from_str("Err(");
                let shown = debug_text(&e);
                found.append(shown.as_str());
                found.append(")");
                let r = Self::failed("Expected Ok", "Ok(_", found.as_str());
                assert(r->Err_0@ == mismatch("Expected Ok"@, "Ok(_"@, "Err("@ + shown@ + ")"@));
                r
            },
        }
    }

    /// Holds where `value` is `Err`.
    pub fn is_err<T: std::fmt::Debug, E: std::fmt::Debug>(value: Result<T, E>) -> (r: Result<
        (),
        Error,
    >)
        ensures
            r is Ok <==> value is Err,
            r is Err ==> r->Err_0@.kind == ErrorKind::Assertion,
            r is Err ==> exists|shown: Seq<char>|
                r->Err_0@ == #[trigger] mismatch("Expected Err"@, "Err(_"@, "Ok("@ + shown + ")"@),
    {
        match value {
            Err(_) => AssertionResult::pass(String::from_str("Result is Err")).into_result(),
            Ok(v) => {
                let mut found = String::from_str("Ok(");
                let shown = debug_text(&v);
                found.append(shown.as_str());
                found.append(")");
                let r = Self::failed("Expected Err", "Err(_", found.as_str());
                assert(r->Err_0@ == mismatch("Expected Err"@, "Err(_"@, "Ok("@ + shown@ + ")"@));
                r
            },
        }
    }

    fn quoted(head: &str, inner: &str) -> (r: String)
        ensures
            r@ == head@ + inner@ + "'"@,
    {
        let mut s = String::from_str(head);
        s.append(inner);
        s.append("'");
        s
    }

    /// Holds where `needle` occurs in `haystack`.
    pub fn contains(haystack: &str, needle: &str) -> (r: Result<(), Error>)
        ensures
            r is Ok <==> contains(haystack@, needle@),
            r is Err ==> r->Err_0@ == mismatch(
                "String should contain '"@ + needle@ + "'"@,
                "string containing '"@ + needle@ + "'"@,
                haystack@,
            ),
    {
        if str_contains(haystack, needle) {
            AssertionResult::pass(Self::quoted("String contains '", needle)).into_result()
        } else {
            let message = Self::quoted("String should contain '", needle);
            let expected = Self::quoted("string containing '", needle);
            Self::failed(message.as_str(), expected.as_str(), haystack)
        }
    }

    /// Holds where `haystack` begins with `prefix`.
    pub fn starts_with(haystack: &str, prefix: &str) -> (r: Result<(), Error>)
        ensures
            r is Ok <==> starts_with(haystack@, prefix@),
            r is Err ==> r->Err_0@ == mismatch(
                "String should start with '"@ + prefix@ + "'"@,
                "string starting with '"@ + prefix@ + "'"@,
                haystack@,
            ),
    {
        if str_starts_with(haystack, prefix) {
            AssertionResult::pass(Self::quoted("String starts with '", prefix)).into_result()
        } else {
            let message = Self::quoted("String should start with '", prefix);
            let expected = Self::quoted("string starting with '", prefix);
            Self::failed(message.as_str(), expected.as_str(), haystack)
        }
    }

    /// Holds where `haystack` ends with `suffix`.
    pub fn ends_with(haystack: &str, suffix: &str) -> (r: Result<(), Error>)
        ensures
            r is Ok <==> ends_with(haystack@, suffix@),
            r is Err ==> r->Err_0@ == mismatch(
                "String should end with '"@ + suffix@ + "'"@,
                "string ending with '"@ + suffix@ + "'"@,
                haystack@,
            ),
    {
        if str_ends_with(haystack, suffix) {
            AssertionResult::pass(Self::quoted("String ends with '", suffix)).into_result()
        } else {
            let message = Self::quoted("String should end with '", suffix);
            let expected = Self::quoted("string ending with '", suffix);
            Self::failed(message.as_str(), expected.as_str(), haystack)
        }
    }

    /// Holds where the regular expression `pattern` matches somewhere in
    /// `haystack`. A pattern that is no regular expression is an error of
    /// its own.
    pub fn matches(haystack: &str, pattern: &str) -> (r: Result<(), Error>)
        ensures
            r is Ok <==> regex_compiled(pattern@) is Some && regex_matches(
                regex_compiled(pattern@)->0,
                haystack@,
            ),
            r is Err ==> r->Err_0@.kind == ErrorKind::Assertion,
            r is Err && regex_compiled(pattern@) is Some ==> r->Err_0@ == mismatch(
                "String should match pattern '"@ + pattern@ + "'"@,
                "string matching '"@ + pattern@ + "'"@,
                haystack@,
            ),
            regex_compiled(pattern@) is None ==> r is Err && r->Err_0@.message
                == "Invalid regex pattern '"@ + pattern@ + "'"@,
    {
        let compiled = match regex_new(pattern) {
            Some(compiled) => compiled,
            None => {
                let message = Self::quoted("Invalid regex pattern '", pattern);
                return Err(Error::assertion(message.as_str()));
            },
        };
        if regex_is_match(&compiled, haystack) {
            AssertionResult::pass(Self::quoted("String matches pattern '", pattern)).into_result()
        } else {
            let message = Self::quoted("String should match pattern '", pattern);
            let expected = Self::quoted("string matching '", pattern);
            Self::failed(message.as_str(), expected.as_str(), haystack)
        }
    }

    /// Holds where `collection` holds nothing.
    pub fn is_empty<T>(collection: &[T]) -> (r: Result<(), Error>)
        ensures
            r is Ok <==> collection@.len() == 0,
            r is Err ==> r->Err_0@ == mismatch(
                "Collection should be empty"@,
                "empty collection"@,
                "collection with "@ + decimal(collection@.len()) + " items"@,
            ),
    {
        if collection.len() == 0 {
            AssertionResult::pass(String::from_str("Collection is empty")).into_result()
        } else {
            let mut found = String::from_str("collection with ");
            let count = decimal_string(collection.len() as u64);
            found.append(count.as_str());
            found.append(" items");
            Self::failed("Collection should be empty", "empty collection", found.as_str())
        }
    }

    /// Holds where `collection` holds something.
    pub fn is_not_empty<T>(collection: &[T]) -> (r: Result<(), Error>)
        ensures
            r is Ok <==> collection@.len() > 0,
            r is Err ==> r->Err_0@ == mismatch(
                "Collection should not be empty"@,
                "non-empty collection"@,
                "empty collection"@,
            ),
    {
        if collection.len() > 0 {
            AssertionResult::pass(String::from_str("Collection is not empty")).into_result()
        } else {
            Self::failed(
                "Collection should not be empty",
                "non-empty collection",
                "empty collection",
            )
        }
    }

    /// Holds where `collection` holds `expected_length` items.
    pub fn has_length<T>(collection: &[T], expected_length: usize) -> (r: Result<(), Error>)
        ensures
            r is Ok <==> collection@.len() == expected_length,
            r is Err ==> r->Err_0@ == mismatch(
                "Collection has wrong length"@,
                decimal(expected_length as nat),
                decimal(collection@.len()),
            ),
    {
        let actual_length = collection.len();
        if actual_length == expected_length {
            let mut message = String::from_str("Collection has length ");
            let count = decimal_string(expected_length as u64);
            message.append(count.as_str());
            AssertionResult::pass(message).into_result()
        } else {
            let expected = decimal_string(expected_length as u64);
            let actual = decimal_string(actual_length as u64);
            Self::failed("Collection has wrong length", expected.as_str(), actual.as_str())
        }
    }

    /// Holds where `collection` holds an item equal to `item`.
    pub fn contains_item<T: PartialEq + std::fmt::Debug>(collection: &[T], item: &T) -> (r: Result<
        (),
        Error,
    >)
        ensures
            T::obeys_eq_spec() ==> (r is Ok <==> exists|i: int|
                0 <= i < collection@.len() && (#[trigger] collection@[i]).eq_spec(item)),
            r is Err ==> r->Err_0@.kind == ErrorKind::Assertion,
            r is Err ==> exists|shown: Seq<char>, all: Seq<char>|
                r->Err_0@ == #[trigger] mismatch(
                    "Collection should contain item"@,
                    "collection containing "@ + shown,
                    "collection: "@ + all,
                ),
    {
        let mut i: usize = 0;
        while i < collection.len()
            invariant
                i <= collection.len(),
                T::obeys_eq_spec() ==> forall|k: int|
                    0 <= k < i ==> !(#[trigger] collection@[k]).eq_spec(item),
            decreases collection.len() - i,
        {
            if collection[i] == *item {
                let mut message = String::from_str("Collection contains ");
                let shown = debug_text(item);
                message.append(shown.as_str());
                return AssertionResult::pass(message).into_result();
            }
            i += 1;
        }
        let mut expected = String::from_str("collection containing ");
        let shown = debug_text(item);
        expected.append(shown.as_str());
        let mut actual = String::from_str("collection: ");
        let all = debug_text(&collection);
        actual.append(all.as_str());
        let r = Self::failed("Collection should contain item", expected.as_str(), actual.as_str());
        assert(r->Err_0@ == mismatch(
            "Collection should contain item"@,
            "collection containing "@ + shown@,
            "collection: "@ + all@,
        ));
        r
    }

    /// Holds where `predicate` holds of `value`.
    pub fn that<T: std::fmt::Debug, F: FnOnce(&T) -> bool>(value: T, predicate: F, message: &str) -> (r:
        Result<(), Error>)
        requires
            call_requires(predicate, (&value,)),
        ensures
            call_ensures(predicate, (&value,), r is Ok),
            r is Err ==> r->Err_0@.kind == ErrorKind::Assertion,
            r is Err ==> exists|shown: Seq<char>|
                r->Err_0@ == #[trigger] mismatch(
                    "Custom assertion failed: "@ + message@,
                    message@,
                    shown,
                ),
    {
        if predicate(&value) {
            let mut text = String::from_str("Custom assertion passed: ");
            text.append(message);
            AssertionResult::pass(text).into_result()
        } else {
            let mut text = String::from_str("Custom assertion failed: ");
            text.append(message);
            let shown = debug_text(&value);
            let r = Self::failed(text.as_str(), message, shown.as_str());
            assert(r->Err_0@ == mismatch(
                "Custom assertion failed: "@ + message@,
                message@,
                shown@,
            ));
            r
        }
    }
}

} // verus!
