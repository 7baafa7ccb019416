//! Mocks: functions that tests replace by recorded calls with configured
//! answers.

use vstd::prelude::*;
use vstd::string::StringExecFns;
use crate::clock::now_millis;
use crate::error::{Error, ErrorKind, ErrorView, failure_of};
use crate::json::{clone_values, json_clone, json_null, json_rendering};
use crate::ordered::{set_get, set_index_of, set_insert_full, set_items, set_new};
use crate::text::{decimal, push_decimal, str_eq};

verus! {

/// One call of a mocked function.
pub struct MockCall {
    pub fn_name: String,
    pub args: Vec<serde_json::Value>,
    /// When the call was made, in milliseconds since the Unix epoch.
    pub ts: i64,
}

impl Clone for MockCall {
    fn clone(&self) -> (r: Self)
        ensures
            r.fn_name@ == self.fn_name@,
            r.args@ == self.args@,
            r.ts == self.ts,
            r@ == self@,
    {
        MockCall { fn_name: self.fn_name.clone(), args: clone_values(&self.args), ts: self.ts }
    }
}

/// The code that checks the arguments of a call. Whatever it returns is
/// accepted: `Err` makes the call fail.
pub trait MockValidator {
    /// Whether the validator may end so when it is given `arguments`:
    /// without a failure, or with the failure `failure`. This is the
    /// validator's own word about itself; a validator that gives none may
    /// end in any way.
    open spec fn may_end(&self, arguments: Seq<serde_json::Value>, failure: Option<Error>) -> bool {
        true
    }

    /// Checks the arguments of a call.
    fn validate(&self, arguments: &Vec<serde_json::Value>) -> (r: Result<(), Error>)
        ensures
            self.may_end(arguments@, failure_of(r)),
    ;
}

/// How a mocked function answers.
pub struct MockConfig {
    /// The number of calls that the test is to make.
    pub expected_calls: Option<usize>,
    /// The answers, call by call; the last one answers every further call.
    pub return_values: Vec<serde_json::Value>,
    /// Whether a call beyond the expected ones stops the program.
    pub panic_on_unexpected: bool,
    pub validator: Option<Box<dyn MockValidator>>,
}

impl Default for MockConfig {
    fn default() -> (r: Self)
        ensures
            r.expected_calls is None,
            r.return_values@.len() == 0,
            !r.panic_on_unexpected,
            r.validator is None,
    {
        MockConfig {
            expected_calls: None,
            return_values: Vec::new(),
            panic_on_unexpected: false,
            validator: None,
        }
    }
}

/// How many of the calls `names` went to the function `name`.
pub open spec fn count_of(names: Seq<Seq<char>>, name: Seq<char>) -> nat
    decreases names.len(),
{
    if names.len() == 0 {
        0
    } else {
        count_of(names.drop_last(), name) + if names.last() == name {
            1nat
        } else {
            0nat
        }
    }
}

/// No more calls went to one function than were made.
pub proof fn lemma_count_bounded(names: Seq<Seq<char>>, name: Seq<char>)
    ensures
        count_of(names, name) <= names.len(),
    decreases names.len(),
{
    if names.len() > 0 {
        lemma_count_bounded(names.drop_last(), name);
    }
}

/// Whether a document is the null document.
pub open spec fn is_null(value: serde_json::Value) -> bool {
    json_rendering(value) == "null"@
}

/// Whether `value` is the answer to the call number `count` of a function
/// with the answers `answers`: the answer of that number, or the last one
/// where there are fewer, or null where there is none.
pub open spec fn answers_call(
    answers: Seq<serde_json::Value>,
    count: nat,
    value: serde_json::Value,
) -> bool {
    if count >= 1 && count <= answers.len() {
        value == answers[count - 1]
    } else if answers.len() > 0 {
        value == answers.last()
    } else {
        is_null(value)
    }
}

/// The message of the error for a call beyond the expected ones.
pub open spec fn unexpected_call(name: Seq<char>, expected: nat, got: nat) -> Seq<char> {
    "Unexpected call to '"@ + name + "': expected "@ + decimal(expected) + " calls, got "@
        + decimal(got)
}

/// The message of the error for a function that was not called as often as
/// expected.
pub open spec fn wrong_count(name: Seq<char>, expected: nat, got: nat) -> Seq<char> {
    "Mock verification failed for '"@ + name + "': expected "@ + decimal(expected)
        + " calls, got "@ + decimal(got)
}

/// The mock error with the message `message`.
pub open spec fn mock_error(message: Seq<char>) -> ErrorView {
    ErrorView { kind: ErrorKind::Mock, stage: Seq::empty(), message }
}

/// The mathematical content of a [`MockCall`].
pub ghost struct MockCallView {
    pub fn_name: Seq<char>,
    pub args: Seq<serde_json::Value>,
    pub ts: i64,
}

impl View for MockCall {
    type V = MockCallView;

    open spec fn view(&self) -> MockCallView {
        MockCallView { fn_name: self.fn_name@, args: self.args@, ts: self.ts }
    }
}

/// The content of the calls `calls`, in order.
pub open spec fn call_views(calls: Seq<MockCall>) -> Seq<MockCallView> {
    calls.map_values(|c: MockCall| c@)
}

/// Those of the calls `calls` that went to the function `name`, in order.
pub open spec fn calls_to(calls: Seq<MockCallView>, name: Seq<char>) -> Seq<MockCallView>
    decreases calls.len(),
{
    if calls.len() == 0 {
        Seq::empty()
    } else if calls.last().fn_name == name {
        calls_to(calls.drop_last(), name).push(calls.last())
    } else {
        calls_to(calls.drop_last(), name)
    }
}

/// The names of the functions that the calls `calls` went to, in order.
pub open spec fn call_names(calls: Seq<MockCall>) -> Seq<Seq<char>> {
    calls.map_values(|c: MockCall| c.fn_name@)
}

/// The mocked functions of a test and the calls that were made of them.
pub struct MockCollection {
    /// The names of the mocked functions, in the order of registration.
    pub names: indexmap::IndexSet<String>,
    /// How each of them answers.
    pub configs: Vec<MockConfig>,
    /// The calls, in the order in which they were made.
    pub calls: Vec<MockCall>,
}

impl MockCollection {
    /// Every mocked function has its configuration, and none is there twice.
    pub open spec fn wf(&self) -> bool {
        set_items(self.names).len() == self.configs@.len() && set_items(self.names).no_duplicates()
    }

    /// Whether a function is mocked under `name`.
    pub open spec fn mocked(&self, name: Seq<char>) -> bool {
        set_items(self.names).contains(name)
    }

    /// The configuration of the function mocked under `name`.
    pub open spec fn config_of(&self, name: Seq<char>) -> MockConfig {
        self.configs@[set_items(self.names).index_of(name)]
    }

    /// How often the function `name` was called.
    pub open spec fn count(&self, name: Seq<char>) -> nat {
        count_of(call_names(self.calls@), name)
    }

    /// Whether a further call of `name` is beyond the expected ones.
    pub open spec fn over_limit(&self, name: Seq<char>) -> bool {
        self.mocked(name) && self.config_of(name).expected_calls is Some && self.count(name) + 1
            > self.config_of(name).expected_calls->0
    }

    /// Whether a further call of `name` would stop the program.
    pub open spec fn would_stop(&self, name: Seq<char>) -> bool {
        self.over_limit(name) && self.config_of(name).panic_on_unexpected
    }

    /// No mocked functions and no calls.
    pub fn new() -> (r: Self)
        ensures
            r.wf(),
            set_items(r.names).len() == 0,
            r.configs@.len() == 0,
            r.calls@.len() == 0,
    {
        MockCollection { names: set_new(), configs: Vec::new(), calls: Vec::new() }
    }

    /// Mocks the function `function_name`: in the place of the function
    /// that was mocked under the name, or after all others.
    pub fn register_mock(&mut self, function_name: &str, config: MockConfig)
        requires
            old(self).wf(),
        ensures
            final(self).wf(),
            final(self).mocked(function_name@),
            final(self).config_of(function_name@) == config,
            final(self).calls == old(self).calls,
            old(self).mocked(function_name@) ==> set_items(final(self).names) == set_items(
                old(self).names,
            ),
            !old(self).mocked(function_name@) ==> set_items(final(self).names) == set_items(
                old(self).names,
            ).push(function_name@),
            old(self).mocked(function_name@) ==> final(self).configs@ == old(self).configs@.update(
                set_items(old(self).names).index_of(function_name@),
                config,
            ),
            !old(self).mocked(function_name@) ==> final(self).configs@ == old(self).configs@.push(
                config,
            ),
    {
        let (index, fresh) = set_insert_full(&mut self.names, function_name.to_owned());
        if fresh {
            self.configs.push(config);
        } else {
            proof {
                let before = set_items(old(self).names);
                assert(before[index as int] == function_name@);
                let chosen = before.index_of(function_name@);
                assert(chosen == index);
            }
            self.configs.set(index, config);
        }
        proof {
            let names = set_items(self.names);
            assert(names[index as int] == function_name@);
            let chosen = names.index_of(function_name@);
            assert(chosen == index);
        }
    }

    /// How often the function `fn_name` was called.
    pub fn get_call_count(&self, fn_name: &str) -> (r: usize)
        ensures
            r == self.count(fn_name@),
    {
        let mut n: usize = 0;
        let mut i: usize = 0;
        let ghost names = call_names(self.calls@);
        assert(names.take(0) =~= Seq::empty());
        while i < self.calls.len()
            invariant
                i <= self.calls.len(),
                names == call_names(self.calls@),
                n == count_of(names.take(i as int), fn_name@),
                n <= i,
            decreases self.calls.len() - i,
        {
            proof {
                assert(names.take(i + 1).drop_last() =~= names.take(i as int));
                assert(names.take(i + 1).last() == self.calls@[i as int].fn_name@);
            }
            if str_eq(self.calls[i].fn_name.as_str(), fn_name) {
                n += 1;
            }
            i += 1;
        }
        assert(names.take(i as int) =~= names);
        n
    }

    /// Whether a further call of `fn_name` would stop the program: whether
    /// it is beyond the expected calls of a function that is configured to
    /// stop then.
    pub fn would_panic(&self, fn_name: &str) -> (r: bool)
        requires
            self.wf(),
        ensures
            r == self.would_stop(fn_name@),
    {
        proof {
            lemma_count_bounded(call_names(self.calls@), fn_name@);
        }
        match set_index_of(&self.names, fn_name) {
            Some(i) => {
                proof {
                    let chosen = set_items(self.names).index_of(fn_name@);
                    assert(chosen == i);
                }
                match self.configs[i].expected_calls {
                    Some(expected) => self.configs[i].panic_on_unexpected && self.get_call_count(
                        fn_name,
                    ) >= expected,
                    None => false,
                }
            },
            None => false,
        }
    }

    fn count_message(head: &str, name: &str, expected: usize, got: usize) -> (r: String)
        ensures
            r@ == head@ + name@ + "': expected "@ + decimal(expected as nat) + " calls, got "@
                + decimal(got as nat),
    {
        let mut message = String::from_str(head);
        message.append(name);
        message.append("': expected ");
        push_decimal(&mut message, expected as u64);
        message.append(" calls, got ");
        push_decimal(&mut message, got as u64);
        message
    }

    /// Records a call of `function_name` and answers it.
    ///
    /// The call is recorded whatever follows. A function that is not mocked
    /// answers with null. Of a mocked function the validator sees the
    /// arguments first, and its error ends the call. A call beyond the
    /// expected ones is a mock error. Else the answer is the one configured
    /// for the number of the call, or the last one where there are fewer, or
    /// null where there is none.
    ///
    /// The call may not be one that stops the program; see
    /// [`Self::would_panic`].
    pub fn record_call(&mut self, function_name: &str, arguments: Vec<serde_json::Value>) -> (r:
        Result<serde_json::Value, Error>)
        requires
            old(self).wf(),
            !old(self).would_stop(function_name@),
        ensures
            final(self).wf(),
            final(self).names == old(self).names,
            final(self).configs == old(self).configs,
            call_names(final(self).calls@) == call_names(old(self).calls@).push(function_name@),
            final(self).calls@.len() == old(self).calls@.len() + 1,
            final(self).calls@.drop_last() == old(self).calls@,
            final(self).calls@.last().fn_name@ == function_name@,
            final(self).calls@.last().args == arguments,
            final(self).count(function_name@) == old(self).count(function_name@) + 1,
            !old(self).mocked(function_name@) ==> r is Ok && is_null(r->Ok_0),
            old(self).mocked(function_name@) && r is Ok ==> !old(self).over_limit(function_name@)
                && answers_call(
                old(self).config_of(function_name@).return_values@,
                final(self).count(function_name@),
                r->Ok_0,
            ),
            old(self).mocked(function_name@) && old(self).config_of(function_name@).validator
                is None ==> (r is Err <==> old(self).over_limit(function_name@)),
            old(self).mocked(function_name@) && old(self).config_of(function_name@).validator
                is Some ==> exists|failure: Option<Error>| #[trigger]
                old(self).config_of(function_name@).validator->0.may_end(arguments@, failure)
                    && match failure {
                    Some(e) => r == Err::<serde_json::Value, Error>(e),
                    None => (r is Err <==> old(self).over_limit(function_name@)) && (r is Err
                        ==> r->Err_0@ == mock_error(
                        unexpected_call(
                            function_name@,
                            old(self).config_of(function_name@).expected_calls->0 as nat,
                            final(self).count(function_name@),
                        ),
                    )),
                },
            old(self).over_limit(function_name@) && old(self).config_of(
                function_name@,
            ).validator is None ==> r is Err && r->Err_0@ == mock_error(
                unexpected_call(
                    function_name@,
                    old(self).config_of(function_name@).expected_calls->0 as nat,
                    final(self).count(function_name@),
                ),
            ),
    {
        let ghost before = call_names(self.calls@);
        proof {
            lemma_count_bounded(before, function_name@);
        }
        let ghost given = arguments@;
        let validated: Result<(), Error> = match set_index_of(&self.names, function_name) {
            Some(i) => {
                proof {
                    let chosen = set_items(self.names).index_of(function_name@);
                    assert(chosen == i);
                }
                match &self.configs[i].validator {
                    Some(validator) => validator.validate(&arguments),
                    None => Ok(()),
                }
            },
            None => Ok(()),
        };
        let ghost failure = failure_of(validated);
        assert(old(self).mocked(function_name@) && old(self).config_of(function_name@).validator
            is Some ==> old(self).config_of(function_name@).validator->0.may_end(given, failure));
        assert(old(self).mocked(function_name@) && old(self).config_of(function_name@).validator
            is None ==> failure is None);
        self.calls.push(
            MockCall { fn_name: function_name.to_owned(), args: arguments, ts: now_millis() },
        );
        proof {
            let after = call_names(self.calls@);
            assert(after =~= before.push(function_name@));
            assert(after.drop_last() =~= before);
            assert(self.calls@.drop_last() =~= old(self).calls@);
        }
        match validated {
            Ok(()) => {},
            Err(e) => {
                return Err(e);
            },
        }
        let index = match set_index_of(&self.names, function_name) {
            Some(i) => i,
            None => {
                return Ok(json_null());
            },
        };
        proof {
            let chosen = set_items(self.names).index_of(function_name@);
            assert(chosen == index);
        }
        let count = self.get_call_count(function_name);
        match self.configs[index].expected_calls {
            Some(expected) => {
                if count > expected {
                    let message = Self::count_message(
                        "Unexpected call to '",
                        function_name,
                        expected,
                        count,
                    );
                    return Err(Error::mock(message.as_str()));
                }
            },
            None => {},
        }
        let answers = &self.configs[index].return_values;
        if count - 1 < answers.len() {
            Ok(json_clone(&answers[count - 1]))
        } else if answers.len() > 0 {
            Ok(json_clone(&answers[answers.len() - 1]))
        } else {
            Ok(json_null())
        }
    }

    /// Copies of the calls of the function `fn_name`, in the order in which
    /// they were made.
    pub fn get_calls(&self, fn_name: &str) -> (r: Vec<MockCall>)
        ensures
            r@.len() == self.count(fn_name@),
            forall|k: int| 0 <= k < r@.len() ==> (#[trigger] r@[k]).fn_name@ == fn_name@,
            call_views(r@) == calls_to(call_views(self.calls@), fn_name@),
    {
        let mut out: Vec<MockCall> = Vec::new();
        let mut i: usize = 0;
        let ghost names = call_names(self.calls@);
        let ghost views = call_views(self.calls@);
        assert(names.take(0) =~= Seq::empty());
        assert(views.take(0) =~= Seq::empty());
        assert(call_views(out@) =~= Seq::empty());
        while i < self.calls.len()
            invariant
                i <= self.calls.len(),
                names == call_names(self.calls@),
                views == call_views(self.calls@),
                out@.len() == count_of(names.take(i as int), fn_name@),
                forall|k: int| 0 <= k < out@.len() ==> (#[trigger] out@[k]).fn_name@ == fn_name@,
                call_views(out@) == calls_to(views.take(i as int), fn_name@),
            decreases self.calls.len() - i,
        {
            proof {
                assert(names.take(i + 1).drop_last() =~= names.take(i as int));
                assert(names.take(i + 1).last() == self.calls@[i as int].fn_name@);
                assert(views.take(i + 1).drop_last() =~= views.take(i as int));
                assert(views.take(i + 1).last() == self.calls@[i as int]@);
            }
            let ghost had = call_views(out@);
            if str_eq(self.calls[i].fn_name.as_str(), fn_name) {
                out.push(self.calls[i].clone());
                assert(call_views(out@) =~= had.push(self.calls@[i as int]@));
            }
            i += 1;
        }
        assert(names.take(i as int) =~= names);
        assert(views.take(i as int) =~= views);
        out
    }

    /// Copies of all calls, in the order in which they were made.
    pub fn get_all_calls(&self) -> (r: Vec<MockCall>)
        ensures
            call_names(r@) == call_names(self.calls@),
            call_views(r@) == call_views(self.calls@),
    {
        let mut out: Vec<MockCall> = Vec::new();
        let mut i: usize = 0;
        assert(call_names(out@) =~= call_names(self.calls@).take(0));
        assert(call_views(out@) =~= call_views(self.calls@).take(0));
        while i < self.calls.len()
            invariant
                i <= self.calls.len(),
                call_names(out@) == call_names(self.calls@).take(i as int),
                call_views(out@) == call_views(self.calls@).take(i as int),
            decreases self.calls.len() - i,
        {
            let ghost had = call_names(out@);
            let ghost held = call_views(out@);
            out.push(self.calls[i].clone());
            assert(call_names(out@) =~= had.push(self.calls@[i as int].fn_name@));
            assert(call_views(out@) =~= held.push(self.calls@[i as int]@));
            i += 1;
            assert(call_names(out@) =~= call_names(self.calls@).take(i as int));
            assert(call_views(out@) =~= call_views(self.calls@).take(i as int));
        }
        assert(call_names(self.calls@).take(i as int) =~= call_names(self.calls@));
        assert(call_views(self.calls@).take(i as int) =~= call_views(self.calls@));
        out
    }

    /// Forgets the calls; the mocked functions stay.
    pub fn clear(&mut self)
        ensures
            final(self).calls@.len() == 0,
            final(self).names == old(self).names,
            final(self).configs == old(self).configs,
            old(self).wf() ==> final(self).wf(),
    {
        self.calls = Vec::new();
    }

    /// Whether the mocked function at index `i` was called as often as
    /// expected.
    pub open spec fn as_expected(&self, i: int) -> bool {
        self.configs@[i].expected_calls is Some ==> self.count(set_items(self.names)[i])
            == self.configs@[i].expected_calls->0
    }

    /// Checks that every mocked function was called as often as expected.
    /// The error names the first, in the order of registration, that was
    /// not.
    pub fn verify(&self) -> (r: Result<(), Error>)
        requires
            self.wf(),
        ensures
            r is Ok <==> forall|i: int| 0 <= i < self.configs@.len() ==> self.as_expected(i),
            r is Err ==> exists|i: int|
                0 <= i < self.configs@.len() && !self.as_expected(i) && (forall|k: int|
                    0 <= k < i ==> self.as_expected(k)) && r->Err_0@ == mock_error(
                    #[trigger] wrong_count(
                        set_items(self.names)[i],
                        self.configs@[i].expected_calls->0 as nat,
                        self.count(set_items(self.names)[i]),
                    ),
                ),
    {
        let mut i: usize = 0;
        while i < self.configs.len()
            invariant
                i <= self.configs.len(),
                self.wf(),
                forall|k: int| 0 <= k < i ==> self.as_expected(k),
            decreases self.configs.len() - i,
        {
            match self.configs[i].expected_calls {
                Some(expected) => {
                    let name = match set_get(&self.names, i) {
                        Some(name) => name,
                        None => String::new(),
                    };
                    let actual = self.get_call_count(name.as_str());
                    if actual != expected {
                        let message = Self::count_message(
                            "Mock verification failed for '",
                            name.as_str(),
                            expected,
                            actual,
                        );
                        let e = Error::mock(message.as_str());
                        assert(!self.as_expected(i as int));
                        assert(e@ == mock_error(
                            wrong_count(
                                set_items(self.names)[i as int],
                                self.configs@[i as int].expected_calls->0 as nat,
                                self.count(set_items(self.names)[i as int]),
                            ),
                        ));
                        return Err(e);
                    }
                },
                None => {},
            }
            i += 1;
        }
        Ok(())
    }
}

/// Builds the configuration of a mocked function.
pub struct MockBuilder {
    pub config: MockConfig,
}

impl MockBuilder {
    /// A builder of the default configuration.
    pub fn new() -> (r: Self)
        ensures
            r.config.expected_calls is None,
            r.config.return_values@.len() == 0,
            !r.config.panic_on_unexpected,
            r.config.validator is None,
    {
        MockBuilder { config: MockConfig::default() }
    }

    /// This builder with `count` as the number of calls to expect.
    pub fn expect_calls(self, count: usize) -> (r: Self)
        ensures
            r.config == (MockConfig { expected_calls: Some(count), ..self.config }),
            r.config.expected_calls == Some(count),
            r.config.return_values == self.config.return_values,
            r.config.panic_on_unexpected == self.config.panic_on_unexpected,
    {
        let mut r = self;
        r.config.expected_calls = Some(count);
        r
    }

    /// This builder with one more answer.
    pub fn returning(self, value: serde_json::Value) -> (r: Self)
        ensures
            r.config == (MockConfig { return_values: r.config.return_values, ..self.config }),
            r.config.return_values@ == self.config.return_values@.push(value),
            r.config.expected_calls == self.config.expected_calls,
            r.config.panic_on_unexpected == self.config.panic_on_unexpected,
    {
        let mut r = self;
        r.config.return_values.push(value);
        r
    }

    /// This builder with more answers, in their order.
    pub fn returns_sequence(self, values: Vec<serde_json::Value>) -> (r: Self)
        ensures
            r.config == (MockConfig { return_values: r.config.return_values, ..self.config }),
            r.config.return_values@ == self.config.return_values@ + values@,
            r.config.expected_calls == self.config.expected_calls,
            r.config.panic_on_unexpected == self.config.panic_on_unexpected,
    {
        let mut r = self;
        let mut values = values;
        r.config.return_values.append(&mut values);
        r
    }

    /// This builder, with calls beyond the expected ones stopping the
    /// program or not.
    pub fn panic_on_unexpected(self, stop: bool) -> (r: Self)
        ensures
            r.config == (MockConfig { panic_on_unexpected: stop, ..self.config }),
            r.config.panic_on_unexpected == stop,
            r.config.expected_calls == self.config.expected_calls,
            r.config.return_values == self.config.return_values,
    {
        let mut r = self;
        r.config.panic_on_unexpected = stop;
        r
    }

    /// This builder with `validator` to check the arguments of every call.
    pub fn with_validator(self, validator: Box<dyn MockValidator>) -> (r: Self)
        ensures
            r.config.validator == Some(validator),
            r.config.expected_calls == self.config.expected_calls,
            r.config.return_values == self.config.return_values,
            r.config.panic_on_unexpected == self.config.panic_on_unexpected,
    {
        let mut r = self;
        let given = Some(validator);
        r.config.validator = given;
        r
    }

    /// The configuration.
    pub fn build(self) -> (r: MockConfig)
        ensures
            r == self.config,
    {
        self.config
    }
}

} // verus!
