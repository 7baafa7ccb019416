//! The error type that every fallible operation of the library returns.

use vstd::prelude::*;
use vstd::string::StringExecFns;

verus! {

/// The kind of an [`Error`], without its text.
#[derive(Debug, Clone, Copy, PartialEq, Eq, Structural)]
pub enum ErrorKind {
    TestExecution,
    TestSetup,
    TestTeardown,
    Fixture,
    Hook,
    Assertion,
    Mock,
    IntendedFailure,
    RunnerConfig,
    Reporter,
    Parameterization,
    Timeout,
    Io,
    Serialization,
    InvalidConfig,
    Generic,
}

/// What went wrong, with a message for the user.
#[derive(Debug)]
pub enum Error {
    /// A test's body failed.
    TestExecution { message: String },
    /// Preparing a test failed.
    TestSetup { message: String },
    /// Cleaning up after a test failed.
    TestTeardown { message: String },
    /// A fixture could not be resolved, set up or torn down.
    Fixture { message: String },
    /// A lifecycle hook failed; `hook_type` names its stage.
    Hook { hook_type: String, message: String },
    /// An assertion did not hold.
    Assertion { message: String },
    /// A mock was used against its configuration.
    Mock { message: String },
    /// A test asked to fail.
    IntendedFailure { message: String },
    /// The runner's configuration is wrong.
    RunnerConfig { message: String },
    /// A report could not be produced.
    Reporter { message: String },
    /// A parameter set is wrong.
    Parameterization { message: String },
    /// An operation ran out of time.
    Timeout { message: String },
    /// Reading or writing failed.
    Io { message: String },
    /// Encoding or decoding failed.
    Serialization { message: String },
    /// A configuration value is not accepted.
    InvalidConfig { message: String },
    /// Any other failure.
    Generic { message: String },
}

/// The mathematical content of an [`Error`]: its kind, the stage of a hook
/// error (empty for the other kinds) and its message.
pub ghost struct ErrorView {
    pub kind: ErrorKind,
    pub stage: Seq<char>,
    pub message: Seq<char>,
}

impl View for Error {
    type V = ErrorView;

    open spec fn view(&self) -> ErrorView {
        ErrorView { kind: self.spec_kind(), stage: self.stage(), message: self.detail() }
    }
}

/// The content of the error in `e`, if there is one.
pub open spec fn opt_error_view(e: Option<Error>) -> Option<ErrorView> {
    match e {
        Some(e) => Some(e@),
        None => None,
    }
}

/// The failure that the outcome of a callback carries: the error it
/// returned, or nothing where it returned `Ok`.
pub open spec fn failure_of(outcome: Result<(), Error>) -> Option<Error> {
    match outcome {
        Ok(_) => None,
        Err(e) => Some(e),
    }
}

/// The words that the text of an error of kind `kind` begins with.
pub open spec fn kind_prefix(kind: ErrorKind) -> Seq<char> {
    match kind {
        ErrorKind::TestExecution => "Test execution failed: "@,
        ErrorKind::TestSetup => "Test setup failed: "@,
        ErrorKind::TestTeardown => "Test teardown failed: "@,
        ErrorKind::Fixture => "Fixture error: "@,
        ErrorKind::Hook => "Hook execution failed: "@,
        ErrorKind::Assertion => "Assertion failed: "@,
        ErrorKind::Mock => "Mock error: "@,
        ErrorKind::IntendedFailure => "Intended failure: "@,
        ErrorKind::RunnerConfig => "Runner configuration error: "@,
        ErrorKind::Reporter => "Reporter error: "@,
        ErrorKind::Parameterization => "Parameterization error: "@,
        ErrorKind::Timeout => "Operation timed out: "@,
        ErrorKind::Io => "IO error: "@,
        ErrorKind::Serialization => "Serialization error: "@,
        ErrorKind::InvalidConfig => "Invalid configuration: "@,
        ErrorKind::Generic => ""@,
    }
}

impl ErrorView {
    /// The text shown for an error: the words of its kind, then, for a hook
    /// error, the stage and `": "`, then the message.
    pub open spec fn text(self) -> Seq<char> {
        if self.kind == ErrorKind::Hook {
            kind_prefix(ErrorKind::Hook) + self.stage + ": "@ + self.message
        } else {
            kind_prefix(self.kind) + self.message
        }
    }
}

impl Clone for Error {
    fn clone(&self) -> (r: Self)
        ensures
            r@ == self@,
    {
        match self {
            Error::TestExecution { message } => Error::TestExecution { message: message.clone() },
            Error::TestSetup { message } => Error::TestSetup { message: message.clone() },
            Error::TestTeardown { message } => Error::TestTeardown { message: message.clone() },
            Error::Fixture { message } => Error::Fixture { message: message.clone() },
            Error::Hook { hook_type, message } => Error::Hook {
                hook_type: hook_type.clone(),
                message: message.clone(),
            },
            Error::Assertion { message } => Error::Assertion { message: message.clone() },
            Error::Mock { message } => Error::Mock { message: message.clone() },
            Error::IntendedFailure { message } => Error::IntendedFailure { message: message.clone() },
            Error::RunnerConfig { message } => Error::RunnerConfig { message: message.clone() },
            Error::Reporter { message } => Error::Reporter { message: message.clone() },
            Error::Parameterization { message } => Error::Parameterization { message: message.clone() },
            Error::Timeout { message } => Error::Timeout { message: message.clone() },
            Error::Io { message } => Error::Io { message: message.clone() },
            Error::Serialization { message } => Error::Serialization { message: message.clone() },
            Error::InvalidConfig { message } => Error::InvalidConfig { message: message.clone() },
            Error::Generic { message } => Error::Generic { message: message.clone() },
        }
    }
}

impl Error {
    /// The kind of this error.
    pub open spec fn spec_kind(&self) -> ErrorKind {
        match self {
            Error::TestExecution { .. } => ErrorKind::TestExecution,
            Error::TestSetup { .. } => ErrorKind::TestSetup,
            Error::TestTeardown { .. } => ErrorKind::TestTeardown,
            Error::Fixture { .. } => ErrorKind::Fixture,
            Error::Hook { .. } => ErrorKind::Hook,
            Error::Assertion { .. } => ErrorKind::Assertion,
            Error::Mock { .. } => ErrorKind::Mock,
            Error::IntendedFailure { .. } => ErrorKind::IntendedFailure,
            Error::RunnerConfig { .. } => ErrorKind::RunnerConfig,
            Error::Reporter { .. } => ErrorKind::Reporter,
            Error::Parameterization { .. } => ErrorKind::Parameterization,
            Error::Timeout { .. } => ErrorKind::Timeout,
            Error::Io { .. } => ErrorKind::Io,
            Error::Serialization { .. } => ErrorKind::Serialization,
            Error::InvalidConfig { .. } => ErrorKind::InvalidConfig,
            Error::Generic { .. } => ErrorKind::Generic,
        }
    }

    /// The stage of a hook error; empty for the other kinds.
    pub open spec fn stage(&self) -> Seq<char> {
        match self {
            Error::Hook { hook_type, .. } => hook_type@,
            _ => Seq::empty(),
        }
    }

    /// The message this error was made with.
    pub open spec fn detail(&self) -> Seq<char> {
        match self {
            Error::TestExecution { message, .. } => message@,
            Error::TestSetup { message, .. } => message@,
            Error::TestTeardown { message, .. } => message@,
            Error::Fixture { message, .. } => message@,
            Error::Hook { message, .. } => message@,
            Error::Assertion { message, .. } => message@,
            Error::Mock { message, .. } => message@,
            Error::IntendedFailure { message, .. } => message@,
            Error::RunnerConfig { message, .. } => message@,
            Error::Reporter { message, .. } => message@,
            Error::Parameterization { message, .. } => message@,
            Error::Timeout { message, .. } => message@,
            Error::Io { message, .. } => message@,
            Error::Serialization { message, .. } => message@,
            Error::InvalidConfig { message, .. } => message@,
            Error::Generic { message, .. } => message@,
        }
    }

    /// The text shown for this error.
    pub open spec fn text(&self) -> Seq<char> {
        self@.text()
    }

    /// The kind of this error.
    pub fn kind(&self) -> (k: ErrorKind)
        ensures
            k == self.spec_kind(),
    {
        match self {
            Error::TestExecution { .. } => ErrorKind::TestExecution,
            Error::TestSetup { .. } => ErrorKind::TestSetup,
            Error::TestTeardown { .. } => ErrorKind::TestTeardown,
            Error::Fixture { .. } => ErrorKind::Fixture,
            Error::Hook { .. } => ErrorKind::Hook,
            Error::Assertion { .. } => ErrorKind::Assertion,
            Error::Mock { .. } => ErrorKind::Mock,
            Error::IntendedFailure { .. } => ErrorKind::IntendedFailure,
            Error::RunnerConfig { .. } => ErrorKind::RunnerConfig,
            Error::Reporter { .. } => ErrorKind::Reporter,
            Error::Parameterization { .. } => ErrorKind::Parameterization,
            Error::Timeout { .. } => ErrorKind::Timeout,
            Error::Io { .. } => ErrorKind::Io,
            Error::Serialization { .. } => ErrorKind::Serialization,
            Error::InvalidConfig { .. } => ErrorKind::InvalidConfig,
            Error::Generic { .. } => ErrorKind::Generic,
        }
    }

    /// The message this error was made with.
    pub fn message(&self) -> (m: &str)
        ensures
            m@ == self.detail(),
    {
        match self {
            Error::TestExecution { message, .. } => message.as_str(),
            Error::TestSetup { message, .. } => message.as_str(),
            Error::TestTeardown { message, .. } => message.as_str(),
            Error::Fixture { message, .. } => message.as_str(),
            Error::Hook { message, .. } => message.as_str(),
            Error::Assertion { message, .. } => message.as_str(),
            Error::Mock { message, .. } => message.as_str(),
            Error::IntendedFailure { message, .. } => message.as_str(),
            Error::RunnerConfig { message, .. } => message.as_str(),
            Error::Reporter { message, .. } => message.as_str(),
            Error::Parameterization { message, .. } => message.as_str(),
            Error::Timeout { message, .. } => message.as_str(),
            Error::Io { message, .. } => message.as_str(),
            Error::Serialization { message, .. } => message.as_str(),
            Error::InvalidConfig { message, .. } => message.as_str(),
            Error::Generic { message, .. } => message.as_str(),
        }
    }

    /// A `TestExecution` error with the given message.
    pub fn test_execution(message: &str) -> (e: Error)
        ensures
            e matches Error::TestExecution { message: m } && m@ == message@,
    {
        Error::TestExecution { message: String::from_str(message) }
    }

    /// A `TestSetup` error with the given message.
    pub fn test_setup(message: &str) -> (e: Error)
        ensures
            e matches Error::TestSetup { message: m } && m@ == message@,
    {
        Error::TestSetup { message: String::from_str(message) }
    }

    /// A `TestTeardown` error with the given message.
    pub fn test_teardown(message: &str) -> (e: Error)
        ensures
            e matches Error::TestTeardown { message: m } && m@ == message@,
    {
        Error::TestTeardown { message: String::from_str(message) }
    }

    /// A `Fixture` error with the given message.
    pub fn fixture(message: &str) -> (e: Error)
        ensures
            e matches Error::Fixture { message: m } && m@ == message@,
    {
        Error::Fixture { message: String::from_str(message) }
    }

    /// A hook error for the stage `hook_type`.
    pub fn hook(hook_type: &str, message: &str) -> (e: Error)
        ensures
            e matches Error::Hook { hook_type: h, message: m } && h@ == hook_type@ && m@
                == message@,
    {
        Error::Hook { hook_type: String::from_str(hook_type), message: String::from_str(message) }
    }

    /// An `Assertion` error with the given message.
    pub fn assertion(message: &str) -> (e: Error)
        ensures
            e matches Error::Assertion { message: m } && m@ == message@,
    {
        Error::Assertion { message: String::from_str(message) }
    }

    /// A `Mock` error with the given message.
    pub fn mock(message: &str) -> (e: Error)
        ensures
            e matches Error::Mock { message: m } && m@ == message@,
    {
        Error::Mock { message: String::from_str(message) }
    }

    /// An `IntendedFailure` error with the given message.
    pub fn intended_failure(message: &str) -> (e: Error)
        ensures
            e matches Error::IntendedFailure { message: m } && m@ == message@,
    {
        Error::IntendedFailure { message: String::from_str(message) }
    }

    /// A `RunnerConfig` error with the given message.
    pub fn runner_config(message: &str) -> (e: Error)
        ensures
            e matches Error::RunnerConfig { message: m } && m@ == message@,
    {
        Error::RunnerConfig { message: String::from_str(message) }
    }

    /// A `Reporter` error with the given message.
    pub fn reporter(message: &str) -> (e: Error)
        ensures
            e matches Error::Reporter { message: m } && m@ == message@,
    {
        Error::Reporter { message: String::from_str(message) }
    }

    /// A `Parameterization` error with the given message.
    pub fn parameterization(message: &str) -> (e: Error)
        ensures
            e matches Error::Parameterization { message: m } && m@ == message@,
    {
        Error::Parameterization { message: String::from_str(message) }
    }

    /// A `Timeout` error with the given message.
    pub fn timeout(message: &str) -> (e: Error)
        ensures
            e matches Error::Timeout { message: m } && m@ == message@,
    {
        Error::Timeout { message: String::from_str(message) }
    }

    /// An `Io` error with the given message.
    pub fn io(message: &str) -> (e: Error)
        ensures
            e matches Error::Io { message: m } && m@ == message@,
    {
        Error::Io { message: String::from_str(message) }
    }

    /// A `Serialization` error with the given message.
    pub fn serialization(message: &str) -> (e: Error)
        ensures
            e matches Error::Serialization { message: m } && m@ == message@,
    {
        Error::Serialization { message: String::from_str(message) }
    }

    /// An `InvalidConfig` error with the given message.
    pub fn invalid_config(message: &str) -> (e: Error)
        ensures
            e matches Error::InvalidConfig { message: m } && m@ == message@,
    {
        Error::InvalidConfig { message: String::from_str(message) }
    }

    /// A `Generic` error with the given message.
    pub fn generic(message: &str) -> (e: Error)
        ensures
            e matches Error::Generic { message: m } && m@ == message@,
    {
        Error::Generic { message: String::from_str(message) }
    }

    /// The words that the text of an error of kind `kind` begins with.
    fn prefix_of(kind: ErrorKind) -> (s: String)
        ensures
            s@ == kind_prefix(kind),
    {
        match kind {
            ErrorKind::TestExecution => String::from_str("Test execution failed: "),
            ErrorKind::TestSetup => String::from_str("Test setup failed: "),
            ErrorKind::TestTeardown => String::from_str("Test teardown failed: "),
            ErrorKind::Fixture => String::from_str("Fixture error: "),
            ErrorKind::Hook => String::from_str("Hook execution failed: "),
            ErrorKind::Assertion => String::from_str("Assertion failed: "),
            ErrorKind::Mock => String::from_str("Mock error: "),
            ErrorKind::IntendedFailure => String::from_str("Intended failure: "),
            ErrorKind::RunnerConfig => String::from_str("Runner configuration error: "),
            ErrorKind::Reporter => String::from_str("Reporter error: "),
            ErrorKind::Parameterization => String::from_str("Parameterization error: "),
            ErrorKind::Timeout => String::from_str("Operation timed out: "),
            ErrorKind::Io => String::from_str("IO error: "),
            ErrorKind::Serialization => String::from_str("Serialization error: "),
            ErrorKind::InvalidConfig => String::from_str("Invalid configuration: "),
            ErrorKind::Generic => String::from_str(""),
        }
    }

    /// The text shown for this error.
    pub fn to_string(&self) -> (s: String)
        ensures
            s@ == self.text(),
    {
        let mut s = Error::prefix_of(self.kind());
        match self {
            Error::Hook { hook_type, message } => {
                s.append(hook_type.as_str());
                s.append(": ");
                s.append(message.as_str());
            },
            _ => {
                s.append(self.message());
            },
        }
        s
    }
}

/// Turning the error of any result into an [`Error`] of a chosen kind.
/// The message is what the error's `Display` writes.
pub trait ResultExt<T> {
    /// The result with its error as a test execution error.
    fn into_test_error(self) -> Result<T, Error>;

    /// The result with its error as a fixture error.
    fn into_fixture_error(self) -> Result<T, Error>;

    /// The result with its error as a hook error of the stage `hook_type`.
    fn into_hook_error(self, hook_type: &str) -> Result<T, Error>;

    /// The result with its error as an assertion error.
    fn into_assertion_error(self) -> Result<T, Error>;
}

/// The message of an error put into a context: the context, a colon, and
/// the error's own words.
pub open spec fn in_context(context: Seq<char>, words: Seq<char>) -> Seq<char> {
    context + ": "@ + words
}

/// The result with its error as a generic error whose message is the
/// context `context`, a colon, and what the error's `Display` writes.
pub fn with_context<T, E: std::fmt::Display>(result: Result<T, E>, context: &str) -> (r: Result<
    T,
    Error,
>)
    ensures
        match result {
            Ok(v) => r == Ok::<T, Error>(v),
            Err(e) => r is Err && r->Err_0@.kind == ErrorKind::Generic && r->Err_0@.stage.len() == 0
                    && exists|words: String|
                vstd::string::to_string_from_display_ensures::<E>(&e, words) && r->Err_0@.message
                    == #[trigger] in_context(context@, words@),
        },
{
    match result {
        Ok(v) => Ok(v),
        Err(e) => {
            let words = e.to_string();
            let mut message = String::from_str(context);
            message.append(": ");
            message.append(words.as_str());
            let r = Err(Error::generic(message.as_str()));
            assert(message@ == in_context(context@, words@));
            r
        },
    }
}

impl<T, E: std::fmt::Display> ResultExt<T> for Result<T, E> {
    fn into_test_error(self) -> (r: Result<T, Error>)
        ensures
            match self {
                Ok(v) => r == Ok::<T, Error>(v),
                Err(e) => r is Err && r->Err_0@.kind == ErrorKind::TestExecution && r->Err_0@.stage.len() == 0
                    && exists|
                    words: String,
                | #[trigger]
                    vstd::string::to_string_from_display_ensures::<E>(&e, words)
                        && r->Err_0@.message == words@,
            },
    {
        match self {
            Ok(v) => Ok(v),
            Err(e) => {
                let words = e.to_string();
                Err(Error::test_execution(words.as_str()))
            },
        }
    }

    fn into_fixture_error(self) -> (r: Result<T, Error>)
        ensures
            match self {
                Ok(v) => r == Ok::<T, Error>(v),
                Err(e) => r is Err && r->Err_0@.kind == ErrorKind::Fixture && r->Err_0@.stage.len() == 0
                    && exists|words: String| #[trigger]
                    vstd::string::to_string_from_display_ensures::<E>(&e, words)
                        && r->Err_0@.message == words@,
            },
    {
        match self {
            Ok(v) => Ok(v),
            Err(e) => {
                let words = e.to_string();
                Err(Error::fixture(words.as_str()))
            },
        }
    }

    fn into_hook_error(self, hook_type: &str) -> (r: Result<T, Error>)
        ensures
            match self {
                Ok(v) => r == Ok::<T, Error>(v),
                Err(e) => r is Err && r->Err_0@.kind == ErrorKind::Hook && r->Err_0@.stage
                    == hook_type@ && exists|words: String| #[trigger]
                    vstd::string::to_string_from_display_ensures::<E>(&e, words)
                        && r->Err_0@.message == words@,
            },
    {
        match self {
            Ok(v) => Ok(v),
            Err(e) => {
                let words = e.to_string();
                Err(Error::hook(hook_type, words.as_str()))
            },
        }
    }

    fn into_assertion_error(self) -> (r: Result<T, Error>)
        ensures
            match self {
                Ok(v) => r == Ok::<T, Error>(v),
                Err(e) => r is Err && r->Err_0@.kind == ErrorKind::Assertion && r->Err_0@.stage.len() == 0
                    && exists|
                    words: String,
                | #[trigger]
                    vstd::string::to_string_from_display_ensures::<E>(&e, words)
                        && r->Err_0@.message == words@,
            },
    {
        match self {
            Ok(v) => Ok(v),
            Err(e) => {
                let words = e.to_string();
                Err(Error::assertion(words.as_str()))
            },
        }
    }
}

} // verus!
