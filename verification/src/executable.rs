//! Test executables: how the build tool is asked for them, how its
//! messages name them, and how they are chosen for a run.

use vstd::prelude::*;
use vstd::string::StringExecFns;
use crate::error::{Error, ErrorKind, ErrorView};
use crate::json::{
    boolean_member, get_boolean, get_string, json_get, json_member, string_member,
};
use crate::text::{
    contains, ends_with, extend_texts, first_word, first_word_of, join_strings, joined, opt_text,
    push_text, str_contains, str_ends_with, str_eq, texts,
};

verus! {

/// A compiled test binary.
#[derive(Debug)]
pub struct TestExecutable {
    /// Where the binary lies.
    pub path: String,
    pub name: String,
    pub package_name: String,
    /// The group the binary is counted to when executables are chosen.
    pub target_crate: String,
}

/// The mathematical content of a [`TestExecutable`].
pub ghost struct TestExecutableView {
    pub path: Seq<char>,
    pub name: Seq<char>,
    pub package_name: Seq<char>,
    pub target_crate: Seq<char>,
}

impl View for TestExecutable {
    type V = TestExecutableView;

    open spec fn view(&self) -> TestExecutableView {
        TestExecutableView {
            path: self.path@,
            name: self.name@,
            package_name: self.package_name@,
            target_crate: self.target_crate@,
        }
    }
}

impl Clone for TestExecutable {
    fn clone(&self) -> (r: Self)
        ensures
            r@ == self@,
    {
        TestExecutable {
            path: self.path.clone(),
            name: self.name.clone(),
            package_name: self.package_name.clone(),
            target_crate: self.target_crate.clone(),
        }
    }
}

/// The group that a path is counted to: the first of `examples`, `cli`,
/// `core`, `server` and `proc-macros` (or `proc_macros`) that occurs in it,
/// under the names `examples`, `cli`, `core`, `server` and `proc_macros`;
/// `examples` where none occurs.
pub open spec fn target_crate_of(path: Seq<char>) -> Seq<char> {
    if contains(path, "examples"@) {
        "examples"@
    } else if contains(path, "cli"@) {
        "cli"@
    } else if contains(path, "core"@) {
        "core"@
    } else if contains(path, "server"@) {
        "server"@
    } else if contains(path, "proc-macros"@) || contains(path, "proc_macros"@) {
        "proc_macros"@
    } else {
        "examples"@
    }
}

impl TestExecutable {
    /// The binary at `path`, counted to the group that its path gives.
    pub fn new(path: String, name: String, package_name: String) -> (r: Self)
        ensures
            r@ == (TestExecutableView {
                path: path@,
                name: name@,
                package_name: package_name@,
                target_crate: target_crate_of(path@),
            }),
    {
        let target_crate = Self::determine_target_crate(path.as_str());
        TestExecutable { path, name, package_name, target_crate }
    }

    /// The group that `path` is counted to.
    pub fn determine_target_crate(path: &str) -> (r: String)
        ensures
            r@ == target_crate_of(path@),
    {
        if str_contains(path, "examples") {
            String::from_str("examples")
        } else if str_contains(path, "cli") {
            String::from_str("cli")
        } else if str_contains(path, "core") {
            String::from_str("core")
        } else if str_contains(path, "server") {
            String::from_str("server")
        } else if str_contains(path, "proc-macros") || str_contains(path, "proc_macros") {
            String::from_str("proc_macros")
        } else {
            String::from_str("examples")
        }
    }
}

/// The contents of each executable of `v`.
pub open spec fn executable_views(v: Seq<TestExecutable>) -> Seq<TestExecutableView> {
    v.map_values(|e: TestExecutable| e@)
}

/// The group that a target filter asks for: the group of the path where the
/// filter is a path (it holds `/` or ends in `.rs`), else the filter itself.
pub open spec fn wanted_crate(target: Seq<char>) -> Seq<char> {
    if contains(target, "/"@) || ends_with(target, ".rs"@) {
        target_crate_of(target)
    } else {
        target
    }
}

/// Whether an executable answers to the group `wanted`: it is counted to
/// the group, or the group occurs in its name or in its path; for the group
/// `examples` it is enough that `sheila_examples` occurs in one of the two.
pub open spec fn answers_to(exe: TestExecutableView, wanted: Seq<char>) -> bool {
    ||| exe.target_crate == wanted
    ||| contains(exe.name, wanted)
    ||| contains(exe.path, wanted)
    ||| (wanted == "examples"@ && (contains(exe.name, "sheila_examples"@) || contains(
        exe.path,
        "sheila_examples"@,
    )))
}

/// The executables of `all` that answer to the group `wanted`, in their order.
pub open spec fn answering(all: Seq<TestExecutableView>, wanted: Seq<char>) -> Seq<
    TestExecutableView,
>
    decreases all.len(),
{
    if all.len() == 0 {
        Seq::empty()
    } else if answers_to(all.last(), wanted) {
        answering(all.drop_last(), wanted).push(all.last())
    } else {
        answering(all.drop_last(), wanted)
    }
}

/// The executables that a target filter chooses: all of them where there is
/// no filter.
pub open spec fn chosen(all: Seq<TestExecutableView>, target: Option<Seq<char>>) -> Seq<
    TestExecutableView,
> {
    match target {
        Some(t) => answering(all, wanted_crate(t)),
        None => all,
    }
}

/// Copies of the executables that the target filter chooses, in their order.
pub fn filter_executables(executables: &[TestExecutable], target_filter: Option<&str>) -> (r: Vec<
    TestExecutable,
>)
    ensures
        executable_views(r@) == chosen(
            executable_views(executables@),
            match target_filter {
                Some(t) => Some(t@),
                None => None,
            },
        ),
{
    let ghost all = executable_views(executables@);
    let mut r: Vec<TestExecutable> = Vec::new();
    let mut i: usize = 0;
    match target_filter {
        Some(target) => {
            let wanted = if str_contains(target, "/") || str_ends_with(target, ".rs") {
                TestExecutable::determine_target_crate(target)
            } else {
                target.to_owned()
            };
            assert(all.take(0) =~= Seq::empty());
            assert(executable_views(r@) =~= Seq::empty());
            while i < executables.len()
                invariant
                    i <= executables.len(),
                    all == executable_views(executables@),
                    wanted@ == wanted_crate(target@),
                    executable_views(r@) == answering(all.take(i as int), wanted@),
                decreases executables.len() - i,
            {
                let exe = &executables[i];
                let ghost had = executable_views(r@);
                proof {
                    assert(all.take(i + 1).drop_last() =~= all.take(i as int));
                    assert(all.take(i + 1).last() == exe@);
                }
                let keep = str_eq(exe.target_crate.as_str(), wanted.as_str()) || str_contains(
                    exe.name.as_str(),
                    wanted.as_str(),
                ) || str_contains(exe.path.as_str(), wanted.as_str()) || (str_eq(
                    wanted.as_str(),
                    "examples",
                ) && (str_contains(exe.name.as_str(), "sheila_examples") || str_contains(
                    exe.path.as_str(),
                    "sheila_examples",
                )));
                if keep {
                    r.push(exe.clone());
                    assert(executable_views(r@) =~= had.push(exe@));
                }
                i += 1;
            }
            assert(all.take(i as int) =~= all);
        },
        None => {
            assert(executable_views(r@) =~= all.take(0));
            while i < executables.len()
                invariant
                    i <= executables.len(),
                    all == executable_views(executables@),
                    executable_views(r@) == all.take(i as int),
                decreases executables.len() - i,
            {
                let ghost had = executable_views(r@);
                r.push(executables[i].clone());
                assert(executable_views(r@) =~= had.push(executables@[i as int]@));
                i += 1;
                assert(executable_views(r@) =~= all.take(i as int));
            }
            assert(all.take(i as int) =~= all);
        },
    }
    r
}

/// What a message of the build tool says of an artifact.
#[derive(Debug)]
pub struct ArtifactMessage {
    /// The member `reason`, where it is a string.
    pub reason: Option<String>,
    /// The member `package_id`, where it is a string.
    pub package_id: Option<String>,
    /// Whether the message has a member `profile`.
    pub has_profile: bool,
    /// The member `test` of the profile, where it is a boolean.
    pub is_test: Option<bool>,
    /// The member `executable`, where it is a string.
    pub executable: Option<String>,
    /// Whether the message has a member `target`.
    pub has_target: bool,
    /// The member `name` of the target, where it is a string.
    pub target_name: Option<String>,
}

/// The mathematical content of an [`ArtifactMessage`].
pub ghost struct ArtifactMessageView {
    pub reason: Option<Seq<char>>,
    pub package_id: Option<Seq<char>>,
    pub has_profile: bool,
    pub is_test: Option<bool>,
    pub executable: Option<Seq<char>>,
    pub has_target: bool,
    pub target_name: Option<Seq<char>>,
}

impl View for ArtifactMessage {
    type V = ArtifactMessageView;

    open spec fn view(&self) -> ArtifactMessageView {
        ArtifactMessageView {
            reason: opt_text(self.reason),
            package_id: opt_text(self.package_id),
            has_profile: self.has_profile,
            is_test: self.is_test,
            executable: opt_text(self.executable),
            has_target: self.has_target,
            target_name: opt_text(self.target_name),
        }
    }
}

/// The artifact message that a decoded JSON document holds.
pub open spec fn artifact_of(value: serde_json::Value) -> ArtifactMessageView {
    ArtifactMessageView {
        reason: string_member(value, "reason"@),
        package_id: string_member(value, "package_id"@),
        has_profile: json_member(value, "profile"@) is Some,
        is_test: match json_member(value, "profile"@) {
            Some(profile) => boolean_member(profile, "test"@),
            None => None,
        },
        executable: string_member(value, "executable"@),
        has_target: json_member(value, "target"@) is Some,
        target_name: match json_member(value, "target"@) {
            Some(target) => string_member(target, "name"@),
            None => None,
        },
    }
}

/// Reads of a decoded message what names an artifact.
pub fn read_artifact(value: &serde_json::Value) -> (r: ArtifactMessage)
    ensures
        r@ == artifact_of(*value),
{
    let profile = json_get(value, "profile");
    let target = json_get(value, "target");
    ArtifactMessage {
        reason: get_string(value, "reason"),
        package_id: get_string(value, "package_id"),
        has_profile: profile.is_some(),
        is_test: match profile {
            Some(p) => get_boolean(p, "test"),
            None => None,
        },
        executable: get_string(value, "executable"),
        has_target: target.is_some(),
        target_name: match target {
            Some(t) => get_string(t, "name"),
            None => None,
        },
    }
}

/// A test execution error with the message `message`.
pub open spec fn malformed(message: Seq<char>) -> ErrorView {
    ErrorView { kind: ErrorKind::TestExecution, stage: Seq::empty(), message }
}

/// What a message of the build tool yields.
///
/// A message without a reason is an error. A message whose reason is not
/// `compiler-artifact` yields nothing. Of an artifact the package, whose
/// name is the first word of its identifier, and the profile with its
/// `test` mark must be there, else the message is an error. An artifact
/// that is no test, or has no executable, yields nothing. A test artifact
/// with an executable yields that executable under the name of its target,
/// which must be there.
pub open spec fn artifact_executable(message: ArtifactMessageView) -> Result<
    Option<TestExecutableView>,
    ErrorView,
> {
    if message.reason is None {
        Err(malformed("Missing reason field in cargo output"@))
    } else if message.reason->0 != "compiler-artifact"@ {
        Ok(None)
    } else if message.package_id is None {
        Err(malformed("Missing package_id field"@))
    } else if first_word(message.package_id->0) is None {
        Err(malformed("Invalid package_id format"@))
    } else if !message.has_profile {
        Err(malformed("Missing profile field"@))
    } else if message.is_test is None {
        Err(malformed("Missing test field in profile"@))
    } else if !message.is_test->0 || message.executable is None {
        Ok(None)
    } else if !message.has_target {
        Err(malformed("Missing target field"@))
    } else if message.target_name is None {
        Err(malformed("Missing name field in target"@))
    } else {
        Ok(
            Some(
                TestExecutableView {
                    path: message.executable->0,
                    name: message.target_name->0,
                    package_name: first_word(message.package_id->0)->0,
                    target_crate: target_crate_of(message.executable->0),
                },
            ),
        )
    }
}

/// The content of what a message yielded.
pub open spec fn yield_view(r: Result<Option<TestExecutable>, Error>) -> Result<
    Option<TestExecutableView>,
    ErrorView,
> {
    match r {
        Ok(Some(exe)) => Ok(Some(exe@)),
        Ok(None) => Ok(None),
        Err(e) => Err(e@),
    }
}

/// The executable that an artifact message names, if it names one.
pub fn executable_of(message: ArtifactMessage) -> (r: Result<Option<TestExecutable>, Error>)
    ensures
        yield_view(r) == artifact_executable(message@),
{
    let ArtifactMessage {
        reason,
        package_id,
        has_profile,
        is_test,
        executable,
        has_target,
        target_name,
    } = message;
    let reason = match reason {
        Some(r) => r,
        None => {
            return Err(Error::test_execution("Missing reason field in cargo output"));
        },
    };
    if !str_eq(reason.as_str(), "compiler-artifact") {
        return Ok(None);
    }
    let package_id = match package_id {
        Some(p) => p,
        None => {
            return Err(Error::test_execution("Missing package_id field"));
        },
    };
    let package_name = match first_word_of(package_id.as_str()) {
        Some(n) => n,
        None => {
            return Err(Error::test_execution("Invalid package_id format"));
        },
    };
    if !has_profile {
        return Err(Error::test_execution("Missing profile field"));
    }
    let is_test = match is_test {
        Some(t) => t,
        None => {
            return Err(Error::test_execution("Missing test field in profile"));
        },
    };
    if !is_test {
        return Ok(None);
    }
    let path = match executable {
        Some(p) => p,
        None => {
            return Ok(None);
        },
    };
    if !has_target {
        return Err(Error::test_execution("Missing target field"));
    }
    let name = match target_name {
        Some(n) => n,
        None => {
            return Err(Error::test_execution("Missing name field in target"));
        },
    };
    Ok(Some(TestExecutable::new(path, name, package_name)))
}

/// The executable that a decoded message of the build tool names; see
/// [`artifact_executable`].
pub fn extract_test_executable(message: &serde_json::Value) -> (r: Result<
    Option<TestExecutable>,
    Error,
>)
    ensures
        yield_view(r) == artifact_executable(artifact_of(*message)),
{
    executable_of(read_artifact(message))
}

/// How the build tool and the test binaries are called.
#[derive(Debug)]
pub struct CargoRunnerConfig {
    /// The build profile.
    pub profile: Option<String>,
    /// The features to switch on.
    pub features: Vec<String>,
    /// The time a test binary may take, in milliseconds. The run loop does
    /// not hold binaries to it.
    pub executable_timeout: Option<u64>,
    pub capture_output: bool,
    /// Further arguments for the build tool.
    pub cargo_args: Vec<String>,
    /// Further arguments for the test binaries.
    pub test_args: Vec<String>,
}

/// The mathematical content of a [`CargoRunnerConfig`].
pub ghost struct CargoRunnerConfigView {
    pub profile: Option<Seq<char>>,
    pub features: Seq<Seq<char>>,
    pub executable_timeout: Option<u64>,
    pub capture_output: bool,
    pub cargo_args: Seq<Seq<char>>,
    pub test_args: Seq<Seq<char>>,
}

impl View for CargoRunnerConfig {
    type V = CargoRunnerConfigView;

    open spec fn view(&self) -> CargoRunnerConfigView {
        CargoRunnerConfigView {
            profile: opt_text(self.profile),
            features: texts(self.features@),
            executable_timeout: self.executable_timeout,
            capture_output: self.capture_output,
            cargo_args: texts(self.cargo_args@),
            test_args: texts(self.test_args@),
        }
    }
}

impl Default for CargoRunnerConfig {
    fn default() -> (r: Self)
        ensures
            r@ == (CargoRunnerConfigView {
                profile: None,
                features: seq!["sheila-proc-macros/__sheila_test"@],
                executable_timeout: Some(300_000u64),
                capture_output: true,
                cargo_args: Seq::empty(),
                test_args: Seq::empty(),
            }),
    {
        let mut features: Vec<String> = Vec::new();
        push_text(&mut features, "sheila-proc-macros/__sheila_test");
        let r = CargoRunnerConfig {
            profile: None,
            features,
            executable_timeout: Some(300_000),
            capture_output: true,
            cargo_args: Vec::new(),
            test_args: Vec::new(),
        };
        assert(r@.features =~= seq!["sheila-proc-macros/__sheila_test"@]);
        assert(r@.cargo_args =~= Seq::empty());
        assert(r@.test_args =~= Seq::empty());
        r
    }
}

/// The arguments that select a profile: the flag and the profile, or
/// nothing.
pub open spec fn profile_args(profile: Option<Seq<char>>) -> Seq<Seq<char>> {
    match profile {
        Some(p) => seq!["--profile"@, p],
        None => Seq::empty(),
    }
}

/// The arguments that switch features on: the flag and the features with
/// commas between them, or nothing where there are none.
pub open spec fn feature_args(features: Seq<Seq<char>>) -> Seq<Seq<char>> {
    if features.len() == 0 {
        Seq::empty()
    } else {
        seq!["--features"@, joined(features, ","@)]
    }
}

/// The arguments with which the build tool is asked to build the test
/// binaries without running them, and to report them as JSON.
pub open spec fn build_arguments(config: CargoRunnerConfigView) -> Seq<Seq<char>> {
    seq!["test"@, "--no-run"@, "--message-format=json"@] + profile_args(config.profile)
        + feature_args(config.features) + config.cargo_args
}

/// The arguments with which the build tool is asked for the test binaries.
pub fn build_args(config: &CargoRunnerConfig) -> (r: Vec<String>)
    ensures
        texts(r@) == build_arguments(config@),
{
    let mut args: Vec<String> = Vec::new();
    assert(texts(args@) =~= Seq::empty());
    push_text(&mut args, "test");
    push_text(&mut args, "--no-run");
    push_text(&mut args, "--message-format=json");
    assert(texts(args@) =~= seq!["test"@, "--no-run"@, "--message-format=json"@]);
    match &config.profile {
        Some(profile) => {
            push_text(&mut args, "--profile");
            push_text(&mut args, profile.as_str());
        },
        None => {},
    }
    assert(texts(args@) =~= seq!["test"@, "--no-run"@, "--message-format=json"@] + profile_args(
        config@.profile,
    ));
    if config.features.len() > 0 {
        push_text(&mut args, "--features");
        let list = join_strings(&config.features, ",");
        push_text(&mut args, list.as_str());
    }
    assert(texts(args@) =~= seq!["test"@, "--no-run"@, "--message-format=json"@] + profile_args(
        config@.profile,
    ) + feature_args(config@.features));
    extend_texts(&mut args, &config.cargo_args);
    args
}

/// The command that asks the build tool for the test binaries of a
/// workspace.
#[derive(Debug)]
pub struct ExecutableBuilder {
    /// The subcommand of the build tool.
    pub sub: String,
    pub filter: Option<String>,
    pub profile: Option<String>,
    /// Further arguments for the build tool.
    pub cargo: Vec<String>,
}

/// The mathematical content of an [`ExecutableBuilder`].
pub ghost struct ExecutableBuilderView {
    pub sub: Seq<char>,
    pub filter: Option<Seq<char>>,
    pub profile: Option<Seq<char>>,
    pub cargo: Seq<Seq<char>>,
}

impl View for ExecutableBuilder {
    type V = ExecutableBuilderView;

    open spec fn view(&self) -> ExecutableBuilderView {
        ExecutableBuilderView {
            sub: self.sub@,
            filter: opt_text(self.filter),
            profile: opt_text(self.profile),
            cargo: texts(self.cargo@),
        }
    }
}

/// The argument that hands a filter on, or nothing.
pub open spec fn filter_args(filter: Option<Seq<char>>) -> Seq<Seq<char>> {
    match filter {
        Some(f) => seq!["--filter="@ + f],
        None => Seq::empty(),
    }
}

/// The arguments that never change.
pub open spec fn fixed_args() -> Seq<Seq<char>> {
    seq![
        "--no-run"@,
        "--tests"@,
        "--verbose"@,
        "--workspace"@,
        "--message-format=json-diagnostic-rendered-ansi"@,
    ]
}

/// The arguments of the command: the subcommand, the filter, the arguments
/// that never change, the profile, the features of the test framework, and
/// the further arguments.
pub open spec fn builder_arguments(builder: ExecutableBuilderView) -> Seq<Seq<char>> {
    seq![builder.sub] + filter_args(builder.filter) + fixed_args() + profile_args(builder.profile)
        + seq!["--features"@, "sheila-proc-macros/__sheila_test,sheila/full"@] + builder.cargo
}

impl ExecutableBuilder {
    /// The command `test` with the given filter, profile and further
    /// arguments.
    pub fn new(filter: Option<String>, profile: Option<String>, cargo: Vec<String>) -> (r: Self)
        ensures
            r@ == (ExecutableBuilderView {
                sub: "test"@,
                filter: opt_text(filter),
                profile: opt_text(profile),
                cargo: texts(cargo@),
            }),
    {
        ExecutableBuilder { sub: String::from_str("test"), filter, profile, cargo }
    }

    /// The arguments of the command. Building them never fails.
    pub fn args(&self) -> (r: Result<Vec<String>, Error>)
        ensures
            r is Ok,
            texts(r->Ok_0@) == builder_arguments(self@),
    {
        let mut args: Vec<String> = Vec::new();
        assert(texts(args@) =~= Seq::empty());
        push_text(&mut args, self.sub.as_str());
        match &self.filter {
            Some(filter) => {
                let mut flag = String::from_str("--filter=");
                flag.append(filter.as_str());
                push_text(&mut args, flag.as_str());
            },
            None => {},
        }
        assert(texts(args@) =~= seq![self@.sub] + filter_args(self@.filter));
        push_text(&mut args, "--no-run");
        push_text(&mut args, "--tests");
        push_text(&mut args, "--verbose");
        push_text(&mut args, "--workspace");
        push_text(&mut args, "--message-format=json-diagnostic-rendered-ansi");
        assert(texts(args@) =~= seq![self@.sub] + filter_args(self@.filter) + fixed_args());
        match &self.profile {
            Some(profile) => {
                push_text(&mut args, "--profile");
                push_text(&mut args, profile.as_str());
            },
            None => {},
        }
        assert(texts(args@) =~= seq![self@.sub] + filter_args(self@.filter) + fixed_args()
            + profile_args(self@.profile));
        push_text(&mut args, "--features");
        push_text(&mut args, "sheila-proc-macros/__sheila_test,sheila/full");
        assert(texts(args@) =~= seq![self@.sub] + filter_args(self@.filter) + fixed_args()
            + profile_args(self@.profile) + seq![
            "--features"@,
            "sheila-proc-macros/__sheila_test,sheila/full"@,
        ]);
        extend_texts(&mut args, &self.cargo);
        Ok(args)
    }

    /// Copies of the executables that the target filter chooses; see
    /// [`chosen`].
    pub fn filter_executables(
        &self,
        executables: &[TestExecutable],
        target_filter: Option<&str>,
    ) -> (r: Vec<TestExecutable>)
        ensures
            executable_views(r@) == chosen(
                executable_views(executables@),
                match target_filter {
                    Some(t) => Some(t@),
                    None => None,
                },
            ),
    {
        filter_executables(executables, target_filter)
    }

    /// The executable that a decoded message of the build tool names; see
    /// [`artifact_executable`].
    pub fn extract_test_executable(&self, message: &serde_json::Value) -> (r: Result<
        Option<TestExecutable>,
        Error,
    >)
        ensures
            yield_view(r) == artifact_executable(artifact_of(*message)),
    {
        extract_test_executable(message)
    }
}

} // verus!
