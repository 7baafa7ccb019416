//! The run state tracker: it takes the line events of one binary's run and
//! says which lifecycle events follow from them.

use vstd::prelude::*;
use vstd::hash_map::StringHashMap;
use vstd::string::StringExecFns;
use crate::clock::{elapsed_between, elapsed_millis, now_millis};
use crate::error::{Error, ErrorKind, ErrorView};
use crate::ids::new_id;
use crate::names::{format_mod_name, mod_name};
use crate::outcome::{bare_metadata, recorded_status};
use crate::suite::result_views;
use crate::test::{TestMetadata, TestResult, TestResultView, TestStatus};
use crate::text::{clone_opt_string, opt_text};
use crate::types::{
    ErrorInfo, ErrorInfoView, LifecycleEvent, LineEvent, ProcessOutput, SourceLocationView,
    TestOutputLine, TestState,
};

verus! {

/// The content of the lifecycle event in `o`, if there is one.
pub open spec fn opt_event_view(o: Option<ProcessOutput>) -> Option<LifecycleEvent> {
    match o {
        Some(e) => Some(e@),
        None => None,
    }
}

/// The error that a failed test's result carries: the failure detail
/// written out, where any is known.
pub open spec fn detail_error(detail: Option<ErrorInfoView>) -> Option<ErrorView> {
    match detail {
        Some(d) => Some(
            ErrorView { kind: ErrorKind::TestExecution, stage: Seq::empty(), message: d.text() },
        ),
        None => None,
    }
}

/// The message of a failure detail, or the empty text where none is known.
pub open spec fn detail_message(detail: Option<ErrorInfoView>) -> Seq<char> {
    match detail {
        Some(d) => match d.message {
            Some(m) => m,
            None => Seq::empty(),
        },
        None => Seq::empty(),
    }
}

/// The location of a failure detail, where one is known.
pub open spec fn detail_location(detail: Option<ErrorInfoView>) -> Option<SourceLocationView> {
    match detail {
        Some(d) => d.location,
        None => None,
    }
}

/// The result of the test `name`, which began at `started_at`, was
/// reported at `now` with `status` and took `duration` milliseconds.
/// Failure detail is attached to a failed test only.
pub open spec fn reported_result(
    id: uuid::Uuid,
    name: Seq<char>,
    status: TestStatus,
    started_at: i64,
    now: i64,
    duration: u64,
    detail: Option<ErrorInfoView>,
) -> TestResultView {
    TestResultView {
        id,
        name: mod_name(name),
        metadata: bare_metadata(mod_name(name)),
        status: recorded_status(status),
        start_time: started_at,
        end_time: Some(now),
        duration: Some(duration),
        error: if status == TestStatus::Failed {
            detail_error(detail)
        } else {
            None
        },
    }
}

/// The mathematical content of a [`TestRunState`].
pub ghost struct TrackerView {
    /// Where each test stands that the binary has spoken of.
    pub tests: Map<Seq<char>, TestState>,
    /// The failure detail that no result has taken yet, by test name.
    pub pending_errors: Map<Seq<char>, ErrorInfoView>,
    pub current_suite: Option<Seq<char>>,
}

impl TrackerView {
    /// The name of the suite that is running, or the empty text.
    pub open spec fn suite_name(self) -> Seq<char> {
        match self.current_suite {
            Some(s) => s,
            None => Seq::empty(),
        }
    }

    /// The failure detail that is waiting for the test `name`.
    pub open spec fn detail_for(self, name: Seq<char>) -> Option<ErrorInfoView> {
        if self.pending_errors.contains_key(name) {
            Some(self.pending_errors[name])
        } else {
            None
        }
    }

    /// The detail known of `test` once a panic with `message` and
    /// `location` is merged in: a location replaces the one known before, a
    /// message that is not empty replaces the one known before, and what
    /// the panic does not bring stays as it was.
    pub open spec fn merged(
        self,
        test: Seq<char>,
        message: Seq<char>,
        location: Option<SourceLocationView>,
    ) -> ErrorInfoView {
        let before = match self.detail_for(test) {
            Some(d) => d,
            None => ErrorInfoView::empty(),
        };
        ErrorInfoView {
            location: if location is Some {
                location
            } else {
                before.location
            },
            message: if message.len() > 0 {
                Some(message)
            } else {
                before.message
            },
            backtrace: before.backtrace,
        }
    }

    /// When the test `name` began, where it is running.
    pub open spec fn running_since(self, name: Seq<char>) -> Option<i64> {
        if self.tests.contains_key(name) {
            match self.tests[name] {
                TestState::Running { started_at } => Some(started_at),
                _ => None,
            }
        } else {
            None
        }
    }

    /// How long a test took that began at `started_at` and is reported at
    /// `now`: what the binary said, else the time that went by.
    pub open spec fn duration_of(reported: Option<u64>, started_at: i64, now: i64) -> u64 {
        match reported {
            Some(d) => d,
            None => elapsed_between(started_at, now),
        }
    }

    /// The state after the line event `line` was read at the time `now`.
    pub open spec fn after(self, line: LineEvent, now: i64) -> TrackerView {
        match line {
            LineEvent::TestStart { name } => TrackerView {
                tests: self.tests.insert(name, TestState::Running { started_at: now }),
                ..self
            },
            LineEvent::TestResult { name, status, duration_ms } => match self.running_since(name) {
                Some(started_at) => TrackerView {
                    tests: self.tests.insert(
                        name,
                        TestState::Completed {
                            duration_ms: Self::duration_of(duration_ms, started_at, now),
                            status,
                        },
                    ),
                    pending_errors: self.pending_errors.remove(name),
                    ..self
                },
                None => self,
            },
            LineEvent::SuiteStart { count } => self,
            LineEvent::Panic { message, test, location } => TrackerView {
                pending_errors: self.pending_errors.insert(
                    test,
                    self.merged(test, message, location),
                ),
                ..self
            },
        }
    }

    /// The lifecycle event that follows from the line event `line`, read at
    /// the time `now`; `id` is the identifier given to a result.
    pub open spec fn emitted(self, line: LineEvent, now: i64, id: uuid::Uuid) -> Option<
        LifecycleEvent,
    > {
        match line {
            LineEvent::TestStart { name } => Some(
                LifecycleEvent::TestStarted { name, suite: self.suite_name() },
            ),
            LineEvent::TestResult { name, status, duration_ms } => match self.running_since(name) {
                Some(started_at) => {
                    let duration = Self::duration_of(duration_ms, started_at, now);
                    let detail = self.detail_for(name);
                    let result = reported_result(id, name, status, started_at, now, duration, detail);
                    match status {
                        TestStatus::Failed => Some(
                            LifecycleEvent::TestFailed {
                                result,
                                duration_ms: duration,
                                error: detail_message(detail),
                                location: detail_location(detail),
                            },
                        ),
                        TestStatus::Passed => Some(
                            LifecycleEvent::TestPassed { result, duration_ms: duration },
                        ),
                        _ => Some(LifecycleEvent::TestSkipped { result }),
                    }
                },
                None => None,
            },
            LineEvent::SuiteStart { count } => Some(
                LifecycleEvent::SuiteStarted { name: self.suite_name(), test_count: count },
            ),
            LineEvent::Panic { .. } => None,
        }
    }
}

/// The result `result` once the waiting failure detail is given to it: a
/// result without an error, for whose name detail is waiting, gets that
/// detail as its error; every other result stays as it is.
pub open spec fn finalized_result(
    result: TestResultView,
    pending: Map<Seq<char>, ErrorInfoView>,
) -> TestResultView {
    if pending.contains_key(result.name) && result.error is None {
        TestResultView { error: detail_error(Some(pending[result.name])), ..result }
    } else {
        result
    }
}

/// The failure detail that is still waiting once the results `results`
/// have taken theirs, in order.
pub open spec fn pending_after(
    results: Seq<TestResultView>,
    pending: Map<Seq<char>, ErrorInfoView>,
) -> Map<Seq<char>, ErrorInfoView>
    decreases results.len(),
{
    if results.len() == 0 {
        pending
    } else {
        pending_after(results.drop_last(), pending).remove(results.last().name)
    }
}

/// The results `results` once each has taken, in order, the failure detail
/// that was waiting for its name. Detail is taken once: of two results with
/// one name the first gets it.
pub open spec fn finalized_results(
    results: Seq<TestResultView>,
    pending: Map<Seq<char>, ErrorInfoView>,
) -> Seq<TestResultView>
    decreases results.len(),
{
    if results.len() == 0 {
        Seq::empty()
    } else {
        finalized_results(results.drop_last(), pending).push(
            finalized_result(results.last(), pending_after(results.drop_last(), pending)),
        )
    }
}

/// The state of one binary's run: where each test stands, and the failure
/// detail that has arrived for tests whose result has not.
pub struct TestRunState {
    tests: StringHashMap<TestState>,
    pending_errors: StringHashMap<ErrorInfo>,
    current_suite: Option<String>,
}

impl View for TestRunState {
    type V = TrackerView;

    closed spec fn view(&self) -> TrackerView {
        TrackerView {
            tests: self.tests@,
            pending_errors: self.pending_errors@.map_values(|e: ErrorInfo| e@),
            current_suite: opt_text(self.current_suite),
        }
    }
}

impl TestRunState {
    /// A tracker that has seen nothing yet.
    pub fn new() -> (r: Self)
        ensures
            r@ == (TrackerView {
                tests: Map::empty(),
                pending_errors: Map::empty(),
                current_suite: None,
            }),
    {
        let r = TestRunState {
            tests: StringHashMap::new(),
            pending_errors: StringHashMap::new(),
            current_suite: None,
        };
        assert(r.pending_errors@.map_values(|e: ErrorInfo| e@) =~= Map::empty());
        r
    }

    /// A tracker for the suite `suite` that has seen nothing yet.
    pub fn for_suite(suite: &str) -> (r: Self)
        ensures
            r@ == (TrackerView {
                tests: Map::empty(),
                pending_errors: Map::empty(),
                current_suite: Some(suite@),
            }),
    {
        let r = TestRunState {
            tests: StringHashMap::new(),
            pending_errors: StringHashMap::new(),
            current_suite: Some(String::from_str(suite)),
        };
        assert(r.pending_errors@.map_values(|e: ErrorInfo| e@) =~= Map::empty());
        r
    }

    /// Where the test `name` stands; `NotStarted` where the binary has not
    /// spoken of it.
    pub fn state_of(&self, name: &str) -> (r: TestState)
        ensures
            r == if self@.tests.contains_key(name@) {
                self@.tests[name@]
            } else {
                TestState::NotStarted
            },
    {
        match self.tests.get(name) {
            Some(state) => *state,
            None => TestState::NotStarted,
        }
    }

    /// The failure detail that is waiting for the test `name`.
    pub fn pending_error(&self, name: &str) -> (r: Option<ErrorInfo>)
        ensures
            crate::types::opt_info_view(r) == self@.detail_for(name@),
    {
        match self.pending_errors.get(name) {
            Some(info) => Some(info.clone()),
            None => None,
        }
    }

    fn build_result(
        id: uuid::Uuid,
        name: &str,
        status: TestStatus,
        started_at: i64,
        now: i64,
        duration: u64,
        detail: &Option<ErrorInfo>,
    ) -> (r: TestResult)
        ensures
            r@ == reported_result(
                id,
                name@,
                status,
                started_at,
                now,
                duration,
                crate::types::opt_info_view(*detail),
            ),
    {
        let reported = format_mod_name(name);
        let metadata = TestMetadata::new(reported.as_str());
        let error = match status {
            TestStatus::Failed => match detail {
                Some(info) => {
                    let words = info.format_error();
                    Some(Error::test_execution(words.as_str()))
                },
                None => None,
            },
            _ => None,
        };
        let recorded = match status {
            TestStatus::Passed => TestStatus::Passed,
            TestStatus::Failed => TestStatus::Failed,
            _ => TestStatus::Skipped,
        };
        TestResult {
            id,
            name: reported,
            metadata,
            status: recorded,
            start_time: started_at,
            end_time: Some(now),
            duration: Some(duration),
            error,
        }
    }

    /// Takes one line event, read at the time `now`, and says which
    /// lifecycle event follows from it; `id` is given to the result of a
    /// test that ended.
    ///
    /// A start marks the test as running. A result is taken only for a test
    /// that is running: the test is marked as completed, the failure detail
    /// waiting for it is taken away, and a failed test's event carries that
    /// detail. A result for a test that is not running changes nothing and
    /// gives no event. A panic is merged into the detail waiting for its
    /// test and gives no event.
    pub fn handle_line_at(&mut self, line: TestOutputLine, now: i64, id: uuid::Uuid) -> (r: Option<
        ProcessOutput,
    >)
        ensures
            final(self)@ == old(self)@.after(line@, now),
            opt_event_view(r) == old(self)@.emitted(line@, now, id),
    {
        match line {
            TestOutputLine::TestStart { name } => {
                let suite = match &self.current_suite {
                    Some(s) => s.clone(),
                    None => String::new(),
                };
                self.tests.insert(name.clone(), TestState::Running { started_at: now });
                Some(ProcessOutput::TestStarted { name, suite })
            },
            TestOutputLine::TestResult { name, status, duration_ms } => {
                let started_at: i64 = match self.tests.get(name.as_str()) {
                    Some(TestState::Running { started_at }) => *started_at,
                    _ => {
                        return None;
                    },
                };
                let duration: u64 = match duration_ms {
                    Some(d) => d,
                    None => elapsed_millis(started_at, now),
                };
                let detail = self.pending_error(name.as_str());
                self.pending_errors.remove(name.as_str());
                self.tests.insert(
                    name.clone(),
                    TestState::Completed { duration_ms: duration, status },
                );
                assert(self.pending_errors@.map_values(|e: ErrorInfo| e@) =~= old(
                    self,
                ).pending_errors@.map_values(|e: ErrorInfo| e@).remove(name@));
                let result = Self::build_result(
                    id,
                    name.as_str(),
                    status,
                    started_at,
                    now,
                    duration,
                    &detail,
                );
                match status {
                    TestStatus::Failed => {
                        let (error, location) = match detail {
                            Some(info) => (
                                match info.message {
                                    Some(m) => m,
                                    None => String::new(),
                                },
                                info.location,
                            ),
                            None => (String::new(), None),
                        };
                        Some(
                            ProcessOutput::TestFailed {
                                result,
                                duration_ms: duration,
                                error,
                                location,
                            },
                        )
                    },
                    TestStatus::Passed => Some(
                        ProcessOutput::TestPassed { result, duration_ms: duration },
                    ),
                    _ => Some(ProcessOutput::TestSkipped { result }),
                }
            },
            TestOutputLine::SuiteStart { count } => {
                let name = match &self.current_suite {
                    Some(s) => s.clone(),
                    None => String::new(),
                };
                Some(ProcessOutput::SuiteStarted { name, test_count: count })
            },
            TestOutputLine::Panic { message, test, location } => {
                let mut info = match self.pending_error(test.as_str()) {
                    Some(info) => info,
                    None => ErrorInfo::new(),
                };
                match location {
                    Some(l) => {
                        info.location = Some(l);
                    },
                    None => {},
                }
                if !message.as_str().is_empty() {
                    info.set_message(message);
                }
                self.pending_errors.insert(test, info);
                assert(self.pending_errors@.map_values(|e: ErrorInfo| e@) =~= old(
                    self,
                ).pending_errors@.map_values(|e: ErrorInfo| e@).insert(test@, info@));
                None
            },
        }
    }

    /// Takes one line event, read now. What it does is what
    /// [`Self::handle_line_at`] does at some time with some identifier: the
    /// time is the clock's, the identifier a fresh one.
    pub fn handle_line(&mut self, line: TestOutputLine) -> (r: Option<ProcessOutput>)
        ensures
            exists|now: i64, id: uuid::Uuid|
                final(self)@ == old(self)@.after(line@, now) && opt_event_view(r) == #[trigger] old(
                    self,
                )@.emitted(line@, now, id),
    {
        let now = now_millis();
        let id = new_id();
        let ghost event = line@;
        let r = self.handle_line_at(line, now, id);
        assert(self@ == old(self)@.after(event, now) && opt_event_view(r) == old(self)@.emitted(
            event,
            now,
            id,
        ));
        r
    }

    /// Gives the failure detail that is still waiting to the results of the
    /// tests it belongs to, when the binary has ended: a result without an
    /// error, for whose name detail is waiting, gets that detail as its
    /// error. Whatever waited for the name of one of the results is taken
    /// away, whether or not the result took it.
    pub fn finalize_pending_errors(&mut self, test_results: &mut Vec<TestResult>)
        ensures
            result_views(final(test_results)@) == finalized_results(
                result_views(old(test_results)@),
                old(self)@.pending_errors,
            ),
            final(self)@ == (TrackerView {
                pending_errors: pending_after(
                    result_views(old(test_results)@),
                    old(self)@.pending_errors,
                ),
                ..old(self)@
            }),
    {
        let ghost before = result_views(test_results@);
        let ghost pending = self@.pending_errors;
        let mut i: usize = 0;
        assert(before.take(0) =~= Seq::empty());
        assert(result_views(test_results@).take(0) =~= Seq::empty());
        while i < test_results.len()
            invariant
                i <= test_results.len(),
                test_results@.len() == before.len(),
                before == result_views(old(test_results)@),
                pending == old(self)@.pending_errors,
                result_views(test_results@).take(i as int) == finalized_results(
                    before.take(i as int),
                    pending,
                ),
                result_views(test_results@).skip(i as int) == before.skip(i as int),
                self@ == (TrackerView {
                    pending_errors: pending_after(before.take(i as int), pending),
                    ..old(self)@
                }),
            decreases test_results.len() - i,
        {
            let ghost views = result_views(test_results@);
            assert(views[i as int] == views.skip(i as int)[0]);
            assert(before[i as int] == before.skip(i as int)[0]);
            assert(before.take(i + 1).drop_last() =~= before.take(i as int));
            assert(before.take(i + 1).last() == before[i as int]);
            let detail = self.pending_error(test_results[i].name.as_str());
            self.pending_errors.remove(test_results[i].name.as_str());
            assert(self.pending_errors@.map_values(|e: ErrorInfo| e@) =~= pending_after(
                before.take(i as int),
                pending,
            ).remove(before[i as int].name));
            match detail {
                Some(info) => {
                    if test_results[i].error.is_none() {
                        let mut updated = test_results[i].clone();
                        let words = info.format_error();
                        updated.error = Some(Error::test_execution(words.as_str()));
                        test_results.set(i, updated);
                    }
                },
                None => {},
            }
            assert(result_views(test_results@)[i as int] == finalized_result(
                before[i as int],
                pending_after(before.take(i as int), pending),
            ));
            assert(result_views(test_results@).take(i + 1) =~= views.take(i as int).push(
                result_views(test_results@)[i as int],
            ));
            assert(result_views(test_results@).skip(i + 1) =~= views.skip(i as int).skip(1));
            assert(before.skip(i + 1) =~= before.skip(i as int).skip(1));
            i += 1;
        }
        assert(result_views(test_results@).take(i as int) =~= result_views(test_results@));
        assert(before.take(i as int) =~= before);
    }
}

/// What is known of the test that runs now: its name, the name of the test
/// before it, when it began, and the state of the run.
pub struct TestTracker {
    pub current_test_name: Option<String>,
    pub previous_test_name: Option<String>,
    pub test_state: TestRunState,
    /// When the test that runs now began, in milliseconds since the Unix
    /// epoch.
    pub timer: i64,
}

impl TestTracker {
    /// A tracker created at the time `now`, with no test running.
    pub fn new_at(now: i64) -> (r: Self)
        ensures
            r.current_test_name is None,
            r.previous_test_name is None,
            r.timer == now,
            r.test_state@ == (TrackerView {
                tests: Map::empty(),
                pending_errors: Map::empty(),
                current_suite: None,
            }),
    {
        TestTracker {
            current_test_name: None,
            previous_test_name: None,
            timer: now,
            test_state: TestRunState::new(),
        }
    }

    /// A tracker created now, with no test running and an empty run state.
    /// Its timer stands at the clock's time.
    pub fn new() -> (r: Self)
        ensures
            r.current_test_name is None,
            r.previous_test_name is None,
            r.test_state@ == (TrackerView {
                tests: Map::empty(),
                pending_errors: Map::empty(),
                current_suite: None,
            }),
    {
        TestTracker::new_at(now_millis())
    }

    /// Records that the test `test_name` began at the time `now`.
    pub fn start_test_at(&mut self, test_name: String, now: i64)
        ensures
            opt_text(final(self).previous_test_name) == opt_text(old(self).current_test_name),
            final(self).current_test_name == Some(test_name),
            final(self).timer == now,
            final(self).test_state == old(self).test_state,
    {
        self.previous_test_name = clone_opt_string(&self.current_test_name);
        self.current_test_name = Some(test_name);
        self.timer = now;
    }

    /// Records that the test `test_name` began now.
    pub fn start_test(&mut self, test_name: String)
        ensures
            opt_text(final(self).previous_test_name) == opt_text(old(self).current_test_name),
            final(self).current_test_name == Some(test_name),
            final(self).test_state == old(self).test_state,
    {
        self.start_test_at(test_name, now_millis());
    }

    /// Records that the test that ran has ended.
    pub fn end_test(&mut self)
        ensures
            opt_text(final(self).previous_test_name) == opt_text(old(self).current_test_name),
            final(self).current_test_name is None,
            final(self).timer == old(self).timer,
            final(self).test_state == old(self).test_state,
    {
        self.previous_test_name = clone_opt_string(&self.current_test_name);
        self.current_test_name = None;
    }

    /// Records that the test that ran has ended with the error `err`: the
    /// error waits as failure detail for the test's result. Where no test
    /// ran, the error is dropped.
    pub fn end_test_with_error(&mut self, err: String)
        ensures
            opt_text(final(self).previous_test_name) == opt_text(old(self).current_test_name),
            final(self).current_test_name is None,
            final(self).timer == old(self).timer,
            final(self).test_state@ == match old(self).current_test_name {
                Some(test) => old(self).test_state@.after(
                    LineEvent::Panic { message: err@, test: test@, location: None },
                    0,
                ),
                None => old(self).test_state@,
            },
    {
        self.previous_test_name = clone_opt_string(&self.current_test_name);
        let ended = self.current_test_name.take();
        match ended {
            Some(test) => {
                let _ = self.test_state.handle_line_at(
                    TestOutputLine::Panic { message: err, test, location: None },
                    0,
                    new_id(),
                );
            },
            None => {},
        }
    }

    /// The milliseconds from the start of the test that runs now to `now`.
    pub fn elapsed_at(&self, now: i64) -> (r: u64)
        ensures
            r == elapsed_between(self.timer, now),
    {
        elapsed_millis(self.timer, now)
    }

    /// The milliseconds since the start of the test that runs now: the
    /// time between the timer and some moment, which is the present one.
    pub fn elapsed_ms(&self) -> (r: u64)
        ensures
            exists|now: i64| r == #[trigger] elapsed_between(self.timer, now),
    {
        let now = now_millis();
        let r = self.elapsed_at(now);
        assert(r == elapsed_between(self.timer, now));
        r
    }
}

} // verus!
