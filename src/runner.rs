//! Decisions of a test run: how a step's process outcome is classified, when
//! a step's deadline has passed, which step runs next, and how the test and
//! suite reports are assembled. The caller spawns and polls the processes and
//! reads the clocks, and hands each observation to these functions.
use vstd::prelude::*;
use crate::laws::law_suite_counts;
use crate::report::{Error, TestReport, TestSuiteContent, TestSuiteReport, testcase_count};
use crate::text::{trim_end, trimmed_end};

verus! {

/// A test: a name, an optional deadline and the command lines to run in order.
pub struct TestSpec {
    pub name: String,
    /// Deadline in milliseconds, measured from the start of the test's first
    /// step; `None` waits indefinitely.
    pub timeout_ms: Option<u64>,
    pub script: Vec<String>,
}

/// The tests of a manifest, in declaration order.
pub struct TestSuite {
    pub tests: Vec<TestSpec>,
}

/// How a step's process came to an end, as observed by the caller.
pub enum ProcessEnd {
    /// The process could not be started; holds the diagnostic.
    SpawnFailed(String),
    /// Waiting on the process failed; holds the diagnostic.
    WaitFailed(String),
    /// The process exited; `success` is whether its status was zero.
    Exited { success: bool, stderr: String },
}

/// One look at a running step.
pub enum Poll {
    Running,
    Ended(ProcessEnd),
}

/// What to do next with a running step.
pub enum StepAction {
    /// Look at the process again.
    Wait,
    /// The step is over, with this outcome.
    Done(Result<(), Error>),
}

/// The message of the error given to a step that outlived its deadline.
pub open spec fn timed_out_message() -> Seq<char> {
    seq!['T', 'i', 'm', 'e', 'd', ' ', 'o', 'u', 't']
}

/// Whether `r` is the outcome of a step whose process ended as `end` says:
/// a zero exit passes whatever the process wrote, a non-zero exit is a
/// failure carrying the trimmed standard error, and a spawn or wait problem
/// is an error carrying the trimmed diagnostic.
pub open spec fn is_step_outcome(end: ProcessEnd, r: Result<(), Error>) -> bool {
    match end {
        ProcessEnd::Exited { success, stderr } => if success {
            r is Ok
        } else {
            r matches Err(Error::Failure(m)) && m@ == trimmed_end(stderr@)
        },
        ProcessEnd::SpawnFailed(d) => r matches Err(Error::Error(m)) && m@ == trimmed_end(d@),
        ProcessEnd::WaitFailed(d) => r matches Err(Error::Error(m)) && m@ == trimmed_end(d@),
    }
}

/// Whether a step with deadline `timeout_ms`, looked at `elapsed_nanos` after
/// its test started, has run out of time.
pub open spec fn past_deadline(timeout_ms: Option<u64>, elapsed_nanos: u64) -> bool {
    match timeout_ms {
        Some(t) => elapsed_nanos >= t * 1_000_000,
        None => false,
    }
}

/// Whether `a` is the action after looking at a step: out of time, the step
/// is an error with the timeout message; otherwise a running process is
/// waited on and an ended one is classified.
pub open spec fn is_step_action(timeout_ms: Option<u64>, elapsed_nanos: u64, poll: Poll, a: StepAction) -> bool {
    if past_deadline(timeout_ms, elapsed_nanos) {
        a matches StepAction::Done(Err(Error::Error(m))) && m@ == timed_out_message()
    } else {
        match poll {
            Poll::Running => a is Wait,
            Poll::Ended(end) => a matches StepAction::Done(r) && is_step_outcome(end, r),
        }
    }
}

/// Whether every outcome in `s` is a pass.
pub open spec fn all_passed(s: Seq<Result<(), Error>>) -> bool {
    forall|i: int| 0 <= i < s.len() ==> (#[trigger] s[i]) is Ok
}

/// The index of the step to run after steps with `outcomes` were run, in a
/// script of `len` steps.
pub open spec fn next_index(len: nat, outcomes: Seq<Result<(), Error>>) -> Option<usize> {
    if outcomes.len() < len && all_passed(outcomes) {
        Some(outcomes.len() as usize)
    } else {
        None
    }
}

/// The first error among `s`, if any.
pub open spec fn first_error(s: Seq<Result<(), Error>>) -> Option<Error>
    decreases s.len(),
{
    if s.len() == 0 {
        None
    } else {
        match s[0] {
            Err(e) => Some(e),
            Ok(_) => first_error(s.drop_first()),
        }
    }
}

/// The outcome of a step whose process ended as `end` says.
pub fn step_outcome(end: ProcessEnd) -> (r: Result<(), Error>)
    ensures
        is_step_outcome(end, r),
{
    match end {
        ProcessEnd::Exited { success, stderr } => if success {
            Ok(())
        } else {
            Err(Error::Failure(trim_end(stderr.as_str())))
        },
        ProcessEnd::SpawnFailed(d) => Err(Error::Error(trim_end(d.as_str()))),
        ProcessEnd::WaitFailed(d) => Err(Error::Error(trim_end(d.as_str()))),
    }
}

/// Whether a step with deadline `timeout_ms` has run out of time
/// `elapsed_nanos` after its test started.
pub fn deadline_passed(timeout_ms: Option<u64>, elapsed_nanos: u64) -> (r: bool)
    ensures
        r == past_deadline(timeout_ms, elapsed_nanos),
{
    match timeout_ms {
        Some(t) => elapsed_nanos as u128 >= t as u128 * 1_000_000,
        None => false,
    }
}

/// What to do after looking at a step `elapsed_nanos` after its test
/// started, the look having found `poll`. The deadline is tested first, as a
/// poll loop that checks the clock before each look does.
pub fn step_action(timeout_ms: Option<u64>, elapsed_nanos: u64, poll: Poll) -> (a: StepAction)
    ensures
        is_step_action(timeout_ms, elapsed_nanos, poll, a),
{
    if deadline_passed(timeout_ms, elapsed_nanos) {
        StepAction::Done(Err(Error::Error(timed_out())))
    } else {
        match poll {
            Poll::Running => StepAction::Wait,
            Poll::Ended(end) => StepAction::Done(step_outcome(end)),
        }
    }
}

fn timed_out() -> (r: String)
    ensures
        r@ == timed_out_message(),
{
    let r = "Timed out".to_owned();
    proof {
        reveal_strlit("Timed out");
    }
    r
}

proof fn lemma_first_error_after_passes(s: Seq<Result<(), Error>>, i: int)
    requires
        0 <= i <= s.len(),
        all_passed(s.subrange(0, i)),
    ensures
        first_error(s) == first_error(s.subrange(i, s.len() as int)),
    decreases i,
{
    if i > 0 {
        assert(s.subrange(0, i)[0] is Ok);
        assert(all_passed(s.drop_first().subrange(0, i - 1))) by {
            assert forall|j: int| 0 <= j < i - 1 implies (#[trigger] s.drop_first().subrange(0, i - 1)[j]) is Ok by {
                assert(s.subrange(0, i)[j + 1] is Ok);
            }
        }
        lemma_first_error_after_passes(s.drop_first(), i - 1);
        assert(s.drop_first().subrange(i - 1, s.len() - 1) == s.subrange(i, s.len() as int));
    } else {
        assert(s.subrange(0, s.len() as int) == s);
    }
}

impl TestSpec {
    /// The index of the step to run next, given the outcomes of the steps run
    /// so far: the next one in order while every step so far has passed,
    /// none once a step has not passed or the script is done.
    pub fn next_step(&self, outcomes: &Vec<Result<(), Error>>) -> (r: Option<usize>)
        ensures
            r == next_index(self.script@.len(), outcomes@),
    {
        if outcomes.len() >= self.script.len() {
            return None;
        }
        let mut i: usize = 0;
        while i < outcomes.len()
            invariant
                i <= outcomes@.len(),
                all_passed(outcomes@.subrange(0, i as int)),
            decreases outcomes@.len() - i,
        {
            if outcomes[i].is_err() {
                return None;
            }
            assert(all_passed(outcomes@.subrange(0, i + 1))) by {
                assert forall|j: int| 0 <= j < i + 1 implies (#[trigger] outcomes@.subrange(0, i + 1)[j]) is Ok by {
                    if j < i {
                        assert(outcomes@.subrange(0, i as int)[j] is Ok);
                    }
                }
            }
            i = i + 1;
        }
        assert(outcomes@.subrange(0, i as int) == outcomes@);
        Some(outcomes.len())
    }

    /// The report of a run of this test whose steps gave `outcomes`, in
    /// order, and which took `elapsed_nanos`: it holds the first error among
    /// the outcomes, or none when all passed.
    pub fn run(&self, outcomes: Vec<Result<(), Error>>, elapsed_nanos: u64) -> (r: TestReport)
        ensures
            r.name@ == self.name@,
            r.time_nanos == elapsed_nanos,
            r.result == first_error(outcomes@),
    {
        let mut steps = outcomes;
        let ghost all = steps@;
        let mut i: usize = 0;
        while i < steps.len()
            invariant
                steps@ == all,
                all == outcomes@,
                i <= all.len(),
                all_passed(all.subrange(0, i as int)),
            decreases all.len() - i,
        {
            if steps[i].is_err() {
                proof {
                    lemma_first_error_after_passes(all, i as int);
                    assert(all.subrange(i as int, all.len() as int)[0] == all[i as int]);
                }
                let result = match steps.remove(i) {
                    Err(e) => Some(e),
                    Ok(_) => None,
                };
                return TestReport { name: self.name.clone(), time_nanos: elapsed_nanos, result };
            }
            assert(all_passed(all.subrange(0, i + 1))) by {
                assert forall|j: int| 0 <= j < i + 1 implies (#[trigger] all.subrange(0, i + 1)[j]) is Ok by {
                    if j < i {
                        assert(all.subrange(0, i as int)[j] is Ok);
                    }
                }
            }
            i = i + 1;
        }
        proof {
            lemma_first_error_after_passes(all, i as int);
        }
        TestReport { name: self.name.clone(), time_nanos: elapsed_nanos, result: None }
    }
}

/// Whether `c` is the contents of a suite report over `reports`: the
/// properties placeholder, one test case per report in order, then an empty
/// system-out and an empty system-err entry.
pub open spec fn is_suite_contents(c: Seq<TestSuiteContent>, reports: Seq<TestReport>) -> bool {
    &&& c.len() == reports.len() + 3
    &&& c[0] is Properties
    &&& forall|k: int| 1 <= k <= reports.len() ==> #[trigger] c[k] == TestSuiteContent::Testcase(reports[k - 1])
    &&& c[reports.len() as int + 1] matches TestSuiteContent::SystemOut(o) && o@.len() == 0
    &&& c[reports.len() as int + 2] matches TestSuiteContent::SystemErr(e) && e@.len() == 0
}

impl TestSuite {
    /// The report of a run of this suite that began at `timestamp` (seconds
    /// since the Unix epoch), took `elapsed_nanos`, and whose tests gave
    /// `reports`, one per test in order.
    pub fn run(&self, reports: Vec<TestReport>, timestamp: i64, elapsed_nanos: u64) -> (r: TestSuiteReport)
        requires
            reports@.len() == self.tests@.len(),
        ensures
            r.timestamp == timestamp,
            r.time_nanos == elapsed_nanos,
            is_suite_contents(r.contents@, reports@),
            testcase_count(r.contents@) == self.tests@.len(),
    {
        let mut left = reports;
        let ghost all = left@;
        let mut contents: Vec<TestSuiteContent> = Vec::new();
        contents.push(TestSuiteContent::Properties);
        while left.len() > 0
            invariant
                all == reports@,
                left@.len() <= all.len(),
                left@ == all.subrange(all.len() - left@.len(), all.len() as int),
                contents@.len() == all.len() - left@.len() + 1,
                contents@[0] is Properties,
                forall|k: int| 0 <= k < all.len() - left@.len() ==> #[trigger] contents@[k + 1] == TestSuiteContent::Testcase(all[k]),
            decreases left@.len(),
        {
            let ghost done = all.len() - left@.len();
            let ghost before = left@;
            assert(before[0] == all[done]);
            let report = left.remove(0);
            contents.push(TestSuiteContent::Testcase(report));
            assert(left@ =~= all.subrange(done + 1, all.len() as int));
        }
        contents.push(TestSuiteContent::SystemOut(String::new()));
        contents.push(TestSuiteContent::SystemErr(String::new()));
        assert forall|k: int| 1 <= k <= reports@.len() implies #[trigger] contents@[k] == TestSuiteContent::Testcase(reports@[k - 1]) by {
            assert(contents@[(k - 1) + 1] == TestSuiteContent::Testcase(all[k - 1]));
        }
        proof {
            law_suite_counts(contents@, reports@);
        }
        TestSuiteReport { timestamp, time_nanos: elapsed_nanos, contents }
    }
}

} // verus!
