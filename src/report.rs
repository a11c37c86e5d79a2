//! Test and suite reports, and the counts derived from a suite's contents.
use vstd::prelude::*;

verus! {

/// Why a test did not pass.
pub enum Error {
    /// A step's process ran to completion and exited unsuccessfully; holds the
    /// process's standard error, trailing whitespace trimmed.
    Failure(String),
    /// A step could not be run to completion: the process could not be spawned
    /// or waited on, or it ran past the test's deadline.
    Error(String),
}

/// The outcome and timing of one test's run.
pub struct TestReport {
    /// Name of the test.
    pub name: String,
    /// Wall-clock time of the whole run, in nanoseconds.
    pub time_nanos: u64,
    /// The first error met, or `None` when every step passed.
    pub result: Option<Error>,
}

impl TestReport {
    pub open spec fn is_failure(&self) -> bool {
        self.result matches Some(Error::Failure(_))
    }

    pub open spec fn is_error(&self) -> bool {
        self.result matches Some(Error::Error(_))
    }

    /// Whether the test ended on a step that exited unsuccessfully.
    pub fn failed(&self) -> (r: bool)
        ensures
            r == self.is_failure(),
    {
        match &self.result {
            Some(Error::Failure(_)) => true,
            _ => false,
        }
    }

    /// Whether the test ended on a step that could not be run to completion.
    pub fn error(&self) -> (r: bool)
        ensures
            r == self.is_error(),
    {
        match &self.result {
            Some(Error::Error(_)) => true,
            _ => false,
        }
    }
}

/// One child of the suite report, in the order the report schema expects.
pub enum TestSuiteContent {
    Properties,
    Testcase(TestReport),
    SystemOut(String),
    SystemErr(String),
}

/// Number of test-case entries in `c`.
pub open spec fn testcase_count(c: Seq<TestSuiteContent>) -> nat
    decreases c.len(),
{
    if c.len() == 0 {
        0
    } else {
        testcase_count(c.drop_last()) + if c.last() is Testcase {
            1nat
        } else {
            0nat
        }
    }
}

/// Number of test-case entries in `c` whose test failed.
pub open spec fn failure_count(c: Seq<TestSuiteContent>) -> nat
    decreases c.len(),
{
    if c.len() == 0 {
        0
    } else {
        failure_count(c.drop_last()) + if c.last() is Testcase && c.last()->Testcase_0.is_failure() {
            1nat
        } else {
            0nat
        }
    }
}

/// Number of test-case entries in `c` whose test ended in an error.
pub open spec fn error_count(c: Seq<TestSuiteContent>) -> nat
    decreases c.len(),
{
    if c.len() == 0 {
        0
    } else {
        error_count(c.drop_last()) + if c.last() is Testcase && c.last()->Testcase_0.is_error() {
            1nat
        } else {
            0nat
        }
    }
}

/// The outcome of a whole suite run.
pub struct TestSuiteReport {
    /// When the run began, in whole seconds since the Unix epoch (UTC).
    pub timestamp: i64,
    /// Wall-clock time of the whole run, in nanoseconds.
    pub time_nanos: u64,
    /// Properties placeholder, one test case per test, then empty system-out
    /// and system-err entries.
    pub contents: Vec<TestSuiteContent>,
}

impl TestSuiteReport {
    /// Number of test-case entries.
    pub fn tests(&self) -> (r: usize)
        ensures
            r == testcase_count(self.contents@),
    {
        let mut n: usize = 0;
        let mut i: usize = 0;
        while i < self.contents.len()
            invariant
                i <= self.contents@.len(),
                n <= i,
                n == testcase_count(self.contents@.subrange(0, i as int)),
            decreases self.contents@.len() - i,
        {
            assert(self.contents@.subrange(0, i + 1).drop_last() == self.contents@.subrange(0, i as int));
            match &self.contents[i] {
                TestSuiteContent::Testcase(_) => n = n + 1,
                _ => {},
            }
            i = i + 1;
        }
        assert(self.contents@.subrange(0, i as int) == self.contents@);
        n
    }

    /// Number of test-case entries whose test failed.
    pub fn failures(&self) -> (r: usize)
        ensures
            r == failure_count(self.contents@),
    {
        let mut n: usize = 0;
        let mut i: usize = 0;
        while i < self.contents.len()
            invariant
                i <= self.contents@.len(),
                n <= i,
                n == failure_count(self.contents@.subrange(0, i as int)),
            decreases self.contents@.len() - i,
        {
            assert(self.contents@.subrange(0, i + 1).drop_last() == self.contents@.subrange(0, i as int));
            match &self.contents[i] {
                TestSuiteContent::Testcase(report) => {
                    if report.failed() {
                        n = n + 1;
                    }
                },
                _ => {},
            }
            i = i + 1;
        }
        assert(self.contents@.subrange(0, i as int) == self.contents@);
        n
    }

    /// Number of test-case entries whose test ended in an error.
    pub fn errors(&self) -> (r: usize)
        ensures
            r == error_count(self.contents@),
    {
        let mut n: usize = 0;
        let mut i: usize = 0;
        while i < self.contents.len()
            invariant
                i <= self.contents@.len(),
                n <= i,
                n == error_count(self.contents@.subrange(0, i as int)),
            decreases self.contents@.len() - i,
        {
            assert(self.contents@.subrange(0, i + 1).drop_last() == self.contents@.subrange(0, i as int));
            match &self.contents[i] {
                TestSuiteContent::Testcase(report) => {
                    if report.error() {
                        n = n + 1;
                    }
                },
                _ => {},
            }
            i = i + 1;
        }
        assert(self.contents@.subrange(0, i as int) == self.contents@);
        n
    }
}

} // verus!
