//! Properties of a test run that relate several of the library's functions.
use vstd::prelude::*;
use crate::report::{
    Error, TestReport, TestSuiteContent, error_count, failure_count, testcase_count,
};
use crate::runner::{
    Poll, ProcessEnd, StepAction, TestSuite, all_passed, first_error, is_step_action,
    is_step_outcome, is_suite_contents, next_index, past_deadline, timed_out_message,
};

verus! {

/// Number of reports in `rs` whose test failed.
pub open spec fn failed_tests(rs: Seq<TestReport>) -> nat
    decreases rs.len(),
{
    if rs.len() == 0 {
        0
    } else {
        failed_tests(rs.drop_last()) + if rs.last().is_failure() {
            1nat
        } else {
            0nat
        }
    }
}

/// Number of reports in `rs` whose test ended in an error.
pub open spec fn errored_tests(rs: Seq<TestReport>) -> nat
    decreases rs.len(),
{
    if rs.len() == 0 {
        0
    } else {
        errored_tests(rs.drop_last()) + if rs.last().is_error() {
            1nat
        } else {
            0nat
        }
    }
}

/// A test with no steps runs none and passes, and adding its report to a
/// suite changes neither the failure count nor the error count.
pub proof fn law_empty_script_passes(script_len: nat, reports: Seq<TestReport>, r: TestReport)
    requires
        script_len == 0,
        r.result == first_error(Seq::empty()),
    ensures
        next_index(script_len, Seq::empty()) is None,
        r.result is None,
        failed_tests(reports.push(r)) == failed_tests(reports),
        errored_tests(reports.push(r)) == errored_tests(reports),
{
    assert(reports.push(r).drop_last() =~= reports);
}

/// When steps before step `k` passed and step `k` did not, steps `0..=k`
/// were each run in turn, no step after `k` is run, and the test's result is
/// the error of step `k`.
pub proof fn law_stop_at_first_error(script_len: nat, outcomes: Seq<Result<(), Error>>, k: int)
    requires
        0 <= k < script_len,
        outcomes.len() == k + 1,
        all_passed(outcomes.subrange(0, k)),
        outcomes[k] is Err,
    ensures
        forall|j: int| 0 <= j <= k ==> #[trigger] next_index(script_len, outcomes.subrange(0, j)) == Some(j as usize),
        next_index(script_len, outcomes) is None,
        first_error(outcomes) == Some(outcomes[k]->Err_0),
{
    assert forall|j: int| 0 <= j <= k implies #[trigger] next_index(script_len, outcomes.subrange(0, j)) == Some(j as usize) by {
        assert forall|i: int| 0 <= i < j implies (#[trigger] outcomes.subrange(0, j)[i]) is Ok by {
            assert(outcomes.subrange(0, k)[i] is Ok);
        }
    }
    assert(!all_passed(outcomes)) by {
        assert(outcomes[k] is Err);
    }
    lemma_first_error_skips_passes(outcomes, k);
}

proof fn lemma_first_error_skips_passes(s: Seq<Result<(), Error>>, k: int)
    requires
        0 <= k < s.len(),
        all_passed(s.subrange(0, k)),
        s[k] is Err,
    ensures
        first_error(s) == Some(s[k]->Err_0),
    decreases k,
{
    if k > 0 {
        assert(s.subrange(0, k)[0] is Ok);
        assert(all_passed(s.drop_first().subrange(0, k - 1))) by {
            assert forall|j: int| 0 <= j < k - 1 implies (#[trigger] s.drop_first().subrange(0, k - 1)[j]) is Ok by {
                assert(s.subrange(0, k)[j + 1] is Ok);
            }
        }
        lemma_first_error_skips_passes(s.drop_first(), k - 1);
    }
}

proof fn lemma_counts_prefix(c: Seq<TestSuiteContent>, reports: Seq<TestReport>, m: int)
    requires
        is_suite_contents(c, reports),
        0 <= m <= reports.len(),
    ensures
        testcase_count(c.subrange(0, m + 1)) == m,
        failure_count(c.subrange(0, m + 1)) == failed_tests(reports.subrange(0, m)),
        error_count(c.subrange(0, m + 1)) == errored_tests(reports.subrange(0, m)),
    decreases m,
{
    if m == 0 {
        assert(c.subrange(0, 1).drop_last() =~= Seq::<TestSuiteContent>::empty());
        assert(c.subrange(0, 1).last() == c[0]);
        assert(reports.subrange(0, 0) =~= Seq::<TestReport>::empty());
        let x = c.subrange(0, 1);
        assert(testcase_count(x.drop_last()) == 0);
        assert(testcase_count(x) == 0);
        assert(failure_count(x.drop_last()) == 0);
        assert(failure_count(x) == 0);
        assert(error_count(x.drop_last()) == 0);
        assert(error_count(x) == 0);
        assert(failed_tests(reports.subrange(0, 0)) == 0);
        assert(errored_tests(reports.subrange(0, 0)) == 0);
    } else {
        lemma_counts_prefix(c, reports, m - 1);
        assert(c.subrange(0, m + 1).drop_last() =~= c.subrange(0, m));
        assert(c.subrange(0, m + 1).last() == c[m]);
        assert(reports.subrange(0, m).drop_last() =~= reports.subrange(0, m - 1));
        assert(reports.subrange(0, m).last() == reports[m - 1]);
        assert(c[m] == TestSuiteContent::Testcase(reports[m - 1]));
        let x = c.subrange(0, m + 1);
        assert(testcase_count(x) == testcase_count(x.drop_last()) + 1);
        assert(failure_count(x) == failure_count(x.drop_last()) + if reports[m - 1].is_failure() { 1nat } else { 0nat });
        assert(error_count(x) == error_count(x.drop_last()) + if reports[m - 1].is_error() { 1nat } else { 0nat });
        let y = reports.subrange(0, m);
        assert(failed_tests(y) == failed_tests(y.drop_last()) + if reports[m - 1].is_failure() { 1nat } else { 0nat });
        assert(errored_tests(y) == errored_tests(y.drop_last()) + if reports[m - 1].is_error() { 1nat } else { 0nat });
    }
}

/// The counts of a suite report are those of its test reports: one test
/// case per report, and as many failures and errors as the reports hold.
pub proof fn law_suite_counts(c: Seq<TestSuiteContent>, reports: Seq<TestReport>)
    requires
        is_suite_contents(c, reports),
    ensures
        testcase_count(c) == reports.len(),
        failure_count(c) == failed_tests(reports),
        error_count(c) == errored_tests(reports),
{
    let n = reports.len() as int;
    lemma_counts_prefix(c, reports, n);
    assert(reports.subrange(0, n) =~= reports);
    assert(c.subrange(0, n + 2).drop_last() =~= c.subrange(0, n + 1));
    assert(c.subrange(0, n + 2).last() == c[n + 1]);
    assert(c.subrange(0, n + 3).drop_last() =~= c.subrange(0, n + 2));
    assert(c.subrange(0, n + 3).last() == c[n + 2]);
    let x1 = c.subrange(0, n + 2);
    let x2 = c.subrange(0, n + 3);
    assert(testcase_count(x1) == testcase_count(x1.drop_last()));
    assert(testcase_count(x2) == testcase_count(x2.drop_last()));
    assert(failure_count(x1) == failure_count(x1.drop_last()));
    assert(failure_count(x2) == failure_count(x2.drop_last()));
    assert(error_count(x1) == error_count(x1.drop_last()));
    assert(error_count(x2) == error_count(x2.drop_last()));
    assert(c.subrange(0, n + 3) =~= c);
}

/// The test count of a suite's report is the number of its tests, whatever
/// their outcomes.
pub proof fn law_tests_count(suite: TestSuite, reports: Seq<TestReport>, c: Seq<TestSuiteContent>)
    requires
        reports.len() == suite.tests@.len(),
        is_suite_contents(c, reports),
    ensures
        testcase_count(c) == suite.tests@.len(),
{
    law_suite_counts(c, reports);
}

/// Every test case is counted as a failure, as an error, or as neither, and
/// never as both; one whose test has no error is neither.
pub proof fn law_counts_partition(c: Seq<TestSuiteContent>, r: TestReport)
    ensures
        failure_count(c) + error_count(c) <= testcase_count(c),
        !(r.is_failure() && r.is_error()),
        r.result is None ==> !r.is_failure() && !r.is_error(),
    decreases c.len(),
{
    if c.len() > 0 {
        law_counts_partition(c.drop_last(), r);
    }
}

/// A step whose process exits with status zero passes, whatever it wrote
/// to standard error, as long as its deadline has not passed when it is seen
/// to have ended.
pub proof fn law_zero_exit_passes(timeout_ms: Option<u64>, elapsed_nanos: u64, stderr: String, r: Result<(), Error>, a: StepAction)
    ensures
        is_step_outcome(ProcessEnd::Exited { success: true, stderr }, r) ==> r is Ok,
        !past_deadline(timeout_ms, elapsed_nanos) && is_step_action(
            timeout_ms,
            elapsed_nanos,
            Poll::Ended(ProcessEnd::Exited { success: true, stderr }),
            a,
        ) ==> a matches StepAction::Done(Ok(_)),
{
}

/// A step seen running, or ended, once its deadline has passed is an error
/// whose message says that it timed out.
pub proof fn law_deadline_is_timeout(timeout_ms: u64, elapsed_nanos: u64, poll: Poll, a: StepAction)
    requires
        elapsed_nanos >= timeout_ms * 1_000_000,
        is_step_action(Some(timeout_ms), elapsed_nanos, poll, a),
    ensures
        a matches StepAction::Done(Err(Error::Error(m))) && m@ == timed_out_message(),
{
}

/// Adding a test whose report has no error, at any place in a suite, adds
/// one test case and changes neither the failure count nor the error count.
pub proof fn law_clean_test_leaves_counts(
    reports: Seq<TestReport>,
    r: TestReport,
    i: int,
    c: Seq<TestSuiteContent>,
    c2: Seq<TestSuiteContent>,
)
    requires
        r.result is None,
        0 <= i <= reports.len(),
        is_suite_contents(c, reports),
        is_suite_contents(c2, reports.insert(i, r)),
    ensures
        testcase_count(c2) == testcase_count(c) + 1,
        failure_count(c2) == failure_count(c),
        error_count(c2) == error_count(c),
{
    law_suite_counts(c, reports);
    law_suite_counts(c2, reports.insert(i, r));
    lemma_insert_clean(reports, r, i);
}

proof fn lemma_insert_clean(reports: Seq<TestReport>, r: TestReport, i: int)
    requires
        r.result is None,
        0 <= i <= reports.len(),
    ensures
        failed_tests(reports.insert(i, r)) == failed_tests(reports),
        errored_tests(reports.insert(i, r)) == errored_tests(reports),
    decreases reports.len(),
{
    let s = reports.insert(i, r);
    if i == reports.len() {
        assert(s.drop_last() =~= reports);
    } else {
        lemma_insert_clean(reports.drop_last(), r, i);
        assert(s.drop_last() =~= reports.drop_last().insert(i, r));
        assert(s.last() == reports.last());
    }
}

} // verus!
