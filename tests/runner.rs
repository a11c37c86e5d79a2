use cargo_test_scripts::{
    Error, Poll, ProcessEnd, StepAction, TestReport, TestSpec, TestSuite, TestSuiteContent,
    render_with, step_action, step_outcome,
};

fn spec(name: &str, timeout_ms: Option<u64>, script: &[&str]) -> TestSpec {
    TestSpec {
        name: name.to_string(),
        timeout_ms,
        script: script.iter().map(|s| s.to_string()).collect(),
    }
}

fn exited(success: bool, stderr: &str) -> ProcessEnd {
    ProcessEnd::Exited { success, stderr: stderr.to_string() }
}

/// Drives a test through the library's decisions, taking each step's
/// process end from `ends`.
fn drive(t: &TestSpec, ends: &mut Vec<ProcessEnd>, elapsed: u64) -> (TestReport, usize) {
    let mut outcomes: Vec<Result<(), Error>> = Vec::new();
    let mut ran = 0;
    while let Some(i) = t.next_step(&outcomes) {
        assert_eq!(i, outcomes.len());
        ran += 1;
        outcomes.push(step_outcome(ends.remove(0)));
    }
    (t.run(outcomes, elapsed), ran)
}

#[test]
fn empty_script_passes() {
    let t = spec("empty", None, &[]);
    let (report, ran) = drive(&t, &mut vec![], 5);
    assert_eq!(ran, 0);
    assert!(report.result.is_none());
    assert!(!report.failed() && !report.error());
    let suite = TestSuite { tests: vec![t] };
    let r = suite.run(vec![report], 0, 10);
    assert_eq!((r.tests(), r.failures(), r.errors()), (1, 0, 0));
}

#[test]
fn clean_test_leaves_counts() {
    let a = spec("a", None, &["false"]);
    let b = spec("b", None, &["x"]);
    let e = spec("e", None, &[]);
    let ra = drive(&a, &mut vec![exited(false, "")], 0).0;
    let rb = drive(&b, &mut vec![ProcessEnd::SpawnFailed("no x".to_string())], 0).0;
    let re = drive(&e, &mut vec![], 0).0;
    let r2 = TestSuite { tests: vec![a, e, b] }.run(vec![ra, re, rb], 0, 0);
    assert_eq!((r2.tests(), r2.failures(), r2.errors()), (3, 1, 1));
}

#[test]
fn stops_at_first_failing_step() {
    let t = spec("three", None, &["true", "false", "touch sentinel"]);
    let mut ends = vec![exited(true, ""), exited(false, "boom \n"), exited(true, "")];
    let (report, ran) = drive(&t, &mut ends, 42);
    assert_eq!(ran, 2);
    assert_eq!(ends.len(), 1);
    assert_eq!(report.time_nanos, 42);
    assert!(matches!(report.result, Some(Error::Failure(ref m)) if m == "boom"));
}

#[test]
fn zero_exit_with_stderr_passes() {
    assert!(step_outcome(exited(true, "warning: noisy")).is_ok());
    assert!(matches!(
        step_action(Some(1000), 5, Poll::Ended(exited(true, "noise"))),
        StepAction::Done(Ok(()))
    ));
}

#[test]
fn spawn_and_wait_problems_are_errors() {
    assert!(matches!(step_outcome(ProcessEnd::SpawnFailed("No such file\n".to_string())),
        Err(Error::Error(ref m)) if m == "No such file"));
    assert!(matches!(step_outcome(ProcessEnd::WaitFailed("lost\t ".to_string())),
        Err(Error::Error(ref m)) if m == "lost"));
}

#[test]
fn deadline_gives_timeout_error() {
    assert!(matches!(step_action(Some(10), 10_000_000, Poll::Running),
        StepAction::Done(Err(Error::Error(ref m))) if m == "Timed out"));
    assert!(matches!(step_action(Some(10), 9_999_999, Poll::Running), StepAction::Wait));
    assert!(matches!(step_action(None, u64::MAX, Poll::Running), StepAction::Wait));
    assert!(matches!(step_action(Some(10), 20_000_000, Poll::Ended(exited(true, ""))),
        StepAction::Done(Err(Error::Error(_)))));
}

#[test]
fn scenario_ok() {
    let t = spec("ok", None, &["true"]);
    let (report, _) = drive(&t, &mut vec![exited(true, "")], 1_000);
    let suite = TestSuite { tests: vec![t] };
    let r = suite.run(vec![report], 0, 2_000);
    assert_eq!((r.tests(), r.failures(), r.errors()), (1, 0, 0));
    let xml = render_with(&r, "1970-01-01T00:00:00", "host");
    assert_eq!(
        xml,
        "<?xml version=\"1.0\" encoding=\"UTF-8\"?><testsuite name=\"cargo-test-scripts\" \
         timestamp=\"1970-01-01T00:00:00\" tests=\"1\" time=\"0.000002000\" failures=\"0\" \
         errors=\"0\" hostname=\"host\"><properties/><testcase name=\"ok\" classname=\"\" \
         time=\"0.000001000\"/><system-out></system-out><system-err></system-err></testsuite>"
    );
}

#[test]
fn scenario_bad() {
    let t = spec("bad", None, &["false"]);
    let (report, _) = drive(&t, &mut vec![exited(false, "")], 0);
    assert!(report.failed());
    let suite = TestSuite { tests: vec![t] };
    let r = suite.run(vec![report], 0, 0);
    assert_eq!((r.tests(), r.failures(), r.errors()), (1, 1, 0));
    let xml = render_with(&r, "t", "h");
    assert!(xml.contains(
        "<testcase name=\"bad\" classname=\"\" time=\"0.000000000\"><failure type=\"error_code\"></failure></testcase>"
    ));
}

#[test]
fn scenario_slow() {
    let t = spec("slow", Some(10), &["sleep 5"]);
    let mut outcomes: Vec<Result<(), Error>> = Vec::new();
    assert_eq!(t.next_step(&outcomes), Some(0));
    let mut elapsed = 0u64;
    let outcome = loop {
        match step_action(t.timeout_ms, elapsed, Poll::Running) {
            StepAction::Wait => elapsed += 1_000_000,
            StepAction::Done(r) => break r,
        }
    };
    assert_eq!(elapsed, 10_000_000);
    outcomes.push(outcome);
    assert_eq!(t.next_step(&outcomes), None);
    let report = t.run(outcomes, elapsed);
    assert!(report.error());
    let suite = TestSuite { tests: vec![t] };
    let r = suite.run(vec![report], 0, elapsed);
    assert_eq!((r.tests(), r.failures(), r.errors()), (1, 0, 1));
    let xml = render_with(&r, "t", "h");
    assert!(xml.contains("<error type=\"script_error\">Timed out</error>"));
}

#[test]
fn scenario_fail_then_pass() {
    let a = spec("first", None, &["false"]);
    let b = spec("second", None, &["true"]);
    let (ra, _) = drive(&a, &mut vec![exited(false, "nope")], 0);
    let (rb, _) = drive(&b, &mut vec![exited(true, "")], 0);
    let suite = TestSuite { tests: vec![a, b] };
    let r = suite.run(vec![ra, rb], 0, 0);
    assert_eq!((r.tests(), r.failures(), r.errors()), (2, 1, 0));
    assert_eq!(r.contents.len(), 5);
    assert!(matches!(r.contents[0], TestSuiteContent::Properties));
    assert!(matches!(&r.contents[1], TestSuiteContent::Testcase(t) if t.name == "first" && t.failed()));
    assert!(matches!(&r.contents[2], TestSuiteContent::Testcase(t) if t.name == "second" && t.result.is_none()));
    assert!(matches!(&r.contents[3], TestSuiteContent::SystemOut(s) if s.is_empty()));
    assert!(matches!(&r.contents[4], TestSuiteContent::SystemErr(s) if s.is_empty()));
    let xml = render_with(&r, "t", "h");
    let first = xml.find("name=\"first\"").unwrap();
    let second = xml.find("name=\"second\"").unwrap();
    assert!(first < second);
}
