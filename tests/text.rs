use cargo_test_scripts::{
    Error, TestReport, TestSuite, is_whitespace_char, render, render_with, same_text,
    split_words, trim_end,
};

#[test]
fn trims_trailing_whitespace_only() {
    assert_eq!(trim_end("  a b \n\t\u{3000}"), "  a b");
    assert_eq!(trim_end(""), "");
    assert_eq!(trim_end(" \n"), "");
}

#[test]
fn whitespace_matches_std() {
    for c in ['\t', '\n', ' ', '\u{85}', '\u{a0}', '\u{2003}', '\u{3000}', 'a', '_', '\u{200b}'] {
        assert_eq!(is_whitespace_char(c), c.is_whitespace(), "{c:?}");
    }
}

#[test]
fn splits_on_whitespace_runs() {
    assert_eq!(split_words("sleep 5"), vec!["sleep", "5"]);
    assert_eq!(split_words("  echo   \"a b\"\tc  "), vec!["echo", "\"a", "b\"", "c"]);
    assert!(split_words("   ").is_empty());
    assert!(split_words("").is_empty());
}

#[test]
fn compares_text() {
    assert!(same_text("package", "package"));
    assert!(!same_text("package", "packages"));
    assert!(!same_text("abc", "abd"));
}

#[test]
fn escapes_and_formats_times() {
    let suite = TestSuite { tests: vec![] };
    let mut r = suite.run(vec![], 0, 1_500_000_000);
    r.contents.insert(1, cargo_test_scripts::TestSuiteContent::Testcase(TestReport {
        name: "a<b>&\"c'".to_string(),
        time_nanos: 12_000_000_001,
        result: Some(Error::Error("x & y".to_string())),
    }));
    let xml = render_with(&r, "ts", "h&h");
    assert!(xml.contains("tests=\"1\" time=\"1.500000000\" failures=\"0\" errors=\"1\" hostname=\"h&amp;h\""));
    assert!(xml.contains("name=\"a&lt;b&gt;&amp;&quot;c&apos;\" classname=\"\" time=\"12.000000001\""));
    assert!(xml.contains("<error type=\"script_error\">x &amp; y</error></testcase>"));
}

#[test]
fn renders_utc_timestamp() {
    let suite = TestSuite { tests: vec![] };
    let r = suite.run(vec![], 1_700_000_000, 0);
    let xml = render(&r, "host").unwrap();
    assert!(xml.contains("timestamp=\"2023-11-14T22:13:20\""));
    assert!(xml.contains("tests=\"0\""));
    let last = suite.run(vec![], 253_402_300_799, 0);
    assert!(render(&last, "host").unwrap().contains("timestamp=\"9999-12-31T23:59:59\""));
    let far = suite.run(vec![], i64::MAX, 0);
    assert!(render(&far, "host").is_none());
}
