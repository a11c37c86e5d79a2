//! The text of the XML report.
//!
//! The report follows the JUnit schema: a `testsuite` element with its
//! counts, timing, timestamp and host name, holding an empty `properties`
//! element, one `testcase` per test, and `system-out` and `system-err`.
use vstd::prelude::*;
use vstd::string::*;
use crate::report::{
    Error, TestReport, TestSuiteContent, TestSuiteReport, error_count, failure_count,
    testcase_count,
};

verus! {

/// The text that stands for `c` in XML character data and attribute values.
pub open spec fn escape_char(c: char) -> Seq<char> {
    if c == '&' {
        "&amp;"@
    } else if c == '<' {
        "&lt;"@
    } else if c == '>' {
        "&gt;"@
    } else if c == '"' {
        "&quot;"@
    } else if c == '\'' {
        "&apos;"@
    } else {
        seq![c]
    }
}

/// `s` with each character escaped.
pub open spec fn escaped(s: Seq<char>) -> Seq<char>
    decreases s.len(),
{
    if s.len() == 0 {
        Seq::empty()
    } else {
        escaped(s.drop_last()) + escape_char(s.last())
    }
}

/// The decimal digit for `d`, which is below ten.
pub open spec fn digit_char(d: nat) -> char {
    if d == 0 { '0' }
    else if d == 1 { '1' }
    else if d == 2 { '2' }
    else if d == 3 { '3' }
    else if d == 4 { '4' }
    else if d == 5 { '5' }
    else if d == 6 { '6' }
    else if d == 7 { '7' }
    else if d == 8 { '8' }
    else { '9' }
}

/// `n` in decimal, without leading zeros.
pub open spec fn decimal(n: nat) -> Seq<char>
    decreases n,
{
    if n < 10 {
        seq![digit_char(n)]
    } else {
        decimal(n / 10).push(digit_char(n % 10))
    }
}

/// The last `width` decimal digits of `n`, with leading zeros.
pub open spec fn fixed_digits(n: nat, width: nat) -> Seq<char>
    decreases width,
{
    if width == 0 {
        Seq::empty()
    } else {
        fixed_digits(n / 10, (width - 1) as nat).push(digit_char(n % 10))
    }
}

/// A duration of `nanos` nanoseconds as seconds with nine decimals.
pub open spec fn seconds_text(nanos: nat) -> Seq<char> {
    decimal(nanos / 1_000_000_000) + "."@ + fixed_digits(nanos % 1_000_000_000, 9)
}

fn digit_str(d: u64) -> (r: &'static str)
    requires
        d < 10,
    ensures
        r@ == seq![digit_char(d as nat)],
{
    proof {
        reveal_strlit("0");
        reveal_strlit("1");
        reveal_strlit("2");
        reveal_strlit("3");
        reveal_strlit("4");
        reveal_strlit("5");
        reveal_strlit("6");
        reveal_strlit("7");
        reveal_strlit("8");
        reveal_strlit("9");
    }
    if d == 0 { "0" }
    else if d == 1 { "1" }
    else if d == 2 { "2" }
    else if d == 3 { "3" }
    else if d == 4 { "4" }
    else if d == 5 { "5" }
    else if d == 6 { "6" }
    else if d == 7 { "7" }
    else if d == 8 { "8" }
    else { "9" }
}

/// Appends `n` in decimal to `out`.
pub fn push_decimal(out: &mut String, n: u64)
    ensures
        final(out)@ == old(out)@ + decimal(n as nat),
    decreases n,
{
    if n >= 10 {
        push_decimal(out, n / 10);
    }
    out.append(digit_str(n % 10));
    assert(final(out)@ =~= old(out)@ + decimal(n as nat));
}

fn push_fixed_digits(out: &mut String, n: u64, width: u64)
    ensures
        final(out)@ == old(out)@ + fixed_digits(n as nat, width as nat),
    decreases width,
{
    if width > 0 {
        push_fixed_digits(out, n / 10, width - 1);
        out.append(digit_str(n % 10));
    }
    assert(final(out)@ =~= old(out)@ + fixed_digits(n as nat, width as nat));
}

/// Appends a duration of `nanos` nanoseconds, as seconds, to `out`.
pub fn push_seconds(out: &mut String, nanos: u64)
    ensures
        final(out)@ == old(out)@ + seconds_text(nanos as nat),
{
    push_decimal(out, nanos / 1_000_000_000);
    out.append(".");
    push_fixed_digits(out, nanos % 1_000_000_000, 9);
    assert(final(out)@ =~= old(out)@ + seconds_text(nanos as nat));
}

/// Appends `s`, escaped, to `out`.
pub fn push_escaped(out: &mut String, s: &str)
    ensures
        final(out)@ == old(out)@ + escaped(s@),
{
    let n = s.unicode_len();
    let mut i: usize = 0;
    assert(s@.subrange(0, 0) =~= Seq::<char>::empty());
    assert(out@ =~= old(out)@ + escaped(s@.subrange(0, 0)));
    while i < n
        invariant
            n == s@.len(),
            i <= n,
            out@ == old(out)@ + escaped(s@.subrange(0, i as int)),
        decreases n - i,
    {
        let c = s.get_char(i);
        let piece: &str = if c == '&' {
            "&amp;"
        } else if c == '<' {
            "&lt;"
        } else if c == '>' {
            "&gt;"
        } else if c == '"' {
            "&quot;"
        } else if c == '\'' {
            "&apos;"
        } else {
            s.substring_char(i, i + 1)
        };
        assert(piece@ == escape_char(c)) by {
            if !(c == '&' || c == '<' || c == '>' || c == '"' || c == '\'') {
                assert(s@.subrange(i as int, i + 1) =~= seq![c]);
            }
        }
        out.append(piece);
        assert(s@.subrange(0, i + 1).drop_last() =~= s@.subrange(0, i as int));
        assert(out@ =~= old(out)@ + escaped(s@.subrange(0, i + 1)));
        i = i + 1;
    }
    assert(s@.subrange(0, n as int) =~= s@);
}

/// The `testcase` element of a test report. A failure becomes a `failure`
/// child of type `error_code`, an error an `error` child of type
/// `script_error`, each holding the message.
pub open spec fn testcase_xml(r: TestReport) -> Seq<char> {
    "<testcase name=\""@ + escaped(r.name@) + "\" classname=\"\" time=\""@
        + seconds_text(r.time_nanos as nat) + match r.result {
        None => "\"/>"@,
        Some(Error::Failure(m)) => "\"><failure type=\"error_code\">"@ + escaped(m@)
            + "</failure></testcase>"@,
        Some(Error::Error(m)) => "\"><error type=\"script_error\">"@ + escaped(m@)
            + "</error></testcase>"@,
    }
}

/// The element of one entry of a suite's contents.
pub open spec fn content_xml(c: TestSuiteContent) -> Seq<char> {
    match c {
        TestSuiteContent::Properties => "<properties/>"@,
        TestSuiteContent::Testcase(r) => testcase_xml(r),
        TestSuiteContent::SystemOut(o) => "<system-out>"@ + escaped(o@) + "</system-out>"@,
        TestSuiteContent::SystemErr(e) => "<system-err>"@ + escaped(e@) + "</system-err>"@,
    }
}

/// The elements of a suite's contents, in order.
pub open spec fn contents_xml(cs: Seq<TestSuiteContent>) -> Seq<char>
    decreases cs.len(),
{
    if cs.len() == 0 {
        Seq::empty()
    } else {
        contents_xml(cs.drop_last()) + content_xml(cs.last())
    }
}

/// The whole report document, given the text of its timestamp and the host
/// name.
pub open spec fn suite_xml(report: TestSuiteReport, timestamp: Seq<char>, hostname: Seq<char>) -> Seq<char> {
    "<?xml version=\"1.0\" encoding=\"UTF-8\"?><testsuite name=\"cargo-test-scripts\" timestamp=\""@
        + escaped(timestamp) + "\" tests=\""@ + decimal(testcase_count(report.contents@))
        + "\" time=\""@ + seconds_text(report.time_nanos as nat) + "\" failures=\""@
        + decimal(failure_count(report.contents@)) + "\" errors=\""@
        + decimal(error_count(report.contents@)) + "\" hostname=\""@ + escaped(hostname) + "\">"@
        + contents_xml(report.contents@) + "</testsuite>"@
}

/// Appends the `testcase` element of `r` to `out`.
pub fn push_testcase(out: &mut String, r: &TestReport)
    ensures
        final(out)@ == old(out)@ + testcase_xml(*r),
{
    out.append("<testcase name=\"");
    push_escaped(out, r.name.as_str());
    out.append("\" classname=\"\" time=\"");
    push_seconds(out, r.time_nanos);
    let ghost mid = out@;
    match &r.result {
        None => out.append("\"/>"),
        Some(Error::Failure(m)) => {
            out.append("\"><failure type=\"error_code\">");
            push_escaped(out, m.as_str());
            out.append("</failure></testcase>");
        },
        Some(Error::Error(m)) => {
            out.append("\"><error type=\"script_error\">");
            push_escaped(out, m.as_str());
            out.append("</error></testcase>");
        },
    }
    assert(final(out)@ =~= old(out)@ + testcase_xml(*r));
}

/// Appends the element of `c` to `out`.
pub fn push_content(out: &mut String, c: &TestSuiteContent)
    ensures
        final(out)@ == old(out)@ + content_xml(*c),
{
    match c {
        TestSuiteContent::Properties => out.append("<properties/>"),
        TestSuiteContent::Testcase(r) => push_testcase(out, r),
        TestSuiteContent::SystemOut(o) => {
            out.append("<system-out>");
            push_escaped(out, o.as_str());
            out.append("</system-out>");
        },
        TestSuiteContent::SystemErr(e) => {
            out.append("<system-err>");
            push_escaped(out, e.as_str());
            out.append("</system-err>");
        },
    }
    assert(final(out)@ =~= old(out)@ + content_xml(*c));
}

/// The report document of `report`, with `timestamp` as the text of its
/// timestamp and `hostname` as the host name.
pub fn render_with(report: &TestSuiteReport, timestamp: &str, hostname: &str) -> (r: String)
    ensures
        r@ == suite_xml(*report, timestamp@, hostname@),
{
    let mut out = String::new();
    out.append("<?xml version=\"1.0\" encoding=\"UTF-8\"?><testsuite name=\"cargo-test-scripts\" timestamp=\"");
    push_escaped(&mut out, timestamp);
    out.append("\" tests=\"");
    push_decimal(&mut out, report.tests() as u64);
    out.append("\" time=\"");
    push_seconds(&mut out, report.time_nanos);
    out.append("\" failures=\"");
    push_decimal(&mut out, report.failures() as u64);
    out.append("\" errors=\"");
    push_decimal(&mut out, report.errors() as u64);
    out.append("\" hostname=\"");
    push_escaped(&mut out, hostname);
    out.append("\">");
    let ghost head = out@;
    let mut i: usize = 0;
    assert(report.contents@.subrange(0, 0) =~= Seq::<TestSuiteContent>::empty());
    assert(out@ =~= head + contents_xml(report.contents@.subrange(0, 0)));
    while i < report.contents.len()
        invariant
            i <= report.contents@.len(),
            out@ == head + contents_xml(report.contents@.subrange(0, i as int)),
        decreases report.contents@.len() - i,
    {
        push_content(&mut out, &report.contents[i]);
        assert(report.contents@.subrange(0, i + 1).drop_last() =~= report.contents@.subrange(0, i as int));
        assert(out@ =~= head + contents_xml(report.contents@.subrange(0, i + 1)));
        i = i + 1;
    }
    assert(report.contents@.subrange(0, i as int) =~= report.contents@);
    out.append("</testsuite>");
    assert(out@ =~= suite_xml(*report, timestamp@, hostname@));
    out
}

/// The last second of the year 9999, counted from the Unix epoch.
pub const LAST_SECOND_OF_9999: i64 = 253_402_300_799;

/// The format of the report's timestamp: UTC, to the second.
pub const TIMESTAMP_FORMAT: &'static str = "%Y-%m-%dT%H:%M:%S";

/// The text that chrono gives for the UTC time `secs` seconds after the Unix
/// epoch, in `TIMESTAMP_FORMAT`.
pub uninterp spec fn utc_timestamp_text(secs: i64) -> Seq<char>;

/// Relies on chrono's `DateTime::<Utc>::from_timestamp` to find the UTC time
/// `secs` seconds after the epoch (`None` when out of chrono's range), and on
/// `DateTime::format` with its `to_string` to write it in `fmt`, which is
/// fixed to `TIMESTAMP_FORMAT`; the text depends on `secs` alone. From the
/// start of 1970 to the end of 9999 the date is in chrono's range and the
/// year has four digits, so the text has 19 characters.
#[verifier::external_body]
fn format_utc(secs: i64, fmt: &str) -> (r: Option<String>)
    requires
        fmt@ == TIMESTAMP_FORMAT@,
    ensures
        r matches Some(t) ==> t@ == utc_timestamp_text(secs),
        0 <= secs <= LAST_SECOND_OF_9999 ==> r is Some,
        r matches Some(t) ==> (0 <= secs <= LAST_SECOND_OF_9999 ==> t@.len() == 19),
{
    match chrono::DateTime::<chrono::Utc>::from_timestamp(secs, 0) {
        Some(dt) => Some(dt.format(fmt).to_string()),
        None => None,
    }
}

/// The report document of `report` on host `hostname`, its timestamp written
/// as chrono writes it in UTC; `None` when the timestamp is out of chrono's
/// range. Any timestamp from the start of 1970 to the end of 9999 is in
/// range.
pub fn render(report: &TestSuiteReport, hostname: &str) -> (r: Option<String>)
    ensures
        r matches Some(x) ==> x@ == suite_xml(*report, utc_timestamp_text(report.timestamp), hostname@),
        0 <= report.timestamp <= LAST_SECOND_OF_9999 ==> r is Some,
        0 <= report.timestamp <= LAST_SECOND_OF_9999 ==> utc_timestamp_text(report.timestamp).len() == 19,
{
    match format_utc(report.timestamp, TIMESTAMP_FORMAT) {
        Some(t) => Some(render_with(report, t.as_str(), hostname)),
        None => None,
    }
}

} // verus!
