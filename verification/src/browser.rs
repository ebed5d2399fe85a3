//! Evidence of browser tests: reports, browser events and artifacts.

use vstd::prelude::*;
use vstd::utf8::*;

use crate::command_runner::CommandResult;
use crate::json;
use crate::json::Json;
use crate::model;
use crate::paths;
use crate::text;
use crate::wildcards;

verus! {

/// What went wrong in a browser.
#[derive(Debug, Clone, Copy, PartialEq, Eq, Structural)]
pub enum BrowserIssueKind {
    ConsoleError,
    PageException,
    PageCrash,
    FailedRequest,
    AssertionFailure,
}

impl BrowserIssueKind {
    /// The name of the kind.
    pub open spec fn title(self) -> Seq<char> {
        match self {
            BrowserIssueKind::ConsoleError => "ConsoleError"@,
            BrowserIssueKind::PageException => "PageException"@,
            BrowserIssueKind::PageCrash => "PageCrash"@,
            BrowserIssueKind::FailedRequest => "FailedRequest"@,
            BrowserIssueKind::AssertionFailure => "AssertionFailure"@,
        }
    }

    /// The name of the kind.
    pub fn name(self) -> (name: String)
        ensures
            name@ == self.title(),
    {
        match self {
            BrowserIssueKind::ConsoleError => "ConsoleError".to_string(),
            BrowserIssueKind::PageException => "PageException".to_string(),
            BrowserIssueKind::PageCrash => "PageCrash".to_string(),
            BrowserIssueKind::FailedRequest => "FailedRequest".to_string(),
            BrowserIssueKind::AssertionFailure => "AssertionFailure".to_string(),
        }
    }
}

/// Something that went wrong in a browser.
#[derive(Debug)]
pub struct BrowserIssue {
    pub kind: BrowserIssueKind,
    pub message: String,
    pub url: String,
    pub location: String,
    pub ignored: bool,
    pub ignored_by: Option<String>,
}

/// A browser test that was run.
#[derive(Debug)]
pub struct BrowserTest {
    pub name: String,
    pub file: String,
    pub line: u64,
    pub status: String,
}

/// What a run of the browser tests showed.
#[derive(Debug)]
pub struct PlaywrightEvidence {
    pub command_passed: bool,
    pub suites: Vec<String>,
    pub tests: Vec<BrowserTest>,
    pub issues: Vec<BrowserIssue>,
    pub screenshots: Vec<String>,
    pub traces: Vec<String>,
    pub videos: Vec<String>,
}

/// The content of an issue.
pub struct IssueView {
    pub kind: BrowserIssueKind,
    pub message: Seq<char>,
    pub url: Seq<char>,
    pub location: Seq<char>,
    pub ignored: bool,
    pub ignored_by: Option<Seq<char>>,
}

impl View for BrowserIssue {
    type V = IssueView;

    open spec fn view(&self) -> IssueView {
        IssueView {
            kind: self.kind,
            message: self.message@,
            url: self.url@,
            location: self.location@,
            ignored: self.ignored,
            ignored_by: model::view_of(self.ignored_by),
        }
    }
}

/// The content of a test.
pub struct TestView {
    pub name: Seq<char>,
    pub file: Seq<char>,
    pub line: u64,
    pub status: Seq<char>,
}

impl View for BrowserTest {
    type V = TestView;

    open spec fn view(&self) -> TestView {
        TestView { name: self.name@, file: self.file@, line: self.line, status: self.status@ }
    }
}

/// The content of the evidence.
pub struct PlaywrightView {
    pub command_passed: bool,
    pub suites: Seq<Seq<char>>,
    pub tests: Seq<TestView>,
    pub issues: Seq<IssueView>,
    pub screenshots: Seq<Seq<char>>,
    pub traces: Seq<Seq<char>>,
    pub videos: Seq<Seq<char>>,
}

impl View for PlaywrightEvidence {
    type V = PlaywrightView;

    open spec fn view(&self) -> PlaywrightView {
        PlaywrightView {
            command_passed: self.command_passed,
            suites: text::texts(self.suites@),
            tests: model::views(self.tests@),
            issues: model::views(self.issues@),
            screenshots: text::texts(self.screenshots@),
            traces: text::texts(self.traces@),
            videos: text::texts(self.videos@),
        }
    }
}

// ---------------------------------------------------------------------------
// Reports
// ---------------------------------------------------------------------------

/// What a report adds to the evidence.
pub struct Found {
    pub suites: Seq<Seq<char>>,
    pub tests: Seq<TestView>,
    pub issues: Seq<IssueView>,
}

impl Found {
    /// Nothing.
    pub open spec fn nothing() -> Found {
        Found { suites: Seq::empty(), tests: Seq::empty(), issues: Seq::empty() }
    }

    /// This, then more.
    pub open spec fn plus(self, more: Found) -> Found {
        Found { suites: self.suites + more.suites, tests: self.tests + more.tests, issues: self.issues + more.issues }
    }
}

impl PlaywrightView {
    /// The evidence with what a report adds.
    pub open spec fn with(self, found: Found) -> PlaywrightView {
        PlaywrightView {
            suites: self.suites + found.suites,
            tests: self.tests + found.tests,
            issues: self.issues + found.issues,
            ..self
        }
    }
}

/// The first of several: the item of a list at position zero, or the member of an object with that
/// name.
pub open spec fn at_zero(value: Json) -> Option<Json> {
    match value {
        Json::List(items) => if items@.len() > 0 {
            Some(items@[0])
        } else {
            None
        },
        _ => value.member("0"@),
    }
}

/// The status of a test: its own, else that of its first result.
pub open spec fn test_status(test: Json) -> Seq<char> {
    match test.member_string("status"@) {
        Some(status) => status,
        None => match test.member("results"@) {
            None => "unknown"@,
            Some(results) => match at_zero(results) {
                None => "unknown"@,
                Some(first) => match first.member_string("status"@) {
                    Some(status) => status,
                    None => "unknown"@,
                },
            },
        },
    }
}

/// Whether a status is no failure.
pub open spec fn harmless(status: Seq<char>) -> bool {
    status == "expected"@ || status == "passed"@ || status == "skipped"@
}

/// What a test of a specification shows.
pub open spec fn found_in_test(title: Seq<char>, file: Seq<char>, line: u64, test: Json) -> Found {
    let status = test_status(test);
    Found {
        suites: Seq::empty(),
        tests: seq![TestView { name: title, file, line, status }],
        issues: if harmless(status) {
            Seq::empty()
        } else {
            seq![
                IssueView {
                    kind: BrowserIssueKind::AssertionFailure,
                    message: title + ": "@ + status,
                    url: Seq::empty(),
                    location: file + ":"@ + text::digits(line as nat),
                    ignored: false,
                    ignored_by: None,
                },
            ]
        },
    }
}

/// What tests of a specification show.
pub open spec fn found_in_tests(title: Seq<char>, file: Seq<char>, line: u64, tests: Seq<Json>) -> Found
    decreases tests.len(),
{
    if tests.len() == 0 {
        Found::nothing()
    } else {
        found_in_tests(title, file, line, tests.drop_last()).plus(found_in_test(title, file, line, tests.last()))
    }
}

/// The title of a specification.
pub open spec fn spec_title(item: Json) -> Seq<char> {
    match item.member_string("title"@) {
        Some(title) => title,
        None => "unnamed Playwright test"@,
    }
}

/// The file of a specification.
pub open spec fn spec_file(item: Json) -> Seq<char> {
    match item.member_string("file"@) {
        Some(file) => file,
        None => Seq::empty(),
    }
}

/// The line of a specification.
pub open spec fn spec_line(item: Json) -> u64 {
    match item.member("line"@) {
        Some(value) => match value.number() {
            Some(line) => line,
            None => 0,
        },
        None => 0,
    }
}

/// What a specification shows.
pub open spec fn found_in_spec(item: Json) -> Found {
    found_in_tests(spec_title(item), spec_file(item), spec_line(item), item.member_items("tests"@))
}

/// What specifications show.
pub open spec fn found_in_specs(items: Seq<Json>) -> Found
    decreases items.len(),
{
    if items.len() == 0 {
        Found::nothing()
    } else {
        found_in_specs(items.drop_last()).plus(found_in_spec(items.last()))
    }
}

/// What a suite shows, without the suites in it.
pub open spec fn found_in_suite(suite: Json) -> Found {
    let titled = match suite.member_string("title"@) {
        Some(title) => if title.len() > 0 {
            seq![title]
        } else {
            Seq::empty()
        },
        None => Seq::empty(),
    };
    (Found { suites: titled, tests: Seq::empty(), issues: Seq::empty() }).plus(
        found_in_specs(suite.member_items("specs"@)),
    )
}

/// What the first `n` suites of a value show, each followed by the suites in it.
pub open spec fn found_in_suites(value: Json, n: nat) -> Found
    decreases value, n,
{
    let suites = value.member_items("suites"@);
    if n == 0 || n > suites.len() {
        Found::nothing()
    } else {
        let suite = suites[n - 1];
        proof {
            json::items_are_below(value, "suites"@, n - 1);
        }
        found_in_suites(value, (n - 1) as nat).plus(found_in_suite(suite)).plus(
            found_in_suites(suite, suite.member_items("suites"@).len()),
        )
    }
}

/// What a report shows.
pub open spec fn found_in_report(report: Json) -> Found {
    found_in_suites(report, report.member_items("suites"@).len())
}

fn status_of(test: &Json) -> (status: String)
    ensures
        status@ == test_status(*test),
{
    if let Some(status) = test.get_str("status") {
        return status.to_string();
    }
    let results = match test.get("results") {
        Some(results) => results,
        None => {
            return "unknown".to_string();
        },
    };
    let first = match results {
        Json::List(items) => if items.len() > 0 {
            Some(&items[0])
        } else {
            None
        },
        _ => results.get("0"),
    };
    match first {
        Some(first) => match first.get_str("status") {
            Some(status) => status.to_string(),
            None => "unknown".to_string(),
        },
        None => "unknown".to_string(),
    }
}

impl PlaywrightEvidence {
    fn push_issue(&mut self, issue: BrowserIssue)
        ensures
            final(self)@ == (PlaywrightView { issues: old(self)@.issues.push(issue@), ..old(self)@ }),
    {
        let ghost before = self.issues@;
        self.issues.push(issue);
        assert(model::views(self.issues@) =~= model::views(before).push(issue@));
    }

    fn push_test(&mut self, test: BrowserTest)
        ensures
            final(self)@ == (PlaywrightView { tests: old(self)@.tests.push(test@), ..old(self)@ }),
    {
        let ghost before = self.tests@;
        self.tests.push(test);
        assert(model::views(self.tests@) =~= model::views(before).push(test@));
    }
}

fn collect_test(title: &str, file: &str, line: u64, test: &Json, evidence: &mut PlaywrightEvidence)
    ensures
        final(evidence)@ == old(evidence)@.with(found_in_test(title@, file@, line, *test)),
{
    let ghost start = evidence@;
    let status = status_of(test);
    let fine = text::same(status.as_str(), "expected") || text::same(status.as_str(), "passed") || text::same(
        status.as_str(),
        "skipped",
    );
    evidence.push_test(
        BrowserTest { name: title.to_string(), file: file.to_string(), line, status: status.clone() },
    );
    if !fine {
        evidence.push_issue(
            BrowserIssue {
                kind: BrowserIssueKind::AssertionFailure,
                message: title.to_string().concat(": ").concat(status.as_str()),
                url: String::new(),
                location: file.to_string().concat(":").concat(text::decimal(line).as_str()),
                ignored: false,
                ignored_by: None,
            },
        );
    }
    proof {
        let wanted = start.with(found_in_test(title@, file@, line, *test));
        assert(evidence@.suites =~= wanted.suites);
        assert(evidence@.tests =~= wanted.tests);
        assert(evidence@.issues =~= wanted.issues);
    }
}

proof fn plus_nothing(start: PlaywrightView)
    ensures
        start.with(Found::nothing()) == start,
{
    assert(start.with(Found::nothing()).suites =~= start.suites);
    assert(start.with(Found::nothing()).tests =~= start.tests);
    assert(start.with(Found::nothing()).issues =~= start.issues);
}

proof fn plus_more(start: PlaywrightView, first: Found, second: Found)
    ensures
        start.with(first).with(second) == start.with(first.plus(second)),
{
    let left = start.with(first).with(second);
    let right = start.with(first.plus(second));
    assert(left.suites =~= right.suites);
    assert(left.tests =~= right.tests);
    assert(left.issues =~= right.issues);
}

fn collect_spec(item: &Json, evidence: &mut PlaywrightEvidence)
    ensures
        final(evidence)@ == old(evidence)@.with(found_in_spec(*item)),
{
    let ghost start = evidence@;
    let title = match item.get_str("title") {
        Some(title) => title.to_string(),
        None => "unnamed Playwright test".to_string(),
    };
    let file = match item.get_str("file") {
        Some(file) => file.to_string(),
        None => String::new(),
    };
    let line: u64 = match item.get_number("line") {
        Some(line) => line,
        None => 0,
    };
    proof {
        plus_nothing(start);
    }
    if let Some(tests) = item.get_items("tests") {
        let mut at: usize = 0;
        assert(tests@.take(0) =~= Seq::<Json>::empty());
        while at < tests.len()
            invariant
                at <= tests@.len(),
                evidence@ == start.with(found_in_tests(title@, file@, line, tests@.take(at as int))),
            decreases tests@.len() - at,
        {
            proof {
                let next = tests@.take(at + 1);
                assert(next.drop_last() =~= tests@.take(at as int));
                assert(next.last() == tests@[at as int]);
                plus_more(
                    start,
                    found_in_tests(title@, file@, line, tests@.take(at as int)),
                    found_in_test(title@, file@, line, tests@[at as int]),
                );
            }
            collect_test(title.as_str(), file.as_str(), line, &tests[at], evidence);
            at = at + 1;
        }
        assert(tests@.take(at as int) =~= tests@);
    }
}

fn collect_own(suite: &Json, evidence: &mut PlaywrightEvidence)
    ensures
        final(evidence)@ == old(evidence)@.with(found_in_suite(*suite)),
{
    let ghost start = evidence@;
    if let Some(title) = suite.get_str("title") {
        if !title.is_empty() {
            let ghost before = evidence.suites@;
            let name = title.to_string();
            evidence.suites.push(name);
            assert(text::texts(evidence.suites@) =~= text::texts(before).push(title@));
        }
    }
    let ghost titled = match suite.member_string("title"@) {
        Some(title) => if title.len() > 0 {
            seq![title]
        } else {
            Seq::empty()
        },
        None => Seq::empty(),
    };
    let ghost named = Found { suites: titled, tests: Seq::empty(), issues: Seq::empty() };
    proof {
        assert(evidence@.suites =~= start.with(named).suites);
        assert(evidence@.tests =~= start.with(named).tests);
        assert(evidence@.issues =~= start.with(named).issues);
        plus_nothing(start.with(named));
    }
    if let Some(items) = suite.get_items("specs") {
        let mut at: usize = 0;
        assert(items@.take(0) =~= Seq::<Json>::empty());
        while at < items.len()
            invariant
                at <= items@.len(),
                evidence@ == start.with(named).with(found_in_specs(items@.take(at as int))),
            decreases items@.len() - at,
        {
            proof {
                let next = items@.take(at + 1);
                assert(next.drop_last() =~= items@.take(at as int));
                assert(next.last() == items@[at as int]);
                plus_more(start.with(named), found_in_specs(items@.take(at as int)), found_in_spec(items@[at as int]));
            }
            collect_spec(&items[at], evidence);
            at = at + 1;
        }
        assert(items@.take(at as int) =~= items@);
    }
    proof {
        plus_more(start, named, found_in_specs(suite.member_items("specs"@)));
    }
}

/// Adds what the suites of a value show, each followed by the suites in it.
pub fn collect_suite(value: &Json, evidence: &mut PlaywrightEvidence)
    ensures
        final(evidence)@ == old(evidence)@.with(found_in_report(*value)),
    decreases *value,
{
    let ghost start = evidence@;
    proof {
        plus_nothing(start);
    }
    if let Some(suites) = value.get_items("suites") {
        let mut at: usize = 0;
        while at < suites.len()
            invariant
                at <= suites@.len(),
                suites@ == value.member_items("suites"@),
                evidence@ == start.with(found_in_suites(*value, at as nat)),
            decreases suites@.len() - at,
        {
            let suite = &suites[at];
            proof {
                json::items_are_below(*value, "suites"@, at as int);
                let before = found_in_suites(*value, at as nat);
                plus_more(start, before, found_in_suite(*suite));
                plus_more(start, before.plus(found_in_suite(*suite)), found_in_report(*suite));
            }
            collect_own(suite, evidence);
            collect_suite(suite, evidence);
            at = at + 1;
        }
    }
}

/// Whether a document is a report.
pub open spec fn is_report(document: Json) -> bool {
    document.member("suites"@) is Some || document.member("config"@) is Some || document.member("stats"@) is Some
}

/// The first line that is a report, where there is one.
pub open spec fn report_line(lines: Seq<Seq<char>>) -> Option<Json>
    decreases lines.len(),
{
    if lines.len() == 0 {
        None
    } else {
        match json::json_document(lines.first()) {
            Some(document) => if is_report(document) {
                Some(document)
            } else {
                report_line(lines.drop_first())
            },
            None => report_line(lines.drop_first()),
        }
    }
}

/// The report in an output: its first line that is one, else the whole of it.
pub open spec fn report_of(output: Seq<char>) -> Option<Json> {
    match report_line(text::lines_of(output)) {
        Some(document) => Some(document),
        None => json::json_document(output),
    }
}

/// The report in the output: its first line that is one, else the whole of it.
pub fn parse_json_report(output: &str) -> (report: Option<Json>)
    ensures
        report == report_of(output@),
{
    let lines = text::lines(output);
    let ghost all = text::texts(lines@);
    let mut at: usize = 0;
    assert(all.skip(0) =~= all);
    while at < lines.len()
        invariant
            at <= lines@.len(),
            all == text::texts(lines@),
            all == text::lines_of(output@),
            report_line(all) == report_line(all.skip(at as int)),
        decreases lines@.len() - at,
    {
        assert(all.skip(at as int).first() == lines@[at as int]@);
        assert(all.skip(at as int).drop_first() =~= all.skip(at + 1));
        if let Some(document) = json::parse(lines[at].as_str()) {
            if document.get("suites").is_some() || document.get("config").is_some() || document.get("stats").is_some() {
                return Some(document);
            }
        }
        at = at + 1;
    }
    json::parse(output)
}

// ---------------------------------------------------------------------------
// Browser events
// ---------------------------------------------------------------------------

/// Why the evidence cannot be collected.
#[derive(Debug)]
pub enum BrowserError {
    MalformedEvent(String),
}

impl BrowserError {
    /// The message of the error.
    pub open spec fn text(self) -> Seq<char> {
        match self {
            BrowserError::MalformedEvent(path) => "malformed browser event in "@ + path@,
        }
    }

    /// The message of the error.
    pub fn message(&self) -> (message: String)
        ensures
            message@ == self.text(),
    {
        match self {
            BrowserError::MalformedEvent(path) => "malformed browser event in ".to_string().concat(path.as_str()),
        }
    }
}

/// The kind of issue that an event reports, where it reports one.
pub open spec fn event_kind(event: Json) -> Option<BrowserIssueKind> {
    match event.member_string("kind"@) {
        None => None,
        Some(kind) => if kind == "console_error"@ {
            Some(BrowserIssueKind::ConsoleError)
        } else if kind == "page_exception"@ {
            Some(BrowserIssueKind::PageException)
        } else if kind == "page_crash"@ {
            Some(BrowserIssueKind::PageCrash)
        } else if kind == "failed_request"@ {
            Some(BrowserIssueKind::FailedRequest)
        } else if kind == "assertion_failure"@ {
            Some(BrowserIssueKind::AssertionFailure)
        } else {
            None
        },
    }
}

/// The text of a member, or the given one where it has none.
pub open spec fn string_or(value: Json, key: Seq<char>, otherwise: Seq<char>) -> Seq<char> {
    match value.member_string(key) {
        Some(string) => string,
        None => otherwise,
    }
}

/// The first pattern that the message matches, where one does.
pub open spec fn ignoring(patterns: Seq<Seq<char>>, message: Seq<char>) -> Option<Seq<char>>
    decreases patterns.len(),
{
    if patterns.len() == 0 {
        None
    } else if wildcards::accepted(encode_utf8(patterns.first()), encode_utf8(message)) {
        Some(patterns.first())
    } else {
        ignoring(patterns.drop_first(), message)
    }
}

/// The issue that an event reports. Only errors on the console can be ignored.
pub open spec fn event_issue(kind: BrowserIssueKind, event: Json, patterns: Seq<Seq<char>>) -> IssueView {
    let message = string_or(event, "message"@, "browser issue"@);
    let ignored_by = if kind is ConsoleError {
        ignoring(patterns, message)
    } else {
        None
    };
    IssueView {
        kind,
        message,
        url: string_or(event, "url"@, Seq::empty()),
        location: string_or(event, "location"@, Seq::empty()),
        ignored: ignored_by is Some,
        ignored_by,
    }
}

/// The issues that lines of events report, or nothing where a line is no document. Blank lines and
/// other events are passed over.
pub open spec fn event_issues(lines: Seq<Seq<char>>, patterns: Seq<Seq<char>>) -> Option<Seq<IssueView>>
    decreases lines.len(),
{
    if lines.len() == 0 {
        Some(Seq::empty())
    } else {
        match event_issues(lines.drop_last(), patterns) {
            None => None,
            Some(before) => if text::blank(lines.last()) {
                Some(before)
            } else {
                match json::json_document(lines.last()) {
                    None => None,
                    Some(event) => match event_kind(event) {
                        None => Some(before),
                        Some(kind) => Some(before.push(event_issue(kind, event, patterns))),
                    },
                }
            },
        }
    }
}

proof fn a_malformed_line_spoils_all(lines: Seq<Seq<char>>, patterns: Seq<Seq<char>>, k: int)
    requires
        0 <= k <= lines.len(),
        event_issues(lines.take(k), patterns) is None,
    ensures
        event_issues(lines, patterns) is None,
    decreases lines.len() - k,
{
    if k == lines.len() {
        assert(lines.take(k) =~= lines);
    } else {
        assert(lines.take(k + 1).drop_last() =~= lines.take(k));
        a_malformed_line_spoils_all(lines, patterns, k + 1);
    }
}

fn kind_of_event(event: &Json) -> (kind: Option<BrowserIssueKind>)
    ensures
        kind == event_kind(*event),
{
    let name = match event.get_str("kind") {
        Some(name) => name,
        None => {
            return None;
        },
    };
    if text::same(name, "console_error") {
        Some(BrowserIssueKind::ConsoleError)
    } else if text::same(name, "page_exception") {
        Some(BrowserIssueKind::PageException)
    } else if text::same(name, "page_crash") {
        Some(BrowserIssueKind::PageCrash)
    } else if text::same(name, "failed_request") {
        Some(BrowserIssueKind::FailedRequest)
    } else if text::same(name, "assertion_failure") {
        Some(BrowserIssueKind::AssertionFailure)
    } else {
        None
    }
}

fn member_or(value: &Json, key: &str, otherwise: &str) -> (result: String)
    ensures
        result@ == string_or(*value, key@, otherwise@),
{
    match value.get_str(key) {
        Some(string) => string.to_string(),
        None => otherwise.to_string(),
    }
}

fn ignoring_pattern(patterns: &Vec<String>, message: &str) -> (found: Option<String>)
    ensures
        model::view_of(found) == ignoring(text::texts(patterns@), message@),
{
    let ghost all = text::texts(patterns@);
    let mut at: usize = 0;
    assert(all.skip(0) =~= all);
    while at < patterns.len()
        invariant
            at <= patterns@.len(),
            all == text::texts(patterns@),
            ignoring(all, message@) == ignoring(all.skip(at as int), message@),
        decreases patterns@.len() - at,
    {
        assert(all.skip(at as int).first() == patterns@[at as int]@);
        assert(all.skip(at as int).drop_first() =~= all.skip(at + 1));
        if wildcards::wildcard_match(patterns[at].as_str(), message) {
            return Some(patterns[at].clone());
        }
        at = at + 1;
    }
    None
}

fn issue_of_event(kind: BrowserIssueKind, event: &Json, patterns: &Vec<String>) -> (issue: BrowserIssue)
    ensures
        issue@ == event_issue(kind, *event, text::texts(patterns@)),
{
    let message = member_or(event, "message", "browser issue");
    let ignored_by = if kind == BrowserIssueKind::ConsoleError {
        ignoring_pattern(patterns, message.as_str())
    } else {
        None
    };
    proof {
        reveal_strlit("");
        assert(""@ =~= Seq::empty());
    }
    BrowserIssue {
        kind,
        message,
        url: member_or(event, "url", ""),
        location: member_or(event, "location", ""),
        ignored: ignored_by.is_some(),
        ignored_by,
    }
}

/// Adds the issues that the events in a file report.
pub fn collect_browser_events(path: &str, contents: &str, patterns: &Vec<String>, evidence: &mut PlaywrightEvidence) -> (result: Result<
    (),
    BrowserError,
>)
    ensures
        match event_issues(text::lines_of(contents@), text::texts(patterns@)) {
            Some(issues) => result is Ok && final(evidence)@ == (PlaywrightView {
                issues: old(evidence)@.issues + issues,
                ..old(evidence)@
            }),
            None => result is Err && result->Err_0.text() == "malformed browser event in "@ + path@,
        },
{
    let lines = text::lines(contents);
    let ghost all = text::texts(lines@);
    let ghost wanted = text::texts(patterns@);
    let ghost start = evidence@;
    let mut at: usize = 0;
    assert(all.take(0) =~= Seq::<Seq<char>>::empty());
    assert(start.issues + Seq::empty() =~= start.issues);
    while at < lines.len()
        invariant
            at <= lines@.len(),
            all == text::texts(lines@),
            all == text::lines_of(contents@),
            wanted == text::texts(patterns@),
            event_issues(all.take(at as int), wanted) is Some,
            evidence@ == (PlaywrightView {
                issues: start.issues + event_issues(all.take(at as int), wanted)->0,
                ..start
            }),
        decreases lines@.len() - at,
    {
        let ghost next = all.take(at + 1);
        assert(next.drop_last() =~= all.take(at as int));
        assert(next.last() == lines@[at as int]@);
        if !text::is_blank(lines[at].as_str()) {
            let event = match json::parse(lines[at].as_str()) {
                Some(event) => event,
                None => {
                    proof {
                        a_malformed_line_spoils_all(all, wanted, at + 1);
                    }
                    return Err(BrowserError::MalformedEvent(path.to_string()));
                },
            };
            if let Some(kind) = kind_of_event(&event) {
                let ghost before = evidence@;
                evidence.push_issue(issue_of_event(kind, &event, patterns));
                assert(evidence@.issues =~= start.issues + event_issues(next, wanted)->0);
            }
        }
        at = at + 1;
    }
    assert(all.take(at as int) =~= all);
    Ok(())
}

// ---------------------------------------------------------------------------
// Artifacts
// ---------------------------------------------------------------------------

/// What a file in the artifacts is.
#[derive(Debug, Clone, Copy, PartialEq, Eq, Structural)]
pub enum ArtifactKind {
    Screenshot,
    Video,
    Trace,
    Other,
}

/// What the file at a path is, by its name.
pub open spec fn artifact_kind(path: Seq<char>) -> ArtifactKind {
    match paths::extension_of(path) {
        None => ArtifactKind::Other,
        Some(extension) => if extension == "png"@ {
            ArtifactKind::Screenshot
        } else if extension == "webm"@ || extension == "mp4"@ {
            ArtifactKind::Video
        } else if extension == "zip"@ && paths::name_of(path) == Some("trace.zip"@) {
            ArtifactKind::Trace
        } else {
            ArtifactKind::Other
        },
    }
}

/// The paths of a list that are of the kind.
pub open spec fn of_kind(list: Seq<Seq<char>>, kind: ArtifactKind) -> Seq<Seq<char>>
    decreases list.len(),
{
    if list.len() == 0 {
        Seq::empty()
    } else if artifact_kind(list.last()) == kind {
        of_kind(list.drop_last(), kind).push(list.last())
    } else {
        of_kind(list.drop_last(), kind)
    }
}

/// What the file at the path is, by its name.
pub fn classify_artifact(path: &str) -> (kind: ArtifactKind)
    ensures
        kind == artifact_kind(path@),
{
    let extension = match paths::extension(path) {
        Some(extension) => extension,
        None => {
            return ArtifactKind::Other;
        },
    };
    if text::same(extension.as_str(), "png") {
        return ArtifactKind::Screenshot;
    }
    if text::same(extension.as_str(), "webm") || text::same(extension.as_str(), "mp4") {
        return ArtifactKind::Video;
    }
    if text::same(extension.as_str(), "zip") {
        if let Some(name) = paths::file_name(path) {
            if text::same(name.as_str(), "trace.zip") {
                return ArtifactKind::Trace;
            }
        }
    }
    ArtifactKind::Other
}

fn add_text(list: &mut Vec<String>, item: &String)
    ensures
        text::texts(final(list)@) == text::texts(old(list)@).push(item@),
{
    let ghost before = list@;
    list.push(item.clone());
    assert(text::texts(list@) =~= text::texts(before).push(item@));
}

/// Adds the artifacts at the given paths.
pub fn collect_artifacts(files: &Vec<String>, evidence: &mut PlaywrightEvidence)
    ensures
        final(evidence)@ == (PlaywrightView {
            screenshots: old(evidence)@.screenshots + of_kind(text::texts(files@), ArtifactKind::Screenshot),
            traces: old(evidence)@.traces + of_kind(text::texts(files@), ArtifactKind::Trace),
            videos: old(evidence)@.videos + of_kind(text::texts(files@), ArtifactKind::Video),
            ..old(evidence)@
        }),
{
    let ghost all = text::texts(files@);
    let ghost start = evidence@;
    let mut at: usize = 0;
    assert(all.take(0) =~= Seq::<Seq<char>>::empty());
    assert(start.screenshots + of_kind(all.take(0), ArtifactKind::Screenshot) =~= start.screenshots);
    assert(start.traces + of_kind(all.take(0), ArtifactKind::Trace) =~= start.traces);
    assert(start.videos + of_kind(all.take(0), ArtifactKind::Video) =~= start.videos);
    while at < files.len()
        invariant
            at <= files@.len(),
            all == text::texts(files@),
            evidence@ == (PlaywrightView {
                screenshots: start.screenshots + of_kind(all.take(at as int), ArtifactKind::Screenshot),
                traces: start.traces + of_kind(all.take(at as int), ArtifactKind::Trace),
                videos: start.videos + of_kind(all.take(at as int), ArtifactKind::Video),
                ..start
            }),
        decreases files@.len() - at,
    {
        let ghost next = all.take(at + 1);
        assert(next.drop_last() =~= all.take(at as int));
        assert(next.last() == files@[at as int]@);
        match classify_artifact(files[at].as_str()) {
            ArtifactKind::Screenshot => {
                add_text(&mut evidence.screenshots, &files[at]);
                assert(evidence@.screenshots =~= start.screenshots + of_kind(next, ArtifactKind::Screenshot));
            },
            ArtifactKind::Video => {
                add_text(&mut evidence.videos, &files[at]);
                assert(evidence@.videos =~= start.videos + of_kind(next, ArtifactKind::Video));
            },
            ArtifactKind::Trace => {
                add_text(&mut evidence.traces, &files[at]);
                assert(evidence@.traces =~= start.traces + of_kind(next, ArtifactKind::Trace));
            },
            ArtifactKind::Other => {},
        }
        at = at + 1;
    }
    assert(all.take(at as int) =~= all);
}

// ---------------------------------------------------------------------------
// All evidence
// ---------------------------------------------------------------------------

/// Whether some issue is a failed assertion.
pub open spec fn asserts(issues: Seq<IssueView>) -> bool {
    exists|i: int| 0 <= i < issues.len() && (#[trigger] issues[i]).kind is AssertionFailure
}

/// The issue of a command that failed without a failed assertion in its report.
pub open spec fn unexplained(stderr: Seq<char>) -> IssueView {
    IssueView {
        kind: BrowserIssueKind::AssertionFailure,
        message: if text::blank(stderr) {
            "Playwright command failed"@
        } else {
            stderr
        },
        url: Seq::empty(),
        location: Seq::empty(),
        ignored: false,
        ignored_by: None,
    }
}

/// What a run of the browser tests showed, from its command, the issues of the browser events and
/// the artifacts.
pub open spec fn collected(process: CommandResult, events: Seq<IssueView>, files: Seq<Seq<char>>) -> PlaywrightView {
    let report = match report_of(process.stdout@) {
        Some(document) => found_in_report(document),
        None => Found::nothing(),
    };
    let issues = report.issues + events;
    PlaywrightView {
        command_passed: process.succeeded(),
        suites: report.suites,
        tests: report.tests,
        issues: if !process.succeeded() && !asserts(issues) {
            issues.push(unexplained(process.stderr@))
        } else {
            issues
        },
        screenshots: of_kind(files, ArtifactKind::Screenshot),
        traces: of_kind(files, ArtifactKind::Trace),
        videos: of_kind(files, ArtifactKind::Video),
    }
}

fn has_assertion(issues: &Vec<BrowserIssue>) -> (answer: bool)
    ensures
        answer == asserts(model::views(issues@)),
{
    let ghost all = model::views(issues@);
    let mut at: usize = 0;
    while at < issues.len()
        invariant
            at <= issues@.len(),
            all == model::views(issues@),
            forall|i: int| 0 <= i < at ==> !((#[trigger] all[i]).kind is AssertionFailure),
        decreases issues@.len() - at,
    {
        assert(all[at as int] == issues@[at as int]@);
        if issues[at].kind == BrowserIssueKind::AssertionFailure {
            return true;
        }
        at = at + 1;
    }
    false
}

/// The issues of a kind that are not ignored.
pub open spec fn unignored_issues(issues: Seq<IssueView>, kind: BrowserIssueKind) -> Seq<IssueView>
    decreases issues.len(),
{
    if issues.len() == 0 {
        Seq::empty()
    } else if issues.last().kind == kind && !issues.last().ignored {
        unignored_issues(issues.drop_last(), kind).push(issues.last())
    } else {
        unignored_issues(issues.drop_last(), kind)
    }
}

/// How many issues of a kind are ignored.
pub open spec fn ignored_count(issues: Seq<IssueView>, kind: BrowserIssueKind) -> nat
    decreases issues.len(),
{
    if issues.len() == 0 {
        0
    } else {
        ignored_count(issues.drop_last(), kind) + if issues.last().kind == kind && issues.last().ignored {
            1nat
        } else {
            0nat
        }
    }
}

impl PlaywrightEvidence {
    /// Collects what a run of the browser tests showed: from the command, from the contents of the
    /// file of browser events, where there is one, and from the paths of the artifacts.
    pub fn collect(
        process: &CommandResult,
        events_path: &str,
        events: Option<&str>,
        files: &Vec<String>,
        ignored_console_patterns: &Vec<String>,
    ) -> (result: Result<PlaywrightEvidence, BrowserError>)
        ensures
            match events {
                None => result is Ok && result->Ok_0@ == collected(*process, Seq::empty(), text::texts(files@)),
                Some(contents) => match event_issues(text::lines_of(contents@), text::texts(ignored_console_patterns@)) {
                    Some(issues) => result is Ok && result->Ok_0@ == collected(*process, issues, text::texts(files@)),
                    None => result is Err && result->Err_0.text() == "malformed browser event in "@ + events_path@,
                },
            },
    {
        let mut evidence = PlaywrightEvidence {
            command_passed: process.success(),
            suites: Vec::new(),
            tests: Vec::new(),
            issues: Vec::new(),
            screenshots: Vec::new(),
            traces: Vec::new(),
            videos: Vec::new(),
        };
        let ghost start = evidence@;
        if let Some(report) = parse_json_report(process.stdout.as_str()) {
            collect_suite(&report, &mut evidence);
        }
        if let Some(contents) = events {
            if let Err(error) = collect_browser_events(events_path, contents, ignored_console_patterns, &mut evidence) {
                return Err(error);
            }
        }
        collect_artifacts(files, &mut evidence);
        let ghost report = match report_of(process.stdout@) {
            Some(document) => found_in_report(document),
            None => Found::nothing(),
        };
        let ghost reported = match events {
            None => Seq::empty(),
            Some(contents) => event_issues(text::lines_of(contents@), text::texts(ignored_console_patterns@))->0,
        };
        proof {
            let all = text::texts(files@);
            assert(evidence@.suites =~= report.suites);
            assert(evidence@.tests =~= report.tests);
            assert(evidence@.issues =~= report.issues + reported);
            assert(evidence@.screenshots =~= of_kind(all, ArtifactKind::Screenshot));
            assert(evidence@.traces =~= of_kind(all, ArtifactKind::Trace));
            assert(evidence@.videos =~= of_kind(all, ArtifactKind::Video));
        }
        if !process.success() && !has_assertion(&evidence.issues) {
            let message = if text::is_blank(process.stderr.as_str()) {
                "Playwright command failed".to_string()
            } else {
                process.stderr.clone()
            };
            evidence.push_issue(
                BrowserIssue {
                    kind: BrowserIssueKind::AssertionFailure,
                    message,
                    url: String::new(),
                    location: String::new(),
                    ignored: false,
                    ignored_by: None,
                },
            );
        }
        Ok(evidence)
    }

    /// The issues of a kind that are not ignored.
    pub fn unignored(&self, kind: BrowserIssueKind) -> (found: Vec<&BrowserIssue>)
        ensures
            model::views(found@) == unignored_issues(self@.issues, kind),
    {
        let mut found: Vec<&BrowserIssue> = Vec::new();
        let ghost all = self@.issues;
        let mut at: usize = 0;
        assert(all.take(0) =~= Seq::<IssueView>::empty());
        assert(model::views(found@) =~= unignored_issues(all.take(0), kind));
        while at < self.issues.len()
            invariant
                at <= self.issues@.len(),
                all == model::views(self.issues@),
                model::views(found@) == unignored_issues(all.take(at as int), kind),
            decreases self.issues@.len() - at,
        {
            let ghost next = all.take(at + 1);
            assert(next.drop_last() =~= all.take(at as int));
            assert(next.last() == self.issues@[at as int]@);
            if self.issues[at].kind == kind && !self.issues[at].ignored {
                let ghost before = found@;
                found.push(&self.issues[at]);
                assert(model::views(found@) =~= model::views(before).push(self.issues@[at as int]@));
            }
            at = at + 1;
        }
        assert(all.take(at as int) =~= all);
        found
    }

    /// How many issues of a kind are ignored.
    pub fn count_ignored(&self, kind: BrowserIssueKind) -> (count: usize)
        ensures
            count == ignored_count(self@.issues, kind),
    {
        let mut count: usize = 0;
        let ghost all = self@.issues;
        let mut at: usize = 0;
        assert(all.take(0) =~= Seq::<IssueView>::empty());
        while at < self.issues.len()
            invariant
                at <= self.issues.len(),
                count <= at,
                all == model::views(self.issues@),
                count == ignored_count(all.take(at as int), kind),
            decreases self.issues@.len() - at,
        {
            let ghost next = all.take(at + 1);
            assert(next.drop_last() =~= all.take(at as int));
            assert(next.last() == self.issues@[at as int]@);
            if self.issues[at].kind == kind && self.issues[at].ignored {
                count = count + 1;
            }
            at = at + 1;
        }
        assert(all.take(at as int) =~= all);
        count
    }
}

impl Default for PlaywrightEvidence {
    fn default() -> (evidence: Self)
        ensures
            evidence@ == (PlaywrightView {
                command_passed: false,
                suites: Seq::empty(),
                tests: Seq::empty(),
                issues: Seq::empty(),
                screenshots: Seq::empty(),
                traces: Seq::empty(),
                videos: Seq::empty(),
            }),
    {
        let evidence = PlaywrightEvidence {
            command_passed: false,
            suites: Vec::new(),
            tests: Vec::new(),
            issues: Vec::new(),
            screenshots: Vec::new(),
            traces: Vec::new(),
            videos: Vec::new(),
        };
        assert(evidence@.suites =~= Seq::empty());
        assert(evidence@.tests =~= Seq::empty());
        assert(evidence@.issues =~= Seq::empty());
        assert(evidence@.screenshots =~= Seq::empty());
        assert(evidence@.traces =~= Seq::empty());
        assert(evidence@.videos =~= Seq::empty());
        evidence
    }
}

/// Whether only errors on the console are ignored, each by one of the patterns.
pub open spec fn rightly_ignored(issues: Seq<IssueView>, patterns: Seq<Seq<char>>) -> bool {
    forall|i: int|
        0 <= i < issues.len() && (#[trigger] issues[i]).ignored ==> issues[i].kind is ConsoleError
            && issues[i].ignored_by is Some && patterns.contains(issues[i].ignored_by->0)
}

proof fn ignoring_is_a_pattern(patterns: Seq<Seq<char>>, message: Seq<char>)
    ensures
        ignoring(patterns, message) is Some ==> patterns.contains(ignoring(patterns, message)->0),
    decreases patterns.len(),
{
    if patterns.len() > 0 {
        let rest = patterns.drop_first();
        ignoring_is_a_pattern(rest, message);
        if patterns.first() == ignoring(patterns, message)->0 {
            assert(patterns[0] == patterns.first());
        } else if ignoring(rest, message) is Some {
            let k = rest.index_of(ignoring(rest, message)->0);
            assert(patterns[k + 1] == rest[k]);
        }
    }
}

proof fn events_are_rightly_ignored(lines: Seq<Seq<char>>, patterns: Seq<Seq<char>>)
    requires
        event_issues(lines, patterns) is Some,
    ensures
        rightly_ignored(event_issues(lines, patterns)->0, patterns),
    decreases lines.len(),
{
    if lines.len() > 0 {
        events_are_rightly_ignored(lines.drop_last(), patterns);
        if let Some(event) = json::json_document(lines.last()) {
            ignoring_is_a_pattern(patterns, string_or(event, "message"@, "browser issue"@));
        }
    }
}

proof fn tests_ignore_nothing(title: Seq<char>, file: Seq<char>, line: u64, tests: Seq<Json>, patterns: Seq<Seq<char>>)
    ensures
        rightly_ignored(found_in_tests(title, file, line, tests).issues, patterns),
    decreases tests.len(),
{
    if tests.len() > 0 {
        tests_ignore_nothing(title, file, line, tests.drop_last(), patterns);
    }
}

proof fn specs_ignore_nothing(items: Seq<Json>, patterns: Seq<Seq<char>>)
    ensures
        rightly_ignored(found_in_specs(items).issues, patterns),
    decreases items.len(),
{
    if items.len() > 0 {
        specs_ignore_nothing(items.drop_last(), patterns);
        let item = items.last();
        tests_ignore_nothing(
            spec_title(item),
            spec_file(item),
            spec_line(item),
            item.member_items("tests"@),
            patterns,
        );
    }
}

proof fn suites_ignore_nothing(value: Json, n: nat, patterns: Seq<Seq<char>>)
    ensures
        rightly_ignored(found_in_suites(value, n).issues, patterns),
    decreases value, n,
{
    let suites = value.member_items("suites"@);
    if 0 < n <= suites.len() {
        let suite = suites[n - 1];
        json::items_are_below(value, "suites"@, n - 1);
        suites_ignore_nothing(value, (n - 1) as nat, patterns);
        suites_ignore_nothing(suite, suite.member_items("suites"@).len(), patterns);
        specs_ignore_nothing(suite.member_items("specs"@), patterns);
    }
}

proof fn unignored_holds(issues: Seq<IssueView>, kind: BrowserIssueKind, i: int)
    requires
        0 <= i < issues.len(),
        issues[i].kind == kind,
        !issues[i].ignored,
    ensures
        unignored_issues(issues, kind).contains(issues[i]),
    decreases issues.len(),
{
    let before = unignored_issues(issues.drop_last(), kind);
    if i == issues.len() - 1 {
        assert(before.push(issues.last())[before.len() as int] == issues[i]);
    } else {
        unignored_holds(issues.drop_last(), kind, i);
        let k = before.index_of(issues[i]);
        assert(before.push(issues.last())[k] == issues[i]);
    }
}

/// Of all issues that a run of the browser tests shows, whatever its report and its events are, only
/// errors on the console are ever ignored, and each of them by one of the patterns. So every other issue
/// is among those that are not ignored.
pub proof fn only_console_errors_are_ignored(
    process: CommandResult,
    lines: Seq<Seq<char>>,
    patterns: Seq<Seq<char>>,
    files: Seq<Seq<char>>,
)
    requires
        event_issues(lines, patterns) is Some,
    ensures
        ({
            let issues = collected(process, event_issues(lines, patterns)->0, files).issues;
            &&& rightly_ignored(issues, patterns)
            &&& forall|i: int|
                0 <= i < issues.len() && !((#[trigger] issues[i]).kind is ConsoleError) ==> unignored_issues(
                    issues,
                    issues[i].kind,
                ).contains(issues[i])
        }),
{
    let issues = collected(process, event_issues(lines, patterns)->0, files).issues;
    events_are_rightly_ignored(lines, patterns);
    if let Some(document) = report_of(process.stdout@) {
        suites_ignore_nothing(document, document.member_items("suites"@).len(), patterns);
    }
    assert(rightly_ignored(issues, patterns));
    assert forall|i: int| 0 <= i < issues.len() && !((#[trigger] issues[i]).kind is ConsoleError) implies unignored_issues(
        issues,
        issues[i].kind,
    ).contains(issues[i]) by {
        unignored_holds(issues, issues[i].kind, i);
    }
}

/// A command that failed always leaves a failed assertion that is not ignored, whatever the patterns
/// are: a failed run cannot look like a clean one.
pub proof fn failed_runs_leave_an_assertion(
    process: CommandResult,
    lines: Seq<Seq<char>>,
    patterns: Seq<Seq<char>>,
    files: Seq<Seq<char>>,
)
    requires
        !process.succeeded(),
        event_issues(lines, patterns) is Some,
    ensures
        unignored_issues(
            collected(process, event_issues(lines, patterns)->0, files).issues,
            BrowserIssueKind::AssertionFailure,
        ).len() > 0,
{
    let report = match report_of(process.stdout@) {
        Some(document) => found_in_report(document),
        None => Found::nothing(),
    };
    let events = event_issues(lines, patterns)->0;
    let all = collected(process, events, files).issues;
    only_console_errors_are_ignored(process, lines, patterns, files);
    if asserts(report.issues + events) {
        let i = choose|i: int| 0 <= i < all.len() && (#[trigger] all[i]).kind is AssertionFailure;
        assert(unignored_issues(all, all[i].kind).contains(all[i]));
    } else {
        assert(all[all.len() - 1].kind is AssertionFailure);
        assert(unignored_issues(all, all[all.len() - 1].kind).contains(all[all.len() - 1]));
    }
}

/// How many tests of a list have a status that is none of the words expected, passed and skipped.
pub open spec fn not_fine(tests: Seq<TestView>) -> nat
    decreases tests.len(),
{
    if tests.len() == 0 {
        0
    } else if tests.last().status == "expected"@ || tests.last().status == "passed"@ || tests.last().status == "skipped"@ {
        not_fine(tests.drop_last())
    } else {
        not_fine(tests.drop_last()) + 1
    }
}

/// Whether what a report shows has one failed assertion for each test that went wrong, with its name,
/// status and place, and no other issue.
pub open spec fn accounted(found: Found) -> bool {
    &&& found.issues.len() == not_fine(found.tests)
    &&& forall|j: int|
        0 <= j < found.issues.len() ==> (#[trigger] found.issues[j]).kind is AssertionFailure && !found.issues[j].ignored
    &&& forall|i: int|
        0 <= i < found.tests.len() && (#[trigger] found.tests[i]).status != "expected"@ && found.tests[i].status != "passed"@
            && found.tests[i].status != "skipped"@ ==> exists|j: int|
            0 <= j < found.issues.len() && (#[trigger] found.issues[j]).message == found.tests[i].name + ": "@
                + found.tests[i].status && found.issues[j].location == found.tests[i].file + ":"@ + text::digits(
                found.tests[i].line as nat,
            )
}

proof fn not_fine_adds_up(left: Seq<TestView>, right: Seq<TestView>)
    ensures
        not_fine(left + right) == not_fine(left) + not_fine(right),
    decreases right.len(),
{
    if right.len() == 0 {
        assert(left + right =~= left);
    } else {
        assert((left + right).drop_last() =~= left + right.drop_last());
        not_fine_adds_up(left, right.drop_last());
    }
}

proof fn accounts_add_up(left: Found, right: Found)
    requires
        accounted(left),
        accounted(right),
    ensures
        accounted(left.plus(right)),
{
    let sum = left.plus(right);
    not_fine_adds_up(left.tests, right.tests);
    assert forall|i: int|
        0 <= i < sum.tests.len() && (#[trigger] sum.tests[i]).status != "expected"@ && sum.tests[i].status != "passed"@
            && sum.tests[i].status != "skipped"@ implies exists|j: int|
        0 <= j < sum.issues.len() && (#[trigger] sum.issues[j]).message == sum.tests[i].name + ": "@ + sum.tests[i].status
            && sum.issues[j].location == sum.tests[i].file + ":"@ + text::digits(sum.tests[i].line as nat) by {
        if i < left.tests.len() {
            let test = left.tests[i];
            let j = choose|j: int|
                0 <= j < left.issues.len() && (#[trigger] left.issues[j]).message == test.name + ": "@ + test.status
                    && left.issues[j].location == test.file + ":"@ + text::digits(test.line as nat);
            assert(sum.issues[j] == left.issues[j]);
        } else {
            let test = right.tests[i - left.tests.len()];
            let j = choose|j: int|
                0 <= j < right.issues.len() && (#[trigger] right.issues[j]).message == test.name + ": "@ + test.status
                    && right.issues[j].location == test.file + ":"@ + text::digits(test.line as nat);
            assert(sum.issues[left.issues.len() + j] == right.issues[j]);
        }
    }
    assert forall|j: int| 0 <= j < sum.issues.len() implies (#[trigger] sum.issues[j]).kind is AssertionFailure
        && !sum.issues[j].ignored by {
        if j < left.issues.len() {
            assert(sum.issues[j] == left.issues[j]);
        } else {
            assert(sum.issues[j] == right.issues[j - left.issues.len()]);
        }
    }
}

proof fn tests_are_accounted_for(title: Seq<char>, file: Seq<char>, line: u64, tests: Seq<Json>)
    ensures
        accounted(found_in_tests(title, file, line, tests)),
    decreases tests.len(),
{
    if tests.len() > 0 {
        tests_are_accounted_for(title, file, line, tests.drop_last());
        let one = found_in_test(title, file, line, tests.last());
        assert(one.tests.drop_last() =~= Seq::<TestView>::empty());
        assert(not_fine(Seq::<TestView>::empty()) == 0);
        assert(accounted(one)) by {
            if one.issues.len() > 0 {
                assert(one.issues[0].message == one.tests[0].name + ": "@ + one.tests[0].status);
            }
        }
        accounts_add_up(found_in_tests(title, file, line, tests.drop_last()), one);
    }
}

proof fn specs_are_accounted_for(items: Seq<Json>)
    ensures
        accounted(found_in_specs(items)),
    decreases items.len(),
{
    if items.len() > 0 {
        specs_are_accounted_for(items.drop_last());
        let item = items.last();
        tests_are_accounted_for(spec_title(item), spec_file(item), spec_line(item), item.member_items("tests"@));
        accounts_add_up(found_in_specs(items.drop_last()), found_in_spec(item));
    }
}

proof fn suites_are_accounted_for(value: Json, n: nat)
    ensures
        accounted(found_in_suites(value, n)),
    decreases value, n,
{
    let suites = value.member_items("suites"@);
    if 0 < n <= suites.len() {
        let suite = suites[n - 1];
        json::items_are_below(value, "suites"@, n - 1);
        suites_are_accounted_for(value, (n - 1) as nat);
        suites_are_accounted_for(suite, suite.member_items("suites"@).len());
        let specs = found_in_specs(suite.member_items("specs"@));
        specs_are_accounted_for(suite.member_items("specs"@));
        let own = found_in_suite(suite);
        assert(own.tests =~= specs.tests);
        assert(own.issues =~= specs.issues);
        assert(accounted(own));
        accounts_add_up(found_in_suites(value, (n - 1) as nat), own);
        accounts_add_up(
            found_in_suites(value, (n - 1) as nat).plus(own),
            found_in_suites(suite, suite.member_items("suites"@).len()),
        );
    }
}

proof fn fine_tests_are_none(tests: Seq<TestView>)
    requires
        forall|i: int|
            0 <= i < tests.len() ==> (#[trigger] tests[i]).status == "expected"@ || tests[i].status == "passed"@
                || tests[i].status == "skipped"@,
    ensures
        not_fine(tests) == 0,
    decreases tests.len(),
{
    if tests.len() > 0 {
        assert(tests[tests.len() - 1] == tests.last());
        fine_tests_are_none(tests.drop_last());
    }
}

/// A report has one failed assertion for each of its tests whose status is neither expected nor passed
/// nor skipped, and no other issue. Where every test has one of the three words as its status, a command
/// that succeeded leaves no issue but those of the browser events, and no failed assertion at all where
/// these report none.
pub proof fn reports_fail_for_the_tests_that_failed(
    process: CommandResult,
    report: Json,
    events: Seq<IssueView>,
    files: Seq<Seq<char>>,
)
    requires
        report_of(process.stdout@) == Some(report),
    ensures
        accounted(found_in_report(report)),
        collected(process, events, files).tests == found_in_report(report).tests,
        ({
            let evidence = collected(process, events, files);
            &&& process.succeeded() ==> evidence.issues == found_in_report(report).issues + events
            &&& process.succeeded() && (forall|i: int|
                0 <= i < evidence.tests.len() ==> (#[trigger] evidence.tests[i]).status == "expected"@
                    || evidence.tests[i].status == "passed"@ || evidence.tests[i].status == "skipped"@) ==> evidence.issues
                == events
        }),
{
    suites_are_accounted_for(report, report.member_items("suites"@).len());
    let evidence = collected(process, events, files);
    let found = found_in_report(report);
    if forall|i: int|
        0 <= i < evidence.tests.len() ==> (#[trigger] evidence.tests[i]).status == "expected"@ || evidence.tests[i].status
            == "passed"@ || evidence.tests[i].status == "skipped"@ {
        fine_tests_are_none(found.tests);
        assert(found.issues + events =~= events);
    }
}

/// The tests of a specification are listed in their order, each with the title, the file and the line of
/// the specification and with its own status, or that of its first result where it has none.
pub proof fn tests_are_read_from_their_specification(item: Json, i: int)
    requires
        0 <= i < item.member_items("tests"@).len(),
    ensures
        ({
            let tests = item.member_items("tests"@);
            let found = found_in_spec(item).tests;
            &&& found.len() == tests.len()
            &&& item.member_string("title"@) matches Some(title) ==> found[i].name == title
            &&& item.member_string("file"@) matches Some(file) ==> found[i].file == file
            &&& item.member("line"@) matches Some(line) ==> line.number() matches Some(number) ==> found[i].line == number
            &&& tests[i].member_string("status"@) matches Some(status) ==> found[i].status == status
            &&& tests[i].member_string("status"@) is None && tests[i].member_items("results"@).len() > 0
                && tests[i].member_items("results"@)[0].member_string("status"@) is Some ==> Some(found[i].status)
                == tests[i].member_items("results"@)[0].member_string("status"@)
            &&& tests[i].member_string("status"@) is None && tests[i].member("results"@) is None ==> found[i].status
                == "unknown"@
        }),
{
    listed_tests(spec_title(item), spec_file(item), spec_line(item), item.member_items("tests"@), i);
}

proof fn listed_tests(title: Seq<char>, file: Seq<char>, line: u64, tests: Seq<Json>, i: int)
    requires
        0 <= i < tests.len(),
    ensures
        ({
            let found = found_in_tests(title, file, line, tests).tests;
            found.len() == tests.len() && found[i] == (TestView { name: title, file, line, status: test_status(tests[i]) })
        }),
    decreases tests.len(),
{
    let front = tests.drop_last();
    if front.len() > 0 {
        let k = if i < front.len() {
            i
        } else {
            0
        };
        listed_tests(title, file, line, front, k);
    } else {
        assert(found_in_tests(title, file, line, front).tests.len() == 0);
    }
}

/// A report shows the tests of every specification of every one of its suites, and of the suites in
/// these; and it names each suite that has a title.
pub proof fn reports_show_every_suite(report: Json, k: int, j: int, test: TestView)
    requires
        0 <= k < report.member_items("suites"@).len(),
    ensures
        ({
            let suite = report.member_items("suites"@)[k];
            let found = found_in_report(report);
            &&& 0 <= j < suite.member_items("specs"@).len() && found_in_spec(suite.member_items("specs"@)[j]).tests.contains(
                test,
            ) ==> found.tests.contains(test)
            &&& found_in_report(suite).tests.contains(test) ==> found.tests.contains(test)
            &&& suite.member_string("title"@) matches Some(title) ==> title.len() > 0 ==> found.suites.contains(title)
        }),
{
    let suite = report.member_items("suites"@)[k];
    if 0 <= j < suite.member_items("specs"@).len() {
        spec_in_specs(suite.member_items("specs"@), j, test);
    }
    suite_in_suites(report, report.member_items("suites"@).len(), k, test);
}

proof fn spec_in_specs(items: Seq<Json>, j: int, test: TestView)
    requires
        0 <= j < items.len(),
    ensures
        found_in_spec(items[j]).tests.contains(test) ==> found_in_specs(items).tests.contains(test),
    decreases items.len(),
{
    let front = found_in_specs(items.drop_last());
    let last = found_in_spec(items.last());
    if j < items.len() - 1 {
        spec_in_specs(items.drop_last(), j, test);
    }
    tests_in_sum(front, last, test);
}

proof fn tests_in_sum(left: Found, right: Found, test: TestView)
    ensures
        left.tests.contains(test) || right.tests.contains(test) ==> left.plus(right).tests.contains(test),
{
    let sum = left.plus(right).tests;
    if left.tests.contains(test) {
        assert(sum[left.tests.index_of(test)] == test);
    } else if right.tests.contains(test) {
        assert(sum[left.tests.len() + right.tests.index_of(test)] == test);
    }
}

proof fn suites_in_sum(left: Found, right: Found, title: Seq<char>)
    ensures
        left.suites.contains(title) || right.suites.contains(title) ==> left.plus(right).suites.contains(title),
{
    let sum = left.plus(right).suites;
    if left.suites.contains(title) {
        assert(sum[left.suites.index_of(title)] == title);
    } else if right.suites.contains(title) {
        assert(sum[left.suites.len() + right.suites.index_of(title)] == title);
    }
}

proof fn suite_in_suites(report: Json, n: nat, k: int, test: TestView)
    requires
        0 <= k < n <= report.member_items("suites"@).len(),
    ensures
        ({
            let suite = report.member_items("suites"@)[k];
            let found = found_in_suites(report, n);
            &&& found_in_specs(suite.member_items("specs"@)).tests.contains(test) ==> found.tests.contains(test)
            &&& found_in_report(suite).tests.contains(test) ==> found.tests.contains(test)
            &&& suite.member_string("title"@) matches Some(title) ==> title.len() > 0 ==> found.suites.contains(title)
        }),
    decreases n,
{
    let suites = report.member_items("suites"@);
    let last = suites[n - 1];
    let suite = suites[k];
    let before = found_in_suites(report, (n - 1) as nat);
    let own = found_in_suite(last);
    let inner = found_in_suites(last, last.member_items("suites"@).len());
    if k < n - 1 {
        suite_in_suites(report, (n - 1) as nat, k, test);
    } else {
        assert(own.tests =~= found_in_specs(last.member_items("specs"@)).tests);
        if let Some(title) = suite.member_string("title"@) {
            if title.len() > 0 {
                assert(own.suites[0] == title);
            }
        }
    }
    tests_in_sum(before, own, test);
    tests_in_sum(before.plus(own), inner, test);
    if let Some(title) = suite.member_string("title"@) {
        suites_in_sum(before, own, title);
        suites_in_sum(before.plus(own), inner, title);
    }
}

/// The kind of an issue is the one that its event names, in these words; other events report none.
pub proof fn events_name_their_kind(event: Json)
    ensures
        event.member_string("kind"@) == Some("console_error"@) <==> event_kind(event) == Some(BrowserIssueKind::ConsoleError),
        event.member_string("kind"@) == Some("page_exception"@) <==> event_kind(event) == Some(
            BrowserIssueKind::PageException,
        ),
        event.member_string("kind"@) == Some("page_crash"@) <==> event_kind(event) == Some(BrowserIssueKind::PageCrash),
        event.member_string("kind"@) == Some("failed_request"@) <==> event_kind(event) == Some(
            BrowserIssueKind::FailedRequest,
        ),
        event.member_string("kind"@) == Some("assertion_failure"@) <==> event_kind(event) == Some(
            BrowserIssueKind::AssertionFailure,
        ),
{
    reveal_strlit("console_error");
    reveal_strlit("page_exception");
    reveal_strlit("page_crash");
    reveal_strlit("failed_request");
    reveal_strlit("assertion_failure");
    assert("console_error"@.len() == 13);
    assert("page_exception"@.len() == 14);
    assert("page_crash"@.len() == 10);
    assert("failed_request"@.len() == 14);
    assert("assertion_failure"@.len() == 17);
    assert("page_exception"@[0] == 'p');
    assert("failed_request"@[0] == 'f');
}

/// Every line of the events that names a kind adds one issue, with what the event says of its message,
/// its page and its place; blank lines and other events add none, and one line that is no document spoils
/// all.
pub proof fn events_are_reported(lines: Seq<Seq<char>>, line: Seq<char>, patterns: Seq<Seq<char>>)
    requires
        event_issues(lines, patterns) is Some,
    ensures
        ({
            let before = event_issues(lines, patterns)->0;
            let after = event_issues(lines.push(line), patterns);
            &&& text::blank(line) ==> after == Some(before)
            &&& !text::blank(line) && json::json_document(line) is None ==> after is None
            &&& !text::blank(line) && json::json_document(line) is Some ==> {
                let event = json::json_document(line)->0;
                &&& after is Some
                &&& event_kind(event) is None ==> after->0 == before
                &&& event_kind(event) is Some ==> {
                    &&& after->0.len() == before.len() + 1
                    &&& after->0.last().kind == event_kind(event)->0
                    &&& event.member_string("message"@) matches Some(message) ==> after->0.last().message == message
                    &&& event.member_string("url"@) matches Some(url) ==> after->0.last().url == url
                    &&& event.member_string("location"@) matches Some(location) ==> after->0.last().location == location
                    &&& after->0.last().ignored ==> after->0.last().kind is ConsoleError
                }
            }
        }),
{
    assert(lines.push(line).drop_last() =~= lines);
    assert(lines.push(line).last() == line);
}

/// An error on the console is ignored exactly where one of the patterns accepts its message.
pub proof fn console_errors_are_ignored_by_patterns(event: Json, patterns: Seq<Seq<char>>)
    ensures
        ({
            let issue = event_issue(BrowserIssueKind::ConsoleError, event, patterns);
            issue.ignored <==> exists|i: int|
                0 <= i < patterns.len() && wildcards::accepted(encode_utf8(#[trigger] patterns[i]), encode_utf8(issue.message))
        }),
{
    let issue = event_issue(BrowserIssueKind::ConsoleError, event, patterns);
    patterns_ignore(patterns, issue.message);
}

proof fn patterns_ignore(patterns: Seq<Seq<char>>, message: Seq<char>)
    ensures
        ignoring(patterns, message) is Some <==> exists|i: int|
            0 <= i < patterns.len() && wildcards::accepted(encode_utf8(#[trigger] patterns[i]), encode_utf8(message)),
    decreases patterns.len(),
{
    if patterns.len() > 0 {
        let rest = patterns.drop_first();
        patterns_ignore(rest, message);
        if wildcards::accepted(encode_utf8(patterns.first()), encode_utf8(message)) {
            assert(patterns[0] == patterns.first());
        } else {
            if ignoring(rest, message) is Some {
                let k = choose|i: int|
                    0 <= i < rest.len() && wildcards::accepted(encode_utf8(#[trigger] rest[i]), encode_utf8(message));
                assert(patterns[k + 1] == rest[k]);
            }
            if exists|i: int|
                0 <= i < patterns.len() && wildcards::accepted(encode_utf8(#[trigger] patterns[i]), encode_utf8(message)) {
                let k = choose|i: int|
                    0 <= i < patterns.len() && wildcards::accepted(encode_utf8(#[trigger] patterns[i]), encode_utf8(message));
                assert(rest[k - 1] == patterns[k]);
            }
        }
    }
}

/// The issues that count against a kind are those of the kind that are not ignored, all of them and no
/// others.
pub proof fn unignored_issues_are_all_of_the_kind(issues: Seq<IssueView>, kind: BrowserIssueKind, issue: IssueView)
    ensures
        unignored_issues(issues, kind).contains(issue) <==> issues.contains(issue) && issue.kind == kind && !issue.ignored,
        unignored_issues(issues, kind).len() + ignored_count(issues, kind) <= issues.len(),
        (forall|i: int| 0 <= i < issues.len() ==> (#[trigger] issues[i]).kind == kind) ==> unignored_issues(issues, kind).len()
            + ignored_count(issues, kind) == issues.len(),
    decreases issues.len(),
{
    if issues.len() > 0 {
        let front = issues.drop_last();
        let before = unignored_issues(front, kind);
        unignored_issues_are_all_of_the_kind(front, kind, issue);
        assert(issues[issues.len() - 1] == issues.last());
        assert(issues.contains(issue) <==> front.contains(issue) || issues.last() == issue) by {
            if front.contains(issue) {
                assert(issues[front.index_of(issue)] == issue);
            }
            if issues.contains(issue) && issues.last() != issue {
                assert(front[issues.index_of(issue)] == issue);
            }
        }
        let more = before.push(issues.last());
        assert(more.contains(issue) <==> before.contains(issue) || issues.last() == issue) by {
            assert(more[before.len() as int] == issues.last());
            if before.contains(issue) {
                assert(more[before.index_of(issue)] == issue);
            }
            if more.contains(issue) && issues.last() != issue {
                assert(before[more.index_of(issue)] == issue);
            }
        }
        if forall|i: int| 0 <= i < issues.len() ==> (#[trigger] issues[i]).kind == kind {
            assert forall|i: int| 0 <= i < front.len() implies (#[trigger] front[i]).kind == kind by {
                assert(issues[i] == front[i]);
            }
        }
    }
}

/// Pictures are screenshots, films are videos, a file `trace.zip` is a trace, and each of them is kept.
pub proof fn artifacts_are_known_by_their_names(files: Seq<Seq<char>>, path: Seq<char>)
    requires
        files.contains(path),
    ensures
        of_kind(files, ArtifactKind::Screenshot).contains(path) <==> paths::extension_of(path) == Some("png"@),
        of_kind(files, ArtifactKind::Video).contains(path) <==> paths::extension_of(path) == Some("webm"@)
            || paths::extension_of(path) == Some("mp4"@),
        of_kind(files, ArtifactKind::Trace).contains(path) <==> paths::extension_of(path) == Some("zip"@) && paths::name_of(path)
            == Some("trace.zip"@),
{
    reveal_strlit("png");
    reveal_strlit("webm");
    reveal_strlit("mp4");
    reveal_strlit("zip");
    assert("webm"@.len() == 4);
    assert("png"@[0] == 'p' && "mp4"@[0] == 'm' && "zip"@[0] == 'z');
    kinds_are_kept(files, ArtifactKind::Screenshot, path);
    kinds_are_kept(files, ArtifactKind::Video, path);
    kinds_are_kept(files, ArtifactKind::Trace, path);
}

proof fn kinds_are_kept(files: Seq<Seq<char>>, kind: ArtifactKind, path: Seq<char>)
    ensures
        of_kind(files, kind).contains(path) <==> files.contains(path) && artifact_kind(path) == kind,
    decreases files.len(),
{
    if files.len() > 0 {
        let front = files.drop_last();
        let before = of_kind(front, kind);
        kinds_are_kept(front, kind, path);
        assert(files[files.len() - 1] == files.last());
        assert(files.contains(path) <==> front.contains(path) || files.last() == path) by {
            if front.contains(path) {
                assert(files[front.index_of(path)] == path);
            }
            if files.contains(path) && files.last() != path {
                assert(front[files.index_of(path)] == path);
            }
        }
        let more = before.push(files.last());
        assert(more.contains(path) <==> before.contains(path) || files.last() == path) by {
            assert(more[before.len() as int] == files.last());
            if before.contains(path) {
                assert(more[before.index_of(path)] == path);
            }
            if more.contains(path) && files.last() != path {
                assert(before[more.index_of(path)] == path);
            }
        }
    }
}

/// The report is the first line of the output that is a document with suites, a configuration or
/// statistics; and the whole output where no line is one.
pub proof fn reports_are_found_in_the_output(output: Seq<char>, k: int)
    ensures
        ({
            let lines = text::lines_of(output);
            &&& 0 <= k < lines.len() && json::json_document(lines[k]) is Some && (json::json_document(lines[k])->0.member(
                "suites"@,
            ) is Some || json::json_document(lines[k])->0.member("config"@) is Some || json::json_document(lines[k])->0.member(
                "stats"@,
            ) is Some) && (forall|i: int| 0 <= i < k ==> json::json_document(#[trigger] lines[i]) is None) ==> report_of(output)
                == json::json_document(lines[k])
            &&& (forall|i: int| 0 <= i < lines.len() ==> json::json_document(#[trigger] lines[i]) is None) ==> report_of(
                output,
            ) == json::json_document(output)
        }),
{
    let lines = text::lines_of(output);
    if 0 <= k < lines.len() && (forall|i: int| 0 <= i < k ==> json::json_document(#[trigger] lines[i]) is None) {
        lines_without_documents(lines, k);
        assert(lines.skip(k).first() == lines[k]);
    }
    if forall|i: int| 0 <= i < lines.len() ==> json::json_document(#[trigger] lines[i]) is None {
        lines_without_documents(lines, lines.len() as int);
        assert(lines.skip(lines.len() as int) =~= Seq::<Seq<char>>::empty());
    }
}

proof fn lines_without_documents(lines: Seq<Seq<char>>, k: int)
    requires
        0 <= k <= lines.len(),
        forall|i: int| 0 <= i < k ==> json::json_document(#[trigger] lines[i]) is None,
    ensures
        report_line(lines) == report_line(lines.skip(k)),
    decreases k,
{
    if k > 0 {
        let rest = lines.drop_first();
        assert(json::json_document(lines[0]) is None);
        assert forall|i: int| 0 <= i < k - 1 implies json::json_document(#[trigger] rest[i]) is None by {
            assert(rest[i] == lines[i + 1]);
        }
        lines_without_documents(rest, k - 1);
        assert(rest.skip(k - 1) =~= lines.skip(k));
    } else {
        assert(lines.skip(0) =~= lines);
    }
}

/// A command that failed without a failed assertion in its report and events is reported by what it
/// wrote to its error output, where it wrote anything.
pub proof fn unexplained_failures_show_their_output(process: CommandResult, events: Seq<IssueView>, files: Seq<Seq<char>>)
    requires
        !process.succeeded(),
        report_of(process.stdout@) is None,
        forall|i: int| 0 <= i < events.len() ==> !((#[trigger] events[i]).kind is AssertionFailure),
    ensures
        ({
            let evidence = collected(process, events, files);
            &&& !evidence.command_passed
            &&& evidence.issues.len() == events.len() + 1
            &&& evidence.issues.last().kind is AssertionFailure
            &&& !text::blank(process.stderr@) ==> evidence.issues.last().message == process.stderr@
            &&& text::blank(process.stderr@) ==> evidence.issues.last().message == "Playwright command failed"@
        }),
{
    let issues = Found::nothing().issues + events;
    assert(issues =~= events);
}

} // verus!
