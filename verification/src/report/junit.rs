//! The report as a JUnit test suite: every finding is a test case.

use vstd::prelude::*;

use crate::diff;
use crate::diff::Severity;
use crate::order;
use crate::report::escape;
use crate::report::findings;
use crate::report::findings::GroupView;
use crate::report::findings::ReportedFinding;
use crate::report::findings::ReportedView;
use crate::report::parts;
use crate::report::safety;
use crate::report::safety::ReportView;
use crate::report::safety::SafetyReport;
use crate::report::status;
use crate::text;

verus! {

/// The name of the case for a finding: its category, with its target where it
/// has one.
pub open spec fn case_name(f: ReportedView) -> Seq<char> {
    match f.finding.target {
        Some(target) if target.len() > 0 => f.finding.category + ": "@ + target,
        _ => f.finding.category,
    }
}

fn case_name_of(f: &ReportedFinding) -> (r: String)
    ensures
        r@ == case_name(f@),
{
    match &f.finding.target {
        Some(target) => if !target.as_str().is_empty() {
            text::three(f.finding.category.as_str(), ": ", target.as_str())
        } else {
            f.finding.category.clone()
        },
        None => f.finding.category.clone(),
    }
}

/// The line on a changed severity.
pub open spec fn override_line(f: ReportedView) -> Seq<char> {
    match f.original_severity {
        Some(original) => "\nseverity overridden: "@ + diff::severity_label(original) + " -> "@
            + diff::severity_label(f.finding.severity),
        None => ""@,
    }
}

fn override_line_of(f: &ReportedFinding) -> (r: String)
    ensures
        r@ == override_line(f@),
{
    match f.original_severity {
        Some(original) => {
            let mut out = "\nseverity overridden: ".to_string();
            out.append(original.label());
            out.append(" -> ");
            out.append(f.finding.severity.label());
            out
        },
        None => "".to_string(),
    }
}

/// The line on what to do.
pub open spec fn remediation_line(f: ReportedView) -> Seq<char> {
    match f.remediation {
        Some(t) => "\nremediation: "@ + t,
        None => ""@,
    }
}

fn remediation_line_of(f: &ReportedFinding) -> (r: String)
    ensures
        r@ == remediation_line(f@),
{
    match &f.remediation {
        Some(t) => text::two("\nremediation: ", t.as_str()),
        None => "".to_string(),
    }
}

/// What the case for a finding holds.
pub open spec fn case_body(f: ReportedView) -> Seq<char> {
    "["@ + diff::severity_label(f.finding.severity) + "] "@ + f.finding.message + "\nrule_id: "@
        + f.rule_id + "\nfingerprint: "@ + f.fingerprint + override_line(f) + remediation_line(f)
}

fn junit_case_body(f: &ReportedFinding) -> (r: String)
    ensures
        r@ == case_body(f@),
{
    let mut out = "[".to_string();
    out.append(f.finding.severity.label());
    out.append("] ");
    out.append(f.finding.message.as_str());
    out.append("\nrule_id: ");
    out.append(f.rule_id.as_str());
    out.append("\nfingerprint: ");
    out.append(f.fingerprint.as_str());
    out.append(override_line_of(f).as_str());
    out.append(remediation_line_of(f).as_str());
    out
}

/// Whether a finding is a failing case: a critical one, or a warning in strict
/// mode, unless a rule acknowledges it.
pub open spec fn case_fails(f: ReportedView, strict: bool) -> bool {
    !f.suppressed && (f.finding.severity == Severity::Critical || f.finding.severity
        == Severity::Warning && strict)
}

/// The findings that are failing cases.
pub open spec fn failing_cases(strict: bool) -> spec_fn(ReportedView) -> bool {
    |f: ReportedView| case_fails(f, strict)
}

/// What follows the name of a case.
pub open spec fn case_outcome(f: ReportedView, strict: bool) -> Seq<char> {
    if f.suppressed {
        ">\n      <skipped message=\""@ + escape::xml_text(
            parts::or_else(f.suppression_reason, "acknowledged by a suppression rule"@),
        ) + "\"/>\n    </testcase>\n"@
    } else if case_fails(f, strict) {
        ">\n      <failure type=\""@ + escape::xml_text(diff::severity_label(f.finding.severity))
            + "\" message=\""@ + escape::xml_text(f.finding.message) + "\">"@ + escape::xml_text(
            case_body(f),
        ) + "</failure>\n    </testcase>\n"@
    } else {
        ">\n      <system-out>"@ + escape::xml_text(case_body(f))
            + "</system-out>\n    </testcase>\n"@
    }
}

fn case_fails_of(f: &ReportedFinding, strict: bool) -> (r: bool)
    ensures
        r == case_fails(f@, strict),
{
    if f.suppressed {
        return false;
    }
    match f.finding.severity {
        Severity::Critical => true,
        Severity::Warning => strict,
        Severity::Info => false,
    }
}

fn case_outcome_of(f: &ReportedFinding, strict: bool) -> (r: String)
    ensures
        r@ == case_outcome(f@, strict),
{
    if f.suppressed {
        let mut out = ">\n      <skipped message=\"".to_string();
        out.append(
            escape::escape_xml(
                parts::text_or(&f.suppression_reason, "acknowledged by a suppression rule"),
            ).as_str(),
        );
        out.append("\"/>\n    </testcase>\n");
        return out;
    }
    if case_fails_of(f, strict) {
        let mut out = ">\n      <failure type=\"".to_string();
        out.append(escape::escape_xml(f.finding.severity.label()).as_str());
        out.append("\" message=\"");
        out.append(escape::escape_xml(f.finding.message.as_str()).as_str());
        out.append("\">");
        out.append(escape::escape_xml(junit_case_body(f).as_str()).as_str());
        out.append("</failure>\n    </testcase>\n");
        out
    } else {
        let mut out = ">\n      <system-out>".to_string();
        out.append(escape::escape_xml(junit_case_body(f).as_str()).as_str());
        out.append("</system-out>\n    </testcase>\n");
        out
    }
}

/// The case for a finding.
pub open spec fn test_case(f: ReportedView, class: Seq<char>, strict: bool) -> Seq<char> {
    "    <testcase classname=\""@ + escape::xml_text(class) + "\" name=\""@ + escape::xml_text(
        case_name(f),
    ) + "\""@ + case_outcome(f, strict)
}

fn test_case_of(f: &ReportedFinding, class: &str, strict: bool) -> (r: String)
    ensures
        r@ == test_case(f@, class@, strict),
{
    let mut out = "    <testcase classname=\"".to_string();
    out.append(escape::escape_xml(class).as_str());
    out.append("\" name=\"");
    out.append(escape::escape_xml(case_name_of(f).as_str()).as_str());
    out.append("\"");
    out.append(case_outcome_of(f, strict).as_str());
    out
}

/// The cases for the first `n` findings.
pub open spec fn test_cases(list: Seq<ReportedView>, class: Seq<char>, strict: bool, n: int) -> Seq<
    char,
>
    decreases n,
{
    if n <= 0 {
        ""@
    } else {
        test_cases(list, class, strict, n - 1) + test_case(list[n - 1], class, strict)
    }
}

/// The cases for the first `n` groups of an order.
pub open spec fn group_cases(r: ReportView, order: Seq<int>, class: Seq<char>, n: int) -> Seq<char>
    decreases n,
{
    if n <= 0 {
        ""@
    } else {
        group_cases(r, order, class, n - 1) + test_cases(
            r.groups[order[n - 1]].findings,
            class,
            r.strict,
            r.groups[order[n - 1]].findings.len() as int,
        )
    }
}

/// How many findings in the first `n` groups of an order have a property.
pub open spec fn count_ordered(
    groups: Seq<GroupView>,
    order: Seq<int>,
    p: spec_fn(ReportedView) -> bool,
    n: int,
) -> nat
    decreases n,
{
    if n <= 0 {
        0
    } else {
        count_ordered(groups, order, p, n - 1) + safety::count_all(
            groups[order[n - 1]].findings,
            p,
        )
    }
}

/// Every finding.
pub open spec fn any_finding() -> spec_fn(ReportedView) -> bool {
    |f: ReportedView| true
}

/// Counting group by group gives the same number in any order of the groups.
pub proof fn lemma_count_in_any_order(
    groups: Seq<GroupView>,
    order: Seq<int>,
    p: spec_fn(ReportedView) -> bool,
)
    requires
        order.len() == groups.len(),
        order.no_duplicates(),
        forall|v: int| #[trigger] order.contains(v) <==> 0 <= v < groups.len(),
    ensures
        count_ordered(groups, order, p, order.len() as int) == safety::count_in(groups, p),
    decreases groups.len(),
{
    if groups.len() > 0 {
        let last = groups.len() - 1;
        assert(order.contains(last));
        let at = order.index_of(last);
        let rest = order.remove(at);
        let fewer = groups.drop_last();
        lemma_count_without(groups, order, p, at, order.len() as int);
        assert forall|v: int| #[trigger] rest.contains(v) <==> 0 <= v < fewer.len() by {
            if rest.contains(v) {
                let k = choose|k: int| 0 <= k < rest.len() && rest[k] == v;
                if k < at {
                    assert(order[k] == v);
                } else {
                    assert(order[k + 1] == v);
                }
                assert(order.contains(v));
                assert(v != last);
            }
            if 0 <= v < fewer.len() {
                assert(order.contains(v));
                let k = order.index_of(v);
                if k < at {
                    assert(rest[k] == v);
                } else {
                    assert(rest[k - 1] == v);
                }
            }
        }
        assert(rest.no_duplicates()) by {
            assert forall|i: int, j: int|
                0 <= i < rest.len() && 0 <= j < rest.len() && i != j implies rest[i] != rest[j] by {
                let a = if i < at { i } else { i + 1 };
                let b = if j < at { j } else { j + 1 };
                assert(order[a] == rest[i] && order[b] == rest[j]);
            }
        }
        lemma_count_in_any_order(fewer, rest, p);
        assert forall|k: int| 0 <= k < rest.len() implies 0 <= #[trigger] rest[k]
            < fewer.len() by {
            assert(rest.contains(rest[k]));
        }
        lemma_count_ordered_prefix(groups, fewer, rest, p, rest.len() as int);
        lemma_count_groups_same(groups, fewer, p, last);
    }
}

proof fn lemma_count_without(
    groups: Seq<GroupView>,
    order: Seq<int>,
    p: spec_fn(ReportedView) -> bool,
    at: int,
    n: int,
)
    requires
        0 <= at < order.len(),
        0 <= n <= order.len(),
    ensures
        at < n ==> count_ordered(groups, order, p, n) == count_ordered(
            groups,
            order.remove(at),
            p,
            n - 1,
        ) + safety::count_all(groups[order[at]].findings, p),
        n <= at ==> count_ordered(groups, order, p, n) == count_ordered(
            groups,
            order.remove(at),
            p,
            n,
        ),
    decreases n,
{
    if n > 0 {
        lemma_count_without(groups, order, p, at, n - 1);
        if at < n - 1 {
            assert(order.remove(at)[n - 2] == order[n - 1]);
        } else if n <= at {
            assert(order.remove(at)[n - 1] == order[n - 1]);
        }
    }
}

proof fn lemma_count_ordered_prefix(
    a: Seq<GroupView>,
    b: Seq<GroupView>,
    order: Seq<int>,
    p: spec_fn(ReportedView) -> bool,
    n: int,
)
    requires
        b == a.drop_last(),
        a.len() > 0,
        n <= order.len(),
        forall|k: int| 0 <= k < order.len() ==> 0 <= #[trigger] order[k] < b.len(),
    ensures
        count_ordered(a, order, p, n) == count_ordered(b, order, p, n),
    decreases n,
{
    if n > 0 {
        lemma_count_ordered_prefix(a, b, order, p, n - 1);
        assert(a[order[n - 1]] == b[order[n - 1]]);
    }
}

proof fn lemma_count_groups_same(
    a: Seq<GroupView>,
    b: Seq<GroupView>,
    p: spec_fn(ReportedView) -> bool,
    n: int,
)
    requires
        a.len() > 0,
        b == a.drop_last(),
        n <= b.len(),
    ensures
        safety::count_groups(a, p, n) == safety::count_groups(b, p, n),
    decreases n,
{
    if n > 0 {
        lemma_count_groups_same(a, b, p, n - 1);
    }
}

proof fn lemma_count_any(list: Seq<ReportedView>, n: int)
    requires
        0 <= n,
    ensures
        safety::count(list, any_finding(), n) == n,
    decreases n,
{
    if n > 0 {
        lemma_count_any(list, n - 1);
    }
}

pub(crate) proof fn lemma_count_any_groups(groups: Seq<GroupView>, n: int)
    ensures
        safety::count_groups(groups, any_finding(), n) == findings::findings_in(groups, n),
    decreases n,
{
    if n > 0 {
        lemma_count_any_groups(groups, n - 1);
        lemma_count_any(groups[n - 1].findings, groups[n - 1].findings.len() as int);
    }
}

/// The cases of a suite with their numbers.
struct Cases {
    text: String,
    tests: usize,
    failures: usize,
    skipped: usize,
}

/// Whether no property is more frequent than a finding.
proof fn lemma_counts_bounded(
    groups: Seq<GroupView>,
    order: Seq<int>,
    p: spec_fn(ReportedView) -> bool,
    n: int,
)
    ensures
        count_ordered(groups, order, p, n) <= count_ordered(groups, order, any_finding(), n),
    decreases n,
{
    if n > 0 {
        lemma_counts_bounded(groups, order, p, n - 1);
        lemma_count_le(groups[order[n - 1]].findings, p, groups[order[n - 1]].findings.len() as int);
    }
}

proof fn lemma_count_le(list: Seq<ReportedView>, p: spec_fn(ReportedView) -> bool, n: int)
    requires
        0 <= n,
    ensures
        safety::count(list, p, n) <= safety::count(list, any_finding(), n),
    decreases n,
{
    if n > 0 {
        lemma_count_le(list, p, n - 1);
    }
}

proof fn lemma_ordered_grows(
    groups: Seq<GroupView>,
    order: Seq<int>,
    p: spec_fn(ReportedView) -> bool,
    m: int,
    n: int,
)
    requires
        m <= n,
    ensures
        count_ordered(groups, order, p, m) <= count_ordered(groups, order, p, n),
    decreases n - m,
{
    if m < n {
        lemma_ordered_grows(groups, order, p, m, n - 1);
    }
}

fn cases_of(r: &SafetyReport, class: &str) -> (c: Cases)
    ensures
        c.text@ == group_cases(
            r@,
            findings::name_order(r@.groups),
            class@,
            r@.groups.len() as int,
        ),
        c.tests == findings::total_findings(r@.groups),
        c.failures == safety::count_in(r@.groups, failing_cases(r@.strict)),
        c.skipped == safety::count_in(r@.groups, safety::acknowledged()),
{
    let order = findings::order_by_name(&r.findings_by_category);
    let count = r.findings_by_category.len();
    let ghost groups = r@.groups;
    let ghost wanted = findings::name_order(groups);
    proof {
        let keys = groups.map_values(|g: GroupView| findings::name_key(g));
        order::sorting_is_a_stable_permutation(keys);
        lemma_count_in_any_order(groups, wanted, any_finding());
        lemma_count_in_any_order(groups, wanted, failing_cases(r@.strict));
        lemma_count_in_any_order(groups, wanted, safety::acknowledged());
        lemma_count_any_groups(groups, groups.len() as int);
    }
    let mut c = Cases { text: "".to_string(), tests: 0, failures: 0, skipped: 0 };
    let mut i: usize = 0;
    while i < order.len()
        invariant
            i <= order@.len(),
            groups == r@.groups,
            order@.len() == groups.len(),
            wanted == order::as_ints(order@),
            forall|j: int| 0 <= j < order@.len() ==> #[trigger] order@[j] < groups.len(),
            count_ordered(groups, wanted, any_finding(), wanted.len() as int) <= usize::MAX,
            c.text@ == group_cases(r@, wanted, class@, i as int),
            c.tests == count_ordered(groups, wanted, any_finding(), i as int),
            c.failures == count_ordered(groups, wanted, failing_cases(r@.strict), i as int),
            c.skipped == count_ordered(groups, wanted, safety::acknowledged(), i as int),
        decreases order@.len() - i,
    {
        let at = order[i];
        assert(wanted[i as int] == at);
        let list = r.findings_by_category.findings(at);
        let ghost views = findings::reported_views(list@);
        assert(views == groups[at as int].findings);
        proof {
            lemma_ordered_grows(groups, wanted, any_finding(), i + 1, wanted.len() as int);
            lemma_counts_bounded(groups, wanted, failing_cases(r@.strict), i as int);
            lemma_counts_bounded(groups, wanted, safety::acknowledged(), i as int);
            lemma_count_any(views, views.len() as int);
        }
        let ghost tests = c.tests;
        let ghost failures = c.failures;
        let ghost skipped = c.skipped;
        let mut cases = "".to_string();
        let mut k: usize = 0;
        while k < list.len()
            invariant
                k <= list@.len(),
                views == findings::reported_views(list@),
                tests + list@.len() <= usize::MAX,
                failures <= tests,
                skipped <= tests,
                cases@ == test_cases(views, class@, r@.strict, k as int),
                c.tests == tests + k,
                c.failures == failures + safety::count(
                    views,
                    failing_cases(r@.strict),
                    k as int,
                ),
                c.skipped == skipped + safety::count(views, safety::acknowledged(), k as int),
                c.failures <= c.tests,
                c.skipped <= c.tests,
                c.text@ == group_cases(r@, wanted, class@, i as int),
            decreases list@.len() - k,
        {
            let f = &list[k];
            assert(views[k as int] == f@);
            cases.append(test_case_of(f, class, r.strict).as_str());
            c.tests = c.tests + 1;
            if f.suppressed {
                c.skipped = c.skipped + 1;
            }
            if case_fails_of(f, r.strict) {
                c.failures = c.failures + 1;
            }
            k = k + 1;
        }
        let mut all = c.text.clone();
        all.append(cases.as_str());
        c.text = all;
        i = i + 1;
    }
    c
}

/// The case of a suite without findings.
pub open spec fn empty_case(class: Seq<char>) -> Seq<char> {
    "    <testcase classname=\""@ + escape::xml_text(class)
        + "\" name=\"no breaking changes detected\"/>\n"@
}

/// The cases of a suite, of which there is at least one.
pub open spec fn suite_cases(r: ReportView, class: Seq<char>) -> Seq<char> {
    group_cases(r, findings::name_order(r.groups), class, r.groups.len() as int) + (
    if findings::total_findings(r.groups) == 0 {
        empty_case(class)
    } else {
        ""@
    })
}

/// The number of cases of a suite.
pub open spec fn suite_tests(r: ReportView) -> nat {
    if findings::total_findings(r.groups) == 0 {
        1
    } else {
        findings::total_findings(r.groups)
    }
}

/// The notice that a configuration turned the verdict.
pub open spec fn suite_notice(r: ReportView) -> Seq<char> {
    match status::verdict_notice(r) {
        Some(t) => "    <system-out>"@ + escape::xml_text(t) + "</system-out>\n"@,
        None => ""@,
    }
}

fn suite_notice_of(r: &SafetyReport) -> (out: String)
    ensures
        out@ == suite_notice(r@),
{
    match r.override_verdict_notice() {
        Some(t) => text::three(
            "    <system-out>",
            escape::escape_xml(t.as_str()).as_str(),
            "</system-out>\n",
        ),
        None => "".to_string(),
    }
}

/// The name of a suite.
pub open spec fn suite_title(name: Option<&str>) -> Seq<char> {
    match name {
        Some(n) => n@,
        None => "soroban-upgrade-safeguard"@,
    }
}

/// The class that the cases of a suite belong to.
pub open spec fn suite_class(name: Option<&str>) -> Seq<char> {
    "soroban-upgrade-safeguard."@ + suite_title(name)
}

/// The report as a test suite.
pub open spec fn summary_junit(r: ReportView, name: Option<&str>) -> Seq<char> {
    "  <testsuite name=\""@ + escape::xml_text(suite_title(name)) + "\" tests=\""@ + text::decimal(
        suite_tests(r),
    ) + "\" failures=\""@ + text::decimal(
        safety::count_in(r.groups, failing_cases(r.strict)),
    ) + "\" errors=\"0\" skipped=\""@ + text::decimal(
        safety::count_in(r.groups, safety::acknowledged()),
    ) + "\">\n"@ + suite_cases(r, suite_class(name)) + suite_notice(r) + "  </testsuite>\n"@
}

impl SafetyReport {
    /// The report as a test suite. A critical finding is a failure, a warning is
    /// one in strict mode, and an acknowledged finding is skipped. A report
    /// without findings has one passing case.
    pub fn generate_summary_junit(&self, suite_name: Option<&str>) -> (r: String)
        ensures
            r@ == summary_junit(self@, suite_name),
    {
        let suite = match suite_name {
            Some(n) => n,
            None => "soroban-upgrade-safeguard",
        };
        let class = text::two("soroban-upgrade-safeguard.", suite);
        let c = cases_of(self, class.as_str());
        let mut cases = c.text.clone();
        let mut tests: usize = c.tests;
        if tests == 0 {
            tests = 1;
            let mut none = "    <testcase classname=\"".to_string();
            none.append(escape::escape_xml(class.as_str()).as_str());
            none.append("\" name=\"no breaking changes detected\"/>\n");
            cases.append(none.as_str());
        } else {
            cases.append("");
        }
        let mut out = "  <testsuite name=\"".to_string();
        out.append(escape::escape_xml(suite).as_str());
        out.append("\" tests=\"");
        out.append(text::number(tests).as_str());
        out.append("\" failures=\"");
        out.append(text::number(c.failures).as_str());
        out.append("\" errors=\"0\" skipped=\"");
        out.append(text::number(c.skipped).as_str());
        out.append("\">\n");
        out.append(cases.as_str());
        out.append(suite_notice_of(self).as_str());
        out.append("  </testsuite>\n");
        out
    }
}

proof fn lemma_failed_and_skipped(list: Seq<ReportedView>, strict: bool, n: int)
    requires
        0 <= n,
    ensures
        safety::count(list, failing_cases(strict), n) + safety::count(
            list,
            safety::acknowledged(),
            n,
        ) <= n,
        safety::count(list, failing_cases(false), n) <= safety::count(
            list,
            failing_cases(true),
            n,
        ),
    decreases n,
{
    if n > 0 {
        lemma_failed_and_skipped(list, strict, n - 1);
    }
}

proof fn lemma_failed_and_skipped_in(groups: Seq<GroupView>, strict: bool, n: int)
    ensures
        safety::count_groups(groups, failing_cases(strict), n) + safety::count_groups(
            groups,
            safety::acknowledged(),
            n,
        ) <= findings::findings_in(groups, n),
        safety::count_groups(groups, failing_cases(false), n) <= safety::count_groups(
            groups,
            failing_cases(true),
            n,
        ),
    decreases n,
{
    if n > 0 {
        lemma_failed_and_skipped_in(groups, strict, n - 1);
        lemma_failed_and_skipped(
            groups[n - 1].findings,
            strict,
            groups[n - 1].findings.len() as int,
        );
    }
}

/// A suite is never empty, and no case both fails and is skipped.
pub proof fn a_suite_has_a_case(r: ReportView)
    ensures
        suite_tests(r) >= 1,
        safety::count_in(r.groups, failing_cases(r.strict)) + safety::count_in(
            r.groups,
            safety::acknowledged(),
        ) <= suite_tests(r),
{
    lemma_failed_and_skipped_in(r.groups, r.strict, r.groups.len() as int);
}

/// Strict mode never has fewer failing cases.
pub proof fn strict_mode_fails_no_fewer_cases(groups: Seq<GroupView>)
    ensures
        safety::count_in(groups, failing_cases(false)) <= safety::count_in(
            groups,
            failing_cases(true),
        ),
{
    lemma_failed_and_skipped_in(groups, false, groups.len() as int);
}

/// A JUnit document.
pub open spec fn document(name: Seq<char>, suites: Seq<char>) -> Seq<char> {
    "<?xml version=\"1.0\" encoding=\"UTF-8\"?>\n<testsuites name=\""@ + escape::xml_text(name)
        + "\">\n"@ + suites + "</testsuites>\n"@
}

/// A JUnit document that holds test suites.
pub fn junit_document(name: &str, suites: &str) -> (r: String)
    ensures
        r@ == document(name@, suites@),
{
    let mut out =
        "<?xml version=\"1.0\" encoding=\"UTF-8\"?>\n<testsuites name=\"".to_string();
    out.append(escape::escape_xml(name).as_str());
    out.append("\">\n");
    out.append(suites);
    out.append("</testsuites>\n");
    out
}

} // verus!
