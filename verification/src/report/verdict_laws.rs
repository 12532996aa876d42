//! A test suite fails where the upgrade does, and says so.

use vstd::prelude::*;

use crate::diff;
use crate::diff::FindingView;
use crate::diff::Severity;
use crate::limits::ResourcePolicy;
use crate::report::escape;
use crate::report::filter::FilterView;
use crate::report::filtering;
use crate::report::findings;
use crate::report::findings::GroupView;
use crate::report::findings::ReportedView;
use crate::report::junit;
use crate::report::laws;
use crate::report::parts;
use crate::report::safety;
use crate::report::safety::ReportView;
use crate::report::status;
use crate::suppression::ConfigView;
use crate::text;

verus! {

proof fn lemma_failing_cases(list: Seq<ReportedView>, strict: bool, n: int)
    ensures
        safety::count(list, junit::failing_cases(strict), n) == safety::count(
            list,
            safety::failing_at(Severity::Critical),
            n,
        ) + (if strict {
            safety::count(list, safety::failing_at(Severity::Warning), n)
        } else {
            0
        }),
    decreases n,
{
    if n > 0 {
        lemma_failing_cases(list, strict, n - 1);
    }
}

proof fn lemma_failing_cases_in(groups: Seq<GroupView>, strict: bool, n: int)
    ensures
        safety::count_groups(groups, junit::failing_cases(strict), n) == safety::count_groups(
            groups,
            safety::failing_at(Severity::Critical),
            n,
        ) + (if strict {
            safety::count_groups(groups, safety::failing_at(Severity::Warning), n)
        } else {
            0
        }),
    decreases n,
{
    if n > 0 {
        lemma_failing_cases_in(groups, strict, n - 1);
        lemma_failing_cases(groups[n - 1].findings, strict, groups[n - 1].findings.len() as int);
    }
}

/// After a filter a suite has a failing case exactly where the upgrade is not
/// safe.
pub proof fn a_filtered_suite_fails_with_the_verdict(r: ReportView, f: FilterView)
    ensures
        filtering::filtered(r, f).is_safe <==> safety::count_in(
            filtering::filtered(r, f).groups,
            junit::failing_cases(r.strict),
        ) == 0,
{
    let left = filtering::filtered(r, f).groups;
    lemma_failing_cases_in(left, r.strict, left.len() as int);
}

/// A suite has a failing case exactly where the upgrade is not safe, whatever
/// filters the report went through.
pub proof fn a_suite_fails_with_the_verdict(
    found: Seq<FindingView>,
    config: ConfigView,
    explain: bool,
    strict: bool,
    policy: ResourcePolicy,
    filters: Seq<FilterView>,
)
    ensures
        ({
            let r = filtering::filtered_by(
                safety::report_on(found, config, explain, strict, policy),
                filters,
            );
            r.is_safe <==> safety::count_in(r.groups, junit::failing_cases(r.strict)) == 0
        }),
{
    let fresh = safety::report_on(found, config, explain, strict, policy);
    if filters.len() == 0 {
        let list = safety::listed(found, config, explain);
        laws::grouping_keeps_every_count(
            found,
            config,
            explain,
            strict,
            policy,
            junit::failing_cases(strict),
        );
        lemma_failing_cases(list, strict, list.len() as int);
    } else {
        let before = filtering::filtered_by(fresh, filters.drop_last());
        a_filtered_suite_fails_with_the_verdict(before, filters.last());
    }
}

/// Whether the quotation mark at `j` does not open the declaration that no case
/// fails: it does not stand before a zero, or an attribute of another name stands
/// before it.
spec fn opens_another(s: Seq<char>, j: int) -> bool {
    ||| j + 1 < s.len() && s[j + 1] != '0'
    ||| j >= 3 && s[j - 1] == '=' && !(s[j - 2] == 's' && s[j - 3] == 'e')
}

/// Whether no quotation mark but the one at `at` opens the declaration.
spec fn others_but(s: Seq<char>, at: int) -> bool {
    forall|j: int| 0 <= j < s.len() && j != at && #[trigger] s[j] == '"' ==> opens_another(s, j)
}

broadcast proof fn lemma_others_joined(a: Seq<char>, b: Seq<char>, at: int)
    requires
        others_but(a, at),
        others_but(b, -1),
    ensures
        #[trigger] others_but(a + b, at),
{
    let s = a + b;
    assert forall|j: int| 0 <= j < s.len() && j != at && #[trigger] s[j] == '"' implies opens_another(
        s,
        j,
    ) by {
        if j < a.len() {
            assert(a[j] == '"');
            assert(opens_another(a, j));
        } else {
            assert(b[j - a.len()] == '"');
            assert(opens_another(b, j - a.len()));
        }
    }
}

proof fn lemma_escaped(s: Seq<char>)
    ensures
        others_but(escape::xml_text(s), -1),
{
    escape::xml_text_holds_no_markup(s);
}

proof fn lemma_digits(n: nat)
    ensures
        text::decimal(n).len() > 0,
        forall|i: int| 0 <= i < text::decimal(n).len() ==> #[trigger] text::decimal(n)[i] != '"',
        text::decimal(n)[0] == '0' <==> n == 0,
        others_but(text::decimal(n), -1),
    decreases n,
{
    if n >= 10 {
        lemma_digits(n / 10);
        let front = text::decimal(n / 10);
        assert forall|i: int| 0 <= i < text::decimal(n).len() implies #[trigger] text::decimal(n)[i]
            != '"' by {
            if i < front.len() {
                assert(text::decimal(n)[i] == front[i]);
            }
        }
        assert(text::decimal(n)[0] == front[0]);
    }
}

proof fn lemma_case_texts()
    ensures
        others_but("    <testcase classname=\""@, -1),
        others_but("\" name=\""@, -1),
        others_but(">\n      <skipped message=\""@, -1),
        others_but("\"/>\n    </testcase>\n"@, -1),
        others_but(">\n      <failure type=\""@, -1),
        others_but("\" message=\""@, -1),
        others_but("\">"@, -1),
        others_but("</failure>\n    </testcase>\n"@, -1),
        others_but(">\n      <system-out>"@, -1),
        others_but("</system-out>\n    </testcase>\n"@, -1),
        others_but(""@, -1),
{
    reveal_strlit("    <testcase classname=\"");
    reveal_strlit("\" name=\"");
    reveal_strlit(">\n      <skipped message=\"");
    reveal_strlit("\"/>\n    </testcase>\n");
    reveal_strlit(">\n      <failure type=\"");
    reveal_strlit("\" message=\"");
    reveal_strlit("\">");
    reveal_strlit("</failure>\n    </testcase>\n");
    reveal_strlit(">\n      <system-out>");
    reveal_strlit("</system-out>\n    </testcase>\n");
    reveal_strlit("");
}

proof fn lemma_outcome(f: ReportedView, strict: bool)
    ensures
        others_but(junit::case_outcome(f, strict), -1),
        junit::case_outcome(f, strict).len() > 0,
        junit::case_outcome(f, strict)[0] == '>',
{
    broadcast use lemma_others_joined;

    lemma_case_texts();
    lemma_escaped(parts::or_else(f.suppression_reason, "acknowledged by a suppression rule"@));
    lemma_escaped(diff::severity_label(f.finding.severity));
    lemma_escaped(f.finding.message);
    lemma_escaped(junit::case_body(f));
    reveal_strlit(">\n      <skipped message=\"");
    reveal_strlit(">\n      <failure type=\"");
    reveal_strlit(">\n      <system-out>");
}

proof fn lemma_case(f: ReportedView, class: Seq<char>, strict: bool)
    ensures
        others_but(junit::test_case(f, class, strict), -1),
{
    broadcast use lemma_others_joined;

    lemma_case_texts();
    lemma_escaped(class);
    lemma_escaped(junit::case_name(f));
    lemma_outcome(f, strict);
    reveal_strlit("\"");
    let front = "    <testcase classname=\""@ + escape::xml_text(class) + "\" name=\""@
        + escape::xml_text(junit::case_name(f));
    let outcome = junit::case_outcome(f, strict);
    assert(others_but(front, -1));
    let back = "\""@ + outcome;
    assert forall|j: int| 0 <= j < back.len() && #[trigger] back[j] == '"' implies opens_another(
        back,
        j,
    ) by {
        if j == 0 {
            assert(back[1] == outcome[0]);
        } else {
            assert(outcome[j - 1] == '"');
            assert(opens_another(outcome, j - 1));
        }
    }
    assert(junit::test_case(f, class, strict) =~= front + back);
}

proof fn lemma_cases(list: Seq<ReportedView>, class: Seq<char>, strict: bool, n: int)
    ensures
        others_but(junit::test_cases(list, class, strict, n), -1),
    decreases n,
{
    broadcast use lemma_others_joined;

    if n > 0 {
        lemma_cases(list, class, strict, n - 1);
        lemma_case(list[n - 1], class, strict);
    } else {
        lemma_case_texts();
    }
}

proof fn lemma_groups(r: ReportView, order: Seq<int>, class: Seq<char>, n: int)
    ensures
        others_but(junit::group_cases(r, order, class, n), -1),
    decreases n,
{
    broadcast use lemma_others_joined;

    if n > 0 {
        let list = r.groups[order[n - 1]].findings;
        lemma_groups(r, order, class, n - 1);
        lemma_cases(list, class, r.strict, list.len() as int);
    } else {
        lemma_case_texts();
    }
}

proof fn lemma_suite_body(r: ReportView, class: Seq<char>)
    ensures
        others_but(junit::suite_cases(r, class), -1),
        others_but(junit::suite_notice(r), -1),
{
    broadcast use lemma_others_joined;

    lemma_case_texts();
    lemma_escaped(class);
    lemma_groups(r, findings::name_order(r.groups), class, r.groups.len() as int);
    reveal_strlit("\" name=\"no breaking changes detected\"/>\n");
    reveal_strlit("    <system-out>");
    reveal_strlit("</system-out>\n");
    assert(others_but("\" name=\"no breaking changes detected\"/>\n"@, -1));
    assert(others_but("    <system-out>"@, -1));
    assert(others_but("</system-out>\n"@, -1));
    assert(others_but(junit::empty_case(class), -1));
    match status::verdict_notice(r) {
        Some(t) => {
            lemma_escaped(t);
        },
        None => {},
    }
}

/// What a suite without failing cases declares.
pub open spec fn no_failures() -> Seq<char> {
    " failures=\"0\" "@
}

/// A suite declares that no case fails exactly where none does, whatever stands
/// in the texts of its findings.
pub proof fn a_suite_declares_whether_it_fails(r: ReportView, name: Option<&str>)
    ensures
        text::has_sub(junit::summary_junit(r, name), no_failures()) <==> safety::count_in(
            r.groups,
            junit::failing_cases(r.strict),
        ) == 0,
{
    broadcast use lemma_others_joined;

    let failures = safety::count_in(r.groups, junit::failing_cases(r.strict));
    let skipped = safety::count_in(r.groups, safety::acknowledged());
    let class = junit::suite_class(name);
    let s = junit::summary_junit(r, name);
    let pat = no_failures();
    let front = "  <testsuite name=\""@ + escape::xml_text(junit::suite_title(name))
        + "\" tests=\""@ + text::decimal(junit::suite_tests(r));
    let head = front + "\" failures=\""@ + text::decimal(failures);
    let more = head + "\" errors=\"0\" skipped=\""@;
    let at = front.len() as int + 11;
    lemma_escaped(junit::suite_title(name));
    lemma_digits(junit::suite_tests(r));
    lemma_digits(failures);
    lemma_digits(skipped);
    lemma_suite_body(r, class);
    reveal_strlit(" failures=\"0\" ");
    reveal_strlit("  <testsuite name=\"");
    reveal_strlit("\" tests=\"");
    reveal_strlit("\" failures=\"");
    reveal_strlit("\" errors=\"0\" skipped=\"");
    reveal_strlit("\">\n");
    reveal_strlit("  </testsuite>\n");
    assert(others_but("  <testsuite name=\""@, -1));
    assert(others_but("\" tests=\""@, -1));
    assert(others_but("\" errors=\"0\" skipped=\""@, -1));
    assert(others_but("\">\n"@, -1));
    assert(others_but("  </testsuite>\n"@, -1));
    assert(others_but(front, -1));
    let opened = front + "\" failures=\""@;
    assert forall|j: int|
        0 <= j < opened.len() && j != at && #[trigger] opened[j] == '"' implies opens_another(
        opened,
        j,
    ) by {
        if j < front.len() {
            assert(front[j] == '"');
            assert(opens_another(front, j));
        }
    }
    assert(others_but(opened, at));
    assert(others_but(more, at));
    let rest = text::decimal(skipped) + "\">\n"@ + junit::suite_cases(r, class)
        + junit::suite_notice(r) + "  </testsuite>\n"@;
    assert(others_but(rest, -1));
    assert(s =~= more + rest);
    text::lemma_first_at(s, 0, pat);
    if text::has_sub(s, pat) {
        let i = text::first_at(s, 0, pat)->0;
        let part = s.subrange(i, i + pat.len());
        assert(part[7] == 'e' && part[8] == 's' && part[9] == '=' && part[10] == '"' && part[11]
            == '0');
        assert(s[i + 10] == '"');
        assert(s[i + 7] == 'e' && s[i + 8] == 's' && s[i + 9] == '=' && s[i + 11] == '0');
        assert(!opens_another(s, i + 10));
        assert(i + 10 == at);
        assert(s[at + 1] == text::decimal(failures)[0]);
    }
    if failures == 0 {
        let i = at - 10;
        assert(more.subrange(i, i + pat.len()) =~= pat);
        assert(s.subrange(i, i + pat.len()) =~= more.subrange(i, i + pat.len()));
        assert(text::occurs_at(s, i, pat));
    }
}

/// The suite of a report declares that no case fails exactly where the upgrade is
/// safe, whatever filters the report went through.
pub proof fn a_suite_declares_the_verdict(
    found: Seq<FindingView>,
    config: ConfigView,
    explain: bool,
    strict: bool,
    policy: ResourcePolicy,
    filters: Seq<FilterView>,
    name: Option<&str>,
)
    ensures
        ({
            let r = filtering::filtered_by(
                safety::report_on(found, config, explain, strict, policy),
                filters,
            );
            text::has_sub(junit::summary_junit(r, name), no_failures()) <==> r.is_safe
        }),
{
    let r = filtering::filtered_by(
        safety::report_on(found, config, explain, strict, policy),
        filters,
    );
    a_suite_fails_with_the_verdict(found, config, explain, strict, policy, filters);
    a_suite_declares_whether_it_fails(r, name);
}

} // verus!
