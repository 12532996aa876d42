//! In which order a report tells its findings.

use vstd::prelude::*;

use crate::report::actions;
use crate::report::findings;
use crate::report::findings::GroupView;
use crate::report::findings::ReportedView;
use crate::report::html;
use crate::report::junit;
use crate::report::markdown;
use crate::report::safety::ReportView;
use crate::report::text_format;
use crate::report::text_laws;
use crate::style::SpanView;
use crate::text;

verus! {

proof fn lemma_adjacent(p: Seq<char>, a: Seq<char>, b: Seq<char>)
    ensures
        text::has_sub(p + a + b, a + b),
{
    text::lemma_sub_of_itself(a + b);
    text::lemma_sub_of_joined(p, a + b, a + b);
    assert(p + a + b =~= p + (a + b));
}

proof fn lemma_adjacent_spans(p: Seq<SpanView>, a: Seq<SpanView>, b: Seq<SpanView>)
    ensures
        text_laws::holds(p + a + b, a + b),
{
    text_laws::lemma_held(a + b, 0, a + b);
    text_laws::lemma_held_by_joined(p, a + b, a + b);
    assert(p + a + b =~= p + (a + b));
}

proof fn lemma_groups_md(r: ReportView, order: Seq<int>, i: int, n: int)
    requires
        0 <= i,
        i + 1 < n,
    ensures
        text::has_sub(
            markdown::groups_md(r, order, n),
            markdown::group_md(r.groups[order[i]], r.settings.explain) + markdown::group_md(
                r.groups[order[i + 1]],
                r.settings.explain,
            ),
        ),
    decreases n,
{
    broadcast use text::lemma_sub_of_joined;

    if i + 2 == n {
        reveal_with_fuel(markdown::groups_md, 3);
        lemma_adjacent(
            markdown::groups_md(r, order, i),
            markdown::group_md(r.groups[order[i]], r.settings.explain),
            markdown::group_md(r.groups[order[i + 1]], r.settings.explain),
        );
    } else {
        lemma_groups_md(r, order, i, n - 1);
    }
}

proof fn lemma_findings_md(
    list: Seq<ReportedView>,
    order: Seq<int>,
    explain: bool,
    i: int,
    n: int,
)
    requires
        0 <= i,
        i + 1 < n,
    ensures
        text::has_sub(
            markdown::findings_md(list, order, explain, n),
            markdown::finding_md(list[order[i]], explain) + markdown::finding_md(
                list[order[i + 1]],
                explain,
            ),
        ),
    decreases n,
{
    broadcast use text::lemma_sub_of_joined;

    if i + 2 == n {
        reveal_with_fuel(markdown::findings_md, 3);
        lemma_adjacent(
            markdown::findings_md(list, order, explain, i),
            markdown::finding_md(list[order[i]], explain),
            markdown::finding_md(list[order[i + 1]], explain),
        );
    } else {
        lemma_findings_md(list, order, explain, i, n - 1);
    }
}

/// The Markdown report tells its categories by severity: each one stands right before
/// the next one in that order.
pub proof fn the_markdown_tells_by_severity(r: ReportView, i: int)
    requires
        r.total_findings > 0,
        0 <= i,
        i + 1 < r.groups.len(),
    ensures
        ({
            let s = findings::severity_order(r.groups);
            text::has_sub(
                markdown::summary_md(r),
                markdown::group_md(r.groups[s[i]], r.settings.explain) + markdown::group_md(
                    r.groups[s[i + 1]],
                    r.settings.explain,
                ),
            )
        }),
{
    broadcast use text::lemma_sub_of_joined;

    lemma_groups_md(r, findings::severity_order(r.groups), i, r.groups.len() as int);
}

/// A category of the Markdown report tells its findings by message.
pub proof fn the_markdown_tells_by_message(g: GroupView, explain: bool, i: int)
    requires
        0 <= i,
        i + 1 < g.findings.len(),
    ensures
        ({
            let s = findings::message_order(g.findings);
            text::has_sub(
                markdown::group_md(g, explain),
                markdown::finding_md(g.findings[s[i]], explain) + markdown::finding_md(
                    g.findings[s[i + 1]],
                    explain,
                ),
            )
        }),
{
    broadcast use text::lemma_sub_of_joined;

    lemma_findings_md(
        g.findings,
        findings::message_order(g.findings),
        explain,
        i,
        g.findings.len() as int,
    );
}

proof fn lemma_groups_html(groups: Seq<GroupView>, order: Seq<int>, i: int, n: int)
    requires
        0 <= i,
        i + 1 < n,
    ensures
        text::has_sub(
            html::groups_html(groups, order, n),
            html::group_html(groups[order[i]]) + html::group_html(groups[order[i + 1]]),
        ),
    decreases n,
{
    broadcast use text::lemma_sub_of_joined;

    if i + 2 == n {
        reveal_with_fuel(html::groups_html, 3);
        lemma_adjacent(
            html::groups_html(groups, order, i),
            html::group_html(groups[order[i]]),
            html::group_html(groups[order[i + 1]]),
        );
    } else {
        lemma_groups_html(groups, order, i, n - 1);
    }
}

proof fn lemma_findings_html(list: Seq<ReportedView>, order: Seq<int>, i: int, n: int)
    requires
        0 <= i,
        i + 1 < n,
    ensures
        text::has_sub(
            html::findings_html(list, order, n),
            html::finding_html(list[order[i]]) + html::finding_html(list[order[i + 1]]),
        ),
    decreases n,
{
    broadcast use text::lemma_sub_of_joined;

    if i + 2 == n {
        reveal_with_fuel(html::findings_html, 3);
        lemma_adjacent(
            html::findings_html(list, order, i),
            html::finding_html(list[order[i]]),
            html::finding_html(list[order[i + 1]]),
        );
    } else {
        lemma_findings_html(list, order, i, n - 1);
    }
}

/// The page tells its categories by severity, and the findings of each one by message.
pub proof fn the_page_tells_by_severity_and_message(
    r: ReportView,
    heading: Option<&str>,
    top_level: bool,
    g: GroupView,
    i: int,
)
    requires
        0 <= i,
    ensures
        ({
            let s = findings::severity_order(r.groups);
            r.total_findings > 0 && i + 1 < r.groups.len() ==> text::has_sub(
                html::section(r, heading, top_level),
                html::group_html(r.groups[s[i]]) + html::group_html(r.groups[s[i + 1]]),
            )
        }),
        ({
            let s = findings::message_order(g.findings);
            i + 1 < g.findings.len() ==> text::has_sub(
                html::group_html(g),
                html::finding_html(g.findings[s[i]]) + html::finding_html(g.findings[s[i + 1]]),
            )
        }),
{
    broadcast use text::lemma_sub_of_joined;

    if r.total_findings > 0 && i + 1 < r.groups.len() {
        lemma_groups_html(r.groups, findings::severity_order(r.groups), i, r.groups.len() as int);
    }
    if i + 1 < g.findings.len() {
        lemma_findings_html(
            g.findings,
            findings::message_order(g.findings),
            i,
            g.findings.len() as int,
        );
    }
}

proof fn lemma_group_annotations(r: ReportView, order: Seq<int>, i: int, n: int)
    requires
        0 <= i,
        i + 1 < n,
    ensures
        ({
            let a = r.groups[order[i]].findings;
            let b = r.groups[order[i + 1]].findings;
            text::has_sub(
                actions::group_annotations(r, order, n),
                actions::annotations(a, a.len() as int) + actions::annotations(b, b.len() as int),
            )
        }),
    decreases n,
{
    broadcast use text::lemma_sub_of_joined;

    if i + 2 == n {
        reveal_with_fuel(actions::group_annotations, 3);
        let a = r.groups[order[i]].findings;
        let b = r.groups[order[i + 1]].findings;
        lemma_adjacent(
            actions::group_annotations(r, order, i),
            actions::annotations(a, a.len() as int),
            actions::annotations(b, b.len() as int),
        );
    } else {
        lemma_group_annotations(r, order, i, n - 1);
    }
}

proof fn lemma_annotations(list: Seq<ReportedView>, i: int, n: int)
    requires
        0 <= i,
        i + 1 < n,
    ensures
        text::has_sub(
            actions::annotations(list, n),
            actions::annotation(list[i]) + actions::annotation(list[i + 1]),
        ),
    decreases n,
{
    broadcast use text::lemma_sub_of_joined;

    if i + 2 == n {
        reveal_with_fuel(actions::annotations, 3);
        lemma_adjacent(
            actions::annotations(list, i),
            actions::annotation(list[i]),
            actions::annotation(list[i + 1]),
        );
    } else {
        lemma_annotations(list, i, n - 1);
    }
}

/// Annotations come by the name of their category, those of one category in the order
/// in which the findings were found.
pub proof fn annotations_come_by_name(
    r: ReportView,
    title: Option<&str>,
    list: Seq<ReportedView>,
    i: int,
)
    requires
        0 <= i,
    ensures
        ({
            let s = findings::name_order(r.groups);
            let a = r.groups[s[i]].findings;
            let b = r.groups[s[i + 1]].findings;
            i + 1 < r.groups.len() ==> text::has_sub(
                actions::summary_actions(r, title),
                actions::annotations(a, a.len() as int) + actions::annotations(b, b.len() as int),
            )
        }),
        i + 1 < list.len() ==> text::has_sub(
            actions::annotations(list, list.len() as int),
            actions::annotation(list[i]) + actions::annotation(list[i + 1]),
        ),
{
    broadcast use text::lemma_sub_of_joined;

    if i + 1 < r.groups.len() {
        lemma_group_annotations(r, findings::name_order(r.groups), i, r.groups.len() as int);
    }
    if i + 1 < list.len() {
        lemma_annotations(list, i, list.len() as int);
    }
}

proof fn lemma_group_cases(r: ReportView, order: Seq<int>, class: Seq<char>, i: int, n: int)
    requires
        0 <= i,
        i + 1 < n,
    ensures
        ({
            let a = r.groups[order[i]].findings;
            let b = r.groups[order[i + 1]].findings;
            text::has_sub(
                junit::group_cases(r, order, class, n),
                junit::test_cases(a, class, r.strict, a.len() as int) + junit::test_cases(
                    b,
                    class,
                    r.strict,
                    b.len() as int,
                ),
            )
        }),
    decreases n,
{
    broadcast use text::lemma_sub_of_joined;

    if i + 2 == n {
        reveal_with_fuel(junit::group_cases, 3);
        let a = r.groups[order[i]].findings;
        let b = r.groups[order[i + 1]].findings;
        lemma_adjacent(
            junit::group_cases(r, order, class, i),
            junit::test_cases(a, class, r.strict, a.len() as int),
            junit::test_cases(b, class, r.strict, b.len() as int),
        );
    } else {
        lemma_group_cases(r, order, class, i, n - 1);
    }
}

proof fn lemma_test_cases(list: Seq<ReportedView>, class: Seq<char>, strict: bool, i: int, n: int)
    requires
        0 <= i,
        i + 1 < n,
    ensures
        text::has_sub(
            junit::test_cases(list, class, strict, n),
            junit::test_case(list[i], class, strict) + junit::test_case(list[i + 1], class, strict),
        ),
    decreases n,
{
    broadcast use text::lemma_sub_of_joined;

    if i + 2 == n {
        reveal_with_fuel(junit::test_cases, 3);
        lemma_adjacent(
            junit::test_cases(list, class, strict, i),
            junit::test_case(list[i], class, strict),
            junit::test_case(list[i + 1], class, strict),
        );
    } else {
        lemma_test_cases(list, class, strict, i, n - 1);
    }
}

/// The cases of a test suite come by the name of their category, those of one category
/// in the order in which the findings were found.
pub proof fn test_cases_come_by_name(
    r: ReportView,
    class: Seq<char>,
    list: Seq<ReportedView>,
    strict: bool,
    i: int,
)
    requires
        0 <= i,
    ensures
        ({
            let s = findings::name_order(r.groups);
            let a = r.groups[s[i]].findings;
            let b = r.groups[s[i + 1]].findings;
            i + 1 < r.groups.len() ==> text::has_sub(
                junit::suite_cases(r, class),
                junit::test_cases(a, class, r.strict, a.len() as int) + junit::test_cases(
                    b,
                    class,
                    r.strict,
                    b.len() as int,
                ),
            )
        }),
        i + 1 < list.len() ==> text::has_sub(
            junit::test_cases(list, class, strict, list.len() as int),
            junit::test_case(list[i], class, strict) + junit::test_case(list[i + 1], class, strict),
        ),
{
    broadcast use text::lemma_sub_of_joined;

    if i + 1 < r.groups.len() {
        lemma_group_cases(r, findings::name_order(r.groups), class, i, r.groups.len() as int);
    }
    if i + 1 < list.len() {
        lemma_test_cases(list, class, strict, i, list.len() as int);
    }
}

proof fn lemma_groups_text(r: ReportView, order: Seq<int>, explain: bool, i: int, n: int)
    requires
        0 <= i,
        i + 1 < n,
    ensures
        text_laws::holds(
            text_format::groups_text(r, order, explain, n),
            text_format::group_text(r, r.groups[order[i]], explain) + text_format::group_text(
                r,
                r.groups[order[i + 1]],
                explain,
            ),
        ),
    decreases n,
{
    if i + 2 == n {
        reveal_with_fuel(text_format::groups_text, 3);
        let p = text_format::groups_text(r, order, explain, i);
        let a = text_format::group_text(r, r.groups[order[i]], explain);
        let b = text_format::group_text(r, r.groups[order[i + 1]], explain);
        lemma_adjacent_spans(p, a, b);
    } else {
        lemma_groups_text(r, order, explain, i, n - 1);
        let a = text_format::group_text(r, r.groups[order[i]], explain);
        let b = text_format::group_text(r, r.groups[order[i + 1]], explain);
        text_laws::lemma_held_by_joined(
            text_format::groups_text(r, order, explain, n - 1),
            text_format::group_text(r, r.groups[order[n - 1]], explain),
            a + b,
        );
    }
}

proof fn lemma_findings_text(
    r: ReportView,
    list: Seq<ReportedView>,
    order: Seq<int>,
    explain: bool,
    i: int,
    n: int,
)
    requires
        0 <= i,
        i + 1 < n,
    ensures
        text_laws::holds(
            text_format::findings_text(r, list, order, explain, n),
            text_format::finding_text(r, list[order[i]], explain) + text_format::finding_text(
                r,
                list[order[i + 1]],
                explain,
            ),
        ),
    decreases n,
{
    if i + 2 == n {
        reveal_with_fuel(text_format::findings_text, 3);
        let p = text_format::findings_text(r, list, order, explain, i);
        let a = text_format::finding_text(r, list[order[i]], explain);
        let b = text_format::finding_text(r, list[order[i + 1]], explain);
        lemma_adjacent_spans(p, a, b);
    } else {
        lemma_findings_text(r, list, order, explain, i, n - 1);
        let a = text_format::finding_text(r, list[order[i]], explain);
        let b = text_format::finding_text(r, list[order[i + 1]], explain);
        text_laws::lemma_held_by_joined(
            text_format::findings_text(r, list, order, explain, n - 1),
            text_format::finding_text(r, list[order[n - 1]], explain),
            a + b,
        );
    }
}

/// The text report tells its categories by severity.
pub proof fn the_text_tells_by_severity(r: ReportView, explain: bool, i: int)
    requires
        r.total_findings > 0,
        0 <= i,
        i + 1 < r.groups.len(),
    ensures
        ({
            let s = findings::severity_order(r.groups);
            text_laws::holds(
                text_format::summary_text(r, explain),
                text_format::group_text(r, r.groups[s[i]], explain) + text_format::group_text(
                    r,
                    r.groups[s[i + 1]],
                    explain,
                ),
            )
        }),
{
    broadcast use text_laws::lemma_held_by_joined;

    lemma_groups_text(r, findings::severity_order(r.groups), explain, i, r.groups.len() as int);
}

/// A category of the text report tells its findings by message.
pub proof fn the_text_tells_by_message(r: ReportView, g: GroupView, explain: bool, i: int)
    requires
        0 <= i,
        i + 1 < g.findings.len(),
    ensures
        ({
            let s = findings::message_order(g.findings);
            text_laws::holds(
                text_format::group_text(r, g, explain),
                text_format::finding_text(r, g.findings[s[i]], explain) + text_format::finding_text(
                    r,
                    g.findings[s[i + 1]],
                    explain,
                ),
            )
        }),
{
    broadcast use text_laws::lemma_held_by_joined;

    lemma_findings_text(
        r,
        g.findings,
        findings::message_order(g.findings),
        explain,
        i,
        g.findings.len() as int,
    );
}

} // verus!
