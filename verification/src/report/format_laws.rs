//! What every format of a report tells.

use vstd::prelude::*;

use crate::baseline::BaselineView;
use crate::baseline::ResolvedView;
use crate::diff;
use crate::diff::Severity;
use crate::order;
use crate::report::actions;
use crate::report::escape;
use crate::report::findings;
use crate::report::findings::GroupView;
use crate::report::findings::ReportedView;
use crate::report::html;
use crate::report::junit;
use crate::report::markdown;
use crate::report::safety::ReportView;
use crate::report::status;
use crate::report::text_format;
use crate::style;
use crate::style::Color;
use crate::style::SpanView;
use crate::text;

verus! {

/// The place at which a group comes in an order.
spec fn place_of(order: Seq<int>, g: int) -> int {
    order.index_of(g)
}

proof fn lemma_place_by_severity(groups: Seq<GroupView>, g: int)
    requires
        0 <= g < groups.len(),
    ensures
        ({
            let order = findings::severity_order(groups);
            let m = place_of(order, g);
            0 <= m < groups.len() && order[m] == g
        }),
{
    order::sorting_is_a_stable_permutation(
        groups.map_values(|v: GroupView| findings::severity_key(v)),
    );
    assert(findings::severity_order(groups).contains(g));
}

proof fn lemma_place_by_name(groups: Seq<GroupView>, g: int)
    requires
        0 <= g < groups.len(),
    ensures
        ({
            let order = findings::name_order(groups);
            let m = place_of(order, g);
            0 <= m < groups.len() && order[m] == g
        }),
{
    order::sorting_is_a_stable_permutation(
        groups.map_values(|v: GroupView| findings::name_key(v)),
    );
    assert(findings::name_order(groups).contains(g));
}

proof fn lemma_place_by_message(list: Seq<ReportedView>, k: int)
    requires
        0 <= k < list.len(),
    ensures
        ({
            let order = findings::message_order(list);
            let m = place_of(order, k);
            0 <= m < list.len() && order[m] == k
        }),
{
    order::sorting_is_a_stable_permutation(
        list.map_values(|v: ReportedView| findings::message_key(v)),
    );
    assert(findings::message_order(list).contains(k));
}

/// Where a configuration turned the verdict, the Markdown report says so.
pub proof fn the_markdown_tells_of_a_turned_verdict(r: ReportView)
    requires
        r.verdict_changed_by_override,
    ensures
        text::has_sub(markdown::summary_md(r), status::verdict_notice(r)->0),
{
    broadcast use text::lemma_sub_of_joined;

    let notice = status::verdict_notice(r)->0;
    text::lemma_sub_of_itself(notice);
    assert(text::has_sub(markdown::notice_md(r), notice));
    assert(text::has_sub(markdown::head_md(r), notice));
}

/// Where a configuration turned the verdict, an annotation says so.
pub proof fn the_annotations_tell_of_a_turned_verdict(r: ReportView, title: Option<&str>)
    requires
        r.verdict_changed_by_override,
    ensures
        text::has_sub(actions::summary_actions(r, title), status::verdict_notice(r)->0),
{
    broadcast use text::lemma_sub_of_joined;

    let notice = status::verdict_notice(r)->0;
    text::lemma_sub_of_itself(notice);
    assert(text::has_sub(actions::notice(r), notice));
}

/// Where a configuration turned the verdict, the page says so.
pub proof fn the_page_tells_of_a_turned_verdict(
    r: ReportView,
    heading: Option<&str>,
    top_level: bool,
)
    requires
        r.verdict_changed_by_override,
    ensures
        text::has_sub(
            html::section(r, heading, top_level),
            escape::html_text(status::verdict_notice(r)->0),
        ),
{
    broadcast use text::lemma_sub_of_joined;

    let notice = escape::html_text(status::verdict_notice(r)->0);
    text::lemma_sub_of_itself(notice);
    assert(text::has_sub(html::notice_html(r), notice));
    assert(text::has_sub(html::head_html(r, heading, top_level), notice));
}

/// Where a configuration turned the verdict, the test suite says so.
pub proof fn the_suite_tells_of_a_turned_verdict(r: ReportView, name: Option<&str>)
    requires
        r.verdict_changed_by_override,
    ensures
        text::has_sub(
            junit::summary_junit(r, name),
            escape::xml_text(status::verdict_notice(r)->0),
        ),
{
    broadcast use text::lemma_sub_of_joined;

    let notice = escape::xml_text(status::verdict_notice(r)->0);
    text::lemma_sub_of_itself(notice);
    assert(text::has_sub(junit::suite_notice(r), notice));
}

proof fn lemma_group_in_markdown(r: ReportView, order: Seq<int>, m: int, n: int)
    requires
        0 <= m < n,
    ensures
        text::has_sub(
            markdown::groups_md(r, order, n),
            markdown::group_md(r.groups[order[m]], r.settings.explain),
        ),
    decreases n,
{
    broadcast use text::lemma_sub_of_joined;

    if m == n - 1 {
        text::lemma_sub_of_itself(markdown::group_md(r.groups[order[m]], r.settings.explain));
    } else {
        lemma_group_in_markdown(r, order, m, n - 1);
    }
}

proof fn lemma_finding_in_markdown(
    list: Seq<ReportedView>,
    order: Seq<int>,
    explain: bool,
    m: int,
    n: int,
)
    requires
        0 <= m < n,
    ensures
        text::has_sub(
            markdown::findings_md(list, order, explain, n),
            markdown::finding_md(list[order[m]], explain),
        ),
    decreases n,
{
    broadcast use text::lemma_sub_of_joined;

    if m == n - 1 {
        text::lemma_sub_of_itself(markdown::finding_md(list[order[m]], explain));
    } else {
        lemma_finding_in_markdown(list, order, explain, m, n - 1);
    }
}

proof fn lemma_suppression_mark()
    ensures
        text::has_sub("- 🔕 **[SUPPRESSED]** "@, "[SUPPRESSED]"@),
        text::has_sub("🔕 [SUPPRESSED] "@, "[SUPPRESSED]"@),
{
    let mark = "[SUPPRESSED]"@;
    let item = "- 🔕 **[SUPPRESSED]** "@;
    let line = "🔕 [SUPPRESSED] "@;
    reveal_strlit("[SUPPRESSED]");
    reveal_strlit("- 🔕 **[SUPPRESSED]** ");
    reveal_strlit("🔕 [SUPPRESSED] ");
    assert(item.subrange(6, 6int + mark.len()) =~= mark);
    assert(text::occurs_at(item, 6, mark));
    text::lemma_first_at(item, 0, mark);
    assert(line.subrange(2, 2int + mark.len()) =~= mark);
    assert(text::occurs_at(line, 2, mark));
    text::lemma_first_at(line, 0, mark);
}

/// Every finding of a report stands in its Markdown form, acknowledged or not:
/// with its message, the mark of a changed severity, and, where it is
/// acknowledged, a mark of that and the reason.
pub proof fn the_markdown_tells_of_every_finding(r: ReportView, g: int, k: int)
    requires
        r.total_findings > 0,
        0 <= g < r.groups.len(),
        0 <= k < r.groups[g].findings.len(),
    ensures
        ({
            let f = r.groups[g].findings[k];
            let entry = markdown::finding_md(f, r.settings.explain);
            &&& text::has_sub(markdown::summary_md(r), entry)
            &&& text::has_sub(entry, f.finding.message)
            &&& text::has_sub(entry, markdown::severity_mark_md(f))
            &&& f.suppressed ==> text::has_sub(entry, "[SUPPRESSED]"@)
            &&& f.suppressed && f.suppression_reason is Some ==> text::has_sub(
                entry,
                f.suppression_reason->0,
            )
        }),
{
    broadcast use text::lemma_sub_of_joined;

    let list = r.groups[g].findings;
    let f = list[k];
    let explain = r.settings.explain;
    let entry = markdown::finding_md(f, explain);
    let order = findings::severity_order(r.groups);
    let inner = findings::message_order(list);
    lemma_place_by_severity(r.groups, g);
    lemma_place_by_message(list, k);
    lemma_finding_in_markdown(list, inner, explain, place_of(inner, k), list.len() as int);
    assert(text::has_sub(markdown::group_md(r.groups[g], explain), entry));
    lemma_group_in_markdown(r, order, place_of(order, g), r.groups.len() as int);
    let groups = markdown::groups_md(r, order, r.groups.len() as int);
    text::lemma_sub_of_sub(groups, markdown::group_md(r.groups[g], explain), entry);
    text::lemma_sub_of_itself(f.finding.message);
    text::lemma_sub_of_itself(markdown::severity_mark_md(f));
    if f.suppressed {
        lemma_suppression_mark();
        match f.suppression_reason {
            Some(reason) => {
                text::lemma_sub_of_itself(reason);
            },
            None => {},
        }
    }
}

proof fn lemma_group_in_annotations(r: ReportView, order: Seq<int>, m: int, n: int)
    requires
        0 <= m < n,
    ensures
        text::has_sub(
            actions::group_annotations(r, order, n),
            actions::annotations(
                r.groups[order[m]].findings,
                r.groups[order[m]].findings.len() as int,
            ),
        ),
    decreases n,
{
    broadcast use text::lemma_sub_of_joined;

    if m == n - 1 {
        text::lemma_sub_of_itself(
            actions::annotations(
                r.groups[order[m]].findings,
                r.groups[order[m]].findings.len() as int,
            ),
        );
    } else {
        lemma_group_in_annotations(r, order, m, n - 1);
    }
}

proof fn lemma_finding_in_annotations(list: Seq<ReportedView>, k: int, n: int)
    requires
        0 <= k < n,
    ensures
        text::has_sub(actions::annotations(list, n), actions::annotation(list[k])),
    decreases n,
{
    broadcast use text::lemma_sub_of_joined;

    if k == n - 1 {
        text::lemma_sub_of_itself(actions::annotation(list[k]));
    } else {
        lemma_finding_in_annotations(list, k, n - 1);
    }
}

/// Every finding of a report has an annotation, with its message and the mark of
/// a changed severity.
pub proof fn the_annotations_tell_of_every_finding(
    r: ReportView,
    title: Option<&str>,
    g: int,
    k: int,
)
    requires
        0 <= g < r.groups.len(),
        0 <= k < r.groups[g].findings.len(),
    ensures
        ({
            let f = r.groups[g].findings[k];
            &&& text::has_sub(actions::summary_actions(r, title), actions::annotation(f))
            &&& text::has_sub(actions::annotation(f), f.finding.message)
            &&& text::has_sub(actions::annotation(f), status::severity_mark(f))
        }),
{
    broadcast use text::lemma_sub_of_joined;

    let list = r.groups[g].findings;
    let f = list[k];
    let order = findings::name_order(r.groups);
    lemma_place_by_name(r.groups, g);
    lemma_finding_in_annotations(list, k, list.len() as int);
    lemma_group_in_annotations(r, order, place_of(order, g), r.groups.len() as int);
    let groups = actions::group_annotations(r, order, r.groups.len() as int);
    text::lemma_sub_of_sub(
        groups,
        actions::annotations(list, list.len() as int),
        actions::annotation(f),
    );
    text::lemma_sub_of_itself(f.finding.message);
    text::lemma_sub_of_itself(status::severity_mark(f));
}

proof fn lemma_group_on_page(groups: Seq<GroupView>, order: Seq<int>, m: int, n: int)
    requires
        0 <= m < n,
    ensures
        text::has_sub(html::groups_html(groups, order, n), html::group_html(groups[order[m]])),
    decreases n,
{
    broadcast use text::lemma_sub_of_joined;

    if m == n - 1 {
        text::lemma_sub_of_itself(html::group_html(groups[order[m]]));
    } else {
        lemma_group_on_page(groups, order, m, n - 1);
    }
}

proof fn lemma_finding_on_page(list: Seq<ReportedView>, order: Seq<int>, m: int, n: int)
    requires
        0 <= m < n,
    ensures
        text::has_sub(html::findings_html(list, order, n), html::finding_html(list[order[m]])),
    decreases n,
{
    broadcast use text::lemma_sub_of_joined;

    if m == n - 1 {
        text::lemma_sub_of_itself(html::finding_html(list[order[m]]));
    } else {
        lemma_finding_on_page(list, order, m, n - 1);
    }
}

/// Every finding of a report stands on its page, acknowledged or not: with its
/// message, the mark of a changed severity and the reason of a suppression, in
/// escaped form.
pub proof fn the_page_tells_of_every_finding(
    r: ReportView,
    heading: Option<&str>,
    top_level: bool,
    g: int,
    k: int,
)
    requires
        r.total_findings > 0,
        0 <= g < r.groups.len(),
        0 <= k < r.groups[g].findings.len(),
    ensures
        ({
            let f = r.groups[g].findings[k];
            &&& text::has_sub(html::section(r, heading, top_level), html::finding_html(f))
            &&& text::has_sub(html::finding_html(f), escape::html_text(f.finding.message))
            &&& text::has_sub(html::finding_html(f), html::override_badge(f))
            &&& f.suppression_reason is Some ==> text::has_sub(
                html::finding_html(f),
                escape::html_text(f.suppression_reason->0),
            )
        }),
{
    broadcast use text::lemma_sub_of_joined;

    let list = r.groups[g].findings;
    let f = list[k];
    let entry = html::finding_html(f);
    let order = findings::severity_order(r.groups);
    let inner = findings::message_order(list);
    lemma_place_by_severity(r.groups, g);
    lemma_place_by_message(list, k);
    lemma_finding_on_page(list, inner, place_of(inner, k), list.len() as int);
    assert(text::has_sub(html::group_html(r.groups[g]), entry));
    lemma_group_on_page(r.groups, order, place_of(order, g), r.groups.len() as int);
    let groups = html::groups_html(r.groups, order, r.groups.len() as int);
    text::lemma_sub_of_sub(groups, html::group_html(r.groups[g]), entry);
    text::lemma_sub_of_itself(escape::html_text(f.finding.message));
    text::lemma_sub_of_itself(html::override_badge(f));
    assert(text::has_sub(html::badges_html(f), html::override_badge(f)));
    match f.suppression_reason {
        Some(reason) => {
            text::lemma_sub_of_itself(escape::html_text(reason));
        },
        None => {},
    }
}

proof fn lemma_group_in_suite(r: ReportView, order: Seq<int>, class: Seq<char>, m: int, n: int)
    requires
        0 <= m < n,
    ensures
        ({
            let list = r.groups[order[m]].findings;
            text::has_sub(
                junit::group_cases(r, order, class, n),
                junit::test_cases(list, class, r.strict, list.len() as int),
            )
        }),
    decreases n,
{
    broadcast use text::lemma_sub_of_joined;

    if m == n - 1 {
        let list = r.groups[order[m]].findings;
        text::lemma_sub_of_itself(
            junit::test_cases(list, class, r.strict, list.len() as int),
        );
    } else {
        lemma_group_in_suite(r, order, class, m, n - 1);
    }
}

proof fn lemma_finding_in_suite(
    list: Seq<ReportedView>,
    class: Seq<char>,
    strict: bool,
    k: int,
    n: int,
)
    requires
        0 <= k < n,
    ensures
        text::has_sub(
            junit::test_cases(list, class, strict, n),
            junit::test_case(list[k], class, strict),
        ),
    decreases n,
{
    broadcast use text::lemma_sub_of_joined;

    if k == n - 1 {
        text::lemma_sub_of_itself(junit::test_case(list[k], class, strict));
    } else {
        lemma_finding_in_suite(list, class, strict, k, n - 1);
    }
}

/// Every finding of a report is a case of its test suite.
pub proof fn the_suite_tells_of_every_finding(r: ReportView, name: Option<&str>, g: int, k: int)
    requires
        0 <= g < r.groups.len(),
        0 <= k < r.groups[g].findings.len(),
    ensures
        text::has_sub(
            junit::summary_junit(r, name),
            junit::test_case(r.groups[g].findings[k], junit::suite_class(name), r.strict),
        ),
{
    broadcast use text::lemma_sub_of_joined;

    let list = r.groups[g].findings;
    let class = junit::suite_class(name);
    let case = junit::test_case(list[k], class, r.strict);
    let order = findings::name_order(r.groups);
    lemma_place_by_name(r.groups, g);
    lemma_finding_in_suite(list, class, r.strict, k, list.len() as int);
    lemma_group_in_suite(r, order, class, place_of(order, g), r.groups.len() as int);
    let groups = junit::group_cases(r, order, class, r.groups.len() as int);
    text::lemma_sub_of_sub(
        groups,
        junit::test_cases(list, class, r.strict, list.len() as int),
        case,
    );
    assert(text::has_sub(junit::suite_cases(r, class), case));
}

broadcast proof fn lemma_span_of_joined(a: Seq<SpanView>, b: Seq<SpanView>, span: SpanView)
    ensures
        a.contains(span) || b.contains(span) ==> #[trigger] (a + b).contains(span),
{
    if a.contains(span) {
        let i = choose|i: int| 0 <= i < a.len() && a[i] == span;
        assert((a + b)[i] == span);
    } else if b.contains(span) {
        let i = choose|i: int| 0 <= i < b.len() && b[i] == span;
        assert((a + b)[a.len() + i] == span);
    }
}

/// The line of the text report on a turned verdict.
pub open spec fn notice_span(r: ReportView) -> SpanView {
    style::bold_colored("⚠️  "@ + status::verdict_notice(r)->0, Color::Red)
}

/// The line of the text report on a finding.
pub open spec fn finding_span(f: ReportedView) -> SpanView {
    if f.suppressed {
        style::dimmed("🔕 [SUPPRESSED] "@ + status::severity_mark(f) + f.finding.message)
    } else {
        text_format::active_line(f)
    }
}

proof fn lemma_notice_in_text(r: ReportView, explain: bool)
    requires
        r.verdict_changed_by_override,
    ensures
        text_format::summary_text(r, explain).contains(notice_span(r)),
{
    broadcast use lemma_span_of_joined;

    let line = text_format::notice_text(r);
    assert(line[0] == notice_span(r));
    assert(line.contains(notice_span(r)));
    assert(text_format::head_text(r).contains(notice_span(r)));
}

/// Whether a text holds no escape character.
pub open spec fn no_escape(s: Seq<char>) -> bool {
    forall|i: int| 0 <= i < s.len() ==> #[trigger] s[i] != '\x1B'
}

proof fn lemma_no_reset(s: Seq<char>)
    requires
        no_escape(s),
    ensures
        !text::has_sub(s, style::RESET@),
{
    text::lemma_first_at(s, 0, style::RESET@);
    reveal_strlit("\x1B[0m");
    match text::first_at(s, 0, style::RESET@) {
        Some(i) => {
            assert(s.subrange(i, i + style::RESET@.len())[0] == style::RESET@[0]);
            assert(s[i] == '\x1B');
        },
        None => {},
    }
}

proof fn lemma_notice_has_no_escape(r: ReportView)
    requires
        r.verdict_changed_by_override,
    ensures
        no_escape(notice_span(r).text),
{
    reveal_strlit("⚠️  ");
    assert(no_escape("⚠️  "@));
    reveal_strlit(
        "VERDICT CHANGED BY CONFIG: this run passes only because the [severity] table lowered one or more findings. Without those overrides it would have FAILED.",
    );
    reveal_strlit(
        "VERDICT CHANGED BY CONFIG: this run fails only because the [severity] table raised one or more findings. Without those overrides it would have PASSED.",
    );
    assert(no_escape(status::verdict_notice(r)->0));
}

/// Where a configuration turned the verdict, the text report says so, whether it
/// is written in colour or not.
pub proof fn the_text_tells_of_a_turned_verdict(r: ReportView, explain: bool, out: Seq<char>)
    requires
        r.verdict_changed_by_override,
        style::may_render(text_format::summary_text(r, explain), out),
    ensures
        text::has_sub(out, status::verdict_notice(r)->0),
{
    let spans = text_format::summary_text(r, explain);
    let notice = status::verdict_notice(r)->0;
    lemma_notice_in_text(r, explain);
    let i = choose|i: int| 0 <= i < spans.len() && spans[i] == notice_span(r);
    lemma_notice_has_no_escape(r);
    lemma_no_reset(notice_span(r).text);
    style::rendering_keeps_every_text(spans, out, i);
    text::lemma_sub_of_itself(notice);
    text::lemma_sub_of_joined("⚠️  "@, notice, notice);
    text::lemma_sub_of_sub(out, spans[i].text, notice);
}

proof fn lemma_group_in_text(
    r: ReportView,
    order: Seq<int>,
    explain: bool,
    m: int,
    n: int,
    span: SpanView,
)
    requires
        0 <= m < n,
        text_format::group_text(r, r.groups[order[m]], explain).contains(span),
    ensures
        text_format::groups_text(r, order, explain, n).contains(span),
    decreases n,
{
    broadcast use lemma_span_of_joined;

    if m < n - 1 {
        lemma_group_in_text(r, order, explain, m, n - 1, span);
    }
}

proof fn lemma_finding_in_text(
    r: ReportView,
    list: Seq<ReportedView>,
    order: Seq<int>,
    explain: bool,
    m: int,
    n: int,
    span: SpanView,
)
    requires
        0 <= m < n,
        text_format::finding_text(r, list[order[m]], explain).contains(span),
    ensures
        text_format::findings_text(r, list, order, explain, n).contains(span),
    decreases n,
{
    broadcast use lemma_span_of_joined;

    if m < n - 1 {
        lemma_finding_in_text(r, list, order, explain, m, n - 1, span);
    }
}

proof fn lemma_finding_span_in_text(r: ReportView, explain: bool, g: int, k: int)
    requires
        r.total_findings > 0,
        0 <= g < r.groups.len(),
        0 <= k < r.groups[g].findings.len(),
    ensures
        text_format::summary_text(r, explain).contains(finding_span(r.groups[g].findings[k])),
{
    broadcast use lemma_span_of_joined;

    let list = r.groups[g].findings;
    let f = list[k];
    let span = finding_span(f);
    let order = findings::severity_order(r.groups);
    let inner = findings::message_order(list);
    lemma_place_by_severity(r.groups, g);
    lemma_place_by_message(list, k);
    let spans = text_format::finding_text(r, f, explain);
    assert(spans[0] == span);
    assert(spans.contains(span));
    lemma_finding_in_text(r, list, inner, explain, place_of(inner, k), list.len() as int, span);
    assert(text_format::group_text(r, r.groups[g], explain).contains(span));
    lemma_group_in_text(r, order, explain, place_of(order, g), r.groups.len() as int, span);
}

proof fn lemma_label_has_no_escape(s: Severity)
    ensures
        no_escape(diff::severity_label(s)),
{
    reveal_strlit("critical");
    reveal_strlit("warning");
    reveal_strlit("info");
}

proof fn lemma_mark_has_no_escape(f: ReportedView)
    ensures
        no_escape(status::severity_mark(f)),
{
    reveal_strlit("");
    reveal_strlit("[SEVERITY ");
    reveal_strlit(" → ");
    reveal_strlit("] ");
    assert(no_escape("[SEVERITY "@) && no_escape(" → "@) && no_escape("] "@));
    match f.original_severity {
        Some(original) => {
            lemma_label_has_no_escape(original);
            lemma_label_has_no_escape(f.finding.severity);
        },
        None => {},
    }
}

proof fn lemma_finding_span(f: ReportedView)
    ensures
        text::has_sub(finding_span(f).text, f.finding.message),
        text::has_sub(finding_span(f).text, status::severity_mark(f)),
        f.suppressed ==> text::has_sub(finding_span(f).text, "[SUPPRESSED]"@),
        no_escape(f.finding.message) ==> no_escape(finding_span(f).text),
{
    broadcast use text::lemma_sub_of_joined;

    text::lemma_sub_of_itself(f.finding.message);
    text::lemma_sub_of_itself(status::severity_mark(f));
    lemma_suppression_mark();
    lemma_mark_has_no_escape(f);
    reveal_strlit("");
    reveal_strlit("[NEW] ");
    reveal_strlit("🔕 [SUPPRESSED] ");
    reveal_strlit("🔴 ");
    reveal_strlit("🟡 ");
    reveal_strlit("🔵 ");
    assert(no_escape("🔕 [SUPPRESSED] "@) && no_escape("🔴 "@) && no_escape("🟡 "@) && no_escape(
        "🔵 "@,
    ));
    assert(no_escape(text_format::new_mark(f)));
}

/// Every finding of a report stands in its text form, acknowledged or not, and
/// whether the text is written in colour or not: its message, the mark of a
/// changed severity and the mark of an acknowledged finding stand there unbroken.
/// A message that holds the escape character is left out: with colours on, it may
/// be broken up.
pub proof fn the_text_tells_of_every_finding(
    r: ReportView,
    explain: bool,
    g: int,
    k: int,
    out: Seq<char>,
)
    requires
        r.total_findings > 0,
        0 <= g < r.groups.len(),
        0 <= k < r.groups[g].findings.len(),
        no_escape(r.groups[g].findings[k].finding.message),
        style::may_render(text_format::summary_text(r, explain), out),
    ensures
        text::has_sub(out, r.groups[g].findings[k].finding.message),
        text::has_sub(out, status::severity_mark(r.groups[g].findings[k])),
        r.groups[g].findings[k].suppressed ==> text::has_sub(out, "[SUPPRESSED]"@),
{
    let f = r.groups[g].findings[k];
    let spans = text_format::summary_text(r, explain);
    lemma_finding_span_in_text(r, explain, g, k);
    lemma_finding_span(f);
    lemma_no_reset(finding_span(f).text);
    let i = choose|i: int| 0 <= i < spans.len() && spans[i] == finding_span(f);
    style::rendering_keeps_every_text(spans, out, i);
    text::lemma_sub_of_sub(out, finding_span(f).text, f.finding.message);
    text::lemma_sub_of_sub(out, finding_span(f).text, status::severity_mark(f));
    if f.suppressed {
        text::lemma_sub_of_sub(out, finding_span(f).text, "[SUPPRESSED]"@);
    }
}

proof fn lemma_resolved_in_markdown(resolved: Seq<ResolvedView>, k: int, n: int)
    requires
        0 <= k < n,
    ensures
        text::has_sub(markdown::resolved_lines(resolved, n), resolved[k].message),
    decreases n,
{
    broadcast use text::lemma_sub_of_joined;

    if k == n - 1 {
        text::lemma_sub_of_itself(resolved[k].message);
    } else {
        lemma_resolved_in_markdown(resolved, k, n - 1);
    }
}

/// Every finding of the earlier report that is gone stands in the Markdown
/// report, even where nothing is found any more.
pub proof fn the_markdown_tells_of_what_was_resolved(r: ReportView, d: BaselineView, k: int)
    requires
        r.baseline_diff == Some(d),
        0 <= k < d.resolved.len(),
    ensures
        text::has_sub(markdown::summary_md(r), d.resolved[k].message),
{
    broadcast use text::lemma_sub_of_joined;

    lemma_resolved_in_markdown(d.resolved, k, d.resolved.len() as int);
    assert(text::has_sub(markdown::resolved_md(r.baseline_diff), d.resolved[k].message));
}

proof fn lemma_resolved_in_page(resolved: Seq<ResolvedView>, k: int, n: int)
    requires
        0 <= k < n,
    ensures
        text::has_sub(
            html::resolved_items(resolved, n),
            escape::html_text(resolved[k].message),
        ),
    decreases n,
{
    broadcast use text::lemma_sub_of_joined;

    if k == n - 1 {
        text::lemma_sub_of_itself(escape::html_text(resolved[k].message));
    } else {
        lemma_resolved_in_page(resolved, k, n - 1);
    }
}

/// Every finding of the earlier report that is gone stands on the page of a
/// report with findings.
pub proof fn the_page_tells_of_what_was_resolved(
    r: ReportView,
    heading: Option<&str>,
    top_level: bool,
    d: BaselineView,
    k: int,
)
    requires
        r.total_findings > 0,
        r.baseline_diff == Some(d),
        0 <= k < d.resolved.len(),
    ensures
        text::has_sub(
            html::section(r, heading, top_level),
            escape::html_text(d.resolved[k].message),
        ),
{
    broadcast use text::lemma_sub_of_joined;

    let message = escape::html_text(d.resolved[k].message);
    lemma_resolved_in_page(d.resolved, k, d.resolved.len() as int);
    assert(text::has_sub(html::resolved_html(r.baseline_diff), message));
}

/// The line of the text report on a finding that is gone.
pub open spec fn resolved_span(f: ResolvedView) -> SpanView {
    style::colored(f.message + "\n"@, Color::Green)
}

proof fn lemma_resolved_in_text(resolved: Seq<ResolvedView>, k: int, n: int)
    requires
        0 <= k < n,
    ensures
        text_format::resolved_lines(resolved, n).contains(resolved_span(resolved[k])),
    decreases n,
{
    let before = text_format::resolved_lines(resolved, n - 1);
    let lines = text_format::resolved_lines(resolved, n);
    let span = resolved_span(resolved[k]);
    if k == n - 1 {
        assert(lines[before.len() as int] == span);
    } else {
        lemma_resolved_in_text(resolved, k, n - 1);
        let i = choose|i: int| 0 <= i < before.len() && before[i] == span;
        assert(lines[i] == span);
    }
}

/// Every finding of the earlier report that is gone stands in the text report,
/// even where nothing is found any more, and whether the text is written in
/// colour or not. A message that holds the escape character is left out: with
/// colours on, it may be broken up.
pub proof fn the_text_tells_of_what_was_resolved(
    r: ReportView,
    explain: bool,
    d: BaselineView,
    k: int,
    out: Seq<char>,
)
    requires
        r.baseline_diff == Some(d),
        0 <= k < d.resolved.len(),
        no_escape(d.resolved[k].message),
        style::may_render(text_format::summary_text(r, explain), out),
    ensures
        text::has_sub(out, d.resolved[k].message),
{
    broadcast use lemma_span_of_joined;

    let spans = text_format::summary_text(r, explain);
    let message = d.resolved[k].message;
    let span = resolved_span(d.resolved[k]);
    lemma_resolved_in_text(d.resolved, k, d.resolved.len() as int);
    assert(text_format::resolved_text(r.baseline_diff).contains(span));
    assert(spans.contains(span));
    let i = choose|i: int| 0 <= i < spans.len() && spans[i] == span;
    reveal_strlit("\n");
    lemma_no_reset(span.text);
    style::rendering_keeps_every_text(spans, out, i);
    text::lemma_sub_of_itself(message);
    text::lemma_sub_of_joined(message, "\n"@, message);
    text::lemma_sub_of_sub(out, span.text, message);
}

proof fn lemma_groups_without_types(r: ReportView, q: ReportView, order: Seq<int>, n: int)
    requires
        r.groups == q.groups,
        r.settings == q.settings,
        r.strict == q.strict,
    ensures
        markdown::groups_md(r, order, n) == markdown::groups_md(q, order, n),
        actions::group_annotations(r, order, n) == actions::group_annotations(q, order, n),
        forall|class: Seq<char>| #[trigger]
            junit::group_cases(r, order, class, n) == junit::group_cases(q, order, class, n),
    decreases n,
{
    if n > 0 {
        lemma_groups_without_types(r, q, order, n - 1);
        assert forall|class: Seq<char>| #[trigger]
            junit::group_cases(r, order, class, n) == junit::group_cases(q, order, class, n) by {
            assert(junit::group_cases(r, order, class, n - 1) == junit::group_cases(
                q,
                order,
                class,
                n - 1,
            ));
        }
    }
}

/// Whether type changes are shown in detail, and in colour, makes a difference to
/// the text form alone.
pub proof fn type_details_are_for_the_text(
    r: ReportView,
    diff_types: bool,
    use_color: bool,
    title: Option<&str>,
    top_level: bool,
)
    ensures
        ({
            let q = ReportView { diff_types, use_color, ..r };
            &&& markdown::summary_md(q) == markdown::summary_md(r)
            &&& html::section(q, title, top_level) == html::section(r, title, top_level)
            &&& actions::summary_actions(q, title) == actions::summary_actions(r, title)
            &&& junit::summary_junit(q, title) == junit::summary_junit(r, title)
        }),
{
    let q = ReportView { diff_types, use_color, ..r };
    let n = r.groups.len() as int;
    lemma_groups_without_types(q, r, findings::severity_order(r.groups), n);
    lemma_groups_without_types(q, r, findings::name_order(r.groups), n);
    assert(markdown::head_md(q) == markdown::head_md(r));
    assert(html::head_html(q, title, top_level) == html::head_html(r, title, top_level));
    assert(html::audit_html(q) == html::audit_html(r));
    assert(markdown::audit_md(q) == markdown::audit_md(r));
    assert(junit::suite_cases(q, junit::suite_class(title)) == junit::suite_cases(
        r,
        junit::suite_class(title),
    ));
}

} // verus!
