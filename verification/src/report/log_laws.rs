//! What a report says of acknowledged findings, of findings that are gone, and where
//! nothing was found.

use vstd::prelude::*;

use crate::baseline::BaselineView;
use crate::report::count_laws;
use crate::report::findings;
use crate::report::findings::ReportedView;
use crate::report::html;
use crate::report::markdown;
use crate::report::order_laws;
use crate::report::safety::ReportView;
use crate::report::text_format;
use crate::report::text_laws;
use crate::style;
use crate::style::Color;
use crate::text;

verus! {

/// The acknowledged findings of a report, in the order of its groups.
pub open spec fn acknowledged_in(r: ReportView) -> Seq<ReportedView> {
    count_laws::all_of(r.groups).filter(|f: ReportedView| f.suppressed)
}

/// A log of suppressions is kept exactly where a finding is acknowledged.
pub proof fn a_log_is_kept_where_anything_is_acknowledged(r: ReportView)
    ensures
        markdown::audit_md(r).len() > 0 <==> acknowledged_in(r).len() > 0,
        html::audit_html(r).len() > 0 <==> acknowledged_in(r).len() > 0,
        text_format::audit_text(r).len() > 0 <==> acknowledged_in(r).len() > 0,
{
    order_laws::the_log_is_on_all_acknowledged_findings(r.groups);
    reveal_strlit("");
    reveal_strlit(
        "### 🔕 Applied Suppressions Audit Log\n\n| Category | Target | Fingerprint | Author | Expiry | Reason |\n| :--- | :--- | :--- | :--- | :--- | :--- |\n",
    );
    reveal_strlit("</tbody>\n</table></div>\n</details>\n");
}

proof fn lemma_md_rows(list: Seq<ReportedView>, k: int, n: int)
    requires
        0 <= k < n,
    ensures
        text::has_sub(markdown::audit_rows(list, n), markdown::audit_row(list[k])),
    decreases n,
{
    broadcast use text::lemma_sub_of_joined;

    if k == n - 1 {
        text::lemma_sub_of_itself(markdown::audit_row(list[k]));
    } else {
        lemma_md_rows(list, k, n - 1);
    }
}

proof fn lemma_html_rows(list: Seq<ReportedView>, order: Seq<int>, k: int, n: int)
    requires
        0 <= k < n,
    ensures
        text::has_sub(html::audit_rows(list, order, n), html::audit_row(list[order[k]])),
    decreases n,
{
    broadcast use text::lemma_sub_of_joined;

    if k == n - 1 {
        text::lemma_sub_of_itself(html::audit_row(list[order[k]]));
    } else {
        lemma_html_rows(list, order, k, n - 1);
    }
}

proof fn lemma_text_entries(list: Seq<ReportedView>, k: int, n: int)
    requires
        0 <= k < n <= list.len(),
    ensures
        text_format::audit_entries(list, n).len() == n,
        text_format::audit_entries(list, n)[k] == style::plain(text_format::audit_entry(list[k])),
    decreases n,
{
    reveal_with_fuel(text_format::audit_entries, 2);
    if k < n - 1 {
        lemma_text_entries(list, k, n - 1);
    } else if n > 1 {
        lemma_text_entries(list, 0, n - 1);
    }
}

/// The log of the Markdown report has a row for every acknowledged finding.
pub proof fn the_markdown_logs_every_acknowledged_finding(r: ReportView, k: int)
    requires
        r.total_findings > 0,
        0 <= k < acknowledged_in(r).len(),
    ensures
        text::has_sub(markdown::summary_md(r), markdown::audit_row(acknowledged_in(r)[k])),
{
    broadcast use text::lemma_sub_of_joined;

    order_laws::the_log_is_on_all_acknowledged_findings(r.groups);
    let list = findings::suppressed_findings(r.groups);
    assert(list == acknowledged_in(r));
    lemma_md_rows(list, k, list.len() as int);
    assert(text::has_sub(markdown::audit_md(r), markdown::audit_row(list[k])));
}

/// The log of the page tells the number of acknowledged findings and has a row for
/// each one.
pub proof fn the_page_logs_every_acknowledged_finding(
    r: ReportView,
    heading: Option<&str>,
    top_level: bool,
    k: int,
)
    requires
        r.total_findings > 0,
        0 <= k < acknowledged_in(r).len(),
    ensures
        text::has_sub(
            html::section(r, heading, top_level),
            html::audit_row(acknowledged_in(r)[k]),
        ),
        text::begins_with(
            html::audit_html(r),
            "<details class=\"category\" open>\n<summary>🔕 Applied Suppressions Audit Log <span class=\"count\">"@
                + text::decimal(acknowledged_in(r).len()) + "</span></summary>\n"@,
        ),
{
    order_laws::the_log_is_on_all_acknowledged_findings(r.groups);
    let list = findings::suppressed_findings(r.groups);
    assert(list == acknowledged_in(r));
    lemma_log_row(r, k);
    lemma_log_head(r);
    lemma_log_in_section(r, heading, top_level, html::audit_row(list[k]));
}

proof fn lemma_log_row(r: ReportView, k: int)
    requires
        0 <= k < findings::suppressed_findings(r.groups).len(),
    ensures
        text::has_sub(
            html::audit_html(r),
            html::audit_row(findings::suppressed_findings(r.groups)[k]),
        ),
{
    broadcast use text::lemma_sub_of_joined;

    let list = findings::suppressed_findings(r.groups);
    let s = findings::audit_order(list);
    let keys = list.map_values(|x: ReportedView| findings::category_and_message_key(x));
    crate::order::sorting_is_a_stable_permutation(keys);
    assert(s.contains(k));
    let m = choose|m: int| 0 <= m < s.len() && s[m] == k;
    lemma_html_rows(list, s, m, list.len() as int);
    assert(text::has_sub(
        html::audit_rows(list, s, list.len() as int),
        html::audit_row(list[k]),
    ));
}

proof fn lemma_log_head(r: ReportView)
    requires
        findings::suppressed_findings(r.groups).len() > 0,
    ensures
        text::begins_with(
            html::audit_html(r),
            "<details class=\"category\" open>\n<summary>🔕 Applied Suppressions Audit Log <span class=\"count\">"@
                + text::decimal(findings::suppressed_findings(r.groups).len())
                + "</span></summary>\n"@,
        ),
{
    broadcast use text::lemma_begins_with_joined;

    let list = findings::suppressed_findings(r.groups);
    let front =
        "<details class=\"category\" open>\n<summary>🔕 Applied Suppressions Audit Log <span class=\"count\">"@
        + text::decimal(list.len());
    let head = front + "</span></summary>\n"@;
    let table =
        "<div class=\"table-scroll\"><table>\n<thead><tr><th>Category</th><th>Target</th><th>Fingerprint</th><th>Author</th><th>Expiry</th><th>Reason</th                          </tr></thead>\n<tbody>\n"@;
    reveal_strlit("</span></summary>\n");
    reveal_strlit(
        "<div class=\"table-scroll\"><table>\n<thead><tr><th>Category</th><th>Target</th><th>Fingerprint</th><th>Author</th><th>Expiry</th><th>Reason</th                          </tr></thead>\n<tbody>\n",
    );
    reveal_strlit(
        "</span></summary>\n<div class=\"table-scroll\"><table>\n<thead><tr><th>Category</th><th>Target</th><th>Fingerprint</th><th>Author</th><th>Expiry</th><th>Reason</th                          </tr></thead>\n<tbody>\n",
    );
    assert("</span></summary>\n"@ + table
        =~= "</span></summary>\n<div class=\"table-scroll\"><table>\n<thead><tr><th>Category</th><th>Target</th><th>Fingerprint</th><th>Author</th><th>Expiry</th><th>Reason</th                          </tr></thead>\n<tbody>\n"@);
    assert(head.take(head.len() as int) =~= head);
    assert(text::begins_with(head, head));
    assert(front + ("</span></summary>\n"@ + table) =~= head + table);
    assert(text::begins_with(head + table, head));
}

proof fn lemma_log_in_section(
    r: ReportView,
    heading: Option<&str>,
    top_level: bool,
    pat: Seq<char>,
)
    requires
        r.total_findings > 0,
        text::has_sub(html::audit_html(r), pat),
    ensures
        text::has_sub(html::section(r, heading, top_level), pat),
{
    broadcast use text::lemma_sub_of_joined;

}

/// The log of the text report has an entry for every acknowledged finding.
pub proof fn the_text_logs_every_acknowledged_finding(r: ReportView, explain: bool, k: int)
    requires
        r.total_findings > 0,
        0 <= k < acknowledged_in(r).len(),
    ensures
        text_laws::holds(
            text_format::summary_text(r, explain),
            seq![style::plain(text_format::audit_entry(acknowledged_in(r)[k]))],
        ),
{
    broadcast use text_laws::lemma_held_by_joined;

    order_laws::the_log_is_on_all_acknowledged_findings(r.groups);
    let list = findings::suppressed_findings(r.groups);
    assert(list == acknowledged_in(r));
    let n = list.len() as int;
    lemma_text_entries(list, k, n);
    let entry = seq![style::plain(text_format::audit_entry(list[k]))];
    text_laws::lemma_held(text_format::audit_entries(list, n), k, entry);
    assert(text_laws::holds(text_format::audit_text(r), entry));
}

/// Where nothing was found, every form of the report says that nothing changed.
pub proof fn a_report_without_findings_says_so(
    r: ReportView,
    explain: bool,
    heading: Option<&str>,
    top_level: bool,
)
    requires
        r.total_findings == 0,
    ensures
        text::has_sub(
            markdown::summary_md(r),
            "No relevant changes detected. The exported interface is identical in its exports and types.\n\n"@,
        ),
        text::has_sub(
            html::section(r, heading, top_level),
            "<p class=\"empty\">No relevant changes detected. The exported interface is identical in its exports and types.</p>\n<p class=\"note\">"@,
        ),
        text_laws::holds(
            text_format::summary_text(r, explain),
            seq![
                style::colored(
                    "No relevant changes detected. The exported interface is identical in its exports and types.\n"@,
                    Color::Green,
                ),
            ],
        ),
{
    broadcast use text::lemma_sub_of_joined, text_laws::lemma_held_by_joined;

    text::lemma_sub_of_itself(
        "No relevant changes detected. The exported interface is identical in its exports and types.\n\n"@,
    );
    text::lemma_sub_of_itself(
        "<p class=\"empty\">No relevant changes detected. The exported interface is identical in its exports and types.</p>\n<p class=\"note\">"@,
    );
    let line = seq![
        style::colored(
            "No relevant changes detected. The exported interface is identical in its exports and types.\n"@,
            Color::Green,
        ),
    ];
    text_laws::lemma_held(text_format::no_findings_text(), 0, line);
}

/// Findings that are gone have a part of their own exactly where there are any. On the
/// page it tells their number.
pub proof fn what_is_gone_has_its_own_part(b: Option<BaselineView>)
    ensures
        ({
            let any = b is Some && b->0.resolved.len() > 0;
            &&& markdown::resolved_md(b).len() > 0 <==> any
            &&& html::resolved_html(b).len() > 0 <==> any
            &&& text_format::resolved_text(b).len() > 0 <==> any
            &&& any ==> text::begins_with(
                html::resolved_html(b),
                "<details class=\"category\">\n<summary>✅ Resolved Since Baseline <span class=\"count\">"@
                    + text::decimal(b->0.resolved.len()),
            )
        }),
{
    broadcast use text::lemma_begins_with_joined;

    reveal_strlit("");
    reveal_strlit("### ✅ Resolved Since Baseline\n\n");
    reveal_strlit("</ul>\n</details>\n");
    match b {
        Some(d) if d.resolved.len() > 0 => {
            let head =
                "<details class=\"category\">\n<summary>✅ Resolved Since Baseline <span class=\"count\">"@
                + text::decimal(d.resolved.len());
            assert(head.take(head.len() as int) =~= head);
            assert(text::begins_with(head, head));
        },
        _ => {},
    }
}

} // verus!
