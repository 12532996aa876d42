//! What the head of a report says in each format: numbers, scope and origin.

use vstd::prelude::*;

use crate::baseline::BaselineView;
use crate::report::escape;
use crate::report::html;
use crate::report::markdown;
use crate::report::safety::ReportView;
use crate::report::scope;
use crate::report::scope::ScopeView;
use crate::report::scope::StorageScopeState;
use crate::report::status;
use crate::report::text_format;
use crate::text;

verus! {

/// Three texts in a row stand where they were appended one by one.
broadcast proof fn lemma_three_in_a_row(p: Seq<char>, a: Seq<char>, b: Seq<char>, c: Seq<char>)
    ensures
        #[trigger] text::has_sub(p + a + b + c, a + b + c),
{
    text::lemma_sub_of_itself(a + b + c);
    text::lemma_sub_of_joined(p, a + b + c, a + b + c);
    assert(p + a + b + c =~= p + (a + b + c));
}

/// The table at the head of the Markdown report tells the number of findings of
/// each severity.
pub proof fn the_markdown_tells_the_counts(r: ReportView)
    ensures
        text::has_sub(
            markdown::summary_md(r),
            "| **Critical** | "@ + text::decimal(r.critical_count) + " |\n"@,
        ),
        text::has_sub(
            markdown::summary_md(r),
            "| **Warning** | "@ + text::decimal(r.warning_count) + " |\n"@,
        ),
        text::has_sub(
            markdown::summary_md(r),
            "| **Info** | "@ + text::decimal(r.info_count) + " |\n"@,
        ),
{
    broadcast use text::lemma_sub_of_joined, lemma_three_in_a_row;

    assert(text::has_sub(
        markdown::head_md(r),
        "| **Critical** | "@ + text::decimal(r.critical_count) + " |\n"@,
    ));
    assert(text::has_sub(
        markdown::head_md(r),
        "| **Warning** | "@ + text::decimal(r.warning_count) + " |\n"@,
    ));
    assert(text::has_sub(
        markdown::head_md(r),
        "| **Info** | "@ + text::decimal(r.info_count) + " |\n"@,
    ));
}

/// Where findings were acknowledged, hidden or given another severity, the Markdown
/// report tells how many; where none were, it has no row on them.
pub proof fn the_markdown_tells_what_was_changed(r: ReportView)
    ensures
        r.suppressed_count > 0 ==> text::has_sub(
            markdown::summary_md(r),
            "| **Suppressed** | "@ + text::decimal(r.suppressed_count) + " |\n"@,
        ),
        r.filtered_count > 0 ==> text::has_sub(
            markdown::summary_md(r),
            "| **Filtered** | "@ + text::decimal(r.filtered_count) + " |\n"@,
        ),
        r.severity_overridden_count > 0 ==> text::has_sub(
            markdown::summary_md(r),
            "| **Severity overridden** | "@ + text::decimal(r.severity_overridden_count)
                + " |\n"@,
        ),
        forall|label: Seq<char>, after: Seq<char>|
            (#[trigger] markdown::optional_row(label, 0, after)).len() == 0,
{
    broadcast use text::lemma_sub_of_joined;

    reveal_strlit("");
    let s = "| **Suppressed** | "@ + text::decimal(r.suppressed_count) + " |\n"@;
    let f = "| **Filtered** | "@ + text::decimal(r.filtered_count) + " |\n"@;
    let o = "| **Severity overridden** | "@ + text::decimal(r.severity_overridden_count) + " |\n"@;
    text::lemma_sub_of_itself(s);
    text::lemma_sub_of_itself(f);
    text::lemma_sub_of_itself(o);
    if r.suppressed_count > 0 {
        assert(text::has_sub(markdown::head_md(r), s));
    }
    if r.filtered_count > 0 {
        assert(text::has_sub(markdown::head_md(r), f));
    }
    if r.severity_overridden_count > 0 {
        assert(text::has_sub(markdown::head_md(r), o));
    }
}

/// The Markdown report tells what was analysed and which version step it calls for.
pub proof fn the_markdown_tells_its_scope(r: ReportView)
    ensures
        text::has_sub(markdown::summary_md(r), "_"@ + scope::claim(r.scope) + "_\n\n"@),
        text::has_sub(
            markdown::summary_md(r),
            "**Scope:** "@ + scope::storage_claim(r.scope) + "\n\n"@,
        ),
        text::has_sub(
            markdown::summary_md(r),
            "\n**Recommended SemVer Bump**: `"@ + status::bump(r) + "`\n\n"@,
        ),
{
    broadcast use text::lemma_sub_of_joined, lemma_three_in_a_row;

    assert(text::has_sub(markdown::head_md(r), "_"@ + scope::claim(r.scope) + "_\n\n"@));
    assert(text::has_sub(
        markdown::head_md(r),
        "**Scope:** "@ + scope::storage_claim(r.scope) + "\n\n"@,
    ));
    assert(text::has_sub(
        markdown::head_md(r),
        "\n**Recommended SemVer Bump**: `"@ + status::bump(r) + "`\n\n"@,
    ));
}

/// The Markdown report tells where the old build comes from, which digest its code
/// was found to have, and how the findings compare with an earlier report.
pub proof fn the_markdown_tells_its_origin(r: ReportView)
    ensures
        r.baseline_source matches Some(t) ==> text::has_sub(
            markdown::summary_md(r),
            "**Baseline Source**: `"@ + t + "`\n\n"@,
        ),
        r.verified_code_hash matches Some(t) ==> text::has_sub(
            markdown::summary_md(r),
            "**Verified Code Hash**: `"@ + t + "`\n\n"@,
        ),
        r.baseline_diff matches Some(d) ==> text::has_sub(
            markdown::summary_md(r),
            "**Baseline**: "@ + text::decimal(d.new_count as nat) + " new, "@ + text::decimal(
                d.persisting_count as nat,
            ) + " persisting, "@ + text::decimal(d.resolved.len()) + " resolved"@,
        ),
{
    broadcast use text::lemma_sub_of_joined;

    match r.baseline_source {
        Some(t) => {
            text::lemma_sub_of_itself("**Baseline Source**: `"@ + t + "`\n\n"@);
            assert(text::has_sub(
                markdown::head_md(r),
                "**Baseline Source**: `"@ + t + "`\n\n"@,
            ));
        },
        None => {},
    }
    match r.verified_code_hash {
        Some(t) => {
            text::lemma_sub_of_itself("**Verified Code Hash**: `"@ + t + "`\n\n"@);
            assert(text::has_sub(
                markdown::head_md(r),
                "**Verified Code Hash**: `"@ + t + "`\n\n"@,
            ));
        },
        None => {},
    }
    match r.baseline_diff {
        Some(d) => {
            let line = "**Baseline**: "@ + text::decimal(d.new_count as nat) + " new, "@
                + text::decimal(d.persisting_count as nat) + " persisting, "@ + text::decimal(
                d.resolved.len(),
            ) + " resolved"@;
            text::lemma_sub_of_itself(line);
            lemma_resolved_word();
            assert(markdown::baseline_md(r.baseline_diff) =~= line + " (vs. tool v"@
                + d.baseline_tool_version + ")"@ + text_format::new_only_remark(d) + "\n\n"@);
            assert(text::has_sub(markdown::baseline_md(r.baseline_diff), line));
            assert(text::has_sub(markdown::head_md(r), line));
        },
        None => {},
    }
}

proof fn lemma_resolved_word()
    ensures
        " resolved (vs. tool v"@ == " resolved"@ + " (vs. tool v"@,
{
    reveal_strlit(" resolved (vs. tool v");
    reveal_strlit(" resolved");
    reveal_strlit(" (vs. tool v");
    assert(" resolved (vs. tool v"@ =~= " resolved"@ + " (vs. tool v"@);
}

/// The remark that the verdict is on new findings alone is made exactly where it is.
pub proof fn the_remark_on_new_findings_is_true(d: BaselineView)
    ensures
        text_format::new_only_remark(d).len() > 0 <==> d.fail_on_new_only,
{
    reveal_strlit(" — verdict reflects new findings only");
    reveal_strlit("");
}

/// The page has a tile for each severity, with the number of its findings, and for
/// what was acknowledged, hidden or given another severity, where anything was.
pub proof fn the_page_tells_the_counts(r: ReportView, heading: Option<&str>, top_level: bool)
    ensures
        text::has_sub(
            html::section(r, heading, top_level),
            text::decimal(r.critical_count)
                + "</span><span class=\"stat-label\">Critical</span></li>\n"@,
        ),
        text::has_sub(
            html::section(r, heading, top_level),
            text::decimal(r.warning_count)
                + "</span><span class=\"stat-label\">Warning</span></li>\n"@,
        ),
        text::has_sub(
            html::section(r, heading, top_level),
            text::decimal(r.info_count)
                + "</span><span class=\"stat-label\">Info</span></li>\n"@,
        ),
        r.suppressed_count > 0 ==> text::has_sub(
            html::section(r, heading, top_level),
            text::decimal(r.suppressed_count)
                + "</span><span class=\"stat-label\">Suppressed</span></li>\n"@,
        ),
        r.filtered_count > 0 ==> text::has_sub(
            html::section(r, heading, top_level),
            text::decimal(r.filtered_count)
                + "</span><span class=\"stat-label\">Filtered</span></li>\n"@,
        ),
        r.severity_overridden_count > 0 ==> text::has_sub(
            html::section(r, heading, top_level),
            text::decimal(r.severity_overridden_count)
                + "</span><span class=\"stat-label\">Severity overridden</span></li>\n"@,
        ),
{
    lemma_tile_labels();
    lemma_tiles(r);
    lemma_tile(r, heading, top_level, "Critical"@, r.critical_count, "critical"@);
    lemma_tile(r, heading, top_level, "Warning"@, r.warning_count, "warning"@);
    lemma_tile(r, heading, top_level, "Info"@, r.info_count, "info"@);
    if r.suppressed_count > 0 {
        lemma_tile(r, heading, top_level, "Suppressed"@, r.suppressed_count, "suppressed"@);
    }
    if r.filtered_count > 0 {
        lemma_tile(r, heading, top_level, "Filtered"@, r.filtered_count, "filtered"@);
    }
    if r.severity_overridden_count > 0 {
        lemma_tile(
            r,
            heading,
            top_level,
            "Severity overridden"@,
            r.severity_overridden_count,
            "overridden"@,
        );
    }
}

/// Whether `label` is the label of a tile that a page shows with `value`.
spec fn shows_tile(r: ReportView, label: Seq<char>, value: nat, class: Seq<char>) -> bool {
    text::has_sub(html::counts_html(r), html::tile(label, value, class))
}

proof fn lemma_tiles(r: ReportView)
    ensures
        shows_tile(r, "Critical"@, r.critical_count, "critical"@),
        shows_tile(r, "Warning"@, r.warning_count, "warning"@),
        shows_tile(r, "Info"@, r.info_count, "info"@),
        r.suppressed_count > 0 ==> shows_tile(
            r,
            "Suppressed"@,
            r.suppressed_count,
            "suppressed"@,
        ),
        r.filtered_count > 0 ==> shows_tile(r, "Filtered"@, r.filtered_count, "filtered"@),
        r.severity_overridden_count > 0 ==> shows_tile(
            r,
            "Severity overridden"@,
            r.severity_overridden_count,
            "overridden"@,
        ),
{
    broadcast use text::lemma_sub_of_joined;

    text::lemma_sub_of_itself(html::tile("Critical"@, r.critical_count, "critical"@));
    text::lemma_sub_of_itself(html::tile("Warning"@, r.warning_count, "warning"@));
    text::lemma_sub_of_itself(html::tile("Info"@, r.info_count, "info"@));
    text::lemma_sub_of_itself(html::tile("Suppressed"@, r.suppressed_count, "suppressed"@));
    text::lemma_sub_of_itself(html::tile("Filtered"@, r.filtered_count, "filtered"@));
    text::lemma_sub_of_itself(
        html::tile("Severity overridden"@, r.severity_overridden_count, "overridden"@),
    );
}

proof fn lemma_tile(
    r: ReportView,
    heading: Option<&str>,
    top_level: bool,
    label: Seq<char>,
    value: nat,
    class: Seq<char>,
)
    requires
        escape::html_text(label) == label,
        shows_tile(r, label, value, class),
    ensures
        text::has_sub(
            html::section(r, heading, top_level),
            text::decimal(value) + ("</span><span class=\"stat-label\">"@ + label
                + "</span></li>\n"@),
        ),
{
    broadcast use text::lemma_sub_of_joined;

    let end = text::decimal(value) + ("</span><span class=\"stat-label\">"@ + label
        + "</span></li>\n"@);
    text::lemma_sub_of_itself(end);
    assert(html::tile(label, value, class) =~= "<li class=\"stat stat-"@ + class
        + "\"><span class=\"stat-value\">"@ + end);
    assert(text::has_sub(html::tile(label, value, class), end));
    text::lemma_sub_of_sub(html::counts_html(r), html::tile(label, value, class), end);
    lemma_counts_in_section(r, heading, top_level, end);
}

proof fn lemma_counts_in_section(
    r: ReportView,
    heading: Option<&str>,
    top_level: bool,
    pat: Seq<char>,
)
    requires
        text::has_sub(html::counts_html(r), pat),
    ensures
        text::has_sub(html::section(r, heading, top_level), pat),
{
    broadcast use text::lemma_sub_of_joined;

    assert(text::has_sub(html::head_html(r, heading, top_level), pat));
}

proof fn lemma_tile_labels()
    ensures
        escape::html_text("Critical"@) == "Critical"@,
        escape::html_text("Warning"@) == "Warning"@,
        escape::html_text("Info"@) == "Info"@,
        escape::html_text("Suppressed"@) == "Suppressed"@,
        escape::html_text("Filtered"@) == "Filtered"@,
        escape::html_text("Severity overridden"@) == "Severity overridden"@,
        "</span><span class=\"stat-label\">"@ + "Critical"@ + "</span></li>\n"@
            == "</span><span class=\"stat-label\">Critical</span></li>\n"@,
        "</span><span class=\"stat-label\">"@ + "Warning"@ + "</span></li>\n"@
            == "</span><span class=\"stat-label\">Warning</span></li>\n"@,
        "</span><span class=\"stat-label\">"@ + "Info"@ + "</span></li>\n"@
            == "</span><span class=\"stat-label\">Info</span></li>\n"@,
        "</span><span class=\"stat-label\">"@ + "Suppressed"@ + "</span></li>\n"@
            == "</span><span class=\"stat-label\">Suppressed</span></li>\n"@,
        "</span><span class=\"stat-label\">"@ + "Filtered"@ + "</span></li>\n"@
            == "</span><span class=\"stat-label\">Filtered</span></li>\n"@,
        "</span><span class=\"stat-label\">"@ + "Severity overridden"@ + "</span></li>\n"@
            == "</span><span class=\"stat-label\">Severity overridden</span></li>\n"@,
{
    reveal_strlit("Critical");
    reveal_strlit("Warning");
    reveal_strlit("Info");
    reveal_strlit("Suppressed");
    reveal_strlit("Filtered");
    reveal_strlit("Severity overridden");
    escape::text_without_markup_stays("Critical"@);
    escape::text_without_markup_stays("Warning"@);
    escape::text_without_markup_stays("Info"@);
    escape::text_without_markup_stays("Suppressed"@);
    escape::text_without_markup_stays("Filtered"@);
    escape::text_without_markup_stays("Severity overridden"@);
    reveal_strlit("</span><span class=\"stat-label\">");
    reveal_strlit("</span></li>\n");
    reveal_strlit("</span><span class=\"stat-label\">Critical</span></li>\n");
    reveal_strlit("</span><span class=\"stat-label\">Warning</span></li>\n");
    reveal_strlit("</span><span class=\"stat-label\">Info</span></li>\n");
    reveal_strlit("</span><span class=\"stat-label\">Suppressed</span></li>\n");
    reveal_strlit("</span><span class=\"stat-label\">Filtered</span></li>\n");
    reveal_strlit("</span><span class=\"stat-label\">Severity overridden</span></li>\n");
    assert("</span><span class=\"stat-label\">"@ + "Critical"@ + "</span></li>\n"@
        =~= "</span><span class=\"stat-label\">Critical</span></li>\n"@);
    assert("</span><span class=\"stat-label\">"@ + "Warning"@ + "</span></li>\n"@
        =~= "</span><span class=\"stat-label\">Warning</span></li>\n"@);
    assert("</span><span class=\"stat-label\">"@ + "Info"@ + "</span></li>\n"@
        =~= "</span><span class=\"stat-label\">Info</span></li>\n"@);
    assert("</span><span class=\"stat-label\">"@ + "Suppressed"@ + "</span></li>\n"@
        =~= "</span><span class=\"stat-label\">Suppressed</span></li>\n"@);
    assert("</span><span class=\"stat-label\">"@ + "Filtered"@ + "</span></li>\n"@
        =~= "</span><span class=\"stat-label\">Filtered</span></li>\n"@);
    assert("</span><span class=\"stat-label\">"@ + "Severity overridden"@ + "</span></li>\n"@
        =~= "</span><span class=\"stat-label\">Severity overridden</span></li>\n"@);
}

/// The page tells what was analysed, marks an analysis that left the storage out as
/// one with a gap, and tells which version step the report calls for.
pub proof fn the_page_tells_its_scope(r: ReportView, heading: Option<&str>, top_level: bool)
    ensures
        text::has_sub(
            html::section(r, heading, top_level),
            "<p class=\"scope\">"@ + escape::html_text(scope::claim(r.scope)) + "</p>\n"@,
        ),
        r.scope.storage_schema is NotAnalyzed ==> text::has_sub(
            html::section(r, heading, top_level),
            "scope gap\">"@ + escape::html_text(scope::storage_claim(r.scope)) + "</p>\n"@,
        ),
        r.scope.storage_schema is Analyzed ==> text::has_sub(
            html::section(r, heading, top_level),
            "<p class=\"scope\">"@ + escape::html_text(scope::storage_claim(r.scope)) + "</p>\n"@,
        ),
        text::has_sub(
            html::section(r, heading, top_level),
            "Recommended SemVer bump: <code>"@ + status::bump(r) + "</code>"@,
        ),
{
    broadcast use text::lemma_sub_of_joined;

    lemma_scope_parts(r.scope);
    lemma_bump_part(r);
    let first = "<p class=\"scope\">"@ + escape::html_text(scope::claim(r.scope)) + "</p>\n"@;
    assert(text::has_sub(html::head_html(r, heading, top_level), first));
    let bump = "Recommended SemVer bump: <code>"@ + status::bump(r) + "</code>"@;
    assert(text::has_sub(html::head_html(r, heading, top_level), bump));
    if r.scope.storage_schema is NotAnalyzed {
        let gap = "scope gap\">"@ + escape::html_text(scope::storage_claim(r.scope)) + "</p>\n"@;
        assert(text::has_sub(html::head_html(r, heading, top_level), gap));
    } else {
        let whole = "<p class=\"scope\">"@ + escape::html_text(scope::storage_claim(r.scope))
            + "</p>\n"@;
        assert(text::has_sub(html::head_html(r, heading, top_level), whole));
    }
}

proof fn lemma_bump_part(r: ReportView)
    ensures
        text::has_sub(
            html::meta_html(r),
            "Recommended SemVer bump: <code>"@ + status::bump(r) + "</code>"@,
        ),
{
    broadcast use text::lemma_sub_of_joined;

    let bump = "Recommended SemVer bump: <code>"@ + status::bump(r) + "</code>"@;
    text::lemma_sub_of_itself(bump);
    reveal_strlit("<p class=\"meta\">Recommended SemVer bump: <code>");
    reveal_strlit("<p class=\"meta\">");
    reveal_strlit("Recommended SemVer bump: <code>");
    reveal_strlit("</code></p>\n");
    reveal_strlit("</code>");
    reveal_strlit("</p>\n");
    assert("<p class=\"meta\">"@ + "Recommended SemVer bump: <code>"@
        =~= "<p class=\"meta\">Recommended SemVer bump: <code>"@);
    assert("</code>"@ + "</p>\n"@ =~= "</code></p>\n"@);
    let line = "<p class=\"meta\">Recommended SemVer bump: <code>"@ + status::bump(r)
        + "</code></p>\n"@;
    assert(line =~= "<p class=\"meta\">"@ + bump + "</p>\n"@);
    assert(text::has_sub(line, bump));
}

proof fn lemma_scope_parts(s: ScopeView)
    ensures
        text::has_sub(
            html::scope_html(s),
            "<p class=\"scope\">"@ + escape::html_text(scope::claim(s)) + "</p>\n"@,
        ),
        s.storage_schema is NotAnalyzed ==> text::has_sub(
            html::scope_html(s),
            "scope gap\">"@ + escape::html_text(scope::storage_claim(s)) + "</p>\n"@,
        ),
        s.storage_schema is Analyzed ==> text::has_sub(
            html::scope_html(s),
            "<p class=\"scope\">"@ + escape::html_text(scope::storage_claim(s)) + "</p>\n"@,
        ),
{
    broadcast use text::lemma_sub_of_joined;

    reveal_strlit("</p>\n<p class=\"");
    reveal_strlit("</p>\n");
    reveal_strlit("<p class=\"");
    reveal_strlit("scope");
    reveal_strlit("scope gap");
    reveal_strlit("\">");
    reveal_strlit("scope gap\">");
    reveal_strlit("<p class=\"scope\">");
    assert("</p>\n"@ + "<p class=\""@ =~= "</p>\n<p class=\""@);
    assert("scope gap"@ + "\">"@ =~= "scope gap\">"@);
    assert("<p class=\""@ + "scope"@ + "\">"@ =~= "<p class=\"scope\">"@);
    let claim = escape::html_text(scope::claim(s));
    let storage = escape::html_text(scope::storage_claim(s));
    let first = "<p class=\"scope\">"@ + claim + "</p>\n"@;
    text::lemma_sub_of_itself(first);
    let class = if scope::has_storage(s) {
        "scope"@
    } else {
        "scope gap"@
    };
    let head = "<p class=\"scope\">"@ + claim + "</p>\n<p class=\""@ + class + "\">"@ + storage
        + "</p>\n"@;
    if scope::has_storage(s) {
        let whole = "<p class=\"scope\">"@ + storage + "</p>\n"@;
        text::lemma_sub_of_itself(whole);
        assert(head =~= first + whole);
        assert(text::has_sub(head, whole));
    } else {
        let gap = "scope gap\">"@ + storage + "</p>\n"@;
        text::lemma_sub_of_itself(gap);
        assert(head =~= first + "<p class=\""@ + gap);
        assert(text::has_sub(head, gap));
    }
    assert(text::has_sub(head, first));
}

/// The page tells where the old build comes from, which digest its code was found to
/// have, how the findings compare with an earlier report, and whether any are hidden.
pub proof fn the_page_tells_its_origin(r: ReportView, heading: Option<&str>, top_level: bool)
    ensures
        r.baseline_source matches Some(t) ==> text::has_sub(
            html::section(r, heading, top_level),
            "<p class=\"meta\">Baseline source: <code>"@ + escape::html_text(t)
                + "</code></p>\n"@,
        ),
        r.verified_code_hash matches Some(t) ==> text::has_sub(
            html::section(r, heading, top_level),
            "<p class=\"meta\">Verified code hash: <code>"@ + escape::html_text(t)
                + "</code></p>\n"@,
        ),
        r.baseline_diff matches Some(d) ==> text::has_sub(
            html::section(r, heading, top_level),
            "<p class=\"meta\">Baseline: "@ + text::decimal(d.new_count as nat) + " new, "@
                + text::decimal(d.persisting_count as nat) + " persisting, "@ + text::decimal(
                d.resolved.len(),
            ) + " resolved"@,
        ),
        html::filtered_html(r.filtered_count).len() > 0 <==> r.filtered_count > 0,
        text::has_sub(
            html::section(r, heading, top_level),
            html::filtered_html(r.filtered_count),
        ),
{
    broadcast use text::lemma_sub_of_joined;

    reveal_strlit("");
    reveal_strlit(
        "<p class=\"note\">Findings were hidden by --include-category/--exclude-category. The verdict reflects the remaining visible findings only.</p>\n",
    );
    let note = html::filtered_html(r.filtered_count);
    text::lemma_sub_of_itself(note);
    assert(text::has_sub(html::meta_html(r), note));
    assert(text::has_sub(html::head_html(r, heading, top_level), note));
    match r.baseline_source {
        Some(t) => {
            let line = "<p class=\"meta\">Baseline source: <code>"@ + escape::html_text(t)
                + "</code></p>\n"@;
            text::lemma_sub_of_itself(line);
            assert(text::has_sub(html::meta_html(r), line));
            assert(text::has_sub(html::head_html(r, heading, top_level), line));
        },
        None => {},
    }
    match r.verified_code_hash {
        Some(t) => {
            let line = "<p class=\"meta\">Verified code hash: <code>"@ + escape::html_text(t)
                + "</code></p>\n"@;
            text::lemma_sub_of_itself(line);
            assert(text::has_sub(html::meta_html(r), line));
            assert(text::has_sub(html::head_html(r, heading, top_level), line));
        },
        None => {},
    }
    match r.baseline_diff {
        Some(d) => {
            let line = "<p class=\"meta\">Baseline: "@ + text::decimal(d.new_count as nat)
                + " new, "@ + text::decimal(d.persisting_count as nat) + " persisting, "@
                + text::decimal(d.resolved.len()) + " resolved"@;
            text::lemma_sub_of_itself(line);
            lemma_resolved_word();
            assert(html::baseline_html(r.baseline_diff) =~= line + " (vs. tool v"@
                + escape::html_text(d.baseline_tool_version) + ")"@ + text_format::new_only_remark(
                d,
            ) + "</p>\n"@);
            assert(text::has_sub(html::baseline_html(r.baseline_diff), line));
            assert(text::has_sub(html::meta_html(r), line));
            assert(text::has_sub(html::head_html(r, heading, top_level), line));
        },
        None => {},
    }
}

/// The claims on the scope tell whether the storage was analysed: they say that it
/// was not exactly where no schema was declared, and otherwise tell how many types
/// were.
pub proof fn the_claims_tell_what_was_analysed(s: ScopeView)
    ensures
        text::begins_with(scope::storage_claim(s), "Storage layout: NOT analyzed"@)
            <==> s.storage_schema is NotAnalyzed,
        s.storage_schema is NotAnalyzed ==> text::has_sub(
            scope::claim(s),
            "storage layout is NOT verified"@,
        ),
        s.storage_schema matches StorageScopeState::Analyzed { key_types, value_types } ==> {
            let types = "declared storage schema ("@ + text::decimal(key_types as nat)
                + " key type(s), "@ + text::decimal(value_types as nat) + " value type(s))"@;
            let schema = "analyzed against the declared schema ("@ + text::decimal(
                key_types as nat,
            ) + " key type(s), "@ + text::decimal(value_types as nat) + " value type(s))"@;
            &&& text::has_sub(scope::claim(s), types)
            &&& text::has_sub(scope::storage_claim(s), schema)
        },
{
    broadcast use text::lemma_sub_of_joined;

    match s.storage_schema {
        StorageScopeState::NotAnalyzed => {
            lemma_claims_without_storage();
        },
        StorageScopeState::Analyzed { key_types, value_types } => {
            let inner = text::decimal(key_types as nat) + " key type(s), "@ + text::decimal(
                value_types as nat,
            );
            lemma_claim_words();
            let types = "declared storage schema ("@ + text::decimal(key_types as nat)
                + " key type(s), "@ + text::decimal(value_types as nat) + " value type(s))"@;
            let schema = "analyzed against the declared schema ("@ + text::decimal(
                key_types as nat,
            ) + " key type(s), "@ + text::decimal(value_types as nat) + " value type(s))"@;
            text::lemma_sub_of_itself(types);
            text::lemma_sub_of_itself(schema);
            assert(types =~= "declared storage schema ("@ + inner + " value type(s))"@);
            assert(schema =~= "analyzed against the declared schema ("@ + inner
                + " value type(s))"@);
            assert(scope::claim(s)
                =~= "Exported interface + environment metadata, plus a "@ + types
                + ". Storage coverage is limited to the declared types."@);
            assert(scope::storage_claim(s) =~= "Storage layout: "@ + schema + "."@);
            assert(scope::storage_claim(s) =~= "Storage layout: "@ + (schema + "."@));
            assert((schema + "."@)[0] == 'a');
            lemma_starts_differ(schema + "."@);
        },
    }
}

proof fn lemma_starts_differ(rest: Seq<char>)
    requires
        rest.len() > 0,
        rest[0] == 'a',
    ensures
        !text::begins_with("Storage layout: "@ + rest, "Storage layout: NOT analyzed"@),
{
    reveal_strlit("Storage layout: ");
    reveal_strlit("Storage layout: NOT analyzed");
    let s = "Storage layout: "@ + rest;
    assert(s.take(s.len() as int) =~= s);
    assert(s[16] == 'a');
    text::lemma_begins_with_one(s, s, "Storage layout: NOT analyzed"@, 16);
}

proof fn lemma_claim_words()
    ensures
        "Exported interface + environment metadata, plus a declared storage schema ("@
            == "Exported interface + environment metadata, plus a "@
            + "declared storage schema ("@,
        " value type(s)). Storage coverage is limited to the declared types."@
            == " value type(s))"@ + ". Storage coverage is limited to the declared types."@,
        "Storage layout: analyzed against the declared schema ("@ == "Storage layout: "@
            + "analyzed against the declared schema ("@,
        " value type(s))."@ == " value type(s))"@ + "."@,
        "analyzed against the declared schema ("@.len() > 0,
        "analyzed against the declared schema ("@[0] == 'a',
{
    reveal_strlit("Exported interface + environment metadata, plus a declared storage schema (");
    reveal_strlit("Exported interface + environment metadata, plus a ");
    reveal_strlit("declared storage schema (");
    reveal_strlit(" value type(s)). Storage coverage is limited to the declared types.");
    reveal_strlit(" value type(s))");
    reveal_strlit(". Storage coverage is limited to the declared types.");
    reveal_strlit("Storage layout: analyzed against the declared schema (");
    reveal_strlit("Storage layout: ");
    reveal_strlit("analyzed against the declared schema (");
    reveal_strlit(" value type(s)).");
    reveal_strlit(".");
    assert("Exported interface + environment metadata, plus a declared storage schema ("@
        =~= "Exported interface + environment metadata, plus a "@ + "declared storage schema ("@);
    assert(" value type(s)). Storage coverage is limited to the declared types."@
        =~= " value type(s))"@ + ". Storage coverage is limited to the declared types."@);
    assert("Storage layout: analyzed against the declared schema ("@ =~= "Storage layout: "@
        + "analyzed against the declared schema ("@);
    assert(" value type(s))."@ =~= " value type(s))"@ + "."@);
}

proof fn lemma_claims_without_storage()
    ensures
        text::begins_with(
            "Storage layout: NOT analyzed — no storage schema supplied."@,
            "Storage layout: NOT analyzed"@,
        ),
        text::has_sub(scope::SCOPE_SUMMARY_LINE@, "storage layout is NOT verified"@),
{
    reveal_strlit("Storage layout: NOT analyzed — no storage schema supplied.");
    reveal_strlit("Storage layout: NOT analyzed");
    assert("Storage layout: NOT analyzed — no storage schema supplied."@.take(
        "Storage layout: NOT analyzed"@.len() as int,
    ) =~= "Storage layout: NOT analyzed"@);
    reveal_strlit(
        "Exported interface + environment metadata only — storage layout is NOT verified by this result.",
    );
    reveal_strlit("storage layout is NOT verified");
    let line = scope::SCOPE_SUMMARY_LINE@;
    let words = "storage layout is NOT verified"@;
    assert(line.subrange(49, 49 + words.len() as int) =~= words);
    assert(text::occurs_at(line, 49, words));
    text::lemma_first_at(line, 0, words);
}

} // verus!
