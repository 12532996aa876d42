//! The report as a web page.

use vstd::prelude::*;

use crate::baseline::BaselineDiff;
use crate::baseline::BaselineStatus;
use crate::baseline::BaselineView;
use crate::baseline::ResolvedView;
use crate::diff;
use crate::diff::Severity;
use crate::order;
use crate::report::escape;
use crate::report::findings;
use crate::report::findings::GroupView;
use crate::report::findings::ReportedFinding;
use crate::report::findings::ReportedView;
use crate::report::html_page;
use crate::report::markdown;
use crate::report::metrics;
use crate::report::metrics::BuildMetrics;
use crate::report::parts;
use crate::report::safety;
use crate::report::safety::ReportView;
use crate::report::safety::SafetyReport;
use crate::report::scope;
use crate::report::scope::AnalysisScope;
use crate::report::scope::ScopeView;
use crate::report::status;
use crate::report::text_format;
use crate::text;

verus! {

/// The opening tag of a heading, up to its class.
pub open spec fn heading_open(top_level: bool) -> Seq<char> {
    if top_level {
        "<h1 class=\""@
    } else {
        "<h2 class=\""@
    }
}

/// The closing tag of a heading.
pub open spec fn heading_close(top_level: bool) -> Seq<char> {
    if top_level {
        "</h1>\n"@
    } else {
        "</h2>\n"@
    }
}

/// The name of the contract pair, where one is given.
pub open spec fn name_html(heading: Option<&str>, top_level: bool) -> Seq<char> {
    match heading {
        Some(name) => heading_open(top_level) + "pair-name\">"@ + escape::html_text(name@)
            + heading_close(top_level),
        None => ""@,
    }
}

/// The title of the page, where no contract pair is named.
pub open spec fn title_html(heading: Option<&str>, top_level: bool) -> Seq<char> {
    if heading is None {
        heading_open(top_level) + "title\">Soroban Upgrade Safety Report"@ + heading_close(
            top_level,
        )
    } else {
        ""@
    }
}

fn open_heading(top_level: bool) -> (r: &'static str)
    ensures
        r@ == heading_open(top_level),
{
    if top_level {
        "<h1 class=\""
    } else {
        "<h2 class=\""
    }
}

fn close_heading(top_level: bool) -> (r: &'static str)
    ensures
        r@ == heading_close(top_level),
{
    if top_level {
        "</h1>\n"
    } else {
        "</h2>\n"
    }
}

fn name_part(heading: Option<&str>, top_level: bool) -> (out: String)
    ensures
        out@ == name_html(heading, top_level),
{
    match heading {
        Some(name) => {
            let mut out = open_heading(top_level).to_string();
            out.append("pair-name\">");
            out.append(escape::escape_html(name).as_str());
            out.append(close_heading(top_level));
            out
        },
        None => "".to_string(),
    }
}

fn title_part(heading: Option<&str>, top_level: bool) -> (out: String)
    ensures
        out@ == title_html(heading, top_level),
{
    if heading.is_none() {
        let mut out = open_heading(top_level).to_string();
        out.append("title\">Soroban Upgrade Safety Report");
        out.append(close_heading(top_level));
        out
    } else {
        "".to_string()
    }
}

/// The mark of strict mode.
pub open spec fn strict_html(strict: bool) -> Seq<char> {
    if strict {
        "<p class=\"banner strict\">⚠️ STRICT MODE ACTIVE — warnings are treated as failures.</p>\n"@
    } else {
        ""@
    }
}

fn strict_part(strict: bool) -> (r: &'static str)
    ensures
        r@ == strict_html(strict),
{
    if strict {
        "<p class=\"banner strict\">⚠️ STRICT MODE ACTIVE — warnings are treated as failures.</p>\n"
    } else {
        ""
    }
}

/// The verdict.
pub open spec fn verdict_html(r: ReportView) -> Seq<char> {
    "<p class=\"banner "@ + (if r.is_safe {
        "pass"@
    } else {
        "fail"@
    }) + "\">"@ + escape::html_text(status::status_label(r)) + "</p>\n"@
}

fn verdict_part(r: &SafetyReport) -> (out: String)
    ensures
        out@ == verdict_html(r@),
{
    let mut out = "<p class=\"banner ".to_string();
    out.append(
        if r.is_safe {
            "pass"
        } else {
            "fail"
        },
    );
    out.append("\">");
    out.append(escape::escape_html(r.status()).as_str());
    out.append("</p>\n");
    out
}

/// The notice that a configuration turned the verdict.
pub open spec fn notice_html(r: ReportView) -> Seq<char> {
    match status::verdict_notice(r) {
        Some(notice) => "<p class=\"banner override-verdict\">⚠️ "@ + escape::html_text(notice)
            + "</p>\n"@,
        None => ""@,
    }
}

fn notice_part(r: &SafetyReport) -> (out: String)
    ensures
        out@ == notice_html(r@),
{
    match r.override_verdict_notice() {
        Some(notice) => text::three(
            "<p class=\"banner override-verdict\">⚠️ ",
            escape::escape_html(notice.as_str()).as_str(),
            "</p>\n",
        ),
        None => "".to_string(),
    }
}

/// The number of spec sections, where there are several.
pub open spec fn sections_html(s: ScopeView) -> Seq<char> {
    if parts::has_many_sections(s) {
        "<p class=\"banner warn\">⚠️ Multi-section WASM detected: old has "@ + text::decimal(
            s.old_spec_section_count as nat,
        ) + " contractspecv0 section(s), new has "@ + text::decimal(
            s.new_spec_section_count as nat,
        ) + ".</p>\n"@
    } else {
        ""@
    }
}

fn sections_part(s: &AnalysisScope) -> (out: String)
    ensures
        out@ == sections_html(s@),
{
    if parts::many_sections(s) {
        let mut out =
            "<p class=\"banner warn\">⚠️ Multi-section WASM detected: old has ".to_string();
        out.append(text::number(s.old_spec_section_count).as_str());
        out.append(" contractspecv0 section(s), new has ");
        out.append(text::number(s.new_spec_section_count).as_str());
        out.append(".</p>\n");
        out
    } else {
        "".to_string()
    }
}

/// The names that are defined twice, where there are any.
pub open spec fn duplicates_html(s: ScopeView) -> Seq<char> {
    let names = parts::duplicates(s, "old:"@, "new:"@, ""@);
    if names.len() > 0 {
        "<p class=\"banner fail\">❌ Duplicate spec entries detected: "@ + escape::html_text(
            text::joined(names, ", "@),
        ) + "</p>\n"@
    } else {
        ""@
    }
}

fn duplicates_part(s: &AnalysisScope) -> (out: String)
    ensures
        out@ == duplicates_html(s@),
{
    let names = parts::list_duplicates(s, "old:", "new:", "");
    assert(text::views(names@).len() == names@.len());
    if names.len() > 0 {
        text::three(
            "<p class=\"banner fail\">❌ Duplicate spec entries detected: ",
            escape::escape_html(text::join(&names, ", ").as_str()).as_str(),
            "</p>\n",
        )
    } else {
        "".to_string()
    }
}

/// The scope.
pub open spec fn scope_html(s: ScopeView) -> Seq<char> {
    "<p class=\"scope\">"@ + escape::html_text(scope::claim(s)) + "</p>\n<p class=\""@ + (
    if scope::has_storage(s) {
        "scope"@
    } else {
        "scope gap"@
    }) + "\">"@ + escape::html_text(scope::storage_claim(s)) + "</p>\n"@ + sections_html(s)
        + duplicates_html(s)
}

fn scope_part(s: &AnalysisScope) -> (out: String)
    ensures
        out@ == scope_html(s@),
{
    let mut out = "<p class=\"scope\">".to_string();
    out.append(escape::escape_html(s.summary_line().as_str()).as_str());
    out.append("</p>\n<p class=\"");
    out.append(
        if s.storage_analyzed() {
            "scope"
        } else {
            "scope gap"
        },
    );
    out.append("\">");
    out.append(escape::escape_html(s.storage_status_line().as_str()).as_str());
    out.append("</p>\n");
    out.append(sections_part(s).as_str());
    out.append(duplicates_part(s).as_str());
    out
}

/// A tile with a count.
pub open spec fn tile(label: Seq<char>, value: nat, class: Seq<char>) -> Seq<char> {
    "<li class=\"stat stat-"@ + class + "\"><span class=\"stat-value\">"@ + text::decimal(value)
        + "</span><span class=\"stat-label\">"@ + escape::html_text(label) + "</span></li>\n"@
}

fn stat_tile(label: &str, value: usize, class: &str) -> (r: String)
    ensures
        r@ == tile(label@, value as nat, class@),
{
    let mut out = "<li class=\"stat stat-".to_string();
    out.append(class);
    out.append("\"><span class=\"stat-value\">");
    out.append(text::number(value).as_str());
    out.append("</span><span class=\"stat-label\">");
    out.append(escape::escape_html(label).as_str());
    out.append("</span></li>\n");
    out
}

/// A tile that is left out at zero.
pub open spec fn optional_tile(label: Seq<char>, value: nat, class: Seq<char>) -> Seq<char> {
    if value > 0 {
        tile(label, value, class)
    } else {
        ""@
    }
}

fn optional_stat_tile(label: &str, value: usize, class: &str) -> (r: String)
    ensures
        r@ == optional_tile(label@, value as nat, class@),
{
    if value > 0 {
        stat_tile(label, value, class)
    } else {
        "".to_string()
    }
}

/// The counts.
pub open spec fn counts_html(r: ReportView) -> Seq<char> {
    "<ul class=\"stats\">\n"@ + tile("Critical"@, r.critical_count, "critical"@) + tile(
        "Warning"@,
        r.warning_count,
        "warning"@,
    ) + tile("Info"@, r.info_count, "info"@) + optional_tile(
        "Suppressed"@,
        r.suppressed_count,
        "suppressed"@,
    ) + optional_tile("Filtered"@, r.filtered_count, "filtered"@) + optional_tile(
        "Severity overridden"@,
        r.severity_overridden_count,
        "overridden"@,
    ) + "</ul>\n"@
}

fn counts_part(r: &SafetyReport) -> (out: String)
    ensures
        out@ == counts_html(r@),
{
    let mut out = "<ul class=\"stats\">\n".to_string();
    out.append(stat_tile("Critical", r.critical_count, "critical").as_str());
    out.append(stat_tile("Warning", r.warning_count, "warning").as_str());
    out.append(stat_tile("Info", r.info_count, "info").as_str());
    out.append(optional_stat_tile("Suppressed", r.suppressed_count, "suppressed").as_str());
    out.append(optional_stat_tile("Filtered", r.filtered_count, "filtered").as_str());
    out.append(
        optional_stat_tile(
            "Severity overridden",
            r.severity_overridden_count,
            "overridden",
        ).as_str(),
    );
    out.append("</ul>\n");
    out
}

/// An escaped text between two others, or nothing.
pub open spec fn optional_html(open: Seq<char>, t: Option<Seq<char>>, close: Seq<char>) -> Seq<
    char,
> {
    match t {
        Some(s) => open + escape::html_text(s) + close,
        None => ""@,
    }
}

fn optional_part(open: &str, t: &Option<String>, close: &str) -> (r: String)
    ensures
        r@ == optional_html(open@, diff::opt_view(*t), close@),
{
    match t {
        Some(s) => text::three(open, escape::escape_html(s.as_str()).as_str(), close),
        None => "".to_string(),
    }
}

/// How the run relates to an earlier report, where there is one.
pub open spec fn baseline_html(b: Option<BaselineView>) -> Seq<char> {
    match b {
        Some(d) => "<p class=\"meta\">Baseline: "@ + text::decimal(d.new_count as nat) + " new, "@
            + text::decimal(d.persisting_count as nat) + " persisting, "@ + text::decimal(
            d.resolved.len(),
        ) + " resolved (vs. tool v"@ + escape::html_text(d.baseline_tool_version) + ")"@
            + text_format::new_only_remark(d) + "</p>\n"@,
        None => ""@,
    }
}

fn baseline_part(b: &Option<BaselineDiff>) -> (out: String)
    ensures
        out@ == baseline_html(safety::baseline_view(*b)),
{
    match b {
        Some(d) => {
            let mut out = "<p class=\"meta\">Baseline: ".to_string();
            out.append(text::number(d.new_count).as_str());
            out.append(" new, ");
            out.append(text::number(d.persisting_count).as_str());
            out.append(" persisting, ");
            out.append(text::number(d.resolved.len()).as_str());
            out.append(" resolved (vs. tool v");
            out.append(escape::escape_html(d.baseline_tool_version.as_str()).as_str());
            out.append(")");
            out.append(text_format::new_only_note(d));
            out.append("</p>\n");
            out
        },
        None => "".to_string(),
    }
}

/// The remark that findings are hidden.
pub open spec fn filtered_html(n: nat) -> Seq<char> {
    if n > 0 {
        "<p class=\"note\">Findings were hidden by --include-category/--exclude-category. The verdict reflects the remaining visible findings only.</p>\n"@
    } else {
        ""@
    }
}

fn filtered_part(n: usize) -> (r: &'static str)
    ensures
        r@ == filtered_html(n as nat),
{
    if n > 0 {
        "<p class=\"note\">Findings were hidden by --include-category/--exclude-category. The verdict reflects the remaining visible findings only.</p>\n"
    } else {
        ""
    }
}

/// The facts below the counts.
pub open spec fn meta_html(r: ReportView) -> Seq<char> {
    "<p class=\"meta\">Recommended SemVer bump: <code>"@ + status::bump(r) + "</code></p>\n"@
        + optional_html(
        "<p class=\"meta\">Baseline source: <code>"@,
        r.baseline_source,
        "</code></p>\n"@,
    ) + optional_html(
        "<p class=\"meta\">Verified code hash: <code>"@,
        r.verified_code_hash,
        "</code></p>\n"@,
    ) + baseline_html(r.baseline_diff) + filtered_html(r.filtered_count)
}

fn meta_part(r: &SafetyReport) -> (out: String)
    ensures
        out@ == meta_html(r@),
{
    let mut out = "<p class=\"meta\">Recommended SemVer bump: <code>".to_string();
    out.append(r.recommended_bump());
    out.append("</code></p>\n");
    out.append(
        optional_part(
            "<p class=\"meta\">Baseline source: <code>",
            &r.baseline_source,
            "</code></p>\n",
        ).as_str(),
    );
    out.append(
        optional_part(
            "<p class=\"meta\">Verified code hash: <code>",
            &r.verified_code_hash,
            "</code></p>\n",
        ).as_str(),
    );
    out.append(baseline_part(&r.baseline_diff).as_str());
    out.append(filtered_part(r.filtered_count));
    out
}

/// Everything above the findings.
pub open spec fn head_html(r: ReportView, heading: Option<&str>, top_level: bool) -> Seq<char> {
    "<section class=\"report\">\n"@ + name_html(heading, top_level) + title_html(
        heading,
        top_level,
    ) + strict_html(r.strict) + verdict_html(r) + notice_html(r) + scope_html(r.scope)
        + counts_html(r) + meta_html(r)
}

fn head_part(r: &SafetyReport, heading: Option<&str>, top_level: bool) -> (out: String)
    ensures
        out@ == head_html(r@, heading, top_level),
{
    let mut out = "<section class=\"report\">\n".to_string();
    out.append(name_part(heading, top_level).as_str());
    out.append(title_part(heading, top_level).as_str());
    out.append(strict_part(r.strict));
    out.append(verdict_part(r).as_str());
    out.append(notice_part(r).as_str());
    out.append(scope_part(&r.scope).as_str());
    out.append(counts_part(r).as_str());
    out.append(meta_part(r).as_str());
    out
}

/// The badges of a finding.
pub open spec fn badges_html(f: ReportedView) -> Seq<char> {
    let sev = diff::severity_label(f.finding.severity);
    "<span class=\"badge badge-"@ + sev + "\">"@ + sev + "</span> "@ + (if f.suppressed {
        "<span class=\"badge badge-suppressed\">suppressed</span> "@
    } else {
        ""@
    }) + (if f.baseline_status == Some(BaselineStatus::New) {
        "<span class=\"badge badge-new\">new</span> "@
    } else {
        ""@
    }) + override_badge(f)
}

/// The badge of a changed severity.
pub open spec fn override_badge(f: ReportedView) -> Seq<char> {
    match f.original_severity {
        Some(original) => "<span class=\"badge badge-overridden\">severity "@
            + diff::severity_label(original) + " → "@ + diff::severity_label(f.finding.severity)
            + "</span> "@,
        None => ""@,
    }
}

fn override_badge_of(f: &ReportedFinding) -> (out: String)
    ensures
        out@ == override_badge(f@),
{
    match f.original_severity {
        Some(original) => {
            let mut out = "<span class=\"badge badge-overridden\">severity ".to_string();
            out.append(original.label());
            out.append(" → ");
            out.append(f.finding.severity.label());
            out.append("</span> ");
            out
        },
        None => "".to_string(),
    }
}

fn badges_part(f: &ReportedFinding) -> (out: String)
    ensures
        out@ == badges_html(f@),
{
    let sev = f.finding.severity.label();
    let mut out = "<span class=\"badge badge-".to_string();
    out.append(sev);
    out.append("\">");
    out.append(sev);
    out.append("</span> ");
    out.append(
        if f.suppressed {
            "<span class=\"badge badge-suppressed\">suppressed</span> "
        } else {
            ""
        },
    );
    out.append(
        match f.baseline_status {
            Some(BaselineStatus::New) => "<span class=\"badge badge-new\">new</span> ",
            _ => "",
        },
    );
    out.append(override_badge_of(f).as_str());
    out
}

/// A finding.
pub open spec fn finding_html(f: ReportedView) -> Seq<char> {
    "<li class=\"finding sev-"@ + diff::severity_label(f.finding.severity) + (if f.suppressed {
        " suppressed"@
    } else {
        ""@
    }) + "\">"@ + badges_html(f) + "<span class=\"message\">"@ + escape::html_text(
        f.finding.message,
    ) + "</span>"@ + optional_html(
        " <code class=\"target\">"@,
        f.finding.target,
        "</code>"@,
    ) + optional_html("<div class=\"sub\">reason: "@, f.suppression_reason, "</div>"@)
        + optional_html("<div class=\"sub guidance\">guidance: "@, f.remediation, "</div>"@)
        + "</li>\n"@
}

fn finding_part(f: &ReportedFinding) -> (out: String)
    ensures
        out@ == finding_html(f@),
{
    let mut out = "<li class=\"finding sev-".to_string();
    out.append(f.finding.severity.label());
    out.append(
        if f.suppressed {
            " suppressed"
        } else {
            ""
        },
    );
    out.append("\">");
    out.append(badges_part(f).as_str());
    out.append("<span class=\"message\">");
    out.append(escape::escape_html(f.finding.message.as_str()).as_str());
    out.append("</span>");
    out.append(
        optional_part(" <code class=\"target\">", &f.finding.target, "</code>").as_str(),
    );
    out.append(
        optional_part("<div class=\"sub\">reason: ", &f.suppression_reason, "</div>").as_str(),
    );
    out.append(
        optional_part("<div class=\"sub guidance\">guidance: ", &f.remediation, "</div>").as_str(),
    );
    out.append("</li>\n");
    out
}

/// The first `n` findings of an order.
pub open spec fn findings_html(list: Seq<ReportedView>, order: Seq<int>, n: int) -> Seq<char>
    decreases n,
{
    if n <= 0 {
        ""@
    } else {
        findings_html(list, order, n - 1) + finding_html(list[order[n - 1]])
    }
}

/// Whether a group has nothing that needs a look: only informational and
/// acknowledged findings.
pub open spec fn is_quiet(list: Seq<ReportedView>) -> bool {
    forall|i: int|
        0 <= i < list.len() ==> (#[trigger] list[i]).finding.severity == Severity::Info
            || list[i].suppressed
}

fn quiet(list: &Vec<ReportedFinding>) -> (r: bool)
    ensures
        r == is_quiet(findings::reported_views(list@)),
{
    let ghost views = findings::reported_views(list@);
    let mut i: usize = 0;
    while i < list.len()
        invariant
            i <= list@.len(),
            views == findings::reported_views(list@),
            forall|k: int|
                0 <= k < i ==> (#[trigger] views[k]).finding.severity == Severity::Info
                    || views[k].suppressed,
        decreases list@.len() - i,
    {
        assert(views[i as int] == list@[i as int]@);
        if list[i].finding.severity != Severity::Info && !list[i].suppressed {
            return false;
        }
        i = i + 1;
    }
    true
}

/// The findings of one category, by message; closed where none needs a look.
pub open spec fn group_html(g: GroupView) -> Seq<char> {
    "<details class=\"category\""@ + (if is_quiet(g.findings) {
        ""@
    } else {
        " open"@
    }) + ">\n<summary>"@ + escape::html_text(g.category) + " <span class=\"count\">"@
        + text::decimal(g.findings.len()) + "</span></summary>\n<ul class=\"findings\">\n"@
        + findings_html(
        g.findings,
        findings::message_order(g.findings),
        g.findings.len() as int,
    ) + "</ul>\n</details>\n"@
}

fn group_part(category: &str, list: &Vec<ReportedFinding>) -> (out: String)
    ensures
        out@ == group_html(
            (GroupView { category: category@, findings: findings::reported_views(list@) }),
        ),
{
    let ghost views = findings::reported_views(list@);
    let order = findings::order_by_message(list);
    let ghost wanted = findings::message_order(views);
    let mut body = "".to_string();
    let mut i: usize = 0;
    while i < order.len()
        invariant
            i <= order@.len(),
            views == findings::reported_views(list@),
            order@.len() == list@.len(),
            wanted == order::as_ints(order@),
            forall|j: int| 0 <= j < order@.len() ==> #[trigger] order@[j] < list@.len(),
            body@ == findings_html(views, wanted, i as int),
        decreases order@.len() - i,
    {
        let at = order[i];
        assert(views[at as int] == list@[at as int]@);
        assert(wanted[i as int] == at);
        body.append(finding_part(&list[at]).as_str());
        i = i + 1;
    }
    let mut out = "<details class=\"category\"".to_string();
    out.append(
        if quiet(list) {
            ""
        } else {
            " open"
        },
    );
    out.append(">\n<summary>");
    out.append(escape::escape_html(category).as_str());
    out.append(" <span class=\"count\">");
    out.append(text::number(list.len()).as_str());
    out.append("</span></summary>\n<ul class=\"findings\">\n");
    out.append(body.as_str());
    out.append("</ul>\n</details>\n");
    out
}

/// The first `n` groups of an order.
pub open spec fn groups_html(groups: Seq<GroupView>, order: Seq<int>, n: int) -> Seq<char>
    decreases n,
{
    if n <= 0 {
        ""@
    } else {
        groups_html(groups, order, n - 1) + group_html(groups[order[n - 1]])
    }
}

fn groups_part(r: &SafetyReport) -> (out: String)
    ensures
        out@ == groups_html(
            r@.groups,
            findings::severity_order(r@.groups),
            r@.groups.len() as int,
        ),
{
    let order = findings::order_by_severity(&r.findings_by_category);
    let ghost wanted = findings::severity_order(r@.groups);
    let mut out = "".to_string();
    let mut i: usize = 0;
    while i < order.len()
        invariant
            i <= order@.len(),
            order@.len() == r@.groups.len(),
            wanted == order::as_ints(order@),
            forall|j: int| 0 <= j < order@.len() ==> #[trigger] order@[j] < r@.groups.len(),
            out@ == groups_html(r@.groups, wanted, i as int),
        decreases order@.len() - i,
    {
        let at = order[i];
        assert(wanted[i as int] == at);
        let category = r.findings_by_category.category(at);
        let list = r.findings_by_category.findings(at);
        let part = group_part(category.as_str(), list);
        assert(r@.groups[at as int] == (GroupView {
            category: category@,
            findings: findings::reported_views(list@),
        }));
        out.append(part.as_str());
        i = i + 1;
    }
    out
}

/// The first `n` resolved findings.
pub open spec fn resolved_items(resolved: Seq<ResolvedView>, n: int) -> Seq<char>
    decreases n,
{
    if n <= 0 {
        ""@
    } else {
        resolved_items(resolved, n - 1) + "<li class=\"finding resolved\">"@ + escape::html_text(
            resolved[n - 1].message,
        ) + "</li>\n"@
    }
}

/// The findings of the earlier report that are gone, where there are any.
pub open spec fn resolved_html(b: Option<BaselineView>) -> Seq<char> {
    match b {
        Some(d) if d.resolved.len() > 0 =>
            "<details class=\"category\">\n<summary>✅ Resolved Since Baseline <span class=\"count\">"@
            + text::decimal(d.resolved.len())
            + "</span></summary>\n<ul class=\"findings\">\n"@ + resolved_items(
            d.resolved,
            d.resolved.len() as int,
        ) + "</ul>\n</details>\n"@,
        _ => ""@,
    }
}

fn resolved_part(b: &Option<BaselineDiff>) -> (out: String)
    ensures
        out@ == resolved_html(safety::baseline_view(*b)),
{
    match b {
        Some(d) => {
            let ghost resolved = d@.resolved;
            assert(resolved.len() == d.resolved@.len());
            if d.resolved.len() > 0 {
                let mut items = "".to_string();
                let mut i: usize = 0;
                while i < d.resolved.len()
                    invariant
                        i <= d.resolved@.len(),
                        resolved == d@.resolved,
                        items@ == resolved_items(resolved, i as int),
                    decreases d.resolved@.len() - i,
                {
                    assert(resolved[i as int] == d.resolved@[i as int]@);
                    items.append("<li class=\"finding resolved\">");
                    items.append(escape::escape_html(d.resolved[i].message.as_str()).as_str());
                    items.append("</li>\n");
                    i = i + 1;
                }
                let mut out =
                    "<details class=\"category\">\n<summary>✅ Resolved Since Baseline <span class=\"count\">".to_string();
                out.append(text::number(d.resolved.len()).as_str());
                out.append("</span></summary>\n<ul class=\"findings\">\n");
                out.append(items.as_str());
                out.append("</ul>\n</details>\n");
                out
            } else {
                "".to_string()
            }
        },
        None => "".to_string(),
    }
}

/// What a failing run asks for.
pub open spec fn action_html(is_safe: bool) -> Seq<char> {
    if is_safe {
        ""@
    } else {
        "<p class=\"banner fail\">⚠️ ACTION REQUIRED: the new contract version modifies existing storage layouts or function interfaces. Deploying this upgrade will result in orphaned data, serialization panics, or broken integrations.</p>\n"@
    }
}

fn action_part(is_safe: bool) -> (r: &'static str)
    ensures
        r@ == action_html(is_safe),
{
    if is_safe {
        ""
    } else {
        "<p class=\"banner fail\">⚠️ ACTION REQUIRED: the new contract version modifies existing storage layouts or function interfaces. Deploying this upgrade will result in orphaned data, serialization panics, or broken integrations.</p>\n"
    }
}

/// An optional text, escaped, with a dash in its place.
pub open spec fn cell(t: Option<Seq<char>>) -> Seq<char> {
    escape::html_text(parts::or_else(t, "-"@))
}

fn cell_of(t: &Option<String>) -> (r: String)
    ensures
        r@ == cell(diff::opt_view(*t)),
{
    escape::escape_html(parts::text_or(t, "-"))
}

/// The record of a suppression.
pub open spec fn audit_row(f: ReportedView) -> Seq<char> {
    "<tr><td>"@ + escape::html_text(f.finding.category) + "</td><td><code>"@ + cell(
        f.finding.target,
    ) + "</code></td><td><code>"@ + cell(f.suppression_fingerprint) + "</code></td><td>"@ + cell(
        f.suppression_author,
    ) + "</td><td>"@ + cell(f.suppression_expiry) + "</td><td>"@ + cell(f.suppression_reason)
        + "</td></tr>\n"@
}

fn audit_row_of(f: &ReportedFinding) -> (r: String)
    ensures
        r@ == audit_row(f@),
{
    let mut out = "<tr><td>".to_string();
    out.append(escape::escape_html(f.finding.category.as_str()).as_str());
    out.append("</td><td><code>");
    out.append(cell_of(&f.finding.target).as_str());
    out.append("</code></td><td><code>");
    out.append(cell_of(&f.suppression_fingerprint).as_str());
    out.append("</code></td><td>");
    out.append(cell_of(&f.suppression_author).as_str());
    out.append("</td><td>");
    out.append(cell_of(&f.suppression_expiry).as_str());
    out.append("</td><td>");
    out.append(cell_of(&f.suppression_reason).as_str());
    out.append("</td></tr>\n");
    out
}

/// The records of the first `n` suppressions of an order.
pub open spec fn audit_rows(list: Seq<ReportedView>, order: Seq<int>, n: int) -> Seq<char>
    decreases n,
{
    if n <= 0 {
        ""@
    } else {
        audit_rows(list, order, n - 1) + audit_row(list[order[n - 1]])
    }
}

/// The log of applied suppressions, by category and message, where there are
/// any.
pub open spec fn audit_html(r: ReportView) -> Seq<char> {
    let list = findings::suppressed_findings(r.groups);
    if list.len() > 0 {
        "<details class=\"category\" open>\n<summary>🔕 Applied Suppressions Audit Log <span class=\"count\">"@
            + text::decimal(list.len())
            + "</span></summary>\n<div class=\"table-scroll\"><table>\n<thead><tr><th>Category</th><th>Target</th><th>Fingerprint</th><th>Author</th><th>Expiry</th><th>Reason</th                          </tr></thead>\n<tbody>\n"@
            + audit_rows(list, findings::audit_order(list), list.len() as int)
            + "</tbody>\n</table></div>\n</details>\n"@
    } else {
        ""@
    }
}

fn audit_part(r: &SafetyReport) -> (out: String)
    ensures
        out@ == audit_html(r@),
{
    let list = findings::list_suppressed(&r.findings_by_category);
    let ghost views = findings::ref_views(list@);
    assert(views.len() == list@.len());
    if list.len() > 0 {
        let order = findings::order_for_audit(&list);
        let ghost wanted = findings::audit_order(views);
        let mut rows = "".to_string();
        let mut i: usize = 0;
        while i < order.len()
            invariant
                i <= order@.len(),
                views == findings::ref_views(list@),
                order@.len() == list@.len(),
                wanted == order::as_ints(order@),
                forall|j: int| 0 <= j < order@.len() ==> #[trigger] order@[j] < list@.len(),
                rows@ == audit_rows(views, wanted, i as int),
            decreases order@.len() - i,
        {
            let at = order[i];
            assert(views[at as int] == list@[at as int]@);
            assert(wanted[i as int] == at);
            rows.append(audit_row_of(list[at]).as_str());
            i = i + 1;
        }
        let mut out =
            "<details class=\"category\" open>\n<summary>🔕 Applied Suppressions Audit Log <span class=\"count\">".to_string();
        out.append(text::number(list.len()).as_str());
        out.append(
            "</span></summary>\n<div class=\"table-scroll\"><table>\n<thead><tr><th>Category</th><th>Target</th><th>Fingerprint</th><th>Author</th><th>Expiry</th><th>Reason</th                          </tr></thead>\n<tbody>\n",
        );
        out.append(rows.as_str());
        out.append("</tbody>\n</table></div>\n</details>\n");
        out
    } else {
        "".to_string()
    }
}

/// A row that sets an old count against a new one.
pub open spec fn count_row(label: Seq<char>, old: usize, new: usize) -> Seq<char> {
    "<tr><td>"@ + label + "</td><td>"@ + text::decimal(old as nat) + "</td><td>"@ + text::decimal(
        new as nat,
    ) + "</td><td>"@ + text::signed_decimal(metrics::signed_delta(old, new)) + "</td></tr>\n"@
}

fn count_row_of(label: &str, old: usize, new: usize) -> (r: String)
    requires
        metrics::fits(metrics::signed_delta(old, new)),
    ensures
        r@ == count_row(label@, old, new),
{
    let mut out = "<tr><td>".to_string();
    out.append(label);
    out.append("</td><td>");
    out.append(text::number(old).as_str());
    out.append("</td><td>");
    out.append(text::number(new).as_str());
    out.append("</td><td>");
    out.append(text::signed_decimal_text(metrics::delta_of(old, new)).as_str());
    out.append("</td></tr>\n");
    out
}

/// The build metrics, where there are any.
pub open spec fn metrics_html(metrics: Option<BuildMetrics>) -> Seq<char> {
    match metrics {
        Some(m) =>
            "<details class=\"category\">\n<summary>📊 Build Metrics</summary>\n<div class=\"table-scroll\"><table>\n<thead><tr><th>Metric</th><th>Old</th><th>New</th><th>Delta</th></tr></thead>\n<tbody>\n<tr><td>WASM size</td><td>"@
            + metrics::bytes_text(m.old_size_bytes as nat) + "</td><td>"@ + metrics::bytes_text(
            m.new_size_bytes as nat,
        ) + "</td><td>"@ + metrics::delta_text(m.size_delta_bytes) + "</td></tr>\n"@ + count_row(
            "Functions"@,
            m.old_function_count,
            m.new_function_count,
        ) + count_row("Structs"@, m.old_struct_count, m.new_struct_count) + count_row(
            "Enums"@,
            m.old_enum_count,
            m.new_enum_count,
        ) + count_row("Unions"@, m.old_union_count, m.new_union_count) + count_row(
            "Error Enums"@,
            m.old_error_enum_count,
            m.new_error_enum_count,
        ) + "</tbody>\n</table></div>\n</details>\n"@,
        None => ""@,
    }
}

fn append_metrics_html(metrics: &Option<BuildMetrics>) -> (out: String)
    requires
        markdown::metrics_fit(*metrics),
    ensures
        out@ == metrics_html(*metrics),
{
    match metrics {
        Some(m) => {
            let mut out =
                "<details class=\"category\">\n<summary>📊 Build Metrics</summary>\n<div class=\"table-scroll\"><table>\n<thead><tr><th>Metric</th><th>Old</th><th>New</th><th>Delta</th></tr></thead>\n<tbody>\n<tr><td>WASM size</td><td>".to_string();
            out.append(BuildMetrics::format_bytes(m.old_size_bytes).as_str());
            out.append("</td><td>");
            out.append(BuildMetrics::format_bytes(m.new_size_bytes).as_str());
            out.append("</td><td>");
            out.append(BuildMetrics::format_delta(m.size_delta_bytes).as_str());
            out.append("</td></tr>\n");
            out.append(
                count_row_of("Functions", m.old_function_count, m.new_function_count).as_str(),
            );
            out.append(count_row_of("Structs", m.old_struct_count, m.new_struct_count).as_str());
            out.append(count_row_of("Enums", m.old_enum_count, m.new_enum_count).as_str());
            out.append(count_row_of("Unions", m.old_union_count, m.new_union_count).as_str());
            out.append(
                count_row_of(
                    "Error Enums",
                    m.old_error_enum_count,
                    m.new_error_enum_count,
                ).as_str(),
            );
            out.append("</tbody>\n</table></div>\n</details>\n");
            out
        },
        None => "".to_string(),
    }
}

/// The report as a section of a page.
pub open spec fn section(r: ReportView, heading: Option<&str>, top_level: bool) -> Seq<char> {
    if r.total_findings == 0 {
        head_html(r, heading, top_level)
            + "<p class=\"empty\">No relevant changes detected. The exported interface is identical in its exports and types.</p>\n<p class=\"note\">"@
            + escape::html_text(scope::STORAGE_NOT_VERIFIED_NOTE@) + "</p>\n"@ + metrics_html(
            r.metrics,
        ) + "</section>\n"@
    } else {
        head_html(r, heading, top_level) + groups_html(
            r.groups,
            findings::severity_order(r.groups),
            r.groups.len() as int,
        ) + resolved_html(r.baseline_diff) + action_html(r.is_safe) + audit_html(r)
            + metrics_html(r.metrics) + "</section>\n"@
    }
}

/// The report as a page of its own.
pub open spec fn page(r: ReportView) -> Seq<char> {
    html_page::document("Soroban Upgrade Safety Report"@, section(r, None, true))
}

impl SafetyReport {
    /// The report as a page of its own.
    pub fn generate_summary_html(&self) -> (r: String)
        requires
            markdown::metrics_fit(self@.metrics),
        ensures
            r@ == page(self@),
    {
        html_page::html_document(
            "Soroban Upgrade Safety Report",
            self.html_section(None, true).as_str(),
        )
    }

    /// The report as a section of a page. `heading` names the contract pair;
    /// `top_level` says which heading the section begins with.
    pub fn html_section(&self, heading: Option<&str>, top_level: bool) -> (r: String)
        requires
            markdown::metrics_fit(self@.metrics),
        ensures
            r@ == section(self@, heading, top_level),
    {
        let mut out = head_part(self, heading, top_level);
        if self.total_findings == 0 {
            out.append(
                "<p class=\"empty\">No relevant changes detected. The exported interface is identical in its exports and types.</p>\n<p class=\"note\">",
            );
            out.append(escape::escape_html(scope::STORAGE_NOT_VERIFIED_NOTE).as_str());
            out.append("</p>\n");
            out.append(append_metrics_html(&self.metrics).as_str());
            out.append("</section>\n");
            return out;
        }
        out.append(groups_part(self).as_str());
        out.append(resolved_part(&self.baseline_diff).as_str());
        out.append(action_part(self.is_safe));
        out.append(audit_part(self).as_str());
        out.append(append_metrics_html(&self.metrics).as_str());
        out.append("</section>\n");
        out
    }
}

} // verus!
