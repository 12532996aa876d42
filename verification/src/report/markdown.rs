//! The report as Markdown.

use vstd::prelude::*;

use crate::baseline::BaselineDiff;
use crate::baseline::BaselineStatus;
use crate::baseline::BaselineView;
use crate::baseline::ResolvedView;
use crate::diff;
use crate::diff::Severity;
use crate::order;
use crate::report::findings;
use crate::report::findings::GroupView;
use crate::report::findings::ReportedFinding;
use crate::report::findings::ReportedView;
use crate::report::metrics;
use crate::report::metrics::BuildMetrics;
use crate::report::parts;
use crate::report::safety;
use crate::report::safety::ReportView;
use crate::report::safety::SafetyReport;
use crate::report::scope;
use crate::report::scope::AnalysisScope;
use crate::report::scope::ScopeView;
use crate::report::status;
use crate::report::text_format;
use crate::text;

verus! {

/// The mark of strict mode.
pub open spec fn strict_md(strict: bool) -> Seq<char> {
    if strict {
        "> ⚠️ **[STRICT MODE ACTIVE]** — Warnings are treated as failures.\n\n"@
    } else {
        ""@
    }
}

/// The number of spec sections, where there are several.
pub open spec fn sections_md(s: ScopeView) -> Seq<char> {
    if parts::has_many_sections(s) {
        "> ⚠️ Multi-section WASM detected: old has "@ + text::decimal(
            s.old_spec_section_count as nat,
        ) + " contractspecv0 section(s), new has "@ + text::decimal(
            s.new_spec_section_count as nat,
        ) + ".\n\n"@
    } else {
        ""@
    }
}

fn sections_part(s: &AnalysisScope) -> (out: String)
    ensures
        out@ == sections_md(s@),
{
    if parts::many_sections(s) {
        let mut out = "> ⚠️ Multi-section WASM detected: old has ".to_string();
        out.append(text::number(s.old_spec_section_count).as_str());
        out.append(" contractspecv0 section(s), new has ");
        out.append(text::number(s.new_spec_section_count).as_str());
        out.append(".\n\n");
        out
    } else {
        "".to_string()
    }
}

/// The names that are defined twice, where there are any.
pub open spec fn duplicates_md(s: ScopeView) -> Seq<char> {
    let names = parts::duplicates(s, "`old:"@, "`new:"@, "`"@);
    if names.len() > 0 {
        "> ❌ Duplicate spec entries detected: "@ + text::joined(names, ", "@) + "\n\n"@
    } else {
        ""@
    }
}

fn duplicates_part(s: &AnalysisScope) -> (out: String)
    ensures
        out@ == duplicates_md(s@),
{
    let names = parts::list_duplicates(s, "`old:", "`new:", "`");
    assert(text::views(names@).len() == names@.len());
    if names.len() > 0 {
        text::three(
            "> ❌ Duplicate spec entries detected: ",
            text::join(&names, ", ").as_str(),
            "\n\n",
        )
    } else {
        "".to_string()
    }
}

/// A row of the summary table that is left out at zero.
pub open spec fn optional_row(label: Seq<char>, n: nat, after: Seq<char>) -> Seq<char> {
    if n > 0 {
        label + text::decimal(n) + " |\n"@ + after
    } else {
        ""@
    }
}

fn optional_row_of(label: &str, n: usize, after: &str) -> (r: String)
    ensures
        r@ == optional_row(label@, n as nat, after@),
{
    if n > 0 {
        let mut out = label.to_string();
        out.append(text::number(n).as_str());
        out.append(" |\n");
        out.append(after);
        out
    } else {
        "".to_string()
    }
}

/// The notice that a configuration turned the verdict.
pub open spec fn notice_md(r: ReportView) -> Seq<char> {
    match status::verdict_notice(r) {
        Some(notice) => "\n> ⚠️ **"@ + notice + "**\n\n"@,
        None => ""@,
    }
}

fn notice_part(r: &SafetyReport) -> (out: String)
    ensures
        out@ == notice_md(r@),
{
    match r.override_verdict_notice() {
        Some(notice) => text::three("\n> ⚠️ **", notice.as_str(), "**\n\n"),
        None => "".to_string(),
    }
}

/// A line that is left out where there is nothing to say.
pub open spec fn optional_md(open: Seq<char>, t: Option<Seq<char>>, close: Seq<char>) -> Seq<char> {
    match t {
        Some(s) => open + s + close,
        None => ""@,
    }
}

fn optional_part(open: &str, t: &Option<String>, close: &str) -> (r: String)
    ensures
        r@ == optional_md(open@, diff::opt_view(*t), close@),
{
    match t {
        Some(s) => text::three(open, s.as_str(), close),
        None => "".to_string(),
    }
}

/// How the run relates to an earlier report, where there is one.
pub open spec fn baseline_md(b: Option<BaselineView>) -> Seq<char> {
    match b {
        Some(d) => "**Baseline**: "@ + text::decimal(d.new_count as nat) + " new, "@
            + text::decimal(d.persisting_count as nat) + " persisting, "@ + text::decimal(
            d.resolved.len(),
        ) + " resolved (vs. tool v"@ + d.baseline_tool_version + ")"@
            + text_format::new_only_remark(d) + "\n\n"@,
        None => ""@,
    }
}

fn baseline_part(b: &Option<BaselineDiff>) -> (out: String)
    ensures
        out@ == baseline_md(safety::baseline_view(*b)),
{
    match b {
        Some(d) => {
            let mut out = "**Baseline**: ".to_string();
            out.append(text::number(d.new_count).as_str());
            out.append(" new, ");
            out.append(text::number(d.persisting_count).as_str());
            out.append(" persisting, ");
            out.append(text::number(d.resolved.len()).as_str());
            out.append(" resolved (vs. tool v");
            out.append(d.baseline_tool_version.as_str());
            out.append(")");
            out.append(text_format::new_only_note(d));
            out.append("\n\n");
            out
        },
        None => "".to_string(),
    }
}

/// Everything above the findings.
pub open spec fn head_md(r: ReportView) -> Seq<char> {
    "# Soroban Upgrade Safety Report\n\n"@ + strict_md(r.strict) + "## Status: "@
        + status::status_label(r) + "\n\n"@ + "_"@ + scope::claim(r.scope) + "_\n\n"@
        + "**Scope:** "@ + scope::storage_claim(r.scope) + "\n\n"@ + sections_md(r.scope)
        + duplicates_md(r.scope) + "### Summary Table\n\n"@ + "| Finding Severity | Count |\n"@
        + "| :--- | :--- |\n"@ + "| **Critical** | "@ + text::decimal(r.critical_count) + " |\n"@
        + "| **Warning** | "@ + text::decimal(r.warning_count) + " |\n"@ + "| **Info** | "@
        + text::decimal(r.info_count) + " |\n"@ + optional_row(
        "| **Suppressed** | "@,
        r.suppressed_count,
        ""@,
    ) + optional_row(
        "| **Filtered** | "@,
        r.filtered_count,
        "\n> ⚠️  Findings were hidden by `--include-category`/`--exclude-category`. The verdict reflects the remaining visible findings only.\n\n"@,
    ) + optional_row("| **Severity overridden** | "@, r.severity_overridden_count, ""@)
        + notice_md(r) + "\n**Recommended SemVer Bump**: `"@ + status::bump(r) + "`\n\n"@
        + optional_md("**Baseline Source**: `"@, r.baseline_source, "`\n\n"@) + optional_md(
        "**Verified Code Hash**: `"@,
        r.verified_code_hash,
        "`\n\n"@,
    ) + baseline_md(r.baseline_diff) + "---\n\n"@
}

fn head_part(r: &SafetyReport) -> (out: String)
    ensures
        out@ == head_md(r@),
{
    let mut out = "# Soroban Upgrade Safety Report\n\n".to_string();
    out.append(
        if r.strict {
            "> ⚠️ **[STRICT MODE ACTIVE]** — Warnings are treated as failures.\n\n"
        } else {
            ""
        },
    );
    out.append("## Status: ");
    out.append(r.status());
    out.append("\n\n");
    out.append("_");
    out.append(r.scope.summary_line().as_str());
    out.append("_\n\n");
    out.append("**Scope:** ");
    out.append(r.scope.storage_status_line().as_str());
    out.append("\n\n");
    out.append(sections_part(&r.scope).as_str());
    out.append(duplicates_part(&r.scope).as_str());
    out.append("### Summary Table\n\n");
    out.append("| Finding Severity | Count |\n");
    out.append("| :--- | :--- |\n");
    out.append("| **Critical** | ");
    out.append(text::number(r.critical_count).as_str());
    out.append(" |\n");
    out.append("| **Warning** | ");
    out.append(text::number(r.warning_count).as_str());
    out.append(" |\n");
    out.append("| **Info** | ");
    out.append(text::number(r.info_count).as_str());
    out.append(" |\n");
    out.append(optional_row_of("| **Suppressed** | ", r.suppressed_count, "").as_str());
    out.append(
        optional_row_of(
            "| **Filtered** | ",
            r.filtered_count,
            "\n> ⚠️  Findings were hidden by `--include-category`/`--exclude-category`. The verdict reflects the remaining visible findings only.\n\n",
        ).as_str(),
    );
    out.append(
        optional_row_of("| **Severity overridden** | ", r.severity_overridden_count, "").as_str(),
    );
    out.append(notice_part(r).as_str());
    out.append("\n**Recommended SemVer Bump**: `");
    out.append(r.recommended_bump());
    out.append("`\n\n");
    out.append(optional_part("**Baseline Source**: `", &r.baseline_source, "`\n\n").as_str());
    out.append(
        optional_part("**Verified Code Hash**: `", &r.verified_code_hash, "`\n\n").as_str(),
    );
    out.append(baseline_part(&r.baseline_diff).as_str());
    out.append("---\n\n");
    out
}

/// How a changed severity is marked.
pub open spec fn severity_mark_md(f: ReportedView) -> Seq<char> {
    match f.original_severity {
        Some(original) => "**[SEVERITY "@ + diff::severity_label(original) + " → "@
            + diff::severity_label(f.finding.severity) + "]** "@,
        None => ""@,
    }
}

fn severity_mark_part(f: &ReportedFinding) -> (out: String)
    ensures
        out@ == severity_mark_md(f@),
{
    match f.original_severity {
        Some(original) => {
            let mut out = "**[SEVERITY ".to_string();
            out.append(original.label());
            out.append(" → ");
            out.append(f.finding.severity.label());
            out.append("]** ");
            out
        },
        None => "".to_string(),
    }
}

/// What to do about a finding, where that is asked for and known.
pub open spec fn guidance_md(explain: bool, remediation: Option<Seq<char>>) -> Seq<char> {
    if explain {
        optional_md("  - ↳ guidance: "@, remediation, "\n"@)
    } else {
        ""@
    }
}

fn guidance_part(explain: bool, remediation: &Option<String>) -> (out: String)
    ensures
        out@ == guidance_md(explain, diff::opt_view(*remediation)),
{
    if explain {
        optional_part("  - ↳ guidance: ", remediation, "\n")
    } else {
        "".to_string()
    }
}

/// The sign of a severity.
pub open spec fn severity_sign(s: Severity) -> Seq<char> {
    match s {
        Severity::Critical => "🔴"@,
        Severity::Warning => "🟡"@,
        Severity::Info => "🔵"@,
    }
}

/// The mark of a finding that an earlier report did not have.
pub open spec fn new_mark_md(f: ReportedView) -> Seq<char> {
    if f.baseline_status == Some(BaselineStatus::New) {
        "**[NEW]** "@
    } else {
        ""@
    }
}

/// A finding.
pub open spec fn finding_md(f: ReportedView, explain: bool) -> Seq<char> {
    if f.suppressed {
        "- 🔕 **[SUPPRESSED]** "@ + severity_mark_md(f) + f.finding.message + "\n"@ + optional_md(
            "  - ↳ reason: "@,
            f.suppression_reason,
            "\n"@,
        ) + guidance_md(explain, f.remediation)
    } else {
        "- "@ + severity_sign(f.finding.severity) + " "@ + new_mark_md(f) + severity_mark_md(f)
            + f.finding.message + "\n"@ + guidance_md(explain, f.remediation)
    }
}

fn finding_part(f: &ReportedFinding, explain: bool) -> (out: String)
    ensures
        out@ == finding_md(f@, explain),
{
    let tag = severity_mark_part(f);
    if f.suppressed {
        let mut out = "- 🔕 **[SUPPRESSED]** ".to_string();
        out.append(tag.as_str());
        out.append(f.finding.message.as_str());
        out.append("\n");
        out.append(optional_part("  - ↳ reason: ", &f.suppression_reason, "\n").as_str());
        out.append(guidance_part(explain, &f.remediation).as_str());
        out
    } else {
        let mut out = "- ".to_string();
        out.append(
            match f.finding.severity {
                Severity::Critical => "🔴",
                Severity::Warning => "🟡",
                Severity::Info => "🔵",
            },
        );
        out.append(" ");
        out.append(
            match f.baseline_status {
                Some(BaselineStatus::New) => "**[NEW]** ",
                _ => "",
            },
        );
        out.append(tag.as_str());
        out.append(f.finding.message.as_str());
        out.append("\n");
        out.append(guidance_part(explain, &f.remediation).as_str());
        out
    }
}

/// The first `n` findings of an order.
pub open spec fn findings_md(
    list: Seq<ReportedView>,
    order: Seq<int>,
    explain: bool,
    n: int,
) -> Seq<char>
    decreases n,
{
    if n <= 0 {
        ""@
    } else {
        findings_md(list, order, explain, n - 1) + finding_md(list[order[n - 1]], explain)
    }
}

/// The findings of one category, by message.
pub open spec fn group_md(g: GroupView, explain: bool) -> Seq<char> {
    "### "@ + g.category + "\n\n"@ + findings_md(
        g.findings,
        findings::message_order(g.findings),
        explain,
        g.findings.len() as int,
    ) + "\n"@
}

fn group_part(category: &str, list: &Vec<ReportedFinding>, explain: bool) -> (out: String)
    ensures
        out@ == group_md(
            (GroupView { category: category@, findings: findings::reported_views(list@) }),
            explain,
        ),
{
    let ghost views = findings::reported_views(list@);
    let order = findings::order_by_message(list);
    let ghost wanted = findings::message_order(views);
    let mut body = "".to_string();
    let mut i: usize = 0;
    while i < order.len()
        invariant
            i <= order@.len(),
            views == findings::reported_views(list@),
            order@.len() == list@.len(),
            wanted == order::as_ints(order@),
            forall|j: int| 0 <= j < order@.len() ==> #[trigger] order@[j] < list@.len(),
            body@ == findings_md(views, wanted, explain, i as int),
        decreases order@.len() - i,
    {
        let at = order[i];
        assert(views[at as int] == list@[at as int]@);
        assert(wanted[i as int] == at);
        body.append(finding_part(&list[at], explain).as_str());
        i = i + 1;
    }
    let mut out = "### ".to_string();
    out.append(category);
    out.append("\n\n");
    out.append(body.as_str());
    out.append("\n");
    out
}

/// The first `n` groups of an order.
pub open spec fn groups_md(r: ReportView, order: Seq<int>, n: int) -> Seq<char>
    decreases n,
{
    if n <= 0 {
        ""@
    } else {
        groups_md(r, order, n - 1) + group_md(r.groups[order[n - 1]], r.settings.explain)
    }
}

fn groups_part(r: &SafetyReport) -> (out: String)
    ensures
        out@ == groups_md(r@, findings::severity_order(r@.groups), r@.groups.len() as int),
{
    let order = findings::order_by_severity(&r.findings_by_category);
    let ghost wanted = findings::severity_order(r@.groups);
    let mut out = "".to_string();
    let mut i: usize = 0;
    while i < order.len()
        invariant
            i <= order@.len(),
            order@.len() == r@.groups.len(),
            wanted == order::as_ints(order@),
            forall|j: int| 0 <= j < order@.len() ==> #[trigger] order@[j] < r@.groups.len(),
            out@ == groups_md(r@, wanted, i as int),
        decreases order@.len() - i,
    {
        let at = order[i];
        assert(wanted[i as int] == at);
        let category = r.findings_by_category.category(at);
        let list = r.findings_by_category.findings(at);
        let part = group_part(category.as_str(), list, r.settings.explain);
        assert(r@.groups[at as int] == (GroupView {
            category: category@,
            findings: findings::reported_views(list@),
        }));
        out.append(part.as_str());
        i = i + 1;
    }
    out
}

/// The first `n` resolved findings.
pub open spec fn resolved_lines(resolved: Seq<ResolvedView>, n: int) -> Seq<char>
    decreases n,
{
    if n <= 0 {
        ""@
    } else {
        resolved_lines(resolved, n - 1) + "- "@ + resolved[n - 1].message + "\n"@
    }
}

/// The findings of the earlier report that are gone, where there are any.
pub open spec fn resolved_md(b: Option<BaselineView>) -> Seq<char> {
    match b {
        Some(d) if d.resolved.len() > 0 => "### ✅ Resolved Since Baseline\n\n"@
            + resolved_lines(d.resolved, d.resolved.len() as int) + "\n"@,
        _ => ""@,
    }
}

fn resolved_part(b: &Option<BaselineDiff>) -> (out: String)
    ensures
        out@ == resolved_md(safety::baseline_view(*b)),
{
    match b {
        Some(d) => {
            let ghost resolved = d@.resolved;
            assert(resolved.len() == d.resolved@.len());
            if d.resolved.len() > 0 {
                let mut lines = "".to_string();
                let mut i: usize = 0;
                while i < d.resolved.len()
                    invariant
                        i <= d.resolved@.len(),
                        resolved == d@.resolved,
                        lines@ == resolved_lines(resolved, i as int),
                    decreases d.resolved@.len() - i,
                {
                    assert(resolved[i as int] == d.resolved@[i as int]@);
                    lines.append("- ");
                    lines.append(d.resolved[i].message.as_str());
                    lines.append("\n");
                    i = i + 1;
                }
                text::three("### ✅ Resolved Since Baseline\n\n", lines.as_str(), "\n")
            } else {
                "".to_string()
            }
        },
        None => "".to_string(),
    }
}

/// What a failing run asks for.
pub open spec fn action_md(is_safe: bool) -> Seq<char> {
    if is_safe {
        ""@
    } else {
        "### ⚠️ Action Required\n\n- The new contract version modifies existing storage layouts or function interfaces.\n- Deploying this upgrade will result in orphaned data, serialization panics, or broken integrations.\n"@
    }
}

fn action_part(is_safe: bool) -> (r: &'static str)
    ensures
        r@ == action_md(is_safe),
{
    if is_safe {
        ""
    } else {
        "### ⚠️ Action Required\n\n- The new contract version modifies existing storage layouts or function interfaces.\n- Deploying this upgrade will result in orphaned data, serialization panics, or broken integrations.\n"
    }
}

/// The record of a suppression.
pub open spec fn audit_row(f: ReportedView) -> Seq<char> {
    "| "@ + f.finding.category + " | `"@ + parts::or_else(f.finding.target, "-"@) + "` | `"@
        + parts::or_else(f.suppression_fingerprint, "-"@) + "` | "@ + parts::or_else(
        f.suppression_author,
        "-"@,
    ) + " | "@ + parts::or_else(f.suppression_expiry, "-"@) + " | "@ + parts::or_else(
        f.suppression_reason,
        "-"@,
    ) + " |\n"@
}

fn audit_row_of(f: &ReportedFinding) -> (r: String)
    ensures
        r@ == audit_row(f@),
{
    let mut out = "| ".to_string();
    out.append(f.finding.category.as_str());
    out.append(" | `");
    out.append(parts::text_or(&f.finding.target, "-"));
    out.append("` | `");
    out.append(parts::text_or(&f.suppression_fingerprint, "-"));
    out.append("` | ");
    out.append(parts::text_or(&f.suppression_author, "-"));
    out.append(" | ");
    out.append(parts::text_or(&f.suppression_expiry, "-"));
    out.append(" | ");
    out.append(parts::text_or(&f.suppression_reason, "-"));
    out.append(" |\n");
    out
}

/// The records of the first `n` suppressions.
pub open spec fn audit_rows(list: Seq<ReportedView>, n: int) -> Seq<char>
    decreases n,
{
    if n <= 0 {
        ""@
    } else {
        audit_rows(list, n - 1) + audit_row(list[n - 1])
    }
}

/// The log of applied suppressions, where there are any.
pub open spec fn audit_md(r: ReportView) -> Seq<char> {
    let list = findings::suppressed_findings(r.groups);
    if list.len() > 0 {
        "### 🔕 Applied Suppressions Audit Log\n\n| Category | Target | Fingerprint | Author | Expiry | Reason |\n| :--- | :--- | :--- | :--- | :--- | :--- |\n"@
            + audit_rows(list, list.len() as int) + "\n---\n\n"@
    } else {
        ""@
    }
}

fn audit_part(r: &SafetyReport) -> (out: String)
    ensures
        out@ == audit_md(r@),
{
    let list = findings::list_suppressed(&r.findings_by_category);
    let ghost views = findings::ref_views(list@);
    assert(views.len() == list@.len());
    if list.len() > 0 {
        let mut rows = "".to_string();
        let mut i: usize = 0;
        while i < list.len()
            invariant
                i <= list@.len(),
                views == findings::ref_views(list@),
                rows@ == audit_rows(views, i as int),
            decreases list@.len() - i,
        {
            assert(views[i as int] == list@[i as int]@);
            rows.append(audit_row_of(list[i]).as_str());
            i = i + 1;
        }
        text::three(
            "### 🔕 Applied Suppressions Audit Log\n\n| Category | Target | Fingerprint | Author | Expiry | Reason |\n| :--- | :--- | :--- | :--- | :--- | :--- |\n",
            rows.as_str(),
            "\n---\n\n",
        )
    } else {
        "".to_string()
    }
}

/// A row that sets an old count against a new one.
pub open spec fn count_row(label: Seq<char>, old: usize, new: usize) -> Seq<char> {
    label + text::decimal(old as nat) + " | "@ + text::decimal(new as nat) + " | "@
        + text::signed_decimal(metrics::signed_delta(old, new)) + " |\n"@
}

fn count_row_of(label: &str, old: usize, new: usize) -> (r: String)
    requires
        metrics::fits(metrics::signed_delta(old, new)),
    ensures
        r@ == count_row(label@, old, new),
{
    let mut out = label.to_string();
    out.append(text::number(old).as_str());
    out.append(" | ");
    out.append(text::number(new).as_str());
    out.append(" | ");
    out.append(text::signed_decimal_text(metrics::delta_of(old, new)).as_str());
    out.append(" |\n");
    out
}

/// The build metrics, where there are any.
pub open spec fn metrics_md(metrics: Option<BuildMetrics>) -> Seq<char> {
    match metrics {
        Some(m) =>
            "## 📊 Build Metrics\n\n| Metric | Old | New | Delta |\n| :--- | ---: | ---: | ---: |\n| **WASM size** | "@
            + metrics::bytes_text(m.old_size_bytes as nat) + " | "@ + metrics::bytes_text(
            m.new_size_bytes as nat,
        ) + " | "@ + metrics::delta_text(m.size_delta_bytes) + " |\n"@ + count_row(
            "| **Functions** | "@,
            m.old_function_count,
            m.new_function_count,
        ) + count_row("| **Structs** | "@, m.old_struct_count, m.new_struct_count) + count_row(
            "| **Enums** | "@,
            m.old_enum_count,
            m.new_enum_count,
        ) + count_row("| **Unions** | "@, m.old_union_count, m.new_union_count) + count_row(
            "| **Error Enums** | "@,
            m.old_error_enum_count,
            m.new_error_enum_count,
        ) + "\n"@,
        None => ""@,
    }
}

/// Whether the differences of counts that a report may show can be written.
pub open spec fn metrics_fit(metrics: Option<BuildMetrics>) -> bool {
    metrics matches Some(m) ==> metrics::deltas_fit(m)
}

fn append_metrics_markdown(metrics: &Option<BuildMetrics>) -> (out: String)
    requires
        metrics_fit(*metrics),
    ensures
        out@ == metrics_md(*metrics),
{
    match metrics {
        Some(m) => {
            let mut out =
                "## 📊 Build Metrics\n\n| Metric | Old | New | Delta |\n| :--- | ---: | ---: | ---: |\n| **WASM size** | ".to_string();
            out.append(BuildMetrics::format_bytes(m.old_size_bytes).as_str());
            out.append(" | ");
            out.append(BuildMetrics::format_bytes(m.new_size_bytes).as_str());
            out.append(" | ");
            out.append(BuildMetrics::format_delta(m.size_delta_bytes).as_str());
            out.append(" |\n");
            out.append(
                count_row_of(
                    "| **Functions** | ",
                    m.old_function_count,
                    m.new_function_count,
                ).as_str(),
            );
            out.append(
                count_row_of("| **Structs** | ", m.old_struct_count, m.new_struct_count).as_str(),
            );
            out.append(
                count_row_of("| **Enums** | ", m.old_enum_count, m.new_enum_count).as_str(),
            );
            out.append(
                count_row_of("| **Unions** | ", m.old_union_count, m.new_union_count).as_str(),
            );
            out.append(
                count_row_of(
                    "| **Error Enums** | ",
                    m.old_error_enum_count,
                    m.new_error_enum_count,
                ).as_str(),
            );
            out.append("\n");
            out
        },
        None => "".to_string(),
    }
}

/// The report as Markdown.
pub open spec fn summary_md(r: ReportView) -> Seq<char> {
    if r.total_findings == 0 {
        head_md(r)
            + "No relevant changes detected. The exported interface is identical in its exports and types.\n\n"@
            + "> "@ + scope::STORAGE_NOT_VERIFIED_NOTE@ + "\n"@ + resolved_md(r.baseline_diff)
            + metrics_md(r.metrics)
    } else {
        head_md(r) + groups_md(r, findings::severity_order(r.groups), r.groups.len() as int)
            + resolved_md(r.baseline_diff) + action_md(r.is_safe) + audit_md(r) + metrics_md(
            r.metrics,
        )
    }
}

impl SafetyReport {
    /// The report as Markdown.
    pub fn generate_summary_markdown(&self) -> (r: String)
        requires
            metrics_fit(self@.metrics),
        ensures
            r@ == summary_md(self@),
    {
        let mut out = head_part(self);
        if self.total_findings == 0 {
            out.append(
                "No relevant changes detected. The exported interface is identical in its exports and types.\n\n",
            );
            out.append("> ");
            out.append(scope::STORAGE_NOT_VERIFIED_NOTE);
            out.append("\n");
            out.append(resolved_part(&self.baseline_diff).as_str());
            out.append(append_metrics_markdown(&self.metrics).as_str());
            return out;
        }
        out.append(groups_part(self).as_str());
        out.append(resolved_part(&self.baseline_diff).as_str());
        out.append(action_part(self.is_safe));
        out.append(audit_part(self).as_str());
        out.append(append_metrics_markdown(&self.metrics).as_str());
        out
    }
}

} // verus!
