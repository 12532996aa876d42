//! The report as text for a terminal.

use vstd::prelude::*;

use crate::baseline::BaselineDiff;
use crate::baseline::BaselineStatus;
use crate::baseline::BaselineView;
use crate::baseline::ResolvedView;
use crate::diff::Severity;
use crate::order;
use crate::report::findings;
use crate::report::findings::GroupView;
use crate::report::findings::ReportedFinding;
use crate::report::findings::ReportedView;
use crate::report::metrics;
use crate::report::metrics::BuildMetrics;
use crate::report::parts;
use crate::report::safety::ReportView;
use crate::report::safety::SafetyReport;
use crate::report::scope;
use crate::report::scope::AnalysisScope;
use crate::report::scope::ScopeView;
use crate::report::status;
use crate::style;
use crate::style::Color;
use crate::style::SpanView;
use crate::style::StyledText;
use crate::text;
use crate::type_diff;

verus! {

/// The title of the report.
pub open spec fn title_text(strict: bool) -> Seq<SpanView> {
    Seq::<SpanView>::empty().push(
        style::bold("\n========================================\n"@),
    ).push(style::bold_colored("    SOROBAN UPGRADE SAFETY REPORT\n"@, Color::Cyan)) + strict_text(
        strict,
    ) + Seq::<SpanView>::empty().push(style::bold("========================================\n"@))
}

/// The mark of strict mode.
pub open spec fn strict_text(strict: bool) -> Seq<SpanView> {
    if strict {
        Seq::<SpanView>::empty().push(
            style::bold_colored("    [STRICT MODE ACTIVE]\n"@, Color::Yellow),
        )
    } else {
        Seq::empty()
    }
}

fn strict_part(strict: bool) -> (out: StyledText)
    ensures
        out@ == strict_text(strict),
{
    let mut out = StyledText::new();
    if strict {
        out.bold_color("    [STRICT MODE ACTIVE]\n", Color::Yellow);
    }
    out
}

fn title_part(strict: bool) -> (out: StyledText)
    ensures
        out@ == title_text(strict),
{
    let mut out = StyledText::new();
    out.bold("\n========================================\n");
    out.bold_color("    SOROBAN UPGRADE SAFETY REPORT\n", Color::Cyan);
    out.extend(strict_part(strict));
    let mut rule = StyledText::new();
    rule.bold("========================================\n");
    out.extend(rule);
    out
}

/// The verdict and the scope.
pub open spec fn verdict_text(r: ReportView) -> Seq<SpanView> {
    Seq::<SpanView>::empty().push(style::plain("Status: "@)).push(
        style::bold_colored(
            status::status_label(r),
            if r.is_safe {
                Color::Green
            } else {
                Color::Red
            },
        ),
    ).push(style::plain("\n"@)).push(style::plain("Scope:  "@)).push(
        style::dimmed(scope::claim(r.scope)),
    ).push(style::plain("\n"@)).push(style::plain("        "@)).push(
        if scope::has_storage(r.scope) {
            style::dimmed(scope::storage_claim(r.scope))
        } else {
            style::colored(scope::storage_claim(r.scope), Color::Yellow)
        },
    ).push(style::plain("\n"@))
}

fn verdict_part(r: &SafetyReport) -> (out: StyledText)
    ensures
        out@ == verdict_text(r@),
{
    let mut out = StyledText::new();
    out.plain("Status: ");
    out.bold_color(
        r.status(),
        if r.is_safe {
            Color::Green
        } else {
            Color::Red
        },
    );
    out.plain("\n");
    out.plain("Scope:  ");
    out.dimmed(r.scope.summary_line().as_str());
    out.plain("\n");
    out.plain("        ");
    let storage = r.scope.storage_status_line();
    if r.scope.storage_analyzed() {
        out.dimmed(storage.as_str());
    } else {
        out.color(storage.as_str(), Color::Yellow);
    }
    out.plain("\n");
    out
}

/// The number of spec sections, where there are several.
pub open spec fn sections_text(s: ScopeView) -> Seq<SpanView> {
    if parts::has_many_sections(s) {
        Seq::<SpanView>::empty().push(
            style::colored(
                "        Spec sections: old="@ + text::decimal(s.old_spec_section_count as nat)
                    + ", new="@ + text::decimal(s.new_spec_section_count as nat)
                    + " (multi-section WASMs detected)\n"@,
                Color::Yellow,
            ),
        )
    } else {
        Seq::empty()
    }
}

fn sections_part(s: &AnalysisScope) -> (out: StyledText)
    ensures
        out@ == sections_text(s@),
{
    let mut out = StyledText::new();
    if parts::many_sections(s) {
        let mut line = "        Spec sections: old=".to_string();
        line.append(text::number(s.old_spec_section_count).as_str());
        line.append(", new=");
        line.append(text::number(s.new_spec_section_count).as_str());
        line.append(" (multi-section WASMs detected)\n");
        out.color(line.as_str(), Color::Yellow);
    }
    out
}

/// The names that are defined twice, where there are any.
pub open spec fn duplicates_text(s: ScopeView) -> Seq<SpanView> {
    let names = parts::duplicates(s, "old:"@, "new:"@, ""@);
    if names.len() > 0 {
        Seq::<SpanView>::empty().push(
            style::bold_colored(
                "        Duplicate entries detected: "@ + text::joined(names, ", "@) + "\n"@,
                Color::Red,
            ),
        )
    } else {
        Seq::empty()
    }
}

fn duplicates_part(s: &AnalysisScope) -> (out: StyledText)
    ensures
        out@ == duplicates_text(s@),
{
    let mut out = StyledText::new();
    let names = parts::list_duplicates(s, "old:", "new:", "");
    assert(text::views(names@).len() == names@.len());
    if names.len() > 0 {
        let line = text::three(
            "        Duplicate entries detected: ",
            text::join(&names, ", ").as_str(),
            "\n",
        );
        out.bold_color(line.as_str(), Color::Red);
    }
    out
}

/// The counts by severity.
pub open spec fn counts_text(r: ReportView) -> Seq<SpanView> {
    Seq::<SpanView>::empty().push(style::plain("Critical: "@)).push(
        if r.critical_count > 0 {
            style::bold_colored(text::decimal(r.critical_count), Color::Red)
        } else {
            style::colored(text::decimal(r.critical_count), Color::Green)
        },
    ).push(style::plain("\n"@)).push(style::plain("Warnings: "@)).push(
        if r.warning_count > 0 {
            style::bold_colored(text::decimal(r.warning_count), Color::Yellow)
        } else {
            style::plain(text::decimal(r.warning_count))
        },
    ).push(style::plain("\n"@)).push(style::plain("Info:     "@)).push(
        style::colored(text::decimal(r.info_count), Color::Blue),
    ).push(style::plain("\n"@))
}

fn counts_part(r: &SafetyReport) -> (out: StyledText)
    ensures
        out@ == counts_text(r@),
{
    let mut out = StyledText::new();
    out.plain("Critical: ");
    let critical = text::number(r.critical_count);
    if r.critical_count > 0 {
        out.bold_color(critical.as_str(), Color::Red);
    } else {
        out.color(critical.as_str(), Color::Green);
    }
    out.plain("\n");
    out.plain("Warnings: ");
    let warning = text::number(r.warning_count);
    if r.warning_count > 0 {
        out.bold_color(warning.as_str(), Color::Yellow);
    } else {
        out.plain(warning.as_str());
    }
    out.plain("\n");
    out.plain("Info:     ");
    out.color(text::number(r.info_count).as_str(), Color::Blue);
    out.plain("\n");
    out
}

/// The number of suppressed findings, where there are any.
pub open spec fn suppressed_text(n: nat) -> Seq<SpanView> {
    if n > 0 {
        Seq::<SpanView>::empty().push(style::plain("Suppressed: "@)).push(
            style::bold_colored(text::decimal(n), Color::Magenta),
        ).push(style::plain("\n"@))
    } else {
        Seq::empty()
    }
}

fn suppressed_part(n: usize) -> (out: StyledText)
    ensures
        out@ == suppressed_text(n as nat),
{
    let mut out = StyledText::new();
    if n > 0 {
        out.plain("Suppressed: ");
        out.bold_color(text::number(n).as_str(), Color::Magenta);
        out.plain("\n");
    }
    out
}

/// The number of hidden findings, where there are any.
pub open spec fn filtered_text(n: nat) -> Seq<SpanView> {
    if n > 0 {
        Seq::<SpanView>::empty().push(style::plain("Filtered:   "@)).push(
            style::bold_colored(text::decimal(n), Color::Yellow),
        ).push(style::plain("\n"@)).push(
            style::dimmed_colored(
                "  ↳ Findings were hidden by --include-category/--exclude-category.\n"@,
                Color::Yellow,
            ),
        )
    } else {
        Seq::empty()
    }
}

fn filtered_part(n: usize) -> (out: StyledText)
    ensures
        out@ == filtered_text(n as nat),
{
    let mut out = StyledText::new();
    if n > 0 {
        out.plain("Filtered:   ");
        out.bold_color(text::number(n).as_str(), Color::Yellow);
        out.plain("\n");
        out.dimmed_color(
            "  ↳ Findings were hidden by --include-category/--exclude-category.\n",
            Color::Yellow,
        );
    }
    out
}

/// The number of changed severities, where there are any.
pub open spec fn overridden_text(n: nat) -> Seq<SpanView> {
    if n > 0 {
        Seq::<SpanView>::empty().push(style::plain("Overridden: "@)).push(
            style::bold_colored(text::decimal(n), Color::Magenta),
        ).push(style::plain("\n"@)).push(
            style::dimmed_colored(
                "  ↳ Severities were changed by the [severity] table in the config.\n"@,
                Color::Magenta,
            ),
        )
    } else {
        Seq::empty()
    }
}

fn overridden_part(n: usize) -> (out: StyledText)
    ensures
        out@ == overridden_text(n as nat),
{
    let mut out = StyledText::new();
    if n > 0 {
        out.plain("Overridden: ");
        out.bold_color(text::number(n).as_str(), Color::Magenta);
        out.plain("\n");
        out.dimmed_color(
            "  ↳ Severities were changed by the [severity] table in the config.\n",
            Color::Magenta,
        );
    }
    out
}

/// The notice that a configuration turned the verdict.
pub open spec fn notice_text(r: ReportView) -> Seq<SpanView> {
    match status::verdict_notice(r) {
        Some(notice) => Seq::<SpanView>::empty().push(
            style::bold_colored("⚠️  "@ + notice, Color::Red),
        ).push(style::plain("\n"@)),
        None => Seq::empty(),
    }
}

fn notice_part(r: &SafetyReport) -> (out: StyledText)
    ensures
        out@ == notice_text(r@),
{
    let mut out = StyledText::new();
    match r.override_verdict_notice() {
        Some(notice) => {
            out.bold_color(text::two("⚠️  ", notice.as_str()).as_str(), Color::Red);
            out.plain("\n");
        },
        None => {},
    }
    out
}

/// The version step.
pub open spec fn bump_text(r: ReportView) -> Seq<SpanView> {
    Seq::<SpanView>::empty().push(style::plain("Recommended Bump: "@)).push(
        style::bold_colored(
            status::bump(r),
            if r.critical_count > 0 {
                Color::Red
            } else if r.warning_count > 0 || r.info_count > 0 {
                Color::Yellow
            } else {
                Color::Green
            },
        ),
    ).push(style::plain("\n"@))
}

fn bump_part(r: &SafetyReport) -> (out: StyledText)
    ensures
        out@ == bump_text(r@),
{
    let mut out = StyledText::new();
    out.plain("Recommended Bump: ");
    out.bold_color(
        r.recommended_bump(),
        if r.critical_count > 0 {
            Color::Red
        } else if r.warning_count > 0 || r.info_count > 0 {
            Color::Yellow
        } else {
            Color::Green
        },
    );
    out.plain("\n");
    out
}

/// Where the old build came from, where that is known.
pub open spec fn source_text(source: Option<Seq<char>>) -> Seq<SpanView> {
    match source {
        Some(s) => Seq::<SpanView>::empty().push(
            style::plain("Baseline Source: "@ + s + "\n"@),
        ),
        None => Seq::empty(),
    }
}

fn source_part(source: &Option<String>) -> (out: StyledText)
    ensures
        out@ == source_text(crate::diff::opt_view(*source)),
{
    let mut out = StyledText::new();
    match source {
        Some(s) => {
            out.plain(text::three("Baseline Source: ", s.as_str(), "\n").as_str());
        },
        None => {},
    }
    out
}

/// The verified digest of the old build, where there is one.
pub open spec fn hash_text(hash: Option<Seq<char>>) -> Seq<SpanView> {
    match hash {
        Some(h) => Seq::<SpanView>::empty().push(style::plain("Verified Code Hash: "@)).push(
            style::dimmed(h),
        ).push(style::plain("\n"@)),
        None => Seq::empty(),
    }
}

fn hash_part(hash: &Option<String>) -> (out: StyledText)
    ensures
        out@ == hash_text(crate::diff::opt_view(*hash)),
{
    let mut out = StyledText::new();
    match hash {
        Some(h) => {
            out.plain("Verified Code Hash: ");
            out.dimmed(h.as_str());
            out.plain("\n");
        },
        None => {},
    }
    out
}

/// The remark that only new findings count.
pub open spec fn new_only_remark(b: BaselineView) -> Seq<char> {
    if b.fail_on_new_only {
        " — verdict reflects new findings only"@
    } else {
        ""@
    }
}

pub(crate) fn new_only_note(b: &BaselineDiff) -> (r: &'static str)
    ensures
        r@ == new_only_remark(b@),
{
    if b.fail_on_new_only {
        " — verdict reflects new findings only"
    } else {
        ""
    }
}

/// How the run relates to an earlier report, where there is one.
pub open spec fn baseline_text(b: Option<BaselineView>) -> Seq<SpanView> {
    match b {
        Some(d) => Seq::<SpanView>::empty().push(style::plain("Baseline: "@)).push(
            style::bold(text::decimal(d.new_count as nat)),
        ).push(
            style::plain(
                " new, "@ + text::decimal(d.persisting_count as nat) + " persisting, "@
                    + text::decimal(d.resolved.len()) + " resolved (vs. tool v"@
                    + d.baseline_tool_version + ")"@ + new_only_remark(d) + "\n"@,
            ),
        ),
        None => Seq::empty(),
    }
}

fn baseline_part(b: &Option<BaselineDiff>) -> (out: StyledText)
    ensures
        out@ == baseline_text(crate::report::safety::baseline_view(*b)),
{
    let mut out = StyledText::new();
    match b {
        Some(d) => {
            out.plain("Baseline: ");
            out.bold(text::number(d.new_count).as_str());
            let mut rest = " new, ".to_string();
            rest.append(text::number(d.persisting_count).as_str());
            rest.append(" persisting, ");
            rest.append(text::number(d.resolved.len()).as_str());
            rest.append(" resolved (vs. tool v");
            rest.append(d.baseline_tool_version.as_str());
            rest.append(")");
            rest.append(new_only_note(d));
            rest.append("\n");
            out.plain(rest.as_str());
        },
        None => {},
    }
    out
}

/// Everything above the findings.
pub open spec fn head_text(r: ReportView) -> Seq<SpanView> {
    title_text(r.strict) + verdict_text(r) + sections_text(r.scope) + duplicates_text(r.scope)
        + counts_text(r) + suppressed_text(r.suppressed_count) + filtered_text(r.filtered_count)
        + overridden_text(r.severity_overridden_count) + notice_text(r) + bump_text(r)
        + source_text(r.baseline_source) + hash_text(r.verified_code_hash) + baseline_text(
        r.baseline_diff,
    ) + Seq::<SpanView>::empty().push(
        style::dimmed("----------------------------------------\n\n"@),
    )
}

fn head_part(r: &SafetyReport) -> (out: StyledText)
    ensures
        out@ == head_text(r@),
{
    let mut out = title_part(r.strict);
    out.extend(verdict_part(r));
    out.extend(sections_part(&r.scope));
    out.extend(duplicates_part(&r.scope));
    out.extend(counts_part(r));
    out.extend(suppressed_part(r.suppressed_count));
    out.extend(filtered_part(r.filtered_count));
    out.extend(overridden_part(r.severity_overridden_count));
    out.extend(notice_part(r));
    out.extend(bump_part(r));
    out.extend(source_part(&r.baseline_source));
    out.extend(hash_part(&r.verified_code_hash));
    out.extend(baseline_part(&r.baseline_diff));
    let mut rule = StyledText::new();
    rule.dimmed("----------------------------------------\n\n");
    out.extend(rule);
    out
}

/// What stands in place of findings where there are none.
pub open spec fn no_findings_text() -> Seq<SpanView> {
    Seq::<SpanView>::empty().push(
        style::colored(
            "No relevant changes detected. The exported interface is identical in its exports and types.\n"@,
            Color::Green,
        ),
    ).push(style::plain("\n"@)).push(style::dimmed(scope::STORAGE_NOT_VERIFIED_NOTE@)).push(
        style::plain("\n"@),
    )
}

fn no_findings_part() -> (out: StyledText)
    ensures
        out@ == no_findings_text(),
{
    let mut out = StyledText::new();
    out.color(
        "No relevant changes detected. The exported interface is identical in its exports and types.\n",
        Color::Green,
    );
    out.plain("\n");
    out.dimmed(scope::STORAGE_NOT_VERIFIED_NOTE);
    out.plain("\n");
    out
}

/// The reason of a suppression, where the rule gave one.
pub open spec fn reason_text(reason: Option<Seq<char>>) -> Seq<SpanView> {
    match reason {
        Some(t) => Seq::<SpanView>::empty().push(
            style::dimmed("    ↳ reason: "@ + t + "\n"@),
        ),
        None => Seq::empty(),
    }
}

fn reason_part(reason: &Option<String>) -> (out: StyledText)
    ensures
        out@ == reason_text(crate::diff::opt_view(*reason)),
{
    let mut out = StyledText::new();
    match reason {
        Some(t) => {
            out.dimmed(text::three("    ↳ reason: ", t.as_str(), "\n").as_str());
        },
        None => {},
    }
    out
}

/// What to do about a finding, where that is asked for and known.
pub open spec fn guidance_text(
    explain: bool,
    remediation: Option<Seq<char>>,
    suppressed: bool,
) -> Seq<SpanView> {
    match remediation {
        Some(t) if explain => Seq::<SpanView>::empty().push(
            if suppressed {
                style::dimmed("    ↳ guidance: "@ + t + "\n"@)
            } else {
                style::colored("    ↳ guidance: "@ + t + "\n"@, Color::Green)
            },
        ),
        _ => Seq::empty(),
    }
}

fn guidance_part(explain: bool, remediation: &Option<String>, suppressed: bool) -> (out: StyledText)
    ensures
        out@ == guidance_text(explain, crate::diff::opt_view(*remediation), suppressed),
{
    let mut out = StyledText::new();
    if explain {
        match remediation {
            Some(t) => {
                let line = text::three("    ↳ guidance: ", t.as_str(), "\n");
                if suppressed {
                    out.dimmed(line.as_str());
                } else {
                    out.color(line.as_str(), Color::Green);
                }
            },
            None => {},
        }
    }
    out
}

/// The two types of a type change, where they are asked for.
pub open spec fn types_text(r: ReportView, f: ReportedView) -> Seq<SpanView> {
    if r.diff_types && type_diff::is_type_change(f.finding.category) {
        match type_diff::type_pair(f.finding.message) {
            Some((old_ty, new_ty)) => type_diff::diff_spans(old_ty, new_ty, r.use_color),
            None => Seq::empty(),
        }
    } else {
        Seq::empty()
    }
}

fn types_part(r: &SafetyReport, f: &ReportedFinding) -> (out: StyledText)
    ensures
        out@ == types_text(r@, f@),
{
    if r.diff_types && type_diff::is_type_change_category(f.finding.category.as_str()) {
        match type_diff::extract_type_pair(f.finding.message.as_str()) {
            Some((old_ty, new_ty)) => {
                return type_diff::type_diff_text(old_ty.as_str(), new_ty.as_str(), r.use_color);
            },
            None => {},
        }
    }
    StyledText::new()
}

/// The mark of a finding that an earlier report did not have.
pub open spec fn new_mark(f: ReportedView) -> Seq<char> {
    if f.baseline_status == Some(BaselineStatus::New) {
        "[NEW] "@
    } else {
        ""@
    }
}

/// The line of a finding that counts.
pub open spec fn active_line(f: ReportedView) -> SpanView {
    let body = new_mark(f) + status::severity_mark(f) + f.finding.message;
    match f.finding.severity {
        Severity::Critical => style::colored("🔴 "@ + body, Color::Red),
        Severity::Warning => style::colored("🟡 "@ + body, Color::Yellow),
        Severity::Info => style::colored("🔵 "@ + body, Color::Cyan),
    }
}

/// A finding.
pub open spec fn finding_text(r: ReportView, f: ReportedView, explain: bool) -> Seq<SpanView> {
    if f.suppressed {
        Seq::<SpanView>::empty().push(
            style::dimmed(
                "🔕 [SUPPRESSED] "@ + status::severity_mark(f) + f.finding.message,
            ),
        ).push(style::plain("\n"@)) + reason_text(f.suppression_reason) + guidance_text(
            explain,
            f.remediation,
            true,
        )
    } else {
        Seq::<SpanView>::empty().push(active_line(f)).push(style::plain("\n"@)) + guidance_text(
            explain,
            f.remediation,
            false,
        ) + types_text(r, f)
    }
}

fn finding_part(r: &SafetyReport, f: &ReportedFinding, explain: bool) -> (out: StyledText)
    ensures
        out@ == finding_text(r@, f@, explain),
{
    let tag = status::override_tag(f);
    let mut out = StyledText::new();
    if f.suppressed {
        out.dimmed(
            text::three(
                "🔕 [SUPPRESSED] ",
                tag.as_str(),
                f.finding.message.as_str(),
            ).as_str(),
        );
        out.plain("\n");
        out.extend(reason_part(&f.suppression_reason));
        out.extend(guidance_part(explain, &f.remediation, true));
    } else {
        let mark = match f.baseline_status {
            Some(BaselineStatus::New) => "[NEW] ",
            _ => "",
        };
        let body = text::three(mark, tag.as_str(), f.finding.message.as_str());
        match f.finding.severity {
            Severity::Critical => {
                out.color(text::two("🔴 ", body.as_str()).as_str(), Color::Red);
            },
            Severity::Warning => {
                out.color(text::two("🟡 ", body.as_str()).as_str(), Color::Yellow);
            },
            Severity::Info => {
                out.color(text::two("🔵 ", body.as_str()).as_str(), Color::Cyan);
            },
        }
        out.plain("\n");
        out.extend(guidance_part(explain, &f.remediation, false));
        out.extend(types_part(r, f));
    }
    out
}

/// The first `n` findings of an order.
pub open spec fn findings_text(
    r: ReportView,
    list: Seq<ReportedView>,
    order: Seq<int>,
    explain: bool,
    n: int,
) -> Seq<SpanView>
    decreases n,
{
    if n <= 0 {
        Seq::empty()
    } else {
        findings_text(r, list, order, explain, n - 1) + finding_text(
            r,
            list[order[n - 1]],
            explain,
        )
    }
}

/// The findings of one category, by message.
pub open spec fn group_text(r: ReportView, g: GroupView, explain: bool) -> Seq<SpanView> {
    Seq::<SpanView>::empty().push(
        style::bold_colored(
            "--- ["@ + text::ascii_upper_text(g.category) + "] ---\n"@,
            Color::Magenta,
        ),
    ) + findings_text(
        r,
        g.findings,
        findings::message_order(g.findings),
        explain,
        g.findings.len() as int,
    ) + Seq::<SpanView>::empty().push(style::plain("\n"@))
}

fn group_part(
    r: &SafetyReport,
    category: &str,
    list: &Vec<ReportedFinding>,
    explain: bool,
) -> (out: StyledText)
    ensures
        out@ == group_text(
            r@,
            (GroupView { category: category@, findings: findings::reported_views(list@) }),
            explain,
        ),
{
    let ghost views = findings::reported_views(list@);
    let mut out = StyledText::new();
    out.bold_color(
        text::three("--- [", text::to_ascii_upper(category).as_str(), "] ---\n").as_str(),
        Color::Magenta,
    );
    let order = findings::order_by_message(list);
    let ghost wanted = findings::message_order(views);
    let mut body = StyledText::new();
    let mut i: usize = 0;
    while i < order.len()
        invariant
            i <= order@.len(),
            views == findings::reported_views(list@),
            order@.len() == list@.len(),
            wanted == order::as_ints(order@),
            forall|j: int| 0 <= j < order@.len() ==> #[trigger] order@[j] < list@.len(),
            body@ == findings_text(r@, views, wanted, explain, i as int),
        decreases order@.len() - i,
    {
        let at = order[i];
        assert(views[at as int] == list@[at as int]@);
        assert(wanted[i as int] == at);
        body.extend(finding_part(r, &list[at], explain));
        i = i + 1;
    }
    out.extend(body);
    let mut last = StyledText::new();
    last.plain("\n");
    out.extend(last);
    out
}

/// The first `n` groups of an order.
pub open spec fn groups_text(r: ReportView, order: Seq<int>, explain: bool, n: int) -> Seq<
    SpanView,
>
    decreases n,
{
    if n <= 0 {
        Seq::empty()
    } else {
        groups_text(r, order, explain, n - 1) + group_text(r, r.groups[order[n - 1]], explain)
    }
}

fn groups_part(r: &SafetyReport, explain: bool) -> (out: StyledText)
    ensures
        out@ == groups_text(
            r@,
            findings::severity_order(r@.groups),
            explain,
            r@.groups.len() as int,
        ),
{
    let order = findings::order_by_severity(&r.findings_by_category);
    let ghost wanted = findings::severity_order(r@.groups);
    let mut out = StyledText::new();
    let mut i: usize = 0;
    while i < order.len()
        invariant
            i <= order@.len(),
            order@.len() == r@.groups.len(),
            wanted == order::as_ints(order@),
            forall|j: int| 0 <= j < order@.len() ==> #[trigger] order@[j] < r@.groups.len(),
            out@ == groups_text(r@, wanted, explain, i as int),
        decreases order@.len() - i,
    {
        let at = order[i];
        assert(wanted[i as int] == at);
        let category = r.findings_by_category.category(at);
        let list = r.findings_by_category.findings(at);
        let part = group_part(r, category.as_str(), list, explain);
        assert(r@.groups[at as int] == (GroupView {
            category: category@,
            findings: findings::reported_views(list@),
        }));
        out.extend(part);
        i = i + 1;
    }
    out
}

/// The first `n` resolved findings.
pub open spec fn resolved_lines(resolved: Seq<ResolvedView>, n: int) -> Seq<SpanView>
    decreases n,
{
    if n <= 0 {
        Seq::empty()
    } else {
        resolved_lines(resolved, n - 1).push(
            style::colored(resolved[n - 1].message + "\n"@, Color::Green),
        )
    }
}

/// The findings of the earlier report that are gone, where there are any.
pub open spec fn resolved_text(b: Option<BaselineView>) -> Seq<SpanView> {
    match b {
        Some(d) if d.resolved.len() > 0 => Seq::<SpanView>::empty().push(
            style::bold_colored("✅ RESOLVED SINCE BASELINE\n"@, Color::Green),
        ) + resolved_lines(d.resolved, d.resolved.len() as int) + Seq::<SpanView>::empty().push(
            style::plain("\n"@),
        ),
        _ => Seq::empty(),
    }
}

fn resolved_part(b: &Option<BaselineDiff>) -> (out: StyledText)
    ensures
        out@ == resolved_text(crate::report::safety::baseline_view(*b)),
{
    let mut out = StyledText::new();
    match b {
        Some(d) => {
            let ghost resolved = d@.resolved;
            assert(resolved.len() == d.resolved@.len());
            if d.resolved.len() > 0 {
                out.bold_color("✅ RESOLVED SINCE BASELINE\n", Color::Green);
                let mut lines = StyledText::new();
                let mut i: usize = 0;
                while i < d.resolved.len()
                    invariant
                        i <= d.resolved@.len(),
                        resolved == d@.resolved,
                        lines@ == resolved_lines(resolved, i as int),
                    decreases d.resolved@.len() - i,
                {
                    assert(resolved[i as int] == d.resolved@[i as int]@);
                    lines.color(
                        text::two(d.resolved[i].message.as_str(), "\n").as_str(),
                        Color::Green,
                    );
                    i = i + 1;
                }
                out.extend(lines);
                let mut last = StyledText::new();
                last.plain("\n");
                out.extend(last);
            }
        },
        None => {},
    }
    out
}

/// What a failing run asks for.
pub open spec fn action_text(r: ReportView) -> Seq<SpanView> {
    if r.is_safe {
        Seq::empty()
    } else if status::only_warnings_fail(r) {
        Seq::<SpanView>::empty().push(
            style::bold_colored(
                "⚠️  ACTION REQUIRED: Strict mode is active and warnings were detected.\n"@,
                Color::Yellow,
            ),
        ).push(
            style::colored(
                "These warnings must be resolved or strict mode disabled to proceed.\n"@,
                Color::Yellow,
            ),
        )
    } else {
        Seq::<SpanView>::empty().push(
            style::bold_colored(
                "⚠️  ACTION REQUIRED: The new contract version modifies existing storage layouts or function interfaces.\n"@,
                Color::Red,
            ),
        ).push(
            style::colored(
                "Deploying this upgrade will result in orphaned data, serialization panics, or broken integrations.\n"@,
                Color::Red,
            ),
        )
    }
}

fn action_part(r: &SafetyReport) -> (out: StyledText)
    ensures
        out@ == action_text(r@),
{
    let mut out = StyledText::new();
    if !r.is_safe {
        if r.strict && r.critical_count == 0 {
            out.bold_color(
                "⚠️  ACTION REQUIRED: Strict mode is active and warnings were detected.\n",
                Color::Yellow,
            );
            out.color(
                "These warnings must be resolved or strict mode disabled to proceed.\n",
                Color::Yellow,
            );
        } else {
            out.bold_color(
                "⚠️  ACTION REQUIRED: The new contract version modifies existing storage layouts or function interfaces.\n",
                Color::Red,
            );
            out.color(
                "Deploying this upgrade will result in orphaned data, serialization panics, or broken integrations.\n",
                Color::Red,
            );
        }
    }
    out
}

/// The line on the author of a suppression.
pub open spec fn author_line(f: ReportedView) -> Seq<char> {
    match f.suppression_author {
        Some(author) => "   Author:      "@ + author + " (expires "@ + parts::or_else(
            f.suppression_expiry,
            "never"@,
        ) + ")\n"@,
        None => ""@,
    }
}

/// A line that is left out where there is nothing to say.
pub open spec fn optional_line(label: Seq<char>, t: Option<Seq<char>>) -> Seq<char> {
    match t {
        Some(s) => label + s + "\n"@,
        None => ""@,
    }
}

fn optional_line_of(label: &str, t: &Option<String>) -> (r: String)
    ensures
        r@ == optional_line(label@, crate::diff::opt_view(*t)),
{
    match t {
        Some(s) => text::three(label, s.as_str(), "\n"),
        None => "".to_string(),
    }
}

fn author_line_of(f: &ReportedFinding) -> (r: String)
    ensures
        r@ == author_line(f@),
{
    match &f.suppression_author {
        Some(author) => {
            let mut out = "   Author:      ".to_string();
            out.append(author.as_str());
            out.append(" (expires ");
            out.append(parts::text_or(&f.suppression_expiry, "never"));
            out.append(")\n");
            out
        },
        None => "".to_string(),
    }
}

/// The record of a suppression.
pub open spec fn audit_entry(f: ReportedView) -> Seq<char> {
    " - Category:    "@ + f.finding.category + "\n   Target:      "@ + parts::or_else(
        f.finding.target,
        "<no target>"@,
    ) + "\n"@ + optional_line("   Fingerprint: "@, f.suppression_fingerprint) + author_line(f)
        + optional_line("   Reason:      "@, f.suppression_reason) + "\n"@
}

fn audit_entry_of(f: &ReportedFinding) -> (r: String)
    ensures
        r@ == audit_entry(f@),
{
    let mut out = " - Category:    ".to_string();
    out.append(f.finding.category.as_str());
    out.append("\n   Target:      ");
    out.append(parts::text_or(&f.finding.target, "<no target>"));
    out.append("\n");
    out.append(optional_line_of("   Fingerprint: ", &f.suppression_fingerprint).as_str());
    out.append(author_line_of(f).as_str());
    out.append(optional_line_of("   Reason:      ", &f.suppression_reason).as_str());
    out.append("\n");
    out
}

/// The records of the first `n` suppressions.
pub open spec fn audit_entries(list: Seq<ReportedView>, n: int) -> Seq<SpanView>
    decreases n,
{
    if n <= 0 {
        Seq::empty()
    } else {
        audit_entries(list, n - 1).push(style::plain(audit_entry(list[n - 1])))
    }
}

/// The log of applied suppressions, where there are any.
pub open spec fn audit_text(r: ReportView) -> Seq<SpanView> {
    let list = findings::suppressed_findings(r.groups);
    if list.len() > 0 {
        Seq::<SpanView>::empty().push(
            style::bold("\n========================================\n"@),
        ).push(style::bold_colored("🔕 APPLIED SUPPRESSIONS AUDIT LOG\n"@, Color::Magenta)).push(
            style::bold("========================================\n"@),
        ) + audit_entries(list, list.len() as int)
    } else {
        Seq::empty()
    }
}

fn audit_part(r: &SafetyReport) -> (out: StyledText)
    ensures
        out@ == audit_text(r@),
{
    let list = findings::list_suppressed(&r.findings_by_category);
    let ghost views = findings::ref_views(list@);
    assert(views.len() == list@.len());
    let mut out = StyledText::new();
    if list.len() > 0 {
        out.bold("\n========================================\n");
        out.bold_color("🔕 APPLIED SUPPRESSIONS AUDIT LOG\n", Color::Magenta);
        out.bold("========================================\n");
        let mut entries = StyledText::new();
        let mut i: usize = 0;
        while i < list.len()
            invariant
                i <= list@.len(),
                views == findings::ref_views(list@),
                entries@ == audit_entries(views, i as int),
            decreases list@.len() - i,
        {
            assert(views[i as int] == list@[i as int]@);
            entries.plain(audit_entry_of(list[i]).as_str());
            i = i + 1;
        }
        out.extend(entries);
    }
    out
}

/// A line that sets an old count against a new one.
pub open spec fn count_line(label: Seq<char>, old: usize, new: usize) -> Seq<char> {
    label + text::decimal(old as nat) + " → "@ + text::decimal(new as nat) + "\n"@
}

fn count_line_of(label: &str, old: usize, new: usize) -> (r: String)
    ensures
        r@ == count_line(label@, old, new),
{
    let mut out = label.to_string();
    out.append(text::number(old).as_str());
    out.append(" → ");
    out.append(text::number(new).as_str());
    out.append("\n");
    out
}

/// The line on the sizes of the builds.
pub open spec fn size_line(m: BuildMetrics) -> Seq<char> {
    "WASM size:  "@ + metrics::bytes_text(m.old_size_bytes as nat) + " → "@ + metrics::bytes_text(
        m.new_size_bytes as nat,
    ) + " ("@ + metrics::delta_text(m.size_delta_bytes) + ")\n"@
}

fn size_line_of(m: &BuildMetrics) -> (r: String)
    ensures
        r@ == size_line(*m),
{
    let mut out = "WASM size:  ".to_string();
    out.append(BuildMetrics::format_bytes(m.old_size_bytes).as_str());
    out.append(" → ");
    out.append(BuildMetrics::format_bytes(m.new_size_bytes).as_str());
    out.append(" (");
    out.append(BuildMetrics::format_delta(m.size_delta_bytes).as_str());
    out.append(")\n");
    out
}

/// The build metrics, where there are any.
pub open spec fn metrics_text(metrics: Option<BuildMetrics>) -> Seq<SpanView> {
    match metrics {
        Some(m) => Seq::<SpanView>::empty().push(
            style::bold("\n========================================\n"@),
        ).push(style::bold_colored("📊 BUILD METRICS\n"@, Color::Cyan)).push(
            style::bold("========================================\n"@),
        ).push(style::plain(size_line(m))).push(
            style::plain(count_line("Functions:  "@, m.old_function_count, m.new_function_count)),
        ).push(
            style::plain(count_line("Structs:    "@, m.old_struct_count, m.new_struct_count)),
        ).push(style::plain(count_line("Enums:      "@, m.old_enum_count, m.new_enum_count))).push(
            style::plain(count_line("Unions:     "@, m.old_union_count, m.new_union_count)),
        ).push(
            style::plain(
                count_line("Error Enums:"@, m.old_error_enum_count, m.new_error_enum_count),
            ),
        ),
        None => Seq::empty(),
    }
}

fn append_metrics_text(metrics: &Option<BuildMetrics>) -> (out: StyledText)
    ensures
        out@ == metrics_text(*metrics),
{
    let mut out = StyledText::new();
    match metrics {
        Some(m) => {
            out.bold("\n========================================\n");
            out.bold_color("📊 BUILD METRICS\n", Color::Cyan);
            out.bold("========================================\n");
            out.plain(size_line_of(m).as_str());
            out.plain(
                count_line_of("Functions:  ", m.old_function_count, m.new_function_count).as_str(),
            );
            out.plain(
                count_line_of("Structs:    ", m.old_struct_count, m.new_struct_count).as_str(),
            );
            out.plain(count_line_of("Enums:      ", m.old_enum_count, m.new_enum_count).as_str());
            out.plain(
                count_line_of("Unions:     ", m.old_union_count, m.new_union_count).as_str(),
            );
            out.plain(
                count_line_of(
                    "Error Enums:",
                    m.old_error_enum_count,
                    m.new_error_enum_count,
                ).as_str(),
            );
        },
        None => {},
    }
    out
}

/// The report as text for a terminal.
pub open spec fn summary_text(r: ReportView, explain: bool) -> Seq<SpanView> {
    if r.total_findings == 0 {
        head_text(r) + no_findings_text() + resolved_text(r.baseline_diff) + metrics_text(r.metrics)
    } else {
        head_text(r) + groups_text(
            r,
            findings::severity_order(r.groups),
            explain,
            r.groups.len() as int,
        ) + resolved_text(r.baseline_diff) + action_text(r) + audit_text(r) + metrics_text(
            r.metrics,
        )
    }
}

impl SafetyReport {
    /// The categories, the most severe first, those of one rank by name.
    pub fn categories_sorted_by_severity(&self) -> (r: Vec<&String>)
        ensures
            r@.len() == self@.groups.len(),
            forall|i: int|
                0 <= i < r@.len() ==> (#[trigger] r@[i])@
                    == self@.groups[findings::severity_order(self@.groups)[i]].category,
    {
        let order = findings::order_by_severity(&self.findings_by_category);
        let ghost wanted = findings::severity_order(self@.groups);
        let mut out: Vec<&String> = Vec::new();
        let mut i: usize = 0;
        while i < order.len()
            invariant
                i <= order@.len(),
                out@.len() == i,
                order@.len() == self@.groups.len(),
                wanted == order::as_ints(order@),
                forall|j: int| 0 <= j < order@.len() ==> #[trigger] order@[j] < self@.groups.len(),
                forall|j: int| 0 <= j < i ==> (#[trigger] out@[j])@ == self@.groups[wanted[j]].category,
            decreases order@.len() - i,
        {
            assert(wanted[i as int] == order@[i as int]);
            out.push(self.findings_by_category.category(order[i]));
            i = i + 1;
        }
        out
    }

    /// The report as text for a terminal, laid out.
    pub fn summary_spans(&self, explain: bool) -> (r: StyledText)
        ensures
            r@ == summary_text(self@, explain),
    {
        let mut out = head_part(self);
        if self.total_findings == 0 {
            out.extend(no_findings_part());
            out.extend(resolved_part(&self.baseline_diff));
            out.extend(append_metrics_text(&self.metrics));
            return out;
        }
        out.extend(groups_part(self, explain));
        out.extend(resolved_part(&self.baseline_diff));
        out.extend(action_part(self));
        out.extend(audit_part(self));
        out.extend(append_metrics_text(&self.metrics));
        out
    }

    /// The report as text for a terminal, in colour as far as the terminal shows
    /// colours.
    pub fn generate_summary_text(&self, explain: bool) -> (r: String)
        ensures
            style::may_render(summary_text(self@, explain), r@),
    {
        self.summary_spans(explain).render()
    }
}

} // verus!
