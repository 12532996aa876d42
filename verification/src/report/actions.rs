//! The report as workflow commands of GitHub Actions.

use vstd::prelude::*;

use crate::diff::Severity;
use crate::order;
use crate::report::findings;
use crate::report::findings::ReportedFinding;
use crate::report::findings::ReportedView;
use crate::report::safety::ReportView;
use crate::report::safety::SafetyReport;
use crate::report::status;
use crate::text;

verus! {

/// The level of the annotation for a finding: that of its severity, or the
/// lowest one where a rule acknowledges the finding.
pub open spec fn level(f: ReportedView) -> Seq<char> {
    if f.suppressed {
        "notice"@
    } else {
        match f.finding.severity {
            Severity::Critical => "error"@,
            Severity::Warning => "warning"@,
            Severity::Info => "notice"@,
        }
    }
}

fn level_of(f: &ReportedFinding) -> (r: &'static str)
    ensures
        r@ == level(f@),
{
    if f.suppressed {
        "notice"
    } else {
        match f.finding.severity {
            Severity::Critical => "error",
            Severity::Warning => "warning",
            Severity::Info => "notice",
        }
    }
}

/// The annotation for a finding.
pub open spec fn annotation(f: ReportedView) -> Seq<char> {
    "::"@ + level(f) + "::["@ + f.finding.category + "] "@ + status::severity_mark(f)
        + f.finding.message + "\n"@
}

fn annotation_of(f: &ReportedFinding) -> (r: String)
    ensures
        r@ == annotation(f@),
{
    let mut out = "::".to_string();
    out.append(level_of(f));
    out.append("::[");
    out.append(f.finding.category.as_str());
    out.append("] ");
    out.append(status::override_tag(f).as_str());
    out.append(f.finding.message.as_str());
    out.append("\n");
    out
}

/// The annotations for the first `n` findings.
pub open spec fn annotations(list: Seq<ReportedView>, n: int) -> Seq<char>
    decreases n,
{
    if n <= 0 {
        ""@
    } else {
        annotations(list, n - 1) + annotation(list[n - 1])
    }
}

fn annotations_of(list: &Vec<ReportedFinding>) -> (r: String)
    ensures
        r@ == annotations(findings::reported_views(list@), list@.len() as int),
{
    let ghost views = findings::reported_views(list@);
    let mut out = "".to_string();
    let mut i: usize = 0;
    while i < list.len()
        invariant
            i <= list@.len(),
            views == findings::reported_views(list@),
            out@ == annotations(views, i as int),
        decreases list@.len() - i,
    {
        assert(views[i as int] == list@[i as int]@);
        out.append(annotation_of(&list[i]).as_str());
        i = i + 1;
    }
    out
}

/// The annotations for the first `n` groups of an order.
pub open spec fn group_annotations(r: ReportView, order: Seq<int>, n: int) -> Seq<char>
    decreases n,
{
    if n <= 0 {
        ""@
    } else {
        group_annotations(r, order, n - 1) + annotations(
            r.groups[order[n - 1]].findings,
            r.groups[order[n - 1]].findings.len() as int,
        )
    }
}

fn group_annotations_of(r: &SafetyReport) -> (out: String)
    ensures
        out@ == group_annotations(r@, findings::name_order(r@.groups), r@.groups.len() as int),
{
    let order = findings::order_by_name(&r.findings_by_category);
    let ghost wanted = findings::name_order(r@.groups);
    let mut out = "".to_string();
    let mut i: usize = 0;
    while i < order.len()
        invariant
            i <= order@.len(),
            order@.len() == r@.groups.len(),
            wanted == order::as_ints(order@),
            forall|j: int| 0 <= j < order@.len() ==> #[trigger] order@[j] < r@.groups.len(),
            out@ == group_annotations(r@, wanted, i as int),
        decreases order@.len() - i,
    {
        let at = order[i];
        assert(wanted[i as int] == at);
        let list = r.findings_by_category.findings(at);
        assert(findings::reported_views(list@).len() == list@.len());
        out.append(annotations_of(list).as_str());
        i = i + 1;
    }
    out
}

/// The summary below the annotations.
pub open spec fn summary_line(r: ReportView) -> Seq<char> {
    "\nSoroban Upgrade Safeguard: "@ + (if r.is_safe {
        "PASSED"@
    } else {
        "FAILED"@
    }) + " — "@ + text::decimal(r.critical_count) + " critical, "@ + text::decimal(
        r.warning_count,
    ) + " warning(s), "@ + text::decimal(r.info_count) + " info ("@ + text::decimal(
        r.suppressed_count,
    ) + " suppressed, "@ + text::decimal(r.severity_overridden_count)
        + " severity-overridden)\n"@
}

fn summary_line_of(r: &SafetyReport) -> (out: String)
    ensures
        out@ == summary_line(r@),
{
    let mut out = "\nSoroban Upgrade Safeguard: ".to_string();
    out.append(
        if r.is_safe {
            "PASSED"
        } else {
            "FAILED"
        },
    );
    out.append(" — ");
    out.append(text::number(r.critical_count).as_str());
    out.append(" critical, ");
    out.append(text::number(r.warning_count).as_str());
    out.append(" warning(s), ");
    out.append(text::number(r.info_count).as_str());
    out.append(" info (");
    out.append(text::number(r.suppressed_count).as_str());
    out.append(" suppressed, ");
    out.append(text::number(r.severity_overridden_count).as_str());
    out.append(" severity-overridden)\n");
    out
}

/// The notice that a configuration turned the verdict.
pub open spec fn notice(r: ReportView) -> Seq<char> {
    match status::verdict_notice(r) {
        Some(t) => "::warning::"@ + t + "\n"@,
        None => ""@,
    }
}

fn notice_of(r: &SafetyReport) -> (out: String)
    ensures
        out@ == notice(r@),
{
    match r.override_verdict_notice() {
        Some(t) => text::three("::warning::", t.as_str(), "\n"),
        None => "".to_string(),
    }
}

/// The command that opens a group in the log, where a title is given.
pub open spec fn group_start(title: Option<&str>) -> Seq<char> {
    match title {
        Some(t) => "::group::"@ + t@ + "\n"@,
        None => ""@,
    }
}

/// The command that closes a group in the log, where a title is given.
pub open spec fn group_end(title: Option<&str>) -> Seq<char> {
    if title is Some {
        "::endgroup::\n"@
    } else {
        ""@
    }
}

fn group_start_of(title: Option<&str>) -> (r: String)
    ensures
        r@ == group_start(title),
{
    match title {
        Some(t) => text::three("::group::", t, "\n"),
        None => "".to_string(),
    }
}

/// The report as workflow commands.
pub open spec fn summary_actions(r: ReportView, title: Option<&str>) -> Seq<char> {
    group_start(title) + group_annotations(
        r,
        findings::name_order(r.groups),
        r.groups.len() as int,
    ) + summary_line(r) + notice(r) + group_end(title)
}

impl SafetyReport {
    /// The report as workflow commands: an annotation for each finding, by
    /// category, and a summary.
    pub fn generate_summary_github_actions(&self, group_title: Option<&str>) -> (r: String)
        ensures
            r@ == summary_actions(self@, group_title),
    {
        let mut out = group_start_of(group_title);
        out.append(group_annotations_of(self).as_str());
        out.append(summary_line_of(self).as_str());
        out.append(notice_of(self).as_str());
        out.append(
            if group_title.is_some() {
                "::endgroup::\n"
            } else {
                ""
            },
        );
        out
    }
}

} // verus!
