//! The report as data for other programs.

use vstd::prelude::*;

use crate::baseline::BaselineDiff;
use crate::baseline::BaselineView;
use crate::diff;
use crate::order;
use crate::report::findings;
use crate::report::findings::ReportedFinding;
use crate::report::metrics::BuildMetrics;
use crate::report::safety::ReportView;
use crate::report::safety::SafetyReport;
use crate::report::scope;
use crate::report::scope::ScopeJson;
use crate::report::status;
use crate::suppression::SuppressionRule;
use crate::suppression::SuppressionRuleView;

verus! {

/// The version of this tool.
pub const TOOL_VERSION: &'static str = "0.1.0";

/// The counts by severity.
#[derive(Debug, Clone, Copy, PartialEq, Eq, Structural)]
pub struct SeverityCounts {
    pub critical: usize,
    pub warning: usize,
    pub info: usize,
}

/// A suppression rule that no finding called for.
#[derive(Debug)]
pub struct UnmatchedSuppressionJson {
    pub category: String,
    pub target: Option<String>,
}

/// An unused suppression rule as plain text.
pub struct UnmatchedView {
    pub category: Seq<char>,
    pub target: Option<Seq<char>>,
}

impl View for UnmatchedSuppressionJson {
    type V = UnmatchedView;

    open spec fn view(&self) -> UnmatchedView {
        UnmatchedView { category: self.category@, target: diff::opt_view(self.target) }
    }
}

/// What is told of an unused suppression rule.
pub open spec fn unmatched(rule: SuppressionRuleView) -> UnmatchedView {
    UnmatchedView { category: rule.rule_id, target: rule.target }
}

/// The report as data for other programs.
#[derive(Debug)]
pub struct SafetyReportJson<'a> {
    pub is_safe: bool,
    pub strict: bool,
    /// What the verdict certifies.
    pub certifies: String,
    pub scope: ScopeJson,
    pub counts: SeverityCounts,
    pub suppressed_count: usize,
    pub filtered_count: usize,
    pub severity_overridden_count: usize,
    pub verdict_changed_by_override: bool,
    pub total_findings: usize,
    pub recommended_bump: &'static str,
    pub baseline_source: Option<&'a str>,
    pub verified_code_hash: Option<&'a str>,
    /// The findings of each category, by name.
    pub findings_by_category: Vec<(&'a str, &'a Vec<ReportedFinding>)>,
    pub metrics: Option<&'a BuildMetrics>,
    pub unmatched_suppressions: Vec<UnmatchedSuppressionJson>,
    pub tool_version: &'static str,
    pub baseline_diff: Option<&'a BaselineDiff>,
}

/// The text of an optional reference.
pub open spec fn ref_view(t: Option<&str>) -> Option<Seq<char>> {
    match t {
        Some(s) => Some(s@),
        None => None,
    }
}

/// The comparison behind an optional reference.
pub open spec fn baseline_ref_view(b: Option<&BaselineDiff>) -> Option<BaselineView> {
    match b {
        Some(d) => Some(d@),
        None => None,
    }
}

/// Whether the data say what the report says.
pub open spec fn json_of(r: ReportView, json: SafetyReportJson<'_>) -> bool {
    &&& json.is_safe == r.is_safe
    &&& json.strict == r.strict
    &&& json.certifies@ == scope::claim(r.scope)
    &&& scope::scope_json_of(r.scope, json.scope)
    &&& json.counts.critical == r.critical_count
    &&& json.counts.warning == r.warning_count
    &&& json.counts.info == r.info_count
    &&& json.suppressed_count == r.suppressed_count
    &&& json.filtered_count == r.filtered_count
    &&& json.severity_overridden_count == r.severity_overridden_count
    &&& json.verdict_changed_by_override == r.verdict_changed_by_override
    &&& json.total_findings == r.total_findings
    &&& json.recommended_bump@ == status::bump(r)
    &&& ref_view(json.baseline_source) == r.baseline_source
    &&& ref_view(json.verified_code_hash) == r.verified_code_hash
    &&& json.findings_by_category@.len() == r.groups.len()
    &&& forall|i: int|
        0 <= i < r.groups.len() ==> (#[trigger] json.findings_by_category@[i]).0@
            == r.groups[findings::name_order(r.groups)[i]].category && findings::reported_views(
            json.findings_by_category@[i].1@,
        ) == r.groups[findings::name_order(r.groups)[i]].findings
    &&& json.metrics == (match r.metrics {
        Some(m) => Some(&m),
        None => None,
    })
    &&& json.unmatched_suppressions@.map_values(|u: UnmatchedSuppressionJson| u@)
        == r.unmatched_suppressions.map_values(|s: SuppressionRuleView| unmatched(s))
    &&& json.tool_version@ == TOOL_VERSION@
    &&& baseline_ref_view(json.baseline_diff) == r.baseline_diff
}

fn unmatched_list(rules: &Vec<SuppressionRule>) -> (r: Vec<UnmatchedSuppressionJson>)
    ensures
        r@.map_values(|u: UnmatchedSuppressionJson| u@) == crate::suppression::rule_views(
            rules@,
        ).map_values(|s: SuppressionRuleView| unmatched(s)),
{
    let mut out: Vec<UnmatchedSuppressionJson> = Vec::new();
    let ghost wanted = crate::suppression::rule_views(rules@).map_values(
        |s: SuppressionRuleView| unmatched(s),
    );
    let mut i: usize = 0;
    while i < rules.len()
        invariant
            i <= rules@.len(),
            out@.len() == i,
            wanted == crate::suppression::rule_views(rules@).map_values(
                |s: SuppressionRuleView| unmatched(s),
            ),
            forall|k: int| 0 <= k < i ==> (#[trigger] out@[k])@ == wanted[k],
        decreases rules@.len() - i,
    {
        out.push(
            UnmatchedSuppressionJson {
                category: rules[i].rule_id.clone(),
                target: diff::opt_clone(&rules[i].target),
            },
        );
        i = i + 1;
    }
    assert(out@.map_values(|u: UnmatchedSuppressionJson| u@) =~= wanted);
    out
}

impl SafetyReport {
    fn groups_by_name(&self) -> (r: Vec<(&str, &Vec<ReportedFinding>)>)
        ensures
            r@.len() == self@.groups.len(),
            forall|i: int|
                0 <= i < r@.len() ==> (#[trigger] r@[i]).0@
                    == self@.groups[findings::name_order(self@.groups)[i]].category
                    && findings::reported_views(r@[i].1@) == self@.groups[findings::name_order(
                    self@.groups,
                )[i]].findings,
    {
        let order = findings::order_by_name(&self.findings_by_category);
        let ghost wanted = findings::name_order(self@.groups);
        let mut out: Vec<(&str, &Vec<ReportedFinding>)> = Vec::new();
        let mut i: usize = 0;
        while i < order.len()
            invariant
                i <= order@.len(),
                out@.len() == i,
                order@.len() == self@.groups.len(),
                wanted == order::as_ints(order@),
                forall|j: int| 0 <= j < order@.len() ==> #[trigger] order@[j] < self@.groups.len(),
                forall|j: int|
                    0 <= j < i ==> (#[trigger] out@[j]).0@ == self@.groups[wanted[j]].category
                        && findings::reported_views(out@[j].1@) == self@.groups[wanted[j]].findings,
            decreases order@.len() - i,
        {
            assert(wanted[i as int] == order@[i as int]);
            out.push(
                (
                    self.findings_by_category.category(order[i]).as_str(),
                    self.findings_by_category.findings(order[i]),
                ),
            );
            i = i + 1;
        }
        out
    }

    /// The report as data for other programs.
    pub fn to_json(&self) -> (r: SafetyReportJson<'_>)
        ensures
            json_of(self@, r),
    {
        SafetyReportJson {
            is_safe: self.is_safe,
            strict: self.strict,
            certifies: self.scope.summary_line(),
            scope: self.scope.to_json(),
            counts: SeverityCounts {
                critical: self.critical_count,
                warning: self.warning_count,
                info: self.info_count,
            },
            suppressed_count: self.suppressed_count,
            filtered_count: self.filtered_count,
            severity_overridden_count: self.severity_overridden_count,
            verdict_changed_by_override: self.verdict_changed_by_override,
            total_findings: self.total_findings,
            recommended_bump: self.recommended_bump(),
            baseline_source: match &self.baseline_source {
                Some(s) => Some(s.as_str()),
                None => None,
            },
            verified_code_hash: match &self.verified_code_hash {
                Some(s) => Some(s.as_str()),
                None => None,
            },
            findings_by_category: self.groups_by_name(),
            metrics: match &self.metrics {
                Some(m) => Some(m),
                None => None,
            },
            unmatched_suppressions: unmatched_list(&self.unmatched_suppressions),
            tool_version: TOOL_VERSION,
            baseline_diff: match &self.baseline_diff {
                Some(d) => Some(d),
                None => None,
            },
        }
    }
}

} // verus!
