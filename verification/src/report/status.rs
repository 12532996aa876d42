//! The verdict in words.

use vstd::prelude::*;

use crate::diff;
use crate::report::findings::ReportedFinding;
use crate::report::findings::ReportedView;
use crate::report::safety::ReportView;
use crate::report::safety::SafetyReport;
use crate::report::scope;
use crate::report::scope::AnalysisScope;

verus! {

/// How a passing verdict is put: no wider than the analysis was.
pub open spec fn passed_label(r: ReportView) -> Seq<char> {
    if scope::has_storage(r.scope) {
        "✅ PASSED (No exported-interface or declared-storage breaks)"@
    } else {
        "✅ PASSED (No exported-interface breaking changes)"@
    }
}

/// How a failing verdict is put.
pub open spec fn failed_label(r: ReportView) -> Seq<char> {
    if scope::has_storage(r.scope) {
        "❌ FAILED (Breaking changes detected in the exported interface or declared storage)"@
    } else {
        "❌ FAILED (Exported-interface breaking changes detected)"@
    }
}

/// Whether the run fails on warnings alone.
pub open spec fn only_warnings_fail(r: ReportView) -> bool {
    !r.is_safe && r.strict && r.critical_count == 0
}

/// How the verdict is put.
pub open spec fn status_label(r: ReportView) -> Seq<char> {
    if r.is_safe {
        passed_label(r)
    } else if only_warnings_fail(r) {
        "❌ FAILED (Warnings detected in strict mode)"@
    } else {
        failed_label(r)
    }
}

/// What is said where a configuration turned the verdict.
pub open spec fn verdict_notice(r: ReportView) -> Option<Seq<char>> {
    if !r.verdict_changed_by_override {
        None
    } else if r.is_safe {
        Some(
            "VERDICT CHANGED BY CONFIG: this run passes only because the [severity] table lowered one or more findings. Without those overrides it would have FAILED."@,
        )
    } else {
        Some(
            "VERDICT CHANGED BY CONFIG: this run fails only because the [severity] table raised one or more findings. Without those overrides it would have PASSED."@,
        )
    }
}

/// The version step that the findings call for.
pub open spec fn bump(r: ReportView) -> Seq<char> {
    if r.critical_count > 0 {
        "major"@
    } else if r.warning_count > 0 || r.info_count > 0 {
        "minor"@
    } else {
        "patch"@
    }
}

/// How a changed severity is marked.
pub open spec fn severity_mark(r: ReportedView) -> Seq<char> {
    match r.original_severity {
        Some(original) => "[SEVERITY "@ + diff::severity_label(original) + " → "@
            + diff::severity_label(r.finding.severity) + "] "@,
        None => ""@,
    }
}

/// How a changed severity is marked.
pub(crate) fn override_tag(r: &ReportedFinding) -> (s: String)
    ensures
        s@ == severity_mark(r@),
{
    match r.original_severity {
        Some(original) => {
            let mut out = "[SEVERITY ".to_string();
            out.append(original.label());
            out.append(" → ");
            out.append(r.finding.severity.label());
            out.append("] ");
            out
        },
        None => "".to_string(),
    }
}

impl SafetyReport {
    /// How a passing verdict is put: no wider than the analysis was.
    pub fn passed_status_label(&self) -> (r: &'static str)
        ensures
            r@ == passed_label(self@),
    {
        if self.scope.storage_analyzed() {
            "✅ PASSED (No exported-interface or declared-storage breaks)"
        } else {
            "✅ PASSED (No exported-interface breaking changes)"
        }
    }

    /// How a failing verdict is put.
    pub fn failed_status_label(&self) -> (r: &'static str)
        ensures
            r@ == failed_label(self@),
    {
        if self.scope.storage_analyzed() {
            "❌ FAILED (Breaking changes detected in the exported interface or declared storage)"
        } else {
            "❌ FAILED (Exported-interface breaking changes detected)"
        }
    }

    /// How the verdict is put.
    pub(crate) fn status(&self) -> (r: &'static str)
        ensures
            r@ == status_label(self@),
    {
        if self.is_safe {
            self.passed_status_label()
        } else if self.strict && self.critical_count == 0 {
            "❌ FAILED (Warnings detected in strict mode)"
        } else {
            self.failed_status_label()
        }
    }

    /// What is said where a configuration turned the verdict.
    pub fn override_verdict_notice(&self) -> (r: Option<String>)
        ensures
            diff::opt_view(r) == verdict_notice(self@),
    {
        if !self.verdict_changed_by_override {
            return None;
        }
        if self.is_safe {
            Some(
                "VERDICT CHANGED BY CONFIG: this run passes only because the [severity] table lowered one or more findings. Without those overrides it would have FAILED.".to_string(),
            )
        } else {
            Some(
                "VERDICT CHANGED BY CONFIG: this run fails only because the [severity] table raised one or more findings. Without those overrides it would have PASSED.".to_string(),
            )
        }
    }

    /// Says what the run looked at.
    pub fn with_scope(self, scope: AnalysisScope) -> (r: Self)
        ensures
            r@ == (ReportView { scope: scope@, ..self@ }),
    {
        let mut report = self;
        report.scope = scope;
        report
    }

    /// The version step that the findings call for: `major` for a critical one,
    /// `minor` for any other, `patch` for none.
    pub fn recommended_bump(&self) -> (r: &'static str)
        ensures
            r@ == bump(self@),
    {
        if self.critical_count > 0 {
            "major"
        } else if self.warning_count > 0 || self.info_count > 0 {
            "minor"
        } else {
            "patch"
        }
    }
}

/// A severity that the analysis gave is told apart from one that was configured:
/// only a changed severity is marked.
pub proof fn only_changed_severities_are_marked(r: ReportedView)
    ensures
        r.original_severity is None <==> severity_mark(r).len() == 0,
{
    reveal_strlit("[SEVERITY ");
    reveal_strlit("");
}

/// The version step depends on nothing but the counts of findings.
pub proof fn the_bump_depends_on_counts_alone(a: ReportView, b: ReportView)
    requires
        a.critical_count == b.critical_count,
        a.warning_count == b.warning_count,
        a.info_count == b.info_count,
    ensures
        bump(a) == bump(b),
{
}

} // verus!
