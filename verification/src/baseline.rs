//! How a run relates to the report of an earlier one.

use vstd::prelude::*;

use crate::diff;

verus! {

/// Whether an earlier report had a finding too.
#[derive(Debug, Clone, Copy, PartialEq, Eq, Structural)]
pub enum BaselineStatus {
    New,
    Persisting,
}

/// A finding of the earlier report that this run does not have.
#[derive(Debug)]
pub struct ResolvedFinding {
    pub rule_id: String,
    pub target: Option<String>,
    pub message: String,
}

/// A resolved finding as plain text.
pub struct ResolvedView {
    pub rule_id: Seq<char>,
    pub target: Option<Seq<char>>,
    pub message: Seq<char>,
}

impl View for ResolvedFinding {
    type V = ResolvedView;

    open spec fn view(&self) -> ResolvedView {
        ResolvedView {
            rule_id: self.rule_id@,
            target: diff::opt_view(self.target),
            message: self.message@,
        }
    }
}

/// The outcome of a comparison with an earlier report.
#[derive(Debug)]
pub struct BaselineDiff {
    pub new_count: usize,
    pub persisting_count: usize,
    pub resolved: Vec<ResolvedFinding>,
    /// The version of the tool that wrote the earlier report.
    pub baseline_tool_version: String,
    /// Whether the verdict counts new findings only.
    pub fail_on_new_only: bool,
}

/// A comparison with an earlier report, as plain values.
pub struct BaselineView {
    pub new_count: usize,
    pub persisting_count: usize,
    pub resolved: Seq<ResolvedView>,
    pub baseline_tool_version: Seq<char>,
    pub fail_on_new_only: bool,
}

impl View for BaselineDiff {
    type V = BaselineView;

    open spec fn view(&self) -> BaselineView {
        BaselineView {
            new_count: self.new_count,
            persisting_count: self.persisting_count,
            resolved: self.resolved@.map_values(|r: ResolvedFinding| r@),
            baseline_tool_version: self.baseline_tool_version@,
            fail_on_new_only: self.fail_on_new_only,
        }
    }
}

} // verus!
