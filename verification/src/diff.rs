//! What a comparison of two contract builds found.

use vstd::prelude::*;

use crate::rules;

verus! {

/// How much a finding matters.
#[derive(Debug, Clone, Copy, PartialEq, Eq, Structural)]
pub enum Severity {
    Critical,
    Warning,
    Info,
}

/// The categories that a finding may have.
pub const ALL_CATEGORIES: [&'static str; 48] = rules::RULE_LABELS;

/// The name under which a severity is written in reports and configurations.
pub open spec fn severity_label(s: Severity) -> Seq<char> {
    match s {
        Severity::Critical => "critical"@,
        Severity::Warning => "warning"@,
        Severity::Info => "info"@,
    }
}

impl Severity {
    /// The name under which this severity is written in reports.
    pub fn label(&self) -> (r: &'static str)
        ensures
            r@ == severity_label(*self),
    {
        match self {
            Severity::Critical => "critical",
            Severity::Warning => "warning",
            Severity::Info => "info",
        }
    }
}

/// The view of an optional string.
pub open spec fn opt_view(s: Option<String>) -> Option<Seq<char>> {
    match s {
        Some(t) => Some(t@),
        None => None,
    }
}

/// A copy of an optional string.
pub fn opt_clone(s: &Option<String>) -> (r: Option<String>)
    ensures
        r == *s,
        opt_view(r) == opt_view(*s),
{
    match s {
        Some(t) => Some(t.clone()),
        None => None,
    }
}

/// One change between two builds.
#[derive(Debug)]
pub struct Finding {
    pub severity: Severity,
    /// The display name of the rule that the change falls under.
    pub category: String,
    pub message: String,
    /// The type that the change is about, where there is one.
    pub subject_type: Option<String>,
    /// The stable name of what changed, such as `ConfigData.threshold`.
    pub target: Option<String>,
    /// The role that the configuration gave to the type, such as `event`.
    pub classification: Option<String>,
}

/// A finding as plain text.
pub struct FindingView {
    pub severity: Severity,
    pub category: Seq<char>,
    pub message: Seq<char>,
    pub subject_type: Option<Seq<char>>,
    pub target: Option<Seq<char>>,
    pub classification: Option<Seq<char>>,
}

impl View for Finding {
    type V = FindingView;

    open spec fn view(&self) -> FindingView {
        FindingView {
            severity: self.severity,
            category: self.category@,
            message: self.message@,
            subject_type: opt_view(self.subject_type),
            target: opt_view(self.target),
            classification: opt_view(self.classification),
        }
    }
}

impl Clone for Finding {
    fn clone(&self) -> (r: Self)
        ensures
            r@ == self@,
    {
        Finding {
            severity: self.severity,
            category: self.category.clone(),
            message: self.message.clone(),
            subject_type: opt_clone(&self.subject_type),
            target: opt_clone(&self.target),
            classification: opt_clone(&self.classification),
        }
    }
}

/// Every change between two builds, in the order in which it was found.
#[derive(Debug)]
pub struct DiffReport {
    pub findings: Vec<Finding>,
}

impl View for DiffReport {
    type V = Seq<FindingView>;

    open spec fn view(&self) -> Seq<FindingView> {
        self.findings@.map_values(|f: Finding| f@)
    }
}

} // verus!
