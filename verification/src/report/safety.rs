//! The report on a comparison: what was found, how it counts and what the
//! verdict is.

use vstd::prelude::*;

use crate::baseline::BaselineDiff;
use crate::baseline::BaselineView;
use crate::diff;
use crate::diff::DiffReport;
use crate::diff::FindingView;
use crate::diff::Severity;
use crate::limits;
use crate::limits::ResourcePolicy;
use crate::report::filter;
use crate::report::filter::CategoryFilter;
use crate::report::filter::FilterView;
use crate::report::findings;
use crate::report::findings::FindingGroups;
use crate::report::findings::GroupView;
use crate::report::findings::ReportedFinding;
use crate::report::findings::ReportedView;
use crate::report::metrics::BuildMetrics;
use crate::report::scope;
use crate::report::scope::AnalysisScope;
use crate::report::scope::ScopeView;
use crate::rules;
use crate::severity_override;
use crate::suppression;
use crate::suppression::ConfigView;
use crate::suppression::SuppressionConfig;
use crate::suppression::SuppressionRule;
use crate::suppression::SuppressionRuleView;

verus! {

/// The settings that a report was made with.
#[derive(Debug, Clone, Copy, PartialEq, Eq, Structural)]
pub struct ReportSettings {
    pub strict: bool,
    pub explain: bool,
    pub max_suppressions: Option<usize>,
    pub allow_targetless: Option<bool>,
    pub max_xdr_depth: u32,
    pub max_xdr_len: usize,
    pub max_entries: usize,
    pub max_walk_depth: usize,
}

/// The outcome of a comparison.
#[derive(Debug)]
pub struct SafetyReport {
    pub critical_count: usize,
    pub warning_count: usize,
    pub info_count: usize,
    /// The findings that a suppression rule acknowledges.
    pub suppressed_count: usize,
    /// The findings that a category filter hides.
    pub filtered_count: usize,
    /// The findings whose severity a configuration changed.
    pub severity_overridden_count: usize,
    /// Whether the verdict would have been the other one with the severities
    /// that the analysis gave.
    pub verdict_changed_by_override: bool,
    pub suppressed_critical_count: usize,
    pub total_findings: usize,
    /// The verdict.
    pub is_safe: bool,
    pub findings_by_category: FindingGroups,
    /// Whether warnings fail the run too.
    pub strict: bool,
    pub settings: ReportSettings,
    pub scope: AnalysisScope,
    /// Where the old build came from.
    pub baseline_source: Option<String>,
    /// The verified digest of the old build.
    pub verified_code_hash: Option<String>,
    pub category_filter: CategoryFilter,
    pub old_spec_summary: Option<String>,
    pub new_spec_summary: Option<String>,
    pub metrics: Option<BuildMetrics>,
    /// The suppression rules that no finding called for.
    pub unmatched_suppressions: Vec<SuppressionRule>,
    pub baseline_diff: Option<BaselineDiff>,
    /// Whether the text format shows the two types of a type change.
    pub diff_types: bool,
    /// Whether type changes are shown in colour.
    pub use_color: bool,
}

/// A report as plain values.
pub struct ReportView {
    pub critical_count: nat,
    pub warning_count: nat,
    pub info_count: nat,
    pub suppressed_count: nat,
    pub filtered_count: nat,
    pub severity_overridden_count: nat,
    pub verdict_changed_by_override: bool,
    pub suppressed_critical_count: nat,
    pub total_findings: nat,
    pub is_safe: bool,
    pub groups: Seq<GroupView>,
    pub strict: bool,
    pub settings: ReportSettings,
    pub scope: ScopeView,
    pub baseline_source: Option<Seq<char>>,
    pub verified_code_hash: Option<Seq<char>>,
    pub category_filter: FilterView,
    pub old_spec_summary: Option<Seq<char>>,
    pub new_spec_summary: Option<Seq<char>>,
    pub metrics: Option<BuildMetrics>,
    pub unmatched_suppressions: Seq<SuppressionRuleView>,
    pub baseline_diff: Option<BaselineView>,
    pub diff_types: bool,
    pub use_color: bool,
}

/// The view of an optional comparison with an earlier report.
pub open spec fn baseline_view(b: Option<BaselineDiff>) -> Option<BaselineView> {
    match b {
        Some(d) => Some(d@),
        None => None,
    }
}

impl View for SafetyReport {
    type V = ReportView;

    open spec fn view(&self) -> ReportView {
        ReportView {
            critical_count: self.critical_count as nat,
            warning_count: self.warning_count as nat,
            info_count: self.info_count as nat,
            suppressed_count: self.suppressed_count as nat,
            filtered_count: self.filtered_count as nat,
            severity_overridden_count: self.severity_overridden_count as nat,
            verdict_changed_by_override: self.verdict_changed_by_override,
            suppressed_critical_count: self.suppressed_critical_count as nat,
            total_findings: self.total_findings as nat,
            is_safe: self.is_safe,
            groups: self.findings_by_category@,
            strict: self.strict,
            settings: self.settings,
            scope: self.scope@,
            baseline_source: diff::opt_view(self.baseline_source),
            verified_code_hash: diff::opt_view(self.verified_code_hash),
            category_filter: self.category_filter@,
            old_spec_summary: diff::opt_view(self.old_spec_summary),
            new_spec_summary: diff::opt_view(self.new_spec_summary),
            metrics: self.metrics,
            unmatched_suppressions: suppression::rule_views(self.unmatched_suppressions@),
            baseline_diff: baseline_view(self.baseline_diff),
            diff_types: self.diff_types,
            use_color: self.use_color,
        }
    }
}

/// What to do about a finding of the rule named `name`.
pub open spec fn guidance(name: Seq<char>) -> Option<&'static str> {
    match rules::guidance_with_id(name) {
        Some(g) => Some(g),
        None => match rules::canonical_id(name) {
            Some(id) => rules::guidance_with_id(id@),
            None => None,
        },
    }
}

/// What to do about a finding of the rule named `rule_id`, by its id or its
/// display name.
pub fn get_remediation_guidance(rule_id: &str) -> (r: Option<&'static str>)
    ensures
        r == guidance(rule_id@),
{
    match rules::guidance_for_rule_id(rule_id) {
        Some(g) => Some(g),
        None => match rules::canonical_rule_id(rule_id) {
            Some(id) => rules::guidance_for_rule_id(id),
            None => None,
        },
    }
}

proof fn lemma_found_rule(wanted: spec_fn(rules::Rule) -> bool, from: int, i: int)
    requires
        0 <= from <= i < rules::RULE_COUNT,
        wanted(rules::rule_at(i)),
    ensures
        rules::first_rule(wanted, from) matches Some(r) && exists|j: int|
            0 <= j < rules::RULE_COUNT && r == #[trigger] rules::rule_at(j),
    decreases i - from,
{
    if wanted(rules::rule_at(from)) {
        assert(rules::first_rule(wanted, from) == Some(rules::rule_at(from)));
    } else {
        lemma_found_rule(wanted, from + 1, i);
    }
}

/// There is something to do about every kind of finding: every rule has guidance,
/// by its id and by its display name.
pub proof fn every_rule_has_guidance(i: int)
    requires
        0 <= i < rules::RULE_COUNT,
    ensures
        guidance(rules::rule_at(i).id@) is Some,
        guidance(rules::rule_at(i).label@) is Some,
{
    let rule = rules::rule_at(i);
    lemma_found_rule(rules::has_id(rule.id@), 0, i);
    lemma_found_rule(rules::has_name(rule.label@), 0, i);
    let named = rules::first_rule(rules::has_name(rule.label@), 0)->0;
    let j = choose|j: int| 0 <= j < rules::RULE_COUNT && named == #[trigger] rules::rule_at(j);
    lemma_found_rule(rules::has_id(named.id@), 0, j);
}

/// The severity at which a finding counts.
pub open spec fn effective_severity(f: FindingView, config: ConfigView) -> Severity {
    match severity_override::override_for(config.overrides, f.category) {
        Some(s) => s,
        None => f.severity,
    }
}

/// The id of the rule that a finding falls under, or its category where no rule
/// has that name.
pub open spec fn rule_id_of(category: Seq<char>) -> Seq<char> {
    match rules::canonical_id(category) {
        Some(id) => id@,
        None => category,
    }
}

/// The text of an optional literal.
pub open spec fn literal_view(s: Option<&'static str>) -> Option<Seq<char>> {
    match s {
        Some(t) => Some(t@),
        None => None,
    }
}

/// How a finding is listed.
pub open spec fn reported(f: FindingView, config: ConfigView, explain: bool) -> ReportedView {
    let severity = effective_severity(f, config);
    let rule = suppression::matching_rule(config.rules, f);
    ReportedView {
        rule_id: rule_id_of(f.category),
        finding: FindingView { severity, ..f },
        fingerprint: suppression::fingerprint(f),
        suppressed: rule is Some,
        suppression_reason: match rule {
            Some(i) => config.rules[i].reason,
            None => None,
        },
        suppression_author: match rule {
            Some(i) => config.rules[i].author,
            None => None,
        },
        suppression_expiry: match rule {
            Some(i) => config.rules[i].expiry,
            None => None,
        },
        suppression_fingerprint: match rule {
            Some(i) => config.rules[i].fingerprint,
            None => None,
        },
        remediation: if explain {
            literal_view(guidance(rule_id_of(f.category)))
        } else {
            None
        },
        original_severity: if severity != f.severity {
            Some(f.severity)
        } else {
            None
        },
        baseline_status: None,
    }
}

/// How the findings are listed, in the order in which they were found.
pub open spec fn listed(
    found: Seq<FindingView>,
    config: ConfigView,
    explain: bool,
) -> Seq<ReportedView> {
    found.map_values(|f: FindingView| reported(f, config, explain))
}

/// The first `n` listed findings, grouped by category.
pub open spec fn grouped(list: Seq<ReportedView>, n: int) -> Seq<GroupView>
    decreases n,
{
    if n <= 0 {
        Seq::empty()
    } else {
        findings::filed(grouped(list, n - 1), list[n - 1].finding.category, list[n - 1])
    }
}

/// How many of the first `n` findings have a property.
pub open spec fn count(list: Seq<ReportedView>, p: spec_fn(ReportedView) -> bool, n: int) -> nat
    decreases n,
{
    if n <= 0 {
        0
    } else {
        count(list, p, n - 1) + (if p(list[n - 1]) {
            1nat
        } else {
            0nat
        })
    }
}

/// How many findings have a property.
pub open spec fn count_all(list: Seq<ReportedView>, p: spec_fn(ReportedView) -> bool) -> nat {
    count(list, p, list.len() as int)
}

/// How many findings of the first `n` groups have a property.
pub open spec fn count_groups(
    groups: Seq<GroupView>,
    p: spec_fn(ReportedView) -> bool,
    n: int,
) -> nat
    decreases n,
{
    if n <= 0 {
        0
    } else {
        count_groups(groups, p, n - 1) + count_all(groups[n - 1].findings, p)
    }
}

/// How many findings of a report have a property.
pub open spec fn count_in(groups: Seq<GroupView>, p: spec_fn(ReportedView) -> bool) -> nat {
    count_groups(groups, p, groups.len() as int)
}

/// The severity that the analysis gave to a finding.
pub open spec fn engine_severity(r: ReportedView) -> Severity {
    match r.original_severity {
        Some(s) => s,
        None => r.finding.severity,
    }
}

/// The findings that count at a severity.
pub open spec fn at(s: Severity) -> spec_fn(ReportedView) -> bool {
    |r: ReportedView| r.finding.severity == s
}

/// The findings at a severity that no rule acknowledges.
pub open spec fn failing_at(s: Severity) -> spec_fn(ReportedView) -> bool {
    |r: ReportedView| !r.suppressed && r.finding.severity == s
}

/// The findings that no rule acknowledges and to which the analysis gave a
/// severity.
pub open spec fn engine_failing_at(s: Severity) -> spec_fn(ReportedView) -> bool {
    |r: ReportedView| !r.suppressed && engine_severity(r) == s
}

/// The findings that a rule acknowledges.
pub open spec fn acknowledged() -> spec_fn(ReportedView) -> bool {
    |r: ReportedView| r.suppressed
}

/// The acknowledged findings that count at a severity.
pub open spec fn acknowledged_at(s: Severity) -> spec_fn(ReportedView) -> bool {
    |r: ReportedView| r.suppressed && r.finding.severity == s
}

/// The findings whose severity a configuration changed.
pub open spec fn overridden() -> spec_fn(ReportedView) -> bool {
    |r: ReportedView| r.original_severity is Some
}

/// The verdict on a number of critical findings and of warnings.
pub open spec fn verdict(strict: bool, critical: nat, warning: nat) -> bool {
    critical == 0 && (strict ==> warning == 0)
}

/// Whether some finding is matched by the rule at position `i`.
pub open spec fn rule_is_used(
    found: Seq<FindingView>,
    rules: Seq<SuppressionRuleView>,
    i: int,
) -> bool {
    exists|k: int|
        0 <= k < found.len() && suppression::matching_rule(rules, #[trigger] found[k]) == Some(i)
}

/// The ones among the first `n` rules that match no finding.
pub open spec fn unused_rules(
    found: Seq<FindingView>,
    rules: Seq<SuppressionRuleView>,
    n: int,
) -> Seq<SuppressionRuleView>
    decreases n,
{
    if n <= 0 {
        Seq::empty()
    } else if rule_is_used(found, rules, n - 1) {
        unused_rules(found, rules, n - 1)
    } else {
        unused_rules(found, rules, n - 1).push(rules[n - 1])
    }
}

/// The report on a comparison.
pub open spec fn report_on(
    found: Seq<FindingView>,
    config: ConfigView,
    explain: bool,
    strict: bool,
    policy: ResourcePolicy,
) -> ReportView {
    let list = listed(found, config, explain);
    let safe = verdict(
        strict,
        count_all(list, failing_at(Severity::Critical)),
        count_all(list, failing_at(Severity::Warning)),
    );
    let engine_safe = verdict(
        strict,
        count_all(list, engine_failing_at(Severity::Critical)),
        count_all(list, engine_failing_at(Severity::Warning)),
    );
    ReportView {
        critical_count: count_all(list, at(Severity::Critical)),
        warning_count: count_all(list, at(Severity::Warning)),
        info_count: count_all(list, at(Severity::Info)),
        suppressed_count: count_all(list, acknowledged()),
        filtered_count: 0,
        severity_overridden_count: count_all(list, overridden()),
        verdict_changed_by_override: safe != engine_safe,
        suppressed_critical_count: count_all(list, acknowledged_at(Severity::Critical)),
        total_findings: found.len(),
        is_safe: safe,
        groups: grouped(list, list.len() as int),
        strict,
        settings: ReportSettings {
            strict,
            explain,
            max_suppressions: config.max_suppressions,
            allow_targetless: config.allow_targetless,
            max_xdr_depth: policy.max_xdr_depth,
            max_xdr_len: policy.max_xdr_len,
            max_entries: policy.max_entries,
            max_walk_depth: policy.max_walk_depth,
        },
        scope: scope::narrowest_scope(),
        baseline_source: None,
        verified_code_hash: None,
        category_filter: filter::no_filter(),
        old_spec_summary: None,
        new_spec_summary: None,
        metrics: None,
        unmatched_suppressions: unused_rules(found, config.rules, config.rules.len() as int),
        baseline_diff: None,
        diff_types: false,
        use_color: false,
    }
}

/// Running counts over a list of findings.
pub(crate) struct Tally {
    pub(crate) critical: usize,
    pub(crate) warning: usize,
    pub(crate) info: usize,
    pub(crate) suppressed: usize,
    pub(crate) suppressed_critical: usize,
    pub(crate) overridden: usize,
    pub(crate) failing_critical: usize,
    pub(crate) failing_warning: usize,
    pub(crate) engine_failing_critical: usize,
    pub(crate) engine_failing_warning: usize,
}

/// Whether the counts are those of the first `n` findings, on top of `base`.
pub(crate) open spec fn tallies(t: Tally, base: Tally, list: Seq<ReportedView>, n: int) -> bool {
    &&& t.critical == base.critical + count(list, at(Severity::Critical), n)
    &&& t.warning == base.warning + count(list, at(Severity::Warning), n)
    &&& t.info == base.info + count(list, at(Severity::Info), n)
    &&& t.suppressed == base.suppressed + count(list, acknowledged(), n)
    &&& t.suppressed_critical == base.suppressed_critical + count(
        list,
        acknowledged_at(Severity::Critical),
        n,
    )
    &&& t.overridden == base.overridden + count(list, overridden(), n)
    &&& t.failing_critical == base.failing_critical + count(
        list,
        failing_at(Severity::Critical),
        n,
    )
    &&& t.failing_warning == base.failing_warning + count(list, failing_at(Severity::Warning), n)
    &&& t.engine_failing_critical == base.engine_failing_critical + count(
        list,
        engine_failing_at(Severity::Critical),
        n,
    )
    &&& t.engine_failing_warning == base.engine_failing_warning + count(
        list,
        engine_failing_at(Severity::Warning),
        n,
    )
}

/// Whether no count is above `n`.
pub(crate) open spec fn tally_within(t: Tally, n: int) -> bool {
    &&& t.critical <= n
    &&& t.warning <= n
    &&& t.info <= n
    &&& t.suppressed <= n
    &&& t.suppressed_critical <= n
    &&& t.overridden <= n
    &&& t.failing_critical <= n
    &&& t.failing_warning <= n
    &&& t.engine_failing_critical <= n
    &&& t.engine_failing_warning <= n
}

impl Tally {
    pub(crate) fn new() -> (r: Self)
        ensures
            tally_within(r, 0),
    {
        Tally {
            critical: 0,
            warning: 0,
            info: 0,
            suppressed: 0,
            suppressed_critical: 0,
            overridden: 0,
            failing_critical: 0,
            failing_warning: 0,
            engine_failing_critical: 0,
            engine_failing_warning: 0,
        }
    }

    /// Counts one finding.
    pub(crate) fn take(
        &mut self,
        severity: Severity,
        engine: Severity,
        suppressed: bool,
        overridden: bool,
    )
        requires
            tally_within(*old(self), usize::MAX - 1),
        ensures
            final(self).critical == old(self).critical + (if severity == Severity::Critical {
                1int
            } else {
                0
            }),
            final(self).warning == old(self).warning + (if severity == Severity::Warning {
                1int
            } else {
                0
            }),
            final(self).info == old(self).info + (if severity == Severity::Info {
                1int
            } else {
                0
            }),
            final(self).suppressed == old(self).suppressed + (if suppressed {
                1int
            } else {
                0
            }),
            final(self).suppressed_critical == old(self).suppressed_critical + (if suppressed
                && severity == Severity::Critical {
                1int
            } else {
                0
            }),
            final(self).overridden == old(self).overridden + (if overridden {
                1int
            } else {
                0
            }),
            final(self).failing_critical == old(self).failing_critical + (if !suppressed && severity
                == Severity::Critical {
                1int
            } else {
                0
            }),
            final(self).failing_warning == old(self).failing_warning + (if !suppressed && severity
                == Severity::Warning {
                1int
            } else {
                0
            }),
            final(self).engine_failing_critical == old(self).engine_failing_critical + (
            if !suppressed && engine == Severity::Critical {
                1int
            } else {
                0
            }),
            final(self).engine_failing_warning == old(self).engine_failing_warning + (
            if !suppressed && engine == Severity::Warning {
                1int
            } else {
                0
            }),
    {
        match severity {
            Severity::Critical => {
                self.critical = self.critical + 1;
            },
            Severity::Warning => {
                self.warning = self.warning + 1;
            },
            Severity::Info => {
                self.info = self.info + 1;
            },
        }
        if overridden {
            self.overridden = self.overridden + 1;
        }
        if suppressed {
            self.suppressed = self.suppressed + 1;
            if severity == Severity::Critical {
                self.suppressed_critical = self.suppressed_critical + 1;
            }
        } else {
            match severity {
                Severity::Critical => {
                    self.failing_critical = self.failing_critical + 1;
                },
                Severity::Warning => {
                    self.failing_warning = self.failing_warning + 1;
                },
                Severity::Info => {},
            }
            match engine {
                Severity::Critical => {
                    self.engine_failing_critical = self.engine_failing_critical + 1;
                },
                Severity::Warning => {
                    self.engine_failing_warning = self.engine_failing_warning + 1;
                },
                Severity::Info => {},
            }
        }
    }
}

pub(crate) fn is_verdict_safe(strict: bool, critical: usize, warning: usize) -> (r: bool)
    ensures
        r == verdict(strict, critical as nat, warning as nat),
{
    if strict {
        critical == 0 && warning == 0
    } else {
        critical == 0
    }
}

/// How a finding is listed.
fn report_finding(finding: &diff::Finding, config: &SuppressionConfig, explain: bool) -> (r: (
    ReportedFinding,
    Option<usize>,
))
    ensures
        r.0@ == reported(finding@, config@, explain),
        match r.1 {
            Some(i) => suppression::matching_rule(config@.rules, finding@) == Some(i as int) && i
                < config.rules@.len(),
            None => suppression::matching_rule(config@.rules, finding@) is None,
        },
{
    let severity = match config.severity_overrides.severity_for(finding.category.as_str()) {
        Some(s) => s,
        None => finding.severity,
    };
    let rule_id = match rules::canonical_rule_id(finding.category.as_str()) {
        Some(id) => id.to_string(),
        None => finding.category.clone(),
    };
    let remediation = if explain {
        match get_remediation_guidance(rule_id.as_str()) {
            Some(g) => Some(g.to_string()),
            None => None,
        }
    } else {
        None
    };
    let original_severity = if severity != finding.severity {
        Some(finding.severity)
    } else {
        None
    };
    let mut effective = finding.clone();
    effective.severity = severity;
    let fingerprint = suppression::compute_fingerprint(finding);
    match config.matching_rule_with_index(finding) {
        Some((i, rule)) => {
            assert(config@.rules[i as int] == rule@);
            let r = ReportedFinding {
                rule_id,
                finding: effective,
                fingerprint,
                suppressed: true,
                suppression_reason: diff::opt_clone(&rule.reason),
                suppression_author: diff::opt_clone(&rule.author),
                suppression_expiry: diff::opt_clone(&rule.expiry),
                suppression_fingerprint: diff::opt_clone(&rule.fingerprint),
                remediation,
                original_severity,
                baseline_status: None,
            };
            (r, Some(i))
        },
        None => {
            let r = ReportedFinding {
                rule_id,
                finding: effective,
                fingerprint,
                suppressed: false,
                suppression_reason: None,
                suppression_author: None,
                suppression_expiry: None,
                suppression_fingerprint: None,
                remediation,
                original_severity,
                baseline_status: None,
            };
            (r, None)
        },
    }
}

/// The rules that no finding called for.
fn rules_not_used(config: &SuppressionConfig, used: &Vec<bool>, found: &DiffReport) -> (r: Vec<
    SuppressionRule,
>)
    requires
        used@.len() == config.rules@.len(),
        forall|i: int|
            0 <= i < used@.len() ==> #[trigger] used@[i] == rule_is_used(
                found@,
                config@.rules,
                i,
            ),
    ensures
        suppression::rule_views(r@) == unused_rules(
            found@,
            config@.rules,
            config@.rules.len() as int,
        ),
{
    let mut out: Vec<SuppressionRule> = Vec::new();
    let mut i: usize = 0;
    assert(suppression::rule_views(out@) =~= unused_rules(found@, config@.rules, 0));
    while i < config.rules.len()
        invariant
            i <= config.rules@.len(),
            used@.len() == config.rules@.len(),
            forall|k: int|
                0 <= k < used@.len() ==> #[trigger] used@[k] == rule_is_used(
                    found@,
                    config@.rules,
                    k,
                ),
            suppression::rule_views(out@) == unused_rules(found@, config@.rules, i as int),
        decreases config.rules@.len() - i,
    {
        assert(used@[i as int] == rule_is_used(found@, config@.rules, i as int));
        if !used[i] {
            let ghost before = out@;
            out.push(config.rules[i].clone());
            assert(suppression::rule_views(out@) =~= suppression::rule_views(before).push(
                config@.rules[i as int],
            ));
        }
        i = i + 1;
    }
    out
}

impl SafetyReport {
    /// The report on a comparison with nothing configured.
    pub fn new(found: &DiffReport) -> (r: Self)
        ensures
            r@ == report_on(
                found@,
                suppression::no_config(),
                false,
                false,
                limits::default_policy(),
            ),
    {
        let config = SuppressionConfig::default();
        let policy = ResourcePolicy::default();
        Self::with_suppressions(found, &config, false, false, &policy)
    }

    /// The report on a comparison under a project's configuration.
    ///
    /// Every finding is listed. The upgrade is safe where no critical finding is
    /// left that no rule acknowledges, and in strict mode no warning either.
    pub fn with_suppressions(
        found: &DiffReport,
        suppressions: &SuppressionConfig,
        explain: bool,
        strict: bool,
        policy: &ResourcePolicy,
    ) -> (r: Self)
        ensures
            r@ == report_on(found@, suppressions@, explain, strict, *policy),
    {
        let ghost list = listed(found@, suppressions@, explain);
        let mut tally = Tally::new();
        let ghost base = tally;
        let mut groups = FindingGroups::new();
        let mut used: Vec<bool> = Vec::new();
        let mut k: usize = 0;
        while k < suppressions.rules.len()
            invariant
                k <= suppressions.rules@.len(),
                used@.len() == k,
                forall|i: int| 0 <= i < k ==> !#[trigger] used@[i],
            decreases suppressions.rules@.len() - k,
        {
            used.push(false);
            k = k + 1;
        }
        assert forall|i: int| 0 <= i < used@.len() implies #[trigger] used@[i] == rule_is_used(
            found@.take(0),
            suppressions@.rules,
            i,
        ) by {}
        let mut n: usize = 0;
        while n < found.findings.len()
            invariant
                n <= found.findings@.len(),
                list == listed(found@, suppressions@, explain),
                list.len() == found.findings@.len(),
                tally_within(base, 0),
                tally_within(tally, n as int),
                tallies(tally, base, list, n as int),
                groups@ == grouped(list, n as int),
                findings::total_findings(groups@) == n,
                used@.len() == suppressions.rules@.len(),
                forall|i: int|
                    0 <= i < used@.len() ==> #[trigger] used@[i] == rule_is_used(
                        found@.take(n as int),
                        suppressions@.rules,
                        i,
                    ),
            decreases found.findings@.len() - n,
        {
            let finding = &found.findings[n];
            let ghost f = finding@;
            assert(found@[n as int] == f);
            let (r, rule) = report_finding(finding, suppressions, explain);
            assert(list[n as int] == r@);
            let engine = finding.severity;
            assert(engine_severity(r@) == engine);
            tally.take(
                r.finding.severity,
                engine,
                r.suppressed,
                r.original_severity.is_some(),
            );
            let ghost before = used@;
            match rule {
                Some(i) => {
                    used.set(i, true);
                },
                None => {},
            }
            proof {
                let seen = found@.take(n + 1);
                assert forall|i: int| 0 <= i < used@.len() implies #[trigger] used@[i]
                    == rule_is_used(seen, suppressions@.rules, i) by {
                    let m = suppression::matching_rule(suppressions@.rules, f);
                    assert(before[i] == rule_is_used(
                        found@.take(n as int),
                        suppressions@.rules,
                        i,
                    ));
                    if rule_is_used(found@.take(n as int), suppressions@.rules, i) {
                        let k = choose|k: int|
                            0 <= k < found@.take(n as int).len() && suppression::matching_rule(
                                suppressions@.rules,
                                #[trigger] found@.take(n as int)[k],
                            ) == Some(i);
                        assert(seen[k] == found@.take(n as int)[k]);
                    }
                    if m == Some(i) {
                        assert(seen[n as int] == f);
                    }
                    if rule_is_used(seen, suppressions@.rules, i) && m != Some(i) {
                        let k = choose|k: int|
                            0 <= k < seen.len() && suppression::matching_rule(
                                suppressions@.rules,
                                #[trigger] seen[k],
                            ) == Some(i);
                        assert(found@.take(n as int)[k] == seen[k]);
                    }
                }
                findings::lemma_filing_adds_one(groups@, f.category, r@);
            }
            groups.file(finding.category.as_str(), r);
            n = n + 1;
        }
        assert(found@.take(n as int) =~= found@);
        let unmatched_suppressions = rules_not_used(suppressions, &used, found);
        let is_safe = is_verdict_safe(strict, tally.failing_critical, tally.failing_warning);
        let engine_safe = is_verdict_safe(
            strict,
            tally.engine_failing_critical,
            tally.engine_failing_warning,
        );
        SafetyReport {
            critical_count: tally.critical,
            warning_count: tally.warning,
            info_count: tally.info,
            suppressed_count: tally.suppressed,
            filtered_count: 0,
            severity_overridden_count: tally.overridden,
            verdict_changed_by_override: is_safe != engine_safe,
            suppressed_critical_count: tally.suppressed_critical,
            total_findings: found.findings.len(),
            is_safe,
            findings_by_category: groups,
            strict,
            settings: ReportSettings {
                strict,
                explain,
                max_suppressions: suppressions.max_suppressions,
                allow_targetless: suppressions.allow_targetless,
                max_xdr_depth: policy.max_xdr_depth,
                max_xdr_len: policy.max_xdr_len,
                max_entries: policy.max_entries,
                max_walk_depth: policy.max_walk_depth,
            },
            scope: AnalysisScope::default(),
            baseline_source: None,
            verified_code_hash: None,
            category_filter: CategoryFilter::default(),
            old_spec_summary: None,
            new_spec_summary: None,
            metrics: None,
            unmatched_suppressions,
            baseline_diff: None,
            diff_types: false,
            use_color: false,
        }
    }
}

} // verus!
