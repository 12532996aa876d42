//! How a finding of a comparison comes into the report.

use vstd::prelude::*;

use crate::diff::FindingView;
use crate::diff::Severity;
use crate::limits::ResourcePolicy;
use crate::report::count_laws;
use crate::report::safety;
use crate::rule_laws;
use crate::rules;
use crate::severity_override;
use crate::suppression;
use crate::suppression::ConfigView;
use crate::suppression_laws;

verus! {

/// A finding is reported as it was found: with its category, its message, its
/// target and what else is known of it. Only its severity may be another one, and
/// then the one that the analysis gave is kept beside it.
pub proof fn a_finding_is_reported_as_it_was_found(
    f: FindingView,
    config: ConfigView,
    explain: bool,
)
    ensures
        ({
            let r = safety::reported(f, config, explain);
            &&& r.finding.category == f.category
            &&& r.finding.message == f.message
            &&& r.finding.target == f.target
            &&& r.finding.subject_type == f.subject_type
            &&& r.finding.classification == f.classification
            &&& r.fingerprint == suppression::fingerprint(f)
            &&& match severity_override::override_for(config.overrides, f.category) {
                Some(s) => r.finding.severity == s,
                None => r.finding.severity == f.severity,
            }
            &&& r.original_severity is Some <==> r.finding.severity != f.severity
            &&& r.original_severity is Some ==> r.original_severity == Some(f.severity)
            &&& r.baseline_status is None
        }),
{
}

/// A finding is acknowledged exactly where a rule matches it, and carries what the
/// first such rule says of itself; an unacknowledged finding carries nothing of the
/// kind.
pub proof fn an_acknowledged_finding_carries_its_rule(
    f: FindingView,
    config: ConfigView,
    explain: bool,
    i: int,
)
    requires
        0 <= i <= config.rules.len(),
        forall|j: int|
            0 <= j < i ==> !suppression::acknowledges(#[trigger] config.rules[j], f),
        i < config.rules.len() ==> suppression::acknowledges(config.rules[i], f),
    ensures
        ({
            let r = safety::reported(f, config, explain);
            &&& r.suppressed <==> i < config.rules.len()
            &&& r.suppressed ==> {
                let rule = config.rules[i];
                &&& r.suppression_reason == rule.reason
                &&& r.suppression_author == rule.author
                &&& r.suppression_expiry == rule.expiry
                &&& r.suppression_fingerprint == rule.fingerprint
            }
            &&& !r.suppressed ==> r.suppression_reason is None && r.suppression_author is None
                && r.suppression_expiry is None && r.suppression_fingerprint is None
        }),
{
    suppression::the_first_matching_rule_counts(config.rules, f);
    if i < config.rules.len() {
        let m = suppression::matching_rule(config.rules, f)->0;
        assert(suppression::acknowledges(config.rules[i], f));
        if m < i {
            assert(!suppression::acknowledges(config.rules[m], f));
        }
    } else if suppression::matching_rule(config.rules, f) is Some {
        let m = suppression::matching_rule(config.rules, f)->0;
        assert(!suppression::acknowledges(config.rules[m], f));
    }
}

/// A finding of a rule has the id of that rule, and a finding of a category that no
/// rule has goes by its category. Guidance is given exactly where it is asked for
/// and a rule has it, and is then that of the rule.
pub proof fn a_finding_goes_by_its_rule(f: FindingView, config: ConfigView, explain: bool, i: int)
    requires
        0 <= i < rules::RULE_COUNT,
        f.category == rules::RULE_LABELS@[i]@,
    ensures
        safety::reported(f, config, explain).rule_id == rules::RULE_IDS@[i]@,
        safety::reported(f, config, explain).remediation == (if explain {
            Some(rules::RULE_GUIDANCE@[i]@)
        } else {
            None
        }),
        safety::guidance(rules::RULE_IDS@[i]@) == Some(rules::RULE_GUIDANCE@[i]),
        safety::guidance(rules::RULE_LABELS@[i]@) == Some(rules::RULE_GUIDANCE@[i]),
{
    let rule = rules::rule_at(i);
    rule_laws::a_rule_is_found_by_its_names(f.category, i);
    rule_laws::a_rule_is_found_by_its_names(rule.id@, i);
    rule_laws::other_names_find_no_rule(f.category);
    if rules::rule_with_id(f.category) is Some {
        let j = choose|j: int|
            0 <= j < rules::RULE_COUNT && (#[trigger] rules::RULE_IDS@[j])@ == f.category;
        rule_laws::every_rule_has_names_of_its_own(i, j);
    }
}

/// A name that no rule has finds no guidance, and stays the id of its findings.
pub proof fn other_categories_have_no_guidance(f: FindingView, config: ConfigView, explain: bool)
    requires
        forall|i: int|
            0 <= i < rules::RULE_COUNT ==> (#[trigger] rules::rule_at(i)).id@ != f.category
                && rules::rule_at(i).label@ != f.category,
    ensures
        safety::reported(f, config, explain).rule_id == f.category,
        safety::reported(f, config, explain).remediation is None,
        safety::guidance(f.category) is None,
{
    rule_laws::other_names_find_no_rule(f.category);
    if rules::rule_with_id(f.category) is Some {
        let j = choose|j: int|
            0 <= j < rules::RULE_COUNT && (#[trigger] rules::RULE_IDS@[j])@ == f.category;
        assert(rules::rule_at(j).id@ == f.category);
    }
}

/// A critical finding whose severity no table changes stands in the way of a safe
/// verdict, unless some rule fits it in target and fingerprint.
pub proof fn a_critical_finding_needs_a_rule_of_its_own(
    found: Seq<FindingView>,
    config: ConfigView,
    explain: bool,
    strict: bool,
    policy: ResourcePolicy,
    k: int,
)
    requires
        0 <= k < found.len(),
        found[k].severity == Severity::Critical,
        severity_override::override_for(config.overrides, found[k].category) is None,
        forall|i: int|
            0 <= i < config.rules.len() ==> ((#[trigger] config.rules[i]).target is Some
                && config.rules[i].target != found[k].target) || (
            config.rules[i].fingerprint is Some && config.rules[i].fingerprint != Some(
                suppression::fingerprint(found[k]),
            )),
    ensures
        !safety::report_on(found, config, explain, strict, policy).is_safe,
{
    assert forall|i: int| 0 <= i < config.rules.len() implies !suppression_laws::fits(
        #[trigger] config.rules[i],
        found[k],
    ) by {}
    suppression_laws::an_acknowledged_finding_has_its_rule(config.rules, found[k]);
    count_laws::the_verdict_weighs_unacknowledged_findings(found, config, explain, strict, policy);
}

/// The report keeps what the run was asked for and claims no more than the
/// narrowest scope, no source, no measures and no earlier report.
pub proof fn a_report_starts_out_bare(
    found: Seq<FindingView>,
    config: ConfigView,
    explain: bool,
    strict: bool,
    policy: ResourcePolicy,
)
    ensures
        ({
            let r = safety::report_on(found, config, explain, strict, policy);
            &&& r.strict == strict && r.settings.strict == strict
            &&& r.settings.explain == explain
            &&& r.settings.max_suppressions == config.max_suppressions
            &&& r.settings.allow_targetless == config.allow_targetless
            &&& r.settings.max_xdr_depth == policy.max_xdr_depth
            &&& r.settings.max_xdr_len == policy.max_xdr_len
            &&& r.settings.max_entries == policy.max_entries
            &&& r.settings.max_walk_depth == policy.max_walk_depth
            &&& r.scope.exported_interface && !r.scope.env_metadata
            &&& r.scope.storage_schema is NotAnalyzed
            &&& r.scope.old_spec_section_count == 0 && r.scope.new_spec_section_count == 0
            &&& r.scope.old_duplicate_names.len() == 0 && r.scope.new_duplicate_names.len() == 0
            &&& r.baseline_source is None && r.verified_code_hash is None
            &&& r.old_spec_summary is None && r.new_spec_summary is None
            &&& r.metrics is None && r.baseline_diff is None
            &&& !r.diff_types && !r.use_color
            &&& r.category_filter.include_only is None && r.category_filter.exclude.len() == 0
        }),
{
}

} // verus!
