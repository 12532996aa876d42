//! What the report says to other programs.

use vstd::prelude::*;

use crate::diff::FindingView;
use crate::limits::ResourcePolicy;
use crate::report::findings;
use crate::report::findings::GroupView;
use crate::report::json;
use crate::report::json::SafetyReportJson;
use crate::report::order_laws;
use crate::report::override_laws;
use crate::report::safety;
use crate::report::safety::ReportView;
use crate::report::scope;
use crate::report::scope::ScopeJson;
use crate::report::scope::ScopeView;
use crate::report::scope::StorageScopeState;
use crate::suppression;
use crate::suppression::ConfigView;
use crate::suppression::SuppressionRuleView;

verus! {

/// The data tell the verdict and the numbers of the report, one by one.
pub proof fn the_data_tell_verdict_and_numbers(r: ReportView, data: SafetyReportJson<'_>)
    requires
        json::json_of(r, data),
    ensures
        data.is_safe <==> r.is_safe,
        data.strict <==> r.strict,
        data.verdict_changed_by_override <==> r.verdict_changed_by_override,
        data.counts.critical == r.critical_count,
        data.counts.warning == r.warning_count,
        data.counts.info == r.info_count,
        data.suppressed_count == r.suppressed_count,
        data.filtered_count == r.filtered_count,
        data.severity_overridden_count == r.severity_overridden_count,
        data.total_findings == r.total_findings,
        r.critical_count > 0 <==> data.recommended_bump@ == "major"@,
        r.critical_count == 0 && r.warning_count + r.info_count > 0 <==> data.recommended_bump@
            == "minor"@,
        r.critical_count + r.warning_count + r.info_count == 0 <==> data.recommended_bump@
            == "patch"@,
{
    reveal_strlit("major");
    reveal_strlit("minor");
    reveal_strlit("patch");
    assert("major"@[1] == 'a' && "minor"@[1] == 'i' && "patch"@[0] == 'p');
    assert("major"@[0] == 'm' && "minor"@[0] == 'm');
}

/// The data tell where the builds come from, their metrics, and how the findings
/// compare with an earlier report; what the report does not have, they do not have.
pub proof fn the_data_tell_the_origin(r: ReportView, data: SafetyReportJson<'_>)
    requires
        json::json_of(r, data),
    ensures
        data.baseline_source is Some <==> r.baseline_source is Some,
        data.baseline_source matches Some(t) ==> Some(t@) == r.baseline_source,
        data.verified_code_hash is Some <==> r.verified_code_hash is Some,
        data.verified_code_hash matches Some(t) ==> Some(t@) == r.verified_code_hash,
        data.metrics is Some <==> r.metrics is Some,
        data.metrics matches Some(m) ==> Some(*m) == r.metrics,
        data.baseline_diff is Some <==> r.baseline_diff is Some,
        data.baseline_diff matches Some(d) ==> Some(d@) == r.baseline_diff,
{
}

/// The data list every category once, by name, with its findings in the order in
/// which they were found.
pub proof fn the_data_list_every_category(r: ReportView, data: SafetyReportJson<'_>, i: int, j: int)
    requires
        json::json_of(r, data),
        0 <= i < j < r.groups.len(),
    ensures
        data.findings_by_category@.len() == r.groups.len(),
        order_laws::reads_before(
            data.findings_by_category@[i].0@,
            data.findings_by_category@[j].0@,
        ),
        ({
            let s = findings::name_order(r.groups);
            &&& order_laws::lists_each_once(s, r.groups.len() as int)
            &&& data.findings_by_category@[i].0@ == r.groups[s[i]].category
            &&& findings::reported_views(data.findings_by_category@[i].1@)
                == r.groups[s[i]].findings
            &&& data.findings_by_category@[j].0@ == r.groups[s[j]].category
            &&& findings::reported_views(data.findings_by_category@[j].1@)
                == r.groups[s[j]].findings
        }),
{
    order_laws::categories_are_listed_by_name(r.groups, i, j);
    assert(data.findings_by_category@[i].0@
        == r.groups[findings::name_order(r.groups)[i]].category);
    assert(data.findings_by_category@[j].0@
        == r.groups[findings::name_order(r.groups)[j]].category);
}

/// The data tell of every suppression rule that no finding called for what it is
/// written for.
pub proof fn the_data_tell_the_unused_rules(r: ReportView, data: SafetyReportJson<'_>, i: int)
    requires
        json::json_of(r, data),
        0 <= i < r.unmatched_suppressions.len(),
    ensures
        data.unmatched_suppressions@.len() == r.unmatched_suppressions.len(),
        data.unmatched_suppressions@[i].category@ == r.unmatched_suppressions[i].rule_id,
        data.unmatched_suppressions@[i].target is Some <==> r.unmatched_suppressions[i].target is Some,
        data.unmatched_suppressions@[i].target matches Some(t) ==> Some(t@)
            == r.unmatched_suppressions[i].target,
{
    let told = data.unmatched_suppressions@.map_values(|u: json::UnmatchedSuppressionJson| u@);
    let meant = r.unmatched_suppressions.map_values(
        |s: SuppressionRuleView| json::unmatched(s),
    );
    assert(told.len() == meant.len());
    assert(told[i] == meant[i]);
    assert(told[i] == data.unmatched_suppressions@[i]@);
}

/// The data on the scope say that the storage was analysed exactly where it was, and
/// then how many types were declared.
pub proof fn the_data_tell_the_scope(s: ScopeView, data: ScopeJson)
    requires
        scope::scope_json_of(s, data),
    ensures
        data.storage_layout_analyzed <==> s.storage_schema is Analyzed,
        s.storage_schema is NotAnalyzed ==> data.storage_key_types is None
            && data.storage_value_types is None,
        s.storage_schema matches StorageScopeState::Analyzed { key_types, value_types } ==>
            data.storage_key_types == Some(key_types) && data.storage_value_types == Some(
            value_types,
        ),
        data.exported_interface_analyzed <==> s.exported_interface,
        data.env_metadata_analyzed <==> s.env_metadata,
        data.old_spec_section_count == s.old_spec_section_count,
        data.new_spec_section_count == s.new_spec_section_count,
        data.old_duplicate_names@.len() == s.old_duplicate_names.len(),
        data.new_duplicate_names@.len() == s.new_duplicate_names.len(),
        forall|i: int|
            0 <= i < s.old_duplicate_names.len() ==> (#[trigger] data.old_duplicate_names@[i])@
                == s.old_duplicate_names[i],
        forall|i: int|
            0 <= i < s.new_duplicate_names.len() ==> (#[trigger] data.new_duplicate_names@[i])@
                == s.new_duplicate_names[i],
{
    let old = crate::text::views(data.old_duplicate_names@);
    let new = crate::text::views(data.new_duplicate_names@);
    assert(old.len() == data.old_duplicate_names@.len());
    assert(new.len() == data.new_duplicate_names@.len());
    assert forall|i: int| 0 <= i < s.old_duplicate_names.len() implies (
    #[trigger] data.old_duplicate_names@[i])@ == s.old_duplicate_names[i] by {
        assert(old[i] == data.old_duplicate_names@[i]@);
    }
    assert forall|i: int| 0 <= i < s.new_duplicate_names.len() implies (
    #[trigger] data.new_duplicate_names@[i])@ == s.new_duplicate_names[i] by {
        assert(new[i] == data.new_duplicate_names@[i]@);
    }
}

/// A group is found by its category: the one that is given has it, and none is given
/// exactly where no group has it.
pub proof fn a_group_is_found_by_its_category(groups: Seq<GroupView>, category: Seq<char>)
    ensures
        findings::group_at(groups, category) matches Some(i) ==> 0 <= i < groups.len()
            && groups[i].category == category,
        findings::group_at(groups, category) is None <==> forall|i: int|
            0 <= i < groups.len() ==> (#[trigger] groups[i]).category != category,
{
    findings::lemma_group_from(groups, category, 0);
}

/// Whether the finding at `k` is acknowledged by the rule at `i` and by none before.
pub open spec fn calls_for(
    found: Seq<FindingView>,
    k: int,
    rules: Seq<SuppressionRuleView>,
    i: int,
) -> bool {
    &&& 0 <= k < found.len()
    &&& suppression::acknowledges(rules[i], found[k])
    &&& forall|j: int| 0 <= j < i ==> !suppression::acknowledges(#[trigger] rules[j], found[k])
}

/// A suppression rule is reported as unused exactly where it is not the first one to
/// acknowledge any finding.
pub proof fn a_rule_is_unused_where_no_finding_called_for_it(
    found: Seq<FindingView>,
    config: ConfigView,
    explain: bool,
    strict: bool,
    policy: ResourcePolicy,
)
    ensures
        ({
            let unused = safety::report_on(
                found,
                config,
                explain,
                strict,
                policy,
            ).unmatched_suppressions;
            &&& forall|i: int|
                #![trigger config.rules[i]]
                0 <= i < config.rules.len() && (forall|k: int| !#[trigger] calls_for(found, k, config.rules, i))
                    ==> unused.contains(config.rules[i])
            &&& forall|n: int|
                0 <= n < unused.len() ==> exists|i: int|
                    0 <= i < config.rules.len() && config.rules[i] == (#[trigger] unused[n]) && (
                    forall|k: int| !#[trigger] calls_for(found, k, config.rules, i))
        }),
{
    override_laws::unused_rules_are_reported(found, config, explain, strict, policy);
    let unused = safety::report_on(found, config, explain, strict, policy).unmatched_suppressions;
    assert forall|i: int| 0 <= i < config.rules.len() implies (#[trigger] safety::rule_is_used(
        found,
        config.rules,
        i,
    ) <==> exists|k: int| #[trigger] calls_for(found, k, config.rules, i)) by {
        if safety::rule_is_used(found, config.rules, i) {
            let k = choose|k: int|
                0 <= k < found.len() && suppression::matching_rule(config.rules, #[trigger] found[k])
                    == Some(i);
            suppression::the_first_matching_rule_counts(config.rules, found[k]);
            assert(calls_for(found, k, config.rules, i));
        }
        if exists|k: int| #[trigger] calls_for(found, k, config.rules, i) {
            let k = choose|k: int| #[trigger] calls_for(found, k, config.rules, i);
            suppression::the_first_matching_rule_counts(config.rules, found[k]);
            assert(suppression::matching_rule(config.rules, found[k]) == Some(i));
        }
    }
    assert forall|i: int|
        #![trigger config.rules[i]]
        0 <= i < config.rules.len() && (forall|k: int| !#[trigger] calls_for(found, k, config.rules, i)) implies
        unused.contains(config.rules[i]) by {
        assert(!safety::rule_is_used(found, config.rules, i));
    }
    assert forall|n: int| 0 <= n < unused.len() implies exists|i: int|
        0 <= i < config.rules.len() && config.rules[i] == (#[trigger] unused[n]) && (forall|k: int|
            !#[trigger] calls_for(found, k, config.rules, i)) by {
        let i = choose|i: int|
            0 <= i < config.rules.len() && !#[trigger] safety::rule_is_used(found, config.rules, i)
                && config.rules[i] == unused[n];
        assert(config.rules[i] == unused[n]);
        assert(forall|k: int| !#[trigger] calls_for(found, k, config.rules, i));
    }
}

} // verus!
