//! What the numbers of a report count, and what a filter leaves.

use vstd::prelude::*;

use crate::diff::FindingView;
use crate::diff::Severity;
use crate::limits::ResourcePolicy;
use crate::report::filter::FilterView;
use crate::report::filtering;
use crate::report::findings::GroupView;
use crate::report::findings::ReportedView;
use crate::report::laws;
use crate::report::safety;
use crate::report::safety::ReportView;
use crate::suppression;
use crate::suppression::ConfigView;

verus! {

proof fn lemma_counted(
    found: Seq<FindingView>,
    config: ConfigView,
    explain: bool,
    p: spec_fn(ReportedView) -> bool,
    q: spec_fn(FindingView) -> bool,
    n: int,
)
    requires
        0 <= n <= found.len(),
        forall|f: FindingView| p(#[trigger] safety::reported(f, config, explain)) == q(f),
    ensures
        safety::count(safety::listed(found, config, explain), p, n) == found.take(n).filter(q).len(),
    decreases n,
{
    reveal(Seq::filter);
    if n > 0 {
        lemma_counted(found, config, explain, p, q, n - 1);
        assert(found.take(n).drop_last() =~= found.take(n - 1));
        let f = found[n - 1];
        assert(safety::listed(found, config, explain)[n - 1] == safety::reported(
            f,
            config,
            explain,
        ));
        assert(found.take(n).last() == f);
    } else {
        assert(found.take(0).filter(q).len() == 0);
    }
}

/// The numbers of a report count the findings of the comparison: by the severity
/// at which each one counts, by whether a rule acknowledges it, and by whether its
/// severity was changed.
pub proof fn the_numbers_count_the_findings(
    found: Seq<FindingView>,
    config: ConfigView,
    explain: bool,
    strict: bool,
    policy: ResourcePolicy,
)
    ensures
        ({
            let r = safety::report_on(found, config, explain, strict, policy);
            &&& r.critical_count == found.filter(
                |f: FindingView| safety::effective_severity(f, config) == Severity::Critical,
            ).len()
            &&& r.warning_count == found.filter(
                |f: FindingView| safety::effective_severity(f, config) == Severity::Warning,
            ).len()
            &&& r.info_count == found.filter(
                |f: FindingView| safety::effective_severity(f, config) == Severity::Info,
            ).len()
            &&& r.suppressed_count == found.filter(
                |f: FindingView| suppression::matching_rule(config.rules, f) is Some,
            ).len()
            &&& r.suppressed_critical_count == found.filter(
                |f: FindingView|
                    suppression::matching_rule(config.rules, f) is Some
                        && safety::effective_severity(f, config) == Severity::Critical,
            ).len()
            &&& r.severity_overridden_count == found.filter(
                |f: FindingView| safety::effective_severity(f, config) != f.severity,
            ).len()
        }),
{
    let n = found.len() as int;
    assert(found.take(n) =~= found);
    let critical = |f: FindingView| safety::effective_severity(f, config) == Severity::Critical;
    let warning = |f: FindingView| safety::effective_severity(f, config) == Severity::Warning;
    let info = |f: FindingView| safety::effective_severity(f, config) == Severity::Info;
    let matched = |f: FindingView| suppression::matching_rule(config.rules, f) is Some;
    let matched_critical = |f: FindingView|
        suppression::matching_rule(config.rules, f) is Some && safety::effective_severity(f, config)
            == Severity::Critical;
    let changed = |f: FindingView| safety::effective_severity(f, config) != f.severity;
    lemma_counted(found, config, explain, safety::at(Severity::Critical), critical, n);
    lemma_counted(found, config, explain, safety::at(Severity::Warning), warning, n);
    lemma_counted(found, config, explain, safety::at(Severity::Info), info, n);
    lemma_counted(found, config, explain, safety::acknowledged(), matched, n);
    lemma_counted(
        found,
        config,
        explain,
        safety::acknowledged_at(Severity::Critical),
        matched_critical,
        n,
    );
    lemma_counted(found, config, explain, safety::overridden(), changed, n);
}

/// The upgrade is safe exactly where every finding that no rule acknowledges counts
/// less than critical, and in strict mode less than a warning.
pub proof fn the_verdict_weighs_unacknowledged_findings(
    found: Seq<FindingView>,
    config: ConfigView,
    explain: bool,
    strict: bool,
    policy: ResourcePolicy,
)
    ensures
        safety::report_on(found, config, explain, strict, policy).is_safe <==> forall|k: int|
            0 <= k < found.len() && suppression::matching_rule(
                config.rules,
                #[trigger] found[k],
            ) is None ==> safety::effective_severity(found[k], config) == Severity::Info || !strict
                && safety::effective_severity(found[k], config) == Severity::Warning,
{
    laws::the_verdict_is_that_nothing_fails(found, config, explain, strict, policy);
    let safe = safety::report_on(found, config, explain, strict, policy).is_safe;
    if safe {
        assert forall|k: int|
            0 <= k < found.len() && suppression::matching_rule(
                config.rules,
                #[trigger] found[k],
            ) is None implies safety::effective_severity(found[k], config) == Severity::Info
            || !strict && safety::effective_severity(found[k], config) == Severity::Warning by {
            assert(!laws::fails(safety::reported(found[k], config, explain), strict));
        }
    } else {
        let k = choose|k: int|
            0 <= k < found.len() && laws::fails(
                safety::reported(#[trigger] found[k], config, explain),
                strict,
            );
        assert(suppression::matching_rule(config.rules, found[k]) is None);
    }
}

/// The findings of some groups, one group behind the other.
pub open spec fn all_of(groups: Seq<GroupView>) -> Seq<ReportedView>
    decreases groups.len(),
{
    if groups.len() == 0 {
        Seq::empty()
    } else {
        all_of(groups.drop_last()) + groups.last().findings
    }
}

pub(crate) proof fn lemma_filter_of_list(list: Seq<ReportedView>, p: spec_fn(ReportedView) -> bool, n: int)
    requires
        0 <= n <= list.len(),
    ensures
        safety::count(list, p, n) == list.take(n).filter(p).len(),
    decreases n,
{
    reveal(Seq::filter);
    if n > 0 {
        lemma_filter_of_list(list, p, n - 1);
        assert(list.take(n).drop_last() =~= list.take(n - 1));
        assert(list.take(n).last() == list[n - 1]);
    } else {
        assert(list.take(0).filter(p).len() == 0);
    }
}

pub(crate) proof fn lemma_filter_of_groups(groups: Seq<GroupView>, p: spec_fn(ReportedView) -> bool, n: int)
    requires
        0 <= n <= groups.len(),
    ensures
        safety::count_groups(groups, p, n) == all_of(groups.take(n)).filter(p).len(),
    decreases n,
{
    reveal(Seq::filter);
    if n > 0 {
        lemma_filter_of_groups(groups, p, n - 1);
        assert(groups.take(n).drop_last() =~= groups.take(n - 1));
        let list = groups[n - 1].findings;
        lemma_filter_of_list(list, p, list.len() as int);
        assert(list.take(list.len() as int) =~= list);
        Seq::filter_distributes_over_add(all_of(groups.take(n - 1)), list, p);
        assert(all_of(groups.take(n)) == all_of(groups.take(n - 1)) + list);
        let whole = all_of(groups.take(n)).filter(p);
        assert(whole == all_of(groups.take(n - 1)).filter(p) + list.filter(p));
    } else {
        assert(all_of(groups.take(0)).filter(p).len() == 0);
    }
}

/// Whether a filter lets a category through: it does not exclude it, and where it
/// names categories to show, it names this one.
pub open spec fn lets_through(f: FilterView, category: Seq<char>) -> bool {
    &&& forall|i: int| 0 <= i < f.exclude.len() ==> (#[trigger] f.exclude[i]) != category
    &&& match f.include_only {
        Some(names) => names.len() == 0 || exists|i: int|
            0 <= i < names.len() && (#[trigger] names[i]) == category,
        None => true,
    }
}

/// A filter shows exactly the categories that it lets through.
pub proof fn a_filter_shows_what_it_lets_through(f: FilterView, category: Seq<char>)
    ensures
        crate::report::filter::shows(f, category) <==> lets_through(f, category),
{
    if lets_through(f, category) {
        if f.exclude.contains(category) {
            let i = choose|i: int| 0 <= i < f.exclude.len() && f.exclude[i] == category;
            assert(f.exclude[i] != category);
        }
    }
    if crate::report::filter::shows(f, category) {
        assert forall|i: int| 0 <= i < f.exclude.len() implies (#[trigger] f.exclude[i])
            != category by {
            if f.exclude[i] == category {
                assert(f.exclude.contains(category));
            }
        }
    }
}

proof fn lemma_shown(groups: Seq<GroupView>, f: FilterView, n: int)
    requires
        0 <= n <= groups.len(),
    ensures
        filtering::shown_groups(groups, f, n) == groups.take(n).filter(
            |g: GroupView| lets_through(f, g.category),
        ),
    decreases n,
{
    let p = |g: GroupView| lets_through(f, g.category);
    reveal(Seq::filter);
    if n > 0 {
        lemma_shown(groups, f, n - 1);
        assert(groups.take(n).drop_last() =~= groups.take(n - 1));
        assert(groups.take(n).last() == groups[n - 1]);
        a_filter_shows_what_it_lets_through(f, groups[n - 1].category);
    } else {
        assert(groups.take(0).filter(p) =~= Seq::<GroupView>::empty());
    }
}

/// A filter leaves the groups of the categories that it lets through, whole and in
/// their order; the numbers and the verdict are then those of what is left, and
/// nothing else of the report changes.
pub proof fn a_filter_leaves_whole_categories(r: ReportView, f: FilterView)
    ensures
        ({
            let left = filtering::filtered(r, f);
            let list = all_of(left.groups);
            &&& left.groups == r.groups.filter(|g: GroupView| lets_through(f, g.category))
            &&& left.critical_count == list.filter(
                |x: ReportedView| x.finding.severity == Severity::Critical,
            ).len()
            &&& left.warning_count == list.filter(
                |x: ReportedView| x.finding.severity == Severity::Warning,
            ).len()
            &&& left.info_count == list.filter(
                |x: ReportedView| x.finding.severity == Severity::Info,
            ).len()
            &&& left.severity_overridden_count == list.filter(
                |x: ReportedView| x.original_severity is Some,
            ).len()
            &&& left.is_safe <==> list.filter(
                |x: ReportedView|
                    !x.suppressed && (x.finding.severity == Severity::Critical || r.strict
                        && x.finding.severity == Severity::Warning),
            ).len() == 0
            &&& left.total_findings == r.total_findings
            &&& left.suppressed_count == r.suppressed_count
            &&& left.suppressed_critical_count == r.suppressed_critical_count
            &&& left.strict == r.strict
            &&& left.settings == r.settings
            &&& left.scope == r.scope
            &&& left.baseline_source == r.baseline_source
            &&& left.verified_code_hash == r.verified_code_hash
            &&& left.metrics == r.metrics
            &&& left.unmatched_suppressions == r.unmatched_suppressions
            &&& left.baseline_diff == r.baseline_diff
            &&& left.old_spec_summary == r.old_spec_summary
            &&& left.new_spec_summary == r.new_spec_summary
            &&& left.diff_types == r.diff_types
            &&& left.use_color == r.use_color
            &&& left.category_filter == f
        }),
{
    let left = filtering::filtered(r, f);
    let groups = left.groups;
    let n = groups.len() as int;
    lemma_shown(r.groups, f, r.groups.len() as int);
    assert(r.groups.take(r.groups.len() as int) =~= r.groups);
    assert(groups.take(n) =~= groups);
    lemma_filter_of_groups(groups, safety::at(Severity::Critical), n);
    lemma_filter_of_groups(groups, safety::at(Severity::Warning), n);
    lemma_filter_of_groups(groups, safety::at(Severity::Info), n);
    lemma_filter_of_groups(groups, safety::overridden(), n);
    assert(safety::at(Severity::Critical) =~= (|x: ReportedView|
        x.finding.severity == Severity::Critical));
    assert(safety::at(Severity::Warning) =~= (|x: ReportedView|
        x.finding.severity == Severity::Warning));
    assert(safety::at(Severity::Info) =~= (|x: ReportedView| x.finding.severity == Severity::Info));
    assert(safety::overridden() =~= (|x: ReportedView| x.original_severity is Some));
    let failing = |x: ReportedView|
        !x.suppressed && (x.finding.severity == Severity::Critical || r.strict
            && x.finding.severity == Severity::Warning);
    lemma_filter_of_groups(groups, failing, n);
    lemma_failing(groups, r.strict, n);
}

proof fn lemma_failing_list(list: Seq<ReportedView>, strict: bool, n: int)
    ensures
        safety::count(
            list,
            |x: ReportedView|
                !x.suppressed && (x.finding.severity == Severity::Critical || strict
                    && x.finding.severity == Severity::Warning),
            n,
        ) == safety::count(list, safety::failing_at(Severity::Critical), n) + (if strict {
            safety::count(list, safety::failing_at(Severity::Warning), n)
        } else {
            0
        }),
    decreases n,
{
    if n > 0 {
        lemma_failing_list(list, strict, n - 1);
    }
}

proof fn lemma_failing(groups: Seq<GroupView>, strict: bool, n: int)
    ensures
        safety::count_groups(
            groups,
            |x: ReportedView|
                !x.suppressed && (x.finding.severity == Severity::Critical || strict
                    && x.finding.severity == Severity::Warning),
            n,
        ) == safety::count_groups(groups, safety::failing_at(Severity::Critical), n) + (if strict {
            safety::count_groups(groups, safety::failing_at(Severity::Warning), n)
        } else {
            0
        }),
    decreases n,
{
    if n > 0 {
        lemma_failing(groups, strict, n - 1);
        lemma_failing_list(groups[n - 1].findings, strict, groups[n - 1].findings.len() as int);
    }
}

} // verus!
