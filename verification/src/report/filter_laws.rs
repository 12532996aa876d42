//! What a filter leaves of a report.

use vstd::prelude::*;

use crate::diff::FindingView;
use crate::diff::Severity;
use crate::limits::ResourcePolicy;
use crate::report::filter;
use crate::report::filter::FilterView;
use crate::report::filtering;
use crate::report::findings;
use crate::report::findings::GroupView;
use crate::report::findings::ReportedView;
use crate::report::laws;
use crate::report::safety;
use crate::report::safety::ReportView;
use crate::suppression::ConfigView;

verus! {

proof fn lemma_severities_add_up_in(groups: Seq<GroupView>, n: int)
    ensures
        safety::count_groups(groups, safety::at(Severity::Critical), n) + safety::count_groups(
            groups,
            safety::at(Severity::Warning),
            n,
        ) + safety::count_groups(groups, safety::at(Severity::Info), n) == findings::findings_in(
            groups,
            n,
        ),
    decreases n,
{
    if n > 0 {
        lemma_severities_add_up_in(groups, n - 1);
        laws::lemma_severities_add_up(
            groups[n - 1].findings,
            groups[n - 1].findings.len() as int,
        );
    }
}

proof fn lemma_grouped_total(list: Seq<ReportedView>, n: int)
    requires
        0 <= n <= list.len(),
    ensures
        findings::total_findings(safety::grouped(list, n)) == n,
    decreases n,
{
    if n > 0 {
        lemma_grouped_total(list, n - 1);
        findings::lemma_filing_adds_one(
            safety::grouped(list, n - 1),
            list[n - 1].finding.category,
            list[n - 1],
        );
    }
}

/// Whether the counts of a report account for every finding: those that it lists,
/// by severity, and those that were hidden.
pub open spec fn accounts_for_all(r: ReportView) -> bool {
    &&& r.critical_count + r.warning_count + r.info_count + r.filtered_count == r.total_findings
    &&& findings::total_findings(r.groups) + r.filtered_count == r.total_findings
}

/// No finding is lost in silence: however often a report was filtered before, the
/// findings that a filter leaves and the ones that are hidden are all the
/// findings.
pub proof fn hidden_findings_are_counted(r: ReportView, f: FilterView)
    requires
        findings::total_findings(r.groups) <= r.total_findings,
    ensures
        filtering::filtered(r, f).total_findings == r.total_findings,
        accounts_for_all(filtering::filtered(r, f)),
{
    let left = filtering::shown_groups(r.groups, f, r.groups.len() as int);
    filtering::lemma_no_more_shown(r.groups, f, r.groups.len() as int);
    lemma_severities_add_up_in(left, left.len() as int);
}

/// A report that was not filtered yet lists every finding.
pub proof fn a_report_accounts_for_its_findings(
    found: Seq<FindingView>,
    config: ConfigView,
    explain: bool,
    strict: bool,
    policy: ResourcePolicy,
)
    ensures
        ({
            let r = safety::report_on(found, config, explain, strict, policy);
            &&& r.total_findings == found.len()
            &&& r.filtered_count == 0
            &&& accounts_for_all(r)
        }),
{
    let list = safety::listed(found, config, explain);
    lemma_grouped_total(list, list.len() as int);
    laws::lemma_severities_add_up(list, list.len() as int);
}

/// Whatever filters a report went through, its counts account for every finding
/// of the comparison.
pub proof fn every_finding_is_accounted_for(
    found: Seq<FindingView>,
    config: ConfigView,
    explain: bool,
    strict: bool,
    policy: ResourcePolicy,
    filters: Seq<FilterView>,
)
    ensures
        ({
            let r = filtering::filtered_by(
                safety::report_on(found, config, explain, strict, policy),
                filters,
            );
            r.total_findings == found.len() && accounts_for_all(r)
        }),
    decreases filters.len(),
{
    if filters.len() == 0 {
        a_report_accounts_for_its_findings(found, config, explain, strict, policy);
    } else {
        let before = filters.drop_last();
        every_finding_is_accounted_for(found, config, explain, strict, policy, before);
        hidden_findings_are_counted(
            filtering::filtered_by(
                safety::report_on(found, config, explain, strict, policy),
                before,
            ),
            filters.last(),
        );
    }
}

proof fn lemma_all_shown(groups: Seq<GroupView>, f: FilterView, n: int)
    requires
        0 <= n <= groups.len(),
        forall|i: int|
            0 <= i < n ==> filter::shows(f, (#[trigger] groups[i]).category),
    ensures
        filtering::shown_groups(groups, f, n) == groups.take(n),
    decreases n,
{
    if n > 0 {
        lemma_all_shown(groups, f, n - 1);
        assert(groups.take(n - 1).push(groups[n - 1]) =~= groups.take(n));
    } else {
        assert(groups.take(0) =~= Seq::<GroupView>::empty());
    }
}

/// The filter that shows everything changes nothing of a report.
pub proof fn the_open_filter_changes_nothing(
    found: Seq<FindingView>,
    config: ConfigView,
    explain: bool,
    strict: bool,
    policy: ResourcePolicy,
)
    ensures
        ({
            let r = safety::report_on(found, config, explain, strict, policy);
            filtering::filtered(r, filter::no_filter()) == r
        }),
{
    let r = safety::report_on(found, config, explain, strict, policy);
    let n = r.groups.len() as int;
    lemma_all_shown(r.groups, filter::no_filter(), n);
    a_report_accounts_for_its_findings(found, config, explain, strict, policy);
    assert(r.groups.take(n) =~= r.groups);
    laws::grouping_keeps_every_count(
        found,
        config,
        explain,
        strict,
        policy,
        safety::at(Severity::Critical),
    );
    laws::grouping_keeps_every_count(
        found,
        config,
        explain,
        strict,
        policy,
        safety::at(Severity::Warning),
    );
    laws::grouping_keeps_every_count(
        found,
        config,
        explain,
        strict,
        policy,
        safety::at(Severity::Info),
    );
    laws::grouping_keeps_every_count(
        found,
        config,
        explain,
        strict,
        policy,
        safety::overridden(),
    );
    laws::grouping_keeps_every_count(
        found,
        config,
        explain,
        strict,
        policy,
        safety::failing_at(Severity::Critical),
    );
    laws::grouping_keeps_every_count(
        found,
        config,
        explain,
        strict,
        policy,
        safety::failing_at(Severity::Warning),
    );
    laws::grouping_keeps_every_count(
        found,
        config,
        explain,
        strict,
        policy,
        safety::engine_failing_at(Severity::Critical),
    );
    laws::grouping_keeps_every_count(
        found,
        config,
        explain,
        strict,
        policy,
        safety::engine_failing_at(Severity::Warning),
    );
}

/// A group whose category the filter shows is shown.
proof fn lemma_group_is_shown(groups: Seq<GroupView>, f: FilterView, n: int, i: int)
    requires
        0 <= i < n <= groups.len(),
        filter::shows(f, groups[i].category),
    ensures
        exists|j: int|
            0 <= j < filtering::shown_groups(groups, f, n).len() && groups[i] == (
            #[trigger] filtering::shown_groups(groups, f, n)[j]),
    decreases n,
{
    let before = filtering::shown_groups(groups, f, n - 1);
    let list = filtering::shown_groups(groups, f, n);
    if i == n - 1 {
        assert(list[before.len() as int] == groups[i]);
    } else {
        lemma_group_is_shown(groups, f, n - 1, i);
        let j = choose|j: int| 0 <= j < before.len() && groups[i] == (#[trigger] before[j]);
        assert(list[j] == before[j]);
    }
}

/// Filtering once more with the same filter changes nothing more.
pub proof fn filtering_twice_is_filtering_once(r: ReportView, f: FilterView)
    ensures
        filtering::filtered(filtering::filtered(r, f), f) == filtering::filtered(r, f),
{
    let n = r.groups.len() as int;
    let left = filtering::shown_groups(r.groups, f, n);
    assert forall|j: int| 0 <= j < left.len() implies filter::shows(
        f,
        (#[trigger] left[j]).category,
    ) by {
        filtering::lemma_shown_are_groups(r.groups, f, n, j);
    }
    lemma_all_shown(left, f, left.len() as int);
    assert(left.take(left.len() as int) =~= left);
}

proof fn lemma_nothing_counted_in(groups: Seq<GroupView>, p: spec_fn(ReportedView) -> bool, n: int)
    requires
        0 <= n <= groups.len(),
    ensures
        safety::count_groups(groups, p, n) == 0 <==> forall|i: int, k: int|
            0 <= i < n && 0 <= k < groups[i].findings.len() ==> !p(
                #[trigger] groups[i].findings[k],
            ),
    decreases n,
{
    if n > 0 {
        lemma_nothing_counted_in(groups, p, n - 1);
        let list = groups[n - 1].findings;
        laws::lemma_nothing_counted(list, p, list.len() as int);
        if safety::count_groups(groups, p, n) == 0 {
            assert forall|i: int, k: int|
                0 <= i < n && 0 <= k < groups[i].findings.len() implies !p(
                #[trigger] groups[i].findings[k],
            ) by {
                if i == n - 1 {
                    assert(!p(list[k]));
                }
            }
        } else if safety::count_all(list, p) != 0 {
            let k = choose|k: int| 0 <= k < list.len() && p(#[trigger] list[k]);
            assert(p(groups[n - 1].findings[k]));
        }
    }
}

/// The verdict of a filtered report is that of what is left to see: safe exactly
/// where no finding of a shown category fails.
pub proof fn the_verdict_is_that_of_what_is_shown(
    found: Seq<FindingView>,
    config: ConfigView,
    explain: bool,
    strict: bool,
    policy: ResourcePolicy,
    f: FilterView,
)
    ensures
        filtering::filtered(
            safety::report_on(found, config, explain, strict, policy),
            f,
        ).is_safe <==> forall|k: int|
            0 <= k < found.len() && filter::shows(f, (#[trigger] found[k]).category)
                ==> !laws::fails(safety::reported(found[k], config, explain), strict),
{
    let list = safety::listed(found, config, explain);
    let n = list.len() as int;
    let groups = safety::grouped(list, n);
    let left = filtering::shown_groups(groups, f, groups.len() as int);
    let critical = safety::failing_at(Severity::Critical);
    let warning = safety::failing_at(Severity::Warning);
    laws::lemma_grouped_sorts_out(list, n);
    assert(list.take(n) =~= list);
    lemma_nothing_counted_in(left, critical, left.len() as int);
    lemma_nothing_counted_in(left, warning, left.len() as int);
    let safe = filtering::filtered(
        safety::report_on(found, config, explain, strict, policy),
        f,
    ).is_safe;
    if safe {
        assert forall|k: int|
            0 <= k < found.len() && filter::shows(f, (#[trigger] found[k]).category) implies !laws::fails(
            safety::reported(found[k], config, explain),
            strict,
        ) by {
            let c = found[k].category;
            assert(list[k] == safety::reported(found[k], config, explain));
            assert(findings::group_at(groups, list[k].finding.category) is Some);
            findings::lemma_group_from(groups, c, 0);
            let i = findings::group_at(groups, c)->0;
            assert(groups[i].findings == laws::of_category(list, c));
            list.lemma_filter_contains(laws::in_category(c), k);
            let m = choose|m: int|
                0 <= m < groups[i].findings.len() && groups[i].findings[m] == list[k];
            lemma_group_is_shown(groups, f, groups.len() as int, i);
            let j = choose|j: int| 0 <= j < left.len() && groups[i] == (#[trigger] left[j]);
            assert(left[j].findings[m] == list[k]);
            assert(!critical(left[j].findings[m]));
            if strict {
                assert(!warning(left[j].findings[m]));
            }
        }
    } else {
        let p = if safety::count_in(left, critical) != 0 {
            critical
        } else {
            warning
        };
        let (j, m) = choose|j: int, m: int|
            0 <= j < left.len() && 0 <= m < left[j].findings.len() && p(
                #[trigger] left[j].findings[m],
            );
        filtering::lemma_shown_are_groups(groups, f, groups.len() as int, j);
        let i = choose|i: int| 0 <= i < groups.len() && groups[i] == left[j];
        let c = groups[i].category;
        assert(groups[i].findings == laws::of_category(list, c));
        list.lemma_filter_pred(laws::in_category(c), m);
        let bad = left[j].findings[m];
        assert(laws::of_category(list, c).contains(bad));
        list.lemma_filter_contains_rev(laws::in_category(c), bad);
        let k = choose|k: int| 0 <= k < list.len() && list[k] == bad;
        assert(list[k] == safety::reported(found[k], config, explain));
        assert(filter::shows(f, found[k].category));
        assert(laws::fails(safety::reported(found[k], config, explain), strict));
    }
}

} // verus!
