//! How the counts, the groups and the verdict of a report hang together.

use vstd::prelude::*;

use crate::diff::FindingView;
use crate::diff::Severity;
use crate::limits::ResourcePolicy;
use crate::report::filtering;
use crate::report::findings;
use crate::report::findings::GroupView;
use crate::report::findings::ReportedView;
use crate::report::safety;
use crate::report::status;
use crate::suppression::ConfigView;

verus! {

/// Whether a listed finding stands in the way of a safe verdict.
pub open spec fn fails(f: ReportedView, strict: bool) -> bool {
    !f.suppressed && (f.finding.severity == Severity::Critical || strict && f.finding.severity
        == Severity::Warning)
}

pub(crate) proof fn lemma_severities_add_up(list: Seq<ReportedView>, n: int)
    requires
        0 <= n,
    ensures
        safety::count(list, safety::at(Severity::Critical), n) + safety::count(
            list,
            safety::at(Severity::Warning),
            n,
        ) + safety::count(list, safety::at(Severity::Info), n) == n,
    decreases n,
{
    if n > 0 {
        lemma_severities_add_up(list, n - 1);
    }
}

/// A property that implies another is no more frequent than it.
pub(crate) proof fn lemma_count_monotone(
    list: Seq<ReportedView>,
    p: spec_fn(ReportedView) -> bool,
    q: spec_fn(ReportedView) -> bool,
    n: int,
)
    requires
        forall|f: ReportedView| #[trigger] p(f) ==> q(f),
    ensures
        safety::count(list, p, n) <= safety::count(list, q, n),
    decreases n,
{
    if n > 0 {
        lemma_count_monotone(list, p, q, n - 1);
    }
}

pub(crate) proof fn lemma_count_bound(list: Seq<ReportedView>, p: spec_fn(ReportedView) -> bool, n: int)
    requires
        0 <= n,
    ensures
        safety::count(list, p, n) <= n,
    decreases n,
{
    if n > 0 {
        lemma_count_bound(list, p, n - 1);
    }
}

/// Every finding counts at exactly one severity, so the counts by severity add
/// up to the number of findings. No finding is acknowledged or changed more than
/// once, and the acknowledged critical findings are among the acknowledged and
/// among the critical ones.
pub proof fn every_finding_counts_once(
    found: Seq<FindingView>,
    config: ConfigView,
    explain: bool,
    strict: bool,
    policy: ResourcePolicy,
)
    ensures
        ({
            let r = safety::report_on(found, config, explain, strict, policy);
            &&& r.total_findings == found.len()
            &&& r.critical_count + r.warning_count + r.info_count == r.total_findings
            &&& r.suppressed_count <= r.total_findings
            &&& r.severity_overridden_count <= r.total_findings
            &&& r.suppressed_critical_count <= r.suppressed_count
            &&& r.suppressed_critical_count <= r.critical_count
        }),
{
    let list = safety::listed(found, config, explain);
    let n = list.len() as int;
    lemma_severities_add_up(list, n);
    lemma_count_bound(list, safety::acknowledged(), n);
    lemma_count_bound(list, safety::overridden(), n);
    lemma_count_monotone(
        list,
        safety::acknowledged_at(Severity::Critical),
        safety::acknowledged(),
        n,
    );
    lemma_count_monotone(
        list,
        safety::acknowledged_at(Severity::Critical),
        safety::at(Severity::Critical),
        n,
    );
}

/// The findings of a category, in the order in which they were found.
pub open spec fn of_category(list: Seq<ReportedView>, category: Seq<char>) -> Seq<ReportedView> {
    list.filter(in_category(category))
}

/// The findings that belong to a category.
pub open spec fn in_category(category: Seq<char>) -> spec_fn(ReportedView) -> bool {
    |f: ReportedView| f.finding.category == category
}

/// Whether the groups hold the findings of a list, each in the group of its
/// category.
pub(crate) open spec fn sorts_out(groups: Seq<GroupView>, list: Seq<ReportedView>) -> bool {
    &&& findings::categories_differ(groups)
    &&& forall|i: int|
        0 <= i < groups.len() ==> {
            &&& (#[trigger] groups[i]).findings == of_category(list, groups[i].category)
            &&& groups[i].findings.len() > 0
        }
    &&& forall|k: int|
        0 <= k < list.len() ==> findings::group_at(groups, (#[trigger] list[k]).finding.category)
            is Some
}

proof fn lemma_filed_sorts_out(groups: Seq<GroupView>, list: Seq<ReportedView>, f: ReportedView)
    requires
        sorts_out(groups, list),
    ensures
        sorts_out(findings::filed(groups, f.finding.category, f), list.push(f)),
{
    let category = f.finding.category;
    let after = findings::filed(groups, category, f);
    let longer = list.push(f);
    findings::lemma_group_from(groups, category, 0);
    assert(longer.drop_last() =~= list);
    assert forall|c: Seq<char>| #[trigger] of_category(longer, c) == (if c == category {
        of_category(list, c).push(f)
    } else {
        of_category(list, c)
    }) by {
        reveal(Seq::filter);
    }
    match findings::group_at(groups, category) {
        Some(at) => {
            assert forall|i: int| 0 <= i < after.len() implies {
                &&& (#[trigger] after[i]).findings == of_category(longer, after[i].category)
                &&& after[i].findings.len() > 0
            } by {
                assert(groups[i].findings == of_category(list, groups[i].category));
            }
            assert forall|i: int, j: int| 0 <= i < j < after.len() implies (
            #[trigger] after[i]).category != (#[trigger] after[j]).category by {
                assert(groups[i].category != groups[j].category);
            }
        },
        None => {
            assert forall|i: int| 0 <= i < after.len() implies {
                &&& (#[trigger] after[i]).findings == of_category(longer, after[i].category)
                &&& after[i].findings.len() > 0
            } by {
                if i < groups.len() {
                    assert(groups[i].findings == of_category(list, groups[i].category));
                } else {
                    lemma_nothing_of_category(groups, list, category);
                    assert(after[i].findings =~= of_category(longer, category));
                }
            }
        },
    }
    assert forall|k: int| 0 <= k < longer.len() implies findings::group_at(
        after,
        (#[trigger] longer[k]).finding.category,
    ) is Some by {
        let c = longer[k].finding.category;
        findings::lemma_group_from(after, c, 0);
        if k < list.len() {
            assert(longer[k] == list[k]);
            findings::lemma_group_from(groups, c, 0);
            let i = findings::group_at(groups, c)->0;
            assert(after[i].category == c);
        } else {
            match findings::group_at(groups, category) {
                Some(at) => {
                    assert(after[at].category == c);
                },
                None => {
                    assert(after[groups.len() as int].category == c);
                },
            }
        }
    }
}

proof fn lemma_nothing_of_category(
    groups: Seq<GroupView>,
    list: Seq<ReportedView>,
    category: Seq<char>,
)
    requires
        sorts_out(groups, list),
        findings::group_at(groups, category) is None,
    ensures
        of_category(list, category).len() == 0,
{
    let p = in_category(category);
    let kept = of_category(list, category);
    if kept.len() > 0 {
        list.lemma_filter_pred(p, 0);
        assert(kept.contains(kept[0]));
        list.lemma_filter_contains_rev(p, kept[0]);
        let k = choose|k: int| 0 <= k < list.len() && list[k] == kept[0];
        assert(findings::group_at(groups, list[k].finding.category) is Some);
    }
}

pub(crate) proof fn lemma_grouped_sorts_out(list: Seq<ReportedView>, n: int)
    requires
        0 <= n <= list.len(),
    ensures
        sorts_out(safety::grouped(list, n), list.take(n)),
    decreases n,
{
    if n > 0 {
        lemma_grouped_sorts_out(list, n - 1);
        lemma_filed_sorts_out(safety::grouped(list, n - 1), list.take(n - 1), list[n - 1]);
        assert(list.take(n - 1).push(list[n - 1]) =~= list.take(n));
    }
}

/// Every finding is listed under its category, in the order in which it was
/// found: no category has two groups, a group holds exactly the findings of its
/// category, no group is empty, and every finding has a group.
pub proof fn every_finding_is_listed(
    found: Seq<FindingView>,
    config: ConfigView,
    explain: bool,
    strict: bool,
    policy: ResourcePolicy,
)
    ensures
        ({
            let groups = safety::report_on(found, config, explain, strict, policy).groups;
            let list = safety::listed(found, config, explain);
            &&& findings::categories_differ(groups)
            &&& forall|i: int|
                0 <= i < groups.len() ==> {
                    &&& (#[trigger] groups[i]).findings == of_category(list, groups[i].category)
                    &&& groups[i].findings.len() > 0
                }
            &&& forall|k: int|
                0 <= k < found.len() ==> exists|i: int|
                    0 <= i < groups.len() && (#[trigger] groups[i]).category == (
                    #[trigger] found[k]).category
        }),
{
    let groups = safety::report_on(found, config, explain, strict, policy).groups;
    let list = safety::listed(found, config, explain);
    lemma_grouped_sorts_out(list, list.len() as int);
    assert(list.take(list.len() as int) =~= list);
    assert forall|k: int| 0 <= k < found.len() implies exists|i: int|
        0 <= i < groups.len() && (#[trigger] groups[i]).category == (
        #[trigger] found[k]).category by {
        assert(list[k].finding.category == found[k].category);
        findings::lemma_group_from(groups, found[k].category, 0);
        let i = findings::group_at(groups, list[k].finding.category)->0;
        assert(groups[i].category == found[k].category);
    }
}

/// Filing a finding adds it to every count that it belongs to.
proof fn lemma_count_filed(
    groups: Seq<GroupView>,
    f: ReportedView,
    p: spec_fn(ReportedView) -> bool,
)
    ensures
        safety::count_in(findings::filed(groups, f.finding.category, f), p) == safety::count_in(
            groups,
            p,
        ) + (if p(f) {
            1nat
        } else {
            0nat
        }),
{
    let after = findings::filed(groups, f.finding.category, f);
    findings::lemma_group_from(groups, f.finding.category, 0);
    match findings::group_at(groups, f.finding.category) {
        Some(at) => {
            lemma_count_with_one_more(groups, after, f, p, at, groups.len() as int);
        },
        None => {
            filtering::lemma_count_groups_prefix(groups, after, p, groups.len() as int);
            let single = after[groups.len() as int].findings;
            assert(single =~= seq![f]);
            assert(safety::count(single, p, 0) == 0);
        },
    }
}

proof fn lemma_count_with_one_more(
    groups: Seq<GroupView>,
    after: Seq<GroupView>,
    f: ReportedView,
    p: spec_fn(ReportedView) -> bool,
    at: int,
    n: int,
)
    requires
        0 <= at < groups.len(),
        0 <= n <= groups.len(),
        after == groups.update(
            at,
            (GroupView { category: groups[at].category, findings: groups[at].findings.push(f) }),
        ),
    ensures
        safety::count_groups(after, p, n) == safety::count_groups(groups, p, n) + (if p(f) && at
            < n {
            1nat
        } else {
            0nat
        }),
    decreases n,
{
    if n > 0 {
        lemma_count_with_one_more(groups, after, f, p, at, n - 1);
        if n - 1 == at {
            let old_list = groups[at].findings;
            lemma_count_prefix(old_list, old_list.push(f), p, old_list.len() as int);
        }
    }
}

proof fn lemma_count_prefix(
    a: Seq<ReportedView>,
    b: Seq<ReportedView>,
    p: spec_fn(ReportedView) -> bool,
    n: int,
)
    requires
        n <= a.len(),
        n <= b.len(),
        forall|i: int| 0 <= i < n ==> a[i] == b[i],
    ensures
        safety::count(a, p, n) == safety::count(b, p, n),
    decreases n,
{
    if n > 0 {
        lemma_count_prefix(a, b, p, n - 1);
    }
}

pub(crate) proof fn lemma_count_grouped(list: Seq<ReportedView>, p: spec_fn(ReportedView) -> bool, n: int)
    requires
        0 <= n <= list.len(),
    ensures
        safety::count_in(safety::grouped(list, n), p) == safety::count(list, p, n),
    decreases n,
{
    if n > 0 {
        lemma_count_grouped(list, p, n - 1);
        lemma_count_filed(safety::grouped(list, n - 1), list[n - 1], p);
    }
}

/// Counting group by group gives what counting the findings one by one gives.
pub proof fn grouping_keeps_every_count(
    found: Seq<FindingView>,
    config: ConfigView,
    explain: bool,
    strict: bool,
    policy: ResourcePolicy,
    p: spec_fn(ReportedView) -> bool,
)
    ensures
        safety::count_in(
            safety::report_on(found, config, explain, strict, policy).groups,
            p,
        ) == safety::count_all(safety::listed(found, config, explain), p),
{
    let list = safety::listed(found, config, explain);
    lemma_count_grouped(list, p, list.len() as int);
}

pub(crate) proof fn lemma_nothing_counted(list: Seq<ReportedView>, p: spec_fn(ReportedView) -> bool, n: int)
    requires
        0 <= n <= list.len(),
    ensures
        safety::count(list, p, n) == 0 <==> forall|k: int|
            0 <= k < n ==> !p(#[trigger] list[k]),
    decreases n,
{
    if n > 0 {
        lemma_nothing_counted(list, p, n - 1);
        assert(p(list[n - 1]) || !p(list[n - 1]));
    }
}

pub(crate) proof fn lemma_verdict(list: Seq<ReportedView>, strict: bool)
    ensures
        safety::verdict(
            strict,
            safety::count_all(list, safety::failing_at(Severity::Critical)),
            safety::count_all(list, safety::failing_at(Severity::Warning)),
        ) <==> forall|k: int| 0 <= k < list.len() ==> !fails(#[trigger] list[k], strict),
{
    let n = list.len() as int;
    let critical = safety::failing_at(Severity::Critical);
    let warning = safety::failing_at(Severity::Warning);
    lemma_nothing_counted(list, critical, n);
    lemma_nothing_counted(list, warning, n);
    if safety::verdict(strict, safety::count_all(list, critical), safety::count_all(list, warning)) {
        assert forall|k: int| 0 <= k < list.len() implies !fails(#[trigger] list[k], strict) by {
            assert(!critical(list[k]));
            if strict {
                assert(!warning(list[k]));
            }
        }
    } else if safety::count(list, critical, n) != 0 {
        let k = choose|k: int| 0 <= k < n && critical(#[trigger] list[k]);
        assert(fails(list[k], strict));
    } else {
        let k = choose|k: int| 0 <= k < n && warning(#[trigger] list[k]);
        assert(fails(list[k], strict));
    }
}

/// The upgrade is safe exactly where no finding stands in the way: none that is
/// critical, nor in strict mode a warning, but for the acknowledged ones.
pub proof fn the_verdict_is_that_nothing_fails(
    found: Seq<FindingView>,
    config: ConfigView,
    explain: bool,
    strict: bool,
    policy: ResourcePolicy,
)
    ensures
        safety::report_on(found, config, explain, strict, policy).is_safe <==> forall|k: int|
            0 <= k < found.len() ==> !fails(
                safety::reported(#[trigger] found[k], config, explain),
                strict,
            ),
{
    let list = safety::listed(found, config, explain);
    lemma_verdict(list, strict);
    if forall|k: int|
        0 <= k < found.len() ==> !fails(
            safety::reported(#[trigger] found[k], config, explain),
            strict,
        ) {
        assert forall|k: int| 0 <= k < list.len() implies !fails(#[trigger] list[k], strict) by {
            assert(list[k] == safety::reported(found[k], config, explain));
        }
    }
    if forall|k: int| 0 <= k < list.len() ==> !fails(#[trigger] list[k], strict) {
        assert forall|k: int| 0 <= k < found.len() implies !fails(
            safety::reported(#[trigger] found[k], config, explain),
            strict,
        ) by {
            assert(list[k] == safety::reported(found[k], config, explain));
        }
    }
}

/// What is safe in strict mode is safe otherwise.
pub proof fn strict_mode_only_refuses_more(
    found: Seq<FindingView>,
    config: ConfigView,
    explain: bool,
    policy: ResourcePolicy,
)
    ensures
        safety::report_on(found, config, explain, true, policy).is_safe ==> safety::report_on(
            found,
            config,
            explain,
            false,
            policy,
        ).is_safe,
{
}

/// A comparison that found nothing is safe and calls for a patch; no other one
/// calls for a patch, and a critical finding, acknowledged or not, calls for a
/// major version.
pub proof fn the_bump_follows_the_findings(
    found: Seq<FindingView>,
    config: ConfigView,
    explain: bool,
    strict: bool,
    policy: ResourcePolicy,
)
    ensures
        ({
            let r = safety::report_on(found, config, explain, strict, policy);
            &&& status::bump(r) == "patch"@ <==> found.len() == 0
            &&& status::bump(r) == "major"@ <==> exists|k: int|
                0 <= k < found.len() && safety::effective_severity(#[trigger] found[k], config)
                    == Severity::Critical
            &&& found.len() == 0 ==> r.is_safe
        }),
{
    let r = safety::report_on(found, config, explain, strict, policy);
    let list = safety::listed(found, config, explain);
    let critical = safety::at(Severity::Critical);
    every_finding_counts_once(found, config, explain, strict, policy);
    lemma_nothing_counted(list, critical, list.len() as int);
    reveal_strlit("patch");
    reveal_strlit("minor");
    reveal_strlit("major");
    assert("patch"@[0] == 'p' && "minor"@[1] == 'i' && "major"@[1] == 'a' && "major"@[0] == 'm');
    if r.critical_count > 0 {
        let k = choose|k: int| 0 <= k < list.len() && critical(#[trigger] list[k]);
        assert(list[k] == safety::reported(found[k], config, explain));
        assert(safety::effective_severity(found[k], config) == Severity::Critical);
    }
    if exists|k: int|
        0 <= k < found.len() && safety::effective_severity(#[trigger] found[k], config)
            == Severity::Critical {
        let k = choose|k: int|
            0 <= k < found.len() && safety::effective_severity(#[trigger] found[k], config)
                == Severity::Critical;
        assert(critical(list[k]));
    }
}

} // verus!
