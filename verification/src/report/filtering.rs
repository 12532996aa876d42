//! Hiding categories of a report.

use vstd::prelude::*;

use crate::diff::Severity;
use crate::report::filter;
use crate::report::filter::CategoryFilter;
use crate::report::filter::FilterView;
use crate::report::findings;
use crate::report::findings::FindingGroups;
use crate::report::findings::GroupView;
use crate::report::findings::ReportedView;
use crate::report::safety;
use crate::report::safety::ReportView;
use crate::report::safety::SafetyReport;
use crate::report::safety::Tally;

verus! {

/// The ones among the first `n` groups that a filter shows.
pub open spec fn shown_groups(groups: Seq<GroupView>, f: FilterView, n: int) -> Seq<GroupView>
    decreases n,
{
    if n <= 0 {
        Seq::empty()
    } else if filter::shows(f, groups[n - 1].category) {
        shown_groups(groups, f, n - 1).push(groups[n - 1])
    } else {
        shown_groups(groups, f, n - 1)
    }
}

/// What is left of a total without a part of it, and nothing where the part is
/// the larger.
pub open spec fn remainder(total: nat, part: nat) -> nat {
    if part <= total {
        (total - part) as nat
    } else {
        0
    }
}

/// A report with the categories that a filter does not show left out. Counts and
/// verdict are those of what is left; the total and the counts of suppressed
/// findings stay, and what is missing from the total is counted as filtered.
pub open spec fn filtered(r: ReportView, f: FilterView) -> ReportView {
    let left = shown_groups(r.groups, f, r.groups.len() as int);
    let safe = safety::verdict(
        r.strict,
        safety::count_in(left, safety::failing_at(Severity::Critical)),
        safety::count_in(left, safety::failing_at(Severity::Warning)),
    );
    let engine_safe = safety::verdict(
        r.strict,
        safety::count_in(left, safety::engine_failing_at(Severity::Critical)),
        safety::count_in(left, safety::engine_failing_at(Severity::Warning)),
    );
    ReportView {
        filtered_count: remainder(r.total_findings, findings::total_findings(left)),
        critical_count: safety::count_in(left, safety::at(Severity::Critical)),
        warning_count: safety::count_in(left, safety::at(Severity::Warning)),
        info_count: safety::count_in(left, safety::at(Severity::Info)),
        severity_overridden_count: safety::count_in(left, safety::overridden()),
        groups: left,
        is_safe: safe,
        verdict_changed_by_override: safe != engine_safe,
        category_filter: f,
        ..r
    }
}

/// A report after several filters, one after the other.
pub open spec fn filtered_by(r: ReportView, filters: Seq<FilterView>) -> ReportView
    decreases filters.len(),
{
    if filters.len() == 0 {
        r
    } else {
        filtered(filtered_by(r, filters.drop_last()), filters.last())
    }
}

pub proof fn lemma_count_groups_prefix(
    a: Seq<GroupView>,
    b: Seq<GroupView>,
    p: spec_fn(ReportedView) -> bool,
    n: int,
)
    requires
        n <= a.len(),
        n <= b.len(),
        forall|i: int| 0 <= i < n ==> a[i] == b[i],
    ensures
        safety::count_groups(a, p, n) == safety::count_groups(b, p, n),
    decreases n,
{
    if n > 0 {
        lemma_count_groups_prefix(a, b, p, n - 1);
    }
}

proof fn lemma_count_with_group(
    groups: Seq<GroupView>,
    g: GroupView,
    p: spec_fn(ReportedView) -> bool,
)
    ensures
        safety::count_in(groups.push(g), p) == safety::count_in(groups, p) + safety::count_all(
            g.findings,
            p,
        ),
{
    lemma_count_groups_prefix(groups, groups.push(g), p, groups.len() as int);
}

/// Whether the counts are those of the findings in some groups.
spec fn tallies_groups(t: Tally, groups: Seq<GroupView>) -> bool {
    &&& t.critical == safety::count_in(groups, safety::at(Severity::Critical))
    &&& t.warning == safety::count_in(groups, safety::at(Severity::Warning))
    &&& t.info == safety::count_in(groups, safety::at(Severity::Info))
    &&& t.overridden == safety::count_in(groups, safety::overridden())
    &&& t.failing_critical == safety::count_in(groups, safety::failing_at(Severity::Critical))
    &&& t.failing_warning == safety::count_in(groups, safety::failing_at(Severity::Warning))
    &&& t.engine_failing_critical == safety::count_in(
        groups,
        safety::engine_failing_at(Severity::Critical),
    )
    &&& t.engine_failing_warning == safety::count_in(
        groups,
        safety::engine_failing_at(Severity::Warning),
    )
}

proof fn lemma_tally_of_group(t: Tally, base: Tally, groups: Seq<GroupView>, g: GroupView)
    requires
        tallies_groups(base, groups),
        safety::tallies(t, base, g.findings, g.findings.len() as int),
    ensures
        tallies_groups(t, groups.push(g)),
{
    lemma_count_with_group(groups, g, safety::at(Severity::Critical));
    lemma_count_with_group(groups, g, safety::at(Severity::Warning));
    lemma_count_with_group(groups, g, safety::at(Severity::Info));
    lemma_count_with_group(groups, g, safety::overridden());
    lemma_count_with_group(groups, g, safety::failing_at(Severity::Critical));
    lemma_count_with_group(groups, g, safety::failing_at(Severity::Warning));
    lemma_count_with_group(groups, g, safety::engine_failing_at(Severity::Critical));
    lemma_count_with_group(groups, g, safety::engine_failing_at(Severity::Warning));
}

/// A shown group is one of the groups, and the filter shows its category.
pub(crate) proof fn lemma_shown_are_groups(groups: Seq<GroupView>, f: FilterView, n: int, j: int)
    requires
        0 <= n <= groups.len(),
        0 <= j < shown_groups(groups, f, n).len(),
    ensures
        filter::shows(f, shown_groups(groups, f, n)[j].category),
        exists|i: int| 0 <= i < n && groups[i] == shown_groups(groups, f, n)[j],
    decreases n,
{
    if n > 0 {
        let before = shown_groups(groups, f, n - 1);
        if j < before.len() {
            lemma_shown_are_groups(groups, f, n - 1, j);
        } else {
            assert(groups[n - 1] == shown_groups(groups, f, n)[j]);
        }
    }
}

proof fn lemma_not_shown_yet(groups: Seq<GroupView>, f: FilterView, n: int)
    requires
        0 <= n < groups.len(),
        findings::categories_differ(groups),
    ensures
        findings::group_at(shown_groups(groups, f, n), groups[n].category) is None,
{
    let shown = shown_groups(groups, f, n);
    findings::lemma_group_from(shown, groups[n].category, 0);
    match findings::group_at(shown, groups[n].category) {
        Some(j) => {
            lemma_shown_are_groups(groups, f, n, j);
            let i = choose|i: int| 0 <= i < n && groups[i] == shown[j];
            assert(groups[i].category != groups[n].category);
        },
        None => {},
    }
}

pub(crate) proof fn lemma_no_more_shown(groups: Seq<GroupView>, f: FilterView, n: int)
    requires
        0 <= n <= groups.len(),
    ensures
        findings::total_findings(shown_groups(groups, f, n)) <= findings::findings_in(groups, n),
    decreases n,
{
    if n > 0 {
        lemma_no_more_shown(groups, f, n - 1);
        findings::lemma_adding_adds_all(shown_groups(groups, f, n - 1), groups[n - 1]);
    }
}

impl SafetyReport {
    /// Leaves the categories that a filter does not show out of the report.
    pub fn apply_category_filter(&mut self, filter: &CategoryFilter)
        ensures
            final(self)@ == filtered(old(self)@, filter@),
    {
        let ghost groups = self.findings_by_category@;
        let count = self.findings_by_category.len();
        let mut shown = FindingGroups::new();
        let mut listed: usize = 0;
        let mut tally = Tally::new();
        let mut n: usize = 0;
        while n < count
            invariant
                n <= count,
                count == groups.len(),
                groups == self.findings_by_category@,
                *self == *old(self),
                findings::categories_differ(groups),
                findings::total_findings(groups) <= usize::MAX,
                shown@ == shown_groups(groups, filter@, n as int),
                listed == findings::total_findings(shown@),
                tallies_groups(tally, shown@),
                safety::tally_within(tally, findings::findings_in(groups, n as int) as int),
            decreases count - n,
        {
            let category = self.findings_by_category.category(n);
            let list = self.findings_by_category.findings(n);
            let ghost views = findings::reported_views(list@);
            proof {
                findings::lemma_findings_in_grow(groups, n + 1, groups.len() as int);
                lemma_no_more_shown(groups, filter@, n as int);
                findings::lemma_adding_adds_all(shown@, groups[n as int]);
            }
            if filter.should_include(category.as_str()) {
                let ghost base = tally;
                let mut k: usize = 0;
                while k < list.len()
                    invariant
                        k <= list@.len(),
                        views == findings::reported_views(list@),
                        safety::tallies(tally, base, views, k as int),
                        safety::tally_within(
                            tally,
                            findings::findings_in(groups, n as int) + k,
                        ),
                        findings::findings_in(groups, n as int) + list@.len() <= usize::MAX,
                    decreases list@.len() - k,
                {
                    let r = &list[k];
                    assert(views[k as int] == r@);
                    let engine = match r.original_severity {
                        Some(s) => s,
                        None => r.finding.severity,
                    };
                    tally.take(
                        r.finding.severity,
                        engine,
                        r.suppressed,
                        r.original_severity.is_some(),
                    );
                    k = k + 1;
                }
                proof {
                    lemma_not_shown_yet(groups, filter@, n as int);
                    lemma_tally_of_group(tally, base, shown@, groups[n as int]);
                }
                listed = listed + list.len();
                shown.add(category.as_str(), findings::clone_findings(list));
                assert(shown@ =~= shown_groups(groups, filter@, n + 1));
            }
            n = n + 1;
        }
        let is_safe = safety::is_verdict_safe(
            self.strict,
            tally.failing_critical,
            tally.failing_warning,
        );
        let engine_safe = safety::is_verdict_safe(
            self.strict,
            tally.engine_failing_critical,
            tally.engine_failing_warning,
        );
        self.filtered_count = if listed <= self.total_findings {
            self.total_findings - listed
        } else {
            0
        };
        self.critical_count = tally.critical;
        self.warning_count = tally.warning;
        self.info_count = tally.info;
        self.severity_overridden_count = tally.overridden;
        self.findings_by_category = shown;
        self.is_safe = is_safe;
        self.verdict_changed_by_override = is_safe != engine_safe;
        self.category_filter = filter.clone();
    }
}

} // verus!
