//! What a configuration changes of a report, and what it leaves alone.

use vstd::prelude::*;

use crate::diff::FindingView;
use crate::diff::Severity;
use crate::limits::ResourcePolicy;
use crate::report::filter::FilterView;
use crate::report::filtering;
use crate::report::findings;
use crate::report::findings::GroupView;
use crate::report::findings::ReportedView;
use crate::report::laws;
use crate::report::safety;
use crate::suppression::ConfigView;
use crate::suppression::SuppressionRuleView;

verus! {

/// The same configuration without a table of severities.
pub open spec fn without_overrides(config: ConfigView) -> ConfigView {
    ConfigView { overrides: Seq::empty(), ..config }
}

/// Two lists of findings have as many with one property as with another where
/// the properties agree place by place.
proof fn lemma_count_agrees(
    a: Seq<ReportedView>,
    p: spec_fn(ReportedView) -> bool,
    b: Seq<ReportedView>,
    q: spec_fn(ReportedView) -> bool,
    n: int,
)
    requires
        n <= a.len(),
        n <= b.len(),
        forall|k: int| 0 <= k < n ==> p(#[trigger] a[k]) == q(#[trigger] b[k]),
    ensures
        safety::count(a, p, n) == safety::count(b, q, n),
    decreases n,
{
    if n > 0 {
        lemma_count_agrees(a, p, b, q, n - 1);
        assert(p(a[n - 1]) == q(b[n - 1]));
    }
}

/// Without a table of severities every finding counts at the severity that the
/// analysis gave it, and the verdict is that of the analysis.
pub proof fn without_overrides_the_analysis_decides(
    found: Seq<FindingView>,
    config: ConfigView,
    explain: bool,
    strict: bool,
    policy: ResourcePolicy,
)
    requires
        config.overrides.len() == 0,
    ensures
        ({
            let r = safety::report_on(found, config, explain, strict, policy);
            &&& r.severity_overridden_count == 0
            &&& !r.verdict_changed_by_override
            &&& forall|k: int|
                0 <= k < found.len() ==> {
                    let f = safety::reported(#[trigger] found[k], config, explain);
                    f.original_severity is None && f.finding.severity == found[k].severity
                }
        }),
{
    let list = safety::listed(found, config, explain);
    let n = list.len() as int;
    assert forall|k: int| 0 <= k < n implies (#[trigger] list[k]).original_severity is None by {
        assert(list[k] == safety::reported(found[k], config, explain));
    }
    laws::lemma_nothing_counted(list, safety::overridden(), n);
    lemma_count_agrees(
        list,
        safety::failing_at(Severity::Critical),
        list,
        safety::engine_failing_at(Severity::Critical),
        n,
    );
    lemma_count_agrees(
        list,
        safety::failing_at(Severity::Warning),
        list,
        safety::engine_failing_at(Severity::Warning),
        n,
    );
}

/// Whether two findings are told apart by nothing but their severity.
pub open spec fn alike_but_for_severity(a: ReportedView, b: ReportedView) -> bool {
    &&& a.rule_id == b.rule_id
    &&& a.finding == (FindingView { severity: a.finding.severity, ..b.finding })
    &&& a.fingerprint == b.fingerprint
    &&& a.suppressed == b.suppressed
    &&& a.suppression_reason == b.suppression_reason
    &&& a.suppression_author == b.suppression_author
    &&& a.suppression_expiry == b.suppression_expiry
    &&& a.suppression_fingerprint == b.suppression_fingerprint
    &&& a.remediation == b.remediation
}

/// A table of severities changes severities and nothing else: findings are
/// acknowledged by the same rules, with the same fingerprints, and the same rules
/// stay without a finding.
pub proof fn overrides_leave_suppression_alone(
    found: Seq<FindingView>,
    config: ConfigView,
    explain: bool,
    strict: bool,
    policy: ResourcePolicy,
)
    ensures
        ({
            let a = safety::report_on(found, config, explain, strict, policy);
            let b = safety::report_on(found, without_overrides(config), explain, strict, policy);
            &&& a.suppressed_count == b.suppressed_count
            &&& a.unmatched_suppressions == b.unmatched_suppressions
            &&& forall|k: int|
                0 <= k < found.len() ==> alike_but_for_severity(
                    safety::reported(#[trigger] found[k], config, explain),
                    safety::reported(found[k], without_overrides(config), explain),
                )
        }),
{
    let a = safety::listed(found, config, explain);
    let b = safety::listed(found, without_overrides(config), explain);
    lemma_count_agrees(a, safety::acknowledged(), b, safety::acknowledged(), a.len() as int);
}

/// Whether a finding is what another one becomes without a table of severities.
spec fn mirrors(a: ReportedView, b: ReportedView) -> bool {
    &&& a.finding.category == b.finding.category
    &&& a.suppressed == b.suppressed
    &&& safety::engine_severity(a) == b.finding.severity
}

proof fn lemma_listed_mirrors(
    found: Seq<FindingView>,
    config: ConfigView,
    explain: bool,
    k: int,
)
    requires
        0 <= k < found.len(),
    ensures
        mirrors(
            safety::listed(found, config, explain)[k],
            safety::listed(found, without_overrides(config), explain)[k],
        ),
{
}

/// The claim that a configuration turned the verdict is made exactly where the
/// verdict is another one without the table of severities.
pub proof fn the_notice_tells_the_truth(
    found: Seq<FindingView>,
    config: ConfigView,
    explain: bool,
    strict: bool,
    policy: ResourcePolicy,
)
    ensures
        safety::report_on(found, config, explain, strict, policy).verdict_changed_by_override <==> (
        safety::report_on(found, config, explain, strict, policy).is_safe != safety::report_on(
            found,
            without_overrides(config),
            explain,
            strict,
            policy,
        ).is_safe),
{
    let a = safety::listed(found, config, explain);
    let b = safety::listed(found, without_overrides(config), explain);
    let n = a.len() as int;
    assert forall|k: int| 0 <= k < n implies mirrors(#[trigger] a[k], #[trigger] b[k]) by {
        lemma_listed_mirrors(found, config, explain, k);
    }
    lemma_engine_counts(a, b, n);
}

proof fn lemma_engine_counts(a: Seq<ReportedView>, b: Seq<ReportedView>, n: int)
    requires
        n <= a.len(),
        n <= b.len(),
        forall|k: int| 0 <= k < n ==> mirrors(#[trigger] a[k], #[trigger] b[k]),
    ensures
        forall|s: Severity| #[trigger]
            safety::count(a, safety::engine_failing_at(s), n) == safety::count(
                b,
                safety::failing_at(s),
                n,
            ),
{
    assert forall|s: Severity| #[trigger]
        safety::count(a, safety::engine_failing_at(s), n) == safety::count(
            b,
            safety::failing_at(s),
            n,
        ) by {
        assert forall|k: int| 0 <= k < n implies safety::engine_failing_at(s)(#[trigger] a[k])
            == safety::failing_at(s)(#[trigger] b[k]) by {
            assert(mirrors(a[k], b[k]));
        }
        lemma_count_agrees(a, safety::engine_failing_at(s), b, safety::failing_at(s), n);
    }
}

/// Whether two groups hold findings that mirror each other.
spec fn group_mirrors(a: GroupView, b: GroupView) -> bool {
    &&& a.category == b.category
    &&& a.findings.len() == b.findings.len()
    &&& forall|k: int|
        0 <= k < a.findings.len() ==> mirrors(#[trigger] a.findings[k], #[trigger] b.findings[k])
}

spec fn groups_mirror(a: Seq<GroupView>, b: Seq<GroupView>) -> bool {
    &&& a.len() == b.len()
    &&& forall|i: int| 0 <= i < a.len() ==> group_mirrors(#[trigger] a[i], #[trigger] b[i])
}

proof fn lemma_same_position(
    a: Seq<GroupView>,
    b: Seq<GroupView>,
    category: Seq<char>,
    from: int,
)
    requires
        groups_mirror(a, b),
    ensures
        findings::group_from(a, category, from) == findings::group_from(b, category, from),
    decreases a.len() - from,
{
    if 0 <= from < a.len() {
        assert(group_mirrors(a[from], b[from]));
        lemma_same_position(a, b, category, from + 1);
    }
}

proof fn lemma_filed_mirror(
    a: Seq<GroupView>,
    b: Seq<GroupView>,
    f: ReportedView,
    g: ReportedView,
)
    requires
        groups_mirror(a, b),
        mirrors(f, g),
    ensures
        groups_mirror(
            findings::filed(a, f.finding.category, f),
            findings::filed(b, g.finding.category, g),
        ),
{
    let category = f.finding.category;
    lemma_same_position(a, b, category, 0);
    findings::lemma_group_from(a, category, 0);
    let after = findings::filed(a, category, f);
    let other = findings::filed(b, category, g);
    assert forall|i: int| 0 <= i < after.len() implies group_mirrors(
        #[trigger] after[i],
        #[trigger] other[i],
    ) by {
        if i < a.len() {
            assert(group_mirrors(a[i], b[i]));
            assert forall|k: int| 0 <= k < after[i].findings.len() implies mirrors(
                #[trigger] after[i].findings[k],
                #[trigger] other[i].findings[k],
            ) by {
                if k < a[i].findings.len() {
                    assert(mirrors(a[i].findings[k], b[i].findings[k]));
                }
            }
        }
    }
}

proof fn lemma_grouped_mirror(a: Seq<ReportedView>, b: Seq<ReportedView>, n: int)
    requires
        n <= a.len(),
        n <= b.len(),
        forall|k: int| 0 <= k < n ==> mirrors(#[trigger] a[k], #[trigger] b[k]),
    ensures
        groups_mirror(safety::grouped(a, n), safety::grouped(b, n)),
    decreases n,
{
    if n > 0 {
        lemma_grouped_mirror(a, b, n - 1);
        assert(mirrors(a[n - 1], b[n - 1]));
        lemma_filed_mirror(
            safety::grouped(a, n - 1),
            safety::grouped(b, n - 1),
            a[n - 1],
            b[n - 1],
        );
    }
}

proof fn lemma_shown_mirror(a: Seq<GroupView>, b: Seq<GroupView>, f: FilterView, n: int)
    requires
        groups_mirror(a, b),
        n <= a.len(),
    ensures
        groups_mirror(filtering::shown_groups(a, f, n), filtering::shown_groups(b, f, n)),
    decreases n,
{
    if n > 0 {
        lemma_shown_mirror(a, b, f, n - 1);
        assert(group_mirrors(a[n - 1], b[n - 1]));
    }
}

proof fn lemma_engine_counts_in(a: Seq<GroupView>, b: Seq<GroupView>, s: Severity, n: int)
    requires
        groups_mirror(a, b),
        n <= a.len(),
    ensures
        safety::count_groups(a, safety::engine_failing_at(s), n) == safety::count_groups(
            b,
            safety::failing_at(s),
            n,
        ),
    decreases n,
{
    if n > 0 {
        lemma_engine_counts_in(a, b, s, n - 1);
        assert(group_mirrors(a[n - 1], b[n - 1]));
        lemma_engine_counts(
            a[n - 1].findings,
            b[n - 1].findings,
            a[n - 1].findings.len() as int,
        );
        assert(safety::count(
            a[n - 1].findings,
            safety::engine_failing_at(s),
            a[n - 1].findings.len() as int,
        ) == safety::count(
            b[n - 1].findings,
            safety::failing_at(s),
            a[n - 1].findings.len() as int,
        ));
    }
}

/// The claim stays true of a filtered report: it speaks of the findings that are
/// left.
pub proof fn the_notice_tells_the_truth_of_what_is_shown(
    found: Seq<FindingView>,
    config: ConfigView,
    explain: bool,
    strict: bool,
    policy: ResourcePolicy,
    f: FilterView,
)
    ensures
        ({
            let a = filtering::filtered(
                safety::report_on(found, config, explain, strict, policy),
                f,
            );
            let b = filtering::filtered(
                safety::report_on(found, without_overrides(config), explain, strict, policy),
                f,
            );
            a.verdict_changed_by_override <==> (a.is_safe != b.is_safe)
        }),
{
    let a = safety::listed(found, config, explain);
    let b = safety::listed(found, without_overrides(config), explain);
    let n = a.len() as int;
    assert forall|k: int| 0 <= k < n implies mirrors(#[trigger] a[k], #[trigger] b[k]) by {
        lemma_listed_mirrors(found, config, explain, k);
    }
    lemma_grouped_mirror(a, b, n);
    let ga = safety::grouped(a, n);
    let gb = safety::grouped(b, n);
    lemma_shown_mirror(ga, gb, f, ga.len() as int);
    let sa = filtering::shown_groups(ga, f, ga.len() as int);
    let sb = filtering::shown_groups(gb, f, gb.len() as int);
    lemma_engine_counts_in(sa, sb, Severity::Critical, sa.len() as int);
    lemma_engine_counts_in(sa, sb, Severity::Warning, sa.len() as int);
}

proof fn lemma_unused_rules(
    found: Seq<FindingView>,
    rules: Seq<SuppressionRuleView>,
    n: int,
)
    requires
        0 <= n <= rules.len(),
    ensures
        forall|i: int|
            0 <= i < n && !#[trigger] safety::rule_is_used(found, rules, i)
                ==> safety::unused_rules(found, rules, n).contains(rules[i]),
        forall|j: int|
            0 <= j < safety::unused_rules(found, rules, n).len() ==> exists|i: int|
                0 <= i < n && !#[trigger] safety::rule_is_used(found, rules, i) && rules[i] == (
                #[trigger] safety::unused_rules(found, rules, n)[j]),
    decreases n,
{
    if n > 0 {
        lemma_unused_rules(found, rules, n - 1);
        let before = safety::unused_rules(found, rules, n - 1);
        let list = safety::unused_rules(found, rules, n);
        if !safety::rule_is_used(found, rules, n - 1) {
            assert(list[before.len() as int] == rules[n - 1]);
            assert forall|i: int|
                0 <= i < n && !#[trigger] safety::rule_is_used(found, rules, i) implies list.contains(
                rules[i],
            ) by {
                if i < n - 1 {
                    assert(before.contains(rules[i]));
                    let j = choose|j: int| 0 <= j < before.len() && before[j] == rules[i];
                    assert(list[j] == rules[i]);
                }
            }
            assert forall|j: int| 0 <= j < list.len() implies exists|i: int|
                0 <= i < n && !#[trigger] safety::rule_is_used(found, rules, i) && rules[i] == (
                #[trigger] list[j]) by {
                if j < before.len() {
                    assert(list[j] == before[j]);
                }
            }
        }
    }
}

/// A suppression rule that no finding called for is reported, and no other one
/// is.
pub proof fn unused_rules_are_reported(
    found: Seq<FindingView>,
    config: ConfigView,
    explain: bool,
    strict: bool,
    policy: ResourcePolicy,
)
    ensures
        ({
            let unmatched = safety::report_on(
                found,
                config,
                explain,
                strict,
                policy,
            ).unmatched_suppressions;
            &&& forall|i: int|
                0 <= i < config.rules.len() && !#[trigger] safety::rule_is_used(
                    found,
                    config.rules,
                    i,
                ) ==> unmatched.contains(config.rules[i])
            &&& forall|j: int|
                0 <= j < unmatched.len() ==> exists|i: int|
                    0 <= i < config.rules.len() && !#[trigger] safety::rule_is_used(
                        found,
                        config.rules,
                        i,
                    ) && config.rules[i] == (#[trigger] unmatched[j])
        }),
{
    lemma_unused_rules(found, config.rules, config.rules.len() as int);
}

} // verus!
