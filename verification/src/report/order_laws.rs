//! In which order a report lists categories and findings.

use vstd::prelude::*;

use crate::diff::Severity;
use crate::order;
use crate::order::SortKeyView;
use crate::report::count_laws;
use crate::report::findings;
use crate::report::findings::GroupView;
use crate::report::findings::ReportedView;
use crate::text;

verus! {

/// Whether `a` comes before `b` in a dictionary, or is the same: up to the first
/// difference the two are alike, and there `a` ends or has the lesser character.
pub open spec fn reads_before(a: Seq<char>, b: Seq<char>) -> bool {
    exists|i: int| #[trigger] differs_first_at(a, b, i)
}

/// Whether `a` and `b` are alike in their first `i` characters, and `a` ends there
/// or has the lesser character.
pub open spec fn differs_first_at(a: Seq<char>, b: Seq<char>, i: int) -> bool {
    &&& 0 <= i <= a.len() && i <= b.len()
    &&& forall|k: int| 0 <= k < i ==> #[trigger] a[k] == b[k]
    &&& i == a.len() || i < b.len() && a[i] < b[i]
}

proof fn lemma_le_from(a: Seq<char>, b: Seq<char>, from: int)
    requires
        0 <= from <= a.len(),
        from <= b.len(),
        forall|k: int| 0 <= k < from ==> #[trigger] a[k] == b[k],
    ensures
        text::le_from(a, b, from) <==> reads_before(a, b),
    decreases a.len() - from,
{
    if from == a.len() {
        assert(differs_first_at(a, b, from));
    } else if from == b.len() {
        if reads_before(a, b) {
            let i = choose|i: int| #[trigger] differs_first_at(a, b, i);
            assert(false);
        }
    } else if a[from] == b[from] {
        lemma_le_from(a, b, from + 1);
    } else {
        if a[from] < b[from] {
            assert(differs_first_at(a, b, from));
        } else if reads_before(a, b) {
            let i = choose|i: int| #[trigger] differs_first_at(a, b, i);
            if i > from {
                assert(a[from] == b[from]);
            }
        }
    }
}

/// Texts are ordered as in a dictionary.
pub proof fn texts_are_ordered_as_in_a_dictionary(a: Seq<char>, b: Seq<char>)
    ensures
        text::text_le(a, b) <==> reads_before(a, b),
{
    lemma_le_from(a, b, 0);
}

/// Whether `order` lists the positions of a list of `n` things, each one once.
pub open spec fn lists_each_once(order: Seq<int>, n: int) -> bool {
    &&& order.len() == n
    &&& order.no_duplicates()
    &&& forall|v: int| #[trigger] order.contains(v) <==> 0 <= v < n
}

proof fn lemma_in_order(keys: Seq<SortKeyView>, i: int, j: int)
    requires
        0 <= i < j < keys.len(),
    ensures
        lists_each_once(order::sorted_positions(keys), keys.len() as int),
        ({
            let s = order::sorted_positions(keys);
            let a = keys[s[i]];
            let b = keys[s[j]];
            &&& 0 <= s[i] < keys.len() && 0 <= s[j] < keys.len()
            &&& a.rank <= b.rank
            &&& a.rank == b.rank ==> reads_before(a.major, b.major)
            &&& a.rank == b.rank && a.major == b.major ==> reads_before(a.minor, b.minor)
            &&& a == b ==> s[i] < s[j]
        }),
{
    order::sorting_is_a_stable_permutation(keys);
    let s = order::sorted_positions(keys);
    assert(s.contains(s[i]) && s.contains(s[j]));
    assert(order::in_order(keys, s[i], s[j]));
    let a = keys[s[i]];
    let b = keys[s[j]];
    texts_are_ordered_as_in_a_dictionary(a.major, b.major);
    texts_are_ordered_as_in_a_dictionary(a.minor, b.minor);
    texts_are_ordered_as_in_a_dictionary(a.major, a.major);
    assert(differs_first_at(a.major, a.major, a.major.len() as int));
}

/// Reports that come by severity list every group once. A group with a critical
/// finding never comes behind one without, nor a group with a warning behind one
/// that has neither; groups that are alike in this come by name.
pub proof fn severe_categories_are_listed_first(groups: Seq<GroupView>, i: int, j: int)
    requires
        0 <= i < j < groups.len(),
    ensures
        lists_each_once(findings::severity_order(groups), groups.len() as int),
        ({
            let a = groups[findings::severity_order(groups)[i]];
            let b = groups[findings::severity_order(groups)[j]];
            let critical = |g: GroupView|
                exists|k: int|
                    0 <= k < g.findings.len() && (#[trigger] g.findings[k]).finding.severity
                        == Severity::Critical;
            let warning = |g: GroupView|
                exists|k: int|
                    0 <= k < g.findings.len() && (#[trigger] g.findings[k]).finding.severity
                        == Severity::Warning;
            &&& critical(b) ==> critical(a)
            &&& warning(b) && !critical(b) ==> critical(a) || warning(a)
            &&& critical(a) == critical(b) && (critical(a) || warning(a) == warning(b))
                ==> reads_before(a.category, b.category)
        }),
{
    let keys = groups.map_values(|g: GroupView| findings::severity_key(g));
    lemma_in_order(keys, i, j);
    let s = findings::severity_order(groups);
    assert(keys[s[i]] == findings::severity_key(groups[s[i]]));
    assert(keys[s[j]] == findings::severity_key(groups[s[j]]));
    let a = groups[s[i]].findings;
    let b = groups[s[j]].findings;
    assert(findings::has_severity(a, Severity::Critical) <==> exists|k: int|
        0 <= k < a.len() && (#[trigger] a[k]).finding.severity == Severity::Critical);
    assert(findings::has_severity(b, Severity::Critical) <==> exists|k: int|
        0 <= k < b.len() && (#[trigger] b[k]).finding.severity == Severity::Critical);
    assert(findings::has_severity(a, Severity::Warning) <==> exists|k: int|
        0 <= k < a.len() && (#[trigger] a[k]).finding.severity == Severity::Warning);
    assert(findings::has_severity(b, Severity::Warning) <==> exists|k: int|
        0 <= k < b.len() && (#[trigger] b[k]).finding.severity == Severity::Warning);
}

/// Reports that come by name list every group once, by its category.
pub proof fn categories_are_listed_by_name(groups: Seq<GroupView>, i: int, j: int)
    requires
        0 <= i < j < groups.len(),
    ensures
        lists_each_once(findings::name_order(groups), groups.len() as int),
        reads_before(
            groups[findings::name_order(groups)[i]].category,
            groups[findings::name_order(groups)[j]].category,
        ),
{
    let keys = groups.map_values(|g: GroupView| findings::name_key(g));
    lemma_in_order(keys, i, j);
    let s = findings::name_order(groups);
    assert(keys[s[i]] == findings::name_key(groups[s[i]]));
    assert(keys[s[j]] == findings::name_key(groups[s[j]]));
}

/// The findings of a category are listed once each, by message, those with one
/// message in the order in which they were found. The log of suppressions comes by
/// category, and then by message.
pub proof fn findings_are_listed_by_message(list: Seq<ReportedView>, i: int, j: int)
    requires
        0 <= i < j < list.len(),
    ensures
        lists_each_once(findings::message_order(list), list.len() as int),
        lists_each_once(findings::audit_order(list), list.len() as int),
        ({
            let s = findings::message_order(list);
            let a = list[s[i]].finding.message;
            let b = list[s[j]].finding.message;
            reads_before(a, b) && (a == b ==> s[i] < s[j])
        }),
        ({
            let s = findings::audit_order(list);
            let a = list[s[i]].finding;
            let b = list[s[j]].finding;
            reads_before(a.category, b.category) && (a.category == b.category ==> reads_before(
                a.message,
                b.message,
            ))
        }),
{
    let keys = list.map_values(|r: ReportedView| findings::message_key(r));
    lemma_in_order(keys, i, j);
    let s = findings::message_order(list);
    assert(keys[s[i]] == findings::message_key(list[s[i]]));
    assert(keys[s[j]] == findings::message_key(list[s[j]]));
    let audit = list.map_values(|r: ReportedView| findings::category_and_message_key(r));
    lemma_in_order(audit, i, j);
    let t = findings::audit_order(list);
    assert(audit[t[i]] == findings::category_and_message_key(list[t[i]]));
    assert(audit[t[j]] == findings::category_and_message_key(list[t[j]]));
}

proof fn lemma_suppressed_among(list: Seq<ReportedView>, n: int)
    requires
        0 <= n <= list.len(),
    ensures
        findings::suppressed_among(list, n) == list.take(n).filter(|r: ReportedView| r.suppressed),
    decreases n,
{
    reveal(Seq::filter);
    if n > 0 {
        lemma_suppressed_among(list, n - 1);
        assert(list.take(n).drop_last() =~= list.take(n - 1));
        assert(list.take(n).last() == list[n - 1]);
    } else {
        assert(list.take(0).filter(|r: ReportedView| r.suppressed) =~= Seq::<
            ReportedView,
        >::empty());
    }
}

proof fn lemma_suppressed_in_groups(groups: Seq<GroupView>, n: int)
    requires
        0 <= n <= groups.len(),
    ensures
        findings::suppressed_in_groups(groups, n) == count_laws::all_of(groups.take(n)).filter(
            |r: ReportedView| r.suppressed,
        ),
    decreases n,
{
    let p = |r: ReportedView| r.suppressed;
    reveal(Seq::filter);
    if n > 0 {
        lemma_suppressed_in_groups(groups, n - 1);
        let list = groups[n - 1].findings;
        lemma_suppressed_among(list, list.len() as int);
        assert(list.take(list.len() as int) =~= list);
        assert(groups.take(n).drop_last() =~= groups.take(n - 1));
        assert(groups.take(n).last() == groups[n - 1]);
        Seq::filter_distributes_over_add(count_laws::all_of(groups.take(n - 1)), list, p);
        assert(count_laws::all_of(groups.take(n)) == count_laws::all_of(groups.take(n - 1)) + list);
    } else {
        assert(count_laws::all_of(groups.take(0)).filter(p) =~= Seq::<ReportedView>::empty());
    }
}

/// The log of suppressions is on all acknowledged findings of the report, and on no
/// other one.
pub proof fn the_log_is_on_all_acknowledged_findings(groups: Seq<GroupView>)
    ensures
        findings::suppressed_findings(groups) == count_laws::all_of(groups).filter(
            |r: ReportedView| r.suppressed,
        ),
{
    lemma_suppressed_in_groups(groups, groups.len() as int);
    assert(groups.take(groups.len() as int) =~= groups);
}

} // verus!
