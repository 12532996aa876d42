//! Which findings a suppression rule acknowledges.

use vstd::prelude::*;
use vstd::utf8;

use crate::diff::FindingView;
use crate::digest;
use crate::rule_laws;
use crate::rules;
use crate::suppression;
use crate::suppression::SuppressionRuleView;

verus! {

/// A rule with a target acknowledges nothing but findings with that very target,
/// and a rule with a fingerprint nothing but findings with that very fingerprint,
/// whatever else the two have in common.
pub proof fn targets_and_fingerprints_match_exactly(rule: SuppressionRuleView, f: FindingView)
    ensures
        rule.target matches Some(t) ==> f.target != Some(t) ==> !suppression::acknowledges(rule, f),
        rule.fingerprint matches Some(p) ==> p != suppression::fingerprint(f)
            ==> !suppression::acknowledges(rule, f),
        f.category == rule.rule_id && (rule.target is None || rule.target == f.target) && (
        rule.fingerprint is None || rule.fingerprint == Some(suppression::fingerprint(f)))
            ==> suppression::acknowledges(rule, f),
{
}

/// Of the findings that a comparison reports under a rule of the table, a
/// suppression rule acknowledges exactly those that it calls by the id, the display
/// name or an older name of that rule, with the very target and the very
/// fingerprint where it has one.
pub proof fn a_rule_acknowledges_what_it_describes(
    rule: SuppressionRuleView,
    f: FindingView,
    i: int,
)
    requires
        0 <= i < rules::RULE_COUNT,
        f.category == rules::RULE_LABELS@[i]@,
    ensures
        suppression::acknowledges(rule, f) <==> rule_laws::calls_rule(rule.rule_id, i) && (
        rule.target is None || rule.target == f.target) && (rule.fingerprint is None
            || rule.fingerprint == Some(suppression::fingerprint(f))),
{
    rule_laws::a_category_belongs_to_one_rule(rule.rule_id, i);
    rule_laws::a_category_belongs_to_one_rule(f.category, i);
}

/// A finding whose category is one of the table is never acknowledged by a rule
/// that is written for another one.
pub proof fn a_rule_leaves_other_categories_alone(
    rule: SuppressionRuleView,
    f: FindingView,
    i: int,
    j: int,
)
    requires
        0 <= i < rules::RULE_COUNT,
        0 <= j < rules::RULE_COUNT,
        i != j,
        rule.rule_id == rules::RULE_IDS@[i]@ || rule.rule_id == rules::RULE_LABELS@[i]@,
        f.category == rules::RULE_LABELS@[j]@,
    ensures
        !suppression::acknowledges(rule, f),
{
    rule_laws::a_category_belongs_to_one_rule(rule.rule_id, i);
    rule_laws::a_category_belongs_to_one_rule(f.category, j);
    if suppression::category_key(rule.rule_id) == suppression::category_key(f.category) {
        rule_laws::every_rule_has_names_of_its_own(i, j);
    }
}

/// Whether what a rule says of target and fingerprint fits a finding.
pub open spec fn fits(rule: SuppressionRuleView, f: FindingView) -> bool {
    &&& rule.target is None || rule.target == f.target
    &&& rule.fingerprint is None || rule.fingerprint == Some(suppression::fingerprint(f))
}

/// An acknowledged finding has a rule whose target and fingerprint fit it, and
/// where a rule is written for the very category, target and fingerprint of a
/// finding, the finding is acknowledged: by that rule, or by one before it.
pub proof fn an_acknowledged_finding_has_its_rule(
    rules: Seq<SuppressionRuleView>,
    f: FindingView,
)
    ensures
        suppression::matching_rule(rules, f) matches Some(i) ==> 0 <= i < rules.len() && fits(
            rules[i],
            f,
        ),
        forall|k: int|
            0 <= k < rules.len() && (#[trigger] rules[k]).rule_id == f.category && fits(rules[k], f)
                ==> suppression::matching_rule(rules, f) is Some && suppression::matching_rule(
                rules,
                f,
            )->0 <= k,
        (forall|k: int| 0 <= k < rules.len() ==> !fits(#[trigger] rules[k], f))
            ==> suppression::matching_rule(rules, f) is None,
{
    suppression::the_first_matching_rule_counts(rules, f);
    assert forall|k: int|
        0 <= k < rules.len() && (#[trigger] rules[k]).rule_id == f.category && fits(
            rules[k],
            f,
        ) implies suppression::matching_rule(rules, f) is Some && suppression::matching_rule(
        rules,
        f,
    )->0 <= k by {
        assert(suppression::acknowledges(rules[k], f));
    }
}

/// The fingerprint of a finding is the digest, in hexadecimal, of its category,
/// its target and its message, one below the other.
pub proof fn the_fingerprint_is_a_digest(f: FindingView)
    ensures
        f.target matches Some(t) ==> suppression::fingerprint(f) == digest::hex_of(
            digest::sha256(utf8::encode_utf8(f.category + "\n"@ + t + "\n"@ + f.message)),
        ),
        f.target is None ==> suppression::fingerprint(f) == digest::hex_of(
            digest::sha256(utf8::encode_utf8(f.category + "\n\n"@ + f.message)),
        ),
{
    reveal_strlit("");
    reveal_strlit("\n");
    reveal_strlit("\n\n");
    if f.target is None {
        assert(suppression::fingerprint_input(f) =~= f.category + "\n\n"@ + f.message);
    }
}

/// Nothing of a finding is missing from what its fingerprint is made of: where
/// category and target are on one line each, findings that differ in category,
/// target or message have different texts to digest.
pub proof fn the_fingerprint_covers_the_finding(a: FindingView, b: FindingView)
    requires
        !a.category.contains('\n'),
        !b.category.contains('\n'),
        a.target matches Some(t) ==> !t.contains('\n'),
        b.target matches Some(t) ==> !t.contains('\n'),
        suppression::fingerprint_input(a) == suppression::fingerprint_input(b),
    ensures
        a.category == b.category,
        a.message == b.message,
        a.target is Some && b.target is Some ==> a.target == b.target,
        a.target is None ==> b.target is None || b.target->0.len() == 0,
{
    reveal_strlit("");
    reveal_strlit("\n");
    let x = suppression::fingerprint_input(a);
    let y = suppression::fingerprint_input(b);
    lemma_same_line(
        a.category,
        suppression::target_text(a.target) + "\n"@ + a.message,
        b.category,
        suppression::target_text(b.target) + "\n"@ + b.message,
    );
    assert(x =~= a.category + "\n"@ + (suppression::target_text(a.target) + "\n"@ + a.message));
    assert(y =~= b.category + "\n"@ + (suppression::target_text(b.target) + "\n"@ + b.message));
    assert(!suppression::target_text(a.target).contains('\n'));
    assert(!suppression::target_text(b.target).contains('\n'));
    lemma_same_line(
        suppression::target_text(a.target),
        a.message,
        suppression::target_text(b.target),
        b.message,
    );
}

proof fn lemma_same_line(a: Seq<char>, x: Seq<char>, b: Seq<char>, y: Seq<char>)
    requires
        !a.contains('\n'),
        !b.contains('\n'),
    ensures
        a + "\n"@ + x == b + "\n"@ + y ==> a == b && x == y,
{
    reveal_strlit("\n");
    let s = a + "\n"@ + x;
    let t = b + "\n"@ + y;
    if s == t {
        assert(s[a.len() as int] == '\n');
        assert(t[b.len() as int] == '\n');
        if a.len() < b.len() {
            assert(t[a.len() as int] == b[a.len() as int]);
            assert(b.contains('\n'));
        }
        if b.len() < a.len() {
            assert(s[b.len() as int] == a[b.len() as int]);
            assert(a.contains('\n'));
        }
        assert(a =~= s.take(a.len() as int));
        assert(b =~= t.take(b.len() as int));
        assert(x =~= s.skip(a.len() as int + 1));
        assert(y =~= t.skip(b.len() as int + 1));
    }
}

} // verus!
