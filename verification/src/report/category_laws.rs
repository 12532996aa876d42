//! Which categories a filter may name, and which ones are on types.

use vstd::prelude::*;

use crate::report::filter;
use crate::rule_laws;
use crate::rules;
use crate::type_diff;

verus! {

/// Whether a category is one of findings on events.
pub open spec fn is_on_events(name: Seq<char>) -> bool {
    ||| name == "Event Definition Removed"@
    ||| name == "Event Field Removed"@
    ||| name == "Event Field Reordered"@
    ||| name == "Event Field Type Changed"@
    ||| name == "Event Enum Removed"@
    ||| name == "Event Enum Case Removed"@
    ||| name == "Event Enum Case Value Changed"@
    ||| name == "Event Enum Case Added"@
}

/// Where the label of a rule stands among the known categories.
spec fn known_place(i: int) -> int {
    if i < 15 {
        i
    } else if i < 19 {
        i + 1
    } else if i < 20 {
        i + 2
    } else if i < 24 {
        i + 3
    } else if i < 25 {
        i + 4
    } else if i < 29 {
        i + 5
    } else if i < 30 {
        i + 6
    } else if i < 31 {
        i + 7
    } else {
        i + 8
    }
}

proof fn lemma_labels_are_known(i: int)
    requires
        0 <= i < rules::RULE_COUNT,
    ensures
        0 <= known_place(i) < filter::KNOWN_COUNT,
        filter::KNOWN_CATEGORIES@[known_place(i)] == rules::RULE_LABELS@[i],
{
    assert(filter::KNOWN_CATEGORIES@[0] == rules::RULE_LABELS@[0]);
    assert(filter::KNOWN_CATEGORIES@[1] == rules::RULE_LABELS@[1]);
    assert(filter::KNOWN_CATEGORIES@[2] == rules::RULE_LABELS@[2]);
    assert(filter::KNOWN_CATEGORIES@[3] == rules::RULE_LABELS@[3]);
    assert(filter::KNOWN_CATEGORIES@[4] == rules::RULE_LABELS@[4]);
    assert(filter::KNOWN_CATEGORIES@[5] == rules::RULE_LABELS@[5]);
    assert(filter::KNOWN_CATEGORIES@[6] == rules::RULE_LABELS@[6]);
    assert(filter::KNOWN_CATEGORIES@[7] == rules::RULE_LABELS@[7]);
    assert(filter::KNOWN_CATEGORIES@[8] == rules::RULE_LABELS@[8]);
    assert(filter::KNOWN_CATEGORIES@[9] == rules::RULE_LABELS@[9]);
    assert(filter::KNOWN_CATEGORIES@[10] == rules::RULE_LABELS@[10]);
    assert(filter::KNOWN_CATEGORIES@[11] == rules::RULE_LABELS@[11]);
    assert(filter::KNOWN_CATEGORIES@[12] == rules::RULE_LABELS@[12]);
    assert(filter::KNOWN_CATEGORIES@[13] == rules::RULE_LABELS@[13]);
    assert(filter::KNOWN_CATEGORIES@[14] == rules::RULE_LABELS@[14]);
    assert(filter::KNOWN_CATEGORIES@[16] == rules::RULE_LABELS@[15]);
    assert(filter::KNOWN_CATEGORIES@[17] == rules::RULE_LABELS@[16]);
    assert(filter::KNOWN_CATEGORIES@[18] == rules::RULE_LABELS@[17]);
    assert(filter::KNOWN_CATEGORIES@[19] == rules::RULE_LABELS@[18]);
    assert(filter::KNOWN_CATEGORIES@[21] == rules::RULE_LABELS@[19]);
    assert(filter::KNOWN_CATEGORIES@[23] == rules::RULE_LABELS@[20]);
    assert(filter::KNOWN_CATEGORIES@[24] == rules::RULE_LABELS@[21]);
    assert(filter::KNOWN_CATEGORIES@[25] == rules::RULE_LABELS@[22]);
    assert(filter::KNOWN_CATEGORIES@[26] == rules::RULE_LABELS@[23]);
    assert(filter::KNOWN_CATEGORIES@[28] == rules::RULE_LABELS@[24]);
    assert(filter::KNOWN_CATEGORIES@[30] == rules::RULE_LABELS@[25]);
    assert(filter::KNOWN_CATEGORIES@[31] == rules::RULE_LABELS@[26]);
    assert(filter::KNOWN_CATEGORIES@[32] == rules::RULE_LABELS@[27]);
    assert(filter::KNOWN_CATEGORIES@[33] == rules::RULE_LABELS@[28]);
    assert(filter::KNOWN_CATEGORIES@[35] == rules::RULE_LABELS@[29]);
    assert(filter::KNOWN_CATEGORIES@[37] == rules::RULE_LABELS@[30]);
    assert(filter::KNOWN_CATEGORIES@[39] == rules::RULE_LABELS@[31]);
    assert(filter::KNOWN_CATEGORIES@[40] == rules::RULE_LABELS@[32]);
    assert(filter::KNOWN_CATEGORIES@[41] == rules::RULE_LABELS@[33]);
    assert(filter::KNOWN_CATEGORIES@[42] == rules::RULE_LABELS@[34]);
    assert(filter::KNOWN_CATEGORIES@[43] == rules::RULE_LABELS@[35]);
    assert(filter::KNOWN_CATEGORIES@[44] == rules::RULE_LABELS@[36]);
    assert(filter::KNOWN_CATEGORIES@[45] == rules::RULE_LABELS@[37]);
    assert(filter::KNOWN_CATEGORIES@[46] == rules::RULE_LABELS@[38]);
    assert(filter::KNOWN_CATEGORIES@[47] == rules::RULE_LABELS@[39]);
    assert(filter::KNOWN_CATEGORIES@[48] == rules::RULE_LABELS@[40]);
    assert(filter::KNOWN_CATEGORIES@[49] == rules::RULE_LABELS@[41]);
    assert(filter::KNOWN_CATEGORIES@[50] == rules::RULE_LABELS@[42]);
    assert(filter::KNOWN_CATEGORIES@[51] == rules::RULE_LABELS@[43]);
    assert(filter::KNOWN_CATEGORIES@[52] == rules::RULE_LABELS@[44]);
    assert(filter::KNOWN_CATEGORIES@[53] == rules::RULE_LABELS@[45]);
    assert(filter::KNOWN_CATEGORIES@[54] == rules::RULE_LABELS@[46]);
    assert(filter::KNOWN_CATEGORIES@[55] == rules::RULE_LABELS@[47]);
}

proof fn lemma_known_are_labels(j: int)
    requires
        0 <= j < filter::KNOWN_COUNT,
    ensures
        is_on_events(filter::KNOWN_CATEGORIES@[j]@) || exists|i: int|
            0 <= i < rules::RULE_COUNT && (#[trigger] rules::RULE_LABELS@[i])@
                == filter::KNOWN_CATEGORIES@[j]@,
{
    assert(filter::KNOWN_CATEGORIES@[0] == rules::RULE_LABELS@[0]);
    assert(filter::KNOWN_CATEGORIES@[1] == rules::RULE_LABELS@[1]);
    assert(filter::KNOWN_CATEGORIES@[2] == rules::RULE_LABELS@[2]);
    assert(filter::KNOWN_CATEGORIES@[3] == rules::RULE_LABELS@[3]);
    assert(filter::KNOWN_CATEGORIES@[4] == rules::RULE_LABELS@[4]);
    assert(filter::KNOWN_CATEGORIES@[5] == rules::RULE_LABELS@[5]);
    assert(filter::KNOWN_CATEGORIES@[6] == rules::RULE_LABELS@[6]);
    assert(filter::KNOWN_CATEGORIES@[7] == rules::RULE_LABELS@[7]);
    assert(filter::KNOWN_CATEGORIES@[8] == rules::RULE_LABELS@[8]);
    assert(filter::KNOWN_CATEGORIES@[9] == rules::RULE_LABELS@[9]);
    assert(filter::KNOWN_CATEGORIES@[10] == rules::RULE_LABELS@[10]);
    assert(filter::KNOWN_CATEGORIES@[11] == rules::RULE_LABELS@[11]);
    assert(filter::KNOWN_CATEGORIES@[12] == rules::RULE_LABELS@[12]);
    assert(filter::KNOWN_CATEGORIES@[13] == rules::RULE_LABELS@[13]);
    assert(filter::KNOWN_CATEGORIES@[14] == rules::RULE_LABELS@[14]);
    assert(filter::KNOWN_CATEGORIES@[15] == "Event Definition Removed");
    assert(filter::KNOWN_CATEGORIES@[16] == rules::RULE_LABELS@[15]);
    assert(filter::KNOWN_CATEGORIES@[17] == rules::RULE_LABELS@[16]);
    assert(filter::KNOWN_CATEGORIES@[18] == rules::RULE_LABELS@[17]);
    assert(filter::KNOWN_CATEGORIES@[19] == rules::RULE_LABELS@[18]);
    assert(filter::KNOWN_CATEGORIES@[20] == "Event Field Removed");
    assert(filter::KNOWN_CATEGORIES@[21] == rules::RULE_LABELS@[19]);
    assert(filter::KNOWN_CATEGORIES@[22] == "Event Field Reordered");
    assert(filter::KNOWN_CATEGORIES@[23] == rules::RULE_LABELS@[20]);
    assert(filter::KNOWN_CATEGORIES@[24] == rules::RULE_LABELS@[21]);
    assert(filter::KNOWN_CATEGORIES@[25] == rules::RULE_LABELS@[22]);
    assert(filter::KNOWN_CATEGORIES@[26] == rules::RULE_LABELS@[23]);
    assert(filter::KNOWN_CATEGORIES@[27] == "Event Field Type Changed");
    assert(filter::KNOWN_CATEGORIES@[28] == rules::RULE_LABELS@[24]);
    assert(filter::KNOWN_CATEGORIES@[29] == "Event Enum Removed");
    assert(filter::KNOWN_CATEGORIES@[30] == rules::RULE_LABELS@[25]);
    assert(filter::KNOWN_CATEGORIES@[31] == rules::RULE_LABELS@[26]);
    assert(filter::KNOWN_CATEGORIES@[32] == rules::RULE_LABELS@[27]);
    assert(filter::KNOWN_CATEGORIES@[33] == rules::RULE_LABELS@[28]);
    assert(filter::KNOWN_CATEGORIES@[34] == "Event Enum Case Removed");
    assert(filter::KNOWN_CATEGORIES@[35] == rules::RULE_LABELS@[29]);
    assert(filter::KNOWN_CATEGORIES@[36] == "Event Enum Case Value Changed");
    assert(filter::KNOWN_CATEGORIES@[37] == rules::RULE_LABELS@[30]);
    assert(filter::KNOWN_CATEGORIES@[38] == "Event Enum Case Added");
    assert(filter::KNOWN_CATEGORIES@[39] == rules::RULE_LABELS@[31]);
    assert(filter::KNOWN_CATEGORIES@[40] == rules::RULE_LABELS@[32]);
    assert(filter::KNOWN_CATEGORIES@[41] == rules::RULE_LABELS@[33]);
    assert(filter::KNOWN_CATEGORIES@[42] == rules::RULE_LABELS@[34]);
    assert(filter::KNOWN_CATEGORIES@[43] == rules::RULE_LABELS@[35]);
    assert(filter::KNOWN_CATEGORIES@[44] == rules::RULE_LABELS@[36]);
    assert(filter::KNOWN_CATEGORIES@[45] == rules::RULE_LABELS@[37]);
    assert(filter::KNOWN_CATEGORIES@[46] == rules::RULE_LABELS@[38]);
    assert(filter::KNOWN_CATEGORIES@[47] == rules::RULE_LABELS@[39]);
    assert(filter::KNOWN_CATEGORIES@[48] == rules::RULE_LABELS@[40]);
    assert(filter::KNOWN_CATEGORIES@[49] == rules::RULE_LABELS@[41]);
    assert(filter::KNOWN_CATEGORIES@[50] == rules::RULE_LABELS@[42]);
    assert(filter::KNOWN_CATEGORIES@[51] == rules::RULE_LABELS@[43]);
    assert(filter::KNOWN_CATEGORIES@[52] == rules::RULE_LABELS@[44]);
    assert(filter::KNOWN_CATEGORIES@[53] == rules::RULE_LABELS@[45]);
    assert(filter::KNOWN_CATEGORIES@[54] == rules::RULE_LABELS@[46]);
    assert(filter::KNOWN_CATEGORIES@[55] == rules::RULE_LABELS@[47]);
}

/// A filter may name exactly the labels of the rules and the categories of findings
/// on events.
pub proof fn a_filter_may_name_the_labels_of_rules(name: Seq<char>)
    ensures
        filter::is_known_category(name) <==> is_on_events(name) || exists|i: int|
            0 <= i < rules::RULE_COUNT && (#[trigger] rules::RULE_LABELS@[i])@ == name,
{
    if filter::is_known_category(name) {
        let j = choose|j: int|
            0 <= j < filter::KNOWN_COUNT && (#[trigger] filter::KNOWN_CATEGORIES@[j])@ == name;
        lemma_known_are_labels(j);
    }
    if exists|i: int| 0 <= i < rules::RULE_COUNT && (#[trigger] rules::RULE_LABELS@[i])@ == name {
        let i = choose|i: int|
            0 <= i < rules::RULE_COUNT && (#[trigger] rules::RULE_LABELS@[i])@ == name;
        lemma_labels_are_known(i);
        assert(filter::KNOWN_CATEGORIES@[known_place(i)]@ == name);
    }
    if is_on_events(name) {
        assert(filter::KNOWN_CATEGORIES@[15] == "Event Definition Removed");
        assert(filter::KNOWN_CATEGORIES@[20] == "Event Field Removed");
        assert(filter::KNOWN_CATEGORIES@[22] == "Event Field Reordered");
        assert(filter::KNOWN_CATEGORIES@[27] == "Event Field Type Changed");
        assert(filter::KNOWN_CATEGORIES@[29] == "Event Enum Removed");
        assert(filter::KNOWN_CATEGORIES@[34] == "Event Enum Case Removed");
        assert(filter::KNOWN_CATEGORIES@[36] == "Event Enum Case Value Changed");
        assert(filter::KNOWN_CATEGORIES@[38] == "Event Enum Case Added");
    }
}

proof fn lemma_unknown_among(names: Seq<Seq<char>>, n: int)
    requires
        0 <= n <= names.len(),
    ensures
        filter::unknown_among(names, n) == names.take(n).filter(
            |name: Seq<char>| !filter::is_known_category(name),
        ),
    decreases n,
{
    reveal(Seq::filter);
    if n > 0 {
        lemma_unknown_among(names, n - 1);
        assert(names.take(n).drop_last() =~= names.take(n - 1));
        assert(names.take(n).last() == names[n - 1]);
    }
}

/// The names that are told to be unknown are those of the list that no filter may
/// name, as often as they stand in it and in its order.
pub proof fn unknown_names_are_told(names: Seq<Seq<char>>)
    ensures
        filter::unknown_among(names, names.len() as int) == names.filter(
            |name: Seq<char>| !filter::is_known_category(name),
        ),
{
    lemma_unknown_among(names, names.len() as int);
    assert(names.take(names.len() as int) =~= names);
}

/// The place of the rule of a category on types.
spec fn type_rule(k: int) -> int {
    if k < 8 {
        k + 7
    } else if k < 12 {
        k + 12
    } else {
        k + 23
    }
}

proof fn lemma_type_rules(k: int)
    requires
        0 <= k < type_diff::TYPE_CHANGE_COUNT,
    ensures
        type_diff::TYPE_CHANGE_CATEGORIES@[k] == rules::RULE_LABELS@[type_rule(k)],
{
    assert(type_diff::TYPE_CHANGE_CATEGORIES@[0] == rules::RULE_LABELS@[7]);
    assert(type_diff::TYPE_CHANGE_CATEGORIES@[1] == rules::RULE_LABELS@[8]);
    assert(type_diff::TYPE_CHANGE_CATEGORIES@[2] == rules::RULE_LABELS@[9]);
    assert(type_diff::TYPE_CHANGE_CATEGORIES@[3] == rules::RULE_LABELS@[10]);
    assert(type_diff::TYPE_CHANGE_CATEGORIES@[4] == rules::RULE_LABELS@[11]);
    assert(type_diff::TYPE_CHANGE_CATEGORIES@[5] == rules::RULE_LABELS@[12]);
    assert(type_diff::TYPE_CHANGE_CATEGORIES@[6] == rules::RULE_LABELS@[13]);
    assert(type_diff::TYPE_CHANGE_CATEGORIES@[7] == rules::RULE_LABELS@[14]);
    assert(type_diff::TYPE_CHANGE_CATEGORIES@[8] == rules::RULE_LABELS@[20]);
    assert(type_diff::TYPE_CHANGE_CATEGORIES@[9] == rules::RULE_LABELS@[21]);
    assert(type_diff::TYPE_CHANGE_CATEGORIES@[10] == rules::RULE_LABELS@[22]);
    assert(type_diff::TYPE_CHANGE_CATEGORIES@[11] == rules::RULE_LABELS@[23]);
    assert(type_diff::TYPE_CHANGE_CATEGORIES@[12] == rules::RULE_LABELS@[35]);
    assert(type_diff::TYPE_CHANGE_CATEGORIES@[13] == rules::RULE_LABELS@[36]);
    assert(type_diff::TYPE_CHANGE_CATEGORIES@[14] == rules::RULE_LABELS@[37]);
    assert(type_diff::TYPE_CHANGE_CATEGORIES@[15] == rules::RULE_LABELS@[38]);
}

/// The categories on types are those of the rules for parameters, return values,
/// fields and cases whose type is changed, widened, narrowed or of another sign.
pub proof fn type_changes_have_rules_of_their_own(i: int)
    requires
        0 <= i < rules::RULE_COUNT,
    ensures
        type_diff::is_type_change(rules::RULE_LABELS@[i]@) <==> 7 <= i <= 14 || 20 <= i <= 23 || 35
            <= i <= 38,
        rules::RULE_LABELS@[7]@ == "Parameter Type Changed"@,
        rules::RULE_LABELS@[14]@ == "Return Type Signedness Changed"@,
        rules::RULE_LABELS@[20]@ == "Struct Field Type Changed"@,
        rules::RULE_LABELS@[23]@ == "Struct Field Type Signedness Changed"@,
        rules::RULE_LABELS@[35]@ == "Union Case Type Changed"@,
        rules::RULE_LABELS@[38]@ == "Union Case Type Signedness Changed"@,
{
    if type_diff::is_type_change(rules::RULE_LABELS@[i]@) {
        let k = choose|k: int|
            0 <= k < type_diff::TYPE_CHANGE_COUNT && (
            #[trigger] type_diff::TYPE_CHANGE_CATEGORIES@[k])@ == rules::RULE_LABELS@[i]@;
        lemma_type_rules(k);
        if type_rule(k) != i {
            rule_laws::every_rule_has_names_of_its_own(i, type_rule(k));
        }
    }
    if 7 <= i <= 14 || 20 <= i <= 23 || 35 <= i <= 38 {
        let k = if i <= 14 {
            i - 7
        } else if i <= 23 {
            i - 12
        } else {
            i - 23
        };
        lemma_type_rules(k);
        assert(type_diff::TYPE_CHANGE_CATEGORIES@[k]@ == rules::RULE_LABELS@[i]@);
    }
}

/// Every category on types is the label of a rule.
pub proof fn type_changes_are_labels(category: Seq<char>)
    requires
        type_diff::is_type_change(category),
    ensures
        exists|i: int|
            0 <= i < rules::RULE_COUNT && (#[trigger] rules::RULE_LABELS@[i])@ == category,
{
    let k = choose|k: int|
        0 <= k < type_diff::TYPE_CHANGE_COUNT && (#[trigger] type_diff::TYPE_CHANGE_CATEGORIES@[k])@
            == category;
    lemma_type_rules(k);
    assert(rules::RULE_LABELS@[type_rule(k)]@ == category);
}

} // verus!
