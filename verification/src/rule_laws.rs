//! Every rule has names of its own.

use vstd::prelude::*;

use crate::rules;
use crate::suppression;
use crate::text;

verus! {

/// The place of the rule whose id or display name, in lower case, is `s`, told by
/// a few of its letters.
spec fn place_of(s: Seq<char>) -> int {
    if s.len() == 11 {
        if s[0] == 'e' {
            0
        } else {
            32
        }
    } else if s.len() == 16 {
        if s[0] == 'f' {
            1
        } else if s[0] == 'u' {
            39
        } else {
            41
        }
    } else if s.len() == 30 {
        if s[0] == 'f' {
            2
        } else {
            14
        }
    } else if s.len() == 14 {
        if s[0] == 'f' {
            3
        } else {
            15
        }
    } else if s.len() == 26 {
        if s[0] == 'f' {
            4
        } else if s[0] == 's' {
            22
        } else {
            26
        }
    } else if s.len() == 17 {
        if s[0] == 'p' {
            5
        } else {
            28
        }
    } else if s.len() == 19 {
        if s[13] == 'r' {
            6
        } else if s[13] == 'h' {
            11
        } else if s[13] == 'i' {
            12
        } else {
            46
        }
    } else if s.len() == 22 {
        if s[15] == 'c' {
            7
        } else if s[15] == 'w' {
            8
        } else if s[15] == 'o' {
            19
        } else {
            45
        }
    } else if s.len() == 23 {
        if s[6] == 't' {
            9
        } else if s[6] == 'a' {
            29
        } else if s[6] == 'c' {
            if s[16] == 'c' {
                35
            } else {
                36
            }
        } else {
            42
        }
    } else if s.len() == 33 {
        10
    } else if s.len() == 20 {
        if s[1] == 'e' {
            13
        } else if s[1] == 't' {
            18
        } else if s[1] == 'n' {
            34
        } else {
            47
        }
    } else if s.len() == 28 {
        16
    } else if s.len() == 12 {
        if s[0] == 's' {
            17
        } else {
            25
        }
    } else if s.len() == 25 {
        if s[18] == 'c' {
            20
        } else {
            21
        }
    } else if s.len() == 36 {
        23
    } else if s.len() == 18 {
        if s[0] == 's' {
            24
        } else if s[0] == 'u' {
            33
        } else {
            40
        }
    } else if s.len() == 10 {
        27
    } else if s.len() == 15 {
        30
    } else if s.len() == 13 {
        31
    } else if s.len() == 24 {
        37
    } else if s.len() == 34 {
        38
    } else if s.len() == 29 {
        43
    } else if s.len() == 21 {
        44
    } else {
        -1
    }
}

proof fn lemma_places_a(i: int)
    requires
        0 <= i < 8,
    ensures
        place_of(text::ascii_lower_text(rules::RULE_IDS@[i]@)) == i,
        place_of(text::ascii_lower_text(rules::RULE_LABELS@[i]@)) == i,
        rules::RULE_IDS@[i]@.len() > 1 && rules::RULE_LABELS@[i]@.len() > 1,
        rules::RULE_IDS@[i]@[1] != 'v' && rules::RULE_LABELS@[i]@[1] != 'v',
        'a' <= rules::RULE_IDS@[i]@[0],
{
    if i == 0 {
        reveal_strlit("environment");
        reveal_strlit("Environment");
    }
    if i == 1 {
        reveal_strlit("function_removed");
        reveal_strlit("Function Removed");
    }
    if i == 2 {
        reveal_strlit("function_documentation_changed");
        reveal_strlit("Function Documentation Changed");
    }
    if i == 3 {
        reveal_strlit("function_added");
        reveal_strlit("Function Added");
    }
    if i == 4 {
        reveal_strlit("function_signature_changed");
        reveal_strlit("Function Signature Changed");
    }
    if i == 5 {
        reveal_strlit("parameter_renamed");
        reveal_strlit("Parameter Renamed");
    }
    if i == 6 {
        reveal_strlit("parameter_reordered");
        reveal_strlit("Parameter Reordered");
    }
    if i == 7 {
        reveal_strlit("parameter_type_changed");
        reveal_strlit("Parameter Type Changed");
    }
}

proof fn lemma_places_b(i: int)
    requires
        8 <= i < 16,
    ensures
        place_of(text::ascii_lower_text(rules::RULE_IDS@[i]@)) == i,
        place_of(text::ascii_lower_text(rules::RULE_LABELS@[i]@)) == i,
        rules::RULE_IDS@[i]@.len() > 1 && rules::RULE_LABELS@[i]@.len() > 1,
        rules::RULE_IDS@[i]@[1] != 'v' && rules::RULE_LABELS@[i]@[1] != 'v',
        'a' <= rules::RULE_IDS@[i]@[0],
{
    if i == 8 {
        reveal_strlit("parameter_type_widened");
        reveal_strlit("Parameter Type Widened");
    }
    if i == 9 {
        reveal_strlit("parameter_type_narrowed");
        reveal_strlit("Parameter Type Narrowed");
    }
    if i == 10 {
        reveal_strlit("parameter_type_signedness_changed");
        reveal_strlit("Parameter Type Signedness Changed");
    }
    if i == 11 {
        reveal_strlit("return_type_changed");
        reveal_strlit("Return Type Changed");
    }
    if i == 12 {
        reveal_strlit("return_type_widened");
        reveal_strlit("Return Type Widened");
    }
    if i == 13 {
        reveal_strlit("return_type_narrowed");
        reveal_strlit("Return Type Narrowed");
    }
    if i == 14 {
        reveal_strlit("return_type_signedness_changed");
        reveal_strlit("Return Type Signedness Changed");
    }
    if i == 15 {
        reveal_strlit("struct_removed");
        reveal_strlit("Struct Removed");
    }
}

proof fn lemma_places_c(i: int)
    requires
        16 <= i < 24,
    ensures
        place_of(text::ascii_lower_text(rules::RULE_IDS@[i]@)) == i,
        place_of(text::ascii_lower_text(rules::RULE_LABELS@[i]@)) == i,
        rules::RULE_IDS@[i]@.len() > 1 && rules::RULE_LABELS@[i]@.len() > 1,
        rules::RULE_IDS@[i]@[1] != 'v' && rules::RULE_LABELS@[i]@[1] != 'v',
        'a' <= rules::RULE_IDS@[i]@[0],
{
    if i == 16 {
        reveal_strlit("struct_documentation_changed");
        reveal_strlit("Struct Documentation Changed");
    }
    if i == 17 {
        reveal_strlit("struct_added");
        reveal_strlit("Struct Added");
    }
    if i == 18 {
        reveal_strlit("struct_field_removed");
        reveal_strlit("Struct Field Removed");
    }
    if i == 19 {
        reveal_strlit("struct_field_reordered");
        reveal_strlit("Struct Field Reordered");
    }
    if i == 20 {
        reveal_strlit("struct_field_type_changed");
        reveal_strlit("Struct Field Type Changed");
    }
    if i == 21 {
        reveal_strlit("struct_field_type_widened");
        reveal_strlit("Struct Field Type Widened");
    }
    if i == 22 {
        reveal_strlit("struct_field_type_narrowed");
        reveal_strlit("Struct Field Type Narrowed");
    }
    if i == 23 {
        reveal_strlit("struct_field_type_signedness_changed");
        reveal_strlit("Struct Field Type Signedness Changed");
    }
}

proof fn lemma_places_d(i: int)
    requires
        24 <= i < 32,
    ensures
        place_of(text::ascii_lower_text(rules::RULE_IDS@[i]@)) == i,
        place_of(text::ascii_lower_text(rules::RULE_LABELS@[i]@)) == i,
        rules::RULE_IDS@[i]@.len() > 1 && rules::RULE_LABELS@[i]@.len() > 1,
        rules::RULE_IDS@[i]@[1] != 'v' && rules::RULE_LABELS@[i]@[1] != 'v',
        'a' <= rules::RULE_IDS@[i]@[0],
{
    if i == 24 {
        reveal_strlit("struct_field_added");
        reveal_strlit("Struct Field Added");
    }
    if i == 25 {
        reveal_strlit("enum_removed");
        reveal_strlit("Enum Removed");
    }
    if i == 26 {
        reveal_strlit("enum_documentation_changed");
        reveal_strlit("Enum Documentation Changed");
    }
    if i == 27 {
        reveal_strlit("enum_added");
        reveal_strlit("Enum Added");
    }
    if i == 28 {
        reveal_strlit("enum_case_removed");
        reveal_strlit("Enum Case Removed");
    }
    if i == 29 {
        reveal_strlit("enum_case_value_changed");
        reveal_strlit("Enum Case Value Changed");
    }
    if i == 30 {
        reveal_strlit("enum_case_added");
        reveal_strlit("Enum Case Added");
    }
    if i == 31 {
        reveal_strlit("union_removed");
        reveal_strlit("Union Removed");
    }
}

proof fn lemma_places_e(i: int)
    requires
        32 <= i < 40,
    ensures
        place_of(text::ascii_lower_text(rules::RULE_IDS@[i]@)) == i,
        place_of(text::ascii_lower_text(rules::RULE_LABELS@[i]@)) == i,
        rules::RULE_IDS@[i]@.len() > 1 && rules::RULE_LABELS@[i]@.len() > 1,
        rules::RULE_IDS@[i]@[1] != 'v' && rules::RULE_LABELS@[i]@[1] != 'v',
        'a' <= rules::RULE_IDS@[i]@[0],
{
    if i == 32 {
        reveal_strlit("union_added");
        reveal_strlit("Union Added");
    }
    if i == 33 {
        reveal_strlit("union_case_removed");
        reveal_strlit("Union Case Removed");
    }
    if i == 34 {
        reveal_strlit("union_case_reordered");
        reveal_strlit("Union Case Reordered");
    }
    if i == 35 {
        reveal_strlit("union_case_type_changed");
        reveal_strlit("Union Case Type Changed");
    }
    if i == 36 {
        reveal_strlit("union_case_type_widened");
        reveal_strlit("Union Case Type Widened");
    }
    if i == 37 {
        reveal_strlit("union_case_type_narrowed");
        reveal_strlit("Union Case Type Narrowed");
    }
    if i == 38 {
        reveal_strlit("union_case_type_signedness_changed");
        reveal_strlit("Union Case Type Signedness Changed");
    }
    if i == 39 {
        reveal_strlit("union_case_added");
        reveal_strlit("Union Case Added");
    }
}

proof fn lemma_places_f(i: int)
    requires
        40 <= i < 48,
    ensures
        place_of(text::ascii_lower_text(rules::RULE_IDS@[i]@)) == i,
        place_of(text::ascii_lower_text(rules::RULE_LABELS@[i]@)) == i,
        rules::RULE_IDS@[i]@.len() > 1 && rules::RULE_LABELS@[i]@.len() > 1,
        rules::RULE_IDS@[i]@[1] != 'v' && rules::RULE_LABELS@[i]@[1] != 'v',
        'a' <= rules::RULE_IDS@[i]@[0],
{
    if i == 40 {
        reveal_strlit("error_enum_removed");
        reveal_strlit("Error Enum Removed");
    }
    if i == 41 {
        reveal_strlit("error_enum_added");
        reveal_strlit("Error Enum Added");
    }
    if i == 42 {
        reveal_strlit("error_enum_case_removed");
        reveal_strlit("Error Enum Case Removed");
    }
    if i == 43 {
        reveal_strlit("error_enum_case_value_changed");
        reveal_strlit("Error Enum Case Value Changed");
    }
    if i == 44 {
        reveal_strlit("error_enum_case_added");
        reveal_strlit("Error Enum Case Added");
    }
    if i == 45 {
        reveal_strlit("cascading_layout_break");
        reveal_strlit("Cascading Layout Break");
    }
    if i == 46 {
        reveal_strlit("spec_entry_conflict");
        reveal_strlit("Spec Entry Conflict");
    }
    if i == 47 {
        reveal_strlit("spec_entry_duplicate");
        reveal_strlit("Spec Entry Duplicate");
    }
}

proof fn lemma_place(i: int)
    requires
        0 <= i < rules::RULE_COUNT,
    ensures
        place_of(text::ascii_lower_text(rules::RULE_IDS@[i]@)) == i,
        place_of(text::ascii_lower_text(rules::RULE_LABELS@[i]@)) == i,
        rules::RULE_IDS@[i]@.len() > 1 && rules::RULE_LABELS@[i]@.len() > 1,
        rules::RULE_IDS@[i]@[1] != 'v' && rules::RULE_LABELS@[i]@[1] != 'v',
        'a' <= rules::RULE_IDS@[i]@[0],
{
    if i < 8 {
        lemma_places_a(i);
    } else if i < 16 {
        lemma_places_b(i);
    } else if i < 24 {
        lemma_places_c(i);
    } else if i < 32 {
        lemma_places_d(i);
    } else if i < 40 {
        lemma_places_e(i);
    } else {
        lemma_places_f(i);
    }
}

/// No two rules share an id or a display name, in whatever letter case.
pub proof fn every_rule_has_names_of_its_own(i: int, j: int)
    requires
        0 <= i < rules::RULE_COUNT,
        0 <= j < rules::RULE_COUNT,
        ({
            let a = text::ascii_lower_text(rules::RULE_IDS@[i]@);
            let b = text::ascii_lower_text(rules::RULE_LABELS@[i]@);
            let c = text::ascii_lower_text(rules::RULE_IDS@[j]@);
            let d = text::ascii_lower_text(rules::RULE_LABELS@[j]@);
            a == c || a == d || b == c || b == d
        }),
    ensures
        i == j,
{
    lemma_place(i);
    lemma_place(j);
}

proof fn lemma_first_rule(wanted: spec_fn(rules::Rule) -> bool, from: int)
    requires
        0 <= from,
    ensures
        match rules::first_rule(wanted, from) {
            Some(r) => exists|i: int|
                from <= i < rules::RULE_COUNT && r == #[trigger] rules::rule_at(i) && wanted(r),
            None => forall|i: int|
                from <= i < rules::RULE_COUNT ==> !wanted(#[trigger] rules::rule_at(i)),
        },
    decreases rules::RULE_COUNT - from,
{
    if from < rules::RULE_COUNT && !wanted(rules::rule_at(from)) {
        lemma_first_rule(wanted, from + 1);
    }
}

/// A rule is found by its id and by its display name, and in any letter case
/// where that is asked for; what is found has the name that was looked for.
pub proof fn a_rule_is_found_by_its_names(name: Seq<char>, i: int)
    requires
        0 <= i < rules::RULE_COUNT,
    ensures
        rules::rule_with_id(name) == Some(rules::rule_at(i)) <==> name == rules::RULE_IDS@[i]@,
        rules::rule_named(name) == Some(rules::rule_at(i)) <==> name == rules::RULE_IDS@[i]@ || name
            == rules::RULE_LABELS@[i]@,
        rules::rule_named_leniently(name) == Some(rules::rule_at(i)) <==> text::ascii_lower_text(
            name,
        ) == text::ascii_lower_text(rules::RULE_IDS@[i]@) || text::ascii_lower_text(name)
            == text::ascii_lower_text(rules::RULE_LABELS@[i]@),
{
    lemma_first_rule(rules::has_id(name), 0);
    lemma_first_rule(rules::has_name(name), 0);
    lemma_first_rule(rules::has_name_in_any_case(name), 0);
    let rule = rules::rule_at(i);
    match rules::rule_with_id(name) {
        Some(r) => {
            let j = choose|j: int|
                0 <= j < rules::RULE_COUNT && r == #[trigger] rules::rule_at(j) && rules::has_id(
                    name,
                )(r);
            if name == rule.id@ {
                every_rule_has_names_of_its_own(i, j);
            }
        },
        None => {
            assert(!rules::has_id(name)(rules::rule_at(i)));
        },
    }
    match rules::rule_named(name) {
        Some(r) => {
            let j = choose|j: int|
                0 <= j < rules::RULE_COUNT && r == #[trigger] rules::rule_at(j) && rules::has_name(
                    name,
                )(r);
            if name == rule.id@ || name == rule.label@ {
                every_rule_has_names_of_its_own(i, j);
            }
        },
        None => {
            assert(!rules::has_name(name)(rules::rule_at(i)));
        },
    }
    match rules::rule_named_leniently(name) {
        Some(r) => {
            let j = choose|j: int|
                0 <= j < rules::RULE_COUNT && r == #[trigger] rules::rule_at(j)
                    && rules::has_name_in_any_case(name)(r);
            if text::ascii_lower_text(name) == text::ascii_lower_text(rule.id@)
                || text::ascii_lower_text(name) == text::ascii_lower_text(rule.label@) {
                every_rule_has_names_of_its_own(i, j);
            }
        },
        None => {
            assert(!rules::has_name_in_any_case(name)(rules::rule_at(i)));
        },
    }
}

/// A name that no rule has finds none.
pub proof fn other_names_find_no_rule(name: Seq<char>)
    ensures
        rules::rule_with_id(name) is Some <==> exists|i: int|
            0 <= i < rules::RULE_COUNT && (#[trigger] rules::RULE_IDS@[i])@ == name,
        rules::rule_named(name) is Some <==> exists|i: int|
            0 <= i < rules::RULE_COUNT && ((#[trigger] rules::rule_at(i)).id@ == name
                || rules::rule_at(i).label@ == name),
        rules::rule_named_leniently(name) is Some <==> exists|i: int|
            0 <= i < rules::RULE_COUNT && (text::ascii_lower_text((#[trigger] rules::rule_at(i)).id@)
                == text::ascii_lower_text(name) || text::ascii_lower_text(rules::rule_at(i).label@)
                == text::ascii_lower_text(name)),
{
    lemma_first_rule(rules::has_id(name), 0);
    lemma_first_rule(rules::has_name(name), 0);
    lemma_first_rule(rules::has_name_in_any_case(name), 0);
    if rules::rule_with_id(name) is Some {
        let r = rules::rule_with_id(name)->0;
        let i = choose|i: int|
            0 <= i < rules::RULE_COUNT && r == #[trigger] rules::rule_at(i) && rules::has_id(name)(
                r,
            );
        assert(rules::RULE_IDS@[i]@ == name);
    } else {
        assert forall|i: int| 0 <= i < rules::RULE_COUNT implies (#[trigger] rules::RULE_IDS@[i])@
            != name by {
            assert(!rules::has_id(name)(rules::rule_at(i)));
        }
    }
    if rules::rule_named(name) is None {
        assert forall|i: int| 0 <= i < rules::RULE_COUNT implies !((#[trigger] rules::rule_at(
            i,
        )).id@ == name || rules::rule_at(i).label@ == name) by {
            assert(!rules::has_name(name)(rules::rule_at(i)));
        }
    }
    if rules::rule_named_leniently(name) is None {
        assert forall|i: int| 0 <= i < rules::RULE_COUNT implies !(text::ascii_lower_text(
            (#[trigger] rules::rule_at(i)).id@,
        ) == text::ascii_lower_text(name) || text::ascii_lower_text(rules::rule_at(i).label@)
            == text::ascii_lower_text(name)) by {
            assert(!rules::has_name_in_any_case(name)(rules::rule_at(i)));
        }
    }
}

proof fn lemma_legacy_letters(k: int)
    requires
        0 <= k < suppression::LEGACY_COUNT,
    ensures
        suppression::LEGACY_NAMES@[k]@.len() > 1,
        suppression::LEGACY_NAMES@[k]@[1] == 'v',
        suppression::CURRENT_NAMES@[k]@.len() > 1,
        suppression::CURRENT_NAMES@[k]@[0] < 'a',
{
    reveal_strlit("Event Definition Removed");
    reveal_strlit("Event Field Removed");
    reveal_strlit("Event Field Reordered");
    reveal_strlit("Event Field Type Changed");
    reveal_strlit("Event Schema Added");
    reveal_strlit("Event Enum Removed");
    reveal_strlit("Event Enum Case Removed");
    reveal_strlit("Event Enum Case Value Changed");
    reveal_strlit("Event Enum Case Added");
    reveal_strlit("Struct Removed");
    reveal_strlit("Struct Field Removed");
    reveal_strlit("Struct Field Reordered");
    reveal_strlit("Struct Field Type Changed");
    reveal_strlit("Struct Field Added");
    reveal_strlit("Enum Removed");
    reveal_strlit("Enum Case Removed");
    reveal_strlit("Enum Case Value Changed");
    reveal_strlit("Enum Case Added");
}

proof fn lemma_legacy_differ(k: int, m: int)
    requires
        0 <= k < m < suppression::LEGACY_COUNT,
    ensures
        suppression::LEGACY_NAMES@[k]@ != suppression::LEGACY_NAMES@[m]@,
{
    reveal_strlit("Event Definition Removed");
    reveal_strlit("Event Field Removed");
    reveal_strlit("Event Field Reordered");
    reveal_strlit("Event Field Type Changed");
    reveal_strlit("Event Schema Added");
    reveal_strlit("Event Enum Removed");
    reveal_strlit("Event Enum Case Removed");
    reveal_strlit("Event Enum Case Value Changed");
    reveal_strlit("Event Enum Case Added");
    let a = suppression::LEGACY_NAMES@[k]@;
    let b = suppression::LEGACY_NAMES@[m]@;
    assert(a.len() == b.len() ==> exists|i: int| 0 <= i < a.len() && a[i] != b[i]) by {
        if a.len() == b.len() {
            assert(a[6] != b[6] || a[12] != b[12] || a[13] != b[13]);
        }
    }
}

proof fn lemma_current_name(name: Seq<char>, from: int)
    requires
        0 <= from,
    ensures
        (exists|k: int|
            from <= k < suppression::LEGACY_COUNT && (#[trigger] suppression::LEGACY_NAMES@[k])@
                == name && suppression::current_name_from(name, from)
                == suppression::CURRENT_NAMES@[k]@ && forall|m: int|
                from <= m < k ==> (#[trigger] suppression::LEGACY_NAMES@[m])@ != name) || (
        suppression::current_name_from(name, from) == name && forall|k: int|
            from <= k < suppression::LEGACY_COUNT ==> (#[trigger] suppression::LEGACY_NAMES@[k])@
                != name),
    decreases suppression::LEGACY_COUNT - from,
{
    if from < suppression::LEGACY_COUNT && suppression::LEGACY_NAMES@[from]@ != name {
        lemma_current_name(name, from + 1);
    }
}

/// An older name of a category stands for the name that took its place, and every
/// other name for itself: the names of the rules among them.
pub proof fn older_names_stand_for_current_ones(name: Seq<char>)
    ensures
        forall|k: int|
            0 <= k < suppression::LEGACY_COUNT && (#[trigger] suppression::LEGACY_NAMES@[k])@ == name
                ==> suppression::current_name(name) == suppression::CURRENT_NAMES@[k]@,
        (forall|k: int|
            0 <= k < suppression::LEGACY_COUNT ==> (#[trigger] suppression::LEGACY_NAMES@[k])@
                != name) ==> suppression::current_name(name) == name,
        forall|i: int|
            0 <= i < rules::RULE_COUNT && ((#[trigger] rules::rule_at(i)).id@ == name
                || rules::rule_at(i).label@ == name) ==> suppression::current_name(name) == name,
{
    lemma_current_name(name, 0);
    assert forall|k: int|
        0 <= k < suppression::LEGACY_COUNT && (#[trigger] suppression::LEGACY_NAMES@[k])@
            == name implies suppression::current_name(name) == suppression::CURRENT_NAMES@[k]@ by {
        let m = choose|m: int|
            0 <= m < suppression::LEGACY_COUNT && (#[trigger] suppression::LEGACY_NAMES@[m])@
                == name && suppression::current_name_from(name, 0)
                == suppression::CURRENT_NAMES@[m]@;
        if k < m {
            lemma_legacy_differ(k, m);
        } else if m < k {
            lemma_legacy_differ(m, k);
        }
    }
    assert forall|i: int|
        0 <= i < rules::RULE_COUNT && ((#[trigger] rules::rule_at(i)).id@ == name
            || rules::rule_at(i).label@ == name) implies suppression::current_name(name) == name by {
        lemma_place(i);
        assert forall|k: int| 0 <= k < suppression::LEGACY_COUNT implies (
        #[trigger] suppression::LEGACY_NAMES@[k])@ != name by {
            lemma_legacy_letters(k);
        }
    }
}

/// The names by which a configuration may call the rule in position `i`: its id,
/// its display name, and the older names that stand for its display name.
pub open spec fn calls_rule(name: Seq<char>, i: int) -> bool {
    ||| name == rules::RULE_IDS@[i]@
    ||| name == rules::RULE_LABELS@[i]@
    ||| exists|k: int|
        0 <= k < suppression::LEGACY_COUNT && (#[trigger] suppression::LEGACY_NAMES@[k])@ == name
            && suppression::CURRENT_NAMES@[k]@ == rules::RULE_LABELS@[i]@
}

/// The key of a category is the id of a rule exactly where the name is one of
/// that rule.
pub proof fn a_category_belongs_to_one_rule(name: Seq<char>, i: int)
    requires
        0 <= i < rules::RULE_COUNT,
    ensures
        suppression::category_key(name) == rules::RULE_IDS@[i]@ <==> calls_rule(name, i),
{
    let current = suppression::current_name(name);
    let rule = rules::rule_at(i);
    older_names_stand_for_current_ones(name);
    lemma_current_name(name, 0);
    a_rule_is_found_by_its_names(current, i);
    a_rule_is_found_by_its_names(rule.id@, i);
    lemma_place(i);
    lemma_first_rule(rules::has_name(current), 0);
    if suppression::category_key(name) == rule.id@ {
        match rules::rule_named(current) {
            Some(r) => {
                let j = choose|j: int|
                    0 <= j < rules::RULE_COUNT && r == #[trigger] rules::rule_at(j)
                        && rules::has_name(current)(r);
                every_rule_has_names_of_its_own(i, j);
            },
            None => {},
        }
        assert(current == rule.id@ || current == rule.label@);
        if exists|k: int|
            0 <= k < suppression::LEGACY_COUNT && (#[trigger] suppression::LEGACY_NAMES@[k])@
                == name {
            let k = choose|k: int|
                0 <= k < suppression::LEGACY_COUNT && (#[trigger] suppression::LEGACY_NAMES@[k])@
                    == name;
            lemma_legacy_letters(k);
            assert(current == suppression::CURRENT_NAMES@[k]@);
        }
    }
    if calls_rule(name, i) {
        assert(rules::rule_at(i).id@ == rules::RULE_IDS@[i]@);
        assert(current == rule.id@ || current == rule.label@);
    }
}

} // verus!
