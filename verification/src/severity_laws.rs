//! Which findings a table of severities changes.

use vstd::prelude::*;

use crate::diff;
use crate::diff::FindingView;
use crate::diff::Severity;
use crate::report::safety;
use crate::rule_laws;
use crate::rules;
use crate::severity_override;
use crate::suppression;
use crate::suppression::ConfigView;
use crate::text;

verus! {

/// Whether a name, or the one that took its place, is the id or the display name
/// of the rule in position `i`, letter case aside.
pub open spec fn goes_by(name: Seq<char>, i: int) -> bool {
    let current = text::ascii_lower_text(suppression::current_name(name));
    current == text::ascii_lower_text(rules::RULE_IDS@[i]@) || current == text::ascii_lower_text(
        rules::RULE_LABELS@[i]@,
    )
}

proof fn lemma_goes_by(name: Seq<char>, i: int)
    requires
        0 <= i < rules::RULE_COUNT,
    ensures
        goes_by(name, i) <==> severity_override::names_rule(name, rules::RULE_IDS@[i]@),
        goes_by(name, i) <==> rules::rule_named_leniently(suppression::current_name(name)) == Some(
            rules::rule_at(i),
        ),
{
    let current = suppression::current_name(name);
    rule_laws::a_rule_is_found_by_its_names(current, i);
    rule_laws::other_names_find_no_rule(current);
    if severity_override::names_rule(name, rules::RULE_IDS@[i]@) {
        let j = choose|j: int|
            0 <= j < rules::RULE_COUNT && (text::ascii_lower_text((#[trigger] rules::rule_at(j)).id@)
                == text::ascii_lower_text(current) || text::ascii_lower_text(rules::rule_at(j).label@)
                == text::ascii_lower_text(current));
        rule_laws::a_rule_is_found_by_its_names(current, j);
        rule_laws::every_rule_has_names_of_its_own(i, j);
    }
}

proof fn lemma_first_for_rule(
    entries: Seq<(Seq<char>, Severity)>,
    i: int,
    from: int,
    k: int,
)
    requires
        0 <= i < rules::RULE_COUNT,
        0 <= from <= k <= entries.len(),
        forall|j: int| from <= j < k ==> !goes_by((#[trigger] entries[j]).0, i),
        k < entries.len() ==> goes_by(entries[k].0, i),
    ensures
        severity_override::first_for_rule(entries, rules::RULE_IDS@[i]@, from) == (if k
            < entries.len() {
            Some(entries[k].1)
        } else {
            None
        }),
    decreases k - from,
{
    if from < entries.len() {
        lemma_goes_by(entries[from].0, i);
    }
    if from < k {
        assert(!goes_by(entries[from].0, i));
        lemma_first_for_rule(entries, i, from + 1, k);
    }
}

/// A category gets the severity of the first entry that goes by a name of the same
/// rule, and none where no entry does.
pub proof fn a_category_gets_the_severity_of_its_rule(
    entries: Seq<(Seq<char>, Severity)>,
    category: Seq<char>,
    i: int,
    k: int,
)
    requires
        0 <= i < rules::RULE_COUNT,
        goes_by(category, i),
        0 <= k <= entries.len(),
        forall|j: int| 0 <= j < k ==> !goes_by((#[trigger] entries[j]).0, i),
        k < entries.len() ==> goes_by(entries[k].0, i),
    ensures
        severity_override::override_for(entries, category) == (if k < entries.len() {
            Some(entries[k].1)
        } else {
            None
        }),
{
    lemma_goes_by(category, i);
    lemma_first_for_rule(entries, i, 0, k);
}

/// A category that no rule goes by keeps its severity, whatever the table says.
pub proof fn other_categories_get_no_severity(
    entries: Seq<(Seq<char>, Severity)>,
    category: Seq<char>,
)
    requires
        forall|i: int| 0 <= i < rules::RULE_COUNT ==> !#[trigger] goes_by(category, i),
    ensures
        severity_override::override_for(entries, category) is None,
        !severity_override::is_known(category),
{
    let current = suppression::current_name(category);
    rule_laws::other_names_find_no_rule(current);
    if rules::rule_named_leniently(current) is Some {
        let j = choose|j: int|
            0 <= j < rules::RULE_COUNT && (text::ascii_lower_text((#[trigger] rules::rule_at(j)).id@)
                == text::ascii_lower_text(current) || text::ascii_lower_text(rules::rule_at(j).label@)
                == text::ascii_lower_text(current));
        assert(goes_by(category, j));
    }
}

/// A name is accepted in a table exactly where some rule goes by it.
pub proof fn known_names_are_those_of_rules(name: Seq<char>)
    ensures
        severity_override::is_known(name) <==> exists|i: int|
            0 <= i < rules::RULE_COUNT && #[trigger] goes_by(name, i),
{
    if forall|i: int| 0 <= i < rules::RULE_COUNT ==> !#[trigger] goes_by(name, i) {
        other_categories_get_no_severity(Seq::empty(), name);
    } else {
        let i = choose|i: int| 0 <= i < rules::RULE_COUNT && #[trigger] goes_by(name, i);
        lemma_goes_by(name, i);
    }
}

/// An entry for a rule, by its id or its display name, sets the severity of the
/// findings of that rule and of no other one.
pub proof fn an_entry_sets_the_severity_of_one_rule(
    f: FindingView,
    config: ConfigView,
    name: Seq<char>,
    severity: Severity,
    i: int,
    j: int,
)
    requires
        0 <= i < rules::RULE_COUNT,
        0 <= j < rules::RULE_COUNT,
        name == rules::RULE_IDS@[i]@ || name == rules::RULE_LABELS@[i]@,
        config.overrides == seq![(name, severity)],
        f.category == rules::RULE_LABELS@[j]@,
    ensures
        safety::effective_severity(f, config) == (if i == j {
            severity
        } else {
            f.severity
        }),
{
    rule_laws::older_names_stand_for_current_ones(name);
    rule_laws::older_names_stand_for_current_ones(f.category);
    assert(rules::rule_at(i).id@ == name || rules::rule_at(i).label@ == name);
    assert(rules::rule_at(j).label@ == f.category);
    assert(goes_by(name, i));
    assert(goes_by(f.category, j));
    assert(config.overrides[0].0 == name);
    if goes_by(name, j) {
        rule_laws::every_rule_has_names_of_its_own(i, j);
    }
    a_category_gets_the_severity_of_its_rule(
        config.overrides,
        f.category,
        j,
        if i == j {
            0
        } else {
            1
        },
    );
}

/// Of a name that a list mentions several times, the last mention counts, and a
/// table holds no name that the list does not mention.
pub proof fn the_last_mention_counts(pairs: Seq<(Seq<char>, Severity)>, name: Seq<char>, k: int)
    requires
        -1 <= k < pairs.len(),
        k >= 0 ==> pairs[k].0 == name,
        forall|j: int| k < j < pairs.len() ==> (#[trigger] pairs[j]).0 != name,
    ensures
        severity_override::table_of(pairs).contains_key(name) <==> k >= 0,
        k >= 0 ==> severity_override::table_of(pairs)[name] == pairs[k].1,
    decreases pairs.len(),
{
    if pairs.len() > 0 {
        let rest = pairs.drop_last();
        if k < rest.len() {
            assert forall|j: int| k < j < rest.len() implies (#[trigger] rest[j]).0 != name by {
                assert(rest[j] == pairs[j]);
            }
            assert(pairs[pairs.len() - 1].0 != name);
            the_last_mention_counts(rest, name, k);
        }
    }
}

/// Severities have names of their own.
pub proof fn severities_have_names_of_their_own(a: Severity)
    ensures
        diff::severity_label(a) == "critical"@ <==> a == Severity::Critical,
        diff::severity_label(a) == "warning"@ <==> a == Severity::Warning,
        diff::severity_label(a) == "info"@ <==> a == Severity::Info,
{
    reveal_strlit("critical");
    reveal_strlit("warning");
    reveal_strlit("info");
    assert("critical"@[0] == 'c' && "warning"@[0] == 'w' && "info"@[0] == 'i');
}

/// What is said of an unknown name tells it, and tells every name that is suggested
/// for it, in quotation marks; where none is, it does not ask what was meant.
pub proof fn an_unknown_name_is_told(name: Seq<char>, suggestions: Seq<Seq<char>>)
    ensures
        text::begins_with(
            severity_override::unknown_message(name, suggestions),
            "Unknown category \""@ + name + "\" in the [severity] table. "@,
        ),
        forall|k: int|
            0 <= k < suggestions.len() ==> text::has_sub(
                severity_override::unknown_message(name, suggestions),
                "\""@ + #[trigger] suggestions[k] + "\""@,
            ),
        text::begins_with(severity_override::hint(suggestions), "Did you mean: "@)
            <==> suggestions.len() > 0,
{
    broadcast use text::lemma_sub_of_joined;

    let front = "Unknown category \""@ + name + "\" in the [severity] table. "@;
    let hint = severity_override::hint(suggestions);
    assert((front + hint).take(front.len() as int) =~= front);
    reveal_strlit("Did you mean: ");
    reveal_strlit("Run `soroban-upgrade-safeguard explain` to list every known category.");
    if suggestions.len() == 0 {
        assert(hint[0] == 'R');
        if text::begins_with(hint, "Did you mean: "@) {
            assert(hint.take(14)[0] == 'D');
        }
    } else {
        let quoted = text::wrapped(suggestions, "\""@, "\""@);
        assert(hint.take(14) =~= "Did you mean: "@);
        assert forall|k: int| 0 <= k < suggestions.len() implies text::has_sub(
            severity_override::unknown_message(name, suggestions),
            "\""@ + #[trigger] suggestions[k] + "\""@,
        ) by {
            text::lemma_sub_of_list(quoted, ", "@, k);
            assert(quoted[k] == "\""@ + suggestions[k] + "\""@);
            assert(text::has_sub(hint, quoted[k]));
        }
    }
}

} // verus!
