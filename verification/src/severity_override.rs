//! Severities that a project sets for itself, category by category.

use vstd::prelude::*;

use crate::diff::Severity;
use crate::rules;
use crate::suppression;
use crate::text;

verus! {

/// The severities that a project wants categories reported at, by category name
/// as it was written, in the order of the names.
#[derive(Debug)]
pub struct SeverityOverrides {
    entries: Vec<(String, Severity)>,
}

impl View for SeverityOverrides {
    type V = Seq<(Seq<char>, Severity)>;

    closed spec fn view(&self) -> Seq<(Seq<char>, Severity)> {
        entry_views(self.entries@)
    }
}

/// The views of a list of names with severities.
pub open spec fn entry_views(pairs: Seq<(String, Severity)>) -> Seq<(Seq<char>, Severity)> {
    pairs.map_values(|p: (String, Severity)| (p.0@, p.1))
}

/// Whether the names go up strictly.
pub open spec fn names_ascend(entries: Seq<(Seq<char>, Severity)>) -> bool {
    forall|i: int, j: int|
        0 <= i < j < entries.len() ==> #[trigger] entries[i].0 != #[trigger] entries[j].0
            && text::text_le(entries[i].0, entries[j].0)
}

/// The severity that each name of a list has, where the last mention counts.
pub open spec fn table_of(pairs: Seq<(Seq<char>, Severity)>) -> Map<Seq<char>, Severity>
    decreases pairs.len(),
{
    if pairs.len() == 0 {
        Map::empty()
    } else {
        table_of(pairs.drop_last()).insert(pairs.last().0, pairs.last().1)
    }
}

/// Whether a name is one of a category: a rule id, a display name or an older
/// name, in any letter case.
pub open spec fn is_known(name: Seq<char>) -> bool {
    rules::rule_named_leniently(suppression::current_name(name)) is Some
}

/// Whether a name stands for the rule with the id `id`.
pub open spec fn names_rule(name: Seq<char>, id: Seq<char>) -> bool {
    match rules::rule_named_leniently(suppression::current_name(name)) {
        Some(rule) => rule.id@ == id,
        None => false,
    }
}

/// The severity of the first entry from `from` on that names the rule `id`.
pub open spec fn first_for_rule(
    entries: Seq<(Seq<char>, Severity)>,
    id: Seq<char>,
    from: int,
) -> Option<Severity>
    decreases entries.len() - from,
{
    if from < 0 || from >= entries.len() {
        None
    } else if names_rule(entries[from].0, id) {
        Some(entries[from].1)
    } else {
        first_for_rule(entries, id, from + 1)
    }
}

/// The severity that a table of overrides gives to a category.
pub open spec fn override_for(
    entries: Seq<(Seq<char>, Severity)>,
    category: Seq<char>,
) -> Option<Severity> {
    match rules::rule_named_leniently(suppression::current_name(category)) {
        Some(rule) => first_for_rule(entries, rule.id@, 0),
        None => None,
    }
}

/// A name in the table that is no category.
#[derive(Debug)]
pub struct UnknownCategory {
    pub name: String,
    /// The display names that may have been meant.
    pub suggestions: Vec<String>,
}

/// What is said of a name that is no category.
pub open spec fn unknown_message(name: Seq<char>, suggestions: Seq<Seq<char>>) -> Seq<char> {
    "Unknown category \""@ + name + "\" in the [severity] table. "@ + hint(suggestions)
}

/// The advice that goes with an unknown name.
pub open spec fn hint(suggestions: Seq<Seq<char>>) -> Seq<char> {
    if suggestions.len() == 0 {
        "Run `soroban-upgrade-safeguard explain` to list every known category."@
    } else {
        "Did you mean: "@ + text::joined(text::wrapped(suggestions, "\""@, "\""@), ", "@)
            + "? Run `soroban-upgrade-safeguard explain` to list every known category."@
    }
}

impl UnknownCategory {
    /// What is said of the name.
    pub fn message(&self) -> (r: String)
        ensures
            r@ == unknown_message(self.name@, text::views(self.suggestions@)),
    {
        let mut out = "Unknown category \"".to_string();
        out.append(self.name.as_str());
        out.append("\" in the [severity] table. ");
        out.append(hint_text(&self.suggestions).as_str());
        out
    }
}

fn hint_text(suggestions: &Vec<String>) -> (r: String)
    ensures
        r@ == hint(text::views(suggestions@)),
{
    if suggestions.len() == 0 {
        return "Run `soroban-upgrade-safeguard explain` to list every known category.".to_string();
    }
    let mut marked: Vec<String> = Vec::new();
    text::add_wrapped(&mut marked, suggestions, "\"", "\"");
    assert(text::views(marked@) =~= text::wrapped(text::views(suggestions@), "\""@, "\""@));
    let mut out = "Did you mean: ".to_string();
    out.append(text::join(&marked, ", ").as_str());
    out.append("? Run `soroban-upgrade-safeguard explain` to list every known category.");
    out
}

impl Default for SeverityOverrides {
    /// A table without entries.
    fn default() -> (r: Self)
        ensures
            r@.len() == 0,
    {
        SeverityOverrides { entries: Vec::new() }
    }
}

proof fn lemma_table_domain(entries: Seq<(Seq<char>, Severity)>, name: Seq<char>)
    ensures
        table_of(entries).dom().contains(name) <==> exists|i: int|
            0 <= i < entries.len() && #[trigger] entries[i].0 == name,
    decreases entries.len(),
{
    if entries.len() > 0 {
        let rest = entries.drop_last();
        lemma_table_domain(rest, name);
        if table_of(rest).dom().contains(name) {
            let i = choose|i: int| 0 <= i < rest.len() && #[trigger] rest[i].0 == name;
            assert(entries[i].0 == name);
        }
        if entries.last().0 == name {
            assert(entries[entries.len() - 1].0 == name);
        }
        if exists|i: int| 0 <= i < entries.len() && #[trigger] entries[i].0 == name {
            let i = choose|i: int| 0 <= i < entries.len() && #[trigger] entries[i].0 == name;
            if i < rest.len() {
                assert(rest[i].0 == name);
            }
        }
    }
}

/// Where no name occurs twice, each entry is what the table holds for its name.
proof fn lemma_table_entries(entries: Seq<(Seq<char>, Severity)>)
    requires
        names_ascend(entries),
    ensures
        forall|i: int|
            0 <= i < entries.len() ==> table_of(entries)[(#[trigger] entries[i]).0] == entries[i].1,
    decreases entries.len(),
{
    if entries.len() > 0 {
        let rest = entries.drop_last();
        assert(names_ascend(rest)) by {
            assert forall|i: int, j: int| 0 <= i < j < rest.len() implies #[trigger] rest[i].0
                != #[trigger] rest[j].0 && text::text_le(rest[i].0, rest[j].0) by {
                assert(entries[i].0 != entries[j].0);
            }
        }
        lemma_table_entries(rest);
        assert forall|i: int| 0 <= i < entries.len() implies table_of(
            entries,
        )[(#[trigger] entries[i]).0] == entries[i].1 by {
            if i < rest.len() {
                assert(entries[i].0 != entries[entries.len() - 1].0);
                assert(rest[i] == entries[i]);
            }
        }
    }
}

/// The table of a list of entries whose names ascend, given by its entries.
proof fn lemma_same_table(
    entries: Seq<(Seq<char>, Severity)>,
    before: Seq<(Seq<char>, Severity)>,
    name: Seq<char>,
    severity: Severity,
)
    requires
        names_ascend(entries),
        names_ascend(before),
        forall|i: int|
            0 <= i < entries.len() ==> (#[trigger] entries[i]) == (name, severity)
                || before.contains(entries[i]) && entries[i].0 != name,
        forall|i: int|
            0 <= i < before.len() ==> (#[trigger] before[i]).0 == name || entries.contains(
                before[i],
            ),
        entries.contains((name, severity)),
    ensures
        table_of(entries) == table_of(before).insert(name, severity),
{
    lemma_table_entries(entries);
    lemma_table_entries(before);
    let wanted = table_of(before).insert(name, severity);
    assert forall|n: Seq<char>| table_of(entries).dom().contains(n) <==> wanted.dom().contains(
        n,
    ) by {
        lemma_table_domain(entries, n);
        lemma_table_domain(before, n);
        if table_of(entries).dom().contains(n) {
            let i = choose|i: int| 0 <= i < entries.len() && #[trigger] entries[i].0 == n;
            if entries[i] != (name, severity) {
                let k = choose|k: int| 0 <= k < before.len() && before[k] == entries[i];
                assert(before[k].0 == n);
            }
        }
        if n == name {
            let k = choose|k: int| 0 <= k < entries.len() && entries[k] == (name, severity);
            assert(entries[k].0 == n);
        } else if table_of(before).dom().contains(n) {
            let i = choose|i: int| 0 <= i < before.len() && #[trigger] before[i].0 == n;
            let k = choose|k: int| 0 <= k < entries.len() && entries[k] == before[i];
            assert(entries[k].0 == n);
        }
    }
    assert forall|n: Seq<char>| table_of(entries).dom().contains(n) implies table_of(entries)[n]
        == wanted[n] by {
        lemma_table_domain(entries, n);
        let i = choose|i: int| 0 <= i < entries.len() && #[trigger] entries[i].0 == n;
        assert(table_of(entries)[entries[i].0] == entries[i].1);
        if entries[i] != (name, severity) {
            let k = choose|k: int| 0 <= k < before.len() && before[k] == entries[i];
            assert(table_of(before)[before[k].0] == before[k].1);
        }
    }
    assert(table_of(entries) =~= wanted);
}

impl SeverityOverrides {
    /// Whether the names of the table go up strictly.
    #[verifier::type_invariant]
    spec fn ascending(self) -> bool {
        names_ascend(entry_views(self.entries@))
    }

    /// Sets the severity of a name.
    fn set(&mut self, name: String, severity: Severity)
        ensures
            names_ascend(final(self)@),
            table_of(final(self)@) == table_of(old(self)@).insert(name@, severity),
    {
        proof {
            use_type_invariant(&*self);
        }
        let mut entries: Vec<(String, Severity)> = Vec::new();
        std::mem::swap(&mut entries, &mut self.entries);
        let ghost before = entry_views(entries@);
        let mut at: usize = 0;
        while at < entries.len() && entries[at].0 != name && text::le_text(
            entries[at].0.as_str(),
            name.as_str(),
        )
            invariant
                at <= entries@.len(),
                forall|i: int|
                    0 <= i < at ==> (#[trigger] entries@[i]).0@ != name@ && text::text_le(
                        entries@[i].0@,
                        name@,
                    ),
            decreases entries@.len() - at,
        {
            at = at + 1;
        }
        let ghost key = name@;
        if at < entries.len() && entries[at].0 == name {
            let ghost here = entries@[at as int].0@;
            entries.set(at, (name, severity));
            proof {
                let after = entry_views(entries@);
                assert(after =~= before.update(at as int, (key, severity)));
                lemma_replaced(before, after, at as int, key, severity);
            }
        } else {
            proof {
                lemma_inserted(before, at as int, key, severity);
            }
            entries.insert(at, (name, severity));
            proof {
                assert(entry_views(entries@) =~= before.insert(at as int, (key, severity)));
            }
        }
        self.entries = entries;
    }

    /// The table that a list of names with severities describes; of a name that
    /// occurs twice the last mention counts.
    pub fn from_pairs(pairs: Vec<(String, Severity)>) -> (r: Self)
        ensures
            names_ascend(r@),
            table_of(r@) == table_of(entry_views(pairs@)),
    {
        let mut r = SeverityOverrides::default();
        let mut i: usize = 0;
        assert(table_of(r@) =~= table_of(entry_views(pairs@).take(0)));
        while i < pairs.len()
            invariant
                i <= pairs@.len(),
                names_ascend(r@),
                table_of(r@) == table_of(entry_views(pairs@).take(i as int)),
            decreases pairs@.len() - i,
        {
            r.set(pairs[i].0.clone(), pairs[i].1);
            assert(entry_views(pairs@).take(i + 1).drop_last() =~= entry_views(pairs@).take(
                i as int,
            ));
            i = i + 1;
        }
        assert(entry_views(pairs@).take(i as int) =~= entry_views(pairs@));
        r
    }

    /// Whether the table has no entries.
    pub fn is_empty(&self) -> (r: bool)
        ensures
            r == (self@.len() == 0),
    {
        self.entries.len() == 0
    }

    /// The number of entries.
    pub fn len(&self) -> (r: usize)
        ensures
            r == self@.len(),
    {
        self.entries.len()
    }

    /// Every entry, in the order of the names as they were written.
    pub fn iter(&self) -> (r: Vec<(&str, &Severity)>)
        ensures
            r@.len() == self@.len(),
            forall|i: int|
                0 <= i < self@.len() ==> (#[trigger] r@[i]).0@ == self@[i].0 && *r@[i].1
                    == self@[i].1,
            names_ascend(self@),
    {
        proof {
            use_type_invariant(&*self);
        }
        let mut out: Vec<(&str, &Severity)> = Vec::new();
        let mut i: usize = 0;
        while i < self.entries.len()
            invariant
                i <= self.entries@.len(),
                out@.len() == i,
                forall|k: int|
                    0 <= k < i ==> (#[trigger] out@[k]).0@ == self@[k].0 && *out@[k].1
                        == self@[k].1,
            decreases self.entries@.len() - i,
        {
            out.push((self.entries[i].0.as_str(), &self.entries[i].1));
            i = i + 1;
        }
        out
    }

    /// Fails on the first name of the table that is no category.
    pub fn validate(&self) -> (r: Result<(), UnknownCategory>)
        ensures
            r is Ok <==> forall|i: int| 0 <= i < self@.len() ==> is_known((#[trigger] self@[i]).0),
            r matches Err(e) ==> exists|i: int|
                0 <= i < self@.len() && (#[trigger] self@[i]).0 == e.name@ && !is_known(e.name@) && (
                forall|j: int| 0 <= j < i ==> is_known((#[trigger] self@[j]).0)),
            r matches Err(e) ==> text::views(e.suggestions@) == rules::near_labels(
                e.name@,
                rules::RULE_COUNT as int,
            ),
    {
        let mut i: usize = 0;
        while i < self.entries.len()
            invariant
                i <= self.entries@.len(),
                forall|k: int| 0 <= k < i ==> is_known((#[trigger] self@[k]).0),
            decreases self.entries@.len() - i,
        {
            let name = self.entries[i].0.as_str();
            assert(self@[i as int].0 == name@);
            if rules::lookup_rule_lenient(suppression::stable_category(name)).is_none() {
                let e = UnknownCategory {
                    name: self.entries[i].0.clone(),
                    suggestions: rules::suggest_categories(name),
                };
                assert(self@[i as int].0 == e.name@ && !is_known(e.name@));
                return Err(e);
            }
            i = i + 1;
        }
        Ok(())
    }

    /// The severity that the table gives to a category: that of the first entry
    /// that names the same rule, by its id, its display name or an older name.
    pub fn severity_for(&self, category: &str) -> (r: Option<Severity>)
        ensures
            r == override_for(self@, category@),
    {
        match rules::lookup_rule_lenient(suppression::stable_category(category)) {
            None => None,
            Some(target) => {
                let mut i: usize = 0;
                while i < self.entries.len()
                    invariant
                        i <= self.entries@.len(),
                        override_for(self@, category@) == first_for_rule(
                            self@,
                            target.id@,
                            i as int,
                        ),
                    decreases self.entries@.len() - i,
                {
                    let name = self.entries[i].0.as_str();
                    assert(self@[i as int] == (name@, self.entries@[i as int].1));
                    match rules::lookup_rule_lenient(suppression::stable_category(name)) {
                        Some(rule) => {
                            if text::same_text(rule.id, target.id) {
                                return Some(self.entries[i].1);
                            }
                        },
                        None => {},
                    }
                    i = i + 1;
                }
                None
            },
        }
    }
}

proof fn lemma_replaced(
    before: Seq<(Seq<char>, Severity)>,
    after: Seq<(Seq<char>, Severity)>,
    at: int,
    key: Seq<char>,
    severity: Severity,
)
    requires
        names_ascend(before),
        0 <= at < before.len(),
        before[at].0 == key,
        after == before.update(at, (key, severity)),
    ensures
        names_ascend(after),
        table_of(after) == table_of(before).insert(key, severity),
{
    assert forall|i: int| 0 <= i < after.len() implies #[trigger] after[i].0 == before[i].0 by {}
    assert forall|i: int, j: int| 0 <= i < j < after.len() implies #[trigger] after[i].0
        != #[trigger] after[j].0 && text::text_le(after[i].0, after[j].0) by {
        assert(before[i].0 != before[j].0);
    }
    assert forall|i: int| 0 <= i < after.len() implies (#[trigger] after[i]) == (key, severity)
        || before.contains(after[i]) && after[i].0 != key by {
        if i != at {
            assert(after[i] == before[i]);
            if i < at {
                assert(before[i].0 != before[at].0);
            } else {
                assert(before[at].0 != before[i].0);
            }
        }
    }
    assert forall|i: int| 0 <= i < before.len() implies (#[trigger] before[i]).0 == key
        || after.contains(before[i]) by {
        if i != at {
            assert(after[i] == before[i]);
        }
    }
    assert(after[at] == (key, severity));
    lemma_same_table(after, before, key, severity);
}

proof fn lemma_inserted(
    before: Seq<(Seq<char>, Severity)>,
    at: int,
    key: Seq<char>,
    severity: Severity,
)
    requires
        names_ascend(before),
        0 <= at <= before.len(),
        forall|i: int|
            0 <= i < at ==> (#[trigger] before[i]).0 != key && text::text_le(before[i].0, key),
        at < before.len() ==> before[at].0 != key && !text::text_le(before[at].0, key),
    ensures
        names_ascend(before.insert(at, (key, severity))),
        table_of(before.insert(at, (key, severity))) == table_of(before).insert(key, severity),
{
    let after = before.insert(at, (key, severity));
    assert forall|k: int| at <= k < before.len() implies (#[trigger] before[k]).0 != key
        && text::text_le(key, before[k].0) by {
        text::lemma_text_le_order(before[at].0, key, key);
        if k > at {
            assert(before[at].0 != before[k].0);
            text::lemma_text_le_order(key, before[at].0, before[k].0);
            if before[k].0 == key {
                assert(text::text_le(before[at].0, key));
            }
        }
    }
    assert forall|i: int, j: int| 0 <= i < j < after.len() implies #[trigger] after[i].0
        != #[trigger] after[j].0 && text::text_le(after[i].0, after[j].0) by {
        let i0 = if i < at { i } else { i - 1 };
        let j0 = if j < at { j } else { j - 1 };
        if i == at {
            assert(after[j] == before[j0]);
        } else if j == at {
            assert(after[i] == before[i0]);
        } else {
            assert(after[i] == before[i0] && after[j] == before[j0]);
            assert(before[i0].0 != before[j0].0);
        }
    }
    assert forall|i: int| 0 <= i < after.len() implies (#[trigger] after[i]) == (key, severity)
        || before.contains(after[i]) && after[i].0 != key by {
        if i < at {
            assert(after[i] == before[i]);
        } else if i > at {
            assert(after[i] == before[i - 1]);
        }
    }
    assert forall|i: int| 0 <= i < before.len() implies (#[trigger] before[i]).0 == key
        || after.contains(before[i]) by {
        if i < at {
            assert(after[i] == before[i]);
        } else {
            assert(after[i + 1] == before[i]);
        }
    }
    assert(after[at] == (key, severity));
    lemma_same_table(after, before, key, severity);
}

/// A table speaks of rules, not of spellings: two names of one rule get the same
/// severity.
pub proof fn names_of_one_rule_get_one_severity(
    entries: Seq<(Seq<char>, Severity)>,
    a: Seq<char>,
    b: Seq<char>,
)
    requires
        is_known(a),
        is_known(b),
        rules::rule_named_leniently(suppression::current_name(a))->0.id@
            == rules::rule_named_leniently(suppression::current_name(b))->0.id@,
    ensures
        override_for(entries, a) == override_for(entries, b),
{
}

/// A table with one entry changes exactly the categories of the rule that the
/// entry names.
pub proof fn one_entry_governs_one_rule(name: Seq<char>, severity: Severity, category: Seq<char>)
    ensures
        override_for(seq![(name, severity)], category) == (match rules::rule_named_leniently(
            suppression::current_name(category),
        ) {
            Some(rule) => if names_rule(name, rule.id@) {
                Some(severity)
            } else {
                None
            },
            None => None,
        }),
{
    let entries = seq![(name, severity)];
    match rules::rule_named_leniently(suppression::current_name(category)) {
        Some(rule) => {
            reveal_with_fuel(first_for_rule, 2);
            assert(entries[0] == (name, severity));
        },
        None => {},
    }
}

} // verus!
