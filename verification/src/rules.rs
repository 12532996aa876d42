//! The rules: every kind of change that a comparison reports, with the stable
//! id that configurations use, its display name, its severity and its guidance.

use vstd::prelude::*;

use crate::diff::Severity;
use crate::text;

verus! {

/// The number of rules.
pub const RULE_COUNT: usize = 48;

/// The stable ids of the rules.
pub const RULE_IDS: [&'static str; 48] = [
    "environment",
    "function_removed",
    "function_documentation_changed",
    "function_added",
    "function_signature_changed",
    "parameter_renamed",
    "parameter_reordered",
    "parameter_type_changed",
    "parameter_type_widened",
    "parameter_type_narrowed",
    "parameter_type_signedness_changed",
    "return_type_changed",
    "return_type_widened",
    "return_type_narrowed",
    "return_type_signedness_changed",
    "struct_removed",
    "struct_documentation_changed",
    "struct_added",
    "struct_field_removed",
    "struct_field_reordered",
    "struct_field_type_changed",
    "struct_field_type_widened",
    "struct_field_type_narrowed",
    "struct_field_type_signedness_changed",
    "struct_field_added",
    "enum_removed",
    "enum_documentation_changed",
    "enum_added",
    "enum_case_removed",
    "enum_case_value_changed",
    "enum_case_added",
    "union_removed",
    "union_added",
    "union_case_removed",
    "union_case_reordered",
    "union_case_type_changed",
    "union_case_type_widened",
    "union_case_type_narrowed",
    "union_case_type_signedness_changed",
    "union_case_added",
    "error_enum_removed",
    "error_enum_added",
    "error_enum_case_removed",
    "error_enum_case_value_changed",
    "error_enum_case_added",
    "cascading_layout_break",
    "spec_entry_conflict",
    "spec_entry_duplicate",
];

/// The display names of the rules, in the order of `RULE_IDS`.
pub const RULE_LABELS: [&'static str; 48] = [
    "Environment",
    "Function Removed",
    "Function Documentation Changed",
    "Function Added",
    "Function Signature Changed",
    "Parameter Renamed",
    "Parameter Reordered",
    "Parameter Type Changed",
    "Parameter Type Widened",
    "Parameter Type Narrowed",
    "Parameter Type Signedness Changed",
    "Return Type Changed",
    "Return Type Widened",
    "Return Type Narrowed",
    "Return Type Signedness Changed",
    "Struct Removed",
    "Struct Documentation Changed",
    "Struct Added",
    "Struct Field Removed",
    "Struct Field Reordered",
    "Struct Field Type Changed",
    "Struct Field Type Widened",
    "Struct Field Type Narrowed",
    "Struct Field Type Signedness Changed",
    "Struct Field Added",
    "Enum Removed",
    "Enum Documentation Changed",
    "Enum Added",
    "Enum Case Removed",
    "Enum Case Value Changed",
    "Enum Case Added",
    "Union Removed",
    "Union Added",
    "Union Case Removed",
    "Union Case Reordered",
    "Union Case Type Changed",
    "Union Case Type Widened",
    "Union Case Type Narrowed",
    "Union Case Type Signedness Changed",
    "Union Case Added",
    "Error Enum Removed",
    "Error Enum Added",
    "Error Enum Case Removed",
    "Error Enum Case Value Changed",
    "Error Enum Case Added",
    "Cascading Layout Break",
    "Spec Entry Conflict",
    "Spec Entry Duplicate",
];

/// The severity that each rule has unless a configuration says otherwise.
pub const RULE_SEVERITIES: [Severity; 48] = [
    Severity::Info,
    Severity::Critical,
    Severity::Info,
    Severity::Info,
    Severity::Critical,
    Severity::Warning,
    Severity::Critical,
    Severity::Critical,
    Severity::Critical,
    Severity::Critical,
    Severity::Critical,
    Severity::Critical,
    Severity::Critical,
    Severity::Critical,
    Severity::Critical,
    Severity::Critical,
    Severity::Info,
    Severity::Info,
    Severity::Critical,
    Severity::Critical,
    Severity::Critical,
    Severity::Critical,
    Severity::Critical,
    Severity::Critical,
    Severity::Warning,
    Severity::Critical,
    Severity::Info,
    Severity::Info,
    Severity::Critical,
    Severity::Critical,
    Severity::Info,
    Severity::Critical,
    Severity::Info,
    Severity::Critical,
    Severity::Critical,
    Severity::Critical,
    Severity::Critical,
    Severity::Critical,
    Severity::Critical,
    Severity::Info,
    Severity::Critical,
    Severity::Info,
    Severity::Critical,
    Severity::Critical,
    Severity::Info,
    Severity::Critical,
    Severity::Critical,
    Severity::Warning,
];

/// What each kind of change breaks, and what to do about it.
pub const RULE_GUIDANCE: [&'static str; 48] = [
    "Review the environment metadata change and confirm that the target network supports the new host interface version.",
    "Existing callers of the function will fail. Restore it, or keep a forwarding version until every client has moved.",
    "Only the documentation differs. No action is needed.",
    "A new function does not affect existing callers. No action is needed.",
    "Existing callers encode their arguments for the old signature. Restore it, or add a new function beside the old one.",
    "Clients that pass arguments by name will fail. Restore the name, or update those clients together with the upgrade.",
    "Arguments are passed by position. Restore the original parameter order.",
    "Existing callers encode the argument with the old type. Restore the type, or add a new function beside the old one.",
    "Existing callers encode the argument with the narrower type. Restore it, or add a new function beside the old one.",
    "Arguments that were valid may no longer fit. Restore the wider type, or add a new function beside the old one.",
    "The same bits now mean another number. Restore the signedness, or add a new function beside the old one.",
    "Existing callers decode the result with the old type. Restore the type, or add a new function beside the old one.",
    "Existing callers decode the result with the narrower type. Restore it, or add a new function beside the old one.",
    "Existing callers decode the result with the wider type. Restore it, or add a new function beside the old one.",
    "The same bits now mean another number. Restore the signedness, or add a new function beside the old one.",
    "Stored values of the struct can no longer be read. Restore it, or migrate the stored data first.",
    "Only the documentation differs. No action is needed.",
    "A new struct does not affect stored data. No action is needed.",
    "Stored values still hold the field and will not decode. Restore it, or migrate the stored data first.",
    "Fields are laid out in declaration order. Restore the original field order.",
    "Stored values hold the old type and will not decode. Restore the type, or migrate the stored data first.",
    "Stored values hold the narrower type. Restore it, or migrate the stored data first.",
    "Stored values may no longer fit. Restore the wider type, or migrate the stored data first.",
    "The same bits now mean another number. Restore the signedness, or migrate the stored data first.",
    "Stored values lack the field. Read old values through a migration before relying on it.",
    "Stored values of the enum can no longer be read. Restore it, or migrate the stored data first.",
    "Only the documentation differs. No action is needed.",
    "A new enum does not affect stored data. No action is needed.",
    "Stored values of the case can no longer be read. Restore it, or migrate the stored data first.",
    "Stored values hold the old number and now name another case. Restore the value.",
    "A new case does not affect stored data. Check that every reader handles it.",
    "Stored values of the union can no longer be read. Restore it, or migrate the stored data first.",
    "A new union does not affect stored data. No action is needed.",
    "Stored values of the case can no longer be read. Restore it, or migrate the stored data first.",
    "Reordering union cases breaks positional discriminant serialization. Restore the original case order.",
    "Stored values hold the old payload and will not decode. Restore the type, or migrate the stored data first.",
    "Stored values hold the narrower payload. Restore it, or migrate the stored data first.",
    "Stored values may no longer fit. Restore the wider payload, or migrate the stored data first.",
    "The same bits now mean another number. Restore the signedness, or migrate the stored data first.",
    "A new case does not affect stored data. Check that every reader handles it.",
    "Clients can no longer interpret the error codes. Restore the error enum.",
    "A new error enum does not affect existing clients. No action is needed.",
    "Clients can no longer interpret the error code. Restore the case.",
    "Clients will read the error code as another error. Restore the value.",
    "A new error case does not affect existing codes. Check that clients handle it.",
    "A type that this one embeds changed its layout. Fix the embedded type first, then check this one again.",
    "The build defines one name in two ways, so no definition can be trusted. Rebuild it with a single definition.",
    "The build repeats a definition. Rebuild it so that every entry occurs once.",
];

/// One kind of change that a comparison can report.
#[derive(Debug, Clone, Copy)]
pub struct Rule {
    /// The key that configurations match on.
    pub id: &'static str,
    /// The display name, used as a finding's category.
    pub label: &'static str,
    pub severity: Severity,
    pub guidance: &'static str,
}

/// The rule in position `i` of the tables.
pub open spec fn rule_at(i: int) -> Rule {
    Rule {
        id: RULE_IDS@[i],
        label: RULE_LABELS@[i],
        severity: RULE_SEVERITIES@[i],
        guidance: RULE_GUIDANCE@[i],
    }
}

/// Every rule, in the order of the tables.
pub open spec fn rules() -> Seq<Rule> {
    Seq::new(RULE_COUNT as nat, |i: int| rule_at(i))
}

fn nth_rule(i: usize) -> (r: Rule)
    requires
        i < RULE_COUNT,
    ensures
        r == rule_at(i as int),
{
    Rule {
        id: RULE_IDS[i],
        label: RULE_LABELS[i],
        severity: RULE_SEVERITIES[i],
        guidance: RULE_GUIDANCE[i],
    }
}

/// Every rule, in the order of the tables.
pub fn all_rules() -> (r: Vec<Rule>)
    ensures
        r@ == rules(),
{
    let mut out: Vec<Rule> = Vec::new();
    let mut i: usize = 0;
    while i < RULE_COUNT
        invariant
            i <= RULE_COUNT,
            out@ == rules().take(i as int),
        decreases RULE_COUNT - i,
    {
        out.push(nth_rule(i));
        i = i + 1;
    }
    out
}

/// The display names of all rules.
pub fn all_category_labels() -> (r: Vec<&'static str>)
    ensures
        r@ == rules().map_values(|rule: Rule| rule.label),
{
    let mut out: Vec<&'static str> = Vec::new();
    let mut i: usize = 0;
    while i < RULE_COUNT
        invariant
            i <= RULE_COUNT,
            out@ == rules().map_values(|rule: Rule| rule.label).take(i as int),
        decreases RULE_COUNT - i,
    {
        out.push(nth_rule(i).label);
        i = i + 1;
    }
    out
}

/// The first rule, from position `from` on, that `wanted` holds of.
pub open spec fn first_rule(wanted: spec_fn(Rule) -> bool, from: int) -> Option<Rule>
    decreases RULE_COUNT - from,
{
    if from < 0 || from >= RULE_COUNT {
        None
    } else if wanted(rule_at(from)) {
        Some(rule_at(from))
    } else {
        first_rule(wanted, from + 1)
    }
}

/// The rules with the id `id`.
pub open spec fn has_id(id: Seq<char>) -> spec_fn(Rule) -> bool {
    |r: Rule| r.id@ == id
}

/// The rules named `name`, by id or by display name.
pub open spec fn has_name(name: Seq<char>) -> spec_fn(Rule) -> bool {
    |r: Rule| r.id@ == name || r.label@ == name
}

/// The rules named `name`, by id or by display name, in any letter case.
pub open spec fn has_name_in_any_case(name: Seq<char>) -> spec_fn(Rule) -> bool {
    |r: Rule|
        text::ascii_lower_text(r.id@) == text::ascii_lower_text(name) || text::ascii_lower_text(r.label@)
            == text::ascii_lower_text(name)
}

/// The rule with the id `id`.
pub open spec fn rule_with_id(id: Seq<char>) -> Option<Rule> {
    first_rule(has_id(id), 0)
}

/// The rule named `name`, by id or by display name.
pub open spec fn rule_named(name: Seq<char>) -> Option<Rule> {
    first_rule(has_name(name), 0)
}

/// The rule named `name`, by id or by display name, in any letter case.
pub open spec fn rule_named_leniently(name: Seq<char>) -> Option<Rule> {
    first_rule(has_name_in_any_case(name), 0)
}

/// The rule with the id `id`.
pub fn rule_by_id(id: &str) -> (r: Option<Rule>)
    ensures
        r == rule_with_id(id@),
{
    let mut i: usize = 0;
    while i < RULE_COUNT
        invariant
            i <= RULE_COUNT,
            rule_with_id(id@) == first_rule(has_id(id@), i as int),
        decreases RULE_COUNT - i,
    {
        let rule = nth_rule(i);
        if text::same_text(rule.id, id) {
            return Some(rule);
        }
        i = i + 1;
    }
    None
}

/// The display name of the rule with the id `id`.
pub fn display_label_for_rule_id(id: &str) -> (r: Option<&'static str>)
    ensures
        r == (match rule_with_id(id@) {
            Some(rule) => Some(rule.label),
            None => None,
        }),
{
    match rule_by_id(id) {
        Some(rule) => Some(rule.label),
        None => None,
    }
}

/// The guidance of the rule with the id `id`.
pub open spec fn guidance_with_id(id: Seq<char>) -> Option<&'static str> {
    match rule_with_id(id) {
        Some(rule) => Some(rule.guidance),
        None => None,
    }
}

/// The guidance of the rule with the id `id`.
pub fn guidance_for_rule_id(id: &str) -> (r: Option<&'static str>)
    ensures
        r == guidance_with_id(id@),
{
    match rule_by_id(id) {
        Some(rule) => Some(rule.guidance),
        None => None,
    }
}

/// The id of the rule named `name`, by id or by display name.
pub open spec fn canonical_id(name: Seq<char>) -> Option<&'static str> {
    match rule_named(name) {
        Some(rule) => Some(rule.id),
        None => None,
    }
}

/// The id of the rule named `name`, by id or by display name.
pub fn canonical_rule_id(name: &str) -> (r: Option<&'static str>)
    ensures
        r == canonical_id(name@),
{
    let mut i: usize = 0;
    while i < RULE_COUNT
        invariant
            i <= RULE_COUNT,
            rule_named(name@) == first_rule(has_name(name@), i as int),
        decreases RULE_COUNT - i,
    {
        let rule = nth_rule(i);
        if text::same_text(rule.id, name) || text::same_text(rule.label, name) {
            return Some(rule.id);
        }
        i = i + 1;
    }
    None
}

/// The rule named `name`, by id or by display name, in any letter case.
pub fn lookup_rule_lenient(name: &str) -> (r: Option<Rule>)
    ensures
        r == rule_named_leniently(name@),
{
    let wanted = text::to_ascii_lower(name);
    let mut i: usize = 0;
    while i < RULE_COUNT
        invariant
            i <= RULE_COUNT,
            wanted@ == text::ascii_lower_text(name@),
            rule_named_leniently(name@) == first_rule(has_name_in_any_case(name@), i as int),
        decreases RULE_COUNT - i,
    {
        let rule = nth_rule(i);
        if text::to_ascii_lower(rule.id) == wanted || text::to_ascii_lower(rule.label) == wanted {
            return Some(rule);
        }
        i = i + 1;
    }
    None
}

/// The least number of characters to insert, delete or replace to turn `a`
/// into `b`.
pub open spec fn edit_distance(a: Seq<char>, b: Seq<char>) -> nat
    decreases a.len() + b.len(),
{
    if a.len() == 0 {
        b.len()
    } else if b.len() == 0 {
        a.len()
    } else {
        let drop_a = edit_distance(a.drop_last(), b) + 1;
        let drop_b = edit_distance(a, b.drop_last()) + 1;
        let replace = edit_distance(a.drop_last(), b.drop_last()) + if a.last() == b.last() {
            0nat
        } else {
            1nat
        };
        least(least(drop_a, drop_b), replace)
    }
}

/// The lesser of two numbers.
pub open spec fn least(a: nat, b: nat) -> nat {
    if a <= b {
        a
    } else {
        b
    }
}

proof fn lemma_edit_distance_bound(a: Seq<char>, b: Seq<char>)
    ensures
        edit_distance(a, b) <= a.len() + b.len(),
    decreases a.len() + b.len(),
{
    if a.len() > 0 && b.len() > 0 {
        lemma_edit_distance_bound(a.drop_last(), b);
    }
}

fn lesser(a: u128, b: u128) -> (r: u128)
    ensures
        r == least(a as nat, b as nat),
{
    if a <= b {
        a
    } else {
        b
    }
}

fn next_distance_row(
    row: &Vec<u128>,
    a: &Vec<char>,
    b: &Vec<char>,
    i: usize,
) -> (next: Vec<u128>)
    requires
        i < a@.len(),
        row@.len() == b@.len() + 1,
        forall|j: int|
            0 <= j <= b@.len() ==> #[trigger] row@[j] == edit_distance(a@.take(i as int), b@.take(j)),
    ensures
        next@.len() == b@.len() + 1,
        forall|j: int|
            0 <= j <= b@.len() ==> #[trigger] next@[j] == edit_distance(
                a@.take(i + 1),
                b@.take(j),
            ),
{
    let mut next: Vec<u128> = Vec::new();
    let total_a = a.len();
    let total_b = b.len();
    next.push(i as u128 + 1);
    let mut j: usize = 0;
    while j < b.len()
        invariant
            total_a == a@.len(),
            total_b == b@.len(),
            i < a@.len(),
            j <= b@.len(),
            row@.len() == b@.len() + 1,
            next@.len() == j + 1,
            forall|k: int|
                0 <= k <= b@.len() ==> #[trigger] row@[k] == edit_distance(
                    a@.take(i as int),
                    b@.take(k),
                ),
            forall|k: int|
                0 <= k <= j ==> #[trigger] next@[k] == edit_distance(a@.take(i + 1), b@.take(k)),
        decreases b@.len() - j,
    {
        proof {
            let x = a@.take(i + 1);
            let y = b@.take(j + 1);
            assert(x.drop_last() =~= a@.take(i as int));
            assert(y.drop_last() =~= b@.take(j as int));
            lemma_edit_distance_bound(x.drop_last(), y);
            lemma_edit_distance_bound(x, y.drop_last());
            lemma_edit_distance_bound(x.drop_last(), y.drop_last());
            assert(row@[j + 1] == edit_distance(x.drop_last(), y));
            assert(row@[j as int] == edit_distance(x.drop_last(), y.drop_last()));
            assert(next@[j as int] == edit_distance(x, y.drop_last()));
        }
        let drop_a: u128 = row[j + 1] + 1;
        let drop_b: u128 = next[j] + 1;
        let cost: u128 = if a[i] == b[j] {
            0
        } else {
            1
        };
        let replace: u128 = row[j] + cost;
        next.push(lesser(lesser(drop_a, drop_b), replace));
        j = j + 1;
    }
    next
}

/// The edit distance of `a` and `b`.
pub fn distance(a: &str, b: &str) -> (r: u128)
    ensures
        r == edit_distance(a@, b@),
{
    let x = text::to_chars(a);
    let y = text::to_chars(b);
    let mut row: Vec<u128> = Vec::new();
    let mut j: usize = 0;
    let columns = y.len();
    while j < columns
        invariant
            columns == y@.len(),
            j <= columns,
            row@.len() == j,
            forall|k: int|
                0 <= k < j ==> #[trigger] row@[k] == edit_distance(x@.take(0), y@.take(k)),
        decreases columns - j,
    {
        row.push(j as u128);
        j = j + 1;
    }
    row.push(columns as u128);
    let mut i: usize = 0;
    while i < x.len()
        invariant
            i <= x@.len(),
            columns == y@.len(),
            row@.len() == y@.len() + 1,
            forall|k: int|
                0 <= k <= y@.len() ==> #[trigger] row@[k] == edit_distance(
                    x@.take(i as int),
                    y@.take(k),
                ),
        decreases x@.len() - i,
    {
        row = next_distance_row(&row, &x, &y, i);
        i = i + 1;
    }
    assert(x@.take(i as int) =~= x@);
    assert(y@.take(columns as int) =~= y@);
    row[columns]
}

/// Whether `label` is worth suggesting to someone who wrote `name`: it holds
/// what was written, or is at most three edits away, letter case aside.
pub open spec fn is_near(name: Seq<char>, label: Seq<char>) -> bool {
    let wanted = text::ascii_lower_text(name);
    let candidate = text::ascii_lower_text(label);
    text::has_sub(candidate, wanted) || edit_distance(wanted, candidate) <= 3
}

/// Whether `label` is worth suggesting to someone who wrote `name`.
fn near(name: &str, label: &str) -> (r: bool)
    ensures
        r == is_near(name@, label@),
{
    let wanted = text::to_ascii_lower(name);
    let candidate = text::to_ascii_lower(label);
    text::contains_text(candidate.as_str(), wanted.as_str()) || distance(
        wanted.as_str(),
        candidate.as_str(),
    ) <= 3
}

/// The display names among the first `n` rules that are near `name`.
pub open spec fn near_labels(name: Seq<char>, n: int) -> Seq<Seq<char>>
    decreases n,
{
    if n <= 0 {
        Seq::empty()
    } else if is_near(name, rule_at(n - 1).label@) {
        near_labels(name, n - 1).push(rule_at(n - 1).label@)
    } else {
        near_labels(name, n - 1)
    }
}

/// The display names that someone who wrote `name` may have meant.
pub fn suggest_categories(name: &str) -> (r: Vec<String>)
    ensures
        text::views(r@) == near_labels(name@, RULE_COUNT as int),
{
    let mut out: Vec<String> = Vec::new();
    let mut i: usize = 0;
    assert(text::views(out@) =~= near_labels(name@, 0));
    while i < RULE_COUNT
        invariant
            i <= RULE_COUNT,
            text::views(out@) == near_labels(name@, i as int),
        decreases RULE_COUNT - i,
    {
        let label = nth_rule(i).label;
        if near(name, label) {
            let ghost before = out@;
            out.push(label.to_string());
            assert(text::views(out@) =~= text::views(before).push(label@));
        }
        i = i + 1;
    }
    out
}

} // verus!
