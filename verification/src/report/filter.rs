//! Which categories a report shows.

use vstd::prelude::*;

use crate::rules;
use crate::text;

verus! {

/// The number of categories that a filter may name.
pub const KNOWN_COUNT: usize = 56;

/// The categories that a filter may name: those that findings can have, and those
/// of findings on events.
pub const KNOWN_CATEGORIES: [&'static str; 56] = [
    "Environment",
    "Function Removed",
    "Function Documentation Changed",
    "Function Added",
    "Function Signature Changed",
    "Parameter Renamed",
    "Parameter Reordered",
    "Parameter Type Changed",
    "Parameter Type Widened",
    "Parameter Type Narrowed",
    "Parameter Type Signedness Changed",
    "Return Type Changed",
    "Return Type Widened",
    "Return Type Narrowed",
    "Return Type Signedness Changed",
    "Event Definition Removed",
    "Struct Removed",
    "Struct Documentation Changed",
    "Struct Added",
    "Struct Field Removed",
    "Event Field Removed",
    "Struct Field Reordered",
    "Event Field Reordered",
    "Struct Field Type Changed",
    "Struct Field Type Widened",
    "Struct Field Type Narrowed",
    "Struct Field Type Signedness Changed",
    "Event Field Type Changed",
    "Struct Field Added",
    "Event Enum Removed",
    "Enum Removed",
    "Enum Documentation Changed",
    "Enum Added",
    "Enum Case Removed",
    "Event Enum Case Removed",
    "Enum Case Value Changed",
    "Event Enum Case Value Changed",
    "Enum Case Added",
    "Event Enum Case Added",
    "Union Removed",
    "Union Added",
    "Union Case Removed",
    "Union Case Reordered",
    "Union Case Type Changed",
    "Union Case Type Widened",
    "Union Case Type Narrowed",
    "Union Case Type Signedness Changed",
    "Union Case Added",
    "Error Enum Removed",
    "Error Enum Added",
    "Error Enum Case Removed",
    "Error Enum Case Value Changed",
    "Error Enum Case Added",
    "Cascading Layout Break",
    "Spec Entry Conflict",
    "Spec Entry Duplicate",
];

/// Whether a filter may name a category.
pub open spec fn is_known_category(name: Seq<char>) -> bool {
    exists|i: int| 0 <= i < KNOWN_COUNT && (#[trigger] KNOWN_CATEGORIES@[i])@ == name
}

/// The names among the first `n` that are no categories.
pub open spec fn unknown_among(names: Seq<Seq<char>>, n: int) -> Seq<Seq<char>>
    decreases n,
{
    if n <= 0 {
        Seq::empty()
    } else if is_known_category(names[n - 1]) {
        unknown_among(names, n - 1)
    } else {
        unknown_among(names, n - 1).push(names[n - 1])
    }
}

/// A filter may name every category that a finding can have.
pub proof fn every_category_is_known()
    ensures
        forall|i: int|
            0 <= i < rules::RULE_COUNT ==> is_known_category((#[trigger] rules::RULE_LABELS@[i])@),
{
    assert(KNOWN_CATEGORIES@[0]@ == rules::RULE_LABELS@[0]@);
    assert(KNOWN_CATEGORIES@[1]@ == rules::RULE_LABELS@[1]@);
    assert(KNOWN_CATEGORIES@[2]@ == rules::RULE_LABELS@[2]@);
    assert(KNOWN_CATEGORIES@[3]@ == rules::RULE_LABELS@[3]@);
    assert(KNOWN_CATEGORIES@[4]@ == rules::RULE_LABELS@[4]@);
    assert(KNOWN_CATEGORIES@[5]@ == rules::RULE_LABELS@[5]@);
    assert(KNOWN_CATEGORIES@[6]@ == rules::RULE_LABELS@[6]@);
    assert(KNOWN_CATEGORIES@[7]@ == rules::RULE_LABELS@[7]@);
    assert(KNOWN_CATEGORIES@[8]@ == rules::RULE_LABELS@[8]@);
    assert(KNOWN_CATEGORIES@[9]@ == rules::RULE_LABELS@[9]@);
    assert(KNOWN_CATEGORIES@[10]@ == rules::RULE_LABELS@[10]@);
    assert(KNOWN_CATEGORIES@[11]@ == rules::RULE_LABELS@[11]@);
    assert(KNOWN_CATEGORIES@[12]@ == rules::RULE_LABELS@[12]@);
    assert(KNOWN_CATEGORIES@[13]@ == rules::RULE_LABELS@[13]@);
    assert(KNOWN_CATEGORIES@[14]@ == rules::RULE_LABELS@[14]@);
    assert(KNOWN_CATEGORIES@[16]@ == rules::RULE_LABELS@[15]@);
    assert(KNOWN_CATEGORIES@[17]@ == rules::RULE_LABELS@[16]@);
    assert(KNOWN_CATEGORIES@[18]@ == rules::RULE_LABELS@[17]@);
    assert(KNOWN_CATEGORIES@[19]@ == rules::RULE_LABELS@[18]@);
    assert(KNOWN_CATEGORIES@[21]@ == rules::RULE_LABELS@[19]@);
    assert(KNOWN_CATEGORIES@[23]@ == rules::RULE_LABELS@[20]@);
    assert(KNOWN_CATEGORIES@[24]@ == rules::RULE_LABELS@[21]@);
    assert(KNOWN_CATEGORIES@[25]@ == rules::RULE_LABELS@[22]@);
    assert(KNOWN_CATEGORIES@[26]@ == rules::RULE_LABELS@[23]@);
    assert(KNOWN_CATEGORIES@[28]@ == rules::RULE_LABELS@[24]@);
    assert(KNOWN_CATEGORIES@[30]@ == rules::RULE_LABELS@[25]@);
    assert(KNOWN_CATEGORIES@[31]@ == rules::RULE_LABELS@[26]@);
    assert(KNOWN_CATEGORIES@[32]@ == rules::RULE_LABELS@[27]@);
    assert(KNOWN_CATEGORIES@[33]@ == rules::RULE_LABELS@[28]@);
    assert(KNOWN_CATEGORIES@[35]@ == rules::RULE_LABELS@[29]@);
    assert(KNOWN_CATEGORIES@[37]@ == rules::RULE_LABELS@[30]@);
    assert(KNOWN_CATEGORIES@[39]@ == rules::RULE_LABELS@[31]@);
    assert(KNOWN_CATEGORIES@[40]@ == rules::RULE_LABELS@[32]@);
    assert(KNOWN_CATEGORIES@[41]@ == rules::RULE_LABELS@[33]@);
    assert(KNOWN_CATEGORIES@[42]@ == rules::RULE_LABELS@[34]@);
    assert(KNOWN_CATEGORIES@[43]@ == rules::RULE_LABELS@[35]@);
    assert(KNOWN_CATEGORIES@[44]@ == rules::RULE_LABELS@[36]@);
    assert(KNOWN_CATEGORIES@[45]@ == rules::RULE_LABELS@[37]@);
    assert(KNOWN_CATEGORIES@[46]@ == rules::RULE_LABELS@[38]@);
    assert(KNOWN_CATEGORIES@[47]@ == rules::RULE_LABELS@[39]@);
    assert(KNOWN_CATEGORIES@[48]@ == rules::RULE_LABELS@[40]@);
    assert(KNOWN_CATEGORIES@[49]@ == rules::RULE_LABELS@[41]@);
    assert(KNOWN_CATEGORIES@[50]@ == rules::RULE_LABELS@[42]@);
    assert(KNOWN_CATEGORIES@[51]@ == rules::RULE_LABELS@[43]@);
    assert(KNOWN_CATEGORIES@[52]@ == rules::RULE_LABELS@[44]@);
    assert(KNOWN_CATEGORIES@[53]@ == rules::RULE_LABELS@[45]@);
    assert(KNOWN_CATEGORIES@[54]@ == rules::RULE_LABELS@[46]@);
    assert(KNOWN_CATEGORIES@[55]@ == rules::RULE_LABELS@[47]@);
}

fn known_category(name: &str) -> (r: bool)
    ensures
        r == is_known_category(name@),
{
    let mut i: usize = 0;
    while i < KNOWN_COUNT
        invariant
            i <= KNOWN_COUNT,
            forall|k: int| 0 <= k < i ==> (#[trigger] KNOWN_CATEGORIES@[k])@ != name@,
        decreases KNOWN_COUNT - i,
    {
        if text::same_text(KNOWN_CATEGORIES[i], name) {
            return true;
        }
        i = i + 1;
    }
    false
}

/// Fails with the names that are no categories, in the order given.
pub fn validate_categories(categories: &[String]) -> (r: Result<(), Vec<String>>)
    ensures
        r is Ok <==> forall|i: int|
            0 <= i < categories@.len() ==> is_known_category((#[trigger] categories@[i])@),
        r matches Err(unknown) ==> text::views(unknown@) == unknown_among(
            text::views(categories@),
            categories@.len() as int,
        ),
{
    let mut unknown: Vec<String> = Vec::new();
    let mut i: usize = 0;
    assert(text::views(unknown@) =~= unknown_among(text::views(categories@), 0));
    while i < categories.len()
        invariant
            i <= categories@.len(),
            text::views(unknown@) == unknown_among(text::views(categories@), i as int),
            unknown@.len() == 0 <==> forall|k: int|
                0 <= k < i ==> is_known_category((#[trigger] categories@[k])@),
        decreases categories@.len() - i,
    {
        assert(text::views(categories@)[i as int] == categories@[i as int]@);
        if !known_category(categories[i].as_str()) {
            let ghost before = unknown@;
            unknown.push(categories[i].clone());
            assert(text::views(unknown@) =~= text::views(before).push(categories@[i as int]@));
        }
        i = i + 1;
    }
    if unknown.len() == 0 {
        Ok(())
    } else {
        Err(unknown)
    }
}

/// Which categories a report shows.
#[derive(Debug)]
pub struct CategoryFilter {
    /// The categories to show, where only some are. An empty list shows all.
    pub include_only: Option<Vec<String>>,
    /// The categories to hide, whatever else is said.
    pub exclude: Vec<String>,
}

/// A filter as plain text.
pub struct FilterView {
    pub include_only: Option<Seq<Seq<char>>>,
    pub exclude: Seq<Seq<char>>,
}

impl View for CategoryFilter {
    type V = FilterView;

    open spec fn view(&self) -> FilterView {
        FilterView {
            include_only: match self.include_only {
                Some(names) => Some(text::views(names@)),
                None => None,
            },
            exclude: text::views(self.exclude@),
        }
    }
}

/// The filter that shows everything.
pub open spec fn no_filter() -> FilterView {
    FilterView { include_only: None, exclude: Seq::empty() }
}

impl Default for CategoryFilter {
    /// The filter that shows everything.
    fn default() -> (r: Self)
        ensures
            r@ == no_filter(),
    {
        let r = CategoryFilter { include_only: None, exclude: Vec::new() };
        assert(r@.exclude =~= Seq::<Seq<char>>::empty());
        r
    }
}

impl Clone for CategoryFilter {
    fn clone(&self) -> (r: Self)
        ensures
            r@ == self@,
    {
        CategoryFilter {
            include_only: match &self.include_only {
                Some(names) => Some(text::clone_texts(names)),
                None => None,
            },
            exclude: text::clone_texts(&self.exclude),
        }
    }
}

/// Whether a filter shows a category.
pub open spec fn shows(filter: FilterView, category: Seq<char>) -> bool {
    &&& !filter.exclude.contains(category)
    &&& filter.include_only matches Some(names) ==> names.len() == 0 || names.contains(category)
}

impl CategoryFilter {
    /// Whether the filter shows a category.
    pub fn should_include(&self, category: &str) -> (r: bool)
        ensures
            r == shows(self@, category@),
    {
        if text::holds_text(&self.exclude, category) {
            return false;
        }
        match &self.include_only {
            Some(names) => names.len() == 0 || text::holds_text(names, category),
            None => true,
        }
    }
}

} // verus!
