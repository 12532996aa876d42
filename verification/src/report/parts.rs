//! What the formats have in common.

use vstd::prelude::*;

use crate::report::scope::AnalysisScope;
use crate::report::scope::ScopeView;
use crate::text;

verus! {

/// Whether a build spreads its spec over several sections.
pub open spec fn has_many_sections(scope: ScopeView) -> bool {
    scope.old_spec_section_count > 1 || scope.new_spec_section_count > 1
}

pub(crate) fn many_sections(scope: &AnalysisScope) -> (r: bool)
    ensures
        r == has_many_sections(scope@),
{
    scope.old_spec_section_count > 1 || scope.new_spec_section_count > 1
}

/// The names that either build defines twice: those of the old build between
/// `old_open` and `close`, then those of the new one between `new_open` and
/// `close`.
pub open spec fn duplicates(
    scope: ScopeView,
    old_open: Seq<char>,
    new_open: Seq<char>,
    close: Seq<char>,
) -> Seq<Seq<char>> {
    text::wrapped(scope.old_duplicate_names, old_open, close) + text::wrapped(
        scope.new_duplicate_names,
        new_open,
        close,
    )
}

pub(crate) fn list_duplicates(
    scope: &AnalysisScope,
    old_open: &str,
    new_open: &str,
    close: &str,
) -> (r: Vec<String>)
    ensures
        text::views(r@) == duplicates(scope@, old_open@, new_open@, close@),
{
    let mut out: Vec<String> = Vec::new();
    text::add_wrapped(&mut out, &scope.old_duplicate_names, old_open, close);
    assert(text::views(out@) =~= text::wrapped(scope@.old_duplicate_names, old_open@, close@));
    text::add_wrapped(&mut out, &scope.new_duplicate_names, new_open, close);
    out
}

/// An optional text, or another one in its place.
pub open spec fn or_else(t: Option<Seq<char>>, other: Seq<char>) -> Seq<char> {
    match t {
        Some(s) => s,
        None => other,
    }
}

pub(crate) fn text_or<'a>(t: &'a Option<String>, other: &'a str) -> (r: &'a str)
    ensures
        r@ == or_else(crate::diff::opt_view(*t), other@),
{
    match t {
        Some(s) => s.as_str(),
        None => other,
    }
}

} // verus!
