//! Breaking changes that a project has acknowledged.

use vstd::prelude::*;
use vstd::utf8;

use crate::diff;
use crate::diff::Finding;
use crate::diff::FindingView;
use crate::diff::Severity;
use crate::digest;
use crate::rules;
use crate::severity_override::SeverityOverrides;
use crate::text;

verus! {

/// The number of category names that older configurations may hold.
pub const LEGACY_COUNT: usize = 9;

/// Category names of configurations from the time when a type's role as an
/// event was part of the category.
pub const LEGACY_NAMES: [&'static str; 9] = [
    "Event Definition Removed",
    "Event Field Removed",
    "Event Field Reordered",
    "Event Field Type Changed",
    "Event Schema Added",
    "Event Enum Removed",
    "Event Enum Case Removed",
    "Event Enum Case Value Changed",
    "Event Enum Case Added",
];

/// The names that took the place of `LEGACY_NAMES`, in the same order.
pub const CURRENT_NAMES: [&'static str; 9] = [
    "Struct Removed",
    "Struct Field Removed",
    "Struct Field Reordered",
    "Struct Field Type Changed",
    "Struct Field Added",
    "Enum Removed",
    "Enum Case Removed",
    "Enum Case Value Changed",
    "Enum Case Added",
];

/// The current name for `name`, looking at the aliases from `from` on.
pub open spec fn current_name_from(name: Seq<char>, from: int) -> Seq<char>
    decreases LEGACY_COUNT - from,
{
    if from < 0 || from >= LEGACY_COUNT {
        name
    } else if LEGACY_NAMES@[from]@ == name {
        CURRENT_NAMES@[from]@
    } else {
        current_name_from(name, from + 1)
    }
}

/// The current name of a category; a name that is no alias is its own.
pub open spec fn current_name(name: Seq<char>) -> Seq<char> {
    current_name_from(name, 0)
}

/// The current name of a category; a name that is no alias is its own.
pub fn stable_category(name: &str) -> (r: &str)
    ensures
        r@ == current_name(name@),
{
    let mut i: usize = 0;
    while i < LEGACY_COUNT
        invariant
            i <= LEGACY_COUNT,
            current_name(name@) == current_name_from(name@, i as int),
        decreases LEGACY_COUNT - i,
    {
        if text::same_text(LEGACY_NAMES[i], name) {
            return CURRENT_NAMES[i];
        }
        i = i + 1;
    }
    name
}

/// The key under which findings and rules of one category meet: the id of the
/// rule, or the name itself where no rule has it.
pub open spec fn category_key(name: Seq<char>) -> Seq<char> {
    match rules::canonical_id(current_name(name)) {
        Some(id) => id@,
        None => current_name(name),
    }
}

fn key_of(name: &str) -> (r: &str)
    ensures
        r@ == category_key(name@),
{
    let stable = stable_category(name);
    match rules::canonical_rule_id(stable) {
        Some(id) => id,
        None => stable,
    }
}

/// The text whose digest is the fingerprint of a finding: its category, its
/// target and its message, on a line each. The severity is no part of it.
pub open spec fn fingerprint_input(f: FindingView) -> Seq<char> {
    f.category + "\n"@ + target_text(f.target) + "\n"@ + f.message
}

/// The target of a finding, or nothing.
pub open spec fn target_text(target: Option<Seq<char>>) -> Seq<char> {
    match target {
        Some(t) => t,
        None => ""@,
    }
}

/// The fingerprint of a finding.
pub open spec fn fingerprint(f: FindingView) -> Seq<char> {
    digest::hex_of(digest::sha256(utf8::encode_utf8(fingerprint_input(f))))
}

/// The fingerprint of a finding: the digest of its category, target and message,
/// in hexadecimal.
pub fn compute_fingerprint(finding: &Finding) -> (r: String)
    ensures
        r@ == fingerprint(finding@),
{
    let mut input = finding.category.clone();
    input.append("\n");
    match &finding.target {
        Some(t) => {
            input.append(t.as_str());
        },
        None => {
            input.append("");
        },
    }
    input.append("\n");
    input.append(finding.message.as_str());
    let digest = digest::sha256_digest(input.as_str().as_bytes());
    digest::hex_encode(&digest)
}

/// A rule by which a configuration acknowledges findings.
#[derive(Debug)]
pub struct SuppressionRule {
    /// The category, by rule id, display name or an older name.
    pub rule_id: String,
    /// The target; a rule without one matches every target.
    pub target: Option<String>,
    pub reason: Option<String>,
    pub author: Option<String>,
    pub expiry: Option<String>,
    /// The fingerprint that a finding must have, where the rule asks for one.
    pub fingerprint: Option<String>,
}

/// A suppression rule as plain text.
pub struct SuppressionRuleView {
    pub rule_id: Seq<char>,
    pub target: Option<Seq<char>>,
    pub reason: Option<Seq<char>>,
    pub author: Option<Seq<char>>,
    pub expiry: Option<Seq<char>>,
    pub fingerprint: Option<Seq<char>>,
}

impl View for SuppressionRule {
    type V = SuppressionRuleView;

    open spec fn view(&self) -> SuppressionRuleView {
        SuppressionRuleView {
            rule_id: self.rule_id@,
            target: diff::opt_view(self.target),
            reason: diff::opt_view(self.reason),
            author: diff::opt_view(self.author),
            expiry: diff::opt_view(self.expiry),
            fingerprint: diff::opt_view(self.fingerprint),
        }
    }
}

impl Clone for SuppressionRule {
    fn clone(&self) -> (r: Self)
        ensures
            r@ == self@,
    {
        SuppressionRule {
            rule_id: self.rule_id.clone(),
            target: diff::opt_clone(&self.target),
            reason: diff::opt_clone(&self.reason),
            author: diff::opt_clone(&self.author),
            expiry: diff::opt_clone(&self.expiry),
            fingerprint: diff::opt_clone(&self.fingerprint),
        }
    }
}

/// What a project has configured.
#[derive(Debug)]
pub struct SuppressionConfig {
    pub rules: Vec<SuppressionRule>,
    pub max_suppressions: Option<usize>,
    pub allow_targetless: Option<bool>,
    pub severity_overrides: SeverityOverrides,
}

/// The views of a list of suppression rules.
pub open spec fn rule_views(rules: Seq<SuppressionRule>) -> Seq<SuppressionRuleView> {
    rules.map_values(|r: SuppressionRule| r@)
}

/// A configuration as plain values.
pub struct ConfigView {
    pub rules: Seq<SuppressionRuleView>,
    pub max_suppressions: Option<usize>,
    pub allow_targetless: Option<bool>,
    pub overrides: Seq<(Seq<char>, Severity)>,
}

impl View for SuppressionConfig {
    type V = ConfigView;

    open spec fn view(&self) -> ConfigView {
        ConfigView {
            rules: rule_views(self.rules@),
            max_suppressions: self.max_suppressions,
            allow_targetless: self.allow_targetless,
            overrides: self.severity_overrides@,
        }
    }
}

/// The configuration that acknowledges and changes nothing.
pub open spec fn no_config() -> ConfigView {
    ConfigView {
        rules: Seq::empty(),
        max_suppressions: None,
        allow_targetless: None,
        overrides: Seq::empty(),
    }
}

impl Default for SuppressionConfig {
    /// The configuration that acknowledges and changes nothing.
    fn default() -> (r: Self)
        ensures
            r@ == no_config(),
    {
        let r = SuppressionConfig {
            rules: Vec::new(),
            max_suppressions: None,
            allow_targetless: None,
            severity_overrides: SeverityOverrides::default(),
        };
        assert(rule_views(r.rules@) =~= Seq::<SuppressionRuleView>::empty());
        assert(r.severity_overrides@ =~= Seq::<(Seq<char>, Severity)>::empty());
        r
    }
}

/// Whether a rule acknowledges a finding: the category, the target where the
/// rule has one, and the fingerprint where the rule has one.
pub open spec fn acknowledges(rule: SuppressionRuleView, f: FindingView) -> bool {
    &&& category_key(rule.rule_id) == category_key(f.category)
    &&& rule.target is Some ==> rule.target == f.target
    &&& rule.fingerprint is Some ==> rule.fingerprint == Some(fingerprint(f))
}

/// The position of the first rule from `from` on that acknowledges a finding.
pub open spec fn first_acknowledging(
    rules: Seq<SuppressionRuleView>,
    f: FindingView,
    from: int,
) -> Option<int>
    decreases rules.len() - from,
{
    if from < 0 || from >= rules.len() {
        None
    } else if acknowledges(rules[from], f) {
        Some(from)
    } else {
        first_acknowledging(rules, f, from + 1)
    }
}

/// The position of the rule that acknowledges a finding: the first one that
/// matches it.
pub open spec fn matching_rule(rules: Seq<SuppressionRuleView>, f: FindingView) -> Option<int> {
    first_acknowledging(rules, f, 0)
}

/// Whether two optional strings hold the same text.
fn same_opt(a: &Option<String>, b: &Option<String>) -> (r: bool)
    ensures
        r == (diff::opt_view(*a) == diff::opt_view(*b)),
{
    match (a, b) {
        (Some(x), Some(y)) => text::same_text(x.as_str(), y.as_str()),
        (None, None) => true,
        _ => false,
    }
}

impl SuppressionRule {
    /// Whether this rule acknowledges a finding.
    pub fn matches(&self, finding: &Finding) -> (r: bool)
        ensures
            r == acknowledges(self@, finding@),
    {
        if !text::same_text(key_of(self.rule_id.as_str()), key_of(finding.category.as_str())) {
            return false;
        }
        if self.target.is_some() && !same_opt(&self.target, &finding.target) {
            return false;
        }
        match &self.fingerprint {
            Some(fp) => text::same_text(fp.as_str(), compute_fingerprint(finding).as_str()),
            None => true,
        }
    }
}

impl SuppressionConfig {
    /// The rule that acknowledges a finding, with its position: the first one
    /// that matches it.
    pub fn matching_rule_with_index(&self, finding: &Finding) -> (r: Option<
        (usize, &SuppressionRule),
    >)
        ensures
            match r {
                Some((i, rule)) => matching_rule(rule_views(self.rules@), finding@) == Some(
                    i as int,
                ) && i < self.rules@.len() && *rule == self.rules@[i as int],
                None => matching_rule(rule_views(self.rules@), finding@) is None,
            },
    {
        let mut i: usize = 0;
        while i < self.rules.len()
            invariant
                i <= self.rules@.len(),
                matching_rule(rule_views(self.rules@), finding@) == first_acknowledging(
                    rule_views(self.rules@),
                    finding@,
                    i as int,
                ),
            decreases self.rules@.len() - i,
        {
            assert(rule_views(self.rules@)[i as int] == self.rules@[i as int]@);
            if self.rules[i].matches(finding) {
                return Some((i, &self.rules[i]));
            }
            i = i + 1;
        }
        None
    }
}

proof fn lemma_first_acknowledging(rules: Seq<SuppressionRuleView>, f: FindingView, from: int)
    requires
        0 <= from,
    ensures
        match first_acknowledging(rules, f, from) {
            Some(i) => from <= i < rules.len() && acknowledges(rules[i], f) && forall|j: int|
                from <= j < i ==> !acknowledges(#[trigger] rules[j], f),
            None => forall|j: int|
                from <= j < rules.len() ==> !acknowledges(#[trigger] rules[j], f),
        },
    decreases rules.len() - from,
{
    if from >= rules.len() || acknowledges(rules[from], f) {
    } else {
        lemma_first_acknowledging(rules, f, from + 1);
    }
}

/// A finding is acknowledged exactly where some rule matches it, and then by the
/// first rule that does.
pub proof fn the_first_matching_rule_counts(rules: Seq<SuppressionRuleView>, f: FindingView)
    ensures
        matching_rule(rules, f) is Some <==> exists|i: int|
            0 <= i < rules.len() && acknowledges(#[trigger] rules[i], f),
        matching_rule(rules, f) matches Some(i) ==> 0 <= i < rules.len() && acknowledges(
            rules[i],
            f,
        ) && forall|j: int| 0 <= j < i ==> !acknowledges(#[trigger] rules[j], f),
{
    lemma_first_acknowledging(rules, f, 0);
}

/// Suppression looks at the category, the target and the message alone: a finding
/// that differs from another in its severity or in the role of its type has the
/// same fingerprint and is matched by the same rule.
pub proof fn severity_does_not_affect_suppression(
    rules: Seq<SuppressionRuleView>,
    a: FindingView,
    b: FindingView,
)
    requires
        a.category == b.category,
        a.target == b.target,
        a.message == b.message,
    ensures
        fingerprint(a) == fingerprint(b),
        matching_rule(rules, a) == matching_rule(rules, b),
{
    lemma_severity_does_not_affect_suppression(rules, a, b, 0);
}

proof fn lemma_severity_does_not_affect_suppression(
    rules: Seq<SuppressionRuleView>,
    a: FindingView,
    b: FindingView,
    from: int,
)
    requires
        a.category == b.category,
        a.target == b.target,
        a.message == b.message,
    ensures
        first_acknowledging(rules, a, from) == first_acknowledging(rules, b, from),
    decreases rules.len() - from,
{
    if 0 <= from < rules.len() && !acknowledges(rules[from], a) {
        lemma_severity_does_not_affect_suppression(rules, a, b, from + 1);
    }
}

} // verus!
