//! Findings as a report lists them, grouped by category.

use vstd::prelude::*;

use crate::baseline::BaselineStatus;
use crate::diff;
use crate::diff::Finding;
use crate::diff::FindingView;
use crate::diff::Severity;
use crate::order;
use crate::order::SortKey;
use crate::order::SortKeyView;
use crate::text;

verus! {

/// A finding as a report lists it.
#[derive(Debug)]
pub struct ReportedFinding {
    /// The stable id of the rule that the finding falls under.
    pub rule_id: String,
    /// The finding, with the severity that counts.
    pub finding: Finding,
    pub fingerprint: String,
    /// Whether a suppression rule acknowledges the finding.
    pub suppressed: bool,
    pub suppression_reason: Option<String>,
    pub suppression_author: Option<String>,
    pub suppression_expiry: Option<String>,
    pub suppression_fingerprint: Option<String>,
    /// What to do about the finding.
    pub remediation: Option<String>,
    /// The severity that the analysis gave, where a configuration changed it.
    pub original_severity: Option<Severity>,
    /// How the finding relates to an earlier report, where there is one.
    pub baseline_status: Option<BaselineStatus>,
}

/// A reported finding as plain values.
pub struct ReportedView {
    pub rule_id: Seq<char>,
    pub finding: FindingView,
    pub fingerprint: Seq<char>,
    pub suppressed: bool,
    pub suppression_reason: Option<Seq<char>>,
    pub suppression_author: Option<Seq<char>>,
    pub suppression_expiry: Option<Seq<char>>,
    pub suppression_fingerprint: Option<Seq<char>>,
    pub remediation: Option<Seq<char>>,
    pub original_severity: Option<Severity>,
    pub baseline_status: Option<BaselineStatus>,
}

impl View for ReportedFinding {
    type V = ReportedView;

    open spec fn view(&self) -> ReportedView {
        ReportedView {
            rule_id: self.rule_id@,
            finding: self.finding@,
            fingerprint: self.fingerprint@,
            suppressed: self.suppressed,
            suppression_reason: diff::opt_view(self.suppression_reason),
            suppression_author: diff::opt_view(self.suppression_author),
            suppression_expiry: diff::opt_view(self.suppression_expiry),
            suppression_fingerprint: diff::opt_view(self.suppression_fingerprint),
            remediation: diff::opt_view(self.remediation),
            original_severity: self.original_severity,
            baseline_status: self.baseline_status,
        }
    }
}

impl Clone for ReportedFinding {
    fn clone(&self) -> (r: Self)
        ensures
            r@ == self@,
    {
        ReportedFinding {
            rule_id: self.rule_id.clone(),
            finding: self.finding.clone(),
            fingerprint: self.fingerprint.clone(),
            suppressed: self.suppressed,
            suppression_reason: diff::opt_clone(&self.suppression_reason),
            suppression_author: diff::opt_clone(&self.suppression_author),
            suppression_expiry: diff::opt_clone(&self.suppression_expiry),
            suppression_fingerprint: diff::opt_clone(&self.suppression_fingerprint),
            remediation: diff::opt_clone(&self.remediation),
            original_severity: self.original_severity,
            baseline_status: self.baseline_status,
        }
    }
}

/// The views of a list of reported findings.
pub open spec fn reported_views(findings: Seq<ReportedFinding>) -> Seq<ReportedView> {
    findings.map_values(|r: ReportedFinding| r@)
}

/// A copy of a list of reported findings.
pub fn clone_findings(findings: &Vec<ReportedFinding>) -> (r: Vec<ReportedFinding>)
    ensures
        reported_views(r@) == reported_views(findings@),
{
    let mut out: Vec<ReportedFinding> = Vec::new();
    let mut i: usize = 0;
    while i < findings.len()
        invariant
            i <= findings@.len(),
            reported_views(out@) == reported_views(findings@).take(i as int),
        decreases findings@.len() - i,
    {
        let ghost before = out@;
        out.push(findings[i].clone());
        assert(reported_views(out@) =~= reported_views(before).push(findings@[i as int]@));
        assert(reported_views(findings@).take(i + 1) =~= reported_views(findings@).take(
            i as int,
        ).push(findings@[i as int]@));
        i = i + 1;
    }
    assert(reported_views(findings@).take(i as int) =~= reported_views(findings@));
    out
}

/// The findings of one category.
#[verifier::ext_equal]
pub struct GroupView {
    pub category: Seq<char>,
    pub findings: Seq<ReportedView>,
}

#[derive(Debug)]
struct Group {
    category: String,
    findings: Vec<ReportedFinding>,
}

impl View for Group {
    type V = GroupView;

    closed spec fn view(&self) -> GroupView {
        GroupView { category: self.category@, findings: reported_views(self.findings@) }
    }
}

spec fn group_views(groups: Seq<Group>) -> Seq<GroupView> {
    groups.map_values(|g: Group| g@)
}

/// Whether no category occurs twice.
pub open spec fn categories_differ(groups: Seq<GroupView>) -> bool {
    forall|i: int, j: int|
        0 <= i < j < groups.len() ==> (#[trigger] groups[i]).category != (
        #[trigger] groups[j]).category
}

/// The position of the group of a category, from `from` on.
pub open spec fn group_from(groups: Seq<GroupView>, category: Seq<char>, from: int) -> Option<int>
    decreases groups.len() - from,
{
    if from < 0 || from >= groups.len() {
        None
    } else if groups[from].category == category {
        Some(from)
    } else {
        group_from(groups, category, from + 1)
    }
}

/// The position of the group of a category.
pub open spec fn group_at(groups: Seq<GroupView>, category: Seq<char>) -> Option<int> {
    group_from(groups, category, 0)
}

pub proof fn lemma_group_from(groups: Seq<GroupView>, category: Seq<char>, from: int)
    requires
        0 <= from,
    ensures
        match group_from(groups, category, from) {
            Some(i) => from <= i < groups.len() && groups[i].category == category,
            None => forall|i: int|
                from <= i < groups.len() ==> (#[trigger] groups[i]).category != category,
        },
    decreases groups.len() - from,
{
    if from < groups.len() && groups[from].category != category {
        lemma_group_from(groups, category, from + 1);
    }
}

/// The groups with one more finding in the group of `category`, which is added
/// at the end where there is none yet.
pub open spec fn filed(groups: Seq<GroupView>, category: Seq<char>, r: ReportedView) -> Seq<
    GroupView,
> {
    match group_at(groups, category) {
        Some(i) => groups.update(
            i,
            GroupView { category: groups[i].category, findings: groups[i].findings.push(r) },
        ),
        None => groups.push(GroupView { category, findings: seq![r] }),
    }
}

/// The number of findings in the first `n` groups.
pub open spec fn findings_in(groups: Seq<GroupView>, n: int) -> nat
    decreases n,
{
    if n <= 0 {
        0
    } else {
        findings_in(groups, n - 1) + groups[n - 1].findings.len()
    }
}

/// The number of findings in all groups.
pub open spec fn total_findings(groups: Seq<GroupView>) -> nat {
    findings_in(groups, groups.len() as int)
}

pub proof fn lemma_findings_in_grow(groups: Seq<GroupView>, m: int, n: int)
    requires
        m <= n,
    ensures
        findings_in(groups, m) <= findings_in(groups, n),
    decreases n - m,
{
    if m < n {
        lemma_findings_in_grow(groups, m, n - 1);
    }
}

proof fn lemma_findings_in_prefix(a: Seq<GroupView>, b: Seq<GroupView>, n: int)
    requires
        n <= a.len(),
        n <= b.len(),
        forall|i: int|
            0 <= i < n ==> (#[trigger] a[i]).findings.len() == (#[trigger] b[i]).findings.len(),
    ensures
        findings_in(a, n) == findings_in(b, n),
    decreases n,
{
    if n > 0 {
        assert(a[n - 1].findings.len() == b[n - 1].findings.len());
        lemma_findings_in_prefix(a, b, n - 1);
    }
}

proof fn lemma_one_longer(a: Seq<GroupView>, b: Seq<GroupView>, at: int, n: int)
    requires
        0 <= at < n <= a.len(),
        n <= b.len(),
        forall|i: int|
            0 <= i < n ==> (#[trigger] b[i]).findings.len() == (#[trigger] a[i]).findings.len() + (
            if i == at {
                1int
            } else {
                0
            }),
    ensures
        findings_in(b, n) == findings_in(a, n) + 1,
    decreases n,
{
    assert(b[n - 1].findings.len() == a[n - 1].findings.len() + (if n - 1 == at {
        1int
    } else {
        0
    }));
    if n - 1 == at {
        lemma_findings_in_prefix(a, b, n - 1);
    } else {
        lemma_one_longer(a, b, at, n - 1);
    }
}

/// Filing a finding adds one to the number of findings.
pub proof fn lemma_filing_adds_one(groups: Seq<GroupView>, category: Seq<char>, r: ReportedView)
    ensures
        total_findings(filed(groups, category, r)) == total_findings(groups) + 1,
{
    lemma_group_from(groups, category, 0);
    let after = filed(groups, category, r);
    match group_at(groups, category) {
        Some(i) => {
            lemma_one_longer(groups, after, i, groups.len() as int);
        },
        None => {
            lemma_findings_in_prefix(groups, after, groups.len() as int);
        },
    }
}

/// Adding a group adds its findings.
pub proof fn lemma_adding_adds_all(groups: Seq<GroupView>, g: GroupView)
    ensures
        total_findings(groups.push(g)) == total_findings(groups) + g.findings.len(),
{
    lemma_findings_in_prefix(groups, groups.push(g), groups.len() as int);
}

/// The findings of a report, grouped by category. No category occurs twice; the
/// groups stand in the order in which their categories came up.
#[derive(Debug)]
pub struct FindingGroups {
    groups: Vec<Group>,
}

impl View for FindingGroups {
    type V = Seq<GroupView>;

    closed spec fn view(&self) -> Seq<GroupView> {
        group_views(self.groups@)
    }
}

impl FindingGroups {
    /// No category occurs twice, and the findings can be counted.
    #[verifier::type_invariant]
    spec fn well_formed(self) -> bool {
        &&& categories_differ(group_views(self.groups@))
        &&& total_findings(group_views(self.groups@)) <= usize::MAX
    }

    /// No findings.
    pub fn new() -> (r: Self)
        ensures
            r@ == Seq::<GroupView>::empty(),
    {
        let r = FindingGroups { groups: Vec::new() };
        assert(r@ =~= Seq::<GroupView>::empty());
        r
    }

    /// The number of categories.
    pub fn len(&self) -> (n: usize)
        ensures
            n == self@.len(),
            categories_differ(self@),
            total_findings(self@) <= usize::MAX,
    {
        proof {
            use_type_invariant(&*self);
        }
        self.groups.len()
    }

    /// Whether there are no findings.
    pub fn is_empty(&self) -> (r: bool)
        ensures
            r == (self@.len() == 0),
    {
        self.groups.len() == 0
    }

    /// The category of the group at a position.
    pub fn category(&self, i: usize) -> (r: &String)
        requires
            i < self@.len(),
        ensures
            r@ == self@[i as int].category,
    {
        &self.groups[i].category
    }

    /// The findings of the group at a position.
    pub fn findings(&self, i: usize) -> (r: &Vec<ReportedFinding>)
        requires
            i < self@.len(),
        ensures
            reported_views(r@) == self@[i as int].findings,
    {
        &self.groups[i].findings
    }

    fn position(&self, category: &str) -> (r: Option<usize>)
        ensures
            match r {
                Some(i) => group_at(self@, category@) == Some(i as int) && i < self@.len(),
                None => group_at(self@, category@) is None,
            },
    {
        let mut i: usize = 0;
        while i < self.groups.len()
            invariant
                i <= self.groups@.len(),
                group_at(self@, category@) == group_from(self@, category@, i as int),
            decreases self.groups@.len() - i,
        {
            assert(self@[i as int].category == self.groups@[i as int].category@);
            if text::same_text(self.groups[i].category.as_str(), category) {
                return Some(i);
            }
            i = i + 1;
        }
        None
    }

    /// The findings of a category.
    pub fn get(&self, category: &str) -> (r: Option<&Vec<ReportedFinding>>)
        ensures
            match r {
                Some(findings) => group_at(self@, category@) matches Some(i) && reported_views(
                    findings@,
                ) == self@[i].findings,
                None => group_at(self@, category@) is None,
            },
    {
        match self.position(category) {
            Some(i) => Some(&self.groups[i].findings),
            None => None,
        }
    }

    /// Adds a finding to the group of a category.
    pub fn file(&mut self, category: &str, r: ReportedFinding)
        requires
            total_findings(old(self)@) < usize::MAX,
        ensures
            final(self)@ == filed(old(self)@, category@, r@),
    {
        proof {
            use_type_invariant(&*self);
            lemma_filing_adds_one(self@, category@, r@);
        }
        let at = self.position(category);
        let ghost before = self@;
        let mut groups: Vec<Group> = Vec::new();
        std::mem::swap(&mut groups, &mut self.groups);
        match at {
            Some(i) => {
                let ghost findings = groups@[i as int].findings@;
                groups[i].findings.push(r);
                proof {
                    assert(reported_views(groups@[i as int].findings@) =~= reported_views(
                        findings,
                    ).push(r@));
                    assert(group_views(groups@) =~= filed(before, category@, r@));
                    lemma_filing_keeps_categories_apart(before, category@, r@);
                }
            },
            None => {
                let mut findings: Vec<ReportedFinding> = Vec::new();
                findings.push(r);
                assert(reported_views(findings@) =~= seq![r@]);
                groups.push(Group { category: category.to_string(), findings });
                proof {
                    assert(group_views(groups@) =~= filed(before, category@, r@));
                    lemma_filing_keeps_categories_apart(before, category@, r@);
                }
            },
        }
        self.groups = groups;
    }

    /// Adds a group whose category is not there yet.
    pub fn add(&mut self, category: &str, findings: Vec<ReportedFinding>)
        requires
            group_at(old(self)@, category@) is None,
            total_findings(old(self)@) + findings@.len() <= usize::MAX,
        ensures
            final(self)@ == old(self)@.push(
                GroupView { category: category@, findings: reported_views(findings@) },
            ),
    {
        proof {
            use_type_invariant(&*self);
            lemma_group_from(self@, category@, 0);
        }
        let ghost before = self@;
        let mut groups: Vec<Group> = Vec::new();
        std::mem::swap(&mut groups, &mut self.groups);
        let ghost added = GroupView {
            category: category@,
            findings: reported_views(findings@),
        };
        groups.push(Group { category: category.to_string(), findings });
        proof {
            lemma_adding_adds_all(before, added);
            assert(group_views(groups@) =~= before.push(added));
        }
        self.groups = groups;
    }
}

proof fn lemma_filing_keeps_categories_apart(
    groups: Seq<GroupView>,
    category: Seq<char>,
    r: ReportedView,
)
    requires
        categories_differ(groups),
    ensures
        categories_differ(filed(groups, category, r)),
{
    lemma_group_from(groups, category, 0);
    let after = filed(groups, category, r);
    assert forall|i: int, j: int| 0 <= i < j < after.len() implies (#[trigger] after[i]).category
        != (#[trigger] after[j]).category by {
        if j < groups.len() {
            assert(after[i].category == groups[i].category);
            assert(after[j].category == groups[j].category);
        } else {
            assert(after[i].category == groups[i].category);
        }
    }
}

/// Whether some finding has a severity.
pub open spec fn has_severity(findings: Seq<ReportedView>, s: Severity) -> bool {
    exists|i: int| 0 <= i < findings.len() && (#[trigger] findings[i]).finding.severity == s
}

fn any_with_severity(findings: &Vec<ReportedFinding>, s: Severity) -> (r: bool)
    ensures
        r == has_severity(reported_views(findings@), s),
{
    let mut i: usize = 0;
    while i < findings.len()
        invariant
            i <= findings@.len(),
            forall|k: int|
                0 <= k < i ==> (#[trigger] reported_views(findings@)[k]).finding.severity != s,
        decreases findings@.len() - i,
    {
        assert(reported_views(findings@)[i as int] == findings@[i as int]@);
        if findings[i].finding.severity == s {
            return true;
        }
        i = i + 1;
    }
    false
}

/// The rank of a group: critical ones first, then those with warnings.
pub open spec fn group_rank(findings: Seq<ReportedView>) -> u8 {
    if has_severity(findings, Severity::Critical) {
        0
    } else if has_severity(findings, Severity::Warning) {
        1
    } else {
        2
    }
}

/// What groups are sorted by where the most severe come first.
pub open spec fn severity_key(g: GroupView) -> SortKeyView {
    SortKeyView { rank: group_rank(g.findings), major: g.category, minor: ""@ }
}

/// What groups are sorted by where they come by name.
pub open spec fn name_key(g: GroupView) -> SortKeyView {
    SortKeyView { rank: 0, major: g.category, minor: ""@ }
}

/// What findings are sorted by where they come by message.
pub open spec fn message_key(r: ReportedView) -> SortKeyView {
    SortKeyView { rank: 0, major: r.finding.message, minor: ""@ }
}

/// What findings are sorted by where they come by category, then by message.
pub open spec fn category_and_message_key(r: ReportedView) -> SortKeyView {
    SortKeyView { rank: 0, major: r.finding.category, minor: r.finding.message }
}

/// The positions of the groups, the most severe first, those of one rank by
/// name.
pub open spec fn severity_order(groups: Seq<GroupView>) -> Seq<int> {
    order::sorted_positions(groups.map_values(|g: GroupView| severity_key(g)))
}

/// The positions of the groups, by name.
pub open spec fn name_order(groups: Seq<GroupView>) -> Seq<int> {
    order::sorted_positions(groups.map_values(|g: GroupView| name_key(g)))
}

/// The positions of findings, by message.
pub open spec fn message_order(findings: Seq<ReportedView>) -> Seq<int> {
    order::sorted_positions(findings.map_values(|r: ReportedView| message_key(r)))
}

/// The positions of findings, by category, then by message.
pub open spec fn audit_order(findings: Seq<ReportedView>) -> Seq<int> {
    order::sorted_positions(findings.map_values(|r: ReportedView| category_and_message_key(r)))
}

/// The positions of the groups, the most severe first, those of one rank by
/// name.
pub fn order_by_severity(groups: &FindingGroups) -> (r: Vec<usize>)
    ensures
        order::as_ints(r@) == severity_order(groups@),
        r@.len() == groups@.len(),
        forall|j: int| 0 <= j < r@.len() ==> #[trigger] r@[j] < groups@.len(),
{
    let mut keys: Vec<SortKey> = Vec::new();
    let ghost wanted = groups@.map_values(|g: GroupView| severity_key(g));
    let mut i: usize = 0;
    while i < groups.len()
        invariant
            i <= groups@.len(),
            wanted == groups@.map_values(|g: GroupView| severity_key(g)),
            order::key_views(keys@) == wanted.take(i as int),
        decreases groups@.len() - i,
    {
        let findings = groups.findings(i);
        let rank: u8 = if any_with_severity(findings, Severity::Critical) {
            0
        } else if any_with_severity(findings, Severity::Warning) {
            1
        } else {
            2
        };
        let ghost before = keys@;
        let key = SortKey {
            rank,
            major: groups.category(i).clone(),
            minor: "".to_string(),
        };
        keys.push(key);
        assert(order::key_views(keys@) =~= order::key_views(before).push(key@));
        assert(wanted.take(i + 1) =~= wanted.take(i as int).push(key@));
        i = i + 1;
    }
    assert(wanted.take(i as int) =~= wanted);
    order::sort_positions(&keys)
}

/// The positions of the groups, by name.
pub fn order_by_name(groups: &FindingGroups) -> (r: Vec<usize>)
    ensures
        order::as_ints(r@) == name_order(groups@),
        r@.len() == groups@.len(),
        forall|j: int| 0 <= j < r@.len() ==> #[trigger] r@[j] < groups@.len(),
{
    let mut keys: Vec<SortKey> = Vec::new();
    let ghost wanted = groups@.map_values(|g: GroupView| name_key(g));
    let mut i: usize = 0;
    while i < groups.len()
        invariant
            i <= groups@.len(),
            wanted == groups@.map_values(|g: GroupView| name_key(g)),
            order::key_views(keys@) == wanted.take(i as int),
        decreases groups@.len() - i,
    {
        let ghost before = keys@;
        let key = SortKey {
            rank: 0,
            major: groups.category(i).clone(),
            minor: "".to_string(),
        };
        keys.push(key);
        assert(order::key_views(keys@) =~= order::key_views(before).push(key@));
        assert(wanted.take(i + 1) =~= wanted.take(i as int).push(key@));
        i = i + 1;
    }
    assert(wanted.take(i as int) =~= wanted);
    order::sort_positions(&keys)
}

/// The positions of findings, by message.
pub fn order_by_message(findings: &Vec<ReportedFinding>) -> (r: Vec<usize>)
    ensures
        order::as_ints(r@) == message_order(reported_views(findings@)),
        r@.len() == findings@.len(),
        forall|j: int| 0 <= j < r@.len() ==> #[trigger] r@[j] < findings@.len(),
{
    let mut keys: Vec<SortKey> = Vec::new();
    let ghost wanted = reported_views(findings@).map_values(|r: ReportedView| message_key(r));
    let mut i: usize = 0;
    while i < findings.len()
        invariant
            i <= findings@.len(),
            wanted == reported_views(findings@).map_values(|r: ReportedView| message_key(r)),
            order::key_views(keys@) == wanted.take(i as int),
        decreases findings@.len() - i,
    {
        let ghost before = keys@;
        let key = SortKey {
            rank: 0,
            major: findings[i].finding.message.clone(),
            minor: "".to_string(),
        };
        keys.push(key);
        assert(order::key_views(keys@) =~= order::key_views(before).push(key@));
        assert(wanted.take(i + 1) =~= wanted.take(i as int).push(key@));
        i = i + 1;
    }
    assert(wanted.take(i as int) =~= wanted);
    order::sort_positions(&keys)
}

/// The views of a list of references to findings.
pub open spec fn ref_views(findings: Seq<&ReportedFinding>) -> Seq<ReportedView> {
    findings.map_values(|r: &ReportedFinding| r@)
}

/// The positions of findings, by category, then by message.
pub fn order_for_audit(findings: &Vec<&ReportedFinding>) -> (r: Vec<usize>)
    ensures
        order::as_ints(r@) == audit_order(ref_views(findings@)),
        r@.len() == findings@.len(),
        forall|j: int| 0 <= j < r@.len() ==> #[trigger] r@[j] < findings@.len(),
{
    let mut keys: Vec<SortKey> = Vec::new();
    let ghost wanted = ref_views(findings@).map_values(
        |r: ReportedView| category_and_message_key(r),
    );
    let mut i: usize = 0;
    while i < findings.len()
        invariant
            i <= findings@.len(),
            wanted == ref_views(findings@).map_values(
                |r: ReportedView| category_and_message_key(r),
            ),
            order::key_views(keys@) == wanted.take(i as int),
        decreases findings@.len() - i,
    {
        let ghost before = keys@;
        let key = SortKey {
            rank: 0,
            major: findings[i].finding.category.clone(),
            minor: findings[i].finding.message.clone(),
        };
        keys.push(key);
        assert(order::key_views(keys@) =~= order::key_views(before).push(key@));
        assert(wanted.take(i + 1) =~= wanted.take(i as int).push(key@));
        i = i + 1;
    }
    assert(wanted.take(i as int) =~= wanted);
    order::sort_positions(&keys)
}

/// The suppressed ones among the first `n` findings.
pub open spec fn suppressed_among(findings: Seq<ReportedView>, n: int) -> Seq<ReportedView>
    decreases n,
{
    if n <= 0 {
        Seq::empty()
    } else if findings[n - 1].suppressed {
        suppressed_among(findings, n - 1).push(findings[n - 1])
    } else {
        suppressed_among(findings, n - 1)
    }
}

/// The suppressed findings of the first `n` groups.
pub open spec fn suppressed_in_groups(groups: Seq<GroupView>, n: int) -> Seq<ReportedView>
    decreases n,
{
    if n <= 0 {
        Seq::empty()
    } else {
        suppressed_in_groups(groups, n - 1) + suppressed_among(
            groups[n - 1].findings,
            groups[n - 1].findings.len() as int,
        )
    }
}

/// The suppressed findings of a report, group by group.
pub open spec fn suppressed_findings(groups: Seq<GroupView>) -> Seq<ReportedView> {
    suppressed_in_groups(groups, groups.len() as int)
}

/// The suppressed findings of a report, group by group.
pub fn list_suppressed(groups: &FindingGroups) -> (r: Vec<&ReportedFinding>)
    ensures
        ref_views(r@) == suppressed_findings(groups@),
{
    let mut out: Vec<&ReportedFinding> = Vec::new();
    let mut i: usize = 0;
    assert(ref_views(out@) =~= suppressed_in_groups(groups@, 0));
    while i < groups.len()
        invariant
            i <= groups@.len(),
            ref_views(out@) == suppressed_in_groups(groups@, i as int),
        decreases groups@.len() - i,
    {
        let findings = groups.findings(i);
        let ghost views = reported_views(findings@);
        let ghost done = ref_views(out@);
        let mut k: usize = 0;
        assert(done =~= done + suppressed_among(views, 0));
        while k < findings.len()
            invariant
                k <= findings@.len(),
                views == reported_views(findings@),
                ref_views(out@) == done + suppressed_among(views, k as int),
            decreases findings@.len() - k,
        {
            assert(views[k as int] == findings@[k as int]@);
            if findings[k].suppressed {
                let ghost before = out@;
                out.push(&findings[k]);
                assert(ref_views(out@) =~= ref_views(before).push(views[k as int]));
                assert(done + suppressed_among(views, k + 1) =~= (done + suppressed_among(
                    views,
                    k as int,
                )).push(views[k as int]));
            }
            k = k + 1;
        }
        i = i + 1;
    }
    out
}

/// The group order puts critical groups before those that only warn, and those
/// before the rest; groups of one rank come by name.
pub proof fn severe_groups_come_first(groups: Seq<GroupView>, i: int, j: int)
    requires
        0 <= i < j < groups.len(),
    ensures
        severity_order(groups).len() == groups.len(),
        0 <= severity_order(groups)[i] < groups.len(),
        0 <= severity_order(groups)[j] < groups.len(),
        ({
            let a = groups[severity_order(groups)[i]];
            let b = groups[severity_order(groups)[j]];
            group_rank(a.findings) < group_rank(b.findings) || group_rank(a.findings)
                == group_rank(b.findings) && text::text_le(a.category, b.category)
        }),
{
    let keys = groups.map_values(|g: GroupView| severity_key(g));
    order::sorting_is_a_stable_permutation(keys);
    let s = severity_order(groups);
    assert(s.contains(s[i]) && s.contains(s[j]));
    assert(order::in_order(keys, s[i], s[j]));
    let a = groups[s[i]];
    let b = groups[s[j]];
    assert(keys[s[i]] == severity_key(a));
    assert(keys[s[j]] == severity_key(b));
    if a.category == b.category {
        text::lemma_text_le_order(a.category, a.category, a.category);
    }
}

} // verus!
