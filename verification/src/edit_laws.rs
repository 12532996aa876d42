//! What the distance of two texts is, and which names are suggested.

use vstd::prelude::*;

use crate::rules;
use crate::text;

verus! {

/// Whether one text becomes the other by taking away, adding or replacing the one
/// character at `i`.
pub open spec fn differ_at(a: Seq<char>, b: Seq<char>, i: int) -> bool {
    ||| 0 <= i < a.len() && b == a.remove(i)
    ||| 0 <= i < b.len() && a == b.remove(i)
    ||| 0 <= i < a.len() && a.len() == b.len() && b == a.update(i, b[i])
}

/// Whether one text becomes the other by at most `n` such changes, one after the
/// other.
pub open spec fn within_edits(a: Seq<char>, b: Seq<char>, n: nat) -> bool
    decreases n,
{
    a == b || n > 0 && exists|c: Seq<char>, i: int| #[trigger]
        differ_at(a, c, i) && within_edits(c, b, (n - 1) as nat)
}

proof fn lemma_one_more(a: Seq<char>, b: Seq<char>)
    requires
        b.len() > 0,
    ensures
        rules::edit_distance(a, b) <= rules::edit_distance(a, b.drop_last()) + 1,
{
    if a.len() > 0 {
        assert(rules::edit_distance(a, b) <= rules::edit_distance(a, b.drop_last()) + 1);
    }
}

proof fn lemma_one_less(a: Seq<char>, b: Seq<char>)
    requires
        a.len() > 0,
    ensures
        rules::edit_distance(a, b) <= rules::edit_distance(a.drop_last(), b) + 1,
{
}

/// A change at one place makes a distance no more than one longer.
proof fn lemma_one_change(a: Seq<char>, c: Seq<char>, b: Seq<char>, i: int)
    requires
        differ_at(a, c, i),
    ensures
        rules::edit_distance(a, b) <= rules::edit_distance(c, b) + 1,
    decreases a.len() + c.len() + b.len(),
{
    if b.len() == 0 {
    } else if c.len() == 0 {
        // a has one character
        assert(a.len() == 1);
        assert(a.drop_last().len() == 0);
        lemma_one_less(a, b);
    } else if a.len() == 0 {
        // c has one character
        assert(c.len() == 1);
        assert(c.drop_last().len() == 0);
        assert(a =~= c.drop_last());
        lemma_one_change(a, c, b.drop_last(), i);
    } else {
        let a1 = a.drop_last();
        let b1 = b.drop_last();
        let c1 = c.drop_last();
        lemma_one_more(a, b);
        lemma_one_less(a, b);
        lemma_one_change(a, c, b1, i);
        if c == a.remove(i) && 0 <= i < a.len() {
            if i == a.len() - 1 {
                assert(c =~= a1);
            } else {
                assert(c1 =~= a1.remove(i));
                assert(c.last() == a.last());
                assert(differ_at(a1, c1, i));
                lemma_one_change(a1, c1, b, i);
                lemma_one_change(a1, c1, b1, i);
            }
        } else if a == c.remove(i) && 0 <= i < c.len() {
            if i == c.len() - 1 {
                assert(a =~= c1);
                lemma_one_more(a, b);
            } else {
                assert(a1 =~= c1.remove(i));
                assert(c.last() == a.last());
                assert(differ_at(a1, c1, i));
                lemma_one_change(a1, c1, b, i);
                lemma_one_change(a1, c1, b1, i);
            }
        } else {
            if i == a.len() - 1 {
                assert(a1 =~= c1);
            } else {
                assert(c1 =~= a1.update(i, c1[i]));
                assert(c.last() == a.last());
                assert(differ_at(a1, c1, i));
                lemma_one_change(a1, c1, b, i);
                lemma_one_change(a1, c1, b1, i);
            }
        }
    }
}

proof fn lemma_distance_to_itself(a: Seq<char>)
    ensures
        rules::edit_distance(a, a) == 0,
    decreases a.len(),
{
    if a.len() > 0 {
        lemma_distance_to_itself(a.drop_last());
    }
}

proof fn lemma_no_fewer_edits(a: Seq<char>, b: Seq<char>, n: nat)
    requires
        within_edits(a, b, n),
    ensures
        rules::edit_distance(a, b) <= n,
    decreases n,
{
    if a == b {
        lemma_distance_to_itself(a);
    } else {
        let (c, i) = choose|c: Seq<char>, i: int| #[trigger]
            differ_at(a, c, i) && within_edits(c, b, (n - 1) as nat);
        lemma_no_fewer_edits(c, b, (n - 1) as nat);
        lemma_one_change(a, c, b, i);
    }
}

proof fn lemma_more_edits(a: Seq<char>, b: Seq<char>, n: nat, m: nat)
    requires
        within_edits(a, b, n),
        n <= m,
    ensures
        within_edits(a, b, m),
    decreases n,
{
    if a != b {
        let (c, i) = choose|c: Seq<char>, i: int| #[trigger]
            differ_at(a, c, i) && within_edits(c, b, (n - 1) as nat);
        lemma_more_edits(c, b, (n - 1) as nat, (m - 1) as nat);
        assert(differ_at(a, c, i));
    }
}

/// The same changes can be made before a further character.
proof fn lemma_edits_before(a: Seq<char>, b: Seq<char>, x: char, n: nat)
    requires
        within_edits(a, b, n),
    ensures
        within_edits(a.push(x), b.push(x), n),
    decreases n,
{
    if a != b {
        let (c, i) = choose|c: Seq<char>, i: int| #[trigger]
            differ_at(a, c, i) && within_edits(c, b, (n - 1) as nat);
        lemma_edits_before(c, b, x, (n - 1) as nat);
        let ax = a.push(x);
        let cx = c.push(x);
        if 0 <= i < a.len() && c == a.remove(i) {
            assert(cx =~= ax.remove(i));
        } else if 0 <= i < c.len() && a == c.remove(i) {
            assert(ax =~= cx.remove(i));
        } else {
            assert(cx =~= ax.update(i, cx[i]));
        }
        assert(differ_at(ax, cx, i));
    }
}

/// As many changes as the distance says are enough.
proof fn lemma_enough_edits(a: Seq<char>, b: Seq<char>)
    ensures
        within_edits(a, b, rules::edit_distance(a, b)),
    decreases a.len() + b.len(),
{
    let d = rules::edit_distance(a, b);
    if a.len() == 0 && b.len() == 0 {
        assert(a =~= b);
    } else if a.len() == 0 {
        // b without its last character first
        let b1 = b.drop_last();
        lemma_enough_edits(a, b1);
        lemma_then_added(a, b, (d - 1) as nat);
    } else if b.len() == 0 {
        let a1 = a.drop_last();
        lemma_enough_edits(a1, b);
        assert(a1 =~= a.remove(a.len() - 1));
        assert(differ_at(a, a1, a.len() - 1));
    } else {
        let a1 = a.drop_last();
        let b1 = b.drop_last();
        if d == rules::edit_distance(a1, b) + 1 {
            lemma_enough_edits(a1, b);
            assert(a1 =~= a.remove(a.len() - 1));
            assert(differ_at(a, a1, a.len() - 1));
        } else if d == rules::edit_distance(a, b1) + 1 {
            lemma_enough_edits(a, b1);
            lemma_then_added(a, b, (d - 1) as nat);
        } else {
            lemma_enough_edits(a1, b1);
            let n = rules::edit_distance(a1, b1);
            lemma_edits_before(a1, b1, b.last(), n);
            assert(b1.push(b.last()) =~= b);
            let c = a1.push(b.last());
            if a.last() == b.last() {
                assert(c =~= a);
            } else {
                assert(c =~= a.update(a.len() - 1, c[a.len() - 1]));
                assert(differ_at(a, c, a.len() - 1));
            }
        }
    }
}

/// What becomes `b` without its last character becomes `b` by one change more.
proof fn lemma_then_added(a: Seq<char>, b: Seq<char>, n: nat)
    requires
        b.len() > 0,
        within_edits(a, b.drop_last(), n),
    ensures
        within_edits(a, b, n + 1),
    decreases n,
{
    let b1 = b.drop_last();
    if a == b1 {
        assert(a =~= b.remove(b.len() - 1));
        assert(differ_at(a, b, b.len() - 1));
        assert(within_edits(b, b, n));
    } else {
        let (c, i) = choose|c: Seq<char>, i: int| #[trigger]
            differ_at(a, c, i) && within_edits(c, b1, (n - 1) as nat);
        lemma_then_added(c, b, (n - 1) as nat);
        assert(differ_at(a, c, i));
    }
}

/// The distance of two texts is the least number of characters to be taken away,
/// added or replaced until one has become the other.
pub proof fn the_distance_is_the_least_number_of_edits(a: Seq<char>, b: Seq<char>, n: nat)
    ensures
        rules::edit_distance(a, b) <= n <==> within_edits(a, b, n),
{
    if within_edits(a, b, n) {
        lemma_no_fewer_edits(a, b, n);
    }
    if rules::edit_distance(a, b) <= n {
        lemma_enough_edits(a, b);
        lemma_more_edits(a, b, rules::edit_distance(a, b), n);
    }
}

proof fn lemma_near_labels(name: Seq<char>, n: int)
    requires
        0 <= n <= rules::RULE_COUNT,
    ensures
        rules::near_labels(name, n) == Seq::new(
            n as nat,
            |i: int| rules::rule_at(i).label@,
        ).filter(|label: Seq<char>| rules::is_near(name, label)),
    decreases n,
{
    reveal(Seq::filter);
    let labels = |k: nat| Seq::new(k, |i: int| rules::rule_at(i).label@);
    if n > 0 {
        lemma_near_labels(name, n - 1);
        assert(labels(n as nat).drop_last() =~= labels((n - 1) as nat));
        assert(labels(n as nat).last() == rules::rule_at(n - 1).label@);
    }
}

/// Of the labels of all rules, in their order, those are suggested for a name that
/// hold it, in whatever case, or become it by at most three edits.
pub proof fn near_names_are_suggested(name: Seq<char>)
    ensures
        rules::near_labels(name, rules::RULE_COUNT as int) == rules::rules().map_values(
            |r: rules::Rule| r.label@,
        ).filter(
            |label: Seq<char>|
                {
                    let wanted = text::ascii_lower_text(name);
                    let candidate = text::ascii_lower_text(label);
                    text::has_sub(candidate, wanted) || within_edits(wanted, candidate, 3)
                },
        ),
{
    lemma_near_labels(name, rules::RULE_COUNT as int);
    let labels = Seq::new(rules::RULE_COUNT as nat, |i: int| rules::rule_at(i).label@);
    assert(rules::rules().map_values(|r: rules::Rule| r.label@) =~= labels);
    let p = |label: Seq<char>| rules::is_near(name, label);
    let q = |label: Seq<char>|
        {
            let wanted = text::ascii_lower_text(name);
            let candidate = text::ascii_lower_text(label);
            text::has_sub(candidate, wanted) || within_edits(wanted, candidate, 3)
        };
    assert forall|label: Seq<char>| #[trigger] p(label) == q(label) by {
        the_distance_is_the_least_number_of_edits(
            text::ascii_lower_text(name),
            text::ascii_lower_text(label),
            3,
        );
    }
    assert(p =~= q);
}

} // verus!
