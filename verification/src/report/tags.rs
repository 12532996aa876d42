//! Counting the tags in a text.

use vstd::prelude::*;

use crate::text;

verus! {

/// How many of the first `n` places in `s` a tag stands at.
pub open spec fn tags_before(s: Seq<char>, tag: Seq<char>, n: int) -> nat
    decreases n,
{
    if n <= 0 {
        0
    } else {
        tags_before(s, tag, n - 1) + (if text::occurs_at(s, n - 1, tag) {
            1nat
        } else {
            0nat
        })
    }
}

/// How often a tag stands in `s`.
pub open spec fn tags(s: Seq<char>, tag: Seq<char>) -> nat {
    tags_before(s, tag, s.len() as int)
}

/// Whether `s` breaks off in the middle of a tag that begins at `i`.
pub open spec fn breaks_off_at(s: Seq<char>, tag: Seq<char>, i: int) -> bool {
    &&& 0 <= i < s.len()
    &&& s.len() - i < tag.len()
    &&& s.subrange(i, s.len() as int) == tag.take(s.len() - i)
}

/// Whether `s` does not break off in the middle of a tag.
pub open spec fn whole(s: Seq<char>, tag: Seq<char>) -> bool {
    forall|i: int| !#[trigger] breaks_off_at(s, tag, i)
}

proof fn lemma_tags_in_first(a: Seq<char>, b: Seq<char>, tag: Seq<char>, n: int)
    requires
        whole(a, tag),
        0 <= n <= a.len(),
        tag.len() > 0,
    ensures
        tags_before(a + b, tag, n) == tags_before(a, tag, n),
    decreases n,
{
    if n > 0 {
        lemma_tags_in_first(a, b, tag, n - 1);
        let i = n - 1;
        let s = a + b;
        if i + tag.len() <= a.len() {
            assert(s.subrange(i, i + tag.len()) =~= a.subrange(i, i + tag.len()));
        } else {
            assert(!breaks_off_at(a, tag, i));
            if text::occurs_at(s, i, tag) {
                assert(a.subrange(i, a.len() as int) =~= s.subrange(i, i + tag.len()).take(
                    a.len() - i,
                ));
            }
        }
    }
}

proof fn lemma_tags_in_second(a: Seq<char>, b: Seq<char>, tag: Seq<char>, n: int)
    requires
        whole(a, tag),
        0 <= n <= b.len(),
        tag.len() > 0,
    ensures
        tags_before(a + b, tag, a.len() + n) == tags(a, tag) + tags_before(b, tag, n),
    decreases n,
{
    if n > 0 {
        lemma_tags_in_second(a, b, tag, n - 1);
        let i = n - 1;
        let s = a + b;
        if i + tag.len() <= b.len() {
            assert(s.subrange(a.len() + i, a.len() + i + tag.len()) =~= b.subrange(
                i,
                i + tag.len(),
            ));
        }
    } else {
        lemma_tags_in_first(a, b, tag, a.len() as int);
    }
}

/// Behind a text that does not break off in the middle of a tag, the tags of
/// another text are counted as they are in it.
pub(crate) broadcast proof fn lemma_tags_of_joined(a: Seq<char>, b: Seq<char>, tag: Seq<char>)
    requires
        whole(a, tag),
        tag.len() > 0,
    ensures
        #[trigger] tags(a + b, tag) == tags(a, tag) + tags(b, tag),
{
    lemma_tags_in_second(a, b, tag, b.len() as int);
}

pub(crate) broadcast proof fn lemma_whole_joined(a: Seq<char>, b: Seq<char>, tag: Seq<char>)
    requires
        whole(a, tag),
        whole(b, tag),
    ensures
        #[trigger] whole(a + b, tag),
{
    let s = a + b;
    assert forall|i: int| !#[trigger] breaks_off_at(s, tag, i) by {
        if breaks_off_at(s, tag, i) {
            if i < a.len() {
                assert(a.subrange(i, a.len() as int) =~= s.subrange(i, s.len() as int).take(
                    a.len() - i,
                ));
                assert(tag.take(s.len() - i).take(a.len() - i) =~= tag.take(a.len() - i));
                assert(breaks_off_at(a, tag, i));
            } else {
                let k = i - a.len();
                assert(b.subrange(k, b.len() as int) =~= s.subrange(i, s.len() as int));
                assert(breaks_off_at(b, tag, k));
            }
        }
    }
}

/// Whether every tag in `s` differs from `tag` at the place `d`.
pub(crate) open spec fn holds_others(s: Seq<char>, tag: Seq<char>, d: int) -> bool {
    forall|i: int| 0 <= i < s.len() && #[trigger] s[i] == '<' ==> i + d < s.len() && s[i + d] != tag[d]
}

proof fn lemma_no_tags_before(s: Seq<char>, tag: Seq<char>, d: int, n: int)
    requires
        holds_others(s, tag, d),
        0 < d < tag.len(),
        tag[0] == '<',
        0 <= n <= s.len(),
    ensures
        tags_before(s, tag, n) == 0,
    decreases n,
{
    if n > 0 {
        lemma_no_tags_before(s, tag, d, n - 1);
        let i = n - 1;
        if text::occurs_at(s, i, tag) {
            assert(s.subrange(i, i + tag.len())[0] == tag[0]);
            assert(s.subrange(i, i + tag.len())[d] == tag[d]);
            assert(s[i] == '<');
        }
    }
}

pub(crate) proof fn lemma_other_tags(s: Seq<char>, tag: Seq<char>, d: int)
    requires
        holds_others(s, tag, d),
        0 < d < tag.len(),
        tag[0] == '<',
    ensures
        tags(s, tag) == 0,
        whole(s, tag),
{
    lemma_no_tags_before(s, tag, d, s.len() as int);
    assert forall|i: int| !#[trigger] breaks_off_at(s, tag, i) by {
        if breaks_off_at(s, tag, i) {
            let part = s.subrange(i, s.len() as int);
            assert(part[0] == tag.take(s.len() - i)[0]);
            assert(s[i] == '<');
            assert(part[d] == tag.take(s.len() - i)[d]);
        }
    }
}

proof fn lemma_one_tag_before(s: Seq<char>, tag: Seq<char>, at: int, n: int)
    requires
        text::occurs_at(s, at, tag),
        tag.len() > 0,
        tag[0] == '<',
        forall|i: int| 0 <= i < s.len() && i != at ==> #[trigger] s[i] != '<',
        0 <= n <= s.len(),
    ensures
        tags_before(s, tag, n) == (if at < n {
            1nat
        } else {
            0nat
        }),
    decreases n,
{
    if n > 0 {
        lemma_one_tag_before(s, tag, at, n - 1);
        let i = n - 1;
        if i != at && text::occurs_at(s, i, tag) {
            assert(s.subrange(i, i + tag.len())[0] == tag[0]);
            assert(s[i] == '<');
        }
    }
}

pub(crate) proof fn lemma_one_tag(s: Seq<char>, tag: Seq<char>, at: int)
    requires
        text::occurs_at(s, at, tag),
        tag.len() > 0,
        tag[0] == '<',
        forall|i: int| 0 <= i < s.len() && i != at ==> #[trigger] s[i] != '<',
    ensures
        tags(s, tag) == 1,
        whole(s, tag),
{
    lemma_one_tag_before(s, tag, at, s.len() as int);
    assert forall|i: int| !#[trigger] breaks_off_at(s, tag, i) by {
        if breaks_off_at(s, tag, i) {
            let part = s.subrange(i, s.len() as int);
            assert(part[0] == tag.take(s.len() - i)[0]);
            assert(s[i] == '<');
        }
    }
}

pub(crate) proof fn lemma_digits(n: nat)
    ensures
        forall|i: int| 0 <= i < text::decimal(n).len() ==> #[trigger] text::decimal(n)[i] != '<',
    decreases n,
{
    if n >= 10 {
        lemma_digits(n / 10);
        let front = text::decimal(n / 10);
        assert forall|i: int| 0 <= i < text::decimal(n).len() implies #[trigger] text::decimal(n)[i]
            != '<' by {
            if i < front.len() {
                assert(text::decimal(n)[i] == front[i]);
            }
        }
    }
}

/// A number holds no tag.
pub(crate) proof fn lemma_no_tag_in_number(n: nat, tag: Seq<char>)
    requires
        tag.len() > 1,
        tag[0] == '<',
    ensures
        tags(text::decimal(n), tag) == 0,
        whole(text::decimal(n), tag),
{
    lemma_digits(n);
    lemma_other_tags(text::decimal(n), tag, 1);
}

} // verus!
