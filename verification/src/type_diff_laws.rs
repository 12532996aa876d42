//! What the two lines of a type difference show.

use vstd::prelude::*;

use crate::style;
use crate::style::Color;
use crate::style::SpanView;
use crate::text;
use crate::type_diff;

verus! {

/// Whether a character is a letter, a digit or an underscore; a character beyond
/// ASCII counts as a letter.
pub open spec fn is_letter(c: char) -> bool {
    c == '_' || 'a' <= c <= 'z' || 'A' <= c <= 'Z' || '0' <= c <= '9' || c as u32 > 127
}

/// Whether the place `n` in `s` has letters on both sides.
pub open spec fn in_a_word(s: Seq<char>, n: int) -> bool {
    0 < n < s.len() && is_letter(s[n - 1]) && is_letter(s[n])
}

/// Whether the first `n` characters of two texts are the same, down to the end of
/// a word.
pub open spec fn begin_alike(a: Seq<char>, b: Seq<char>, n: int) -> bool {
    &&& 0 <= n <= a.len() && n <= b.len()
    &&& forall|i: int| 0 <= i < n ==> #[trigger] a[i] == b[i]
    &&& !in_a_word(a, n) && !in_a_word(b, n)
}

/// Whether the last `n` characters of two texts are the same, from the beginning
/// of a word on.
pub open spec fn end_alike(a: Seq<char>, b: Seq<char>, n: int) -> bool {
    &&& 0 <= n <= a.len() && n <= b.len()
    &&& forall|i: int| 1 <= i <= n ==> #[trigger] a[a.len() - i] == b[b.len() - i]
    &&& !in_a_word(a, a.len() - n) && !in_a_word(b, b.len() - n)
}

proof fn lemma_begin_alike(a: Seq<char>, b: Seq<char>, n: int)
    ensures
        begin_alike(a, b, n) <==> type_diff::share_start(a, b, n),
{
    if begin_alike(a, b, n) {
        assert(a.take(n) =~= b.take(n));
    }
    if type_diff::share_start(a, b, n) {
        assert forall|i: int| 0 <= i < n implies #[trigger] a[i] == b[i] by {
            assert(a.take(n)[i] == b.take(n)[i]);
        }
    }
}

proof fn lemma_end_alike(a: Seq<char>, b: Seq<char>, n: int)
    ensures
        end_alike(a, b, n) <==> type_diff::share_end(a, b, n),
{
    if end_alike(a, b, n) {
        let x = a.skip(a.len() - n);
        let y = b.skip(b.len() - n);
        assert forall|k: int| 0 <= k < n implies #[trigger] x[k] == y[k] by {
            let i = n - k;
            assert(a[a.len() - i] == b[b.len() - i]);
        }
        assert(x =~= y);
    }
    if type_diff::share_end(a, b, n) {
        assert forall|i: int| 1 <= i <= n implies #[trigger] a[a.len() - i] == b[b.len() - i] by {
            assert(a.skip(a.len() - n)[n - i] == b.skip(b.len() - n)[n - i]);
        }
    }
}

/// What two types begin with alike is the longest run of whole words at their
/// beginning, and what they end with alike is the longest one at their end that
/// does not reach into the beginning.
pub proof fn what_is_alike_is_as_long_as_can_be(a: Seq<char>, b: Seq<char>)
    ensures
        begin_alike(a, b, type_diff::shared_start(a, b)),
        end_alike(a, b, type_diff::shared_end(a, b)),
        forall|n: int| #[trigger] begin_alike(a, b, n) ==> n <= type_diff::shared_start(a, b),
        forall|n: int| #[trigger]
            end_alike(a, b, n) && n <= a.len() - type_diff::shared_start(a, b) && n <= b.len()
                - type_diff::shared_start(a, b) ==> n <= type_diff::shared_end(a, b),
        type_diff::span_end(a, b) == (if a.len() == b.len() {
            type_diff::shared_end(a, b)
        } else {
            0
        }),
{
    type_diff::the_span_is_the_longest(a, b);
    lemma_begin_alike(a, b, type_diff::shared_start(a, b));
    lemma_end_alike(a, b, type_diff::shared_end(a, b));
    assert forall|n: int| #[trigger] begin_alike(a, b, n) implies n <= type_diff::shared_start(
        a,
        b,
    ) by {
        lemma_begin_alike(a, b, n);
    }
    assert forall|n: int| #[trigger]
        end_alike(a, b, n) && n <= a.len() - type_diff::shared_start(a, b) && n <= b.len()
            - type_diff::shared_start(a, b) implies n <= type_diff::shared_end(a, b) by {
        lemma_end_alike(a, b, n);
    }
}

/// With colours, both lines keep their types: without the styles they read as a
/// line with the old type and a line with the new one. Of a type only what stands
/// between what both begin and end with is coloured: red in the old type and
/// green in the new one.
pub proof fn coloured_lines_keep_the_types(a: Seq<char>, b: Seq<char>)
    ensures
        style::unstyled(type_diff::diff_spans(a, b, true)) == "    - "@ + a + "\n    + "@ + b
            + "\n"@,
        ({
            let spans = type_diff::diff_spans(a, b, true);
            &&& spans.len() == 13
            &&& style::unstyled(spans.take(3)) == "    - "@
            &&& style::unstyled(spans.subrange(3, 6)) == a
            &&& style::unstyled(spans.subrange(6, 9)) == "\n    + "@
            &&& style::unstyled(spans.subrange(9, 12)) == b
            &&& spans[3].text == spans[9].text
            &&& spans[5].text == spans[11].text
            &&& spans[3].text.len() == type_diff::shared_start(a, b)
            &&& spans[5].text.len() == type_diff::shared_end(a, b)
            &&& spans[4] == style::bold_colored(spans[4].text, Color::Red)
            &&& spans[10] == style::bold_colored(spans[10].text, Color::Green)
            &&& forall|i: int|
                #![trigger spans[i]]
                0 <= i < 13 && i != 1 && i != 4 && i != 7 && i != 10 ==> spans[i] == style::plain(
                    spans[i].text,
                )
        }),
{
    type_diff::the_span_keeps_the_texts(a, b);
    type_diff::the_span_is_the_longest(a, b);
    reveal_strlit("    ");
    reveal_strlit("-");
    reveal_strlit(" ");
    reveal_strlit("\n    ");
    reveal_strlit("+");
    reveal_strlit("    - ");
    reveal_strlit("\n    + ");
    let spans = type_diff::diff_spans(a, b, true);
    let start = type_diff::shared_start(a, b);
    let end = type_diff::shared_end(a, b);
    reveal_with_fuel(style::run_together, 4);
    lemma_three(spans, 0);
    lemma_three(spans, 3);
    lemma_three(spans, 6);
    lemma_three(spans, 9);
    assert(spans.take(3) =~= spans.subrange(0, 3));
    assert(style::unstyled(spans.take(3)) =~= "    - "@);
    assert(style::unstyled(spans.subrange(3, 6)) =~= a);
    assert(style::unstyled(spans.subrange(6, 9)) =~= "\n    + "@);
    assert(b.take(start) =~= a.take(start));
    assert(style::unstyled(spans.subrange(9, 12)) =~= b);
    lemma_joined(spans, 3, 6);
    lemma_joined(spans, 6, 9);
    lemma_joined(spans, 9, 12);
    lemma_joined(spans, 12, 13);
    let last = spans.subrange(12, 13).map_values(|s: SpanView| s.text);
    assert(style::unstyled(spans.subrange(12, 13)) =~= "\n"@) by {
        assert(last.len() == 1 && last[0] == "\n"@);
        assert(last.drop_last() =~= Seq::<Seq<char>>::empty());
        assert(style::run_together(last) =~= "\n"@);
    }
    assert(spans.take(13) =~= spans);
}

proof fn lemma_three(spans: Seq<SpanView>, i: int)
    requires
        0 <= i,
        i + 3 <= spans.len(),
    ensures
        style::unstyled(spans.subrange(i, i + 3)) == spans[i].text + spans[i + 1].text
            + spans[i + 2].text,
{
    let texts = spans.subrange(i, i + 3).map_values(|s: SpanView| s.text);
    assert(texts.drop_last().drop_last().drop_last() =~= Seq::<Seq<char>>::empty());
    reveal_with_fuel(style::run_together, 4);
    assert(style::run_together(texts) =~= spans[i].text + spans[i + 1].text + spans[i + 2].text);
}

proof fn lemma_runs_joined(a: Seq<Seq<char>>, b: Seq<Seq<char>>)
    ensures
        style::run_together(a + b) == style::run_together(a) + style::run_together(b),
    decreases b.len(),
{
    if b.len() == 0 {
        assert(a + b =~= a);
        assert(style::run_together(a) + style::run_together(b) =~= style::run_together(a));
    } else {
        lemma_runs_joined(a, b.drop_last());
        assert((a + b).drop_last() =~= a + b.drop_last());
        assert(style::run_together(a + b) =~= style::run_together(a) + style::run_together(b));
    }
}

proof fn lemma_joined(spans: Seq<SpanView>, i: int, j: int)
    requires
        0 <= i <= j <= spans.len(),
    ensures
        style::unstyled(spans.take(j)) == style::unstyled(spans.take(i)) + style::unstyled(
            spans.subrange(i, j),
        ),
{
    let texts = |t: Seq<SpanView>| t.map_values(|s: SpanView| s.text);
    assert(texts(spans.take(j)) =~= texts(spans.take(i)) + texts(spans.subrange(i, j)));
    lemma_runs_joined(texts(spans.take(i)), texts(spans.subrange(i, j)));
}

/// Whether a text is made of three parts.
pub open spec fn is_made_of(s: Seq<char>, x: Seq<char>, y: Seq<char>, z: Seq<char>) -> bool {
    s == x + y + z
}

/// Without colours, both lines keep their types too: what both begin and end with
/// stands as it is, and what is between stands in square brackets.
pub proof fn plain_lines_keep_the_types(a: Seq<char>, b: Seq<char>)
    ensures
        exists|p: Seq<char>, x: Seq<char>, y: Seq<char>, s: Seq<char>| #[trigger]
            is_made_of(a, p, x, s) && #[trigger] is_made_of(b, p, y, s) && p.len()
                == type_diff::shared_start(a, b) && s.len() == type_diff::shared_end(a, b)
                && type_diff::plain_diff(a, b) == "    - "@ + p + "["@ + x + "]"@ + s
                + "\n    + "@ + p + "["@ + y + "]"@ + s + "\n"@,
        style::unstyled(type_diff::diff_spans(a, b, false)) == type_diff::plain_diff(a, b),
{
    type_diff::the_span_keeps_the_texts(a, b);
    type_diff::the_span_is_the_longest(a, b);
    let start = type_diff::shared_start(a, b);
    let end = type_diff::shared_end(a, b);
    let p = a.take(start);
    let s = a.skip(a.len() - end);
    assert(is_made_of(a, p, type_diff::middle(a, start, end), s));
    assert(is_made_of(b, p, type_diff::middle(b, start, end), s));
    let texts = type_diff::diff_spans(a, b, false).map_values(|t: SpanView| t.text);
    assert(texts.drop_last() =~= Seq::<Seq<char>>::empty());
    assert(style::run_together(texts) =~= type_diff::plain_diff(a, b)) by {
        assert(texts.last() == type_diff::plain_diff(a, b));
        reveal_with_fuel(style::run_together, 2);
    }
}

/// The types that are taken from a message stand in it: the old one in backticks
/// behind the first "from", the new one in backticks behind a "to" that follows.
/// Neither is empty or holds a backtick.
pub proof fn a_type_pair_stands_in_its_message(m: Seq<char>)
    requires
        type_diff::type_pair(m) is Some,
    ensures
        ({
            let (old_ty, new_ty) = type_diff::type_pair(m)->0;
            &&& old_ty.len() > 0 && !old_ty.contains('`')
            &&& new_ty.len() > 0 && !new_ty.contains('`')
            &&& exists|i: int, j: int| #[trigger]
                text::occurs_at(m, i, "from `"@ + old_ty + "`"@) && #[trigger] text::occurs_at(
                    m,
                    j,
                    "to `"@ + new_ty + "`"@,
                ) && i + 7 + old_ty.len() <= j && forall|k: int|
                    0 <= k < i ==> !text::occurs_at(m, k, "from `"@)
        }),
{
    reveal_strlit("from `");
    reveal_strlit("to `");
    reveal_strlit("`");
    let (old_ty, new_ty) = type_diff::type_pair(m)->0;
    text::lemma_first_at(m, 0, "from `"@);
    let from = text::first_at(m, 0, "from `"@)->0;
    let old_start = from + 6;
    text::lemma_first_at(m, old_start, "`"@);
    let old_end = text::first_at(m, old_start, "`"@)->0;
    text::lemma_first_at(m, old_end + 1, "to `"@);
    let to = text::first_at(m, old_end + 1, "to `"@)->0;
    let new_start = to + 4;
    text::lemma_first_at(m, new_start, "`"@);
    let new_end = text::first_at(m, new_start, "`"@)->0;
    lemma_no_tick(m, old_start, old_end);
    lemma_no_tick(m, new_start, new_end);
    assert(m.subrange(from, from + ("from `"@ + old_ty + "`"@).len()) =~= "from `"@ + old_ty
        + "`"@) by {
        assert(m.subrange(from, from + 6) == "from `"@);
        assert(m.subrange(old_end, old_end + 1) == "`"@);
        assert(m.subrange(from, old_end + 1) =~= m.subrange(from, from + 6) + m.subrange(
            old_start,
            old_end,
        ) + m.subrange(old_end, old_end + 1));
    }
    assert(m.subrange(to, to + ("to `"@ + new_ty + "`"@).len()) =~= "to `"@ + new_ty + "`"@) by {
        assert(m.subrange(to, to + 4) == "to `"@);
        assert(m.subrange(new_end, new_end + 1) == "`"@);
        assert(m.subrange(to, new_end + 1) =~= m.subrange(to, to + 4) + m.subrange(
            new_start,
            new_end,
        ) + m.subrange(new_end, new_end + 1));
    }
    assert(text::occurs_at(m, from, "from `"@ + old_ty + "`"@));
    assert(text::occurs_at(m, to, "to `"@ + new_ty + "`"@));
}

proof fn lemma_no_tick(m: Seq<char>, from: int, to: int)
    requires
        0 <= from <= to <= m.len(),
        forall|j: int| from <= j < to ==> !text::occurs_at(m, j, "`"@),
    ensures
        !m.subrange(from, to).contains('`'),
{
    reveal_strlit("`");
    let part = m.subrange(from, to);
    if part.contains('`') {
        let k = choose|k: int| 0 <= k < part.len() && part[k] == '`';
        assert(m.subrange(from + k, from + k + 1) =~= "`"@);
        assert(text::occurs_at(m, from + k, "`"@));
    }
}

} // verus!
