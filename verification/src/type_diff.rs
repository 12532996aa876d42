//! Showing what changed between two type signatures.
//!
//! The signatures are compared word by word: a word is a run of letters, digits
//! and underscores, and every other character stands for itself. What both begin
//! with and what both end with is kept as it is; the rest is marked.

use vstd::prelude::*;
use vstd::utf8;

use crate::style;
use crate::style::Color;
use crate::style::SpanView;
use crate::style::StyledText;
use crate::text;

verus! {

/// Whether a character is part of a word.
pub open spec fn is_word_char(c: char) -> bool {
    ||| 'a' <= c && c <= 'z'
    ||| 'A' <= c && c <= 'Z'
    ||| '0' <= c && c <= '9'
    ||| c == '_'
    ||| c as u32 >= 0x80
}

/// Whether no word of `s` goes across position `i`.
pub open spec fn is_word_end(s: Seq<char>, i: int) -> bool {
    0 < i < s.len() ==> !(is_word_char(s[i - 1]) && is_word_char(s[i]))
}

/// Whether the first `n` characters of two texts are the same whole words.
pub open spec fn share_start(a: Seq<char>, b: Seq<char>, n: int) -> bool {
    &&& 0 <= n <= a.len()
    &&& n <= b.len()
    &&& a.take(n) == b.take(n)
    &&& is_word_end(a, n)
    &&& is_word_end(b, n)
}

/// Whether the last `n` characters of two texts are the same whole words.
pub open spec fn share_end(a: Seq<char>, b: Seq<char>, n: int) -> bool {
    &&& 0 <= n <= a.len()
    &&& n <= b.len()
    &&& a.skip(a.len() - n) == b.skip(b.len() - n)
    &&& is_word_end(a, a.len() - n)
    &&& is_word_end(b, b.len() - n)
}

/// The largest length up to `n` of a shared start.
pub open spec fn start_within(a: Seq<char>, b: Seq<char>, n: int) -> int
    decreases n,
{
    if n <= 0 {
        0
    } else if share_start(a, b, n) {
        n
    } else {
        start_within(a, b, n - 1)
    }
}

/// The largest length up to `n` of a shared end.
pub open spec fn end_within(a: Seq<char>, b: Seq<char>, n: int) -> int
    decreases n,
{
    if n <= 0 {
        0
    } else if share_end(a, b, n) {
        n
    } else {
        end_within(a, b, n - 1)
    }
}

/// The length of the shorter of two texts.
pub open spec fn shorter(a: Seq<char>, b: Seq<char>) -> int {
    if a.len() <= b.len() {
        a.len() as int
    } else {
        b.len() as int
    }
}

/// The length of the longest shared start.
pub open spec fn shared_start(a: Seq<char>, b: Seq<char>) -> int {
    start_within(a, b, shorter(a, b))
}

/// The length of the longest shared end behind the shared start.
pub open spec fn shared_end(a: Seq<char>, b: Seq<char>) -> int {
    end_within(a, b, shorter(a, b) - shared_start(a, b))
}

/// The length of the end that counts as a part of the span of two texts: the
/// shared end of texts of one length, and nothing of others.
pub open spec fn span_end(a: Seq<char>, b: Seq<char>) -> int {
    if a.len() == b.len() {
        shared_end(a, b)
    } else {
        0
    }
}

/// What is between the shared start and the shared end.
pub open spec fn middle(s: Seq<char>, start: int, end: int) -> Seq<char> {
    s.subrange(start, s.len() - end)
}

/// The longest shared start and end are shared, do not overlap, and are the
/// longest of their kind.
pub proof fn the_span_is_the_longest(a: Seq<char>, b: Seq<char>)
    ensures
        share_start(a, b, shared_start(a, b)),
        share_end(a, b, shared_end(a, b)),
        shared_start(a, b) + shared_end(a, b) <= a.len(),
        shared_start(a, b) + shared_end(a, b) <= b.len(),
        forall|n: int| #[trigger] share_start(a, b, n) ==> n <= shared_start(a, b),
        forall|n: int| #[trigger]
            share_end(a, b, n) && n <= a.len() - shared_start(a, b) && n <= b.len() - shared_start(
                a,
                b,
            ) ==> n <= shared_end(a, b),
{
    lemma_start_within(a, b, shorter(a, b));
    lemma_end_within(a, b, shorter(a, b) - shared_start(a, b));
}

proof fn lemma_start_within(a: Seq<char>, b: Seq<char>, n: int)
    requires
        0 <= n,
    ensures
        share_start(a, b, start_within(a, b, n)),
        start_within(a, b, n) <= n,
        forall|k: int| #[trigger] share_start(a, b, k) && k <= n ==> k <= start_within(a, b, n),
    decreases n,
{
    if n == 0 {
        assert(a.take(0) =~= b.take(0));
    } else if !share_start(a, b, n) {
        lemma_start_within(a, b, n - 1);
    }
}

proof fn lemma_end_within(a: Seq<char>, b: Seq<char>, n: int)
    requires
        0 <= n,
    ensures
        share_end(a, b, end_within(a, b, n)),
        end_within(a, b, n) <= n,
        forall|k: int| #[trigger] share_end(a, b, k) && k <= n ==> k <= end_within(a, b, n),
    decreases n,
{
    if n == 0 {
        assert(a.skip(a.len() as int) =~= b.skip(b.len() as int));
    } else if !share_end(a, b, n) {
        lemma_end_within(a, b, n - 1);
    }
}

proof fn lemma_parts(a: Seq<char>, b: Seq<char>, start: int, end: int)
    requires
        share_start(a, b, start),
        share_end(a, b, end),
        start + end <= a.len(),
        start + end <= b.len(),
    ensures
        a == a.take(start) + middle(a, start, end) + a.skip(a.len() - end),
        b == a.take(start) + middle(b, start, end) + a.skip(a.len() - end),
{
    assert(a =~= a.take(start) + middle(a, start, end) + a.skip(a.len() - end));
    assert(b =~= b.take(start) + middle(b, start, end) + b.skip(b.len() - end));
}

/// Both signatures are made of the shared start, their own middle and the shared
/// end: nothing is lost by marking the middle.
pub proof fn the_span_keeps_the_texts(a: Seq<char>, b: Seq<char>)
    ensures
        ({
            let start = shared_start(a, b);
            let end = shared_end(a, b);
            &&& a == a.take(start) + middle(a, start, end) + a.skip(a.len() - end)
            &&& b == a.take(start) + middle(b, start, end) + a.skip(a.len() - end)
        }),
{
    the_span_is_the_longest(a, b);
    lemma_parts(a, b, shared_start(a, b), shared_end(a, b));
}

/// Equal signatures are shared as a whole.
pub proof fn equal_texts_have_no_middle(a: Seq<char>)
    ensures
        shared_start(a, a) == a.len(),
        shared_end(a, a) == 0,
{
    the_span_is_the_longest(a, a);
    assert(share_start(a, a, a.len() as int));
}

fn word_char(c: char) -> (r: bool)
    ensures
        r == is_word_char(c),
{
    ('a' <= c && c <= 'z') || ('A' <= c && c <= 'Z') || ('0' <= c && c <= '9') || c == '_'
        || c as u32 >= 0x80
}

fn word_end(s: &Vec<char>, i: usize) -> (r: bool)
    requires
        i <= s@.len(),
    ensures
        r == is_word_end(s@, i as int),
{
    if 0 < i && i < s.len() {
        !(word_char(s[i - 1]) && word_char(s[i]))
    } else {
        true
    }
}

/// Whether `n` characters of two texts are the same, from given positions on.
fn same_run(a: &Vec<char>, i: usize, b: &Vec<char>, j: usize, n: usize) -> (r: bool)
    requires
        i + n <= a@.len(),
        j + n <= b@.len(),
    ensures
        r == (a@.subrange(i as int, i + n) == b@.subrange(j as int, j + n)),
{
    let total_a = a.len();
    let total_b = b.len();
    let mut k: usize = 0;
    while k < n
        invariant
            k <= n,
            total_a == a@.len(),
            total_b == b@.len(),
            i + n <= a@.len(),
            j + n <= b@.len(),
            a@.subrange(i as int, i + k) == b@.subrange(j as int, j + k),
        decreases n - k,
    {
        if a[i + k] != b[j + k] {
            assert(a@.subrange(i as int, i + n)[k as int] != b@.subrange(
                j as int,
                j + n,
            )[k as int]);
            return false;
        }
        assert(a@.subrange(i as int, i + k + 1) =~= a@.subrange(i as int, i + k).push(
            a@[i + k],
        ));
        assert(b@.subrange(j as int, j + k + 1) =~= b@.subrange(j as int, j + k).push(
            b@[j + k],
        ));
        k = k + 1;
    }
    true
}

/// The lengths of the shared start and end, in characters.
fn char_span(a: &Vec<char>, b: &Vec<char>) -> (r: (usize, usize))
    ensures
        r.0 == shared_start(a@, b@),
        r.1 == shared_end(a@, b@),
        r.0 + r.1 <= a@.len(),
        r.0 + r.1 <= b@.len(),
{
    let least: usize = if a.len() <= b.len() {
        a.len()
    } else {
        b.len()
    };
    let mut start: usize = least;
    while start > 0 && !(same_run(a, 0, b, 0, start) && word_end(a, start) && word_end(b, start))
        invariant
            start <= a@.len(),
            start <= b@.len(),
            shared_start(a@, b@) == start_within(a@, b@, start as int),
        decreases start,
    {
        assert(a@.take(start as int) =~= a@.subrange(0, start as int));
        assert(b@.take(start as int) =~= b@.subrange(0, start as int));
        start = start - 1;
    }
    assert(a@.take(start as int) =~= a@.subrange(0, start as int));
    assert(b@.take(start as int) =~= b@.subrange(0, start as int));
    let n = a.len();
    let m = b.len();
    let mut end: usize = least - start;
    while end > 0 && !(same_run(a, n - end, b, m - end, end) && word_end(a, n - end) && word_end(
        b,
        m - end,
    ))
        invariant
            n == a@.len(),
            m == b@.len(),
            least == shorter(a@, b@),
            start == shared_start(a@, b@),
            end <= least - start,
            shared_end(a@, b@) == end_within(a@, b@, end as int),
        decreases end,
    {
        assert(a@.skip(n - end) =~= a@.subrange(n - end, n as int));
        assert(b@.skip(m - end) =~= b@.subrange(m - end, m as int));
        end = end - 1;
    }
    assert(a@.skip(n - end) =~= a@.subrange(n - end, n as int));
    assert(b@.skip(m - end) =~= b@.subrange(m - end, m as int));
    (start, end)
}

proof fn lemma_encoding_of_two(x: Seq<char>, y: Seq<char>)
    ensures
        utf8::encode_utf8(x + y) == utf8::encode_utf8(x) + utf8::encode_utf8(y),
    decreases x.len(),
{
    if x.len() == 0 {
        assert(x + y =~= y);
        assert(utf8::encode_utf8(x) + utf8::encode_utf8(y) =~= utf8::encode_utf8(y));
    } else {
        lemma_encoding_of_two(x.drop_first(), y);
        assert((x + y).drop_first() =~= x.drop_first() + y);
        assert(utf8::encode_utf8(x + y) =~= utf8::encode_utf8(x) + utf8::encode_utf8(y));
    }
}

/// The bytes of the span's start and end begin and end the bytes of both
/// signatures, without overlapping.
pub proof fn the_span_counts_bytes(a: Seq<char>, b: Seq<char>)
    ensures
        ({
            let start = utf8::encode_utf8(a.take(shared_start(a, b)));
            let end = utf8::encode_utf8(a.skip(a.len() - span_end(a, b)));
            let x = utf8::encode_utf8(a);
            let y = utf8::encode_utf8(b);
            &&& start.len() + end.len() <= x.len()
            &&& start.len() + end.len() <= y.len()
            &&& x.take(start.len() as int) == start
            &&& y.take(start.len() as int) == start
            &&& x.skip(x.len() - end.len()) == end
            &&& y.skip(y.len() - end.len()) == end
        }),
{
    the_span_is_the_longest(a, b);
    assert(a.skip(a.len() as int) =~= b.skip(b.len() as int));
    lemma_parts(a, b, shared_start(a, b), span_end(a, b));
    let start = a.take(shared_start(a, b));
    let end = a.skip(a.len() - span_end(a, b));
    let mid_a = middle(a, shared_start(a, b), span_end(a, b));
    let mid_b = middle(b, shared_start(a, b), span_end(a, b));
    lemma_encoding_of_two(start, mid_a);
    lemma_encoding_of_two(start + mid_a, end);
    lemma_encoding_of_two(start, mid_b);
    lemma_encoding_of_two(start + mid_b, end);
    let x = utf8::encode_utf8(a);
    let y = utf8::encode_utf8(b);
    let s = utf8::encode_utf8(start);
    let e = utf8::encode_utf8(end);
    assert(x.take(s.len() as int) =~= s);
    assert(y.take(s.len() as int) =~= s);
    assert(x.skip(x.len() - e.len()) =~= e);
    assert(y.skip(y.len() - e.len()) =~= e);
}

/// The lengths of what two signatures begin with and end with alike, in bytes.
/// The end counts only where the signatures are of one length.
pub fn common_span(a: &str, b: &str) -> (r: (usize, usize))
    ensures
        r.0 == utf8::encode_utf8(a@.take(shared_start(a@, b@))).len(),
        r.1 == utf8::encode_utf8(a@.skip(a@.len() - span_end(a@, b@))).len(),
        r.0 + r.1 <= utf8::encode_utf8(a@).len(),
        r.0 + r.1 <= utf8::encode_utf8(b@).len(),
{
    proof {
        the_span_counts_bytes(a@, b@);
    }
    let x = text::to_chars(a);
    let y = text::to_chars(b);
    let (start, shared) = char_span(&x, &y);
    let end: usize = if x.len() == y.len() {
        shared
    } else {
        0
    };
    let prefix = text::text_of(&x, 0, start);
    let suffix = text::text_of(&x, x.len() - end, x.len());
    assert(prefix@ =~= a@.take(start as int));
    assert(suffix@ =~= a@.skip(a@.len() - end));
    (prefix.as_str().as_bytes().len(), suffix.as_str().as_bytes().len())
}

/// The two lines of a difference without colours.
pub open spec fn plain_diff(a: Seq<char>, b: Seq<char>) -> Seq<char> {
    let start = shared_start(a, b);
    let end = shared_end(a, b);
    "    - "@ + a.take(start) + "["@ + middle(a, start, end) + "]"@ + a.skip(a.len() - end)
        + "\n    + "@ + a.take(start) + "["@ + middle(b, start, end) + "]"@ + a.skip(a.len() - end)
        + "\n"@
}

/// The two lines of a difference, with colours or without.
pub open spec fn diff_spans(a: Seq<char>, b: Seq<char>, use_color: bool) -> Seq<SpanView> {
    let start = shared_start(a, b);
    let end = shared_end(a, b);
    if use_color {
        Seq::<SpanView>::empty().push(style::plain("    "@)).push(
            style::bold_colored("-"@, Color::Red),
        ).push(style::plain(" "@)).push(style::plain(a.take(start))).push(
            style::bold_colored(middle(a, start, end), Color::Red),
        ).push(style::plain(a.skip(a.len() - end))).push(style::plain("\n    "@)).push(
            style::bold_colored("+"@, Color::Green),
        ).push(style::plain(" "@)).push(style::plain(a.take(start))).push(
            style::bold_colored(middle(b, start, end), Color::Green),
        ).push(style::plain(a.skip(a.len() - end))).push(style::plain("\n"@))
    } else {
        Seq::<SpanView>::empty().push(style::plain(plain_diff(a, b)))
    }
}

fn plain_lines(prefix: &str, old_mid: &str, new_mid: &str, suffix: &str) -> (r: String)
    ensures
        r@ == "    - "@ + prefix@ + "["@ + old_mid@ + "]"@ + suffix@ + "\n    + "@ + prefix@ + "["@
            + new_mid@ + "]"@ + suffix@ + "\n"@,
{
    let mut out = "    - ".to_string();
    out.append(prefix);
    out.append("[");
    out.append(old_mid);
    out.append("]");
    out.append(suffix);
    out.append("\n    + ");
    out.append(prefix);
    out.append("[");
    out.append(new_mid);
    out.append("]");
    out.append(suffix);
    out.append("\n");
    out
}

/// The two lines of a difference, laid out.
pub fn type_diff_text(old_ty: &str, new_ty: &str, use_color: bool) -> (r: StyledText)
    ensures
        r@ == diff_spans(old_ty@, new_ty@, use_color),
{
    let a = text::to_chars(old_ty);
    let b = text::to_chars(new_ty);
    let (start, end) = char_span(&a, &b);
    let prefix = text::text_of(&a, 0, start);
    let old_mid = text::text_of(&a, start, a.len() - end);
    let new_mid = text::text_of(&b, start, b.len() - end);
    let suffix = text::text_of(&a, a.len() - end, a.len());
    assert(prefix@ =~= a@.take(start as int));
    assert(suffix@ =~= a@.skip(a@.len() - end));
    let mut out = StyledText::new();
    if use_color {
        out.plain("    ");
        out.bold_color("-", Color::Red);
        out.plain(" ");
        out.plain(prefix.as_str());
        out.bold_color(old_mid.as_str(), Color::Red);
        out.plain(suffix.as_str());
        out.plain("\n    ");
        out.bold_color("+", Color::Green);
        out.plain(" ");
        out.plain(prefix.as_str());
        out.bold_color(new_mid.as_str(), Color::Green);
        out.plain(suffix.as_str());
        out.plain("\n");
    } else {
        let lines = plain_lines(
            prefix.as_str(),
            old_mid.as_str(),
            new_mid.as_str(),
            suffix.as_str(),
        );
        out.plain(lines.as_str());
    }
    out
}

/// Writes the two lines of a difference. With `use_color` the part that changed
/// is red and green; without, it stands in square brackets.
pub fn render_type_diff(old_ty: &str, new_ty: &str, use_color: bool) -> (r: String)
    ensures
        style::may_render(diff_spans(old_ty@, new_ty@, use_color), r@),
        !use_color ==> r@ == plain_diff(old_ty@, new_ty@),
{
    let laid_out = type_diff_text(old_ty, new_ty, use_color);
    let r = laid_out.render();
    proof {
        if !use_color {
            style::plain_text_is_the_output(laid_out@, r@);
            assert(laid_out@.map_values(|s: SpanView| s.text) =~= seq![
                plain_diff(old_ty@, new_ty@),
            ]);
            reveal_with_fuel(style::run_together, 2);
            assert(r@ =~= plain_diff(old_ty@, new_ty@));
        }
    }
    r
}

/// The two types that a message names in the form "from `old` to `new`".
pub open spec fn type_pair(m: Seq<char>) -> Option<(Seq<char>, Seq<char>)> {
    match text::first_at(m, 0, "from `"@) {
        None => None,
        Some(from) => {
            let old_start = from + "from `"@.len();
            match text::first_at(m, old_start, "`"@) {
                None => None,
                Some(old_end) => match text::first_at(m, old_end + "`"@.len(), "to `"@) {
                    None => None,
                    Some(to) => {
                        let new_start = to + "to `"@.len();
                        match text::first_at(m, new_start, "`"@) {
                            None => None,
                            Some(new_end) => if old_start == old_end || new_start == new_end {
                                None
                            } else {
                                Some(
                                    (
                                        m.subrange(old_start, old_end),
                                        m.subrange(new_start, new_end),
                                    ),
                                )
                            },
                        }
                    },
                },
            }
        },
    }
}

/// The two types that a message names in the form "from `old` to `new`".
pub fn extract_type_pair(message: &str) -> (r: Option<(String, String)>)
    ensures
        match r {
            Some((old_ty, new_ty)) => type_pair(message@) == Some((old_ty@, new_ty@)),
            None => type_pair(message@) is None,
        },
{
    let m = text::to_chars(message);
    proof {
        reveal_strlit("from `");
        reveal_strlit("to `");
        reveal_strlit("`");
    }
    assert(m.len() == m@.len());
    let from = match text::find_from(&m, 0, "from `") {
        Some(i) => i,
        None => {
            return None;
        },
    };
    let old_start = from + 6;
    let old_end = match text::find_from(&m, old_start, "`") {
        Some(i) => i,
        None => {
            return None;
        },
    };
    let to = match text::find_from(&m, old_end + 1, "to `") {
        Some(i) => i,
        None => {
            return None;
        },
    };
    let new_start = to + 4;
    let new_end = match text::find_from(&m, new_start, "`") {
        Some(i) => i,
        None => {
            return None;
        },
    };
    proof {
        text::lemma_first_at(m@, old_start as int, "`"@);
        text::lemma_first_at(m@, new_start as int, "`"@);
    }
    if old_start == old_end || new_start == new_end {
        return None;
    }
    Some((text::text_of(&m, old_start, old_end), text::text_of(&m, new_start, new_end)))
}

/// The number of categories of type changes.
pub const TYPE_CHANGE_COUNT: usize = 16;

/// The categories whose messages name an old and a new type.
pub const TYPE_CHANGE_CATEGORIES: [&'static str; 16] = [
    "Parameter Type Changed",
    "Parameter Type Widened",
    "Parameter Type Narrowed",
    "Parameter Type Signedness Changed",
    "Return Type Changed",
    "Return Type Widened",
    "Return Type Narrowed",
    "Return Type Signedness Changed",
    "Struct Field Type Changed",
    "Struct Field Type Widened",
    "Struct Field Type Narrowed",
    "Struct Field Type Signedness Changed",
    "Union Case Type Changed",
    "Union Case Type Widened",
    "Union Case Type Narrowed",
    "Union Case Type Signedness Changed",
];

/// Whether a category is one of type changes.
pub open spec fn is_type_change(category: Seq<char>) -> bool {
    exists|i: int|
        0 <= i < TYPE_CHANGE_COUNT && (#[trigger] TYPE_CHANGE_CATEGORIES@[i])@ == category
}

/// Whether a category is one of type changes.
pub fn is_type_change_category(category: &str) -> (r: bool)
    ensures
        r == is_type_change(category@),
{
    let mut i: usize = 0;
    while i < TYPE_CHANGE_COUNT
        invariant
            i <= TYPE_CHANGE_COUNT,
            forall|k: int| 0 <= k < i ==> (#[trigger] TYPE_CHANGE_CATEGORIES@[k])@ != category@,
        decreases TYPE_CHANGE_COUNT - i,
    {
        if text::same_text(TYPE_CHANGE_CATEGORIES[i], category) {
            return true;
        }
        i = i + 1;
    }
    false
}

/// A message in the form that type changes are reported in gives its two types
/// back: `old` and `new` hold no backtick, and "from `" stands in the message
/// for the first time where the form begins.
pub proof fn a_type_change_gives_its_types(
    before: Seq<char>,
    old_ty: Seq<char>,
    new_ty: Seq<char>,
    after: Seq<char>,
)
    requires
        old_ty.len() > 0,
        new_ty.len() > 0,
        !old_ty.contains('`'),
        !new_ty.contains('`'),
        ({
            let m = before + "from `"@ + old_ty + "` to `"@ + new_ty + "`"@ + after;
            forall|j: int| 0 <= j < before.len() ==> !text::occurs_at(m, j, "from `"@)
        }),
    ensures
        type_pair(before + "from `"@ + old_ty + "` to `"@ + new_ty + "`"@ + after) == Some(
            (old_ty, new_ty),
        ),
{
    reveal_strlit("from `");
    reveal_strlit("to `");
    reveal_strlit("` to `");
    reveal_strlit("`");
    let m = before + "from `"@ + old_ty + "` to `"@ + new_ty + "`"@ + after;
    let from = before.len() as int;
    let old_start = from + 6;
    let old_end = old_start + old_ty.len();
    let to = old_end + 2;
    let new_start = to + 4;
    let new_end = new_start + new_ty.len();
    assert(m.subrange(from, from + 6) =~= "from `"@);
    text::lemma_first_at(m, 0, "from `"@);
    assert(text::occurs_at(m, from, "from `"@));
    assert(m.subrange(old_end, old_end + 1) =~= "`"@);
    assert(text::occurs_at(m, old_end, "`"@));
    assert forall|j: int| old_start <= j < old_end implies !text::occurs_at(m, j, "`"@) by {
        assert(m[j] == old_ty[j - old_start]);
        if text::occurs_at(m, j, "`"@) {
            assert(m.subrange(j, j + 1)[0] == '`');
            assert(old_ty.contains('`'));
        }
    }
    text::lemma_first_at(m, old_start, "`"@);
    assert(m.subrange(to, to + 4) =~= "to `"@);
    assert(text::occurs_at(m, to, "to `"@));
    assert(!text::occurs_at(m, old_end + 1, "to `"@)) by {
        assert(m[old_end + 1] == ' ');
        if text::occurs_at(m, old_end + 1, "to `"@) {
            assert(m.subrange(old_end + 1, old_end + 5)[0] == 't');
        }
    }
    text::lemma_first_at(m, old_end + 1, "to `"@);
    assert(m.subrange(new_end, new_end + 1) =~= "`"@);
    assert(text::occurs_at(m, new_end, "`"@));
    assert forall|j: int| new_start <= j < new_end implies !text::occurs_at(m, j, "`"@) by {
        assert(m[j] == new_ty[j - new_start]);
        if text::occurs_at(m, j, "`"@) {
            assert(m.subrange(j, j + 1)[0] == '`');
            assert(new_ty.contains('`'));
        }
    }
    text::lemma_first_at(m, new_start, "`"@);
    assert(m.subrange(old_start, old_end) =~= old_ty);
    assert(m.subrange(new_start, new_end) =~= new_ty);
}

/// Without colours no terminal sequence comes into the output: a difference of
/// signatures that hold no escape character holds none.
pub proof fn uncoloured_differences_hold_no_escapes(a: Seq<char>, b: Seq<char>)
    requires
        !a.contains('\x1B'),
        !b.contains('\x1B'),
    ensures
        !plain_diff(a, b).contains('\x1B'),
{
    reveal_strlit("    - ");
    reveal_strlit("[");
    reveal_strlit("]");
    reveal_strlit("\n    + ");
    reveal_strlit("\n");
    the_span_is_the_longest(a, b);
    let start = shared_start(a, b);
    let end = shared_end(a, b);
    let parts: Seq<Seq<char>> = seq![
        "    - "@,
        a.take(start),
        "["@,
        middle(a, start, end),
        "]"@,
        a.skip(a.len() - end),
        "\n    + "@,
        a.take(start),
        "["@,
        middle(b, start, end),
        "]"@,
        a.skip(a.len() - end),
        "\n"@,
    ];
    reveal_with_fuel(style::run_together, 14);
    assert(style::run_together(parts) =~= plain_diff(a, b));
    assert forall|i: int| 0 <= i < parts.len() implies !(#[trigger] parts[i]).contains('\x1B') by {
        assert forall|k: int| 0 <= k < parts[i].len() implies parts[i][k] != '\x1B' by {
            if parts[i] == a.take(start) {
                assert(a[k] == parts[i][k]);
            } else if parts[i] == middle(a, start, end) {
                assert(a[start + k] == parts[i][k]);
            } else if parts[i] == middle(b, start, end) {
                assert(b[start + k] == parts[i][k]);
            } else if parts[i] == a.skip(a.len() - end) {
                assert(a[a.len() - end + k] == parts[i][k]);
            }
        }
    }
    lemma_no_char_in_run(parts, '\x1B');
}

proof fn lemma_no_char_in_run(parts: Seq<Seq<char>>, c: char)
    requires
        forall|i: int| 0 <= i < parts.len() ==> !(#[trigger] parts[i]).contains(c),
    ensures
        !style::run_together(parts).contains(c),
    decreases parts.len(),
{
    if parts.len() > 0 {
        let rest = parts.drop_last();
        assert forall|i: int| 0 <= i < rest.len() implies !(#[trigger] rest[i]).contains(c) by {
            assert(rest[i] == parts[i]);
        }
        lemma_no_char_in_run(rest, c);
        let out = style::run_together(parts);
        if out.contains(c) {
            let k = choose|k: int| 0 <= k < out.len() && out[k] == c;
            let front = style::run_together(rest);
            if k < front.len() {
                assert(front[k] == c);
            } else {
                assert(parts.last()[k - front.len()] == c);
                assert(parts[parts.len() - 1].contains(c));
            }
        }
    }
}

} // verus!
