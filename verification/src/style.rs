//! Text with terminal colours.
//!
//! A report is first laid out as spans of text, each with the style that it is
//! meant to have, and then written out. Whether the styles show depends on the
//! terminal that the program runs on; the spans do not.

use colored::Colorize;
use vstd::prelude::*;

use crate::text;

verus! {

/// A foreground colour.
#[derive(Debug, Clone, Copy, PartialEq, Eq, Structural)]
pub enum Color {
    Red,
    Green,
    Yellow,
    Blue,
    Magenta,
    Cyan,
}

/// How heavy the letters are.
#[derive(Debug, Clone, Copy, PartialEq, Eq, Structural)]
pub enum Weight {
    Normal,
    Bold,
    Dimmed,
}

/// How a span of text is shown.
#[derive(Debug, Clone, Copy, PartialEq, Eq, Structural)]
pub struct Style {
    pub color: Option<Color>,
    pub weight: Weight,
}

/// No colour, normal weight.
pub open spec fn plain_style() -> Style {
    Style { color: None, weight: Weight::Normal }
}

/// A piece of text with one style.
pub struct SpanView {
    pub text: Seq<char>,
    pub style: Style,
}

/// The span that shows `t` without a style.
pub open spec fn plain(t: Seq<char>) -> SpanView {
    SpanView { text: t, style: plain_style() }
}

/// The span that shows `t` in a colour.
pub open spec fn colored(t: Seq<char>, c: Color) -> SpanView {
    SpanView { text: t, style: Style { color: Some(c), weight: Weight::Normal } }
}

/// The span that shows `t` in a colour and in bold.
pub open spec fn bold_colored(t: Seq<char>, c: Color) -> SpanView {
    SpanView { text: t, style: Style { color: Some(c), weight: Weight::Bold } }
}

/// The span that shows `t` in a colour and dimmed.
pub open spec fn dimmed_colored(t: Seq<char>, c: Color) -> SpanView {
    SpanView { text: t, style: Style { color: Some(c), weight: Weight::Dimmed } }
}

/// The span that shows `t` in bold.
pub open spec fn bold(t: Seq<char>) -> SpanView {
    SpanView { text: t, style: Style { color: None, weight: Weight::Bold } }
}

/// The span that shows `t` dimmed.
pub open spec fn dimmed(t: Seq<char>) -> SpanView {
    SpanView { text: t, style: Style { color: None, weight: Weight::Dimmed } }
}

/// The name of a colour.
pub open spec fn color_name(c: Color) -> Seq<char> {
    match c {
        Color::Red => "red"@,
        Color::Green => "green"@,
        Color::Yellow => "yellow"@,
        Color::Blue => "blue"@,
        Color::Magenta => "magenta"@,
        Color::Cyan => "cyan"@,
    }
}

/// The terminal's number for a foreground colour.
pub open spec fn color_code(c: Color) -> Seq<char> {
    match c {
        Color::Red => "31"@,
        Color::Green => "32"@,
        Color::Yellow => "33"@,
        Color::Blue => "34"@,
        Color::Magenta => "35"@,
        Color::Cyan => "36"@,
    }
}

/// The sequence that switches a terminal back to plain text.
pub const RESET: &'static str = "\x1B[0m";

/// The sequence that switches a terminal to a style given by its codes.
pub open spec fn opening(codes: Seq<char>) -> Seq<char> {
    "\x1B["@ + codes + "m"@
}

/// `t` with `open` put behind every reset sequence in it.
pub open spec fn reopened(t: Seq<char>, open: Seq<char>) -> Seq<char>
    decreases t.len(),
{
    match text::first_at(t, 0, RESET@) {
        Some(i) => {
            let end = i + RESET@.len();
            if 0 < end <= t.len() {
                t.take(end) + open + reopened(t.skip(end), open)
            } else {
                t
            }
        },
        None => t,
    }
}

/// What a span of the text `t` with the style codes `codes` may be written as.
///
/// With colours off it is the text itself. With colours on it is the text
/// between the style's opening sequence and a reset, where the style is opened
/// again behind each reset inside the text. The switch is read several times
/// while a span is written; where another thread turns it in between, the
/// opening, or the openings inside, may be missing.
pub open spec fn may_show(t: Seq<char>, codes: Seq<char>, out: Seq<char>) -> bool {
    ||| out == t
    ||| out == opening(codes) + reopened(t, opening(codes)) + RESET@
    ||| out == opening(codes) + t + RESET@
    ||| out == reopened(t, opening(codes)) + RESET@
    ||| out == t + RESET@
}

/// The style codes of a style that is not plain.
pub open spec fn style_codes(s: Style) -> Seq<char> {
    match s.color {
        None => weight_code(s.weight),
        Some(c) => match s.weight {
            Weight::Normal => color_code(c),
            w => weight_code(w) + ";"@ + color_code(c),
        },
    }
}

/// The terminal's number for a weight other than the normal one.
pub open spec fn weight_code(w: Weight) -> Seq<char> {
    match w {
        Weight::Bold => "1"@,
        _ => "2"@,
    }
}

/// What a span may be written as.
pub open spec fn may_paint(span: SpanView, out: Seq<char>) -> bool {
    if span.style == plain_style() {
        out == span.text
    } else {
        may_show(span.text, style_codes(span.style), out)
    }
}

/// `Colorize::bold` on a string, written out by the `Display` of the
/// `ColoredString` that it gives: the text, or the text in bold, depending on
/// whether colours are on.
#[verifier::external_body]
fn paint_bold(t: &str) -> (r: String)
    ensures
        may_show(t@, "1"@, r@),
{
    t.bold().to_string()
}

/// `Colorize::dimmed` on a string, written out by the `Display` of the
/// `ColoredString` that it gives: the text, or the text dimmed, depending on
/// whether colours are on.
#[verifier::external_body]
fn paint_dimmed(t: &str) -> (r: String)
    ensures
        may_show(t@, "2"@, r@),
{
    t.dimmed().to_string()
}

/// `Colorize::color` on a string with one of six colour names, written out by
/// the `Display` of the `ColoredString` that it gives: the text, or the text in
/// that colour, depending on whether colours are on.
#[verifier::external_body]
fn paint_color(t: &str, name: &str) -> (r: String)
    requires
        exists|c: Color| name@ == color_name(c),
    ensures
        forall|c: Color| name@ == #[trigger] color_name(c) ==> may_show(t@, color_code(c), r@),
{
    t.color(name).to_string()
}

/// `Colorize::color` and then `Colorize::bold`, written out by the `Display` of
/// the `ColoredString` that they give: the text, or the text in that colour and
/// in bold, depending on whether colours are on.
#[verifier::external_body]
fn paint_color_bold(t: &str, name: &str) -> (r: String)
    requires
        exists|c: Color| name@ == color_name(c),
    ensures
        forall|c: Color|
            name@ == #[trigger] color_name(c) ==> may_show(
                t@,
                "1"@ + ";"@ + color_code(c),
                r@,
            ),
{
    t.color(name).bold().to_string()
}

/// `Colorize::color` and then `Colorize::dimmed`, written out by the `Display`
/// of the `ColoredString` that they give: the text, or the text in that colour
/// and dimmed, depending on whether colours are on.
#[verifier::external_body]
fn paint_color_dimmed(t: &str, name: &str) -> (r: String)
    requires
        exists|c: Color| name@ == color_name(c),
    ensures
        forall|c: Color|
            name@ == #[trigger] color_name(c) ==> may_show(
                t@,
                "2"@ + ";"@ + color_code(c),
                r@,
            ),
{
    t.color(name).dimmed().to_string()
}

fn name_of(c: Color) -> (r: &'static str)
    ensures
        r@ == color_name(c),
{
    match c {
        Color::Red => "red",
        Color::Green => "green",
        Color::Yellow => "yellow",
        Color::Blue => "blue",
        Color::Magenta => "magenta",
        Color::Cyan => "cyan",
    }
}

/// Writes a text in a style, as far as the terminal shows styles.
pub fn paint(t: &str, style: Style) -> (r: String)
    ensures
        may_paint((SpanView { text: t@, style }), r@),
{
    match style.color {
        None => match style.weight {
            Weight::Normal => t.to_string(),
            Weight::Bold => paint_bold(t),
            Weight::Dimmed => paint_dimmed(t),
        },
        Some(c) => {
            let name = name_of(c);
            match style.weight {
                Weight::Normal => paint_color(t, name),
                Weight::Bold => paint_color_bold(t, name),
                Weight::Dimmed => paint_color_dimmed(t, name),
            }
        },
    }
}

struct Span {
    text: String,
    style: Style,
}

/// A text laid out as spans.
pub struct StyledText {
    spans: Vec<Span>,
}

impl View for StyledText {
    type V = Seq<SpanView>;

    closed spec fn view(&self) -> Seq<SpanView> {
        self.spans@.map_values(|s: Span| SpanView { text: s.text@, style: s.style })
    }
}

/// The strings of `pieces`, one behind the other.
pub open spec fn run_together(pieces: Seq<Seq<char>>) -> Seq<char>
    decreases pieces.len(),
{
    if pieces.len() == 0 {
        Seq::empty()
    } else {
        run_together(pieces.drop_last()) + pieces.last()
    }
}

/// Whether `pieces` are spans written out, one piece for each.
pub open spec fn pieces_of(spans: Seq<SpanView>, pieces: Seq<Seq<char>>) -> bool {
    &&& pieces.len() == spans.len()
    &&& forall|i: int| 0 <= i < spans.len() ==> may_paint(spans[i], #[trigger] pieces[i])
}

/// Whether `out` is what the spans may be written as, one behind the other.
pub open spec fn may_render(spans: Seq<SpanView>, out: Seq<char>) -> bool {
    exists|pieces: Seq<Seq<char>>| #[trigger] pieces_of(spans, pieces) && out == run_together(pieces)
}

/// The text of the spans without their styles.
pub open spec fn unstyled(spans: Seq<SpanView>) -> Seq<char> {
    run_together(spans.map_values(|s: SpanView| s.text))
}

impl StyledText {
    /// A text without spans.
    pub fn new() -> (r: Self)
        ensures
            r@ == Seq::<SpanView>::empty(),
    {
        let r = StyledText { spans: Vec::new() };
        assert(r@ =~= Seq::<SpanView>::empty());
        r
    }

    /// Adds a span.
    pub fn put(&mut self, t: &str, style: Style)
        ensures
            final(self)@ == old(self)@.push(SpanView { text: t@, style }),
    {
        self.spans.push(Span { text: t.to_string(), style });
        assert(self@ =~= old(self)@.push(SpanView { text: t@, style }));
    }

    /// Adds a span without a style.
    pub fn plain(&mut self, t: &str)
        ensures
            final(self)@ == old(self)@.push(plain(t@)),
    {
        self.put(t, Style { color: None, weight: Weight::Normal });
    }

    /// Adds a span in a colour.
    pub fn color(&mut self, t: &str, c: Color)
        ensures
            final(self)@ == old(self)@.push(colored(t@, c)),
    {
        self.put(t, Style { color: Some(c), weight: Weight::Normal });
    }

    /// Adds a span in a colour and in bold.
    pub fn bold_color(&mut self, t: &str, c: Color)
        ensures
            final(self)@ == old(self)@.push(bold_colored(t@, c)),
    {
        self.put(t, Style { color: Some(c), weight: Weight::Bold });
    }

    /// Adds a span in a colour and dimmed.
    pub fn dimmed_color(&mut self, t: &str, c: Color)
        ensures
            final(self)@ == old(self)@.push(dimmed_colored(t@, c)),
    {
        self.put(t, Style { color: Some(c), weight: Weight::Dimmed });
    }

    /// Adds a span in bold.
    pub fn bold(&mut self, t: &str)
        ensures
            final(self)@ == old(self)@.push(bold(t@)),
    {
        self.put(t, Style { color: None, weight: Weight::Bold });
    }

    /// Adds a dimmed span.
    pub fn dimmed(&mut self, t: &str)
        ensures
            final(self)@ == old(self)@.push(dimmed(t@)),
    {
        self.put(t, Style { color: None, weight: Weight::Dimmed });
    }

    /// Adds the spans of another text.
    pub fn extend(&mut self, more: StyledText)
        ensures
            final(self)@ == old(self)@ + more@,
    {
        let mut more = more;
        let ghost added = more@;
        self.spans.append(&mut more.spans);
        assert(self@ =~= old(self)@ + added);
    }

    /// The number of spans.
    pub fn len(&self) -> (n: usize)
        ensures
            n == self@.len(),
    {
        self.spans.len()
    }

    /// The text and the style of one span.
    pub fn span(&self, i: usize) -> (r: (&str, Style))
        requires
            i < self@.len(),
        ensures
            r.0@ == self@[i as int].text,
            r.1 == self@[i as int].style,
    {
        (self.spans[i].text.as_str(), self.spans[i].style)
    }

    /// The text of the spans without their styles.
    pub fn to_plain(&self) -> (r: String)
        ensures
            r@ == unstyled(self@),
    {
        let mut out = String::new();
        let ghost texts = self@.map_values(|s: SpanView| s.text);
        let mut i: usize = 0;
        while i < self.spans.len()
            invariant
                i <= self.spans@.len(),
                self@.len() == self.spans@.len(),
                texts == self@.map_values(|s: SpanView| s.text),
                out@ == run_together(texts.take(i as int)),
            decreases self.spans@.len() - i,
        {
            out.append(self.spans[i].text.as_str());
            assert(texts.take(i + 1).drop_last() =~= texts.take(i as int));
            i = i + 1;
        }
        assert(texts.take(i as int) =~= texts);
        out
    }

    /// Writes the spans out, in their styles as far as the terminal shows them.
    pub fn render(&self) -> (r: String)
        ensures
            may_render(self@, r@),
    {
        let mut out = String::new();
        let ghost mut pieces: Seq<Seq<char>> = Seq::empty();
        let mut i: usize = 0;
        while i < self.spans.len()
            invariant
                i <= self.spans@.len(),
                self@.len() == self.spans@.len(),
                pieces_of(self@.take(i as int), pieces),
                out@ == run_together(pieces),
            decreases self.spans@.len() - i,
        {
            let piece = paint(self.spans[i].text.as_str(), self.spans[i].style);
            out.append(piece.as_str());
            proof {
                let before = pieces;
                pieces = pieces.push(piece@);
                assert(pieces.drop_last() =~= before);
                assert forall|k: int| 0 <= k < i + 1 implies may_paint(
                    self@.take(i + 1)[k],
                    #[trigger] pieces[k],
                ) by {
                    if k < i {
                        assert(before[k] == pieces[k]);
                        assert(may_paint(self@.take(i as int)[k], before[k]));
                    }
                }
            }
            i = i + 1;
        }
        assert(self@.take(i as int) =~= self@);
        out
    }
}

proof fn lemma_show_keeps_text(t: Seq<char>, codes: Seq<char>, out: Seq<char>)
    requires
        may_show(t, codes, out),
        !text::has_sub(t, RESET@),
    ensures
        exists|k: int| text::occurs_at(out, k, t),
{
    let open = opening(codes);
    assert(reopened(t, open) == t);
    if out == t {
        assert(out.subrange(0, t.len() as int) =~= t);
        assert(text::occurs_at(out, 0, t));
    } else if out == open + t + RESET@ {
        assert(out.subrange(open.len() as int, (open.len() + t.len()) as int) =~= t);
        assert(text::occurs_at(out, open.len() as int, t));
    } else {
        assert(out.subrange(0, t.len() as int) =~= t);
        assert(text::occurs_at(out, 0, t));
    }
}

proof fn lemma_piece_stands_in_run(pieces: Seq<Seq<char>>, i: int, t: Seq<char>, k: int)
    requires
        0 <= i < pieces.len(),
        text::occurs_at(pieces[i], k, t),
    ensures
        exists|p: int| text::occurs_at(run_together(pieces), p, t),
    decreases pieces.len(),
{
    let rest = run_together(pieces.drop_last());
    let out = run_together(pieces);
    if i == pieces.len() - 1 {
        let p = rest.len() + k;
        assert(out.subrange(p, p + t.len()) =~= pieces[i].subrange(k, k + t.len()));
        assert(text::occurs_at(out, p, t));
    } else {
        lemma_piece_stands_in_run(pieces.drop_last(), i, t, k);
        let p = choose|p: int| text::occurs_at(rest, p, t);
        assert(out.subrange(p, p + t.len()) =~= rest.subrange(p, p + t.len()));
        assert(text::occurs_at(out, p, t));
    }
}

/// Whether styles show or not, the text of every span that holds no reset
/// sequence stands in the output, unbroken.
pub proof fn rendering_keeps_every_text(spans: Seq<SpanView>, out: Seq<char>, i: int)
    requires
        may_render(spans, out),
        0 <= i < spans.len(),
        !text::has_sub(spans[i].text, RESET@),
    ensures
        text::has_sub(out, spans[i].text),
{
    let pieces = choose|pieces: Seq<Seq<char>>| #[trigger]
        pieces_of(spans, pieces) && out == run_together(pieces);
    let t = spans[i].text;
    assert(may_paint(spans[i], pieces[i]));
    if spans[i].style == plain_style() {
        assert(pieces[i].subrange(0, t.len() as int) =~= t);
        assert(text::occurs_at(pieces[i], 0, t));
    } else {
        lemma_show_keeps_text(t, style_codes(spans[i].style), pieces[i]);
    }
    let k = choose|k: int| text::occurs_at(pieces[i], k, t);
    lemma_piece_stands_in_run(pieces, i, t, k);
    text::lemma_first_at(out, 0, t);
}

/// Spans without a style are written as their text, whatever the terminal.
pub proof fn plain_text_is_the_output(spans: Seq<SpanView>, out: Seq<char>)
    requires
        may_render(spans, out),
        forall|i: int| 0 <= i < spans.len() ==> (#[trigger] spans[i]).style == plain_style(),
    ensures
        out == unstyled(spans),
{
    let pieces = choose|pieces: Seq<Seq<char>>| #[trigger]
        pieces_of(spans, pieces) && out == run_together(pieces);
    assert(pieces =~= spans.map_values(|s: SpanView| s.text)) by {
        assert forall|i: int| 0 <= i < spans.len() implies pieces[i] == spans[i].text by {
            assert(may_paint(spans[i], pieces[i]));
        }
    }
}

/// With colours off, the output is the text of the spans.
pub proof fn unstyled_text_is_an_output(spans: Seq<SpanView>)
    ensures
        may_render(spans, unstyled(spans)),
{
    let texts = spans.map_values(|s: SpanView| s.text);
    assert(pieces_of(spans, texts));
}

} // verus!
