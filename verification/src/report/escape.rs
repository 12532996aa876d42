//! Writing untrusted text into HTML and XML.

use vstd::prelude::*;

verus! {

/// What a character is written as in HTML.
pub open spec fn html_entity(c: char) -> Seq<char> {
    if c == '&' {
        "&amp;"@
    } else if c == '<' {
        "&lt;"@
    } else if c == '>' {
        "&gt;"@
    } else if c == '"' {
        "&quot;"@
    } else if c == '\'' {
        "&#39;"@
    } else {
        seq![c]
    }
}

/// Whether a character is a control character that XML has no place for.
pub open spec fn is_dropped(c: char) -> bool {
    let n = c as u32;
    n < 0x20 && c != '\t' && c != '\n' && c != '\r' || 0x7f <= n <= 0x9f
}

/// What a character is written as in XML.
pub open spec fn xml_entity(c: char) -> Seq<char> {
    if c == '&' {
        "&amp;"@
    } else if c == '<' {
        "&lt;"@
    } else if c == '>' {
        "&gt;"@
    } else if c == '"' {
        "&quot;"@
    } else if c == '\'' {
        "&apos;"@
    } else if is_dropped(c) {
        Seq::empty()
    } else {
        seq![c]
    }
}

/// A text as it is written in HTML.
pub open spec fn html_text(s: Seq<char>) -> Seq<char>
    decreases s.len(),
{
    if s.len() == 0 {
        Seq::empty()
    } else {
        html_text(s.drop_last()) + html_entity(s.last())
    }
}

/// A text as it is written in XML.
pub open spec fn xml_text(s: Seq<char>) -> Seq<char>
    decreases s.len(),
{
    if s.len() == 0 {
        Seq::empty()
    } else {
        xml_text(s.drop_last()) + xml_entity(s.last())
    }
}

fn add_html(out: &mut String, c: char)
    ensures
        final(out)@ == old(out)@ + html_entity(c),
{
    if c == '&' {
        out.append("&amp;");
    } else if c == '<' {
        out.append("&lt;");
    } else if c == '>' {
        out.append("&gt;");
    } else if c == '"' {
        out.append("&quot;");
    } else if c == '\'' {
        out.append("&#39;");
    } else {
        out.push(c);
        assert(out@ =~= old(out)@ + seq![c]);
    }
}

fn add_xml(out: &mut String, c: char)
    ensures
        final(out)@ == old(out)@ + xml_entity(c),
{
    let n = c as u32;
    if c == '&' {
        out.append("&amp;");
    } else if c == '<' {
        out.append("&lt;");
    } else if c == '>' {
        out.append("&gt;");
    } else if c == '"' {
        out.append("&quot;");
    } else if c == '\'' {
        out.append("&apos;");
    } else if (n < 0x20 && c != '\t' && c != '\n' && c != '\r') || (0x7f <= n && n <= 0x9f) {
        assert(out@ =~= old(out)@ + Seq::<char>::empty());
    } else {
        out.push(c);
        assert(out@ =~= old(out)@ + seq![c]);
    }
}

/// A text written for HTML content or a quoted HTML attribute.
pub fn escape_html(input: &str) -> (r: String)
    ensures
        r@ == html_text(input@),
{
    let mut out = String::new();
    for c in it: input.chars()
        invariant
            out@ == html_text(it.seq().take(it.index())),
            it.seq() == input@,
    {
        add_html(&mut out, c);
        assert(it.seq().take(it.index() + 1).drop_last() =~= it.seq().take(it.index()));
    }
    assert(input@.take(input@.len() as int) =~= input@);
    out
}

/// A text written for XML content or a quoted XML attribute.
pub fn escape_xml(input: &str) -> (r: String)
    ensures
        r@ == xml_text(input@),
{
    let mut out = String::new();
    for c in it: input.chars()
        invariant
            out@ == xml_text(it.seq().take(it.index())),
            it.seq() == input@,
    {
        add_xml(&mut out, c);
        assert(it.seq().take(it.index() + 1).drop_last() =~= it.seq().take(it.index()));
    }
    assert(input@.take(input@.len() as int) =~= input@);
    out
}

/// Whether a character could end the text or attribute that it stands in.
pub open spec fn is_markup(c: char) -> bool {
    c == '<' || c == '>' || c == '"' || c == '\''
}

proof fn lemma_html_entity(c: char)
    ensures
        forall|i: int| 0 <= i < html_entity(c).len() ==> !is_markup(#[trigger] html_entity(c)[i]),
        html_entity(c).len() >= 1,
        html_entity(c)[0] == '&' <==> (c == '&' || is_markup(c)),
        c != '&' && !is_markup(c) ==> html_entity(c) == seq![c],
        c == '&' ==> html_entity(c) == seq!['&', 'a', 'm', 'p', ';'],
        c == '<' ==> html_entity(c) == seq!['&', 'l', 't', ';'],
        c == '>' ==> html_entity(c) == seq!['&', 'g', 't', ';'],
        c == '"' ==> html_entity(c) == seq!['&', 'q', 'u', 'o', 't', ';'],
        c == '\'' ==> html_entity(c) == seq!['&', '#', '3', '9', ';'],
{
    reveal_strlit("&amp;");
    reveal_strlit("&lt;");
    reveal_strlit("&gt;");
    reveal_strlit("&quot;");
    reveal_strlit("&#39;");
    if c == '&' {
        assert(html_entity(c) =~= seq!['&', 'a', 'm', 'p', ';']);
    } else if c == '<' {
        assert(html_entity(c) =~= seq!['&', 'l', 't', ';']);
    } else if c == '>' {
        assert(html_entity(c) =~= seq!['&', 'g', 't', ';']);
    } else if c == '"' {
        assert(html_entity(c) =~= seq!['&', 'q', 'u', 'o', 't', ';']);
    } else if c == '\'' {
        assert(html_entity(c) =~= seq!['&', '#', '3', '9', ';']);
    }
}

proof fn lemma_xml_entity(c: char)
    ensures
        forall|i: int| 0 <= i < xml_entity(c).len() ==> !is_markup(#[trigger] xml_entity(c)[i]),
        forall|i: int| 0 <= i < xml_entity(c).len() ==> !is_dropped(#[trigger] xml_entity(c)[i]),
        !is_dropped(c) ==> xml_entity(c).len() >= 1,
        !is_dropped(c) ==> (xml_entity(c)[0] == '&' <==> (c == '&' || is_markup(c))),
        !is_dropped(c) && c != '&' && !is_markup(c) ==> xml_entity(c) == seq![c],
        c == '&' ==> xml_entity(c) == seq!['&', 'a', 'm', 'p', ';'],
        c == '<' ==> xml_entity(c) == seq!['&', 'l', 't', ';'],
        c == '>' ==> xml_entity(c) == seq!['&', 'g', 't', ';'],
        c == '"' ==> xml_entity(c) == seq!['&', 'q', 'u', 'o', 't', ';'],
        c == '\'' ==> xml_entity(c) == seq!['&', 'a', 'p', 'o', 's', ';'],
{
    reveal_strlit("&amp;");
    reveal_strlit("&lt;");
    reveal_strlit("&gt;");
    reveal_strlit("&quot;");
    reveal_strlit("&apos;");
    if c == '&' {
        assert(xml_entity(c) =~= seq!['&', 'a', 'm', 'p', ';']);
    } else if c == '<' {
        assert(xml_entity(c) =~= seq!['&', 'l', 't', ';']);
    } else if c == '>' {
        assert(xml_entity(c) =~= seq!['&', 'g', 't', ';']);
    } else if c == '"' {
        assert(xml_entity(c) =~= seq!['&', 'q', 'u', 'o', 't', ';']);
    } else if c == '\'' {
        assert(xml_entity(c) =~= seq!['&', 'a', 'p', 'o', 's', ';']);
    }
}

/// Nothing in a text can end the HTML content or attribute that it is written
/// into: no angle bracket and no quotation mark comes through.
pub proof fn html_text_holds_no_markup(s: Seq<char>)
    ensures
        forall|i: int| 0 <= i < html_text(s).len() ==> !is_markup(#[trigger] html_text(s)[i]),
    decreases s.len(),
{
    if s.len() > 0 {
        html_text_holds_no_markup(s.drop_last());
        lemma_html_entity(s.last());
        let before = html_text(s.drop_last());
        assert forall|i: int| 0 <= i < html_text(s).len() implies !is_markup(
            #[trigger] html_text(s)[i],
        ) by {
            if i < before.len() {
                assert(html_text(s)[i] == before[i]);
            } else {
                assert(html_text(s)[i] == html_entity(s.last())[i - before.len()]);
            }
        }
    }
}

/// Nothing in a text can end the XML content or attribute that it is written
/// into, and no control character that XML has no place for comes through.
pub proof fn xml_text_holds_no_markup(s: Seq<char>)
    ensures
        forall|i: int|
            0 <= i < xml_text(s).len() ==> !is_markup(#[trigger] xml_text(s)[i]) && !is_dropped(
                xml_text(s)[i],
            ),
    decreases s.len(),
{
    if s.len() > 0 {
        xml_text_holds_no_markup(s.drop_last());
        lemma_xml_entity(s.last());
        let before = xml_text(s.drop_last());
        assert forall|i: int| 0 <= i < xml_text(s).len() implies !is_markup(
            #[trigger] xml_text(s)[i],
        ) && !is_dropped(xml_text(s)[i]) by {
            if i < before.len() {
                assert(xml_text(s)[i] == before[i]);
            } else {
                assert(xml_text(s)[i] == xml_entity(s.last())[i - before.len()]);
            }
        }
    }
}

proof fn lemma_html_from_front(s: Seq<char>)
    requires
        s.len() > 0,
    ensures
        html_text(s) == html_entity(s[0]) + html_text(s.skip(1)),
    decreases s.len(),
{
    let first = html_entity(s[0]);
    if s.len() == 1 {
        assert(s.drop_last() =~= Seq::<char>::empty());
        assert(s.skip(1) =~= Seq::<char>::empty());
        assert(html_text(s) =~= first + html_text(s.skip(1)));
    } else {
        lemma_html_from_front(s.drop_last());
        assert(s.drop_last().skip(1) =~= s.skip(1).drop_last());
        let mid = html_text(s.skip(1).drop_last());
        assert(html_text(s) == (first + mid) + html_entity(s.last()));
        assert(html_text(s.skip(1)) == mid + html_entity(s.last()));
        assert((first + mid) + html_entity(s.last()) =~= first + (mid + html_entity(s.last())));
    }
}

proof fn lemma_xml_from_front(s: Seq<char>)
    requires
        s.len() > 0,
    ensures
        xml_text(s) == xml_entity(s[0]) + xml_text(s.skip(1)),
    decreases s.len(),
{
    let first = xml_entity(s[0]);
    if s.len() == 1 {
        assert(s.drop_last() =~= Seq::<char>::empty());
        assert(s.skip(1) =~= Seq::<char>::empty());
        assert(xml_text(s) =~= first + xml_text(s.skip(1)));
    } else {
        lemma_xml_from_front(s.drop_last());
        assert(s.drop_last().skip(1) =~= s.skip(1).drop_last());
        let mid = xml_text(s.skip(1).drop_last());
        assert(xml_text(s) == (first + mid) + xml_entity(s.last()));
        assert(xml_text(s.skip(1)) == mid + xml_entity(s.last()));
        assert((first + mid) + xml_entity(s.last()) =~= first + (mid + xml_entity(s.last())));
    }
}

/// A reader of the page sees the text as it was: two different texts are never
/// written the same in HTML.
pub proof fn html_text_determines_the_text(a: Seq<char>, b: Seq<char>)
    requires
        html_text(a) == html_text(b),
    ensures
        a == b,
    decreases a.len(),
{
    if a.len() == 0 || b.len() == 0 {
        if a.len() > 0 {
            lemma_html_from_front(a);
            lemma_html_entity(a[0]);
        }
        if b.len() > 0 {
            lemma_html_from_front(b);
            lemma_html_entity(b[0]);
        }
        assert(a =~= b);
    } else {
        lemma_html_from_front(a);
        lemma_html_from_front(b);
        lemma_html_entity(a[0]);
        lemma_html_entity(b[0]);
        let x = html_entity(a[0]);
        let y = html_entity(b[0]);
        let whole = html_text(a);
        assert(whole[0] == x[0] && whole[0] == y[0]);
        assert(x.len() > 1 ==> whole[1] == x[1]);
        assert(y.len() > 1 ==> whole[1] == y[1]);
        assert(a[0] == b[0]);
        assert(whole.skip(x.len() as int) =~= html_text(a.skip(1)));
        assert(whole.skip(y.len() as int) =~= html_text(b.skip(1)));
        html_text_determines_the_text(a.skip(1), b.skip(1));
        assert(a =~= seq![a[0]] + a.skip(1));
        assert(b =~= seq![b[0]] + b.skip(1));
    }
}

/// A reader of the document sees the text as it was: two different texts without
/// dropped characters are never written the same in XML.
pub proof fn xml_text_determines_the_text(a: Seq<char>, b: Seq<char>)
    requires
        xml_text(a) == xml_text(b),
        forall|i: int| 0 <= i < a.len() ==> !is_dropped(#[trigger] a[i]),
        forall|i: int| 0 <= i < b.len() ==> !is_dropped(#[trigger] b[i]),
    ensures
        a == b,
    decreases a.len(),
{
    if a.len() == 0 || b.len() == 0 {
        if a.len() > 0 {
            lemma_xml_from_front(a);
            lemma_xml_entity(a[0]);
        }
        if b.len() > 0 {
            lemma_xml_from_front(b);
            lemma_xml_entity(b[0]);
        }
        assert(a =~= b);
    } else {
        lemma_xml_from_front(a);
        lemma_xml_from_front(b);
        lemma_xml_entity(a[0]);
        lemma_xml_entity(b[0]);
        let x = xml_entity(a[0]);
        let y = xml_entity(b[0]);
        let whole = xml_text(a);
        assert(whole[0] == x[0] && whole[0] == y[0]);
        assert(x.len() > 1 ==> whole[1] == x[1]);
        assert(y.len() > 1 ==> whole[1] == y[1]);
        assert(x.len() > 2 ==> whole[2] == x[2]);
        assert(y.len() > 2 ==> whole[2] == y[2]);
        assert(a[0] == b[0]);
        assert(whole.skip(x.len() as int) =~= xml_text(a.skip(1)));
        assert(whole.skip(y.len() as int) =~= xml_text(b.skip(1)));
        assert forall|i: int| 0 <= i < a.skip(1).len() implies !is_dropped(
            #[trigger] a.skip(1)[i],
        ) by {
            assert(a.skip(1)[i] == a[i + 1]);
        }
        assert forall|i: int| 0 <= i < b.skip(1).len() implies !is_dropped(
            #[trigger] b.skip(1)[i],
        ) by {
            assert(b.skip(1)[i] == b[i + 1]);
        }
        xml_text_determines_the_text(a.skip(1), b.skip(1));
        assert(a =~= seq![a[0]] + a.skip(1));
        assert(b =~= seq![b[0]] + b.skip(1));
    }
}

/// A text is escaped part by part: what is escaped of two texts in a row is what
/// is escaped of each.
pub proof fn escaping_goes_part_by_part(a: Seq<char>, b: Seq<char>)
    ensures
        html_text(a + b) == html_text(a) + html_text(b),
        xml_text(a + b) == xml_text(a) + xml_text(b),
    decreases b.len(),
{
    if b.len() == 0 {
        assert(a + b =~= a);
        assert(html_text(a) + html_text(b) =~= html_text(a));
        assert(xml_text(a) + xml_text(b) =~= xml_text(a));
    } else {
        escaping_goes_part_by_part(a, b.drop_last());
        assert((a + b).drop_last() =~= a + b.drop_last());
        assert(html_text(a + b) =~= html_text(a) + html_text(b));
        assert(xml_text(a + b) =~= xml_text(a) + xml_text(b));
    }
}

/// The five characters that mean something to a browser or a parser are written
/// as the entities that stand for them; a control character that XML has no place
/// for is not written; every other character is written as it is.
pub proof fn characters_are_written_as_their_entities(c: char)
    ensures
        html_text(seq![c]) == (if c == '&' {
            "&amp;"@
        } else if c == '<' {
            "&lt;"@
        } else if c == '>' {
            "&gt;"@
        } else if c == '"' {
            "&quot;"@
        } else if c == '\'' {
            "&#39;"@
        } else {
            seq![c]
        }),
        xml_text(seq![c]) == (if c == '&' {
            "&amp;"@
        } else if c == '<' {
            "&lt;"@
        } else if c == '>' {
            "&gt;"@
        } else if c == '"' {
            "&quot;"@
        } else if c == '\'' {
            "&apos;"@
        } else if (c as u32) < 32 && c != '\t' && c != '\n' && c != '\r' || 127 <= c as u32 <= 159 {
            Seq::empty()
        } else {
            seq![c]
        }),
{
    reveal_with_fuel(html_text, 2);
    reveal_with_fuel(xml_text, 2);
    assert(seq![c].drop_last() =~= Seq::<char>::empty());
    assert(html_text(seq![c]) =~= html_entity(c));
    assert(xml_text(seq![c]) =~= xml_entity(c));
}

/// A text without markup stays as it is.
pub proof fn text_without_markup_stays(s: Seq<char>)
    requires
        forall|i: int|
            0 <= i < s.len() ==> (#[trigger] s[i]) != '&' && s[i] != '<' && s[i] != '>' && s[i]
                != '"' && s[i] != '\'',
    ensures
        html_text(s) == s,
        (forall|i: int| 0 <= i < s.len() ==> !is_dropped(#[trigger] s[i])) ==> xml_text(s) == s,
    decreases s.len(),
{
    if s.len() > 0 {
        let rest = s.drop_last();
        assert forall|i: int| 0 <= i < rest.len() implies (#[trigger] rest[i]) != '&' && rest[i]
            != '<' && rest[i] != '>' && rest[i] != '"' && rest[i] != '\'' by {
            assert(rest[i] == s[i]);
        }
        text_without_markup_stays(rest);
        assert(s[s.len() - 1] == s.last());
        assert(s =~= rest + seq![s.last()]);
        if forall|i: int| 0 <= i < s.len() ==> !is_dropped(#[trigger] s[i]) {
            assert forall|i: int| 0 <= i < rest.len() implies !is_dropped(#[trigger] rest[i]) by {
                assert(rest[i] == s[i]);
            }
            assert(!is_dropped(s[s.len() - 1]));
        }
    } else {
        assert(html_text(s) =~= s);
        assert(xml_text(s) =~= s);
    }
}

} // verus!
