//! Strings as sequences of characters: the searching, comparing and number
//! formatting that the rest of the crate is written in.

use vstd::prelude::*;

verus! {

/// `String::push` appends one character to the end of the string.
pub assume_specification[ String::push ](s: &mut String, c: char)
    ensures
        final(s)@ == old(s)@.push(c),
;

/// The character that writes the decimal digit `d`.
pub open spec fn digit(d: int) -> char {
    if d == 0 {
        '0'
    } else if d == 1 {
        '1'
    } else if d == 2 {
        '2'
    } else if d == 3 {
        '3'
    } else if d == 4 {
        '4'
    } else if d == 5 {
        '5'
    } else if d == 6 {
        '6'
    } else if d == 7 {
        '7'
    } else if d == 8 {
        '8'
    } else {
        '9'
    }
}

/// The decimal notation of `n`, without leading zeros.
pub open spec fn decimal(n: nat) -> Seq<char>
    decreases n,
{
    if n < 10 {
        seq![digit(n as int)]
    } else {
        decimal(n / 10).push(digit((n % 10) as int))
    }
}

fn digit_char(d: u64) -> (c: char)
    requires
        d < 10,
    ensures
        c == digit(d as int),
{
    if d == 0 {
        '0'
    } else if d == 1 {
        '1'
    } else if d == 2 {
        '2'
    } else if d == 3 {
        '3'
    } else if d == 4 {
        '4'
    } else if d == 5 {
        '5'
    } else if d == 6 {
        '6'
    } else if d == 7 {
        '7'
    } else if d == 8 {
        '8'
    } else {
        '9'
    }
}

/// Writes `n` in decimal.
pub fn decimal_text(n: u64) -> (s: String)
    ensures
        s@ == decimal(n as nat),
    decreases n,
{
    if n < 10 {
        let mut s = String::new();
        s.push(digit_char(n));
        s
    } else {
        let mut s = decimal_text(n / 10);
        s.push(digit_char(n % 10));
        s
    }
}

/// `a` and `b` run together.
pub(crate) fn two(a: &str, b: &str) -> (r: String)
    ensures
        r@ == a@ + b@,
{
    let mut out = a.to_string();
    out.append(b);
    out
}

/// `a`, `b` and `c` run together.
pub(crate) fn three(a: &str, b: &str, c: &str) -> (r: String)
    ensures
        r@ == a@ + b@ + c@,
{
    let mut out = a.to_string();
    out.append(b);
    out.append(c);
    out
}

/// A number in decimal.
pub(crate) fn number(n: usize) -> (r: String)
    ensures
        r@ == decimal(n as nat),
{
    decimal_text(n as u64)
}

/// The decimal notation of a signed number with its sign always written.
pub open spec fn signed_decimal(d: int) -> Seq<char> {
    if d >= 0 {
        "+"@ + decimal(d as nat)
    } else {
        "-"@ + decimal((-d) as nat)
    }
}

/// The magnitude of `d`.
pub fn magnitude(d: i64) -> (m: u64)
    ensures
        m == (if d >= 0 {
            d as int
        } else {
            -(d as int)
        }),
{
    if d >= 0 {
        d as u64
    } else {
        (-(d + 1)) as u64 + 1
    }
}

/// Writes `d` in decimal, with `+` before a number that is not negative.
pub fn signed_decimal_text(d: i64) -> (s: String)
    ensures
        s@ == signed_decimal(d as int),
{
    let mut s = if d >= 0 {
        "+".to_string()
    } else {
        "-".to_string()
    };
    let digits = decimal_text(magnitude(d));
    s.append(digits.as_str());
    s
}

/// Whether two strings hold the same characters.
pub fn same_text(a: &str, b: &str) -> (r: bool)
    ensures
        r == (a@ == b@),
{
    a.to_owned() == b.to_owned()
}

/// The characters of `s`, in order.
pub fn to_chars(s: &str) -> (r: Vec<char>)
    ensures
        r@ == s@,
{
    let mut out: Vec<char> = Vec::new();
    for c in it: s.chars()
        invariant
            out@ == it.seq().take(it.index()),
            it.seq() == s@,
    {
        out.push(c);
    }
    out
}

/// The string made of the characters `from..to` of `s`.
pub fn text_of(s: &Vec<char>, from: usize, to: usize) -> (r: String)
    requires
        from <= to <= s@.len(),
    ensures
        r@ == s@.subrange(from as int, to as int),
{
    let mut out = String::new();
    let mut i: usize = from;
    while i < to
        invariant
            from <= i <= to <= s@.len(),
            out@ == s@.subrange(from as int, i as int),
        decreases to - i,
    {
        out.push(s[i]);
        i = i + 1;
    }
    out
}

/// Whether `pat` stands in `s` at position `i`.
pub open spec fn occurs_at(s: Seq<char>, i: int, pat: Seq<char>) -> bool {
    0 <= i && i + pat.len() <= s.len() && s.subrange(i, i + pat.len()) == pat
}

/// The first position at or after `from` at which `pat` stands in `s`.
pub open spec fn first_at(s: Seq<char>, from: int, pat: Seq<char>) -> Option<int>
    decreases s.len() + 1 - from,
{
    if from < 0 || from + pat.len() > s.len() {
        None
    } else if occurs_at(s, from, pat) {
        Some(from)
    } else {
        first_at(s, from + 1, pat)
    }
}

/// Whether `pat` stands anywhere in `s`.
pub open spec fn has_sub(s: Seq<char>, pat: Seq<char>) -> bool {
    first_at(s, 0, pat) is Some
}

/// `first_at` finds the earliest place, and finds one whenever there is one.
pub proof fn lemma_first_at(s: Seq<char>, from: int, pat: Seq<char>)
    requires
        0 <= from,
    ensures
        match first_at(s, from, pat) {
            Some(i) => from <= i && occurs_at(s, i, pat) && forall|j: int|
                from <= j < i ==> !occurs_at(s, j, pat),
            None => forall|j: int| from <= j ==> !occurs_at(s, j, pat),
        },
    decreases s.len() + 1 - from,
{
    if from + pat.len() > s.len() {
    } else if occurs_at(s, from, pat) {
    } else {
        lemma_first_at(s, from + 1, pat);
    }
}

/// A text stands in itself.
pub proof fn lemma_sub_of_itself(s: Seq<char>)
    ensures
        has_sub(s, s),
{
    assert(s.subrange(0, s.len() as int) =~= s);
    assert(occurs_at(s, 0, s));
    lemma_first_at(s, 0, s);
}

/// What stands in a part stands in the whole.
pub broadcast proof fn lemma_sub_of_joined(a: Seq<char>, b: Seq<char>, pat: Seq<char>)
    ensures
        has_sub(a, pat) || has_sub(b, pat) ==> #[trigger] has_sub(a + b, pat),
{
    let s = a + b;
    lemma_first_at(s, 0, pat);
    if has_sub(a, pat) {
        lemma_first_at(a, 0, pat);
        let i = first_at(a, 0, pat)->0;
        assert(s.subrange(i, i + pat.len()) =~= pat);
        assert(occurs_at(s, i, pat));
    } else if has_sub(b, pat) {
        lemma_first_at(b, 0, pat);
        let i = first_at(b, 0, pat)->0;
        let k = a.len() + i;
        assert(s.subrange(k, k + pat.len()) =~= b.subrange(i, i + pat.len()));
        assert(occurs_at(s, k, pat));
    }
}

/// Whether `s` begins with `start`.
pub open spec fn begins_with(s: Seq<char>, start: Seq<char>) -> bool {
    start.len() <= s.len() && s.take(start.len() as int) == start
}

/// What a text begins with, it begins with when something follows it.
pub broadcast proof fn lemma_begins_with_joined(a: Seq<char>, b: Seq<char>, start: Seq<char>)
    requires
        begins_with(a, start),
    ensures
        #[trigger] begins_with(a + b, start),
{
    assert((a + b).take(start.len() as int) =~= a.take(start.len() as int));
}

/// A text that begins with one of two texts that differ at some place does not
/// begin with the other.
pub proof fn lemma_begins_with_one(s: Seq<char>, a: Seq<char>, b: Seq<char>, i: int)
    requires
        0 <= i < a.len(),
        i < b.len(),
        a[i] != b[i],
        begins_with(s, a),
    ensures
        !begins_with(s, b),
{
    assert(s.take(a.len() as int)[i] == s[i]);
    if begins_with(s, b) {
        assert(s.take(b.len() as int)[i] == s[i]);
    }
}

/// Two texts in a row begin with the first and what the second begins with.
pub proof fn lemma_begins_with_after(a: Seq<char>, b: Seq<char>, start: Seq<char>)
    ensures
        begins_with(b, start) <==> begins_with(a + b, a + start),
{
    if begins_with(b, start) {
        assert((a + b).take((a + start).len() as int) =~= a + b.take(start.len() as int));
    }
    if begins_with(a + b, a + start) {
        let whole = (a + b).take((a + start).len() as int);
        assert(b.take(start.len() as int) =~= whole.skip(a.len() as int));
        assert((a + start).skip(a.len() as int) =~= start);
    }
}

/// What stands in a text stands in every text that holds it.
pub proof fn lemma_sub_of_sub(s: Seq<char>, t: Seq<char>, pat: Seq<char>)
    requires
        has_sub(s, t),
        has_sub(t, pat),
    ensures
        has_sub(s, pat),
{
    lemma_first_at(s, 0, t);
    lemma_first_at(t, 0, pat);
    lemma_first_at(s, 0, pat);
    let i = first_at(s, 0, t)->0;
    let k = first_at(t, 0, pat)->0;
    assert(s.subrange(i + k, i + k + pat.len()) =~= s.subrange(i, i + t.len()).subrange(
        k,
        k + pat.len(),
    ));
    assert(occurs_at(s, i + k, pat));
}

fn stands_at(s: &Vec<char>, i: usize, pat: &Vec<char>) -> (r: bool)
    requires
        i + pat@.len() <= s@.len(),
    ensures
        r == occurs_at(s@, i as int, pat@),
{
    let total = s.len();
    let mut k: usize = 0;
    while k < pat.len()
        invariant
            k <= pat@.len(),
            total == s@.len(),
            i + pat@.len() <= s@.len(),
            forall|j: int| 0 <= j < k ==> s@[i + j] == pat@[j],
        decreases pat@.len() - k,
    {
        if s[i + k] != pat[k] {
            assert(s@.subrange(i as int, i + pat@.len())[k as int] != pat@[k as int]);
            return false;
        }
        k = k + 1;
    }
    assert(s@.subrange(i as int, i + pat@.len()) =~= pat@);
    true
}

/// The first position at or after `from` at which `pat` stands in `s`.
pub fn find_from(s: &Vec<char>, from: usize, pat: &str) -> (r: Option<usize>)
    ensures
        match r {
            Some(i) => first_at(s@, from as int, pat@) == Some(i as int) && i + pat@.len()
                <= s@.len(),
            None => first_at(s@, from as int, pat@) is None,
        },
{
    let p = to_chars(pat);
    if p.len() > s.len() {
        return None;
    }
    let last = s.len() - p.len();
    let mut i: usize = from;
    while i <= last
        invariant
            p@ == pat@,
            p@.len() <= s@.len(),
            last == s@.len() - p@.len(),
            from <= i,
            first_at(s@, from as int, pat@) == first_at(s@, i as int, pat@),
        decreases last + 1 - i,
    {
        if stands_at(s, i, &p) {
            return Some(i);
        }
        if i == last {
            return None;
        }
        i = i + 1;
    }
    None
}

/// Whether `pat` stands anywhere in `s`.
pub fn contains_text(s: &str, pat: &str) -> (r: bool)
    ensures
        r == has_sub(s@, pat@),
{
    let chars = to_chars(s);
    find_from(&chars, 0, pat).is_some()
}

/// The lower-case form of an ASCII letter; any other character is kept.
pub open spec fn ascii_lower(c: char) -> char {
    if 'A' <= c && c <= 'Z' {
        ((c as u32 + 32) as u32) as char
    } else {
        c
    }
}

/// `s` with its ASCII letters in lower case.
pub open spec fn ascii_lower_text(s: Seq<char>) -> Seq<char> {
    s.map_values(|c: char| ascii_lower(c))
}

fn ascii_lower_char(c: char) -> (r: char)
    ensures
        r == ascii_lower(c),
{
    if 'A' <= c && c <= 'Z' {
        ((c as u8) + 32) as char
    } else {
        c
    }
}

/// `s` with its ASCII letters in lower case.
pub fn to_ascii_lower(s: &str) -> (r: String)
    ensures
        r@ == ascii_lower_text(s@),
{
    let mut out = String::new();
    for c in it: s.chars()
        invariant
            out@ == ascii_lower_text(it.seq().take(it.index())),
            it.seq() == s@,
    {
        out.push(ascii_lower_char(c));
        assert(it.seq().take(it.index() + 1) =~= it.seq().take(it.index()).push(c));
        assert(out@ =~= ascii_lower_text(it.seq().take(it.index() + 1)));
    }
    assert(s@.take(s@.len() as int) =~= s@);
    out
}

/// The upper-case form of an ASCII letter; any other character is kept.
pub open spec fn ascii_upper(c: char) -> char {
    if 'a' <= c && c <= 'z' {
        ((c as u32 - 32) as u32) as char
    } else {
        c
    }
}

/// `s` with its ASCII letters in upper case.
pub open spec fn ascii_upper_text(s: Seq<char>) -> Seq<char> {
    s.map_values(|c: char| ascii_upper(c))
}

fn ascii_upper_char(c: char) -> (r: char)
    ensures
        r == ascii_upper(c),
{
    if 'a' <= c && c <= 'z' {
        ((c as u8) - 32) as char
    } else {
        c
    }
}

/// `s` with its ASCII letters in upper case.
pub fn to_ascii_upper(s: &str) -> (r: String)
    ensures
        r@ == ascii_upper_text(s@),
{
    let mut out = String::new();
    for c in it: s.chars()
        invariant
            out@ == ascii_upper_text(it.seq().take(it.index())),
            it.seq() == s@,
    {
        out.push(ascii_upper_char(c));
        assert(it.seq().take(it.index() + 1) =~= it.seq().take(it.index()).push(c));
        assert(out@ =~= ascii_upper_text(it.seq().take(it.index() + 1)));
    }
    assert(s@.take(s@.len() as int) =~= s@);
    out
}

/// Each of `parts` between `open` and `close`.
pub open spec fn wrapped(parts: Seq<Seq<char>>, open: Seq<char>, close: Seq<char>) -> Seq<
    Seq<char>,
> {
    parts.map_values(|s: Seq<char>| open + s + close)
}

/// Adds each of `parts`, put between `open` and `close`, to a list.
pub fn add_wrapped(out: &mut Vec<String>, parts: &Vec<String>, open: &str, close: &str)
    ensures
        views(final(out)@) == views(old(out)@) + wrapped(views(parts@), open@, close@),
{
    let ghost start = views(out@);
    let ghost all = wrapped(views(parts@), open@, close@);
    let mut i: usize = 0;
    assert(views(out@) =~= start + all.take(0));
    while i < parts.len()
        invariant
            i <= parts@.len(),
            all == wrapped(views(parts@), open@, close@),
            views(out@) == start + all.take(i as int),
        decreases parts@.len() - i,
    {
        let mut s = open.to_string();
        s.append(parts[i].as_str());
        s.append(close);
        let ghost before = out@;
        out.push(s);
        assert(views(out@) =~= views(before).push(s@));
        assert(all.take(i + 1) =~= all.take(i as int).push(s@));
        assert(start + all.take(i + 1) =~= (start + all.take(i as int)).push(s@));
        i = i + 1;
    }
    assert(all.take(i as int) =~= all);
}

/// The characters with the Unicode property `White_Space`.
pub open spec fn is_white_space(c: char) -> bool {
    let n = c as u32;
    ||| 0x09 <= n <= 0x0d
    ||| n == 0x20
    ||| n == 0x85
    ||| n == 0xa0
    ||| n == 0x1680
    ||| 0x2000 <= n <= 0x200a
    ||| n == 0x2028
    ||| n == 0x2029
    ||| n == 0x202f
    ||| n == 0x205f
    ||| n == 0x3000
}

fn white_space(c: char) -> (r: bool)
    ensures
        r == is_white_space(c),
{
    let n = c as u32;
    (0x09 <= n && n <= 0x0d) || n == 0x20 || n == 0x85 || n == 0xa0 || n == 0x1680 || (0x2000 <= n
        && n <= 0x200a) || n == 0x2028 || n == 0x2029 || n == 0x202f || n == 0x205f || n == 0x3000
}

/// `s` without the white space that it begins with.
pub open spec fn trim_start(s: Seq<char>) -> Seq<char>
    decreases s.len(),
{
    if s.len() > 0 && is_white_space(s[0]) {
        trim_start(s.skip(1))
    } else {
        s
    }
}

/// `s` without the white space that it ends with.
pub open spec fn trim_end(s: Seq<char>) -> Seq<char>
    decreases s.len(),
{
    if s.len() > 0 && is_white_space(s.last()) {
        trim_end(s.drop_last())
    } else {
        s
    }
}

/// `s` without the white space around it.
pub open spec fn trimmed(s: Seq<char>) -> Seq<char> {
    trim_end(trim_start(s))
}

/// `s` without the white space around it.
pub fn trim(s: &str) -> (r: String)
    ensures
        r@ == trimmed(s@),
{
    let chars = to_chars(s);
    let mut from: usize = 0;
    assert(chars@.skip(0) =~= chars@);
    while from < chars.len() && white_space(chars[from])
        invariant
            from <= chars@.len(),
            trim_start(chars@) == trim_start(chars@.skip(from as int)),
        decreases chars@.len() - from,
    {
        assert(chars@.skip(from as int).skip(1) =~= chars@.skip(from + 1));
        from = from + 1;
    }
    let ghost rest = chars@.skip(from as int);
    assert(trim_start(chars@) == rest);
    let mut to: usize = chars.len();
    assert(rest =~= chars@.subrange(from as int, to as int));
    while from < to && white_space(chars[to - 1])
        invariant
            from <= to <= chars@.len(),
            trim_end(rest) == trim_end(chars@.subrange(from as int, to as int)),
        decreases to,
    {
        assert(chars@.subrange(from as int, to as int).drop_last() =~= chars@.subrange(
            from as int,
            to - 1,
        ));
        to = to - 1;
    }
    text_of(&chars, from, to)
}

/// The strings of `parts` with `sep` between each two.
pub open spec fn joined(parts: Seq<Seq<char>>, sep: Seq<char>) -> Seq<char>
    decreases parts.len(),
{
    if parts.len() == 0 {
        Seq::empty()
    } else if parts.len() == 1 {
        parts[0]
    } else {
        joined(parts.drop_last(), sep) + sep + parts.last()
    }
}

/// Every part of a list stands in what the list is written as.
pub proof fn lemma_sub_of_list(parts: Seq<Seq<char>>, sep: Seq<char>, k: int)
    requires
        0 <= k < parts.len(),
    ensures
        has_sub(joined(parts, sep), parts[k]),
    decreases parts.len(),
{
    broadcast use lemma_sub_of_joined;

    lemma_sub_of_itself(parts[k]);
    if parts.len() > 1 {
        if k < parts.len() - 1 {
            lemma_sub_of_list(parts.drop_last(), sep, k);
            assert(parts.drop_last()[k] == parts[k]);
        }
    }
}

/// The views of a list of strings.
pub open spec fn views(parts: Seq<String>) -> Seq<Seq<char>> {
    parts.map_values(|s: String| s@)
}

/// A copy of a list of strings.
pub fn clone_texts(parts: &Vec<String>) -> (r: Vec<String>)
    ensures
        views(r@) == views(parts@),
{
    let mut out: Vec<String> = Vec::new();
    let mut i: usize = 0;
    while i < parts.len()
        invariant
            i <= parts@.len(),
            views(out@) == views(parts@).take(i as int),
        decreases parts@.len() - i,
    {
        let ghost before = out@;
        out.push(parts[i].clone());
        assert(views(out@) =~= views(before).push(parts@[i as int]@));
        assert(views(parts@).take(i + 1) =~= views(parts@).take(i as int).push(parts@[i as int]@));
        i = i + 1;
    }
    assert(views(parts@).take(i as int) =~= views(parts@));
    out
}

/// Whether a list holds a string.
pub fn holds_text(parts: &Vec<String>, s: &str) -> (r: bool)
    ensures
        r == views(parts@).contains(s@),
{
    let mut i: usize = 0;
    while i < parts.len()
        invariant
            i <= parts@.len(),
            forall|k: int| 0 <= k < i ==> #[trigger] views(parts@)[k] != s@,
        decreases parts@.len() - i,
    {
        assert(views(parts@)[i as int] == parts@[i as int]@);
        if same_text(parts[i].as_str(), s) {
            return true;
        }
        i = i + 1;
    }
    false
}

/// The strings of `parts` with `sep` between each two.
pub fn join(parts: &Vec<String>, sep: &str) -> (r: String)
    ensures
        r@ == joined(views(parts@), sep@),
{
    if parts.len() == 0 {
        return String::new();
    }
    let mut out = parts[0].clone();
    let mut i: usize = 1;
    assert(views(parts@).take(1).len() == 1);
    while i < parts.len()
        invariant
            1 <= i <= parts@.len(),
            out@ == joined(views(parts@).take(i as int), sep@),
        decreases parts@.len() - i,
    {
        out.append(sep);
        out.append(parts[i].as_str());
        assert(views(parts@).take(i + 1).drop_last() =~= views(parts@).take(i as int));
        i = i + 1;
    }
    assert(views(parts@).take(i as int) =~= views(parts@));
    out
}

/// Whether `a` comes before `b`, or equals it, comparing from position `i` on.
pub open spec fn le_from(a: Seq<char>, b: Seq<char>, i: int) -> bool
    decreases a.len() - i,
{
    if i >= a.len() {
        true
    } else if i >= b.len() {
        false
    } else if a[i] != b[i] {
        a[i] < b[i]
    } else {
        le_from(a, b, i + 1)
    }
}

/// The order of strings: by the first character in which they differ, a prefix
/// before what it begins.
pub open spec fn text_le(a: Seq<char>, b: Seq<char>) -> bool {
    le_from(a, b, 0)
}

/// Whether `a` comes before `b` in the order of strings, or equals it.
pub fn le_text(a: &str, b: &str) -> (r: bool)
    ensures
        r == text_le(a@, b@),
{
    let x = to_chars(a);
    let y = to_chars(b);
    let mut i: usize = 0;
    while i < x.len()
        invariant
            i <= x@.len(),
            x@ == a@,
            y@ == b@,
            text_le(a@, b@) == le_from(a@, b@, i as int),
        decreases x@.len() - i,
    {
        if i >= y.len() {
            return false;
        }
        if x[i] != y[i] {
            return x[i] < y[i];
        }
        i = i + 1;
    }
    true
}

proof fn lemma_le_from_order(a: Seq<char>, b: Seq<char>, c: Seq<char>, i: int)
    requires
        0 <= i,
        forall|j: int| 0 <= j < i && j < a.len() && j < b.len() ==> a[j] == b[j],
        forall|j: int| 0 <= j < i && j < b.len() && j < c.len() ==> b[j] == c[j],
        i <= a.len(),
        i <= b.len(),
        i <= c.len(),
    ensures
        le_from(a, b, i) || le_from(b, a, i),
        le_from(a, b, i) && le_from(b, a, i) ==> a == b,
        le_from(a, b, i) && le_from(b, c, i) ==> le_from(a, c, i),
    decreases a.len() + b.len() + c.len() - 3 * i,
{
    if i < a.len() && i < b.len() && a[i] == b[i] && i < c.len() && b[i] == c[i] {
        lemma_le_from_order(a, b, c, i + 1);
    } else if i < a.len() && i < b.len() && a[i] == b[i] {
        lemma_le_from_pair(a, b, i + 1);
    } else if i == a.len() && i == b.len() {
        assert(a =~= b);
    }
}

proof fn lemma_le_from_pair(a: Seq<char>, b: Seq<char>, i: int)
    requires
        0 <= i <= a.len(),
        i <= b.len(),
        forall|j: int| 0 <= j < i ==> a[j] == b[j],
    ensures
        le_from(a, b, i) || le_from(b, a, i),
        le_from(a, b, i) && le_from(b, a, i) ==> a == b,
    decreases a.len() - i,
{
    if i < a.len() && i < b.len() && a[i] == b[i] {
        lemma_le_from_pair(a, b, i + 1);
    } else if i == a.len() && i == b.len() {
        assert(a =~= b);
    }
}

/// The order of strings is total, antisymmetric and transitive.
pub proof fn lemma_text_le_order(a: Seq<char>, b: Seq<char>, c: Seq<char>)
    ensures
        text_le(a, b) || text_le(b, a),
        text_le(a, b) && text_le(b, a) ==> a == b,
        text_le(a, b) && text_le(b, c) ==> text_le(a, c),
{
    lemma_le_from_order(a, b, c, 0);
}

} // verus!
