//! What written numbers and trimmed texts are.

use vstd::prelude::*;

use crate::text;

verus! {

/// The value of a character as a digit, from 0 for `0` on.
pub open spec fn digit_value(c: char) -> int {
    c as int - '0' as int
}

/// The number that a row of digits stands for.
pub open spec fn number_of(s: Seq<char>) -> int
    decreases s.len(),
{
    if s.len() == 0 {
        0
    } else {
        10 * number_of(s.drop_last()) + digit_value(s.last())
    }
}

/// A number is written with digits alone, without leading zeros, and stands for
/// itself.
pub proof fn a_number_is_written_in_digits(n: nat)
    ensures
        number_of(text::decimal(n)) == n,
        text::decimal(n).len() > 0,
        forall|i: int|
            0 <= i < text::decimal(n).len() ==> 0 <= digit_value(#[trigger] text::decimal(n)[i])
                <= 9,
        n > 0 ==> text::decimal(n)[0] != '0',
        n == 0 ==> text::decimal(n).len() == 1,
    decreases n,
{
    reveal_with_fuel(number_of, 2);
    let s = text::decimal(n);
    if n < 10 {
        assert(s.drop_last() =~= Seq::<char>::empty());
        assert(s.last() == text::digit(n as int));
    } else {
        a_number_is_written_in_digits(n / 10);
        let front = text::decimal(n / 10);
        assert(s.drop_last() =~= front);
        assert(s.last() == text::digit((n % 10) as int));
        assert forall|i: int| 0 <= i < s.len() implies 0 <= digit_value(#[trigger] s[i]) <= 9 by {
            if i < front.len() {
                assert(s[i] == front[i]);
            }
        }
        assert(s[0] == front[0]);
    }
}

/// Different numbers are written differently.
pub proof fn different_numbers_are_written_differently(a: nat, b: nat)
    ensures
        text::decimal(a) == text::decimal(b) <==> a == b,
{
    a_number_is_written_in_digits(a);
    a_number_is_written_in_digits(b);
}

/// A difference is written as its sign and its magnitude. Zero has the sign of a
/// gain.
pub proof fn a_difference_is_written_with_its_sign(d: int)
    ensures
        text::signed_decimal(d)[0] == '+' <==> d >= 0,
        text::signed_decimal(d)[0] == '-' <==> d < 0,
        number_of(text::signed_decimal(d).skip(1)) == if d >= 0 {
            d
        } else {
            -d
        },
{
    reveal_strlit("+");
    reveal_strlit("-");
    if d >= 0 {
        a_number_is_written_in_digits(d as nat);
        assert(text::signed_decimal(d).skip(1) =~= text::decimal(d as nat));
    } else {
        a_number_is_written_in_digits((-d) as nat);
        assert(text::signed_decimal(d).skip(1) =~= text::decimal((-d) as nat));
    }
}

proof fn lemma_trim_start(s: Seq<char>) -> (k: int)
    ensures
        0 <= k <= s.len(),
        text::trim_start(s) == s.skip(k),
        forall|i: int| 0 <= i < k ==> text::is_white_space(#[trigger] s[i]),
        k < s.len() ==> !text::is_white_space(s[k]),
    decreases s.len(),
{
    if s.len() > 0 && text::is_white_space(s[0]) {
        let rest = s.skip(1);
        let k = lemma_trim_start(rest);
        assert(rest.skip(k) =~= s.skip(k + 1));
        assert forall|i: int| 0 <= i < k + 1 implies text::is_white_space(#[trigger] s[i]) by {
            if i > 0 {
                assert(s[i] == rest[i - 1]);
            }
        }
        if k + 1 < s.len() {
            assert(s[k + 1] == rest[k]);
        }
        k + 1
    } else {
        assert(s.skip(0) =~= s);
        0
    }
}

proof fn lemma_trim_end(s: Seq<char>) -> (k: int)
    ensures
        0 <= k <= s.len(),
        text::trim_end(s) == s.take(k),
        forall|i: int| k <= i < s.len() ==> text::is_white_space(#[trigger] s[i]),
        k > 0 ==> !text::is_white_space(s[k - 1]),
    decreases s.len(),
{
    if s.len() > 0 && text::is_white_space(s.last()) {
        let rest = s.drop_last();
        let k = lemma_trim_end(rest);
        assert(rest.take(k) =~= s.take(k));
        assert forall|i: int| k <= i < s.len() implies text::is_white_space(#[trigger] s[i]) by {
            if i < rest.len() {
                assert(s[i] == rest[i]);
            }
        }
        if k > 0 {
            assert(s[k - 1] == rest[k - 1]);
        }
        k
    } else {
        assert(s.take(s.len() as int) =~= s);
        s.len() as int
    }
}

/// Trimming takes white space away at both ends and nothing else: the result stands
/// in the text, only white space stands before and behind it, and it begins and ends
/// with another character, unless it is empty.
pub proof fn trimming_takes_white_space_away(s: Seq<char>)
    ensures
        exists|i: int, j: int|
            0 <= i <= j <= s.len() && text::trimmed(s) == #[trigger] s.subrange(i, j) && (forall|
                k: int,
            |
                0 <= k < i || j <= k < s.len() ==> text::is_white_space(#[trigger] s[k])),
        text::trimmed(s).len() > 0 ==> !text::is_white_space(text::trimmed(s)[0])
            && !text::is_white_space(text::trimmed(s).last()),
{
    let i = lemma_trim_start(s);
    let t = s.skip(i);
    let n = lemma_trim_end(t);
    let j = i + n;
    assert(t.take(n) =~= s.subrange(i, j));
    assert forall|k: int| 0 <= k < i || j <= k < s.len() implies text::is_white_space(
        #[trigger] s[k],
    ) by {
        if j <= k {
            assert(s[k] == t[k - i]);
        }
    }
    assert(text::trimmed(s) == s.subrange(i, j));
    if n > 0 {
        assert(t[0] == s[i]);
        assert(s.subrange(i, j)[0] == s[i]);
    }
}

/// Blanks, tabs and ends of lines are white space; letters, digits and the other
/// visible characters of ASCII are not.
pub proof fn visible_characters_are_no_white_space(c: char)
    ensures
        c == ' ' || c == '\t' || c == '\n' || c == '\r' ==> text::is_white_space(c),
        '!' <= c <= '~' ==> !text::is_white_space(c),
{
}

/// In lower case the letters from A to Z become those from a to z, and every other
/// character stays; in upper case it is the other way round.
pub proof fn only_ascii_letters_change_case(c: char)
    ensures
        'A' <= c <= 'Z' ==> text::ascii_lower(c) as int == c as int + 'a' as int - 'A' as int,
        !('A' <= c <= 'Z') ==> text::ascii_lower(c) == c,
        'a' <= c <= 'z' ==> text::ascii_upper(c) as int == c as int + 'A' as int - 'a' as int,
        !('a' <= c <= 'z') ==> text::ascii_upper(c) == c,
{
}

/// A list is written as its first parts and then, behind a separator, the last one.
pub proof fn a_list_is_written_part_by_part(parts: Seq<Seq<char>>, last: Seq<char>, sep: Seq<char>)
    ensures
        text::joined(Seq::<Seq<char>>::empty(), sep).len() == 0,
        text::joined(parts.push(last), sep) == if parts.len() == 0 {
            last
        } else {
            text::joined(parts, sep) + sep + last
        },
{
    assert(parts.push(last).drop_last() =~= parts);
}

} // verus!
