//! What holds of text operations as a whole.

use vstd::prelude::*;
use vstd::string::*;

use crate::text::{
    all_ascii, all_digits, ascii_lower, ascii_upper, decimal, digit_run, digits_value, first_at,
    has_suffix, has_text, is_digit, leading_whitespace, letter_or_digit, lowered, occurs_at,
    parsed_digits, raised, same_but_case, trailing_whitespace, trimmed, trimmed_end, trimmed_start,
    whitespace,
};

verus! {

/// A number that was written in decimal is read back, where it is not above the limit; and what
/// was written are digits, without a leading zero.
pub proof fn law_decimal_reads_back(n: nat, max: nat)
    ensures
        n <= max ==> parsed_digits(decimal(n), max) == Some(n),
        n > max ==> parsed_digits(decimal(n), max) is None,
        all_digits(decimal(n)),
        decimal(n).len() > 0,
        n > 0 ==> decimal(n)[0] != '0',
        digits_value(decimal(n)) == n,
    decreases n,
{
    let d = decimal(n);
    if n < 10 {
        assert(d.drop_last() =~= Seq::empty());
        assert(digits_value(d.drop_last()) == 0);
        assert(d.last() == d[0]);
    } else {
        law_decimal_reads_back(n / 10, max);
        let front = decimal(n / 10);
        assert(d.drop_last() =~= front);
        assert forall|i: int| 0 <= i < d.len() implies is_digit(#[trigger] d[i]) by {
            if i < front.len() {
                assert(d[i] == front[i]);
            }
        }
        assert(d[0] == front[0]);
    }
}

/// Digits are read to the end of their run, whatever else follows.
pub proof fn law_digits_end_where_another_character_is(digits: Seq<char>, rest: Seq<char>)
    requires
        all_digits(digits),
        rest.len() > 0 ==> !('0' <= rest[0] && rest[0] <= '9'),
    ensures
        digit_run(digits + rest) == digits.len(),
    decreases digits.len(),
{
    let s = digits + rest;
    if digits.len() > 0 {
        assert(is_digit(digits[0]));
        assert(s[0] == digits[0]);
        assert(s.skip(1) =~= digits.skip(1) + rest);
        assert forall|i: int| 0 <= i < digits.skip(1).len() implies is_digit(
            #[trigger] digits.skip(1)[i],
        ) by {
            assert(is_digit(digits[i + 1]));
        }
        law_digits_end_where_another_character_is(digits.skip(1), rest);
    } else {
        assert(s =~= rest);
    }
}

/// A text is found where it stands, and only there.
pub proof fn law_text_is_found_where_it_stands(
    before: Seq<char>,
    needle: Seq<char>,
    after: Seq<char>,
    hay: Seq<char>,
)
    ensures
        has_text(before + needle + after, needle),
        has_text(hay, needle) ==> exists|i: int|
            0 <= i && i + needle.len() <= hay.len() && hay == #[trigger] hay.take(i) + needle
                + hay.skip(i + needle.len()),
        has_suffix(before + needle, needle),
        has_suffix(hay, needle) ==> exists|i: int|
            0 <= i <= hay.len() && hay == #[trigger] hay.take(i) + needle,
        first_at(hay, needle, 0) <==> needle.len() <= hay.len() && hay.take(needle.len() as int)
            == needle,
{
    let all = before + needle + after;
    assert(all.subrange(before.len() as int, (before.len() + needle.len()) as int) =~= needle);
    assert(occurs_at(all, needle, before.len() as int));
    if has_text(hay, needle) {
        let i = choose|i: int| #[trigger] occurs_at(hay, needle, i);
        assert(hay =~= hay.take(i) + needle + hay.skip(i + needle.len()));
    }
    let two = before + needle;
    assert(two.subrange(two.len() - needle.len(), two.len() as int) =~= needle);
    if has_suffix(hay, needle) {
        let i = hay.len() - needle.len();
        assert(hay =~= hay.take(i) + needle);
    }
    if needle.len() <= hay.len() {
        assert(hay.subrange(0, needle.len() as int) =~= hay.take(needle.len() as int));
    }
}

proof fn lemma_leading(ws: Seq<char>, s: Seq<char>)
    requires
        forall|i: int| 0 <= i < ws.len() ==> whitespace(#[trigger] ws[i]),
        s.len() == 0 || !whitespace(s[0]),
    ensures
        leading_whitespace(ws + s) == ws.len(),
        trimmed_start(ws + s) == s,
    decreases ws.len(),
{
    let all = ws + s;
    if ws.len() == 0 {
        assert(all =~= s);
        assert(s.skip(0) =~= s);
    } else {
        assert(whitespace(ws[0]));
        assert(all[0] == ws[0]);
        assert(all.skip(1) =~= ws.skip(1) + s);
        assert forall|i: int| 0 <= i < ws.skip(1).len() implies whitespace(
            #[trigger] ws.skip(1)[i],
        ) by {
            assert(whitespace(ws[i + 1]));
        }
        lemma_leading(ws.skip(1), s);
        assert(all.skip(ws.len() as int) =~= s);
    }
}

proof fn lemma_trailing(s: Seq<char>, ws: Seq<char>)
    requires
        forall|i: int| 0 <= i < ws.len() ==> whitespace(#[trigger] ws[i]),
        s.len() == 0 || !whitespace(s.last()),
    ensures
        trailing_whitespace(s + ws) == ws.len(),
        trimmed_end(s + ws) == s,
    decreases ws.len(),
{
    let all = s + ws;
    if ws.len() == 0 {
        assert(all =~= s);
        assert(s.take(s.len() as int) =~= s);
    } else {
        assert(whitespace(ws[ws.len() - 1]));
        assert(all.last() == ws.last());
        assert(all.drop_last() =~= s + ws.drop_last());
        lemma_trailing(s, ws.drop_last());
        assert(all.take(s.len() as int) =~= s);
    }
}

/// Trimming takes away whitespace on both sides, all of it and nothing else.
pub proof fn law_trimming_takes_whitespace(before: Seq<char>, s: Seq<char>, after: Seq<char>)
    requires
        forall|i: int| 0 <= i < before.len() ==> whitespace(#[trigger] before[i]),
        forall|i: int| 0 <= i < after.len() ==> whitespace(#[trigger] after[i]),
        s.len() > 0 ==> !whitespace(s[0]) && !whitespace(s.last()),
    ensures
        trimmed(before + s + after) == s,
        whitespace(' ') && whitespace('\t') && whitespace('\n') && whitespace('\r'),
{
    if s.len() > 0 {
        assert(before + s + after =~= before + (s + after));
        assert((s + after)[0] == s[0]);
        lemma_leading(before, s + after);
        lemma_trailing(s, after);
    } else {
        let all = before + s + after;
        assert forall|i: int| 0 <= i < all.len() implies whitespace(#[trigger] all[i]) by {
            if i < before.len() {
                assert(all[i] == before[i]);
            } else {
                assert(all[i] == after[i - before.len()]);
            }
        }
        assert(all + Seq::<char>::empty() =~= all);
        lemma_leading(all, Seq::empty());
        lemma_trailing(Seq::empty(), Seq::empty());
        assert(Seq::<char>::empty() + Seq::<char>::empty() =~= Seq::<char>::empty());
        assert(s =~= Seq::empty());
    }
}

/// Case is changed letter by letter: `A` to `Z` and `a` to `z` are each other's counterparts, and
/// no other ASCII character is changed.
pub proof fn law_case_of_ascii(s: Seq<char>, i: int)
    requires
        all_ascii(s),
        0 <= i < s.len(),
    ensures
        lowered(s).len() == s.len(),
        raised(s).len() == s.len(),
        'A' <= s[i] <= 'Z' ==> lowered(s)[i] as u32 == s[i] as u32 + 32 && raised(s)[i] == s[i],
        'a' <= s[i] <= 'z' ==> raised(s)[i] as u32 == s[i] as u32 - 32 && lowered(s)[i] == s[i],
        !('A' <= s[i] <= 'Z') && !('a' <= s[i] <= 'z') ==> lowered(s)[i] == s[i] && raised(s)[i]
            == s[i],
        letter_or_digit(s[i]) <==> 'A' <= s[i] <= 'Z' || 'a' <= s[i] <= 'z' || '0' <= s[i] <= '9',
        same_but_case(s, lowered(s)),
        same_but_case(s, raised(s)),
{
    assert((s[i] as u32) < 128);
    let low = lowered(s);
    let high = raised(s);
    assert(s.map_values(|c: char| ascii_lower(c)) =~= low.map_values(|c: char| ascii_lower(c)))
        by {
        assert forall|k: int| 0 <= k < s.len() implies ascii_lower(s[k]) == ascii_lower(low[k]) by {
            lemma_lower_twice(s[k]);
        }
    }
    assert(s.map_values(|c: char| ascii_lower(c)) =~= high.map_values(|c: char| ascii_lower(c)))
        by {
        assert forall|k: int| 0 <= k < s.len() implies ascii_lower(s[k]) == ascii_lower(
            high[k],
        ) by {
            lemma_lower_twice(s[k]);
        }
    }
}

proof fn lemma_lower_twice(c: char)
    ensures
        ascii_lower(ascii_lower(c)) == ascii_lower(c),
        ascii_lower(ascii_upper(c)) == ascii_lower(c),
{
}

/// Which characters are whitespace: the 25 code points that have that property, by ranges.
pub proof fn law_which_characters_are_whitespace(c: char)
    ensures
        whitespace(c) <==> {
            let u = c as u32;
            ||| 9 <= u && u < 14
            ||| u == 32
            ||| u == 133
            ||| u == 160
            ||| u == 5760
            ||| 8192 <= u && u < 8203
            ||| u == 8232
            ||| u == 8233
            ||| u == 8239
            ||| u == 8287
            ||| u == 12288
        },
{
}

} // verus!
