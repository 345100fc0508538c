//! What the text primitives give, whatever the text.

use crate::text::{
    all_digits, begins_with, digits_value, i64_of_text, int_of_text, int_text, nat_text, opt_text,
    text_less, texts, trim_end, trim_end_newlines, trim_start, trimmed, unsigned_part, white_space,
};
use vstd::prelude::*;

verus! {

/// The decimal text of a number of more than one digit is that of its tens and then the
/// character of its last digit. So no text but that of zero starts with a zero.
pub proof fn law_decimal_digits(n: nat, d: nat)
    requires
        d < 10,
    ensures
        nat_text(d) == seq![('0' as int + d) as char],
        n > 0 ==> nat_text(10 * n + d) == nat_text(n).push(('0' as int + d) as char),
        n > 0 ==> '1' <= nat_text(n)[0] <= '9',
    decreases n,
{
    if n > 0 {
        assert((10 * n + d) / 10 == n && (10 * n + d) % 10 == d);
        if n >= 10 {
            law_decimal_digits(n / 10, n % 10);
        }
        lemma_decimal_length(n);
        lemma_decimal_length(n / 10);
    }
}

proof fn lemma_decimal_length(n: nat)
    ensures
        nat_text(n).len() > 0,
    decreases n,
{
    if n >= 10 {
        lemma_decimal_length(n / 10);
    }
}

/// A negative number is written as a minus and its magnitude, any other as it is.
pub proof fn law_signed_decimal(n: nat)
    ensures
        int_text(n as int) == nat_text(n),
        n > 0 ==> int_text(-(n as int)) == "-"@ + nat_text(n),
{
    reveal_strlit("-");
    if n > 0 {
        assert(int_text(-(n as int)) =~= "-"@ + nat_text(n));
    }
}

/// One more digit shifts the number by one place.
pub proof fn law_digits_are_read_in_order(text: Seq<char>, c: char)
    requires
        '0' <= c <= '9',
    ensures
        digits_value(Seq::empty()) == 0,
        digits_value(text.push(c)) == 10 * digits_value(text) + (c as int - '0' as int),
{
    assert(text.push(c).drop_last() =~= text);
}

/// Digits are read as their number, behind a minus as the negative one and behind a plus
/// as the same one. Whatever reads as a number is an optional sign and one or more digits.
pub proof fn law_signs_are_read(digits: Seq<char>, text: Seq<char>)
    requires
        digits.len() > 0,
        forall|i: int| 0 <= i < digits.len() ==> '0' <= #[trigger] digits[i] <= '9',
    ensures
        int_of_text(digits) == Some(digits_value(digits) as int),
        int_of_text(seq!['+'] + digits) == Some(digits_value(digits) as int),
        int_of_text(seq!['-'] + digits) == Some(-(digits_value(digits) as int)),
        int_of_text(text) is Some ==> text.len() > 0 && forall|i: int|
            1 <= i < text.len() ==> '0' <= #[trigger] text[i] <= '9',
        int_of_text(text) is Some && !('0' <= text[0] <= '9') ==> text.len() > 1 && (text[0] == '-'
            || text[0] == '+'),
{
    assert('0' <= digits[0] <= '9');
    assert((seq!['+'] + digits).skip(1) =~= digits);
    assert((seq!['-'] + digits).skip(1) =~= digits);
    assert(all_digits(digits));
    if int_of_text(text) is Some {
        let body = unsigned_part(text);
        assert('0' <= body[0] <= '9');
        assert forall|i: int| 1 <= i < text.len() implies '0' <= #[trigger] text[i] <= '9' by {
            if body.len() < text.len() {
                assert(body[i - 1] == text[i]);
            } else {
                assert(body[i] == text[i]);
            }
        }
    }
}

/// A number is read where it is within 64 bits with a sign, and only there.
pub proof fn law_numbers_are_bounded(text: Seq<char>)
    ensures
        i64_of_text(text) is Some <==> int_of_text(text) is Some && -0x8000_0000_0000_0000
            <= int_of_text(text)->0 <= 0x7fff_ffff_ffff_ffff,
        i64_of_text(text) is Some ==> i64_of_text(text) == int_of_text(text),
{
}

/// Texts are ordered by the first character in which they differ, and a text comes before
/// each longer one that starts with it.
pub proof fn law_text_order(
    common: Seq<char>,
    x: char,
    rest: Seq<char>,
    y: char,
    other_rest: Seq<char>,
)
    requires
        x < y,
    ensures
        text_less(common + seq![x] + rest, common + seq![y] + other_rest),
        !text_less(common + seq![y] + other_rest, common + seq![x] + rest),
        text_less(common, common + seq![x] + rest),
        !text_less(common + seq![x] + rest, common),
        !text_less(common, common),
    decreases common.len(),
{
    let a = common + seq![x] + rest;
    let b = common + seq![y] + other_rest;
    if common.len() > 0 {
        let tail = common.skip(1);
        law_text_order(tail, x, rest, y, other_rest);
        assert(a.skip(1) =~= tail + seq![x] + rest);
        assert(b.skip(1) =~= tail + seq![y] + other_rest);
    }
}

/// Trimming takes white space from both ends, all of it, and nothing else.
pub proof fn law_trimming(before: Seq<char>, text: Seq<char>, after: Seq<char>)
    requires
        forall|i: int| 0 <= i < before.len() ==> white_space(#[trigger] before[i]),
        forall|i: int| 0 <= i < after.len() ==> white_space(#[trigger] after[i]),
        text.len() > 0 ==> !white_space(text[0]) && !white_space(text.last()),
    ensures
        trimmed(before + text + after) == text,
{
    lemma_trim_start(before, text + after);
    assert(before + text + after =~= before + (text + after));
    if text.len() > 0 {
        assert((text + after)[0] == text[0]);
        lemma_trim_end(text, after);
    } else {
        lemma_trim_start(after, Seq::empty());
        assert(text + after =~= after + Seq::empty());
        assert(trim_start(text + after) =~= Seq::empty());
    }
}

proof fn lemma_trim_start(before: Seq<char>, text: Seq<char>)
    requires
        forall|i: int| 0 <= i < before.len() ==> white_space(#[trigger] before[i]),
    ensures
        trim_start(before + text) == trim_start(text),
    decreases before.len(),
{
    if before.len() == 0 {
        assert(before + text =~= text);
    } else {
        assert(white_space(before[0]));
        assert((before + text).skip(1) =~= before.skip(1) + text);
        lemma_trim_start(before.skip(1), text);
    }
}

proof fn lemma_trim_end(text: Seq<char>, after: Seq<char>)
    requires
        forall|i: int| 0 <= i < after.len() ==> white_space(#[trigger] after[i]),
    ensures
        trim_end(text + after) == trim_end(text),
    decreases after.len(),
{
    if after.len() == 0 {
        assert(text + after =~= text);
    } else {
        assert(white_space(after[after.len() - 1]));
        assert((text + after).drop_last() =~= text + after.drop_last());
        lemma_trim_end(text, after.drop_last());
    }
}

/// The white space is that of the Unicode property White_Space.
pub proof fn law_white_space(c: char)
    ensures
        white_space(c) <==> (c == ' ' || '\t' <= c <= '\r' || c == '\u{85}' || c == '\u{a0}' || c
            == '\u{1680}' || '\u{2000}' <= c <= '\u{200a}' || c == '\u{2028}' || c == '\u{2029}'
            || c == '\u{202f}' || c == '\u{205f}' || c == '\u{3000}'),
{
}

/// Stripping takes the line feeds at the end, all of them, and nothing else.
pub proof fn law_line_feeds_are_stripped(text: Seq<char>, n: nat)
    requires
        text.len() > 0 ==> text.last() != '\n',
    ensures
        trim_end_newlines(text + Seq::new(n, |i: int| '\n')) == text,
    decreases n,
{
    let feeds = Seq::new(n, |i: int| '\n');
    if n == 0 {
        assert(text + feeds =~= text);
    } else {
        let fewer = Seq::new((n - 1) as nat, |i: int| '\n');
        assert((text + feeds).drop_last() =~= text + fewer);
        law_line_feeds_are_stripped(text, (n - 1) as nat);
    }
}

/// A text begins with a prefix where it is the prefix and some rest, and only there.
pub proof fn law_prefixes(text: Seq<char>, prefix: Seq<char>)
    ensures
        begins_with(prefix + text, prefix),
        begins_with(text, prefix) <==> exists|rest: Seq<char>| text == #[trigger] (prefix + rest),
{
    assert((prefix + text).take(prefix.len() as int) =~= prefix);
    if begins_with(text, prefix) {
        assert(text =~= prefix + text.skip(prefix.len() as int));
    }
    if exists|rest: Seq<char>| text == #[trigger] (prefix + rest) {
        let rest = choose|rest: Seq<char>| text == #[trigger] (prefix + rest);
        assert((prefix + rest).take(prefix.len() as int) =~= prefix);
    }
}

/// The texts of a list are its own, one for one; an optional text is there where its
/// value is.
pub proof fn law_texts_of_a_list(values: Seq<String>, value: String)
    ensures
        texts(values).len() == values.len(),
        forall|i: int| 0 <= i < values.len() ==> #[trigger] texts(values)[i] == values[i]@,
        opt_text(Some(value)) == Some(value@),
        opt_text(None) == None::<Seq<char>>,
{
}

} // verus!
