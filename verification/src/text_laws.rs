//! What holds of texts that are searched, shortened and read.

use crate::text::{
    contains_part, decimal_text, digit_char, digits_value, is_digit, is_white_space, occurs_at,
    removed, spelled_u64, trimmed, trimmed_end, trimmed_start, truncated, unsigned_part,
};
use vstd::prelude::*;

verus! {

/// All of the characters are white space.
pub open spec fn is_blank(text: Seq<char>) -> bool {
    forall|i: int| 0 <= i < text.len() ==> is_white_space(#[trigger] text[i])
}

/// All of the characters are digits.
pub open spec fn are_digits(text: Seq<char>) -> bool {
    forall|i: int| 0 <= i < text.len() ==> is_digit(#[trigger] text[i])
}

/// The blank at the start is taken off whole.
proof fn lemma_blank_start(blank: Seq<char>, rest: Seq<char>)
    requires
        is_blank(blank),
        rest.len() == 0 || !is_white_space(rest[0]),
    ensures
        trimmed_start(blank + rest) == rest,
    decreases blank.len(),
{
    if blank.len() > 0 {
        assert((blank + rest)[0] == blank[0]);
        assert((blank + rest).skip(1) =~= blank.skip(1) + rest);
        lemma_blank_start(blank.skip(1), rest);
    } else {
        assert(blank + rest =~= rest);
    }
}

/// The blank at the end is taken off whole.
proof fn lemma_blank_end(rest: Seq<char>, blank: Seq<char>)
    requires
        is_blank(blank),
        rest.len() == 0 || !is_white_space(rest.last()),
    ensures
        trimmed_end(rest + blank) == rest,
    decreases blank.len(),
{
    if blank.len() > 0 {
        assert((rest + blank).last() == blank[blank.len() - 1]);
        assert((rest + blank).drop_last() =~= rest + blank.drop_last());
        lemma_blank_end(rest, blank.drop_last());
    } else {
        assert(rest + blank =~= rest);
    }
}

/// The white space around a text is taken off, and nothing of the text itself.
pub proof fn only_the_white_space_around_is_taken_off(
    before: Seq<char>,
    core: Seq<char>,
    after: Seq<char>,
)
    requires
        is_blank(before),
        is_blank(after),
        core.len() == 0 || !is_white_space(core[0]) && !is_white_space(core.last()),
    ensures
        trimmed(before + core + after) == core,
{
    if core.len() == 0 {
        assert(before + core + after =~= (before + after) + Seq::<char>::empty());
        lemma_blank_start(before + after, Seq::empty());
        assert(core =~= Seq::<char>::empty());
    } else {
        assert(before + core + after =~= before + (core + after));
        lemma_blank_start(before, core + after);
        lemma_blank_end(core, after);
    }
}

/// White space is what Unicode calls so: the controls from tab to carriage
/// return, the space, the next-line control, the no-break space and the other
/// separators.
pub proof fn white_space_is_what_unicode_calls_so(c: char)
    ensures
        is_white_space(c) <==> seq![
            '\t',
            '\n',
            '\u{b}',
            '\u{c}',
            '\r',
            ' ',
            '\u{85}',
            '\u{a0}',
            '\u{1680}',
            '\u{2000}',
            '\u{2001}',
            '\u{2002}',
            '\u{2003}',
            '\u{2004}',
            '\u{2005}',
            '\u{2006}',
            '\u{2007}',
            '\u{2008}',
            '\u{2009}',
            '\u{200a}',
            '\u{2028}',
            '\u{2029}',
            '\u{202f}',
            '\u{205f}',
            '\u{3000}',
        ].contains(c),
{
    let all = seq![
        '\t',
        '\n',
        '\u{b}',
        '\u{c}',
        '\r',
        ' ',
        '\u{85}',
        '\u{a0}',
        '\u{1680}',
        '\u{2000}',
        '\u{2001}',
        '\u{2002}',
        '\u{2003}',
        '\u{2004}',
        '\u{2005}',
        '\u{2006}',
        '\u{2007}',
        '\u{2008}',
        '\u{2009}',
        '\u{200a}',
        '\u{2028}',
        '\u{2029}',
        '\u{202f}',
        '\u{205f}',
        '\u{3000}',
    ];
    if is_white_space(c) {
        let u = c as u32;
        let k: int = if 0x9 <= u <= 0xd {
            u - 0x9
        } else if u == 0x20 {
            5
        } else if u == 0x85 {
            6
        } else if u == 0xa0 {
            7
        } else if u == 0x1680 {
            8
        } else if 0x2000 <= u <= 0x200a {
            u - 0x2000 + 9
        } else if u == 0x2028 {
            20
        } else if u == 0x2029 {
            21
        } else if u == 0x202f {
            22
        } else if u == 0x205f {
            23
        } else {
            24
        };
        assert(all[k] == c);
    }
}

/// A part is found wherever it stands.
pub proof fn part_is_found_where_it_stands(before: Seq<char>, part: Seq<char>, after: Seq<char>)
    ensures
        contains_part(before + part + after, part),
{
    let text = before + part + after;
    assert(text.subrange(before.len() as int, (before.len() + part.len()) as int) =~= part);
    assert(occurs_at(text, part, before.len() as int));
}

/// A part that is found does stand in the text.
pub proof fn found_part_stands_in_the_text(text: Seq<char>, part: Seq<char>)
    requires
        contains_part(text, part),
    ensures
        exists|before: Seq<char>, after: Seq<char>| text == #[trigger] (before + part + after),
{
    let at = choose|at: int| occurs_at(text, part, at);
    let before = text.take(at);
    let after = text.skip(at + part.len());
    assert(text =~= before + text.subrange(at, at + part.len()) + after);
    assert(text == before + part + after);
}

/// Nothing is removed from a text that does not hold the part.
pub proof fn nothing_to_remove(text: Seq<char>, part: Seq<char>)
    requires
        !contains_part(text, part),
    ensures
        removed(text, part) == text,
    decreases text.len(),
{
    if part.len() > 0 && text.len() >= part.len() {
        assert(!occurs_at(text, part, 0));
        let rest = text.skip(1);
        assert forall|at: int| !occurs_at(rest, part, at) by {
            if occurs_at(rest, part, at) {
                assert(text.subrange(at + 1, at + 1 + part.len()) =~= rest.subrange(
                    at,
                    at + part.len(),
                ));
                assert(occurs_at(text, part, at + 1));
            }
        }
        nothing_to_remove(rest, part);
        assert(seq![text[0]] + rest =~= text);
    }
}

/// The first place where the part stands is closed up, and removing goes on
/// behind it. With [`nothing_to_remove`] this says of every text what is left
/// of it.
pub proof fn first_occurrence_is_taken_out(before: Seq<char>, part: Seq<char>, after: Seq<char>)
    requires
        part.len() > 0,
        forall|at: int|
            0 <= at < before.len() ==> !occurs_at(before + part + after, part, at),
    ensures
        removed(before + part + after, part) == before + removed(after, part),
    decreases before.len(),
{
    let text = before + part + after;
    if before.len() == 0 {
        assert(text.subrange(0, part.len() as int) =~= part);
        assert(text.skip(part.len() as int) =~= after);
        assert(before + removed(after, part) =~= removed(after, part));
    } else {
        let rest = before.skip(1);
        assert(text.skip(1) =~= rest + part + after);
        assert forall|at: int| 0 <= at < rest.len() implies !occurs_at(
            rest + part + after,
            part,
            at,
        ) by {
            assert((rest + part + after).subrange(at, at + part.len()) =~= text.subrange(
                at + 1,
                at + 1 + part.len(),
            ));
            assert(!occurs_at(text, part, at + 1));
        }
        first_occurrence_is_taken_out(rest, part, after);
        assert(!occurs_at(text, part, 0));
        assert(seq![text[0]] + (rest + removed(after, part)) =~= before + removed(after, part));
    }
}

/// Cutting keeps the front of a text, and as much of it as there is room for.
pub proof fn cutting_keeps_the_front(text: Seq<char>, count: nat)
    ensures
        truncated(text, count as int).is_prefix_of(text),
        truncated(text, count as int).len() == if text.len() < count {
            text.len()
        } else {
            count
        },
{
    let cut = truncated(text, count as int);
    assert(text.subrange(0, cut.len() as int) =~= cut);
}

/// The digits are the ten of ASCII.
pub proof fn digits_are_the_ten_of_ascii(c: char)
    ensures
        is_digit(c) <==> seq!['0', '1', '2', '3', '4', '5', '6', '7', '8', '9'].contains(c),
{
    let all = seq!['0', '1', '2', '3', '4', '5', '6', '7', '8', '9'];
    if is_digit(c) {
        assert(all[c as u32 - '0' as u32] == c);
    }
}

proof fn lemma_decimal(n: nat)
    ensures
        decimal_text(n).len() > 0,
        are_digits(decimal_text(n)),
        digits_value(decimal_text(n)) == n,
        n > 0 ==> decimal_text(n)[0] != '0',
    decreases n,
{
    let text = decimal_text(n);
    if n < 10 {
        assert(text.drop_last() =~= Seq::<char>::empty());
        assert(digits_value(text.drop_last()) == 0);
        assert(text.last() as u32 == '0' as u32 + n);
    } else {
        lemma_decimal(n / 10);
        assert(text.drop_last() =~= decimal_text(n / 10));
        assert(text.last() as u32 == '0' as u32 + n % 10);
        assert(text[0] == decimal_text(n / 10)[0]);
        assert forall|i: int| 0 <= i < text.len() implies is_digit(#[trigger] text[i]) by {
            if i < text.len() - 1 {
                assert(text[i] == decimal_text(n / 10)[i]);
            }
        }
    }
}

/// A number that is written is read back, unless it is too large for 64 bits.
pub proof fn written_number_is_read_back(n: nat)
    ensures
        n <= u64::MAX ==> spelled_u64(decimal_text(n)) == Some(n as u64),
        n > u64::MAX ==> spelled_u64(decimal_text(n)) is None,
{
    lemma_decimal(n);
    assert(is_digit(decimal_text(n)[0]));
}

/// A number is written in digits, and no zero stands before them.
pub proof fn number_is_written_in_digits(n: nat)
    ensures
        are_digits(decimal_text(n)),
        decimal_text(n).len() > 0,
        decimal_text(n).len() > 1 ==> decimal_text(n)[0] != '0',
{
    lemma_decimal(n);
}

/// A plus sign before a number changes nothing; a second one is no number.
pub proof fn plus_sign_changes_nothing(text: Seq<char>)
    ensures
        text.len() == 0 || text[0] != '+' ==> spelled_u64(seq!['+'] + text) == spelled_u64(text),
        text.len() > 0 && text[0] == '+' ==> spelled_u64(seq!['+'] + text) is None,
{
    assert((seq!['+'] + text).skip(1) =~= text);
    if text.len() > 0 && text[0] == '+' {
        assert(!is_digit(text[0]));
    }
}

/// Zeros before a number change nothing.
pub proof fn leading_zeros_change_nothing(digits: Seq<char>)
    requires
        digits.len() > 0,
        are_digits(digits),
    ensures
        spelled_u64(seq!['0'] + digits) == spelled_u64(digits),
{
    let longer = seq!['0'] + digits;
    lemma_zero_first(digits);
    assert(is_digit(digits[0]));
    assert forall|i: int| 0 <= i < longer.len() implies is_digit(#[trigger] longer[i]) by {
        if i > 0 {
            assert(longer[i] == digits[i - 1]);
        }
    }
}

proof fn lemma_zero_first(digits: Seq<char>)
    ensures
        digits_value(seq!['0'] + digits) == digits_value(digits),
    decreases digits.len(),
{
    let longer = seq!['0'] + digits;
    if digits.len() == 0 {
        assert(longer.drop_last() =~= Seq::<char>::empty());
        assert(digits_value(longer.drop_last()) == 0);
    } else {
        assert(longer.drop_last() =~= seq!['0'] + digits.drop_last());
        lemma_zero_first(digits.drop_last());
    }
}

/// What holds anything but digits, behind a sign at most, is no number; neither
/// is what holds no digit at all.
pub proof fn other_characters_make_no_number(text: Seq<char>, i: int)
    ensures
        0 <= i < text.len() && !is_digit(text[i]) && !(i == 0 && text[0] == '+')
            ==> spelled_u64(text) is None,
        text.len() == 0 ==> spelled_u64(text) is None,
{
    let digits = unsigned_part(text);
    if 0 <= i < text.len() && !is_digit(text[i]) && !(i == 0 && text[0] == '+') {
        if text[0] == '+' {
            assert(digits[i - 1] == text[i]);
        } else {
            assert(digits[i] == text[i]);
        }
    }
}

}
