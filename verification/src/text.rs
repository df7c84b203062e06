//! Strings as sequences of characters: searching, removing, trimming, cutting.

use vstd::prelude::*;
use vstd::string::*;
use vstd::utf8::*;

verus! {

/// `part` stands in `text` from position `at` on.
pub open spec fn occurs_at(text: Seq<char>, part: Seq<char>, at: int) -> bool {
    &&& 0 <= at
    &&& at + part.len() <= text.len()
    &&& text.subrange(at, at + part.len()) == part
}

/// `part` stands somewhere in `text`.
pub open spec fn contains_part(text: Seq<char>, part: Seq<char>) -> bool {
    exists|at: int| occurs_at(text, part, at)
}

/// `text` without the occurrences of `part` that a scan from the left meets.
/// What is left on both sides of a removed occurrence is not scanned again.
pub open spec fn removed(text: Seq<char>, part: Seq<char>) -> Seq<char>
    decreases text.len(),
{
    if part.len() == 0 || text.len() < part.len() {
        text
    } else if occurs_at(text, part, 0) {
        removed(text.skip(part.len() as int), part)
    } else {
        seq![text[0]] + removed(text.skip(1), part)
    }
}

/// The characters with Unicode's `White_Space` property.
pub open spec fn is_white_space(c: char) -> bool {
    let u = c as u32;
    ||| 0x9 <= u <= 0xd
    ||| u == 0x20
    ||| u == 0x85
    ||| u == 0xa0
    ||| u == 0x1680
    ||| 0x2000 <= u <= 0x200a
    ||| u == 0x2028
    ||| u == 0x2029
    ||| u == 0x202f
    ||| u == 0x205f
    ||| u == 0x3000
}

/// `text` from its first character that is not white space.
pub open spec fn trimmed_start(text: Seq<char>) -> Seq<char>
    decreases text.len(),
{
    if text.len() > 0 && is_white_space(text[0]) {
        trimmed_start(text.skip(1))
    } else {
        text
    }
}

/// `text` up to its last character that is not white space.
pub open spec fn trimmed_end(text: Seq<char>) -> Seq<char>
    decreases text.len(),
{
    if text.len() > 0 && is_white_space(text.last()) {
        trimmed_end(text.drop_last())
    } else {
        text
    }
}

/// `text` without the white space around it.
pub open spec fn trimmed(text: Seq<char>) -> Seq<char> {
    trimmed_end(trimmed_start(text))
}

/// The first `count` characters of `text`, or all of it where it is shorter.
pub open spec fn truncated(text: Seq<char>, count: int) -> Seq<char> {
    if text.len() <= count {
        text
    } else {
        text.take(count)
    }
}

/// The decimal digit for `d`.
pub open spec fn digit_char(d: nat) -> char {
    (('0' as u32) + d) as char
}

/// `n` in decimal, without leading zeros.
pub open spec fn decimal_text(n: nat) -> Seq<char>
    decreases n,
{
    if n < 10 {
        seq![digit_char(n)]
    } else {
        decimal_text(n / 10).push(digit_char(n % 10))
    }
}

/// `c` is one of the ten ASCII digits.
pub open spec fn is_digit(c: char) -> bool {
    '0' as u32 <= c as u32 <= '9' as u32
}

/// The number that a sequence of ASCII digits stands for.
pub open spec fn digits_value(digits: Seq<char>) -> nat
    decreases digits.len(),
{
    if digits.len() == 0 {
        0
    } else {
        digits_value(digits.drop_last()) * 10 + (digits.last() as u32 - '0' as u32) as nat
    }
}

/// `text` after a plus sign at its start, if one stands there.
pub open spec fn unsigned_part(text: Seq<char>) -> Seq<char> {
    if text.len() > 0 && text[0] == '+' {
        text.skip(1)
    } else {
        text
    }
}

/// The 64-bit number that `text` spells: an optional plus sign, then digits
/// and nothing else.
pub open spec fn spelled_u64(text: Seq<char>) -> Option<u64> {
    let digits = unsigned_part(text);
    if digits.len() > 0 && (forall|i: int| 0 <= i < digits.len() ==> is_digit(digits[i]))
        && digits_value(digits) <= u64::MAX {
        Some(digits_value(digits) as u64)
    } else {
        None
    }
}

/// The characters of `text`, in order.
pub fn chars_of(text: &str) -> (chars: Vec<char>)
    ensures
        chars@ == text@,
{
    let mut chars: Vec<char> = Vec::new();
    for c in iter: text.chars()
        invariant
            iter.seq() == text@,
            chars@ == text@.take(iter.index()),
    {
        chars.push(c);
        assert(chars@ =~= text@.take(iter.index() + 1));
    }
    assert(text@.take(text@.len() as int) =~= text@);
    chars
}

/// Whether the two strings hold the same characters.
pub fn same_text(left: &str, right: &str) -> (same: bool)
    ensures
        same == (left@ == right@),
{
    let a: &[u8] = left.as_bytes();
    let b: &[u8] = right.as_bytes();
    proof {
        encode_utf8_decode_utf8(left@);
        encode_utf8_decode_utf8(right@);
    }
    if a.len() != b.len() {
        return false;
    }
    let mut i: usize = 0;
    while i < a.len()
        invariant
            i <= a.len(),
            a.len() == b.len(),
            a@ == encode_utf8(left@),
            b@ == encode_utf8(right@),
            forall|j: int| 0 <= j < i ==> a@[j] == b@[j],
        decreases a.len() - i,
    {
        if a[i] != b[i] {
            return false;
        }
        i += 1;
    }
    assert(a@ =~= b@);
    true
}

/// Whether `part` stands in `text` from position `at` on.
fn stands_at(text: &Vec<char>, part: &Vec<char>, at: usize) -> (found: bool)
    requires
        at + part.len() <= text.len(),
    ensures
        found == occurs_at(text@, part@, at as int),
{
    let mut i: usize = 0;
    while i < part.len()
        invariant
            i <= part.len(),
            at + part.len() <= text.len(),
            forall|j: int| 0 <= j < i ==> text@[at + j] == part@[j],
        decreases part.len() - i,
    {
        if text[at + i] != part[i] {
            assert(text@.subrange(at as int, at + part@.len())[i as int] == text@[at + i]);
            return false;
        }
        i += 1;
    }
    assert(text@.subrange(at as int, at + part@.len()) =~= part@);
    true
}

/// Whether `part` stands somewhere in `text`.
pub fn contains_text(text: &str, part: &str) -> (found: bool)
    ensures
        found == contains_part(text@, part@),
{
    let whole: Vec<char> = chars_of(text);
    let sought: Vec<char> = chars_of(part);
    if sought.len() == 0 {
        assert(text@.subrange(0, 0) =~= part@);
        assert(occurs_at(text@, part@, 0));
        return true;
    }
    let mut at: usize = 0;
    while sought.len() <= whole.len() - at
        invariant
            whole@ == text@,
            sought@ == part@,
            sought.len() > 0,
            at <= whole.len(),
            forall|i: int| 0 <= i < at ==> !occurs_at(text@, part@, i),
        decreases whole.len() - at,
    {
        if stands_at(&whole, &sought, at) {
            return true;
        }
        at += 1;
    }
    assert(!contains_part(text@, part@));
    false
}

/// Characters that stand before a removed rest stay where they are.
proof fn lemma_pending(kept: Seq<char>, pending: Seq<char>, next: char, rest: Seq<char>)
    ensures
        kept + pending + (seq![next] + rest) == kept + pending.push(next) + rest,
{
    assert(kept + pending + (seq![next] + rest) =~= kept + pending.push(next) + rest);
}

/// `text` without the occurrences of `part`.
pub fn remove_all(text: &str, part: &str) -> (result: String)
    ensures
        result@ == removed(text@, part@),
{
    let whole: Vec<char> = chars_of(text);
    let sought: Vec<char> = chars_of(part);
    if sought.len() == 0 {
        return text.to_owned();
    }
    let mut result: String = String::new();
    let mut kept_from: usize = 0;
    let mut at: usize = 0;
    proof {
        assert(text@.skip(0) =~= text@);
        assert(result@ + text@.subrange(0, 0) + removed(text@.skip(0), part@) =~= removed(
            text@,
            part@,
        ));
    }
    while sought.len() <= whole.len() - at
        invariant
            whole@ == text@,
            sought@ == part@,
            sought.len() > 0,
            kept_from <= at <= whole.len(),
            result@ + text@.subrange(kept_from as int, at as int) + removed(
                text@.skip(at as int),
                part@,
            ) == removed(text@, part@),
        decreases whole.len() - at,
    {
        let ghost rest = text@.skip(at as int);
        assert(rest.subrange(0, part@.len() as int) =~= text@.subrange(
            at as int,
            at + part@.len(),
        ));
        if stands_at(&whole, &sought, at) {
            assert(occurs_at(rest, part@, 0));
            assert(rest.skip(part@.len() as int) =~= text@.skip(at + part@.len()));
            result.append(text.substring_char(kept_from, at));
            at += sought.len();
            kept_from = at;
            assert(text@.subrange(at as int, at as int) =~= Seq::<char>::empty());
            assert(result@ + Seq::<char>::empty() =~= result@);
        } else {
            assert(!occurs_at(rest, part@, 0));
            assert(rest.skip(1) =~= text@.skip(at + 1));
            proof {
                lemma_pending(
                    result@,
                    text@.subrange(kept_from as int, at as int),
                    text@[at as int],
                    removed(text@.skip(at + 1), part@),
                );
            }
            assert(text@.subrange(kept_from as int, at as int).push(text@[at as int])
                =~= text@.subrange(kept_from as int, at + 1));
            at += 1;
        }
    }
    assert(text@.subrange(kept_from as int, at as int) + text@.skip(at as int) =~= text@.subrange(
        kept_from as int,
        text@.len() as int,
    ));
    assert(result@ + text@.subrange(kept_from as int, at as int) + text@.skip(at as int)
        =~= result@ + text@.subrange(kept_from as int, text@.len() as int));
    result.append(text.substring_char(kept_from, whole.len()));
    result
}

/// Whether `c` is white space.
fn white_space(c: char) -> (yes: bool)
    ensures
        yes == is_white_space(c),
{
    let u: u32 = c as u32;
    (0x9 <= u && u <= 0xd) || u == 0x20 || u == 0x85 || u == 0xa0 || u == 0x1680 || (0x2000 <= u
        && u <= 0x200a) || u == 0x2028 || u == 0x2029 || u == 0x202f || u == 0x205f || u == 0x3000
}

/// `text` without the white space around it.
pub fn trim(text: &str) -> (result: String)
    ensures
        result@ == trimmed(text@),
{
    let chars: Vec<char> = chars_of(text);
    let mut from: usize = 0;
    assert(text@.skip(0) =~= text@);
    while from < chars.len() && white_space(chars[from])
        invariant
            chars@ == text@,
            from <= chars.len(),
            trimmed_start(text@.skip(from as int)) == trimmed_start(text@),
        decreases chars.len() - from,
    {
        assert(text@.skip(from as int).skip(1) =~= text@.skip(from + 1));
        from += 1;
    }
    let ghost tail = text@.skip(from as int);
    assert(trimmed_start(text@) == tail);
    let mut to: usize = chars.len();
    assert(text@.subrange(from as int, to as int) =~= tail);
    while to > from && white_space(chars[to - 1])
        invariant
            chars@ == text@,
            from <= to <= chars.len(),
            trimmed_end(text@.subrange(from as int, to as int)) == trimmed(text@),
        decreases to,
    {
        assert(text@.subrange(from as int, to as int).drop_last() =~= text@.subrange(
            from as int,
            to - 1,
        ));
        to -= 1;
    }
    text.substring_char(from, to).to_owned()
}

/// The first `count` characters of `text`, or all of it where it is shorter.
pub fn truncate(text: &str, count: usize) -> (result: String)
    ensures
        result@ == truncated(text@, count as int),
{
    if text.unicode_len() <= count {
        text.to_owned()
    } else {
        assert(text@.subrange(0, count as int) =~= text@.take(count as int));
        text.substring_char(0, count).to_owned()
    }
}

/// `first` followed by `second`.
pub fn joined(first: &str, second: &str) -> (result: String)
    ensures
        result@ == first@ + second@,
{
    let mut result: String = first.to_owned();
    result.append(second);
    result
}

/// The decimal digit for `d`.
fn digit_text(d: u64) -> (result: &'static str)
    requires
        d < 10,
    ensures
        result@ == seq![digit_char(d as nat)],
{
    proof {
        reveal_strlit("0");
        reveal_strlit("1");
        reveal_strlit("2");
        reveal_strlit("3");
        reveal_strlit("4");
        reveal_strlit("5");
        reveal_strlit("6");
        reveal_strlit("7");
        reveal_strlit("8");
        reveal_strlit("9");
    }
    let result: &'static str = if d == 0 {
        "0"
    } else if d == 1 {
        "1"
    } else if d == 2 {
        "2"
    } else if d == 3 {
        "3"
    } else if d == 4 {
        "4"
    } else if d == 5 {
        "5"
    } else if d == 6 {
        "6"
    } else if d == 7 {
        "7"
    } else if d == 8 {
        "8"
    } else {
        "9"
    };
    assert(result@ =~= seq![digit_char(d as nat)]);
    result
}

/// `n` in decimal.
pub fn decimal(n: u64) -> (result: String)
    ensures
        result@ == decimal_text(n as nat),
    decreases n,
{
    if n < 10 {
        digit_text(n).to_owned()
    } else {
        let mut result: String = decimal(n / 10);
        result.append(digit_text(n % 10));
        assert(result@ =~= decimal_text(n as nat));
        result
    }
}

/// More digits make no smaller number.
proof fn lemma_digits_grow(digits: Seq<char>, count: int)
    requires
        0 <= count <= digits.len(),
        forall|i: int| 0 <= i < digits.len() ==> is_digit(digits[i]),
    ensures
        digits_value(digits.take(count)) <= digits_value(digits),
    decreases digits.len(),
{
    if count == digits.len() {
        assert(digits.take(count) =~= digits);
    } else {
        lemma_digits_grow(digits.drop_last(), count);
        assert(digits.drop_last().take(count) =~= digits.take(count));
    }
}

/// The 64-bit number that `text` spells.
pub fn parse_u64(text: &str) -> (value: Option<u64>)
    ensures
        value == spelled_u64(text@),
{
    let chars: Vec<char> = chars_of(text);
    let start: usize = if chars.len() > 0 && chars[0] == '+' {
        1
    } else {
        0
    };
    let ghost digits = unsigned_part(text@);
    assert(digits =~= text@.skip(start as int));
    if start == chars.len() {
        return None;
    }
    let mut value: u64 = 0;
    let mut at: usize = start;
    while at < chars.len()
        invariant
            chars@ == text@,
            digits == text@.skip(start as int),
            digits == unsigned_part(text@),
            start <= at <= chars.len(),
            start <= 1,
            forall|i: int| 0 <= i < at - start ==> is_digit(digits[i]),
            value == digits_value(digits.take(at - start)),
        decreases chars.len() - at,
    {
        let c: u32 = chars[at] as u32;
        assert(digits[at - start] == text@[at as int]);
        if c < 48 || c > 57 {
            assert(!is_digit(digits[at - start]));
            return None;
        }
        let d: u64 = (c - 48) as u64;
        let ghost next = digits.take(at - start + 1);
        assert(next.drop_last() =~= digits.take(at - start));
        assert(digits_value(next) == value * 10 + d);
        if value > (0xffff_ffff_ffff_ffff - d) / 10 {
            proof {
                if forall|i: int| 0 <= i < digits.len() ==> is_digit(digits[i]) {
                    lemma_digits_grow(digits, at - start + 1);
                }
            }
            return None;
        }
        value = value * 10 + d;
        at += 1;
    }
    assert(digits.take(at - start) =~= digits);
    Some(value)
}

}
