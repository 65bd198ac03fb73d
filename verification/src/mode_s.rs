//! The mode that a line of input selects: the number that the line spells
//! once the white space around it is taken away, and 0 for anything else.

use vstd::prelude::*;
use vstd::slice::slice_subrange;
use vstd::std_specs::iter::IteratorSpec;

verus! {

/// White space in the sense of Unicode's `White_Space` property.
pub open spec fn spec_is_whitespace(c: char) -> bool {
    let code = c as u32;
    ||| 0x09 <= code <= 0x0D
    ||| code == 0x20
    ||| code == 0x85
    ||| code == 0xA0
    ||| code == 0x1680
    ||| 0x2000 <= code <= 0x200A
    ||| code == 0x2028
    ||| code == 0x2029
    ||| code == 0x202F
    ||| code == 0x205F
    ||| code == 0x3000
}

/// `text` without the white space at its start.
pub open spec fn spec_trim_start(text: Seq<char>) -> Seq<char>
    decreases text.len(),
{
    if text.len() > 0 && spec_is_whitespace(text.first()) {
        spec_trim_start(text.drop_first())
    } else {
        text
    }
}

/// `text` without the white space at its end.
pub open spec fn spec_trim_end(text: Seq<char>) -> Seq<char>
    decreases text.len(),
{
    if text.len() > 0 && spec_is_whitespace(text.last()) {
        spec_trim_end(text.drop_last())
    } else {
        text
    }
}

/// `text` without the white space at either end.
pub open spec fn spec_trim(text: Seq<char>) -> Seq<char> {
    spec_trim_end(spec_trim_start(text))
}

/// The value of a decimal digit, and nothing for any other character.
pub open spec fn spec_digit(c: char) -> Option<nat> {
    let code = c as u32;
    if 0x30 <= code <= 0x39 {
        Some((code - 0x30) as nat)
    } else {
        None
    }
}

/// The number that a run of decimal digits spells; nothing if a character
/// of it is no digit. The empty run spells 0.
pub open spec fn spec_decimal(digits: Seq<char>) -> Option<nat>
    decreases digits.len(),
{
    if digits.len() == 0 {
        Some(0)
    } else {
        match (spec_decimal(digits.drop_last()), spec_digit(digits.last())) {
            (Some(value), Some(digit)) => Some(value * 10 + digit),
            _ => None,
        }
    }
}

/// The digits of a number as it is written: what follows one `+` at the
/// start, or all of it.
pub open spec fn spec_unsigned_part(text: Seq<char>) -> Seq<char> {
    if text.len() > 0 && text[0] == '+' {
        text.skip(1)
    } else {
        text
    }
}

/// The number that `text` spells: an optional `+`, then at least one
/// decimal digit and nothing else, with a value that fits 32 bits.
pub open spec fn spec_parse_u32(text: Seq<char>) -> Option<u32> {
    let digits = spec_unsigned_part(text);
    if digits.len() == 0 {
        None
    } else {
        match spec_decimal(digits) {
            Some(value) => if value <= u32::MAX {
                Some(value as u32)
            } else {
                None
            },
            None => None,
        }
    }
}

/// The mode that a line of input selects.
pub open spec fn spec_mode_select(input: Seq<char>) -> u32 {
    match spec_parse_u32(spec_trim(input)) {
        Some(mode) => mode,
        None => 0,
    }
}

/// A run of digits spells at least what any of its beginnings spells, and
/// spells nothing if one of its beginnings spells nothing.
pub proof fn lemma_decimal_prefix(digits: Seq<char>, k: int)
    requires
        0 <= k <= digits.len(),
    ensures
        spec_decimal(digits.take(k)) is None ==> spec_decimal(digits) is None,
        spec_decimal(digits) is Some ==> spec_decimal(digits.take(k)) is Some && spec_decimal(
            digits.take(k),
        )->0 <= spec_decimal(digits)->0,
    decreases digits.len() - k,
{
    if k < digits.len() {
        lemma_decimal_prefix(digits, k + 1);
        assert(digits.take(k + 1).drop_last() =~= digits.take(k));
    } else {
        assert(digits.take(k) =~= digits);
    }
}

/// Tells whether `c` is white space.
pub fn is_whitespace(c: char) -> (yes: bool)
    ensures
        yes == spec_is_whitespace(c),
{
    let code: u32 = c as u32;
    (0x09 <= code && code <= 0x0D) || code == 0x20 || code == 0x85 || code == 0xA0 || code
        == 0x1680 || (0x2000 <= code && code <= 0x200A) || code == 0x2028 || code == 0x2029
        || code == 0x202F || code == 0x205F || code == 0x3000
}

/// Reads an unsigned decimal number of at most 32 bits.
pub fn parse_u32(text: &[char]) -> (number: Option<u32>)
    ensures
        number == spec_parse_u32(text@),
{
    let start: usize = if text.len() > 0 && text[0] == '+' {
        1
    } else {
        0
    };
    let digits = slice_subrange(text, start, text.len());
    assert(digits@ =~= spec_unsigned_part(text@));
    if digits.len() == 0 {
        return None;
    }
    let mut value: u32 = 0;
    let mut i: usize = 0;
    assert(digits@.take(0) =~= Seq::<char>::empty());
    while i < digits.len()
        invariant
            i <= digits@.len(),
            digits@.len() > 0,
            digits@ == spec_unsigned_part(text@),
            spec_decimal(digits@.take(i as int)) == Some(value as nat),
        decreases digits@.len() - i,
    {
        let code: u32 = digits[i] as u32;
        proof {
            assert(digits@.take(i + 1).drop_last() =~= digits@.take(i as int));
            assert(digits@.take(i + 1).last() == digits@[i as int]);
            lemma_decimal_prefix(digits@, i + 1);
        }
        if code < 0x30 || code > 0x39 {
            return None;
        }
        let wide: u64 = value as u64 * 10 + (code - 0x30) as u64;
        if wide > u32::MAX as u64 {
            return None;
        }
        value = wide as u32;
        i = i + 1;
    }
    assert(digits@.take(i as int) =~= digits@);
    Some(value)
}

/// The characters of `input`, one by one.
fn characters(input: &str) -> (chars: Vec<char>)
    ensures
        chars@ == input@,
{
    let mut out: Vec<char> = Vec::new();
    let mut rest = input.chars();
    let ghost mut read: int = 0;
    assert(input@.skip(0) =~= input@);
    assert(input@.take(0) =~= Seq::<char>::empty());
    loop
        invariant
            0 <= read <= input@.len(),
            rest.obeys_prophetic_iter_laws(),
            rest.remaining() == input@.skip(read),
            out@ == input@.take(read),
        ensures
            out@ == input@,
        decreases input@.len() - read,
    {
        match rest.next() {
            Some(c) => {
                out.push(c);
                proof {
                    assert(input@.skip(read).drop_first() =~= input@.skip(read + 1));
                    assert(input@.take(read + 1) =~= input@.take(read).push(c));
                    read = read + 1;
                }
            },
            None => {
                assert(input@.take(read) =~= input@);
                break;
            },
        }
    }
    out
}

/// Selects the mode from a line of input: the number that the line spells
/// between the white space around it, and 0 if it spells none.
pub fn mode_select(input: &str) -> (mode: u32)
    ensures
        mode == spec_mode_select(input@),
{
    let chars = characters(input);
    let text = chars.as_slice();
    let mut start: usize = 0;
    assert(text@.skip(0) =~= text@);
    while start < text.len() && is_whitespace(text[start])
        invariant
            start <= text@.len(),
            spec_trim_start(text@) == spec_trim_start(text@.skip(start as int)),
        decreases text@.len() - start,
    {
        assert(text@.skip(start as int).drop_first() =~= text@.skip(start + 1));
        start = start + 1;
    }
    assert(spec_trim_start(text@) =~= text@.subrange(start as int, text@.len() as int));
    let mut end: usize = text.len();
    while end > start && is_whitespace(text[end - 1])
        invariant
            start <= end <= text@.len(),
            spec_trim(text@) == spec_trim_end(text@.subrange(start as int, end as int)),
        decreases end - start,
    {
        assert(text@.subrange(start as int, end as int).drop_last() =~= text@.subrange(
            start as int,
            end - 1,
        ));
        end = end - 1;
    }
    match parse_u32(slice_subrange(text, start, end)) {
        Some(mode) => mode,
        None => 0,
    }
}

} // verus!
