//! Texts: whether one stands in another, and which number one spells.

use vstd::prelude::*;
use vstd::string::is_ascii_spec_bytes;
use vstd::utf8::encode_utf8;

verus! {

/// `needle` stands in `hay` starting at position `start`.
pub open spec fn occurs_at(needle: Seq<char>, hay: Seq<char>, start: int) -> bool {
    &&& 0 <= start
    &&& start + needle.len() <= hay.len()
    &&& hay.subrange(start, start + needle.len()) == needle
}

/// `needle` stands somewhere in `hay` as a run of consecutive characters.
/// The empty text stands in every text, and every text in itself.
pub open spec fn is_substring(needle: Seq<char>, hay: Seq<char>) -> bool {
    exists|start: int| occurs_at(needle, hay, start)
}

/// Every text contains itself.
pub proof fn lemma_substring_of_itself(text: Seq<char>)
    ensures
        is_substring(text, text),
{
    assert(text.subrange(0, text.len() as int) =~= text);
    assert(occurs_at(text, text, 0));
}

/// Trusted: `str::contains` with a string pattern. The standard library
/// documents it as true when the pattern matches a sub-slice of the text;
/// over the characters of two valid strings that is `is_substring`.
#[verifier::external_body]
pub(crate) fn contains(hay: &str, needle: &str) -> (found: bool)
    ensures
        found == is_substring(needle@, hay@),
{
    hay.contains(needle)
}

/// Whether a textual switch is on: only the exact text `true` turns one on.
pub fn flag_enabled(value: &String) -> (on: bool)
    ensures
        on == (value@ == "true"@),
{
    let wanted = String::from_str("true");
    *value == wanted
}

/// Whether a request for records asks for all of them rather than for one:
/// the identifier `0` stands for all.
pub fn selects_all(identifier: &String) -> (all: bool)
    ensures
        all == (identifier@ == "0"@),
{
    let wanted = String::from_str("0");
    *identifier == wanted
}

/// Whether `c` is one of the digits `0` to `9`.
pub open spec fn is_digit(c: char) -> bool {
    '0' <= c <= '9'
}

/// The number that a run of digits spells.
pub open spec fn digits_value(digits: Seq<char>) -> nat
    decreases digits.len(),
{
    if digits.len() == 0 {
        0
    } else {
        digits_value(digits.drop_last()) * 10 + (digits.last() as u32 - '0' as u32) as nat
    }
}

/// The digits of a decimal numeral: all of it but a leading sign.
pub open spec fn numeral_digits(text: Seq<char>) -> Seq<char> {
    if text.len() > 0 && (text[0] == '-' || text[0] == '+') {
        text.subrange(1, text.len() as int)
    } else {
        text
    }
}

/// The integer that `text` spells in decimal: an optional `+` or `-`, then
/// one digit or more and nothing else. Any other text spells none.
pub open spec fn integer_value(text: Seq<char>) -> Option<int> {
    let digits = numeral_digits(text);
    if digits.len() == 0 || !(forall|i: int| 0 <= i < digits.len() ==> is_digit(#[trigger] digits[i])) {
        None
    } else if text[0] == '-' {
        Some(-(digits_value(digits) as int))
    } else {
        Some(digits_value(digits) as int)
    }
}

/// What `parse_i64` returns for `text`: the integer it spells, where it
/// spells one that an `i64` holds.
pub open spec fn i64_value(text: Seq<char>) -> Option<i64> {
    match integer_value(text) {
        Some(value) => if i64::MIN <= value <= i64::MAX {
            Some(value as i64)
        } else {
            None
        },
        None => None,
    }
}

/// A run of digits spells no less than any of its beginnings.
proof fn lemma_digits_value_grows(digits: Seq<char>, upto: int)
    requires
        0 <= upto <= digits.len(),
        forall|i: int| 0 <= i < digits.len() ==> is_digit(#[trigger] digits[i]),
    ensures
        digits_value(digits.take(upto)) <= digits_value(digits),
    decreases digits.len() - upto,
{
    if upto == digits.len() {
        assert(digits.take(upto) =~= digits);
    } else {
        lemma_digits_value_grows(digits, upto + 1);
        assert(digits.take(upto + 1).drop_last() =~= digits.take(upto));
        assert(digits.take(upto + 1).last() == digits[upto]);
    }
}

/// Reads a decimal integer as `str::parse::<i64>` does: an optional sign
/// and digits, with nothing before, between or after; `None` for any other
/// text and for a number that an `i64` does not hold.
pub fn parse_i64(text: &str) -> (value: Option<i64>)
    ensures
        value == i64_value(text@),
{
    if !text.is_ascii() {
        proof {
            let digits = numeral_digits(text@);
            if digits.len() > 0 && (forall|i: int|
                0 <= i < digits.len() ==> is_digit(#[trigger] digits[i])) {
                assert forall|i: int| 0 <= i < text@.len() implies '\0' <= #[trigger] text@[i]
                    <= '\u{7f}' by {
                    if digits.len() == text@.len() {
                        assert(is_digit(digits[i]));
                    } else if i > 0 {
                        assert(is_digit(digits[i - 1]));
                    }
                }
            }
        }
        return None;
    }
    let bytes = text.as_bytes();
    proof {
        is_ascii_spec_bytes(text);
    }
    let length: usize = bytes.len();
    if length == 0 {
        return None;
    }
    let negative: bool = bytes[0] == 45;
    let signed: bool = negative || bytes[0] == 43;
    let start: usize = if signed {
        1
    } else {
        0
    };
    if start == length {
        return None;
    }
    let ghost digits = numeral_digits(text@);
    proof {
        assert(text@[0] as u8 == bytes@[0]);
        assert(signed == (text@[0] == '-' || text@[0] == '+'));
        assert(negative == (text@[0] == '-'));
        assert(digits.len() == length - start);
        assert(digits.take(0) =~= Seq::<char>::empty());
    }
    // The magnitude is gathered up to 2^63, which only the most negative
    // number reaches.
    let limit: u64 = 0x8000_0000_0000_0000;
    let mut gathered: u64 = 0;
    let mut at: usize = start;
    while at < length
        invariant
            start <= at <= length,
            length == bytes@.len(),
            length == text@.len(),
            digits == numeral_digits(text@),
            digits.len() == length - start,
            forall|i: int| 0 <= i < length ==> text@[i] as u8 == #[trigger] bytes@[i],
            forall|i: int| 0 <= i < length ==> '\0' <= #[trigger] text@[i] <= '\u{7f}',
            forall|i: int| 0 <= i < length - start ==> #[trigger] digits[i] == text@[i + start],
            forall|i: int| 0 <= i < at - start ==> is_digit(#[trigger] digits[i]),
            gathered == digits_value(digits.take(at - start)),
            gathered <= limit,
            limit == 0x8000_0000_0000_0000,
        decreases length - at,
    {
        let byte: u8 = bytes[at];
        proof {
            assert(text@[at as int] as u8 == bytes@[at as int]);
            assert(digits[at - start] == text@[at as int]);
        }
        if byte < 48 || byte > 57 {
            proof {
                assert(!is_digit(digits[at - start]));
            }
            return None;
        }
        let digit: u64 = (byte - 48) as u64;
        proof {
            let next = digits.take(at - start + 1);
            assert(next.drop_last() =~= digits.take(at - start));
            assert(next.last() == digits[at - start]);
            assert(is_digit(digits[at - start]));
        }
        if gathered > (limit - digit) / 10 {
            proof {
                let next = digits.take(at - start + 1);
                assert(digits_value(next) > limit);
                if forall|i: int| 0 <= i < digits.len() ==> is_digit(#[trigger] digits[i]) {
                    lemma_digits_value_grows(digits, at - start + 1);
                }
            }
            return None;
        }
        gathered = gathered * 10 + digit;
        at = at + 1;
    }
    proof {
        assert(digits.take(at - start) =~= digits);
    }
    if negative {
        if gathered == limit {
            Some(i64::MIN)
        } else {
            Some(-(gathered as i64))
        }
    } else if gathered == limit {
        None
    } else {
        Some(gathered as i64)
    }
}

/// Whether `byte` is one of the digits `0` to `9` in ASCII.
pub open spec fn is_digit_byte(byte: u8) -> bool {
    48 <= byte <= 57
}

/// Whether `bytes` holds nothing but digits in the `length` places from
/// `start` on.
pub open spec fn digit_run_at(bytes: Seq<u8>, start: int, length: int) -> bool {
    &&& 0 <= start
    &&& start + length <= bytes.len()
    &&& forall|i: int| start <= i < start + length ==> is_digit_byte(#[trigger] bytes[i])
}

/// Whether `bytes` holds `length` digits in a row somewhere.
pub open spec fn has_digit_run(bytes: Seq<u8>, length: int) -> bool {
    exists|start: int| digit_run_at(bytes, start, length)
}

/// Whether the bytes of `text`, which are its UTF-8 encoding, hold `length`
/// digits in a row somewhere.
pub fn holds_digit_run(text: &str, length: usize) -> (found: bool)
    ensures
        found == has_digit_run(encode_utf8(text@), length as int),
{
    let bytes = text.as_bytes();
    if length == 0 {
        assert(digit_run_at(bytes@, 0, 0));
        return true;
    }
    let mut run: usize = 0;
    let mut at: usize = 0;
    while at < bytes.len()
        invariant
            at <= bytes@.len(),
            bytes@ == encode_utf8(text@),
            length >= 1,
            run < length,
            run <= at,
            forall|i: int| at - run <= i < at ==> is_digit_byte(#[trigger] bytes@[i]),
            at - run > 0 ==> !is_digit_byte(bytes@[at - run - 1]),
            forall|start: int| start + length <= at ==> !digit_run_at(bytes@, start, length as int),
        decreases bytes@.len() - at,
    {
        let byte: u8 = bytes[at];
        if 48 <= byte && byte <= 57 {
            run = run + 1;
            if run == length {
                assert(digit_run_at(bytes@, at + 1 - length, length as int));
                return true;
            }
            assert forall|start: int| start + length <= at + 1 implies !digit_run_at(
                bytes@,
                start,
                length as int,
            ) by {
                if start + length == at + 1 && start >= 0 {
                    // the window reaches back beyond the digits counted so far
                    let before = at + 1 - run - 1;
                    assert(start <= before < start + length);
                    assert(!is_digit_byte(bytes@[before]));
                }
            }
        } else {
            run = 0;
            assert forall|start: int| start + length <= at + 1 implies !digit_run_at(
                bytes@,
                start,
                length as int,
            ) by {
                if start + length == at + 1 && start >= 0 {
                    assert(start <= at < start + length);
                    assert(!is_digit_byte(bytes@[at as int]));
                }
            }
        }
        at = at + 1;
    }
    assert forall|start: int| !digit_run_at(bytes@, start, length as int) by {
        if 0 <= start && start + length <= bytes@.len() {
            assert(start + length <= at);
        }
    }
    false
}

} // verus!
