//! Decimal numerals as they stand in configuration text.
//!
//! A numeral is an optional sign, `+` or `-`, and one or more ASCII digits,
//! with nothing before, between or after them.

use crate::config::{ConfigError, Setting};
use vstd::prelude::*;

verus! {

/// Whether `byte` is an ASCII digit.
pub open spec fn is_digit(byte: u8) -> bool {
    0x30 <= byte <= 0x39
}

/// Whether `byte` is an ASCII sign.
pub open spec fn is_sign(byte: u8) -> bool {
    byte == 0x2b || byte == 0x2d
}

/// The number that the digits of `digits` write in base ten.
pub open spec fn digits_value(digits: Seq<u8>) -> nat
    decreases digits.len(),
{
    if digits.len() == 0 {
        0
    } else {
        digits_value(digits.drop_last()) * 10 + (digits.last() - 0x30) as nat
    }
}

/// The text without its sign, if it has one.
pub open spec fn unsigned_part(text: Seq<u8>) -> Seq<u8> {
    if text.len() > 0 && is_sign(text[0]) {
        text.subrange(1, text.len() as int)
    } else {
        text
    }
}

/// Whether `text` is a numeral.
pub open spec fn is_numeral(text: Seq<u8>) -> bool {
    &&& unsigned_part(text).len() > 0
    &&& forall|i: int| 0 <= i < unsigned_part(text).len() ==> is_digit(unsigned_part(text)[i])
}

/// Whether `text` starts with a minus sign.
pub open spec fn is_negated(text: Seq<u8>) -> bool {
    text.len() > 0 && text[0] == 0x2d
}

/// What `text` gives as the value of `setting`: the number it writes, if it
/// is a numeral for a number from 1 to `limit`.
pub open spec fn positive_of(text: Seq<u8>, limit: u64, setting: Setting) -> Result<
    u64,
    ConfigError,
> {
    if !is_numeral(text) {
        Err(ConfigError::NotNumeric(setting))
    } else if is_negated(text) || digits_value(unsigned_part(text)) == 0 {
        Err(ConfigError::NotPositive(setting))
    } else if digits_value(unsigned_part(text)) > limit {
        Err(ConfigError::TooLarge(setting))
    } else {
        Ok(digits_value(unsigned_part(text)) as u64)
    }
}

/// One more digit multiplies the value by ten and adds the digit.
proof fn lemma_digits_value_step(text: Seq<u8>, from: int, to: int)
    requires
        0 <= from <= to < text.len(),
        is_digit(text[to]),
    ensures
        digits_value(text.subrange(from, to + 1)) == digits_value(text.subrange(from, to)) * 10 + (
        text[to] - 0x30),
{
    assert(text.subrange(from, to + 1).drop_last() =~= text.subrange(from, to));
}

/// Reads `text` as a value of `setting` that must lie from 1 to `limit`.
pub fn parse_positive(text: &[u8], limit: u64, setting: Setting) -> (r: Result<u64, ConfigError>)
    ensures
        r == positive_of(text@, limit, setting),
{
    let len: usize = text.len();
    let start: usize = if len > 0 && (text[0] == 0x2b || text[0] == 0x2d) {
        1
    } else {
        0
    };
    let negated: bool = len > 0 && text[0] == 0x2d;
    if start == len {
        return Err(ConfigError::NotNumeric(setting));
    }
    assert(unsigned_part(text@) =~= text@.subrange(start as int, len as int));
    let mut value: u64 = 0;
    let mut too_large: bool = false;
    let mut i: usize = start;
    while i < len
        invariant
            start <= i <= len,
            len == text@.len(),
            unsigned_part(text@) == text@.subrange(start as int, len as int),
            forall|j: int| start <= j < i ==> is_digit(text@[j]),
            !too_large ==> value == digits_value(text@.subrange(start as int, i as int)),
            !too_large ==> value <= limit,
            too_large ==> digits_value(text@.subrange(start as int, i as int)) > limit,
        decreases len - i,
    {
        let byte: u8 = text[i];
        if byte < 0x30 || byte > 0x39 {
            assert(!is_digit(unsigned_part(text@)[i - start]));
            return Err(ConfigError::NotNumeric(setting));
        }
        proof {
            lemma_digits_value_step(text@, start as int, i as int);
        }
        if !too_large {
            let next: u128 = (value as u128) * 10 + ((byte - 0x30) as u128);
            if next > limit as u128 {
                too_large = true;
            } else {
                value = next as u64;
            }
        }
        i = i + 1;
    }
    assert(text@.subrange(start as int, i as int) =~= unsigned_part(text@));
    assert(is_numeral(text@)) by {
        assert forall|j: int| 0 <= j < unsigned_part(text@).len() implies is_digit(
            unsigned_part(text@)[j],
        ) by {
            assert(unsigned_part(text@)[j] == text@[j + start]);
        }
    }
    if negated {
        Err(ConfigError::NotPositive(setting))
    } else if too_large {
        Err(ConfigError::TooLarge(setting))
    } else if value == 0 {
        Err(ConfigError::NotPositive(setting))
    } else {
        Ok(value)
    }
}

} // verus!
