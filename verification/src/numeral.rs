//! Decimal numerals: what it means for a text to read as a signed 32-bit
//! integer, and the parser that decides it.

use vstd::prelude::*;

verus! {

/// The ASCII code of `+`.
pub const ASCII_PLUS: u8 = 43;

/// The ASCII code of `-`.
pub const ASCII_MINUS: u8 = 45;

/// The ASCII code of `0`.
pub const ASCII_ZERO: u8 = 48;

/// The ASCII code of `9`.
pub const ASCII_NINE: u8 = 57;

/// True of the ten decimal digits `0` to `9`.
pub open spec fn is_decimal_digit(c: char) -> bool {
    '0' <= c && c <= '9'
}

/// The number that a decimal digit stands for; 0 for any other character.
pub open spec fn digit_value(c: char) -> nat {
    if is_decimal_digit(c) {
        (c as nat - '0' as nat) as nat
    } else {
        0
    }
}

/// True when every character of `s` is a decimal digit.
pub open spec fn all_decimal_digits(s: Seq<char>) -> bool {
    forall|i: int| 0 <= i < s.len() ==> is_decimal_digit(#[trigger] s[i])
}

/// The number that a run of decimal digits denotes, most significant first.
pub open spec fn decimal_value(digits: Seq<char>) -> nat
    decreases digits.len(),
{
    if digits.len() == 0 {
        0
    } else {
        decimal_value(digits.drop_last()) * 10 + digit_value(digits.last())
    }
}

/// True when `text` starts with a sign.
pub open spec fn has_sign(text: Seq<char>) -> bool {
    text.len() > 0 && (text[0] == '+' || text[0] == '-')
}

/// The digits of `text`: what follows the sign, if there is one.
pub open spec fn unsigned_part(text: Seq<char>) -> Seq<char> {
    if has_sign(text) {
        text.skip(1)
    } else {
        text
    }
}

/// The integer that `text` denotes before any range check.
pub open spec fn signed_value(text: Seq<char>) -> int {
    if text.len() > 0 && text[0] == '-' {
        -(decimal_value(unsigned_part(text)) as int)
    } else {
        decimal_value(unsigned_part(text)) as int
    }
}

/// The value of `text` read as a base-10 signed 32-bit integer: an optional
/// `+` or `-`, then at least one decimal digit and nothing else, the whole
/// within the range of `i32`. `None` for every other text.
pub open spec fn decimal_i32(text: Seq<char>) -> Option<i32> {
    if unsigned_part(text).len() > 0 && all_decimal_digits(unsigned_part(text))
        && i32::MIN <= signed_value(text) <= i32::MAX {
        Some(signed_value(text) as i32)
    } else {
        None
    }
}

/// More digits never denote less: a run is worth at least any of its
/// prefixes.
pub proof fn lemma_decimal_value_grows(digits: Seq<char>, k: int)
    requires
        0 <= k <= digits.len(),
    ensures
        decimal_value(digits.take(k)) <= decimal_value(digits),
    decreases digits.len() - k,
{
    if k == digits.len() {
        assert(digits.take(k) =~= digits);
    } else {
        lemma_decimal_value_grows(digits.drop_last(), k);
        assert(digits.drop_last().take(k) =~= digits.take(k));
    }
}

/// Reads `text` as a base-10 signed 32-bit integer.
pub fn parse_i32(text: &String) -> (r: Option<i32>)
    ensures
        r == decimal_i32(text@),
{
    let s = text.as_str();
    if !s.is_ascii() {
        assert(decimal_i32(s@) is None) by {
            if all_decimal_digits(unsigned_part(s@)) {
                assert forall|i: int| 0 <= i < s@.len() implies '\0' <= #[trigger] s@[i]
                    <= '\u{7f}' by {
                    if has_sign(s@) {
                        if i > 0 {
                            assert(s@[i] == unsigned_part(s@)[i - 1]);
                        }
                    } else {
                        assert(s@[i] == unsigned_part(s@)[i]);
                    }
                }
            }
        }
        return None;
    }
    proof {
        vstd::string::is_ascii_spec_bytes(s);
    }
    let bytes = s.as_bytes();
    let len = bytes.len();
    if len == 0 {
        return None;
    }
    let sign = bytes[0];
    let negative = sign == ASCII_MINUS;
    let start: usize = if sign == ASCII_PLUS || sign == ASCII_MINUS {
        1
    } else {
        0
    };
    let ghost digits = unsigned_part(s@);
    assert(digits.take(0) =~= Seq::<char>::empty());
    let mut magnitude: i64 = 0;
    let mut i = start;
    while i < len
        invariant
            s@ == text@,
            len == s@.len(),
            bytes@ == Seq::new(s@.len(), |i: int| s@[i] as u8),
            vstd::utf8::is_ascii_chars(s@),
            digits == unsigned_part(s@),
            digits.len() == len - start,
            start <= i <= len,
            all_decimal_digits(digits.take(i - start)),
            magnitude == decimal_value(digits.take(i - start)),
            magnitude <= 2147483648,
        decreases len - i,
    {
        let b = bytes[i];
        assert(s@[i as int] == digits[i - start]);
        if b < ASCII_ZERO || b > ASCII_NINE {
            assert(!is_decimal_digit(digits[i - start]));
            return None;
        }
        assert(digits.take(i + 1 - start).drop_last() =~= digits.take(i - start));
        magnitude = magnitude * 10 + (b - ASCII_ZERO) as i64;
        if magnitude > 2147483648 {
            proof {
                lemma_decimal_value_grows(digits, i + 1 - start);
            }
            return None;
        }
        i += 1;
    }
    assert(digits.take(len - start) =~= digits);
    if start == len {
        None
    } else if negative {
        Some((-magnitude) as i32)
    } else if magnitude == 2147483648 {
        None
    } else {
        Some(magnitude as i32)
    }
}

} // verus!
