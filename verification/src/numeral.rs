//! Numbers as they are written: what a digit string denotes, and the
//! standard library's integer parsers stated over that.

use vstd::prelude::*;

verus! {

/// `std::num::ParseIntError`, handed on as the parsers give it; nothing is
/// read from it.
#[verifier::external_type_specification]
#[verifier::external_body]
pub struct ExParseIntError(std::num::ParseIntError);

/// The value of `c` as a digit in base `radix`: `0`-`9`, then the letters
/// in either case for ten and up.
pub open spec fn digit_value(c: char, radix: nat) -> Option<nat> {
    let v: int = if '0' <= c && c <= '9' {
        c as int - '0' as int
    } else if 'a' <= c && c <= 'z' {
        c as int - 'a' as int + 10
    } else if 'A' <= c && c <= 'Z' {
        c as int - 'A' as int + 10
    } else {
        -1
    };
    if 0 <= v && v < radix {
        Some(v as nat)
    } else {
        None
    }
}

/// The number that the digits `s` denote in base `radix`, most significant
/// digit first; `None` if one of them is no digit of that base.
pub open spec fn digits_value(s: Seq<char>, radix: nat) -> Option<nat>
    decreases s.len(),
{
    if s.len() == 0 {
        Some(0)
    } else {
        match (digits_value(s.drop_last(), radix), digit_value(s.last(), radix)) {
            (Some(high), Some(low)) => Some(high * radix + low),
            _ => None,
        }
    }
}

/// An unsigned numeral: an optional `+`, then at least one digit.
pub open spec fn unsigned_value(s: Seq<char>, radix: nat) -> Option<nat> {
    let digits = if s.len() > 0 && s[0] == '+' {
        s.skip(1)
    } else {
        s
    };
    if digits.len() == 0 {
        None
    } else {
        digits_value(digits, radix)
    }
}

/// A signed numeral: an optional `+` or `-`, then at least one digit.
pub open spec fn signed_value(s: Seq<char>, radix: nat) -> Option<int> {
    if s.len() > 0 && s[0] == '-' {
        let digits = s.skip(1);
        if digits.len() == 0 {
            None
        } else {
            match digits_value(digits, radix) {
                Some(v) => Some(-v),
                None => None,
            }
        }
    } else {
        match unsigned_value(s, radix) {
            Some(v) => Some(v as int),
            None => None,
        }
    }
}

/// What parsing `s` as a `usize` in base `radix` yields: the value of the
/// unsigned numeral, if it is one and the value fits.
pub open spec fn parsed_usize(s: Seq<char>, radix: nat) -> Option<usize> {
    match unsigned_value(s, radix) {
        Some(v) => if v <= usize::MAX {
            Some(v as usize)
        } else {
            None
        },
        None => None,
    }
}

/// What parsing `s` as an `i32` in base `radix` yields: the value of the
/// signed numeral, if it is one and the value fits.
pub open spec fn parsed_i32(s: Seq<char>, radix: nat) -> Option<i32> {
    match signed_value(s, radix) {
        Some(v) => if i32::MIN <= v && v <= i32::MAX {
            Some(v as i32)
        } else {
            None
        },
        None => None,
    }
}

/// `usize::from_str_radix`. Trusted: the standard library documents that it
/// accepts an optional `+` followed by digits of the base and nothing else,
/// fails on an empty string, a stray character or a value too large for the
/// type, and panics unless the base lies between 2 and 36.
#[verifier::external_body]
pub(crate) fn usize_from_str_radix(s: &str, radix: u32) -> (r: Result<usize, std::num::ParseIntError>)
    requires
        2 <= radix <= 36,
    ensures
        match r {
            Ok(v) => parsed_usize(s@, radix as nat) == Some(v),
            Err(_) => parsed_usize(s@, radix as nat) is None,
        },
{
    usize::from_str_radix(s, radix)
}

/// `i32::from_str_radix`. Trusted: as for the unsigned parser, with a
/// leading `-` accepted as well and the value held to the range of `i32`.
#[verifier::external_body]
pub(crate) fn i32_from_str_radix(s: &str, radix: u32) -> (r: Result<i32, std::num::ParseIntError>)
    requires
        2 <= radix <= 36,
    ensures
        match r {
            Ok(v) => parsed_i32(s@, radix as nat) == Some(v),
            Err(_) => parsed_i32(s@, radix as nat) is None,
        },
{
    i32::from_str_radix(s, radix)
}

/// The digit for `d` in upper-case hexadecimal.
pub open spec fn hex_digit(d: int) -> char {
    seq!['0', '1', '2', '3', '4', '5', '6', '7', '8', '9', 'A', 'B', 'C', 'D', 'E', 'F'][d]
}

/// `n` written in upper-case hexadecimal, without prefix or leading zeros.
pub open spec fn upper_hex(n: nat) -> Seq<char>
    decreases n,
{
    if n < 16 {
        seq![hex_digit(n as int)]
    } else {
        upper_hex(n / 16).push(hex_digit((n % 16) as int))
    }
}

fn hex_digit_text(d: usize) -> (text: &'static str)
    requires
        d < 16,
    ensures
        text@ == seq![hex_digit(d as int)],
{
    proof {
        reveal_strlit("0");
        reveal_strlit("1");
        reveal_strlit("2");
        reveal_strlit("3");
        reveal_strlit("4");
        reveal_strlit("5");
        reveal_strlit("6");
        reveal_strlit("7");
        reveal_strlit("8");
        reveal_strlit("9");
        reveal_strlit("A");
        reveal_strlit("B");
        reveal_strlit("C");
        reveal_strlit("D");
        reveal_strlit("E");
        reveal_strlit("F");
    }
    let text: &'static str = match d {
        0 => "0",
        1 => "1",
        2 => "2",
        3 => "3",
        4 => "4",
        5 => "5",
        6 => "6",
        7 => "7",
        8 => "8",
        9 => "9",
        10 => "A",
        11 => "B",
        12 => "C",
        13 => "D",
        14 => "E",
        _ => "F",
    };
    text
}

/// Writes `n` in upper-case hexadecimal.
pub fn to_upper_hex(n: usize) -> (text: String)
    ensures
        text@ == upper_hex(n as nat),
    decreases n,
{
    if n < 16 {
        String::from_str(hex_digit_text(n))
    } else {
        let mut text: String = to_upper_hex(n / 16);
        let digit: &'static str = hex_digit_text(n % 16);
        text.append(digit);
        text
    }
}

} // verus!
