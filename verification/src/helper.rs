//! Small pieces of input handling shared by the commands.

use crate::numeral::{parsed_usize, usize_from_str_radix};
use crate::text::text_eq;
use vstd::prelude::*;

verus! {

/// The number that a command argument denotes: hexadecimal after a leading
/// `x`, decimal otherwise.
pub open spec fn prefixed_usize(s: Seq<char>) -> Option<usize> {
    if s.len() >= 1 && s[0] == 'x' {
        parsed_usize(s.skip(1), 16)
    } else {
        parsed_usize(s, 10)
    }
}

/// Parses an address or a count as the user types it: `x3000` is
/// hexadecimal, `12288` decimal.
///
/// Succeeds exactly on the strings that `prefixed_usize` gives a value, and
/// returns that value.
pub fn parse_usize_with_prefix(s: &str) -> (r: Result<usize, std::num::ParseIntError>)
    ensures
        match r {
            Ok(v) => prefixed_usize(s@) == Some(v),
            Err(_) => prefixed_usize(s@) is None,
        },
{
    let n: usize = s.unicode_len();
    if n >= 1 && s.get_char(0) == 'x' {
        let digits = s.substring_char(1, n);
        usize_from_str_radix(digits, 16)
    } else {
        usize_from_str_radix(s, 10)
    }
}

/// The byte that ends the input typed ahead for the program.
pub const END_OF_INPUT: u8 = 23;

/// What to do with a character read from the terminal.
#[derive(Clone, Copy, Debug, PartialEq, Eq, Structural)]
pub struct KeyStep {
    /// Whether to warn that the character is outside ASCII.
    pub warn: bool,
    /// The byte to hand on, or `None` where the character ends the input.
    pub byte: Option<u8>,
}

/// The low eight bits of the character's code.
pub open spec fn low_byte(ch: char) -> u8 {
    (ch as u32 % 256) as u8
}

/// The step for `ch`: a character outside ASCII draws a warning and is
/// handed on all the same, as its low byte; the end-of-input byte ends the
/// input instead of being handed on.
pub open spec fn key_step(ch: char) -> KeyStep {
    KeyStep {
        warn: ch as u32 >= 128,
        byte: if low_byte(ch) == END_OF_INPUT {
            None
        } else {
            Some(low_byte(ch))
        },
    }
}

/// Decides what to do with a character read from the terminal.
pub fn next_key(ch: char) -> (step: KeyStep)
    ensures
        step == key_step(ch),
{
    let code: u32 = ch as u32;
    let byte: u8 = (code % 256) as u8;
    KeyStep {
        warn: code >= 128,
        byte: if byte == END_OF_INPUT {
            None
        } else {
            Some(byte)
        },
    }
}

/// The condition codes as the status line shows them: the letter of the
/// code that is set, negative before zero before positive.
pub fn condition_text(n: bool, z: bool) -> (text: &'static str)
    ensures
        text@ == if n {
            seq!['n', '_', '_']
        } else if z {
            seq!['_', 'z', '_']
        } else {
            seq!['_', '_', 'p']
        },
{
    proof {
        reveal_strlit("n__");
        reveal_strlit("_z_");
        reveal_strlit("__p");
    }
    if n {
        "n__"
    } else if z {
        "_z_"
    } else {
        "__p"
    }
}

/// What the user answered when asked to confirm.
#[derive(Clone, Copy, Debug, PartialEq, Eq, Structural)]
pub enum Answer {
    /// Go ahead.
    Yes,
    /// Leave everything as it is.
    No,
    /// Neither; ask again.
    Unclear,
}

/// Whether `text` is one of the ways to say yes.
pub open spec fn says_yes(text: Seq<char>) -> bool {
    ||| text == "y"@
    ||| text == "yes"@
    ||| text == "d"@
    ||| text == "dd"@
    ||| text == "ㅇ"@
    ||| text == "ㅇㅇ"@
    ||| text == "예"@
    ||| text == "네"@
}

/// Whether `text` is one of the ways to say no.
pub open spec fn says_no(text: Seq<char>) -> bool {
    ||| text == "n"@
    ||| text == "no"@
    ||| text == "s"@
    ||| text == "ss"@
    ||| text == "ㄴ"@
    ||| text == "ㄴㄴ"@
    ||| text == "아니오"@
    ||| text == "아뇨"@
}

/// Reads the answer to a request for confirmation. The answers are those
/// of an English and of a Korean keyboard, the latter also as the keys
/// give them without switching the layout.
pub fn read_answer(text: &str) -> (answer: Answer)
    ensures
        answer == if says_yes(text@) {
            Answer::Yes
        } else if says_no(text@) {
            Answer::No
        } else {
            Answer::Unclear
        },
{
    if text_eq(text, "y") || text_eq(text, "yes") || text_eq(text, "d") || text_eq(text, "dd")
        || text_eq(text, "ㅇ") || text_eq(text, "ㅇㅇ") || text_eq(
        text,
        "예",
    ) || text_eq(text, "네") {
        Answer::Yes
    } else if text_eq(text, "n") || text_eq(text, "no") || text_eq(text, "s") || text_eq(
        text,
        "ss",
    ) || text_eq(text, "ㄴ") || text_eq(text, "ㄴㄴ") || text_eq(
        text,
        "아니오",
    ) || text_eq(text, "아뇨") {
        Answer::No
    } else {
        Answer::Unclear
    }
}

} // verus!
