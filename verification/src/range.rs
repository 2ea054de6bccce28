//! The address range resolver: from a base address and a range token such
//! as `+10`, `-4` or `~x20` to the window of memory to show.

use crate::helper::{parse_usize_with_prefix, prefixed_usize};
use crate::symbol::ADDRESS_SPACE;
use crate::text::text_eq;
use vstd::prelude::*;

verus! {

/// Which way a window extends from its base address.
#[derive(Clone, Copy, Debug, PartialEq, Eq, Structural)]
pub enum Direction {
    /// `+`: the base and what follows it.
    Forward,
    /// `-`: the base and what precedes it.
    Backward,
    /// `~`: the base and what lies on either side.
    Around,
}

/// The extent of a window whose token names none.
pub const DEFAULT_EXTENT: usize = 10;

/// `x` held to the addresses of the machine, one past the last included.
pub open spec fn clamp_address(x: int) -> int {
    if x < 0 {
        0
    } else if x > ADDRESS_SPACE {
        ADDRESS_SPACE as int
    } else {
        x
    }
}

/// The window `[lower, upper)` that a base, a direction and an extent
/// select, before any address arithmetic can wrap: computed over the
/// integers, then clamped.
pub open spec fn window(base: int, direction: Direction, extent: int) -> (int, int) {
    match direction {
        Direction::Forward => (clamp_address(base), clamp_address(base + extent)),
        Direction::Backward => (clamp_address(base - extent + 1), clamp_address(base + 1)),
        Direction::Around => (clamp_address(base - extent), clamp_address(base + extent + 1)),
    }
}

fn clamp(x: i128) -> (r: usize)
    ensures
        r == clamp_address(x as int),
{
    if x < 0 {
        0
    } else if x > ADDRESS_SPACE as i128 {
        ADDRESS_SPACE
    } else {
        x as usize
    }
}

/// Resolves a window of memory. Where the arithmetic would leave the
/// address space at either end, the bound stops there instead.
pub fn resolve(base: usize, direction: Direction, extent: usize) -> (range: (usize, usize))
    ensures
        (range.0 as int, range.1 as int) == window(base as int, direction, extent as int),
        range.0 <= range.1 <= ADDRESS_SPACE,
{
    let base: i128 = base as i128;
    let extent: i128 = extent as i128;
    match direction {
        Direction::Forward => (clamp(base), clamp(base + extent)),
        Direction::Backward => (clamp(base - extent + 1), clamp(base + 1)),
        Direction::Around => (clamp(base - extent), clamp(base + extent + 1)),
    }
}

/// The direction that a sign stands for.
pub open spec fn direction_of(sign: char) -> Option<Direction> {
    if sign == '+' {
        Some(Direction::Forward)
    } else if sign == '-' {
        Some(Direction::Backward)
    } else if sign == '~' {
        Some(Direction::Around)
    } else {
        None
    }
}

/// Whether `c` is one of `0` to `9`.
pub open spec fn is_decimal_digit(c: char) -> bool {
    '0' <= c && c <= '9'
}

/// The sign of a range token: its first character, or `+` where the token
/// is empty or starts with its number.
pub open spec fn token_sign(token: Seq<char>) -> char {
    if token.len() == 0 || is_decimal_digit(token[0]) {
        '+'
    } else {
        token[0]
    }
}

/// The extent of a range token: the number after the sign, or the whole
/// token where it starts with a digit; the default where there is no
/// number. `None` where what stands there is no number.
pub open spec fn token_extent(token: Seq<char>) -> Option<usize> {
    if token.len() == 0 {
        Some(DEFAULT_EXTENT)
    } else if is_decimal_digit(token[0]) {
        prefixed_usize(token)
    } else if token.len() == 1 {
        Some(DEFAULT_EXTENT)
    } else {
        prefixed_usize(token.skip(1))
    }
}

/// Why a range token was refused.
#[derive(Debug)]
pub enum RangeTokenError {
    /// What follows the sign is no number.
    Extent(std::num::ParseIntError),
    /// The sign is none of `+`, `-` and `~`.
    Direction,
}

/// Reads a range token. A missing token is `+10`; a token without a sign
/// extends forward; a sign alone extends by ten.
///
/// The extent is examined before the sign, so a token that is wrong in
/// both is refused for its extent.
pub fn parse_range_token(token: Option<&str>) -> (r: Result<(Direction, usize), RangeTokenError>)
    ensures
        match r {
            Ok((direction, extent)) => match token {
                Some(text) => token_extent(text@) == Some(extent) && direction_of(
                    token_sign(text@),
                ) == Some(direction),
                None => direction == Direction::Forward && extent == DEFAULT_EXTENT,
            },
            Err(RangeTokenError::Extent(_)) => token matches Some(text) && token_extent(text@)
                is None,
            Err(RangeTokenError::Direction) => token matches Some(text) && token_extent(text@)
                is Some && direction_of(token_sign(text@)) is None,
        },
{
    let text: &str = match token {
        Some(text) => text,
        None => {
            return Ok((Direction::Forward, DEFAULT_EXTENT));
        },
    };
    let n: usize = text.unicode_len();
    if n == 0 {
        return Ok((Direction::Forward, DEFAULT_EXTENT));
    }
    let first: char = text.get_char(0);
    let sign: char = if '0' <= first && first <= '9' {
        '+'
    } else {
        first
    };
    let extent: usize = if '0' <= first && first <= '9' {
        match parse_usize_with_prefix(text) {
            Ok(extent) => extent,
            Err(e) => {
                return Err(RangeTokenError::Extent(e));
            },
        }
    } else if n == 1 {
        DEFAULT_EXTENT
    } else {
        let number: &str = text.substring_char(1, n);
        match parse_usize_with_prefix(number) {
            Ok(extent) => extent,
            Err(e) => {
                return Err(RangeTokenError::Extent(e));
            },
        }
    };
    if sign == '+' {
        Ok((Direction::Forward, extent))
    } else if sign == '-' {
        Ok((Direction::Backward, extent))
    } else if sign == '~' {
        Ok((Direction::Around, extent))
    } else {
        Err(RangeTokenError::Direction)
    }
}

/// Whether `text` is `pc` in either case of either letter.
pub open spec fn names_pc(text: Seq<char>) -> bool {
    &&& text.len() == 2
    &&& (text[0] == 'p' || text[0] == 'P')
    &&& (text[1] == 'c' || text[1] == 'C')
}

/// The base address that a token names: the program counter for `pc`,
/// else the number it holds.
pub open spec fn base_address(token: Seq<char>, pc: u16) -> Option<usize> {
    if names_pc(token) {
        Some(pc as usize)
    } else {
        prefixed_usize(token)
    }
}

/// Reads the base address of a memory window: `pc` for the program
/// counter, or an address in decimal or, after `x`, hexadecimal.
pub fn parse_base_address(token: &str, pc: u16) -> (r: Result<usize, std::num::ParseIntError>)
    ensures
        match r {
            Ok(addr) => base_address(token@, pc) == Some(addr),
            Err(_) => base_address(token@, pc) is None,
        },
{
    proof {
        reveal_strlit("pc");
        reveal_strlit("PC");
        reveal_strlit("pC");
        reveal_strlit("Pc");
    }
    let is_pc: bool = text_eq(token, "pc") || text_eq(token, "PC") || text_eq(token, "pC")
        || text_eq(token, "Pc");
    proof {
        if names_pc(token@) {
            assert(token@ =~= "pc"@ || token@ =~= "PC"@ || token@ =~= "pC"@ || token@ =~= "Pc"@);
        }
    }
    if is_pc {
        Ok(pc as usize)
    } else {
        parse_usize_with_prefix(token)
    }
}

} // verus!
