//! The move-notation decoder: maps a trimmed lowercase token to board
//! indices.
//!
//! A flat or nested move is a row letter then a column digit ("b3"); a cube
//! move prefixes a layer letter ("xb3"). Every character is range-checked
//! before any arithmetic, so an out-of-range character is rejected rather
//! than underflowing; a missing character is read as an out-of-range one.

use vstd::prelude::*;

use crate::board::ROW_LEN;

verus! {

/// A malformed notation token.
#[derive(Clone, Copy, Debug, PartialEq, Eq, Structural)]
pub enum GameError {
    InvalidInputError,
}

pub type GameResult<T> = Result<T, GameError>;

/// `c` lies between `lo` and `hi` inclusive, by code point.
pub open spec fn char_between(c: char, lo: char, hi: char) -> bool {
    lo as u32 <= c as u32 <= hi as u32
}

/// The token begins with a row letter 'a'..'c' and a column digit '1'..'3'.
pub open spec fn flat_token_ok(s: Seq<char>) -> bool {
    s.len() >= 2 && char_between(s[0], 'a', 'c') && char_between(s[1], '1', '3')
}

/// The cell a well-formed flat token names, in row-major order.
pub open spec fn flat_index_of(s: Seq<char>) -> int {
    3 * (s[0] as u32 - 'a' as u32) + (s[1] as u32 - '1' as u32)
}

/// The token begins with a layer letter 'x'..'z', a row letter 'a'..'c',
/// and a column digit '1'..'3'.
pub open spec fn cube_token_ok(s: Seq<char>) -> bool {
    s.len() >= 3 && char_between(s[0], 'x', 'z') && char_between(s[1], 'a', 'c') && char_between(
        s[2],
        '1',
        '3',
    )
}

/// The layer a well-formed cube token names.
pub open spec fn cube_layer_of(s: Seq<char>) -> int {
    s[0] as u32 - 'x' as u32
}

/// The in-layer cell a well-formed cube token names, in row-major order.
pub open spec fn cube_index_of(s: Seq<char>) -> int {
    3 * (s[1] as u32 - 'a' as u32) + (s[2] as u32 - '1' as u32)
}

/// Decodes a flat-board token: `Ok(row * 3 + column)` exactly on well-formed
/// tokens (characters past the second are ignored), `InvalidInputError`
/// otherwise.
pub fn notation_to_index(input: &str) -> (r: GameResult<usize>)
    ensures
        flat_token_ok(input@) ==> r == Ok::<usize, GameError>(flat_index_of(input@) as usize),
        !flat_token_ok(input@) ==> r == Err::<usize, GameError>(GameError::InvalidInputError),
        r matches Ok(i) ==> i <= 8,
{
    let n = input.unicode_len();
    let row: char = if n >= 1 {
        input.get_char(0)
    } else {
        'z'
    };
    let col: char = if n >= 2 {
        input.get_char(1)
    } else {
        '9'
    };
    let row_v = row as u32;
    let col_v = col as u32;
    if row_v < 'a' as u32 || col_v < '1' as u32 {
        return Err(GameError::InvalidInputError);
    }
    let row_i = (row_v - 'a' as u32) as usize;
    let col_i = (col_v - '1' as u32) as usize;
    if row_i > ROW_LEN || col_i > ROW_LEN {
        return Err(GameError::InvalidInputError);
    }
    Ok(row_i * 3 + col_i)
}

/// Decodes a nested-board token, with the same rule as the flat decoder: a
/// sub-board or cell named by row letter and column digit.
pub fn notation_to_usize(input: &str) -> (r: GameResult<usize>)
    ensures
        flat_token_ok(input@) ==> r == Ok::<usize, GameError>(flat_index_of(input@) as usize),
        !flat_token_ok(input@) ==> r == Err::<usize, GameError>(GameError::InvalidInputError),
        r matches Ok(i) ==> i <= 8,
{
    let n = input.unicode_len();
    let row: char = if n >= 1 {
        input.get_char(0)
    } else {
        'z'
    };
    let col: char = if n >= 2 {
        input.get_char(1)
    } else {
        '9'
    };
    let row_v = row as u32;
    let col_v = col as u32;
    if row_v < 'a' as u32 || col_v < '1' as u32 {
        return Err(GameError::InvalidInputError);
    }
    let row_i = (row_v - 'a' as u32) as usize;
    let col_i = (col_v - '1' as u32) as usize;
    if row_i > ROW_LEN || col_i > ROW_LEN {
        return Err(GameError::InvalidInputError);
    }
    Ok(row_i * 3 + col_i)
}

/// Decodes a cube token: `Ok((layer, row * 3 + column))` exactly on
/// well-formed tokens (characters past the third are ignored),
/// `InvalidInputError` otherwise.
pub fn notation_to_layer_index(input: &str) -> (r: GameResult<(usize, usize)>)
    ensures
        cube_token_ok(input@) ==> r == Ok::<(usize, usize), GameError>(
            (cube_layer_of(input@) as usize, cube_index_of(input@) as usize),
        ),
        !cube_token_ok(input@) ==> r == Err::<(usize, usize), GameError>(
            GameError::InvalidInputError,
        ),
        r matches Ok(t) ==> t.0 <= 2 && t.1 <= 8,
{
    let n = input.unicode_len();
    let layer: char = if n >= 1 {
        input.get_char(0)
    } else {
        '{'
    };
    let row: char = if n >= 2 {
        input.get_char(1)
    } else {
        'z'
    };
    let col: char = if n >= 3 {
        input.get_char(2)
    } else {
        '9'
    };
    let layer_v = layer as u32;
    let row_v = row as u32;
    let col_v = col as u32;
    if layer_v < 'x' as u32 || row_v < 'a' as u32 || col_v < '1' as u32 {
        return Err(GameError::InvalidInputError);
    }
    let layer_i = (layer_v - 'x' as u32) as usize;
    let row_i = (row_v - 'a' as u32) as usize;
    let col_i = (col_v - '1' as u32) as usize;
    if layer_i > 2 || row_i > 2 || col_i > 2 {
        return Err(GameError::InvalidInputError);
    }
    Ok((layer_i, row_i * 3 + col_i))
}

/// The display name of sub-board or cell `i`; any index past 8 is named
/// "uh oh".
pub open spec fn notation_of(i: int) -> Seq<char> {
    if i == 0 {
        "A1"@
    } else if i == 1 {
        "A2"@
    } else if i == 2 {
        "A3"@
    } else if i == 3 {
        "B1"@
    } else if i == 4 {
        "B2"@
    } else if i == 5 {
        "B3"@
    } else if i == 6 {
        "c1"@
    } else if i == 7 {
        "c2"@
    } else if i == 8 {
        "c3"@
    } else {
        "uh oh"@
    }
}

/// Renders a sub-board or cell index back into notation, for prompts.
pub fn usize_to_notation(input: usize) -> (r: String)
    ensures
        r@ == notation_of(input as int),
{
    match input {
        0 => String::from_str("A1"),
        1 => String::from_str("A2"),
        2 => String::from_str("A3"),
        3 => String::from_str("B1"),
        4 => String::from_str("B2"),
        5 => String::from_str("B3"),
        6 => String::from_str("c1"),
        7 => String::from_str("c2"),
        8 => String::from_str("c3"),
        _ => String::from_str("uh oh"),
    }
}

impl GameError {
    /// The failure's display text.
    pub fn message(&self) -> (s: String)
        ensures
            s@ == "Invalid input!"@,
    {
        String::from_str("Invalid input!")
    }
}

} // verus!
