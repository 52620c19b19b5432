//! The mark occupying a single cell, and the turn-alternation rule.

use vstd::prelude::*;

verus! {

/// A cell's mark. `Empty` is the unoccupied sentinel; it is never a winner
/// and never a valid turn.
#[derive(Clone, Copy, Debug, PartialEq, Eq, Structural)]
pub enum Piece {
    X,
    O,
    Empty,
}

/// Whether the outer game loop keeps running.
#[derive(Clone, Copy, Debug, PartialEq, Eq, Structural)]
pub enum LoopState {
    Continue,
    Exit,
}

/// The strict X/O alternation: the mover after `p` has moved.
pub open spec fn flip(p: Piece) -> Piece {
    match p {
        Piece::X => Piece::O,
        Piece::O => Piece::X,
        Piece::Empty => Piece::Empty,
    }
}

/// The mover after `n` completed turns of a game that starts at X.
pub open spec fn turn_after(n: nat) -> Piece
    decreases n,
{
    if n == 0 {
        Piece::X
    } else {
        flip(turn_after((n - 1) as nat))
    }
}

/// Turn alternation: starting at X, after `n` turns the mover is X exactly
/// when `n` is even, and O exactly when `n` is odd.
pub proof fn lemma_turn_alternation(n: nat)
    ensures
        turn_after(n) == if n % 2 == 0 {
            Piece::X
        } else {
            Piece::O
        },
    decreases n,
{
    if n > 0 {
        lemma_turn_alternation((n - 1) as nat);
    }
}

} // verus!
