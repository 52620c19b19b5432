//! Board engines for three tic-tac-toe variants: the classic 3x3 board, the
//! nested "ultimate" board of nine sub-boards, and a 3x3x3 cube. The engines
//! hold the board state, validate and apply moves, manage the turn, and
//! detect wins and draws; rendering and input live outside the crate.

pub mod board;
pub mod cubeboard;
pub mod notation;
pub mod piece;
pub mod ultiboard;

pub use piece::LoopState;
pub use piece::Piece;

use vstd::prelude::*;

use crate::board::end_of;
use crate::board::full;
use crate::board::winner_of;
use crate::board::Board;
use crate::board::EndGame;
use crate::ultiboard::meta_of;
use crate::ultiboard::settles_to;
use crate::ultiboard::BoardState;
use crate::ultiboard::UltimateBoard;

verus! {

/// One decision step of the classic game loop: whether the session has
/// ended. The loop exits exactly when the board is decided — a winner or a
/// cat's game — and continues while the verdict is `NotDone`.
pub fn tictactoe(board: &Board) -> (r: LoopState)
    requires
        board.wf(),
    ensures
        r == LoopState::Exit <==> end_of(board.cells()) != EndGame::NotDone,
{
    match board.win_check() {
        EndGame::Winner(winner) => match winner {
            Piece::X => LoopState::Exit,
            Piece::O => LoopState::Exit,
            _ => LoopState::Continue,
        },
        EndGame::CatsGame => LoopState::Exit,
        EndGame::NotDone => LoopState::Continue,
    }
}

/// One decision step of the ultimate game loop: settles the nested board
/// through its `win_check` and reports whether the session has ended. The
/// loop exits exactly when the settled meta board holds a winner or every
/// sub-board is won with no meta winner (the nested cat's game).
pub fn ultimate(board: &mut UltimateBoard) -> (r: LoopState)
    requires
        old(board).wf(),
    ensures
        final(board).wf(),
        settles_to(*old(board), *final(board)),
        r == LoopState::Exit <==> (winner_of(meta_of(*old(board))) != Piece::Empty || full(
            meta_of(*old(board)),
        )),
{
    match board.win_check() {
        BoardState::Winner(piece) => match piece {
            Piece::X => LoopState::Exit,
            Piece::O => LoopState::Exit,
            _ => LoopState::Continue,
        },
        BoardState::CatsGame => LoopState::Exit,
        BoardState::InPlay => LoopState::Continue,
    }
}

} // verus!
