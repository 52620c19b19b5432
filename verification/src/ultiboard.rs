//! The nested ("ultimate") board: nine flat sub-boards, a focus selecting
//! the sub-board in play, and a meta-level win check.
//!
//! The focus is a single sum value, `Unselected` or `Selected(index)`; a
//! sub-board is active exactly when it equals the focus, and a sub-board
//! whose state is no longer `InPlay` is never focusable. When a sub-board is
//! found won, all nine of its cells are repainted with the winner's piece (a
//! deliberate visual-state rule); the nine sub-board outcomes are then folded
//! into two 9-bit meta masks and tested against the same winlines as the
//! flat engine.

use vstd::prelude::*;

use crate::board::compute_masks;
use crate::board::full;
use crate::board::lemma_masks_full;
use crate::board::scan_masks;
use crate::board::uniform;
use crate::board::uniform_vec;
use crate::board::winner_of;
use crate::board::BOARD_LEN;
use crate::piece::flip;
use crate::piece::Piece;

verus! {

/// The outcome of evaluating a sub-board, or the whole nested board.
#[derive(Clone, Copy, Debug, PartialEq, Eq, Structural)]
pub enum BoardState {
    InPlay,
    Winner(Piece),
    CatsGame,
}

/// The nested board's focus: which sub-board, if any, is in play.
#[derive(Clone, Copy, Debug, PartialEq, Eq, Structural)]
pub enum BoardSelection {
    Unselected,
    Selected(usize),
}

/// A recoverable failure of a nested-board move or selection.
#[derive(Clone, Copy, Debug, PartialEq, Eq, Structural)]
pub enum UltiError {
    OutOfBoundsError,
    SpaceTakenError,
}

pub type UltiResult<T> = Result<T, UltiError>;

/// The nested board: nine sub-boards (cells and recorded state), the focus,
/// and the turn, owned at the nested level.
pub struct UltimateBoard {
    boards: Vec<Vec<Piece>>,
    states: Vec<BoardState>,
    active_board: BoardSelection,
    turn: Piece,
}

/// A sub-board's recorded state agrees with its cells: a recorded winner has
/// painted the whole board, and a recorded draw means a full board.
pub open spec fn sub_wf(cells: Seq<Piece>, state: BoardState) -> bool {
    &&& cells.len() == 9
    &&& state matches BoardState::Winner(p) ==> (p == Piece::X || p == Piece::O) && cells
        == uniform(p)
    &&& state is CatsGame ==> full(cells)
}

/// The state a sub-board settles to when re-evaluated: a newly won board is
/// recorded `Winner`, a newly full board `CatsGame`, and a decided board
/// keeps its state.
pub open spec fn settled_state(cells: Seq<Piece>, state: BoardState) -> BoardState {
    if state is InPlay {
        if winner_of(cells) != Piece::Empty {
            BoardState::Winner(winner_of(cells))
        } else if full(cells) {
            BoardState::CatsGame
        } else {
            BoardState::InPlay
        }
    } else {
        state
    }
}

/// The cells a sub-board settles to: a newly won board is repainted with the
/// winner's piece; any other board keeps its cells.
pub open spec fn settled_cells(cells: Seq<Piece>, state: BoardState) -> Seq<Piece> {
    if state is InPlay && winner_of(cells) != Piece::Empty {
        uniform(winner_of(cells))
    } else {
        cells
    }
}

/// What one `win_check` call does to the nested board: every sub-board
/// settles, the turn is kept, and a focus resting on a now-decided sub-board
/// is forced back to `Unselected`.
pub open spec fn settles_to(pre: UltimateBoard, post: UltimateBoard) -> bool {
    &&& forall|i: int|
        0 <= i < 9 ==> #[trigger] post.board_cells(i) == settled_cells(
            pre.board_cells(i),
            pre.board_state(i),
        )
    &&& forall|i: int|
        0 <= i < 9 ==> #[trigger] post.board_state(i) == settled_state(
            pre.board_cells(i),
            pre.board_state(i),
        )
    &&& post.turn() == pre.turn()
    &&& post.focus_sel() == (match pre.focus_sel() {
        BoardSelection::Selected(s) => {
            if settled_state(pre.board_cells(s as int), pre.board_state(s as int)) is InPlay {
                BoardSelection::Selected(s)
            } else {
                BoardSelection::Unselected
            }
        },
        BoardSelection::Unselected => BoardSelection::Unselected,
    })
}

/// The meta board the settled sub-boards induce: entry `i` is the winner's
/// piece where sub-board `i` settles to `Winner`, else `Empty`.
pub open spec fn meta_of(pre: UltimateBoard) -> Seq<Piece> {
    Seq::new(
        9,
        |i: int|
            match settled_state(pre.board_cells(i), pre.board_state(i)) {
                BoardState::Winner(p) => p,
                _ => Piece::Empty,
            },
    )
}

/// Sub-board well-formedness carries over to a board with the same
/// sub-board contents.
proof fn lemma_sub_wf_transfer(a: UltimateBoard, b: UltimateBoard)
    requires
        forall|i: int| 0 <= i < 9 ==> sub_wf(a.board_cells(i), #[trigger] a.board_state(i)),
        forall|i: int| 0 <= i < 9 ==> #[trigger] b.board_cells(i) == a.board_cells(i),
        forall|i: int| 0 <= i < 9 ==> #[trigger] b.board_state(i) == a.board_state(i),
    ensures
        forall|i: int| 0 <= i < 9 ==> sub_wf(b.board_cells(i), #[trigger] b.board_state(i)),
{
    assert forall|i: int| 0 <= i < 9 implies sub_wf(
        b.board_cells(i),
        #[trigger] b.board_state(i),
    ) by {
        assert(b.board_cells(i) == a.board_cells(i));
        assert(sub_wf(a.board_cells(i), a.board_state(i)));
    }
}

impl UltimateBoard {
    /// Sub-board `i`'s nine cells.
    pub closed spec fn board_cells(&self, i: int) -> Seq<Piece> {
        self.boards@[i]@
    }

    /// Sub-board `i`'s recorded state.
    pub closed spec fn board_state(&self, i: int) -> BoardState {
        self.states@[i]
    }

    /// The focus.
    pub closed spec fn focus_sel(&self) -> BoardSelection {
        self.active_board
    }

    /// The piece that moves next.
    pub closed spec fn turn(&self) -> Piece {
        self.turn
    }

    /// There are nine sub-boards with nine recorded states.
    pub closed spec fn sized(&self) -> bool {
        self.boards@.len() == 9 && self.states@.len() == 9
    }

    /// Well-formedness: nine consistent sub-boards, a playable turn, and a
    /// focus that only ever rests on an in-play sub-board.
    pub open spec fn wf(&self) -> bool {
        &&& self.sized()
        &&& forall|i: int| 0 <= i < 9 ==> sub_wf(self.board_cells(i), #[trigger] self.board_state(i))
        &&& self.turn() != Piece::Empty
        &&& self.focus_sel() matches BoardSelection::Selected(s) ==> s < 9 && self.board_state(
            s as int,
        ) is InPlay
    }

    /// An empty nested board: nine empty in-play sub-boards, no focus, X to
    /// move.
    pub fn new() -> (u: UltimateBoard)
        ensures
            u.wf(),
            u.focus_sel() is Unselected,
            u.turn() == Piece::X,
            forall|i: int| 0 <= i < 9 ==> #[trigger] u.board_cells(i) == uniform(Piece::Empty),
            forall|i: int| 0 <= i < 9 ==> #[trigger] u.board_state(i) is InPlay,
    {
        let mut boards: Vec<Vec<Piece>> = Vec::new();
        let mut states: Vec<BoardState> = Vec::new();
        let mut i: usize = 0;
        while i < 9
            invariant
                boards@.len() == i,
                states@.len() == i,
                i <= 9,
                forall|j: int| 0 <= j < i ==> #[trigger] boards@[j]@ == uniform(Piece::Empty),
                forall|j: int| 0 <= j < i ==> #[trigger] states@[j] is InPlay,
            decreases 9 - i,
        {
            boards.push(uniform_vec(Piece::Empty));
            states.push(BoardState::InPlay);
            i = i + 1;
        }
        UltimateBoard { boards, states, active_board: BoardSelection::Unselected, turn: Piece::X }
    }

    /// Moves the focus. Selecting an index past 8 fails `OutOfBoundsError`
    /// and changes nothing. Selecting an in-play sub-board focuses it;
    /// selecting a decided sub-board is silently redirected to `Unselected`,
    /// as is selecting `Unselected`. Sub-boards and turn are never touched.
    pub fn focus(&mut self, board_index: BoardSelection) -> (r: UltiResult<()>)
        requires
            old(self).wf(),
        ensures
            final(self).wf(),
            forall|i: int|
                0 <= i < 9 ==> #[trigger] final(self).board_cells(i) == old(self).board_cells(i)
                    && final(self).board_state(i) == old(self).board_state(i),
            final(self).turn() == old(self).turn(),
            board_index matches BoardSelection::Selected(s) ==> ({
                &&& s > 8 ==> r == Err::<(), UltiError>(UltiError::OutOfBoundsError)
                    && final(self).focus_sel() == old(self).focus_sel()
                &&& s <= 8 && old(self).board_state(s as int) is InPlay ==> r == Ok::<
                    (),
                    UltiError,
                >(()) && final(self).focus_sel() == BoardSelection::Selected(s)
                &&& s <= 8 && !(old(self).board_state(s as int) is InPlay) ==> r == Ok::<
                    (),
                    UltiError,
                >(()) && final(self).focus_sel() is Unselected
            }),
            board_index is Unselected ==> r == Ok::<(), UltiError>(()) && final(self).focus_sel() is Unselected,
    {
        if let BoardSelection::Selected(s) = board_index {
            if s > BOARD_LEN {
                return Err(UltiError::OutOfBoundsError);
            }
            match self.states[s] {
                BoardState::InPlay => {},
                _ => {
                    self.active_board = BoardSelection::Unselected;
                    proof {
                        lemma_sub_wf_transfer(*old(self), *self);
                    }
                    return Ok(());
                },
            }
        }
        self.active_board = board_index;
        proof {
            lemma_sub_wf_transfer(*old(self), *self);
        }
        Ok(())
    }

    /// The current focus; a read-only accessor for renderers.
    pub fn get_focus(&self) -> (r: &BoardSelection)
        ensures
            *r == self.focus_sel(),
    {
        &self.active_board
    }

    /// Puts the current turn's piece on cell `space` of the focused
    /// sub-board. Calling with no focus is a caller contract violation,
    /// excluded by `requires`. Fails `OutOfBoundsError` past cell 8 and
    /// `SpaceTakenError` on an occupied cell; an error leaves the board
    /// untouched. Does not advance the turn.
    pub fn play(&mut self, space: usize) -> (r: UltiResult<()>)
        requires
            old(self).wf(),
            old(self).focus_sel() is Selected,
        ensures
            final(self).wf(),
            final(self).turn() == old(self).turn(),
            final(self).focus_sel() == old(self).focus_sel(),
            forall|i: int|
                0 <= i < 9 ==> #[trigger] final(self).board_state(i) == old(self).board_state(i),
            space > 8 ==> r == Err::<(), UltiError>(UltiError::OutOfBoundsError) && *final(self)
                == *old(self),
            space <= 8 && old(self).board_cells(old(self).focus_sel()->0 as int)[space as int]
                != Piece::Empty ==> r == Err::<(), UltiError>(UltiError::SpaceTakenError)
                && *final(self) == *old(self),
            space <= 8 && old(self).board_cells(old(self).focus_sel()->0 as int)[space as int]
                == Piece::Empty ==> r == Ok::<(), UltiError>(()) && final(self).board_cells(
                old(self).focus_sel()->0 as int,
            ) == old(self).board_cells(old(self).focus_sel()->0 as int).update(
                space as int,
                old(self).turn(),
            ) && (forall|i: int|
                0 <= i < 9 && i != old(self).focus_sel()->0 as int
                    ==> #[trigger] final(self).board_cells(i) == old(self).board_cells(i)),
    {
        if space > BOARD_LEN {
            return Err(UltiError::OutOfBoundsError);
        }
        let index: usize = match self.active_board {
            BoardSelection::Unselected => vstd::pervasive::unreached(),
            BoardSelection::Selected(s) => s,
        };
        proof {
            assert(sub_wf(self.board_cells(index as int), self.board_state(index as int)));
        }
        match self.boards[index][space] {
            Piece::Empty => {
                let piece = self.turn;
                self.boards[index][space] = piece;
                proof {
                    let i0 = index as int;
                    assert forall|i: int| 0 <= i < 9 && i != i0 implies #[trigger] self.board_cells(
                        i,
                    ) == old(self).board_cells(i) by {}
                    assert forall|i: int| 0 <= i < 9 implies #[trigger] self.board_state(i) == old(
                        self,
                    ).board_state(i) by {}
                    assert(self.board_cells(i0) == old(self).board_cells(i0).update(
                        space as int,
                        old(self).turn(),
                    ));
                    assert forall|i: int| 0 <= i < 9 implies sub_wf(
                        self.board_cells(i),
                        #[trigger] self.board_state(i),
                    ) by {
                        assert(sub_wf(old(self).board_cells(i), old(self).board_state(i)));
                        if i == i0 {
                            assert(old(self).board_state(i0) is InPlay);
                        }
                    }
                }
                Ok(())
            },
            _ => Err(UltiError::SpaceTakenError),
        }
    }

    /// The piece that moves next.
    pub fn get_turn(&self) -> (p: Piece)
        ensures
            p == self.turn(),
    {
        self.turn
    }

    /// Advances to the other mover: X to O, O to X.
    pub fn next_turn(&mut self)
        requires
            old(self).wf(),
        ensures
            final(self).wf(),
            final(self).turn() == flip(old(self).turn()),
            final(self).focus_sel() == old(self).focus_sel(),
            forall|i: int|
                0 <= i < 9 ==> #[trigger] final(self).board_cells(i) == old(self).board_cells(i)
                    && final(self).board_state(i) == old(self).board_state(i),
    {
        self.turn = match self.turn {
            Piece::X => Piece::O,
            Piece::O => Piece::X,
            _ => Piece::X,
        };
        proof {
            lemma_sub_wf_transfer(*old(self), *self);
        }
    }

    /// Sub-board `index`'s recorded state; a read-only accessor for
    /// renderers.
    pub fn get_board_state(&self, index: usize) -> (r: BoardState)
        requires
            self.wf(),
            index < 9,
        ensures
            r == self.board_state(index as int),
    {
        self.states[index]
    }

    /// The piece on cell `space` of sub-board `board`; a read-only accessor
    /// for renderers.
    pub fn get_space(&self, board: usize, space: usize) -> (p: Piece)
        requires
            self.wf(),
            board < 9,
            space < 9,
        ensures
            p == self.board_cells(board as int)[space as int],
    {
        proof {
            assert(sub_wf(self.board_cells(board as int), self.board_state(board as int)));
        }
        self.boards[board][space]
    }

    /// Settles sub-board `i`: records a fresh win (repainting the cells with
    /// the winner's piece) or a fresh draw; leaves a decided board alone.
    fn settle_board(&mut self, i: usize)
        requires
            old(self).sized(),
            i < 9,
            sub_wf(old(self).board_cells(i as int), old(self).board_state(i as int)),
        ensures
            final(self).sized(),
            final(self).board_cells(i as int) == settled_cells(
                old(self).board_cells(i as int),
                old(self).board_state(i as int),
            ),
            final(self).board_state(i as int) == settled_state(
                old(self).board_cells(i as int),
                old(self).board_state(i as int),
            ),
            sub_wf(final(self).board_cells(i as int), final(self).board_state(i as int)),
            forall|j: int|
                0 <= j < 9 && j != i ==> #[trigger] final(self).board_cells(j) == old(
                    self,
                ).board_cells(j) && final(self).board_state(j) == old(self).board_state(j),
            final(self).focus_sel() == old(self).focus_sel(),
            final(self).turn() == old(self).turn(),
    {
        match self.states[i] {
            BoardState::InPlay => {},
            _ => {
                return;
            },
        }
        let (xs, os) = compute_masks(&self.boards[i]);
        let ghost cells0 = self.boards@[i as int]@;
        let w = scan_masks(xs, os, Ghost(cells0));
        match w {
            Piece::X => {
                self.boards[i] = uniform_vec(Piece::X);
                self.states[i] = BoardState::Winner(Piece::X);
            },
            Piece::O => {
                self.boards[i] = uniform_vec(Piece::O);
                self.states[i] = BoardState::Winner(Piece::O);
            },
            Piece::Empty => {
                proof {
                    lemma_masks_full(xs, os, cells0);
                }
                if xs | os == 0b1_1111_1111 {
                    self.states[i] = BoardState::CatsGame;
                }
            },
        }
    }

    /// Re-evaluates every in-play sub-board (recording wins and draws and
    /// repainting won boards), forces the focus off a now-decided sub-board,
    /// and folds the sub-board outcomes into meta masks tested against the
    /// flat winlines: the nested board's own outcome.
    pub fn win_check(&mut self) -> (r: BoardState)
        requires
            old(self).wf(),
        ensures
            final(self).wf(),
            settles_to(*old(self), *final(self)),
            winner_of(meta_of(*old(self))) != Piece::Empty ==> r == BoardState::Winner(
                winner_of(meta_of(*old(self))),
            ),
            winner_of(meta_of(*old(self))) == Piece::Empty && full(meta_of(*old(self))) ==> r
                == BoardState::CatsGame,
            winner_of(meta_of(*old(self))) == Piece::Empty && !full(meta_of(*old(self))) ==> r
                == BoardState::InPlay,
    {
        let ghost pre = *self;
        let mut i: usize = 0;
        while i < 9
            invariant
                pre.wf(),
                self.sized(),
                i <= 9,
                forall|j: int|
                    0 <= j < i ==> #[trigger] self.board_cells(j) == settled_cells(
                        pre.board_cells(j),
                        pre.board_state(j),
                    ) && self.board_state(j) == settled_state(
                        pre.board_cells(j),
                        pre.board_state(j),
                    ),
                forall|j: int|
                    i <= j < 9 ==> #[trigger] self.board_cells(j) == pre.board_cells(j)
                        && self.board_state(j) == pre.board_state(j),
                forall|j: int|
                    0 <= j < 9 ==> sub_wf(self.board_cells(j), #[trigger] self.board_state(j)),
                self.focus_sel() == pre.focus_sel(),
                self.turn() == pre.turn(),
            decreases 9 - i,
        {
            let ghost prev = *self;
            proof {
                assert(prev.board_cells(i as int) == pre.board_cells(i as int));
                assert(prev.board_state(i as int) == pre.board_state(i as int));
                assert(sub_wf(prev.board_cells(i as int), prev.board_state(i as int)));
            }
            self.settle_board(i);
            proof {
                assert forall|j: int| 0 <= j < i as int + 1 implies #[trigger] self.board_cells(j)
                    == settled_cells(pre.board_cells(j), pre.board_state(j)) && self.board_state(j)
                    == settled_state(pre.board_cells(j), pre.board_state(j)) by {
                    if j == i as int {
                        assert(self.board_cells(j) == settled_cells(
                            prev.board_cells(j),
                            prev.board_state(j),
                        ));
                        assert(self.board_state(j) == settled_state(
                            prev.board_cells(j),
                            prev.board_state(j),
                        ));
                    } else {
                        assert(prev.board_cells(j) == settled_cells(
                            pre.board_cells(j),
                            pre.board_state(j),
                        ));
                        assert(prev.board_state(j) == settled_state(
                            pre.board_cells(j),
                            pre.board_state(j),
                        ));
                        assert(self.board_cells(j) == prev.board_cells(j));
                        assert(self.board_state(j) == prev.board_state(j));
                    }
                }
                assert forall|j: int| i as int + 1 <= j < 9 implies #[trigger] self.board_cells(j)
                    == pre.board_cells(j) && self.board_state(j) == pre.board_state(j) by {
                    assert(prev.board_cells(j) == pre.board_cells(j));
                    assert(prev.board_state(j) == pre.board_state(j));
                    assert(self.board_cells(j) == prev.board_cells(j));
                    assert(self.board_state(j) == prev.board_state(j));
                }
                assert forall|j: int| 0 <= j < 9 implies sub_wf(
                    self.board_cells(j),
                    #[trigger] self.board_state(j),
                ) by {
                    assert(sub_wf(prev.board_cells(j), prev.board_state(j)));
                    if j != i as int {
                        assert(self.board_cells(j) == prev.board_cells(j));
                        assert(self.board_state(j) == prev.board_state(j));
                    }
                }
                assert(self.focus_sel() == prev.focus_sel());
                assert(self.turn() == prev.turn());
            }
            i = i + 1;
        }
        let ghost after_settle = *self;
        if let BoardSelection::Selected(index) = self.active_board {
            match self.states[index] {
                BoardState::InPlay => {},
                _ => {
                    self.active_board = BoardSelection::Unselected;
                },
            }
        }
        proof {
            assert forall|j: int| 0 <= j < 9 implies #[trigger] self.board_cells(j)
                == settled_cells(pre.board_cells(j), pre.board_state(j)) && self.board_state(j)
                == settled_state(pre.board_cells(j), pre.board_state(j)) && sub_wf(
                self.board_cells(j),
                self.board_state(j),
            ) by {
                assert(after_settle.board_cells(j) == settled_cells(
                    pre.board_cells(j),
                    pre.board_state(j),
                ));
                assert(after_settle.board_state(j) == settled_state(
                    pre.board_cells(j),
                    pre.board_state(j),
                ));
                assert(sub_wf(after_settle.board_cells(j), after_settle.board_state(j)));
                assert(self.board_cells(j) == after_settle.board_cells(j));
                assert(self.board_state(j) == after_settle.board_state(j));
            }
            assert(self.turn() == after_settle.turn());
            if pre.focus_sel() is Selected {
                let s: usize = pre.focus_sel()->0;
                assert(after_settle.board_state(s as int) == settled_state(
                    pre.board_cells(s as int),
                    pre.board_state(s as int),
                ));
            }
            assert(forall|i: int|
                0 <= i < 9 ==> #[trigger] self.board_cells(i) == settled_cells(
                    pre.board_cells(i),
                    pre.board_state(i),
                ));
            assert(forall|i: int|
                0 <= i < 9 ==> #[trigger] self.board_state(i) == settled_state(
                    pre.board_cells(i),
                    pre.board_state(i),
                ));
            assert(self.turn() == pre.turn());
            assert(self.focus_sel() == (match pre.focus_sel() {
                BoardSelection::Selected(s) => {
                    if settled_state(
                        pre.board_cells(s as int),
                        pre.board_state(s as int),
                    ) is InPlay {
                        BoardSelection::Selected(s)
                    } else {
                        BoardSelection::Unselected
                    }
                },
                BoardSelection::Unselected => BoardSelection::Unselected,
            }));
            assert(settles_to(pre, *self));
        }
        let mut meta: Vec<Piece> = Vec::new();
        let mut j: usize = 0;
        while j < 9
            invariant
                pre.wf(),
                self.sized(),
                settles_to(pre, *self),
                forall|m: int|
                    0 <= m < 9 ==> sub_wf(self.board_cells(m), #[trigger] self.board_state(m)),
                j <= 9,
                meta@.len() == j,
                forall|m: int| 0 <= m < j ==> #[trigger] meta@[m] == meta_of(pre)[m],
            decreases 9 - j,
        {
            proof {
                assert(self.board_state(j as int) == settled_state(
                    pre.board_cells(j as int),
                    pre.board_state(j as int),
                ));
            }
            let ghost meta0 = meta@;
            match self.states[j] {
                BoardState::Winner(p) => meta.push(p),
                _ => meta.push(Piece::Empty),
            }
            proof {
                assert forall|m: int| 0 <= m < j as int + 1 implies #[trigger] meta@[m] == meta_of(
                    pre,
                )[m] by {
                    if m < j as int {
                        assert(meta0[m] == meta_of(pre)[m]);
                    }
                }
            }
            j = j + 1;
        }
        proof {
            assert(meta@ =~= meta_of(pre));
        }
        let (xg, og) = compute_masks(&meta);
        let w = scan_masks(xg, og, Ghost(meta@));
        match w {
            Piece::X => BoardState::Winner(Piece::X),
            Piece::O => BoardState::Winner(Piece::O),
            Piece::Empty => {
                proof {
                    lemma_masks_full(xg, og, meta@);
                }
                if xg | og == 0b1_1111_1111 {
                    BoardState::CatsGame
                } else {
                    BoardState::InPlay
                }
            },
        }
    }
}

/// A decided sub-board is frozen: a recorded `Winner(p)` means nine cells
/// uniformly `p` (a drawn board keeps its cells as they were), and the focus
/// never rests on a decided sub-board, so `play` — which requires a focused
/// sub-board — can never touch one.
pub proof fn lemma_decided_board_frozen(u: UltimateBoard, i: int)
    requires
        u.wf(),
        0 <= i < 9,
    ensures
        u.board_state(i) matches BoardState::Winner(p) ==> u.board_cells(i) == uniform(p),
        u.focus_sel() matches BoardSelection::Selected(s) && s as int == i ==> u.board_state(
            i,
        ) is InPlay,
{
    assert(sub_wf(u.board_cells(i), u.board_state(i)));
}

impl UltiError {
    /// The failure's display text.
    pub fn message(&self) -> (s: String)
        ensures
            *self == UltiError::SpaceTakenError ==> s@ == "There is already a piece there!"@,
            *self == UltiError::OutOfBoundsError ==> s@ == "That space does not exist!"@,
    {
        match self {
            UltiError::SpaceTakenError => String::from_str("There is already a piece there!"),
            UltiError::OutOfBoundsError => String::from_str("That space does not exist!"),
        }
    }
}

} // verus!
