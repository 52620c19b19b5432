//! The flat 3x3 board: move application, turn management, and bit-parallel
//! win detection.
//!
//! The nine cells are encoded into a 9-bit mask per colour, scanning cell 0
//! to cell 8 with a left shift before each new low bit, so cell 0 lands on
//! bit 8 and cell 8 on bit 0. Eight fixed winline masks (three rows, then
//! three columns, then the two diagonals) are tested against each colour's
//! mask; a line is won exactly when `mask & winline == winline`.

use vstd::prelude::*;

use crate::piece::Piece;
use vstd::arithmetic::power2::lemma2_to64;
use vstd::arithmetic::power2::lemma_pow2_strictly_increases;
use vstd::arithmetic::power2::pow2;

verus! {

/// Largest valid cell index of a flat board.
pub const BOARD_LEN: usize = 8;

/// Largest valid row or column index of a flat board.
pub const ROW_LEN: usize = 2;

/// A recoverable failure of a flat-board move.
#[derive(Clone, Copy, Debug, PartialEq, Eq, Structural)]
pub enum BoardError {
    SpaceTakenError,
    OutOfBoundsError,
}

/// The outcome of evaluating a flat board.
#[derive(Clone, Copy, Debug, PartialEq, Eq, Structural)]
pub enum EndGame {
    Winner(Piece),
    CatsGame,
    NotDone,
}

/// A flat board: nine cells in row-major order, owning the current turn.
pub struct Board {
    spaces: Vec<Piece>,
    turn: Piece,
}

/// Nine cells all holding `p`.
pub open spec fn uniform(p: Piece) -> Seq<Piece> {
    Seq::new(9, |i: int| p)
}

/// Every cell is occupied.
pub open spec fn full(s: Seq<Piece>) -> bool {
    forall|i: int| 0 <= i < s.len() ==> s[i] != Piece::Empty
}

/// The cells of winline `k`, in the order the engine scans the lines:
/// three rows, then three columns, then the two diagonals.
pub open spec fn line_won(s: Seq<Piece>, k: int, p: Piece) -> bool {
    if k == 0 {
        s[0] == p && s[1] == p && s[2] == p
    } else if k == 1 {
        s[3] == p && s[4] == p && s[5] == p
    } else if k == 2 {
        s[6] == p && s[7] == p && s[8] == p
    } else if k == 3 {
        s[0] == p && s[3] == p && s[6] == p
    } else if k == 4 {
        s[1] == p && s[4] == p && s[7] == p
    } else if k == 5 {
        s[2] == p && s[5] == p && s[8] == p
    } else if k == 6 {
        s[0] == p && s[4] == p && s[8] == p
    } else {
        s[2] == p && s[4] == p && s[6] == p
    }
}

/// Some row, column, or diagonal is entirely `p`.
pub open spec fn wins(s: Seq<Piece>, p: Piece) -> bool {
    exists|k: int| 0 <= k < 8 && line_won(s, k, p)
}

/// The first winner found scanning winlines `k..8`, testing X before O on
/// each line; `Empty` when no line from `k` on is won.
pub open spec fn scan_winner(s: Seq<Piece>, k: int) -> Piece
    decreases 8 - k,
{
    if k >= 8 {
        Piece::Empty
    } else if line_won(s, k, Piece::X) {
        Piece::X
    } else if line_won(s, k, Piece::O) {
        Piece::O
    } else {
        scan_winner(s, k + 1)
    }
}

/// The winner the engine reports for cells `s`: the first winning colour in
/// scan order, or `Empty` when no line is won.
pub open spec fn winner_of(s: Seq<Piece>) -> Piece {
    scan_winner(s, 0)
}

/// The outcome the flat engine reports for cells `s`.
pub open spec fn end_of(s: Seq<Piece>) -> EndGame {
    if winner_of(s) != Piece::Empty {
        EndGame::Winner(winner_of(s))
    } else if full(s) {
        EndGame::CatsGame
    } else {
        EndGame::NotDone
    }
}

/// The colour mask of the first `n` cells: each step shifts the accumulator
/// left and sets the low bit when the cell holds `p`.
pub open spec fn mask_prefix(s: Seq<Piece>, p: Piece, n: int) -> int
    decreases n,
{
    if n <= 0 {
        0
    } else {
        2 * mask_prefix(s, p, n - 1) + (if s[n - 1] == p {
            1int
        } else {
            0int
        })
    }
}

/// The 9-bit colour mask of a full board: bit `8 - i` is set exactly when
/// cell `i` holds `p`.
pub open spec fn mask_of(s: Seq<Piece>, p: Piece) -> int {
    mask_prefix(s, p, 9)
}

/// Winline `k`'s mask, under the cell-0-at-bit-8 encoding.
pub open spec fn win_mask(k: int) -> u16 {
    if k == 0 {
        0b1_1100_0000
    } else if k == 1 {
        0b0_0011_1000
    } else if k == 2 {
        0b0_0000_0111
    } else if k == 3 {
        0b1_0010_0100
    } else if k == 4 {
        0b0_1001_0010
    } else if k == 5 {
        0b0_0100_1001
    } else if k == 6 {
        0b1_0001_0001
    } else {
        0b0_0101_0100
    }
}

/// The single-bit mask of cell `i`.
pub open spec fn cell_mask(i: int) -> u16 {
    if i == 0 {
        0b1_0000_0000
    } else if i == 1 {
        0b0_1000_0000
    } else if i == 2 {
        0b0_0100_0000
    } else if i == 3 {
        0b0_0010_0000
    } else if i == 4 {
        0b0_0001_0000
    } else if i == 5 {
        0b0_0000_1000
    } else if i == 6 {
        0b0_0000_0100
    } else if i == 7 {
        0b0_0000_0010
    } else {
        0b0_0000_0001
    }
}

/// Mask `m` contains every bit of winline `k`.
pub open spec fn line_hit(m: u16, k: int) -> bool {
    m & win_mask(k) == win_mask(k)
}

/// Mask `m` contains cell `i`'s bit.
pub open spec fn cell_hit(m: u16, i: int) -> bool {
    m & cell_mask(i) == cell_mask(i)
}

/// 1 when cell `i` holds `p`, else 0.
pub open spec fn pbit(s: Seq<Piece>, p: Piece, i: int) -> int {
    if s[i] == p {
        1
    } else {
        0
    }
}

/// A full-board colour mask is the weighted sum of its nine cell bits,
/// cell 0 carrying the highest weight.
proof fn lemma_mask_decomposition(s: Seq<Piece>, p: Piece)
    requires
        s.len() == 9,
    ensures
        mask_of(s, p) == 256 * pbit(s, p, 0) + 128 * pbit(s, p, 1) + 64 * pbit(s, p, 2) + 32
            * pbit(s, p, 3) + 16 * pbit(s, p, 4) + 8 * pbit(s, p, 5) + 4 * pbit(s, p, 6) + 2
            * pbit(s, p, 7) + pbit(s, p, 8),
{
    assert(mask_prefix(s, p, 0) == 0);
    assert(mask_prefix(s, p, 1) == 2 * mask_prefix(s, p, 0) + pbit(s, p, 0));
    assert(mask_prefix(s, p, 2) == 2 * mask_prefix(s, p, 1) + pbit(s, p, 1));
    assert(mask_prefix(s, p, 3) == 2 * mask_prefix(s, p, 2) + pbit(s, p, 2));
    assert(mask_prefix(s, p, 4) == 2 * mask_prefix(s, p, 3) + pbit(s, p, 3));
    assert(mask_prefix(s, p, 5) == 2 * mask_prefix(s, p, 4) + pbit(s, p, 4));
    assert(mask_prefix(s, p, 6) == 2 * mask_prefix(s, p, 5) + pbit(s, p, 5));
    assert(mask_prefix(s, p, 7) == 2 * mask_prefix(s, p, 6) + pbit(s, p, 6));
    assert(mask_prefix(s, p, 8) == 2 * mask_prefix(s, p, 7) + pbit(s, p, 7));
    assert(mask_prefix(s, p, 9) == 2 * mask_prefix(s, p, 8) + pbit(s, p, 8));
}

/// A colour mask of `n` cells fits in `n` bits.
proof fn lemma_mask_prefix_bound(s: Seq<Piece>, p: Piece, n: int)
    requires
        0 <= n,
    ensures
        0 <= mask_prefix(s, p, n) < pow2(n as nat),
    decreases n,
{
    if n > 0 {
        lemma_mask_prefix_bound(s, p, n - 1);
        vstd::arithmetic::power2::lemma_pow2_unfold(n as nat);
    } else {
        lemma2_to64();
    }
}

/// A full-board colour mask decides winlines and single cells: `m` covers
/// winline `k` exactly when the line's three cells hold `p`, and covers cell
/// `i`'s bit exactly when that cell holds `p`.
#[verifier::rlimit(100)]
pub(crate) proof fn lemma_mask_lines(m: u16, s: Seq<Piece>, p: Piece)
    requires
        s.len() == 9,
        m == mask_of(s, p),
    ensures
        forall|k: int| 0 <= k < 8 ==> (#[trigger] line_hit(m, k) <==> line_won(s, k, p)),
        forall|i: int| 0 <= i < 9 ==> (#[trigger] cell_hit(m, i) <==> s[i] == p),
{
    let b0: u16 = if s[0] == p { 1u16 } else { 0u16 };
    let b1: u16 = if s[1] == p { 1u16 } else { 0u16 };
    let b2: u16 = if s[2] == p { 1u16 } else { 0u16 };
    let b3: u16 = if s[3] == p { 1u16 } else { 0u16 };
    let b4: u16 = if s[4] == p { 1u16 } else { 0u16 };
    let b5: u16 = if s[5] == p { 1u16 } else { 0u16 };
    let b6: u16 = if s[6] == p { 1u16 } else { 0u16 };
    let b7: u16 = if s[7] == p { 1u16 } else { 0u16 };
    let b8: u16 = if s[8] == p { 1u16 } else { 0u16 };
    lemma_mask_decomposition(s, p);
    assert(m == 256 * b0 + 128 * b1 + 64 * b2 + 32 * b3 + 16 * b4 + 8 * b5 + 4 * b6 + 2 * b7
        + b8);
    assert(((m & 0b1_1100_0000u16) == 0b1_1100_0000u16 <==> (b0 == 1 && b1 == 1 && b2 == 1))
        && ((m & 0b0_0011_1000u16) == 0b0_0011_1000u16 <==> (b3 == 1 && b4 == 1 && b5 == 1))
        && ((m & 0b0_0000_0111u16) == 0b0_0000_0111u16 <==> (b6 == 1 && b7 == 1 && b8 == 1))
        && ((m & 0b1_0010_0100u16) == 0b1_0010_0100u16 <==> (b0 == 1 && b3 == 1 && b6 == 1))
        && ((m & 0b0_1001_0010u16) == 0b0_1001_0010u16 <==> (b1 == 1 && b4 == 1 && b7 == 1))
        && ((m & 0b0_0100_1001u16) == 0b0_0100_1001u16 <==> (b2 == 1 && b5 == 1 && b8 == 1))
        && ((m & 0b1_0001_0001u16) == 0b1_0001_0001u16 <==> (b0 == 1 && b4 == 1 && b8 == 1))
        && ((m & 0b0_0101_0100u16) == 0b0_0101_0100u16 <==> (b2 == 1 && b4 == 1 && b6 == 1)))
        by (bit_vector)
        requires
            m == 256 * b0 + 128 * b1 + 64 * b2 + 32 * b3 + 16 * b4 + 8 * b5 + 4 * b6 + 2 * b7
                + b8,
            b0 <= 1,
            b1 <= 1,
            b2 <= 1,
            b3 <= 1,
            b4 <= 1,
            b5 <= 1,
            b6 <= 1,
            b7 <= 1,
            b8 <= 1,
    ;
    assert(((m & 0b1_0000_0000u16) == 0b1_0000_0000u16 <==> b0 == 1)
        && ((m & 0b0_1000_0000u16) == 0b0_1000_0000u16 <==> b1 == 1)
        && ((m & 0b0_0100_0000u16) == 0b0_0100_0000u16 <==> b2 == 1)
        && ((m & 0b0_0010_0000u16) == 0b0_0010_0000u16 <==> b3 == 1)
        && ((m & 0b0_0001_0000u16) == 0b0_0001_0000u16 <==> b4 == 1)
        && ((m & 0b0_0000_1000u16) == 0b0_0000_1000u16 <==> b5 == 1)
        && ((m & 0b0_0000_0100u16) == 0b0_0000_0100u16 <==> b6 == 1)
        && ((m & 0b0_0000_0010u16) == 0b0_0000_0010u16 <==> b7 == 1)
        && ((m & 0b0_0000_0001u16) == 0b0_0000_0001u16 <==> b8 == 1)) by (bit_vector)
        requires
            m == 256 * b0 + 128 * b1 + 64 * b2 + 32 * b3 + 16 * b4 + 8 * b5 + 4 * b6 + 2 * b7
                + b8,
            b0 <= 1,
            b1 <= 1,
            b2 <= 1,
            b3 <= 1,
            b4 <= 1,
            b5 <= 1,
            b6 <= 1,
            b7 <= 1,
            b8 <= 1,
    ;
    assert forall|k: int| 0 <= k < 8 implies (#[trigger] line_hit(m, k) <==> line_won(
        s,
        k,
        p,
    )) by {
        assert(k == 0 || k == 1 || k == 2 || k == 3 || k == 4 || k == 5 || k == 6 || k == 7);
    }
    assert forall|i: int| 0 <= i < 9 implies (#[trigger] cell_hit(m, i) <==> s[i] == p) by {
        assert(i == 0 || i == 1 || i == 2 || i == 3 || i == 4 || i == 5 || i == 6 || i == 7 || i
            == 8);
    }
}

/// The two colour masks together cover all nine bits exactly when every cell
/// is occupied.
#[verifier::rlimit(100)]
pub(crate) proof fn lemma_masks_full(mx: u16, mo: u16, s: Seq<Piece>)
    requires
        s.len() == 9,
        mx == mask_of(s, Piece::X),
        mo == mask_of(s, Piece::O),
    ensures
        (mx | mo) == 0b1_1111_1111u16 <==> full(s),
{
    lemma_mask_lines(mx, s, Piece::X);
    lemma_mask_lines(mo, s, Piece::O);
    lemma_mask_prefix_bound(s, Piece::X, 9);
    lemma_mask_prefix_bound(s, Piece::O, 9);
    lemma2_to64();
    assert(((mx | mo) == 0b1_1111_1111u16) <==> ((mx & 0b1_0000_0000u16 == 0b1_0000_0000u16 || mo
        & 0b1_0000_0000u16 == 0b1_0000_0000u16) && (mx & 0b0_1000_0000u16 == 0b0_1000_0000u16 || mo
        & 0b0_1000_0000u16 == 0b0_1000_0000u16) && (mx & 0b0_0100_0000u16 == 0b0_0100_0000u16 || mo
        & 0b0_0100_0000u16 == 0b0_0100_0000u16) && (mx & 0b0_0010_0000u16 == 0b0_0010_0000u16 || mo
        & 0b0_0010_0000u16 == 0b0_0010_0000u16) && (mx & 0b0_0001_0000u16 == 0b0_0001_0000u16 || mo
        & 0b0_0001_0000u16 == 0b0_0001_0000u16) && (mx & 0b0_0000_1000u16 == 0b0_0000_1000u16 || mo
        & 0b0_0000_1000u16 == 0b0_0000_1000u16) && (mx & 0b0_0000_0100u16 == 0b0_0000_0100u16 || mo
        & 0b0_0000_0100u16 == 0b0_0000_0100u16) && (mx & 0b0_0000_0010u16 == 0b0_0000_0010u16 || mo
        & 0b0_0000_0010u16 == 0b0_0000_0010u16) && (mx & 0b0_0000_0001u16 == 0b0_0000_0001u16 || mo
        & 0b0_0000_0001u16 == 0b0_0000_0001u16))) by (bit_vector)
        requires
            mx < 512,
            mo < 512,
    ;
    assert forall|i: int| 0 <= i < 9 implies ((cell_hit(mx, i) || cell_hit(mo, i)) <==> s[i]
        != Piece::Empty) by {
        assert(cell_hit(mx, i) <==> s[i] == Piece::X);
        assert(cell_hit(mo, i) <==> s[i] == Piece::O);
    }
    if (mx | mo) == 0b1_1111_1111u16 {
        assert forall|i: int| 0 <= i < 9 implies s[i] != Piece::Empty by {
            assert(i == 0 || i == 1 || i == 2 || i == 3 || i == 4 || i == 5 || i == 6 || i == 7
                || i == 8);
        }
    } else {
        if full(s) {
            assert(cell_hit(mx, 0) || cell_hit(mo, 0));
            assert(cell_hit(mx, 1) || cell_hit(mo, 1));
            assert(cell_hit(mx, 2) || cell_hit(mo, 2));
            assert(cell_hit(mx, 3) || cell_hit(mo, 3));
            assert(cell_hit(mx, 4) || cell_hit(mo, 4));
            assert(cell_hit(mx, 5) || cell_hit(mo, 5));
            assert(cell_hit(mx, 6) || cell_hit(mo, 6));
            assert(cell_hit(mx, 7) || cell_hit(mo, 7));
            assert(cell_hit(mx, 8) || cell_hit(mo, 8));
        }
    }
}

/// Facts about the scan from position `k` on: a reported winner owns one of
/// the remaining lines, and `Empty` is reported exactly when none of them is
/// won.
proof fn lemma_scan_winner(s: Seq<Piece>, k: int)
    requires
        0 <= k <= 8,
    ensures
        scan_winner(s, k) == Piece::X ==> exists|j: int| k <= j < 8 && line_won(s, j, Piece::X),
        scan_winner(s, k) == Piece::O ==> exists|j: int| k <= j < 8 && line_won(s, j, Piece::O),
        scan_winner(s, k) == Piece::Empty <==> (forall|j: int|
            k <= j < 8 ==> !line_won(s, j, Piece::X) && !line_won(s, j, Piece::O)),
    decreases 8 - k,
{
    if k < 8 {
        lemma_scan_winner(s, k + 1);
    }
}

/// Flat win detection characterized by lines. On any nine-cell board where X
/// and O do not both own a completed line, the engine's verdict (`end_of`,
/// the value `win_check` returns) is `Winner(p)` exactly when some row,
/// column, or diagonal is entirely `p`; `CatsGame` exactly when every cell
/// is occupied and no line is won; and `NotDone` otherwise.
pub proof fn lemma_win_check_characterization(s: Seq<Piece>)
    requires
        s.len() == 9,
        !(wins(s, Piece::X) && wins(s, Piece::O)),
    ensures
        end_of(s) == EndGame::Winner(Piece::X) <==> wins(s, Piece::X),
        end_of(s) == EndGame::Winner(Piece::O) <==> wins(s, Piece::O),
        end_of(s) == EndGame::CatsGame <==> (!wins(s, Piece::X) && !wins(s, Piece::O) && full(s)),
        end_of(s) == EndGame::NotDone <==> (!wins(s, Piece::X) && !wins(s, Piece::O) && !full(s)),
{
    lemma_scan_winner(s, 0);
}

/// Builds both colour masks of `cells`, scanning cell 0 to cell 8, shifting
/// each accumulator left and then setting its low bit for a matching cell.
pub(crate) fn compute_masks(cells: &Vec<Piece>) -> (m: (u16, u16))
    requires
        cells@.len() == 9,
    ensures
        m.0 == mask_of(cells@, Piece::X),
        m.1 == mask_of(cells@, Piece::O),
{
    let mut xs: u16 = 0b0_0000_0000;
    let mut os: u16 = 0b0_0000_0000;
    let mut i: usize = 0;
    while i < 9
        invariant
            cells@.len() == 9,
            i <= 9,
            xs == mask_prefix(cells@, Piece::X, i as int),
            os == mask_prefix(cells@, Piece::O, i as int),
        decreases 9 - i,
    {
        proof {
            lemma_mask_prefix_bound(cells@, Piece::X, i as int);
            lemma_mask_prefix_bound(cells@, Piece::O, i as int);
            lemma2_to64();
            if i < 8 {
                lemma_pow2_strictly_increases(i as nat, 8);
            }
        }
        let ghost xs0 = xs;
        let ghost os0 = os;
        xs = xs << 1;
        os = os << 1;
        assert(xs == 2 * xs0 && os == 2 * os0) by (bit_vector)
            requires
                xs == xs0 << 1u16,
                os == os0 << 1u16,
                xs0 < 256,
                os0 < 256,
        ;
        let ghost xs1 = xs;
        let ghost os1 = os;
        match cells[i] {
            Piece::X => {
                xs = xs ^ 0b0_0000_0001;
                assert(xs == xs1 + 1) by (bit_vector)
                    requires
                        xs == xs1 ^ 1u16,
                        xs1 % 2 == 0,
                ;
            },
            Piece::O => {
                os = os ^ 0b0_0000_0001;
                assert(os == os1 + 1) by (bit_vector)
                    requires
                        os == os1 ^ 1u16,
                        os1 % 2 == 0,
                ;
            },
            Piece::Empty => {},
        }
        i = i + 1;
    }
    (xs, os)
}

/// Nine cells all holding `p`, as a vector.
pub(crate) fn uniform_vec(p: Piece) -> (v: Vec<Piece>)
    ensures
        v@ == uniform(p),
{
    let mut v: Vec<Piece> = Vec::new();
    v.push(p);
    v.push(p);
    v.push(p);
    v.push(p);
    v.push(p);
    v.push(p);
    v.push(p);
    v.push(p);
    v.push(p);
    proof {
        assert(v@ =~= uniform(p));
    }
    v
}

/// The winline mask the engine tests at scan position `k`.
pub(crate) fn winline_mask(k: usize) -> (w: u16)
    requires
        k < 8,
    ensures
        w == win_mask(k as int),
{
    match k {
        0 => 0b1_1100_0000,
        1 => 0b0_0011_1000,
        2 => 0b0_0000_0111,
        3 => 0b1_0010_0100,
        4 => 0b0_1001_0010,
        5 => 0b0_0100_1001,
        6 => 0b1_0001_0001,
        _ => 0b0_0101_0100,
    }
}

/// Scans the eight winlines in order, testing X before O on each, and
/// returns the first winning colour; `Empty` when no line is won.
pub(crate) fn scan_masks(xs: u16, os: u16, Ghost(s): Ghost<Seq<Piece>>) -> (w: Piece)
    requires
        s.len() == 9,
        xs == mask_of(s, Piece::X),
        os == mask_of(s, Piece::O),
    ensures
        w == winner_of(s),
{
    let mut k: usize = 0;
    while k < 8
        invariant
            s.len() == 9,
            xs == mask_of(s, Piece::X),
            os == mask_of(s, Piece::O),
            k <= 8,
            winner_of(s) == scan_winner(s, k as int),
        decreases 8 - k,
    {
        proof {
            lemma_mask_lines(xs, s, Piece::X);
            lemma_mask_lines(os, s, Piece::O);
        }
        let w = winline_mask(k);
        if xs & w == w {
            assert(line_hit(xs, k as int));
            return Piece::X;
        }
        if os & w == w {
            assert(line_hit(os, k as int));
            return Piece::O;
        }
        assert(!line_hit(xs, k as int) && !line_hit(os, k as int));
        k = k + 1;
    }
    Piece::Empty
}

impl Board {
    /// The board's nine cells, in row-major order.
    pub closed spec fn cells(&self) -> Seq<Piece> {
        self.spaces@
    }

    /// The piece that moves next.
    pub closed spec fn turn(&self) -> Piece {
        self.turn
    }

    /// A board holds exactly nine cells, and the turn is never `Empty`.
    pub open spec fn wf(&self) -> bool {
        self.cells().len() == 9 && self.turn() != Piece::Empty
    }

    /// An empty board; X moves first.
    pub fn new() -> (b: Board)
        ensures
            b.wf(),
            b.cells() == uniform(Piece::Empty),
            b.turn() == Piece::X,
    {
        let mut spaces: Vec<Piece> = Vec::new();
        spaces.push(Piece::Empty);
        spaces.push(Piece::Empty);
        spaces.push(Piece::Empty);
        spaces.push(Piece::Empty);
        spaces.push(Piece::Empty);
        spaces.push(Piece::Empty);
        spaces.push(Piece::Empty);
        spaces.push(Piece::Empty);
        spaces.push(Piece::Empty);
        proof {
            assert(spaces@ =~= uniform(Piece::Empty));
        }
        Board { spaces, turn: Piece::X }
    }

    /// Puts the current turn's piece on `space`. Fails `OutOfBoundsError`
    /// past cell 8 and `SpaceTakenError` on an occupied cell; an error
    /// leaves the board untouched. Does not advance the turn.
    pub fn play(&mut self, space: usize) -> (r: Result<(), BoardError>)
        requires
            old(self).wf(),
        ensures
            final(self).wf(),
            final(self).turn() == old(self).turn(),
            space > 8 ==> r == Err::<(), BoardError>(BoardError::OutOfBoundsError) && *final(self)
                == *old(self),
            space <= 8 && old(self).cells()[space as int] != Piece::Empty ==> r == Err::<
                (),
                BoardError,
            >(BoardError::SpaceTakenError) && *final(self) == *old(self),
            space <= 8 && old(self).cells()[space as int] == Piece::Empty ==> r == Ok::<
                (),
                BoardError,
            >(()) && final(self).cells() == old(self).cells().update(
                space as int,
                old(self).turn(),
            ),
    {
        if space > BOARD_LEN {
            return Err(BoardError::OutOfBoundsError);
        }
        match self.spaces[space] {
            Piece::Empty => {
                self.spaces[space] = self.turn;
            },
            _ => {
                return Err(BoardError::SpaceTakenError);
            },
        }
        Ok(())
    }

    /// The piece that moves next.
    pub fn get_turn(&self) -> (p: Piece)
        ensures
            p == self.turn(),
    {
        self.turn
    }

    /// Advances to the other mover: X to O, O to X.
    pub fn next_turn(&mut self)
        requires
            old(self).wf(),
        ensures
            final(self).wf(),
            final(self).cells() == old(self).cells(),
            final(self).turn() == crate::piece::flip(old(self).turn()),
    {
        match self.turn {
            Piece::X => {
                self.turn = Piece::O;
            },
            Piece::O => {
                self.turn = Piece::X;
            },
            Piece::Empty => {},
        }
    }

    /// Evaluates the board: the first winning colour in winline scan order,
    /// else `CatsGame` when every cell is occupied, else `NotDone`.
    pub fn win_check(&self) -> (r: EndGame)
        requires
            self.wf(),
        ensures
            r == end_of(self.cells()),
    {
        let (xs, os) = compute_masks(&self.spaces);
        let w = scan_masks(xs, os, Ghost(self.cells()));
        match w {
            Piece::X => EndGame::Winner(Piece::X),
            Piece::O => EndGame::Winner(Piece::O),
            Piece::Empty => {
                proof {
                    lemma_masks_full(xs, os, self.cells());
                }
                if xs | os == 0b1_1111_1111 {
                    EndGame::CatsGame
                } else {
                    EndGame::NotDone
                }
            },
        }
    }

    /// The piece on cell `space`; a read-only accessor for renderers.
    pub fn get_space(&self, space: usize) -> (p: Piece)
        requires
            self.wf(),
            space < 9,
        ensures
            p == self.cells()[space as int],
    {
        self.spaces[space]
    }
}

impl BoardError {
    /// The failure's display text.
    pub fn message(&self) -> (s: String)
        ensures
            *self == BoardError::SpaceTakenError ==> s@ == "This space is already occupied!"@,
            *self == BoardError::OutOfBoundsError ==> s@ == "That space does not exist!"@,
    {
        match self {
            BoardError::SpaceTakenError => String::from_str("This space is already occupied!"),
            BoardError::OutOfBoundsError => String::from_str("That space does not exist!"),
        }
    }
}

} // verus!
