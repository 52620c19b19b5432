//! The 3x3x3 cube board: three stacked flat layers sharing one turn, with
//! win detection over nine planes and four space diagonals.
//!
//! Each of nine planes — the three layers, three cross-layer row planes, and
//! three cross-layer column planes — is encoded into the same 9-bit colour
//! masks as the flat engine and tested against the eight flat winlines; the
//! four corner-to-corner diagonals through the cube's centre do not lie in
//! any plane and are tested directly on single layer-mask bits. There is no
//! draw detection in this variant: `Empty` stands for both "in play" and
//! "drawn".

use vstd::prelude::*;

use crate::board::compute_masks;
use crate::board::line_won;
use crate::board::mask_of;
use crate::board::uniform;
use crate::board::uniform_vec;
use crate::board::win_mask;
use crate::board::winline_mask;
use crate::board::wins;
use crate::piece::flip;
use crate::piece::Piece;

verus! {

/// A recoverable failure of a cube move.
#[derive(Clone, Copy, Debug, PartialEq, Eq, Structural)]
pub enum CubeError {
    SpaceTakenError,
}

pub type CubeResult<T> = Result<T, CubeError>;

/// The cube: three flat layers, and the turn, owned at the cube level.
pub struct CubeBoard {
    layers: Vec<Vec<Piece>>,
    turn: Piece,
}

/// The cross-layer plane fixing row `r`: entry `3 * layer + column`.
pub open spec fn row_plane(g: Seq<Seq<Piece>>, r: int) -> Seq<Piece> {
    Seq::new(9, |j: int| g[j / 3][3 * r + (j % 3)])
}

/// The cross-layer plane fixing column `c`: entry `3 * layer + row`.
pub open spec fn col_plane(g: Seq<Seq<Piece>>, c: int) -> Seq<Piece> {
    Seq::new(9, |j: int| g[j / 3][3 * (j % 3) + c])
}

/// The nine planes the engine scans, in order: the three layers, the three
/// row planes, the three column planes.
pub open spec fn plane(g: Seq<Seq<Piece>>, q: int) -> Seq<Piece> {
    if q < 3 {
        g[q]
    } else if q < 6 {
        row_plane(g, q - 3)
    } else {
        col_plane(g, q - 6)
    }
}

/// Space diagonal `d` (corner to corner through the cube's centre) is
/// entirely `p`.
pub open spec fn space_diag_won(g: Seq<Seq<Piece>>, d: int, p: Piece) -> bool {
    if d == 0 {
        g[0][0] == p && g[1][4] == p && g[2][8] == p
    } else if d == 1 {
        g[0][8] == p && g[1][4] == p && g[2][0] == p
    } else if d == 2 {
        g[0][2] == p && g[1][4] == p && g[2][6] == p
    } else {
        g[0][6] == p && g[1][4] == p && g[2][2] == p
    }
}

/// `p` owns a complete line of the cube: a winline of one of the nine
/// planes, or a space diagonal.
pub open spec fn cube_wins(g: Seq<Seq<Piece>>, p: Piece) -> bool {
    (exists|q: int| 0 <= q < 9 && wins(#[trigger] plane(g, q), p)) || (exists|d: int|
        0 <= d < 4 && #[trigger] space_diag_won(g, d, p))
}

/// Each kind of cube line is independently detectable: a winline inside one
/// layer, a pillar (one cell stacked through all three layers), and a space
/// diagonal each make the cube won for its colour, so `win_check` — whose
/// `Empty` verdict means exactly that no cube line is complete — reports
/// each of them.
pub proof fn lemma_cube_win_kinds(g: Seq<Seq<Piece>>, p: Piece)
    requires
        g.len() == 3,
        forall|l: int| 0 <= l < 3 ==> (#[trigger] g[l]).len() == 9,
    ensures
        forall|l: int| 0 <= l < 3 && wins(#[trigger] g[l], p) ==> cube_wins(g, p),
        forall|i: int|
            0 <= i < 9 && (#[trigger] g[0][i]) == p && g[1][i] == p && g[2][i] == p ==> cube_wins(
                g,
                p,
            ),
        forall|d: int| 0 <= d < 4 && #[trigger] space_diag_won(g, d, p) ==> cube_wins(g, p),
{
    assert forall|l: int| 0 <= l < 3 && wins(#[trigger] g[l], p) implies cube_wins(g, p) by {
        assert(plane(g, l) == g[l]);
        assert(wins(plane(g, l), p));
    }
    assert forall|i: int|
        0 <= i < 9 && (#[trigger] g[0][i]) == p && g[1][i] == p && g[2][i] == p implies cube_wins(
        g,
        p,
    ) by {
        let r = i / 3;
        let c = i % 3;
        assert(0 <= r < 3 && 0 <= c < 3 && 3 * r + c == i);
        assert(plane(g, 3 + r) == row_plane(g, r));
        assert(row_plane(g, r)[c] == g[0][i]);
        assert(row_plane(g, r)[c + 3] == g[1][i]);
        assert(row_plane(g, r)[c + 6] == g[2][i]);
        assert(c == 0 || c == 1 || c == 2);
        assert(line_won(plane(g, 3 + r), 3 + c, p));
        assert(wins(plane(g, 3 + r), p));
    }
}

impl CubeBoard {
    /// The cube's cells: layer by layer, each in row-major order.
    pub closed spec fn grid(&self) -> Seq<Seq<Piece>> {
        self.layers@.map_values(|l: Vec<Piece>| l@)
    }

    /// The piece that moves next.
    pub closed spec fn turn(&self) -> Piece {
        self.turn
    }

    /// Three layers of nine cells, and a turn that is never `Empty`.
    pub open spec fn wf(&self) -> bool {
        &&& self.grid().len() == 3
        &&& forall|l: int| 0 <= l < 3 ==> (#[trigger] self.grid()[l]).len() == 9
        &&& self.turn() != Piece::Empty
    }

    /// An empty cube; X moves first.
    pub fn new() -> (c: CubeBoard)
        ensures
            c.wf(),
            c.turn() == Piece::X,
            forall|l: int| 0 <= l < 3 ==> #[trigger] c.grid()[l] == uniform(Piece::Empty),
    {
        let mut layers: Vec<Vec<Piece>> = Vec::new();
        layers.push(uniform_vec(Piece::Empty));
        layers.push(uniform_vec(Piece::Empty));
        layers.push(uniform_vec(Piece::Empty));
        let c = CubeBoard { layers, turn: Piece::X };
        proof {
            assert(c.grid()[0] == uniform(Piece::Empty));
            assert(c.grid()[1] == uniform(Piece::Empty));
            assert(c.grid()[2] == uniform(Piece::Empty));
        }
        c
    }

    /// Puts the current turn's piece on cell `index` of layer `layer`. An
    /// out-of-range layer or index is a caller contract violation, excluded
    /// by `requires`. Fails `SpaceTakenError` on an occupied cell, leaving
    /// the cube untouched. Does not advance the turn.
    pub fn play(&mut self, layer: usize, index: usize) -> (r: CubeResult<()>)
        requires
            old(self).wf(),
            layer < 3,
            index < 9,
        ensures
            final(self).wf(),
            final(self).turn() == old(self).turn(),
            old(self).grid()[layer as int][index as int] != Piece::Empty ==> r == Err::<
                (),
                CubeError,
            >(CubeError::SpaceTakenError) && *final(self) == *old(self),
            old(self).grid()[layer as int][index as int] == Piece::Empty ==> r == Ok::<
                (),
                CubeError,
            >(()) && final(self).grid() == old(self).grid().update(
                layer as int,
                old(self).grid()[layer as int].update(index as int, old(self).turn()),
            ),
    {
        match self.layers[layer][index] {
            Piece::Empty => {
                let piece = self.turn;
                self.layers[layer][index] = piece;
                proof {
                    assert(self.grid() =~~= old(self).grid().update(
                        layer as int,
                        old(self).grid()[layer as int].update(index as int, old(self).turn()),
                    ));
                }
                Ok(())
            },
            _ => Err(CubeError::SpaceTakenError),
        }
    }

    /// The piece that moves next.
    pub fn get_turn(&self) -> (p: Piece)
        ensures
            p == self.turn(),
    {
        self.turn
    }

    /// Advances to the other mover: X to O, O to X.
    pub fn next_turn(&mut self)
        requires
            old(self).wf(),
        ensures
            final(self).wf(),
            final(self).grid() == old(self).grid(),
            final(self).turn() == flip(old(self).turn()),
    {
        match self.turn {
            Piece::X => {
                self.turn = Piece::O;
            },
            Piece::O => {
                self.turn = Piece::X;
            },
            Piece::Empty => {},
        }
    }

    /// The piece on cell `space` of layer `layer`; a read-only accessor for
    /// renderers.
    pub fn get_space(&self, layer: usize, space: usize) -> (p: Piece)
        requires
            self.wf(),
            layer < 3,
            space < 9,
        ensures
            p == self.grid()[layer as int][space as int],
    {
        self.layers[layer][space]
    }

    /// Copies out the nine cells of plane `q`, in the engine's scan order
    /// within the plane.
    fn plane_cells(&self, q: usize) -> (v: Vec<Piece>)
        requires
            self.wf(),
            q < 9,
        ensures
            v@ == plane(self.grid(), q as int),
    {
        let mut v: Vec<Piece> = Vec::new();
        let mut j: usize = 0;
        while j < 9
            invariant
                self.wf(),
                q < 9,
                j <= 9,
                v@.len() == j,
                forall|m: int| 0 <= m < j ==> #[trigger] v@[m] == plane(self.grid(), q as int)[m],
            decreases 9 - j,
        {
            proof {
                assert(0 <= j as int / 3 < 3 && 0 <= j as int % 3 < 3);
                assert(self.grid()[j as int / 3] == self.layers@[j as int / 3]@);
                assert(self.grid()[j as int / 3].len() == 9);
                if q < 3 {
                    assert(self.grid()[q as int] == self.layers@[q as int]@);
                    assert(self.grid()[q as int].len() == 9);
                }
            }
            let c: Piece = if q < 3 {
                self.layers[q][j]
            } else if q < 6 {
                self.layers[j / 3][3 * (q - 3) + (j % 3)]
            } else {
                self.layers[j / 3][3 * (j % 3) + (q - 6)]
            };
            v.push(c);
            j = j + 1;
        }
        proof {
            assert(v@ =~= plane(self.grid(), q as int));
        }
        v
    }

    /// Evaluates the cube: scans the eight winlines over all nine planes (X
    /// before O on each line, planes in order), then the four space
    /// diagonals (X before O). Returns the first winning colour, or `Empty`
    /// when the cube holds no complete line — in play and drawn alike.
    pub fn win_check(&self) -> (r: Piece)
        requires
            self.wf(),
        ensures
            r == Piece::X ==> cube_wins(self.grid(), Piece::X),
            r == Piece::O ==> cube_wins(self.grid(), Piece::O),
            r == Piece::Empty <==> (!cube_wins(self.grid(), Piece::X) && !cube_wins(
                self.grid(),
                Piece::O,
            )),
            cube_wins(self.grid(), Piece::X) && !cube_wins(self.grid(), Piece::O) ==> r
                == Piece::X,
            cube_wins(self.grid(), Piece::O) && !cube_wins(self.grid(), Piece::X) ==> r
                == Piece::O,
    {
        let ghost g = self.grid();
        let mut cs_x: Vec<u16> = Vec::new();
        let mut cs_o: Vec<u16> = Vec::new();
        let mut q: usize = 0;
        while q < 9
            invariant
                self.wf(),
                g == self.grid(),
                q <= 9,
                cs_x@.len() == q,
                cs_o@.len() == q,
                forall|m: int| 0 <= m < q ==> #[trigger] cs_x@[m] == mask_of(plane(g, m), Piece::X),
                forall|m: int| 0 <= m < q ==> #[trigger] cs_o@[m] == mask_of(plane(g, m), Piece::O),
            decreases 9 - q,
        {
            let pl = self.plane_cells(q);
            let (x, o) = compute_masks(&pl);
            cs_x.push(x);
            cs_o.push(o);
            q = q + 1;
        }
        let mut k: usize = 0;
        while k < 8
            invariant
                self.wf(),
                g == self.grid(),
                k <= 8,
                cs_x@.len() == 9,
                cs_o@.len() == 9,
                forall|m: int| 0 <= m < 9 ==> #[trigger] cs_x@[m] == mask_of(plane(g, m), Piece::X),
                forall|m: int| 0 <= m < 9 ==> #[trigger] cs_o@[m] == mask_of(plane(g, m), Piece::O),
                forall|jj: int, m: int|
                    0 <= jj < k && 0 <= m < 9 ==> !(#[trigger] line_won(plane(g, m), jj, Piece::X)),
                forall|jj: int, m: int|
                    0 <= jj < k && 0 <= m < 9 ==> !(#[trigger] line_won(plane(g, m), jj, Piece::O)),
            decreases 8 - k,
        {
            let w = winline_mask(k);
            let mut qq: usize = 0;
            while qq < 9
                invariant
                    self.wf(),
                    g == self.grid(),
                    k < 8,
                    w == win_mask(k as int),
                    qq <= 9,
                    cs_x@.len() == 9,
                    cs_o@.len() == 9,
                    forall|m: int|
                        0 <= m < 9 ==> #[trigger] cs_x@[m] == mask_of(plane(g, m), Piece::X),
                    forall|m: int|
                        0 <= m < qq ==> !(#[trigger] line_won(plane(g, m), k as int, Piece::X)),
                decreases 9 - qq,
            {
                proof {
                    crate::board::lemma_mask_lines(
                        cs_x@[qq as int],
                        plane(g, qq as int),
                        Piece::X,
                    );
                }
                if cs_x[qq] & w == w {
                    proof {
                        assert(crate::board::line_hit(cs_x@[qq as int], k as int));
                        assert(line_won(plane(g, qq as int), k as int, Piece::X));
                        assert(wins(plane(g, qq as int), Piece::X));
                    }
                    return Piece::X;
                }
                proof {
                    assert(!crate::board::line_hit(cs_x@[qq as int], k as int));
                    assert(!line_won(plane(g, qq as int), k as int, Piece::X));
                }
                qq = qq + 1;
            }
            let mut qo: usize = 0;
            while qo < 9
                invariant
                    self.wf(),
                    g == self.grid(),
                    k < 8,
                    w == win_mask(k as int),
                    qo <= 9,
                    cs_x@.len() == 9,
                    cs_o@.len() == 9,
                    forall|m: int|
                        0 <= m < 9 ==> #[trigger] cs_o@[m] == mask_of(plane(g, m), Piece::O),
                    forall|m: int|
                        0 <= m < qo ==> !(#[trigger] line_won(plane(g, m), k as int, Piece::O)),
                decreases 9 - qo,
            {
                proof {
                    crate::board::lemma_mask_lines(
                        cs_o@[qo as int],
                        plane(g, qo as int),
                        Piece::O,
                    );
                }
                if cs_o[qo] & w == w {
                    proof {
                        assert(crate::board::line_hit(cs_o@[qo as int], k as int));
                        assert(line_won(plane(g, qo as int), k as int, Piece::O));
                        assert(wins(plane(g, qo as int), Piece::O));
                    }
                    return Piece::O;
                }
                proof {
                    assert(!crate::board::line_hit(cs_o@[qo as int], k as int));
                    assert(!line_won(plane(g, qo as int), k as int, Piece::O));
                }
                qo = qo + 1;
            }
            k = k + 1;
        }
        proof {
            crate::board::lemma_mask_lines(cs_x@[0], plane(g, 0), Piece::X);
            crate::board::lemma_mask_lines(cs_x@[1], plane(g, 1), Piece::X);
            crate::board::lemma_mask_lines(cs_x@[2], plane(g, 2), Piece::X);
            crate::board::lemma_mask_lines(cs_o@[0], plane(g, 0), Piece::O);
            crate::board::lemma_mask_lines(cs_o@[1], plane(g, 1), Piece::O);
            crate::board::lemma_mask_lines(cs_o@[2], plane(g, 2), Piece::O);
            assert forall|m: int| 0 <= m < 9 implies !wins(#[trigger] plane(g, m), Piece::X)
                && !wins(plane(g, m), Piece::O) by {
                assert(forall|jj: int|
                    0 <= jj < 8 ==> !(#[trigger] line_won(plane(g, m), jj, Piece::X)));
                assert(forall|jj: int|
                    0 <= jj < 8 ==> !(#[trigger] line_won(plane(g, m), jj, Piece::O)));
            }
            assert(space_diag_won(g, 0, Piece::X) <==> (crate::board::cell_hit(cs_x@[0], 0)
                && crate::board::cell_hit(cs_x@[1], 4) && crate::board::cell_hit(cs_x@[2], 8)));
            assert(space_diag_won(g, 1, Piece::X) <==> (crate::board::cell_hit(cs_x@[0], 8)
                && crate::board::cell_hit(cs_x@[1], 4) && crate::board::cell_hit(cs_x@[2], 0)));
            assert(space_diag_won(g, 2, Piece::X) <==> (crate::board::cell_hit(cs_x@[0], 2)
                && crate::board::cell_hit(cs_x@[1], 4) && crate::board::cell_hit(cs_x@[2], 6)));
            assert(space_diag_won(g, 3, Piece::X) <==> (crate::board::cell_hit(cs_x@[0], 6)
                && crate::board::cell_hit(cs_x@[1], 4) && crate::board::cell_hit(cs_x@[2], 2)));
            assert(space_diag_won(g, 0, Piece::O) <==> (crate::board::cell_hit(cs_o@[0], 0)
                && crate::board::cell_hit(cs_o@[1], 4) && crate::board::cell_hit(cs_o@[2], 8)));
            assert(space_diag_won(g, 1, Piece::O) <==> (crate::board::cell_hit(cs_o@[0], 8)
                && crate::board::cell_hit(cs_o@[1], 4) && crate::board::cell_hit(cs_o@[2], 0)));
            assert(space_diag_won(g, 2, Piece::O) <==> (crate::board::cell_hit(cs_o@[0], 2)
                && crate::board::cell_hit(cs_o@[1], 4) && crate::board::cell_hit(cs_o@[2], 6)));
            assert(space_diag_won(g, 3, Piece::O) <==> (crate::board::cell_hit(cs_o@[0], 6)
                && crate::board::cell_hit(cs_o@[1], 4) && crate::board::cell_hit(cs_o@[2], 2)));
        }
        if cs_x[0] & 0b1_0000_0000 == 0b1_0000_0000 && cs_x[1] & 0b0_0001_0000 == 0b0_0001_0000
            && cs_x[2] & 0b0_0000_0001 == 0b0_0000_0001 {
            proof {
                assert(space_diag_won(g, 0, Piece::X));
            }
            return Piece::X;
        }
        if cs_x[0] & 0b0_0000_0001 == 0b0_0000_0001 && cs_x[1] & 0b0_0001_0000 == 0b0_0001_0000
            && cs_x[2] & 0b1_0000_0000 == 0b1_0000_0000 {
            proof {
                assert(space_diag_won(g, 1, Piece::X));
            }
            return Piece::X;
        }
        if cs_x[0] & 0b0_0100_0000 == 0b0_0100_0000 && cs_x[1] & 0b0_0001_0000 == 0b0_0001_0000
            && cs_x[2] & 0b0_0000_0100 == 0b0_0000_0100 {
            proof {
                assert(space_diag_won(g, 2, Piece::X));
            }
            return Piece::X;
        }
        if cs_x[0] & 0b0_0000_0100 == 0b0_0000_0100 && cs_x[1] & 0b0_0001_0000 == 0b0_0001_0000
            && cs_x[2] & 0b0_0100_0000 == 0b0_0100_0000 {
            proof {
                assert(space_diag_won(g, 3, Piece::X));
            }
            return Piece::X;
        }
        if cs_o[0] & 0b1_0000_0000 == 0b1_0000_0000 && cs_o[1] & 0b0_0001_0000 == 0b0_0001_0000
            && cs_o[2] & 0b0_0000_0001 == 0b0_0000_0001 {
            proof {
                assert(space_diag_won(g, 0, Piece::O));
            }
            return Piece::O;
        }
        if cs_o[0] & 0b0_0000_0001 == 0b0_0000_0001 && cs_o[1] & 0b0_0001_0000 == 0b0_0001_0000
            && cs_o[2] & 0b1_0000_0000 == 0b1_0000_0000 {
            proof {
                assert(space_diag_won(g, 1, Piece::O));
            }
            return Piece::O;
        }
        if cs_o[0] & 0b0_0100_0000 == 0b0_0100_0000 && cs_o[1] & 0b0_0001_0000 == 0b0_0001_0000
            && cs_o[2] & 0b0_0000_0100 == 0b0_0000_0100 {
            proof {
                assert(space_diag_won(g, 2, Piece::O));
            }
            return Piece::O;
        }
        if cs_o[0] & 0b0_0000_0100 == 0b0_0000_0100 && cs_o[1] & 0b0_0001_0000 == 0b0_0001_0000
            && cs_o[2] & 0b0_0100_0000 == 0b0_0100_0000 {
            proof {
                assert(space_diag_won(g, 3, Piece::O));
            }
            return Piece::O;
        }
        proof {
            assert forall|d: int| 0 <= d < 4 implies !(#[trigger] space_diag_won(g, d, Piece::X))
                && !space_diag_won(g, d, Piece::O) by {
                assert(d == 0 || d == 1 || d == 2 || d == 3);
            }
            assert(!cube_wins(g, Piece::X));
            assert(!cube_wins(g, Piece::O));
        }
        Piece::Empty
    }
}

impl CubeError {
    /// The failure's display text.
    pub fn message(&self) -> (s: String)
        ensures
            *self == CubeError::SpaceTakenError ==> s@ == "Space already taken!"@,
    {
        match self {
            CubeError::SpaceTakenError => String::from_str("Space already taken!"),
        }
    }
}

} // verus!
