use vstd::prelude::*;

use crate::board::COLS;

verus! {

/// The seven tetrominoes.
#[derive(Clone, Copy, PartialEq, Eq, Debug, Structural)]
pub enum PieceKind {
    I,
    O,
    T,
    S,
    Z,
    J,
    L,
}

/// The kinds in the order that `PieceKind::all` lists them.
pub open spec fn all_kinds() -> Seq<PieceKind> {
    seq![PieceKind::I, PieceKind::O, PieceKind::T, PieceKind::S, PieceKind::Z, PieceKind::J, PieceKind::L]
}

/// Whether cell `(r, c)` (row, column) of the spawn orientation of `kind` is filled.
pub open spec fn kind_cell(kind: PieceKind, r: int, c: int) -> bool {
    match kind {
        PieceKind::I => r == 1 && 0 <= c <= 3,
        PieceKind::O => 0 <= r <= 1 && 1 <= c <= 2,
        PieceKind::T => (r == 0 && c == 1) || (r == 1 && 0 <= c <= 2),
        PieceKind::S => (r == 0 && 1 <= c <= 2) || (r == 1 && 0 <= c <= 1),
        PieceKind::Z => (r == 0 && 0 <= c <= 1) || (r == 1 && 1 <= c <= 2),
        PieceKind::J => (r == 0 && c == 0) || (r == 1 && 0 <= c <= 2),
        PieceKind::L => (r == 0 && c == 2) || (r == 1 && 0 <= c <= 2),
    }
}

/// A 4x4 shape as a sequence of rows.
pub open spec fn grid_of(s: [[bool; 4]; 4]) -> Seq<Seq<bool>> {
    Seq::new(4, |r: int| s[r]@)
}

/// The spawn orientation of `kind` as a grid.
pub open spec fn kind_grid(kind: PieceKind) -> Seq<Seq<bool>> {
    Seq::new(4, |r: int| Seq::new(4, |c: int| kind_cell(kind, r, c)))
}

/// `g` is a 4x4 grid.
pub open spec fn is_grid(g: Seq<Seq<bool>>) -> bool {
    g.len() == 4 && forall|r: int| 0 <= r < 4 ==> #[trigger] g[r].len() == 4
}

/// The grid turned a quarter turn clockwise inside its whole 4x4 box: cell `(r, c)`
/// moves to `(c, 3 - r)`. This is how the I piece turns.
pub open spec fn rot(g: Seq<Seq<bool>>) -> Seq<Seq<bool>> {
    Seq::new(4, |i: int| Seq::new(4, |j: int| g[3 - j][i]))
}

/// The grid turned a quarter turn clockwise inside its top-left 3x3 box: cell `(r, c)`
/// moves to `(c, 2 - r)`, and nothing lies outside the box. This is how the J, L, S,
/// T and Z pieces turn.
pub open spec fn rot3(g: Seq<Seq<bool>>) -> Seq<Seq<bool>> {
    Seq::new(4, |i: int| Seq::new(4, |j: int| if i < 3 && j < 3 { g[2 - j][i] } else { false }))
}

/// A clockwise quarter turn of a piece of `kind` under the Super Rotation System: the
/// I piece turns in a 4x4 box, the O piece stays as it is, and the others turn in a
/// 3x3 box.
pub open spec fn turn(kind: PieceKind, g: Seq<Seq<bool>>) -> Seq<Seq<bool>> {
    if kind == PieceKind::O {
        g
    } else if kind == PieceKind::I {
        rot(g)
    } else {
        rot3(g)
    }
}

/// The orientation of `kind` after `r` clockwise quarter turns from its spawn
/// orientation.
pub open spec fn orient(kind: PieceKind, r: nat) -> Seq<Seq<bool>>
    decreases r,
{
    if r == 0 {
        kind_grid(kind)
    } else {
        turn(kind, orient(kind, (r - 1) as nat))
    }
}

/// `g` has at least one filled cell.
pub open spec fn has_cell(g: Seq<Seq<bool>>) -> bool {
    exists|r: int, c: int| 0 <= r < 4 && 0 <= c < 4 && #[trigger] g[r][c]
}

/// Every filled cell of `g` lies in its top-left 3x3 box.
pub open spec fn in_box3(g: Seq<Seq<bool>>) -> bool {
    forall|r: int, c: int| 0 <= r < 4 && 0 <= c < 4 && #[trigger] g[r][c] ==> r < 3 && c < 3
}

/// `g` can be the shape of a falling piece of `kind`: a 4x4 grid with a filled cell,
/// whose cells lie in the 3x3 box for the kinds that turn in one.
pub open spec fn shape_ok(kind: PieceKind, g: Seq<Seq<bool>>) -> bool {
    &&& is_grid(g)
    &&& has_cell(g)
    &&& (kind != PieceKind::I && kind != PieceKind::O ==> in_box3(g))
}

/// The shape `g` placed with its top-left corner at `(x, y)` covers the square at
/// column `px`, row `py`.
pub open spec fn covers(g: Seq<Seq<bool>>, x: int, y: int, px: int, py: int) -> bool {
    0 <= py - y < 4 && 0 <= px - x < 4 && g[py - y][px - x]
}

/// Four quarter turns in the 4x4 box give back the grid one started from.
pub proof fn lemma_four_turns_identity(g: Seq<Seq<bool>>)
    requires
        is_grid(g),
    ensures
        rot(rot(rot(rot(g)))) == g,
{
    assert forall|i: int| 0 <= i < 4 implies #[trigger] rot(rot(rot(rot(g))))[i] =~= g[i] by {
        assert(g[i].len() == 4);
    }
    assert(rot(rot(rot(rot(g)))) =~= g);
}

/// Four quarter turns in the 3x3 box give back a grid whose cells lie in that box.
pub proof fn lemma_four_turns3_identity(g: Seq<Seq<bool>>)
    requires
        is_grid(g),
        in_box3(g),
    ensures
        rot3(rot3(rot3(rot3(g)))) == g,
{
    assert forall|i: int| 0 <= i < 4 implies #[trigger] rot3(rot3(rot3(rot3(g))))[i] =~= g[i] by {
        assert(g[i].len() == 4);
        assert forall|j: int| 0 <= j < 4 implies rot3(rot3(rot3(rot3(g))))[i][j] == g[i][j] by {
            if !(i < 3 && j < 3) {
                if g[i][j] {
                    assert(i < 3 && j < 3);
                }
            }
        }
    }
    assert(rot3(rot3(rot3(rot3(g)))) =~= g);
}

/// Law of rotation: every orientation is a 4x4 grid with a filled cell (and, for the
/// pieces that turn in a 3x3 box, all its cells in that box), and four clockwise
/// quarter turns bring every kind back to its spawn orientation.
pub proof fn lemma_orient(kind: PieceKind, r: nat)
    ensures
        is_grid(orient(kind, r)),
        has_cell(orient(kind, r)),
        kind != PieceKind::I && kind != PieceKind::O ==> in_box3(orient(kind, r)),
        orient(kind, 4) == kind_grid(kind),
    decreases r,
{
    let k = kind_grid(kind);
    reveal_with_fuel(orient, 5);
    if kind == PieceKind::I {
        lemma_four_turns_identity(k);
    } else if kind != PieceKind::O {
        lemma_four_turns3_identity(k);
    }
    if r == 0 {
        assert(k[1][1]);
    } else {
        lemma_orient(kind, (r - 1) as nat);
        let g = orient(kind, (r - 1) as nat);
        let (a, b) = choose|a: int, b: int| 0 <= a < 4 && 0 <= b < 4 && #[trigger] g[a][b];
        if kind == PieceKind::I {
            assert(rot(g)[b][3 - a]);
        } else if kind != PieceKind::O {
            assert(a < 3 && b < 3);
            assert(rot3(g)[b][2 - a]);
        }
    }
}

/// Turning the `r`-th orientation gives the next one, counted modulo four.
pub proof fn lemma_turn_orient(kind: PieceKind, r: nat)
    requires
        r < 4,
    ensures
        turn(kind, orient(kind, r)) == orient(kind, ((r + 1) % 4) as nat),
{
    lemma_orient(kind, 0);
}

/// Law of rotation: four clockwise quarter turns give back every orientation of every
/// kind.
pub proof fn lemma_four_turns_back(kind: PieceKind, r: nat)
    requires
        r < 4,
    ensures
        turn(kind, turn(kind, turn(kind, turn(kind, orient(kind, r))))) == orient(kind, r),
{
    lemma_turn_orient(kind, r);
    lemma_turn_orient(kind, ((r + 1) % 4) as nat);
    lemma_turn_orient(kind, ((r + 2) % 4) as nat);
    lemma_turn_orient(kind, ((r + 3) % 4) as nat);
    assert(((((r + 1) % 4) + 1) % 4) as nat == ((r + 2) % 4) as nat);
    assert(((((r + 2) % 4) + 1) % 4) as nat == ((r + 3) % 4) as nat);
    assert(((((r + 3) % 4) + 1) % 4) as nat == r);
}

/// A quarter turn moves each cell of a shape to one cell, and every cell of the turned
/// shape comes from one cell: cell `(r, c)` goes to `(c, 3 - r)` for the I piece and to
/// `(c, 2 - r)` for J, L, S, T and Z, and stays for the O piece. So a turn keeps the
/// number of filled cells.
pub proof fn lemma_turn_moves_cells(kind: PieceKind, rr: nat, r: int, c: int)
    requires
        rr < 4,
        0 <= r < 4,
        0 <= c < 4,
    ensures
        kind == PieceKind::O ==> turn(kind, orient(kind, rr))[r][c] == orient(kind, rr)[r][c],
        kind == PieceKind::I ==> turn(kind, orient(kind, rr))[c][3 - r] == orient(kind, rr)[r][c],
        kind != PieceKind::O && kind != PieceKind::I ==> {
            &&& (r < 3 && c < 3 ==> turn(kind, orient(kind, rr))[c][2 - r] == orient(kind, rr)[r][c])
            &&& (!(r < 3 && c < 3) ==> !orient(kind, rr)[r][c] && !turn(kind, orient(kind, rr))[r][c])
        },
{
    lemma_orient(kind, rr);
}

/// The spawn orientation of every kind can be a falling piece's shape.
pub proof fn lemma_kind_grid_ok(kind: PieceKind)
    ensures
        shape_ok(kind, kind_grid(kind)),
{
    lemma_orient(kind, 0);
}

/// A clockwise turn keeps a shape fit for a falling piece.
pub proof fn lemma_turn_shape_ok(kind: PieceKind, g: Seq<Seq<bool>>)
    requires
        shape_ok(kind, g),
    ensures
        shape_ok(kind, turn(kind, g)),
{
    let (a, b) = choose|a: int, b: int| 0 <= a < 4 && 0 <= b < 4 && #[trigger] g[a][b];
    if kind == PieceKind::I {
        assert(rot(g)[b][3 - a]);
    } else if kind != PieceKind::O {
        assert(a < 3 && b < 3);
        assert(rot3(g)[b][2 - a]);
    }
}

impl PieceKind {
    /// All seven kinds.
    pub fn all() -> (res: [PieceKind; 7])
        ensures
            res@ == all_kinds(),
    {
        let res = [Self::I, Self::O, Self::T, Self::S, Self::Z, Self::J, Self::L];
        assert(res@ =~= all_kinds());
        res
    }

    /// The spawn orientation of this kind, indexed `[row][column]`.
    pub fn shape(self) -> (res: [[bool; 4]; 4])
        ensures
            grid_of(res) == kind_grid(self),
            forall|r: int, c: int| 0 <= r < 4 && 0 <= c < 4 ==> res[r][c] == kind_cell(self, r, c),
    {
        let res = match self {
            Self::I => [
                [false, false, false, false],
                [true, true, true, true],
                [false, false, false, false],
                [false, false, false, false],
            ],
            Self::O => [
                [false, true, true, false],
                [false, true, true, false],
                [false, false, false, false],
                [false, false, false, false],
            ],
            Self::T => [
                [false, true, false, false],
                [true, true, true, false],
                [false, false, false, false],
                [false, false, false, false],
            ],
            Self::S => [
                [false, true, true, false],
                [true, true, false, false],
                [false, false, false, false],
                [false, false, false, false],
            ],
            Self::Z => [
                [true, true, false, false],
                [false, true, true, false],
                [false, false, false, false],
                [false, false, false, false],
            ],
            Self::J => [
                [true, false, false, false],
                [true, true, true, false],
                [false, false, false, false],
                [false, false, false, false],
            ],
            Self::L => [
                [false, false, true, false],
                [true, true, true, false],
                [false, false, false, false],
                [false, false, false, false],
            ],
        };
        assert forall|r: int| 0 <= r < 4 implies #[trigger] grid_of(res)[r] =~= kind_grid(self)[r] by {}
        assert(grid_of(res) =~= kind_grid(self));
        res
    }
}

/// A falling piece: its kind, its current orientation as a 4x4 grid, how many
/// clockwise quarter turns (modulo four) took it there from the spawn orientation,
/// and the board position of the top-left corner of its grid.
#[derive(Clone, Debug)]
pub struct Piece {
    pub kind: PieceKind,
    pub shape: [[bool; 4]; 4],
    pub x: i32,
    pub y: i32,
    pub rotation: u8,
}

/// `shape` turned a quarter turn clockwise inside its top-left `n`x`n` box; cells
/// outside the box end up empty.
fn turned_in_box(shape: &[[bool; 4]; 4], n: usize) -> (out: [[bool; 4]; 4])
    requires
        n == 3 || n == 4,
    ensures
        forall|i: int, j: int|
            0 <= i < 4 && 0 <= j < 4 ==> #[trigger] out[i][j] == if i < n && j < n {
                shape[n - 1 - j][i]
            } else {
                false
            },
{
    let mut out = [[false; 4]; 4];
    let mut r: usize = 0;
    while r < n
        invariant
            n == 3 || n == 4,
            r <= n,
            forall|i: int, j: int|
                0 <= i < 4 && 0 <= j < 4 ==> #[trigger] out[i][j] == if i < n && j < n && n - 1 - j < r {
                    shape[n - 1 - j][i]
                } else {
                    false
                },
        decreases n - r,
    {
        let mut c: usize = 0;
        while c < n
            invariant
                n == 3 || n == 4,
                r < n,
                c <= n,
                forall|i: int, j: int|
                    0 <= i < 4 && 0 <= j < 4 ==> #[trigger] out[i][j] == if i < n && j < n && (n - 1 - j
                        < r || (n - 1 - j == r && i < c)) {
                        shape[n - 1 - j][i]
                    } else {
                        false
                    },
            decreases n - c,
        {
            out[c][n - 1 - r] = shape[r][c];
            c += 1;
        }
        r += 1;
    }
    out
}

impl Piece {
    /// A piece of `kind` in its spawn orientation at the top centre of the board.
    pub fn new(kind: PieceKind) -> (res: Self)
        ensures
            res.kind == kind,
            grid_of(res.shape) == kind_grid(kind),
            res.x == 3,
            res.y == 0,
            res.rotation == 0,
    {
        Self { kind, shape: kind.shape(), x: (COLS as i32 / 2) - 2, y: 0, rotation: 0 }
    }

    /// This piece's shape turned a quarter turn clockwise under the Super Rotation
    /// System: in a 4x4 box for the I piece, in a 3x3 box for J, L, S, T and Z, and
    /// unchanged for the O piece.
    pub fn rotated_cw(&self) -> (out: [[bool; 4]; 4])
        ensures
            grid_of(out) == turn(self.kind, grid_of(self.shape)),
    {
        let out = match self.kind {
            PieceKind::O => self.shape,
            PieceKind::I => turned_in_box(&self.shape, 4),
            _ => turned_in_box(&self.shape, 3),
        };
        assert forall|i: int| 0 <= i < 4 implies #[trigger] grid_of(out)[i] =~= turn(
            self.kind,
            grid_of(self.shape),
        )[i] by {}
        assert(grid_of(out) =~= turn(self.kind, grid_of(self.shape)));
        out
    }

    /// The board squares `(column, row)` that this piece covers, each once.
    pub fn cells(&self) -> (res: Vec<(i32, i32)>)
        requires
            self.x + 3 <= i32::MAX,
            self.y + 3 <= i32::MAX,
        ensures
            res@.no_duplicates(),
            forall|p: (i32, i32)| #[trigger]
                res@.contains(p) <==> covers(grid_of(self.shape), self.x as int, self.y as int, p.0 as int, p.1 as int),
    {
        let mut res: Vec<(i32, i32)> = Vec::new();
        let mut r: usize = 0;
        while r < 4
            invariant
                r <= 4,
                self.x + 3 <= i32::MAX,
                self.y + 3 <= i32::MAX,
                res@.no_duplicates(),
                forall|p: (i32, i32)| #[trigger]
                    res@.contains(p) <==> (covers(grid_of(self.shape), self.x as int, self.y as int, p.0 as int, p.1 as int)
                        && p.1 - self.y < r),
            decreases 4 - r,
        {
            let mut c: usize = 0;
            while c < 4
                invariant
                    r < 4,
                    c <= 4,
                    self.x + 3 <= i32::MAX,
                    self.y + 3 <= i32::MAX,
                    res@.no_duplicates(),
                    forall|p: (i32, i32)| #[trigger]
                        res@.contains(p) <==> (covers(grid_of(self.shape), self.x as int, self.y as int, p.0 as int, p.1 as int)
                            && (p.1 - self.y < r || (p.1 - self.y == r && p.0 - self.x < c))),
                decreases 4 - c,
            {
                if self.shape[r][c] {
                    let p = (self.x + c as i32, self.y + r as i32);
                    let ghost old_res = res@;
                    assert(!old_res.contains(p));
                    res.push(p);
                    assert forall|q: (i32, i32)| #[trigger] res@.contains(q) <==> (old_res.contains(q) || q == p) by {
                        if res@.contains(q) {
                            let k = choose|k: int| 0 <= k < res@.len() && res@[k] == q;
                            if k < old_res.len() {
                                assert(old_res[k] == q);
                            }
                        }
                        if old_res.contains(q) {
                            let k = choose|k: int| 0 <= k < old_res.len() && old_res[k] == q;
                            assert(res@[k] == q);
                        }
                        if q == p {
                            assert(res@[old_res.len() as int] == q);
                        }
                    }
                }
                c += 1;
            }
            r += 1;
        }
        res
    }
}

} // verus!
