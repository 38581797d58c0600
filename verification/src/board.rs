use vstd::prelude::*;

use crate::count::{
    count, indicator, lemma_sum_add, lemma_sum_ext, lemma_sum_ones, lemma_sum_shift, lemma_sum_split, lemma_sum_widen,
    lemma_sum_zero, sum,
};
use crate::piece::{covers, has_cell, is_grid, orient, PieceKind};

verus! {

/// Width of the playfield in squares.
pub const COLS: usize = 10;

/// Height of the playfield in squares.
pub const ROWS: usize = 20;

/// The playfield, indexed `[row][column]`, row 0 at the top; each square holds the
/// kind of the piece that was locked there, if any.
pub type Board = [[Option<PieceKind>; COLS]; ROWS];

/// The playfield as a sequence of rows.
pub open spec fn board_grid(b: Board) -> Seq<Seq<Option<PieceKind>>> {
    Seq::new(20, |r: int| b[r]@)
}

/// A sequence of rows as a sequence of sequences.
pub open spec fn rows_of(v: Seq<[Option<PieceKind>; COLS]>) -> Seq<Seq<Option<PieceKind>>> {
    Seq::new(v.len(), |i: int| v[i]@)
}

/// `b` is a 20 by 10 grid.
pub open spec fn is_board(b: Seq<Seq<Option<PieceKind>>>) -> bool {
    b.len() == 20 && forall|r: int| 0 <= r < 20 ==> #[trigger] b[r].len() == 10
}

/// A row with no locked square.
pub open spec fn empty_row() -> Seq<Option<PieceKind>> {
    Seq::new(10, |c: int| None::<PieceKind>)
}

/// A playfield with no locked square.
pub open spec fn empty_board() -> Seq<Seq<Option<PieceKind>>> {
    Seq::new(20, |r: int| empty_row())
}

/// The shape `g` with its top-left corner at column `x`, row `y` lies inside the
/// side walls and above the floor, and overlaps no locked square. Squares above
/// the top of the playfield are free.
pub open spec fn fits(b: Seq<Seq<Option<PieceKind>>>, g: Seq<Seq<bool>>, x: int, y: int) -> bool {
    forall|r: int, c: int|
        0 <= r < 4 && 0 <= c < 4 && #[trigger] g[r][c] ==> {
            &&& 0 <= x + c < 10
            &&& y + r < 20
            &&& (y + r >= 0 ==> b[y + r][x + c] is None)
        }
}

/// Some filled square of `g`, placed at row `y`, lies above the top of the playfield.
pub open spec fn reaches_above(g: Seq<Seq<bool>>, y: int) -> bool {
    exists|r: int, c: int| 0 <= r < 4 && 0 <= c < 4 && #[trigger] g[r][c] && y + r < 0
}

/// The playfield with the squares that `g` covers at `(x, y)` set to `kind`.
pub open spec fn stamp(
    b: Seq<Seq<Option<PieceKind>>>,
    g: Seq<Seq<bool>>,
    x: int,
    y: int,
    kind: PieceKind,
) -> Seq<Seq<Option<PieceKind>>> {
    Seq::new(
        20,
        |r: int|
            Seq::new(10, |c: int| if covers(g, x, y, c, r) { Some(kind) } else { b[r][c] }),
    )
}

/// Every square of the row is locked.
pub open spec fn row_full(row: Seq<Option<PieceKind>>) -> bool {
    forall|c: int| 0 <= c < 10 ==> #[trigger] row[c] is Some
}

/// The rows that are not full, in their order.
pub open spec fn kept_rows(s: Seq<Seq<Option<PieceKind>>>) -> Seq<Seq<Option<PieceKind>>>
    decreases s.len(),
{
    if s.len() == 0 {
        s
    } else if row_full(s.last()) {
        kept_rows(s.drop_last())
    } else {
        kept_rows(s.drop_last()).push(s.last())
    }
}

/// The number of full rows.
pub open spec fn full_row_count(b: Seq<Seq<Option<PieceKind>>>) -> int {
    b.len() - kept_rows(b).len()
}

/// The playfield with its full rows removed: the other rows keep their order and
/// move down, and empty rows fill the top.
pub open spec fn clear_full_rows(b: Seq<Seq<Option<PieceKind>>>) -> Seq<Seq<Option<PieceKind>>> {
    Seq::new(full_row_count(b) as nat, |i: int| empty_row()) + kept_rows(b)
}

/// The row that the shape comes to rest on when it falls straight down from row `y`:
/// it moves down while it fits one row lower.
pub open spec fn land_y(b: Seq<Seq<Option<PieceKind>>>, g: Seq<Seq<bool>>, x: int, y: int) -> int
    decreases 20 - y,
{
    if y < 20 && fits(b, g, x, y + 1) {
        land_y(b, g, x, y + 1)
    } else {
        y
    }
}

/// Keeping the rows that are not full keeps no full row, keeps their order, and
/// keeps at most as many rows as there were.
pub proof fn lemma_kept_rows(s: Seq<Seq<Option<PieceKind>>>)
    ensures
        kept_rows(s).len() <= s.len(),
        forall|i: int| 0 <= i < kept_rows(s).len() ==> !row_full(#[trigger] kept_rows(s)[i]),
        forall|i: int| 0 <= i < kept_rows(s).len() ==> s.contains(#[trigger] kept_rows(s)[i]),
    decreases s.len(),
{
    if s.len() > 0 {
        lemma_kept_rows(s.drop_last());
        let k = kept_rows(s.drop_last());
        assert forall|i: int| 0 <= i < kept_rows(s).len() implies s.contains(#[trigger] kept_rows(s)[i]) by {
            if i < k.len() {
                let j = choose|j: int| 0 <= j < s.drop_last().len() && s.drop_last()[j] == k[i];
                assert(s[j] == k[i]);
            } else {
                assert(s[s.len() - 1] == kept_rows(s)[i]);
            }
        }
    }
}

/// Law of line clearing: on a 20 by 10 playfield, removing the full rows gives a
/// 20 by 10 playfield with no full row, whose bottom rows are the rows that were
/// not full, in their order, under `full_row_count` empty rows.
pub proof fn lemma_clear_full_rows(b: Seq<Seq<Option<PieceKind>>>)
    requires
        is_board(b),
    ensures
        is_board(clear_full_rows(b)),
        0 <= full_row_count(b) <= 20,
        forall|r: int| 0 <= r < 20 ==> !row_full(#[trigger] clear_full_rows(b)[r]),
        forall|r: int| 0 <= r < full_row_count(b) ==> #[trigger] clear_full_rows(b)[r] == empty_row(),
        clear_full_rows(b).subrange(full_row_count(b), 20) == kept_rows(b),
{
    lemma_kept_rows(b);
    let n = full_row_count(b);
    let cb = clear_full_rows(b);
    assert forall|r: int| 0 <= r < 20 implies #[trigger] cb[r].len() == 10 && !row_full(cb[r]) by {
        if r < n {
            assert(!(empty_row()[0] is Some));
        } else {
            assert(cb[r] == kept_rows(b)[r - n]);
            let j = choose|j: int| 0 <= j < b.len() && b[j] == kept_rows(b)[r - n];
            assert(b[j].len() == 10);
        }
    }
    assert(cb.subrange(n, 20) =~= kept_rows(b));
}

/// A shape with a filled square that fits lies within the columns `-3 ..= 9` and
/// the rows up to 19.
pub proof fn lemma_fits_bounds(b: Seq<Seq<Option<PieceKind>>>, g: Seq<Seq<bool>>, x: int, y: int)
    requires
        fits(b, g, x, y),
        has_cell(g),
    ensures
        -3 <= x <= 9,
        y <= 19,
{
    let (r, c) = choose|r: int, c: int| 0 <= r < 4 && 0 <= c < 4 && #[trigger] g[r][c];
    assert(g[r][c]);
}

/// A shape that does not fit at row `y` but fits `dy` rows lower (at most two rows
/// up or down) was blocked by a locked square or the floor, so it ends no higher than
/// row -5.
pub proof fn lemma_lift_bound(b: Seq<Seq<Option<PieceKind>>>, g: Seq<Seq<bool>>, x: int, y: int, dy: int)
    requires
        !fits(b, g, x, y),
        fits(b, g, x, y + dy),
        -2 <= dy <= 2,
    ensures
        y + dy >= -5,
{
    let (r, c) = choose|r: int, c: int|
        !(0 <= r < 4 && 0 <= c < 4 && #[trigger] g[r][c] ==> {
            &&& 0 <= x + c < 10
            &&& y + r < 20
            &&& (y + r >= 0 ==> b[y + r][x + c] is None)
        });
    assert(g[r][c]);
}

/// Law of the hard drop: from a row where it fits, a shape with a filled square lands
/// no higher than where it started, fits at every row on the way and at the landing
/// row, does not fit one row lower, and lands above the floor.
pub proof fn lemma_land_y(b: Seq<Seq<Option<PieceKind>>>, g: Seq<Seq<bool>>, x: int, y: int)
    requires
        fits(b, g, x, y),
        has_cell(g),
    ensures
        y <= land_y(b, g, x, y) <= 19,
        fits(b, g, x, land_y(b, g, x, y)),
        !fits(b, g, x, land_y(b, g, x, y) + 1),
        forall|z: int| y <= z <= land_y(b, g, x, y) ==> fits(b, g, x, z),
    decreases 20 - y,
{
    lemma_fits_bounds(b, g, x, y);
    if fits(b, g, x, y + 1) {
        lemma_land_y(b, g, x, y + 1);
        assert forall|z: int| y <= z <= land_y(b, g, x, y) implies fits(b, g, x, z) by {
            if z > y {
                assert(y + 1 <= z);
            }
        }
    }
}

/// A straight fall never moves a shape with a filled square up, and stops above the
/// floor unless it started below row 19.
pub proof fn lemma_land_y_above(b: Seq<Seq<Option<PieceKind>>>, g: Seq<Seq<bool>>, x: int, y: int)
    requires
        has_cell(g),
    ensures
        y <= land_y(b, g, x, y),
        y <= 19 ==> land_y(b, g, x, y) <= 19,
    decreases 20 - y,
{
    if y < 20 && fits(b, g, x, y + 1) {
        lemma_fits_bounds(b, g, x, y + 1);
        lemma_land_y_above(b, g, x, y + 1);
    }
}

/// Which squares of a row are locked.
pub open spec fn occ_pred(row: Seq<Option<PieceKind>>) -> spec_fn(int) -> bool {
    |c: int| row[c] is Some
}

/// The number of locked squares in a row.
pub open spec fn row_occupied(row: Seq<Option<PieceKind>>) -> int {
    count(occ_pred(row), 0, 10)
}

/// The number of locked squares of each row.
pub open spec fn row_counts(s: Seq<Seq<Option<PieceKind>>>) -> spec_fn(int) -> int {
    |r: int| row_occupied(s[r])
}

/// The number of locked squares in a sequence of rows.
pub open spec fn rows_occupied(s: Seq<Seq<Option<PieceKind>>>) -> int {
    sum(row_counts(s), 0, s.len() as int)
}

/// Which cells of row `r` of a shape are filled.
pub open spec fn cell_pred(g: Seq<Seq<bool>>, r: int) -> spec_fn(int) -> bool {
    |c: int| g[r][c]
}

/// The number of filled cells of each row of a shape.
pub open spec fn shape_row_counts(g: Seq<Seq<bool>>) -> spec_fn(int) -> int {
    |r: int| count(cell_pred(g, r), 0, 4)
}

/// The number of filled cells of a shape.
pub open spec fn cell_count(g: Seq<Seq<bool>>) -> int {
    sum(shape_row_counts(g), 0, 4)
}

/// Which squares of board row `r` the shape `g` at `(x, y)` covers.
pub open spec fn cover_pred(g: Seq<Seq<bool>>, x: int, y: int, r: int) -> spec_fn(int) -> bool {
    |c: int| covers(g, x, y, c, r)
}

/// Rows one after the other hold the locked squares of both.
pub proof fn lemma_rows_occupied_append(a: Seq<Seq<Option<PieceKind>>>, b: Seq<Seq<Option<PieceKind>>>)
    ensures
        rows_occupied(a + b) == rows_occupied(a) + rows_occupied(b),
{
    let ab = a + b;
    let f = row_counts(ab);
    lemma_sum_split(f, 0, a.len() as int, ab.len() as int);
    lemma_sum_ext(f, row_counts(a), 0, a.len() as int);
    lemma_sum_shift(row_counts(b), f, a.len() as int, 0, b.len() as int);
}

/// A full row holds ten locked squares, an empty one none.
pub proof fn lemma_row_occupied_full_empty(row: Seq<Option<PieceKind>>)
    ensures
        row_full(row) ==> row_occupied(row) == 10,
        row == empty_row() ==> row_occupied(row) == 0,
{
    let f = indicator(occ_pred(row));
    if row_full(row) {
        assert forall|c: int| 0 <= c < 10 implies #[trigger] f(c) == 1 by {
            assert(row[c] is Some);
        }
        lemma_sum_ones(f, 0, 10);
    }
    if row == empty_row() {
        assert forall|c: int| 0 <= c < 10 implies #[trigger] f(c) == 0 by {
            assert(row[c] is None);
        }
        lemma_sum_zero(f, 0, 10);
    }
}

/// Keeping the rows that are not full drops ten locked squares per full row.
pub proof fn lemma_kept_rows_occupied(s: Seq<Seq<Option<PieceKind>>>)
    ensures
        rows_occupied(kept_rows(s)) == rows_occupied(s) - 10 * (s.len() - kept_rows(s).len()),
    decreases s.len(),
{
    if s.len() > 0 {
        let init = s.drop_last();
        let one = seq![s.last()];
        lemma_kept_rows_occupied(init);
        assert(s =~= init + one);
        lemma_rows_occupied_append(init, one);
        lemma_rows_occupied_append(kept_rows(init), one);
        assert(kept_rows(init).push(s.last()) =~= kept_rows(init) + one);
        lemma_row_occupied_full_empty(s.last());
        assert(sum(row_counts(one), 0, 1) == sum(row_counts(one), 0, 0) + row_counts(one)(0));
        assert(rows_occupied(one) == row_occupied(s.last()));
    }
}

/// Law of line clearing, by count: removing the full rows of a playfield removes ten
/// locked squares per full row and no other.
pub proof fn lemma_clear_occupied(b: Seq<Seq<Option<PieceKind>>>)
    requires
        is_board(b),
    ensures
        rows_occupied(clear_full_rows(b)) == rows_occupied(b) - 10 * full_row_count(b),
{
    lemma_kept_rows(b);
    lemma_kept_rows_occupied(b);
    let empties = Seq::new(full_row_count(b) as nat, |i: int| empty_row());
    lemma_rows_occupied_append(empties, kept_rows(b));
    assert forall|r: int| 0 <= r < empties.len() implies #[trigger] row_counts(empties)(r) == 0 by {
        lemma_row_occupied_full_empty(empties[r]);
    }
    lemma_sum_zero(row_counts(empties), 0, empties.len() as int);
}

/// The squares that a shape at `(x, y)` covers in board row `r` are the filled cells of
/// its row `r - y`, provided every filled cell lies inside the side walls.
proof fn lemma_cover_row(g: Seq<Seq<bool>>, x: int, y: int, r: int)
    requires
        forall|i: int, j: int| 0 <= i < 4 && 0 <= j < 4 && #[trigger] g[i][j] ==> 0 <= x + j < 10,
    ensures
        count(cover_pred(g, x, y, r), 0, 10) == if 0 <= r - y < 4 {
            count(cell_pred(g, r - y), 0, 4)
        } else {
            0
        },
{
    let ind = indicator(cover_pred(g, x, y, r));
    if 0 <= r - y < 4 {
        let j = r - y;
        let h = |i: int| if 0 <= i < 4 && g[j][i] { 1int } else { 0int };
        assert forall|i: int| -x <= i < 10 - x implies ind(i + x) == #[trigger] h(i) by {}
        lemma_sum_shift(h, ind, x, -x, 10 - x);
        assert(-x + x == 0 && 10 - x + x == 10);
        let lo = if 0 < -x { 0 } else { -x };
        let hi = if 4 > 10 - x { 4 } else { 10 - x };
        assert forall|i: int| lo <= i < -x implies #[trigger] h(i) == 0 by {
            if 0 <= i < 4 && g[j][i] {
                assert(g[j][i]);
            }
        }
        assert forall|i: int| 10 - x <= i < hi implies #[trigger] h(i) == 0 by {
            if 0 <= i < 4 && g[j][i] {
                assert(g[j][i]);
            }
        }
        lemma_sum_widen(h, -x, 10 - x, lo, hi);
        lemma_sum_widen(h, 0, 4, lo, hi);
        lemma_sum_ext(h, indicator(cell_pred(g, j)), 0, 4);
    } else {
        lemma_sum_zero(ind, 0, 10);
    }
}

/// Law of locking, by count: writing a shape that fits, with nothing above the top,
/// into the playfield adds exactly its filled cells to the locked squares.
pub proof fn lemma_stamp_occupied(
    b: Seq<Seq<Option<PieceKind>>>,
    g: Seq<Seq<bool>>,
    x: int,
    y: int,
    kind: PieceKind,
)
    requires
        is_board(b),
        is_grid(g),
        fits(b, g, x, y),
        !reaches_above(g, y),
    ensures
        rows_occupied(stamp(b, g, x, y, kind)) == rows_occupied(b) + cell_count(g),
{
    let st = stamp(b, g, x, y, kind);
    let cov = |r: int| count(cover_pred(g, x, y, r), 0, 10);
    assert forall|r: int| 0 <= r < 20 implies #[trigger] row_counts(st)(r) == row_counts(b)(r) + cov(r) by {
        let fs = indicator(occ_pred(st[r]));
        let fb = indicator(occ_pred(b[r]));
        let fc = indicator(cover_pred(g, x, y, r));
        assert forall|c: int| 0 <= c < 10 implies #[trigger] fs(c) == fb(c) + fc(c) by {
            if covers(g, x, y, c, r) {
                assert(g[r - y][c - x]);
            }
        }
        lemma_sum_add(fb, fc, fs, 0, 10);
    }
    lemma_sum_add(row_counts(b), cov, row_counts(st), 0, 20);
    let big_f = |j: int| if 0 <= j < 4 { count(cell_pred(g, j), 0, 4) } else { 0 };
    let shifted = |r: int| big_f(r - y);
    assert forall|r: int| 0 <= r < 20 implies #[trigger] cov(r) == shifted(r) by {
        lemma_cover_row(g, x, y, r);
    }
    lemma_sum_ext(cov, shifted, 0, 20);
    assert forall|i: int| -y <= i < 20 - y implies shifted(i + y) == #[trigger] big_f(i) by {}
    lemma_sum_shift(big_f, shifted, y, -y, 20 - y);
    assert(-y + y == 0 && 20 - y + y == 20);
    let lo = if 0 < -y { 0 } else { -y };
    let hi = if 4 > 20 - y { 4 } else { 20 - y };
    assert forall|j: int| (lo <= j < -y || 20 - y <= j < hi) implies #[trigger] big_f(j) == 0 by {
        if 0 <= j < 4 {
            let fj = indicator(cell_pred(g, j));
            assert forall|c: int| 0 <= c < 4 implies #[trigger] fj(c) == 0 by {
                if g[j][c] {
                    assert(g[j][c]);
                }
            }
            lemma_sum_zero(fj, 0, 4);
        }
    }
    lemma_sum_widen(big_f, -y, 20 - y, lo, hi);
    lemma_sum_widen(big_f, 0, 4, lo, hi);
    lemma_sum_ext(big_f, shape_row_counts(g), 0, 4);
}

/// Every orientation of every kind has exactly four filled cells.
pub proof fn lemma_four_cells(kind: PieceKind, r: nat)
    requires
        r < 4,
    ensures
        cell_count(orient(kind, r)) == 4,
{
    reveal_with_fuel(orient, 4);
    reveal_with_fuel(sum, 5);
    let g = orient(kind, r);
    assert(cell_count(g) == 4) by {
        assert(shape_row_counts(g)(0) == count(cell_pred(g, 0), 0, 4));
        assert(shape_row_counts(g)(1) == count(cell_pred(g, 1), 0, 4));
        assert(shape_row_counts(g)(2) == count(cell_pred(g, 2), 0, 4));
        assert(shape_row_counts(g)(3) == count(cell_pred(g, 3), 0, 4));
    }
}

} // verus!
