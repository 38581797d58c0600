use vstd::prelude::*;

use vstd::wrapping::{i32_specs, u32_specs};

use crate::board::{fits, full_row_count, is_board, land_y, lemma_clear_full_rows, lemma_land_y, reaches_above, stamp};
use crate::game::{
    after_event, kick_table, rotated_from, square_shown, state_ok, ticked, GameEvent, GameState,
    InputEvent, Square,
};
use crate::piece::{covers, is_grid, kind_grid, turn, PieceKind};

verus! {

/// Law of the combo counter under gravity: a lock counts consecutive clearing locks,
/// not lines. When gravity locks a piece (it cannot fall and nothing of it is above
/// the top), the counter goes up by exactly one if the lock clears at least one line,
/// and back to 0 if it clears none.
pub proof fn lemma_tick_combo(s: GameState, next: PieceKind)
    requires
        state_ok(s),
        !s.game_over,
        !s.paused,
        !fits(s.board, s.shape, s.x, s.y + 1),
        !reaches_above(s.shape, s.y),
    ensures
        full_row_count(stamp(s.board, s.shape, s.x, s.y, s.kind)) > 0 ==> ticked(s, next).combo
            == i32_specs::wrapping_add(s.combo, 1),
        full_row_count(stamp(s.board, s.shape, s.x, s.y, s.kind)) <= 0 ==> ticked(s, next).combo == 0,
{
}

/// Law of the combo counter under a hard drop: the lock at the landing row raises the
/// counter by exactly one if it clears at least one line, and resets it to 0 if it
/// clears none.
pub proof fn lemma_hard_drop_combo(s: GameState, next: PieceKind)
    requires
        state_ok(s),
        !s.game_over,
        !s.paused,
        !reaches_above(s.shape, land_y(s.board, s.shape, s.x, s.y)),
    ensures
        ({
            let gy = land_y(s.board, s.shape, s.x, s.y);
            let n = full_row_count(stamp(s.board, s.shape, s.x, gy, s.kind));
            &&& n > 0 ==> after_event(s, InputEvent::HardDrop, next).0.combo == i32_specs::wrapping_add(
                s.combo,
                1,
            )
            &&& n <= 0 ==> after_event(s, InputEvent::HardDrop, next).0.combo == 0
        }),
{
}

/// The official Super Rotation System wall-kick tests for a clockwise turn from
/// rotation state `from` (0 spawn, 1 right, 2 upside down, 3 left), as `(dx, dy)` with
/// `dx` to the right and `dy` down: one table for the I piece, one for J, L, S, T and
/// Z, and for the O piece only its own place.
pub open spec fn srs_tests(kind: PieceKind, from: int) -> Seq<(int, int)> {
    if kind == PieceKind::O {
        seq![(0int, 0int), (0, 0), (0, 0), (0, 0), (0, 0)]
    } else if kind == PieceKind::I {
        if from == 0 {
            seq![(0int, 0int), (-2, 0), (1, 0), (-2, 1), (1, -2)]
        } else if from == 1 {
            seq![(0int, 0int), (-1, 0), (2, 0), (-1, -2), (2, 1)]
        } else if from == 2 {
            seq![(0int, 0int), (2, 0), (-1, 0), (2, -1), (-1, 2)]
        } else {
            seq![(0int, 0int), (1, 0), (-2, 0), (1, 2), (-2, -1)]
        }
    } else {
        if from == 0 {
            seq![(0int, 0int), (-1, 0), (-1, -1), (0, 2), (-1, 2)]
        } else if from == 1 {
            seq![(0int, 0int), (1, 0), (1, 1), (0, -2), (1, -2)]
        } else if from == 2 {
            seq![(0int, 0int), (1, 0), (1, -1), (0, 2), (1, 2)]
        } else {
            seq![(0int, 0int), (-1, 0), (-1, 1), (0, -2), (-1, -2)]
        }
    }
}

proof fn lemma_srs_tests_match(kind: PieceKind, from: int)
    requires
        0 <= from < 4,
    ensures
        srs_tests(kind, from) == kick_table(kind, from),
{
    assert(srs_tests(kind, from) =~= kick_table(kind, from));
}

proof fn lemma_rotated_from_first(s: GameState, g: Seq<Seq<bool>>, i: int, k: int)
    requires
        0 <= i <= k < 5,
        forall|j: int|
            i <= j < k ==> !fits(
                s.board,
                g,
                s.x + #[trigger] kick_table(s.kind, s.rotation)[j].0,
                s.y + kick_table(s.kind, s.rotation)[j].1,
            ),
        fits(s.board, g, s.x + kick_table(s.kind, s.rotation)[k].0, s.y + kick_table(s.kind, s.rotation)[k].1),
    ensures
        rotated_from(s, g, i) == (GameState {
            shape: g,
            rotation: (s.rotation + 1) % 4,
            x: s.x + kick_table(s.kind, s.rotation)[k].0,
            y: s.y + kick_table(s.kind, s.rotation)[k].1,
            ..s
        }),
    decreases k - i,
{
    if i < k {
        lemma_rotated_from_first(s, g, i + 1, k);
    }
}

proof fn lemma_rotated_from_none(s: GameState, g: Seq<Seq<bool>>, i: int)
    requires
        0 <= i,
        forall|j: int|
            i <= j < 5 ==> !fits(
                s.board,
                g,
                s.x + #[trigger] kick_table(s.kind, s.rotation)[j].0,
                s.y + kick_table(s.kind, s.rotation)[j].1,
            ),
    ensures
        rotated_from(s, g, i) == s,
    decreases 5 - i,
{
    if i < 5 {
        lemma_rotated_from_none(s, g, i + 1);
    }
}

/// Law of rotation with wall kicks: a clockwise turn tries the official SRS tests of
/// the piece's kind and rotation state in order and takes the first at which the
/// turned shape fits: the piece moves by that test's offset, takes the turned shape,
/// and its rotation state moves on by one; nothing else changes.
pub proof fn lemma_turn_takes_first_fitting_test(s: GameState, next: PieceKind, k: int)
    requires
        state_ok(s),
        !s.game_over,
        !s.paused,
        0 <= k < 5,
        forall|j: int|
            0 <= j < k ==> !fits(
                s.board,
                turn(s.kind, s.shape),
                s.x + #[trigger] srs_tests(s.kind, s.rotation)[j].0,
                s.y + srs_tests(s.kind, s.rotation)[j].1,
            ),
        fits(
            s.board,
            turn(s.kind, s.shape),
            s.x + srs_tests(s.kind, s.rotation)[k].0,
            s.y + srs_tests(s.kind, s.rotation)[k].1,
        ),
    ensures
        after_event(s, InputEvent::RotateCW, next) == (
            GameState {
                shape: turn(s.kind, s.shape),
                rotation: (s.rotation + 1) % 4,
                x: s.x + srs_tests(s.kind, s.rotation)[k].0,
                y: s.y + srs_tests(s.kind, s.rotation)[k].1,
                ..s
            },
            GameEvent::Redraw,
        ),
{
    lemma_srs_tests_match(s.kind, s.rotation);
    lemma_rotated_from_first(s, turn(s.kind, s.shape), 0, k);
}

/// Law of a refused rotation: when the turned shape fits at none of the official SRS
/// tests, a clockwise turn changes nothing.
pub proof fn lemma_turn_refused(s: GameState, next: PieceKind)
    requires
        state_ok(s),
        !s.game_over,
        !s.paused,
        forall|j: int|
            0 <= j < 5 ==> !fits(
                s.board,
                turn(s.kind, s.shape),
                s.x + #[trigger] srs_tests(s.kind, s.rotation)[j].0,
                s.y + srs_tests(s.kind, s.rotation)[j].1,
            ),
    ensures
        after_event(s, InputEvent::RotateCW, next) == (s, GameEvent::Redraw),
{
    lemma_srs_tests_match(s.kind, s.rotation);
    lemma_rotated_from_none(s, turn(s.kind, s.shape), 0);
}

/// Law of the clockwise turn of a shape, cell by cell: the I piece's cell `(r, c)`
/// moves to `(c, 3 - r)`; the O piece does not turn; for J, L, S, T and Z the cell
/// `(r, c)` of the 3x3 box moves to `(c, 2 - r)` and nothing lies outside the box.
pub proof fn lemma_turn_cells(kind: PieceKind, g: Seq<Seq<bool>>, r: int, c: int)
    requires
        is_grid(g),
        0 <= r < 4,
        0 <= c < 4,
    ensures
        is_grid(turn(kind, g)),
        kind == PieceKind::O ==> turn(kind, g)[r][c] == g[r][c],
        kind == PieceKind::I ==> turn(kind, g)[c][3 - r] == g[r][c],
        kind != PieceKind::O && kind != PieceKind::I ==> {
            &&& (r < 3 && c < 3 ==> turn(kind, g)[c][2 - r] == g[r][c])
            &&& (r == 3 || c == 3 ==> !turn(kind, g)[r][c])
        },
{
}

/// Law of the playfield display: with `gy` the row where the falling piece comes to
/// rest (it fits at every row from its own down to `gy`, and not one row lower), a
/// square shows the falling piece exactly where its current shape covers it, shows
/// the ghost exactly where that same shape placed at `gy` covers it and the piece does
/// not, and otherwise shows what is locked there.
pub proof fn lemma_square_law(s: GameState, c: int, r: int, gy: int)
    requires
        state_ok(s),
        !s.game_over,
        0 <= c < 10,
        0 <= r < 20,
        s.y <= gy,
        forall|z: int| s.y <= z <= gy ==> fits(s.board, s.shape, s.x, z),
        !fits(s.board, s.shape, s.x, gy + 1),
    ensures
        (square_shown(s, c, r) == Square::Active(s.kind)) <==> covers(s.shape, s.x, s.y, c, r),
        (square_shown(s, c, r) == Square::Shadow) <==> (!covers(s.shape, s.x, s.y, c, r) && covers(
            s.shape,
            s.x,
            gy,
            c,
            r,
        )),
        !covers(s.shape, s.x, s.y, c, r) && !covers(s.shape, s.x, gy, c, r) ==> {
            &&& (s.board[r][c] is Some ==> square_shown(s, c, r) == Square::Locked(s.board[r][c]->0))
            &&& (s.board[r][c] is None ==> square_shown(s, c, r) == Square::Empty)
        },
{
    lemma_land_y(s.board, s.shape, s.x, s.y);
    let l = land_y(s.board, s.shape, s.x, s.y);
    if gy < l {
        assert(fits(s.board, s.shape, s.x, gy + 1));
    }
    if gy > l {
        assert(fits(s.board, s.shape, s.x, l + 1));
    }
    assert(gy == l);
}

/// Law of holding into an empty slot: the falling kind goes to the hold slot, holding
/// is barred, the playfield and score stay, and the previewed kind `next` enters at
/// the top centre (column 3, row 0) in its spawn orientation with rotation state 0 if
/// it fits there; if it does not, the game is over and the falling piece stays.
pub proof fn lemma_hold_into_empty_slot(s: GameState, next: PieceKind)
    requires
        state_ok(s),
        !s.game_over,
        !s.paused,
        s.can_hold,
        s.held is None,
    ensures
        ({
            let (t, e) = after_event(s, InputEvent::Hold, next);
            &&& e == GameEvent::Redraw
            &&& t.held == Some(s.kind)
            &&& !t.can_hold
            &&& t.board == s.board
            &&& t.score == s.score
            &&& fits(s.board, kind_grid(next), 3, 0) ==> {
                &&& !t.game_over
                &&& t.kind == next
                &&& t.shape == kind_grid(next)
                &&& t.x == 3
                &&& t.y == 0
                &&& t.rotation == 0
            }
            &&& !fits(s.board, kind_grid(next), 3, 0) ==> {
                &&& t.game_over
                &&& t.kind == s.kind
                &&& t.shape == s.shape
                &&& t.x == s.x
                &&& t.y == s.y
            }
        }),
{
}

/// Law of swapping with a held kind `h`: the falling kind goes to the hold slot,
/// holding is barred, and `h` enters at the top centre in its spawn orientation with
/// rotation state 0 if it fits there; otherwise the game is over and the falling piece
/// stays.
pub proof fn lemma_hold_swaps(s: GameState, next: PieceKind, h: PieceKind)
    requires
        state_ok(s),
        !s.game_over,
        !s.paused,
        s.can_hold,
        s.held == Some(h),
    ensures
        ({
            let (t, e) = after_event(s, InputEvent::Hold, next);
            &&& e == GameEvent::Redraw
            &&& t.held == Some(s.kind)
            &&& !t.can_hold
            &&& t.board == s.board
            &&& t.score == s.score
            &&& fits(s.board, kind_grid(h), 3, 0) ==> {
                &&& !t.game_over
                &&& t.kind == h
                &&& t.shape == kind_grid(h)
                &&& t.x == 3
                &&& t.y == 0
                &&& t.rotation == 0
            }
            &&& !fits(s.board, kind_grid(h), 3, 0) ==> {
                &&& t.game_over
                &&& t.kind == s.kind
                &&& t.shape == s.shape
                &&& t.x == s.x
                &&& t.y == s.y
            }
        }),
{
}

/// Law of gravity in open space: a piece that fits one row lower falls by one row and
/// nothing else changes.
pub proof fn lemma_tick_falls(s: GameState, next: PieceKind)
    requires
        !s.game_over,
        !s.paused,
        fits(s.board, s.shape, s.x, s.y + 1),
    ensures
        ticked(s, next) == (GameState { y: s.y + 1, ..s }),
{
}

/// Law of the moves: left and right shift the piece by one column where it fits there,
/// and a soft drop moves it one row down where it fits there and adds the level to the
/// score; where the piece does not fit, nothing changes.
pub proof fn lemma_moves(s: GameState, next: PieceKind)
    requires
        !s.game_over,
        !s.paused,
    ensures
        after_event(s, InputEvent::Left, next) == (if fits(s.board, s.shape, s.x - 1, s.y) {
            GameState { x: s.x - 1, ..s }
        } else {
            s
        }, GameEvent::Redraw),
        after_event(s, InputEvent::Right, next) == (if fits(s.board, s.shape, s.x + 1, s.y) {
            GameState { x: s.x + 1, ..s }
        } else {
            s
        }, GameEvent::Redraw),
        after_event(s, InputEvent::SoftDrop, next) == (if fits(s.board, s.shape, s.x, s.y + 1) {
            GameState { y: s.y + 1, score: u32_specs::wrapping_add(s.score, s.level), ..s }
        } else {
            s
        }, GameEvent::Redraw),
{
}

/// Law of locking above the top: when gravity would lock a piece part of which lies
/// above the top of the playfield, the game is over and nothing else changes; in
/// particular no square of the piece is written.
pub proof fn lemma_lock_above_top_ends(s: GameState, next: PieceKind)
    requires
        !s.game_over,
        !s.paused,
        !fits(s.board, s.shape, s.x, s.y + 1),
        reaches_above(s.shape, s.y),
    ensures
        ticked(s, next) == (GameState { game_over: true, ..s }),
{
}

} // verus!
