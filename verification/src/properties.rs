use vstd::prelude::*;

use vstd::wrapping::{i32_specs, u32_specs};

use crate::bag::lemma_full_bags_blocks;
use crate::board::{
    cell_count, lemma_clear_occupied, lemma_four_cells, lemma_stamp_occupied, rows_occupied,
    clear_full_rows, fits, full_row_count, is_board, land_y, lemma_clear_full_rows, lemma_land_y,
    reaches_above, row_full, stamp,
};
use crate::game::{
    after_event, combo_bonus, hard_drop_points, held_swap, kick_table, line_points, locked, rotated_from, scored, spawned, state_ok, ticked,
    Game, GameEvent, GameState, InputEvent,
};
use crate::piece::{
    all_kinds, kind_grid, lemma_kind_grid_ok, lemma_turn_orient, orient, turn, PieceKind,
};

verus! {

/// The seven-bag promise for a game: every block of seven consecutive pieces dealt
/// from the start of the game, at a multiple of seven, holds each kind exactly once.
pub proof fn lemma_game_deals_complete_sets(g: &Game, k: int)
    requires
        g.inv(),
        0 <= k,
        7 * k + 7 <= g.dealt().len(),
    ensures
        g.dealt().subrange(7 * k, 7 * k + 7).to_multiset() == all_kinds().to_multiset(),
{
    let s = g.dealt() + g.upcoming();
    lemma_full_bags_blocks(s, k);
    assert(s.subrange(7 * k, 7 * k + 7) =~= g.dealt().subrange(7 * k, 7 * k + 7));
}

/// A finished game stays as it is: gravity and every input change nothing, and inputs
/// are answered with `GameEvent::Nothing`.
pub proof fn lemma_game_over_is_final(s: GameState, ev: InputEvent, next: PieceKind)
    requires
        s.game_over,
    ensures
        ticked(s, next) == s,
        after_event(s, ev, next) == (s, GameEvent::Nothing),
{
}

/// While paused, gravity changes nothing and every input but pause and quit is
/// ignored.
pub proof fn lemma_paused_freezes(s: GameState, ev: InputEvent, next: PieceKind)
    requires
        s.paused,
        !s.game_over,
        ev != InputEvent::Pause,
        ev != InputEvent::Quit,
    ensures
        ticked(s, next) == s,
        after_event(s, ev, next) == (s, GameEvent::Nothing),
{
}

/// Pausing twice gives back the state one started from.
pub proof fn lemma_pause_twice_restores(s: GameState, next: PieceKind)
    requires
        !s.game_over,
    ensures
        after_event(after_event(s, InputEvent::Pause, next).0, InputEvent::Pause, next).0 == s,
{
    assert(after_event(after_event(s, InputEvent::Pause, next).0, InputEvent::Pause, next).0 =~= s);
}

/// Quitting is answered with `GameEvent::Quit` and changes nothing, paused or not.
pub proof fn lemma_quit(s: GameState, next: PieceKind)
    requires
        !s.game_over,
    ensures
        after_event(s, InputEvent::Quit, next) == (s, GameEvent::Quit),
{
}

/// Holding works once per piece: after a hold, holding again changes nothing until
/// the next lock.
pub proof fn lemma_hold_once(s: GameState, next1: PieceKind, next2: PieceKind)
    requires
        !s.game_over,
        !s.paused,
    ensures
        !held_swap(s, next1).can_hold,
        after_event(held_swap(s, next1), InputEvent::Hold, next2).0 == held_swap(s, next1),
{
}

/// A hold puts the falling kind in the hold slot.
pub proof fn lemma_hold_keeps_kind(s: GameState, next: PieceKind)
    requires
        s.can_hold,
    ensures
        held_swap(s, next).held == Some(s.kind),
{
}

/// A successful move left is undone by a move right.
pub proof fn lemma_left_then_right(s: GameState, next: PieceKind)
    requires
        state_ok(s),
        !s.game_over,
        !s.paused,
        fits(s.board, s.shape, s.x - 1, s.y),
    ensures
        after_event(after_event(s, InputEvent::Left, next).0, InputEvent::Right, next).0 == s,
{
    assert(after_event(after_event(s, InputEvent::Left, next).0, InputEvent::Right, next).0 =~= s);
}

/// After a lock the playfield holds no full row.
pub proof fn lemma_lock_leaves_no_full_row(s: GameState, next: PieceKind)
    requires
        state_ok(s),
        !reaches_above(s.shape, s.y),
    ensures
        forall|r: int| 0 <= r < 20 ==> !row_full(#[trigger] locked(s, next).board[r]),
{
    let b = stamp(s.board, s.shape, s.x, s.y, s.kind);
    assert(is_board(b));
    lemma_clear_full_rows(b);
}

/// The kind that enters after a lock is the one that the preview showed, unless it
/// does not fit, and then the game is over.
pub proof fn lemma_preview_enters(s: GameState, next: PieceKind)
    requires
        !reaches_above(s.shape, s.y),
    ensures
        fits(locked(s, next).board, kind_grid(next), 3, 0) ==> locked(s, next).kind == next
            && locked(s, next).x == 3 && locked(s, next).y == 0,
        !fits(locked(s, next).board, kind_grid(next), 3, 0) ==> locked(s, next).game_over,
{
}

/// Law of the level: when the level is one more than the number of completed tens
/// of cleared lines, every gravity step and every input keep it so, so the level rises
/// by one every ten lines.
pub proof fn lemma_level_follows_lines(s: GameState, ev: InputEvent, next: PieceKind)
    requires
        state_ok(s),
        s.level == s.lines / 10 + 1,
    ensures
        ticked(s, next).level == ticked(s, next).lines / 10 + 1,
        after_event(s, ev, next).0.level == after_event(s, ev, next).0.lines / 10 + 1,
{
    lemma_lock_level(s, next);
    let gy = land_y(s.board, s.shape, s.x, s.y);
    lemma_lock_level(
        GameState { score: u32_specs::wrapping_add(s.score, hard_drop_points(s, gy)), y: gy, ..s },
        next,
    );
    lemma_rotated_score(s, turn(s.kind, s.shape), 0);
}

proof fn lemma_lock_level(s: GameState, next: PieceKind)
    requires
        s.level == s.lines / 10 + 1,
    ensures
        locked(s, next).level == locked(s, next).lines / 10 + 1,
{
    if !reaches_above(s.shape, s.y) {
        let b = stamp(s.board, s.shape, s.x, s.y, s.kind);
        assert(is_board(b));
        lemma_clear_full_rows(b);
    }
}

/// A piece enters at the top centre in its spawn orientation when it fits there.
pub proof fn lemma_spawn_position(s: GameState, k: PieceKind)
    requires
        fits(s.board, kind_grid(k), 3, 0),
    ensures
        spawned(s, k).kind == k,
        spawned(s, k).shape == kind_grid(k),
        spawned(s, k).x == 3,
        spawned(s, k).y == 0,
        !spawned(s, k).game_over || s.game_over,
{
}

/// The scoring table's points for clearing `n` lines at once: 100, 300, 500 and 800
/// for one to four lines.
pub open spec fn table_points(n: int) -> int {
    if n == 1 {
        100
    } else if n == 2 {
        300
    } else if n == 3 {
        500
    } else if n == 4 {
        800
    } else {
        0
    }
}

/// The points that a clear of `n` lines earns, counted without wrap-around:
/// `(100, 300, 500 or 800 for one to four lines + 50 * (combo - 1)) * level`, with
/// `combo` the raised combo counter; nothing when no line is cleared.
pub open spec fn clear_gain(s: GameState, n: int) -> int {
    if n > 0 {
        let c = i32_specs::wrapping_add(s.combo, 1);
        (table_points(n) + if c > 1 {
            50 * (c - 1)
        } else {
            0
        }) * s.level
    } else {
        0
    }
}

/// The points that locking the falling piece earns, counted without wrap-around.
pub open spec fn lock_gain(s: GameState) -> int {
    if reaches_above(s.shape, s.y) {
        0
    } else {
        clear_gain(s, full_row_count(stamp(s.board, s.shape, s.x, s.y, s.kind)))
    }
}

/// The points that a gravity step earns, counted without wrap-around.
pub open spec fn tick_gain(s: GameState) -> int {
    if s.game_over || s.paused || fits(s.board, s.shape, s.x, s.y + 1) {
        0
    } else {
        lock_gain(s)
    }
}

/// The points that input `ev` earns, counted without wrap-around: a soft drop one per
/// level, a hard drop two per row per level plus what the lock earns, anything else
/// nothing.
pub open spec fn event_gain(s: GameState, ev: InputEvent) -> int {
    if s.game_over || s.paused {
        0
    } else if ev == InputEvent::SoftDrop {
        if fits(s.board, s.shape, s.x, s.y + 1) {
            s.level as int
        } else {
            0
        }
    } else if ev == InputEvent::HardDrop {
        let gy = land_y(s.board, s.shape, s.x, s.y);
        2 * (gy - s.y) * s.level + lock_gain(GameState { y: gy, ..s })
    } else {
        0
    }
}

/// Scoring of a clear: when the points fit in the 32-bit score, the score grows by
/// exactly `clear_gain`; when the line count does not wrap, it grows by `n` and the
/// level follows it.
pub proof fn lemma_clear_points(s: GameState, n: int)
    requires
        0 <= n <= 20,
    ensures
        clear_gain(s, n) >= 0,
        s.score + clear_gain(s, n) <= u32::MAX ==> scored(s, n).score == s.score + clear_gain(s, n),
        n > 0 && s.lines + n <= u32::MAX ==> scored(s, n).lines == s.lines + n && scored(s, n).level
            == (s.lines + n) / 10 + 1,
        n == 0 ==> scored(s, n).lines == s.lines && scored(s, n).level == s.level,
{
    assert(table_points(n) == line_points(n));
    if n > 0 {
        let c = i32_specs::wrapping_add(s.combo, 1);
        let bonus: int = if c > 1 {
            50 * (c - 1)
        } else {
            0
        };
        let base: int = line_points(n) + bonus;
        assert(base >= 0);
        assert(base * s.level >= 0) by (nonlinear_arith)
            requires
                base >= 0,
                s.level >= 0,
        ;
        if s.level == 0 {
            assert(base * s.level == 0) by (nonlinear_arith)
                requires
                    s.level == 0,
            ;
            assert(clear_gain(s, n) == 0);
            let w = u32_specs::wrapping_add(line_points(n), combo_bonus(c));
            assert((w as nat) * (s.level as nat) == 0) by (nonlinear_arith)
                requires
                    s.level == 0,
            ;
            assert(u32_specs::wrapping_mul(w, s.level) == 0);
        } else if s.score + clear_gain(s, n) <= u32::MAX {
            assert(base * s.level >= base) by (nonlinear_arith)
                requires
                    base >= 0,
                    s.level >= 1,
            ;
            assert(base <= u32::MAX);
            if c > 1 {
                let m = (50 * (c - 1) as u32) as nat;
                assert(((c - 1) as u32) as nat == c - 1);
                assert(m == 50 * (c - 1));
                vstd::arithmetic::div_mod::lemma_small_mod(m, 0x1_0000_0000);
                assert(combo_bonus(c) == bonus);
            }
            assert(u32_specs::wrapping_add(line_points(n), combo_bonus(c)) == base);
            let prod = (base as nat) * (s.level as nat);
            assert(prod == base * s.level);
            vstd::arithmetic::div_mod::lemma_small_mod(prod, 0x1_0000_0000);
            assert(u32_specs::wrapping_mul(base as u32, s.level) == base * s.level);
        }
    }
}

/// Locking: when the points fit in the 32-bit score, the score grows by exactly
/// `lock_gain`, which is never negative.
pub proof fn lemma_lock_points(s: GameState, next: PieceKind)
    requires
        state_ok(s),
    ensures
        lock_gain(s) >= 0,
        s.score + lock_gain(s) <= u32::MAX ==> locked(s, next).score == s.score + lock_gain(s),
{
    if !reaches_above(s.shape, s.y) {
        let b = stamp(s.board, s.shape, s.x, s.y, s.kind);
        assert(is_board(b));
        lemma_clear_full_rows(b);
        let s1 = GameState { board: clear_full_rows(b), can_hold: true, ..s };
        lemma_clear_points(s1, full_row_count(b));
    }
}

proof fn lemma_rotated_score(s: GameState, g: Seq<Seq<bool>>, i: int)
    ensures
        rotated_from(s, g, i).score == s.score,
        rotated_from(s, g, i).lines == s.lines,
        rotated_from(s, g, i).level == s.level,
    decreases 5 - i,
{
    if 0 <= i < 5 {
        lemma_rotated_score(s, g, i + 1);
    }
}

/// Law of the score under gravity: when the points fit in the 32-bit score, a
/// gravity step adds exactly `tick_gain` to it, which is never negative; so the score
/// never falls unless it wraps around.
pub proof fn lemma_tick_points(s: GameState, next: PieceKind)
    requires
        state_ok(s),
    ensures
        tick_gain(s) >= 0,
        s.score + tick_gain(s) <= u32::MAX ==> ticked(s, next).score == s.score + tick_gain(s),
{
    if !s.game_over && !s.paused && !fits(s.board, s.shape, s.x, s.y + 1) {
        lemma_lock_points(s, next);
    }
}

/// Law of the score under inputs: when the points fit in the 32-bit score, an input
/// adds exactly `event_gain` to it, which is never negative; so no input lowers the
/// score unless it wraps around.
pub proof fn lemma_event_points(s: GameState, ev: InputEvent, next: PieceKind)
    requires
        state_ok(s),
    ensures
        event_gain(s, ev) >= 0,
        s.score + event_gain(s, ev) <= u32::MAX ==> after_event(s, ev, next).0.score == s.score
            + event_gain(s, ev),
{
    if !s.game_over && ev != InputEvent::Quit && ev != InputEvent::Pause && !s.paused {
        match ev {
            InputEvent::RotateCW => {
                lemma_rotated_score(s, turn(s.kind, s.shape), 0);
            },
            InputEvent::HardDrop => {
                let gy = land_y(s.board, s.shape, s.x, s.y);
                lemma_land_y(s.board, s.shape, s.x, s.y);
                let d = 2 * (gy - s.y);
                assert(0 <= d <= 48);
                let s0 = GameState { y: gy, ..s };
                lemma_lock_points(s0, next);
                let dl: int = d * s.level;
                assert(dl >= 0) by (nonlinear_arith)
                    requires
                        dl == d * s.level,
                        d >= 0,
                        s.level >= 0,
                ;
                let pts = hard_drop_points(s, gy);
                let s1 = GameState { score: u32_specs::wrapping_add(s.score, pts), y: gy, ..s };
                assert(lock_gain(s1) == lock_gain(s0));
                lemma_lock_points(s1, next);
                if s.score + event_gain(s, ev) <= u32::MAX {
                    let prod = (d as nat) * (s.level as nat);
                    assert(prod == dl);
                    assert((d as u32) as nat == d as nat);
                    vstd::arithmetic::div_mod::lemma_small_mod(prod, 0x1_0000_0000);
                    assert(pts == dl);
                    assert(s1.score == s.score + dl);
                }
            },
            _ => {},
        }
    }
}

/// The lines that locking the falling piece clears.
pub open spec fn lock_lines(s: GameState) -> int {
    if reaches_above(s.shape, s.y) {
        0
    } else {
        full_row_count(stamp(s.board, s.shape, s.x, s.y, s.kind))
    }
}

/// The lines that a gravity step clears.
pub open spec fn tick_lines(s: GameState) -> int {
    if s.game_over || s.paused || fits(s.board, s.shape, s.x, s.y + 1) {
        0
    } else {
        lock_lines(s)
    }
}

/// The lines that input `ev` clears: only a hard drop clears any.
pub open spec fn event_lines(s: GameState, ev: InputEvent) -> int {
    if s.game_over || s.paused || ev != InputEvent::HardDrop {
        0
    } else {
        lock_lines(GameState { y: land_y(s.board, s.shape, s.x, s.y), ..s })
    }
}

proof fn lemma_lock_lines(s: GameState, next: PieceKind)
    requires
        s.level <= s.lines / 10 + 1,
        s.lines + lock_lines(s) <= u32::MAX,
    ensures
        0 <= lock_lines(s) <= 20,
        locked(s, next).lines == s.lines + lock_lines(s),
        locked(s, next).level >= s.level,
{
    if !reaches_above(s.shape, s.y) {
        let b = stamp(s.board, s.shape, s.x, s.y, s.kind);
        assert(is_board(b));
        lemma_clear_full_rows(b);
        let s1 = GameState { board: clear_full_rows(b), can_hold: true, ..s };
        lemma_clear_points(s1, full_row_count(b));
    }
}

/// Law of the line count under gravity: when it does not wrap around, a gravity step
/// adds exactly the lines it clears, and a level that does not exceed one more than a
/// tenth of the lines never falls.
pub proof fn lemma_tick_lines(s: GameState, next: PieceKind)
    requires
        state_ok(s),
        s.level <= s.lines / 10 + 1,
        s.lines + tick_lines(s) <= u32::MAX,
    ensures
        ticked(s, next).lines == s.lines + tick_lines(s),
        tick_lines(s) >= 0,
        ticked(s, next).level >= s.level,
{
    if !s.game_over && !s.paused && !fits(s.board, s.shape, s.x, s.y + 1) {
        lemma_lock_lines(s, next);
    }
}

/// Law of the line count under inputs: when it does not wrap around, an input adds
/// exactly the lines it clears, and a level that does not exceed one more than a
/// tenth of the lines never falls.
pub proof fn lemma_event_lines(s: GameState, ev: InputEvent, next: PieceKind)
    requires
        state_ok(s),
        s.level <= s.lines / 10 + 1,
        s.lines + event_lines(s, ev) <= u32::MAX,
    ensures
        after_event(s, ev, next).0.lines == s.lines + event_lines(s, ev),
        event_lines(s, ev) >= 0,
        after_event(s, ev, next).0.level >= s.level,
{
    lemma_rotated_score(s, turn(s.kind, s.shape), 0);
    if !s.game_over && !s.paused && ev == InputEvent::HardDrop {
        let gy = land_y(s.board, s.shape, s.x, s.y);
        let s0 = GameState { y: gy, ..s };
        let s1 = GameState {
            score: u32_specs::wrapping_add(s.score, hard_drop_points(s, gy)),
            y: gy,
            ..s
        };
        assert(lock_lines(s1) == lock_lines(s0));
        lemma_lock_lines(s1, next);
    }
}

/// Under the Super Rotation System an O piece does not move when turned: a clockwise
/// turn of a running O leaves its shape and position as they were.
pub proof fn lemma_o_turn_stays(s: GameState, next: PieceKind)
    requires
        state_ok(s),
        !s.game_over,
        !s.paused,
        s.kind == PieceKind::O,
    ensures
        after_event(s, InputEvent::RotateCW, next).0.shape == s.shape,
        after_event(s, InputEvent::RotateCW, next).0.x == s.x,
        after_event(s, InputEvent::RotateCW, next).0.y == s.y,
        after_event(s, InputEvent::RotateCW, next).0.board == s.board,
{
    assert(kick_table(PieceKind::O, s.rotation)[0] == (0int, 0int));
}

/// A clockwise turn keeps the number of filled cells: every orientation of every kind
/// has four.
pub proof fn lemma_turn_keeps_cells(kind: PieceKind, r: nat)
    requires
        r < 4,
    ensures
        cell_count(turn(kind, orient(kind, r))) == cell_count(orient(kind, r)),
        cell_count(orient(kind, r)) == 4,
{
    lemma_turn_orient(kind, r);
    lemma_four_cells(kind, r);
    lemma_four_cells(kind, ((r + 1) % 4) as nat);
}

/// Law of locking, by count: a lock of a piece of four cells that does not end the
/// game by reaching above the top adds the piece's four squares to the playfield and removes ten for every
/// cleared line; holding is allowed again.
pub proof fn lemma_lock_count(s: GameState, next: PieceKind)
    requires
        state_ok(s),
        !s.game_over,
        !reaches_above(s.shape, s.y),
        cell_count(s.shape) == 4,
    ensures
        rows_occupied(locked(s, next).board) == rows_occupied(s.board) + 4 - 10 * full_row_count(
            stamp(s.board, s.shape, s.x, s.y, s.kind),
        ),
        s.lines + lock_lines(s) <= u32::MAX ==> rows_occupied(locked(s, next).board) == rows_occupied(s.board) + 4
            - 10 * (locked(s, next).lines - s.lines),
        locked(s, next).can_hold,
{
    let b = stamp(s.board, s.shape, s.x, s.y, s.kind);
    lemma_stamp_occupied(s.board, s.shape, s.x, s.y, s.kind);
    assert(is_board(b));
    lemma_clear_occupied(b);
    lemma_clear_full_rows(b);
    let s1 = GameState { board: clear_full_rows(b), can_hold: true, ..s };
    lemma_clear_points(s1, full_row_count(b));
}

/// Law of a gravity step that locks: when a piece of four cells cannot fall and
/// nothing of it is above the top, the step adds its four squares to the playfield and removes ten for
/// every cleared line, allows holding again, and either ends the game or lets the
/// previewed kind `next` enter at the top centre in its spawn orientation.
pub proof fn lemma_tick_lock(s: GameState, next: PieceKind)
    requires
        state_ok(s),
        !s.game_over,
        !s.paused,
        !fits(s.board, s.shape, s.x, s.y + 1),
        !reaches_above(s.shape, s.y),
        cell_count(s.shape) == 4,
        s.lines + tick_lines(s) <= u32::MAX,
    ensures
        rows_occupied(ticked(s, next).board) == rows_occupied(s.board) + 4 - 10 * (ticked(s, next).lines
            - s.lines),
        ticked(s, next).can_hold,
        ticked(s, next).game_over || (ticked(s, next).kind == next && ticked(s, next).shape == kind_grid(next)
            && ticked(s, next).rotation == 0 && ticked(s, next).x == 3 && ticked(s, next).y == 0),
{
    lemma_lock_count(s, next);
}

proof fn lemma_rotated_orientation(s: GameState, i: int)
    requires
        0 <= s.rotation < 4,
        s.shape == orient(s.kind, s.rotation as nat),
    ensures
        0 <= rotated_from(s, turn(s.kind, s.shape), i).rotation < 4,
        rotated_from(s, turn(s.kind, s.shape), i).shape == orient(
            rotated_from(s, turn(s.kind, s.shape), i).kind,
            rotated_from(s, turn(s.kind, s.shape), i).rotation as nat,
        ),
    decreases 5 - i,
{
    lemma_turn_orient(s.kind, s.rotation as nat);
    if 0 <= i < 5 {
        lemma_rotated_orientation(s, i + 1);
    }
}

proof fn lemma_locked_orientation(s: GameState, next: PieceKind)
    requires
        s.shape == orient(s.kind, s.rotation as nat),
    ensures
        locked(s, next).shape == orient(locked(s, next).kind, locked(s, next).rotation as nat),
{
}

/// Law of orientation: a falling piece that is the orientation of its kind named by
/// its rotation count stays so through every gravity step and every input; pieces
/// enter in their spawn orientation with count 0, and each turn moves the count on by
/// one modulo four. So every falling piece has four cells.
pub proof fn lemma_orientation_kept(s: GameState, ev: InputEvent, next: PieceKind)
    requires
        0 <= s.rotation < 4,
        s.shape == orient(s.kind, s.rotation as nat),
    ensures
        ticked(s, next).shape == orient(ticked(s, next).kind, ticked(s, next).rotation as nat),
        after_event(s, ev, next).0.shape == orient(
            after_event(s, ev, next).0.kind,
            after_event(s, ev, next).0.rotation as nat,
        ),
        cell_count(s.shape) == 4,
{
    lemma_four_cells(s.kind, s.rotation as nat);
    lemma_locked_orientation(s, next);
    let gy = land_y(s.board, s.shape, s.x, s.y);
    lemma_locked_orientation(
        GameState { score: u32_specs::wrapping_add(s.score, hard_drop_points(s, gy)), y: gy, ..s },
        next,
    );
    lemma_rotated_orientation(s, 0);
}

} // verus!
