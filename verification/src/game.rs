use vstd::prelude::*;

use vstd::wrapping::{i32_specs, u32_specs};

pub use crate::board::{Board, COLS, ROWS};
pub use crate::piece::{Piece, PieceKind};

use crate::bag::{full_bags, queue_after_draw, Bag};
use crate::board::{
    board_grid, clear_full_rows, empty_board, empty_row, fits, full_row_count, is_board, kept_rows,
    land_y, lemma_clear_full_rows, lemma_fits_bounds, lemma_kept_rows, lemma_land_y,
    lemma_lift_bound, reaches_above, row_full, rows_of, stamp,
};
use crate::piece::{
    all_kinds, covers, grid_of, has_cell, kind_grid, lemma_kind_grid_ok, lemma_turn_shape_ok, shape_ok,
    turn,
};

verus! {

/// What the caller should do after an input.
#[derive(Clone, Copy, PartialEq, Eq, Debug, Structural)]
pub enum GameEvent {
    Nothing,
    Redraw,
    HardDropped,
    Quit,
}

/// A player input.
#[derive(Debug, Clone, Copy, PartialEq, Eq, Structural)]
pub enum InputEvent {
    Left,
    Right,
    RotateCW,
    SoftDrop,
    HardDrop,
    Hold,
    Pause,
    Quit,
}

/// The state of a game as the contracts speak of it: the playfield, the falling
/// piece (its kind, its orientation as a 4x4 grid and its position), the held kind,
/// and the counters and flags.
#[verifier::ext_equal]
pub struct GameState {
    pub board: Seq<Seq<Option<PieceKind>>>,
    pub kind: PieceKind,
    pub shape: Seq<Seq<bool>>,
    pub rotation: int,
    pub x: int,
    pub y: int,
    pub held: Option<PieceKind>,
    pub can_hold: bool,
    pub score: u32,
    pub lines: u32,
    pub level: u32,
    pub game_over: bool,
    pub paused: bool,
    pub combo: i32,
}

/// The state of a fresh game whose first piece is `k`.
pub open spec fn start_state(k: PieceKind) -> GameState {
    GameState {
        board: empty_board(),
        kind: k,
        shape: kind_grid(k),
        rotation: 0,
        x: 3,
        y: 0,
        held: None,
        can_hold: true,
        score: 0,
        lines: 0,
        level: 1,
        game_over: false,
        paused: false,
        combo: 0,
    }
}

/// What holds of every state a game passes through: the falling piece is the
/// orientation of its kind that its rotation count names, lies in a bounded box
/// around the playfield and, while the game runs, fits the playfield.
pub open spec fn state_ok(s: GameState) -> bool {
    &&& is_board(s.board)
    &&& 0 <= s.rotation < 4
    &&& shape_ok(s.kind, s.shape)
    &&& -3 <= s.x <= 9
    &&& -5 <= s.y <= 19
    &&& !s.game_over ==> fits(s.board, s.shape, s.x, s.y)
}

/// A new piece of kind `k` enters at the top centre; if it does not fit there the
/// game is over and the falling piece stays as it was.
pub open spec fn spawned(s: GameState, k: PieceKind) -> GameState {
    if fits(s.board, kind_grid(k), 3, 0) {
        GameState { kind: k, shape: kind_grid(k), rotation: 0, x: 3, y: 0, ..s }
    } else {
        GameState { game_over: true, ..s }
    }
}

/// Base points for clearing `n` lines at once, before the level factor.
pub open spec fn line_points(n: int) -> u32 {
    if n == 1 {
        100
    } else if n == 2 {
        300
    } else if n == 3 {
        500
    } else if n == 4 {
        800
    } else {
        0
    }
}

/// The combo bonus for a clear that makes the combo counter `combo`, before the
/// level factor.
pub open spec fn combo_bonus(combo: i32) -> u32 {
    if combo > 1 {
        u32_specs::wrapping_mul(50, (combo - 1) as u32)
    } else {
        0
    }
}

/// Counters after a lock that cleared `n` lines: a clear raises the combo counter,
/// adds `(line points + combo bonus) * level` to the score and the lines to the
/// line count, and sets the level from the line count; no clear resets the combo.
/// The counters are 32-bit and wrap around.
pub open spec fn scored(s: GameState, n: int) -> GameState {
    if n > 0 {
        let combo = i32_specs::wrapping_add(s.combo, 1);
        let gain = u32_specs::wrapping_mul(
            u32_specs::wrapping_add(line_points(n), combo_bonus(combo)),
            s.level,
        );
        let lines = u32_specs::wrapping_add(s.lines, n as u32);
        GameState {
            combo,
            score: u32_specs::wrapping_add(s.score, gain),
            lines,
            level: (lines / 10 + 1) as u32,
            ..s
        }
    } else {
        GameState { combo: 0, ..s }
    }
}

/// Locking the falling piece. If part of it is above the top of the playfield the
/// game is over and nothing else changes. Otherwise its squares are written to the
/// playfield, full rows are cleared and scored, holding is allowed again, and the
/// next kind `next` is spawned.
pub open spec fn locked(s: GameState, next: PieceKind) -> GameState {
    if reaches_above(s.shape, s.y) {
        GameState { game_over: true, ..s }
    } else {
        let b = stamp(s.board, s.shape, s.x, s.y, s.kind);
        let s1 = scored(GameState { board: clear_full_rows(b), can_hold: true, ..s }, full_row_count(b));
        spawned(s1, next)
    }
}

/// One gravity step: nothing happens in a finished or paused game; otherwise the
/// piece falls one row if it fits there, and locks if it does not.
pub open spec fn ticked(s: GameState, next: PieceKind) -> GameState {
    if s.game_over || s.paused {
        s
    } else if fits(s.board, s.shape, s.x, s.y + 1) {
        GameState { y: s.y + 1, ..s }
    } else {
        locked(s, next)
    }
}

/// A gravity step from `s` draws a kind from the bag.
pub open spec fn tick_draws(s: GameState) -> bool {
    !s.game_over && !s.paused && !fits(s.board, s.shape, s.x, s.y + 1) && !reaches_above(s.shape, s.y)
}

/// The Super Rotation System wall-kick tests for a clockwise turn of a piece of
/// `kind` that has made `from` quarter turns: `(dx, dy)` offsets in board squares,
/// `dx` to the right and `dy` down, tried in order. The I piece has its own table,
/// J, L, S, T and Z share one, and the O piece only tries to stay where it is.
pub open spec fn kick_table(kind: PieceKind, from: int) -> Seq<(int, int)> {
    if kind == PieceKind::O {
        seq![(0int, 0int), (0, 0), (0, 0), (0, 0), (0, 0)]
    } else if kind == PieceKind::I {
        if from == 0 {
            seq![(0int, 0int), (-2, 0), (1, 0), (-2, 1), (1, -2)]
        } else if from == 1 {
            seq![(0int, 0int), (-1, 0), (2, 0), (-1, -2), (2, 1)]
        } else if from == 2 {
            seq![(0int, 0int), (2, 0), (-1, 0), (2, -1), (-1, 2)]
        } else {
            seq![(0int, 0int), (1, 0), (-2, 0), (1, 2), (-2, -1)]
        }
    } else {
        if from == 0 {
            seq![(0int, 0int), (-1, 0), (-1, -1), (0, 2), (-1, 2)]
        } else if from == 1 {
            seq![(0int, 0int), (1, 0), (1, 1), (0, -2), (1, -2)]
        } else if from == 2 {
            seq![(0int, 0int), (1, 0), (1, -1), (0, 2), (1, 2)]
        } else {
            seq![(0int, 0int), (-1, 0), (-1, 1), (0, -2), (-1, -2)]
        }
    }
}

/// Clockwise rotation to the orientation `g`, trying the wall-kick tests from the
/// `i`-th on: the first test whose offset makes the turned piece fit is taken, and the
/// rotation count moves on; if none fits, the piece stays as it was.
pub open spec fn rotated_from(s: GameState, g: Seq<Seq<bool>>, i: int) -> GameState
    decreases 5 - i,
{
    if !(0 <= i < 5) {
        s
    } else {
        let t = kick_table(s.kind, s.rotation)[i];
        if fits(s.board, g, s.x + t.0, s.y + t.1) {
            GameState { shape: g, rotation: (s.rotation + 1) % 4, x: s.x + t.0, y: s.y + t.1, ..s }
        } else {
            rotated_from(s, g, i + 1)
        }
    }
}

/// Holding: allowed once per piece. The falling kind goes to the hold slot and the
/// previously held kind enters at the top, or, if none was held, the next kind
/// `next` from the bag does. Holding is then barred until the next lock.
pub open spec fn held_swap(s: GameState, next: PieceKind) -> GameState {
    if !s.can_hold {
        s
    } else {
        let incoming = match s.held {
            Some(h) => h,
            None => next,
        };
        GameState { can_hold: false, ..spawned(GameState { held: Some(s.kind), ..s }, incoming) }
    }
}

/// The points a soft drop of one row earns: one per level.
pub open spec fn soft_drop_points(s: GameState) -> u32 {
    s.level
}

/// The points a hard drop from row `s.y` to row `gy` earns: two per row per level.
pub open spec fn hard_drop_points(s: GameState, gy: int) -> u32 {
    u32_specs::wrapping_mul((2 * (gy - s.y)) as u32, s.level)
}

/// The state after input `ev` and the answer to the caller; `next` is the kind at
/// the front of the bag.
pub open spec fn after_event(s: GameState, ev: InputEvent, next: PieceKind) -> (GameState, GameEvent) {
    if s.game_over {
        (s, GameEvent::Nothing)
    } else if ev == InputEvent::Quit {
        (s, GameEvent::Quit)
    } else if ev == InputEvent::Pause {
        (GameState { paused: !s.paused, ..s }, GameEvent::Redraw)
    } else if s.paused {
        (s, GameEvent::Nothing)
    } else {
        match ev {
            InputEvent::Left => (
                if fits(s.board, s.shape, s.x - 1, s.y) {
                    GameState { x: s.x - 1, ..s }
                } else {
                    s
                },
                GameEvent::Redraw,
            ),
            InputEvent::Right => (
                if fits(s.board, s.shape, s.x + 1, s.y) {
                    GameState { x: s.x + 1, ..s }
                } else {
                    s
                },
                GameEvent::Redraw,
            ),
            InputEvent::RotateCW => (rotated_from(s, turn(s.kind, s.shape), 0), GameEvent::Redraw),
            InputEvent::SoftDrop => (
                if fits(s.board, s.shape, s.x, s.y + 1) {
                    GameState {
                        y: s.y + 1,
                        score: u32_specs::wrapping_add(s.score, soft_drop_points(s)),
                        ..s
                    }
                } else {
                    s
                },
                GameEvent::Redraw,
            ),
            InputEvent::HardDrop => {
                let gy = land_y(s.board, s.shape, s.x, s.y);
                let s1 = GameState {
                    score: u32_specs::wrapping_add(s.score, hard_drop_points(s, gy)),
                    y: gy,
                    ..s
                };
                (locked(s1, next), GameEvent::HardDropped)
            },
            InputEvent::Hold => (held_swap(s, next), GameEvent::Redraw),
            _ => (s, GameEvent::Redraw),
        }
    }
}

/// Input `ev` in state `s` draws a kind from the bag.
pub open spec fn event_draws(s: GameState, ev: InputEvent) -> bool {
    &&& !s.game_over
    &&& !s.paused
    &&& {
        ||| ev == InputEvent::HardDrop && !reaches_above(
            s.shape,
            land_y(s.board, s.shape, s.x, s.y),
        )
        ||| ev == InputEvent::Hold && s.can_hold && s.held is None
    }
}

/// What a square of the playfield shows.
#[derive(Clone, Copy, PartialEq, Eq, Debug, Structural)]
pub enum Square {
    /// Covered by the falling piece of this kind.
    Active(PieceKind),
    /// Covered by the ghost: where the falling piece would land.
    Shadow,
    /// Holds a locked square of this kind.
    Locked(PieceKind),
    /// Free.
    Empty,
}

/// What the square at column `c`, row `r` shows: the falling piece first, then its
/// ghost at the landing row, then what is locked there.
pub open spec fn square_shown(s: GameState, c: int, r: int) -> Square {
    if covers(s.shape, s.x, s.y, c, r) {
        Square::Active(s.kind)
    } else if covers(s.shape, s.x, land_y(s.board, s.shape, s.x, s.y), c, r) {
        Square::Shadow
    } else {
        match s.board[r][c] {
            Some(k) => Square::Locked(k),
            None => Square::Empty,
        }
    }
}

/// A running game of Tetris.
pub struct Game {
    pub board: Board,
    pub piece: Piece,
    pub held: Option<PieceKind>,
    pub can_hold: bool,
    pub bag: Bag,
    pub score: u32,
    pub lines: u32,
    pub level: u32,
    pub game_over: bool,
    pub paused: bool,
    pub combo: i32,
}

/// The wall-kick tests of `kick_table(kind, from)` as machine integers.
fn srs_kicks(kind: PieceKind, from: u8) -> (res: [(i32, i32); 5])
    requires
        from < 4,
    ensures
        forall|j: int|
            0 <= j < 5 ==> (#[trigger] res@[j]).0 == kick_table(kind, from as int)[j].0 && res@[j].1
                == kick_table(kind, from as int)[j].1,
{
    match kind {
        PieceKind::O => [(0, 0), (0, 0), (0, 0), (0, 0), (0, 0)],
        PieceKind::I => {
            if from == 0 {
                [(0, 0), (-2, 0), (1, 0), (-2, 1), (1, -2)]
            } else if from == 1 {
                [(0, 0), (-1, 0), (2, 0), (-1, -2), (2, 1)]
            } else if from == 2 {
                [(0, 0), (2, 0), (-1, 0), (2, -1), (-1, 2)]
            } else {
                [(0, 0), (1, 0), (-2, 0), (1, 2), (-2, -1)]
            }
        },
        _ => {
            if from == 0 {
                [(0, 0), (-1, 0), (-1, -1), (0, 2), (-1, 2)]
            } else if from == 1 {
                [(0, 0), (1, 0), (1, 1), (0, -2), (1, -2)]
            } else if from == 2 {
                [(0, 0), (1, 0), (1, -1), (0, 2), (1, 2)]
            } else {
                [(0, 0), (-1, 0), (-1, 1), (0, -2), (-1, -2)]
            }
        },
    }
}

impl View for Game {
    type V = GameState;

    open spec fn view(&self) -> GameState {
        GameState {
            board: board_grid(self.board),
            kind: self.piece.kind,
            shape: grid_of(self.piece.shape),
            rotation: self.piece.rotation as int,
            x: self.piece.x as int,
            y: self.piece.y as int,
            held: self.held,
            can_hold: self.can_hold,
            score: self.score,
            lines: self.lines,
            level: self.level,
            game_over: self.game_over,
            paused: self.paused,
            combo: self.combo,
        }
    }
}

impl Game {
    /// The kinds waiting in the bag, front first.
    pub open spec fn upcoming(&self) -> Seq<PieceKind> {
        self.bag.upcoming()
    }

    /// Every kind drawn from the bag so far, in order; the first is the first piece.
    pub open spec fn dealt(&self) -> Seq<PieceKind> {
        self.bag.dealt()
    }

    /// The game invariant: the state is well formed, and the bag holds between one
    /// and seven kinds and, after what it dealt, completes a run of full bags.
    pub open spec fn inv(&self) -> bool {
        &&& state_ok(self@)
        &&& 1 <= self.upcoming().len() <= 7
        &&& full_bags(self.dealt() + self.upcoming())
    }

    /// `after` has drawn one kind from the bag of `before`.
    pub open spec fn drew_from(before: &Game, after: &Game) -> bool {
        &&& after.dealt() == before.dealt().push(before.upcoming()[0])
        &&& queue_after_draw(before.upcoming(), after.upcoming())
    }

    /// `after` has the bag of `before`.
    pub open spec fn same_bag(before: &Game, after: &Game) -> bool {
        &&& after.dealt() == before.dealt()
        &&& after.upcoming() == before.upcoming()
    }

    proof fn lemma_bag_wf(&self)
        requires
            self.inv(),
        ensures
            self.bag.wf(),
    {
    }

    /// A new game: empty playfield, nothing held, score 0, level 1, and the first
    /// kind from a freshly shuffled bag falling from the top.
    pub fn new() -> (g: Self)
        ensures
            g.inv(),
            g@ == start_state(g@.kind),
            g.dealt() == seq![g@.kind],
            g.upcoming().len() == 6,
            (g.dealt() + g.upcoming()).to_multiset() == all_kinds().to_multiset(),
    {
        let mut bag = Bag::new();
        let ghost first_bag = bag.upcoming();
        let kind = bag.next();
        let g = Self {
            board: [[None; COLS]; ROWS],
            piece: Piece::new(kind),
            held: None,
            can_hold: true,
            bag,
            score: 0,
            lines: 0,
            level: 1,
            game_over: false,
            paused: false,
            combo: 0,
        };
        proof {
            assert forall|r: int| 0 <= r < 20 implies #[trigger] board_grid(g.board)[r] =~= empty_board()[r] by {}
            assert(board_grid(g.board) =~= empty_board());
            assert(g.dealt() =~= seq![kind]);
            assert(g.dealt() + g.upcoming() =~= first_bag);
            assert(fits(empty_board(), kind_grid(kind), 3, 0));
            lemma_kind_grid_ok(kind);
        }
        g
    }

    /// The score.
    pub fn score(&self) -> (res: u32)
        ensures
            res == self@.score,
    {
        self.score
    }

    /// The playfield.
    pub fn board(&self) -> (res: &Board)
        ensures
            board_grid(*res) == self@.board,
    {
        &self.board
    }

    /// The falling piece.
    pub fn piece(&self) -> (res: &Piece)
        ensures
            res.kind == self@.kind,
            grid_of(res.shape) == self@.shape,
            res.rotation == self@.rotation,
            res.x == self@.x,
            res.y == self@.y,
    {
        &self.piece
    }

    /// The kind in the hold slot, if any.
    pub fn held(&self) -> (res: Option<PieceKind>)
        ensures
            res == self@.held,
    {
        self.held
    }

    /// Whether holding is allowed for the falling piece.
    pub fn can_hold(&self) -> (res: bool)
        ensures
            res == self@.can_hold,
    {
        self.can_hold
    }

    /// The number of cleared lines.
    pub fn lines(&self) -> (res: u32)
        ensures
            res == self@.lines,
    {
        self.lines
    }

    /// The level.
    pub fn level(&self) -> (res: u32)
        ensures
            res == self@.level,
    {
        self.level
    }

    /// Whether the game is paused.
    pub fn paused(&self) -> (res: bool)
        ensures
            res == self@.paused,
    {
        self.paused
    }

    /// The number of locks in a row that cleared lines.
    pub fn combo(&self) -> (res: i32)
        ensures
            res == self@.combo,
    {
        self.combo
    }

    /// Whether the game is over.
    pub fn is_over(&self) -> (res: bool)
        ensures
            res == self@.game_over,
    {
        self.game_over
    }

    /// Whether `shape` with its top-left corner at column `ox`, row `oy` fits the
    /// playfield.
    fn is_valid(&self, shape: &[[bool; 4]; 4], ox: i32, oy: i32) -> (res: bool)
        requires
            ox + 3 <= i32::MAX,
            oy + 3 <= i32::MAX,
        ensures
            res == fits(board_grid(self.board), grid_of(*shape), ox as int, oy as int),
    {
        let ghost b = board_grid(self.board);
        let ghost g = grid_of(*shape);
        let mut r: usize = 0;
        while r < 4
            invariant
                r <= 4,
                ox + 3 <= i32::MAX,
                oy + 3 <= i32::MAX,
                b == board_grid(self.board),
                g == grid_of(*shape),
                forall|rr: int, cc: int|
                    0 <= rr < r && 0 <= cc < 4 && #[trigger] g[rr][cc] ==> {
                        &&& 0 <= ox + cc < 10
                        &&& oy + rr < 20
                        &&& (oy + rr >= 0 ==> b[oy + rr][ox + cc] is None)
                    },
            decreases 4 - r,
        {
            let mut c: usize = 0;
            while c < 4
                invariant
                    r < 4,
                    c <= 4,
                    ox + 3 <= i32::MAX,
                    oy + 3 <= i32::MAX,
                    b == board_grid(self.board),
                    g == grid_of(*shape),
                    forall|rr: int, cc: int|
                        (0 <= rr < r && 0 <= cc < 4 || rr == r && 0 <= cc < c) && #[trigger] g[rr][cc]
                            ==> {
                            &&& 0 <= ox + cc < 10
                            &&& oy + rr < 20
                            &&& (oy + rr >= 0 ==> b[oy + rr][ox + cc] is None)
                        },
                decreases 4 - c,
            {
                if !shape[r][c] {
                    c += 1;
                    continue;
                }
                let nx = ox + c as i32;
                let ny = oy + r as i32;
                if nx < 0 || nx >= COLS as i32 || ny >= ROWS as i32 {
                    assert(g[r as int][c as int]);
                    return false;
                }
                if ny >= 0 && self.board[ny as usize][nx as usize].is_some() {
                    assert(g[r as int][c as int]);
                    return false;
                }
                c += 1;
            }
            r += 1;
        }
        true
    }

    /// Draws the next kind from the bag and lets it enter at the top; if it does not
    /// fit, the game is over.
    fn spawn_next(&mut self)
        requires
            old(self).bag.wf(),
        ensures
            final(self)@ == spawned(old(self)@, old(self).upcoming()[0]),
            Game::drew_from(old(self), final(self)),
            final(self).bag.wf(),
    {
        let kind = self.bag.next();
        let p = Piece::new(kind);
        if !self.is_valid(&p.shape, p.x, p.y) {
            self.game_over = true;
        } else {
            self.piece = p;
        }
    }

    /// Writes the falling piece into the playfield, clears full rows, allows holding
    /// again and spawns the next piece; if part of the piece is above the top of the
    /// playfield, the game is over instead.
    fn lock_piece(&mut self)
        requires
            old(self).inv(),
            !old(self).game_over,
        ensures
            final(self)@ == locked(old(self)@, old(self).upcoming()[0]),
            if reaches_above(old(self)@.shape, old(self)@.y) {
                &&& Game::same_bag(old(self), final(self))
                &&& final(self).bag == old(self).bag
            } else {
                Game::drew_from(old(self), final(self))
            },
            final(self).bag.wf(),
    {
        let ghost s0 = self@;
        let ghost b0 = board_grid(self.board);
        let ghost g = grid_of(self.piece.shape);
        let ghost x = self.piece.x as int;
        let ghost y = self.piece.y as int;
        let ghost kind = self.piece.kind;
        proof {
            self.lemma_bag_wf();
        }
        let mut r: usize = 0;
        while r < 4
            invariant
                r <= 4,
                self.piece == old(self).piece,
                self.bag == old(self).bag,
                self.score == old(self).score,
                self.held == old(self).held,
                self.can_hold == old(self).can_hold,
                self.lines == old(self).lines,
                self.level == old(self).level,
                self.paused == old(self).paused,
                self.combo == old(self).combo,
                !self.game_over,
                g == grid_of(self.piece.shape),
                x == self.piece.x,
                y == self.piece.y,
                kind == self.piece.kind,
                -3 <= x <= 9,
                -5 <= y <= 19,
                fits(b0, g, x, y),
                is_board(b0),
                s0 == old(self)@,
                b0 == board_grid(old(self).board),
                self.bag.wf(),
                forall|rr: int, cc: int|
                    0 <= rr < 20 && 0 <= cc < 10 ==> #[trigger] board_grid(self.board)[rr][cc] == if covers(
                        g,
                        x,
                        y,
                        cc,
                        rr,
                    ) && rr - y < r {
                        Some(kind)
                    } else {
                        b0[rr][cc]
                    },
                forall|rr: int, cc: int| 0 <= rr < r && 0 <= cc < 4 && #[trigger] g[rr][cc] ==> y + rr >= 0,
            decreases 4 - r,
        {
            let mut c: usize = 0;
            while c < 4
                invariant
                    r < 4,
                    c <= 4,
                    self.piece == old(self).piece,
                    self.bag == old(self).bag,
                    self.score == old(self).score,
                    self.held == old(self).held,
                    self.can_hold == old(self).can_hold,
                    self.lines == old(self).lines,
                    self.level == old(self).level,
                    self.paused == old(self).paused,
                    self.combo == old(self).combo,
                    !self.game_over,
                    g == grid_of(self.piece.shape),
                    x == self.piece.x,
                    y == self.piece.y,
                    kind == self.piece.kind,
                    -3 <= x <= 9,
                    -5 <= y <= 19,
                    fits(b0, g, x, y),
                    is_board(b0),
                    s0 == old(self)@,
                    b0 == board_grid(old(self).board),
                    self.bag.wf(),
                    forall|rr: int, cc: int|
                        0 <= rr < 20 && 0 <= cc < 10 ==> #[trigger] board_grid(self.board)[rr][cc] == if covers(
                            g,
                            x,
                            y,
                            cc,
                            rr,
                        ) && (rr - y < r || (rr - y == r && cc - x < c)) {
                            Some(kind)
                        } else {
                            b0[rr][cc]
                        },
                    forall|rr: int, cc: int|
                        (0 <= rr < r && 0 <= cc < 4 || rr == r && 0 <= cc < c) && #[trigger] g[rr][cc] ==> y
                            + rr >= 0,
                decreases 4 - c,
            {
                if self.piece.shape[r][c] {
                    let ny = self.piece.y + r as i32;
                    let nx = self.piece.x + c as i32;
                    if ny < 0 {
                        self.game_over = true;
                        proof {
                            assert(g[r as int][c as int]);
                            assert forall|rr: int| 0 <= rr < 20 implies #[trigger] board_grid(self.board)[rr]
                                =~= b0[rr] by {
                                assert forall|cc: int| 0 <= cc < 10 implies board_grid(self.board)[rr][cc]
                                    == b0[rr][cc] by {
                                    if covers(g, x, y, cc, rr) && (rr - y < r || (rr - y == r && cc - x
                                        < c)) {
                                        assert(g[rr - y][cc - x]);
                                    }
                                }
                            }
                            assert(board_grid(self.board) =~= b0);
                            assert(reaches_above(g, y));
                            assert(self@ =~= GameState { game_over: true, ..s0 });
                        }
                        return;
                    }
                    proof {
                        assert(g[r as int][c as int]);
                    }
                    let ghost prev = board_grid(self.board);
                    let mut row = self.board[ny as usize];
                    row[nx as usize] = Some(self.piece.kind);
                    self.board[ny as usize] = row;
                    proof {
                        assert forall|rr: int, cc: int| 0 <= rr < 20 && 0 <= cc < 10 implies #[trigger] board_grid(
                            self.board,
                        )[rr][cc] == if rr == ny && cc == nx {
                            Some(kind)
                        } else {
                            prev[rr][cc]
                        } by {
                            if rr != ny {
                                assert(board_grid(self.board)[rr] == prev[rr]);
                            }
                        }
                    }
                }
                c += 1;
            }
            r += 1;
        }
        proof {
            assert(!reaches_above(g, y));
            let st = stamp(b0, g, x, y, kind);
            assert forall|rr: int| 0 <= rr < 20 implies #[trigger] board_grid(self.board)[rr] =~= st[rr] by {}
            assert(board_grid(self.board) =~= st);
        }
        self.can_hold = true;
        self.clear_lines();
        self.spawn_next();
        proof {
            let st = stamp(b0, g, x, y, kind);
            assert(locked(s0, old(self).upcoming()[0]) == spawned(
                scored(GameState { board: clear_full_rows(st), can_hold: true, ..s0 }, full_row_count(st)),
                old(self).upcoming()[0],
            ));
        }
    }

    /// Whether every square of `row` is locked.
    fn row_is_full(row: &[Option<PieceKind>; COLS]) -> (res: bool)
        ensures
            res == row_full(row@),
    {
        let mut c: usize = 0;
        while c < COLS
            invariant
                c <= 10,
                forall|cc: int| 0 <= cc < c ==> #[trigger] row@[cc] is Some,
            decreases 10 - c,
        {
            if row[c].is_none() {
                return false;
            }
            c += 1;
        }
        true
    }

    /// Removes the full rows, lets the rows above move down, and scores the clear.
    fn clear_lines(&mut self)
        ensures
            final(self)@ == scored(
                GameState { board: clear_full_rows(board_grid(old(self).board)), ..old(self)@ },
                full_row_count(board_grid(old(self).board)),
            ),
            final(self).bag == old(self).bag,
    {
        let ghost b0 = board_grid(self.board);
        let mut cleared: u32 = 0;
        let mut new_board: Vec<[Option<PieceKind>; COLS]> = Vec::new();
        let mut r: usize = 0;
        while r < ROWS
            invariant
                r <= 20,
                b0 == board_grid(self.board),
                rows_of(new_board@) == kept_rows(b0.take(r as int)),
                cleared + new_board@.len() == r,
            decreases 20 - r,
        {
            proof {
                assert(b0.take(r + 1).drop_last() =~= b0.take(r as int));
                assert(b0.take(r + 1).last() == b0[r as int]);
            }
            if Self::row_is_full(&self.board[r]) {
                cleared += 1;
            } else {
                let ghost before = new_board@;
                new_board.push(self.board[r]);
                assert(rows_of(new_board@) =~= rows_of(before).push(b0[r as int]));
            }
            r += 1;
        }
        proof {
            assert(b0.take(20) =~= b0);
            lemma_kept_rows(b0);
        }
        let ghost kept = new_board@.len();
        while new_board.len() < ROWS
            invariant
                kept <= new_board@.len() <= 20,
                rows_of(new_board@) == Seq::new((new_board@.len() - kept) as nat, |i: int| empty_row())
                    + kept_rows(b0),
                kept == kept_rows(b0).len(),
            decreases 20 - new_board@.len(),
        {
            let ghost before = new_board@;
            let empty: [Option<PieceKind>; COLS] = [None; COLS];
            assert(empty@ =~= empty_row());
            new_board.insert(0, empty);
            assert(rows_of(new_board@) =~= seq![empty_row()] + rows_of(before));
            assert(Seq::new((new_board@.len() - kept) as nat, |i: int| empty_row()) =~= seq![empty_row()]
                + Seq::new((before.len() - kept) as nat, |i: int| empty_row()));
            assert(rows_of(new_board@) =~= Seq::new((new_board@.len() - kept) as nat, |i: int| empty_row())
                + kept_rows(b0));
        }
        let mut i: usize = 0;
        while i < ROWS
            invariant
                i <= 20,
                new_board@.len() == 20,
                rows_of(new_board@) == clear_full_rows(b0),
                forall|rr: int| 0 <= rr < i ==> #[trigger] self.board[rr]@ == clear_full_rows(b0)[rr],
                self.piece == old(self).piece,
                self.bag == old(self).bag,
                self.score == old(self).score,
                self.held == old(self).held,
                self.can_hold == old(self).can_hold,
                self.lines == old(self).lines,
                self.level == old(self).level,
                self.paused == old(self).paused,
                self.combo == old(self).combo,
                self.game_over == old(self).game_over,
            decreases 20 - i,
        {
            self.board[i] = new_board[i];
            i += 1;
        }
        assert(board_grid(self.board) =~= clear_full_rows(b0));
        if cleared > 0 {
            self.combo = self.combo.wrapping_add(1);
            let base: u32 = match cleared {
                1 => 100,
                2 => 300,
                3 => 500,
                4 => 800,
                _ => 0,
            };
            let combo_bonus: u32 = if self.combo > 1 {
                50u32.wrapping_mul(self.combo as u32 - 1)
            } else {
                0
            };
            self.score = self.score.wrapping_add(base.wrapping_add(combo_bonus).wrapping_mul(self.level));
            self.lines = self.lines.wrapping_add(cleared);
            self.level = (self.lines / 10) + 1;
        } else {
            self.combo = 0;
        }
    }

    /// The row where the falling piece would land if dropped straight down.
    pub fn ghost_y(&self) -> (gy: i32)
        requires
            self.inv(),
        ensures
            gy == land_y(self@.board, self@.shape, self@.x, self@.y),
            self@.y <= gy <= 19,
    {
        let ghost b = self@.board;
        let ghost g = self@.shape;
        proof {
        }
        let mut gy = self.piece.y;
        while self.is_valid(&self.piece.shape, self.piece.x, gy + 1)
            invariant
                self.inv(),
                b == self@.board,
                g == self@.shape,
                has_cell(g),
                self.piece.y <= gy <= 19,
                land_y(b, g, self@.x, gy as int) == land_y(b, g, self@.x, self@.y),
            decreases 19 - gy,
        {
            proof {
                lemma_fits_bounds(b, g, self@.x, gy + 1);
            }
            gy += 1;
        }
        gy
    }

    /// The squares `(column, row)` that the falling piece would cover at the row
    /// where it would land, each once.
    pub fn ghost_cells(&self) -> (res: Vec<(i32, i32)>)
        requires
            self.inv(),
        ensures
            res@.no_duplicates(),
            forall|p: (i32, i32)| #[trigger]
                res@.contains(p) <==> covers(
                    self@.shape,
                    self@.x,
                    land_y(self@.board, self@.shape, self@.x, self@.y),
                    p.0 as int,
                    p.1 as int,
                ),
    {
        let gy = self.ghost_y();
        let landed = Piece {
            kind: self.piece.kind,
            shape: self.piece.shape,
            x: self.piece.x,
            y: gy,
            rotation: self.piece.rotation,
        };
        landed.cells()
    }

    /// One gravity step: the falling piece moves down a row, or locks where it is if
    /// it cannot. Nothing happens in a finished or paused game.
    pub fn tick(&mut self)
        requires
            old(self).inv(),
        ensures
            final(self).inv(),
            final(self)@ == ticked(old(self)@, old(self).upcoming()[0]),
            if tick_draws(old(self)@) {
                Game::drew_from(old(self), final(self))
            } else {
                Game::same_bag(old(self), final(self))
            },
    {
        proof {
            lemma_tick_keeps_state_ok(self@, self.upcoming()[0]);
        }
        if self.game_over || self.paused {
            return;
        }
        if self.is_valid(&self.piece.shape, self.piece.x, self.piece.y + 1) {
            self.piece.y += 1;
        } else {
            self.lock_piece();
        }
    }

    /// Applies a player input and tells the caller what to do next.
    pub fn handle_event(&mut self, ev: InputEvent) -> (res: GameEvent)
        requires
            old(self).inv(),
        ensures
            final(self).inv(),
            (final(self)@, res) == after_event(old(self)@, ev, old(self).upcoming()[0]),
            if event_draws(old(self)@, ev) {
                Game::drew_from(old(self), final(self))
            } else {
                Game::same_bag(old(self), final(self))
            },
    {
        proof {
            lemma_event_keeps_state_ok(self@, ev, self.upcoming()[0]);
            self.lemma_bag_wf();
        }
        if self.game_over {
            return GameEvent::Nothing;
        }
        match ev {
            InputEvent::Quit => return GameEvent::Quit,
            InputEvent::Pause => {
                self.paused = !self.paused;
                return GameEvent::Redraw;
            },
            _ => {},
        }
        if self.paused {
            return GameEvent::Nothing;
        }
        match ev {
            InputEvent::Left => {
                if self.is_valid(&self.piece.shape, self.piece.x - 1, self.piece.y) {
                    self.piece.x -= 1;
                }
            },
            InputEvent::Right => {
                if self.is_valid(&self.piece.shape, self.piece.x + 1, self.piece.y) {
                    self.piece.x += 1;
                }
            },
            InputEvent::RotateCW => {
                // Super Rotation System: turn the shape, then try the wall-kick tests
                // of its kind and rotation count in order and take the first that fits.
                let rotated = self.piece.rotated_cw();
                let kicks = srs_kicks(self.piece.kind, self.piece.rotation);
                let ghost s0 = self@;
                let ghost g = grid_of(rotated);
                let mut i: usize = 0;
                while i < 5
                    invariant_except_break
                        self@ == s0,
                        rotated_from(s0, g, 0) == rotated_from(s0, g, i as int),
                        -3 <= self.piece.x <= 9,
                        -5 <= self.piece.y <= 19,
                    invariant
                        i <= 5,
                        g == grid_of(rotated),
                        0 <= s0.rotation < 4,
                        forall|j: int|
                            0 <= j < 5 ==> (#[trigger] kicks@[j]).0 == kick_table(s0.kind, s0.rotation)[j].0
                                && kicks@[j].1 == kick_table(s0.kind, s0.rotation)[j].1,
                        self.bag == old(self).bag,
                        self.score == old(self).score,
                    ensures
                        self@ == rotated_from(s0, g, 0),
                    decreases 5 - i,
                {
                    let (dx, dy) = kicks[i];
                    if self.is_valid(&rotated, self.piece.x + dx, self.piece.y + dy) {
                        self.piece.shape = rotated;
                        self.piece.x += dx;
                        self.piece.y += dy;
                        self.piece.rotation = (self.piece.rotation + 1) % 4;
                        break;
                    }
                    i += 1;
                }
            },
            InputEvent::SoftDrop => {
                if self.is_valid(&self.piece.shape, self.piece.x, self.piece.y + 1) {
                    self.piece.y += 1;
                    self.score = self.score.wrapping_add(self.level);
                }
            },
            InputEvent::HardDrop => {
                let gy = self.ghost_y();
                proof {
                    lemma_land_y(self@.board, self@.shape, self@.x, self@.y);
                }
                self.score = self.score.wrapping_add((2 * (gy - self.piece.y) as u32).wrapping_mul(self.level));
                self.piece.y = gy;
                self.lock_piece();
                return GameEvent::HardDropped;
            },
            InputEvent::Hold => {
                if self.can_hold {
                    let current_kind = self.piece.kind;
                    match self.held {
                        None => {
                            self.held = Some(current_kind);
                            self.spawn_next();
                        },
                        Some(held_kind) => {
                            self.held = Some(current_kind);
                            let p = Piece::new(held_kind);
                            if !self.is_valid(&p.shape, p.x, p.y) {
                                self.game_over = true;
                            } else {
                                self.piece = p;
                            }
                        },
                    }
                    self.can_hold = false;
                }
            },
            _ => {},
        }
        GameEvent::Redraw
    }

    /// Whether the piece's shape, placed at column `x`, row `y`, covers the square at
    /// column `c`, row `r`.
    fn shape_covers(&self, x: i32, y: i32, c: i32, r: i32) -> (res: bool)
        requires
            -100 <= x <= 100,
            -100 <= y <= 100,
            -100 <= c <= 100,
            -100 <= r <= 100,
        ensures
            res == covers(self@.shape, x as int, y as int, c as int, r as int),
    {
        let dr = r - y;
        let dc = c - x;
        if 0 <= dr && dr < 4 && 0 <= dc && dc < 4 {
            self.piece.shape[dr as usize][dc as usize]
        } else {
            false
        }
    }

    /// What the square at column `c`, row `r` shows.
    pub fn square(&self, c: usize, r: usize) -> (res: Square)
        requires
            self.inv(),
            c < 10,
            r < 20,
        ensures
            res == square_shown(self@, c as int, r as int),
    {
        let gy = self.ghost_y();
        if self.shape_covers(self.piece.x, self.piece.y, c as i32, r as i32) {
            Square::Active(self.piece.kind)
        } else if self.shape_covers(self.piece.x, gy, c as i32, r as i32) {
            Square::Shadow
        } else {
            match self.board[r][c] {
                Some(k) => Square::Locked(k),
                None => Square::Empty,
            }
        }
    }

    /// The kind that will enter after the falling piece.
    pub fn next_kind(&self) -> (k: PieceKind)
        requires
            self.inv(),
        ensures
            k == self.upcoming()[0],
    {
        self.bag.peek()
    }
}

/// A new piece keeps the game state well formed.
pub proof fn lemma_spawned_ok(s: GameState, k: PieceKind)
    requires
        is_board(s.board),
        0 <= s.rotation < 4,
        shape_ok(s.kind, s.shape),
        -3 <= s.x <= 9,
        -5 <= s.y <= 19,
    ensures
        state_ok(spawned(s, k)),
{
    lemma_kind_grid_ok(k);
}

/// Locking keeps the game state well formed.
pub proof fn lemma_locked_ok(s: GameState, next: PieceKind)
    requires
        state_ok(s),
    ensures
        state_ok(locked(s, next)),
{
    if !reaches_above(s.shape, s.y) {
        let b = stamp(s.board, s.shape, s.x, s.y, s.kind);
        assert(is_board(b));
        lemma_clear_full_rows(b);
        let s1 = scored(
            GameState { board: clear_full_rows(b), can_hold: true, ..s },
            full_row_count(b),
        );
        lemma_spawned_ok(s1, next);
    }
}

/// The index of the earlier wall-kick test with the same horizontal offset and no
/// vertical one; every test that moves the piece up or down has one.
pub open spec fn same_column_test(kind: PieceKind, i: int) -> int {
    if kind == PieceKind::I {
        if i == 3 {
            1
        } else {
            2
        }
    } else {
        if i == 3 {
            0
        } else {
            1
        }
    }
}

/// A wall-kick test that moves the piece up or down comes after a test with the same
/// horizontal offset and no vertical one, and moves it by at most two rows.
pub proof fn lemma_kick_table(kind: PieceKind, from: int, i: int)
    requires
        0 <= from < 4,
        0 <= i < 5,
    ensures
        kick_table(kind, from).len() == 5,
        -2 <= kick_table(kind, from)[i].1 <= 2,
        -2 <= kick_table(kind, from)[i].0 <= 2,
        kick_table(kind, from)[i].1 != 0 ==> {
            let j = same_column_test(kind, i);
            &&& 0 <= j < i
            &&& kick_table(kind, from)[j].0 == kick_table(kind, from)[i].0
            &&& kick_table(kind, from)[j].1 == 0
        },
{
}

/// Rotation keeps the game state well formed, provided the tests before the `i`-th
/// did not fit.
pub proof fn lemma_rotated_ok(s: GameState, i: int)
    requires
        state_ok(s),
        !s.game_over,
        0 <= i,
        forall|j: int|
            0 <= j < i && j < 5 ==> !fits(
                s.board,
                turn(s.kind, s.shape),
                s.x + #[trigger] kick_table(s.kind, s.rotation)[j].0,
                s.y + kick_table(s.kind, s.rotation)[j].1,
            ),
    ensures
        state_ok(rotated_from(s, turn(s.kind, s.shape), i)),
    decreases 5 - i,
{
    let g = turn(s.kind, s.shape);
    lemma_turn_shape_ok(s.kind, s.shape);
    if 0 <= i < 5 {
        lemma_kick_table(s.kind, s.rotation, i);
        let t = kick_table(s.kind, s.rotation)[i];
        if fits(s.board, g, s.x + t.0, s.y + t.1) {
            lemma_fits_bounds(s.board, g, s.x + t.0, s.y + t.1);
            if t.1 != 0 {
                let j = same_column_test(s.kind, i);
                assert(!fits(s.board, g, s.x + kick_table(s.kind, s.rotation)[j].0, s.y + kick_table(s.kind, s.rotation)[j].1));
                lemma_lift_bound(s.board, g, s.x + t.0, s.y, t.1);
            }
        } else {
            lemma_rotated_ok(s, i + 1);
        }
    }
}

/// Law: every gravity step keeps the game state well formed; in particular, while
/// the game runs the falling piece never overlaps a locked square or leaves the
/// playfield.
pub proof fn lemma_tick_keeps_state_ok(s: GameState, next: PieceKind)
    requires
        state_ok(s),
    ensures
        state_ok(ticked(s, next)),
{
    if !s.game_over && !s.paused {
        if fits(s.board, s.shape, s.x, s.y + 1) {
            lemma_fits_bounds(s.board, s.shape, s.x, s.y + 1);
        } else {
            lemma_locked_ok(s, next);
        }
    }
}

/// Law: every input keeps the game state well formed.
pub proof fn lemma_event_keeps_state_ok(s: GameState, ev: InputEvent, next: PieceKind)
    requires
        state_ok(s),
    ensures
        state_ok(after_event(s, ev, next).0),
{
    if !s.game_over && ev != InputEvent::Quit && ev != InputEvent::Pause && !s.paused {
        match ev {
            InputEvent::Left => {
                if fits(s.board, s.shape, s.x - 1, s.y) {
                    lemma_fits_bounds(s.board, s.shape, s.x - 1, s.y);
                }
            },
            InputEvent::Right => {
                if fits(s.board, s.shape, s.x + 1, s.y) {
                    lemma_fits_bounds(s.board, s.shape, s.x + 1, s.y);
                }
            },
            InputEvent::RotateCW => {
                lemma_rotated_ok(s, 0);
            },
            InputEvent::SoftDrop => {
                if fits(s.board, s.shape, s.x, s.y + 1) {
                    lemma_fits_bounds(s.board, s.shape, s.x, s.y + 1);
                }
            },
            InputEvent::HardDrop => {
                let gy = land_y(s.board, s.shape, s.x, s.y);
                lemma_land_y(s.board, s.shape, s.x, s.y);
                let s1 = GameState {
                    score: u32_specs::wrapping_add(s.score, hard_drop_points(s, gy)),
                    y: gy,
                    ..s
                };
                lemma_locked_ok(s1, next);
            },
            InputEvent::Hold => {
                if s.can_hold {
                    let incoming = match s.held {
                        Some(h) => h,
                        None => next,
                    };
                    lemma_spawned_ok(GameState { held: Some(s.kind), ..s }, incoming);
                }
            },
            _ => {},
        }
    }
}

} // verus!
