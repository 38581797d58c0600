use tetris::game::{Game, GameEvent, InputEvent, Piece, PieceKind, Square, COLS, ROWS};

/// A fresh game whose falling piece is `kind`.
fn game_with(kind: PieceKind) -> Game {
    let mut g = Game::new();
    g.piece = Piece::new(kind);
    g
}

fn fill_row_except(g: &mut Game, row: usize, gaps: &[usize]) {
    for c in 0..COLS {
        if !gaps.contains(&c) {
            g.board[row][c] = Some(PieceKind::Z);
        }
    }
}

fn occupied(g: &Game) -> usize {
    g.board.iter().flatten().filter(|c| c.is_some()).count()
}

#[test]
fn new_game_starts_empty() {
    let g = Game::new();
    assert!(g.board.iter().flatten().all(|c| c.is_none()));
    assert_eq!(g.held, None);
    assert!(g.can_hold);
    assert_eq!(g.score(), 0);
    assert_eq!(g.lines, 0);
    assert_eq!(g.level, 1);
    assert!(!g.is_over());
    assert!(!g.paused);
    assert_eq!(g.combo, 0);
    assert_eq!(g.piece.x, 3);
    assert_eq!(g.piece.y, 0);
    assert_eq!(g.piece.shape, g.piece.kind.shape());
    assert_ne!(g.next_kind(), g.piece.kind);
}

#[test]
fn tick_moves_the_piece_down() {
    let mut g = game_with(PieceKind::T);
    g.tick();
    assert_eq!(g.piece.y, 1);
    assert_eq!(g.piece.x, 3);
    assert_eq!(occupied(&g), 0);
}

#[test]
fn tick_locks_at_the_floor_and_spawns_the_previewed_kind() {
    let mut g = game_with(PieceKind::O);
    for _ in 0..18 {
        g.tick();
    }
    assert_eq!(g.piece.y, 18);
    let next = g.next_kind();
    g.tick();
    assert_eq!(g.board[18][4], Some(PieceKind::O));
    assert_eq!(g.board[18][5], Some(PieceKind::O));
    assert_eq!(g.board[19][4], Some(PieceKind::O));
    assert_eq!(g.board[19][5], Some(PieceKind::O));
    assert_eq!(occupied(&g), 4);
    assert_eq!(g.piece.kind, next);
    assert_eq!((g.piece.x, g.piece.y), (3, 0));
    assert_eq!(g.score(), 0);
    assert_eq!(g.combo, 0);
}

#[test]
fn moves_stop_at_the_walls() {
    let mut g = game_with(PieceKind::I);
    for _ in 0..10 {
        assert_eq!(g.handle_event(InputEvent::Left), GameEvent::Redraw);
    }
    assert_eq!(g.piece.x, 0);
    for _ in 0..10 {
        g.handle_event(InputEvent::Right);
    }
    assert_eq!(g.piece.x, 6);
}

#[test]
fn moves_stop_at_locked_squares() {
    let mut g = game_with(PieceKind::O);
    g.board[1][2] = Some(PieceKind::L);
    g.handle_event(InputEvent::Left);
    assert_eq!(g.piece.x, 2);
    g.handle_event(InputEvent::Left);
    assert_eq!(g.piece.x, 2);
}

#[test]
fn left_then_right_restores_the_position() {
    let mut g = game_with(PieceKind::S);
    g.handle_event(InputEvent::Left);
    g.handle_event(InputEvent::Right);
    assert_eq!((g.piece.x, g.piece.y), (3, 0));
}

#[test]
fn soft_drop_scores_one_point_per_level() {
    let mut g = game_with(PieceKind::T);
    g.handle_event(InputEvent::SoftDrop);
    assert_eq!(g.piece.y, 1);
    assert_eq!(g.score(), 1);
    g.level = 3;
    g.lines = 20;
    g.handle_event(InputEvent::SoftDrop);
    assert_eq!(g.piece.y, 2);
    assert_eq!(g.score(), 4);
}

#[test]
fn soft_drop_at_the_floor_does_nothing() {
    let mut g = game_with(PieceKind::O);
    g.piece.y = 18;
    g.handle_event(InputEvent::SoftDrop);
    assert_eq!(g.piece.y, 18);
    assert_eq!(g.score(), 0);
    assert_eq!(occupied(&g), 0);
}

#[test]
fn ghost_shows_the_landing_row() {
    let g = game_with(PieceKind::O);
    assert_eq!(g.ghost_y(), 18);
    let mut cells = g.ghost_cells();
    cells.sort();
    assert_eq!(cells, vec![(4, 18), (4, 19), (5, 18), (5, 19)]);
    let mut h = game_with(PieceKind::O);
    h.board[10][5] = Some(PieceKind::I);
    assert_eq!(h.ghost_y(), 8);
}

#[test]
fn hard_drop_lands_at_the_ghost_and_scores_two_per_row() {
    let mut g = game_with(PieceKind::O);
    let next = g.next_kind();
    assert_eq!(g.handle_event(InputEvent::HardDrop), GameEvent::HardDropped);
    assert_eq!(g.board[18][4], Some(PieceKind::O));
    assert_eq!(g.board[19][5], Some(PieceKind::O));
    assert_eq!(occupied(&g), 4);
    assert_eq!(g.score(), 36);
    assert_eq!(g.piece.kind, next);
    assert!(g.can_hold);
}

#[test]
fn hard_drop_points_grow_with_the_level() {
    let mut g = game_with(PieceKind::O);
    g.lines = 15;
    g.level = 2;
    g.handle_event(InputEvent::HardDrop);
    assert_eq!(g.score(), 72);
}

#[test]
fn single_line_clear() {
    let mut g = game_with(PieceKind::I);
    fill_row_except(&mut g, 19, &[3, 4, 5, 6]);
    g.board[18][0] = Some(PieceKind::J);
    g.handle_event(InputEvent::HardDrop);
    assert_eq!(g.lines, 1);
    assert_eq!(g.combo, 1);
    assert_eq!(g.score(), 36 + 100);
    assert_eq!(g.board[19][0], Some(PieceKind::J));
    assert_eq!(occupied(&g), 1);
}

#[test]
fn tetris_clears_four_lines() {
    let mut g = game_with(PieceKind::I);
    for r in 16..20 {
        fill_row_except(&mut g, r, &[5]);
    }
    g.handle_event(InputEvent::RotateCW);
    assert_eq!(g.piece.x, 3);
    let cells = g.piece.cells();
    assert!(cells.iter().all(|&(x, _)| x == 5));
    g.handle_event(InputEvent::HardDrop);
    assert_eq!(g.lines, 4);
    assert_eq!(g.score(), 2 * 16 + 800);
    assert_eq!(occupied(&g), 0);
}

#[test]
fn double_and_triple_points() {
    let mut g = game_with(PieceKind::O);
    fill_row_except(&mut g, 18, &[4, 5]);
    fill_row_except(&mut g, 19, &[4, 5]);
    g.handle_event(InputEvent::HardDrop);
    assert_eq!(g.lines, 2);
    assert_eq!(g.score(), 36 + 300);

    let mut h = game_with(PieceKind::J);
    h.handle_event(InputEvent::RotateCW);
    assert_eq!((h.piece.x, h.piece.y, h.piece.rotation), (3, 0, 1));
    let before: Vec<(i32, i32)> = h.piece.cells();
    let mut cols: Vec<i32> = before.iter().map(|c| c.0).collect();
    cols.sort();
    cols.dedup();
    assert_eq!(cols, vec![4, 5]);
    fill_row_except(&mut h, 17, &[4, 5]);
    fill_row_except(&mut h, 18, &[4]);
    fill_row_except(&mut h, 19, &[4]);
    h.handle_event(InputEvent::HardDrop);
    assert_eq!(h.lines, 3);
    assert_eq!(h.score(), 2 * 17 + 500);
    assert_eq!(occupied(&h), 0);
}

#[test]
fn combo_bonus_for_consecutive_clears() {
    let mut g = game_with(PieceKind::O);
    fill_row_except(&mut g, 19, &[4, 5]);
    g.handle_event(InputEvent::HardDrop);
    assert_eq!(g.combo, 1);
    assert_eq!(g.score(), 36 + 100);
    // The O pieces left a 2x1 stub on row 19; fill row 19 again around it.
    g.piece = Piece::new(PieceKind::O);
    fill_row_except(&mut g, 19, &[0, 1]);
    g.piece.x = -1;
    g.handle_event(InputEvent::HardDrop);
    assert_eq!(g.combo, 2);
    assert_eq!(g.score(), 136 + 2 * 18 + 100 + 50);
    g.piece = Piece::new(PieceKind::T);
    g.handle_event(InputEvent::HardDrop);
    assert_eq!(g.combo, 0);
}

#[test]
fn level_rises_every_ten_lines() {
    let mut g = game_with(PieceKind::I);
    g.lines = 9;
    g.level = 1;
    fill_row_except(&mut g, 19, &[3, 4, 5, 6]);
    g.handle_event(InputEvent::HardDrop);
    assert_eq!(g.lines, 10);
    assert_eq!(g.level, 2);
    assert_eq!(g.score(), 36 + 100);
}

#[test]
fn rotation_kicks_off_the_wall() {
    let mut g = game_with(PieceKind::J);
    g.handle_event(InputEvent::RotateCW);
    for _ in 0..5 {
        g.handle_event(InputEvent::Left);
    }
    assert_eq!(g.piece.x, -1);
    let rotated = g.piece.rotated_cw();
    g.handle_event(InputEvent::RotateCW);
    assert_eq!(g.piece.shape, rotated);
    assert_eq!((g.piece.x, g.piece.y, g.piece.rotation), (0, 0, 2));
}

#[test]
fn rotation_kicks_up_off_the_floor() {
    let mut g = game_with(PieceKind::T);
    g.piece.y = 18;
    let rotated = g.piece.rotated_cw();
    g.handle_event(InputEvent::RotateCW);
    assert_eq!(g.piece.shape, rotated);
    assert_eq!((g.piece.x, g.piece.y, g.piece.rotation), (2, 17, 1));
}

#[test]
fn the_o_piece_stays_when_rotated() {
    let mut g = game_with(PieceKind::O);
    let mut before = g.piece.cells();
    before.sort();
    g.handle_event(InputEvent::RotateCW);
    let mut after = g.piece.cells();
    after.sort();
    assert_eq!(before, vec![(4, 0), (4, 1), (5, 0), (5, 1)]);
    assert_eq!(after, before);
}

#[test]
fn four_turns_in_open_space_come_back() {
    for k in PieceKind::all() {
        let mut g = game_with(k);
        g.piece.y = 5;
        for _ in 0..4 {
            g.handle_event(InputEvent::RotateCW);
        }
        assert_eq!(g.piece.shape, k.shape(), "{:?}", k);
        assert_eq!((g.piece.x, g.piece.y, g.piece.rotation), (3, 5, 0), "{:?}", k);
    }
}

#[test]
fn getters_show_the_state() {
    let mut g = game_with(PieceKind::T);
    g.handle_event(InputEvent::SoftDrop);
    assert_eq!(g.piece().y, 1);
    assert_eq!(g.piece().kind, PieceKind::T);
    assert_eq!(g.board(), &g.board);
    assert_eq!(g.held(), None);
    assert!(g.can_hold());
    assert_eq!(g.lines(), 0);
    assert_eq!(g.level(), 1);
    assert!(!g.paused());
    assert_eq!(g.combo(), 0);
    g.handle_event(InputEvent::Hold);
    assert_eq!(g.held(), Some(PieceKind::T));
    assert!(!g.can_hold());
}

#[test]
fn blocked_rotation_changes_nothing() {
    let mut g = game_with(PieceKind::I);
    g.piece.y = 18;
    for r in 14..18 {
        fill_row_except(&mut g, r, &[]);
    }
    let before = g.piece.shape;
    g.handle_event(InputEvent::RotateCW);
    assert_eq!(g.piece.shape, before);
    assert_eq!((g.piece.x, g.piece.y), (3, 18));
}

#[test]
fn hold_stores_the_piece_once() {
    let mut g = game_with(PieceKind::T);
    let next = g.next_kind();
    assert_eq!(g.handle_event(InputEvent::Hold), GameEvent::Redraw);
    assert_eq!(g.held, Some(PieceKind::T));
    assert_eq!(g.piece.kind, next);
    assert!(!g.can_hold);
    let kind = g.piece.kind;
    g.handle_event(InputEvent::Hold);
    assert_eq!(g.held, Some(PieceKind::T));
    assert_eq!(g.piece.kind, kind);
}

#[test]
fn hold_swaps_with_the_held_kind() {
    let mut g = game_with(PieceKind::S);
    g.held = Some(PieceKind::L);
    g.handle_event(InputEvent::SoftDrop);
    let next = g.next_kind();
    g.handle_event(InputEvent::Hold);
    assert_eq!(g.held, Some(PieceKind::S));
    assert_eq!(g.piece.kind, PieceKind::L);
    assert_eq!((g.piece.x, g.piece.y), (3, 0));
    assert_eq!(g.next_kind(), next);
    g.handle_event(InputEvent::HardDrop);
    assert!(g.can_hold);
}

#[test]
fn pause_freezes_the_game() {
    let mut g = game_with(PieceKind::T);
    assert_eq!(g.handle_event(InputEvent::Pause), GameEvent::Redraw);
    assert!(g.paused);
    g.tick();
    assert_eq!(g.piece.y, 0);
    assert_eq!(g.handle_event(InputEvent::Left), GameEvent::Nothing);
    assert_eq!(g.handle_event(InputEvent::HardDrop), GameEvent::Nothing);
    assert_eq!(g.piece.x, 3);
    assert_eq!(occupied(&g), 0);
    assert_eq!(g.handle_event(InputEvent::Pause), GameEvent::Redraw);
    assert!(!g.paused);
    g.tick();
    assert_eq!(g.piece.y, 1);
}

#[test]
fn quit_is_reported() {
    let mut g = game_with(PieceKind::T);
    assert_eq!(g.handle_event(InputEvent::Quit), GameEvent::Quit);
    g.handle_event(InputEvent::Pause);
    assert_eq!(g.handle_event(InputEvent::Quit), GameEvent::Quit);
}

#[test]
fn blocked_spawn_ends_the_game() {
    let mut g = game_with(PieceKind::T);
    g.held = Some(PieceKind::O);
    g.board[0][4] = Some(PieceKind::Z);
    g.piece.y = 5;
    g.handle_event(InputEvent::Hold);
    assert!(g.is_over());
    assert_eq!(g.piece.kind, PieceKind::T);
    assert_eq!(g.piece.y, 5);
}

#[test]
fn lock_above_the_top_ends_the_game_without_writing() {
    let mut g = game_with(PieceKind::O);
    g.piece.y = -1;
    g.board[1][4] = Some(PieceKind::Z);
    g.tick();
    assert!(g.is_over());
    assert_eq!(g.board[0][4], None);
    assert_eq!(g.board[0][5], None);
    assert_eq!(occupied(&g), 1);
}

#[test]
fn finished_game_ignores_everything() {
    let mut g = game_with(PieceKind::O);
    g.game_over = true;
    let score = g.score();
    for ev in [
        InputEvent::Left,
        InputEvent::Right,
        InputEvent::RotateCW,
        InputEvent::SoftDrop,
        InputEvent::HardDrop,
        InputEvent::Hold,
        InputEvent::Pause,
        InputEvent::Quit,
    ] {
        assert_eq!(g.handle_event(ev), GameEvent::Nothing);
    }
    g.tick();
    assert_eq!((g.piece.x, g.piece.y), (3, 0));
    assert_eq!(g.score(), score);
    assert!(!g.paused);
    assert_eq!(occupied(&g), 0);
}

#[test]
fn stack_to_the_top_ends_the_game() {
    let mut g = Game::new();
    let mut drops = 0;
    while !g.is_over() {
        g.handle_event(InputEvent::HardDrop);
        drops += 1;
        assert!(drops < 200);
    }
    assert!(g.is_over());
    assert_eq!(g.handle_event(InputEvent::Left), GameEvent::Nothing);
    assert!(ROWS == 20);
}

fn piece_fits(g: &Game) -> bool {
    g.piece.cells().iter().all(|&(x, y)| {
        x >= 0 && x < COLS as i32 && y < ROWS as i32 && (y < 0 || g.board[y as usize][x as usize].is_none())
    })
}

fn no_full_row(g: &Game) -> bool {
    g.board.iter().all(|row| row.iter().any(|c| c.is_none()))
}

#[test]
fn play_keeps_the_piece_inside_and_the_score_rising() {
    let events = [
        InputEvent::Left,
        InputEvent::RotateCW,
        InputEvent::Right,
        InputEvent::Right,
        InputEvent::SoftDrop,
        InputEvent::RotateCW,
        InputEvent::HardDrop,
        InputEvent::Left,
        InputEvent::Left,
        InputEvent::Left,
        InputEvent::Hold,
        InputEvent::HardDrop,
        InputEvent::Right,
        InputEvent::Right,
        InputEvent::Right,
        InputEvent::Right,
        InputEvent::RotateCW,
        InputEvent::HardDrop,
    ];
    for round in 0..5 {
        let mut g = Game::new();
        let mut last_score = 0;
        for step in 0..400 {
            let ev = events[(step * 7 + round) % events.len()];
            if step % 3 == 0 {
                g.tick();
            } else {
                g.handle_event(ev);
            }
            if g.is_over() {
                break;
            }
            assert!(piece_fits(&g));
            assert!(no_full_row(&g));
            assert!(g.score() >= last_score);
            assert_eq!(g.level, g.lines / 10 + 1);
            last_score = g.score();
        }
    }
}

#[test]
fn clearing_leaves_no_full_row_and_keeps_row_order() {
    let mut g = game_with(PieceKind::I);
    fill_row_except(&mut g, 19, &[3, 4, 5, 6]);
    g.board[17][0] = Some(PieceKind::S);
    g.board[18][1] = Some(PieceKind::T);
    g.handle_event(InputEvent::HardDrop);
    assert!(no_full_row(&g));
    assert_eq!(g.board[18][0], Some(PieceKind::S));
    assert_eq!(g.board[19][1], Some(PieceKind::T));
    assert_eq!(occupied(&g), 2);
}

#[test]
fn lock_adds_four_squares_and_removes_cleared_rows() {
    let mut g = game_with(PieceKind::I);
    fill_row_except(&mut g, 19, &[3, 4, 5, 6]);
    fill_row_except(&mut g, 18, &[0, 3, 4, 5, 6]);
    let before = occupied(&g);
    while g.piece.y < 18 {
        g.tick();
    }
    let lines = g.lines;
    let next = g.next_kind();
    g.tick();
    assert_eq!(g.lines - lines, 1);
    assert_eq!(occupied(&g), before + 4 - 10);
    assert!(g.can_hold);
    assert_eq!(g.piece.kind, next);
    assert_eq!((g.piece.x, g.piece.y, g.piece.rotation), (3, 0, 0));
}

#[test]
fn squares_show_piece_ghost_locked_and_empty() {
    let mut g = game_with(PieceKind::O);
    g.board[19][0] = Some(PieceKind::L);
    assert_eq!(g.square(4, 0), Square::Active(PieceKind::O));
    assert_eq!(g.square(5, 1), Square::Active(PieceKind::O));
    assert_eq!(g.square(4, 18), Square::Shadow);
    assert_eq!(g.square(5, 19), Square::Shadow);
    assert_eq!(g.square(0, 19), Square::Locked(PieceKind::L));
    assert_eq!(g.square(9, 9), Square::Empty);
    g.piece.y = 18;
    assert_eq!(g.square(4, 18), Square::Active(PieceKind::O));
}

#[test]
fn level_written_by_a_client_is_kept_until_a_clear() {
    let mut g = game_with(PieceKind::T);
    g.level = 7;
    g.handle_event(InputEvent::SoftDrop);
    assert_eq!(g.score(), 7);
    assert_eq!(g.level, 7);
}
