use tetris::game::{Piece, PieceKind};

fn cells_of(shape: [[bool; 4]; 4]) -> Vec<(usize, usize)> {
    let mut v = Vec::new();
    for r in 0..4 {
        for c in 0..4 {
            if shape[r][c] {
                v.push((r, c));
            }
        }
    }
    v
}

#[test]
fn all_lists_the_seven_kinds_in_order() {
    assert_eq!(
        PieceKind::all(),
        [PieceKind::I, PieceKind::O, PieceKind::T, PieceKind::S, PieceKind::Z, PieceKind::J, PieceKind::L]
    );
}

#[test]
fn spawn_shapes_have_four_squares() {
    for k in PieceKind::all() {
        assert_eq!(cells_of(k.shape()).len(), 4, "{:?}", k);
    }
}

#[test]
fn spawn_shapes_are_the_official_ones() {
    assert_eq!(cells_of(PieceKind::I.shape()), vec![(1, 0), (1, 1), (1, 2), (1, 3)]);
    assert_eq!(cells_of(PieceKind::O.shape()), vec![(0, 1), (0, 2), (1, 1), (1, 2)]);
    assert_eq!(cells_of(PieceKind::T.shape()), vec![(0, 1), (1, 0), (1, 1), (1, 2)]);
    assert_eq!(cells_of(PieceKind::S.shape()), vec![(0, 1), (0, 2), (1, 0), (1, 1)]);
    assert_eq!(cells_of(PieceKind::Z.shape()), vec![(0, 0), (0, 1), (1, 1), (1, 2)]);
    assert_eq!(cells_of(PieceKind::J.shape()), vec![(0, 0), (1, 0), (1, 1), (1, 2)]);
    assert_eq!(cells_of(PieceKind::L.shape()), vec![(0, 2), (1, 0), (1, 1), (1, 2)]);
}

#[test]
fn new_piece_starts_at_top_centre() {
    for k in PieceKind::all() {
        let p = Piece::new(k);
        assert_eq!(p.kind, k);
        assert_eq!(p.shape, k.shape());
        assert_eq!(p.x, 3);
        assert_eq!(p.y, 0);
        assert_eq!(p.rotation, 0);
    }
}

#[test]
fn rotated_cw_turns_a_quarter_clockwise() {
    let p = Piece::new(PieceKind::T);
    let out = p.rotated_cw();
    assert_eq!(cells_of(out), vec![(0, 1), (1, 1), (1, 2), (2, 1)]);
    let i = Piece::new(PieceKind::I).rotated_cw();
    assert_eq!(cells_of(i), vec![(0, 2), (1, 2), (2, 2), (3, 2)]);
    let j = Piece::new(PieceKind::J).rotated_cw();
    assert_eq!(cells_of(j), vec![(0, 1), (0, 2), (1, 1), (2, 1)]);
}

#[test]
fn the_o_piece_does_not_turn() {
    let o = Piece::new(PieceKind::O);
    assert_eq!(o.rotated_cw(), PieceKind::O.shape());
}

#[test]
fn turns_keep_four_squares() {
    for k in PieceKind::all() {
        let mut p = Piece::new(k);
        for _ in 0..4 {
            p.shape = p.rotated_cw();
            assert_eq!(cells_of(p.shape).len(), 4, "{:?}", k);
        }
    }
}

#[test]
fn four_rotations_give_back_the_shape() {
    for k in PieceKind::all() {
        let mut p = Piece::new(k);
        for _ in 0..4 {
            p.shape = p.rotated_cw();
        }
        assert_eq!(p.shape, k.shape(), "{:?}", k);
    }
}

#[test]
fn cells_are_board_squares_of_the_piece() {
    let p = Piece::new(PieceKind::T);
    let mut cells = p.cells();
    cells.sort();
    assert_eq!(cells, vec![(3, 1), (4, 0), (4, 1), (5, 1)]);
    let mut q = Piece::new(PieceKind::I);
    q.x = -1;
    q.y = 5;
    let mut cells = q.cells();
    cells.sort();
    assert_eq!(cells, vec![(-1, 6), (0, 6), (1, 6), (2, 6)]);
}
