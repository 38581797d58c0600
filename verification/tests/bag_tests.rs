use tetris::bag::Bag;
use tetris::game::PieceKind;

fn sorted(mut v: Vec<PieceKind>) -> Vec<PieceKind> {
    v.sort_by_key(|k| PieceKind::all().iter().position(|x| x == k).unwrap());
    v
}

#[test]
fn each_block_of_seven_draws_holds_every_kind_once() {
    let mut bag = Bag::new();
    for _ in 0..5 {
        let block: Vec<PieceKind> = (0..7).map(|_| bag.next()).collect();
        assert_eq!(sorted(block), PieceKind::all().to_vec());
    }
}

#[test]
fn peek_shows_the_next_draw() {
    let mut bag = Bag::new();
    for _ in 0..20 {
        let seen = bag.peek();
        assert_eq!(bag.next(), seen);
    }
}

#[test]
fn bags_are_shuffled() {
    let mut orders = Vec::new();
    for _ in 0..30 {
        let mut bag = Bag::new();
        let block: Vec<PieceKind> = (0..7).map(|_| bag.next()).collect();
        orders.push(block);
    }
    assert!(orders.iter().any(|o| o.as_slice() != PieceKind::all().as_slice()));
    assert!(orders.iter().any(|o| o != &orders[0]));
}
