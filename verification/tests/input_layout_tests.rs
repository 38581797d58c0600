use tetris::game::InputEvent;
use tetris::keys::{input_for_key, language_for_key, Key, Lang};
use tetris::layout::{board_origin, controls_fit, terminal_large_enough};

#[test]
fn movement_keys() {
    for k in [Key::Left, Key::Char('a'), Key::Char('A')] {
        assert_eq!(input_for_key(k, false, false), Some(InputEvent::Left));
    }
    for k in [Key::Right, Key::Char('d'), Key::Char('D')] {
        assert_eq!(input_for_key(k, false, false), Some(InputEvent::Right));
    }
    for k in [Key::Up, Key::Char('w'), Key::Char('W')] {
        assert_eq!(input_for_key(k, false, false), Some(InputEvent::RotateCW));
    }
    for k in [Key::Down, Key::Char('s'), Key::Char('S')] {
        assert_eq!(input_for_key(k, false, false), Some(InputEvent::SoftDrop));
    }
}

#[test]
fn action_keys() {
    assert_eq!(input_for_key(Key::Char(' '), false, false), Some(InputEvent::HardDrop));
    assert_eq!(input_for_key(Key::Char('c'), false, false), Some(InputEvent::Hold));
    assert_eq!(input_for_key(Key::Char('C'), false, false), Some(InputEvent::Hold));
    assert_eq!(input_for_key(Key::Char('p'), false, false), Some(InputEvent::Pause));
    assert_eq!(input_for_key(Key::Char('P'), false, false), Some(InputEvent::Pause));
    for k in [Key::Char('q'), Key::Char('Q'), Key::Esc] {
        assert_eq!(input_for_key(k, false, false), Some(InputEvent::Quit));
    }
}

#[test]
fn ctrl_c_quits() {
    assert_eq!(input_for_key(Key::Char('c'), true, false), Some(InputEvent::Quit));
    assert_eq!(input_for_key(Key::Char('a'), true, false), Some(InputEvent::Left));
}

#[test]
fn releases_and_other_keys_are_ignored() {
    assert_eq!(input_for_key(Key::Char('a'), false, true), None);
    assert_eq!(input_for_key(Key::Char('c'), true, true), None);
    assert_eq!(input_for_key(Key::Char('x'), false, false), None);
    assert_eq!(input_for_key(Key::Other, false, false), None);
}

#[test]
fn board_origin_centres_the_playfield() {
    assert_eq!(board_origin(80, 24), (27, 1));
    assert_eq!(board_origin(100, 40), (37, 7));
    assert_eq!(board_origin(10, 10), (10, 1));
    assert_eq!(board_origin(46, 28), (10, 1));
    assert_eq!(board_origin(u16::MAX, u16::MAX), (32754, 32754));
}

#[test]
fn minimum_terminal_size() {
    assert!(terminal_large_enough(52, 24));
    assert!(!terminal_large_enough(51, 24));
    assert!(!terminal_large_enough(52, 23));
    assert!(terminal_large_enough(200, 60));
}

#[test]
fn language_keys() {
    for k in [Key::Char('1'), Key::Char('e'), Key::Char('E')] {
        assert_eq!(language_for_key(k, false), Some(Lang::En));
    }
    for k in [Key::Char('2'), Key::Char('d'), Key::Char('D')] {
        assert_eq!(language_for_key(k, false), Some(Lang::De));
    }
    assert_eq!(language_for_key(Key::Char('1'), true), None);
    assert_eq!(language_for_key(Key::Char('x'), false), None);
    assert_eq!(language_for_key(Key::Esc, false), None);
}

#[test]
fn controls_are_drawn_only_where_they_fit() {
    assert!(!controls_fit(52, 24));
    assert!(!controls_fit(52, 26));
    assert!(controls_fit(52, 27));
    assert!(controls_fit(80, 40));
    for th in 24..200u16 {
        for tw in [52u16, 53, 80, 200] {
            let (bc, br) = board_origin(tw, th);
            assert!(br >= 1 && br + 20 < th);
            assert!(bc >= 10 && bc + 23 + 14 <= tw);
            if controls_fit(tw, th) {
                assert!(br + 25 < th);
            }
        }
    }
}
