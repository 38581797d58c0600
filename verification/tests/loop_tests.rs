use tetris::game::{GameEvent, InputEvent};
use tetris::game_loop::{final_screen_done, loop_step, pass_end, LoopStep, PassEnd, FRAME_MS};

#[test]
fn quit_stops_the_loop() {
    let s = loop_step(Some(GameEvent::Quit), 1000, 800, 100);
    assert_eq!(s, LoopStep { stop: true, tick: false, reset_drop_timer: false, redraw: false });
}

#[test]
fn gravity_acts_when_the_interval_has_passed() {
    let s = loop_step(None, 800, 800, 0);
    assert_eq!(s, LoopStep { stop: false, tick: true, reset_drop_timer: true, redraw: false });
    let s = loop_step(Some(GameEvent::Redraw), 799, 800, 0);
    assert_eq!(s, LoopStep { stop: false, tick: false, reset_drop_timer: false, redraw: false });
}

#[test]
fn hard_drop_restarts_the_gravity_timer() {
    let s = loop_step(Some(GameEvent::HardDropped), 5000, 800, 20);
    assert_eq!(s, LoopStep { stop: false, tick: false, reset_drop_timer: true, redraw: true });
}

#[test]
fn redraw_once_a_frame_has_passed() {
    assert_eq!(FRAME_MS, 16);
    assert!(loop_step(Some(GameEvent::Nothing), 0, 800, 16).redraw);
    assert!(!loop_step(None, 0, 800, 15).redraw);
}

#[test]
fn the_final_screen_ends_the_loop() {
    assert_eq!(pass_end(true), PassEnd::FinalScreen);
    assert_eq!(pass_end(false), PassEnd::Continue);
    assert!(final_screen_done(Some(InputEvent::Left)));
    assert!(!final_screen_done(None));
}
