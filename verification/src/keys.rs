use vstd::prelude::*;

use crate::game::InputEvent;

verus! {

/// A key as the terminal reports it.
#[derive(Clone, Copy, PartialEq, Eq, Debug, Structural)]
pub enum Key {
    Left,
    Right,
    Up,
    Down,
    Esc,
    Char(char),
    Other,
}

/// The input that a key event stands for: releases are ignored, Ctrl+C quits, and
/// otherwise A/Left moves left, D/Right moves right, W/Up rotates, S/Down soft-drops,
/// Space hard-drops, C holds, P pauses, and Q/Esc quits (letters in either case).
pub open spec fn key_input(key: Key, ctrl: bool, release: bool) -> Option<InputEvent> {
    if release {
        None
    } else if ctrl && key == Key::Char('c') {
        Some(InputEvent::Quit)
    } else {
        match key {
            Key::Left => Some(InputEvent::Left),
            Key::Right => Some(InputEvent::Right),
            Key::Up => Some(InputEvent::RotateCW),
            Key::Down => Some(InputEvent::SoftDrop),
            Key::Esc => Some(InputEvent::Quit),
            Key::Char(ch) => {
                if ch == 'a' || ch == 'A' {
                    Some(InputEvent::Left)
                } else if ch == 'd' || ch == 'D' {
                    Some(InputEvent::Right)
                } else if ch == 'w' || ch == 'W' {
                    Some(InputEvent::RotateCW)
                } else if ch == 's' || ch == 'S' {
                    Some(InputEvent::SoftDrop)
                } else if ch == ' ' {
                    Some(InputEvent::HardDrop)
                } else if ch == 'c' || ch == 'C' {
                    Some(InputEvent::Hold)
                } else if ch == 'p' || ch == 'P' {
                    Some(InputEvent::Pause)
                } else if ch == 'q' || ch == 'Q' {
                    Some(InputEvent::Quit)
                } else {
                    None
                }
            },
            Key::Other => None,
        }
    }
}

/// The game input for a key event; `ctrl` tells whether Control was held and
/// `release` whether the key was let go.
pub fn input_for_key(key: Key, ctrl: bool, release: bool) -> (res: Option<InputEvent>)
    ensures
        res == key_input(key, ctrl, release),
{
    if release {
        return None;
    }
    if ctrl && key == Key::Char('c') {
        return Some(InputEvent::Quit);
    }
    let ev = match key {
        Key::Left | Key::Char('a') | Key::Char('A') => InputEvent::Left,
        Key::Right | Key::Char('d') | Key::Char('D') => InputEvent::Right,
        Key::Up | Key::Char('w') | Key::Char('W') => InputEvent::RotateCW,
        Key::Down | Key::Char('s') | Key::Char('S') => InputEvent::SoftDrop,
        Key::Char(' ') => InputEvent::HardDrop,
        Key::Char('c') | Key::Char('C') => InputEvent::Hold,
        Key::Char('p') | Key::Char('P') => InputEvent::Pause,
        Key::Char('q') | Key::Char('Q') | Key::Esc => InputEvent::Quit,
        _ => return None,
    };
    Some(ev)
}

/// Language of the labels on screen.
#[derive(Clone, Copy, PartialEq, Eq, Debug, Structural)]
pub enum Lang {
    En,
    De,
}

/// The language chosen on the start screen: 1 or E for English, 2 or D for German
/// (letters in either case); releases and other keys choose nothing.
pub open spec fn key_language(key: Key, release: bool) -> Option<Lang> {
    if release {
        None
    } else {
        match key {
            Key::Char(ch) => {
                if ch == '1' || ch == 'e' || ch == 'E' {
                    Some(Lang::En)
                } else if ch == '2' || ch == 'd' || ch == 'D' {
                    Some(Lang::De)
                } else {
                    None
                }
            },
            _ => None,
        }
    }
}

/// The language that a key event on the start screen chooses, if any.
pub fn language_for_key(key: Key, release: bool) -> (res: Option<Lang>)
    ensures
        res == key_language(key, release),
{
    if release {
        return None;
    }
    match key {
        Key::Char('1') | Key::Char('e') | Key::Char('E') => Some(Lang::En),
        Key::Char('2') | Key::Char('d') | Key::Char('D') => Some(Lang::De),
        _ => None,
    }
}

} // verus!
