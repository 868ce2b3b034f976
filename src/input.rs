use vstd::prelude::*;
use crate::player::PlayerCommand;

verus! {

/// The keys the game reads.
#[derive(Clone, Copy, Debug, PartialEq, Eq, Structural)]
pub enum Key {
    Numpad1,
    Numpad2,
    Numpad3,
    Numpad4,
    Numpad5,
    Numpad6,
    Numpad7,
    Numpad8,
    Numpad9,
    KeyQ,
    KeyW,
    KeyE,
    KeyA,
    KeyD,
    KeyZ,
    KeyX,
    KeyC,
    ArrowUp,
    ArrowDown,
    ArrowLeft,
    ArrowRight,
    ControlLeft,
    ControlRight,
}

pub open spec fn has_key(pressed: Seq<Key>, k: Key) -> bool {
    exists|i: int| 0 <= i < pressed.len() && pressed[i] == k
}

/// The direction asked for by the pressed keys: each key of the numeric pad
/// and its letter or arrow twin asks for one of the eight directions; when
/// several are pressed, the later of them in pad order wins on each axis.
pub open spec fn movement_of(pressed: Seq<Key>) -> (int, int) {
    let k1 = has_key(pressed, Key::Numpad1) || has_key(pressed, Key::KeyZ);
    let k2 = has_key(pressed, Key::Numpad2) || has_key(pressed, Key::KeyX) || has_key(pressed, Key::ArrowDown);
    let k3 = has_key(pressed, Key::Numpad3) || has_key(pressed, Key::KeyC);
    let k4 = has_key(pressed, Key::Numpad4) || has_key(pressed, Key::KeyA) || has_key(pressed, Key::ArrowLeft);
    let k6 = has_key(pressed, Key::Numpad6) || has_key(pressed, Key::KeyD) || has_key(pressed, Key::ArrowRight);
    let k7 = has_key(pressed, Key::Numpad7) || has_key(pressed, Key::KeyQ);
    let k8 = has_key(pressed, Key::Numpad8) || has_key(pressed, Key::KeyW) || has_key(pressed, Key::ArrowUp);
    let k9 = has_key(pressed, Key::Numpad9) || has_key(pressed, Key::KeyE);
    let x = if k9 { 1 } else if k7 { -1 } else if k6 { 1 } else if k4 { -1 } else if k3 { 1 } else if k1 { -1 } else { 0 };
    let y = if k9 || k8 || k7 { 1 } else if k3 || k2 || k1 { -1 } else { 0 };
    (x, y)
}

fn pressed_key(pressed: &Vec<Key>, k: Key) -> (r: bool)
    ensures
        r == has_key(pressed@, k),
{
    let mut i: usize = 0;
    while i < pressed.len()
        invariant
            i <= pressed@.len(),
            forall|j: int| 0 <= j < i ==> pressed@[j] != k,
        decreases pressed@.len() - i,
    {
        if pressed[i] == k {
            return true;
        }
        i = i + 1;
    }
    false
}

/// The direction the pressed keys ask for, `(0, 0)` for none.
pub fn read_movement(pressed: &Vec<Key>) -> (r: (i32, i32))
    ensures
        (r.0 as int, r.1 as int) == movement_of(pressed@),
{
    let mut x: i32 = 0;
    let mut y: i32 = 0;
    if pressed_key(pressed, Key::Numpad1) || pressed_key(pressed, Key::KeyZ) {
        x = -1;
        y = -1;
    }
    if pressed_key(pressed, Key::Numpad2) || pressed_key(pressed, Key::KeyX) || pressed_key(pressed, Key::ArrowDown) {
        y = -1;
    }
    if pressed_key(pressed, Key::Numpad3) || pressed_key(pressed, Key::KeyC) {
        x = 1;
        y = -1;
    }
    if pressed_key(pressed, Key::Numpad4) || pressed_key(pressed, Key::KeyA) || pressed_key(pressed, Key::ArrowLeft) {
        x = -1;
    }
    if pressed_key(pressed, Key::Numpad6) || pressed_key(pressed, Key::KeyD) || pressed_key(pressed, Key::ArrowRight) {
        x = 1;
    }
    if pressed_key(pressed, Key::Numpad7) || pressed_key(pressed, Key::KeyQ) {
        x = -1;
        y = 1;
    }
    if pressed_key(pressed, Key::Numpad8) || pressed_key(pressed, Key::KeyW) || pressed_key(pressed, Key::ArrowUp) {
        y = 1;
    }
    if pressed_key(pressed, Key::Numpad9) || pressed_key(pressed, Key::KeyE) {
        x = 1;
        y = 1;
    }
    (x, y)
}

/// Whether the pressed keys ask to pass the turn.
pub fn read_wait(pressed: &Vec<Key>) -> (r: bool)
    ensures
        r == (has_key(pressed@, Key::Numpad5) || has_key(pressed@, Key::ControlLeft) || has_key(
            pressed@,
            Key::ControlRight,
        )),
{
    pressed_key(pressed, Key::Numpad5) || pressed_key(pressed, Key::ControlLeft) || pressed_key(pressed, Key::ControlRight)
}

/// The player's command for the pressed keys: waiting takes precedence over
/// moving; no key asks for nothing.
pub fn read_command(pressed: &Vec<Key>) -> (r: PlayerCommand)
    ensures
        r == if has_key(pressed@, Key::Numpad5) || has_key(pressed@, Key::ControlLeft) || has_key(
            pressed@,
            Key::ControlRight,
        ) {
            PlayerCommand::Wait
        } else if movement_of(pressed@) == (0int, 0int) {
            PlayerCommand::Idle
        } else {
            PlayerCommand::Move(movement_of(pressed@).0 as i32, movement_of(pressed@).1 as i32)
        },
{
    if read_wait(pressed) {
        return PlayerCommand::Wait;
    }
    let (dx, dy) = read_movement(pressed);
    if dx == 0 && dy == 0 {
        PlayerCommand::Idle
    } else {
        PlayerCommand::Move(dx, dy)
    }
}

} // verus!
