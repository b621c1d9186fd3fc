use vstd::prelude::*;

use super::cpu::Cpu;
use super::model::CpuModel;

verus! {

/// A key of the host keyboard, as far as the keypad cares.
pub enum HostKey {
    Escape,
    Letter(char),
    Other,
}

/// An input event of the host.
pub enum KeyEvent {
    Quit,
    KeyDown(HostKey),
    KeyUp(HostKey),
    Other,
}

/// The keypad index that a host letter stands for: the two upper rows of
/// letters, from `Q` to `K`, hold the keys A to F and then 0 to 9.
pub open spec fn keypad_index_spec(letter: char) -> Option<usize> {
    match letter {
        'Q' => Some(0xAusize),
        'W' => Some(0xBusize),
        'E' => Some(0xCusize),
        'R' => Some(0xDusize),
        'T' => Some(0xEusize),
        'Y' => Some(0xFusize),
        'U' => Some(0usize),
        'I' => Some(1usize),
        'A' => Some(2usize),
        'S' => Some(3usize),
        'D' => Some(4usize),
        'F' => Some(5usize),
        'G' => Some(6usize),
        'H' => Some(7usize),
        'J' => Some(8usize),
        'K' => Some(9usize),
        _ => None,
    }
}

/// Whether the event ends the session.
pub open spec fn is_quit(event: KeyEvent) -> bool {
    match event {
        KeyEvent::Quit => true,
        KeyEvent::KeyDown(HostKey::Escape) => true,
        _ => false,
    }
}

/// The keypad switch that the event sets, and its new state, if any.
pub open spec fn key_change(event: KeyEvent) -> Option<(usize, bool)> {
    match event {
        KeyEvent::KeyDown(HostKey::Letter(l)) => match keypad_index_spec(l) {
            Some(k) => Some((k, true)),
            None => None,
        },
        KeyEvent::KeyUp(HostKey::Letter(l)) => match keypad_index_spec(l) {
            Some(k) => Some((k, false)),
            None => None,
        },
        _ => None,
    }
}

pub fn keypad_index(letter: char) -> (r: Option<usize>)
    ensures
        r == keypad_index_spec(letter),
        r matches Some(k) ==> k < 16,
{
    match letter {
        'Q' => Some(0xA),
        'W' => Some(0xB),
        'E' => Some(0xC),
        'R' => Some(0xD),
        'T' => Some(0xE),
        'Y' => Some(0xF),
        'U' => Some(0),
        'I' => Some(1),
        'A' => Some(2),
        'S' => Some(3),
        'D' => Some(4),
        'F' => Some(5),
        'G' => Some(6),
        'H' => Some(7),
        'J' => Some(8),
        'K' => Some(9),
        _ => None,
    }
}

impl Cpu {
    /// Applies one host input event to the keypad; returns whether the event
    /// asks to end the session, in which case nothing changes.
    pub fn handle_key_event(&mut self, event: KeyEvent) -> (quit: bool)
        requires
            old(self).wf(),
        ensures
            final(self).wf(),
            quit == is_quit(event),
            final(self)@ == match key_change(event) {
                Some((k, pressed)) => CpuModel { key: old(self)@.key.update(k as int, pressed), ..old(self)@ },
                None => old(self)@,
            },
    {
        let (letter, pressed) = match event {
            KeyEvent::Quit => {
                return true;
            },
            KeyEvent::KeyDown(HostKey::Escape) => {
                return true;
            },
            KeyEvent::KeyDown(HostKey::Letter(l)) => (l, true),
            KeyEvent::KeyUp(HostKey::Letter(l)) => (l, false),
            _ => {
                return false;
            },
        };
        if let Some(k) = keypad_index(letter) {
            self.key[k] = pressed;
        }
        false
    }
}

} // verus!
