//! The counter screen: Left and Right change a counter, q quits.

use vstd::prelude::*;
use crate::input::{Key, KeyKind};

verus! {

/// State of the counter screen.
#[derive(Debug)]
pub struct App {
    pub counter: u8,
    pub exit: bool,
}

impl Default for App {
    fn default() -> (r: App)
        ensures
            r.counter == 0,
            !r.exit,
    {
        App { counter: 0, exit: false }
    }
}

/// The counter after a key event: a press of Left lowers it, of Right
/// raises it, both saturating at the bounds of `u8`.
pub open spec fn counter_after(counter: u8, kind: KeyKind, key: Key) -> u8 {
    if kind != KeyKind::Press {
        counter
    } else if key == Key::Left {
        if counter == 0 { 0 } else { (counter - 1) as u8 }
    } else if key == Key::Right {
        if counter == u8::MAX { u8::MAX } else { (counter + 1) as u8 }
    } else {
        counter
    }
}

/// Right then Left gives back the counter, unless it was at its maximum.
pub proof fn law_right_then_left(counter: u8)
    requires
        counter < u8::MAX,
    ensures
        counter_after(counter_after(counter, KeyKind::Press, Key::Right), KeyKind::Press, Key::Left)
            == counter,
{
}

/// Left then Right gives back the counter, unless it was zero.
pub proof fn law_left_then_right(counter: u8)
    requires
        counter > 0,
    ensures
        counter_after(counter_after(counter, KeyKind::Press, Key::Left), KeyKind::Press, Key::Right)
            == counter,
{
}

/// A key changes the counter by at most one.
pub proof fn law_counter_steps_by_one(counter: u8, kind: KeyKind, key: Key)
    ensures
        counter - 1 <= counter_after(counter, kind, key) <= counter + 1,
{
}

impl App {
    /// React to a key event: on a press, q or Q quits, Left lowers the
    /// counter and Right raises it, both saturating; nothing else changes
    /// anything.
    pub fn handle_key_event(&mut self, kind: KeyKind, key: Key)
        ensures
            final(self).exit == (old(self).exit || (kind == KeyKind::Press && (key == Key::Char('q')
                || key == Key::Char('Q')))),
            final(self).counter == counter_after(old(self).counter, kind, key),
    {
        if kind == KeyKind::Press {
            match key {
                Key::Char('q') | Key::Char('Q') => self.exit = true,
                Key::Left => self.counter = self.counter.saturating_sub(1),
                Key::Right => self.counter = self.counter.saturating_add(1),
                _ => {},
            }
        }
    }
}

} // verus!
