use vstd::prelude::*;
use crate::status::{after_shutdown, Statuses};

verus! {

/// The modifier keys held with a key: none (plain), shift alone, or
/// anything else.
#[derive(Clone, Copy, Debug, PartialEq, Eq, Structural)]
pub enum Modifiers {
    Plain,
    Shift,
    Other,
}

/// The key of a key press, as far as the dashboard tells keys apart.
#[derive(Clone, Copy, Debug, PartialEq, Eq, Structural)]
pub enum KeyCode {
    Char(char),
    Up,
    Down,
    Other,
}

/// One key press.
#[derive(Clone, Copy, Debug, PartialEq, Eq, Structural)]
pub struct KeyEvent {
    pub modifiers: Modifiers,
    pub code: KeyCode,
}

/// A rectangle of terminal cells.
#[derive(Clone, Copy, Debug, PartialEq, Eq, Structural)]
pub struct Rect {
    pub x: u16,
    pub y: u16,
    pub width: u16,
    pub height: u16,
}

/// Width of the exit popup in cells.
pub const EXIT_POPUP_WIDTH: u16 = 40;

/// Height of the exit popup in cells.
pub const EXIT_POPUP_HEIGHT: u16 = 7;

/// The popup that asks whether to quit.
#[derive(Clone, Copy, Debug, PartialEq, Eq, Structural)]
pub struct ExitPopup {
    /// The user said yes: the threads are to be asked to stop.
    pub can_exit: bool,
    /// The user said no: the popup is done.
    pub exit: bool,
}

impl ExitPopup {
    /// A popup that has no answer yet.
    pub fn new() -> (p: Self)
        ensures
            p == (ExitPopup { can_exit: false, exit: false }),
    {
        Self { can_exit: false, exit: false }
    }

    /// The popup's rank among popups: above every other.
    pub fn priority(&self) -> (p: i32)
        ensures
            p == i32::MAX,
    {
        i32::MAX
    }

    /// Where the popup is drawn on a screen of the given size: a rectangle
    /// of 40 by 7 cells whose corner leaves as much room to the left as to
    /// the right and as much above as below, and lies at the screen's corner
    /// where the screen is smaller than the popup.
    pub fn area(&self, global_area: Rect) -> (r: Rect)
        ensures
            r.width == EXIT_POPUP_WIDTH,
            r.height == EXIT_POPUP_HEIGHT,
            r.x == if global_area.width >= EXIT_POPUP_WIDTH {
                (global_area.width - EXIT_POPUP_WIDTH) / 2
            } else {
                0
            },
            r.y == if global_area.height >= EXIT_POPUP_HEIGHT {
                (global_area.height - EXIT_POPUP_HEIGHT) / 2
            } else {
                0
            },
    {
        let x = if global_area.width >= EXIT_POPUP_WIDTH {
            (global_area.width - EXIT_POPUP_WIDTH) / 2
        } else {
            0
        };
        let y = if global_area.height >= EXIT_POPUP_HEIGHT {
            (global_area.height - EXIT_POPUP_HEIGHT) / 2
        } else {
            0
        };
        Rect { x, y, width: EXIT_POPUP_WIDTH, height: EXIT_POPUP_HEIGHT }
    }

    /// The popup after a key: `y` or `Y` is a yes, `n` or `N` is a no,
    /// whatever modifiers are held; no other key changes anything.
    pub open spec fn after_key(self, key: KeyEvent) -> ExitPopup {
        ExitPopup {
            can_exit: self.can_exit || key.code == KeyCode::Char('y') || key.code == KeyCode::Char(
                'Y',
            ),
            exit: self.exit || key.code == KeyCode::Char('n') || key.code == KeyCode::Char('N'),
        }
    }

    /// Takes a key.
    pub fn on_event(&mut self, key: KeyEvent)
        ensures
            *final(self) == old(self).after_key(key),
    {
        match key.code {
            KeyCode::Char(c) => {
                if c == 'y' || c == 'Y' {
                    self.can_exit = true;
                } else if c == 'n' || c == 'N' {
                    self.exit = true;
                }
            },
            _ => {},
        }
    }

    /// One tick: after a yes, every running thread is asked to stop.
    /// Returns whether the popup is done, which it is after a no.
    pub fn update(&mut self, statuses: &mut Statuses) -> (finished: bool)
        ensures
            *final(self) == *old(self),
            finished == old(self).exit,
            final(statuses)@ == if old(self).can_exit {
                after_shutdown(old(statuses)@)
            } else {
                old(statuses)@
            },
            final(statuses).roles() == old(statuses).roles(),
    {
        if self.can_exit {
            statuses.terminate_all();
        }
        self.exit
    }
}

} // verus!
