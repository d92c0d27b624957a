//! Keyboard input as the toolkit sees it: key events with a code and a
//! modifier bitmask, the per-frame last-key capture, and the line-editor
//! state machine behind the blocking read-line helper. The caller's event
//! loop turns raw terminal events into these values and performs the screen
//! actions this module decides on.
use vstd::prelude::*;

use crate::Position;

verus! {

pub const MODIFIER_SHIFT: u8 = 1;

pub const MODIFIER_CONTROL: u8 = 2;

pub const MODIFIER_ALT: u8 = 4;

/// The key that a key event carries. Keys that the toolkit never reacts to
/// are folded into `Other`.
#[derive(Clone, Copy, PartialEq, Eq, Structural, Debug)]
pub enum KeyCode {
    Char(char),
    Enter,
    Backspace,
    Other,
}

/// One keyboard event: a key code and a bitmask of held modifiers.
#[derive(Clone, Copy, PartialEq, Eq, Structural, Debug)]
pub struct KeyEvent {
    pub code: KeyCode,
    pub modifiers: u8,
}

/// The sentinel "no key" value: a space with no modifiers. A caller that
/// must tell "space pressed" from "no input" has to track frame boundaries
/// itself.
pub open spec fn no_key_spec() -> KeyEvent {
    KeyEvent { code: KeyCode::Char(' '), modifiers: 0 }
}

impl KeyEvent {
    /// The sentinel "no key" event.
    pub fn no_key() -> (k: Self)
        ensures
            k == no_key_spec(),
    {
        KeyEvent { code: KeyCode::Char(' '), modifiers: 0 }
    }
}

/// One input event drained from the terminal: a key event, or anything else
/// (mouse, resize), which the per-frame capture discards.
#[derive(Clone, Copy, PartialEq, Eq, Structural, Debug)]
pub enum InputEvent {
    Key(KeyEvent),
    Other,
}

/// The key a frame captures from its drained events: the last key event of
/// the frame, or the sentinel when the frame saw none.
pub open spec fn last_key_spec(evs: Seq<InputEvent>) -> KeyEvent
    decreases evs.len(),
{
    if evs.len() == 0 {
        no_key_spec()
    } else {
        match evs.last() {
            InputEvent::Key(k) => k,
            InputEvent::Other => last_key_spec(evs.drop_last()),
        }
    }
}

/// What the read-line loop does with one key event.
#[derive(Clone, Copy, PartialEq, Eq, Structural, Debug)]
pub enum LineAction {
    /// A printable character was appended; echo it at the trailing cursor.
    Append(char),
    /// The last character was removed; blank its cell when echoing.
    Erase,
    /// Enter: the accumulated line is complete.
    Finish,
    /// Nothing changed (an unhandled key, or backspace on an empty line).
    Ignore,
}

/// The accumulator of the blocking read-line helper. The caller reads raw
/// key events and feeds them in; this state machine decides how the line
/// changes and what to echo.
pub struct LineEditor {
    pub chars: Vec<char>,
}

impl LineEditor {
    pub fn new() -> (e: Self)
        ensures
            e.chars@ == Seq::<char>::empty(),
    {
        LineEditor { chars: Vec::new() }
    }

    /// Feed one key event: characters append, backspace pops one character,
    /// Enter completes the line, every other key is ignored.
    pub fn apply_key(&mut self, key: KeyEvent) -> (act: LineAction)
        ensures
            key.code matches KeyCode::Char(c) ==> final(self).chars@ == old(self).chars@.push(c)
                && act == LineAction::Append(c),
            key.code == KeyCode::Enter ==> final(self).chars@ == old(self).chars@ && act
                == LineAction::Finish,
            key.code == KeyCode::Backspace && old(self).chars@.len() > 0 ==> final(self).chars@
                == old(self).chars@.drop_last() && act == LineAction::Erase,
            key.code == KeyCode::Backspace && old(self).chars@.len() == 0 ==> final(self).chars@
                == old(self).chars@ && act == LineAction::Ignore,
            key.code == KeyCode::Other ==> final(self).chars@ == old(self).chars@ && act
                == LineAction::Ignore,
    {
        match key.code {
            KeyCode::Char(c) => {
                self.chars.push(c);
                LineAction::Append(c)
            },
            KeyCode::Enter => LineAction::Finish,
            KeyCode::Backspace => {
                if self.chars.len() > 0 {
                    self.chars.pop();
                    proof {
                        assert(self.chars@ =~= old(self).chars@.drop_last());
                    }
                    LineAction::Erase
                } else {
                    LineAction::Ignore
                }
            },
            KeyCode::Other => LineAction::Ignore,
        }
    }
}

/// The column just past a prompt of `prompt_len` characters and a line of
/// `line_len` characters echoed from `pos`: where the next character goes,
/// and one past the cell to blank after an erase.
pub fn echo_position(pos: Position, prompt_len: usize, line_len: usize) -> (p: Position)
    requires
        0 <= pos.x,
        pos.x + prompt_len + line_len <= i32::MAX,
    ensures
        p.x == pos.x + prompt_len + line_len,
        p.y == pos.y,
{
    let x = pos.x as i64 + prompt_len as i64 + line_len as i64;
    Position { x: x as i32, y: pos.y }
}

} // verus!
