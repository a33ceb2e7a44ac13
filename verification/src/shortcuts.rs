//! Keyboard shortcuts of the standalone editor.

use vstd::prelude::*;

verus! {

/// A key as the keyboard reports it.
#[derive(Debug, Clone, PartialEq)]
pub enum Key {
    Space,
    Delete,
    Escape,
    /// A key that types text.
    Character(String),
    /// Any other key.
    Other,
}

/// A key press.
#[derive(Debug, Clone)]
pub struct KeyPress {
    pub key: Key,
    /// No modifier key is held.
    pub no_modifiers: bool,
    /// The platform's command modifier (Ctrl, or Cmd on macOS) is held.
    pub command: bool,
    pub shift: bool,
    /// The press repeats a held key.
    pub repeat: bool,
}

/// What a shortcut does.
#[derive(Debug, Clone, Copy, PartialEq, Eq, Structural)]
pub enum Shortcut {
    TogglePlayback,
    JumpToNextZeroCrossing,
    Undo,
    Redo,
    DeleteSelection,
    CloseDialogs,
    Nothing,
}

pub open spec fn is_text(key: Key, text: Seq<char>) -> bool {
    key matches Key::Character(c) && c@ == text
}

/// The shortcut of a key press. Repeats do nothing. Space plays or stops
/// and `z` jumps to the next zero crossing, both without modifiers; with
/// the command modifier `z` or `Z` undoes (redoes with shift) and `y` or `Y`
/// redoes; Delete deletes the selection and Escape closes the dialogs,
/// whatever the modifiers.
pub open spec fn spec_shortcut(press: KeyPress) -> Shortcut {
    let key = press.key;
    if press.repeat {
        Shortcut::Nothing
    } else if key == Key::Space && press.no_modifiers {
        Shortcut::TogglePlayback
    } else if is_text(key, "z"@) && press.no_modifiers {
        Shortcut::JumpToNextZeroCrossing
    } else if key is Character && press.command {
        if is_text(key, "z"@) || is_text(key, "Z"@) {
            if press.shift { Shortcut::Redo } else { Shortcut::Undo }
        } else if is_text(key, "y"@) || is_text(key, "Y"@) {
            Shortcut::Redo
        } else {
            Shortcut::Nothing
        }
    } else if key == Key::Delete {
        Shortcut::DeleteSelection
    } else if key == Key::Escape {
        Shortcut::CloseDialogs
    } else {
        Shortcut::Nothing
    }
}

fn text_is(c: &String, text: &str) -> (same: bool)
    ensures
        same == (c@ == text@),
{
    crate::formats::equal_text(c.as_str(), text)
}

/// See [`spec_shortcut`].
pub fn keyboard_shortcut(press: &KeyPress) -> (shortcut: Shortcut)
    ensures
        shortcut == spec_shortcut(*press),
{
    if press.repeat {
        return Shortcut::Nothing;
    }
    match &press.key {
        Key::Space => if press.no_modifiers { Shortcut::TogglePlayback } else { Shortcut::Nothing },
        Key::Character(c) => {
            if text_is(c, "z") && press.no_modifiers {
                Shortcut::JumpToNextZeroCrossing
            } else if press.command {
                if text_is(c, "z") || text_is(c, "Z") {
                    if press.shift { Shortcut::Redo } else { Shortcut::Undo }
                } else if text_is(c, "y") || text_is(c, "Y") {
                    Shortcut::Redo
                } else {
                    Shortcut::Nothing
                }
            } else {
                Shortcut::Nothing
            }
        },
        Key::Delete => Shortcut::DeleteSelection,
        Key::Escape => Shortcut::CloseDialogs,
        Key::Other => Shortcut::Nothing,
    }
}

} // verus!
