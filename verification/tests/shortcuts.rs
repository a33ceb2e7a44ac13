use maolan_editor::shortcuts::{keyboard_shortcut, Key, KeyPress, Shortcut};

fn press(key: Key, no_modifiers: bool, command: bool, shift: bool) -> KeyPress {
    KeyPress { key, no_modifiers, command, shift, repeat: false }
}

fn text(c: &str) -> Key {
    Key::Character(String::from(c))
}

#[test]
fn plain_keys() {
    assert_eq!(keyboard_shortcut(&press(Key::Space, true, false, false)), Shortcut::TogglePlayback);
    assert_eq!(keyboard_shortcut(&press(text("z"), true, false, false)), Shortcut::JumpToNextZeroCrossing);
    assert_eq!(keyboard_shortcut(&press(Key::Delete, false, true, false)), Shortcut::DeleteSelection);
    assert_eq!(keyboard_shortcut(&press(Key::Escape, true, false, false)), Shortcut::CloseDialogs);
    assert_eq!(keyboard_shortcut(&press(text("a"), true, false, false)), Shortcut::Nothing);
    assert_eq!(keyboard_shortcut(&press(Key::Space, false, false, true)), Shortcut::Nothing);
}

#[test]
fn command_keys() {
    assert_eq!(keyboard_shortcut(&press(text("z"), false, true, false)), Shortcut::Undo);
    assert_eq!(keyboard_shortcut(&press(text("Z"), false, true, true)), Shortcut::Redo);
    assert_eq!(keyboard_shortcut(&press(text("y"), false, true, false)), Shortcut::Redo);
    assert_eq!(keyboard_shortcut(&press(text("x"), false, true, false)), Shortcut::Nothing);
}

#[test]
fn repeats_do_nothing() {
    let mut p = press(Key::Space, true, false, false);
    p.repeat = true;
    assert_eq!(keyboard_shortcut(&p), Shortcut::Nothing);
}
