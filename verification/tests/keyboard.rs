use apogee::task::keyboard::{Key, KeyInput};
use pc_keyboard::KeyCode;

#[test]
fn letter_press_decodes_to_its_character() {
    let mut input = KeyInput::new();
    assert_eq!(input.decode_scancode(0x1E), Some(Key::Unicode('a')));
}

#[test]
fn key_release_yields_nothing() {
    let mut input = KeyInput::new();
    assert_eq!(input.decode_scancode(0x1E), Some(Key::Unicode('a')));
    assert_eq!(input.decode_scancode(0x9E), None);
}

#[test]
fn shift_is_reported_raw_and_changes_the_next_letter() {
    let mut input = KeyInput::new();
    assert_eq!(input.decode_scancode(0x2A), Some(Key::Raw(KeyCode::LShift)));
    assert_eq!(input.decode_scancode(0x1E), Some(Key::Unicode('A')));
    assert_eq!(input.decode_scancode(0xAA), None);
    assert_eq!(input.decode_scancode(0x1E), Some(Key::Unicode('a')));
}

#[test]
fn function_key_decodes_to_a_raw_key() {
    let mut input = KeyInput::new();
    assert_eq!(input.decode_scancode(0x3B), Some(Key::Raw(KeyCode::F1)));
}

#[test]
fn extended_prefix_waits_for_the_next_byte() {
    let mut input = KeyInput::new();
    assert_eq!(input.decode_scancode(0xE0), None);
}
