use gpui_mobile::key_input::{android_control, android_text_input, ios_control, scalar_value, TextInput};

#[test]
fn android_editing_keys_send_control_sequences() {
    assert_eq!(android_control(67), Some("\x08"));
    assert_eq!(android_control(21), Some("\x1b[D"));
    assert_eq!(android_control(22), Some("\x1b[C"));
    assert_eq!(android_control(122), Some("\x1b[H"));
    assert_eq!(android_control(123), Some("\x1b[F"));
    assert_eq!(android_control(29), None);
}

#[test]
fn ios_cursor_keys_send_control_sequences() {
    assert_eq!(ios_control(0x50), Some("\x1b[D"));
    assert_eq!(ios_control(0x4F), Some("\x1b[C"));
    assert_eq!(ios_control(0x4A), Some("\x1b[H"));
    assert_eq!(ios_control(0x4D), Some("\x1b[F"));
    assert_eq!(ios_control(0x04), None);
}

#[test]
fn android_key_down_sends_text() {
    assert!(matches!(android_text_input(0, 29, b'a' as u32), TextInput::Char(97)));
    assert!(matches!(android_text_input(0, 67, 0), TextInput::Control("\x08")));
    // Control keys win over the character.
    assert!(matches!(android_text_input(0, 21, b'x' as u32), TextInput::Control("\x1b[D")));
    // Key-up and unmapped keys send nothing.
    assert!(matches!(android_text_input(1, 29, b'a' as u32), TextInput::Nothing));
    assert!(matches!(android_text_input(0, 59, 0), TextInput::Nothing));
    // A surrogate is not a character.
    assert!(matches!(android_text_input(0, 29, 0xD800), TextInput::Nothing));
}

#[test]
fn scalar_values() {
    assert!(scalar_value(0x41));
    assert!(scalar_value(0x10FFFF));
    assert!(!scalar_value(0x110000));
    assert!(!scalar_value(0xDFFF));
    assert!(scalar_value(0xE000));
}
