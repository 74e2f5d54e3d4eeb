//! Text-input side effects of key events.
//!
//! Besides being delivered as key events, some keys are also sent to the
//! application's text input as text: editing and cursor keys as control
//! sequences, and printable keys as their character.

use vstd::prelude::*;

verus! {

/// The control sequence for deleting the character before the cursor.
pub open spec fn backspace() -> Seq<char> {
    seq!['\x08']
}

/// The control sequence for moving the cursor left.
pub open spec fn cursor_left() -> Seq<char> {
    seq!['\x1b', '[', 'D']
}

/// The control sequence for moving the cursor right.
pub open spec fn cursor_right() -> Seq<char> {
    seq!['\x1b', '[', 'C']
}

/// The control sequence for moving the cursor to the start of the line.
pub open spec fn cursor_home() -> Seq<char> {
    seq!['\x1b', '[', 'H']
}

/// The control sequence for moving the cursor to the end of the line.
pub open spec fn cursor_end() -> Seq<char> {
    seq!['\x1b', '[', 'F']
}

/// The text that an Android key-down with key code `key_code` sends as a
/// control sequence: `KEYCODE_DEL` (67) deletes backwards, `DPAD_LEFT` (21)
/// and `DPAD_RIGHT` (22) move the cursor, `MOVE_HOME` (122) and `MOVE_END`
/// (123) jump to the line's ends.
pub open spec fn android_control_spec(key_code: i32) -> Option<Seq<char>> {
    if key_code == 67 {
        Some(backspace())
    } else if key_code == 21 {
        Some(cursor_left())
    } else if key_code == 22 {
        Some(cursor_right())
    } else if key_code == 122 {
        Some(cursor_home())
    } else if key_code == 123 {
        Some(cursor_end())
    } else {
        None
    }
}

/// The text that an external-keyboard key-down with HID usage `key_code`
/// sends on iOS: the arrow keys left (0x50) and right (0x4F), Home (0x4A)
/// and End (0x4D) move the cursor.
pub open spec fn ios_control_spec(key_code: u32) -> Option<Seq<char>> {
    if key_code == 0x50 {
        Some(cursor_left())
    } else if key_code == 0x4F {
        Some(cursor_right())
    } else if key_code == 0x4A {
        Some(cursor_home())
    } else if key_code == 0x4D {
        Some(cursor_end())
    } else {
        None
    }
}

/// Whether `c` is a Unicode scalar value (a valid `char`).
pub open spec fn is_scalar_value(c: u32) -> bool {
    c <= 0x10FFFF && !(0xD800 <= c <= 0xDFFF)
}

/// What an Android key event sends to the text input.
#[derive(Copy, Clone, Debug)]
pub enum TextInput {
    /// Nothing.
    Nothing,
    /// A control sequence.
    Control(&'static str),
    /// The character with this Unicode scalar value.
    Char(u32),
}

/// `AKEY_EVENT_ACTION_DOWN`.
pub const KEY_ACTION_DOWN: i32 = 0;

fn backspace_text() -> (r: &'static str)
    ensures
        r@ == backspace(),
{
    proof {
        reveal_strlit("\x08");
    }
    "\x08"
}

fn cursor_left_text() -> (r: &'static str)
    ensures
        r@ == cursor_left(),
{
    proof {
        reveal_strlit("\x1b[D");
    }
    "\x1b[D"
}

fn cursor_right_text() -> (r: &'static str)
    ensures
        r@ == cursor_right(),
{
    proof {
        reveal_strlit("\x1b[C");
    }
    "\x1b[C"
}

fn cursor_home_text() -> (r: &'static str)
    ensures
        r@ == cursor_home(),
{
    proof {
        reveal_strlit("\x1b[H");
    }
    "\x1b[H"
}

fn cursor_end_text() -> (r: &'static str)
    ensures
        r@ == cursor_end(),
{
    proof {
        reveal_strlit("\x1b[F");
    }
    "\x1b[F"
}

/// The control sequence an Android key code sends, if any.
pub fn android_control(key_code: i32) -> (r: Option<&'static str>)
    ensures
        match android_control_spec(key_code) {
            Some(s) => r matches Some(t) && t@ == s,
            None => r is None,
        },
{
    if key_code == 67 {
        Some(backspace_text())
    } else if key_code == 21 {
        Some(cursor_left_text())
    } else if key_code == 22 {
        Some(cursor_right_text())
    } else if key_code == 122 {
        Some(cursor_home_text())
    } else if key_code == 123 {
        Some(cursor_end_text())
    } else {
        None
    }
}

/// The control sequence an iOS external-keyboard key-down sends, if any.
pub fn ios_control(key_code: u32) -> (r: Option<&'static str>)
    ensures
        match ios_control_spec(key_code) {
            Some(s) => r matches Some(t) && t@ == s,
            None => r is None,
        },
{
    if key_code == 0x50 {
        Some(cursor_left_text())
    } else if key_code == 0x4F {
        Some(cursor_right_text())
    } else if key_code == 0x4A {
        Some(cursor_home_text())
    } else if key_code == 0x4D {
        Some(cursor_end_text())
    } else {
        None
    }
}

/// Whether `c` is a Unicode scalar value.
pub fn scalar_value(c: u32) -> (r: bool)
    ensures
        r == is_scalar_value(c),
{
    c <= 0x10FFFF && !(0xD800 <= c && c <= 0xDFFF)
}

/// What an Android key event sends to the text input: on key-down, the
/// control sequence of an editing or cursor key, otherwise the key's
/// character when it has one (a non-zero scalar value); nothing on other
/// actions.
pub fn android_text_input(action: i32, key_code: i32, unicode_char: u32) -> (r: TextInput)
    ensures
        action != KEY_ACTION_DOWN ==> r == TextInput::Nothing,
        action == KEY_ACTION_DOWN ==> match android_control_spec(key_code) {
            Some(s) => r matches TextInput::Control(t) && t@ == s,
            None => if unicode_char != 0 && is_scalar_value(unicode_char) {
                r == TextInput::Char(unicode_char)
            } else {
                r == TextInput::Nothing
            },
        },
{
    if action != KEY_ACTION_DOWN {
        return TextInput::Nothing;
    }
    match android_control(key_code) {
        Some(t) => TextInput::Control(t),
        None => {
            if unicode_char != 0 && scalar_value(unicode_char) {
                TextInput::Char(unicode_char)
            } else {
                TextInput::Nothing
            }
        },
    }
}

} // verus!
