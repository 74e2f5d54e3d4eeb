use gpui_mobile::text_input::{
    backspace_count, field_edits, format_time, ChatComposer, FieldEdit, FieldEdits, KeyboardType,
    StatusBarContentStyle,
};

fn strings(items: &[&str]) -> Vec<String> {
    items.iter().map(|s| s.to_string()).collect()
}

fn text(c: &ChatComposer) -> String {
    c.text().iter().collect()
}

fn sent(c: &ChatComposer) -> Vec<String> {
    c.sent().iter().map(|m| m.iter().collect()).collect()
}

#[test]
fn composer_appends_and_deletes() {
    let mut c = ChatComposer::new();
    c.apply_frame(&strings(&["hel", "lo", "\x08", "p"]));
    assert_eq!(text(&c), "hellp");
    assert!(sent(&c).is_empty());
}

#[test]
fn newline_sends_a_nonempty_message() {
    let mut c = ChatComposer::new();
    c.apply_frame(&strings(&["\n"]));
    assert!(sent(&c).is_empty());
    c.apply_frame(&strings(&["hi", "\r\n", "there", "\r"]));
    assert_eq!(sent(&c), vec!["hi".to_string(), "there".to_string()]);
    assert_eq!(text(&c), "");
}

#[test]
fn pasted_line_breaks_are_flattened() {
    let mut c = ChatComposer::new();
    c.apply_frame(&strings(&["a\nb\r\nc"]));
    assert_eq!(text(&c), "a b c");
}

#[test]
fn held_delete_clears_the_composer() {
    let mut c = ChatComposer::new();
    c.apply_frame(&strings(&["some words"]));
    c.apply_frame(&strings(&["\x08"; 6]));
    assert_eq!(text(&c), "");
    c.apply_frame(&strings(&["some words"]));
    c.apply_frame(&strings(&["\x08"; 5]));
    assert_eq!(text(&c), "some ");
}

#[test]
fn backspaces_are_counted() {
    assert_eq!(backspace_count(&strings(&["\x08", "a", "\x08", "\x08\x08"])), 2);
    assert_eq!(backspace_count(&Vec::new()), 0);
}

#[test]
fn form_fragments_become_field_edits() {
    match field_edits(&strings(&["\x08", "\x1b[D", "\x1b[C", "\x1b[H", "\x1b[F", "ab"])) {
        FieldEdits::Apply(edits) => {
            assert_eq!(edits.len(), 6);
            assert!(matches!(edits[0], FieldEdit::DeleteBackward));
            assert!(matches!(edits[1], FieldEdit::CursorLeft));
            assert!(matches!(edits[2], FieldEdit::CursorRight));
            assert!(matches!(edits[3], FieldEdit::CursorHome));
            assert!(matches!(edits[4], FieldEdit::CursorEnd));
            assert!(matches!(&edits[5], FieldEdit::Insert(s) if s == "ab"));
        }
        FieldEdits::Clear => panic!("expected edits"),
    }
    assert!(matches!(field_edits(&strings(&["\x08"; 7])), FieldEdits::Clear));
}

#[test]
fn time_labels() {
    assert_eq!(format_time(0), "0:00");
    assert_eq!(format_time(59_999), "0:59");
    assert_eq!(format_time(61_000), "1:01");
    assert_eq!(format_time(3_725_000), "62:05");
}

#[test]
fn keyboard_codes() {
    assert_eq!(KeyboardType::Default.uikit_code(), 0);
    assert_eq!(KeyboardType::EmailAddress.uikit_code(), 7);
    assert_eq!(KeyboardType::Phone.uikit_code(), 5);
    assert_eq!(KeyboardType::NumberPad.uikit_code(), 4);
    assert_eq!(KeyboardType::URL.uikit_code(), 3);
    assert_eq!(KeyboardType::Decimal.uikit_code(), 8);
    assert_eq!(StatusBarContentStyle::Light.code(), 1);
    assert_eq!(StatusBarContentStyle::Dark.code(), 0);
}
