//! Applying keyboard text to text fields.
//!
//! The software keyboard delivers text fragments between frames; each frame
//! drains them.  A fragment is either text to insert or a control sequence
//! (backspace, cursor movement).  When many backspaces arrive within one
//! frame the user is holding the delete key, and the field is cleared.

use vstd::prelude::*;
use vstd::string::StrSliceExecFns;
use vstd::string::StringExecFns;
use crate::target_platform::str_equal;

verus! {

/// The number of backspaces within one frame from which the field is
/// cleared instead of edited.
pub const HELD_DELETE_BACKSPACES: usize = 6;

/// The backspace fragment.
pub open spec fn backspace_fragment() -> Seq<char> {
    seq!['\x08']
}

/// The number of backspace fragments in `texts`.
pub open spec fn count_backspaces(texts: Seq<Seq<char>>) -> nat
    decreases texts.len(),
{
    if texts.len() == 0 {
        0
    } else {
        count_backspaces(texts.drop_last()) + if texts.last() == backspace_fragment() {
            1nat
        } else {
            0nat
        }
    }
}

/// The character views of a sequence of strings.
pub open spec fn views(texts: Seq<String>) -> Seq<Seq<char>> {
    texts.map_values(|t: String| t@)
}

fn is_backspace(t: &str) -> (r: bool)
    ensures
        r == (t@ == backspace_fragment()),
{
    proof {
        broadcast use vstd::string::group_string_axioms;
        reveal_strlit("\x08");
        assert("\x08"@ =~= backspace_fragment());
    }
    str_equal(t, "\x08")
}

/// The number of backspace fragments among `texts`.
pub fn backspace_count(texts: &Vec<String>) -> (r: usize)
    ensures
        r == count_backspaces(views(texts@)),
{
    let mut n: usize = 0;
    let mut i: usize = 0;
    while i < texts.len()
        invariant
            i <= texts@.len(),
            n == count_backspaces(views(texts@.take(i as int))),
            n <= i,
        decreases texts@.len() - i,
    {
        proof {
            assert(views(texts@.take(i as int + 1)).drop_last() =~= views(texts@.take(i as int)));
        }
        if is_backspace(texts[i].as_str()) {
            n = n + 1;
        }
        i = i + 1;
    }
    assert(texts@.take(i as int) =~= texts@);
    n
}

// ── chat composer ────────────────────────────────────────────────────────────

/// Whether a fragment is a line break, which sends the message.
pub open spec fn is_newline(t: Seq<char>) -> bool {
    t == seq!['\n'] || t == seq!['\r'] || t == seq!['\r', '\n']
}

/// A fragment as inserted into the composer: line feeds become spaces and
/// carriage returns are dropped.
pub open spec fn cleaned(t: Seq<char>) -> Seq<char>
    decreases t.len(),
{
    if t.len() == 0 {
        Seq::empty()
    } else {
        let rest = cleaned(t.drop_last());
        if t.last() == '\n' {
            rest.push(' ')
        } else if t.last() == '\r' {
            rest
        } else {
            rest.push(t.last())
        }
    }
}

/// The composer text and the sent messages after one fragment.
pub open spec fn compose_step(text: Seq<char>, sent: Seq<Seq<char>>, t: Seq<char>) -> (Seq<char>, Seq<Seq<char>>) {
    if t == backspace_fragment() {
        (if text.len() > 0 { text.drop_last() } else { text }, sent)
    } else if is_newline(t) {
        if text.len() > 0 {
            (Seq::empty(), sent.push(text))
        } else {
            (text, sent)
        }
    } else {
        (text + cleaned(t), sent)
    }
}

/// The composer text and the sent messages after the fragments, in order.
pub open spec fn compose_all(text: Seq<char>, sent: Seq<Seq<char>>, texts: Seq<Seq<char>>) -> (Seq<char>, Seq<Seq<char>>)
    decreases texts.len(),
{
    if texts.len() == 0 {
        (text, sent)
    } else {
        let before = compose_all(text, sent, texts.drop_last());
        compose_step(before.0, before.1, texts.last())
    }
}

/// The composer after one frame's fragments: cleared when the delete key is
/// held, otherwise edited fragment by fragment.
pub open spec fn compose_frame(text: Seq<char>, sent: Seq<Seq<char>>, texts: Seq<Seq<char>>) -> (Seq<char>, Seq<Seq<char>>) {
    if count_backspaces(texts) >= HELD_DELETE_BACKSPACES {
        (Seq::empty(), sent)
    } else {
        compose_all(text, sent, texts)
    }
}

/// Fragments never take back a sent message: the messages sent before stay,
/// in order, at the front, and every message added is non-empty.
proof fn lemma_compose_all_keeps_sent(text: Seq<char>, sent: Seq<Seq<char>>, texts: Seq<Seq<char>>)
    ensures
        sent.is_prefix_of(compose_all(text, sent, texts).1),
        forall|i: int|
            sent.len() <= i < compose_all(text, sent, texts).1.len() ==> #[trigger] compose_all(text, sent, texts).1[i].len() > 0,
    decreases texts.len(),
{
    if texts.len() > 0 {
        lemma_compose_all_keeps_sent(text, sent, texts.drop_last());
    }
}

/// A frame only ever adds sent messages: those sent before the frame stay,
/// in order, at the front, and each message the frame sends is non-empty.
/// When the delete key is held (`HELD_DELETE_BACKSPACES` or more
/// backspaces in the frame) the text being composed is cleared and the sent
/// messages are left exactly as they were.
pub proof fn lemma_frame_keeps_sent_messages(text: Seq<char>, sent: Seq<Seq<char>>, texts: Seq<Seq<char>>)
    ensures
        sent.is_prefix_of(compose_frame(text, sent, texts).1),
        forall|i: int|
            sent.len() <= i < compose_frame(text, sent, texts).1.len() ==> #[trigger] compose_frame(text, sent, texts).1[i].len() > 0,
        count_backspaces(texts) >= HELD_DELETE_BACKSPACES ==> {
            &&& compose_frame(text, sent, texts).0 == Seq::<char>::empty()
            &&& compose_frame(text, sent, texts).1 == sent
        },
{
    lemma_compose_all_keeps_sent(text, sent, texts);
}

/// The message being composed and the messages sent so far.
pub struct ChatComposer {
    text: Vec<char>,
    sent: Vec<Vec<char>>,
}

/// The abstract state of a composer.
pub struct ComposerModel {
    pub text: Seq<char>,
    pub sent: Seq<Seq<char>>,
}

impl View for ChatComposer {
    type V = ComposerModel;

    closed spec fn view(&self) -> ComposerModel {
        ComposerModel { text: self.text@, sent: self.sent@.map_values(|m: Vec<char>| m@) }
    }
}

fn is_newline_text(t: &str) -> (r: bool)
    ensures
        r == is_newline(t@),
{
    proof {
        broadcast use vstd::string::group_string_axioms;
        reveal_strlit("\n");
        reveal_strlit("\r");
        reveal_strlit("\r\n");
        assert("\n"@ =~= seq!['\n']);
        assert("\r"@ =~= seq!['\r']);
        assert("\r\n"@ =~= seq!['\r', '\n']);
    }
    str_equal(t, "\n") || str_equal(t, "\r") || str_equal(t, "\r\n")
}

impl ChatComposer {
    /// An empty composer with no messages sent.
    pub fn new() -> (r: Self)
        ensures
            r@.text == Seq::<char>::empty(),
            r@.sent == Seq::<Seq<char>>::empty(),
    {
        let r = ChatComposer { text: Vec::new(), sent: Vec::new() };
        assert(r@.sent =~= Seq::<Seq<char>>::empty());
        r
    }

    /// The text being composed.
    pub fn text(&self) -> (r: &Vec<char>)
        ensures
            r@ == self@.text,
    {
        &self.text
    }

    /// The messages sent so far, oldest first.
    pub fn sent(&self) -> (r: &Vec<Vec<char>>)
        ensures
            r@.map_values(|m: Vec<char>| m@) == self@.sent,
    {
        &self.sent
    }

    fn append_cleaned(&mut self, t: &str)
        ensures
            final(self)@.text == old(self)@.text + cleaned(t@),
            final(self)@.sent == old(self)@.sent,
    {
        let n = t.unicode_len();
        let mut i: usize = 0;
        while i < n
            invariant
                n == t@.len(),
                i <= n,
                self@.text == old(self)@.text + cleaned(t@.take(i as int)),
                self@.sent == old(self)@.sent,
            decreases n - i,
        {
            let c = t.get_char(i);
            proof {
                assert(t@.take(i as int + 1).drop_last() =~= t@.take(i as int));
            }
            if c == '\n' {
                self.text.push(' ');
            } else if c != '\r' {
                self.text.push(c);
            }
            i = i + 1;
        }
        assert(t@.take(n as int) =~= t@);
    }

    fn step(&mut self, t: &str)
        ensures
            (final(self)@.text, final(self)@.sent) == compose_step(old(self)@.text, old(self)@.sent, t@),
    {
        if is_backspace(t) {
            if self.text.len() > 0 {
                self.text.pop();
            }
        } else if is_newline_text(t) {
            if self.text.len() > 0 {
                let mut message: Vec<char> = Vec::new();
                std::mem::swap(&mut message, &mut self.text);
                self.sent.push(message);
                assert(self@.sent =~= old(self)@.sent.push(old(self)@.text));
            }
        } else {
            self.append_cleaned(t);
        }
    }

    /// Applies one frame's keyboard fragments: with `HELD_DELETE_BACKSPACES`
    /// or more backspaces the text is cleared; otherwise each fragment in
    /// turn deletes the last character (backspace), sends the text as a
    /// message if it is not empty (line break), or is appended with line
    /// feeds turned into spaces and carriage returns dropped.
    pub fn apply_frame(&mut self, texts: &Vec<String>)
        ensures
            (final(self)@.text, final(self)@.sent) == compose_frame(old(self)@.text, old(self)@.sent, views(texts@)),
            old(self)@.sent.is_prefix_of(final(self)@.sent),
            count_backspaces(views(texts@)) >= HELD_DELETE_BACKSPACES ==> {
                &&& final(self)@.text.len() == 0
                &&& final(self)@.sent == old(self)@.sent
            },
    {
        proof {
            lemma_frame_keeps_sent_messages(self@.text, self@.sent, views(texts@));
        }
        if backspace_count(texts) >= HELD_DELETE_BACKSPACES {
            self.text.clear();
            return;
        }
        let mut i: usize = 0;
        while i < texts.len()
            invariant
                i <= texts@.len(),
                (self@.text, self@.sent) == compose_all(old(self)@.text, old(self)@.sent, views(texts@.take(i as int))),
            decreases texts@.len() - i,
        {
            proof {
                assert(views(texts@.take(i as int + 1)).drop_last() =~= views(texts@.take(i as int)));
            }
            self.step(texts[i].as_str());
            i = i + 1;
        }
        assert(texts@.take(i as int) =~= texts@);
    }
}

// ── form fields ──────────────────────────────────────────────────────────────

/// One edit of the focused text field.
#[derive(Clone, Debug)]
pub enum FieldEdit {
    /// Delete the character before the cursor.
    DeleteBackward,
    /// Move the cursor one character left.
    CursorLeft,
    /// Move the cursor one character right.
    CursorRight,
    /// Move the cursor to the start.
    CursorHome,
    /// Move the cursor to the end.
    CursorEnd,
    /// Insert text at the cursor.
    Insert(String),
}

/// The edit a fragment stands for.
pub open spec fn edit_of(t: Seq<char>) -> FieldEditModel {
    if t == backspace_fragment() {
        FieldEditModel::DeleteBackward
    } else if t == seq!['\x1b', '[', 'D'] {
        FieldEditModel::CursorLeft
    } else if t == seq!['\x1b', '[', 'C'] {
        FieldEditModel::CursorRight
    } else if t == seq!['\x1b', '[', 'H'] {
        FieldEditModel::CursorHome
    } else if t == seq!['\x1b', '[', 'F'] {
        FieldEditModel::CursorEnd
    } else {
        FieldEditModel::Insert(t)
    }
}

/// The abstract form of a field edit.
pub enum FieldEditModel {
    DeleteBackward,
    CursorLeft,
    CursorRight,
    CursorHome,
    CursorEnd,
    Insert(Seq<char>),
}

/// The abstract form of an edit.
pub open spec fn edit_model(e: FieldEdit) -> FieldEditModel {
    match e {
        FieldEdit::DeleteBackward => FieldEditModel::DeleteBackward,
        FieldEdit::CursorLeft => FieldEditModel::CursorLeft,
        FieldEdit::CursorRight => FieldEditModel::CursorRight,
        FieldEdit::CursorHome => FieldEditModel::CursorHome,
        FieldEdit::CursorEnd => FieldEditModel::CursorEnd,
        FieldEdit::Insert(s) => FieldEditModel::Insert(s@),
    }
}

/// What one frame's keyboard fragments do to the focused field.
#[derive(Clone, Debug)]
pub enum FieldEdits {
    /// Clear the field (the delete key is held).
    Clear,
    /// Apply these edits in order.
    Apply(Vec<FieldEdit>),
}

fn edit_for(t: &String) -> (r: FieldEdit)
    ensures
        edit_model(r) == edit_of(t@),
{
    let s = t.as_str();
    proof {
        broadcast use vstd::string::group_string_axioms;
        reveal_strlit("\x1b[D");
        reveal_strlit("\x1b[C");
        reveal_strlit("\x1b[H");
        reveal_strlit("\x1b[F");
        assert("\x1b[D"@ =~= seq!['\x1b', '[', 'D']);
        assert("\x1b[C"@ =~= seq!['\x1b', '[', 'C']);
        assert("\x1b[H"@ =~= seq!['\x1b', '[', 'H']);
        assert("\x1b[F"@ =~= seq!['\x1b', '[', 'F']);
    }
    if is_backspace(s) {
        FieldEdit::DeleteBackward
    } else if str_equal(s, "\x1b[D") {
        FieldEdit::CursorLeft
    } else if str_equal(s, "\x1b[C") {
        FieldEdit::CursorRight
    } else if str_equal(s, "\x1b[H") {
        FieldEdit::CursorHome
    } else if str_equal(s, "\x1b[F") {
        FieldEdit::CursorEnd
    } else {
        FieldEdit::Insert(t.clone())
    }
}

/// The edits one frame's keyboard fragments make to the focused field:
/// `Clear` with `HELD_DELETE_BACKSPACES` or more backspaces, otherwise one
/// edit per fragment, in order.
pub fn field_edits(texts: &Vec<String>) -> (r: FieldEdits)
    ensures
        count_backspaces(views(texts@)) >= HELD_DELETE_BACKSPACES ==> r is Clear,
        count_backspaces(views(texts@)) < HELD_DELETE_BACKSPACES ==> (r matches FieldEdits::Apply(edits) && edits@.len()
            == texts@.len() && forall|i: int| 0 <= i < texts@.len() ==> edit_model(#[trigger] edits@[i]) == edit_of(
            texts@[i]@,
        )),
{
    if backspace_count(texts) >= HELD_DELETE_BACKSPACES {
        return FieldEdits::Clear;
    }
    let mut edits: Vec<FieldEdit> = Vec::new();
    let mut i: usize = 0;
    while i < texts.len()
        invariant
            i <= texts@.len(),
            edits@.len() == i,
            forall|j: int| 0 <= j < i ==> edit_model(#[trigger] edits@[j]) == edit_of(texts@[j]@),
        decreases texts@.len() - i,
    {
        let e = edit_for(&texts[i]);
        edits.push(e);
        i = i + 1;
    }
    FieldEdits::Apply(edits)
}

// ── keyboard ─────────────────────────────────────────────────────────────────

/// The software keyboard layouts an application can request.
#[derive(Copy, Clone, Debug, PartialEq, Eq, Structural)]
pub enum KeyboardType {
    Default,
    EmailAddress,
    Phone,
    NumberPad,
    URL,
    Decimal,
}

/// The UIKit `UIKeyboardType` value of a keyboard layout.
pub open spec fn uikit_keyboard_code(k: KeyboardType) -> i64 {
    match k {
        KeyboardType::Default => 0,
        KeyboardType::EmailAddress => 7,
        KeyboardType::Phone => 5,
        KeyboardType::NumberPad => 4,
        KeyboardType::URL => 3,
        KeyboardType::Decimal => 8,
    }
}

impl KeyboardType {
    /// The UIKit `UIKeyboardType` value: default 0, URL 3, number pad 4,
    /// phone pad 5, e-mail 7, decimal pad 8.
    pub fn uikit_code(self) -> (r: i64)
        ensures
            r == uikit_keyboard_code(self),
    {
        match self {
            KeyboardType::Default => 0,
            KeyboardType::EmailAddress => 7,
            KeyboardType::Phone => 5,
            KeyboardType::NumberPad => 4,
            KeyboardType::URL => 3,
            KeyboardType::Decimal => 8,
        }
    }
}

/// Status-bar content styles: light content on dark backgrounds, or dark
/// content on light ones.
#[derive(Copy, Clone, Debug, PartialEq, Eq, Structural)]
pub enum StatusBarContentStyle {
    Light,
    Dark,
}

impl StatusBarContentStyle {
    /// The stored style value the view controller reports: 1 for light
    /// content, 0 for dark content.
    pub fn code(self) -> (r: i32)
        ensures
            self == StatusBarContentStyle::Light ==> r == 1,
            self == StatusBarContentStyle::Dark ==> r == 0,
    {
        match self {
            StatusBarContentStyle::Light => 1,
            StatusBarContentStyle::Dark => 0,
        }
    }
}

// ── time labels ──────────────────────────────────────────────────────────────

/// The character of a decimal digit.
pub open spec fn digit_char(d: nat) -> char {
    if d == 0 { '0' } else if d == 1 { '1' } else if d == 2 { '2' } else if d == 3 { '3' } else if d
        == 4 { '4' } else if d == 5 { '5' } else if d == 6 { '6' } else if d == 7 { '7' } else if d == 8 {
        '8'
    } else {
        '9'
    }
}

/// The decimal digits of `n`, most significant first, without leading zeros.
pub open spec fn decimal(n: nat) -> Seq<char>
    decreases n,
{
    if n < 10 {
        seq![digit_char(n)]
    } else {
        decimal(n / 10).push(digit_char(n % 10))
    }
}

/// A playback position as `minutes:seconds`, with whole minutes and the
/// seconds as two digits (milliseconds are truncated).
pub open spec fn time_label(ms: u64) -> Seq<char> {
    let total = ms as nat / 1000;
    let secs = total % 60;
    decimal(total / 60) + seq![':'] + seq![digit_char(secs / 10), digit_char(secs % 10)]
}

fn digit_text(d: u64) -> (r: &'static str)
    requires
        d < 10,
    ensures
        r@ == seq![digit_char(d as nat)],
{
    proof {
        broadcast use vstd::string::group_string_axioms;
        reveal_strlit("0");
        reveal_strlit("1");
        reveal_strlit("2");
        reveal_strlit("3");
        reveal_strlit("4");
        reveal_strlit("5");
        reveal_strlit("6");
        reveal_strlit("7");
        reveal_strlit("8");
        reveal_strlit("9");
    }
    let r = if d == 0 {
        "0"
    } else if d == 1 {
        "1"
    } else if d == 2 {
        "2"
    } else if d == 3 {
        "3"
    } else if d == 4 {
        "4"
    } else if d == 5 {
        "5"
    } else if d == 6 {
        "6"
    } else if d == 7 {
        "7"
    } else if d == 8 {
        "8"
    } else {
        "9"
    };
    assert(r@ =~= seq![digit_char(d as nat)]);
    r
}

fn append_decimal(out: &mut String, n: u64)
    ensures
        final(out)@ == old(out)@ + decimal(n as nat),
    decreases n,
{
    if n >= 10 {
        append_decimal(out, n / 10);
    }
    out.append(digit_text(n % 10));
    proof {
        if n >= 10 {
            assert(decimal(n as nat) == decimal((n / 10) as nat).push(digit_char((n % 10) as nat)));
        }
        assert(old(out)@ + decimal(n as nat) =~= final(out)@);
    }
}

/// Formats a playback position given in milliseconds as `m:ss`.
pub fn format_time(ms: u64) -> (r: String)
    ensures
        r@ == time_label(ms),
{
    let total = ms / 1000;
    let mins = total / 60;
    let secs = total % 60;
    let mut out = String::new();
    append_decimal(&mut out, mins);
    proof {
        broadcast use vstd::string::group_string_axioms;
        reveal_strlit(":");
    }
    out.append(":");
    out.append(digit_text(secs / 10));
    out.append(digit_text(secs % 10));
    assert(out@ =~= time_label(ms));
    out
}

} // verus!
