//! A one-line text field.

use vstd::prelude::*;
use vstd::string::*;

use crate::input::{KeyCode, KeyEvent};
use crate::text;

verus! {

/// A line of text and the caret in it.
#[derive(Debug, PartialEq, Eq)]
pub struct TextInput {
    text: String,
    /// How many characters stand before the caret.
    cursor: usize,
}

pub struct TextInputView {
    pub text: Seq<char>,
    pub cursor: int,
}

impl View for TextInput {
    type V = TextInputView;

    closed spec fn view(&self) -> TextInputView {
        TextInputView { text: self.text@, cursor: self.cursor as int }
    }
}

/// The characters of a paste that a one-line field takes: all but the line
/// breaks.
pub open spec fn on_one_line(pasted: Seq<char>) -> Seq<char>
    decreases pasted.len(),
{
    if pasted.len() == 0 {
        seq![]
    } else if pasted.last() == '\n' || pasted.last() == '\r' {
        on_one_line(pasted.drop_last())
    } else {
        on_one_line(pasted.drop_last()).push(pasted.last())
    }
}

impl TextInputView {
    /// The caret stands in the text, or at its end.
    pub open spec fn holds(self) -> bool {
        0 <= self.cursor <= self.text.len()
    }

    /// There is anything in it.
    pub open spec fn has_text(self) -> bool {
        self.text.len() > 0
    }

    pub open spec fn empty() -> TextInputView {
        TextInputView { text: seq![], cursor: 0 }
    }

    /// With this written at the caret, which stands after it.
    pub open spec fn with(self, written: Seq<char>) -> TextInputView {
        TextInputView {
            text: self.text.take(self.cursor) + written + self.text.skip(self.cursor),
            cursor: self.cursor + written.len(),
        }
    }

    /// Without the character at this place.
    pub open spec fn without(self, place: int) -> TextInputView {
        TextInputView { text: self.text.remove(place), cursor: place }
    }

    /// What a key makes of it: a character is written at the caret, and with
    /// Ctrl held only `u` does anything, which is to empty the field.
    pub open spec fn after_key(self, key: KeyEvent) -> TextInputView {
        match key.code {
            KeyCode::Char(c) => if !key.control {
                self.with(seq![c])
            } else if c == 'u' {
                TextInputView::empty()
            } else {
                self
            },
            KeyCode::Backspace => if self.cursor > 0 {
                self.without(self.cursor - 1)
            } else {
                self
            },
            KeyCode::Delete => if self.cursor < self.text.len() {
                self.without(self.cursor)
            } else {
                self
            },
            KeyCode::Left => if self.cursor > 0 {
                TextInputView { cursor: self.cursor - 1, ..self }
            } else {
                self
            },
            KeyCode::Right => if self.cursor < self.text.len() {
                TextInputView { cursor: self.cursor + 1, ..self }
            } else {
                self
            },
            KeyCode::Home => TextInputView { cursor: 0, ..self },
            KeyCode::End => TextInputView { cursor: self.text.len() as int, ..self },
            _ => self,
        }
    }
}

impl Clone for TextInput {
    fn clone(&self) -> (copy: Self)
        ensures
            copy@ == self@,
    {
        proof {
            use_type_invariant(self);
        }
        TextInput { text: self.text.clone(), cursor: self.cursor }
    }
}

impl Default for TextInput {
    fn default() -> (input: Self)
        ensures
            input@ == TextInputView::empty(),
    {
        TextInput { text: String::new(), cursor: 0 }
    }
}

impl TextInput {
    #[verifier::type_invariant]
    spec fn always_holds(self) -> bool {
        self@.holds()
    }

    /// A field that holds this, with the caret at its end.
    pub fn new(held: &str) -> (input: Self)
        ensures
            input@ == (TextInputView { text: held@, cursor: held@.len() as int }),
    {
        let cursor = text::chars_of(held).len();
        TextInput { text: held.to_owned(), cursor }
    }

    pub fn text(&self) -> (held: &str)
        ensures
            held@ == self@.text,
    {
        self.text.as_str()
    }

    /// How many characters stand before the caret.
    pub fn cursor(&self) -> (cursor: usize)
        ensures
            cursor == self@.cursor,
            self@.holds(),
    {
        proof {
            use_type_invariant(self);
        }
        self.cursor
    }

    pub fn is_empty(&self) -> (answer: bool)
        ensures
            answer == !self@.has_text(),
    {
        self.text.as_str().is_empty()
    }

    /// Replaces what it holds, with the caret at the end.
    pub fn set_text(&mut self, held: &str)
        ensures
            final(self)@ == (TextInputView { text: held@, cursor: held@.len() as int }),
    {
        *self = TextInput::new(held);
    }

    /// Empties it.
    pub fn clear(&mut self)
        ensures
            final(self)@ == TextInputView::empty(),
    {
        *self = TextInput::default();
    }

    /// Writes these characters at the caret.
    fn write(&mut self, written: &Vec<char>)
        ensures
            final(self)@ == old(self)@.with(written@),
    {
        proof {
            use_type_invariant(&*self);
        }
        let held = text::chars_of(self.text.as_str());
        let mut whole = text::text_of(&held, 0, self.cursor);
        let mut at: usize = 0;
        let ghost front = self@.text.take(self@.cursor);
        assert(whole@ =~= front + written@.take(0));
        while at < written.len()
            invariant
                at <= written@.len(),
                whole@ == front + written@.take(at as int),
            decreases written@.len() - at,
        {
            whole.push(written[at]);
            assert(front + written@.take(at as int + 1) =~= (front + written@.take(
                at as int,
            )).push(written@[at as int]));
            at += 1;
        }
        assert(written@.take(at as int) =~= written@);
        let cursor = text::chars_of(whole.as_str()).len();
        let rest = text::text_of(&held, self.cursor, held.len());
        let whole = whole.concat(rest.as_str());
        assert(self@.text.subrange(self@.cursor, self@.text.len() as int) =~= self@.text.skip(
            self@.cursor,
        ));
        *self = TextInput { text: whole, cursor };
    }

    /// Takes one character out, and puts the caret where it stood.
    fn remove(&mut self, place: usize)
        requires
            place < old(self)@.text.len(),
        ensures
            final(self)@ == old(self)@.without(place as int),
    {
        let held = text::chars_of(self.text.as_str());
        let len = held.len();
        let front = text::text_of(&held, 0, place);
        let rest = text::text_of(&held, place + 1, len);
        let whole = front.concat(rest.as_str());
        assert(whole@ =~= self@.text.remove(place as int));
        *self = TextInput { text: whole, cursor: place };
    }

    /// One key. A character is written at the caret; `Ctrl-U` empties the
    /// field.
    pub fn handle_key(&mut self, key: KeyEvent)
        ensures
            final(self)@ == old(self)@.after_key(key),
    {
        proof {
            use_type_invariant(&*self);
        }
        let len = text::chars_of(self.text.as_str()).len();
        match key.code {
            KeyCode::Char(c) => if !key.control {
                let mut written: Vec<char> = Vec::new();
                written.push(c);
                assert(written@ =~= seq![c]);
                self.write(&written);
            } else if c == 'u' {
                self.clear();
            },
            KeyCode::Backspace => if self.cursor > 0 {
                self.remove(self.cursor - 1);
            },
            KeyCode::Delete => if self.cursor < len {
                self.remove(self.cursor);
            },
            KeyCode::Left => if self.cursor > 0 {
                self.cursor = self.cursor - 1;
            },
            KeyCode::Right => if self.cursor < len {
                self.cursor = self.cursor + 1;
            },
            KeyCode::Home => {
                self.cursor = 0;
            },
            KeyCode::End => {
                self.cursor = len;
            },
            _ => {},
        }
    }

    /// A paste, which goes in whole but for its line breaks.
    pub fn paste(&mut self, pasted: &str)
        ensures
            final(self)@ == old(self)@.with(on_one_line(pasted@)),
    {
        let held = text::chars_of(pasted);
        let mut kept: Vec<char> = Vec::new();
        let mut at: usize = 0;
        while at < held.len()
            invariant
                at <= held@.len(),
                kept@ == on_one_line(held@.take(at as int)),
            decreases held@.len() - at,
        {
            assert(held@.take(at as int + 1).drop_last() =~= held@.take(at as int));
            let c = held[at];
            if c != '\n' && c != '\r' {
                kept.push(c);
            }
            at += 1;
        }
        assert(held@.take(at as int) =~= held@);
        self.write(&kept);
    }
}

/// Which part of a text a field shows, so many cells wide: the first
/// character on screen, and the cell the caret is in. The caret is always on
/// screen, and a text that fits is shown from its start.
pub fn field_window(cursor: usize, width: u16) -> (shown: (usize, u16))
    ensures
        shown.0 == if width > 0 && cursor >= width {
            cursor - width + 1
        } else if width == 0 {
            cursor as int
        } else {
            0
        },
        shown.0 + shown.1 == cursor,
        width > 0 ==> shown.1 < width,
{
    if width == 0 {
        (cursor, 0)
    } else if cursor >= width as usize {
        (cursor - (width as usize - 1), width - 1)
    } else {
        (0, cursor as u16)
    }
}

/// What was written last is what Backspace takes back.
pub proof fn law_backspace_takes_back_a_character(input: TextInputView, c: char)
    requires
        input.holds(),
    ensures
        input.after_key(KeyEvent { code: KeyCode::Char(c), control: false, press: true }).after_key(
            KeyEvent { code: KeyCode::Backspace, control: false, press: true },
        ) == input,
{
    let written = input.with(seq![c]);
    assert(written.without(written.cursor - 1).text =~= input.text);
}

/// A key of the keyboard.
pub open spec fn pressed(code: KeyCode, control: bool) -> KeyEvent {
    KeyEvent { code, control, press: true }
}

/// What is typed stands before the caret, behind what stood there, and what
/// stood behind the caret stays behind it.
pub proof fn law_what_is_typed_stands_at_the_caret(
    front: Seq<char>,
    back: Seq<char>,
    c: char,
    written: Seq<char>,
)
    ensures
        ({
            let input = TextInputView { text: front + back, cursor: front.len() as int };
            let typed = input.after_key(pressed(KeyCode::Char(c), false));
            &&& typed.text == front + seq![c] + back
            &&& typed.cursor == front.len() + 1
            &&& input.with(written).text == front + written + back
            &&& input.with(written).cursor == front.len() + written.len()
        }),
{
    let input = TextInputView { text: front + back, cursor: front.len() as int };
    assert(input.text.take(input.cursor) =~= front);
    assert(input.text.skip(input.cursor) =~= back);
}

/// Backspace takes the character before the caret and Delete the one behind
/// it; at the ends of the text there is none to take.
pub proof fn law_each_side_of_the_caret_is_taken_by_its_own_key(
    front: Seq<char>,
    back: Seq<char>,
    c: char,
    control: bool,
)
    ensures
        ({
            let behind = TextInputView { text: front + seq![c] + back, cursor: front.len() as int + 1 };
            let before = TextInputView { cursor: front.len() as int, ..behind };
            let without = TextInputView { text: front + back, cursor: front.len() as int };
            let first = TextInputView { cursor: 0, ..behind };
            let last = TextInputView { cursor: behind.text.len() as int, ..behind };
            &&& behind.after_key(pressed(KeyCode::Backspace, control)) == without
            &&& before.after_key(pressed(KeyCode::Delete, control)) == without
            &&& first.after_key(pressed(KeyCode::Backspace, control)) == first
            &&& last.after_key(pressed(KeyCode::Delete, control)) == last
        }),
{
    let whole = front + seq![c] + back;
    assert(whole.remove(front.len() as int) =~= front + back);
}

/// The arrows move the caret by one character and no further than the ends,
/// Home and End to the ends, and none of them changes the text.
pub proof fn law_the_caret_moves_and_the_text_stays(input: TextInputView, control: bool)
    requires
        input.holds(),
    ensures
        input.after_key(pressed(KeyCode::Left, control)).text == input.text,
        input.after_key(pressed(KeyCode::Right, control)).text == input.text,
        input.after_key(pressed(KeyCode::Home, control)) == (TextInputView {
            text: input.text,
            cursor: 0,
        }),
        input.after_key(pressed(KeyCode::End, control)) == (TextInputView {
            text: input.text,
            cursor: input.text.len() as int,
        }),
        input.cursor > 0 ==> input.after_key(pressed(KeyCode::Left, control)).cursor
            == input.cursor - 1,
        input.cursor == 0 ==> input.after_key(pressed(KeyCode::Left, control)).cursor == 0,
        input.cursor < input.text.len() ==> input.after_key(pressed(KeyCode::Right, control)).cursor
            == input.cursor + 1,
        input.cursor == input.text.len() ==> input.after_key(
            pressed(KeyCode::Right, control),
        ).cursor == input.cursor,
{
}

/// `Ctrl-U` empties the box, and no other key with Ctrl writes into it.
pub proof fn law_control_writes_nothing(input: TextInputView, c: char)
    ensures
        input.after_key(pressed(KeyCode::Char('u'), true)).text.len() == 0,
        input.after_key(pressed(KeyCode::Char('u'), true)).cursor == 0,
        c != 'u' ==> input.after_key(pressed(KeyCode::Char(c), true)) == input,
{
}

/// A paste loses the ends of its lines and nothing else.
pub proof fn law_a_paste_loses_only_its_line_ends(a: Seq<char>, b: Seq<char>, c: char)
    ensures
        on_one_line(a + b) == on_one_line(a) + on_one_line(b),
        c == '\n' || c == '\r' ==> on_one_line(seq![c]).len() == 0,
        c != '\n' && c != '\r' ==> on_one_line(seq![c]) == seq![c],
    decreases b.len(),
{
    let alone = seq![c];
    assert(alone.drop_last() =~= Seq::empty());
    assert(on_one_line(alone.drop_last()) =~= seq![]);
    if c != '\n' && c != '\r' {
        assert(on_one_line(alone) =~= seq![c]);
    }
    if b.len() == 0 {
        assert(a + b =~= a);
        assert(on_one_line(a) + on_one_line(b) =~= on_one_line(a));
    } else {
        law_a_paste_loses_only_its_line_ends(a, b.drop_last(), c);
        assert((a + b).drop_last() =~= a + b.drop_last());
        assert((a + b).last() == b.last());
        assert(on_one_line(a + b) =~= on_one_line(a) + on_one_line(b));
    }
}

/// A text put into the box has the caret behind it, and a box that was
/// cleared has neither.
pub proof fn law_a_text_put_in_has_the_caret_behind_it(
    input: &mut TextInput,
    held: &str,
    made: TextInput,
)
    ensures
        call_ensures(TextInput::new, (held,), made) ==> made@.text == held@ && made@.cursor
            == held@.len(),
        call_ensures(TextInput::set_text, (input, held), ()) ==> final(input)@.text == held@
            && final(input)@.cursor == held@.len(),
        call_ensures(TextInput::clear, (input,), ()) ==> final(input)@.text.len() == 0 && final(
            input
        )@.cursor == 0,
{
}

/// The caret is always in the field: the text is shown from its start as long
/// as the caret is in it, and else so that the caret is in the last cell.
pub proof fn law_the_caret_is_in_the_field(cursor: usize, width: u16, shown: (usize, u16))
    requires
        call_ensures(field_window, (cursor, width), shown),
        width > 0,
    ensures
        cursor < width ==> shown.0 == 0 && shown.1 == cursor,
        cursor >= width ==> shown.1 == width - 1 && shown.0 + width == cursor + 1,
{
}

} // verus!
