//! The line of text that the user is typing, with its cursor and the window
//! through which it is shown.

use vstd::prelude::*;

verus! {

/// The mathematical content of an input line.
pub struct InputModel {
    /// The characters typed so far.
    pub text: Seq<char>,
    /// The cursor: the number of characters before it.
    pub cursor: nat,
    /// The index of the first character shown.
    pub scroll: nat,
    /// The number of characters that the window shows.
    pub width: nat,
}

impl InputModel {
    /// The empty line in a window of `width` characters.
    pub open spec fn empty(width: nat) -> InputModel {
        InputModel { text: Seq::empty(), cursor: 0, scroll: 0, width }
    }

    /// The cursor is inside the window; a window of no width only asks that
    /// its start is not behind the cursor.
    pub open spec fn cursor_visible(self) -> bool {
        &&& self.scroll <= self.cursor
        &&& self.width > 0 ==> self.cursor < self.scroll + self.width
    }

    /// The cursor is inside the text or at its end, and inside the window.
    pub open spec fn wf(self) -> bool {
        self.cursor <= self.text.len() && self.cursor_visible()
    }

    /// The window follows the cursor: back to the cursor if the cursor is
    /// left of the window, forward by as little as shows the cursor if it is
    /// right of it.
    pub open spec fn track(self) -> InputModel {
        if self.cursor < self.scroll {
            InputModel { scroll: self.cursor, ..self }
        } else if self.width > 0 && self.cursor >= self.scroll + self.width {
            InputModel { scroll: (self.cursor + 1 - self.width) as nat, ..self }
        } else {
            self
        }
    }

    /// `c` is put in at the cursor, the cursor moves behind it, and the
    /// window follows. A line of `usize::MAX` characters takes no more.
    pub open spec fn insert(self, c: char) -> InputModel {
        if self.text.len() < usize::MAX {
            InputModel {
                text: self.text.insert(self.cursor as int, c),
                cursor: self.cursor + 1,
                ..self
            }.track()
        } else {
            self
        }
    }

    /// The character before the cursor is removed and the window follows the
    /// cursor; at the start of the line nothing changes.
    pub open spec fn backspace(self) -> InputModel {
        if self.cursor > 0 {
            InputModel {
                text: self.text.remove(self.cursor - 1),
                cursor: (self.cursor - 1) as nat,
                ..self
            }.track()
        } else {
            self
        }
    }

    /// The character at the cursor is removed; at the end of the line
    /// nothing changes.
    pub open spec fn delete(self) -> InputModel {
        if self.cursor < self.text.len() {
            InputModel { text: self.text.remove(self.cursor as int), ..self }
        } else {
            self
        }
    }

    /// The cursor moves one character to the left and the window follows;
    /// at the start of the line nothing changes.
    pub open spec fn left(self) -> InputModel {
        if self.cursor > 0 {
            InputModel { cursor: (self.cursor - 1) as nat, ..self }.track()
        } else {
            self
        }
    }

    /// The cursor moves one character to the right and the window follows;
    /// at the end of the line nothing changes.
    pub open spec fn right(self) -> InputModel {
        if self.cursor < self.text.len() {
            InputModel { cursor: self.cursor + 1, ..self }.track()
        } else {
            self
        }
    }

    /// The window gets the width `width` and follows the cursor.
    pub open spec fn resized(self, width: nat) -> InputModel {
        InputModel { width, ..self }.track()
    }
}

/// Each step keeps the cursor inside the text and inside the window, and the
/// width of the window changes only when it is resized.
pub proof fn lemma_editing_keeps_cursor_in_view(line: InputModel, c: char, width: nat)
    requires
        line.wf(),
    ensures
        line.insert(c).wf() && line.insert(c).width == line.width,
        line.backspace().wf() && line.backspace().width == line.width,
        line.delete().wf() && line.delete().width == line.width,
        line.left().wf() && line.left().width == line.width,
        line.right().wf() && line.right().width == line.width,
        line.resized(width).wf() && line.resized(width).width == width,
        InputModel::empty(width).wf(),
{
}

/// `String::push` of std: the character is appended to the string.
pub assume_specification[ String::push ](s: &mut String, ch: char)
    ensures
        final(s)@ == old(s)@.push(ch),
;

/// The string of the characters `chars`.
pub fn string_of(chars: &Vec<char>) -> (text: String)
    ensures
        text@ == chars@,
{
    let mut text: String = String::new();
    let mut i: usize = 0;
    while i < chars.len()
        invariant
            i <= chars.len(),
            text@ == chars@.subrange(0, i as int),
        decreases chars.len() - i,
    {
        text.push(chars[i]);
        i += 1;
        assert(chars@.subrange(0, i as int) =~= chars@.subrange(0, i - 1).push(chars@[i - 1]));
    }
    assert(chars@.subrange(0, i as int) =~= chars@);
    text
}

/// Where the cursor is and what the window shows.
#[derive(Clone, Copy, Debug)]
struct Caret {
    cursor: usize,
    scroll: usize,
    width: usize,
}

/// The start of a window of `width` characters that starts at `scroll` after
/// it has followed the cursor to `cursor`.
fn follow(cursor: usize, scroll: usize, width: usize) -> (start: usize)
    ensures
        start == (InputModel {
            text: Seq::empty(),
            cursor: cursor as nat,
            scroll: scroll as nat,
            width: width as nat,
        }).track().scroll,
{
    if cursor < scroll {
        cursor
    } else if width > 0 && cursor - scroll >= width {
        cursor - (width - 1)
    } else {
        scroll
    }
}

/// The line of text that the user is typing.
#[derive(Debug)]
pub struct InputLine {
    chars: Vec<char>,
    caret: Caret,
}

impl View for InputLine {
    type V = InputModel;

    closed spec fn view(&self) -> InputModel {
        InputModel {
            text: self.chars@,
            cursor: self.caret.cursor as nat,
            scroll: self.caret.scroll as nat,
            width: self.caret.width as nat,
        }
    }
}

impl InputLine {
    /// What holds of every input line: the cursor is inside the text and
    /// inside the window.
    #[verifier::type_invariant]
    pub open spec fn wf(&self) -> bool {
        self@.wf()
    }

    /// An empty line in a window of no width.
    pub fn new() -> (line: InputLine)
        ensures
            line@ == InputModel::empty(0),
            line@.wf(),
    {
        InputLine { chars: Vec::new(), caret: Caret { cursor: 0, scroll: 0, width: 0 } }
    }

    /// The text typed so far.
    pub fn text(&self) -> (text: String)
        ensures
            text@ == self@.text,
    {
        string_of(&self.chars)
    }

    /// The number of characters typed so far.
    pub fn len(&self) -> (len: usize)
        ensures
            len == self@.text.len(),
    {
        self.chars.len()
    }

    /// Whether nothing has been typed.
    pub fn is_empty(&self) -> (empty: bool)
        ensures
            empty == (self@.text.len() == 0),
    {
        self.chars.len() == 0
    }

    /// The number of characters before the cursor.
    pub fn cursor(&self) -> (cursor: usize)
        ensures
            cursor == self@.cursor,
            self@.wf(),
    {
        proof {
            use_type_invariant(self);
        }
        self.caret.cursor
    }

    /// The index of the first character shown.
    pub fn scroll(&self) -> (scroll: usize)
        ensures
            scroll == self@.scroll,
            scroll <= self@.cursor,
    {
        proof {
            use_type_invariant(self);
        }
        self.caret.scroll
    }

    /// The number of characters that the window shows.
    pub fn width(&self) -> (width: usize)
        ensures
            width == self@.width,
    {
        self.caret.width
    }

    /// Takes the characters and the caret out of the line, which is left
    /// empty.
    fn take_parts(&mut self) -> (parts: (Vec<char>, Caret))
        ensures
            parts.0@ == old(self)@.text,
            parts.1.cursor == old(self)@.cursor,
            parts.1.scroll == old(self)@.scroll,
            parts.1.width == old(self)@.width,
            old(self)@.wf(),
    {
        proof {
            use_type_invariant(&*self);
        }
        let mut taken = InputLine::new();
        std::mem::swap(self, &mut taken);
        let InputLine { chars, caret } = taken;
        (chars, caret)
    }

    /// Puts `c` in at the cursor and moves the cursor behind it.
    pub fn insert(&mut self, c: char)
        ensures
            final(self)@ == old(self)@.insert(c),
            final(self)@.wf(),
    {
        let (mut chars, caret) = self.take_parts();
        if chars.len() < usize::MAX {
            chars.insert(caret.cursor, c);
            let moved = Caret {
                cursor: caret.cursor + 1,
                scroll: follow(caret.cursor + 1, caret.scroll, caret.width),
                width: caret.width,
            };
            *self = InputLine { chars, caret: moved };
        } else {
            *self = InputLine { chars, caret };
        }
    }

    /// Removes the character before the cursor, if there is one.
    pub fn backspace(&mut self)
        ensures
            final(self)@ == old(self)@.backspace(),
            final(self)@.wf(),
    {
        let (mut chars, caret) = self.take_parts();
        if caret.cursor > 0 {
            chars.remove(caret.cursor - 1);
            let moved = Caret {
                cursor: caret.cursor - 1,
                scroll: follow(caret.cursor - 1, caret.scroll, caret.width),
                width: caret.width,
            };
            *self = InputLine { chars, caret: moved };
        } else {
            *self = InputLine { chars, caret };
        }
    }

    /// Removes the character at the cursor, if there is one.
    pub fn delete(&mut self)
        ensures
            final(self)@ == old(self)@.delete(),
            final(self)@.wf(),
    {
        let (mut chars, caret) = self.take_parts();
        if caret.cursor < chars.len() {
            chars.remove(caret.cursor);
        }
        *self = InputLine { chars, caret };
    }

    /// Moves the cursor one character to the left, unless it is at the start.
    pub fn left(&mut self)
        ensures
            final(self)@ == old(self)@.left(),
            final(self)@.wf(),
    {
        proof {
            use_type_invariant(&*self);
        }
        let caret: Caret = self.caret;
        if caret.cursor > 0 {
            self.caret = Caret {
                cursor: caret.cursor - 1,
                scroll: follow(caret.cursor - 1, caret.scroll, caret.width),
                width: caret.width,
            };
        }
    }

    /// Moves the cursor one character to the right, unless it is at the end.
    pub fn right(&mut self)
        ensures
            final(self)@ == old(self)@.right(),
            final(self)@.wf(),
    {
        proof {
            use_type_invariant(&*self);
        }
        let caret: Caret = self.caret;
        if caret.cursor < self.chars.len() {
            self.caret = Caret {
                cursor: caret.cursor + 1,
                scroll: follow(caret.cursor + 1, caret.scroll, caret.width),
                width: caret.width,
            };
        }
    }

    /// Gives the window the width `width` and lets it follow the cursor.
    pub fn set_width(&mut self, width: usize)
        ensures
            final(self)@ == old(self)@.resized(width as nat),
            final(self)@.wf(),
    {
        proof {
            use_type_invariant(&*self);
        }
        let caret: Caret = self.caret;
        self.caret = Caret {
            cursor: caret.cursor,
            scroll: follow(caret.cursor, caret.scroll, width),
            width,
        };
    }

    /// Hands out the text typed so far and leaves the line empty, with the
    /// cursor and the start of the window at its start.
    pub fn take(&mut self) -> (text: String)
        ensures
            text@ == old(self)@.text,
            final(self)@ == InputModel::empty(old(self)@.width),
            final(self)@.wf(),
    {
        let (chars, caret) = self.take_parts();
        *self = InputLine { chars: Vec::new(), caret: Caret { cursor: 0, scroll: 0, width: caret.width } };
        string_of(&chars)
    }
}

} // verus!
