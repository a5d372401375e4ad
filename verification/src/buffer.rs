//! A text-editing buffer: a sequence of Unicode scalar values with a cursor
//! offset, edited at character boundaries.

use vstd::prelude::*;

verus! {

/// An editing buffer owned by a modal state: characters plus a cursor
/// offset in `[0, length]`.
#[derive(Debug)]
pub struct EditBuffer {
    pub chars: Vec<char>,
    pub cursor: usize,
}

/// The mathematical content of an [`EditBuffer`].
pub ghost struct BufView {
    pub text: Seq<char>,
    pub cursor: int,
}

impl View for EditBuffer {
    type V = BufView;

    open spec fn view(&self) -> BufView {
        BufView { text: self.chars@, cursor: self.cursor as int }
    }
}

/// A buffer is well formed when its cursor lies on a character boundary of
/// its text: between 0 and the length, inclusive.
pub open spec fn buf_wf(b: BufView) -> bool {
    0 <= b.cursor <= b.text.len()
}

/// Insertion splices the character at the cursor and moves the cursor past
/// it.
pub open spec fn buf_insert(b: BufView, c: char) -> BufView {
    BufView { text: b.text.insert(b.cursor, c), cursor: b.cursor + 1 }
}

/// Backward deletion removes the character before the cursor, when there is
/// one, and moves the cursor back onto its place.
pub open spec fn buf_delete_backward(b: BufView) -> BufView {
    if b.cursor > 0 {
        BufView { text: b.text.remove(b.cursor - 1), cursor: b.cursor - 1 }
    } else {
        b
    }
}

/// The cursor moved one place left, clamped at the start.
pub open spec fn buf_cursor_left(b: BufView) -> BufView {
    if b.cursor > 0 {
        BufView { text: b.text, cursor: b.cursor - 1 }
    } else {
        b
    }
}

/// The cursor moved one place right, clamped at the end.
pub open spec fn buf_cursor_right(b: BufView) -> BufView {
    if b.cursor < b.text.len() {
        BufView { text: b.text, cursor: b.cursor + 1 }
    } else {
        b
    }
}

impl EditBuffer {
    /// An empty buffer with the cursor at offset 0.
    pub fn new() -> (r: EditBuffer)
        ensures
            r@.text == Seq::<char>::empty(),
            r@.cursor == 0,
            buf_wf(r@),
    {
        EditBuffer { chars: Vec::new(), cursor: 0 }
    }

    /// A buffer holding the given characters with the cursor at the end.
    pub fn with_cursor_at_end(chars: Vec<char>) -> (r: EditBuffer)
        ensures
            r@.text == chars@,
            r@.cursor == chars@.len(),
            buf_wf(r@),
    {
        let cursor = chars.len();
        EditBuffer { chars, cursor }
    }

    /// A buffer holding the given characters with the cursor at the start.
    pub fn with_cursor_at_start(chars: Vec<char>) -> (r: EditBuffer)
        ensures
            r@.text == chars@,
            r@.cursor == 0,
            buf_wf(r@),
    {
        EditBuffer { chars, cursor: 0 }
    }

    /// Splices `c` in at the cursor and advances the cursor past it.
    pub fn insert_char(&mut self, c: char)
        requires
            buf_wf(old(self)@),
        ensures
            final(self)@ == buf_insert(old(self)@, c),
            buf_wf(final(self)@),
    {
        self.chars.insert(self.cursor, c);
        let _n: usize = self.chars.len();
        self.cursor = self.cursor + 1;
    }

    /// Removes the character before the cursor, if any, stepping the cursor
    /// back; at offset 0 this is a no-op.
    pub fn delete_backward(&mut self)
        requires
            buf_wf(old(self)@),
        ensures
            final(self)@ == buf_delete_backward(old(self)@),
            buf_wf(final(self)@),
    {
        if self.cursor > 0 {
            self.chars.remove(self.cursor - 1);
            self.cursor = self.cursor - 1;
        }
    }

    /// Moves the cursor one character left, clamped at the start.
    pub fn cursor_left(&mut self)
        requires
            buf_wf(old(self)@),
        ensures
            final(self)@ == buf_cursor_left(old(self)@),
            buf_wf(final(self)@),
    {
        if self.cursor > 0 {
            self.cursor = self.cursor - 1;
        }
    }

    /// Moves the cursor one character right, clamped at the end.
    pub fn cursor_right(&mut self)
        requires
            buf_wf(old(self)@),
        ensures
            final(self)@ == buf_cursor_right(old(self)@),
            buf_wf(final(self)@),
    {
        if self.cursor < self.chars.len() {
            self.cursor = self.cursor + 1;
        }
    }
}

} // verus!
