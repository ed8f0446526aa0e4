//! The line buffer: the command text being typed and the cursor in it.
//!
//! The text is kept as a UTF-8 `String`; the cursor counts characters. A cache
//! of the byte position of every character, rebuilt after each edit, turns a
//! character index into a byte position in constant time.

use crate::text::{
    byte_len, byte_offset, char_offsets, is_offsets_of, lemma_byte_offset_is_boundary,
    lemma_byte_offsets_ordered, lemma_split_at_byte_offset, string_insert, string_remove,
};
use vstd::prelude::*;

verus! {

/// What a line buffer holds: the characters typed so far and the cursor, an
/// index between characters.
#[verifier::ext_equal]
pub struct LineModel {
    pub text: Seq<char>,
    pub cursor: nat,
}

/// One edit of a line.
pub enum EditOp {
    Insert(char),
    Delete,
    Backspace,
    MoveBy(int),
    Clear,
}

impl LineModel {
    /// The cursor lies on a character of the text or just behind the last one.
    pub open spec fn wf(self) -> bool {
        self.cursor <= self.text.len()
    }

    /// The empty line.
    pub open spec fn empty() -> LineModel {
        LineModel { text: Seq::empty(), cursor: 0 }
    }

    /// `ch` typed at the cursor: it goes in before the character under the
    /// cursor, and the cursor moves behind it.
    pub open spec fn insert(self, ch: char) -> LineModel {
        LineModel { text: self.text.insert(self.cursor as int, ch), cursor: self.cursor + 1 }
    }

    /// The character under the cursor removed; nothing happens at the end of
    /// the text.
    pub open spec fn delete(self) -> LineModel {
        if self.cursor < self.text.len() {
            LineModel { text: self.text.remove(self.cursor as int), cursor: self.cursor }
        } else {
            self
        }
    }

    /// The character before the cursor removed, the cursor one to the left;
    /// nothing happens at the start of the text.
    pub open spec fn backspace(self) -> LineModel {
        if self.cursor > 0 {
            LineModel {
                text: self.text.remove(self.cursor - 1),
                cursor: (self.cursor - 1) as nat,
            }
        } else {
            self
        }
    }

    /// The cursor moved by `offset` characters, to the left where `offset` is
    /// negative, and stopped at the start and at the end of the text.
    pub open spec fn move_by(self, offset: int) -> LineModel {
        let target = self.cursor + offset;
        LineModel {
            text: self.text,
            cursor: if target < 0 {
                0
            } else if target > self.text.len() {
                self.text.len()
            } else {
                target as nat
            },
        }
    }

    /// The line after one edit.
    pub open spec fn apply(self, op: EditOp) -> LineModel {
        match op {
            EditOp::Insert(ch) => self.insert(ch),
            EditOp::Delete => self.delete(),
            EditOp::Backspace => self.backspace(),
            EditOp::MoveBy(offset) => self.move_by(offset),
            EditOp::Clear => LineModel::empty(),
        }
    }

    /// The line after a run of edits, the first of `ops` first.
    pub open spec fn apply_all(self, ops: Seq<EditOp>) -> LineModel
        decreases ops.len(),
    {
        if ops.len() == 0 {
            self
        } else {
            self.apply_all(ops.drop_last()).apply(ops.last())
        }
    }

    /// No edit takes the cursor out of the text.
    pub proof fn lemma_apply_keeps_cursor_in_text(self, op: EditOp)
        requires
            self.wf(),
        ensures
            self.apply(op).wf(),
    {
    }

    /// Through any run of inserts, deletes, backspaces, moves and clears the
    /// cursor stays between 0 and the number of characters, after every step.
    pub proof fn lemma_cursor_stays_in_text(self, ops: Seq<EditOp>)
        requires
            self.wf(),
        ensures
            forall|n: int| 0 <= n <= ops.len() ==> (#[trigger] self.apply_all(ops.take(n))).wf(),
        decreases ops.len(),
    {
        assert forall|n: int| 0 <= n <= ops.len() implies (#[trigger] self.apply_all(
            ops.take(n),
        )).wf() by {
            if n == ops.len() {
                assert(ops.take(n) =~= ops);
                if ops.len() > 0 {
                    self.lemma_cursor_stays_in_text(ops.drop_last());
                    assert(ops.drop_last().take(n - 1) =~= ops.drop_last());
                    self.apply_all(ops.drop_last()).lemma_apply_keeps_cursor_in_text(ops.last());
                }
            } else {
                self.lemma_cursor_stays_in_text(ops.drop_last());
                assert(ops.drop_last().take(n) =~= ops.take(n));
            }
        }
    }

    /// A character typed at the cursor and then removed with backspace leaves
    /// the line as it was, text and cursor.
    pub proof fn lemma_insert_then_backspace(self, ch: char)
        requires
            self.wf(),
        ensures
            self.insert(ch).backspace() == self,
    {
        assert(self.insert(ch).backspace().text =~= self.text);
    }

    /// A move that would pass the start of the text ends exactly at the start,
    /// one that would pass the end ends exactly at the end, and from there a
    /// further move the same way changes nothing.
    pub proof fn lemma_move_by_stops_at_the_ends(self, offset: int, further: int)
        requires
            self.wf(),
        ensures
            self.move_by(offset).wf(),
            self.cursor + offset <= 0 ==> self.move_by(offset).cursor == 0,
            self.cursor + offset >= self.text.len() ==> self.move_by(offset).cursor
                == self.text.len(),
            self.cursor + offset <= 0 && further <= 0 ==> self.move_by(offset).move_by(further)
                == self.move_by(offset),
            self.cursor + offset >= self.text.len() && further >= 0 ==> self.move_by(
                offset,
            ).move_by(further) == self.move_by(offset),
    {
    }
}

/// The line buffer.
#[derive(Clone, Debug)]
pub struct UserInput {
    input: String,
    offsets: Vec<usize>,
    cursor: usize,
}

impl View for UserInput {
    type V = LineModel;

    closed spec fn view(&self) -> LineModel {
        LineModel { text: self.input@, cursor: self.cursor as nat }
    }
}

impl UserInput {
    /// The cached byte position of every character of the text.
    pub closed spec fn offset_cache(&self) -> Seq<usize> {
        self.offsets@
    }

    /// The buffer is consistent: the cursor lies in the text, and the cache
    /// holds one entry for each character, the byte position at which that
    /// character starts.
    pub open spec fn wf(&self) -> bool {
        &&& self@.wf()
        &&& self.offset_cache().len() == self@.text.len()
        &&& is_offsets_of(self.offset_cache(), self@.text)
    }

    /// An empty buffer.
    pub fn new() -> (buffer: Self)
        ensures
            buffer.wf(),
            buffer@ == LineModel::empty(),
    {
        Self { input: String::new(), offsets: Vec::new(), cursor: 0 }
    }

    /// The text.
    pub fn as_str(&self) -> (text: &str)
        ensures
            text@ == self@.text,
    {
        self.input.as_str()
    }

    /// The cursor, as a number of characters from the start of the text.
    pub fn cursor(&self) -> (cursor: usize)
        ensures
            cursor == self@.cursor,
    {
        self.cursor
    }

    /// The number of characters.
    pub fn len(&self) -> (len: usize)
        requires
            self.wf(),
        ensures
            len == self@.text.len(),
    {
        self.offsets.len()
    }

    /// Whether the text is empty.
    pub fn is_empty(&self) -> (empty: bool)
        requires
            self.wf(),
        ensures
            empty == (self@.text.len() == 0),
    {
        self.offsets.len() == 0
    }

    /// The byte position of the cursor in the text.
    fn byte_index(&self) -> (at: usize)
        requires
            self.wf(),
        ensures
            at == byte_offset(self@.text, self@.cursor as int),
    {
        if self.cursor == self.offsets.len() {
            proof {
                lemma_byte_offsets_ordered(self.input@);
            }
            byte_len(&self.input)
        } else {
            self.offsets[self.cursor]
        }
    }

    /// Puts `ch` into the text at the cursor and moves the cursor behind it.
    pub fn insert(&mut self, ch: char)
        requires
            old(self).wf(),
        ensures
            final(self).wf(),
            final(self)@ == old(self)@.insert(ch),
            final(self).offset_cache().len() == final(self)@.text.len(),
    {
        let at = self.byte_index();
        proof {
            lemma_byte_offset_is_boundary(self.input@, self.cursor as int);
            lemma_split_at_byte_offset(self.input@, self.cursor as int);
        }
        string_insert(&mut self.input, at, ch);
        assert(self.input@ =~= old(self)@.text.insert(self.cursor as int, ch));
        self.offsets = char_offsets(&self.input);
        // The cache holds an entry for `ch` too, so the cursor has room to move.
        let len = self.offsets.len();
        assert(self.cursor < len);
        self.cursor = self.cursor + 1;
    }

    /// Removes the character under the cursor. At the end of the text there is
    /// none, and nothing happens.
    pub fn delete(&mut self)
        requires
            old(self).wf(),
        ensures
            final(self).wf(),
            final(self)@ == old(self)@.delete(),
            final(self).offset_cache().len() == final(self)@.text.len(),
    {
        if self.cursor < self.offsets.len() {
            self.remove_at_cursor();
        }
    }

    /// Removes the character before the cursor and moves the cursor onto its
    /// place. At the start of the text there is none, and nothing happens.
    pub fn backspace(&mut self)
        requires
            old(self).wf(),
        ensures
            final(self).wf(),
            final(self)@ == old(self)@.backspace(),
            final(self).offset_cache().len() == final(self)@.text.len(),
    {
        if self.cursor > 0 {
            self.cursor = self.cursor - 1;
            self.remove_at_cursor();
        }
    }

    /// Takes the character under the cursor out of the text.
    fn remove_at_cursor(&mut self)
        requires
            old(self).wf(),
            old(self)@.cursor < old(self)@.text.len(),
        ensures
            final(self).wf(),
            final(self)@.cursor == old(self)@.cursor,
            final(self)@.text == old(self)@.text.remove(old(self)@.cursor as int),
    {
        let at = self.byte_index();
        proof {
            lemma_byte_offset_is_boundary(self.input@, self.cursor as int);
            lemma_split_at_byte_offset(self.input@, self.cursor as int);
            lemma_byte_offsets_ordered(self.input@);
        }
        let _ = string_remove(&mut self.input, at);
        assert(self.input@ =~= old(self)@.text.remove(self.cursor as int));
        self.offsets = char_offsets(&self.input);
    }

    /// Moves the cursor by `offset` characters: to the left where `offset` is
    /// negative, to the right where it is positive, and no further than the
    /// start and the end of the text.
    pub fn move_by(&mut self, offset: isize)
        requires
            old(self).wf(),
        ensures
            final(self).wf(),
            final(self)@ == old(self)@.move_by(offset as int),
            final(self).offset_cache() == old(self).offset_cache(),
            final(self).offset_cache().len() == final(self)@.text.len(),
    {
        let len = self.offsets.len();
        if offset < 0 {
            let back_less_one = (-(offset + 1)) as usize;
            if back_less_one >= self.cursor {
                self.cursor = 0;
            } else {
                self.cursor = self.cursor - back_less_one - 1;
            }
        } else {
            let ahead = offset as usize;
            if ahead >= len - self.cursor {
                self.cursor = len;
            } else {
                self.cursor = self.cursor + ahead;
            }
        }
    }

    /// Empties the buffer and puts the cursor at its start.
    pub fn clear(&mut self)
        ensures
            final(self).wf(),
            final(self)@ == LineModel::empty(),
            final(self).offset_cache().len() == 0,
    {
        self.input = String::new();
        self.offsets.clear();
        self.cursor = 0;
    }
}

} // verus!
