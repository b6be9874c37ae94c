//! A single-line text input whose caret is kept as a byte position.

use vstd::prelude::*;

use crate::text::{
    byte_offset, char_len_utf8, char_width, is_boundary, lemma_byte_offset_end,
    lemma_byte_offset_injective, lemma_byte_offset_le_len, lemma_byte_offset_step,
    lemma_byte_offset_strict, string_byte_len, string_insert, string_remove, utf8_len,
};

verus! {

/// What a text field holds, as a reader sees it: its characters and the
/// index of the character before which the caret stands.
pub struct FieldModel {
    pub text: Seq<char>,
    pub caret: int,
}

impl FieldModel {
    pub open spec fn valid(self) -> bool {
        0 <= self.caret <= self.text.len()
    }

    /// Typing `c`: it goes in before the caret, and the caret moves past it.
    pub open spec fn typed(self, c: char) -> FieldModel {
        FieldModel { text: self.text.insert(self.caret, c), caret: self.caret + 1 }
    }

    /// Backspace: the character before the caret goes; nothing happens at the
    /// start.
    pub open spec fn backspaced(self) -> FieldModel {
        if self.caret > 0 {
            FieldModel { text: self.text.remove(self.caret - 1), caret: self.caret - 1 }
        } else {
            self
        }
    }

    /// Delete: the character after the caret goes; nothing happens at the end.
    pub open spec fn deleted(self) -> FieldModel {
        if self.caret < self.text.len() {
            FieldModel { text: self.text.remove(self.caret), caret: self.caret }
        } else {
            self
        }
    }

    pub open spec fn moved_left(self) -> FieldModel {
        if self.caret > 0 {
            FieldModel { caret: self.caret - 1, ..self }
        } else {
            self
        }
    }

    pub open spec fn moved_right(self) -> FieldModel {
        if self.caret < self.text.len() {
            FieldModel { caret: self.caret + 1, ..self }
        } else {
            self
        }
    }

    pub open spec fn moved_home(self) -> FieldModel {
        FieldModel { caret: 0, ..self }
    }

    pub open spec fn moved_end(self) -> FieldModel {
        FieldModel { caret: self.text.len() as int, ..self }
    }
}

/// An editable line of text. `cursor` is a byte position into `value`.
#[derive(Clone, Debug, PartialEq, Eq)]
pub struct TextField {
    pub value: String,
    pub cursor: usize,
}

impl TextField {
    /// The caret lies on a character boundary of the text.
    pub open spec fn wf(&self) -> bool {
        is_boundary(self.value@, self.cursor as int)
    }

    /// Index of the character before which the caret stands.
    pub open spec fn caret(&self) -> int {
        choose|k: int| 0 <= k <= self.value@.len() && byte_offset(self.value@, k) == self.cursor
    }

    pub proof fn lemma_caret(&self, k: int)
        requires
            0 <= k <= self.value@.len(),
            byte_offset(self.value@, k) == self.cursor,
        ensures
            self.wf(),
            self.caret() == k,
    {
        assert(is_boundary(self.value@, self.cursor as int));
        let c = self.caret();
        lemma_byte_offset_injective(self.value@, c, k);
    }
}

impl View for TextField {
    type V = FieldModel;

    open spec fn view(&self) -> FieldModel {
        FieldModel { text: self.value@, caret: self.caret() }
    }
}

impl TextField {
    /// A field holding `value`, with the caret at its end.
    pub fn new(value: &str) -> (field: TextField)
        ensures
            field.wf(),
            field@ == (FieldModel { text: value@, caret: value@.len() as int }),
            field.cursor == utf8_len(value@),
    {
        let value = value.to_owned();
        let cursor = string_byte_len(&value);
        let field = TextField { value, cursor };
        proof {
            lemma_byte_offset_end(field.value@);
            field.lemma_caret(field.value@.len() as int);
        }
        field
    }

    /// Number of characters before the caret: the column it is drawn at.
    pub fn cursor_column(&self) -> (k: usize)
        requires
            self.wf(),
        ensures
            k == self.caret(),
    {
        let s = self.value.as_str();
        let n = s.unicode_len();
        let ghost target = self.caret();
        let mut k: usize = 0;
        let mut off: usize = 0;
        proof {
            assert(self.value@.take(0) =~= Seq::<char>::empty());
        }
        while off < self.cursor
            invariant
                self.wf(),
                target == self.caret(),
                0 <= target <= n,
                n == s@.len(),
                s@ == self.value@,
                byte_offset(s@, target) == self.cursor,
                k <= target,
                off == byte_offset(s@, k as int),
                off <= self.cursor,
            decreases self.cursor - off,
        {
            proof {
                assert(k < target);
                lemma_byte_offset_step(s@, k as int);
                if k + 1 < target {
                    lemma_byte_offset_strict(s@, k + 1, target);
                }
            }
            let c = s.get_char(k);
            off = off + char_len_utf8(c);
            k = k + 1;
        }
        proof {
            if k < target {
                lemma_byte_offset_strict(s@, k as int, target);
            }
        }
        k
    }

    /// Types `character` at the caret.
    pub fn insert(&mut self, character: char)
        requires
            old(self).wf(),
            utf8_len(old(self).value@) + char_width(character) <= isize::MAX,
        ensures
            final(self).wf(),
            final(self)@ == old(self)@.typed(character),
            final(self).cursor == old(self).cursor + char_width(character),
    {
        let ghost k = self.caret();
        let ghost s = self.value@;
        proof {
            lemma_byte_offset_le_len(s, k);
        }
        string_insert(&mut self.value, self.cursor, character);
        let ghost t = self.value@;
        proof {
            assert(t == s.insert(k, character));
            assert(t.take(k) =~= s.take(k));
            lemma_byte_offset_step(t, k);
        }
        self.cursor = self.cursor + char_len_utf8(character);
        proof {
            self.lemma_caret(k + 1);
        }
    }


    /// Erases the character before the caret.
    pub fn backspace(&mut self)
        requires
            old(self).wf(),
        ensures
            final(self).wf(),
            final(self)@ == old(self)@.backspaced(),
    {
        let k = self.cursor_column();
        if k > 0 {
            let ghost s = self.value@;
            let c = self.value.as_str().get_char(k - 1);
            let width = char_len_utf8(c);
            proof {
                lemma_byte_offset_step(s, k - 1);
            }
            let index = self.cursor - width;
            assert(byte_offset(s, k - 1) == index);
            string_remove(&mut self.value, index);
            proof {
                assert(self.value@.take(k - 1) =~= s.take(k - 1));
            }
            self.cursor = index;
            proof {
                self.lemma_caret(k - 1);
            }
        }
    }

    /// Erases the character after the caret.
    pub fn delete(&mut self)
        requires
            old(self).wf(),
        ensures
            final(self).wf(),
            final(self)@ == old(self)@.deleted(),
    {
        let ghost s = self.value@;
        let ghost k = self.caret();
        let len = string_byte_len(&self.value);
        proof {
            lemma_byte_offset_end(s);
            if k < s.len() {
                lemma_byte_offset_strict(s, k, s.len() as int);
            }
        }
        if self.cursor < len {
            string_remove(&mut self.value, self.cursor);
            proof {
                assert(self.value@.take(k) =~= s.take(k));
                self.lemma_caret(k);
            }
        }
    }

    /// Moves the caret one character to the left.
    pub fn move_left(&mut self)
        requires
            old(self).wf(),
        ensures
            final(self).wf(),
            final(self)@ == old(self)@.moved_left(),
            final(self).value == old(self).value,
    {
        let k = self.cursor_column();
        if k > 0 {
            let c = self.value.as_str().get_char(k - 1);
            proof {
                lemma_byte_offset_step(self.value@, k - 1);
            }
            self.cursor = self.cursor - char_len_utf8(c);
            proof {
                self.lemma_caret(k - 1);
            }
        }
    }

    /// Moves the caret one character to the right.
    pub fn move_right(&mut self)
        requires
            old(self).wf(),
        ensures
            final(self).wf(),
            final(self)@ == old(self)@.moved_right(),
            final(self).value == old(self).value,
    {
        let k = self.cursor_column();
        let n = self.value.as_str().unicode_len();
        if k < n {
            let c = self.value.as_str().get_char(k);
            proof {
                lemma_byte_offset_step(self.value@, k as int);
                lemma_byte_offset_le_len(self.value@, k + 1);
            }
            // The byte length fits in a `usize`, and the new caret lies within it.
            let len = string_byte_len(&self.value);
            assert(self.cursor + char_width(c) <= len);
            self.cursor = self.cursor + char_len_utf8(c);
            proof {
                self.lemma_caret(k + 1);
            }
        }
    }

    /// Puts the caret before the first character.
    pub fn move_home(&mut self)
        requires
            old(self).wf(),
        ensures
            final(self).wf(),
            final(self)@ == old(self)@.moved_home(),
            final(self).value == old(self).value,
            final(self).cursor == 0,
    {
        self.cursor = 0;
        proof {
            assert(self.value@.take(0) =~= Seq::<char>::empty());
            self.lemma_caret(0);
        }
    }

    /// Puts the caret after the last character.
    pub fn move_end(&mut self)
        requires
            old(self).wf(),
        ensures
            final(self).wf(),
            final(self)@ == old(self)@.moved_end(),
            final(self).value == old(self).value,
            final(self).cursor == utf8_len(old(self).value@),
    {
        self.cursor = string_byte_len(&self.value);
        proof {
            lemma_byte_offset_end(self.value@);
            self.lemma_caret(self.value@.len() as int);
        }
    }
}


/// Backspace right after typing a character takes the field back to what it
/// was.
pub proof fn law_backspace_undoes_typing(field: FieldModel, c: char)
    requires
        field.valid(),
    ensures
        field.typed(c).valid(),
        field.typed(c).backspaced() == field,
{
    assert(field.text.insert(field.caret, c).remove(field.caret) =~= field.text);
}

/// Typing a character, moving back over it and deleting it takes the field
/// back to what it was.
pub proof fn law_delete_undoes_typing(field: FieldModel, c: char)
    requires
        field.valid(),
    ensures
        field.typed(c).moved_left().deleted() == field,
{
    assert(field.text.insert(field.caret, c).remove(field.caret) =~= field.text);
}

/// Moving right then left, or left then right, comes back to the same place
/// when there was room to move.
pub proof fn law_caret_moves_are_inverse(field: FieldModel)
    requires
        field.valid(),
    ensures
        field.caret < field.text.len() ==> field.moved_right().moved_left() == field,
        field.caret > 0 ==> field.moved_left().moved_right() == field,
{
}

/// Every edit keeps the caret within the text.
pub proof fn law_edits_keep_caret_in_text(field: FieldModel, c: char)
    requires
        field.valid(),
    ensures
        field.typed(c).valid(),
        field.backspaced().valid(),
        field.deleted().valid(),
        field.moved_left().valid(),
        field.moved_right().valid(),
        field.moved_home().valid(),
        field.moved_end().valid(),
{
}

/// The caret of a well-formed field is within its text, so that its model is
/// valid.
pub proof fn law_field_model_valid(field: TextField)
    requires
        field.wf(),
    ensures
        field@.valid(),
{
}

} // verus!
