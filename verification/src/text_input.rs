//! Single-line text field with a character cursor.
use vstd::prelude::*;
use crate::text::{chars_of, string_of, push_char};

verus! {

/// A text field: its value, the cursor as a character index, and whether it shows masked.
#[derive(Debug, Clone, Default)]
pub struct TextInputState {
    pub value: String,
    pub cursor: usize,
    pub mask: bool,
}

/// Inserting `ch` at character position `idx`.
pub open spec fn insert_at(s: Seq<char>, idx: int, ch: char) -> Seq<char> {
    s.take(idx) + seq![ch] + s.skip(idx)
}

/// `after` is `before` with `ch` typed at the cursor (at the end when the cursor is past
/// it) and the cursor moved on by one.
pub open spec fn typed_into(before: TextInputState, after: TextInputState, ch: char) -> bool {
    &&& after.value@ == insert_at(
        before.value@,
        if before.cursor <= before.value@.len() {
            before.cursor as int
        } else {
            before.value@.len() as int
        },
        ch,
    )
    &&& after.cursor == before.cursor + 1
    &&& after.mask == before.mask
}

/// `after` is `before` with the character before the cursor erased and the cursor moved
/// back by one; at the start nothing changes.
pub open spec fn erased_back(before: TextInputState, after: TextInputState) -> bool {
    &&& before.cursor == 0 ==> after == before
    &&& before.cursor > 0 ==> after.value@ == before.value@.remove(before.cursor - 1) && after.cursor
        == before.cursor - 1
    &&& after.mask == before.mask
}

impl TextInputState {
    /// Whether the cursor stands inside the value or right after it.
    pub open spec fn cursor_in_bounds(&self) -> bool {
        self.cursor <= self.value@.len()
    }

    /// An empty, unmasked field.
    pub fn new() -> (r: Self)
        ensures
            r.value@ == Seq::<char>::empty(),
            r.cursor == 0,
            !r.mask,
    {
        TextInputState { value: String::new(), cursor: 0, mask: false }
    }

    /// The same field with masking switched as given.
    pub fn with_mask(self, mask: bool) -> (r: Self)
        ensures
            r.value == self.value,
            r.cursor == self.cursor,
            r.mask == mask,
    {
        let mut s = self;
        s.mask = mask;
        s
    }

    /// Replaces the value and puts the cursor after its last character.
    pub fn set(&mut self, value: &str)
        ensures
            final(self).value@ == value@,
            final(self).cursor == value@.len(),
            final(self).mask == old(self).mask,
    {
        let v = chars_of(value);
        self.value = string_of(&v);
        self.cursor = v.len();
    }

    /// Inserts a character at the cursor (at the end when the cursor is past it) and
    /// advances the cursor.
    pub fn insert(&mut self, ch: char)
        requires
            old(self).cursor < usize::MAX,
        ensures
            typed_into(*old(self), *final(self), ch),
    {
        let v = chars_of(self.value.as_str());
        let idx = if self.cursor <= v.len() { self.cursor } else { v.len() };
        let mut out = String::new();
        let mut i: usize = 0;
        while i < v.len()
            invariant
                idx <= v@.len(),
                i <= v@.len(),
                out@ == (if i <= idx {
                    v@.take(i as int)
                } else {
                    v@.take(idx as int) + seq![ch] + v@.subrange(idx as int, i as int)
                }),
            decreases v.len() - i,
        {
            if i == idx {
                push_char(&mut out, ch);
            }
            let ghost prev = out@;
            push_char(&mut out, v[i]);
            i += 1;
            assert(out@ =~= (if i <= idx {
                v@.take(i as int)
            } else {
                v@.take(idx as int) + seq![ch] + v@.subrange(idx as int, i as int)
            }));
        }
        if idx == v.len() {
            push_char(&mut out, ch);
        }
        assert(out@ =~= insert_at(v@, idx as int, ch));
        self.value = out;
        self.cursor = self.cursor + 1;
    }

    /// Removes the character before the cursor and moves the cursor back.
    pub fn backspace(&mut self)
        requires
            old(self).cursor <= old(self).value@.len(),
        ensures
            erased_back(*old(self), *final(self)),
    {
        if self.cursor == 0 {
            return;
        }
        let mut chars = chars_of(self.value.as_str());
        chars.remove(self.cursor - 1);
        self.value = string_of(&chars);
        self.cursor = self.cursor - 1;
    }

    /// Removes the character under the cursor; nothing happens at the end of the value.
    pub fn delete(&mut self)
        ensures
            old(self).cursor >= old(self).value@.len() ==> *final(self) == *old(self),
            old(self).cursor < old(self).value@.len() ==> final(self).value@ == old(self).value@.remove(
                old(self).cursor as int,
            ),
            final(self).cursor == old(self).cursor,
            final(self).mask == old(self).mask,
    {
        let mut chars = chars_of(self.value.as_str());
        if self.cursor >= chars.len() {
            return;
        }
        chars.remove(self.cursor);
        self.value = string_of(&chars);
    }

    /// Moves the cursor one character to the left, stopping at the start.
    pub fn move_left(&mut self)
        ensures
            final(self).value == old(self).value,
            final(self).mask == old(self).mask,
            final(self).cursor as int == if old(self).cursor > 0 {
                old(self).cursor - 1
            } else {
                0
            },
    {
        if self.cursor > 0 {
            self.cursor -= 1;
        }
    }

    /// Moves the cursor one character to the right, stopping after the last character.
    pub fn move_right(&mut self)
        ensures
            final(self).value == old(self).value,
            final(self).mask == old(self).mask,
            final(self).cursor as int == if old(self).cursor < old(self).value@.len() {
                old(self).cursor + 1
            } else {
                old(self).cursor as int
            },
    {
        let n = chars_of(self.value.as_str()).len();
        if self.cursor < n {
            self.cursor += 1;
        }
    }

    /// Moves the cursor to the start.
    pub fn move_home(&mut self)
        ensures
            final(self).value == old(self).value,
            final(self).mask == old(self).mask,
            final(self).cursor == 0,
    {
        self.cursor = 0;
    }

    /// Moves the cursor after the last character.
    pub fn move_end(&mut self)
        ensures
            final(self).value == old(self).value,
            final(self).mask == old(self).mask,
            final(self).cursor == old(self).value@.len(),
    {
        self.cursor = chars_of(self.value.as_str()).len();
    }

    /// The text to show: one `*` per character when masked, else the value itself.
    pub fn display(&self) -> (r: String)
        ensures
            self.mask ==> r@ == Seq::new(self.value@.len(), |i: int| '*'),
            !self.mask ==> r@ == self.value@,
    {
        if self.mask {
            let n = chars_of(self.value.as_str()).len();
            let mut out = String::new();
            let mut i: usize = 0;
            while i < n
                invariant
                    i <= n,
                    out@ == Seq::new(i as nat, |j: int| '*'),
                decreases n - i,
            {
                push_char(&mut out, '*');
                i += 1;
                assert(out@ =~= Seq::new(i as nat, |j: int| '*'));
            }
            out
        } else {
            self.value.clone()
        }
    }
}

/// Typing a character and then erasing it gives back the field as it was.
pub proof fn law_insert_then_backspace(before: Seq<char>, cursor: int, ch: char)
    requires
        0 <= cursor <= before.len(),
    ensures
        insert_at(before, cursor, ch).remove(cursor) == before,
        insert_at(before, cursor, ch).len() == before.len() + 1,
{
    assert(insert_at(before, cursor, ch).remove(cursor) =~= before);
}

/// Typing a character into a field whose cursor stands inside its value, then erasing
/// the character before the cursor, gives the field back: the same value, cursor and mask.
pub proof fn law_backspace_undoes_insert(
    field: TextInputState,
    typed: TextInputState,
    erased: TextInputState,
    ch: char,
)
    requires
        field.cursor <= field.value@.len(),
        typed_into(field, typed, ch),
        erased_back(typed, erased),
    ensures
        erased.value@ == field.value@,
        erased.cursor == field.cursor,
        erased.mask == field.mask,
{
    law_insert_then_backspace(field.value@, field.cursor as int, ch);
}

/// Erasing with the cursor at the start leaves the field as it is.
pub proof fn law_backspace_at_start(field: TextInputState, erased: TextInputState)
    requires
        field.cursor == 0,
        erased_back(field, erased),
    ensures
        erased == field,
{
}

} // verus!
