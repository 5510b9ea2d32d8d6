//! Minimal single-line editor with a cursor.

use vstd::prelude::*;
use vstd::utf8::{
    encode_scalar, encode_utf8, encode_utf8_first_scalar, encode_utf8_valid_utf8, is_char_boundary,
    pop_first_scalar,
};

use crate::text::{chars, string_of};

verus! {

/// How many bytes a text takes.
pub open spec fn byte_len(s: Seq<char>) -> nat {
    encode_utf8(s).len()
}

#[derive(Debug)]
pub struct LineEdit {
    pub buf: String,
    /// Byte offset of the cursor, always between two characters.
    pub cursor: usize,
    /// The same place, counted in characters.
    pub at: usize,
}

/// A text and a place in it.
#[verifier::ext_equal]
pub struct LineState {
    pub text: Seq<char>,
    pub at: int,
}

impl View for LineEdit {
    type V = LineState;

    open spec fn view(&self) -> LineState {
        LineState { text: self.buf@, at: self.at as int }
    }
}

impl LineState {
    pub open spec fn blank() -> LineState {
        LineState { text: Seq::empty(), at: 0 }
    }

    pub open spec fn valid(self) -> bool {
        0 <= self.at <= self.text.len()
    }

    /// The cursor's place, counted in bytes.
    pub open spec fn offset(self) -> nat {
        byte_len(self.text.take(self.at))
    }

    /// `text` with the cursor behind it.
    pub open spec fn holding(text: Seq<char>) -> LineState {
        LineState { text, at: text.len() as int }
    }

    pub open spec fn inserted(self, c: char) -> LineState {
        LineState { text: self.text.insert(self.at, c), at: self.at + 1 }
    }

    pub open spec fn backspaced(self) -> LineState {
        if self.at > 0 {
            LineState { text: self.text.remove(self.at - 1), at: self.at - 1 }
        } else {
            self
        }
    }

    pub open spec fn deleted(self) -> LineState {
        if self.at < self.text.len() {
            LineState { text: self.text.remove(self.at), ..self }
        } else {
            self
        }
    }

    pub open spec fn moved_left(self) -> LineState {
        if self.at > 0 {
            LineState { at: self.at - 1, ..self }
        } else {
            self
        }
    }

    pub open spec fn moved_right(self) -> LineState {
        if self.at < self.text.len() {
            LineState { at: self.at + 1, ..self }
        } else {
            self
        }
    }

    pub open spec fn at_home(self) -> LineState {
        LineState { at: 0, ..self }
    }

    pub open spec fn at_end(self) -> LineState {
        LineState { at: self.text.len() as int, ..self }
    }
}

impl LineEdit {
    /// The cursor stands between two characters, and the two counts agree.
    pub open spec fn wf(&self) -> bool {
        &&& self@.valid()
        &&& self.cursor == self@.offset()
    }

    pub fn new() -> (r: Self)
        ensures
            r.wf(),
            r@ == LineState::blank(),
            r.cursor == 0,
    {
        let r = LineEdit { buf: String::new(), cursor: 0, at: 0 };
        assert(r.buf@.take(0) =~= Seq::empty());
        r
    }

    /// A line editor on `text` with the cursor at character `at`.
    fn placed(text: &[char], at: usize) -> (r: Self)
        requires
            at <= text@.len(),
        ensures
            r.wf(),
            r@ == (LineState { text: text@, at: at as int }),
    {
        let head = string_of(vstd::slice::slice_subrange(text, 0, at));
        assert(head@ =~= text@.take(at as int));
        let cursor: usize = head.as_str().as_bytes().len();
        LineEdit { buf: string_of(text), cursor, at }
    }

    pub fn set(&mut self, s: &str)
        ensures
            final(self).wf(),
            final(self)@ == LineState::holding(s@),
    {
        let c = chars(s);
        *self = LineEdit::placed(c.as_slice(), c.len());
    }

    pub fn insert(&mut self, c: char)
        requires
            old(self).wf(),
        ensures
            final(self).wf(),
            final(self)@ == old(self)@.inserted(c),
    {
        let mut v = chars(self.buf.as_str());
        v.insert(self.at, c);
        let _len: usize = v.len();
        *self = LineEdit::placed(v.as_slice(), self.at + 1);
    }

    pub fn backspace(&mut self)
        requires
            old(self).wf(),
        ensures
            final(self).wf(),
            final(self)@ == old(self)@.backspaced(),
    {
        if self.at > 0 {
            let mut v = chars(self.buf.as_str());
            v.remove(self.at - 1);
            *self = LineEdit::placed(v.as_slice(), self.at - 1);
        }
    }

    pub fn delete(&mut self)
        requires
            old(self).wf(),
        ensures
            final(self).wf(),
            final(self)@ == old(self)@.deleted(),
    {
        let mut v = chars(self.buf.as_str());
        if self.at < v.len() {
            v.remove(self.at);
            *self = LineEdit::placed(v.as_slice(), self.at);
        }
    }

    pub fn left(&mut self)
        requires
            old(self).wf(),
        ensures
            final(self).wf(),
            final(self)@ == old(self)@.moved_left(),
    {
        if self.at > 0 {
            let v = chars(self.buf.as_str());
            *self = LineEdit::placed(v.as_slice(), self.at - 1);
        }
    }

    pub fn right(&mut self)
        requires
            old(self).wf(),
        ensures
            final(self).wf(),
            final(self)@ == old(self)@.moved_right(),
    {
        let v = chars(self.buf.as_str());
        if self.at < v.len() {
            *self = LineEdit::placed(v.as_slice(), self.at + 1);
        }
    }

    pub fn home(&mut self)
        requires
            old(self).wf(),
        ensures
            final(self).wf(),
            final(self)@ == old(self)@.at_home(),
    {
        let v = chars(self.buf.as_str());
        *self = LineEdit::placed(v.as_slice(), 0);
    }

    pub fn end(&mut self)
        requires
            old(self).wf(),
        ensures
            final(self).wf(),
            final(self)@ == old(self)@.at_end(),
    {
        let v = chars(self.buf.as_str());
        let n: usize = v.len();
        *self = LineEdit::placed(v.as_slice(), n);
    }
}

impl Default for LineEdit {
    fn default() -> (r: Self)
        ensures
            r.wf(),
            r@ == LineState::blank(),
    {
        LineEdit::new()
    }
}

// ----- laws -----

/// Backspace undoes a keystroke, and at the start of the text does nothing.
pub proof fn lemma_backspace_undoes_insert(s: LineState, c: char)
    requires
        s.valid(),
    ensures
        s.inserted(c).backspaced() == s,
        s.inserted(c).backspaced().offset() == s.offset(),
        s.offset() == 0 ==> s.backspaced() == s,
{
    assert(s.text.insert(s.at, c).remove(s.at) =~= s.text);
    lemma_offset_is_a_boundary(s);
}

/// Backspace is one step to the left and a delete.
pub proof fn lemma_left_then_delete_is_backspace(s: LineState)
    requires
        s.valid(),
        s.at > 0,
    ensures
        s.moved_left().deleted() == s.backspaced(),
        s.moved_left().deleted().offset() == s.backspaced().offset(),
{
}

/// Delete takes out the character at the cursor and no other, leaves the cursor
/// where it is, and at the end of the text does nothing.
pub proof fn lemma_delete_stays_in_place(s: LineState)
    requires
        s.valid(),
    ensures
        s.deleted().at == s.at,
        s.deleted().offset() == s.offset(),
        s.at < s.text.len() ==> s.deleted().text == s.text.take(s.at) + s.text.skip(s.at + 1),
        s.offset() == byte_len(s.text) ==> s.deleted() == s,
{
    assert(s.deleted().text.take(s.at) =~= s.text.take(s.at));
    if s.at < s.text.len() {
        assert(s.text.remove(s.at) =~= s.text.take(s.at) + s.text.skip(s.at + 1));
    }
    lemma_offset_is_a_boundary(s);
}

/// A step to the right goes past exactly one character, and one to the left
/// comes back; at the end of the text the cursor stays.
pub proof fn lemma_left_undoes_right(s: LineState)
    requires
        s.valid(),
    ensures
        s.moved_right().text == s.text,
        s.at < s.text.len() ==> s.moved_right().moved_left() == s,
        s.at < s.text.len() ==> s.moved_right().offset() == s.offset() + encode_scalar(
            s.text[s.at] as u32,
        ).len(),
        s.at == s.text.len() ==> s.moved_right() == s,
{
    if s.at < s.text.len() {
        lemma_one_more(s.text, s.at);
    }
}

/// The cursor stands between two characters, inside the text, and is at the end
/// or the start of the bytes just where it is at the end or the start of the
/// characters.
pub proof fn lemma_offset_is_a_boundary(s: LineState)
    requires
        s.valid(),
    ensures
        s.offset() <= byte_len(s.text),
        is_char_boundary(encode_utf8(s.text), s.offset() as int),
        s.offset() == 0 <==> s.at == 0,
        s.offset() == byte_len(s.text) <==> s.at == s.text.len(),
{
    lemma_prefix_bytes(s.text, s.at);
    assert(s.text.take(s.text.len() as int) =~= s.text);
}

/// Two editors that show the same text with the cursor at the same place agree
/// on the place in bytes too.
pub proof fn lemma_same_view_same_cursor(a: LineEdit, b: LineEdit)
    requires
        a.wf(),
        b.wf(),
        a@ == b@,
    ensures
        a.buf@ == b.buf@,
        a.cursor == b.cursor,
{
}

/// A character more takes the bytes of that character more.
proof fn lemma_one_more(s: Seq<char>, n: int)
    requires
        0 <= n < s.len(),
    ensures
        byte_len(s.take(n + 1)) == byte_len(s.take(n)) + encode_scalar(s[n] as u32).len(),
    decreases n,
{
    let more = s.take(n + 1);
    if n == 0 {
        assert(more.drop_first() =~= Seq::empty());
        assert(s.take(0) =~= Seq::empty());
    } else {
        let less = s.take(n);
        let tail = s.drop_first();
        assert(more.drop_first() =~= tail.take(n));
        assert(less.drop_first() =~= tail.take(n - 1));
        lemma_one_more(tail, n - 1);
    }
}

proof fn lemma_prefix_bytes(s: Seq<char>, n: int)
    requires
        0 <= n <= s.len(),
    ensures
        byte_len(s.take(n)) <= byte_len(s),
        n < s.len() ==> byte_len(s.take(n)) < byte_len(s),
        n > 0 ==> byte_len(s.take(n)) > 0,
        is_char_boundary(encode_utf8(s), byte_len(s.take(n)) as int),
    decreases s.len(),
{
    encode_utf8_valid_utf8(s);
    if s.len() > 0 {
        encode_utf8_first_scalar(s);
    }
    if n == 0 {
        assert(s.take(0) =~= Seq::empty());
    } else {
        let tail = s.drop_first();
        assert(s.take(n).drop_first() =~= tail.take(n - 1));
        lemma_prefix_bytes(tail, n - 1);
        assert(pop_first_scalar(encode_utf8(s)) =~= encode_utf8(tail));
    }
}

/// Wherever it is moved, the cursor stays inside the text.
pub proof fn lemma_cursor_stays_inside(s: LineState, c: char)
    requires
        s.valid(),
    ensures
        s.inserted(c).valid(),
        s.backspaced().valid(),
        s.deleted().valid(),
        s.moved_left().valid(),
        s.moved_right().valid(),
        s.at_home().valid(),
        s.at_end().valid(),
{
}

} // verus!
