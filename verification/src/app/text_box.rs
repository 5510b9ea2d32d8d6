//! The multi-line editor for request bodies.

use vstd::prelude::*;

use crate::keys::{KeyCode, KeyEvent};
use crate::text::{group_views, views};

verus! {

broadcast use group_views;

/// A text area with its cursor, selection and history.
#[verifier::external_body]
pub struct TextBox {
    inner: tui_textarea::TextArea<'static>,
}

/// The lines that a text area holds.
pub uninterp spec fn box_lines(t: TextBox) -> Seq<Seq<char>>;

/// Row and column of a text area's cursor.
pub uninterp spec fn box_cursor(t: TextBox) -> (usize, usize);

/// What `TextArea::input` makes of a key: the lines and the cursor after it. It
/// goes by the whole text area, its selection, yanked text and history included.
pub uninterp spec fn box_typed(t: TextBox, key: KeyEvent) -> BoxView;

#[verifier::ext_equal]
pub struct BoxView {
    pub lines: Seq<Seq<char>>,
    pub row: int,
    pub col: int,
}

impl View for TextBox {
    type V = BoxView;

    open spec fn view(&self) -> BoxView {
        BoxView {
            lines: box_lines(*self),
            row: box_cursor(*self).0 as int,
            col: box_cursor(*self).1 as int,
        }
    }
}

/// Column `col`, or the end of a line that is shorter.
pub open spec fn fitted(col: int, line: Seq<char>) -> int {
    if col <= line.len() {
        col
    } else {
        line.len() as int
    }
}

impl BoxView {
    /// These lines, with the cursor at the start; never without a line.
    pub open spec fn holding(lines: Seq<Seq<char>>) -> BoxView {
        BoxView {
            lines: if lines.len() == 0 {
                seq![Seq::empty()]
            } else {
                lines
            },
            row: 0,
            col: 0,
        }
    }

    pub open spec fn at_row(self, row: int) -> BoxView {
        BoxView { row, col: fitted(self.col, self.lines[row]), ..self }
    }

    pub open spec fn down(self) -> BoxView {
        if self.row + 1 < self.lines.len() {
            self.at_row(self.row + 1)
        } else {
            self
        }
    }

    pub open spec fn up(self) -> BoxView {
        if self.row > 0 {
            self.at_row(self.row - 1)
        } else {
            self
        }
    }

    pub open spec fn down_by(self, n: nat) -> BoxView
        decreases n,
    {
        if n == 0 {
            self
        } else {
            self.down_by((n - 1) as nat).down()
        }
    }

    pub open spec fn up_by(self, n: nat) -> BoxView
        decreases n,
    {
        if n == 0 {
            self
        } else {
            self.up_by((n - 1) as nat).up()
        }
    }

    pub open spec fn at_top(self) -> BoxView {
        self.at_row(0)
    }

    pub open spec fn at_bottom(self) -> BoxView {
        self.at_row(self.lines.len() - 1)
    }
}

impl TextBox {
    /// `TextArea::new`: holds the lines, or one empty line when there are none,
    /// with the cursor at the start.
    #[verifier::external_body]
    pub(crate) fn holding(lines: Vec<String>) -> (r: TextBox)
        ensures
            r@ == BoxView::holding(views(lines@)),
    {
        TextBox { inner: tui_textarea::TextArea::new(lines) }
    }

    /// `TextArea::lines`: the lines, as they stand.
    #[verifier::external_body]
    fn read_lines(&self) -> (r: Vec<String>)
        ensures
            views(r@) == box_lines(*self),
    {
        self.inner.lines().to_vec()
    }

    /// `TextArea::cursor`: row and column of the cursor.
    #[verifier::external_body]
    fn read_cursor(&self) -> (r: (usize, usize))
        ensures
            r == box_cursor(*self),
    {
        self.inner.cursor()
    }

    pub fn lines(&self) -> (r: Vec<String>)
        ensures
            views(r@) == self@.lines,
    {
        self.read_lines()
    }

    pub fn cursor(&self) -> (r: (usize, usize))
        ensures
            r.0 == self@.row,
            r.1 == self@.col,
    {
        self.read_cursor()
    }

    /// `TextArea::move_cursor` with `CursorMove::Down`: one line down, unless the
    /// cursor is on the last line. The text stays.
    #[verifier::external_body]
    fn step_down(&mut self)
        ensures
            final(self)@ == old(self)@.down(),
    {
        self.inner.move_cursor(tui_textarea::CursorMove::Down);
    }

    /// `TextArea::move_cursor` with `CursorMove::Up`: one line up, unless the
    /// cursor is on the first line. The text stays.
    #[verifier::external_body]
    fn step_up(&mut self)
        ensures
            final(self)@ == old(self)@.up(),
    {
        self.inner.move_cursor(tui_textarea::CursorMove::Up);
    }

    /// `TextArea::move_cursor` with `CursorMove::Top`: to the first line.
    #[verifier::external_body]
    pub(crate) fn move_top(&mut self)
        ensures
            final(self)@ == old(self)@.at_top(),
    {
        self.inner.move_cursor(tui_textarea::CursorMove::Top);
    }

    /// `TextArea::move_cursor` with `CursorMove::Bottom`: to the last line.
    #[verifier::external_body]
    pub(crate) fn move_bottom(&mut self)
        ensures
            final(self)@ == old(self)@.at_bottom(),
    {
        self.inner.move_cursor(tui_textarea::CursorMove::Bottom);
    }

    /// `TextArea::input`: the text and the cursor after a key are settled by the
    /// text area as it stood and the key. Which text that is, is not said.
    #[verifier::external_body]
    pub(crate) fn type_key(&mut self, key: KeyEvent)
        ensures
            final(self)@ == box_typed(*old(self), key),
    {
        let code = match key.code {
            KeyCode::Char(c) => tui_textarea::Key::Char(c),
            KeyCode::Enter => tui_textarea::Key::Enter, KeyCode::Backspace => tui_textarea::Key::Backspace,
            KeyCode::Delete => tui_textarea::Key::Delete, KeyCode::Left => tui_textarea::Key::Left,
            KeyCode::Right => tui_textarea::Key::Right, KeyCode::Up => tui_textarea::Key::Up,
            KeyCode::Down => tui_textarea::Key::Down, KeyCode::Home => tui_textarea::Key::Home,
            KeyCode::End => tui_textarea::Key::End, KeyCode::Tab => tui_textarea::Key::Tab,
            KeyCode::PageUp => tui_textarea::Key::PageUp, KeyCode::PageDown => tui_textarea::Key::PageDown,
            _ => tui_textarea::Key::Null,
        };
        let m = key.modifiers;
        self.inner.input(tui_textarea::Input { key: code, ctrl: m.control, alt: m.alt, shift: m.shift });
    }

    pub(crate) fn move_down(&mut self, n: usize)
        ensures
            final(self)@ == old(self)@.down_by(n as nat),
    {
        let ghost start = self@;
        let mut i: usize = 0;
        while i < n
            invariant
                i <= n,
                start == old(self)@,
                self@ == start.down_by(i as nat),
            decreases n - i,
        {
            self.step_down();
            i += 1;
        }
    }

    pub(crate) fn move_up(&mut self, n: usize)
        ensures
            final(self)@ == old(self)@.up_by(n as nat),
    {
        let ghost start = self@;
        let mut i: usize = 0;
        while i < n
            invariant
                i <= n,
                start == old(self)@,
                self@ == start.up_by(i as nat),
            decreases n - i,
        {
            self.step_up();
            i += 1;
        }
    }
}

/// Moving the cursor never touches the text.
pub proof fn lemma_moves_keep_text(b: BoxView, n: nat)
    ensures
        b.down_by(n).lines == b.lines,
        b.up_by(n).lines == b.lines,
    decreases n,
{
    if n > 0 {
        lemma_moves_keep_text(b, (n - 1) as nat);
    }
}

} // verus!
