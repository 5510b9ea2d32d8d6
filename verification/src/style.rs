//! Styled text: what is drawn, without saying how.

use vstd::prelude::*;

use crate::text::{group_views, views};

verus! {

broadcast use group_views;

#[derive(Debug, Clone, Copy, PartialEq, Eq, Structural)]
pub enum Color {
    Reset,
    Black,
    Red,
    Green,
    Yellow,
    Blue,
    Magenta,
    Cyan,
    Gray,
    DarkGray,
}

/// How a piece of text looks. A colour that is `None` is left as it is.
#[derive(Debug, Clone, Copy, PartialEq, Eq, Structural)]
pub struct Style {
    pub fg: Option<Color>,
    pub bg: Option<Color>,
    pub bold: bool,
    pub italic: bool,
    pub underlined: bool,
}

impl Style {
    pub open spec fn none() -> Style {
        Style { fg: None, bg: None, bold: false, italic: false, underlined: false }
    }

    pub open spec fn colored(c: Color) -> Style {
        Style { fg: Some(c), bg: None, bold: false, italic: false, underlined: false }
    }

    pub open spec fn strong() -> Style {
        Style { fg: None, bg: None, bold: true, italic: false, underlined: false }
    }

    pub fn plain() -> (r: Style)
        ensures
            r == Self::none(),
    {
        Style { fg: None, bg: None, bold: false, italic: false, underlined: false }
    }

    pub fn color(c: Color) -> (r: Style)
        ensures
            r == Self::colored(c),
    {
        Style { fg: Some(c), bg: None, bold: false, italic: false, underlined: false }
    }

    pub fn bold() -> (r: Style)
        ensures
            r == Self::strong(),
    {
        Style { fg: None, bg: None, bold: true, italic: false, underlined: false }
    }
}

/// A piece of text in one style.
#[derive(Debug, PartialEq, Eq)]
pub struct Span {
    pub text: String,
    pub style: Style,
}

#[verifier::ext_equal]
pub struct SpanView {
    pub text: Seq<char>,
    pub style: Style,
}

impl View for Span {
    type V = SpanView;

    open spec fn view(&self) -> SpanView {
        SpanView { text: self.text@, style: self.style }
    }
}

impl Span {
    pub fn styled(text: &str, style: Style) -> (r: Span)
        ensures
            r@ == (SpanView { text: text@, style }),
    {
        Span { text: text.to_owned(), style }
    }

    pub fn raw(text: &str) -> (r: Span)
        ensures
            r@ == (SpanView { text: text@, style: Style::none() }),
    {
        Span { text: text.to_owned(), style: Style::plain() }
    }
}

/// One line of styled text; `style` lies under that of the spans.
#[derive(Debug, PartialEq, Eq)]
pub struct Line {
    pub spans: Vec<Span>,
    pub style: Style,
}

#[verifier::ext_equal]
pub struct LineView {
    pub spans: Seq<SpanView>,
    pub style: Style,
}

impl View for Line {
    type V = LineView;

    open spec fn view(&self) -> LineView {
        LineView { spans: views(self.spans@), style: self.style }
    }
}

/// A line made of these spans.
pub open spec fn line_of(spans: Seq<SpanView>) -> LineView {
    LineView { spans, style: Style::none() }
}

/// A line of plain text.
pub open spec fn raw_line(text: Seq<char>) -> LineView {
    line_of(seq![SpanView { text, style: Style::none() }])
}

/// A line of text in one style.
pub open spec fn styled_line(text: Seq<char>, style: Style) -> LineView {
    LineView { spans: seq![SpanView { text, style: Style::none() }], style }
}

impl Line {
    pub fn from_spans(spans: Vec<Span>) -> (r: Line)
        ensures
            r@ == line_of(views(spans@)),
    {
        Line { spans, style: Style::plain() }
    }

    pub fn raw(text: &str) -> (r: Line)
        ensures
            r@ == raw_line(text@),
    {
        Line::styled(text, Style::plain())
    }

    pub fn styled(text: &str, style: Style) -> (r: Line)
        ensures
            r@ == styled_line(text@, style),
    {
        let mut spans: Vec<Span> = Vec::new();
        spans.push(Span::raw(text));
        assert(views(spans@) =~= seq![SpanView { text: text@, style: Style::none() }]);
        Line { spans, style }
    }
}

/// The text of a run of spans.
pub open spec fn spans_text(spans: Seq<SpanView>) -> Seq<char>
    decreases spans.len(),
{
    if spans.len() == 0 {
        Seq::empty()
    } else {
        spans[0].text + spans_text(spans.skip(1))
    }
}

pub proof fn lemma_spans_text_add(a: Seq<SpanView>, b: Seq<SpanView>)
    ensures
        spans_text(a + b) == spans_text(a) + spans_text(b),
    decreases a.len(),
{
    if a.len() == 0 {
        assert(a + b =~= b);
        assert(spans_text(a) + spans_text(b) =~= spans_text(b));
    } else {
        lemma_spans_text_add(a.skip(1), b);
        assert((a + b).skip(1) =~= a.skip(1) + b);
        assert(spans_text(a + b) =~= spans_text(a) + spans_text(b));
    }
}

pub proof fn lemma_spans_text_one(s: SpanView)
    ensures
        spans_text(seq![s]) == s.text,
{
    let one = seq![s];
    assert(one.skip(1).len() == 0);
    assert(spans_text(one.skip(1)) =~= Seq::empty());
    assert(s.text + Seq::<char>::empty() =~= s.text);
}

} // verus!
