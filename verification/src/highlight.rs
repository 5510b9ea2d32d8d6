//! Syntax highlighting for the response and body views.
//!
//! Highlighting is line-oriented: every token here (JSON strings included,
//! since they cannot contain a raw newline) starts and ends on one line, so a
//! line can be drawn without scanning the ones before it.

use vstd::prelude::*;

use crate::style::{
    lemma_spans_text_add, lemma_spans_text_one, line_of, spans_text, Color, Line, LineView, Span,
    SpanView, Style,
};
use crate::text::{
    alnum, alpha, chars, digit, find, find_str, group_views, is_alnum, is_alpha, is_digit,
    is_white, join, lemma_find_from, part, rest, same, split, split_str, string_of, trim_start,
    trimmed_start, views, white,
};

verus! {

broadcast use group_views;

#[derive(Debug, Clone, Copy, PartialEq, Eq, Structural)]
pub enum Syntax {
    Json,
    Xml,
    Plain,
}

/// The syntax that a text's first non-blank character suggests.
pub open spec fn syntax_of(text: Seq<char>) -> Syntax {
    let t = trim_start(text);
    if t.len() > 0 && (t[0] == '{' || t[0] == '[') {
        Syntax::Json
    } else if t.len() > 0 && t[0] == '<' {
        Syntax::Xml
    } else {
        Syntax::Plain
    }
}

/// Guess the syntax from the first non-blank character, the same way a
/// temporary file for `$EDITOR` gets its extension.
pub fn detect(text: &str) -> (r: Syntax)
    ensures
        r == syntax_of(text@),
{
    let c = chars(trimmed_start(text));
    if c.len() > 0 && (c[0] == '{' || c[0] == '[') {
        Syntax::Json
    } else if c.len() > 0 && c[0] == '<' {
        Syntax::Xml
    } else {
        Syntax::Plain
    }
}

/// Extension for a temporary file, so the editor picks sane highlighting.
pub fn guess_extension(content: &str) -> (r: &'static str)
    ensures
        r@ == (match syntax_of(content@) {
            Syntax::Json => "json"@,
            Syntax::Xml => "xml"@,
            Syntax::Plain => "txt"@,
        }),
{
    match detect(content) {
        Syntax::Json => "json",
        Syntax::Xml => "xml",
        Syntax::Plain => "txt",
    }
}

pub const KEY: Color = Color::Cyan;

pub const STRING: Color = Color::Green;

pub const NUMBER: Color = Color::Yellow;

pub const LITERAL: Color = Color::Magenta;

pub const PUNCT: Color = Color::DarkGray;

pub const TAG: Color = Color::Blue;

pub open spec fn in_color(text: Seq<char>, c: Color) -> SpanView {
    SpanView { text, style: Style::colored(c) }
}

/// How a `{{variable}}` stands out.
pub open spec fn variable_style() -> Style {
    Style { fg: Some(LITERAL), bg: None, bold: true, italic: true, underlined: false }
}

// ----- runs of characters -----

/// Kinds of characters that a token runs over.
#[derive(Debug, Clone, Copy, PartialEq, Eq, Structural)]
pub enum Class {
    /// Anything a number is written with.
    Numeric,
    /// Letters and digits.
    Word,
    /// Text between tags.
    Outside,
    /// What may follow the `<` of a tag.
    Opening,
    /// The name of a tag.
    TagName,
    /// The name of an attribute.
    AttrName,
    /// Up to a double quote.
    InDouble,
    /// Up to a single quote.
    InSingle,
}

pub open spec fn in_class(c: char, k: Class) -> bool {
    match k {
        Class::Numeric => is_digit(c) || c == '-' || c == '+' || c == '.' || c == 'e' || c == 'E',
        Class::Word => is_alnum(c),
        Class::Outside => c != '<',
        Class::Opening => c == '/' || c == '!' || c == '?',
        Class::TagName => !is_white(c) && c != '>' && c != '/',
        Class::AttrName => !is_white(c) && c != '=' && c != '>' && c != '/' && c != '"' && c != '\'',
        Class::InDouble => c != '"',
        Class::InSingle => c != '\'',
    }
}

pub fn is_number_char(c: char) -> (r: bool)
    ensures
        r == in_class(c, Class::Numeric),
{
    digit(c) || c == '-' || c == '+' || c == '.' || c == 'e' || c == 'E'
}

fn of_class(c: char, k: Class) -> (r: bool)
    ensures
        r == in_class(c, k),
{
    match k {
        Class::Numeric => is_number_char(c),
        Class::Word => alnum(c),
        Class::Outside => c != '<',
        Class::Opening => c == '/' || c == '!' || c == '?',
        Class::TagName => !white(c) && c != '>' && c != '/',
        Class::AttrName => !white(c) && c != '=' && c != '>' && c != '/' && c != '"' && c != '\'',
        Class::InDouble => c != '"',
        Class::InSingle => c != '\'',
    }
}

/// How many characters at the start of `s` are of one kind.
pub open spec fn run(s: Seq<char>, k: Class) -> nat
    decreases s.len(),
{
    if s.len() > 0 && in_class(s[0], k) {
        1 + run(s.skip(1), k)
    } else {
        0
    }
}

proof fn lemma_run(s: Seq<char>, k: Class)
    ensures
        run(s, k) <= s.len(),
    decreases s.len(),
{
    if s.len() > 0 && in_class(s[0], k) {
        lemma_run(s.skip(1), k);
    }
}

fn run_len(c: &[char], from: usize, k: Class) -> (n: usize)
    requires
        from <= c@.len(),
    ensures
        n == run(c@.skip(from as int), k),
        from + n <= c.len(),
{
    let ghost s = c@.skip(from as int);
    let mut i: usize = from;
    while i < c.len() && of_class(c[i], k)
        invariant
            from <= i <= c@.len(),
            s == c@.skip(from as int),
            run(s, k) == (i - from) + run(c@.skip(i as int), k),
        decreases c@.len() - i,
    {
        assert(c@.skip(i as int).skip(1) =~= c@.skip(i + 1));
        i += 1;
    }
    i - from
}

// ----- shared -----

/// `text` in `style`, with `{{variable}}` placeholders broken out.
pub open spec fn marked_from(text: Seq<char>, style: Style) -> Seq<SpanView>
    decreases text.len(),
{
    match find(text, "{{"@) {
        Some(start) => match find(text.skip(start + 2), "}}"@) {
            Some(end) => {
                let stop = start + 2 + end + 2;
                if 0 <= start && 0 <= end && stop <= text.len() {
                    let lead = if start > 0 {
                        seq![SpanView { text: text.take(start), style }]
                    } else {
                        Seq::empty()
                    };
                    lead + seq![
                        SpanView { text: text.subrange(start, stop), style: variable_style() },
                    ] + marked_from(text.skip(stop), style)
                } else {
                    remainder(text, style)
                }
            },
            None => remainder(text, style),
        },
        None => remainder(text, style),
    }
}

pub open spec fn remainder(text: Seq<char>, style: Style) -> Seq<SpanView> {
    if text.len() == 0 {
        Seq::empty()
    } else {
        seq![SpanView { text, style }]
    }
}

/// `text` in `style`; variables stand out where they are live template syntax.
pub open spec fn marked(text: Seq<char>, style: Style, marks_vars: bool) -> Seq<SpanView> {
    if marks_vars {
        marked_from(text, style)
    } else {
        remainder(text, style)
    }
}

fn push_text(spans: &mut Vec<Span>, text: &str, style: Style, marks_vars: bool)
    ensures
        views(final(spans)@) == views(old(spans)@) + marked(text@, style, marks_vars),
{
    let ghost start_spans = views(spans@);
    if !marks_vars {
        if !text.is_empty() {
            spans.push(Span::styled(text, style));
        }
        assert(views(spans@) =~= start_spans + remainder(text@, style));
        return;
    }
    let var_style = Style { fg: Some(LITERAL), bg: None, bold: true, italic: true, underlined: false };
    proof {
        reveal_strlit("{{");
        reveal_strlit("}}");
    }
    let mut tail: &str = text;
    loop
        invariant
            marks_vars,
            var_style == variable_style(),
            start_spans == views(old(spans)@),
            "{{"@.len() == 2,
            "}}"@.len() == 2,
            views(spans@) + marked_from(tail@, style) == start_spans + marked(text@, style, marks_vars),
        decreases tail@.len(),
    {
        let ghost rem = tail@;
        let ghost held = views(spans@);
        let begin: Option<usize> = find_str(tail, "{{");
        match begin {
            Some(s) => {
                let after = rest(tail, s + 2);
                match find_str(after, "}}") {
                    Some(e) => {
                        let n = tail.unicode_len();
                        assert(after@.len() == n - s - 2);
                        if s > 0 {
                            spans.push(Span::styled(part(tail, 0, s), style));
                        }
                        let stop: usize = s + 2 + e + 2;
                        spans.push(Span::styled(part(tail, s, stop), var_style));
                        tail = rest(tail, stop);
                        assert(views(spans@) + marked_from(tail@, style) =~= held + marked_from(
                            rem,
                            style,
                        ));
                    },
                    None => {
                        if !tail.is_empty() {
                            spans.push(Span::styled(tail, style));
                        }
                        assert(views(spans@) =~= held + remainder(rem, style));
                        return;
                    },
                }
            },
            None => {
                if !tail.is_empty() {
                    spans.push(Span::styled(tail, style));
                }
                assert(views(spans@) =~= held + remainder(rem, style));
                return;
            },
        }
    }
}

// ----- JSON -----

/// Index just past the closing quote of a string that is open at `i`, or the
/// end of the line for an unterminated one.
pub open spec fn string_end(s: Seq<char>, i: int) -> int
    decreases s.len() + 1 - i,
{
    if i >= s.len() {
        s.len() as int
    } else if s[i] == '\\' {
        string_end(s, i + 2)
    } else if s[i] == '"' {
        i + 1
    } else {
        string_end(s, i + 1)
    }
}

/// Whether the first character of `s` that is not blank is a colon.
pub open spec fn colon_follows(s: Seq<char>) -> bool {
    let t = trim_start(s);
    t.len() > 0 && t[0] == ':'
}

pub open spec fn is_bracket(c: char) -> bool {
    c == '{' || c == '}' || c == '[' || c == ']' || c == ',' || c == ':'
}

/// Length of the token at the start of a line of JSON.
pub open spec fn json_token(s: Seq<char>) -> int {
    if s[0] == '"' {
        string_end(s, 1)
    } else if s[0] == '-' || is_digit(s[0]) {
        run(s, Class::Numeric) as int
    } else if is_alpha(s[0]) {
        run(s, Class::Word) as int
    } else {
        1
    }
}

/// How the token of length `n` at the start of `s` is shown. A string followed
/// by `:` is an object key.
pub open spec fn json_token_spans(s: Seq<char>, n: int, marks_vars: bool) -> Seq<SpanView> {
    let text = s.take(n);
    if s[0] == '"' {
        marked(
            text,
            Style::colored(
                if colon_follows(s.skip(n)) {
                    KEY
                } else {
                    STRING
                },
            ),
            marks_vars,
        )
    } else if s[0] == '-' || is_digit(s[0]) {
        seq![in_color(text, NUMBER)]
    } else if is_alpha(s[0]) {
        seq![
            in_color(
                text,
                if text == "true"@ || text == "false"@ || text == "null"@ {
                    LITERAL
                } else {
                    Color::Reset
                },
            ),
        ]
    } else if is_bracket(s[0]) {
        seq![in_color(text, PUNCT)]
    } else {
        seq![SpanView { text, style: Style::none() }]
    }
}

pub open spec fn json_spans(s: Seq<char>, marks_vars: bool) -> Seq<SpanView>
    decreases s.len(),
{
    if s.len() == 0 {
        Seq::empty()
    } else {
        let n = json_token(s);
        if 0 < n <= s.len() {
            json_token_spans(s, n, marks_vars) + json_spans(s.skip(n), marks_vars)
        } else {
            Seq::empty()
        }
    }
}

proof fn lemma_string_end(s: Seq<char>, i: int)
    requires
        0 <= i <= s.len(),
    ensures
        i <= string_end(s, i) <= s.len(),
    decreases s.len() - i,
{
    if i < s.len() {
        if s[i] == '\\' {
            if i + 2 <= s.len() {
                lemma_string_end(s, i + 2);
            } else {
                assert(string_end(s, i + 2) == s.len());
            }
        } else if s[i] != '"' {
            lemma_string_end(s, i + 1);
        }
    }
}

proof fn lemma_json_token(s: Seq<char>)
    requires
        s.len() > 0,
    ensures
        0 < json_token(s) <= s.len(),
{
    lemma_string_end(s, 1);
    lemma_run(s, Class::Numeric);
    lemma_run(s, Class::Word);
}

/// Index just past the closing quote of the string starting at `i`, or the end
/// of the line for an unterminated one.
pub fn end_of_string(c: &[char], i: usize) -> (r: usize)
    requires
        i < c@.len(),
    ensures
        r == i + string_end(c@.skip(i as int), 1),
        i < r <= c@.len(),
{
    let ghost s = c@.skip(i as int);
    proof {
        lemma_string_end(s, 1);
    }
    let n: usize = c.len();
    let mut j: usize = i + 1;
    while j < n
        invariant
            i < j <= n,
            n == c@.len(),
            s == c@.skip(i as int),
            string_end(s, 1) == string_end(s, j - i),
            1 <= string_end(s, 1) <= s.len(),
        decreases n - j,
    {
        assert(s[j - i] == c@[j as int]);
        if c[j] == '\\' {
            if n - j < 2 {
                assert(string_end(s, j - i + 2) == s.len());
                return n;
            }
            j += 2;
        } else if c[j] == '"' {
            return j + 1;
        } else {
            j += 1;
        }
    }
    n
}

fn text_between(c: &[char], from: usize, to: usize) -> (r: String)
    requires
        from <= to <= c@.len(),
    ensures
        r@ == c@.subrange(from as int, to as int),
{
    string_of(vstd::slice::slice_subrange(c, from, to))
}

fn colon_after(c: &[char], from: usize) -> (r: bool)
    requires
        from <= c@.len(),
    ensures
        r == colon_follows(c@.skip(from as int)),
{
    let tail = text_between(c, from, c.len());
    assert(tail@ =~= c@.skip(from as int));
    let t = chars(trimmed_start(tail.as_str()));
    t.len() > 0 && t[0] == ':'
}

fn json_line(line: &str, marks_vars: bool) -> (r: Line)
    ensures
        r@ == line_of(json_spans(line@, marks_vars)),
{
    let v = chars(line);
    let c = v.as_slice();
    let mut spans: Vec<Span> = Vec::new();
    let mut i: usize = 0;
    assert(line@.skip(0) =~= line@);
    assert(views(spans@) + json_spans(line@, marks_vars) =~= json_spans(line@, marks_vars));
    while i < c.len()
        invariant
            i <= c@.len(),
            c@ == line@,
            views(spans@) + json_spans(line@.skip(i as int), marks_vars) == json_spans(
                line@,
                marks_vars,
            ),
        decreases c@.len() - i,
    {
        let ghost s = line@.skip(i as int);
        let ghost held = views(spans@);
        let ghost n = json_token(s);
        proof {
            lemma_json_token(s);
        }
        let x = c[i];
        let start = i;
        if x == '"' {
            i = end_of_string(c, i);
            let text = text_between(c, start, i);
            assert(text@ =~= s.take(n));
            assert(line@.skip(i as int) =~= s.skip(n));
            let color = if colon_after(c, i) {
                KEY
            } else {
                STRING
            };
            push_text(&mut spans, text.as_str(), Style::color(color), marks_vars);
        } else if x == '-' || digit(x) {
            i = i + run_len(c, i, Class::Numeric);
            let text = text_between(c, start, i);
            assert(text@ =~= s.take(n));
            spans.push(Span::styled(text.as_str(), Style::color(NUMBER)));
        } else if alpha(x) {
            i = i + run_len(c, i, Class::Word);
            let text = text_between(c, start, i);
            assert(text@ =~= s.take(n));
            let w = text.as_str();
            let color = if same(w, "true") || same(w, "false") || same(w, "null") {
                LITERAL
            } else {
                Color::Reset
            };
            spans.push(Span::styled(w, Style::color(color)));
        } else {
            i += 1;
            let text = text_between(c, start, i);
            assert(text@ =~= s.take(n));
            if x == '{' || x == '}' || x == '[' || x == ']' || x == ',' || x == ':' {
                spans.push(Span::styled(text.as_str(), Style::color(PUNCT)));
            } else {
                spans.push(Span::raw(text.as_str()));
            }
        }
        assert(line@.skip(i as int) =~= s.skip(n));
        assert(views(spans@) =~= held + json_token_spans(s, n, marks_vars));
        assert(held + json_token_spans(s, n, marks_vars) + json_spans(s.skip(n), marks_vars) =~= held
            + (json_token_spans(s, n, marks_vars) + json_spans(s.skip(n), marks_vars)));
    }
    assert(views(spans@) =~= views(spans@) + json_spans(line@.skip(i as int), marks_vars));
    Line::from_spans(spans)
}

// ----- XML / HTML -----

/// Length of `<`, what may follow it, and the tag's name.
pub open spec fn tag_len(s: Seq<char>) -> int {
    let n = 1 + run(s.skip(1), Class::Opening) as int;
    n + run(s.skip(n), Class::TagName)
}

/// Length of a quoted attribute value, its quotes included.
pub open spec fn quoted_len(s: Seq<char>) -> int {
    let n = 1 + run(
        s.skip(1),
        if s[0] == '"' {
            Class::InDouble
        } else {
            Class::InSingle
        },
    ) as int;
    if n < s.len() {
        n + 1
    } else {
        n
    }
}

/// Markup is coloured structurally: everything between `<` and `>` is a tag,
/// with its name, attribute names and quoted values distinguished; anything
/// else is text.
pub open spec fn xml_spans(s: Seq<char>, marks_vars: bool) -> Seq<SpanView>
    decreases s.len(),
{
    if s.len() == 0 {
        Seq::empty()
    } else if s[0] != '<' {
        let n = run(s, Class::Outside) as int;
        if 0 < n <= s.len() {
            marked(s.take(n), Style::none(), marks_vars) + xml_spans(s.skip(n), marks_vars)
        } else {
            Seq::empty()
        }
    } else {
        let n = tag_len(s);
        if 0 < n <= s.len() {
            seq![in_color(s.take(n), TAG)] + attr_spans(s.skip(n), marks_vars)
        } else {
            Seq::empty()
        }
    }
}

/// The rest of a tag, and what follows it.
pub open spec fn attr_spans(s: Seq<char>, marks_vars: bool) -> Seq<SpanView>
    decreases s.len(),
{
    if s.len() == 0 {
        Seq::empty()
    } else if s[0] == '>' {
        seq![in_color(s.take(1), TAG)] + xml_spans(s.skip(1), marks_vars)
    } else if s[0] == '"' || s[0] == '\'' {
        let n = quoted_len(s);
        if 0 < n <= s.len() {
            marked(s.take(n), Style::colored(STRING), marks_vars) + attr_spans(s.skip(n), marks_vars)
        } else {
            Seq::empty()
        }
    } else if is_white(s[0]) || s[0] == '=' || s[0] == '/' {
        seq![in_color(s.take(1), PUNCT)] + attr_spans(s.skip(1), marks_vars)
    } else {
        let n = run(s, Class::AttrName) as int;
        if 0 < n <= s.len() {
            seq![in_color(s.take(n), KEY)] + attr_spans(s.skip(n), marks_vars)
        } else {
            Seq::empty()
        }
    }
}

proof fn lemma_tag_len(s: Seq<char>)
    requires
        s.len() > 0,
    ensures
        0 < tag_len(s) <= s.len(),
{
    lemma_run(s.skip(1), Class::Opening);
    let n = 1 + run(s.skip(1), Class::Opening);
    lemma_run(s.skip(n as int), Class::TagName);
}

proof fn lemma_quoted_len(s: Seq<char>)
    requires
        s.len() > 0,
    ensures
        0 < quoted_len(s) <= s.len(),
{
    lemma_run(s.skip(1), Class::InDouble);
    lemma_run(s.skip(1), Class::InSingle);
}

proof fn lemma_shift(held: Seq<SpanView>, token: Seq<SpanView>, tail: Seq<SpanView>)
    ensures
        held + token + tail == held + (token + tail),
{
    assert(held + token + tail =~= held + (token + tail));
}

fn xml_line(line: &str, marks_vars: bool) -> (r: Line)
    ensures
        r@ == line_of(xml_spans(line@, marks_vars)),
{
    let v = chars(line);
    let c = v.as_slice();
    let mut spans: Vec<Span> = Vec::new();
    let mut i: usize = 0;
    let mut in_tag: bool = false;
    assert(line@.skip(0) =~= line@);
    assert(views(spans@) + xml_spans(line@, marks_vars) =~= xml_spans(line@, marks_vars));
    while i < c.len()
        invariant
            i <= c@.len(),
            c@ == line@,
            views(spans@) + (if in_tag {
                attr_spans(line@.skip(i as int), marks_vars)
            } else {
                xml_spans(line@.skip(i as int), marks_vars)
            }) == xml_spans(line@, marks_vars),
        decreases c@.len() - i,
    {
        let ghost s = line@.skip(i as int);
        let ghost held = views(spans@);
        let x = c[i];
        let start = i;
        if !in_tag {
            if x != '<' {
                proof {
                    lemma_run(s, Class::Outside);
                }
                let ghost n = run(s, Class::Outside) as int;
                i = i + run_len(c, i, Class::Outside);
                let text = text_between(c, start, i);
                assert(text@ =~= s.take(n));
                assert(line@.skip(i as int) =~= s.skip(n));
                push_text(&mut spans, text.as_str(), Style::plain(), marks_vars);
                proof {
                    lemma_shift(
                        held,
                        marked(s.take(n), Style::none(), marks_vars),
                        xml_spans(s.skip(n), marks_vars),
                    );
                }
            } else {
                proof {
                    lemma_tag_len(s);
                }
                let ghost n = tag_len(s);
                i = i + 1;
                assert(c@.skip(i as int) =~= s.skip(1));
                i = i + run_len(c, i, Class::Opening);
                assert(c@.skip(i as int) =~= s.skip(i - start));
                i = i + run_len(c, i, Class::TagName);
                let text = text_between(c, start, i);
                assert(text@ =~= s.take(n));
                assert(line@.skip(i as int) =~= s.skip(n));
                spans.push(Span::styled(text.as_str(), Style::color(TAG)));
                in_tag = true;
                assert(views(spans@) =~= held + seq![in_color(s.take(n), TAG)]);
                proof {
                    lemma_shift(
                        held,
                        seq![in_color(s.take(n), TAG)],
                        attr_spans(s.skip(n), marks_vars),
                    );
                }
            }
        } else if x == '>' {
            i += 1;
            let text = text_between(c, start, i);
            assert(text@ =~= s.take(1));
            assert(line@.skip(i as int) =~= s.skip(1));
            spans.push(Span::styled(text.as_str(), Style::color(TAG)));
            in_tag = false;
            assert(views(spans@) =~= held + seq![in_color(s.take(1), TAG)]);
            proof {
                lemma_shift(held, seq![in_color(s.take(1), TAG)], xml_spans(s.skip(1), marks_vars));
            }
        } else if x == '"' || x == '\'' {
            proof {
                lemma_quoted_len(s);
            }
            let ghost n = quoted_len(s);
            i = i + 1;
            assert(c@.skip(i as int) =~= s.skip(1));
            i = i + run_len(
                c,
                i,
                if x == '"' {
                    Class::InDouble
                } else {
                    Class::InSingle
                },
            );
            if i < c.len() {
                i += 1;
            }
            let text = text_between(c, start, i);
            assert(text@ =~= s.take(n));
            assert(line@.skip(i as int) =~= s.skip(n));
            push_text(&mut spans, text.as_str(), Style::color(STRING), marks_vars);
            proof {
                lemma_shift(
                    held,
                    marked(s.take(n), Style::colored(STRING), marks_vars),
                    attr_spans(s.skip(n), marks_vars),
                );
            }
        } else if white(x) || x == '=' || x == '/' {
            i += 1;
            let text = text_between(c, start, i);
            assert(text@ =~= s.take(1));
            assert(line@.skip(i as int) =~= s.skip(1));
            spans.push(Span::styled(text.as_str(), Style::color(PUNCT)));
            assert(views(spans@) =~= held + seq![in_color(s.take(1), PUNCT)]);
            proof {
                lemma_shift(held, seq![in_color(s.take(1), PUNCT)], attr_spans(s.skip(1), marks_vars));
            }
        } else {
            proof {
                lemma_run(s, Class::AttrName);
            }
            let ghost n = run(s, Class::AttrName) as int;
            i = i + run_len(c, i, Class::AttrName);
            let text = text_between(c, start, i);
            assert(text@ =~= s.take(n));
            assert(line@.skip(i as int) =~= s.skip(n));
            spans.push(Span::styled(text.as_str(), Style::color(KEY)));
            assert(views(spans@) =~= held + seq![in_color(s.take(n), KEY)]);
            proof {
                lemma_shift(held, seq![in_color(s.take(n), KEY)], attr_spans(s.skip(n), marks_vars));
            }
        }
    }
    assert(views(spans@) =~= views(spans@) + Seq::<SpanView>::empty());
    Line::from_spans(spans)
}

// ----- whole texts -----

/// The spans of one line.
pub open spec fn line_spans(line: Seq<char>, syntax: Syntax, marks_vars: bool) -> Seq<SpanView> {
    match syntax {
        Syntax::Json => json_spans(line, marks_vars),
        Syntax::Xml => xml_spans(line, marks_vars),
        Syntax::Plain => marked(line, Style::none(), marks_vars),
    }
}

/// One highlighted line per line of the text.
pub open spec fn highlighted(text: Seq<char>, marks_vars: bool) -> Seq<LineView> {
    let lines = split(text, '\n');
    Seq::new(
        lines.len(),
        |i: int| line_of(line_spans(lines[i], syntax_of(text), marks_vars)),
    )
}

/// Highlight `text`, one [`Line`] per input line.
///
/// `marks_vars` additionally paints `{{variable}}` placeholders: wanted in the
/// request body, where they are live template syntax, but not in a response,
/// where the same braces are just bytes the server sent.
pub fn highlight(text: &str, marks_vars: bool) -> (r: Vec<Line>)
    ensures
        views(r@) == highlighted(text@, marks_vars),
{
    let syntax = detect(text);
    let lines = split_str(text, '\n');
    let ghost all = views(lines@);
    let ghost goal = highlighted(text@, marks_vars);
    let mut out: Vec<Line> = Vec::new();
    let mut i: usize = 0;
    while i < lines.len()
        invariant
            i <= lines@.len(),
            all == views(lines@),
            all == split(text@, '\n'),
            syntax == syntax_of(text@),
            goal == highlighted(text@, marks_vars),
            views(out@) == goal.take(i as int),
        decreases lines@.len() - i,
    {
        assert(all[i as int] == lines@[i as int]@);
        let line = match syntax {
            Syntax::Json => json_line(lines[i].as_str(), marks_vars),
            Syntax::Xml => xml_line(lines[i].as_str(), marks_vars),
            Syntax::Plain => {
                let mut spans: Vec<Span> = Vec::new();
                push_text(&mut spans, lines[i].as_str(), Style::plain(), marks_vars);
                assert(views(spans@) =~= marked(lines@[i as int]@, Style::none(), marks_vars));
                Line::from_spans(spans)
            },
        };
        out.push(line);
        i += 1;
        assert(views(out@) =~= goal.take(i as int));
    }
    assert(goal.take(lines@.len() as int) =~= goal);
    out
}

// ----- laws -----

proof fn lemma_marked_text(text: Seq<char>, style: Style)
    ensures
        spans_text(marked_from(text, style)) == text,
    decreases text.len(),
{
    lemma_remainder_text(text, style);
    match find(text, "{{"@) {
        Some(start) => match find(text.skip(start + 2), "}}"@) {
            Some(end) => {
                let stop = start + 2 + end + 2;
                if 0 <= start && 0 <= end && stop <= text.len() {
                    let var = SpanView { text: text.subrange(start, stop), style: variable_style() };
                    let lead = if start > 0 {
                        seq![SpanView { text: text.take(start), style }]
                    } else {
                        Seq::empty()
                    };
                    let tail = marked_from(text.skip(stop), style);
                    lemma_marked_text(text.skip(stop), style);
                    lemma_spans_text_add(lead + seq![var], tail);
                    lemma_spans_text_add(lead, seq![var]);
                    lemma_spans_text_one(var);
                    if start > 0 {
                        lemma_spans_text_one(SpanView { text: text.take(start), style });
                    }
                    assert(spans_text(lead) =~= text.take(start));
                    assert(text.take(start) + text.subrange(start, stop) + text.skip(stop) =~= text);
                }
            },
            None => {},
        },
        None => {},
    }
}

proof fn lemma_remainder_text(text: Seq<char>, style: Style)
    ensures
        spans_text(remainder(text, style)) == text,
{
    if text.len() == 0 {
        assert(text =~= Seq::empty());
    } else {
        lemma_spans_text_one(SpanView { text, style });
    }
}

proof fn lemma_json_text(s: Seq<char>, marks_vars: bool)
    ensures
        spans_text(json_spans(s, marks_vars)) == s,
    decreases s.len(),
{
    if s.len() == 0 {
        assert(s =~= Seq::empty());
    } else {
        lemma_json_token(s);
        let n = json_token(s);
        let token = json_token_spans(s, n, marks_vars);
        let text = s.take(n);
        lemma_marked_text(text, Style::colored(KEY));
        lemma_marked_text(text, Style::colored(STRING));
        lemma_remainder_text(text, Style::colored(KEY));
        lemma_remainder_text(text, Style::colored(STRING));
        lemma_spans_text_one(in_color(text, NUMBER));
        lemma_spans_text_one(in_color(text, LITERAL));
        lemma_spans_text_one(in_color(text, Color::Reset));
        lemma_spans_text_one(in_color(text, PUNCT));
        lemma_spans_text_one(SpanView { text, style: Style::none() });
        assert(spans_text(token) == text);
        lemma_json_text(s.skip(n), marks_vars);
        lemma_spans_text_add(token, json_spans(s.skip(n), marks_vars));
        assert(s.take(n) + s.skip(n) =~= s);
    }
}

proof fn lemma_xml_text(s: Seq<char>, in_tag: bool, marks_vars: bool)
    ensures
        in_tag ==> spans_text(attr_spans(s, marks_vars)) == s,
        !in_tag ==> spans_text(xml_spans(s, marks_vars)) == s,
    decreases s.len(),
{
    if s.len() == 0 {
        assert(s =~= Seq::empty());
    } else if !in_tag {
        if s[0] != '<' {
            lemma_run(s, Class::Outside);
            let n = run(s, Class::Outside) as int;
            lemma_marked_text(s.take(n), Style::none());
            lemma_remainder_text(s.take(n), Style::none());
            lemma_xml_text(s.skip(n), false, marks_vars);
            lemma_spans_text_add(
                marked(s.take(n), Style::none(), marks_vars),
                xml_spans(s.skip(n), marks_vars),
            );
            assert(s.take(n) + s.skip(n) =~= s);
        } else {
            lemma_tag_len(s);
            let n = tag_len(s);
            lemma_spans_text_one(in_color(s.take(n), TAG));
            lemma_xml_text(s.skip(n), true, marks_vars);
            lemma_spans_text_add(
                seq![in_color(s.take(n), TAG)],
                attr_spans(s.skip(n), marks_vars),
            );
            assert(s.take(n) + s.skip(n) =~= s);
        }
    } else if s[0] == '>' {
        lemma_spans_text_one(in_color(s.take(1), TAG));
        lemma_xml_text(s.skip(1), false, marks_vars);
        lemma_spans_text_add(seq![in_color(s.take(1), TAG)], xml_spans(s.skip(1), marks_vars));
        assert(s.take(1) + s.skip(1) =~= s);
    } else if s[0] == '"' || s[0] == '\'' {
        lemma_quoted_len(s);
        let n = quoted_len(s);
        lemma_marked_text(s.take(n), Style::colored(STRING));
        lemma_remainder_text(s.take(n), Style::colored(STRING));
        lemma_xml_text(s.skip(n), true, marks_vars);
        lemma_spans_text_add(
            marked(s.take(n), Style::colored(STRING), marks_vars),
            attr_spans(s.skip(n), marks_vars),
        );
        assert(s.take(n) + s.skip(n) =~= s);
    } else if is_white(s[0]) || s[0] == '=' || s[0] == '/' {
        lemma_spans_text_one(in_color(s.take(1), PUNCT));
        lemma_xml_text(s.skip(1), true, marks_vars);
        lemma_spans_text_add(seq![in_color(s.take(1), PUNCT)], attr_spans(s.skip(1), marks_vars));
        assert(s.take(1) + s.skip(1) =~= s);
    } else {
        lemma_run(s, Class::AttrName);
        let n = run(s, Class::AttrName) as int;
        lemma_spans_text_one(in_color(s.take(n), KEY));
        lemma_xml_text(s.skip(n), true, marks_vars);
        lemma_spans_text_add(seq![in_color(s.take(n), KEY)], attr_spans(s.skip(n), marks_vars));
        assert(s.take(n) + s.skip(n) =~= s);
    }
}

/// Every character survives highlighting: the spans of line `i` spell line `i`
/// of the text.
pub proof fn lemma_every_character_survives(text: Seq<char>, marks_vars: bool, i: int)
    requires
        0 <= i < split(text, '\n').len(),
    ensures
        highlighted(text, marks_vars).len() == split(text, '\n').len(),
        spans_text(highlighted(text, marks_vars)[i].spans) == split(text, '\n')[i],
{
    let line = split(text, '\n')[i];
    lemma_json_text(line, marks_vars);
    lemma_xml_text(line, false, marks_vars);
    lemma_marked_text(line, Style::none());
    lemma_remainder_text(line, Style::none());
}

/// The lines of a text, joined again, are the text.
pub proof fn lemma_lines_rejoin(text: Seq<char>)
    ensures
        join(split(text, '\n'), seq!['\n']) == text,
{
    lemma_split_join(text, '\n');
}

proof fn lemma_split_join(s: Seq<char>, c: char)
    ensures
        join(split(s, c), seq![c]) == s,
        split(s, c).len() > 0,
    decreases s.len(),
{
    lemma_find_from(s, seq![c], 0);
    match find(s, seq![c]) {
        Some(i) => {
            let t = s.skip(i + 1);
            lemma_split_join(t, c);
            lemma_join_front(s.take(i), split(t, c), seq![c]);
            assert(s.subrange(i, i + 1) == seq![c]);
            assert(s[i] == s.subrange(i, i + 1)[0]);
            assert(s.take(i) + seq![c] + t =~= s);
        },
        None => {},
    }
}

proof fn lemma_join_front(first: Seq<char>, parts: Seq<Seq<char>>, sep: Seq<char>)
    requires
        parts.len() > 0,
    ensures
        join(seq![first] + parts, sep) == first + sep + join(parts, sep),
    decreases parts.len(),
{
    let all = seq![first] + parts;
    assert(all.drop_last() =~= seq![first] + parts.drop_last());
    if parts.len() == 1 {
        assert(all.drop_last() =~= seq![first]);
        assert(join(all.drop_last(), sep) == first);
    } else {
        lemma_join_front(first, parts.drop_last(), sep);
        assert(join(all, sep) =~= first + sep + join(parts, sep));
    }
}

} // verus!
