//! Which colour each part of a text has.

use vstd::prelude::*;

use crate::highlight::{
    attr_spans, colon_follows, highlighted, in_class, json_spans, marked, marked_from, quoted_len, run, string_end,
    syntax_of, tag_len, xml_spans, Class, Syntax,
};
use crate::style::{Color, SpanView, Style};
use crate::text::{is_white, lacks, lemma_found_after, split, trim_start};

verus! {

/// Text in one colour and nothing else.
pub open spec fn painted(text: Seq<char>, c: Color) -> SpanView {
    SpanView {
        text,
        style: Style { fg: Some(c), bg: None, bold: false, italic: false, underlined: false },
    }
}

/// Text left as it is.
pub open spec fn unpainted(text: Seq<char>) -> SpanView {
    SpanView {
        text,
        style: Style { fg: None, bg: None, bold: false, italic: false, underlined: false },
    }
}

proof fn lemma_string_ends(s: Seq<char>, text: Seq<char>, i: int)
    requires
        lacks(text, '"'),
        lacks(text, '\\'),
        s.len() >= text.len() + 2,
        forall|k: int| 0 <= k < text.len() ==> s[k + 1] == #[trigger] text[k],
        s[1 + text.len() as int] == '"',
        1 <= i <= text.len() + 1,
    ensures
        string_end(s, i) == text.len() + 2,
    decreases text.len() + 2 - i,
{
    if i <= text.len() {
        assert(s[i] == text[i - 1]);
        lemma_string_ends(s, text, i + 1);
    }
}

/// A string of JSON is green, one that a colon follows is a key and cyan.
pub proof fn lemma_json_strings(text: Seq<char>, rest: Seq<char>)
    requires
        lacks(text, '"'),
        lacks(text, '\\'),
    ensures
        ({
            let quoted = seq!['"'] + text + seq!['"'];
            let color = if colon_follows(rest) {
                Color::Cyan
            } else {
                Color::Green
            };
            json_spans(quoted + rest, false) == seq![painted(quoted, color)] + json_spans(rest, false)
        }),
{
    let quoted = seq!['"'] + text + seq!['"'];
    let s = quoted + rest;
    lemma_string_ends(s, text, 1);
    assert(s.take(quoted.len() as int) =~= quoted);
    assert(s.skip(quoted.len() as int) =~= rest);
}

/// A key is followed by a colon, blanks aside.
pub proof fn lemma_colons(rest: Seq<char>)
    ensures
        colon_follows(seq![':'] + rest),
        colon_follows(seq![' ', ':'] + rest),
        !colon_follows(seq![','] + rest),
{
    assert((seq![' ', ':'] + rest).skip(1) =~= seq![':'] + rest);
    assert(trim_start(seq![':'] + rest) == seq![':'] + rest);
    assert(trim_start(seq![' ', ':'] + rest) == trim_start(seq![':'] + rest));
}

/// A run ends where its kind of characters does.
pub proof fn lemma_run_ends(part: Seq<char>, rest: Seq<char>, k: Class)
    requires
        forall|i: int| 0 <= i < part.len() ==> in_class(#[trigger] part[i], k),
        rest.len() == 0 || !in_class(rest[0], k),
    ensures
        run(part + rest, k) == part.len(),
    decreases part.len(),
{
    let all = part + rest;
    if part.len() > 0 {
        assert(all[0] == part[0]);
        assert(all.skip(1) =~= part.skip(1) + rest);
        assert forall|i: int| 0 <= i < part.skip(1).len() implies in_class(
            #[trigger] part.skip(1)[i],
            k,
        ) by {
            assert(part.skip(1)[i] == part[i + 1]);
        }
        lemma_run_ends(part.skip(1), rest, k);
    } else {
        assert(all =~= rest);
    }
}

/// A number of JSON is yellow.
pub proof fn lemma_json_numbers(digits: Seq<char>, rest: Seq<char>, marks: bool)
    requires
        digits.len() > 0,
        forall|i: int| 0 <= i < digits.len() ==> '0' <= #[trigger] digits[i] <= '9',
        rest.len() == 0 || rest[0] == ',' || rest[0] == '}' || rest[0] == ']' || rest[0] == ' ',
    ensures
        json_spans(digits + rest, marks) == seq![painted(digits, Color::Yellow)] + json_spans(
            rest,
            marks,
        ),
{
    let s = digits + rest;
    assert forall|i: int| 0 <= i < digits.len() implies in_class(
        #[trigger] digits[i],
        Class::Numeric,
    ) by {}
    lemma_run_ends(digits, rest, Class::Numeric);
    assert(s[0] == digits[0]);
    assert(s.take(digits.len() as int) =~= digits);
    assert(s.skip(digits.len() as int) =~= rest);
}

/// `true`, `false` and `null` are magenta.
pub proof fn lemma_json_literals(word: Seq<char>, rest: Seq<char>, marks: bool)
    requires
        word == "true"@ || word == "false"@ || word == "null"@,
        rest.len() == 0 || rest[0] == ',' || rest[0] == '}' || rest[0] == ']' || rest[0] == ' ',
    ensures
        json_spans(word + rest, marks) == seq![painted(word, Color::Magenta)] + json_spans(
            rest,
            marks,
        ),
{
    reveal_strlit("true");
    reveal_strlit("false");
    reveal_strlit("null");
    let s = word + rest;
    assert forall|i: int| 0 <= i < word.len() implies in_class(#[trigger] word[i], Class::Word) by {}
    lemma_run_ends(word, rest, Class::Word);
    assert(s[0] == word[0]);
    assert(s.take(word.len() as int) =~= word);
    assert(s.skip(word.len() as int) =~= rest);
}

/// Brackets, commas and colons are grey.
pub proof fn lemma_json_marks(c: char, rest: Seq<char>, marks: bool)
    requires
        c == '{' || c == '}' || c == '[' || c == ']' || c == ',' || c == ':',
    ensures
        json_spans(seq![c] + rest, marks) == seq![painted(seq![c], Color::DarkGray)] + json_spans(
            rest,
            marks,
        ),
{
    let s = seq![c] + rest;
    assert(s[0] == c);
    assert(s.take(1) =~= seq![c]);
    assert(s.skip(1) =~= rest);
}

/// A variable stands out in bold italic magenta where variables count; where they do
/// not, the text stays in one piece.
pub proof fn lemma_variables_stand_out(
    before: Seq<char>,
    name: Seq<char>,
    rest: Seq<char>,
    style: Style,
)
    requires
        before.len() > 0,
        lacks(before, '{'),
        lacks(name, '}'),
    ensures
        ({
            let variable = seq!['{', '{'] + name + seq!['}', '}'];
            let look = Style {
                fg: Some(Color::Magenta),
                bg: None,
                bold: true,
                italic: true,
                underlined: false,
            };
            &&& marked(before + variable + rest, style, true) == seq![
                SpanView { text: before, style },
                SpanView { text: variable, style: look },
            ] + marked(rest, style, true)
            &&& marked(before + variable + rest, style, false) == seq![
                SpanView { text: before + variable + rest, style },
            ]
        }),
{
    reveal_strlit("{{");
    reveal_strlit("}}");
    let open = seq!['{', '{'];
    let close = seq!['}', '}'];
    assert("{{"@ =~= open);
    assert("}}"@ =~= close);
    let variable = open + name + close;
    let text = before + variable + rest;
    let tail = name + close + rest;
    assert(text =~= before + open + tail);
    lemma_found_after(before, open, tail);
    let n = before.len() as int;
    assert(text.skip(n + 2) =~= name + close + rest);
    lemma_found_after(name, close, rest);
    let stop = n + 2 + name.len() + 2;
    assert(text.take(n) =~= before);
    assert(text.subrange(n, stop) =~= variable);
    assert(text.skip(stop) =~= rest);
    let look = Style {
        fg: Some(Color::Magenta),
        bg: None,
        bold: true,
        italic: true,
        underlined: false,
    };
    assert(marked_from(text, style) =~= seq![
        SpanView { text: before, style },
        SpanView { text: variable, style: look },
    ] + marked_from(rest, style));
}

/// Text between tags is left as it is, up to the next tag.
pub proof fn lemma_text_between_tags(text: Seq<char>, rest: Seq<char>)
    requires
        text.len() > 0,
        lacks(text, '<'),
        rest.len() == 0 || rest[0] == '<',
    ensures
        xml_spans(text + rest, false) == seq![unpainted(text)] + xml_spans(rest, false),
{
    let s = text + rest;
    assert forall|i: int| 0 <= i < text.len() implies in_class(#[trigger] text[i], Class::Outside) by {}
    lemma_run_ends(text, rest, Class::Outside);
    assert(s[0] == text[0]);
    assert(s.take(text.len() as int) =~= text);
    assert(s.skip(text.len() as int) =~= rest);
}

/// A tag's name and its bracket are blue.
pub proof fn lemma_tags(name: Seq<char>, rest: Seq<char>)
    requires
        name.len() > 0,
        forall|i: int| 0 <= i < name.len() ==> in_class(#[trigger] name[i], Class::TagName),
        name[0] != '!' && name[0] != '?',
    ensures
        xml_spans(seq!['<'] + name + seq!['>'] + rest, false) == seq![
            painted(seq!['<'] + name, Color::Blue),
            painted(seq!['>'], Color::Blue),
        ] + xml_spans(rest, false),
{
    let s = seq!['<'] + name + seq!['>'] + rest;
    let inner = s.skip(1);
    assert(inner =~= name + (seq!['>'] + rest));
    assert(inner[0] == name[0]);
    assert(in_class(name[0], Class::TagName));
    assert(run(inner, Class::Opening) == 0);
    lemma_run_ends(name, seq!['>'] + rest, Class::TagName);
    let n = 1 + name.len() as int;
    assert(s.take(n) =~= seq!['<'] + name);
    let tail = s.skip(n);
    assert(tail =~= seq!['>'] + rest);
    assert(tail[0] == '>');
    assert(tail.take(1) =~= seq!['>']);
    assert(tail.skip(1) =~= rest);
    assert(tag_len(s) == n);
    assert(attr_spans(tail, false) == seq![painted(seq!['>'], Color::Blue)] + xml_spans(rest, false));
    assert(xml_spans(s, false) == seq![painted(seq!['<'] + name, Color::Blue)] + attr_spans(
        tail,
        false,
    ));
    assert(xml_spans(s, false) =~= seq![
        painted(seq!['<'] + name, Color::Blue),
        painted(seq!['>'], Color::Blue),
    ] + xml_spans(rest, false));
}

/// A text is taken for JSON or markup by its first character that is no blank.
pub proof fn lemma_syntaxes(text: Seq<char>)
    requires
        text.len() > 0,
        !is_white(text[0]),
    ensures
        text[0] == '{' || text[0] == '[' ==> syntax_of(text) == Syntax::Json,
        text[0] == '<' ==> syntax_of(text) == Syntax::Xml,
        text[0] != '{' && text[0] != '[' && text[0] != '<' ==> syntax_of(text) == Syntax::Plain,
        syntax_of(seq![' '] + text) == syntax_of(text),
{
    assert((seq![' '] + text).skip(1) =~= text);
    assert(trim_start(text) == text);
    assert(trim_start(seq![' '] + text) == trim_start(text));
}

/// Each line of a text is coloured by the syntax of the whole.
pub proof fn lemma_lines_are_coloured(text: Seq<char>, marks: bool, i: int)
    requires
        0 <= i < split(text, '\n').len(),
    ensures
        syntax_of(text) == Syntax::Json ==> highlighted(text, marks)[i].spans == json_spans(
            split(text, '\n')[i],
            marks,
        ),
        syntax_of(text) == Syntax::Xml ==> highlighted(text, marks)[i].spans == xml_spans(
            split(text, '\n')[i],
            marks,
        ),
        syntax_of(text) == Syntax::Plain ==> highlighted(text, marks)[i].spans == marked(
            split(text, '\n')[i],
            Style { fg: None, bg: None, bold: false, italic: false, underlined: false },
            marks,
        ),
{
}

/// The value of an attribute is green, its name cyan, and what stands between grey.
pub proof fn lemma_attributes(name: Seq<char>, value: Seq<char>, rest: Seq<char>)
    requires
        name.len() > 0,
        forall|i: int| 0 <= i < name.len() ==> in_class(#[trigger] name[i], Class::AttrName),
        lacks(value, '"'),
    ensures
        ({
            let quoted = seq!['"'] + value + seq!['"'];
            attr_spans(name + seq!['='] + quoted + rest, false) == seq![
                painted(name, Color::Cyan),
                painted(seq!['='], Color::DarkGray),
                painted(quoted, Color::Green),
            ] + attr_spans(rest, false)
        }),
{
    let quoted = seq!['"'] + value + seq!['"'];
    let s = name + seq!['='] + quoted + rest;
    let after_name = seq!['='] + quoted + rest;
    let after_equals = quoted + rest;
    assert(s =~= name + after_name);
    assert(s[0] == name[0]);
    assert(in_class(name[0], Class::AttrName));
    lemma_run_ends(name, after_name, Class::AttrName);
    assert(s.take(name.len() as int) =~= name);
    assert(s.skip(name.len() as int) =~= after_name);
    assert(attr_spans(s, false) == seq![painted(name, Color::Cyan)] + attr_spans(after_name, false));
    assert(after_name[0] == '=');
    assert(after_name.take(1) =~= seq!['=']);
    assert(after_name.skip(1) =~= after_equals);
    assert(attr_spans(after_name, false) == seq![painted(seq!['='], Color::DarkGray)] + attr_spans(
        after_equals,
        false,
    ));
    assert(after_equals[0] == '"');
    assert(after_equals.skip(1) =~= value + (seq!['"'] + rest));
    assert forall|i: int| 0 <= i < value.len() implies in_class(#[trigger] value[i], Class::InDouble) by {}
    lemma_run_ends(value, seq!['"'] + rest, Class::InDouble);
    assert(quoted_len(after_equals) == quoted.len());
    assert(after_equals.take(quoted.len() as int) =~= quoted);
    assert(after_equals.skip(quoted.len() as int) =~= rest);
    assert(attr_spans(after_equals, false) == seq![painted(quoted, Color::Green)] + attr_spans(
        rest,
        false,
    ));
    assert(attr_spans(s, false) =~= seq![
        painted(name, Color::Cyan),
        painted(seq!['='], Color::DarkGray),
        painted(quoted, Color::Green),
    ] + attr_spans(rest, false));
}

} // verus!
