//! Syntax highlighting.

use cielago::highlight::{
    detect, guess_extension, highlight, Syntax, KEY, LITERAL, NUMBER, PUNCT, STRING, TAG,
};
use cielago::style::{Color, Line};

/// (text, fg colour) pairs, for asserting on what a line renders as.
fn tokens(line: &Line) -> Vec<(String, Option<Color>)> {
    line.spans
        .iter()
        .map(|s| (s.text.clone(), s.style.fg))
        .collect()
}

fn colored(line: &Line, text: &str) -> Option<Color> {
    tokens(line)
        .into_iter()
        .find(|(t, _)| t == text)
        .and_then(|(_, c)| c)
}

fn rendered(text: &str, marks_vars: bool) -> String {
    highlight(text, marks_vars)
        .iter()
        .map(|l| l.spans.iter().map(|s| s.text.as_str()).collect::<String>())
        .collect::<Vec<_>>()
        .join("\n")
}

#[test]
fn detects_syntax_from_first_char() {
    assert_eq!(detect("  {\"a\": 1}"), Syntax::Json);
    assert_eq!(detect("[1]"), Syntax::Json);
    assert_eq!(detect("<html>"), Syntax::Xml);
    assert_eq!(detect("plain words"), Syntax::Plain);
    assert_eq!(detect(""), Syntax::Plain);
}

#[test]
fn json_keys_and_values_differ() {
    let lines = highlight(
        "{\n  \"name\": \"ada\",\n  \"n\": -1.5e3,\n  \"ok\": true\n}",
        false,
    );
    assert_eq!(lines.len(), 5);
    assert_eq!(colored(&lines[1], "\"name\""), Some(KEY));
    assert_eq!(colored(&lines[1], "\"ada\""), Some(STRING));
    assert_eq!(colored(&lines[2], "-1.5e3"), Some(NUMBER));
    assert_eq!(colored(&lines[3], "true"), Some(LITERAL));
    assert_eq!(colored(&lines[0], "{"), Some(PUNCT));
}

#[test]
fn json_strings_keep_escapes_and_colons_inside() {
    let lines = highlight("{\"a\": \"x\\\": y\"}", false);
    assert_eq!(colored(&lines[0], "\"a\""), Some(KEY));
    // The escaped quote must not end the string early, and the `:` inside it
    // must not promote the value to a key.
    assert_eq!(colored(&lines[0], "\"x\\\": y\""), Some(STRING));
}

#[test]
fn unterminated_json_string_does_not_panic() {
    let lines = highlight("{\"a\": \"oops", false);
    assert_eq!(colored(&lines[0], "\"oops"), Some(STRING));
}

#[test]
fn every_character_survives_highlighting() {
    for text in [
        "{\"a\": [1, 2, {\"b\": null}], \"c\": \"é☃\"}",
        "<a href=\"/x\">hi &amp; bye</a>",
        "not markup at all",
    ] {
        assert_eq!(rendered(text, true), text);
    }
}

#[test]
fn xml_tags_attributes_and_text() {
    let lines = highlight("<a href=\"/x\">hi</a>", false);
    assert_eq!(colored(&lines[0], "<a"), Some(TAG));
    assert_eq!(colored(&lines[0], "href"), Some(KEY));
    assert_eq!(colored(&lines[0], "\"/x\""), Some(STRING));
    assert_eq!(colored(&lines[0], "hi"), None);
    assert_eq!(colored(&lines[0], "</a"), Some(TAG));
}

#[test]
fn variables_are_marked_only_when_asked() {
    let body = "{\"id\": \"{{uuid}}\"}";
    let marked = highlight(body, true);
    assert_eq!(colored(&marked[0], "{{uuid}}"), Some(LITERAL));
    assert_eq!(colored(&marked[0], "\""), Some(STRING));

    let plain = highlight(body, false);
    assert_eq!(colored(&plain[0], "\"{{uuid}}\""), Some(STRING));
}

#[test]
fn unclosed_variable_is_left_alone() {
    let lines = highlight("value {{oops", true);
    assert_eq!(tokens(&lines[0]).len(), 1);
}

#[test]
fn lines_come_back_one_for_one() {
    for text in ["", "\n", "a\n\nb", "{\n}\n", "<a>\n text\n</a>", "\"open\n\" x"] {
        assert_eq!(highlight(text, false).len(), text.split('\n').count());
        assert_eq!(rendered(text, false), text);
        assert_eq!(rendered(text, true), text);
    }
}

#[test]
fn extensions_follow_the_syntax() {
    assert_eq!(guess_extension(" [1]"), "json");
    assert_eq!(guess_extension("<a/>"), "xml");
    assert_eq!(guess_extension("hello"), "txt");
    assert_eq!(guess_extension(""), "txt");
}
