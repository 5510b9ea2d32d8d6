//! What is on the screen: the lines of each pane, and their colours.

use cielago::app::{App, EditTarget, EditorTab, Mode, TableId};
use cielago::http::HttpResponse;
use cielago::model::{
    AuthKind, AuthStyle, Collection, FieldDoc, KeyValueRow, Method, OAuthConfig, SavedRequest,
};
use cielago::store::AppConfig;
use cielago::style::{Color, Line};
use cielago::ui::{
    auth_lines, body_lines, body_offset, centered_offset, checkbox, docs_lines, focused, help_lines,
    help_title, method_color, response_lines, response_title, server_lines, settle_docs, settle_help,
    settle_response, sidebar_lines, sidebar_title, status_bar, table_hint, table_lines,
    table_selection, toggle_row, url_line, url_title, StatusBar,
};

fn test_app() -> App {
    let mut c = Collection::new("test");
    c.servers = vec!["https://one.example.com".into()];
    let mut create = SavedRequest::blank("createPet");
    create.method = Method::Post;
    create.path = "/pets".into();
    create.body =
        Some("{\n  \"name\": \"{{petName}}\",\n  \"legs\": 4,\n  \"good\": true\n}".into());
    c.requests = vec![create];
    App::new(c, "/tmp/cielago-ui-test.json".to_string(), AppConfig::default())
}

fn line_text(l: &Line) -> String {
    l.spans.iter().map(|s| s.text.as_str()).collect()
}

fn text(lines: &[Line]) -> String {
    lines.iter().map(line_text).collect::<Vec<_>>().join("\n")
}

/// Foreground colour of the first piece of text that starts with `needle`.
fn fg_of(lines: &[Line], needle: &str) -> Option<Color> {
    for l in lines {
        for s in &l.spans {
            if s.text.starts_with(needle) {
                return s.style.fg.or(l.style.fg);
            }
        }
    }
    panic!("{needle:?} not on screen");
}

fn bar_text(app: &App) -> String {
    match status_bar(app) {
        StatusBar::Prompt { text, .. } => text,
        StatusBar::Info(line) => line_text(&line),
    }
}

fn bar_cursor(app: &App) -> usize {
    match status_bar(app) {
        StatusBar::Prompt { cursor, .. } => cursor,
        StatusBar::Info(_) => panic!("no prompt"),
    }
}

#[test]
fn body_view_is_syntax_highlighted() {
    let mut app = test_app();
    app.tab = EditorTab::Body;
    let lines = body_lines(&app).unwrap();

    assert_eq!(fg_of(&lines, "\"name\""), Some(Color::Cyan), "object key");
    assert_eq!(fg_of(&lines, "4"), Some(Color::Yellow), "number");
    assert_eq!(fg_of(&lines, "true"), Some(Color::Magenta), "literal");
    // Variables stand out from the string they sit in.
    assert_eq!(fg_of(&lines, "{{petName}}"), Some(Color::Magenta));
}

#[test]
fn body_falls_back_to_the_plain_textarea_while_editing() {
    let mut app = test_app();
    app.tab = EditorTab::Body;
    app.mode = Mode::Insert;
    assert!(app.textarea.lines().join("\n").contains("\"name\""));
    assert!(body_lines(&app).is_none());
    // Editing a single line elsewhere is not editing the body.
    app.start_edit(EditTarget::Rename);
    assert!(body_lines(&app).is_some());
}

#[test]
fn response_view_is_syntax_highlighted() {
    let mut app = test_app();
    app.response = Some(HttpResponse {
        status: 200,
        reason: "OK".into(),
        elapsed_ms: 12,
        headers: vec![("content-type".into(), "application/json".into())],
        body: "{\n  \"id\": \"{{notavar}}\",\n  \"count\": 7\n}".into(),
        size: 40,
    });
    assert!(response_title(&app).contains("200 OK · 12ms"));
    let lines = response_lines(&app);
    assert_eq!(fg_of(&lines, "\"id\""), Some(Color::Cyan));
    assert_eq!(fg_of(&lines, "7"), Some(Color::Yellow));
    // Braces in a response are the server's bytes, not template syntax.
    assert_eq!(fg_of(&lines, "\"{{notavar}}\""), Some(Color::Green));
}

#[test]
fn xml_response_is_syntax_highlighted() {
    let mut app = test_app();
    app.response = Some(HttpResponse {
        status: 500,
        reason: "Internal Server Error".into(),
        elapsed_ms: 3,
        headers: Vec::new(),
        body: "<error code=\"500\">boom</error>".into(),
        size: 30,
    });
    let lines = response_lines(&app);

    assert_eq!(fg_of(&lines, "<error"), Some(Color::Blue));
    assert_eq!(fg_of(&lines, "code"), Some(Color::Cyan));
    assert_eq!(fg_of(&lines, "\"500\""), Some(Color::Green));
    assert_eq!(fg_of(&lines, "boom"), None);
}

#[test]
fn docs_tab_shows_types_options_and_defaults() {
    let mut app = test_app();
    let req = &mut app.collection.requests[0];
    req.description = Some("Adds a pet to the store.".into());
    let mut tag = FieldDoc::default();
    tag.name = "pets[].tag".into();
    tag.location = "body".into();
    tag.ty = "array<string>".into();
    req.docs = vec![
        FieldDoc {
            name: "status".into(),
            location: "query".into(),
            ty: "string".into(),
            required: true,
            options: vec!["available".into(), "pending".into(), "sold".into()],
            description: Some("Which pets to return.".into()),
            default: Some("available".into()),
        },
        tag,
    ];
    app.tab = EditorTab::Docs;
    let lines = docs_lines(&app);
    let text = text(&lines);

    assert!(text.contains("Adds a pet to the store."), "{text}");
    assert!(text.contains("Query params"), "{text}");
    assert!(text.contains("status*"), "required marker: {text}");
    assert!(
        text.contains("one of: available | pending | sold"),
        "enum options: {text}"
    );
    assert!(text.contains("= available"), "default: {text}");
    assert!(text.contains("Which pets to return."), "{text}");
    assert!(text.contains("Body"), "{text}");
    assert!(text.contains("pets[].tag"), "{text}");
    assert_eq!(fg_of(&lines, "array<string>"), Some(Color::Yellow));
}

#[test]
fn docs_tab_explains_itself_when_there_is_nothing_to_show() {
    let mut app = test_app();
    app.tab = EditorTab::Docs;
    let text = text(&docs_lines(&app));
    assert!(text.contains("No spec docs for this request"), "{text}");
}

#[test]
fn renders_without_panicking_in_edge_cases() {
    // Empty body, long body scrolled to the bottom, offsets far out.
    let mut app = test_app();
    app.tab = EditorTab::Body;
    app.set_textarea_text("");
    assert_eq!(body_lines(&app).unwrap().len(), 1);
    assert_eq!(body_offset(&app, 1), 0);
    assert_eq!(body_offset(&app, 0), 0);

    app.set_textarea_text(&(1..=200).map(|i| format!("[{i}]\n")).collect::<String>());
    cielago::input::handle_key(
        &mut app,
        cielago::keys::KeyEvent::new(
            cielago::keys::KeyCode::Char('2'),
            cielago::keys::KeyModifiers::none(),
        ),
    );
    cielago::input::handle_key(
        &mut app,
        cielago::keys::KeyEvent::new(
            cielago::keys::KeyCode::Char('G'),
            cielago::keys::KeyModifiers::none(),
        ),
    );
    let lines = body_lines(&app).unwrap();
    assert_eq!(lines.len(), 200);
    assert_eq!(body_offset(&app, lines.len()), 199);

    app.tab = EditorTab::Docs;
    app.docs_scroll = usize::MAX / 2;
    let n = docs_lines(&app).len();
    settle_docs(&mut app, n, 3);
    assert_eq!(app.docs_scroll, n - 3);
    settle_docs(&mut app, n, 40);
    assert_eq!(app.docs_scroll, 0);

    app.popup = cielago::app::Popup::Help;
    app.help_scroll = usize::MAX / 2;
    let n = help_lines().len();
    settle_help(&mut app, n, 10);
    assert_eq!(app.help_scroll, n - 10);
    assert_eq!(help_title(&app, n, 10), " Help — Esc to close ");
    app.help_scroll = 0;
    assert_eq!(help_title(&app, n, 10), " Help — j/k scroll · Esc to close ");

    // A collection with no requests at all: there is nothing to draw in the URL
    // bar or the editor.
    let empty = App::new(
        Collection::new("empty"),
        "/tmp/cielago-ui-empty.json".to_string(),
        AppConfig::default(),
    );
    assert!(sidebar_lines(&empty).is_empty());
    assert_eq!(url_title(&empty), " cielago ");
    assert!(line_text(&url_line(&empty)).starts_with("No request selected"));
    assert_eq!(text(&docs_lines(&empty)), "No request selected.");
    assert!(table_lines(&empty, TableId::Params).is_empty());
    assert_eq!(table_selection(&empty, TableId::Headers), None);
}

#[test]
fn url_edit_prompt_shows_in_the_status_bar() {
    let mut app = test_app();
    app.start_edit(EditTarget::Url);
    assert!(bar_text(&app).contains("url> /pets"));
}

#[test]
fn help_lists_duplicate_and_new_collection() {
    let all = text(&help_lines());
    assert!(all.contains("duplicate"));
    assert!(all.contains("edit URL"));
    assert!(all.contains(":new"));
    assert!(all.contains(":open"));
}

#[test]
fn help_has_bold_headings_and_every_dynamic_variable() {
    let lines = help_lines();
    assert!(lines[0].style.bold);
    assert!(!lines[1].style.bold);
    for (name, help) in cielago::http::dynamic_vars() {
        let row = lines.iter().find(|l| line_text(l).starts_with(&format!("  {name:<15}"))).unwrap();
        assert!(line_text(row).ends_with(help));
    }
}

#[test]
fn sidebar_shows_groups_verbs_and_labels() {
    let mut app = test_app();
    assert_eq!(sidebar_title(&app), " test ");
    let lines = sidebar_lines(&app);
    assert_eq!(text(&lines), "▾ default\n  POST   createPet");
    assert_eq!(fg_of(&lines, "  POST"), Some(Color::Yellow));
    assert!(lines[0].spans[0].style.bold);
    app.collapsed.insert("default");
    app.rebuild_sidebar();
    assert_eq!(text(&sidebar_lines(&app)), "▸ default");
    app.filter = "x".to_string();
    assert_eq!(sidebar_title(&app), " test — /x ");
}

#[test]
fn selection_stays_in_the_middle() {
    assert_eq!(centered_offset(0, 100, 10), 0);
    assert_eq!(centered_offset(50, 100, 10), 45);
    assert_eq!(centered_offset(99, 100, 10), 90);
    assert_eq!(centered_offset(3, 5, 10), 0);
    assert_eq!(centered_offset(3, 5, 0), 0);
    for sel in 0..30 {
        let o = centered_offset(sel, 30, 7);
        assert!(o <= sel && sel < o + 7 && o + 7 <= 30);
    }
}

#[test]
fn url_bar_names_the_server() {
    let mut app = test_app();
    assert_eq!(url_title(&app), " createPet — p: edit url ");
    assert_eq!(line_text(&url_line(&app)), " POST   https://one.example.com/pets");
    app.collection.servers.clear();
    assert_eq!(line_text(&url_line(&app)), " POST   <no server — press E>/pets");
}

#[test]
fn tables_show_switches_and_places() {
    let mut app = test_app();
    app.collection.requests[0].path_params = vec![KeyValueRow::new("id", "7", true)];
    app.collection.requests[0].query = vec![KeyValueRow::new("q", "x", false)];
    let lines = table_lines(&app, TableId::Params);
    assert_eq!(lines[0].cells, vec!["[x]", "path", "id", "7"]);
    assert_eq!(lines[1].cells, vec!["[ ]", "query", "q", "x"]);
    assert!(lines[0].enabled && !lines[1].enabled);
    assert_eq!(table_selection(&app, TableId::Params), Some(0));
    assert_eq!(table_selection(&app, TableId::Vars), None);
    app.collection.variables = vec![KeyValueRow::new("v", "1", true)];
    assert_eq!(table_lines(&app, TableId::Vars)[0].cells, vec!["[x]", "v", "1"]);
    assert!(table_hint(TableId::Vars).contains("{{name}}"));
    assert!(table_hint(TableId::Headers).contains("Enter: send"));
    assert_eq!((checkbox(true), checkbox(false)), ("[x]", "[ ]"));
}

#[test]
fn response_pane_says_what_is_going_on() {
    let mut app = test_app();
    assert_eq!(response_title(&app), " Response ");
    assert!(text(&response_lines(&app)).starts_with("No response yet"));
    app.sending = true;
    assert_eq!(response_title(&app), " Response — sending… ");
    app.response = Some(HttpResponse {
        status: 200,
        reason: "OK".into(),
        elapsed_ms: 1,
        headers: Vec::new(),
        body: "a\nb\nc\n".into(),
        size: 6,
    });
    app.response_scroll = 99;
    settle_response(&mut app);
    assert_eq!(app.response_scroll, 2);
}

#[test]
fn status_bar_follows_the_mode() {
    let mut app = test_app();
    app.dirty = true;
    assert_eq!(
        bar_text(&app),
        " NORMAL  test* | https://one.example.com | Press ? for help "
    );
    app.mode = Mode::Insert;
    app.collection.servers.clear();
    assert!(bar_text(&app).starts_with(" INSERT  test* | no server |"));
    app.mode = Mode::Command;
    app.command = "wq".to_string();
    assert_eq!((bar_text(&app).as_str(), bar_cursor(&app)), (":wq", 3));
    app.mode = Mode::Search;
    app.search.set("é");
    assert_eq!((bar_text(&app).as_str(), bar_cursor(&app)), ("/é", 2));
    app.start_edit(EditTarget::EnvNew);
    app.input.set("ab");
    app.input.left();
    assert_eq!((bar_text(&app).as_str(), bar_cursor(&app)), ("server url> ab", 13));
}

#[test]
fn servers_mark_the_active_one() {
    let mut app = test_app();
    app.collection.servers.push("https://two".into());
    app.collection.active_server = 1;
    assert_eq!(server_lines(&app), vec!["  https://one.example.com", "● https://two"]);
}

#[test]
fn auth_popup_masks_secrets() {
    let mut app = test_app();
    let mut cfg = OAuthConfig::blank(AuthKind::Oauth2);
    cfg.client_id = "id".into();
    cfg.client_secret = "hunter2".into();
    cfg.scopes = vec!["a".into(), "b".into()];
    cfg.auth_style = AuthStyle::Post;
    app.collection.auth = Some(cfg);
    app.open_auth_popup();
    let lines = auth_lines(&app);
    let all = text(&lines);
    assert!(!all.contains("hunter2"));
    assert!(all.contains("••••••••"));
    assert_eq!(line_text(&lines[1]), format!(" {:<28}id", "Client ID"));
    assert!(line_text(&lines[3]).ends_with("a b"));
    assert!(line_text(&lines[4]).ends_with(" basic  [post]"));
    assert!(line_text(&lines[5]).ends_with(" bearer  apikey  [oauth2]"));
    assert_eq!(lines[0].style.bg, Some(Color::DarkGray));
    assert_eq!(lines[1].style.bg, None);
    assert!(all.contains("secret fields accept $(cmd)"));
    assert_eq!(lines.len(), 8);
    assert_eq!(toggle_row(&vec!["a", "b"], 0), "[a]  b");
    assert_eq!(toggle_row(&vec!["bearer", "apikey", "oauth2"], 0), "[bearer]  apikey  oauth2");
}

#[test]
fn colours() {
    assert_eq!(method_color(Method::Get), Color::Green);
    assert_eq!(method_color(Method::Put), Color::Blue);
    assert_eq!(method_color(Method::Patch), Color::Magenta);
    assert_eq!(method_color(Method::Delete), Color::Red);
    assert_eq!(method_color(Method::Head), Color::Cyan);
    assert_eq!(method_color(Method::Options), Color::Gray);
    assert_eq!(focused(true).fg, Some(Color::Cyan));
    assert_eq!(focused(false).fg, Some(Color::DarkGray));
}
