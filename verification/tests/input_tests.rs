//! State-machine tests for the TUI: synthetic key events drive `input::handle_key`
//! directly (no terminal needed).

use cielago::app::{App, EditTarget, EditorTab, Focus, Mode, Popup, SidebarRow};
use cielago::input::handle_key;
use cielago::keys::{KeyCode, KeyEvent, KeyModifiers};
use cielago::model::{Collection, KeyValueRow, LabelMode, Method, SavedRequest};
use cielago::store::AppConfig;

fn key(code: KeyCode) -> KeyEvent {
    KeyEvent::new(code, KeyModifiers::none())
}

fn char_key(c: char) -> KeyEvent {
    key(KeyCode::Char(c))
}

fn type_str(app: &mut App, s: &str) {
    for c in s.chars() {
        handle_key(app, char_key(c));
    }
}

fn test_collection() -> Collection {
    let mut c = Collection::new("test");
    c.servers = vec![
        "https://one.example.com".into(),
        "https://two.example.com".into(),
    ];

    let mut list = SavedRequest::blank("listPets");
    list.method = Method::Get;
    list.path = "/pets".into();
    list.tags = vec!["pets".into()];
    list.query.push(KeyValueRow::new("limit", "20", false));
    list.query.push(KeyValueRow::new("filter", "", false));

    let mut create = SavedRequest::blank("createPet");
    create.method = Method::Post;
    create.path = "/pets".into();
    create.tags = vec!["pets".into()];
    create.body = Some("{\n  \"name\": \"Fido\"\n}".into());

    let mut order = SavedRequest::blank("placeOrder");
    order.method = Method::Post;
    order.path = "/orders".into();
    order.tags = vec!["store".into()];

    c.requests = vec![list, create, order];
    c
}

fn test_app() -> App {
    App::new(
        test_collection(),
        "/tmp/cielago-test.json".to_string(),
        AppConfig::default(),
    )
}

#[test]
fn startup_state() {
    let app = test_app();
    assert_eq!(app.mode, Mode::Normal);
    // sidebar: group header + 2 pets requests + group + 1 store request
    assert_eq!(app.sidebar_rows.len(), 5);
    // first request auto-selected, but focus starts on the sidebar
    assert_eq!(app.selected, Some(0));
    assert_eq!(app.focus, Focus::Sidebar);
}

#[test]
fn startup_restores_the_last_open_request() {
    let mut c = test_collection();
    c.last_request = Some(c.requests[2].id);
    let app = App::new(
        c,
        "/tmp/cielago-test.json".to_string(),
        AppConfig::default(),
    );
    assert_eq!(app.selected, Some(2));
    // the sidebar cursor lands on it too, not back at the top
    assert_eq!(app.sidebar_rows[app.sidebar_sel], SidebarRow::Request(2));
    assert_eq!(app.focus, Focus::Sidebar);
}

#[test]
fn startup_expands_the_restored_request_group() {
    let mut c = test_collection();
    c.groups_collapsed = true;
    c.last_request = Some(c.requests[2].id);
    let app = App::new(
        c,
        "/tmp/cielago-test.json".to_string(),
        AppConfig::default(),
    );
    // "store" is expanded so the restored row is visible; "pets" stays collapsed
    assert_eq!(app.selected, Some(2));
    assert_eq!(app.sidebar_rows[app.sidebar_sel], SidebarRow::Request(2));
    assert_eq!(app.sidebar_rows.len(), 3);
}

#[test]
fn startup_restores_the_focused_pane_and_tab() {
    let mut c = test_collection();
    c.last_request = Some(c.requests[1].id);
    c.last_focus = Some(Focus::Editor);
    c.last_tab = Some(EditorTab::Body);
    let app = App::new(
        c,
        "/tmp/cielago-test.json".to_string(),
        AppConfig::default(),
    );
    assert_eq!(app.selected, Some(1));
    assert_eq!(app.focus, Focus::Editor);
    assert_eq!(app.tab, EditorTab::Body);
}

#[test]
fn startup_skips_a_saved_response_pane_with_no_response() {
    let mut c = test_collection();
    c.last_focus = Some(Focus::Response);
    c.last_tab = Some(EditorTab::Docs);
    let app = App::new(
        c,
        "/tmp/cielago-test.json".to_string(),
        AppConfig::default(),
    );
    // responses aren't persisted, so pane 3 would be empty
    assert_eq!(app.focus, Focus::Editor);
    assert_eq!(app.tab, EditorTab::Docs);
}

#[test]
fn record_view_captures_request_pane_and_tab() {
    let mut app = test_app();
    handle_key(&mut app, char_key('j')); // onto the first request row
    handle_key(&mut app, char_key('j')); // onto the second
    handle_key(&mut app, key(KeyCode::Enter)); // open it
    handle_key(&mut app, char_key(']')); // Params -> Headers
    handle_key(&mut app, char_key(']')); // Headers -> Body
    handle_key(&mut app, char_key('3')); // response pane
    app.record_view();

    let id = app.collection.requests[1].id;
    assert_eq!(app.collection.last_request, Some(id));
    assert_eq!(app.collection.last_focus, Some(Focus::Response));
    assert_eq!(app.collection.last_tab, Some(EditorTab::Body));
}

#[test]
fn startup_ignores_a_stale_last_request() {
    let mut c = test_collection();
    c.last_request = Some(uuid::Uuid::new_v4().as_u128());
    let app = App::new(
        c,
        "/tmp/cielago-test.json".to_string(),
        AppConfig::default(),
    );
    // request is gone (re-imported spec, deleted operation): fall back to first
    assert_eq!(app.selected, Some(0));
}

#[test]
fn help_popup_opens_and_closes() {
    let mut app = test_app();
    handle_key(&mut app, char_key('?'));
    assert_eq!(app.popup, Popup::Help);
    handle_key(&mut app, key(KeyCode::Esc));
    assert_eq!(app.popup, Popup::Closed);
}

#[test]
fn z_toggles_pane_zoom_without_touching_focus() {
    let mut app = test_app();
    handle_key(&mut app, char_key('2'));
    handle_key(&mut app, char_key('z'));
    assert!(app.zoom);
    assert_eq!(app.focus, Focus::Editor);
    // Focus still moves while zoomed — it just picks the maximized pane.
    handle_key(&mut app, key(KeyCode::Tab));
    assert!(app.zoom);
    assert_eq!(app.focus, Focus::Response);
    handle_key(&mut app, char_key('z'));
    assert!(!app.zoom);
}

#[test]
fn sidebar_navigation_and_selection() {
    let mut app = test_app();
    handle_key(&mut app, char_key('1'));
    assert_eq!(app.focus, Focus::Sidebar);
    handle_key(&mut app, char_key('j'));
    assert_eq!(app.sidebar_sel, 1);
    handle_key(&mut app, char_key('j'));
    handle_key(&mut app, key(KeyCode::Enter));
    assert_eq!(app.selected, Some(1)); // createPet
    assert_eq!(app.focus, Focus::Editor);
    // body loaded into textarea
    assert!(app.textarea.lines().join("\n").contains("Fido"));
}

#[test]
fn sidebar_group_collapse() {
    let mut app = test_app();
    handle_key(&mut app, char_key('1'));
    // row 0 is the "pets" group
    handle_key(&mut app, key(KeyCode::Enter));
    assert!(app.collapsed.contains("pets"));
    assert_eq!(app.sidebar_rows.len(), 3); // pets group collapsed
    handle_key(&mut app, key(KeyCode::Enter));
    assert!(!app.collapsed.contains("pets"));
    assert_eq!(app.sidebar_rows.len(), 5);
}

#[test]
fn quit_guards_unsaved_changes() {
    let mut app = test_app();
    assert!(!app.dirty);
    handle_key(&mut app, char_key('q'));
    assert!(app.should_quit);

    let mut app = test_app();
    app.dirty = true;
    handle_key(&mut app, char_key('q'));
    assert!(!app.should_quit);
    assert!(app.status.contains("Unsaved"));
    // :q! forces
    handle_key(&mut app, char_key(':'));
    type_str(&mut app, "q!");
    handle_key(&mut app, key(KeyCode::Enter));
    assert!(app.should_quit);
}

#[test]
fn tab_cycling() {
    let mut app = test_app();
    assert_eq!(app.tab, EditorTab::Params);
    handle_key(&mut app, char_key(']'));
    assert_eq!(app.tab, EditorTab::Headers);
    handle_key(&mut app, char_key(']'));
    assert_eq!(app.tab, EditorTab::Body);
    handle_key(&mut app, char_key('['));
    assert_eq!(app.tab, EditorTab::Headers);
}

#[test]
fn tab_cycling_letter_aliases() {
    let mut app = test_app();
    assert_eq!(app.tab, EditorTab::Params);
    handle_key(&mut app, char_key('L'));
    assert_eq!(app.tab, EditorTab::Headers);
    handle_key(&mut app, char_key('L'));
    assert_eq!(app.tab, EditorTab::Body);
    handle_key(&mut app, char_key('H'));
    assert_eq!(app.tab, EditorTab::Headers);
    // wraps backwards past Params into Variables
    handle_key(&mut app, char_key('H'));
    handle_key(&mut app, char_key('H'));
    assert_eq!(app.tab, EditorTab::Variables);
}

#[test]
fn slash_filters_the_sidebar() {
    let mut app = test_app();
    handle_key(&mut app, char_key('/'));
    assert_eq!(app.mode, Mode::Search);
    assert_eq!(app.focus, Focus::Sidebar);

    type_str(&mut app, "order");
    // "store" group header + placeOrder only
    assert_eq!(app.sidebar_rows.len(), 2);
    // cursor parked on the match, not the group header
    assert_eq!(app.sidebar_rows[app.sidebar_sel], SidebarRow::Request(2));

    // Enter keeps the filter and returns to Normal.
    handle_key(&mut app, key(KeyCode::Enter));
    assert_eq!(app.mode, Mode::Normal);
    assert_eq!(app.filter, "order");
    handle_key(&mut app, key(KeyCode::Enter)); // open the match
    assert_eq!(app.selected, Some(2));

    // Esc in the sidebar clears the filter.
    handle_key(&mut app, char_key('1'));
    handle_key(&mut app, key(KeyCode::Esc));
    assert!(app.filter.is_empty());
    assert_eq!(app.sidebar_rows.len(), 5);
}

#[test]
fn search_matches_path_method_and_tag() {
    let mut app = test_app();

    handle_key(&mut app, char_key('/'));
    type_str(&mut app, "/pets");
    assert_eq!(app.sidebar_rows.len(), 3); // pets group + 2 requests
    handle_key(&mut app, key(KeyCode::Esc));
    assert!(app.filter.is_empty());

    handle_key(&mut app, char_key('/'));
    type_str(&mut app, "post");
    assert_eq!(app.sidebar_rows.len(), 4); // createPet + placeOrder, 2 groups
    handle_key(&mut app, key(KeyCode::Esc));

    handle_key(&mut app, char_key('/'));
    type_str(&mut app, "store");
    assert_eq!(app.sidebar_rows.len(), 2);

    // backspacing widens the match set again
    handle_key(&mut app, key(KeyCode::Backspace));
    handle_key(&mut app, key(KeyCode::Backspace));
    handle_key(&mut app, key(KeyCode::Backspace));
    handle_key(&mut app, key(KeyCode::Backspace));
    handle_key(&mut app, key(KeyCode::Backspace));
    assert_eq!(app.sidebar_rows.len(), 5);
}

#[test]
fn search_shows_matches_inside_collapsed_groups() {
    let mut app = test_app();
    app.collapsed.insert("pets");
    app.rebuild_sidebar();
    assert_eq!(app.sidebar_rows.len(), 3);

    handle_key(&mut app, char_key('/'));
    type_str(&mut app, "createPet");
    assert_eq!(app.sidebar_rows.len(), 2);
}

#[test]
fn label_mode_cycles_and_persists_on_the_collection() {
    let mut app = test_app();
    handle_key(&mut app, char_key('1'));
    assert_eq!(app.collection.label_mode, LabelMode::Name);
    handle_key(&mut app, char_key('t'));
    assert_eq!(app.collection.label_mode, LabelMode::Summary);
    handle_key(&mut app, char_key('t'));
    assert_eq!(app.collection.label_mode, LabelMode::Path);
    handle_key(&mut app, char_key('t'));
    assert_eq!(app.collection.label_mode, LabelMode::Name);
    assert!(app.dirty);
}

#[test]
fn label_command_sets_mode() {
    let mut app = test_app();
    handle_key(&mut app, char_key(':'));
    type_str(&mut app, "label path");
    handle_key(&mut app, key(KeyCode::Enter));
    assert_eq!(app.collection.label_mode, LabelMode::Path);

    handle_key(&mut app, char_key(':'));
    type_str(&mut app, "label nonsense");
    handle_key(&mut app, key(KeyCode::Enter));
    assert_eq!(app.collection.label_mode, LabelMode::Path);
    assert!(app.status.contains("Usage"));
}

#[test]
fn rename_all_rewrites_names_from_paths() {
    let mut app = test_app();
    handle_key(&mut app, char_key(':'));
    type_str(&mut app, "rename-all method-path");
    handle_key(&mut app, key(KeyCode::Enter));
    assert_eq!(app.collection.requests[0].name, "GET /pets");
    assert_eq!(app.collection.requests[1].name, "POST /pets");
    assert_eq!(app.collection.requests[2].name, "POST /orders");
    assert!(app.dirty);
}

#[test]
fn edit_query_value_inline() {
    let mut app = test_app();
    handle_key(&mut app, char_key('2'));
    assert_eq!(app.tab, EditorTab::Params);
    // row 0 = limit (value "20")
    handle_key(&mut app, char_key('i'));
    assert_eq!(app.mode, Mode::Insert);
    assert!(matches!(app.editing, Some(EditTarget::Cell { .. })));
    handle_key(&mut app, char_key('5'));
    handle_key(&mut app, key(KeyCode::Enter));
    assert_eq!(app.mode, Mode::Normal);
    assert_eq!(app.collection.requests[0].query[0].value, "205");
    assert!(app.dirty);
}

#[test]
fn space_toggles_row() {
    let mut app = test_app();
    handle_key(&mut app, char_key('2'));
    assert!(!app.collection.requests[0].query[0].enabled);
    handle_key(&mut app, char_key(' '));
    assert!(app.collection.requests[0].query[0].enabled);
}

#[test]
fn add_header_row_with_uuid_variable() {
    let mut app = test_app();
    handle_key(&mut app, char_key('2'));
    handle_key(&mut app, char_key(']')); // Headers tab
    assert_eq!(app.tab, EditorTab::Headers);
    handle_key(&mut app, char_key('a'));
    type_str(&mut app, "X-Request-Id");
    handle_key(&mut app, key(KeyCode::Enter)); // chains to value edit
    type_str(&mut app, "{{uuid}}");
    handle_key(&mut app, key(KeyCode::Enter));
    assert_eq!(app.mode, Mode::Normal);
    let headers = &app.collection.requests[0].headers;
    assert_eq!(headers.len(), 1);
    assert_eq!(headers[0].key, "X-Request-Id");
    assert_eq!(headers[0].value, "{{uuid}}");
    assert!(headers[0].enabled);
}

#[test]
fn body_textarea_editing() {
    let mut app = test_app();
    // select createPet (has a body)
    app.select_request(1);
    handle_key(&mut app, char_key(']'));
    handle_key(&mut app, char_key(']')); // Body tab
    assert_eq!(app.tab, EditorTab::Body);
    handle_key(&mut app, char_key('i'));
    assert_eq!(app.mode, Mode::Insert);
    handle_key(&mut app, key(KeyCode::Esc));
    assert_eq!(app.mode, Mode::Normal);
    assert!(
        app.collection.requests[1]
            .body
            .as_ref()
            .unwrap()
            .contains("Fido")
    );
}

#[test]
fn body_tab_scrolls_the_read_only_view() {
    let mut app = test_app();
    app.select_request(1);
    app.set_textarea_text(&(1..=40).map(|i| format!("line {i}\n")).collect::<String>());
    app.tab = EditorTab::Body;

    // The highlighted body view follows the textarea cursor.
    handle_key(&mut app, char_key('j'));
    handle_key(&mut app, char_key('j'));
    assert_eq!(app.textarea.cursor().0, 2);
    handle_key(&mut app, char_key('k'));
    assert_eq!(app.textarea.cursor().0, 1);
    handle_key(&mut app, char_key('d'));
    assert_eq!(app.textarea.cursor().0, 16);
    handle_key(&mut app, char_key('u'));
    assert_eq!(app.textarea.cursor().0, 1);
    handle_key(&mut app, char_key('G'));
    assert!(app.textarea.cursor().0 >= 39);
    handle_key(&mut app, char_key('g'));
    assert_eq!(app.textarea.cursor().0, 0);

    // `d` scrolls here rather than deleting a row, but the other editor keys
    // still reach their handlers.
    assert_eq!(app.collection.requests[1].method, Method::Post);
    handle_key(&mut app, char_key('m'));
    assert_eq!(app.collection.requests[1].method, Method::Put);
    handle_key(&mut app, char_key('i'));
    assert_eq!(app.mode, Mode::Insert);
}

#[test]
fn docs_tab_scrolls_and_stays_read_only() {
    let mut app = test_app();
    app.select_request(0); // moves focus to the editor
    app.tab = EditorTab::Docs;
    let params_before = app.collection.requests[0].query.len();

    handle_key(&mut app, char_key('j'));
    handle_key(&mut app, char_key('j'));
    assert_eq!(app.docs_scroll, 2);
    handle_key(&mut app, char_key('k'));
    assert_eq!(app.docs_scroll, 1);
    handle_key(&mut app, char_key('d'));
    assert_eq!(app.docs_scroll, 16);
    handle_key(&mut app, char_key('u'));
    assert_eq!(app.docs_scroll, 1);
    handle_key(&mut app, char_key('g'));
    assert_eq!(app.docs_scroll, 0);

    // `d` scrolled instead of deleting, and `i` doesn't open an editor here.
    assert_eq!(app.collection.requests[0].query.len(), params_before);
    handle_key(&mut app, char_key('i'));
    assert_eq!(app.mode, Mode::Normal);
    assert!(!app.dirty);

    // Opening another request resets the scroll.
    app.docs_scroll = 5;
    app.select_request(2);
    assert_eq!(app.docs_scroll, 0);
}

#[test]
fn help_popup_scrolls() {
    let mut app = test_app();
    handle_key(&mut app, char_key('?'));
    assert_eq!(app.help_scroll, 0);
    handle_key(&mut app, char_key('j'));
    handle_key(&mut app, char_key('j'));
    assert_eq!(app.help_scroll, 2);
    handle_key(&mut app, char_key('k'));
    assert_eq!(app.help_scroll, 1);
    handle_key(&mut app, char_key('g'));
    assert_eq!(app.help_scroll, 0);
    // Reopening starts back at the top.
    handle_key(&mut app, char_key('d'));
    assert!(app.help_scroll > 0);
    handle_key(&mut app, key(KeyCode::Esc));
    handle_key(&mut app, char_key('?'));
    assert_eq!(app.help_scroll, 0);
}

#[test]
fn env_popup_add_and_select_server() {
    let mut app = test_app();
    handle_key(&mut app, char_key('E'));
    assert_eq!(app.popup, Popup::Env);
    handle_key(&mut app, char_key('a'));
    type_str(&mut app, "http://localhost:8080");
    handle_key(&mut app, key(KeyCode::Enter));
    assert_eq!(app.collection.servers.len(), 3);
    assert_eq!(app.collection.active_server, 2);
    handle_key(&mut app, key(KeyCode::Esc));
    assert_eq!(app.popup, Popup::Closed);
}

#[test]
fn auth_popup_edits_and_applies() {
    let mut app = test_app();
    handle_key(&mut app, char_key('A'));
    assert_eq!(app.popup, Popup::Auth);
    // field 0 = token url
    handle_key(&mut app, char_key('i'));
    type_str(&mut app, "https://auth.example.com/token");
    handle_key(&mut app, key(KeyCode::Enter));
    // move to client id, edit
    handle_key(&mut app, char_key('j'));
    handle_key(&mut app, char_key('i'));
    type_str(&mut app, "my-client");
    handle_key(&mut app, key(KeyCode::Enter));
    // style toggle: field 4
    for _ in 0..3 {
        handle_key(&mut app, char_key('j'));
    }
    assert_eq!(app.auth_field, 4);
    handle_key(&mut app, char_key(' '));
    // close + apply
    handle_key(&mut app, key(KeyCode::Esc));
    assert_eq!(app.popup, Popup::Closed);
    let auth = app.collection.auth.as_ref().unwrap();
    assert_eq!(auth.token_url, "https://auth.example.com/token");
    assert_eq!(auth.client_id, "my-client");
    assert_eq!(auth.auth_style, cielago::model::AuthStyle::Post);
    assert!(app.dirty);
}

#[test]
fn new_request_flow() {
    let mut app = test_app();
    handle_key(&mut app, char_key('1'));
    handle_key(&mut app, char_key('n'));
    type_str(&mut app, "my custom request");
    handle_key(&mut app, key(KeyCode::Enter));
    assert_eq!(app.collection.requests.len(), 4);
    assert_eq!(app.selected, Some(3));
    assert_eq!(app.collection.requests[3].name, "my custom request");
}

#[test]
fn rename_and_delete_request() {
    let mut app = test_app();
    handle_key(&mut app, char_key('1'));
    handle_key(&mut app, char_key('j')); // first request row
    handle_key(&mut app, char_key('r'));
    // rename input prefilled with current name; replace
    handle_key(&mut app, key(KeyCode::Home));
    for _ in 0..20 {
        handle_key(&mut app, key(KeyCode::Delete));
    }
    type_str(&mut app, "renamed");
    handle_key(&mut app, key(KeyCode::Enter));
    assert_eq!(app.collection.requests[0].name, "renamed");

    // focus stays in the sidebar on the renamed row; delete it
    assert_eq!(app.focus, Focus::Sidebar);
    handle_key(&mut app, char_key('d'));
    assert_eq!(app.collection.requests.len(), 2);
    assert!(!app.collection.requests.iter().any(|r| r.name == "renamed"));
}

#[test]
fn variables_tab_roundtrip() {
    let mut app = test_app();
    handle_key(&mut app, char_key('2'));
    handle_key(&mut app, char_key('[')); // Variables (prev of Params)
    assert_eq!(app.tab, EditorTab::Variables);
    handle_key(&mut app, char_key('a'));
    type_str(&mut app, "tenant");
    handle_key(&mut app, key(KeyCode::Enter));
    type_str(&mut app, "acme");
    handle_key(&mut app, key(KeyCode::Enter));
    assert_eq!(app.collection.variables.len(), 1);
    let map = cielago::model::variables_map(&app.collection.variables);
    assert_eq!(map.get("tenant").unwrap(), "acme");
}

// ----- ad-hoc requests and collections -----

/// Open the URL prompt on the selected request with a cleared buffer.
fn start_url_edit(app: &mut App) {
    handle_key(app, char_key('2'));
    handle_key(app, char_key('p'));
    assert_eq!(app.editing, Some(EditTarget::Url));
    handle_key(app, key(KeyCode::Home));
    for _ in 0..60 {
        handle_key(app, key(KeyCode::Delete));
    }
}

fn type_url(app: &mut App, url: &str) {
    start_url_edit(app);
    type_str(app, url);
    handle_key(app, key(KeyCode::Enter));
}

#[test]
fn edit_url_sets_path_and_syncs_path_params() {
    let mut app = test_app();
    type_url(&mut app, "/pets/{petId}/photos");

    let req = &app.collection.requests[0];
    assert_eq!(req.path, "/pets/{petId}/photos");
    assert_eq!(req.path_params.len(), 1);
    assert_eq!(req.path_params[0].key, "petId");
    assert!(app.dirty);
    // No `?` in the input, so the existing query rows are untouched.
    assert_eq!(req.query.len(), 2);

    // Removing the placeholder prunes the row again.
    type_url(&mut app, "/pets");
    assert!(app.collection.requests[0].path_params.is_empty());
}

#[test]
fn pasting_a_full_url_adds_and_activates_the_server() {
    let mut app = test_app();
    type_url(
        &mut app,
        "https://three.example.com/v2/pets?limit=5&sort=name",
    );

    assert_eq!(app.collection.servers.len(), 3);
    assert_eq!(app.collection.active_server, 2);
    assert_eq!(app.collection.base_url(), Some("https://three.example.com"));
    let req = &app.collection.requests[0];
    assert_eq!(req.path, "/v2/pets");
    let query: Vec<(&str, &str)> = req
        .query
        .iter()
        .map(|r| (r.key.as_str(), r.value.as_str()))
        .collect();
    assert_eq!(query, vec![("limit", "5"), ("sort", "name")]);
    assert!(req.query.iter().all(|r| r.enabled));
}

#[test]
fn pasting_a_known_origin_switches_to_it_without_duplicating() {
    let mut app = test_app();
    assert_eq!(app.collection.active_server, 0);
    type_url(&mut app, "https://two.example.com/pets");

    assert_eq!(app.collection.servers.len(), 2);
    assert_eq!(app.collection.active_server, 1);
    assert_eq!(app.collection.requests[0].path, "/pets");
}

#[test]
fn pasting_without_a_query_keeps_existing_params() {
    let mut app = test_app();
    type_url(&mut app, "https://one.example.com/pets/all");

    let req = &app.collection.requests[0];
    assert_eq!(req.path, "/pets/all");
    assert_eq!(req.query.len(), 2);
    // Disabled optional params from the fixture survive untouched.
    assert!(req.query.iter().all(|r| !r.enabled));
    assert_eq!(req.query[0].key, "limit");
}

#[test]
fn non_http_scheme_is_rejected() {
    let mut app = test_app();
    type_url(&mut app, "ftp://files.example.com/pets");

    assert_eq!(app.collection.requests[0].path, "/pets");
    assert_eq!(app.collection.servers.len(), 2);
    assert!(app.status.contains("http(s)"));
}

#[test]
fn duplicate_request_clones_directly_after_the_original() {
    let mut app = test_app();
    handle_key(&mut app, char_key('1'));
    handle_key(&mut app, char_key('j')); // first request row (listPets)
    handle_key(&mut app, char_key('y'));

    assert_eq!(app.collection.requests.len(), 4);
    assert_eq!(app.collection.requests[1].name, "listPets copy");
    assert_ne!(app.collection.requests[0].id, app.collection.requests[1].id);
    assert_eq!(app.collection.requests[1].path, "/pets");
    assert_eq!(app.collection.requests[1].query.len(), 2);
    // The original is still in place, and the clone is what's open.
    assert_eq!(app.collection.requests[0].name, "listPets");
    assert_eq!(app.selected, Some(1));
    assert_eq!(app.focus, Focus::Sidebar);
    assert_eq!(app.sidebar_rows[app.sidebar_sel], SidebarRow::Request(1));
    assert!(app.dirty);
}

#[test]
fn duplicate_twice_numbers_the_copies() {
    let mut app = test_app();
    handle_key(&mut app, char_key('1'));
    handle_key(&mut app, char_key('j'));
    handle_key(&mut app, char_key('y'));
    handle_key(&mut app, char_key('y'));

    assert_eq!(app.collection.requests.len(), 5);
    let names: Vec<&str> = app
        .collection
        .requests
        .iter()
        .map(|r| r.name.as_str())
        .collect();
    // The cursor followed the first clone, so the second `y` duplicates *it* —
    // and the ` copy` suffix is stripped first, giving `copy 2` not `copy copy`.
    assert_eq!(names[1], "listPets copy");
    assert_eq!(names[2], "listPets copy 2");
}

#[test]
fn new_request_chains_into_the_url_prompt() {
    let mut app = test_app();
    handle_key(&mut app, char_key('1'));
    handle_key(&mut app, char_key('n'));
    type_str(&mut app, "adhoc");
    handle_key(&mut app, key(KeyCode::Enter));

    // The name commit leaves you in the URL prompt rather than on `GET /`.
    assert_eq!(app.editing, Some(EditTarget::Url));
    assert_eq!(app.mode, Mode::Insert);
    type_str(&mut app, "https://four.example.com/ip");
    handle_key(&mut app, key(KeyCode::Enter));

    let req = app.collection.requests.last().unwrap();
    assert_eq!(req.name, "adhoc");
    assert_eq!(req.path, "/ip");
    assert_eq!(app.collection.base_url(), Some("https://four.example.com"));
}

#[test]
fn switch_collection_replaces_state() {
    let mut app = test_app();
    handle_key(&mut app, char_key('/'));
    type_str(&mut app, "orders");
    handle_key(&mut app, key(KeyCode::Enter));
    handle_key(&mut app, char_key('2'));
    handle_key(&mut app, char_key('m')); // dirty it

    let mut other = Collection::new("other");
    other.requests = vec![SavedRequest::blank("only")];
    app.switch_collection(other, "/tmp/cielago-other.json".to_string());

    assert_eq!(app.collection.name, "other");
    assert_eq!(app.collection.requests.len(), 1);
    assert_eq!(app.selected, Some(0));
    assert!(!app.dirty);
    assert!(app.filter.is_empty());
    assert!(app.response.is_none());
    assert!(app.status.contains("other"));
    // Tracked in memory only.
    assert_eq!(app.config.last_collection.as_deref(), Some("other"));
}

#[test]
fn new_collection_command_refuses_when_dirty() {
    let mut app = test_app();
    handle_key(&mut app, char_key('2'));
    handle_key(&mut app, char_key('m')); // cycle method → dirty
    assert!(app.dirty);

    handle_key(&mut app, char_key(':'));
    type_str(&mut app, "new Scratch");
    handle_key(&mut app, key(KeyCode::Enter));

    assert_eq!(app.collection.name, "test");
    assert!(app.status.contains("Unsaved changes"));
}

#[test]
fn new_collection_command_rejects_a_missing_name() {
    let mut app = test_app();
    handle_key(&mut app, char_key(':'));
    type_str(&mut app, "new  ");
    handle_key(&mut app, key(KeyCode::Enter));

    assert_eq!(app.collection.name, "test");
    assert!(app.status.starts_with("Usage: :new"));
}

// ----- more of the keymap -----

use cielago::app::effects::EditorEnd;
use cielago::app::{Effect, ExternalEdit};
use cielago::http::url_input::UrlParts;
use cielago::http::{HttpResponse, OAuthToken, SendOutcome};
use cielago::model::{AuthKind, AuthStyle, OAuthConfig};

fn command(app: &mut App, cmd: &str) {
    handle_key(app, char_key(':'));
    type_str(app, cmd);
    handle_key(app, key(KeyCode::Enter));
}

fn ok_response(status: u16) -> HttpResponse {
    HttpResponse {
        status,
        reason: "OK".to_string(),
        elapsed_ms: 5,
        headers: vec![],
        body: "one\ntwo\nthree".to_string(),
        size: 13,
    }
}

#[test]
fn send_without_server_shows_status_error() {
    let mut app = test_app();
    app.collection.servers.clear();
    app.send_selected();
    assert!(!app.sending);
    assert!(app.status.contains("No server configured"));
    assert!(app.take_effect().is_none());
}

#[test]
fn sending_hands_out_everything_it_needs() {
    let mut app = test_app();
    app.collection.variables.push(KeyValueRow::new("a", "1", true));
    app.token = Some(OAuthToken { access_token: "t".to_string(), expires_at: 7 });
    handle_key(&mut app, char_key('2'));
    handle_key(&mut app, key(KeyCode::Enter));
    assert!(app.sending);
    assert_eq!(app.status, "Sending GET /pets …");
    assert!(app.token.is_none());
    match app.take_effect() {
        Some(Effect::Send(job)) => {
            assert_eq!(job.base, "https://one.example.com");
            assert_eq!(job.request.name, "listPets");
            assert_eq!(job.variables.len(), 1);
            assert_eq!(job.token.unwrap().access_token, "t");
        }
        other => panic!("{other:?}"),
    }
    assert!(app.take_effect().is_none());

    app.response_scroll = 9;
    app.handle_outcome(SendOutcome {
        result: Ok(ok_response(200)),
        token: Some(OAuthToken { access_token: "u".to_string(), expires_at: 8 }),
    });
    assert!(!app.sending);
    assert_eq!(app.status, "200 OK · 5ms · 13B");
    assert_eq!(app.response_scroll, 0);
    assert_eq!(app.token.as_ref().unwrap().access_token, "u");

    // A failure leaves the last response on screen.
    app.handle_outcome(SendOutcome { result: Err("timeout".to_string()), token: None });
    assert_eq!(app.status, "timeout");
    assert_eq!(app.response.as_ref().unwrap().status, 200);
    assert!(app.token.is_none());
}

#[test]
fn nothing_selected_nothing_sent() {
    let mut app = App::new(Collection::new("e"), "/e.json".to_string(), AppConfig::default());
    assert_eq!(app.status, "Empty collection — press n to add a request");
    app.send_selected();
    assert_eq!(app.status, "No request selected");
    app.apply_url_input("/x");
    assert_eq!(app.status, "No request selected");
}

#[test]
fn write_and_quit() {
    let mut app = test_app();
    app.dirty = true;
    command(&mut app, "wq");
    match app.take_effect() {
        Some(Effect::Save { quit }) => assert!(quit),
        other => panic!("{other:?}"),
    }
    assert_eq!(app.collection.last_focus, Some(Focus::Sidebar));
    app.saved(Err("disk full".to_string()), true);
    assert_eq!(app.status, "Save failed: disk full");
    assert!(app.dirty && !app.should_quit);
    app.saved(Ok("/c.json".to_string()), false);
    assert_eq!(app.status, "Saved to /c.json");
    assert!(!app.dirty && !app.should_quit);
    app.saved(Ok("/c.json".to_string()), true);
    assert!(app.should_quit);
}

#[test]
fn saved_views_come_back() {
    let mut app = test_app();
    app.select_request(2);
    app.tab = EditorTab::Docs;
    app.save();
    let again = App::new(app.collection.clone(), "/c.json".to_string(), AppConfig::default());
    assert_eq!(again.selected, Some(2));
    assert_eq!(again.tab, EditorTab::Docs);
    assert_eq!(again.focus, Focus::Editor);
}

#[test]
fn opening_and_creating_collections() {
    let mut app = test_app();
    command(&mut app, "new  Scratch pad ");
    match app.take_effect() {
        Some(Effect::Create(name)) => assert_eq!(name, "Scratch pad"),
        other => panic!("{other:?}"),
    }
    app.create_refused("/s.json");
    assert_eq!(app.status, "A collection already exists at /s.json");
    app.create_failed("a\"b", "denied");
    assert_eq!(app.status, "Could not create \"a\\\"b\": denied");
    app.open_failed("No collection.\n\nAvailable: x");
    assert_eq!(app.status, "No collection.  Available: x");

    app.dirty = true;
    command(&mut app, "open other");
    assert_eq!(app.status, "Unsaved changes — :w first, or :open! to discard");
    command(&mut app, "open! other");
    match app.take_effect() {
        Some(Effect::Open(name)) => assert_eq!(name, "other"),
        other => panic!("{other:?}"),
    }
    command(&mut app, "open");
    assert_eq!(app.status, "Usage: :open <collection name>");
    app.created("fresh", "/f.json".to_string());
    assert_eq!(app.collection.name, "fresh");
    assert_eq!(app.path, "/f.json");
    assert!(!app.dirty);
}

#[test]
fn commands_that_are_not_known() {
    let mut app = test_app();
    command(&mut app, "frobnicate");
    assert_eq!(app.status, "Unknown command: frobnicate");
    command(&mut app, "frob a b");
    assert_eq!(app.status, "Unknown command: frob a b");
    command(&mut app, "label \"x\"");
    assert_eq!(app.status, "Usage: :label name|summary|path (got \"\\\"x\\\"\")");
    command(&mut app, "rename-all size");
    assert!(app.status.starts_with("Usage: :rename-all"));
    let before = app.status.clone();
    command(&mut app, "   ");
    assert_eq!(app.status, before);
    assert!(!app.dirty);
    // Esc leaves the prompt, Backspace edits it.
    handle_key(&mut app, char_key(':'));
    type_str(&mut app, "qx");
    handle_key(&mut app, key(KeyCode::Backspace));
    assert_eq!(app.command, "q");
    handle_key(&mut app, key(KeyCode::Esc));
    assert_eq!(app.mode, Mode::Normal);
    assert!(app.command.is_empty());
}

#[test]
fn group_default_applies_at_once() {
    let mut app = test_app();
    command(&mut app, "groups collapsed");
    assert!(app.collection.groups_collapsed);
    assert_eq!(app.sidebar_rows.len(), 2);
    assert_eq!(app.status, "Groups default: collapsed");
    command(&mut app, "groups expanded");
    assert_eq!(app.sidebar_rows.len(), 5);
    command(&mut app, "groups both");
    assert!(app.status.starts_with("Usage: :groups"));
}

#[test]
fn renaming_all_twice_changes_nothing_more() {
    let mut app = test_app();
    command(&mut app, "rename-all path");
    assert_eq!(app.status, "Renamed 3 request(s) from path");
    command(&mut app, "rename-all path");
    assert_eq!(app.status, "Renamed 0 request(s) from path");
    command(&mut app, "rename-all summary");
    assert_eq!(app.collection.requests[0].name, "/pets");
}

#[test]
fn rows_are_toggled_deleted_and_kept_apart() {
    let mut app = test_app();
    app.collection.requests[0].path_params = vec![KeyValueRow::new("p", "1", true)];
    handle_key(&mut app, char_key('2'));
    handle_key(&mut app, char_key('G'));
    assert_eq!(app.table_row, 2);
    handle_key(&mut app, char_key(' '));
    handle_key(&mut app, char_key(' '));
    assert!(!app.collection.requests[0].query[1].enabled);
    handle_key(&mut app, char_key('d'));
    assert_eq!(app.collection.requests[0].query.len(), 1);
    assert_eq!(app.table_row, 1);
    handle_key(&mut app, char_key('g'));
    handle_key(&mut app, char_key('d'));
    assert!(app.collection.requests[0].path_params.is_empty());
    handle_key(&mut app, char_key('d'));
    handle_key(&mut app, char_key('d'));
    assert!(app.collection.requests[0].query.is_empty());
    assert_eq!(app.table_row, 0);
}

#[test]
fn typing_into_the_body_commits_on_escape() {
    let mut app = test_app();
    app.select_request(0);
    app.tab = EditorTab::Body;
    handle_key(&mut app, char_key('i'));
    type_str(&mut app, "hi");
    handle_key(&mut app, key(KeyCode::Enter));
    assert_eq!(app.textarea.lines(), vec!["hi", ""]);
    assert_eq!(app.collection.requests[0].body, None);
    handle_key(&mut app, key(KeyCode::Esc));
    assert_eq!(app.collection.requests[0].body.as_deref(), Some("hi"));
    assert!(app.dirty);
}

#[test]
fn external_edits_come_back_for_bodies_only() {
    let mut app = test_app();
    app.select_request(1);
    app.tab = EditorTab::Body;
    handle_key(&mut app, char_key('e'));
    assert_eq!(app.pending_external, Some(ExternalEdit::Body));
    let draft = app.begin_external_edit(ExternalEdit::Body, 42).unwrap();
    assert_eq!(draft.file_name, "cielago-body-42.json");
    assert!(draft.content.contains("Fido"));
    assert_eq!(app.pending_external, None);
    app.finish_external_edit(ExternalEdit::Body, EditorEnd::Exited("exit status: 1".to_string()));
    assert_eq!(app.status, "Editor exited with exit status: 1; body unchanged");
    app.finish_external_edit(ExternalEdit::Body, EditorEnd::NotStarted("no vi".to_string()));
    assert_eq!(app.status, "Could not launch editor: no vi");
    assert!(!app.dirty);
    app.finish_external_edit(ExternalEdit::Body, EditorEnd::Done("a\nb\n".to_string()));
    assert_eq!(app.collection.requests[1].body.as_deref(), Some("a\nb\n"));
    assert_eq!(app.textarea.lines(), vec!["a", "b"]);
    assert!(app.dirty);

    assert!(app.begin_external_edit(ExternalEdit::Response, 1).is_none());
    assert_eq!(app.status, "No response to open");
    app.response = Some(ok_response(200));
    handle_key(&mut app, char_key('3'));
    handle_key(&mut app, char_key('e'));
    assert_eq!(app.pending_external, Some(ExternalEdit::Response));
    let draft = app.begin_external_edit(ExternalEdit::Response, 1).unwrap();
    assert_eq!(draft.file_name, "cielago-response-1.txt");
    app.finish_external_edit(ExternalEdit::Response, EditorEnd::Done("changed".to_string()));
    assert_eq!(app.response.as_ref().unwrap().body, "one\ntwo\nthree");
    assert_eq!(app.status, "Response closed — unchanged");
}

#[test]
fn a_leading_verb_sets_the_method() {
    let mut app = test_app();
    type_url(&mut app, "post /pets/{id}?a=1");
    let req = &app.collection.requests[0];
    assert_eq!(req.method, Method::Post);
    assert_eq!(req.path, "/pets/{id}");
    assert_eq!(req.query.len(), 1);
    assert_eq!(app.status, "Path: /pets/{id} · 1 query param(s)");
    // A word that is no verb is part of the path.
    type_url(&mut app, "posts today");
    let req = &app.collection.requests[0];
    assert_eq!(req.method, Method::Post);
    assert_eq!(req.path, "/posts today");
    // So is a verb on its own.
    type_url(&mut app, "get");
    let req = &app.collection.requests[0];
    assert_eq!((req.method, req.path.as_str()), (Method::Post, "/get"));
}

#[test]
fn schemes_are_checked_only_where_one_is_named() {
    let mut app = test_app();
    app.apply_url_input("ws://x/y");
    assert_eq!(app.status, "Only http(s) URLs are supported (got \"ws\"://)");
    assert!(!app.dirty);
    app.apply_url_input("/api/https://x");
    assert_eq!(app.collection.requests[0].path, "/api/https://x");
}

#[test]
fn parts_are_applied_to_request_and_servers() {
    let mut app = test_app();
    let parts = UrlParts {
        origin: Some("https://one.example.com".to_string()),
        path: "/a".to_string(),
        query: None,
    };
    app.apply_parts(parts, None);
    assert_eq!(app.status, "Path: /a");
    assert_eq!(app.collection.servers.len(), 2);
    let parts = UrlParts {
        origin: Some("https://new".to_string()),
        path: "/b".to_string(),
        query: Some(vec![]),
    };
    app.apply_parts(parts, Some(Method::Patch));
    assert_eq!(app.status, "Path: /b · server + https://new · 0 query param(s)");
    assert_eq!(app.collection.requests[0].method, Method::Patch);
    assert!(app.collection.requests[0].query.is_empty());
    let parts = UrlParts {
        origin: Some("https://two.example.com".to_string()),
        path: "/c".to_string(),
        query: None,
    };
    app.apply_parts(parts, None);
    assert_eq!(app.status, "Path: /c · server → https://two.example.com");
    assert_eq!(app.collection.active_server, 1);
}

#[test]
fn servers_are_chosen_and_deleted() {
    let mut app = test_app();
    handle_key(&mut app, char_key('E'));
    handle_key(&mut app, char_key('j'));
    handle_key(&mut app, char_key('j'));
    assert_eq!(app.env_sel, 1);
    handle_key(&mut app, key(KeyCode::Enter));
    assert_eq!(app.collection.active_server, 1);
    assert_eq!(app.status, "Base URL: https://two.example.com");
    assert_eq!(app.popup, Popup::Closed);
    handle_key(&mut app, char_key('E'));
    handle_key(&mut app, char_key('d'));
    assert_eq!(app.collection.servers.len(), 1);
    assert_eq!(app.collection.active_server, 0);
    handle_key(&mut app, char_key('d'));
    handle_key(&mut app, char_key('d'));
    assert!(app.collection.servers.is_empty());
    handle_key(&mut app, key(KeyCode::Enter));
    assert_eq!(app.popup, Popup::Closed);
}

#[test]
fn auth_schemes_cycle_with_the_cursor_on_the_selector() {
    let mut app = test_app();
    handle_key(&mut app, char_key('A'));
    handle_key(&mut app, char_key('k'));
    assert_eq!(app.auth_field, 5);
    handle_key(&mut app, char_key(' '));
    assert_eq!(app.auth_form.kind, AuthKind::Bearer);
    assert_eq!(app.auth_field, 1);
    handle_key(&mut app, key(KeyCode::Enter));
    assert_eq!(app.auth_form.kind, AuthKind::ApiKey);
    assert_eq!(app.auth_field, 2);
    handle_key(&mut app, char_key('i'));
    assert_eq!(app.auth_form.kind, AuthKind::Oauth2);
    assert_eq!(app.auth_field, 5);
    // Nothing was filled in, so nothing is attached.
    handle_key(&mut app, key(KeyCode::Esc));
    assert!(app.collection.auth.is_none());
    assert_eq!(app.status, "Auth config saved");

    app.collection.auth = Some(OAuthConfig::blank(AuthKind::Bearer));
    handle_key(&mut app, char_key('A'));
    assert_eq!(app.auth_form.kind, AuthKind::Bearer);
    handle_key(&mut app, char_key('i'));
    type_str(&mut app, " tok ");
    handle_key(&mut app, key(KeyCode::Enter));
    assert_eq!(app.auth_form.token, "tok");
    assert_eq!(app.auth_form.auth_style, AuthStyle::Basic);
}

#[test]
fn cancelled_edits_leave_no_trace() {
    let mut app = test_app();
    handle_key(&mut app, char_key('2'));
    handle_key(&mut app, char_key('i'));
    type_str(&mut app, "99");
    handle_key(&mut app, key(KeyCode::Esc));
    assert_eq!(app.collection.requests[0].query[0].value, "20");
    assert_eq!(app.mode, Mode::Normal);
    assert!(!app.dirty && app.editing.is_none());
}

#[test]
fn line_editing_moves_by_characters() {
    let mut app = test_app();
    handle_key(&mut app, char_key('2'));
    handle_key(&mut app, char_key('r'));
    for k in [KeyCode::Home, KeyCode::Delete, KeyCode::End, KeyCode::Left, KeyCode::Backspace] {
        handle_key(&mut app, key(k));
    }
    assert_eq!(app.input.buf, "istPes");
    type_str(&mut app, "é☃");
    handle_key(&mut app, key(KeyCode::Left));
    handle_key(&mut app, key(KeyCode::Right));
    handle_key(&mut app, key(KeyCode::Backspace));
    assert_eq!(app.input.buf, "istPeés");
    assert_eq!(app.input.cursor, "istPeé".len());
    handle_key(&mut app, key(KeyCode::Enter));
    assert_eq!(app.collection.requests[0].name, "istPeés");
}

#[test]
fn shift_arrows_cycle_tabs() {
    let mut app = test_app();
    let mut shift = KeyModifiers::none();
    shift.shift = true;
    handle_key(&mut app, KeyEvent::new(KeyCode::Right, shift));
    assert_eq!(app.tab, EditorTab::Headers);
    handle_key(&mut app, KeyEvent::new(KeyCode::Left, shift));
    handle_key(&mut app, KeyEvent::new(KeyCode::Left, shift));
    assert_eq!(app.tab, EditorTab::Variables);
    handle_key(&mut app, key(KeyCode::Right));
    assert_eq!(app.tab, EditorTab::Variables);
}

#[test]
fn deleting_keeps_the_open_request_open() {
    let mut app = test_app();
    app.select_request(2);
    handle_key(&mut app, char_key('1'));
    handle_key(&mut app, char_key('g'));
    handle_key(&mut app, char_key('j'));
    handle_key(&mut app, char_key('d'));
    assert_eq!(app.selected, Some(1));
    assert_eq!(app.selected_request().unwrap().name, "placeOrder");
    assert_eq!(app.status, "Request deleted");
    // On a group row there is nothing to delete.
    handle_key(&mut app, char_key('g'));
    handle_key(&mut app, char_key('d'));
    assert_eq!(app.collection.requests.len(), 2);
    handle_key(&mut app, char_key('G'));
    handle_key(&mut app, char_key('d'));
    assert_eq!(app.selected, None);
    assert_eq!(app.textarea.lines(), vec![""]);
}

#[test]
fn copies_take_the_first_free_number() {
    let mut app = test_app();
    app.collection.requests[1].name = "listPets copy 2".into();
    app.duplicate_request_as(0, 5);
    assert_eq!(app.collection.requests[1].name, "listPets copy");
    assert_eq!(app.collection.requests[1].id, 5);
    app.duplicate_request_as(2, 6);
    assert_eq!(app.collection.requests[3].name, "listPets copy 3");
    assert_eq!(app.status, "Duplicated as \"listPets copy 3\"");
    app.duplicate_request_as(99, 7);
    assert_eq!(app.collection.requests.len(), 5);
}

#[test]
fn browsing_is_no_change() {
    let mut app = test_app();
    for c in ['j', 'k', 'G', 'g', '2', ']', '[', 'j', '3', 'd', 'u', 'z', 'z', '1'] {
        handle_key(&mut app, char_key(c));
    }
    handle_key(&mut app, char_key('/'));
    type_str(&mut app, "pets");
    handle_key(&mut app, key(KeyCode::Down));
    handle_key(&mut app, key(KeyCode::Up));
    handle_key(&mut app, key(KeyCode::Esc));
    assert!(!app.dirty);
    handle_key(&mut app, char_key('q'));
    assert!(app.should_quit);
}

#[test]
fn search_status_counts_matches() {
    let mut app = test_app();
    handle_key(&mut app, char_key('/'));
    type_str(&mut app, "pet");
    handle_key(&mut app, key(KeyCode::Enter));
    assert_eq!(app.status, "Filter \"pet\" — 2 request(s) · Esc clears");
    handle_key(&mut app, key(KeyCode::Esc));
    assert_eq!(app.status, "Filter cleared");
}

#[test]
fn paging_keys_move_by_a_page_while_the_body_is_typed_into() {
    let with = |code: KeyCode, control: bool, alt: bool| {
        KeyEvent::new(code, KeyModifiers { shift: false, control, alt })
    };
    let mut app = test_app();
    let body: Vec<String> = (0..40).map(|i| format!("line {i}")).collect();
    app.set_textarea_text(&body.join("\n"));
    app.tab = EditorTab::Body;
    app.mode = Mode::Insert;
    let before = app.textarea.lines();

    handle_key(&mut app, key(KeyCode::PageDown));
    assert_eq!(app.textarea.cursor(), (15, 0));
    handle_key(&mut app, with(KeyCode::Char('v'), true, false));
    assert_eq!(app.textarea.cursor(), (30, 0));
    handle_key(&mut app, key(KeyCode::PageDown));
    assert_eq!(app.textarea.cursor(), (39, 0));
    handle_key(&mut app, key(KeyCode::PageUp));
    assert_eq!(app.textarea.cursor(), (24, 0));
    handle_key(&mut app, with(KeyCode::Char('v'), false, true));
    assert_eq!(app.textarea.cursor(), (9, 0));
    assert_eq!(app.textarea.lines(), before);

    // A plain `v` is typed.
    handle_key(&mut app, char_key('v'));
    assert_eq!(app.textarea.lines()[9], "vline 9");
    assert_eq!(app.textarea.cursor(), (9, 1));
}
