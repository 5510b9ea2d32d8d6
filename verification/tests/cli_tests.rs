//! What the command line decides and says.

use cielago::cli::{
    api_key_config, auth_cursor, auth_summary, bearer_config, choose_label, choose_open, confirmed,
    created_line, delete_question, deleted_line, edit_clashes, edit_failed, edit_file_name, edit_saved,
    edit_unreadable, enter_server, group_counts, import_report, info_lines, list_entry, new_refused,
    normalize_server, nothing_to_list, oauth_config, pick_server, plan_move, rename_clashes,
    renamed_line, settle_edit, start_collection, update_from, AuthChoice, EditOutcome, Move,
};
use cielago::model::{AuthKind, AuthStyle, Collection, LabelMode, OAuthConfig, SavedRequest};

fn tagged(name: &str, tag: Option<&str>) -> SavedRequest {
    let mut r = SavedRequest::blank(name);
    r.tags = tag.into_iter().map(|t| t.to_string()).collect();
    r
}

#[test]
fn auth_summaries_say_what_is_missing() {
    let b = bearer_config(String::new());
    assert_eq!(auth_summary(&b), "bearer (no token set — set it with A in the TUI)");
    assert_eq!(auth_summary(&bearer_config("t".to_string())), "bearer");
    let k = api_key_config(String::new(), "v".to_string());
    assert_eq!(auth_summary(&k), "api key in X-API-Key");
    let mut o = OAuthConfig::default();
    o.token_url = "https://t".into();
    assert_eq!(
        auth_summary(&o),
        "oauth2 client-credentials, token url https://t (set client id/secret with A in the TUI)"
    );
}

#[test]
fn setup_starts_on_what_there_is() {
    assert_eq!(auth_cursor(&None), 0);
    for (i, kind) in [AuthKind::Bearer, AuthKind::ApiKey, AuthKind::Oauth2].iter().enumerate() {
        let at = auth_cursor(&Some(OAuthConfig::blank(*kind)));
        assert_eq!(at, i + 1);
        assert_eq!(AuthChoice::all()[at], AuthChoice::Scheme(*kind));
    }
    let titles: Vec<&str> = AuthChoice::all().into_iter().map(|c| c.title()).collect();
    assert_eq!(titles, ["none", "bearer token", "api key", "oauth2 client-credentials"]);
}

#[test]
fn oauth_answers_keep_what_is_not_asked_for() {
    let mut current = OAuthConfig::blank(AuthKind::Bearer);
    current.token = "kept".into();
    let c = oauth_config(
        &Some(current),
        "https://t".to_string(),
        "id".to_string(),
        "secret".to_string(),
        " a  b ",
        AuthStyle::Post,
    );
    assert_eq!(c.kind, AuthKind::Oauth2);
    assert_eq!(c.token, "kept");
    assert_eq!(c.scopes, vec!["a", "b"]);
    assert_eq!(c.auth_style, AuthStyle::Post);
}

#[test]
fn typed_servers_are_added_once() {
    assert_eq!(normalize_server("  https://a.example.com// "), "https://a.example.com");
    let mut c = Collection::new("c");
    enter_server(&mut c, "  ");
    assert!(c.servers.is_empty());
    enter_server(&mut c, "https://a/");
    assert_eq!(c.servers, vec!["https://a"]);
    enter_server(&mut c, "https://b");
    assert_eq!((c.servers.len(), c.active_server), (2, 1));
    enter_server(&mut c, " https://a ");
    assert_eq!((c.servers.len(), c.active_server), (2, 0));
    pick_server(&mut c, "https://b");
    assert_eq!(c.active_server, 1);
    enter_server(&mut c, "/");
    assert_eq!(c.active_server, 0);
}

#[test]
fn preferences() {
    assert_eq!(choose_label("summary"), LabelMode::Summary);
    assert_eq!(choose_label("path"), LabelMode::Path);
    assert_eq!(choose_label("name"), LabelMode::Name);
}

#[test]
fn imports_are_reported() {
    let mut c = Collection::new("Pets");
    assert_eq!(
        import_report(&c, "/p.json"),
        vec![
            "Imported collection \"Pets\" -> /p.json",
            "  0 requests",
            "  servers: (none)",
            "  auth: none"
        ]
    );
    c.servers = vec!["https://a".into(), "https://b".into()];
    c.active_server = 1;
    c.auth = Some(bearer_config("t".to_string()));
    let r = import_report(&c, "/p.json");
    assert_eq!(r[2], "  servers: https://a, https://b (active: https://b)");
    assert_eq!(r[3], "  auth: bearer");
    c.active_server = 9;
    assert!(import_report(&c, "/p.json")[2].ends_with("(active: https://a)"));
}

#[test]
fn new_collections_take_a_server() {
    let c = start_collection("n", Some(" https://a/ ".to_string()));
    assert_eq!(c.servers, vec!["https://a"]);
    assert!(start_collection("n", Some("/".to_string())).servers.is_empty());
    assert!(start_collection("n", None).servers.is_empty());
    assert_eq!(
        new_refused("/p", "my \"n\""),
        "a collection already exists at /p — open it with `cielago open \"my \\\"n\\\"\"` or pick another name"
    );
    assert_eq!(created_line("n", "/p"), "Created collection \"n\" -> /p");
}

#[test]
fn updates_replace_requests_only() {
    let mut c = Collection::new("c");
    c.servers = vec!["https://a".into()];
    c.requests = vec![SavedRequest::blank("old")];
    let mut fresh = Collection::new("f");
    fresh.requests = vec![SavedRequest::blank("x"), SavedRequest::blank("y")];
    let lines = update_from(&mut c, fresh, "spec.yaml", "/p");
    assert_eq!(lines, vec!["Updated collection \"c\" -> /p", "  1 -> 2 requests"]);
    assert_eq!(c.spec_source.as_deref(), Some("spec.yaml"));
    assert_eq!(c.servers.len(), 1);
    assert_eq!(c.requests.len(), 2);
}

#[test]
fn listings() {
    assert!(nothing_to_list().starts_with("No collections yet."));
    let mut c = Collection::new("a");
    c.auth = Some(OAuthConfig::default());
    assert_eq!(
        list_entry("a", &Some("a".to_string()), "/a", &Ok(c)),
        "* a\n    0 requests, 0 server(s), oauth2\n    /a"
    );
    assert_eq!(
        list_entry("a", &None, "/a", &Err("bad".to_string())),
        "  a\n    unreadable: bad\n    /a"
    );
}

#[test]
fn deleting_asks_first() {
    assert_eq!(
        delete_question("a", &Some(Collection::new("a"))),
        "Delete collection \"a\" (0 requests)? [y/N] "
    );
    assert_eq!(delete_question("a", &None), "Delete collection \"a\"? [y/N] ");
    for yes in ["y", "Y\n", " yes ", "Yes"] {
        assert!(confirmed(yes));
    }
    for no in ["", "n", "YES", "yep"] {
        assert!(!confirmed(no));
    }
    assert_eq!(deleted_line("a", "/a"), "Deleted \"a\" (/a)");
}

#[test]
fn moves_never_overwrite() {
    assert_eq!(plan_move("/a", "/a", true), Move::Stays);
    assert_eq!(plan_move("/a", "/b", false), Move::Moves);
    assert_eq!(plan_move("/a", "/b", true), Move::Clashes);
    assert_eq!(edit_file_name("My API", 7), "cielago-my-api-7.json");
    assert_eq!(
        edit_failed("exit status: 1"),
        "editor exited with exit status: 1; collection left unchanged"
    );
    assert!(edit_unreadable("eof", "/tmp/x").contains("kept at /tmp/x;"));
    assert!(edit_clashes("B", "/b", "/tmp/x").starts_with("renaming to \"B\" would overwrite"));
    assert_eq!(edit_saved("a", "b", "/b", true), "Saved \"b\" -> /b (was \"a\")");
    assert_eq!(edit_saved("a", "a", "/a", false), "Saved \"a\" -> /a");
    assert_eq!(rename_clashes("/b"), "a collection already exists at /b — pick another name");
    assert_eq!(renamed_line("a", "b", "/b"), "Renamed \"a\" -> \"b\" (/b)");
}

#[test]
fn groups_are_counted_in_order() {
    let requests = vec![
        tagged("1", Some("store")),
        tagged("2", None),
        tagged("3", Some("Pets")),
        tagged("4", Some("store")),
    ];
    assert_eq!(
        group_counts(&requests),
        vec![
            ("Pets".to_string(), 1),
            ("default".to_string(), 1),
            ("store".to_string(), 2)
        ]
    );
    assert!(group_counts(&vec![]).is_empty());
}

#[test]
fn details_of_a_collection() {
    let mut c = Collection::new("c");
    c.spec_source = Some("spec.yaml".into());
    c.servers = vec!["https://a".into(), "https://b".into()];
    c.requests = vec![tagged("1", Some("t"))];
    assert_eq!(
        info_lines(&c, "/c"),
        vec![
            "c",
            "  file:      /c",
            "  spec:      spec.yaml",
            "  server*   https://a",
            "  server    https://b",
            "  requests:  1",
            "  variables: 0",
            "  auth:      none",
            "  groups:",
            "    t (1)"
        ]
    );
    let mut bare = Collection::new("b");
    bare.auth = Some(OAuthConfig::default());
    let lines = info_lines(&bare, "/b");
    assert_eq!(lines[2], "  servers:   (none)");
    assert_eq!(
        lines[5],
        "  auth:      oauth2 client-credentials, token url  (no client id)"
    );
    assert_eq!(lines.len(), 6);
}

#[test]
fn which_collection_is_opened() {
    let names = |v: &[&str]| -> Vec<String> { v.iter().map(|s| s.to_string()).collect() };
    let some = |s: &str| Some(s.to_string());
    assert_eq!(choose_open(some("a"), some("b"), &names(&[])), Ok("a".to_string()));
    assert_eq!(choose_open(None, some("b"), &names(&["a"])), Ok("b".to_string()));
    assert_eq!(choose_open(None, None, &names(&["a"])), Ok("a".to_string()));
    assert!(choose_open(None, None, &names(&[])).unwrap_err().starts_with("No collections yet."));
    assert!(choose_open(None, None, &names(&["a", "b"]))
        .unwrap_err()
        .ends_with("Available: a, b"));
}

#[test]
fn edits_are_settled_in_order() {
    let ok: Result<String, String> = Ok("b".to_string());
    let bad: Result<String, String> = Err("eof".to_string());
    assert_eq!(settle_edit(false, "x", "x", &bad, "/a", "/b", true), EditOutcome::Failed);
    assert_eq!(settle_edit(true, "x", "x", &bad, "/a", "/b", true), EditOutcome::Unchanged);
    assert_eq!(settle_edit(true, "x", "y", &bad, "/a", "/b", true), EditOutcome::Unreadable);
    assert_eq!(settle_edit(true, "x", "y", &ok, "/a", "/b", true), EditOutcome::Taken);
    assert_eq!(
        settle_edit(true, "x", "y", &ok, "/a", "/b", false),
        EditOutcome::Saved { moved: true }
    );
    assert_eq!(
        settle_edit(true, "x", "y", &ok, "/a", "/a", true),
        EditOutcome::Saved { moved: false }
    );
    assert!(EditOutcome::Unreadable.keeps_edits());
    assert!(EditOutcome::Taken.keeps_edits());
    assert!(!EditOutcome::Failed.keeps_edits());
    assert!(!EditOutcome::Unchanged.keeps_edits());
    assert!(!EditOutcome::Saved { moved: true }.keeps_edits());
}
