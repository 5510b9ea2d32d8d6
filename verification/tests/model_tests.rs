//! Collections, requests and their rows.

use cielago::model::{
    path_placeholders, variables_map, AuthKind, AuthStyle, Collection, KeyValueRow, LabelMode, Method,
    OAuthConfig, SavedRequest,
};

fn keys(rows: &[KeyValueRow]) -> Vec<&str> {
    rows.iter().map(|r| r.key.as_str()).collect()
}

#[test]
fn path_placeholders_finds_single_braces() {
    assert_eq!(
        path_placeholders("/pets/{petId}/photos/{photoId}"),
        vec!["petId", "photoId"]
    );
    assert!(path_placeholders("/pets").is_empty());
    // Deduped, and blank or path-spanning braces are ignored.
    assert_eq!(path_placeholders("/a/{id}/b/{id}"), vec!["id"]);
    assert!(path_placeholders("/a/{}/b").is_empty());
    assert!(path_placeholders("/a/{oops/b}").is_empty());
    // An unterminated brace ends the scan rather than looping.
    assert!(path_placeholders("/pets/{petId").is_empty());
}

#[test]
fn path_placeholders_skips_double_brace_variables() {
    assert_eq!(path_placeholders("/{{tenant}}/pets/{petId}"), vec!["petId"]);
    assert!(path_placeholders("{{baseUrl}}/pets").is_empty());
    assert!(path_placeholders("/a/{{unterminated").is_empty());
}

#[test]
fn sync_path_params_adds_prunes_and_reorders() {
    let mut req = SavedRequest::blank("r");
    req.path = "/orgs/{orgId}/pets/{petId}".into();
    req.path_params = vec![
        KeyValueRow::new("petId", "42", true),
        KeyValueRow::new("stale", "x", true),
    ];

    assert!(req.sync_path_params());
    assert_eq!(keys(&req.path_params), vec!["orgId", "petId"]);
    // A second call is a no-op.
    assert!(!req.sync_path_params());

    req.path = "/pets".into();
    assert!(req.sync_path_params());
    assert!(req.path_params.is_empty());
}

#[test]
fn sync_path_params_keeps_existing_values_and_flags() {
    let mut req = SavedRequest::blank("r");
    req.path = "/pets/{petId}".into();
    req.path_params = vec![KeyValueRow::new("petId", "42", false)];

    assert!(!req.sync_path_params());
    assert_eq!(req.path_params[0].value, "42");
    assert!(!req.path_params[0].enabled);
}

#[test]
fn variables_map_respects_enabled() {
    let vars = vec![
        KeyValueRow::new("a", "1", true),
        KeyValueRow::new("b", "2", false),
        KeyValueRow::new("", "3", true),
    ];
    let map = variables_map(&vars);
    assert_eq!(map.get("a").unwrap(), "1");
    assert!(!map.contains_key("b"));
    assert!(!map.contains_key(""));
}

#[test]
fn later_variables_win() {
    let vars = vec![
        KeyValueRow::new("a", "1", true),
        KeyValueRow::new("a", "2", true),
        KeyValueRow::new("a", "3", false),
    ];
    assert_eq!(variables_map(&vars).get("a").unwrap(), "2");
}

#[test]
fn verbs_are_read_in_any_case() {
    for (text, m) in [
        ("get", Method::Get),
        ("Post", Method::Post),
        ("PUT", Method::Put),
        ("patch", Method::Patch),
        ("dElEtE", Method::Delete),
        ("HEAD", Method::Head),
        ("options", Method::Options),
    ] {
        assert_eq!(Method::parse(text), Some(m));
        assert_eq!(Method::parse(m.as_str()), Some(m));
    }
    assert_eq!(Method::parse("trace"), None);
    assert_eq!(Method::parse(""), None);
}

#[test]
fn labels_and_schemes_cycle() {
    let mut l = LabelMode::Name;
    for t in ["name", "summary", "path", "name"] {
        assert_eq!(l.title(), t);
        l = l.next();
    }
    assert_eq!(AuthKind::Bearer.next(), AuthKind::ApiKey);
    assert_eq!(AuthKind::ApiKey.next(), AuthKind::Oauth2);
    assert_eq!(AuthKind::Oauth2.next(), AuthKind::Bearer);
}

#[test]
fn auth_needs_the_fields_of_its_scheme() {
    let mut a = OAuthConfig::default();
    assert_eq!(a.kind, AuthKind::Oauth2);
    assert_eq!(a.auth_style, AuthStyle::Basic);
    assert!(!a.is_configured());
    a.token_url = "https://auth.example.com".into();
    assert!(!a.is_configured());
    a.client_id = "id".into();
    assert!(a.is_configured());
    a.kind = AuthKind::ApiKey;
    assert!(!a.is_configured());
    a.token = "k".into();
    assert!(a.is_configured());
    assert_eq!(a.api_key_header(), "X-API-Key");
    a.header = " X-Key ".into();
    assert_eq!(a.api_key_header(), "X-Key");
}

#[test]
fn base_url_is_the_active_server() {
    let mut c = Collection::new("c");
    assert_eq!(c.base_url(), None);
    c.servers = vec!["https://a".into(), "https://b".into()];
    c.active_server = 1;
    assert_eq!(c.base_url(), Some("https://b"));
    c.active_server = 2;
    assert_eq!(c.base_url(), None);
}

#[test]
fn replacing_requests_leaves_the_rest() {
    let mut c = Collection::new("mine");
    c.servers = vec!["https://a".into()];
    c.requests = vec![SavedRequest::blank("old")];
    c.last_request = Some(c.requests[0].id);
    let mut fresh = Collection::new("theirs");
    fresh.requests = vec![SavedRequest::blank("new"), SavedRequest::blank("newer")];
    c.replace_requests_from(fresh);
    assert_eq!(c.name, "mine");
    assert_eq!(c.servers.len(), 1);
    assert_eq!(c.requests.len(), 2);
    assert_eq!(c.last_request, None);
}

#[test]
fn search_looks_at_names_paths_verbs_and_tags() {
    let mut r = SavedRequest::blank("List Pets");
    r.method = Method::Delete;
    r.path = "/animals".into();
    r.summary = Some("Everything furry".into());
    r.operation_id = Some("petsList".into());
    r.tags = vec!["Zoo".into()];
    for needle in ["list pets", "ANIMALS", "furry", "PETSLIST", "delete", "zoo", ""] {
        assert!(r.matches(needle), "{needle}");
    }
    assert!(!r.matches("post"));
}

#[test]
fn first_placeholder_comes_first() {
    assert_eq!(path_placeholders("/a/{ id }/{b}/{id}"), vec!["id", "b"]);
    assert_eq!(path_placeholders("/a/{{id}}/{b}"), vec!["b"]);
    assert!(path_placeholders("/a").is_empty());
}
