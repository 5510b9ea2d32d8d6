//! What a URL-bar entry decomposes into.

use cielago::http::url_input::{query_rows, restore_braces, split_address, ParsedUrl};
use cielago::http::{split_url_input, UrlParts};

fn rows(parts: &UrlParts) -> Vec<(String, String)> {
    parts
        .query
        .as_ref()
        .map(|q| q.iter().map(|r| (r.key.clone(), r.value.clone())).collect())
        .unwrap_or_default()
}

#[test]
fn splits_a_full_url() {
    let p = split_url_input("https://api.example.com/v1/pets?limit=10");
    assert_eq!(p.origin.as_deref(), Some("https://api.example.com"));
    assert_eq!(p.path, "/v1/pets");
    assert_eq!(rows(&p), vec![("limit".to_string(), "10".to_string())]);
}

#[test]
fn bare_path_has_no_origin() {
    let p = split_url_input("/v1/pets");
    assert_eq!(p.origin, None);
    assert_eq!(p.path, "/v1/pets");
    assert_eq!(p.query, None);
}

#[test]
fn relative_path_gains_a_leading_slash() {
    assert_eq!(split_url_input("pets/42").path, "/pets/42");
}

#[test]
fn host_with_port_and_no_scheme_is_relative() {
    // The URL parser accepts this with scheme "localhost"; we must not.
    let p = split_url_input("localhost:8080/pets");
    assert_eq!(p.origin, None);
    assert_eq!(p.path, "/localhost:8080/pets");
}

#[test]
fn keeps_brace_placeholders_unencoded() {
    let p = split_url_input("https://api.example.com/pets/{petId}/photos");
    assert_eq!(p.path, "/pets/{petId}/photos");
}

#[test]
fn keeps_double_brace_variables_in_a_relative_path() {
    let p = split_url_input("{{prefix}}/pets");
    assert_eq!(p.origin, None);
    assert_eq!(p.path, "{{prefix}}/pets");
}

#[test]
fn drops_the_fragment() {
    assert_eq!(
        split_url_input("https://api.example.com/pets#section").path,
        "/pets"
    );
    assert_eq!(split_url_input("/pets#section").path, "/pets");
    assert_eq!(split_url_input("/pets?a=1#section").path, "/pets");
    assert_eq!(
        rows(&split_url_input("/pets?a=1#section")),
        vec![("a".to_string(), "1".to_string())]
    );
}

#[test]
fn empty_input_becomes_root_path() {
    let p = split_url_input("   ");
    assert_eq!(p.path, "/");
    assert_eq!(p.origin, None);
    assert_eq!(p.query, None);
}

#[test]
fn absent_question_mark_leaves_query_none() {
    assert_eq!(split_url_input("https://api.example.com/pets").query, None);
    assert_eq!(split_url_input("/pets").query, None);
}

#[test]
fn bare_question_mark_clears_the_query() {
    assert_eq!(split_url_input("/pets?").query, Some(Vec::new()));
    assert_eq!(
        split_url_input("https://api.example.com/pets?").query,
        Some(Vec::new())
    );
}

#[test]
fn decodes_query_values() {
    let p = split_url_input("/search?q=hello%20world&tag=a%2Bb");
    assert_eq!(
        rows(&p),
        vec![
            ("q".to_string(), "hello world".to_string()),
            ("tag".to_string(), "a+b".to_string()),
        ]
    );
}

#[test]
fn default_ports_are_dropped_from_the_origin() {
    assert_eq!(
        split_url_input("https://api.example.com:443/pets")
            .origin
            .as_deref(),
        Some("https://api.example.com")
    );
    assert_eq!(
        split_url_input("http://localhost:8080/pets")
            .origin
            .as_deref(),
        Some("http://localhost:8080")
    );
}

#[test]
fn query_rows_are_enabled_and_skip_empty_keys() {
    let p = split_url_input("/pets?a=1&=2&b");
    let q = p.query.unwrap();
    assert_eq!(q.len(), 2);
    assert!(q.iter().all(|r| r.enabled));
    assert_eq!(q[1].key, "b");
    assert_eq!(q[1].value, "");
}

#[test]
fn only_braces_are_decoded_in_a_path() {
    assert_eq!(restore_braces("/a/%7Bid%7D/%7bx%7d/b%20c"), "/a/{id}/{x}/b%20c");
    assert_eq!(
        split_url_input("https://api.example.com/a b/{id}").path,
        "/a%20b/{id}"
    );
}

#[test]
fn other_schemes_are_no_addresses() {
    let url = ParsedUrl {
        scheme: "ftp".to_string(),
        has_host: true,
        origin: "ftp://files.example.com".to_string(),
        path: "/x".to_string(),
        query: None,
    };
    let a = split_address("ftp://files.example.com/x", Some(url));
    assert_eq!(a.origin, None);
    assert_eq!(a.path, "/ftp://files.example.com/x");
}

#[test]
fn rows_come_from_named_pairs() {
    let pairs = vec![
        ("a".to_string(), "1".to_string()),
        (String::new(), "2".to_string()),
    ];
    let rows = query_rows(&pairs);
    assert_eq!(rows.len(), 1);
    assert_eq!(rows[0].key, "a");
    assert!(rows[0].enabled);
}

#[test]
fn fragments_make_no_difference() {
    for entry in ["https://a.example.com/x?y=1", "https://a.example.com", "/x?y=1", "{{base}}/x", "?", ""] {
        let with = split_url_input(&format!("{entry}#frag?z=2"));
        assert_eq!(with, split_url_input(entry), "{entry}");
        assert_eq!(with.query.is_some(), entry.contains('?'), "{entry}");
        assert!(with.path.starts_with('/') || with.path.starts_with("{{"), "{entry}");
    }
    assert_eq!(split_url_input("https://a.example.com").path, "/");
}

#[test]
fn fragments_make_no_difference_to_odd_endings() {
    // Nothing here is an http(s) URL, so nothing is dropped at the end.
    for entry in ["/a\u{1}", "hello\u{1}", "ftp://h/a\u{1}", "http:\u{1}"] {
        let with = split_url_input(&format!("{entry}#frag"));
        assert_eq!(with, split_url_input(entry), "{entry:?}");
        assert_eq!(with.origin, None);
    }
    // The parser drops a control character at the end of a URL, but not in front
    // of a fragment.
    let bare = split_url_input("http://h/a\u{1}");
    let with = split_url_input("http://h/a\u{1}#frag");
    assert_eq!(bare.path, "/a");
    assert_eq!(with.path, "/a%01");
}
