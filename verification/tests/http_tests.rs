//! Requests as they go out, answers as they come in, and the steps of a send.

use cielago::http::client::{
    choose_body, compose_request, encode_path_segment, human_size, is_json, receive, HeaderFault, Texts,
};
use cielago::http::oauth::{read_token, token_of, token_request, TokenFault};
use cielago::http::send::{advance, begin, Event, Phase, Step};
use cielago::http::{build_url, prepare_request, split_url_input, token_valid, HttpResponse, OAuthToken};
use cielago::model::{
    AuthKind, AuthStyle, KeyValueRow, Method, OAuthConfig, SavedRequest, VarMap,
};
use cielago::openapi::parse_spec;

fn text_pairs(pairs: &[(&str, &str)]) -> Vec<(String, String)> {
    pairs.iter().map(|(k, v)| (k.to_string(), v.to_string())).collect()
}

fn header<'a>(headers: &'a [(String, String)], name: &str) -> Option<&'a str> {
    headers.iter().find(|(k, _)| k == name).map(|(_, v)| v.as_str())
}

/// The compose/decompose contract: what `split_url_input` pulls apart,
/// `build_url` must put back together.
#[test]
fn pasted_url_round_trips_through_build_url() {
    let pasted = "https://api.example.com/orgs/{orgId}/pets?limit=10&sort=name";
    let parts = split_url_input(pasted);

    let mut req = SavedRequest::blank("round trip");
    req.path = parts.path;
    req.query = parts.query.unwrap();
    req.sync_path_params();
    // Path params come out of the paste blank; fill the one placeholder.
    assert_eq!(req.path_params.len(), 1);
    req.path_params[0].value = "acme".into();

    let base = parts.origin.unwrap();
    let url = build_url(&base, &req, &VarMap::new());
    assert_eq!(url, "https://api.example.com/orgs/acme/pets");
    // The query is sent along rather than put into the URL, so check the rows.
    let query: Vec<(&str, &str)> = req
        .query
        .iter()
        .map(|r| (r.key.as_str(), r.value.as_str()))
        .collect();
    assert_eq!(query, vec![("limit", "10"), ("sort", "name")]);
}

#[test]
fn requests_are_filled_in_and_filtered() {
    let mut req = SavedRequest::blank("get pet");
    req.method = Method::Get;
    req.path = "/pets/{petId}".into();
    req.path_params.push(KeyValueRow::new("petId", "1 2/3", true));
    req.query.push(KeyValueRow::new("limit", "10", true));
    req.query.push(KeyValueRow::new("disabled", "x", false));
    req.headers.push(KeyValueRow::new("X-Request-Id", "{{uuid}}", true));
    req.headers.push(KeyValueRow::new("X-Tenant", "{{tenant}}", true));
    let mut vars = VarMap::new();
    vars.insert("tenant", "acme");
    let p = prepare_request("https://a.example.com/", &req, &vars, None, &vec![]).unwrap();
    assert_eq!(p.method, Method::Get);
    assert_eq!(p.url, "https://a.example.com/pets/1%202%2F3");
    assert_eq!(p.query, text_pairs(&[("limit", "10")]));
    assert_eq!(header(&p.headers, "x-tenant"), Some("acme"));
    assert!(uuid::Uuid::parse_str(header(&p.headers, "x-request-id").unwrap()).is_ok());
    assert_eq!(p.bearer, None);
    assert_eq!(p.body, None);
}

#[test]
fn own_authorization_wins_over_the_token() {
    let none = VarMap::new();
    let req = SavedRequest::blank("x");
    let p = prepare_request("https://a", &req, &none, Some("tok-1"), &vec![]).unwrap();
    assert_eq!(p.bearer.as_deref(), Some("tok-1"));

    let mut own = SavedRequest::blank("x2");
    own.headers.push(KeyValueRow::new("Authorization", "Bearer manual", true));
    let p = prepare_request("https://a", &own, &none, Some("tok-2"), &vec![]).unwrap();
    assert_eq!(p.bearer, None);
    assert_eq!(header(&p.headers, "authorization"), Some("Bearer manual"));
}

#[test]
fn bodies_get_a_content_type_unless_they_have_one() {
    let none = VarMap::new();
    let mut req = SavedRequest::blank("x");
    req.body = Some("{}".to_string());
    let p = prepare_request("https://a", &req, &none, None, &vec![]).unwrap();
    assert_eq!(header(&p.headers, "content-type"), Some("application/json"));
    req.headers.push(KeyValueRow::new("Content-Type", "text/plain", true));
    let p = prepare_request("https://a", &req, &none, None, &vec![]).unwrap();
    assert_eq!(header(&p.headers, "content-type"), Some("text/plain"));
    req.body = Some("  \n".to_string());
    req.headers.clear();
    let p = prepare_request("https://a", &req, &none, None, &vec![]).unwrap();
    assert_eq!(p.body, None);
    assert_eq!(header(&p.headers, "content-type"), None);
}

#[test]
fn bad_headers_are_named() {
    let none = VarMap::new();
    let mut req = SavedRequest::blank("x");
    req.headers.push(KeyValueRow::new("not a name", "v", true));
    let e = prepare_request("https://a", &req, &none, None, &vec![]).unwrap_err();
    assert_eq!(e, HeaderFault::Name("not a name".to_string()));
    assert_eq!(e.message(), "invalid header name \"not a name\": invalid HTTP header name");
    req.headers[0] = KeyValueRow::new("X-A", "line\nbreak", true);
    let e = prepare_request("https://a", &req, &none, None, &vec![]).unwrap_err();
    assert_eq!(e, HeaderFault::Value("X-A".to_string()));
    assert_eq!(e.message(), "invalid value for header \"X-A\": failed to parse header value");
}

#[test]
fn extra_headers_give_way_to_own_ones() {
    let none = VarMap::new();
    let extra = text_pairs(&[("X-Api-Key", "sk")]);
    let mut req = SavedRequest::blank("x");
    let p = prepare_request("https://a", &req, &none, None, &extra).unwrap();
    assert_eq!(header(&p.headers, "x-api-key"), Some("sk"));
    req.headers.push(KeyValueRow::new("x-api-key", "mine", true));
    let p = prepare_request("https://a", &req, &none, None, &extra).unwrap();
    assert_eq!(header(&p.headers, "x-api-key"), Some("mine"));
}

#[test]
fn a_request_from_given_texts() {
    let mut req = SavedRequest::blank("x");
    req.method = Method::Put;
    req.path_params.push(KeyValueRow::new("id", "ignored", true));
    let texts = Texts {
        path: "/a/{id}".to_string(),
        values: vec!["7".to_string()],
        query: text_pairs(&[("q", "1")]),
        headers: vec![],
        body: Some("b".to_string()),
    };
    let p = compose_request("https://h", &req, Some("t"), &vec![], texts).unwrap();
    assert_eq!(p.url, "https://h/a/7");
    assert_eq!(p.query, text_pairs(&[("q", "1")]));
    assert_eq!(p.bearer.as_deref(), Some("t"));
    assert_eq!(p.body.as_deref(), Some("b"));
}

#[test]
fn segments_are_percent_encoded() {
    assert_eq!(encode_path_segment("aZ0-_.~"), "aZ0-_.~");
    assert_eq!(encode_path_segment("a b/é"), "a%20b%2F%C3%A9");
}

#[test]
fn sizes_are_rounded_to_a_tenth() {
    assert_eq!(human_size(0), "0B");
    assert_eq!(human_size(1023), "1023B");
    assert_eq!(human_size(1024), "1.0kB");
    assert_eq!(human_size(1536), "1.5kB");
    assert_eq!(human_size(1024 * 1024), "1.0MB");
    for n in [1100usize, 1075, 5_000_000, 999_999, 1_048_575, 123_456_789] {
        let expected = if n < 1024 * 1024 {
            format!("{:.1}kB", n as f64 / 1024.0)
        } else {
            format!("{:.1}MB", n as f64 / (1024.0 * 1024.0))
        };
        assert_eq!(human_size(n), expected);
    }
}

#[test]
fn json_answers_are_laid_out() {
    let h = text_pairs(&[("Content-Type", "application/json; charset=utf-8")]);
    assert!(is_json(&h));
    assert!(!is_json(&text_pairs(&[("content-type", "text/plain")])));
    let r = receive(200, "OK", 12, h, "{\"b\":1,\"a\":[]}".to_string(), 14);
    assert_eq!(r.body, "{\n  \"b\": 1,\n  \"a\": []\n}");
    assert_eq!(r.status_line(), "200 OK · 12ms · 14B");
    let r = receive(200, "OK", 1, text_pairs(&[("content-type", "application/json")]), "{".to_string(), 1);
    assert_eq!(r.body, "{");
    let r = receive(200, "OK", 1, vec![], "{\"b\":1}".to_string(), 7);
    assert_eq!(r.body, "{\"b\":1}");
    assert_eq!(choose_body("x".to_string(), true, Err("no".to_string())), "x");
}

// ----- OAuth -----

fn oauth() -> OAuthConfig {
    let mut c = OAuthConfig::default();
    c.token_url = "https://auth.example.com/token".into();
    c.client_id = "my-id".into();
    c.client_secret = "my-secret".into();
    c
}

#[test]
fn token_requests_carry_credentials_by_style() {
    let mut cfg = oauth();
    cfg.scopes = vec!["read".into(), "write".into()];
    let r = token_request(&cfg, "my-secret").unwrap();
    assert_eq!(r.url, "https://auth.example.com/token");
    assert_eq!(
        r.form,
        text_pairs(&[("grant_type", "client_credentials"), ("scope", "read write")])
    );
    assert_eq!(r.basic, Some(("my-id".to_string(), "my-secret".to_string())));

    cfg.auth_style = AuthStyle::Post;
    cfg.scopes.clear();
    let r = token_request(&cfg, "s2").unwrap();
    assert_eq!(
        r.form,
        text_pairs(&[
            ("grant_type", "client_credentials"),
            ("client_id", "my-id"),
            ("client_secret", "s2")
        ])
    );
    assert_eq!(r.basic, None);

    cfg.token_url.clear();
    assert_eq!(token_request(&cfg, "s").unwrap_err(), TokenFault::NoUrl);
    assert!(TokenFault::NoUrl.message().contains("not configured"));
}

#[test]
fn tokens_expire_a_little_early() {
    let t = token_of(
        &parse_spec(r#"{"access_token": "tok-abc", "expires_in": 3600}"#).unwrap(),
        1_000,
    )
    .unwrap();
    assert_eq!(t.access_token, "tok-abc");
    assert_eq!(t.expires_at, 1_000 + 3_570_000);
    assert!(token_valid(&t, 1_000 + 3_569_999));
    assert!(!token_valid(&t, 1_000 + 3_570_000));
    // Without a lifetime an hour is taken.
    let t = read_token(true, "200 OK", r#"{"access_token": "t"}"#, 0).unwrap();
    assert_eq!(t.expires_at, 3_570_000);
    let t = read_token(true, "200 OK", r#"{"access_token": "t", "expires_in": 10}"#, 5).unwrap();
    assert_eq!(t.expires_at, 5);
}

#[test]
fn refused_tokens_say_why() {
    let e = read_token(false, "400 Bad Request", "nope", 0).unwrap_err();
    assert_eq!(e.message(), "token request returned 400 Bad Request: nope");
    let e = read_token(true, "200 OK", "not json", 0).unwrap_err();
    assert!(e.message().starts_with("token response is not JSON: "));
    let e = read_token(true, "200 OK", "{}", 0).unwrap_err();
    assert_eq!(e, TokenFault::NoToken);
    assert_eq!(e.message(), "token response missing access_token");
}

// ----- the steps of a send -----

fn response(status: u16) -> HttpResponse {
    HttpResponse {
        status,
        reason: String::new(),
        elapsed_ms: 1,
        headers: vec![],
        body: String::new(),
        size: 0,
    }
}

fn token(name: &str, expires_at: u128) -> OAuthToken {
    OAuthToken { access_token: name.to_string(), expires_at }
}

#[test]
fn without_auth_the_request_goes_out_as_it_is() {
    let (phase, step) = begin(None, Some(token("t", 9)), 0);
    assert_eq!(step, Step::Send { bearer: None, extra: vec![] });
    let (phase, step) = advance(phase, Event::Response(Ok(response(401))));
    assert_eq!(phase, Phase::Over);
    if let Step::Done(o) = step {
        assert_eq!(o.result.unwrap().status, 401);
        assert_eq!(o.token.unwrap().access_token, "t");
    } else {
        panic!("not over");
    }
}

#[test]
fn fixed_schemes_resolve_their_secret() {
    let mut cfg = OAuthConfig::blank(AuthKind::ApiKey);
    cfg.token = "$(printf 'sk-secret')".into();
    cfg.header = "X-Api-Key".into();
    let (phase, step) = begin(Some(&cfg), None, 0);
    assert_eq!(step, Step::ResolveSecret("$(printf 'sk-secret')".to_string()));
    let (phase, step) = advance(phase, Event::Secret(Ok("sk-secret".to_string())));
    assert_eq!(
        step,
        Step::Send { bearer: None, extra: text_pairs(&[("X-Api-Key", "sk-secret")]) }
    );
    let (_, step) = advance(phase, Event::Response(Ok(response(200))));
    if let Step::Done(o) = step {
        assert!(o.result.is_ok());
        assert!(o.token.is_none());
    } else {
        panic!("not over");
    }

    let mut cfg = OAuthConfig::blank(AuthKind::Bearer);
    cfg.token = "plain-tok".into();
    let (phase, _) = begin(Some(&cfg), Some(token("stale", 9)), 0);
    let (_, step) = advance(phase, Event::Secret(Err("no shell".to_string())));
    if let Step::Done(o) = step {
        assert_eq!(o.result.unwrap_err(), "secret resolution failed: no shell");
        assert!(o.token.is_none());
    } else {
        panic!("not over");
    }
}

#[test]
fn valid_tokens_are_reused_and_refreshed_once() {
    let cfg = oauth();
    let (_, step) = begin(Some(&cfg), Some(token("cached", 100)), 99);
    assert_eq!(step, Step::Send { bearer: Some("cached".to_string()), extra: vec![] });

    let (phase, step) = begin(Some(&cfg), Some(token("cached", 100)), 100);
    assert_eq!(step, Step::FetchToken);
    let (phase, step) = advance(phase, Event::Token(Ok(token("one", 500))));
    assert_eq!(step, Step::Send { bearer: Some("one".to_string()), extra: vec![] });
    let (phase, step) = advance(phase, Event::Response(Ok(response(401))));
    assert_eq!(step, Step::FetchToken);
    let (phase, step) = advance(phase, Event::Token(Ok(token("two", 900))));
    assert_eq!(step, Step::Send { bearer: Some("two".to_string()), extra: vec![] });
    // The second 401 stands.
    let (_, step) = advance(phase, Event::Response(Ok(response(401))));
    if let Step::Done(o) = step {
        assert_eq!(o.result.unwrap().status, 401);
        assert_eq!(o.token.unwrap().access_token, "two");
    } else {
        panic!("not over");
    }
}

#[test]
fn a_failed_fetch_ends_the_send() {
    let cfg = oauth();
    let (phase, _) = begin(Some(&cfg), None, 0);
    let (_, step) = advance(phase, Event::Token(Err("down".to_string())));
    if let Step::Done(o) = step {
        assert_eq!(o.result.unwrap_err(), "token fetch failed: down");
        assert!(o.token.is_none());
    } else {
        panic!("not over");
    }
}

#[test]
fn a_failed_refresh_shows_the_refusal() {
    let cfg = oauth();
    let (phase, _) = begin(Some(&cfg), Some(token("t", 9)), 0);
    let (phase, _) = advance(phase, Event::Response(Ok(response(401))));
    let (_, step) = advance(phase, Event::Token(Err("down".to_string())));
    if let Step::Done(o) = step {
        assert_eq!(o.result.unwrap().status, 401);
        assert_eq!(o.token.unwrap().access_token, "t");
    } else {
        panic!("not over");
    }
}
