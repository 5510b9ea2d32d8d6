//! Sends from end to end, with the answers of the network given by hand.

use cielago::app::{App, Effect, SendJob};
use cielago::http::client::{receive, Prepared};
use cielago::http::oauth::{read_token, token_request};
use cielago::http::secret::{finish_secret, plan_secret, SecretPlan};
use cielago::http::send::{advance, begin, Event, Step};
use cielago::http::{prepare_request, split_url_input, token_valid, SendOutcome};
use cielago::model::{
    variables_map, AuthKind, AuthStyle, Collection, KeyValueRow, Method, OAuthConfig, SavedRequest,
    VarMap,
};
use cielago::store::AppConfig;

const BASE: &str = "http://127.0.0.1:8080";

fn header<'a>(sent: &'a Prepared, name: &str) -> Option<&'a str> {
    sent.headers.iter().find(|(k, _)| k == name).map(|(_, v)| v.as_str())
}

/// A network that gives `token` for every token request and answers every
/// request with `body`, and that keeps what reached it.
struct Network {
    token: &'static str,
    body: &'static str,
    tokens_fetched: usize,
    sent: Vec<Prepared>,
}

impl Network {
    fn new(token: &'static str, body: &'static str) -> Self {
        Network { token, body, tokens_fetched: 0, sent: Vec::new() }
    }

    /// Stands for the shell, which only ever sees `printf '…'` here.
    fn resolve(value: &str) -> Result<String, String> {
        match plan_secret(value) {
            SecretPlan::Literal(v) => Ok(v),
            SecretPlan::Command(cmd) => {
                let printed = cmd.trim_start_matches("printf '").trim_end_matches('\'');
                finish_secret(&cmd, true, "exit status: 0", printed, "")
            }
        }
    }

    fn run(&mut self, job: &SendJob) -> SendOutcome {
        let vars = variables_map(&job.variables);
        let (mut phase, mut step) = begin(job.auth.as_ref(), job.token.clone(), 0);
        loop {
            let event = match step {
                Step::Done(outcome) => return outcome,
                Step::ResolveSecret(value) => Event::Secret(Network::resolve(&value)),
                Step::FetchToken => {
                    self.tokens_fetched += 1;
                    let req = token_request(job.auth.as_ref().unwrap(), "secret");
                    assert!(req.is_ok());
                    Event::Token(read_token(true, "200 OK", self.token, 0).map_err(|f| f.message()))
                }
                Step::Send { bearer, extra } => {
                    let sent = prepare_request(
                        &job.base,
                        &job.request,
                        &vars,
                        bearer.as_deref(),
                        &extra,
                    )
                    .unwrap();
                    self.sent.push(sent);
                    let headers = vec![("content-type".to_string(), "application/json".to_string())];
                    let size = self.body.len();
                    Event::Response(Ok(receive(200, "OK", 1, headers, self.body.to_string(), size)))
                }
            };
            let next = advance(phase, event);
            phase = next.0;
            step = next.1;
        }
    }
}

fn job(auth: OAuthConfig) -> SendJob {
    SendJob {
        base: BASE.to_string(),
        request: SavedRequest::blank("x"),
        variables: Vec::new(),
        auth: Some(auth),
        token: None,
    }
}

fn app_with(base_url: String) -> App {
    let mut c = Collection::new("test");
    c.servers = vec![base_url];
    let mut req = SavedRequest::blank("get thing");
    req.method = Method::Get;
    req.path = "/things/1".into();
    req.headers.push(KeyValueRow::new("X-Request-Id", "{{uuid}}", true));
    c.requests = vec![req];
    App::new(c, "/tmp/cielago-test.json".to_string(), AppConfig::default())
}

fn send(app: &mut App, network: &mut Network) {
    app.send_selected();
    assert!(app.sending);
    match app.take_effect() {
        Some(Effect::Send(job)) => {
            let outcome = network.run(&job);
            app.handle_outcome(outcome);
        }
        other => panic!("nothing to send: {other:?}"),
    }
}

#[test]
fn sends_request_with_params_and_uuid_header() {
    let mut req = SavedRequest::blank("get pet");
    req.method = Method::Get;
    req.path = "/pets/{petId}".into();
    req.path_params.push(KeyValueRow::new("petId", "123", true));
    req.query.push(KeyValueRow::new("limit", "10", true));
    req.query.push(KeyValueRow::new("disabled", "x", false));
    req.headers.push(KeyValueRow::new("X-Request-Id", "{{uuid}}", true));
    req.headers.push(KeyValueRow::new("X-Tenant", "{{tenant}}", true));
    let mut network = Network::new("", "{\"ok\":true}");
    let outcome = network.run(&SendJob {
        base: BASE.to_string(),
        request: req,
        variables: vec![KeyValueRow::new("tenant", "acme", true)],
        auth: None,
        token: None,
    });

    let resp = outcome.result.unwrap();
    assert_eq!(resp.status, 200);
    assert!(resp.body.contains("\"ok\": true"));

    assert_eq!(network.sent.len(), 1);
    let r = &network.sent[0];
    assert_eq!(r.method, Method::Get);
    assert_eq!(r.url, "http://127.0.0.1:8080/pets/123");
    // {{uuid}} became a real UUID.
    let id = header(r, "x-request-id").unwrap();
    assert!(uuid::Uuid::parse_str(id).is_ok(), "got {id}");
    // {{tenant}} became acme.
    assert_eq!(header(r, "x-tenant").unwrap(), "acme");
    // disabled query param was not sent.
    assert_eq!(r.query, vec![("limit".to_string(), "10".to_string())]);
}

#[test]
fn oauth_client_credentials_basic_flow() {
    let cfg = OAuthConfig {
        token_url: format!("{BASE}/token"),
        client_id: "my-id".into(),
        client_secret: "my-secret".into(),
        scopes: vec!["read".into(), "write".into()],
        auth_style: AuthStyle::Basic,
        ..Default::default()
    };
    let r = token_request(&cfg, "my-secret").unwrap();
    assert_eq!(r.url, "http://127.0.0.1:8080/token");
    assert_eq!(r.basic, Some(("my-id".to_string(), "my-secret".to_string())));
    assert_eq!(
        r.form,
        vec![
            ("grant_type".to_string(), "client_credentials".to_string()),
            ("scope".to_string(), "read write".to_string()),
        ]
    );

    let answer = "{\"access_token\":\"tok-abc\",\"expires_in\":3600}";
    let token = read_token(true, "200 OK", answer, 0).unwrap();
    assert_eq!(token.access_token, "tok-abc");
    assert!(token_valid(&token, 0));
}

#[test]
fn oauth_post_style_sends_creds_in_body() {
    let cfg = OAuthConfig {
        token_url: format!("{BASE}/token"),
        client_id: "id2".into(),
        client_secret: "secret2".into(),
        scopes: vec![],
        auth_style: AuthStyle::Post,
        ..Default::default()
    };
    let r = token_request(&cfg, "secret2").unwrap();
    assert!(r.form.contains(&("client_id".to_string(), "id2".to_string())));
    assert!(r.form.contains(&("client_secret".to_string(), "secret2".to_string())));
    assert!(r.basic.is_none());
    assert!(read_token(true, "200 OK", "{\"access_token\":\"tok\"}", 0).is_ok());
}

#[test]
fn bearer_token_injected_unless_header_present() {
    let req = SavedRequest::blank("x");
    let none = Vec::new();
    let sent = prepare_request(BASE, &req, &VarMap::new(), Some("tok-1"), &none).unwrap();
    assert_eq!(sent.bearer.as_deref(), Some("tok-1"));

    // Explicit Authorization header wins over the injected bearer.
    let mut req2 = SavedRequest::blank("x2");
    req2.headers.push(KeyValueRow::new("Authorization", "Bearer manual", true));
    let sent = prepare_request(BASE, &req2, &VarMap::new(), Some("tok-2"), &none).unwrap();
    assert_eq!(sent.bearer, None);
    assert_eq!(header(&sent, "authorization").unwrap(), "Bearer manual");
}

#[test]
fn api_key_auth_resolves_shell_secret_into_header() {
    // Value is a `$(…)` command substitution, resolved at send time.
    let mut network = Network::new("", "{}");
    let outcome = network.run(&job(OAuthConfig {
        kind: AuthKind::ApiKey,
        token: "$(printf 'sk-secret')".into(),
        header: "X-Api-Key".into(),
        ..Default::default()
    }));
    assert!(outcome.result.is_ok(), "{:?}", outcome.result.err());
    assert!(outcome.token.is_none());
    assert_eq!(header(&network.sent[0], "x-api-key").unwrap(), "sk-secret");
}

#[test]
fn bearer_auth_sends_resolved_token() {
    let mut network = Network::new("", "{}");
    let outcome = network.run(&job(OAuthConfig {
        kind: AuthKind::Bearer,
        token: "plain-tok".into(),
        ..Default::default()
    }));
    assert!(outcome.result.is_ok(), "{:?}", outcome.result.err());
    assert_eq!(network.sent[0].bearer.as_deref(), Some("plain-tok"));
}

/// A pasted URL becomes a request to the server it named, with the query it
/// carried.
#[test]
fn a_pasted_url_sends_to_the_pasted_server() {
    let parts = split_url_input(&format!("{BASE}/v1/pets?limit=5"));
    let mut req = SavedRequest::blank("pasted");
    req.path = parts.path;
    req.query = parts.query.unwrap();
    req.sync_path_params();

    let sent =
        prepare_request(&parts.origin.unwrap(), &req, &VarMap::new(), None, &Vec::new()).unwrap();
    assert_eq!(sent.url, "http://127.0.0.1:8080/v1/pets");
    assert_eq!(sent.query, vec![("limit".to_string(), "5".to_string())]);
}

#[test]
fn send_from_app_updates_response_pane() {
    let mut network = Network::new("", "{\"id\":1}");
    let mut app = app_with(BASE.to_string());
    assert!(app.response.is_none());

    send(&mut app, &mut network);

    assert!(!app.sending);
    let resp = app.response.as_ref().expect("response recorded");
    assert_eq!(resp.status, 200);
    assert!(resp.body.contains("\"id\": 1"));
    assert!(app.status.contains("200"));

    // {{uuid}} was substituted in the outgoing header.
    let id = header(&network.sent[0], "x-request-id").unwrap();
    assert!(uuid::Uuid::parse_str(id).is_ok(), "got {id}");
}

#[test]
fn send_with_oauth_fetches_and_caches_token() {
    let mut network = Network::new("{\"access_token\":\"cached-tok\",\"expires_in\":3600}", "{}");
    let mut app = app_with(BASE.to_string());
    app.collection.auth = Some(OAuthConfig {
        token_url: format!("{BASE}/token"),
        client_id: "id".into(),
        client_secret: "secret".into(),
        scopes: vec![],
        auth_style: AuthStyle::Basic,
        ..Default::default()
    });

    // First send: fetches a token.
    send(&mut app, &mut network);
    assert_eq!(app.response.as_ref().unwrap().status, 200);
    assert!(app.token.is_some());

    // Second send: reuses the cached token.
    send(&mut app, &mut network);
    assert_eq!(app.response.as_ref().unwrap().status, 200);
    assert_eq!(network.tokens_fetched, 1);

    // Both API calls carried the bearer token.
    assert_eq!(network.sent.len(), 2);
    for r in &network.sent {
        assert_eq!(r.url, "http://127.0.0.1:8080/things/1");
        assert_eq!(r.bearer.as_deref(), Some("cached-tok"));
    }
}
