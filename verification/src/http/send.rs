//! What to do, step by step, to send a request under an auth scheme: pick the
//! scheme, and for OAuth cache the token and retry once on a 401.

use vstd::prelude::*;

use crate::http::client::{HttpResponse, Pairs, ResponseView};
use crate::http::oauth::{token_valid, OAuthToken, TokenView};
use crate::model::{configured, key_header, AuthKind, AuthView, OAuthConfig};
use crate::text::{cat, group_views, opt, views};

verus! {

broadcast use group_views;

/// How a send ended.
#[derive(Debug, PartialEq, Eq)]
pub struct SendOutcome {
    pub result: Result<HttpResponse, String>,
    /// Latest OAuth token cache (unchanged on failure, refreshed when one was
    /// fetched). Always `None` under the bearer and API-key schemes, which hold
    /// no cache.
    pub token: Option<OAuthToken>,
}

#[verifier::ext_equal]
pub struct OutcomeView {
    pub result: Result<ResponseView, Seq<char>>,
    pub token: Option<TokenView>,
}

/// A result whose error is a message, viewed.
pub open spec fn told<T: View>(r: Result<T, String>) -> Result<T::V, Seq<char>> {
    match r {
        Ok(x) => Ok(x@),
        Err(m) => Err(m@),
    }
}

impl View for SendOutcome {
    type V = OutcomeView;

    open spec fn view(&self) -> OutcomeView {
        OutcomeView { result: told(self.result), token: opt(self.token) }
    }
}

/// What is to be done next.
#[derive(Debug, PartialEq, Eq)]
pub enum Step {
    /// Resolve this secret value.
    ResolveSecret(String),
    /// Fetch a new OAuth token.
    FetchToken,
    /// Send the request with this token and these headers.
    Send { bearer: Option<String>, extra: Vec<(String, String)> },
    /// Nothing: the send is over.
    Done(SendOutcome),
}

#[verifier::ext_equal]
pub enum StepView {
    ResolveSecret(Seq<char>),
    FetchToken,
    Send { bearer: Option<Seq<char>>, extra: Pairs },
    Done(OutcomeView),
}

impl View for Step {
    type V = StepView;

    open spec fn view(&self) -> StepView {
        match self {
            Step::ResolveSecret(s) => StepView::ResolveSecret(s@),
            Step::FetchToken => StepView::FetchToken,
            Step::Send { bearer, extra } => StepView::Send { bearer: opt(*bearer), extra: views(extra@) },
            Step::Done(o) => StepView::Done(o@),
        }
    }
}

/// What came of the step before.
#[derive(Debug, PartialEq, Eq)]
pub enum Event {
    Secret(Result<String, String>),
    Token(Result<OAuthToken, String>),
    Response(Result<HttpResponse, String>),
}

#[verifier::ext_equal]
pub enum EventView {
    Secret(Result<Seq<char>, Seq<char>>),
    Token(Result<TokenView, Seq<char>>),
    Response(Result<ResponseView, Seq<char>>),
}

impl View for Event {
    type V = EventView;

    open spec fn view(&self) -> EventView {
        match self {
            Event::Secret(r) => EventView::Secret(told(*r)),
            Event::Token(r) => EventView::Token(told(*r)),
            Event::Response(r) => EventView::Response(told(*r)),
        }
    }
}

/// What a send is waiting for.
#[derive(Debug, PartialEq, Eq)]
pub enum Phase {
    /// The bearer token, which may be a secret to resolve.
    BearerSecret,
    /// The API key, to be sent in `header`.
    KeySecret { header: String },
    /// The first OAuth token.
    Token { cached: Option<OAuthToken> },
    /// The response to the first try under OAuth.
    First { token: OAuthToken },
    /// A new token after a 401.
    Refresh { refused: HttpResponse, token: OAuthToken },
    /// The response that ends the send.
    Last { kept: Option<OAuthToken> },
    /// Nothing any more.
    Over,
}

#[verifier::ext_equal]
pub enum PhaseView {
    BearerSecret,
    KeySecret { header: Seq<char> },
    Token { cached: Option<TokenView> },
    First { token: TokenView },
    Refresh { refused: ResponseView, token: TokenView },
    Last { kept: Option<TokenView> },
    Over,
}

impl View for Phase {
    type V = PhaseView;

    open spec fn view(&self) -> PhaseView {
        match self {
            Phase::BearerSecret => PhaseView::BearerSecret,
            Phase::KeySecret { header } => PhaseView::KeySecret { header: header@ },
            Phase::Token { cached } => PhaseView::Token { cached: opt(*cached) },
            Phase::First { token } => PhaseView::First { token: token@ },
            Phase::Refresh { refused, token } => PhaseView::Refresh {
                refused: refused@,
                token: token@,
            },
            Phase::Last { kept } => PhaseView::Last { kept: opt(*kept) },
            Phase::Over => PhaseView::Over,
        }
    }
}

pub open spec fn send_with(token: TokenView) -> (PhaseView, StepView) {
    (
        PhaseView::First { token },
        StepView::Send { bearer: Some(token.access_token), extra: Seq::empty() },
    )
}

pub open spec fn over(
    result: Result<ResponseView, Seq<char>>,
    token: Option<TokenView>,
) -> (PhaseView, StepView) {
    (PhaseView::Over, StepView::Done(OutcomeView { result, token }))
}

/// The first step:
/// - no usable auth: send as it is;
/// - bearer and API key: resolve the secret first;
/// - OAuth: use the cached token while it is valid, fetch one otherwise.
pub open spec fn begun(auth: Option<AuthView>, cached: Option<TokenView>, now: nat) -> (
    PhaseView,
    StepView,
) {
    if auth is None || !configured(auth->0) {
        (
            PhaseView::Last { kept: cached },
            StepView::Send { bearer: None, extra: Seq::empty() },
        )
    } else {
        let a = auth->0;
        match a.kind {
            AuthKind::Bearer => (
                PhaseView::BearerSecret,
                StepView::ResolveSecret(a.token),
            ),
            AuthKind::ApiKey => (
                PhaseView::KeySecret { header: key_header(a) },
                StepView::ResolveSecret(a.token),
            ),
            AuthKind::Oauth2 => if cached is Some && now < cached->0.expires_at {
                send_with(cached->0)
            } else {
                (PhaseView::Token { cached }, StepView::FetchToken)
            },
        }
    }
}

/// Whether `e` is what a send in phase `p` is waiting for.
pub open spec fn awaits(p: PhaseView, e: EventView) -> bool {
    match p {
        PhaseView::BearerSecret | PhaseView::KeySecret { .. } => e is Secret,
        PhaseView::Token { .. } | PhaseView::Refresh { .. } => e is Token,
        PhaseView::First { .. } | PhaseView::Last { .. } => e is Response,
        PhaseView::Over => false,
    }
}

/// The step after an event.
pub open spec fn advanced(p: PhaseView, e: EventView) -> (PhaseView, StepView) {
    match (p, e) {
        (PhaseView::BearerSecret, EventView::Secret(r)) => match r {
            Ok(secret) => (
                PhaseView::Last { kept: None },
                StepView::Send { bearer: Some(secret), extra: Seq::empty() },
            ),
            Err(m) => over(Err("secret resolution failed: "@ + m), None),
        },
        (PhaseView::KeySecret { header }, EventView::Secret(r)) => match r {
            Ok(secret) => (
                PhaseView::Last { kept: None },
                StepView::Send { bearer: None, extra: seq![(header, secret)] },
            ),
            Err(m) => over(Err("secret resolution failed: "@ + m), None),
        },
        (PhaseView::Token { cached }, EventView::Token(r)) => match r {
            Ok(token) => send_with(token),
            Err(m) => over(Err("token fetch failed: "@ + m), cached),
        },
        (PhaseView::First { token }, EventView::Response(r)) => match r {
            Ok(resp) => if resp.status == 401 {
                (PhaseView::Refresh { refused: resp, token }, StepView::FetchToken)
            } else {
                over(Ok(resp), Some(token))
            },
            Err(m) => over(Err(m), Some(token)),
        },
        (PhaseView::Refresh { refused, token }, EventView::Token(r)) => match r {
            Ok(fresh) => (
                PhaseView::Last { kept: Some(fresh) },
                StepView::Send { bearer: Some(fresh.access_token), extra: Seq::empty() },
            ),
            Err(_) => over(Ok(refused), Some(token)),
        },
        (PhaseView::Last { kept }, EventView::Response(r)) => over(r, kept),
        _ => (p, StepView::FetchToken),
    }
}

fn done(result: Result<HttpResponse, String>, token: Option<OAuthToken>) -> (r: (Phase, Step))
    ensures
        (r.0@, r.1@) == over(told(result), opt(token)),
{
    (Phase::Over, Step::Done(SendOutcome { result, token }))
}

fn secret_error(message: &str) -> (r: (Phase, Step))
    ensures
        (r.0@, r.1@) == over(Err("secret resolution failed: "@ + message@), None),
{
    done(Err(cat("secret resolution failed: ", message)), None)
}

fn send_token(token: OAuthToken) -> (r: (Phase, Step))
    ensures
        (r.0@, r.1@) == send_with(token@),
{
    let bearer = Some(token.access_token.clone());
    (Phase::First { token }, Step::Send { bearer, extra: Vec::new() })
}

/// The first step of sending a request under a collection's auth.
pub fn begin(auth: Option<&OAuthConfig>, cached: Option<OAuthToken>, now: u128) -> (r: (Phase, Step))
    ensures
        (r.0@, r.1@) == begun(opt(auth), opt(cached), now as nat),
{
    match auth {
        Some(cfg) => if cfg.is_configured() {
            match cfg.kind {
                AuthKind::Bearer => (
                    Phase::BearerSecret,
                    Step::ResolveSecret(cfg.token.clone()),
                ),
                AuthKind::ApiKey => (
                    Phase::KeySecret { header: cfg.api_key_header().to_owned() },
                    Step::ResolveSecret(cfg.token.clone()),
                ),
                AuthKind::Oauth2 => match cached {
                    Some(token) => if token_valid(&token, now) {
                        send_token(token)
                    } else {
                        (Phase::Token { cached: Some(token) }, Step::FetchToken)
                    },
                    None => (Phase::Token { cached: None }, Step::FetchToken),
                },
            }
        } else {
            (Phase::Last { kept: cached }, Step::Send { bearer: None, extra: Vec::new() })
        },
        None => (Phase::Last { kept: cached }, Step::Send { bearer: None, extra: Vec::new() }),
    }
}

/// The step after an event.
pub fn advance(phase: Phase, event: Event) -> (r: (Phase, Step))
    requires
        awaits(phase@, event@),
    ensures
        (r.0@, r.1@) == advanced(phase@, event@),
{
    match (phase, event) {
        (Phase::BearerSecret, Event::Secret(r)) => match r {
            Ok(secret) => (
                Phase::Last { kept: None },
                Step::Send { bearer: Some(secret), extra: Vec::new() },
            ),
            Err(m) => secret_error(m.as_str()),
        },
        (Phase::KeySecret { header }, Event::Secret(r)) => match r {
            Ok(secret) => {
                let mut extra: Vec<(String, String)> = Vec::new();
                extra.push((header, secret));
                assert(views(extra@) =~= seq![(header@, secret@)]);
                (Phase::Last { kept: None }, Step::Send { bearer: None, extra })
            },
            Err(m) => secret_error(m.as_str()),
        },
        (Phase::Token { cached }, Event::Token(r)) => match r {
            Ok(token) => send_token(token),
            Err(m) => done(Err(cat("token fetch failed: ", m.as_str())), cached),
        },
        (Phase::First { token }, Event::Response(r)) => match r {
            Ok(resp) => if resp.status == 401 {
                (Phase::Refresh { refused: resp, token }, Step::FetchToken)
            } else {
                done(Ok(resp), Some(token))
            },
            Err(m) => done(Err(m), Some(token)),
        },
        (Phase::Refresh { refused, token }, Event::Token(r)) => match r {
            Ok(fresh) => {
                let bearer = Some(fresh.access_token.clone());
                (Phase::Last { kept: Some(fresh) }, Step::Send { bearer, extra: Vec::new() })
            },
            Err(_) => done(Ok(refused), Some(token)),
        },
        (Phase::Last { kept }, Event::Response(r)) => done(r, kept),
        (phase, _) => (phase, Step::FetchToken),
    }
}

// ----- laws -----

/// How many more times the request can go out.
pub open spec fn sends_left(p: PhaseView) -> nat {
    match p {
        PhaseView::Token { .. } => 2,
        PhaseView::BearerSecret
        | PhaseView::KeySecret { .. }
        | PhaseView::First { .. }
        | PhaseView::Refresh { .. } => 1,
        PhaseView::Last { .. } | PhaseView::Over => 0,
    }
}

/// How many more events a send can wait for.
pub open spec fn events_left(p: PhaseView) -> nat {
    match p {
        PhaseView::Token { .. } => 4,
        PhaseView::First { .. } => 3,
        PhaseView::BearerSecret | PhaseView::KeySecret { .. } | PhaseView::Refresh { .. } => 2,
        PhaseView::Last { .. } => 1,
        PhaseView::Over => 0,
    }
}

pub open spec fn goes_out(s: StepView) -> nat {
    if s is Send {
        1
    } else {
        0
    }
}

/// A request goes out at most twice: once, and once more after a 401.
pub proof fn lemma_at_most_one_retry(
    auth: Option<AuthView>,
    cached: Option<TokenView>,
    now: nat,
    p: PhaseView,
    e: EventView,
)
    ensures
        goes_out(begun(auth, cached, now).1) + sends_left(begun(auth, cached, now).0) <= 2,
        awaits(p, e) ==> goes_out(advanced(p, e).1) + sends_left(advanced(p, e).0) <= sends_left(p),
{
}

/// Every send ends: each event brings it nearer to its outcome, and the outcome
/// comes exactly when nothing is awaited any more.
pub proof fn lemma_send_ends(p: PhaseView, e: EventView)
    requires
        awaits(p, e),
    ensures
        events_left(advanced(p, e).0) < events_left(p),
        (advanced(p, e).1 is Done) == (advanced(p, e).0 is Over),
{
}

/// Whether `e` is an answer to the step `s`.
pub open spec fn answers(s: StepView, e: EventView) -> bool {
    match s {
        StepView::ResolveSecret(_) => e is Secret,
        StepView::FetchToken => e is Token,
        StepView::Send { .. } => e is Response,
        StepView::Done(_) => false,
    }
}

/// A step asks for just what its phase awaits: whoever answers the steps as
/// they come never hands over an event that is not expected.
pub proof fn lemma_steps_ask_for_what_is_awaited(
    auth: Option<AuthView>,
    cached: Option<TokenView>,
    now: nat,
    p: PhaseView,
    e: EventView,
    next: EventView,
)
    requires
        awaits(p, e),
    ensures
        answers(begun(auth, cached, now).1, next) == awaits(begun(auth, cached, now).0, next),
        answers(advanced(p, e).1, next) == awaits(advanced(p, e).0, next),
{
}

/// A 401 that no new token can be had for is reported as it came, and the token
/// at hand is kept.
pub proof fn lemma_failed_refresh_reports_the_401(
    refused: ResponseView,
    token: TokenView,
    message: Seq<char>,
)
    ensures
        advanced(
            PhaseView::Refresh { refused, token },
            EventView::Token(Err(message)),
        ) == over(Ok(refused), Some(token)),
{
}

/// Under a fixed bearer token or API key no token is kept, whatever happens.
pub proof fn lemma_fixed_schemes_hold_no_token(
    auth: AuthView,
    cached: Option<TokenView>,
    now: nat,
    secret: Result<Seq<char>, Seq<char>>,
    response: Result<ResponseView, Seq<char>>,
)
    requires
        configured(auth),
        auth.kind != AuthKind::Oauth2,
    ensures
        ({
            let (p1, _) = begun(Some(auth), cached, now);
            let (p2, s2) = advanced(p1, EventView::Secret(secret));
            let (_, s3) = advanced(p2, EventView::Response(response));
            match secret {
                Ok(_) => s3 == StepView::Done(OutcomeView { result: response, token: None }),
                Err(_) => s2 matches StepView::Done(o) && o.token is None,
            }
        }),
{
}

} // verus!
