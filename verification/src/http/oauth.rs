//! OAuth 2.0 client-credentials flow (RFC 6749 §4.4): what is asked of the
//! token endpoint, and what its answer means.

use vstd::prelude::*;

use crate::json::{field, field_text, json_reading, natural, read_json, Json, Node};
use crate::model::{AuthStyle, AuthView, OAuthConfig};
use crate::text::{cat, group_views, join, join_strings, opt, views};

verus! {

broadcast use group_views;

/// Clock skew so tokens are refreshed slightly before their stated expiry.
pub const EXPIRY_SKEW_SECS: u64 = 30;

/// Lifetime of a token whose answer states none, in seconds.
pub const DEFAULT_LIFETIME_SECS: u64 = 3600;

#[derive(Debug, PartialEq, Eq)]
pub struct OAuthToken {
    pub access_token: String,
    /// When the token stops being used, in milliseconds on a steady clock.
    pub expires_at: u128,
}

#[verifier::ext_equal]
pub struct TokenView {
    pub access_token: Seq<char>,
    pub expires_at: u128,
}

impl View for OAuthToken {
    type V = TokenView;

    open spec fn view(&self) -> TokenView {
        TokenView { access_token: self.access_token@, expires_at: self.expires_at }
    }
}

impl Clone for OAuthToken {
    fn clone(&self) -> (r: Self)
        ensures
            r@ == self@,
    {
        OAuthToken { access_token: self.access_token.clone(), expires_at: self.expires_at }
    }
}

/// Whether a token is still good at time `now`, in milliseconds on the clock
/// its expiry was measured with.
pub fn token_valid(token: &OAuthToken, now: u128) -> (r: bool)
    ensures
        r == (now < token@.expires_at),
{
    now < token.expires_at
}

/// Why no token was had.
#[derive(Debug, PartialEq, Eq)]
pub enum TokenFault {
    NoUrl,
    /// The endpoint answered with a status that is not a success.
    Refused { status: String, text: String },
    NotJson { cause: String },
    NoToken,
}

#[verifier::ext_equal]
pub enum TokenFaultView {
    NoUrl,
    Refused { status: Seq<char>, text: Seq<char> },
    NotJson { cause: Seq<char> },
    NoToken,
}

impl View for TokenFault {
    type V = TokenFaultView;

    open spec fn view(&self) -> TokenFaultView {
        match self {
            TokenFault::NoUrl => TokenFaultView::NoUrl,
            TokenFault::Refused { status, text } => TokenFaultView::Refused {
                status: status@,
                text: text@,
            },
            TokenFault::NotJson { cause } => TokenFaultView::NotJson { cause: cause@ },
            TokenFault::NoToken => TokenFaultView::NoToken,
        }
    }
}

pub open spec fn token_fault_message(f: TokenFaultView) -> Seq<char> {
    match f {
        TokenFaultView::NoUrl => "OAuth token URL is not configured (press A to configure auth)"@,
        TokenFaultView::Refused { status, text } => "token request returned "@ + status + ": "@ + text,
        TokenFaultView::NotJson { cause } => "token response is not JSON: "@ + cause,
        TokenFaultView::NoToken => "token response missing access_token"@,
    }
}

impl TokenFault {
    pub fn message(&self) -> (r: String)
        ensures
            r@ == token_fault_message(self@),
    {
        match self {
            TokenFault::NoUrl => {
                "OAuth token URL is not configured (press A to configure auth)".to_owned()
            },
            TokenFault::Refused { status, text } => {
                let mut s = "token request returned ".to_owned();
                s.append(status.as_str());
                s.append(": ");
                s.append(text.as_str());
                s
            },
            TokenFault::NotJson { cause } => cat("token response is not JSON: ", cause.as_str()),
            TokenFault::NoToken => "token response missing access_token".to_owned(),
        }
    }
}

/// A result of this module, viewed.
pub open spec fn token_result<T: View>(r: Result<T, TokenFault>) -> Result<T::V, TokenFaultView> {
    match r {
        Ok(x) => Ok(x@),
        Err(e) => Err(e@),
    }
}

// ----- asking -----

/// What is posted to the token endpoint.
#[derive(Debug, PartialEq, Eq)]
pub struct TokenRequest {
    pub url: String,
    pub form: Vec<(String, String)>,
    /// User and password of a Basic authorization header.
    pub basic: Option<(String, String)>,
}

#[verifier::ext_equal]
pub struct TokenRequestView {
    pub url: Seq<char>,
    pub form: Seq<(Seq<char>, Seq<char>)>,
    pub basic: Option<(Seq<char>, Seq<char>)>,
}

impl View for TokenRequest {
    type V = TokenRequestView;

    open spec fn view(&self) -> TokenRequestView {
        TokenRequestView { url: self.url@, form: views(self.form@), basic: opt(self.basic) }
    }
}

pub open spec fn scope_part(scopes: Seq<Seq<char>>) -> Seq<(Seq<char>, Seq<char>)> {
    if scopes.len() == 0 {
        Seq::empty()
    } else {
        seq![("scope"@, join(scopes, " "@))]
    }
}

/// The request for a new token, given the resolved client secret.
pub open spec fn token_request_of(
    a: AuthView,
    secret: Seq<char>,
) -> Result<TokenRequestView, TokenFaultView> {
    let base = seq![("grant_type"@, "client_credentials"@)] + scope_part(a.scopes);
    if a.token_url.len() == 0 {
        Err(TokenFaultView::NoUrl)
    } else {
        Ok(
            match a.auth_style {
                AuthStyle::Basic => TokenRequestView {
                    url: a.token_url,
                    form: base,
                    basic: Some((a.client_id, secret)),
                },
                AuthStyle::Post => TokenRequestView {
                    url: a.token_url,
                    form: base.push(("client_id"@, a.client_id)).push(("client_secret"@, secret)),
                    basic: None,
                },
            },
        )
    }
}

/// The client-credentials grant, ready to be posted.
pub fn token_request(cfg: &OAuthConfig, client_secret: &str) -> (r: Result<TokenRequest, TokenFault>)
    ensures
        token_result(r) == token_request_of(cfg@, client_secret@),
{
    if cfg.token_url.as_str().is_empty() {
        return Err(TokenFault::NoUrl);
    }
    let mut form: Vec<(String, String)> = Vec::new();
    form.push(("grant_type".to_owned(), "client_credentials".to_owned()));
    if cfg.scopes.len() > 0 {
        form.push(("scope".to_owned(), join_strings(&cfg.scopes, " ")));
    }
    assert(views(form@) =~= seq![("grant_type"@, "client_credentials"@)] + scope_part(cfg@.scopes));
    let url = cfg.token_url.clone();
    match cfg.auth_style {
        AuthStyle::Basic => Ok(
            TokenRequest { url, form, basic: Some((cfg.client_id.clone(), client_secret.to_owned())) },
        ),
        AuthStyle::Post => {
            form.push(("client_id".to_owned(), cfg.client_id.clone()));
            form.push(("client_secret".to_owned(), client_secret.to_owned()));
            Ok(TokenRequest { url, form, basic: None })
        },
    }
}

// ----- understanding the answer -----

/// Stated lifetime of a token, in seconds.
pub open spec fn lifetime(answer: Json) -> nat {
    match field(answer, "expires_in"@) {
        Some(v) => match natural(v) {
            Some(n) => n,
            None => DEFAULT_LIFETIME_SECS as nat,
        },
        None => DEFAULT_LIFETIME_SECS as nat,
    }
}

/// Milliseconds for which a token is used: the skew is taken off, down to zero.
pub open spec fn usable_ms(seconds: nat) -> nat {
    if seconds > EXPIRY_SKEW_SECS {
        (1000 * (seconds - EXPIRY_SKEW_SECS)) as nat
    } else {
        0
    }
}

/// The token in a JSON answer that arrived at `now`.
pub open spec fn token_in(answer: Json, now: nat) -> Result<TokenView, TokenFaultView> {
    match field_text(answer, "access_token"@) {
        Some(t) => Ok(
            TokenView { access_token: t, expires_at: (now + usable_ms(lifetime(answer))) as u128 },
        ),
        None => Err(TokenFaultView::NoToken),
    }
}

/// The token in an answer, given what the JSON parser says of its text.
pub open spec fn token_answer(
    success: bool,
    status: Seq<char>,
    text: Seq<char>,
    parsed: Result<Json, Seq<char>>,
    now: nat,
) -> Result<TokenView, TokenFaultView> {
    if !success {
        Err(TokenFaultView::Refused { status, text })
    } else {
        match parsed {
            Ok(answer) => token_in(answer, now),
            Err(cause) => Err(TokenFaultView::NotJson { cause }),
        }
    }
}

/// The token in a JSON answer that arrived at `now`.
pub fn token_of(answer: &Node, now: u64) -> (r: Result<OAuthToken, TokenFault>)
    ensures
        token_result(r) == token_in(answer@, now as nat),
{
    match answer.text("access_token") {
        Some(t) => {
            let stated: Option<u64> = match answer.get("expires_in") {
                Some(v) => v.as_u64(),
                None => None,
            };
            let seconds: u64 = match stated {
                Some(n) => n,
                None => DEFAULT_LIFETIME_SECS,
            };
            let ms: u128 = if seconds > EXPIRY_SKEW_SECS {
                1000 * (seconds - EXPIRY_SKEW_SECS) as u128
            } else {
                0
            };
            Ok(OAuthToken { access_token: t.to_owned(), expires_at: now as u128 + ms })
        },
        None => Err(TokenFault::NoToken),
    }
}

/// What an answer of the token endpoint comes to. `status` is shown when it is
/// not a success.
pub fn read_token(success: bool, status: &str, text: &str, now: u64) -> (r: Result<
    OAuthToken,
    TokenFault,
>)
    ensures
        token_result(r) == token_answer(success, status@, text@, json_reading(text@), now as nat),
{
    if !success {
        return Err(TokenFault::Refused { status: status.to_owned(), text: text.to_owned() });
    }
    match read_json(text) {
        Ok(answer) => token_of(&answer, now),
        Err(cause) => Err(TokenFault::NotJson { cause }),
    }
}

/// A token taken at `now` is used until the skew before its stated end, and no
/// longer.
pub proof fn lemma_refreshed_before_expiry(answer: Json, now: nat, at: nat)
    requires
        token_in(answer, now) is Ok,
        now + usable_ms(lifetime(answer)) <= u128::MAX,
        now <= at,
    ensures
        at < token_in(answer, now)->Ok_0.expires_at ==> at + 1000 * EXPIRY_SKEW_SECS < now + 1000
            * lifetime(answer),
{
}

} // verus!
