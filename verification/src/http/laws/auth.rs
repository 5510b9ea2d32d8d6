//! How a request is sent under each auth scheme, and what a token endpoint is
//! asked and answers.

use vstd::prelude::*;

use crate::http::client::ResponseView;
use crate::http::oauth::{
    token_answer, token_fault_message, token_in, token_request_of, TokenFaultView, TokenRequestView, TokenView,
};
use crate::http::secret::secret_of;
use crate::http::send::{advanced, begun, EventView, OutcomeView, PhaseView, StepView};
use crate::json::{field, field_text, natural, Json};
use crate::model::{AuthKind, AuthStyle, AuthView};
use crate::text::{join, trim};

verus! {

// ----- sending -----

/// Without auth, or while its settings are not filled in, a request goes out as it
/// is, and its answer is the outcome.
pub proof fn lemma_without_auth(
    auth: Option<AuthView>,
    cached: Option<TokenView>,
    now: nat,
    answer: Result<ResponseView, Seq<char>>,
)
    requires
        match auth {
            None => true,
            Some(a) => match a.kind {
                AuthKind::Oauth2 => a.token_url.len() == 0 || a.client_id.len() == 0,
                _ => a.token.len() == 0,
            },
        },
    ensures
        begun(auth, cached, now).1 == (StepView::Send { bearer: None, extra: Seq::empty() }),
        advanced(begun(auth, cached, now).0, EventView::Response(answer)).1 == StepView::Done(
            OutcomeView { result: answer, token: cached },
        ),
{
}

/// A bearer token is resolved, sent as the bearer, and the answer is the outcome.
pub proof fn lemma_bearer(
    a: AuthView,
    cached: Option<TokenView>,
    now: nat,
    secret: Seq<char>,
    answer: Result<ResponseView, Seq<char>>,
)
    requires
        a.kind == AuthKind::Bearer,
        a.token.len() > 0,
    ensures
        ({
            let first = begun(Some(a), cached, now);
            let next = advanced(first.0, EventView::Secret(Ok(secret)));
            &&& first.1 == StepView::ResolveSecret(a.token)
            &&& next.1 == (StepView::Send { bearer: Some(secret), extra: Seq::empty() })
            &&& advanced(next.0, EventView::Response(answer)).1 == StepView::Done(
                OutcomeView { result: answer, token: None },
            )
        }),
{
}

/// An API key is resolved and sent in its header, `X-API-Key` where none is named.
pub proof fn lemma_api_key(
    a: AuthView,
    cached: Option<TokenView>,
    now: nat,
    secret: Seq<char>,
    answer: Result<ResponseView, Seq<char>>,
)
    requires
        a.kind == AuthKind::ApiKey,
        a.token.len() > 0,
    ensures
        ({
            let header = if trim(a.header).len() == 0 {
                "X-API-Key"@
            } else {
                trim(a.header)
            };
            let first = begun(Some(a), cached, now);
            let next = advanced(first.0, EventView::Secret(Ok(secret)));
            &&& first.1 == StepView::ResolveSecret(a.token)
            &&& next.1 == (StepView::Send { bearer: None, extra: seq![(header, secret)] })
            &&& advanced(next.0, EventView::Response(answer)).1 == StepView::Done(
                OutcomeView { result: answer, token: None },
            )
        }),
{
}

/// A secret that cannot be resolved ends the send without anything going out.
pub proof fn lemma_unresolved_secret(a: AuthView, cached: Option<TokenView>, now: nat, why: Seq<char>)
    requires
        a.kind != AuthKind::Oauth2,
        a.token.len() > 0,
    ensures
        advanced(begun(Some(a), cached, now).0, EventView::Secret(Err(why))).1 == StepView::Done(
            OutcomeView { result: Err("secret resolution failed: "@ + why), token: None },
        ),
{
}

/// Whether OAuth settings are filled in.
pub open spec fn can_fetch(a: AuthView) -> bool {
    a.kind == AuthKind::Oauth2 && a.token_url.len() > 0 && a.client_id.len() > 0
}

/// A token is used while it is valid; one that is missing or has run out is fetched
/// first.
pub proof fn lemma_tokens_are_reused(a: AuthView, cached: Option<TokenView>, now: nat)
    requires
        can_fetch(a),
    ensures
        match cached {
            Some(t) => if now < t.expires_at {
                begun(Some(a), cached, now) == (
                    PhaseView::First { token: t },
                    StepView::Send { bearer: Some(t.access_token), extra: Seq::empty() },
                )
            } else {
                begun(Some(a), cached, now).1 == StepView::FetchToken
            },
            None => begun(Some(a), cached, now).1 == StepView::FetchToken,
        },
{
}

/// A fetched token is sent as the bearer; one that cannot be fetched ends the send
/// and leaves the old one.
pub proof fn lemma_fetched_token(
    a: AuthView,
    cached: Option<TokenView>,
    now: nat,
    token: TokenView,
    why: Seq<char>,
)
    requires
        can_fetch(a),
        cached is None || now >= cached->0.expires_at,
    ensures
        ({
            let p = begun(Some(a), cached, now).0;
            &&& advanced(p, EventView::Token(Ok(token))) == (
                PhaseView::First { token },
                StepView::Send { bearer: Some(token.access_token), extra: Seq::empty() },
            )
            &&& advanced(p, EventView::Token(Err(why))).1 == StepView::Done(
                OutcomeView { result: Err("token fetch failed: "@ + why), token: cached },
            )
        }),
{
}

/// Any answer but a refusal ends the send and keeps the token.
pub proof fn lemma_answer_under_a_token(token: TokenView, resp: ResponseView, why: Seq<char>)
    requires
        resp.status != 401,
    ensures
        ({
            let p = PhaseView::First { token };
            &&& advanced(p, EventView::Response(Ok(resp))).1 == StepView::Done(
                OutcomeView { result: Ok(resp), token: Some(token) },
            )
            &&& advanced(p, EventView::Response(Err(why))).1 == StepView::Done(
                OutcomeView { result: Err(why), token: Some(token) },
            )
        }),
{
}

/// A refused token is replaced by a fresh one, which is sent once more and kept
/// whatever the answer.
pub proof fn lemma_refused_token_is_replaced(
    token: TokenView,
    refused: ResponseView,
    fresh: TokenView,
    answer: Result<ResponseView, Seq<char>>,
)
    requires
        refused.status == 401,
    ensures
        ({
            let asked = advanced(PhaseView::First { token }, EventView::Response(Ok(refused)));
            let again = advanced(asked.0, EventView::Token(Ok(fresh)));
            &&& asked.1 == StepView::FetchToken
            &&& again.1 == (StepView::Send { bearer: Some(fresh.access_token), extra: Seq::empty() })
            &&& advanced(again.0, EventView::Response(answer)).1 == StepView::Done(
                OutcomeView { result: answer, token: Some(fresh) },
            )
        }),
{
}

// ----- asking for a token -----

/// The request for a token names the client-credentials grant, goes to the token
/// URL, and carries the credentials in the way that is set: in the header or in
/// the form, never in both.
pub proof fn lemma_token_request(a: AuthView, secret: Seq<char>)
    requires
        a.token_url.len() > 0,
    ensures
        token_request_of(a, secret) is Ok,
        ({
            let q = token_request_of(a, secret)->Ok_0;
            let scoped: int = if a.scopes.len() > 0 {
                1
            } else {
                0
            };
            &&& q.url == a.token_url
            &&& q.form[0] == ("grant_type"@, "client_credentials"@)
            &&& a.scopes.len() > 0 ==> q.form[1] == ("scope"@, join(a.scopes, " "@))
            &&& match a.auth_style {
                AuthStyle::Basic => {
                    &&& q.basic == Some((a.client_id, secret))
                    &&& q.form.len() == 1 + scoped
                },
                AuthStyle::Post => {
                    &&& q.basic is None
                    &&& q.form.len() == 3 + scoped
                    &&& q.form[1 + scoped] == ("client_id"@, a.client_id)
                    &&& q.form[2 + scoped] == ("client_secret"@, secret)
                },
            }
        }),
{
}

/// Without a token URL nothing is asked.
pub proof fn lemma_no_token_url(a: AuthView, secret: Seq<char>)
    requires
        a.token_url.len() == 0,
    ensures
        token_request_of(a, secret) == Err::<TokenRequestView, TokenFaultView>(TokenFaultView::NoUrl),
{
}

/// Texts are joined with the separator between neighbours.
pub proof fn lemma_joined_texts(parts: Seq<Seq<char>>, more: Seq<char>, sep: Seq<char>)
    ensures
        join(seq![more], sep) == more,
        parts.len() > 0 ==> join(parts.push(more), sep) == join(parts, sep) + sep + more,
{
    assert(parts.push(more).drop_last() =~= parts);
}

// ----- its answer -----

/// The token in an answer is its access token, good for the stated time less half a
/// minute; an hour is taken where none is stated.
pub proof fn lemma_token_in_answer(answer: Json, text: Seq<char>, now: nat)
    requires
        field_text(answer, "access_token"@) == Some(text),
        now <= u64::MAX,
    ensures
        token_in(answer, now) is Ok,
        ({
            let t = token_in(answer, now)->Ok_0;
            &&& t.access_token == text
            &&& match field(answer, "expires_in"@) {
                Some(v) => match natural(v) {
                    Some(n) => n <= u64::MAX ==> t.expires_at == now + (if n > 30 {
                        1000 * (n - 30)
                    } else {
                        0
                    }),
                    None => t.expires_at == now + 3570000,
                },
                None => t.expires_at == now + 3570000,
            }
        }),
{
}

/// An answer that is no success, is not JSON or has no token is a fault that says
/// which.
pub proof fn lemma_token_faults(
    status: Seq<char>,
    text: Seq<char>,
    parsed: Result<Json, Seq<char>>,
    now: nat,
)
    ensures
        token_answer(false, status, text, parsed, now) == Err::<TokenView, TokenFaultView>(
            TokenFaultView::Refused { status, text },
        ),
        match parsed {
            Ok(answer) => {
                &&& field_text(answer, "access_token"@) is None ==> token_answer(
                    true,
                    status,
                    text,
                    parsed,
                    now,
                ) == Err::<TokenView, TokenFaultView>(TokenFaultView::NoToken)
                &&& field_text(answer, "access_token"@) is Some ==> token_answer(
                    true,
                    status,
                    text,
                    parsed,
                    now,
                ) is Ok
            },
            Err(cause) => token_answer(true, status, text, parsed, now) == Err::<
                TokenView,
                TokenFaultView,
            >(TokenFaultView::NotJson { cause }),
        },
{
}

/// A secret command gives its output without blanks around it, or says why it
/// failed.
pub proof fn lemma_secret_commands(
    cmd: Seq<char>,
    status: Seq<char>,
    stdout: Seq<char>,
    stderr: Seq<char>,
)
    ensures
        secret_of(cmd, true, status, stdout, stderr) == Ok::<Seq<char>, Seq<char>>(trim(stdout)),
        secret_of(cmd, false, status, stdout, stderr) == Err::<Seq<char>, Seq<char>>(
            "secret command `"@ + cmd + "` failed ("@ + status + "): "@ + trim(stderr),
        ),
{
}

/// A fault of the token endpoint says what was answered.
pub proof fn lemma_fault_messages(status: Seq<char>, text: Seq<char>)
    ensures
        token_fault_message(TokenFaultView::Refused { status, text }) == "token request returned "@
            + status + ": "@ + text,
        token_fault_message(TokenFaultView::NotJson { cause: text })
            == "token response is not JSON: "@ + text,
        token_fault_message(TokenFaultView::NoToken) == "token response missing access_token"@,
{
}

} // verus!
