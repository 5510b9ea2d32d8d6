//! The auth popup: its rows, what they show, and what editing them does.

use vstd::prelude::*;

use crate::app::kinds::{AuthField, Popup};
use crate::app::state::{App, AppView, MAX_AUTH_FIELDS};
use crate::model::{
    blank_auth, AuthKind, AuthStyle, AuthView, CollectionView, OAuthConfig,
};
use crate::text::{group_views, join, join_strings, opt, split_words, words};

verus! {

broadcast use group_views;

/// The popup's rows under a scheme, in display order. The scheme selector comes
/// last, so that the cursor starts on the first thing to fill in.
pub open spec fn rows_under(kind: AuthKind) -> Seq<AuthField> {
    match kind {
        AuthKind::Bearer => seq![AuthField::Token, AuthField::Kind],
        AuthKind::ApiKey => seq![AuthField::Header, AuthField::Token, AuthField::Kind],
        AuthKind::Oauth2 => seq![
            AuthField::TokenUrl,
            AuthField::ClientId,
            AuthField::ClientSecret,
            AuthField::Scopes,
            AuthField::Style,
            AuthField::Kind,
        ],
    }
}

pub open spec fn label_under(kind: AuthKind, field: AuthField) -> Seq<char> {
    match field {
        AuthField::Kind => "Auth type"@,
        AuthField::Token => if kind == AuthKind::ApiKey {
            "API key value"@
        } else {
            "Bearer token"@
        },
        AuthField::Header => "Header name"@,
        AuthField::TokenUrl => "Token URL"@,
        AuthField::ClientId => "Client ID"@,
        AuthField::ClientSecret => "Client Secret"@,
        AuthField::Scopes => "Scopes (space separated)"@,
        AuthField::Style => "Auth style"@,
    }
}

pub open spec fn style_title(s: AuthStyle) -> Seq<char> {
    match s {
        AuthStyle::Basic => "basic"@,
        AuthStyle::Post => "post"@,
    }
}

impl AuthStyle {
    pub fn title(self) -> (r: &'static str)
        ensures
            r@ == style_title(self),
    {
        match self {
            AuthStyle::Basic => "basic",
            AuthStyle::Post => "post",
        }
    }
}

impl AuthView {
    /// The text of a row.
    pub open spec fn value(self, field: AuthField) -> Seq<char> {
        match field {
            AuthField::Kind => self.kind.title_spec(),
            AuthField::Token => self.token,
            AuthField::Header => self.header,
            AuthField::TokenUrl => self.token_url,
            AuthField::ClientId => self.client_id,
            AuthField::ClientSecret => self.client_secret,
            AuthField::Scopes => join(self.scopes, " "@),
            AuthField::Style => style_title(self.auth_style),
        }
    }

    /// A row filled in; toggles take no typed value.
    pub open spec fn with_value(self, field: AuthField, v: Seq<char>) -> AuthView {
        match field {
            AuthField::Token => AuthView { token: v, ..self },
            AuthField::Header => AuthView { header: v, ..self },
            AuthField::TokenUrl => AuthView { token_url: v, ..self },
            AuthField::ClientId => AuthView { client_id: v, ..self },
            AuthField::ClientSecret => AuthView { client_secret: v, ..self },
            AuthField::Scopes => AuthView { scopes: words(v), ..self },
            AuthField::Kind | AuthField::Style => self,
        }
    }

    /// A toggle advanced; nothing happens to text rows.
    pub open spec fn advanced(self, field: AuthField) -> AuthView {
        match field {
            AuthField::Kind => AuthView { kind: self.kind.next_spec(), ..self },
            AuthField::Style => AuthView {
                auth_style: match self.auth_style {
                    AuthStyle::Basic => AuthStyle::Post,
                    AuthStyle::Post => AuthStyle::Basic,
                },
                ..self
            },
            _ => self,
        }
    }

    /// No text row is filled in.
    pub open spec fn unfilled(self) -> bool {
        self.token.len() == 0 && self.header.len() == 0 && self.token_url.len() == 0
            && self.client_id.len() == 0 && self.client_secret.len() == 0 && self.scopes.len() == 0
    }
}

/// Row `i`, or the last one where there are fewer.
pub open spec fn row_under(kind: AuthKind, i: int) -> AuthField {
    let rows = rows_under(kind);
    if i < rows.len() {
        rows[i]
    } else {
        rows.last()
    }
}

impl AppView {
    pub open spec fn auth_row(self, i: int) -> AuthField {
        row_under(self.auth_form.kind, i)
    }

    #[verifier::opaque]
    pub open spec fn auth_opened(self) -> AppView {
        AppView {
            auth_form: match self.collection.auth {
                Some(a) => a,
                None => blank_auth(AuthKind::Oauth2),
            },
            auth_field: 0,
            popup: Popup::Auth,
            ..self
        }
    }

    #[verifier::opaque]
    pub open spec fn auth_filled(self, i: int, v: Seq<char>) -> AppView {
        AppView { auth_form: self.auth_form.with_value(self.auth_row(i), v), ..self }
    }

    /// Row `i` advanced. Another scheme has other rows, so the cursor goes to
    /// where its selector is.
    #[verifier::opaque]
    pub open spec fn auth_advanced(self, i: int) -> AppView {
        let field = self.auth_row(i);
        let form = self.auth_form.advanced(field);
        AppView {
            auth_form: form,
            auth_field: if field == AuthField::Kind {
                (rows_under(form.kind).len() - 1) as usize
            } else {
                self.auth_field
            },
            ..self
        }
    }

    /// The form taken over by the collection. A form with nothing filled in
    /// clears auth entirely, so that cycling to a scheme and leaving it blank
    /// attaches no unusable configuration.
    #[verifier::opaque]
    pub open spec fn auth_applied(self) -> AppView {
        let auth = if self.auth_form.unfilled() {
            None
        } else {
            Some(self.auth_form)
        };
        if self.collection.auth == auth {
            self
        } else {
            AppView {
                collection: CollectionView { auth, ..self.collection },
                dirty: true,
                ..self
            }
        }
    }
}

impl OAuthConfig {
    /// Fills a row in; toggles take no typed value.
    fn fill(&mut self, field: AuthField, value: &str)
        ensures
            final(self)@ == old(self)@.with_value(field, value@),
    {
        match field {
            AuthField::Token => {
                self.token = value.to_owned();
            },
            AuthField::Header => {
                self.header = value.to_owned();
            },
            AuthField::TokenUrl => {
                self.token_url = value.to_owned();
            },
            AuthField::ClientId => {
                self.client_id = value.to_owned();
            },
            AuthField::ClientSecret => {
                self.client_secret = value.to_owned();
            },
            AuthField::Scopes => {
                self.scopes = split_words(value);
            },
            AuthField::Kind | AuthField::Style => {},
        }
    }

    /// Advances a toggle; nothing happens on text rows.
    fn advance(&mut self, field: AuthField)
        ensures
            final(self)@ == old(self)@.advanced(field),
    {
        match field {
            AuthField::Kind => {
                self.kind = self.kind.next();
            },
            AuthField::Style => {
                self.auth_style = match self.auth_style {
                    AuthStyle::Basic => AuthStyle::Post,
                    AuthStyle::Post => AuthStyle::Basic,
                };
            },
            _ => {},
        }
    }
}

fn same_auth(a: &Option<OAuthConfig>, b: &Option<OAuthConfig>) -> (r: bool)
    ensures
        r == (opt(*a) == opt(*b)),
{
    match (a, b) {
        (Some(x), Some(y)) => x.same(y),
        (None, None) => true,
        _ => false,
    }
}

impl App {
    pub fn open_auth_popup(&mut self)
        requires
            old(self).wf(),
        ensures
            final(self).wf(),
            final(self)@ == old(self)@.auth_opened(),
    {
        reveal(AppView::auth_opened);
        self.auth_form = match &self.collection.auth {
            Some(a) => a.clone(),
            None => OAuthConfig::default(),
        };
        self.auth_field = 0;
        self.popup = Popup::Auth;
    }

    /// The rows shown for the form's current scheme, in display order.
    pub fn auth_fields(&self) -> (r: Vec<AuthField>)
        ensures
            r@ == rows_under(self@.auth_form.kind),
            1 < r@.len() <= MAX_AUTH_FIELDS,
    {
        match self.auth_form.kind {
            AuthKind::Bearer => vec![AuthField::Token, AuthField::Kind],
            AuthKind::ApiKey => vec![AuthField::Header, AuthField::Token, AuthField::Kind],
            AuthKind::Oauth2 => vec![
                AuthField::TokenUrl,
                AuthField::ClientId,
                AuthField::ClientSecret,
                AuthField::Scopes,
                AuthField::Style,
                AuthField::Kind,
            ],
        }
    }

    /// The row at `i` under the current scheme; an index past the end counts as
    /// the last row.
    pub fn auth_field_at(&self, i: usize) -> (r: AuthField)
        ensures
            r == self@.auth_row(i as int),
    {
        let fields = self.auth_fields();
        if i < fields.len() {
            fields[i]
        } else {
            fields[fields.len() - 1]
        }
    }

    pub fn auth_field_label(&self, field: AuthField) -> (r: &'static str)
        ensures
            r@ == label_under(self@.auth_form.kind, field),
    {
        match field {
            AuthField::Kind => "Auth type",
            AuthField::Token => match self.auth_form.kind {
                AuthKind::ApiKey => "API key value",
                _ => "Bearer token",
            },
            AuthField::Header => "Header name",
            AuthField::TokenUrl => "Token URL",
            AuthField::ClientId => "Client ID",
            AuthField::ClientSecret => "Client Secret",
            AuthField::Scopes => "Scopes (space separated)",
            AuthField::Style => "Auth style",
        }
    }

    pub fn auth_field_value(&self, i: usize) -> (r: String)
        ensures
            r@ == self@.auth_form.value(self@.auth_row(i as int)),
    {
        match self.auth_field_at(i) {
            AuthField::Kind => self.auth_form.kind.title().to_owned(),
            AuthField::Token => self.auth_form.token.clone(),
            AuthField::Header => self.auth_form.header.clone(),
            AuthField::TokenUrl => self.auth_form.token_url.clone(),
            AuthField::ClientId => self.auth_form.client_id.clone(),
            AuthField::ClientSecret => self.auth_form.client_secret.clone(),
            AuthField::Scopes => join_strings(&self.auth_form.scopes, " "),
            AuthField::Style => self.auth_form.auth_style.title().to_owned(),
        }
    }

    pub fn set_auth_field(&mut self, i: usize, value: &str)
        requires
            old(self).wf(),
        ensures
            final(self).wf(),
            final(self)@ == old(self)@.auth_filled(i as int, value@),
    {
        reveal(AppView::auth_filled);
        let field = self.auth_field_at(i);
        self.auth_form.fill(field, value);
    }

    /// Advance the toggle at row `i`. The scheme selector cycles the scheme,
    /// which changes the rows, and the cursor stays on the selector; the style
    /// flips the OAuth client-auth placement. Nothing happens on text rows.
    pub fn toggle_auth_field(&mut self, i: usize)
        requires
            old(self).wf(),
        ensures
            final(self).wf(),
            final(self)@ == old(self)@.auth_advanced(i as int),
    {
        reveal(AppView::auth_advanced);
        let field = self.auth_field_at(i);
        self.auth_form.advance(field);
        if field == AuthField::Kind {
            self.auth_field = self.auth_fields().len() - 1;
        }
    }

    /// Apply the form to the collection (done when the popup closes).
    pub fn apply_auth_form(&mut self)
        requires
            old(self).wf(),
        ensures
            final(self).wf(),
            final(self)@ == old(self)@.auth_applied(),
    {
        reveal(AppView::auth_applied);
        let f = &self.auth_form;
        let empty = f.token.as_str().is_empty() && f.header.as_str().is_empty()
            && f.token_url.as_str().is_empty() && f.client_id.as_str().is_empty()
            && f.client_secret.as_str().is_empty() && f.scopes.len() == 0;
        let auth: Option<OAuthConfig> = if empty {
            None
        } else {
            Some(self.auth_form.clone())
        };
        if !same_auth(&self.collection.auth, &auth) {
            self.collection.auth = auth;
            self.dirty = true;
        }
    }
}

/// The selector can be reached under every scheme, and once on it the cursor is
/// on it after each press: as many presses as there are schemes come back to
/// the first one with everything else as it was.
pub proof fn lemma_scheme_cycle(a: AppView, i: int)
    requires
        a.auth_row(i) == AuthField::Kind,
    ensures
        rows_under(a.auth_form.kind).contains(AuthField::Kind),
        a.auth_advanced(i).auth_row(a.auth_advanced(i).auth_field as int) == AuthField::Kind,
        ({
            let b = a.auth_advanced(i);
            let c = b.auth_advanced(b.auth_field as int);
            let d = c.auth_advanced(c.auth_field as int);
            d.auth_form == a.auth_form
        }),
{
    reveal(AppView::auth_advanced);
    assert(rows_under(a.auth_form.kind).last() == AuthField::Kind);
    let rows = rows_under(a.auth_form.kind);
    assert(rows[rows.len() - 1] == AuthField::Kind);
}

/// What is typed into a row is what the row then shows. Scopes are the
/// exception: they are kept as words, so runs of blanks shrink to one.
pub proof fn lemma_row_shows_what_was_typed(a: AppView, i: int, v: Seq<char>)
    requires
        !a.auth_row(i).toggle(),
        a.auth_row(i) != AuthField::Scopes,
    ensures
        a.auth_filled(i, v).auth_form.value(a.auth_row(i)) == v,
        a.auth_filled(i, v).auth_row(i) == a.auth_row(i),
{
    reveal(AppView::auth_filled);
}

} // verus!
