//! What typing into a cell, the URL bar, a name or the auth form does.

use vstd::prelude::*;

use crate::app::editing::{entry_url, entry_verb, url_status, wrong_scheme};
use crate::app::kinds::{AuthField, CellCol, EditTarget, Mode, TableId};
use crate::app::state::AppView;
use crate::app::tables::lemma_row_replaced;
use crate::http::url_input::{parts_of, PartsView};
use crate::model::{active_base, synced_params, AuthKind, AuthView, Method, RowView};
use crate::text::{lemma_trim_idempotent, trim, words};

verus! {

// ----- tables -----

/// Writing a cell changes that cell and nothing else of the table.
pub proof fn lemma_cells(a: AppView, table: TableId, i: int, col: CellCol, v: Seq<char>)
    requires
        a.sound(),
        0 <= i < a.rows(table).len(),
    ensures
        ({
            let b = a.cell_written(table, i, col, v);
            let row = a.rows(table)[i];
            &&& b.rows(table).len() == a.rows(table).len()
            &&& col == CellCol::Key ==> b.rows(table)[i] == (RowView { key: v, ..row })
            &&& col == CellCol::Value ==> b.rows(table)[i] == (RowView { value: v, ..row })
            &&& forall|k: int|
                0 <= k < a.rows(table).len() && k != i ==> #[trigger] b.rows(table)[k] == a.rows(table)[k]
            &&& b.dirty
        }),
{
    reveal(AppView::cell_written);
    let row = a.rows(table)[i];
    let new = match col {
        CellCol::Key => RowView { key: v, ..row },
        CellCol::Value => RowView { value: v, ..row },
    };
    lemma_row_replaced(a, table, i, new, table);
    let b = a.cell_written(table, i, col, v);
    assert(b.rows(table) == a.with_row(table, i, new).rows(table));
}

/// Switching a row flips its flag and keeps its name and value.
pub proof fn lemma_switching_a_row(a: AppView, table: TableId, i: int)
    requires
        a.sound(),
        0 <= i < a.rows(table).len(),
    ensures
        ({
            let b = a.row_toggled(table, i);
            let row = a.rows(table)[i];
            &&& b.rows(table).len() == a.rows(table).len()
            &&& b.rows(table)[i].enabled == !row.enabled
            &&& b.rows(table)[i].key == row.key
            &&& b.rows(table)[i].value == row.value
            &&& b.dirty
        }),
{
    reveal(AppView::row_toggled);
    let row = a.rows(table)[i];
    let new = RowView { enabled: !row.enabled, ..row };
    lemma_row_replaced(a, table, i, new, table);
    assert(a.row_toggled(table, i).rows(table) == a.with_row(table, i, new).rows(table));
}

/// A new row is empty, switched on, last in its table, and its name is typed next,
/// then its value. A new parameter is a query parameter.
pub proof fn lemma_new_rows(a: AppView, table: TableId)
    requires
        a.sound(),
        table == TableId::Vars || a.selected is Some,
        a.rows(table).len() < usize::MAX,
    ensures
        ({
            let b = a.row_added(table);
            let n = a.rows(table).len() as int;
            &&& b.rows(table) == a.rows(table).push(
                RowView { key: Seq::empty(), value: Seq::empty(), enabled: true },
            )
            &&& b.editing == Some(
                EditTarget::Cell { table, row: n as usize, col: CellCol::Key },
            )
            &&& b.chain_to_value
            &&& b.mode == Mode::Insert
            &&& b.table_row == n as usize
            &&& table == TableId::Params ==> b.request()->0.path_params == a.request()->0.path_params
        }),
{
    reveal(AppView::row_added);
    reveal(AppView::with_blank_row);
    reveal(AppView::edit_started);
    let b = a.row_added(table);
    assert(b.rows(table) =~= a.rows(table).push(
        RowView { key: Seq::empty(), value: Seq::empty(), enabled: true },
    ));
}

/// After the name of a new row its value is typed.
pub proof fn lemma_value_follows_name(a: AppView, table: TableId, row: usize, v: Seq<char>)
    ensures
        ({
            let b = a.cell_committed(table, row, CellCol::Key, v);
            &&& a.chain_to_value ==> b.editing == Some(
                EditTarget::Cell { table, row, col: CellCol::Value },
            ) && !b.chain_to_value
            &&& !a.chain_to_value ==> b.editing == a.editing
        }),
{
    reveal(AppView::cell_committed);
    reveal(AppView::cell_written);
    reveal(AppView::with_row);
    reveal(AppView::edit_started);
}

// ----- what was typed -----

/// A committed cell holds what was typed, without blanks around it.
pub proof fn lemma_typed_cells(a: AppView, table: TableId, row: usize, col: CellCol, id: u128)
    requires
        a.sound(),
        a.editing == Some(EditTarget::Cell { table, row, col }),
        row < a.rows(table).len(),
    ensures
        ({
            let b = a.committed(id);
            &&& col == CellCol::Key ==> b.rows(table)[row as int].key == trim(a.input.text)
            &&& col == CellCol::Value ==> b.rows(table)[row as int].value == trim(a.input.text)
        }),
{
    reveal(AppView::committed);
    reveal(AppView::cell_committed);
    reveal(AppView::edit_started);
    let v = trim(a.input.text);
    let c = AppView { editing: None, mode: Mode::Normal, ..a };
    assert(c.rows(table) == a.rows(table));
    lemma_cells(c, table, row as int, col, v);
    let d = c.cell_written(table, row as int, col, v);
    assert(a.committed(id).rows(table) == d.rows(table));
}

/// A committed name is what was typed; a blank one leaves the old name.
pub proof fn lemma_typed_names(a: AppView, i: usize, id: u128)
    requires
        a.editing == Some(EditTarget::Rename),
        a.selected == Some(i),
        i < a.collection.requests.len(),
    ensures
        ({
            let b = a.committed(id);
            let typed = trim(a.input.text);
            &&& typed.len() > 0 ==> b.collection.requests[i as int].name == typed && b.dirty
            &&& typed.len() == 0 ==> b.collection == a.collection
            &&& b.editing is None
            &&& b.mode == Mode::Normal
            &&& forall|k: int|
                0 <= k < a.collection.requests.len() && k != i ==> #[trigger] b.collection.requests[k]
                    == a.collection.requests[k]
        }),
{
    reveal(AppView::committed);
    reveal(AppView::renamed);
}

/// A committed server is added last and made the active one.
pub proof fn lemma_typed_servers(a: AppView, id: u128)
    requires
        a.editing == Some(EditTarget::EnvNew),
        a.collection.servers.len() < usize::MAX,
    ensures
        ({
            let b = a.committed(id);
            let typed = trim(a.input.text);
            &&& typed.len() > 0 ==> b.collection.servers == a.collection.servers.push(typed)
                && active_base(b.collection) == Some(typed) && b.dirty
            &&& typed.len() == 0 ==> b.collection == a.collection
        }),
{
    reveal(AppView::committed);
    reveal(AppView::server_added);
}

/// A committed auth row is filled in.
pub proof fn lemma_typed_auth(a: AppView, i: usize, id: u128)
    requires
        a.editing == Some(EditTarget::AuthField(i)),
    ensures
        a.committed(id).auth_form == a.auth_form.with_value(a.auth_row(i as int), trim(a.input.text)),
        a.committed(id).collection == a.collection,
{
    reveal(AppView::committed);
    reveal(AppView::auth_filled);
}

/// A committed new request is made under the name that was typed.
pub proof fn lemma_typed_requests(a: AppView, id: u128)
    requires
        a.editing == Some(EditTarget::NewRequest),
    ensures
        a.committed(id) == (AppView { editing: None, mode: Mode::Normal, ..a }).request_added(
            trim(a.input.text),
            id,
        ),
{
    reveal(AppView::committed);
}

// ----- the URL bar -----

/// What a URL entry says goes to the open request: the path, with rows for its
/// placeholders; the query rows where the entry has any; the method where it names
/// one. Everything else of the request stays.
pub proof fn lemma_entries_readdress(a: AppView, parts: PartsView, verb: Option<Method>, i: usize)
    requires
        a.selected == Some(i),
        i < a.collection.requests.len(),
    ensures
        ({
            let b = a.parts_applied(parts, verb).collection.requests[i as int];
            let r = a.collection.requests[i as int];
            &&& b.path == parts.path
            &&& parts.query matches Some(q) ==> b.query == q
            &&& parts.query is None ==> b.query == r.query
            &&& verb matches Some(m) ==> b.method == m
            &&& verb is None ==> b.method == r.method
            &&& b.path_params == synced_params(crate::model::RequestView { path: parts.path, ..r })
            &&& b.name == r.name
            &&& b.headers == r.headers
            &&& b.body == r.body
            &&& b.id == r.id
            &&& b.docs == r.docs
            &&& b.tags == r.tags
        }),
{
    reveal(AppView::parts_applied);
}

/// An entry with an origin makes that server the active one; one without leaves the
/// servers alone.
pub proof fn lemma_entries_choose_the_server(a: AppView, parts: PartsView, verb: Option<Method>)
    requires
        a.selected is Some,
    ensures
        parts.origin is None ==> a.parts_applied(parts, verb).collection.servers
            == a.collection.servers && a.parts_applied(parts, verb).collection.active_server
            == a.collection.active_server,
        parts.origin matches Some(o) ==> ({
            let c = crate::app::editing::with_server(a.collection, o);
            let d = a.parts_applied(parts, verb).collection;
            d.servers == c.servers && d.active_server == c.active_server
        }),
        a.parts_applied(parts, verb).dirty,
{
    reveal(AppView::parts_applied);
}

// ----- the auth form -----

/// Each row of the form fills its own setting in and no other.
pub proof fn lemma_auth_rows(a: AuthView, v: Seq<char>)
    ensures
        a.with_value(AuthField::Token, v) == (AuthView { token: v, ..a }),
        a.with_value(AuthField::Header, v) == (AuthView { header: v, ..a }),
        a.with_value(AuthField::TokenUrl, v) == (AuthView { token_url: v, ..a }),
        a.with_value(AuthField::ClientId, v) == (AuthView { client_id: v, ..a }),
        a.with_value(AuthField::ClientSecret, v) == (AuthView { client_secret: v, ..a }),
        a.with_value(AuthField::Scopes, v) == (AuthView { scopes: words(v), ..a }),
        a.with_value(AuthField::Kind, v) == a,
        a.with_value(AuthField::Style, v) == a,
{
}

/// The two toggles step through their choices and keep what is filled in.
pub proof fn lemma_auth_toggles(a: AuthView)
    ensures
        a.advanced(AuthField::Style).advanced(AuthField::Style) == a,
        a.advanced(AuthField::Style).auth_style != a.auth_style,
        a.advanced(AuthField::Kind).kind != a.kind,
        a.advanced(AuthField::Kind).advanced(AuthField::Kind).kind != a.kind,
        a.advanced(AuthField::Kind).advanced(AuthField::Kind).advanced(AuthField::Kind) == a,
{
}

/// Every setting that a scheme needs has a row in the form.
pub proof fn lemma_auth_form_rows()
    ensures
        ({
            let rows = crate::app::auth::rows_under(AuthKind::Oauth2);
            rows.contains(AuthField::TokenUrl) && rows.contains(AuthField::ClientId) && rows.contains(
                AuthField::ClientSecret,
            ) && rows.contains(AuthField::Scopes) && rows.contains(AuthField::Style) && rows.contains(
                AuthField::Kind,
            )
        }),
        ({
            let rows = crate::app::auth::rows_under(AuthKind::Bearer);
            rows.contains(AuthField::Token) && rows.contains(AuthField::Kind)
        }),
        ({
            let rows = crate::app::auth::rows_under(AuthKind::ApiKey);
            rows.contains(AuthField::Token) && rows.contains(AuthField::Header) && rows.contains(
                AuthField::Kind,
            )
        }),
{
    let o = crate::app::auth::rows_under(AuthKind::Oauth2);
    assert(o[0] == AuthField::TokenUrl && o[1] == AuthField::ClientId && o[2]
        == AuthField::ClientSecret && o[3] == AuthField::Scopes && o[4] == AuthField::Style && o[5]
        == AuthField::Kind);
    let b = crate::app::auth::rows_under(AuthKind::Bearer);
    assert(b[0] == AuthField::Token && b[1] == AuthField::Kind);
    let k = crate::app::auth::rows_under(AuthKind::ApiKey);
    assert(k[0] == AuthField::Header && k[1] == AuthField::Token && k[2] == AuthField::Kind);
}

/// The form opens on the collection's settings and, taken over, becomes them; one
/// with nothing filled in takes auth away.
pub proof fn lemma_auth_form(a: AppView)
    ensures
        a.collection.auth matches Some(x) ==> a.auth_opened().auth_form == x,
        ({
            let f = a.auth_form;
            let blank = f.token.len() == 0 && f.header.len() == 0 && f.token_url.len() == 0
                && f.client_id.len() == 0 && f.client_secret.len() == 0 && f.scopes.len() == 0;
            &&& blank ==> a.auth_applied().collection.auth is None
            &&& !blank ==> a.auth_applied().collection.auth == Some(f)
            &&& a.auth_applied().dirty == (a.dirty || a.auth_applied().collection.auth
                != a.collection.auth)
            &&& a.auth_applied().collection.requests == a.collection.requests
        }),
{
    reveal(AppView::auth_opened);
    reveal(AppView::auth_applied);
}

/// What is typed into the URL bar is read as a verb, where it begins with one, and a
/// URL; both go to the open request.
pub proof fn lemma_typed_urls(a: AppView, i: usize, id: u128)
    requires
        a.editing == Some(EditTarget::Url),
        a.selected == Some(i),
        i < a.collection.requests.len(),
        wrong_scheme(entry_url(trim(a.input.text))) is None,
    ensures
        ({
            let entry = trim(a.input.text);
            let b = a.committed(id);
            let r = a.collection.requests[i as int];
            let parts = parts_of(entry_url(entry));
            &&& b.collection.requests[i as int].path == parts.path
            &&& parts.query matches Some(q) ==> b.collection.requests[i as int].query == q
            &&& entry_verb(entry) matches Some(m) ==> b.collection.requests[i as int].method == m
            &&& entry_verb(entry) is None ==> b.collection.requests[i as int].method == r.method
            &&& b.editing is None
            &&& b.mode == Mode::Normal
        }),
{
    lemma_trim_idempotent(a.input.text);
    reveal(AppView::committed);
    reveal(AppView::url_applied);
    reveal(AppView::parts_applied);
}

/// A URL of another scheme than http or https is refused and changes nothing.
pub proof fn lemma_refused_urls(a: AppView, input: Seq<char>)
    requires
        wrong_scheme(entry_url(trim(input))) is Some,
    ensures
        a.url_applied(input).collection == a.collection,
        a.url_applied(input).dirty == a.dirty,
{
    reveal(AppView::url_applied);
}

/// What is said of an entry: its path, and what came of its server and its query.
pub proof fn lemma_entry_notes(path: Seq<char>, note: Seq<char>)
    ensures
        url_status(path, Seq::empty()) == "Path: "@ + path,
        url_status(path, seq![note]) == "Path: "@ + path + " · "@ + note,
{
}

/// Deleting a row counts as a change; where there is no row nothing happens.
pub proof fn lemma_deleting_rows(a: AppView, table: TableId, i: int)
    requires
        0 <= i,
    ensures
        i < a.rows(table).len() ==> a.row_deleted(table, i).dirty,
        i >= a.rows(table).len() ==> a.row_deleted(table, i) == a,
        i >= a.rows(table).len() ==> a.row_toggled(table, i) == a,
{
    reveal(AppView::row_deleted);
    reveal(AppView::row_toggled);
}

/// Without auth the form opens blank, on the OAuth scheme.
pub proof fn lemma_blank_auth_form(a: AppView)
    requires
        a.collection.auth is None,
    ensures
        ({
            let f = a.auth_opened().auth_form;
            &&& f.kind == AuthKind::Oauth2
            &&& f.token.len() == 0 && f.header.len() == 0 && f.token_url.len() == 0 && f.client_id.len()
                == 0 && f.client_secret.len() == 0 && f.scopes.len() == 0
            &&& a.auth_opened().auth_field == 0
        }),
{
    reveal(AppView::auth_opened);
}

} // verus!
