//! What is drawn says what the state holds.

use vstd::prelude::*;

use crate::app::auth::rows_under;
use crate::app::kinds::{AuthField, CellCol, EditTarget, Mode, SidebarRowView, TableId};
use crate::app::state::AppView;
use crate::http::vars::dynamic_table;
use crate::model::{label_of, Method};
use crate::style::Color;
use crate::text::{decimal, pad_right};
use crate::ui::{
    auth_shown, auth_text, color_of, help_text, response_heading, response_text,
    options_text, server_text, sidebar_heading, sidebar_line, status_text, table_text, toggle_text, url_text, };

verus! {

/// A group is shown by its name and whether it is folded.
pub proof fn lemma_group_lines(a: AppView, tag: Seq<char>)
    ensures
        ({
            let l = sidebar_line(a, SidebarRowView::Group(tag));
            &&& l.spans.len() == 1
            &&& a.collapsed.contains(tag) ==> l.spans[0].text == "▸"@ + " "@ + tag
            &&& !a.collapsed.contains(tag) ==> l.spans[0].text == "▾"@ + " "@ + tag
        }),
{
}

/// A request is shown by its verb, in the verb's colour, and its label.
pub proof fn lemma_request_lines(a: AppView, k: int)
    ensures
        ({
            let l = sidebar_line(a, SidebarRowView::Request(k));
            let r = a.collection.requests[k];
            &&& l.spans.len() == 2
            &&& l.spans[0].text == "  "@ + pad_right(r.method.verb(), 7)
            &&& l.spans[0].style.fg == Some(color_of(r.method))
            &&& l.spans[1].text == label_of(r, a.collection.label_mode)
        }),
{
}

/// No two methods share a colour.
pub proof fn lemma_method_colors(a: Method, b: Method)
    ensures
        color_of(a) == color_of(b) ==> a == b,
        color_of(Method::Get) == Color::Green,
        color_of(Method::Delete) == Color::Red,
{
}

/// The sidebar is headed by the collection's name, and the filter where there is
/// one.
pub proof fn lemma_sidebar_heading(a: AppView)
    ensures
        a.filter.len() == 0 ==> sidebar_heading(a) == " "@ + a.collection.name + " "@,
        a.filter.len() > 0 ==> sidebar_heading(a) == " "@ + a.collection.name + " — /"@ + a.filter
            + " "@,
{
}

/// The URL bar shows the verb, the active server and the path.
pub proof fn lemma_url_bar(a: AppView, i: usize)
    requires
        a.selected == Some(i),
        i < a.collection.requests.len(),
    ensures
        ({
            let r = a.collection.requests[i as int];
            let l = url_text(a);
            &&& l.spans.len() == 2
            &&& l.spans[0].text == " "@ + pad_right(r.method.verb(), 7)
            &&& a.collection.active_server < a.collection.servers.len() ==> l.spans[1].text
                == a.collection.servers[a.collection.active_server as int] + r.path
            &&& a.collection.active_server >= a.collection.servers.len() ==> l.spans[1].text
                == "<no server — press E>"@ + r.path
        }),
{
}

/// A table shows each of its rows, in order: whether it is switched on, its name and
/// its value. The parameters' table says which go into the path and which into the
/// query.
pub proof fn lemma_table_lines(a: AppView, table: TableId, i: int)
    requires
        a.sound(),
        0 <= i < a.rows(table).len(),
    ensures
        ({
            let l = table_text(a, table)[i];
            let row = a.rows(table)[i];
            let n = l.cells.len();
            &&& table_text(a, table).len() == a.rows(table).len()
            &&& l.enabled == row.enabled
            &&& n == (if table == TableId::Params {
                4nat
            } else {
                3nat
            })
            &&& l.cells[0] == (if row.enabled {
                "[x]"@
            } else {
                "[ ]"@
            })
            &&& l.cells[n - 2] == row.key
            &&& l.cells[n - 1] == row.value
            &&& table == TableId::Params && i < a.request()->0.path_params.len() ==> l.cells[1]
                == "path"@
            &&& table == TableId::Params && i >= a.request()->0.path_params.len() ==> l.cells[1]
                == "query"@
        }),
{
}

/// The response pane shows the body, and the status line of the last response.
pub proof fn lemma_response_pane(a: AppView)
    ensures
        a.response matches Some(r) ==> response_text(a) == r.body,
        a.sending ==> response_heading(a) == " Response — sending… "@,
        !a.sending ==> (a.response matches Some(r) ==> response_heading(a) == " Response — "@
            + crate::http::client::status_line_of(r) + " "@),
{
}

/// A status line says the status, the reason, the time and the size.
pub proof fn lemma_status_line(r: crate::http::client::ResponseView)
    ensures
        crate::http::client::status_line_of(r) == decimal(r.status as nat) + " "@ + r.reason + " · "@
            + decimal(r.elapsed_ms as nat) + "ms · "@ + crate::http::client::size_text(
            r.size as nat,
        ),
{
}

/// The status bar shows what is being typed, with the cursor in it.
pub proof fn lemma_prompts(a: AppView)
    ensures
        a.mode == Mode::Command ==> status_text(a) is Prompt && status_text(a)->text == ":"@
            + a.command,
        a.mode == Mode::Search ==> status_text(a) is Prompt && status_text(a)->text == "/"@
            + a.search.text,
        a.mode == Mode::Search && 0 <= a.search.at < usize::MAX ==> status_text(a)->cursor
            == a.search.at + 1,
        a.mode == Mode::Insert && a.editing == Some(EditTarget::Rename) ==> status_text(a) is Prompt
            && status_text(a)->text == "rename"@ + "> "@ + a.input.text,
        a.mode == Mode::Insert && a.editing == Some(EditTarget::Url) ==> status_text(a) is Prompt
            && status_text(a)->text == "url"@ + "> "@ + a.input.text,
        a.mode == Mode::Insert && a.editing == Some(EditTarget::NewRequest) ==> status_text(
            a,
        ) is Prompt && status_text(a)->text == "new request"@ + "> "@ + a.input.text,
        a.mode == Mode::Insert && a.editing == Some(EditTarget::EnvNew) ==> status_text(a) is Prompt
            && status_text(a)->text == "server url"@ + "> "@ + a.input.text,
        a.mode == Mode::Normal ==> status_text(a) is Info,
{
}

/// A cell is typed under the name of its column.
pub proof fn lemma_cell_prompts(a: AppView, table: TableId, row: usize)
    requires
        a.mode == Mode::Insert,
    ensures
        a.editing == Some(EditTarget::Cell { table, row, col: CellCol::Key }) ==> status_text(
            a,
        ) is Prompt && status_text(a)->text == "key"@ + "> "@ + a.input.text,
        a.editing == Some(EditTarget::Cell { table, row, col: CellCol::Value }) ==> status_text(
            a,
        ) is Prompt && status_text(a)->text == "value"@ + "> "@ + a.input.text,
{
}

/// In Normal mode the status bar names the mode, the collection, with a star where
/// something is unsaved, the server and what was last said.
pub proof fn lemma_info_line(a: AppView)
    requires
        a.mode == Mode::Normal,
    ensures
        status_text(a) is Info,
        ({
            let l = status_text(a)->Info_0;
            &&& l.spans.len() == 2
            &&& l.spans[0].text == " NORMAL "@
            &&& l.spans[1].text == " "@ + a.collection.name + (if a.dirty {
                "*"@
            } else {
                ""@
            }) + " | "@ + (if a.collection.active_server < a.collection.servers.len() {
                a.collection.servers[a.collection.active_server as int]
            } else {
                "no server"@
            }) + " | "@ + a.status + " "@
        }),
{
}

/// The server popup lists every server and marks the active one.
pub proof fn lemma_server_popup(a: AppView, i: int)
    requires
        0 <= i < a.collection.servers.len(),
    ensures
        server_text(a).len() == a.collection.servers.len(),
        i == a.collection.active_server ==> server_text(a)[i] == "● "@ + a.collection.servers[i],
        i != a.collection.active_server ==> server_text(a)[i] == "  "@ + a.collection.servers[i],
{
}

/// The auth popup shows every row of the scheme with its label and, unless it is a
/// secret, its value.
pub proof fn lemma_auth_popup(a: AppView, i: int)
    requires
        0 <= i < rows_under(a.auth_form.kind).len(),
    ensures
        ({
            let l = auth_text(a)[i];
            let field = rows_under(a.auth_form.kind)[i];
            &&& auth_text(a).len() == rows_under(a.auth_form.kind).len() + 2
            &&& l.spans.len() == 2
            &&& l.spans[1].text == auth_shown(a, i)
            &&& field == AuthField::TokenUrl ==> l.spans[1].text == a.auth_form.token_url
            &&& field == AuthField::ClientId ==> l.spans[1].text == a.auth_form.client_id
            &&& field == AuthField::Header ==> l.spans[1].text == a.auth_form.header
            &&& field == AuthField::TokenUrl ==> l.spans[0].text == " "@ + pad_right("Token URL"@, 28)
            &&& field == AuthField::ClientId ==> l.spans[0].text == " "@ + pad_right("Client ID"@, 28)
            &&& field == AuthField::Header ==> l.spans[0].text == " "@ + pad_right(
                "Header name"@,
                28,
            )
        }),
{
}

/// The help names every dynamic variable.
pub proof fn lemma_help_names_variables(k: int)
    requires
        0 <= k < dynamic_table().len(),
    ensures
        exists|i: int|
            0 <= i < help_text().len() && (#[trigger] help_text()[i]).spans.len() == 2
                && help_text()[i].spans[0].text == "  "@ + pad_right(dynamic_table()[k].0@, 15)
                && help_text()[i].spans[1].text == dynamic_table()[k].1@,
{
    let n = crate::ui::help_lines_of(crate::ui::help_head()).len() as int;
    assert(help_text()[n + k] == crate::ui::variable_lines()[k]);
}

/// A toggle shows every choice and brackets the active one.
pub proof fn lemma_toggles(names: Seq<Seq<char>>, active: int, i: int)
    requires
        0 <= i < names.len(),
    ensures
        options_text(names, active).len() == names.len(),
        i == active ==> options_text(names, active)[i] == "["@ + names[i] + "]"@,
        i != active ==> options_text(names, active)[i] == names[i],
        toggle_text(names, active) == crate::text::join(options_text(names, active), "  "@),
{
}

} // verus!
