//! Which key does what, in every mode and pane.

use vstd::prelude::*;

use crate::app::kinds::{
    CellCol, EditTarget, EditorTab, ExternalEdit, Focus, Mode, Popup, TableId,
};
use crate::app::line_edit::LineState;
use crate::app::state::AppView;
use crate::app::text_box::BoxView;
use crate::keys::{KeyCode, KeyEvent, KeyModifiers};
use crate::model::{LabelMode, Method};

verus! {

/// A key without Shift, Control or Alt.
pub open spec fn bare(code: KeyCode) -> KeyEvent {
    KeyEvent { code, modifiers: KeyModifiers { shift: false, control: false, alt: false } }
}

/// The key of a character.
pub open spec fn ch(c: char) -> KeyEvent {
    bare(KeyCode::Char(c))
}

/// Whether keys go to the panes.
pub open spec fn at_rest(a: AppView) -> bool {
    a.popup == Popup::Closed && a.mode == Mode::Normal
}

// ----- in every pane -----

/// The keys that mean the same in every pane.
pub proof fn lemma_keys_everywhere(a: AppView, id: u128, t: BoxView)
    requires
        at_rest(a),
    ensures
        a.keyed(ch(':'), id, t) == (AppView { command: Seq::empty(), mode: Mode::Command, ..a }),
        a.keyed(ch('?'), id, t) == (AppView { help_scroll: 0, popup: Popup::Help, ..a }),
        a.keyed(ch('q'), id, t) == a.quit_tried(),
        a.keyed(ch('z'), id, t).zoom == !a.zoom,
        a.keyed(ch('z'), id, t).collection == a.collection,
        a.keyed(ch('/'), id, t).mode == Mode::Search,
        a.keyed(ch('/'), id, t).focus == Focus::Sidebar,
        a.keyed(ch('/'), id, t).search == (LineState { text: a.filter, at: a.filter.len() as int }),
        a.keyed(ch('E'), id, t) == (AppView {
            env_sel: a.collection.active_server,
            popup: Popup::Env,
            ..a
        }),
        a.keyed(ch('A'), id, t).popup == Popup::Auth,
        a.keyed(ch('A'), id, t) == a.auth_opened(),
{
    reveal(AppView::keyed);
    reveal(AppView::normal_keyed);
    reveal(AppView::global_keyed);
    reveal(AppView::zoom_switched);
    reveal(AppView::search_started);
    reveal(AppView::auth_opened);
}

/// `Tab` goes through the panes, and a number goes to its pane.
pub proof fn lemma_pane_keys(a: AppView, id: u128, t: BoxView)
    requires
        at_rest(a),
    ensures
        a.keyed(ch('1'), id, t) == (AppView { focus: Focus::Sidebar, ..a }),
        a.keyed(ch('2'), id, t) == (AppView { focus: Focus::Editor, ..a }),
        a.keyed(ch('3'), id, t) == (AppView { focus: Focus::Response, ..a }),
        a.focus == Focus::Sidebar ==> a.keyed(bare(KeyCode::Tab), id, t).focus == Focus::Editor,
        a.focus == Focus::Editor ==> a.keyed(bare(KeyCode::Tab), id, t).focus == Focus::Response,
        a.focus == Focus::Response ==> a.keyed(bare(KeyCode::Tab), id, t).focus == Focus::Sidebar,
        a.focus == Focus::Sidebar ==> a.keyed(bare(KeyCode::BackTab), id, t).focus == Focus::Response,
        a.focus == Focus::Editor ==> a.keyed(bare(KeyCode::BackTab), id, t).focus == Focus::Sidebar,
        a.focus == Focus::Response ==> a.keyed(bare(KeyCode::BackTab), id, t).focus == Focus::Editor,
{
    reveal(AppView::keyed);
    reveal(AppView::normal_keyed);
}

/// The tab to the right of each tab, and back around from the last.
pub open spec fn right_of(t: EditorTab) -> EditorTab {
    match t {
        EditorTab::Params => EditorTab::Headers,
        EditorTab::Headers => EditorTab::Body,
        EditorTab::Body => EditorTab::Docs,
        EditorTab::Docs => EditorTab::Variables,
        EditorTab::Variables => EditorTab::Params,
    }
}

/// `]`, `L` and Shift-Right go a tab to the right; `[`, `H` and Shift-Left a tab to
/// the left. The cursor starts on the first row.
pub proof fn lemma_tab_keys(a: AppView, id: u128, t: BoxView)
    requires
        at_rest(a),
    ensures
        a.keyed(ch(']'), id, t) == (AppView { tab: right_of(a.tab), table_row: 0, ..a }),
        a.keyed(ch('L'), id, t) == a.keyed(ch(']'), id, t),
        right_of(a.keyed(ch('['), id, t).tab) == a.tab,
        a.keyed(ch('['), id, t).table_row == 0,
        a.keyed(ch('H'), id, t) == a.keyed(ch('['), id, t),
        ({
            let shift = KeyModifiers { shift: true, control: false, alt: false };
            &&& a.keyed(KeyEvent { code: KeyCode::Right, modifiers: shift }, id, t) == a.keyed(
                ch(']'),
                id,
                t,
            )
            &&& a.keyed(KeyEvent { code: KeyCode::Left, modifiers: shift }, id, t) == a.keyed(
                ch('['),
                id,
                t,
            )
        }),
{
    reveal(AppView::keyed);
    reveal(AppView::normal_keyed);
}

// ----- the sidebar -----

/// The keys of the sidebar that move the cursor.
pub proof fn lemma_sidebar_moves(a: AppView, id: u128, t: BoxView)
    requires
        at_rest(a),
        a.focus == Focus::Sidebar,
        a.sidebar_rows.len() <= usize::MAX,
    ensures
        ({
            let n = a.sidebar_rows.len();
            let down = a.keyed(ch('j'), id, t);
            let up = a.keyed(ch('k'), id, t);
            &&& a.sidebar_sel + 1 < n ==> down.sidebar_sel == a.sidebar_sel + 1
            &&& a.sidebar_sel + 1 >= n ==> down.sidebar_sel == a.sidebar_sel
            &&& a.sidebar_sel > 0 ==> up.sidebar_sel == a.sidebar_sel - 1
            &&& a.sidebar_sel == 0 ==> up.sidebar_sel == 0
            &&& a.keyed(bare(KeyCode::Down), id, t) == down
            &&& a.keyed(bare(KeyCode::Up), id, t) == up
            &&& a.keyed(ch('g'), id, t).sidebar_sel == 0
            &&& n > 0 ==> a.keyed(ch('G'), id, t).sidebar_sel == n - 1
            &&& down.collection == a.collection && up.collection == a.collection
        }),
{
    reveal(AppView::keyed);
    reveal(AppView::normal_keyed);
    reveal(AppView::sidebar_keyed);
}

/// The keys of the sidebar that act.
pub proof fn lemma_sidebar_keys(a: AppView, id: u128, t: BoxView)
    requires
        at_rest(a),
        a.focus == Focus::Sidebar,
    ensures
        a.keyed(bare(KeyCode::Enter), id, t) == a.activated(),
        a.keyed(ch(' '), id, t) == a.activated(),
        a.keyed(ch('l'), id, t) == a.activated(),
        a.keyed(ch('h'), id, t) == a.activated(),
        a.keyed(bare(KeyCode::Esc), id, t) == a.filter_cleared(),
        a.keyed(ch('n'), id, t).editing == Some(EditTarget::NewRequest),
        a.keyed(ch('n'), id, t).mode == Mode::Insert,
        a.keyed(ch('n'), id, t).input.text.len() == 0,
        a.keyed(ch('t'), id, t).dirty,
        a.collection.label_mode == LabelMode::Name ==> a.keyed(ch('t'), id, t).collection.label_mode
            == LabelMode::Summary,
        a.collection.label_mode == LabelMode::Summary ==> a.keyed(
            ch('t'),
            id,
            t,
        ).collection.label_mode == LabelMode::Path,
        a.collection.label_mode == LabelMode::Path ==> a.keyed(ch('t'), id, t).collection.label_mode
            == LabelMode::Name,
        a.highlighted() matches Some(k) ==> {
            &&& a.keyed(ch('d'), id, t) == a.without_request(k)
            &&& a.keyed(ch('y'), id, t) == (AppView {
                focus: Focus::Sidebar,
                ..a.duplicated(k, id)
            })
            &&& a.keyed(ch('r'), id, t).editing == Some(EditTarget::Rename)
            &&& a.keyed(ch('r'), id, t).selected == Some(k as usize)
            &&& a.keyed(ch('r'), id, t).focus == Focus::Sidebar
        },
{
    reveal(AppView::keyed);
    reveal(AppView::normal_keyed);
    reveal(AppView::sidebar_keyed);
    reveal(AppView::sidebar_acted);
    reveal(AppView::request_keyed);
    reveal(AppView::label_cycled);
    reveal(AppView::edit_started);
    reveal(AppView::opened);
}

// ----- the editor -----

/// `Enter` sends, `m` goes to the next method, `r` renames and `p` edits the URL, on
/// every tab.
pub proof fn lemma_editor_keys(a: AppView, id: u128, t: BoxView, i: usize)
    requires
        at_rest(a),
        a.focus == Focus::Editor,
        a.selected == Some(i),
        i < a.collection.requests.len(),
    ensures
        a.keyed(bare(KeyCode::Enter), id, t) == a.sent(),
        a.keyed(ch('r'), id, t).editing == Some(EditTarget::Rename),
        a.keyed(ch('r'), id, t).input.text == a.collection.requests[i as int].name,
        a.keyed(ch('r'), id, t).mode == Mode::Insert,
        a.keyed(ch('p'), id, t).editing == Some(EditTarget::Url),
        a.keyed(ch('p'), id, t).mode == Mode::Insert,
        a.collection.requests[i as int].path != "/"@ ==> a.keyed(ch('p'), id, t).input.text
            == a.collection.requests[i as int].path,
        ({
            let r = a.collection.requests[i as int];
            let b = a.keyed(ch('m'), id, t);
            &&& b.collection.requests[i as int].method == (match r.method {
                Method::Get => Method::Post,
                Method::Post => Method::Put,
                Method::Put => Method::Patch,
                Method::Patch => Method::Delete,
                Method::Delete => Method::Head,
                Method::Head => Method::Options,
                Method::Options => Method::Get,
            })
            &&& b.collection.requests[i as int].path == r.path
            &&& b.dirty
        }),
{
    reveal(AppView::keyed);
    reveal(AppView::normal_keyed);
    reveal(AppView::editor_keyed);
    reveal(AppView::method_cycled);
    reveal(AppView::edit_started);
}

/// The table that a tab shows.
pub open spec fn table_of(t: EditorTab) -> TableId {
    match t {
        EditorTab::Headers => TableId::Headers,
        EditorTab::Variables => TableId::Vars,
        _ => TableId::Params,
    }
}

/// On a table, the space bar switches a row, `a` adds one, `d` deletes one and `i`
/// edits a value; the cursor moves by lines and to the ends.
pub proof fn lemma_table_keys(a: AppView, id: u128, t: BoxView)
    requires
        at_rest(a),
        a.focus == Focus::Editor,
        a.tab == EditorTab::Params || a.tab == EditorTab::Headers || a.tab == EditorTab::Variables,
        a.rows(table_of(a.tab)).len() <= usize::MAX,
    ensures
        ({
            let table = table_of(a.tab);
            let n = a.rows(table).len();
            let at = a.table_row;
            &&& a.keyed(ch(' '), id, t) == a.row_toggled(table, at as int)
            &&& a.keyed(ch('a'), id, t) == a.row_added(table)
            &&& a.keyed(ch('d'), id, t) == a.row_deleted(table, at as int)
            &&& at < n ==> a.keyed(ch('i'), id, t).editing == Some(
                EditTarget::Cell { table, row: at, col: CellCol::Value },
            )
            &&& at < n ==> a.keyed(ch('i'), id, t).input.text == a.rows(table)[at as int].value
            &&& at < n ==> !a.keyed(ch('i'), id, t).chain_to_value
            &&& at + 1 < n ==> a.keyed(ch('j'), id, t).table_row == at + 1
            &&& at > 0 ==> a.keyed(ch('k'), id, t).table_row == at - 1
            &&& a.keyed(ch('g'), id, t).table_row == 0
            &&& n > 0 ==> a.keyed(ch('G'), id, t).table_row == n - 1
            &&& a.keyed(bare(KeyCode::Down), id, t) == a.keyed(ch('j'), id, t)
            &&& a.keyed(bare(KeyCode::Up), id, t) == a.keyed(ch('k'), id, t)
        }),
{
    reveal(AppView::keyed);
    reveal(AppView::normal_keyed);
    reveal(AppView::editor_keyed);
    reveal(AppView::table_keyed);
    reveal(AppView::edit_started);
}

/// On the Body tab, `i` types into the body and `e` opens it in an editor; the other
/// keys move the cursor and leave the text.
pub proof fn lemma_body_keys(a: AppView, id: u128, t: BoxView)
    requires
        at_rest(a),
        a.focus == Focus::Editor,
        a.tab == EditorTab::Body,
        a.selected is Some,
        0 <= a.textarea.row < a.textarea.lines.len(),
    ensures
        a.keyed(ch('i'), id, t) == (AppView { mode: Mode::Insert, ..a }),
        a.keyed(ch('e'), id, t) == (AppView { pending_external: Some(ExternalEdit::Body), ..a }),
        a.textarea.row + 1 < a.textarea.lines.len() ==> a.keyed(ch('j'), id, t).textarea.row
            == a.textarea.row + 1,
        a.textarea.row > 0 ==> a.keyed(ch('k'), id, t).textarea.row == a.textarea.row - 1,
        a.keyed(ch('g'), id, t).textarea.row == 0,
        a.keyed(ch('G'), id, t).textarea.row == a.textarea.lines.len() - 1,
        a.keyed(ch('j'), id, t).textarea.lines == a.textarea.lines,
        a.keyed(ch('k'), id, t).textarea.lines == a.textarea.lines,
{
    reveal(AppView::keyed);
    reveal(AppView::normal_keyed);
    reveal(AppView::editor_keyed);
    reveal(AppView::body_keyed);
}

/// A page is as many lines as it says, short of the ends.
pub proof fn lemma_pages(b: BoxView, n: nat)
    requires
        0 <= b.row < b.lines.len(),
    ensures
        b.down_by(n).lines == b.lines,
        b.up_by(n).lines == b.lines,
        b.down_by(n).row == (if b.row + n < b.lines.len() {
            b.row + n
        } else {
            b.lines.len() - 1
        }),
        b.up_by(n).row == (if b.row >= n {
            b.row - n
        } else {
            0
        }),
    decreases n,
{
    if n > 0 {
        lemma_pages(b, (n - 1) as nat);
    }
}

/// `d` and `u` go a page of fifteen lines down and up, in the body, the docs and the
/// response.
pub proof fn lemma_page_keys(a: AppView, id: u128, t: BoxView)
    requires
        at_rest(a),
    ensures
        a.focus == Focus::Editor && a.tab == EditorTab::Body ==> a.keyed(ch('d'), id, t)
            == (AppView { textarea: a.textarea.down_by(15), ..a }) && a.keyed(ch('u'), id, t)
            == (AppView { textarea: a.textarea.up_by(15), ..a }),
        a.focus == Focus::Editor && a.tab == EditorTab::Docs && a.docs_scroll + 15 <= usize::MAX
            ==> a.keyed(ch('d'), id, t).docs_scroll == a.docs_scroll + 15,
        a.focus == Focus::Editor && a.tab == EditorTab::Docs && a.docs_scroll >= 15 ==> a.keyed(
            ch('u'),
            id,
            t,
        ).docs_scroll == a.docs_scroll - 15,
        a.focus == Focus::Response && a.response_scroll + 15 <= usize::MAX ==> a.keyed(
            ch('d'),
            id,
            t,
        ).response_scroll == a.response_scroll + 15,
        a.focus == Focus::Response && a.response_scroll >= 15 ==> a.keyed(
            ch('u'),
            id,
            t,
        ).response_scroll == a.response_scroll - 15,
{
    reveal(AppView::keyed);
    reveal(AppView::normal_keyed);
    reveal(AppView::editor_keyed);
    reveal(AppView::body_keyed);
    reveal(AppView::docs_keyed);
    reveal(AppView::response_keyed);
}

/// The docs and the response scroll by lines and to the ends; `e` opens a response
/// in an editor.
pub proof fn lemma_scroll_keys(a: AppView, id: u128, t: BoxView)
    requires
        at_rest(a),
        a.docs_scroll < usize::MAX,
        a.response_scroll < usize::MAX,
    ensures
        a.focus == Focus::Editor && a.tab == EditorTab::Docs ==> {
            &&& a.keyed(ch('j'), id, t) == (AppView { docs_scroll: (a.docs_scroll + 1) as usize, ..a })
            &&& a.docs_scroll > 0 ==> a.keyed(ch('k'), id, t) == (AppView {
                docs_scroll: (a.docs_scroll - 1) as usize,
                ..a
            })
            &&& a.keyed(ch('g'), id, t).docs_scroll == 0
        },
        a.focus == Focus::Response ==> {
            &&& a.keyed(ch('j'), id, t) == (AppView {
                response_scroll: (a.response_scroll + 1) as usize,
                ..a
            })
            &&& a.response_scroll > 0 ==> a.keyed(ch('k'), id, t) == (AppView {
                response_scroll: (a.response_scroll - 1) as usize,
                ..a
            })
            &&& a.keyed(ch('g'), id, t).response_scroll == 0
            &&& a.response is Some ==> a.keyed(ch('e'), id, t) == (AppView {
                pending_external: Some(ExternalEdit::Response),
                ..a
            })
            &&& a.response is None ==> a.keyed(ch('e'), id, t) == a
        },
{
    reveal(AppView::keyed);
    reveal(AppView::normal_keyed);
    reveal(AppView::editor_keyed);
    reveal(AppView::docs_keyed);
    reveal(AppView::response_keyed);
}

// ----- typing -----

/// While a line is edited, `Enter` takes it over, `Esc` drops it and a character
/// goes in at the cursor.
pub proof fn lemma_line_keys(a: AppView, id: u128, t: BoxView, c: char)
    requires
        a.mode == Mode::Insert || a.popup != Popup::Closed,
        a.editing is Some,
    ensures
        a.keyed(bare(KeyCode::Enter), id, t) == a.committed(id),
        a.keyed(bare(KeyCode::Esc), id, t).editing is None,
        a.keyed(bare(KeyCode::Esc), id, t).mode == Mode::Normal,
        a.keyed(bare(KeyCode::Esc), id, t).collection == a.collection,
        a.keyed(ch(c), id, t) == (AppView {
            input: LineState { text: a.input.text.insert(a.input.at, c), at: a.input.at + 1 },
            ..a
        }),
        a.input.at > 0 ==> a.keyed(bare(KeyCode::Backspace), id, t).input == (LineState {
            text: a.input.text.remove(a.input.at - 1),
            at: a.input.at - 1,
        }),
        a.input.at < a.input.text.len() ==> a.keyed(bare(KeyCode::Delete), id, t).input == (LineState {
            text: a.input.text.remove(a.input.at),
            at: a.input.at,
        }),
        a.input.at > 0 ==> a.keyed(bare(KeyCode::Left), id, t).input.at == a.input.at - 1,
        a.input.at < a.input.text.len() ==> a.keyed(bare(KeyCode::Right), id, t).input.at
            == a.input.at + 1,
        a.keyed(bare(KeyCode::Left), id, t).input.text == a.input.text,
        a.keyed(bare(KeyCode::Right), id, t).input.text == a.input.text,
{
    reveal(AppView::keyed);
    reveal(AppView::popup_keyed);
    reveal(AppView::insert_keyed);
    reveal(AppView::edit_keyed);
    reveal(AppView::edit_cancelled);
}

/// While the body is typed into, `Esc` takes it over, a page key pages, and any other
/// key goes to the text area.
pub proof fn lemma_body_typing(a: AppView, key: KeyEvent, id: u128, t: BoxView)
    requires
        a.popup == Popup::Closed,
        a.mode == Mode::Insert,
        a.editing is None,
    ensures
        key.code == KeyCode::Esc ==> a.keyed(key, id, t) == (AppView {
            mode: Mode::Normal,
            ..a.body_committed()
        }),
        key.code == KeyCode::PageDown ==> a.keyed(key, id, t) == (AppView {
            textarea: a.textarea.down_by(15),
            ..a
        }),
        key.code == KeyCode::PageUp ==> a.keyed(key, id, t) == (AppView {
            textarea: a.textarea.up_by(15),
            ..a
        }),
        key.code != KeyCode::Esc && key.code != KeyCode::PageDown && key.code != KeyCode::PageUp
            && key.code != KeyCode::Char('v') ==> a.keyed(key, id, t) == (AppView {
            textarea: t,
            ..a
        }),
        key == ch('v') ==> a.keyed(key, id, t) == (AppView { textarea: t, ..a }),
{
    reveal(AppView::keyed);
    reveal(AppView::insert_keyed);
}

/// The command line takes characters at its end, gives them up to `Backspace`, runs
/// on `Enter` and is dropped on `Esc`.
pub proof fn lemma_command_keys(a: AppView, id: u128, t: BoxView, c: char)
    requires
        a.popup == Popup::Closed,
        a.mode == Mode::Command,
    ensures
        a.keyed(ch(c), id, t) == (AppView { command: a.command.push(c), ..a }),
        a.command.len() > 0 ==> a.keyed(bare(KeyCode::Backspace), id, t) == (AppView {
            command: a.command.drop_last(),
            ..a
        }),
        a.keyed(bare(KeyCode::Enter), id, t) == a.executed(),
        a.keyed(bare(KeyCode::Esc), id, t) == (AppView {
            command: Seq::empty(),
            mode: Mode::Normal,
            ..a
        }),
{
    reveal(AppView::keyed);
    reveal(AppView::command_keyed);
}

/// A character typed into the search prompt goes into the filter at once.
pub proof fn lemma_search_keys(a: AppView, id: u128, t: BoxView, c: char)
    requires
        a.popup == Popup::Closed,
        a.mode == Mode::Search,
    ensures
        a.keyed(ch(c), id, t).filter == a.search.text.insert(a.search.at, c),
        a.keyed(ch(c), id, t).search.text == a.search.text.insert(a.search.at, c),
        a.keyed(ch(c), id, t).mode == Mode::Search,
        a.keyed(bare(KeyCode::Enter), id, t).mode == Mode::Normal,
        a.keyed(bare(KeyCode::Enter), id, t).filter == a.filter,
        a.keyed(bare(KeyCode::Esc), id, t).filter.len() == 0,
        a.keyed(bare(KeyCode::Esc), id, t).mode == Mode::Normal,
        a.sidebar_rows.len() <= usize::MAX && a.sidebar_sel + 1 < a.sidebar_rows.len() ==> a.keyed(
            bare(KeyCode::Down),
            id,
            t,
        ) == (AppView { sidebar_sel: (a.sidebar_sel + 1) as usize, ..a }),
        a.sidebar_sel > 0 ==> a.keyed(bare(KeyCode::Up), id, t) == (AppView {
            sidebar_sel: (a.sidebar_sel - 1) as usize,
            ..a
        }),
{
    reveal(AppView::keyed);
    reveal(AppView::search_keyed);
    reveal(AppView::search_applied);
    reveal(AppView::search_finished);
    reveal(AppView::rebuilt);
}

// ----- popups -----

/// In the server popup, `Enter` makes the server under the cursor the active one,
/// `a` adds one and `d` deletes one.
pub proof fn lemma_server_keys(a: AppView, id: u128, t: BoxView)
    requires
        a.popup == Popup::Env,
        a.editing is None,
        a.env_sel < a.collection.servers.len() <= usize::MAX,
    ensures
        ({
            let b = a.keyed(bare(KeyCode::Enter), id, t);
            &&& b.collection.active_server == a.env_sel
            &&& b.collection.servers == a.collection.servers
            &&& b.popup == Popup::Closed
            &&& b.dirty
        }),
        a.keyed(ch('a'), id, t).editing == Some(EditTarget::EnvNew),
        a.keyed(ch('d'), id, t).collection.servers == a.collection.servers.remove(a.env_sel as int),
        a.keyed(ch('d'), id, t).dirty,
        a.collection.servers.len() > 1 ==> a.keyed(ch('d'), id, t).collection.active_server
            < a.keyed(ch('d'), id, t).collection.servers.len(),
        a.collection.active_server + 1 < a.collection.servers.len() ==> a.keyed(
            ch('d'),
            id,
            t,
        ).collection.active_server == a.collection.active_server,
        a.keyed(bare(KeyCode::Esc), id, t) == (AppView { popup: Popup::Closed, ..a }),
        a.keyed(ch('q'), id, t) == (AppView { popup: Popup::Closed, ..a }),
        a.env_sel + 1 < a.collection.servers.len() ==> a.keyed(ch('j'), id, t) == (AppView {
            env_sel: (a.env_sel + 1) as usize,
            ..a
        }),
        a.env_sel > 0 ==> a.keyed(ch('k'), id, t) == (AppView {
            env_sel: (a.env_sel - 1) as usize,
            ..a
        }),
{
    reveal(AppView::keyed);
    reveal(AppView::popup_keyed);
    reveal(AppView::env_keyed);
    reveal(AppView::server_chosen);
    reveal(AppView::server_deleted);
    reveal(AppView::edit_started);
}

/// In the auth popup, `Esc` takes the form over, `Enter` and `i` fill a row in or
/// step a toggle, and the cursor goes round.
pub proof fn lemma_auth_keys(a: AppView, id: u128, t: BoxView)
    requires
        a.popup == Popup::Auth,
        a.editing is None,
        a.auth_field < crate::app::auth::rows_under(a.auth_form.kind).len(),
    ensures
        ({
            let field = crate::app::auth::rows_under(a.auth_form.kind)[a.auth_field as int];
            let n = crate::app::auth::rows_under(a.auth_form.kind).len();
            let toggle = field == crate::app::kinds::AuthField::Kind || field
                == crate::app::kinds::AuthField::Style;
            &&& a.keyed(bare(KeyCode::Esc), id, t).collection == a.auth_applied().collection
            &&& a.keyed(bare(KeyCode::Esc), id, t).popup == Popup::Closed
            &&& !toggle ==> a.keyed(bare(KeyCode::Enter), id, t).editing == Some(
                EditTarget::AuthField(a.auth_field),
            )
            &&& !toggle ==> a.keyed(bare(KeyCode::Enter), id, t).input.text == a.auth_form.value(field)
            &&& toggle ==> a.keyed(bare(KeyCode::Enter), id, t).auth_form == a.auth_form.advanced(
                field,
            )
            &&& a.keyed(ch('i'), id, t) == a.keyed(bare(KeyCode::Enter), id, t)
            &&& toggle ==> a.keyed(ch(' '), id, t) == a.keyed(bare(KeyCode::Enter), id, t)
            &&& a.auth_field + 1 < n ==> a.keyed(ch('j'), id, t).auth_field == a.auth_field + 1
            &&& a.auth_field + 1 == n ==> a.keyed(ch('j'), id, t).auth_field == 0
            &&& a.auth_field > 0 ==> a.keyed(ch('k'), id, t).auth_field == a.auth_field - 1
            &&& a.auth_field == 0 ==> a.keyed(ch('k'), id, t).auth_field == n - 1
        }),
{
    reveal(AppView::keyed);
    reveal(AppView::popup_keyed);
    let at = a.auth_field as int;
    match a.auth_form.kind {
        crate::model::AuthKind::Bearer => {
            assert(crate::app::auth::rows_under(a.auth_form.kind).len() == 2);
            assert((at + 1) % 2 == (if at + 1 < 2 {
                at + 1
            } else {
                0
            }));
            assert((at + 2 - 1) % 2 == (if at > 0 {
                at - 1
            } else {
                1
            }));
        },
        crate::model::AuthKind::ApiKey => {
            assert(crate::app::auth::rows_under(a.auth_form.kind).len() == 3);
            assert((at + 1) % 3 == (if at + 1 < 3 {
                at + 1
            } else {
                0
            }));
            assert((at + 3 - 1) % 3 == (if at > 0 {
                at - 1
            } else {
                2
            }));
        },
        crate::model::AuthKind::Oauth2 => {
            assert(crate::app::auth::rows_under(a.auth_form.kind).len() == 6);
            assert((at + 1) % 6 == (if at + 1 < 6 {
                at + 1
            } else {
                0
            }));
            assert((at + 6 - 1) % 6 == (if at > 0 {
                at - 1
            } else {
                5
            }));
        },
    }
    reveal(AppView::auth_keyed);
    reveal(AppView::auth_advanced);
    reveal(AppView::auth_applied);
    reveal(AppView::edit_started);
}

/// The help popup scrolls and closes.
pub proof fn lemma_help_keys(a: AppView, id: u128, t: BoxView)
    requires
        a.popup == Popup::Help,
        a.editing is None,
        a.help_scroll < usize::MAX,
    ensures
        a.keyed(bare(KeyCode::Esc), id, t) == (AppView { popup: Popup::Closed, ..a }),
        a.keyed(ch('q'), id, t) == (AppView { popup: Popup::Closed, ..a }),
        a.keyed(ch('?'), id, t) == (AppView { popup: Popup::Closed, ..a }),
        a.keyed(ch('j'), id, t) == (AppView { help_scroll: (a.help_scroll + 1) as usize, ..a }),
        a.help_scroll > 0 ==> a.keyed(ch('k'), id, t) == (AppView {
            help_scroll: (a.help_scroll - 1) as usize,
            ..a
        }),
        a.keyed(ch('g'), id, t) == (AppView { help_scroll: 0, ..a }),
{
    reveal(AppView::keyed);
    reveal(AppView::popup_keyed);
    reveal(AppView::help_keyed);
}

/// Moving to another line keeps the column, or goes to the end of a shorter line.
pub proof fn lemma_columns(b: BoxView, row: int)
    requires
        0 <= row < b.lines.len(),
    ensures
        b.at_row(row).row == row,
        b.at_row(row).lines == b.lines,
        b.col <= b.lines[row].len() ==> b.at_row(row).col == b.col,
        b.col > b.lines[row].len() ==> b.at_row(row).col == b.lines[row].len(),
{
}

} // verus!
