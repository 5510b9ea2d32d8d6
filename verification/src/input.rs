//! Vim-style key handling.

use vstd::prelude::*;

use crate::app::kinds::{CellCol, EditTarget, EditorTab, ExternalEdit, Focus, Mode, Popup, TableId};
use crate::app::line_edit::{LineEdit, LineState};
use crate::app::auth::rows_under;
use crate::app::state::{App, AppView, MAX_AUTH_FIELDS};
use crate::app::tables::{counted, kept_inside, one_less};
use crate::app::text_box::{box_typed, BoxView, TextBox};
use crate::ids::{is_v4, lemma_v4_exists, some_v4};
use crate::keys::{KeyCode, KeyEvent};
use crate::model::{CollectionView, RequestView};
use crate::text::{cat, group_views, part};

verus! {

broadcast use group_views;

// ----- scrolling -----

pub open spec fn char_of(code: KeyCode, c: char) -> bool {
    code == KeyCode::Char(c)
}

pub open spec fn plus(n: usize, by: usize) -> usize {
    counted((n + by) as nat)
}

pub open spec fn minus(n: usize, by: usize) -> usize {
    if n >= by {
        (n - by) as usize
    } else {
        0
    }
}

/// Where a scrolling key leads, by lines with `j` and `k`, by pages with `d` and
/// `u`, and to the ends with `g` and `G`. What lies past the end is cut off when
/// the text is drawn.
pub open spec fn scrolled(code: KeyCode, at: usize, page: usize) -> Option<usize> {
    if char_of(code, 'j') || code == KeyCode::Down {
        Some(plus(at, 1))
    } else if char_of(code, 'k') || code == KeyCode::Up {
        Some(minus(at, 1))
    } else if char_of(code, 'd') {
        Some(plus(at, page))
    } else if char_of(code, 'u') {
        Some(minus(at, page))
    } else if char_of(code, 'g') {
        Some(0)
    } else if char_of(code, 'G') {
        Some((usize::MAX / 2) as usize)
    } else {
        None
    }
}

fn scroll(code: KeyCode, at: usize, page: usize) -> (r: Option<usize>)
    ensures
        r == scrolled(code, at, page),
{
    match code {
        KeyCode::Char('j') | KeyCode::Down => Some(at.saturating_add(1)),
        KeyCode::Char('k') | KeyCode::Up => Some(at.saturating_sub(1)),
        KeyCode::Char('d') => Some(at.saturating_add(page)),
        KeyCode::Char('u') => Some(at.saturating_sub(page)),
        KeyCode::Char('g') => Some(0),
        KeyCode::Char('G') => Some(usize::MAX / 2),
        _ => None,
    }
}

/// The cursor of a list one line down, or where it is on the last line.
pub open spec fn next_line(at: usize, len: nat) -> usize {
    if at + 1 < len {
        (at + 1) as usize
    } else {
        at
    }
}

fn step_down(at: usize, len: usize) -> (r: usize)
    ensures
        r == next_line(at, len as nat),
{
    if at < len && at + 1 < len {
        at + 1
    } else {
        at
    }
}

/// Where a key leads in a list of `len` lines.
pub open spec fn list_moved(code: KeyCode, at: usize, len: usize) -> Option<usize> {
    if char_of(code, 'j') || code == KeyCode::Down {
        Some(next_line(at, len as nat))
    } else if char_of(code, 'k') || code == KeyCode::Up {
        Some(minus(at, 1))
    } else if char_of(code, 'g') {
        Some(0)
    } else if char_of(code, 'G') {
        Some(one_less(len))
    } else {
        None
    }
}

fn move_in_list(code: KeyCode, at: usize, len: usize) -> (r: Option<usize>)
    ensures
        r == list_moved(code, at, len),
{
    match code {
        KeyCode::Char('j') | KeyCode::Down => Some(step_down(at, len)),
        KeyCode::Char('k') | KeyCode::Up => Some(at.saturating_sub(1)),
        KeyCode::Char('g') => Some(0),
        KeyCode::Char('G') => Some(len.saturating_sub(1)),
        _ => None,
    }
}

/// One line up or down in a list, by the arrows and, where `letters` is set, by
/// `j` and `k`.
pub open spec fn stepped(code: KeyCode, letters: bool, at: usize, len: usize) -> Option<usize> {
    if code == KeyCode::Down || (letters && char_of(code, 'j')) {
        Some(next_line(at, len as nat))
    } else if code == KeyCode::Up || (letters && char_of(code, 'k')) {
        Some(minus(at, 1))
    } else {
        None
    }
}

fn step(code: KeyCode, letters: bool, at: usize, len: usize) -> (r: Option<usize>)
    ensures
        r == stepped(code, letters, at, len),
{
    if code == KeyCode::Down || (letters && code == KeyCode::Char('j')) {
        Some(step_down(at, len))
    } else if code == KeyCode::Up || (letters && code == KeyCode::Char('k')) {
        Some(at.saturating_sub(1))
    } else {
        None
    }
}

/// Where a key leads in the body, which is read with the same keys as other
/// texts; the cursor marks the place.
pub open spec fn body_place(t: BoxView, code: KeyCode) -> Option<BoxView> {
    if char_of(code, 'j') || code == KeyCode::Down {
        Some(t.down())
    } else if char_of(code, 'k') || code == KeyCode::Up {
        Some(t.up())
    } else if char_of(code, 'd') {
        Some(t.down_by(15))
    } else if char_of(code, 'u') {
        Some(t.up_by(15))
    } else if char_of(code, 'g') {
        Some(t.at_top())
    } else if char_of(code, 'G') {
        Some(t.at_bottom())
    } else {
        None
    }
}

/// Where a paging key leads while the body is typed into: `PageDown` and `Ctrl-V`
/// a page down, `PageUp` and `Alt-V` a page up, as far as `d` and `u` scroll.
pub open spec fn paged(t: BoxView, key: KeyEvent) -> Option<BoxView> {
    let m = key.modifiers;
    if key.code == KeyCode::PageDown || (char_of(key.code, 'v') && m.control && !m.alt) {
        Some(t.down_by(15))
    } else if key.code == KeyCode::PageUp || (char_of(key.code, 'v') && m.alt && !m.control) {
        Some(t.up_by(15))
    } else {
        None
    }
}

// ----- the line editors -----

/// What a key does to a line editor. Home and End are left out where
/// `ends` is not set.
pub open spec fn line_keyed(s: LineState, code: KeyCode, ends: bool) -> LineState {
    match code {
        KeyCode::Char(c) => s.inserted(c),
        KeyCode::Backspace => s.backspaced(),
        KeyCode::Delete => s.deleted(),
        KeyCode::Left => s.moved_left(),
        KeyCode::Right => s.moved_right(),
        KeyCode::Home => if ends {
            s.at_home()
        } else {
            s
        },
        KeyCode::End => if ends {
            s.at_end()
        } else {
            s
        },
        _ => s,
    }
}

fn type_line(line: &mut LineEdit, code: KeyCode, ends: bool)
    requires
        old(line).wf(),
    ensures
        final(line).wf(),
        final(line)@ == line_keyed(old(line)@, code, ends),
{
    match code {
        KeyCode::Char(c) => {
            line.insert(c);
        },
        KeyCode::Backspace => {
            line.backspace();
        },
        KeyCode::Delete => {
            line.delete();
        },
        KeyCode::Left => {
            line.left();
        },
        KeyCode::Right => {
            line.right();
        },
        KeyCode::Home => {
            if ends {
                line.home();
            }
        },
        KeyCode::End => {
            if ends {
                line.end();
            }
        },
        _ => {},
    }
}

impl AppView {
    /// A key while a single line is being edited.
    #[verifier::opaque]
    pub open spec fn edit_keyed(self, code: KeyCode, ends: bool, id: u128) -> AppView {
        if code == KeyCode::Enter {
            self.committed(id)
        } else if code == KeyCode::Esc {
            self.edit_cancelled()
        } else {
            AppView { input: line_keyed(self.input, code, ends), ..self }
        }
    }

    /// A key in Insert mode. Without a line to edit, the keys go to the body:
    /// paging keys move the cursor by a page, and `typed` is what comes of the
    /// others.
    #[verifier::opaque]
    pub open spec fn insert_keyed(self, key: KeyEvent, id: u128, typed: BoxView) -> AppView {
        if self.editing is Some {
            self.edit_keyed(key.code, true, id)
        } else if key.code == KeyCode::Esc {
            AppView { mode: Mode::Normal, ..self.body_committed() }
        } else {
            match paged(self.textarea, key) {
                Some(t) => AppView { textarea: t, ..self },
                None => AppView { textarea: typed, ..self },
            }
        }
    }

    pub open spec fn search_dropped(self) -> AppView {
        AppView {
            mode: Mode::Normal,
            status: "Filter cleared"@,
            ..(AppView { search: LineState::holding(Seq::empty()), ..self }).search_applied()
        }
    }

    /// A key in the `/` prompt. The filter is applied on every keystroke.
    #[verifier::opaque]
    pub open spec fn search_keyed(self, code: KeyCode) -> AppView {
        match stepped(code, false, self.sidebar_sel, self.sidebar_rows.len() as usize) {
            // Step through matches without leaving the prompt.
            Some(n) => AppView { sidebar_sel: n, ..self },
            None => match code {
                KeyCode::Enter => self.search_finished(),
                KeyCode::Esc => self.search_dropped(),
                KeyCode::Char(_)
                | KeyCode::Backspace
                | KeyCode::Delete
                | KeyCode::Left
                | KeyCode::Right
                | KeyCode::Home
                | KeyCode::End => self.search_typed(code),
                _ => self,
            },
        }
    }

    pub open spec fn search_typed(self, code: KeyCode) -> AppView {
        (AppView { search: line_keyed(self.search, code, true), ..self }).search_applied()
    }

    /// A key on the command line.
    #[verifier::opaque]
    pub open spec fn command_keyed(self, code: KeyCode) -> AppView {
        match code {
            KeyCode::Enter => self.executed(),
            KeyCode::Esc => AppView { command: Seq::empty(), mode: Mode::Normal, ..self },
            KeyCode::Char(c) => AppView { command: self.command.push(c), ..self },
            KeyCode::Backspace => AppView {
                command: if self.command.len() > 0 {
                    self.command.drop_last()
                } else {
                    self.command
                },
                ..self
            },
            _ => self,
        }
    }
}

fn without_last(s: &str) -> (r: String)
    ensures
        r@ == (if s@.len() > 0 {
            s@.drop_last()
        } else {
            s@
        }),
{
    let n = s.unicode_len();
    if n > 0 {
        let r = part(s, 0, n - 1).to_owned();
        assert(r@ =~= s@.drop_last());
        r
    } else {
        s.to_owned()
    }
}

fn handle_edit(app: &mut App, code: KeyCode, ends: bool)
    requires
        old(app).wf(),
    ensures
        final(app).wf(),
        exists|id: u128|
            is_v4(id) && final(app)@ == #[trigger] old(app)@.edit_keyed(code, ends, id),
{
    reveal(AppView::edit_keyed);
    if code == KeyCode::Enter {
        app.commit_edit();
        proof {
            let id = choose|id: u128| is_v4(id) && app@ == #[trigger] old(app)@.committed(id);
            assert(is_v4(id));
            assert(app@ == old(app)@.edit_keyed(code, ends, id));
        }
        return;
    }
    let ghost id = some_v4();
    proof {
        lemma_v4_exists();
        assert(is_v4(id));
    }
    if code == KeyCode::Esc {
        app.cancel_edit();
        assert(app@ == old(app)@.edit_keyed(code, ends, id));
        return;
    }
    type_line(&mut app.input, code, ends);
    assert(app@ == old(app)@.edit_keyed(code, ends, id));
}

/// Moves the body's cursor by a page; returns whether the key was one for that.
fn page_body(t: &mut TextBox, key: KeyEvent) -> (done: bool)
    ensures
        done == (paged(old(t)@, key) is Some),
        done ==> final(t)@ == paged(old(t)@, key)->0,
        !done ==> *final(t) == *old(t),
{
    let m = key.modifiers;
    let v = key.code == KeyCode::Char('v');
    if key.code == KeyCode::PageDown || (v && m.control && !m.alt) {
        t.move_down(15);
        true
    } else if key.code == KeyCode::PageUp || (v && m.alt && !m.control) {
        t.move_up(15);
        true
    } else {
        false
    }
}

/// Hands a key to the body.
fn type_into_body(app: &mut App, key: KeyEvent)
    requires
        old(app).wf(),
    ensures
        final(app).wf(),
        final(app)@ == (AppView {
            textarea: match paged(old(app)@.textarea, key) {
                Some(t) => t,
                None => box_typed(old(app).textarea, key),
            },
            ..old(app)@
        }),
{
    if !page_body(&mut app.textarea, key) {
        app.textarea.type_key(key);
    }
}

/// Ends typing into the body.
fn leave_body(app: &mut App)
    requires
        old(app).wf(),
    ensures
        final(app).wf(),
        final(app)@ == (AppView { mode: Mode::Normal, ..old(app)@.body_committed() }),
{
    app.commit_body();
    app.mode = Mode::Normal;
}

fn handle_insert(app: &mut App, key: KeyEvent)
    requires
        old(app).wf(),
    ensures
        final(app).wf(),
        exists|id: u128|
            is_v4(id) && final(app)@ == #[trigger] old(app)@.insert_keyed(
                key,
                id,
                box_typed(old(app).textarea, key),
            ),
{
    reveal(AppView::insert_keyed);
    let ghost typed = box_typed(app.textarea, key);
    if app.editing.is_some() {
        handle_edit(app, key.code, true);
        proof {
            let id = choose|id: u128|
                is_v4(id) && app@ == #[trigger] old(app)@.edit_keyed(key.code, true, id);
            assert(app@ == old(app)@.insert_keyed(key, id, typed));
        }
        return;
    }
    proof {
        lemma_v4_exists();
    }
    if key.code == KeyCode::Esc {
        leave_body(app);
        proof {
            let id = some_v4();
            assert(is_v4(id));
            assert(app@ == old(app)@.insert_keyed(key, id, typed));
        }
        return;
    }
    type_into_body(app, key);
    proof {
        let id = some_v4();
        assert(is_v4(id));
        assert(app@ == old(app)@.insert_keyed(key, id, typed));
    }
}

fn drop_search(app: &mut App)
    requires
        old(app).wf(),
    ensures
        final(app).wf(),
        final(app)@ == old(app)@.search_dropped(),
{
    proof {
        reveal_strlit("");
        assert(""@ =~= Seq::<char>::empty());
    }
    app.search.set("");
    assert(app@ == (AppView { search: LineState::holding(Seq::empty()), ..old(app)@ }));
    app.apply_search();
    let ghost cleared = app@;
    app.mode = Mode::Normal;
    app.status = "Filter cleared".to_owned();
    assert(app@ == (AppView { mode: Mode::Normal, status: "Filter cleared"@, ..cleared }));
}

/// Types into the `/` prompt.
fn type_search(app: &mut App, code: KeyCode)
    requires
        old(app).wf(),
    ensures
        final(app).wf(),
        final(app)@ == old(app)@.search_typed(code),
{
    type_line(&mut app.search, code, true);
    assert(app@ == (AppView {
        search: line_keyed(old(app)@.search, code, true),
        ..old(app)@
    }));
    app.apply_search();
}

/// The filter is applied on every keystroke; `Enter` keeps it, `Esc` drops it.
fn handle_search(app: &mut App, code: KeyCode)
    requires
        old(app).wf(),
    ensures
        final(app).wf(),
        final(app)@ == old(app)@.search_keyed(code),
{
    reveal(AppView::search_keyed);
    match step(code, false, app.sidebar_sel, app.sidebar_rows.len()) {
        Some(n) => {
            app.sidebar_sel = n;
            return;
        },
        None => {},
    }
    match code {
        KeyCode::Enter => {
            app.finish_search();
            return;
        },
        KeyCode::Esc => {
            drop_search(app);
            return;
        },
        KeyCode::Char(_)
        | KeyCode::Backspace
        | KeyCode::Delete
        | KeyCode::Left
        | KeyCode::Right
        | KeyCode::Home
        | KeyCode::End => {
            type_search(app, code);
            return;
        },
        _ => {
            return;
        },
    }
}

fn leave_prompt(app: &mut App)
    requires
        old(app).wf(),
    ensures
        final(app).wf(),
        final(app)@ == (AppView { command: Seq::empty(), mode: Mode::Normal, ..old(app)@ }),
{
    app.command = String::new();
    app.mode = Mode::Normal;
}

fn set_command(app: &mut App, command: String)
    requires
        old(app).wf(),
    ensures
        final(app).wf(),
        final(app)@ == (AppView { command: command@, ..old(app)@ }),
{
    app.command = command;
}

fn handle_command(app: &mut App, code: KeyCode)
    requires
        old(app).wf(),
    ensures
        final(app).wf(),
        final(app)@ == old(app)@.command_keyed(code),
{
    reveal(AppView::command_keyed);
    match code {
        KeyCode::Enter => {
            app.exec_command();
            return;
        },
        KeyCode::Esc => {
            leave_prompt(app);
            return;
        },
        KeyCode::Char(c) => {
            let mut command = app.command.clone();
            command.push(c);
            set_command(app, command);
            return;
        },
        KeyCode::Backspace => {
            let command = without_last(app.command.as_str());
            set_command(app, command);
            return;
        },
        _ => {
            return;
        },
    }
}

// ----- Normal mode: the panes -----

/// Whether a key of the sidebar means the same on every row.
pub open spec fn acts_on_sidebar(code: KeyCode) -> bool {
    code == KeyCode::Enter || code == KeyCode::Esc || char_of(code, ' ') || char_of(code, 'l')
        || char_of(code, 'h') || char_of(code, 't') || char_of(code, 'n')
}

impl AppView {
    /// A key in the sidebar.
    #[verifier::opaque]
    pub open spec fn sidebar_keyed(self, code: KeyCode, id: u128) -> AppView {
        match list_moved(code, self.sidebar_sel, self.sidebar_rows.len() as usize) {
            Some(n) => AppView { sidebar_sel: n, ..self },
            None => if acts_on_sidebar(code) {
                self.sidebar_acted(code)
            } else {
                match self.highlighted() {
                    Some(k) => self.request_keyed(code, k, id),
                    None => self,
                }
            },
        }
    }

    #[verifier::opaque]
    pub open spec fn sidebar_acted(self, code: KeyCode) -> AppView {
        if code == KeyCode::Esc {
            self.filter_cleared()
        } else if char_of(code, 't') {
            self.label_cycled()
        } else if char_of(code, 'n') {
            self.edit_started(EditTarget::NewRequest)
        } else {
            self.activated()
        }
    }

    /// A key on request `k` in the sidebar. The keyboard stays in the sidebar.
    #[verifier::opaque]
    pub open spec fn request_keyed(self, code: KeyCode, k: int, id: u128) -> AppView {
        if char_of(code, 'r') {
            (AppView { focus: Focus::Sidebar, ..self.opened(k) }).edit_started(EditTarget::Rename)
        } else if char_of(code, 'd') {
            self.without_request(k)
        } else if char_of(code, 'y') {
            AppView { focus: Focus::Sidebar, ..self.duplicated(k, id) }
        } else {
            self
        }
    }

    #[verifier::opaque]
    pub open spec fn method_cycled(self) -> AppView {
        match self.request() {
            Some(r) => AppView {
                dirty: true,
                ..self.with_open(RequestView { method: r.method.next_spec(), ..r })
            },
            None => self,
        }
    }

    /// A key on a table of the editor.
    #[verifier::opaque]
    pub open spec fn table_keyed(self, code: KeyCode, table: TableId) -> AppView {
        let len = counted(self.rows(table).len());
        match list_moved(code, self.table_row, len) {
            Some(n) => AppView { table_row: n, ..self },
            None => if char_of(code, ' ') {
                self.row_toggled(table, self.table_row as int)
            } else if char_of(code, 'a') {
                self.row_added(table)
            } else if char_of(code, 'd') {
                self.row_deleted(table, self.table_row as int)
            } else if char_of(code, 'i') && self.table_row < len {
                self.value_opened(table)
            } else {
                self
            },
        }
    }

    /// The value under the cursor opened.
    pub open spec fn value_opened(self, table: TableId) -> AppView {
        (AppView { chain_to_value: false, ..self }).edit_started(
            EditTarget::Cell { table, row: self.table_row, col: CellCol::Value },
        )
    }

    /// A key on the Body tab.
    #[verifier::opaque]
    pub open spec fn body_keyed(self, code: KeyCode) -> AppView {
        match body_place(self.textarea, code) {
            Some(t) => AppView { textarea: t, ..self },
            None => if char_of(code, 'i') {
                AppView { mode: Mode::Insert, ..self }
            } else if char_of(code, 'e') && self.selected is Some {
                AppView { pending_external: Some(ExternalEdit::Body), ..self }
            } else {
                self
            },
        }
    }

    /// A key on the Docs tab, which is read-only.
    #[verifier::opaque]
    pub open spec fn docs_keyed(self, code: KeyCode) -> AppView {
        match scrolled(code, self.docs_scroll, 15) {
            Some(n) => AppView { docs_scroll: n, ..self },
            None => self,
        }
    }

    /// A key in the editor.
    #[verifier::opaque]
    pub open spec fn editor_keyed(self, code: KeyCode) -> AppView {
        if code == KeyCode::Enter {
            self.sent()
        } else if char_of(code, 'm') {
            self.method_cycled()
        } else if char_of(code, 'r') {
            if self.selected is Some {
                self.edit_started(EditTarget::Rename)
            } else {
                self
            }
        } else if char_of(code, 'p') {
            if self.selected is Some {
                self.edit_started(EditTarget::Url)
            } else {
                self
            }
        } else {
            match self.tab.table_spec() {
                Some(t) => self.table_keyed(code, t),
                None => if self.tab == EditorTab::Body {
                    self.body_keyed(code)
                } else {
                    self.docs_keyed(code)
                },
            }
        }
    }

    /// A key in the response pane.
    #[verifier::opaque]
    pub open spec fn response_keyed(self, code: KeyCode) -> AppView {
        match scrolled(code, self.response_scroll, 15) {
            Some(n) => AppView { response_scroll: n, ..self },
            None => if char_of(code, 'e') && self.response is Some {
                AppView { pending_external: Some(ExternalEdit::Response), ..self }
            } else {
                self
            },
        }
    }
}

fn duplicate_here(app: &mut App, k: usize)
    requires
        old(app).wf(),
        k < old(app)@.collection.requests.len(),
    ensures
        final(app).wf(),
        exists|id: u128|
            is_v4(id) && final(app)@ == (AppView {
                focus: Focus::Sidebar,
                ..#[trigger] old(app)@.duplicated(k as int, id)
            }),
{
    app.duplicate_request(k);
    let ghost copied = app@;
    // Stay here so that repeated `y` works.
    app.focus = Focus::Sidebar;
    assert(app@ == (AppView { focus: Focus::Sidebar, ..copied }));
}

fn rename_here(app: &mut App, k: usize)
    requires
        old(app).wf(),
        k < old(app)@.collection.requests.len(),
    ensures
        final(app).wf(),
        final(app)@ == (AppView {
            focus: Focus::Sidebar,
            ..old(app)@.opened(k as int)
        }).edit_started(EditTarget::Rename),
{
    app.select_request(k);
    let ghost open = app@;
    app.focus = Focus::Sidebar;
    assert(app@ == (AppView { focus: Focus::Sidebar, ..open }));
    app.start_edit(EditTarget::Rename);
}

fn request_key(app: &mut App, code: KeyCode, k: usize)
    requires
        old(app).wf(),
        k < old(app)@.collection.requests.len(),
    ensures
        final(app).wf(),
        exists|id: u128|
            is_v4(id) && final(app)@ == #[trigger] old(app)@.request_keyed(code, k as int, id),
{
    reveal(AppView::request_keyed);
    if code == KeyCode::Char('y') {
        duplicate_here(app, k);
        proof {
            let id = choose|id: u128|
                is_v4(id) && app@ == (AppView {
                    focus: Focus::Sidebar,
                    ..#[trigger] old(app)@.duplicated(k as int, id)
                });
            assert(is_v4(id));
            assert(app@ == old(app)@.request_keyed(code, k as int, id));
        }
        return;
    }
    let ghost id = some_v4();
    proof {
        lemma_v4_exists();
        assert(is_v4(id));
    }
    if code == KeyCode::Char('r') {
        rename_here(app, k);
        assert(app@ == old(app)@.request_keyed(code, k as int, id));
        return;
    }
    if code == KeyCode::Char('d') {
        app.delete_request(k);
        assert(app@ == old(app)@.request_keyed(code, k as int, id));
        return;
    }
    assert(app@ == old(app)@.request_keyed(code, k as int, id));
}

fn act_on_sidebar(app: &mut App, code: KeyCode) -> (done: bool)
    requires
        old(app).wf(),
    ensures
        final(app).wf(),
        done == acts_on_sidebar(code),
        done ==> final(app)@ == old(app)@.sidebar_acted(code),
        !done ==> final(app)@ == old(app)@,
{
    reveal(AppView::sidebar_acted);
    match code {
        KeyCode::Enter | KeyCode::Char(' ') | KeyCode::Char('l') | KeyCode::Char('h') => {
            app.activate_sidebar();
            return true;
        },
        KeyCode::Esc => {
            app.clear_filter();
            return true;
        },
        KeyCode::Char('t') => {
            app.cycle_label_mode();
            return true;
        },
        KeyCode::Char('n') => {
            app.start_edit(EditTarget::NewRequest);
            return true;
        },
        _ => {
            return false;
        },
    }
}

fn normal_sidebar(app: &mut App, code: KeyCode)
    requires
        old(app).wf(),
    ensures
        final(app).wf(),
        exists|id: u128|
            is_v4(id) && final(app)@ == #[trigger] old(app)@.sidebar_keyed(code, id),
{
    reveal(AppView::sidebar_keyed);
    proof {
        lemma_v4_exists();
    }
    let ghost any = some_v4();
    assert(is_v4(any));
    match move_in_list(code, app.sidebar_sel, app.sidebar_rows.len()) {
        Some(n) => {
            app.sidebar_sel = n;
            assert(app@ == old(app)@.sidebar_keyed(code, any));
            return;
        },
        None => {},
    }
    if act_on_sidebar(app, code) {
        assert(app@ == old(app)@.sidebar_keyed(code, any));
        return;
    }
    match app.highlighted_request() {
        Some(k) => {
            request_key(app, code, k);
            proof {
                let id = choose|id: u128|
                    is_v4(id) && app@ == #[trigger] old(app)@.request_keyed(code, k as int, id);
                assert(app@ == old(app)@.sidebar_keyed(code, id));
            }
            return;
        },
        None => {
            assert(app@ == old(app)@.sidebar_keyed(code, any));
            return;
        },
    }
}

fn cycle_method(app: &mut App)
    requires
        old(app).wf(),
    ensures
        final(app).wf(),
        final(app)@ == old(app)@.method_cycled(),
{
    reveal(AppView::method_cycled);
    match app.selected {
        Some(i) => {
            assert(app@.collection.requests[i as int] == app.collection.requests@[i as int]@);
            let mut r = app.collection.requests[i].clone();
            let ghost before = r@;
            r.method = r.method.next();
            assert(r@ == (RequestView { method: before.method.next_spec(), ..before }));
            app.put_request(i, r);
            app.dirty = true;
        },
        None => {},
    }
}

fn edit_value(app: &mut App, table: TableId)
    requires
        old(app).wf(),
    ensures
        final(app).wf(),
        final(app)@ == old(app)@.value_opened(table),
{
    app.chain_to_value = false;
    assert(app@ == (AppView { chain_to_value: false, ..old(app)@ }));
    app.start_edit(EditTarget::Cell { table, row: app.table_row, col: CellCol::Value });
}

fn table_key(app: &mut App, code: KeyCode, table: TableId)
    requires
        old(app).wf(),
    ensures
        final(app).wf(),
        final(app)@ == old(app)@.table_keyed(code, table),
{
    reveal(AppView::table_keyed);
    let len = app.table_len(table);
    let row: usize = app.table_row;
    match move_in_list(code, row, len) {
        Some(n) => {
            app.table_row = n;
            return;
        },
        None => {},
    }
    match code {
        KeyCode::Char(' ') => {
            app.toggle_row(table, row);
            return;
        },
        KeyCode::Char('a') => {
            app.add_row(table);
            return;
        },
        KeyCode::Char('d') => {
            app.delete_row(table, row);
            return;
        },
        KeyCode::Char('i') => {
            if row < len {
                edit_value(app, table);
            }
            return;
        },
        _ => {
            return;
        },
    }
}

/// Moves the body's cursor; returns whether the key was one for that.
fn move_body(t: &mut TextBox, code: KeyCode) -> (done: bool)
    ensures
        done == (body_place(old(t)@, code) is Some),
        done ==> final(t)@ == body_place(old(t)@, code)->0,
        !done ==> final(t)@ == old(t)@,
{
    match code {
        KeyCode::Char('j') | KeyCode::Down => {
            t.move_down(1);
            proof {
                reveal_with_fuel(BoxView::down_by, 2);
            }
            true
        },
        KeyCode::Char('k') | KeyCode::Up => {
            t.move_up(1);
            proof {
                reveal_with_fuel(BoxView::up_by, 2);
            }
            true
        },
        KeyCode::Char('d') => {
            t.move_down(15);
            true
        },
        KeyCode::Char('u') => {
            t.move_up(15);
            true
        },
        KeyCode::Char('g') => {
            t.move_top();
            true
        },
        KeyCode::Char('G') => {
            t.move_bottom();
            true
        },
        _ => false,
    }
}

fn body_key(app: &mut App, code: KeyCode)
    requires
        old(app).wf(),
    ensures
        final(app).wf(),
        final(app)@ == old(app)@.body_keyed(code),
{
    reveal(AppView::body_keyed);
    if move_body(&mut app.textarea, code) {
        return;
    }
    if code == KeyCode::Char('i') {
        app.mode = Mode::Insert;
        return;
    }
    if code == KeyCode::Char('e') && app.selected.is_some() {
        app.pending_external = Some(ExternalEdit::Body);
    }
}

/// The tab is read-only, so `d` and `u` page here instead of deleting rows.
fn docs_key(app: &mut App, code: KeyCode)
    requires
        old(app).wf(),
    ensures
        final(app).wf(),
        final(app)@ == old(app)@.docs_keyed(code),
{
    reveal(AppView::docs_keyed);
    match scroll(code, app.docs_scroll, 15) {
        Some(n) => {
            app.docs_scroll = n;
        },
        None => {},
    }
}

fn normal_editor(app: &mut App, code: KeyCode)
    requires
        old(app).wf(),
    ensures
        final(app).wf(),
        final(app)@ == old(app)@.editor_keyed(code),
{
    reveal(AppView::editor_keyed);
    match code {
        KeyCode::Enter => {
            app.send_selected();
            return;
        },
        KeyCode::Char('m') => {
            cycle_method(app);
            return;
        },
        KeyCode::Char('r') => {
            if app.selected.is_some() {
                app.start_edit(EditTarget::Rename);
            }
            return;
        },
        // `p` for path or paste. Not `u`, which is page-up on every scrollable
        // pane.
        KeyCode::Char('p') => {
            if app.selected.is_some() {
                app.start_edit(EditTarget::Url);
            }
            return;
        },
        _ => {},
    }
    match app.tab.table() {
        Some(t) => {
            table_key(app, code, t);
            return;
        },
        None => {
            if app.tab == EditorTab::Body {
                body_key(app, code);
                return;
            }
            docs_key(app, code);
            return;
        },
    }
}

fn normal_response(app: &mut App, code: KeyCode)
    requires
        old(app).wf(),
    ensures
        final(app).wf(),
        final(app)@ == old(app)@.response_keyed(code),
{
    reveal(AppView::response_keyed);
    match scroll(code, app.response_scroll, 15) {
        Some(n) => {
            app.response_scroll = n;
            return;
        },
        None => {},
    }
    if code == KeyCode::Char('e') && app.response.is_some() {
        app.pending_external = Some(ExternalEdit::Response);
    }
}

// ----- Normal mode: everywhere -----

pub open spec fn focus_after(f: Focus) -> Focus {
    match f {
        Focus::Sidebar => Focus::Editor,
        Focus::Editor => Focus::Response,
        Focus::Response => Focus::Sidebar,
    }
}

pub open spec fn focus_before(f: Focus) -> Focus {
    match f {
        Focus::Sidebar => Focus::Response,
        Focus::Editor => Focus::Sidebar,
        Focus::Response => Focus::Editor,
    }
}

/// The pane that a key goes to.
pub open spec fn focus_keyed(f: Focus, code: KeyCode) -> Option<Focus> {
    if code == KeyCode::Tab {
        Some(focus_after(f))
    } else if code == KeyCode::BackTab {
        Some(focus_before(f))
    } else if char_of(code, '1') {
        Some(Focus::Sidebar)
    } else if char_of(code, '2') {
        Some(Focus::Editor)
    } else if char_of(code, '3') {
        Some(Focus::Response)
    } else {
        None
    }
}

/// The editor tab that a key goes to. `]` and `[` are the primary bindings; `L`
/// and `H` are for keyboards where the brackets are awkward to reach.
pub open spec fn tab_keyed(t: EditorTab, key: KeyEvent) -> Option<EditorTab> {
    let code = key.code;
    let shift = key.modifiers.shift;
    if char_of(code, ']') || char_of(code, 'L') || (code == KeyCode::Right && shift) {
        Some(t.next_spec())
    } else if char_of(code, '[') || char_of(code, 'H') || (code == KeyCode::Left && shift) {
        Some(t.prev_spec())
    } else {
        None
    }
}

fn focus_key(f: Focus, code: KeyCode) -> (r: Option<Focus>)
    ensures
        r == focus_keyed(f, code),
{
    match code {
        KeyCode::Tab => Some(
            match f {
                Focus::Sidebar => Focus::Editor,
                Focus::Editor => Focus::Response,
                Focus::Response => Focus::Sidebar,
            },
        ),
        KeyCode::BackTab => Some(
            match f {
                Focus::Sidebar => Focus::Response,
                Focus::Editor => Focus::Sidebar,
                Focus::Response => Focus::Editor,
            },
        ),
        KeyCode::Char('1') => Some(Focus::Sidebar),
        KeyCode::Char('2') => Some(Focus::Editor),
        KeyCode::Char('3') => Some(Focus::Response),
        _ => None,
    }
}

fn tab_key(t: EditorTab, key: KeyEvent) -> (r: Option<EditorTab>)
    ensures
        r == tab_keyed(t, key),
{
    let shift = key.modifiers.shift;
    match key.code {
        KeyCode::Char(']') | KeyCode::Char('L') => Some(t.next()),
        KeyCode::Char('[') | KeyCode::Char('H') => Some(t.prev()),
        KeyCode::Right => if shift {
            Some(t.next())
        } else {
            None
        },
        KeyCode::Left => if shift {
            Some(t.prev())
        } else {
            None
        },
        _ => None,
    }
}

/// Whether a key means the same in every pane.
pub open spec fn is_global(code: KeyCode) -> bool {
    char_of(code, ':') || char_of(code, '?') || char_of(code, 'q') || char_of(code, 'z') || char_of(
        code,
        '/',
    ) || char_of(code, 'E') || char_of(code, 'A')
}

impl AppView {
    #[verifier::opaque]
    pub open spec fn zoom_switched(self) -> AppView {
        AppView {
            zoom: !self.zoom,
            status: if self.zoom {
                "Panes restored"@
            } else {
                "Pane maximized — z to restore"@
            },
            ..self
        }
    }

    pub open spec fn prompt_opened(self) -> AppView {
        AppView { command: Seq::empty(), mode: Mode::Command, ..self }
    }

    pub open spec fn help_opened(self) -> AppView {
        AppView { help_scroll: 0, popup: Popup::Help, ..self }
    }

    pub open spec fn servers_opened(self) -> AppView {
        AppView { env_sel: self.collection.active_server, popup: Popup::Env, ..self }
    }

    /// A key that means the same in every pane.
    #[verifier::opaque]
    pub open spec fn global_keyed(self, code: KeyCode) -> AppView {
        if char_of(code, ':') {
            self.prompt_opened()
        } else if char_of(code, '?') {
            self.help_opened()
        } else if char_of(code, 'q') {
            self.quit_tried()
        } else if char_of(code, 'z') {
            self.zoom_switched()
        } else if char_of(code, '/') {
            self.search_started()
        } else if char_of(code, 'E') {
            self.servers_opened()
        } else {
            self.auth_opened()
        }
    }

    /// A key in Normal mode.
    #[verifier::opaque]
    pub open spec fn normal_keyed(self, key: KeyEvent, id: u128) -> AppView {
        let code = key.code;
        if is_global(code) {
            self.global_keyed(code)
        } else if focus_keyed(self.focus, code) is Some {
            AppView { focus: focus_keyed(self.focus, code)->0, ..self }
        } else if tab_keyed(self.tab, key) is Some {
            AppView { tab: tab_keyed(self.tab, key)->0, table_row: 0, ..self }
        } else {
            match self.focus {
                Focus::Sidebar => self.sidebar_keyed(code, id),
                Focus::Editor => self.editor_keyed(code),
                Focus::Response => self.response_keyed(code),
            }
        }
    }
}

fn switch_zoom(app: &mut App)
    requires
        old(app).wf(),
    ensures
        final(app).wf(),
        final(app)@ == old(app)@.zoom_switched(),
{
    reveal(AppView::zoom_switched);
    let status: &str = if app.zoom {
        "Panes restored"
    } else {
        "Pane maximized — z to restore"
    };
    app.zoom = !app.zoom;
    app.status = status.to_owned();
}

fn open_popup(app: &mut App, code: KeyCode)
    requires
        old(app).wf(),
        char_of(code, ':') || char_of(code, '?') || char_of(code, 'E') || char_of(code, 'A'),
    ensures
        final(app).wf(),
        final(app)@ == old(app)@.global_keyed(code),
{
    reveal(AppView::global_keyed);
    match code {
        KeyCode::Char(':') => {
            app.command = String::new();
            app.mode = Mode::Command;
            return;
        },
        KeyCode::Char('?') => {
            app.help_scroll = 0;
            app.popup = Popup::Help;
            return;
        },
        KeyCode::Char('E') => {
            app.env_sel = app.collection.active_server;
            app.popup = Popup::Env;
            return;
        },
        _ => {
            app.open_auth_popup();
            return;
        },
    }
}

fn global_key(app: &mut App, code: KeyCode) -> (done: bool)
    requires
        old(app).wf(),
    ensures
        final(app).wf(),
        done == is_global(code),
        done ==> final(app)@ == old(app)@.global_keyed(code),
        !done ==> final(app)@ == old(app)@,
{
    match code {
        KeyCode::Char(':') | KeyCode::Char('?') | KeyCode::Char('E') | KeyCode::Char('A') => {
            open_popup(app, code);
            return true;
        },
        KeyCode::Char('q') => {
            app.try_quit();
            reveal(AppView::global_keyed);
            return true;
        },
        KeyCode::Char('z') => {
            switch_zoom(app);
            reveal(AppView::global_keyed);
            return true;
        },
        KeyCode::Char('/') => {
            app.start_search();
            reveal(AppView::global_keyed);
            return true;
        },
        _ => {
            return false;
        },
    }
}

fn handle_normal(app: &mut App, key: KeyEvent)
    requires
        old(app).wf(),
    ensures
        final(app).wf(),
        exists|id: u128| is_v4(id) && final(app)@ == #[trigger] old(app)@.normal_keyed(key, id),
{
    reveal(AppView::normal_keyed);
    proof {
        lemma_v4_exists();
    }
    let ghost any = some_v4();
    assert(is_v4(any));
    if global_key(app, key.code) {
        assert(app@ == old(app)@.normal_keyed(key, any));
        return;
    }
    match focus_key(app.focus, key.code) {
        Some(f) => {
            app.focus = f;
            assert(app@ == old(app)@.normal_keyed(key, any));
            return;
        },
        None => {},
    }
    match tab_key(app.tab, key) {
        Some(t) => {
            app.tab = t;
            app.table_row = 0;
            assert(app@ == old(app)@.normal_keyed(key, any));
            return;
        },
        None => {},
    }
    match app.focus {
        Focus::Sidebar => {
            normal_sidebar(app, key.code);
            proof {
                let id = choose|id: u128|
                    is_v4(id) && app@ == #[trigger] old(app)@.sidebar_keyed(key.code, id);
                assert(app@ == old(app)@.normal_keyed(key, id));
            }
            return;
        },
        Focus::Editor => {
            normal_editor(app, key.code);
            assert(app@ == old(app)@.normal_keyed(key, any));
            return;
        },
        Focus::Response => {
            normal_response(app, key.code);
            assert(app@ == old(app)@.normal_keyed(key, any));
            return;
        },
    }
}

// ----- popups -----

/// Where a key leads among the `n` rows of the auth popup, which wraps around.
pub open spec fn auth_moved(code: KeyCode, at: int, n: int) -> Option<int> {
    if char_of(code, 'j') || code == KeyCode::Down || code == KeyCode::Tab {
        Some((at + 1) % n)
    } else if char_of(code, 'k') || code == KeyCode::Up || code == KeyCode::BackTab {
        Some((at + n - 1) % n)
    } else {
        None
    }
}

impl AppView {
    pub open spec fn closed(self) -> AppView {
        AppView { popup: Popup::Closed, ..self }
    }

    #[verifier::opaque]
    pub open spec fn help_keyed(self, code: KeyCode) -> AppView {
        if code == KeyCode::Esc || char_of(code, 'q') || char_of(code, '?') {
            self.closed()
        } else {
            match scrolled(code, self.help_scroll, 10) {
                Some(n) => AppView { help_scroll: n, ..self },
                None => self,
            }
        }
    }

    #[verifier::opaque]
    pub open spec fn server_chosen(self) -> AppView {
        if self.env_sel < self.collection.servers.len() {
            AppView {
                collection: CollectionView { active_server: self.env_sel, ..self.collection },
                dirty: true,
                status: "Base URL: "@ + self.collection.servers[self.env_sel as int],
                popup: Popup::Closed,
                ..self
            }
        } else {
            self.closed()
        }
    }

    #[verifier::opaque]
    pub open spec fn server_deleted(self) -> AppView {
        if self.env_sel < self.collection.servers.len() {
            let servers = self.collection.servers.remove(self.env_sel as int);
            AppView {
                collection: CollectionView {
                    servers,
                    active_server: crate::app::tables::inside(
                        self.collection.active_server,
                        servers.len() as usize,
                    ),
                    ..self.collection
                },
                env_sel: minus(self.env_sel, 1),
                dirty: true,
                ..self
            }
        } else {
            self
        }
    }

    #[verifier::opaque]
    pub open spec fn env_keyed(self, code: KeyCode) -> AppView {
        match stepped(code, true, self.env_sel, self.collection.servers.len() as usize) {
            Some(n) => AppView { env_sel: n, ..self },
            None => if code == KeyCode::Esc || char_of(code, 'q') {
                self.closed()
            } else if code == KeyCode::Enter {
                self.server_chosen()
            } else if char_of(code, 'a') {
                self.edit_started(EditTarget::EnvNew)
            } else if char_of(code, 'd') {
                self.server_deleted()
            } else {
                self
            },
        }
    }

    pub open spec fn auth_closed(self) -> AppView {
        self.auth_applied().closed().told("Auth config saved"@)
    }

    #[verifier::opaque]
    pub open spec fn auth_keyed(self, code: KeyCode) -> AppView {
        let toggle = self.auth_row(self.auth_field as int).toggle();
        match auth_moved(code, self.auth_field as int, rows_under(self.auth_form.kind).len() as int) {
            Some(n) => AppView { auth_field: n as usize, ..self },
            None => if code == KeyCode::Esc {
                self.auth_closed()
            } else if toggle && (code == KeyCode::Enter || char_of(code, 'i') || char_of(code, ' ')) {
                self.auth_advanced(self.auth_field as int)
            } else if !toggle && (code == KeyCode::Enter || char_of(code, 'i')) {
                self.edit_started(EditTarget::AuthField(self.auth_field))
            } else {
                self
            },
        }
    }

    /// A key while a popup is open.
    #[verifier::opaque]
    pub open spec fn popup_keyed(self, code: KeyCode, id: u128) -> AppView {
        if self.editing is Some {
            self.edit_keyed(code, false, id)
        } else {
            match self.popup {
                Popup::Help => self.help_keyed(code),
                Popup::Env => self.env_keyed(code),
                Popup::Auth => self.auth_keyed(code),
                Popup::Closed => self,
            }
        }
    }
}

fn help_key(app: &mut App, code: KeyCode)
    requires
        old(app).wf(),
    ensures
        final(app).wf(),
        final(app)@ == old(app)@.help_keyed(code),
{
    reveal(AppView::help_keyed);
    if code == KeyCode::Esc || code == KeyCode::Char('q') || code == KeyCode::Char('?') {
        app.popup = Popup::Closed;
        return;
    }
    match scroll(code, app.help_scroll, 10) {
        Some(n) => {
            app.help_scroll = n;
        },
        None => {},
    }
}

fn choose_server(app: &mut App)
    requires
        old(app).wf(),
    ensures
        final(app).wf(),
        final(app)@ == old(app)@.server_chosen(),
{
    reveal(AppView::server_chosen);
    let at: usize = app.env_sel;
    if at < app.collection.servers.len() {
        assert(app@.collection.servers[at as int] == app.collection.servers@[at as int]@);
        let status = cat("Base URL: ", app.collection.servers[at].as_str());
        app.collection.active_server = at;
        app.dirty = true;
        app.status = status;
    }
    app.popup = Popup::Closed;
}

fn delete_server(app: &mut App)
    requires
        old(app).wf(),
    ensures
        final(app).wf(),
        final(app)@ == old(app)@.server_deleted(),
{
    reveal(AppView::server_deleted);
    let at: usize = app.env_sel;
    if at < app.collection.servers.len() {
        app.collection.servers.remove(at);
        app.collection.active_server = kept_inside(
            app.collection.active_server,
            app.collection.servers.len(),
        );
        app.env_sel = at.saturating_sub(1);
        app.dirty = true;
    }
}

fn env_key(app: &mut App, code: KeyCode)
    requires
        old(app).wf(),
    ensures
        final(app).wf(),
        final(app)@ == old(app)@.env_keyed(code),
{
    reveal(AppView::env_keyed);
    match step(code, true, app.env_sel, app.collection.servers.len()) {
        Some(n) => {
            app.env_sel = n;
            return;
        },
        None => {},
    }
    match code {
        KeyCode::Esc | KeyCode::Char('q') => {
            app.popup = Popup::Closed;
            return;
        },
        KeyCode::Enter => {
            choose_server(app);
            return;
        },
        KeyCode::Char('a') => {
            app.start_edit(EditTarget::EnvNew);
            return;
        },
        KeyCode::Char('d') => {
            delete_server(app);
            return;
        },
        _ => {
            return;
        },
    }
}

fn move_in_auth(code: KeyCode, at: usize, n: usize) -> (r: Option<usize>)
    requires
        at < MAX_AUTH_FIELDS,
        1 <= n <= MAX_AUTH_FIELDS,
    ensures
        match r {
            Some(i) => auth_moved(code, at as int, n as int) == Some(i as int) && i < n,
            None => auth_moved(code, at as int, n as int) is None,
        },
{
    match code {
        KeyCode::Char('j') | KeyCode::Down | KeyCode::Tab => Some((at + 1) % n),
        KeyCode::Char('k') | KeyCode::Up | KeyCode::BackTab => Some((at + n - 1) % n),
        _ => None,
    }
}

fn close_auth(app: &mut App)
    requires
        old(app).wf(),
    ensures
        final(app).wf(),
        final(app)@ == old(app)@.auth_closed(),
{
    app.apply_auth_form();
    let ghost applied = app@;
    app.popup = Popup::Closed;
    app.status = "Auth config saved".to_owned();
    assert(app@ == applied.closed().told("Auth config saved"@));
}

fn auth_key(app: &mut App, code: KeyCode)
    requires
        old(app).wf(),
    ensures
        final(app).wf(),
        final(app)@ == old(app)@.auth_keyed(code),
{
    reveal(AppView::auth_keyed);
    let n: usize = app.auth_fields().len();
    let at: usize = app.auth_field;
    match move_in_auth(code, at, n) {
        Some(i) => {
            app.auth_field = i;
            return;
        },
        None => {},
    }
    let toggle = app.auth_field_at(at).is_toggle();
    match code {
        KeyCode::Esc => {
            close_auth(app);
            return;
        },
        KeyCode::Enter | KeyCode::Char('i') => {
            if toggle {
                app.toggle_auth_field(at);
                return;
            }
            app.start_edit(EditTarget::AuthField(at));
            return;
        },
        KeyCode::Char(' ') => {
            if toggle {
                app.toggle_auth_field(at);
            }
            return;
        },
        _ => {
            return;
        },
    }
}

fn handle_popup(app: &mut App, code: KeyCode)
    requires
        old(app).wf(),
    ensures
        final(app).wf(),
        exists|id: u128| is_v4(id) && final(app)@ == #[trigger] old(app)@.popup_keyed(code, id),
{
    reveal(AppView::popup_keyed);
    // While a popup field is being edited, input goes to the line editor.
    if app.editing.is_some() {
        handle_edit(app, code, false);
        proof {
            let id = choose|id: u128|
                is_v4(id) && app@ == #[trigger] old(app)@.edit_keyed(code, false, id);
            assert(app@ == old(app)@.popup_keyed(code, id));
        }
        return;
    }
    proof {
        lemma_v4_exists();
    }
    let ghost any = some_v4();
    assert(is_v4(any));
    match app.popup {
        Popup::Help => {
            help_key(app, code);
            assert(app@ == old(app)@.popup_keyed(code, any));
            return;
        },
        Popup::Env => {
            env_key(app, code);
            assert(app@ == old(app)@.popup_keyed(code, any));
            return;
        },
        Popup::Auth => {
            auth_key(app, code);
            assert(app@ == old(app)@.popup_keyed(code, any));
            return;
        },
        Popup::Closed => {
            assert(app@ == old(app)@.popup_keyed(code, any));
            return;
        },
    }
}

// ----- everything -----

impl AppView {
    /// What a key press does: `id` identifies a request that it makes, `typed` is
    /// what the text area makes of the key.
    #[verifier::opaque]
    pub open spec fn keyed(self, key: KeyEvent, id: u128, typed: BoxView) -> AppView {
        if self.popup != Popup::Closed {
            self.popup_keyed(key.code, id)
        } else {
            match self.mode {
                Mode::Command => self.command_keyed(key.code),
                Mode::Insert => self.insert_keyed(key, id, typed),
                Mode::Search => self.search_keyed(key.code),
                Mode::Normal => self.normal_keyed(key, id),
            }
        }
    }
}

/// What a key does is fixed but for the identifier of a request that it makes.
/// While the body is being typed into, the text area makes of a key that does
/// not page what it will.
pub fn handle_key(app: &mut App, key: KeyEvent)
    requires
        old(app).wf(),
    ensures
        final(app).wf(),
        exists|id: u128|
            is_v4(id) && final(app)@ == #[trigger] old(app)@.keyed(
                key,
                id,
                box_typed(old(app).textarea, key),
            ),
{
    reveal(AppView::keyed);
    let ghost typed = box_typed(app.textarea, key);
    if app.popup != Popup::Closed {
        handle_popup(app, key.code);
        proof {
            let id = choose|id: u128|
                is_v4(id) && app@ == #[trigger] old(app)@.popup_keyed(key.code, id);
            assert(app@ == old(app)@.keyed(key, id, typed));
        }
        return;
    }
    proof {
        lemma_v4_exists();
    }
    let ghost any = some_v4();
    assert(is_v4(any));
    match app.mode {
        Mode::Command => {
            handle_command(app, key.code);
            assert(app@ == old(app)@.keyed(key, any, typed));
            return;
        },
        Mode::Insert => {
            handle_insert(app, key);
            proof {
                let id = choose|id: u128|
                    is_v4(id) && app@ == #[trigger] old(app)@.insert_keyed(key, id, typed);
                assert(app@ == old(app)@.keyed(key, id, typed));
            }
            return;
        },
        Mode::Search => {
            handle_search(app, key.code);
            assert(app@ == old(app)@.keyed(key, any, typed));
            return;
        },
        Mode::Normal => {
            handle_normal(app, key);
            proof {
                let id = choose|id: u128|
                    is_v4(id) && app@ == #[trigger] old(app)@.normal_keyed(key, id);
                assert(app@ == old(app)@.keyed(key, id, typed));
            }
            return;
        },
    }
}

// ----- laws -----

/// `Tab` and `BackTab` undo each other.
pub proof fn lemma_focus_cycle(f: Focus)
    ensures
        focus_before(focus_after(f)) == f,
        focus_after(focus_before(f)) == f,
{
}

/// Looking around changes nothing that is saved: moving between panes, tabs and
/// rows, scrolling, zooming and searching never count as unsaved changes.
pub proof fn lemma_browsing_saves_nothing(a: AppView, key: KeyEvent, id: u128)
    requires
        focus_keyed(a.focus, key.code) is Some || tab_keyed(a.tab, key) is Some || char_of(
            key.code,
            'z',
        ) || char_of(key.code, '/') || (a.focus == Focus::Sidebar && list_moved(
            key.code,
            a.sidebar_sel,
            a.sidebar_rows.len() as usize,
        ) is Some),
    ensures
        a.normal_keyed(key, id).collection == a.collection,
        a.normal_keyed(key, id).dirty == a.dirty,
{
    reveal(AppView::normal_keyed);
    reveal(AppView::global_keyed);
    reveal(AppView::zoom_switched);
    reveal(AppView::search_started);
    reveal(AppView::sidebar_keyed);
}

/// Zooming leaves the keyboard where it is, and twice is once too many.
pub proof fn lemma_zoom_is_a_view(a: AppView)
    ensures
        a.zoom_switched().focus == a.focus,
        a.zoom_switched().zoom_switched().zoom == a.zoom,
{
    reveal(AppView::zoom_switched);
}

/// The Docs tab is read-only.
pub proof fn lemma_docs_are_read_only(a: AppView, code: KeyCode)
    ensures
        a.docs_keyed(code) == (AppView { docs_scroll: a.docs_keyed(code).docs_scroll, ..a }),
{
    reveal(AppView::docs_keyed);
}

/// `Esc` in the search prompt drops the filter, whatever was typed: the sidebar
/// shows what it shows without one.
pub proof fn lemma_escape_drops_the_filter(a: AppView)
    ensures
        a.search_keyed(KeyCode::Esc).filter == Seq::<char>::empty(),
        a.search_keyed(KeyCode::Esc).mode == Mode::Normal,
        a.search_keyed(KeyCode::Esc).sidebar_rows == crate::app::sidebar::listing(
            a.collection.requests,
            Seq::empty(),
            a.collapsed,
        ).rows,
{
    reveal(AppView::search_keyed);
    reveal(AppView::search_applied);
    reveal(AppView::rebuilt);
}

/// `Enter` in the search prompt keeps the filter.
pub proof fn lemma_enter_keeps_the_filter(a: AppView)
    ensures
        a.search_keyed(KeyCode::Enter).filter == a.filter,
        a.search_keyed(KeyCode::Enter).sidebar_rows == a.sidebar_rows,
{
    reveal(AppView::search_keyed);
    reveal(AppView::search_finished);
}

/// Typing a character and taking it back leaves the search as it was.
pub proof fn lemma_search_backspace(a: AppView, ch: char)
    requires
        a.search.valid(),
        a.filter == a.search.text,
        a.sidebar_rows == crate::app::sidebar::listing(
            a.collection.requests,
            a.filter,
            a.collapsed,
        ).rows,
    ensures
        ({
            let b = a.search_keyed(KeyCode::Char(ch)).search_keyed(KeyCode::Backspace);
            b.filter == a.filter && b.search == a.search && b.sidebar_rows == a.sidebar_rows
                && b.collection == a.collection
        }),
{
    reveal(AppView::search_keyed);
    reveal(AppView::search_applied);
    reveal(AppView::rebuilt);
    crate::app::line_edit::lemma_backspace_undoes_insert(a.search, ch);
}

} // verus!
