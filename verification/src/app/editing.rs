//! The single-line editor: what it is opened on, and what committing it does.

use vstd::prelude::*;

use crate::app::kinds::{CellCol, EditTarget, Mode, TableId};
use crate::app::line_edit::LineState;
use crate::app::state::{App, AppView};
use crate::app::tables::{cell, counted, one_less};
use crate::http::url_input::{parts_of, split_url_input, PartsView, UrlParts};
use crate::ids::{is_v4, new_v4};
use crate::model::{
    blank_request, synced_params, Collection, CollectionView, Method, RequestView, SavedRequest,
};
use crate::text::{
    alnum, chars, debug_text, dec, decimal, find, find_str, group_views, is_alnum, is_white, join,
    join_strings, opt, part, quoted, rest, same, trim, trim_end_char, trim_start, trimmed,
    trimmed_start, views, white, without_trailing,
};

verus! {

broadcast use group_views;

// ----- opening -----

impl AppView {
    /// What the editor holds when it is opened on `target`.
    pub open spec fn initial_text(self, target: EditTarget) -> Seq<char> {
        match target {
            EditTarget::Cell { table, row, col } => match self.row(table, row as int) {
                Some(r) => cell(r, col),
                None => Seq::empty(),
            },
            EditTarget::Rename => match self.request() {
                Some(r) => r.name,
                None => Seq::empty(),
            },
            EditTarget::Url => match self.request() {
                Some(r) => if r.path == "/"@ {
                    Seq::empty()
                } else {
                    r.path
                },
                None => Seq::empty(),
            },
            EditTarget::NewRequest | EditTarget::EnvNew => Seq::empty(),
            EditTarget::AuthField(i) => self.auth_form.value(self.auth_row(i as int)),
        }
    }

    #[verifier::opaque]
    pub open spec fn edit_started(self, target: EditTarget) -> AppView {
        AppView {
            input: LineState::holding(self.initial_text(target)),
            editing: Some(target),
            mode: Mode::Insert,
            ..self
        }
    }

    #[verifier::opaque]
    pub open spec fn edit_cancelled(self) -> AppView {
        AppView { editing: None, chain_to_value: false, mode: Mode::Normal, ..self }
    }

    /// The key of row `row` opened; the value follows.
    pub open spec fn new_row_opened(self, table: TableId, row: usize) -> AppView {
        AppView {
            chain_to_value: true,
            ..(AppView { dirty: true, table_row: row, ..self }).edit_started(
                EditTarget::Cell { table, row, col: CellCol::Key },
            )
        }
    }

    /// An empty row appended and its key opened; the value follows.
    #[verifier::opaque]
    pub open spec fn row_added(self, table: TableId) -> AppView {
        if table != TableId::Vars && self.selected is None {
            self
        } else {
            let a = self.with_blank_row(table);
            a.new_row_opened(table, one_less(counted(a.rows(table).len())))
        }
    }
}

impl App {
    fn opening_text(&self, target: EditTarget) -> (r: String)
        requires
            self.wf(),
        ensures
            r@ == self@.initial_text(target),
    {
        match target {
            EditTarget::Cell { table, row, col } => match self.row_value(table, row, col) {
                Some(s) => s,
                None => String::new(),
            },
            EditTarget::Rename => match self.selected_request() {
                Some(r) => r.name.clone(),
                None => String::new(),
            },
            // The path only, without the server: writing the full URL would
            // rebuild the query from the table and lose each row's switch. A
            // bare `/`, which a new request starts with, is dropped, so that
            // pasting a URL is not prefixed by it.
            EditTarget::Url => match self.selected_request() {
                Some(r) => if same(r.path.as_str(), "/") {
                    String::new()
                } else {
                    r.path.clone()
                },
                None => String::new(),
            },
            EditTarget::NewRequest | EditTarget::EnvNew => String::new(),
            EditTarget::AuthField(i) => self.auth_field_value(i),
        }
    }

    pub fn start_edit(&mut self, target: EditTarget)
        requires
            old(self).wf(),
        ensures
            final(self).wf(),
            final(self)@ == old(self)@.edit_started(target),
    {
        reveal(AppView::edit_started);
        let initial = self.opening_text(target);
        self.input.set(initial.as_str());
        self.editing = Some(target);
        self.mode = Mode::Insert;
    }

    pub fn cancel_edit(&mut self)
        requires
            old(self).wf(),
        ensures
            final(self).wf(),
            final(self)@ == old(self)@.edit_cancelled(),
    {
        reveal(AppView::edit_cancelled);
        self.editing = None;
        self.chain_to_value = false;
        self.mode = Mode::Normal;
    }

    /// Append an empty row and start editing its key (value edit chains after).
    pub fn add_row(&mut self, table: TableId)
        requires
            old(self).wf(),
        ensures
            final(self).wf(),
            final(self)@ == old(self)@.row_added(table),
    {
        reveal(AppView::row_added);
        if !self.push_blank_row(table) {
            return;
        }
        let row = self.table_len(table).saturating_sub(1);
        self.edit_new_row(table, row);
    }

    fn edit_new_row(&mut self, table: TableId, row: usize)
        requires
            old(self).wf(),
        ensures
            final(self).wf(),
            final(self)@ == old(self)@.new_row_opened(table, row),
    {
        let ghost grown = self@;
        self.dirty = true;
        self.table_row = row;
        assert(self@ == (AppView { dirty: true, table_row: row, ..grown }));
        self.start_edit(EditTarget::Cell { table, row, col: CellCol::Key });
        let ghost opened = self@;
        self.chain_to_value = true;
        assert(self@ == (AppView { chain_to_value: true, ..opened }));
    }
}

// ----- the URL bar -----

/// The length of the first word of `s`.
pub open spec fn first_blank(s: Seq<char>, from: int) -> int
    decreases s.len() - from,
{
    if from < 0 || from >= s.len() || is_white(s[from]) {
        from
    } else {
        first_blank(s, from + 1)
    }
}

/// The method that an entry such as `post /pets` starts with.
pub open spec fn entry_verb(s: Seq<char>) -> Option<Method> {
    let n = first_blank(s, 0);
    if n < s.len() {
        Method::named(s.take(n))
    } else {
        None
    }
}

/// What follows the method, or all of an entry without one.
pub open spec fn entry_url(s: Seq<char>) -> Seq<char> {
    if entry_verb(s) is Some {
        trim_start(s.skip(first_blank(s, 0)))
    } else {
        s
    }
}

/// The characters of a URL scheme.
pub open spec fn scheme_char(c: char) -> bool {
    is_alnum(c) || c == '+' || c == '-' || c == '.'
}

pub open spec fn scheme_shaped(s: Seq<char>) -> bool {
    s.len() > 0 && forall|i: int| 0 <= i < s.len() ==> scheme_char(#[trigger] s[i])
}

/// The scheme that a text names where it is neither `http` nor `https`. Such a
/// text is a typo rather than a relative path. A stray `/api/https://…` names no
/// scheme.
pub open spec fn wrong_scheme(s: Seq<char>) -> Option<Seq<char>> {
    match find(s, "://"@) {
        Some(n) => {
            let scheme = s.take(n);
            if scheme_shaped(scheme) && scheme != "http"@ && scheme != "https"@ {
                Some(scheme)
            } else {
                None
            }
        },
        None => None,
    }
}

/// The first server that is `origin`, trailing slashes aside.
pub open spec fn server_place(servers: Seq<Seq<char>>, origin: Seq<char>, from: int) -> Option<int>
    decreases servers.len() - from,
{
    if from < 0 || from >= servers.len() {
        None
    } else if trim_end_char(servers[from], '/') == origin {
        Some(from)
    } else {
        server_place(servers, origin, from + 1)
    }
}

/// `origin` made the active server, and added where it is not known yet.
pub open spec fn with_server(c: CollectionView, origin: Seq<char>) -> CollectionView {
    match server_place(c.servers, origin, 0) {
        Some(i) => CollectionView { active_server: i as usize, ..c },
        None => CollectionView {
            servers: c.servers.push(origin),
            active_server: c.servers.len() as usize,
            ..c
        },
    }
}

/// What is said of a change of server, if there is one.
pub open spec fn server_note(c: CollectionView, origin: Seq<char>) -> Seq<Seq<char>> {
    match server_place(c.servers, origin, 0) {
        Some(i) => if c.active_server == i {
            Seq::empty()
        } else {
            seq!["server → "@ + origin]
        },
        None => seq!["server + "@ + origin],
    }
}

pub open spec fn url_notes(c: CollectionView, parts: PartsView) -> Seq<Seq<char>> {
    let server = match parts.origin {
        Some(o) => server_note(c, o),
        None => Seq::empty(),
    };
    match parts.query {
        Some(q) => server.push(decimal(q.len()) + " query param(s)"@),
        None => server,
    }
}

/// The request with a new path, query rows where the entry had any, the method
/// that it named, and path parameters to match the path.
pub open spec fn readdressed(r: RequestView, parts: PartsView, verb: Option<Method>) -> RequestView {
    let a = RequestView {
        path: parts.path,
        query: match parts.query {
            Some(q) => q,
            None => r.query,
        },
        method: match verb {
            Some(m) => m,
            None => r.method,
        },
        ..r
    };
    RequestView { path_params: synced_params(a), ..a }
}

pub open spec fn url_status(path: Seq<char>, notes: Seq<Seq<char>>) -> Seq<char> {
    if notes.len() == 0 {
        "Path: "@ + path
    } else {
        "Path: "@ + path + " · "@ + join(notes, " · "@)
    }
}

impl AppView {
    /// The pieces of a URL-bar entry applied to the open request and the
    /// collection's servers.
    #[verifier::opaque]
    pub open spec fn parts_applied(self, parts: PartsView, verb: Option<Method>) -> AppView {
        match self.selected {
            None => self,
            Some(i) => {
                let c = match parts.origin {
                    Some(o) => with_server(self.collection, o),
                    None => self.collection,
                };
                AppView {
                    collection: CollectionView {
                        requests: c.requests.update(
                            i as int,
                            readdressed(c.requests[i as int], parts, verb),
                        ),
                        ..c
                    },
                    dirty: true,
                    table_row: 0,
                    status: url_status(parts.path, url_notes(self.collection, parts)),
                    ..self
                }
            },
        }
    }

    #[verifier::opaque]
    pub open spec fn url_applied(self, input: Seq<char>) -> AppView {
        let entry = trim(input);
        let url = entry_url(entry);
        if self.selected is None {
            self.told("No request selected"@)
        } else {
            match wrong_scheme(url) {
                Some(s) => self.told(
                    "Only http(s) URLs are supported (got "@ + debug_text(s) + "://)"@,
                ),
                None => self.parts_applied(parts_of(url), entry_verb(entry)),
            }
        }
    }
}

pub(crate) fn word_end(s: &str) -> (r: usize)
    ensures
        r == first_blank(s@, 0),
        r <= s@.len(),
{
    let c = chars(s);
    let mut i: usize = 0;
    while i < c.len() && !white(c[i])
        invariant
            i <= c@.len(),
            c@ == s@,
            first_blank(s@, 0) == first_blank(s@, i as int),
        decreases c@.len() - i,
    {
        i += 1;
    }
    i
}

/// Takes the method off an entry such as `post /pets`.
pub fn split_verb(entry: &str) -> (r: (Option<Method>, &str))
    ensures
        r.0 == entry_verb(entry@),
        r.1@ == entry_url(entry@),
{
    let n = word_end(entry);
    if n < entry.unicode_len() {
        let word = part(entry, 0, n);
        assert(word@ =~= entry@.take(n as int));
        match Method::parse(word) {
            Some(m) => {
                return (Some(m), trimmed_start(rest(entry, n)));
            },
            None => {},
        }
    }
    (None, entry)
}

fn shaped(c: &Vec<char>) -> (r: bool)
    ensures
        r == scheme_shaped(c@),
{
    let mut i: usize = 0;
    while i < c.len()
        invariant
            i <= c@.len(),
            forall|j: int| 0 <= j < i ==> scheme_char(#[trigger] c@[j]),
        decreases c@.len() - i,
    {
        let x = c[i];
        if !(alnum(x) || x == '+' || x == '-' || x == '.') {
            assert(!scheme_char(c@[i as int]));
            return false;
        }
        i += 1;
    }
    c.len() > 0
}

fn refused_scheme(url: &str) -> (r: Option<String>)
    ensures
        opt(r) == wrong_scheme(url@),
{
    match find_str(url, "://") {
        Some(n) => {
            let scheme = part(url, 0, n);
            assert(scheme@ =~= url@.take(n as int));
            if shaped(&chars(scheme)) && !same(scheme, "http") && !same(scheme, "https") {
                Some(scheme.to_owned())
            } else {
                None
            }
        },
        None => None,
    }
}

fn find_server(servers: &Vec<String>, origin: &str) -> (r: Option<usize>)
    ensures
        match r {
            Some(i) => server_place(views(servers@), origin@, 0) == Some(i as int),
            None => server_place(views(servers@), origin@, 0) is None,
        },
{
    let ghost all = views(servers@);
    let mut i: usize = 0;
    while i < servers.len()
        invariant
            i <= servers@.len(),
            all == views(servers@),
            server_place(all, origin@, 0) == server_place(all, origin@, i as int),
        decreases servers@.len() - i,
    {
        assert(all[i as int] == servers@[i as int]@);
        if same(without_trailing(servers[i].as_str(), '/'), origin) {
            return Some(i);
        }
        i += 1;
    }
    None
}

impl Collection {
    /// Makes `origin` the active server, adding it where it is not known yet;
    /// returns what there is to say of it.
    fn use_server(&mut self, origin: &str) -> (note: Option<String>)
        ensures
            final(self)@ == with_server(old(self)@, origin@),
            (match opt(note) {
                Some(n) => seq![n],
                None => Seq::empty(),
            }) == server_note(old(self)@, origin@),
    {
        match find_server(&self.servers, origin) {
            Some(i) => if self.active_server != i {
                self.active_server = i;
                let mut n = "server → ".to_owned();
                n.append(origin);
                Some(n)
            } else {
                None
            },
            None => {
                self.servers.push(origin.to_owned());
                self.active_server = self.servers.len() - 1;
                let mut n = "server + ".to_owned();
                n.append(origin);
                Some(n)
            },
        }
    }
}

impl SavedRequest {
    fn readdress(&mut self, parts: UrlParts, verb: Option<Method>)
        ensures
            final(self)@ == readdressed(old(self)@, parts@, verb),
    {
        self.path = parts.path;
        match parts.query {
            Some(q) => {
                self.query = q;
            },
            None => {},
        }
        match verb {
            Some(m) => {
                self.method = m;
            },
            None => {},
        }
        self.sync_path_params();
    }
}

fn status_for(path: &str, notes: &Vec<String>) -> (r: String)
    ensures
        r@ == url_status(path@, views(notes@)),
{
    let mut s = "Path: ".to_owned();
    s.append(path);
    if notes.len() > 0 {
        s.append(" · ");
        s.append(join_strings(notes, " · ").as_str());
    }
    s
}

impl Collection {
    /// The servers' part of a URL-bar entry, and what there is to say of it.
    fn take_origin(&mut self, parts: &UrlParts) -> (notes: Vec<String>)
        ensures
            final(self)@ == (match parts@.origin {
                Some(o) => with_server(old(self)@, o),
                None => old(self)@,
            }),
            views(notes@) == url_notes(old(self)@, parts@),
    {
        let mut notes: Vec<String> = Vec::new();
        match &parts.origin {
            Some(o) => {
                match self.use_server(o.as_str()) {
                    Some(n) => {
                        notes.push(n);
                    },
                    None => {},
                }
                assert(views(notes@) =~= server_note(old(self)@, o@));
            },
            None => {},
        }
        match &parts.query {
            Some(q) => {
                let mut n = dec(q.len() as u128);
                n.append(" query param(s)");
                notes.push(n);
            },
            None => {},
        }
        notes
    }
}

impl App {
    /// Apply the pieces of a URL-bar entry to the selected request. An origin is
    /// added to the servers if new and made active either way, and query rows
    /// are replaced only where the entry had a query.
    pub fn apply_parts(&mut self, parts: UrlParts, verb: Option<Method>)
        requires
            old(self).wf(),
        ensures
            final(self).wf(),
            final(self)@ == old(self)@.parts_applied(parts@, verb),
    {
        reveal(AppView::parts_applied);
        match self.selected {
            Some(i) => {
                let ghost p = parts@;
                let ghost before = self@.collection;
                assert(before.requests[i as int] == self.collection.requests@[i as int]@);
                let notes = self.collection.take_origin(&parts);
                let status = status_for(parts.path.as_str(), &notes);
                assert(self.collection@.requests == before.requests);
                assert(views(self.collection.requests@)[i as int] == self.collection.requests@[i as int]@);
                let mut req = self.collection.requests[i].clone();
                req.readdress(parts, verb);
                assert(req@ == readdressed(before.requests[i as int], p, verb));
                self.collection.requests.set(i, req);
                self.dirty = true;
                self.table_row = 0;
                self.status = status;
            },
            None => {},
        }
    }

    /// Apply a URL-bar entry to the selected request. An absolute URL contributes
    /// its origin to the collection's servers, the rest becomes the path, and a
    /// query string (only if the input actually had one) replaces the query
    /// rows. A leading verb sets the method.
    pub fn apply_url_input(&mut self, input: &str)
        requires
            old(self).wf(),
        ensures
            final(self).wf(),
            final(self)@ == old(self)@.url_applied(input@),
    {
        reveal(AppView::url_applied);
        if self.selected.is_none() {
            self.status = "No request selected".to_owned();
            return;
        }
        let (verb, url) = split_verb(trimmed(input));
        match refused_scheme(url) {
            Some(s) => {
                let mut status = "Only http(s) URLs are supported (got ".to_owned();
                status.append(quoted(s.as_str()).as_str());
                status.append("://)");
                self.status = status;
                return;
            },
            None => {},
        }
        let parts = split_url_input(url);
        self.apply_parts(parts, verb);
    }
}

// ----- committing -----

impl AppView {
    #[verifier::opaque]
    pub open spec fn cell_committed(self, table: TableId, row: usize, col: CellCol, v: Seq<char>) -> AppView {
        let a = self.cell_written(table, row as int, col, v);
        if col == CellCol::Key && a.chain_to_value {
            (AppView { chain_to_value: false, ..a }).edit_started(
                EditTarget::Cell { table, row, col: CellCol::Value },
            )
        } else {
            a
        }
    }

    #[verifier::opaque]
    pub open spec fn renamed(self, name: Seq<char>) -> AppView {
        match self.request() {
            Some(r) => if name.len() > 0 {
                AppView { dirty: true, ..self.with_open(RequestView { name, ..r }) }
            } else {
                self
            },
            None => self,
        }
    }

    pub open spec fn with_appended(self, r: RequestView) -> AppView {
        AppView { dirty: true, ..self.with_requests(self.collection.requests.push(r)) }
    }

    /// A new request at the end, open, with its URL to be filled in next.
    #[verifier::opaque]
    pub open spec fn request_added(self, name: Seq<char>, id: u128) -> AppView {
        if name.len() == 0 {
            self
        } else {
            let n = self.collection.requests.len() as int;
            self.with_appended(blank_request(name, id)).shown(n).edit_started(EditTarget::Url)
        }
    }

    #[verifier::opaque]
    pub open spec fn server_added(self, url: Seq<char>) -> AppView {
        if url.len() == 0 {
            self
        } else {
            let at = self.collection.servers.len() as usize;
            AppView {
                collection: CollectionView {
                    servers: self.collection.servers.push(url),
                    active_server: at,
                    ..self.collection
                },
                env_sel: at,
                dirty: true,
                ..self
            }
        }
    }

    /// What was typed taken over by what was being edited. `id` identifies the
    /// request where one is made.
    #[verifier::opaque]
    pub open spec fn committed(self, id: u128) -> AppView {
        match self.editing {
            None => self,
            Some(target) => {
                let v = trim(self.input.text);
                let a = AppView { editing: None, mode: Mode::Normal, ..self };
                match target {
                    EditTarget::Cell { table, row, col } => a.cell_committed(table, row, col, v),
                    EditTarget::Rename => a.renamed(v),
                    EditTarget::NewRequest => a.request_added(v, id),
                    EditTarget::Url => a.url_applied(v),
                    EditTarget::EnvNew => a.server_added(v),
                    EditTarget::AuthField(i) => a.auth_filled(i as int, v),
                }
            },
        }
    }
}

impl App {
    fn commit_cell(&mut self, table: TableId, row: usize, col: CellCol, value: String)
        requires
            old(self).wf(),
        ensures
            final(self).wf(),
            final(self)@ == old(self)@.cell_committed(table, row, col, value@),
    {
        reveal(AppView::cell_committed);
        self.write_cell(table, row, col, value);
        if col == CellCol::Key && self.chain_to_value {
            self.chain_to_value = false;
            self.start_edit(EditTarget::Cell { table, row, col: CellCol::Value });
        }
    }

    fn rename(&mut self, name: String)
        requires
            old(self).wf(),
        ensures
            final(self).wf(),
            final(self)@ == old(self)@.renamed(name@),
    {
        reveal(AppView::renamed);
        match self.selected {
            Some(i) => {
                if !name.as_str().is_empty() {
                    assert(self@.collection.requests[i as int]
                        == self.collection.requests@[i as int]@);
                    let mut r = self.collection.requests[i].clone();
                    let ghost before = r@;
                    r.name = name;
                    assert(r@ == (RequestView { name: name@, ..before }));
                    self.put_request(i, r);
                    self.dirty = true;
                }
            },
            None => {},
        }
    }

    fn append_request(&mut self, r: SavedRequest)
        requires
            old(self).wf(),
        ensures
            final(self).lines_wf(),
            final(self)@ == old(self)@.with_appended(r@),
            final(self)@.selection_exists(),
    {
        self.collection.requests.push(r);
        self.dirty = true;
    }

    fn add_request(&mut self, name: &str, id: u128)
        requires
            old(self).wf(),
        ensures
            final(self).wf(),
            final(self)@ == old(self)@.request_added(name@, id),
    {
        reveal(AppView::request_added);
        if name.is_empty() {
            return;
        }
        let n: usize = self.collection.requests.len();
        self.append_request(SavedRequest::with_id(name, id));
        self.show_request(n);
        // `GET /` can be sent but is of no use: go straight on to the URL.
        self.start_edit(EditTarget::Url);
    }

    fn add_server(&mut self, url: String)
        requires
            old(self).wf(),
        ensures
            final(self).wf(),
            final(self)@ == old(self)@.server_added(url@),
    {
        reveal(AppView::server_added);
        if url.as_str().is_empty() {
            return;
        }
        let at: usize = self.collection.servers.len();
        self.collection.servers.push(url);
        self.collection.active_server = at;
        self.env_sel = at;
        self.dirty = true;
    }

    /// Commits the edit; `id` identifies the request where one is made.
    pub fn commit_edit_as(&mut self, id: u128)
        requires
            old(self).wf(),
        ensures
            final(self).wf(),
            final(self)@ == old(self)@.committed(id),
    {
        reveal(AppView::committed);
        let target = match self.editing {
            Some(t) => t,
            None => {
                return;
            },
        };
        let value = trimmed(self.input.buf.as_str()).to_owned();
        self.editing = None;
        self.mode = Mode::Normal;
        match target {
            EditTarget::Cell { table, row, col } => {
                self.commit_cell(table, row, col, value);
                return;
            },
            EditTarget::Rename => {
                self.rename(value);
                return;
            },
            EditTarget::NewRequest => {
                self.add_request(value.as_str(), id);
                return;
            },
            EditTarget::Url => {
                self.apply_url_input(value.as_str());
                return;
            },
            EditTarget::EnvNew => {
                self.add_server(value);
                return;
            },
            EditTarget::AuthField(i) => {
                self.set_auth_field(i, value.as_str());
                return;
            },
        }
    }

    pub fn commit_edit(&mut self)
        requires
            old(self).wf(),
        ensures
            final(self).wf(),
            exists|id: u128| is_v4(id) && final(self)@ == #[trigger] old(self)@.committed(id),
    {
        let id = new_v4();
        self.commit_edit_as(id);
        assert(self@ == old(self)@.committed(id));
    }
}

// ----- laws -----

/// Opening an editor and leaving it changes nothing but the editor itself.
pub proof fn lemma_cancel_leaves_everything(a: AppView, target: EditTarget)
    requires
        a.sound(),
        a.mode == Mode::Normal,
        a.editing is None,
        !a.chain_to_value,
    ensures
        a.edit_started(target).edit_cancelled() == (AppView {
            input: LineState::holding(a.initial_text(target)),
            ..a
        }),
{
    reveal(AppView::edit_started);
    reveal(AppView::edit_cancelled);
}

/// A known origin is switched to and never added again; an unknown one is added
/// once.
pub proof fn lemma_origin_added_once(c: CollectionView, origin: Seq<char>)
    requires
        trim_end_char(origin, '/') == origin,
        c.servers.len() < usize::MAX,
    ensures
        with_server(with_server(c, origin), origin) == with_server(c, origin),
        server_note(with_server(c, origin), origin) == Seq::<Seq<char>>::empty(),
        crate::model::active_base(with_server(c, origin)) matches Some(base)
            && trim_end_char(base, '/') == origin,
{
    lemma_server_place(c.servers, origin, 0);
    match server_place(c.servers, origin, 0) {
        Some(i) => {},
        None => {
            lemma_pushed_server(c.servers, origin, 0);
        },
    }
}

proof fn lemma_server_place(servers: Seq<Seq<char>>, origin: Seq<char>, from: int)
    requires
        0 <= from,
    ensures
        match server_place(servers, origin, from) {
            Some(i) => from <= i < servers.len() && trim_end_char(servers[i], '/') == origin,
            None => true,
        },
    decreases servers.len() - from,
{
    if from < servers.len() && trim_end_char(servers[from], '/') != origin {
        lemma_server_place(servers, origin, from + 1);
    }
}

proof fn lemma_pushed_server(servers: Seq<Seq<char>>, origin: Seq<char>, from: int)
    requires
        0 <= from <= servers.len(),
        server_place(servers, origin, from) is None,
        trim_end_char(origin, '/') == origin,
    ensures
        server_place(servers.push(origin), origin, from) == Some(servers.len() as int),
    decreases servers.len() - from,
{
    if from < servers.len() {
        lemma_pushed_server(servers, origin, from + 1);
    }
}

/// An entry without a `?` leaves the query rows as they are, and no entry
/// touches another request.
pub proof fn lemma_entry_spares_the_rest(a: AppView, parts: PartsView, verb: Option<Method>, k: int)
    requires
        a.sound(),
        a.selected is Some,
        0 <= k < a.collection.requests.len(),
    ensures
        k != a.selected->0 ==> a.parts_applied(parts, verb).collection.requests[k]
            == a.collection.requests[k],
        parts.query is None ==> a.parts_applied(parts, verb).collection.requests[k].query
            == a.collection.requests[k].query,
        verb is None ==> a.parts_applied(parts, verb).collection.requests[k].method
            == a.collection.requests[k].method,
{
    reveal(AppView::parts_applied);
}

} // verus!
