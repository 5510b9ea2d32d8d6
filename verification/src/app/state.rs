//! The whole application state, its view, and what holds of it at all times.

use vstd::hash_set::StringHashSet;
use vstd::prelude::*;

use crate::app::kinds::{
    EditTarget, EditorTab, ExternalEdit, Focus, Mode, Popup, SidebarRow, SidebarRowView,
};
use crate::app::line_edit::{LineEdit, LineState};
use crate::app::text_box::{BoxView, TextBox};
use crate::http::client::{HttpResponse, ResponseView};
use crate::http::oauth::{OAuthToken, TokenView};
use crate::model::{
    blank_auth, AuthKind, AuthView, Collection, CollectionView, KeyValueRow, OAuthConfig, RequestView,
    RowView, SavedRequest,
};
use crate::store::{AppConfig, ConfigView};
use crate::text::{group_views, join, join_strings, lines, opt, split_lines, trim, trim_end_char,
    trimmed, views, without_trailing};

verus! {

broadcast use group_views;

// ----- names of groups -----

/// A set of group names.
pub struct Tags {
    set: StringHashSet,
}

impl View for Tags {
    type V = Set<Seq<char>>;

    closed spec fn view(&self) -> Set<Seq<char>> {
        self.set@
    }
}

impl Tags {
    pub fn new() -> (r: Self)
        ensures
            r@ == Set::<Seq<char>>::empty(),
    {
        Tags { set: StringHashSet::new() }
    }

    pub fn contains(&self, tag: &str) -> (r: bool)
        ensures
            r == self@.contains(tag@),
    {
        self.set.contains(tag)
    }

    pub fn insert(&mut self, tag: &str)
        ensures
            final(self)@ == old(self)@.insert(tag@),
    {
        self.set.insert(tag.to_owned());
    }

    /// Takes `tag` out; returns whether it was there.
    pub fn remove(&mut self, tag: &str) -> (there: bool)
        ensures
            final(self)@ == old(self)@.remove(tag@),
            there == old(self)@.contains(tag@),
    {
        self.set.remove(tag)
    }
}

/// `tag` put in, or taken out where it was there.
pub open spec fn flipped(tags: Set<Seq<char>>, tag: Seq<char>) -> Set<Seq<char>> {
    if tags.contains(tag) {
        tags.remove(tag)
    } else {
        tags.insert(tag)
    }
}

impl Tags {
    pub fn flip(&mut self, tag: &str)
        ensures
            final(self)@ == flipped(old(self)@, tag@),
    {
        if !self.remove(tag) {
            self.insert(tag);
            assert(self@ =~= old(self)@.insert(tag@));
        }
    }
}

// ----- work for the outside world -----

/// Everything a send needs, taken at the moment of sending.
#[derive(Debug)]
pub struct SendJob {
    pub base: String,
    pub request: SavedRequest,
    pub variables: Vec<KeyValueRow>,
    pub auth: Option<OAuthConfig>,
    pub token: Option<OAuthToken>,
}

#[verifier::ext_equal]
pub struct JobView {
    pub base: Seq<char>,
    pub request: RequestView,
    pub variables: Seq<RowView>,
    pub auth: Option<AuthView>,
    pub token: Option<TokenView>,
}

impl View for SendJob {
    type V = JobView;

    open spec fn view(&self) -> JobView {
        JobView {
            base: self.base@,
            request: self.request@,
            variables: views(self.variables@),
            auth: opt(self.auth),
            token: opt(self.token),
        }
    }
}

/// What the state asks the outside world to do.
#[derive(Debug)]
pub enum Effect {
    Send(SendJob),
    /// Write the collection to disk, and quit if that worked and `quit` is set.
    Save { quit: bool },
    /// Create an empty collection under this name and switch to it.
    Create(String),
    /// Switch to the saved collection that this name refers to.
    Open(String),
}

#[verifier::ext_equal]
pub enum EffectView {
    Send(JobView),
    Save { quit: bool },
    Create(Seq<char>),
    Open(Seq<char>),
}

impl View for Effect {
    type V = EffectView;

    open spec fn view(&self) -> EffectView {
        match self {
            Effect::Send(j) => EffectView::Send(j@),
            Effect::Save { quit } => EffectView::Save { quit: *quit },
            Effect::Create(n) => EffectView::Create(n@),
            Effect::Open(n) => EffectView::Open(n@),
        }
    }
}

// ----- the state -----

pub struct App {
    pub collection: Collection,
    pub path: String,
    pub config: AppConfig,
    pub dirty: bool,
    pub should_quit: bool,
    pub mode: Mode,
    pub focus: Focus,
    pub tab: EditorTab,
    pub popup: Popup,
    /// `z`: the focused pane fills the frame and the others are not drawn.
    /// Purely a view flag; focus still moves normally underneath.
    pub zoom: bool,
    pub collapsed: Tags,
    pub sidebar_rows: Vec<SidebarRow>,
    pub sidebar_sel: usize,
    /// Active sidebar filter; empty means "show everything".
    pub filter: String,
    /// The `/` prompt while [`Mode::Search`] is active.
    pub search: LineEdit,
    /// Index into `collection.requests` currently loaded in the editor.
    pub selected: Option<usize>,
    pub table_row: usize,
    pub editing: Option<EditTarget>,
    pub input: LineEdit,
    /// After committing a new row's key, continue to its value cell.
    pub chain_to_value: bool,
    pub textarea: TextBox,
    /// Scroll offset of the Docs tab, reset when another request is opened.
    pub docs_scroll: usize,
    pub response: Option<HttpResponse>,
    pub response_scroll: usize,
    pub sending: bool,
    pub token: Option<OAuthToken>,
    pub status: String,
    pub command: String,
    pub pending_external: Option<ExternalEdit>,
    /// Scroll offset of the help popup, which is taller than short terminals.
    pub help_scroll: usize,
    pub env_sel: usize,
    pub auth_form: OAuthConfig,
    pub auth_field: usize,
    /// Work that is waiting to be done outside.
    pub effect: Option<Effect>,
}

pub struct AppView {
    pub collection: CollectionView,
    pub path: Seq<char>,
    pub config: ConfigView,
    pub dirty: bool,
    pub should_quit: bool,
    pub mode: Mode,
    pub focus: Focus,
    pub tab: EditorTab,
    pub popup: Popup,
    pub zoom: bool,
    pub collapsed: Set<Seq<char>>,
    pub sidebar_rows: Seq<SidebarRowView>,
    pub sidebar_sel: usize,
    pub filter: Seq<char>,
    pub search: LineState,
    pub selected: Option<usize>,
    pub table_row: usize,
    pub editing: Option<EditTarget>,
    pub input: LineState,
    pub chain_to_value: bool,
    pub textarea: BoxView,
    pub docs_scroll: usize,
    pub response: Option<ResponseView>,
    pub response_scroll: usize,
    pub sending: bool,
    pub token: Option<TokenView>,
    pub status: Seq<char>,
    pub command: Seq<char>,
    pub pending_external: Option<ExternalEdit>,
    pub help_scroll: usize,
    pub env_sel: usize,
    pub auth_form: AuthView,
    pub auth_field: usize,
    pub effect: Option<EffectView>,
}

impl View for App {
    type V = AppView;

    open spec fn view(&self) -> AppView {
        AppView {
            collection: self.collection@,
            path: self.path@,
            config: self.config@,
            dirty: self.dirty,
            should_quit: self.should_quit,
            mode: self.mode,
            focus: self.focus,
            tab: self.tab,
            popup: self.popup,
            zoom: self.zoom,
            collapsed: self.collapsed@,
            sidebar_rows: views(self.sidebar_rows@),
            sidebar_sel: self.sidebar_sel,
            filter: self.filter@,
            search: self.search@,
            selected: self.selected,
            table_row: self.table_row,
            editing: self.editing,
            input: self.input@,
            chain_to_value: self.chain_to_value,
            textarea: self.textarea@,
            docs_scroll: self.docs_scroll,
            response: opt(self.response),
            response_scroll: self.response_scroll,
            sending: self.sending,
            token: opt(self.token),
            status: self.status@,
            command: self.command@,
            pending_external: self.pending_external,
            help_scroll: self.help_scroll,
            env_sel: self.env_sel,
            auth_form: self.auth_form@,
            auth_field: self.auth_field,
            effect: opt(self.effect),
        }
    }
}

/// Most rows the auth popup ever shows.
pub const MAX_AUTH_FIELDS: usize = 6;

pub open spec fn rows_in_range(rows: Seq<SidebarRowView>, n: nat) -> bool {
    forall|i: int|
        0 <= i < rows.len() ==> match #[trigger] rows[i] {
            SidebarRowView::Request(k) => 0 <= k < n,
            SidebarRowView::Group(_) => true,
        }
}

impl AppView {
    /// What holds of every state: the open request and every request in the
    /// sidebar exist, and the auth popup's cursor is on one of its rows.
    pub open spec fn sound(self) -> bool {
        &&& self.selection_exists()
        &&& rows_in_range(self.sidebar_rows, self.collection.requests.len())
        &&& self.auth_field < MAX_AUTH_FIELDS
    }

    pub open spec fn selection_exists(self) -> bool {
        match self.selected {
            Some(i) => i < self.collection.requests.len(),
            None => true,
        }
    }

    pub open spec fn told(self, status: Seq<char>) -> AppView {
        AppView { status, ..self }
    }

    /// The open request.
    pub open spec fn request(self) -> Option<RequestView> {
        match self.selected {
            Some(i) => Some(self.collection.requests[i as int]),
            None => None,
        }
    }

    pub open spec fn with_requests(self, requests: Seq<RequestView>) -> AppView {
        AppView { collection: CollectionView { requests, ..self.collection }, ..self }
    }

    pub open spec fn with_request(self, i: int, r: RequestView) -> AppView {
        self.with_requests(self.collection.requests.update(i, r))
    }

    // ----- the body editor -----

    /// The text area on a new text.
    pub open spec fn with_text(self, text: Seq<char>) -> AppView {
        AppView { textarea: BoxView::holding(text_rows(text)), ..self }
    }

    /// The text area's contents written back into the open request.
    pub open spec fn body_committed(self) -> AppView {
        match self.selected {
            None => self,
            Some(i) => {
                let r = self.collection.requests[i as int];
                let body = body_from(self.textarea.lines);
                if r.body == body {
                    self
                } else {
                    AppView {
                        dirty: true,
                        ..self.with_request(i as int, RequestView { body, ..r })
                    }
                }
            },
        }
    }

    /// Request `i` opened in the editor.
    #[verifier::opaque]
    pub open spec fn opened(self, i: int) -> AppView {
        let a = self.body_committed();
        AppView {
            selected: Some(i as usize),
            table_row: 0,
            docs_scroll: 0,
            focus: Focus::Editor,
            ..a.with_text(
                match a.collection.requests[i].body {
                    Some(b) => b,
                    None => Seq::empty(),
                },
            )
        }
    }
}

/// The rows of a text area that holds `text`.
pub open spec fn text_rows(text: Seq<char>) -> Seq<Seq<char>> {
    if text.len() == 0 {
        seq![Seq::empty()]
    } else {
        lines(text)
    }
}

/// The body that a text area's lines stand for: trailing newlines go, and a
/// blank text is no body.
pub open spec fn body_from(rows: Seq<Seq<char>>) -> Option<Seq<char>> {
    let text = trim_end_char(join(rows, "\n"@), '\n');
    if trim(text).len() == 0 {
        None
    } else {
        Some(text)
    }
}

fn same_text(a: &Option<String>, b: &Option<String>) -> (r: bool)
    ensures
        r == (opt(*a) == opt(*b)),
{
    match (a, b) {
        (Some(x), Some(y)) => *x == *y,
        (None, None) => true,
        _ => false,
    }
}

impl App {
    /// The two line editors are in order.
    pub open spec fn lines_wf(&self) -> bool {
        self.input.wf() && self.search.wf()
    }

    pub open spec fn wf(&self) -> bool {
        self.lines_wf() && self@.sound()
    }

    /// The state on a collection before anything in it is looked at.
    pub(crate) fn fresh(collection: Collection, path: String, config: AppConfig) -> (r: Self)
        ensures
            r.lines_wf(),
            r@ == fresh_view(collection@, path@, config@),
    {
        let mut empty: Vec<String> = Vec::new();
        empty.push(String::new());
        assert(views(empty@) =~= seq![Seq::<char>::empty()]);
        let rows: Vec<SidebarRow> = Vec::new();
        assert(views(rows@) =~= Seq::<SidebarRowView>::empty());
        App {
            collection,
            path,
            config,
            dirty: false,
            should_quit: false,
            mode: Mode::Normal,
            focus: Focus::Sidebar,
            tab: EditorTab::Params,
            popup: Popup::Closed,
            zoom: false,
            collapsed: Tags::new(),
            sidebar_rows: rows,
            sidebar_sel: 0,
            filter: String::new(),
            search: LineEdit::new(),
            selected: None,
            table_row: 0,
            editing: None,
            input: LineEdit::new(),
            chain_to_value: false,
            textarea: TextBox::holding(empty),
            docs_scroll: 0,
            response: None,
            response_scroll: 0,
            sending: false,
            token: None,
            status: "Press ? for help".to_owned(),
            command: String::new(),
            pending_external: None,
            help_scroll: 0,
            env_sel: 0,
            auth_form: OAuthConfig::default(),
            auth_field: 0,
            effect: None,
        }
    }

    pub fn selected_request(&self) -> (r: Option<&SavedRequest>)
        requires
            self@.selection_exists(),
        ensures
            opt(r) == self@.request(),
    {
        match self.selected {
            Some(i) => {
                assert(self@.collection.requests[i as int] == self.collection.requests@[i as int]@);
                Some(&self.collection.requests[i])
            },
            None => None,
        }
    }

    /// Puts `r` in the place of request `i`.
    pub(crate) fn put_request(&mut self, i: usize, r: SavedRequest)
        requires
            old(self).lines_wf(),
            i < old(self)@.collection.requests.len(),
        ensures
            final(self).lines_wf(),
            final(self)@ == old(self)@.with_request(i as int, r@),
    {
        self.collection.requests.set(i, r);
    }

    pub fn set_textarea_text(&mut self, text: &str)
        requires
            old(self).lines_wf(),
        ensures
            final(self).lines_wf(),
            final(self)@ == old(self)@.with_text(text@),
    {
        let rows: Vec<String> = if text.is_empty() {
            let mut v: Vec<String> = Vec::new();
            v.push(String::new());
            assert(views(v@) =~= seq![Seq::<char>::empty()]);
            v
        } else {
            split_lines(text)
        };
        self.textarea = TextBox::holding(rows);
    }

    /// Write the text area's contents back into the selected request body.
    pub fn commit_body(&mut self)
        requires
            old(self).lines_wf(),
            old(self)@.selection_exists(),
        ensures
            final(self).lines_wf(),
            final(self)@ == old(self)@.body_committed(),
            final(self)@.collection.requests.len() == old(self)@.collection.requests.len(),
            old(self)@.sound() ==> final(self)@.sound(),
    {
        match self.selected {
            Some(i) => {
                let rows = self.textarea.lines();
                let joined = join_strings(&rows, "\n");
                let text = without_trailing(joined.as_str(), '\n');
                let body: Option<String> = if trimmed(text).is_empty() {
                    None
                } else {
                    Some(text.to_owned())
                };
                let ghost requests = self@.collection.requests;
                assert(requests[i as int] == self.collection.requests@[i as int]@);
                if !same_text(&self.collection.requests[i].body, &body) {
                    let mut r = self.collection.requests[i].clone();
                    r.body = body;
                    self.put_request(i, r);
                    self.dirty = true;
                }
            },
            None => {},
        }
    }

    pub fn select_request(&mut self, idx: usize)
        requires
            old(self).lines_wf(),
            old(self)@.selection_exists(),
            idx < old(self)@.collection.requests.len(),
        ensures
            final(self).lines_wf(),
            final(self)@ == old(self)@.opened(idx as int),
            final(self)@.selection_exists(),
            old(self)@.sound() ==> final(self)@.sound(),
    {
        reveal(AppView::opened);
        self.commit_body();
        assert(idx < views(self.collection.requests@).len());
        self.selected = Some(idx);
        self.table_row = 0;
        self.docs_scroll = 0;
        assert(self@.collection.requests[idx as int] == self.collection.requests@[idx as int]@);
        let body: String = match &self.collection.requests[idx].body {
            Some(b) => b.clone(),
            None => String::new(),
        };
        self.set_textarea_text(body.as_str());
        self.focus = Focus::Editor;
    }
}

pub open spec fn fresh_view(
    collection: CollectionView,
    path: Seq<char>,
    config: ConfigView,
) -> AppView {
    AppView {
        collection,
        path,
        config,
        dirty: false,
        should_quit: false,
        mode: Mode::Normal,
        focus: Focus::Sidebar,
        tab: EditorTab::Params,
        popup: Popup::Closed,
        zoom: false,
        collapsed: Set::empty(),
        sidebar_rows: Seq::empty(),
        sidebar_sel: 0,
        filter: Seq::empty(),
        search: LineState::blank(),
        selected: None,
        table_row: 0,
        editing: None,
        input: LineState::blank(),
        chain_to_value: false,
        textarea: BoxView::holding(seq![Seq::empty()]),
        docs_scroll: 0,
        response: None,
        response_scroll: 0,
        sending: false,
        token: None,
        status: "Press ? for help"@,
        command: Seq::empty(),
        pending_external: None,
        help_scroll: 0,
        env_sel: 0,
        auth_form: blank_auth(AuthKind::Oauth2),
        auth_field: 0,
        effect: None,
    }
}

/// Opening a request changes no request but the one whose body was being
/// edited, and none at all where that body is as it was.
pub proof fn lemma_opening_only_commits(a: AppView, i: int)
    requires
        a.selection_exists(),
        0 <= i < a.collection.requests.len(),
    ensures
        a.opened(i).collection.requests.len() == a.collection.requests.len(),
        forall|k: int|
            0 <= k < a.collection.requests.len() && a.selected != Some(k as usize)
                ==> #[trigger] a.opened(i).collection.requests[k] == a.collection.requests[k],
{
    reveal(AppView::opened);
}

} // verus!
