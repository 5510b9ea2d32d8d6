//! The small enumerations that the application state is made of.

use vstd::prelude::*;

use crate::text::group_views;

verus! {

broadcast use group_views;

#[derive(Debug, Clone, Copy, PartialEq, Eq, Structural)]
pub enum Mode {
    Normal,
    Insert,
    Command,
    /// Incremental sidebar filter, opened with `/`.
    Search,
}

/// Which pane has the keyboard: the `1` / `2` / `3` panes. Kept as part of a
/// collection's saved view.
#[derive(Debug, Clone, Copy, PartialEq, Eq, Structural)]
pub enum Focus {
    Sidebar,
    Editor,
    Response,
}

/// Kept with the saved view alongside [`Focus`].
#[derive(Debug, Clone, Copy, PartialEq, Eq, Structural)]
pub enum EditorTab {
    Params,
    Headers,
    Body,
    /// Read-only view of types, enums and descriptions.
    Docs,
    Variables,
}

impl EditorTab {
    /// Every tab, in the order in which they are shown.
    pub open spec fn order() -> Seq<EditorTab> {
        seq![
            EditorTab::Params,
            EditorTab::Headers,
            EditorTab::Body,
            EditorTab::Docs,
            EditorTab::Variables,
        ]
    }

    pub open spec fn place(self) -> int {
        match self {
            EditorTab::Params => 0,
            EditorTab::Headers => 1,
            EditorTab::Body => 2,
            EditorTab::Docs => 3,
            EditorTab::Variables => 4,
        }
    }

    pub open spec fn title_spec(self) -> Seq<char> {
        match self {
            EditorTab::Params => "Params"@,
            EditorTab::Headers => "Headers"@,
            EditorTab::Body => "Body"@,
            EditorTab::Docs => "Docs"@,
            EditorTab::Variables => "Variables"@,
        }
    }

    pub open spec fn next_spec(self) -> EditorTab {
        Self::order()[(self.place() + 1) % 5]
    }

    pub open spec fn prev_spec(self) -> EditorTab {
        Self::order()[(self.place() + 4) % 5]
    }

    pub open spec fn table_spec(self) -> Option<TableId> {
        match self {
            EditorTab::Params => Some(TableId::Params),
            EditorTab::Headers => Some(TableId::Headers),
            EditorTab::Variables => Some(TableId::Vars),
            EditorTab::Body | EditorTab::Docs => None,
        }
    }

    pub fn all() -> (r: Vec<EditorTab>)
        ensures
            r@ == Self::order(),
    {
        let r = vec![
            EditorTab::Params,
            EditorTab::Headers,
            EditorTab::Body,
            EditorTab::Docs,
            EditorTab::Variables,
        ];
        assert(r@ =~= Self::order());
        r
    }

    pub fn title(self) -> (r: &'static str)
        ensures
            r@ == self.title_spec(),
    {
        match self {
            EditorTab::Params => "Params",
            EditorTab::Headers => "Headers",
            EditorTab::Body => "Body",
            EditorTab::Docs => "Docs",
            EditorTab::Variables => "Variables",
        }
    }

    pub fn index(self) -> (r: usize)
        ensures
            r == self.place(),
            Self::order()[r as int] == self,
    {
        match self {
            EditorTab::Params => 0,
            EditorTab::Headers => 1,
            EditorTab::Body => 2,
            EditorTab::Docs => 3,
            EditorTab::Variables => 4,
        }
    }

    pub fn next(self) -> (r: Self)
        ensures
            r == self.next_spec(),
    {
        Self::all()[(self.index() + 1) % 5]
    }

    pub fn prev(self) -> (r: Self)
        ensures
            r == self.prev_spec(),
    {
        Self::all()[(self.index() + 4) % 5]
    }

    /// Tables map onto editable key/value rows; Body uses the text area and
    /// Docs is rendered text.
    pub fn table(self) -> (r: Option<TableId>)
        ensures
            r == self.table_spec(),
    {
        match self {
            EditorTab::Params => Some(TableId::Params),
            EditorTab::Headers => Some(TableId::Headers),
            EditorTab::Variables => Some(TableId::Vars),
            EditorTab::Body | EditorTab::Docs => None,
        }
    }
}

/// `prev` undoes `next`, and the other way round.
pub proof fn lemma_tab_cycle(t: EditorTab)
    ensures
        t.next_spec().prev_spec() == t,
        t.prev_spec().next_spec() == t,
{
}

#[derive(Debug, Clone, Copy, PartialEq, Eq, Structural)]
pub enum TableId {
    /// Path params first, then query params.
    Params,
    Headers,
    Vars,
}

#[derive(Debug, Clone, Copy, PartialEq, Eq, Structural)]
pub enum Popup {
    /// No popup is open.
    Closed,
    Help,
    Env,
    Auth,
}

#[derive(Debug, Clone, Copy, PartialEq, Eq, Structural)]
pub enum CellCol {
    Key,
    Value,
}

/// What the single-line input currently edits (Insert mode).
#[derive(Debug, Clone, Copy, PartialEq, Eq, Structural)]
pub enum EditTarget {
    Cell { table: TableId, row: usize, col: CellCol },
    Rename,
    NewRequest,
    /// The selected request's URL or path. Pasting an absolute URL here also
    /// sets the collection's server.
    Url,
    EnvNew,
    /// Index into the rows of the auth popup.
    AuthField(usize),
}

/// One editable row in the auth popup. Which rows show depends on the selected
/// scheme.
#[derive(Debug, Clone, Copy, PartialEq, Eq, Structural)]
pub enum AuthField {
    /// The scheme selector (a toggle, not a text field).
    Kind,
    /// Bearer token, or API-key value (secret).
    Token,
    /// API-key header name.
    Header,
    TokenUrl,
    ClientId,
    ClientSecret,
    Scopes,
    /// OAuth client-auth placement (a toggle, not a text field).
    Style,
}

impl AuthField {
    pub open spec fn secret(self) -> bool {
        self == AuthField::Token || self == AuthField::ClientSecret
    }

    pub open spec fn toggle(self) -> bool {
        self == AuthField::Kind || self == AuthField::Style
    }

    /// Rows that carry a secret and should render masked.
    pub fn is_secret(self) -> (r: bool)
        ensures
            r == self.secret(),
    {
        matches!(self, AuthField::Token | AuthField::ClientSecret)
    }

    /// Rows edited by toggling rather than typing.
    pub fn is_toggle(self) -> (r: bool)
        ensures
            r == self.toggle(),
    {
        matches!(self, AuthField::Kind | AuthField::Style)
    }
}

/// One line of the sidebar.
#[derive(Debug, PartialEq, Eq)]
pub enum SidebarRow {
    Group(String),
    /// Index of a request in the collection.
    Request(usize),
}

#[verifier::ext_equal]
pub enum SidebarRowView {
    Group(Seq<char>),
    Request(int),
}

impl View for SidebarRow {
    type V = SidebarRowView;

    open spec fn view(&self) -> SidebarRowView {
        match self {
            SidebarRow::Group(tag) => SidebarRowView::Group(tag@),
            SidebarRow::Request(i) => SidebarRowView::Request(*i as int),
        }
    }
}

/// What a queued `$EDITOR` session opens.
#[derive(Debug, Clone, Copy, PartialEq, Eq, Structural)]
pub enum ExternalEdit {
    /// The request body; the file is read back on exit.
    Body,
    /// The response body, for paging and searching in a real editor. Saves are
    /// discarded: a response is a record of what the server returned.
    Response,
}

} // verus!
