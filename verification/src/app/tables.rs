//! The editor's tables: parameters, headers and variables.

use vstd::prelude::*;

use crate::app::kinds::{CellCol, TableId};
use crate::app::state::{App, AppView};
use crate::model::{CollectionView, KeyValueRow, RequestView, RowView, SavedRequest};
use crate::text::{group_views, opt, views};

verus! {

broadcast use group_views;

/// A count as a machine number.
pub open spec fn counted(n: nat) -> usize {
    if n <= usize::MAX {
        n as usize
    } else {
        usize::MAX
    }
}

pub open spec fn one_less(n: usize) -> usize {
    if n == 0 {
        0
    } else {
        (n - 1) as usize
    }
}

/// A cursor kept on one of `len` lines.
pub open spec fn inside(cursor: usize, len: usize) -> usize {
    if cursor >= len {
        one_less(len)
    } else {
        cursor
    }
}

pub fn kept_inside(cursor: usize, len: usize) -> (r: usize)
    ensures
        r == inside(cursor, len),
{
    if cursor >= len {
        len.saturating_sub(1)
    } else {
        cursor
    }
}

pub open spec fn cell(r: RowView, col: CellCol) -> Seq<char> {
    match col {
        CellCol::Key => r.key,
        CellCol::Value => r.value,
    }
}

pub open spec fn blank_row() -> RowView {
    RowView { key: Seq::empty(), value: Seq::empty(), enabled: true }
}

impl RequestView {
    /// Path parameters first, then query parameters.
    pub open spec fn params(self) -> Seq<RowView> {
        self.path_params + self.query
    }

    pub open spec fn with_param(self, i: int, r: RowView) -> RequestView {
        let n = self.path_params.len();
        if i < n {
            RequestView { path_params: self.path_params.update(i, r), ..self }
        } else {
            RequestView { query: self.query.update(i - n, r), ..self }
        }
    }

    pub open spec fn without_param(self, i: int) -> RequestView {
        let n = self.path_params.len();
        if i < n {
            RequestView { path_params: self.path_params.remove(i), ..self }
        } else {
            RequestView { query: self.query.remove(i - n), ..self }
        }
    }
}

impl AppView {
    /// The rows of a table, from top to bottom.
    pub open spec fn rows(self, table: TableId) -> Seq<RowView> {
        match (table, self.request()) {
            (TableId::Vars, _) => self.collection.variables,
            (TableId::Headers, Some(r)) => r.headers,
            (TableId::Params, Some(r)) => r.params(),
            _ => Seq::empty(),
        }
    }

    pub open spec fn row(self, table: TableId, i: int) -> Option<RowView> {
        if i < self.rows(table).len() {
            Some(self.rows(table)[i])
        } else {
            None
        }
    }

    pub open spec fn with_variables(self, variables: Seq<RowView>) -> AppView {
        AppView { collection: CollectionView { variables, ..self.collection }, ..self }
    }

    /// The open request replaced.
    pub open spec fn with_open(self, r: RequestView) -> AppView {
        match self.selected {
            Some(s) => self.with_request(s as int, r),
            None => self,
        }
    }

    /// Row `i` of a table replaced.
    #[verifier::opaque]
    pub open spec fn with_row(self, table: TableId, i: int, row: RowView) -> AppView {
        match (table, self.request()) {
            (TableId::Vars, _) => self.with_variables(self.collection.variables.update(i, row)),
            (TableId::Headers, Some(r)) => self.with_open(
                RequestView { headers: r.headers.update(i, row), ..r },
            ),
            (TableId::Params, Some(r)) => self.with_open(r.with_param(i, row)),
            _ => self,
        }
    }

    /// Row `i` of a table taken out.
    #[verifier::opaque]
    pub open spec fn without_row(self, table: TableId, i: int) -> AppView {
        match (table, self.request()) {
            (TableId::Vars, _) => self.with_variables(self.collection.variables.remove(i)),
            (TableId::Headers, Some(r)) => self.with_open(
                RequestView { headers: r.headers.remove(i), ..r },
            ),
            (TableId::Params, Some(r)) => self.with_open(r.without_param(i)),
            _ => self,
        }
    }

    /// A table with an empty row more. New parameters are query parameters; path
    /// parameters come from the path.
    #[verifier::opaque]
    pub open spec fn with_blank_row(self, table: TableId) -> AppView {
        match (table, self.request()) {
            (TableId::Vars, _) => self.with_variables(self.collection.variables.push(blank_row())),
            (TableId::Headers, Some(r)) => self.with_open(
                RequestView { headers: r.headers.push(blank_row()), ..r },
            ),
            (TableId::Params, Some(r)) => self.with_open(
                RequestView { query: r.query.push(blank_row()), ..r },
            ),
            _ => self,
        }
    }

    #[verifier::opaque]
    pub open spec fn row_toggled(self, table: TableId, i: int) -> AppView {
        match self.row(table, i) {
            Some(r) => AppView {
                dirty: true,
                ..self.with_row(table, i, RowView { enabled: !r.enabled, ..r })
            },
            None => self,
        }
    }

    /// Row `i` deleted, with the cursor kept inside the table.
    #[verifier::opaque]
    pub open spec fn row_deleted(self, table: TableId, i: int) -> AppView {
        if i < self.rows(table).len() {
            let a = AppView { dirty: true, ..self.without_row(table, i) };
            let len = counted(a.rows(table).len());
            AppView { table_row: inside(a.table_row, len), ..a }
        } else {
            self
        }
    }

    #[verifier::opaque]
    pub open spec fn cell_written(self, table: TableId, i: int, col: CellCol, v: Seq<char>) -> AppView {
        match self.row(table, i) {
            Some(r) => AppView {
                dirty: true,
                ..self.with_row(
                    table,
                    i,
                    match col {
                        CellCol::Key => RowView { key: v, ..r },
                        CellCol::Value => RowView { value: v, ..r },
                    },
                )
            },
            None => self,
        }
    }
}

fn param_of(req: &SavedRequest, row: usize) -> (r: Option<&KeyValueRow>)
    ensures
        opt(r) == (if row < req@.params().len() {
            Some(req@.params()[row as int])
        } else {
            None
        }),
{
    let np: usize = req.path_params.len();
    if row < np {
        assert(req@.path_params[row as int] == req.path_params@[row as int]@);
        Some(&req.path_params[row])
    } else if row - np < req.query.len() {
        assert(req@.query[row - np] == req.query@[row - np]@);
        Some(&req.query[row - np])
    } else {
        None
    }
}

fn row_in(rows: &Vec<KeyValueRow>, row: usize) -> (r: Option<&KeyValueRow>)
    ensures
        opt(r) == (if row < rows@.len() {
            Some(views(rows@)[row as int])
        } else {
            None
        }),
{
    if row < rows.len() {
        assert(views(rows@)[row as int] == rows@[row as int]@);
        Some(&rows[row])
    } else {
        None
    }
}

impl App {
    pub fn table_len(&self, table: TableId) -> (r: usize)
        requires
            self@.selection_exists(),
        ensures
            r == counted(self@.rows(table).len()),
    {
        match table {
            TableId::Vars => self.collection.variables.len(),
            TableId::Headers => match self.selected_request() {
                Some(req) => req.headers.len(),
                None => 0,
            },
            TableId::Params => match self.selected_request() {
                Some(req) => req.path_params.len().saturating_add(req.query.len()),
                None => 0,
            },
        }
    }

    fn row_ref(&self, table: TableId, row: usize) -> (r: Option<&KeyValueRow>)
        requires
            self@.selection_exists(),
        ensures
            opt(r) == self@.row(table, row as int),
    {
        match table {
            TableId::Vars => row_in(&self.collection.variables, row),
            TableId::Headers => match self.selected_request() {
                Some(req) => row_in(&req.headers, row),
                None => None,
            },
            TableId::Params => match self.selected_request() {
                Some(req) => param_of(req, row),
                None => None,
            },
        }
    }

    /// A copy of the open request, to be changed and put back.
    fn open_copy(&self) -> (r: Option<(usize, SavedRequest)>)
        requires
            self@.selection_exists(),
        ensures
            match r {
                Some((i, req)) => self@.selected == Some(i) && self@.request() == Some(req@),
                None => self@.request() is None,
            },
    {
        match self.selected {
            Some(i) => {
                assert(self@.collection.requests[i as int] == self.collection.requests@[i as int]@);
                Some((i, self.collection.requests[i].clone()))
            },
            None => None,
        }
    }

    fn put_row(&mut self, table: TableId, row: usize, r: KeyValueRow)
        requires
            old(self).wf(),
            row < old(self)@.rows(table).len(),
        ensures
            final(self).wf(),
            final(self)@ == old(self)@.with_row(table, row as int, r@),
    {
        reveal(AppView::with_row);
        match table {
            TableId::Vars => {
                self.collection.variables.set(row, r);
            },
            TableId::Headers => match self.open_copy() {
                Some((i, mut req)) => {
                    req.headers.set(row, r);
                    self.put_request(i, req);
                },
                None => {},
            },
            TableId::Params => match self.open_copy() {
                Some((i, mut req)) => {
                    let np: usize = req.path_params.len();
                    if row < np {
                        req.path_params.set(row, r);
                    } else {
                        req.query.set(row - np, r);
                    }
                    self.put_request(i, req);
                },
                None => {},
            },
        }
    }

    fn take_row(&mut self, table: TableId, row: usize)
        requires
            old(self).wf(),
            row < old(self)@.rows(table).len(),
        ensures
            final(self).wf(),
            final(self)@ == old(self)@.without_row(table, row as int),
    {
        reveal(AppView::without_row);
        match table {
            TableId::Vars => {
                self.collection.variables.remove(row);
            },
            TableId::Headers => match self.open_copy() {
                Some((i, mut req)) => {
                    req.headers.remove(row);
                    self.put_request(i, req);
                },
                None => {},
            },
            TableId::Params => match self.open_copy() {
                Some((i, mut req)) => {
                    let np: usize = req.path_params.len();
                    if row < np {
                        req.path_params.remove(row);
                    } else {
                        req.query.remove(row - np);
                    }
                    self.put_request(i, req);
                },
                None => {},
            },
        }
    }

    /// Appends an empty row; returns whether there is a table to append to.
    pub(crate) fn push_blank_row(&mut self, table: TableId) -> (there: bool)
        requires
            old(self).wf(),
        ensures
            final(self).wf(),
            final(self)@ == old(self)@.with_blank_row(table),
            there == (table == TableId::Vars || old(self)@.selected is Some),
            !there ==> final(self)@ == old(self)@,
    {
        proof {
            reveal(AppView::with_blank_row);
            reveal_strlit("");
            assert(""@ =~= Seq::<char>::empty());
        }
        let blank = KeyValueRow::new("", "", true);
        match table {
            TableId::Vars => {
                self.collection.variables.push(blank);
                true
            },
            TableId::Headers => match self.open_copy() {
                Some((i, mut req)) => {
                    req.headers.push(blank);
                    self.put_request(i, req);
                    true
                },
                None => false,
            },
            TableId::Params => match self.open_copy() {
                Some((i, mut req)) => {
                    req.query.push(blank);
                    self.put_request(i, req);
                    true
                },
                None => false,
            },
        }
    }

    pub fn row_value(&self, table: TableId, row: usize, col: CellCol) -> (r: Option<String>)
        requires
            self@.selection_exists(),
        ensures
            opt(r) == (match self@.row(table, row as int) {
                Some(w) => Some(cell(w, col)),
                None => None,
            }),
    {
        match self.row_ref(table, row) {
            Some(w) => match col {
                CellCol::Key => Some(w.key.clone()),
                CellCol::Value => Some(w.value.clone()),
            },
            None => None,
        }
    }

    pub fn toggle_row(&mut self, table: TableId, row: usize)
        requires
            old(self).wf(),
        ensures
            final(self).wf(),
            final(self)@ == old(self)@.row_toggled(table, row as int),
    {
        reveal(AppView::row_toggled);
        let found: Option<KeyValueRow> = match self.row_ref(table, row) {
            Some(w) => Some(w.clone()),
            None => None,
        };
        match found {
            Some(mut w) => {
                let ghost r = w@;
                w.enabled = !w.enabled;
                assert(w@ == (RowView { enabled: !r.enabled, ..r }));
                self.put_row(table, row, w);
                let ghost written = self@;
                self.dirty = true;
                assert(self@ == (AppView { dirty: true, ..written }));
            },
            None => {},
        }
    }

    pub fn delete_row(&mut self, table: TableId, row: usize)
        requires
            old(self).wf(),
        ensures
            final(self).wf(),
            final(self)@ == old(self)@.row_deleted(table, row as int),
    {
        reveal(AppView::row_deleted);
        if self.row_ref(table, row).is_some() {
            self.take_row(table, row);
            let ghost taken = self@;
            self.dirty = true;
            assert(self@ == (AppView { dirty: true, ..taken }));
            let len = self.table_len(table);
            self.table_row = kept_inside(self.table_row, len);
        }
    }

    /// Writes one cell of a table, if it is there.
    pub(crate) fn write_cell(&mut self, table: TableId, row: usize, col: CellCol, value: String)
        requires
            old(self).wf(),
        ensures
            final(self).wf(),
            final(self)@ == old(self)@.cell_written(table, row as int, col, value@),
    {
        reveal(AppView::cell_written);
        let found: Option<KeyValueRow> = match self.row_ref(table, row) {
            Some(w) => Some(w.clone()),
            None => None,
        };
        match found {
            Some(mut w) => {
                let ghost r = w@;
                match col {
                    CellCol::Key => {
                        w.key = value;
                        assert(w@ == (RowView { key: value@, ..r }));
                    },
                    CellCol::Value => {
                        w.value = value;
                        assert(w@ == (RowView { value: value@, ..r }));
                    },
                }
                self.put_row(table, row, w);
                let ghost written = self@;
                self.dirty = true;
                assert(self@ == (AppView { dirty: true, ..written }));
            },
            None => {},
        }
    }
}

/// Replacing a row replaces that row of the table and no other, in this table
/// and in the other two.
pub proof fn lemma_row_replaced(a: AppView, table: TableId, i: int, row: RowView, other: TableId)
    requires
        a.sound(),
        0 <= i < a.rows(table).len(),
    ensures
        a.with_row(table, i, row).rows(table) == a.rows(table).update(i, row),
        other != table ==> a.with_row(table, i, row).rows(other) == a.rows(other),
{
    reveal(AppView::with_row);
    assert(a.with_row(table, i, row).rows(table) =~= a.rows(table).update(i, row));
    assert(other != table ==> a.with_row(table, i, row).rows(other) =~= a.rows(other));
}

/// Switching a row twice changes nothing but that the collection counts as
/// changed.
pub proof fn lemma_toggle_twice(a: AppView, table: TableId, i: int)
    requires
        a.sound(),
        0 <= i,
    ensures
        a.row_toggled(table, i).row_toggled(table, i).rows(table) == a.rows(table),
{
    reveal(AppView::row_toggled);
    if i < a.rows(table).len() {
        let r = a.rows(table)[i];
        let flipped = RowView { enabled: !r.enabled, ..r };
        reveal(AppView::with_row);
        lemma_row_replaced(a, table, i, flipped, table);
        let b = a.row_toggled(table, i);
        assert(b.rows(table) == a.rows(table).update(i, flipped));
        assert(b.rows(table)[i] == flipped);
        lemma_row_replaced(b, table, i, r, table);
        assert(b.row_toggled(table, i).rows(table) =~= a.rows(table));
    }
}

/// A deleted row leaves the rest of the table in order, and the cursor on a row
/// wherever one is left.
pub proof fn lemma_delete_keeps_the_rest(a: AppView, table: TableId, i: int)
    requires
        a.sound(),
        0 <= i < a.rows(table).len() <= usize::MAX,
    ensures
        a.row_deleted(table, i).rows(table) == a.rows(table).remove(i),
        a.rows(table).len() > 1 ==> a.row_deleted(table, i).table_row < a.row_deleted(
            table,
            i,
        ).rows(table).len(),
{
    reveal(AppView::row_deleted);
    reveal(AppView::without_row);
    assert(a.row_deleted(table, i).rows(table) =~= a.rows(table).remove(i));
}

} // verus!
