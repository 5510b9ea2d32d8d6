//! The sidebar: which rows it shows, searching, opening, duplicating and
//! deleting requests, and opening a whole collection.

use vstd::prelude::*;

use crate::app::kinds::{Focus, Mode, SidebarRow, SidebarRowView};
use crate::app::line_edit::LineState;
use crate::app::state::{
    flipped, fresh_view, rows_in_range, text_rows, App, AppView, Tags, MAX_AUTH_FIELDS,
};
use crate::app::text_box::BoxView;
use crate::ids::{is_v4, new_v4};
use crate::model::{
    request_matches, Collection, CollectionView, RequestView, SavedRequest,
};
use crate::store::{AppConfig, ConfigView};
use crate::text::{
    cat, chars, contains, dec, decimal, digit, ends_with, finishes, group_views, is_digit, part,
    same, views,
};

verus! {

broadcast use group_views;

// ----- rows -----

/// Sidebar group a request belongs to: its first tag, or `default`.
pub open spec fn group_of(r: RequestView) -> Seq<char> {
    if r.tags.len() > 0 {
        r.tags[0]
    } else {
        "default"@
    }
}

pub fn group_tag(req: &SavedRequest) -> (r: String)
    ensures
        r@ == group_of(req@),
{
    if req.tags.len() > 0 {
        assert(req@.tags[0] == req.tags@[0]@);
        req.tags[0].clone()
    } else {
        "default".to_owned()
    }
}

/// Every group in a collection.
pub open spec fn groups_in(requests: Seq<RequestView>) -> Set<Seq<char>>
    decreases requests.len(),
{
    if requests.len() == 0 {
        Set::empty()
    } else {
        groups_in(requests.drop_last()).insert(group_of(requests.last()))
    }
}

/// Rows in the making, and the groups that have one.
#[verifier::ext_equal]
pub struct Listing {
    pub rows: Seq<SidebarRowView>,
    pub groups: Seq<Seq<char>>,
}

/// The sidebar's rows: a header where a group first occurs, and the requests
/// that pass the filter. A collapsed group hides its requests, but not while
/// filtering, where it would hide what is being searched for.
pub open spec fn listing(
    requests: Seq<RequestView>,
    filter: Seq<char>,
    collapsed: Set<Seq<char>>,
) -> Listing
    decreases requests.len(),
{
    if requests.len() == 0 {
        Listing { rows: Seq::empty(), groups: Seq::empty() }
    } else {
        let before = listing(requests.drop_last(), filter, collapsed);
        let r = requests.last();
        let tag = group_of(r);
        if filter.len() > 0 && !request_matches(r, filter) {
            before
        } else {
            let headed = if before.groups.contains(tag) {
                before
            } else {
                Listing {
                    rows: before.rows.push(SidebarRowView::Group(tag)),
                    groups: before.groups.push(tag),
                }
            };
            if filter.len() > 0 || !collapsed.contains(tag) {
                Listing {
                    rows: headed.rows.push(SidebarRowView::Request(requests.len() - 1)),
                    ..headed
                }
            } else {
                headed
            }
        }
    }
}

/// Where request `k` stands among the rows.
pub open spec fn row_of(rows: Seq<SidebarRowView>, k: int) -> Option<int> {
    row_of_from(rows, k, 0)
}

pub open spec fn row_of_from(rows: Seq<SidebarRowView>, k: int, from: int) -> Option<int>
    decreases rows.len() - from,
{
    if from < 0 || from >= rows.len() {
        None
    } else if rows[from] == SidebarRowView::Request(k) {
        Some(from)
    } else {
        row_of_from(rows, k, from + 1)
    }
}

/// The first row at or after `from` that is a request.
pub open spec fn request_row_from(rows: Seq<SidebarRowView>, from: int) -> Option<int>
    decreases rows.len() - from,
{
    if from < 0 || from >= rows.len() {
        None
    } else if rows[from] is Request {
        Some(from)
    } else {
        request_row_from(rows, from + 1)
    }
}

pub open spec fn count_requests(rows: Seq<SidebarRowView>) -> nat
    decreases rows.len(),
{
    if rows.len() == 0 {
        0
    } else if rows.last() is Request {
        count_requests(rows.drop_last()) + 1
    } else {
        count_requests(rows.drop_last())
    }
}

pub open spec fn last_place(n: nat) -> usize {
    if n == 0 {
        0
    } else {
        (n - 1) as usize
    }
}

impl AppView {
    /// The rows worked out anew, with the cursor kept inside them.
    #[verifier::opaque]
    pub open spec fn rebuilt(self) -> AppView {
        let rows = listing(self.collection.requests, self.filter, self.collapsed).rows;
        AppView {
            sidebar_rows: rows,
            sidebar_sel: if self.sidebar_sel >= rows.len() {
                last_place(rows.len())
            } else {
                self.sidebar_sel
            },
            ..self
        }
    }

    /// The cursor on request `k`, if the sidebar shows it.
    pub open spec fn parked_on(self, k: int) -> AppView {
        match row_of(self.sidebar_rows, k) {
            Some(i) => AppView { sidebar_sel: i as usize, ..self },
            None => self,
        }
    }

    #[verifier::opaque]
    pub open spec fn search_started(self) -> AppView {
        AppView {
            search: LineState::holding(self.filter),
            focus: Focus::Sidebar,
            mode: Mode::Search,
            ..self
        }
    }

    /// The prompt applied as the filter, with the cursor on the first match.
    #[verifier::opaque]
    pub open spec fn search_applied(self) -> AppView {
        let a = AppView { filter: self.search.text, ..self }.rebuilt();
        match request_row_from(a.sidebar_rows, 0) {
            Some(i) => AppView { sidebar_sel: i as usize, ..a },
            None => a,
        }
    }

    #[verifier::opaque]
    pub open spec fn search_finished(self) -> AppView {
        AppView {
            mode: Mode::Normal,
            status: if self.filter.len() == 0 {
                "Filter cleared"@
            } else {
                "Filter \""@ + self.filter + "\" — "@ + decimal(count_requests(self.sidebar_rows))
                    + " request(s) · Esc clears"@
            },
            ..self
        }
    }

    #[verifier::opaque]
    pub open spec fn filter_cleared(self) -> AppView {
        if self.filter.len() == 0 {
            self
        } else {
            AppView {
                filter: Seq::empty(),
                search: LineState::holding(Seq::empty()),
                ..self
            }.rebuilt().told("Filter cleared"@)
        }
    }

    #[verifier::opaque]
    pub open spec fn label_cycled(self) -> AppView {
        let mode = self.collection.label_mode.next_spec();
        AppView {
            collection: CollectionView { label_mode: mode, ..self.collection },
            dirty: true,
            status: "Sidebar labels: "@ + mode.title_spec(),
            ..self
        }
    }

    /// The row under the cursor activated: a group folds or unfolds, a request
    /// opens.
    #[verifier::opaque]
    pub open spec fn activated(self) -> AppView {
        if self.sidebar_sel >= self.sidebar_rows.len() {
            self
        } else {
            match self.sidebar_rows[self.sidebar_sel as int] {
                SidebarRowView::Group(tag) => (AppView {
                    collapsed: flipped(self.collapsed, tag),
                    ..self
                }).rebuilt(),
                SidebarRowView::Request(k) => self.opened(k),
            }
        }
    }
}

impl App {
    fn group_tags(&self) -> (r: Tags)
        ensures
            r@ == groups_in(self@.collection.requests),
    {
        let ghost all = self@.collection.requests;
        let mut out = Tags::new();
        let mut i: usize = 0;
        while i < self.collection.requests.len()
            invariant
                i <= self.collection.requests@.len(),
                all == views(self.collection.requests@),
                out@ == groups_in(all.take(i as int)),
            decreases self.collection.requests@.len() - i,
        {
            assert(all.take(i + 1).drop_last() =~= all.take(i as int));
            assert(all.take(i + 1).last() == self.collection.requests@[i as int]@);
            out.insert(group_tag(&self.collection.requests[i]).as_str());
            i += 1;
        }
        assert(all.take(all.len() as int) =~= all);
        out
    }

    /// Folds every group, or unfolds them all.
    pub(crate) fn fold_groups(&mut self, fold: bool)
        requires
            old(self).lines_wf(),
        ensures
            final(self).lines_wf(),
            final(self)@ == (AppView {
                collapsed: if fold {
                    groups_in(old(self)@.collection.requests)
                } else {
                    Set::empty()
                },
                ..old(self)@
            }),
    {
        self.collapsed = if fold {
            self.group_tags()
        } else {
            Tags::new()
        };
    }

    pub fn rebuild_sidebar(&mut self)
        requires
            old(self).lines_wf(),
        ensures
            final(self).lines_wf(),
            final(self)@ == old(self)@.rebuilt(),
            final(self)@.collection == old(self)@.collection,
            final(self)@.selected == old(self)@.selected,
            rows_in_range(final(self)@.sidebar_rows, final(self)@.collection.requests.len()),
            old(self)@.selection_exists() && old(self)@.auth_field < MAX_AUTH_FIELDS
                ==> final(self)@.sound(),
    {
        reveal(AppView::rebuilt);
        let filtering = !self.filter.as_str().is_empty();
        let ghost all = self@.collection.requests;
        let ghost filter = self@.filter;
        let ghost collapsed = self@.collapsed;
        let mut rows: Vec<SidebarRow> = Vec::new();
        let mut groups: Vec<String> = Vec::new();
        let mut i: usize = 0;
        while i < self.collection.requests.len()
            invariant
                i <= self.collection.requests@.len(),
                *self == *old(self),
                all == views(self.collection.requests@),
                filter == self@.filter,
                collapsed == self@.collapsed,
                filtering == (filter.len() > 0),
                views(rows@) == listing(all.take(i as int), filter, collapsed).rows,
                views(groups@) == listing(all.take(i as int), filter, collapsed).groups,
                rows_in_range(views(rows@), i as nat),
            decreases self.collection.requests@.len() - i,
        {
            let req = &self.collection.requests[i];
            assert(all.take(i + 1).drop_last() =~= all.take(i as int));
            assert(all.take(i + 1).last() == req@);
            let ghost held = views(rows@);
            if !filtering || req.matches(self.filter.as_str()) {
                let tag = group_tag(req);
                if !crate::model::contains_string(&groups, tag.as_str()) {
                    groups.push(tag.clone());
                    rows.push(SidebarRow::Group(tag.clone()));
                }
                if filtering || !self.collapsed.contains(tag.as_str()) {
                    rows.push(SidebarRow::Request(i));
                }
            }
            assert(rows_in_range(held, (i + 1) as nat));
            assert(rows_in_range(views(rows@), (i + 1) as nat));
            i += 1;
        }
        assert(all.take(all.len() as int) =~= all);
        self.sidebar_rows = rows;
        if self.sidebar_sel >= self.sidebar_rows.len() {
            self.sidebar_sel = if self.sidebar_rows.len() == 0 {
                0
            } else {
                self.sidebar_rows.len() - 1
            };
        }
    }

    fn place_of(&self, k: usize) -> (r: Option<usize>)
        ensures
            match r {
                Some(i) => row_of(self@.sidebar_rows, k as int) == Some(i as int),
                None => row_of(self@.sidebar_rows, k as int) is None,
            },
    {
        let ghost rows = self@.sidebar_rows;
        let mut i: usize = 0;
        while i < self.sidebar_rows.len()
            invariant
                i <= self.sidebar_rows@.len(),
                rows == views(self.sidebar_rows@),
                row_of(rows, k as int) == row_of_from(rows, k as int, i as int),
            decreases self.sidebar_rows@.len() - i,
        {
            assert(rows[i as int] == self.sidebar_rows@[i as int]@);
            let found: bool = match &self.sidebar_rows[i] {
                SidebarRow::Request(n) => *n == k,
                SidebarRow::Group(_) => false,
            };
            if found {
                return Some(i);
            }
            i += 1;
        }
        None
    }

    fn first_match(&self) -> (r: Option<usize>)
        ensures
            match r {
                Some(i) => request_row_from(self@.sidebar_rows, 0) == Some(i as int),
                None => request_row_from(self@.sidebar_rows, 0) is None,
            },
    {
        let ghost rows = self@.sidebar_rows;
        let mut i: usize = 0;
        while i < self.sidebar_rows.len()
            invariant
                i <= self.sidebar_rows@.len(),
                rows == views(self.sidebar_rows@),
                request_row_from(rows, 0) == request_row_from(rows, i as int),
            decreases self.sidebar_rows@.len() - i,
        {
            assert(rows[i as int] == self.sidebar_rows@[i as int]@);
            let found: bool = match &self.sidebar_rows[i] {
                SidebarRow::Request(_) => true,
                SidebarRow::Group(_) => false,
            };
            if found {
                return Some(i);
            }
            i += 1;
        }
        None
    }

    /// Puts the sidebar cursor on request `k`; an active filter may hide it, in
    /// which case the cursor stays put.
    pub(crate) fn park_on(&mut self, k: usize)
        requires
            old(self).lines_wf(),
        ensures
            final(self).lines_wf(),
            final(self)@ == old(self)@.parked_on(k as int),
            old(self)@.sound() ==> final(self)@.sound(),
    {
        match self.place_of(k) {
            Some(i) => {
                self.sidebar_sel = i;
            },
            None => {},
        }
    }

    /// The request under the sidebar cursor.
    pub fn highlighted_request(&self) -> (r: Option<usize>)
        requires
            self@.sound(),
        ensures
            match r {
                Some(k) => self@.highlighted() == Some(k as int) && k < self@.collection.requests.len(),
                None => self@.highlighted() is None,
            },
    {
        if self.sidebar_sel < self.sidebar_rows.len() {
            assert(self@.sidebar_rows[self.sidebar_sel as int]
                == self.sidebar_rows@[self.sidebar_sel as int]@);
            match &self.sidebar_rows[self.sidebar_sel] {
                SidebarRow::Request(k) => Some(*k),
                SidebarRow::Group(_) => None,
            }
        } else {
            None
        }
    }

    // ----- searching -----

    pub fn start_search(&mut self)
        requires
            old(self).lines_wf(),
        ensures
            final(self).lines_wf(),
            final(self)@ == old(self)@.search_started(),
            old(self)@.sound() ==> final(self)@.sound(),
    {
        reveal(AppView::search_started);
        let filter = self.filter.clone();
        self.search.set(filter.as_str());
        self.focus = Focus::Sidebar;
        self.mode = Mode::Search;
    }

    /// Re-apply the live `/` prompt as the filter and land the cursor on the
    /// first matching request.
    pub fn apply_search(&mut self)
        requires
            old(self).lines_wf(),
        ensures
            final(self).lines_wf(),
            final(self)@ == old(self)@.search_applied(),
            old(self)@.sound() ==> final(self)@.sound(),
            rows_in_range(final(self)@.sidebar_rows, final(self)@.collection.requests.len()),
    {
        reveal(AppView::search_applied);
        self.filter = self.search.buf.clone();
        self.rebuild_sidebar();
        match self.first_match() {
            Some(i) => {
                self.sidebar_sel = i;
            },
            None => {},
        }
    }

    fn shown_requests(&self) -> (r: usize)
        ensures
            r == count_requests(self@.sidebar_rows),
    {
        let ghost rows = self@.sidebar_rows;
        let mut n: usize = 0;
        let mut i: usize = 0;
        while i < self.sidebar_rows.len()
            invariant
                i <= self.sidebar_rows@.len(),
                rows == views(self.sidebar_rows@),
                n <= i,
                n == count_requests(rows.take(i as int)),
            decreases self.sidebar_rows@.len() - i,
        {
            assert(rows.take(i + 1).drop_last() =~= rows.take(i as int));
            assert(rows.take(i + 1).last() == self.sidebar_rows@[i as int]@);
            match &self.sidebar_rows[i] {
                SidebarRow::Request(_) => {
                    n += 1;
                },
                SidebarRow::Group(_) => {},
            }
            i += 1;
        }
        assert(rows.take(rows.len() as int) =~= rows);
        n
    }

    pub fn finish_search(&mut self)
        requires
            old(self).lines_wf(),
        ensures
            final(self).lines_wf(),
            final(self)@ == old(self)@.search_finished(),
            old(self)@.sound() ==> final(self)@.sound(),
    {
        reveal(AppView::search_finished);
        self.mode = Mode::Normal;
        self.status = if self.filter.as_str().is_empty() {
            "Filter cleared".to_owned()
        } else {
            let n = self.shown_requests();
            let mut s = "Filter \"".to_owned();
            s.append(self.filter.as_str());
            s.append("\" — ");
            s.append(dec(n as u128).as_str());
            s.append(" request(s) · Esc clears");
            s
        };
    }

    pub fn clear_filter(&mut self)
        requires
            old(self).wf(),
        ensures
            final(self).wf(),
            final(self)@ == old(self)@.filter_cleared(),
    {
        reveal(AppView::filter_cleared);
        if self.filter.as_str().is_empty() {
            return;
        }
        self.filter = String::new();
        proof {
            reveal_strlit("");
            assert(""@ =~= Seq::<char>::empty());
        }
        self.search.set("");
        self.rebuild_sidebar();
        self.status = "Filter cleared".to_owned();
    }

    // ----- request labels -----

    pub fn cycle_label_mode(&mut self)
        requires
            old(self).wf(),
        ensures
            final(self).wf(),
            final(self)@ == old(self)@.label_cycled(),
    {
        reveal(AppView::label_cycled);
        self.collection.label_mode = self.collection.label_mode.next();
        self.dirty = true;
        self.status = cat("Sidebar labels: ", self.collection.label_mode.title());
    }

    pub fn activate_sidebar(&mut self)
        requires
            old(self).wf(),
        ensures
            final(self).wf(),
            final(self)@ == old(self)@.activated(),
    {
        reveal(AppView::activated);
        if self.sidebar_sel >= self.sidebar_rows.len() {
            return;
        }
        assert(self@.sidebar_rows[self.sidebar_sel as int]
            == self.sidebar_rows@[self.sidebar_sel as int]@);
        match &self.sidebar_rows[self.sidebar_sel] {
            SidebarRow::Group(tag) => {
                let tag = tag.clone();
                self.collapsed.flip(tag.as_str());
                assert(self@ == (AppView {
                    collapsed: flipped(old(self)@.collapsed, tag@),
                    ..old(self)@
                }));
                self.rebuild_sidebar();
                return;
            },
            SidebarRow::Request(k) => {
                let k: usize = *k;
                self.select_request(k);
                return;
            },
        }
    }
}

// ----- duplicating and deleting -----

/// A name without a trailing ` copy` or ` copy <n>`.
pub open spec fn stem(name: Seq<char>) -> Seq<char> {
    if ends_with(name, " copy"@) {
        name.take(name.len() - 5)
    } else {
        let bare = without_digits(name);
        if bare.len() < name.len() && ends_with(bare, " copy "@) {
            bare.take(bare.len() - 6)
        } else {
            name
        }
    }
}

/// `s` without the digits at its end.
pub open spec fn without_digits(s: Seq<char>) -> Seq<char>
    decreases s.len(),
{
    if s.len() > 0 && is_digit(s.last()) {
        without_digits(s.drop_last())
    } else {
        s
    }
}

fn trailing_digits_cut(s: &str) -> (r: &str)
    ensures
        r@ == without_digits(s@),
{
    let c = chars(s);
    let mut n: usize = c.len();
    assert(s@.take(s@.len() as int) =~= s@);
    while n > 0 && digit(c[n - 1])
        invariant
            n <= c@.len(),
            c@ == s@,
            without_digits(s@) == without_digits(s@.take(n as int)),
        decreases n,
    {
        assert(s@.take(n as int).drop_last() =~= s@.take(n - 1));
        n -= 1;
    }
    part(s, 0, n)
}

/// Strip a trailing ` copy` or ` copy <n>` from a request name.
pub fn copy_stem(name: &str) -> (r: &str)
    ensures
        r@ == stem(name@),
{
    proof {
        reveal_strlit(" copy");
        reveal_strlit(" copy ");
    }
    let n = name.unicode_len();
    if finishes(name, " copy") {
        let r = part(name, 0, n - 5);
        assert(r@ =~= name@.take(name@.len() - 5));
        return r;
    }
    let bare = trailing_digits_cut(name);
    let m = bare.unicode_len();
    if m < n && finishes(bare, " copy ") {
        let r = part(bare, 0, m - 6);
        assert(r@ =~= bare@.take(bare@.len() - 6));
        return r;
    }
    name
}

pub open spec fn taken(requests: Seq<RequestView>, name: Seq<char>) -> bool {
    exists|i: int| 0 <= i < requests.len() && (#[trigger] requests[i]).name == name
}

/// The name of copy number `n`; the first one has no number.
pub open spec fn copy_name(stem: Seq<char>, n: nat) -> Seq<char> {
    if n <= 1 {
        stem + " copy"@
    } else {
        stem + " copy "@ + decimal(n)
    }
}

/// Whether `name` is the first free name for a copy of `base`.
pub open spec fn first_free_copy(
    requests: Seq<RequestView>,
    base: Seq<char>,
    name: Seq<char>,
) -> bool {
    exists|n: nat|
        n >= 1 && name == #[trigger] copy_name(stem(base), n) && !taken(requests, name) && forall|k: nat|
            1 <= k < n ==> taken(requests, #[trigger] copy_name(stem(base), k))
}

/// The first free name for a copy of `base`.
pub open spec fn free_copy(requests: Seq<RequestView>, base: Seq<char>) -> Seq<char> {
    choose|name: Seq<char>| first_free_copy(requests, base, name)
}

/// There is only one first free name.
pub(crate) proof fn lemma_free_copy(requests: Seq<RequestView>, base: Seq<char>, name: Seq<char>)
    requires
        first_free_copy(requests, base, name),
    ensures
        free_copy(requests, base) == name,
{
    let other = free_copy(requests, base);
    assert(first_free_copy(requests, base, other));
    let n = choose|n: nat|
        n >= 1 && name == #[trigger] copy_name(stem(base), n) && !taken(requests, name) && forall|k: nat|
            1 <= k < n ==> taken(requests, #[trigger] copy_name(stem(base), k));
    let m = choose|m: nat|
        m >= 1 && other == #[trigger] copy_name(stem(base), m) && !taken(requests, other)
            && forall|k: nat| 1 <= k < m ==> taken(requests, #[trigger] copy_name(stem(base), k));
    if n < m {
        assert(taken(requests, copy_name(stem(base), n)));
    } else if m < n {
        assert(taken(requests, copy_name(stem(base), m)));
    }
}

fn is_taken(requests: &Vec<SavedRequest>, name: &str) -> (r: bool)
    ensures
        r == taken(views(requests@), name@),
{
    let ghost all = views(requests@);
    let mut i: usize = 0;
    while i < requests.len()
        invariant
            i <= requests@.len(),
            all == views(requests@),
            forall|j: int| 0 <= j < i ==> (#[trigger] all[j]).name != name@,
        decreases requests@.len() - i,
    {
        assert(all[i as int] == requests@[i as int]@);
        if same(requests[i].name.as_str(), name) {
            return true;
        }
        i += 1;
    }
    false
}

fn numbered(stem: &str, n: u128) -> (r: String)
    ensures
        r@ == copy_name(stem@, n as nat),
{
    let mut s = stem.to_owned();
    if n <= 1 {
        s.append(" copy");
    } else {
        s.append(" copy ");
        s.append(dec(n).as_str());
    }
    s
}

/// Different numbers give different names.
proof fn lemma_copy_names_differ(s: Seq<char>, a: nat, b: nat)
    requires
        1 <= a < b,
    ensures
        copy_name(s, a) != copy_name(s, b),
{
    reveal_strlit(" copy");
    reveal_strlit(" copy ");
    let x = copy_name(s, a);
    let y = copy_name(s, b);
    crate::json::lemma_decimal_nonempty(b);
    if x == y {
        if a == 1 {
            assert(x.len() == s.len() + 5);
            assert(y.len() >= s.len() + 7);
        } else {
            let k = s.len() + 6;
            assert(x.skip(k as int) =~= decimal(a));
            assert(y.skip(k as int) =~= decimal(b));
            crate::json::lemma_decimal_injective(a, b);
        }
    }
}

/// Among `n` requests at most `n` copy names are taken, so one of the first
/// `n + 1` is free.
pub(crate) proof fn lemma_some_copy_free(requests: Seq<RequestView>, s: Seq<char>, n: nat)
    requires
        forall|k: nat| 1 <= k <= n ==> taken(requests, #[trigger] copy_name(s, k)),
    ensures
        n <= requests.len(),
    decreases requests.len(),
{
    if n > 0 {
        let name = copy_name(s, n);
        assert(taken(requests, name));
        let i = choose|i: int| 0 <= i < requests.len() && (#[trigger] requests[i]).name == name;
        let others = requests.remove(i);
        assert forall|k: nat| 1 <= k <= n - 1 implies taken(others, #[trigger] copy_name(s, k)) by {
            lemma_copy_names_differ(s, k, n);
            let other = copy_name(s, k);
            assert(taken(requests, other));
            let j = choose|j: int| 0 <= j < requests.len() && (#[trigger] requests[j]).name == other;
            if j < i {
                assert(others[j] == requests[j]);
            } else {
                assert(others[j - 1] == requests[j]);
            }
        }
        lemma_some_copy_free(others, s, (n - 1) as nat);
    }
}

/// `"list pets"` becomes `"list pets copy"`, then `"list pets copy 2"`, and so
/// on. A ` copy` suffix on the source is stripped first, so duplicating a
/// duplicate gives `x copy 2` rather than `x copy copy`.
pub fn unique_request_name(requests: &Vec<SavedRequest>, base: &str) -> (r: String)
    ensures
        first_free_copy(views(requests@), base@, r@),
        r@ == free_copy(views(requests@), base@),
{
    let s = copy_stem(base);
    let ghost all = views(requests@);
    let total: usize = requests.len();
    let mut n: u128 = 1;
    loop
        invariant
            1 <= n <= total + 1,
            total == requests@.len(),
            all == views(requests@),
            s@ == stem(base@),
            forall|k: nat| 1 <= k < n ==> taken(all, #[trigger] copy_name(stem(base@), k)),
        decreases total + 1 - n,
    {
        let name = numbered(s, n);
        if !is_taken(requests, name.as_str()) {
            assert(name@ == copy_name(stem(base@), n as nat));
            proof {
                lemma_free_copy(all, base@, name@);
            }
            return name;
        }
        proof {
            assert forall|k: nat| 1 <= k <= n implies taken(all, #[trigger] copy_name(s@, k)) by {
                if k == n {
                    assert(copy_name(s@, k) == name@);
                }
            }
            lemma_some_copy_free(all, s@, n as nat);
        }
        n += 1;
    }
}

/// Where the open request is once another was put in at `at`.
pub open spec fn moved_up(selected: Option<usize>, at: int) -> Option<usize> {
    match selected {
        Some(s) => if s >= at {
            Some((s + 1) as usize)
        } else {
            Some(s)
        },
        None => None,
    }
}

/// Where the open request is once request `i` is gone.
pub open spec fn moved_down(selected: Option<usize>, i: int) -> Option<usize> {
    match selected {
        Some(s) => if s == i {
            None
        } else if s > i {
            Some((s - 1) as usize)
        } else {
            Some(s)
        },
        None => None,
    }
}

fn shifted_up(selected: Option<usize>, at: usize, total: usize) -> (r: Option<usize>)
    requires
        match selected {
            Some(s) => s < total,
            None => true,
        },
    ensures
        r == moved_up(selected, at as int),
{
    match selected {
        Some(s) => if s >= at {
            Some(s + 1)
        } else {
            Some(s)
        },
        None => None,
    }
}

fn shifted_down(selected: Option<usize>, idx: usize) -> (r: Option<usize>)
    ensures
        r == moved_down(selected, idx as int),
{
    match selected {
        Some(s) => if s == idx {
            None
        } else if s > idx {
            Some(s - 1)
        } else {
            Some(s)
        },
        None => None,
    }
}

impl AppView {
    /// The request under the sidebar cursor.
    pub open spec fn highlighted(self) -> Option<int> {
        if self.sidebar_sel < self.sidebar_rows.len() {
            match self.sidebar_rows[self.sidebar_sel as int] {
                SidebarRowView::Request(k) => Some(k),
                SidebarRowView::Group(_) => None,
            }
        } else {
            None
        }
    }

    /// The sidebar worked out anew, with request `i` open and under the cursor.
    pub open spec fn shown(self, i: int) -> AppView {
        self.rebuilt().parked_on(i).opened(i)
    }

    /// `r` put in as request `at`; the open request stays open.
    pub open spec fn with_inserted(self, at: int, r: RequestView) -> AppView {
        AppView {
            selected: moved_up(self.selected, at),
            dirty: true,
            ..self.with_requests(self.collection.requests.insert(at, r))
        }
    }

    /// Request `i` taken out; the open request stays open, unless it is the one.
    pub open spec fn with_removed(self, i: int) -> AppView {
        AppView {
            selected: moved_down(self.selected, i),
            dirty: true,
            textarea: if self.selected == Some(i as usize) {
                BoxView::holding(text_rows(Seq::empty()))
            } else {
                self.textarea
            },
            ..self.with_requests(self.collection.requests.remove(i))
        }
    }

    /// A copy of request `i`, identified by `id`, right behind it and open.
    #[verifier::opaque]
    pub open spec fn duplicated(self, i: int, id: u128) -> AppView {
        let a = self.body_committed();
        let requests = a.collection.requests;
        let name = free_copy(requests, requests[i].name);
        if i >= requests.len() {
            a
        } else {
            a.with_inserted(i + 1, RequestView { id, name, ..requests[i] }).shown(i + 1).told("Duplicated as \""@ + name + "\""@)
        }
    }

    /// Request `i` gone.
    #[verifier::opaque]
    pub open spec fn without_request(self, i: int) -> AppView {
        self.with_removed(i).rebuilt().told("Request deleted"@)
    }
}

impl App {
    fn insert_request(&mut self, at: usize, r: SavedRequest)
        requires
            old(self).lines_wf(),
            old(self)@.selection_exists(),
            at <= old(self)@.collection.requests.len(),
        ensures
            final(self).lines_wf(),
            final(self)@ == old(self)@.with_inserted(at as int, r@),
            final(self)@.selection_exists(),
    {
        self.collection.requests.insert(at, r);
        let total: usize = self.collection.requests.len();
        self.selected = shifted_up(self.selected, at, total);
        self.dirty = true;
    }

    pub(crate) fn show_request(&mut self, idx: usize)
        requires
            old(self).lines_wf(),
            old(self)@.selection_exists(),
            old(self)@.auth_field < MAX_AUTH_FIELDS,
            idx < old(self)@.collection.requests.len(),
        ensures
            final(self).wf(),
            final(self)@ == old(self)@.shown(idx as int),
    {
        self.rebuild_sidebar();
        self.park_on(idx);
        self.select_request(idx);
    }

    fn remove_request(&mut self, idx: usize)
        requires
            old(self).lines_wf(),
            old(self)@.selection_exists(),
            idx < old(self)@.collection.requests.len(),
        ensures
            final(self).lines_wf(),
            final(self)@ == old(self)@.with_removed(idx as int),
            final(self)@.selection_exists(),
    {
        self.collection.requests.remove(idx);
        self.dirty = true;
        let open_one = self.selected == Some(idx);
        self.selected = shifted_down(self.selected, idx);
        if open_one {
            proof {
                reveal_strlit("");
                assert(""@ =~= Seq::<char>::empty());
            }
            self.set_textarea_text("");
        }
    }

    /// Clone the request at `idx` as a starting point: fresh id, name suffixed
    /// `copy` / `copy 2` / …, inserted directly after the original so it lands
    /// beside it in the same sidebar group. Opens the clone.
    pub fn duplicate_request(&mut self, idx: usize)
        requires
            old(self).wf(),
        ensures
            final(self).wf(),
            exists|id: u128|
                is_v4(id) && final(self)@ == #[trigger] old(self)@.duplicated(idx as int, id),
    {
        let id = new_v4();
        self.duplicate_request_as(idx, id);
        assert(self@ == old(self)@.duplicated(idx as int, id));
    }

    /// Clones the request at `idx` under the identifier `id`.
    pub fn duplicate_request_as(&mut self, idx: usize, id: u128)
        requires
            old(self).wf(),
        ensures
            final(self).wf(),
            final(self)@ == old(self)@.duplicated(idx as int, id),
    {
        reveal(AppView::duplicated);
        self.commit_body();
        if idx >= self.collection.requests.len() {
            return;
        }
        let ghost requests = self@.collection.requests;
        assert(requests[idx as int] == self.collection.requests@[idx as int]@);
        let mut clone = self.collection.requests[idx].clone();
        let name = unique_request_name(
            &self.collection.requests,
            self.collection.requests[idx].name.as_str(),
        );
        clone.id = id;
        clone.name = name.clone();
        assert(clone@ == (RequestView { id, name: name@, ..requests[idx as int] }));
        let at: usize = idx + 1;
        self.insert_request(at, clone);
        self.show_request(at);
        let mut status = "Duplicated as \"".to_owned();
        status.append(name.as_str());
        status.append("\"");
        self.status = status;
    }

    /// Deletes the request at `idx`.
    pub fn delete_request(&mut self, idx: usize)
        requires
            old(self).wf(),
            idx < old(self)@.collection.requests.len(),
        ensures
            final(self).wf(),
            final(self)@ == old(self)@.without_request(idx as int),
    {
        reveal(AppView::without_request);
        self.remove_request(idx);
        self.rebuild_sidebar();
        self.status = "Request deleted".to_owned();
    }
}

// ----- opening a collection -----

/// Position of the request with identifier `id`.
pub open spec fn index_of_id(requests: Seq<RequestView>, id: u128, from: int) -> Option<int>
    decreases requests.len() - from,
{
    if from < 0 || from >= requests.len() {
        None
    } else if requests[from].id == id {
        Some(from)
    } else {
        index_of_id(requests, id, from + 1)
    }
}

impl CollectionView {
    /// The request that was open at the last save, if it still exists. Ids are
    /// matched rather than positions, so reordering cannot restore the wrong
    /// request.
    pub open spec fn saved_index(self) -> Option<int> {
        match self.last_request {
            Some(id) => index_of_id(self.requests, id, 0),
            None => None,
        }
    }
}

impl AppView {
    /// Request `i` open with the cursor on it, its group unfolded if need be.
    pub open spec fn restored(self, i: int) -> AppView {
        self.unfolded(i).parked_on(i).opened(i)
    }

    /// The group of request `i` unfolded.
    pub open spec fn unfolded(self, i: int) -> AppView {
        let tag = group_of(self.collection.requests[i]);
        if self.collapsed.contains(tag) {
            AppView { collapsed: self.collapsed.remove(tag), ..self }.rebuilt()
        } else {
            self
        }
    }

    /// Pane and tab from the saved view. Without one, focus is on the sidebar.
    /// Responses are not kept, so a saved Response pane becomes the editor.
    pub open spec fn panes_restored(self) -> AppView {
        AppView {
            tab: match self.collection.last_tab {
                Some(t) => t,
                None => self.tab,
            },
            focus: match self.collection.last_focus {
                Some(f) => if f == Focus::Response && self.response is None {
                    Focus::Editor
                } else {
                    f
                },
                None => Focus::Sidebar,
            },
            ..self
        }
    }
}

/// A collection as it stands before any of its requests is opened.
pub open spec fn listed(collection: CollectionView, path: Seq<char>, config: ConfigView) -> AppView {
    (AppView {
        collapsed: if collection.groups_collapsed {
            groups_in(collection.requests)
        } else {
            Set::empty()
        },
        ..fresh_view(collection, path, config)
    }).rebuilt()
}

impl AppView {
    /// The request that was open at the last save opened, or else the first one.
    pub open spec fn resumed(self) -> AppView {
        if self.collection.requests.len() == 0 {
            self
        } else {
            match self.collection.saved_index() {
                Some(i) => self.restored(i),
                None => self.opened(0),
            }
        }
    }
}

/// The state that a collection is opened in.
pub open spec fn started(collection: CollectionView, path: Seq<char>, config: ConfigView) -> AppView {
    let a = listed(collection, path, config).resumed().panes_restored();
    if collection.requests.len() == 0 {
        a.told("Empty collection — press n to add a request"@)
    } else {
        a
    }
}

impl App {
    fn saved_view_index(&self) -> (r: Option<usize>)
        ensures
            match r {
                Some(i) => self@.collection.saved_index() == Some(i as int) && i
                    < self@.collection.requests.len(),
                None => self@.collection.saved_index() is None,
            },
    {
        let ghost all = self@.collection.requests;
        match self.collection.last_request {
            Some(id) => {
                let mut i: usize = 0;
                while i < self.collection.requests.len()
                    invariant
                        i <= self.collection.requests@.len(),
                        self.collection.last_request == Some(id),
                        all == views(self.collection.requests@),
                        index_of_id(all, id, 0) == index_of_id(all, id, i as int),
                    decreases self.collection.requests@.len() - i,
                {
                    assert(all[i as int] == self.collection.requests@[i as int]@);
                    if self.collection.requests[i].id == id {
                        return Some(i);
                    }
                    i += 1;
                }
                None
            },
            None => None,
        }
    }

    /// Unfolds the group of request `idx`.
    fn unfold_group_of(&mut self, idx: usize)
        requires
            old(self).wf(),
            idx < old(self)@.collection.requests.len(),
        ensures
            final(self).wf(),
            final(self)@ == old(self)@.unfolded(idx as int),
            final(self)@.collection == old(self)@.collection,
    {
        assert(self@.collection.requests[idx as int] == self.collection.requests@[idx as int]@);
        let tag = group_tag(&self.collection.requests[idx]);
        if self.collapsed.contains(tag.as_str()) {
            self.collapsed.remove(tag.as_str());
            assert(self@ == (AppView {
                collapsed: old(self)@.collapsed.remove(tag@),
                ..old(self)@
            }));
            self.rebuild_sidebar();
        }
    }

    fn restore_saved_view(&mut self, idx: usize)
        requires
            old(self).wf(),
            idx < old(self)@.collection.requests.len(),
        ensures
            final(self).wf(),
            final(self)@ == old(self)@.restored(idx as int),
    {
        self.unfold_group_of(idx);
        self.park_on(idx);
        self.select_request(idx);
    }

    fn restore_saved_panes(&mut self)
        requires
            old(self).wf(),
        ensures
            final(self).wf(),
            final(self)@ == old(self)@.panes_restored(),
    {
        match self.collection.last_tab {
            Some(t) => {
                self.tab = t;
            },
            None => {},
        }
        self.focus = match self.collection.last_focus {
            Some(f) => if f == Focus::Response && self.response.is_none() {
                Focus::Editor
            } else {
                f
            },
            None => Focus::Sidebar,
        };
    }

    /// The state on a collection: the request, pane and tab that were open when
    /// it was last saved are restored, failing that the first request is loaded
    /// and focus is on the sidebar.
    pub fn new(collection: Collection, path: String, config: AppConfig) -> (r: Self)
        ensures
            r.wf(),
            r@ == started(collection@, path@, config@),
    {
        let mut app = App::listing_of(collection, path, config);
        let empty = app.collection.requests.len() == 0;
        app.resume();
        app.restore_saved_panes();
        if empty {
            app.status = "Empty collection — press n to add a request".to_owned();
        }
        app
    }

    fn listing_of(collection: Collection, path: String, config: AppConfig) -> (r: Self)
        ensures
            r.wf(),
            r@ == listed(collection@, path@, config@),
            r@.collection == collection@,
    {
        let mut app = App::fresh(collection, path, config);
        let fold = app.collection.groups_collapsed;
        app.fold_groups(fold);
        app.rebuild_sidebar();
        app
    }

    fn resume(&mut self)
        requires
            old(self).wf(),
        ensures
            final(self).wf(),
            final(self)@ == old(self)@.resumed(),
    {
        if self.collection.requests.len() == 0 {
            return;
        }
        match self.saved_view_index() {
            Some(i) => {
                self.restore_saved_view(i);
                return;
            },
            None => {
                self.select_request(0);
                return;
            },
        }
    }

    /// Replace the whole state with a different collection. Everything in the
    /// view is derived from the collection, so a wholesale replacement also
    /// drops what belonged to the old one: its response, its token, its filter.
    pub fn switch_collection(&mut self, collection: Collection, path: String)
        ensures
            final(self).wf(),
            final(self)@ == old(self)@.switched(collection@, path@),
    {
        let name = collection.name.clone();
        let mut config = self.config.clone();
        config.last_collection = Some(name.clone());
        let mut next = App::new(collection, path, config);
        let mut status = "Switched to \"".to_owned();
        status.append(name.as_str());
        status.append("\"");
        next.status = status;
        *self = next;
    }

    /// Copy the current view (open request, pane, editor tab) onto the
    /// collection. Done when saving rather than while navigating: marking the
    /// collection dirty every time the cursor moves would make quitting complain
    /// after a read-only browse.
    pub fn record_view(&mut self)
        requires
            old(self).wf(),
        ensures
            final(self).wf(),
            final(self)@ == old(self)@.view_recorded(),
    {
        let open: Option<u128> = match self.selected_request() {
            Some(r) => Some(r.id),
            None => None,
        };
        self.collection.last_request = open;
        self.collection.last_focus = Some(self.focus);
        self.collection.last_tab = Some(self.tab);
    }
}

impl AppView {
    pub open spec fn switched(self, collection: CollectionView, path: Seq<char>) -> AppView {
        started(
            collection,
            path,
            ConfigView { last_collection: Some(collection.name), ..self.config },
        ).told("Switched to \""@ + collection.name + "\""@)
    }

    pub open spec fn view_recorded(self) -> AppView {
        AppView {
            collection: CollectionView {
                last_request: match self.request() {
                    Some(r) => Some(r.id),
                    None => None,
                },
                last_focus: Some(self.focus),
                last_tab: Some(self.tab),
                ..self.collection
            },
            ..self
        }
    }
}

// ----- laws -----

/// The rows show only requests that exist, and every request that passes the
/// filter unless its group is folded; while filtering nothing is hidden.
pub proof fn lemma_listing(
    requests: Seq<RequestView>,
    filter: Seq<char>,
    collapsed: Set<Seq<char>>,
    k: int,
)
    requires
        0 <= k < requests.len(),
    ensures
        rows_in_range(listing(requests, filter, collapsed).rows, requests.len()),
        listing(requests, filter, collapsed).rows.contains(SidebarRowView::Request(k)) <==> (if filter.len()
            > 0 {
            request_matches(requests[k], filter)
        } else {
            !collapsed.contains(group_of(requests[k]))
        }),
    decreases requests.len(),
{
    let before = listing(requests.drop_last(), filter, collapsed).rows;
    let rows = listing(requests, filter, collapsed).rows;
    let n = requests.len() - 1;
    lemma_listing_range(requests, filter, collapsed);
    lemma_listing_range(requests.drop_last(), filter, collapsed);
    if k < n {
        lemma_listing(requests.drop_last(), filter, collapsed, k);
        if before.contains(SidebarRowView::Request(k)) {
            let i = choose|i: int| 0 <= i < before.len() && before[i] == SidebarRowView::Request(k);
            assert(rows[i] == SidebarRowView::Request(k));
        }
        if rows.contains(SidebarRowView::Request(k)) {
            let i = choose|i: int| 0 <= i < rows.len() && rows[i] == SidebarRowView::Request(k);
            assert(i < before.len());
            assert(before[i] == SidebarRowView::Request(k));
        }
    } else {
        if rows.contains(SidebarRowView::Request(k)) {
            let i = choose|i: int| 0 <= i < rows.len() && rows[i] == SidebarRowView::Request(k);
            if i < before.len() {
                assert(before[i] == rows[i]);
            }
        }
        if (filter.len() > 0 && request_matches(requests[k], filter)) || (filter.len() == 0
            && !collapsed.contains(group_of(requests[k]))) {
            assert(rows[rows.len() - 1] == SidebarRowView::Request(k));
        }
    }
}

proof fn lemma_listing_range(
    requests: Seq<RequestView>,
    filter: Seq<char>,
    collapsed: Set<Seq<char>>,
)
    ensures
        rows_in_range(listing(requests, filter, collapsed).rows, requests.len()),
    decreases requests.len(),
{
    if requests.len() > 0 {
        lemma_listing_range(requests.drop_last(), filter, collapsed);
        let before = listing(requests.drop_last(), filter, collapsed).rows;
        let rows = listing(requests, filter, collapsed).rows;
        assert forall|i: int| 0 <= i < rows.len() implies match #[trigger] rows[i] {
            SidebarRowView::Request(k) => 0 <= k < requests.len(),
            SidebarRowView::Group(_) => true,
        } by {
            if i < before.len() {
                assert(rows[i] == before[i]);
            }
        }
    }
}

/// Opening what was saved: after the view was recorded, the collection opens on
/// the same request, provided no two requests share an identifier.
pub proof fn lemma_saved_view_comes_back(a: AppView, i: usize)
    requires
        a.sound(),
        a.selected == Some(i),
        forall|j: int, k: int|
            0 <= j < k < a.collection.requests.len() ==> (#[trigger] a.collection.requests[j]).id != (
            #[trigger] a.collection.requests[k]).id,
    ensures
        a.view_recorded().collection.saved_index() == Some(i as int),
{
    lemma_index_of_id(a.collection.requests, i as int, 0);
}

proof fn lemma_index_of_id(requests: Seq<RequestView>, i: int, from: int)
    requires
        0 <= from <= i < requests.len(),
        forall|j: int, k: int|
            0 <= j < k < requests.len() ==> (#[trigger] requests[j]).id != (
            #[trigger] requests[k]).id,
    ensures
        index_of_id(requests, requests[i].id, from) == Some(i),
    decreases i - from,
{
    if from < i {
        assert(requests[from].id != requests[i].id);
        lemma_index_of_id(requests, i, from + 1);
    }
}

} // verus!
