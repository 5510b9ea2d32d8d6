//! The requests of a collection: listing, filtering, adding, copying and deleting.

use vstd::prelude::*;

use crate::app::kinds::{EditTarget, Mode, SidebarRowView};
use crate::app::sidebar::{
    copy_name, count_requests, first_free_copy, free_copy, group_of, index_of_id, lemma_free_copy,
    lemma_some_copy_free, listing, request_row_from, row_of_from, stem, taken,
    without_digits,
};
use crate::app::state::{body_from, text_rows, AppView};
use crate::app::text_box::BoxView;
use crate::json::lemma_decimal_nonempty;
use crate::laws::numbers::lemma_decimals_read_back;
use crate::model::{request_matches, Method, RequestView};
use crate::text::{decimal, ends_with, is_digit};

verus! {

// ----- places -----

/// The place of an identifier is the first request that has it.
pub proof fn lemma_place_of_id(requests: Seq<RequestView>, i: int)
    requires
        0 <= i < requests.len(),
        forall|j: int| 0 <= j < i ==> (#[trigger] requests[j]).id != requests[i].id,
    ensures
        index_of_id(requests, requests[i].id, 0) == Some(i),
{
    lemma_place_from(requests, i, 0);
}

proof fn lemma_place_from(requests: Seq<RequestView>, i: int, from: int)
    requires
        0 <= from <= i < requests.len(),
        forall|j: int| 0 <= j < i ==> (#[trigger] requests[j]).id != requests[i].id,
    ensures
        index_of_id(requests, requests[i].id, from) == Some(i),
    decreases i - from,
{
    if from < i {
        assert(requests[from].id != requests[i].id);
        lemma_place_from(requests, i, from + 1);
    }
}

// ----- the sidebar -----

/// Whether request `k` passes the filter.
pub open spec fn passes(requests: Seq<RequestView>, filter: Seq<char>, k: int) -> bool {
    0 <= k < requests.len() && (filter.len() == 0 || request_matches(requests[k], filter))
}

/// Whether some request of group `tag` passes the filter.
pub open spec fn group_shown(requests: Seq<RequestView>, filter: Seq<char>, tag: Seq<char>) -> bool {
    exists|k: int| #[trigger] passes(requests, filter, k) && group_of(requests[k]) == tag
}

/// A group is shown just when one of its requests passes the filter, folded or not,
/// and no group is shown twice.
pub proof fn lemma_groups_are_listed(
    requests: Seq<RequestView>,
    filter: Seq<char>,
    collapsed: Set<Seq<char>>,
    tag: Seq<char>,
)
    ensures
        ({
            let l = listing(requests, filter, collapsed);
            &&& l.rows.contains(SidebarRowView::Group(tag)) <==> group_shown(requests, filter, tag)
            &&& l.groups.contains(tag) <==> group_shown(requests, filter, tag)
            &&& forall|i: int, j: int|
                0 <= i < j < l.rows.len() && #[trigger] l.rows[i] == SidebarRowView::Group(tag)
                    ==> #[trigger] l.rows[j] != SidebarRowView::Group(tag)
        }),
    decreases requests.len(),
{
    let l = listing(requests, filter, collapsed);
    if requests.len() > 0 {
        let init = requests.drop_last();
        let n = requests.len() - 1;
        let before = listing(init, filter, collapsed);
        let own = group_of(requests.last());
        lemma_groups_are_listed(init, filter, collapsed, tag);
        if group_shown(init, filter, tag) {
            let k = choose|k: int| #[trigger]
                passes(init, filter, k) && group_of(init[k]) == tag;
            assert(passes(requests, filter, k) && group_of(requests[k]) == tag);
        }
        if group_shown(requests, filter, tag) {
            let k = choose|k: int| #[trigger]
                passes(requests, filter, k) && group_of(requests[k]) == tag;
            if k < n {
                assert(passes(init, filter, k) && group_of(init[k]) == tag);
            } else {
                assert(own == tag);
            }
        }
        if passes(requests, filter, n) {
            lemma_groups_are_listed(init, filter, collapsed, own);
            let headed = if before.groups.contains(own) {
                before.rows
            } else {
                before.rows.push(SidebarRowView::Group(own))
            };
            lemma_pushed(before.rows, SidebarRowView::Group(own), SidebarRowView::Group(tag));
            lemma_pushed(
                headed,
                SidebarRowView::Request(n),
                SidebarRowView::Group(tag),
            );
            lemma_pushed_tags(before.groups, own, tag);
            if own == tag {
                assert(passes(requests, filter, n) && group_of(requests[n]) == tag);
            }
            assert forall|i: int, j: int|
                0 <= i < j < l.rows.len() && #[trigger] l.rows[i] == SidebarRowView::Group(
                    tag,
                ) implies #[trigger] l.rows[j] != SidebarRowView::Group(tag) by {
                if j < before.rows.len() {
                    assert(before.rows[i] == l.rows[i] && before.rows[j] == l.rows[j]);
                } else if i < before.rows.len() {
                    assert(before.rows[i] == l.rows[i]);
                    assert(before.rows.contains(SidebarRowView::Group(tag)));
                }
            }
        }
    }
}

proof fn lemma_pushed(rows: Seq<SidebarRowView>, row: SidebarRowView, x: SidebarRowView)
    ensures
        rows.push(row).contains(x) <==> (row == x || rows.contains(x)),
{
    let all = rows.push(row);
    if rows.contains(x) {
        let i = choose|i: int| 0 <= i < rows.len() && rows[i] == x;
        assert(all[i] == x);
    }
    if row == x {
        assert(all[rows.len() as int] == x);
    }
    if all.contains(x) {
        let i = choose|i: int| 0 <= i < all.len() && all[i] == x;
        if i < rows.len() {
            assert(rows[i] == x);
        }
    }
}

proof fn lemma_pushed_tags(tags: Seq<Seq<char>>, tag: Seq<char>, x: Seq<char>)
    ensures
        tags.push(tag).contains(x) <==> (tag == x || tags.contains(x)),
{
    let all = tags.push(tag);
    if tags.contains(x) {
        let i = choose|i: int| 0 <= i < tags.len() && tags[i] == x;
        assert(all[i] == x);
    }
    if tag == x {
        assert(all[tags.len() as int] == x);
    }
    if all.contains(x) {
        let i = choose|i: int| 0 <= i < all.len() && all[i] == x;
        if i < tags.len() {
            assert(tags[i] == x);
        }
    }
}

/// Requests are listed in the order of the collection, each once.
pub proof fn lemma_requests_in_order(
    requests: Seq<RequestView>,
    filter: Seq<char>,
    collapsed: Set<Seq<char>>,
)
    ensures
        ({
            let rows = listing(requests, filter, collapsed).rows;
            &&& forall|i: int, j: int|
                0 <= i < j < rows.len() && (#[trigger] rows[i]) is Request && (#[trigger] rows[j]) is Request
                    ==> rows[i]->Request_0 < rows[j]->Request_0
            &&& forall|i: int|
                0 <= i < rows.len() && (#[trigger] rows[i]) is Request ==> rows[i]->Request_0
                    < requests.len()
        }),
    decreases requests.len(),
{
    if requests.len() > 0 {
        let init = requests.drop_last();
        lemma_requests_in_order(init, filter, collapsed);
        let before = listing(init, filter, collapsed).rows;
        let rows = listing(requests, filter, collapsed).rows;
        assert forall|i: int| 0 <= i < before.len() implies #[trigger] rows[i] == before[i] by {}
        assert forall|i: int, j: int|
            0 <= i < j < rows.len() && (#[trigger] rows[i]) is Request && (#[trigger] rows[j]) is Request implies rows[i]->Request_0
            < rows[j]->Request_0 by {
            if j < before.len() {
                assert(before[i] == rows[i] && before[j] == rows[j]);
            } else if i < before.len() {
                assert(before[i] == rows[i]);
            }
        }
        assert forall|i: int| 0 <= i < rows.len() && (#[trigger] rows[i]) is Request implies rows[i]->Request_0
            < requests.len() by {
            if i < before.len() {
                assert(before[i] == rows[i]);
            }
        }
    }
}

/// A search filters by what was typed and puts the cursor on the first request that
/// is left.
pub proof fn lemma_search(a: AppView)
    ensures
        ({
            let b = a.search_applied();
            &&& b.filter == a.search.text
            &&& b.sidebar_rows == listing(a.collection.requests, a.search.text, a.collapsed).rows
            &&& b.collection == a.collection
            &&& b.selected == a.selected
            &&& request_row_from(b.sidebar_rows, 0) matches Some(i) ==> b.sidebar_sel == i as usize
        }),
{
    reveal(AppView::search_applied);
    reveal(AppView::rebuilt);
}

/// The first request among the rows is a request, and only groups stand before it.
pub proof fn lemma_first_request_row(rows: Seq<SidebarRowView>, from: int)
    requires
        0 <= from,
    ensures
        match request_row_from(rows, from) {
            Some(i) => from <= i < rows.len() && rows[i] is Request && forall|k: int|
                from <= k < i ==> (#[trigger] rows[k]) is Group,
            None => forall|k: int| from <= k < rows.len() ==> (#[trigger] rows[k]) is Group,
        },
    decreases rows.len() - from,
{
    if from < rows.len() && !(rows[from] is Request) {
        lemma_first_request_row(rows, from + 1);
    }
}

/// Clearing the filter shows everything again.
pub proof fn lemma_filter_cleared(a: AppView)
    requires
        a.filter.len() > 0,
    ensures
        a.filter_cleared().filter.len() == 0,
        a.filter_cleared().sidebar_rows == listing(
            a.collection.requests,
            Seq::empty(),
            a.collapsed,
        ).rows,
        a.filter_cleared().collection == a.collection,
{
    reveal(AppView::filter_cleared);
    reveal(AppView::rebuilt);
}

/// Activating a group folds or unfolds it; activating a request opens it.
pub proof fn lemma_activating(a: AppView)
    requires
        a.sidebar_sel < a.sidebar_rows.len(),
        a.selection_exists(),
    ensures
        match a.sidebar_rows[a.sidebar_sel as int] {
            SidebarRowView::Group(tag) => {
                let b = a.activated();
                &&& b.collapsed.contains(tag) == !a.collapsed.contains(tag)
                &&& forall|t: Seq<char>|
                    t != tag ==> (b.collapsed.contains(t) <==> #[trigger] a.collapsed.contains(t))
                &&& b.selected == a.selected
                &&& b.collection == a.collection
            },
            SidebarRowView::Request(k) => a.activated().selected == Some(k as usize),
        },
{
    reveal(AppView::activated);
    reveal(AppView::rebuilt);
    reveal(AppView::opened);
}

/// Opening a request shows its body and starts at the top of its tables and docs.
pub proof fn lemma_opening(a: AppView, k: int)
    requires
        a.selection_exists(),
        0 <= k < a.collection.requests.len() <= usize::MAX,
        a.selected != Some(k as usize),
    ensures
        ({
            let b = a.opened(k);
            &&& b.selected == Some(k as usize)
            &&& b.table_row == 0
            &&& b.docs_scroll == 0
            &&& b.textarea == BoxView::holding(
                text_rows(
                    match a.collection.requests[k].body {
                        Some(t) => t,
                        None => Seq::empty(),
                    },
                ),
            )
            &&& b.collection.requests[k] == a.collection.requests[k]
            &&& a.selected matches Some(i) ==> b.collection.requests[i as int].body == body_from(
                a.textarea.lines,
            )
        }),
{
    reveal(AppView::opened);
}

// ----- adding, copying, deleting -----

proof fn lemma_committed_twice(a: AppView)
    requires
        a.selection_exists(),
    ensures
        a.body_committed().body_committed() == a.body_committed(),
        a.body_committed().selection_exists(),
        a.body_committed().collection.requests.len() == a.collection.requests.len(),
{
}

/// A copy stands right behind its original, equal to it but for its identifier and
/// its name; every other request stays, and the copy is open.
pub proof fn lemma_copies(a: AppView, i: int, id: u128)
    requires
        a.selection_exists(),
        0 <= i < a.collection.requests.len() < usize::MAX,
    ensures
        ({
            let before = a.body_committed().collection.requests;
            let b = a.duplicated(i, id);
            let after = b.collection.requests;
            let name = free_copy(before, before[i].name);
            &&& after.len() == before.len() + 1
            &&& after[i + 1] == (RequestView { id, name, ..before[i] })
            &&& forall|k: int| 0 <= k <= i ==> #[trigger] after[k] == before[k]
            &&& forall|k: int| i + 1 < k < after.len() ==> #[trigger] after[k] == before[k - 1]
            &&& b.selected == Some((i + 1) as usize)
            &&& b.dirty
        }),
{
    reveal(AppView::duplicated);
    reveal(AppView::rebuilt);
    reveal(AppView::opened);
    lemma_committed_twice(a);
    let c = a.body_committed();
    let requests = c.collection.requests;
    let name = free_copy(requests, requests[i].name);
    let copy = RequestView { id, name, ..requests[i] };
    let d = c.with_inserted(i + 1, copy).rebuilt().parked_on(i + 1);
    assert(d.collection.requests == requests.insert(i + 1, copy));
    match d.selected {
        Some(s) => {
            let t = c.selected->0;
            assert(d.collection.requests[s as int] == requests[t as int]);
            assert(d.body_committed() == d);
        },
        None => {},
    }
}

proof fn lemma_free_name(requests: Seq<RequestView>, base: Seq<char>, n: nat)
    requires
        n >= 1,
        forall|k: nat| 1 <= k < n ==> taken(requests, #[trigger] copy_name(stem(base), k)),
    ensures
        first_free_copy(requests, base, free_copy(requests, base)),
    decreases requests.len() + 1 - n,
{
    let name = copy_name(stem(base), n);
    if taken(requests, name) {
        assert forall|k: nat| 1 <= k <= n implies taken(
            requests,
            #[trigger] copy_name(stem(base), k),
        ) by {
            if k == n {
                assert(copy_name(stem(base), k) == name);
            }
        }
        lemma_some_copy_free(requests, stem(base), n);
        lemma_free_name(requests, base, n + 1);
    } else {
        assert(first_free_copy(requests, base, name));
        lemma_free_copy(requests, base, name);
    }
}

/// The name of a copy is no other request's.
pub proof fn lemma_copy_names_are_free(requests: Seq<RequestView>, base: Seq<char>, k: int)
    requires
        0 <= k < requests.len(),
    ensures
        requests[k].name != free_copy(requests, base),
        !taken(requests, stem(base) + " copy"@) ==> free_copy(requests, base) == stem(base)
            + " copy"@,
{
    lemma_free_name(requests, base, 1);
    let name = free_copy(requests, base);
    assert(!taken(requests, name));
    if !taken(requests, stem(base) + " copy"@) {
        assert(copy_name(stem(base), 1) == stem(base) + " copy"@);
        assert(first_free_copy(requests, base, stem(base) + " copy"@));
        lemma_free_copy(requests, base, stem(base) + " copy"@);
    }
}

/// The name of a first copy ends in ` copy`; a further one is numbered.
pub proof fn lemma_copy_names(base: Seq<char>, n: nat)
    ensures
        copy_name(base, 1) == base + " copy"@,
        n > 1 ==> copy_name(base, n) == base + " copy "@ + decimal(n),
{
}

/// A copy of a copy is named after the original.
pub proof fn lemma_copies_of_copies(base: Seq<char>)
    ensures
        stem(base + " copy"@) == base,
{
    reveal_strlit(" copy");
    let name = base + " copy"@;
    assert(name.subrange(name.len() - 5, name.len() as int) =~= " copy"@);
    assert(name.take(name.len() - 5) =~= base);
}

proof fn lemma_digits_go(s: Seq<char>, digits: Seq<char>)
    requires
        forall|i: int| 0 <= i < digits.len() ==> is_digit(#[trigger] digits[i]),
    ensures
        without_digits(s + digits) == without_digits(s),
    decreases digits.len(),
{
    if digits.len() > 0 {
        let init = digits.drop_last();
        assert((s + digits).last() == digits[digits.len() - 1]);
        assert((s + digits).drop_last() =~= s + init);
        assert forall|i: int| 0 <= i < init.len() implies is_digit(#[trigger] init[i]) by {
            assert(init[i] == digits[i]);
        }
        lemma_digits_go(s, init);
    } else {
        assert(s + digits =~= s);
    }
}

/// A copy of a numbered copy is named after the original too.
pub proof fn lemma_copies_of_numbered_copies(base: Seq<char>, n: nat)
    ensures
        stem(base + " copy "@ + decimal(n)) == base,
{
    reveal_strlit(" copy");
    reveal_strlit(" copy ");
    lemma_decimals_read_back(n);
    lemma_decimal_nonempty(n);
    let bare = base + " copy "@;
    let name = bare + decimal(n);
    lemma_digits_go(bare, decimal(n));
    assert(bare.last() == ' ');
    assert(without_digits(bare) == bare);
    assert(bare.subrange(bare.len() - 6, bare.len() as int) =~= " copy "@);
    assert(bare.take(bare.len() - 6) =~= base);
    let d = decimal(n);
    assert(is_digit(d[d.len() - 1]));
    assert(name.last() == d[d.len() - 1]);
    if ends_with(name, " copy"@) {
        assert(name.subrange(name.len() - 5, name.len() as int)[4] == name.last());
    }
}

/// Deleting a request removes it alone; what was open stays open unless it is the
/// one.
pub proof fn lemma_deleting(a: AppView, i: int)
    requires
        a.selection_exists(),
        0 <= i < a.collection.requests.len() <= usize::MAX,
    ensures
        ({
            let b = a.without_request(i);
            &&& b.collection.requests == a.collection.requests.remove(i)
            &&& b.dirty
            &&& a.selected == Some(i as usize) ==> b.selected is None
            &&& (a.selected is Some && a.selected->0 < i) ==> b.selected == a.selected
            &&& (a.selected is Some && a.selected->0 > i) ==> b.selected == Some(
                (a.selected->0 - 1) as usize,
            )
            &&& b.collection.variables == a.collection.variables
            &&& b.collection.servers == a.collection.servers
        }),
{
    reveal(AppView::without_request);
    reveal(AppView::rebuilt);
}

/// A new request is `GET /` under the name given, stands last and is open with its
/// URL to be typed; without a name none is made.
pub proof fn lemma_adding(a: AppView, name: Seq<char>, id: u128)
    requires
        a.selection_exists(),
        a.collection.requests.len() < usize::MAX,
        a.body_committed() == a,
    ensures
        name.len() == 0 ==> a.request_added(name, id) == a,
        name.len() > 0 ==> ({
            let b = a.request_added(name, id);
            let n = a.collection.requests.len() as int;
            &&& b.collection.requests.len() == n + 1
            &&& b.collection.requests[n].name == name
            &&& b.collection.requests[n].id == id
            &&& b.collection.requests[n].method == Method::Get
            &&& b.collection.requests[n].path == "/"@
            &&& b.collection.requests[n].body is None
            &&& forall|k: int|
                0 <= k < n ==> #[trigger] b.collection.requests[k] == a.collection.requests[k]
            &&& b.selected == Some(n as usize)
            &&& b.editing == Some(EditTarget::Url)
            &&& b.mode == Mode::Insert
            &&& b.dirty
        }),
{
    reveal(AppView::request_added);
    reveal(AppView::rebuilt);
    reveal(AppView::opened);
    reveal(AppView::edit_started);
    if name.len() > 0 {
        let n = a.collection.requests.len() as int;
        let r = crate::model::blank_request(name, id);
        let d = a.with_appended(r).rebuilt().parked_on(n);
        assert(d.collection.requests == a.collection.requests.push(r));
        match a.selected {
            Some(s) => {
                assert(d.collection.requests[s as int] == a.collection.requests[s as int]);
                if a.collection.requests[s as int].body != body_from(a.textarea.lines) {
                    assert(a.body_committed().collection.requests[s as int].body == body_from(
                        a.textarea.lines,
                    ));
                }
                assert(d.body_committed() == d);
            },
            None => {},
        }
    }
}

// ----- the cursor of the sidebar -----

/// The cursor stays where it is as long as there is a row, and else goes to the last
/// one.
pub proof fn lemma_cursor_stays(a: AppView)
    requires
        listing(a.collection.requests, a.filter, a.collapsed).rows.len() <= usize::MAX,
    ensures
        ({
            let n = listing(a.collection.requests, a.filter, a.collapsed).rows.len();
            let b = a.rebuilt();
            &&& b.sidebar_rows.len() == n
            &&& a.sidebar_sel < n ==> b.sidebar_sel == a.sidebar_sel
            &&& a.sidebar_sel >= n && n > 0 ==> b.sidebar_sel == n - 1
        }),
{
    reveal(AppView::rebuilt);
}

/// The cursor is put on a request wherever the sidebar shows it.
pub proof fn lemma_cursor_on_request(a: AppView, k: int, i: int)
    requires
        0 <= i < a.sidebar_rows.len() <= usize::MAX,
        a.sidebar_rows[i] == SidebarRowView::Request(k),
        forall|j: int| 0 <= j < i ==> #[trigger] a.sidebar_rows[j] != SidebarRowView::Request(k),
    ensures
        a.parked_on(k) == (AppView { sidebar_sel: i as usize, ..a }),
{
    lemma_row_place(a.sidebar_rows, k, i, 0);
}

proof fn lemma_row_place(rows: Seq<SidebarRowView>, k: int, i: int, from: int)
    requires
        0 <= from <= i < rows.len(),
        rows[i] == SidebarRowView::Request(k),
        forall|j: int| 0 <= j < i ==> #[trigger] rows[j] != SidebarRowView::Request(k),
    ensures
        row_of_from(rows, k, from) == Some(i),
    decreases i - from,
{
    if from < i {
        assert(rows[from] != SidebarRowView::Request(k));
        lemma_row_place(rows, k, i, from + 1);
    }
}

/// The number of requests among the rows is that of a first part and a second.
pub proof fn lemma_requests_counted(
    a: Seq<SidebarRowView>,
    b: Seq<SidebarRowView>,
    k: int,
    tag: Seq<char>,
)
    ensures
        count_requests(a + b) == count_requests(a) + count_requests(b),
        count_requests(seq![SidebarRowView::Request(k)]) == 1,
        count_requests(seq![SidebarRowView::Group(tag)]) == 0,
    decreases b.len(),
{
    let r = seq![SidebarRowView::Request(k)];
    let g = seq![SidebarRowView::Group(tag)];
    assert(count_requests(r.drop_last()) == 0);
    assert(count_requests(g.drop_last()) == 0);
    if b.len() == 0 {
        assert(a + b =~= a);
    } else {
        lemma_requests_counted(a, b.drop_last(), k, tag);
        assert((a + b).drop_last() =~= a + b.drop_last());
    }
}

/// A request that is brought back is not left hidden in a folded group.
pub proof fn lemma_restored_requests_show(a: AppView, i: int)
    requires
        0 <= i < a.collection.requests.len() <= usize::MAX,
    ensures
        !a.unfolded(i).collapsed.contains(group_of(a.collection.requests[i])),
        a.restored(i).selected == Some(i as usize),
        !a.restored(i).collapsed.contains(group_of(a.collection.requests[i])),
{
    reveal(AppView::rebuilt);
    reveal(AppView::opened);
}

} // verus!
