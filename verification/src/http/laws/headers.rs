//! The headers of a request that goes out.

use vstd::prelude::*;

use crate::http::client;
use crate::http::client::{
    live, named, prepared, row_headers, valid_name, valid_value, with_extra,
    FaultView, Pairs, TextsView,
};
use crate::model::{RequestView, RowView};
use crate::text::lower;

verus! {

// ----- setting one header -----

/// Setting a header leaves it with that value and no other, and leaves every other
/// header as it is.
pub proof fn lemma_set(h: Pairs, name: Seq<char>, value: Seq<char>, other: (Seq<char>, Seq<char>))
    requires
        distinct(h),
    ensures
        distinct(client::set(h, name, value)),
        client::set(h, name, value).contains((name, value)),
        other.0 != name ==> (client::set(h, name, value).contains(other) <==> h.contains(other)),
        other.0 == name && other.1 != value ==> !client::set(h, name, value).contains(other),
        forall|n: Seq<char>|
            named(client::set(h, name, value), n) <==> (n == name || #[trigger] named(h, n)),
    decreases h.len(),
{
    let after = client::set(h, name, value);
    if h.len() == 0 {
        assert(after[0] == (name, value));
        assert forall|n: Seq<char>| named(after, n) <==> (n == name || #[trigger] named(h, n)) by {
            if n == name {
                assert(after[0].0 == n);
            }
        }
    } else if h[0].0 == name {
        assert(after[0] == (name, value));
        assert forall|i: int, j: int| 0 <= i < j < after.len() implies (#[trigger] after[i]).0 != (
        #[trigger] after[j]).0 by {
            assert(h[i].0 != h[j].0);
        }
        if other.0 != name {
            if h.contains(other) {
                let i = choose|i: int| 0 <= i < h.len() && h[i] == other;
                assert(after[i] == other);
            }
            if after.contains(other) {
                let i = choose|i: int| 0 <= i < after.len() && after[i] == other;
                assert(h[i] == other);
            }
        }
        if other.0 == name && after.contains(other) {
            let i = choose|i: int| 0 <= i < after.len() && after[i] == other;
            if i > 0 {
                assert(h[0].0 != h[i].0);
            }
        }
        assert forall|n: Seq<char>| named(after, n) <==> (n == name || #[trigger] named(h, n)) by {
            if named(after, n) {
                let i = choose|i: int| 0 <= i < after.len() && (#[trigger] after[i]).0 == n;
                assert(h[i].0 == n);
            }
            if named(h, n) {
                let i = choose|i: int| 0 <= i < h.len() && (#[trigger] h[i]).0 == n;
                assert(after[i].0 == n);
            }
            if n == name {
                assert(after[0].0 == n);
            }
        }
    } else {
        let rest = h.skip(1);
        let more = client::set(rest, name, value);
        assert forall|i: int, j: int| 0 <= i < j < rest.len() implies (#[trigger] rest[i]).0 != (
        #[trigger] rest[j]).0 by {
            assert(h[i + 1].0 != h[j + 1].0);
        }
        lemma_set(rest, name, value, other);
        assert forall|i: int| 0 <= i < more.len() implies after[i + 1] == #[trigger] more[i] by {}
        assert forall|n: Seq<char>| named(after, n) <==> (n == name || #[trigger] named(h, n)) by {
            assert(named(more, n) <==> (n == name || named(rest, n)));
            if named(after, n) {
                let i = choose|i: int| 0 <= i < after.len() && (#[trigger] after[i]).0 == n;
                if i == 0 {
                    assert(h[0].0 == n);
                } else {
                    assert(more[i - 1].0 == n);
                    if named(rest, n) {
                        let k = choose|k: int| 0 <= k < rest.len() && (#[trigger] rest[k]).0 == n;
                        assert(h[k + 1].0 == n);
                    }
                }
            }
            if named(h, n) {
                let i = choose|i: int| 0 <= i < h.len() && (#[trigger] h[i]).0 == n;
                if i == 0 {
                    assert(after[0].0 == n);
                } else {
                    assert(rest[i - 1].0 == n);
                    let k = choose|k: int| 0 <= k < more.len() && (#[trigger] more[k]).0 == n;
                    assert(after[k + 1].0 == n);
                }
            }
            if n == name {
                let k = choose|k: int| 0 <= k < more.len() && (#[trigger] more[k]).0 == n;
                assert(after[k + 1].0 == n);
            }
        }
        assert forall|i: int, j: int| 0 <= i < j < after.len() implies (#[trigger] after[i]).0 != (
        #[trigger] after[j]).0 by {
            assert(after[j] == more[j - 1]);
            if i > 0 {
                assert(after[i] == more[i - 1]);
            } else if after[j].0 == after[0].0 {
                assert(named(more, h[0].0));
                assert(named(rest, h[0].0));
                let k = choose|k: int| 0 <= k < rest.len() && (#[trigger] rest[k]).0 == h[0].0;
                assert(h[k + 1].0 == h[0].0);
            }
        }
        let k = choose|k: int| 0 <= k < more.len() && more[k] == (name, value);
        assert(after[k + 1] == (name, value));
        lemma_contains_front(h, other);
        lemma_contains_front(after, other);
        assert(after.skip(1) =~= more);
        assert(after[0] == h[0]);
    }
}

proof fn lemma_contains_front(h: Pairs, p: (Seq<char>, Seq<char>))
    requires
        h.len() > 0,
    ensures
        h.contains(p) <==> (h[0] == p || h.skip(1).contains(p)),
{
    if h.contains(p) {
        let i = choose|i: int| 0 <= i < h.len() && h[i] == p;
        if i > 0 {
            assert(h.skip(1)[i - 1] == p);
        }
    }
    if h.skip(1).contains(p) {
        let i = choose|i: int| 0 <= i < h.skip(1).len() && h.skip(1)[i] == p;
        assert(h[i + 1] == p);
    }
}

/// Whether no header name occurs twice.
pub open spec fn distinct(h: Pairs) -> bool {
    forall|i: int, j: int| 0 <= i < j < h.len() ==> (#[trigger] h[i]).0 != (#[trigger] h[j]).0
}

// ----- the request's own headers -----

/// Whether row `i` is the last of its name, whatever the case of its letters.
pub open spec fn last_header(pairs: Pairs, i: int) -> bool {
    0 <= i < pairs.len() && forall|j: int|
        i < j < pairs.len() ==> lower((#[trigger] pairs[j]).0) != lower(pairs[i].0)
}

/// Every live header row is sent, under its name in small letters; where a name
/// occurs twice the later value counts.
pub proof fn lemma_every_header_row_is_sent(rows: Seq<RowView>, pairs: Pairs, i: int)
    requires
        rows.len() == pairs.len(),
        row_headers(rows, pairs) is Ok,
    ensures
        distinct(row_headers(rows, pairs)->Ok_0),
        last_header(pairs, i) ==> row_headers(rows, pairs)->Ok_0.contains(
            (lower(pairs[i].0), pairs[i].1),
        ),
        forall|p: (Seq<char>, Seq<char>)| #[trigger]
            row_headers(rows, pairs)->Ok_0.contains(p) ==> comes_from(pairs, p),
    decreases rows.len(),
{
    let all = row_headers(rows, pairs)->Ok_0;
    if rows.len() > 0 {
        let init = pairs.drop_last();
        let n = pairs.len() - 1;
        let h = row_headers(rows.drop_last(), init)->Ok_0;
        let name = lower(pairs.last().0);
        let value = pairs.last().1;
        lemma_every_header_row_is_sent(rows.drop_last(), init, i);
        lemma_set(h, name, value, (name, value));
        if last_header(pairs, i) {
            if i < n {
                assert(lower(pairs[n].0) != lower(pairs[i].0));
                assert forall|j: int| i < j < init.len() implies lower((#[trigger] init[j]).0) != lower(
                    init[i].0,
                ) by {
                    assert(init[j] == pairs[j]);
                }
                lemma_set(h, name, value, (lower(pairs[i].0), pairs[i].1));
            }
        }
        assert forall|p: (Seq<char>, Seq<char>)| #[trigger] all.contains(p) implies comes_from(
            pairs,
            p,
        ) by {
            lemma_set(h, name, value, p);
            if p.0 != name {
                assert(h.contains(p));
                assert(comes_from(init, p));
                let j = choose|j: int|
                    0 <= j < init.len() && p == (lower((#[trigger] init[j]).0), init[j].1);
                assert(pairs[j] == init[j]);
            } else {
                assert(p == (lower(pairs[n].0), pairs[n].1));
            }
        }
    }
}

/// Whether `p` is the header that one of `pairs` makes.
pub open spec fn comes_from(pairs: Pairs, p: (Seq<char>, Seq<char>)) -> bool {
    exists|j: int| 0 <= j < pairs.len() && p == (lower((#[trigger] pairs[j]).0), pairs[j].1)
}

/// Whether row `i` cannot be sent.
pub open spec fn is_bad(pairs: Pairs, i: int) -> bool {
    !valid_name(pairs[i].0) || !valid_value(pairs[i].1)
}

/// The first header row that cannot be sent is reported under its key; a request
/// whose rows are all in order is not refused.
pub proof fn lemma_first_bad_header_is_reported(rows: Seq<RowView>, pairs: Pairs, i: int)
    requires
        rows.len() == pairs.len(),
    ensures
        0 <= i < rows.len() && is_bad(pairs, i) && (forall|j: int|
            0 <= j < i ==> !#[trigger] is_bad(pairs, j)) ==> row_headers(rows, pairs) == (if valid_name(
            pairs[i].0,
        ) {
            Err::<Pairs, FaultView>(FaultView::Value(rows[i].key))
        } else {
            Err(FaultView::Name(rows[i].key))
        }),
        (forall|j: int| 0 <= j < rows.len() ==> !#[trigger] is_bad(pairs, j)) ==> row_headers(
            rows,
            pairs,
        ) is Ok,
    decreases rows.len(),
{
    if rows.len() > 0 {
        let init = pairs.drop_last();
        let n = rows.len() - 1;
        lemma_first_bad_header_is_reported(rows.drop_last(), init, i);
        assert forall|j: int| 0 <= j < n implies is_bad(init, j) == #[trigger] is_bad(pairs, j) by {}
        if 0 <= i < rows.len() && is_bad(pairs, i) && (forall|j: int|
            0 <= j < i ==> !#[trigger] is_bad(pairs, j)) {
            if i == n {
                assert forall|j: int| 0 <= j < n implies !#[trigger] is_bad(init, j) by {
                    assert(!is_bad(pairs, j));
                }
            } else {
                assert(is_bad(init, i));
                assert forall|j: int| 0 <= j < i implies !#[trigger] is_bad(init, j) by {
                    assert(!is_bad(pairs, j));
                }
                assert(init[i] == pairs[i]);
            }
        }
        if forall|j: int| 0 <= j < rows.len() ==> !#[trigger] is_bad(pairs, j) {
            assert forall|j: int| 0 <= j < n implies !#[trigger] is_bad(init, j) by {
                assert(!is_bad(pairs, j));
            }
            assert(!is_bad(pairs, n));
        }
    }
}

// ----- extra headers -----

/// The request's own headers stay as they are; an extra header is added just when
/// the request has none of that name.
pub proof fn lemma_extra_headers(h: Pairs, extra: Pairs, i: int, p: (Seq<char>, Seq<char>))
    requires
        distinct(h),
        with_extra(h, extra) is Ok,
    ensures
        distinct(with_extra(h, extra)->Ok_0),
        h.contains(p) ==> with_extra(h, extra)->Ok_0.contains(p),
        last_header(extra, i) && !named(h, lower(extra[i].0)) ==> with_extra(h, extra)->Ok_0.contains(
            (lower(extra[i].0), extra[i].1),
        ),
        with_extra(h, extra)->Ok_0.contains(p) ==> h.contains(p) || (!named(h, p.0) && comes_from(
            extra,
            p,
        )),
    decreases extra.len(),
{
    if extra.len() > 0 {
        let init = extra.drop_last();
        let n = extra.len() - 1;
        let before = with_extra(h, init)->Ok_0;
        let all = with_extra(h, extra)->Ok_0;
        let name = lower(extra.last().0);
        let value = extra.last().1;
        lemma_extra_headers(h, init, i, p);
        if comes_from(init, p) {
            let j = choose|j: int|
                0 <= j < init.len() && p == (lower((#[trigger] init[j]).0), init[j].1);
            assert(extra[j] == init[j]);
        }
        if last_header(extra, i) && i < n {
            assert(lower(extra[n].0) != lower(extra[i].0));
            assert forall|j: int| i < j < init.len() implies lower((#[trigger] init[j]).0) != lower(
                init[i].0,
            ) by {
                assert(init[j] == extra[j]);
            }
        }
        if !named(h, name) {
            lemma_set(before, name, value, p);
            if h.contains(p) {
                let k = choose|k: int| 0 <= k < h.len() && h[k] == p;
                assert(h[k].0 == p.0);
                assert(named(h, p.0));
            }
            if last_header(extra, i) {
                lemma_set(before, name, value, (lower(extra[i].0), extra[i].1));
            }
            if all.contains(p) && p.0 == name {
                assert(p == (lower(extra[n].0), extra[n].1));
            }
        }
    }
}

// ----- a whole request -----

/// A request that goes out has every header of its own, and a content type for its
/// body: its own, that of an extra header, or JSON.
pub proof fn lemma_headers_go_out(
    base: Seq<char>,
    r: RequestView,
    bearer: Option<Seq<char>>,
    extra: Pairs,
    t: TextsView,
    i: int,
)
    requires
        prepared(base, r, bearer, extra, t) is Ok,
        live(r.headers).len() == t.headers.len(),
    ensures
        ({
            let p = prepared(base, r, bearer, extra, t)->Ok_0;
            &&& last_header(t.headers, i) ==> p.headers.contains(
                (lower(t.headers[i].0), t.headers[i].1),
            )
            &&& t.body is Some ==> named(p.headers, "content-type"@)
            &&& last_header(extra, i) && (forall|j: int|
                0 <= j < t.headers.len() ==> lower((#[trigger] t.headers[j]).0) != lower(extra[i].0))
                ==> p.headers.contains((lower(extra[i].0), extra[i].1))
            &&& distinct(p.headers)
        }),
{
    let rows = live(r.headers);
    let own = row_headers(rows, t.headers)->Ok_0;
    let all = with_extra(own, extra)->Ok_0;
    let p = prepared(base, r, bearer, extra, t)->Ok_0;
    lemma_every_header_row_is_sent(rows, t.headers, i);
    lemma_extra_headers(own, extra, i, (lower(t.headers[i].0), t.headers[i].1));
    assert(forall|k: int| 0 <= k < all.len() ==> #[trigger] p.headers[k] == all[k]);
    assert forall|q: (Seq<char>, Seq<char>)| all.contains(q) implies p.headers.contains(q) by {
        let k = choose|k: int| 0 <= k < all.len() && all[k] == q;
        assert(p.headers[k] == q);
    }
    if last_header(extra, i) && (forall|j: int|
        0 <= j < t.headers.len() ==> lower((#[trigger] t.headers[j]).0) != lower(extra[i].0)) {
        if named(own, lower(extra[i].0)) {
            let k = choose|k: int| 0 <= k < own.len() && (#[trigger] own[k]).0 == lower(extra[i].0);
            assert(own.contains(own[k]));
            assert(comes_from(t.headers, own[k]));
        }
    }
    if t.body is Some {
        if !named(all, "content-type"@) {
            assert(p.headers[all.len() as int].0 == "content-type"@);
        } else {
            let k = choose|k: int| 0 <= k < all.len() && (#[trigger] all[k]).0 == "content-type"@;
            assert(p.headers[k].0 == "content-type"@);
        }
    }
}

/// A request whose own headers and extra headers name no content type is sent as
/// JSON where it has a body; without a body nothing is added.
pub proof fn lemma_bodies_are_json(
    base: Seq<char>,
    r: RequestView,
    bearer: Option<Seq<char>>,
    extra: Pairs,
    t: TextsView,
)
    requires
        prepared(base, r, bearer, extra, t) is Ok,
        live(r.headers).len() == t.headers.len(),
        forall|j: int|
            0 <= j < t.headers.len() ==> lower((#[trigger] t.headers[j]).0) != "content-type"@,
        forall|j: int| 0 <= j < extra.len() ==> lower((#[trigger] extra[j]).0) != "content-type"@,
    ensures
        ({
            let p = prepared(base, r, bearer, extra, t)->Ok_0;
            &&& t.body is Some ==> p.headers.contains(("content-type"@, "application/json"@))
            &&& t.body is None ==> !named(p.headers, "content-type"@)
        }),
{
    let rows = live(r.headers);
    let own = row_headers(rows, t.headers)->Ok_0;
    let all = with_extra(own, extra)->Ok_0;
    let p = prepared(base, r, bearer, extra, t)->Ok_0;
    lemma_every_header_row_is_sent(rows, t.headers, 0);
    if named(all, "content-type"@) {
        let k = choose|k: int| 0 <= k < all.len() && (#[trigger] all[k]).0 == "content-type"@;
        lemma_extra_headers(own, extra, 0, all[k]);
        assert(all.contains(all[k]));
        if own.contains(all[k]) {
            assert(comes_from(t.headers, all[k]));
        }
        assert(false);
    }
    if t.body is Some {
        assert(p.headers[all.len() as int] == ("content-type"@, "application/json"@));
    }
}

/// A bearer token is sent just when the request has no Authorization header of its
/// own.
pub proof fn lemma_bearer_is_sent(
    base: Seq<char>,
    r: RequestView,
    bearer: Option<Seq<char>>,
    extra: Pairs,
    t: TextsView,
)
    requires
        prepared(base, r, bearer, extra, t) is Ok,
        live(r.headers).len() == t.headers.len(),
    ensures
        ({
            let p = prepared(base, r, bearer, extra, t)->Ok_0;
            &&& (forall|j: int|
                0 <= j < t.headers.len() ==> lower((#[trigger] t.headers[j]).0) != "authorization"@)
                ==> p.bearer == bearer
            &&& (exists|j: int|
                0 <= j < t.headers.len() && lower((#[trigger] t.headers[j]).0) == "authorization"@)
                ==> p.bearer is None
        }),
{
    let rows = live(r.headers);
    let own = row_headers(rows, t.headers)->Ok_0;
    lemma_every_header_row_is_sent(rows, t.headers, 0);
    if named(own, "authorization"@) {
        let k = choose|k: int| 0 <= k < own.len() && (#[trigger] own[k]).0 == "authorization"@;
        assert(own.contains(own[k]));
        assert(comes_from(t.headers, own[k]));
    }
    if exists|j: int|
        0 <= j < t.headers.len() && lower((#[trigger] t.headers[j]).0) == "authorization"@ {
        let j = choose|j: int|
            0 <= j < t.headers.len() && lower((#[trigger] t.headers[j]).0) == "authorization"@;
        lemma_name_is_sent(rows, t.headers, j);
    }
}

proof fn lemma_name_is_sent(rows: Seq<RowView>, pairs: Pairs, j: int)
    requires
        rows.len() == pairs.len(),
        row_headers(rows, pairs) is Ok,
        0 <= j < pairs.len(),
    ensures
        named(row_headers(rows, pairs)->Ok_0, lower(pairs[j].0)),
    decreases rows.len(),
{
    let init = pairs.drop_last();
    let h = row_headers(rows.drop_last(), init)->Ok_0;
    lemma_every_header_row_is_sent(rows.drop_last(), init, 0);
    lemma_set(h, lower(pairs.last().0), pairs.last().1, pairs.last());
    if j < pairs.len() - 1 {
        assert(init[j] == pairs[j]);
        lemma_name_is_sent(rows.drop_last(), init, j);
        assert(named(h, lower(pairs[j].0)));
    } else {
        assert(named(h, lower(pairs[j].0)) || lower(pairs[j].0) == lower(pairs.last().0));
    }
}

} // verus!
