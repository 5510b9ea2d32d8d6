//! Every operation becomes a request that says what the operation says.

use vstd::prelude::*;

use crate::ids::is_v4;
use crate::json::{field, field_entries, field_items, field_text, Json};
use crate::model::{blank_request, CollectionView, Method, RequestView};
use crate::openapi::docs::{description_of, texts};
use crate::openapi::import::{
    imported, item_operations, nonblank, operations, params_of, path_operations, request_name,
    request_of, verbs, with_params, Operation,
};
use crate::openapi::resolve::concrete;
use crate::text::trim;

verus! {


// ----- operations -----

/// A verb's place in the order in which a path's operations are taken.
pub open spec fn rank(m: Method) -> int {
    match m {
        Method::Get => 0,
        Method::Post => 1,
        Method::Put => 2,
        Method::Patch => 3,
        Method::Delete => 4,
        Method::Head => 5,
        Method::Options => 6,
    }
}

/// The operations of a path item under verbs before place `n`: all of them, no
/// others, in order.
proof fn lemma_item_operations(path: Seq<char>, item: Json, n: nat)
    requires
        n <= 7,
    ensures
        forall|m: Method|
            rank(m) < n && (#[trigger] field(item, m.key())) is Some ==> item_operations(
                path,
                item,
                n,
            ).contains(
                Operation {
                    path,
                    method: m,
                    shared: match field_items(item, "parameters"@) {
                        Some(a) => a,
                        None => Seq::empty(),
                    },
                    op: field(item, m.key())->0,
                },
            ),
        forall|k: int|
            0 <= k < item_operations(path, item, n).len() ==> {
                let o = #[trigger] item_operations(path, item, n)[k];
                &&& rank(o.method) < n
                &&& o.path == path
                &&& field(item, o.method.key()) == Some(o.op)
                &&& o.shared == match field_items(item, "parameters"@) {
                    Some(a) => a,
                    None => Seq::empty(),
                }
            },
        forall|k: int, l: int|
            0 <= k < l < item_operations(path, item, n).len() ==> rank(
                (#[trigger] item_operations(path, item, n)[k]).method,
            ) < rank((#[trigger] item_operations(path, item, n)[l]).method),
    decreases n,
{
    if n > 0 {
        lemma_item_operations(path, item, (n - 1) as nat);
        let before = item_operations(path, item, (n - 1) as nat);
        let all = item_operations(path, item, n);
        let method = verbs()[n - 1];
        assert(rank(method) == n - 1);
        assert forall|m: Method| rank(m) < n && (#[trigger] field(item, m.key())) is Some implies all.contains(
            Operation {
                path,
                method: m,
                shared: match field_items(item, "parameters"@) {
                    Some(a) => a,
                    None => Seq::empty(),
                },
                op: field(item, m.key())->0,
            },
        ) by {
            let o = Operation {
                path,
                method: m,
                shared: match field_items(item, "parameters"@) {
                    Some(a) => a,
                    None => Seq::empty(),
                },
                op: field(item, m.key())->0,
            };
            if rank(m) == n - 1 {
                assert(m == method);
                assert(all.last() == o);
            } else {
                assert(before.contains(o));
                let j = choose|j: int| 0 <= j < before.len() && before[j] == o;
                assert(all[j] == o);
            }
        }
        assert forall|k: int, l: int| 0 <= k < l < all.len() implies rank((#[trigger] all[k]).method)
            < rank((#[trigger] all[l]).method) by {
            assert(all[k] == before[k]);
            if l < before.len() {
                assert(all[l] == before[l]);
            }
        }
    }
}

/// What can be said of the operations of the paths: where each stands.
proof fn lemma_path_operations(doc: Json, paths: Seq<(Seq<char>, Json)>)
    ensures
        forall|i: int, m: Method|
            0 <= i < paths.len() && (#[trigger] field(concrete(doc, paths[i].1), m.key())) is Some
                ==> path_operations(doc, paths).contains(
                Operation {
                    path: paths[i].0,
                    method: m,
                    shared: match field_items(concrete(doc, paths[i].1), "parameters"@) {
                        Some(a) => a,
                        None => Seq::empty(),
                    },
                    op: field(concrete(doc, paths[i].1), m.key())->0,
                },
            ),
        forall|k: int|
            0 <= k < path_operations(doc, paths).len() ==> came_from(
                doc,
                paths,
                #[trigger] path_operations(doc, paths)[k],
            ),
    decreases paths.len(),
{
    if paths.len() > 0 {
        let init = paths.drop_last();
        let item = concrete(doc, paths.last().1);
        lemma_path_operations(doc, init);
        lemma_item_operations(paths.last().0, item, 7);
        assert(verbs().len() == 7);
        let before = path_operations(doc, init);
        let own = item_operations(paths.last().0, item, 7);
        let all = path_operations(doc, paths);
        assert(all == before + own);
        assert forall|i: int, m: Method|
            0 <= i < paths.len() && (#[trigger] field(concrete(doc, paths[i].1), m.key())) is Some implies all.contains(
            Operation {
                path: paths[i].0,
                method: m,
                shared: match field_items(concrete(doc, paths[i].1), "parameters"@) {
                    Some(a) => a,
                    None => Seq::empty(),
                },
                op: field(concrete(doc, paths[i].1), m.key())->0,
            },
        ) by {
            let op = field(concrete(doc, paths[i].1), m.key())->0;
            let o = Operation {
                path: paths[i].0,
                method: m,
                shared: match field_items(concrete(doc, paths[i].1), "parameters"@) {
                    Some(a) => a,
                    None => Seq::empty(),
                },
                op,
            };
            assert(rank(m) < 7);
            if i == paths.len() - 1 {
                assert(own.contains(o));
                let j = choose|j: int| 0 <= j < own.len() && own[j] == o;
                assert(all[before.len() + j] == o);
            } else {
                assert(init[i] == paths[i]);
                assert(field(concrete(doc, init[i].1), m.key()) == Some(op));
                assert(before.contains(o));
                let j = choose|j: int| 0 <= j < before.len() && before[j] == o;
                assert(all[j] == o);
            }
        }
        assert forall|k: int| 0 <= k < all.len() implies came_from(doc, paths, #[trigger] all[k]) by {
            if k < before.len() {
                assert(all[k] == before[k]);
                let i = choose|i: int|
                    0 <= i < init.len() && #[trigger] stands_at(doc, init, before[k], i);
                assert(init[i] == paths[i]);
                assert(stands_at(doc, paths, all[k], i));
            } else {
                assert(all[k] == own[k - before.len()]);
                assert(stands_at(doc, paths, all[k], paths.len() - 1));
            }
        }
    }
}

/// Whether an operation is the one that path `i` has under its verb.
pub open spec fn stands_at(doc: Json, paths: Seq<(Seq<char>, Json)>, o: Operation, i: int) -> bool {
    let item = concrete(doc, paths[i].1);
    &&& o.path == paths[i].0
    &&& field(item, o.method.key()) == Some(o.op)
    &&& o.shared == match field_items(item, "parameters"@) {
        Some(a) => a,
        None => Seq::empty(),
    }
}

pub open spec fn came_from(doc: Json, paths: Seq<(Seq<char>, Json)>, o: Operation) -> bool {
    exists|i: int| 0 <= i < paths.len() && #[trigger] stands_at(doc, paths, o, i)
}

/// Every operation becomes a request: whatever a path has under any of the seven
/// verbs is in the collection, under that path and that verb.
pub proof fn lemma_every_operation_becomes_a_request(
    doc: Json,
    name: Seq<char>,
    source: Option<Seq<char>>,
    c: CollectionView,
    paths: Seq<(Seq<char>, Json)>,
    i: int,
    m: Method,
    op: Json,
)
    requires
        imported(doc, name, source, c),
        field_entries(doc, "paths"@) == Some(paths),
        0 <= i < paths.len(),
        field(
            concrete(doc, paths[i].1),
            match m {
                Method::Get => "get"@,
                Method::Post => "post"@,
                Method::Put => "put"@,
                Method::Patch => "patch"@,
                Method::Delete => "delete"@,
                Method::Head => "head"@,
                Method::Options => "options"@,
            },
        ) == Some(op),
    ensures
        exists|k: int|
            0 <= k < c.requests.len() && {
                let r = #[trigger] c.requests[k];
                &&& r.path == paths[i].0
                &&& r.method == m
                &&& is_v4(r.id)
                &&& r == request_of(
                    doc,
                    Operation {
                        path: paths[i].0,
                        method: m,
                        shared: match field_items(concrete(doc, paths[i].1), "parameters"@) {
                            Some(a) => a,
                            None => Seq::empty(),
                        },
                        op,
                    },
                    r.id,
                )
            },
{
    lemma_path_operations(doc, paths);
    let o = Operation {
        path: paths[i].0,
        method: m,
        shared: match field_items(concrete(doc, paths[i].1), "parameters"@) {
            Some(a) => a,
            None => Seq::empty(),
        },
        op,
    };
    let ops = operations(doc);
    assert(field(concrete(doc, paths[i].1), m.key()) == Some(op));
    assert(ops.contains(o));
    let k = choose|k: int| 0 <= k < ops.len() && ops[k] == o;
    assert(c.requests[k] == request_of(doc, ops[k], c.requests[k].id));
    lemma_request_says_what_the_operation_says(doc, o, c.requests[k].id);
}

/// Every request is an operation of the description: none is made up.
pub proof fn lemma_every_request_is_an_operation(
    doc: Json,
    name: Seq<char>,
    source: Option<Seq<char>>,
    c: CollectionView,
    k: int,
)
    requires
        imported(doc, name, source, c),
        0 <= k < c.requests.len(),
    ensures
        field_entries(doc, "paths"@) is Some,
        exists|i: int|
            0 <= i < field_entries(doc, "paths"@)->0.len() && {
                let entry = #[trigger] field_entries(doc, "paths"@)->0[i];
                &&& c.requests[k].path == entry.0
                &&& field(concrete(doc, entry.1), c.requests[k].method.key()) is Some
            },
{
    let paths = field_entries(doc, "paths"@)->0;
    let ops = operations(doc);
    assert(ops.len() == c.requests.len());
    lemma_path_operations(doc, paths);
    assert(came_from(doc, paths, ops[k]));
    let i = choose|i: int| 0 <= i < paths.len() && #[trigger] stands_at(doc, paths, ops[k], i);
    assert(c.requests[k] == request_of(doc, ops[k], c.requests[k].id));
    lemma_request_says_what_the_operation_says(doc, ops[k], c.requests[k].id);
    assert(paths[i].0 == c.requests[k].path);
}

/// Whether the operations at `k < l` are in the order of the description.
pub open spec fn in_place(paths: Seq<(Seq<char>, Json)>, a: Operation, b: Operation) -> bool {
    exists|i: int, j: int|
        0 <= i <= j < paths.len() && (#[trigger] paths[i]).0 == a.path && (#[trigger] paths[j]).0
            == b.path && (i < j || rank(a.method) < rank(b.method))
}

proof fn lemma_operations_in_order(doc: Json, paths: Seq<(Seq<char>, Json)>, k: int, l: int)
    requires
        0 <= k < l < path_operations(doc, paths).len(),
    ensures
        in_place(paths, path_operations(doc, paths)[k], path_operations(doc, paths)[l]),
    decreases paths.len(),
{
    let init = paths.drop_last();
    let item = concrete(doc, paths.last().1);
    let before = path_operations(doc, init);
    let own = item_operations(paths.last().0, item, 7);
    assert(verbs().len() == 7);
    let all = path_operations(doc, paths);
    assert(all == before + own);
    lemma_item_operations(paths.last().0, item, 7);
    lemma_path_operations(doc, init);
    let last = paths.len() - 1;
    if l < before.len() {
        lemma_operations_in_order(doc, init, k, l);
        let (i, j) = choose|i: int, j: int|
            0 <= i <= j < init.len() && (#[trigger] init[i]).0 == before[k].path && (#[trigger] init[j]).0
                == before[l].path && (i < j || rank(before[k].method) < rank(before[l].method));
        assert(paths[i] == init[i] && paths[j] == init[j]);
    } else if k < before.len() {
        assert(came_from(doc, init, before[k]));
        let i = choose|i: int| 0 <= i < init.len() && #[trigger] stands_at(doc, init, before[k], i);
        assert(paths[i] == init[i]);
        assert(all[l] == own[l - before.len()]);
        assert(paths[i].0 == all[k].path && paths[last].0 == all[l].path);
    } else {
        assert(all[k] == own[k - before.len()] && all[l] == own[l - before.len()]);
        assert(paths[last].0 == all[k].path);
    }
}

/// Requests stand in the order of the description, path by path and verb by verb,
/// so no operation comes twice.
pub proof fn lemma_requests_in_order(
    doc: Json,
    name: Seq<char>,
    source: Option<Seq<char>>,
    c: CollectionView,
    paths: Seq<(Seq<char>, Json)>,
    k: int,
    l: int,
)
    requires
        imported(doc, name, source, c),
        field_entries(doc, "paths"@) == Some(paths),
        0 <= k < l < c.requests.len(),
    ensures
        exists|i: int, j: int|
            0 <= i <= j < paths.len() && (#[trigger] paths[i]).0 == c.requests[k].path
                && (#[trigger] paths[j]).0 == c.requests[l].path && (i < j || rank(
                c.requests[k].method,
            ) < rank(c.requests[l].method)),
{
    let ops = operations(doc);
    lemma_operations_in_order(doc, paths, k, l);
    assert(c.requests[k] == request_of(doc, ops[k], c.requests[k].id));
    assert(c.requests[l] == request_of(doc, ops[l], c.requests[l].id));
    lemma_request_says_what_the_operation_says(doc, ops[k], c.requests[k].id);
    lemma_request_says_what_the_operation_says(doc, ops[l], c.requests[l].id);
    assert(in_place(paths, ops[k], ops[l]));
}

/// The collection has the name and source it was imported under, and nothing in
/// it but what the description gives.
pub proof fn lemma_import_is_named(
    doc: Json,
    name: Seq<char>,
    source: Option<Seq<char>>,
    c: CollectionView,
)
    requires
        imported(doc, name, source, c),
    ensures
        c.name == name,
        c.spec_source == source,
        c.active_server == 0,
        c.variables.len() == 0,
        c.last_request is None,
        field_entries(doc, "paths"@) is None ==> c.requests.len() == 0,
{
}

// ----- what a request says -----

/// Filing parameters leaves everything else of a request alone.
proof fn lemma_params_keep_the_rest(doc: Json, r: RequestView, ps: Seq<Json>)
    ensures
        ({
            let f = with_params(doc, r, ps);
            f == RequestView {
                path_params: f.path_params,
                query: f.query,
                headers: f.headers,
                docs: f.docs,
                ..r
            }
        }),
    decreases ps.len(),
{
    if ps.len() > 0 {
        lemma_params_keep_the_rest(doc, r, ps.drop_last());
    }
}

/// The strings of an array are all taken, in order, and nothing else is.
pub proof fn lemma_texts(a: Seq<Json>)
    ensures
        forall|i: int| 0 <= i < a.len() && #[trigger] a[i] is Text ==> texts(a).contains(a[i]->Text_0),
        forall|k: int| 0 <= k < texts(a).len() ==> a.contains(Json::Text(#[trigger] texts(a)[k])),
        (forall|i: int| 0 <= i < a.len() ==> #[trigger] a[i] is Text) ==> texts(a).len() == a.len()
            && forall|i: int| 0 <= i < a.len() ==> #[trigger] texts(a)[i] == a[i]->Text_0,
    decreases a.len(),
{
    if a.len() > 0 {
        let init = a.drop_last();
        let before = texts(init);
        let all = texts(a);
        lemma_texts(init);
        assert forall|i: int| 0 <= i < a.len() && #[trigger] a[i] is Text implies all.contains(
            a[i]->Text_0,
        ) by {
            if i == a.len() - 1 {
                assert(all[all.len() - 1] == a[i]->Text_0);
            } else {
                assert(init[i] == a[i]);
                assert(before.contains(init[i]->Text_0));
                let k = choose|k: int| 0 <= k < before.len() && before[k] == init[i]->Text_0;
                assert(all[k] == before[k]);
            }
        }
        assert forall|k: int| 0 <= k < all.len() implies a.contains(Json::Text(#[trigger] all[k])) by {
            if k < before.len() {
                assert(all[k] == before[k]);
                assert(init.contains(Json::Text(before[k])));
                let i = choose|i: int| 0 <= i < init.len() && init[i] == Json::Text(before[k]);
                assert(a[i] == Json::Text(all[k]));
            } else {
                assert(a[a.len() - 1] == Json::Text(all[k]));
            }
        }
        if forall|i: int| 0 <= i < a.len() ==> #[trigger] a[i] is Text {
            assert forall|i: int| 0 <= i < init.len() implies #[trigger] init[i] is Text by {
                assert(a[i] is Text);
            }
            assert(a[a.len() - 1] is Text);
            assert forall|i: int| 0 <= i < a.len() implies #[trigger] all[i] == a[i]->Text_0 by {
                if i < before.len() {
                    assert(all[i] == before[i] && init[i] == a[i]);
                }
            }
        }
    }
}

/// A request says what its operation says: verb and path, summary, identifier and
/// description unless blank, and the tags. It is called by its summary, failing
/// that by its identifier, failing that by verb and path.
pub proof fn lemma_request_says_what_the_operation_says(doc: Json, o: Operation, id: u128)
    ensures
        ({
            let r = request_of(doc, o, id);
            let summary = field_text(o.op, "summary"@);
            let identifier = field_text(o.op, "operationId"@);
            let description = field_text(o.op, "description"@);
            let has_summary = summary is Some && trim(summary->0).len() > 0;
            let has_identifier = identifier is Some && trim(identifier->0).len() > 0;
            &&& r.id == id
            &&& r.method == o.method
            &&& r.path == o.path
            &&& r.summary == if has_summary {
                summary
            } else {
                None
            }
            &&& r.operation_id == if has_identifier {
                identifier
            } else {
                None
            }
            &&& description is Some && trim(description->0).len() > 0 ==> r.description == Some(
                trim(description->0),
            )
            &&& description is None || trim(description->0).len() == 0 ==> r.description is None
            &&& has_summary ==> r.name == summary->0
            &&& !has_summary && has_identifier ==> r.name == identifier->0
            &&& !has_summary && !has_identifier ==> r.name == (match o.method {
                Method::Get => "GET"@,
                Method::Post => "POST"@,
                Method::Put => "PUT"@,
                Method::Patch => "PATCH"@,
                Method::Delete => "DELETE"@,
                Method::Head => "HEAD"@,
                Method::Options => "OPTIONS"@,
            }) + " "@ + o.path
            &&& match field_items(o.op, "tags"@) {
                Some(a) => {
                    &&& forall|i: int|
                        0 <= i < a.len() && #[trigger] a[i] is Text ==> r.tags.contains(a[i]->Text_0)
                    &&& (forall|i: int| 0 <= i < a.len() ==> #[trigger] a[i] is Text) ==> r.tags.len()
                        == a.len() && forall|i: int|
                        0 <= i < a.len() ==> #[trigger] r.tags[i] == a[i]->Text_0
                },
                None => r.tags.len() == 0,
            }
        }),
{
    let base = RequestView {
        summary: nonblank(o.op, "summary"@),
        operation_id: nonblank(o.op, "operationId"@),
        description: description_of(o.op),
        method: o.method,
        path: o.path,
        tags: match field_items(o.op, "tags"@) {
            Some(a) => texts(a),
            None => Seq::empty(),
        },
        ..blank_request(request_name(o), id)
    };
    lemma_params_keep_the_rest(doc, base, params_of(doc, o));
    match field_items(o.op, "tags"@) {
        Some(a) => lemma_texts(a),
        None => {},
    }
}

} // verus!
