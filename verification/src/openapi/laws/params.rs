//! Every parameter gets its row, its value and its documentation.

use vstd::prelude::*;

use crate::json::{
    body_text, compact_text, field, field_entries, field_flag, field_items, field_text, plain_text,
    pretty_text, Json,
};
use crate::model::{blank_request, RequestView, RowView};
use crate::openapi::docs::{description_of, param_doc_of, texts};
use crate::openapi::examples::example;
use crate::openapi::import::{
    derefs, header_known, implied_rows, known, nonblank, param_id, param_value_of, params_of,
    request_name, request_of, with_headers, with_param, with_params, with_shared, Operation,
};
use crate::openapi::resolve::concrete;
use crate::text::lower;

verus! {

// ----- parameters -----

/// Whether two parameters go by the same name at the same place.
pub open spec fn same_param(p: Json, q: Json) -> bool {
    &&& field_text(p, "name"@) == field_text(q, "name"@)
    &&& field_text(p, "in"@) == field_text(q, "in"@)
}

/// Whether `p` is what one of `ps` stands for.
pub open spec fn is_one_of(doc: Json, ps: Seq<Json>, p: Json) -> bool {
    exists|j: int| 0 <= j < ps.len() && p == concrete(doc, #[trigger] ps[j])
}

proof fn lemma_shared_counts(doc: Json, own: Seq<Json>, shared: Seq<Json>)
    ensures
        ({
            let all = with_shared(doc, own, shared);
            &&& own.len() <= all.len()
            &&& forall|i: int| 0 <= i < own.len() ==> #[trigger] all[i] == own[i]
            &&& forall|k: int| own.len() <= k < all.len() ==> is_one_of(doc, shared, #[trigger] all[k])
            &&& forall|k: int, l: int|
                own.len() <= l < all.len() && 0 <= k < l ==> param_id(#[trigger] all[k]) != param_id(
                    #[trigger] all[l],
                )
        }),
    decreases shared.len(),
{
    if shared.len() > 0 {
        let init = shared.drop_last();
        let last = shared.len() - 1;
        lemma_shared_counts(doc, own, init);
        let before = with_shared(doc, own, init);
        let all = with_shared(doc, own, shared);
        assert forall|k: int| own.len() <= k < all.len() implies is_one_of(doc, shared, #[trigger] all[k]) by {
            if k < before.len() {
                assert(all[k] == before[k]);
                assert(is_one_of(doc, init, before[k]));
                let j = choose|j: int|
                    0 <= j < init.len() && before[k] == concrete(doc, #[trigger] init[j]);
                assert(shared[j] == init[j]);
            } else {
                assert(all[k] == concrete(doc, shared[last]));
            }
        }
    }
}

/// A shared parameter is known in the end.
proof fn lemma_shared_known(doc: Json, own: Seq<Json>, shared: Seq<Json>, j: int)
    requires
        0 <= j < shared.len(),
    ensures
        known(with_shared(doc, own, shared), concrete(doc, shared[j])),
    decreases shared.len(),
{
    let init = shared.drop_last();
    let last = shared.len() - 1;
    let before = with_shared(doc, own, init);
    let all = with_shared(doc, own, shared);
    let p = concrete(doc, shared[j]);
    if j < last {
        lemma_shared_known(doc, own, init, j);
        assert(init[j] == shared[j]);
    }
    if j < last || known(before, p) {
        let k = choose|k: int| 0 <= k < before.len() && param_id(#[trigger] before[k]) == param_id(p);
        assert(all[k] == before[k]);
    } else {
        assert(all[before.len() as int] == p);
    }
}

/// The parameters of an operation are its own and those of its path that it does
/// not override: all of its own, in order, then others of the path's, each under a
/// name and place of its own.
pub proof fn lemma_every_parameter_counts(doc: Json, o: Operation)
    ensures
        ({
            let all = params_of(doc, o);
            let own = match field_items(o.op, "parameters"@) {
                Some(a) => a,
                None => Seq::empty(),
            };
            &&& own.len() <= all.len()
            &&& forall|i: int| 0 <= i < own.len() ==> #[trigger] all[i] == concrete(doc, own[i])
            &&& forall|k: int| own.len() <= k < all.len() ==> is_one_of(doc, o.shared, #[trigger] all[k])
            &&& forall|k: int, l: int|
                own.len() <= l < all.len() && 0 <= k < l ==> param_id(#[trigger] all[k]) != param_id(
                    #[trigger] all[l],
                )
        }),
{
    let own = match field_items(o.op, "parameters"@) {
        Some(a) => a,
        None => Seq::empty(),
    };
    lemma_shared_counts(doc, derefs(doc, own), o.shared);
}

/// None of the path's parameters is lost: each is there, or another one of its name
/// and place, which is the operation's own or stands before it.
pub proof fn lemma_no_shared_parameter_is_lost(doc: Json, o: Operation, j: int)
    requires
        0 <= j < o.shared.len(),
    ensures
        exists|k: int|
            0 <= k < params_of(doc, o).len() && param_id(#[trigger] params_of(doc, o)[k]) == param_id(
                concrete(doc, o.shared[j]),
            ),
{
    let own = match field_items(o.op, "parameters"@) {
        Some(a) => a,
        None => Seq::empty(),
    };
    let all = params_of(doc, o);
    let p = concrete(doc, o.shared[j]);
    lemma_shared_known(doc, derefs(doc, own), o.shared, j);
    let k = choose|k: int| 0 <= k < all.len() && param_id(#[trigger] all[k]) == param_id(p);
    assert(param_id(params_of(doc, o)[k]) == param_id(p));
}

/// What makes two parameters the same one is their name and place; one that is
/// left out counts as blank.
pub proof fn lemma_parameters_are_told_apart(p: Json, q: Json)
    ensures
        same_param(p, q) ==> param_id(p) == param_id(q),
        field_text(p, "name"@) is Some && field_text(p, "in"@) is Some && field_text(q, "name"@) is Some
            && field_text(q, "in"@) is Some ==> (param_id(p) == param_id(q) <==> same_param(p, q)),
{
}

/// A request before its parameters are filed.
pub open spec fn base_request(o: Operation, id: u128) -> RequestView {
    RequestView {
        summary: nonblank(o.op, "summary"@),
        operation_id: nonblank(o.op, "operationId"@),
        description: description_of(o.op),
        method: o.method,
        path: o.path,
        tags: match field_items(o.op, "tags"@) {
            Some(a) => texts(a),
            None => Seq::empty(),
        },
        ..blank_request(request_name(o), id)
    }
}

/// Adding headers leaves those that are there and brings in only what is to be
/// added, under names that are new.
pub(crate) proof fn lemma_headers_kept(rows: Seq<RowView>, more: Seq<RowView>)
    ensures
        ({
            let all = with_headers(rows, more);
            &&& rows.len() <= all.len()
            &&& forall|k: int| 0 <= k < rows.len() ==> #[trigger] all[k] == rows[k]
            &&& forall|k: int| rows.len() <= k < all.len() ==> more.contains(#[trigger] all[k])
            &&& forall|k: int, l: int|
                rows.len() <= l < all.len() && 0 <= k < l ==> lower((#[trigger] all[k]).key) != lower(
                    (#[trigger] all[l]).key,
                )
        }),
    decreases more.len(),
{
    if more.len() > 0 {
        let init = more.drop_last();
        let last = more.len() - 1;
        lemma_headers_kept(rows, init);
        let before = with_headers(rows, init);
        let all = with_headers(rows, more);
        assert forall|k: int| rows.len() <= k < all.len() implies more.contains(#[trigger] all[k]) by {
            if k < before.len() {
                assert(all[k] == before[k]);
                assert(init.contains(before[k]));
                let i = choose|i: int| 0 <= i < init.len() && init[i] == before[k];
                assert(more[i] == all[k]);
            } else {
                assert(more[last] == all[k]);
            }
        }
    }
}

/// A header that is to be added is there in the end: itself where its name was new,
/// or another of that name.
pub(crate) proof fn lemma_header_added(rows: Seq<RowView>, more: Seq<RowView>, j: int)
    requires
        0 <= j < more.len(),
    ensures
        header_known(with_headers(rows, more), more[j].key),
        !header_known(rows, more[j].key) && !header_known(more.take(j), more[j].key) ==> with_headers(
            rows,
            more,
        ).contains(more[j]),
    decreases more.len(),
{
    let init = more.drop_last();
    let last = more.len() - 1;
    let before = with_headers(rows, init);
    let all = with_headers(rows, more);
    let key = more[j].key;
    if j < last {
        lemma_header_added(rows, init, j);
        assert(init[j] == more[j]);
        assert(init.take(j) =~= more.take(j));
        let k = choose|k: int| 0 <= k < before.len() && lower((#[trigger] before[k]).key) == lower(key);
        assert(all[k] == before[k]);
        if before.contains(more[j]) {
            let l = choose|l: int| 0 <= l < before.len() && before[l] == more[j];
            assert(all[l] == before[l]);
        }
    } else if header_known(before, key) {
        let k = choose|k: int| 0 <= k < before.len() && lower((#[trigger] before[k]).key) == lower(key);
        assert(all[k] == before[k]);
        lemma_headers_kept(rows, init);
        if k < rows.len() {
            assert(rows[k] == before[k]);
            assert(header_known(rows, key));
        } else {
            assert(init.contains(before[k]));
            let i = choose|i: int| 0 <= i < init.len() && init[i] == before[k];
            assert(more.take(j)[i] == before[k]);
            assert(header_known(more.take(j), key));
        }
    } else {
        assert(all[before.len() as int] == more[j]);
    }
}

/// Where the row of parameter `i` goes, and that it stays there.
proof fn lemma_filed(doc: Json, r: RequestView, ps: Seq<Json>, i: int)
    requires
        0 <= i < ps.len(),
    ensures
        ({
            let before = with_params(doc, r, ps.take(i));
            let after = with_params(doc, r, ps.take(i + 1));
            let all = with_params(doc, r, ps);
            &&& after == with_param(doc, before, ps[i])
            &&& after.path_params.len() <= all.path_params.len()
            &&& after.query.len() <= all.query.len()
            &&& after.headers.len() <= all.headers.len()
            &&& after.docs.len() <= all.docs.len()
            &&& after.path_params == all.path_params.take(after.path_params.len() as int)
            &&& after.query == all.query.take(after.query.len() as int)
            &&& after.headers == all.headers.take(after.headers.len() as int)
            &&& after.docs == all.docs.take(after.docs.len() as int)
        }),
    decreases ps.len(),
{
    assert(ps.take(i + 1).drop_last() =~= ps.take(i));
    assert(ps.take(i + 1).last() == ps[i]);
    let after = with_params(doc, r, ps.take(i + 1));
    let all = with_params(doc, r, ps);
    if i == ps.len() - 1 {
        assert(ps.take(i + 1) =~= ps);
        assert(all.path_params.take(all.path_params.len() as int) =~= all.path_params);
        assert(all.query.take(all.query.len() as int) =~= all.query);
        assert(all.headers.take(all.headers.len() as int) =~= all.headers);
        assert(all.docs.take(all.docs.len() as int) =~= all.docs);
    } else {
        let init = ps.drop_last();
        lemma_filed(doc, r, init, i);
        assert(init.take(i + 1) =~= ps.take(i + 1));
        assert(init.take(i) =~= ps.take(i));
        let most = with_params(doc, r, init);
        assert(all.path_params.take(after.path_params.len() as int) =~= most.path_params.take(
            after.path_params.len() as int,
        ));
        assert(all.query.take(after.query.len() as int) =~= most.query.take(after.query.len() as int));
        assert(all.headers.take(after.headers.len() as int) =~= most.headers.take(
            after.headers.len() as int,
        ));
        assert(all.docs.take(after.docs.len() as int) =~= most.docs.take(after.docs.len() as int));
    }
}

/// Every named parameter in a path, query or header has a row of its own in the
/// request, under its name and with its value, and documentation. Those in paths
/// are switched on, the others where they are required. Rows stand in the order of
/// the parameters.
pub proof fn lemma_every_parameter_is_filed(doc: Json, o: Operation, id: u128, i: int)
    requires
        0 <= i < params_of(doc, o).len(),
        field_text(params_of(doc, o)[i], "name"@) is Some,
        field_text(params_of(doc, o)[i], "name"@)->0.len() > 0,
    ensures
        ({
            let r = request_of(doc, o, id);
            let p = params_of(doc, o)[i];
            let key = field_text(p, "name"@)->0;
            let place = field_text(p, "in"@);
            let required = field_flag(p, "required"@) == Some(true);
            let value = param_value_of(doc, p, required);
            &&& place == Some("path"@) ==> r.path_params.contains(RowView { key, value, enabled: true })
            &&& place == Some("query"@) ==> r.query.contains(RowView { key, value, enabled: required })
            &&& place == Some("header"@) ==> r.headers.contains(
                RowView { key, value, enabled: required },
            )
            &&& place == Some("path"@) || place == Some("query"@) || place == Some("header"@)
                ==> r.docs.contains(param_doc_of(doc, p))
        }),
{
    reveal_strlit("path");
    reveal_strlit("query");
    reveal_strlit("header");
    assert("path"@.len() == 4 && "query"@.len() == 5 && "header"@.len() == 6);
    let r = request_of(doc, o, id);
    let ps = params_of(doc, o);
    let p = ps[i];
    let base = base_request(o, id);
    let before = with_params(doc, base, ps.take(i));
    let after = with_params(doc, base, ps.take(i + 1));
    let all = with_params(doc, base, ps);
    lemma_filed(doc, base, ps, i);
    lemma_headers_kept(all.headers, implied_rows(doc, o.op));
    let place = field_text(p, "in"@);
    if place == Some("path"@) {
        let k = before.path_params.len() as int;
        assert(all.path_params.take(after.path_params.len() as int)[k] == r.path_params[k]);
    }
    if place == Some("query"@) {
        let k = before.query.len() as int;
        assert(all.query.take(after.query.len() as int)[k] == r.query[k]);
    }
    if place == Some("header"@) {
        let k = before.headers.len() as int;
        assert(all.headers.take(after.headers.len() as int)[k] == all.headers[k]);
        assert(r.headers[k] == all.headers[k]);
    }
    if place == Some("path"@) || place == Some("query"@) || place == Some("header"@) {
        let k = before.docs.len() as int;
        assert(all.docs.take(after.docs.len() as int)[k] == all.docs[k]);
        assert(r.docs[k] == all.docs[k]);
    }
}

/// Query rows stand in the order of the parameters that they come from.
pub proof fn lemma_query_rows_in_order(doc: Json, o: Operation, id: u128, i: int, j: int)
    requires
        0 <= i < j < params_of(doc, o).len(),
        field_text(params_of(doc, o)[i], "name"@) is Some,
        field_text(params_of(doc, o)[i], "name"@)->0.len() > 0,
        field_text(params_of(doc, o)[i], "in"@) == Some("query"@),
        field_text(params_of(doc, o)[j], "name"@) is Some,
        field_text(params_of(doc, o)[j], "name"@)->0.len() > 0,
        field_text(params_of(doc, o)[j], "in"@) == Some("query"@),
    ensures
        exists|k: int, l: int|
            0 <= k < l < request_of(doc, o, id).query.len() && (#[trigger] request_of(
                doc,
                o,
                id,
            ).query[k]).key == field_text(params_of(doc, o)[i], "name"@)->0 && (#[trigger] request_of(
                doc,
                o,
                id,
            ).query[l]).key == field_text(params_of(doc, o)[j], "name"@)->0,
{
    reveal_strlit("path");
    reveal_strlit("query");
    assert("path"@.len() == 4 && "query"@.len() == 5);
    let r = request_of(doc, o, id);
    let ps = params_of(doc, o);
    let base = base_request(o, id);
    let all = with_params(doc, base, ps);
    lemma_filed(doc, base, ps, i);
    lemma_filed(doc, base, ps, j);
    let first = with_params(doc, base, ps.take(i));
    let after_first = with_params(doc, base, ps.take(i + 1));
    let second = with_params(doc, base, ps.take(j));
    let after_second = with_params(doc, base, ps.take(j + 1));
    let k = first.query.len() as int;
    let l = second.query.len() as int;
    assert(ps.take(j).take(i + 1) =~= ps.take(i + 1));
    assert(ps.take(j).take(i) =~= ps.take(i));
    lemma_filed(doc, base, ps.take(j), i);
    assert(all.query.take(after_first.query.len() as int)[k] == r.query[k]);
    assert(all.query.take(after_second.query.len() as int)[l] == r.query[l]);
}

/// Whether a row is that of one of the parameters.
pub open spec fn row_of_param(doc: Json, p: Json, place: Seq<char>, row: RowView) -> bool {
    let required = field_flag(p, "required"@) == Some(true);
    &&& field_text(p, "name"@) == Some(row.key)
    &&& row.key.len() > 0
    &&& field_text(p, "in"@) == Some(place)
    &&& row.value == param_value_of(doc, p, required)
    &&& row.enabled == (place == "path"@ || required)
}

pub open spec fn has_param(doc: Json, ps: Seq<Json>, place: Seq<char>, row: RowView) -> bool {
    exists|i: int| 0 <= i < ps.len() && row_of_param(doc, #[trigger] ps[i], place, row)
}

proof fn lemma_rows_have_params(doc: Json, r: RequestView, ps: Seq<Json>)
    requires
        r.path_params.len() == 0,
        r.query.len() == 0,
        r.headers.len() == 0,
    ensures
        forall|k: int|
            0 <= k < with_params(doc, r, ps).path_params.len() ==> has_param(
                doc,
                ps,
                "path"@,
                #[trigger] with_params(doc, r, ps).path_params[k],
            ),
        forall|k: int|
            0 <= k < with_params(doc, r, ps).query.len() ==> has_param(
                doc,
                ps,
                "query"@,
                #[trigger] with_params(doc, r, ps).query[k],
            ),
        forall|k: int|
            0 <= k < with_params(doc, r, ps).headers.len() ==> has_param(
                doc,
                ps,
                "header"@,
                #[trigger] with_params(doc, r, ps).headers[k],
            ),
    decreases ps.len(),
{
    if ps.len() > 0 {
        reveal_strlit("path");
        reveal_strlit("query");
        reveal_strlit("header");
        assert("path"@.len() == 4 && "query"@.len() == 5 && "header"@.len() == 6);
        let init = ps.drop_last();
        let last = ps.len() - 1;
        lemma_rows_have_params(doc, r, init);
        let before = with_params(doc, r, init);
        let all = with_params(doc, r, ps);
        assert forall|k: int| 0 <= k < all.path_params.len() implies has_param(
            doc,
            ps,
            "path"@,
            #[trigger] all.path_params[k],
        ) by {
            if k < before.path_params.len() {
                assert(all.path_params[k] == before.path_params[k]);
                assert(has_param(doc, init, "path"@, before.path_params[k]));
                let i = choose|i: int|
                    0 <= i < init.len() && row_of_param(
                        doc,
                        #[trigger] init[i],
                        "path"@,
                        before.path_params[k],
                    );
                assert(ps[i] == init[i]);
            } else {
                assert(row_of_param(doc, ps[last], "path"@, all.path_params[k]));
            }
        }
        assert forall|k: int| 0 <= k < all.query.len() implies has_param(
            doc,
            ps,
            "query"@,
            #[trigger] all.query[k],
        ) by {
            if k < before.query.len() {
                assert(all.query[k] == before.query[k]);
                assert(has_param(doc, init, "query"@, before.query[k]));
                let i = choose|i: int|
                    0 <= i < init.len() && row_of_param(
                        doc,
                        #[trigger] init[i],
                        "query"@,
                        before.query[k],
                    );
                assert(ps[i] == init[i]);
            } else {
                assert(row_of_param(doc, ps[last], "query"@, all.query[k]));
            }
        }
        assert forall|k: int| 0 <= k < all.headers.len() implies has_param(
            doc,
            ps,
            "header"@,
            #[trigger] all.headers[k],
        ) by {
            if k < before.headers.len() {
                assert(all.headers[k] == before.headers[k]);
                assert(has_param(doc, init, "header"@, before.headers[k]));
                let i = choose|i: int|
                    0 <= i < init.len() && row_of_param(
                        doc,
                        #[trigger] init[i],
                        "header"@,
                        before.headers[k],
                    );
                assert(ps[i] == init[i]);
            } else {
                assert(row_of_param(doc, ps[last], "header"@, all.headers[k]));
            }
        }
    }
}

/// No row of a request is made up: those of paths and queries come from parameters,
/// and the headers from parameters or from what the operation implies.
pub proof fn lemma_every_row_has_its_parameter(doc: Json, o: Operation, id: u128)
    ensures
        ({
            let r = request_of(doc, o, id);
            let ps = params_of(doc, o);
            &&& forall|k: int|
                0 <= k < r.path_params.len() ==> has_param(doc, ps, "path"@, #[trigger] r.path_params[k])
            &&& forall|k: int|
                0 <= k < r.query.len() ==> has_param(doc, ps, "query"@, #[trigger] r.query[k])
            &&& forall|k: int|
                0 <= k < r.headers.len() ==> implied_rows(doc, o.op).contains(#[trigger] r.headers[k])
                    || has_param(doc, ps, "header"@, r.headers[k])
        }),
{
    let r = request_of(doc, o, id);
    let ps = params_of(doc, o);
    let base = base_request(o, id);
    let all = with_params(doc, base, ps);
    let implied = implied_rows(doc, o.op);
    lemma_rows_have_params(doc, base, ps);
    lemma_headers_kept(all.headers, implied);
    assert forall|k: int| 0 <= k < r.headers.len() implies implied.contains(#[trigger] r.headers[k])
        || has_param(doc, ps, "header"@, r.headers[k]) by {
        if k < all.headers.len() {
            assert(r.headers[k] == all.headers[k]);
        }
    }
}

/// A parameter is filled in with what its author wrote down: an example, the first
/// of the named examples, the schema's example or its default, in this order.
/// Failing that, a required one gets an example of its schema, and an optional one
/// stays empty.
pub proof fn lemma_parameter_values(doc: Json, p: Json, required: bool)
    ensures
        ({
            let v = param_value_of(doc, p, required);
            let named = match field_entries(p, "examples"@) {
                Some(o) => if o.len() > 0 {
                    field(concrete(doc, o[0].1), "value"@)
                } else {
                    None
                },
                None => None,
            };
            let schema = field(p, "schema"@);
            let own = match schema {
                Some(s) => field(concrete(doc, s), "example"@),
                None => None,
            };
            let default = match schema {
                Some(s) => field(concrete(doc, s), "default"@),
                None => None,
            };
            &&& field(p, "example"@) matches Some(x) ==> v == plain_text(x)
            &&& field(p, "example"@) is None && named is Some ==> v == plain_text(named->0)
            &&& field(p, "example"@) is None && named is None && own is Some ==> v == plain_text(own->0)
            &&& field(p, "example"@) is None && named is None && own is None && default is Some ==> v
                == plain_text(default->0)
            &&& field(p, "example"@) is None && named is None && own is None && default is None ==> {
                &&& !required ==> v.len() == 0
                &&& required && schema is None ==> v.len() == 0
                &&& required && schema is Some ==> v == plain_text(
                    example(doc, concrete(doc, schema->0)),
                )
            }
        }),
{
}

/// Texts are typed in as they stand, without quotes, in fields and in bodies;
/// anything else as JSON, on one line in a field and over several in a body.
pub proof fn lemma_texts_lose_their_quotes(j: Json)
    ensures
        j matches Json::Text(s) ==> plain_text(j) == s && body_text(j) == s,
        !(j is Text) ==> plain_text(j) == compact_text(j) && body_text(j) == pretty_text(j),
{
}

} // verus!
