//! Requests, labels, methods and servers.

use vstd::prelude::*;

use crate::model::{
    active_base, blank_collection, label_of, lemma_method_keys, lemma_method_round_trip,
    lemma_sync_keeps_rows, placeholders, request_matches, row_named, synced_params, CollectionView,
    LabelMode, Method, RequestView, RowView,
};
use crate::text::{contains, lower};

verus! {

// ----- searching -----

/// A request is found by any part of its name, its path, its summary, its operation
/// identifier, its verb or a tag, in any mix of small and capital letters, and by
/// nothing else.
pub proof fn lemma_found_by(r: RequestView, needle: Seq<char>)
    ensures
        contains(lower(r.name), lower(needle)) ==> request_matches(r, needle),
        contains(lower(r.path), lower(needle)) ==> request_matches(r, needle),
        r.summary matches Some(s) && contains(lower(s), lower(needle)) ==> request_matches(r, needle),
        r.operation_id matches Some(s) && contains(lower(s), lower(needle)) ==> request_matches(
            r,
            needle,
        ),
        contains(lower(verb_text(r.method)), lower(needle)) ==> request_matches(r, needle),
        forall|i: int|
            0 <= i < r.tags.len() && contains(lower(#[trigger] r.tags[i]), lower(needle))
                ==> request_matches(r, needle),
{
}

/// A text that occurs nowhere in a request does not find it.
pub proof fn lemma_not_found_by(r: RequestView, needle: Seq<char>)
    requires
        needle.len() > 0,
        !contains(lower(r.name), lower(needle)),
        !contains(lower(r.path), lower(needle)),
        r.summary is Some ==> !contains(lower(r.summary->0), lower(needle)),
        r.operation_id is Some ==> !contains(lower(r.operation_id->0), lower(needle)),
        !contains(lower(verb_text(r.method)), lower(needle)),
        forall|i: int| 0 <= i < r.tags.len() ==> !contains(lower(#[trigger] r.tags[i]), lower(needle)),
    ensures
        !request_matches(r, needle),
{
    assert(lower(needle).len() == needle.len());
    assert(lower(Seq::<char>::empty()) =~= Seq::<char>::empty());
    assert(!contains(lower(Seq::<char>::empty()), lower(needle)));
}

/// The verb of each method, spelled out.
pub open spec fn verb_text(m: Method) -> Seq<char> {
    match m {
        Method::Get => "GET"@,
        Method::Post => "POST"@,
        Method::Put => "PUT"@,
        Method::Patch => "PATCH"@,
        Method::Delete => "DELETE"@,
        Method::Head => "HEAD"@,
        Method::Options => "OPTIONS"@,
    }
}

// ----- methods -----

/// A verb in capitals reads back as its method.
pub proof fn lemma_verbs_read_back(m: Method)
    ensures
        m.verb() == verb_text(m),
        Method::named(verb_text(m)) == Some(m),
{
    lemma_method_round_trip(m);
    lemma_method_keys(m, Method::Get);
    lemma_method_keys(m, Method::Post);
    lemma_method_keys(m, Method::Put);
    lemma_method_keys(m, Method::Patch);
    lemma_method_keys(m, Method::Delete);
    lemma_method_keys(m, Method::Head);
    lemma_method_keys(m, Method::Options);
}

/// Stepping through the methods comes back after all of them, and not before.
pub proof fn lemma_method_cycle(m: Method)
    ensures
        ({
            let a = m.next_spec();
            let b = a.next_spec();
            let c = b.next_spec();
            let d = c.next_spec();
            let e = d.next_spec();
            let f = e.next_spec();
            &&& f.next_spec() == m
            &&& a != m && b != m && c != m && d != m && e != m && f != m
        }),
{
}

// ----- path parameters -----

/// A path parameter that is still in the path keeps its value and its flag when the
/// path changes; a new one starts empty and switched on.
pub proof fn lemma_sync_keeps_values(r: RequestView, key: Seq<char>, i: int)
    requires
        placeholders(r.path).contains(key),
    ensures
        0 <= i < r.path_params.len() && r.path_params[i].key == key && (forall|j: int|
            0 <= j < i ==> (#[trigger] r.path_params[j]).key != key) ==> synced_params(r).contains(
            r.path_params[i],
        ),
        (forall|j: int| 0 <= j < r.path_params.len() ==> (#[trigger] r.path_params[j]).key != key)
            ==> synced_params(r).contains(RowView { key, value: Seq::empty(), enabled: true }),
        synced_params(r).len() == placeholders(r.path).len(),
{
    lemma_sync_keeps_rows(r, key);
    lemma_row_found(r.path_params, key, i);
}

proof fn lemma_row_found(rows: Seq<RowView>, key: Seq<char>, i: int)
    ensures
        0 <= i < rows.len() && rows[i].key == key && (forall|j: int|
            0 <= j < i ==> (#[trigger] rows[j]).key != key) ==> row_named(rows, key) == Some(rows[i]),
        (forall|j: int| 0 <= j < rows.len() ==> (#[trigger] rows[j]).key != key) ==> row_named(
            rows,
            key,
        ) is None,
    decreases rows.len(),
{
    if rows.len() > 0 {
        let rest = rows.skip(1);
        lemma_row_found(rest, key, i - 1);
        if 0 < i < rows.len() && rows[i].key == key && (forall|j: int|
            0 <= j < i ==> (#[trigger] rows[j]).key != key) {
            assert(rows[0].key != key);
            assert(rest[i - 1] == rows[i]);
            assert forall|j: int| 0 <= j < i - 1 implies (#[trigger] rest[j]).key != key by {
                assert(rest[j] == rows[j + 1]);
            }
        }
        if forall|j: int| 0 <= j < rows.len() ==> (#[trigger] rows[j]).key != key {
            assert(rows[0].key != key);
            assert forall|j: int| 0 <= j < rest.len() implies (#[trigger] rest[j]).key != key by {
                assert(rest[j] == rows[j + 1]);
            }
        }
    }
}

// ----- labels -----

/// The label is the name, the summary or the path, as the mode says; a request
/// without a summary falls back on its name.
pub proof fn lemma_labels(r: RequestView)
    ensures
        r.name.len() > 0 ==> label_of(r, LabelMode::Name) == r.name,
        r.path.len() > 0 ==> label_of(r, LabelMode::Path) == r.path,
        r.summary is Some && r.summary->0.len() > 0 ==> label_of(r, LabelMode::Summary) == r.summary->0,
        r.summary is None && r.name.len() > 0 ==> label_of(r, LabelMode::Summary) == r.name,
        r.summary is None && r.name.len() == 0 ==> label_of(r, LabelMode::Summary) == r.path,
        r.name.len() == 0 ==> label_of(r, LabelMode::Name) == r.path,
{
}

/// Stepping through the label modes shows all three.
pub proof fn lemma_label_cycle(m: LabelMode)
    ensures
        m.next_spec() != m,
        m.next_spec().next_spec() != m,
        m.next_spec().next_spec().next_spec() == m,
        LabelMode::Name.next_spec() == LabelMode::Summary,
{
}

// ----- servers -----

/// The base URL is the active server; there is none where the place points past the
/// end.
pub proof fn lemma_active_server(c: CollectionView)
    ensures
        c.active_server < c.servers.len() ==> active_base(c) == Some(
            c.servers[c.active_server as int],
        ),
        c.active_server >= c.servers.len() ==> active_base(c) is None,
        active_base(blank_collection(c.name)) is None,
{
}

} // verus!
