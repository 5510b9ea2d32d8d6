//! What of a saved request goes out.

use vstd::prelude::*;

use crate::http::client::{enabled, live, pairs_fit, prepared, texts_fit, Pairs, TextsView};
use crate::http::vars::{
    lemma_plain_text_unchanged, lemma_value_put_in_verbatim, substituted, with_placeholder,
};
use crate::model::RequestView;
use crate::text::{find, is_white, lacks, lemma_trim_reaches, trim, trim_start};

verus! {

// ----- one variable -----

/// Whether `text` is `before`, the variable `name` and `rest`, and the collection
/// defines that variable.
pub open spec fn has_variable(
    text: Seq<char>,
    before: Seq<char>,
    name: Seq<char>,
    rest: Seq<char>,
    vars: Map<Seq<char>, Seq<char>>,
) -> bool {
    &&& text == before + seq!['{', '{'] + name + seq!['}', '}'] + rest
    &&& lacks(before, '{')
    &&& find(rest, seq!['{', '{']) is None
    &&& lacks(name, '}')
    &&& trim(name).len() == 0 || trim(name)[0] != '$'
    &&& vars.contains_key(trim(name))
}

/// A variable is replaced by its value, in place.
pub proof fn lemma_variable_is_replaced(
    text: Seq<char>,
    before: Seq<char>,
    name: Seq<char>,
    rest: Seq<char>,
    vars: Map<Seq<char>, Seq<char>>,
    out: Seq<char>,
)
    requires
        has_variable(text, before, name, rest, vars),
        substituted(text, vars, out),
    ensures
        out == before + vars[trim(name)] + rest,
{
    assert(text == with_placeholder(before, name, rest));
    lemma_value_put_in_verbatim(before, name, rest, vars, out);
    let tail = choose|tail: Seq<char>| #[trigger]
        substituted(rest, vars, tail) && out == before + vars[trim(name)] + tail;
    lemma_plain_text_unchanged(rest, vars, tail);
}

/// A text with a character that is no blank is not blank.
pub proof fn lemma_not_blank(s: Seq<char>, k: int)
    requires
        0 <= k < s.len(),
        !is_white(s[k]),
    ensures
        trim(s).len() > 0,
    decreases s.len(),
{
    if is_white(s[0]) {
        assert(s.skip(1)[k - 1] == s[k]);
        lemma_not_blank(s.skip(1), k - 1);
        assert(trim_start(s) == trim_start(s.skip(1)));
    } else {
        lemma_trim_reaches(s, k);
    }
}

// ----- the body -----

/// A variable in the body is sent as its value.
pub proof fn lemma_body_variable_is_sent(
    base: Seq<char>,
    r: RequestView,
    vars: Map<Seq<char>, Seq<char>>,
    bearer: Option<Seq<char>>,
    extra: Pairs,
    t: TextsView,
    before: Seq<char>,
    name: Seq<char>,
    rest: Seq<char>,
)
    requires
        texts_fit(r, vars, t),
        prepared(base, r, bearer, extra, t) is Ok,
        r.body is Some,
        has_variable(r.body->0, before, name, rest, vars),
    ensures
        prepared(base, r, bearer, extra, t)->Ok_0.body == Some(before + vars[trim(name)] + rest),
{
    let b = r.body->0;
    assert(b[before.len() as int] == '{');
    lemma_not_blank(b, before.len() as int);
    lemma_variable_is_replaced(b, before, name, rest, vars, t.body->0);
}

/// A body without variables is sent as it stands, and a blank one not at all.
pub proof fn lemma_plain_body_is_sent(
    base: Seq<char>,
    r: RequestView,
    vars: Map<Seq<char>, Seq<char>>,
    bearer: Option<Seq<char>>,
    extra: Pairs,
    t: TextsView,
)
    requires
        texts_fit(r, vars, t),
        prepared(base, r, bearer, extra, t) is Ok,
    ensures
        ({
            let p = prepared(base, r, bearer, extra, t)->Ok_0;
            match r.body {
                Some(b) => {
                    &&& trim(b).len() == 0 ==> p.body is None
                    &&& trim(b).len() > 0 ==> p.body is Some
                    &&& trim(b).len() > 0 && find(b, seq!['{', '{']) is None ==> p.body == Some(b)
                },
                None => p.body is None,
            }
        }),
{
    match r.body {
        Some(b) => {
            if trim(b).len() > 0 && find(b, seq!['{', '{']) is None {
                lemma_plain_text_unchanged(b, vars, t.body->0);
            }
        },
        None => {},
    }
}

// ----- the rest -----

/// Every query row that is switched on and named is sent, in order, with the
/// variables in its name and its value filled in.
pub proof fn lemma_query_is_sent(
    base: Seq<char>,
    r: RequestView,
    vars: Map<Seq<char>, Seq<char>>,
    bearer: Option<Seq<char>>,
    extra: Pairs,
    t: TextsView,
    i: int,
)
    requires
        texts_fit(r, vars, t),
        prepared(base, r, bearer, extra, t) is Ok,
        0 <= i < live(r.query).len(),
    ensures
        ({
            let p = prepared(base, r, bearer, extra, t)->Ok_0;
            let row = live(r.query)[i];
            &&& p.query.len() == live(r.query).len()
            &&& find(row.key, seq!['{', '{']) is None ==> p.query[i].0 == row.key
            &&& find(row.value, seq!['{', '{']) is None ==> p.query[i].1 == row.value
            &&& substituted(row.key, vars, p.query[i].0)
            &&& substituted(row.value, vars, p.query[i].1)
        }),
{
    lemma_pair_filled(r, vars, t, i);
}

proof fn lemma_pair_filled(
    r: RequestView,
    vars: Map<Seq<char>, Seq<char>>,
    t: TextsView,
    i: int,
)
    requires
        pairs_fit(live(r.query), vars, t.query),
        0 <= i < live(r.query).len(),
    ensures
        ({
            let row = live(r.query)[i];
            &&& find(row.key, seq!['{', '{']) is None ==> t.query[i].0 == row.key
            &&& find(row.value, seq!['{', '{']) is None ==> t.query[i].1 == row.value
            &&& substituted(row.key, vars, t.query[i].0)
            &&& substituted(row.value, vars, t.query[i].1)
        }),
{
    let row = live(r.query)[i];
    assert(substituted(row.key, vars, t.query[i].0));
    if find(row.key, seq!['{', '{']) is None {
        lemma_plain_text_unchanged(row.key, vars, t.query[i].0);
    }
    if find(row.value, seq!['{', '{']) is None {
        lemma_plain_text_unchanged(row.value, vars, t.query[i].1);
    }
}

/// A variable in a query value is sent as its value.
pub proof fn lemma_query_variable_is_sent(
    base: Seq<char>,
    r: RequestView,
    vars: Map<Seq<char>, Seq<char>>,
    bearer: Option<Seq<char>>,
    extra: Pairs,
    t: TextsView,
    i: int,
    before: Seq<char>,
    name: Seq<char>,
    rest: Seq<char>,
)
    requires
        texts_fit(r, vars, t),
        prepared(base, r, bearer, extra, t) is Ok,
        0 <= i < live(r.query).len(),
        has_variable(live(r.query)[i].value, before, name, rest, vars),
    ensures
        prepared(base, r, bearer, extra, t)->Ok_0.query[i].1 == before + vars[trim(name)] + rest,
{
    lemma_pair_filled(r, vars, t, i);
    lemma_variable_is_replaced(live(r.query)[i].value, before, name, rest, vars, t.query[i].1);
}

/// A variable in a header value, in a path parameter or in the path is filled in
/// before the request is put together.
pub proof fn lemma_variables_are_filled(
    r: RequestView,
    vars: Map<Seq<char>, Seq<char>>,
    t: TextsView,
    i: int,
    before: Seq<char>,
    name: Seq<char>,
    rest: Seq<char>,
)
    requires
        texts_fit(r, vars, t),
    ensures
        t.headers.len() == live(r.headers).len(),
        t.values.len() == enabled(r.path_params).len(),
        0 <= i < live(r.headers).len() && has_variable(
            live(r.headers)[i].value,
            before,
            name,
            rest,
            vars,
        ) ==> t.headers[i].1 == before + vars[trim(name)] + rest,
        0 <= i < enabled(r.path_params).len() && has_variable(
            enabled(r.path_params)[i].value,
            before,
            name,
            rest,
            vars,
        ) ==> t.values[i] == before + vars[trim(name)] + rest,
        has_variable(r.path, before, name, rest, vars) ==> t.path == before + vars[trim(name)] + rest,
{
    if 0 <= i < live(r.headers).len() && has_variable(
        live(r.headers)[i].value,
        before,
        name,
        rest,
        vars,
    ) {
        let pair = t.headers[i];
        lemma_variable_is_replaced(live(r.headers)[i].value, before, name, rest, vars, pair.1);
    }
    if 0 <= i < enabled(r.path_params).len() && has_variable(
        enabled(r.path_params)[i].value,
        before,
        name,
        rest,
        vars,
    ) {
        let v = t.values[i];
        lemma_variable_is_replaced(enabled(r.path_params)[i].value, before, name, rest, vars, v);
    }
    if has_variable(r.path, before, name, rest, vars) {
        lemma_variable_is_replaced(r.path, before, name, rest, vars, t.path);
    }
}

/// Text without variables goes out as it was typed.
pub proof fn lemma_plain_texts_are_kept(
    r: RequestView,
    vars: Map<Seq<char>, Seq<char>>,
    t: TextsView,
    i: int,
)
    requires
        texts_fit(r, vars, t),
    ensures
        find(r.path, seq!['{', '{']) is None ==> t.path == r.path,
        0 <= i < live(r.headers).len() && find(live(r.headers)[i].key, seq!['{', '{']) is None
            ==> t.headers[i].0 == live(r.headers)[i].key,
        0 <= i < live(r.headers).len() && find(live(r.headers)[i].value, seq!['{', '{']) is None
            ==> t.headers[i].1 == live(r.headers)[i].value,
        0 <= i < enabled(r.path_params).len() && find(
            enabled(r.path_params)[i].value,
            seq!['{', '{'],
        ) is None ==> t.values[i] == enabled(r.path_params)[i].value,
{
    if find(r.path, seq!['{', '{']) is None {
        lemma_plain_text_unchanged(r.path, vars, t.path);
    }
    if 0 <= i < live(r.headers).len() {
        let row = live(r.headers)[i];
        let pair = t.headers[i];
        assert(substituted(row.key, vars, pair.0) && substituted(row.value, vars, pair.1));
        if find(row.key, seq!['{', '{']) is None {
            lemma_plain_text_unchanged(row.key, vars, pair.0);
        }
        if find(row.value, seq!['{', '{']) is None {
            lemma_plain_text_unchanged(row.value, vars, pair.1);
        }
    }
    if 0 <= i < enabled(r.path_params).len() {
        let v = t.values[i];
        assert(substituted(enabled(r.path_params)[i].value, vars, v));
        if find(enabled(r.path_params)[i].value, seq!['{', '{']) is None {
            lemma_plain_text_unchanged(enabled(r.path_params)[i].value, vars, v);
        }
    }
}

/// A request goes out with its own method, to the URL of its path, with the query
/// that its rows give.
pub proof fn lemma_method_url_and_query(
    base: Seq<char>,
    r: RequestView,
    bearer: Option<Seq<char>>,
    extra: Pairs,
    t: TextsView,
)
    requires
        prepared(base, r, bearer, extra, t) is Ok,
    ensures
        ({
            let p = prepared(base, r, bearer, extra, t)->Ok_0;
            &&& p.method == r.method
            &&& p.url == crate::http::client::url_of(base, r, t.path, t.values)
            &&& p.query == t.query
        }),
{
}

} // verus!
