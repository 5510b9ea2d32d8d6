//! Bodies, media types, implied headers, auth and servers of an import.

use vstd::prelude::*;

use crate::json::{
    body_text, entry, field, field_entries, field_items, field_text, Json,
};
use crate::model::{AuthKind, AuthStyle, RowView};
use crate::openapi::examples::example;
use crate::openapi::import::{
    add_requirements, add_schemes, auth_of, first_auth, first_mentioning, first_named, first_success,
    header_known, implied_rows, key_headers, known_name, params_of, preferred_media, request_of,
    response_media, server_urls, servers_of, with_params, Operation,
};
use crate::openapi::laws::params::{base_request, lemma_header_added, lemma_headers_kept};
use crate::openapi::resolve::concrete;
use crate::text::{contains, lower, trim_end_char};

verus! {

// ----- media types -----

/// Whether entry `j` of a `content` map is the one to go by: the first that is
/// `application/json`; failing that the first that mentions JSON; failing that the
/// first.
pub open spec fn chosen(content: Seq<(Seq<char>, Json)>, j: int) -> bool {
    let is_json = |i: int| content[i].0 == "application/json"@;
    let like_json = |i: int| contains(content[i].0, "json"@);
    &&& 0 <= j < content.len()
    &&& {
        ||| is_json(j) && forall|i: int| 0 <= i < j ==> !#[trigger] is_json(i)
        ||| (forall|i: int| 0 <= i < content.len() ==> !#[trigger] is_json(i)) && like_json(j) && forall|
            i: int,
        |
            0 <= i < j ==> !#[trigger] like_json(i)
        ||| j == 0 && (forall|i: int| 0 <= i < content.len() ==> !#[trigger] is_json(i)) && forall|
            i: int,
        |
            0 <= i < content.len() ==> !#[trigger] like_json(i)
    }
}

proof fn lemma_first_named(o: Seq<(Seq<char>, Json)>, name: Seq<char>, j: int)
    requires
        0 <= j < o.len(),
        o[j].0 == name,
        forall|i: int| 0 <= i < j ==> (#[trigger] o[i]).0 != name,
    ensures
        first_named(o, name) == Some(o[j]),
    decreases o.len(),
{
    if j > 0 {
        assert(o[0].0 != name);
        assert forall|i: int| 0 <= i < j - 1 implies (#[trigger] o.skip(1)[i]).0 != name by {
            assert(o[i + 1].0 != name);
        }
        lemma_first_named(o.skip(1), name, j - 1);
    }
}

proof fn lemma_none_named(o: Seq<(Seq<char>, Json)>, name: Seq<char>)
    requires
        forall|i: int| 0 <= i < o.len() ==> (#[trigger] o[i]).0 != name,
    ensures
        first_named(o, name) is None,
    decreases o.len(),
{
    if o.len() > 0 {
        assert(o[0].0 != name);
        assert forall|i: int| 0 <= i < o.skip(1).len() implies (#[trigger] o.skip(1)[i]).0 != name by {
            assert(o[i + 1].0 != name);
        }
        lemma_none_named(o.skip(1), name);
    }
}

proof fn lemma_first_mentioning(o: Seq<(Seq<char>, Json)>, part: Seq<char>, j: int)
    requires
        0 <= j < o.len(),
        contains(o[j].0, part),
        forall|i: int| 0 <= i < j ==> !contains((#[trigger] o[i]).0, part),
    ensures
        first_mentioning(o, part) == Some(o[j]),
    decreases o.len(),
{
    if j > 0 {
        assert(!contains(o[0].0, part));
        assert forall|i: int| 0 <= i < j - 1 implies !contains((#[trigger] o.skip(1)[i]).0, part) by {
            assert(!contains(o[i + 1].0, part));
        }
        lemma_first_mentioning(o.skip(1), part, j - 1);
    }
}

proof fn lemma_none_mentioning(o: Seq<(Seq<char>, Json)>, part: Seq<char>)
    requires
        forall|i: int| 0 <= i < o.len() ==> !contains((#[trigger] o[i]).0, part),
    ensures
        first_mentioning(o, part) is None,
    decreases o.len(),
{
    if o.len() > 0 {
        assert(!contains(o[0].0, part));
        assert forall|i: int| 0 <= i < o.skip(1).len() implies !contains(
            (#[trigger] o.skip(1)[i]).0,
            part,
        ) by {
            assert(!contains(o[i + 1].0, part));
        }
        lemma_none_mentioning(o.skip(1), part);
    }
}

/// JSON is preferred among media types, then what is like it, then what comes
/// first.
pub proof fn lemma_json_is_preferred(content: Seq<(Seq<char>, Json)>, j: int)
    requires
        chosen(content, j),
    ensures
        preferred_media(content) == Some(content[j]),
{
    let name = "application/json"@;
    let is_json = |i: int| content[i].0 == "application/json"@;
    let like_json = |i: int| contains(content[i].0, "json"@);
    if is_json(j) && forall|i: int| 0 <= i < j ==> !#[trigger] is_json(i) {
        assert forall|i: int| 0 <= i < j implies (#[trigger] content[i]).0 != name by {
            assert(!is_json(i));
        }
        lemma_first_named(content, name, j);
    } else {
        assert forall|i: int| 0 <= i < content.len() implies (#[trigger] content[i]).0 != name by {
            assert(!is_json(i));
        }
        lemma_none_named(content, name);
        if like_json(j) && forall|i: int| 0 <= i < j ==> !#[trigger] like_json(i) {
            assert forall|i: int| 0 <= i < j implies !contains((#[trigger] content[i]).0, "json"@) by {
                assert(!like_json(i));
            }
            lemma_first_mentioning(content, "json"@, j);
        } else {
            assert forall|i: int| 0 <= i < content.len() implies !contains(
                (#[trigger] content[i]).0,
                "json"@,
            ) by {
                assert(!like_json(i));
            }
            lemma_none_mentioning(content, "json"@);
        }
    }
}

// ----- bodies -----

/// An imported request has the body that its operation's media type gives: the
/// example; failing that the first of the named examples; failing that an example
/// of the schema, so that whatever has a schema has a body.
pub proof fn lemma_bodies_are_prefilled(
    doc: Json,
    o: Operation,
    id: u128,
    body: Json,
    content: Seq<(Seq<char>, Json)>,
    j: int,
)
    requires
        field(o.op, "requestBody"@) == Some(body),
        field_entries(concrete(doc, body), "content"@) == Some(content),
        chosen(content, j),
    ensures
        ({
            let r = request_of(doc, o, id);
            let media = content[j].1;
            let named = match field_entries(media, "examples"@) {
                Some(e) => if e.len() > 0 {
                    field(concrete(doc, e[0].1), "value"@)
                } else {
                    None
                },
                None => None,
            };
            &&& field(media, "example"@) matches Some(x) ==> r.body == Some(body_text(x))
            &&& field(media, "example"@) is None && named is Some ==> r.body == Some(
                body_text(named->0),
            )
            &&& field(media, "example"@) is None && named is None ==> match field(media, "schema"@) {
                Some(s) => r.body == Some(body_text(example(doc, s))),
                None => r.body is None,
            }
        }),
{
    lemma_json_is_preferred(content, j);
}

/// An operation without a request body becomes a request without one.
pub proof fn lemma_no_body_is_made_up(doc: Json, o: Operation, id: u128)
    requires
        match field(o.op, "requestBody"@) {
            Some(body) => match field_entries(concrete(doc, body), "content"@) {
                Some(content) => content.len() == 0,
                None => true,
            },
            None => true,
        },
    ensures
        request_of(doc, o, id).body is None,
{
}

// ----- responses -----

/// Whether response `i` is the one to go by: the first whose code begins with a 2,
/// or, where there is none, the first called `default`.
pub open spec fn is_success(responses: Seq<(Seq<char>, Json)>, i: int) -> bool {
    let two = |k: int| responses[k].0.len() > 0 && responses[k].0[0] == '2';
    &&& 0 <= i < responses.len()
    &&& {
        ||| two(i) && forall|k: int| 0 <= k < i ==> !#[trigger] two(k)
        ||| (forall|k: int| 0 <= k < responses.len() ==> !#[trigger] two(k)) && responses[i].0
            == "default"@ && forall|k: int| 0 <= k < i ==> (#[trigger] responses[k]).0 != "default"@
    }
}

proof fn lemma_first_success(o: Seq<(Seq<char>, Json)>, i: int)
    requires
        0 <= i < o.len(),
        o[i].0.len() > 0 && o[i].0[0] == '2',
        forall|k: int| 0 <= k < i ==> !((#[trigger] o[k]).0.len() > 0 && o[k].0[0] == '2'),
    ensures
        first_success(o) == Some(o[i].1),
    decreases o.len(),
{
    if i > 0 {
        assert(!(o[0].0.len() > 0 && o[0].0[0] == '2'));
        assert forall|k: int| 0 <= k < i - 1 implies !((#[trigger] o.skip(1)[k]).0.len() > 0 && o.skip(
            1,
        )[k].0[0] == '2') by {
            assert(!(o[k + 1].0.len() > 0 && o[k + 1].0[0] == '2'));
        }
        lemma_first_success(o.skip(1), i - 1);
    }
}

proof fn lemma_no_success(o: Seq<(Seq<char>, Json)>)
    requires
        forall|k: int| 0 <= k < o.len() ==> !((#[trigger] o[k]).0.len() > 0 && o[k].0[0] == '2'),
    ensures
        first_success(o) is None,
    decreases o.len(),
{
    if o.len() > 0 {
        assert(!(o[0].0.len() > 0 && o[0].0[0] == '2'));
        assert forall|k: int| 0 <= k < o.skip(1).len() implies !((#[trigger] o.skip(1)[k]).0.len() > 0
            && o.skip(1)[k].0[0] == '2') by {
            assert(!(o[k + 1].0.len() > 0 && o[k + 1].0[0] == '2'));
        }
        lemma_no_success(o.skip(1));
    }
}

/// The value of an entry is that of the first of its name.
pub proof fn lemma_entry_is_the_first(o: Seq<(Seq<char>, Json)>, key: Seq<char>, i: int)
    requires
        0 <= i < o.len(),
        o[i].0 == key,
        forall|k: int| 0 <= k < i ==> (#[trigger] o[k]).0 != key,
    ensures
        entry(o, key) == Some(o[i].1),
    decreases o.len(),
{
    if i > 0 {
        assert(o[0].0 != key);
        assert forall|k: int| 0 <= k < i - 1 implies (#[trigger] o.skip(1)[k]).0 != key by {
            assert(o[k + 1].0 != key);
        }
        lemma_entry_is_the_first(o.skip(1), key, i - 1);
    }
}

/// What an operation returns is described by its first success response, or by the
/// default one.
pub proof fn lemma_success_is_described(
    doc: Json,
    op: Json,
    responses: Seq<(Seq<char>, Json)>,
    i: int,
    content: Seq<(Seq<char>, Json)>,
    j: int,
)
    requires
        field_entries(op, "responses"@) == Some(responses),
        is_success(responses, i),
        field_entries(concrete(doc, responses[i].1), "content"@) == Some(content),
        chosen(content, j),
    ensures
        response_media(doc, op) == Some(content[j]),
{
    let two = |k: int| responses[k].0.len() > 0 && responses[k].0[0] == '2';
    lemma_json_is_preferred(content, j);
    if two(i) && forall|k: int| 0 <= k < i ==> !#[trigger] two(k) {
        assert forall|k: int| 0 <= k < i implies !((#[trigger] responses[k]).0.len() > 0
            && responses[k].0[0] == '2') by {
            assert(!two(k));
        }
        lemma_first_success(responses, i);
    } else {
        assert forall|k: int| 0 <= k < responses.len() implies !((#[trigger] responses[k]).0.len() > 0
            && responses[k].0[0] == '2') by {
            assert(!two(k));
        }
        lemma_no_success(responses);
        lemma_entry_is_the_first(responses, "default"@, i);
    }
}

// ----- implied headers -----

/// The media type that an operation consumes is sent as its content type, unless a
/// header parameter of that name says otherwise.
pub proof fn lemma_content_type_is_set(
    doc: Json,
    o: Operation,
    id: u128,
    body: Json,
    content: Seq<(Seq<char>, Json)>,
    j: int,
)
    requires
        field(o.op, "requestBody"@) == Some(body),
        field_entries(concrete(doc, body), "content"@) == Some(content),
        chosen(content, j),
    ensures
        ({
            let own = with_params(doc, base_request(o, id), params_of(doc, o)).headers;
            header_known(own, "Content-Type"@) || request_of(doc, o, id).headers.contains(
                RowView { key: "Content-Type"@, value: content[j].0, enabled: true },
            )
        }),
{
    lemma_json_is_preferred(content, j);
    let own = with_params(doc, base_request(o, id), params_of(doc, o)).headers;
    let implied = implied_rows(doc, o.op);
    assert(implied[0] == RowView { key: "Content-Type"@, value: content[j].0, enabled: true });
    lemma_header_added(own, implied, 0);
}

/// The media type that an operation produces is what is asked for, unless a header
/// parameter of that name says otherwise.
pub proof fn lemma_accept_is_set(
    doc: Json,
    o: Operation,
    id: u128,
    responses: Seq<(Seq<char>, Json)>,
    i: int,
    content: Seq<(Seq<char>, Json)>,
    j: int,
)
    requires
        field_entries(o.op, "responses"@) == Some(responses),
        is_success(responses, i),
        field_entries(concrete(doc, responses[i].1), "content"@) == Some(content),
        chosen(content, j),
    ensures
        ({
            let own = with_params(doc, base_request(o, id), params_of(doc, o)).headers;
            header_known(own, "Accept"@) || request_of(doc, o, id).headers.contains(
                RowView { key: "Accept"@, value: content[j].0, enabled: true },
            )
        }),
{
    lemma_success_is_described(doc, o.op, responses, i, content, j);
    reveal_strlit("Accept");
    reveal_strlit("Content-Type");
    let own = with_params(doc, base_request(o, id), params_of(doc, o)).headers;
    let implied = implied_rows(doc, o.op);
    let row = RowView { key: "Accept"@, value: content[j].0, enabled: true };
    assert(lower("Accept"@).len() == 6 && lower("Content-Type"@).len() == 12);
    let k: int = if crate::openapi::import::request_media(doc, o.op) is Some {
        1
    } else {
        0
    };
    assert(implied[k] == row);
    assert(!header_known(implied.take(k), "Accept"@)) by {
        if header_known(implied.take(k), "Accept"@) {
            let n = choose|n: int|
                0 <= n < implied.take(k).len() && lower((#[trigger] implied.take(k)[n]).key) == lower(
                    "Accept"@,
                );
            assert(implied.take(k)[n].key == "Content-Type"@);
        }
    }
    lemma_header_added(own, implied, k);
}

/// Whether a scheme asks for an API key in the header `name`.
pub open spec fn asks_for_key(scheme: Json, name: Seq<char>) -> bool {
    &&& field_text(scheme, "type"@) == Some("apiKey"@)
    &&& field_text(scheme, "in"@) == Some("header"@)
    &&& field_text(scheme, "name"@) == Some(name)
    &&& name.len() > 0
}

proof fn lemma_schemes_known(
    doc: Json,
    schemes: Seq<(Seq<char>, Json)>,
    wanted: Seq<(Seq<char>, Json)>,
    out: Seq<Seq<char>>,
    w: int,
    name: Seq<char>,
)
    requires
        known_name(out, name) || (0 <= w < wanted.len() && entry(schemes, wanted[w].0) is Some
            && asks_for_key(concrete(doc, entry(schemes, wanted[w].0)->0), name)),
    ensures
        known_name(add_schemes(doc, schemes, wanted, out), name),
    decreases wanted.len(),
{
    let all = add_schemes(doc, schemes, wanted, out);
    if wanted.len() > 0 {
        let init = wanted.drop_last();
        let before = add_schemes(doc, schemes, init, out);
        if known_name(out, name) || w < wanted.len() - 1 {
            if !known_name(out, name) {
                assert(init[w] == wanted[w]);
            }
            lemma_schemes_known(doc, schemes, init, out, w, name);
        }
        if known_name(before, name) {
            let k = choose|k: int| 0 <= k < before.len() && lower(#[trigger] before[k]) == lower(name);
            assert(all[k] == before[k]);
        } else {
            assert(all[before.len() as int] == name);
        }
    }
}

proof fn lemma_requirements_known(
    doc: Json,
    schemes: Seq<(Seq<char>, Json)>,
    requirements: Seq<Json>,
    q: int,
    w: int,
    name: Seq<char>,
)
    requires
        0 <= q < requirements.len(),
        requirements[q] is Object,
        0 <= w < requirements[q]->Object_0.len(),
        entry(schemes, requirements[q]->Object_0[w].0) is Some,
        asks_for_key(concrete(doc, entry(schemes, requirements[q]->Object_0[w].0)->0), name),
    ensures
        known_name(add_requirements(doc, schemes, requirements), name),
    decreases requirements.len(),
{
    let init = requirements.drop_last();
    let before = add_requirements(doc, schemes, init);
    if q < requirements.len() - 1 {
        assert(init[q] == requirements[q]);
        lemma_requirements_known(doc, schemes, init, q, w, name);
    }
    match requirements.last() {
        Json::Object(wanted) => lemma_schemes_known(doc, schemes, wanted, before, w, name),
        _ => {},
    }
}

/// An operation that requires an API key in a header has that header: the
/// requirement is its own, or the document's where it states none.
pub proof fn lemma_key_headers_are_added(
    doc: Json,
    o: Operation,
    id: u128,
    requirements: Seq<Json>,
    schemes: Seq<(Seq<char>, Json)>,
    q: int,
    w: int,
    name: Seq<char>,
)
    requires
        match field(o.op, "security"@) {
            Some(s) => s == Json::Array(requirements),
            None => field_items(doc, "security"@) == Some(requirements),
        },
        field(doc, "components"@) is Some,
        field_entries(field(doc, "components"@)->0, "securitySchemes"@) == Some(schemes),
        0 <= q < requirements.len(),
        requirements[q] is Object,
        0 <= w < requirements[q]->Object_0.len(),
        entry(schemes, requirements[q]->Object_0[w].0) is Some,
        asks_for_key(concrete(doc, entry(schemes, requirements[q]->Object_0[w].0)->0), name),
    ensures
        header_known(request_of(doc, o, id).headers, name),
{
    lemma_requirements_known(doc, schemes, requirements, q, w, name);
    let names = key_headers(doc, o.op);
    assert(names == add_requirements(doc, schemes, requirements));
    let k = choose|k: int| 0 <= k < names.len() && lower(#[trigger] names[k]) == lower(name);
    let own = with_params(doc, base_request(o, id), params_of(doc, o)).headers;
    let implied = implied_rows(doc, o.op);
    let n = implied.len() - names.len() + k;
    assert(implied[n].key == names[k]);
    lemma_header_added(own, implied, n);
    let all = request_of(doc, o, id).headers;
    let f = choose|f: int|
        0 <= f < all.len() && lower((#[trigger] all[f]).key) == lower(implied[n].key);
    assert(lower(all[f].key) == lower(name));
}

/// An operation that asks for no security has no key headers, whatever the document
/// asks for.
pub proof fn lemma_no_security(doc: Json, op: Json)
    requires
        field(op, "security"@) == Some(Json::Array(Seq::empty())),
    ensures
        key_headers(doc, op).len() == 0,
{
}

/// Implied rows are the content type and what is accepted, switched on, and the
/// keys, empty and switched off: their values are the user's to supply.
pub proof fn lemma_key_rows_wait_for_a_value(doc: Json, op: Json, k: int)
    requires
        0 <= k < implied_rows(doc, op).len(),
    ensures
        ({
            let row = implied_rows(doc, op)[k];
            ||| row.enabled && (row.key == "Content-Type"@ || row.key == "Accept"@)
            ||| !row.enabled && row.value.len() == 0
        }),
{
}

/// What a header parameter says stands first and is never overridden by what is
/// implied.
pub proof fn lemma_header_parameters_win(doc: Json, o: Operation, id: u128)
    ensures
        ({
            let own = with_params(doc, base_request(o, id), params_of(doc, o)).headers;
            let all = request_of(doc, o, id).headers;
            &&& own.len() <= all.len()
            &&& forall|k: int| 0 <= k < own.len() ==> #[trigger] all[k] == own[k]
            &&& forall|k: int, l: int|
                own.len() <= l < all.len() && 0 <= k < l ==> lower((#[trigger] all[k]).key) != lower(
                    (#[trigger] all[l]).key,
                )
        }),
{
    lemma_headers_kept(
        with_params(doc, base_request(o, id), params_of(doc, o)).headers,
        implied_rows(doc, o.op),
    );
}

// ----- auth -----

/// Whether a scheme has the client-credentials flow `flow`.
pub open spec fn has_flow(scheme: Json, flow: Json) -> bool {
    &&& field_text(scheme, "type"@) == Some("oauth2"@)
    &&& field(scheme, "flows"@) is Some
    &&& field(field(scheme, "flows"@)->0, "clientCredentials"@) == Some(flow)
}

proof fn lemma_first_auth(doc: Json, schemes: Seq<(Seq<char>, Json)>, i: int, flow: Json)
    requires
        0 <= i < schemes.len(),
        has_flow(concrete(doc, schemes[i].1), flow),
        forall|k: int, f: Json|
            0 <= k < i ==> !#[trigger] has_flow(concrete(doc, schemes[k].1), f),
    ensures
        first_auth(doc, schemes) == Some(crate::openapi::import::flow_auth(flow)),
    decreases schemes.len(),
{
    if i > 0 {
        let head = concrete(doc, schemes[0].1);
        match field(head, "flows"@) {
            Some(flows) => match field(flows, "clientCredentials"@) {
                Some(f) => {
                    assert(!has_flow(concrete(doc, schemes[0].1), f));
                },
                None => {},
            },
            None => {},
        }
        assert forall|k: int, f: Json| 0 <= k < i - 1 implies !#[trigger] has_flow(
            concrete(doc, schemes.skip(1)[k].1),
            f,
        ) by {
            assert(!has_flow(concrete(doc, schemes[k + 1].1), f));
        }
        lemma_first_auth(doc, schemes.skip(1), i - 1, flow);
    }
}

/// The first OAuth2 scheme with a client-credentials flow prefills the auth: its
/// token URL and the names of its scopes. The credentials are left to the user.
pub proof fn lemma_auth_is_prefilled(
    doc: Json,
    schemes: Seq<(Seq<char>, Json)>,
    i: int,
    flow: Json,
)
    requires
        field(doc, "components"@) is Some,
        field_entries(field(doc, "components"@)->0, "securitySchemes"@) == Some(schemes),
        0 <= i < schemes.len(),
        has_flow(concrete(doc, schemes[i].1), flow),
        forall|k: int, f: Json|
            0 <= k < i ==> !#[trigger] has_flow(concrete(doc, schemes[k].1), f),
    ensures
        auth_of(doc) is Some,
        ({
            let a = auth_of(doc)->0;
            &&& a.kind == AuthKind::Oauth2
            &&& a.auth_style == AuthStyle::Basic
            &&& a.client_id.len() == 0
            &&& a.client_secret.len() == 0
            &&& a.token.len() == 0
            &&& match field_text(flow, "tokenUrl"@) {
                Some(u) => a.token_url == u,
                None => a.token_url.len() == 0,
            }
            &&& match field_entries(flow, "scopes"@) {
                Some(o) => a.scopes.len() == o.len() && forall|k: int|
                    0 <= k < o.len() ==> #[trigger] a.scopes[k] == o[k].0,
                None => a.scopes.len() == 0,
            }
        }),
{
    lemma_first_auth(doc, schemes, i, flow);
}

/// Without a client-credentials flow no auth is prefilled.
pub proof fn lemma_no_auth(doc: Json, schemes: Seq<(Seq<char>, Json)>)
    requires
        forall|k: int, f: Json|
            0 <= k < schemes.len() ==> !#[trigger] has_flow(concrete(doc, schemes[k].1), f),
    ensures
        first_auth(doc, schemes) is None,
    decreases schemes.len(),
{
    if schemes.len() > 0 {
        let head = concrete(doc, schemes[0].1);
        match field(head, "flows"@) {
            Some(flows) => match field(flows, "clientCredentials"@) {
                Some(f) => {
                    assert(!has_flow(concrete(doc, schemes[0].1), f));
                },
                None => {},
            },
            None => {},
        }
        assert forall|k: int, f: Json| 0 <= k < schemes.skip(1).len() implies !#[trigger] has_flow(
            concrete(doc, schemes.skip(1)[k].1),
            f,
        ) by {
            assert(!has_flow(concrete(doc, schemes[k + 1].1), f));
        }
        lemma_no_auth(doc, schemes.skip(1));
    }
}

// ----- servers -----

/// Every server of a description is listed, without slashes at its end, once, and
/// in the order in which they first appear; none is made up.
pub proof fn lemma_every_server_is_listed(list: Seq<Json>)
    ensures
        forall|i: int|
            0 <= i < list.len() && field_text(#[trigger] list[i], "url"@) is Some && trim_end_char(
                field_text(list[i], "url"@)->0,
                '/',
            ).len() > 0 ==> server_urls(list).contains(
                trim_end_char(field_text(list[i], "url"@)->0, '/'),
            ),
        forall|k: int| 0 <= k < server_urls(list).len() ==> is_server(list, #[trigger] server_urls(list)[k]),
        list.len() > 0 ==> server_urls(list.drop_last()).len() <= server_urls(list).len()
            && server_urls(list.drop_last()) == server_urls(list).take(
            server_urls(list.drop_last()).len() as int,
        ),
    decreases list.len(),
{
    if list.len() > 0 {
        let init = list.drop_last();
        let last = list.len() - 1;
        lemma_every_server_is_listed(init);
        let before = server_urls(init);
        let all = server_urls(list);
        assert(before =~= all.take(before.len() as int));
        assert forall|i: int|
            0 <= i < list.len() && field_text(#[trigger] list[i], "url"@) is Some && trim_end_char(
                field_text(list[i], "url"@)->0,
                '/',
            ).len() > 0 implies all.contains(trim_end_char(field_text(list[i], "url"@)->0, '/')) by {
            let u = trim_end_char(field_text(list[i], "url"@)->0, '/');
            if i < last {
                assert(init[i] == list[i]);
                assert(before.contains(u));
            }
            if before.contains(u) {
                let k = choose|k: int| 0 <= k < before.len() && before[k] == u;
                assert(all[k] == u);
            } else {
                assert(all[before.len() as int] == u);
            }
        }
        assert forall|k: int| 0 <= k < all.len() implies is_server(list, #[trigger] all[k]) by {
            if k < before.len() {
                assert(all[k] == before[k]);
                assert(is_server(init, before[k]));
                let i = choose|i: int|
                    0 <= i < init.len() && field_text(#[trigger] init[i], "url"@) is Some
                        && trim_end_char(field_text(init[i], "url"@)->0, '/') == before[k];
                assert(list[i] == init[i]);
            } else {
                assert(field_text(list[last], "url"@) is Some);
            }
        }
    }
}

pub open spec fn is_server(list: Seq<Json>, url: Seq<char>) -> bool {
    exists|i: int|
        0 <= i < list.len() && field_text(#[trigger] list[i], "url"@) is Some && trim_end_char(
            field_text(list[i], "url"@)->0,
            '/',
        ) == url
}

/// The servers of an import are those of the description.
pub proof fn lemma_servers_of(doc: Json)
    ensures
        match field_items(doc, "servers"@) {
            Some(list) => servers_of(doc) == server_urls(list),
            None => servers_of(doc).len() == 0,
        },
{
}

} // verus!
