//! Conversion of a parsed OpenAPI document into a [`Collection`].

use vstd::prelude::*;

use crate::ids::is_v4;
use crate::json::{
    body_text, entry, field, field_entries, field_flag, field_items, field_text, find_entry,
    group_json, plain_text, Json, Node,
};
use crate::model::{
    blank_auth, blank_collection, blank_request, contains_string, AuthKind, AuthStyle, AuthView,
    Collection, CollectionView, FieldDoc, FieldDocView, KeyValueRow, Method, OAuthConfig, RequestView,
    RowView, SavedRequest,
};
use crate::openapi::docs::{
    body_docs, description_of, param_doc, param_doc_of, response_docs, schema_docs, string_items,
    texts,
};
use crate::openapi::examples::{example, example_for_schema};
use crate::openapi::resolve::{concrete, deref};
use crate::text::{
    chars, contains, group_views, has, lower, opt, same, same_letters, trim, trim_end_char, trimmed,
    views, without_trailing,
};

verus! {

broadcast use {group_views, group_json};

// ----- servers and auth -----

/// The server URLs without trailing slashes, blank and repeated ones left out.
pub open spec fn server_urls(list: Seq<Json>) -> Seq<Seq<char>>
    decreases list.len(),
{
    if list.len() == 0 {
        Seq::empty()
    } else {
        let before = server_urls(list.drop_last());
        match field_text(list.last(), "url"@) {
            Some(u) => {
                let url = trim_end_char(u, '/');
                if url.len() > 0 && !before.contains(url) {
                    before.push(url)
                } else {
                    before
                }
            },
            None => before,
        }
    }
}

pub open spec fn servers_of(doc: Json) -> Seq<Seq<char>> {
    match field_items(doc, "servers"@) {
        Some(list) => server_urls(list),
        None => Seq::empty(),
    }
}

pub open spec fn names_of(o: Seq<(Seq<char>, Json)>) -> Seq<Seq<char>> {
    Seq::new(o.len(), |i: int| o[i].0)
}

/// The client-credentials flow of an `oauth2` security scheme.
pub open spec fn credentials_flow(scheme: Json) -> Option<Json> {
    if field_text(scheme, "type"@) != Some("oauth2"@) {
        None
    } else {
        match field(scheme, "flows"@) {
            Some(flows) => field(flows, "clientCredentials"@),
            None => None,
        }
    }
}

/// Token URL and scopes of a flow; the credentials are the user's to fill in.
pub open spec fn flow_auth(flow: Json) -> AuthView {
    AuthView {
        token_url: match field_text(flow, "tokenUrl"@) {
            Some(u) => u,
            None => Seq::empty(),
        },
        scopes: match field_entries(flow, "scopes"@) {
            Some(o) => names_of(o),
            None => Seq::empty(),
        },
        ..blank_auth(AuthKind::Oauth2)
    }
}

/// The first scheme with a client-credentials flow decides.
pub open spec fn first_auth(doc: Json, schemes: Seq<(Seq<char>, Json)>) -> Option<AuthView>
    decreases schemes.len(),
{
    if schemes.len() == 0 {
        None
    } else {
        match credentials_flow(concrete(doc, schemes[0].1)) {
            Some(flow) => Some(flow_auth(flow)),
            None => first_auth(doc, schemes.skip(1)),
        }
    }
}

/// The document's security schemes.
pub open spec fn schemes_of(doc: Json) -> Option<Seq<(Seq<char>, Json)>> {
    match field(doc, "components"@) {
        Some(c) => field_entries(c, "securitySchemes"@),
        None => None,
    }
}

pub open spec fn auth_of(doc: Json) -> Option<AuthView> {
    match schemes_of(doc) {
        Some(schemes) => first_auth(doc, schemes),
        None => None,
    }
}

// ----- operations -----

/// One operation of the description.
#[verifier::ext_equal]
pub struct Operation {
    pub path: Seq<char>,
    pub method: Method,
    /// Parameters shared by all operations of the path.
    pub shared: Seq<Json>,
    pub op: Json,
}

/// The verbs in the order in which a path's operations are taken.
pub open spec fn verbs() -> Seq<Method> {
    seq![
        Method::Get,
        Method::Post,
        Method::Put,
        Method::Patch,
        Method::Delete,
        Method::Head,
        Method::Options,
    ]
}

pub open spec fn items_or_none(j: Json, key: Seq<char>) -> Seq<Json> {
    match field_items(j, key) {
        Some(a) => a,
        None => Seq::empty(),
    }
}

/// The operations under the first `n` verbs of a path item.
pub open spec fn item_operations(path: Seq<char>, item: Json, n: nat) -> Seq<Operation>
    decreases n,
{
    if n == 0 {
        Seq::empty()
    } else {
        let before = item_operations(path, item, (n - 1) as nat);
        let method = verbs()[n - 1];
        match field(item, method.key()) {
            Some(op) => before.push(
                Operation { path, method, shared: items_or_none(item, "parameters"@), op },
            ),
            None => before,
        }
    }
}

pub open spec fn path_operations(doc: Json, paths: Seq<(Seq<char>, Json)>) -> Seq<Operation>
    decreases paths.len(),
{
    if paths.len() == 0 {
        Seq::empty()
    } else {
        path_operations(doc, paths.drop_last()) + item_operations(
            paths.last().0,
            concrete(doc, paths.last().1),
            verbs().len(),
        )
    }
}

/// Every operation, path by path.
pub open spec fn operations(doc: Json) -> Seq<Operation> {
    match field_entries(doc, "paths"@) {
        Some(paths) => path_operations(doc, paths),
        None => Seq::empty(),
    }
}

// ----- parameters -----

/// What makes two parameters the same one.
pub open spec fn param_id(p: Json) -> (Seq<char>, Seq<char>) {
    (text_or_blank(p, "name"@), text_or_blank(p, "in"@))
}

pub open spec fn text_or_blank(p: Json, key: Seq<char>) -> Seq<char> {
    match field_text(p, key) {
        Some(t) => t,
        None => Seq::empty(),
    }
}

pub open spec fn derefs(doc: Json, ps: Seq<Json>) -> Seq<Json> {
    Seq::new(ps.len(), |i: int| concrete(doc, ps[i]))
}

pub open spec fn known(ps: Seq<Json>, p: Json) -> bool {
    exists|i: int| 0 <= i < ps.len() && param_id(#[trigger] ps[i]) == param_id(p)
}

/// `own` followed by those of `shared` that are not there yet.
pub open spec fn with_shared(doc: Json, own: Seq<Json>, shared: Seq<Json>) -> Seq<Json>
    decreases shared.len(),
{
    if shared.len() == 0 {
        own
    } else {
        let before = with_shared(doc, own, shared.drop_last());
        let p = concrete(doc, shared.last());
        if known(before, p) {
            before
        } else {
            before.push(p)
        }
    }
}

/// The parameters of an operation: its own, then the path's that it does not
/// override.
pub open spec fn params_of(doc: Json, o: Operation) -> Seq<Json> {
    with_shared(doc, derefs(doc, items_or_none(o.op, "parameters"@)), o.shared)
}

/// The value under the first of the named examples.
pub open spec fn first_example(doc: Json, j: Json) -> Option<Json> {
    match field_entries(j, "examples"@) {
        Some(o) => if o.len() > 0 {
            field(concrete(doc, o[0].1), "value"@)
        } else {
            None
        },
        None => None,
    }
}

/// Explicitly authored example or default on the parameter or its schema.
pub open spec fn explicit_value(doc: Json, p: Json) -> Option<Json> {
    match field(p, "example"@) {
        Some(x) => Some(x),
        None => match first_example(doc, p) {
            Some(x) => Some(x),
            None => match field(p, "schema"@) {
                Some(s) => match field(concrete(doc, s), "example"@) {
                    Some(x) => Some(x),
                    None => field(concrete(doc, s), "default"@),
                },
                None => None,
            },
        },
    }
}

/// Value for a parameter. Required ones fall back to stubs by type so the
/// request is sendable out of the box; optional ones stay empty unless the
/// author wrote a value down.
pub open spec fn param_value_of(doc: Json, p: Json, required: bool) -> Seq<char> {
    match explicit_value(doc, p) {
        Some(v) => plain_text(v),
        None => if !required {
            Seq::empty()
        } else {
            match field(p, "schema"@) {
                Some(s) => plain_text(example(doc, concrete(doc, s))),
                None => Seq::empty(),
            }
        },
    }
}

/// `r` with one parameter filed under its location; others than path, query
/// and header are left out.
pub open spec fn with_param(doc: Json, r: RequestView, p: Json) -> RequestView {
    let name = text_or_blank(p, "name"@);
    let location = text_or_blank(p, "in"@);
    let required = field_flag(p, "required"@) == Some(true);
    let value = param_value_of(doc, p, required);
    let docs = r.docs.push(param_doc_of(doc, p));
    if name.len() == 0 {
        r
    } else if location == "path"@ {
        RequestView {
            path_params: r.path_params.push(RowView { key: name, value, enabled: true }),
            docs,
            ..r
        }
    } else if location == "query"@ {
        RequestView {
            query: r.query.push(RowView { key: name, value, enabled: required }),
            docs,
            ..r
        }
    } else if location == "header"@ {
        RequestView {
            headers: r.headers.push(RowView { key: name, value, enabled: required }),
            docs,
            ..r
        }
    } else {
        r
    }
}

pub open spec fn with_params(doc: Json, r: RequestView, ps: Seq<Json>) -> RequestView
    decreases ps.len(),
{
    if ps.len() == 0 {
        r
    } else {
        with_param(doc, with_params(doc, r, ps.drop_last()), ps.last())
    }
}

// ----- media types -----

pub open spec fn first_named(
    o: Seq<(Seq<char>, Json)>,
    name: Seq<char>,
) -> Option<(Seq<char>, Json)>
    decreases o.len(),
{
    if o.len() == 0 {
        None
    } else if o[0].0 == name {
        Some(o[0])
    } else {
        first_named(o.skip(1), name)
    }
}

pub open spec fn first_mentioning(
    o: Seq<(Seq<char>, Json)>,
    part: Seq<char>,
) -> Option<(Seq<char>, Json)>
    decreases o.len(),
{
    if o.len() == 0 {
        None
    } else if contains(o[0].0, part) {
        Some(o[0])
    } else {
        first_mentioning(o.skip(1), part)
    }
}

/// Preferred entry of a `content` map: JSON first, then anything JSON-like,
/// then whatever is listed first.
pub open spec fn preferred_media(content: Seq<(Seq<char>, Json)>) -> Option<(Seq<char>, Json)> {
    match first_named(content, "application/json"@) {
        Some(e) => Some(e),
        None => match first_mentioning(content, "json"@) {
            Some(e) => Some(e),
            None => if content.len() > 0 {
                Some(content[0])
            } else {
                None
            },
        },
    }
}

/// The media types that an operation's request body can have.
pub open spec fn request_content(doc: Json, op: Json) -> Option<Seq<(Seq<char>, Json)>> {
    match field(op, "requestBody"@) {
        Some(rb) => field_entries(concrete(doc, rb), "content"@),
        None => None,
    }
}

pub open spec fn request_media(doc: Json, op: Json) -> Option<(Seq<char>, Json)> {
    match request_content(doc, op) {
        Some(content) => preferred_media(content),
        None => None,
    }
}

/// The first response whose code begins with a 2.
pub open spec fn first_success(o: Seq<(Seq<char>, Json)>) -> Option<Json>
    decreases o.len(),
{
    if o.len() == 0 {
        None
    } else if o[0].0.len() > 0 && o[0].0[0] == '2' {
        Some(o[0].1)
    } else {
        first_success(o.skip(1))
    }
}

/// The first success response, or the default one.
pub open spec fn success_response(op: Json) -> Option<Json> {
    match field_entries(op, "responses"@) {
        Some(responses) => match first_success(responses) {
            Some(r) => Some(r),
            None => entry(responses, "default"@),
        },
        None => None,
    }
}

pub open spec fn response_media(doc: Json, op: Json) -> Option<(Seq<char>, Json)> {
    match success_response(op) {
        Some(r) => match field_entries(concrete(doc, r), "content"@) {
            Some(content) => preferred_media(content),
            None => None,
        },
        None => None,
    }
}

// ----- implied headers -----

pub open spec fn known_name(out: Seq<Seq<char>>, name: Seq<char>) -> bool {
    exists|i: int| 0 <= i < out.len() && lower(#[trigger] out[i]) == lower(name)
}

/// The header an API-key scheme asks for.
pub open spec fn key_header_name(scheme: Json) -> Option<Seq<char>> {
    if field_text(scheme, "type"@) == Some("apiKey"@) && field_text(scheme, "in"@) == Some("header"@) {
        match field_text(scheme, "name"@) {
            Some(n) => if n.len() > 0 {
                Some(n)
            } else {
                None
            },
            None => None,
        }
    } else {
        None
    }
}

/// `out` with the headers of the named schemes that are not there yet.
pub open spec fn add_schemes(
    doc: Json,
    schemes: Seq<(Seq<char>, Json)>,
    wanted: Seq<(Seq<char>, Json)>,
    out: Seq<Seq<char>>,
) -> Seq<Seq<char>>
    decreases wanted.len(),
{
    if wanted.len() == 0 {
        out
    } else {
        let before = add_schemes(doc, schemes, wanted.drop_last(), out);
        match entry(schemes, wanted.last().0) {
            Some(s) => match key_header_name(concrete(doc, s)) {
                Some(n) => if known_name(before, n) {
                    before
                } else {
                    before.push(n)
                },
                None => before,
            },
            None => before,
        }
    }
}

pub open spec fn add_requirements(
    doc: Json,
    schemes: Seq<(Seq<char>, Json)>,
    requirements: Seq<Json>,
) -> Seq<Seq<char>>
    decreases requirements.len(),
{
    if requirements.len() == 0 {
        Seq::empty()
    } else {
        let before = add_requirements(doc, schemes, requirements.drop_last());
        match requirements.last() {
            Json::Object(wanted) => add_schemes(doc, schemes, wanted, before),
            _ => before,
        }
    }
}

/// What an operation requires: its own `security`, or the document's.
pub open spec fn security_of(doc: Json, op: Json) -> Option<Json> {
    match field(op, "security"@) {
        Some(s) => Some(s),
        None => field(doc, "security"@),
    }
}

/// Header names from API-key schemes that the operation requires.
pub open spec fn key_headers(doc: Json, op: Json) -> Seq<Seq<char>> {
    match (crate::json::items_in(security_of(doc, op)), schemes_of(doc)) {
        (Some(requirements), Some(schemes)) => add_requirements(doc, schemes, requirements),
        _ => Seq::empty(),
    }
}

/// Headers an operation carries by definition rather than by parameter: the
/// media type it consumes, the one it produces, and the API keys it requires.
/// API-key rows arrive disabled, since the value is the user's to supply.
pub open spec fn implied_rows(doc: Json, op: Json) -> Seq<RowView> {
    let consumed = match request_media(doc, op) {
        Some(m) => seq![RowView { key: "Content-Type"@, value: m.0, enabled: true }],
        None => Seq::empty(),
    };
    let produced = match response_media(doc, op) {
        Some(m) => seq![RowView { key: "Accept"@, value: m.0, enabled: true }],
        None => Seq::empty(),
    };
    let names = key_headers(doc, op);
    let keys = Seq::new(
        names.len(),
        |i: int| RowView { key: names[i], value: Seq::empty(), enabled: false },
    );
    consumed + produced + keys
}

pub open spec fn header_known(rows: Seq<RowView>, key: Seq<char>) -> bool {
    exists|i: int| 0 <= i < rows.len() && lower((#[trigger] rows[i]).key) == lower(key)
}

/// `rows` with those of `more` whose name is not there yet.
pub open spec fn with_headers(rows: Seq<RowView>, more: Seq<RowView>) -> Seq<RowView>
    decreases more.len(),
{
    if more.len() == 0 {
        rows
    } else {
        let before = with_headers(rows, more.drop_last());
        if header_known(before, more.last().key) {
            before
        } else {
            before.push(more.last())
        }
    }
}

// ----- bodies and requests -----

/// Request body: an authored example, or one generated from the schema so
/// payloads are populated and editable.
pub open spec fn body_of(doc: Json, op: Json) -> Option<Seq<char>> {
    match request_media(doc, op) {
        Some(m) => match field(m.1, "example"@) {
            Some(x) => Some(body_text(x)),
            None => match first_example(doc, m.1) {
                Some(x) => Some(body_text(x)),
                None => match field(m.1, "schema"@) {
                    Some(s) => Some(body_text(example(doc, s))),
                    None => None,
                },
            },
        },
        None => None,
    }
}

/// A text entry, unless blank.
pub open spec fn nonblank(j: Json, key: Seq<char>) -> Option<Seq<char>> {
    match field_text(j, key) {
        Some(s) => if trim(s).len() > 0 {
            Some(s)
        } else {
            None
        },
        None => None,
    }
}

/// The summary names a request; failing that its identifier, failing that verb
/// and path.
pub open spec fn request_name(o: Operation) -> Seq<char> {
    match nonblank(o.op, "summary"@) {
        Some(s) => s,
        None => match nonblank(o.op, "operationId"@) {
            Some(s) => s,
            None => o.method.verb() + " "@ + o.path,
        },
    }
}

pub open spec fn media_docs(
    doc: Json,
    media: Option<(Seq<char>, Json)>,
    location: Seq<char>,
    whole: Seq<char>,
) -> Seq<FieldDocView> {
    match media {
        Some(m) => match field(m.1, "schema"@) {
            Some(s) => schema_docs(doc, s, location, whole),
            None => Seq::empty(),
        },
        None => Seq::empty(),
    }
}

/// The request, under identifier `id`, that an operation becomes.
pub open spec fn request_of(doc: Json, o: Operation, id: u128) -> RequestView {
    let base = RequestView {
        summary: nonblank(o.op, "summary"@),
        operation_id: nonblank(o.op, "operationId"@),
        description: description_of(o.op),
        method: o.method,
        path: o.path,
        tags: match field_items(o.op, "tags"@) {
            Some(a) => texts(a),
            None => Seq::empty(),
        },
        ..blank_request(request_name(o), id)
    };
    let filed = with_params(doc, base, params_of(doc, o));
    RequestView {
        headers: with_headers(filed.headers, implied_rows(doc, o.op)),
        body: body_of(doc, o.op),
        docs: filed.docs + media_docs(doc, request_media(doc, o.op), "body"@, "(body)"@) + media_docs(
            doc,
            response_media(doc, o.op),
            "response"@,
            "(response)"@,
        ),
        ..filed
    }
}

/// One request per operation, each under a fresh identifier.
pub open spec fn built(doc: Json, ops: Seq<Operation>, requests: Seq<RequestView>) -> bool {
    &&& requests.len() == ops.len()
    &&& forall|i: int|
        0 <= i < requests.len() ==> (#[trigger] requests[i]) == request_of(doc, ops[i], requests[i].id)
            && is_v4(requests[i].id)
}

/// Whether `c` is what `doc` becomes under `name`.
pub open spec fn imported(
    doc: Json,
    name: Seq<char>,
    source: Option<Seq<char>>,
    c: CollectionView,
) -> bool {
    &&& c == (CollectionView {
        spec_source: source,
        servers: servers_of(doc),
        auth: auth_of(doc),
        requests: c.requests,
        ..blank_collection(name)
    })
    &&& built(doc, operations(doc), c.requests)
}

// ----- computing it -----

fn server_list(doc: &Node) -> (r: Vec<String>)
    ensures
        views(r@) == servers_of(doc@),
{
    let mut out: Vec<String> = Vec::new();
    match doc.items("servers") {
        Some(list) => {
            let ghost all = views(list@);
            let mut i: usize = 0;
            while i < list.len()
                invariant
                    i <= list@.len(),
                    all == views(list@),
                    views(out@) == server_urls(all.take(i as int)),
                decreases list@.len() - i,
            {
                assert(all.take(i + 1).drop_last() =~= all.take(i as int));
                assert(all.take(i + 1).last() == list@[i as int]@);
                match list[i].text("url") {
                    Some(u) => {
                        let url = without_trailing(u, '/');
                        if !url.is_empty() && !contains_string(&out, url) {
                            out.push(url.to_owned());
                        }
                    },
                    None => {},
                }
                i += 1;
            }
            assert(all.take(list@.len() as int) =~= all);
        },
        None => {},
    }
    out
}

fn text_is(j: &Node, key: &str, s: &str) -> (r: bool)
    ensures
        r == (field_text(j@, key@) == Some(s@)),
{
    match j.text(key) {
        Some(t) => same(t, s),
        None => false,
    }
}

fn text_or_empty<'a>(j: &'a Node, key: &str) -> (r: &'a str)
    ensures
        r@ == text_or_blank(j@, key@),
{
    match j.text(key) {
        Some(t) => t,
        None => {
            proof {
                reveal_strlit("");
                assert(""@ =~= Seq::<char>::empty());
            }
            ""
        },
    }
}

fn entry_names(o: &Vec<(String, Node)>) -> (r: Vec<String>)
    ensures
        views(r@) == names_of(views(o@)),
{
    let mut out: Vec<String> = Vec::new();
    let mut i: usize = 0;
    while i < o.len()
        invariant
            i <= o@.len(),
            views(out@) == names_of(views(o@)).take(i as int),
        decreases o@.len() - i,
    {
        out.push(o[i].0.clone());
        i += 1;
        assert(views(out@) =~= names_of(views(o@)).take(i as int));
    }
    assert(views(out@) =~= names_of(views(o@)));
    out
}

fn flow_of<'a>(scheme: &'a Node) -> (r: Option<&'a Node>)
    ensures
        opt(r) == credentials_flow(scheme@),
{
    if !text_is(scheme, "type", "oauth2") {
        return None;
    }
    match scheme.get("flows") {
        Some(flows) => flows.get("clientCredentials"),
        None => None,
    }
}

fn scheme_entries<'a>(doc: &'a Node) -> (r: Option<&'a Vec<(String, Node)>>)
    ensures
        match r {
            Some(o) => schemes_of(doc@) == Some(views(o@)),
            None => schemes_of(doc@) is None,
        },
{
    match doc.get("components") {
        Some(c) => c.entries("securitySchemes"),
        None => None,
    }
}

/// Find the first `oauth2` security scheme with a clientCredentials flow and
/// prefill token URL and scopes (credentials are filled in by the user).
fn extract_oauth(doc: &Node) -> (r: Option<OAuthConfig>)
    ensures
        opt(r) == auth_of(doc@),
{
    let schemes = match scheme_entries(doc) {
        Some(s) => s,
        None => {
            return None;
        },
    };
    let ghost all = views(schemes@);
    let mut i: usize = 0;
    assert(all.skip(0) =~= all);
    while i < schemes.len()
        invariant
            i <= schemes@.len(),
            all == views(schemes@),
            auth_of(doc@) == first_auth(doc@, all.skip(i as int)),
        decreases schemes@.len() - i,
    {
        assert(all.skip(i as int)[0] == (schemes@[i as int].0@, schemes@[i as int].1@));
        assert(all.skip(i as int).skip(1) =~= all.skip(i + 1));
        match flow_of(deref(doc, &schemes[i].1)) {
            Some(flow) => {
                let config = OAuthConfig {
                    token_url: text_or_empty(flow, "tokenUrl").to_owned(),
                    scopes: match flow.entries("scopes") {
                        Some(o) => entry_names(o),
                        None => Vec::new(),
                    },
                    auth_style: AuthStyle::Basic,
                    ..OAuthConfig::default()
                };
                assert(config@ == flow_auth(flow@));
                return Some(config);
            },
            None => {},
        }
        i += 1;
    }
    None
}

fn is_known(ps: &Vec<&Node>, p: &Node) -> (r: bool)
    ensures
        r == known(views(ps@), p@),
{
    let ghost all = views(ps@);
    let name = text_or_empty(p, "name");
    let place = text_or_empty(p, "in");
    let mut i: usize = 0;
    while i < ps.len()
        invariant
            i <= ps@.len(),
            all == views(ps@),
            name@ == text_or_blank(p@, "name"@),
            place@ == text_or_blank(p@, "in"@),
            forall|j: int| 0 <= j < i ==> param_id(#[trigger] all[j]) != param_id(p@),
        decreases ps@.len() - i,
    {
        assert(all[i as int] == ps@[i as int]@);
        if same(text_or_empty(ps[i], "name"), name) && same(text_or_empty(ps[i], "in"), place) {
            return true;
        }
        i += 1;
    }
    false
}

fn merged_params<'a>(
    doc: &'a Node,
    op: &'a Node,
    shared: Option<&'a Vec<Node>>,
) -> (r: Vec<&'a Node>)
    ensures
        views(r@) == with_shared(
            doc@,
            derefs(doc@, items_or_none(op@, "parameters"@)),
            match shared {
                Some(s) => views(s@),
                None => Seq::empty(),
            },
        ),
{
    let mut out: Vec<&'a Node> = Vec::new();
    let ghost own = derefs(doc@, items_or_none(op@, "parameters"@));
    match op.items("parameters") {
        Some(list) => {
            let mut i: usize = 0;
            while i < list.len()
                invariant
                    i <= list@.len(),
                    own == derefs(doc@, views(list@)),
                    views(out@) == own.take(i as int),
                decreases list@.len() - i,
            {
                out.push(deref(doc, &list[i]));
                i += 1;
                assert(views(out@) =~= own.take(i as int));
            }
            assert(views(out@) =~= own);
        },
        None => {
            assert(views(out@) =~= own);
        },
    }
    match shared {
        Some(list) => {
            let ghost all = views(list@);
            let mut i: usize = 0;
            while i < list.len()
                invariant
                    i <= list@.len(),
                    all == views(list@),
                    views(out@) == with_shared(doc@, own, all.take(i as int)),
                decreases list@.len() - i,
            {
                assert(all.take(i + 1).drop_last() =~= all.take(i as int));
                assert(all.take(i + 1).last() == list@[i as int]@);
                let p = deref(doc, &list[i]);
                if !is_known(&out, p) {
                    out.push(p);
                }
                i += 1;
            }
            assert(all.take(list@.len() as int) =~= all);
        },
        None => {},
    }
    out
}

fn first_named_example<'a>(doc: &'a Node, j: &'a Node) -> (r: Option<&'a Node>)
    ensures
        opt(r) == first_example(doc@, j@),
{
    match j.entries("examples") {
        Some(o) => if o.len() > 0 {
            assert(views(o@)[0] == (o@[0].0@, o@[0].1@));
            deref(doc, &o[0].1).get("value")
        } else {
            None
        },
        None => None,
    }
}

fn explicit_param_value<'a>(doc: &'a Node, p: &'a Node) -> (r: Option<&'a Node>)
    ensures
        opt(r) == explicit_value(doc@, p@),
{
    match p.get("example") {
        Some(x) => Some(x),
        None => match first_named_example(doc, p) {
            Some(x) => Some(x),
            None => match p.get("schema") {
                Some(s) => {
                    let schema = deref(doc, s);
                    match schema.get("example") {
                        Some(x) => Some(x),
                        None => schema.get("default"),
                    }
                },
                None => None,
            },
        },
    }
}

fn param_value(doc: &Node, p: &Node, required: bool) -> (r: String)
    ensures
        r@ == param_value_of(doc@, p@, required),
{
    match explicit_param_value(doc, p) {
        Some(v) => v.plain(),
        None => if !required {
            String::new()
        } else {
            match p.get("schema") {
                Some(s) => example_for_schema(doc, deref(doc, s)).plain(),
                None => String::new(),
            }
        },
    }
}

fn file_param(doc: &Node, req: &mut SavedRequest, p: &Node)
    ensures
        final(req)@ == with_param(doc@, old(req)@, p@),
{
    let name = text_or_empty(p, "name");
    if name.is_empty() {
        return;
    }
    let place = text_or_empty(p, "in");
    let required = matches!(p.flag("required"), Some(true));
    let value = param_value(doc, p, required);
    if same(place, "path") {
        req.path_params.push(KeyValueRow::new(name, value.as_str(), true));
    } else if same(place, "query") {
        req.query.push(KeyValueRow::new(name, value.as_str(), required));
    } else if same(place, "header") {
        req.headers.push(KeyValueRow::new(name, value.as_str(), required));
    } else {
        return;
    }
    req.docs.push(param_doc(doc, p));
}

fn named_entry<'a>(o: &'a Vec<(String, Node)>, name: &str) -> (r: Option<&'a (String, Node)>)
    ensures
        opt(r) == first_named(views(o@), name@),
{
    let ghost all = views(o@);
    let mut i: usize = 0;
    assert(all.skip(0) =~= all);
    while i < o.len()
        invariant
            i <= o@.len(),
            all == views(o@),
            first_named(all, name@) == first_named(all.skip(i as int), name@),
        decreases o@.len() - i,
    {
        assert(all.skip(i as int)[0] == o@[i as int]@);
        if same(o[i].0.as_str(), name) {
            return Some(&o[i]);
        }
        assert(all.skip(i as int).skip(1) =~= all.skip(i + 1));
        i += 1;
    }
    None
}

fn mentioning_entry<'a>(o: &'a Vec<(String, Node)>, part: &str) -> (r: Option<&'a (String, Node)>)
    ensures
        opt(r) == first_mentioning(views(o@), part@),
{
    let ghost all = views(o@);
    let mut i: usize = 0;
    assert(all.skip(0) =~= all);
    while i < o.len()
        invariant
            i <= o@.len(),
            all == views(o@),
            first_mentioning(all, part@) == first_mentioning(all.skip(i as int), part@),
        decreases o@.len() - i,
    {
        assert(all.skip(i as int)[0] == o@[i as int]@);
        if has(o[i].0.as_str(), part) {
            return Some(&o[i]);
        }
        assert(all.skip(i as int).skip(1) =~= all.skip(i + 1));
        i += 1;
    }
    None
}

fn pick_media<'a>(content: &'a Vec<(String, Node)>) -> (r: Option<&'a (String, Node)>)
    ensures
        opt(r) == preferred_media(views(content@)),
{
    match named_entry(content, "application/json") {
        Some(e) => Some(e),
        None => match mentioning_entry(content, "json") {
            Some(e) => Some(e),
            None => if content.len() > 0 {
                assert(views(content@)[0] == content@[0]@);
                Some(&content[0])
            } else {
                None
            },
        },
    }
}

/// The media type of the request body that is sent, and therefore the one that
/// the generated body and the Docs tab describe.
fn body_media<'a>(doc: &'a Node, op: &'a Node) -> (r: Option<&'a (String, Node)>)
    ensures
        opt(r) == request_media(doc@, op@),
{
    match op.get("requestBody") {
        Some(rb) => match deref(doc, rb).entries("content") {
            Some(content) => pick_media(content),
            None => None,
        },
        None => None,
    }
}

fn success_entry<'a>(o: &'a Vec<(String, Node)>) -> (r: Option<&'a Node>)
    ensures
        opt(r) == first_success(views(o@)),
{
    let ghost all = views(o@);
    let mut i: usize = 0;
    assert(all.skip(0) =~= all);
    while i < o.len()
        invariant
            i <= o@.len(),
            all == views(o@),
            first_success(all) == first_success(all.skip(i as int)),
        decreases o@.len() - i,
    {
        assert(all.skip(i as int)[0] == (o@[i as int].0@, o@[i as int].1@));
        let code = chars(o[i].0.as_str());
        if code.len() > 0 && code[0] == '2' {
            return Some(&o[i].1);
        }
        assert(all.skip(i as int).skip(1) =~= all.skip(i + 1));
        i += 1;
    }
    None
}

/// The media type of the first success response (or `default`), so `Accept`
/// matches what the endpoint returns.
fn success_media<'a>(doc: &'a Node, op: &'a Node) -> (r: Option<&'a (String, Node)>)
    ensures
        opt(r) == response_media(doc@, op@),
{
    let responses = match op.entries("responses") {
        Some(o) => o,
        None => {
            return None;
        },
    };
    let found: Option<&'a Node> = match success_entry(responses) {
        Some(r) => Some(r),
        None => find_entry(responses, "default"),
    };
    match found {
        Some(resp) => match deref(doc, resp).entries("content") {
            Some(content) => pick_media(content),
            None => None,
        },
        None => None,
    }
}

fn name_known(out: &Vec<String>, name: &str) -> (r: bool)
    ensures
        r == known_name(views(out@), name@),
{
    let ghost all = views(out@);
    let mut i: usize = 0;
    while i < out.len()
        invariant
            i <= out@.len(),
            all == views(out@),
            forall|j: int| 0 <= j < i ==> lower(#[trigger] all[j]) != lower(name@),
        decreases out@.len() - i,
    {
        assert(all[i as int] == out@[i as int]@);
        if same_letters(out[i].as_str(), name) {
            return true;
        }
        i += 1;
    }
    false
}

fn scheme_header<'a>(scheme: &'a Node) -> (r: Option<&'a str>)
    ensures
        opt(r) == key_header_name(scheme@),
{
    if text_is(scheme, "type", "apiKey") && text_is(scheme, "in", "header") {
        match scheme.text("name") {
            Some(n) => if n.is_empty() {
                None
            } else {
                Some(n)
            },
            None => None,
        }
    } else {
        None
    }
}

fn add_scheme_headers(
    doc: &Node,
    schemes: &Vec<(String, Node)>,
    wanted: &Vec<(String, Node)>,
    out: &mut Vec<String>,
)
    ensures
        views(final(out)@) == add_schemes(
            doc@,
            views(schemes@),
            views(wanted@),
            views(old(out)@),
        ),
{
    let ghost start = views(out@);
    let ghost all = views(wanted@);
    let mut i: usize = 0;
    while i < wanted.len()
        invariant
            i <= wanted@.len(),
            all == views(wanted@),
            views(out@) == add_schemes(doc@, views(schemes@), all.take(i as int), start),
        decreases wanted@.len() - i,
    {
        assert(all.take(i + 1).drop_last() =~= all.take(i as int));
        assert(all.take(i + 1).last() == (wanted@[i as int].0@, wanted@[i as int].1@));
        match find_entry(schemes, wanted[i].0.as_str()) {
            Some(s) => match scheme_header(deref(doc, s)) {
                Some(n) => {
                    if !name_known(out, n) {
                        out.push(n.to_owned());
                    }
                },
                None => {},
            },
            None => {},
        }
        i += 1;
    }
    assert(all.take(wanted@.len() as int) =~= all);
}

/// Header names from API-key security schemes this operation requires,
/// preferring operation-level `security` over the document default.
fn api_key_headers(doc: &Node, op: &Node) -> (r: Vec<String>)
    ensures
        views(r@) == key_headers(doc@, op@),
{
    let mut out: Vec<String> = Vec::new();
    let security: Option<&Node> = match op.get("security") {
        Some(s) => Some(s),
        None => doc.get("security"),
    };
    let listed: Option<&Vec<Node>> = match security {
        Some(s) => s.as_array(),
        None => None,
    };
    match (listed, scheme_entries(doc)) {
        (Some(requirements), Some(schemes)) => {
            let ghost all = views(requirements@);
            let mut i: usize = 0;
            while i < requirements.len()
                invariant
                    i <= requirements@.len(),
                    all == views(requirements@),
                    views(out@) == add_requirements(doc@, views(schemes@), all.take(i as int)),
                decreases requirements@.len() - i,
            {
                assert(all.take(i + 1).drop_last() =~= all.take(i as int));
                assert(all.take(i + 1).last() == requirements@[i as int]@);
                match &requirements[i] {
                    Node::Object(wanted) => {
                        add_scheme_headers(doc, schemes, wanted, &mut out);
                    },
                    _ => {},
                }
                i += 1;
            }
            assert(all.take(requirements@.len() as int) =~= all);
        },
        _ => {},
    }
    out
}

fn implied_headers(doc: &Node, op: &Node) -> (r: Vec<KeyValueRow>)
    ensures
        views(r@) == implied_rows(doc@, op@),
{
    let mut out: Vec<KeyValueRow> = Vec::new();
    let ghost consumed = match request_media(doc@, op@) {
        Some(m) => seq![RowView { key: "Content-Type"@, value: m.0, enabled: true }],
        None => Seq::empty(),
    };
    match body_media(doc, op) {
        Some(m) => {
            out.push(KeyValueRow::new("Content-Type", m.0.as_str(), true));
        },
        None => {},
    }
    assert(views(out@) =~= consumed);
    let ghost produced = match response_media(doc@, op@) {
        Some(m) => seq![RowView { key: "Accept"@, value: m.0, enabled: true }],
        None => Seq::empty(),
    };
    match success_media(doc, op) {
        Some(m) => {
            out.push(KeyValueRow::new("Accept", m.0.as_str(), true));
        },
        None => {},
    }
    assert(views(out@) =~= consumed + produced);
    let names = api_key_headers(doc, op);
    let ghost keys = Seq::new(
        views(names@).len(),
        |i: int| RowView { key: views(names@)[i], value: Seq::empty(), enabled: false },
    );
    proof {
        reveal_strlit("");
        assert(""@ =~= Seq::<char>::empty());
    }
    let mut i: usize = 0;
    while i < names.len()
        invariant
            i <= names@.len(),
            ""@ == Seq::<char>::empty(),
            keys == Seq::new(
                views(names@).len(),
                |i: int| RowView { key: views(names@)[i], value: Seq::empty(), enabled: false },
            ),
            views(out@) == consumed + produced + keys.take(i as int),
        decreases names@.len() - i,
    {
        out.push(KeyValueRow::new(names[i].as_str(), "", false));
        i += 1;
        assert(views(out@) =~= consumed + produced + keys.take(i as int));
    }
    assert(keys.take(names@.len() as int) =~= keys);
    out
}

fn has_header(rows: &Vec<KeyValueRow>, key: &str) -> (r: bool)
    ensures
        r == header_known(views(rows@), key@),
{
    let ghost all = views(rows@);
    let mut i: usize = 0;
    while i < rows.len()
        invariant
            i <= rows@.len(),
            all == views(rows@),
            forall|j: int| 0 <= j < i ==> lower((#[trigger] all[j]).key) != lower(key@),
        decreases rows@.len() - i,
    {
        assert(all[i as int] == rows@[i as int]@);
        if same_letters(rows[i].key.as_str(), key) {
            return true;
        }
        i += 1;
    }
    false
}

fn add_headers(rows: &mut Vec<KeyValueRow>, more: &Vec<KeyValueRow>)
    ensures
        views(final(rows)@) == with_headers(views(old(rows)@), views(more@)),
{
    let ghost start = views(rows@);
    let ghost all = views(more@);
    let mut i: usize = 0;
    while i < more.len()
        invariant
            i <= more@.len(),
            all == views(more@),
            views(rows@) == with_headers(start, all.take(i as int)),
        decreases more@.len() - i,
    {
        assert(all.take(i + 1).drop_last() =~= all.take(i as int));
        assert(all.take(i + 1).last() == more@[i as int]@);
        if !has_header(rows, more[i].key.as_str()) {
            rows.push(more[i].clone());
        }
        i += 1;
    }
    assert(all.take(more@.len() as int) =~= all);
}

fn extract_body(doc: &Node, op: &Node) -> (r: Option<String>)
    ensures
        opt(r) == body_of(doc@, op@),
{
    match body_media(doc, op) {
        Some(m) => match m.1.get("example") {
            Some(x) => Some(x.body()),
            None => match first_named_example(doc, &m.1) {
                Some(x) => Some(x.body()),
                None => match m.1.get("schema") {
                    Some(s) => Some(example_for_schema(doc, s).body()),
                    None => None,
                },
            },
        },
        None => None,
    }
}

fn nonblank_text(j: &Node, key: &str) -> (r: Option<String>)
    ensures
        opt(r) == nonblank(j@, key@),
{
    match j.text(key) {
        Some(s) => if trimmed(s).is_empty() {
            None
        } else {
            Some(s.to_owned())
        },
        None => None,
    }
}

fn trimmed_description(op: &Node) -> (r: Option<String>)
    ensures
        opt(r) == description_of(op@),
{
    match op.text("description") {
        Some(d) => if trimmed(d).is_empty() {
            None
        } else {
            Some(trimmed(d).to_owned())
        },
        None => None,
    }
}

fn append_docs(out: &mut Vec<FieldDoc>, more: Vec<FieldDoc>)
    ensures
        views(final(out)@) == views(old(out)@) + views(more@),
{
    let ghost start = views(out@);
    let mut i: usize = 0;
    while i < more.len()
        invariant
            i <= more@.len(),
            views(out@) == start + views(more@).take(i as int),
        decreases more@.len() - i,
    {
        out.push(more[i].clone());
        i += 1;
        assert(views(out@) =~= start + views(more@).take(i as int));
    }
    assert(views(more@).take(more@.len() as int) =~= views(more@));
}

/// The request that one operation becomes, under a fresh identifier.
fn build_request(
    doc: &Node,
    path: &str,
    method: Method,
    shared: Option<&Vec<Node>>,
    op: &Node,
) -> (r: SavedRequest)
    ensures
        r@ == request_of(
            doc@,
            Operation {
                path: path@,
                method,
                shared: match shared {
                    Some(s) => views(s@),
                    None => Seq::empty(),
                },
                op: op@,
            },
            r.id,
        ),
        is_v4(r.id),
{
    let ghost o = Operation {
        path: path@,
        method,
        shared: match shared {
            Some(s) => views(s@),
            None => Seq::empty(),
        },
        op: op@,
    };
    let summary = nonblank_text(op, "summary");
    let operation_id = nonblank_text(op, "operationId");
    let name: String = match &summary {
        Some(s) => s.clone(),
        None => match &operation_id {
            Some(s) => s.clone(),
            None => {
                let mut n = method.as_str().to_owned();
                n.append(" ");
                n.append(path);
                n
            },
        },
    };
    assert(name@ == request_name(o));
    let mut req = SavedRequest::blank(name.as_str());
    let ghost id = req.id;
    req.summary = summary;
    req.operation_id = operation_id;
    req.description = trimmed_description(op);
    req.method = method;
    req.path = path.to_owned();
    req.tags = match op.items("tags") {
        Some(a) => string_items(a),
        None => Vec::new(),
    };
    let ghost base = req@;
    let params = merged_params(doc, op, shared);
    let ghost all = views(params@);
    assert(all == params_of(doc@, o));
    let mut i: usize = 0;
    while i < params.len()
        invariant
            i <= params@.len(),
            all == views(params@),
            req@ == with_params(doc@, base, all.take(i as int)),
            req.id == id,
        decreases params@.len() - i,
    {
        assert(all.take(i + 1).drop_last() =~= all.take(i as int));
        assert(all.take(i + 1).last() == params@[i as int]@);
        file_param(doc, &mut req, params[i]);
        assert(req@.id == id);
        i += 1;
    }
    assert(all.take(params@.len() as int) =~= all);
    let ghost filed = req@;
    let implied = implied_headers(doc, op);
    add_headers(&mut req.headers, &implied);
    req.body = extract_body(doc, op);
    match body_media(doc, op) {
        Some(m) => match m.1.get("schema") {
            Some(s) => {
                append_docs(&mut req.docs, body_docs(doc, s));
            },
            None => {},
        },
        None => {},
    }
    let ghost bodies = media_docs(doc@, request_media(doc@, op@), "body"@, "(body)"@);
    assert(req@.docs =~= filed.docs + bodies);
    match success_media(doc, op) {
        Some(m) => match m.1.get("schema") {
            Some(s) => {
                append_docs(&mut req.docs, response_docs(doc, s));
            },
            None => {},
        },
        None => {},
    }
    let ghost responses = media_docs(doc@, response_media(doc@, op@), "response"@, "(response)"@);
    assert(req@.docs =~= filed.docs + bodies + responses);
    req
}

fn verb_key(m: Method) -> (r: &'static str)
    ensures
        r@ == m.key(),
{
    match m {
        Method::Get => "get",
        Method::Post => "post",
        Method::Put => "put",
        Method::Patch => "patch",
        Method::Delete => "delete",
        Method::Head => "head",
        Method::Options => "options",
    }
}

fn import_item(doc: &Node, path: &str, item: &Node, out: &mut Vec<SavedRequest>, Ghost(ops): Ghost<
    Seq<Operation>,
>)
    requires
        built(doc@, ops, views(old(out)@)),
    ensures
        built(doc@, ops + item_operations(path@, item@, verbs().len()), views(final(out)@)),
{
    let methods = vec![
        Method::Get,
        Method::Post,
        Method::Put,
        Method::Patch,
        Method::Delete,
        Method::Head,
        Method::Options,
    ];
    assert(methods@ =~= verbs());
    let shared = item.items("parameters");
    let mut i: usize = 0;
    assert(ops + item_operations(path@, item@, 0) =~= ops);
    while i < methods.len()
        invariant
            i <= methods@.len(),
            methods@ == verbs(),
            match shared {
                Some(s) => items_or_none(item@, "parameters"@) == views(s@),
                None => items_or_none(item@, "parameters"@) == Seq::<Json>::empty(),
            },
            built(doc@, ops + item_operations(path@, item@, i as nat), views(out@)),
        decreases methods@.len() - i,
    {
        let method = methods[i];
        let ghost before = ops + item_operations(path@, item@, i as nat);
        let ghost held = views(out@);
        match item.get(verb_key(method)) {
            Some(op) => {
                let req = build_request(doc, path, method, shared, op);
                let ghost o = Operation {
                    path: path@,
                    method,
                    shared: items_or_none(item@, "parameters"@),
                    op: op@,
                };
                out.push(req);
                assert(ops + item_operations(path@, item@, (i + 1) as nat) =~= before.push(o));
                assert(views(out@) =~= held.push(req@));
                assert(built(doc@, before.push(o), held.push(req@)));
            },
            None => {},
        }
        i += 1;
    }
}

fn import_requests(doc: &Node) -> (r: Vec<SavedRequest>)
    ensures
        built(doc@, operations(doc@), views(r@)),
{
    let mut requests: Vec<SavedRequest> = Vec::new();
    match doc.entries("paths") {
        Some(paths) => {
            let ghost all = views(paths@);
            let mut i: usize = 0;
            while i < paths.len()
                invariant
                    i <= paths@.len(),
                    all == views(paths@),
                    built(doc@, path_operations(doc@, all.take(i as int)), views(requests@)),
                decreases paths@.len() - i,
            {
                assert(all.take(i + 1).drop_last() =~= all.take(i as int));
                assert(all.take(i + 1).last() == (paths@[i as int].0@, paths@[i as int].1@));
                let item = deref(doc, &paths[i].1);
                import_item(
                    doc,
                    paths[i].0.as_str(),
                    item,
                    &mut requests,
                    Ghost(path_operations(doc@, all.take(i as int))),
                );
                i += 1;
            }
            assert(all.take(paths@.len() as int) =~= all);
        },
        None => {},
    }
    requests
}

/// Convert a description into a collection called `name`.
pub fn import_spec(doc: &Node, name: &str, source: Option<String>) -> (r: Collection)
    ensures
        imported(doc@, name@, opt(source), r@),
{
    let mut collection = Collection::new(name);
    collection.spec_source = source;
    collection.servers = server_list(doc);
    collection.auth = extract_oauth(doc);
    collection.requests = import_requests(doc);
    collection
}

// ----- laws -----

/// The servers of an imported collection are never blank and none occurs twice.
pub proof fn lemma_servers_distinct(list: Seq<Json>)
    ensures
        server_urls(list).no_duplicates(),
        forall|i: int| 0 <= i < server_urls(list).len() ==> (#[trigger] server_urls(list)[i]).len() > 0,
    decreases list.len(),
{
    if list.len() > 0 {
        lemma_servers_distinct(list.drop_last());
    }
}

/// An operation's own parameter is never overridden by the path's.
pub proof fn lemma_own_params_win(doc: Json, o: Operation)
    ensures
        ({
            let own = derefs(doc, items_or_none(o.op, "parameters"@));
            &&& params_of(doc, o).len() >= own.len()
            &&& params_of(doc, o).take(own.len() as int) == own
            &&& forall|i: int|
                own.len() <= i < params_of(doc, o).len() ==> !known(own, #[trigger] params_of(doc, o)[i])
        }),
{
    lemma_with_shared(doc, derefs(doc, items_or_none(o.op, "parameters"@)), o.shared);
}

proof fn lemma_with_shared(doc: Json, own: Seq<Json>, shared: Seq<Json>)
    ensures
        ({
            let all = with_shared(doc, own, shared);
            &&& all.len() >= own.len()
            &&& all.take(own.len() as int) == own
            &&& forall|i: int| own.len() <= i < all.len() ==> !known(own, #[trigger] all[i])
        }),
    decreases shared.len(),
{
    if shared.len() == 0 {
        assert(own.take(own.len() as int) =~= own);
    } else {
        lemma_with_shared(doc, own, shared.drop_last());
        let before = with_shared(doc, own, shared.drop_last());
        let p = concrete(doc, shared.last());
        if !known(before, p) {
            let all = before.push(p);
            assert(all.take(own.len() as int) =~= before.take(own.len() as int));
            assert(!known(own, p)) by {
                if known(own, p) {
                    let i = choose|i: int|
                        0 <= i < own.len() && param_id(#[trigger] own[i]) == param_id(p);
                    assert(before.take(own.len() as int)[i] == before[i]);
                    assert(param_id(before[i]) == param_id(p));
                }
            }
            assert forall|i: int| own.len() <= i < all.len() implies !known(own, #[trigger] all[i]) by {
                if i < before.len() {
                    assert(all[i] == before[i]);
                }
            }
        }
    }
}

} // verus!
