//! Turning schemas into the [`FieldDoc`]s the Docs tab renders: what type a
//! parameter or body field is, whether it is required, and which values it
//! accepts.
//!
//! This is a summary; the aim is answering "what can I put here?" without
//! leaving the terminal.

use vstd::prelude::*;

use crate::json::{
    field, field_entries, field_flag, field_items, field_text, group_json, plain_text, Json,
    Node,
};
use crate::model::{blank_doc, contains_string, FieldDoc, FieldDocView};
use crate::openapi::resolve::{concrete, deref};
use crate::text::{cat, group_views, join, join_strings, opt, same, trim, trimmed, views};

verus! {

broadcast use {group_views, group_json};

/// Nesting cap when flattening a body schema. Also what terminates recursive
/// schemas.
pub const MAX_BODY_DEPTH: usize = 4;

/// Upper bound on body fields per request, so a sprawling schema cannot turn
/// the Docs tab into thousands of lines.
pub const MAX_BODY_FIELDS: usize = 200;

// ----- what a schema says -----

/// The trimmed description, unless blank.
pub open spec fn description_of(j: Json) -> Option<Seq<char>> {
    match field_text(j, "description"@) {
        Some(d) => if trim(d).len() > 0 {
            Some(trim(d))
        } else {
            None
        },
        None => None,
    }
}

/// The strings among `a`, in order.
pub open spec fn texts(a: Seq<Json>) -> Seq<Seq<char>>
    decreases a.len(),
{
    if a.len() == 0 {
        Seq::empty()
    } else {
        match a.last() {
            Json::Text(s) => texts(a.drop_last()).push(s),
            _ => texts(a.drop_last()),
        }
    }
}

/// Every item as it is typed into a field.
pub open spec fn plain_texts(a: Seq<Json>) -> Seq<Seq<char>> {
    Seq::new(a.len(), |i: int| plain_text(a[i]))
}

/// `type` as a list: a plain string in 3.0, possibly an array in 3.1.
pub open spec fn type_list(schema: Json) -> Seq<Seq<char>> {
    match field(schema, "type"@) {
        Some(Json::Text(s)) => seq![s],
        Some(Json::Array(a)) => texts(a),
        _ => Seq::empty(),
    }
}

/// Accepted values: the schema's own `enum`, or an array's item `enum`.
pub open spec fn options_of(doc: Json, schema: Json) -> Seq<Seq<char>> {
    match field_items(schema, "enum"@) {
        Some(a) => plain_texts(a),
        None => match field(schema, "items"@) {
            Some(items) => match field_items(concrete(doc, items), "enum"@) {
                Some(a) => plain_texts(a),
                None => Seq::empty(),
            },
            None => Seq::empty(),
        },
    }
}

/// A short, readable type, at most `left` levels deep.
pub open spec fn label_of_type(doc: Json, schema: Json, left: nat) -> Seq<char>
    decreases left, 0nat,
{
    if left == 0 {
        "…"@
    } else {
        let s = concrete(doc, schema);
        match field_items(s, "oneOf"@) {
            Some(alts) => union_label(alts, labels(doc, head(alts), (left - 1) as nat)),
            None => match field_items(s, "anyOf"@) {
                Some(alts) => union_label(alts, labels(doc, head(alts), (left - 1) as nat)),
                None => if field(s, "allOf"@) is Some {
                    "object"@
                } else {
                    let inner = match field(s, "items"@) {
                        Some(i) => label_of_type(doc, i, (left - 1) as nat),
                        None => "any"@,
                    };
                    plain_label(s, inner)
                },
            },
        }
    }
}

/// At most the first three alternatives are spelled out.
pub open spec fn head(alts: Seq<Json>) -> Seq<Json> {
    if alts.len() > 3 {
        alts.take(3)
    } else {
        alts
    }
}

/// The labels of `alts`, in order.
pub open spec fn labels(doc: Json, alts: Seq<Json>, left: nat) -> Seq<Seq<char>>
    decreases left, 1 + alts.len(),
{
    if alts.len() == 0 {
        Seq::empty()
    } else {
        labels(doc, alts.drop_last(), left).push(label_of_type(doc, alts.last(), left))
    }
}

pub open spec fn union_label(alts: Seq<Json>, parts: Seq<Seq<char>>) -> Seq<char> {
    join(parts, " | "@) + (if alts.len() > 3 {
        " | …"@
    } else {
        ""@
    })
}

/// The label of a schema without alternatives, given that of its items.
pub open spec fn plain_label(schema: Json, inner: Seq<char>) -> Seq<char> {
    let types = type_list(schema);
    if types.len() == 0 {
        if field(schema, "properties"@) is Some {
            "object"@
        } else {
            "any"@
        }
    } else {
        let first = if types[0] == "array"@ {
            "array<"@ + inner + ">"@
        } else {
            match field_text(schema, "format"@) {
                Some(f) => types[0] + "("@ + f + ")"@,
                None => types[0],
            }
        };
        with_others(first, types.skip(1))
    }
}

/// 3.1 spells a nullable type `[string, "null"]`.
pub open spec fn with_others(first: Seq<char>, others: Seq<Seq<char>>) -> Seq<char>
    decreases others.len(),
{
    if others.len() == 0 {
        first
    } else {
        with_others(first, others.drop_last()) + " | "@ + others.last()
    }
}

/// Everything about a schema except the name and location, which only the
/// caller knows.
pub open spec fn doc_of(doc: Json, schema: Json) -> FieldDocView {
    let s = concrete(doc, schema);
    FieldDocView {
        ty: label_of_type(doc, s, (MAX_BODY_DEPTH + 1) as nat),
        options: options_of(doc, s),
        description: description_of(s),
        default: match field(s, "default"@) {
            Some(d) => Some(plain_text(d)),
            None => None,
        },
        ..blank_doc()
    }
}

/// Documentation of one parameter.
pub open spec fn param_doc_of(doc: Json, p: Json) -> FieldDocView {
    let location = match field_text(p, "in"@) {
        Some(l) => l,
        None => "query"@,
    };
    let base = match field(p, "schema"@) {
        Some(s) => doc_of(doc, concrete(doc, s)),
        None => FieldDocView { ty: "string"@, ..blank_doc() },
    };
    FieldDocView {
        name: match field_text(p, "name"@) {
            Some(n) => n,
            None => Seq::empty(),
        },
        location,
        // Path parameters are required by definition, even where the flag is
        // left out.
        required: location == "path"@ || field_flag(p, "required"@) == Some(true),
        // A description on the parameter beats one inherited from its schema.
        description: match description_of(p) {
            Some(d) => Some(d),
            None => base.description,
        },
        ..base
    }
}

// ----- flattening a body schema -----

/// Schemas contributing properties to `schema`: itself, plus `allOf` members.
pub open spec fn parts_of(doc: Json, schema: Json) -> Seq<Json> {
    match field_items(schema, "allOf"@) {
        Some(all) => seq![schema] + Seq::new(all.len(), |i: int| concrete(doc, all[i])),
        None => seq![schema],
    }
}

/// The names that a part marks as required.
pub open spec fn required_of(part: Json) -> Seq<Seq<char>> {
    match field_items(part, "required"@) {
        Some(a) => texts(a),
        None => Seq::empty(),
    }
}

/// `prefix.name`, or just the name at the top.
pub open spec fn dotted(prefix: Seq<char>, name: Seq<char>) -> Seq<char> {
    if prefix.len() == 0 {
        name
    } else {
        prefix + "."@ + name
    }
}

/// `out` followed by the fields of `schema`, at most `left` levels deep.
pub open spec fn flat(
    doc: Json,
    schema: Json,
    prefix: Seq<char>,
    location: Seq<char>,
    left: nat,
    out: Seq<FieldDocView>,
) -> Seq<FieldDocView>
    decreases left, 2nat, 0nat,
{
    if left == 0 || out.len() >= MAX_BODY_FIELDS {
        out
    } else {
        let s = concrete(doc, schema);
        match field(s, "items"@) {
            // An array contributes no fields of its own; its items stand under
            // `name[]`, so the path reads like the JSON it documents.
            Some(items) => flat(doc, items, prefix + "[]"@, location, (left - 1) as nat, out),
            None => flat_parts(doc, parts_of(doc, s), prefix, location, left, out),
        }
    }
}

pub open spec fn flat_parts(
    doc: Json,
    parts: Seq<Json>,
    prefix: Seq<char>,
    location: Seq<char>,
    left: nat,
    out: Seq<FieldDocView>,
) -> Seq<FieldDocView>
    decreases left, 1nat, parts.len(),
{
    if parts.len() == 0 || left == 0 {
        out
    } else {
        let before = flat_parts(doc, parts.drop_last(), prefix, location, left, out);
        match field_entries(parts.last(), "properties"@) {
            Some(props) => flat_props(
                doc,
                props,
                required_of(parts.last()),
                prefix,
                location,
                left,
                before,
            ),
            None => before,
        }
    }
}

pub open spec fn flat_props(
    doc: Json,
    props: Seq<(Seq<char>, Json)>,
    required: Seq<Seq<char>>,
    prefix: Seq<char>,
    location: Seq<char>,
    left: nat,
    out: Seq<FieldDocView>,
) -> Seq<FieldDocView>
    decreases left, 0nat, props.len(),
{
    if props.len() == 0 || left == 0 {
        out
    } else {
        let before = flat_props(doc, props.drop_last(), required, prefix, location, left, out);
        if before.len() >= MAX_BODY_FIELDS {
            before
        } else {
            let (name, sub) = props.last();
            let path = dotted(prefix, name);
            let row = FieldDocView {
                name: path,
                location,
                required: required.contains(name),
                ..doc_of(doc, concrete(doc, sub))
            };
            flat(doc, concrete(doc, sub), path, location, (left - 1) as nat, before.push(row))
        }
    }
}

/// The rows of a schema at `location`; one that is not an object gets a single
/// row called `whole`.
pub open spec fn schema_docs(
    doc: Json,
    schema: Json,
    location: Seq<char>,
    whole: Seq<char>,
) -> Seq<FieldDocView> {
    let rows = flat(doc, schema, Seq::empty(), location, (MAX_BODY_DEPTH + 1) as nat, Seq::empty());
    let own = doc_of(doc, schema);
    if rows.len() == 0 && own.ty.len() > 0 && own.ty != "object"@ {
        seq![FieldDocView { name: whole, location, ..own }]
    } else {
        rows
    }
}

// ----- computing it -----

fn description(v: &Node) -> (r: Option<String>)
    ensures
        opt(r) == description_of(v@),
{
    match v.text("description") {
        Some(d) => {
            let t = trimmed(d);
            if t.is_empty() {
                None
            } else {
                Some(t.to_owned())
            }
        },
        None => None,
    }
}

pub fn string_items(a: &Vec<Node>) -> (r: Vec<String>)
    ensures
        views(r@) == texts(views(a@)),
{
    let mut out: Vec<String> = Vec::new();
    let mut i: usize = 0;
    while i < a.len()
        invariant
            i <= a@.len(),
            views(out@) == texts(views(a@).take(i as int)),
        decreases a@.len() - i,
    {
        assert(views(a@).take(i + 1).drop_last() =~= views(a@).take(i as int));
        assert(views(a@).take(i + 1).last() == a@[i as int]@);
        match a[i].as_str() {
            Some(s) => {
                out.push(s.to_owned());
            },
            None => {},
        }
        i += 1;
    }
    assert(views(a@).take(a@.len() as int) =~= views(a@));
    out
}

fn plain_items(a: &Vec<Node>) -> (r: Vec<String>)
    ensures
        views(r@) == plain_texts(views(a@)),
{
    let mut out: Vec<String> = Vec::new();
    let mut i: usize = 0;
    while i < a.len()
        invariant
            i <= a@.len(),
            views(out@) == plain_texts(views(a@)).take(i as int),
        decreases a@.len() - i,
    {
        out.push(a[i].plain());
        i += 1;
        assert(views(out@) =~= plain_texts(views(a@)).take(i as int));
    }
    assert(views(out@) =~= plain_texts(views(a@)));
    out
}

fn type_names(schema: &Node) -> (r: Vec<String>)
    ensures
        views(r@) == type_list(schema@),
{
    match schema.get("type") {
        Some(Node::Text(s)) => {
            let mut out: Vec<String> = Vec::new();
            out.push(s.clone());
            assert(views(out@) =~= seq![s@]);
            out
        },
        Some(Node::Array(a)) => string_items(a),
        _ => Vec::new(),
    }
}

fn enum_options(doc: &Node, schema: &Node) -> (r: Vec<String>)
    ensures
        views(r@) == options_of(doc@, schema@),
{
    match schema.items("enum") {
        Some(a) => plain_items(a),
        None => match schema.get("items") {
            Some(items) => match deref(doc, items).items("enum") {
                Some(a) => plain_items(a),
                None => Vec::new(),
            },
            None => Vec::new(),
        },
    }
}

fn union_text(doc: &Node, alts: &Vec<Node>, left: usize) -> (r: String)
    ensures
        r@ == union_label(views(alts@), labels(doc@, head(views(alts@)), left as nat)),
    decreases left, 1nat,
{
    let ghost all = head(views(alts@));
    let n: usize = if alts.len() > 3 {
        3
    } else {
        alts.len()
    };
    let mut parts: Vec<String> = Vec::new();
    let mut i: usize = 0;
    while i < n
        invariant
            i <= n <= alts@.len(),
            all == head(views(alts@)),
            n == all.len(),
            views(parts@) == labels(doc@, all.take(i as int), left as nat),
        decreases n - i,
    {
        let label = type_label(doc, &alts[i], left);
        parts.push(label);
        assert(all.take(i + 1).drop_last() =~= all.take(i as int));
        assert(all.take(i + 1).last() == alts@[i as int]@);
        i += 1;
    }
    assert(all.take(n as int) =~= all);
    let mut out = join_strings(&parts, " | ");
    if alts.len() > 3 {
        out.append(" | …");
    } else {
        out.append("");
    }
    out
}

fn simple_label(schema: &Node, inner: &str) -> (r: String)
    ensures
        r@ == plain_label(schema@, inner@),
{
    let types = type_names(schema);
    if types.len() == 0 {
        return if schema.get("properties").is_some() {
            "object".to_owned()
        } else {
            "any".to_owned()
        };
    }
    let ghost all = views(types@);
    assert(all[0] == types@[0]@);
    let mut label: String = if same(types[0].as_str(), "array") {
        let mut s = "array<".to_owned();
        s.append(inner);
        s.append(">");
        s
    } else {
        match schema.text("format") {
            Some(f) => {
                let mut s = types[0].clone();
                s.append("(");
                s.append(f);
                s.append(")");
                s
            },
            None => types[0].clone(),
        }
    };
    let ghost first = label@;
    let ghost others = all.skip(1);
    let mut i: usize = 1;
    assert(others.take(0) =~= Seq::empty());
    while i < types.len()
        invariant
            1 <= i <= types@.len(),
            all == views(types@),
            others == all.skip(1),
            label@ == with_others(first, others.take(i - 1)),
        decreases types@.len() - i,
    {
        label.append(" | ");
        label.append(types[i].as_str());
        assert(others.take(i as int).drop_last() =~= others.take(i - 1));
        assert(others.take(i as int).last() == types@[i as int]@);
        i += 1;
    }
    assert(others.take(types@.len() - 1) =~= others);
    label
}

/// A short, readable type: `string(uuid)`, `array<integer>`, `object`.
pub fn type_label(doc: &Node, schema: &Node, left: usize) -> (r: String)
    ensures
        r@ == label_of_type(doc@, schema@, left as nat),
    decreases left, 0nat,
{
    if left == 0 {
        return "…".to_owned();
    }
    let s = deref(doc, schema);
    match s.items("oneOf") {
        Some(alts) => union_text(doc, alts, left - 1),
        None => match s.items("anyOf") {
            Some(alts) => union_text(doc, alts, left - 1),
            None => if s.get("allOf").is_some() {
                "object".to_owned()
            } else {
                let inner: String = match s.get("items") {
                    Some(i) => type_label(doc, i, left - 1),
                    None => "any".to_owned(),
                };
                simple_label(s, inner.as_str())
            },
        },
    }
}

fn field_doc(doc: &Node, schema: &Node) -> (r: FieldDoc)
    ensures
        r@ == doc_of(doc@, schema@),
{
    let s = deref(doc, schema);
    FieldDoc {
        name: String::new(),
        location: String::new(),
        ty: type_label(doc, s, MAX_BODY_DEPTH + 1),
        required: false,
        options: enum_options(doc, s),
        description: description(s),
        default: match s.get("default") {
            Some(d) => Some(d.plain()),
            None => None,
        },
    }
}

/// Documentation for one parameter object.
pub fn param_doc(doc: &Node, p: &Node) -> (r: FieldDoc)
    ensures
        r@ == param_doc_of(doc@, p@),
{
    let location: &str = match p.text("in") {
        Some(l) => l,
        None => "query",
    };
    let mut out: FieldDoc = match p.get("schema") {
        Some(s) => field_doc(doc, deref(doc, s)),
        None => FieldDoc { ty: "string".to_owned(), ..FieldDoc::default() },
    };
    out.name = match p.text("name") {
        Some(n) => n.to_owned(),
        None => String::new(),
    };
    out.location = location.to_owned();
    out.required = same(location, "path") || matches!(p.flag("required"), Some(true));
    match description(p) {
        Some(d) => {
            out.description = Some(d);
        },
        None => {},
    }
    out
}

fn object_parts<'a>(doc: &'a Node, schema: &'a Node) -> (r: Vec<&'a Node>)
    ensures
        views(r@) == parts_of(doc@, schema@),
{
    let mut parts: Vec<&'a Node> = Vec::new();
    parts.push(schema);
    assert(views(parts@) =~= seq![schema@]);
    match schema.items("allOf") {
        Some(all) => {
            let ghost goal = Seq::new(all@.len(), |i: int| concrete(doc@, views(all@)[i]));
            let mut i: usize = 0;
            while i < all.len()
                invariant
                    i <= all@.len(),
                    goal == Seq::new(all@.len(), |i: int| concrete(doc@, views(all@)[i])),
                    views(parts@) == seq![schema@] + goal.take(i as int),
                decreases all@.len() - i,
            {
                parts.push(deref(doc, &all[i]));
                i += 1;
                assert(views(parts@) =~= seq![schema@] + goal.take(i as int));
            }
            assert(goal.take(all@.len() as int) =~= goal);
            assert(goal =~= Seq::new(views(all@).len(), |i: int| concrete(doc@, views(all@)[i])));
        },
        None => {},
    }
    parts
}

fn dotted_path(prefix: &str, name: &str) -> (r: String)
    ensures
        r@ == dotted(prefix@, name@),
{
    if prefix.is_empty() {
        name.to_owned()
    } else {
        let mut s = prefix.to_owned();
        s.append(".");
        s.append(name);
        s
    }
}

fn flatten_props(
    doc: &Node,
    props: &Vec<(String, Node)>,
    required: &Vec<String>,
    prefix: &str,
    location: &str,
    left: usize,
    out: &mut Vec<FieldDoc>,
)
    requires
        left > 0,
    ensures
        views(final(out)@) == flat_props(
            doc@,
            views(props@),
            views(required@),
            prefix@,
            location@,
            left as nat,
            views(old(out)@),
        ),
    decreases left, 0nat,
{
    let ghost all = views(props@);
    let ghost start = views(out@);
    let mut i: usize = 0;
    while i < props.len()
        invariant
            i <= props@.len(),
            left > 0,
            all == views(props@),
            views(out@) == flat_props(
                doc@,
                all.take(i as int),
                views(required@),
                prefix@,
                location@,
                left as nat,
                start,
            ),
        decreases props@.len() - i,
    {
        assert(all.take(i + 1).drop_last() =~= all.take(i as int));
        assert(all.take(i + 1).last() == (props@[i as int].0@, props@[i as int].1@));
        if out.len() < MAX_BODY_FIELDS {
            let name = props[i].0.as_str();
            let sub = deref(doc, &props[i].1);
            let path = dotted_path(prefix, name);
            let mut row = field_doc(doc, sub);
            row.name = path.clone();
            row.location = location.to_owned();
            row.required = contains_string(required, name);
            out.push(row);
            flatten(doc, sub, path.as_str(), location, left - 1, out);
        }
        i += 1;
    }
    assert(all.take(props@.len() as int) =~= all);
}

fn flatten(
    doc: &Node,
    schema: &Node,
    prefix: &str,
    location: &str,
    left: usize,
    out: &mut Vec<FieldDoc>,
)
    ensures
        views(final(out)@) == flat(
            doc@,
            schema@,
            prefix@,
            location@,
            left as nat,
            views(old(out)@),
        ),
    decreases left, 1nat,
{
    if left == 0 || out.len() >= MAX_BODY_FIELDS {
        return;
    }
    let s = deref(doc, schema);
    match s.get("items") {
        Some(items) => {
            let inner = cat(prefix, "[]");
            flatten(doc, items, inner.as_str(), location, left - 1, out);
        },
        None => {
            let parts = object_parts(doc, s);
            let ghost all = views(parts@);
            let ghost start = views(out@);
            let mut i: usize = 0;
            while i < parts.len()
                invariant
                    i <= parts@.len(),
                    left > 0,
                    all == views(parts@),
                    views(out@) == flat_parts(
                        doc@,
                        all.take(i as int),
                        prefix@,
                        location@,
                        left as nat,
                        start,
                    ),
                decreases parts@.len() - i,
            {
                assert(all.take(i + 1).drop_last() =~= all.take(i as int));
                assert(all.take(i + 1).last() == parts@[i as int]@);
                let part = parts[i];
                let required: Vec<String> = match part.items("required") {
                    Some(a) => string_items(a),
                    None => Vec::new(),
                };
                match part.entries("properties") {
                    Some(props) => {
                        flatten_props(doc, props, &required, prefix, location, left, out);
                    },
                    None => {},
                }
                i += 1;
            }
            assert(all.take(parts@.len() as int) =~= all);
        },
    }
}

fn docs_at(doc: &Node, schema: &Node, location: &str, whole: &str) -> (r: Vec<FieldDoc>)
    ensures
        views(r@) == schema_docs(doc@, schema@, location@, whole@),
{
    let mut out: Vec<FieldDoc> = Vec::new();
    proof {
        reveal_strlit("");
        assert(""@ =~= Seq::<char>::empty());
    }
    flatten(doc, schema, "", location, MAX_BODY_DEPTH + 1, &mut out);
    if out.len() == 0 {
        let mut own = field_doc(doc, schema);
        if !own.ty.as_str().is_empty() && !same(own.ty.as_str(), "object") {
            own.name = whole.to_owned();
            own.location = location.to_owned();
            out.push(own);
            assert(views(out@) =~= seq![own@]);
        }
    }
    out
}

/// Documentation for a request body schema, flattened to dotted paths:
/// `owner.name`, `pets[].tag`. A body that is not an object gets a single row.
pub fn body_docs(doc: &Node, schema: &Node) -> (r: Vec<FieldDoc>)
    ensures
        views(r@) == schema_docs(doc@, schema@, "body"@, "(body)"@),
{
    docs_at(doc, schema, "body", "(body)")
}

/// Documentation for a response schema, flattened the same way.
pub fn response_docs(doc: &Node, schema: &Node) -> (r: Vec<FieldDoc>)
    ensures
        views(r@) == schema_docs(doc@, schema@, "response"@, "(response)"@),
{
    docs_at(doc, schema, "response", "(response)")
}

// ----- laws -----

/// A schema never contributes more rows than the cap.
pub proof fn lemma_rows_capped(doc: Json, schema: Json, location: Seq<char>, whole: Seq<char>)
    ensures
        schema_docs(doc, schema, location, whole).len() <= MAX_BODY_FIELDS,
{
    lemma_flat_capped(
        doc,
        schema,
        Seq::empty(),
        location,
        (MAX_BODY_DEPTH + 1) as nat,
        Seq::empty(),
    );
}

proof fn lemma_flat_capped(
    doc: Json,
    schema: Json,
    prefix: Seq<char>,
    location: Seq<char>,
    left: nat,
    out: Seq<FieldDocView>,
)
    requires
        out.len() <= MAX_BODY_FIELDS,
    ensures
        flat(doc, schema, prefix, location, left, out).len() <= MAX_BODY_FIELDS,
    decreases left, 2nat, 0nat,
{
    if left > 0 && out.len() < MAX_BODY_FIELDS {
        let s = concrete(doc, schema);
        match field(s, "items"@) {
            Some(items) => lemma_flat_capped(
                doc,
                items,
                prefix + "[]"@,
                location,
                (left - 1) as nat,
                out,
            ),
            None => lemma_parts_capped(doc, parts_of(doc, s), prefix, location, left, out),
        }
    }
}

proof fn lemma_parts_capped(
    doc: Json,
    parts: Seq<Json>,
    prefix: Seq<char>,
    location: Seq<char>,
    left: nat,
    out: Seq<FieldDocView>,
)
    requires
        out.len() <= MAX_BODY_FIELDS,
    ensures
        flat_parts(doc, parts, prefix, location, left, out).len() <= MAX_BODY_FIELDS,
    decreases left, 1nat, parts.len(),
{
    if parts.len() > 0 && left > 0 {
        lemma_parts_capped(doc, parts.drop_last(), prefix, location, left, out);
        let before = flat_parts(doc, parts.drop_last(), prefix, location, left, out);
        match field_entries(parts.last(), "properties"@) {
            Some(props) => lemma_props_capped(
                doc,
                props,
                required_of(parts.last()),
                prefix,
                location,
                left,
                before,
            ),
            None => {},
        }
    }
}

proof fn lemma_props_capped(
    doc: Json,
    props: Seq<(Seq<char>, Json)>,
    required: Seq<Seq<char>>,
    prefix: Seq<char>,
    location: Seq<char>,
    left: nat,
    out: Seq<FieldDocView>,
)
    requires
        out.len() <= MAX_BODY_FIELDS,
    ensures
        flat_props(doc, props, required, prefix, location, left, out).len() <= MAX_BODY_FIELDS,
    decreases left, 0nat, props.len(),
{
    if props.len() > 0 && left > 0 {
        lemma_props_capped(doc, props.drop_last(), required, prefix, location, left, out);
        let before = flat_props(doc, props.drop_last(), required, prefix, location, left, out);
        if before.len() < MAX_BODY_FIELDS {
            let (name, sub) = props.last();
            let path = dotted(prefix, name);
            let row = FieldDocView {
                name: path,
                location,
                required: required.contains(name),
                ..doc_of(doc, concrete(doc, sub))
            };
            lemma_flat_capped(
                doc,
                concrete(doc, sub),
                path,
                location,
                (left - 1) as nat,
                before.push(row),
            );
        }
    }
}

/// A path parameter is required whatever its flag says.
pub proof fn lemma_path_params_required(doc: Json, p: Json)
    requires
        field_text(p, "in"@) == Some("path"@),
    ensures
        param_doc_of(doc, p).required,
{
}

} // verus!
