//! What the rows of documentation say, and that none is missing.

use vstd::prelude::*;

use crate::json::{field, field_entries, field_flag, field_items, field_text, plain_text, Json};
use crate::model::FieldDocView;
use crate::openapi::docs::{
    doc_of, flat, flat_parts, flat_props, label_of_type, param_doc_of, parts_of, required_of,
    schema_docs, texts,
};
use crate::openapi::import::{request_of, Operation};
use crate::openapi::laws::media::{
    chosen, is_success, lemma_json_is_preferred, lemma_success_is_described,
};
use crate::openapi::resolve::concrete;
use crate::text::trim;

verus! {

// ----- what a row says -----

/// The schema that documents a field: references are followed where the field is
/// found and again where it is described.
pub open spec fn target(doc: Json, schema: Json) -> Json {
    concrete(doc, concrete(doc, schema))
}

/// Whether `row` documents the field `name` of schema `sub`.
pub open spec fn says(
    doc: Json,
    row: FieldDocView,
    name: Seq<char>,
    location: Seq<char>,
    required: bool,
    sub: Json,
) -> bool {
    let s = target(doc, sub);
    &&& row.name == name
    &&& row.location == location
    &&& row.required == required
    &&& row.ty == label_of_type(doc, s, 5)
    &&& match field_text(s, "description"@) {
        Some(d) => if trim(d).len() > 0 {
            row.description == Some(trim(d))
        } else {
            row.description is None
        },
        None => row.description is None,
    }
    &&& match field(s, "default"@) {
        Some(d) => row.default == Some(plain_text(d)),
        None => row.default is None,
    }
    &&& offers(doc, s, row.options)
}

/// Whether `options` are the values that `s`, or its items, can take.
pub open spec fn offers(doc: Json, s: Json, options: Seq<Seq<char>>) -> bool {
    let accepted = if field_items(s, "enum"@) is Some {
        field_items(s, "enum"@)
    } else if field(s, "items"@) is Some {
        field_items(concrete(doc, field(s, "items"@)->0), "enum"@)
    } else {
        None
    };
    match accepted {
        Some(a) => options.len() == a.len() && forall|i: int|
            0 <= i < a.len() ==> #[trigger] options[i] == plain_text(a[i]),
        None => options.len() == 0,
    }
}

proof fn lemma_row_says(
    doc: Json,
    name: Seq<char>,
    location: Seq<char>,
    required: bool,
    sub: Json,
)
    ensures
        says(
            doc,
            FieldDocView { name, location, required, ..doc_of(doc, concrete(doc, sub)) },
            name,
            location,
            required,
            sub,
        ),
{
}

// ----- which fields there are -----

/// How many members contribute properties to `s`.
pub open spec fn member_count(s: Json) -> nat {
    match field_items(s, "allOf"@) {
        Some(all) => 1 + all.len(),
        None => 1,
    }
}

/// A schema contributes its own properties, then those of each `allOf` member.
pub open spec fn member(doc: Json, s: Json, p: int) -> Json {
    if p == 0 {
        s
    } else {
        concrete(doc, field_items(s, "allOf"@)->0[p - 1])
    }
}

/// Whether property `i` of member `p` is there.
pub open spec fn has_prop(doc: Json, s: Json, p: int, i: int) -> bool {
    &&& 0 <= p < member_count(s)
    &&& field_entries(member(doc, s, p), "properties"@) is Some
    &&& 0 <= i < field_entries(member(doc, s, p), "properties"@)->0.len()
}

/// Property `i` of member `p`.
pub open spec fn prop(doc: Json, s: Json, p: int, i: int) -> (Seq<char>, Json) {
    field_entries(member(doc, s, p), "properties"@)->0[i]
}

/// Whether a member lists `name` as required.
pub open spec fn lists(part: Json, name: Seq<char>) -> bool {
    field_items(part, "required"@) is Some && exists|k: int|
        0 <= k < field_items(part, "required"@)->0.len() && #[trigger] field_items(
            part,
            "required"@,
        )->0[k] == Json::Text(name)
}

/// The path of property `name` under `prefix`.
pub open spec fn child(prefix: Seq<char>, name: Seq<char>) -> Seq<char> {
    if prefix.len() == 0 {
        name
    } else {
        prefix + "."@ + name
    }
}

/// Whether a value of `schema`, which itself stands at `prefix`, has a field at
/// `name` of schema `sub`, no more than `left` levels down. The items of an array
/// stand at `prefix[]`.
pub open spec fn has_field(
    doc: Json,
    schema: Json,
    prefix: Seq<char>,
    left: nat,
    name: Seq<char>,
    sub: Json,
    required: bool,
) -> bool
    decreases left,
{
    left > 0 && {
        let s = concrete(doc, schema);
        match field(s, "items"@) {
            Some(items) => has_field(
                doc,
                items,
                prefix + "[]"@,
                (left - 1) as nat,
                name,
                sub,
                required,
            ),
            None => exists|p: int, i: int| #[trigger]
                has_prop(doc, s, p, i) && {
                    let found = prop(doc, s, p, i);
                    ||| name == child(prefix, found.0) && sub == found.1 && required == lists(
                        member(doc, s, p),
                        found.0,
                    )
                    ||| has_field(
                        doc,
                        concrete(doc, found.1),
                        child(prefix, found.0),
                        (left - 1) as nat,
                        name,
                        sub,
                        required,
                    )
                },
        }
    }
}

/// Whether one of `rows` documents the field.
pub open spec fn has_row(
    doc: Json,
    rows: Seq<FieldDocView>,
    name: Seq<char>,
    location: Seq<char>,
    required: bool,
    sub: Json,
) -> bool {
    exists|k: int|
        0 <= k < rows.len() && says(doc, #[trigger] rows[k], name, location, required, sub)
}

// ----- rows are only added -----

/// Whether `all` begins with `out`.
pub open spec fn extends(all: Seq<FieldDocView>, out: Seq<FieldDocView>) -> bool {
    out.len() <= all.len() && forall|k: int| 0 <= k < out.len() ==> #[trigger] all[k] == out[k]
}

proof fn lemma_flat_extends(
    doc: Json,
    schema: Json,
    prefix: Seq<char>,
    location: Seq<char>,
    left: nat,
    out: Seq<FieldDocView>,
)
    ensures
        extends(flat(doc, schema, prefix, location, left, out), out),
    decreases left, 2nat, 0nat,
{
    if left > 0 && out.len() < 200 {
        let s = concrete(doc, schema);
        match field(s, "items"@) {
            Some(items) => lemma_flat_extends(
                doc,
                items,
                prefix + "[]"@,
                location,
                (left - 1) as nat,
                out,
            ),
            None => lemma_parts_extend(doc, parts_of(doc, s), prefix, location, left, out),
        }
    }
}

proof fn lemma_parts_extend(
    doc: Json,
    parts: Seq<Json>,
    prefix: Seq<char>,
    location: Seq<char>,
    left: nat,
    out: Seq<FieldDocView>,
)
    ensures
        extends(flat_parts(doc, parts, prefix, location, left, out), out),
    decreases left, 1nat, parts.len(),
{
    if parts.len() > 0 && left > 0 {
        lemma_parts_extend(doc, parts.drop_last(), prefix, location, left, out);
        let before = flat_parts(doc, parts.drop_last(), prefix, location, left, out);
        match field_entries(parts.last(), "properties"@) {
            Some(props) => lemma_props_extend(
                doc,
                props,
                required_of(parts.last()),
                prefix,
                location,
                left,
                before,
            ),
            None => {},
        }
    }
}

proof fn lemma_props_extend(
    doc: Json,
    props: Seq<(Seq<char>, Json)>,
    required: Seq<Seq<char>>,
    prefix: Seq<char>,
    location: Seq<char>,
    left: nat,
    out: Seq<FieldDocView>,
)
    ensures
        extends(flat_props(doc, props, required, prefix, location, left, out), out),
    decreases left, 0nat, props.len(),
{
    if props.len() > 0 && left > 0 {
        lemma_props_extend(doc, props.drop_last(), required, prefix, location, left, out);
        let before = flat_props(doc, props.drop_last(), required, prefix, location, left, out);
        if before.len() < 200 {
            let (name, sub) = props.last();
            let path = child(prefix, name);
            let row = FieldDocView {
                name: path,
                location,
                required: required.contains(name),
                ..doc_of(doc, concrete(doc, sub))
            };
            lemma_flat_extends(
                doc,
                concrete(doc, sub),
                path,
                location,
                (left - 1) as nat,
                before.push(row),
            );
            let all = flat_props(doc, props, required, prefix, location, left, out);
            assert forall|k: int| 0 <= k < out.len() implies #[trigger] all[k] == out[k] by {
                assert(before.push(row)[k] == before[k]);
            }
        }
    }
}

proof fn lemma_row_kept(
    doc: Json,
    rows: Seq<FieldDocView>,
    all: Seq<FieldDocView>,
    name: Seq<char>,
    location: Seq<char>,
    required: bool,
    sub: Json,
)
    requires
        extends(all, rows),
        has_row(doc, rows, name, location, required, sub),
    ensures
        has_row(doc, all, name, location, required, sub),
{
    let k = choose|k: int|
        0 <= k < rows.len() && says(doc, #[trigger] rows[k], name, location, required, sub);
    assert(all[k] == rows[k]);
}

// ----- no field is missing -----

/// The strings of a list are its text items, whatever else is in it.
pub proof fn lemma_texts_found(a: Seq<Json>, name: Seq<char>)
    ensures
        texts(a).contains(name) == (exists|k: int| 0 <= k < a.len() && #[trigger] a[k] == Json::Text(
            name,
        )),
    decreases a.len(),
{
    if a.len() > 0 {
        let init = a.drop_last();
        let last = a.len() - 1;
        lemma_texts_found(init, name);
        if exists|k: int| 0 <= k < a.len() && #[trigger] a[k] == Json::Text(name) {
            let k = choose|k: int| 0 <= k < a.len() && #[trigger] a[k] == Json::Text(name);
            if k < last {
                assert(init[k] == a[k]);
                assert(texts(init).contains(name));
                let i = choose|i: int| 0 <= i < texts(init).len() && texts(init)[i] == name;
                assert(texts(a)[i] == name);
            } else {
                assert(texts(a)[texts(init).len() as int] == name);
            }
        }
        if texts(a).contains(name) {
            let i = choose|i: int| 0 <= i < texts(a).len() && texts(a)[i] == name;
            if i < texts(init).len() {
                assert(texts(init)[i] == name);
                assert(texts(init).contains(name));
                let k = choose|k: int| 0 <= k < init.len() && #[trigger] init[k] == Json::Text(name);
                assert(a[k] == Json::Text(name));
            } else {
                assert(a[last] == Json::Text(name));
            }
        }
    }
}

proof fn lemma_required(part: Json, name: Seq<char>)
    ensures
        required_of(part).contains(name) == lists(part, name),
{
    match field_items(part, "required"@) {
        Some(a) => lemma_texts_found(a, name),
        None => {},
    }
}

proof fn lemma_field_in_flat(
    doc: Json,
    schema: Json,
    prefix: Seq<char>,
    location: Seq<char>,
    left: nat,
    out: Seq<FieldDocView>,
    name: Seq<char>,
    sub: Json,
    required: bool,
)
    requires
        has_field(doc, schema, prefix, left, name, sub, required),
        flat(doc, schema, prefix, location, left, out).len() < 200,
    ensures
        has_row(
            doc,
            flat(doc, schema, prefix, location, left, out),
            name,
            location,
            required,
            sub,
        ),
    decreases left, 2nat, 0nat,
{
    let s = concrete(doc, schema);
    lemma_flat_extends(doc, schema, prefix, location, left, out);
    match field(s, "items"@) {
        Some(items) => lemma_field_in_flat(
            doc,
            items,
            prefix + "[]"@,
            location,
            (left - 1) as nat,
            out,
            name,
            sub,
            required,
        ),
        None => {
            let (p, i) = choose|p: int, i: int| #[trigger]
                has_prop(doc, s, p, i) && {
                    let found = prop(doc, s, p, i);
                    ||| name == child(prefix, found.0) && sub == found.1 && required == lists(
                        member(doc, s, p),
                        found.0,
                    )
                    ||| has_field(
                        doc,
                        concrete(doc, found.1),
                        child(prefix, found.0),
                        (left - 1) as nat,
                        name,
                        sub,
                        required,
                    )
                };
            let parts = parts_of(doc, s);
            assert(parts[p] == member(doc, s, p));
            lemma_field_in_parts(
                doc,
                parts,
                prefix,
                location,
                left,
                out,
                name,
                sub,
                required,
                p,
                i,
            );
        },
    }
}

proof fn lemma_field_in_parts(
    doc: Json,
    parts: Seq<Json>,
    prefix: Seq<char>,
    location: Seq<char>,
    left: nat,
    out: Seq<FieldDocView>,
    name: Seq<char>,
    sub: Json,
    required: bool,
    p: int,
    i: int,
)
    requires
        left > 0,
        0 <= p < parts.len(),
        field_entries(parts[p], "properties"@) is Some,
        0 <= i < field_entries(parts[p], "properties"@)->0.len(),
        ({
            let found = field_entries(parts[p], "properties"@)->0[i];
            ||| name == child(prefix, found.0) && sub == found.1 && required == lists(
                parts[p],
                found.0,
            )
            ||| has_field(
                doc,
                concrete(doc, found.1),
                child(prefix, found.0),
                (left - 1) as nat,
                name,
                sub,
                required,
            )
        }),
        flat_parts(doc, parts, prefix, location, left, out).len() < 200,
    ensures
        has_row(
            doc,
            flat_parts(doc, parts, prefix, location, left, out),
            name,
            location,
            required,
            sub,
        ),
    decreases left, 1nat, parts.len(),
{
    let init = parts.drop_last();
    let before = flat_parts(doc, init, prefix, location, left, out);
    match field_entries(parts.last(), "properties"@) {
        Some(props) => lemma_props_extend(
            doc,
            props,
            required_of(parts.last()),
            prefix,
            location,
            left,
            before,
        ),
        None => {},
    }
    if p < parts.len() - 1 {
        assert(init[p] == parts[p]);
        lemma_field_in_parts(
            doc,
            init,
            prefix,
            location,
            left,
            out,
            name,
            sub,
            required,
            p,
            i,
        );
        lemma_row_kept(
            doc,
            before,
            flat_parts(doc, parts, prefix, location, left, out),
            name,
            location,
            required,
            sub,
        );
    } else {
        let props = field_entries(parts[p], "properties"@)->0;
        lemma_required(parts[p], props[i].0);
        lemma_field_in_props(
            doc,
            props,
            required_of(parts[p]),
            prefix,
            location,
            left,
            before,
            name,
            sub,
            required,
            i,
        );
    }
}

proof fn lemma_field_in_props(
    doc: Json,
    props: Seq<(Seq<char>, Json)>,
    needed: Seq<Seq<char>>,
    prefix: Seq<char>,
    location: Seq<char>,
    left: nat,
    out: Seq<FieldDocView>,
    name: Seq<char>,
    sub: Json,
    required: bool,
    i: int,
)
    requires
        left > 0,
        0 <= i < props.len(),
        ({
            ||| name == child(prefix, props[i].0) && sub == props[i].1 && required
                == needed.contains(props[i].0)
            ||| has_field(
                doc,
                concrete(doc, props[i].1),
                child(prefix, props[i].0),
                (left - 1) as nat,
                name,
                sub,
                required,
            )
        }),
        flat_props(doc, props, needed, prefix, location, left, out).len() < 200,
    ensures
        has_row(
            doc,
            flat_props(doc, props, needed, prefix, location, left, out),
            name,
            location,
            required,
            sub,
        ),
    decreases left, 0nat, props.len(),
{
    let init = props.drop_last();
    let before = flat_props(doc, init, needed, prefix, location, left, out);
    let all = flat_props(doc, props, needed, prefix, location, left, out);
    let (last, schema) = props.last();
    let path = child(prefix, last);
    let row = FieldDocView {
        name: path,
        location,
        required: needed.contains(last),
        ..doc_of(doc, concrete(doc, schema))
    };
    let with_row = before.push(row);
    lemma_flat_extends(doc, concrete(doc, schema), path, location, (left - 1) as nat, with_row);
    assert(extends(with_row, before));
    assert(extends(all, with_row));
    if i < props.len() - 1 {
        assert(init[i] == props[i]);
        lemma_field_in_props(
            doc,
            init,
            needed,
            prefix,
            location,
            left,
            out,
            name,
            sub,
            required,
            i,
        );
        lemma_row_kept(doc, before, with_row, name, location, required, sub);
        lemma_row_kept(doc, with_row, all, name, location, required, sub);
    } else if name == path && sub == schema && required == needed.contains(last) {
        lemma_row_says(doc, path, location, required, schema);
        assert(with_row[before.len() as int] == row);
        assert(has_row(doc, with_row, name, location, required, sub));
        lemma_row_kept(doc, with_row, all, name, location, required, sub);
    } else {
        lemma_field_in_flat(
            doc,
            concrete(doc, schema),
            path,
            location,
            (left - 1) as nat,
            with_row,
            name,
            sub,
            required,
        );
    }
}

/// Every field of a schema, at any depth that is shown, has a row with its name,
/// whether it is required, its type, its description, its default and its
/// accepted values, unless the rows reached their cap.
pub proof fn lemma_every_field_is_documented(
    doc: Json,
    schema: Json,
    location: Seq<char>,
    whole: Seq<char>,
    name: Seq<char>,
    sub: Json,
    required: bool,
)
    requires
        has_field(doc, schema, Seq::empty(), 5, name, sub, required),
        schema_docs(doc, schema, location, whole).len() < 200,
    ensures
        has_row(doc, schema_docs(doc, schema, location, whole), name, location, required, sub),
{
    let rows = flat(doc, schema, Seq::empty(), location, 5, Seq::empty());
    lemma_field_in_flat(
        doc,
        schema,
        Seq::empty(),
        location,
        5,
        Seq::empty(),
        name,
        sub,
        required,
    );
}

/// A property of the schema itself, or of an `allOf` member, is a field.
pub proof fn lemma_properties_are_fields(
    doc: Json,
    schema: Json,
    prefix: Seq<char>,
    left: nat,
    p: int,
    i: int,
)
    requires
        left > 0,
        field(concrete(doc, schema), "items"@) is None,
        has_prop(doc, concrete(doc, schema), p, i),
    ensures
        ({
            let s = concrete(doc, schema);
            let found = prop(doc, s, p, i);
            has_field(
                doc,
                schema,
                prefix,
                left,
                child(prefix, found.0),
                found.1,
                lists(member(doc, s, p), found.0),
            )
        }),
{
}

proof fn lemma_props_in_order(
    doc: Json,
    props: Seq<(Seq<char>, Json)>,
    needed: Seq<Seq<char>>,
    prefix: Seq<char>,
    location: Seq<char>,
    left: nat,
    out: Seq<FieldDocView>,
    i: int,
    j: int,
)
    requires
        left > 0,
        0 <= i < j < props.len(),
        flat_props(doc, props, needed, prefix, location, left, out).len() < 200,
    ensures
        in_order(
            flat_props(doc, props, needed, prefix, location, left, out),
            child(prefix, props[i].0),
            child(prefix, props[j].0),
        ),
    decreases props.len(),
{
    let init = props.drop_last();
    let before = flat_props(doc, init, needed, prefix, location, left, out);
    let all = flat_props(doc, props, needed, prefix, location, left, out);
    let (last, schema) = props.last();
    let path = child(prefix, last);
    let row = FieldDocView {
        name: path,
        location,
        required: needed.contains(last),
        ..doc_of(doc, concrete(doc, schema))
    };
    let with_row = before.push(row);
    lemma_flat_extends(doc, concrete(doc, schema), path, location, (left - 1) as nat, with_row);
    assert(extends(all, with_row));
    assert(init[i] == props[i]);
    if j < props.len() - 1 {
        assert(init[j] == props[j]);
        lemma_props_in_order(doc, init, needed, prefix, location, left, out, i, j);
        let (k, l) = choose|k: int, l: int|
            0 <= k < l < before.len() && (#[trigger] before[k]).name == child(prefix, props[i].0)
                && (#[trigger] before[l]).name == child(prefix, props[j].0);
        assert(with_row[k] == before[k] && with_row[l] == before[l]);
        assert(all[k] == before[k] && all[l] == before[l]);
    } else {
        let required = needed.contains(props[i].0);
        lemma_field_in_props(
            doc,
            init,
            needed,
            prefix,
            location,
            left,
            out,
            child(prefix, props[i].0),
            props[i].1,
            required,
            i,
        );
        let k = choose|k: int|
            0 <= k < before.len() && says(
                doc,
                #[trigger] before[k],
                child(prefix, props[i].0),
                location,
                required,
                props[i].1,
            );
        let l = before.len() as int;
        assert(with_row[k] == before[k] && with_row[l] == row);
        assert(all[k] == before[k] && all[l] == row);
    }
}

/// Whether a row called `first` stands before one called `second`.
pub open spec fn in_order(rows: Seq<FieldDocView>, first: Seq<char>, second: Seq<char>) -> bool {
    exists|k: int, l: int|
        0 <= k < l < rows.len() && (#[trigger] rows[k]).name == first && (#[trigger] rows[l]).name
            == second
}

/// The properties of a schema are documented in the order in which they stand.
pub proof fn lemma_properties_in_order(
    doc: Json,
    schema: Json,
    location: Seq<char>,
    whole: Seq<char>,
    props: Seq<(Seq<char>, Json)>,
    i: int,
    j: int,
)
    requires
        field(concrete(doc, schema), "items"@) is None,
        field(concrete(doc, schema), "allOf"@) is None,
        field_entries(concrete(doc, schema), "properties"@) == Some(props),
        0 <= i < j < props.len(),
        schema_docs(doc, schema, location, whole).len() < 200,
    ensures
        in_order(schema_docs(doc, schema, location, whole), props[i].0, props[j].0),
{
    let s = concrete(doc, schema);
    let parts = parts_of(doc, s);
    let none = Seq::<FieldDocView>::empty();
    assert(parts == seq![s]);
    assert(parts.drop_last() =~= Seq::<Json>::empty());
    assert(flat_parts(doc, parts.drop_last(), Seq::empty(), location, 5, none) == none);
    let top = Seq::<char>::empty();
    assert(parts.last() == s);
    assert(flat(doc, schema, top, location, 5, none) == flat_parts(doc, parts, top, location, 5, none));
    assert(flat_parts(doc, parts, top, location, 5, none) == flat_props(
        doc,
        props,
        required_of(s),
        Seq::empty(),
        location,
        5,
        none,
    ));
    lemma_props_in_order(doc, props, required_of(s), Seq::empty(), location, 5, none, i, j);
}

/// The row of a property whose schema has a description that is not blank gives
/// that description, trimmed.
pub proof fn lemma_descriptions_are_shown(
    doc: Json,
    schema: Json,
    location: Seq<char>,
    whole: Seq<char>,
    p: int,
    i: int,
    text: Seq<char>,
)
    requires
        field(concrete(doc, schema), "items"@) is None,
        has_prop(doc, concrete(doc, schema), p, i),
        field_text(target(doc, prop(doc, concrete(doc, schema), p, i).1), "description"@) == Some(text),
        trim(text).len() > 0,
        schema_docs(doc, schema, location, whole).len() < 200,
    ensures
        exists|k: int|
            0 <= k < schema_docs(doc, schema, location, whole).len() && (#[trigger] schema_docs(
                doc,
                schema,
                location,
                whole,
            )[k]).name == prop(doc, concrete(doc, schema), p, i).0 && schema_docs(
                doc,
                schema,
                location,
                whole,
            )[k].description == Some(trim(text)),
{
    let s = concrete(doc, schema);
    let found = prop(doc, s, p, i);
    let required = lists(member(doc, s, p), found.0);
    let rows = schema_docs(doc, schema, location, whole);
    lemma_properties_are_fields(doc, schema, Seq::empty(), 5, p, i);
    lemma_every_field_is_documented(doc, schema, location, whole, found.0, found.1, required);
    let k = choose|k: int|
        0 <= k < rows.len() && says(doc, #[trigger] rows[k], found.0, location, required, found.1);
    assert(rows[k].name == found.0);
}

/// A schema without fields of its own gets one row for the whole value, unless all
/// that can be said of it is that it is an object.
pub proof fn lemma_whole_values_are_documented(
    doc: Json,
    schema: Json,
    location: Seq<char>,
    whole: Seq<char>,
)
    requires
        field(concrete(doc, schema), "items"@) is None,
        field(concrete(doc, schema), "properties"@) is None,
        field(concrete(doc, schema), "allOf"@) is None,
        label_of_type(doc, concrete(doc, schema), 5) != "object"@,
        label_of_type(doc, concrete(doc, schema), 5).len() > 0,
    ensures
        ({
            let rows = schema_docs(doc, schema, location, whole);
            let s = concrete(doc, schema);
            &&& rows.len() == 1
            &&& rows[0].name == whole
            &&& rows[0].location == location
            &&& !rows[0].required
            &&& rows[0].ty == label_of_type(doc, s, 5)
            &&& match field_text(s, "description"@) {
                Some(d) => trim(d).len() > 0 ==> rows[0].description == Some(trim(d)),
                None => rows[0].description is None,
            }
            &&& match field(s, "default"@) {
                Some(d) => rows[0].default == Some(plain_text(d)),
                None => rows[0].default is None,
            }
            &&& offers(doc, s, rows[0].options)
        }),
{
    let s = concrete(doc, schema);
    let parts = parts_of(doc, s);
    assert(parts == seq![s]);
    assert(parts.drop_last() =~= Seq::<Json>::empty());
    assert(flat_parts(doc, parts.drop_last(), Seq::empty(), location, 5, Seq::empty()).len() == 0);
    assert(flat_parts(doc, parts, Seq::empty(), location, 5, Seq::empty()).len() == 0);
}

// ----- the documentation of a request -----

/// The fields of a request body are documented in its request.
pub proof fn lemma_body_fields_are_documented(
    doc: Json,
    o: Operation,
    id: u128,
    body: Json,
    content: Seq<(Seq<char>, Json)>,
    j: int,
    schema: Json,
    name: Seq<char>,
    sub: Json,
    required: bool,
)
    requires
        field(o.op, "requestBody"@) == Some(body),
        field_entries(concrete(doc, body), "content"@) == Some(content),
        chosen(content, j),
        field(content[j].1, "schema"@) == Some(schema),
        has_field(doc, schema, Seq::empty(), 5, name, sub, required),
        schema_docs(doc, schema, "body"@, "(body)"@).len() < 200,
    ensures
        has_row(doc, request_of(doc, o, id).docs, name, "body"@, required, sub),
{
    lemma_json_is_preferred(content, j);
    lemma_every_field_is_documented(doc, schema, "body"@, "(body)"@, name, sub, required);
    let rows = schema_docs(doc, schema, "body"@, "(body)"@);
    let all = request_of(doc, o, id).docs;
    let k = choose|k: int|
        0 <= k < rows.len() && says(doc, #[trigger] rows[k], name, "body"@, required, sub);
    let own = crate::openapi::import::with_params(
        doc,
        crate::openapi::laws::params::base_request(o, id),
        crate::openapi::import::params_of(doc, o),
    ).docs;
    assert(all[own.len() + k] == rows[k]);
}

/// The fields of what an operation returns are documented in its request.
pub proof fn lemma_response_fields_are_documented(
    doc: Json,
    o: Operation,
    id: u128,
    responses: Seq<(Seq<char>, Json)>,
    i: int,
    content: Seq<(Seq<char>, Json)>,
    j: int,
    schema: Json,
    name: Seq<char>,
    sub: Json,
    required: bool,
)
    requires
        field_entries(o.op, "responses"@) == Some(responses),
        is_success(responses, i),
        field_entries(concrete(doc, responses[i].1), "content"@) == Some(content),
        chosen(content, j),
        field(content[j].1, "schema"@) == Some(schema),
        has_field(doc, schema, Seq::empty(), 5, name, sub, required),
        schema_docs(doc, schema, "response"@, "(response)"@).len() < 200,
    ensures
        has_row(doc, request_of(doc, o, id).docs, name, "response"@, required, sub),
{
    lemma_success_is_described(doc, o.op, responses, i, content, j);
    lemma_every_field_is_documented(doc, schema, "response"@, "(response)"@, name, sub, required);
    let rows = schema_docs(doc, schema, "response"@, "(response)"@);
    let all = request_of(doc, o, id).docs;
    let k = choose|k: int|
        0 <= k < rows.len() && says(doc, #[trigger] rows[k], name, "response"@, required, sub);
    assert(all[all.len() - rows.len() + k] == rows[k]);
}

// ----- parameters -----

/// The row of a parameter: its name, where it goes, whether it is required, its own
/// description before that of its schema, and what its schema says.
pub proof fn lemma_parameters_are_documented(doc: Json, p: Json)
    ensures
        ({
            let row = param_doc_of(doc, p);
            let place = match field_text(p, "in"@) {
                Some(l) => l,
                None => "query"@,
            };
            let own = match field_text(p, "description"@) {
                Some(d) => trim(d),
                None => Seq::empty(),
            };
            &&& field_text(p, "name"@) matches Some(n) ==> row.name == n
            &&& row.location == place
            &&& row.required == (place == "path"@ || field_flag(p, "required"@) == Some(true))
            &&& own.len() > 0 ==> row.description == Some(own)
            &&& match field(p, "schema"@) {
                Some(schema) => {
                    let s = target(doc, schema);
                    &&& row.ty == label_of_type(doc, s, 5)
                    &&& offers(doc, s, row.options)
                    &&& match field(s, "default"@) {
                        Some(d) => row.default == Some(plain_text(d)),
                        None => row.default is None,
                    }
                    &&& own.len() == 0 ==> match field_text(s, "description"@) {
                        Some(d) => if trim(d).len() > 0 {
                            row.description == Some(trim(d))
                        } else {
                            row.description is None
                        },
                        None => row.description is None,
                    }
                },
                None => {
                    &&& row.ty == "string"@
                    &&& row.options.len() == 0
                    &&& row.default is None
                    &&& own.len() == 0 ==> row.description is None
                },
            }
        }),
{
}

// ----- types -----

/// Whether a schema has no alternatives and no members.
pub open spec fn is_plain(s: Json) -> bool {
    &&& field_items(s, "oneOf"@) is None
    &&& field_items(s, "anyOf"@) is None
    &&& field(s, "allOf"@) is None
}

/// A type is shown with its format.
pub proof fn lemma_types_show_their_format(doc: Json, schema: Json, left: nat, ty: Seq<char>)
    requires
        left > 0,
        is_plain(concrete(doc, schema)),
        field(concrete(doc, schema), "type"@) == Some(Json::Text(ty)),
        ty != "array"@,
    ensures
        match field_text(concrete(doc, schema), "format"@) {
            Some(f) => label_of_type(doc, schema, left) == ty + "("@ + f + ")"@,
            None => label_of_type(doc, schema, left) == ty,
        },
{
}

/// An array is shown with the type of its items.
pub proof fn lemma_arrays_show_their_items(doc: Json, schema: Json, left: nat)
    requires
        left > 0,
        is_plain(concrete(doc, schema)),
        field(concrete(doc, schema), "type"@) == Some(Json::Text("array"@)),
    ensures
        match field(concrete(doc, schema), "items"@) {
            Some(items) => label_of_type(doc, schema, left) == "array<"@ + label_of_type(
                doc,
                items,
                (left - 1) as nat,
            ) + ">"@,
            None => label_of_type(doc, schema, left) == "array<"@ + "any"@ + ">"@,
        },
{
}

/// A nullable type is shown as such.
pub proof fn lemma_nullable_types(doc: Json, schema: Json, left: nat, ty: Seq<char>)
    requires
        left > 0,
        is_plain(concrete(doc, schema)),
        field(concrete(doc, schema), "type"@) == Some(
            Json::Array(seq![Json::Text(ty), Json::Text("null"@)]),
        ),
        field_text(concrete(doc, schema), "format"@) is None,
        ty != "array"@,
    ensures
        label_of_type(doc, schema, left) == ty + " | "@ + "null"@,
{
    let a = seq![Json::Text(ty), Json::Text("null"@)];
    let b = a.drop_last();
    assert(b =~= seq![Json::Text(ty)]);
    assert(b.drop_last() =~= Seq::<Json>::empty());
    assert(texts(b.drop_last()) =~= Seq::<Seq<char>>::empty());
    assert(texts(b) =~= seq![ty]);
    assert(texts(a) =~= seq![ty, "null"@]);
    let others = texts(a).skip(1);
    assert(others =~= seq!["null"@]);
    assert(others.drop_last() =~= Seq::<Seq<char>>::empty());
    assert(crate::openapi::docs::with_others(ty, others.drop_last()) == ty);
}

/// A schema without a type is an object where it has properties, and anything
/// otherwise; one made of members is an object.
pub proof fn lemma_untyped_schemas(doc: Json, schema: Json, left: nat)
    requires
        left > 0,
    ensures
        ({
            let s = concrete(doc, schema);
            &&& is_plain(s) && field(s, "type"@) is None && field(s, "properties"@) is Some
                ==> label_of_type(doc, schema, left) == "object"@
            &&& is_plain(s) && field(s, "type"@) is None && field(s, "properties"@) is None
                ==> label_of_type(doc, schema, left) == "any"@
            &&& field_items(s, "oneOf"@) is None && field_items(s, "anyOf"@) is None && field(
                s,
                "allOf"@,
            ) is Some ==> label_of_type(doc, schema, left) == "object"@
        }),
{
}

/// Of more than three alternatives the first three are shown.
pub proof fn lemma_many_alternatives(doc: Json, schema: Json, left: nat, alts: Seq<Json>)
    requires
        left > 0,
        alts.len() > 3,
        field_items(concrete(doc, schema), "oneOf"@) == Some(alts),
    ensures
        label_of_type(doc, schema, left) == crate::text::join(
            crate::openapi::docs::labels(doc, alts.take(3), (left - 1) as nat),
            " | "@,
        ) + " | …"@,
{
}

/// Two alternatives are shown side by side.
pub proof fn lemma_alternatives_are_shown(doc: Json, schema: Json, left: nat, a: Json, b: Json)
    requires
        left > 0,
        ({
            let s = concrete(doc, schema);
            ||| field_items(s, "oneOf"@) == Some(seq![a, b])
            ||| field_items(s, "oneOf"@) is None && field_items(s, "anyOf"@) == Some(seq![a, b])
        }),
    ensures
        label_of_type(doc, schema, left) == label_of_type(doc, a, (left - 1) as nat) + " | "@
            + label_of_type(doc, b, (left - 1) as nat),
{
    reveal_strlit("");
    let below = (left - 1) as nat;
    let alts = seq![a, b];
    assert(alts.drop_last() =~= seq![a]);
    assert(alts.drop_last().drop_last() =~= Seq::<Json>::empty());
    let la = label_of_type(doc, a, below);
    let lb = label_of_type(doc, b, below);
    assert(crate::openapi::docs::labels(doc, alts.drop_last().drop_last(), below).len() == 0);
    assert(crate::openapi::docs::labels(doc, alts.drop_last(), below) =~= seq![la]);
    let parts = crate::openapi::docs::labels(doc, alts, below);
    assert(parts =~= seq![la, lb]);
    reveal_with_fuel(crate::text::join, 3);
    assert(parts.drop_last() =~= seq![la]);
    assert(label_of_type(doc, schema, left) =~= la + " | "@ + lb);
}

} // verus!
