//! What the generated examples hold.

use vstd::prelude::*;

use crate::json::{entry, field, field_entries, field_items, field_text, lemma_put, Json};
use crate::openapi::examples::{
    authored, example, example_of, merged_examples, property_examples, put_all, };
use crate::openapi::resolve::concrete;

verus! {

/// Whether nothing but its type says what a value of `s` looks like.
pub open spec fn only_typed(s: Json) -> bool {
    &&& field(s, "example"@) is None
    &&& field(s, "default"@) is None
    &&& field(s, "examples"@) is None
    &&& field(s, "enum"@) is None
    &&& field(s, "allOf"@) is None
    &&& field(s, "oneOf"@) is None
    &&& field(s, "anyOf"@) is None
}

/// What the author of a schema wrote down comes first: the example, then the
/// default, then the first of the examples, then the first accepted value.
pub proof fn lemma_authored_values(doc: Json, schema: Json, left: nat)
    requires
        left > 0,
    ensures
        ({
            let s = concrete(doc, schema);
            let r = example_of(doc, schema, left);
            &&& field(s, "example"@) matches Some(x) ==> r == x
            &&& field(s, "example"@) is None ==> (field(s, "default"@) matches Some(x) ==> r == x)
            &&& field(s, "example"@) is None && field(s, "default"@) is None ==> match field_items(
                s,
                "examples"@,
            ) {
                Some(a) => a.len() > 0 ==> r == a[0],
                None => match field_items(s, "enum"@) {
                    Some(a) => a.len() > 0 ==> r == a[0],
                    None => true,
                },
            }
        }),
{
}

/// Examples go seven levels deep; below that there is nothing.
pub proof fn lemma_depth(doc: Json, schema: Json)
    ensures
        example(doc, schema) == example_of(doc, schema, 7),
        example_of(doc, schema, 0) == Json::Null,
{
}

/// A scalar is a stub of its type.
pub proof fn lemma_scalars(doc: Json, schema: Json, left: nat, ty: Seq<char>)
    requires
        left > 0,
        only_typed(concrete(doc, schema)),
        field(concrete(doc, schema), "type"@) == Some(Json::Text(ty)),
    ensures
        ({
            let r = example_of(doc, schema, left);
            let format = field_text(concrete(doc, schema), "format"@);
            &&& ty == "integer"@ ==> r == Json::Number("1"@)
            &&& ty == "number"@ ==> r == Json::Number("1.0"@)
            &&& ty == "boolean"@ ==> r == Json::Bool(true)
            &&& ty == "string"@ && format is None ==> r == Json::Text("string"@)
            &&& ty == "string"@ && format == Some("uuid"@) ==> r == Json::Text("{{uuid}}"@)
            &&& ty == "string"@ && format == Some("date-time"@) ==> r == Json::Text(
                "2024-01-01T00:00:00Z"@,
            )
            &&& ty == "string"@ && format == Some("date"@) ==> r == Json::Text("2024-01-01"@)
            &&& ty == "string"@ && format == Some("email"@) ==> r == Json::Text("user@example.com"@)
        }),
{
    reveal_strlit("integer");
    reveal_strlit("number");
    reveal_strlit("boolean");
    reveal_strlit("string");
    reveal_strlit("object");
    reveal_strlit("array");
    reveal_strlit("uuid");
    reveal_strlit("date-time");
    reveal_strlit("date");
    reveal_strlit("email");
    assert("integer"@[0] == 'i' && "number"@[0] == 'n' && "boolean"@[0] == 'b' && "string"@[0] == 's'
        && "object"@[0] == 'o' && "array"@[0] == 'a');
    assert("uuid"@[0] == 'u' && "email"@[0] == 'e' && "date"@[0] == 'd');
    assert("date-time"@.len() == 9 && "date"@.len() == 4);
}

/// An array holds one example of its items.
pub proof fn lemma_arrays(doc: Json, schema: Json, left: nat, items: Json)
    requires
        left > 0,
        only_typed(concrete(doc, schema)),
        field(concrete(doc, schema), "type"@) == Some(Json::Text("array"@)),
        field(concrete(doc, schema), "items"@) == Some(items),
    ensures
        example_of(doc, schema, left) == Json::Array(
            seq![example_of(doc, items, (left - 1) as nat)],
        ),
{
    reveal_strlit("array");
    reveal_strlit("object");
    assert("array"@.len() == 5 && "object"@.len() == 6);
}

/// Whether property `i` is the last of its name.
pub open spec fn last_of_name(props: Seq<(Seq<char>, Json)>, i: int) -> bool {
    0 <= i < props.len() && forall|k: int| i < k < props.len() ==> (#[trigger] props[k]).0 != props[i].0
}

proof fn lemma_property_examples(doc: Json, props: Seq<(Seq<char>, Json)>, left: nat, i: int)
    requires
        last_of_name(props, i),
    ensures
        entry(property_examples(doc, props, left), props[i].0) == Some(
            example_of(doc, props[i].1, left),
        ),
    decreases props.len(),
{
    let init = props.drop_last();
    lemma_put(
        property_examples(doc, init, left),
        props.last().0,
        example_of(doc, props.last().1, left),
        props[i].0,
    );
    if i < props.len() - 1 {
        assert(props.last().0 != props[i].0);
        assert forall|k: int| i < k < init.len() implies (#[trigger] init[k]).0 != init[i].0 by {
            assert(init[k] == props[k]);
        }
        lemma_property_examples(doc, init, left, i);
    }
}

proof fn lemma_property_names(doc: Json, props: Seq<(Seq<char>, Json)>, left: nat, name: Seq<char>)
    requires
        forall|k: int| 0 <= k < props.len() ==> (#[trigger] props[k]).0 != name,
    ensures
        entry(property_examples(doc, props, left), name) is None,
    decreases props.len(),
{
    if props.len() > 0 {
        let init = props.drop_last();
        lemma_put(
            property_examples(doc, init, left),
            props.last().0,
            example_of(doc, props.last().1, left),
            name,
        );
        assert forall|k: int| 0 <= k < init.len() implies (#[trigger] init[k]).0 != name by {
            assert(init[k] == props[k]);
        }
        lemma_property_names(doc, init, left, name);
    }
}

/// An object holds an example of each of its properties.
pub proof fn lemma_objects_hold_their_properties(
    doc: Json,
    schema: Json,
    left: nat,
    props: Seq<(Seq<char>, Json)>,
    i: int,
)
    requires
        left > 0,
        only_typed(concrete(doc, schema)),
        field(concrete(doc, schema), "type"@) is None || field(concrete(doc, schema), "type"@) == Some(
            Json::Text("object"@),
        ),
        field_entries(concrete(doc, schema), "properties"@) == Some(props),
        last_of_name(props, i),
    ensures
        field(example_of(doc, schema, left), props[i].0) == Some(
            example_of(doc, props[i].1, (left - 1) as nat),
        ),
{
    lemma_property_examples(doc, props, (left - 1) as nat, i);
}

/// An object holds nothing but its properties.
pub proof fn lemma_objects_hold_nothing_else(
    doc: Json,
    schema: Json,
    left: nat,
    props: Seq<(Seq<char>, Json)>,
    name: Seq<char>,
)
    requires
        left > 0,
        only_typed(concrete(doc, schema)),
        field(concrete(doc, schema), "type"@) is None || field(concrete(doc, schema), "type"@) == Some(
            Json::Text("object"@),
        ),
        field_entries(concrete(doc, schema), "properties"@) == Some(props),
        forall|k: int| 0 <= k < props.len() ==> (#[trigger] props[k]).0 != name,
    ensures
        field(example_of(doc, schema, left), name) is None,
{
    lemma_property_names(doc, props, (left - 1) as nat, name);
}

/// A choice is shown by its first alternative.
pub proof fn lemma_first_alternative(doc: Json, schema: Json, left: nat, alts: Seq<Json>)
    requires
        left > 0,
        alts.len() > 0,
        ({
            let s = concrete(doc, schema);
            &&& authored(s) is None
            &&& field_items(s, "allOf"@) is None
            &&& {
                ||| field_items(s, "oneOf"@) == Some(alts)
                ||| field_items(s, "oneOf"@) is None && field_items(s, "anyOf"@) == Some(alts)
            }
        }),
    ensures
        example_of(doc, schema, left) == example_of(doc, alts[0], (left - 1) as nat),
{
}

/// What was put in is found, and what was there stays unless it was replaced.
proof fn lemma_put_all(
    o: Seq<(Seq<char>, Json)>,
    more: Seq<(Seq<char>, Json)>,
    name: Seq<char>,
)
    ensures
        entry(more, name) is Some ==> entry(put_all(o, more), name) is Some,
        entry(more, name) is None ==> entry(put_all(o, more), name) == entry(o, name),
    decreases more.len(),
{
    if more.len() > 0 {
        let init = more.drop_last();
        lemma_put_all(o, init, name);
        lemma_put(put_all(o, init), more.last().0, more.last().1, name);
        lemma_entry_of_init(more, name);
    }
}

proof fn lemma_entry_of_init(o: Seq<(Seq<char>, Json)>, name: Seq<char>)
    requires
        o.len() > 0,
    ensures
        entry(o, name) == (if entry(o.drop_last(), name) is Some {
            entry(o.drop_last(), name)
        } else if o.last().0 == name {
            Some(o.last().1)
        } else {
            None
        }),
    decreases o.len(),
{
    if o.len() > 1 {
        assert(o.skip(1).drop_last() =~= o.drop_last().skip(1));
        assert(o.skip(1).last() == o.last());
        assert(o.drop_last()[0] == o[0]);
        lemma_entry_of_init(o.skip(1), name);
    } else {
        assert(o.skip(1) =~= Seq::<(Seq<char>, Json)>::empty());
        assert(o.drop_last() =~= Seq::<(Seq<char>, Json)>::empty());
        assert(entry(o.skip(1), name) is None);
        assert(o.last() == o[0]);
    }
}

proof fn lemma_merged(doc: Json, all: Seq<Json>, left: nat, i: int, name: Seq<char>)
    requires
        0 <= i < all.len(),
        field(example_of(doc, all[i], left), name) is Some,
    ensures
        entry(merged_examples(doc, all, left), name) is Some,
    decreases all.len(),
{
    let init = all.drop_last();
    let before = merged_examples(doc, init, left);
    if i < all.len() - 1 {
        assert(init[i] == all[i]);
        lemma_merged(doc, init, left, i, name);
    }
    match example_of(doc, all.last(), left) {
        Json::Object(more) => lemma_put_all(before, more, name),
        _ => {},
    }
}

/// A schema made of members holds every field of every member's example.
pub proof fn lemma_members_are_merged(
    doc: Json,
    schema: Json,
    left: nat,
    all: Seq<Json>,
    i: int,
    name: Seq<char>,
)
    requires
        left > 0,
        authored(concrete(doc, schema)) is None,
        field_items(concrete(doc, schema), "allOf"@) == Some(all),
        0 <= i < all.len(),
        field(example_of(doc, all[i], (left - 1) as nat), name) is Some,
    ensures
        field(example_of(doc, schema, left), name) is Some,
{
    lemma_merged(doc, all, (left - 1) as nat, i, name);
}

/// Of a list of types the first one counts.
pub proof fn lemma_listed_types(doc: Json, schema: Json, left: nat, types: Seq<Json>)
    requires
        left > 0,
        only_typed(concrete(doc, schema)),
        field(concrete(doc, schema), "type"@) == Some(Json::Array(types)),
        types.len() > 0,
    ensures
        types[0] == Json::Text("integer"@) ==> example_of(doc, schema, left) == Json::Number("1"@),
        types[0] == Json::Text("boolean"@) ==> example_of(doc, schema, left) == Json::Bool(true),
{
    reveal_strlit("integer");
    reveal_strlit("number");
    reveal_strlit("boolean");
    reveal_strlit("object");
    reveal_strlit("array");
    assert("integer"@[0] == 'i' && "number"@[0] == 'n' && "boolean"@[0] == 'b' && "object"@[0] == 'o'
        && "array"@[0] == 'a');
}

} // verus!
