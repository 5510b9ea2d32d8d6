//! Example payload generation from JSON schemas (OpenAPI 3.0/3.1 subset).

use vstd::prelude::*;

use crate::json::{
    entries_in, field, field_entries, field_items, field_text, group_json, number_one, put, put_entry,
    text_in, Json, Node,
};
use crate::openapi::resolve::{concrete, deref};
use crate::text::{group_views, opt, same, views};

verus! {

broadcast use {group_views, group_json};

/// Depth cap for generated structures (also breaks schema cycles).
pub const MAX_GEN_DEPTH: usize = 6;

/// The first item of the array in entry `key`.
pub open spec fn first_item(j: Json, key: Seq<char>) -> Option<Json> {
    match field_items(j, key) {
        Some(a) => if a.len() > 0 {
            Some(a[0])
        } else {
            None
        },
        None => None,
    }
}

/// A value that the schema's author wrote down: an example, a default, or the
/// first of the examples or accepted values.
pub open spec fn authored(s: Json) -> Option<Json> {
    match field(s, "example"@) {
        Some(x) => Some(x),
        None => match field(s, "default"@) {
            Some(x) => Some(x),
            None => match first_item(s, "examples"@) {
                Some(x) => Some(x),
                None => first_item(s, "enum"@),
            },
        },
    }
}

/// The schema's type: `type` itself, the first of a list of types, or `object`
/// where there are properties.
pub open spec fn type_of(s: Json) -> Option<Seq<char>> {
    match field_text(s, "type"@) {
        Some(t) => Some(t),
        None => match text_in(first_item(s, "type"@)) {
            Some(t) => Some(t),
            None => if field(s, "properties"@) is Some {
                Some("object"@)
            } else {
                None
            },
        },
    }
}

/// A text that fits the schema's format.
pub open spec fn stub(s: Json) -> Json {
    let format = field_text(s, "format"@);
    if format == Some("uuid"@) {
        Json::Text("{{uuid}}"@)
    } else if format == Some("date-time"@) {
        Json::Text("2024-01-01T00:00:00Z"@)
    } else if format == Some("date"@) {
        Json::Text("2024-01-01"@)
    } else if format == Some("email"@) {
        Json::Text("user@example.com"@)
    } else {
        Json::Text("string"@)
    }
}

/// `o` with every one of `more` put into it.
pub open spec fn put_all(
    o: Seq<(Seq<char>, Json)>,
    more: Seq<(Seq<char>, Json)>,
) -> Seq<(Seq<char>, Json)>
    decreases more.len(),
{
    if more.len() == 0 {
        o
    } else {
        put(put_all(o, more.drop_last()), more.last().0, more.last().1)
    }
}

/// An example of `schema`, at most `left` levels deep.
pub open spec fn example_of(doc: Json, schema: Json, left: nat) -> Json
    decreases left, 0nat,
{
    if left == 0 {
        Json::Null
    } else {
        let s = concrete(doc, schema);
        let below = (left - 1) as nat;
        match authored(s) {
            Some(x) => x,
            None => match field_items(s, "allOf"@) {
                Some(all) => Json::Object(merged_examples(doc, all, below)),
                None => match first_item(s, "oneOf"@) {
                    Some(x) => example_of(doc, x, below),
                    None => match first_item(s, "anyOf"@) {
                        Some(x) => example_of(doc, x, below),
                        None => {
                            let ty = type_of(s);
                            if ty == Some("object"@) {
                                match field_entries(s, "properties"@) {
                                    Some(props) => Json::Object(property_examples(doc, props, below)),
                                    None => Json::Object(Seq::empty()),
                                }
                            } else if ty == Some("array"@) {
                                match field(s, "items"@) {
                                    Some(i) => Json::Array(seq![example_of(doc, i, below)]),
                                    None => Json::Array(seq![Json::Null]),
                                }
                            } else if ty == Some("integer"@) {
                                Json::Number("1"@)
                            } else if ty == Some("number"@) {
                                Json::Number("1.0"@)
                            } else if ty == Some("boolean"@) {
                                Json::Bool(true)
                            } else {
                                stub(s)
                            }
                        },
                    },
                },
            },
        }
    }
}

/// The entries of the examples of `all`, later ones winning.
pub open spec fn merged_examples(doc: Json, all: Seq<Json>, left: nat) -> Seq<(Seq<char>, Json)>
    decreases left, 1 + all.len(),
{
    if all.len() == 0 {
        Seq::empty()
    } else {
        let before = merged_examples(doc, all.drop_last(), left);
        match entries_in(Some(example_of(doc, all.last(), left))) {
            Some(more) => put_all(before, more),
            None => before,
        }
    }
}

/// An example for each property.
pub open spec fn property_examples(
    doc: Json,
    props: Seq<(Seq<char>, Json)>,
    left: nat,
) -> Seq<(Seq<char>, Json)>
    decreases left, 1 + props.len(),
{
    if props.len() == 0 {
        Seq::empty()
    } else {
        put(
            property_examples(doc, props.drop_last(), left),
            props.last().0,
            example_of(doc, props.last().1, left),
        )
    }
}

/// The example that the generator produces.
pub open spec fn example(doc: Json, schema: Json) -> Json {
    example_of(doc, schema, (MAX_GEN_DEPTH + 1) as nat)
}

fn first_of<'a>(s: &'a Node, key: &str) -> (r: Option<&'a Node>)
    ensures
        opt(r) == first_item(s@, key@),
{
    match s.items(key) {
        Some(a) => if a.len() > 0 {
            assert(views(a@)[0] == a@[0]@);
            Some(&a[0])
        } else {
            None
        },
        None => None,
    }
}

fn authored_value<'a>(s: &'a Node) -> (r: Option<&'a Node>)
    ensures
        opt(r) == authored(s@),
{
    match s.get("example") {
        Some(x) => Some(x),
        None => match s.get("default") {
            Some(x) => Some(x),
            None => match first_of(s, "examples") {
                Some(x) => Some(x),
                None => first_of(s, "enum"),
            },
        },
    }
}

fn schema_type<'a>(s: &'a Node) -> (r: Option<&'a str>)
    ensures
        opt(r) == type_of(s@),
{
    match s.text("type") {
        Some(t) => Some(t),
        None => {
            let listed: Option<&'a str> = match first_of(s, "type") {
                Some(x) => x.as_str(),
                None => None,
            };
            match listed {
                Some(t) => Some(t),
                None => if s.get("properties").is_some() {
                    Some("object")
                } else {
                    None
                },
            }
        },
    }
}

fn is_text(o: Option<&str>, s: &str) -> (r: bool)
    ensures
        r == (opt(o) == Some(s@)),
{
    match o {
        Some(t) => same(t, s),
        None => false,
    }
}

fn text_node(s: &str) -> (r: Node)
    ensures
        r@ == Json::Text(s@),
{
    Node::Text(s.to_owned())
}

fn string_stub(s: &Node) -> (r: Node)
    ensures
        r@ == stub(s@),
{
    let format = s.text("format");
    if is_text(format, "uuid") {
        text_node("{{uuid}}")
    } else if is_text(format, "date-time") {
        text_node("2024-01-01T00:00:00Z")
    } else if is_text(format, "date") {
        text_node("2024-01-01")
    } else if is_text(format, "email") {
        text_node("user@example.com")
    } else {
        text_node("string")
    }
}

fn put_entries(o: &mut Vec<(String, Node)>, more: &Vec<(String, Node)>)
    ensures
        views(final(o)@) == put_all(views(old(o)@), views(more@)),
{
    let ghost start = views(o@);
    let ghost all = views(more@);
    let mut i: usize = 0;
    while i < more.len()
        invariant
            i <= more@.len(),
            all == views(more@),
            views(o@) == put_all(start, all.take(i as int)),
        decreases more@.len() - i,
    {
        assert(all.take(i + 1).drop_last() =~= all.take(i as int));
        assert(all.take(i + 1).last() == (more@[i as int].0@, more@[i as int].1@));
        put_entry(o, more[i].0.as_str(), more[i].1.clone());
        i += 1;
    }
    assert(all.take(more@.len() as int) =~= all);
}

fn merge_all(doc: &Node, all: &Vec<Node>, left: usize) -> (r: Vec<(String, Node)>)
    ensures
        views(r@) == merged_examples(doc@, views(all@), left as nat),
    decreases left, 1nat,
{
    let ghost subs = views(all@);
    let mut out: Vec<(String, Node)> = Vec::new();
    let mut i: usize = 0;
    while i < all.len()
        invariant
            i <= all@.len(),
            subs == views(all@),
            views(out@) == merged_examples(doc@, subs.take(i as int), left as nat),
        decreases all@.len() - i,
    {
        assert(subs.take(i + 1).drop_last() =~= subs.take(i as int));
        assert(subs.take(i + 1).last() == all@[i as int]@);
        let one = gen_value(doc, &all[i], left);
        match &one {
            Node::Object(more) => {
                put_entries(&mut out, more);
            },
            _ => {},
        }
        i += 1;
    }
    assert(subs.take(all@.len() as int) =~= subs);
    out
}

fn gen_properties(doc: &Node, props: &Vec<(String, Node)>, left: usize) -> (r: Vec<(String, Node)>)
    ensures
        views(r@) == property_examples(doc@, views(props@), left as nat),
    decreases left, 1nat,
{
    let ghost all = views(props@);
    let mut out: Vec<(String, Node)> = Vec::new();
    let mut i: usize = 0;
    while i < props.len()
        invariant
            i <= props@.len(),
            all == views(props@),
            views(out@) == property_examples(doc@, all.take(i as int), left as nat),
        decreases props@.len() - i,
    {
        assert(all.take(i + 1).drop_last() =~= all.take(i as int));
        assert(all.take(i + 1).last() == (props@[i as int].0@, props@[i as int].1@));
        let one = gen_value(doc, &props[i].1, left);
        put_entry(&mut out, props[i].0.as_str(), one);
        i += 1;
    }
    assert(all.take(props@.len() as int) =~= all);
    out
}

fn array_of(item: Node) -> (r: Node)
    ensures
        r@ == Json::Array(seq![item@]),
{
    let mut v: Vec<Node> = Vec::new();
    v.push(item);
    assert(views(v@) =~= seq![item@]);
    Node::Array(v)
}

fn gen_value(doc: &Node, schema: &Node, left: usize) -> (r: Node)
    ensures
        r@ == example_of(doc@, schema@, left as nat),
    decreases left, 0nat,
{
    if left == 0 {
        return Node::Null;
    }
    let s = deref(doc, schema);
    match authored_value(s) {
        Some(x) => {
            return x.clone();
        },
        None => {},
    }
    match s.items("allOf") {
        Some(all) => {
            return Node::Object(merge_all(doc, all, left - 1));
        },
        None => {},
    }
    match first_of(s, "oneOf") {
        Some(x) => {
            return gen_value(doc, x, left - 1);
        },
        None => {},
    }
    match first_of(s, "anyOf") {
        Some(x) => {
            return gen_value(doc, x, left - 1);
        },
        None => {},
    }
    let ty = schema_type(s);
    if is_text(ty, "object") {
        match s.entries("properties") {
            Some(props) => Node::Object(gen_properties(doc, props, left - 1)),
            None => Node::Object(Vec::new()),
        }
    } else if is_text(ty, "array") {
        match s.get("items") {
            Some(i) => array_of(gen_value(doc, i, left - 1)),
            None => array_of(Node::Null),
        }
    } else if is_text(ty, "integer") {
        number_one("1")
    } else if is_text(ty, "number") {
        number_one("1.0")
    } else if is_text(ty, "boolean") {
        Node::Bool(true)
    } else {
        string_stub(s)
    }
}

/// Produce an example value for a schema, preferring explicitly authored
/// examples and defaults, then accepted values, then combinators, then stubs
/// by type.
pub fn example_for_schema(doc: &Node, schema: &Node) -> (r: Node)
    ensures
        r@ == example(doc@, schema@),
{
    gen_value(doc, schema, MAX_GEN_DEPTH + 1)
}

/// Whatever the author of a schema wrote down as a value is the example.
pub proof fn lemma_authored_wins(doc: Json, schema: Json, value: Json)
    requires
        authored(concrete(doc, schema)) == Some(value),
    ensures
        example(doc, schema) == value,
{
}

} // verus!
