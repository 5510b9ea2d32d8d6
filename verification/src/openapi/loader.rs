//! Reading an API description from text.

use vstd::prelude::*;

use crate::json::{
    json_reading, pointed, read_json, read_yaml, reading, text_in, yaml_reading, Json, Node,
};
use crate::text::{begins, cat, opt, starts_with};

verus! {

/// Why a description could not be read: it is neither JSON nor YAML.
#[derive(Debug, PartialEq, Eq)]
pub struct SpecError {
    /// What the YAML reader, tried last, had to say.
    pub cause: String,
}

impl SpecError {
    pub fn message(&self) -> (r: String)
        ensures
            r@ == "spec is neither valid JSON nor YAML: "@ + self.cause@,
    {
        cat("spec is neither valid JSON nor YAML: ", self.cause.as_str())
    }
}

/// JSON wins over YAML; where neither reads, the YAML message is kept.
pub open spec fn either_reading(
    json: Result<Json, Seq<char>>,
    yaml: Result<Json, Seq<char>>,
) -> Result<Json, Seq<char>> {
    match json {
        Ok(j) => Ok(j),
        Err(_) => yaml,
    }
}

/// What the two readings of a text make of it together.
pub fn choose_reading(json: Result<Node, String>, yaml: Result<Node, String>) -> (r: Result<
    Node,
    SpecError,
>)
    ensures
        match r {
            Ok(v) => either_reading(reading(json), reading(yaml)) == Ok::<Json, Seq<char>>(v@),
            Err(e) => either_reading(reading(json), reading(yaml)) == Err::<Json, Seq<char>>(e.cause@),
        },
{
    match json {
        Ok(v) => Ok(v),
        Err(_) => match yaml {
            Ok(v) => Ok(v),
            Err(cause) => Err(SpecError { cause }),
        },
    }
}

/// Parse spec text as JSON, falling back to YAML.
pub fn parse_spec(text: &str) -> (r: Result<Node, SpecError>)
    ensures
        match r {
            Ok(v) => either_reading(json_reading(text@), yaml_reading(text@)) == Ok::<Json, Seq<char>>(
                v@,
            ),
            Err(e) => either_reading(json_reading(text@), yaml_reading(text@)) == Err::<
                Json,
                Seq<char>,
            >(e.cause@),
        },
{
    match read_json(text) {
        Ok(v) => Ok(v),
        Err(e) => choose_reading(Err(e), read_yaml(text)),
    }
}

/// Whether a source is fetched rather than read from disk.
pub open spec fn remote(source: Seq<char>) -> bool {
    starts_with(source, "http://"@) || starts_with(source, "https://"@)
}

pub fn is_remote(source: &str) -> (r: bool)
    ensures
        r == remote(source@),
{
    begins(source, "http://") || begins(source, "https://")
}

/// The name a collection gets from its description: the one asked for, the
/// title, or `imported`.
pub open spec fn import_name(asked: Option<Seq<char>>, doc: Json) -> Seq<char> {
    match asked {
        Some(n) => n,
        None => match text_in(pointed(doc, "/info/title"@)) {
            Some(t) => t,
            None => "imported"@,
        },
    }
}

pub fn collection_name(asked: Option<String>, doc: &Node) -> (r: String)
    ensures
        r@ == import_name(opt(asked), doc@),
{
    match asked {
        Some(n) => n,
        None => match doc.pointer("/info/title") {
            Some(v) => match v.as_str() {
                Some(t) => t.to_owned(),
                None => "imported".to_owned(),
            },
            None => "imported".to_owned(),
        },
    }
}

} // verus!
