//! Following `$ref` references inside a document.

use vstd::prelude::*;

use crate::json::{field_text, pointed, Json, Node};
use crate::text::{chars, opt, rest};

verus! {

/// Safety cap on `$ref` chains to survive reference cycles.
pub const MAX_DEREF_DEPTH: usize = 16;

/// What a local reference like `#/components/schemas/Pet` names.
pub open spec fn resolved(doc: Json, reference: Seq<char>) -> Option<Json> {
    if reference.len() > 0 && reference[0] == '#' {
        pointed(doc, reference.skip(1))
    } else {
        None
    }
}

/// The node at the end of a chain of at most `left` references.
pub open spec fn followed(doc: Json, node: Json, left: nat) -> Json
    decreases left,
{
    if left == 0 {
        node
    } else {
        match field_text(node, "$ref"@) {
            Some(r) => match resolved(doc, r) {
                Some(target) => followed(doc, target, (left - 1) as nat),
                None => node,
            },
            None => node,
        }
    }
}

/// The concrete node that `node` stands for.
pub open spec fn concrete(doc: Json, node: Json) -> Json {
    followed(doc, node, MAX_DEREF_DEPTH as nat)
}

/// Resolve a local reference like `#/components/schemas/Pet` against the
/// document. Remote references are not supported and resolve to `None`.
pub fn resolve_pointer<'a>(doc: &'a Node, reference: &str) -> (r: Option<&'a Node>)
    ensures
        opt(r) == resolved(doc@, reference@),
{
    let c = chars(reference);
    if c.len() > 0 && c[0] == '#' {
        doc.pointer(rest(reference, 1))
    } else {
        None
    }
}

/// Follow `$ref` chains (with a depth cap) and return the concrete node.
/// Nodes without a `$ref` are returned unchanged.
pub fn deref<'a>(doc: &'a Node, node: &'a Node) -> (r: &'a Node)
    ensures
        r@ == concrete(doc@, node@),
{
    let mut at: &'a Node = node;
    let mut left: usize = MAX_DEREF_DEPTH;
    while left > 0
        invariant
            left <= MAX_DEREF_DEPTH,
            concrete(doc@, node@) == followed(doc@, at@, left as nat),
        decreases left,
    {
        match at.text("$ref") {
            Some(reference) => match resolve_pointer(doc, reference) {
                Some(target) => {
                    at = target;
                },
                None => {
                    return at;
                },
            },
            None => {
                return at;
            },
        }
        left -= 1;
    }
    at
}

/// A node that is no reference stands for itself.
pub proof fn lemma_concrete_nodes_pass_through(doc: Json, node: Json)
    requires
        field_text(node, "$ref"@) is None,
    ensures
        concrete(doc, node) == node,
{
}

/// Unless the cap cut a chain short, what a node stands for is no reference
/// that could be followed further.
pub proof fn lemma_concrete_is_final(doc: Json, node: Json, left: nat)
    ensures
        ({
            let end = followed(doc, node, left);
            match field_text(end, "$ref"@) {
                Some(r) => resolved(doc, r) is None || chain(doc, node, left),
                None => true,
            }
        }),
    decreases left,
{
    if left > 0 {
        match field_text(node, "$ref"@) {
            Some(r) => match resolved(doc, r) {
                Some(target) => lemma_concrete_is_final(doc, target, (left - 1) as nat),
                None => {},
            },
            None => {},
        }
    }
}

/// Whether `left` references in a row can be followed from `node`.
pub open spec fn chain(doc: Json, node: Json, left: nat) -> bool
    decreases left,
{
    if left == 0 {
        true
    } else {
        match field_text(node, "$ref"@) {
            Some(r) => match resolved(doc, r) {
                Some(target) => chain(doc, target, (left - 1) as nat),
                None => false,
            },
            None => false,
        }
    }
}

} // verus!
