//! References into a document.

use vstd::prelude::*;

use crate::http::laws::paths::lemma_replace_first;
use crate::json::{field, field_text, pointed, step, unescaped, walk, Json};
use crate::openapi::loader::{either_reading, import_name, remote};
use crate::openapi::resolve::{concrete, followed, resolved};
use crate::text::{find, lacks, lemma_find_from, lemma_found_after, lemma_not_found, replace_all, split, starts_with};

verus! {

/// A text without the separator is one piece; otherwise what stands before the first
/// separator is the first piece.
pub proof fn lemma_split_pieces(head: Seq<char>, rest: Seq<char>, c: char)
    requires
        lacks(head, c),
    ensures
        split(head, c) == seq![head],
        split(head + seq![c] + rest, c) == seq![head] + split(rest, c),
{
    lemma_not_found(head, c);
    lemma_found_after(head, seq![c], rest);
    let all = head + seq![c] + rest;
    assert(all.take(head.len() as int) =~= head);
    assert(all.skip(head.len() as int + 1) =~= rest);
}

proof fn lemma_none_replaced(s: Seq<char>, pat: Seq<char>, with: Seq<char>)
    requires
        pat.len() > 0,
        lacks(s, pat[0]),
    ensures
        replace_all(s, pat, with) == s,
{
    lemma_find_from(s, pat, 0);
    if find(s, pat) is Some {
        let i = find(s, pat)->0;
        assert(s.subrange(i, i + pat.len())[0] == s[i]);
    }
}

/// `~1` in a token stands for a slash and `~0` for a tilde; everything else stands
/// for itself.
pub proof fn lemma_escapes(a: Seq<char>, b: Seq<char>)
    requires
        lacks(a, '~'),
        lacks(b, '~'),
    ensures
        unescaped(a) == a,
        unescaped(a + seq!['~', '1'] + b) == a + seq!['/'] + b,
        unescaped(a + seq!['~', '0'] + b) == a + seq!['~'] + b,
{
    reveal_strlit("~1");
    reveal_strlit("~0");
    reveal_strlit("/");
    reveal_strlit("~");
    assert("~1"@ =~= seq!['~', '1']);
    assert("~0"@ =~= seq!['~', '0']);
    assert("/"@ =~= seq!['/']);
    assert("~"@ =~= seq!['~']);
    lemma_none_replaced(a, "~1"@, "/"@);
    lemma_none_replaced(a, "~0"@, "~"@);
    lemma_none_replaced(b, "~1"@, "/"@);
    lemma_none_replaced(b, "~0"@, "~"@);
    lemma_replace_first(a, b, "~1"@, "/"@);
    let slashed = a + seq!['/'] + b;
    lemma_none_replaced(slashed, "~0"@, "~"@);
    let zero = a + "~0"@ + b;
    lemma_find_from(zero, "~1"@, 0);
    if find(zero, "~1"@) is Some {
        let i = find(zero, "~1"@)->0;
        let at = zero.subrange(i, i + 2);
        assert(at[0] == zero[i] && at[1] == zero[i + 1]);
        assert(i == a.len());
        assert(false);
    }
    lemma_replace_first(a, b, "~0"@, "~"@);
}

/// A pointer of one plain token names the entry of that name.
pub proof fn lemma_pointer_of_one(j: Json, key: Seq<char>)
    requires
        j is Object,
        lacks(key, '/'),
        lacks(key, '~'),
    ensures
        pointed(j, seq!['/'] + key) == field(j, key),
        pointed(j, Seq::empty()) == Some(j),
{
    lemma_split_pieces(key, Seq::empty(), '/');
    lemma_escapes(key, Seq::empty());
    assert((seq!['/'] + key).skip(1) =~= key);
    let tokens = seq![key];
    assert(tokens.skip(1) =~= Seq::<Seq<char>>::empty());
    match step(j, key) {
        Some(next) => {
            assert(walk(next, tokens.skip(1)) == Some(next));
        },
        None => {},
    }
}

/// A longer pointer goes on from what its first token names.
pub proof fn lemma_pointer_goes_on(j: Json, key: Seq<char>, rest: Seq<char>)
    requires
        j is Object,
        lacks(key, '/'),
        lacks(key, '~'),
    ensures
        pointed(j, seq!['/'] + key + seq!['/'] + rest) == (match field(j, key) {
            Some(next) => pointed(next, seq!['/'] + rest),
            None => None,
        }),
{
    lemma_split_pieces(key, rest, '/');
    lemma_escapes(key, Seq::empty());
    assert((seq!['/'] + key + seq!['/'] + rest).skip(1) =~= key + seq!['/'] + rest);
    assert((seq!['/'] + rest).skip(1) =~= rest);
    let tokens = seq![key] + split(rest, '/');
    assert(tokens.skip(1) =~= split(rest, '/'));
}

/// A reference like `#/components/schemas/Pet` stands for what the document holds
/// there.
pub proof fn lemma_references_are_followed(
    doc: Json,
    node: Json,
    a: Seq<char>,
    b: Seq<char>,
    c: Seq<char>,
    target: Json,
)
    requires
        field_text(node, "$ref"@) == Some(
            seq!['#', '/'] + a + seq!['/'] + b + seq!['/'] + c,
        ),
        lacks(a, '/') && lacks(a, '~') && lacks(b, '/') && lacks(b, '~') && lacks(c, '/') && lacks(
            c,
            '~',
        ),
        doc is Object,
        field(doc, a) is Some,
        field(doc, a)->0 is Object,
        field(field(doc, a)->0, b) is Some,
        field(field(doc, a)->0, b)->0 is Object,
        field(field(field(doc, a)->0, b)->0, c) == Some(target),
        field_text(target, "$ref"@) is None,
    ensures
        concrete(doc, node) == target,
{
    let reference = seq!['#', '/'] + a + seq!['/'] + b + seq!['/'] + c;
    let tail = b + seq!['/'] + c;
    assert(reference.skip(1) =~= seq!['/'] + a + seq!['/'] + tail);
    lemma_pointer_goes_on(doc, a, tail);
    let inner = field(doc, a)->0;
    assert(seq!['/'] + tail =~= seq!['/'] + b + seq!['/'] + c);
    lemma_pointer_goes_on(inner, b, c);
    lemma_pointer_of_one(field(inner, b)->0, c);
    assert(resolved(doc, reference) == Some(target));
    assert(followed(doc, target, 15) == target);
    assert(followed(doc, node, 16) == target);
}

// ----- what an import reads -----

/// A collection is called what was asked for, else after the title, else
/// `imported`.
pub proof fn lemma_import_names(asked: Option<Seq<char>>, doc: Json, info: Json)
    requires
        doc is Object,
        field(doc, "info"@) == Some(info),
        info is Object,
    ensures
        asked matches Some(n) ==> import_name(asked, doc) == n,
        asked is None ==> match field_text(info, "title"@) {
            Some(t) => import_name(asked, doc) == t,
            None => import_name(asked, doc) == "imported"@,
        },
{
    reveal_strlit("/info/title");
    reveal_strlit("info");
    reveal_strlit("title");
    assert("/info/title"@ =~= seq!['/'] + "info"@ + seq!['/'] + "title"@);
    lemma_pointer_goes_on(doc, "info"@, "title"@);
    lemma_pointer_of_one(info, "title"@);
}

/// What reads as JSON is taken as JSON; only what does not is taken as YAML.
pub proof fn lemma_json_before_yaml(json: Result<Json, Seq<char>>, yaml: Result<Json, Seq<char>>)
    ensures
        json is Ok ==> either_reading(json, yaml) == json,
        json is Err ==> either_reading(json, yaml) == yaml,
{
}

/// A source that names http or https is fetched; a path is not.
pub proof fn lemma_sources(rest: Seq<char>)
    ensures
        remote("http://"@ + rest),
        remote("https://"@ + rest),
        rest.len() > 0 && rest[0] != 'h' ==> !remote(rest),
{
    reveal_strlit("http://");
    reveal_strlit("https://");
    assert(("http://"@ + rest).subrange(0, 7) =~= "http://"@);
    assert(("https://"@ + rest).subrange(0, 8) =~= "https://"@);
    if rest.len() > 0 && remote(rest) {
        if starts_with(rest, "http://"@) {
            assert(rest.subrange(0, 7)[0] == rest[0]);
        } else {
            assert(rest.subrange(0, 8)[0] == rest[0]);
        }
    }
}

} // verus!
