//! JSON documents: the tree the importer walks, how it is looked into, and the
//! text it is read from and printed as.

use vstd::prelude::*;

use crate::text::{
    chars, decimal, digit_char, group_views, nat_value, opt, parse_u64, replace, replace_all, rest, same, split,
    split_str, views,
};

verus! {

broadcast use group_views;

// ----- the tree -----

/// A number as the JSON parser holds it.
#[verifier::external_type_specification]
#[verifier::external_body]
pub struct ExNumber(serde_json::Number);

/// A document as the JSON parser holds it.
#[verifier::external_type_specification]
#[verifier::external_body]
pub struct ExValue(serde_json::Value);

/// What `Display` writes for a parsed number. Distinct numbers have distinct
/// texts, and only an integer that fits `u64` is written with digits alone.
pub uninterp spec fn number_text(n: serde_json::Number) -> Seq<char>;

/// A JSON document or a part of one. Objects keep the order of their entries.
#[derive(Debug, PartialEq)]
pub enum Node {
    Null,
    Bool(bool),
    Number(serde_json::Number),
    Text(std::string::String),
    Array(Vec<Node>),
    Object(Vec<(std::string::String, Node)>),
}

/// The mathematical twin of [`Node`].
#[verifier::ext_equal]
pub enum Json {
    Null,
    Bool(bool),
    Number(Seq<char>),
    Text(Seq<char>),
    Array(Seq<Json>),
    Object(Seq<(Seq<char>, Json)>),
}

pub open spec fn tree(n: Node) -> Json
    decreases n,
{
    match n {
        Node::Null => Json::Null,
        Node::Bool(b) => Json::Bool(b),
        Node::Number(n) => Json::Number(number_text(n)),
        Node::Text(s) => Json::Text(s@),
        Node::Array(a) => Json::Array(trees(a@)),
        Node::Object(o) => Json::Object(members(o@)),
    }
}

pub open spec fn trees(a: Seq<Node>) -> Seq<Json>
    decreases a,
{
    if a.len() == 0 {
        Seq::empty()
    } else {
        trees(a.drop_last()).push(tree(a.last()))
    }
}

pub open spec fn members(o: Seq<(std::string::String, Node)>) -> Seq<(Seq<char>, Json)>
    decreases o,
{
    if o.len() == 0 {
        Seq::empty()
    } else {
        members(o.drop_last()).push((o.last().0@, tree(o.last().1)))
    }
}

impl View for Node {
    type V = Json;

    open spec fn view(&self) -> Json {
        tree(*self)
    }
}

proof fn lemma_trees(a: Seq<Node>)
    ensures
        trees(a) == views(a),
    decreases a.len(),
{
    if a.len() > 0 {
        lemma_trees(a.drop_last());
        assert(views(a) =~= views(a.drop_last()).push(a.last()@));
    } else {
        assert(views(a) =~= Seq::empty());
    }
}

proof fn lemma_members(o: Seq<(std::string::String, Node)>)
    ensures
        members(o) == views(o),
    decreases o.len(),
{
    if o.len() > 0 {
        lemma_members(o.drop_last());
        assert(views(o) =~= views(o.drop_last()).push(o.last()@));
    } else {
        assert(views(o) =~= Seq::empty());
    }
}

/// The view of an array is the sequence of its items' views.
pub broadcast proof fn lemma_array_view(a: Vec<Node>)
    ensures
        #[trigger] Node::Array(a)@ == Json::Array(views(a@)),
{
    lemma_trees(a@);
}

/// The view of an object is the sequence of its entries' views.
pub broadcast proof fn lemma_object_view(o: Vec<(std::string::String, Node)>)
    ensures
        #[trigger] Node::Object(o)@ == Json::Object(views(o@)),
{
    lemma_members(o@);
}

pub broadcast group group_json {
    lemma_array_view,
    lemma_object_view,
}

// ----- looking into a document -----

/// The value of the first entry called `key`.
pub open spec fn entry(o: Seq<(Seq<char>, Json)>, key: Seq<char>) -> Option<Json>
    decreases o.len(),
{
    if o.len() == 0 {
        None
    } else if o[0].0 == key {
        Some(o[0].1)
    } else {
        entry(o.skip(1), key)
    }
}

/// Entry `key` of an object; `None` for anything that is not an object.
pub open spec fn field(j: Json, key: Seq<char>) -> Option<Json> {
    match j {
        Json::Object(o) => entry(o, key),
        _ => None,
    }
}

/// The text of a string value.
pub open spec fn text_in(j: Option<Json>) -> Option<Seq<char>> {
    match j {
        Some(Json::Text(s)) => Some(s),
        _ => None,
    }
}

/// The items of an array value.
pub open spec fn items_in(j: Option<Json>) -> Option<Seq<Json>> {
    match j {
        Some(Json::Array(a)) => Some(a),
        _ => None,
    }
}

/// The entries of an object value.
pub open spec fn entries_in(j: Option<Json>) -> Option<Seq<(Seq<char>, Json)>> {
    match j {
        Some(Json::Object(o)) => Some(o),
        _ => None,
    }
}

/// The flag of a boolean value.
pub open spec fn flag_in(j: Option<Json>) -> Option<bool> {
    match j {
        Some(Json::Bool(b)) => Some(b),
        _ => None,
    }
}

pub open spec fn field_text(j: Json, key: Seq<char>) -> Option<Seq<char>> {
    text_in(field(j, key))
}

pub open spec fn field_items(j: Json, key: Seq<char>) -> Option<Seq<Json>> {
    items_in(field(j, key))
}

pub open spec fn field_entries(j: Json, key: Seq<char>) -> Option<Seq<(Seq<char>, Json)>> {
    entries_in(field(j, key))
}

pub open spec fn field_flag(j: Json, key: Seq<char>) -> Option<bool> {
    flag_in(field(j, key))
}

/// The whole number a value holds, if it is one that fits `u64`.
pub open spec fn natural(j: Json) -> Option<nat> {
    match j {
        Json::Number(t) => if exists|v: u64| #[trigger] decimal(v as nat) == t {
            Some((choose|v: u64| #[trigger] decimal(v as nat) == t) as nat)
        } else {
            None
        },
        _ => None,
    }
}

/// `Number::as_u64`: the value of a number that was read or made as a whole
/// number up to `u64::MAX`, which is exactly a number written with digits alone.
#[verifier::external_body]
fn number_as_u64(n: &serde_json::Number) -> (r: Option<u64>)
    ensures
        match r {
            Some(v) => number_text(*n) == decimal(v as nat),
            None => forall|v: u64| #[trigger] decimal(v as nat) != number_text(*n),
        },
{
    n.as_u64()
}

/// `Number::clone` gives the same number.
#[verifier::external_body]
fn number_clone(n: &serde_json::Number) -> (r: serde_json::Number)
    ensures
        r == *n,
{
    n.clone()
}

pub proof fn lemma_decimal_injective(a: nat, b: nat)
    requires
        decimal(a) == decimal(b),
    ensures
        a == b,
    decreases a,
{
    lemma_decimal_nonempty(a / 10);
    lemma_decimal_nonempty(b / 10);
    lemma_digit_char(a % 10);
    lemma_digit_char(b % 10);
    assert(decimal(a).last() == digit_char(a % 10));
    assert(decimal(b).last() == digit_char(b % 10));
    if a >= 10 && b >= 10 {
        assert(decimal(a).drop_last() =~= decimal(a / 10));
        assert(decimal(b).drop_last() =~= decimal(b / 10));
        lemma_decimal_injective(a / 10, b / 10);
    } else if a >= 10 {
        assert(decimal(a).len() >= 2);
    } else if b >= 10 {
        assert(decimal(b).len() >= 2);
    }
}

proof fn lemma_digit_char(d: nat)
    requires
        d < 10,
    ensures
        digit_char(d) as nat == 48 + d,
{
}

pub proof fn lemma_decimal_nonempty(a: nat)
    ensures
        decimal(a).len() >= 1,
    decreases a,
{
}

pub fn clone_values(a: &Vec<Node>) -> (r: Vec<Node>)
    ensures
        views(r@) == views(a@),
    decreases a,
{
    let mut out: Vec<Node> = Vec::new();
    let mut i: usize = 0;
    while i < a.len()
        invariant
            i <= a@.len(),
            views(out@) == views(a@).take(i as int),
        decreases a@.len() - i,
    {
        out.push(a[i].clone());
        i += 1;
        assert(views(out@) =~= views(a@).take(i as int));
    }
    assert(views(out@) =~= views(a@));
    out
}

pub fn clone_entries(o: &Vec<(std::string::String, Node)>) -> (r: Vec<(std::string::String, Node)>)
    ensures
        views(r@) == views(o@),
    decreases o,
{
    let mut out: Vec<(std::string::String, Node)> = Vec::new();
    let mut i: usize = 0;
    while i < o.len()
        invariant
            i <= o@.len(),
            views(out@) == views(o@).take(i as int),
        decreases o@.len() - i,
    {
        let e = &o[i];
        assert(decreases_to!(o => o@[i as int]));
        assert(decreases_to!(o@[i as int] => o@[i as int].1));
        out.push((e.0.clone(), e.1.clone()));
        i += 1;
        assert(views(out@) =~= views(o@).take(i as int));
    }
    assert(views(out@) =~= views(o@));
    out
}

impl Clone for Node {
    fn clone(&self) -> (r: Self)
        ensures
            r@ == self@,
        decreases self,
    {
        broadcast use group_json;

        match self {
            Node::Null => Node::Null,
            Node::Bool(b) => Node::Bool(*b),
            Node::Number(n) => Node::Number(number_clone(n)),
            Node::Text(s) => Node::Text(s.clone()),
            Node::Array(a) => {
                let r = Node::Array(clone_values(a));
                r
            },
            Node::Object(o) => {
                let r = Node::Object(clone_entries(o));
                r
            },
        }
    }
}

/// Finds the first entry called `key`.
pub fn find_entry<'a>(o: &'a Vec<(std::string::String, Node)>, key: &str) -> (r: Option<&'a Node>)
    ensures
        opt(r) == entry(views(o@), key@),
{
    let ghost all = views(o@);
    let mut i: usize = 0;
    assert(all.skip(0) =~= all);
    while i < o.len()
        invariant
            i <= o@.len(),
            all == views(o@),
            entry(all, key@) == entry(all.skip(i as int), key@),
        decreases o@.len() - i,
    {
        if same(o[i].0.as_str(), key) {
            return Some(&o[i].1);
        }
        assert(all.skip(i as int).skip(1) =~= all.skip(i + 1));
        i += 1;
    }
    None
}

impl Node {
    pub fn get(&self, key: &str) -> (r: Option<&Node>)
        ensures
            opt(r) == field(self@, key@),
    {
        broadcast use group_json;

        match self {
            Node::Object(o) => find_entry(o, key),
            _ => None,
        }
    }

    pub fn as_str(&self) -> (r: Option<&str>)
        ensures
            opt(r) == text_in(Some(self@)),
    {
        match self {
            Node::Text(s) => Some(s.as_str()),
            _ => None,
        }
    }

    pub fn as_bool(&self) -> (r: Option<bool>)
        ensures
            r == flag_in(Some(self@)),
    {
        match self {
            Node::Bool(b) => Some(*b),
            _ => None,
        }
    }

    pub fn as_array(&self) -> (r: Option<&Vec<Node>>)
        ensures
            match r {
                Some(a) => items_in(Some(self@)) == Some(views(a@)),
                None => items_in(Some(self@)) is None,
            },
    {
        broadcast use group_json;

        match self {
            Node::Array(a) => Some(a),
            _ => None,
        }
    }

    pub fn as_object(&self) -> (r: Option<&Vec<(std::string::String, Node)>>)
        ensures
            match r {
                Some(o) => entries_in(Some(self@)) == Some(views(o@)),
                None => entries_in(Some(self@)) is None,
            },
    {
        broadcast use group_json;

        match self {
            Node::Object(o) => Some(o),
            _ => None,
        }
    }

    pub fn as_u64(&self) -> (r: Option<u64>)
        ensures
            match r {
                Some(v) => natural(self@) == Some(v as nat),
                None => natural(self@) is None,
            },
    {
        match self {
            Node::Number(n) => {
                let r = number_as_u64(n);
                proof {
                    match r {
                        Some(v) => {
                            let w = choose|w: u64| #[trigger] decimal(w as nat) == number_text(*n);
                            assert(decimal(v as nat) == number_text(*n));
                            lemma_decimal_injective(w as nat, v as nat);
                        },
                        None => {},
                    }
                }
                r
            },
            _ => None,
        }
    }

    /// The text of entry `key`, if that is a string.
    pub fn text(&self, key: &str) -> (r: Option<&str>)
        ensures
            opt(r) == field_text(self@, key@),
    {
        match self.get(key) {
            Some(v) => v.as_str(),
            None => None,
        }
    }

    /// The items of entry `key`, if that is an array.
    pub fn items(&self, key: &str) -> (r: Option<&Vec<Node>>)
        ensures
            match r {
                Some(a) => field_items(self@, key@) == Some(views(a@)),
                None => field_items(self@, key@) is None,
            },
    {
        match self.get(key) {
            Some(v) => v.as_array(),
            None => None,
        }
    }

    /// The entries of entry `key`, if that is an object.
    pub fn entries(&self, key: &str) -> (r: Option<&Vec<(std::string::String, Node)>>)
        ensures
            match r {
                Some(o) => field_entries(self@, key@) == Some(views(o@)),
                None => field_entries(self@, key@) is None,
            },
    {
        match self.get(key) {
            Some(v) => v.as_object(),
            None => None,
        }
    }

    /// The flag in entry `key`, if that is a boolean.
    pub fn flag(&self, key: &str) -> (r: Option<bool>)
        ensures
            r == field_flag(self@, key@),
    {
        match self.get(key) {
            Some(v) => v.as_bool(),
            None => None,
        }
    }
}

// ----- adding entries -----

/// Sets `key` to `value`: in place where the key is known, at the end otherwise.
pub open spec fn put(o: Seq<(Seq<char>, Json)>, key: Seq<char>, value: Json) -> Seq<(Seq<char>, Json)>
    decreases o.len(),
{
    if o.len() == 0 {
        seq![(key, value)]
    } else if o[0].0 == key {
        o.update(0, (key, value))
    } else {
        seq![o[0]] + put(o.skip(1), key, value)
    }
}

pub fn put_entry(o: &mut Vec<(std::string::String, Node)>, key: &str, value: Node)
    ensures
        views(final(o)@) == put(views(old(o)@), key@, value@),
{
    let ghost all = views(o@);
    let mut i: usize = 0;
    assert(all.skip(0) =~= all);
    assert(all.take(0) + put(all, key@, value@) =~= put(all, key@, value@));
    while i < o.len()
        invariant
            i <= o@.len(),
            *o == *old(o),
            all == views(o@),
            put(all, key@, value@) == all.take(i as int) + put(all.skip(i as int), key@, value@),
        decreases o@.len() - i,
    {
        let ghost tail = all.skip(i as int);
        if same(o[i].0.as_str(), key) {
            o.set(i, (key.to_owned(), value));
            assert(views(o@) =~= all.take(i as int) + tail.update(0, (key@, value@)));
            return;
        }
        assert(tail.skip(1) =~= all.skip(i + 1));
        assert(all.take(i as int) + (seq![tail[0]] + put(tail.skip(1), key@, value@)) =~= all.take(i + 1)
            + put(all.skip(i + 1), key@, value@));
        i += 1;
    }
    o.push((key.to_owned(), value));
    assert(views(o@) =~= all.take(i as int) + seq![(key@, value@)]);
}

/// After `put` the key has the new value, and every other key the one it had.
pub proof fn lemma_put(o: Seq<(Seq<char>, Json)>, key: Seq<char>, value: Json, other: Seq<char>)
    ensures
        entry(put(o, key, value), other) == (if other == key {
            Some(value)
        } else {
            entry(o, other)
        }),
    decreases o.len(),
{
    if o.len() == 0 {
        let p = seq![(key, value)];
        assert(entry(p.skip(1), other) is None);
    } else if o[0].0 == key {
        assert(o.update(0, (key, value)).skip(1) =~= o.skip(1));
    } else {
        lemma_put(o.skip(1), key, value, other);
        let p = seq![o[0]] + put(o.skip(1), key, value);
        assert(p.skip(1) =~= put(o.skip(1), key, value));
    }
}

// ----- JSON pointers -----

/// A reference token with its escapes undone: `~1` is `/` and `~0` is `~`.
pub open spec fn unescaped(token: Seq<char>) -> Seq<char> {
    replace_all(replace_all(token, "~1"@, "/"@), "~0"@, "~"@)
}

/// An array index: decimal digits without a superfluous zero in front.
pub open spec fn index_value(token: Seq<char>) -> Option<nat> {
    if token.len() > 0 && (token[0] == '+' || (token[0] == '0' && token.len() != 1)) {
        None
    } else {
        nat_value(token)
    }
}

/// One step down the tree.
pub open spec fn step(j: Json, token: Seq<char>) -> Option<Json> {
    match j {
        Json::Object(o) => entry(o, unescaped(token)),
        Json::Array(a) => match index_value(unescaped(token)) {
            Some(i) => if i < a.len() {
                Some(a[i as int])
            } else {
                None
            },
            None => None,
        },
        _ => None,
    }
}

/// Follows the tokens one after another.
pub open spec fn walk(j: Json, tokens: Seq<Seq<char>>) -> Option<Json>
    decreases tokens.len(),
{
    if tokens.len() == 0 {
        Some(j)
    } else {
        match step(j, tokens[0]) {
            Some(next) => walk(next, tokens.skip(1)),
            None => None,
        }
    }
}

/// The part of `j` that an RFC 6901 pointer names.
pub open spec fn pointed(j: Json, pointer: Seq<char>) -> Option<Json> {
    if pointer.len() == 0 {
        Some(j)
    } else if pointer[0] != '/' {
        None
    } else {
        walk(j, split(pointer.skip(1), '/'))
    }
}

fn unescape(token: &str) -> (r: std::string::String)
    ensures
        r@ == unescaped(token@),
{
    proof {
        reveal_strlit("~1");
        reveal_strlit("~0");
    }
    let once = replace(token, "~1", "/");
    replace(once.as_str(), "~0", "~")
}

fn parse_index(token: &str) -> (r: Option<u64>)
    ensures
        match index_value(token@) {
            Some(v) => if v <= u64::MAX {
                r == Some(v as u64)
            } else {
                r is None
            },
            None => r is None,
        },
{
    let c = chars(token);
    if c.len() > 0 && (c[0] == '+' || (c[0] == '0' && c.len() != 1)) {
        None
    } else {
        parse_u64(token)
    }
}

impl Node {
    fn step_into(&self, token: &str) -> (r: Option<&Node>)
        ensures
            opt(r) == step(self@, token@),
    {
        broadcast use group_json;

        let name = unescape(token);
        match self {
            Node::Object(o) => find_entry(o, name.as_str()),
            Node::Array(a) => {
                let n: u64 = a.len() as u64;
                match parse_index(name.as_str()) {
                    Some(i) => if i < n {
                        Some(&a[i as usize])
                    } else {
                        None
                    },
                    None => None,
                }
            },
            _ => None,
        }
    }

    /// The part of the document that an RFC 6901 pointer names.
    pub fn pointer(&self, pointer: &str) -> (r: Option<&Node>)
        ensures
            opt(r) == pointed(self@, pointer@),
    {
        if pointer.is_empty() {
            return Some(self);
        }
        let c = chars(pointer);
        if c[0] != '/' {
            return None;
        }
        let tokens = split_str(rest(pointer, 1), '/');
        let ghost all = views(tokens@);
        let mut node: &Node = self;
        let mut i: usize = 0;
        assert(all.skip(0) =~= all);
        while i < tokens.len()
            invariant
                i <= tokens@.len(),
                all == views(tokens@),
                pointed(self@, pointer@) == walk(node@, all.skip(i as int)),
            decreases tokens@.len() - i,
        {
            assert(all.skip(i as int)[0] == tokens@[i as int]@);
            assert(all.skip(i as int).skip(1) =~= all.skip(i + 1));
            match node.step_into(tokens[i].as_str()) {
                Some(next) => {
                    node = next;
                },
                None => {
                    return None;
                },
            }
            i += 1;
        }
        Some(node)
    }
}

// ----- reading and printing -----

/// What `serde_json::from_str` makes of a text: the document in it, or the
/// message that says why it is not JSON.
pub uninterp spec fn json_reading(text: Seq<char>) -> Result<Json, Seq<char>>;

/// What `serde_yaml::from_str` makes of a text: the document in it, or the
/// message that says why it is not YAML that a JSON document can hold.
pub uninterp spec fn yaml_reading(text: Seq<char>) -> Result<Json, Seq<char>>;

/// What `serde_json::to_string` prints for a document.
pub uninterp spec fn compact_text(j: Json) -> Seq<char>;

/// What `serde_json::to_string_pretty` prints for a document.
pub uninterp spec fn pretty_text(j: Json) -> Seq<char>;

/// Carries a `serde_json` document over into a [`Node`], node for node.
#[verifier::external_body]
fn from_serde(v: serde_json::Value) -> Node {
    match v {
        serde_json::Value::Null => Node::Null,
        serde_json::Value::Bool(b) => Node::Bool(b),
        serde_json::Value::Number(n) => Node::Number(n),
        serde_json::Value::String(s) => Node::Text(s),
        serde_json::Value::Array(a) => Node::Array(a.into_iter().map(from_serde).collect()),
        serde_json::Value::Object(o) => Node::Object(
            o.into_iter().map(|(k, v)| (k, from_serde(v))).collect(),
        ),
    }
}

/// Carries a [`Node`] over into a `serde_json` document, node for node.
#[verifier::external_body]
fn to_serde(v: &Node) -> serde_json::Value {
    match v {
        Node::Null => serde_json::Value::Null,
        Node::Bool(b) => serde_json::Value::Bool(*b),
        Node::Number(n) => serde_json::Value::Number(n.clone()),
        Node::Text(s) => serde_json::Value::String(s.clone()),
        Node::Array(a) => serde_json::Value::Array(a.iter().map(to_serde).collect()),
        Node::Object(o) => serde_json::Value::Object(
            o.iter().map(|(k, v)| (k.clone(), to_serde(v))).collect(),
        ),
    }
}

/// A result, viewed.
pub open spec fn reading(r: Result<Node, std::string::String>) -> Result<Json, Seq<char>> {
    match r {
        Ok(v) => Ok(v@),
        Err(e) => Err(e@),
    }
}

/// `serde_json::from_str`: the document that stands in `text`, whose objects
/// keep the order in which their entries were written, or the error's message.
#[verifier::external_body]
pub(crate) fn read_json(text: &str) -> (r: Result<Node, std::string::String>)
    ensures
        reading(r) == json_reading(text@),
{
    serde_json::from_str::<serde_json::Value>(text).map(from_serde).map_err(|e| e.to_string())
}

/// `serde_yaml::from_str`: the document that stands in `text`, or the error's
/// message.
#[verifier::external_body]
pub(crate) fn read_yaml(text: &str) -> (r: Result<Node, std::string::String>)
    ensures
        reading(r) == yaml_reading(text@),
{
    serde_yaml::from_str::<serde_json::Value>(text).map(from_serde).map_err(|e| e.to_string())
}

/// `serde_json::to_string`: `v` on one line.
#[verifier::external_body]
pub(crate) fn compact(v: &Node) -> (r: std::string::String)
    ensures
        r@ == compact_text(v@),
{
    serde_json::to_string(&to_serde(v)).unwrap_or_default()
}

/// `serde_json::to_string_pretty`: `v` over several lines, indented.
#[verifier::external_body]
pub(crate) fn pretty(v: &Node) -> (r: std::string::String)
    ensures
        r@ == pretty_text(v@),
{
    serde_json::to_string_pretty(&to_serde(v)).unwrap_or_default()
}

/// A string as it stands, anything else as compact JSON.
pub open spec fn plain_text(j: Json) -> Seq<char> {
    match j {
        Json::Text(s) => s,
        _ => compact_text(j),
    }
}

/// A string as it stands, anything else as indented JSON.
pub open spec fn body_text(j: Json) -> Seq<char> {
    match j {
        Json::Text(s) => s,
        _ => pretty_text(j),
    }
}

impl Node {
    /// How the value is typed into a field: strings lose their quotes.
    pub fn plain(&self) -> (r: std::string::String)
        ensures
            r@ == plain_text(self@),
    {
        match self {
            Node::Text(s) => s.clone(),
            _ => compact(self),
        }
    }

    /// How the value stands in a request body: strings lose their quotes.
    pub fn body(&self) -> (r: std::string::String)
        ensures
            r@ == body_text(self@),
    {
        match self {
            Node::Text(s) => s.clone(),
            _ => pretty(self),
        }
    }
}

/// `Number::from_str` reads `1` and `1.0` as numbers that print the same way.
#[verifier::external_body]
fn read_number(text: &str) -> (r: Option<serde_json::Number>)
    requires
        text@ == "1"@ || text@ == "1.0"@,
    ensures
        r is Some,
        number_text(r->0) == text@,
{
    text.parse::<serde_json::Number>().ok()
}

/// The number one, written `1` or `1.0`.
pub fn number_one(text: &str) -> (r: Node)
    requires
        text@ == "1"@ || text@ == "1.0"@,
    ensures
        r@ == Json::Number(text@),
{
    match read_number(text) {
        Some(n) => Node::Number(n),
        None => Node::Null,
    }
}

} // verus!
