//! Collections, saved requests and the rows they are made of.

use vstd::hash_map::StringHashMap;
use vstd::prelude::*;

use crate::app::{EditorTab, Focus};
use crate::ids::new_v4;
use crate::text::{
    chars, clone_strings, contains, find, find_chars, group_views, has, lacks, lemma_found_after,
    lemma_not_found, lemma_trim_idempotent, lemma_trim_lacks, lower, opt, same, string_of, to_lower,
    trim, trimmed, views,
};

verus! {

broadcast use {vstd::seq_lib::group_seq_properties, group_views};

// ----- rows -----

/// One key/value line of a table, which can be switched off.
#[derive(Debug, PartialEq, Eq)]
pub struct KeyValueRow {
    pub key: String,
    pub value: String,
    pub enabled: bool,
}

#[verifier::ext_equal]
pub struct RowView {
    pub key: Seq<char>,
    pub value: Seq<char>,
    pub enabled: bool,
}

impl View for KeyValueRow {
    type V = RowView;

    open spec fn view(&self) -> RowView {
        RowView { key: self.key@, value: self.value@, enabled: self.enabled }
    }
}

impl Clone for KeyValueRow {
    fn clone(&self) -> (r: Self)
        ensures
            r@ == self@,
    {
        KeyValueRow { key: self.key.clone(), value: self.value.clone(), enabled: self.enabled }
    }
}

impl KeyValueRow {
    pub fn new(key: &str, value: &str, enabled: bool) -> (r: Self)
        ensures
            r@ == (RowView { key: key@, value: value@, enabled }),
    {
        KeyValueRow { key: key.to_owned(), value: value.to_owned(), enabled }
    }

    pub fn same(&self, other: &KeyValueRow) -> (r: bool)
        ensures
            r == (self@ == other@),
    {
        self.key == other.key && self.value == other.value && self.enabled == other.enabled
    }
}

pub fn clone_rows(rows: &Vec<KeyValueRow>) -> (r: Vec<KeyValueRow>)
    ensures
        views(r@) == views(rows@),
{
    let mut out: Vec<KeyValueRow> = Vec::new();
    let mut i: usize = 0;
    while i < rows.len()
        invariant
            i <= rows@.len(),
            views(out@) == views(rows@).take(i as int),
        decreases rows@.len() - i,
    {
        out.push(rows[i].clone());
        i += 1;
        assert(views(out@) =~= views(rows@).take(i as int));
    }
    assert(views(out@) =~= views(rows@));
    out
}

pub fn same_rows(a: &Vec<KeyValueRow>, b: &Vec<KeyValueRow>) -> (r: bool)
    ensures
        r == (views(a@) == views(b@)),
{
    if a.len() != b.len() {
        assert(views(a@).len() != views(b@).len());
        return false;
    }
    let mut i: usize = 0;
    while i < a.len()
        invariant
            i <= a@.len(),
            a@.len() == b@.len(),
            forall|j: int| 0 <= j < i ==> a@[j]@ == b@[j]@,
        decreases a@.len() - i,
    {
        if !a[i].same(&b[i]) {
            assert(views(a@)[i as int] != views(b@)[i as int]);
            return false;
        }
        i += 1;
    }
    assert(views(a@) =~= views(b@));
    true
}

/// Collection-level `{{variables}}` as an ordered, editable list.
pub type Variables = Vec<KeyValueRow>;

/// Variable values by name.
pub struct VarMap {
    map: StringHashMap<String>,
}

impl View for VarMap {
    type V = Map<Seq<char>, Seq<char>>;

    closed spec fn view(&self) -> Map<Seq<char>, Seq<char>> {
        self.map@.map_values(|s: String| s@)
    }
}

impl VarMap {
    pub fn new() -> (r: Self)
        ensures
            r@ == Map::<Seq<char>, Seq<char>>::empty(),
    {
        let r = VarMap { map: StringHashMap::new() };
        assert(r@ =~= Map::<Seq<char>, Seq<char>>::empty());
        r
    }

    pub fn insert(&mut self, key: &str, value: &str)
        ensures
            final(self)@ == old(self)@.insert(key@, value@),
    {
        self.map.insert(key.to_owned(), value.to_owned());
        assert(self@ =~= old(self)@.insert(key@, value@));
    }

    pub fn get(&self, key: &str) -> (r: Option<&String>)
        ensures
            match r {
                Some(v) => self@.contains_key(key@) && v@ == self@[key@],
                None => !self@.contains_key(key@),
            },
    {
        self.map.get(key)
    }

    pub fn contains_key(&self, key: &str) -> (r: bool)
        ensures
            r == self@.contains_key(key@),
    {
        self.map.contains_key(key)
    }
}

/// Enabled, named rows as a map; where a name occurs twice the later row counts.
pub open spec fn vars_of(rows: Seq<RowView>) -> Map<Seq<char>, Seq<char>>
    decreases rows.len(),
{
    if rows.len() == 0 {
        Map::empty()
    } else {
        let m = vars_of(rows.drop_last());
        let r = rows.last();
        if r.enabled && r.key.len() > 0 {
            m.insert(r.key, r.value)
        } else {
            m
        }
    }
}

pub fn variables_map(vars: &Variables) -> (r: VarMap)
    ensures
        r@ == vars_of(views(vars@)),
{
    let mut map = VarMap::new();
    let mut i: usize = 0;
    while i < vars.len()
        invariant
            i <= vars@.len(),
            map@ == vars_of(views(vars@).take(i as int)),
        decreases vars@.len() - i,
    {
        let r = &vars[i];
        assert(views(vars@).take(i + 1).drop_last() =~= views(vars@).take(i as int));
        if r.enabled && !r.key.as_str().is_empty() {
            map.insert(r.key.as_str(), r.value.as_str());
        }
        i += 1;
    }
    assert(views(vars@).take(vars@.len() as int) =~= views(vars@));
    map
}

/// A name is defined exactly when an enabled, named row carries it, and its
/// value is that of the last such row.
pub proof fn lemma_vars_of(rows: Seq<RowView>, key: Seq<char>)
    ensures
        vars_of(rows).contains_key(key) <==> exists|i: int|
            0 <= i < rows.len() && #[trigger] rows[i].enabled && rows[i].key == key && key.len() > 0,
        forall|i: int|
            #![trigger rows[i]]
            0 <= i < rows.len() && rows[i].enabled && rows[i].key == key && key.len() > 0 && (forall|
                j: int,
            |
                i < j < rows.len() ==> !(#[trigger] rows[j].enabled && rows[j].key == key)) ==> vars_of(
                rows,
            )[key] == rows[i].value,
    decreases rows.len(),
{
    if rows.len() > 0 {
        let p = rows.drop_last();
        lemma_vars_of(p, key);
        let n = rows.len() - 1;
        let r = rows[n];
        if r.enabled && r.key == key && key.len() > 0 {
            assert(rows[n].enabled);
        } else {
            if vars_of(p).contains_key(key) {
                let i = choose|i: int|
                    0 <= i < p.len() && #[trigger] p[i].enabled && p[i].key == key && key.len() > 0;
                assert(rows[i].enabled);
            }
            if exists|i: int|
                0 <= i < rows.len() && #[trigger] rows[i].enabled && rows[i].key == key && key.len() > 0 {
                let i = choose|i: int|
                    0 <= i < rows.len() && #[trigger] rows[i].enabled && rows[i].key == key && key.len()
                        > 0;
                assert(p[i].enabled);
            }
        }
        assert forall|i: int|
            #![trigger rows[i]]
            0 <= i < rows.len() && rows[i].enabled && rows[i].key == key && key.len() > 0 && (forall|
                j: int,
            |
                i < j < rows.len() ==> !(#[trigger] rows[j].enabled && rows[j].key == key)) implies vars_of(
            rows,
        )[key] == rows[i].value by {
            if i < n {
                assert(!(rows[n].enabled && rows[n].key == key));
                assert(p[i] == rows[i]);
                assert forall|j: int| i < j < p.len() implies !(#[trigger] p[j].enabled && p[j].key
                    == key) by {
                    assert(!(rows[j].enabled && rows[j].key == key));
                }
            }
        }
    }
}

// ----- path placeholders -----

/// Scans the rest of a path, adding to the names found so far.
pub open spec fn scan_placeholders(s: Seq<char>, names: Seq<Seq<char>>) -> Seq<Seq<char>>
    decreases s.len(),
{
    if s.len() == 0 {
        names
    } else if s[0] != '{' {
        scan_placeholders(s.skip(1), names)
    } else if s.len() > 1 && s[1] == '{' {
        // `{{…}}` is a variable and is passed over whole.
        match find(s.skip(2), seq!['}', '}']) {
            Some(off) => if 0 <= off <= s.len() - 4 {
                scan_placeholders(s.skip(off + 4), names)
            } else {
                names
            },
            None => names,
        }
    } else {
        match find(s.skip(1), seq!['}']) {
            Some(off) => if 0 <= off <= s.len() - 2 {
                scan_placeholders(s.skip(off + 2), add_name(names, trim(s.subrange(1, 1 + off))))
            } else {
                names
            },
            None => names,
        }
    }
}

/// A new name joins the list unless it is blank, spans a `/` or is known.
pub open spec fn add_name(names: Seq<Seq<char>>, name: Seq<char>) -> Seq<Seq<char>> {
    if name.len() > 0 && !contains(name, seq!['/']) && !names.contains(name) {
        names.push(name)
    } else {
        names
    }
}

pub open spec fn placeholders(path: Seq<char>) -> Seq<Seq<char>> {
    scan_placeholders(path, Seq::empty())
}

pub fn contains_string(v: &Vec<String>, s: &str) -> (r: bool)
    ensures
        r == views(v@).contains(s@),
{
    let mut i: usize = 0;
    while i < v.len()
        invariant
            i <= v@.len(),
            forall|j: int| 0 <= j < i ==> v@[j]@ != s@,
        decreases v@.len() - i,
    {
        if same(v[i].as_str(), s) {
            assert(views(v@)[i as int] == s@);
            return true;
        }
        i += 1;
    }
    assert forall|j: int| 0 <= j < views(v@).len() implies views(v@)[j] != s@ by {
        assert(v@[j]@ != s@);
    }
    false
}

/// Names inside single `{…}` in a path template, deduped, in order of first
/// appearance. `{{var}}` is variable syntax rather than a path param and is
/// skipped, so `/{{tenant}}/pets/{petId}` yields just `petId`.
pub fn path_placeholders(path: &str) -> (r: Vec<String>)
    ensures
        views(r@) == placeholders(path@),
{
    let c = chars(path);
    let close = chars("}");
    let close2 = chars("}}");
    proof {
        reveal_strlit("}");
        reveal_strlit("}}");
        assert(close@ =~= seq!['}']);
        assert(close2@ =~= seq!['}', '}']);
    }
    let mut names: Vec<String> = Vec::new();
    let mut i: usize = 0;
    assert(path@.skip(0) =~= path@);
    while i < c.len()
        invariant
            i <= c@.len(),
            c@ == path@,
            close@ == seq!['}'],
            close2@ == seq!['}', '}'],
            scan_placeholders(path@.skip(i as int), views(names@)) == placeholders(path@),
        decreases c@.len() - i,
    {
        let ghost s = path@.skip(i as int);
        if c[i] != '{' {
            assert(s.skip(1) =~= path@.skip(i + 1));
            i += 1;
        } else if i + 1 < c.len() && c[i + 1] == '{' {
            let tail = vstd::slice::slice_subrange(c.as_slice(), i + 2, c.len());
            assert(tail@ =~= s.skip(2));
            match find_chars(tail, close2.as_slice(), 0) {
                Some(off) => {
                    assert(s.skip(off + 4) =~= path@.skip(i + 2 + off + 2));
                    i = i + 2 + off + 2;
                },
                None => {
                    return names;
                },
            }
        } else {
            let tail = vstd::slice::slice_subrange(c.as_slice(), i + 1, c.len());
            assert(tail@ =~= s.skip(1));
            match find_chars(tail, close.as_slice(), 0) {
                Some(off) => {
                    let raw = string_of(vstd::slice::slice_subrange(tail, 0, off));
                    assert(raw@ =~= s.subrange(1, 1 + off));
                    let name = trimmed(raw.as_str());
                    let slash = has(name, "/");
                    proof {
                        reveal_strlit("/");
                        assert("/"@ =~= seq!['/']);
                    }
                    if !name.is_empty() && !slash && !contains_string(&names, name) {
                        names.push(name.to_owned());
                    }
                    assert(s.skip(off + 2) =~= path@.skip(i + 1 + off + 1));
                    i = i + 1 + off + 1;
                },
                None => {
                    return names;
                },
            }
        }
    }
    names
}

/// Placeholder names are trimmed and never blank, never span a `/`, and none
/// occurs twice.
pub proof fn lemma_placeholders(path: Seq<char>)
    ensures
        placeholders(path).no_duplicates(),
        forall|i: int|
            0 <= i < placeholders(path).len() ==> #[trigger] placeholders(path)[i].len() > 0 && !contains(
                placeholders(path)[i],
                seq!['/'],
            ) && trim(placeholders(path)[i]) == placeholders(path)[i],
{
    lemma_scan_placeholders(path, Seq::empty());
}

proof fn lemma_scan_placeholders(s: Seq<char>, names: Seq<Seq<char>>)
    requires
        names.no_duplicates(),
        forall|i: int|
            0 <= i < names.len() ==> #[trigger] names[i].len() > 0 && !contains(names[i], seq!['/'])
                && trim(names[i]) == names[i],
    ensures
        scan_placeholders(s, names).no_duplicates(),
        forall|i: int|
            0 <= i < scan_placeholders(s, names).len() ==> #[trigger] scan_placeholders(s, names)[i].len()
                > 0 && !contains(scan_placeholders(s, names)[i], seq!['/']) && trim(
                scan_placeholders(s, names)[i],
            ) == scan_placeholders(s, names)[i],
    decreases s.len(),
{
    if s.len() == 0 {
    } else if s[0] != '{' {
        lemma_scan_placeholders(s.skip(1), names);
    } else if s.len() > 1 && s[1] == '{' {
        match find(s.skip(2), seq!['}', '}']) {
            Some(off) => if 0 <= off <= s.len() - 4 {
                lemma_scan_placeholders(s.skip(off + 4), names);
            },
            None => {},
        }
    } else {
        match find(s.skip(1), seq!['}']) {
            Some(off) => if 0 <= off <= s.len() - 2 {
                let more = add_name(names, trim(s.subrange(1, 1 + off)));
                lemma_trim_idempotent(s.subrange(1, 1 + off));
                assert(more.no_duplicates());
                lemma_scan_placeholders(s.skip(off + 2), more);
            },
            None => {},
        }
    }
}

/// `names` without those that are known.
pub open spec fn unknown(names: Seq<Seq<char>>, known: Seq<Seq<char>>) -> Seq<Seq<char>>
    decreases names.len(),
{
    if names.len() == 0 {
        Seq::empty()
    } else {
        let before = unknown(names.drop_last(), known);
        if known.contains(names.last()) {
            before
        } else {
            before.push(names.last())
        }
    }
}

proof fn lemma_unknown_contains(names: Seq<Seq<char>>, known: Seq<Seq<char>>, x: Seq<char>)
    ensures
        unknown(names, known).contains(x) <==> names.contains(x) && !known.contains(x),
    decreases names.len(),
{
    if names.len() > 0 {
        let p = names.drop_last();
        let u = unknown(p, known);
        lemma_unknown_contains(p, known, x);
        assert(names =~= p.push(names.last()));
        assert(names.contains(x) <==> p.contains(x) || x == names.last()) by {
            if names.contains(x) && x != names.last() {
                let i = choose|i: int| 0 <= i < names.len() && names[i] == x;
                assert(p[i] == x);
            }
            if p.contains(x) {
                let i = choose|i: int| 0 <= i < p.len() && p[i] == x;
                assert(names[i] == x);
            }
            assert(names[names.len() - 1] == names.last());
        }
        if !known.contains(names.last()) {
            let w = u.push(names.last());
            assert(w.contains(x) <==> u.contains(x) || x == names.last()) by {
                if w.contains(x) && x != names.last() {
                    let i = choose|i: int| 0 <= i < w.len() && w[i] == x;
                    assert(u[i] == x);
                }
                if u.contains(x) {
                    let i = choose|i: int| 0 <= i < u.len() && u[i] == x;
                    assert(w[i] == x);
                }
                assert(w[u.len() as int] == names.last());
            }
        }
    }
}

proof fn lemma_joined_contains(a: Seq<Seq<char>>, b: Seq<Seq<char>>, x: Seq<char>)
    ensures
        (a + b).contains(x) <==> a.contains(x) || b.contains(x),
{
    let c = a + b;
    if c.contains(x) {
        let i = choose|i: int| 0 <= i < c.len() && c[i] == x;
        if i < a.len() {
            assert(a[i] == x);
        } else {
            assert(b[i - a.len()] == x);
        }
    }
    if a.contains(x) {
        let i = choose|i: int| 0 <= i < a.len() && a[i] == x;
        assert(c[i] == x);
    }
    if b.contains(x) {
        let i = choose|i: int| 0 <= i < b.len() && b[i] == x;
        assert(c[a.len() + i] == x);
    }
}

/// Names known beforehand come first, and are not found again.
proof fn lemma_scan_after(s: Seq<char>, known: Seq<Seq<char>>, found: Seq<Seq<char>>)
    ensures
        scan_placeholders(s, known + unknown(found, known)) == known + unknown(
            scan_placeholders(s, found),
            known,
        ),
    decreases s.len(),
{
    if s.len() == 0 {
    } else if s[0] != '{' {
        lemma_scan_after(s.skip(1), known, found);
    } else if s.len() > 1 && s[1] == '{' {
        match find(s.skip(2), seq!['}', '}']) {
            Some(off) => if 0 <= off <= s.len() - 4 {
                lemma_scan_after(s.skip(off + 4), known, found);
            },
            None => {},
        }
    } else {
        match find(s.skip(1), seq!['}']) {
            Some(off) => if 0 <= off <= s.len() - 2 {
                let n = trim(s.subrange(1, 1 + off));
                let both = known + unknown(found, known);
                lemma_unknown_contains(found, known, n);
                lemma_joined_contains(known, unknown(found, known), n);
                assert(found.push(n).drop_last() =~= found);
                assert(both.push(n) =~= known + unknown(found, known).push(n));
                assert(add_name(both, n) == known + unknown(add_name(found, n), known));
                lemma_scan_after(s.skip(off + 2), known, add_name(found, n));
            },
            None => {},
        }
    }
}

/// What precedes the first brace holds no names.
proof fn lemma_scan_skips(before: Seq<char>, s: Seq<char>, names: Seq<Seq<char>>)
    requires
        lacks(before, '{'),
    ensures
        scan_placeholders(before + s, names) == scan_placeholders(s, names),
    decreases before.len(),
{
    if before.len() == 0 {
        assert(before + s =~= s);
    } else {
        assert((before + s)[0] == before[0]);
        assert((before + s).skip(1) =~= before.skip(1) + s);
        assert forall|i: int| 0 <= i < before.skip(1).len() implies #[trigger] before.skip(1)[i] != '{' by {
            assert(before[i + 1] != '{');
        }
        lemma_scan_skips(before.skip(1), s, names);
    }
}

/// The placeholders of a path are its first one, trimmed, and then those of
/// what follows it, without that name.
pub proof fn lemma_first_placeholder_comes_first(before: Seq<char>, name: Seq<char>, rest: Seq<char>)
    requires
        lacks(before, '{'),
        lacks(name, '{'),
        lacks(name, '}'),
        lacks(name, '/'),
        trim(name).len() > 0,
    ensures
        placeholders(before + seq!['{'] + name + seq!['}'] + rest) == seq![trim(name)] + unknown(
            placeholders(rest),
            seq![trim(name)],
        ),
{
    let n = name.len() as int;
    let s = seq!['{'] + name + seq!['}'] + rest;
    let none = Seq::<Seq<char>>::empty();
    assert(before + seq!['{'] + name + seq!['}'] + rest =~= before + s);
    lemma_scan_skips(before, s, none);
    assert(n > 0) by {
        if n == 0 {
            assert(trim(name) == name);
        }
    }
    assert(s[1] == name[0]);
    assert(s.skip(1) =~= name + seq!['}'] + rest);
    lemma_found_after(name, seq!['}'], rest);
    assert(s.subrange(1, 1 + n) =~= name);
    assert(s.skip(n + 2) =~= rest);
    lemma_trim_lacks(name, '/');
    lemma_not_found(trim(name), '/');
    let known = seq![trim(name)];
    assert(add_name(none, trim(name)) =~= known);
    lemma_scan_after(rest, known, none);
    assert(known + unknown(none, known) =~= known);
}

/// A `{{variable}}` in a path is passed over whole, and a path without braces
/// has no placeholders.
pub proof fn lemma_variables_are_no_placeholders(before: Seq<char>, name: Seq<char>, rest: Seq<char>)
    requires
        lacks(before, '{'),
        lacks(name, '}'),
    ensures
        placeholders(before + seq!['{', '{'] + name + seq!['}', '}'] + rest) == placeholders(rest),
        placeholders(before) == Seq::<Seq<char>>::empty(),
{
    let n = name.len() as int;
    let s = seq!['{', '{'] + name + seq!['}', '}'] + rest;
    let none = Seq::<Seq<char>>::empty();
    assert(before + seq!['{', '{'] + name + seq!['}', '}'] + rest =~= before + s);
    lemma_scan_skips(before, s, none);
    lemma_scan_skips(before, Seq::empty(), none);
    assert(before + Seq::<char>::empty() =~= before);
    assert(s.skip(2) =~= name + seq!['}', '}'] + rest);
    lemma_found_after(name, seq!['}', '}'], rest);
    assert(s.skip(n + 4) =~= rest);
}

// ----- authentication -----

#[derive(Debug, Clone, Copy, PartialEq, Eq, Structural)]
pub enum AuthStyle {
    /// client_id/client_secret sent via HTTP Basic header (RFC 6749 default).
    Basic,
    /// client_id/client_secret sent in the form body.
    Post,
}

/// Which authentication scheme a collection uses.
#[derive(Debug, Clone, Copy, PartialEq, Eq, Structural)]
pub enum AuthKind {
    Oauth2,
    /// A fixed bearer token sent as `Authorization: Bearer <token>`.
    Bearer,
    /// A fixed value sent in an arbitrary header (defaults to `X-API-Key`).
    ApiKey,
}

impl AuthKind {
    /// Every scheme, in the order `next` walks them.
    pub open spec fn order() -> Seq<AuthKind> {
        seq![AuthKind::Bearer, AuthKind::ApiKey, AuthKind::Oauth2]
    }

    pub open spec fn next_spec(self) -> AuthKind {
        match self {
            AuthKind::Bearer => AuthKind::ApiKey,
            AuthKind::ApiKey => AuthKind::Oauth2,
            AuthKind::Oauth2 => AuthKind::Bearer,
        }
    }

    pub open spec fn title_spec(self) -> Seq<char> {
        match self {
            AuthKind::Oauth2 => "oauth2"@,
            AuthKind::Bearer => "bearer"@,
            AuthKind::ApiKey => "apikey"@,
        }
    }

    pub fn all() -> (r: Vec<AuthKind>)
        ensures
            r@ == Self::order(),
    {
        vec![AuthKind::Bearer, AuthKind::ApiKey, AuthKind::Oauth2]
    }

    pub fn next(self) -> (r: Self)
        ensures
            r == self.next_spec(),
    {
        match self {
            AuthKind::Bearer => AuthKind::ApiKey,
            AuthKind::ApiKey => AuthKind::Oauth2,
            AuthKind::Oauth2 => AuthKind::Bearer,
        }
    }

    pub fn title(self) -> (r: &'static str)
        ensures
            r@ == self.title_spec(),
    {
        match self {
            AuthKind::Oauth2 => "oauth2",
            AuthKind::Bearer => "bearer",
            AuthKind::ApiKey => "apikey",
        }
    }
}

/// `next` steps through the schemes in order and wraps around.
pub proof fn lemma_auth_kind_cycle(i: int)
    requires
        0 <= i < AuthKind::order().len(),
    ensures
        AuthKind::order()[i].next_spec() == AuthKind::order()[(i + 1) % 3],
{
}

/// Header used for API-key auth when the user leaves the header name blank.
pub const DEFAULT_API_KEY_HEADER: &'static str = "X-API-Key";

/// Per-collection authentication. One struct carries every scheme's fields,
/// told apart by `kind`.
///
/// Secret-bearing fields (`token`, `client_secret`) may hold a `$(…)` command
/// substitution, resolved at send time.
#[derive(Debug, PartialEq, Eq)]
pub struct OAuthConfig {
    pub kind: AuthKind,
    /// Bearer token, or API-key value (secret; supports `$(…)`).
    pub token: String,
    /// Header name for `ApiKey` auth; empty means [`DEFAULT_API_KEY_HEADER`].
    pub header: String,
    pub token_url: String,
    pub client_id: String,
    pub client_secret: String,
    pub scopes: Vec<String>,
    pub auth_style: AuthStyle,
}

#[verifier::ext_equal]
pub struct AuthView {
    pub kind: AuthKind,
    pub token: Seq<char>,
    pub header: Seq<char>,
    pub token_url: Seq<char>,
    pub client_id: Seq<char>,
    pub client_secret: Seq<char>,
    pub scopes: Seq<Seq<char>>,
    pub auth_style: AuthStyle,
}

/// A configuration of scheme `kind` with nothing filled in.
pub open spec fn blank_auth(kind: AuthKind) -> AuthView {
    AuthView {
        kind,
        token: Seq::empty(),
        header: Seq::empty(),
        token_url: Seq::empty(),
        client_id: Seq::empty(),
        client_secret: Seq::empty(),
        scopes: Seq::empty(),
        auth_style: AuthStyle::Basic,
    }
}

impl View for OAuthConfig {
    type V = AuthView;

    open spec fn view(&self) -> AuthView {
        AuthView {
            kind: self.kind,
            token: self.token@,
            header: self.header@,
            token_url: self.token_url@,
            client_id: self.client_id@,
            client_secret: self.client_secret@,
            scopes: views(self.scopes@),
            auth_style: self.auth_style,
        }
    }
}

impl Clone for OAuthConfig {
    fn clone(&self) -> (r: Self)
        ensures
            r@ == self@,
    {
        OAuthConfig {
            kind: self.kind,
            token: self.token.clone(),
            header: self.header.clone(),
            token_url: self.token_url.clone(),
            client_id: self.client_id.clone(),
            client_secret: self.client_secret.clone(),
            scopes: clone_strings(&self.scopes),
            auth_style: self.auth_style,
        }
    }
}

impl Default for OAuthConfig {
    fn default() -> (r: Self)
        ensures
            r@ == blank_auth(AuthKind::Oauth2),
    {
        OAuthConfig::blank(AuthKind::Oauth2)
    }
}

/// The same settings, by the name of what they configure.
pub type AuthConfig = OAuthConfig;

/// Whether the active scheme has enough filled in to attempt auth.
pub open spec fn configured(a: AuthView) -> bool {
    match a.kind {
        AuthKind::Oauth2 => a.token_url.len() > 0 && a.client_id.len() > 0,
        AuthKind::Bearer | AuthKind::ApiKey => a.token.len() > 0,
    }
}

/// The header that carries an API key.
pub open spec fn key_header(a: AuthView) -> Seq<char> {
    if trim(a.header).len() == 0 {
        DEFAULT_API_KEY_HEADER@
    } else {
        trim(a.header)
    }
}

impl OAuthConfig {
    pub fn blank(kind: AuthKind) -> (r: Self)
        ensures
            r@ == blank_auth(kind),
    {
        OAuthConfig {
            kind,
            token: String::new(),
            header: String::new(),
            token_url: String::new(),
            client_id: String::new(),
            client_secret: String::new(),
            scopes: Vec::new(),
            auth_style: AuthStyle::Basic,
        }
    }

    /// Whether the active scheme has enough filled in to attempt auth.
    pub fn is_configured(&self) -> (r: bool)
        ensures
            r == configured(self@),
    {
        match self.kind {
            AuthKind::Oauth2 => !self.token_url.as_str().is_empty() && !self.client_id.as_str().is_empty(),
            AuthKind::Bearer | AuthKind::ApiKey => !self.token.as_str().is_empty(),
        }
    }

    /// The header name to carry an API key, falling back to the default.
    pub fn api_key_header(&self) -> (r: &str)
        ensures
            r@ == key_header(self@),
    {
        if trimmed(self.header.as_str()).is_empty() {
            DEFAULT_API_KEY_HEADER
        } else {
            trimmed(self.header.as_str())
        }
    }

    pub fn same(&self, other: &OAuthConfig) -> (r: bool)
        ensures
            r == (self@ == other@),
    {
        self.kind == other.kind && self.token == other.token && self.header == other.header
            && self.token_url == other.token_url && self.client_id == other.client_id
            && self.client_secret == other.client_secret && same_strings(&self.scopes, &other.scopes)
            && self.auth_style == other.auth_style
    }
}

pub fn same_strings(a: &Vec<String>, b: &Vec<String>) -> (r: bool)
    ensures
        r == (views(a@) == views(b@)),
{
    if a.len() != b.len() {
        assert(views(a@).len() != views(b@).len());
        return false;
    }
    let mut i: usize = 0;
    while i < a.len()
        invariant
            i <= a@.len(),
            a@.len() == b@.len(),
            forall|j: int| 0 <= j < i ==> a@[j]@ == b@[j]@,
        decreases a@.len() - i,
    {
        if a[i] != b[i] {
            assert(views(a@)[i as int] != views(b@)[i as int]);
            return false;
        }
        i += 1;
    }
    assert(views(a@) =~= views(b@));
    true
}

// ----- methods -----

#[derive(Debug, Clone, Copy, PartialEq, Eq, Structural)]
pub enum Method {
    Get,
    Post,
    Put,
    Patch,
    Delete,
    Head,
    Options,
}

impl Method {
    /// The verb as it stands on the wire.
    pub open spec fn verb(self) -> Seq<char> {
        match self {
            Method::Get => "GET"@,
            Method::Post => "POST"@,
            Method::Put => "PUT"@,
            Method::Patch => "PATCH"@,
            Method::Delete => "DELETE"@,
            Method::Head => "HEAD"@,
            Method::Options => "OPTIONS"@,
        }
    }

    /// The verb as an API description spells it.
    pub open spec fn key(self) -> Seq<char> {
        match self {
            Method::Get => "get"@,
            Method::Post => "post"@,
            Method::Put => "put"@,
            Method::Patch => "patch"@,
            Method::Delete => "delete"@,
            Method::Head => "head"@,
            Method::Options => "options"@,
        }
    }

    pub open spec fn next_spec(self) -> Method {
        match self {
            Method::Get => Method::Post,
            Method::Post => Method::Put,
            Method::Put => Method::Patch,
            Method::Patch => Method::Delete,
            Method::Delete => Method::Head,
            Method::Head => Method::Options,
            Method::Options => Method::Get,
        }
    }

    /// The method whose verb is `s`, small and capital letters alike.
    pub open spec fn named(s: Seq<char>) -> Option<Method> {
        let k = lower(s);
        if k == Method::Get.key() {
            Some(Method::Get)
        } else if k == Method::Post.key() {
            Some(Method::Post)
        } else if k == Method::Put.key() {
            Some(Method::Put)
        } else if k == Method::Patch.key() {
            Some(Method::Patch)
        } else if k == Method::Delete.key() {
            Some(Method::Delete)
        } else if k == Method::Head.key() {
            Some(Method::Head)
        } else if k == Method::Options.key() {
            Some(Method::Options)
        } else {
            None
        }
    }

    /// Reads a verb in any mix of capitals and small letters.
    pub fn parse(s: &str) -> (r: Option<Self>)
        ensures
            r == Method::named(s@),
            match r {
                Some(m) => lower(s@) == m.key(),
                None => forall|m: Method| lower(s@) != #[trigger] m.key(),
            },
    {
        let t = to_lower(s);
        let v = t.as_str();
        if same(v, "get") {
            Some(Method::Get)
        } else if same(v, "post") {
            Some(Method::Post)
        } else if same(v, "put") {
            Some(Method::Put)
        } else if same(v, "patch") {
            Some(Method::Patch)
        } else if same(v, "delete") {
            Some(Method::Delete)
        } else if same(v, "head") {
            Some(Method::Head)
        } else if same(v, "options") {
            Some(Method::Options)
        } else {
            None
        }
    }

    pub fn as_str(self) -> (r: &'static str)
        ensures
            r@ == self.verb(),
    {
        match self {
            Method::Get => "GET",
            Method::Post => "POST",
            Method::Put => "PUT",
            Method::Patch => "PATCH",
            Method::Delete => "DELETE",
            Method::Head => "HEAD",
            Method::Options => "OPTIONS",
        }
    }

    /// The next verb in the editor's cycle.
    pub fn next(self) -> (r: Self)
        ensures
            r == self.next_spec(),
    {
        match self {
            Method::Get => Method::Post,
            Method::Post => Method::Put,
            Method::Put => Method::Patch,
            Method::Patch => Method::Delete,
            Method::Delete => Method::Head,
            Method::Head => Method::Options,
            Method::Options => Method::Get,
        }
    }
}

/// No two verbs share a spelling, so what `parse` reads is the only verb that
/// fits.
pub proof fn lemma_method_keys(a: Method, b: Method)
    ensures
        a.key() == b.key() ==> a == b,
{
    reveal_strlit("get");
    reveal_strlit("post");
    reveal_strlit("put");
    reveal_strlit("patch");
    reveal_strlit("delete");
    reveal_strlit("head");
    reveal_strlit("options");
    assert("get"@[0] == 'g' && "post"@[1] == 'o' && "put"@[1] == 'u' && "patch"@[1] == 'a'
        && "delete"@[0] == 'd' && "head"@[0] == 'h' && "options"@[0] == 'o' && "post"@[0] == 'p'
        && "put"@[0] == 'p' && "patch"@[0] == 'p');
}

/// `parse` reads back every verb that `as_str` writes.
pub proof fn lemma_method_round_trip(m: Method)
    ensures
        lower(m.verb()) == m.key(),
{
    reveal_strlit("get");
    reveal_strlit("post");
    reveal_strlit("put");
    reveal_strlit("patch");
    reveal_strlit("delete");
    reveal_strlit("head");
    reveal_strlit("options");
    reveal_strlit("GET");
    reveal_strlit("POST");
    reveal_strlit("PUT");
    reveal_strlit("PATCH");
    reveal_strlit("DELETE");
    reveal_strlit("HEAD");
    reveal_strlit("OPTIONS");
    assert(lower(m.verb()) =~= m.key());
}

// ----- documentation of fields -----

/// What an API description says of one input to a request: a parameter, or a
/// field of a body.
#[derive(Debug, PartialEq, Eq)]
pub struct FieldDoc {
    /// Parameter name, or dotted path for a body field (`owner.address[].zip`).
    pub name: String,
    /// `path`, `query`, `header`, `body` or `response`.
    pub location: String,
    /// Rendered type, e.g. `string(uuid)`, `integer`, `array<string>`.
    pub ty: String,
    pub required: bool,
    /// `enum` values: the options this field accepts.
    pub options: Vec<String>,
    pub description: Option<String>,
    pub default: Option<String>,
}

#[verifier::ext_equal]
pub struct FieldDocView {
    pub name: Seq<char>,
    pub location: Seq<char>,
    pub ty: Seq<char>,
    pub required: bool,
    pub options: Seq<Seq<char>>,
    pub description: Option<Seq<char>>,
    pub default: Option<Seq<char>>,
}

/// Documentation that says nothing.
pub open spec fn blank_doc() -> FieldDocView {
    FieldDocView {
        name: Seq::empty(),
        location: Seq::empty(),
        ty: Seq::empty(),
        required: false,
        options: Seq::empty(),
        description: None,
        default: None,
    }
}

impl View for FieldDoc {
    type V = FieldDocView;

    open spec fn view(&self) -> FieldDocView {
        FieldDocView {
            name: self.name@,
            location: self.location@,
            ty: self.ty@,
            required: self.required,
            options: views(self.options@),
            description: opt(self.description),
            default: opt(self.default),
        }
    }
}

pub fn clone_text(o: &Option<String>) -> (r: Option<String>)
    ensures
        opt(r) == opt(*o),
{
    match o {
        Some(s) => Some(s.clone()),
        None => None,
    }
}

impl Clone for FieldDoc {
    fn clone(&self) -> (r: Self)
        ensures
            r@ == self@,
    {
        FieldDoc {
            name: self.name.clone(),
            location: self.location.clone(),
            ty: self.ty.clone(),
            required: self.required,
            options: clone_strings(&self.options),
            description: clone_text(&self.description),
            default: clone_text(&self.default),
        }
    }
}

impl Default for FieldDoc {
    fn default() -> (r: Self)
        ensures
            r@ == blank_doc(),
    {
        FieldDoc {
            name: String::new(),
            location: String::new(),
            ty: String::new(),
            required: false,
            options: Vec::new(),
            description: None,
            default: None,
        }
    }
}

pub fn clone_docs(docs: &Vec<FieldDoc>) -> (r: Vec<FieldDoc>)
    ensures
        views(r@) == views(docs@),
{
    let mut out: Vec<FieldDoc> = Vec::new();
    let mut i: usize = 0;
    while i < docs.len()
        invariant
            i <= docs@.len(),
            views(out@) == views(docs@).take(i as int),
        decreases docs@.len() - i,
    {
        out.push(docs[i].clone());
        i += 1;
        assert(views(out@) =~= views(docs@).take(i as int));
    }
    assert(views(out@) =~= views(docs@));
    out
}

// ----- labels -----

/// How the sidebar labels a request. Names taken from an API description are
/// often long and unreadable, so the label is independent of the stored name.
#[derive(Debug, Clone, Copy, PartialEq, Eq, Structural)]
pub enum LabelMode {
    /// The request's `name` (renameable with `r`).
    Name,
    /// The request's `summary`, falling back to `name`.
    Summary,
    /// The path template, e.g. `/pets/{petId}`.
    Path,
}

impl LabelMode {
    pub open spec fn next_spec(self) -> LabelMode {
        match self {
            LabelMode::Name => LabelMode::Summary,
            LabelMode::Summary => LabelMode::Path,
            LabelMode::Path => LabelMode::Name,
        }
    }

    pub open spec fn title_spec(self) -> Seq<char> {
        match self {
            LabelMode::Name => "name"@,
            LabelMode::Summary => "summary"@,
            LabelMode::Path => "path"@,
        }
    }

    pub fn next(self) -> (r: Self)
        ensures
            r == self.next_spec(),
    {
        match self {
            LabelMode::Name => LabelMode::Summary,
            LabelMode::Summary => LabelMode::Path,
            LabelMode::Path => LabelMode::Name,
        }
    }

    pub fn title(self) -> (r: &'static str)
        ensures
            r@ == self.title_spec(),
    {
        match self {
            LabelMode::Name => "name",
            LabelMode::Summary => "summary",
            LabelMode::Path => "path",
        }
    }
}

// ----- requests -----

#[derive(Debug, PartialEq, Eq)]
pub struct SavedRequest {
    /// A version 4 UUID.
    pub id: u128,
    pub name: String,
    /// One-line description of the operation, kept so the sidebar can label
    /// requests by it without destroying a user-chosen `name`.
    pub summary: Option<String>,
    /// The operation's identifier, kept for the same reason.
    pub operation_id: Option<String>,
    /// Longer description, shown in the Docs tab.
    pub description: Option<String>,
    /// Types, enums and descriptions for params and body fields (Docs tab).
    /// Empty for hand-made requests.
    pub docs: Vec<FieldDoc>,
    pub method: Method,
    /// Path template, may contain `{param}` placeholders and `{{variables}}`.
    pub path: String,
    pub path_params: Vec<KeyValueRow>,
    pub query: Vec<KeyValueRow>,
    pub headers: Vec<KeyValueRow>,
    pub body: Option<String>,
    pub tags: Vec<String>,
}

#[verifier::ext_equal]
pub struct RequestView {
    pub id: u128,
    pub name: Seq<char>,
    pub summary: Option<Seq<char>>,
    pub operation_id: Option<Seq<char>>,
    pub description: Option<Seq<char>>,
    pub docs: Seq<FieldDocView>,
    pub method: Method,
    pub path: Seq<char>,
    pub path_params: Seq<RowView>,
    pub query: Seq<RowView>,
    pub headers: Seq<RowView>,
    pub body: Option<Seq<char>>,
    pub tags: Seq<Seq<char>>,
}

impl View for SavedRequest {
    type V = RequestView;

    open spec fn view(&self) -> RequestView {
        RequestView {
            id: self.id,
            name: self.name@,
            summary: opt(self.summary),
            operation_id: opt(self.operation_id),
            description: opt(self.description),
            docs: views(self.docs@),
            method: self.method,
            path: self.path@,
            path_params: views(self.path_params@),
            query: views(self.query@),
            headers: views(self.headers@),
            body: opt(self.body),
            tags: views(self.tags@),
        }
    }
}

impl Clone for SavedRequest {
    fn clone(&self) -> (r: Self)
        ensures
            r@ == self@,
    {
        SavedRequest {
            id: self.id,
            name: self.name.clone(),
            summary: clone_text(&self.summary),
            operation_id: clone_text(&self.operation_id),
            description: clone_text(&self.description),
            docs: clone_docs(&self.docs),
            method: self.method,
            path: self.path.clone(),
            path_params: clone_rows(&self.path_params),
            query: clone_rows(&self.query),
            headers: clone_rows(&self.headers),
            body: clone_text(&self.body),
            tags: clone_strings(&self.tags),
        }
    }
}

/// A request called `name` with nothing else filled in: `GET /`.
pub open spec fn blank_request(name: Seq<char>, id: u128) -> RequestView {
    RequestView {
        id,
        name,
        summary: None,
        operation_id: None,
        description: None,
        docs: Seq::empty(),
        method: Method::Get,
        path: "/"@,
        path_params: Seq::empty(),
        query: Seq::empty(),
        headers: Seq::empty(),
        body: None,
        tags: Seq::empty(),
    }
}

/// The first row with the given key.
pub open spec fn row_named(rows: Seq<RowView>, key: Seq<char>) -> Option<RowView>
    decreases rows.len(),
{
    if rows.len() == 0 {
        None
    } else if rows[0].key == key {
        Some(rows[0])
    } else {
        row_named(rows.skip(1), key)
    }
}

/// One row per name: the existing row of that name, or a new empty one.
pub open spec fn rows_for(names: Seq<Seq<char>>, rows: Seq<RowView>) -> Seq<RowView> {
    Seq::new(
        names.len(),
        |i: int|
            match row_named(rows, names[i]) {
                Some(r) => r,
                None => RowView { key: names[i], value: Seq::empty(), enabled: true },
            },
    )
}

/// The path-parameter rows that belong to `r.path`.
pub open spec fn synced_params(r: RequestView) -> Seq<RowView> {
    rows_for(placeholders(r.path), r.path_params)
}

/// Text of the sidebar label; never blank while the request has a name or path.
pub open spec fn label_of(r: RequestView, mode: LabelMode) -> Seq<char> {
    let candidate = match mode {
        LabelMode::Name => r.name,
        LabelMode::Summary => match r.summary {
            Some(s) => s,
            None => Seq::empty(),
        },
        LabelMode::Path => r.path,
    };
    if candidate.len() > 0 {
        candidate
    } else if r.name.len() == 0 {
        r.path
    } else {
        r.name
    }
}

pub open spec fn text_or_empty(o: Option<Seq<char>>) -> Seq<char> {
    match o {
        Some(s) => s,
        None => Seq::empty(),
    }
}

/// Whether `needle` occurs in the request's name, path, summary, operation
/// identifier, verb or one of its tags, small and capital letters alike.
pub open spec fn request_matches(r: RequestView, needle: Seq<char>) -> bool {
    let n = lower(needle);
    ||| contains(lower(r.name), n)
    ||| contains(lower(r.path), n)
    ||| contains(lower(text_or_empty(r.summary)), n)
    ||| contains(lower(text_or_empty(r.operation_id)), n)
    ||| contains(lower(r.method.verb()), n)
    ||| exists|i: int| 0 <= i < r.tags.len() && contains(lower(#[trigger] r.tags[i]), n)
}

fn has_lower(field: &str, needle: &str) -> (r: bool)
    ensures
        r == contains(lower(field@), needle@),
{
    has(to_lower(field).as_str(), needle)
}

fn text_of(o: &Option<String>) -> (r: &str)
    ensures
        r@ == text_or_empty(opt(*o)),
{
    match o {
        Some(s) => s.as_str(),
        None => {
            proof {
                reveal_strlit("");
                assert(""@ =~= Seq::<char>::empty());
            }
            ""
        },
    }
}

impl SavedRequest {
    /// `GET /` under a fresh identifier.
    pub fn blank(name: &str) -> (r: Self)
        ensures
            r@ == blank_request(name@, r.id),
            crate::ids::is_v4(r.id),
    {
        SavedRequest::with_id(name, new_v4())
    }

    pub fn with_id(name: &str, id: u128) -> (r: Self)
        ensures
            r@ == blank_request(name@, id),
    {
        SavedRequest {
            id,
            name: name.to_owned(),
            summary: None,
            operation_id: None,
            description: None,
            docs: Vec::new(),
            method: Method::Get,
            path: "/".to_owned(),
            path_params: Vec::new(),
            query: Vec::new(),
            headers: Vec::new(),
            body: None,
            tags: Vec::new(),
        }
    }

    fn param_row(&self, name: &str) -> (r: KeyValueRow)
        ensures
            r@ == (match row_named(views(self.path_params@), name@) {
                Some(x) => x,
                None => RowView { key: name@, value: Seq::empty(), enabled: true },
            }),
    {
        let ghost all = views(self.path_params@);
        let mut i: usize = 0;
        assert(all.skip(0) =~= all);
        while i < self.path_params.len()
            invariant
                i <= self.path_params@.len(),
                all == views(self.path_params@),
                row_named(all, name@) == row_named(all.skip(i as int), name@),
            decreases self.path_params@.len() - i,
        {
            if same(self.path_params[i].key.as_str(), name) {
                return self.path_params[i].clone();
            }
            assert(all.skip(i as int).skip(1) =~= all.skip(i + 1));
            i += 1;
        }
        proof {
            reveal_strlit("");
            assert(""@ =~= Seq::<char>::empty());
        }
        KeyValueRow::new(name, "", true)
    }

    /// Rewrite `path_params` to hold exactly one row per `{placeholder}` in
    /// `path`, in path order. Surviving rows keep their value and `enabled`
    /// flag; rows whose placeholder is gone are dropped. Returns whether
    /// anything changed.
    pub fn sync_path_params(&mut self) -> (changed: bool)
        ensures
            final(self)@ == (RequestView { path_params: synced_params(old(self)@), ..old(self)@ }),
            changed == (synced_params(old(self)@) != old(self)@.path_params),
    {
        let names = path_placeholders(self.path.as_str());
        let mut synced: Vec<KeyValueRow> = Vec::new();
        let mut i: usize = 0;
        let ghost goal = synced_params(self@);
        while i < names.len()
            invariant
                i <= names@.len(),
                *self == *old(self),
                views(names@) == placeholders(self@.path),
                goal == synced_params(self@),
                views(synced@) == goal.take(i as int),
            decreases names@.len() - i,
        {
            let row = self.param_row(names[i].as_str());
            synced.push(row);
            assert(views(names@)[i as int] == names@[i as int]@);
            i += 1;
            assert(views(synced@) =~= goal.take(i as int));
        }
        assert(goal.take(names@.len() as int) =~= goal);
        let changed = !same_rows(&synced, &self.path_params);
        if changed {
            self.path_params = synced;
        }
        changed
    }

    /// Sidebar label under the collection's current [`LabelMode`]. Every mode
    /// falls back to something non-empty so rows are never blank.
    pub fn label(&self, mode: LabelMode) -> (r: &str)
        ensures
            r@ == label_of(self@, mode),
    {
        let candidate: &str = match mode {
            LabelMode::Name => self.name.as_str(),
            LabelMode::Summary => text_of(&self.summary),
            LabelMode::Path => self.path.as_str(),
        };
        if !candidate.is_empty() {
            candidate
        } else if self.name.as_str().is_empty() {
            self.path.as_str()
        } else {
            self.name.as_str()
        }
    }

    /// Sidebar search: label fields plus method and tags.
    pub fn matches(&self, needle: &str) -> (r: bool)
        ensures
            r == request_matches(self@, needle@),
    {
        let lowered = to_lower(needle);
        let n = lowered.as_str();
        if has_lower(self.name.as_str(), n) || has_lower(self.path.as_str(), n) || has_lower(
            text_of(&self.summary),
            n,
        ) || has_lower(text_of(&self.operation_id), n) || has_lower(self.method.as_str(), n) {
            return true;
        }
        let mut i: usize = 0;
        while i < self.tags.len()
            invariant
                i <= self.tags@.len(),
                n@ == lower(needle@),
                forall|j: int|
                    0 <= j < i ==> !contains(lower(#[trigger] self@.tags[j]), lower(needle@)),
            decreases self.tags@.len() - i,
        {
            if has_lower(self.tags[i].as_str(), n) {
                assert(contains(lower(self@.tags[i as int]), lower(needle@)));
                return true;
            }
            i += 1;
        }
        false
    }
}

proof fn lemma_row_named(rows: Seq<RowView>, key: Seq<char>)
    ensures
        match row_named(rows, key) {
            Some(r) => r.key == key && rows.contains(r),
            None => forall|i: int| 0 <= i < rows.len() ==> #[trigger] rows[i].key != key,
        },
    decreases rows.len(),
{
    if rows.len() > 0 && rows[0].key != key {
        let t = rows.skip(1);
        lemma_row_named(t, key);
        match row_named(t, key) {
            Some(r) => {
                let i = choose|i: int| 0 <= i < t.len() && t[i] == r;
                assert(rows[i + 1] == r);
            },
            None => {
                assert forall|i: int| 0 <= i < rows.len() implies #[trigger] rows[i].key != key by {
                    if i > 0 {
                        assert(t[i - 1].key != key);
                    }
                }
            },
        }
    } else if rows.len() > 0 {
        assert(rows[0].key == key);
    }
}

/// Where keys are distinct, looking a row up by the key at `i` gives row `i`.
proof fn lemma_row_named_at(rows: Seq<RowView>, i: int)
    requires
        0 <= i < rows.len(),
        forall|j: int, k: int|
            0 <= j < k < rows.len() ==> #[trigger] rows[j].key != #[trigger] rows[k].key,
    ensures
        row_named(rows, rows[i].key) == Some(rows[i]),
    decreases rows.len(),
{
    if i > 0 {
        assert(rows[0].key != rows[i].key);
        assert(rows.skip(1)[i - 1] == rows[i]);
        lemma_row_named_at(rows.skip(1), i - 1);
    }
}

/// Synchronising twice is the same as synchronising once, and afterwards the
/// rows are exactly the placeholders of the path, in order.
pub proof fn lemma_sync_idempotent(r: RequestView)
    ensures
        ({
            let once = RequestView { path_params: synced_params(r), ..r };
            &&& synced_params(once) == once.path_params
            &&& once.path_params.len() == placeholders(r.path).len()
            &&& forall|i: int|
                0 <= i < once.path_params.len() ==> (#[trigger] once.path_params[i]).key == placeholders(
                    r.path,
                )[i]
        }),
{
    let once = RequestView { path_params: synced_params(r), ..r };
    let names = placeholders(r.path);
    lemma_placeholders(r.path);
    assert forall|i: int| 0 <= i < names.len() implies (#[trigger] once.path_params[i]).key
        == names[i] by {
        lemma_row_named(r.path_params, names[i]);
    }
    assert forall|i: int| 0 <= i < names.len() implies synced_params(once)[i]
        == once.path_params[i] by {
        assert forall|j: int, k: int| 0 <= j < k < once.path_params.len() implies (
        #[trigger] once.path_params[j]).key != (#[trigger] once.path_params[k]).key by {
            assert(names[j] != names[k]);
        }
        lemma_row_named_at(once.path_params, i);
    }
    assert(synced_params(once) =~= once.path_params);
}

/// A row whose placeholder is still in the path keeps its value and flag.
pub proof fn lemma_sync_keeps_rows(r: RequestView, key: Seq<char>)
    requires
        placeholders(r.path).contains(key),
    ensures
        match row_named(r.path_params, key) {
            Some(row) => synced_params(r).contains(row),
            None => synced_params(r).contains(
                RowView { key, value: Seq::empty(), enabled: true },
            ),
        },
{
    let names = placeholders(r.path);
    let i = choose|i: int| 0 <= i < names.len() && names[i] == key;
    assert(synced_params(r)[i] == synced_params(r)[i]);
}

/// A label is blank only when both the name and the path are.
pub proof fn lemma_label_not_blank(r: RequestView, mode: LabelMode)
    ensures
        label_of(r, mode).len() == 0 ==> r.name.len() == 0 && r.path.len() == 0,
{
}

// ----- collections -----

#[derive(Debug)]
pub struct Collection {
    pub name: String,
    /// Path or URL the collection was imported from, if any.
    pub spec_source: Option<String>,
    pub servers: Vec<String>,
    pub active_server: usize,
    pub variables: Variables,
    pub auth: Option<OAuthConfig>,
    /// How the sidebar labels requests; persisted with the collection.
    pub label_mode: LabelMode,
    /// Whether tag groups start collapsed when the collection is opened.
    pub groups_collapsed: bool,
    /// The request that was open the last time the collection was saved.
    pub last_request: Option<u128>,
    /// Pane (`1`/`2`/`3`) that had focus at the last save.
    pub last_focus: Option<Focus>,
    /// Editor tab that was open at the last save.
    pub last_tab: Option<EditorTab>,
    pub requests: Vec<SavedRequest>,
}

#[verifier::ext_equal]
pub struct CollectionView {
    pub name: Seq<char>,
    pub spec_source: Option<Seq<char>>,
    pub servers: Seq<Seq<char>>,
    pub active_server: usize,
    pub variables: Seq<RowView>,
    pub auth: Option<AuthView>,
    pub label_mode: LabelMode,
    pub groups_collapsed: bool,
    pub last_request: Option<u128>,
    pub last_focus: Option<Focus>,
    pub last_tab: Option<EditorTab>,
    pub requests: Seq<RequestView>,
}

impl View for Collection {
    type V = CollectionView;

    open spec fn view(&self) -> CollectionView {
        CollectionView {
            name: self.name@,
            spec_source: opt(self.spec_source),
            servers: views(self.servers@),
            active_server: self.active_server,
            variables: views(self.variables@),
            auth: opt(self.auth),
            label_mode: self.label_mode,
            groups_collapsed: self.groups_collapsed,
            last_request: self.last_request,
            last_focus: self.last_focus,
            last_tab: self.last_tab,
            requests: views(self.requests@),
        }
    }
}

pub open spec fn blank_collection(name: Seq<char>) -> CollectionView {
    CollectionView {
        name,
        spec_source: None,
        servers: Seq::empty(),
        active_server: 0,
        variables: Seq::empty(),
        auth: None,
        label_mode: LabelMode::Name,
        groups_collapsed: false,
        last_request: None,
        last_focus: None,
        last_tab: None,
        requests: Seq::empty(),
    }
}

/// The active server, if the index points at one.
pub open spec fn active_base(c: CollectionView) -> Option<Seq<char>> {
    if c.active_server < c.servers.len() {
        Some(c.servers[c.active_server as int])
    } else {
        None
    }
}

pub fn clone_requests(v: &Vec<SavedRequest>) -> (r: Vec<SavedRequest>)
    ensures
        views(r@) == views(v@),
{
    let mut out: Vec<SavedRequest> = Vec::new();
    let mut i: usize = 0;
    while i < v.len()
        invariant
            i <= v@.len(),
            views(out@) == views(v@).take(i as int),
        decreases v@.len() - i,
    {
        out.push(v[i].clone());
        i += 1;
        assert(views(out@) =~= views(v@).take(i as int));
    }
    assert(views(out@) =~= views(v@));
    out
}

impl Clone for Collection {
    fn clone(&self) -> (r: Self)
        ensures
            r@ == self@,
    {
        Collection {
            name: self.name.clone(),
            spec_source: clone_text(&self.spec_source),
            servers: clone_strings(&self.servers),
            active_server: self.active_server,
            variables: clone_rows(&self.variables),
            auth: match &self.auth {
                Some(a) => Some(a.clone()),
                None => None,
            },
            label_mode: self.label_mode,
            groups_collapsed: self.groups_collapsed,
            last_request: self.last_request,
            last_focus: self.last_focus,
            last_tab: self.last_tab,
            requests: clone_requests(&self.requests),
        }
    }
}

impl Collection {
    pub fn new(name: &str) -> (r: Self)
        ensures
            r@ == blank_collection(name@),
    {
        Collection {
            name: name.to_owned(),
            spec_source: None,
            servers: Vec::new(),
            active_server: 0,
            variables: Vec::new(),
            auth: None,
            label_mode: LabelMode::Name,
            groups_collapsed: false,
            last_request: None,
            last_focus: None,
            last_tab: None,
            requests: Vec::new(),
        }
    }

    pub fn base_url(&self) -> (r: Option<&str>)
        ensures
            match r {
                Some(s) => active_base(self@) == Some(s@),
                None => active_base(self@) is None,
            },
    {
        if self.active_server < self.servers.len() {
            Some(self.servers[self.active_server].as_str())
        } else {
            None
        }
    }

    /// Take the routes from a freshly imported collection, overwriting this
    /// collection's `requests` while leaving auth, variables, servers, active
    /// server and view state as they were. `last_request` is dropped because
    /// import mints new request ids, so an old pointer would dangle.
    pub fn replace_requests_from(&mut self, imported: Collection)
        ensures
            final(self)@ == (CollectionView {
                requests: imported@.requests,
                last_request: None,
                ..old(self)@
            }),
    {
        self.requests = imported.requests;
        self.last_request = None;
    }
}

} // verus!
