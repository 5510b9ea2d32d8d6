//! Where collections are kept and how a typed name finds a saved one.

use vstd::prelude::*;

use crate::model::{clone_text, contains_string};
use crate::text::{
    alnum, cat, chars, debug_text, group_views, is_alnum, join, join_strings, lower_char, opt, quoted,
    split_words, string_of, to_lower_char, trim_end_char, views, without_trailing, words,
};

verus! {

broadcast use group_views;

// ----- slugs -----

/// A slug in the making, with one more character of the name: letters and
/// digits in small letters, every run of anything else as one dash.
pub open spec fn slug_step(slug: Seq<char>, c: char) -> Seq<char> {
    if is_alnum(c) {
        slug.push(lower_char(c))
    } else if slug.len() > 0 && slug.last() != '-' {
        slug.push('-')
    } else {
        slug
    }
}

pub open spec fn slug_of(name: Seq<char>) -> Seq<char>
    decreases name.len(),
{
    if name.len() == 0 {
        Seq::empty()
    } else {
        slug_step(slug_of(name.drop_last()), name.last())
    }
}

/// Filesystem-safe slug for a collection name.
pub open spec fn slug(name: Seq<char>) -> Seq<char> {
    let s = trim_end_char(slug_of(name), '-');
    if s.len() == 0 {
        "collection"@
    } else {
        s
    }
}

/// Filesystem-safe slug for a collection name.
pub fn slugify(name: &str) -> (r: String)
    ensures
        r@ == slug(name@),
{
    let c = chars(name);
    let mut v: Vec<char> = Vec::new();
    let mut i: usize = 0;
    while i < c.len()
        invariant
            i <= c@.len(),
            c@ == name@,
            v@ == slug_of(name@.take(i as int)),
        decreases c@.len() - i,
    {
        assert(name@.take(i + 1).drop_last() =~= name@.take(i as int));
        if alnum(c[i]) {
            v.push(to_lower_char(c[i]));
        } else if v.len() > 0 && v[v.len() - 1] != '-' {
            v.push('-');
        }
        i += 1;
    }
    assert(name@.take(name@.len() as int) =~= name@);
    let s = string_of(v.as_slice());
    let t = without_trailing(s.as_str(), '-');
    if t.is_empty() {
        "collection".to_owned()
    } else {
        t.to_owned()
    }
}

/// Small letters, digits and single dashes between them.
pub open spec fn is_slug(s: Seq<char>) -> bool {
    &&& s.len() > 0
    &&& s[0] != '-'
    &&& s.last() != '-'
    &&& forall|i: int| 0 <= i < s.len() ==> slug_char(#[trigger] s[i])
    &&& forall|i: int| 0 < i < s.len() ==> !(s[i - 1] == '-' && #[trigger] s[i] == '-')
}

pub open spec fn slug_char(c: char) -> bool {
    'a' <= c <= 'z' || '0' <= c <= '9' || c == '-'
}

/// What `slug_of` holds on the way: a slug, possibly with a dash at its end.
spec fn partial_slug(s: Seq<char>) -> bool {
    &&& s.len() > 0 ==> s[0] != '-'
    &&& forall|i: int| 0 <= i < s.len() ==> slug_char(#[trigger] s[i])
    &&& forall|i: int| 0 < i < s.len() ==> !(s[i - 1] == '-' && #[trigger] s[i] == '-')
}

proof fn lemma_partial_slug(name: Seq<char>)
    ensures
        partial_slug(slug_of(name)),
    decreases name.len(),
{
    if name.len() > 0 {
        lemma_partial_slug(name.drop_last());
        let p = slug_of(name.drop_last());
        let s = slug_step(p, name.last());
        assert forall|i: int| 0 <= i < s.len() implies slug_char(#[trigger] s[i]) by {
            if i < p.len() {
                assert(s[i] == p[i]);
            }
        }
        assert forall|i: int| 0 < i < s.len() implies !(s[i - 1] == '-' && #[trigger] s[i] == '-') by {
            if i < p.len() {
                assert(s[i] == p[i]);
            }
        }
    }
}

/// A slug holds nothing but small letters, digits and single dashes between
/// them, and is never empty.
pub proof fn lemma_slug_is_safe(name: Seq<char>)
    ensures
        is_slug(slug(name)),
{
    lemma_partial_slug(name);
    let p = slug_of(name);
    let s = trim_end_char(p, '-');
    if p.len() > 0 && p.last() == '-' {
        let q = p.drop_last();
        assert(q.len() > 0 ==> q.last() != '-') by {
            if q.len() > 0 {
                assert(p[p.len() - 1] == '-');
            }
        }
        assert(trim_end_char(q, '-') == q);
        assert(s =~= q);
        assert forall|i: int| 0 <= i < s.len() implies slug_char(#[trigger] s[i]) by {
            assert(s[i] == p[i]);
        }
        assert forall|i: int| 0 < i < s.len() implies !(s[i - 1] == '-' && #[trigger] s[i] == '-') by {
            assert(s[i] == p[i]);
        }
    }
    if s.len() == 0 {
        reveal_strlit("collection");
        let c = "collection"@;
        assert(forall|i: int| 0 <= i < c.len() ==> 'a' <= #[trigger] c[i] <= 'z');
    }
}

proof fn lemma_slug_of_prefix(s: Seq<char>, n: int)
    requires
        is_slug(s),
        0 <= n <= s.len(),
    ensures
        slug_of(s.take(n)) == s.take(n),
    decreases n,
{
    if n > 0 {
        lemma_slug_of_prefix(s, n - 1);
        assert(s.take(n).drop_last() =~= s.take(n - 1));
        let c = s[n - 1];
        assert(slug_char(c));
        if n >= 2 {
            assert(!(s[n - 2] == '-' && s[n - 1] == '-'));
        }
        assert(slug_step(s.take(n - 1), c) =~= s.take(n));
    } else {
        assert(s.take(0) =~= Seq::empty());
    }
}

/// A slug is its own slug, so a collection can be named by it.
pub proof fn lemma_slug_idempotent(name: Seq<char>)
    ensures
        slug(slug(name)) == slug(name),
{
    lemma_slug_is_safe(name);
    let s = slug(name);
    lemma_slug_of_prefix(s, s.len() as int);
    assert(s.take(s.len() as int) =~= s);
}

// ----- places -----

/// `~/.config/cielago`, on every platform, with one slash behind the home
/// directory however that is written.
pub open spec fn config_dir_of(home: Seq<char>) -> Seq<char> {
    trim_end_char(home, '/') + "/.config/cielago"@
}

pub fn config_dir(home: &str) -> (r: String)
    ensures
        r@ == config_dir_of(home@),
{
    cat(without_trailing(home, '/'), "/.config/cielago")
}

/// Directories under `~/.config` that hold collections from when the program
/// had another name, newest first.
pub fn legacy_dir_names() -> (r: Vec<&'static str>)
    ensures
        r@ == seq!["manpost", "stableman", "getman"],
{
    let r = vec!["manpost", "stableman", "getman"];
    assert(r@ =~= seq!["manpost", "stableman", "getman"]);
    r
}

pub open spec fn collections_dir_of(home: Seq<char>) -> Seq<char> {
    config_dir_of(home) + "/collections"@
}

pub fn collections_dir(home: &str) -> (r: String)
    ensures
        r@ == collections_dir_of(home@),
{
    cat(config_dir(home).as_str(), "/collections")
}

/// The file a collection is kept in.
pub open spec fn collection_path_of(home: Seq<char>, name: Seq<char>) -> Seq<char> {
    collections_dir_of(home) + "/"@ + slug(name) + ".json"@
}

pub fn collection_path(home: &str, name: &str) -> (r: String)
    ensures
        r@ == collection_path_of(home@, name@),
{
    let mut p = collections_dir(home);
    p.append("/");
    p.append(slugify(name).as_str());
    p.append(".json");
    p
}

/// Collections whose names have the same slug share a file, and no others do.
pub proof fn lemma_same_file_iff_same_slug(home: Seq<char>, a: Seq<char>, b: Seq<char>)
    ensures
        collection_path_of(home, a) == collection_path_of(home, b) <==> slug(a) == slug(b),
{
    let dir = collections_dir_of(home) + "/"@;
    let pa = collection_path_of(home, a);
    let pb = collection_path_of(home, b);
    let n = dir.len() as int;
    let m = ".json"@.len() as int;
    assert(pa.subrange(n, pa.len() - m) =~= slug(a));
    assert(pb.subrange(n, pb.len() - m) =~= slug(b));
}

// ----- finding a saved collection -----

/// The first of `names` with the slug `s`.
pub open spec fn slug_match(names: Seq<Seq<char>>, s: Seq<char>) -> Option<Seq<char>>
    decreases names.len(),
{
    if names.len() == 0 {
        None
    } else if slug(names[0]) == s {
        Some(names[0])
    } else {
        slug_match(names.skip(1), s)
    }
}

/// The saved name a typed one refers to: an exact match first, then any name
/// with the same slug.
pub open spec fn matched(names: Seq<Seq<char>>, input: Seq<char>) -> Option<Seq<char>> {
    if names.contains(input) {
        Some(input)
    } else {
        slug_match(names, slug(input))
    }
}

/// Pick the saved name a typed one refers to: exact match first, then any name
/// with the same slug (which is what the file is named after anyway).
pub fn match_name(names: &Vec<String>, input: &str) -> (r: Option<String>)
    ensures
        opt(r) == matched(views(names@), input@),
{
    if contains_string(names, input) {
        return Some(input.to_owned());
    }
    let wanted = slugify(input);
    let ghost all = views(names@);
    let mut i: usize = 0;
    assert(all.skip(0) =~= all);
    while i < names.len()
        invariant
            i <= names@.len(),
            all == views(names@),
            wanted@ == slug(input@),
            !all.contains(input@),
            slug_match(all, wanted@) == slug_match(all.skip(i as int), wanted@),
        decreases names@.len() - i,
    {
        assert(all.skip(i as int)[0] == names@[i as int]@);
        if slugify(names[i].as_str()) == wanted {
            return Some(names[i].clone());
        }
        assert(all.skip(i as int).skip(1) =~= all.skip(i + 1));
        i += 1;
    }
    None
}

pub open spec fn nothing_saved() -> Seq<char> {
    "No collections yet. Import one:\n\n  cielago import <spec.json|yaml|url>\n\nOr create an empty one:\n\n  cielago new <name>"@
}

/// The message for a name that matches nothing.
pub open spec fn not_found(names: Seq<Seq<char>>, name: Seq<char>) -> Seq<char> {
    if names.len() == 0 {
        nothing_saved()
    } else {
        "No collection named "@ + debug_text(name) + ".\n\nAvailable: "@ + join(names, ", "@)
    }
}

/// Resolve a typed collection name onto a saved one. Exact matches win;
/// otherwise anything that slugifies the same does, so `some api` finds
/// `Some API`.
pub fn resolve_collection(names: &Vec<String>, name: &str) -> (r: Result<String, String>)
    ensures
        match matched(views(names@), name@) {
            Some(found) => r matches Ok(n) && n@ == found,
            None => r matches Err(m) && m@ == not_found(views(names@), name@),
        },
{
    match match_name(names, name) {
        Some(found) => Ok(found),
        None => {
            if names.len() == 0 {
                return Err(
                    "No collections yet. Import one:\n\n  cielago import <spec.json|yaml|url>\n\nOr create an empty one:\n\n  cielago new <name>".to_owned(),
                );
            }
            let mut m = "No collection named ".to_owned();
            m.append(quoted(name).as_str());
            m.append(".\n\nAvailable: ");
            m.append(join_strings(names, ", ").as_str());
            Err(m)
        },
    }
}

/// Every saved name is found under itself, and under anything with its slug
/// unless a name before it has that slug too.
pub proof fn lemma_names_match_loosely(names: Seq<Seq<char>>, name: Seq<char>, typed: Seq<char>)
    requires
        names.contains(name),
    ensures
        matched(names, name) == Some(name),
        slug(typed) == slug(name) ==> matched(names, typed) is Some && slug(
            matched(names, typed)->0,
        ) == slug(name),
{
    if slug(typed) == slug(name) && !names.contains(typed) {
        let i = choose|i: int| 0 <= i < names.len() && names[i] == name;
        lemma_slug_match(names, slug(name), i);
    }
}

proof fn lemma_slug_match(names: Seq<Seq<char>>, s: Seq<char>, i: int)
    requires
        0 <= i < names.len(),
        slug(names[i]) == s,
    ensures
        slug_match(names, s) is Some,
        slug(slug_match(names, s)->0) == s,
    decreases names.len(),
{
    if slug(names[0]) != s {
        assert(names.skip(1)[i - 1] == names[i]);
        lemma_slug_match(names.skip(1), s, i - 1);
    }
}

// ----- ordering names -----

/// Whether `a` sorts before `b` or is the same.
pub open spec fn sorts_before(a: Seq<char>, b: Seq<char>) -> bool
    decreases a.len(),
{
    if a.len() == 0 {
        true
    } else if b.len() == 0 {
        false
    } else if a[0] == b[0] {
        sorts_before(a.skip(1), b.skip(1))
    } else {
        a[0] < b[0]
    }
}

pub fn in_order(a: &str, b: &str) -> (r: bool)
    ensures
        r == sorts_before(a@, b@),
{
    let x = chars(a);
    let y = chars(b);
    let mut i: usize = 0;
    assert(a@.skip(0) =~= a@);
    assert(b@.skip(0) =~= b@);
    while i < x.len() && i < y.len() && x[i] == y[i]
        invariant
            i <= x@.len(),
            i <= y@.len(),
            x@ == a@,
            y@ == b@,
            sorts_before(a@, b@) == sorts_before(a@.skip(i as int), b@.skip(i as int)),
        decreases x@.len() - i,
    {
        assert(a@.skip(i as int).skip(1) =~= a@.skip(i + 1));
        assert(b@.skip(i as int).skip(1) =~= b@.skip(i + 1));
        i += 1;
    }
    if i >= x.len() {
        true
    } else if i >= y.len() {
        false
    } else {
        x[i] < y[i]
    }
}

proof fn lemma_order_total(a: Seq<char>, b: Seq<char>)
    ensures
        sorts_before(a, b) || sorts_before(b, a),
    decreases a.len(),
{
    if a.len() > 0 && b.len() > 0 && a[0] == b[0] {
        lemma_order_total(a.skip(1), b.skip(1));
    }
}

proof fn lemma_order_transitive(a: Seq<char>, b: Seq<char>, c: Seq<char>)
    requires
        sorts_before(a, b),
        sorts_before(b, c),
    ensures
        sorts_before(a, c),
    decreases a.len(),
{
    if a.len() > 0 && b.len() > 0 && c.len() > 0 && a[0] == b[0] && b[0] == c[0] {
        lemma_order_transitive(a.skip(1), b.skip(1), c.skip(1));
    }
}

pub open spec fn ordered(names: Seq<Seq<char>>) -> bool {
    forall|i: int, j: int|
        0 <= i <= j < names.len() ==> sorts_before(#[trigger] names[i], #[trigger] names[j])
}

fn insert_name(sorted: &mut Vec<String>, name: String)
    requires
        ordered(views(old(sorted)@)),
    ensures
        ordered(views(final(sorted)@)),
        views(final(sorted)@).to_multiset() == views(old(sorted)@).to_multiset().insert(name@),
{
    let ghost all = views(sorted@);
    let mut i: usize = 0;
    while i < sorted.len() && in_order(sorted[i].as_str(), name.as_str())
        invariant
            i <= sorted@.len(),
            *sorted == *old(sorted),
            all == views(sorted@),
            forall|k: int| 0 <= k < i ==> sorts_before(#[trigger] all[k], name@),
        decreases sorted@.len() - i,
    {
        assert(all[i as int] == sorted@[i as int]@);
        i += 1;
    }
    proof {
        if i < all.len() {
            assert(all[i as int] == sorted@[i as int]@);
            lemma_order_total(name@, all[i as int]);
        }
    }
    sorted.insert(i, name);
    let ghost out = views(sorted@);
    proof {
        assert(out =~= all.insert(i as int, name@));
        lemma_order_total(name@, name@);
        assert forall|j: int, k: int| 0 <= j <= k < out.len() implies sorts_before(
            #[trigger] out[j],
            #[trigger] out[k],
        ) by {
            if j < i && k > i {
                assert(sorts_before(all[j], all[k - 1]));
            } else if j < i && k < i {
                assert(sorts_before(all[j], all[k]));
            } else if j < i && k == i {
                assert(sorts_before(all[j], name@));
            } else if j == i && k > i {
                assert(sorts_before(name@, all[i as int]));
                assert(sorts_before(all[i as int], all[k - 1]));
                lemma_order_transitive(name@, all[i as int], all[k - 1]);
            } else if j > i {
                assert(sorts_before(all[j - 1], all[k - 1]));
            }
        }
        all.to_multiset_ensures();
        lemma_insert_multiset(all, i as int, name@);
    }
}

proof fn lemma_insert_multiset(s: Seq<Seq<char>>, i: int, x: Seq<char>)
    requires
        0 <= i <= s.len(),
    ensures
        s.insert(i, x).to_multiset() == s.to_multiset().insert(x),
{
    broadcast use vstd::seq_lib::group_to_multiset_ensures;

    let a = s.take(i);
    let b = s.skip(i);
    assert(s =~= a + b);
    assert(s.insert(i, x) =~= a.push(x) + b);
    vstd::seq_lib::lemma_multiset_commutative(a, b);
    vstd::seq_lib::lemma_multiset_commutative(a.push(x), b);
    assert(s.insert(i, x).to_multiset() =~= s.to_multiset().insert(x));
}

/// The same names, in order.
pub fn sorted_names(names: &Vec<String>) -> (r: Vec<String>)
    ensures
        ordered(views(r@)),
        views(r@).to_multiset() == views(names@).to_multiset(),
{
    let ghost all = views(names@);
    let mut out: Vec<String> = Vec::new();
    let mut i: usize = 0;
    proof {
        assert(all.take(0) =~= Seq::empty());
        assert(views(out@) =~= Seq::empty());
    }
    while i < names.len()
        invariant
            i <= names@.len(),
            all == views(names@),
            ordered(views(out@)),
            views(out@).to_multiset() == all.take(i as int).to_multiset(),
        decreases names@.len() - i,
    {
        insert_name(&mut out, names[i].clone());
        proof {
            broadcast use vstd::seq_lib::group_to_multiset_ensures;

            assert(all.take(i + 1) =~= all.take(i as int).push(names@[i as int]@));
        }
        i += 1;
    }
    assert(all.take(names@.len() as int) =~= all);
    out
}

// ----- settings -----

#[derive(Debug, PartialEq, Eq)]
pub struct AppConfig {
    pub last_collection: Option<String>,
    pub editor: Option<String>,
}

#[verifier::ext_equal]
pub struct ConfigView {
    pub last_collection: Option<Seq<char>>,
    pub editor: Option<Seq<char>>,
}

impl View for AppConfig {
    type V = ConfigView;

    open spec fn view(&self) -> ConfigView {
        ConfigView { last_collection: opt(self.last_collection), editor: opt(self.editor) }
    }
}

impl Clone for AppConfig {
    fn clone(&self) -> (r: Self)
        ensures
            r@ == self@,
    {
        AppConfig {
            last_collection: clone_text(&self.last_collection),
            editor: clone_text(&self.editor),
        }
    }
}

impl Default for AppConfig {
    fn default() -> (r: Self)
        ensures
            r@ == (ConfigView { last_collection: None, editor: None }),
    {
        AppConfig { last_collection: None, editor: None }
    }
}

/// The configured editor, else the one from the environment, else `vi`; `vi`
/// too where the one that counts is blank.
pub open spec fn editor_of(c: ConfigView, from_env: Option<Seq<char>>) -> Seq<char> {
    let chosen = match c.editor {
        Some(e) => Some(e),
        None => from_env,
    };
    match chosen {
        Some(e) => if e.len() > 0 {
            e
        } else {
            "vi"@
        },
        None => "vi"@,
    }
}

/// The program an editor command starts: its first word, else `vi`.
pub open spec fn program_of(cmd: Seq<char>) -> Seq<char> {
    if words(cmd).len() > 0 {
        words(cmd)[0]
    } else {
        "vi"@
    }
}

/// The arguments an editor command brings along.
pub open spec fn arguments_of(cmd: Seq<char>) -> Seq<Seq<char>> {
    if words(cmd).len() > 0 {
        words(cmd).skip(1)
    } else {
        Seq::empty()
    }
}

impl AppConfig {
    /// Editor to use for external body editing: the setting, `$EDITOR` (given
    /// as `from_env`), else `vi`.
    pub fn editor_cmd(&self, from_env: Option<String>) -> (r: String)
        ensures
            r@ == editor_of(self@, opt(from_env)),
    {
        let chosen: Option<String> = match &self.editor {
            Some(e) => Some(e.clone()),
            None => from_env,
        };
        match chosen {
            Some(e) => if e.as_str().is_empty() {
                "vi".to_owned()
            } else {
                e
            },
            None => "vi".to_owned(),
        }
    }

    /// Keeps `last_collection` pointing at a collection that was renamed.
    /// Returns whether anything changed.
    pub fn follow_rename(&mut self, before: &str, after: &str) -> (changed: bool)
        ensures
            changed == (old(self)@.last_collection == Some(before@)),
            final(self)@ == (ConfigView {
                last_collection: if old(self)@.last_collection == Some(before@) {
                    Some(after@)
                } else {
                    old(self)@.last_collection
                },
                ..old(self)@
            }),
    {
        let points_there: bool = match &self.last_collection {
            Some(n) => crate::text::same(n.as_str(), before),
            None => false,
        };
        if points_there {
            self.last_collection = Some(after.to_owned());
        }
        points_there
    }

    /// Drops `last_collection` if it points at a collection that was deleted.
    /// Returns whether anything changed.
    pub fn forget(&mut self, name: &str) -> (changed: bool)
        ensures
            changed == (old(self)@.last_collection == Some(name@)),
            final(self)@ == (ConfigView {
                last_collection: if old(self)@.last_collection == Some(name@) {
                    None
                } else {
                    old(self)@.last_collection
                },
                ..old(self)@
            }),
    {
        let points_there: bool = match &self.last_collection {
            Some(n) => crate::text::same(n.as_str(), name),
            None => false,
        };
        if points_there {
            self.last_collection = None;
        }
        points_there
    }
}

/// The program and arguments of an editor command.
pub fn split_editor(cmd: &str) -> (r: (String, Vec<String>))
    ensures
        r.0@ == program_of(cmd@),
        views(r.1@) == arguments_of(cmd@),
{
    let mut parts = split_words(cmd);
    if parts.len() == 0 {
        return ("vi".to_owned(), parts);
    }
    let ghost all = views(parts@);
    let program = parts.remove(0);
    assert(all[0] == program@);
    assert(views(parts@) =~= all.skip(1));
    (program, parts)
}

} // verus!
