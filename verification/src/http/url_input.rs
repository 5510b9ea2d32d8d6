//! Decompose a URL typed or pasted into the URL bar. This is the inverse of
//! [`crate::http::client::build_url`]: that composes base, path and query into
//! a request, this splits a pasted URL back into the pieces a
//! [`crate::model::SavedRequest`] stores.

use vstd::prelude::*;

use crate::http::client::{joined, lemma_compose_undoes_split};
use crate::model::{KeyValueRow, RowView};
use crate::text::{
    begins, cat, contains, find, find_char, group_views, lacks, lemma_find_from, lemma_found_after,
    lemma_not_found, lemma_replace_keeps_head, lemma_trim_reaches, lemma_trimmed_head, lower,
    occurs_at, opt, part, replace, replace_all, rest, same, starts_with, trim, trimmed, views,
};

verus! {

broadcast use group_views;

/// The pieces a URL-bar entry decomposes into.
#[derive(Debug, PartialEq, Eq)]
pub struct UrlParts {
    /// Origin (`scheme://host[:port]`) when an absolute http(s) URL was pasted;
    /// `None` for a bare path, which is what the field normally holds.
    pub origin: Option<String>,
    /// Always leading-slash (or a `{{var}}` template), relative to `origin`.
    pub path: String,
    /// `None` when the input had no `?` at all, meaning "leave the existing
    /// query rows alone"; `Some(rows)` when it did, even if empty: a bare `?`
    /// clears them.
    pub query: Option<Vec<KeyValueRow>>,
}

#[verifier::ext_equal]
pub struct PartsView {
    pub origin: Option<Seq<char>>,
    pub path: Seq<char>,
    pub query: Option<Seq<RowView>>,
}

impl View for UrlParts {
    type V = PartsView;

    open spec fn view(&self) -> PartsView {
        PartsView {
            origin: opt(self.origin),
            path: self.path@,
            query: match self.query {
                Some(q) => Some(views(q@)),
                None => None,
            },
        }
    }
}

/// What the URL parser says of an absolute URL.
#[derive(Debug, PartialEq, Eq)]
pub struct ParsedUrl {
    pub scheme: String,
    pub has_host: bool,
    pub origin: String,
    pub path: String,
    pub query: Option<String>,
}

#[verifier::ext_equal]
pub struct ParsedUrlView {
    pub scheme: Seq<char>,
    pub has_host: bool,
    pub origin: Seq<char>,
    pub path: Seq<char>,
    pub query: Option<Seq<char>>,
}

impl View for ParsedUrl {
    type V = ParsedUrlView;

    open spec fn view(&self) -> ParsedUrlView {
        ParsedUrlView {
            scheme: self.scheme@,
            has_host: self.has_host,
            origin: self.origin@,
            path: self.path@,
            query: opt(self.query),
        }
    }
}

/// The parts that `Url::parse` finds in a text; `None` where it finds no
/// absolute URL.
pub uninterp spec fn url_reading(text: Seq<char>) -> Option<ParsedUrlView>;

/// A reading that counts as absolute.
pub open spec fn absolute_in(url: Option<ParsedUrlView>) -> Option<ParsedUrlView> {
    if url is Some && absolute(url->0) {
        url
    } else {
        None
    }
}

/// `s` from its first character on that is neither a control character nor a
/// blank.
pub open spec fn from_visible(s: Seq<char>) -> Seq<char>
    decreases s.len(),
{
    if s.len() > 0 && s[0] <= ' ' {
        from_visible(s.skip(1))
    } else {
        s
    }
}

/// `s` without the tabs and line breaks that the parser passes over.
pub open spec fn unbroken(s: Seq<char>) -> Seq<char>
    decreases s.len(),
{
    if s.len() == 0 {
        Seq::empty()
    } else {
        let before = unbroken(s.drop_last());
        let c = s.last();
        if c == '\t' || c == '\n' || c == '\r' {
            before
        } else {
            before.push(c)
        }
    }
}

/// Whether a text begins with the scheme `http` or `https`, as the parser reads
/// it. No other can be absolute.
pub open spec fn names_http(text: Seq<char>) -> bool {
    let t = lower(unbroken(from_visible(text)));
    starts_with(t, "http:"@) || starts_with(t, "https:"@)
}

/// Up to this many characters no URL comes near the 4 GB that the parser
/// refuses.
pub const MAX_URL_CHARS: usize = 0x100_0000;

/// Whether nothing is lost when `text` ends here: the parser drops control
/// characters and blanks at the end of what it reads.
pub open spec fn ends_plainly(text: Seq<char>) -> bool {
    text.len() == 0 || text.last() > ' '
}

/// `Url::parse` and the accessors `scheme`, `host`, `origin`, `path` and
/// `query` of what it returns. Nothing is read where there is nothing before a
/// fragment, and no http(s) URL where the text does not begin with that scheme.
/// The path of an http(s) URL begins with a slash, its query is there just where
/// a `?` stands before the first `#`, and what follows that `#` is no part of
/// what is returned: without it the same is read. Only the other way round, from
/// a text to one with a fragment, can the limit on a URL's size be passed.
#[verifier::external_body]
fn read_url(text: &str) -> (r: Option<ParsedUrl>)
    ensures
        opt(r) == url_reading(text@),
        before(text@, '#').len() == 0 ==> r is None,
        absolute_in(opt(r)) matches Some(u) ==> starts_with(u.path, "/"@) && (u.query is Some
            <==> contains(before(text@, '#'), seq!['?'])),
        absolute_in(opt(r)) is Some ==> names_http(text@),
        !names_http(text@) || (ends_plainly(before(text@, '#')) && (text@.len() <= MAX_URL_CHARS
            || absolute_in(opt(r)) is Some)) ==> absolute_in(opt(r)) == absolute_in(
            url_reading(before(text@, '#')),
        ),
{
    url::Url::parse(text).ok().map(|u| ParsedUrl {
        scheme: u.scheme().to_owned(),
        has_host: u.host().is_some(),
        origin: u.origin().ascii_serialization(),
        path: u.path().to_owned(),
        query: u.query().map(|q| q.to_owned()),
    })
}

/// The decoded names and values that `form_urlencoded::parse` finds in a query
/// string, in order.
pub uninterp spec fn form_pairs(raw: Seq<char>) -> Seq<(Seq<char>, Seq<char>)>;

/// `form_urlencoded::parse`; an empty query string has no pairs.
#[verifier::external_body]
fn read_form(raw: &str) -> (r: Vec<(String, String)>)
    ensures
        views(r@) == form_pairs(raw@),
        raw@.len() == 0 ==> r@.len() == 0,
{
    url::form_urlencoded::parse(raw.as_bytes()).map(|(k, v)| (k.into_owned(), v.into_owned())).collect()
}

/// Undoes the percent-encoding of `{` and `}`, and of nothing else.
pub open spec fn with_braces(s: Seq<char>) -> Seq<char> {
    replace_all(
        replace_all(replace_all(replace_all(s, "%7B"@, "{"@), "%7b"@, "{"@), "%7D"@, "}"@),
        "%7d"@,
        "}"@,
    )
}

/// The URL parser percent-encodes `{` and `}` in a path, so `/pets/{id}` comes
/// back as `/pets/%7Bid%7D` and would break placeholders and variables. Only
/// the braces are restored; a blanket decode would corrupt segments the user
/// percent-encoded on purpose.
pub fn restore_braces(s: &str) -> (r: String)
    ensures
        r@ == with_braces(s@),
{
    proof {
        reveal_strlit("%7B");
        reveal_strlit("%7b");
        reveal_strlit("%7D");
        reveal_strlit("%7d");
    }
    let a = replace(s, "%7B", "{");
    let b = replace(a.as_str(), "%7b", "{");
    let c = replace(b.as_str(), "%7D", "}");
    replace(c.as_str(), "%7d", "}")
}

/// What precedes the first `c`, or everything where there is none.
pub open spec fn before(s: Seq<char>, c: char) -> Seq<char> {
    match find(s, seq![c]) {
        Some(i) => s.take(i),
        None => s,
    }
}

/// What follows the first `c`.
pub open spec fn after(s: Seq<char>, c: char) -> Option<Seq<char>> {
    match find(s, seq![c]) {
        Some(i) => Some(s.skip(i + 1)),
        None => None,
    }
}

/// A path as it is stored: with a leading slash, unless it is a template such
/// as `{{baseUrl}}/pets`.
pub open spec fn rooted(path: Seq<char>) -> Seq<char> {
    if path.len() == 0 {
        "/"@
    } else if starts_with(path, "/"@) || starts_with(path, "{{"@) {
        path
    } else {
        "/"@ + path
    }
}

/// An address split up, its query string still encoded.
#[derive(Debug, PartialEq, Eq)]
pub struct Address {
    pub origin: Option<String>,
    pub path: String,
    pub query: Option<String>,
}

#[verifier::ext_equal]
pub struct AddressView {
    pub origin: Option<Seq<char>>,
    pub path: Seq<char>,
    pub query: Option<Seq<char>>,
}

impl View for Address {
    type V = AddressView;

    open spec fn view(&self) -> AddressView {
        AddressView { origin: opt(self.origin), path: self.path@, query: opt(self.query) }
    }
}

/// Whether a parsed URL counts as absolute. The parser accepts anything with a
/// scheme, including `localhost:8080/pets`, so scheme and host both matter.
pub open spec fn absolute(u: ParsedUrlView) -> bool {
    (u.scheme == "http"@ || u.scheme == "https"@) && u.has_host
}

/// How a trimmed, non-empty entry splits, given what the URL parser says of it.
/// A fragment is dropped: it is never sent to a server.
pub open spec fn address(input: Seq<char>, url: Option<ParsedUrlView>) -> AddressView {
    if input.len() == 0 {
        AddressView { origin: None, path: "/"@, query: None }
    } else if url is Some && absolute(url->0) {
        AddressView {
            origin: Some(url->0.origin),
            path: with_braces(url->0.path),
            query: url->0.query,
        }
    } else {
        let s = before(input, '#');
        AddressView { origin: None, path: rooted(before(s, '?')), query: after(s, '?') }
    }
}

/// Splits an entry, given what the URL parser says of it when trimmed.
pub fn split_address(input: &str, url: Option<ParsedUrl>) -> (r: Address)
    ensures
        r@ == address(trim(input@), opt(url)),
{
    let input = trimmed(input);
    if input.is_empty() {
        return Address { origin: None, path: "/".to_owned(), query: None };
    }
    match url {
        Some(u) => {
            if (same(u.scheme.as_str(), "http") || same(u.scheme.as_str(), "https")) && u.has_host {
                let path = restore_braces(u.path.as_str());
                return Address { origin: Some(u.origin), path, query: u.query };
            }
        },
        None => {},
    }
    let s: &str = match find_char(input, '#') {
        Some(i) => part(input, 0, i),
        None => input,
    };
    assert(s@ =~= before(input@, '#'));
    let (path, query): (&str, Option<String>) = match find_char(s, '?') {
        Some(i) => (part(s, 0, i), Some(rest(s, i + 1).to_owned())),
        None => (s, None),
    };
    assert(path@ =~= before(s@, '?'));
    let path: String = if path.is_empty() {
        "/".to_owned()
    } else if begins(path, "/") || begins(path, "{{") {
        path.to_owned()
    } else {
        cat("/", path)
    };
    Address { origin: None, path, query }
}

/// Enabled rows for the pairs that have a name.
pub open spec fn rows_of(pairs: Seq<(Seq<char>, Seq<char>)>) -> Seq<RowView>
    decreases pairs.len(),
{
    if pairs.len() == 0 {
        Seq::empty()
    } else {
        let rows = rows_of(pairs.drop_last());
        let (key, value) = pairs.last();
        if key.len() > 0 {
            rows.push(RowView { key, value, enabled: true })
        } else {
            rows
        }
    }
}

pub fn query_rows(pairs: &Vec<(String, String)>) -> (r: Vec<KeyValueRow>)
    ensures
        views(r@) == rows_of(views(pairs@)),
{
    let ghost all = views(pairs@);
    let mut out: Vec<KeyValueRow> = Vec::new();
    let mut i: usize = 0;
    while i < pairs.len()
        invariant
            i <= pairs@.len(),
            all == views(pairs@),
            views(out@) == rows_of(all.take(i as int)),
        decreases pairs@.len() - i,
    {
        assert(all.take(i + 1).drop_last() =~= all.take(i as int));
        assert(all.take(i + 1).last() == (pairs@[i as int].0@, pairs@[i as int].1@));
        if !pairs[i].0.as_str().is_empty() {
            out.push(KeyValueRow::new(pairs[i].0.as_str(), pairs[i].1.as_str(), true));
        }
        i += 1;
    }
    assert(all.take(pairs@.len() as int) =~= all);
    out
}

/// The pieces of a URL-bar entry.
pub open spec fn parts_of(input: Seq<char>) -> PartsView {
    let a = address(trim(input), url_reading(trim(input)));
    PartsView {
        origin: a.origin,
        path: a.path,
        query: match a.query {
            Some(q) => Some(rows_of(form_pairs(q))),
            None => None,
        },
    }
}

/// An entry without its fragment.
pub open spec fn without_fragment(input: Seq<char>) -> Seq<char> {
    before(trim(input), '#')
}

/// Whether the URL parser takes a trimmed entry and the same without its fragment
/// for the same: they are no http(s) URLs, or the end of the one before the
/// fragment is not dropped and the other is not too large to be read.
pub open spec fn read_alike(entry: Seq<char>) -> bool {
    let head = before(entry, '#');
    ||| !names_http(entry)
    ||| absolute_in(url_reading(entry)) is None && absolute_in(url_reading(head)) is None
    ||| ends_plainly(head) && (entry.len() <= MAX_URL_CHARS || absolute_in(url_reading(entry)) is Some)
}

/// Splits an entry. The path begins with a slash or is a template. There is a
/// query just where a `?` stands before the first `#`; a bare `?` gives an empty
/// one. Every row of it is enabled and has a name. A fragment makes no
/// difference.
pub fn split_url_input(input: &str) -> (r: UrlParts)
    ensures
        r@ == parts_of(input@),
        starts_with(r@.path, "/"@) || starts_with(r@.path, "{{"@),
        r@.query is Some <==> contains(without_fragment(input@), seq!['?']),
        address(trim(input@), url_reading(trim(input@))).query == Some(Seq::<char>::empty())
            ==> r@.query == Some(Seq::<RowView>::empty()),
        r@.query matches Some(rows) ==> forall|i: int|
            0 <= i < rows.len() ==> (#[trigger] rows[i]).enabled && rows[i].key.len() > 0,
        trim(without_fragment(input@)) == without_fragment(input@) && read_alike(trim(input@))
            ==> r@ == parts_of(without_fragment(input@)),
{
    let url = read_url(trimmed(input));
    proof {
        lemma_address_settled(trim(input@), opt(url));
        let h = without_fragment(input@);
        lemma_before_twice(trim(input@), '#');
        if absolute_in(opt(url)) == absolute_in(url_reading(h)) {
            lemma_fragment_dropped(trim(input@), opt(url), url_reading(h));
        }
    }
    let a = split_address(input, url);
    let query: Option<Vec<KeyValueRow>> = match &a.query {
        Some(q) => {
            let pairs = read_form(q.as_str());
            let rows = query_rows(&pairs);
            proof {
                lemma_query_rows_named(form_pairs(q@));
            }
            assert(q@.len() == 0 ==> views(rows@) =~= Seq::<RowView>::empty());
            Some(rows)
        },
        None => None,
    };
    UrlParts { origin: a.origin, path: a.path, query }
}

// ----- laws -----

/// What follows the first `c` is gone, so nothing follows it.
proof fn lemma_before_twice(s: Seq<char>, c: char)
    ensures
        before(before(s, c), c) == before(s, c),
        before(s, c).len() <= s.len(),
{
    let h = before(s, c);
    lemma_find_from(s, seq![c], 0);
    assert(lacks(h, c)) by {
        assert forall|i: int| 0 <= i < h.len() implies #[trigger] h[i] != c by {
            if h[i] == c {
                assert(s.subrange(i, i + 1) =~= seq![c]);
                assert(occurs_at(s, seq![c], i));
            }
        }
    }
    lemma_not_found(h, c);
}

/// Restoring braces leaves a leading slash.
proof fn lemma_braces_keep_slash(path: Seq<char>)
    requires
        starts_with(path, "/"@),
    ensures
        starts_with(with_braces(path), "/"@),
{
    reveal_strlit("/");
    reveal_strlit("%7B");
    reveal_strlit("%7b");
    reveal_strlit("%7D");
    reveal_strlit("%7d");
    assert(path.subrange(0, 1)[0] == path[0]);
    let a = replace_all(path, "%7B"@, "{"@);
    let b = replace_all(a, "%7b"@, "{"@);
    let c = replace_all(b, "%7D"@, "}"@);
    lemma_replace_keeps_head(path, "%7B"@, "{"@);
    lemma_replace_keeps_head(a, "%7b"@, "{"@);
    lemma_replace_keeps_head(b, "%7D"@, "}"@);
    lemma_replace_keeps_head(c, "%7d"@, "}"@);
    assert(with_braces(path).subrange(0, 1) =~= "/"@);
}

/// An entry splits as it does without its fragment, where the parser takes both
/// for the same.
proof fn lemma_fragment_dropped(
    input: Seq<char>,
    url: Option<ParsedUrlView>,
    other: Option<ParsedUrlView>,
)
    requires
        absolute_in(url) == absolute_in(other),
        before(input, '#').len() == 0 ==> url is None,
    ensures
        address(before(input, '#'), other) == address(input, url),
{
    lemma_before_twice(input, '#');
    if before(input, '#').len() == 0 {
        assert(find(before(input, '#'), seq!['?']) is None);
    }
}

/// What a split entry looks like, once the parser has been heard.
proof fn lemma_address_settled(input: Seq<char>, url: Option<ParsedUrlView>)
    requires
        absolute_in(url) matches Some(u) ==> starts_with(u.path, "/"@) && (u.query is Some <==> contains(
            before(input, '#'),
            seq!['?'],
        )),
    ensures
        ({
            let a = address(input, url);
            &&& starts_with(a.path, "/"@) || starts_with(a.path, "{{"@)
            &&& a.query is Some <==> contains(before(input, '#'), seq!['?'])
        }),
{
    reveal_strlit("/");
    assert("/"@.subrange(0, 1) =~= "/"@);
    lemma_before_twice(input, '#');
    if input.len() == 0 {
    } else if url is Some && absolute(url->0) {
        lemma_braces_keep_slash(url->0.path);
    } else {
        lemma_relative_paths_are_rooted(before(before(input, '#'), '?'));
    }
}

/// Splitting undoes composing: a server and a path, put together, come apart
/// again wherever the URL parser finds that origin and that path in them.
pub proof fn lemma_splitting_undoes_composing(base: Seq<char>, path: Seq<char>, url: ParsedUrlView)
    requires
        base.len() == 0 || base.last() != '/',
        path.len() > 0 && path[0] == '/',
        path.len() == 1 || path[1] != '/',
        trim(base + path) == base + path,
        url_reading(base + path) == Some(url),
        absolute(url),
        url.origin == base,
        with_braces(url.path) == path,
        url.query is None,
    ensures
        parts_of(joined(base, path)) == (PartsView { origin: Some(base), path, query: None }),
{
    lemma_compose_undoes_split(base, path);
}

/// A path with a query, put together, comes apart again.
pub proof fn lemma_path_and_query_come_apart(path: Seq<char>, query: Seq<char>)
    requires
        starts_with(path, "/"@) || starts_with(path, "{{"@),
        lacks(path, '?'),
        lacks(path, '#'),
        lacks(query, '#'),
        trim(path + seq!['?'] + query) == path + seq!['?'] + query,
        absolute_in(url_reading(path + seq!['?'] + query)) is None,
    ensures
        parts_of(path + seq!['?'] + query) == (PartsView {
            origin: None,
            path,
            query: Some(rows_of(form_pairs(query))),
        }),
{
    reveal_strlit("/");
    reveal_strlit("{{");
    let entry = path + seq!['?'] + query;
    lemma_found_after(path, seq!['?'], query);
    assert(lacks(entry, '#')) by {
        assert forall|i: int| 0 <= i < entry.len() implies #[trigger] entry[i] != '#' by {
            if i < path.len() {
                assert(path[i] != '#');
            } else if i > path.len() {
                assert(query[i - path.len() - 1] != '#');
            }
        }
    }
    lemma_not_found(entry, '#');
    assert(entry.take(path.len() as int) =~= path);
    assert(entry.skip(path.len() as int + 1) =~= query);
}

/// What a fragment was added to is what is left without it.
pub proof fn lemma_fragment_comes_off(entry: Seq<char>, fragment: Seq<char>)
    requires
        trim(entry) == entry,
        lacks(entry, '#'),
    ensures
        without_fragment(entry + seq!['#'] + fragment) == entry,
{
    let n = entry.len() as int;
    let all = entry + seq!['#'] + fragment;
    assert(all[n] == '#');
    if n > 0 {
        lemma_trimmed_head(entry);
        assert(all[0] == entry[0]);
    }
    lemma_trim_reaches(all, n);
    let t = trim(all);
    let left = t.skip(n + 1);
    assert(t =~= entry + seq!['#'] + left);
    lemma_found_after(entry, seq!['#'], left);
    assert(t.take(n) =~= entry);
}

/// An entry that begins with anything but an `h` names no http(s) URL, so a
/// fragment makes no difference to it, whatever it ends with.
pub proof fn lemma_other_entries_read_alike(entry: Seq<char>)
    requires
        entry.len() > 0,
        entry[0] > ' ',
        entry[0] != 'h' && entry[0] != 'H',
    ensures
        !names_http(entry),
        read_alike(entry),
{
    reveal_strlit("http:");
    reveal_strlit("https:");
    lemma_unbroken_head(entry);
    let t = lower(unbroken(entry));
    assert(t[0] != 'h');
    if starts_with(t, "http:"@) {
        assert(t.subrange(0, 5)[0] == t[0]);
    }
    if starts_with(t, "https:"@) {
        assert(t.subrange(0, 6)[0] == t[0]);
    }
}

proof fn lemma_unbroken_head(s: Seq<char>)
    requires
        s.len() > 0,
        s[0] > ' ',
    ensures
        unbroken(s).len() > 0,
        unbroken(s)[0] == s[0],
    decreases s.len(),
{
    if s.len() == 1 {
        assert(unbroken(s.drop_last()) =~= Seq::empty());
    } else {
        lemma_unbroken_head(s.drop_last());
    }
}

/// A stored path always begins with a slash or is a template.
pub proof fn lemma_relative_paths_are_rooted(path: Seq<char>)
    ensures
        starts_with(rooted(path), "/"@) || starts_with(rooted(path), "{{"@),
{
    reveal_strlit("/");
    if path.len() == 0 {
        assert("/"@.subrange(0, 1) =~= "/"@);
    } else if !starts_with(path, "/"@) && !starts_with(path, "{{"@) {
        assert(("/"@ + path).subrange(0, 1) =~= "/"@);
    }
}

/// Every row taken from a query string is enabled and has a name.
pub proof fn lemma_query_rows_named(pairs: Seq<(Seq<char>, Seq<char>)>)
    ensures
        forall|i: int|
            0 <= i < rows_of(pairs).len() ==> (#[trigger] rows_of(pairs)[i]).enabled && rows_of(
                pairs,
            )[i].key.len() > 0,
    decreases pairs.len(),
{
    if pairs.len() > 0 {
        let p = rows_of(pairs.drop_last());
        lemma_query_rows_named(pairs.drop_last());
        assert forall|i: int| 0 <= i < rows_of(pairs).len() implies (#[trigger] rows_of(
            pairs,
        )[i]).enabled && rows_of(pairs)[i].key.len() > 0 by {
            if i < p.len() {
                assert(p[i].enabled && p[i].key.len() > 0);
            }
        }
    }
}

} // verus!
