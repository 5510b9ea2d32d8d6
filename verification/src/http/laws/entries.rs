//! Entries of the URL bar.

use vstd::prelude::*;

use crate::app::editing::{entry_url, entry_verb, wrong_scheme};
use crate::app::laws::commands::lemma_first_word;
use crate::http::laws::paths::lemma_replace_first;
use crate::http::url_input::{absolute, address, rooted, rows_of, with_braces, ParsedUrlView};
use crate::model::{Method, RowView};
use crate::text::{
    find, is_white, lacks, lemma_find_from, lemma_found_after, lemma_not_found, replace_all,
    starts_with, trim_start,
};

verus! {

/// The rows of a query are those of a first part, then those of a second; a single
/// pair is a row, switched on, just when it has a name.
pub proof fn lemma_query_rows(
    a: Seq<(Seq<char>, Seq<char>)>,
    b: Seq<(Seq<char>, Seq<char>)>,
    p: (Seq<char>, Seq<char>),
)
    ensures
        rows_of(a + b) == rows_of(a) + rows_of(b),
        p.0.len() > 0 ==> rows_of(seq![p]) == seq![RowView { key: p.0, value: p.1, enabled: true }],
        p.0.len() == 0 ==> rows_of(seq![p]).len() == 0,
    decreases b.len(),
{
    assert(seq![p].drop_last() =~= Seq::<(Seq<char>, Seq<char>)>::empty());
    assert(rows_of(seq![p].drop_last()) =~= Seq::<RowView>::empty());
    if p.0.len() > 0 {
        assert(rows_of(seq![p]) =~= seq![RowView { key: p.0, value: p.1, enabled: true }]);
    }
    if b.len() == 0 {
        assert(a + b =~= a);
        assert(rows_of(b) =~= Seq::<RowView>::empty());
        assert(rows_of(a) + rows_of(b) =~= rows_of(a));
    } else {
        lemma_query_rows(a, b.drop_last(), p);
        assert((a + b).drop_last() =~= a + b.drop_last());
        assert(rows_of(a + b) =~= rows_of(a) + rows_of(b));
    }
}

/// An http or https URL with a host gives its origin, its path and its query.
pub proof fn lemma_absolute_entries(input: Seq<char>, url: ParsedUrlView)
    requires
        input.len() > 0,
        url.scheme == "http"@ || url.scheme == "https"@,
        url.has_host,
    ensures
        absolute(url),
        address(input, Some(url)).origin == Some(url.origin),
        address(input, Some(url)).path == with_braces(url.path),
        address(input, Some(url)).query == url.query,
{
}

/// Any other entry is a path, then a query behind `?`, then a fragment behind `#`
/// that is dropped; it names no server.
pub proof fn lemma_relative_entries(path: Seq<char>, query: Seq<char>, fragment: Seq<char>)
    requires
        path.len() > 0,
        path[0] == '/',
        lacks(path, '?') && lacks(path, '#') && lacks(query, '#'),
    ensures
        address(path, None).path == path,
        address(path, None).query is None,
        address(path, None).origin is None,
        address(path + seq!['?'] + query, None).path == path,
        address(path + seq!['?'] + query, None).query == Some(query),
        address(path + seq!['?'] + query + seq!['#'] + fragment, None) == address(
            path + seq!['?'] + query,
            None,
        ),
{
    reveal_strlit("/");
    assert(path.subrange(0, 1) =~= "/"@);
    assert(starts_with(path, "/"@));
    lemma_not_found(path, '#');
    lemma_not_found(path, '?');
    let entry = path + seq!['?'] + query;
    assert(lacks(entry, '#')) by {
        assert forall|i: int| 0 <= i < entry.len() implies #[trigger] entry[i] != '#' by {
            if i < path.len() {
                assert(path[i] != '#');
            } else if i > path.len() {
                assert(query[i - path.len() - 1] != '#');
            }
        }
    }
    lemma_not_found(entry, '#');
    lemma_found_after(path, seq!['?'], query);
    assert(entry.take(path.len() as int) =~= path);
    assert(entry.skip(path.len() as int + 1) =~= query);
    let all = entry + seq!['#'] + fragment;
    lemma_found_after(entry, seq!['#'], fragment);
    assert(all.take(entry.len() as int) =~= entry);
}

/// A path without a leading slash gets one; a template does not.
pub proof fn lemma_rooted(path: Seq<char>)
    requires
        path.len() > 0,
    ensures
        path[0] == '/' ==> rooted(path) == path,
        path[0] != '/' && path[0] != '{' ==> rooted(path) == "/"@ + path,
        path.len() > 1 && path[0] == '{' && path[1] == '{' ==> rooted(path) == path,
        rooted(Seq::empty()) == "/"@,
{
    reveal_strlit("/");
    reveal_strlit("{{");
    if path[0] == '/' {
        assert(path.subrange(0, 1) =~= "/"@);
    } else {
        if starts_with(path, "/"@) {
            assert(path.subrange(0, 1)[0] == path[0]);
        }
        if starts_with(path, "{{"@) {
            assert(path.subrange(0, 2)[0] == path[0]);
        }
        if path.len() > 1 && path[0] == '{' && path[1] == '{' {
            assert(path.subrange(0, 2) =~= "{{"@);
        }
    }
}

/// An encoded brace is shown as a brace again, in capitals or not, and a text
/// without percent signs stays.
pub proof fn lemma_braces_restored(a: Seq<char>, b: Seq<char>)
    requires
        lacks(a, '%'),
        lacks(b, '%'),
    ensures
        with_braces(a) == a,
        with_braces(a + "%7B"@ + b) == a + "{"@ + b,
        with_braces(a + "%7D"@ + b) == a + "}"@ + b,
{
    reveal_strlit("%7B");
    reveal_strlit("%7b");
    reveal_strlit("%7D");
    reveal_strlit("%7d");
    reveal_strlit("{");
    reveal_strlit("}");
    lemma_kept(a);
    lemma_kept(b);
    let open = a + "{"@ + b;
    let close = a + "}"@ + b;
    assert(lacks(open, '%'));
    assert(lacks(close, '%'));
    lemma_kept(open);
    lemma_kept(close);
    lemma_replace_first(a, b, "%7B"@, "{"@);
    lemma_replace_first(a, b, "%7D"@, "}"@);
    let s = a + "%7D"@ + b;
    lemma_other_escape(a, b, "%7D"@, "%7B"@, "{"@);
    lemma_other_escape(a, b, "%7D"@, "%7b"@, "{"@);
}

proof fn lemma_kept(s: Seq<char>)
    requires
        lacks(s, '%'),
    ensures
        replace_all(s, "%7B"@, "{"@) == s,
        replace_all(s, "%7b"@, "{"@) == s,
        replace_all(s, "%7D"@, "}"@) == s,
        replace_all(s, "%7d"@, "}"@) == s,
{
    reveal_strlit("%7B");
    reveal_strlit("%7b");
    reveal_strlit("%7D");
    reveal_strlit("%7d");
    lemma_no_percent(s, "%7B"@);
    lemma_no_percent(s, "%7b"@);
    lemma_no_percent(s, "%7D"@);
    lemma_no_percent(s, "%7d"@);
}

proof fn lemma_no_percent(s: Seq<char>, pat: Seq<char>)
    requires
        lacks(s, '%'),
        pat.len() > 0,
        pat[0] == '%',
    ensures
        find(s, pat) is None,
{
    lemma_find_from(s, pat, 0);
    if find(s, pat) is Some {
        let i = find(s, pat)->0;
        assert(s.subrange(i, i + pat.len())[0] == s[i]);
    }
}

proof fn lemma_other_escape(
    a: Seq<char>,
    b: Seq<char>,
    there: Seq<char>,
    pat: Seq<char>,
    with: Seq<char>,
)
    requires
        lacks(a, '%'),
        lacks(b, '%'),
        there.len() == 3 && pat.len() == 3,
        there[0] == '%' && pat[0] == '%',
        there[1] != '%' && there[2] != '%',
        there[2] != pat[2],
    ensures
        replace_all(a + there + b, pat, with) == a + there + b,
{
    let s = a + there + b;
    lemma_find_from(s, pat, 0);
    if find(s, pat) is Some {
        let i = find(s, pat)->0;
        let at = s.subrange(i, i + 3);
        assert(at[0] == s[i] && at[2] == s[i + 2]);
        if i < a.len() {
            assert(s[i] == a[i]);
        } else if i >= a.len() + 3 {
            assert(s[i] == b[i - a.len() - 3]);
        } else {
            assert(s[i] == there[i - a.len()]);
        }
        assert(false);
    }
}

// ----- verbs and schemes -----

/// An entry may begin with a verb; the rest is the URL.
pub proof fn lemma_entry_verbs(verb: Seq<char>, url: Seq<char>)
    requires
        forall|i: int| 0 <= i < verb.len() ==> !is_white(#[trigger] verb[i]),
        url.len() > 0,
        !is_white(url[0]),
    ensures
        entry_verb(verb + seq![' '] + url) == Method::named(verb),
        Method::named(verb) is Some ==> entry_url(verb + seq![' '] + url) == url,
        Method::named(verb) is None ==> entry_url(verb + seq![' '] + url) == verb + seq![' '] + url,
{
    let s = verb + seq![' '] + url;
    let n = verb.len() as int;
    lemma_first_word(verb, url, 0);
    assert(s.take(n) =~= verb);
    let tail = s.skip(n);
    assert(tail =~= seq![' '] + url);
    assert(tail[0] == ' ');
    assert(tail.skip(1) =~= url);
    assert(trim_start(url) == url);
}

/// A scheme other than http and https is refused.
pub proof fn lemma_schemes(scheme: Seq<char>, rest: Seq<char>)
    requires
        scheme.len() > 0,
        lacks(scheme, ':'),
        forall|i: int|
            0 <= i < scheme.len() ==> crate::app::editing::scheme_char(#[trigger] scheme[i]),
    ensures
        scheme != "http"@ && scheme != "https"@ ==> wrong_scheme(scheme + "://"@ + rest) == Some(
            scheme,
        ),
        scheme == "http"@ || scheme == "https"@ ==> wrong_scheme(scheme + "://"@ + rest) is None,
{
    reveal_strlit("://");
    lemma_found_after(scheme, "://"@, rest);
    assert((scheme + "://"@ + rest).take(scheme.len() as int) =~= scheme);
}

} // verus!
