//! Path parameters, query rows and the URL they make.

use vstd::prelude::*;

use crate::http::client::{
    enabled, encoded, filled, joined, lemma_encoded_is_one_segment, live, url_of,
};
use crate::model::{RequestView, RowView};
use crate::text::{
    find, lacks, lemma_find_from, lemma_found_after, lemma_found_at, occurs_at, replace_all,
    trim_end_char, trim_start_char,
};

verus! {

// ----- which rows count -----

/// The rows that are switched on are those of a first part, then those of a second;
/// a single row counts just when it is switched on.
pub proof fn lemma_enabled_rows(a: Seq<RowView>, b: Seq<RowView>, row: RowView)
    ensures
        enabled(a + b) == enabled(a) + enabled(b),
        row.enabled ==> enabled(seq![row]) == seq![row],
        !row.enabled ==> enabled(seq![row]).len() == 0,
    decreases b.len(),
{
    assert(seq![row].drop_last() =~= Seq::<RowView>::empty());
    assert(enabled(seq![row].drop_last()) =~= Seq::<RowView>::empty());
    if b.len() == 0 {
        assert(a + b =~= a);
        assert(enabled(b) =~= Seq::<RowView>::empty());
        assert(enabled(a) + enabled(b) =~= enabled(a));
    } else {
        lemma_enabled_rows(a, b.drop_last(), row);
        assert((a + b).drop_last() =~= a + b.drop_last());
        assert(enabled(a + b) =~= enabled(a) + enabled(b));
    }
}

/// The query and header rows that count are those of a first part, then those of a
/// second; a single row counts just when it is switched on and named.
pub proof fn lemma_live_rows(a: Seq<RowView>, b: Seq<RowView>, row: RowView)
    ensures
        live(a + b) == live(a) + live(b),
        row.enabled && row.key.len() > 0 ==> live(seq![row]) == seq![row],
        !row.enabled || row.key.len() == 0 ==> live(seq![row]).len() == 0,
    decreases b.len(),
{
    assert(seq![row].drop_last() =~= Seq::<RowView>::empty());
    assert(live(seq![row].drop_last()) =~= Seq::<RowView>::empty());
    if b.len() == 0 {
        assert(a + b =~= a);
        assert(live(b) =~= Seq::<RowView>::empty());
        assert(live(a) + live(b) =~= live(a));
    } else {
        lemma_live_rows(a, b.drop_last(), row);
        assert((a + b).drop_last() =~= a + b.drop_last());
        assert(live(a + b) =~= live(a) + live(b));
    }
}

// ----- replacing -----

/// Text in which no occurrence begins stays in front of what is replaced behind it.
pub proof fn lemma_replace_skips(head: Seq<char>, rest: Seq<char>, pat: Seq<char>, with: Seq<char>)
    requires
        pat.len() > 0,
        forall|j: int| 0 <= j < head.len() ==> !#[trigger] occurs_at(head + rest, pat, j),
    ensures
        replace_all(head + rest, pat, with) == head + replace_all(rest, pat, with),
{
    let all = head + rest;
    let n = head.len() as int;
    lemma_find_from(rest, pat, 0);
    match find(rest, pat) {
        Some(i) => {
            assert(all.subrange(n + i, n + i + pat.len()) =~= rest.subrange(i, i + pat.len()));
            assert forall|j: int| 0 <= j < n + i implies !#[trigger] occurs_at(all, pat, j) by {
                if j >= n && occurs_at(all, pat, j) {
                    assert(rest.subrange(j - n, j - n + pat.len()) =~= all.subrange(
                        j,
                        j + pat.len(),
                    ));
                    assert(occurs_at(rest, pat, j - n));
                }
            }
            lemma_found_at(all, pat, n + i);
            assert(all.take(n + i) =~= head + rest.take(i));
            assert(all.skip(n + i + pat.len()) =~= rest.skip(i + pat.len()));
            let tail = replace_all(rest.skip(i + pat.len()), pat, with);
            assert(head + rest.take(i) + with + tail =~= head + (rest.take(i) + with + tail));
        },
        None => {
            lemma_find_from(all, pat, 0);
            if find(all, pat) is Some {
                let j = find(all, pat)->0;
                assert(j >= n);
                assert(rest.subrange(j - n, j - n + pat.len()) =~= all.subrange(j, j + pat.len()));
                assert(occurs_at(rest, pat, j - n));
            }
        },
    }
}

/// Every occurrence of a pattern is replaced: the first here, the others in the
/// rest.
pub proof fn lemma_replace_first(head: Seq<char>, rest: Seq<char>, pat: Seq<char>, with: Seq<char>)
    requires
        pat.len() > 0,
        lacks(head, pat[0]),
    ensures
        replace_all(head + pat + rest, pat, with) == head + with + replace_all(rest, pat, with),
{
    lemma_found_after(head, pat, rest);
    let all = head + pat + rest;
    assert(all.take(head.len() as int) =~= head);
    assert(all.skip((head.len() + pat.len()) as int) =~= rest);
}

// ----- placeholders in a path -----

/// `name` between braces.
pub open spec fn braced(name: Seq<char>) -> Seq<char> {
    "{"@ + name + "}"@
}

/// A path made of pieces, each a literal text and then a placeholder, and of a last
/// literal text. A placeholder reads as its value where it has one.
pub open spec fn path_text(
    pieces: Seq<(Seq<char>, Seq<char>)>,
    tail: Seq<char>,
    values: Map<Seq<char>, Seq<char>>,
) -> Seq<char>
    decreases pieces.len(),
{
    if pieces.len() == 0 {
        tail
    } else {
        let (text, name) = pieces[0];
        text + (if values.contains_key(name) {
            values[name]
        } else {
            braced(name)
        }) + path_text(pieces.skip(1), tail, values)
    }
}

/// Whether the literal texts open no brace and the names hold none.
pub open spec fn well_braced(pieces: Seq<(Seq<char>, Seq<char>)>, tail: Seq<char>) -> bool {
    &&& lacks(tail, '{')
    &&& forall|i: int|
        0 <= i < pieces.len() ==> lacks((#[trigger] pieces[i]).0, '{') && lacks(pieces[i].1, '{') && lacks(
            pieces[i].1,
            '}',
        )
}

/// The encoded value that each enabled row gives to its placeholder. Where two rows
/// name the same placeholder the first one fills it.
pub open spec fn given(rows: Seq<RowView>, values: Seq<Seq<char>>) -> Map<Seq<char>, Seq<char>>
    decreases rows.len(),
{
    if rows.len() == 0 {
        Map::empty()
    } else {
        let before = given(rows.drop_last(), values.drop_last());
        if before.contains_key(rows.last().key) {
            before
        } else {
            before.insert(rows.last().key, encoded(values.last()))
        }
    }
}

/// A row gives its placeholder its value, percent-encoded, unless an earlier row
/// names the same placeholder; no other placeholder has a value.
pub proof fn lemma_given(rows: Seq<RowView>, values: Seq<Seq<char>>, i: int, name: Seq<char>)
    requires
        rows.len() == values.len(),
    ensures
        0 <= i < rows.len() && (forall|j: int| 0 <= j < i ==> (#[trigger] rows[j]).key != rows[i].key)
            ==> given(rows, values).contains_key(rows[i].key) && given(rows, values)[rows[i].key]
            == encoded(values[i]),
        (forall|j: int| 0 <= j < rows.len() ==> (#[trigger] rows[j]).key != name) ==> !given(
            rows,
            values,
        ).contains_key(name),
        forall|k: Seq<char>|
            given(rows, values).contains_key(k) ==> lacks(#[trigger] given(rows, values)[k], '{'),
    decreases rows.len(),
{
    if rows.len() > 0 {
        let init = rows.drop_last();
        let last = rows.len() - 1;
        let before = given(init, values.drop_last());
        lemma_given(init, values.drop_last(), i, name);
        lemma_encoded_is_one_segment(values.last());
        if 0 <= i < rows.len() && (forall|j: int|
            0 <= j < i ==> (#[trigger] rows[j]).key != rows[i].key) {
            if i < last {
                assert(init[i] == rows[i]);
                assert forall|j: int| 0 <= j < i implies (#[trigger] init[j]).key != init[i].key by {
                    assert(rows[j].key != rows[i].key);
                }
            } else {
                assert forall|j: int| 0 <= j < init.len() implies (#[trigger] init[j]).key
                    != rows[i].key by {
                    assert(rows[j].key != rows[i].key);
                }
                lemma_given(init, values.drop_last(), i, rows[i].key);
            }
        }
        if forall|j: int| 0 <= j < rows.len() ==> (#[trigger] rows[j]).key != name {
            assert forall|j: int| 0 <= j < init.len() implies (#[trigger] init[j]).key != name by {
                assert(rows[j].key != name);
            }
            assert(rows[last].key != name);
        }
    }
}

proof fn lemma_brace_head(name: Seq<char>)
    ensures
        braced(name).len() == name.len() + 2,
        braced(name)[0] == '{',
        braced(name)[1 + name.len() as int] == '}',
        forall|i: int| 0 <= i < name.len() ==> braced(name)[i + 1] == #[trigger] name[i],
        braced(name) == seq!['{'] + name + seq!['}'],
{
    reveal_strlit("{");
    reveal_strlit("}");
    assert(braced(name) =~= seq!['{'] + name + seq!['}']);
}

/// A placeholder of another name is not matched.
proof fn lemma_other_name(name: Seq<char>, key: Seq<char>, rest: Seq<char>)
    requires
        name != key,
        lacks(name, '}'),
        lacks(name, '{'),
        lacks(key, '}'),
    ensures
        forall|j: int|
            0 <= j < braced(name).len() ==> !#[trigger] occurs_at(
                braced(name) + rest,
                braced(key),
                j,
            ),
{
    let all = braced(name) + rest;
    let pat = braced(key);
    lemma_brace_head(name);
    lemma_brace_head(key);
    assert forall|j: int| 0 <= j < braced(name).len() implies !#[trigger] occurs_at(all, pat, j) by {
        if occurs_at(all, pat, j) {
            let at = all.subrange(j, j + pat.len());
            assert(at[0] == all[j]);
            if j > 0 {
                if j <= name.len() {
                    assert(all[j] == name[j - 1]);
                }
                assert(false);
            }
            if name.len() < key.len() {
                assert(at[1 + name.len() as int] == all[1 + name.len() as int]);
                assert(key[name.len() as int] == pat[1 + name.len() as int]);
                assert(false);
            } else if name.len() > key.len() {
                assert(at[1 + key.len() as int] == all[1 + key.len() as int]);
                assert(name[key.len() as int] == all[1 + key.len() as int]);
                assert(false);
            } else {
                assert forall|i: int| 0 <= i < name.len() implies name[i] == key[i] by {
                    assert(at[i + 1] == all[i + 1]);
                }
                assert(name =~= key);
            }
        }
    }
}

/// Replacing `{key}` gives the placeholder of that name its value, wherever it
/// stands, and touches nothing else.
pub proof fn lemma_replace_in_path(
    pieces: Seq<(Seq<char>, Seq<char>)>,
    tail: Seq<char>,
    values: Map<Seq<char>, Seq<char>>,
    key: Seq<char>,
    with: Seq<char>,
)
    requires
        well_braced(pieces, tail),
        lacks(key, '}'),
        forall|k: Seq<char>| values.contains_key(k) ==> lacks(#[trigger] values[k], '{'),
    ensures
        replace_all(path_text(pieces, tail, values), braced(key), with) == path_text(
            pieces,
            tail,
            if values.contains_key(key) {
                values
            } else {
                values.insert(key, with)
            },
        ),
    decreases pieces.len(),
{
    let pat = braced(key);
    lemma_brace_head(key);
    let after = if values.contains_key(key) {
        values
    } else {
        values.insert(key, with)
    };
    if pieces.len() == 0 {
        lemma_find_from(tail, pat, 0);
        if find(tail, pat) is Some {
            let i = find(tail, pat)->0;
            assert(tail.subrange(i, i + pat.len())[0] == tail[i]);
        }
    } else {
        let (text, name) = pieces[0];
        let more = pieces.skip(1);
        assert(lacks(pieces[0].0, '{') && lacks(pieces[0].1, '{') && lacks(pieces[0].1, '}'));
        assert forall|i: int| 0 <= i < more.len() implies lacks((#[trigger] more[i]).0, '{') && lacks(
            more[i].1,
            '{',
        ) && lacks(more[i].1, '}') by {
            assert(more[i] == pieces[i + 1]);
        }
        lemma_replace_in_path(more, tail, values, key, with);
        let rest = path_text(more, tail, values);
        let rest_after = path_text(more, tail, after);
        if values.contains_key(name) {
            let head = text + values[name];
            assert forall|j: int| 0 <= j < head.len() implies !#[trigger] occurs_at(
                head + rest,
                pat,
                j,
            ) by {
                if occurs_at(head + rest, pat, j) {
                    assert((head + rest).subrange(j, j + pat.len())[0] == head[j]);
                    if j < text.len() {
                        assert(head[j] == text[j]);
                    } else {
                        assert(head[j] == values[name][j - text.len()]);
                    }
                }
            }
            lemma_replace_skips(head, rest, pat, with);
            assert(path_text(pieces, tail, values) =~= head + rest);
            assert(path_text(pieces, tail, after) =~= head + rest_after);
        } else if name == key {
            lemma_replace_first(text, rest, pat, with);
            assert(path_text(pieces, tail, values) =~= text + pat + rest);
            assert(path_text(pieces, tail, after) =~= text + with + rest_after);
        } else {
            lemma_brace_head(name);
            let head = text + braced(name);
            lemma_other_name(name, key, rest);
            assert forall|j: int| 0 <= j < head.len() implies !#[trigger] occurs_at(
                head + rest,
                pat,
                j,
            ) by {
                if occurs_at(head + rest, pat, j) {
                    if j < text.len() {
                        assert((head + rest).subrange(j, j + pat.len())[0] == text[j]);
                    } else {
                        let n = text.len() as int;
                        assert((braced(name) + rest).subrange(j - n, j - n + pat.len()) =~= (head
                            + rest).subrange(j, j + pat.len()));
                        assert(occurs_at(braced(name) + rest, pat, j - n));
                    }
                }
            }
            lemma_replace_skips(head, rest, pat, with);
            assert(path_text(pieces, tail, values) =~= head + rest);
            assert(path_text(pieces, tail, after) =~= head + rest_after);
        }
    }
}

/// Every placeholder that an enabled row names is filled with that row's encoded
/// value, however many there are and in whatever order the rows stand; the rest of
/// the path stays as it is.
pub proof fn lemma_every_path_param_is_filled(
    pieces: Seq<(Seq<char>, Seq<char>)>,
    tail: Seq<char>,
    rows: Seq<RowView>,
    values: Seq<Seq<char>>,
)
    requires
        well_braced(pieces, tail),
        rows.len() == values.len(),
        forall|i: int| 0 <= i < rows.len() ==> lacks((#[trigger] rows[i]).key, '}'),
    ensures
        filled(path_text(pieces, tail, Map::empty()), rows, values) == path_text(
            pieces,
            tail,
            given(rows, values),
        ),
    decreases rows.len(),
{
    if rows.len() > 0 {
        let init = rows.drop_last();
        let firsts = values.drop_last();
        assert forall|i: int| 0 <= i < init.len() implies lacks((#[trigger] init[i]).key, '}') by {
            assert(init[i] == rows[i]);
        }
        lemma_every_path_param_is_filled(pieces, tail, init, firsts);
        lemma_given(init, firsts, 0, rows.last().key);
        assert(lacks(rows[rows.len() - 1].key, '}'));
        lemma_replace_in_path(
            pieces,
            tail,
            given(init, firsts),
            rows.last().key,
            encoded(values.last()),
        );
    }
}

/// A path with two placeholders of different names has both filled, whichever row
/// comes first.
pub proof fn lemma_two_path_params(
    a: Seq<char>,
    k1: Seq<char>,
    b: Seq<char>,
    k2: Seq<char>,
    c: Seq<char>,
    rows: Seq<RowView>,
    values: Seq<Seq<char>>,
    i1: int,
    i2: int,
)
    requires
        lacks(a, '{') && lacks(b, '{') && lacks(c, '{'),
        lacks(k1, '{') && lacks(k1, '}') && lacks(k2, '{') && lacks(k2, '}'),
        k1 != k2,
        rows.len() == values.len(),
        0 <= i1 < rows.len() && 0 <= i2 < rows.len(),
        rows[i1].key == k1 && rows[i2].key == k2,
        forall|j: int| 0 <= j < rows.len() && j != i1 ==> (#[trigger] rows[j]).key != k1,
        forall|j: int| 0 <= j < rows.len() && j != i2 ==> (#[trigger] rows[j]).key != k2,
        forall|i: int| 0 <= i < rows.len() ==> lacks((#[trigger] rows[i]).key, '}'),
    ensures
        filled(a + braced(k1) + b + braced(k2) + c, rows, values) == a + encoded(values[i1]) + b
            + encoded(values[i2]) + c,
{
    let pieces = seq![(a, k1), (b, k2)];
    let none = Map::<Seq<char>, Seq<char>>::empty();
    lemma_every_path_param_is_filled(pieces, c, rows, values);
    lemma_given(rows, values, i1, k1);
    lemma_given(rows, values, i2, k2);
    let more = pieces.skip(1);
    assert(more =~= seq![(b, k2)]);
    assert(more.skip(1) =~= Seq::<(Seq<char>, Seq<char>)>::empty());
    let all = given(rows, values);
    assert(path_text(more.skip(1), c, none) == c);
    assert(path_text(more, c, none) == b + braced(k2) + c);
    assert(path_text(pieces, c, none) =~= a + braced(k1) + b + braced(k2) + c);
    assert(path_text(more.skip(1), c, all) == c);
    assert(path_text(more, c, all) == b + encoded(values[i2]) + c);
    assert(path_text(pieces, c, all) =~= a + encoded(values[i1]) + b + encoded(values[i2]) + c);
}

/// No placeholder that an enabled row names is left in the path.
pub proof fn lemma_no_named_placeholder_left(
    pieces: Seq<(Seq<char>, Seq<char>)>,
    tail: Seq<char>,
    values: Map<Seq<char>, Seq<char>>,
    key: Seq<char>,
)
    requires
        well_braced(pieces, tail),
        lacks(key, '}'),
        values.contains_key(key),
        forall|k: Seq<char>| values.contains_key(k) ==> lacks(#[trigger] values[k], '{'),
    ensures
        find(path_text(pieces, tail, values), braced(key)) is None,
{
    let s = path_text(pieces, tail, values);
    let pat = braced(key);
    lemma_brace_head(key);
    lemma_replace_in_path(pieces, tail, values, key, Seq::empty());
    lemma_find_from(s, pat, 0);
    if find(s, pat) is Some {
        let i = find(s, pat)->0;
        lemma_replace_shrinks(s.skip(i + pat.len()), pat);
        assert(replace_all(s, pat, Seq::empty()).len() < s.len());
    }
}

proof fn lemma_given_to_all(rows: Seq<RowView>, values: Seq<Seq<char>>, i: int)
    requires
        rows.len() == values.len(),
        0 <= i < rows.len(),
    ensures
        given(rows, values).contains_key(rows[i].key),
    decreases rows.len(),
{
    if i < rows.len() - 1 {
        assert(rows.drop_last()[i] == rows[i]);
        lemma_given_to_all(rows.drop_last(), values.drop_last(), i);
    }
}

/// Once the path parameters are filled in, the placeholder of no enabled row is
/// left.
pub proof fn lemma_no_placeholder_left(
    pieces: Seq<(Seq<char>, Seq<char>)>,
    tail: Seq<char>,
    rows: Seq<RowView>,
    values: Seq<Seq<char>>,
    i: int,
)
    requires
        well_braced(pieces, tail),
        rows.len() == values.len(),
        forall|k: int| 0 <= k < rows.len() ==> lacks((#[trigger] rows[k]).key, '}'),
        0 <= i < rows.len(),
    ensures
        find(filled(path_text(pieces, tail, Map::empty()), rows, values), braced(rows[i].key)) is None,
{
    lemma_every_path_param_is_filled(pieces, tail, rows, values);
    lemma_given(rows, values, i, rows[i].key);
    lemma_given_to_all(rows, values, i);
    lemma_no_named_placeholder_left(pieces, tail, given(rows, values), rows[i].key);
}

proof fn lemma_replace_shrinks(s: Seq<char>, pat: Seq<char>)
    ensures
        replace_all(s, pat, Seq::empty()).len() <= s.len(),
    decreases s.len(),
{
    match find(s, pat) {
        Some(i) => if pat.len() > 0 && 0 <= i && i + pat.len() <= s.len() {
            lemma_replace_shrinks(s.skip(i + pat.len()), pat);
        },
        None => {},
    }
}

/// A URL is the base, a slash, and the path with its parameters filled in.
pub proof fn lemma_url(base: Seq<char>, path: Seq<char>, r: RequestView, values: Seq<Seq<char>>)
    ensures
        base.len() > 0 && base.last() != '/' && (path.len() == 0 || path[0] != '/') ==> joined(
            base,
            path,
        ) == base + "/"@ + path,
        url_of(base, r, path, values) == joined(base, filled(path, enabled(r.path_params), values)),
{
    if base.len() > 0 && base.last() != '/' && (path.len() == 0 || path[0] != '/') {
        assert(trim_end_char(base, '/') == base);
        assert(trim_start_char(path, '/') == path);
    }
}

} // verus!
