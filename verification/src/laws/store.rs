//! File names, finding collections by name, and settings.

use vstd::prelude::*;

use crate::store::{
    arguments_of, collection_path_of, editor_of, matched, program_of, slug, slug_match, slug_of,
    sorts_before, ConfigView,
};
use crate::text::{is_alnum, lower, lower_char, trim_end_char, words};

verus! {

/// Whether a text is made of ASCII letters and digits alone.
pub open spec fn all_alnum(s: Seq<char>) -> bool {
    forall|i: int| 0 <= i < s.len() ==> is_alnum(#[trigger] s[i])
}

/// Whether a text holds no ASCII letter or digit.
pub open spec fn no_alnum(s: Seq<char>) -> bool {
    forall|i: int| 0 <= i < s.len() ==> !is_alnum(#[trigger] s[i])
}

/// Letters and digits are taken over in small letters.
pub proof fn lemma_slug_letters(before: Seq<char>, word: Seq<char>)
    requires
        all_alnum(word),
    ensures
        slug_of(before + word) == slug_of(before) + lower(word),
    decreases word.len(),
{
    if word.len() == 0 {
        assert(before + word =~= before);
        assert(slug_of(before) + lower(word) =~= slug_of(before));
    } else {
        let init = word.drop_last();
        assert forall|i: int| 0 <= i < init.len() implies is_alnum(#[trigger] init[i]) by {
            assert(init[i] == word[i]);
        }
        lemma_slug_letters(before, init);
        assert((before + word).drop_last() =~= before + init);
        assert((before + word).last() == word[word.len() - 1]);
        assert(slug_of(before + word) =~= slug_of(before) + lower(word));
    }
}

/// A run of anything else behind a letter or digit is one dash.
pub proof fn lemma_slug_dashes(before: Seq<char>, gap: Seq<char>)
    requires
        gap.len() > 0,
        no_alnum(gap),
        slug_of(before).len() > 0,
        slug_of(before).last() != '-',
    ensures
        slug_of(before + gap) == slug_of(before).push('-'),
    decreases gap.len(),
{
    let init = gap.drop_last();
    assert((before + gap).drop_last() =~= before + init);
    assert((before + gap).last() == gap[gap.len() - 1]);
    if init.len() == 0 {
        assert(before + init =~= before);
    } else {
        assert forall|i: int| 0 <= i < init.len() implies !is_alnum(#[trigger] init[i]) by {
            assert(init[i] == gap[i]);
        }
        lemma_slug_dashes(before, init);
    }
}

proof fn lemma_small_letters(c: char)
    requires
        is_alnum(c),
    ensures
        lower_char(c) != '-',
{
}

/// Two words become their small letters with a dash between, whatever stands between
/// them; one word becomes its small letters.
pub proof fn lemma_slugs(a: Seq<char>, gap: Seq<char>, b: Seq<char>)
    requires
        a.len() > 0,
        b.len() > 0,
        gap.len() > 0,
        all_alnum(a),
        all_alnum(b),
        no_alnum(gap),
    ensures
        slug(a) == lower(a),
        slug(a + gap + b) == lower(a) + seq!['-'] + lower(b),
{
    lemma_slug_letters(Seq::empty(), a);
    assert(Seq::<char>::empty() + a =~= a);
    assert(slug_of(Seq::<char>::empty()) + lower(a) =~= lower(a));
    assert(lower(a).last() == lower_char(a[a.len() - 1]));
    lemma_small_letters(a[a.len() - 1]);
    lemma_slug_dashes(a, gap);
    lemma_slug_letters(a + gap, b);
    assert(lower(b).last() == lower_char(b[b.len() - 1]));
    lemma_small_letters(b[b.len() - 1]);
    let s = slug_of(a + gap + b);
    assert(s =~= lower(a) + seq!['-'] + lower(b));
    assert(s.last() == lower(b).last());
}

/// A collection's file lies among the collections under the settings directory and
/// is named after its slug.
pub proof fn lemma_collection_file(home: Seq<char>, name: Seq<char>)
    ensures
        collection_path_of(home, name) == trim_end_char(home, '/') + "/.config/cielago"@
            + "/collections"@ + "/"@ + slug(name) + ".json"@,
{
}

// ----- finding a collection -----

/// A name that is there is found as it stands; otherwise the first with the same
/// slug is, and nothing where there is none.
pub proof fn lemma_found(names: Seq<Seq<char>>, typed: Seq<char>, i: int)
    ensures
        names.contains(typed) ==> matched(names, typed) == Some(typed),
        !names.contains(typed) && 0 <= i < names.len() && slug(names[i]) == slug(typed) && (forall|
            k: int,
        |
            0 <= k < i ==> slug(#[trigger] names[k]) != slug(typed)) ==> matched(names, typed) == Some(
            names[i],
        ),
        !names.contains(typed) && (forall|k: int|
            0 <= k < names.len() ==> slug(#[trigger] names[k]) != slug(typed)) ==> matched(
            names,
            typed,
        ) is None,
{
    lemma_slug_found(names, slug(typed), i);
}

proof fn lemma_slug_found(names: Seq<Seq<char>>, s: Seq<char>, i: int)
    ensures
        0 <= i < names.len() && slug(names[i]) == s && (forall|k: int|
            0 <= k < i ==> slug(#[trigger] names[k]) != s) ==> slug_match(names, s) == Some(names[i]),
        (forall|k: int| 0 <= k < names.len() ==> slug(#[trigger] names[k]) != s) ==> slug_match(
            names,
            s,
        ) is None,
    decreases names.len(),
{
    if names.len() > 0 {
        let rest = names.skip(1);
        lemma_slug_found(rest, s, i - 1);
        if 0 < i < names.len() && slug(names[i]) == s && (forall|k: int|
            0 <= k < i ==> slug(#[trigger] names[k]) != s) {
            assert(slug(names[0]) != s);
            assert(rest[i - 1] == names[i]);
            assert forall|k: int| 0 <= k < i - 1 implies slug(#[trigger] rest[k]) != s by {
                assert(rest[k] == names[k + 1]);
            }
        }
        if forall|k: int| 0 <= k < names.len() ==> slug(#[trigger] names[k]) != s {
            assert(slug(names[0]) != s);
            assert forall|k: int| 0 <= k < rest.len() implies slug(#[trigger] rest[k]) != s by {
                assert(rest[k] == names[k + 1]);
            }
        }
    }
}

/// Names are ordered by their first difference; a beginning comes before what it
/// begins.
pub proof fn lemma_order(common: Seq<char>, a: Seq<char>, b: Seq<char>)
    ensures
        sorts_before(common + a, common + b) == sorts_before(a, b),
        a.len() > 0 && b.len() > 0 && a[0] != b[0] ==> sorts_before(a, b) == (a[0] < b[0]),
        sorts_before(Seq::empty(), b),
        a.len() > 0 ==> !sorts_before(a, Seq::empty()),
    decreases common.len(),
{
    if common.len() == 0 {
        assert(common + a =~= a);
        assert(common + b =~= b);
    } else {
        lemma_order(common.skip(1), a, b);
        assert((common + a).skip(1) =~= common.skip(1) + a);
        assert((common + b).skip(1) =~= common.skip(1) + b);
        assert((common + a)[0] == common[0] && (common + b)[0] == common[0]);
    }
}

// ----- settings -----

/// The editor is the one in the settings, else the one of the environment, else
/// `vi`.
pub proof fn lemma_editor(c: ConfigView, env: Option<Seq<char>>)
    ensures
        c.editor is Some && c.editor->0.len() > 0 ==> editor_of(c, env) == c.editor->0,
        c.editor is None && env is Some && env->0.len() > 0 ==> editor_of(c, env) == env->0,
        c.editor is None && env is None ==> editor_of(c, env) == "vi"@,
        c.editor is Some && c.editor->0.len() == 0 ==> editor_of(c, env) == "vi"@,
{
}

/// An editor command is its first word, and the other words are its arguments.
pub proof fn lemma_editor_words(cmd: Seq<char>)
    ensures
        words(cmd).len() > 0 ==> seq![program_of(cmd)] + arguments_of(cmd) == words(cmd),
        words(cmd).len() == 0 ==> program_of(cmd) == "vi"@ && arguments_of(cmd).len() == 0,
{
    if words(cmd).len() > 0 {
        assert(seq![program_of(cmd)] + arguments_of(cmd) =~= words(cmd));
    }
}

} // verus!
