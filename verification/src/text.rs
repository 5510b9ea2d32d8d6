//! Text as sequences of characters: what searching, trimming, splitting and
//! number formatting mean, and the functions that compute them.

use vstd::prelude::*;

verus! {

broadcast use vstd::seq_lib::group_seq_properties;

// ----- std operations used throughout -----

/// `String::push` appends one character.
pub assume_specification[ std::string::String::push ](s: &mut std::string::String, c: char)
    ensures
        final(s)@ == old(s)@.push(c),
;

/// What the `Debug` formatting of a string writes: the string in double quotes,
/// with escapes for the characters that need them.
pub uninterp spec fn debug_text(s: Seq<char>) -> Seq<char>;

/// `format!("{:?}")` of a string.
#[verifier::external_body]
pub(crate) fn quoted(s: &str) -> (r: String)
    ensures
        r@ == debug_text(s@),
{
    format!("{s:?}")
}

// ----- sequences of viewed values -----

/// The views of the items of `v`, in order.
pub open spec fn views<T: View>(v: Seq<T>) -> Seq<T::V> {
    Seq::new(v.len(), |i: int| v[i]@)
}

pub broadcast proof fn lemma_views_push<T: View>(v: Seq<T>, x: T)
    ensures
        #[trigger] views(v.push(x)) == views(v).push(x@),
{
    assert(views(v.push(x)) =~= views(v).push(x@));
}

pub broadcast proof fn lemma_views_update<T: View>(v: Seq<T>, i: int, x: T)
    requires
        0 <= i < v.len(),
    ensures
        #[trigger] views(v.update(i, x)) == views(v).update(i, x@),
{
    assert(views(v.update(i, x)) =~= views(v).update(i, x@));
}

pub broadcast proof fn lemma_views_remove<T: View>(v: Seq<T>, i: int)
    requires
        0 <= i < v.len(),
    ensures
        #[trigger] views(v.remove(i)) == views(v).remove(i),
{
    assert(views(v.remove(i)) =~= views(v).remove(i));
}

pub broadcast proof fn lemma_views_insert<T: View>(v: Seq<T>, i: int, x: T)
    requires
        0 <= i <= v.len(),
    ensures
        #[trigger] views(v.insert(i, x)) == views(v).insert(i, x@),
{
    assert(views(v.insert(i, x)) =~= views(v).insert(i, x@));
}

pub broadcast proof fn lemma_views_add<T: View>(a: Seq<T>, b: Seq<T>)
    ensures
        #[trigger] views(a + b) == views(a) + views(b),
{
    assert(views(a + b) =~= views(a) + views(b));
}

pub broadcast proof fn lemma_views_empty<T: View>(v: Seq<T>)
    ensures
        v.len() == 0 ==> #[trigger] views(v) == Seq::<T::V>::empty(),
{
    if v.len() == 0 {
        assert(views(v) =~= Seq::<T::V>::empty());
    }
}

pub broadcast group group_views {
    lemma_views_push,
    lemma_views_update,
    lemma_views_remove,
    lemma_views_insert,
    lemma_views_add,
    lemma_views_empty,
}

/// A value that may be absent, viewed.
pub open spec fn opt<T: View>(o: Option<T>) -> Option<T::V> {
    match o {
        Some(x) => Some(x@),
        None => None,
    }
}

// ----- character classes -----

/// Characters with the Unicode `White_Space` property.
pub open spec fn is_white(c: char) -> bool {
    ||| '\u{9}' <= c <= '\u{d}'
    ||| c == ' '
    ||| c == '\u{85}'
    ||| c == '\u{a0}'
    ||| c == '\u{1680}'
    ||| '\u{2000}' <= c <= '\u{200a}'
    ||| c == '\u{2028}'
    ||| c == '\u{2029}'
    ||| c == '\u{202f}'
    ||| c == '\u{205f}'
    ||| c == '\u{3000}'
}

pub open spec fn is_digit(c: char) -> bool {
    '0' <= c <= '9'
}

pub open spec fn is_upper(c: char) -> bool {
    'A' <= c <= 'Z'
}

pub open spec fn is_alpha(c: char) -> bool {
    'a' <= c <= 'z' || is_upper(c)
}

pub open spec fn is_alnum(c: char) -> bool {
    is_alpha(c) || is_digit(c)
}

/// ASCII capitals become small letters; everything else stays.
pub open spec fn lower_char(c: char) -> char {
    if is_upper(c) {
        ((c as u32) + 32) as char
    } else {
        c
    }
}

pub open spec fn lower(s: Seq<char>) -> Seq<char> {
    Seq::new(s.len(), |i: int| lower_char(s[i]))
}

pub fn white(c: char) -> (r: bool)
    ensures
        r == is_white(c),
{
    ('\u{9}' <= c && c <= '\u{d}') || c == ' ' || c == '\u{85}' || c == '\u{a0}' || c == '\u{1680}'
        || ('\u{2000}' <= c && c <= '\u{200a}') || c == '\u{2028}' || c == '\u{2029}'
        || c == '\u{202f}' || c == '\u{205f}' || c == '\u{3000}'
}

pub fn digit(c: char) -> (r: bool)
    ensures
        r == is_digit(c),
{
    '0' <= c && c <= '9'
}

pub fn alpha(c: char) -> (r: bool)
    ensures
        r == is_alpha(c),
{
    ('a' <= c && c <= 'z') || ('A' <= c && c <= 'Z')
}

pub fn alnum(c: char) -> (r: bool)
    ensures
        r == is_alnum(c),
{
    alpha(c) || digit(c)
}

pub fn to_lower_char(c: char) -> (r: char)
    ensures
        r == lower_char(c),
{
    if 'A' <= c && c <= 'Z' {
        ((c as u8) + 32) as char
    } else {
        c
    }
}

// ----- whole strings -----

pub fn chars(s: &str) -> (r: Vec<char>)
    ensures
        r@ == s@,
{
    let mut out: Vec<char> = Vec::new();
    for c in it: s.chars()
        invariant
            it.seq() == s@,
            out@ == s@.take(it.index() as int),
    {
        out.push(c);
        assert(out@ =~= s@.take(it.index() + 1));
    }
    assert(s@.take(s@.len() as int) =~= s@);
    out
}

pub fn string_of(c: &[char]) -> (r: String)
    ensures
        r@ == c@,
{
    let mut out = String::new();
    let mut i: usize = 0;
    while i < c.len()
        invariant
            i <= c@.len(),
            out@ == c@.take(i as int),
        decreases c@.len() - i,
    {
        out.push(c[i]);
        i += 1;
        assert(out@ =~= c@.take(i as int));
    }
    assert(c@.take(c@.len() as int) =~= c@);
    out
}

pub fn same(a: &str, b: &str) -> (r: bool)
    ensures
        r == (a@ == b@),
{
    a.to_owned() == b.to_owned()
}

pub fn to_lower(s: &str) -> (r: String)
    ensures
        r@ == lower(s@),
{
    let c = chars(s);
    let mut out = String::new();
    let mut i: usize = 0;
    while i < c.len()
        invariant
            i <= c@.len(),
            c@ == s@,
            out@ == lower(s@).take(i as int),
        decreases c@.len() - i,
    {
        out.push(to_lower_char(c[i]));
        i += 1;
        assert(out@ =~= lower(s@).take(i as int));
    }
    assert(lower(s@).take(s@.len() as int) =~= lower(s@));
    out
}

/// Whether `a` and `b` differ at most in ASCII capitals.
pub fn same_letters(a: &str, b: &str) -> (r: bool)
    ensures
        r == (lower(a@) == lower(b@)),
{
    to_lower(a) == to_lower(b)
}

/// `a` followed by `b`.
pub fn cat(a: &str, b: &str) -> (r: String)
    ensures
        r@ == a@ + b@,
{
    let mut out = a.to_owned();
    out.append(b);
    out
}

pub fn clone_strings(v: &Vec<String>) -> (r: Vec<String>)
    ensures
        views(r@) == views(v@),
{
    let r = v.clone();
    assert(views(r@) =~= views(v@));
    r
}

// ----- searching -----

pub open spec fn occurs_at(s: Seq<char>, pat: Seq<char>, i: int) -> bool {
    0 <= i && i + pat.len() <= s.len() && s.subrange(i, i + pat.len()) == pat
}

/// The first place at or after `from` where `pat` occurs in `s`.
pub open spec fn find_from(s: Seq<char>, pat: Seq<char>, from: int) -> Option<int>
    decreases s.len() + 1 - from,
{
    if from < 0 || from + pat.len() > s.len() {
        None
    } else if occurs_at(s, pat, from) {
        Some(from)
    } else {
        find_from(s, pat, from + 1)
    }
}

pub open spec fn find(s: Seq<char>, pat: Seq<char>) -> Option<int> {
    find_from(s, pat, 0)
}

pub open spec fn contains(s: Seq<char>, pat: Seq<char>) -> bool {
    find(s, pat) is Some
}

pub open spec fn starts_with(s: Seq<char>, pat: Seq<char>) -> bool {
    occurs_at(s, pat, 0)
}

pub open spec fn ends_with(s: Seq<char>, pat: Seq<char>) -> bool {
    occurs_at(s, pat, s.len() - pat.len())
}

/// `find_from` gives the first occurrence, and nothing only where there is none.
pub proof fn lemma_find_from(s: Seq<char>, pat: Seq<char>, from: int)
    requires
        0 <= from,
    ensures
        match find_from(s, pat, from) {
            Some(i) => {
                &&& from <= i
                &&& occurs_at(s, pat, i)
                &&& forall|j: int| from <= j < i ==> !#[trigger] occurs_at(s, pat, j)
            },
            None => forall|j: int| from <= j ==> !#[trigger] occurs_at(s, pat, j),
        },
    decreases s.len() + 1 - from,
{
    if from + pat.len() > s.len() {
    } else if occurs_at(s, pat, from) {
    } else {
        lemma_find_from(s, pat, from + 1);
        assert forall|j: int| from <= j && occurs_at(s, pat, j) implies from + 1 <= j by {
            if j == from {
                assert(false);
            }
        }
    }
}

/// What occurs at `n` and nowhere before is found at `n`.
pub proof fn lemma_found_at(s: Seq<char>, pat: Seq<char>, n: int)
    requires
        occurs_at(s, pat, n),
        forall|j: int| 0 <= j < n ==> !#[trigger] occurs_at(s, pat, j),
    ensures
        find(s, pat) == Some(n),
{
    lemma_find_from(s, pat, 0);
}

/// Whether `c` occurs nowhere in `s`.
pub open spec fn lacks(s: Seq<char>, c: char) -> bool {
    forall|i: int| 0 <= i < s.len() ==> #[trigger] s[i] != c
}

/// A mark is found right after text that does not hold its first character.
pub proof fn lemma_found_after(text: Seq<char>, mark: Seq<char>, rest: Seq<char>)
    requires
        mark.len() > 0,
        lacks(text, mark[0]),
    ensures
        find(text + mark + rest, mark) == Some(text.len() as int),
{
    let all = text + mark + rest;
    let n = text.len() as int;
    assert(all.subrange(n, n + mark.len()) =~= mark);
    assert forall|j: int| 0 <= j < n implies !#[trigger] occurs_at(all, mark, j) by {
        if occurs_at(all, mark, j) {
            assert(all.subrange(j, j + mark.len())[0] == all[j]);
            assert(all[j] == text[j]);
        }
    }
    lemma_found_at(all, mark, n);
}

/// A character that does not occur is not found.
pub proof fn lemma_not_found(s: Seq<char>, c: char)
    ensures
        lacks(s, c) <==> !contains(s, seq![c]),
{
    lemma_find_from(s, seq![c], 0);
    if lacks(s, c) {
        if contains(s, seq![c]) {
            let i = find(s, seq![c])->0;
            assert(s.subrange(i, i + 1)[0] == s[i]);
        }
    } else if !contains(s, seq![c]) {
        let i = choose|i: int| 0 <= i < s.len() && #[trigger] s[i] == c;
        assert(s.subrange(i, i + 1) =~= seq![c]);
        assert(occurs_at(s, seq![c], i));
    }
}

pub fn matches_at(s: &[char], pat: &[char], i: usize) -> (r: bool)
    requires
        i <= s@.len(),
    ensures
        r == occurs_at(s@, pat@, i as int),
{
    if pat.len() > s.len() - i {
        return false;
    }
    let mut k: usize = 0;
    while k < pat.len()
        invariant
            k <= pat@.len(),
            i + pat@.len() <= s.len(),
            forall|j: int| 0 <= j < k ==> s@[i + j] == pat@[j],
        decreases pat@.len() - k,
    {
        if s[i + k] != pat[k] {
            assert(s@.subrange(i as int, i + pat@.len())[k as int] != pat@[k as int]);
            return false;
        }
        k += 1;
    }
    assert(s@.subrange(i as int, i + pat@.len()) =~= pat@);
    true
}

pub fn find_chars(s: &[char], pat: &[char], from: usize) -> (r: Option<usize>)
    requires
        from <= s@.len(),
    ensures
        match r {
            Some(i) => find_from(s@, pat@, from as int) == Some(i as int) && from <= i && i + pat@.len()
                <= s.len(),
            None => find_from(s@, pat@, from as int) is None,
        },
{
    let mut i: usize = from;
    while i < s.len()
        invariant
            from <= i <= s@.len(),
            find_from(s@, pat@, from as int) == find_from(s@, pat@, i as int),
        decreases s@.len() - i,
    {
        if matches_at(s, pat, i) {
            return Some(i);
        }
        assert(i + pat@.len() > s@.len() ==> i + 1 + pat@.len() > s@.len());
        i += 1;
    }
    if matches_at(s, pat, i) {
        return Some(i);
    }
    assert(find_from(s@, pat@, i + 1) is None);
    None
}

pub fn find_str(s: &str, pat: &str) -> (r: Option<usize>)
    ensures
        match r {
            Some(i) => find(s@, pat@) == Some(i as int) && i + pat@.len() <= s@.len() && i
                + pat@.len() <= usize::MAX,
            None => find(s@, pat@) is None,
        },
{
    find_chars(chars(s).as_slice(), chars(pat).as_slice(), 0)
}

pub fn has(s: &str, pat: &str) -> (r: bool)
    ensures
        r == contains(s@, pat@),
{
    find_str(s, pat).is_some()
}

pub fn begins(s: &str, pat: &str) -> (r: bool)
    ensures
        r == starts_with(s@, pat@),
{
    matches_at(chars(s).as_slice(), chars(pat).as_slice(), 0)
}

pub fn finishes(s: &str, pat: &str) -> (r: bool)
    ensures
        r == ends_with(s@, pat@),
{
    let c = chars(s);
    let p = chars(pat);
    if p.len() > c.len() {
        return false;
    }
    matches_at(c.as_slice(), p.as_slice(), c.len() - p.len())
}

/// The first character equal to `c`, as a character index.
pub fn find_char(s: &str, c: char) -> (r: Option<usize>)
    ensures
        match r {
            Some(i) => find(s@, seq![c]) == Some(i as int) && i < s@.len() && i < usize::MAX,
            None => find(s@, seq![c]) is None,
        },
{
    let mut p: Vec<char> = Vec::new();
    p.push(c);
    assert(p@ =~= seq![c]);
    find_chars(chars(s).as_slice(), p.as_slice(), 0)
}

/// Characters `from..to` of `s`.
pub fn part<'a>(s: &'a str, from: usize, to: usize) -> (r: &'a str)
    requires
        from <= to <= s@.len(),
    ensures
        r@ == s@.subrange(from as int, to as int),
{
    s.substring_char(from, to)
}

/// Everything from character `from` on.
pub fn rest<'a>(s: &'a str, from: usize) -> (r: &'a str)
    requires
        from <= s@.len(),
    ensures
        r@ == s@.skip(from as int),
{
    let n = s.unicode_len();
    s.substring_char(from, n)
}

/// Replaces every occurrence of `pat`, left to right.
pub open spec fn replace_all(s: Seq<char>, pat: Seq<char>, with: Seq<char>) -> Seq<char>
    decreases s.len(),
{
    match find(s, pat) {
        Some(i) => if pat.len() > 0 && 0 <= i && i + pat.len() <= s.len() {
            s.take(i) + with + replace_all(s.skip(i + pat.len()), pat, with)
        } else {
            s
        },
        None => s,
    }
}

/// Replacing leaves a first character that no occurrence can begin with.
pub proof fn lemma_replace_keeps_head(s: Seq<char>, pat: Seq<char>, with: Seq<char>)
    requires
        s.len() > 0,
        pat.len() > 0,
        s[0] != pat[0],
    ensures
        replace_all(s, pat, with).len() > 0,
        replace_all(s, pat, with)[0] == s[0],
{
    lemma_find_from(s, pat, 0);
    match find(s, pat) {
        Some(i) => {
            if i == 0 {
                assert(s.subrange(0, pat.len() as int)[0] == s[0]);
            }
        },
        None => {},
    }
}

pub fn replace(s: &str, pat: &str, with: &str) -> (r: String)
    requires
        pat@.len() > 0,
    ensures
        r@ == replace_all(s@, pat@, with@),
{
    let mut out = String::new();
    let mut tail: &str = s;
    assert(out@ + replace_all(tail@, pat@, with@) =~= replace_all(s@, pat@, with@));
    loop
        invariant
            pat@.len() > 0,
            out@ + replace_all(tail@, pat@, with@) == replace_all(s@, pat@, with@),
        decreases tail@.len(),
    {
        match find_str(tail, pat) {
            Some(i) => {
                let ghost before = out@;
                let ghost rem = tail@;
                out.append(part(tail, 0, i));
                out.append(with);
                tail = rest(tail, i + pat.unicode_len());
                assert(out@ + replace_all(tail@, pat@, with@) =~= before + (rem.take(i as int) + with@
                    + replace_all(rem.skip(i + pat@.len()), pat@, with@)));
            },
            None => {
                out.append(tail);
                return out;
            },
        }
    }
}

// ----- trimming -----

pub open spec fn trim_start(s: Seq<char>) -> Seq<char>
    decreases s.len(),
{
    if s.len() > 0 && is_white(s[0]) {
        trim_start(s.skip(1))
    } else {
        s
    }
}

pub open spec fn trim_end(s: Seq<char>) -> Seq<char>
    decreases s.len(),
{
    if s.len() > 0 && is_white(s.last()) {
        trim_end(s.drop_last())
    } else {
        s
    }
}

pub open spec fn trim(s: Seq<char>) -> Seq<char> {
    trim_end(trim_start(s))
}

/// `s` without the run of `c` at its end.
pub open spec fn trim_end_char(s: Seq<char>, c: char) -> Seq<char>
    decreases s.len(),
{
    if s.len() > 0 && s.last() == c {
        trim_end_char(s.drop_last(), c)
    } else {
        s
    }
}

/// `s` without the run of `c` at its start.
pub open spec fn trim_start_char(s: Seq<char>, c: char) -> Seq<char>
    decreases s.len(),
{
    if s.len() > 0 && s[0] == c {
        trim_start_char(s.skip(1), c)
    } else {
        s
    }
}

pub fn trimmed_start<'a>(s: &'a str) -> (r: &'a str)
    ensures
        r@ == trim_start(s@),
{
    let c = chars(s);
    let mut i: usize = 0;
    assert(s@.skip(0) =~= s@);
    while i < c.len() && white(c[i])
        invariant
            i <= c@.len(),
            c@ == s@,
            trim_start(s@) == trim_start(s@.skip(i as int)),
        decreases c@.len() - i,
    {
        assert(s@.skip(i as int).skip(1) =~= s@.skip(i + 1));
        i += 1;
    }
    rest(s, i)
}

pub fn trimmed_end<'a>(s: &'a str) -> (r: &'a str)
    ensures
        r@ == trim_end(s@),
{
    let c = chars(s);
    let mut n: usize = c.len();
    assert(s@.take(s@.len() as int) =~= s@);
    while n > 0 && white(c[n - 1])
        invariant
            n <= c@.len(),
            c@ == s@,
            trim_end(s@) == trim_end(s@.take(n as int)),
        decreases n,
    {
        assert(s@.take(n as int).drop_last() =~= s@.take(n - 1));
        n -= 1;
    }
    part(s, 0, n)
}

pub fn trimmed<'a>(s: &'a str) -> (r: &'a str)
    ensures
        r@ == trim(s@),
{
    trimmed_end(trimmed_start(s))
}

pub fn without_trailing<'a>(s: &'a str, c: char) -> (r: &'a str)
    ensures
        r@ == trim_end_char(s@, c),
{
    let v = chars(s);
    let mut n: usize = v.len();
    assert(s@.take(s@.len() as int) =~= s@);
    while n > 0 && v[n - 1] == c
        invariant
            n <= v@.len(),
            v@ == s@,
            trim_end_char(s@, c) == trim_end_char(s@.take(n as int), c),
        decreases n,
    {
        assert(s@.take(n as int).drop_last() =~= s@.take(n - 1));
        n -= 1;
    }
    part(s, 0, n)
}

pub fn without_leading<'a>(s: &'a str, c: char) -> (r: &'a str)
    ensures
        r@ == trim_start_char(s@, c),
{
    let v = chars(s);
    let mut i: usize = 0;
    assert(s@.skip(0) =~= s@);
    while i < v.len() && v[i] == c
        invariant
            i <= v@.len(),
            v@ == s@,
            trim_start_char(s@, c) == trim_start_char(s@.skip(i as int), c),
        decreases v@.len() - i,
    {
        assert(s@.skip(i as int).skip(1) =~= s@.skip(i + 1));
        i += 1;
    }
    rest(s, i)
}

/// Trimming what is trimmed changes nothing.
pub proof fn lemma_trim_idempotent(s: Seq<char>)
    ensures
        trim(trim(s)) == trim(s),
{
    lemma_trim_start_head(s);
    let t = trim_start(s);
    lemma_trim_end_prefix(t);
    lemma_trim_end_last(t);
}

/// Trimming a text whose first character is no blank takes away blanks at its end
/// alone: it stops at the last character `s[k]` that is none.
pub proof fn lemma_trim_reaches(s: Seq<char>, k: int)
    requires
        0 <= k < s.len(),
        !is_white(s[0]),
        !is_white(s[k]),
    ensures
        k < trim(s).len() <= s.len(),
        trim(s) == s.take(trim(s).len() as int),
{
    lemma_trim_end_prefix(s);
    lemma_trim_end_reaches(s, k);
}

proof fn lemma_trim_end_reaches(s: Seq<char>, k: int)
    requires
        0 <= k < s.len(),
        !is_white(s[k]),
    ensures
        k < trim_end(s).len(),
    decreases s.len(),
{
    if is_white(s.last()) {
        lemma_trim_end_reaches(s.drop_last(), k);
    }
}

/// What is trimmed does not begin with a blank.
pub proof fn lemma_trimmed_head(s: Seq<char>)
    requires
        trim(s) == s,
        s.len() > 0,
    ensures
        !is_white(s[0]),
{
    if is_white(s[0]) {
        lemma_trim_start_len(s.skip(1));
        lemma_trim_end_prefix(trim_start(s));
    }
}

/// Trimming brings no character in.
pub proof fn lemma_trim_lacks(s: Seq<char>, c: char)
    requires
        lacks(s, c),
    ensures
        lacks(trim(s), c),
{
    lemma_trim_start_lacks(s, c);
    let t = trim_start(s);
    lemma_trim_end_prefix(t);
    assert forall|i: int| 0 <= i < trim(s).len() implies #[trigger] trim(s)[i] != c by {
        assert(t[i] != c);
    }
}

proof fn lemma_trim_start_lacks(s: Seq<char>, c: char)
    requires
        lacks(s, c),
    ensures
        lacks(trim_start(s), c),
    decreases s.len(),
{
    if s.len() > 0 && is_white(s[0]) {
        assert forall|i: int| 0 <= i < s.skip(1).len() implies #[trigger] s.skip(1)[i] != c by {
            assert(s[i + 1] != c);
        }
        lemma_trim_start_lacks(s.skip(1), c);
    }
}

proof fn lemma_trim_start_head(s: Seq<char>)
    ensures
        trim_start(s).len() > 0 ==> !is_white(trim_start(s)[0]),
    decreases s.len(),
{
    if s.len() > 0 && is_white(s[0]) {
        lemma_trim_start_head(s.skip(1));
    }
}

proof fn lemma_trim_end_prefix(s: Seq<char>)
    ensures
        trim_end(s).len() <= s.len(),
        trim_end(s) == s.take(trim_end(s).len() as int),
    decreases s.len(),
{
    if s.len() > 0 && is_white(s.last()) {
        lemma_trim_end_prefix(s.drop_last());
        assert(s.drop_last().take(trim_end(s).len() as int) =~= s.take(trim_end(s).len() as int));
    } else {
        assert(s.take(s.len() as int) =~= s);
    }
}

proof fn lemma_trim_end_last(s: Seq<char>)
    ensures
        trim_end(s).len() > 0 ==> !is_white(trim_end(s).last()),
    decreases s.len(),
{
    if s.len() > 0 && is_white(s.last()) {
        lemma_trim_end_last(s.drop_last());
    }
}

// ----- splitting and joining -----

/// The pieces of `s` between the occurrences of `c`; always at least one.
pub open spec fn split(s: Seq<char>, c: char) -> Seq<Seq<char>>
    decreases s.len(),
{
    match find(s, seq![c]) {
        Some(i) => if 0 <= i < s.len() {
            seq![s.take(i)] + split(s.skip(i + 1), c)
        } else {
            seq![s]
        },
        None => seq![s],
    }
}

pub fn split_str(s: &str, c: char) -> (r: Vec<String>)
    ensures
        views(r@) == split(s@, c),
        r@.len() >= 1,
{
    broadcast use group_views;

    let mut out: Vec<String> = Vec::new();
    let mut tail: &str = s;
    assert(views(out@) + split(tail@, c) =~= split(s@, c));
    loop
        invariant
            views(out@) + split(tail@, c) == split(s@, c),
        decreases tail@.len(),
    {
        match find_char(tail, c) {
            Some(i) => {
                let ghost before = views(out@);
                let ghost rem = tail@;
                out.push(part(tail, 0, i).to_owned());
                tail = rest(tail, i + 1);
                assert(views(out@) + split(tail@, c) =~= before + (seq![rem.take(i as int)] + split(
                    rem.skip(i + 1),
                    c,
                )));
            },
            None => {
                out.push(tail.to_owned());
                return out;
            },
        }
    }
}

/// `parts` with `sep` between neighbours.
pub open spec fn join(parts: Seq<Seq<char>>, sep: Seq<char>) -> Seq<char>
    decreases parts.len(),
{
    if parts.len() == 0 {
        Seq::empty()
    } else if parts.len() == 1 {
        parts[0]
    } else {
        join(parts.drop_last(), sep) + sep + parts.last()
    }
}

pub fn join_strings(parts: &Vec<String>, sep: &str) -> (r: String)
    ensures
        r@ == join(views(parts@), sep@),
{
    let mut out = String::new();
    let mut i: usize = 0;
    while i < parts.len()
        invariant
            i <= parts@.len(),
            out@ == join(views(parts@).take(i as int), sep@),
        decreases parts@.len() - i,
    {
        if i > 0 {
            out.append(sep);
        }
        out.append(parts[i].as_str());
        assert(views(parts@).take(i + 1).drop_last() =~= views(parts@).take(i as int));
        i += 1;
    }
    assert(views(parts@).take(parts@.len() as int) =~= views(parts@));
    out
}

/// `s` without one carriage return at its end.
pub open spec fn without_return(s: Seq<char>) -> Seq<char> {
    if s.len() > 0 && s.last() == '\r' {
        s.drop_last()
    } else {
        s
    }
}

/// The lines of `s`, each ended by a newline with or without a carriage return
/// before it; the last line need not be ended.
pub open spec fn lines(s: Seq<char>) -> Seq<Seq<char>> {
    let pieces = split(s, '\n');
    let ended = Seq::new((pieces.len() - 1) as nat, |i: int| without_return(pieces[i]));
    if pieces.last().len() == 0 {
        ended
    } else {
        ended.push(pieces.last())
    }
}

pub fn split_lines(s: &str) -> (r: Vec<String>)
    ensures
        views(r@) == lines(s@),
{
    broadcast use group_views;

    let pieces = split_str(s, '\n');
    let ghost all = views(pieces@);
    let ghost ended = Seq::new((all.len() - 1) as nat, |i: int| without_return(all[i]));
    let n: usize = pieces.len() - 1;
    let mut out: Vec<String> = Vec::new();
    let mut i: usize = 0;
    while i < n
        invariant
            i <= n,
            n + 1 == pieces@.len(),
            all == views(pieces@),
            ended == Seq::new((all.len() - 1) as nat, |i: int| without_return(all[i])),
            views(out@) == ended.take(i as int),
        decreases n - i,
    {
        let c = chars(pieces[i].as_str());
        let ghost held = views(out@);
        assert(all[i as int] == pieces@[i as int]@);
        if c.len() > 0 && c[c.len() - 1] == '\r' {
            let t = part(pieces[i].as_str(), 0, c.len() - 1);
            assert(t@ =~= without_return(all[i as int]));
            out.push(t.to_owned());
        } else {
            out.push(pieces[i].clone());
        }
        assert(views(out@) == held.push(without_return(all[i as int])));
        assert(ended[i as int] == without_return(all[i as int]));
        i += 1;
        assert(views(out@) =~= ended.take(i as int));
    }
    assert(ended.take(n as int) =~= ended);
    assert(all[n as int] == pieces@[n as int]@);
    if !pieces[n].as_str().is_empty() {
        out.push(pieces[n].clone());
    }
    out
}

/// The runs of characters that are not white space.
pub open spec fn words(s: Seq<char>) -> Seq<Seq<char>>
    decreases s.len(),
{
    let t = trim_start(s);
    let n = word_len(t);
    if n == 0 || n > t.len() || t.len() > s.len() {
        Seq::empty()
    } else {
        seq![t.take(n as int)] + words(t.skip(n as int))
    }
}

/// How many characters at the start of `s` are not white space.
pub open spec fn word_len(s: Seq<char>) -> nat
    decreases s.len(),
{
    if s.len() > 0 && !is_white(s[0]) {
        1 + word_len(s.skip(1))
    } else {
        0
    }
}

proof fn lemma_word_len(s: Seq<char>)
    ensures
        word_len(s) <= s.len(),
        s.len() > 0 && !is_white(s[0]) ==> word_len(s) > 0,
    decreases s.len(),
{
    if s.len() > 0 && !is_white(s[0]) {
        lemma_word_len(s.skip(1));
    }
}

pub proof fn lemma_trim_start_len(s: Seq<char>)
    ensures
        trim_start(s).len() <= s.len(),
    decreases s.len(),
{
    if s.len() > 0 && is_white(s[0]) {
        lemma_trim_start_len(s.skip(1));
    }
}

pub fn split_words(s: &str) -> (r: Vec<String>)
    ensures
        views(r@) == words(s@),
{
    broadcast use group_views;

    let mut out: Vec<String> = Vec::new();
    let mut tail: &str = s;
    assert(views(out@) + words(tail@) =~= words(s@));
    loop
        invariant
            views(out@) + words(tail@) == words(s@),
        decreases tail@.len(),
    {
        let t = trimmed_start(tail);
        let c = chars(t);
        let mut n: usize = 0;
        assert(t@.skip(0) =~= t@);
        while n < c.len() && !white(c[n])
            invariant
                n <= c@.len(),
                c@ == t@,
                word_len(t@) == n + word_len(t@.skip(n as int)),
            decreases c@.len() - n,
        {
            assert(t@.skip(n as int).skip(1) =~= t@.skip(n + 1));
            n += 1;
        }
        proof {
            lemma_trim_start_len(tail@);
            lemma_trim_start_head(tail@);
            lemma_word_len(t@);
        }
        if n == 0 {
            assert(views(out@) + words(tail@) =~= views(out@));
            return out;
        }
        let ghost before = views(out@);
        let ghost rem = tail@;
        out.push(part(t, 0, n).to_owned());
        tail = rest(t, n);
        assert(views(out@) + words(tail@) =~= before + (seq![t@.take(n as int)] + words(
            t@.skip(n as int),
        )));
    }
}

// ----- numbers -----

pub open spec fn digit_char(d: nat) -> char {
    (48 + d) as char
}

/// `n` in decimal.
pub open spec fn decimal(n: nat) -> Seq<char>
    decreases n,
{
    if n < 10 {
        seq![digit_char(n)]
    } else {
        decimal(n / 10).push(digit_char(n % 10))
    }
}

/// `n` in decimal, with a sign when negative.
pub open spec fn decimal_int(n: int) -> Seq<char> {
    if n < 0 {
        seq!['-'] + decimal((-n) as nat)
    } else {
        decimal(n as nat)
    }
}

/// `s` filled up on the left with `c` to at least `width` characters.
pub open spec fn pad_left(s: Seq<char>, width: nat, c: char) -> Seq<char>
    decreases width - s.len(),
{
    if s.len() >= width {
        s
    } else {
        pad_left(seq![c] + s, width, c)
    }
}

/// `s` filled up on the right with spaces to at least `width` characters.
pub open spec fn pad_right(s: Seq<char>, width: nat) -> Seq<char>
    decreases width - s.len(),
{
    if s.len() >= width {
        s
    } else {
        pad_right(s.push(' '), width)
    }
}

pub fn dec(n: u128) -> (r: String)
    ensures
        r@ == decimal(n as nat),
    decreases n,
{
    let d: u8 = (n % 10) as u8;
    let c: char = (48u8 + d) as char;
    if n < 10 {
        let mut out = String::new();
        out.push(c);
        assert(out@ =~= seq![digit_char(n as nat)]);
        out
    } else {
        let mut out = dec(n / 10);
        out.push(c);
        out
    }
}

pub fn dec_int(n: i128) -> (r: String)
    requires
        n > i128::MIN,
    ensures
        r@ == decimal_int(n as int),
{
    if n < 0 {
        let mut out = String::new();
        out.push('-');
        out.append(dec((-n) as u128).as_str());
        assert(out@ =~= seq!['-'] + decimal((-n) as nat));
        out
    } else {
        dec(n as u128)
    }
}

pub fn pad_left_with(s: &str, width: usize, c: char) -> (r: String)
    ensures
        r@ == pad_left(s@, width as nat, c),
{
    let mut out = s.to_owned();
    let mut n: usize = s.unicode_len();
    while n < width
        invariant
            n == out@.len(),
            pad_left(s@, width as nat, c) == pad_left(out@, width as nat, c),
        decreases width - n,
    {
        let mut next = String::new();
        next.push(c);
        next.append(out.as_str());
        assert(next@ =~= seq![c] + out@);
        out = next;
        n += 1;
    }
    out
}

pub fn pad_right_to(s: &str, width: usize) -> (r: String)
    ensures
        r@ == pad_right(s@, width as nat),
{
    let mut out = s.to_owned();
    let mut n: usize = s.unicode_len();
    while n < width
        invariant
            n == out@.len(),
            pad_right(s@, width as nat) == pad_right(out@, width as nat),
        decreases width - n,
    {
        out.push(' ');
        n += 1;
    }
    out
}

/// The value of a run of decimal digits; `None` when empty or anything else
/// stands in it.
pub open spec fn digits_value(s: Seq<char>) -> Option<nat>
    decreases s.len(),
{
    if s.len() == 0 || !is_digit(s.last()) {
        None
    } else if s.len() == 1 {
        Some((s[0] as nat - 48) as nat)
    } else {
        match digits_value(s.drop_last()) {
            Some(v) => Some(10 * v + (s.last() as nat - 48) as nat),
            None => None,
        }
    }
}

/// Reads a decimal number up to `max`; `None` for anything else.
pub fn parse_digits(c: &[char], max: u128) -> (r: Option<u128>)
    requires
        max <= u64::MAX,
    ensures
        match digits_value(c@) {
            Some(v) => if v <= max {
                r == Some(v as u128)
            } else {
                r is None
            },
            None => r is None,
        },
{
    if c.len() == 0 {
        return None;
    }
    let mut v: u128 = 0;
    let mut big: bool = false;
    let mut i: usize = 0;
    while i < c.len()
        invariant
            0 < c@.len(),
            i <= c@.len(),
            max <= u64::MAX,
            v <= max,
            i > 0 ==> (match digits_value(c@.take(i as int)) {
                Some(w) => if big {
                    w > max
                } else {
                    w == v
                },
                None => false,
            }),
            i == 0 ==> v == 0 && !big,
        decreases c@.len() - i,
    {
        let ghost p = c@.take(i as int);
        let ghost q = c@.take(i + 1);
        assert(q.drop_last() =~= p);
        assert(q.last() == c@[i as int]);
        if !digit(c[i]) {
            proof {
                lemma_digits_prefix(c@, i + 1);
            }
            return None;
        }
        let d: u128 = (c[i] as u32 - 48) as u128;
        if !big {
            let w: u128 = 10 * v + d;
            if w > max {
                big = true;
            } else {
                v = w;
            }
        }
        i += 1;
    }
    assert(c@.take(c@.len() as int) =~= c@);
    if big {
        None
    } else {
        Some(v)
    }
}

/// A run with a bad prefix has no value.
proof fn lemma_digits_prefix(s: Seq<char>, n: int)
    requires
        0 < n <= s.len(),
        digits_value(s.take(n)) is None,
    ensures
        digits_value(s) is None,
    decreases s.len(),
{
    if n == s.len() {
        assert(s.take(n) =~= s);
    } else {
        assert(s.drop_last().take(n) =~= s.take(n));
        lemma_digits_prefix(s.drop_last(), n);
    }
}

/// A decimal integer with an optional sign.
pub open spec fn int_value(s: Seq<char>) -> Option<int> {
    if s.len() > 0 && s[0] == '-' {
        match digits_value(s.skip(1)) {
            Some(v) => Some(-(v as int)),
            None => None,
        }
    } else if s.len() > 0 && s[0] == '+' {
        match digits_value(s.skip(1)) {
            Some(v) => Some(v as int),
            None => None,
        }
    } else {
        match digits_value(s) {
            Some(v) => Some(v as int),
            None => None,
        }
    }
}

pub fn parse_i64(s: &str) -> (r: Option<i64>)
    ensures
        match int_value(s@) {
            Some(v) => if i64::MIN <= v <= i64::MAX {
                r == Some(v as i64)
            } else {
                r is None
            },
            None => r is None,
        },
{
    let c = chars(s);
    if c.len() > 0 && (c[0] == '-' || c[0] == '+') {
        let negative: bool = c[0] == '-';
        let body = vstd::slice::slice_subrange(c.as_slice(), 1, c.len());
        assert(body@ =~= s@.skip(1));
        match parse_digits(body, 0x8000_0000_0000_0000) {
            Some(v) => if negative {
                Some((-(v as i128)) as i64)
            } else if v <= 0x7fff_ffff_ffff_ffff {
                Some(v as i64)
            } else {
                None
            },
            None => None,
        }
    } else {
        match parse_digits(c.as_slice(), 0x7fff_ffff_ffff_ffff) {
            Some(v) => Some(v as i64),
            None => None,
        }
    }
}

/// An unsigned number with an optional plus sign.
pub open spec fn nat_value(s: Seq<char>) -> Option<nat> {
    if s.len() > 0 && s[0] == '+' {
        digits_value(s.skip(1))
    } else {
        digits_value(s)
    }
}

pub fn parse_u64(s: &str) -> (r: Option<u64>)
    ensures
        match nat_value(s@) {
            Some(v) => if v <= u64::MAX {
                r == Some(v as u64)
            } else {
                r is None
            },
            None => r is None,
        },
{
    let c = chars(s);
    let start: usize = if c.len() > 0 && c[0] == '+' {
        1
    } else {
        0
    };
    let body = vstd::slice::slice_subrange(c.as_slice(), start, c.len());
    assert(body@ =~= s@.skip(start as int));
    assert(s@.skip(0) =~= s@);
    match parse_digits(body, 0xffff_ffff_ffff_ffff) {
        Some(v) => Some(v as u64),
        None => None,
    }
}

// ----- hexadecimal -----

pub open spec fn hex_char(d: nat, upper: bool) -> char {
    if d < 10 {
        (48 + d) as char
    } else if upper {
        (55 + d) as char
    } else {
        (87 + d) as char
    }
}

pub fn hex_digit(d: u8, upper: bool) -> (r: char)
    requires
        d < 16,
    ensures
        r == hex_char(d as nat, upper),
{
    if d < 10 {
        (48u8 + d) as char
    } else if upper {
        (55u8 + d) as char
    } else {
        (87u8 + d) as char
    }
}

} // verus!
