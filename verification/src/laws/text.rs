//! Trimming, splitting into words, letters and numbers.

use vstd::prelude::*;

use crate::laws::pointers::lemma_split_pieces;
use crate::text::{
    decimal, is_white, lacks, lemma_trim_reaches, lines, lower, pad_right, split, trim, trim_end_char,
    trim_start, trim_start_char, word_len, words,
};

verus! {

/// Whether a text is blank from end to end.
pub open spec fn all_white(s: Seq<char>) -> bool {
    forall|i: int| 0 <= i < s.len() ==> is_white(#[trigger] s[i])
}

/// Whether a text holds no blank.
pub open spec fn no_white(s: Seq<char>) -> bool {
    forall|i: int| 0 <= i < s.len() ==> !is_white(#[trigger] s[i])
}

/// Spaces, tabs and line ends are blanks; letters, digits and marks are not.
pub proof fn lemma_blanks()
    ensures
        is_white(' ') && is_white('\t') && is_white('\n') && is_white('\r'),
        !is_white('a') && !is_white('Z') && !is_white('0') && !is_white('/') && !is_white('{')
            && !is_white('"') && !is_white('-') && !is_white('.'),
{
}

/// Blanks in front go.
pub proof fn lemma_trim_front(blank: Seq<char>, s: Seq<char>)
    requires
        all_white(blank),
    ensures
        trim_start(blank + s) == trim_start(s),
    decreases blank.len(),
{
    if blank.len() > 0 {
        let rest = blank.skip(1);
        assert((blank + s)[0] == blank[0]);
        assert((blank + s).skip(1) =~= rest + s);
        assert forall|i: int| 0 <= i < rest.len() implies is_white(#[trigger] rest[i]) by {
            assert(rest[i] == blank[i + 1]);
        }
        lemma_trim_front(rest, s);
    } else {
        assert(blank + s =~= s);
    }
}

proof fn lemma_trim_back(s: Seq<char>, blank: Seq<char>)
    requires
        all_white(blank),
    ensures
        crate::text::trim_end(s + blank) == crate::text::trim_end(s),
    decreases blank.len(),
{
    if blank.len() > 0 {
        let rest = blank.drop_last();
        assert((s + blank).last() == blank[blank.len() - 1]);
        assert((s + blank).drop_last() =~= s + rest);
        assert forall|i: int| 0 <= i < rest.len() implies is_white(#[trigger] rest[i]) by {
            assert(rest[i] == blank[i]);
        }
        lemma_trim_back(s, rest);
    } else {
        assert(s + blank =~= s);
    }
}

/// Trimming takes the blanks off both ends and nothing else.
pub proof fn lemma_trim(before: Seq<char>, s: Seq<char>, after: Seq<char>)
    requires
        all_white(before),
        all_white(after),
        s.len() > 0,
        !is_white(s[0]),
        !is_white(s.last()),
    ensures
        trim(before + s + after) == s,
        trim(s) == s,
{
    assert(before + s + after =~= before + (s + after));
    lemma_trim_front(before, s + after);
    assert((s + after)[0] == s[0]);
    assert(trim_start(s + after) == s + after);
    lemma_trim_back(s, after);
    lemma_trim_reaches(s, s.len() - 1);
    assert(s.take(s.len() as int) =~= s);
    assert(trim_start(s) == s);
}

/// A blank text is trimmed to nothing.
pub proof fn lemma_trim_blank(s: Seq<char>)
    requires
        all_white(s),
    ensures
        trim(s).len() == 0,
{
    lemma_trim_front(s, Seq::empty());
    assert(s + Seq::<char>::empty() =~= s);
}

/// A run of one character goes from the end, and from the start, and nothing else
/// does.
pub proof fn lemma_runs(s: Seq<char>, c: char)
    ensures
        s.len() > 0 && s.last() != c ==> trim_end_char(s, c) == s && trim_end_char(s.push(c), c) == s
            && trim_end_char(s.push(c).push(c), c) == s,
        s.len() > 0 && s[0] != c ==> trim_start_char(s, c) == s && trim_start_char(seq![c] + s, c)
            == s,
{
    assert(s.push(c).drop_last() =~= s);
    assert(s.push(c).push(c).drop_last() =~= s.push(c));
    assert(trim_end_char(s.push(c), c) == trim_end_char(s, c));
    assert((seq![c] + s).skip(1) =~= s);
    assert(trim_start_char(seq![c] + s, c) == trim_start_char(s, c));
}

/// The first word is what stands before the first blank.
pub proof fn lemma_words(word: Seq<char>, rest: Seq<char>)
    requires
        word.len() > 0,
        no_white(word),
    ensures
        words(word + seq![' '] + rest) == seq![word] + words(rest),
        words(word) == seq![word],
        words(Seq::<char>::empty()).len() == 0,
{
    let all = word + seq![' '] + rest;
    assert(all[0] == word[0]);
    assert(trim_start(all) == all);
    lemma_word_ends(word, seq![' '] + rest);
    assert(word + (seq![' '] + rest) =~= all);
    assert(all.take(word.len() as int) =~= word);
    let tail = all.skip(word.len() as int);
    assert(tail =~= seq![' '] + rest);
    lemma_trim_front(seq![' '], rest);
    assert(words(tail) == words(rest)) by {
        lemma_words_trimmed(tail, rest);
    }
    assert(trim_start(word) == word);
    lemma_word_ends(word, Seq::empty());
    assert(word + Seq::<char>::empty() =~= word);
    assert(word.take(word.len() as int) =~= word);
    assert(word.skip(word.len() as int) =~= Seq::<char>::empty());
    assert(words(Seq::<char>::empty()) =~= Seq::<Seq<char>>::empty());
    assert(seq![word] + Seq::<Seq<char>>::empty() =~= seq![word]);
}

proof fn lemma_word_ends(word: Seq<char>, rest: Seq<char>)
    requires
        no_white(word),
        rest.len() == 0 || is_white(rest[0]),
    ensures
        word_len(word + rest) == word.len(),
    decreases word.len(),
{
    let all = word + rest;
    if word.len() > 0 {
        assert(all[0] == word[0]);
        assert(all.skip(1) =~= word.skip(1) + rest);
        assert forall|i: int| 0 <= i < word.skip(1).len() implies !is_white(
            #[trigger] word.skip(1)[i],
        ) by {
            assert(word.skip(1)[i] == word[i + 1]);
        }
        lemma_word_ends(word.skip(1), rest);
    } else {
        assert(all =~= rest);
    }
}

proof fn lemma_words_trimmed(a: Seq<char>, b: Seq<char>)
    requires
        trim_start(a) == trim_start(b),
    ensures
        words(a) == words(b),
{
    crate::text::lemma_trim_start_len(a);
    crate::text::lemma_trim_start_len(b);
}

/// Capitals become small letters, everything else stays, and nothing moves.
pub proof fn lemma_lower(s: Seq<char>, i: int)
    requires
        0 <= i < s.len(),
    ensures
        lower(s).len() == s.len(),
        s[i] == 'A' ==> lower(s)[i] == 'a',
        s[i] == 'Z' ==> lower(s)[i] == 'z',
        'A' <= s[i] <= 'Z' ==> lower(s)[i] as u32 == s[i] as u32 + 32,
        !('A' <= s[i] <= 'Z') ==> lower(s)[i] == s[i],
        lower(lower(s)) == lower(s),
{
    assert(lower(lower(s)) =~= lower(s));
}

/// A number is written digit by digit.
pub proof fn lemma_decimal(n: nat, d: nat)
    requires
        d < 10,
    ensures
        decimal(0) == seq!['0'],
        decimal(7) == seq!['7'],
        n > 0 ==> decimal((10 * n + d) as nat) == decimal(n) + decimal(d),
{
    if n > 0 {
        let m = (10 * n + d) as nat;
        assert(m / 10 == n && m % 10 == d);
        assert(decimal(m) =~= decimal(n) + decimal(d));
    }
}

/// Filling up adds blanks behind the text, up to the width.
pub proof fn lemma_padding(s: Seq<char>, width: nat)
    ensures
        pad_right(s, width).len() == (if s.len() >= width {
            s.len()
        } else {
            width
        }),
        pad_right(s, width).take(s.len() as int) == s,
        forall|i: int| s.len() <= i < pad_right(s, width).len() ==> #[trigger] pad_right(s, width)[i]
            == ' ',
    decreases width - s.len(),
{
    if s.len() < width {
        lemma_padding(s.push(' '), width);
        let all = pad_right(s, width);
        assert(all == pad_right(s.push(' '), width));
        assert(all.take(s.len() as int) =~= s) by {
            assert forall|i: int| 0 <= i < s.len() implies all[i] == s[i] by {
                assert(all.take(s.push(' ').len() as int)[i] == s.push(' ')[i]);
            }
        }
        assert forall|i: int| s.len() <= i < all.len() implies #[trigger] all[i] == ' ' by {
            if i == s.len() {
                assert(all.take(s.push(' ').len() as int)[i] == s.push(' ')[i]);
            }
        }
    } else {
        assert(s.take(s.len() as int) =~= s);
    }
}

/// The other blanks that Unicode knows count as blanks too.
pub proof fn lemma_wide_blanks(c: char)
    requires
        c == '\u{b}' || c == '\u{c}' || c == '\u{85}' || c == '\u{a0}' || c == '\u{1680}' || ('\u{2000}'
            <= c <= '\u{200a}') || c == '\u{2028}' || c == '\u{2029}' || c == '\u{202f}' || c
            == '\u{205f}' || c == '\u{3000}',
    ensures
        is_white(c),
        trim(seq![c]).len() == 0,
{
    lemma_trim_blank(seq![c]);
}

/// A line ends at a line feed, with or without a carriage return before it.
pub proof fn lemma_lines(first: Seq<char>, rest: Seq<char>)
    requires
        lacks(first, '\n'),
        lacks(first, '\r'),
    ensures
        lines(first + seq!['\n'] + rest) == seq![first] + lines(rest),
        lines(first + seq!['\r', '\n'] + rest) == seq![first] + lines(rest),
        first.len() > 0 ==> lines(first) == seq![first],
{
    lemma_split_pieces(first, rest, '\n');
    let with_return = first.push('\r');
    assert(lacks(with_return, '\n'));
    lemma_split_pieces(with_return, rest, '\n');
    assert(with_return + seq!['\n'] + rest =~= first + seq!['\r', '\n'] + rest);
    assert(with_return.drop_last() =~= first);
    let pieces = split(rest, '\n');
    lemma_some_piece(rest);
    if first.len() > 0 {
        assert(first[first.len() - 1] != '\r');
        assert(lines(first) =~= seq![first]);
    }
    assert(lines(first + seq!['\n'] + rest) =~= seq![first] + lines(rest));
    assert(lines(with_return + seq!['\n'] + rest) =~= seq![first] + lines(rest));
}

proof fn lemma_some_piece(s: Seq<char>)
    ensures
        split(s, '\n').len() > 0,
{
}

} // verus!
