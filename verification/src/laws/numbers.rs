//! Numbers and identifiers as they are written, and how far a view scrolls.

use vstd::prelude::*;

use crate::ids::{hex_fixed, hyphenated};
use crate::json::{index_value, lemma_decimal_nonempty, pointed, step, unescaped, Json};
use crate::laws::pointers::{lemma_escapes, lemma_split_pieces};
use crate::text::{decimal, digits_value, int_value, is_digit, lacks, nat_value};
use crate::ui::{at_most, rest_of};

verus! {

/// What is written in decimal reads back as the same number.
pub proof fn lemma_decimals_read_back(n: nat)
    ensures
        digits_value(decimal(n)) == Some(n),
        nat_value(decimal(n)) == Some(n),
        int_value(decimal(n)) == Some(n as int),
        int_value(seq!['-'] + decimal(n)) == Some(-(n as int)),
        forall|i: int| 0 <= i < decimal(n).len() ==> is_digit(#[trigger] decimal(n)[i]),
        n > 9 ==> decimal(n)[0] != '0',
    decreases n,
{
    lemma_decimal_nonempty(n);
    if n >= 10 {
        lemma_decimals_read_back(n / 10);
        lemma_decimal_nonempty(n / 10);
        assert(decimal(n).drop_last() =~= decimal(n / 10));
        assert(decimal(n)[0] == decimal(n / 10)[0]);
        if n / 10 <= 9 {
            assert(decimal(n / 10)[0] != '0');
        }
        assert forall|i: int| 0 <= i < decimal(n).len() implies is_digit(#[trigger] decimal(n)[i]) by {
            if i < decimal(n / 10).len() {
                assert(decimal(n)[i] == decimal(n / 10)[i]);
            }
        }
    }
    assert(is_digit(decimal(n)[0]));
    assert((seq!['-'] + decimal(n)).skip(1) =~= decimal(n));
}

/// A text with anything but digits in it is no number.
pub proof fn lemma_no_number(s: Seq<char>, i: int)
    requires
        0 <= i < s.len(),
        !is_digit(s[i]),
    ensures
        digits_value(s) is None,
    decreases s.len(),
{
    if i < s.len() - 1 {
        lemma_no_number(s.drop_last(), i);
    }
}

/// A pointer finds an item of an array by its place.
pub proof fn lemma_array_items(a: Seq<Json>, i: nat)
    ensures
        i < a.len() ==> pointed(Json::Array(a), seq!['/'] + decimal(i)) == Some(a[i as int]),
        i >= a.len() ==> pointed(Json::Array(a), seq!['/'] + decimal(i)) is None,
{
    let key = decimal(i);
    lemma_decimals_read_back(i);
    lemma_decimal_nonempty(i);
    assert(lacks(key, '/')) by {
        assert forall|k: int| 0 <= k < key.len() implies #[trigger] key[k] != '/' by {
            assert(is_digit(key[k]));
        }
    }
    assert(lacks(key, '~')) by {
        assert forall|k: int| 0 <= k < key.len() implies #[trigger] key[k] != '~' by {
            assert(is_digit(key[k]));
        }
    }
    lemma_split_pieces(key, Seq::empty(), '/');
    lemma_escapes(key, Seq::empty());
    assert((seq!['/'] + key).skip(1) =~= key);
    let tokens = seq![key];
    assert(tokens.skip(1) =~= Seq::<Seq<char>>::empty());
    assert(is_digit(key[0]));
    assert(unescaped(key) == key);
    assert(index_value(key) == Some(i));
    match step(Json::Array(a), key) {
        Some(next) => {
            assert(crate::json::walk(next, tokens.skip(1)) == Some(next));
        },
        None => {},
    }
}

proof fn lemma_hex_digits(n: nat, width: nat, i: int)
    ensures
        hex_fixed(n, width).len() == width,
        0 <= i < width ==> ('0' <= hex_fixed(n, width)[i] <= '9' || 'a' <= hex_fixed(n, width)[i]
            <= 'f'),
    decreases width,
{
    if width > 0 {
        lemma_hex_digits(n / 16, (width - 1) as nat, i);
    }
}

/// An identifier is thirty-two hexadecimal digits in five groups.
pub proof fn lemma_identifiers(id: u128, i: int)
    ensures
        hyphenated(id).len() == 36,
        hyphenated(id)[8] == '-' && hyphenated(id)[13] == '-' && hyphenated(id)[18] == '-'
            && hyphenated(id)[23] == '-',
        0 <= i < 8 || 9 <= i < 13 || 14 <= i < 18 || 19 <= i < 23 || 24 <= i < 36 ==> ('0'
            <= hyphenated(id)[i] <= '9' || 'a' <= hyphenated(id)[i] <= 'f'),
{
    let h = hex_fixed(id as nat, 32);
    lemma_hex_digits(id as nat, 32, i);
    lemma_hex_digits(id as nat, 32, i - 1);
    lemma_hex_digits(id as nat, 32, i - 2);
    lemma_hex_digits(id as nat, 32, i - 3);
    lemma_hex_digits(id as nat, 32, i - 4);
    if 0 <= i < 8 {
        assert(hyphenated(id)[i] == h[i]);
    } else if 9 <= i < 13 {
        assert(hyphenated(id)[i] == h[i - 1]);
    } else if 14 <= i < 18 {
        assert(hyphenated(id)[i] == h[i - 2]);
    } else if 19 <= i < 23 {
        assert(hyphenated(id)[i] == h[i - 3]);
    } else if 24 <= i < 36 {
        assert(hyphenated(id)[i] == h[i - 4]);
    }
}

/// A view scrolls as far as asked, but not past the end: its last line stays on
/// screen.
pub proof fn lemma_scrolling(at: usize, lines: nat, height: nat)
    requires
        lines <= usize::MAX,
    ensures
        at + height <= lines ==> at_most(at, rest_of(lines, height)) == at,
        lines <= height ==> at_most(at, rest_of(lines, height)) == 0,
        lines > height && at + height > lines ==> at_most(at, rest_of(lines, height)) + height == lines,
{
}

} // verus!
