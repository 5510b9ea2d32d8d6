//! Dynamic variables: what they are called and what they give.

use vstd::prelude::*;

use crate::http::vars::{call_of, int_arg, len_arg, named_dynamic, normal, small, trim_each, Dynamic};
use crate::text::{
    decimal_int, int_value, lacks, lemma_found_after, lemma_not_found, nat_value, split, trim,
};

verus! {

/// A name without brackets is a call without arguments.
pub proof fn lemma_plain_calls(name: Seq<char>)
    requires
        lacks(name, '('),
    ensures
        call_of(name) == Some((name, Seq::<Seq<char>>::empty())),
{
    lemma_not_found(name, '(');
}

/// What stands between the brackets is split at the commas and trimmed.
pub proof fn lemma_calls(name: Seq<char>, inside: Seq<char>)
    requires
        lacks(name, '('),
        forall|i: int|
            0 <= i < split(inside, ',').len() ==> trim(#[trigger] split(inside, ',')[i]).len() > 0,
    ensures
        call_of(name + seq!['('] + inside + seq![')']) == Some(
            (trim(name), trim_each(split(inside, ','))),
        ),
        forall|i: int|
            0 <= i < split(inside, ',').len() ==> #[trigger] trim_each(split(inside, ','))[i] == trim(
                split(inside, ',')[i],
            ),
{
    let spec = name + seq!['('] + inside + seq![')'];
    let n = name.len() as int;
    assert(spec =~= name + seq!['('] + (inside + seq![')']));
    lemma_found_after(name, seq!['('], inside + seq![')']);
    assert(spec.last() == ')');
    assert(spec.subrange(n + 1, spec.len() - 1) =~= inside);
    assert(spec.take(n) =~= name);
    let args = trim_each(split(inside, ','));
    assert forall|i: int| 0 <= i < args.len() implies (#[trigger] args[i]).len() > 0 by {
        assert(trim(split(inside, ',')[i]).len() > 0);
    }
}

/// Every dynamic variable goes by its name; the random ones take their bounds or
/// their length.
pub proof fn lemma_dynamic_names(args: Seq<Seq<char>>)
    requires
        args.len() == 0,
    ensures
        named_dynamic("uuid"@, args) == Some(Dynamic::Uuid),
        named_dynamic("timestamp"@, args) == Some(Dynamic::Timestamp),
        named_dynamic("timestampms"@, args) == Some(Dynamic::TimestampMs),
        named_dynamic("isotimestamp"@, args) == Some(Dynamic::IsoTimestamp),
        named_dynamic("randomint"@, args) == Some(Dynamic::RandomInt { min: 0, max: 1000 }),
        named_dynamic("randomhex"@, args) == Some(Dynamic::RandomHex { len: 16 }),
        named_dynamic("randomstring"@, args) == Some(Dynamic::RandomString { len: 16 }),
        named_dynamic("randombool"@, args) == Some(Dynamic::RandomBool),
{
    lemma_names_differ();
}

proof fn lemma_names_differ()
    ensures
        "uuid"@.len() == 4,
        "timestamp"@.len() == 9 && "timestamp"@[0] == 't',
        "timestampms"@.len() == 11,
        "isotimestamp"@.len() == 12 && "isotimestamp"@[0] == 'i',
        "randomint"@.len() == 9 && "randomint"@[0] == 'r' && "randomint"@[6] == 'i',
        "randomhex"@.len() == 9 && "randomhex"@[0] == 'r' && "randomhex"@[6] == 'h',
        "randomstring"@.len() == 12 && "randomstring"@[0] == 'r',
        "randombool"@.len() == 10,
{
    reveal_strlit("uuid");
    reveal_strlit("timestamp");
    reveal_strlit("timestampms");
    reveal_strlit("isotimestamp");
    reveal_strlit("randomint");
    reveal_strlit("randomhex");
    reveal_strlit("randomstring");
    reveal_strlit("randombool");
}

/// A length is taken where it is in range; bounds are taken where they are in order.
pub proof fn lemma_dynamic_arguments(a: Seq<char>, b: Seq<char>, n: nat, min: i64, max: i64)
    requires
        len_arg(a) == Some(n),
        int_arg(a) == Some(min as int),
        int_arg(b) == Some(max as int),
    ensures
        1 <= n <= 4096,
        named_dynamic("randomhex"@, seq![a]) == Some(Dynamic::RandomHex { len: n as usize }),
        named_dynamic("randomstring"@, seq![a]) == Some(Dynamic::RandomString { len: n as usize }),
        min <= max ==> named_dynamic("randomint"@, seq![a, b]) == Some(Dynamic::RandomInt { min, max }),
        min > max ==> named_dynamic("randomint"@, seq![a, b]) is None,
{
    lemma_names_differ();
}

/// A name is compared letter by letter: capitals count as small letters and
/// underscores not at all.
pub proof fn lemma_name_letters(name: Seq<char>, c: char)
    ensures
        normal(name.push('_')) == normal(name),
        c != '_' ==> normal(name.push(c)) == normal(name) + small(c),
        c <= '\u{7f}' ==> small(c) == seq![crate::text::lower_char(c)],
        normal(Seq::empty()) == Seq::<char>::empty(),
{
    assert(name.push('_').drop_last() =~= name);
    assert(name.push(c).drop_last() =~= name);
}

/// What the random variables give: a whole number within its bounds, so many
/// characters of their kind, or one of the two truth values.
pub proof fn lemma_random_values(min: i64, max: i64, len: usize, v: Seq<char>, i: int)
    ensures
        (Dynamic::RandomInt { min, max }).gives(v) ==> exists|n: int|
            min <= n <= max && v == #[trigger] decimal_int(n),
        (Dynamic::RandomHex { len }).gives(v) ==> v.len() == len && (0 <= i < v.len() ==> ('0' <= v[i]
            <= '9' || 'a' <= v[i] <= 'f')),
        (Dynamic::RandomString { len }).gives(v) ==> v.len() == len && (0 <= i < v.len() ==> ('0'
            <= v[i] <= '9' || 'a' <= v[i] <= 'z' || 'A' <= v[i] <= 'Z')),
        Dynamic::RandomBool.gives(v) ==> v == "true"@ || v == "false"@,
{
    if (Dynamic::RandomHex { len }).gives(v) && 0 <= i < v.len() {
        assert(crate::http::vars::is_hex(v[i]));
    }
    if (Dynamic::RandomString { len }).gives(v) && 0 <= i < v.len() {
        assert(crate::text::is_alnum(v[i]));
    }
}

/// A length is a number from one to four thousand and ninety-six; a bound is a whole
/// number of sixty-four bits.
pub proof fn lemma_arguments(s: Seq<char>, n: nat, k: int)
    ensures
        nat_value(s) == Some(n) && 1 <= n <= 4096 ==> len_arg(s) == Some(n),
        nat_value(s) == Some(n) && !(1 <= n <= 4096) ==> len_arg(s) is None,
        int_value(s) == Some(k) && i64::MIN <= k <= i64::MAX ==> int_arg(s) == Some(k),
        int_value(s) is None ==> int_arg(s) is None,
{
}

} // verus!
