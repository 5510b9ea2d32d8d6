//! Which values are commands: what quotes, backslashes and brackets do.

use vstd::prelude::*;

use crate::http::secret::{closing, command_in, unadorned, Quoting};
use crate::text::{lacks, trim};

verus! {

/// Whether `part` stands in `s` from `i` on.
pub open spec fn here(s: Seq<char>, i: int, part: Seq<char>) -> bool {
    0 <= i && i + part.len() <= s.len() && forall|k: int|
        0 <= k < part.len() ==> s[i + k] == #[trigger] part[k]
}

proof fn lemma_plain_part(s: Seq<char>, i: int, part: Seq<char>, depth: nat)
    requires
        here(s, i, part),
        unadorned(part),
    ensures
        closing(s, i, depth, Quoting::Bare) == closing(
            s,
            i + part.len(),
            depth,
            Quoting::Bare,
        ),
    decreases part.len(),
{
    if part.len() > 0 {
        let rest = part.skip(1);
        assert(s[i + 0] == part[0]);
        assert forall|k: int| 0 <= k < rest.len() implies s[i + 1 + k] == #[trigger] rest[k] by {
            assert(s[i + (k + 1)] == part[k + 1]);
        }
        assert forall|k: int| 0 <= k < rest.len() implies {
            let c = #[trigger] rest[k];
            c != '(' && c != ')' && c != '\'' && c != '"' && c != '\\'
        } by {
            assert(rest[k] == part[k + 1]);
        }
        lemma_plain_part(s, i + 1, rest, depth);
    }
}

proof fn lemma_single_part(s: Seq<char>, i: int, part: Seq<char>, depth: nat)
    requires
        here(s, i, part),
        lacks(part, '\''),
        i + part.len() < s.len(),
        s[i + part.len()] == '\'',
    ensures
        closing(s, i, depth, Quoting::Single) == closing(
            s,
            i + part.len() + 1,
            depth,
            Quoting::Bare,
        ),
    decreases part.len(),
{
    if part.len() > 0 {
        let rest = part.skip(1);
        assert(s[i + 0] == part[0]);
        assert forall|k: int| 0 <= k < rest.len() implies s[i + 1 + k] == #[trigger] rest[k] by {
            assert(s[i + (k + 1)] == part[k + 1]);
        }
        lemma_single_part(s, i + 1, rest, depth);
    }
}

proof fn lemma_double_part(s: Seq<char>, i: int, part: Seq<char>, depth: nat)
    requires
        here(s, i, part),
        lacks(part, '"'),
        lacks(part, '\\'),
        i + part.len() < s.len(),
        s[i + part.len()] == '"',
    ensures
        closing(s, i, depth, Quoting::Double) == closing(
            s,
            i + part.len() + 1,
            depth,
            Quoting::Bare,
        ),
    decreases part.len(),
{
    if part.len() > 0 {
        let rest = part.skip(1);
        assert(s[i + 0] == part[0]);
        assert forall|k: int| 0 <= k < rest.len() implies s[i + 1 + k] == #[trigger] rest[k] by {
            assert(s[i + (k + 1)] == part[k + 1]);
        }
        lemma_double_part(s, i + 1, rest, depth);
    }
}

/// The command that a value made of `$(`, `inner` and `)` holds, where the last
/// bracket is the one that closes.
proof fn lemma_command(inner: Seq<char>)
    requires
        trim(inner).len() > 0,
        closing("$("@ + inner + ")"@, 2, 1, Quoting::Bare) == Some(inner.len() as int + 2),
    ensures
        command_in("$("@ + inner + ")"@) == Some(trim(inner)),
{
    let v = "$("@ + inner + ")"@;
    reveal_strlit("$(");
    reveal_strlit(")");
    assert(v[0] == '$' && v.last() == ')');
    crate::text::lemma_trim_reaches(v, v.len() - 1);
    assert(v.take(v.len() as int) =~= v);
    assert(v.subrange(0, 2) =~= "$("@);
    assert(v.subrange(2, v.len() - 1) =~= inner);
}

/// Brackets in single quotes neither open nor close, and a backslash there is a
/// character like any other.
pub proof fn lemma_single_quotes(a: Seq<char>, quoted: Seq<char>, b: Seq<char>)
    requires
        unadorned(a),
        unadorned(b),
        lacks(quoted, '\''),
        trim(a + seq!['\''] + quoted + seq!['\''] + b).len() > 0,
    ensures
        ({
            let inner = a + seq!['\''] + quoted + seq!['\''] + b;
            command_in("$("@ + inner + ")"@) == Some(trim(inner))
        }),
{
    reveal_strlit("$(");
    reveal_strlit(")");
    let inner = a + seq!['\''] + quoted + seq!['\''] + b;
    let v = "$("@ + inner + ")"@;
    let q = 2 + a.len() as int;
    let e = q + 1 + quoted.len();
    assert(here(v, 2, a));
    lemma_plain_part(v, 2, a, 1);
    assert(v[q] == '\'');
    assert(here(v, q + 1, quoted));
    assert(v[e] == '\'');
    lemma_single_part(v, q + 1, quoted, 1);
    assert(here(v, e + 1, b));
    lemma_plain_part(v, e + 1, b, 1);
    assert(v[e + 1 + b.len()] == ')');
    lemma_command(inner);
}

/// Brackets in double quotes neither open nor close.
pub proof fn lemma_double_quotes(a: Seq<char>, quoted: Seq<char>, b: Seq<char>)
    requires
        unadorned(a),
        unadorned(b),
        lacks(quoted, '"'),
        lacks(quoted, '\\'),
        trim(a + seq!['"'] + quoted + seq!['"'] + b).len() > 0,
    ensures
        ({
            let inner = a + seq!['"'] + quoted + seq!['"'] + b;
            command_in("$("@ + inner + ")"@) == Some(trim(inner))
        }),
{
    reveal_strlit("$(");
    reveal_strlit(")");
    let inner = a + seq!['"'] + quoted + seq!['"'] + b;
    let v = "$("@ + inner + ")"@;
    let q = 2 + a.len() as int;
    let e = q + 1 + quoted.len();
    assert(here(v, 2, a));
    lemma_plain_part(v, 2, a, 1);
    assert(v[q] == '"');
    assert(here(v, q + 1, quoted));
    assert(v[e] == '"');
    lemma_double_part(v, q + 1, quoted, 1);
    assert(here(v, e + 1, b));
    lemma_plain_part(v, e + 1, b, 1);
    assert(v[e + 1 + b.len()] == ')');
    lemma_command(inner);
}

/// Brackets within a command are matched.
pub proof fn lemma_nested_brackets(a: Seq<char>, n: Seq<char>, b: Seq<char>)
    requires
        unadorned(a),
        unadorned(n),
        unadorned(b),
        trim(a + seq!['('] + n + seq![')'] + b).len() > 0,
    ensures
        ({
            let inner = a + seq!['('] + n + seq![')'] + b;
            command_in("$("@ + inner + ")"@) == Some(trim(inner))
        }),
{
    reveal_strlit("$(");
    reveal_strlit(")");
    let inner = a + seq!['('] + n + seq![')'] + b;
    let v = "$("@ + inner + ")"@;
    let q = 2 + a.len() as int;
    let e = q + 1 + n.len();
    assert(here(v, 2, a));
    lemma_plain_part(v, 2, a, 1);
    assert(v[q] == '(');
    assert(here(v, q + 1, n));
    lemma_plain_part(v, q + 1, n, 2);
    assert(v[e] == ')');
    assert(here(v, e + 1, b));
    lemma_plain_part(v, e + 1, b, 1);
    assert(v[e + 1 + b.len()] == ')');
    lemma_command(inner);
}

/// A bracket behind a backslash neither opens nor closes.
pub proof fn lemma_escaped_brackets(a: Seq<char>, c: char, b: Seq<char>)
    requires
        unadorned(a),
        unadorned(b),
        trim(a + seq!['\\', c] + b).len() > 0,
    ensures
        ({
            let inner = a + seq!['\\', c] + b;
            command_in("$("@ + inner + ")"@) == Some(trim(inner))
        }),
{
    reveal_strlit("$(");
    reveal_strlit(")");
    let inner = a + seq!['\\', c] + b;
    let v = "$("@ + inner + ")"@;
    let q = 2 + a.len() as int;
    assert(here(v, 2, a));
    lemma_plain_part(v, 2, a, 1);
    assert(v[q] == '\\');
    assert(here(v, q + 2, b));
    lemma_plain_part(v, q + 2, b, 1);
    assert(v[q + 2 + b.len()] == ')');
    lemma_command(inner);
}

} // verus!
