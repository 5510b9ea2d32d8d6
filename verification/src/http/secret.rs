//! Secret values that shell out, e.g. `$(op read "op://vault/item/field")`.

use vstd::prelude::*;

use crate::text::{begins, chars, is_white, opt, part, starts_with, trim, trimmed};

verus! {

/// The quotes that a character of a shell command stands in.
#[derive(Debug, Clone, Copy, PartialEq, Eq, Structural)]
pub enum Quoting {
    Bare,
    Single,
    Double,
}

/// Where the last of `depth` open parentheses is closed, read from `i` on. A
/// parenthesis in quotes or behind a backslash neither opens nor closes, and in
/// single quotes a backslash is a character like any other.
pub open spec fn closing(s: Seq<char>, i: int, depth: nat, q: Quoting) -> Option<int>
    decreases s.len() - i + 1,
{
    if i >= s.len() {
        None
    } else {
        let c = s[i];
        match q {
            Quoting::Single => closing(
                s,
                i + 1,
                depth,
                if c == '\'' {
                    Quoting::Bare
                } else {
                    q
                },
            ),
            Quoting::Double => if c == '\\' {
                closing(s, i + 2, depth, q)
            } else {
                closing(
                    s,
                    i + 1,
                    depth,
                    if c == '"' {
                        Quoting::Bare
                    } else {
                        q
                    },
                )
            },
            Quoting::Bare => if c == '\\' {
                closing(s, i + 2, depth, q)
            } else if c == '\'' {
                closing(s, i + 1, depth, Quoting::Single)
            } else if c == '"' {
                closing(s, i + 1, depth, Quoting::Double)
            } else if c == '(' {
                closing(s, i + 1, depth + 1, q)
            } else if c == ')' {
                if depth <= 1 {
                    Some(i)
                } else {
                    closing(s, i + 1, (depth - 1) as nat, q)
                }
            } else {
                closing(s, i + 1, depth, q)
            },
        }
    }
}

/// Whether `t` is entirely a single `$(…)`: the parenthesis that closes the
/// opening one is its last character.
pub open spec fn single_substitution(t: Seq<char>) -> bool {
    starts_with(t, "$("@) && closing(t, 2, 1, Quoting::Bare) == Some(t.len() - 1)
}

/// The command inside a value that is entirely a single `$( … )`.
pub open spec fn command_in(value: Seq<char>) -> Option<Seq<char>> {
    let t = trim(value);
    if single_substitution(t) {
        let inner = trim(t.subrange(2, t.len() - 1));
        if inner.len() > 0 {
            Some(inner)
        } else {
            None
        }
    } else {
        None
    }
}

/// Finds where the parenthesis that was opened before `from` is closed.
fn find_closing(s: &[char], from: usize) -> (r: Option<usize>)
    requires
        1 <= from <= s@.len(),
    ensures
        match r {
            Some(i) => closing(s@, from as int, 1, Quoting::Bare) == Some(i as int),
            None => closing(s@, from as int, 1, Quoting::Bare) is None,
        },
{
    let mut i: usize = from;
    let mut depth: usize = 1;
    let mut q = Quoting::Bare;
    while i < s.len()
        invariant
            1 <= depth <= i,
            closing(s@, from as int, 1, Quoting::Bare) == closing(s@, i as int, depth as nat, q),
        decreases s@.len() - i,
    {
        let c = s[i];
        let mut step: usize = 1;
        if c == '\\' && q != Quoting::Single {
            if s.len() - i == 1 {
                assert(closing(s@, i + 2, depth as nat, q) is None);
                return None;
            }
            step = 2;
        } else if q == Quoting::Single {
            if c == '\'' {
                q = Quoting::Bare;
            }
        } else if q == Quoting::Double {
            if c == '"' {
                q = Quoting::Bare;
            }
        } else if c == '\'' {
            q = Quoting::Single;
        } else if c == '"' {
            q = Quoting::Double;
        } else if c == '(' {
            depth += 1;
        } else if c == ')' {
            if depth == 1 {
                return Some(i);
            }
            depth -= 1;
        }
        i += step;
    }
    None
}

/// The command inside a value that is entirely a single `$( … )`, or `None`.
pub fn command_substitution(value: &str) -> (r: Option<&str>)
    ensures
        opt(r) == command_in(value@),
{
    let t = trimmed(value);
    proof {
        reveal_strlit("$(");
    }
    if !begins(t, "$(") {
        return None;
    }
    let c = chars(t);
    match find_closing(c.as_slice(), 2) {
        Some(i) => if i == c.len() - 1 {
            let inner = trimmed(part(t, 2, i));
            if inner.is_empty() {
                None
            } else {
                Some(inner)
            }
        } else {
            None
        },
        None => None,
    }
}

/// How a secret is had.
#[derive(Debug, PartialEq, Eq)]
pub enum SecretPlan {
    /// The value is the secret.
    Literal(String),
    /// The secret is what this shell command prints.
    Command(String),
}

/// If `value` is *entirely* a single `$(…)` command substitution, the inner
/// command is to be run; anything else is the secret itself. The whole value
/// must be the substitution, so a literal `$(...)` embedded in a longer string,
/// or one of several side by side, is never executed by accident.
pub fn plan_secret(value: &str) -> (r: SecretPlan)
    ensures
        match command_in(value@) {
            Some(cmd) => r matches SecretPlan::Command(c) && c@ == cmd,
            None => r matches SecretPlan::Literal(v) && v@ == value@,
        },
{
    match command_substitution(value) {
        Some(cmd) => SecretPlan::Command(cmd.to_owned()),
        None => SecretPlan::Literal(value.to_owned()),
    }
}

/// The secret that a finished command gives: its trimmed output, or a message
/// when it did not succeed.
pub open spec fn secret_of(
    cmd: Seq<char>,
    success: bool,
    status: Seq<char>,
    stdout: Seq<char>,
    stderr: Seq<char>,
) -> Result<Seq<char>, Seq<char>> {
    if success {
        Ok(trim(stdout))
    } else {
        Err("secret command `"@ + cmd + "` failed ("@ + status + "): "@ + trim(stderr))
    }
}

/// What a finished secret command comes to.
pub fn finish_secret(cmd: &str, success: bool, status: &str, stdout: &str, stderr: &str) -> (r: Result<
    String,
    String,
>)
    ensures
        match r {
            Ok(s) => secret_of(cmd@, success, status@, stdout@, stderr@) == Ok::<
                Seq<char>,
                Seq<char>,
            >(s@),
            Err(m) => secret_of(cmd@, success, status@, stdout@, stderr@) == Err::<
                Seq<char>,
                Seq<char>,
            >(m@),
        },
{
    if success {
        Ok(trimmed(stdout).to_owned())
    } else {
        let mut m = "secret command `".to_owned();
        m.append(cmd);
        m.append("` failed (");
        m.append(status);
        m.append("): ");
        m.append(trimmed(stderr));
        Err(m)
    }
}

/// The message for a secret command that could not be started.
pub fn secret_not_started(cmd: &str, cause: &str) -> (r: String)
    ensures
        r@ == "running secret command `"@ + cmd@ + "`: "@ + cause@,
{
    let mut m = "running secret command `".to_owned();
    m.append(cmd);
    m.append("`: ");
    m.append(cause);
    m
}

// ----- laws -----

/// A value that does not begin with `$(` is never run.
pub proof fn lemma_plain_values_pass_through(value: Seq<char>)
    requires
        !starts_with(trim(value), "$("@),
    ensures
        command_in(value) is None,
{
}

/// Whether a command has nothing to quote, to escape or to nest.
pub open spec fn unadorned(s: Seq<char>) -> bool {
    forall|i: int|
        0 <= i < s.len() ==> {
            let c = #[trigger] s[i];
            c != '(' && c != ')' && c != '\'' && c != '"' && c != '\\'
        }
}

proof fn lemma_closing_after(s: Seq<char>, inner: Seq<char>, tail: Seq<char>, i: int)
    requires
        s == "$("@ + inner + ")"@ + tail,
        unadorned(inner),
        2 <= i <= inner.len() + 2,
    ensures
        closing(s, i, 1, Quoting::Bare) == Some(inner.len() as int + 2),
    decreases inner.len() + 2 - i,
{
    reveal_strlit("$(");
    reveal_strlit(")");
    if i < inner.len() + 2 {
        assert(s[i] == inner[i - 2]);
        lemma_closing_after(s, inner, tail, i + 1);
    } else {
        assert(s[i] == ')');
    }
}

/// Text that begins with `$` and ends with a character that is no blank is
/// trimmed already.
proof fn lemma_trimmed_already(s: Seq<char>)
    requires
        s.len() > 0,
        !is_white(s[0]),
        !is_white(s.last()),
    ensures
        trim(s) == s,
{
}

/// `$(…)` around a command is run, and gives just that command.
pub proof fn lemma_single_substitution_is_run(inner: Seq<char>)
    requires
        unadorned(inner),
        trim(inner).len() > 0,
    ensures
        command_in("$("@ + inner + ")"@) == Some(trim(inner)),
{
    let v = "$("@ + inner + ")"@;
    reveal_strlit("$(");
    reveal_strlit(")");
    assert(v =~= "$("@ + inner + ")"@ + Seq::empty());
    lemma_closing_after(v, inner, Seq::empty(), 2);
    lemma_trimmed_already(v);
    assert(v.subrange(0, 2) =~= "$("@);
    assert(v.subrange(2, v.len() - 1) =~= inner);
}

/// Nothing is run where anything follows the substitution, another one
/// included.
pub proof fn lemma_text_behind_is_never_run(inner: Seq<char>, tail: Seq<char>)
    requires
        unadorned(inner),
        tail.len() > 0,
        !is_white(tail.last()),
    ensures
        command_in("$("@ + inner + ")"@ + tail) is None,
{
    let v = "$("@ + inner + ")"@ + tail;
    reveal_strlit("$(");
    reveal_strlit(")");
    lemma_closing_after(v, inner, tail, 2);
    lemma_trimmed_already(v);
}

} // verus!
