//! What is kept and said of a response.

use vstd::prelude::*;

use crate::http::client::{
    half_even, header_value, nearest_double, says_json, shown_body, size_text, spacing, tenths,
};
use crate::json::{pretty_text, Json};
use crate::text::{contains, decimal, lower};

verus! {

/// A header is found by its name in any mix of letters; the first one counts.
pub proof fn lemma_header_found(
    headers: Seq<(Seq<char>, Seq<char>)>,
    name: Seq<char>,
    i: int,
)
    ensures
        0 <= i < headers.len() && lower(headers[i].0) == name && (forall|k: int|
            0 <= k < i ==> lower((#[trigger] headers[k]).0) != name) ==> header_value(headers, name)
            == Some(headers[i].1),
        (forall|k: int| 0 <= k < headers.len() ==> lower((#[trigger] headers[k]).0) != name)
            ==> header_value(headers, name) is None,
    decreases headers.len(),
{
    if headers.len() > 0 {
        let rest = headers.skip(1);
        lemma_header_found(rest, name, i - 1);
        if 0 < i < headers.len() && lower(headers[i].0) == name && (forall|k: int|
            0 <= k < i ==> lower((#[trigger] headers[k]).0) != name) {
            assert(lower(headers[0].0) != name);
            assert(rest[i - 1] == headers[i]);
            assert forall|k: int| 0 <= k < i - 1 implies lower((#[trigger] rest[k]).0) != name by {
                assert(rest[k] == headers[k + 1]);
            }
        }
        if forall|k: int| 0 <= k < headers.len() ==> lower((#[trigger] headers[k]).0) != name {
            assert(lower(headers[0].0) != name);
            assert forall|k: int| 0 <= k < rest.len() implies lower((#[trigger] rest[k]).0) != name by {
                assert(rest[k] == headers[k + 1]);
            }
        }
    }
}

/// A response is JSON just when its content type mentions it.
pub proof fn lemma_json_responses(headers: Seq<(Seq<char>, Seq<char>)>, i: int)
    requires
        0 <= i < headers.len(),
        lower(headers[i].0) == "content-type"@,
        forall|k: int| 0 <= k < i ==> lower((#[trigger] headers[k]).0) != "content-type"@,
    ensures
        says_json(headers) == contains(headers[i].1, "json"@),
{
    lemma_header_found(headers, "content-type"@, i);
}

/// JSON that reads is shown indented; everything else is shown as it came.
pub proof fn lemma_shown_bodies(raw: Seq<char>, v: Json, why: Seq<char>)
    ensures
        shown_body(raw, true, Ok(v)) == pretty_text(v),
        shown_body(raw, false, Ok(v)) == raw,
        shown_body(raw, true, Err(why)) == raw,
        shown_body(raw, false, Err(why)) == raw,
{
}

// ----- sizes -----

/// Rounding gives the nearest whole number; of two that are equally near, the even
/// one.
pub proof fn lemma_rounding(n: nat, d: nat)
    requires
        d > 0,
    ensures
        -(d as int) <= 2 * (half_even(n, d) * d - n) <= d,
        2 * (half_even(n, d) * d - n) == d || 2 * (half_even(n, d) * d - n) == -(d as int)
            ==> half_even(n, d) % 2 == 0,
{
    let q = n / d;
    let r = n % d;
    vstd::arithmetic::div_mod::lemma_fundamental_div_mod(n as int, d as int);
    assert(d * q == q * d) by (nonlinear_arith);
    assert((q + 1) * d == q * d + d) by (nonlinear_arith);
    assert(n == q * d + r);
    assert(r < d);
    let h = half_even(n, d);
    assert(h == q || h == q + 1);
}

/// Sizes that a double-precision number holds exactly are not rounded on the way.
pub proof fn lemma_exact_sizes(n: nat)
    requires
        n < 0x20_0000_0000_0000,
    ensures
        nearest_double(n) == n,
{
    assert(spacing(n, 1) == 1);
    assert(half_even(n, 1) == n) by {
        assert(n / 1 == n);
        assert(n % 1 == 0);
    }
}

/// A size is given in bytes below a kilobyte, in kilobytes below a megabyte, and in
/// megabytes from there on, to the nearest tenth.
pub proof fn lemma_sizes(n: nat)
    ensures
        n < 1024 ==> size_text(n) == decimal(n) + "B"@,
        1024 <= n < 1048576 ==> size_text(n) == tenths(n, 1024) + "kB"@,
        1048576 <= n ==> size_text(n) == tenths(n, 1048576) + "MB"@,
        n < 0x20_0000_0000_0000 ==> ({
            let t = half_even((10 * n) as nat, 1024);
            tenths(n, 1024) == decimal(t / 10) + "."@ + decimal(t % 10)
        }),
{
    if n < 0x20_0000_0000_0000 {
        lemma_exact_sizes(n);
    }
}

} // verus!
