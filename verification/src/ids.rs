//! Request identifiers: version 4 UUIDs held as 128-bit numbers.

use vstd::prelude::*;

use crate::text::hex_char;

verus! {

/// The version and variant bits of a random UUID.
pub open spec fn is_v4(id: u128) -> bool {
    (id >> 76u128) & 0xf == 4 && (id >> 62u128) & 0x3 == 2
}

/// One of them.
pub open spec fn some_v4() -> u128 {
    0x4000_8000_0000_0000_0000u128
}

pub proof fn lemma_v4_exists()
    ensures
        is_v4(some_v4()),
{
    let id = 0x4000_8000_0000_0000_0000u128;
    assert((id >> 76u128) & 0xf == 4 && (id >> 62u128) & 0x3 == 2) by (bit_vector)
        requires
            id == 0x4000_8000_0000_0000_0000u128,
    ;
}

/// The last `width` hexadecimal digits of `n`, in small letters.
pub open spec fn hex_fixed(n: nat, width: nat) -> Seq<char>
    decreases width,
{
    if width == 0 {
        Seq::empty()
    } else {
        hex_fixed(n / 16, (width - 1) as nat).push(hex_char(n % 16, false))
    }
}

/// The usual spelling of a UUID: 32 digits in groups of 8, 4, 4, 4 and 12.
pub open spec fn hyphenated(id: u128) -> Seq<char> {
    let h = hex_fixed(id as nat, 32);
    h.subrange(0, 8) + seq!['-'] + h.subrange(8, 12) + seq!['-'] + h.subrange(12, 16) + seq!['-']
        + h.subrange(16, 20) + seq!['-'] + h.subrange(20, 32)
}

/// `uuid::Uuid::new_v4`, as a number. Every outcome carries the version 4 and
/// variant bits; nothing is said of the others, which are random.
#[verifier::external_body]
pub(crate) fn new_v4() -> (id: u128)
    ensures
        is_v4(id),
{
    uuid::Uuid::new_v4().as_u128()
}

/// The `Display` of `uuid::Uuid`: the hyphenated spelling in small letters.
#[verifier::external_body]
pub(crate) fn uuid_text(id: u128) -> (r: String)
    ensures
        r@ == hyphenated(id),
{
    uuid::Uuid::from_u128(id).to_string()
}

} // verus!
