//! Lower-case hexadecimal text of a byte string: the form in which a store
//! keeps a digest.

use vstd::prelude::*;

verus! {

/// The sixteen digits, in order of their value.
pub open spec fn hex_digits() -> Seq<char> {
    seq!['0', '1', '2', '3', '4', '5', '6', '7', '8', '9', 'a', 'b', 'c', 'd', 'e', 'f']
}

/// Two digits for each byte, the high half first.
pub open spec fn hex_lower(bytes: Seq<u8>) -> Seq<char> {
    Seq::new(
        2 * bytes.len(),
        |i: int|
            if i % 2 == 0 {
                hex_digits()[bytes[i / 2] as int / 16]
            } else {
                hex_digits()[bytes[i / 2] as int % 16]
            },
    )
}

/// A digit stands for one value only.
proof fn lemma_hex_digit_injective(v: int, w: int)
    requires
        0 <= v < 16,
        0 <= w < 16,
        hex_digits()[v] == hex_digits()[w],
    ensures
        v == w,
{
}

/// Two byte strings with the same hexadecimal text are the same byte string:
/// to compare the texts of two digests is to compare the digests.
pub proof fn lemma_hex_lower_injective(a: Seq<u8>, b: Seq<u8>)
    requires
        hex_lower(a) == hex_lower(b),
    ensures
        a == b,
{
    assert(hex_lower(a).len() == 2 * a.len());
    assert(hex_lower(b).len() == 2 * b.len());
    assert(a.len() == b.len());
    assert forall|k: int| 0 <= k < a.len() implies a[k] == b[k] by {
        let hi_a = a[k] as int / 16;
        let hi_b = b[k] as int / 16;
        let lo_a = a[k] as int % 16;
        let lo_b = b[k] as int % 16;
        assert(hex_lower(a)[2 * k] == hex_digits()[hi_a]);
        assert(hex_lower(b)[2 * k] == hex_digits()[hi_b]);
        assert(hex_lower(a)[2 * k + 1] == hex_digits()[lo_a]);
        assert(hex_lower(b)[2 * k + 1] == hex_digits()[lo_b]);
        lemma_hex_digit_injective(hi_a, hi_b);
        lemma_hex_digit_injective(lo_a, lo_b);
    }
    assert(a =~= b);
}

/// Calls `hex::encode`, which writes each byte as two digits out of
/// `0123456789abcdef`, the high half first.
#[verifier::external_body]
pub(crate) fn hex_encode(bytes: &Vec<u8>) -> (text: String)
    ensures
        text@ == hex_lower(bytes@),
{
    hex::encode(bytes)
}

} // verus!
