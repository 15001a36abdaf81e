//! Integers with a prefix: a number is held in the low bits of one byte
//! where it is small, and continues in groups of seven bits where it is not.

use vstd::prelude::*;

verus! {

/// The continuation of a number behind a full prefix: seven bits per byte,
/// lowest first, with the top bit set on every byte but the last.
pub open spec fn spec_encode_int_rest(value: nat) -> Seq<u8>
    decreases value,
{
    if value < 128 {
        seq![value as u8]
    } else {
        seq![(value % 128 + 128) as u8] + spec_encode_int_rest(value / 128)
    }
}

/// A number in the low bits of a byte whose high bits are `mask`.
/// `max_prefix` is the largest number that the low bits can hold; it marks a
/// number that continues in the bytes behind.
pub open spec fn spec_encode_int(value: nat, max_prefix: nat, mask: nat) -> Seq<u8> {
    if value < max_prefix {
        seq![(mask + value) as u8]
    } else {
        seq![(mask + max_prefix) as u8] + spec_encode_int_rest((value - max_prefix) as nat)
    }
}

/// A byte string as the encoder writes it: the length with a 7-bit prefix,
/// then the bytes as they are.
pub open spec fn spec_encode_string(s: Seq<u8>) -> Seq<u8> {
    spec_encode_int(s.len(), 127, 0) + s
}

/// The bytes of a number with a prefix, as a vector.
pub fn encode_integer(value: usize, max_prefix: u8, mask: u8) -> (out: Vec<u8>)
    requires
        mask + max_prefix <= 255,
    ensures
        out@ == spec_encode_int(value as nat, max_prefix as nat, mask as nat),
{
    let mut out: Vec<u8> = Vec::new();
    if value < max_prefix as usize {
        out.push(mask + value as u8);
        assert(out@ =~= spec_encode_int(value as nat, max_prefix as nat, mask as nat));
        return out;
    }
    out.push(mask + max_prefix);
    let mut rest: usize = value - max_prefix as usize;
    while rest >= 128
        invariant
            out@ + spec_encode_int_rest(rest as nat) == spec_encode_int(
                value as nat,
                max_prefix as nat,
                mask as nat,
            ),
        decreases rest,
    {
        let ghost before = out@;
        out.push((rest % 128 + 128) as u8);
        assert(out@ + spec_encode_int_rest((rest / 128) as nat) =~= before + spec_encode_int_rest(
            rest as nat,
        ));
        rest = rest / 128;
    }
    let ghost before = out@;
    out.push(rest as u8);
    assert(out@ =~= before + spec_encode_int_rest(rest as nat));
    out
}

} // verus!
