//! Bit fields of a byte string, numbered from the most significant bit of the
//! first byte, as the transport stream standard numbers them.
use vstd::arithmetic::power2::pow2;
use vstd::prelude::*;

verus! {

/// The number that `bytes` spell out when read as one big-endian integer.
pub open spec fn be_value(bytes: Seq<u8>) -> nat
    decreases bytes.len(),
{
    if bytes.len() == 0 {
        0
    } else {
        be_value(bytes.drop_last()) * 256 + bytes.last() as nat
    }
}

/// The field of `width` bits that starts `offset` bits after the most
/// significant bit of `bytes[0]`, read as an unsigned number whose most
/// significant bit comes first.
pub open spec fn bit_field(bytes: Seq<u8>, offset: nat, width: nat) -> nat
    recommends
        offset + width <= 8 * bytes.len(),
{
    (be_value(bytes) / pow2((8 * bytes.len() - offset - width) as nat)) % pow2(width)
}

/// One byte spells out its own value.
pub proof fn lemma_be_value_1(bytes: Seq<u8>)
    requires
        bytes.len() == 1,
    ensures
        be_value(bytes) == bytes[0],
{
    reveal_with_fuel(be_value, 2);
}

/// Four bytes spell out a 32-bit number, the first byte being its most
/// significant one.
pub proof fn lemma_be_value_4(bytes: Seq<u8>)
    requires
        bytes.len() == 4,
    ensures
        be_value(bytes) == bytes[0] * 0x100_0000 + bytes[1] * 0x1_0000 + bytes[2] * 0x100
            + bytes[3],
{
    let b3 = bytes.drop_last();
    let b2 = b3.drop_last();
    let b1 = b2.drop_last();
    reveal_with_fuel(be_value, 5);
    assert(be_value(b1) == bytes[0]);
}

/// Six bytes spell out a 48-bit number, the first byte being its most
/// significant one.
pub proof fn lemma_be_value_6(bytes: Seq<u8>)
    requires
        bytes.len() == 6,
    ensures
        be_value(bytes) == bytes[0] * 0x100_0000_0000 + bytes[1] * 0x1_0000_0000 + bytes[2]
            * 0x100_0000 + bytes[3] * 0x1_0000 + bytes[4] * 0x100 + bytes[5],
{
    let b5 = bytes.drop_last();
    let b4 = b5.drop_last();
    let b3 = b4.drop_last();
    let b2 = b3.drop_last();
    let b1 = b2.drop_last();
    reveal_with_fuel(be_value, 7);
    assert(be_value(b1) == bytes[0]);
}

} // verus!
