//! Big-endian layout of the integers that the packet formats carry

use vstd::prelude::*;

verus! {

/// The 16 bit integer whose big-endian bytes are `high` and `low`
pub open spec fn be16(high: u8, low: u8) -> u16 {
    (high * 256 + low) as u16
}

/// The two big-endian bytes of `value`
pub open spec fn be16_bytes(value: u16) -> Seq<u8> {
    seq![(value / 256) as u8, (value % 256) as u8]
}

/// The 32 bit integer whose big-endian bytes are the four arguments
pub open spec fn be32(b0: u8, b1: u8, b2: u8, b3: u8) -> u32 {
    (b0 * 0x100_0000 + b1 * 0x1_0000 + b2 * 0x100 + b3) as u32
}

/// The four big-endian bytes of `value`
pub open spec fn be32_bytes(value: u32) -> Seq<u8> {
    seq![
        (value / 0x100_0000) as u8,
        ((value / 0x1_0000) % 256) as u8,
        ((value / 0x100) % 256) as u8,
        (value % 256) as u8,
    ]
}

/// Reading back the two bytes of a 16 bit integer gives the integer
pub broadcast proof fn lemma_be16_of_bytes(value: u16)
    ensures
        #![trigger be16_bytes(value)]
        be16(be16_bytes(value)[0], be16_bytes(value)[1]) == value,
{
}

/// Writing the 16 bit integer of two bytes gives the bytes
pub proof fn lemma_be16_bytes_of(high: u8, low: u8)
    ensures
        be16_bytes(be16(high, low)) == seq![high, low],
{
}

/// Reading back the four bytes of a 32 bit integer gives the integer
pub proof fn lemma_be32_of_bytes(value: u32)
    ensures
        be32(
            be32_bytes(value)[0],
            be32_bytes(value)[1],
            be32_bytes(value)[2],
            be32_bytes(value)[3],
        ) == value,
{
}

/// The big-endian bytes of an integer are its digits to the base 256, the highest
/// one first
pub proof fn law_big_endian(short: u16, long: u32, b0: u8, b1: u8, b2: u8, b3: u8)
    ensures
        be16(b0, b1) == b0 * 0x100 + b1,
        be32(b0, b1, b2, b3) == b0 * 0x100_0000 + b1 * 0x1_0000 + b2 * 0x100 + b3,
        be16_bytes(short).len() == 2,
        be16_bytes(short)[0] * 0x100 + be16_bytes(short)[1] == short,
        be32_bytes(long).len() == 4,
        be32_bytes(long)[0] * 0x100_0000 + be32_bytes(long)[1] * 0x1_0000 + be32_bytes(long)[2]
            * 0x100 + be32_bytes(long)[3] == long,
{
}

} // verus!
