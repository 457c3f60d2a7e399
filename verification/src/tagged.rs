//! Writing tagged values, the format of the contents of fire packets
//!
//! Each value has a tag of up to four characters and a type in front of it.

use tdf::TdfSerializer;
use vstd::prelude::*;

verus! {

/// The type of variable length integers
pub const VAR_INT: u8 = 0;

/// The type of groups of tagged values
pub const GROUP: u8 = 3;

/// The type of unions
pub const TAGGED_UNION: u8 = 6;

/// The six bits that stand for the character of a tag at a place: the bit 6 of
/// the character, then its low five bits, or zero behind the end of the tag
pub open spec fn tag_code(tag: Seq<u8>, place: int) -> int {
    if place < tag.len() {
        (tag[place] / 64 % 2) * 32 + tag[place] % 32
    } else {
        0
    }
}

/// A tag as one number of 24 bits
pub open spec fn tag_number(tag: Seq<u8>) -> int {
    tag_code(tag, 0) * 0x4_0000 + tag_code(tag, 1) * 0x1000 + tag_code(tag, 2) * 0x40 + tag_code(
        tag,
        3,
    )
}

/// The bytes in front of a value: the tag as a big-endian number, then the type
pub open spec fn tag_bytes(tag: Seq<u8>, ty: u8) -> Seq<u8> {
    let number = tag_number(tag);
    seq![(number / 0x1_0000) as u8, (number / 0x100 % 0x100) as u8, (number % 0x100) as u8, ty]
}

/// Whether a tag can be written
pub open spec fn valid_tag(tag: Seq<u8>) -> bool {
    0 < tag.len() <= 4
}

/// The bytes of an integer: six bits in the first byte and seven in each of the
/// others, the lowest ones first. The high bit tells that another byte follows.
pub open spec fn var_int(value: nat) -> Seq<u8> {
    if value < 0x40 {
        seq![value as u8]
    } else {
        seq![(value % 0x40 + 0x80) as u8] + var_int_rest(value / 0x40)
    }
}

/// The bytes of an integer with seven bits in each
pub open spec fn var_int_rest(value: nat) -> Seq<u8>
    decreases value,
{
    if value < 0x80 {
        seq![value as u8]
    } else {
        seq![(value % 0x80 + 0x80) as u8] + var_int_rest(value / 0x80)
    }
}

/// `tdf::TdfSerializer::tag_union_start`: appends the tag and the key of a
/// union. A tag that is empty or longer than four bytes is refused by an
/// assertion.
#[verifier::external_body]
pub(crate) fn tag_union_start(output: &mut Vec<u8>, tag: &[u8], key: u8)
    requires
        valid_tag(tag@),
    ensures
        final(output)@ == old(output)@ + tag_bytes(tag@, TAGGED_UNION) + seq![key],
{
    output.tag_union_start(tag, key)
}

/// `tdf::TdfSerializer::tag_group`: appends the tag of a group. A tag that is
/// empty or longer than four bytes is refused by an assertion.
#[verifier::external_body]
pub(crate) fn tag_group(output: &mut Vec<u8>, tag: &[u8])
    requires
        valid_tag(tag@),
    ensures
        final(output)@ == old(output)@ + tag_bytes(tag@, GROUP),
{
    output.tag_group(tag)
}

/// `tdf::TdfSerializer::tag_group_end`: appends the byte that ends a group
#[verifier::external_body]
pub(crate) fn tag_group_end(output: &mut Vec<u8>)
    ensures
        final(output)@ == old(output)@ + seq![0u8],
{
    output.tag_group_end()
}

/// `tdf::TdfSerializer::tag_u32`: appends a tagged integer. A tag that is empty
/// or longer than four bytes is refused by an assertion.
#[verifier::external_body]
pub(crate) fn tag_u32(output: &mut Vec<u8>, tag: &[u8], value: u32)
    requires
        valid_tag(tag@),
    ensures
        final(output)@ == old(output)@ + tag_bytes(tag@, VAR_INT) + var_int(value as nat),
{
    output.tag_u32(tag, value)
}

/// `tdf::TdfSerializer::tag_u16`: appends a tagged integer. A tag that is empty
/// or longer than four bytes is refused by an assertion.
#[verifier::external_body]
pub(crate) fn tag_u16(output: &mut Vec<u8>, tag: &[u8], value: u16)
    requires
        valid_tag(tag@),
    ensures
        final(output)@ == old(output)@ + tag_bytes(tag@, VAR_INT) + var_int(value as nat),
{
    output.tag_u16(tag, value)
}

/// `tdf::TdfSerializer::tag_bool`: appends a tagged integer that is one if the
/// value is true, else zero. A tag that is empty or longer than four bytes is
/// refused by an assertion.
#[verifier::external_body]
pub(crate) fn tag_bool(output: &mut Vec<u8>, tag: &[u8], value: bool)
    requires
        valid_tag(tag@),
    ensures
        final(output)@ == old(output)@ + tag_bytes(tag@, VAR_INT) + seq![
            if value {
                1u8
            } else {
                0u8
            },
        ],
{
    output.tag_bool(tag, value)
}

} // verus!
