use vstd::prelude::*;

verus! {

/// The byte that stores a boolean: `1` or `0`.
pub open spec fn bool_byte(b: bool) -> u8 {
    if b {
        1u8
    } else {
        0u8
    }
}

/// Decodes a boolean stored as a byte: any non-zero byte is `true`.
pub fn bool_parser(value: u8) -> (b: bool)
    ensures
        b == (value != 0),
{
    value != 0
}

/// Encodes a boolean as a byte: `1` for `true`, `0` for `false`.
pub fn bool_writer(value: &bool) -> (byte: u8)
    ensures
        byte == bool_byte(*value),
{
    if *value {
        1
    } else {
        0
    }
}
 
/// A boolean written as a byte reads back as itself.
pub proof fn lemma_bool_roundtrip(b: bool)
    ensures
        (bool_byte(b) != 0) == b,
{
}

} // verus!
