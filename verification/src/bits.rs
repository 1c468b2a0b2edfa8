//! Bit-level vocabulary shared by the tile store: how single bits of a byte are
//! named, what reversing a byte means, and the facts about shifts and masks that
//! the packed accessors rest on.

use vstd::prelude::*;

verus! {

/// Bit `k` of `x`, counted from the least significant bit.
pub open spec fn bit(x: u8, k: u8) -> bool {
    (x >> k) & 1 == 1
}

/// The value of a 3-bit field whose bit 0, bit 1 and bit 2 are the given flags.
pub open spec fn field_of(low: bool, middle: bool, high: bool) -> u8 {
    ((if low { 1int } else { 0int }) + (if middle { 2int } else { 0int }) + (if high { 4int } else { 0int })) as u8
}

/// `u8::reverse_bits` swaps bit `k` with bit `7 - k`: the least significant bit
/// becomes the most significant one, the second the second, and so on. This is
/// taken from the documentation of the standard library and not proved here.
pub assume_specification[ u8::reverse_bits ](x: u8) -> (r: u8)
    ensures
        forall|k: u8| k < 8 ==> #[trigger] bit(r, k) == bit(x, (7 - k) as u8),
;

/// A value below 8 is the field made of its three low bits.
pub proof fn lemma_field_of_bits(x: u8)
    by (bit_vector)
    requires
        x < 8,
    ensures
        x == field_of(bit(x, 0), bit(x, 1), bit(x, 2)),
{
}

/// The three low bits of a field are the flags that it was made of.
pub proof fn lemma_bits_of_field(low: bool, middle: bool, high: bool)
    by (bit_vector)
    ensures
        field_of(low, middle, high) < 8,
        bit(field_of(low, middle, high), 0) == low,
        bit(field_of(low, middle, high), 1) == middle,
        bit(field_of(low, middle, high), 2) == high,
{
}

/// OR-ing `1 << offset` into a field sets the flag at `offset` and keeps the
/// two others.
pub proof fn lemma_or_sets_bit(field: u8, offset: u8)
    by (bit_vector)
    requires
        field < 8,
        offset < 3,
    ensures
        field | (1u8 << offset) == field_of(
            bit(field, 0) || offset == 0,
            bit(field, 1) || offset == 1,
            bit(field, 2) || offset == 2,
        ),
{
}

/// Two bytes that agree in all eight bits are equal.
pub proof fn lemma_equal_bits_equal_bytes(a: u8, b: u8)
    by (bit_vector)
    requires
        bit(a, 0) == bit(b, 0),
        bit(a, 1) == bit(b, 1),
        bit(a, 2) == bit(b, 2),
        bit(a, 3) == bit(b, 3),
        bit(a, 4) == bit(b, 4),
        bit(a, 5) == bit(b, 5),
        bit(a, 6) == bit(b, 6),
        bit(a, 7) == bit(b, 7),
    ensures
        a == b,
{
}

/// No bit of zero is set.
pub proof fn lemma_zero_has_no_bit()
    by (bit_vector)
    ensures
        forall|k: u8| k < 8 ==> !#[trigger] bit(0, k),
{
}

} // verus!
