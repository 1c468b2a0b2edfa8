//! Bit-packed tile storage. One [`GridTiles`] holds 8 tiles of 3 bits each in
//! 3 bytes. The 24 bits form one stream that starts at the most significant bit
//! of the first byte; tile `i` owns stream positions `3 * i` to `3 * i + 2`, so
//! two of the tiles straddle a byte boundary.

use vstd::prelude::*;
use crate::bits::{
    bit, field_of, lemma_bits_of_field, lemma_equal_bits_equal_bytes, lemma_field_of_bits, lemma_or_sets_bit,
    lemma_zero_has_no_bit,
};

verus! {

/// Tiles in one group.
pub const TILE_COUNT: usize = 8;

/// Bits that one tile occupies.
pub const TILE_BITS: usize = 3;

/// Bits in the whole group.
pub const STREAM_BITS: usize = 24;

/// Position of the mine flag inside a tile.
pub const MINE: usize = 0;

/// Position of the revealed flag inside a tile.
pub const REVEALED: usize = 1;

/// Position of the flagged flag inside a tile.
pub const FLAGGED: usize = 2;

/// The bit at `position` of the stream that `bytes` encode: position 0 is the
/// most significant bit of the first byte.
pub open spec fn stream_bit(bytes: Seq<u8>, position: int) -> bool {
    bit(bytes[position / 8], (7 - position % 8) as u8)
}

/// The stream of 24 bits that three bytes encode.
pub open spec fn stream_of(bytes: Seq<u8>) -> Seq<bool> {
    Seq::new(STREAM_BITS as nat, |position: int| stream_bit(bytes, position))
}

/// The stream in which no flag is set.
pub open spec fn empty_stream() -> Seq<bool> {
    Seq::new(STREAM_BITS as nat, |position: int| false)
}

/// One flag of tile `index` in a stream of bits.
pub open spec fn flag_of(bits: Seq<bool>, index: int, offset: int) -> bool {
    bits[TILE_BITS * index + offset]
}

/// The 3-bit value of tile `index`: the mine flag in bit 0, the revealed flag
/// in bit 1, the flagged flag in bit 2.
pub open spec fn cell_of(bits: Seq<bool>, index: int) -> u8 {
    field_of(
        flag_of(bits, index, MINE as int),
        flag_of(bits, index, REVEALED as int),
        flag_of(bits, index, FLAGGED as int),
    )
}

/// The stream after one flag of tile `index` is written.
pub open spec fn with_flag(bits: Seq<bool>, index: int, offset: int, value: bool) -> Seq<bool> {
    bits.update(TILE_BITS * index + offset, value)
}

/// The stream after the low 3 bits of `byte` are written over tile `index`.
/// They enter the stream most significant first: bit 2 of `byte` takes the
/// tile's first position, bit 0 its last.
pub open spec fn with_cell(bits: Seq<bool>, index: int, byte: u8) -> Seq<bool> {
    bits.update(TILE_BITS * index, bit(byte, 2)).update(TILE_BITS * index + 1, bit(byte, 1)).update(
        TILE_BITS * index + 2,
        bit(byte, 0),
    )
}

/// Eight tiles of three flags each, packed into three bytes.
pub struct GridTiles {
    tile_data: [u8; 3],
}

impl View for GridTiles {
    type V = Seq<bool>;

    /// The 24 flags in stream order.
    open spec fn view(&self) -> Seq<bool> {
        stream_of(self.bytes())
    }
}

/// Shifting and masking reads one bit.
proof fn lemma_read_bit(reversed: u8, offset: usize)
    by (bit_vector)
    requires
        offset < 8,
    ensures
        (((reversed >> offset) & 1) != 0) == bit(reversed, offset as u8),
{
}

/// Clearing one bit of a byte and OR-ing the new state in changes that bit
/// and no other. `offset` counts from the most significant bit.
proof fn lemma_write_bit(byte: u8, offset: usize, value: bool, written: u8)
    by (bit_vector)
    requires
        offset < 8,
        written == (byte & !(0b10000000u8 >> offset)) | (((value as u8) << 7) >> offset),
    ensures
        forall|k: u8|
            k < 8 ==> #[trigger] bit(written, k) == (if k + offset == 7 {
                value
            } else {
                bit(byte, k)
            }),
{
}

/// Three bits that lie in one byte, read from its reversal.
proof fn lemma_read_field(reversed: u8, offset: usize, field: u8)
    by (bit_vector)
    requires
        offset <= 5,
        field == (reversed >> offset) & 0b111,
    ensures
        field < 8,
        bit(field, 0) == bit(reversed, offset as u8),
        bit(field, 1) == bit(reversed, (offset + 1) as u8),
        bit(field, 2) == bit(reversed, (offset + 2) as u8),
{
}

/// Three bits that begin in the last two positions of one byte and end in the
/// next, read from the reversals of both.
proof fn lemma_read_split_field(reversed: u8, following: u8, offset: usize, field: u8)
    by (bit_vector)
    requires
        5 < offset < 8,
        field == ((reversed >> offset) & 0b111) | ((following << ((8 - offset) as usize)) & 0b111),
    ensures
        field < 8,
        bit(field, 0) == bit(reversed, offset as u8),
        bit(field, 1) == (if offset == 6 {
            bit(reversed, 7)
        } else {
            bit(following, 0)
        }),
        bit(field, 2) == (if offset == 6 {
            bit(following, 0)
        } else {
            bit(following, 1)
        }),
{
}

/// What writing a 3-bit field at `offset` does to the byte in which the field
/// begins: up to three bits change, the first of them to bit 2 of `value`.
proof fn lemma_write_field(byte: u8, offset: usize, value: u8, written: u8)
    by (bit_vector)
    requires
        offset < 8,
        written == (byte & !(0b11100000u8 >> offset)) | (((value & 0b111) << 5) >> offset),
    ensures
        forall|k: u8|
            k < 8 ==> #[trigger] bit(written, k) == (if k + offset == 7 {
                bit(value, 2)
            } else if k + offset == 6 {
                bit(value, 1)
            } else if k + offset == 5 {
                bit(value, 0)
            } else {
                bit(byte, k)
            }),
{
}

/// What writing a 3-bit field at `offset` does to the byte after the one in
/// which the field begins, where the field reaches into it.
proof fn lemma_write_field_rest(byte: u8, offset: usize, value: u8, written: u8)
    by (bit_vector)
    requires
        5 < offset < 8,
        written == (byte & !(0b11000000u8 << ((7 - offset) as usize))) | (((value & 0b111) << 5) << ((8 - offset) as usize)),
    ensures
        forall|k: u8|
            k < 8 ==> #[trigger] bit(written, k) == (if k + offset == 14 {
                bit(value, 1)
            } else if k + offset == 13 {
                bit(value, 0)
            } else {
                bit(byte, k)
            }),
{
}

impl GridTiles {
    /// The three backing bytes.
    pub closed spec fn bytes(&self) -> Seq<u8> {
        self.tile_data@
    }

    /// A copy of the three backing bytes.
    pub fn tile_data(&self) -> (data: [u8; 3])
        ensures
            data@ == self.bytes(),
    {
        self.tile_data
    }

    /// The flag at `position` of the stream.
    fn bit_at(&self, position: usize) -> (value: bool)
        requires
            position < STREAM_BITS,
        ensures
            value == self@[position as int],
    {
        let byte_index: usize = position / 8;
        let bit_offset: usize = position % 8;
        let reversed: u8 = self.tile_data[byte_index].reverse_bits();
        proof {
            lemma_read_bit(reversed, bit_offset);
        }
        ((reversed >> bit_offset) & 1) != 0
    }

    /// Writes the flag at `position` of the stream and no other.
    fn set_bit_at(&mut self, position: usize, value: bool)
        requires
            position < STREAM_BITS,
        ensures
            final(self)@ == old(self)@.update(position as int, value),
    {
        let byte_index: usize = position / 8;
        let bit_offset: usize = position % 8;
        let ghost before: u8 = self.tile_data[byte_index as int];
        self.tile_data[byte_index] &= !(0b10000000 >> bit_offset);
        self.tile_data[byte_index] |= ((value as u8) << 7) >> bit_offset;
        proof {
            lemma_write_bit(before, bit_offset, value, self.tile_data[byte_index as int]);
        }
        assert(self@ =~= old(self)@.update(position as int, value));
    }

    /// The 3-bit value of tile `index`, in the low bits of the result: bit 0 is
    /// the mine flag, bit 1 the revealed flag, bit 2 the flagged flag.
    pub fn get(&self, index: usize) -> (field: u8)
        requires
            index < TILE_COUNT,
        ensures
            field == cell_of(self@, index as int),
    {
        let bit_position: usize = index * TILE_BITS;
        let byte_index: usize = bit_position / 8;
        let bit_offset: usize = bit_position % 8;

        let reversed: u8 = self.tile_data[byte_index].reverse_bits();
        let mut result: u8 = (reversed >> bit_offset) & 0b111;

        if bit_offset > 5 {
            let following: u8 = self.tile_data[byte_index + 1].reverse_bits();
            result |= (following << (8 - bit_offset)) & 0b111;
            proof {
                lemma_read_split_field(reversed, following, bit_offset, result);
            }
        } else {
            proof {
                lemma_read_field(reversed, bit_offset, result);
            }
        }
        proof {
            lemma_field_of_bits(result);
        }
        result
    }

    /// Overwrites tile `index` with the low 3 bits of `byte`; the other bits of
    /// `byte` are ignored and every other tile keeps its bits. The field is
    /// written most significant bit first, so bit 2 of `byte` becomes the mine
    /// flag and bit 0 the flagged flag.
    pub fn set(&mut self, index: usize, byte: u8)
        requires
            index < TILE_COUNT,
        ensures
            final(self)@ == with_cell(old(self)@, index as int, byte),
    {
        let field: u8 = (byte & 0b111) << 5;

        let bit_position: usize = index * TILE_BITS;
        let byte_index: usize = bit_position / 8;
        let bit_offset: usize = bit_position % 8;

        let ghost first: u8 = self.tile_data[byte_index as int];
        self.tile_data[byte_index] &= !(0b11100000 >> bit_offset);
        self.tile_data[byte_index] |= field >> bit_offset;
        proof {
            lemma_write_field(first, bit_offset, byte, self.tile_data[byte_index as int]);
        }

        if bit_offset > 5 {
            let ghost second: u8 = self.tile_data[byte_index + 1];
            self.tile_data[byte_index + 1] &= !(0b11000000 << (7 - bit_offset));
            self.tile_data[byte_index + 1] |= field << (8 - bit_offset);
            proof {
                lemma_write_field_rest(second, bit_offset, byte, self.tile_data[byte_index + 1]);
            }
        }
        assert(self@ =~= with_cell(old(self)@, index as int, byte));
    }

    /// Whether tile `index` holds a mine.
    pub fn is_mine(&self, index: usize) -> (value: bool)
        requires
            index < TILE_COUNT,
        ensures
            value == flag_of(self@, index as int, MINE as int),
    {
        self.bit_at(index * TILE_BITS + MINE)
    }

    /// Whether tile `index` is revealed.
    pub fn revealed(&self, index: usize) -> (value: bool)
        requires
            index < TILE_COUNT,
        ensures
            value == flag_of(self@, index as int, REVEALED as int),
    {
        self.bit_at(index * TILE_BITS + REVEALED)
    }

    /// Whether tile `index` is flagged.
    pub fn flagged(&self, index: usize) -> (value: bool)
        requires
            index < TILE_COUNT,
        ensures
            value == flag_of(self@, index as int, FLAGGED as int),
    {
        self.bit_at(index * TILE_BITS + FLAGGED)
    }

    /// Writes the mine flag of tile `index` and nothing else.
    pub fn set_mine(&mut self, index: usize, bit: bool)
        requires
            index < TILE_COUNT,
        ensures
            final(self)@ == with_flag(old(self)@, index as int, MINE as int, bit),
    {
        self.set_bit_at(index * TILE_BITS + MINE, bit)
    }

    /// Writes the revealed flag of tile `index` and nothing else.
    pub fn set_revealed(&mut self, index: usize, bit: bool)
        requires
            index < TILE_COUNT,
        ensures
            final(self)@ == with_flag(old(self)@, index as int, REVEALED as int, bit),
    {
        self.set_bit_at(index * TILE_BITS + REVEALED, bit)
    }

    /// Writes the flagged flag of tile `index` and nothing else.
    pub fn set_flagged(&mut self, index: usize, bit: bool)
        requires
            index < TILE_COUNT,
        ensures
            final(self)@ == with_flag(old(self)@, index as int, FLAGGED as int, bit),
    {
        self.set_bit_at(index * TILE_BITS + FLAGGED, bit)
    }
}

impl Default for GridTiles {
    /// A group in which no flag is set.
    fn default() -> (tiles: GridTiles)
        ensures
            tiles@ == empty_stream(),
    {
        let tiles = GridTiles { tile_data: [0, 0, 0] };
        proof {
            lemma_zero_has_no_bit();
        }
        assert(tiles@ =~= empty_stream());
        tiles
    }
}

/// Reading a tile after `set` gives the three written bits in mirrored order:
/// bit 2 of the written byte comes back as bit 0, bit 1 stays, bit 0 comes back
/// as bit 2.
pub proof fn lemma_get_after_set(bits: Seq<bool>, index: int, byte: u8)
    requires
        bits.len() == STREAM_BITS,
        0 <= index < TILE_COUNT,
    ensures
        cell_of(with_cell(bits, index, byte), index) == field_of(bit(byte, 2), bit(byte, 1), bit(byte, 0)),
{
}

/// A 3-bit value whose bit 0 equals its bit 2 is read back as it was written.
pub proof fn lemma_get_after_set_same(bits: Seq<bool>, index: int, byte: u8)
    requires
        bits.len() == STREAM_BITS,
        0 <= index < TILE_COUNT,
        byte < 8,
        bit(byte, 0) == bit(byte, 2),
    ensures
        cell_of(with_cell(bits, index, byte), index) == byte,
{
    lemma_get_after_set(bits, index, byte);
    lemma_field_of_bits(byte);
}

/// Writing one tile changes no flag and no value of any other tile.
pub proof fn lemma_set_keeps_other_tiles(bits: Seq<bool>, index: int, other: int, byte: u8)
    requires
        bits.len() == STREAM_BITS,
        0 <= index < TILE_COUNT,
        0 <= other < TILE_COUNT,
        other != index,
    ensures
        cell_of(with_cell(bits, index, byte), other) == cell_of(bits, other),
        forall|offset: int|
            0 <= offset < TILE_BITS ==> flag_of(with_cell(bits, index, byte), other, offset) == flag_of(
                bits,
                other,
                offset,
            ),
{
}

/// In a group with no flag set, setting one flag of a tile makes the tile read
/// 1 for the mine flag, 2 for the revealed flag and 4 for the flagged flag.
pub proof fn lemma_single_flag(index: int)
    requires
        0 <= index < TILE_COUNT,
    ensures
        cell_of(with_flag(empty_stream(), index, MINE as int, true), index) == 0b001,
        cell_of(with_flag(empty_stream(), index, REVEALED as int, true), index) == 0b010,
        cell_of(with_flag(empty_stream(), index, FLAGGED as int, true), index) == 0b100,
{
}

/// Setting a flag ORs its bit into the value of the tile; the two other flags
/// of the tile keep their state.
pub proof fn lemma_flags_combine(bits: Seq<bool>, index: int, offset: int)
    requires
        bits.len() == STREAM_BITS,
        0 <= index < TILE_COUNT,
        0 <= offset < TILE_BITS,
    ensures
        cell_of(with_flag(bits, index, offset, true), index) == cell_of(bits, index) | (1u8 << (offset as u8)),
{
    let before = cell_of(bits, index);
    lemma_bits_of_field(
        flag_of(bits, index, MINE as int),
        flag_of(bits, index, REVEALED as int),
        flag_of(bits, index, FLAGGED as int),
    );
    lemma_or_sets_bit(before, offset as u8);
}

/// Writing a flag touches one position of the stream only: the flag reads back
/// as written and every other flag, of this tile and of the others, is as
/// before.
pub proof fn lemma_flag_write_is_local(bits: Seq<bool>, index: int, offset: int, value: bool)
    requires
        bits.len() == STREAM_BITS,
        0 <= index < TILE_COUNT,
        0 <= offset < TILE_BITS,
    ensures
        flag_of(with_flag(bits, index, offset, value), index, offset) == value,
        forall|other: int, sibling: int|
            0 <= other < TILE_COUNT && 0 <= sibling < TILE_BITS && (other != index || sibling != offset)
                ==> flag_of(with_flag(bits, index, offset, value), other, sibling) == flag_of(
                bits,
                other,
                sibling,
            ),
{
}

/// Switching a flag on and then off again gives back the group in which the
/// flag was off; more generally, writing a flag twice is writing it once, and
/// writing back the state it had changes nothing.
pub proof fn lemma_flag_toggle_restores(bits: Seq<bool>, index: int, offset: int, value: bool)
    requires
        bits.len() == STREAM_BITS,
        0 <= index < TILE_COUNT,
        0 <= offset < TILE_BITS,
    ensures
        !flag_of(bits, index, offset) ==> with_flag(with_flag(bits, index, offset, true), index, offset, false)
            == bits,
        with_flag(with_flag(bits, index, offset, !value), index, offset, value) == with_flag(
            bits,
            index,
            offset,
            value,
        ),
        with_flag(bits, index, offset, flag_of(bits, index, offset)) == bits,
{
    assert(with_flag(with_flag(bits, index, offset, true), index, offset, false) =~= with_flag(
        bits,
        index,
        offset,
        false,
    ));
    assert(with_flag(with_flag(bits, index, offset, !value), index, offset, value) =~= with_flag(
        bits,
        index,
        offset,
        value,
    ));
    assert(with_flag(bits, index, offset, flag_of(bits, index, offset)) =~= bits);
}

/// Equal streams have equal bits in every byte.
proof fn lemma_same_stream_same_bit(a: Seq<u8>, b: Seq<u8>, i: int, k: u8)
    requires
        0 <= i < 3,
        k < 8,
        stream_of(a) == stream_of(b),
    ensures
        bit(a[i], k) == bit(b[i], k),
{
    let position = 8 * i + 7 - k;
    assert(stream_of(a)[position] == stream_bit(a, position));
    assert(stream_of(b)[position] == stream_bit(b, position));
}

/// Two groups of three bytes that encode the same stream are the same bytes.
pub proof fn lemma_stream_determines_bytes(a: Seq<u8>, b: Seq<u8>)
    requires
        a.len() == 3,
        b.len() == 3,
        stream_of(a) == stream_of(b),
    ensures
        a == b,
{
    assert forall|i: int| 0 <= i < 3 implies a[i] == b[i] by {
        lemma_same_stream_same_bit(a, b, i, 0);
        lemma_same_stream_same_bit(a, b, i, 1);
        lemma_same_stream_same_bit(a, b, i, 2);
        lemma_same_stream_same_bit(a, b, i, 3);
        lemma_same_stream_same_bit(a, b, i, 4);
        lemma_same_stream_same_bit(a, b, i, 5);
        lemma_same_stream_same_bit(a, b, i, 6);
        lemma_same_stream_same_bit(a, b, i, 7);
        lemma_equal_bits_equal_bytes(a[i], b[i]);
    }
    assert(a =~= b);
}

/// Reading does not depend on anything but the group and the index: any two
/// results of `get` on the same group and tile are equal.
pub proof fn lemma_get_is_repeatable(tiles: GridTiles, index: usize, first: u8, second: u8)
    requires
        index < TILE_COUNT,
        call_ensures(GridTiles::get, (&tiles, index), first),
        call_ensures(GridTiles::get, (&tiles, index), second),
    ensures
        first == second,
        first == cell_of(tiles@, index as int),
{
}

} // verus!
