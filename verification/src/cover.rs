//! The covering integer: a `u128` exactly as wide as the 16-byte buffer,
//! used to compare whole values in one machine operation and to slice inlined
//! content by bit manipulation instead of a byte copy.

use vstd::prelude::*;

verus! {

/// Mask selecting the marker byte of the covering integer: in little-endian
/// byte order the marker is the most significant byte.
pub const SIZE_MASK: u128 = 0xff000000_00000000_00000000_00000000;

/// Mask selecting the 15 content bytes of the covering integer.
pub const DATA_MASK: u128 = !SIZE_MASK;

/// Byte `i` of a covering integer, in little-endian byte order.
pub open spec fn byte_of(x: u128, i: u128) -> u8 {
    (((x >> ((8 * i) as u128)) & 0xff) as u8)
}

/// Reinterprets the buffer as its covering integer (little-endian).
pub fn cover_of_bytes(data: &[u8; 16]) -> (x: u128)
    ensures
        forall|i: u128| i < 16 ==> #[trigger] byte_of(x, i) == data@[i as int],
{
    let b0 = data[0];
    let b1 = data[1];
    let b2 = data[2];
    let b3 = data[3];
    let b4 = data[4];
    let b5 = data[5];
    let b6 = data[6];
    let b7 = data[7];
    let b8 = data[8];
    let b9 = data[9];
    let b10 = data[10];
    let b11 = data[11];
    let b12 = data[12];
    let b13 = data[13];
    let b14 = data[14];
    let b15 = data[15];
    let x: u128 = (b0 as u128) | ((b1 as u128) << 8u128) | ((b2 as u128) << 16u128) | ((b3
        as u128) << 24u128) | ((b4 as u128) << 32u128) | ((b5 as u128) << 40u128) | ((b6 as u128)
        << 48u128) | ((b7 as u128) << 56u128) | ((b8 as u128) << 64u128) | ((b9 as u128) << 72u128)
        | ((b10 as u128) << 80u128) | ((b11 as u128) << 88u128) | ((b12 as u128) << 96u128) | ((b13
        as u128) << 104u128) | ((b14 as u128) << 112u128) | ((b15 as u128) << 120u128);
    proof {
        assert(byte_of(x, 0) == b0 && byte_of(x, 1) == b1 && byte_of(x, 2) == b2 && byte_of(x, 3)
            == b3 && byte_of(x, 4) == b4 && byte_of(x, 5) == b5 && byte_of(x, 6) == b6 && byte_of(
            x,
            7,
        ) == b7 && byte_of(x, 8) == b8 && byte_of(x, 9) == b9 && byte_of(x, 10) == b10 && byte_of(
            x,
            11,
        ) == b11 && byte_of(x, 12) == b12 && byte_of(x, 13) == b13 && byte_of(x, 14) == b14
            && byte_of(x, 15) == b15) by (bit_vector)
            requires
                x == (b0 as u128) | ((b1 as u128) << 8u128) | ((b2 as u128) << 16u128) | ((b3
                    as u128) << 24u128) | ((b4 as u128) << 32u128) | ((b5 as u128) << 40u128) | ((
                b6 as u128) << 48u128) | ((b7 as u128) << 56u128) | ((b8 as u128) << 64u128) | ((b9
                    as u128) << 72u128) | ((b10 as u128) << 80u128) | ((b11 as u128) << 88u128) | ((
                b12 as u128) << 96u128) | ((b13 as u128) << 104u128) | ((b14 as u128) << 112u128)
                    | ((b15 as u128) << 120u128),
        ;
        assert forall|i: u128| i < 16 implies #[trigger] byte_of(x, i) == data@[i as int] by {
            if i == 0 {
                assert(byte_of(x, i) == b0);
            } else if i == 1 {
                assert(byte_of(x, i) == b1);
            } else if i == 2 {
                assert(byte_of(x, i) == b2);
            } else if i == 3 {
                assert(byte_of(x, i) == b3);
            } else if i == 4 {
                assert(byte_of(x, i) == b4);
            } else if i == 5 {
                assert(byte_of(x, i) == b5);
            } else if i == 6 {
                assert(byte_of(x, i) == b6);
            } else if i == 7 {
                assert(byte_of(x, i) == b7);
            } else if i == 8 {
                assert(byte_of(x, i) == b8);
            } else if i == 9 {
                assert(byte_of(x, i) == b9);
            } else if i == 10 {
                assert(byte_of(x, i) == b10);
            } else if i == 11 {
                assert(byte_of(x, i) == b11);
            } else if i == 12 {
                assert(byte_of(x, i) == b12);
            } else if i == 13 {
                assert(byte_of(x, i) == b13);
            } else if i == 14 {
                assert(byte_of(x, i) == b14);
            } else {
                assert(i == 15);
                assert(byte_of(x, i) == b15);
            }
        }
    }
    x
}

/// Reinterprets a covering integer back into buffer bytes (little-endian).
pub fn bytes_of_cover(x: u128) -> (data: [u8; 16])
    ensures
        forall|i: u128| i < 16 ==> #[trigger] byte_of(x, i) == data@[i as int],
{
    let mut data: [u8; 16] = [0; 16];
    data[0] = (x & 0xff) as u8;
    data[1] = ((x >> 8u128) & 0xff) as u8;
    data[2] = ((x >> 16u128) & 0xff) as u8;
    data[3] = ((x >> 24u128) & 0xff) as u8;
    data[4] = ((x >> 32u128) & 0xff) as u8;
    data[5] = ((x >> 40u128) & 0xff) as u8;
    data[6] = ((x >> 48u128) & 0xff) as u8;
    data[7] = ((x >> 56u128) & 0xff) as u8;
    data[8] = ((x >> 64u128) & 0xff) as u8;
    data[9] = ((x >> 72u128) & 0xff) as u8;
    data[10] = ((x >> 80u128) & 0xff) as u8;
    data[11] = ((x >> 88u128) & 0xff) as u8;
    data[12] = ((x >> 96u128) & 0xff) as u8;
    data[13] = ((x >> 104u128) & 0xff) as u8;
    data[14] = ((x >> 112u128) & 0xff) as u8;
    data[15] = ((x >> 120u128) & 0xff) as u8;
    proof {
        assert(byte_of(x, 0) == (x & 0xff) as u8 && byte_of(x, 1) == ((x >> 8u128) & 0xff) as u8
            && byte_of(x, 2) == ((x >> 16u128) & 0xff) as u8 && byte_of(x, 3) == ((x >> 24u128)
            & 0xff) as u8 && byte_of(x, 4) == ((x >> 32u128) & 0xff) as u8 && byte_of(x, 5) == ((x
            >> 40u128) & 0xff) as u8 && byte_of(x, 6) == ((x >> 48u128) & 0xff) as u8 && byte_of(
            x,
            7,
        ) == ((x >> 56u128) & 0xff) as u8 && byte_of(x, 8) == ((x >> 64u128) & 0xff) as u8
            && byte_of(x, 9) == ((x >> 72u128) & 0xff) as u8 && byte_of(x, 10) == ((x >> 80u128)
            & 0xff) as u8 && byte_of(x, 11) == ((x >> 88u128) & 0xff) as u8 && byte_of(x, 12) == ((
        x >> 96u128) & 0xff) as u8 && byte_of(x, 13) == ((x >> 104u128) & 0xff) as u8 && byte_of(
            x,
            14,
        ) == ((x >> 112u128) & 0xff) as u8 && byte_of(x, 15) == ((x >> 120u128) & 0xff) as u8)
            by (bit_vector);
        assert forall|i: u128| i < 16 implies #[trigger] byte_of(x, i) == data@[i as int] by {
            if i == 0 {
                assert(byte_of(x, i) == (x & 0xff) as u8);
            } else if i == 1 {
                assert(byte_of(x, i) == ((x >> 8u128) & 0xff) as u8);
            } else if i == 2 {
                assert(byte_of(x, i) == ((x >> 16u128) & 0xff) as u8);
            } else if i == 3 {
                assert(byte_of(x, i) == ((x >> 24u128) & 0xff) as u8);
            } else if i == 4 {
                assert(byte_of(x, i) == ((x >> 32u128) & 0xff) as u8);
            } else if i == 5 {
                assert(byte_of(x, i) == ((x >> 40u128) & 0xff) as u8);
            } else if i == 6 {
                assert(byte_of(x, i) == ((x >> 48u128) & 0xff) as u8);
            } else if i == 7 {
                assert(byte_of(x, i) == ((x >> 56u128) & 0xff) as u8);
            } else if i == 8 {
                assert(byte_of(x, i) == ((x >> 64u128) & 0xff) as u8);
            } else if i == 9 {
                assert(byte_of(x, i) == ((x >> 72u128) & 0xff) as u8);
            } else if i == 10 {
                assert(byte_of(x, i) == ((x >> 80u128) & 0xff) as u8);
            } else if i == 11 {
                assert(byte_of(x, i) == ((x >> 88u128) & 0xff) as u8);
            } else if i == 12 {
                assert(byte_of(x, i) == ((x >> 96u128) & 0xff) as u8);
            } else if i == 13 {
                assert(byte_of(x, i) == ((x >> 104u128) & 0xff) as u8);
            } else if i == 14 {
                assert(byte_of(x, i) == ((x >> 112u128) & 0xff) as u8);
            } else {
                assert(i == 15);
            }
        }
    }
    data
}

/// Two covering integers with the same bytes are the same integer.
pub proof fn lemma_byte_ext(x: u128, y: u128)
    requires
        forall|i: u128| i < 16 ==> #[trigger] byte_of(x, i) == byte_of(y, i),
    ensures
        x == y,
{
    assert(byte_of(x, 0) == byte_of(y, 0));
    assert(byte_of(x, 1) == byte_of(y, 1));
    assert(byte_of(x, 2) == byte_of(y, 2));
    assert(byte_of(x, 3) == byte_of(y, 3));
    assert(byte_of(x, 4) == byte_of(y, 4));
    assert(byte_of(x, 5) == byte_of(y, 5));
    assert(byte_of(x, 6) == byte_of(y, 6));
    assert(byte_of(x, 7) == byte_of(y, 7));
    assert(byte_of(x, 8) == byte_of(y, 8));
    assert(byte_of(x, 9) == byte_of(y, 9));
    assert(byte_of(x, 10) == byte_of(y, 10));
    assert(byte_of(x, 11) == byte_of(y, 11));
    assert(byte_of(x, 12) == byte_of(y, 12));
    assert(byte_of(x, 13) == byte_of(y, 13));
    assert(byte_of(x, 14) == byte_of(y, 14));
    assert(byte_of(x, 15) == byte_of(y, 15));
    assert(x == y) by (bit_vector)
        requires
            byte_of(x, 0) == byte_of(y, 0),
            byte_of(x, 1) == byte_of(y, 1),
            byte_of(x, 2) == byte_of(y, 2),
            byte_of(x, 3) == byte_of(y, 3),
            byte_of(x, 4) == byte_of(y, 4),
            byte_of(x, 5) == byte_of(y, 5),
            byte_of(x, 6) == byte_of(y, 6),
            byte_of(x, 7) == byte_of(y, 7),
            byte_of(x, 8) == byte_of(y, 8),
            byte_of(x, 9) == byte_of(y, 9),
            byte_of(x, 10) == byte_of(y, 10),
            byte_of(x, 11) == byte_of(y, 11),
            byte_of(x, 12) == byte_of(y, 12),
            byte_of(x, 13) == byte_of(y, 13),
            byte_of(x, 14) == byte_of(y, 14),
            byte_of(x, 15) == byte_of(y, 15),
    ;
}

/// The covering integer of the slice of an inlined value: clear the marker,
/// mask away the bytes at `end` and beyond, shift out the bytes before
/// `start`, and put the new length in the marker byte.
pub open spec fn slice_cover_spec(x: u128, start: u128, end: u128) -> u128
    recommends
        start <= end <= 15,
{
    ((x & DATA_MASK & !(DATA_MASK << ((8 * end) as u128))) >> ((8 * start) as u128)) | (((end
        - start) as u128) << 120u128)
}

/// One byte of the sliced covering integer: bytes below the new length come
/// from the old content starting at `start`, bytes between the new length and
/// the marker are zero, and the marker holds the new length.
proof fn lemma_slice_cover_byte(x: u128, start: u128, end: u128, i: u128)
    by (bit_vector)
    requires
        start <= end,
        end <= 15,
        i < 16,
    ensures
        i < end - start ==> byte_of(slice_cover_spec(x, start, end), i) == byte_of(
            x,
            (start + i) as u128,
        ),
        end - start <= i < 15 ==> byte_of(slice_cover_spec(x, start, end), i) == 0,
        i == 15 ==> byte_of(slice_cover_spec(x, start, end), i) == end - start,
{
}

/// Slices the content of an inlined value's covering integer by bit
/// manipulation, without copying bytes.
pub fn slice_cover(x: u128, start: u128, end: u128) -> (y: u128)
    requires
        start <= end <= 15,
    ensures
        y == slice_cover_spec(x, start, end),
        forall|i: u128|
            i < end - start ==> #[trigger] byte_of(y, i) == byte_of(x, (start + i) as u128),
        forall|i: u128| end - start <= i < 15 ==> #[trigger] byte_of(y, i) == 0,
        byte_of(y, 15) == end - start,
{
    let kept = x & DATA_MASK & !(DATA_MASK << (8 * end));
    let shifted = kept >> (8 * start);
    let y = shifted | ((end - start) << 120u128);
    proof {
        assert((8 * end) as u128 == 8 * end && (8 * start) as u128 == 8 * start && (end - start)
            as u128 == end - start);
        assert forall|i: u128| i < end - start implies #[trigger] byte_of(y, i) == byte_of(
            x,
            (start + i) as u128,
        ) by {
            lemma_slice_cover_byte(x, start, end, i);
        }
        assert forall|i: u128| end - start <= i < 15 implies #[trigger] byte_of(y, i) == 0 by {
            lemma_slice_cover_byte(x, start, end, i);
        }
        lemma_slice_cover_byte(x, start, end, 15);
    }
    y
}

} // verus!
