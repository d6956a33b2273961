//! Pure helper functions of the interpreter: splitting an instruction word
//! into nibbles, decimal-digit decomposition, and the conversion between a
//! display cell index and its (row, column) point.

use crate::PIXELS_PER_ROW;
use vstd::prelude::*;

verus! {

/// The four 4-bit nibbles of a 16-bit instruction word, most significant
/// first, as a sequence of bytes each below 16.
pub open spec fn spec_nibbles(instruction: u16) -> Seq<u8> {
    seq![
        (instruction >> 12) as u8,
        ((instruction >> 8) & 0xF) as u8,
        ((instruction >> 4) & 0xF) as u8,
        (instruction & 0xF) as u8,
    ]
}

/// Split a 16-bit instruction word into its four nibbles, most significant
/// first. Pure and total: every word decodes.
pub fn decode_instruction_into_nibbles(instruction: u16) -> (r: [u8; 4])
    ensures
        r@ == spec_nibbles(instruction),
        forall|k: int| 0 <= k < 4 ==> r@[k] < 16,
{
    let r: [u8; 4] = [
        ((instruction & 0xF000) >> 12) as u8,
        ((instruction & 0x0F00) >> 8) as u8,
        ((instruction & 0x00F0) >> 4) as u8,
        (instruction & 0x000F) as u8,
    ];
    proof {
        assert(((instruction & 0xF000) >> 12) as u8 == (instruction >> 12) as u8
            && ((instruction & 0x0F00) >> 8) as u8 == ((instruction >> 8) & 0xF) as u8
            && ((instruction & 0x00F0) >> 4) as u8 == ((instruction >> 4) & 0xF) as u8
            && ((instruction & 0x000F) as u8 == (instruction & 0xF) as u8)) by (bit_vector);
        assert(((instruction >> 12) as u8) < 16 && (((instruction >> 8) & 0xF) as u8) < 16
            && (((instruction >> 4) & 0xF) as u8) < 16 && ((instruction & 0xF) as u8)
            < 16) by (bit_vector);
        assert(r@ =~= spec_nibbles(instruction));
    }
    r
}

/// The three decimal digits of a byte: hundreds, tens, units.
pub open spec fn spec_bcd(num: u8) -> Seq<u8> {
    seq![(num / 100) as u8, ((num / 10) % 10) as u8, (num % 10) as u8]
}

/// Decompose a byte into its three decimal digits, most significant first.
pub fn convert_to_binary_coded_decimal(num: u8) -> (r: [u8; 3])
    ensures
        r@ == spec_bcd(num),
        r@[0] == num as int / 100,
        r@[1] == (num as int / 10) % 10,
        r@[2] == num as int % 10,
{
    let r: [u8; 3] = [num / 100, (num / 10) % 10, num % 10];
    proof {
        assert(r@ =~= spec_bcd(num));
    }
    r
}

/// The (row, column) point of a display cell index, row-major with 64 cells
/// per row.
pub open spec fn spec_point_from_index(index: int) -> (int, int) {
    (index / 64, index % 64)
}

/// The display cell index of a (row, column) point, row-major with 64 cells
/// per row.
pub open spec fn spec_index_from_point(point: (int, int)) -> int {
    point.0 * 64 + point.1
}

/// Convert a display cell index into its (row, column) point.
pub fn point_from_index(index: usize) -> (r: (usize, usize))
    ensures
        (r.0 as int, r.1 as int) == spec_point_from_index(index as int),
{
    (index / PIXELS_PER_ROW, index % PIXELS_PER_ROW)
}

/// Convert a (row, column) point into its display cell index.
pub fn index_from_point(point: (usize, usize)) -> (r: usize)
    requires
        point.0 * 64 + point.1 <= usize::MAX,
    ensures
        r as int == spec_index_from_point((point.0 as int, point.1 as int)),
{
    let (i, j): (usize, usize) = point;
    i * PIXELS_PER_ROW + j
}

/// Index and point conversion is a bijection over the display: converting an
/// index to a point and back yields the index again, for every cell index.
pub proof fn lemma_index_to_point_to_index(k: int)
    requires
        0 <= k < 2048,
    ensures
        spec_index_from_point(spec_point_from_index(k)) == k,
{
    assert((k / 64) * 64 + (k % 64) == k) by (nonlinear_arith)
        requires
            0 <= k,
    ;
}

/// Index and point conversion is a bijection over the display: converting an
/// in-range point to an index and back yields the point again.
pub proof fn lemma_point_to_index_to_point(i: int, j: int)
    requires
        0 <= i < 32,
        0 <= j < 64,
    ensures
        spec_point_from_index(spec_index_from_point((i, j))) == (i, j),
        0 <= spec_index_from_point((i, j)) < 2048,
{
    assert((i * 64 + j) / 64 == i && (i * 64 + j) % 64 == j && i * 64 + j < 2048)
        by (nonlinear_arith)
        requires
            0 <= i < 32 && 0 <= j < 64,
    ;
}

} // verus!
