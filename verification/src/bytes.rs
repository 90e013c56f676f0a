//! Little-endian integer reads and byte extraction from a buffer.

use vstd::prelude::*;

verus! {

/// The unsigned 16-bit value stored little-endian in two bytes.
pub open spec fn le_u16(b0: u8, b1: u8) -> u16 {
    (b0 + b1 * 256) as u16
}

/// The signed 16-bit value stored little-endian (two's complement) in two bytes.
pub open spec fn le_i16(b0: u8, b1: u8) -> i16 {
    if b0 + b1 * 256 < 32768 {
        (b0 + b1 * 256) as i16
    } else {
        (b0 + b1 * 256 - 65536) as i16
    }
}

/// The unsigned 32-bit value stored little-endian in four bytes.
pub open spec fn le_u32(b0: u8, b1: u8, b2: u8, b3: u8) -> u32 {
    (b0 + b1 * 256 + b2 * 65536 + b3 * 16777216) as u32
}

/// Reads the little-endian `u16` at offset `i`.
pub fn read_u16(data: &[u8], i: usize) -> (r: u16)
    requires
        i + 2 <= data@.len(),
    ensures
        r == le_u16(data@[i as int], data@[i + 1]),
{
    let b0 = data[i];
    let b1 = data[i + 1];
    b0 as u16 + b1 as u16 * 256
}

/// Reads the little-endian `i16` at offset `i`.
pub fn read_i16(data: &[u8], i: usize) -> (r: i16)
    requires
        i + 2 <= data@.len(),
    ensures
        r == le_i16(data@[i as int], data@[i + 1]),
{
    let b0 = data[i];
    let b1 = data[i + 1];
    let raw: u32 = b0 as u32 + b1 as u32 * 256;
    if raw < 32768 {
        raw as i16
    } else {
        (raw as i32 - 65536) as i16
    }
}

/// Reads the little-endian `u32` at offset `i`.
pub fn read_u32(data: &[u8], i: usize) -> (r: u32)
    requires
        i + 4 <= data@.len(),
    ensures
        r == le_u32(data@[i as int], data@[i + 1], data@[i + 2], data@[i + 3]),
{
    let b0 = data[i];
    let b1 = data[i + 1];
    let b2 = data[i + 2];
    let b3 = data[i + 3];
    b0 as u32 + b1 as u32 * 256 + b2 as u32 * 65536 + b3 as u32 * 16777216
}

/// Copies `data[start..end]` into a fresh vector.
pub fn subvec(data: &[u8], start: usize, end: usize) -> (r: Vec<u8>)
    requires
        start <= end <= data@.len(),
    ensures
        r@ == data@.subrange(start as int, end as int),
{
    let mut r: Vec<u8> = Vec::new();
    let mut i: usize = start;
    while i < end
        invariant
            start <= i <= end <= data@.len(),
            r@ == data@.subrange(start as int, i as int),
        decreases end - i,
    {
        r.push(data[i]);
        assert(r@ =~= data@.subrange(start as int, i + 1));
        i = i + 1;
    }
    r
}

} // verus!
