//! Fixed-width integers read out of a byte buffer at a given position.
//!
//! All multi-byte values are little-endian except where the name says `be`.

use vstd::prelude::*;

verus! {

/// The unsigned 16-bit value stored little-endian at `at`.
pub open spec fn le_u16_at(s: Seq<u8>, at: int) -> u16 {
    (s[at] as int + s[at + 1] as int * 0x100) as u16
}

/// The unsigned 32-bit value stored little-endian at `at`.
pub open spec fn le_u32_at(s: Seq<u8>, at: int) -> u32 {
    (s[at] as int + s[at + 1] as int * 0x100 + s[at + 2] as int * 0x1_0000 + s[at + 3] as int
        * 0x100_0000) as u32
}

/// The unsigned 32-bit value stored big-endian at `at`.
pub open spec fn be_u32_at(s: Seq<u8>, at: int) -> u32 {
    (s[at] as int * 0x100_0000 + s[at + 1] as int * 0x1_0000 + s[at + 2] as int * 0x100 + s[at
        + 3] as int) as u32
}

/// The unsigned 64-bit value stored little-endian at `at`.
pub open spec fn le_u64_at(s: Seq<u8>, at: int) -> u64 {
    (le_u32_at(s, at) as int + le_u32_at(s, at + 4) as int * 0x1_0000_0000) as u64
}

/// The unsigned 64-bit value stored big-endian at `at`.
pub open spec fn be_u64_at(s: Seq<u8>, at: int) -> u64 {
    (be_u32_at(s, at) as int * 0x1_0000_0000 + be_u32_at(s, at + 4) as int) as u64
}

/// The two's-complement reading of a 32-bit pattern.
pub open spec fn signed_32(u: u32) -> i32 {
    if u < 0x8000_0000 {
        u as i32
    } else {
        (u as int - 0x1_0000_0000) as i32
    }
}

/// The two's-complement reading of a 64-bit pattern.
pub open spec fn signed_64(u: u64) -> i64 {
    if u < 0x8000_0000_0000_0000 {
        u as i64
    } else {
        (u as int - 0x1_0000_0000_0000_0000) as i64
    }
}

/// The signed 32-bit value stored little-endian at `at`.
pub open spec fn le_i32_at(s: Seq<u8>, at: int) -> i32 {
    signed_32(le_u32_at(s, at))
}

/// The signed 64-bit value stored little-endian at `at`.
pub open spec fn le_i64_at(s: Seq<u8>, at: int) -> i64 {
    signed_64(le_u64_at(s, at))
}

pub fn read_u16_le(data: &[u8], at: usize) -> (r: u16)
    requires
        at + 2 <= data@.len(),
    ensures
        r == le_u16_at(data@, at as int),
{
    let b0 = data[at] as u16;
    let b1 = data[at + 1] as u16;
    b0 + b1 * 0x100
}

pub fn read_u32_le(data: &[u8], at: usize) -> (r: u32)
    requires
        at + 4 <= data@.len(),
    ensures
        r == le_u32_at(data@, at as int),
{
    let b0 = data[at] as u32;
    let b1 = data[at + 1] as u32;
    let b2 = data[at + 2] as u32;
    let b3 = data[at + 3] as u32;
    b0 + b1 * 0x100 + b2 * 0x1_0000 + b3 * 0x100_0000
}

pub fn read_u32_be(data: &[u8], at: usize) -> (r: u32)
    requires
        at + 4 <= data@.len(),
    ensures
        r == be_u32_at(data@, at as int),
{
    let b0 = data[at] as u32;
    let b1 = data[at + 1] as u32;
    let b2 = data[at + 2] as u32;
    let b3 = data[at + 3] as u32;
    b0 * 0x100_0000 + b1 * 0x1_0000 + b2 * 0x100 + b3
}

pub fn read_u64_le(data: &[u8], at: usize) -> (r: u64)
    requires
        at + 8 <= data@.len(),
    ensures
        r == le_u64_at(data@, at as int),
{
    let lo = (data[at] as u64) + (data[at + 1] as u64) * 0x100 + (data[at + 2] as u64) * 0x1_0000
        + (data[at + 3] as u64) * 0x100_0000;
    let hi = (data[at + 4] as u64) + (data[at + 5] as u64) * 0x100 + (data[at + 6] as u64)
        * 0x1_0000 + (data[at + 7] as u64) * 0x100_0000;
    lo + hi * 0x1_0000_0000
}

pub fn read_u64_be(data: &[u8], at: usize) -> (r: u64)
    requires
        at + 8 <= data@.len(),
    ensures
        r == be_u64_at(data@, at as int),
{
    let hi = (data[at] as u64) * 0x100_0000 + (data[at + 1] as u64) * 0x1_0000 + (data[at + 2] as u64)
        * 0x100 + (data[at + 3] as u64);
    let lo = (data[at + 4] as u64) * 0x100_0000 + (data[at + 5] as u64) * 0x1_0000 + (data[at + 6]
        as u64) * 0x100 + (data[at + 7] as u64);
    hi * 0x1_0000_0000 + lo
}

pub fn read_i32_le(data: &[u8], at: usize) -> (r: i32)
    requires
        at + 4 <= data@.len(),
    ensures
        r == le_i32_at(data@, at as int),
{
    let u = read_u32_le(data, at);
    if u < 0x8000_0000 {
        u as i32
    } else {
        let low: i32 = (u - 0x8000_0000) as i32;
        low - 0x7fff_ffff - 1
    }
}

pub fn read_i64_le(data: &[u8], at: usize) -> (r: i64)
    requires
        at + 8 <= data@.len(),
    ensures
        r == le_i64_at(data@, at as int),
{
    let u = read_u64_le(data, at);
    if u < 0x8000_0000_0000_0000 {
        u as i64
    } else {
        let low: i64 = (u - 0x8000_0000_0000_0000) as i64;
        low - 0x7fff_ffff_ffff_ffff - 1
    }
}

} // verus!
