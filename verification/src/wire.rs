//! Byte-level building blocks shared by the header and attribute parsers:
//! big-endian integer reads, the decode error type, and the adjustment of
//! error positions when a parse result is lifted from a sub-buffer into the
//! buffer that contains it.

use vstd::prelude::*;

verus! {

/// Why a decode attempt failed.
#[derive(Clone, Copy, Debug, PartialEq, Eq, Structural)]
pub enum RadiusError {
    /// The buffer is a true prefix of a packet: this many more bytes are
    /// required before the decode can succeed.  Also reported by the
    /// minimum-size checks of the ChapPassword and VendorSpecific value
    /// decoders, which reuse this signal even inside an already bounded
    /// attribute region.
    Incomplete(usize),
    /// A structural rule of the wire format is violated; the payload is the
    /// byte offset of the offending length byte.  Not recoverable by
    /// supplying more data.
    Validation(usize),
}

/// The 16-bit big-endian value stored in two consecutive bytes.
pub open spec fn be_u16_of(b0: u8, b1: u8) -> u16 {
    (b0 * 256 + b1) as u16
}

/// The 32-bit big-endian value stored in four consecutive bytes.
pub open spec fn be_u32_of(b0: u8, b1: u8, b2: u8, b3: u8) -> u32 {
    (b0 * 0x1000000 + b1 * 0x10000 + b2 * 0x100 + b3) as u32
}

/// A position shifted by `off`, saturating at the top of `usize` so that the
/// shift is total; real positions never come near the bound.
pub open spec fn shift_pos(p: usize, off: nat) -> usize {
    if p + off > usize::MAX {
        usize::MAX
    } else {
        (p + off) as usize
    }
}

/// An error as seen from an enclosing buffer in which the parsed sub-buffer
/// starts at offset `off`: validation positions move with the data, while a
/// count of missing bytes does not depend on where the buffer starts.
pub open spec fn shift_err(e: RadiusError, off: nat) -> RadiusError {
    match e {
        RadiusError::Incomplete(n) => RadiusError::Incomplete(n),
        RadiusError::Validation(p) => RadiusError::Validation(shift_pos(p, off)),
    }
}

/// Reads the 16-bit big-endian integer at offset `at`.
pub fn read_be_u16(i: &[u8], at: usize) -> (r: u16)
    requires
        at + 2 <= i@.len(),
    ensures
        r == be_u16_of(i@[at as int], i@[at as int + 1]),
{
    (i[at] as u16) * 256 + (i[at + 1] as u16)
}

/// Reads the 32-bit big-endian integer at offset `at`.
pub fn read_be_u32(i: &[u8], at: usize) -> (r: u32)
    requires
        at + 4 <= i@.len(),
    ensures
        r == be_u32_of(i@[at as int], i@[at as int + 1], i@[at as int + 2], i@[at as int + 3]),
{
    (i[at] as u32) * 0x1000000 + (i[at + 1] as u32) * 0x10000 + (i[at + 2] as u32) * 0x100 + (i[at
        + 3] as u32)
}

/// Copies the bytes of `i` between `from` and `to` into an owned vector.
pub fn copy_bytes(i: &[u8], from: usize, to: usize) -> (r: Vec<u8>)
    requires
        from <= to <= i@.len(),
    ensures
        r@ == i@.subrange(from as int, to as int),
{
    let mut out: Vec<u8> = Vec::new();
    let mut k: usize = from;
    while k < to
        invariant
            from <= k <= to <= i@.len(),
            out@ == i@.subrange(from as int, k as int),
        decreases to - k,
    {
        out.push(i[k]);
        proof {
            assert(out@ =~= i@.subrange(from as int, k as int + 1));
        }
        k = k + 1;
    }
    out
}

} // verus!
