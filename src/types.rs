//! Element types of the IDX format: their wire tags and how one element is
//! read, big-endian, from a byte buffer.
use vstd::prelude::*;
use crate::sealed::Sealed;

verus! {

/// An element type of the IDX format.
pub trait Type: Sealed {
    /// The decoded representation of one element.
    type TypeValue: BEReadable;

    /// The wire tag found at header offset 2.
    spec fn spec_value() -> u8;

    fn value() -> (r: u8)
        ensures
            r == Self::spec_value(),
    ;
}

/// Values that can be read, big-endian, from a byte buffer.
pub trait BEReadable: Sized {
    /// Number of bytes one value occupies.
    spec fn spec_width() -> nat;

    /// The value that the first `spec_width()` bytes of `b` encode.
    spec fn spec_from_be(b: Seq<u8>) -> Self;

    /// Number of bytes one value occupies.
    fn width() -> (r: usize)
        ensures
            r == Self::spec_width(),
            1 <= r <= 8,
    ;

    /// Reads one value starting at `pos`; `None` when fewer than
    /// `spec_width()` bytes are left.
    fn read_self(data: &[u8], pos: usize) -> (r: Option<Self>)
        ensures
            pos + Self::spec_width() <= data@.len() ==> r == Some(
                Self::spec_from_be(data@.subrange(pos as int, pos + Self::spec_width())),
            ),
            pos + Self::spec_width() > data@.len() ==> r is None,
    ;
}

/// Unsigned big-endian value of the first two bytes.
pub open spec fn be_nat2(b: Seq<u8>) -> nat {
    b[0] as nat * 0x100 + b[1] as nat
}

/// Unsigned big-endian value of the first four bytes.
pub open spec fn be_nat4(b: Seq<u8>) -> nat {
    b[0] as nat * 0x1000000 + b[1] as nat * 0x10000 + b[2] as nat * 0x100 + b[3] as nat
}

/// Unsigned big-endian value of the first eight bytes.
pub open spec fn be_nat8(b: Seq<u8>) -> nat {
    be_nat4(b) * 0x1_0000_0000 + be_nat4(b.subrange(4, 8))
}

/// Two's-complement reading of an unsigned value `u` below `modulus`, a
/// power of two.
pub open spec fn twos(u: nat, modulus: nat) -> int {
    if u >= modulus / 2 {
        u - modulus
    } else {
        u as int
    }
}

impl BEReadable for u8 {
    open spec fn spec_width() -> nat {
        1
    }

    fn width() -> (r: usize) {
        1
    }

    open spec fn spec_from_be(b: Seq<u8>) -> u8 {
        b[0]
    }

    fn read_self(data: &[u8], pos: usize) -> (r: Option<u8>) {
        if pos < data.len() {
            Some(data[pos])
        } else {
            None
        }
    }
}

impl BEReadable for i8 {
    open spec fn spec_width() -> nat {
        1
    }

    fn width() -> (r: usize) {
        1
    }

    open spec fn spec_from_be(b: Seq<u8>) -> i8 {
        twos(b[0] as nat, 0x100) as i8
    }

    fn read_self(data: &[u8], pos: usize) -> (r: Option<i8>) {
        if pos < data.len() {
            let u = data[pos] as i16;
            if u >= 0x80 {
                Some((u - 0x100) as i8)
            } else {
                Some(u as i8)
            }
        } else {
            None
        }
    }
}

impl BEReadable for i16 {
    open spec fn spec_width() -> nat {
        2
    }

    fn width() -> (r: usize) {
        2
    }

    open spec fn spec_from_be(b: Seq<u8>) -> i16 {
        twos(be_nat2(b), 0x1_0000) as i16
    }

    fn read_self(data: &[u8], pos: usize) -> (r: Option<i16>) {
        if pos < data.len() && data.len() - pos >= 2 {
            let u = data[pos] as i32 * 0x100 + data[pos + 1] as i32;
            if u >= 0x8000 {
                Some((u - 0x1_0000) as i16)
            } else {
                Some(u as i16)
            }
        } else {
            None
        }
    }
}

impl BEReadable for i32 {
    open spec fn spec_width() -> nat {
        4
    }

    fn width() -> (r: usize) {
        4
    }

    open spec fn spec_from_be(b: Seq<u8>) -> i32 {
        twos(be_nat4(b), 0x1_0000_0000) as i32
    }

    fn read_self(data: &[u8], pos: usize) -> (r: Option<i32>) {
        if pos < data.len() && data.len() - pos >= 4 {
            let u = data[pos] as i64 * 0x1000000 + data[pos + 1] as i64 * 0x10000
                + data[pos + 2] as i64 * 0x100 + data[pos + 3] as i64;
            if u >= 0x8000_0000 {
                Some((u - 0x1_0000_0000) as i32)
            } else {
                Some(u as i32)
            }
        } else {
            None
        }
    }
}

impl BEReadable for u32 {
    open spec fn spec_width() -> nat {
        4
    }

    fn width() -> (r: usize) {
        4
    }

    open spec fn spec_from_be(b: Seq<u8>) -> u32 {
        be_nat4(b) as u32
    }

    fn read_self(data: &[u8], pos: usize) -> (r: Option<u32>) {
        if pos < data.len() && data.len() - pos >= 4 {
            Some(
                data[pos] as u32 * 0x1000000 + data[pos + 1] as u32 * 0x10000 + data[pos + 2] as u32
                    * 0x100 + data[pos + 3] as u32,
            )
        } else {
            None
        }
    }
}

impl BEReadable for u64 {
    open spec fn spec_width() -> nat {
        8
    }

    fn width() -> (r: usize) {
        8
    }

    open spec fn spec_from_be(b: Seq<u8>) -> u64 {
        be_nat8(b) as u64
    }

    fn read_self(data: &[u8], pos: usize) -> (r: Option<u64>) {
        if pos < data.len() && data.len() - pos >= 8 {
            let hi = data[pos] as u64 * 0x1000000 + data[pos + 1] as u64 * 0x10000 + data[pos
                + 2] as u64 * 0x100 + data[pos + 3] as u64;
            let lo = data[pos + 4] as u64 * 0x1000000 + data[pos + 5] as u64 * 0x10000 + data[pos
                + 6] as u64 * 0x100 + data[pos + 7] as u64;
            Some(hi * 0x1_0000_0000 + lo)
        } else {
            None
        }
    }
}

/// Unsigned 8-bit integers, tag 0x08.
pub struct U8;

/// Signed 8-bit integers, tag 0x09.
pub struct I8;

/// Signed 16-bit integers, tag 0x0B.
pub struct I16;

/// Signed 32-bit integers, tag 0x0C.
pub struct I32;

/// 32-bit IEEE-754 floats, tag 0x0D; an element is produced as its bit
/// pattern.
pub struct F32;

/// 64-bit IEEE-754 floats, tag 0x0E; an element is produced as its bit
/// pattern.
pub struct F64;

impl Sealed for U8 {}

impl Sealed for I8 {}

impl Sealed for I16 {}

impl Sealed for I32 {}

impl Sealed for F32 {}

impl Sealed for F64 {}

impl Type for U8 {
    type TypeValue = u8;

    open spec fn spec_value() -> u8 {
        0x08
    }

    fn value() -> (r: u8) {
        0x08
    }
}

impl Type for I8 {
    type TypeValue = i8;

    open spec fn spec_value() -> u8 {
        0x09
    }

    fn value() -> (r: u8) {
        0x09
    }
}

impl Type for I16 {
    type TypeValue = i16;

    open spec fn spec_value() -> u8 {
        0x0b
    }

    fn value() -> (r: u8) {
        0x0b
    }
}

impl Type for I32 {
    type TypeValue = i32;

    open spec fn spec_value() -> u8 {
        0x0c
    }

    fn value() -> (r: u8) {
        0x0c
    }
}

impl Type for F32 {
    type TypeValue = u32;

    open spec fn spec_value() -> u8 {
        0x0d
    }

    fn value() -> (r: u8) {
        0x0d
    }
}

impl Type for F64 {
    type TypeValue = u64;

    open spec fn spec_value() -> u8 {
        0x0e
    }

    fn value() -> (r: u8) {
        0x0e
    }
}

} // verus!
