//! Byte order of RTPS data and the integer codecs that depend on it.
use vstd::prelude::*;
use speedy::Writable;

verus! {

/// The byte order in which multi-byte integers of a message are laid out.
#[derive(Clone, Copy, Debug, PartialEq, Eq, Structural)]
pub enum Endianness {
    LittleEndian,
    BigEndian,
}

/// The value that two bytes denote as a `u16` in the given byte order.
pub open spec fn spec_u16(endianness: Endianness, b0: u8, b1: u8) -> int {
    match endianness {
        Endianness::LittleEndian => b0 + 256 * b1,
        Endianness::BigEndian => 256 * b0 + b1,
    }
}

/// The value that four bytes denote as a `u32` in the given byte order.
pub open spec fn spec_u32(endianness: Endianness, b: Seq<u8>) -> int {
    match endianness {
        Endianness::LittleEndian => b[0] + 256 * b[1] + 65536 * b[2] + 16777216 * b[3],
        Endianness::BigEndian => 16777216 * b[0] + 65536 * b[1] + 256 * b[2] + b[3],
    }
}

/// The value that four bytes denote as an `i32` (two's complement) in the given byte order.
pub open spec fn spec_i32(endianness: Endianness, b: Seq<u8>) -> int {
    let u = spec_u32(endianness, b);
    if u < 0x8000_0000 { u } else { u - 0x1_0000_0000 }
}

/// The two bytes that encode `v` in the given byte order.
pub open spec fn spec_u16_bytes(endianness: Endianness, v: u16) -> Seq<u8> {
    match endianness {
        Endianness::LittleEndian => seq![(v % 256) as u8, (v / 256) as u8],
        Endianness::BigEndian => seq![(v / 256) as u8, (v % 256) as u8],
    }
}

/// Encoding a `u16` and decoding the two bytes gives the value back.
pub proof fn lemma_u16_encode_decode(endianness: Endianness, v: u16)
    ensures
        spec_u16_bytes(endianness, v).len() == 2,
        spec_u16(endianness, spec_u16_bytes(endianness, v)[0], spec_u16_bytes(endianness, v)[1]) == v,
{
}

/// Decoding two bytes as a `u16` and encoding the value gives the bytes back.
pub proof fn lemma_u16_decode_encode(endianness: Endianness, b0: u8, b1: u8)
    ensures
        0 <= spec_u16(endianness, b0, b1) < 0x10000,
        spec_u16_bytes(endianness, spec_u16(endianness, b0, b1) as u16) == seq![b0, b1],
{
    let v = spec_u16(endianness, b0, b1);
    match endianness {
        Endianness::LittleEndian => {
            assert(v % 256 == b0 && v / 256 == b1) by (nonlinear_arith)
                requires v == b0 + 256 * b1, 0 <= b0 < 256, 0 <= b1 < 256;
        },
        Endianness::BigEndian => {
            assert(v % 256 == b1 && v / 256 == b0) by (nonlinear_arith)
                requires v == 256 * b0 + b1, 0 <= b0 < 256, 0 <= b1 < 256;
        },
    }
    assert(spec_u16_bytes(endianness, v as u16) =~= seq![b0, b1]);
}

/// Reads a `u16` from two bytes with speedy's `Endianness::read_u16`, which
/// copies the bytes in native order and swaps them unless the order matches
/// the machine's; the result is the value the bytes denote in `endianness`.
#[verifier::external_body]
pub(crate) fn read_u16(endianness: Endianness, bytes: [u8; 2]) -> (r: u16)
    ensures
        r == spec_u16(endianness, bytes@[0], bytes@[1]),
{
    let order = match endianness {
        Endianness::LittleEndian => speedy::Endianness::LittleEndian,
        Endianness::BigEndian => speedy::Endianness::BigEndian,
    };
    order.read_u16(&bytes)
}

/// Reads a `u32` from four bytes with speedy's `Endianness::read_u32`; the
/// result is the value the bytes denote in `endianness`.
#[verifier::external_body]
pub(crate) fn read_u32(endianness: Endianness, bytes: [u8; 4]) -> (r: u32)
    ensures
        r == spec_u32(endianness, bytes@),
{
    let order = match endianness {
        Endianness::LittleEndian => speedy::Endianness::LittleEndian,
        Endianness::BigEndian => speedy::Endianness::BigEndian,
    };
    order.read_u32(&bytes)
}

/// Reads an `i32` from four bytes with speedy's `Endianness::read_i32`; the
/// result is the two's complement value the bytes denote in `endianness`.
#[verifier::external_body]
pub(crate) fn read_i32(endianness: Endianness, bytes: [u8; 4]) -> (r: i32)
    ensures
        r == spec_i32(endianness, bytes@),
{
    let order = match endianness {
        Endianness::LittleEndian => speedy::Endianness::LittleEndian,
        Endianness::BigEndian => speedy::Endianness::BigEndian,
    };
    order.read_i32(&bytes)
}

#[verifier::external_type_specification]
#[verifier::external_body]
pub struct ExSpeedyError(speedy::Error);

/// Writes a `u16` with speedy's `Writable::write_to_vec_with_ctx`. For a
/// `u16` speedy sizes the buffer to two bytes and writes them in the order of
/// `endianness`, which cannot fail; the result is those two bytes.
#[verifier::external_body]
pub(crate) fn write_u16(endianness: Endianness, value: u16) -> (r: Result<Vec<u8>, speedy::Error>)
    ensures
        r.is_ok(),
        r.unwrap()@ == spec_u16_bytes(endianness, value),
{
    let order = match endianness {
        Endianness::LittleEndian => speedy::Endianness::LittleEndian,
        Endianness::BigEndian => speedy::Endianness::BigEndian,
    };
    value.write_to_vec_with_ctx(order)
}

} // verus!
