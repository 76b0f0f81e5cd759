//! The numbers of binary NBT data: single bytes, fixed-width integers in the byte order of the
//! endianness, and, for network little-endian data, `i32` and `i64` values as zigzag varints;
//! arrays of `i32` and `i64` values; and the casts between unsigned and signed bytes.
//!
//! Values are read from a `ByteReader` and written to the end of a byte vector.

use vstd::prelude::*;

use varint_rs::{VarintReader, VarintWriter};

use crate::bytes::{
    extend_i32_le, extend_u16_le, extend_u64_le, i32_at, spec_i32_at, spec_i32_le_bytes,
    spec_u16_from_le, spec_u16_le_bytes, spec_u64_at, spec_u64_le_bytes, u16_from_le, u64_at,
    ByteReader,
};
use crate::nbt::settings::{Endianness, IoOptions};

verus! {

// ================================
//  Byte order and varints
// ================================

/// Bytes in the order that `endianness` stores fixed-width numbers, from their little-endian
/// order: reversed for big-endian, unchanged otherwise.
pub open spec fn spec_ordered(le: Seq<u8>, endianness: Endianness) -> Seq<u8> {
    match endianness {
        Endianness::BigEndian => le.reverse(),
        _ => le,
    }
}

/// The bytes of the varint of `x`: seven bits per byte, the least significant first, and the
/// high bit set on every byte but the last.
pub open spec fn spec_varint_bytes(x: nat) -> Seq<u8>
    decreases x,
{
    if x < 128 {
        seq![x as u8]
    } else {
        seq![(x % 128 + 128) as u8] + spec_varint_bytes(x / 128)
    }
}

/// The number that the varint at the start of `bytes` stands for, and the number of its bytes;
/// `None` if the bytes end before a byte without the high bit.
pub open spec fn spec_varint_decode(bytes: Seq<u8>) -> Option<(nat, nat)>
    decreases bytes.len(),
{
    if bytes.len() == 0 {
        None
    } else if bytes[0] < 128 {
        Some((bytes[0] as nat, 1))
    } else {
        match spec_varint_decode(bytes.drop_first()) {
            None => None,
            Some((v, n)) => Some((((bytes[0] - 128) + 128 * v) as nat, n + 1)),
        }
    }
}

/// Whether a varint at the start of `bytes` ends within its first `max` bytes, or the bytes
/// end before more than `max` of them could be read.
pub open spec fn spec_varint_fits(bytes: Seq<u8>, max: nat) -> bool {
    bytes.len() <= max || exists|k: int| 0 <= k < max && #[trigger] bytes[k] < 128
}

/// The zigzag encoding of `v`: `2v` for nonnegative `v`, and `-2v - 1` otherwise.
pub open spec fn spec_zigzag(v: int) -> nat {
    if v >= 0 {
        (2 * v) as nat
    } else {
        (-2 * v - 1) as nat
    }
}

/// The number whose zigzag encoding is `x`.
pub open spec fn spec_unzigzag(x: nat) -> int {
    if x % 2 == 0 {
        (x / 2) as int
    } else {
        -((x + 1) / 2)
    }
}

/// A varint is read from at least one and at most all of the bytes.
proof fn lemma_varint_decode_len(bytes: Seq<u8>)
    ensures
        spec_varint_decode(bytes) matches Some((v, n)) ==> 1 <= n <= bytes.len(),
    decreases bytes.len(),
{
    if bytes.len() > 0 && bytes[0] >= 128 {
        lemma_varint_decode_len(bytes.drop_first());
    }
}

// ================================
//  Trusted calls
// ================================

/// A `std::io::Error` of kind `UnexpectedEof`, made by `std::io::Error::from`.
#[verifier::external_body]
pub(crate) fn unexpected_eof() -> std::io::Error {
    std::io::Error::from(std::io::ErrorKind::UnexpectedEof)
}

/// `VarintReader::read_i32_varint` of varint-rs on the bytes of a slice: it reads bytes until
/// one without the high bit, ORs their low seven bits together, the first lowest, into a `u32`,
/// and undoes the zigzag encoding; it returns the `i32` and the bytes after the varint, or the
/// error of running out of bytes. On a sixth byte its shift overflows, which `requires` rules
/// out.
#[verifier::external_body]
fn read_i32_varint(bytes: &[u8]) -> (res: Result<(i32, &[u8]), std::io::Error>)
    requires
        spec_varint_fits(bytes@, 5),
    ensures
        match spec_varint_decode(bytes@) {
            None => res is Err,
            Some((v, n)) => res matches Ok((x, rest)) && x == spec_unzigzag(
                v % 0x1_0000_0000,
            ) && rest@ == bytes@.subrange(n as int, bytes@.len() as int),
        },
{
    let mut rest = bytes;
    match rest.read_i32_varint() {
        Ok(value) => Ok((value, rest)),
        Err(error) => Err(error),
    }
}

/// `VarintReader::read_i64_varint` of varint-rs on the bytes of a slice, as
/// `read_i32_varint` but into a `u64`; its shift overflows on an eleventh byte.
#[verifier::external_body]
fn read_i64_varint(bytes: &[u8]) -> (res: Result<(i64, &[u8]), std::io::Error>)
    requires
        spec_varint_fits(bytes@, 10),
    ensures
        match spec_varint_decode(bytes@) {
            None => res is Err,
            Some((v, n)) => res matches Ok((x, rest)) && x == spec_unzigzag(
                v % 0x1_0000_0000_0000_0000,
            ) && rest@ == bytes@.subrange(n as int, bytes@.len() as int),
        },
{
    let mut rest = bytes;
    match rest.read_i64_varint() {
        Ok(value) => Ok((value, rest)),
        Err(error) => Err(error),
    }
}

/// `VarintWriter::write_i32_varint` of varint-rs on a byte vector: it appends the varint of the
/// zigzag encoding of `value`. Writing to a vector does not fail.
#[verifier::external_body]
fn write_i32_varint(bytes: &mut Vec<u8>, value: i32)
    ensures
        final(bytes)@ == old(bytes)@ + spec_varint_bytes(spec_zigzag(value as int)),
{
    let _ = bytes.write_i32_varint(value);
}

/// `VarintWriter::write_i64_varint` of varint-rs on a byte vector: it appends the varint of the
/// zigzag encoding of `value`. Writing to a vector does not fail.
#[verifier::external_body]
fn write_i64_varint(bytes: &mut Vec<u8>, value: i64)
    ensures
        final(bytes)@ == old(bytes)@ + spec_varint_bytes(spec_zigzag(value as int)),
{
    let _ = bytes.write_i64_varint(value);
}

// ================================
//  What the bytes stand for
// ================================

/// The `u16` at the start of `bytes` in the byte order of `endianness`.
pub open spec fn spec_read_u16(bytes: Seq<u8>, endianness: Endianness) -> u16 {
    let le = spec_ordered(bytes.subrange(0, 2), endianness);
    spec_u16_from_le(le[0], le[1])
}

/// The `i32` at the start of `bytes` in the byte order of `endianness`, and the number of its
/// bytes; `None` if the bytes end too early.
pub open spec fn spec_read_i32(bytes: Seq<u8>, endianness: Endianness) -> Option<(i32, nat)> {
    match endianness {
        Endianness::NetworkLittleEndian => match spec_varint_decode(bytes) {
            None => None,
            Some((v, n)) => Some((spec_unzigzag(v % 0x1_0000_0000) as i32, n)),
        },
        _ => if bytes.len() < 4 {
            None
        } else {
            Some((spec_i32_at(spec_ordered(bytes.subrange(0, 4), endianness), 0), 4))
        },
    }
}

/// The `i64` at the start of `bytes` in the byte order of `endianness`, and the number of its
/// bytes; `None` if the bytes end too early.
pub open spec fn spec_read_i64(bytes: Seq<u8>, endianness: Endianness) -> Option<(i64, nat)> {
    match endianness {
        Endianness::NetworkLittleEndian => match spec_varint_decode(bytes) {
            None => None,
            Some((v, n)) => Some((spec_unzigzag(v % 0x1_0000_0000_0000_0000) as i64, n)),
        },
        _ => if bytes.len() < 8 {
            None
        } else {
            Some((spec_u64_at(spec_ordered(bytes.subrange(0, 8), endianness), 0) as i64, 8))
        },
    }
}

/// The bytes of a `u16` in the byte order of `endianness`.
pub open spec fn spec_u16_bytes(value: u16, endianness: Endianness) -> Seq<u8> {
    spec_ordered(spec_u16_le_bytes(value), endianness)
}

/// The bytes of an `i32`: four in the byte order of `endianness`, or its zigzag varint for
/// network little-endian data.
pub open spec fn spec_i32_bytes(value: i32, endianness: Endianness) -> Seq<u8> {
    match endianness {
        Endianness::NetworkLittleEndian => spec_varint_bytes(spec_zigzag(value as int)),
        _ => spec_ordered(spec_i32_le_bytes(value), endianness),
    }
}

/// The bytes of an `i64`: eight in the byte order of `endianness`, or its zigzag varint for
/// network little-endian data.
pub open spec fn spec_i64_bytes(value: i64, endianness: Endianness) -> Seq<u8> {
    match endianness {
        Endianness::NetworkLittleEndian => spec_varint_bytes(spec_zigzag(value as int)),
        _ => spec_ordered(spec_u64_le_bytes(value as u64), endianness),
    }
}

// ================================
//  Reading
// ================================

/// Read `n` bytes, or fail without moving if fewer remain.
fn read_bytes(reader: &mut ByteReader, n: usize) -> (res: Result<Vec<u8>, std::io::Error>)
    requires
        old(reader).wf(),
    ensures
        final(reader).wf(),
        final(reader)@.0 == old(reader)@.0,
        old(reader)@.1 + n <= old(reader)@.0.len() ==> {
            &&& res matches Ok(read)
            &&& read@ == old(reader).remaining().subrange(0, n as int)
            &&& final(reader)@.1 == old(reader)@.1 + n
        },
        old(reader)@.1 + n > old(reader)@.0.len() ==> res is Err && final(reader)@ == old(reader)@,
{
    match reader.read_exact(n) {
        Some(read) => {
            assert(read@ =~= old(reader).remaining().subrange(0, n as int));
            Ok(read)
        },
        None => Err(unexpected_eof()),
    }
}

/// Read one byte.
pub fn read_u8(reader: &mut ByteReader, opts: IoOptions) -> (res: Result<u8, std::io::Error>)
    requires
        old(reader).wf(),
    ensures
        final(reader).wf(),
        final(reader)@.0 == old(reader)@.0,
        old(reader).remaining().len() >= 1 ==> res == Ok::<u8, std::io::Error>(
            old(reader).remaining()[0],
        ) && final(reader)@.1 == old(reader)@.1 + 1,
        old(reader).remaining().len() < 1 ==> res is Err && final(reader)@ == old(reader)@,
{
    match read_bytes(reader, 1) {
        Ok(read) => Ok(read[0]),
        Err(error) => Err(error),
    }
}

/// Read one byte as a `bool`: whether it is nonzero.
pub fn read_bool(reader: &mut ByteReader, opts: IoOptions) -> (res: Result<bool, std::io::Error>)
    requires
        old(reader).wf(),
    ensures
        final(reader).wf(),
        final(reader)@.0 == old(reader)@.0,
        old(reader).remaining().len() >= 1 ==> res == Ok::<bool, std::io::Error>(
            old(reader).remaining()[0] != 0,
        ) && final(reader)@.1 == old(reader)@.1 + 1,
        old(reader).remaining().len() < 1 ==> res is Err && final(reader)@ == old(reader)@,
{
    match read_u8(reader, opts) {
        Ok(byte) => Ok(byte != 0),
        Err(error) => Err(error),
    }
}

/// Read one byte as an `i8`.
pub fn read_i8(reader: &mut ByteReader, opts: IoOptions) -> (res: Result<i8, std::io::Error>)
    requires
        old(reader).wf(),
    ensures
        final(reader).wf(),
        final(reader)@.0 == old(reader)@.0,
        old(reader).remaining().len() >= 1 ==> res == Ok::<i8, std::io::Error>(
            old(reader).remaining()[0] as i8,
        ) && final(reader)@.1 == old(reader)@.1 + 1,
        old(reader).remaining().len() < 1 ==> res is Err && final(reader)@ == old(reader)@,
{
    match read_u8(reader, opts) {
        Ok(byte) => Ok(byte as i8),
        Err(error) => Err(error),
    }
}

/// Read a `u16` in the byte order of the endianness.
pub fn read_u16(reader: &mut ByteReader, opts: IoOptions) -> (res: Result<u16, std::io::Error>)
    requires
        old(reader).wf(),
    ensures
        final(reader).wf(),
        final(reader)@.0 == old(reader)@.0,
        old(reader).remaining().len() >= 2 ==> res == Ok::<u16, std::io::Error>(
            spec_read_u16(old(reader).remaining(), opts.endianness),
        ) && final(reader)@.1 == old(reader)@.1 + 2,
        old(reader).remaining().len() < 2 ==> res is Err && final(reader)@ == old(reader)@,
{
    let read = match read_bytes(reader, 2) {
        Ok(read) => read,
        Err(error) => {
            return Err(error);
        },
    };
    match opts.endianness {
        Endianness::BigEndian => {
            assert(spec_ordered(read@, opts.endianness) =~= seq![read@[1], read@[0]]);
            Ok(u16_from_le(read[1], read[0]))
        },
        _ => Ok(u16_from_le(read[0], read[1])),
    }
}

/// Read an `i16` in the byte order of the endianness.
pub fn read_i16(reader: &mut ByteReader, opts: IoOptions) -> (res: Result<i16, std::io::Error>)
    requires
        old(reader).wf(),
    ensures
        final(reader).wf(),
        final(reader)@.0 == old(reader)@.0,
        old(reader).remaining().len() >= 2 ==> res == Ok::<i16, std::io::Error>(
            spec_read_u16(old(reader).remaining(), opts.endianness) as i16,
        ) && final(reader)@.1 == old(reader)@.1 + 2,
        old(reader).remaining().len() < 2 ==> res is Err && final(reader)@ == old(reader)@,
{
    match read_u16(reader, opts) {
        Ok(value) => Ok(value as i16),
        Err(error) => Err(error),
    }
}

/// Read an `i32`: four bytes in the byte order of the endianness, or a zigzag varint for
/// network little-endian data.
pub fn read_i32(reader: &mut ByteReader, opts: IoOptions) -> (res: Result<i32, std::io::Error>)
    requires
        old(reader).wf(),
        opts.endianness is NetworkLittleEndian ==> spec_varint_fits(old(reader).remaining(), 5),
    ensures
        final(reader).wf(),
        final(reader)@.0 == old(reader)@.0,
        match spec_read_i32(old(reader).remaining(), opts.endianness) {
            None => res is Err && final(reader)@ == old(reader)@,
            Some((value, n)) => res == Ok::<i32, std::io::Error>(value) && final(reader)@.1
                == old(reader)@.1 + n,
        },
{
    match opts.endianness {
        Endianness::NetworkLittleEndian => {
            let bytes = reader.remaining_bytes();
            let total = bytes.len();
            proof {
                lemma_varint_decode_len(bytes@);
            }
            let (value, rest) = match read_i32_varint(bytes) {
                Ok(read) => read,
                Err(error) => {
                    return Err(error);
                },
            };
            let used = total - rest.len();
            reader.skip(used);
            Ok(value)
        },
        Endianness::BigEndian => {
            let read = match read_bytes(reader, 4) {
                Ok(read) => read,
                Err(error) => {
                    return Err(error);
                },
            };
            let le = [read[3], read[2], read[1], read[0]];
            assert(le@ =~= spec_ordered(read@, opts.endianness));
            Ok(i32_at(&le, 0))
        },
        Endianness::LittleEndian => {
            let read = match read_bytes(reader, 4) {
                Ok(read) => read,
                Err(error) => {
                    return Err(error);
                },
            };
            Ok(i32_at(read.as_slice(), 0))
        },
    }
}

/// Read an `i64`: eight bytes in the byte order of the endianness, or a zigzag varint for
/// network little-endian data.
pub fn read_i64(reader: &mut ByteReader, opts: IoOptions) -> (res: Result<i64, std::io::Error>)
    requires
        old(reader).wf(),
        opts.endianness is NetworkLittleEndian ==> spec_varint_fits(old(reader).remaining(), 10),
    ensures
        final(reader).wf(),
        final(reader)@.0 == old(reader)@.0,
        match spec_read_i64(old(reader).remaining(), opts.endianness) {
            None => res is Err && final(reader)@ == old(reader)@,
            Some((value, n)) => res == Ok::<i64, std::io::Error>(value) && final(reader)@.1
                == old(reader)@.1 + n,
        },
{
    match opts.endianness {
        Endianness::NetworkLittleEndian => {
            let bytes = reader.remaining_bytes();
            let total = bytes.len();
            proof {
                lemma_varint_decode_len(bytes@);
            }
            let (value, rest) = match read_i64_varint(bytes) {
                Ok(read) => read,
                Err(error) => {
                    return Err(error);
                },
            };
            let used = total - rest.len();
            reader.skip(used);
            Ok(value)
        },
        Endianness::BigEndian => {
            let read = match read_bytes(reader, 8) {
                Ok(read) => read,
                Err(error) => {
                    return Err(error);
                },
            };
            let le = [read[7], read[6], read[5], read[4], read[3], read[2], read[1], read[0]];
            assert(le@ =~= spec_ordered(read@, opts.endianness));
            Ok(u64_at(&le, 0) as i64)
        },
        Endianness::LittleEndian => {
            let read = match read_bytes(reader, 8) {
                Ok(read) => read,
                Err(error) => {
                    return Err(error);
                },
            };
            Ok(u64_at(read.as_slice(), 0) as i64)
        },
    }
}

// ================================
//  Arrays
// ================================

/// The `len` `i32`s at the start of `bytes`, one after another, and the number of their bytes;
/// `None` if the bytes end too early.
pub open spec fn spec_read_i32s(bytes: Seq<u8>, endianness: Endianness, len: nat) -> Option<
    (Seq<i32>, nat),
>
    decreases len,
{
    if len == 0 {
        Some((Seq::empty(), 0))
    } else {
        match spec_read_i32(bytes, endianness) {
            None => None,
            Some((value, n)) => match spec_read_i32s(bytes.skip(n as int), endianness, (len - 1) as nat) {
                None => None,
                Some((rest, m)) => Some((seq![value] + rest, n + m)),
            },
        }
    }
}

/// The `len` `i64`s at the start of `bytes`, one after another, and the number of their bytes;
/// `None` if the bytes end too early.
pub open spec fn spec_read_i64s(bytes: Seq<u8>, endianness: Endianness, len: nat) -> Option<
    (Seq<i64>, nat),
>
    decreases len,
{
    if len == 0 {
        Some((Seq::empty(), 0))
    } else {
        match spec_read_i64(bytes, endianness) {
            None => None,
            Some((value, n)) => match spec_read_i64s(bytes.skip(n as int), endianness, (len - 1) as nat) {
                None => None,
                Some((rest, m)) => Some((seq![value] + rest, n + m)),
            },
        }
    }
}

/// Whether each of the varints met while reading `len` `i32`s from `bytes` ends within five
/// bytes (always so for a fixed byte order).
pub open spec fn spec_i32s_fit(bytes: Seq<u8>, endianness: Endianness, len: nat) -> bool
    decreases len,
{
    len == 0 || {
        &&& endianness is NetworkLittleEndian ==> spec_varint_fits(bytes, 5)
        &&& match spec_read_i32(bytes, endianness) {
            None => true,
            Some((_, n)) => spec_i32s_fit(bytes.skip(n as int), endianness, (len - 1) as nat),
        }
    }
}

/// Whether each of the varints met while reading `len` `i64`s from `bytes` ends within ten
/// bytes (always so for a fixed byte order).
pub open spec fn spec_i64s_fit(bytes: Seq<u8>, endianness: Endianness, len: nat) -> bool
    decreases len,
{
    len == 0 || {
        &&& endianness is NetworkLittleEndian ==> spec_varint_fits(bytes, 10)
        &&& match spec_read_i64(bytes, endianness) {
            None => true,
            Some((_, n)) => spec_i64s_fit(bytes.skip(n as int), endianness, (len - 1) as nat),
        }
    }
}

/// What remains after moving `n` more bytes through `data` from `pos` is what remained at
/// `pos`, without its first `n` bytes.
proof fn lemma_remaining_skip(data: Seq<u8>, pos: int, n: int)
    requires
        0 <= pos,
        0 <= n,
        pos + n <= data.len(),
    ensures
        data.subrange(pos + n, data.len() as int) == data.subrange(pos, data.len() as int).skip(n),
{
    assert(data.subrange(pos + n, data.len() as int) =~= data.subrange(pos, data.len() as int).skip(n));
}

/// Read `len` `i32`s, one after another.
pub fn read_i32_array(reader: &mut ByteReader, opts: IoOptions, len: usize) -> (res: Result<
    Vec<i32>,
    std::io::Error,
>)
    requires
        old(reader).wf(),
        spec_i32s_fit(old(reader).remaining(), opts.endianness, len as nat),
    ensures
        final(reader).wf(),
        final(reader)@.0 == old(reader)@.0,
        match spec_read_i32s(old(reader).remaining(), opts.endianness, len as nat) {
            None => res is Err,
            Some((values, n)) => res matches Ok(data) && data@ == values && final(reader)@.1
                == old(reader)@.1 + n,
        },
{
    let ghost start = reader@.1;
    let mut data: Vec<i32> = Vec::new();
    let mut i: usize = 0;
    while i < len
        invariant
            reader.wf(),
            reader@.0 == old(reader)@.0,
            start == old(reader)@.1,
            start <= reader@.1,
            i <= len,
            spec_i32s_fit(reader.remaining(), opts.endianness, (len - i) as nat),
            spec_read_i32s(old(reader).remaining(), opts.endianness, len as nat) == match spec_read_i32s(
                reader.remaining(),
                opts.endianness,
                (len - i) as nat,
            ) {
                None => None,
                Some((rest, m)) => Some((data@ + rest, (reader@.1 - start + m) as nat)),
            },
        decreases len - i,
    {
        let ghost before = reader@.1;
        let ghost remaining = reader.remaining();
        let value = match read_i32(reader, opts) {
            Ok(value) => value,
            Err(error) => {
                return Err(error);
            },
        };
        proof {
            let n = (reader@.1 - before) as nat;
            lemma_remaining_skip(reader@.0, before as int, n as int);
            assert(spec_read_i32(remaining, opts.endianness) == Some((value, n)));
            if let Some((rest, m)) = spec_read_i32s(reader.remaining(), opts.endianness, (len - i - 1) as nat) {
                assert(data@ + (seq![value] + rest) =~= data@.push(value) + rest);
            }
        }
        data.push(value);
        i += 1;
    }
    assert(data@ + Seq::<i32>::empty() =~= data@);
    Ok(data)
}

/// Read `len` `i64`s, one after another.
pub fn read_i64_array(reader: &mut ByteReader, opts: IoOptions, len: usize) -> (res: Result<
    Vec<i64>,
    std::io::Error,
>)
    requires
        old(reader).wf(),
        spec_i64s_fit(old(reader).remaining(), opts.endianness, len as nat),
    ensures
        final(reader).wf(),
        final(reader)@.0 == old(reader)@.0,
        match spec_read_i64s(old(reader).remaining(), opts.endianness, len as nat) {
            None => res is Err,
            Some((values, n)) => res matches Ok(data) && data@ == values && final(reader)@.1
                == old(reader)@.1 + n,
        },
{
    let ghost start = reader@.1;
    let mut data: Vec<i64> = Vec::new();
    let mut i: usize = 0;
    while i < len
        invariant
            reader.wf(),
            reader@.0 == old(reader)@.0,
            start == old(reader)@.1,
            start <= reader@.1,
            i <= len,
            spec_i64s_fit(reader.remaining(), opts.endianness, (len - i) as nat),
            spec_read_i64s(old(reader).remaining(), opts.endianness, len as nat) == match spec_read_i64s(
                reader.remaining(),
                opts.endianness,
                (len - i) as nat,
            ) {
                None => None,
                Some((rest, m)) => Some((data@ + rest, (reader@.1 - start + m) as nat)),
            },
        decreases len - i,
    {
        let ghost before = reader@.1;
        let ghost remaining = reader.remaining();
        let value = match read_i64(reader, opts) {
            Ok(value) => value,
            Err(error) => {
                return Err(error);
            },
        };
        proof {
            let n = (reader@.1 - before) as nat;
            lemma_remaining_skip(reader@.0, before as int, n as int);
            assert(spec_read_i64(remaining, opts.endianness) == Some((value, n)));
            if let Some((rest, m)) = spec_read_i64s(reader.remaining(), opts.endianness, (len - i - 1) as nat) {
                assert(data@ + (seq![value] + rest) =~= data@.push(value) + rest);
            }
        }
        data.push(value);
        i += 1;
    }
    assert(data@ + Seq::<i64>::empty() =~= data@);
    Ok(data)
}

// ================================
//  Signed and unsigned bytes
// ================================

/// The bytes of `buf`, each read as a signed byte, in the same order.
pub fn cast_byte_buf_to_signed(buf: Vec<u8>) -> (res: Vec<i8>)
    ensures
        res@ == buf@.map_values(|b: u8| b as i8),
{
    cast_bytes_to_signed(buf.as_slice())
}

/// The signed bytes of `buf`, each read as an unsigned byte, in the same order.
pub fn cast_byte_buf_to_unsigned(buf: Vec<i8>) -> (res: Vec<u8>)
    ensures
        res@ == buf@.map_values(|b: i8| b as u8),
{
    cast_bytes_to_unsigned(buf.as_slice())
}

/// The bytes of `bytes`, each read as a signed byte, in the same order.
pub fn cast_bytes_to_signed(bytes: &[u8]) -> (res: Vec<i8>)
    ensures
        res@ == bytes@.map_values(|b: u8| b as i8),
{
    let mut res: Vec<i8> = Vec::with_capacity(bytes.len());
    let mut i: usize = 0;
    while i < bytes.len()
        invariant
            i <= bytes@.len(),
            res@ == bytes@.subrange(0, i as int).map_values(|b: u8| b as i8),
        decreases bytes@.len() - i,
    {
        res.push(bytes[i] as i8);
        i += 1;
        assert(res@ =~= bytes@.subrange(0, i as int).map_values(|b: u8| b as i8));
    }
    assert(bytes@.subrange(0, i as int) =~= bytes@);
    res
}

/// The signed bytes of `bytes`, each read as an unsigned byte, in the same order.
pub fn cast_bytes_to_unsigned(bytes: &[i8]) -> (res: Vec<u8>)
    ensures
        res@ == bytes@.map_values(|b: i8| b as u8),
{
    let mut res: Vec<u8> = Vec::with_capacity(bytes.len());
    let mut i: usize = 0;
    while i < bytes.len()
        invariant
            i <= bytes@.len(),
            res@ == bytes@.subrange(0, i as int).map_values(|b: i8| b as u8),
        decreases bytes@.len() - i,
    {
        res.push(bytes[i] as u8);
        i += 1;
        assert(res@ =~= bytes@.subrange(0, i as int).map_values(|b: i8| b as u8));
    }
    assert(bytes@.subrange(0, i as int) =~= bytes@);
    res
}

/// Reading signed bytes as unsigned ones undoes reading them as signed ones.
pub proof fn lemma_byte_casts_roundtrip(bytes: Seq<u8>)
    ensures
        bytes.map_values(|b: u8| b as i8).map_values(|b: i8| b as u8) == bytes,
{
    assert forall|k: int| 0 <= k < bytes.len() implies #[trigger] ((bytes[k] as i8) as u8) == bytes[k] by {
        let b = bytes[k];
        assert(((b as i8) as u8) == b) by (bit_vector);
    }
    assert(bytes.map_values(|b: u8| b as i8).map_values(|b: i8| b as u8) =~= bytes);
}

// ================================
//  Writing
// ================================

/// Append one byte.
pub fn write_u8(bytes: &mut Vec<u8>, opts: IoOptions, value: u8) -> (res: Result<(), std::io::Error>)
    ensures
        final(bytes)@ == old(bytes)@.push(value),
        res is Ok,
{
    bytes.push(value);
    Ok(())
}

/// Append a `bool` as one byte: 1 for `true`, 0 for `false`.
pub fn write_bool(bytes: &mut Vec<u8>, opts: IoOptions, value: bool) -> (res: Result<(), std::io::Error>)
    ensures
        final(bytes)@ == old(bytes)@.push(if value { 1u8 } else { 0u8 }),
        res is Ok,
{
    write_u8(bytes, opts, if value { 1 } else { 0 })
}

/// Append an `i8` as one byte.
pub fn write_i8(bytes: &mut Vec<u8>, opts: IoOptions, value: i8) -> (res: Result<(), std::io::Error>)
    ensures
        final(bytes)@ == old(bytes)@.push(value as u8),
        res is Ok,
{
    write_u8(bytes, opts, value as u8)
}

/// Append the bytes of `le` in the byte order of `endianness`.
fn extend_ordered(bytes: &mut Vec<u8>, le: &[u8], endianness: Endianness)
    ensures
        final(bytes)@ == old(bytes)@ + spec_ordered(le@, endianness),
{
    match endianness {
        Endianness::BigEndian => {
            let mut i: usize = le.len();
            while i > 0
                invariant
                    i <= le@.len(),
                    bytes@ == old(bytes)@ + le@.subrange(i as int, le@.len() as int).reverse(),
                decreases i,
            {
                i = i - 1;
                bytes.push(le[i]);
                assert(le@.subrange(i as int, le@.len() as int).reverse() =~= le@.subrange(
                    i + 1,
                    le@.len() as int,
                ).reverse().push(le@[i as int]));
            }
            assert(le@.subrange(0, le@.len() as int) =~= le@);
        },
        _ => {
            crate::bytes::extend_bytes(bytes, le);
        },
    }
}

/// Append a `u16` in the byte order of the endianness.
pub fn write_u16(bytes: &mut Vec<u8>, opts: IoOptions, value: u16) -> (res: Result<(), std::io::Error>)
    ensures
        final(bytes)@ == old(bytes)@ + spec_u16_bytes(value, opts.endianness),
        res is Ok,
{
    let mut le: Vec<u8> = Vec::new();
    extend_u16_le(&mut le, value);
    extend_ordered(bytes, le.as_slice(), opts.endianness);
    Ok(())
}

/// Append an `i16` in the byte order of the endianness.
pub fn write_i16(bytes: &mut Vec<u8>, opts: IoOptions, value: i16) -> (res: Result<(), std::io::Error>)
    ensures
        final(bytes)@ == old(bytes)@ + spec_u16_bytes(value as u16, opts.endianness),
        res is Ok,
{
    write_u16(bytes, opts, value as u16)
}

/// Append an `i32`: four bytes in the byte order of the endianness, or a zigzag varint for
/// network little-endian data.
pub fn write_i32(bytes: &mut Vec<u8>, opts: IoOptions, value: i32) -> (res: Result<(), std::io::Error>)
    ensures
        final(bytes)@ == old(bytes)@ + spec_i32_bytes(value, opts.endianness),
        res is Ok,
{
    match opts.endianness {
        Endianness::NetworkLittleEndian => {
            write_i32_varint(bytes, value);
        },
        _ => {
            let mut le: Vec<u8> = Vec::new();
            extend_i32_le(&mut le, value);
            assert(le@ =~= spec_i32_le_bytes(value));
            extend_ordered(bytes, le.as_slice(), opts.endianness);
        },
    }
    Ok(())
}

/// Append an `i64`: eight bytes in the byte order of the endianness, or a zigzag varint for
/// network little-endian data.
pub fn write_i64(bytes: &mut Vec<u8>, opts: IoOptions, value: i64) -> (res: Result<(), std::io::Error>)
    ensures
        final(bytes)@ == old(bytes)@ + spec_i64_bytes(value, opts.endianness),
        res is Ok,
{
    match opts.endianness {
        Endianness::NetworkLittleEndian => {
            write_i64_varint(bytes, value);
        },
        _ => {
            let mut le: Vec<u8> = Vec::new();
            extend_u64_le(&mut le, value as u64);
            assert(le@ =~= spec_u64_le_bytes(value as u64));
            extend_ordered(bytes, le.as_slice(), opts.endianness);
        },
    }
    Ok(())
}


// ================================
//  What a write gives back
// ================================

/// Reversing twice, or putting in the same byte order twice, gives the bytes back.
proof fn lemma_ordered_twice(le: Seq<u8>, endianness: Endianness)
    ensures
        spec_ordered(spec_ordered(le, endianness), endianness) == le,
        spec_ordered(le, endianness).len() == le.len(),
{
    assert(le.reverse().reverse() =~= le);
}

/// The varint of `x`, followed by anything, is read back as `x` from exactly its bytes.
proof fn lemma_varint_roundtrip(x: nat, tail: Seq<u8>)
    ensures
        spec_varint_decode(spec_varint_bytes(x) + tail) == Some((x, spec_varint_bytes(x).len())),
        spec_varint_bytes(x).last() < 128,
    decreases x,
{
    let bytes = spec_varint_bytes(x) + tail;
    if x < 128 {
        assert(bytes[0] == x as u8);
    } else {
        let rest = spec_varint_bytes(x / 128);
        lemma_varint_roundtrip(x / 128, tail);
        assert(bytes.drop_first() =~= rest + tail);
        assert(bytes[0] == (x % 128 + 128) as u8);
    }
}

/// The number of varint bytes needed below each power of 128.
proof fn lemma_varint_len(x: nat, k: nat)
    requires
        k >= 1,
        x < vstd::arithmetic::power::pow(128, k),
    ensures
        spec_varint_bytes(x).len() <= k,
    decreases k,
{
    if x >= 128 {
        if k == 1 {
            vstd::arithmetic::power::lemma_pow1(128);
        } else {
            vstd::arithmetic::power::lemma_pow_adds(128, 1, (k - 1) as nat);
            vstd::arithmetic::power::lemma_pow1(128);
            let p = vstd::arithmetic::power::pow(128, (k - 1) as nat);
            assert(x / 128 < p) by (nonlinear_arith)
                requires
                    x < 128 * p,
            ;
            lemma_varint_len(x / 128, (k - 1) as nat);
        }
    }
}

/// The varint of a number below `128^max`, followed by anything, ends within `max` bytes.
proof fn lemma_varint_fits(x: nat, max: nat, tail: Seq<u8>)
    requires
        max >= 1,
        x < vstd::arithmetic::power::pow(128, max),
    ensures
        spec_varint_fits(spec_varint_bytes(x) + tail, max),
{
    lemma_varint_len(x, max);
    lemma_varint_roundtrip(x, tail);
    let bytes = spec_varint_bytes(x) + tail;
    let last = spec_varint_bytes(x).len() - 1;
    assert(bytes[last] < 128);
}

/// Undoing the zigzag encoding gives the number back.
proof fn lemma_zigzag_roundtrip(v: int)
    ensures
        spec_unzigzag(spec_zigzag(v)) == v,
{
}

/// Reading the bytes written for a `u16` gives it back.
pub proof fn lemma_u16_roundtrip(value: u16, endianness: Endianness, tail: Seq<u8>)
    ensures
        spec_u16_bytes(value, endianness).len() == 2,
        spec_read_u16(spec_u16_bytes(value, endianness) + tail, endianness) == value,
{
    let le = spec_u16_le_bytes(value);
    lemma_ordered_twice(le, endianness);
    let bytes = spec_u16_bytes(value, endianness) + tail;
    assert(bytes.subrange(0, 2) =~= spec_u16_bytes(value, endianness));
    crate::bytes::lemma_u16_le_roundtrip(value);
}

/// Reading the bytes written for an `i32` gives it back, from exactly those bytes; a varint
/// among them ends within the five bytes that a reader allows.
pub proof fn lemma_i32_roundtrip(value: i32, endianness: Endianness, tail: Seq<u8>)
    ensures
        spec_read_i32(spec_i32_bytes(value, endianness) + tail, endianness) == Some(
            (value, spec_i32_bytes(value, endianness).len()),
        ),
        endianness is NetworkLittleEndian ==> spec_varint_fits(
            spec_i32_bytes(value, endianness) + tail,
            5,
        ),
{
    match endianness {
        Endianness::NetworkLittleEndian => {
            let x = spec_zigzag(value as int);
            lemma_varint_roundtrip(x, tail);
            vstd::arithmetic::power::lemma_pow_positive(128, 5);
            assert(vstd::arithmetic::power::pow(128, 5) == 0x8_0000_0000) by {
                vstd::arithmetic::power::lemma_pow_adds(128, 1, 4);
                vstd::arithmetic::power::lemma_pow_adds(128, 1, 3);
                vstd::arithmetic::power::lemma_pow_adds(128, 1, 2);
                vstd::arithmetic::power::lemma_pow_adds(128, 1, 1);
                vstd::arithmetic::power::lemma_pow1(128);
            }
            lemma_varint_fits(x, 5, tail);
            lemma_zigzag_roundtrip(value as int);
            assert(x % 0x1_0000_0000 == x);
        },
        _ => {
            let le = spec_i32_le_bytes(value);
            lemma_ordered_twice(le, endianness);
            let bytes = spec_i32_bytes(value, endianness) + tail;
            assert(bytes.subrange(0, 4) =~= spec_i32_bytes(value, endianness));
            crate::bytes::lemma_i32_le_roundtrip(value);
        },
    }
}

/// Reading the bytes written for an `i64` gives it back, from exactly those bytes; a varint
/// among them ends within the ten bytes that a reader allows.
pub proof fn lemma_i64_roundtrip(value: i64, endianness: Endianness, tail: Seq<u8>)
    ensures
        spec_read_i64(spec_i64_bytes(value, endianness) + tail, endianness) == Some(
            (value, spec_i64_bytes(value, endianness).len()),
        ),
        endianness is NetworkLittleEndian ==> spec_varint_fits(
            spec_i64_bytes(value, endianness) + tail,
            10,
        ),
{
    match endianness {
        Endianness::NetworkLittleEndian => {
            let x = spec_zigzag(value as int);
            lemma_varint_roundtrip(x, tail);
            assert(vstd::arithmetic::power::pow(128, 5) == 0x8_0000_0000) by {
                vstd::arithmetic::power::lemma_pow_adds(128, 1, 4);
                vstd::arithmetic::power::lemma_pow_adds(128, 1, 3);
                vstd::arithmetic::power::lemma_pow_adds(128, 1, 2);
                vstd::arithmetic::power::lemma_pow_adds(128, 1, 1);
                vstd::arithmetic::power::lemma_pow1(128);
            }
            assert(vstd::arithmetic::power::pow(128, 10) == 0x40_0000_0000_0000_0000) by {
                vstd::arithmetic::power::lemma_pow_adds(128, 5, 5);
            }
            lemma_varint_fits(x, 10, tail);
            lemma_zigzag_roundtrip(value as int);
            assert(x % 0x1_0000_0000_0000_0000 == x);
        },
        _ => {
            let le = spec_u64_le_bytes(value as u64);
            lemma_ordered_twice(le, endianness);
            let bytes = spec_i64_bytes(value, endianness) + tail;
            assert(bytes.subrange(0, 8) =~= spec_i64_bytes(value, endianness));
            let x = value as u64;
            let lo = (x & 0xffff_ffff) as u32;
            let hi = (x >> 32u64) as u32;
            crate::bytes::lemma_u32_le_roundtrip(lo);
            crate::bytes::lemma_u32_le_roundtrip(hi);
            assert(le.subrange(4, 8) =~= crate::bytes::spec_u32_le_bytes(hi));
            assert(crate::bytes::spec_u32_at(le, 0) == lo);
            assert(crate::bytes::spec_u32_at(le, 4) == crate::bytes::spec_u32_at(
                crate::bytes::spec_u32_le_bytes(hi),
                0,
            ));
            assert((lo as int + hi as int * 0x1_0000_0000) as u64 == x) by (bit_vector)
                requires
                    lo == (x & 0xffff_ffff) as u32,
                    hi == (x >> 32u64) as u32,
            ;
            assert((x as i64) == value) by (bit_vector)
                requires
                    x == value as u64,
            ;
        },
    }
}

} // verus!
