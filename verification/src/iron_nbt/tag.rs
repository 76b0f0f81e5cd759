//! NBT tags, and what the binary form of a tag's body stands for.
//!
//! A float or double tag holds the bits of its value, which is all that reading and writing
//! binary NBT does with it.

use vstd::prelude::*;
use vstd::utf8::{decode_utf8, encode_utf8, valid_utf8};

use crate::bytes::{extend_bytes, ByteReader};
use crate::iron_nbt::io::{Endianness, NbtIoError, Options, StringEncoding};
use crate::nbt::ordered_map::{
    lemma_get_after_insert, lemma_position, spec_insert, spec_insert_all, spec_keys_distinct,
    spec_position,
};
use crate::nbt::raw::{
    read_i32, read_i32_array, read_i64, read_i64_array, read_u16, spec_i32_bytes, spec_i32s_fit,
    spec_i64_bytes, spec_i64s_fit, spec_read_i32, spec_read_i32s, spec_read_i64, spec_read_i64s,
    spec_read_u16, spec_u16_bytes, unexpected_eof, write_i32, write_i64, write_u16, write_u8,
    lemma_i32_roundtrip, lemma_i64_roundtrip, lemma_u16_roundtrip,
};
use crate::nbt::settings::{
    DepthLimit, Endianness as RawEndianness, IoOptions, NbtCompression,
    StringEncoding as RawStringEncoding,
};
use crate::text::str_eq;

verus! {

/// An NBT tag.
#[derive(Debug)]
pub enum NbtTag {
    Byte(i8),
    Short(i16),
    Int(i32),
    Long(i64),
    /// The bits of an `f32`.
    Float(u32),
    /// The bits of an `f64`.
    Double(u64),
    ByteArray(Vec<i8>),
    String(String),
    List(NbtList),
    Compound(NbtCompound),
    IntArray(Vec<i32>),
    LongArray(Vec<i64>),
}

/// A list of NBT tags.
#[derive(Debug)]
pub struct NbtList(pub Vec<NbtTag>);

/// The named tags of an NBT compound, in the order in which their names were first inserted.
#[derive(Debug)]
pub struct NbtCompound(pub Vec<(String, NbtTag)>);

/// What an NBT tag holds, as a mathematical value.
pub enum TagValue {
    Byte(i8),
    Short(i16),
    Int(i32),
    Long(i64),
    Float(u32),
    Double(u64),
    ByteArray(Seq<i8>),
    String(Seq<char>),
    List(Seq<TagValue>),
    Compound(Seq<(Seq<char>, TagValue)>),
    IntArray(Seq<i32>),
    LongArray(Seq<i64>),
}

impl NbtTag {
    /// What this tag holds.
    pub open spec fn value(self) -> TagValue
        decreases self,
    {
        match self {
            NbtTag::Byte(v) => TagValue::Byte(v),
            NbtTag::Short(v) => TagValue::Short(v),
            NbtTag::Int(v) => TagValue::Int(v),
            NbtTag::Long(v) => TagValue::Long(v),
            NbtTag::Float(v) => TagValue::Float(v),
            NbtTag::Double(v) => TagValue::Double(v),
            NbtTag::ByteArray(v) => TagValue::ByteArray(v@),
            NbtTag::String(v) => TagValue::String(v@),
            NbtTag::List(l) => TagValue::List(spec_list_values(l.0@)),
            NbtTag::Compound(c) => TagValue::Compound(spec_entry_values(c.0@)),
            NbtTag::IntArray(v) => TagValue::IntArray(v@),
            NbtTag::LongArray(v) => TagValue::LongArray(v@),
        }
    }
}

/// What each tag of a list holds.
pub open spec fn spec_list_values(tags: Seq<NbtTag>) -> Seq<TagValue>
    decreases tags,
{
    if tags.len() == 0 {
        Seq::empty()
    } else {
        spec_list_values(tags.drop_last()).push(tags.last().value())
    }
}

/// The names of a compound's entries, and what each of their tags holds.
pub open spec fn spec_entry_values(entries: Seq<(String, NbtTag)>) -> Seq<(Seq<char>, TagValue)>
    decreases entries,
{
    if entries.len() == 0 {
        Seq::empty()
    } else {
        spec_entry_values(entries.drop_last()).push(
            (entries.last().0@, entries.last().1.value()),
        )
    }
}

/// The byte order in which numbers are read.
pub open spec fn spec_raw_endianness(opts: Options) -> RawEndianness {
    match opts.endianness {
        Endianness::BigEndian => RawEndianness::BigEndian,
        Endianness::LittleEndian => RawEndianness::LittleEndian,
    }
}

/// The characters that `cesu8::from_java_cesu8` decodes from the bytes; `None` where they
/// are not Java's CESU-8.
pub uninterp spec fn java_cesu8_decoded(bytes: Seq<u8>) -> Option<Seq<char>>;

/// `cesu8::from_java_cesu8`: the characters of bytes in Java's CESU-8 (modified UTF-8), or
/// `None` where they are not in it.
#[verifier::external_body]
pub(crate) fn cesu8_decode(bytes: &[u8]) -> (res: Option<String>)
    ensures
        match res {
            Some(s) => java_cesu8_decoded(bytes@) == Some(s@),
            None => java_cesu8_decoded(bytes@) is None,
        },
{
    match cesu8::from_java_cesu8(bytes) {
        Ok(s) => Some(s.into_owned()),
        Err(_) => None,
    }
}

/// `std::str::from_utf8`: the characters of bytes in UTF-8, or `None` where they are not
/// valid UTF-8.
#[verifier::external_body]
pub(crate) fn utf8_decode(bytes: &[u8]) -> (res: Option<String>)
    ensures
        match res {
            Some(s) => valid_utf8(bytes@) && s@ == decode_utf8(bytes@),
            None => !valid_utf8(bytes@),
        },
{
    match std::str::from_utf8(bytes) {
        Ok(s) => Some(s.to_string()),
        Err(_) => None,
    }
}

/// The characters of a string's bytes in the string encoding; `None` where the bytes are not
/// in that encoding.
pub open spec fn spec_decode_string(bytes: Seq<u8>, encoding: StringEncoding) -> Option<Seq<char>> {
    match encoding {
        StringEncoding::Utf8 => if valid_utf8(bytes) {
            Some(decode_utf8(bytes))
        } else {
            None
        },
        StringEncoding::Cesu8 => java_cesu8_decoded(bytes),
    }
}

/// The string at the start of `bytes`: a `u16` length, then that many bytes of the string in
/// the string encoding; and the number of bytes that it takes.
pub open spec fn spec_read_string(bytes: Seq<u8>, opts: Options) -> Option<(Seq<char>, nat)> {
    if bytes.len() < 2 {
        None
    } else {
        let len = spec_read_u16(bytes, spec_raw_endianness(opts)) as nat;
        if bytes.len() < 2 + len {
            None
        } else {
            match spec_decode_string(bytes.subrange(2, (2 + len) as int), opts.string_encoding) {
                Some(s) => Some((s, 2 + len)),
                None => None,
            }
        }
    }
}

/// The length that the `i32` at the start of `bytes` gives, as the original casts it to a
/// `usize`, and the number of bytes it takes.
pub open spec fn spec_read_len(bytes: Seq<u8>, opts: Options) -> Option<(nat, nat)> {
    match spec_read_i32(bytes, spec_raw_endianness(opts)) {
        Some((v, n)) => Some(((v as usize) as nat, n)),
        None => None,
    }
}

/// The body of a tag with the id `id` at the start of `bytes`: what it holds, and the number
/// of bytes it takes; `None` where the bytes end too early, a string is not in the string
/// encoding, or a tag id is not one of 1 to 12 (or a list of id 0 is not empty).
pub open spec fn spec_tag_body(bytes: Seq<u8>, opts: Options, id: u8) -> Option<(TagValue, nat)>
    decreases bytes.len(), 1nat,
{
    let e = spec_raw_endianness(opts);
    if id == 1 {
        if bytes.len() >= 1 {
            Some((TagValue::Byte(bytes[0] as i8), 1))
        } else {
            None
        }
    } else if id == 2 {
        if bytes.len() >= 2 {
            Some((TagValue::Short(spec_read_u16(bytes, e) as i16), 2))
        } else {
            None
        }
    } else if id == 3 {
        match spec_read_i32(bytes, e) {
            Some((v, n)) => Some((TagValue::Int(v), n)),
            None => None,
        }
    } else if id == 4 {
        match spec_read_i64(bytes, e) {
            Some((v, n)) => Some((TagValue::Long(v), n)),
            None => None,
        }
    } else if id == 5 {
        match spec_read_i32(bytes, e) {
            Some((v, n)) => Some((TagValue::Float(v as u32), n)),
            None => None,
        }
    } else if id == 6 {
        match spec_read_i64(bytes, e) {
            Some((v, n)) => Some((TagValue::Double(v as u64), n)),
            None => None,
        }
    } else if id == 7 {
        match spec_read_len(bytes, opts) {
            Some((len, n)) => if bytes.len() < n + len {
                None
            } else {
                Some(
                    (
                        TagValue::ByteArray(
                            bytes.subrange(n as int, (n + len) as int).map_values(|b: u8| b as i8),
                        ),
                        n + len,
                    ),
                )
            },
            None => None,
        }
    } else if id == 8 {
        match spec_read_string(bytes, opts) {
            Some((s, n)) => Some((TagValue::String(s), n)),
            None => None,
        }
    } else if id == 9 {
        if bytes.len() < 1 {
            None
        } else {
            let elem = bytes[0];
            match spec_read_len(bytes.skip(1), opts) {
                None => None,
                Some((len, n)) => if elem > 12 || (elem == 0 && len > 0) || 1 + n > bytes.len() {
                    None
                } else if len == 0 {
                    Some((TagValue::List(Seq::empty()), 1 + n))
                } else {
                    match spec_list_items(bytes.skip((1 + n) as int), opts, elem, len) {
                        Some((items, m)) => Some((TagValue::List(items), 1 + n + m)),
                        None => None,
                    }
                },
            }
        }
    } else if id == 10 {
        match spec_entries(bytes, opts) {
            Some((pairs, m)) => Some(
                (TagValue::Compound(spec_insert_all(Seq::empty(), pairs)), m),
            ),
            None => None,
        }
    } else if id == 11 {
        match spec_read_len(bytes, opts) {
            Some((len, n)) => if n > bytes.len() {
                None
            } else {
                match spec_read_i32s(bytes.skip(n as int), e, len) {
                    Some((vs, m)) => Some((TagValue::IntArray(vs), n + m)),
                    None => None,
                }
            },
            None => None,
        }
    } else if id == 12 {
        match spec_read_len(bytes, opts) {
            Some((len, n)) => if n > bytes.len() {
                None
            } else {
                match spec_read_i64s(bytes.skip(n as int), e, len) {
                    Some((vs, m)) => Some((TagValue::LongArray(vs), n + m)),
                    None => None,
                }
            },
            None => None,
        }
    } else {
        None
    }
}

/// The bodies of `n` tags with the id `id`, one after another, at the start of `bytes`.
pub open spec fn spec_list_items(bytes: Seq<u8>, opts: Options, id: u8, n: nat) -> Option<
    (Seq<TagValue>, nat),
>
    decreases bytes.len(), n + 1,
{
    if n == 0 {
        Some((Seq::empty(), 0))
    } else {
        match spec_tag_body(bytes, opts, id) {
            None => None,
            Some((v, k)) => if k > bytes.len() {
                None
            } else {
                match spec_list_items(bytes.skip(k as int), opts, id, (n - 1) as nat) {
                    Some((rest, m)) => Some((seq![v] + rest, k + m)),
                    None => None,
                }
            },
        }
    }
}

/// The named tags of a compound's body at the start of `bytes`, in the order in which they are
/// stored, up to and including the end tag (a zero byte).
pub open spec fn spec_entries(bytes: Seq<u8>, opts: Options) -> Option<
    (Seq<(Seq<char>, TagValue)>, nat),
>
    decreases bytes.len(), 0nat,
{
    if bytes.len() < 1 {
        None
    } else if bytes[0] == 0 {
        Some((Seq::empty(), 1))
    } else if bytes[0] > 12 {
        None
    } else {
        let id = bytes[0];
        match spec_read_string(bytes.skip(1), opts) {
            None => None,
            Some((name, k)) => if 1 + k > bytes.len() {
                None
            } else {
                match spec_tag_body(bytes.skip((1 + k) as int), opts, id) {
                    None => None,
                    Some((v, m)) => if 1 + k + m > bytes.len() {
                        None
                    } else {
                        match spec_entries(bytes.skip((1 + k + m) as int), opts) {
                            Some((rest, r)) => Some((seq![(name, v)] + rest, 1 + k + m + r)),
                            None => None,
                        }
                    },
                }
            },
        }
    }
}

// ================================
//  Reading
// ================================

/// The bytes of `input` after the first `k`.
fn skip(input: &[u8], k: usize) -> (res: &[u8])
    requires
        k <= input@.len(),
    ensures
        res@ == input@.skip(k as int),
{
    vstd::slice::slice_subrange(input, k, input.len())
}

/// The options with which the numbers of NBT are read in the byte order of `opts`.
fn raw_options(opts: Options) -> (res: IoOptions)
    ensures
        res.endianness == spec_raw_endianness(opts),
{
    let endianness = match opts.endianness {
        Endianness::BigEndian => RawEndianness::BigEndian,
        Endianness::LittleEndian => RawEndianness::LittleEndian,
    };
    IoOptions {
        endianness,
        compression: NbtCompression::Uncompressed,
        string_encoding: RawStringEncoding::Utf8,
        allow_invalid_strings: false,
        depth_limit: DepthLimit::default(),
    }
}

/// A reader at the start of `input`, whose remaining bytes are all of `input`.
fn reader_at(input: &[u8]) -> (res: ByteReader)
    ensures
        res.wf(),
        res@ == (input@, 0nat),
        res.remaining() == input@,
{
    let r = ByteReader::new(input);
    assert(r.remaining() =~= input@);
    r
}

/// The `u16` at the start of `input`, in the byte order of `opts`.
fn u16_at_start(input: &[u8], opts: Options) -> (res: Result<u16, NbtIoError>)
    ensures
        input@.len() >= 2 ==> (res matches Ok(v) && v == spec_read_u16(
            input@,
            spec_raw_endianness(opts),
        )),
        input@.len() < 2 ==> res is Err,
{
    let mut r = reader_at(input);
    match read_u16(&mut r, raw_options(opts)) {
        Ok(v) => Ok(v),
        Err(e) => Err(NbtIoError::StdIo(e)),
    }
}

/// The `i32` at the start of `input`, and the number of its bytes.
fn i32_at_start(input: &[u8], opts: Options) -> (res: Result<(i32, usize), NbtIoError>)
    ensures
        res matches Ok((_, k)) ==> k <= input@.len(),
        match spec_read_i32(input@, spec_raw_endianness(opts)) {
            Some((v, n)) => res matches Ok((x, k)) && x == v && k == n && k <= input@.len(),
            None => res is Err,
        },
{
    let mut r = reader_at(input);
    match read_i32(&mut r, raw_options(opts)) {
        Ok(v) => Ok((v, r.position())),
        Err(e) => Err(NbtIoError::StdIo(e)),
    }
}

/// The `i64` at the start of `input`, and the number of its bytes.
fn i64_at_start(input: &[u8], opts: Options) -> (res: Result<(i64, usize), NbtIoError>)
    ensures
        res matches Ok((_, k)) ==> k <= input@.len(),
        match spec_read_i64(input@, spec_raw_endianness(opts)) {
            Some((v, n)) => res matches Ok((x, k)) && x == v && k == n && k <= input@.len(),
            None => res is Err,
        },
{
    let mut r = reader_at(input);
    match read_i64(&mut r, raw_options(opts)) {
        Ok(v) => Ok((v, r.position())),
        Err(e) => Err(NbtIoError::StdIo(e)),
    }
}

/// With a fixed byte order, every varint that reading `i32`s and `i64`s meets fits: there is
/// none.
proof fn lemma_fixed_order_fits(bytes: Seq<u8>, e: RawEndianness, len: nat)
    requires
        !(e is NetworkLittleEndian),
    ensures
        spec_i32s_fit(bytes, e, len),
        spec_i64s_fit(bytes, e, len),
    decreases len,
{
    if len > 0 {
        if let Some((_, n)) = spec_read_i32(bytes, e) {
            lemma_fixed_order_fits(bytes.skip(n as int), e, (len - 1) as nat);
        }
        if let Some((_, n)) = spec_read_i64(bytes, e) {
            lemma_fixed_order_fits(bytes.skip(n as int), e, (len - 1) as nat);
        }
    }
}

/// Read a string: a `u16` length, then that many bytes in the string encoding.
pub fn read_string(input: &[u8], opts: Options) -> (res: Result<(String, usize), NbtIoError>)
    ensures
        res matches Ok((_, k)) ==> k <= input@.len(),
        match spec_read_string(input@, opts) {
            Some((s, n)) => res matches Ok((x, k)) && x@ == s && k == n && k <= input@.len(),
            None => res is Err,
        },
{
    let len = match u16_at_start(input, opts) {
        Ok(len) => len as usize,
        Err(e) => {
            return Err(e);
        },
    };
    if input.len() - 2 < len {
        return Err(NbtIoError::StdIo(unexpected_eof()));
    }
    let bytes = vstd::slice::slice_subrange(input, 2, 2 + len);
    let decoded = match opts.string_encoding {
        StringEncoding::Utf8 => match utf8_decode(bytes) {
            Some(s) => Ok(s),
            None => Err(NbtIoError::InvalidUtf8String),
        },
        StringEncoding::Cesu8 => match cesu8_decode(bytes) {
            Some(s) => Ok(s),
            None => Err(NbtIoError::InvalidCesu8String),
        },
    };
    match decoded {
        Ok(s) => Ok((s, 2 + len)),
        Err(e) => Err(e),
    }
}

/// What each tag of a list holds, position by position.
proof fn lemma_list_values_index(tags: Seq<NbtTag>)
    ensures
        spec_list_values(tags).len() == tags.len(),
        forall|j: int| 0 <= j < tags.len() ==> #[trigger] spec_list_values(tags)[j] == tags[j].value(),
    decreases tags.len(),
{
    if tags.len() > 0 {
        lemma_list_values_index(tags.drop_last());
    }
}

/// The name and what the tag holds of each entry of a compound, position by position.
pub(crate) proof fn lemma_entry_values_index(entries: Seq<(String, NbtTag)>)
    ensures
        spec_entry_values(entries).len() == entries.len(),
        forall|j: int|
            0 <= j < entries.len() ==> #[trigger] spec_entry_values(entries)[j] == (
                entries[j].0@,
                entries[j].1.value(),
            ),
    decreases entries.len(),
{
    if entries.len() > 0 {
        lemma_entry_values_index(entries.drop_last());
    }
}

/// Read the body of a tag with the id `id`, and the number of its bytes.
pub fn read_tag_body_dyn(input: &[u8], opts: Options, id: u8) -> (res: Result<
    (NbtTag, usize),
    NbtIoError,
>)
    ensures
        res matches Ok((_, k)) ==> k <= input@.len(),
        match spec_tag_body(input@, opts, id) {
            Some((v, n)) => res matches Ok((t, k)) && t.value() == v && k == n && k
                <= input@.len(),
            None => res is Err,
        },
    decreases input@.len(), 1nat,
{
    let total = input.len();
    let e = raw_options(opts);
    if id == 1 {
        if input.len() >= 1 {
            Ok((NbtTag::Byte(input[0] as i8), 1))
        } else {
            Err(NbtIoError::StdIo(unexpected_eof()))
        }
    } else if id == 2 {
        match u16_at_start(input, opts) {
            Ok(v) => Ok((NbtTag::Short(v as i16), 2)),
            Err(err) => Err(err),
        }
    } else if id == 3 {
        match i32_at_start(input, opts) {
            Ok((v, n)) => Ok((NbtTag::Int(v), n)),
            Err(err) => Err(err),
        }
    } else if id == 4 {
        match i64_at_start(input, opts) {
            Ok((v, n)) => Ok((NbtTag::Long(v), n)),
            Err(err) => Err(err),
        }
    } else if id == 5 {
        match i32_at_start(input, opts) {
            Ok((v, n)) => Ok((NbtTag::Float(v as u32), n)),
            Err(err) => Err(err),
        }
    } else if id == 6 {
        match i64_at_start(input, opts) {
            Ok((v, n)) => Ok((NbtTag::Double(v as u64), n)),
            Err(err) => Err(err),
        }
    } else if id == 7 {
        let (v, n) = match i32_at_start(input, opts) {
            Ok(read) => read,
            Err(err) => {
                return Err(err);
            },
        };
        let len = v as usize;
        if input.len() - n < len {
            return Err(NbtIoError::StdIo(unexpected_eof()));
        }
        let bytes = vstd::slice::slice_subrange(input, n, n + len);
        let array = crate::nbt::raw::cast_bytes_to_signed(bytes);
        Ok((NbtTag::ByteArray(array), n + len))
    } else if id == 8 {
        match read_string(input, opts) {
            Ok((s, n)) => Ok((NbtTag::String(s), n)),
            Err(err) => Err(err),
        }
    } else if id == 9 {
        if input.len() < 1 {
            return Err(NbtIoError::StdIo(unexpected_eof()));
        }
        let elem = input[0];
        let (v, n) = match i32_at_start(skip(input, 1), opts) {
            Ok(read) => read,
            Err(err) => {
                return Err(err);
            },
        };
        let len = v as usize;
        if elem > 12 || (elem == 0 && len > 0) {
            return Err(NbtIoError::InvalidTagId(elem));
        }
        if len == 0 {
            proof {
                lemma_list_values_index(Seq::<NbtTag>::empty());
            }
            let empty: Vec<NbtTag> = Vec::new();
            assert(spec_list_values(empty@) =~= Seq::<TagValue>::empty());
            return Ok((NbtTag::List(NbtList(empty)), 1 + n));
        }
        match read_list_items(skip(input, 1 + n), opts, elem, len) {
            Ok((items, m)) => Ok((NbtTag::List(NbtList(items)), 1 + n + m)),
            Err(err) => Err(err),
        }
    } else if id == 10 {
        match read_entries(input, opts) {
            Ok((entries, m)) => Ok((NbtTag::Compound(NbtCompound(entries)), m)),
            Err(err) => Err(err),
        }
    } else if id == 11 {
        let (v, n) = match i32_at_start(input, opts) {
            Ok(read) => read,
            Err(err) => {
                return Err(err);
            },
        };
        let len = v as usize;
        let mut r = reader_at(skip(input, n));
        proof {
            lemma_fixed_order_fits(input@.skip(n as int), e.endianness, len as nat);
        }
        assert(r@.0.len() == input@.len() - n);
        match read_i32_array(&mut r, e, len) {
            Ok(values) => Ok((NbtTag::IntArray(values), n + r.position())),
            Err(err) => Err(NbtIoError::StdIo(err)),
        }
    } else if id == 12 {
        let (v, n) = match i32_at_start(input, opts) {
            Ok(read) => read,
            Err(err) => {
                return Err(err);
            },
        };
        let len = v as usize;
        let mut r = reader_at(skip(input, n));
        proof {
            lemma_fixed_order_fits(input@.skip(n as int), e.endianness, len as nat);
        }
        assert(r@.0.len() == input@.len() - n);
        match read_i64_array(&mut r, e, len) {
            Ok(values) => Ok((NbtTag::LongArray(values), n + r.position())),
            Err(err) => Err(NbtIoError::StdIo(err)),
        }
    } else {
        Err(NbtIoError::InvalidTagId(id))
    }
}

/// Read the bodies of `n` tags with the id `id`, one after another.
fn read_list_items(input: &[u8], opts: Options, id: u8, n: usize) -> (res: Result<
    (Vec<NbtTag>, usize),
    NbtIoError,
>)
    ensures
        res matches Ok((_, k)) ==> k <= input@.len(),
        match spec_list_items(input@, opts, id, n as nat) {
            Some((vs, m)) => res matches Ok((tags, k)) && spec_list_values(tags@) == vs && k == m
                && k <= input@.len(),
            None => res is Err,
        },
    decreases input@.len(), n + 1,
{
    let total = input.len();
    let mut tags: Vec<NbtTag> = Vec::new();
    let mut pos: usize = 0;
    let mut i: usize = 0;
    assert(spec_list_values(tags@) =~= Seq::<TagValue>::empty());
    assert(input@.skip(0) =~= input@);
    while i < n
        invariant
            i <= n,
            total == input@.len(),
            pos <= input@.len(),
            spec_list_items(input@, opts, id, n as nat) == match spec_list_items(
                input@.skip(pos as int),
                opts,
                id,
                (n - i) as nat,
            ) {
                Some((rest, m)) => Some((spec_list_values(tags@) + rest, (pos + m) as nat)),
                None => None,
            },
        decreases n - i,
    {
        let rest = skip(input, pos);
        assert(rest@.len() == input@.len() - pos);
        let (tag, k) = match read_tag_body_dyn(rest, opts, id) {
            Ok(read) => read,
            Err(err) => {
                return Err(err);
            },
        };
        proof {
            assert(input@.skip(pos as int).skip(k as int) =~= input@.skip(pos + k));
            assert(spec_list_values(tags@.push(tag)) == spec_list_values(tags@).push(tag.value()))
                by {
                assert(tags@.push(tag).drop_last() =~= tags@);
            }
            if let Some((r2, m2)) = spec_list_items(
                input@.skip(pos + k),
                opts,
                id,
                (n - i - 1) as nat,
            ) {
                assert(spec_list_values(tags@) + (seq![tag.value()] + r2) =~= spec_list_values(
                    tags@,
                ).push(tag.value()) + r2);
            }
        }
        tags.push(tag);
        pos = pos + k;
        i = i + 1;
    }
    assert(spec_list_values(tags@) + Seq::<TagValue>::empty() =~= spec_list_values(tags@));
    Ok((tags, pos))
}

/// Insert `tag` under `name`: an existing name keeps its place and takes the new tag; a new
/// name comes last.
fn insert_entry(entries: &mut Vec<(String, NbtTag)>, name: String, tag: NbtTag)
    requires
        spec_keys_distinct(spec_entry_values(old(entries)@)),
    ensures
        spec_entry_values(final(entries)@) == spec_insert(
            spec_entry_values(old(entries)@),
            name@,
            tag.value(),
        ),
        spec_keys_distinct(spec_entry_values(final(entries)@)),
{
    let ghost before = spec_entry_values(entries@);
    let ghost value = tag.value();
    proof {
        lemma_entry_values_index(entries@);
        lemma_get_after_insert(before, name@, value, name@);
    }
    let mut i: usize = 0;
    while i < entries.len()
        invariant
            i <= entries@.len(),
            entries@ == old(entries)@,
            before == spec_entry_values(old(entries)@),
            before == spec_entry_values(entries@),
            spec_keys_distinct(before),
            value == tag.value(),
            before.len() == entries@.len(),
            forall|j: int| 0 <= j < i ==> (#[trigger] before[j]).0 != name@,
            forall|j: int|
                0 <= j < entries@.len() ==> #[trigger] before[j] == (
                    entries@[j].0@,
                    entries@[j].1.value(),
                ),
        decreases entries@.len() - i,
    {
        if str_eq(entries[i].0.as_str(), name.as_str()) {
            proof {
                lemma_position(before, name@, i as int);
                assert(spec_insert(before, name@, value) == before.update(i as int, (name@, value)));
            }
            let ghost old_entries = entries@;
            let ghost new_name = name@;
            entries.set(i, (name, tag));
            proof {
                lemma_entry_values_index(entries@);
                assert forall|j: int| 0 <= j < before.len() implies #[trigger] spec_entry_values(
                    entries@,
                )[j] == before.update(i as int, (new_name, value))[j] by {
                    if j != i {
                        assert(entries@[j] == old_entries[j]);
                    }
                }
                assert(spec_entry_values(entries@) =~= before.update(i as int, (new_name, value)));
            }
            return;
        }
        i = i + 1;
    }
    assert(spec_position(before, name@) is None) by {
        if exists|j: int| 0 <= j < before.len() && #[trigger] before[j].0 == name@ {
            let j = choose|j: int| 0 <= j < before.len() && #[trigger] before[j].0 == name@;
            assert(before[j].0 != name@);
        }
    }
    let ghost old_entries = entries@;
    entries.push((name, tag));
    proof {
        assert(entries@.drop_last() =~= old_entries);
    }
}

/// One named tag read at `pos`: its id byte, name and body take `1 + k + m` bytes, and what
/// the compound's body gives is the pairs so far, this pair, and what follows it.
proof fn lemma_entries_step(
    input: Seq<u8>,
    pos: int,
    opts: Options,
    pairs: Seq<(Seq<char>, TagValue)>,
    name: Seq<char>,
    k: nat,
    v: TagValue,
    m: nat,
)
    requires
        0 <= pos,
        pos + 1 + k + m <= input.len(),
        1 <= input[pos] <= 12,
        spec_read_string(input.skip(pos).skip(1), opts) == Some((name, k)),
        spec_tag_body(input.skip(pos).skip((1 + k) as int), opts, input[pos]) == Some((v, m)),
        spec_entries(input, opts) == match spec_entries(input.skip(pos), opts) {
            Some((rest, r)) => Some((pairs + rest, (pos + r) as nat)),
            None => None,
        },
    ensures
        spec_entries(input, opts) == match spec_entries(input.skip(pos + 1 + k + m), opts) {
            Some((rest, r)) => Some((pairs.push((name, v)) + rest, (pos + 1 + k + m + r) as nat)),
            None => None,
        },
{
    let rest = input.skip(pos);
    assert(rest[0] == input[pos]);
    assert(rest.skip((1 + k + m) as int) =~= input.skip(pos + 1 + k + m));
    if let Some((r2, q2)) = spec_entries(input.skip(pos + 1 + k + m), opts) {
        assert(pairs + (seq![(name, v)] + r2) =~= pairs.push((name, v)) + r2);
    }
}

/// Read the named tags of a compound's body, up to and including its end tag, inserting each
/// under its name in turn.
#[verifier::rlimit(60)]
fn read_entries(input: &[u8], opts: Options) -> (res: Result<
    (Vec<(String, NbtTag)>, usize),
    NbtIoError,
>)
    ensures
        res matches Ok((_, k)) ==> k <= input@.len(),
        match spec_entries(input@, opts) {
            Some((pairs, m)) => res matches Ok((entries, k)) && spec_entry_values(entries@)
                == spec_insert_all(Seq::empty(), pairs) && k == m && k <= input@.len(),
            None => res is Err,
        },
    decreases input@.len(), 0nat,
{
    let total = input.len();
    let mut entries: Vec<(String, NbtTag)> = Vec::new();
    let mut pos: usize = 0;
    let ghost mut pairs: Seq<(Seq<char>, TagValue)> = Seq::empty();
    assert(spec_entry_values(entries@) =~= Seq::<(Seq<char>, TagValue)>::empty());
    assert(input@.skip(0) =~= input@);
    loop
        invariant
            total == input@.len(),
            pos <= input@.len(),
            spec_entry_values(entries@) == spec_insert_all(Seq::empty(), pairs),
            spec_keys_distinct(spec_entry_values(entries@)),
            spec_entries(input@, opts) == match spec_entries(input@.skip(pos as int), opts) {
                Some((rest, r)) => Some((pairs + rest, (pos + r) as nat)),
                None => None,
            },
        decreases input@.len() - pos,
    {
        let rest = skip(input, pos);
        assert(rest@.len() == input@.len() - pos);
        if rest.len() < 1 {
            return Err(NbtIoError::StdIo(unexpected_eof()));
        }
        let id = rest[0];
        if id == 0 {
            assert(pairs + Seq::<(Seq<char>, TagValue)>::empty() =~= pairs);
            return Ok((entries, pos + 1));
        }
        if id > 12 {
            return Err(NbtIoError::InvalidTagId(id));
        }
        let after_id = skip(rest, 1);
        let (name, k) = match read_string(after_id, opts) {
            Ok(read) => read,
            Err(err) => {
                return Err(err);
            },
        };
        assert(after_id@.len() == rest@.len() - 1);
        let after_name = skip(rest, 1 + k);
        assert(after_name@.len() == rest@.len() - 1 - k);
        let (tag, m) = match read_tag_body_dyn(after_name, opts, id) {
            Ok(read) => read,
            Err(err) => {
                return Err(err);
            },
        };
        assert(1 + k + m <= rest@.len());
        proof {
            assert(rest@.skip(1).skip(k as int) =~= rest@.skip(1 + k));
            assert(rest@.skip(1 + k).skip(m as int) =~= rest@.skip(1 + k + m));
            lemma_entries_step(input@, pos as int, opts, pairs, name@, k as nat, tag.value(), m as nat);
            let p2 = pairs.push((name@, tag.value()));
            assert(spec_insert_all(Seq::empty(), p2) == spec_insert(
                spec_insert_all(Seq::empty(), pairs),
                name@,
                tag.value(),
            )) by {
                assert(p2.drop_last() =~= pairs);
            }
            pairs = p2;
        }
        insert_entry(&mut entries, name, tag);
        pos = pos + 1 + k + m;
    }
}

// ================================
//  Writing
// ================================

/// The bytes that `cesu8::to_java_cesu8` encodes the characters as.
pub uninterp spec fn java_cesu8_encoded(text: Seq<char>) -> Seq<u8>;

/// `cesu8::to_java_cesu8`: the characters in Java's CESU-8 (modified UTF-8), which
/// `cesu8::from_java_cesu8` decodes back to the same characters.
#[verifier::external_body]
pub(crate) fn cesu8_encode(text: &str) -> (res: Vec<u8>)
    ensures
        res@ == java_cesu8_encoded(text@),
        java_cesu8_decoded(res@) == Some(text@),
{
    cesu8::to_java_cesu8(text).into_owned()
}

/// The id of the kind of tag that holds `v`.
pub open spec fn spec_id(v: TagValue) -> u8 {
    match v {
        TagValue::Byte(_) => 1,
        TagValue::Short(_) => 2,
        TagValue::Int(_) => 3,
        TagValue::Long(_) => 4,
        TagValue::Float(_) => 5,
        TagValue::Double(_) => 6,
        TagValue::ByteArray(_) => 7,
        TagValue::String(_) => 8,
        TagValue::List(_) => 9,
        TagValue::Compound(_) => 10,
        TagValue::IntArray(_) => 11,
        TagValue::LongArray(_) => 12,
    }
}

/// The bytes of a string in the string encoding.
pub open spec fn spec_encode_string(s: Seq<char>, encoding: StringEncoding) -> Seq<u8> {
    match encoding {
        StringEncoding::Utf8 => encode_utf8(s),
        StringEncoding::Cesu8 => java_cesu8_encoded(s),
    }
}

/// A written string: its encoded length as a `u16` (cut to its low 16 bits), then its bytes.
pub open spec fn spec_string_bytes(s: Seq<char>, opts: Options) -> Seq<u8> {
    let b = spec_encode_string(s, opts.string_encoding);
    spec_u16_bytes(b.len() as u16, spec_raw_endianness(opts)) + b
}

/// A written length: an `i32` (cut to its low 32 bits).
pub open spec fn spec_len_bytes(len: nat, opts: Options) -> Seq<u8> {
    spec_i32_bytes(len as i32, spec_raw_endianness(opts))
}

/// The bytes of the `i32`s, one after another.
pub open spec fn spec_i32s_bytes(vs: Seq<i32>, opts: Options) -> Seq<u8>
    decreases vs.len(),
{
    if vs.len() == 0 {
        Seq::empty()
    } else {
        spec_i32_bytes(vs[0], spec_raw_endianness(opts)) + spec_i32s_bytes(vs.skip(1), opts)
    }
}

/// The bytes of the `i64`s, one after another.
pub open spec fn spec_i64s_bytes(vs: Seq<i64>, opts: Options) -> Seq<u8>
    decreases vs.len(),
{
    if vs.len() == 0 {
        Seq::empty()
    } else {
        spec_i64_bytes(vs[0], spec_raw_endianness(opts)) + spec_i64s_bytes(vs.skip(1), opts)
    }
}

/// The bytes written for the body of a tag that holds `v`; `None` where a list (at any depth)
/// holds tags of more than one kind.
pub open spec fn spec_body_bytes(v: TagValue, opts: Options) -> Option<Seq<u8>>
    decreases v,
{
    let e = spec_raw_endianness(opts);
    match v {
        TagValue::Byte(x) => Some(seq![x as u8]),
        TagValue::Short(x) => Some(spec_u16_bytes(x as u16, e)),
        TagValue::Int(x) => Some(spec_i32_bytes(x, e)),
        TagValue::Long(x) => Some(spec_i64_bytes(x, e)),
        TagValue::Float(x) => Some(spec_i32_bytes(x as i32, e)),
        TagValue::Double(x) => Some(spec_i64_bytes(x as i64, e)),
        TagValue::ByteArray(a) => Some(
            spec_len_bytes(a.len(), opts) + a.map_values(|b: i8| b as u8),
        ),
        TagValue::String(s) => Some(spec_string_bytes(s, opts)),
        TagValue::List(items) => if items.len() == 0 {
            Some(seq![0u8, 0u8, 0u8, 0u8, 0u8])
        } else {
            match spec_items_bytes(items, spec_id(items[0]), opts) {
                Some(b) => Some(seq![spec_id(items[0])] + spec_len_bytes(items.len(), opts) + b),
                None => None,
            }
        },
        TagValue::Compound(entries) => match spec_entries_bytes(entries, opts) {
            Some(b) => Some(b + seq![0u8]),
            None => None,
        },
        TagValue::IntArray(a) => Some(spec_len_bytes(a.len(), opts) + spec_i32s_bytes(a, opts)),
        TagValue::LongArray(a) => Some(spec_len_bytes(a.len(), opts) + spec_i64s_bytes(a, opts)),
    }
}

/// The bodies of a list's tags, one after another; `None` where one is not of the kind `id`.
pub open spec fn spec_items_bytes(items: Seq<TagValue>, id: u8, opts: Options) -> Option<Seq<u8>>
    decreases items,
{
    if items.len() == 0 {
        Some(Seq::empty())
    } else if spec_id(items[0]) != id {
        None
    } else {
        match spec_body_bytes(items[0], opts) {
            None => None,
            Some(b) => match spec_items_bytes(items.skip(1), id, opts) {
                Some(rest) => Some(b + rest),
                None => None,
            },
        }
    }
}

/// The named tags of a compound, each as its id, its name and its body, one after another.
pub open spec fn spec_entries_bytes(entries: Seq<(Seq<char>, TagValue)>, opts: Options) -> Option<
    Seq<u8>,
>
    decreases entries,
{
    if entries.len() == 0 {
        Some(Seq::empty())
    } else {
        match spec_body_bytes(entries[0].1, opts) {
            None => None,
            Some(b) => match spec_entries_bytes(entries.skip(1), opts) {
                Some(rest) => Some(
                    seq![spec_id(entries[0].1)] + spec_string_bytes(entries[0].0, opts) + b + rest,
                ),
                None => None,
            },
        }
    }
}

/// The id of the kind of a tag.
pub fn id_for_tag(tag: &NbtTag) -> (res: u8)
    ensures
        res == spec_id(tag.value()),
{
    match tag {
        NbtTag::Byte(_) => 1,
        NbtTag::Short(_) => 2,
        NbtTag::Int(_) => 3,
        NbtTag::Long(_) => 4,
        NbtTag::Float(_) => 5,
        NbtTag::Double(_) => 6,
        NbtTag::ByteArray(_) => 7,
        NbtTag::String(_) => 8,
        NbtTag::List(_) => 9,
        NbtTag::Compound(_) => 10,
        NbtTag::IntArray(_) => 11,
        NbtTag::LongArray(_) => 12,
    }
}

/// Append a string: its encoded length as a `u16`, then its bytes in the string encoding.
pub fn write_string(bytes: &mut Vec<u8>, opts: Options, s: &str)
    ensures
        final(bytes)@ == old(bytes)@ + spec_string_bytes(s@, opts),
{
    let raw = raw_options(opts);
    match opts.string_encoding {
        StringEncoding::Utf8 => {
            let b = s.as_bytes();
            let _ = write_u16(bytes, raw, b.len() as u16);
            extend_bytes(bytes, b);
        },
        StringEncoding::Cesu8 => {
            let b = cesu8_encode(s);
            let _ = write_u16(bytes, raw, b.len() as u16);
            extend_bytes(bytes, b.as_slice());
        },
    }
}

/// Append the body of `tag`. A list whose tags are not all of one kind is an error, and what was
/// appended up to it stays.
pub fn write_tag_body(bytes: &mut Vec<u8>, opts: Options, tag: &NbtTag) -> (res: Result<
    (),
    NbtIoError,
>)
    ensures
        match spec_body_bytes(tag.value(), opts) {
            Some(b) => res is Ok && final(bytes)@ == old(bytes)@ + b,
            None => res is Err,
        },
    decreases tag,
{
    let raw = raw_options(opts);
    match tag {
        NbtTag::Byte(x) => {
            let _ = write_u8(bytes, raw, *x as u8);
            Ok(())
        },
        NbtTag::Short(x) => {
            let _ = write_u16(bytes, raw, *x as u16);
            Ok(())
        },
        NbtTag::Int(x) => {
            let _ = write_i32(bytes, raw, *x);
            Ok(())
        },
        NbtTag::Long(x) => {
            let _ = write_i64(bytes, raw, *x);
            Ok(())
        },
        NbtTag::Float(x) => {
            let _ = write_i32(bytes, raw, *x as i32);
            Ok(())
        },
        NbtTag::Double(x) => {
            let _ = write_i64(bytes, raw, *x as i64);
            Ok(())
        },
        NbtTag::ByteArray(a) => {
            let _ = write_i32(bytes, raw, a.len() as i32);
            let unsigned = crate::nbt::raw::cast_bytes_to_unsigned(a.as_slice());
            extend_bytes(bytes, unsigned.as_slice());
            Ok(())
        },
        NbtTag::String(s) => {
            write_string(bytes, opts, s.as_str());
            Ok(())
        },
        NbtTag::List(list) => {
            if list.0.len() == 0 {
                extend_bytes(bytes, &[0u8, 0u8, 0u8, 0u8, 0u8]);
                return Ok(());
            }
            proof {
                lemma_list_values_index(list.0@);
            }
            let list_type = id_for_tag(&list.0[0]);
            assert(list_type == spec_id(spec_list_values(list.0@)[0]));
            let _ = write_u8(bytes, raw, list_type);
            let _ = write_i32(bytes, raw, list.0.len() as i32);
            let ghost start = bytes@;
            let ghost values = spec_list_values(list.0@);
            let mut i: usize = 0;
            assert(values.skip(0) =~= values);
            while i < list.0.len()
                invariant
                    i <= list.0@.len(),
                    *tag == NbtTag::List(*list),
                    list.0@.len() > 0,
                    list_type == spec_id(values[0]),
                    values == spec_list_values(list.0@),
                    values.len() == list.0@.len(),
                    forall|j: int| 0 <= j < list.0@.len() ==> #[trigger] values[j] == list.0@[j].value(),
                    spec_items_bytes(values, list_type, opts) == match spec_items_bytes(
                        values.skip(i as int),
                        list_type,
                        opts,
                    ) {
                        Some(rest) => Some(bytes@.skip(start.len() as int) + rest),
                        None => None,
                    },
                    bytes@.len() >= start.len(),
                    bytes@.subrange(0, start.len() as int) == start,
                decreases list.0@.len() - i,
            {
                let item = &list.0[i];
                let id = id_for_tag(item);
                assert(values.skip(i as int).len() > 0);
                assert(values.skip(i as int)[0] == values[i as int]);
                assert(values.skip(i as int).skip(1) =~= values.skip(i + 1));
                assert(values[i as int] == item.value());
                if id != list_type {
                    assert(spec_items_bytes(values.skip(i as int), list_type, opts) is None);
                    return Err(NbtIoError::NonHomogenousList { list_type, encountered_type: id });
                }
                let ghost before = bytes@;
                proof {
                    assert(decreases_to!(*tag => *list));
                    assert(decreases_to!(*list => list.0));
                    assert(decreases_to!(list.0 => list.0@));
                    assert(decreases_to!(list.0@ => list.0@[i as int]));
                }
                match write_tag_body(bytes, opts, item) {
                    Ok(()) => {},
                    Err(e) => {
                        return Err(e);
                    },
                }
                proof {
                    assert(values.skip(i as int).skip(1) =~= values.skip(i + 1));
                    assert(bytes@.subrange(0, start.len() as int) =~= start);
                    let b = bytes@.skip(before.len() as int);
                    assert(bytes@ =~= before + b);
                    if let Some(rest) = spec_items_bytes(values.skip(i + 1), list_type, opts) {
                        assert(bytes@.skip(start.len() as int) + rest =~= before.skip(
                            start.len() as int,
                        ) + (b + rest));
                    }
                }
                i = i + 1;
            }
            proof {
                assert(bytes@ =~= start + bytes@.skip(start.len() as int));
                assert(bytes@.skip(start.len() as int) + Seq::<u8>::empty() =~= bytes@.skip(
                    start.len() as int,
                ));
            }
            Ok(())
        },
        NbtTag::Compound(compound) => {
            proof {
                assert(decreases_to!(*tag => *compound));
            }
            write_compound(bytes, opts, compound)
        },
        NbtTag::IntArray(a) => {
            let _ = write_i32(bytes, raw, a.len() as i32);
            let ghost start = bytes@;
            let mut i: usize = 0;
            assert(a@.skip(0) =~= a@);
            while i < a.len()
                invariant
                    i <= a@.len(),
                    raw.endianness == spec_raw_endianness(opts),
                    spec_i32s_bytes(a@, opts) == bytes@.skip(start.len() as int) + spec_i32s_bytes(
                        a@.skip(i as int),
                        opts,
                    ),
                    bytes@.len() >= start.len(),
                    bytes@.subrange(0, start.len() as int) == start,
                decreases a@.len() - i,
            {
                let ghost before = bytes@;
                assert(a@.skip(i as int).len() > 0);
                assert(a@.skip(i as int)[0] == a@[i as int]);
                assert(a@.skip(i as int).skip(1) =~= a@.skip(i + 1));
                assert(spec_i32s_bytes(a@.skip(i as int), opts) == spec_i32_bytes(a@[i as int], raw.endianness)
                    + spec_i32s_bytes(a@.skip(i + 1), opts));
                let _ = write_i32(bytes, raw, a[i]);
                proof {
                    assert(a@.skip(i as int).skip(1) =~= a@.skip(i + 1));
                    assert(bytes@.subrange(0, start.len() as int) =~= start);
                    assert(bytes@.skip(start.len() as int) =~= before.skip(start.len() as int)
                        + spec_i32_bytes(a@[i as int], raw.endianness));
                    assert(before.skip(start.len() as int) + (spec_i32_bytes(a@[i as int], raw.endianness)
                        + spec_i32s_bytes(a@.skip(i + 1), opts)) =~= bytes@.skip(start.len() as int)
                        + spec_i32s_bytes(a@.skip(i + 1), opts));
                }
                i = i + 1;
            }
            proof {
                assert(bytes@ =~= start + bytes@.skip(start.len() as int));
                assert(a@.skip(i as int).len() == 0);
            }
            Ok(())
        },
        NbtTag::LongArray(a) => {
            let _ = write_i32(bytes, raw, a.len() as i32);
            let ghost start = bytes@;
            let mut i: usize = 0;
            assert(a@.skip(0) =~= a@);
            while i < a.len()
                invariant
                    i <= a@.len(),
                    raw.endianness == spec_raw_endianness(opts),
                    spec_i64s_bytes(a@, opts) == bytes@.skip(start.len() as int) + spec_i64s_bytes(
                        a@.skip(i as int),
                        opts,
                    ),
                    bytes@.len() >= start.len(),
                    bytes@.subrange(0, start.len() as int) == start,
                decreases a@.len() - i,
            {
                let ghost before = bytes@;
                assert(a@.skip(i as int).len() > 0);
                assert(a@.skip(i as int)[0] == a@[i as int]);
                assert(a@.skip(i as int).skip(1) =~= a@.skip(i + 1));
                assert(spec_i64s_bytes(a@.skip(i as int), opts) == spec_i64_bytes(a@[i as int], raw.endianness)
                    + spec_i64s_bytes(a@.skip(i + 1), opts));
                let _ = write_i64(bytes, raw, a[i]);
                proof {
                    assert(a@.skip(i as int).skip(1) =~= a@.skip(i + 1));
                    assert(bytes@.subrange(0, start.len() as int) =~= start);
                    assert(bytes@.skip(start.len() as int) =~= before.skip(start.len() as int)
                        + spec_i64_bytes(a@[i as int], raw.endianness));
                    assert(before.skip(start.len() as int) + (spec_i64_bytes(a@[i as int], raw.endianness)
                        + spec_i64s_bytes(a@.skip(i + 1), opts)) =~= bytes@.skip(start.len() as int)
                        + spec_i64s_bytes(a@.skip(i + 1), opts));
                }
                i = i + 1;
            }
            proof {
                assert(bytes@ =~= start + bytes@.skip(start.len() as int));
                assert(a@.skip(i as int).len() == 0);
            }
            Ok(())
        },
    }
}


/// Append the body of a compound: each named tag as its id, its name and its body, then the end
/// tag.
pub fn write_compound(bytes: &mut Vec<u8>, opts: Options, compound: &NbtCompound) -> (res: Result<
    (),
    NbtIoError,
>)
    ensures
        match spec_body_bytes(TagValue::Compound(spec_entry_values(compound.0@)), opts) {
            Some(b) => res is Ok && final(bytes)@ == old(bytes)@ + b,
            None => res is Err,
        },
    decreases compound,
{
    let raw = raw_options(opts);
    let ghost start = bytes@;
    let ghost values = spec_entry_values(compound.0@);
    proof {
        lemma_entry_values_index(compound.0@);
    }
    let mut i: usize = 0;
    assert(values.skip(0) =~= values);
    while i < compound.0.len()
        invariant
            i <= compound.0@.len(),
            values == spec_entry_values(compound.0@),
            values.len() == compound.0@.len(),
            forall|j: int|
                0 <= j < compound.0@.len() ==> #[trigger] values[j] == (
                    compound.0@[j].0@,
                    compound.0@[j].1.value(),
                ),
            spec_entries_bytes(values, opts) == match spec_entries_bytes(
                values.skip(i as int),
                opts,
            ) {
                Some(rest) => Some(bytes@.skip(start.len() as int) + rest),
                None => None,
            },
            bytes@.len() >= start.len(),
            bytes@.subrange(0, start.len() as int) == start,
        decreases compound.0@.len() - i,
    {
        let (name, item) = (&compound.0[i].0, &compound.0[i].1);
        assert(values.skip(i as int).len() > 0);
        assert(values.skip(i as int)[0] == values[i as int]);
        assert(values.skip(i as int).skip(1) =~= values.skip(i + 1));
        assert(values[i as int] == (name@, item.value()));
        let ghost before = bytes@;
        proof {
            assert(decreases_to!(*compound => compound.0));
            assert(decreases_to!(compound.0 => compound.0@));
            assert(decreases_to!(compound.0@ => compound.0@[i as int]));
            assert(decreases_to!(compound.0@[i as int] => compound.0@[i as int].1));
        }
        let _ = write_u8(bytes, raw, id_for_tag(item));
        write_string(bytes, opts, name.as_str());
        match write_tag_body(bytes, opts, item) {
            Ok(()) => {},
            Err(e) => {
                return Err(e);
            },
        }
        proof {
            assert(values.skip(i as int).skip(1) =~= values.skip(i + 1));
            assert(bytes@.subrange(0, start.len() as int) =~= start);
            let b = bytes@.skip(before.len() as int);
            assert(bytes@ =~= before + b);
            if let Some(rest) = spec_entries_bytes(values.skip(i + 1), opts) {
                assert(bytes@.skip(start.len() as int) + rest =~= before.skip(
                    start.len() as int,
                ) + (b + rest));
            }
        }
        i = i + 1;
    }
    let _ = write_u8(bytes, raw, 0);
    proof {
        assert(bytes@ =~= start + bytes@.skip(start.len() as int));
    }
    Ok(())
}


// ================================
//  What a write gives back
// ================================

/// A string that can be written and read back: its encoded bytes fit a `u16` length, and they
/// decode to the same characters (always so for UTF-8, and for CESU-8 what `cesu8_encode`
/// states of its result).
pub open spec fn spec_string_ok(s: Seq<char>, opts: Options) -> bool {
    let b = spec_encode_string(s, opts.string_encoding);
    b.len() <= 0xFFFF && spec_decode_string(b, opts.string_encoding) == Some(s)
}

/// A value that can be written and read back: its strings are fine, its arrays and lists have
/// lengths that fit an `i32`, each list holds tags of one kind, and no compound holds a name
/// twice.
pub open spec fn spec_wf(v: TagValue, opts: Options) -> bool
    decreases v,
{
    match v {
        TagValue::ByteArray(a) => a.len() <= 0x7FFF_FFFF,
        TagValue::String(s) => spec_string_ok(s, opts),
        TagValue::List(items) => items.len() <= 0x7FFF_FFFF && (items.len() > 0
            ==> spec_items_wf(items, spec_id(items[0]), opts)),
        TagValue::Compound(entries) => spec_entries_wf(entries, opts) && spec_keys_distinct(
            entries,
        ),
        TagValue::IntArray(a) => a.len() <= 0x7FFF_FFFF,
        TagValue::LongArray(a) => a.len() <= 0x7FFF_FFFF,
        _ => true,
    }
}

/// Each item is of the kind `id` and can be written and read back.
pub open spec fn spec_items_wf(items: Seq<TagValue>, id: u8, opts: Options) -> bool
    decreases items,
{
    items.len() == 0 || (spec_id(items[0]) == id && spec_wf(items[0], opts) && spec_items_wf(
        items.skip(1),
        id,
        opts,
    ))
}

/// Each name and each value can be written and read back.
pub open spec fn spec_entries_wf(entries: Seq<(Seq<char>, TagValue)>, opts: Options) -> bool
    decreases entries,
{
    entries.len() == 0 || (spec_string_ok(entries[0].0, opts) && spec_wf(entries[0].1, opts)
        && spec_entries_wf(entries.skip(1), opts))
}

/// In UTF-8, every string decodes back from its bytes.
pub proof fn lemma_utf8_strings_decode(s: Seq<char>)
    ensures
        spec_decode_string(spec_encode_string(s, StringEncoding::Utf8), StringEncoding::Utf8)
            == Some(s),
{
    vstd::utf8::encode_utf8_valid_utf8(s);
    vstd::utf8::encode_utf8_decode_utf8(s);
}

/// Inserting pairs with distinct names into nothing, one by one, gives those pairs.
proof fn lemma_insert_all_distinct(pairs: Seq<(Seq<char>, TagValue)>)
    requires
        spec_keys_distinct(pairs),
    ensures
        spec_insert_all(Seq::empty(), pairs) == pairs,
    decreases pairs.len(),
{
    if pairs.len() > 0 {
        let init = pairs.drop_last();
        assert(spec_keys_distinct(init));
        lemma_insert_all_distinct(init);
        let key = pairs.last().0;
        assert(!(exists|i: int| 0 <= i < init.len() && #[trigger] init[i].0 == key)) by {
            if exists|i: int| 0 <= i < init.len() && #[trigger] init[i].0 == key {
                let i = choose|i: int| 0 <= i < init.len() && #[trigger] init[i].0 == key;
                assert(pairs[i].0 != pairs[pairs.len() - 1].0);
            }
        }
        assert(init.push(pairs.last()) =~= pairs);
    }
}

/// A written length that fits an `i32` is read back as itself, from four bytes.
proof fn lemma_len_roundtrip(len: nat, opts: Options, tail: Seq<u8>)
    requires
        len <= 0x7FFF_FFFF,
    ensures
        spec_len_bytes(len, opts).len() == 4,
        spec_read_len(spec_len_bytes(len, opts) + tail, opts) == Some((len, 4nat)),
{
    let e = spec_raw_endianness(opts);
    lemma_i32_roundtrip(len as i32, e, tail);
    lemma_i32_roundtrip(len as i32, e, Seq::empty());
    assert(spec_i32_bytes(len as i32, e) + Seq::<u8>::empty() =~= spec_i32_bytes(len as i32, e));
}

/// A written string is read back, from exactly its bytes.
pub proof fn lemma_string_roundtrip(s: Seq<char>, opts: Options, tail: Seq<u8>)
    requires
        spec_string_ok(s, opts),
    ensures
        spec_read_string(spec_string_bytes(s, opts) + tail, opts) == Some(
            (s, spec_string_bytes(s, opts).len()),
        ),
{
    let e = spec_raw_endianness(opts);
    let b = spec_encode_string(s, opts.string_encoding);
    let bytes = spec_string_bytes(s, opts) + tail;
    lemma_u16_roundtrip(b.len() as u16, e, b + tail);
    assert(bytes =~= spec_u16_bytes(b.len() as u16, e) + (b + tail));
    assert(bytes.subrange(2, (2 + b.len()) as int) =~= b);
}

/// The `i32`s written one after another are read back, from exactly their bytes.
proof fn lemma_i32s_roundtrip(vs: Seq<i32>, opts: Options, tail: Seq<u8>)
    ensures
        spec_read_i32s(spec_i32s_bytes(vs, opts) + tail, spec_raw_endianness(opts), vs.len())
            == Some((vs, spec_i32s_bytes(vs, opts).len())),
    decreases vs.len(),
{
    let e = spec_raw_endianness(opts);
    if vs.len() > 0 {
        let rest = spec_i32s_bytes(vs.skip(1), opts);
        let head = spec_i32_bytes(vs[0], e);
        lemma_i32s_roundtrip(vs.skip(1), opts, tail);
        lemma_i32_roundtrip(vs[0], e, rest + tail);
        let bytes = spec_i32s_bytes(vs, opts) + tail;
        assert(bytes =~= head + (rest + tail));
        assert(bytes.skip(head.len() as int) =~= rest + tail);
        assert(seq![vs[0]] + vs.skip(1) =~= vs);
    } else {
        assert(spec_i32s_bytes(vs, opts) + tail =~= tail);
        assert(vs =~= Seq::<i32>::empty());
    }
}

/// The `i64`s written one after another are read back, from exactly their bytes.
proof fn lemma_i64s_roundtrip(vs: Seq<i64>, opts: Options, tail: Seq<u8>)
    ensures
        spec_read_i64s(spec_i64s_bytes(vs, opts) + tail, spec_raw_endianness(opts), vs.len())
            == Some((vs, spec_i64s_bytes(vs, opts).len())),
    decreases vs.len(),
{
    let e = spec_raw_endianness(opts);
    if vs.len() > 0 {
        let rest = spec_i64s_bytes(vs.skip(1), opts);
        let head = spec_i64_bytes(vs[0], e);
        lemma_i64s_roundtrip(vs.skip(1), opts, tail);
        lemma_i64_roundtrip(vs[0], e, rest + tail);
        let bytes = spec_i64s_bytes(vs, opts) + tail;
        assert(bytes =~= head + (rest + tail));
        assert(bytes.skip(head.len() as int) =~= rest + tail);
        assert(seq![vs[0]] + vs.skip(1) =~= vs);
    } else {
        assert(spec_i64s_bytes(vs, opts) + tail =~= tail);
        assert(vs =~= Seq::<i64>::empty());
    }
}

/// What a body that is read back from exactly its bytes says.
pub open spec fn spec_reads_back(v: TagValue, opts: Options, tail: Seq<u8>) -> bool {
    spec_body_bytes(v, opts) matches Some(b) && spec_tag_body(b + tail, opts, spec_id(v)) == Some(
        (v, b.len()),
    )
}

/// Numbers are read back.
#[verifier::spinoff_prover]
proof fn lemma_number_roundtrip(v: TagValue, opts: Options, tail: Seq<u8>)
    requires
        v is Byte || v is Short || v is Int || v is Long || v is Float || v is Double,
    ensures
        spec_reads_back(v, opts, tail),
{
    let e = spec_raw_endianness(opts);
    match v {
        TagValue::Byte(x) => {
            assert(((x as u8) as i8) == x) by (bit_vector);
        },
        TagValue::Short(x) => {
            lemma_u16_roundtrip(x as u16, e, tail);
            assert(((x as u16) as i16) == x) by (bit_vector);
        },
        TagValue::Int(x) => {
            lemma_i32_roundtrip(x, e, tail);
        },
        TagValue::Long(x) => {
            lemma_i64_roundtrip(x, e, tail);
        },
        TagValue::Float(x) => {
            lemma_i32_roundtrip(x as i32, e, tail);
            assert(((x as i32) as u32) == x) by (bit_vector);
        },
        TagValue::Double(x) => {
            lemma_i64_roundtrip(x as i64, e, tail);
            assert(((x as i64) as u64) == x) by (bit_vector);
        },
        _ => {},
    }
}

/// A byte array whose length fits an `i32` is read back.
#[verifier::spinoff_prover]
proof fn lemma_byte_array_roundtrip(a: Seq<i8>, opts: Options, tail: Seq<u8>)
    requires
        a.len() <= 0x7FFF_FFFF,
    ensures
        spec_reads_back(TagValue::ByteArray(a), opts, tail),
{
    let lb = spec_len_bytes(a.len(), opts);
    let data = a.map_values(|b: i8| b as u8);
    lemma_len_roundtrip(a.len(), opts, data + tail);
    let bytes = lb + data + tail;
    assert(bytes =~= lb + (data + tail));
    assert(bytes.subrange(4, (4 + a.len()) as int).map_values(|b: u8| b as i8) =~= a) by {
        assert forall|k: int| 0 <= k < a.len() implies #[trigger] ((a[k] as u8) as i8) == a[k] by {
            let x = a[k];
            assert(((x as u8) as i8) == x) by (bit_vector);
        }
    }
}

/// An `i32` array whose length fits an `i32` is read back.
#[verifier::spinoff_prover]
proof fn lemma_int_array_roundtrip(a: Seq<i32>, opts: Options, tail: Seq<u8>)
    requires
        a.len() <= 0x7FFF_FFFF,
    ensures
        spec_reads_back(TagValue::IntArray(a), opts, tail),
{
    let lb = spec_len_bytes(a.len(), opts);
    let ab = spec_i32s_bytes(a, opts);
    lemma_len_roundtrip(a.len(), opts, ab + tail);
    lemma_i32s_roundtrip(a, opts, tail);
    let bytes = lb + ab + tail;
    assert(bytes =~= lb + (ab + tail));
    assert(bytes.skip(4) =~= ab + tail);
}

/// An `i64` array whose length fits an `i32` is read back.
#[verifier::spinoff_prover]
proof fn lemma_long_array_roundtrip(a: Seq<i64>, opts: Options, tail: Seq<u8>)
    requires
        a.len() <= 0x7FFF_FFFF,
    ensures
        spec_reads_back(TagValue::LongArray(a), opts, tail),
{
    let lb = spec_len_bytes(a.len(), opts);
    let ab = spec_i64s_bytes(a, opts);
    lemma_len_roundtrip(a.len(), opts, ab + tail);
    lemma_i64s_roundtrip(a, opts, tail);
    let bytes = lb + ab + tail;
    assert(bytes =~= lb + (ab + tail));
    assert(bytes.skip(4) =~= ab + tail);
}

/// A string that can be written is read back.
#[verifier::spinoff_prover]
proof fn lemma_string_tag_roundtrip(s: Seq<char>, opts: Options, tail: Seq<u8>)
    requires
        spec_string_ok(s, opts),
    ensures
        spec_reads_back(TagValue::String(s), opts, tail),
{
    lemma_string_roundtrip(s, opts, tail);
}

/// An empty list is read back.
#[verifier::spinoff_prover]
proof fn lemma_empty_list_roundtrip(opts: Options, tail: Seq<u8>)
    ensures
        spec_reads_back(TagValue::List(Seq::empty()), opts, tail),
{
    let bytes = seq![0u8, 0u8, 0u8, 0u8, 0u8] + tail;
    let rest = bytes.skip(1);
    assert(rest.subrange(0, 4) =~= seq![0u8, 0u8, 0u8, 0u8]);
    assert(seq![0u8, 0u8, 0u8, 0u8].reverse() =~= seq![0u8, 0u8, 0u8, 0u8]);
    assert(spec_read_len(rest, opts) == Some((0nat, 4nat)));
}

/// A list whose items are read back is read back.
#[verifier::spinoff_prover]
proof fn lemma_list_roundtrip(items: Seq<TagValue>, opts: Options, tail: Seq<u8>)
    requires
        items.len() > 0,
        spec_wf(TagValue::List(items), opts),
        spec_items_bytes(items, spec_id(items[0]), opts) matches Some(b) && spec_list_items(
            b + tail,
            opts,
            spec_id(items[0]),
            items.len(),
        ) == Some((items, b.len())),
    ensures
        spec_reads_back(TagValue::List(items), opts, tail),
{
    let id = spec_id(items[0]);
    let ib = spec_items_bytes(items, id, opts)->0;
    let lb = spec_len_bytes(items.len(), opts);
    lemma_len_roundtrip(items.len(), opts, ib + tail);
    let bytes = seq![id] + lb + ib + tail;
    assert(bytes.skip(1) =~= lb + (ib + tail));
    assert(bytes.skip(5) =~= ib + tail);
}

/// A compound whose named tags are read back, and which holds no name twice, is read back.
#[verifier::spinoff_prover]
proof fn lemma_compound_roundtrip(entries: Seq<(Seq<char>, TagValue)>, opts: Options, tail: Seq<u8>)
    requires
        spec_keys_distinct(entries),
        spec_entries_bytes(entries, opts) matches Some(b) && spec_entries(
            b + seq![0u8] + tail,
            opts,
        ) == Some((entries, b.len() + 1)),
    ensures
        spec_reads_back(TagValue::Compound(entries), opts, tail),
{
    lemma_insert_all_distinct(entries);
    let eb = spec_entries_bytes(entries, opts)->0;
    assert(eb + seq![0u8] + tail =~= eb + (seq![0u8] + tail));
}

/// The body written for a value that can be written is read back as that value, from exactly
/// its bytes, whatever follows.
pub proof fn lemma_body_roundtrip(v: TagValue, opts: Options, tail: Seq<u8>)
    requires
        spec_wf(v, opts),
    ensures
        spec_body_bytes(v, opts) matches Some(b) && spec_tag_body(b + tail, opts, spec_id(v))
            == Some((v, b.len())),
    decreases v,
{
    match v {
        TagValue::List(items) => {
            if items.len() == 0 {
                assert(items =~= Seq::<TagValue>::empty());
                lemma_empty_list_roundtrip(opts, tail);
            } else {
                lemma_items_roundtrip(items, spec_id(items[0]), opts, tail);
                lemma_list_roundtrip(items, opts, tail);
            }
        },
        TagValue::Compound(entries) => {
            lemma_entries_roundtrip(entries, opts, tail);
            lemma_compound_roundtrip(entries, opts, tail);
        },
        TagValue::ByteArray(a) => lemma_byte_array_roundtrip(a, opts, tail),
        TagValue::IntArray(a) => lemma_int_array_roundtrip(a, opts, tail),
        TagValue::LongArray(a) => lemma_long_array_roundtrip(a, opts, tail),
        TagValue::String(s) => lemma_string_tag_roundtrip(s, opts, tail),
        _ => {
            lemma_number_roundtrip(v, opts, tail);
        },
    }
}

/// The bodies written for a list's items are read back as those items.
proof fn lemma_items_roundtrip(items: Seq<TagValue>, id: u8, opts: Options, tail: Seq<u8>)
    requires
        spec_items_wf(items, id, opts),
    ensures
        spec_items_bytes(items, id, opts) matches Some(b) && spec_list_items(
            b + tail,
            opts,
            id,
            items.len(),
        ) == Some((items, b.len())),
    decreases items,
{
    if items.len() == 0 {
        assert(items =~= Seq::<TagValue>::empty());
        assert(Seq::<u8>::empty() + tail =~= tail);
    } else {
        lemma_items_roundtrip(items.skip(1), id, opts, tail);
        let rb = spec_items_bytes(items.skip(1), id, opts)->0;
        lemma_body_roundtrip(items[0], opts, rb + tail);
        let b0 = spec_body_bytes(items[0], opts)->0;
        let bytes = b0 + rb + tail;
        assert(bytes =~= b0 + (rb + tail));
        assert(bytes.skip(b0.len() as int) =~= rb + tail);
        assert(seq![items[0]] + items.skip(1) =~= items);
    }
}

/// The named tags written for a compound, with the end tag after them, are read back as those
/// named tags.
#[verifier::spinoff_prover]
#[verifier::rlimit(100)]
proof fn lemma_entries_roundtrip(entries: Seq<(Seq<char>, TagValue)>, opts: Options, tail: Seq<u8>)
    requires
        spec_entries_wf(entries, opts),
    ensures
        spec_entries_bytes(entries, opts) matches Some(b) && spec_entries(
            b + seq![0u8] + tail,
            opts,
        ) == Some((entries, b.len() + 1)),
    decreases entries,
{
    if entries.len() == 0 {
        assert(entries =~= Seq::<(Seq<char>, TagValue)>::empty());
        assert((Seq::<u8>::empty() + seq![0u8] + tail)[0] == 0);
    } else {
        let (name, v) = entries[0];
        lemma_entries_roundtrip(entries.skip(1), opts, tail);
        let rb = spec_entries_bytes(entries.skip(1), opts)->0;
        let after = rb + seq![0u8] + tail;
        lemma_body_roundtrip(v, opts, after);
        let vb = spec_body_bytes(v, opts)->0;
        let sb = spec_string_bytes(name, opts);
        lemma_string_roundtrip(name, opts, vb + after);
        let b = seq![spec_id(v)] + sb + vb + rb;
        let bytes = b + seq![0u8] + tail;
        assert(bytes =~= seq![spec_id(v)] + (sb + (vb + after)));
        assert(bytes.skip(1) =~= sb + (vb + after));
        assert(bytes.skip((1 + sb.len()) as int) =~= vb + after);
        assert(bytes.skip((1 + sb.len() + vb.len()) as int) =~= after);
        assert(seq![(name, v)] + entries.skip(1) =~= entries);
    }
}


/// The tag IDs of binary NBT: 1 byte, 2 short, 3 int, 4 long, 5 float, 6 double, 7 byte array,
/// 8 string, 9 list, 10 compound, 11 int array and 12 long array.
pub proof fn lemma_tag_ids()
    ensures
        forall|x: i8| #[trigger] spec_id(TagValue::Byte(x)) == 1,
        forall|x: i16| #[trigger] spec_id(TagValue::Short(x)) == 2,
        forall|x: i32| #[trigger] spec_id(TagValue::Int(x)) == 3,
        forall|x: i64| #[trigger] spec_id(TagValue::Long(x)) == 4,
        forall|x: u32| #[trigger] spec_id(TagValue::Float(x)) == 5,
        forall|x: u64| #[trigger] spec_id(TagValue::Double(x)) == 6,
        forall|x: Seq<i8>| #[trigger] spec_id(TagValue::ByteArray(x)) == 7,
        forall|x: Seq<char>| #[trigger] spec_id(TagValue::String(x)) == 8,
        forall|x: Seq<TagValue>| #[trigger] spec_id(TagValue::List(x)) == 9,
        forall|x: Seq<(Seq<char>, TagValue)>| #[trigger] spec_id(TagValue::Compound(x)) == 10,
        forall|x: Seq<i32>| #[trigger] spec_id(TagValue::IntArray(x)) == 11,
        forall|x: Seq<i64>| #[trigger] spec_id(TagValue::LongArray(x)) == 12,
{
}

} // verus!
