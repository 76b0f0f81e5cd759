use prismarine_anchor::bytes::ByteReader;
use prismarine_anchor::values::palettized_storage::{
    flatten_subchunk, read_le_u32s, unflatten_subchunk, write_le_u32s, HeaderBitsPerIndex,
    PaletteBitsPerIndex, PaletteHeader, PaletteHeaderParseError, PaletteType, PalettizedStorage,
    PalettizedStorageParseError, PalettizedSubchunk, PalettizedSubchunkCheckError,
};

fn u32_palette(bytes: &[u8], len: usize) -> Result<(Vec<u32>, usize), ()> {
    if bytes.len() < 4 * len {
        return Err(());
    }
    let values = (0..len)
        .map(|i| u32::from_le_bytes(bytes[4 * i..4 * i + 4].try_into().unwrap()))
        .collect();
    Ok((values, 4 * len))
}

fn u32_palette_bytes(values: &[u32]) -> Result<Vec<u8>, ()> {
    Ok(values.iter().flat_map(|v| v.to_le_bytes()).collect())
}

#[test]
fn bits_per_index_layout() {
    let expected = [
        (PaletteBitsPerIndex::One, 32, 128, 0, 32),
        (PaletteBitsPerIndex::Two, 16, 256, 0, 16),
        (PaletteBitsPerIndex::Three, 10, 410, 2, 6),
        (PaletteBitsPerIndex::Four, 8, 512, 0, 8),
        (PaletteBitsPerIndex::Five, 6, 683, 2, 4),
        (PaletteBitsPerIndex::Six, 5, 820, 2, 1),
        (PaletteBitsPerIndex::Eight, 4, 1024, 0, 4),
        (PaletteBitsPerIndex::Sixteen, 2, 2048, 0, 2),
    ];
    for (bits, per, num, padding, last) in expected {
        assert_eq!(bits.indices_per_u32(), per);
        assert_eq!(bits.num_u32s_for_4096_indices(), num);
        assert_eq!(bits.padding_bits(), padding);
        assert_eq!(bits.indices_in_last_u32(), last);
    }
}

#[test]
fn bits_per_index_constructors() {
    assert_eq!(PaletteBitsPerIndex::new(0), Some(PaletteBitsPerIndex::One));
    assert_eq!(PaletteBitsPerIndex::new(7), Some(PaletteBitsPerIndex::Eight));
    assert_eq!(PaletteBitsPerIndex::new(9), Some(PaletteBitsPerIndex::Sixteen));
    assert_eq!(PaletteBitsPerIndex::new(17), None);
    assert_eq!(PaletteBitsPerIndex::new_exact(7), None);
    assert_eq!(PaletteBitsPerIndex::new_exact(6), Some(PaletteBitsPerIndex::Six));
    assert_eq!(PaletteBitsPerIndex::new_from_usize(0), None);
    assert_eq!(PaletteBitsPerIndex::new_from_usize(1), Some(PaletteBitsPerIndex::One));
    assert_eq!(PaletteBitsPerIndex::new_from_usize(2), Some(PaletteBitsPerIndex::One));
    assert_eq!(PaletteBitsPerIndex::new_from_usize(5), Some(PaletteBitsPerIndex::Three));
    assert_eq!(PaletteBitsPerIndex::new_from_usize(256), Some(PaletteBitsPerIndex::Eight));
    assert_eq!(PaletteBitsPerIndex::new_from_usize(257), Some(PaletteBitsPerIndex::Sixteen));
    assert_eq!(PaletteBitsPerIndex::new_from_usize(65536), Some(PaletteBitsPerIndex::Sixteen));
    assert_eq!(PaletteBitsPerIndex::new_from_usize(65537), None);
    assert_eq!(u8::from(PaletteBitsPerIndex::Sixteen), 16);
}

#[test]
fn header_bytes() {
    assert_eq!(HeaderBitsPerIndex::parse(127), Some(HeaderBitsPerIndex::Empty));
    assert_eq!(HeaderBitsPerIndex::parse(0), Some(HeaderBitsPerIndex::Uniform));
    assert_eq!(HeaderBitsPerIndex::parse(7), None);
    let header = PaletteHeader {
        palette_type: PaletteType::Runtime,
        bits_per_index: HeaderBitsPerIndex::Palettized(PaletteBitsPerIndex::Four),
    };
    assert_eq!(u8::from(header), 9);
    let bytes = [9u8];
    let mut reader = ByteReader::new(&bytes);
    let parsed = PaletteHeader::parse_header(&mut reader).unwrap();
    assert_eq!(parsed, header);
    assert!(matches!(PaletteHeader::parse_header(&mut reader), Err(PaletteHeaderParseError::Io)));
    let bad = [14u8];
    let mut reader = ByteReader::new(&bad);
    assert!(matches!(
        PaletteHeader::parse_header(&mut reader),
        Err(PaletteHeaderParseError::InvalidBitsPerIndex(7))
    ));
}

#[test]
fn pack_and_unpack_roundtrip() {
    let mut data = [0u32; 4096];
    for (i, v) in data.iter_mut().enumerate() {
        *v = [5u32, 9, 1000, 2][i % 4] + if i % 17 == 0 { 7 } else { 0 };
    }
    let subchunk = PalettizedSubchunk::new_unpacked_flattened(data);
    let (bits, packed, palette) = subchunk.packed();
    let mut sorted = palette.clone();
    sorted.sort();
    assert_eq!(&sorted, palette);
    assert_eq!(bits, PaletteBitsPerIndex::Three);
    assert_eq!(packed.len(), bits.num_u32s_for_4096_indices());
    assert_eq!(subchunk.unpacked_flattened(), data);
    let grid = subchunk.unpacked_u32s();
    assert_eq!(flatten_subchunk(&grid), data);
    assert_eq!(unflatten_subchunk(&data), grid);
    assert_eq!(PalettizedSubchunk::new_unpacked_u32s(grid).unpacked_flattened(), data);
    // Three-bit packing: the first index is in the lowest bits of the first block.
    let first = palette.iter().position(|&p| p == data[0]).unwrap() as u32;
    assert_eq!(packed[0] & 0b111, first);
    // The last block holds 4096 % 10 = 6 indices; its padding bits are zero.
    assert_eq!(packed[packed.len() - 1] >> 18, 0);
}

#[test]
fn uniform_subchunk_uses_one_bit() {
    let subchunk = PalettizedSubchunk::new_unpacked_flattened([42u32; 4096]);
    let (bits, packed, palette) = subchunk.packed();
    assert_eq!(bits, PaletteBitsPerIndex::One);
    assert_eq!(packed, &vec![0u32; 128]);
    assert_eq!(palette, &vec![42]);
}

#[test]
fn packed_checks() {
    assert!(matches!(
        PalettizedSubchunk::new_packed_checked(PaletteBitsPerIndex::One, vec![0; 127], vec![1u32]),
        Err(PalettizedSubchunkCheckError::InvalidPaletteIndicesLen { expected: 128, received: 127 })
    ));
    assert!(matches!(
        PalettizedSubchunk::<u32>::new_packed_checked(PaletteBitsPerIndex::One, vec![0; 128], vec![]),
        Err(PalettizedSubchunkCheckError::InvalidPaletteLen(0))
    ));
    let mut packed = vec![0u32; 128];
    packed[3] = 1 << 5;
    assert!(matches!(
        PalettizedSubchunk::new_packed_checked(PaletteBitsPerIndex::One, packed.clone(), vec![1u32]),
        Err(PalettizedSubchunkCheckError::IndexTooLarge { palette_len: 1, index: 1 })
    ));
    let ok = PalettizedSubchunk::new_packed_checked(PaletteBitsPerIndex::One, packed, vec![1u32, 2]).unwrap();
    let flat = ok.unpacked_flattened();
    assert_eq!(flat[3 * 32 + 5], 2);
    assert_eq!(flat[0], 1);
    assert_eq!(ok.palette_len(), 2);
    assert_eq!(ok.packed_indices_len(), 128);
}

#[test]
fn storage_roundtrip() {
    let mut data = [3u32; 4096];
    data[100] = 8;
    let storage = PalettizedStorage::Palettized(PalettizedSubchunk::new_unpacked_flattened(data));
    let bytes = storage.to_bytes(PaletteType::Runtime, true, u32_palette_bytes).unwrap();
    assert_eq!(bytes[0], 3);
    assert_eq!(bytes.len(), 1 + 4 * 128 + 4 + 8);
    let mut reader = ByteReader::new(&bytes[1..]);
    let parsed = PalettizedStorage::parse(&mut reader, storage.bits_per_index(), u32_palette).unwrap();
    assert_eq!(reader.position(), bytes.len() - 1);
    match parsed {
        PalettizedStorage::Palettized(s) => assert_eq!(s.unpacked_flattened(), data),
        _ => panic!("expected palettized storage"),
    }
    let uniform: PalettizedStorage<u32> = PalettizedStorage::Uniform(77);
    let bytes = uniform.to_bytes(PaletteType::Persistent, false, u32_palette_bytes).unwrap();
    assert_eq!(bytes, vec![0, 77, 0, 0, 0]);
    let mut reader = ByteReader::new(&bytes[1..]);
    assert!(matches!(
        PalettizedStorage::parse(&mut reader, HeaderBitsPerIndex::Uniform, u32_palette),
        Ok(PalettizedStorage::Uniform(77))
    ));
    let empty: PalettizedStorage<u32> = PalettizedStorage::Empty;
    assert_eq!(empty.to_bytes(PaletteType::Runtime, false, u32_palette_bytes).unwrap(), vec![255]);
}

#[test]
fn storage_parse_errors() {
    let short = [0u8; 10];
    let mut reader = ByteReader::new(&short);
    assert!(matches!(
        PalettizedStorage::parse(
            &mut reader,
            HeaderBitsPerIndex::Palettized(PaletteBitsPerIndex::One),
            u32_palette,
        ),
        Err(PalettizedStorageParseError::IndexReadError)
    ));
    let no_len = [0u8; 512];
    let mut reader = ByteReader::new(&no_len);
    assert!(matches!(
        PalettizedStorage::parse(
            &mut reader,
            HeaderBitsPerIndex::Palettized(PaletteBitsPerIndex::One),
            u32_palette,
        ),
        Err(PalettizedStorageParseError::PaletteLenError)
    ));
    let mut missing_palette = vec![0u8; 512];
    missing_palette.extend(2u32.to_le_bytes());
    let mut reader = ByteReader::new(&missing_palette);
    assert!(matches!(
        PalettizedStorage::parse(
            &mut reader,
            HeaderBitsPerIndex::Palettized(PaletteBitsPerIndex::One),
            u32_palette,
        ),
        Err(PalettizedStorageParseError::PaletteParseError((), 2))
    ));
}

#[test]
fn le_u32s() {
    let bytes = [1u8, 0, 0, 0, 2, 0, 0, 0, 9];
    let mut reader = ByteReader::new(&bytes);
    assert_eq!(read_le_u32s(&mut reader, 2), Some(vec![1, 2]));
    assert_eq!(read_le_u32s(&mut reader, 1), None);
    assert_eq!(reader.position(), 8);
    let mut out = Vec::new();
    write_le_u32s(&[1, 0x01020304], &mut out).unwrap();
    assert_eq!(out, vec![1, 0, 0, 0, 4, 3, 2, 1]);
}

#[test]
fn le_u32s_write_read_back() {
    let u32s = [7u32, 0xDEAD_BEEF, 0, u32::MAX];
    let mut bytes = vec![0xAA, 0xBB];
    let old_len = bytes.len();
    write_le_u32s(&u32s, &mut bytes).unwrap();
    assert_eq!(bytes.len(), old_len + 4 * u32s.len());
    assert_eq!(&bytes[..old_len], &[0xAA, 0xBB]);
    let mut reader = ByteReader::new(&bytes[old_len..]);
    assert_eq!(read_le_u32s(&mut reader, u32s.len()), Some(u32s.to_vec()));
}

#[test]
fn new_unpacked_flattened_copy_matches_u32_packing() {
    let mut data = [0u32; 4096];
    for (i, v) in data.iter_mut().enumerate() {
        *v = ((i * 7) % 5) as u32 * 100;
    }
    let a = PalettizedSubchunk::new_unpacked_flattened(data);
    let b = PalettizedSubchunk::new_unpacked_flattened_copy(data);
    assert_eq!(a.packed(), b.packed());
    assert_eq!(b.packed().2, &vec![0, 100, 200, 300, 400]);
    assert_eq!(b.unpacked_flattened(), data);
}

#[test]
fn new_unpacked_flattened_copy_signed_values() {
    let mut data = [0i64; 4096];
    for (i, v) in data.iter_mut().enumerate() {
        *v = if i % 2 == 0 { -5 } else { 3 };
    }
    let s = PalettizedSubchunk::new_unpacked_flattened_copy(data);
    let (bits, packed, palette) = s.packed();
    assert_eq!(bits, PaletteBitsPerIndex::One);
    assert_eq!(palette, &vec![-5, 3]);
    assert_eq!(packed.len(), 128);
    assert_eq!(packed[0], 0xAAAA_AAAA);
    assert_eq!(s.unpacked_flattened(), data);
}

#[test]
fn new_unpacked_flattened_copy_uniform_tuples() {
    let data = [(1u8, 2u8); 4096];
    let s = PalettizedSubchunk::new_unpacked_flattened_copy(data);
    let (bits, packed, palette) = s.packed();
    assert_eq!(bits, PaletteBitsPerIndex::One);
    assert_eq!(palette, &vec![(1, 2)]);
    assert!(packed.iter().all(|block| *block == 0));
}
