use prismarine_anchor::values::data_3d::{le_u32_palette, le_u32_palette_bytes, Data3D};
use prismarine_anchor::values::palettized_storage::{PalettizedStorage, PalettizedSubchunk};

fn sample_values() -> [u32; 4096] {
    let mut values = [0u32; 4096];
    for (i, v) in values.iter_mut().enumerate() {
        *v = (i % 3) as u32 + 7;
    }
    values
}

fn sample() -> Data3D {
    let mut heightmap = [[0u16; 16]; 16];
    for x in 0..16 {
        for z in 0..16 {
            heightmap[x][z] = (x * 16 + z) as u16 + 300;
        }
    }
    Data3D {
        heightmap,
        biomes: vec![
            PalettizedStorage::Uniform(5),
            PalettizedStorage::Empty,
            PalettizedStorage::Palettized(PalettizedSubchunk::new_unpacked_flattened(
                sample_values(),
            )),
        ],
    }
}

#[test]
fn data_3d_to_bytes_layout() {
    let bytes = sample().to_bytes();
    assert_eq!(&bytes[0..2], &300u16.to_le_bytes());
    assert_eq!(&bytes[2..4], &301u16.to_le_bytes());
    assert_eq!(&bytes[32..34], &316u16.to_le_bytes());
    // A uniform runtime storage: header (0 << 1) | 1, then the value.
    assert_eq!(&bytes[512..517], &[1, 5, 0, 0, 0]);
    // An empty runtime storage: header (127 << 1) | 1.
    assert_eq!(bytes[517], 0xFF);
    // Three values need two bits per index: header (2 << 1) | 1, then 256 blocks.
    assert_eq!(bytes[518], 5);
    let len_at = 519 + 4 * 256;
    assert_eq!(&bytes[len_at..len_at + 4], &3u32.to_le_bytes());
    assert_eq!(&bytes[len_at + 4..], &[7, 0, 0, 0, 8, 0, 0, 0, 9, 0, 0, 0]);
    assert_eq!(bytes.len(), len_at + 16);
}

#[test]
fn data_3d_roundtrip() {
    let d = sample();
    let bytes = d.to_bytes();
    let back = Data3D::parse(&bytes).unwrap();
    assert_eq!(back.heightmap, d.heightmap);
    assert_eq!(back.flattened_heightmap()[17], 317);
    assert_eq!(back.biomes.len(), 3);
    assert!(matches!(back.biomes[0], PalettizedStorage::Uniform(5)));
    assert!(matches!(back.biomes[1], PalettizedStorage::Empty));
    match &back.biomes[2] {
        PalettizedStorage::Palettized(p) => assert_eq!(p.unpacked_flattened(), sample_values()),
        _ => panic!("expected a palettized storage"),
    }
    assert_eq!(back.to_bytes(), bytes);
}

#[test]
fn data_3d_rejects_bad_input() {
    // Nothing after the heights.
    assert!(Data3D::parse(&[0u8; 512]).is_none());
    // A persistent storage.
    let mut bytes = vec![0u8; 512];
    bytes.push(0);
    assert!(Data3D::parse(&bytes).is_none());
    // A uniform storage cut short.
    let mut bytes = vec![0u8; 512];
    bytes.extend([1, 5, 0, 0]);
    assert!(Data3D::parse(&bytes).is_none());
    // Invalid bits per index.
    let mut bytes = vec![0u8; 512];
    bytes.push((7 << 1) | 1);
    assert!(Data3D::parse(&bytes).is_none());
    // A single empty storage.
    let mut bytes = vec![0u8; 512];
    bytes.push(0xFF);
    let d = Data3D::parse(&bytes).unwrap();
    assert_eq!(d.biomes.len(), 1);
    assert!(matches!(d.biomes[0], PalettizedStorage::Empty));
}

#[test]
fn le_u32_palettes() {
    assert_eq!(le_u32_palette(&[1, 0, 0, 0, 2, 0, 0, 0, 9], 2), Ok((vec![1, 2], 8)));
    assert!(le_u32_palette(&[1, 0, 0], 1).is_err());
    assert_eq!(le_u32_palette_bytes(&[1, 0x0102]).unwrap(), vec![1, 0, 0, 0, 2, 1, 0, 0]);
}
