use prismarine_anchor::translation::datatypes::NumericVersion;
use prismarine_anchor::values::actor_digest_version::ActorDigestVersion;
use prismarine_anchor::values::biome_state::{
    BiomeState, BytesPerBiome, OneByteBiomeStates, TwoByteBiomeStates,
};
use prismarine_anchor::values::blending_data::BlendingData;
use prismarine_anchor::values::block_volume::BlockVolume;
use prismarine_anchor::values::checksums::{ChecksumType, Checksums};
use prismarine_anchor::values::chunk_position::{ChunkPosition, DimensionedChunkPos};
use prismarine_anchor::values::chunk_version::ChunkVersion;
use prismarine_anchor::values::dimensions::{CustomDimensionNumber, NumericDimension, VanillaDimension};
use prismarine_anchor::values::finalized_state::FinalizedState;
use prismarine_anchor::values::hardcoded_spawners::{
    HardcodedSpawnerType, HardcodedSpawners, SpawnersToBytesError,
};
use prismarine_anchor::values::level_spawn_was_fixed::LevelSpawnWasFixed;
use prismarine_anchor::values::metadata::{BlendingVersion, GeneratorType, MetaDataType};
use prismarine_anchor::values::{DataFidelity, HandleExcessiveLength, ValueToBytesOptions};

fn nv(a: u32, b: u32, c: u32) -> NumericVersion {
    NumericVersion(a, b, c, 0, 0)
}

#[test]
fn chunk_version_bytes() {
    for b in 0u8..42 {
        let v = ChunkVersion::parse(b).unwrap();
        assert_eq!(v.to_byte(), b);
        assert_eq!(u8::from(v), b);
        assert_eq!(ChunkVersion::try_from(b), Ok(v));
    }
    assert_eq!(ChunkVersion::parse(42), None);
    assert_eq!(ChunkVersion::parse(255), None);
    assert!(ChunkVersion::try_from(42u8).is_err());
}

#[test]
fn chunk_version_legacy() {
    assert!(ChunkVersion::V19.should_be_in_legacy_version());
    assert!(!ChunkVersion::V20.should_be_in_legacy_version());
    assert!(ChunkVersion::game_uses_legacy_version(nv(1, 16, 0)));
    assert!(ChunkVersion::game_uses_legacy_version(NumericVersion(1, 16, 100, 55, 0)));
    assert!(!ChunkVersion::game_uses_legacy_version(NumericVersion(1, 16, 100, 56, 0)));
    assert!(!ChunkVersion::game_uses_legacy_version(nv(1, 21, 0)));
}

#[test]
fn chunk_version_lowest_game_version() {
    assert_eq!(ChunkVersion::V0.lowest_game_version(), nv(0, 9, 0));
    assert_eq!(ChunkVersion::V20.lowest_game_version(), NumericVersion(1, 16, 100, 56, 0));
    assert_eq!(ChunkVersion::V41.lowest_game_version(), nv(1, 21, 40));
}

#[test]
fn chunk_version_for_game_versions() {
    assert_eq!(ChunkVersion::chunk_version_for(nv(0, 8, 0)), None);
    assert_eq!(ChunkVersion::chunk_version_for(nv(0, 9, 0)), Some(ChunkVersion::V0));
    assert_eq!(ChunkVersion::chunk_version_for(nv(0, 9, 1)), Some(ChunkVersion::V0));
    // Two versions share 0.18.0; the lowest is chosen.
    assert_eq!(ChunkVersion::chunk_version_for(nv(0, 18, 0)), Some(ChunkVersion::V4));
    assert_eq!(ChunkVersion::chunk_version_for(nv(1, 2, 0)), Some(ChunkVersion::V6));
    assert_eq!(ChunkVersion::chunk_version_for(nv(1, 16, 0)), Some(ChunkVersion::V18));
    assert_eq!(ChunkVersion::chunk_version_for(nv(1, 14, 0)), Some(ChunkVersion::V15));
    assert_eq!(ChunkVersion::chunk_version_for(nv(1, 17, 0)), Some(ChunkVersion::V22));
    assert_eq!(ChunkVersion::chunk_version_for(nv(1, 18, 0)), Some(ChunkVersion::V39));
    assert_eq!(ChunkVersion::chunk_version_for(nv(1, 21, 40)), Some(ChunkVersion::V41));
    assert_eq!(ChunkVersion::chunk_version_for(nv(9, 0, 0)), Some(ChunkVersion::V41));
}

#[test]
fn chunk_version_for_caves_and_cliffs() {
    assert_eq!(ChunkVersion::chunk_version_for_caves_and_cliffs(nv(1, 17, 0)), Some(ChunkVersion::V25));
    assert_eq!(ChunkVersion::chunk_version_for_caves_and_cliffs(nv(1, 17, 30)), Some(ChunkVersion::V29));
    assert_eq!(ChunkVersion::chunk_version_for_caves_and_cliffs(nv(1, 17, 40)), Some(ChunkVersion::V31));
    assert_eq!(ChunkVersion::chunk_version_for_caves_and_cliffs(nv(0, 1, 0)), None);
    // Outside 1.17 both agree.
    for v in [nv(0, 9, 0), nv(1, 2, 5), nv(1, 16, 210), nv(1, 18, 30), nv(1, 20, 0)] {
        assert_eq!(
            ChunkVersion::chunk_version_for_caves_and_cliffs(v),
            ChunkVersion::chunk_version_for(v),
        );
    }
}

#[test]
fn actor_digest_version_byte() {
    assert_eq!(u8::from(ActorDigestVersion::V1_18_30), 0);
    assert_eq!(ActorDigestVersion::try_from(0u8), Ok(ActorDigestVersion::V1_18_30));
    assert!(ActorDigestVersion::try_from(1u8).is_err());
}

#[test]
fn finalized_state_bytes() {
    assert_eq!(FinalizedState::parse(&[2, 0, 0, 0]), Some(FinalizedState::Done));
    assert_eq!(FinalizedState::parse(&[0, 0, 0, 0]), Some(FinalizedState::NeedsInstaticking));
    assert_eq!(FinalizedState::parse(&[1, 0, 0, 0]), Some(FinalizedState::NeedsPopulation));
    assert_eq!(FinalizedState::parse(&[3, 0, 0, 0]), None);
    assert_eq!(FinalizedState::parse(&[2, 0, 0]), None);
    assert_eq!(FinalizedState::parse(&[2, 0, 0, 1]), None);
    assert_eq!(FinalizedState::NeedsPopulation.to_bytes(), vec![1, 0, 0, 0]);
    let mut bytes = vec![9];
    FinalizedState::Done.extend_serialized(&mut bytes);
    assert_eq!(bytes, vec![9, 2, 0, 0, 0]);
    assert_eq!(u32::from(FinalizedState::Done), 2);
    assert_eq!(FinalizedState::try_from(1u32), Ok(FinalizedState::NeedsPopulation));
}

#[test]
fn level_spawn_was_fixed_text() {
    assert_eq!(LevelSpawnWasFixed::parse(b"True"), Some(LevelSpawnWasFixed(true)));
    assert_eq!(LevelSpawnWasFixed::parse(b"False"), Some(LevelSpawnWasFixed(false)));
    assert_eq!(LevelSpawnWasFixed::parse(b"true"), None);
    assert_eq!(LevelSpawnWasFixed::parse(b""), None);
    assert_eq!(LevelSpawnWasFixed(true).to_bytes(), b"True".to_vec());
    assert_eq!(LevelSpawnWasFixed(false).to_bytes(), b"False".to_vec());
}

fn volume_bytes(values: [i32; 6]) -> [u8; 24] {
    let mut out = [0u8; 24];
    for (i, v) in values.iter().enumerate() {
        out[4 * i..4 * i + 4].copy_from_slice(&v.to_le_bytes());
    }
    out
}

#[test]
fn block_volume_parse_and_write() {
    let bytes = volume_bytes([1, -2, 3, 4, 5, 3]);
    let v = BlockVolume::parse(bytes).unwrap();
    assert_eq!((v.low_x, v.low_y, v.low_z), (1, -2, 3));
    assert_eq!((v.width_x, v.width_y, v.width_z), (4, 8, 1));
    assert_eq!(v.to_bytes(), bytes.to_vec());
    assert_eq!(BlockVolume::parse(volume_bytes([5, 0, 0, 4, 0, 0])), None);
    // The widest span is capped at u32::MAX, and written back one short.
    let wide = BlockVolume::parse(volume_bytes([i32::MIN, 0, 0, i32::MAX, 0, 0])).unwrap();
    assert_eq!(wide.width_x, u32::MAX);
    assert_eq!(wide.to_bytes(), volume_bytes([i32::MIN, 0, 0, i32::MAX - 1, 0, 0]).to_vec());
    // A highest coordinate past i32::MAX is written as i32::MAX.
    let big = BlockVolume { low_x: i32::MAX, low_y: 0, low_z: 0, width_x: 10, width_y: 1, width_z: 1 };
    assert_eq!(big.to_bytes(), volume_bytes([i32::MAX, 0, 0, i32::MAX, 0, 0]).to_vec());
}

#[test]
fn biome_states_one_byte() {
    let bytes = [2u8, 7, 1, 9, 3];
    match BiomeState::parse(&bytes).unwrap() {
        BiomeState::OneByteBiomes(states) => {
            assert_eq!(states.inner(), &vec![(7, 1), (9, 3)]);
            assert_eq!(states.get_biome(9), Some(3));
            assert_eq!(states.get_biome(8), None);
            assert_eq!(states.keys(), vec![7, 9]);
            assert_eq!(states.values(), vec![1, 3]);
            assert_eq!(BiomeState::OneByteBiomes(states).to_bytes(), bytes.to_vec());
        }
        other => panic!("unexpected {other:?}"),
    }
    // A repeated biome is refused.
    assert_eq!(BiomeState::parse(&[2, 7, 1, 7, 3]), None);
    assert_eq!(BiomeState::parse(&[]), None);
}

#[test]
fn biome_states_two_byte() {
    let states = TwoByteBiomeStates::new(vec![(300, 1), (5, 2)]).unwrap();
    let bytes = BiomeState::TwoByteBiomes(states.clone()).to_bytes();
    assert_eq!(bytes, vec![2, 0, 0x2C, 0x01, 1, 5, 0, 2]);
    assert_eq!(BiomeState::parse(&bytes), Some(BiomeState::TwoByteBiomes(states)));
    assert!(TwoByteBiomeStates::new(vec![(1, 1), (1, 2)]).is_none());
}

#[test]
fn biome_states_set() {
    let mut states = OneByteBiomeStates::new(vec![(1, 10)]).unwrap();
    assert_eq!(states.set_biome(1, 11), Some(10));
    assert_eq!(states.set_biome(2, 20), None);
    assert_eq!(states.entries(), vec![(1, 11), (2, 20)]);
    assert_eq!(states.into_inner(), vec![(1, 11), (2, 20)]);
    assert_eq!(u8::from(BytesPerBiome::Two), 2);
    assert_eq!(BytesPerBiome::try_from(1u8), Ok(BytesPerBiome::One));
    assert!(BytesPerBiome::try_from(3u8).is_err());
}

#[test]
fn chunk_position_bytes() {
    let mut bytes = Vec::new();
    bytes.extend(5i32.to_le_bytes());
    bytes.extend((-7i32).to_le_bytes());
    let p = DimensionedChunkPos::new_raw(&bytes).unwrap();
    assert_eq!(p.position(), ChunkPosition { x: 5, z: -7 });
    assert_eq!(p.dimension(), NumericDimension::Vanilla(VanillaDimension::Overworld));
    assert_eq!(p.to_bytes(false), bytes);
    let mut with_id = bytes.clone();
    with_id.extend(0u32.to_le_bytes());
    assert_eq!(p.to_bytes(true), with_id);
    let mut nether = bytes.clone();
    nether.extend(1u32.to_le_bytes());
    let q = DimensionedChunkPos::try_from(nether.as_slice()).unwrap();
    assert_eq!(q.dimension(), NumericDimension::Vanilla(VanillaDimension::Nether));
    assert_eq!(q.to_bytes(false), nether);
    let mut custom = bytes.clone();
    custom.extend(77u32.to_le_bytes());
    let c = DimensionedChunkPos::new_raw(&custom).unwrap();
    assert_eq!(c.dimension(), NumericDimension::CustomNumeric(CustomDimensionNumber(77)));
    assert!(DimensionedChunkPos::new_raw(&bytes[..7]).is_none());
}

#[test]
fn checksum_types() {
    assert_eq!(ChecksumType::parse(45, 0), Some(ChecksumType::Data2D));
    assert_eq!(ChecksumType::parse(45, 1), None);
    assert_eq!(ChecksumType::parse(47, -4), Some(ChecksumType::SubchunkBlocks(-4)));
    assert_eq!(ChecksumType::parse(49, 0), Some(ChecksumType::BlockEntities));
    assert_eq!(ChecksumType::parse(50, 0), Some(ChecksumType::Entities));
    assert_eq!(ChecksumType::parse(51, 0), None);
    assert_eq!(ChecksumType::SubchunkBlocks(3).to_tag_and_subtag(), (47, 3));
    assert_eq!(ChecksumType::Entities.to_tag_and_subtag(), (50, 0));
}

fn checksum_record(tag: u16, subtag: i8, checksum: u64) -> Vec<u8> {
    let mut record = tag.to_le_bytes().to_vec();
    record.push(subtag as u8);
    record.extend_from_slice(&checksum.to_le_bytes());
    record
}

#[test]
fn checksums_parse_in_order() {
    let mut value = 3u32.to_le_bytes().to_vec();
    value.extend(checksum_record(45, 0, 1));
    value.extend(checksum_record(47, -1, 0x0102_0304_0506_0708));
    value.extend(checksum_record(45, 0, 9));

    let checksums = Checksums::parse(&value).unwrap();
    let entries: Vec<(ChecksumType, u64)> =
        checksums.0.iter().map(|(kind, checksum)| (*kind, *checksum)).collect();
    // A repeated kind keeps its first place and takes the last checksum.
    assert_eq!(
        entries,
        vec![
            (ChecksumType::Data2D, 9),
            (ChecksumType::SubchunkBlocks(-1), 0x0102_0304_0506_0708),
        ],
    );
    assert_eq!(checksums.clone(), checksums);

    let empty = Checksums::parse(&0u32.to_le_bytes()).unwrap();
    assert!(empty.0.is_empty());
}

#[test]
fn checksums_parse_rejects() {
    // Too short for the count.
    assert_eq!(Checksums::parse(&[1, 0, 0]), None);
    // A count that does not match the length.
    let mut value = 2u32.to_le_bytes().to_vec();
    value.extend(checksum_record(45, 0, 1));
    assert_eq!(Checksums::parse(&value), None);
    // A record of no known kind.
    let mut value = 2u32.to_le_bytes().to_vec();
    value.extend(checksum_record(45, 0, 1));
    value.extend(checksum_record(49, 2, 1));
    assert_eq!(Checksums::parse(&value), None);
}

#[test]
fn blending_data_forms() {
    assert_eq!(BlendingData::parse(&[0]), Some(BlendingData::Zero));
    assert_eq!(BlendingData::parse(&[0, 5]), Some(BlendingData::Version { version: 5 }));
    assert_eq!(BlendingData::parse(&[0, 5, 6]), None);
    assert_eq!(BlendingData::parse(&[2]), None);
    assert_eq!(BlendingData::parse(&[]), None);
    let mut data = [None; 16];
    data[0] = Some(-3i16);
    data[5] = Some(100);
    let value = BlendingData::VersionAndData { version: 9, i16_data: data, i8_data: -1 };
    let bytes = value.to_bytes();
    assert_eq!(bytes.len(), 35);
    assert_eq!(&bytes[..4], &[1, 9, 0xFD, 0xFF]);
    assert_eq!(&bytes[4..6], &[0xFF, 0x7F]);
    assert_eq!(bytes[34], 0xFF);
    assert_eq!(BlendingData::parse(&bytes), Some(value));
    assert_eq!(BlendingData::parse(&bytes[..34]), None);
    assert_eq!(BlendingData::Zero.to_bytes(), vec![0]);
    assert_eq!(BlendingData::Version { version: 3 }.to_bytes(), vec![0, 3]);
}

#[test]
fn hardcoded_spawners_bytes() {
    let opts = ValueToBytesOptions {
        data_fidelity: DataFidelity::Semantic,
        handle_excessive_length: HandleExcessiveLength::ReturnError,
    };
    let mut bytes = vec![2u8, 0, 0, 0];
    bytes.extend(volume_bytes([0, 0, 0, 1, 1, 1]));
    bytes.push(2);
    bytes.extend(volume_bytes([-5, 10, 2, -5, 12, 2]));
    bytes.push(6);
    let spawners = HardcodedSpawners::parse(&bytes).unwrap();
    assert_eq!(spawners.0.len(), 2);
    assert_eq!(spawners.0[0].1, HardcodedSpawnerType::WitchHut);
    assert_eq!(spawners.0[1].1, HardcodedSpawnerType::NewerLegacyVillageCat);
    assert_eq!(spawners.0[1].0.width_y, 3);
    assert_eq!(spawners.to_bytes(opts).unwrap(), bytes);
    let mut bad_kind = bytes.clone();
    bad_kind[28] = 7;
    assert_eq!(HardcodedSpawners::parse(&bad_kind), None);
    assert_eq!(HardcodedSpawners::parse(&bytes[..bytes.len() - 1]), None);
    assert_eq!(HardcodedSpawners::parse(&[0, 0, 0]), None);
    assert_eq!(HardcodedSpawners::parse(&[0, 0, 0, 0]), Some(HardcodedSpawners(vec![])));
    assert_eq!(u8::from(HardcodedSpawnerType::NetherFortress), 1);
    assert!(HardcodedSpawnerType::try_from(0u8).is_err());
    let _ = SpawnersToBytesError::ExcessiveLength;
}

#[test]
fn metadata_kinds() {
    assert_eq!(u8::from(MetaDataType::SkullFlatteningPerformed), 13);
    assert_eq!(MetaDataType::try_from(4u8), Ok(MetaDataType::GenerationSeed));
    assert!(MetaDataType::try_from(14u8).is_err());
    assert_eq!(<&'static str>::from(MetaDataType::DimensionName), "DimensionName");
    assert_eq!(MetaDataType::try_from("BlendingVersion"), Ok(MetaDataType::BlendingVersion));
    assert!(MetaDataType::try_from("blendingversion").is_err());
    assert_eq!(i16::from(BlendingVersion::V1_21_60), 7);
    assert_eq!(BlendingVersion::try_from(4i16), Ok(BlendingVersion::V1_20_0));
    assert!(BlendingVersion::try_from(-1i16).is_err());
    assert_eq!(i32::from(GeneratorType::Flat), 2);
    assert_eq!(GeneratorType::try_from(0i32), Ok(GeneratorType::Old));
    assert!(GeneratorType::try_from(3i32).is_err());
}
