use prismarine_anchor::entries::{
    EntryBytes, EntryParseOptions, EntryToBytesError, EntryToBytesOptions, KeyToBytesOptions,
    ValueToBytesError,
};
use prismarine_anchor::translation::datatypes::{GameVersion, NumericVersion, VersionName};
use prismarine_anchor::translators::code_functions::{
    CodeFunction, CodeFunctionInput, CodeFunctionOutput,
};
use prismarine_anchor::translators::headers::{
    BlockEntityCoordFormat, BlockEntityFormat, BlockFormat, EntityCoordFormat, EntityFormat,
    Platform, VersionMetadata,
};
use prismarine_anchor::values::byte_text::debug_text;
use prismarine_anchor::values::data_2d::Data2D;
use prismarine_anchor::values::hardcoded_spawners::SpawnersToBytesError;
use prismarine_anchor::values::legacy_data_2d::{LegacyBiomeColor, LegacyData2D};
use prismarine_anchor::values::subchunk_blocks::LegacySubchunkBlocks;
use prismarine_anchor::values::uuid::UUID;
use prismarine_anchor::values::{
    DataFidelity, HandleExcessiveLength, OverworldElision, ValueParseOptions, ValueToBytesOptions,
};

#[test]
fn uuid_parse_and_write() {
    let text = "002494ea-22dc-4fec-b590-4ea523338c20";
    let uuid = UUID::new(text).unwrap();
    assert_eq!(uuid, UUID([0x002494ea, 0x22dc4fec, 0xb5904ea5, 0x23338c20]));
    assert_eq!(uuid.to_string(), text);
    assert_eq!(uuid.to_bytes(), text.as_bytes().to_vec());
    assert_eq!(UUID::new("002494EA-22DC-4FEC-B590-4EA523338C20"), Some(uuid));
    assert_eq!(UUID::try_from(text), Ok(uuid));
    // The groups must be separated by hyphens.
    assert_eq!(UUID::new("002494eaX22dcY4fecZb590W4ea523338c20"), None);
    assert_eq!(UUID::new("002494ea-22dc-4fec-b590-4ea523338c2"), None);
    assert_eq!(UUID::new("002494ea-22dc-4fec-b590-4ea523338c2g"), None);
    assert_eq!(UUID::new("002494ea-22dc-4fec-b590é4ea523338c20"), None);
    let mut bytes = vec![1u8];
    UUID([0, 0, 0, 1]).extend_serialized(&mut bytes);
    assert_eq!(&bytes[1..], b"00000000-0000-0000-0000-000000000001");
}

#[test]
fn legacy_subchunk_blocks() {
    let mut value = vec![3u8];
    value.extend((0..4096u32).map(|i| (i % 251) as u8));
    value.extend((0..2048u32).map(|i| (i % 13) as u8));
    let parsed = LegacySubchunkBlocks::parse(&value).unwrap();
    assert_eq!(parsed.version, 3);
    assert_eq!(parsed.block_ids[300], (300 % 251) as u8);
    assert_eq!(parsed.skylight, None);
    assert_eq!(parsed.to_bytes(), value);
    let mut with_sky = value.clone();
    with_sky.extend(vec![7u8; 2048]);
    assert_eq!(LegacySubchunkBlocks::parse(&with_sky).unwrap().skylight, Some([7u8; 2048]));
    let mut with_both = with_sky.clone();
    with_both.extend(vec![9u8; 2048]);
    let both = LegacySubchunkBlocks::parse(&with_both).unwrap();
    assert_eq!(both.blocklight, Some([9u8; 2048]));
    assert_eq!(both.to_bytes(), with_both);
    let mut only_block = both.clone();
    only_block.skylight = None;
    let written = only_block.to_bytes();
    assert_eq!(&written[6145..8193], &[0u8; 2048][..]);
    let mut bad_version = value.clone();
    bad_version[0] = 1;
    assert_eq!(LegacySubchunkBlocks::parse(&bad_version), None);
    assert_eq!(LegacySubchunkBlocks::parse(&value[..6144]), None);
}

#[test]
fn data_2d_roundtrip() {
    let mut value = Vec::new();
    for i in 0..256u32 {
        value.extend(((i * 3) as u16).to_le_bytes());
    }
    value.extend((0..256u32).map(|i| (i % 7) as u8));
    let data = Data2D::parse(&value).unwrap();
    assert_eq!(data.heightmap[1][2], (18 * 3) as u16);
    assert_eq!(data.biome_ids[15][15], (255 % 7) as u8);
    assert_eq!(data.flattened_heightmap()[18], 54);
    assert_eq!(data.flattened_biome_ids()[10], 3);
    assert_eq!(data.to_bytes(), value);
    assert!(Data2D::parse(&value[..767]).is_none());
}

#[test]
fn legacy_data_2d_roundtrip() {
    let mut value = Vec::new();
    for i in 0..256u32 {
        value.extend((i as u16).to_le_bytes());
    }
    for i in 0..256u32 {
        value.extend([(i % 5) as u8, 10, 20, (i % 3) as u8]);
    }
    let data = LegacyData2D::parse(&value).unwrap();
    assert_eq!(data.heightmap[0][5], 5);
    assert_eq!(data.biome_ids[0][7], 2);
    assert_eq!(data.biome_colors[0][4], LegacyBiomeColor { red: 10, green: 20, blue: 1 });
    assert_eq!(data.flattened_biome_colors()[4].blue, 1);
    assert_eq!(data.flattened_heightmap()[255], 255);
    assert_eq!(data.flattened_biome_ids()[6], 1);
    assert_eq!(data.to_bytes(), value);
    assert!(LegacyData2D::parse(&value[1..]).is_none());
}

#[test]
fn entry_options() {
    let old = KeyToBytesOptions::for_version(NumericVersion(1, 20, 30, 0, 0));
    assert_eq!(old.write_overworld_id, OverworldElision::AlwaysElide);
    assert_eq!(old.write_overworld_name, OverworldElision::AlwaysElide);
    let new = KeyToBytesOptions::for_version(NumericVersion(1, 20, 40, 0, 0));
    assert_eq!(new.write_overworld_name, OverworldElision::AlwaysWrite);
    let entry = EntryToBytesOptions::for_version(NumericVersion(1, 21, 51, 0, 0));
    assert_eq!(entry.write_overworld_id, OverworldElision::AlwaysElide);
    assert_eq!(entry.write_overworld_name, OverworldElision::AlwaysWrite);
    assert_eq!(entry.handle_excessive_length, HandleExcessiveLength::ReturnError);
    assert_eq!(entry.value_fidelity, DataFidelity::Semantic);
    assert_eq!(KeyToBytesOptions::from(entry), new);
    let value_opts = ValueToBytesOptions::from(entry);
    assert_eq!(value_opts.handle_excessive_length, HandleExcessiveLength::ReturnError);
    let parse = ValueParseOptions::from(EntryParseOptions { value_fidelity: DataFidelity::BitPerfect });
    assert_eq!(parse.data_fidelity, DataFidelity::BitPerfect);
    assert_eq!(ValueToBytesError::from(SpawnersToBytesError::ExcessiveLength), ValueToBytesError::SpawnersLength);
    let error = EntryToBytesError { key: vec![1], value_error: ValueToBytesError::ChecksumsLength };
    assert_eq!(error.key, vec![1]);
    let bytes = EntryBytes { key: vec![1], value: vec![2] };
    assert_eq!(bytes.clone(), bytes);
}

#[test]
fn length_handling() {
    assert_eq!(HandleExcessiveLength::ReturnError.length_to_u32(5), Some((5, 5)));
    assert_eq!(HandleExcessiveLength::ReturnError.length_to_u16(70000), None);
    assert_eq!(HandleExcessiveLength::SilentlyTruncate.length_to_u16(70000), Some((65535, 65535)));
    assert_eq!(HandleExcessiveLength::SilentlyTruncate.length_to_u16(7), Some((7, 7)));
}

#[test]
fn code_functions() {
    assert_eq!(<&'static str>::from(CodeFunction::BedrockSign2uUpdated), "bedrock_sign_2u_120");
    assert_eq!(CodeFunction::BedrockChestFu.input_type(), CodeFunctionInput::PropertiesPosition);
    assert_eq!(CodeFunction::BedrockChestFu.output_type(), CodeFunctionOutput::NewNbt);
    assert_eq!(CodeFunction::BedrockSkullRotation2u.output_type(), CodeFunctionOutput::NewProperties);
    assert_eq!(CodeFunction::BedrockMovingBlockPosFu.input_type(), CodeFunctionInput::NbtPosition);
    assert_eq!(CodeFunctionInput::NbtPropertiesPosition.to_vec(), vec!["nbt", "properties", "location"]);
    assert_eq!(CodeFunctionOutput::NewProperties.to_vec(), vec!["new_properties"]);
}

#[test]
fn version_metadata() {
    let meta = VersionMetadata::from_header(
        BlockFormat::Blockstate,
        BlockEntityFormat::StrId,
        BlockEntityCoordFormat::IntXYZ,
        EntityFormat::NamespaceStrId,
        EntityCoordFormat::PosListFloat,
        Platform::Java,
        &[1, 20],
        Some(3465),
    );
    assert_eq!(meta.version, GameVersion::Java(VersionName::Numeric(NumericVersion(1, 20, 0, 0, 0))));
    assert_eq!(meta.data_version, Some(3465));
    let universal = VersionMetadata::from_header(
        BlockFormat::Numerical,
        BlockEntityFormat::NamespaceStrId,
        BlockEntityCoordFormat::IntXYZ,
        EntityFormat::NamespaceStrId,
        EntityCoordFormat::PosListFloat,
        Platform::Universal,
        &[],
        None,
    );
    assert_eq!(universal.version, GameVersion::Universal);
}

#[test]
fn debug_text_of_bytes() {
    let mut bytes = b"various_text-characters".to_vec();
    bytes.extend([0, 1, 2, 3]);
    bytes.extend(b"more_text");
    bytes.extend([255, 255]);
    assert_eq!(
        debug_text(&bytes),
        "various_text-characters[0,1,2,3,]more_text[255,255,]"
    );
    assert_eq!(debug_text(b"a.b"), "a.b[]");
    assert_eq!(debug_text(&[7, 42, 200]), "[7,42,200,]");
    assert_eq!(debug_text(&[]), "");
}
