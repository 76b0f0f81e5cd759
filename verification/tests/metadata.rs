use prismarine_anchor::iron_nbt::tag::{NbtCompound, NbtTag};
use prismarine_anchor::values::dimensions::{CustomDimensionName, NamedDimension, VanillaDimension};
use prismarine_anchor::values::metadata::{str_lt, BlendingVersion, GeneratorType, MetaData};

fn entry(name: &str, tag: NbtTag) -> (String, NbtTag) {
    (name.to_owned(), tag)
}

fn range(max: i16, min: i16) -> NbtTag {
    NbtTag::Compound(NbtCompound(vec![entry("max", NbtTag::Short(max)), entry("min", NbtTag::Short(min))]))
}

fn names(compound: &NbtCompound) -> Vec<&str> {
    compound.0.iter().map(|(name, _)| name.as_str()).collect()
}

#[test]
fn metadata_from_well_formed_compound() {
    let compound = NbtCompound(vec![
        entry("BiomeBaseGameVersion", NbtTag::String("1.21.50".to_owned())),
        entry("BlendingVersion", NbtTag::Short(7)),
        entry("DimensionName", NbtTag::String("Overworld".to_owned())),
        entry("GenerationSeed", NbtTag::Long(-1)),
        entry("GeneratorType", NbtTag::Int(1)),
        entry("LastSavedBaseGameVersion", NbtTag::String("1.21.60".to_owned())),
        entry("LastSavedDimensionHeightRange", range(320, -64)),
        entry("OriginalBaseGameVersion", NbtTag::String("1.18.0".to_owned())),
        entry("OriginalDimensionHeightRange", range(256, 0)),
        entry("Overworld1_18HeightExtended", NbtTag::Short(1)),
        entry("SkullFlatteningPerformed", NbtTag::Short(0)),
        entry("UnderwaterLavaLakeFixed", NbtTag::Short(1)),
        entry("WorldGen1_18AppliedBelow0", NbtTag::Short(1)),
        entry("WorldGenBelowZeroFixed", NbtTag::Short(0)),
    ]);
    let meta = MetaData::from_compound(compound);
    assert_eq!(meta.biome_base_game_version.as_deref(), Some("1.21.50"));
    assert_eq!(meta.blending_version, Some(BlendingVersion::V1_21_60));
    assert_eq!(meta.dimension_name, Some(NamedDimension::Vanilla(VanillaDimension::Overworld)));
    assert_eq!(meta.generation_seed, Some(u64::MAX));
    assert_eq!(meta.generator_type, Some(GeneratorType::Infinite));
    assert_eq!(meta.last_saved_base_game_version.as_deref(), Some("1.21.60"));
    assert_eq!(meta.last_saved_dimension_height_range, Some(-64..320));
    assert_eq!(meta.original_base_game_version.as_deref(), Some("1.18.0"));
    assert_eq!(meta.original_dimension_height_range, Some(0..256));
    assert_eq!(meta.overworld_1_18_height_extended, Some(true));
    assert_eq!(meta.skull_flattening_performed, Some(false));
    assert_eq!(meta.underwater_lava_lake_fixed, Some(true));
    assert_eq!(meta.world_gen_1_18_applied_below_0, Some(true));
    assert_eq!(meta.world_gen_below_zero_fixed, Some(false));
    assert!(meta.unrecognized.0.is_empty());
}

#[test]
fn metadata_from_empty_compound() {
    let meta = MetaData::from_compound(NbtCompound(Vec::new()));
    assert_eq!(meta.last_saved_base_game_version, None);
    assert_eq!(meta.dimension_name, None);
    assert_eq!(meta.generation_seed, None);
    assert_eq!(meta.original_dimension_height_range, None);
    assert_eq!(meta.skull_flattening_performed, None);
    assert!(meta.unrecognized.0.is_empty());
}

#[test]
fn metadata_puts_aside_misfitting_tags_in_name_order() {
    let compound = NbtCompound(vec![
        entry("WorldGenBelowZeroFixed", NbtTag::Short(2)),
        entry("GeneratorType", NbtTag::Int(9)),
        entry("BlendingVersion", NbtTag::Int(1)),
        entry("GenerationSeed", NbtTag::Int(5)),
        entry("OriginalDimensionHeightRange", NbtTag::Compound(NbtCompound(vec![
            entry("max", NbtTag::Short(10)),
        ]))),
        entry("LastSavedBaseGameVersion", NbtTag::Byte(1)),
        entry("SomethingElse", NbtTag::Byte(3)),
    ]);
    let meta = MetaData::from_compound(compound);
    assert_eq!(meta.world_gen_below_zero_fixed, None);
    assert_eq!(meta.generator_type, None);
    assert_eq!(meta.blending_version, None);
    assert_eq!(meta.generation_seed, None);
    assert_eq!(meta.original_dimension_height_range, None);
    assert_eq!(meta.last_saved_base_game_version, None);
    assert_eq!(
        names(&meta.unrecognized),
        vec![
            "BlendingVersion",
            "GenerationSeed",
            "GeneratorType",
            "LastSavedBaseGameVersion",
            "OriginalDimensionHeightRange",
            "WorldGenBelowZeroFixed",
        ],
    );
    assert!(matches!(meta.unrecognized.0[0].1, NbtTag::Int(1)));
    assert!(matches!(meta.unrecognized.0[2].1, NbtTag::Int(9)));
    assert!(matches!(meta.unrecognized.0[5].1, NbtTag::Short(2)));
}

#[test]
fn metadata_custom_dimension_and_range_with_extra_entry() {
    let compound = NbtCompound(vec![
        entry("DimensionName", NbtTag::String("Moon".to_owned())),
        entry("LastSavedDimensionHeightRange", NbtTag::Compound(NbtCompound(vec![
            entry("max", NbtTag::Short(10)),
            entry("min", NbtTag::Short(0)),
            entry("mid", NbtTag::Short(5)),
        ]))),
    ]);
    let meta = MetaData::from_compound(compound);
    assert_eq!(
        meta.dimension_name,
        Some(NamedDimension::CustomNamed(CustomDimensionName("Moon".into()))),
    );
    assert_eq!(meta.last_saved_dimension_height_range, None);
    assert_eq!(names(&meta.unrecognized), vec!["LastSavedDimensionHeightRange"]);
}

#[test]
fn metadata_to_compound_sorts_and_overrides() {
    let meta = MetaData {
        last_saved_base_game_version: Some("1.21.60".to_owned()),
        original_base_game_version: None,
        biome_base_game_version: None,
        dimension_name: Some(NamedDimension::Vanilla(VanillaDimension::End)),
        generation_seed: Some(u64::MAX),
        generator_type: Some(GeneratorType::Flat),
        world_gen_1_18_applied_below_0: Some(true),
        overworld_1_18_height_extended: None,
        blending_version: Some(BlendingVersion::V1_20_0),
        original_dimension_height_range: None,
        last_saved_dimension_height_range: Some(-64..320),
        underwater_lava_lake_fixed: None,
        world_gen_below_zero_fixed: Some(false),
        skull_flattening_performed: None,
        unrecognized: NbtCompound(vec![
            entry("Zebra", NbtTag::Byte(1)),
            entry("GeneratorType", NbtTag::Int(77)),
            entry("Apple", NbtTag::Byte(2)),
            entry("SkullFlatteningPerformed", NbtTag::Short(5)),
        ]),
    };
    let compound = meta.to_compound();
    assert_eq!(
        names(&compound),
        vec![
            "Apple",
            "BlendingVersion",
            "DimensionName",
            "GenerationSeed",
            "GeneratorType",
            "LastSavedBaseGameVersion",
            "LastSavedDimensionHeightRange",
            "SkullFlatteningPerformed",
            "WorldGen1_18AppliedBelow0",
            "WorldGenBelowZeroFixed",
            "Zebra",
        ],
    );
    let tag = |name: &str| &compound.0.iter().find(|(n, _)| n == name).unwrap().1;
    assert!(matches!(tag("BlendingVersion"), NbtTag::Short(4)));
    assert!(matches!(tag("DimensionName"), NbtTag::String(s) if s == "TheEnd"));
    assert!(matches!(tag("GenerationSeed"), NbtTag::Long(-1)));
    assert!(matches!(tag("GeneratorType"), NbtTag::Int(2)));
    assert!(matches!(tag("SkullFlatteningPerformed"), NbtTag::Short(5)));
    assert!(matches!(tag("WorldGen1_18AppliedBelow0"), NbtTag::Short(1)));
    assert!(matches!(tag("WorldGenBelowZeroFixed"), NbtTag::Short(0)));
    match tag("LastSavedDimensionHeightRange") {
        NbtTag::Compound(range) => {
            assert_eq!(names(range), vec!["max", "min"]);
            assert!(matches!(range.0[0].1, NbtTag::Short(320)));
            assert!(matches!(range.0[1].1, NbtTag::Short(-64)));
        }
        _ => panic!("the range is written as a compound"),
    }
}

#[test]
fn metadata_write_then_read_gives_back_fields() {
    let meta = MetaData {
        last_saved_base_game_version: Some("1.21.60".to_owned()),
        original_base_game_version: Some("1.18.0".to_owned()),
        biome_base_game_version: None,
        dimension_name: Some(NamedDimension::CustomNamed(CustomDimensionName("Moon".into()))),
        generation_seed: Some(12345),
        generator_type: Some(GeneratorType::Old),
        world_gen_1_18_applied_below_0: Some(false),
        overworld_1_18_height_extended: Some(true),
        blending_version: Some(BlendingVersion::V1_19_0_3),
        original_dimension_height_range: Some(0..256),
        last_saved_dimension_height_range: Some(-64..320),
        underwater_lava_lake_fixed: Some(true),
        world_gen_below_zero_fixed: None,
        skull_flattening_performed: Some(true),
        unrecognized: NbtCompound(vec![entry("WorldGenBelowZeroFixed", NbtTag::Short(9))]),
    };
    let back = MetaData::from_compound(meta.to_compound());
    assert_eq!(back.last_saved_base_game_version.as_deref(), Some("1.21.60"));
    assert_eq!(back.original_base_game_version.as_deref(), Some("1.18.0"));
    assert_eq!(back.biome_base_game_version, None);
    assert_eq!(
        back.dimension_name,
        Some(NamedDimension::CustomNamed(CustomDimensionName("Moon".into()))),
    );
    assert_eq!(back.generation_seed, Some(12345));
    assert_eq!(back.generator_type, Some(GeneratorType::Old));
    assert_eq!(back.world_gen_1_18_applied_below_0, Some(false));
    assert_eq!(back.overworld_1_18_height_extended, Some(true));
    assert_eq!(back.blending_version, Some(BlendingVersion::V1_19_0_3));
    assert_eq!(back.original_dimension_height_range, Some(0..256));
    assert_eq!(back.last_saved_dimension_height_range, Some(-64..320));
    assert_eq!(back.underwater_lava_lake_fixed, Some(true));
    assert_eq!(back.world_gen_below_zero_fixed, None);
    assert_eq!(back.skull_flattening_performed, Some(true));
    assert_eq!(names(&back.unrecognized), vec!["WorldGenBelowZeroFixed"]);
    assert!(matches!(back.unrecognized.0[0].1, NbtTag::Short(9)));
}

#[test]
fn str_lt_orders_by_code_point() {
    assert!(str_lt("Apple", "Banana"));
    assert!(str_lt("Gen", "GenerationSeed"));
    assert!(!str_lt("GenerationSeed", "Gen"));
    assert!(str_lt("Z", "a"));
    assert!(!str_lt("same", "same"));
}
