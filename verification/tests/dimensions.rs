use prismarine_anchor::values::dimensions::{
    CustomDimensionName, CustomDimensionNumber, Dimension, NamedDimension, NumericDimension,
    VanillaDimension,
};

#[test]
fn vanilla_names_and_numbers() {
    for (v, java, bedrock, jn, bn) in [
        (VanillaDimension::Overworld, "overworld", "Overworld", 0, 0),
        (VanillaDimension::Nether, "the_nether", "Nether", -1, 1),
        (VanillaDimension::End, "the_end", "TheEnd", 1, 2),
    ] {
        assert_eq!(v.to_java_name(), java);
        assert_eq!(v.to_bedrock_name(), bedrock);
        assert_eq!(v.to_java_numeric(), jn);
        assert_eq!(v.to_bedrock_numeric(), bn);
        assert_eq!(VanillaDimension::try_from_java_name(java), Some(v));
        assert_eq!(VanillaDimension::try_from_bedrock_name(bedrock), Some(v));
        assert_eq!(VanillaDimension::try_from_java_numeric(jn), Some(v));
        assert_eq!(VanillaDimension::try_from_bedrock_numeric(bn), Some(v));
    }
    assert_eq!(VanillaDimension::try_from_java_name("Overworld"), None);
    assert_eq!(VanillaDimension::try_from_bedrock_numeric(3), None);
    assert_eq!(VanillaDimension::try_from_java_numeric(2), None);
}

#[test]
fn numeric_dimensions() {
    assert_eq!(NumericDimension::from_java_numeric(-1), NumericDimension::Vanilla(VanillaDimension::Nether));
    assert_eq!(NumericDimension::from_java_numeric(7), NumericDimension::CustomNumeric(CustomDimensionNumber(7)));
    assert_eq!(NumericDimension::from_bedrock_numeric(2), NumericDimension::Vanilla(VanillaDimension::End));
    assert_eq!(
        NumericDimension::from_bedrock_numeric(u32::MAX),
        NumericDimension::CustomNumeric(CustomDimensionNumber(-1))
    );
    assert_eq!(NumericDimension::CustomNumeric(CustomDimensionNumber(-1)).to_bedrock_numeric(), u32::MAX);
    assert_eq!(NumericDimension::Vanilla(VanillaDimension::Nether).to_java_numeric(), -1);
}

#[test]
fn named_dimensions() {
    let custom = NamedDimension::from_java_name("mod:dim");
    assert_eq!(custom, NamedDimension::CustomNamed(CustomDimensionName("mod:dim".into())));
    assert_eq!(custom.as_java_name(), "mod:dim");
    assert_eq!(NamedDimension::from_bedrock_name("TheEnd"), NamedDimension::Vanilla(VanillaDimension::End));
    assert_eq!(&*NamedDimension::Vanilla(VanillaDimension::End).into_java_name(), "the_end");
    assert_eq!(&*NamedDimension::Vanilla(VanillaDimension::Nether).into_bedrock_name(), "Nether");
    assert_eq!(NamedDimension::Vanilla(VanillaDimension::Overworld).as_bedrock_name(), "Overworld");
}

#[test]
fn dimension_views() {
    let d = Dimension::CustomNumeric(CustomDimensionNumber(9));
    assert_eq!(d.numeric(), Some(NumericDimension::CustomNumeric(CustomDimensionNumber(9))));
    assert_eq!(d.named(), None);
    let n = Dimension::CustomNamed(CustomDimensionName("x".into()));
    assert_eq!(n.numeric(), None);
    assert_eq!(n.named(), Some(NamedDimension::CustomNamed(CustomDimensionName("x".into()))));
    let v = Dimension::Vanilla(VanillaDimension::Nether);
    assert_eq!(v.numeric(), Some(NumericDimension::Vanilla(VanillaDimension::Nether)));
    assert_eq!(v.named(), Some(NamedDimension::Vanilla(VanillaDimension::Nether)));
}
