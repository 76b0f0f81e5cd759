use std::cmp::Ordering;
use std::collections::BTreeMap;

use prismarine_anchor::translation::datatypes::{
    find_char, parse_u32_decimal, split_chars, version_lt, Block, BlockProperty, GameVersion,
    IdentifierParseError, IdentifierParseOptions, NamespacedIdentifier, NumericVersion,
    VersionName, MINECRAFT_NAMESPACE, UNIVERSAL_NAMESPACE,
};

fn chars(s: &str) -> Vec<char> {
    s.chars().collect()
}

#[test]
fn numeric_version_parse() {
    assert_eq!(NumericVersion::parse("1.21.0"), Some(NumericVersion(1, 21, 0, 0, 0)));
    assert_eq!(NumericVersion::parse("1.0"), Some(NumericVersion(1, 0, 0, 0, 0)));
    assert_eq!(NumericVersion::parse("1.16.100.56"), Some(NumericVersion(1, 16, 100, 56, 0)));
    assert_eq!(NumericVersion::parse("1.2.3.4.5"), Some(NumericVersion(1, 2, 3, 4, 5)));
    assert_eq!(NumericVersion::parse("1.2.3.4.5.6"), None);
    assert_eq!(NumericVersion::parse("1"), None);
    assert_eq!(NumericVersion::parse("1."), None);
    assert_eq!(NumericVersion::parse("1.x"), None);
    assert_eq!(NumericVersion::parse("+1.2"), Some(NumericVersion(1, 2, 0, 0, 0)));
    assert_eq!(NumericVersion::parse("4294967295.0"), Some(NumericVersion(u32::MAX, 0, 0, 0, 0)));
    assert_eq!(NumericVersion::parse("4294967296.0"), None);
}

#[test]
fn decimal_parsing() {
    assert_eq!(parse_u32_decimal(&chars("0042")), Some(42));
    assert_eq!(parse_u32_decimal(&chars("+7")), Some(7));
    assert_eq!(parse_u32_decimal(&chars("+")), None);
    assert_eq!(parse_u32_decimal(&chars("")), None);
    assert_eq!(parse_u32_decimal(&chars("-1")), None);
    assert_eq!(parse_u32_decimal(&chars("99999999999")), None);
}

#[test]
fn split_and_find() {
    let parts = split_chars(&chars("a..b"), '.');
    assert_eq!(parts, vec![chars("a"), chars(""), chars("b")]);
    assert_eq!(split_chars(&chars(""), '.'), vec![chars("")]);
    assert_eq!(find_char(&chars("ab:cd:e"), ':'), Some(2));
    assert_eq!(find_char(&chars("abc"), ':'), None);
}

#[test]
fn version_order_and_conversions() {
    assert!(version_lt(NumericVersion(1, 2, 0, 0, 0), NumericVersion(1, 10, 0, 0, 0)));
    assert!(!version_lt(NumericVersion(1, 2, 0, 0, 0), NumericVersion(1, 2, 0, 0, 0)));
    assert!(version_lt(NumericVersion(0, 9, 9, 9, 9), NumericVersion(1, 0, 0, 0, 0)));
    assert_eq!(NumericVersion::from([1, 2, 3]), NumericVersion(1, 2, 3, 0, 0));
    assert_eq!(NumericVersion::from([1, 2, 3, 4, 5]), NumericVersion(1, 2, 3, 4, 5));
    assert_eq!(NumericVersion::from((1, 2, 3)), NumericVersion(1, 2, 3, 0, 0));
    assert_eq!(<[u32; 5]>::from(NumericVersion(5, 4, 3, 2, 1)), [5, 4, 3, 2, 1]);
    assert_eq!(<(u32, u32, u32, u32, u32)>::from(NumericVersion(5, 4, 3, 2, 1)), (5, 4, 3, 2, 1));
    assert_eq!(
        VersionName::parse_numeric("1.20.40"),
        Some(VersionName::Numeric(NumericVersion(1, 20, 40, 0, 0)))
    );
    assert_eq!(VersionName::parse_numeric("beta"), None);
    assert_eq!(VersionName::numeric(1, 2, 3), VersionName::Numeric(NumericVersion(1, 2, 3, 0, 0)));
    let _ = GameVersion::Universal;
}

fn java_opts() -> IdentifierParseOptions {
    IdentifierParseOptions::default()
}

fn bedrock_opts(default_namespace: Option<&'static str>) -> IdentifierParseOptions {
    IdentifierParseOptions { default_namespace, java_character_constraints: false }
}

#[test]
fn identifier_parsing() {
    let id = NamespacedIdentifier::parse_string("minecraft:stone".to_owned(), java_opts()).unwrap();
    assert_eq!(&*id.namespace, "minecraft");
    assert_eq!(&*id.path, "stone");
    let id = NamespacedIdentifier::parse_string("a:b:c".to_owned(), bedrock_opts(None));
    assert!(matches!(id, Err(IdentifierParseError::InvalidPathCharacter(p, ':')) if p == "b:c"));
    match NamespacedIdentifier::parse_string("stone".to_owned(), java_opts()) {
        Err(IdentifierParseError::InvalidIdentifier(q)) => assert_eq!(q, "\"stone\""),
        other => panic!("unexpected {other:?}"),
    }
    let id = NamespacedIdentifier::parse_string("stone".to_owned(), bedrock_opts(Some(MINECRAFT_NAMESPACE))).unwrap();
    assert_eq!((&*id.namespace, &*id.path), ("minecraft", "stone"));
    match NamespacedIdentifier::parse_string("Mine:stone".to_owned(), java_opts()) {
        Err(IdentifierParseError::InvalidNamespaceCharacter(p, c)) => {
            assert_eq!((p.as_str(), c), ("stone", 'M'));
        }
        other => panic!("unexpected {other:?}"),
    }
    match NamespacedIdentifier::parse_string("mine:Stone".to_owned(), java_opts()) {
        Err(IdentifierParseError::InvalidPathCharacter(p, c)) => assert_eq!((p.as_str(), c), ("Stone", 'S')),
        other => panic!("unexpected {other:?}"),
    }
    let ok = NamespacedIdentifier::parse_string("mine:Stone".to_owned(), bedrock_opts(None)).unwrap();
    assert_eq!(&*ok.path, "Stone");
    match NamespacedIdentifier::parse_string("a/b:c".to_owned(), bedrock_opts(None)) {
        Err(IdentifierParseError::InvalidNamespaceCharacter(p, c)) => assert_eq!((p.as_str(), c), ("c", '/')),
        other => panic!("unexpected {other:?}"),
    }
    let ok = NamespacedIdentifier::parse_string("a:b/c".to_owned(), java_opts()).unwrap();
    assert_eq!(&*ok.path, "b/c");
}

fn block(path: &str, layers: Vec<Block>) -> Block {
    let identifier = NamespacedIdentifier { namespace: "test".into(), path: path.into() };
    Block::new(identifier, None, Some(layers))
}

#[test]
fn block_constructors() {
    let air = Block::new_air();
    assert_eq!(&*air.identifier.namespace, UNIVERSAL_NAMESPACE);
    assert_eq!(&*air.identifier.path, "air");
    assert!(air.properties.is_empty());
    assert!(air.extra_layers.is_empty());
    let mut props = BTreeMap::new();
    props.insert("level".to_owned(), BlockProperty::Int(3));
    let id = NamespacedIdentifier { namespace: "minecraft".into(), path: "water".into() };
    let water = Block::new(id, Some(props.clone()), None);
    assert_eq!(water.properties, props);
    assert!(water.extra_layers.is_empty());
}

#[test]
fn flatten_layers_is_preorder() {
    let mut top = block(
        "top",
        vec![block("a", vec![block("a1", vec![block("a1x", vec![])]), block("a2", vec![])]), block("b", vec![])],
    );
    top.flatten_layers();
    let names: Vec<&str> = top.extra_layers.iter().map(|b| &*b.identifier.path).collect();
    assert_eq!(names, vec!["a", "a1", "a1x", "a2", "b"]);
    assert!(top.extra_layers.iter().all(|b| b.extra_layers.is_empty()));
    assert_eq!(&*top.identifier.path, "top");
    let mut plain = block("plain", vec![]);
    plain.flatten_layers();
    assert!(plain.extra_layers.is_empty());
}

#[test]
fn game_version_partial_order() {
    let old = GameVersion::Bedrock(VersionName::numeric(1, 2, 0));
    let new = GameVersion::Bedrock(VersionName::numeric(1, 10, 0));
    assert_eq!(old.partial_cmp(&new), Some(Ordering::Less));
    assert_eq!(new.partial_cmp(&old), Some(Ordering::Greater));
    assert!(old < new);
    assert_eq!(old.partial_cmp(&old.clone()), Some(Ordering::Equal));
    let java = GameVersion::Java(VersionName::numeric(1, 2, 0));
    assert_eq!(old.partial_cmp(&java), None);
    assert_eq!(GameVersion::Universal.partial_cmp(&GameVersion::Universal), Some(Ordering::Equal));
    let named = GameVersion::Bedrock(VersionName::String("beta".to_string()));
    assert_eq!(named.partial_cmp(&old), None);
    let other_a = GameVersion::Other("edu".to_string(), VersionName::numeric(1, 0, 0));
    let other_b = GameVersion::Other("edu".to_string(), VersionName::numeric(1, 0, 1));
    let other_c = GameVersion::Other("pi".to_string(), VersionName::numeric(1, 0, 1));
    assert_eq!(other_a.partial_cmp(&other_b), Some(Ordering::Less));
    assert_eq!(other_a.partial_cmp(&other_c), None);
}
