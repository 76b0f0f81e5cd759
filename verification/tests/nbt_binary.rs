use std::io::Write;

use flate2::write::{GzEncoder, ZlibEncoder};
use flate2::Compression;

use prismarine_anchor::iron_nbt::io::{
    read_nbt, read_nbt_uncompressed, write_nbt, write_nbt_uncompressed, NBTCompression, NbtIoError,
    Options,
};
use prismarine_anchor::iron_nbt::tag::{
    read_tag_body_dyn, write_tag_body, NbtCompound, NbtList, NbtTag,
};

fn named(id: u8, name: &str) -> Vec<u8> {
    let mut out = vec![id];
    out.extend_from_slice(&(name.len() as u16).to_be_bytes());
    out.extend_from_slice(name.as_bytes());
    out
}

fn sample_java() -> Vec<u8> {
    let mut nbt = named(10, "test");
    nbt.extend(named(1, "b"));
    nbt.push(5);
    nbt.extend(named(8, "s"));
    nbt.extend_from_slice(&[0, 2, b'h', b'i']);
    nbt.extend(named(9, "l"));
    nbt.push(3);
    nbt.extend_from_slice(&2i32.to_be_bytes());
    nbt.extend_from_slice(&1i32.to_be_bytes());
    nbt.extend_from_slice(&(-2i32).to_be_bytes());
    nbt.extend(named(10, "c"));
    nbt.extend(named(3, "x"));
    nbt.extend_from_slice(&7i32.to_be_bytes());
    nbt.push(0);
    nbt.extend(named(5, "f"));
    nbt.extend_from_slice(&1.5f32.to_bits().to_be_bytes());
    nbt.extend(named(1, "b"));
    nbt.push(9);
    nbt.push(0);
    nbt
}

fn check_sample(compound_entries: &[(String, NbtTag)]) {
    let names: Vec<&str> = compound_entries.iter().map(|(n, _)| n.as_str()).collect();
    assert_eq!(names, vec!["b", "s", "l", "c", "f"]);
    // A repeated name keeps its first place and takes the last value.
    assert!(matches!(compound_entries[0].1, NbtTag::Byte(9)));
    match &compound_entries[1].1 {
        NbtTag::String(s) => assert_eq!(s, "hi"),
        other => panic!("unexpected {other:?}"),
    }
    match &compound_entries[2].1 {
        NbtTag::List(list) => {
            assert_eq!(list.0.len(), 2);
            assert!(matches!(list.0[0], NbtTag::Int(1)));
            assert!(matches!(list.0[1], NbtTag::Int(-2)));
        }
        other => panic!("unexpected {other:?}"),
    }
    match &compound_entries[3].1 {
        NbtTag::Compound(c) => {
            assert_eq!(c.0.len(), 1);
            assert_eq!(c.0[0].0, "x");
            assert!(matches!(c.0[0].1, NbtTag::Int(7)));
        }
        other => panic!("unexpected {other:?}"),
    }
    match compound_entries[4].1 {
        NbtTag::Float(bits) => assert_eq!(f32::from_bits(bits), 1.5),
        ref other => panic!("unexpected {other:?}"),
    }
}

#[test]
fn read_uncompressed_java_nbt() {
    let nbt = sample_java();
    let (root, name) = read_nbt_uncompressed(&nbt, Options::java_old()).unwrap();
    assert_eq!(name, "test");
    check_sample(&root.0);
}

#[test]
fn read_compressed_nbt() {
    let nbt = sample_java();
    let mut gz = GzEncoder::new(Vec::new(), Compression::default());
    gz.write_all(&nbt).unwrap();
    let gz = gz.finish().unwrap();
    let (root, name) = read_nbt(&gz, Options::java_old()).unwrap();
    assert_eq!(name, "test");
    check_sample(&root.0);

    let mut zlib = ZlibEncoder::new(Vec::new(), Compression::default());
    zlib.write_all(&nbt).unwrap();
    let zlib = zlib.finish().unwrap();
    let mut opts = Options::java_old();
    opts.compression = NBTCompression::ZlibCompressed;
    let (root, _) = read_nbt(&zlib, opts).unwrap();
    check_sample(&root.0);

    // Gz data that is not Gz.
    assert!(matches!(read_nbt(&nbt, Options::java_old()), Err(NbtIoError::StdIo(_))));
}

#[test]
fn read_little_endian_arrays() {
    let opts = Options::bedrock();
    let mut body = Vec::new();
    body.extend_from_slice(&2i32.to_le_bytes());
    body.extend_from_slice(&(-1i64).to_le_bytes());
    body.extend_from_slice(&5i64.to_le_bytes());
    let (tag, used) = read_tag_body_dyn(&body, opts, 12).unwrap();
    assert_eq!(used, body.len());
    match tag {
        NbtTag::LongArray(values) => assert_eq!(values, vec![-1, 5]),
        other => panic!("unexpected {other:?}"),
    }
    let (tag, used) = read_tag_body_dyn(&[3, 0, 0, 0, 0xFF, 0x80, 1], opts, 7).unwrap();
    assert_eq!(used, 7);
    match tag {
        NbtTag::ByteArray(values) => assert_eq!(values, vec![-1, -128, 1]),
        other => panic!("unexpected {other:?}"),
    }
}

#[test]
fn read_nbt_errors() {
    let opts = Options::java_old();
    // Not a compound at the root.
    assert!(matches!(
        read_nbt_uncompressed(&[8, 0, 0], opts),
        Err(NbtIoError::TagTypeMismatch { expected: 10, found: 8 })
    ));
    // An unknown tag id inside the compound.
    let mut nbt = named(10, "");
    nbt.extend(named(13, "x"));
    assert!(matches!(read_nbt_uncompressed(&nbt, opts), Err(NbtIoError::InvalidTagId(13))));
    // A list of end tags that is not empty.
    let list = [0u8, 0, 0, 0, 1];
    assert!(matches!(read_tag_body_dyn(&list, opts, 9), Err(NbtIoError::InvalidTagId(0))));
    // Bytes that end too early.
    assert!(matches!(read_tag_body_dyn(&[0, 0], opts, 3), Err(NbtIoError::StdIo(_))));
    // A string that is not valid UTF-8.
    assert!(matches!(
        read_tag_body_dyn(&[2, 0, 0xFF, 0xFF], Options::bedrock(), 8),
        Err(NbtIoError::InvalidUtf8String)
    ));
}

#[test]
fn write_then_read_back() {
    let nbt = sample_java();
    let opts = Options::java_old();
    let (root, name) = read_nbt_uncompressed(&nbt, opts).unwrap();
    let mut written = Vec::new();
    write_nbt_uncompressed(&mut written, opts, Some(&name), &root).unwrap();
    let (again, again_name) = read_nbt_uncompressed(&written, opts).unwrap();
    assert_eq!(again_name, "test");
    check_sample(&again.0);
    let mut rewritten = Vec::new();
    write_nbt_uncompressed(&mut rewritten, opts, Some(&again_name), &again).unwrap();
    assert_eq!(rewritten, written);
}

#[test]
fn write_exact_bytes() {
    let opts = Options::bedrock();
    let root = NbtCompound(vec![
        ("a".to_string(), NbtTag::Short(-2)),
        ("l".to_string(), NbtTag::List(NbtList(vec![]))),
    ]);
    let mut out = Vec::new();
    write_nbt_uncompressed(&mut out, opts, None, &root).unwrap();
    assert_eq!(
        out,
        vec![10, 0, 0, 2, 1, 0, b'a', 0xFE, 0xFF, 9, 1, 0, b'l', 0, 0, 0, 0, 0, 0]
    );
    // A list whose tags are of two kinds.
    let mixed = NbtTag::List(NbtList(vec![NbtTag::Byte(1), NbtTag::Int(1)]));
    let mut out = Vec::new();
    assert!(matches!(
        write_tag_body(&mut out, opts, &mixed),
        Err(NbtIoError::NonHomogenousList { list_type: 1, encountered_type: 3 })
    ));
}

#[test]
fn write_compressed_then_read_back() {
    let nbt = sample_java();
    let opts = Options::java_old();
    let (root, name) = read_nbt_uncompressed(&nbt, opts).unwrap();
    for flavor in [NBTCompression::GzCompressed, NBTCompression::ZlibCompressed] {
        let mut out = Vec::new();
        write_nbt(&mut out, opts, Some(&name), &root, flavor).unwrap();
        let mut read_opts = opts;
        read_opts.compression = flavor;
        let (again, again_name) = read_nbt(&out, read_opts).unwrap();
        assert_eq!(again_name, "test");
        check_sample(&again.0);
    }
    let mut plain = Vec::new();
    write_nbt(&mut plain, opts, None, &root, NBTCompression::Uncompressed).unwrap();
    assert_eq!(&plain[..3], &[10, 0, 0]);
}
