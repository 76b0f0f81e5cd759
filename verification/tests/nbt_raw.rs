use prismarine_anchor::bytes::ByteReader;
use prismarine_anchor::nbt::raw::{
    cast_byte_buf_to_signed, cast_byte_buf_to_unsigned, cast_bytes_to_signed,
    cast_bytes_to_unsigned, read_bool, read_i16, read_i32, read_i32_array, read_i64,
    read_i64_array, read_i8, read_u16, read_u8, write_bool, write_i16, write_i32, write_i64,
    write_i8, write_u16, write_u8,
};
use prismarine_anchor::nbt::settings::IoOptions;

fn all_options() -> [IoOptions; 3] {
    [IoOptions::java(), IoOptions::bedrock(), IoOptions::bedrock_network_uncompressed()]
}

#[test]
fn raw_single_bytes() {
    let opts = IoOptions::java();
    let mut bytes = Vec::new();
    write_u8(&mut bytes, opts, 200).unwrap();
    write_bool(&mut bytes, opts, true).unwrap();
    write_bool(&mut bytes, opts, false).unwrap();
    write_i8(&mut bytes, opts, -2).unwrap();
    assert_eq!(bytes, vec![200, 1, 0, 0xFE]);
    let mut reader = ByteReader::new(&bytes);
    assert_eq!(read_u8(&mut reader, opts).unwrap(), 200);
    assert!(read_bool(&mut reader, opts).unwrap());
    assert!(!read_bool(&mut reader, opts).unwrap());
    assert_eq!(read_i8(&mut reader, opts).unwrap(), -2);
    assert!(read_u8(&mut reader, opts).is_err());
    assert_eq!(reader.position(), 4);
}

#[test]
fn raw_fixed_width_byte_orders() {
    let mut be = Vec::new();
    write_u16(&mut be, IoOptions::java(), 0x1234).unwrap();
    write_i32(&mut be, IoOptions::java(), 0x0102_0304).unwrap();
    assert_eq!(be, vec![0x12, 0x34, 1, 2, 3, 4]);
    let mut le = Vec::new();
    write_u16(&mut le, IoOptions::bedrock(), 0x1234).unwrap();
    write_i32(&mut le, IoOptions::bedrock(), 0x0102_0304).unwrap();
    write_i64(&mut le, IoOptions::bedrock(), -2).unwrap();
    assert_eq!(le, vec![0x34, 0x12, 4, 3, 2, 1, 0xFE, 0xFF, 0xFF, 0xFF, 0xFF, 0xFF, 0xFF, 0xFF]);
    let mut reader = ByteReader::new(&be);
    assert_eq!(read_u16(&mut reader, IoOptions::java()).unwrap(), 0x1234);
    assert_eq!(read_i32(&mut reader, IoOptions::java()).unwrap(), 0x0102_0304);
}

#[test]
fn raw_network_varints() {
    let opts = IoOptions::bedrock_network_uncompressed();
    let mut bytes = Vec::new();
    write_i32(&mut bytes, opts, 300).unwrap();
    assert_eq!(bytes, vec![0xD8, 0x04]);
    bytes.clear();
    write_i32(&mut bytes, opts, -1).unwrap();
    assert_eq!(bytes, vec![0x01]);
    bytes.clear();
    write_i64(&mut bytes, opts, i64::MIN).unwrap();
    assert_eq!(bytes, vec![0xFF, 0xFF, 0xFF, 0xFF, 0xFF, 0xFF, 0xFF, 0xFF, 0xFF, 0x01]);
    let mut reader = ByteReader::new(&bytes);
    assert_eq!(read_i64(&mut reader, opts).unwrap(), i64::MIN);
    assert_eq!(reader.position(), 10);
    // Shorts are not varints.
    bytes.clear();
    write_i16(&mut bytes, opts, -3).unwrap();
    assert_eq!(bytes, vec![0xFD, 0xFF]);
}

#[test]
fn raw_roundtrips() {
    let i32s = [0, 1, -1, 63, -64, 64, 300, i32::MAX, i32::MIN];
    let i64s = [0, 1, -1, 1 << 40, -(1 << 40), i64::MAX, i64::MIN];
    for opts in all_options() {
        let mut bytes = Vec::new();
        for v in i32s {
            write_i32(&mut bytes, opts, v).unwrap();
        }
        for v in i64s {
            write_i64(&mut bytes, opts, v).unwrap();
        }
        write_i16(&mut bytes, opts, i16::MIN).unwrap();
        write_u16(&mut bytes, opts, u16::MAX).unwrap();
        let mut reader = ByteReader::new(&bytes);
        for v in i32s {
            assert_eq!(read_i32(&mut reader, opts).unwrap(), v);
        }
        for v in i64s {
            assert_eq!(read_i64(&mut reader, opts).unwrap(), v);
        }
        assert_eq!(read_i16(&mut reader, opts).unwrap(), i16::MIN);
        assert_eq!(read_u16(&mut reader, opts).unwrap(), u16::MAX);
        assert_eq!(reader.position(), bytes.len());
    }
}

#[test]
fn raw_truncated_input() {
    let network = IoOptions::bedrock_network_uncompressed();
    let bytes = [0x80u8, 0x80];
    let mut reader = ByteReader::new(&bytes);
    assert!(read_i32(&mut reader, network).is_err());
    assert_eq!(reader.position(), 0);
    let mut reader = ByteReader::new(&bytes);
    assert!(read_i32(&mut reader, IoOptions::java()).is_err());
    assert!(read_i64(&mut reader, IoOptions::bedrock()).is_err());
    assert_eq!(read_u16(&mut reader, IoOptions::bedrock()).unwrap(), 0x8080);
    assert!(read_i16(&mut reader, IoOptions::bedrock()).is_err());
}

#[test]
fn raw_int_arrays() {
    let values32 = [7, -1, i32::MAX, i32::MIN, 0];
    let values64 = [-3, i64::MAX, i64::MIN, 1 << 40];
    for opts in all_options() {
        let mut bytes = Vec::new();
        for value in values32 {
            write_i32(&mut bytes, opts, value).unwrap();
        }
        for value in values64 {
            write_i64(&mut bytes, opts, value).unwrap();
        }
        let mut reader = ByteReader::new(&bytes);
        assert_eq!(read_i32_array(&mut reader, opts, 5).unwrap(), values32.to_vec());
        assert_eq!(read_i64_array(&mut reader, opts, 4).unwrap(), values64.to_vec());
        assert_eq!(reader.position(), bytes.len());
        assert_eq!(read_i32_array(&mut reader, opts, 0).unwrap(), Vec::<i32>::new());
        assert!(read_i64_array(&mut reader, opts, 1).is_err());
    }
    // Big-endian bytes, and too few of them for a third value.
    let bytes = [0, 0, 1, 2, 0xFF, 0xFF, 0xFF, 0xFE, 9];
    let mut reader = ByteReader::new(&bytes);
    assert_eq!(read_i32_array(&mut reader, IoOptions::java(), 2).unwrap(), vec![0x0102, -2]);
    let mut reader = ByteReader::new(&bytes);
    assert!(read_i32_array(&mut reader, IoOptions::java(), 3).is_err());
}

#[test]
fn raw_byte_casts() {
    let unsigned = vec![0u8, 1, 127, 128, 255];
    let signed = cast_byte_buf_to_signed(unsigned.clone());
    assert_eq!(signed, vec![0i8, 1, 127, -128, -1]);
    assert_eq!(cast_bytes_to_signed(&unsigned), signed);
    assert_eq!(cast_bytes_to_unsigned(&signed), unsigned);
    assert_eq!(cast_byte_buf_to_unsigned(signed), unsigned);
}
