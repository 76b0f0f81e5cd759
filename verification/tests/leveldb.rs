use prismarine_anchor::leveldb::{DBCompressor, ZlibCompressor};

#[test]
fn leveldb() {}

#[test]
fn default_compressor_is_zlib_without_header() {
    assert_eq!(DBCompressor::default(), DBCompressor::ZlibWithoutHeader);
    assert_eq!(DBCompressor::Uncompressed.compressor_id(), 0);
    assert_eq!(DBCompressor::ZlibWithHeader.compressor_id(), 2);
    assert_eq!(DBCompressor::ZlibWithoutHeader.compressor_id(), 4);
}

#[test]
fn zlib_compressor_roundtrip() {
    let data: Vec<u8> = (0..200u32).map(|i| (i % 7) as u8).collect();
    for id in [2u8, 4u8] {
        let compressor = ZlibCompressor::for_id(id).unwrap();
        let encoded = compressor.encode(data.clone()).unwrap();
        assert_ne!(encoded, data);
        let decoded = compressor.decode(encoded).unwrap();
        assert_eq!(decoded, data);
    }
    assert!(ZlibCompressor::for_id(0).is_none());
}

#[test]
fn zlib_header_differs() {
    let data = vec![1u8, 2, 3, 4, 5];
    let with = ZlibCompressor::for_id(2).unwrap().encode(data.clone()).unwrap();
    let without = ZlibCompressor::for_id(4).unwrap().encode(data.clone()).unwrap();
    assert_eq!(with.len(), without.len() + 6);
    assert!(ZlibCompressor::for_id(4).unwrap().decode(vec![0xff, 0xff, 0xff]).is_err());
}
