# prismarine_anchor

A toolkit for Minecraft worlds whose core is verified with Verus: the functions under `src/`
carry contracts that Verus proves, and the laws of the data formats (what reading gives back
of what writing wrote) are stated and proved as proof functions beside them. The calls into
other crates (flate2, cesu8, unicode_names2, varint-rs, indexmap) and a few into std stand in
small wrappers marked `#[verifier::external_body]`, whose contracts Verus takes on trust;
each wrapper's doc comment says what it claims.

## Layout

- `src/values/`: the values stored in a Bedrock Edition LevelDB world (chunk versions, biome
  states, block volumes, 2D and 3D chunk data, palettized subchunk storage, checksums, UUIDs,
  ...), each with a parser and, where the format has one, a serializer and their round-trip
  laws; chunk metadata read from and written to an NBT compound, with the law that what is
  written is read back.
- `src/iron_nbt/`: NBT tags (a float holds its bits), and reading and writing binary NBT,
  uncompressed or Gz or Zlib compressed, against a specification of the bytes, with the law that
  uncompressed data written is read back; the contracts of `write_nbt` and `read_nbt` say the
  same of Gz and Zlib data.
- `src/nbt/`, `src/iron_nbt/`, `src/iron_amulet_nbt/`: NBT settings and errors, the numbers of
  binary NBT (byte orders, zigzag varints and integer arrays), and the SNBT lexer: whitespace,
  punctuation, quoted and unquoted words, escape sequences and the `uuid(..)` operation.
- `src/leveldb.rs`, `src/compression.rs`: the LevelDB settings that Minecraft uses, and Zlib
  compression of its blocks through `flate2`.
- `src/translation/`, `src/translators/`: game versions, namespaced identifiers, blocks and the
  headers and code functions of translation data.
- `src/bytes.rs`, `src/text.rs`: little-endian integers, a byte reader, and string helpers.
- `app/`: the program, opening a LevelDB with `rusty-leveldb`, and the `Display` and `Error`
  of the library's errors.
- `tests/`: tests of the library on concrete values.
