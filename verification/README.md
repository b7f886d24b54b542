# savefile

A small binary serialization library, verified with Verus. A saved value is
a little-endian `u32` version number, optionally the schema of the value's
type for that version, then the value's own bytes. Loading checks the
version and, when it is stored, the schema, before reading the value.

Layout:

- `src/bytes.rs`: little-endian numbers as byte sequences; the calls into
  `byteorder` that encode and decode them.
- `src/format.rs`: the bytes of each primitive value, what reading bytes
  gives (`Decoded`), and the read-back laws for the primitives and strings.
- `src/serializer.rs`, `src/deserializer.rs`: writing to a byte buffer and
  reading from a byte slice.
- `src/schema.rs`: the schema types, their bytes, reading and writing them,
  comparing them, and the read-back laws for schemas.
- `src/traits.rs`: `WithSchema`, `Serialize`, `Deserialize`, `ReprC`, and
  their implementations for primitives, strings, vectors and removed fields.
- `src/maps.rs`: hash maps.
- `src/file.rs`: saving and loading whole files, and the law that loading
  what was saved gives the value back.
- `app/lib.rs`: the same entry points over `std::io::Write` and
  `std::io::Read`.
