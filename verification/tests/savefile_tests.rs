use std::collections::HashMap;
use savefile::deserializer::Deserializer;
use savefile::error::SavefileError;
use savefile::file::{load, load_noschema, save, save_noschema};
use savefile::schema::{Field, Schema, SchemaEnum, SchemaPrimitive, SchemaStruct, Variant};
use savefile::serializer::Serializer;
use savefile::traits::{Deserialize, ReprC, Removed, Serialize, WithSchema};

fn written<F: FnOnce(&mut Serializer)>(f: F) -> Vec<u8> {
    let mut s = Serializer::new_raw(Vec::new());
    f(&mut s);
    s.writer
}

#[test]
fn integers_are_written_little_endian() {
    assert_eq!(written(|s| s.write_u8(0xab).unwrap()), vec![0xab]);
    assert_eq!(written(|s| s.write_i8(-2).unwrap()), vec![0xfe]);
    assert_eq!(written(|s| s.write_u16(0x0102).unwrap()), vec![2, 1]);
    assert_eq!(written(|s| s.write_i16(-2).unwrap()), vec![0xfe, 0xff]);
    assert_eq!(written(|s| s.write_u32(0x01020304).unwrap()), vec![4, 3, 2, 1]);
    assert_eq!(written(|s| s.write_i32(-1).unwrap()), vec![0xff; 4]);
    assert_eq!(
        written(|s| s.write_u64(0x0102030405060708).unwrap()),
        vec![8, 7, 6, 5, 4, 3, 2, 1]
    );
    assert_eq!(written(|s| s.write_i64(-256).unwrap()), vec![0, 0xff, 0xff, 0xff, 0xff, 0xff, 0xff, 0xff]);
    assert_eq!(written(|s| s.write_usize(3).unwrap()), vec![3, 0, 0, 0, 0, 0, 0, 0]);
    assert_eq!(written(|s| s.write_isize(-1).unwrap()), vec![0xff; 8]);
}

#[test]
fn buffers_and_strings_are_written() {
    assert_eq!(written(|s| s.write_buf(&[9, 8, 7]).unwrap()), vec![9, 8, 7]);
    assert_eq!(
        written(|s| s.write_string("hé").unwrap()),
        vec![3, 0, 0, 0, 0, 0, 0, 0, b'h', 0xc3, 0xa9]
    );
    let mut s = Serializer::new_raw(vec![1, 2]);
    s.write_u8(3).unwrap();
    assert_eq!(s.writer, vec![1, 2, 3]);
    assert_eq!(s.version, 0);
}

#[test]
fn integers_read_back() {
    let bytes = written(|s| {
        s.write_u8(200).unwrap();
        s.write_i8(-100).unwrap();
        s.write_u16(65000).unwrap();
        s.write_i16(-30000).unwrap();
        s.write_u32(4_000_000_000).unwrap();
        s.write_i32(-2_000_000_000).unwrap();
        s.write_u64(u64::MAX - 1).unwrap();
        s.write_i64(i64::MIN).unwrap();
        s.write_usize(123456).unwrap();
        s.write_isize(-654321).unwrap();
    });
    let mut d = Deserializer::new_raw(&bytes);
    assert_eq!(d.read_u8().unwrap(), 200);
    assert_eq!(d.read_i8().unwrap(), -100);
    assert_eq!(d.read_u16().unwrap(), 65000);
    assert_eq!(d.read_i16().unwrap(), -30000);
    assert_eq!(d.read_u32().unwrap(), 4_000_000_000);
    assert_eq!(d.read_i32().unwrap(), -2_000_000_000);
    assert_eq!(d.read_u64().unwrap(), u64::MAX - 1);
    assert_eq!(d.read_i64().unwrap(), i64::MIN);
    assert_eq!(d.read_usize().unwrap(), 123456);
    assert_eq!(d.read_isize().unwrap(), -654321);
    assert!(d.reader.is_empty());
}

#[test]
fn little_endian_bytes_are_read() {
    let bytes = [2u8, 1, 4, 3, 2, 1];
    let mut d = Deserializer::new_raw(&bytes);
    assert_eq!(d.read_u16().unwrap(), 0x0102);
    assert_eq!(d.read_u32().unwrap(), 0x01020304);
}

#[test]
fn reading_past_the_end_fails() {
    let bytes = [1u8, 2, 3];
    let mut d = Deserializer::new_raw(&bytes);
    assert!(matches!(d.read_u32(), Err(SavefileError::IOError { .. })));
    assert_eq!(d.reader, &bytes[..]);
    assert_eq!(d.read_u16().unwrap(), 0x0201);
    assert!(matches!(d.read_u16(), Err(SavefileError::IOError { .. })));
    let mut e = Deserializer::new_raw(&[]);
    assert!(matches!(e.read_u8(), Err(SavefileError::IOError { .. })));
}

#[test]
fn strings_read_back() {
    let bytes = written(|s| {
        s.write_string("").unwrap();
        s.write_string("hello, wörld").unwrap();
    });
    let mut d = Deserializer::new_raw(&bytes);
    assert_eq!(d.read_string().unwrap(), "");
    assert_eq!(d.read_string().unwrap(), "hello, wörld");
    assert!(d.reader.is_empty());
}

#[test]
fn a_string_that_is_not_utf8_is_data_corruption() {
    let bytes = [2u8, 0, 0, 0, 0, 0, 0, 0, 0xff, 0xfe];
    let mut d = Deserializer::new_raw(&bytes);
    match d.read_string() {
        Err(SavefileError::DataCorruption { msg }) => assert!(msg.contains("utf-8")),
        other => panic!("unexpected {:?}", other),
    }
}

#[test]
fn a_string_longer_than_the_input_is_end_of_file() {
    let bytes = [5u8, 0, 0, 0, 0, 0, 0, 0, b'a', b'b'];
    let mut d = Deserializer::new_raw(&bytes);
    assert!(matches!(d.read_string(), Err(SavefileError::IOError { .. })));
}

fn sample_schema() -> Schema {
    Schema::Struct(SchemaStruct {
        fields: vec![
            Field { name: "id".to_string(), value: Box::new(u32::schema(0)) },
            Field {
                name: "tags".to_string(),
                value: Box::new(Schema::Vector(Box::new(String::schema(0)))),
            },
            Field {
                name: "kind".to_string(),
                value: Box::new(Schema::Enum(SchemaEnum {
                    variants: vec![
                        Variant { name: "A".to_string(), discriminator: 0, fields: vec![] },
                        Variant {
                            name: "B".to_string(),
                            discriminator: 1,
                            fields: vec![Field {
                                name: "x".to_string(),
                                value: Box::new(Schema::Primitive(SchemaPrimitive::schema_i64)),
                            }],
                        },
                    ],
                })),
            },
            Field { name: "old".to_string(), value: Box::new(Schema::Undefined) },
        ],
    })
}

#[test]
fn schema_bytes_follow_the_format() {
    let bytes = written(|s| Schema::Primitive(SchemaPrimitive::schema_string).serialize(s).unwrap());
    assert_eq!(bytes, vec![3, 0, 11, 0]);
    let bytes = written(|s| Schema::Vector(Box::new(Schema::Undefined)).serialize(s).unwrap());
    assert_eq!(bytes, vec![4, 0, 5, 0]);
    let bytes = written(|s| {
        Schema::Struct(SchemaStruct {
            fields: vec![Field { name: "a".to_string(), value: Box::new(u8::schema(0)) }],
        })
        .serialize(s)
        .unwrap()
    });
    assert_eq!(
        bytes,
        vec![1, 0, 1, 0, 0, 0, 0, 0, 0, 0, 1, 0, 0, 0, 0, 0, 0, 0, b'a', 3, 0, 2, 0]
    );
    let bytes = written(|s| {
        Variant { name: "V".to_string(), discriminator: 7, fields: vec![] }.serialize(s).unwrap()
    });
    assert_eq!(bytes, vec![1, 0, 0, 0, 0, 0, 0, 0, b'V', 7, 0, 0, 0, 0, 0, 0, 0, 0, 0]);
}

#[test]
fn every_primitive_has_its_number() {
    let prims = [
        SchemaPrimitive::schema_i8,
        SchemaPrimitive::schema_u8,
        SchemaPrimitive::schema_i16,
        SchemaPrimitive::schema_u16,
        SchemaPrimitive::schema_i32,
        SchemaPrimitive::schema_u32,
        SchemaPrimitive::schema_i64,
        SchemaPrimitive::schema_u64,
        SchemaPrimitive::schema_isize,
        SchemaPrimitive::schema_usize,
        SchemaPrimitive::schema_string,
    ];
    for (i, p) in prims.iter().enumerate() {
        let bytes = written(|s| p.serialize(s).unwrap());
        assert_eq!(bytes, vec![(i + 1) as u8, 0]);
        let mut d = Deserializer::new_raw(&bytes);
        assert_eq!(SchemaPrimitive::deserialize(&mut d).unwrap(), *p);
    }
}

#[test]
fn schemas_read_back() {
    let schema = sample_schema();
    let bytes = written(|s| schema.serialize(s).unwrap());
    let mut d = Deserializer::new_raw(&bytes);
    assert_eq!(Schema::deserialize(&mut d).unwrap(), schema);
    assert!(d.reader.is_empty());
}

#[test]
fn schema_parts_read_back() {
    let field = Field { name: "f".to_string(), value: Box::new(sample_schema()) };
    let variant = Variant { name: "v".to_string(), discriminator: 3, fields: vec![field] };
    let schema_enum = SchemaEnum { variants: vec![variant] };
    let bytes = written(|s| schema_enum.serialize(s).unwrap());
    let mut d = Deserializer::new_raw(&bytes);
    assert_eq!(SchemaEnum::deserialize(&mut d).unwrap(), schema_enum);
    let st = SchemaStruct { fields: vec![Field { name: "g".to_string(), value: Box::new(Schema::Undefined) }] };
    let bytes = written(|s| st.serialize(s).unwrap());
    let mut d = Deserializer::new_raw(&bytes);
    assert_eq!(SchemaStruct::deserialize(&mut d).unwrap(), st);
}

#[test]
fn a_truncated_schema_is_end_of_file() {
    let bytes = written(|s| sample_schema().serialize(s).unwrap());
    let cut = &bytes[..bytes.len() - 1];
    let mut d = Deserializer::new_raw(cut);
    assert!(matches!(Schema::deserialize(&mut d), Err(SavefileError::IOError { .. })));
}

#[test]
fn schemas_of_the_library_types() {
    assert_eq!(u8::schema(3), Schema::Primitive(SchemaPrimitive::schema_u8));
    assert_eq!(isize::schema(3), Schema::Primitive(SchemaPrimitive::schema_isize));
    assert_eq!(String::schema(0), Schema::Primitive(SchemaPrimitive::schema_string));
    assert_eq!(
        Vec::<u16>::schema(1),
        Schema::Vector(Box::new(Schema::Primitive(SchemaPrimitive::schema_u16)))
    );
    assert_eq!(Removed::<i32>::schema(1), Schema::Primitive(SchemaPrimitive::schema_i32));
    assert_eq!(Schema::schema(1), Schema::Undefined);
    assert_eq!(Field::schema(1), Schema::Undefined);
}

#[test]
fn vectors_read_back() {
    let v: Vec<Vec<String>> = vec![vec!["a".to_string(), "bc".to_string()], vec![], vec!["d".to_string()]];
    let bytes = written(|s| v.serialize(s).unwrap());
    assert_eq!(&bytes[..8], &[3, 0, 0, 0, 0, 0, 0, 0]);
    let mut d = Deserializer::new_raw(&bytes);
    assert_eq!(Vec::<Vec<String>>::deserialize(&mut d).unwrap(), v);
    assert!(d.reader.is_empty());
    let w: Vec<u16> = vec![1, 0x0203];
    assert_eq!(written(|s| w.serialize(s).unwrap()), vec![2, 0, 0, 0, 0, 0, 0, 0, 1, 0, 3, 2]);
}

#[test]
fn a_short_vector_of_raw_items_is_a_short_read() {
    let bytes = [3u8, 0, 0, 0, 0, 0, 0, 0, 1, 2];
    let mut d = Deserializer::new_raw(&bytes);
    assert!(matches!(Vec::<u8>::deserialize(&mut d),
        Err(SavefileError::DataCorruption { ref msg }) if msg == "Short read"));
    let bytes = [2u8, 0, 0, 0, 0, 0, 0, 0, 1, 0];
    let mut d = Deserializer::new_raw(&bytes);
    assert!(matches!(Vec::<u16>::deserialize(&mut d),
        Err(SavefileError::DataCorruption { ref msg }) if msg == "Short read"));
}

#[test]
fn a_short_vector_of_strings_is_end_of_file() {
    let bytes = [2u8, 0, 0, 0, 0, 0, 0, 0, 1, 0, 0, 0, 0, 0, 0, 0, b'a'];
    let mut d = Deserializer::new_raw(&bytes);
    assert!(matches!(Vec::<String>::deserialize(&mut d), Err(SavefileError::IOError { .. })));
}

#[test]
fn a_raw_block_too_large_to_allocate_is_a_layout_error() {
    let bytes = [0u8, 0, 0, 0, 0, 0, 0, 0x20];
    let mut d = Deserializer::new_raw(&bytes);
    assert!(matches!(Vec::<u64>::deserialize(&mut d), Err(SavefileError::MemoryAllocationLayoutError)));
    let bytes = [0xffu8, 0xff, 0xff, 0xff, 0xff, 0xff, 0xff, 0x7f];
    let mut d = Deserializer::new_raw(&bytes);
    assert!(matches!(Vec::<u16>::deserialize(&mut d), Err(SavefileError::MemoryAllocationLayoutError)));
}

#[test]
fn primitives_are_read_as_raw_blocks() {
    assert_eq!(<u16 as Deserialize>::raw_copy_size(0), Some(2));
    assert_eq!(<usize as Deserialize>::raw_copy_size(3), Some(std::mem::size_of::<usize>()));
    assert_eq!(<String as Deserialize>::raw_copy_size(0), None);
    assert_eq!(<Vec<u8> as Deserialize>::raw_copy_size(0), None);
}

#[test]
fn a_failed_string_read_consumes_the_declared_bytes() {
    let bytes = [1u8, 0, 0, 0, 0, 0, 0, 0, 0xff, 9];
    let mut d = Deserializer::new_raw(&bytes);
    assert!(d.read_string().is_err());
    assert_eq!(d.reader, &[9u8][..]);
}

#[test]
fn check_data_finds_a_meaningless_tag_inside_the_value() {
    let mut out = Vec::new();
    save_noschema(&mut out, 0, &Schema::Undefined).unwrap();
    assert!(Deserializer::check_data::<Schema>(&out, 0, false));
    let bad = [0u8, 0, 0, 0, 9, 0];
    assert!(Deserializer::check_header::<Schema>(&bad, 0, false));
    assert!(!Deserializer::check_data::<Schema>(&bad, 0, false));
}

#[test]
fn a_removed_field_is_read_and_dropped() {
    let bytes = written(|s| {
        s.write_string("gone").unwrap();
        s.write_u8(5).unwrap();
    });
    let mut d = Deserializer::new_raw(&bytes);
    assert_eq!(Removed::<String>::deserialize(&mut d).unwrap(), Removed::<String>::new());
    assert_eq!(d.read_u8().unwrap(), 5);
}

#[test]
fn primitives_allow_the_raw_copy_optimization() {
    assert!(u8::repr_c_optimization_safe(0));
    assert!(i64::repr_c_optimization_safe(7));
    assert!(usize::repr_c_optimization_safe(1));
}

#[test]
fn save_writes_version_schema_and_data() {
    let mut out = Vec::new();
    save(&mut out, 2, &0x0a0bu16).unwrap();
    assert_eq!(out, vec![2, 0, 0, 0, 3, 0, 4, 0, 0x0b, 0x0a]);
    let mut out = vec![0xee];
    save_noschema(&mut out, 1, &7u8).unwrap();
    assert_eq!(out, vec![0xee, 1, 0, 0, 0, 7]);
}

#[test]
fn load_gives_back_what_save_wrote() {
    let data: Vec<String> = vec!["one".to_string(), "two".to_string()];
    let mut out = Vec::new();
    save(&mut out, 3, &data).unwrap();
    assert!(Deserializer::check_header::<Vec<String>>(&out, 3, true));
    let back: Vec<String> = load(&mut &out[..], 3).unwrap();
    assert_eq!(back, data);

    let mut out = Vec::new();
    Serializer::save_noschema(&mut out, 0, &sample_schema()).unwrap();
    let back: Schema = Deserializer::load_noschema(&mut &out[..], 0).unwrap();
    assert_eq!(back, sample_schema());

    let mut out = Vec::new();
    save_noschema(&mut out, 5, &-5i32).unwrap();
    assert_eq!(load_noschema::<i32>(&mut &out[..], 5).unwrap(), -5);
    let mut o = Vec::new();
    Serializer::save(&mut o, 5, &-5i32).unwrap();
    let back: i32 = Deserializer::load(&mut &o[..], 6).unwrap();
    assert_eq!(back, -5);
}

#[test]
fn a_file_of_a_later_version_is_refused() {
    let mut out = Vec::new();
    save(&mut out, 4, &1u8).unwrap();
    assert!(!Deserializer::check_header::<u8>(&out, 3, true));
    assert!(!Deserializer::check_header::<u8>(&out, 3, false));
    assert!(Deserializer::check_header::<u8>(&out, 4, true));
}

#[test]
fn a_different_schema_is_refused() {
    let mut out = Vec::new();
    save(&mut out, 1, &1u8).unwrap();
    assert!(!Deserializer::check_header::<u16>(&out, 1, true));
    assert!(Deserializer::check_header::<u16>(&out, 1, false));
}

#[test]
fn a_schema_with_a_meaningless_tag_is_refused() {
    let bytes = [0u8, 0, 0, 0, 9, 0];
    assert!(!Deserializer::check_header::<u8>(&bytes, 0, true));
    let bytes = [0u8, 0, 0, 0, 3, 0, 12, 0];
    assert!(!Deserializer::check_header::<u8>(&bytes, 0, true));
}

#[test]
fn a_short_file_is_end_of_file() {
    let bytes = [1u8, 0];
    assert!(Deserializer::check_header::<u8>(&bytes, 1, true));
    assert!(matches!(load::<u8>(&mut &bytes[..], 1), Err(SavefileError::IOError { .. })));
    let bytes = [1u8, 0, 0, 0, 3, 0, 2, 0];
    assert!(matches!(load::<u8>(&mut &bytes[..], 1), Err(SavefileError::IOError { .. })));
}


#[test]
fn hash_maps_read_back() {
    let mut m: HashMap<u32, String> = HashMap::new();
    m.insert(1, "one".to_string());
    m.insert(20, "twenty".to_string());
    m.insert(300, String::new());
    let bytes = written(|s| m.serialize(s).unwrap());
    assert_eq!(&bytes[..8], &[3, 0, 0, 0, 0, 0, 0, 0]);
    let mut d = Deserializer::new_raw(&bytes);
    let back = HashMap::<u32, String>::deserialize(&mut d).unwrap();
    assert_eq!(back, m);
    assert!(d.reader.is_empty());
}

#[test]
fn a_later_entry_replaces_an_earlier_one() {
    let bytes = written(|s| {
        s.write_usize(2).unwrap();
        s.write_u8(7).unwrap();
        s.write_u8(1).unwrap();
        s.write_u8(7).unwrap();
        s.write_u8(2).unwrap();
    });
    let mut d = Deserializer::new_raw(&bytes);
    let back = HashMap::<u8, u8>::deserialize(&mut d).unwrap();
    assert_eq!(back.len(), 1);
    assert_eq!(back[&7], 2);
}

#[test]
fn the_schema_of_a_hash_map() {
    assert_eq!(
        HashMap::<u8, String>::schema(0),
        Schema::Vector(Box::new(Schema::Struct(SchemaStruct {
            fields: vec![
                Field { name: "key".to_string(), value: Box::new(Schema::Primitive(SchemaPrimitive::schema_u8)) },
                Field { name: "value".to_string(), value: Box::new(Schema::Primitive(SchemaPrimitive::schema_string)) },
            ]
        })))
    );
}

#[test]
fn a_hash_map_saves_and_loads() {
    let mut m: HashMap<u64, Vec<i16>> = HashMap::new();
    m.insert(5, vec![-1, 2]);
    m.insert(6, vec![]);
    let mut out = Vec::new();
    save(&mut out, 1, &m).unwrap();
    let back: HashMap<u64, Vec<i16>> = load(&mut &out[..], 1).unwrap();
    assert_eq!(back, m);
}

#[test]
fn an_io_error_converts_to_a_savefile_error() {
    let e: SavefileError = std::io::Error::new(std::io::ErrorKind::Other, "disk").into();
    assert!(matches!(e, SavefileError::IOError { .. }));
}

#[test]
fn a_hash_map_with_string_keys_saves_and_loads() {
    let mut m: HashMap<String, u32> = HashMap::new();
    m.insert("alpha".to_string(), 1);
    m.insert("beta".to_string(), 22);
    m.insert(String::new(), 333);
    let mut out = Vec::new();
    save(&mut out, 2, &m).unwrap();
    let back: HashMap<String, u32> = load(&mut &out[..], 2).unwrap();
    assert_eq!(back, m);
    let mut out = Vec::new();
    save_noschema(&mut out, 2, &m).unwrap();
    assert_eq!(out.len(), 4 + 8 + (8 + 5 + 4) + (8 + 4 + 4) + (8 + 4));
    let back: HashMap<String, u32> = load_noschema(&mut &out[..], 2).unwrap();
    assert_eq!(back, m);
}

#[test]
fn reading_past_the_end_reports_an_unexpected_eof() {
    let bytes = [7u8];
    let mut d = Deserializer::new_raw(&bytes);
    match d.read_u64() {
        Err(SavefileError::IOError { io_error }) => {
            assert_eq!(io_error.kind(), std::io::ErrorKind::UnexpectedEof)
        }
        other => panic!("unexpected {:?}", other),
    }
}

#[test]
fn load_leaves_the_reader_after_the_saved_value() {
    let bytes = [0u8, 0, 0, 0, 3, 0, 2, 0, 7];
    let mut r: &[u8] = &bytes;
    assert_eq!(Deserializer::load::<u8>(&mut r, 0).unwrap(), 7);
    assert!(r.is_empty());
    let bytes = [2u8, 0, 0, 0, 7, 9];
    let mut r: &[u8] = &bytes;
    assert_eq!(Deserializer::load_noschema::<u8>(&mut r, 3).unwrap(), 7);
    assert_eq!(r, &[9u8][..]);
}

#[test]
fn two_saved_values_load_one_after_the_other() {
    let mut out = Vec::new();
    save(&mut out, 1, &vec![1i16, -2]).unwrap();
    save(&mut out, 1, &"next".to_string()).unwrap();
    let mut r: &[u8] = &out;
    assert_eq!(load::<Vec<i16>>(&mut r, 1).unwrap(), vec![1, -2]);
    assert_eq!(load::<String>(&mut r, 1).unwrap(), "next");
    assert!(r.is_empty());
}

#[test]
fn errors_have_their_messages() {
    let e = SavefileError::IncompatibleSchema { message: "x".to_string() };
    assert_eq!(e.message(), "Incompatible schema detected: x");
    assert_eq!(
        SavefileError::UnexpectedEndOfFile {}.message(),
        "Input stream ended before deserialization was complete."
    );
    let e = SavefileError::IOError { io_error: std::io::Error::new(std::io::ErrorKind::Other, "disk") };
    assert_eq!(e.message(), "IO Error: disk");
    assert_eq!(SavefileError::DataCorruption { msg: "bad".to_string() }.message(), "DataCorruption error bad");
    assert_eq!(SavefileError::OutOfMemory { err: "none".to_string() }.message(), "Out of memory: none");
    assert_eq!(
        SavefileError::MemoryAllocationLayoutError.message(),
        "Memory allocation failed because memory layout could not be specified."
    );
}

#[test]
fn a_meaningless_primitive_tag_is_caught_by_the_checked_read() {
    let bytes = [12u8, 0];
    let mut d = Deserializer::new_raw(&bytes);
    assert!(matches!(SchemaPrimitive::deserialize_checked(&mut d), Err(SavefileError::IncompatibleSchema { .. })));
    let bytes = [6u8, 0];
    let mut d = Deserializer::new_raw(&bytes);
    assert!(matches!(Schema::deserialize_checked(&mut d), Err(SavefileError::IncompatibleSchema { .. })));
}
