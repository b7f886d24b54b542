//! Saving a whole value to bytes, and loading it back: a version number,
//! optionally the schema, then the value.
use vstd::prelude::*;
use crate::error::SavefileError;
use crate::serializer::Serializer;
use crate::deserializer::Deserializer;
use crate::format::{Decoded, result_as, u32_bytes, parse_u32, lemma_u32_roundtrip};
use crate::bytes::lemma_le_bytes_len;
use crate::schema::{SchemaView, schema_bytes, parse_schema, read_schema, schema_eq, schema_fits, lemma_schema_roundtrip};
use crate::traits::{WithSchema, Serialize, Deserialize};

verus! {

/// The bytes that a saved value of type `T` starts with: the version as a
/// `u32`, then the bytes of the type's schema for that version when it is
/// included.
pub open spec fn header_bytes<T: WithSchema>(version: u32, with_schema: bool) -> Seq<u8> {
    u32_bytes(version) + if with_schema {
        schema_bytes(T::spec_schema(version))
    } else {
        Seq::empty()
    }
}

/// The bytes of a saved value: its header, then the value's bytes.
pub open spec fn file_bytes<T: WithSchema + Serialize>(version: u32, data: T, with_schema: bool) -> Seq<u8> {
    header_bytes::<T>(version, with_schema) + data.spec_serialize(version)
}

/// Whether loading refuses the input outright: when the file's version is
/// later than the one in memory, or when the schema in the file cannot be
/// read for a tag without meaning, or differs from the type's schema for
/// the file's version.
pub open spec fn load_refused<T: WithSchema>(input: Seq<u8>, version: u32, fetch_schema: bool) -> bool {
    match parse_u32(input) {
        Decoded::Value(file_version, _) => {
            ||| file_version > version
            ||| fetch_schema && match parse_schema(input.skip(4)) {
                Decoded::Value(s, _) => s != T::spec_schema(file_version),
                Decoded::Refused => true,
                _ => false,
            }
        },
        _ => false,
    }
}

/// What loading a value from `input` gives: the version, the schema when it
/// is included (read and then passed over), then the value, read under the
/// file's version.
pub open spec fn load_outcome<T: WithSchema + Deserialize>(input: Seq<u8>, fetch_schema: bool) -> Decoded<
    <T as DeepView>::V,
> {
    match parse_u32(input) {
        Decoded::Value(file_version, _) => {
            let rest = input.skip(4);
            if fetch_schema {
                match parse_schema(rest) {
                    Decoded::Value(_, k) => T::spec_deserialize(rest.skip(k as int), file_version).after(
                        k + 4,
                    ),
                    other => other.cast(),
                }
            } else {
                T::spec_deserialize(rest, file_version).after(4)
            }
        },
        _ => Decoded::EndOfInput,
    }
}

impl Serializer {
    /// Saves `data` to the end of `writer` under `version`, with its schema.
    ///
    /// `version` must be the current version number of the data structures in memory.
    /// Whenever a field is removed from the protocol, the version number should
    /// be incremented by 1, and the removed field marked as [`crate::traits::Removed`].
    pub fn save<T: WithSchema + Serialize>(writer: &mut Vec<u8>, version: u32, data: &T) -> (r: Result<
        (),
        SavefileError,
    >)
        requires
            data.spec_serializable(),
        ensures
            (old(writer)@ + header_bytes::<T>(version, true)).is_prefix_of(final(writer)@),
            data.spec_modeled() ==> final(writer)@ == old(writer)@ + file_bytes(version, *data, true),
            schema_fits(T::spec_schema(version)),
            r is Ok,
    {
        Self::save_impl(writer, version, data, true)
    }

    /// Saves `data` to the end of `writer` under `version`, without a schema.
    pub fn save_noschema<T: WithSchema + Serialize>(writer: &mut Vec<u8>, version: u32, data: &T) -> (r:
        Result<(), SavefileError>)
        requires
            data.spec_serializable(),
        ensures
            (old(writer)@ + header_bytes::<T>(version, false)).is_prefix_of(final(writer)@),
            data.spec_modeled() ==> final(writer)@ == old(writer)@ + file_bytes(version, *data, false),
            r is Ok,
    {
        Self::save_impl(writer, version, data, false)
    }

    fn save_impl<T: WithSchema + Serialize>(
        writer: &mut Vec<u8>,
        version: u32,
        data: &T,
        with_schema: bool,
    ) -> (r: Result<(), SavefileError>)
        requires
            data.spec_serializable(),
        ensures
            (old(writer)@ + header_bytes::<T>(version, with_schema)).is_prefix_of(final(writer)@),
            data.spec_modeled() ==> final(writer)@ == old(writer)@ + file_bytes(version, *data, with_schema),
            with_schema ==> schema_fits(T::spec_schema(version)),
            r is Ok,
    {
        let mut buf: Vec<u8> = Vec::new();
        std::mem::swap(&mut buf, writer);
        let mut serializer = Serializer::new_raw(buf);
        let _ = serializer.write_u32(version);
        if with_schema {
            let schema = T::schema(version);
            let _ = schema.serialize(&mut serializer);
        }
        serializer.version = version;
        let ghost head = serializer@;
        assert(head =~= old(writer)@ + header_bytes::<T>(version, with_schema));
        let _ = data.serialize(&mut serializer);
        *writer = serializer.writer;
        assert(data.spec_modeled() ==> writer@ =~= old(writer)@ + file_bytes(version, *data, with_schema));
        Ok(())
    }
}

impl<'a> Deserializer<'a> {
    /// Whether loading `reader` into a `T` under `version` gets past its
    /// checks: the file's version is not later than `version`, and, when the
    /// schema is fetched, it can be read without a tag that has no meaning and
    /// equals `T`'s schema for the file's version. (`load` refuses such input.)
    pub fn check_header<T: WithSchema>(reader: &[u8], version: u32, fetch_schema: bool) -> (r: bool)
        ensures
            r == !load_refused::<T>(reader@, version, fetch_schema),
    {
        let mut deserializer = Deserializer::new_raw(reader);
        let file_ver = match deserializer.read_u32() {
            Ok(v) => v,
            Err(_) => return true,
        };
        assert(deserializer@ == reader@.skip(4));
        if file_ver > version {
            return false;
        }
        if !fetch_schema {
            return true;
        }
        match read_schema(&mut deserializer) {
            Ok(file_schema) => {
                let memory_schema = T::schema(file_ver);
                schema_eq(&file_schema, &memory_schema)
            },
            Err(SavefileError::IncompatibleSchema { .. }) => false,
            Err(_) => true,
        }
    }

    /// Whether reading the value in a file that gets past
    /// [`Self::check_header`] gets past the value's own checks: no schema
    /// stored inside the value has a tag without meaning. (`load` refuses
    /// such input.) The whole value is read to find out.
    pub fn check_data<T: WithSchema + Deserialize>(reader: &[u8], version: u32, fetch_schema: bool) -> (r:
        bool)
        requires
            !load_refused::<T>(reader@, version, fetch_schema),
        ensures
            r == !load_outcome::<T>(reader@, fetch_schema).is_refused(),
    {
        let mut rest = reader;
        match Self::load_impl::<T>(&mut rest, version, fetch_schema) {
            Err(SavefileError::IncompatibleSchema { .. }) => false,
            _ => true,
        }
    }

    /// Deserialize an object of type T from `reader`, which holds a file saved
    /// with its schema. `version` is the version number of the data structures in memory.
    /// On success, `reader` is left just after the saved value.
    pub fn load<T: WithSchema + Deserialize>(reader: &mut &[u8], version: u32) -> (r: Result<
        T,
        SavefileError,
    >)
        requires
            !load_refused::<T>(old(reader)@, version, true),
            !load_outcome::<T>(old(reader)@, true).is_refused(),
        ensures
            result_as(load_outcome::<T>(old(reader)@, true), r),
            load_outcome::<T>(old(reader)@, true).is_read() ==> final(reader)@ == old(reader)@.skip(
                load_outcome::<T>(old(reader)@, true).taken() as int,
            ),
    {
        Self::load_impl::<T>(reader, version, true)
    }

    /// Deserialize an object of type T from `reader`, which holds a file saved
    /// without a schema.
    /// On success, `reader` is left just after the saved value.
    pub fn load_noschema<T: WithSchema + Deserialize>(reader: &mut &[u8], version: u32) -> (r: Result<
        T,
        SavefileError,
    >)
        requires
            !load_refused::<T>(old(reader)@, version, false),
            !load_outcome::<T>(old(reader)@, false).is_refused(),
        ensures
            result_as(load_outcome::<T>(old(reader)@, false), r),
            load_outcome::<T>(old(reader)@, false).is_read() ==> final(reader)@ == old(reader)@.skip(
                load_outcome::<T>(old(reader)@, false).taken() as int,
            ),
    {
        Self::load_impl::<T>(reader, version, false)
    }

    fn load_impl<T: WithSchema + Deserialize>(reader: &mut &[u8], version: u32, fetch_schema: bool) -> (r:
        Result<T, SavefileError>)
        requires
            !load_refused::<T>(old(reader)@, version, fetch_schema),
        ensures
            result_as(load_outcome::<T>(old(reader)@, fetch_schema), r),
            load_outcome::<T>(old(reader)@, fetch_schema).is_read() ==> final(reader)@ == old(
                reader,
            )@.skip(load_outcome::<T>(old(reader)@, fetch_schema).taken() as int),
    {
        let mut deserializer = Deserializer::new_raw(*reader);
        let file_ver = match deserializer.read_u32() {
            Ok(v) => v,
            Err(e) => return Err(e),
        };
        let ghost rest = deserializer@;
        assert(rest == old(reader)@.skip(4));
        if file_ver > version {
            return Err(SavefileError::IncompatibleSchema { message: "file has a later version than the structures in memory".to_string() });
        }
        if fetch_schema {
            let memory_schema = T::schema(file_ver);
            let file_schema = match read_schema(&mut deserializer) {
                Ok(s) => s,
                Err(e) => return Err(e),
            };
            if !schema_eq(&file_schema, &memory_schema) {
                return Err(SavefileError::IncompatibleSchema { message: "saved schema differs from the schema in memory".to_string() });
            }
            proof {
                let k = parse_schema(rest)->Value_1;
                assert(deserializer@ == rest.skip(k as int));
            }
        }
        deserializer.file_version = file_ver;
        deserializer.memory_version = version;
        let r = T::deserialize_checked(&mut deserializer);
        *reader = deserializer.reader;
        r
    }
}

/// Deserialize an object of type T from `reader`, saved with its schema; on
/// success, `reader` is left just after the saved value.
pub fn load<T: WithSchema + Deserialize>(reader: &mut &[u8], version: u32) -> (r: Result<
    T,
    SavefileError,
>)
    requires
        !load_refused::<T>(old(reader)@, version, true),
        !load_outcome::<T>(old(reader)@, true).is_refused(),
    ensures
        result_as(load_outcome::<T>(old(reader)@, true), r),
        load_outcome::<T>(old(reader)@, true).is_read() ==> final(reader)@ == old(reader)@.skip(
            load_outcome::<T>(old(reader)@, true).taken() as int,
        ),
{
    Deserializer::load::<T>(reader, version)
}

/// Saves `data` with its schema to the end of `writer`.
pub fn save<T: WithSchema + Serialize>(writer: &mut Vec<u8>, version: u32, data: &T) -> (r: Result<
    (),
    SavefileError,
>)
    requires
        data.spec_serializable(),
    ensures
        (old(writer)@ + header_bytes::<T>(version, true)).is_prefix_of(final(writer)@),
        data.spec_modeled() ==> final(writer)@ == old(writer)@ + file_bytes(version, *data, true),
        schema_fits(T::spec_schema(version)),
        r is Ok,
{
    Serializer::save::<T>(writer, version, data)
}

/// Deserialize an object of type T from `reader`, saved without a schema; on
/// success, `reader` is left just after the saved value.
pub fn load_noschema<T: WithSchema + Deserialize>(reader: &mut &[u8], version: u32) -> (r: Result<
    T,
    SavefileError,
>)
    requires
        !load_refused::<T>(old(reader)@, version, false),
        !load_outcome::<T>(old(reader)@, false).is_refused(),
    ensures
        result_as(load_outcome::<T>(old(reader)@, false), r),
        load_outcome::<T>(old(reader)@, false).is_read() ==> final(reader)@ == old(reader)@.skip(
            load_outcome::<T>(old(reader)@, false).taken() as int,
        ),
{
    Deserializer::load_noschema::<T>(reader, version)
}

/// Saves `data` without a schema to the end of `writer`.
pub fn save_noschema<T: WithSchema + Serialize>(writer: &mut Vec<u8>, version: u32, data: &T) -> (r:
    Result<(), SavefileError>)
    requires
        data.spec_serializable(),
    ensures
        (old(writer)@ + header_bytes::<T>(version, false)).is_prefix_of(final(writer)@),
        data.spec_modeled() ==> final(writer)@ == old(writer)@ + file_bytes(version, *data, false),
        r is Ok,
{
    Serializer::save_noschema::<T>(writer, version, data)
}

/// Loading what was saved gives back the value: the bytes that `save` (or
/// `save_noschema`) writes for a value under a version, followed by anything,
/// are not refused by `load` (or `load_noschema`) under the same version, and
/// load as that value, using exactly the saved bytes. It holds for values
/// whose own bytes read back as the value, and, with a schema, for types
/// whose schema has its names' UTF-8 lengths and its counts within a `usize`.
pub proof fn lemma_save_load_roundtrip<T: WithSchema + Serialize + Deserialize>(
    x: T,
    version: u32,
    with_schema: bool,
    rest: Seq<u8>,
)
    requires
        forall|tail: Seq<u8>|
            #[trigger] T::spec_deserialize(x.spec_serialize(version) + tail, version) == Decoded::Value(
                x.deep_view(),
                x.spec_serialize(version).len(),
            ),
        with_schema ==> schema_fits(T::spec_schema(version)),
    ensures
        !load_refused::<T>(file_bytes(version, x, with_schema) + rest, version, with_schema),
        load_outcome::<T>(file_bytes(version, x, with_schema) + rest, with_schema) == Decoded::Value(
            x.deep_view(),
            file_bytes(version, x, with_schema).len(),
        ),
{
    let data = x.spec_serialize(version);
    let schema = if with_schema {
        schema_bytes(T::spec_schema(version))
    } else {
        Seq::empty()
    };
    let input = file_bytes(version, x, with_schema) + rest;
    let after_version = schema + (data + rest);
    assert(input =~= u32_bytes(version) + after_version);
    lemma_u32_roundtrip(version, after_version);
    lemma_le_bytes_len(version as nat, 4);
    assert(input.skip(4) =~= after_version);
    assert(T::spec_deserialize(data + rest, version) == Decoded::Value(x.deep_view(), data.len()));
    if with_schema {
        lemma_schema_roundtrip(T::spec_schema(version), data + rest);
        assert(after_version.skip(schema.len() as int) =~= data + rest);
    } else {
        assert(after_version =~= data + rest);
    }
}

/// Files of earlier versions keep loading: the bytes that `save` (or
/// `save_noschema`) writes for a value under a file version, followed by
/// anything, are not refused by `load` (or `load_noschema`) under any memory
/// version at least as late, and load as that value, read under the file's
/// version and checked against the type's schema for the file's version,
/// using exactly the saved bytes. It holds for values whose own bytes read
/// back as the value under the file's version, and, with a schema, for types
/// whose schema for that version fits (as `save` ensures).
pub proof fn lemma_load_earlier_version<T: WithSchema + Serialize + Deserialize>(
    x: T,
    file_version: u32,
    memory_version: u32,
    with_schema: bool,
    rest: Seq<u8>,
)
    requires
        file_version <= memory_version,
        forall|tail: Seq<u8>|
            #[trigger] T::spec_deserialize(x.spec_serialize(file_version) + tail, file_version)
                == Decoded::Value(x.deep_view(), x.spec_serialize(file_version).len()),
        with_schema ==> schema_fits(T::spec_schema(file_version)),
    ensures
        !load_refused::<T>(
            file_bytes(file_version, x, with_schema) + rest,
            memory_version,
            with_schema,
        ),
        load_outcome::<T>(file_bytes(file_version, x, with_schema) + rest, with_schema)
            == Decoded::Value(x.deep_view(), file_bytes(file_version, x, with_schema).len()),
{
    lemma_save_load_roundtrip(x, file_version, with_schema, rest);
}

/// The format is schema-less at its core: the schema only guards a load.
/// When a file holds, after its version, a schema that reads back as written,
/// loading it with the schema gives what loading the same file without those
/// schema bytes gives without a schema (taking the schema's bytes more).
pub proof fn lemma_schema_only_guards<T: WithSchema + Deserialize>(
    version: u32,
    schema: SchemaView,
    rest: Seq<u8>,
)
    requires
        schema_fits(schema),
    ensures
        load_outcome::<T>(u32_bytes(version) + schema_bytes(schema) + rest, true) == load_outcome::<T>(
            u32_bytes(version) + rest,
            false,
        ).after(schema_bytes(schema).len()),
{
    let sb = schema_bytes(schema);
    let with = u32_bytes(version) + sb + rest;
    let without = u32_bytes(version) + rest;
    lemma_u32_roundtrip(version, sb + rest);
    lemma_u32_roundtrip(version, rest);
    lemma_le_bytes_len(version as nat, 4);
    assert(with =~= u32_bytes(version) + (sb + rest));
    assert(with.skip(4) =~= sb + rest);
    assert(without.skip(4) =~= rest);
    lemma_schema_roundtrip(schema, rest);
    assert((sb + rest).skip(sb.len() as int) =~= rest);
    let d = T::spec_deserialize(rest, version);
    assert(d.after(4).after(sb.len()) == d.after(sb.len() + 4));
}

} // verus!
