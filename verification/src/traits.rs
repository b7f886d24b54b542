//! The traits that saved types implement, and their implementations for
//! the primitive types, strings, vectors and removed fields.
use vstd::prelude::*;
use crate::bytes::{le_bytes, lemma_le_bytes_len};
use crate::error::SavefileError;
use crate::serializer::{Serializer, appended, extended, lemma_appended_extends, lemma_extended_trans};
use crate::deserializer::{Deserializer, same_versions};
use crate::format::{lemma_usize_roundtrip,
    Decoded, decoded_as, u8_bytes, i8_bytes, u16_bytes, i16_bytes, u32_bytes, i32_bytes,
    u64_bytes, i64_bytes, usize_bytes, isize_bytes, str_bytes, parse_u8, parse_i8, parse_u16,
    parse_i16, parse_u32, parse_i32, parse_u64, parse_i64, parse_usize, parse_isize,
    parse_string,
};
use crate::schema::{Schema, SchemaPrimitive, SchemaView};
use vstd::utf8::encode_utf8;

verus! {

broadcast use lemma_appended_extends;

/// This trait must be implemented by all data structures you wish to be able to save.
/// It must encode the schema for the data structure when saved using the given version number.
/// When files are saved, the schema is encoded into the file.
/// When loading, the schema is inspected to make sure that the load will safely succeed.
pub trait WithSchema {
    /// The schema of the type's saved format under the given version.
    spec fn spec_schema(version: u32) -> SchemaView;

    /// Returns a representation of the schema used by this Serialize implementation for the given version.
    fn schema(version: u32) -> (r: Schema)
        ensures
            r.deep_view() == Self::spec_schema(version),
    ;
}

/// This trait must be implemented for all data structures you wish to be
/// able to serialize. To actually serialize data: create a [Serializer],
/// then call serialize on your data to save, giving the Serializer
/// as an argument.
pub trait Serialize: WithSchema {
    /// The bytes that the value is saved as under the given version.
    spec fn spec_serialize(&self, version: u32) -> Seq<u8>;

    /// Whether the value may be saved at all.
    spec fn spec_serializable(&self) -> bool;

    /// Whether the bytes that `serialize` writes are those of `spec_serialize`.
    /// They are for every value but one that holds a hash map whose key type
    /// or hasher is outside the model that the proofs about hash maps rest on.
    spec fn spec_modeled(&self) -> bool;

    /// Serialize self into the given serializer.
    fn serialize(&self, serializer: &mut Serializer) -> (r: Result<(), SavefileError>)
        requires
            self.spec_serializable(),
        ensures
            extended(*old(serializer), *final(serializer)),
            self.spec_modeled() ==> appended(
                *old(serializer),
                *final(serializer),
                self.spec_serialize(old(serializer).version),
            ),
            r is Ok,
    ;
}

/// This trait must be implemented for all data structures you wish to
/// be able to deserialize.
pub trait Deserialize: WithSchema + DeepView + Sized {
    /// What reading a value from the front of `input` gives, for a file of the given version.
    spec fn spec_deserialize(input: Seq<u8>, file_version: u32) -> Decoded<<Self as DeepView>::V>;

    /// Where a vector of this type is read, for a file of the given version,
    /// as one block of its items' raw bytes (see [`ReprC`]), the size of one
    /// item; `None` where its items are read one by one.
    open spec fn spec_raw_copy_size(file_version: u32) -> Option<nat> {
        None
    }

    /// Returns [`Self::spec_raw_copy_size`].
    fn raw_copy_size(file_version: u32) -> (r: Option<usize>)
        ensures
            r matches Some(n) ==> Self::spec_raw_copy_size(file_version) == Some(n as nat),
            r is None ==> Self::spec_raw_copy_size(file_version) is None,
    ;

    /// Reads a value from the deserializer. Where its bytes hold a tag
    /// without meaning, the answer is `IncompatibleSchema`.
    fn deserialize_checked(deserializer: &mut Deserializer) -> (r: Result<Self, SavefileError>)
        ensures
            same_versions(*old(deserializer), *final(deserializer)),
            decoded_as(
                Self::spec_deserialize(old(deserializer)@, old(deserializer).file_version),
                r,
                old(deserializer)@,
                final(deserializer)@,
            ),
    ;

    /// Deserialize and return an instance of Self from the given deserializer.
    /// Input whose bytes hold a tag without meaning (a corrupt schema) is
    /// left out.
    fn deserialize(deserializer: &mut Deserializer) -> (r: Result<Self, SavefileError>)
        requires
            !Self::spec_deserialize(old(deserializer)@, old(deserializer).file_version).is_refused(),
        ensures
            same_versions(*old(deserializer), *final(deserializer)),
            decoded_as(
                Self::spec_deserialize(old(deserializer)@, old(deserializer).file_version),
                r,
                old(deserializer)@,
                final(deserializer)@,
            ),
    {
        Self::deserialize_checked(deserializer)
    }
}

/// A marker trait for types whose in-memory layout is packed and therefore
/// identical to the layout that savefile uses on disk: such values could be
/// written by copying their raw bytes.
///
/// Rules to implement this trait:
///
/// * The type must be copy
/// * The type must not contain any padding
/// * The type must have a strictly deterministic memory layout (no field order randomization). This typically means repr(C)
/// * All the constituent types of the type must also implement ReprC (correctly).
pub trait ReprC: Copy {
    /// This method returns true if the optimization is allowed
    /// for the protocol version given as an argument.
    /// This may return true if and only if the given protocol version
    /// has a serialized format identical to the given protocol version.
    fn repr_c_optimization_safe(version: u32) -> bool;
}

impl WithSchema for u8 {
    open spec fn spec_schema(version: u32) -> SchemaView {
        SchemaView::Primitive(SchemaPrimitive::schema_u8)
    }

    fn schema(_version: u32) -> (r: Schema) {
        Schema::Primitive(SchemaPrimitive::schema_u8)
    }
}

impl Serialize for u8 {
    open spec fn spec_serialize(&self, version: u32) -> Seq<u8> {
        u8_bytes(*self)
    }

    open spec fn spec_serializable(&self) -> bool {
        true
    }

    open spec fn spec_modeled(&self) -> bool {
        true
    }

    fn serialize(&self, serializer: &mut Serializer) -> (r: Result<(), SavefileError>) {
        serializer.write_u8(*self)
    }
}

impl Deserialize for u8 {
    open spec fn spec_deserialize(input: Seq<u8>, file_version: u32) -> Decoded<u8> {
        parse_u8(input)
    }

    /// Its layout in memory is its saved layout, for every version (see its
    /// [`ReprC`] implementation): a vector of it is read as one block.
    open spec fn spec_raw_copy_size(file_version: u32) -> Option<nat> {
        Some(vstd::layout::size_of::<u8>())
    }

    fn raw_copy_size(file_version: u32) -> (r: Option<usize>) {
        if <u8 as ReprC>::repr_c_optimization_safe(file_version) {
            Some(core::mem::size_of::<u8>())
        } else {
            None
        }
    }

    fn deserialize_checked(deserializer: &mut Deserializer) -> (r: Result<u8, SavefileError>) {
        deserializer.read_u8()
    }
}

impl ReprC for u8 {
    fn repr_c_optimization_safe(_version: u32) -> (r: bool)
        ensures
            r,
    {
        true
    }
}

impl WithSchema for i8 {
    open spec fn spec_schema(version: u32) -> SchemaView {
        SchemaView::Primitive(SchemaPrimitive::schema_i8)
    }

    fn schema(_version: u32) -> (r: Schema) {
        Schema::Primitive(SchemaPrimitive::schema_i8)
    }
}

impl Serialize for i8 {
    open spec fn spec_serialize(&self, version: u32) -> Seq<u8> {
        i8_bytes(*self)
    }

    open spec fn spec_serializable(&self) -> bool {
        true
    }

    open spec fn spec_modeled(&self) -> bool {
        true
    }

    fn serialize(&self, serializer: &mut Serializer) -> (r: Result<(), SavefileError>) {
        serializer.write_i8(*self)
    }
}

impl Deserialize for i8 {
    open spec fn spec_deserialize(input: Seq<u8>, file_version: u32) -> Decoded<i8> {
        parse_i8(input)
    }

    /// Its layout in memory is its saved layout, for every version (see its
    /// [`ReprC`] implementation): a vector of it is read as one block.
    open spec fn spec_raw_copy_size(file_version: u32) -> Option<nat> {
        Some(vstd::layout::size_of::<i8>())
    }

    fn raw_copy_size(file_version: u32) -> (r: Option<usize>) {
        if <i8 as ReprC>::repr_c_optimization_safe(file_version) {
            Some(core::mem::size_of::<i8>())
        } else {
            None
        }
    }

    fn deserialize_checked(deserializer: &mut Deserializer) -> (r: Result<i8, SavefileError>) {
        deserializer.read_i8()
    }
}

impl ReprC for i8 {
    fn repr_c_optimization_safe(_version: u32) -> (r: bool)
        ensures
            r,
    {
        true
    }
}

impl WithSchema for u16 {
    open spec fn spec_schema(version: u32) -> SchemaView {
        SchemaView::Primitive(SchemaPrimitive::schema_u16)
    }

    fn schema(_version: u32) -> (r: Schema) {
        Schema::Primitive(SchemaPrimitive::schema_u16)
    }
}

impl Serialize for u16 {
    open spec fn spec_serialize(&self, version: u32) -> Seq<u8> {
        u16_bytes(*self)
    }

    open spec fn spec_serializable(&self) -> bool {
        true
    }

    open spec fn spec_modeled(&self) -> bool {
        true
    }

    fn serialize(&self, serializer: &mut Serializer) -> (r: Result<(), SavefileError>) {
        serializer.write_u16(*self)
    }
}

impl Deserialize for u16 {
    open spec fn spec_deserialize(input: Seq<u8>, file_version: u32) -> Decoded<u16> {
        parse_u16(input)
    }

    /// Its layout in memory is its saved layout, for every version (see its
    /// [`ReprC`] implementation): a vector of it is read as one block.
    open spec fn spec_raw_copy_size(file_version: u32) -> Option<nat> {
        Some(vstd::layout::size_of::<u16>())
    }

    fn raw_copy_size(file_version: u32) -> (r: Option<usize>) {
        if <u16 as ReprC>::repr_c_optimization_safe(file_version) {
            Some(core::mem::size_of::<u16>())
        } else {
            None
        }
    }

    fn deserialize_checked(deserializer: &mut Deserializer) -> (r: Result<u16, SavefileError>) {
        deserializer.read_u16()
    }
}

impl ReprC for u16 {
    fn repr_c_optimization_safe(_version: u32) -> (r: bool)
        ensures
            r,
    {
        true
    }
}

impl WithSchema for i16 {
    open spec fn spec_schema(version: u32) -> SchemaView {
        SchemaView::Primitive(SchemaPrimitive::schema_i16)
    }

    fn schema(_version: u32) -> (r: Schema) {
        Schema::Primitive(SchemaPrimitive::schema_i16)
    }
}

impl Serialize for i16 {
    open spec fn spec_serialize(&self, version: u32) -> Seq<u8> {
        i16_bytes(*self)
    }

    open spec fn spec_serializable(&self) -> bool {
        true
    }

    open spec fn spec_modeled(&self) -> bool {
        true
    }

    fn serialize(&self, serializer: &mut Serializer) -> (r: Result<(), SavefileError>) {
        serializer.write_i16(*self)
    }
}

impl Deserialize for i16 {
    open spec fn spec_deserialize(input: Seq<u8>, file_version: u32) -> Decoded<i16> {
        parse_i16(input)
    }

    /// Its layout in memory is its saved layout, for every version (see its
    /// [`ReprC`] implementation): a vector of it is read as one block.
    open spec fn spec_raw_copy_size(file_version: u32) -> Option<nat> {
        Some(vstd::layout::size_of::<i16>())
    }

    fn raw_copy_size(file_version: u32) -> (r: Option<usize>) {
        if <i16 as ReprC>::repr_c_optimization_safe(file_version) {
            Some(core::mem::size_of::<i16>())
        } else {
            None
        }
    }

    fn deserialize_checked(deserializer: &mut Deserializer) -> (r: Result<i16, SavefileError>) {
        deserializer.read_i16()
    }
}

impl ReprC for i16 {
    fn repr_c_optimization_safe(_version: u32) -> (r: bool)
        ensures
            r,
    {
        true
    }
}

impl WithSchema for u32 {
    open spec fn spec_schema(version: u32) -> SchemaView {
        SchemaView::Primitive(SchemaPrimitive::schema_u32)
    }

    fn schema(_version: u32) -> (r: Schema) {
        Schema::Primitive(SchemaPrimitive::schema_u32)
    }
}

impl Serialize for u32 {
    open spec fn spec_serialize(&self, version: u32) -> Seq<u8> {
        u32_bytes(*self)
    }

    open spec fn spec_serializable(&self) -> bool {
        true
    }

    open spec fn spec_modeled(&self) -> bool {
        true
    }

    fn serialize(&self, serializer: &mut Serializer) -> (r: Result<(), SavefileError>) {
        serializer.write_u32(*self)
    }
}

impl Deserialize for u32 {
    open spec fn spec_deserialize(input: Seq<u8>, file_version: u32) -> Decoded<u32> {
        parse_u32(input)
    }

    /// Its layout in memory is its saved layout, for every version (see its
    /// [`ReprC`] implementation): a vector of it is read as one block.
    open spec fn spec_raw_copy_size(file_version: u32) -> Option<nat> {
        Some(vstd::layout::size_of::<u32>())
    }

    fn raw_copy_size(file_version: u32) -> (r: Option<usize>) {
        if <u32 as ReprC>::repr_c_optimization_safe(file_version) {
            Some(core::mem::size_of::<u32>())
        } else {
            None
        }
    }

    fn deserialize_checked(deserializer: &mut Deserializer) -> (r: Result<u32, SavefileError>) {
        deserializer.read_u32()
    }
}

impl ReprC for u32 {
    fn repr_c_optimization_safe(_version: u32) -> (r: bool)
        ensures
            r,
    {
        true
    }
}

impl WithSchema for i32 {
    open spec fn spec_schema(version: u32) -> SchemaView {
        SchemaView::Primitive(SchemaPrimitive::schema_i32)
    }

    fn schema(_version: u32) -> (r: Schema) {
        Schema::Primitive(SchemaPrimitive::schema_i32)
    }
}

impl Serialize for i32 {
    open spec fn spec_serialize(&self, version: u32) -> Seq<u8> {
        i32_bytes(*self)
    }

    open spec fn spec_serializable(&self) -> bool {
        true
    }

    open spec fn spec_modeled(&self) -> bool {
        true
    }

    fn serialize(&self, serializer: &mut Serializer) -> (r: Result<(), SavefileError>) {
        serializer.write_i32(*self)
    }
}

impl Deserialize for i32 {
    open spec fn spec_deserialize(input: Seq<u8>, file_version: u32) -> Decoded<i32> {
        parse_i32(input)
    }

    /// Its layout in memory is its saved layout, for every version (see its
    /// [`ReprC`] implementation): a vector of it is read as one block.
    open spec fn spec_raw_copy_size(file_version: u32) -> Option<nat> {
        Some(vstd::layout::size_of::<i32>())
    }

    fn raw_copy_size(file_version: u32) -> (r: Option<usize>) {
        if <i32 as ReprC>::repr_c_optimization_safe(file_version) {
            Some(core::mem::size_of::<i32>())
        } else {
            None
        }
    }

    fn deserialize_checked(deserializer: &mut Deserializer) -> (r: Result<i32, SavefileError>) {
        deserializer.read_i32()
    }
}

impl ReprC for i32 {
    fn repr_c_optimization_safe(_version: u32) -> (r: bool)
        ensures
            r,
    {
        true
    }
}

impl WithSchema for u64 {
    open spec fn spec_schema(version: u32) -> SchemaView {
        SchemaView::Primitive(SchemaPrimitive::schema_u64)
    }

    fn schema(_version: u32) -> (r: Schema) {
        Schema::Primitive(SchemaPrimitive::schema_u64)
    }
}

impl Serialize for u64 {
    open spec fn spec_serialize(&self, version: u32) -> Seq<u8> {
        u64_bytes(*self)
    }

    open spec fn spec_serializable(&self) -> bool {
        true
    }

    open spec fn spec_modeled(&self) -> bool {
        true
    }

    fn serialize(&self, serializer: &mut Serializer) -> (r: Result<(), SavefileError>) {
        serializer.write_u64(*self)
    }
}

impl Deserialize for u64 {
    open spec fn spec_deserialize(input: Seq<u8>, file_version: u32) -> Decoded<u64> {
        parse_u64(input)
    }

    /// Its layout in memory is its saved layout, for every version (see its
    /// [`ReprC`] implementation): a vector of it is read as one block.
    open spec fn spec_raw_copy_size(file_version: u32) -> Option<nat> {
        Some(vstd::layout::size_of::<u64>())
    }

    fn raw_copy_size(file_version: u32) -> (r: Option<usize>) {
        if <u64 as ReprC>::repr_c_optimization_safe(file_version) {
            Some(core::mem::size_of::<u64>())
        } else {
            None
        }
    }

    fn deserialize_checked(deserializer: &mut Deserializer) -> (r: Result<u64, SavefileError>) {
        deserializer.read_u64()
    }
}

impl ReprC for u64 {
    fn repr_c_optimization_safe(_version: u32) -> (r: bool)
        ensures
            r,
    {
        true
    }
}

impl WithSchema for i64 {
    open spec fn spec_schema(version: u32) -> SchemaView {
        SchemaView::Primitive(SchemaPrimitive::schema_i64)
    }

    fn schema(_version: u32) -> (r: Schema) {
        Schema::Primitive(SchemaPrimitive::schema_i64)
    }
}

impl Serialize for i64 {
    open spec fn spec_serialize(&self, version: u32) -> Seq<u8> {
        i64_bytes(*self)
    }

    open spec fn spec_serializable(&self) -> bool {
        true
    }

    open spec fn spec_modeled(&self) -> bool {
        true
    }

    fn serialize(&self, serializer: &mut Serializer) -> (r: Result<(), SavefileError>) {
        serializer.write_i64(*self)
    }
}

impl Deserialize for i64 {
    open spec fn spec_deserialize(input: Seq<u8>, file_version: u32) -> Decoded<i64> {
        parse_i64(input)
    }

    /// Its layout in memory is its saved layout, for every version (see its
    /// [`ReprC`] implementation): a vector of it is read as one block.
    open spec fn spec_raw_copy_size(file_version: u32) -> Option<nat> {
        Some(vstd::layout::size_of::<i64>())
    }

    fn raw_copy_size(file_version: u32) -> (r: Option<usize>) {
        if <i64 as ReprC>::repr_c_optimization_safe(file_version) {
            Some(core::mem::size_of::<i64>())
        } else {
            None
        }
    }

    fn deserialize_checked(deserializer: &mut Deserializer) -> (r: Result<i64, SavefileError>) {
        deserializer.read_i64()
    }
}

impl ReprC for i64 {
    fn repr_c_optimization_safe(_version: u32) -> (r: bool)
        ensures
            r,
    {
        true
    }
}

impl WithSchema for usize {
    open spec fn spec_schema(version: u32) -> SchemaView {
        SchemaView::Primitive(SchemaPrimitive::schema_usize)
    }

    fn schema(_version: u32) -> (r: Schema) {
        Schema::Primitive(SchemaPrimitive::schema_usize)
    }
}

impl Serialize for usize {
    open spec fn spec_serialize(&self, version: u32) -> Seq<u8> {
        usize_bytes(*self)
    }

    open spec fn spec_serializable(&self) -> bool {
        true
    }

    open spec fn spec_modeled(&self) -> bool {
        true
    }

    fn serialize(&self, serializer: &mut Serializer) -> (r: Result<(), SavefileError>) {
        serializer.write_usize(*self)
    }
}

impl Deserialize for usize {
    open spec fn spec_deserialize(input: Seq<u8>, file_version: u32) -> Decoded<usize> {
        parse_usize(input)
    }

    /// Its layout in memory is its saved layout, for every version (see its
    /// [`ReprC`] implementation): a vector of it is read as one block.
    open spec fn spec_raw_copy_size(file_version: u32) -> Option<nat> {
        Some(vstd::layout::size_of::<usize>())
    }

    fn raw_copy_size(file_version: u32) -> (r: Option<usize>) {
        if <usize as ReprC>::repr_c_optimization_safe(file_version) {
            Some(core::mem::size_of::<usize>())
        } else {
            None
        }
    }

    fn deserialize_checked(deserializer: &mut Deserializer) -> (r: Result<usize, SavefileError>) {
        deserializer.read_usize()
    }
}

impl ReprC for usize {
    fn repr_c_optimization_safe(_version: u32) -> (r: bool)
        ensures
            r,
    {
        true
    }
}

impl WithSchema for isize {
    open spec fn spec_schema(version: u32) -> SchemaView {
        SchemaView::Primitive(SchemaPrimitive::schema_isize)
    }

    fn schema(_version: u32) -> (r: Schema) {
        Schema::Primitive(SchemaPrimitive::schema_isize)
    }
}

impl Serialize for isize {
    open spec fn spec_serialize(&self, version: u32) -> Seq<u8> {
        isize_bytes(*self)
    }

    open spec fn spec_serializable(&self) -> bool {
        true
    }

    open spec fn spec_modeled(&self) -> bool {
        true
    }

    fn serialize(&self, serializer: &mut Serializer) -> (r: Result<(), SavefileError>) {
        serializer.write_isize(*self)
    }
}

impl Deserialize for isize {
    open spec fn spec_deserialize(input: Seq<u8>, file_version: u32) -> Decoded<isize> {
        parse_isize(input)
    }

    /// Its layout in memory is its saved layout, for every version (see its
    /// [`ReprC`] implementation): a vector of it is read as one block.
    open spec fn spec_raw_copy_size(file_version: u32) -> Option<nat> {
        Some(vstd::layout::size_of::<isize>())
    }

    fn raw_copy_size(file_version: u32) -> (r: Option<usize>) {
        if <isize as ReprC>::repr_c_optimization_safe(file_version) {
            Some(core::mem::size_of::<isize>())
        } else {
            None
        }
    }

    fn deserialize_checked(deserializer: &mut Deserializer) -> (r: Result<isize, SavefileError>) {
        deserializer.read_isize()
    }
}

impl ReprC for isize {
    fn repr_c_optimization_safe(_version: u32) -> (r: bool)
        ensures
            r,
    {
        true
    }
}

impl WithSchema for String {
    open spec fn spec_schema(version: u32) -> SchemaView {
        SchemaView::Primitive(SchemaPrimitive::schema_string)
    }

    fn schema(_version: u32) -> (r: Schema) {
        Schema::Primitive(SchemaPrimitive::schema_string)
    }
}

impl Serialize for String {
    open spec fn spec_serialize(&self, version: u32) -> Seq<u8> {
        str_bytes(self@)
    }

    open spec fn spec_serializable(&self) -> bool {
        true
    }

    open spec fn spec_modeled(&self) -> bool {
        true
    }

    fn serialize(&self, serializer: &mut Serializer) -> (r: Result<(), SavefileError>) {
        serializer.write_string(self.as_str())
    }
}

impl Deserialize for String {
    open spec fn spec_deserialize(input: Seq<u8>, file_version: u32) -> Decoded<Seq<char>> {
        parse_string(input)
    }

    fn raw_copy_size(_file_version: u32) -> (r: Option<usize>) {
        None
    }

    fn deserialize_checked(deserializer: &mut Deserializer) -> (r: Result<String, SavefileError>) {
        deserializer.read_string()
    }
}

/// The bytes of the items, one after the other.
pub open spec fn items_bytes<T: Serialize>(items: Seq<T>, version: u32) -> Seq<u8>
    decreases items.len(),
{
    if items.len() == 0 {
        Seq::empty()
    } else {
        items_bytes(items.drop_last(), version) + items.last().spec_serialize(version)
    }
}

/// Reading `n` items one after the other; the first failure ends it. When an
/// item's value is not stated, the items' values are not stated either.
pub open spec fn parse_items<T: Deserialize>(input: Seq<u8>, n: nat, file_version: u32) -> Decoded<
    Seq<<T as DeepView>::V>,
>
    decreases n,
{
    if n == 0 {
        Decoded::Value(Seq::empty(), 0)
    } else {
        let prev = parse_items::<T>(input, (n - 1) as nat, file_version);
        if !prev.is_read() {
            prev
        } else if prev.taken() > input.len() {
            Decoded::EndOfInput
        } else {
            let m = prev.taken();
            let d = T::spec_deserialize(input.skip(m as int), file_version);
            match (prev, d) {
                (Decoded::Value(vs, _), Decoded::Value(v, k)) => Decoded::Value(vs.push(v), m + k),
                (_, Decoded::Value(_, k)) => Decoded::Unstated(m + k),
                (_, Decoded::Unstated(k)) => Decoded::Unstated(m + k),
                (_, other) => other.cast(),
            }
        }
    }
}

/// Reading a vector: a `usize` count, then that many items. Where the items
/// are read as one block of raw bytes, the block must be no larger than an
/// allocation can be, and that many bytes must remain, before they are read.
pub open spec fn parse_vec<T: Deserialize>(input: Seq<u8>, file_version: u32) -> Decoded<
    Seq<<T as DeepView>::V>,
> {
    match parse_usize(input) {
        Decoded::Value(l, _) => if input.len() < 8 {
            Decoded::EndOfInput
        } else {
            match T::spec_raw_copy_size(file_version) {
                Some(size) => if l * size > isize::MAX {
                    Decoded::TooLarge
                } else if input.len() - 8 < l * size {
                    Decoded::ShortRead
                } else {
                    parse_items::<T>(input.skip(8), l as nat, file_version).after(8)
                },
                None => parse_items::<T>(input.skip(8), l as nat, file_version).after(8),
            }
        },
        _ => Decoded::EndOfInput,
    }
}

/// Once reading items has failed, reading more of them fails in the same way.
proof fn lemma_items_failure_stays<T: Deserialize>(
    input: Seq<u8>,
    n1: nat,
    n2: nat,
    file_version: u32,
)
    requires
        n1 <= n2,
        !parse_items::<T>(input, n1, file_version).is_read(),
    ensures
        parse_items::<T>(input, n2, file_version) == parse_items::<T>(input, n1, file_version),
    decreases n2,
{
    if n2 > n1 {
        lemma_items_failure_stays::<T>(input, n1, (n2 - 1) as nat, file_version);
    }
}

/// Writes the number of items, then each item.
fn regular_serialize_vec<T: Serialize>(item: &Vec<T>, serializer: &mut Serializer) -> (r: Result<
    (),
    SavefileError,
>)
    requires
        forall|i: int| 0 <= i < item@.len() ==> (#[trigger] item@[i]).spec_serializable(),
    ensures
        extended(*old(serializer), *final(serializer)),
        (forall|i: int| 0 <= i < item@.len() ==> (#[trigger] item@[i]).spec_modeled()) ==> appended(
            *old(serializer),
            *final(serializer),
            usize_bytes(item@.len() as usize) + items_bytes(item@, old(serializer).version),
        ),
        r is Ok,
{
    let ghost all_modeled = forall|i: int| 0 <= i < item@.len() ==> (#[trigger] item@[i]).spec_modeled();
    let l = item.len();
    let _ = serializer.write_usize(l);
    let ghost start = serializer@;
    let ghost version = serializer.version;
    let mut i: usize = 0;
    while i < l
        invariant
            l == item@.len(),
            i <= l,
            forall|j: int| 0 <= j < item@.len() ==> (#[trigger] item@[j]).spec_serializable(),
            all_modeled == forall|j: int| 0 <= j < item@.len() ==> (#[trigger] item@[j]).spec_modeled(),
            serializer.version == version,
            version == old(serializer).version,
            start == old(serializer)@ + usize_bytes(l),
            extended(*old(serializer), *serializer),
            all_modeled ==> serializer@ == start + items_bytes(item@.take(i as int), version),
        decreases l - i,
    {
        let ghost before = *serializer;
        let _ = item[i].serialize(serializer);
        proof {
            lemma_extended_trans(*old(serializer), before, *serializer);
            assert(item@.take(i + 1).drop_last() =~= item@.take(i as int));
        }
        i += 1;
        assert(all_modeled ==> serializer@ =~= start + items_bytes(item@.take(i as int), version));
    }
    assert(item@.take(l as int) =~= item@);
    assert(all_modeled ==> serializer@ =~= old(serializer)@ + (usize_bytes(item@.len() as usize)
        + items_bytes(item@, version)));
    Ok(())
}

/// Reads `l` items, one after the other.
fn read_items<T: Deserialize>(deserializer: &mut Deserializer, l: usize) -> (r: Result<
    Vec<T>,
    SavefileError,
>)
    ensures
        same_versions(*old(deserializer), *final(deserializer)),
        decoded_as(
            parse_items::<T>(old(deserializer)@, l as nat, old(deserializer).file_version),
            r,
            old(deserializer)@,
            final(deserializer)@,
        ),
{
    let ghost fv = deserializer.file_version;
    let ghost start = deserializer@;
    let mut ret: Vec<T> = Vec::new();
    let mut i: usize = 0;
    while i < l
        invariant
            i <= l,
            start == old(deserializer)@,
            fv == old(deserializer).file_version,
            same_versions(*old(deserializer), *deserializer),
            parse_items::<T>(start, i as nat, fv).is_read(),
            parse_items::<T>(start, i as nat, fv).taken() <= start.len(),
            deserializer@ == start.skip(parse_items::<T>(start, i as nat, fv).taken() as int),
            parse_items::<T>(start, i as nat, fv) matches Decoded::Value(vs, _) ==> vs
                == ret.deep_view(),
        decreases l - i,
    {
        let ghost before = deserializer@;
        let ghost m = parse_items::<T>(start, i as nat, fv).taken();
        match T::deserialize_checked(deserializer) {
            Ok(x) => {
                let ghost r0 = ret.deep_view();
                ret.push(x);
                proof {
                    assert(ret.deep_view() =~= r0.push(x.deep_view()));
                    assert(deserializer@ =~= start.skip(
                        m + T::spec_deserialize(before, fv).taken() as int,
                    ));
                }
                i += 1;
            },
            Err(e) => {
                proof {
                    lemma_items_failure_stays::<T>(start, (i + 1) as nat, l as nat, fv);
                }
                return Err(e);
            },
        }
    }
    Ok(ret)
}

/// Reads a `usize` count, then that many items, one by one.
fn regular_deserialize_vec<T: Deserialize>(deserializer: &mut Deserializer) -> (r: Result<
    Vec<T>,
    SavefileError,
>)
    requires
        T::spec_raw_copy_size(old(deserializer).file_version) is None,
    ensures
        same_versions(*old(deserializer), *final(deserializer)),
        decoded_as(
            parse_vec::<T>(old(deserializer)@, old(deserializer).file_version),
            r,
            old(deserializer)@,
            final(deserializer)@,
        ),
{
    let l = match deserializer.read_usize() {
        Ok(l) => l,
        Err(e) => return Err(e),
    };
    assert(deserializer@ == old(deserializer)@.skip(8));
    let r = read_items::<T>(deserializer, l);
    proof {
        let d = parse_items::<T>(old(deserializer)@.skip(8), l as nat, old(deserializer).file_version);
        if d.is_read() {
            assert(deserializer@ =~= old(deserializer)@.skip(d.taken() + 8 as int));
        }
    }
    r
}

/// Reads a vector whose items are read as one block of `size` raw bytes
/// each: the count, then a check that the block can be allocated and that
/// the input holds it, then the items.
fn raw_copy_deserialize_vec<T: Deserialize>(deserializer: &mut Deserializer, size: usize) -> (r:
    Result<Vec<T>, SavefileError>)
    requires
        T::spec_raw_copy_size(old(deserializer).file_version) == Some(size as nat),
    ensures
        same_versions(*old(deserializer), *final(deserializer)),
        decoded_as(
            parse_vec::<T>(old(deserializer)@, old(deserializer).file_version),
            r,
            old(deserializer)@,
            final(deserializer)@,
        ),
{
    broadcast use vstd::string::group_string_axioms;

    let num_elems = match deserializer.read_usize() {
        Ok(l) => l,
        Err(e) => return Err(e),
    };
    assert(deserializer@ == old(deserializer)@.skip(8));
    assert(size * num_elems == num_elems * size) by (nonlinear_arith);
    let num_bytes = match size.checked_mul(num_elems) {
        Some(n) => n,
        None => return Err(SavefileError::MemoryAllocationLayoutError),
    };
    if num_bytes > isize::MAX as usize {
        return Err(SavefileError::MemoryAllocationLayoutError);
    }
    if deserializer.reader.len() < num_bytes {
        let msg = "Short read".to_string();
        return Err(SavefileError::DataCorruption { msg });
    }
    let r = read_items::<T>(deserializer, num_elems);
    proof {
        let d = parse_items::<T>(
            old(deserializer)@.skip(8),
            num_elems as nat,
            old(deserializer).file_version,
        );
        if d.is_read() {
            assert(deserializer@ =~= old(deserializer)@.skip(d.taken() + 8 as int));
        }
    }
    r
}

impl<T: WithSchema> WithSchema for Vec<T> {
    open spec fn spec_schema(version: u32) -> SchemaView {
        SchemaView::Vector(Box::new(T::spec_schema(version)))
    }

    fn schema(version: u32) -> (r: Schema) {
        Schema::Vector(Box::new(T::schema(version)))
    }
}

impl<T: Serialize> Serialize for Vec<T> {
    open spec fn spec_serialize(&self, version: u32) -> Seq<u8> {
        usize_bytes(self@.len() as usize) + items_bytes(self@, version)
    }

    open spec fn spec_serializable(&self) -> bool {
        forall|i: int| 0 <= i < self@.len() ==> (#[trigger] self@[i]).spec_serializable()
    }

    open spec fn spec_modeled(&self) -> bool {
        forall|i: int| 0 <= i < self@.len() ==> (#[trigger] self@[i]).spec_modeled()
    }

    fn serialize(&self, serializer: &mut Serializer) -> (r: Result<(), SavefileError>) {
        regular_serialize_vec(self, serializer)
    }
}

impl<T: Deserialize> Deserialize for Vec<T> {
    open spec fn spec_deserialize(input: Seq<u8>, file_version: u32) -> Decoded<Seq<<T as DeepView>::V>> {
        parse_vec::<T>(input, file_version)
    }

    fn raw_copy_size(_file_version: u32) -> (r: Option<usize>) {
        None
    }

    /// Reads the items as one block of raw bytes where their type allows it
    /// for the file's version, else one by one.
    fn deserialize_checked(deserializer: &mut Deserializer) -> (r: Result<Vec<T>, SavefileError>) {
        match T::raw_copy_size(deserializer.file_version) {
            Some(size) => raw_copy_deserialize_vec::<T>(deserializer, size),
            None => regular_deserialize_vec::<T>(deserializer),
        }
    }
}

/// A field that has been removed from the data structures: it is still read
/// from files of older versions, and never written.
#[derive(Debug, PartialEq)]
pub struct Removed<T> {
    phantom: std::marker::PhantomData<T>,
}

impl<T> Removed<T> {
    pub fn new() -> Removed<T> {
        Removed { phantom: std::marker::PhantomData }
    }
}

impl<T> DeepView for Removed<T> {
    type V = ();

    open spec fn deep_view(&self) -> () {
        ()
    }
}

impl<T: WithSchema> WithSchema for Removed<T> {
    open spec fn spec_schema(version: u32) -> SchemaView {
        T::spec_schema(version)
    }

    fn schema(version: u32) -> (r: Schema) {
        T::schema(version)
    }
}

impl<T: WithSchema> Serialize for Removed<T> {
    /// A removed field has no bytes of its own.
    open spec fn spec_serialize(&self, version: u32) -> Seq<u8> {
        Seq::empty()
    }

    /// A removed field is never written.
    open spec fn spec_serializable(&self) -> bool {
        false
    }

    open spec fn spec_modeled(&self) -> bool {
        true
    }

    /// Never called: the field's version specification is wrong if it is,
    /// and it stops the program then.
    fn serialize(&self, _serializer: &mut Serializer) -> (r: Result<(), SavefileError>) {
        vstd::pervasive::unreached()
    }
}

impl<T: WithSchema + Deserialize> Deserialize for Removed<T> {
    /// A removed field is read as the type it had, and its value dropped.
    open spec fn spec_deserialize(input: Seq<u8>, file_version: u32) -> Decoded<()> {
        let d = T::spec_deserialize(input, file_version);
        if d.is_read() {
            Decoded::Value((), d.taken())
        } else {
            d.cast()
        }
    }

    fn raw_copy_size(_file_version: u32) -> (r: Option<usize>) {
        None
    }

    fn deserialize_checked(deserializer: &mut Deserializer) -> (r: Result<Removed<T>, SavefileError>) {
        match T::deserialize_checked(deserializer) {
            Ok(_) => Ok(Removed { phantom: std::marker::PhantomData }),
            Err(e) => Err(e),
        }
    }
}

/// The saved form of `u8`: a `u8` is saved as its one byte; reading those bytes back, whatever
/// follows, gives the value and takes exactly them; its schema is
/// `schema_u8` for every version; a vector of it is read as one block
/// of items of its size.
pub proof fn lemma_u8_saved_form(x: u8, version: u32, rest: Seq<u8>)
    ensures
        x.spec_serialize(version) == seq![x],
        <u8 as Deserialize>::spec_deserialize(seq![x] + rest, version) == Decoded::Value(x, 1),
        <u8 as WithSchema>::spec_schema(version) == SchemaView::Primitive(SchemaPrimitive::schema_u8),
        u8::spec_raw_copy_size(version) == Some(1nat),
{
        broadcast use vstd::layout::layout_of_primitives;

    crate::format::lemma_u8_roundtrip(x, rest);
}

/// The saved form of `i8`: an `i8` is saved as the one byte of its two's complement; reading those bytes back, whatever
/// follows, gives the value and takes exactly them; its schema is
/// `schema_i8` for every version; a vector of it is read as one block
/// of items of its size.
pub proof fn lemma_i8_saved_form(x: i8, version: u32, rest: Seq<u8>)
    ensures
        x.spec_serialize(version) == seq![x as u8],
        <i8 as Deserialize>::spec_deserialize(seq![x as u8] + rest, version) == Decoded::Value(x, 1),
        <i8 as WithSchema>::spec_schema(version) == SchemaView::Primitive(SchemaPrimitive::schema_i8),
        i8::spec_raw_copy_size(version) == Some(1nat),
{
        broadcast use vstd::layout::layout_of_primitives;

    crate::format::lemma_i8_roundtrip(x, rest);
}

/// The saved form of `u16`: a `u16` is saved as its 2 little-endian bytes; reading those bytes back, whatever
/// follows, gives the value and takes exactly them; its schema is
/// `schema_u16` for every version; a vector of it is read as one block
/// of items of its size.
pub proof fn lemma_u16_saved_form(x: u16, version: u32, rest: Seq<u8>)
    ensures
        x.spec_serialize(version) == le_bytes(x as nat, 2),
        <u16 as Deserialize>::spec_deserialize(le_bytes(x as nat, 2) + rest, version) == Decoded::Value(x, 2),
        <u16 as WithSchema>::spec_schema(version) == SchemaView::Primitive(SchemaPrimitive::schema_u16),
        u16::spec_raw_copy_size(version) == Some(2nat),
{
        broadcast use vstd::layout::layout_of_primitives;

    crate::format::lemma_u16_roundtrip(x, rest);
}

/// The saved form of `i16`: an `i16` is saved as the 2 little-endian bytes of its two's complement; reading those bytes back, whatever
/// follows, gives the value and takes exactly them; its schema is
/// `schema_i16` for every version; a vector of it is read as one block
/// of items of its size.
pub proof fn lemma_i16_saved_form(x: i16, version: u32, rest: Seq<u8>)
    ensures
        x.spec_serialize(version) == le_bytes((x as u16) as nat, 2),
        <i16 as Deserialize>::spec_deserialize(le_bytes((x as u16) as nat, 2) + rest, version) == Decoded::Value(x, 2),
        <i16 as WithSchema>::spec_schema(version) == SchemaView::Primitive(SchemaPrimitive::schema_i16),
        i16::spec_raw_copy_size(version) == Some(2nat),
{
        broadcast use vstd::layout::layout_of_primitives;

    crate::format::lemma_i16_roundtrip(x, rest);
}

/// The saved form of `u32`: a `u32` is saved as its 4 little-endian bytes; reading those bytes back, whatever
/// follows, gives the value and takes exactly them; its schema is
/// `schema_u32` for every version; a vector of it is read as one block
/// of items of its size.
pub proof fn lemma_u32_saved_form(x: u32, version: u32, rest: Seq<u8>)
    ensures
        x.spec_serialize(version) == le_bytes(x as nat, 4),
        <u32 as Deserialize>::spec_deserialize(le_bytes(x as nat, 4) + rest, version) == Decoded::Value(x, 4),
        <u32 as WithSchema>::spec_schema(version) == SchemaView::Primitive(SchemaPrimitive::schema_u32),
        u32::spec_raw_copy_size(version) == Some(4nat),
{
        broadcast use vstd::layout::layout_of_primitives;

    crate::format::lemma_u32_roundtrip(x, rest);
}

/// The saved form of `i32`: an `i32` is saved as the 4 little-endian bytes of its two's complement; reading those bytes back, whatever
/// follows, gives the value and takes exactly them; its schema is
/// `schema_i32` for every version; a vector of it is read as one block
/// of items of its size.
pub proof fn lemma_i32_saved_form(x: i32, version: u32, rest: Seq<u8>)
    ensures
        x.spec_serialize(version) == le_bytes((x as u32) as nat, 4),
        <i32 as Deserialize>::spec_deserialize(le_bytes((x as u32) as nat, 4) + rest, version) == Decoded::Value(x, 4),
        <i32 as WithSchema>::spec_schema(version) == SchemaView::Primitive(SchemaPrimitive::schema_i32),
        i32::spec_raw_copy_size(version) == Some(4nat),
{
        broadcast use vstd::layout::layout_of_primitives;

    crate::format::lemma_i32_roundtrip(x, rest);
}

/// The saved form of `u64`: a `u64` is saved as its 8 little-endian bytes; reading those bytes back, whatever
/// follows, gives the value and takes exactly them; its schema is
/// `schema_u64` for every version; a vector of it is read as one block
/// of items of its size.
pub proof fn lemma_u64_saved_form(x: u64, version: u32, rest: Seq<u8>)
    ensures
        x.spec_serialize(version) == le_bytes(x as nat, 8),
        <u64 as Deserialize>::spec_deserialize(le_bytes(x as nat, 8) + rest, version) == Decoded::Value(x, 8),
        <u64 as WithSchema>::spec_schema(version) == SchemaView::Primitive(SchemaPrimitive::schema_u64),
        u64::spec_raw_copy_size(version) == Some(8nat),
{
        broadcast use vstd::layout::layout_of_primitives;

    crate::format::lemma_u64_roundtrip(x, rest);
}

/// The saved form of `i64`: an `i64` is saved as the 8 little-endian bytes of its two's complement; reading those bytes back, whatever
/// follows, gives the value and takes exactly them; its schema is
/// `schema_i64` for every version; a vector of it is read as one block
/// of items of its size.
pub proof fn lemma_i64_saved_form(x: i64, version: u32, rest: Seq<u8>)
    ensures
        x.spec_serialize(version) == le_bytes((x as u64) as nat, 8),
        <i64 as Deserialize>::spec_deserialize(le_bytes((x as u64) as nat, 8) + rest, version) == Decoded::Value(x, 8),
        <i64 as WithSchema>::spec_schema(version) == SchemaView::Primitive(SchemaPrimitive::schema_i64),
        i64::spec_raw_copy_size(version) == Some(8nat),
{
        broadcast use vstd::layout::layout_of_primitives;

    crate::format::lemma_i64_roundtrip(x, rest);
}

/// The saved form of `usize`: a `usize` is saved as the 8 little-endian bytes of the same number as a `u64`; reading those bytes back, whatever
/// follows, gives the value and takes exactly them; its schema is
/// `schema_usize` for every version; a vector of it is read as one block
/// of items of its size.
pub proof fn lemma_usize_saved_form(x: usize, version: u32, rest: Seq<u8>)
    ensures
        x.spec_serialize(version) == le_bytes((x as u64) as nat, 8),
        <usize as Deserialize>::spec_deserialize(le_bytes((x as u64) as nat, 8) + rest, version) == Decoded::Value(x, 8),
        <usize as WithSchema>::spec_schema(version) == SchemaView::Primitive(SchemaPrimitive::schema_usize),
        usize::spec_raw_copy_size(version) == Some((usize::BITS / 8) as nat),
{
        broadcast use vstd::layout::layout_of_primitives;

    crate::format::lemma_usize_roundtrip(x, rest);
}

/// The saved form of `isize`: an `isize` is saved as the 8 little-endian bytes of the same number as an `i64`; reading those bytes back, whatever
/// follows, gives the value and takes exactly them; its schema is
/// `schema_isize` for every version; a vector of it is read as one block
/// of items of its size.
pub proof fn lemma_isize_saved_form(x: isize, version: u32, rest: Seq<u8>)
    ensures
        x.spec_serialize(version) == le_bytes(((x as i64) as u64) as nat, 8),
        <isize as Deserialize>::spec_deserialize(le_bytes(((x as i64) as u64) as nat, 8) + rest, version) == Decoded::Value(x, 8),
        <isize as WithSchema>::spec_schema(version) == SchemaView::Primitive(SchemaPrimitive::schema_isize),
        isize::spec_raw_copy_size(version) == Some((usize::BITS / 8) as nat),
{
        broadcast use vstd::layout::layout_of_primitives;

    crate::format::lemma_isize_roundtrip(x, rest);
}

/// The saved form of a `String`: the length of its UTF-8 encoding as 8
/// little-endian bytes, then the UTF-8 bytes; reading those back, whatever
/// follows, gives the string and takes exactly them; its schema is
/// `schema_string` for every version. (Every string in memory has a UTF-8
/// length that fits in a `usize`.)
pub proof fn lemma_string_saved_form(x: String, version: u32, rest: Seq<u8>)
    requires
        encode_utf8(x@).len() <= usize::MAX,
    ensures
        x.spec_serialize(version) == le_bytes(encode_utf8(x@).len(), 8) + encode_utf8(x@),
        <String as Deserialize>::spec_deserialize(
            le_bytes(encode_utf8(x@).len(), 8) + encode_utf8(x@) + rest,
            version,
        ) == Decoded::Value(x@, 8 + encode_utf8(x@).len()),
        <String as WithSchema>::spec_schema(version) == SchemaView::Primitive(
            SchemaPrimitive::schema_string,
        ),
{
    let b = encode_utf8(x@);
    crate::format::lemma_string_roundtrip(x@, rest);
    lemma_le_bytes_len(((b.len() as usize) as u64) as nat, 8);
}

/// The schema of a vector is a vector of its items' schema, and that of a
/// removed field is the schema of the type the field had, for every version.
pub proof fn lemma_vec_and_removed_schemas<T: WithSchema>(version: u32)
    ensures
        <Vec<T> as WithSchema>::spec_schema(version) == SchemaView::Vector(
            Box::new(T::spec_schema(version)),
        ),
        <Removed<T> as WithSchema>::spec_schema(version) == T::spec_schema(version),
{
}

/// A removed field is read past: where a value of the type the field had
/// reads back from its bytes, whatever follows, reading the removed field
/// there takes exactly those bytes.
pub proof fn lemma_removed_reads_past<T: Serialize + Deserialize>(x: T, version: u32, rest: Seq<u8>)
    requires
        T::spec_deserialize(x.spec_serialize(version) + rest, version) == Decoded::Value(
            x.deep_view(),
            x.spec_serialize(version).len(),
        ),
    ensures
        <Removed<T> as Deserialize>::spec_deserialize(x.spec_serialize(version) + rest, version)
            == Decoded::Value((), x.spec_serialize(version).len()),
{
}

/// Reading back the bytes of items, each of which reads back on its own,
/// whatever follows, gives the items and takes exactly their bytes.
pub proof fn lemma_items_roundtrip<T: Serialize + Deserialize>(
    items: Seq<T>,
    version: u32,
    rest: Seq<u8>,
)
    requires
        forall|i: int, tail: Seq<u8>|
            0 <= i < items.len() ==> #[trigger] T::spec_deserialize(
                items[i].spec_serialize(version) + tail,
                version,
            ) == Decoded::Value(items[i].deep_view(), items[i].spec_serialize(version).len()),
    ensures
        parse_items::<T>(items_bytes(items, version) + rest, items.len(), version) == Decoded::Value(
            Seq::new(items.len(), |i: int| items[i].deep_view()),
            items_bytes(items, version).len(),
        ),
    decreases items.len(),
{
    if items.len() == 0 {
        assert(Seq::new(0, |i: int| items[i].deep_view()) =~= Seq::<<T as DeepView>::V>::empty());
    } else {
        let init = items.drop_last();
        let last = items.last();
        let input = items_bytes(items, version) + rest;
        let tail = last.spec_serialize(version) + rest;
        assert(input =~= items_bytes(init, version) + tail);
        assert forall|i: int, t: Seq<u8>| 0 <= i < init.len() implies #[trigger] T::spec_deserialize(
            init[i].spec_serialize(version) + t,
            version,
        ) == Decoded::Value(init[i].deep_view(), init[i].spec_serialize(version).len()) by {
            assert(init[i] == items[i]);
        }
        lemma_items_roundtrip::<T>(init, version, tail);
        let m = items_bytes(init, version).len();
        assert(input.skip(m as int) =~= tail);
        assert(T::spec_deserialize(items[items.len() - 1].spec_serialize(version) + rest, version)
            == Decoded::Value(last.deep_view(), last.spec_serialize(version).len()));
        assert(Seq::new(init.len(), |i: int| init[i].deep_view()).push(last.deep_view()) =~= Seq::new(
            items.len(),
            |i: int| items[i].deep_view(),
        ));
    }
}

/// Reading back the bytes of a vector whose items each read back on their
/// own, whatever follows, gives the vector and takes exactly its bytes.
/// Where the items are read as one block of raw bytes, the block must be
/// no larger than an allocation can be and must lie within their bytes (it
/// does for every vector in memory on a 64-bit target).
pub proof fn lemma_vec_roundtrip<T: Serialize + Deserialize>(v: Vec<T>, version: u32, rest: Seq<u8>)
    requires
        T::spec_raw_copy_size(version) matches Some(size) ==> v@.len() * size <= isize::MAX
            && v@.len() * size <= items_bytes(v@, version).len(),
        forall|i: int, tail: Seq<u8>|
            0 <= i < v@.len() ==> #[trigger] T::spec_deserialize(
                v@[i].spec_serialize(version) + tail,
                version,
            ) == Decoded::Value(v@[i].deep_view(), v@[i].spec_serialize(version).len()),
    ensures
        <Vec<T> as Deserialize>::spec_deserialize(v.spec_serialize(version) + rest, version)
            == Decoded::Value(v.deep_view(), v.spec_serialize(version).len()),
{
    let body = items_bytes(v@, version);
    let n = v@.len() as usize;
    assert(v.len() == v@.len());
    let input = v.spec_serialize(version) + rest;
    assert(input =~= usize_bytes(n) + (body + rest));
    lemma_usize_roundtrip(n, body + rest);
    lemma_le_bytes_len((n as u64) as nat, 8);
    assert(input.skip(8) =~= body + rest);
    lemma_items_roundtrip::<T>(v@, version, rest);
}

} // verus!
