//! The schema: a description of the layout of saved data, which is itself saved.
use vstd::prelude::*;
use crate::error::SavefileError;
use crate::traits::{WithSchema, Serialize, Deserialize};
use crate::serializer::{Serializer, appended, lemma_appended_extends};
use crate::deserializer::{Deserializer, same_versions};
use vstd::utf8::encode_utf8;
use crate::bytes::lemma_le_bytes_len;
use crate::format::{lemma_u16_roundtrip, lemma_usize_roundtrip, lemma_string_roundtrip,
    Decoded, decoded_as, u16_bytes, usize_bytes, str_bytes, parse_u16, parse_usize, parse_string,
};

verus! {

broadcast use lemma_appended_extends;

/// A named field of a struct or of an enum variant.
#[derive(Debug, PartialEq)]
pub struct Field {
    pub name: String,
    pub value: Box<Schema>,
}

/// The fields of a struct.
#[derive(Debug, PartialEq)]
pub struct SchemaStruct {
    pub fields: Vec<Field>,
}

/// A variant of an enum: its name, its discriminator and its fields.
#[derive(Debug, PartialEq)]
pub struct Variant {
    pub name: String,
    pub discriminator: u16,
    pub fields: Vec<Field>,
}

/// The variants of an enum.
#[derive(Debug, PartialEq)]
pub struct SchemaEnum {
    pub variants: Vec<Variant>,
}

/// The primitive types.
#[allow(non_camel_case_types)]
#[derive(Debug, PartialEq, Clone, Copy)]
pub enum SchemaPrimitive {
    schema_i8,
    schema_u8,
    schema_i16,
    schema_u16,
    schema_i32,
    schema_u32,
    schema_i64,
    schema_u64,
    schema_isize,
    schema_usize,
    schema_string,
}

/// The schema represents the save file format of your data.
#[derive(Debug, PartialEq)]
pub enum Schema {
    Struct(SchemaStruct),
    Enum(SchemaEnum),
    Primitive(SchemaPrimitive),
    Vector(Box<Schema>),
    Undefined,
}

/// The value of a [`Field`].
pub struct FieldView {
    pub name: Seq<char>,
    pub value: SchemaView,
}

/// The value of a [`Variant`].
pub struct VariantView {
    pub name: Seq<char>,
    pub discriminator: u16,
    pub fields: Seq<FieldView>,
}

/// The value of a [`Schema`].
pub enum SchemaView {
    Struct(Seq<FieldView>),
    Enum(Seq<VariantView>),
    Primitive(SchemaPrimitive),
    Vector(Box<SchemaView>),
    Undefined,
}

/// The value of a schema.
pub open spec fn schema_view(s: Schema) -> SchemaView
    decreases s,
{
    match s {
        Schema::Struct(st) => SchemaView::Struct(fields_view(st.fields@)),
        Schema::Enum(en) => SchemaView::Enum(variants_view(en.variants@)),
        Schema::Primitive(p) => SchemaView::Primitive(p),
        Schema::Vector(b) => SchemaView::Vector(Box::new(schema_view(*b))),
        Schema::Undefined => SchemaView::Undefined,
    }
}

/// The value of a field.
pub open spec fn field_view(f: Field) -> FieldView
    decreases f,
{
    FieldView { name: f.name@, value: schema_view(*f.value) }
}

/// The values of a list of fields.
pub open spec fn fields_view(fs: Seq<Field>) -> Seq<FieldView>
    decreases fs,
{
    if fs.len() == 0 {
        Seq::empty()
    } else {
        fields_view(fs.drop_last()).push(field_view(fs.last()))
    }
}

/// The value of a variant.
pub open spec fn variant_view(v: Variant) -> VariantView
    decreases v,
{
    VariantView { name: v.name@, discriminator: v.discriminator, fields: fields_view(v.fields@) }
}

/// The values of a list of variants.
pub open spec fn variants_view(vs: Seq<Variant>) -> Seq<VariantView>
    decreases vs,
{
    if vs.len() == 0 {
        Seq::empty()
    } else {
        variants_view(vs.drop_last()).push(variant_view(vs.last()))
    }
}

/// The number that stands for each primitive type in the format.
pub open spec fn primitive_tag(p: SchemaPrimitive) -> u16 {
    match p {
        SchemaPrimitive::schema_i8 => 1,
        SchemaPrimitive::schema_u8 => 2,
        SchemaPrimitive::schema_i16 => 3,
        SchemaPrimitive::schema_u16 => 4,
        SchemaPrimitive::schema_i32 => 5,
        SchemaPrimitive::schema_u32 => 6,
        SchemaPrimitive::schema_i64 => 7,
        SchemaPrimitive::schema_u64 => 8,
        SchemaPrimitive::schema_isize => 9,
        SchemaPrimitive::schema_usize => 10,
        SchemaPrimitive::schema_string => 11,
    }
}

/// The primitive type that a number stands for, if any.
pub open spec fn primitive_of_tag(t: u16) -> Option<SchemaPrimitive> {
    if t == 1 {
        Some(SchemaPrimitive::schema_i8)
    } else if t == 2 {
        Some(SchemaPrimitive::schema_u8)
    } else if t == 3 {
        Some(SchemaPrimitive::schema_i16)
    } else if t == 4 {
        Some(SchemaPrimitive::schema_u16)
    } else if t == 5 {
        Some(SchemaPrimitive::schema_i32)
    } else if t == 6 {
        Some(SchemaPrimitive::schema_u32)
    } else if t == 7 {
        Some(SchemaPrimitive::schema_i64)
    } else if t == 8 {
        Some(SchemaPrimitive::schema_u64)
    } else if t == 9 {
        Some(SchemaPrimitive::schema_isize)
    } else if t == 10 {
        Some(SchemaPrimitive::schema_usize)
    } else if t == 11 {
        Some(SchemaPrimitive::schema_string)
    } else {
        None
    }
}

/// The bytes of a primitive type: its number as a `u16`.
pub open spec fn primitive_bytes(p: SchemaPrimitive) -> Seq<u8> {
    u16_bytes(primitive_tag(p))
}

/// The bytes of a schema: a `u16` that tells the kind (1 struct, 2 enum,
/// 3 primitive, 4 vector, 5 undefined), then what the kind holds.
pub open spec fn schema_bytes(s: SchemaView) -> Seq<u8>
    decreases s,
{
    match s {
        SchemaView::Struct(fs) => u16_bytes(1) + (usize_bytes(fs.len() as usize) + fields_bytes(fs)),
        SchemaView::Enum(vs) => u16_bytes(2) + (usize_bytes(vs.len() as usize) + variants_bytes(vs)),
        SchemaView::Primitive(p) => u16_bytes(3) + primitive_bytes(p),
        SchemaView::Vector(b) => u16_bytes(4) + schema_bytes(*b),
        SchemaView::Undefined => u16_bytes(5),
    }
}

/// The bytes of a field: its name, then its schema.
pub open spec fn field_bytes(f: FieldView) -> Seq<u8>
    decreases f,
{
    str_bytes(f.name) + schema_bytes(f.value)
}

/// The bytes of the fields, one after the other.
pub open spec fn fields_bytes(fs: Seq<FieldView>) -> Seq<u8>
    decreases fs,
{
    if fs.len() == 0 {
        Seq::empty()
    } else {
        fields_bytes(fs.drop_last()) + field_bytes(fs.last())
    }
}

/// The bytes of a variant: its name, its discriminator, the number of its
/// fields, then the fields.
pub open spec fn variant_bytes(v: VariantView) -> Seq<u8>
    decreases v,
{
    str_bytes(v.name) + u16_bytes(v.discriminator) + (usize_bytes(v.fields.len() as usize)
        + fields_bytes(v.fields))
}

/// The bytes of the variants, one after the other.
pub open spec fn variants_bytes(vs: Seq<VariantView>) -> Seq<u8>
    decreases vs,
{
    if vs.len() == 0 {
        Seq::empty()
    } else {
        variants_bytes(vs.drop_last()) + variant_bytes(vs.last())
    }
}

/// The bytes of the fields of a struct: how many, then the fields.
pub open spec fn struct_bytes(fs: Seq<FieldView>) -> Seq<u8> {
    usize_bytes(fs.len() as usize) + fields_bytes(fs)
}

/// The bytes of the variants of an enum: how many, then the variants.
pub open spec fn enum_bytes(vs: Seq<VariantView>) -> Seq<u8> {
    usize_bytes(vs.len() as usize) + variants_bytes(vs)
}

/// Reading a primitive type; a number that stands for none is refused.
pub open spec fn parse_primitive(input: Seq<u8>) -> Decoded<SchemaPrimitive> {
    match parse_u16(input) {
        Decoded::Value(t, n) => match primitive_of_tag(t) {
            Some(p) => Decoded::Value(p, n),
            None => Decoded::Refused,
        },
        _ => Decoded::EndOfInput,
    }
}

/// Reading a schema; a kind number other than 1 to 5 is refused.
pub open spec fn parse_schema(input: Seq<u8>) -> Decoded<SchemaView>
    decreases input.len(), 0nat,
{
    match parse_u16(input) {
        Decoded::Value(t, n) => {
            let rest = input.skip(2);
            if input.len() < 2 {
                Decoded::EndOfInput
            } else if t == 1 {
                match parse_struct(rest) {
                    Decoded::Value(fs, k) => Decoded::Value(SchemaView::Struct(fs), k + 2),
                    other => other.cast(),
                }
            } else if t == 2 {
                match parse_enum(rest) {
                    Decoded::Value(vs, k) => Decoded::Value(SchemaView::Enum(vs), k + 2),
                    other => other.cast(),
                }
            } else if t == 3 {
                match parse_primitive(rest) {
                    Decoded::Value(p, k) => Decoded::Value(SchemaView::Primitive(p), k + 2),
                    other => other.cast(),
                }
            } else if t == 4 {
                match parse_schema(rest) {
                    Decoded::Value(s, k) => Decoded::Value(SchemaView::Vector(Box::new(s)), k + 2),
                    other => other.cast(),
                }
            } else if t == 5 {
                Decoded::Value(SchemaView::Undefined, 2)
            } else {
                Decoded::Refused
            }
        },
        _ => Decoded::EndOfInput,
    }
}

/// Reading the fields of a struct: a `usize` count, then that many fields.
pub open spec fn parse_struct(input: Seq<u8>) -> Decoded<Seq<FieldView>>
    decreases input.len(), 0nat,
{
    match parse_usize(input) {
        Decoded::Value(l, _) => if input.len() < 8 {
            Decoded::EndOfInput
        } else {
            match parse_fields(input.skip(8), l as nat) {
                Decoded::Value(fs, k) => Decoded::Value(fs, k + 8),
                other => other.cast(),
            }
        },
        _ => Decoded::EndOfInput,
    }
}

/// Reading the variants of an enum: a `usize` count, then that many variants.
pub open spec fn parse_enum(input: Seq<u8>) -> Decoded<Seq<VariantView>>
    decreases input.len(), 0nat,
{
    match parse_usize(input) {
        Decoded::Value(l, _) => if input.len() < 8 {
            Decoded::EndOfInput
        } else {
            match parse_variants(input.skip(8), l as nat) {
                Decoded::Value(vs, k) => Decoded::Value(vs, k + 8),
                other => other.cast(),
            }
        },
        _ => Decoded::EndOfInput,
    }
}

/// Reading a field: a name, then a schema.
pub open spec fn parse_field(input: Seq<u8>) -> Decoded<FieldView>
    decreases input.len(), 0nat,
{
    match parse_string(input) {
        Decoded::Value(name, k) => if 0 < k <= input.len() {
            match parse_schema(input.skip(k as int)) {
                Decoded::Value(s, j) => Decoded::Value(FieldView { name, value: s }, k + j),
                other => other.cast(),
            }
        } else {
            Decoded::EndOfInput
        },
        other => other.cast(),
    }
}

/// Reading `n` fields one after the other; the first failure ends it.
pub open spec fn parse_fields(input: Seq<u8>, n: nat) -> Decoded<Seq<FieldView>>
    decreases input.len(), n,
{
    if n == 0 {
        Decoded::Value(Seq::empty(), 0)
    } else {
        match parse_fields(input, (n - 1) as nat) {
            Decoded::Value(fs, m) => if m <= input.len() {
                match parse_field(input.skip(m as int)) {
                    Decoded::Value(f, k) => Decoded::Value(fs.push(f), m + k),
                    other => other.cast(),
                }
            } else {
                Decoded::EndOfInput
            },
            other => other.cast(),
        }
    }
}

/// Reading a variant: a name, a `u16` discriminator, then its fields as a struct's.
pub open spec fn parse_variant(input: Seq<u8>) -> Decoded<VariantView>
    decreases input.len(), 0nat,
{
    match parse_string(input) {
        Decoded::Value(name, k) => if 0 < k <= input.len() {
            let r1 = input.skip(k as int);
            match parse_u16(r1) {
                Decoded::Value(d, _) => if r1.len() < 2 {
                    Decoded::EndOfInput
                } else {
                    match parse_struct(r1.skip(2)) {
                        Decoded::Value(fs, j) => Decoded::Value(
                            VariantView { name, discriminator: d, fields: fs },
                            k + 2 + j,
                        ),
                        other => other.cast(),
                    }
                },
                _ => Decoded::EndOfInput,
            }
        } else {
            Decoded::EndOfInput
        },
        other => other.cast(),
    }
}

/// Reading `n` variants one after the other; the first failure ends it.
pub open spec fn parse_variants(input: Seq<u8>, n: nat) -> Decoded<Seq<VariantView>>
    decreases input.len(), n,
{
    if n == 0 {
        Decoded::Value(Seq::empty(), 0)
    } else {
        match parse_variants(input, (n - 1) as nat) {
            Decoded::Value(vs, m) => if m <= input.len() {
                match parse_variant(input.skip(m as int)) {
                    Decoded::Value(v, k) => Decoded::Value(vs.push(v), m + k),
                    other => other.cast(),
                }
            } else {
                Decoded::EndOfInput
            },
            other => other,
        }
    }
}

/// Viewing fields keeps their number.
pub proof fn lemma_fields_view_len(fs: Seq<Field>)
    ensures
        fields_view(fs).len() == fs.len(),
    decreases fs.len(),
{
    if fs.len() > 0 {
        lemma_fields_view_len(fs.drop_last());
    }
}

/// Viewing variants keeps their number.
pub proof fn lemma_variants_view_len(vs: Seq<Variant>)
    ensures
        variants_view(vs).len() == vs.len(),
    decreases vs.len(),
{
    if vs.len() > 0 {
        lemma_variants_view_len(vs.drop_last());
    }
}

/// The number that stands for a primitive type.
fn primitive_number(p: &SchemaPrimitive) -> (r: u16)
    ensures
        r == primitive_tag(*p),
{
    match *p {
        SchemaPrimitive::schema_i8 => 1,
        SchemaPrimitive::schema_u8 => 2,
        SchemaPrimitive::schema_i16 => 3,
        SchemaPrimitive::schema_u16 => 4,
        SchemaPrimitive::schema_i32 => 5,
        SchemaPrimitive::schema_u32 => 6,
        SchemaPrimitive::schema_i64 => 7,
        SchemaPrimitive::schema_u64 => 8,
        SchemaPrimitive::schema_isize => 9,
        SchemaPrimitive::schema_usize => 10,
        SchemaPrimitive::schema_string => 11,
    }
}

/// Writes a primitive type as its number.
fn write_primitive(p: &SchemaPrimitive, serializer: &mut Serializer) -> (r: Result<(), SavefileError>)
    ensures
        appended(*old(serializer), *final(serializer), primitive_bytes(*p)),
        r is Ok,
{
    let discr = primitive_number(p);
    serializer.write_u16(discr)
}

/// Writes a schema: its kind number, then what the kind holds.
fn write_schema(s: &Schema, serializer: &mut Serializer) -> (r: Result<(), SavefileError>)
    ensures
        appended(*old(serializer), *final(serializer), schema_bytes(schema_view(*s))),
        schema_fits(schema_view(*s)),
        r is Ok,
    decreases *s,
{
    match s {
        Schema::Struct(schema_struct) => {
            let _ = serializer.write_u16(1);
            let r = write_fields(&schema_struct.fields, serializer);
            assert(serializer@ =~= old(serializer)@ + schema_bytes(schema_view(*s)));
            r
        },
        Schema::Enum(schema_enum) => {
            let _ = serializer.write_u16(2);
            let r = write_variants(&schema_enum.variants, serializer);
            assert(serializer@ =~= old(serializer)@ + schema_bytes(schema_view(*s)));
            r
        },
        Schema::Primitive(schema_prim) => {
            let _ = serializer.write_u16(3);
            let r = write_primitive(schema_prim, serializer);
            assert(serializer@ =~= old(serializer)@ + schema_bytes(schema_view(*s)));
            r
        },
        Schema::Vector(schema_vector) => {
            let _ = serializer.write_u16(4);
            let r = write_schema(schema_vector, serializer);
            assert(serializer@ =~= old(serializer)@ + schema_bytes(schema_view(*s)));
            r
        },
        Schema::Undefined => serializer.write_u16(5),
    }
}

/// Writes a field: its name, then its schema.
fn write_field(f: &Field, serializer: &mut Serializer) -> (r: Result<(), SavefileError>)
    ensures
        appended(*old(serializer), *final(serializer), field_bytes(field_view(*f))),
        field_fits(field_view(*f)),
        r is Ok,
    decreases *f,
{
    let _ = serializer.write_string(f.name.as_str());
    let r = write_schema(&f.value, serializer);
    assert(serializer@ =~= old(serializer)@ + field_bytes(field_view(*f)));
    r
}

/// Writes the number of fields, then the fields.
fn write_fields(fields: &Vec<Field>, serializer: &mut Serializer) -> (r: Result<(), SavefileError>)
    ensures
        appended(*old(serializer), *final(serializer), struct_bytes(fields_view(fields@))),
        fields_view(fields@).len() <= usize::MAX,
        fields_fit(fields_view(fields@)),
        r is Ok,
    decreases *fields,
{
    let _ = serializer.write_usize(fields.len());
    let ghost start = serializer@;
    let mut i: usize = 0;
    while i < fields.len()
        invariant
            i <= fields@.len(),
            serializer@ == start + fields_bytes(fields_view(fields@.take(i as int))),
            fields_fit(fields_view(fields@.take(i as int))),
            serializer.version == old(serializer).version,
            start == old(serializer)@ + usize_bytes(fields@.len() as usize),
        decreases fields@.len() - i,
    {
        let _ = write_field(&fields[i], serializer);
        proof {
            let t0 = fields@.take(i as int);
            let t1 = fields@.take(i + 1);
            assert(t1.drop_last() =~= t0);
            let v1 = fields_view(t1);
            assert(v1 == fields_view(t0).push(field_view(fields@[i as int])));
            assert(v1.drop_last() =~= fields_view(t0));
            assert(fields_bytes(v1) == fields_bytes(fields_view(t0)) + field_bytes(field_view(fields@[i as int])));
        }
        i += 1;
        assert(serializer@ =~= start + fields_bytes(fields_view(fields@.take(i as int))));
    }
    assert(fields@.take(fields@.len() as int) =~= fields@);
    proof {
        lemma_fields_view_len(fields@);
    }
    assert(serializer@ =~= old(serializer)@ + struct_bytes(fields_view(fields@)));
    Ok(())
}

/// Writes a variant: its name, its discriminator, then its fields.
fn write_variant(v: &Variant, serializer: &mut Serializer) -> (r: Result<(), SavefileError>)
    ensures
        appended(*old(serializer), *final(serializer), variant_bytes(variant_view(*v))),
        variant_fits(variant_view(*v)),
        r is Ok,
    decreases *v,
{
    let _ = serializer.write_string(v.name.as_str());
    let _ = serializer.write_u16(v.discriminator);
    let r = write_fields(&v.fields, serializer);
    assert(serializer@ =~= old(serializer)@ + variant_bytes(variant_view(*v)));
    r
}

/// Writes the number of variants, then the variants.
fn write_variants(variants: &Vec<Variant>, serializer: &mut Serializer) -> (r: Result<(), SavefileError>)
    ensures
        appended(*old(serializer), *final(serializer), enum_bytes(variants_view(variants@))),
        variants_view(variants@).len() <= usize::MAX,
        variants_fit(variants_view(variants@)),
        r is Ok,
    decreases *variants,
{
    let _ = serializer.write_usize(variants.len());
    let ghost start = serializer@;
    let mut i: usize = 0;
    while i < variants.len()
        invariant
            i <= variants@.len(),
            serializer@ == start + variants_bytes(variants_view(variants@.take(i as int))),
            variants_fit(variants_view(variants@.take(i as int))),
            serializer.version == old(serializer).version,
            start == old(serializer)@ + usize_bytes(variants@.len() as usize),
        decreases variants@.len() - i,
    {
        let _ = write_variant(&variants[i], serializer);
        proof {
            let t0 = variants@.take(i as int);
            let t1 = variants@.take(i + 1);
            assert(t1.drop_last() =~= t0);
            let v1 = variants_view(t1);
            assert(v1 == variants_view(t0).push(variant_view(variants@[i as int])));
            assert(v1.drop_last() =~= variants_view(t0));
            assert(variants_bytes(v1) == variants_bytes(variants_view(t0)) + variant_bytes(variant_view(variants@[i as int])));
        }
        i += 1;
        assert(serializer@ =~= start + variants_bytes(variants_view(variants@.take(i as int))));
    }
    assert(variants@.take(variants@.len() as int) =~= variants@);
    proof {
        lemma_variants_view_len(variants@);
    }
    assert(serializer@ =~= old(serializer)@ + enum_bytes(variants_view(variants@)));
    Ok(())
}

impl DeepView for SchemaPrimitive {
    type V = SchemaPrimitive;

    open spec fn deep_view(&self) -> SchemaPrimitive {
        *self
    }
}

impl DeepView for Schema {
    type V = SchemaView;

    open spec fn deep_view(&self) -> SchemaView {
        schema_view(*self)
    }
}

impl DeepView for Field {
    type V = FieldView;

    open spec fn deep_view(&self) -> FieldView {
        field_view(*self)
    }
}

impl DeepView for Variant {
    type V = VariantView;

    open spec fn deep_view(&self) -> VariantView {
        variant_view(*self)
    }
}

impl DeepView for SchemaStruct {
    type V = Seq<FieldView>;

    open spec fn deep_view(&self) -> Seq<FieldView> {
        fields_view(self.fields@)
    }
}

impl DeepView for SchemaEnum {
    type V = Seq<VariantView>;

    open spec fn deep_view(&self) -> Seq<VariantView> {
        variants_view(self.variants@)
    }
}

/// The deep view of a vector of fields is the view of its fields.
pub proof fn lemma_fields_deep_view(fs: Vec<Field>)
    ensures
        fs.deep_view() == fields_view(fs@),
    decreases fs@.len(),
{
    lemma_fields_view_seq(fs@);
}

/// The view of a list of fields is the list of the fields' deep views.
pub proof fn lemma_fields_view_seq(fs: Seq<Field>)
    ensures
        fields_view(fs) =~= Seq::new(fs.len(), |i: int| fs[i].deep_view()),
    decreases fs.len(),
{
    if fs.len() > 0 {
        lemma_fields_view_seq(fs.drop_last());
    }
}

/// The deep view of a vector of variants is the view of its variants.
pub proof fn lemma_variants_deep_view(vs: Vec<Variant>)
    ensures
        vs.deep_view() == variants_view(vs@),
{
    lemma_variants_view_seq(vs@);
}

/// The view of a list of variants is the list of the variants' deep views.
pub proof fn lemma_variants_view_seq(vs: Seq<Variant>)
    ensures
        variants_view(vs) =~= Seq::new(vs.len(), |i: int| vs[i].deep_view()),
    decreases vs.len(),
{
    if vs.len() > 0 {
        lemma_variants_view_seq(vs.drop_last());
    }
}

/// Once reading fields has failed, reading more of them fails in the same way.
proof fn lemma_fields_failure_stays(input: Seq<u8>, n1: nat, n2: nat)
    requires
        n1 <= n2,
        !(parse_fields(input, n1) is Value),
    ensures
        parse_fields(input, n2) == parse_fields(input, n1),
    decreases n2,
{
    if n2 > n1 {
        lemma_fields_failure_stays(input, n1, (n2 - 1) as nat);
    }
}

/// Once reading variants has failed, reading more of them fails in the same way.
proof fn lemma_variants_failure_stays(input: Seq<u8>, n1: nat, n2: nat)
    requires
        n1 <= n2,
        !(parse_variants(input, n1) is Value),
    ensures
        parse_variants(input, n2) == parse_variants(input, n1),
    decreases n2,
{
    if n2 > n1 {
        lemma_variants_failure_stays(input, n1, (n2 - 1) as nat);
    }
}

/// Reads a primitive type from its number.
fn read_primitive(deserializer: &mut Deserializer) -> (r: Result<SchemaPrimitive, SavefileError>)
    ensures
        same_versions(*old(deserializer), *final(deserializer)),
        decoded_as(parse_primitive(old(deserializer)@), r, old(deserializer)@, final(deserializer)@),
{
    let t = match deserializer.read_u16() {
        Ok(t) => t,
        Err(e) => return Err(e),
    };
    let var = match t {
        1 => SchemaPrimitive::schema_i8,
        2 => SchemaPrimitive::schema_u8,
        3 => SchemaPrimitive::schema_i16,
        4 => SchemaPrimitive::schema_u16,
        5 => SchemaPrimitive::schema_i32,
        6 => SchemaPrimitive::schema_u32,
        7 => SchemaPrimitive::schema_i64,
        8 => SchemaPrimitive::schema_u64,
        9 => SchemaPrimitive::schema_isize,
        10 => SchemaPrimitive::schema_usize,
        11 => SchemaPrimitive::schema_string,
        _ => {
            return Err(SavefileError::IncompatibleSchema { message: "corrupt schema".to_string() });
        },
    };
    Ok(var)
}

/// Reads a schema: its kind number, then what the kind holds.
#[verifier::rlimit(100)]
#[verifier::spinoff_prover]
pub(crate) fn read_schema(deserializer: &mut Deserializer) -> (r: Result<Schema, SavefileError>)
    ensures
        same_versions(*old(deserializer), *final(deserializer)),
        decoded_as(parse_schema(old(deserializer)@), r, old(deserializer)@, final(deserializer)@),
    decreases old(deserializer)@.len(),
{
    let ghost input = deserializer@;
    let t = match deserializer.read_u16() {
        Ok(t) => t,
        Err(e) => return Err(e),
    };
    let ghost rest = deserializer@;
    assert(input.len() >= 2 && rest == input.skip(2) && parse_u16(input) == Decoded::Value(t, 2));
    if t == 1 {
        match read_fields(deserializer) {
            Ok(fields) => {
                proof {
                    lemma_fields_deep_view(fields);
                    let k = parse_struct(rest)->Value_1;
                    assert(deserializer@ =~= input.skip(k + 2 as int));
                }
                Ok(Schema::Struct(SchemaStruct { fields }))
            },
            Err(e) => Err(e),
        }
    } else if t == 2 {
        match read_variants(deserializer) {
            Ok(variants) => {
                proof {
                    lemma_variants_deep_view(variants);
                    let k = parse_enum(rest)->Value_1;
                    assert(deserializer@ =~= input.skip(k + 2 as int));
                }
                Ok(Schema::Enum(SchemaEnum { variants }))
            },
            Err(e) => Err(e),
        }
    } else if t == 3 {
        match read_primitive(deserializer) {
            Ok(p) => {
                proof {
                    let k = parse_primitive(rest)->Value_1;
                    assert(deserializer@ =~= input.skip(k + 2 as int));
                }
                Ok(Schema::Primitive(p))
            },
            Err(e) => Err(e),
        }
    } else if t == 4 {
        match read_schema(deserializer) {
            Ok(s) => {
                proof {
                    let k = parse_schema(rest)->Value_1;
                    assert(deserializer@ =~= input.skip(k + 2 as int));
                }
                Ok(Schema::Vector(Box::new(s)))
            },
            Err(e) => Err(e),
        }
    } else if t == 5 {
        Ok(Schema::Undefined)
    } else {
        Err(SavefileError::IncompatibleSchema { message: "corrupt schema".to_string() })
    }
}

/// Reads a field: its name, then its schema.
fn read_field(deserializer: &mut Deserializer) -> (r: Result<Field, SavefileError>)
    ensures
        same_versions(*old(deserializer), *final(deserializer)),
        decoded_as(parse_field(old(deserializer)@), r, old(deserializer)@, final(deserializer)@),
    decreases old(deserializer)@.len(),
{
    let ghost input = deserializer@;
    let name = match deserializer.read_string() {
        Ok(name) => name,
        Err(e) => return Err(e),
    };
    let ghost k = parse_string(input)->Value_1;
    let ghost mid = deserializer@;
    assert(0 < k <= input.len() && mid == input.skip(k as int));
    match read_schema(deserializer) {
        Ok(value) => {
            let ghost j = parse_schema(mid)->Value_1;
            assert(deserializer@ =~= input.skip(k + j as int));
            Ok(Field { name, value: Box::new(value) })
        },
        Err(e) => Err(e),
    }
}

/// Reads a `usize` count, then that many fields.
fn read_fields(deserializer: &mut Deserializer) -> (r: Result<Vec<Field>, SavefileError>)
    ensures
        same_versions(*old(deserializer), *final(deserializer)),
        decoded_as(parse_struct(old(deserializer)@), r, old(deserializer)@, final(deserializer)@),
    decreases old(deserializer)@.len(),
{
    let l = match deserializer.read_usize() {
        Ok(l) => l,
        Err(e) => return Err(e),
    };
    let ghost start = deserializer@;
    let ghost input = old(deserializer)@;
    assert(start == input.skip(8));
    let mut ret: Vec<Field> = Vec::new();
    let mut i: usize = 0;
    while i < l
        invariant
            i <= l,
            start == input.skip(8),
            input == old(deserializer)@,
            input.len() >= 8,
            parse_usize(input) == Decoded::Value(l, 8),
            same_versions(*old(deserializer), *deserializer),
            parse_fields(start, i as nat) matches Decoded::Value(fs, m) && {
                &&& fs == fields_view(ret@)
                &&& m <= start.len()
                &&& deserializer@ == start.skip(m as int)
            },
        decreases l - i,
    {
        let ghost before = deserializer@;
        let ghost m = parse_fields(start, i as nat)->Value_1;
        match read_field(deserializer) {
            Ok(f) => {
                proof {
                    let ghost r0 = ret@;
                    assert(ret@.push(f).drop_last() =~= r0);
                    assert(deserializer@ =~= start.skip(m + parse_field(before)->Value_1 as int));
                }
                ret.push(f);
                i += 1;
            },
            Err(e) => {
                proof {
                    assert(parse_fields(start, (i + 1) as nat) == parse_field(before).cast::<Seq<FieldView>>());
                    lemma_fields_failure_stays(start, (i + 1) as nat, l as nat);
                }
                return Err(e);
            },
        }
    }
    proof {
        lemma_fields_deep_view(ret);
        let m = parse_fields(start, l as nat)->Value_1;
        assert(deserializer@ =~= input.skip(m + 8 as int));
    }
    Ok(ret)
}

/// Reads a variant: its name, its discriminator, then its fields.
#[verifier::spinoff_prover]
#[verifier::rlimit(50)]
fn read_variant(deserializer: &mut Deserializer) -> (r: Result<Variant, SavefileError>)
    ensures
        same_versions(*old(deserializer), *final(deserializer)),
        decoded_as(parse_variant(old(deserializer)@), r, old(deserializer)@, final(deserializer)@),
    decreases old(deserializer)@.len(),
{
    let ghost input = deserializer@;
    let name = match deserializer.read_string() {
        Ok(name) => name,
        Err(e) => return Err(e),
    };
    let ghost k = parse_string(input)->Value_1;
    let ghost r1 = deserializer@;
    assert(0 < k <= input.len() && r1 == input.skip(k as int));
    let discriminator = match deserializer.read_u16() {
        Ok(d) => d,
        Err(e) => return Err(e),
    };
    let ghost r2 = deserializer@;
    assert(r1.len() >= 2 && r2 == r1.skip(2));
    match read_fields(deserializer) {
        Ok(fields) => {
            proof {
                lemma_fields_deep_view(fields);
                let j = parse_struct(r2)->Value_1;
                assert(deserializer@ =~= input.skip(k + 2 + j as int));
            }
            Ok(Variant { name, discriminator, fields })
        },
        Err(e) => Err(e),
    }
}

/// Reads a `usize` count, then that many variants.
#[verifier::spinoff_prover]
#[verifier::rlimit(100)]
fn read_variants(deserializer: &mut Deserializer) -> (r: Result<Vec<Variant>, SavefileError>)
    ensures
        same_versions(*old(deserializer), *final(deserializer)),
        decoded_as(parse_enum(old(deserializer)@), r, old(deserializer)@, final(deserializer)@),
    decreases old(deserializer)@.len(),
{
    let l = match deserializer.read_usize() {
        Ok(l) => l,
        Err(e) => return Err(e),
    };
    let ghost start = deserializer@;
    let ghost input = old(deserializer)@;
    assert(start == input.skip(8));
    let mut ret: Vec<Variant> = Vec::new();
    let mut i: usize = 0;
    while i < l
        invariant
            i <= l,
            start == input.skip(8),
            input == old(deserializer)@,
            input.len() >= 8,
            parse_usize(input) == Decoded::Value(l, 8),
            same_versions(*old(deserializer), *deserializer),
            parse_variants(start, i as nat) matches Decoded::Value(vs, m) && {
                &&& vs == variants_view(ret@)
                &&& m <= start.len()
                &&& deserializer@ == start.skip(m as int)
            },
        decreases l - i,
    {
        let ghost before = deserializer@;
        let ghost m = parse_variants(start, i as nat)->Value_1;
        match read_variant(deserializer) {
            Ok(v) => {
                proof {
                    let ghost r0 = ret@;
                    assert(ret@.push(v).drop_last() =~= r0);
                    assert(deserializer@ =~= start.skip(m + parse_variant(before)->Value_1 as int));
                }
                ret.push(v);
                i += 1;
            },
            Err(e) => {
                proof {
                    assert(parse_variants(start, (i + 1) as nat) == parse_variant(before).cast::<Seq<VariantView>>());
                    lemma_variants_failure_stays(start, (i + 1) as nat, l as nat);
                }
                return Err(e);
            },
        }
    }
    proof {
        lemma_variants_deep_view(ret);
        let m = parse_variants(start, l as nat)->Value_1;
        assert(deserializer@ =~= input.skip(m + 8 as int));
    }
    Ok(ret)
}

impl WithSchema for Field {
    open spec fn spec_schema(version: u32) -> SchemaView {
        SchemaView::Undefined
    }

    fn schema(_version: u32) -> (r: Schema) {
        Schema::Undefined
    }
}

impl Serialize for Field {
    open spec fn spec_serialize(&self, version: u32) -> Seq<u8> {
        field_bytes(field_view(*self))
    }

    open spec fn spec_serializable(&self) -> bool {
        true
    }

    open spec fn spec_modeled(&self) -> bool {
        true
    }

    fn serialize(&self, serializer: &mut Serializer) -> (r: Result<(), SavefileError>) {
        write_field(self, serializer)
    }
}

impl Deserialize for Field {
    open spec fn spec_deserialize(input: Seq<u8>, file_version: u32) -> Decoded<FieldView> {
        parse_field(input)
    }

    fn raw_copy_size(_file_version: u32) -> (r: Option<usize>) {
        None
    }

    fn deserialize_checked(deserializer: &mut Deserializer) -> (r: Result<Field, SavefileError>) {
        read_field(deserializer)
    }
}

impl WithSchema for Variant {
    open spec fn spec_schema(version: u32) -> SchemaView {
        SchemaView::Undefined
    }

    fn schema(_version: u32) -> (r: Schema) {
        Schema::Undefined
    }
}

impl Serialize for Variant {
    open spec fn spec_serialize(&self, version: u32) -> Seq<u8> {
        variant_bytes(variant_view(*self))
    }

    open spec fn spec_serializable(&self) -> bool {
        true
    }

    open spec fn spec_modeled(&self) -> bool {
        true
    }

    fn serialize(&self, serializer: &mut Serializer) -> (r: Result<(), SavefileError>) {
        write_variant(self, serializer)
    }
}

impl Deserialize for Variant {
    open spec fn spec_deserialize(input: Seq<u8>, file_version: u32) -> Decoded<VariantView> {
        parse_variant(input)
    }

    fn raw_copy_size(_file_version: u32) -> (r: Option<usize>) {
        None
    }

    fn deserialize_checked(deserializer: &mut Deserializer) -> (r: Result<Variant, SavefileError>) {
        read_variant(deserializer)
    }
}

impl WithSchema for SchemaStruct {
    open spec fn spec_schema(version: u32) -> SchemaView {
        SchemaView::Undefined
    }

    fn schema(_version: u32) -> (r: Schema) {
        Schema::Undefined
    }
}

impl Serialize for SchemaStruct {
    open spec fn spec_serialize(&self, version: u32) -> Seq<u8> {
        struct_bytes(fields_view(self.fields@))
    }

    open spec fn spec_serializable(&self) -> bool {
        true
    }

    open spec fn spec_modeled(&self) -> bool {
        true
    }

    fn serialize(&self, serializer: &mut Serializer) -> (r: Result<(), SavefileError>) {
        write_fields(&self.fields, serializer)
    }
}

impl Deserialize for SchemaStruct {
    open spec fn spec_deserialize(input: Seq<u8>, file_version: u32) -> Decoded<Seq<FieldView>> {
        parse_struct(input)
    }

    fn raw_copy_size(_file_version: u32) -> (r: Option<usize>) {
        None
    }

    fn deserialize_checked(deserializer: &mut Deserializer) -> (r: Result<SchemaStruct, SavefileError>) {
        match read_fields(deserializer) {
            Ok(fields) => {
                proof {
                    lemma_fields_deep_view(fields);
                }
                Ok(SchemaStruct { fields })
            },
            Err(e) => Err(e),
        }
    }
}

impl WithSchema for SchemaEnum {
    open spec fn spec_schema(version: u32) -> SchemaView {
        SchemaView::Undefined
    }

    fn schema(_version: u32) -> (r: Schema) {
        Schema::Undefined
    }
}

impl Serialize for SchemaEnum {
    open spec fn spec_serialize(&self, version: u32) -> Seq<u8> {
        enum_bytes(variants_view(self.variants@))
    }

    open spec fn spec_serializable(&self) -> bool {
        true
    }

    open spec fn spec_modeled(&self) -> bool {
        true
    }

    fn serialize(&self, serializer: &mut Serializer) -> (r: Result<(), SavefileError>) {
        write_variants(&self.variants, serializer)
    }
}

impl Deserialize for SchemaEnum {
    open spec fn spec_deserialize(input: Seq<u8>, file_version: u32) -> Decoded<Seq<VariantView>> {
        parse_enum(input)
    }

    fn raw_copy_size(_file_version: u32) -> (r: Option<usize>) {
        None
    }

    fn deserialize_checked(deserializer: &mut Deserializer) -> (r: Result<SchemaEnum, SavefileError>) {
        match read_variants(deserializer) {
            Ok(variants) => {
                proof {
                    lemma_variants_deep_view(variants);
                }
                Ok(SchemaEnum { variants })
            },
            Err(e) => Err(e),
        }
    }
}

impl WithSchema for SchemaPrimitive {
    open spec fn spec_schema(version: u32) -> SchemaView {
        SchemaView::Undefined
    }

    fn schema(_version: u32) -> (r: Schema) {
        Schema::Undefined
    }
}

impl Serialize for SchemaPrimitive {
    open spec fn spec_serialize(&self, version: u32) -> Seq<u8> {
        primitive_bytes(*self)
    }

    open spec fn spec_serializable(&self) -> bool {
        true
    }

    open spec fn spec_modeled(&self) -> bool {
        true
    }

    fn serialize(&self, serializer: &mut Serializer) -> (r: Result<(), SavefileError>) {
        write_primitive(self, serializer)
    }
}

impl Deserialize for SchemaPrimitive {
    open spec fn spec_deserialize(input: Seq<u8>, file_version: u32) -> Decoded<SchemaPrimitive> {
        parse_primitive(input)
    }

    fn raw_copy_size(_file_version: u32) -> (r: Option<usize>) {
        None
    }

    fn deserialize_checked(deserializer: &mut Deserializer) -> (r: Result<SchemaPrimitive, SavefileError>) {
        read_primitive(deserializer)
    }

    /// A tag without meaning is left out (see the trait's `requires`).
    fn deserialize(deserializer: &mut Deserializer) -> (r: Result<SchemaPrimitive, SavefileError>) {
        read_primitive(deserializer)
    }
}

impl WithSchema for Schema {
    open spec fn spec_schema(version: u32) -> SchemaView {
        SchemaView::Undefined
    }

    fn schema(_version: u32) -> (r: Schema) {
        Schema::Undefined
    }
}

impl Serialize for Schema {
    open spec fn spec_serialize(&self, version: u32) -> Seq<u8> {
        schema_bytes(schema_view(*self))
    }

    open spec fn spec_serializable(&self) -> bool {
        true
    }

    open spec fn spec_modeled(&self) -> bool {
        true
    }

    /// Every name and count in a schema in memory fits in a `usize`.
    fn serialize(&self, serializer: &mut Serializer) -> (r: Result<(), SavefileError>)
        ensures
            schema_fits(self.deep_view()),
    {
        write_schema(self, serializer)
    }
}

impl Deserialize for Schema {
    open spec fn spec_deserialize(input: Seq<u8>, file_version: u32) -> Decoded<SchemaView> {
        parse_schema(input)
    }

    fn raw_copy_size(_file_version: u32) -> (r: Option<usize>) {
        None
    }

    fn deserialize_checked(deserializer: &mut Deserializer) -> (r: Result<Schema, SavefileError>) {
        read_schema(deserializer)
    }

    /// A tag without meaning is left out (see the trait's `requires`).
    fn deserialize(deserializer: &mut Deserializer) -> (r: Result<Schema, SavefileError>) {
        read_schema(deserializer)
    }
}

/// Whether two strings hold the same characters.
pub fn str_eq(a: &str, b: &str) -> (r: bool)
    ensures
        r == (a@ == b@),
{
    let x = a.as_bytes();
    let y = b.as_bytes();
    proof {
        vstd::utf8::encode_utf8_decode_utf8(a@);
        vstd::utf8::encode_utf8_decode_utf8(b@);
    }
    if x.len() != y.len() {
        return false;
    }
    let mut i: usize = 0;
    while i < x.len()
        invariant
            x@.len() == y@.len(),
            i <= x@.len(),
            forall|j: int| 0 <= j < i ==> x@[j] == y@[j],
            x@ == vstd::utf8::encode_utf8(a@),
            y@ == vstd::utf8::encode_utf8(b@),
        decreases x@.len() - i,
    {
        if x[i] != y[i] {
            return false;
        }
        i += 1;
    }
    assert(x@ =~= y@);
    true
}

/// Whether two schemas are equal.
pub fn schema_eq(a: &Schema, b: &Schema) -> (r: bool)
    ensures
        r == (a.deep_view() == b.deep_view()),
    decreases *a,
{
    match (a, b) {
        (Schema::Struct(x), Schema::Struct(y)) => fields_eq(&x.fields, &y.fields),
        (Schema::Enum(x), Schema::Enum(y)) => variants_eq(&x.variants, &y.variants),
        (Schema::Primitive(x), Schema::Primitive(y)) => primitive_number(x) == primitive_number(y),
        (Schema::Vector(x), Schema::Vector(y)) => schema_eq(x, y),
        (Schema::Undefined, Schema::Undefined) => true,
        _ => false,
    }
}

/// Whether two fields have the same name and equal schemas.
fn field_eq(a: &Field, b: &Field) -> (r: bool)
    ensures
        r == (field_view(*a) == field_view(*b)),
    decreases *a,
{
    str_eq(a.name.as_str(), b.name.as_str()) && schema_eq(&a.value, &b.value)
}

/// Whether two lists of fields are equal, field by field.
fn fields_eq(a: &Vec<Field>, b: &Vec<Field>) -> (r: bool)
    ensures
        r == (fields_view(a@) == fields_view(b@)),
    decreases *a,
{
    proof {
        lemma_fields_view_seq(a@);
        lemma_fields_view_seq(b@);
        lemma_fields_view_len(a@);
        lemma_fields_view_len(b@);
    }
    if a.len() != b.len() {
        return false;
    }
    let mut i: usize = 0;
    while i < a.len()
        invariant
            a@.len() == b@.len(),
            i <= a@.len(),
            fields_view(a@) == Seq::new(a@.len(), |k: int| a@[k].deep_view()),
            fields_view(b@) == Seq::new(b@.len(), |k: int| b@[k].deep_view()),
            forall|j: int| 0 <= j < i ==> field_view(a@[j]) == field_view(b@[j]),
        decreases a@.len() - i,
    {
        if !field_eq(&a[i], &b[i]) {
            assert(fields_view(a@)[i as int] != fields_view(b@)[i as int]);
            return false;
        }
        i += 1;
    }
    assert(fields_view(a@) =~= fields_view(b@));
    true
}

/// Whether two variants are equal.
fn variant_eq(a: &Variant, b: &Variant) -> (r: bool)
    ensures
        r == (variant_view(*a) == variant_view(*b)),
    decreases *a,
{
    str_eq(a.name.as_str(), b.name.as_str()) && a.discriminator == b.discriminator && fields_eq(
        &a.fields,
        &b.fields,
    )
}

/// Whether two lists of variants are equal, variant by variant.
fn variants_eq(a: &Vec<Variant>, b: &Vec<Variant>) -> (r: bool)
    ensures
        r == (variants_view(a@) == variants_view(b@)),
    decreases *a,
{
    proof {
        lemma_variants_view_seq(a@);
        lemma_variants_view_seq(b@);
        lemma_variants_view_len(a@);
        lemma_variants_view_len(b@);
    }
    if a.len() != b.len() {
        return false;
    }
    let mut i: usize = 0;
    while i < a.len()
        invariant
            a@.len() == b@.len(),
            i <= a@.len(),
            variants_view(a@) == Seq::new(a@.len(), |k: int| a@[k].deep_view()),
            variants_view(b@) == Seq::new(b@.len(), |k: int| b@[k].deep_view()),
            forall|j: int| 0 <= j < i ==> variant_view(a@[j]) == variant_view(b@[j]),
        decreases a@.len() - i,
    {
        if !variant_eq(&a[i], &b[i]) {
            assert(variants_view(a@)[i as int] != variants_view(b@)[i as int]);
            return false;
        }
        i += 1;
    }
    assert(variants_view(a@) =~= variants_view(b@));
    true
}

/// Every name's UTF-8 length and every count in the schema fits in a `usize`.
pub open spec fn schema_fits(s: SchemaView) -> bool
    decreases s,
{
    match s {
        SchemaView::Struct(fs) => fs.len() <= usize::MAX && fields_fit(fs),
        SchemaView::Enum(vs) => vs.len() <= usize::MAX && variants_fit(vs),
        SchemaView::Primitive(_) => true,
        SchemaView::Vector(b) => schema_fits(*b),
        SchemaView::Undefined => true,
    }
}

/// The field's name and schema fit (see [`schema_fits`]).
pub open spec fn field_fits(f: FieldView) -> bool
    decreases f,
{
    encode_utf8(f.name).len() <= usize::MAX && schema_fits(f.value)
}

/// Every field fits (see [`schema_fits`]).
pub open spec fn fields_fit(fs: Seq<FieldView>) -> bool
    decreases fs,
{
    fs.len() == 0 || (fields_fit(fs.drop_last()) && field_fits(fs.last()))
}

/// The variant's name, its number of fields and its fields fit (see [`schema_fits`]).
pub open spec fn variant_fits(v: VariantView) -> bool
    decreases v,
{
    encode_utf8(v.name).len() <= usize::MAX && v.fields.len() <= usize::MAX && fields_fit(v.fields)
}

/// Every variant fits (see [`schema_fits`]).
pub open spec fn variants_fit(vs: Seq<VariantView>) -> bool
    decreases vs,
{
    vs.len() == 0 || (variants_fit(vs.drop_last()) && variant_fits(vs.last()))
}

/// A `u16` takes 2 bytes and a `usize` 8.
proof fn lemma_prefix_lengths()
    ensures
        forall|v: u16| #[trigger] u16_bytes(v).len() == 2,
        forall|v: usize| #[trigger] usize_bytes(v).len() == 8,
{
    assert forall|v: u16| #[trigger] u16_bytes(v).len() == 2 by {
        lemma_le_bytes_len(v as nat, 2);
    }
    assert forall|v: usize| #[trigger] usize_bytes(v).len() == 8 by {
        lemma_le_bytes_len((v as u64) as nat, 8);
    }
}

/// Reading back the bytes of a schema that fits, whatever follows, gives the
/// schema and takes exactly its bytes.
pub proof fn lemma_schema_roundtrip(s: SchemaView, rest: Seq<u8>)
    requires
        schema_fits(s),
    ensures
        parse_schema(schema_bytes(s) + rest) == Decoded::Value(s, schema_bytes(s).len()),
    decreases s, 3nat,
{
    match s {
        SchemaView::Struct(fs) => lemma_struct_schema_roundtrip(fs, rest),
        SchemaView::Enum(vs) => lemma_enum_schema_roundtrip(vs, rest),
        SchemaView::Primitive(p) => lemma_primitive_schema_roundtrip(p, rest),
        SchemaView::Vector(_) => lemma_vector_schema_roundtrip(s, rest),
        SchemaView::Undefined => {
            lemma_prefix_lengths();
            lemma_u16_roundtrip(5, rest);
        },
    }
}

/// The struct case of [`lemma_schema_roundtrip`].
proof fn lemma_struct_schema_roundtrip(fs: Seq<FieldView>, rest: Seq<u8>)
    requires
        schema_fits(SchemaView::Struct(fs)),
    ensures
        parse_schema(schema_bytes(SchemaView::Struct(fs)) + rest) == Decoded::Value(
            SchemaView::Struct(fs),
            schema_bytes(SchemaView::Struct(fs)).len(),
        ),
    decreases fs, 2nat,
{
    lemma_prefix_lengths();
    let input = schema_bytes(SchemaView::Struct(fs)) + rest;
    let after_tag = struct_bytes(fs) + rest;
    assert(input =~= u16_bytes(1) + after_tag);
    lemma_u16_roundtrip(1, after_tag);
    assert(input.skip(2) =~= after_tag);
    lemma_struct_roundtrip(fs, rest);
}

/// The enum case of [`lemma_schema_roundtrip`].
proof fn lemma_enum_schema_roundtrip(vs: Seq<VariantView>, rest: Seq<u8>)
    requires
        schema_fits(SchemaView::Enum(vs)),
    ensures
        parse_schema(schema_bytes(SchemaView::Enum(vs)) + rest) == Decoded::Value(
            SchemaView::Enum(vs),
            schema_bytes(SchemaView::Enum(vs)).len(),
        ),
    decreases vs, 2nat,
{
    lemma_prefix_lengths();
    let input = schema_bytes(SchemaView::Enum(vs)) + rest;
    let after_tag = enum_bytes(vs) + rest;
    assert(input =~= u16_bytes(2) + after_tag);
    lemma_u16_roundtrip(2, after_tag);
    assert(input.skip(2) =~= after_tag);
    lemma_enum_roundtrip(vs, rest);
}

/// The primitive case of [`lemma_schema_roundtrip`].
proof fn lemma_primitive_schema_roundtrip(p: SchemaPrimitive, rest: Seq<u8>)
    ensures
        parse_schema(schema_bytes(SchemaView::Primitive(p)) + rest) == Decoded::Value(
            SchemaView::Primitive(p),
            schema_bytes(SchemaView::Primitive(p)).len(),
        ),
{
    lemma_prefix_lengths();
    let input = schema_bytes(SchemaView::Primitive(p)) + rest;
    let after_tag = primitive_bytes(p) + rest;
    assert(input =~= u16_bytes(3) + after_tag);
    lemma_u16_roundtrip(3, after_tag);
    assert(input.skip(2) =~= after_tag);
    lemma_u16_roundtrip(primitive_tag(p), rest);
}

/// The vector case of [`lemma_schema_roundtrip`].
proof fn lemma_vector_schema_roundtrip(s: SchemaView, rest: Seq<u8>)
    requires
        s is Vector,
        schema_fits(s),
    ensures
        parse_schema(schema_bytes(s) + rest) == Decoded::Value(s, schema_bytes(s).len()),
    decreases s, 2nat,
{
    lemma_prefix_lengths();
    let b = *s->Vector_0;
    let input = schema_bytes(s) + rest;
    let after_tag = schema_bytes(b) + rest;
    assert(input =~= u16_bytes(4) + after_tag);
    lemma_u16_roundtrip(4, after_tag);
    assert(input.skip(2) =~= after_tag);
    lemma_schema_roundtrip(b, rest);
}

/// Reading back the bytes of a struct's fields that fit, whatever follows,
/// gives the fields and takes exactly their bytes.
pub proof fn lemma_struct_roundtrip(fs: Seq<FieldView>, rest: Seq<u8>)
    requires
        fs.len() <= usize::MAX,
        fields_fit(fs),
    ensures
        parse_struct(struct_bytes(fs) + rest) == Decoded::Value(fs, struct_bytes(fs).len()),
    decreases fs, 1nat,
{
    lemma_prefix_lengths();
    let body = fields_bytes(fs);
    let n = fs.len() as usize;
    let input = struct_bytes(fs) + rest;
    assert(input =~= usize_bytes(n) + (body + rest));
    lemma_usize_roundtrip(n, body + rest);
    assert(input.skip(8) =~= body + rest);
    lemma_fields_roundtrip(fs, rest);
}

/// Reading back the bytes of an enum's variants that fit, whatever follows,
/// gives the variants and takes exactly their bytes.
#[verifier::spinoff_prover]
pub proof fn lemma_enum_roundtrip(vs: Seq<VariantView>, rest: Seq<u8>)
    requires
        vs.len() <= usize::MAX,
        variants_fit(vs),
    ensures
        parse_enum(enum_bytes(vs) + rest) == Decoded::Value(vs, enum_bytes(vs).len()),
    decreases vs, 1nat,
{
    lemma_prefix_lengths();
    let body = variants_bytes(vs);
    let n = vs.len() as usize;
    let input = enum_bytes(vs) + rest;
    assert(input =~= usize_bytes(n) + (body + rest));
    lemma_usize_roundtrip(n, body + rest);
    assert(input.skip(8) =~= body + rest);
    lemma_variants_roundtrip(vs, rest);
}

/// Reading back the bytes of a field that fits, whatever follows, gives the
/// field and takes exactly its bytes.
pub proof fn lemma_field_roundtrip(f: FieldView, rest: Seq<u8>)
    requires
        field_fits(f),
    ensures
        parse_field(field_bytes(f) + rest) == Decoded::Value(f, field_bytes(f).len()),
    decreases f, 0nat,
{
    lemma_prefix_lengths();
    let input = field_bytes(f) + rest;
    let tail = schema_bytes(f.value) + rest;
    assert(input =~= str_bytes(f.name) + tail);
    lemma_string_roundtrip(f.name, tail);
    let k = str_bytes(f.name).len();
    assert(input.skip(k as int) =~= tail);
    lemma_schema_roundtrip(f.value, rest);
}

/// Reading back the bytes of fields that fit, whatever follows, gives the
/// fields and takes exactly their bytes.
pub proof fn lemma_fields_roundtrip(fs: Seq<FieldView>, rest: Seq<u8>)
    requires
        fields_fit(fs),
    ensures
        parse_fields(fields_bytes(fs) + rest, fs.len()) == Decoded::Value(fs, fields_bytes(fs).len()),
    decreases fs, 0nat,
{
    if fs.len() == 0 {
        assert(fs =~= Seq::<FieldView>::empty());
    } else {
        let init = fs.drop_last();
        let last = fs.last();
        let input = fields_bytes(fs) + rest;
        let tail = field_bytes(last) + rest;
        assert(input =~= fields_bytes(init) + tail);
        lemma_fields_roundtrip(init, tail);
        let m = fields_bytes(init).len();
        assert(input.skip(m as int) =~= tail);
        lemma_field_roundtrip(last, rest);
        assert(init.push(last) =~= fs);
    }
}

/// Reading back the bytes of a variant that fits, whatever follows, gives the
/// variant and takes exactly its bytes.
pub proof fn lemma_variant_roundtrip(v: VariantView, rest: Seq<u8>)
    requires
        variant_fits(v),
    ensures
        parse_variant(variant_bytes(v) + rest) == Decoded::Value(v, variant_bytes(v).len()),
    decreases v, 0nat,
{
    lemma_prefix_lengths();
    let input = variant_bytes(v) + rest;
    let fs = v.fields;
    let r2 = struct_bytes(fs) + rest;
    let r1 = u16_bytes(v.discriminator) + r2;
    assert(input =~= str_bytes(v.name) + r1);
    lemma_string_roundtrip(v.name, r1);
    let k = str_bytes(v.name).len();
    assert(input.skip(k as int) =~= r1);
    lemma_u16_roundtrip(v.discriminator, r2);
    assert(r1.skip(2) =~= r2);
    lemma_struct_roundtrip(fs, rest);
}

/// Reading back the bytes of variants that fit, whatever follows, gives the
/// variants and takes exactly their bytes.
pub proof fn lemma_variants_roundtrip(vs: Seq<VariantView>, rest: Seq<u8>)
    requires
        variants_fit(vs),
    ensures
        parse_variants(variants_bytes(vs) + rest, vs.len()) == Decoded::Value(
            vs,
            variants_bytes(vs).len(),
        ),
    decreases vs, 0nat,
{
    if vs.len() == 0 {
        assert(vs =~= Seq::<VariantView>::empty());
    } else {
        let init = vs.drop_last();
        let last = vs.last();
        let input = variants_bytes(vs) + rest;
        let tail = variant_bytes(last) + rest;
        assert(input =~= variants_bytes(init) + tail);
        lemma_variants_roundtrip(init, tail);
        let m = variants_bytes(init).len();
        assert(input.skip(m as int) =~= tail);
        lemma_variant_roundtrip(last, rest);
        assert(init.push(last) =~= vs);
    }
}

} // verus!
