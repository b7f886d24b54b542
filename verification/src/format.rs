//! What the bytes of each primitive value are, and what reading bytes gives.
use vstd::prelude::*;
use vstd::utf8::*;
use crate::bytes::{le_bytes, le_value, byte_range, lemma_le_roundtrip, lemma_byte_ranges};
use crate::error::SavefileError;

verus! {

/// What reading a value from the front of some bytes gives.
pub enum Decoded<V> {
    /// The value, and how many bytes it took.
    Value(V, nat),
    /// The bytes ended before the value was complete (reported as an I/O
    /// error, as reading past the end of a `std::io::Read` source is).
    EndOfInput,
    /// The bytes of a string are not UTF-8.
    NotUtf8,
    /// Reading is refused: a tag in the bytes has no meaning.
    Refused,
    /// The block of raw bytes that a vector's items take is larger than any
    /// allocation can be (reported as `MemoryAllocationLayoutError`).
    TooLarge,
    /// Fewer bytes remain than the block of raw bytes that a vector's items
    /// take (reported as `DataCorruption` with the message "Short read").
    ShortRead,
    /// A value was read, taking that many bytes, but what it is is not stated:
    /// it holds a hash map whose key type is outside the model that the
    /// proofs about hash maps rest on.
    Unstated(nat),
}

impl<V> Decoded<V> {
    /// The outcome with the byte count raised by `k` (the value was read after `k` other bytes).
    pub open spec fn after(self, k: nat) -> Decoded<V> {
        match self {
            Decoded::Value(v, n) => Decoded::Value(v, n + k),
            Decoded::EndOfInput => Decoded::EndOfInput,
            Decoded::NotUtf8 => Decoded::NotUtf8,
            Decoded::Refused => Decoded::Refused,
            Decoded::TooLarge => Decoded::TooLarge,
            Decoded::ShortRead => Decoded::ShortRead,
            Decoded::Unstated(n) => Decoded::Unstated(n + k),
        }
    }

    /// The same failure, for a value of another type (a value becomes `EndOfInput`).
    pub open spec fn cast<W>(self) -> Decoded<W> {
        match self {
            Decoded::Value(_, _) => Decoded::EndOfInput,
            Decoded::EndOfInput => Decoded::EndOfInput,
            Decoded::NotUtf8 => Decoded::NotUtf8,
            Decoded::Refused => Decoded::Refused,
            Decoded::TooLarge => Decoded::TooLarge,
            Decoded::ShortRead => Decoded::ShortRead,
            Decoded::Unstated(_) => Decoded::EndOfInput,
        }
    }

    /// `true` when a value was read, stated or not.
    pub open spec fn is_read(self) -> bool {
        self is Value || self is Unstated
    }

    /// How many bytes the value that was read took.
    pub open spec fn taken(self) -> nat {
        match self {
            Decoded::Value(_, n) => n,
            Decoded::Unstated(n) => n,
            _ => 0,
        }
    }

    /// `true` when reading is refused.
    pub open spec fn is_refused(self) -> bool {
        self is Refused
    }
}

/// A returned `Result` agrees with the outcome `d` of reading a value.
pub open spec fn result_as<T: DeepView>(d: Decoded<T::V>, r: Result<T, SavefileError>) -> bool {
    match d {
        Decoded::Value(v, _) => r matches Ok(x) && x.deep_view() == v,
        Decoded::EndOfInput => r matches Err(SavefileError::IOError { .. }),
        Decoded::NotUtf8 => r matches Err(SavefileError::DataCorruption { .. }),
        Decoded::Refused => r matches Err(SavefileError::IncompatibleSchema { .. }),
        Decoded::TooLarge => r matches Err(SavefileError::MemoryAllocationLayoutError),
        Decoded::ShortRead => r matches Err(SavefileError::DataCorruption { msg }) && msg@
            == "Short read"@,
        Decoded::Unstated(_) => r is Ok,
    }
}

/// A returned `Result` and the bytes left afterwards agree with the outcome `d`
/// of reading from `before`.
pub open spec fn decoded_as<T: DeepView>(
    d: Decoded<T::V>,
    r: Result<T, SavefileError>,
    before: Seq<u8>,
    after: Seq<u8>,
) -> bool {
    match d {
        Decoded::Value(v, n) => {
            &&& r matches Ok(x) && x.deep_view() == v
            &&& n <= before.len()
            &&& after == before.skip(n as int)
        },
        Decoded::EndOfInput => r matches Err(SavefileError::IOError { .. }),
        Decoded::NotUtf8 => r matches Err(SavefileError::DataCorruption { .. }),
        Decoded::Refused => r matches Err(SavefileError::IncompatibleSchema { .. }),
        Decoded::TooLarge => r matches Err(SavefileError::MemoryAllocationLayoutError),
        Decoded::ShortRead => r matches Err(SavefileError::DataCorruption { msg }) && msg@
            == "Short read"@,
        Decoded::Unstated(n) => {
            &&& r is Ok
            &&& n <= before.len()
            &&& after == before.skip(n as int)
        },
    }
}

/// The bytes of a `u8`.
pub open spec fn u8_bytes(v: u8) -> Seq<u8> {
    seq![v]
}

/// The bytes of an `i8`: its two's complement.
pub open spec fn i8_bytes(v: i8) -> Seq<u8> {
    seq![v as u8]
}

/// The bytes of a `u16`, little-endian.
pub open spec fn u16_bytes(v: u16) -> Seq<u8> {
    le_bytes(v as nat, 2)
}

/// The bytes of an `i16`: its two's complement, little-endian.
pub open spec fn i16_bytes(v: i16) -> Seq<u8> {
    le_bytes((v as u16) as nat, 2)
}

/// The bytes of a `u32`, little-endian.
pub open spec fn u32_bytes(v: u32) -> Seq<u8> {
    le_bytes(v as nat, 4)
}

/// The bytes of an `i32`: its two's complement, little-endian.
pub open spec fn i32_bytes(v: i32) -> Seq<u8> {
    le_bytes((v as u32) as nat, 4)
}

/// The bytes of a `u64`, little-endian.
pub open spec fn u64_bytes(v: u64) -> Seq<u8> {
    le_bytes(v as nat, 8)
}

/// The bytes of an `i64`: its two's complement, little-endian.
pub open spec fn i64_bytes(v: i64) -> Seq<u8> {
    le_bytes((v as u64) as nat, 8)
}

/// The bytes of a `usize`: those of the same number as a `u64`.
pub open spec fn usize_bytes(v: usize) -> Seq<u8> {
    u64_bytes(v as u64)
}

/// The bytes of an `isize`: those of the same number as an `i64`.
pub open spec fn isize_bytes(v: isize) -> Seq<u8> {
    i64_bytes(v as i64)
}

/// The bytes of a string: its UTF-8 length as a `usize`, then its UTF-8 bytes.
pub open spec fn str_bytes(s: Seq<char>) -> Seq<u8> {
    usize_bytes(encode_utf8(s).len() as usize) + encode_utf8(s)
}

/// Reading `n` little-endian bytes as a number.
pub open spec fn parse_le(input: Seq<u8>, n: nat) -> Decoded<nat> {
    if input.len() < n {
        Decoded::EndOfInput
    } else {
        Decoded::Value(le_value(input.take(n as int)), n)
    }
}

/// Reading a `u8`.
pub open spec fn parse_u8(input: Seq<u8>) -> Decoded<u8> {
    if input.len() < 1 {
        Decoded::EndOfInput
    } else {
        Decoded::Value(input[0], 1)
    }
}

/// Reading an `i8`.
pub open spec fn parse_i8(input: Seq<u8>) -> Decoded<i8> {
    if input.len() < 1 {
        Decoded::EndOfInput
    } else {
        Decoded::Value(input[0] as i8, 1)
    }
}

/// Reading a `u16`.
pub open spec fn parse_u16(input: Seq<u8>) -> Decoded<u16> {
    match parse_le(input, 2) {
        Decoded::Value(v, n) => Decoded::Value(v as u16, n),
        _ => Decoded::EndOfInput,
    }
}

/// Reading an `i16`.
pub open spec fn parse_i16(input: Seq<u8>) -> Decoded<i16> {
    match parse_le(input, 2) {
        Decoded::Value(v, n) => Decoded::Value((v as u16) as i16, n),
        _ => Decoded::EndOfInput,
    }
}

/// Reading a `u32`.
pub open spec fn parse_u32(input: Seq<u8>) -> Decoded<u32> {
    match parse_le(input, 4) {
        Decoded::Value(v, n) => Decoded::Value(v as u32, n),
        _ => Decoded::EndOfInput,
    }
}

/// Reading an `i32`.
pub open spec fn parse_i32(input: Seq<u8>) -> Decoded<i32> {
    match parse_le(input, 4) {
        Decoded::Value(v, n) => Decoded::Value((v as u32) as i32, n),
        _ => Decoded::EndOfInput,
    }
}

/// Reading a `u64`.
pub open spec fn parse_u64(input: Seq<u8>) -> Decoded<u64> {
    match parse_le(input, 8) {
        Decoded::Value(v, n) => Decoded::Value(v as u64, n),
        _ => Decoded::EndOfInput,
    }
}

/// Reading an `i64`.
pub open spec fn parse_i64(input: Seq<u8>) -> Decoded<i64> {
    match parse_le(input, 8) {
        Decoded::Value(v, n) => Decoded::Value((v as u64) as i64, n),
        _ => Decoded::EndOfInput,
    }
}

/// Reading a `usize`: a `u64`, taken modulo the platform's word size.
pub open spec fn parse_usize(input: Seq<u8>) -> Decoded<usize> {
    match parse_u64(input) {
        Decoded::Value(v, n) => Decoded::Value(v as usize, n),
        _ => Decoded::EndOfInput,
    }
}

/// Reading an `isize`: an `i64`, taken modulo the platform's word size.
pub open spec fn parse_isize(input: Seq<u8>) -> Decoded<isize> {
    match parse_i64(input) {
        Decoded::Value(v, n) => Decoded::Value(v as isize, n),
        _ => Decoded::EndOfInput,
    }
}

/// Reading a string: a `usize` length, then that many bytes, which must be UTF-8.
pub open spec fn parse_string(input: Seq<u8>) -> Decoded<Seq<char>> {
    match parse_usize(input) {
        Decoded::Value(l, n) => {
            let rest = input.skip(n as int);
            if rest.len() < l {
                Decoded::EndOfInput
            } else if valid_utf8(rest.take(l as int)) {
                Decoded::Value(decode_utf8(rest.take(l as int)), n + l as nat)
            } else {
                Decoded::NotUtf8
            }
        },
        _ => Decoded::EndOfInput,
    }
}

/// Reading back the `n` little-endian bytes of a number that fits in them,
/// whatever follows, gives the number and takes `n` bytes.
pub proof fn lemma_parse_le_roundtrip(v: nat, n: nat, rest: Seq<u8>)
    requires
        v < byte_range(n),
    ensures
        parse_le(le_bytes(v, n) + rest, n) == Decoded::Value(v, n),
{
    lemma_le_roundtrip(v, n);
    assert((le_bytes(v, n) + rest).take(n as int) =~= le_bytes(v, n));
}

/// Reading back the bytes of an `u8`, whatever follows, gives it and takes 1 byte.
pub proof fn lemma_u8_roundtrip(v: u8, rest: Seq<u8>)
    ensures
        parse_u8(u8_bytes(v) + rest) == Decoded::Value(v, 1),
{
    assert((seq![v] + rest)[0] == v);
}

/// Reading back the bytes of an `i8`, whatever follows, gives it and takes 1 byte.
pub proof fn lemma_i8_roundtrip(v: i8, rest: Seq<u8>)
    ensures
        parse_i8(i8_bytes(v) + rest) == Decoded::Value(v, 1),
{
    assert((seq![v as u8] + rest)[0] == v as u8);
    assert((v as u8) as i8 == v) by (bit_vector);
}

/// Reading back the bytes of an `u16`, whatever follows, gives it and takes 2 bytes.
pub proof fn lemma_u16_roundtrip(v: u16, rest: Seq<u8>)
    ensures
        parse_u16(u16_bytes(v) + rest) == Decoded::Value(v, 2),
{
    lemma_byte_ranges();
    lemma_parse_le_roundtrip((v as nat), 2, rest);
}

/// Reading back the bytes of an `i16`, whatever follows, gives it and takes 2 bytes.
pub proof fn lemma_i16_roundtrip(v: i16, rest: Seq<u8>)
    ensures
        parse_i16(i16_bytes(v) + rest) == Decoded::Value(v, 2),
{
    lemma_byte_ranges();
    lemma_parse_le_roundtrip(((v as u16) as nat), 2, rest);
    assert((v as u16) as i16 == v) by (bit_vector);
}

/// Reading back the bytes of an `u32`, whatever follows, gives it and takes 4 bytes.
pub proof fn lemma_u32_roundtrip(v: u32, rest: Seq<u8>)
    ensures
        parse_u32(u32_bytes(v) + rest) == Decoded::Value(v, 4),
{
    lemma_byte_ranges();
    lemma_parse_le_roundtrip((v as nat), 4, rest);
}

/// Reading back the bytes of an `i32`, whatever follows, gives it and takes 4 bytes.
pub proof fn lemma_i32_roundtrip(v: i32, rest: Seq<u8>)
    ensures
        parse_i32(i32_bytes(v) + rest) == Decoded::Value(v, 4),
{
    lemma_byte_ranges();
    lemma_parse_le_roundtrip(((v as u32) as nat), 4, rest);
    assert((v as u32) as i32 == v) by (bit_vector);
}

/// Reading back the bytes of an `u64`, whatever follows, gives it and takes 8 bytes.
pub proof fn lemma_u64_roundtrip(v: u64, rest: Seq<u8>)
    ensures
        parse_u64(u64_bytes(v) + rest) == Decoded::Value(v, 8),
{
    lemma_byte_ranges();
    lemma_parse_le_roundtrip((v as nat), 8, rest);
}

/// Reading back the bytes of an `i64`, whatever follows, gives it and takes 8 bytes.
pub proof fn lemma_i64_roundtrip(v: i64, rest: Seq<u8>)
    ensures
        parse_i64(i64_bytes(v) + rest) == Decoded::Value(v, 8),
{
    lemma_byte_ranges();
    lemma_parse_le_roundtrip(((v as u64) as nat), 8, rest);
    assert((v as u64) as i64 == v) by (bit_vector);
}

/// Reading back the bytes of an `usize`, whatever follows, gives it and takes 8 bytes.
pub proof fn lemma_usize_roundtrip(v: usize, rest: Seq<u8>)
    ensures
        parse_usize(usize_bytes(v) + rest) == Decoded::Value(v, 8),
{
    lemma_byte_ranges();
    lemma_parse_le_roundtrip(((v as u64) as nat), 8, rest);
}

/// Reading back the bytes of an `isize`, whatever follows, gives it and takes 8 bytes.
pub proof fn lemma_isize_roundtrip(v: isize, rest: Seq<u8>)
    ensures
        parse_isize(isize_bytes(v) + rest) == Decoded::Value(v, 8),
{
    lemma_byte_ranges();
    lemma_parse_le_roundtrip((((v as i64) as u64) as nat), 8, rest);
    assert(((v as i64) as u64) as i64 == v as i64) by (bit_vector);
}

/// Reading back the bytes of a string whose UTF-8 length fits in a `usize`,
/// whatever follows, gives the string and takes exactly its bytes.
pub proof fn lemma_string_roundtrip(s: Seq<char>, rest: Seq<u8>)
    requires
        encode_utf8(s).len() <= usize::MAX,
    ensures
        parse_string(str_bytes(s) + rest) == Decoded::Value(s, str_bytes(s).len()),
{
    let b = encode_utf8(s);
    let l = b.len() as usize;
    lemma_usize_roundtrip(l, b + rest);
    assert(str_bytes(s) + rest =~= usize_bytes(l) + (b + rest));
    lemma_byte_ranges();
    crate::bytes::lemma_le_bytes_len((l as u64) as nat, 8);
    assert((usize_bytes(l) + (b + rest)).skip(8) =~= b + rest);
    assert((b + rest).take(l as int) =~= b);
    encode_utf8_valid_utf8(s);
    encode_utf8_decode_utf8(s);
}

} // verus!
