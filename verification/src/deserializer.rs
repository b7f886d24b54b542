//! The reading side: a byte slice that values are read from, front first.
use vstd::prelude::*;
use vstd::slice::slice_to_vec;
use vstd::utf8::{valid_utf8, decode_utf8};
use crate::bytes::{
    lemma_le_value_bound, lemma_byte_ranges, le_u16_read, le_i16_read, le_u32_read,
    le_i32_read, le_u64_read, le_i64_read,
};
use crate::error::SavefileError;
use crate::format::{
    decoded_as, parse_u8, parse_i8, parse_u16, parse_i16, parse_u32, parse_i32,
    parse_u64, parse_i64, parse_usize, parse_isize, parse_string,
};

verus! {

/// Object from which bytes to be deserialized are read: the bytes not yet
/// read, the version number of the file being read, and the current version
/// number of the data structures in memory.
pub struct Deserializer<'a> {
    /// The bytes not read yet.
    pub reader: &'a [u8],
    pub file_version: u32,
    pub memory_version: u32,
}

impl<'a> View for Deserializer<'a> {
    type V = Seq<u8>;

    /// The bytes not read yet.
    open spec fn view(&self) -> Seq<u8> {
        self.reader@
    }
}

/// The two deserializers carry the same version numbers.
pub open spec fn same_versions(a: Deserializer, b: Deserializer) -> bool {
    a.file_version == b.file_version && a.memory_version == b.memory_version
}

/// `std::string::FromUtf8Error`, the error of `String::from_utf8`.
#[verifier::external_type_specification]
#[verifier::external_body]
pub struct ExFromUtf8Error(std::string::FromUtf8Error);

/// `String::from_utf8`: succeeds exactly when the bytes are UTF-8, and then
/// holds the characters that they encode.
#[verifier::external_body]
fn string_from_utf8(v: Vec<u8>) -> (r: Result<String, std::string::FromUtf8Error>)
    ensures
        r is Ok <==> valid_utf8(v@),
        r matches Ok(s) ==> s@ == decode_utf8(v@),
{
    String::from_utf8(v)
}

/// `std::io::Error::new` with the kind `UnexpectedEof` and the message that
/// `std::io::Read::read_exact` gives when its source ends before the buffer
/// is full. Nothing is stated of the error.
#[verifier::external_body]
fn end_of_input_error() -> std::io::Error {
    std::io::Error::new(std::io::ErrorKind::UnexpectedEof, "failed to fill whole buffer")
}

/// The text of a `FromUtf8Error` (its `Display`); nothing is stated of it.
#[verifier::external_body]
fn utf8_error_text(e: std::string::FromUtf8Error) -> String {
    e.to_string()
}

impl<'a> Deserializer<'a> {
    /// Creates a deserializer that reads `reader`, with both version numbers 0.
    pub fn new_raw(reader: &'a [u8]) -> (r: Deserializer<'a>)
        ensures
            r@ == reader@,
            r.file_version == 0,
            r.memory_version == 0,
    {
        Deserializer { reader, file_version: 0, memory_version: 0 }
    }

    /// Takes the next `n` bytes, or fails, as reading past the end of a
    /// `std::io::Read` source does, with an I/O error.
    fn take_bytes(&mut self, n: usize) -> (r: Result<&'a [u8], SavefileError>)
        ensures
            same_versions(*old(self), *final(self)),
            old(self)@.len() < n ==> r matches Err(SavefileError::IOError { .. }),
            old(self)@.len() < n ==> final(self)@ == old(self)@,
            old(self)@.len() >= n ==> {
                &&& r matches Ok(b) && b@ == old(self)@.take(n as int)
                &&& final(self)@ == old(self)@.skip(n as int)
            },
    {
        if self.reader.len() < n {
            return Err(SavefileError::IOError { io_error: end_of_input_error() });
        }
        let (head, rest) = self.reader.split_at(n);
        self.reader = rest;
        Ok(head)
    }

    pub fn read_u8(&mut self) -> (r: Result<u8, SavefileError>)
        ensures
            same_versions(*old(self), *final(self)),
            decoded_as(parse_u8(old(self)@), r, old(self)@, final(self)@),
            r is Err ==> final(self)@ == old(self)@,
    {
        match self.take_bytes(1) {
            Ok(b) => Ok(b[0]),
            Err(e) => Err(e),
        }
    }

    pub fn read_u16(&mut self) -> (r: Result<u16, SavefileError>)
        ensures
            same_versions(*old(self), *final(self)),
            decoded_as(parse_u16(old(self)@), r, old(self)@, final(self)@),
            r is Err ==> final(self)@ == old(self)@,
    {
        match self.take_bytes(2) {
            Ok(b) => {
                let v = le_u16_read(b);
                proof {
                    assert(b@.subrange(0, 2) =~= b@);
                    lemma_le_value_bound(b@);
                    lemma_byte_ranges();
                }
                Ok(v)
            },
            Err(e) => Err(e),
        }
    }

    pub fn read_u32(&mut self) -> (r: Result<u32, SavefileError>)
        ensures
            same_versions(*old(self), *final(self)),
            decoded_as(parse_u32(old(self)@), r, old(self)@, final(self)@),
            r is Err ==> final(self)@ == old(self)@,
    {
        match self.take_bytes(4) {
            Ok(b) => {
                let v = le_u32_read(b);
                proof {
                    assert(b@.subrange(0, 4) =~= b@);
                    lemma_le_value_bound(b@);
                    lemma_byte_ranges();
                }
                Ok(v)
            },
            Err(e) => Err(e),
        }
    }

    pub fn read_u64(&mut self) -> (r: Result<u64, SavefileError>)
        ensures
            same_versions(*old(self), *final(self)),
            decoded_as(parse_u64(old(self)@), r, old(self)@, final(self)@),
            r is Err ==> final(self)@ == old(self)@,
    {
        match self.take_bytes(8) {
            Ok(b) => {
                let v = le_u64_read(b);
                proof {
                    assert(b@.subrange(0, 8) =~= b@);
                    lemma_le_value_bound(b@);
                    lemma_byte_ranges();
                }
                Ok(v)
            },
            Err(e) => Err(e),
        }
    }

    pub fn read_i8(&mut self) -> (r: Result<i8, SavefileError>)
        ensures
            same_versions(*old(self), *final(self)),
            decoded_as(parse_i8(old(self)@), r, old(self)@, final(self)@),
            r is Err ==> final(self)@ == old(self)@,
    {
        match self.take_bytes(1) {
            Ok(b) => Ok(b[0] as i8),
            Err(e) => Err(e),
        }
    }

    pub fn read_i16(&mut self) -> (r: Result<i16, SavefileError>)
        ensures
            same_versions(*old(self), *final(self)),
            decoded_as(parse_i16(old(self)@), r, old(self)@, final(self)@),
            r is Err ==> final(self)@ == old(self)@,
    {
        match self.take_bytes(2) {
            Ok(b) => {
                let v = le_i16_read(b);
                proof {
                    assert(b@.subrange(0, 2) =~= b@);
                }
                Ok(v)
            },
            Err(e) => Err(e),
        }
    }

    pub fn read_i32(&mut self) -> (r: Result<i32, SavefileError>)
        ensures
            same_versions(*old(self), *final(self)),
            decoded_as(parse_i32(old(self)@), r, old(self)@, final(self)@),
            r is Err ==> final(self)@ == old(self)@,
    {
        match self.take_bytes(4) {
            Ok(b) => {
                let v = le_i32_read(b);
                proof {
                    assert(b@.subrange(0, 4) =~= b@);
                }
                Ok(v)
            },
            Err(e) => Err(e),
        }
    }

    pub fn read_i64(&mut self) -> (r: Result<i64, SavefileError>)
        ensures
            same_versions(*old(self), *final(self)),
            decoded_as(parse_i64(old(self)@), r, old(self)@, final(self)@),
            r is Err ==> final(self)@ == old(self)@,
    {
        match self.take_bytes(8) {
            Ok(b) => {
                let v = le_i64_read(b);
                proof {
                    assert(b@.subrange(0, 8) =~= b@);
                }
                Ok(v)
            },
            Err(e) => Err(e),
        }
    }

    /// Reads an `i64` and takes it as an `isize`.
    pub fn read_isize(&mut self) -> (r: Result<isize, SavefileError>)
        ensures
            same_versions(*old(self), *final(self)),
            decoded_as(parse_isize(old(self)@), r, old(self)@, final(self)@),
            r is Err ==> final(self)@ == old(self)@,
    {
        match self.read_i64() {
            Ok(v) => Ok(v as isize),
            Err(e) => Err(e),
        }
    }

    /// Reads a `u64` and takes it as a `usize`.
    pub fn read_usize(&mut self) -> (r: Result<usize, SavefileError>)
        ensures
            same_versions(*old(self), *final(self)),
            decoded_as(parse_usize(old(self)@), r, old(self)@, final(self)@),
            r is Err ==> final(self)@ == old(self)@,
    {
        match self.read_u64() {
            Ok(v) => Ok(v as usize),
            Err(e) => Err(e),
        }
    }

    /// Reads a `usize` length, then that many bytes, which must be UTF-8.
    pub fn read_string(&mut self) -> (r: Result<String, SavefileError>)
        ensures
            same_versions(*old(self), *final(self)),
            decoded_as(parse_string(old(self)@), r, old(self)@, final(self)@),
            old(self)@.len() < 8 ==> final(self)@ == old(self)@,
            old(self)@.len() >= 8 && parse_string(old(self)@) is EndOfInput ==> final(self)@ == old(
                self,
            )@.skip(8),
            parse_string(old(self)@) is NotUtf8 ==> final(self)@ == old(self)@.skip(
                8 + parse_usize(old(self)@)->Value_0,
            ),
    {
        let l = match self.read_usize() {
            Ok(l) => l,
            Err(e) => return Err(e),
        };
        let ghost mid = self@;
        let b = match self.take_bytes(l) {
            Ok(b) => b,
            Err(e) => return Err(e),
        };
        let v = slice_to_vec(b);
        proof {
            assert(mid =~= old(self)@.skip(8));
            assert(self@ =~= old(self)@.skip(8 + l));
        }
        match string_from_utf8(v) {
            Ok(s) => Ok(s),
            Err(e) => Err(SavefileError::DataCorruption { msg: utf8_error_text(e) }),
        }
    }
}

} // verus!
