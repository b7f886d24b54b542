//! The writing side: a buffer that values append their bytes to.
use vstd::prelude::*;
use crate::bytes::{
    le_u16_bytes, le_i16_bytes, le_u32_bytes, le_i32_bytes, le_u64_bytes, le_i64_bytes,
};
use crate::error::SavefileError;
use crate::format::{
    u8_bytes, i8_bytes, u16_bytes, i16_bytes, u32_bytes, i32_bytes, u64_bytes, i64_bytes,
    usize_bytes, isize_bytes, str_bytes,
};

verus! {

/// Object to which serialized data is written: a byte buffer, and the
/// protocol version number of the data structures being written.
pub struct Serializer {
    /// The bytes written so far.
    pub writer: Vec<u8>,
    pub version: u32,
}

impl View for Serializer {
    type V = Seq<u8>;

    /// The bytes written so far.
    open spec fn view(&self) -> Seq<u8> {
        self.writer@
    }
}

/// `after` holds the bytes of `before` followed by `added`, under the same version.
pub open spec fn appended(before: Serializer, after: Serializer, added: Seq<u8>) -> bool {
    &&& after@ == before@ + added
    &&& after.version == before.version
}

/// `after` holds the bytes of `before`, possibly followed by more, under the same version.
pub open spec fn extended(before: Serializer, after: Serializer) -> bool {
    &&& before@.is_prefix_of(after@)
    &&& after.version == before.version
}

/// Appending keeps what was written before.
pub broadcast proof fn lemma_appended_extends(before: Serializer, after: Serializer, added: Seq<u8>)
    ensures
        #[trigger] appended(before, after, added) ==> extended(before, after),
{
    if appended(before, after, added) {
        assert(before@ =~= after@.subrange(0, before@.len() as int));
    }
}

/// Keeping what was written before is transitive.
pub proof fn lemma_extended_trans(a: Serializer, b: Serializer, c: Serializer)
    requires
        extended(a, b),
        extended(b, c),
    ensures
        extended(a, c),
{
    assert(a@ =~= c@.subrange(0, a@.len() as int));
}

impl Serializer {
    /// Creates a serializer that appends to `writer`, with version number 0.
    pub fn new_raw(writer: Vec<u8>) -> (r: Serializer)
        ensures
            r@ == writer@,
            r.version == 0,
    {
        Serializer { writer, version: 0 }
    }

    /// Writes the bytes `v` as they are.
    pub fn write_buf(&mut self, v: &[u8]) -> (r: Result<(), SavefileError>)
        ensures
            appended(*old(self), *final(self), v@),
            r is Ok,
    {
        let mut i: usize = 0;
        while i < v.len()
            invariant
                i <= v@.len(),
                self.writer@ == old(self).writer@ + v@.take(i as int),
                self.version == old(self).version,
            decreases v@.len() - i,
        {
            self.writer.push(v[i]);
            i += 1;
            assert(self.writer@ =~= old(self).writer@ + v@.take(i as int));
        }
        assert(v@.take(v@.len() as int) =~= v@);
        Ok(())
    }

    pub fn write_u8(&mut self, v: u8) -> (r: Result<(), SavefileError>)
        ensures
            appended(*old(self), *final(self), u8_bytes(v)),
            r is Ok,
    {
        self.writer.push(v);
        assert(self.writer@ =~= old(self).writer@ + u8_bytes(v));
        Ok(())
    }

    pub fn write_i8(&mut self, v: i8) -> (r: Result<(), SavefileError>)
        ensures
            appended(*old(self), *final(self), i8_bytes(v)),
            r is Ok,
    {
        self.writer.push(v as u8);
        assert(self.writer@ =~= old(self).writer@ + i8_bytes(v));
        Ok(())
    }

    pub fn write_u16(&mut self, v: u16) -> (r: Result<(), SavefileError>)
        ensures
            appended(*old(self), *final(self), u16_bytes(v)),
            r is Ok,
    {
        let b = le_u16_bytes(v);
        self.write_buf(b.as_slice())
    }

    pub fn write_i16(&mut self, v: i16) -> (r: Result<(), SavefileError>)
        ensures
            appended(*old(self), *final(self), i16_bytes(v)),
            r is Ok,
    {
        let b = le_i16_bytes(v);
        self.write_buf(b.as_slice())
    }

    pub fn write_u32(&mut self, v: u32) -> (r: Result<(), SavefileError>)
        ensures
            appended(*old(self), *final(self), u32_bytes(v)),
            r is Ok,
    {
        let b = le_u32_bytes(v);
        self.write_buf(b.as_slice())
    }

    pub fn write_i32(&mut self, v: i32) -> (r: Result<(), SavefileError>)
        ensures
            appended(*old(self), *final(self), i32_bytes(v)),
            r is Ok,
    {
        let b = le_i32_bytes(v);
        self.write_buf(b.as_slice())
    }

    pub fn write_u64(&mut self, v: u64) -> (r: Result<(), SavefileError>)
        ensures
            appended(*old(self), *final(self), u64_bytes(v)),
            r is Ok,
    {
        let b = le_u64_bytes(v);
        self.write_buf(b.as_slice())
    }

    pub fn write_i64(&mut self, v: i64) -> (r: Result<(), SavefileError>)
        ensures
            appended(*old(self), *final(self), i64_bytes(v)),
            r is Ok,
    {
        let b = le_i64_bytes(v);
        self.write_buf(b.as_slice())
    }

    /// Writes a `usize` as a `u64`, whatever the platform's word size.
    pub fn write_usize(&mut self, v: usize) -> (r: Result<(), SavefileError>)
        ensures
            appended(*old(self), *final(self), usize_bytes(v)),
            r is Ok,
    {
        self.write_u64(v as u64)
    }

    /// Writes an `isize` as an `i64`, whatever the platform's word size.
    pub fn write_isize(&mut self, v: isize) -> (r: Result<(), SavefileError>)
        ensures
            appended(*old(self), *final(self), isize_bytes(v)),
            r is Ok,
    {
        self.write_i64(v as i64)
    }

    /// Writes the UTF-8 length of `v`, then its UTF-8 bytes.
    pub fn write_string(&mut self, v: &str) -> (r: Result<(), SavefileError>)
        ensures
            appended(*old(self), *final(self), str_bytes(v@)),
            vstd::utf8::encode_utf8(v@).len() <= usize::MAX,
            r is Ok,
    {
        let asb = v.as_bytes();
        let _ = self.write_usize(asb.len());
        let r = self.write_buf(asb);
        assert(self@ =~= old(self)@ + str_bytes(v@));
        r
    }
}

} // verus!
