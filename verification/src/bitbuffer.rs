//! Cursors over byte buffers that read and write big-endian fields.
//!
//! Field widths are given in bits, and every field is a whole number of bytes.

use crate::endian::{be_bytes, be_value, lemma_be_bytes_len, push_be, read_be};
use vstd::prelude::*;
use vstd::slice::slice_subrange;

verus! {

/// A field did not fit into the writer, or its width is not one the writer takes.
#[derive(Debug, Clone, Copy, PartialEq, Eq)]
pub struct WriteError {}

/// A read cursor. Its view is the bytes not yet read.
pub struct BitBuffer<'a> {
    rest: &'a [u8],
}

impl<'a> View for BitBuffer<'a> {
    type V = Seq<u8>;

    closed spec fn view(&self) -> Seq<u8> {
        self.rest@
    }
}

/// Whether `num_bits` is a width that the cursors handle: whole bytes, at most 64 bits.
pub open spec fn field_width_ok(num_bits: usize) -> bool {
    num_bits % 8 == 0 && num_bits <= 64
}

impl<'a> BitBuffer<'a> {
    /// A cursor at the start of `data`.
    pub fn wrap(data: &'a [u8]) -> (bb: Self)
        ensures
            bb@ == data@,
    {
        BitBuffer { rest: data }
    }

    /// The number of bytes not yet read.
    pub fn remaining(&self) -> (n: usize)
        ensures
            n == self@.len(),
    {
        self.rest.len()
    }

    /// Reads the next `num_bits` bits as a big-endian number and moves past them.
    ///
    /// Nothing is read where the width is not a whole number of bytes, exceeds 64
    /// bits, or exceeds what is left.
    pub fn get_bits(&mut self, num_bits: usize) -> (r: Option<u64>)
        ensures
            r.is_some() <==> field_width_ok(num_bits) && num_bits / 8 <= old(self)@.len(),
            r matches Some(v) ==> v as nat == be_value(old(self)@.take(num_bits as int / 8))
                && final(self)@ == old(self)@.skip(num_bits as int / 8),
            r.is_none() ==> final(self)@ == old(self)@,
    {
        if num_bits % 8 != 0 || num_bits > 64 {
            return None;
        }
        let n = num_bits / 8;
        if n > self.rest.len() {
            return None;
        }
        let v = read_be(self.rest, 0, n);
        let len = self.rest.len();
        let data = self.rest;
        self.rest = slice_subrange(data, n, len);
        proof {
            assert(data@.subrange(0, n as int) =~= data@.take(n as int));
            assert(data@.subrange(n as int, len as int) =~= data@.skip(n as int));
        }
        Some(v)
    }
}

/// A write cursor with a fixed capacity. Its view is the bytes written so far.
pub struct BitWriter {
    buf: Vec<u8>,
    limit: usize,
}

impl View for BitWriter {
    type V = Seq<u8>;

    closed spec fn view(&self) -> Seq<u8> {
        self.buf@
    }
}

impl BitWriter {
    /// The number of bytes that the writer still takes.
    pub closed spec fn room(&self) -> nat {
        if self.limit >= self.buf@.len() {
            (self.limit - self.buf@.len()) as nat
        } else {
            0
        }
    }

    /// An empty writer that takes up to `capacity` bytes.
    pub fn new(capacity: usize) -> (w: Self)
        ensures
            w@ == Seq::<u8>::empty(),
            w.room() == capacity,
    {
        BitWriter { buf: Vec::new(), limit: capacity }
    }

    /// Whether `n` more bytes fit.
    pub open spec fn fits(&self, n: nat) -> bool {
        n <= self.room()
    }

    fn has_room(&self, n: usize) -> (b: bool)
        ensures
            b == self.fits(n as nat),
    {
        n == 0 || (self.buf.len() <= self.limit && n <= self.limit - self.buf.len())
    }

    /// Appends the `num_bits` low bits of `value`, most significant byte first.
    pub fn write_bits(&mut self, value: u64, num_bits: usize) -> (r: Result<(), WriteError>)
        ensures
            r.is_ok() <==> field_width_ok(num_bits) && old(self).fits(num_bits as nat / 8),
            r.is_ok() ==> final(self)@ == old(self)@ + be_bytes(
                value as nat,
                num_bits as nat / 8,
            ),
            r.is_err() ==> final(self)@ == old(self)@,
            final(self).room() == old(self).room() - (final(self)@.len() - old(self)@.len()),
    {
        if num_bits % 8 != 0 || num_bits > 64 {
            return Err(WriteError {  });
        }
        let n = num_bits / 8;
        if !self.has_room(n) {
            return Err(WriteError {  });
        }
        push_be(&mut self.buf, value, n);
        proof {
            lemma_be_bytes_len(value as nat, n as nat);
        }
        Ok(())
    }

    /// Appends `bytes` as they are.
    pub fn write_bytes(&mut self, bytes: &[u8]) -> (r: Result<(), WriteError>)
        ensures
            r.is_ok() <==> old(self).fits(bytes@.len()),
            r.is_ok() ==> final(self)@ == old(self)@ + bytes@,
            r.is_err() ==> final(self)@ == old(self)@,
            final(self).room() == old(self).room() - (final(self)@.len() - old(self)@.len()),
    {
        if !self.has_room(bytes.len()) {
            return Err(WriteError {  });
        }
        let ghost start = self.buf@;
        let mut i: usize = 0;
        while i < bytes.len()
            invariant
                i <= bytes.len(),
                self.buf@ =~= start + bytes@.take(i as int),
                self.limit == old(self).limit,
            decreases bytes.len() - i,
        {
            self.buf.push(bytes[i]);
            i = i + 1;
        }
        proof {
            assert(bytes@.take(bytes@.len() as int) =~= bytes@);
        }
        Ok(())
    }

    /// The number of bytes written so far.
    pub fn len(&self) -> (n: usize)
        ensures
            n == self@.len(),
    {
        self.buf.len()
    }

    /// Hands out the bytes written.
    pub fn into_bytes(self) -> (bytes: Vec<u8>)
        ensures
            bytes@ == self@,
    {
        self.buf
    }
}

} // verus!
