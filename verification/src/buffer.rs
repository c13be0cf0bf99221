//! A byte buffer read from the front, as the device's little-endian replies are.
use vstd::prelude::*;

use crate::error::{Error, Result};

verus! {

/// Little-endian value of the two bytes at `at`.
pub open spec fn le_u16_at(s: Seq<u8>, at: int) -> u16 {
    (s[at] as int + s[at + 1] as int * 256) as u16
}

/// Little-endian value of the four bytes at `at`.
pub open spec fn le_u32_at(s: Seq<u8>, at: int) -> u32 {
    (s[at] as int + s[at + 1] as int * 256 + s[at + 2] as int * 65536 + s[at + 3] as int
        * 16777216) as u32
}

/// The two bytes of `v`, least significant first.
pub open spec fn le_u16_bytes(v: u16) -> Seq<u8> {
    seq![(v % 256) as u8, (v / 256) as u8]
}

/// The four bytes of `v`, least significant first.
pub open spec fn le_u32_bytes(v: u32) -> Seq<u8> {
    seq![(v % 256) as u8, ((v / 256) % 256) as u8, ((v / 65536) % 256) as u8, (v / 16777216) as u8]
}

/// Reading back the two bytes of a value gives the value.
pub proof fn lemma_le_u16_round_trip(v: u16, rest: Seq<u8>)
    ensures
        le_u16_at(le_u16_bytes(v) + rest, 0) == v,
{
    let s = le_u16_bytes(v) + rest;
    assert(s[0] == (v % 256) as u8);
    assert(s[1] == (v / 256) as u8);
}

/// Reading back the four bytes of a value gives the value.
pub proof fn lemma_le_u32_round_trip(v: u32, rest: Seq<u8>)
    ensures
        le_u32_at(le_u32_bytes(v) + rest, 0) == v,
{
    let s = le_u32_bytes(v) + rest;
    let q1 = v / 256;
    let q2 = q1 / 256;
    let q3 = q2 / 256;
    assert(v == q1 * 256 + v % 256);
    assert(q1 == q2 * 256 + q1 % 256);
    assert(q2 == q3 * 256 + q2 % 256);
    assert(q2 == v / 65536);
    assert(q3 == v / 16777216);
    assert(s[0] == (v % 256) as u8);
    assert(s[1] == (q1 % 256) as u8);
    assert(s[2] == (q2 % 256) as u8);
    assert(s[3] == q3 as u8);
}

/// The character that stands for a byte of an ASCII field (the character with the byte's code).
pub open spec fn byte_to_char(b: u8) -> char {
    (b as u32) as char
}

pub open spec fn bytes_to_chars(s: Seq<u8>) -> Seq<char> {
    Seq::new(s.len(), |i: int| byte_to_char(s[i]))
}

/// The error that a read of `need` bytes from a buffer holding `have` bytes reports.
pub open spec fn underrun(need: int, have: int) -> Error {
    Error::BufferUnderrun { need: need as usize, have: have as usize }
}

/// Bytes of a reply, consumed from the front.
pub struct BytesBuffer {
    bytes: Vec<u8>,
    pos: usize,
}

impl View for BytesBuffer {
    type V = Seq<u8>;

    /// The bytes not consumed yet.
    closed spec fn view(&self) -> Seq<u8> {
        self.bytes@.subrange(self.pos as int, self.bytes@.len() as int)
    }
}

impl Clone for BytesBuffer {
    /// An independent buffer holding the same bytes left.
    fn clone(&self) -> (c: Self)
        ensures
            c@ == self@,
    {
        proof {
            use_type_invariant(self);
        }
        BytesBuffer { bytes: vstd::slice::slice_to_vec(self.bytes.as_slice()), pos: self.pos }
    }
}

impl BytesBuffer {
    #[verifier::type_invariant]
    spec fn inv(self) -> bool {
        self.pos <= self.bytes@.len()
    }

    /// A buffer holding `data`, nothing consumed.
    pub fn new(data: Vec<u8>) -> (b: Self)
        ensures
            b@ == data@,
    {
        let b = BytesBuffer { bytes: data, pos: 0 };
        assert(b.bytes@.subrange(0, b.bytes@.len() as int) =~= b.bytes@);
        b
    }

    /// Number of bytes left.
    pub fn size(&self) -> (n: usize)
        ensures
            n == self@.len(),
    {
        proof {
            use_type_invariant(self);
        }
        self.bytes.len() - self.pos
    }

    /// The bytes left.
    pub fn data(&self) -> (d: &[u8])
        ensures
            d@ == self@,
    {
        proof {
            use_type_invariant(self);
        }
        vstd::slice::slice_subrange(self.bytes.as_slice(), self.pos, self.bytes.len())
    }

    /// The byte `at` places ahead, not consuming anything.
    pub fn peek(&self, at: usize) -> (b: u8)
        requires
            at < self@.len(),
        ensures
            b == self@[at as int],
    {
        proof {
            use_type_invariant(self);
        }
        let _len = self.bytes.len();
        self.bytes[self.pos + at]
    }

    /// Consumes `n` bytes, which must be there.
    fn advance(&mut self, n: usize)
        requires
            n <= old(self)@.len(),
        ensures
            final(self)@ == old(self)@.skip(n as int),
    {
        proof {
            use_type_invariant(&*self);
        }
        let _len = self.bytes.len();
        self.pos = self.pos + n;
        proof {
            assert(self@ =~= old(self)@.skip(n as int));
        }
    }

    /// Drops `n` bytes; fails, consuming nothing, when fewer are left.
    pub fn skip(&mut self, n: usize) -> (r: Result<()>)
        ensures
            old(self)@.len() >= n ==> r is Ok && final(self)@ == old(self)@.skip(n as int),
            old(self)@.len() < n ==> r == Err::<(), Error>(underrun(n as int, old(self)@.len() as int))
                && final(self)@ == old(self)@,
    {
        let have = self.size();
        if have < n {
            return Err(Error::BufferUnderrun { need: n, have });
        }
        self.advance(n);
        Ok(())
    }

    /// The next byte.
    pub fn take_u8(&mut self) -> (r: Result<u8>)
        ensures
            old(self)@.len() >= 1 ==> r == Ok::<u8, Error>(old(self)@[0]) && final(self)@ == old(self)@.skip(1),
            old(self)@.len() < 1 ==> r == Err::<u8, Error>(underrun(1, old(self)@.len() as int))
                && final(self)@ == old(self)@,
    {
        let have = self.size();
        if have < 1 {
            return Err(Error::BufferUnderrun { need: 1, have });
        }
        let b = self.peek(0);
        self.advance(1);
        Ok(b)
    }

    /// The next two bytes, little-endian.
    pub fn take_u16_le(&mut self) -> (r: Result<u16>)
        ensures
            old(self)@.len() >= 2 ==> r == Ok::<u16, Error>(le_u16_at(old(self)@, 0)) && final(self)@ == old(self)@.skip(2),
            old(self)@.len() < 2 ==> r == Err::<u16, Error>(underrun(2, old(self)@.len() as int))
                && final(self)@ == old(self)@,
    {
        let have = self.size();
        if have < 2 {
            return Err(Error::BufferUnderrun { need: 2, have });
        }
        let b0 = self.peek(0) as u16;
        let b1 = self.peek(1) as u16;
        self.advance(2);
        Ok(b0 + b1 * 256)
    }

    /// The next four bytes, little-endian.
    pub fn take_u32_le(&mut self) -> (r: Result<u32>)
        ensures
            old(self)@.len() >= 4 ==> r == Ok::<u32, Error>(le_u32_at(old(self)@, 0)) && final(self)@ == old(self)@.skip(4),
            old(self)@.len() < 4 ==> r == Err::<u32, Error>(underrun(4, old(self)@.len() as int))
                && final(self)@ == old(self)@,
    {
        let have = self.size();
        if have < 4 {
            return Err(Error::BufferUnderrun { need: 4, have });
        }
        let b0 = self.peek(0) as u32;
        let b1 = self.peek(1) as u32;
        let b2 = self.peek(2) as u32;
        let b3 = self.peek(3) as u32;
        self.advance(4);
        Ok(b0 + b1 * 256 + b2 * 65536 + b3 * 16777216)
    }

    /// The next four bytes, little-endian, as a two's-complement integer.
    pub fn take_i32_le(&mut self) -> (r: Result<i32>)
        ensures
            old(self)@.len() >= 4 ==> r == Ok::<i32, Error>(le_u32_at(old(self)@, 0) as i32)
                && final(self)@ == old(self)@.skip(4),
            old(self)@.len() < 4 ==> r == Err::<i32, Error>(underrun(4, old(self)@.len() as int))
                && final(self)@ == old(self)@,
    {
        match self.take_u32_le() {
            Ok(v) => Ok(v as i32),
            Err(e) => Err(e),
        }
    }

    /// The raw bit pattern of the next little-endian 32-bit float.
    pub fn take_f32_bits_le(&mut self) -> (r: Result<u32>)
        ensures
            old(self)@.len() >= 4 ==> r == Ok::<u32, Error>(le_u32_at(old(self)@, 0)) && final(self)@ == old(self)@.skip(4),
            old(self)@.len() < 4 ==> r == Err::<u32, Error>(underrun(4, old(self)@.len() as int))
                && final(self)@ == old(self)@,
    {
        self.take_u32_le()
    }

    /// A field of one length byte followed by that many bytes, each read as the character
    /// with the byte's code. Consumes nothing when the field is incomplete.
    pub fn take_length_prefixed_ascii(&mut self) -> (r: Result<String>)
        ensures
            old(self)@.len() < 1 ==> r == Err::<String, Error>(underrun(1, 0)) && final(self)@
                == old(self)@,
            old(self)@.len() >= 1 && old(self)@.len() - 1 < old(self)@[0] ==> r == Err::<
                String,
                Error,
            >(underrun(old(self)@[0] as int, old(self)@.len() - 1)) && final(self)@ == old(self)@,
            old(self)@.len() >= 1 && old(self)@.len() - 1 >= old(self)@[0] ==> r is Ok && r->Ok_0@
                == bytes_to_chars(old(self)@.subrange(1, 1 + old(self)@[0])) && final(self)@ == old(self)@.skip(1 + old(self)@[0]),
    {
        let have = self.size();
        if have < 1 {
            return Err(Error::BufferUnderrun { need: 1, have: 0 });
        }
        let n = self.peek(0) as usize;
        if have - 1 < n {
            return Err(Error::BufferUnderrun { need: n, have: have - 1 });
        }
        let ghost start = self@;
        let mut s = String::new();
        let mut i: usize = 0;
        while i < n
            invariant
                self@ == start,
                have == start.len(),
                n == start[0],
                1 + n <= start.len(),
                i <= n,
                s@ == bytes_to_chars(start.subrange(1, 1 + i)),
            decreases n - i,
        {
            let b = self.peek(1 + i);
            crate::text::push_char(&mut s, b as char);
            i += 1;
            assert(s@ =~= bytes_to_chars(start.subrange(1, 1 + i)));
        }
        self.advance(1 + n);
        Ok(s)
    }
}

} // verus!
