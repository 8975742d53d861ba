//! A positioned byte reader and an append-only byte writer for the
//! fixed-size binary records the engine and its host exchange.

use vstd::prelude::*;
use vstd::string::StringSliceAdditionalSpecFns;

verus! {

/// A big-endian 16-bit value from two bytes.
pub open spec fn be16(b0: u8, b1: u8) -> u16 {
    (b0 * 0x100 + b1) as u16
}

/// A little-endian 16-bit value from two bytes.
pub open spec fn le16(b0: u8, b1: u8) -> u16 {
    (b0 + b1 * 0x100) as u16
}

/// A big-endian 32-bit value from four bytes.
pub open spec fn be32(b0: u8, b1: u8, b2: u8, b3: u8) -> u32 {
    (((b0 * 0x100 + b1) * 0x100 + b2) * 0x100 + b3) as u32
}

/// A little-endian 32-bit value from four bytes.
pub open spec fn le32(b0: u8, b1: u8, b2: u8, b3: u8) -> u32 {
    be32(b3, b2, b1, b0)
}

/// A big-endian 64-bit value from eight bytes.
pub open spec fn be64(b: Seq<u8>) -> u64
    recommends
        b.len() == 8,
{
    (((((((b[0] * 0x100 + b[1]) * 0x100 + b[2]) * 0x100 + b[3]) * 0x100 + b[4]) * 0x100 + b[5])
        * 0x100 + b[6]) * 0x100 + b[7]) as u64
}

/// The name this library gives to the lossy UTF-8 decoding of a byte
/// run.
pub uninterp spec fn utf8_lossy_of(bytes: Seq<u8>) -> Seq<char>;

/// Relies on `String::from_utf8_lossy`: the decoding is a function of
/// the bytes alone.
#[verifier::external_body]
fn utf8_lossy(bytes: &[u8]) -> (r: String)
    ensures
        r@ == utf8_lossy_of(bytes@),
{
    String::from_utf8_lossy(bytes).to_string()
}

/// Reads sequential values off an owned byte buffer.
pub struct ByteReader {
    inner: Vec<u8>,
    pos: usize,
}

impl ByteReader {
    /// The bytes being read.
    pub closed spec fn bytes(self) -> Seq<u8> {
        self.inner@
    }

    /// The read position.
    pub closed spec fn spec_pos(self) -> int {
        self.pos as int
    }

    pub fn new(inner: Vec<u8>) -> (r: ByteReader)
        ensures
            r.bytes() == inner@,
            r.spec_pos() == 0,
    {
        ByteReader { inner, pos: 0 }
    }

    pub fn new_at(inner: Vec<u8>, position: usize) -> (r: ByteReader)
        ensures
            r.bytes() == inner@,
            r.spec_pos() == position,
    {
        ByteReader { inner, pos: position }
    }

    pub fn skip_bytes(&mut self, amount: usize)
        requires
            old(self).spec_pos() + amount <= usize::MAX,
        ensures
            final(self).bytes() == old(self).bytes(),
            final(self).spec_pos() == old(self).spec_pos() + amount,
    {
        self.pos = self.pos + amount;
    }

    pub fn position(&self) -> (r: usize)
        ensures
            r == self.spec_pos(),
    {
        self.pos
    }

    pub fn set_position(&mut self, position: usize)
        ensures
            final(self).bytes() == old(self).bytes(),
            final(self).spec_pos() == position,
    {
        self.pos = position;
    }

    pub fn into_inner(self) -> (r: Vec<u8>)
        ensures
            r@ == self.bytes(),
    {
        self.inner
    }

    pub fn as_ref(&self) -> (r: &Vec<u8>)
        ensures
            r@ == self.bytes(),
    {
        &self.inner
    }

    pub fn read_byte(&mut self) -> (r: u8)
        requires
            old(self).spec_pos() < old(self).bytes().len(),
        ensures
            r == old(self).bytes()[old(self).spec_pos()],
            final(self).bytes() == old(self).bytes(),
            final(self).spec_pos() == old(self).spec_pos() + 1,
    {
        let total = self.inner.len();
        self.pos = self.pos + 1;
        self.inner[self.pos - 1]
    }

    pub fn read_bool(&mut self) -> (r: bool)
        requires
            old(self).spec_pos() < old(self).bytes().len(),
        ensures
            r == (old(self).bytes()[old(self).spec_pos()] != 0),
            final(self).bytes() == old(self).bytes(),
            final(self).spec_pos() == old(self).spec_pos() + 1,
    {
        let total = self.inner.len();
        self.pos = self.pos + 1;
        self.inner[self.pos - 1] != 0
    }

    pub fn read_bytes(&mut self, len: usize) -> (r: Vec<u8>)
        requires
            old(self).spec_pos() + len <= old(self).bytes().len(),
        ensures
            r@ == old(self).bytes().subrange(old(self).spec_pos(), old(self).spec_pos() + len),
            final(self).bytes() == old(self).bytes(),
            final(self).spec_pos() == old(self).spec_pos() + len,
    {
        let total = self.inner.len();
        let start = self.pos;
        self.pos = self.pos + len;
        let mut out: Vec<u8> = Vec::new();
        let mut i: usize = 0;
        while i < len
            invariant
                i <= len,
                start + len <= usize::MAX,
                start + len <= self.inner@.len(),
                out@ == self.inner@.subrange(start as int, start + i),
            decreases len - i,
        {
            out.push(self.inner[start + i]);
            proof {
                assert(self.inner@.subrange(start as int, start + i + 1)
                    =~= self.inner@.subrange(start as int, start + i).push(
                    self.inner@[start + i],
                ));
            }
            i = i + 1;
        }
        out
    }

    /// The bytes read, decoded as lossy UTF-8.
    pub fn read_string(&mut self, len: usize) -> (r: String)
        requires
            old(self).spec_pos() + len <= old(self).bytes().len(),
        ensures
            r@ == utf8_lossy_of(
                old(self).bytes().subrange(old(self).spec_pos(), old(self).spec_pos() + len),
            ),
            final(self).bytes() == old(self).bytes(),
            final(self).spec_pos() == old(self).spec_pos() + len,
    {
        let v = self.read_bytes(len);
        utf8_lossy(v.as_slice())
    }

    pub fn read_be_u16(&mut self) -> (r: u16)
        requires
            old(self).spec_pos() + 2 <= old(self).bytes().len(),
        ensures
            r == be16(old(self).bytes()[old(self).spec_pos()], old(self).bytes()[old(self).spec_pos() + 1]),
            final(self).bytes() == old(self).bytes(),
            final(self).spec_pos() == old(self).spec_pos() + 2,
    {
        let total = self.inner.len();
        self.pos = self.pos + 2;
        self.inner[self.pos - 2] as u16 * 0x100 + self.inner[self.pos - 1] as u16
    }

    pub fn read_le_u16(&mut self) -> (r: u16)
        requires
            old(self).spec_pos() + 2 <= old(self).bytes().len(),
        ensures
            r == le16(old(self).bytes()[old(self).spec_pos()], old(self).bytes()[old(self).spec_pos() + 1]),
            final(self).bytes() == old(self).bytes(),
            final(self).spec_pos() == old(self).spec_pos() + 2,
    {
        let total = self.inner.len();
        self.pos = self.pos + 2;
        self.inner[self.pos - 2] as u16 + self.inner[self.pos - 1] as u16 * 0x100
    }

    pub fn read_le_u24(&mut self) -> (r: u32)
        requires
            old(self).spec_pos() + 3 <= old(self).bytes().len(),
        ensures
            r == le32(
                old(self).bytes()[old(self).spec_pos()],
                old(self).bytes()[old(self).spec_pos() + 1],
                old(self).bytes()[old(self).spec_pos() + 2],
                0,
            ),
            final(self).bytes() == old(self).bytes(),
            final(self).spec_pos() == old(self).spec_pos() + 3,
    {
        let total = self.inner.len();
        self.pos = self.pos + 3;
        self.inner[self.pos - 3] as u32 + self.inner[self.pos - 2] as u32 * 0x100 + self.inner[self.pos
            - 1] as u32 * 0x1_0000
    }

    pub fn read_be_u32(&mut self) -> (r: u32)
        requires
            old(self).spec_pos() + 4 <= old(self).bytes().len(),
        ensures
            r == be32(
                old(self).bytes()[old(self).spec_pos()],
                old(self).bytes()[old(self).spec_pos() + 1],
                old(self).bytes()[old(self).spec_pos() + 2],
                old(self).bytes()[old(self).spec_pos() + 3],
            ),
            final(self).bytes() == old(self).bytes(),
            final(self).spec_pos() == old(self).spec_pos() + 4,
    {
        let total = self.inner.len();
        self.pos = self.pos + 4;
        ((self.inner[self.pos - 4] as u32 * 0x100 + self.inner[self.pos - 3] as u32) * 0x100
            + self.inner[self.pos - 2] as u32) * 0x100 + self.inner[self.pos - 1] as u32
    }

    pub fn read_le_u32(&mut self) -> (r: u32)
        requires
            old(self).spec_pos() + 4 <= old(self).bytes().len(),
        ensures
            r == le32(
                old(self).bytes()[old(self).spec_pos()],
                old(self).bytes()[old(self).spec_pos() + 1],
                old(self).bytes()[old(self).spec_pos() + 2],
                old(self).bytes()[old(self).spec_pos() + 3],
            ),
            final(self).bytes() == old(self).bytes(),
            final(self).spec_pos() == old(self).spec_pos() + 4,
    {
        let total = self.inner.len();
        self.pos = self.pos + 4;
        ((self.inner[self.pos - 1] as u32 * 0x100 + self.inner[self.pos - 2] as u32) * 0x100
            + self.inner[self.pos - 3] as u32) * 0x100 + self.inner[self.pos - 4] as u32
    }

    pub fn read_be_u64(&mut self) -> (r: u64)
        requires
            old(self).spec_pos() + 8 <= old(self).bytes().len(),
        ensures
            r == be64(old(self).bytes().subrange(old(self).spec_pos(), old(self).spec_pos() + 8)),
            final(self).bytes() == old(self).bytes(),
            final(self).spec_pos() == old(self).spec_pos() + 8,
    {
        let total = self.inner.len();
        let ghost p = self.pos as int;
        self.pos = self.pos + 8;
        let r = ((((((self.inner[self.pos - 8] as u64 * 0x100 + self.inner[self.pos - 7] as u64)
            * 0x100 + self.inner[self.pos - 6] as u64) * 0x100 + self.inner[self.pos - 5] as u64)
            * 0x100 + self.inner[self.pos - 4] as u64) * 0x100 + self.inner[self.pos - 3] as u64)
            * 0x100 + self.inner[self.pos - 2] as u64) * 0x100 + self.inner[self.pos - 1] as u64;
        proof {
            let s = self.inner@.subrange(p, p + 8);
            assert(s[0] == self.inner@[p]);
            assert(s[1] == self.inner@[p + 1]);
            assert(s[2] == self.inner@[p + 2]);
            assert(s[3] == self.inner@[p + 3]);
            assert(s[4] == self.inner@[p + 4]);
            assert(s[5] == self.inner@[p + 5]);
            assert(s[6] == self.inner@[p + 6]);
            assert(s[7] == self.inner@[p + 7]);
        }
        r
    }

    /// The eight bytes read big-endian, reinterpreted as signed.
    pub fn read_be_i64(&mut self) -> (r: i64)
        requires
            old(self).spec_pos() + 8 <= old(self).bytes().len(),
        ensures
            r == be64(old(self).bytes().subrange(old(self).spec_pos(), old(self).spec_pos() + 8))
                as i64,
            final(self).bytes() == old(self).bytes(),
            final(self).spec_pos() == old(self).spec_pos() + 8,
    {
        let u = self.read_be_u64();
        #[verifier::truncate]
        let r = u as i64;
        r
    }

    pub fn remaining_bytes(&self) -> (r: &[u8])
        requires
            self.spec_pos() <= self.bytes().len(),
        ensures
            r@ == self.bytes().subrange(self.spec_pos(), self.bytes().len() as int),
    {
        crate::bytes::slice_tail(self.inner.as_slice(), self.pos)
    }

    pub fn is_read_finished(&self) -> (r: bool)
        ensures
            r == (self.spec_pos() >= self.bytes().len()),
    {
        self.pos >= self.inner.len()
    }

    /// The bytes between the position and the last byte, which a
    /// delimited stream leaves out.
    pub fn get_remaining(&self) -> (r: &[u8])
        requires
            self.spec_pos() <= self.bytes().len() - 1,
        ensures
            r@ == self.bytes().subrange(self.spec_pos(), self.bytes().len() - 1),
    {
        crate::bytes::slice_mid(self.inner.as_slice(), self.pos, self.inner.len() - 1)
    }
}

/// The tail of a slice from `from`.
pub fn slice_tail(s: &[u8], from: usize) -> (r: &[u8])
    requires
        from <= s@.len(),
    ensures
        r@ == s@.subrange(from as int, s@.len() as int),
{
    vstd::slice::slice_subrange(s, from, s.len())
}

/// The bytes of a slice between two positions.
pub fn slice_mid(s: &[u8], from: usize, to: usize) -> (r: &[u8])
    requires
        from <= to <= s@.len(),
    ensures
        r@ == s@.subrange(from as int, to as int),
{
    vstd::slice::slice_subrange(s, from, to)
}

/// Appends binary records to a growing byte buffer.
pub struct ByteWriter {
    buf: Vec<u8>,
}

impl ByteWriter {
    /// The bytes written so far.
    pub closed spec fn bytes(self) -> Seq<u8> {
        self.buf@
    }

    pub fn new() -> (r: ByteWriter)
        ensures
            r.bytes() == Seq::<u8>::empty(),
    {
        ByteWriter { buf: Vec::new() }
    }

    pub fn with_capacity(capacity: usize) -> (r: ByteWriter)
        ensures
            r.bytes() == Seq::<u8>::empty(),
    {
        ByteWriter { buf: Vec::with_capacity(capacity) }
    }

    pub fn len(&self) -> (r: usize)
        ensures
            r == self.bytes().len(),
    {
        self.buf.len()
    }

    pub fn as_ref(&self) -> (r: &Vec<u8>)
        ensures
            r@ == self.bytes(),
    {
        &self.buf
    }

    pub fn as_mut(&mut self) -> (r: &mut Vec<u8>)
        ensures
            r@ == old(self).bytes(),
            final(self).bytes() == final(r)@,
    {
        &mut self.buf
    }

    pub fn finish(self) -> (r: Vec<u8>)
        ensures
            r@ == self.bytes(),
    {
        self.buf
    }

    pub fn write_byte(&mut self, byte: u8)
        ensures
            final(self).bytes() == old(self).bytes().push(byte),
    {
        self.buf.push(byte);
    }

    pub fn write_bool(&mut self, value: bool)
        ensures
            final(self).bytes() == old(self).bytes().push(
                if value {
                    1u8
                } else {
                    0u8
                },
            ),
    {
        self.buf.push(if value { 1 } else { 0 });
    }

    pub fn write_bytes(&mut self, bytes: &[u8])
        ensures
            final(self).bytes() == old(self).bytes() + bytes@,
    {
        let n = bytes.len();
        let mut i: usize = 0;
        proof {
            assert(self.buf@ + bytes@.take(0) =~= self.buf@);
        }
        while i < n
            invariant
                i <= n,
                n == bytes@.len(),
                self.buf@ == old(self).bytes() + bytes@.take(i as int),
            decreases n - i,
        {
            self.buf.push(bytes[i]);
            proof {
                assert(bytes@.take(i + 1 as int) =~= bytes@.take(i as int).push(bytes@[i as int]));
                assert(old(self).bytes() + bytes@.take(i + 1 as int) =~= (old(self).bytes()
                    + bytes@.take(i as int)).push(bytes@[i as int]));
            }
            i = i + 1;
        }
        proof {
            assert(bytes@.take(n as int) =~= bytes@);
        }
    }

    /// The bytes of a string, unencoded.
    pub fn write_string(&mut self, string: &str)
        ensures
            final(self).bytes() == old(self).bytes() + string.spec_bytes(),
    {
        self.write_bytes(string.as_bytes());
    }

    pub fn write_u16(&mut self, number: u16)
        ensures
            final(self).bytes() == old(self).bytes() + seq![
                (number % 0x100) as u8,
                (number / 0x100) as u8,
            ],
    {
        self.buf.push((number % 0x100) as u8);
        self.buf.push((number / 0x100) as u8);
        proof {
            assert(final(self).bytes() =~= old(self).bytes() + seq![
                (number % 0x100) as u8,
                (number / 0x100) as u8,
            ]);
        }
    }

    pub fn write_be_u16(&mut self, number: u16)
        ensures
            final(self).bytes() == old(self).bytes() + seq![
                (number / 0x100) as u8,
                (number % 0x100) as u8,
            ],
    {
        self.buf.push((number / 0x100) as u8);
        self.buf.push((number % 0x100) as u8);
        proof {
            assert(final(self).bytes() =~= old(self).bytes() + seq![
                (number / 0x100) as u8,
                (number % 0x100) as u8,
            ]);
        }
    }

    pub fn write_u32(&mut self, number: u32)
        ensures
            final(self).bytes() == old(self).bytes() + seq![
                (number % 0x100) as u8,
                (number / 0x100 % 0x100) as u8,
                (number / 0x1_0000 % 0x100) as u8,
                (number / 0x100_0000) as u8,
            ],
    {
        self.buf.push((number % 0x100) as u8);
        self.buf.push((number / 0x100 % 0x100) as u8);
        self.buf.push((number / 0x1_0000 % 0x100) as u8);
        self.buf.push((number / 0x100_0000) as u8);
        proof {
            assert(final(self).bytes() =~= old(self).bytes() + seq![
                (number % 0x100) as u8,
                (number / 0x100 % 0x100) as u8,
                (number / 0x1_0000 % 0x100) as u8,
                (number / 0x100_0000) as u8,
            ]);
        }
    }

    pub fn write_be_u32(&mut self, number: u32)
        ensures
            final(self).bytes() == old(self).bytes() + seq![
                (number / 0x100_0000) as u8,
                (number / 0x1_0000 % 0x100) as u8,
                (number / 0x100 % 0x100) as u8,
                (number % 0x100) as u8,
            ],
    {
        self.buf.push((number / 0x100_0000) as u8);
        self.buf.push((number / 0x1_0000 % 0x100) as u8);
        self.buf.push((number / 0x100 % 0x100) as u8);
        self.buf.push((number % 0x100) as u8);
        proof {
            assert(final(self).bytes() =~= old(self).bytes() + seq![
                (number / 0x100_0000) as u8,
                (number / 0x1_0000 % 0x100) as u8,
                (number / 0x100 % 0x100) as u8,
                (number % 0x100) as u8,
            ]);
        }
    }

    /// The low three bytes, little-endian.
    pub fn write_u24(&mut self, number: u32)
        ensures
            final(self).bytes() == old(self).bytes() + seq![
                (number % 0x100) as u8,
                (number / 0x100 % 0x100) as u8,
                (number / 0x1_0000 % 0x100) as u8,
            ],
    {
        self.buf.push((number % 0x100) as u8);
        self.buf.push((number / 0x100 % 0x100) as u8);
        self.buf.push((number / 0x1_0000 % 0x100) as u8);
        proof {
            assert(final(self).bytes() =~= old(self).bytes() + seq![
                (number % 0x100) as u8,
                (number / 0x100 % 0x100) as u8,
                (number / 0x1_0000 % 0x100) as u8,
            ]);
        }
    }

    /// The high three big-endian bytes followed by a zero pad.
    pub fn write_be_u24(&mut self, number: u32)
        ensures
            final(self).bytes() == old(self).bytes() + seq![
                (number / 0x100_0000) as u8,
                (number / 0x1_0000 % 0x100) as u8,
                (number / 0x100 % 0x100) as u8,
                0u8,
            ],
    {
        self.buf.push((number / 0x100_0000) as u8);
        self.buf.push((number / 0x1_0000 % 0x100) as u8);
        self.buf.push((number / 0x100 % 0x100) as u8);
        self.buf.push(0);
        proof {
            assert(final(self).bytes() =~= old(self).bytes() + seq![
                (number / 0x100_0000) as u8,
                (number / 0x1_0000 % 0x100) as u8,
                (number / 0x100 % 0x100) as u8,
                0u8,
            ]);
        }
    }

    /// The eight bytes of the value, little-endian.
    pub open spec fn le64_bytes(n: u64) -> Seq<u8> {
        seq![
            (n % 0x100) as u8,
            (n / 0x100 % 0x100) as u8,
            (n / 0x1_0000 % 0x100) as u8,
            (n / 0x100_0000 % 0x100) as u8,
            (n / 0x1_0000_0000 % 0x100) as u8,
            (n / 0x100_0000_0000 % 0x100) as u8,
            (n / 0x1_0000_0000_0000 % 0x100) as u8,
            (n / 0x100_0000_0000_0000) as u8,
        ]
    }

    /// The eight bytes of the value, big-endian.
    pub open spec fn be64_bytes(n: u64) -> Seq<u8> {
        Self::le64_bytes(n).reverse()
    }

    pub fn write_u64(&mut self, number: u64)
        ensures
            final(self).bytes() == old(self).bytes() + Self::le64_bytes(number),
    {
        self.buf.push((number % 0x100) as u8);
        self.buf.push((number / 0x100 % 0x100) as u8);
        self.buf.push((number / 0x1_0000 % 0x100) as u8);
        self.buf.push((number / 0x100_0000 % 0x100) as u8);
        self.buf.push((number / 0x1_0000_0000 % 0x100) as u8);
        self.buf.push((number / 0x100_0000_0000 % 0x100) as u8);
        self.buf.push((number / 0x1_0000_0000_0000 % 0x100) as u8);
        self.buf.push((number / 0x100_0000_0000_0000) as u8);
        proof {
            assert(final(self).bytes() =~= old(self).bytes() + Self::le64_bytes(number));
        }
    }

    pub fn write_be_u64(&mut self, number: u64)
        ensures
            final(self).bytes() == old(self).bytes() + Self::be64_bytes(number),
    {
        self.buf.push((number / 0x100_0000_0000_0000) as u8);
        self.buf.push((number / 0x1_0000_0000_0000 % 0x100) as u8);
        self.buf.push((number / 0x100_0000_0000 % 0x100) as u8);
        self.buf.push((number / 0x1_0000_0000 % 0x100) as u8);
        self.buf.push((number / 0x100_0000 % 0x100) as u8);
        self.buf.push((number / 0x1_0000 % 0x100) as u8);
        self.buf.push((number / 0x100 % 0x100) as u8);
        self.buf.push((number % 0x100) as u8);
        proof {
            assert(final(self).bytes() =~= old(self).bytes() + Self::be64_bytes(number));
        }
    }

    /// The signed value reinterpreted as its unsigned bit pattern,
    /// written big-endian.
    pub fn write_be_i64(&mut self, number: i64)
        ensures
            final(self).bytes() == old(self).bytes() + Self::be64_bytes(number as u64),
    {
        #[verifier::truncate]
        let u = number as u64;
        self.write_be_u64(u);
    }
}

impl Default for ByteWriter {
    fn default() -> (r: Self)
        ensures
            r.bytes() == Seq::<u8>::empty(),
    {
        ByteWriter { buf: Vec::new() }
    }
}

} // verus!
