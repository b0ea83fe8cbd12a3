use vstd::prelude::*;

use crate::ParserError;
use crate::ParserResult;

verus! {

/// A one-byte unsigned wire quantity.
pub type U1 = u8;

/// A two-byte unsigned wire quantity, big-endian on the wire.
pub type U2 = u16;

/// A four-byte unsigned wire quantity, big-endian on the wire.
pub type U4 = u32;

/// The big-endian value of the two bytes of `s` starting at `i`.
pub open spec fn be_u16(s: Seq<u8>, i: int) -> u16
    recommends
        0 <= i,
        i + 2 <= s.len(),
{
    ((s[i] as int) * 0x100 + (s[i + 1] as int)) as u16
}

/// The big-endian value of the four bytes of `s` starting at `i`.
pub open spec fn be_u32(s: Seq<u8>, i: int) -> u32
    recommends
        0 <= i,
        i + 4 <= s.len(),
{
    ((s[i] as int) * 0x1000000 + (s[i + 1] as int) * 0x10000 + (s[i + 2] as int) * 0x100 + (s[i
        + 3] as int)) as u32
}

/// A positioned cursor over a byte stream that hands out big-endian
/// primitives one at a time.  `stream` is the whole underlying byte
/// sequence and `pos` the number of bytes consumed so far; decoding a
/// primitive advances `pos` past exactly the bytes it used.  A read past
/// the end fails with `UnexpectedEndOfInput` after consuming the bytes
/// that were still there, leaving the cursor at the end of the stream.
pub trait PrimitiveIterator {
    /// The whole byte stream being decoded.
    spec fn stream(&self) -> Seq<u8>;

    /// How many bytes have been consumed so far.
    spec fn pos(&self) -> int;

    /// Read the next byte.
    fn next_u1(&mut self) -> (r: ParserResult<U1>)
        requires
            0 <= old(self).pos() <= old(self).stream().len(),
        ensures
            final(self).stream() == old(self).stream(),
            old(self).pos() <= final(self).pos() <= old(self).stream().len(),
            old(self).pos() + 1 <= old(self).stream().len() ==> r == Ok::<U1, ParserError>(
                old(self).stream()[old(self).pos()],
            ) && final(self).pos() == old(self).pos() + 1,
            old(self).pos() + 1 > old(self).stream().len() ==> r == Err::<U1, ParserError>(
                ParserError::UnexpectedEndOfInput,
            ) && final(self).pos() == old(self).pos(),
    ;

    /// Read the next two bytes as one big-endian value.
    fn next_u2(&mut self) -> (r: ParserResult<U2>)
        requires
            0 <= old(self).pos() <= old(self).stream().len(),
        ensures
            final(self).stream() == old(self).stream(),
            old(self).pos() <= final(self).pos() <= old(self).stream().len(),
            old(self).pos() + 2 <= old(self).stream().len() ==> r == Ok::<U2, ParserError>(
                be_u16(old(self).stream(), old(self).pos()),
            ) && final(self).pos() == old(self).pos() + 2,
            old(self).pos() + 2 > old(self).stream().len() ==> r == Err::<U2, ParserError>(
                ParserError::UnexpectedEndOfInput,
            ) && final(self).pos() == old(self).stream().len(),
    {
        let first = match self.next_u1() {
            Ok(b) => b as U2,
            Err(e) => {
                return Err(e);
            },
        };
        let second = match self.next_u1() {
            Ok(b) => b as U2,
            Err(e) => {
                return Err(e);
            },
        };
        Ok(first * 0x100 + second)
    }

    /// Read the next four bytes as one big-endian value.
    fn next_u4(&mut self) -> (r: ParserResult<U4>)
        requires
            0 <= old(self).pos() <= old(self).stream().len(),
        ensures
            final(self).stream() == old(self).stream(),
            old(self).pos() <= final(self).pos() <= old(self).stream().len(),
            old(self).pos() + 4 <= old(self).stream().len() ==> r == Ok::<U4, ParserError>(
                be_u32(old(self).stream(), old(self).pos()),
            ) && final(self).pos() == old(self).pos() + 4,
            old(self).pos() + 4 > old(self).stream().len() ==> r == Err::<U4, ParserError>(
                ParserError::UnexpectedEndOfInput,
            ) && final(self).pos() == old(self).stream().len(),
    {
        let first = match self.next_u2() {
            Ok(v) => v as U4,
            Err(e) => {
                return Err(e);
            },
        };
        let second = match self.next_u2() {
            Ok(v) => v as U4,
            Err(e) => {
                return Err(e);
            },
        };
        Ok(first * 0x10000 + second)
    }
}

/// A `PrimitiveIterator` over an in-memory byte vector.
pub struct ByteReader {
    data: Vec<u8>,
    pos: usize,
}

impl ByteReader {
    /// Start a cursor at the beginning of `data`.
    pub fn new(data: Vec<u8>) -> (r: ByteReader)
        ensures
            r.stream() == data@,
            r.pos() == 0,
    {
        ByteReader { data, pos: 0 }
    }
}

impl PrimitiveIterator for ByteReader {
    closed spec fn stream(&self) -> Seq<u8> {
        self.data@
    }

    closed spec fn pos(&self) -> int {
        self.pos as int
    }

    fn next_u1(&mut self) -> (r: ParserResult<U1>) {
        if self.pos < self.data.len() {
            let b = self.data[self.pos];
            self.pos = self.pos + 1;
            Ok(b)
        } else {
            Err(ParserError::UnexpectedEndOfInput)
        }
    }
}

} // verus!
