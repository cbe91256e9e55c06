//! A forward-only cursor over a decoded byte buffer, with typed
//! little-endian reads.

use crate::errors::DecodeError;
use vstd::prelude::*;
use vstd::slice::slice_to_vec;

verus! {

/// The unsigned integer that two bytes spell, low byte first.
pub open spec fn le_u16(b0: u8, b1: u8) -> int {
    b0 as int + 256 * (b1 as int)
}

/// The unsigned integer that four bytes spell, low byte first.
pub open spec fn le_u32(b0: u8, b1: u8, b2: u8, b3: u8) -> int {
    b0 as int + 256 * (b1 as int) + 65536 * (b2 as int) + 16777216 * (b3 as int)
}

/// The two's-complement integer that two bytes spell, low byte first.
pub open spec fn le_i16(b0: u8, b1: u8) -> int {
    let u = le_u16(b0, b1);
    if u < 0x8000 {
        u
    } else {
        u - 0x1_0000
    }
}

/// The two's-complement integer that four bytes spell, low byte first.
pub open spec fn le_i32(b0: u8, b1: u8, b2: u8, b3: u8) -> int {
    let u = le_u32(b0, b1, b2, b3);
    if u < 0x8000_0000 {
        u
    } else {
        u - 0x1_0000_0000
    }
}

/// The text that `String::from_utf8_lossy` makes of a byte string: the
/// decoded characters, with U+FFFD in place of each malformed sequence.
pub uninterp spec fn utf8_lossy(bytes: Seq<u8>) -> Seq<char>;

/// Calls `byteorder::LittleEndian::read_u16`. It assembles the first two
/// bytes of the slice, low byte first, and panics on a shorter slice.
#[verifier::external_body]
fn decode_u16(bytes: &[u8]) -> (v: u16)
    requires
        bytes@.len() >= 2,
    ensures
        v as int == le_u16(bytes@[0], bytes@[1]),
{
    <byteorder::LittleEndian as byteorder::ByteOrder>::read_u16(bytes)
}

/// Calls `byteorder::LittleEndian::read_u32`. It assembles the first four
/// bytes of the slice, low byte first, and panics on a shorter slice.
#[verifier::external_body]
fn decode_u32(bytes: &[u8]) -> (v: u32)
    requires
        bytes@.len() >= 4,
    ensures
        v as int == le_u32(bytes@[0], bytes@[1], bytes@[2], bytes@[3]),
{
    <byteorder::LittleEndian as byteorder::ByteOrder>::read_u32(bytes)
}

/// Calls `byteorder::LittleEndian::read_i16`: the unsigned read of the first
/// two bytes, reinterpreted as two's complement. Panics on a shorter slice.
#[verifier::external_body]
fn decode_i16(bytes: &[u8]) -> (v: i16)
    requires
        bytes@.len() >= 2,
    ensures
        v as int == le_i16(bytes@[0], bytes@[1]),
{
    <byteorder::LittleEndian as byteorder::ByteOrder>::read_i16(bytes)
}

/// Calls `byteorder::LittleEndian::read_i32`: the unsigned read of the first
/// four bytes, reinterpreted as two's complement. Panics on a shorter slice.
#[verifier::external_body]
fn decode_i32(bytes: &[u8]) -> (v: i32)
    requires
        bytes@.len() >= 4,
    ensures
        v as int == le_i32(bytes@[0], bytes@[1], bytes@[2], bytes@[3]),
{
    <byteorder::LittleEndian as byteorder::ByteOrder>::read_i32(bytes)
}

/// Calls `String::from_utf8_lossy` and takes ownership of the text. The
/// call accepts every byte string; its result is only named here.
#[verifier::external_body]
fn decode_text(bytes: &[u8]) -> (s: String)
    ensures
        s@ == utf8_lossy(bytes@),
{
    String::from_utf8_lossy(bytes).into_owned()
}

/// Wrapper for reading data from a byte buffer, front to back.
///
/// The reader owns the buffer and a count of the bytes that are left. A read
/// that asks for more than is left fails with `RecordUnderrun` and leaves the
/// reader exhausted; the count never goes below zero and the cursor never
/// moves back.
pub struct Reader {
    stream: Vec<u8>,
    bytes_left: usize,
}

impl Reader {
    #[verifier::type_invariant]
    spec fn well_formed(&self) -> bool {
        self.bytes_left <= self.stream@.len()
    }

    /// The whole buffer that the reader owns. Reading never changes it.
    pub closed spec fn buffer(&self) -> Seq<u8> {
        self.stream@
    }

    /// How many bytes have been consumed.
    pub closed spec fn position(&self) -> nat {
        (self.stream@.len() - self.bytes_left) as nat
    }

    /// The bytes that have not been consumed yet.
    pub open spec fn unread(&self) -> Seq<u8> {
        self.buffer().skip(self.position() as int)
    }

    /// Where the cursor stands after a request for `n` bytes: `n` further
    /// on, or at the end of the buffer where fewer than `n` were left.
    pub open spec fn position_after(&self, n: nat) -> nat {
        if self.position() + n <= self.buffer().len() {
            self.position() + n
        } else {
            self.buffer().len()
        }
    }

    /// Create a new `Reader` that stands at the start of `stream`.
    pub fn new(stream: Vec<u8>) -> (r: Self)
        ensures
            r.buffer() == stream@,
            r.position() == 0,
    {
        let bytes_left = stream.len();
        Reader { stream, bytes_left }
    }

    /// Bytes left in the buffer.
    pub fn len(&self) -> (n: usize)
        ensures
            n == self.unread().len(),
            self.position() + n == self.buffer().len(),
    {
        proof {
            use_type_invariant(self);
        }
        self.bytes_left
    }

    /// Takes `size` bytes off the count and returns where they start, or
    /// exhausts the reader where fewer are left.
    fn take(&mut self, size: usize) -> (r: Result<usize, DecodeError>)
        ensures
            final(self).buffer() == old(self).buffer(),
            final(self).position() == old(self).position_after(size as nat),
            old(self).position() <= final(self).position() <= old(self).buffer().len(),
            match r {
                Ok(at) => size <= old(self).unread().len() && at == old(self).position() && at
                    + size <= old(self).buffer().len() <= usize::MAX,
                Err(e) => size > old(self).unread().len() && e == DecodeError::RecordUnderrun,
            },
    {
        proof {
            use_type_invariant(&*self);
        }
        if size > self.bytes_left {
            self.bytes_left = 0;
            Err(DecodeError::RecordUnderrun)
        } else {
            let at = self.stream.len() - self.bytes_left;
            self.bytes_left = self.bytes_left - size;
            Ok(at)
        }
    }

    /// Read exactly `size` bytes.
    pub fn read(&mut self, size: usize) -> (r: Result<Vec<u8>, DecodeError>)
        ensures
            final(self).buffer() == old(self).buffer(),
            final(self).position() == old(self).position_after(size as nat),
            old(self).position() <= final(self).position() <= old(self).buffer().len(),
            match r {
                Ok(bytes) => size <= old(self).unread().len() && bytes@ == old(
                    self,
                ).unread().take(size as int),
                Err(e) => size > old(self).unread().len() && e == DecodeError::RecordUnderrun,
            },
    {
        match self.take(size) {
            Ok(at) => {
                let bytes = slice_to_vec(&self.stream.as_slice()[at..at + size]);
                assert(bytes@ =~= old(self).unread().take(size as int));
                Ok(bytes)
            },
            Err(e) => Err(e),
        }
    }

    /// Pass over `size` bytes without looking at them.
    pub fn skip(&mut self, size: usize) -> (r: Result<(), DecodeError>)
        ensures
            final(self).buffer() == old(self).buffer(),
            final(self).position() == old(self).position_after(size as nat),
            old(self).position() <= final(self).position() <= old(self).buffer().len(),
            match r {
                Ok(_) => size <= old(self).unread().len(),
                Err(e) => size > old(self).unread().len() && e == DecodeError::RecordUnderrun,
            },
    {
        match self.take(size) {
            Ok(_) => Ok(()),
            Err(e) => Err(e),
        }
    }

    /// Read one byte.
    pub fn read_byte(&mut self) -> (r: Result<u8, DecodeError>)
        ensures
            final(self).buffer() == old(self).buffer(),
            final(self).position() == old(self).position_after(1),
            old(self).position() <= final(self).position() <= old(self).buffer().len(),
            match r {
                Ok(v) => old(self).unread().len() >= 1 && v == old(self).unread()[0],
                Err(e) => old(self).unread().len() < 1 && e == DecodeError::RecordUnderrun,
            },
    {
        match self.take(1) {
            Ok(at) => Ok(self.stream[at]),
            Err(e) => Err(e),
        }
    }

    /// Read an unsigned 16-bit little-endian integer.
    pub fn read_uint16(&mut self) -> (r: Result<u16, DecodeError>)
        ensures
            final(self).buffer() == old(self).buffer(),
            final(self).position() == old(self).position_after(2),
            old(self).position() <= final(self).position() <= old(self).buffer().len(),
            match r {
                Ok(v) => old(self).unread().len() >= 2 && v as int == le_u16(
                    old(self).unread()[0],
                    old(self).unread()[1],
                ),
                Err(e) => old(self).unread().len() < 2 && e == DecodeError::RecordUnderrun,
            },
    {
        match self.take(2) {
            Ok(at) => Ok(decode_u16(&self.stream.as_slice()[at..at + 2])),
            Err(e) => Err(e),
        }
    }

    /// Read an unsigned 32-bit little-endian integer.
    pub fn read_uint32(&mut self) -> (r: Result<u32, DecodeError>)
        ensures
            final(self).buffer() == old(self).buffer(),
            final(self).position() == old(self).position_after(4),
            old(self).position() <= final(self).position() <= old(self).buffer().len(),
            match r {
                Ok(v) => old(self).unread().len() >= 4 && v as int == le_u32(
                    old(self).unread()[0],
                    old(self).unread()[1],
                    old(self).unread()[2],
                    old(self).unread()[3],
                ),
                Err(e) => old(self).unread().len() < 4 && e == DecodeError::RecordUnderrun,
            },
    {
        match self.take(4) {
            Ok(at) => Ok(decode_u32(&self.stream.as_slice()[at..at + 4])),
            Err(e) => Err(e),
        }
    }

    /// Read a signed 16-bit little-endian integer.
    pub fn _read_int16(&mut self) -> (r: Result<i16, DecodeError>)
        ensures
            final(self).buffer() == old(self).buffer(),
            final(self).position() == old(self).position_after(2),
            old(self).position() <= final(self).position() <= old(self).buffer().len(),
            match r {
                Ok(v) => old(self).unread().len() >= 2 && v as int == le_i16(
                    old(self).unread()[0],
                    old(self).unread()[1],
                ),
                Err(e) => old(self).unread().len() < 2 && e == DecodeError::RecordUnderrun,
            },
    {
        match self.take(2) {
            Ok(at) => Ok(decode_i16(&self.stream.as_slice()[at..at + 2])),
            Err(e) => Err(e),
        }
    }

    /// Read a signed 32-bit little-endian integer.
    pub fn _read_int32(&mut self) -> (r: Result<i32, DecodeError>)
        ensures
            final(self).buffer() == old(self).buffer(),
            final(self).position() == old(self).position_after(4),
            old(self).position() <= final(self).position() <= old(self).buffer().len(),
            match r {
                Ok(v) => old(self).unread().len() >= 4 && v as int == le_i32(
                    old(self).unread()[0],
                    old(self).unread()[1],
                    old(self).unread()[2],
                    old(self).unread()[3],
                ),
                Err(e) => old(self).unread().len() < 4 && e == DecodeError::RecordUnderrun,
            },
    {
        match self.take(4) {
            Ok(at) => Ok(decode_i32(&self.stream.as_slice()[at..at + 4])),
            Err(e) => Err(e),
        }
    }

    /// Read `length` bytes and return them as text, malformed UTF-8
    /// replaced.
    pub fn _read_string(&mut self, length: usize) -> (r: Result<String, DecodeError>)
        ensures
            final(self).buffer() == old(self).buffer(),
            final(self).position() == old(self).position_after(length as nat),
            old(self).position() <= final(self).position() <= old(self).buffer().len(),
            match r {
                Ok(text) => length <= old(self).unread().len() && text@ == utf8_lossy(
                    old(self).unread().take(length as int),
                ),
                Err(e) => length > old(self).unread().len() && e == DecodeError::RecordUnderrun,
            },
    {
        match self.take(length) {
            Ok(at) => {
                let bytes = &self.stream.as_slice()[at..at + length];
                assert(bytes@ =~= old(self).unread().take(length as int));
                Ok(decode_text(bytes))
            },
            Err(e) => Err(e),
        }
    }

    /// The current position of the cursor.
    pub fn _tell(&self) -> (at: usize)
        ensures
            at == self.position(),
            at <= self.buffer().len(),
    {
        proof {
            use_type_invariant(self);
        }
        self.stream.len() - self.bytes_left
    }
}

} // verus!
