//! The parser: an owned byte buffer, a read position and a byte order.

pub use crate::order::Endian;

use crate::error::ParseError;
use crate::order::{
    be_i16, be_i32, be_i64, be_u16, be_u32, be_u64, le_i16, le_i32, le_i64, le_u16, le_u32,
    le_u64, lemma_decode_single, lemma_span_values,
};
use crate::state::ParserState;
use crate::text::{is_text_len, lemma_text_len_unique};
use vstd::prelude::*;
use vstd::slice::{slice_subrange, slice_to_vec};
use vstd::utf8::{decode_utf8, valid_utf8};

verus! {

/// A byte buffer with a read position and a byte order. Each read takes its
/// bytes at the position and moves the position past them.
pub struct BinaryParser {
    buffer: Vec<u8>,
    position: usize,
    endian: Endian,
}

impl View for BinaryParser {
    type V = ParserState;

    closed spec fn view(&self) -> ParserState {
        ParserState {
            bytes: self.buffer@,
            position: self.position as nat,
            endian: self.endian,
        }
    }
}

/// The `length` bytes of `slice` from `position` on, or the empty slice where
/// `slice` does not hold that many from there.
fn get_slice(slice: &[u8], position: usize, length: usize) -> (r: &[u8])
    ensures
        position + length <= slice@.len() ==> r@ == slice@.subrange(
            position as int,
            position + length,
        ) && position + length <= usize::MAX,
        position + length > slice@.len() ==> r@.len() == 0,
{
    if length > slice.len() || position > slice.len() - length {
        slice_subrange(slice, 0, 0)
    } else {
        slice_subrange(slice, position, position + length)
    }
}

impl BinaryParser {
    fn new(buffer: Vec<u8>, position: usize, endian: Endian) -> (r: BinaryParser)
        ensures
            r@ == (ParserState { bytes: buffer@, position: position as nat, endian }),
    {
        BinaryParser { buffer, position, endian }
    }

    fn init(vec: Vec<u8>) -> (r: BinaryParser)
        ensures
            r@ == ParserState::start(vec@),
    {
        let pos: usize = 0;
        let endian = Endian::Big;
        BinaryParser::new(vec, pos, endian)
    }

    /// A parser over a copy of the bytes of `vec`, at position 0, big-endian.
    pub fn from_vec(vec: &Vec<u8>) -> (r: BinaryParser)
        ensures
            r@ == ParserState::start(vec@),
    {
        BinaryParser::init(slice_to_vec(vec.as_slice()))
    }

    /// A parser over a copy of a static byte array, at position 0, big-endian.
    pub fn from_u8(u8_array: &'static [u8]) -> (r: BinaryParser)
        ensures
            r@ == ParserState::start(u8_array@),
    {
        BinaryParser::init(slice_to_vec(u8_array))
    }

    /// A parser over a copy of `u8_slice`, at position 0, big-endian.
    pub fn from_u8_slice(u8_slice: &[u8]) -> (r: BinaryParser)
        ensures
            r@ == ParserState::start(u8_slice@),
    {
        BinaryParser::init(slice_to_vec(u8_slice))
    }

    /// Makes every later read big-endian. Bytes and position stay as they are.
    pub fn set_big_endian(&mut self)
        ensures
            final(self)@ == old(self)@.with_endian(Endian::Big),
    {
        self.endian = Endian::Big;
    }

    /// Makes every later read little-endian. Bytes and position stay as they are.
    pub fn set_little_endian(&mut self)
        ensures
            final(self)@ == old(self)@.with_endian(Endian::Little),
    {
        self.endian = Endian::Little;
    }

    /// Moves the position to `pos`, which may lie beyond the buffer: the next
    /// read then fails.
    pub fn set_position(&mut self, pos: usize)
        ensures
            final(self)@ == old(self)@.at(pos as nat),
    {
        self.position = pos;
    }

    /// Moves the position forward by `pos` bytes, possibly beyond the buffer.
    pub fn forward_position(&mut self, pos: usize)
        requires
            old(self)@.position + pos <= usize::MAX,
        ensures
            final(self)@ == old(self)@.at(old(self)@.position + pos as nat),
    {
        self.position += pos;
    }

    /// Moves the position back by `pos` bytes, which it must have behind it.
    pub fn back_position(&mut self, pos: usize)
        requires
            pos <= old(self)@.position,
        ensures
            final(self)@ == old(self)@.at((old(self)@.position - pos) as nat),
    {
        self.position -= pos;
    }

    /// The offset of the next unread byte.
    pub fn position(&self) -> (r: usize)
        ensures
            r as nat == self@.position,
    {
        self.position
    }

    /// The length of the buffer.
    pub fn len(&self) -> (r: usize)
        ensures
            r as nat == self@.bytes.len(),
    {
        self.buffer.len()
    }

    /// The byte order that the next read will use.
    pub fn endian(&self) -> (r: Endian)
        ensures
            r == self@.endian,
    {
        self.endian
    }

    /// Reads a signed 8-bit number. The byte order plays no part.
    pub fn read_i8(&mut self) -> (r: Result<i8, ParseError>)
        ensures
            r is Ok <==> old(self)@.can_read(1),
            r matches Ok(v) ==> v as int == old(self)@.signed(1),
            r matches Err(e) ==> e == ParseError::OutOfBounds,
            final(self)@ == old(self)@.after_read(1),
    {
        let bin = get_slice(self.buffer.as_slice(), self.position, 1);
        if bin.len() == 0 {
            return Err(ParseError::OutOfBounds);
        }
        let byte: u8 = bin[0];
        proof {
            lemma_decode_single(bin@, self.endian);
            lemma_span_values();
            assert(byte as i8 as int == if byte >= 0x80u8 {
                byte as int - 0x100
            } else {
                byte as int
            }) by (bit_vector);
        }
        self.position += 1;
        Ok(byte as i8)
    }

    /// Reads a signed 16-bit number under the byte order.
    pub fn read_i16(&mut self) -> (r: Result<i16, ParseError>)
        ensures
            r is Ok <==> old(self)@.can_read(2),
            r matches Ok(v) ==> v as int == old(self)@.signed(2),
            r matches Err(e) ==> e == ParseError::OutOfBounds,
            final(self)@ == old(self)@.after_read(2),
    {
        let bin = get_slice(self.buffer.as_slice(), self.position, 2);
        if bin.len() == 0 {
            return Err(ParseError::OutOfBounds);
        }
        let result = match self.endian {
            Endian::Big => be_i16(bin),
            Endian::Little => le_i16(bin),
        };
        self.position += 2;
        Ok(result)
    }

    /// Reads a signed 32-bit number under the byte order.
    pub fn read_i32(&mut self) -> (r: Result<i32, ParseError>)
        ensures
            r is Ok <==> old(self)@.can_read(4),
            r matches Ok(v) ==> v as int == old(self)@.signed(4),
            r matches Err(e) ==> e == ParseError::OutOfBounds,
            final(self)@ == old(self)@.after_read(4),
    {
        let bin = get_slice(self.buffer.as_slice(), self.position, 4);
        if bin.len() == 0 {
            return Err(ParseError::OutOfBounds);
        }
        let result = match self.endian {
            Endian::Big => be_i32(bin),
            Endian::Little => le_i32(bin),
        };
        self.position += 4;
        Ok(result)
    }

    /// Reads a signed 64-bit number under the byte order.
    pub fn read_i64(&mut self) -> (r: Result<i64, ParseError>)
        ensures
            r is Ok <==> old(self)@.can_read(8),
            r matches Ok(v) ==> v as int == old(self)@.signed(8),
            r matches Err(e) ==> e == ParseError::OutOfBounds,
            final(self)@ == old(self)@.after_read(8),
    {
        let bin = get_slice(self.buffer.as_slice(), self.position, 8);
        if bin.len() == 0 {
            return Err(ParseError::OutOfBounds);
        }
        let result = match self.endian {
            Endian::Big => be_i64(bin),
            Endian::Little => le_i64(bin),
        };
        self.position += 8;
        Ok(result)
    }

    /// Reads an unsigned 8-bit number. The byte order plays no part.
    pub fn read_u8(&mut self) -> (r: Result<u8, ParseError>)
        ensures
            r is Ok <==> old(self)@.can_read(1),
            r matches Ok(v) ==> v as nat == old(self)@.unsigned(1),
            r matches Err(e) ==> e == ParseError::OutOfBounds,
            final(self)@ == old(self)@.after_read(1),
    {
        let bin = get_slice(self.buffer.as_slice(), self.position, 1);
        if bin.len() == 0 {
            return Err(ParseError::OutOfBounds);
        }
        let byte: u8 = bin[0];
        proof {
            lemma_decode_single(bin@, self.endian);
        }
        self.position += 1;
        Ok(byte)
    }

    /// Reads an unsigned 16-bit number under the byte order.
    pub fn read_u16(&mut self) -> (r: Result<u16, ParseError>)
        ensures
            r is Ok <==> old(self)@.can_read(2),
            r matches Ok(v) ==> v as nat == old(self)@.unsigned(2),
            r matches Err(e) ==> e == ParseError::OutOfBounds,
            final(self)@ == old(self)@.after_read(2),
    {
        let bin = get_slice(self.buffer.as_slice(), self.position, 2);
        if bin.len() == 0 {
            return Err(ParseError::OutOfBounds);
        }
        let result = match self.endian {
            Endian::Big => be_u16(bin),
            Endian::Little => le_u16(bin),
        };
        self.position += 2;
        Ok(result)
    }

    /// Reads an unsigned 32-bit number under the byte order.
    pub fn read_u32(&mut self) -> (r: Result<u32, ParseError>)
        ensures
            r is Ok <==> old(self)@.can_read(4),
            r matches Ok(v) ==> v as nat == old(self)@.unsigned(4),
            r matches Err(e) ==> e == ParseError::OutOfBounds,
            final(self)@ == old(self)@.after_read(4),
    {
        let bin = get_slice(self.buffer.as_slice(), self.position, 4);
        if bin.len() == 0 {
            return Err(ParseError::OutOfBounds);
        }
        let result = match self.endian {
            Endian::Big => be_u32(bin),
            Endian::Little => le_u32(bin),
        };
        self.position += 4;
        Ok(result)
    }

    /// Reads an unsigned 64-bit number under the byte order.
    pub fn read_u64(&mut self) -> (r: Result<u64, ParseError>)
        ensures
            r is Ok <==> old(self)@.can_read(8),
            r matches Ok(v) ==> v as nat == old(self)@.unsigned(8),
            r matches Err(e) ==> e == ParseError::OutOfBounds,
            final(self)@ == old(self)@.after_read(8),
    {
        let bin = get_slice(self.buffer.as_slice(), self.position, 8);
        if bin.len() == 0 {
            return Err(ParseError::OutOfBounds);
        }
        let result = match self.endian {
            Endian::Big => be_u64(bin),
            Endian::Little => le_u64(bin),
        };
        self.position += 8;
        Ok(result)
    }

    /// Reads the four bytes of a single-precision number under the byte order
    /// and returns them as its IEEE-754 bit pattern.
    pub fn read_f32(&mut self) -> (r: Result<u32, ParseError>)
        ensures
            r is Ok <==> old(self)@.can_read(4),
            r matches Ok(v) ==> v as nat == old(self)@.unsigned(4),
            r matches Err(e) ==> e == ParseError::OutOfBounds,
            final(self)@ == old(self)@.after_read(4),
    {
        self.read_u32()
    }

    /// Reads the eight bytes of a double-precision number under the byte order
    /// and returns them as its IEEE-754 bit pattern.
    pub fn read_f64(&mut self) -> (r: Result<u64, ParseError>)
        ensures
            r is Ok <==> old(self)@.can_read(8),
            r matches Ok(v) ==> v as nat == old(self)@.unsigned(8),
            r matches Err(e) ==> e == ParseError::OutOfBounds,
            final(self)@ == old(self)@.after_read(8),
    {
        self.read_u64()
    }

    /// Reads a null-terminated string. Its text runs from the position to the
    /// first zero byte, or to the end of the buffer where no zero follows. The
    /// position moves past the text and past the zero, also where the text is
    /// not valid UTF-8 and the read fails.
    pub fn read_string(&mut self) -> (r: Result<String, ParseError>)
        ensures
            r is Ok <==> valid_utf8(old(self)@.text()),
            r matches Ok(s) ==> s@ == decode_utf8(old(self)@.text()),
            r matches Err(e) ==> e == ParseError::InvalidEncoding,
            final(self)@ == old(self)@.after_string(),
    {
        let start = self.position;
        let len = self.buffer.len();
        let avail: usize = if start < len {
            len - start
        } else {
            0
        };
        let mut vec: Vec<u8> = Vec::new();
        let mut pos: usize = 0;
        while pos < avail
            invariant
                len == self.buffer@.len(),
                avail == if start < len {
                    len - start
                } else {
                    0
                },
                pos <= avail,
                forall|j: int| start <= j < start + pos ==> self.buffer@[j] != 0,
                start <= len ==> vec@ == self.buffer@.subrange(start as int, start + pos),
                start > len ==> vec@.len() == 0,
            ensures
                pos < avail ==> self.buffer@[start + pos] == 0,
            decreases avail - pos,
        {
            let bin = self.buffer[start + pos];
            if bin == 0x00 {
                break ;
            } else {
                vec.push(bin);
                pos += 1;
            }
        }
        proof {
            assert(is_text_len(self.buffer@, start as nat, pos as nat));
            lemma_text_len_unique(self.buffer@, start as nat, pos as nat);
        }
        self.position = if pos < avail {
            start + pos + 1
        } else {
            start + pos
        };
        match String::from_utf8(vec) {
            Ok(result) => Ok(result),
            Err(_) => Err(ParseError::InvalidEncoding),
        }
    }
}

} // verus!
