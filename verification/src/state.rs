//! The mathematical model of a parser: its bytes, its position and its byte
//! order, and what each operation makes of them.

use crate::order::{decode, signed, Endian};
use crate::text::text_len;
use vstd::prelude::*;

verus! {

/// What a parser is, as a plain value.
pub struct ParserState {
    /// The buffer. No operation changes it.
    pub bytes: Seq<u8>,
    /// The offset of the next unread byte. It may lie beyond the buffer.
    pub position: nat,
    /// The byte order that the next read will use.
    pub endian: Endian,
}

impl ParserState {
    /// The state of a parser fresh from `bytes`.
    pub open spec fn start(bytes: Seq<u8>) -> ParserState {
        ParserState { bytes, position: 0, endian: Endian::Big }
    }

    /// The position lies within the buffer or at its end.
    pub open spec fn in_bounds(self) -> bool {
        self.position <= self.bytes.len()
    }

    /// `width` bytes remain from the position on.
    pub open spec fn can_read(self, width: nat) -> bool {
        self.position + width <= self.bytes.len()
    }

    /// The `width` bytes from the position on.
    pub open spec fn window(self, width: nat) -> Seq<u8> {
        self.bytes.subrange(self.position as int, self.position as int + width as int)
    }

    /// The unsigned number that the next `width` bytes spell under the byte order.
    pub open spec fn unsigned(self, width: nat) -> nat {
        decode(self.window(width), self.endian)
    }

    /// The signed number that the next `width` bytes spell under the byte order.
    pub open spec fn signed(self, width: nat) -> int {
        signed(self.unsigned(width), width)
    }

    /// The same parser at another position.
    pub open spec fn at(self, position: nat) -> ParserState {
        ParserState { position, ..self }
    }

    /// The same parser under another byte order.
    pub open spec fn with_endian(self, endian: Endian) -> ParserState {
        ParserState { endian, ..self }
    }

    /// The state after an attempt to read `width` bytes: moved on by `width`
    /// where that many bytes remained, untouched where they did not.
    pub open spec fn after_read(self, width: nat) -> ParserState {
        if self.can_read(width) {
            self.at(self.position + width)
        } else {
            self
        }
    }

    /// The length of the text of the string at the position.
    pub open spec fn text_len(self) -> nat {
        text_len(self.bytes, self.position)
    }

    /// The bytes of the text of the string at the position: those up to the
    /// first zero, or up to the end of the buffer where no zero follows. Beyond
    /// the buffer the text is empty.
    pub open spec fn text(self) -> Seq<u8> {
        if self.in_bounds() {
            self.window(self.text_len())
        } else {
            Seq::empty()
        }
    }

    /// The state after a string was read: past the text, and past the zero
    /// that ended it where there was one.
    pub open spec fn after_string(self) -> ParserState {
        if self.position + self.text_len() < self.bytes.len() {
            self.at(self.position + self.text_len() + 1)
        } else {
            self.at(self.position + self.text_len())
        }
    }
}

} // verus!
