//! What decoding the front of a byte buffer can come to.

use vstd::prelude::*;

verus! {

/// Outcome of decoding the bytes at the front of a buffer.
#[derive(Debug, PartialEq, Eq)]
pub enum Decoded<M> {
    /// A whole message stood at the front; it took up `used` bytes.
    Message { message: M, used: usize },
    /// The buffer ends before the message does: more bytes are needed.
    Incomplete,
    /// The first byte is no opcode of this direction. Messages carry no
    /// length, so nothing tells where the next one would start.
    UnknownOpcode { opcode: u8 },
    /// The opcode is known and the message is all there, but one of its
    /// fixed-length fields holds what may not stand in it.
    Malformed { opcode: u8 },
}

impl<M: View> View for Decoded<M> {
    type V = Decoded<M::V>;

    open spec fn view(&self) -> Decoded<M::V> {
        match *self {
            Decoded::Message { message, used } => Decoded::Message { message: message@, used },
            Decoded::Incomplete => Decoded::Incomplete,
            Decoded::UnknownOpcode { opcode } => Decoded::UnknownOpcode { opcode },
            Decoded::Malformed { opcode } => Decoded::Malformed { opcode },
        }
    }
}

} // verus!
