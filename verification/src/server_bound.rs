//! Messages that clients send to the server, and their wire format.
//!
//! Every message is one opcode byte followed by fields of fixed width:
//!
//! | opcode | message                | fields                                   | bytes |
//! |--------|------------------------|------------------------------------------|-------|
//! | `0x00` | player identification  | protocol, user name, key, unused         | 131   |
//! | `0x05` | set block              | x, y, z, mode, block                     | 9     |
//! | `0x08` | position + orientation | player, x, y, z, yaw, pitch              | 10    |
//! | `0x0d` | message                | unused, text                             | 66    |

use crate::components::{Pos, Rotation};
use crate::decoded::Decoded;
use crate::text::{field_at, is_field, is_text, padded, unpadded, Text};
use crate::text::{lemma_field_round_trip, lemma_text_round_trip};
use crate::wire::{be16, flag_byte, get_i16, i16_at, lemma_numbers_round_trip, put_i16};
use vstd::prelude::*;

verus! {

pub const OP_PLAYER_IDENTIFICATION: u8 = 0x00;

pub const OP_SET_BLOCK: u8 = 0x05;

pub const OP_POSITION_AND_ORIENTATION: u8 = 0x08;

pub const OP_MESSAGE: u8 = 0x0d;

/// A message from a client.
#[derive(Debug, PartialEq, Eq)]
pub enum ServerBound {
    /// The first message of a connection: who is joining.
    PlayerIdentification { protocol: u8, username: Text, key: Text, unused: u8 },
    /// A block was placed (`placed`) or broken at block coordinates
    /// `x, y, z`; `block` is the kind of block held.
    SetBlock { x: i16, y: i16, z: i16, placed: bool, block: u8 },
    /// Where the client's player now is and which way it looks.
    PositionAndOrientation { player: u8, pos: Pos, rot: Rotation },
    /// A line of chat.
    Message { unused: u8, text: Text },
}

/// What a [`ServerBound`] message says, as mathematical values.
pub enum ServerBoundView {
    PlayerIdentification { protocol: u8, username: Seq<u8>, key: Seq<u8>, unused: u8 },
    SetBlock { x: i16, y: i16, z: i16, placed: bool, block: u8 },
    PositionAndOrientation { player: u8, pos: Pos, rot: Rotation },
    Message { unused: u8, text: Seq<u8> },
}

impl View for ServerBound {
    type V = ServerBoundView;

    open spec fn view(&self) -> ServerBoundView {
        match *self {
            ServerBound::PlayerIdentification { protocol, username, key, unused } => {
                ServerBoundView::PlayerIdentification {
                    protocol,
                    username: username@,
                    key: key@,
                    unused,
                }
            },
            ServerBound::SetBlock { x, y, z, placed, block } => ServerBoundView::SetBlock {
                x,
                y,
                z,
                placed,
                block,
            },
            ServerBound::PositionAndOrientation { player, pos, rot } => {
                ServerBoundView::PositionAndOrientation { player, pos, rot }
            },
            ServerBound::Message { unused, text } => ServerBoundView::Message {
                unused,
                text: text@,
            },
        }
    }
}

impl ServerBoundView {
    /// Whether the message can be sent: every text in it is one.
    pub open spec fn valid(self) -> bool {
        match self {
            ServerBoundView::PlayerIdentification { username, key, .. } => is_text(username)
                && is_text(key),
            ServerBoundView::SetBlock { .. } => true,
            ServerBoundView::PositionAndOrientation { .. } => true,
            ServerBoundView::Message { text, .. } => is_text(text),
        }
    }

    /// The opcode of the message.
    pub open spec fn opcode(self) -> u8 {
        match self {
            ServerBoundView::PlayerIdentification { .. } => OP_PLAYER_IDENTIFICATION,
            ServerBoundView::SetBlock { .. } => OP_SET_BLOCK,
            ServerBoundView::PositionAndOrientation { .. } => OP_POSITION_AND_ORIENTATION,
            ServerBoundView::Message { .. } => OP_MESSAGE,
        }
    }

    /// The bytes of the message on the wire.
    pub open spec fn wire(self) -> Seq<u8> {
        match self {
            ServerBoundView::PlayerIdentification { protocol, username, key, unused } => {
                seq![OP_PLAYER_IDENTIFICATION, protocol] + padded(username) + padded(key)
                    + seq![unused]
            },
            ServerBoundView::SetBlock { x, y, z, placed, block } => {
                seq![OP_SET_BLOCK] + be16(x) + be16(y) + be16(z) + seq![flag_byte(placed), block]
            },
            ServerBoundView::PositionAndOrientation { player, pos, rot } => {
                seq![OP_POSITION_AND_ORIENTATION, player] + be16(pos.x) + be16(pos.y) + be16(pos.z)
                    + seq![rot.yaw, rot.pitch]
            },
            ServerBoundView::Message { unused, text } => {
                seq![OP_MESSAGE, unused] + padded(text)
            },
        }
    }
}

/// Length of the message that starts with `opcode`, opcode included;
/// `None` if clients send no such message.
pub open spec fn server_bound_len(opcode: u8) -> Option<nat> {
    if opcode == OP_PLAYER_IDENTIFICATION {
        Some(131)
    } else if opcode == OP_SET_BLOCK {
        Some(9)
    } else if opcode == OP_POSITION_AND_ORIENTATION {
        Some(10)
    } else if opcode == OP_MESSAGE {
        Some(66)
    } else {
        None
    }
}

/// The message that a whole frame holds, if its fields are well-formed.
/// `frame` starts with a known opcode and has that opcode's length.
pub open spec fn server_bound_body(frame: Seq<u8>) -> Option<ServerBoundView> {
    let opcode = frame[0];
    if opcode == OP_PLAYER_IDENTIFICATION {
        if is_field(field_at(frame, 2)) && is_field(field_at(frame, 66)) {
            Some(
                ServerBoundView::PlayerIdentification {
                    protocol: frame[1],
                    username: unpadded(field_at(frame, 2)),
                    key: unpadded(field_at(frame, 66)),
                    unused: frame[130],
                },
            )
        } else {
            None
        }
    } else if opcode == OP_SET_BLOCK {
        if frame[7] <= 1 {
            Some(
                ServerBoundView::SetBlock {
                    x: i16_at(frame, 1),
                    y: i16_at(frame, 3),
                    z: i16_at(frame, 5),
                    placed: frame[7] == 1,
                    block: frame[8],
                },
            )
        } else {
            None
        }
    } else if opcode == OP_POSITION_AND_ORIENTATION {
        Some(
            ServerBoundView::PositionAndOrientation {
                player: frame[1],
                pos: Pos { x: i16_at(frame, 2), y: i16_at(frame, 4), z: i16_at(frame, 6) },
                rot: Rotation { yaw: frame[8], pitch: frame[9] },
            },
        )
    } else {
        if is_field(field_at(frame, 2)) {
            Some(ServerBoundView::Message { unused: frame[1], text: unpadded(field_at(frame, 2)) })
        } else {
            None
        }
    }
}

/// What the front of `bytes` decodes to.
pub open spec fn parse_server_bound(bytes: Seq<u8>) -> Decoded<ServerBoundView> {
    if bytes.len() == 0 {
        Decoded::Incomplete
    } else {
        match server_bound_len(bytes[0]) {
            None => Decoded::UnknownOpcode { opcode: bytes[0] },
            Some(n) => {
                if bytes.len() < n {
                    Decoded::Incomplete
                } else {
                    match server_bound_body(bytes.subrange(0, n as int)) {
                        Some(message) => Decoded::Message { message, used: n as usize },
                        None => Decoded::Malformed { opcode: bytes[0] },
                    }
                }
            },
        }
    }
}

impl ServerBound {
    /// The wire format of the message.
    pub fn encode(&self) -> (out: Vec<u8>)
        ensures
            self@.valid(),
            out@ == self@.wire(),
    {
        let mut out: Vec<u8> = Vec::new();
        match self {
            ServerBound::PlayerIdentification { protocol, username, key, unused } => {
                let _ = username.as_bytes();
                let _ = key.as_bytes();
                out.push(OP_PLAYER_IDENTIFICATION);
                out.push(*protocol);
                username.write_field(&mut out);
                key.write_field(&mut out);
                out.push(*unused);
                assert(out@ =~= self@.wire());
            },
            ServerBound::SetBlock { x, y, z, placed, block } => {
                out.push(OP_SET_BLOCK);
                put_i16(&mut out, *x);
                put_i16(&mut out, *y);
                put_i16(&mut out, *z);
                out.push(if *placed { 1 } else { 0 });
                out.push(*block);
                assert(out@ =~= self@.wire());
            },
            ServerBound::PositionAndOrientation { player, pos, rot } => {
                out.push(OP_POSITION_AND_ORIENTATION);
                out.push(*player);
                put_i16(&mut out, pos.x);
                put_i16(&mut out, pos.y);
                put_i16(&mut out, pos.z);
                out.push(rot.yaw);
                out.push(rot.pitch);
                assert(out@ =~= self@.wire());
            },
            ServerBound::Message { unused, text } => {
                let _ = text.as_bytes();
                out.push(OP_MESSAGE);
                out.push(*unused);
                text.write_field(&mut out);
                assert(out@ =~= self@.wire());
            },
        }
        out
    }

    /// Decodes the message at the front of `bytes`, which may hold no
    /// message yet, part of one, or one and more behind it.
    pub fn decode(bytes: &[u8]) -> (r: Decoded<ServerBound>)
        ensures
            r@ == parse_server_bound(bytes@),
    {
        if bytes.len() == 0 {
            return Decoded::Incomplete;
        }
        let opcode = bytes[0];
        if opcode == OP_PLAYER_IDENTIFICATION {
            if bytes.len() < 131 {
                return Decoded::Incomplete;
            }
            let ghost frame = bytes@.subrange(0, 131);
            assert(field_at(frame, 2) =~= field_at(bytes@, 2));
            assert(field_at(frame, 66) =~= field_at(bytes@, 66));
            let username = Text::from_field(bytes, 2);
            let key = Text::from_field(bytes, 66);
            match (username, key) {
                (Some(username), Some(key)) => Decoded::Message {
                    message: ServerBound::PlayerIdentification {
                        protocol: bytes[1],
                        username,
                        key,
                        unused: bytes[130],
                    },
                    used: 131,
                },
                _ => Decoded::Malformed { opcode },
            }
        } else if opcode == OP_SET_BLOCK {
            if bytes.len() < 9 {
                return Decoded::Incomplete;
            }
            let ghost frame = bytes@.subrange(0, 9);
            if bytes[7] > 1 {
                return Decoded::Malformed { opcode };
            }
            Decoded::Message {
                message: ServerBound::SetBlock {
                    x: get_i16(bytes, 1),
                    y: get_i16(bytes, 3),
                    z: get_i16(bytes, 5),
                    placed: bytes[7] == 1,
                    block: bytes[8],
                },
                used: 9,
            }
        } else if opcode == OP_POSITION_AND_ORIENTATION {
            if bytes.len() < 10 {
                return Decoded::Incomplete;
            }
            let ghost frame = bytes@.subrange(0, 10);
            Decoded::Message {
                message: ServerBound::PositionAndOrientation {
                    player: bytes[1],
                    pos: Pos { x: get_i16(bytes, 2), y: get_i16(bytes, 4), z: get_i16(bytes, 6) },
                    rot: Rotation { yaw: bytes[8], pitch: bytes[9] },
                },
                used: 10,
            }
        } else if opcode == OP_MESSAGE {
            if bytes.len() < 66 {
                return Decoded::Incomplete;
            }
            let ghost frame = bytes@.subrange(0, 66);
            assert(field_at(frame, 2) =~= field_at(bytes@, 2));
            match Text::from_field(bytes, 2) {
                Some(text) => Decoded::Message {
                    message: ServerBound::Message { unused: bytes[1], text },
                    used: 66,
                },
                None => Decoded::Malformed { opcode },
            }
        } else {
            Decoded::UnknownOpcode { opcode }
        }
    }
}

/// Round trip: the wire format of a valid message, with whatever
/// follows it in the buffer, decodes to that message and to the number
/// of bytes that the message took.
pub proof fn lemma_server_bound_round_trip(m: ServerBoundView, rest: Seq<u8>)
    requires
        m.valid(),
    ensures
        server_bound_len(m.opcode()) == Some(m.wire().len()),
        parse_server_bound(m.wire() + rest) == (Decoded::Message {
            message: m,
            used: m.wire().len() as usize,
        }),
{
    let w = m.wire();
    let bytes = w + rest;
    let frame = bytes.subrange(0, w.len() as int);
    assert(frame =~= w);
    match m {
        ServerBoundView::PlayerIdentification { protocol, username, key, unused } => {
            lemma_text_round_trip(username);
            lemma_text_round_trip(key);
            assert(field_at(w, 2) =~= padded(username));
            assert(field_at(w, 66) =~= padded(key));
        },
        ServerBoundView::SetBlock { x, y, z, placed, block } => {
            lemma_numbers_round_trip(x, 0, 0, 0, 0);
            lemma_numbers_round_trip(y, 0, 0, 0, 0);
            lemma_numbers_round_trip(z, 0, 0, 0, 0);
        },
        ServerBoundView::PositionAndOrientation { player, pos, rot } => {
            lemma_numbers_round_trip(pos.x, 0, 0, 0, 0);
            lemma_numbers_round_trip(pos.y, 0, 0, 0, 0);
            lemma_numbers_round_trip(pos.z, 0, 0, 0, 0);
        },
        ServerBoundView::Message { unused, text } => {
            lemma_text_round_trip(text);
            assert(field_at(w, 2) =~= padded(text));
        },
    }
}

/// Whatever decodes to a message is the wire format of that message:
/// the message is valid, and the bytes used are exactly its encoding.
pub proof fn lemma_server_bound_decoded_is_encoding(bytes: Seq<u8>)
    requires
        parse_server_bound(bytes) is Message,
    ensures
        parse_server_bound(bytes)->message.valid(),
        parse_server_bound(bytes)->used <= bytes.len(),
        parse_server_bound(bytes)->message.wire() == bytes.subrange(
            0,
            parse_server_bound(bytes)->used as int,
        ),
{
    let n = server_bound_len(bytes[0])->0;
    let frame = bytes.subrange(0, n as int);
    let m = server_bound_body(frame)->0;
    match m {
        ServerBoundView::PlayerIdentification { protocol, username, key, unused } => {
            lemma_field_round_trip(field_at(frame, 2));
            lemma_field_round_trip(field_at(frame, 66));
            assert(m.wire() =~= frame);
        },
        ServerBoundView::SetBlock { x, y, z, placed, block } => {
            lemma_numbers_round_trip(0, frame[1], frame[2], 0, 0);
            lemma_numbers_round_trip(0, frame[3], frame[4], 0, 0);
            lemma_numbers_round_trip(0, frame[5], frame[6], 0, 0);
            assert(m.wire() =~= frame);
        },
        ServerBoundView::PositionAndOrientation { player, pos, rot } => {
            lemma_numbers_round_trip(0, frame[2], frame[3], 0, 0);
            lemma_numbers_round_trip(0, frame[4], frame[5], 0, 0);
            lemma_numbers_round_trip(0, frame[6], frame[7], 0, 0);
            assert(m.wire() =~= frame);
        },
        ServerBoundView::Message { unused, text } => {
            lemma_field_round_trip(field_at(frame, 2));
            assert(m.wire() =~= frame);
        },
    }
}

} // verus!
