//! Messages that the server sends to clients, and their wire format.
//!
//! | opcode | message                     | fields                          | bytes |
//! |--------|-----------------------------|---------------------------------|-------|
//! | `0x00` | server identification       | protocol, name, motd, user type | 131   |
//! | `0x06` | set block                   | x, y, z, block                  | 8     |
//! | `0x08` | teleport                    | player, x, y, z, yaw, pitch     | 10    |
//! | `0x09` | position + orientation step | player, dx, dy, dz, yaw, pitch  | 7     |
//! | `0x0d` | message                     | player, text                    | 66    |

use crate::components::{Pos, Rotation};
use crate::decoded::Decoded;
use crate::text::{field_at, is_field, is_text, padded, unpadded, Text};
use crate::text::{lemma_field_round_trip, lemma_text_round_trip};
use crate::wire::{be16, byte_of, byte_to_i8, from_byte, get_i16, i16_at, i8_to_byte};
use crate::wire::{lemma_numbers_round_trip, put_i16};
use vstd::prelude::*;

verus! {

pub const OP_SERVER_IDENTIFICATION: u8 = 0x00;

pub const OP_BLOCK_CHANGE: u8 = 0x06;

pub const OP_TELEPORT: u8 = 0x08;

pub const OP_POSITION_AND_ORIENTATION_UPDATE: u8 = 0x09;

pub const OP_CHAT: u8 = 0x0d;

/// A message to a client.
#[derive(Debug, PartialEq, Eq)]
pub enum ClientBound {
    /// Answer to a player identification: the client is let in.
    ServerIdentification { protocol: u8, name: Text, motd: Text, user_type: u8 },
    /// The block at block coordinates `x, y, z` is now `block`.
    SetBlock { x: i16, y: i16, z: i16, block: u8 },
    /// Player `player` is now at `pos`, looking along `rot`.
    Teleport { player: u8, pos: Pos, rot: Rotation },
    /// Player `player` has moved by `dx, dy, dz` and now looks along
    /// `rot`.
    PositionAndOrientationUpdate { player: u8, dx: i8, dy: i8, dz: i8, rot: Rotation },
    /// A line of chat from player `player`.
    Message { player: u8, text: Text },
}

/// What a [`ClientBound`] message says, as mathematical values.
pub enum ClientBoundView {
    ServerIdentification { protocol: u8, name: Seq<u8>, motd: Seq<u8>, user_type: u8 },
    SetBlock { x: i16, y: i16, z: i16, block: u8 },
    Teleport { player: u8, pos: Pos, rot: Rotation },
    PositionAndOrientationUpdate { player: u8, dx: i8, dy: i8, dz: i8, rot: Rotation },
    Message { player: u8, text: Seq<u8> },
}

impl View for ClientBound {
    type V = ClientBoundView;

    open spec fn view(&self) -> ClientBoundView {
        match *self {
            ClientBound::ServerIdentification { protocol, name, motd, user_type } => {
                ClientBoundView::ServerIdentification {
                    protocol,
                    name: name@,
                    motd: motd@,
                    user_type,
                }
            },
            ClientBound::SetBlock { x, y, z, block } => ClientBoundView::SetBlock {
                x,
                y,
                z,
                block,
            },
            ClientBound::Teleport { player, pos, rot } => ClientBoundView::Teleport {
                player,
                pos,
                rot,
            },
            ClientBound::PositionAndOrientationUpdate { player, dx, dy, dz, rot } => {
                ClientBoundView::PositionAndOrientationUpdate { player, dx, dy, dz, rot }
            },
            ClientBound::Message { player, text } => ClientBoundView::Message {
                player,
                text: text@,
            },
        }
    }
}

impl ClientBoundView {
    /// Whether the message can be sent: every text in it is one.
    pub open spec fn valid(self) -> bool {
        match self {
            ClientBoundView::ServerIdentification { name, motd, .. } => is_text(name) && is_text(
                motd,
            ),
            ClientBoundView::SetBlock { .. } => true,
            ClientBoundView::Teleport { .. } => true,
            ClientBoundView::PositionAndOrientationUpdate { .. } => true,
            ClientBoundView::Message { text, .. } => is_text(text),
        }
    }

    /// The opcode of the message.
    pub open spec fn opcode(self) -> u8 {
        match self {
            ClientBoundView::ServerIdentification { .. } => OP_SERVER_IDENTIFICATION,
            ClientBoundView::SetBlock { .. } => OP_BLOCK_CHANGE,
            ClientBoundView::Teleport { .. } => OP_TELEPORT,
            ClientBoundView::PositionAndOrientationUpdate {
                ..
            } => OP_POSITION_AND_ORIENTATION_UPDATE,
            ClientBoundView::Message { .. } => OP_CHAT,
        }
    }

    /// The bytes of the message on the wire.
    pub open spec fn wire(self) -> Seq<u8> {
        match self {
            ClientBoundView::ServerIdentification { protocol, name, motd, user_type } => {
                seq![OP_SERVER_IDENTIFICATION, protocol] + padded(name) + padded(motd)
                    + seq![user_type]
            },
            ClientBoundView::SetBlock { x, y, z, block } => {
                seq![OP_BLOCK_CHANGE] + be16(x) + be16(y) + be16(z) + seq![block]
            },
            ClientBoundView::Teleport { player, pos, rot } => {
                seq![OP_TELEPORT, player] + be16(pos.x) + be16(pos.y) + be16(pos.z)
                    + seq![rot.yaw, rot.pitch]
            },
            ClientBoundView::PositionAndOrientationUpdate { player, dx, dy, dz, rot } => {
                seq![
                    OP_POSITION_AND_ORIENTATION_UPDATE,
                    player,
                    byte_of(dx),
                    byte_of(dy),
                    byte_of(dz),
                    rot.yaw,
                    rot.pitch,
                ]
            },
            ClientBoundView::Message { player, text } => seq![OP_CHAT, player] + padded(text),
        }
    }
}

/// Length of the message that starts with `opcode`, opcode included;
/// `None` if the server sends no such message.
pub open spec fn client_bound_len(opcode: u8) -> Option<nat> {
    if opcode == OP_SERVER_IDENTIFICATION {
        Some(131)
    } else if opcode == OP_BLOCK_CHANGE {
        Some(8)
    } else if opcode == OP_TELEPORT {
        Some(10)
    } else if opcode == OP_POSITION_AND_ORIENTATION_UPDATE {
        Some(7)
    } else if opcode == OP_CHAT {
        Some(66)
    } else {
        None
    }
}

/// The message that a whole frame holds, if its fields are well-formed.
/// `frame` starts with a known opcode and has that opcode's length.
pub open spec fn client_bound_body(frame: Seq<u8>) -> Option<ClientBoundView> {
    let opcode = frame[0];
    if opcode == OP_SERVER_IDENTIFICATION {
        if is_field(field_at(frame, 2)) && is_field(field_at(frame, 66)) {
            Some(
                ClientBoundView::ServerIdentification {
                    protocol: frame[1],
                    name: unpadded(field_at(frame, 2)),
                    motd: unpadded(field_at(frame, 66)),
                    user_type: frame[130],
                },
            )
        } else {
            None
        }
    } else if opcode == OP_BLOCK_CHANGE {
        Some(
            ClientBoundView::SetBlock {
                x: i16_at(frame, 1),
                y: i16_at(frame, 3),
                z: i16_at(frame, 5),
                block: frame[7],
            },
        )
    } else if opcode == OP_TELEPORT {
        Some(
            ClientBoundView::Teleport {
                player: frame[1],
                pos: Pos { x: i16_at(frame, 2), y: i16_at(frame, 4), z: i16_at(frame, 6) },
                rot: Rotation { yaw: frame[8], pitch: frame[9] },
            },
        )
    } else if opcode == OP_POSITION_AND_ORIENTATION_UPDATE {
        Some(
            ClientBoundView::PositionAndOrientationUpdate {
                player: frame[1],
                dx: from_byte(frame[2]),
                dy: from_byte(frame[3]),
                dz: from_byte(frame[4]),
                rot: Rotation { yaw: frame[5], pitch: frame[6] },
            },
        )
    } else {
        if is_field(field_at(frame, 2)) {
            Some(ClientBoundView::Message { player: frame[1], text: unpadded(field_at(frame, 2)) })
        } else {
            None
        }
    }
}

/// What the front of `bytes` decodes to.
pub open spec fn parse_client_bound(bytes: Seq<u8>) -> Decoded<ClientBoundView> {
    if bytes.len() == 0 {
        Decoded::Incomplete
    } else {
        match client_bound_len(bytes[0]) {
            None => Decoded::UnknownOpcode { opcode: bytes[0] },
            Some(n) => {
                if bytes.len() < n {
                    Decoded::Incomplete
                } else {
                    match client_bound_body(bytes.subrange(0, n as int)) {
                        Some(message) => Decoded::Message { message, used: n as usize },
                        None => Decoded::Malformed { opcode: bytes[0] },
                    }
                }
            },
        }
    }
}

impl ClientBound {
    /// The wire format of the message.
    pub fn encode(&self) -> (out: Vec<u8>)
        ensures
            self@.valid(),
            out@ == self@.wire(),
    {
        let mut out: Vec<u8> = Vec::new();
        match self {
            ClientBound::ServerIdentification { protocol, name, motd, user_type } => {
                let _ = name.as_bytes();
                let _ = motd.as_bytes();
                out.push(OP_SERVER_IDENTIFICATION);
                out.push(*protocol);
                name.write_field(&mut out);
                motd.write_field(&mut out);
                out.push(*user_type);
                assert(out@ =~= self@.wire());
            },
            ClientBound::SetBlock { x, y, z, block } => {
                out.push(OP_BLOCK_CHANGE);
                put_i16(&mut out, *x);
                put_i16(&mut out, *y);
                put_i16(&mut out, *z);
                out.push(*block);
                assert(out@ =~= self@.wire());
            },
            ClientBound::Teleport { player, pos, rot } => {
                out.push(OP_TELEPORT);
                out.push(*player);
                put_i16(&mut out, pos.x);
                put_i16(&mut out, pos.y);
                put_i16(&mut out, pos.z);
                out.push(rot.yaw);
                out.push(rot.pitch);
                assert(out@ =~= self@.wire());
            },
            ClientBound::PositionAndOrientationUpdate { player, dx, dy, dz, rot } => {
                out.push(OP_POSITION_AND_ORIENTATION_UPDATE);
                out.push(*player);
                out.push(i8_to_byte(*dx));
                out.push(i8_to_byte(*dy));
                out.push(i8_to_byte(*dz));
                out.push(rot.yaw);
                out.push(rot.pitch);
                assert(out@ =~= self@.wire());
            },
            ClientBound::Message { player, text } => {
                let _ = text.as_bytes();
                out.push(OP_CHAT);
                out.push(*player);
                text.write_field(&mut out);
                assert(out@ =~= self@.wire());
            },
        }
        out
    }

    /// Decodes the message at the front of `bytes`, which may hold no
    /// message yet, part of one, or one and more behind it.
    pub fn decode(bytes: &[u8]) -> (r: Decoded<ClientBound>)
        ensures
            r@ == parse_client_bound(bytes@),
    {
        if bytes.len() == 0 {
            return Decoded::Incomplete;
        }
        let opcode = bytes[0];
        if opcode == OP_SERVER_IDENTIFICATION {
            if bytes.len() < 131 {
                return Decoded::Incomplete;
            }
            let ghost frame = bytes@.subrange(0, 131);
            assert(field_at(frame, 2) =~= field_at(bytes@, 2));
            assert(field_at(frame, 66) =~= field_at(bytes@, 66));
            let name = Text::from_field(bytes, 2);
            let motd = Text::from_field(bytes, 66);
            match (name, motd) {
                (Some(name), Some(motd)) => Decoded::Message {
                    message: ClientBound::ServerIdentification {
                        protocol: bytes[1],
                        name,
                        motd,
                        user_type: bytes[130],
                    },
                    used: 131,
                },
                _ => Decoded::Malformed { opcode },
            }
        } else if opcode == OP_BLOCK_CHANGE {
            if bytes.len() < 8 {
                return Decoded::Incomplete;
            }
            let ghost frame = bytes@.subrange(0, 8);
            Decoded::Message {
                message: ClientBound::SetBlock {
                    x: get_i16(bytes, 1),
                    y: get_i16(bytes, 3),
                    z: get_i16(bytes, 5),
                    block: bytes[7],
                },
                used: 8,
            }
        } else if opcode == OP_TELEPORT {
            if bytes.len() < 10 {
                return Decoded::Incomplete;
            }
            let ghost frame = bytes@.subrange(0, 10);
            Decoded::Message {
                message: ClientBound::Teleport {
                    player: bytes[1],
                    pos: Pos { x: get_i16(bytes, 2), y: get_i16(bytes, 4), z: get_i16(bytes, 6) },
                    rot: Rotation { yaw: bytes[8], pitch: bytes[9] },
                },
                used: 10,
            }
        } else if opcode == OP_POSITION_AND_ORIENTATION_UPDATE {
            if bytes.len() < 7 {
                return Decoded::Incomplete;
            }
            let ghost frame = bytes@.subrange(0, 7);
            Decoded::Message {
                message: ClientBound::PositionAndOrientationUpdate {
                    player: bytes[1],
                    dx: byte_to_i8(bytes[2]),
                    dy: byte_to_i8(bytes[3]),
                    dz: byte_to_i8(bytes[4]),
                    rot: Rotation { yaw: bytes[5], pitch: bytes[6] },
                },
                used: 7,
            }
        } else if opcode == OP_CHAT {
            if bytes.len() < 66 {
                return Decoded::Incomplete;
            }
            let ghost frame = bytes@.subrange(0, 66);
            assert(field_at(frame, 2) =~= field_at(bytes@, 2));
            match Text::from_field(bytes, 2) {
                Some(text) => Decoded::Message {
                    message: ClientBound::Message { player: bytes[1], text },
                    used: 66,
                },
                None => Decoded::Malformed { opcode },
            }
        } else {
            Decoded::UnknownOpcode { opcode }
        }
    }
}

/// Round trip: the wire format of a valid message, with whatever
/// follows it in the buffer, decodes to that message and to the number
/// of bytes that the message took.
pub proof fn lemma_client_bound_round_trip(m: ClientBoundView, rest: Seq<u8>)
    requires
        m.valid(),
    ensures
        client_bound_len(m.opcode()) == Some(m.wire().len()),
        parse_client_bound(m.wire() + rest) == (Decoded::Message {
            message: m,
            used: m.wire().len() as usize,
        }),
{
    let w = m.wire();
    let bytes = w + rest;
    let frame = bytes.subrange(0, w.len() as int);
    assert(frame =~= w);
    match m {
        ClientBoundView::ServerIdentification { protocol, name, motd, user_type } => {
            lemma_text_round_trip(name);
            lemma_text_round_trip(motd);
            assert(field_at(w, 2) =~= padded(name));
            assert(field_at(w, 66) =~= padded(motd));
        },
        ClientBoundView::SetBlock { x, y, z, block } => {
            lemma_numbers_round_trip(x, 0, 0, 0, 0);
            lemma_numbers_round_trip(y, 0, 0, 0, 0);
            lemma_numbers_round_trip(z, 0, 0, 0, 0);
        },
        ClientBoundView::Teleport { player, pos, rot } => {
            lemma_numbers_round_trip(pos.x, 0, 0, 0, 0);
            lemma_numbers_round_trip(pos.y, 0, 0, 0, 0);
            lemma_numbers_round_trip(pos.z, 0, 0, 0, 0);
        },
        ClientBoundView::PositionAndOrientationUpdate { player, dx, dy, dz, rot } => {
            lemma_numbers_round_trip(0, 0, 0, dx, 0);
            lemma_numbers_round_trip(0, 0, 0, dy, 0);
            lemma_numbers_round_trip(0, 0, 0, dz, 0);
        },
        ClientBoundView::Message { player, text } => {
            lemma_text_round_trip(text);
            assert(field_at(w, 2) =~= padded(text));
        },
    }
}

/// Whatever decodes to a message is the wire format of that message:
/// the message is valid, and the bytes used are exactly its encoding.
pub proof fn lemma_client_bound_decoded_is_encoding(bytes: Seq<u8>)
    requires
        parse_client_bound(bytes) is Message,
    ensures
        parse_client_bound(bytes)->message.valid(),
        parse_client_bound(bytes)->used <= bytes.len(),
        parse_client_bound(bytes)->message.wire() == bytes.subrange(
            0,
            parse_client_bound(bytes)->used as int,
        ),
{
    let n = client_bound_len(bytes[0])->0;
    let frame = bytes.subrange(0, n as int);
    let m = client_bound_body(frame)->0;
    match m {
        ClientBoundView::ServerIdentification { protocol, name, motd, user_type } => {
            lemma_field_round_trip(field_at(frame, 2));
            lemma_field_round_trip(field_at(frame, 66));
            assert(m.wire() =~= frame);
        },
        ClientBoundView::SetBlock { x, y, z, block } => {
            lemma_numbers_round_trip(0, frame[1], frame[2], 0, 0);
            lemma_numbers_round_trip(0, frame[3], frame[4], 0, 0);
            lemma_numbers_round_trip(0, frame[5], frame[6], 0, 0);
            assert(m.wire() =~= frame);
        },
        ClientBoundView::Teleport { player, pos, rot } => {
            lemma_numbers_round_trip(0, frame[2], frame[3], 0, 0);
            lemma_numbers_round_trip(0, frame[4], frame[5], 0, 0);
            lemma_numbers_round_trip(0, frame[6], frame[7], 0, 0);
            assert(m.wire() =~= frame);
        },
        ClientBoundView::PositionAndOrientationUpdate { player, dx, dy, dz, rot } => {
            lemma_numbers_round_trip(0, 0, 0, 0, frame[2]);
            lemma_numbers_round_trip(0, 0, 0, 0, frame[3]);
            lemma_numbers_round_trip(0, 0, 0, 0, frame[4]);
            assert(m.wire() =~= frame);
        },
        ClientBoundView::Message { player, text } => {
            lemma_field_round_trip(field_at(frame, 2));
            assert(m.wire() =~= frame);
        },
    }
}

} // verus!
