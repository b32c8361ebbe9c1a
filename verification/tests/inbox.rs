use classic_server::components::{Pos, Rotation};
use classic_server::inbox::{Batch, Fault, Inbox};
use classic_server::server_bound::ServerBound;
use classic_server::text::Text;

fn text(s: &str) -> Text {
    Text::new(s.as_bytes().to_vec()).expect("a text")
}

fn moved(x: i16) -> ServerBound {
    ServerBound::PositionAndOrientation {
        player: 255,
        pos: Pos { x, y: 0, z: 0 },
        rot: Rotation { yaw: 0, pitch: 0 },
    }
}

fn chat(s: &str) -> ServerBound {
    ServerBound::Message { unused: 0xff, text: text(s) }
}

#[test]
fn inbox_starts_empty() {
    let mut inbox = Inbox::new();
    assert_eq!(inbox.pending_len(), 0);
    assert_eq!(inbox.feed(&[]), Batch { messages: vec![], fault: None });
    assert_eq!(inbox.pending_len(), 0);
}

#[test]
fn inbox_hands_out_whole_messages_in_order() {
    let mut inbox = Inbox::new();
    let mut bytes = moved(1).encode();
    bytes.extend(chat("hi").encode());
    bytes.extend(moved(2).encode());
    let batch = inbox.feed(&bytes);
    assert_eq!(batch, Batch { messages: vec![moved(1), chat("hi"), moved(2)], fault: None });
    assert_eq!(inbox.pending_len(), 0);
}

#[test]
fn inbox_keeps_a_partial_message_until_its_end_comes() {
    let mut inbox = Inbox::new();
    let bytes = chat("split in two").encode();
    let batch = inbox.feed(&bytes[..40]);
    assert_eq!(batch, Batch { messages: vec![], fault: None });
    assert_eq!(inbox.pending_len(), 40);
    let batch = inbox.feed(&bytes[40..]);
    assert_eq!(batch, Batch { messages: vec![chat("split in two")], fault: None });
    assert_eq!(inbox.pending_len(), 0);
}

#[test]
fn inbox_reads_byte_by_byte() {
    let mut inbox = Inbox::new();
    let mut bytes = moved(7).encode();
    bytes.extend(moved(8).encode());
    let mut got = Vec::new();
    for b in &bytes {
        let batch = inbox.feed(&[*b]);
        assert_eq!(batch.fault, None);
        got.extend(batch.messages);
    }
    assert_eq!(got, vec![moved(7), moved(8)]);
    assert_eq!(inbox.pending_len(), 0);
}

#[test]
fn inbox_keeps_the_front_of_the_next_message() {
    let mut inbox = Inbox::new();
    let mut bytes = moved(1).encode();
    bytes.extend_from_slice(&moved(2).encode()[..4]);
    let batch = inbox.feed(&bytes);
    assert_eq!(batch, Batch { messages: vec![moved(1)], fault: None });
    assert_eq!(inbox.pending_len(), 4);
    let batch = inbox.feed(&moved(2).encode()[4..]);
    assert_eq!(batch, Batch { messages: vec![moved(2)], fault: None });
}

#[test]
fn unknown_opcode_stops_the_reading() {
    let mut inbox = Inbox::new();
    let mut bytes = moved(1).encode();
    bytes.push(0x42);
    bytes.extend(moved(2).encode());
    let batch = inbox.feed(&bytes);
    assert_eq!(
        batch,
        Batch { messages: vec![moved(1)], fault: Some(Fault::UnknownOpcode { opcode: 0x42 }) }
    );
    assert_eq!(inbox.pending_len(), 0);
}

#[test]
fn fault_is_final() {
    let mut inbox = Inbox::new();
    let first = inbox.feed(&[0x42]);
    assert_eq!(first.fault, Some(Fault::UnknownOpcode { opcode: 0x42 }));
    let later = inbox.feed(&moved(1).encode());
    assert_eq!(
        later,
        Batch { messages: vec![], fault: Some(Fault::UnknownOpcode { opcode: 0x42 }) }
    );
    assert_eq!(inbox.pending_len(), 0);
}

#[test]
fn malformed_field_stops_the_reading() {
    let mut inbox = Inbox::new();
    let mut bytes = chat("fine").encode();
    let mut bad = chat("bad").encode();
    bad[10] = 0x07;
    bytes.extend(bad);
    let batch = inbox.feed(&bytes);
    assert_eq!(
        batch,
        Batch { messages: vec![chat("fine")], fault: Some(Fault::Malformed { opcode: 0x0d }) }
    );
}
