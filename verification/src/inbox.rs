//! The read path of one connection: bytes come in from the socket in
//! pieces of any size, whole messages go out in the order they came.

use crate::decoded::Decoded;
use crate::server_bound::{parse_server_bound, server_bound_len, ServerBound, ServerBoundView};
use vstd::prelude::*;
use vstd::slice::slice_subrange;

verus! {

/// Why the bytes of a connection cannot be read any further.
#[derive(Clone, Copy, Debug, PartialEq, Eq)]
pub enum Fault {
    /// A message started with a byte that is no opcode.
    UnknownOpcode { opcode: u8 },
    /// A message held a field that was not well-formed.
    Malformed { opcode: u8 },
}

/// What a run of bytes holds.
pub struct Frames {
    /// The whole messages at the front, in order.
    pub messages: Seq<ServerBoundView>,
    /// How many bytes those messages take up.
    pub used: nat,
    /// What stopped the reading, if it was not the end of the bytes.
    pub fault: Option<Fault>,
}

/// Decodes message after message from the front of `bytes`, until the
/// bytes run out in or before a message, or a fault is met.
pub open spec fn frames(bytes: Seq<u8>) -> Frames
    decreases bytes.len(),
{
    match parse_server_bound(bytes) {
        Decoded::Message { message, used } => {
            let rest = frames(bytes.skip(used as int));
            Frames {
                messages: seq![message] + rest.messages,
                used: used as nat + rest.used,
                fault: rest.fault,
            }
        },
        Decoded::Incomplete => Frames { messages: Seq::empty(), used: 0, fault: None },
        Decoded::UnknownOpcode { opcode } => Frames {
            messages: Seq::empty(),
            used: 0,
            fault: Some(Fault::UnknownOpcode { opcode }),
        },
        Decoded::Malformed { opcode } => Frames {
            messages: Seq::empty(),
            used: 0,
            fault: Some(Fault::Malformed { opcode }),
        },
    }
}

/// Once the front of a buffer decodes to something other than "more
/// bytes needed", no bytes that come in later change what it decodes to.
pub proof fn lemma_decoding_is_settled(bytes: Seq<u8>, more: Seq<u8>)
    requires
        !(parse_server_bound(bytes) is Incomplete),
    ensures
        parse_server_bound(bytes + more) == parse_server_bound(bytes),
{
    let all = bytes + more;
    assert(all[0] == bytes[0]);
    match server_bound_len(bytes[0]) {
        Some(n) => {
            assert(all.subrange(0, n as int) =~= bytes.subrange(0, n as int));
        },
        None => {},
    }
}

/// A message takes up at least its opcode, and no more than there is.
pub proof fn lemma_message_takes_bytes(bytes: Seq<u8>)
    requires
        parse_server_bound(bytes) is Message,
    ensures
        0 < parse_server_bound(bytes)->used <= bytes.len(),
{
}

/// However the bytes of a connection are cut into deliveries, the same
/// messages come out in the same order: reading `first` and then, with
/// what `first` left unread, `second`, yields what reading both at once
/// yields. And a fault is final: whatever follows it changes nothing.
pub proof fn lemma_deliveries_may_be_cut_anywhere(first: Seq<u8>, second: Seq<u8>)
    ensures
        frames(first).used <= first.len(),
        frames(first).fault is Some ==> frames(first + second) == frames(first),
        frames(first).fault is None ==> {
            let left = first.skip(frames(first).used as int);
            &&& frames(first + second).messages == frames(first).messages + frames(
                left + second,
            ).messages
            &&& frames(first + second).used == frames(first).used + frames(left + second).used
            &&& frames(first + second).fault == frames(left + second).fault
        },
    decreases first.len(),
{
    match parse_server_bound(first) {
        Decoded::Message { message, used } => {
            lemma_message_takes_bytes(first);
            lemma_decoding_is_settled(first, second);
            let rest = first.skip(used as int);
            lemma_deliveries_may_be_cut_anywhere(rest, second);
            assert((first + second).skip(used as int) =~= rest + second);
            if frames(first).fault is None {
                let left = rest.skip(frames(rest).used as int);
                assert(left =~= first.skip(frames(first).used as int));
                assert(frames(first + second).messages =~= frames(first).messages + frames(
                    left + second,
                ).messages);
            }
        },
        Decoded::Incomplete => {
            assert(first.skip(0) =~= first);
            assert(frames(first + second).messages =~= frames(first).messages + frames(
                first + second,
            ).messages);
        },
        Decoded::UnknownOpcode { .. } => {
            lemma_decoding_is_settled(first, second);
        },
        Decoded::Malformed { .. } => {
            lemma_decoding_is_settled(first, second);
        },
    }
}

/// What a list of messages says.
pub open spec fn message_views(messages: Seq<ServerBound>) -> Seq<ServerBoundView> {
    Seq::new(messages.len(), |k: int| messages[k]@)
}

/// The messages that one delivery of bytes completed.
#[derive(Debug, PartialEq, Eq)]
pub struct Batch {
    /// The messages, in the order they came.
    pub messages: Vec<ServerBound>,
    /// Set when the connection has to be ended: nothing that follows
    /// can be read.
    pub fault: Option<Fault>,
}

/// What an [`Inbox`] holds, as mathematical values.
pub struct InboxView {
    /// The front of a message whose end has not come in yet.
    pub pending: Seq<u8>,
    /// The fault that ended the reading, if one did.
    pub fault: Option<Fault>,
}

/// The bytes of one connection that have come in and are not decoded
/// yet.
pub struct Inbox {
    pending: Vec<u8>,
    fault: Option<Fault>,
}

impl View for Inbox {
    type V = InboxView;

    closed spec fn view(&self) -> InboxView {
        InboxView { pending: self.pending@, fault: self.fault }
    }
}

impl Inbox {
    /// The inbox of a connection that has sent nothing yet.
    pub fn new() -> (inbox: Inbox)
        ensures
            inbox@ == (InboxView { pending: Seq::empty(), fault: None }),
    {
        Inbox { pending: Vec::new(), fault: None }
    }

    /// Takes in `bytes` and hands out every message that they complete.
    ///
    /// What is left of an unfinished message stays in the inbox until
    /// its end comes in. A fault ends the reading for good: the
    /// messages before it are handed out with it, what follows it is
    /// dropped, and every later delivery yields the fault again and no
    /// message.
    pub fn feed(&mut self, bytes: &[u8]) -> (batch: Batch)
        ensures
            match old(self)@.fault {
                Some(fault) => {
                    &&& batch.messages@.len() == 0
                    &&& batch.fault == Some(fault)
                    &&& final(self)@ == old(self)@
                },
                None => {
                    let read = frames(old(self)@.pending + bytes@);
                    &&& message_views(batch.messages@) == read.messages
                    &&& batch.fault == read.fault
                    &&& final(self)@.fault == read.fault
                    &&& final(self)@.pending == if read.fault is Some {
                        Seq::<u8>::empty()
                    } else {
                        (old(self)@.pending + bytes@).skip(read.used as int)
                    }
                },
            },
    {
        let mut messages: Vec<ServerBound> = Vec::new();
        if let Some(fault) = self.fault {
            return Batch { messages, fault: Some(fault) };
        }
        let mut i: usize = 0;
        while i < bytes.len()
            invariant
                i <= bytes.len(),
                self.fault == old(self).fault,
                self.pending@ == old(self).pending@ + bytes@.subrange(0, i as int),
            decreases bytes.len() - i,
        {
            self.pending.push(bytes[i]);
            assert(self.pending@ =~= old(self).pending@ + bytes@.subrange(0, i + 1));
            i += 1;
        }
        assert(bytes@.subrange(0, bytes@.len() as int) =~= bytes@);
        let ghost all = self.pending@;
        let total = self.pending.len();
        let mut at: usize = 0;
        let mut fault: Option<Fault> = None;
        proof {
            assert(all.skip(0) =~= all);
            assert(message_views(messages@) + frames(all).messages =~= frames(all).messages);
        }
        loop
            invariant_except_break
                fault is None,
            invariant
                at <= total,
                total == self.pending.len(),
                self.pending@ == all,
                frames(all).messages == message_views(messages@) + frames(
                    all.skip(at as int),
                ).messages,
                frames(all).used == at + frames(all.skip(at as int)).used,
                frames(all).fault == frames(all.skip(at as int)).fault,
            ensures
                frames(all).messages == message_views(messages@),
                frames(all).used == at,
                frames(all).fault == fault,
            decreases total - at,
        {
            let rest = slice_subrange(self.pending.as_slice(), at, total);
            assert(rest@ =~= all.skip(at as int));
            match ServerBound::decode(rest) {
                Decoded::Message { message, used } => {
                    proof {
                        lemma_message_takes_bytes(rest@);
                        assert(all.skip(at as int).skip(used as int) =~= all.skip(at + used));
                        assert(message_views(messages@.push(message)) =~= message_views(messages@)
                            + seq![message@]);
                    }
                    messages.push(message);
                    at += used;
                },
                Decoded::Incomplete => {
                    assert(message_views(messages@) + Seq::<ServerBoundView>::empty()
                        =~= message_views(messages@));
                    break ;
                },
                Decoded::UnknownOpcode { opcode } => {
                    assert(message_views(messages@) + Seq::<ServerBoundView>::empty()
                        =~= message_views(messages@));
                    fault = Some(Fault::UnknownOpcode { opcode });
                    break ;
                },
                Decoded::Malformed { opcode } => {
                    assert(message_views(messages@) + Seq::<ServerBoundView>::empty()
                        =~= message_views(messages@));
                    fault = Some(Fault::Malformed { opcode });
                    break ;
                },
            }
        }
        let mut left: Vec<u8> = Vec::new();
        if fault.is_none() {
            let mut k: usize = at;
            while k < total
                invariant
                    at <= k <= total,
                    total == self.pending.len(),
                    self.pending@ == all,
                    left@ == all.subrange(at as int, k as int),
                decreases total - k,
            {
                left.push(self.pending[k]);
                assert(left@ =~= all.subrange(at as int, k + 1));
                k += 1;
            }
            assert(left@ =~= all.skip(at as int));
        }
        self.pending = left;
        self.fault = fault;
        Batch { messages, fault }
    }

    /// Number of bytes waiting for the rest of their message.
    pub fn pending_len(&self) -> (n: usize)
        ensures
            n == self@.pending.len(),
    {
        self.pending.len()
    }
}

} // verus!
