//! The heartbeat publisher of one registry: when its next beat is due,
//! what the beat posts, and what follows from the answer.
//!
//! The publisher decides; the caller posts. A beat that fails is not
//! repeated at once: the next one goes out when it would have gone out
//! anyway. Beats of one registry never overlap: while one is in flight,
//! none is due. Each registry has a publisher of its own, so that one
//! registry that cannot be reached holds up no other.

use crate::heartbeat::{pairs, texts, url_parses, verdict};
use crate::heartbeat::{BeatError, Heartbeat, Post, Record, Reply};
use vstd::prelude::*;
use vstd::string::*;

verus! {

/// The state of the server that a beat reports.
pub struct Snapshot {
    /// Players online.
    pub users: u16,
    pub whitelisted_users: Vec<String>,
    pub whitelisted_ips: Vec<String>,
    pub banned_users: Vec<String>,
    pub banned_ips: Vec<String>,
}

/// What a [`Snapshot`] holds, as mathematical values.
pub struct SnapshotView {
    pub users: u16,
    pub whitelisted_users: Seq<Seq<char>>,
    pub whitelisted_ips: Seq<Seq<char>>,
    pub banned_users: Seq<Seq<char>>,
    pub banned_ips: Seq<Seq<char>>,
}

impl View for Snapshot {
    type V = SnapshotView;

    open spec fn view(&self) -> SnapshotView {
        SnapshotView {
            users: self.users,
            whitelisted_users: texts(self.whitelisted_users@),
            whitelisted_ips: texts(self.whitelisted_ips@),
            banned_users: texts(self.banned_users@),
            banned_ips: texts(self.banned_ips@),
        }
    }
}

/// What a tick of the clock asks of the caller.
#[derive(Debug, PartialEq, Eq)]
pub enum Tick {
    /// Nothing: no beat is due.
    Idle,
    /// Post this request, then report the answer.
    Post(Post),
    /// A beat was due and could not even be sent.
    Failed(BeatError),
}

/// What a [`Publisher`] holds, as mathematical values.
pub struct PublisherView {
    pub record: Record,
    /// Whether the registry is announced to at all.
    pub active: bool,
    /// Time from one beat to the next.
    pub interval: u64,
    /// When the next beat is due.
    pub next_due: u64,
    /// Whether a beat has been posted and not answered yet.
    pub in_flight: bool,
}

impl PublisherView {
    /// Whether a beat is due at time `now`.
    pub open spec fn is_due(self, now: u64) -> bool {
        self.active && !self.in_flight && now >= self.next_due
    }

    /// When the beat after one that ended at `now` is due.
    pub open spec fn following(self, now: u64) -> u64 {
        if now + self.interval > u64::MAX {
            u64::MAX
        } else {
            (now + self.interval) as u64
        }
    }

    /// The record rebuilt from a snapshot: its changing fields come from
    /// the snapshot, and its request is built from the result.
    pub open spec fn refreshed(self, snapshot: SnapshotView) -> Record {
        (Record {
            users: snapshot.users,
            whitelisted_users: snapshot.whitelisted_users,
            whitelisted_ips: snapshot.whitelisted_ips,
            banned_users: snapshot.banned_users,
            banned_ips: snapshot.banned_ips,
            ..self.record
        }).built()
    }

    /// The publisher after a tick at `now`, given whether the address of
    /// the registry is a URL.
    pub open spec fn ticked(self, now: u64, snapshot: SnapshotView, url_ok: bool) -> PublisherView {
        if !self.is_due(now) {
            self
        } else if url_ok {
            PublisherView { record: self.refreshed(snapshot), in_flight: true, ..self }
        } else {
            PublisherView {
                record: self.refreshed(snapshot),
                next_due: self.following(now),
                ..self
            }
        }
    }

    /// Whether `tick` is what a tick at `now` asks of the caller, given
    /// whether the address of the registry is a URL.
    pub open spec fn asks(
        self,
        now: u64,
        snapshot: SnapshotView,
        url_ok: bool,
        tick: Tick,
    ) -> bool {
        match tick {
            Tick::Idle => !self.is_due(now),
            Tick::Post(post) => {
                &&& self.is_due(now)
                &&& url_ok
                &&& post.url@ == self.record.url
                &&& pairs(post.form@) == self.refreshed(snapshot).fields()
            },
            Tick::Failed(e) => self.is_due(now) && !url_ok && e == BeatError::InvalidUrl,
        }
    }

    /// The publisher after the answer to its beat has come in at `now`.
    pub open spec fn settled(self, now: u64) -> PublisherView {
        if self.in_flight {
            PublisherView { in_flight: false, next_due: self.following(now), ..self }
        } else {
            self
        }
    }
}

/// Publisher of the heartbeats of one registry.
pub struct Publisher {
    record: Heartbeat,
    active: bool,
    interval: u64,
    next_due: u64,
    in_flight: bool,
}

impl View for Publisher {
    type V = PublisherView;

    closed spec fn view(&self) -> PublisherView {
        PublisherView {
            record: self.record@,
            active: self.active,
            interval: self.interval,
            next_due: self.next_due,
            in_flight: self.in_flight,
        }
    }
}

impl Publisher {
    /// A publisher for the registry of `record`. Its first beat is due
    /// at once, so that the server can be found as soon as it is up;
    /// then one follows every `interval`. An inactive publisher never
    /// beats.
    pub fn new(record: Heartbeat, active: bool, interval: u64) -> (publisher: Publisher)
        ensures
            publisher@ == (PublisherView {
                record: record@,
                active,
                interval,
                next_due: 0,
                in_flight: false,
            }),
    {
        Publisher { record, active, interval, next_due: 0, in_flight: false }
    }

    /// The record of the registry.
    pub fn record(&self) -> (record: &Heartbeat)
        ensures
            record@ == self@.record,
    {
        &self.record
    }

    /// Whether a beat is due at time `now`.
    pub fn is_due(&self, now: u64) -> (due: bool)
        ensures
            due == self@.is_due(now),
    {
        self.active && !self.in_flight && now >= self.next_due
    }

    /// Whether a beat is in flight.
    pub fn in_flight(&self) -> (in_flight: bool)
        ensures
            in_flight == self@.in_flight,
    {
        self.in_flight
    }

    /// When the next beat is due.
    pub fn next_due(&self) -> (at: u64)
        ensures
            at == self@.next_due,
    {
        self.next_due
    }

    fn following(&self, now: u64) -> (at: u64)
        ensures
            at == self@.following(now),
    {
        if now > u64::MAX - self.interval {
            u64::MAX
        } else {
            now + self.interval
        }
    }

    /// The tick of the clock at time `now`, given whether the address
    /// of the registry is a URL.
    ///
    /// If a beat is due, the record is rebuilt from `snapshot` and its
    /// request built anew. With a URL to post to, the request is handed
    /// out and the beat is in flight until [`Publisher::answered`]; with
    /// none, the beat has failed and the next one is due an interval
    /// later. If no beat is due, nothing changes.
    pub fn tick_given(&mut self, now: u64, snapshot: Snapshot, url_ok: bool) -> (tick: Tick)
        ensures
            final(self)@ == old(self)@.ticked(now, snapshot@, url_ok),
            old(self)@.asks(now, snapshot@, url_ok, tick),
    {
        if !self.is_due(now) {
            return Tick::Idle;
        }
        self.record.update_users(snapshot.users);
        self.record.update_whitelist(snapshot.whitelisted_users, snapshot.whitelisted_ips);
        self.record.update_bans(snapshot.banned_users, snapshot.banned_ips);
        let _ = self.record.build_request();
        assert(self.record@ == old(self)@.refreshed(snapshot@));
        match self.record.request_to(url_ok) {
            Ok(post) => {
                self.in_flight = true;
                Tick::Post(post)
            },
            Err(e) => {
                self.next_due = self.following(now);
                Tick::Failed(e)
            },
        }
    }

    /// The tick of the clock at time `now`: [`Publisher::tick_given`]
    /// with what the URL parser says of the registry's address.
    pub fn tick(&mut self, now: u64, snapshot: Snapshot) -> (tick: Tick)
        ensures
            final(self)@ == old(self)@.ticked(now, snapshot@, url_parses(old(self)@.record.url)),
            old(self)@.asks(now, snapshot@, url_parses(old(self)@.record.url), tick),
    {
        let url_ok = self.record.has_url();
        self.tick_given(now, snapshot, url_ok)
    }

    /// The answer to the beat in flight has come in at time `now`. The
    /// verdict is handed back; whatever it is, the next beat is due an
    /// interval later, and not before. Without a beat in flight nothing
    /// changes.
    pub fn answered(&mut self, now: u64, reply: Reply) -> (r: Result<(), BeatError>)
        ensures
            r == verdict(reply),
            final(self)@ == old(self)@.settled(now),
    {
        if self.in_flight {
            self.in_flight = false;
            self.next_due = self.following(now);
        }
        self.record.beat(reply)
    }
}

/// A beat that fails does not stop the beats: once its answer is in,
/// whatever it was, the publisher is in flight no more, and the next
/// beat is due as soon as an interval has passed, and not before.
pub proof fn lemma_next_beat_follows(p: PublisherView, now: u64, later: u64)
    requires
        p.active,
        p.in_flight,
        later >= now,
    ensures
        !p.settled(now).in_flight,
        p.settled(now).record == p.record,
        p.settled(now).is_due(later) <==> later >= p.following(now),
        now + p.interval <= u64::MAX ==> (p.settled(now).is_due(later) <==> later - now
            >= p.interval),
{
}

/// Never two beats at once: while a beat is in flight none is due, and
/// a tick changes nothing.
pub proof fn lemma_beats_do_not_overlap(
    p: PublisherView,
    now: u64,
    snapshot: SnapshotView,
    url_ok: bool,
)
    requires
        p.in_flight,
    ensures
        !p.is_due(now),
        p.ticked(now, snapshot, url_ok) == p,
{
}

} // verus!
