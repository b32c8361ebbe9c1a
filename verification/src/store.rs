//! The table of live connections.
//!
//! An entity is one accepted connection: its components and the handle
//! of the stream it owns. Its identity is its index in the table, so no
//! two live entities share one, and an identity is handed out again only
//! after the entity that held it has been destroyed.
//!
//! The table is owned by one coordinator at a time: every change goes
//! through `&mut self`, so no reader ever sees an entity half built or
//! an identity that has been freed.

use crate::components::{DeltaVel, Player, PlayerView, Pos, Rotation};
use crate::text::Text;
use vstd::prelude::*;

verus! {

/// Where a connection stands in its life.
///
/// `Connecting → Identified → Active → Disconnected`; every phase can
/// also lead straight to `Disconnected`, which is final. An identity
/// without a live entity is `Disconnected`.
#[derive(Clone, Copy, Debug, PartialEq, Eq)]
pub enum Phase {
    /// Accepted; has not said who it is.
    Connecting,
    /// Has identified; the server's answer is on its way.
    Identified,
    /// Takes part in the world and receives broadcasts.
    Active,
    /// Gone.
    Disconnected,
}

/// Why no entity was created.
#[derive(Clone, Copy, Debug, PartialEq, Eq)]
pub enum StoreError {
    /// Every identity is taken.
    Full,
    /// A live entity already owns this stream.
    StreamInUse,
}

/// One connection, composed of its components.
#[derive(Debug, PartialEq, Eq)]
pub struct Entity {
    pub pos: Pos,
    pub rot: Rotation,
    pub delta: DeltaVel,
    pub player: Player,
    /// Handle of the socket that this entity, and no other, owns.
    pub stream: u64,
    pub phase: Phase,
}

/// What an [`Entity`] holds, as mathematical values.
pub struct EntityView {
    pub pos: Pos,
    pub rot: Rotation,
    pub delta: DeltaVel,
    pub player: PlayerView,
    pub stream: u64,
    pub phase: Phase,
}

impl View for Entity {
    type V = EntityView;

    open spec fn view(&self) -> EntityView {
        EntityView {
            pos: self.pos,
            rot: self.rot,
            delta: self.delta,
            player: self.player@,
            stream: self.stream,
            phase: self.phase,
        }
    }
}

impl EntityView {
    /// The entity once its player has chosen `username`.
    pub open spec fn identified(self, username: Seq<u8>) -> EntityView {
        EntityView {
            player: PlayerView { username, ..self.player },
            phase: Phase::Identified,
            ..self
        }
    }

    /// The entity once it takes part in the world.
    pub open spec fn activated(self) -> EntityView {
        EntityView { phase: Phase::Active, ..self }
    }

    /// The entity once it has moved to `pos` and turned to `rot`.
    pub open spec fn moved(self, pos: Pos, rot: Rotation) -> EntityView {
        EntityView { pos, rot, delta: pos.delta_from(self.pos), ..self }
    }

    /// The entity once its eligibility has been looked up.
    pub open spec fn flagged(self, whitelisted: bool, banned: bool) -> EntityView {
        EntityView { player: PlayerView { whitelisted, banned, ..self.player }, ..self }
    }
}

/// The entity that a freshly accepted connection starts as.
pub open spec fn fresh(stream: u64) -> EntityView {
    EntityView {
        pos: Pos { x: 0, y: 0, z: 0 },
        rot: Rotation { yaw: 0, pitch: 0 },
        delta: DeltaVel { dx: 0, dy: 0, dz: 0 },
        player: PlayerView { username: Seq::empty(), whitelisted: false, banned: false },
        stream,
        phase: Phase::Connecting,
    }
}

/// The table as a mathematical value: the live entities by identity, and
/// the number of identities there are.
pub struct StoreView {
    pub capacity: nat,
    pub entities: Map<u8, EntityView>,
}

impl StoreView {
    /// Whether an entity with this identity is live.
    pub open spec fn live(self, id: u8) -> bool {
        self.entities.dom().contains(id)
    }

    /// The phase of the connection with this identity.
    pub open spec fn phase(self, id: u8) -> Phase {
        if self.live(id) {
            self.entities[id].phase
        } else {
            Phase::Disconnected
        }
    }

    /// Whether some live entity owns `stream`.
    pub open spec fn holds_stream(self, stream: u64) -> bool {
        exists|id: u8| #[trigger]
            self.entities.dom().contains(id) && self.entities[id].stream == stream
    }

    /// Whether the identity can be handed out.
    pub open spec fn is_free(self, id: u8) -> bool {
        id < self.capacity && !self.live(id)
    }

    /// Whether every identity is taken.
    pub open spec fn is_full(self) -> bool {
        forall|id: u8| id < self.capacity ==> #[trigger] self.entities.dom().contains(id)
    }

    /// The identity that the next entity gets: the lowest free one.
    pub open spec fn is_next_free(self, id: u8) -> bool {
        &&& self.is_free(id)
        &&& forall|lower: u8| lower < id ==> #[trigger] self.entities.dom().contains(lower)
    }

    /// What holds of every table: identities lie below the capacity, no
    /// stored entity is `Disconnected`, and no stream has two owners.
    pub open spec fn wf(self) -> bool {
        &&& self.capacity <= 255
        &&& forall|id: u8| #[trigger]
            self.entities.dom().contains(id) ==> id < self.capacity && self.entities[id].phase
                != Phase::Disconnected
        &&& forall|a: u8, b: u8|
            #![trigger self.entities.dom().contains(a), self.entities.dom().contains(b)]
            self.entities.dom().contains(a) && self.entities.dom().contains(b) && a != b
                ==> self.entities[a].stream != self.entities[b].stream
    }

    /// The identities of the live entities.
    pub open spec fn ids(self) -> Set<u8> {
        self.entities.dom()
    }

    /// The identities of the entities that are `Active`.
    pub open spec fn active(self) -> Set<u8> {
        Set::new(|id: u8| self.live(id) && self.entities[id].phase == Phase::Active)
    }

    /// The table once `id` holds `entity`.
    pub open spec fn with(self, id: u8, entity: EntityView) -> StoreView {
        StoreView { entities: self.entities.insert(id, entity), ..self }
    }

    /// The table once `id` has been freed.
    pub open spec fn without(self, id: u8) -> StoreView {
        StoreView { entities: self.entities.remove(id), ..self }
    }
}

/// One step in the life of the table.
pub enum StoreOp {
    /// A connection was accepted; it owns `stream`.
    Accept { stream: u64 },
    /// The entity with identity `id` is to be destroyed.
    Destroy { id: u8 },
}

impl StoreView {
    /// The identity that the next entity gets.
    pub open spec fn next_free(self) -> u8 {
        choose|id: u8| self.is_next_free(id)
    }

    /// The table after a connection that owns `stream` was accepted:
    /// unchanged if that stream has an owner or every identity is taken.
    pub open spec fn accept(self, stream: u64) -> StoreView {
        if self.holds_stream(stream) || self.is_full() {
            self
        } else {
            self.with(self.next_free(), fresh(stream))
        }
    }

    /// The table after the entity with identity `id` was destroyed, if
    /// there was one.
    pub open spec fn destroy(self, id: u8) -> StoreView {
        if self.live(id) {
            self.without(id)
        } else {
            self
        }
    }

    /// The table after `op`.
    pub open spec fn apply(self, op: StoreOp) -> StoreView {
        match op {
            StoreOp::Accept { stream } => self.accept(stream),
            StoreOp::Destroy { id } => self.destroy(id),
        }
    }

    /// The streams that `op` hands back to be closed: the stream of the
    /// entity it destroys, if it destroys one.
    pub open spec fn released(self, op: StoreOp) -> Seq<u64> {
        match op {
            StoreOp::Destroy { id } if self.live(id) => seq![self.entities[id].stream],
            _ => Seq::empty(),
        }
    }

    /// The table after all of `ops`, in order.
    pub open spec fn run(self, ops: Seq<StoreOp>) -> StoreView
        decreases ops.len(),
    {
        if ops.len() == 0 {
            self
        } else {
            self.run(ops.drop_last()).apply(ops.last())
        }
    }

    /// Every stream that `ops` hand back to be closed, in order.
    pub open spec fn closed(self, ops: Seq<StoreOp>) -> Seq<u64>
        decreases ops.len(),
    {
        if ops.len() == 0 {
            Seq::empty()
        } else {
            self.closed(ops.drop_last()) + self.run(ops.drop_last()).released(ops.last())
        }
    }
}

/// Whether every accepted connection comes with a stream of its own:
/// one that no entity of `start` owns and no other accept brings.
pub open spec fn streams_are_new(start: StoreView, ops: Seq<StoreOp>) -> bool {
    &&& forall|i: int|
        0 <= i < ops.len() && ops[i] is Accept ==> !start.holds_stream(
            (#[trigger] ops[i])->stream,
        )
    &&& forall|i: int, j: int|
        0 <= i < j < ops.len() && ops[i] is Accept && ops[j] is Accept ==> (#[trigger] ops[i])->stream
            != (#[trigger] ops[j])->stream
}

/// Whether `stream` came in with `start` or with an accept among `ops`.
pub open spec fn known_stream(start: StoreView, ops: Seq<StoreOp>, stream: u64) -> bool {
    start.holds_stream(stream) || exists|i: int|
        0 <= i < ops.len() && #[trigger] ops[i] == (StoreOp::Accept { stream })
}

/// At most one identity is the next free one.
pub proof fn lemma_next_free_is_unique(t: StoreView, a: u8, b: u8)
    requires
        t.is_next_free(a),
        t.is_next_free(b),
    ensures
        a == b,
        t.next_free() == a,
{
    if a < b {
        assert(t.entities.dom().contains(a));
    }
    if b < a {
        assert(t.entities.dom().contains(b));
    }
    let c = t.next_free();
    if c < a {
        assert(t.entities.dom().contains(c));
    }
    if a < c {
        assert(t.entities.dom().contains(a));
    }
}

/// A table that is not full has a next free identity.
pub proof fn lemma_next_free_exists(t: StoreView)
    requires
        t.wf(),
        !t.is_full(),
    ensures
        t.is_next_free(t.next_free()),
{
    let some = choose|id: u8| id < t.capacity && !t.entities.dom().contains(id);
    lemma_least_free(t, some);
}

proof fn lemma_least_free(t: StoreView, id: u8)
    requires
        t.is_free(id),
    ensures
        exists|least: u8| t.is_next_free(least),
    decreases id,
{
    if forall|lower: u8| lower < id ==> #[trigger] t.entities.dom().contains(lower) {
        assert(t.is_next_free(id));
    } else {
        let lower = choose|lower: u8| lower < id && !t.entities.dom().contains(lower);
        lemma_least_free(t, lower);
    }
}

/// One step keeps the table well-formed; a stream it hands back was
/// owned before and is owned by nobody after; and every owner after the
/// step was an owner before, but for the connection just accepted.
pub proof fn lemma_step(t: StoreView, op: StoreOp)
    requires
        t.wf(),
    ensures
        t.apply(op).wf(),
        t.released(op).len() <= 1,
        forall|k: int|
            0 <= k < t.released(op).len() ==> t.holds_stream(#[trigger] t.released(op)[k])
                && !t.apply(op).holds_stream(t.released(op)[k]),
        forall|s: u64|
            t.apply(op).holds_stream(s) ==> t.holds_stream(s) || op == (StoreOp::Accept {
                stream: s,
            }),
        forall|s: u64|
            t.holds_stream(s) && !t.released(op).contains(s) ==> t.apply(op).holds_stream(s),
{
    let after = t.apply(op);
    match op {
        StoreOp::Accept { stream } => {
            if !(t.holds_stream(stream) || t.is_full()) {
                lemma_next_free_exists(t);
                let id = t.next_free();
                assert forall|a: u8, b: u8|
                    after.entities.dom().contains(a) && after.entities.dom().contains(b) && a
                        != b implies after.entities[a].stream != after.entities[b].stream by {
                    if a != id {
                        assert(t.entities.dom().contains(a));
                    }
                    if b != id {
                        assert(t.entities.dom().contains(b));
                    }
                }
                assert forall|s: u64| after.holds_stream(s) implies t.holds_stream(s) || op == (
                StoreOp::Accept { stream: s }) by {
                    let a = choose|a: u8| #[trigger]
                        after.entities.dom().contains(a) && after.entities[a].stream == s;
                    if a != id {
                        assert(t.entities.dom().contains(a));
                    }
                }
                assert forall|s: u64|
                    t.holds_stream(s) && !t.released(op).contains(s) implies after.holds_stream(
                    s,
                ) by {
                    let a = choose|a: u8| #[trigger]
                        t.entities.dom().contains(a) && t.entities[a].stream == s;
                    assert(after.entities.dom().contains(a));
                }
            }
        },
        StoreOp::Destroy { id } => {
            if t.live(id) {
                let gone = t.entities[id].stream;
                assert(t.released(op)[0] == gone);
                assert(t.entities.dom().contains(id));
                assert(!after.holds_stream(gone)) by {
                    if after.holds_stream(gone) {
                        let a = choose|a: u8| #[trigger]
                            after.entities.dom().contains(a) && after.entities[a].stream == gone;
                        assert(t.entities.dom().contains(a));
                    }
                }
                assert forall|s: u64| after.holds_stream(s) implies t.holds_stream(s) by {
                    let a = choose|a: u8| #[trigger]
                        after.entities.dom().contains(a) && after.entities[a].stream == s;
                    assert(t.entities.dom().contains(a));
                }
                assert forall|s: u64|
                    t.holds_stream(s) && !t.released(op).contains(s) implies after.holds_stream(
                    s,
                ) by {
                    let a = choose|a: u8| #[trigger]
                        t.entities.dom().contains(a) && t.entities[a].stream == s;
                    if a == id {
                        assert(t.released(op)[0] == s);
                    }
                    assert(after.entities.dom().contains(a));
                }
            }
        },
    }
}

/// Destroying one entity leaves every other as it was.
pub proof fn lemma_destroy_spares_the_others(t: StoreView, id: u8, other: u8)
    requires
        other != id,
    ensures
        t.apply(StoreOp::Destroy { id }).live(other) == t.live(other),
        t.apply(StoreOp::Destroy { id }).phase(other) == t.phase(other),
        t.live(other) ==> t.apply(StoreOp::Destroy { id }).entities[other] == t.entities[other],
        !t.apply(StoreOp::Destroy { id }).live(id),
{
}

/// Whatever connections are accepted and destroyed, in whatever order:
/// the table stays well-formed, so it never holds two entities under
/// one identity or two owners of one stream; and where every accepted
/// connection comes with a stream of its own, no stream is handed back
/// for closing twice, none that is handed back still has an owner, and
/// each one came in with the table or with an accept.
pub proof fn lemma_every_stream_is_closed_once(start: StoreView, ops: Seq<StoreOp>)
    requires
        start.wf(),
    ensures
        start.run(ops).wf(),
        forall|s: u64| start.run(ops).holds_stream(s) ==> known_stream(start, ops, s),
        forall|k: int|
            0 <= k < start.closed(ops).len() ==> known_stream(
                start,
                ops,
                #[trigger] start.closed(ops)[k],
            ),
        streams_are_new(start, ops) ==> start.closed(ops).no_duplicates(),
        streams_are_new(start, ops) ==> forall|k: int|
            0 <= k < start.closed(ops).len() ==> !start.run(ops).holds_stream(
                #[trigger] start.closed(ops)[k],
            ),
    decreases ops.len(),
{
    if ops.len() > 0 {
        let front = ops.drop_last();
        let op = ops.last();
        let before = start.run(front);
        let after = start.run(ops);
        let done = start.closed(front);
        let now = before.released(op);
        lemma_every_stream_is_closed_once(start, front);
        lemma_step(before, op);
        assert forall|s: u64| known_stream(start, front, s) implies known_stream(start, ops, s) by {
            if !start.holds_stream(s) {
                let i = choose|i: int|
                    0 <= i < front.len() && #[trigger] front[i] == (StoreOp::Accept { stream: s });
                assert(ops[i] == front[i]);
            }
        }
        assert forall|s: u64| after.holds_stream(s) implies known_stream(start, ops, s) by {
            if !before.holds_stream(s) {
                assert(ops[ops.len() - 1] == (StoreOp::Accept { stream: s }));
            }
        }
        assert forall|k: int| 0 <= k < start.closed(ops).len() implies known_stream(
            start,
            ops,
            #[trigger] start.closed(ops)[k],
        ) by {
            if k >= done.len() {
                assert(start.closed(ops)[k] == now[k - done.len()]);
            } else {
                assert(start.closed(ops)[k] == done[k]);
            }
        }
        if streams_are_new(start, ops) {
            assert(streams_are_new(start, front)) by {
                assert forall|i: int| 0 <= i < front.len() implies front[i] == ops[i] by {}
            }
            assert forall|k: int| 0 <= k < done.len() implies !after.holds_stream(
                #[trigger] done[k],
            ) by {
                let s = done[k];
                if after.holds_stream(s) {
                    assert(op == (StoreOp::Accept { stream: s }));
                    assert(known_stream(start, front, s));
                    assert(ops[ops.len() - 1] is Accept);
                    if !start.holds_stream(s) {
                        let i = choose|i: int|
                            0 <= i < front.len() && #[trigger] front[i] == (StoreOp::Accept {
                                stream: s,
                            });
                        assert(ops[i] == front[i]);
                    }
                }
            }
            assert forall|k: int| 0 <= k < start.closed(ops).len() implies !after.holds_stream(
                #[trigger] start.closed(ops)[k],
            ) by {
                if k >= done.len() {
                    assert(start.closed(ops)[k] == now[k - done.len()]);
                } else {
                    assert(start.closed(ops)[k] == done[k]);
                }
            }
            assert(start.closed(ops).no_duplicates()) by {
                assert forall|i: int, j: int|
                    0 <= i < start.closed(ops).len() && 0 <= j < start.closed(ops).len() && i
                        != j implies start.closed(ops)[i] != start.closed(ops)[j] by {
                    if i < done.len() && j < done.len() {
                        assert(done[i] != done[j]);
                    } else if i < done.len() {
                        assert(start.closed(ops)[j] == now[0]);
                        assert(!before.holds_stream(done[i]));
                    } else if j < done.len() {
                        assert(start.closed(ops)[i] == now[0]);
                        assert(!before.holds_stream(done[j]));
                    }
                }
            }
        }
    }
}

/// Identities in ascending order.
pub open spec fn ascending(ids: Seq<u8>) -> bool {
    forall|i: int, j: int| 0 <= i < j < ids.len() ==> ids[i] < ids[j]
}

/// Changing a live entity keeps the table well-formed, as long as the
/// entity keeps its stream and is not marked `Disconnected`.
pub proof fn lemma_replace_keeps_wf(t: StoreView, id: u8, entity: EntityView)
    requires
        t.wf(),
        t.live(id),
        entity.stream == t.entities[id].stream,
        entity.phase != Phase::Disconnected,
    ensures
        t.with(id, entity).wf(),
{
    let after = t.with(id, entity);
    assert forall|a: u8, b: u8|
        after.entities.dom().contains(a) && after.entities.dom().contains(b) && a
            != b implies after.entities[a].stream != after.entities[b].stream by {
        assert(t.entities.dom().contains(a));
        assert(t.entities.dom().contains(b));
    }
}

/// Ascending identities below a bound are at most as many as the bound.
pub proof fn lemma_ascending_is_short(ids: Seq<u8>, bound: int)
    requires
        0 <= bound,
        ascending(ids),
        forall|k: int| 0 <= k < ids.len() ==> ids[k] < bound,
    ensures
        ids.len() <= bound,
        forall|k: int| 0 <= k < ids.len() ==> ids[k] >= k,
    decreases ids.len(),
{
    if ids.len() > 0 {
        let front = ids.drop_last();
        lemma_ascending_is_short(front, bound);
        assert forall|k: int| 0 <= k < ids.len() implies ids[k] >= k by {
            if k < front.len() {
                assert(front[k] == ids[k]);
            } else if k > 0 {
                assert(front[k - 1] == ids[k - 1]);
                assert(ids[k - 1] < ids[k]);
            }
        }
        assert(ids[ids.len() - 1] >= ids.len() - 1);
    }
}

/// The table that a row of slots stands for: slot `id` holds the entity
/// with identity `id`, or nothing.
pub closed spec fn table(slots: Seq<Option<Entity>>) -> StoreView {
    StoreView {
        capacity: slots.len(),
        entities: Map::new(
            |id: u8| (id as int) < slots.len() && slots[id as int] is Some,
            |id: u8| slots[id as int]->0@,
        ),
    }
}

/// The table of live connections.
pub struct Store {
    slots: Vec<Option<Entity>>,
}

impl View for Store {
    type V = StoreView;

    closed spec fn view(&self) -> StoreView {
        table(self.slots@)
    }
}

impl Store {
    #[verifier::type_invariant]
    spec fn inv(self) -> bool {
        table(self.slots@).wf()
    }

    /// Takes the slots out, to be changed and put back. What is left
    /// behind is an empty table without identities.
    fn take_slots(&mut self) -> (slots: Vec<Option<Entity>>)
        ensures
            slots == old(self).slots,
            table(slots@).wf(),
    {
        proof {
            use_type_invariant(&*self);
        }
        let mut slots: Vec<Option<Entity>> = Vec::new();
        core::mem::swap(&mut self.slots, &mut slots);
        slots
    }

    /// An empty table with identities `0 .. capacity`.
    pub fn new(capacity: u8) -> (store: Store)
        ensures
            store@.wf(),
            store@.capacity == capacity,
            store@.entities == Map::<u8, EntityView>::empty(),
    {
        let mut slots: Vec<Option<Entity>> = Vec::new();
        let mut i: u8 = 0;
        while i < capacity
            invariant
                i <= capacity,
                slots.len() == i,
                forall|j: int| 0 <= j < i ==> slots[j] is None,
            decreases capacity - i,
        {
            slots.push(None);
            i += 1;
        }
        assert(table(slots@).entities =~= Map::<u8, EntityView>::empty());
        Store { slots }
    }

    /// Number of identities there are.
    pub fn capacity(&self) -> (n: usize)
        ensures
            n == self@.capacity,
            self@.wf(),
    {
        proof {
            use_type_invariant(self);
        }
        self.slots.len()
    }

    /// Creates the entity of a freshly accepted connection, which owns
    /// `stream`, under the lowest free identity.
    pub fn create(&mut self, stream: u64) -> (r: Result<u8, StoreError>)
        ensures
            final(self)@.wf(),
            final(self)@ == old(self)@.apply(StoreOp::Accept { stream }),
            match r {
                Ok(id) => {
                    &&& !old(self)@.holds_stream(stream)
                    &&& old(self)@.is_next_free(id)
                    &&& final(self)@ == old(self)@.with(id, fresh(stream))
                },
                Err(StoreError::StreamInUse) => {
                    &&& old(self)@.holds_stream(stream)
                    &&& final(self)@ == old(self)@
                },
                Err(StoreError::Full) => {
                    &&& !old(self)@.holds_stream(stream)
                    &&& old(self)@.is_full()
                    &&& final(self)@ == old(self)@
                },
            },
    {
        proof {
            use_type_invariant(&*self);
        }
        let n = self.slots.len();
        let mut free: Option<usize> = None;
        let mut i: usize = 0;
        while i < n
            invariant
                i <= n,
                n == self.slots.len(),
                n <= 255,
                *self == *old(self),
                self@.wf(),
                forall|j: int|
                    0 <= j < i && self.slots[j] is Some ==> self.slots[j]->0.stream != stream,
                match free {
                    Some(f) => f < i && self.slots[f as int] is None && forall|j: int|
                        0 <= j < f ==> self.slots[j] is Some,
                    None => forall|j: int| 0 <= j < i ==> self.slots[j] is Some,
                },
            decreases n - i,
        {
            match &self.slots[i] {
                Some(e) => {
                    if e.stream == stream {
                        assert(self@.entities.dom().contains(i as u8));
                        return Err(StoreError::StreamInUse);
                    }
                },
                None => {
                    if free.is_none() {
                        free = Some(i);
                    }
                },
            }
            i += 1;
        }
        assert(!self@.holds_stream(stream)) by {
            if self@.holds_stream(stream) {
                let id = choose|id: u8| #[trigger]
                    self@.entities.dom().contains(id) && self@.entities[id].stream == stream;
                assert(self.slots[id as int] is Some);
            }
        }
        match free {
            None => {
                assert(self@.is_full()) by {
                    assert forall|id: u8| id < self@.capacity implies #[trigger]
                        self@.entities.dom().contains(id) by {
                        assert(self.slots[id as int] is Some);
                    }
                }
                Err(StoreError::Full)
            },
            Some(f) => {
                let id = f as u8;
                assert(self@.is_next_free(id)) by {
                    assert forall|lower: u8| lower < id implies #[trigger]
                        self@.entities.dom().contains(lower) by {
                        assert(self.slots[lower as int] is Some);
                    }
                }
                let entity = Entity {
                    pos: Pos::origin(),
                    rot: Rotation::ahead(),
                    delta: DeltaVel::still(),
                    player: Player::anonymous(),
                    stream,
                    phase: Phase::Connecting,
                };
                let mut slots = self.take_slots();
                slots[f] = Some(entity);
                proof {
                    let after = old(self)@.with(id, fresh(stream));
                    assert(table(slots@).entities =~= after.entities);
                    assert(after.wf()) by {
                        assert forall|a: u8, b: u8|
                            after.entities.dom().contains(a) && after.entities.dom().contains(b)
                                && a != b implies after.entities[a].stream
                            != after.entities[b].stream by {
                            if a != id {
                                assert(old(self).slots[a as int] is Some);
                            }
                            if b != id {
                                assert(old(self).slots[b as int] is Some);
                            }
                        }
                    }
                }
                proof {
                    lemma_next_free_is_unique(old(self)@, id, id);
                    assert(!old(self)@.is_full());
                }
                self.slots = slots;
                Ok(id)
            },
        }
    }

    /// Destroys the entity with this identity and hands back the stream
    /// it owned, for the caller to close. The identity is free again.
    /// `None`, and nothing changes, if no such entity is live.
    pub fn destroy(&mut self, id: u8) -> (stream: Option<u64>)
        ensures
            final(self)@.wf(),
            final(self)@ == old(self)@.apply(StoreOp::Destroy { id }),
            old(self)@.released(StoreOp::Destroy { id }) == match stream {
                Some(s) => seq![s],
                None => Seq::empty(),
            },
            match stream {
                Some(s) => {
                    &&& old(self)@.live(id)
                    &&& s == old(self)@.entities[id].stream
                    &&& final(self)@ == old(self)@.without(id)
                },
                None => !old(self)@.live(id) && final(self)@ == old(self)@,
            },
    {
        proof {
            use_type_invariant(&*self);
        }
        let i = id as usize;
        if i >= self.slots.len() {
            return None;
        }
        let stream = match &self.slots[i] {
            Some(e) => e.stream,
            None => {
                return None;
            },
        };
        let mut slots = self.take_slots();
        slots[i] = None;
        proof {
            let after = old(self)@.without(id);
            assert(table(slots@).entities =~= after.entities);
            assert(after.wf());
        }
        self.slots = slots;
        Some(stream)
    }

    /// Looks an entity up by its identity.
    pub fn get(&self, id: u8) -> (entity: Option<&Entity>)
        ensures
            self@.wf(),
            match entity {
                Some(e) => self@.live(id) && e@ == self@.entities[id],
                None => !self@.live(id),
            },
    {
        proof {
            use_type_invariant(self);
        }
        let i = id as usize;
        if i >= self.slots.len() {
            return None;
        }
        match &self.slots[i] {
            Some(e) => Some(e),
            None => None,
        }
    }

    /// The identity of the live entity that owns `stream`, if there is
    /// one.
    pub fn owner_of(&self, stream: u64) -> (owner: Option<u8>)
        ensures
            self@.wf(),
            match owner {
                Some(id) => self@.live(id) && self@.entities[id].stream == stream,
                None => !self@.holds_stream(stream),
            },
    {
        proof {
            use_type_invariant(self);
        }
        let n = self.slots.len();
        let mut i: usize = 0;
        while i < n
            invariant
                i <= n,
                n == self.slots.len(),
                n <= 255,
                self@.wf(),
                forall|j: int|
                    0 <= j < i && self.slots[j] is Some ==> self.slots[j]->0.stream != stream,
            decreases n - i,
        {
            match &self.slots[i] {
                Some(e) => {
                    if e.stream == stream {
                        return Some(i as u8);
                    }
                },
                None => {},
            }
            i += 1;
        }
        assert(!self@.holds_stream(stream)) by {
            if self@.holds_stream(stream) {
                let id = choose|id: u8| #[trigger]
                    self@.entities.dom().contains(id) && self@.entities[id].stream == stream;
                assert(self.slots[id as int] is Some);
            }
        }
        None
    }

    /// Records who a `Connecting` entity is: it gets `username` and
    /// becomes `Identified`. In any other phase nothing changes: a user
    /// name is chosen once.
    pub fn identify(&mut self, id: u8, username: Text) -> (done: bool)
        ensures
            final(self)@.wf(),
            done == (old(self)@.phase(id) == Phase::Connecting),
            done ==> final(self)@ == old(self)@.with(
                id,
                old(self)@.entities[id].identified(username@),
            ),
            !done ==> final(self)@ == old(self)@,
    {
        match self.phase(id) {
            Phase::Connecting => {},
            _ => {
                return false;
            },
        }
        let i = id as usize;
        let mut slots = self.take_slots();
        match &mut slots[i] {
            Some(e) => {
                e.player.username = username;
                e.phase = Phase::Identified;
            },
            None => {},
        }
        proof {
            let after = old(self)@.with(id, old(self)@.entities[id].identified(username@));
            assert(table(slots@).entities =~= after.entities);
            lemma_replace_keeps_wf(old(self)@, id, old(self)@.entities[id].identified(username@));
        }
        self.slots = slots;
        true
    }

    /// Lets an `Identified` entity into the world: it becomes `Active`.
    /// In any other phase nothing changes.
    pub fn activate(&mut self, id: u8) -> (done: bool)
        ensures
            final(self)@.wf(),
            done == (old(self)@.phase(id) == Phase::Identified),
            done ==> final(self)@ == old(self)@.with(id, old(self)@.entities[id].activated()),
            !done ==> final(self)@ == old(self)@,
    {
        match self.phase(id) {
            Phase::Identified => {},
            _ => {
                return false;
            },
        }
        let i = id as usize;
        let mut slots = self.take_slots();
        match &mut slots[i] {
            Some(e) => {
                e.phase = Phase::Active;
            },
            None => {},
        }
        proof {
            let after = old(self)@.with(id, old(self)@.entities[id].activated());
            assert(table(slots@).entities =~= after.entities);
            lemma_replace_keeps_wf(old(self)@, id, old(self)@.entities[id].activated());
        }
        self.slots = slots;
        true
    }

    /// Moves a live entity to `pos` and turns it to `rot`; its velocity
    /// delta becomes the step it took, which is handed back. `None`, and
    /// nothing changes, if no such entity is live.
    pub fn relocate(&mut self, id: u8, pos: Pos, rot: Rotation) -> (step: Option<DeltaVel>)
        ensures
            final(self)@.wf(),
            step is Some == old(self)@.live(id),
            step matches Some(d) ==> {
                &&& d == pos.delta_from(old(self)@.entities[id].pos)
                &&& final(self)@ == old(self)@.with(id, old(self)@.entities[id].moved(pos, rot))
            },
            step is None ==> final(self)@ == old(self)@,
    {
        if self.get(id).is_none() {
            return None;
        }
        let i = id as usize;
        let mut slots = self.take_slots();
        let mut step = DeltaVel::still();
        match &mut slots[i] {
            Some(e) => {
                step = pos.since(&e.pos);
                e.pos = pos;
                e.rot = rot;
                e.delta = step;
            },
            None => {},
        }
        proof {
            let after = old(self)@.with(id, old(self)@.entities[id].moved(pos, rot));
            assert(table(slots@).entities =~= after.entities);
            lemma_replace_keeps_wf(old(self)@, id, old(self)@.entities[id].moved(pos, rot));
        }
        self.slots = slots;
        Some(step)
    }

    /// Records whether the player of a live entity is on the whitelist
    /// and whether it is banned. `false`, and nothing changes, if no such
    /// entity is live.
    pub fn set_eligibility(&mut self, id: u8, whitelisted: bool, banned: bool) -> (done: bool)
        ensures
            final(self)@.wf(),
            done == old(self)@.live(id),
            done ==> final(self)@ == old(self)@.with(
                id,
                old(self)@.entities[id].flagged(whitelisted, banned),
            ),
            !done ==> final(self)@ == old(self)@,
    {
        if self.get(id).is_none() {
            return false;
        }
        let i = id as usize;
        let mut slots = self.take_slots();
        match &mut slots[i] {
            Some(e) => {
                e.player.whitelisted = whitelisted;
                e.player.banned = banned;
            },
            None => {},
        }
        proof {
            let after = old(self)@.with(id, old(self)@.entities[id].flagged(whitelisted, banned));
            assert(table(slots@).entities =~= after.entities);
            lemma_replace_keeps_wf(
                old(self)@,
                id,
                old(self)@.entities[id].flagged(whitelisted, banned),
            );
        }
        self.slots = slots;
        true
    }

    /// The identities of the live entities, or of the `Active` ones
    /// only, in ascending order.
    fn collect(&self, active_only: bool) -> (ids: Vec<u8>)
        ensures
            self@.wf(),
            ascending(ids@),
            ids@.no_duplicates(),
            ids@.to_set() == if active_only {
                self@.active()
            } else {
                self@.ids()
            },
    {
        proof {
            use_type_invariant(self);
        }
        let ghost wanted = if active_only {
            self@.active()
        } else {
            self@.ids()
        };
        let n = self.slots.len();
        let mut ids: Vec<u8> = Vec::new();
        let mut i: usize = 0;
        while i < n
            invariant
                i <= n,
                n == self.slots.len(),
                n <= 255,
                wanted == if active_only {
                    self@.active()
                } else {
                    self@.ids()
                },
                ascending(ids@),
                forall|k: int|
                    0 <= k < ids.len() ==> ids[k] < i && wanted.contains(#[trigger] ids[k]),
                forall|id: u8| id < i && wanted.contains(id) ==> ids@.contains(id),
            decreases n - i,
        {
            let take = match &self.slots[i] {
                Some(e) => !active_only || matches!(e.phase, Phase::Active),
                None => false,
            };
            let id = i as u8;
            assert(take == wanted.contains(id));
            if take {
                let ghost before = ids@;
                ids.push(id);
                assert forall|other: u8| other < i + 1 && wanted.contains(other) implies ids@.contains(
                    other,
                ) by {
                    if other == id {
                        assert(ids@[before.len() as int] == id);
                    } else {
                        let k = choose|k: int| 0 <= k < before.len() && before[k] == other;
                        assert(ids@[k] == other);
                    }
                }
            }
            i += 1;
        }
        assert(ids@.to_set() =~= wanted) by {
            assert forall|id: u8| wanted.contains(id) implies ids@.contains(id) by {
                assert(self@.entities.dom().contains(id));
            }
        }
        ids
    }

    /// The identities of all live entities, in ascending order.
    pub fn ids(&self) -> (ids: Vec<u8>)
        ensures
            self@.wf(),
            ascending(ids@),
            ids@.no_duplicates(),
            ids@.to_set() == self@.ids(),
    {
        self.collect(false)
    }

    /// The identities of the `Active` entities, in ascending order.
    pub fn active_ids(&self) -> (ids: Vec<u8>)
        ensures
            self@.wf(),
            ascending(ids@),
            ids@.no_duplicates(),
            ids@.to_set() == self@.active(),
    {
        self.collect(true)
    }

    /// Number of `Active` entities: the players that are online.
    pub fn active_count(&self) -> (count: u16)
        ensures
            self@.wf(),
            count == self@.active().len(),
            count <= self@.capacity,
    {
        let ids = self.active_ids();
        proof {
            ids@.unique_seq_to_set();
            assert forall|k: int| 0 <= k < ids.len() implies ids[k] < self@.capacity by {
                assert(ids@.to_set().contains(ids[k]));
            }
            lemma_ascending_is_short(ids@, self@.capacity as int);
        }
        ids.len() as u16
    }

    /// The phase of the connection with this identity.
    pub fn phase(&self, id: u8) -> (phase: Phase)
        ensures
            self@.wf(),
            phase == self@.phase(id),
    {
        match self.get(id) {
            Some(e) => e.phase,
            None => Phase::Disconnected,
        }
    }
}

} // verus!
