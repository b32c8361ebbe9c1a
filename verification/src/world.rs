//! The world update loop: what each event on a connection does to the
//! table of connections, and what has to go out because of it.
//!
//! The loop itself, which waits for sockets and channels, is the
//! caller's. It hands every event to a [`World`] and carries out the
//! [`Action`]s that come back.
//!
//! A message whose opcode is not known, or with a field that is not
//! well-formed, ends the connection it came on: messages carry no
//! length, so nothing tells where the next one would start, and the
//! rest of the stream cannot be read. Other connections are not
//! touched.

use crate::client_bound::{ClientBound, ClientBoundView};
use crate::components::{DeltaVel, Pos, Rotation};
use crate::decoded::Decoded;
use crate::server_bound::{ServerBound, ServerBoundView};
use crate::store::{ascending, fresh, EntityView, Phase, Store, StoreError, StoreOp, StoreView};
use crate::text::Text;
use vstd::prelude::*;

verus! {

/// The protocol version that the server speaks.
pub const PROTOCOL_VERSION: u8 = 7;

/// User type told to a client that is let in: an ordinary player.
pub const USER_TYPE_PLAYER: u8 = 0x00;

/// Something the caller has to carry out.
#[derive(Debug, PartialEq, Eq)]
pub enum Action {
    /// Send `message` to the connection with identity `to`.
    Send { to: u8, message: ClientBound },
    /// Close the socket with this handle: its entity has been destroyed.
    Close { stream: u64 },
    /// Hand `request`, which came from connection `from`, to the rules
    /// of the game.
    Delegate { from: u8, request: ServerBound },
}

/// What an [`Action`] says, as mathematical values.
pub enum ActionView {
    Send { to: u8, message: ClientBoundView },
    Close { stream: u64 },
    Delegate { from: u8, request: ServerBoundView },
}

impl View for Action {
    type V = ActionView;

    open spec fn view(&self) -> ActionView {
        match *self {
            Action::Send { to, message } => ActionView::Send { to, message: message@ },
            Action::Close { stream } => ActionView::Close { stream },
            Action::Delegate { from, request } => ActionView::Delegate { from, request: request@ },
        }
    }
}

impl ActionView {
    /// The connection that this action lets in, if it does: sending
    /// the server identification completes the handshake of the
    /// connection it goes to.
    pub open spec fn welcomes(self) -> Option<u8> {
        match self {
            ActionView::Send { to, message } if message is ServerIdentification => Some(to),
            _ => None,
        }
    }
}

impl Action {
    /// The connection whose handshake is complete once this action has
    /// been carried out: the one that the server identification goes
    /// to. The caller reports it with [`World::welcomed`].
    pub fn welcomes(&self) -> (to: Option<u8>)
        ensures
            to == self@.welcomes(),
    {
        match self {
            Action::Send { to, message } => {
                match message {
                    ClientBound::ServerIdentification { .. } => Some(*to),
                    _ => None,
                }
            },
            _ => None,
        }
    }
}

/// What a list of actions says.
pub open spec fn views(actions: Seq<Action>) -> Seq<ActionView> {
    Seq::new(actions.len(), |k: int| actions[k]@)
}

/// Who the actions of a broadcast go to, in order.
pub open spec fn recipients(actions: Seq<ActionView>) -> Seq<u8> {
    Seq::new(actions.len(), |k: int| actions[k]->to)
}

/// Whether `actions` send `message`, and nothing else, once to each
/// connection in `to`, in ascending order of identity.
pub open spec fn is_broadcast(
    actions: Seq<ActionView>,
    to: Set<u8>,
    message: ClientBoundView,
) -> bool {
    &&& forall|k: int|
        0 <= k < actions.len() ==> #[trigger] actions[k] == (ActionView::Send {
            to: recipients(actions)[k],
            message,
        })
    &&& ascending(recipients(actions))
    &&& recipients(actions).to_set() == to
}

/// What the others are told when player `player` has taken `step` to
/// `pos` and looks along `rot`: the step itself where each of its
/// coordinates fits in a signed byte, the new position otherwise.
pub open spec fn movement(player: u8, step: DeltaVel, pos: Pos, rot: Rotation) -> ClientBoundView {
    if step.is_small() {
        ClientBoundView::PositionAndOrientationUpdate {
            player,
            dx: step.dx as i8,
            dy: step.dy as i8,
            dz: step.dz as i8,
            rot,
        }
    } else {
        ClientBoundView::Teleport { player, pos, rot }
    }
}

/// Computes [`movement`].
pub fn movement_message(player: u8, step: &DeltaVel, pos: Pos, rot: Rotation) -> (message:
    ClientBound)
    ensures
        message@ == movement(player, *step, pos, rot),
{
    if step.fits_in_bytes() {
        ClientBound::PositionAndOrientationUpdate {
            player,
            dx: step.dx as i8,
            dy: step.dy as i8,
            dz: step.dz as i8,
            rot,
        }
    } else {
        ClientBound::Teleport { player, pos, rot }
    }
}

/// Why a connection was not taken in.
#[derive(Clone, Copy, Debug, PartialEq, Eq)]
pub enum AcceptError {
    /// The listener has failed: no new connection is taken any more.
    NotAccepting,
    /// Every identity is taken.
    Full,
    /// A live entity already owns this stream.
    StreamInUse,
}

/// The world as a mathematical value.
pub struct WorldView {
    pub store: StoreView,
    pub name: Seq<u8>,
    pub motd: Seq<u8>,
    pub accepting: bool,
}

impl WorldView {
    /// The answer to a player identification.
    pub open spec fn greeting(self) -> ClientBoundView {
        ClientBoundView::ServerIdentification {
            protocol: PROTOCOL_VERSION,
            name: self.name,
            motd: self.motd,
            user_type: USER_TYPE_PLAYER,
        }
    }

    /// Whether `message` breaks the protocol when it comes from a
    /// connection in phase `phase`: before a connection has identified
    /// it may only identify, and it may identify only once.
    pub open spec fn is_violation(phase: Phase, message: ServerBoundView) -> bool {
        match phase {
            Phase::Connecting => !(message is PlayerIdentification),
            Phase::Identified | Phase::Active => message is PlayerIdentification,
            Phase::Disconnected => false,
        }
    }

    /// What has to go out when connection `id` is over: its socket is
    /// to be closed, if it had an entity.
    pub open spec fn farewell(self, id: u8) -> Seq<ActionView> {
        if self.store.live(id) {
            seq![ActionView::Close { stream: self.store.entities[id].stream }]
        } else {
            Seq::empty()
        }
    }

    /// The table after `message` has come in from connection `id`.
    pub open spec fn received(self, id: u8, message: ServerBoundView) -> StoreView {
        let phase = self.store.phase(id);
        if phase == Phase::Disconnected {
            self.store
        } else if Self::is_violation(phase, message) {
            self.store.without(id)
        } else {
            match message {
                ServerBoundView::PlayerIdentification { username, .. } => self.store.with(
                    id,
                    self.store.entities[id].identified(username),
                ),
                ServerBoundView::PositionAndOrientation { pos, rot, .. } => self.store.with(
                    id,
                    self.store.entities[id].moved(pos, rot),
                ),
                _ => self.store,
            }
        }
    }

    /// Whether `actions` are what has to go out after `message` has come
    /// in from connection `id`.
    pub open spec fn reaction(
        self,
        id: u8,
        message: ServerBoundView,
        actions: Seq<ActionView>,
    ) -> bool {
        let phase = self.store.phase(id);
        if phase == Phase::Disconnected {
            actions == Seq::<ActionView>::empty()
        } else if Self::is_violation(phase, message) {
            actions == seq![ActionView::Close { stream: self.store.entities[id].stream }]
        } else {
            match message {
                ServerBoundView::PlayerIdentification { .. } => actions == seq![
                    ActionView::Send { to: id, message: self.greeting() },
                ],
                ServerBoundView::PositionAndOrientation { pos, rot, .. } => is_broadcast(
                    actions,
                    self.store.active().remove(id),
                    movement(id, pos.delta_from(self.store.entities[id].pos), pos, rot),
                ),
                _ => actions == seq![ActionView::Delegate { from: id, request: message }],
            }
        }
    }
}

/// A position and orientation from a connection that has identified
/// goes to every other `Active` connection, once each, and to nobody
/// else: not to connections that are not `Active`, and never back to
/// the connection it came from.
pub proof fn lemma_movement_reaches_the_others(
    w: WorldView,
    id: u8,
    message: ServerBoundView,
    actions: Seq<ActionView>,
)
    requires
        w.store.phase(id) == Phase::Identified || w.store.phase(id) == Phase::Active,
        message is PositionAndOrientation,
        w.reaction(id, message, actions),
    ensures
        forall|k: int|
            0 <= k < actions.len() ==> {
                &&& #[trigger] actions[k] is Send
                &&& actions[k]->to != id
                &&& w.store.phase(actions[k]->to) == Phase::Active
            },
        forall|other: u8|
            other != id && w.store.phase(other) == Phase::Active ==> exists|k: int|
                0 <= k < actions.len() && (#[trigger] actions[k])->to == other,
        forall|i: int, j: int|
            0 <= i < j < actions.len() ==> (#[trigger] actions[i])->to != (
            #[trigger] actions[j])->to,
        w.received(id, message).active() == w.store.active(),
{
    let to = recipients(actions);
    assert forall|k: int| 0 <= k < actions.len() implies {
        &&& #[trigger] actions[k] is Send
        &&& actions[k]->to != id
        &&& w.store.phase(actions[k]->to) == Phase::Active
    } by {
        assert(to[k] == actions[k]->to);
        assert(to.to_set().contains(to[k]));
    }
    assert forall|other: u8|
        other != id && w.store.phase(other) == Phase::Active implies exists|k: int|
        0 <= k < actions.len() && (#[trigger] actions[k])->to == other by {
        assert(w.store.active().remove(id).contains(other));
        assert(to.to_set().contains(other));
        let k = choose|k: int| 0 <= k < to.len() && to[k] == other;
        assert(actions[k]->to == other);
    }
    assert forall|i: int, j: int| 0 <= i < j < actions.len() implies (#[trigger] actions[i])->to != (
    #[trigger] actions[j])->to by {
        assert(to[i] < to[j]);
    }
    assert(w.received(id, message).active() =~= w.store.active());
}

/// The table of connections together with what the server tells a
/// client about itself.
pub struct World {
    store: Store,
    name: Text,
    motd: Text,
    accepting: bool,
}

impl View for World {
    type V = WorldView;

    closed spec fn view(&self) -> WorldView {
        WorldView {
            store: self.store@,
            name: self.name@,
            motd: self.motd@,
            accepting: self.accepting,
        }
    }
}

impl World {
    /// A world without connections, with room for `capacity` of them.
    pub fn new(capacity: u8, name: Text, motd: Text) -> (world: World)
        ensures
            world@.store.wf(),
            world@.store.capacity == capacity,
            world@.store.entities == Map::<u8, EntityView>::empty(),
            world@.name == name@,
            world@.motd == motd@,
            world@.accepting,
    {
        World { store: Store::new(capacity), name, motd, accepting: true }
    }

    /// The table of connections.
    pub fn store(&self) -> (store: &Store)
        ensures
            store@ == self@.store,
            store@.wf(),
    {
        let _ = self.store.capacity();
        &self.store
    }

    /// Whether new connections are still taken in.
    pub fn is_accepting(&self) -> (accepting: bool)
        ensures
            accepting == self@.accepting,
    {
        self.accepting
    }

    /// Number of players online: the connections that are `Active`.
    pub fn players_online(&self) -> (count: u16)
        ensures
            count == self@.store.active().len(),
            count <= self@.store.capacity,
    {
        self.store.active_count()
    }

    /// The listener has failed. No connection is taken in from now on;
    /// the connections there are go on as before.
    pub fn listener_failed(&mut self)
        ensures
            final(self)@ == (WorldView { accepting: false, ..old(self)@ }),
    {
        self.accepting = false;
    }

    /// A connection has been accepted; `stream` is the handle of its
    /// socket. Creates its entity, with every component at its default,
    /// before any message of the connection is looked at. On `Err`
    /// nothing has changed and the socket is the caller's to close.
    pub fn accept(&mut self, stream: u64) -> (r: Result<u8, AcceptError>)
        ensures
            final(self)@.store.wf(),
            final(self)@ == (WorldView { store: final(self)@.store, ..old(self)@ }),
            match r {
                Ok(id) => {
                    &&& old(self)@.accepting
                    &&& !old(self)@.store.holds_stream(stream)
                    &&& old(self)@.store.is_next_free(id)
                    &&& final(self)@.store == old(self)@.store.with(id, fresh(stream))
                },
                Err(AcceptError::NotAccepting) => {
                    &&& !old(self)@.accepting
                    &&& final(self)@ == old(self)@
                },
                Err(AcceptError::StreamInUse) => {
                    &&& old(self)@.accepting
                    &&& old(self)@.store.holds_stream(stream)
                    &&& final(self)@ == old(self)@
                },
                Err(AcceptError::Full) => {
                    &&& old(self)@.accepting
                    &&& !old(self)@.store.holds_stream(stream)
                    &&& old(self)@.store.is_full()
                    &&& final(self)@ == old(self)@
                },
            },
    {
        if !self.accepting {
            let _ = self.store.capacity();
            return Err(AcceptError::NotAccepting);
        }
        match self.store.create(stream) {
            Ok(id) => Ok(id),
            Err(StoreError::Full) => Err(AcceptError::Full),
            Err(StoreError::StreamInUse) => Err(AcceptError::StreamInUse),
        }
    }

    /// The answer to a player identification.
    fn greeting(&self) -> (message: ClientBound)
        ensures
            message@ == self@.greeting(),
    {
        ClientBound::ServerIdentification {
            protocol: PROTOCOL_VERSION,
            name: self.name.duplicate(),
            motd: self.motd.duplicate(),
            user_type: USER_TYPE_PLAYER,
        }
    }

    /// The connection with identity `id` is over: its socket failed, the
    /// peer closed it, or what it sent could not be decoded. Destroys
    /// its entity and hands back the stream to close. `None`, and
    /// nothing changes, if no such entity is live.
    pub fn disconnect(&mut self, id: u8) -> (stream: Option<u64>)
        ensures
            final(self)@.store.wf(),
            final(self)@ == (WorldView {
                store: old(self)@.store.apply(StoreOp::Destroy { id }),
                ..old(self)@
            }),
            final(self)@.store.phase(id) == Phase::Disconnected,
            match stream {
                Some(s) => old(self)@.store.live(id) && s == old(self)@.store.entities[id].stream,
                None => !old(self)@.store.live(id),
            },
    {
        self.store.destroy(id)
    }

    /// The connection with identity `id` is over, for whatever reason:
    /// [`World::disconnect`], with what has to go out. Only this
    /// connection is touched.
    pub fn ended(&mut self, id: u8) -> (actions: Vec<Action>)
        ensures
            final(self)@.store.wf(),
            final(self)@ == (WorldView {
                store: old(self)@.store.apply(StoreOp::Destroy { id }),
                ..old(self)@
            }),
            final(self)@.store.phase(id) == Phase::Disconnected,
            views(actions@) == old(self)@.farewell(id),
    {
        let mut actions: Vec<Action> = Vec::new();
        match self.disconnect(id) {
            Some(stream) => {
                actions.push(Action::Close { stream });
            },
            None => {},
        }
        assert(views(actions@) =~= old(self)@.farewell(id));
        actions
    }

    /// The server identification has gone out to connection `id`: an
    /// `Identified` connection becomes `Active`, and from now on counts
    /// as a player and receives broadcasts. In any other phase nothing
    /// changes.
    pub fn welcomed(&mut self, id: u8) -> (done: bool)
        ensures
            final(self)@.store.wf(),
            done == (old(self)@.store.phase(id) == Phase::Identified),
            done ==> final(self)@ == (WorldView {
                store: old(self)@.store.with(id, old(self)@.store.entities[id].activated()),
                ..old(self)@
            }),
            !done ==> final(self)@ == old(self)@,
    {
        self.store.activate(id)
    }

    /// Records whether the player of a live connection is on the
    /// whitelist and whether it is banned. `false`, and nothing changes,
    /// if no such entity is live.
    pub fn set_eligibility(&mut self, id: u8, whitelisted: bool, banned: bool) -> (done: bool)
        ensures
            final(self)@.store.wf(),
            done == old(self)@.store.live(id),
            done ==> final(self)@ == (WorldView {
                store: old(self)@.store.with(
                    id,
                    old(self)@.store.entities[id].flagged(whitelisted, banned),
                ),
                ..old(self)@
            }),
            !done ==> final(self)@ == old(self)@,
    {
        self.store.set_eligibility(id, whitelisted, banned)
    }

    /// Applies a decoded message from connection `id` and says what has
    /// to go out.
    ///
    /// * Before it has identified, a connection may only identify: the
    ///   entity gets its user name, becomes `Identified`, and is sent
    ///   the server identification. Anything else ends the connection.
    /// * Afterwards a second identification ends the connection; a
    ///   position and orientation is recorded and told to every other
    ///   `Active` connection, never to `id` itself; a block change or a
    ///   chat line is handed to the rules of the game.
    /// * A message for an identity without a live entity is dropped.
    pub fn receive(&mut self, id: u8, message: ServerBound) -> (actions: Vec<Action>)
        ensures
            final(self)@.store.wf(),
            final(self)@ == (WorldView {
                store: old(self)@.received(id, message@),
                ..old(self)@
            }),
            old(self)@.reaction(id, message@, views(actions@)),
    {
        let mut actions: Vec<Action> = Vec::new();
        let phase = self.store.phase(id);
        let violation = match phase {
            Phase::Disconnected => {
                assert(views(actions@) =~= Seq::<ActionView>::empty());
                return actions;
            },
            Phase::Connecting => !matches!(message, ServerBound::PlayerIdentification { .. }),
            _ => matches!(message, ServerBound::PlayerIdentification { .. }),
        };
        assert(violation == WorldView::is_violation(phase, message@));
        if violation {
            match self.store.destroy(id) {
                Some(stream) => {
                    actions.push(Action::Close { stream });
                },
                None => {},
            }
            assert(views(actions@) =~= seq![
                ActionView::Close { stream: old(self)@.store.entities[id].stream },
            ]);
            return actions;
        }
        match message {
            ServerBound::PlayerIdentification { protocol, username, key, unused } => {
                self.store.identify(id, username);
                let message = self.greeting();
                actions.push(Action::Send { to: id, message });
                assert(views(actions@) =~= seq![
                    ActionView::Send { to: id, message: old(self)@.greeting() },
                ]);
            },
            ServerBound::PositionAndOrientation { player, pos, rot } => {
                let step = match self.store.relocate(id, pos, rot) {
                    Some(step) => step,
                    None => DeltaVel::still(),
                };
                actions = self.broadcast_movement(id, &step, pos, rot);
                proof {
                    assert(self@.store.active() =~= old(self)@.store.active());
                }
            },
            other => {
                let ghost m = other@;
                actions.push(Action::Delegate { from: id, request: other });
                assert(views(actions@) =~= seq![ActionView::Delegate { from: id, request: m }]);
            },
        }
        actions
    }

    /// The actions that tell every `Active` connection but `id` that
    /// player `id` has taken `step` to `pos` and looks along `rot`.
    fn broadcast_movement(&self, id: u8, step: &DeltaVel, pos: Pos, rot: Rotation) -> (actions: Vec<
        Action,
    >)
        ensures
            is_broadcast(
                views(actions@),
                self@.store.active().remove(id),
                movement(id, *step, pos, rot),
            ),
    {
        let targets = self.store.active_ids();
        let ghost message = movement(id, *step, pos, rot);
        let mut actions: Vec<Action> = Vec::new();
        let mut k: usize = 0;
        while k < targets.len()
            invariant
                k <= targets.len(),
                ascending(targets@),
                message == movement(id, *step, pos, rot),
                forall|j: int|
                    0 <= j < actions.len() ==> #[trigger] views(actions@)[j] == (ActionView::Send {
                        to: recipients(views(actions@))[j],
                        message,
                    }),
                ascending(recipients(views(actions@))),
                forall|j: int|
                    0 <= j < actions.len() ==> {
                        let to = #[trigger] recipients(views(actions@))[j];
                        &&& to != id
                        &&& targets@.contains(to)
                        &&& k < targets.len() ==> to < targets[k as int]
                    },
                forall|j: int|
                    0 <= j < k && targets[j] != id ==> recipients(views(actions@)).contains(
                        #[trigger] targets[j],
                    ),
            decreases targets.len() - k,
        {
            let to = targets[k];
            let ghost before = recipients(views(actions@));
            if to != id {
                actions.push(Action::Send { to, message: movement_message(id, step, pos, rot) });
                let ghost now = recipients(views(actions@));
                assert(now =~= before.push(to));
                assert forall|j: int| 0 <= j < k + 1 && targets[j] != id implies now.contains(
                    #[trigger] targets[j],
                ) by {
                    if j < k {
                        let at = choose|at: int| 0 <= at < before.len() && before[at] == targets[j];
                        assert(now[at] == targets[j]);
                    } else {
                        assert(now[before.len() as int] == to);
                    }
                }
                assert forall|j: int| 0 <= j < actions.len() implies #[trigger] views(actions@)[j]
                    == (ActionView::Send { to: now[j], message }) by {
                    if j < before.len() {
                        assert(now[j] == before[j]);
                    }
                }
            }
            k += 1;
        }
        proof {
            let sent = recipients(views(actions@));
            assert(sent.to_set() =~= self@.store.active().remove(id)) by {
                assert forall|to: u8| self@.store.active().remove(id).contains(to) implies sent.contains(
                    to,
                ) by {
                    assert(targets@.to_set().contains(to));
                    let j = choose|j: int| 0 <= j < targets.len() && targets[j] == to;
                    assert(sent.contains(targets[j]));
                }
                assert forall|to: u8| sent.contains(to) implies self@.store.active().remove(
                    id,
                ).contains(to) by {
                    let j = choose|j: int| 0 <= j < sent.len() && sent[j] == to;
                    assert(targets@.contains(sent[j]));
                    assert(targets@.to_set().contains(to));
                }
            }
        }
        actions
    }

    /// Applies what decoding the front of connection `id`'s buffer came
    /// to. A message is applied as [`World::receive`] says. Where more
    /// bytes are needed, nothing happens. An unknown opcode or a
    /// malformed field ends the connection, and only that one.
    pub fn on_decoded(&mut self, id: u8, decoded: Decoded<ServerBound>) -> (actions: Vec<Action>)
        ensures
            final(self)@.store.wf(),
            match decoded@ {
                Decoded::Message { message, .. } => {
                    &&& final(self)@ == (WorldView {
                        store: old(self)@.received(id, message),
                        ..old(self)@
                    })
                    &&& old(self)@.reaction(id, message, views(actions@))
                },
                Decoded::Incomplete => final(self)@ == old(self)@ && actions@.len() == 0,
                Decoded::UnknownOpcode { .. } | Decoded::Malformed { .. } => {
                    &&& final(self)@ == (WorldView {
                        store: old(self)@.store.apply(StoreOp::Destroy { id }),
                        ..old(self)@
                    })
                    &&& final(self)@.store.phase(id) == Phase::Disconnected
                    &&& views(actions@) == old(self)@.farewell(id)
                },
            },
    {
        match decoded {
            Decoded::Message { message, used } => self.receive(id, message),
            Decoded::Incomplete => {
                let _ = self.store.capacity();
                Vec::new()
            },
            _ => self.ended(id),
        }
    }
}

} // verus!
