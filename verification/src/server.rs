//! The server as a whole: the world of connections and one heartbeat
//! publisher for each of the two registries it announces itself to.

use crate::decimal::bool_text;
use crate::heartbeat::{texts, url_parses, verdict, BeatError, Heartbeat, Record, Reply};
use crate::heartbeat::STATUS_OK;
use crate::publisher::{Publisher, PublisherView, Snapshot, SnapshotView, Tick};
use crate::salt::{fresh_salt, fresh_salt_unlike, is_salt};
use crate::server_bound::{ServerBound, ServerBoundView};
use crate::store::{EntityView, Phase, StoreView};
use crate::text::{fitted, Text};
use crate::world::{views, Action, World, WorldView, PROTOCOL_VERSION};
use vstd::prelude::*;
use vstd::string::*;
use vstd::utf8::encode_utf8;

verus! {

/// Where to find a registry, and whether to announce to it.
pub struct RegistrySettings {
    pub url: String,
    pub active: bool,
}

/// What the server is configured with.
pub struct Settings {
    /// Address that clients connect to.
    pub ip: String,
    pub port: u16,
    /// Name shown in server lists and told to clients.
    pub name: String,
    /// Message of the day, told to clients.
    pub motd: String,
    /// Whether server lists show the server.
    pub public: bool,
    /// Number of players that registries are told there is room for.
    pub max_players: u16,
    /// Whether clients have to prove who they are.
    pub online_mode: bool,
    /// Whether the whitelist is enforced.
    pub whitelisted: bool,
    pub mineonline: RegistrySettings,
    pub mojang: RegistrySettings,
    /// Time from one heartbeat to the next.
    pub beat_interval: u64,
}

/// One of the registries that the server announces itself to.
#[derive(Clone, Copy, Debug, PartialEq, Eq)]
pub enum Registry {
    MineOnline,
    Mojang,
}

/// Number of connections a world has room for: as many as there are
/// identities. The number of players in the settings is what registries
/// are told; it turns no connection away.
pub const MAX_CONNECTIONS: u8 = 255;

/// The record that the settings announce to the registry at `url`,
/// before anybody is online.
pub open spec fn announced(settings: Settings, url: Seq<char>, salt: Seq<char>) -> Record {
    Record {
        url,
        ip: settings.ip@,
        port: settings.port,
        name: settings.name@,
        public: bool_text(settings.public),
        max_users: settings.max_players,
        online: bool_text(settings.online_mode),
        protocol: PROTOCOL_VERSION as u16,
        salt,
        users: 0,
        whitelisted: settings.whitelisted,
        whitelisted_users: Seq::empty(),
        whitelisted_ips: Seq::empty(),
        banned_users: Seq::empty(),
        banned_ips: Seq::empty(),
        request: Seq::empty(),
    }
}

/// The publisher that a server starts with for one registry: its
/// request is built, and its first beat is due at once.
pub open spec fn starting(
    settings: Settings,
    registry: RegistrySettings,
    salt: Seq<char>,
) -> PublisherView {
    PublisherView {
        record: announced(settings, registry.url@, salt).built(),
        active: registry.active,
        interval: settings.beat_interval,
        next_due: 0,
        in_flight: false,
    }
}

/// The server: its world, its publishers, and the lists that say who
/// may play.
pub struct Server {
    pub world: World,
    pub mo_heartbeat: Publisher,
    pub m_heartbeat: Publisher,
    pub whitelisted_users: Vec<String>,
    pub whitelisted_ips: Vec<String>,
    pub banned_users: Vec<String>,
    pub banned_ips: Vec<String>,
}

/// Whether `name` is on `list`: some entry of the list, written in
/// UTF-8, is `name` byte for byte.
pub open spec fn is_listed(list: Seq<Seq<char>>, name: Seq<u8>) -> bool {
    exists|i: int| 0 <= i < list.len() && encode_utf8(#[trigger] list[i]) == name
}

fn same_bytes(a: &Vec<u8>, b: &Vec<u8>) -> (same: bool)
    ensures
        same == (a@ == b@),
{
    if a.len() != b.len() {
        return false;
    }
    let mut i: usize = 0;
    while i < a.len()
        invariant
            i <= a.len(),
            a.len() == b.len(),
            forall|j: int| 0 <= j < i ==> a[j] == b[j],
        decreases a.len() - i,
    {
        if a[i] != b[i] {
            return false;
        }
        i += 1;
    }
    assert(a@ =~= b@);
    true
}

fn listed(list: &Vec<String>, name: &Text) -> (found: bool)
    ensures
        found == is_listed(texts(list@), name@),
{
    let mut i: usize = 0;
    while i < list.len()
        invariant
            i <= list.len(),
            forall|j: int| 0 <= j < i ==> encode_utf8(#[trigger] texts(list@)[j]) != name@,
        decreases list.len() - i,
    {
        let entry = list[i].as_str().as_bytes_vec();
        assert(texts(list@)[i as int] == list[i as int]@);
        if same_bytes(&entry, name.as_bytes()) {
            return true;
        }
        i += 1;
    }
    false
}

fn copy_texts(list: &Vec<String>) -> (out: Vec<String>)
    ensures
        texts(out@) == texts(list@),
{
    let mut out: Vec<String> = Vec::new();
    let mut i: usize = 0;
    while i < list.len()
        invariant
            i <= list.len(),
            out.len() == i,
            forall|j: int| 0 <= j < i ==> out[j]@ == list[j]@,
        decreases list.len() - i,
    {
        out.push(list[i].clone());
        i += 1;
    }
    assert(texts(out@) =~= texts(list@));
    out
}

fn starting_publisher(settings: &Settings, registry: &RegistrySettings, salt: &str) -> (publisher:
    Publisher)
    ensures
        publisher@ == starting(*settings, *registry, salt@),
{
    let mut record = Heartbeat::new(
        registry.url.as_str(),
        settings.ip.as_str(),
        settings.port,
        settings.name.as_str(),
        settings.public,
        settings.max_players,
        settings.online_mode,
        salt,
        PROTOCOL_VERSION as u16,
        settings.whitelisted,
    );
    let _ = record.build_request();
    Publisher::new(record, registry.active, settings.beat_interval)
}

impl Server {
    /// The publisher of `registry`.
    pub open spec fn publisher(&self, registry: Registry) -> PublisherView {
        match registry {
            Registry::MineOnline => self.mo_heartbeat@,
            Registry::Mojang => self.m_heartbeat@,
        }
    }

    /// Whether this server is what `settings` and the two salts make:
    /// an empty world that takes connections in and tells clients the
    /// configured name and message, as far as a text field of the
    /// protocol can hold them; a publisher for each registry with its
    /// own salt, whose first beat is due; and empty lists.
    pub open spec fn is_fresh(
        &self,
        settings: Settings,
        mo_salt: Seq<char>,
        m_salt: Seq<char>,
    ) -> bool {
        &&& self.world@.store.wf()
        &&& self.world@.store.capacity == MAX_CONNECTIONS
        &&& self.world@.store.entities == Map::<u8, EntityView>::empty()
        &&& self.world@.name == fitted(encode_utf8(settings.name@))
        &&& self.world@.motd == fitted(encode_utf8(settings.motd@))
        &&& self.world@.accepting
        &&& self.mo_heartbeat@ == starting(settings, settings.mineonline, mo_salt)
        &&& self.m_heartbeat@ == starting(settings, settings.mojang, m_salt)
        &&& self.whitelisted_users@.len() == 0
        &&& self.whitelisted_ips@.len() == 0
        &&& self.banned_users@.len() == 0
        &&& self.banned_ips@.len() == 0
    }

    /// Sets the server up with the salts it is given, one for each
    /// registry. Whatever the settings hold, there is a server to
    /// start: registries are told the name as it is, and clients are
    /// told what of the name and of the message of the day a text field
    /// of the protocol can hold.
    pub fn with_salts(settings: &Settings, mo_salt: &str, m_salt: &str) -> (server: Server)
        ensures
            server.is_fresh(*settings, mo_salt@, m_salt@),
    {
        let name = Text::fitting(settings.name.as_str().as_bytes_vec().as_slice());
        let motd = Text::fitting(settings.motd.as_str().as_bytes_vec().as_slice());
        Server {
            world: World::new(MAX_CONNECTIONS, name, motd),
            mo_heartbeat: starting_publisher(settings, &settings.mineonline, mo_salt),
            m_heartbeat: starting_publisher(settings, &settings.mojang, m_salt),
            whitelisted_users: Vec::new(),
            whitelisted_ips: Vec::new(),
            banned_users: Vec::new(),
            banned_ips: Vec::new(),
        }
    }

    /// Sets the server up: as [`Server::with_salts`] does, with a salt
    /// drawn at random for each registry, and never the same for both.
    /// No registry is asked anything here: what becomes of the beats
    /// has no part in whether the server starts.
    pub fn new(settings: &Settings) -> (server: Server)
        ensures
            server.is_fresh(
                *settings,
                server.mo_heartbeat@.record.salt,
                server.m_heartbeat@.record.salt,
            ),
            is_salt(server.mo_heartbeat@.record.salt),
            is_salt(server.m_heartbeat@.record.salt),
            server.mo_heartbeat@.record.salt != server.m_heartbeat@.record.salt,
    {
        let m_salt = fresh_salt();
        let mo_salt = fresh_salt_unlike(&m_salt);
        Server::with_salts(settings, mo_salt.as_str(), m_salt.as_str())
    }

    /// The table after `message` has come in from connection `id`: as
    /// the world has it, and where the message made a connection
    /// identify, with the player's eligibility looked up in the lists
    /// of user names.
    pub open spec fn judged(&self, id: u8, message: ServerBoundView) -> StoreView {
        let after = self.world@.received(id, message);
        if self.world@.store.phase(id) == Phase::Connecting && message is PlayerIdentification {
            after.with(
                id,
                after.entities[id].flagged(
                    is_listed(texts(self.whitelisted_users@), message->username),
                    is_listed(texts(self.banned_users@), message->username),
                ),
            )
        } else {
            after
        }
    }

    /// Applies a decoded message from connection `id`, as
    /// [`World::receive`] does, and says what has to go out. When the
    /// message makes the connection identify, the entity is marked as
    /// whitelisted or banned according to the lists.
    pub fn receive(&mut self, id: u8, message: ServerBound) -> (actions: Vec<Action>)
        ensures
            final(self).world@.store.wf(),
            final(self).world@ == (WorldView {
                store: old(self).judged(id, message@),
                ..old(self).world@
            }),
            old(self).world@.reaction(id, message@, views(actions@)),
            final(self).mo_heartbeat == old(self).mo_heartbeat,
            final(self).m_heartbeat == old(self).m_heartbeat,
            final(self).whitelisted_users == old(self).whitelisted_users,
            final(self).whitelisted_ips == old(self).whitelisted_ips,
            final(self).banned_users == old(self).banned_users,
            final(self).banned_ips == old(self).banned_ips,
    {
        let flags = match &message {
            ServerBound::PlayerIdentification { username, .. } => Some(
                (listed(&self.whitelisted_users, username), listed(&self.banned_users, username)),
            ),
            _ => None,
        };
        let joining = matches!(self.world.store().phase(id), Phase::Connecting);
        let actions = self.world.receive(id, message);
        if joining {
            if let Some((whitelisted, banned)) = flags {
                self.world.set_eligibility(id, whitelisted, banned);
            }
        }
        actions
    }

    /// The state that the next beats report: the players online now,
    /// and the lists as they stand.
    pub open spec fn reported(&self) -> SnapshotView {
        SnapshotView {
            users: self.world@.store.active().len() as u16,
            whitelisted_users: texts(self.whitelisted_users@),
            whitelisted_ips: texts(self.whitelisted_ips@),
            banned_users: texts(self.banned_users@),
            banned_ips: texts(self.banned_ips@),
        }
    }

    /// Takes the snapshot that the next beats report.
    pub fn snapshot(&self) -> (snapshot: Snapshot)
        ensures
            snapshot@ == self.reported(),
    {
        Snapshot {
            users: self.world.players_online(),
            whitelisted_users: copy_texts(&self.whitelisted_users),
            whitelisted_ips: copy_texts(&self.whitelisted_ips),
            banned_users: copy_texts(&self.banned_users),
            banned_ips: copy_texts(&self.banned_ips),
        }
    }

    /// The tick of the clock at time `now`, for both registries.
    ///
    /// Each publisher is ticked on its own, with a snapshot of the
    /// world as it is now: what one registry's beat comes to has no
    /// part in the other's. The world is not touched.
    pub fn heartbeats(&mut self, now: u64) -> (ticks: (Tick, Tick))
        ensures
            final(self).world == old(self).world,
            final(self).whitelisted_users == old(self).whitelisted_users,
            final(self).whitelisted_ips == old(self).whitelisted_ips,
            final(self).banned_users == old(self).banned_users,
            final(self).banned_ips == old(self).banned_ips,
            final(self).mo_heartbeat@ == old(self).mo_heartbeat@.ticked(
                now,
                old(self).reported(),
                url_parses(old(self).mo_heartbeat@.record.url),
            ),
            final(self).m_heartbeat@ == old(self).m_heartbeat@.ticked(
                now,
                old(self).reported(),
                url_parses(old(self).m_heartbeat@.record.url),
            ),
            old(self).mo_heartbeat@.asks(
                now,
                old(self).reported(),
                url_parses(old(self).mo_heartbeat@.record.url),
                ticks.0,
            ),
            old(self).m_heartbeat@.asks(
                now,
                old(self).reported(),
                url_parses(old(self).m_heartbeat@.record.url),
                ticks.1,
            ),
    {
        let first = self.snapshot();
        let second = self.snapshot();
        let mo = self.mo_heartbeat.tick(now, first);
        let m = self.m_heartbeat.tick(now, second);
        (mo, m)
    }

    /// The answer to the beat of `registry` has come in at time `now`.
    /// Its verdict is handed back, for the caller to log; a failure
    /// changes nothing but the time of that registry's next beat.
    pub fn answered(&mut self, registry: Registry, now: u64, reply: Reply) -> (r: Result<
        (),
        BeatError,
    >)
        ensures
            r == verdict(reply),
            answer_taken(*old(self), *final(self), registry, now),
    {
        match registry {
            Registry::MineOnline => self.mo_heartbeat.answered(now, reply),
            Registry::Mojang => self.m_heartbeat.answered(now, reply),
        }
    }
}

/// Whether `after` is `before` once the answer to the beat of
/// `registry` has come in at time `now`: that registry's publisher has
/// settled, and nothing else has changed, whatever the answer was.
pub open spec fn answer_taken(before: Server, after: Server, registry: Registry, now: u64) -> bool {
    &&& after.world == before.world
    &&& after.whitelisted_users == before.whitelisted_users
    &&& after.whitelisted_ips == before.whitelisted_ips
    &&& after.banned_users == before.banned_users
    &&& after.banned_ips == before.banned_ips
    &&& after.publisher(registry) == before.publisher(registry).settled(now)
    &&& match registry {
        Registry::MineOnline => after.m_heartbeat == before.m_heartbeat,
        Registry::Mojang => after.mo_heartbeat == before.mo_heartbeat,
    }
}

/// A registry that rejects a beat, or cannot be reached, stops
/// nothing. The failure is a value handed back. The connections are as
/// they were, and the world takes new ones in as before. The other
/// registry's publisher is as it was. And the next beat to the registry
/// that failed is due exactly when an interval has passed: not at once,
/// and not never.
pub proof fn lemma_failed_beat_stops_nothing(
    before: Server,
    after: Server,
    registry: Registry,
    now: u64,
    reply: Reply,
    later: u64,
)
    requires
        before.publisher(registry).active,
        before.publisher(registry).in_flight,
        answer_taken(before, after, registry, now),
        later >= now,
    ensures
        reply != Reply::Status(STATUS_OK) ==> verdict(reply) is Err,
        after.world@ == before.world@,
        after.world@.store.active() == before.world@.store.active(),
        after.world@.accepting == before.world@.accepting,
        !after.publisher(registry).in_flight,
        after.publisher(registry).record == before.publisher(registry).record,
        after.publisher(registry).is_due(later) <==> later >= before.publisher(registry).following(
            now,
        ),
        after.publisher(registry).is_due(before.publisher(registry).following(now)),
        now < before.publisher(registry).following(now) ==> !after.publisher(registry).is_due(now),
{
}

} // verus!
