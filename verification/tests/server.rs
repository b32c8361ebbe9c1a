use classic_server::heartbeat::{BeatError, Reply};
use classic_server::publisher::{Publisher, Snapshot, Tick};
use classic_server::heartbeat::Heartbeat;
use classic_server::salt::{distinct_from, fresh_salt, fresh_salt_unlike, SALT_LENGTH};
use classic_server::server::{Registry, RegistrySettings, Server, Settings, MAX_CONNECTIONS};
use classic_server::server_bound::ServerBound;
use classic_server::store::Phase;
use classic_server::text::Text;

fn text(s: &str) -> Text {
    Text::new(s.as_bytes().to_vec()).expect("a text")
}

fn pair(key: &str, value: &str) -> (String, String) {
    (key.to_string(), value.to_string())
}

fn settings(public: bool) -> Settings {
    Settings {
        ip: "203.0.113.7".to_string(),
        port: 25565,
        name: "A Classic Server".to_string(),
        motd: "Be nice".to_string(),
        public,
        max_players: 20,
        online_mode: false,
        whitelisted: false,
        mineonline: RegistrySettings { url: "http://mineonline.example/beat".to_string(), active: true },
        mojang: RegistrySettings { url: "http://mojang.example/heartbeat.jsp".to_string(), active: true },
        beat_interval: 45,
    }
}

fn server(public: bool) -> Server {
    Server::with_salts(&settings(public), "AAAAAAAAAAAAAAAA", "BBBBBBBBBBBBBBBB")
}

fn empty_snapshot(users: u16) -> Snapshot {
    Snapshot {
        users,
        whitelisted_users: vec![],
        whitelisted_ips: vec![],
        banned_users: vec![],
        banned_ips: vec![],
    }
}

fn identify(server: &mut Server, stream: u64, name: &str) -> u8 {
    let id = server.world.accept(stream).expect("room");
    let actions = server.world.receive(
        id,
        ServerBound::PlayerIdentification {
            protocol: 7,
            username: text(name),
            key: Text::empty(),
            unused: 0,
        },
    );
    assert_eq!(actions.len(), 1);
    assert!(server.world.welcomed(id));
    id
}

fn form_of(tick: Tick) -> (String, Vec<(String, String)>) {
    match tick {
        Tick::Post(post) => (post.url, post.form),
        other => panic!("no post: {:?}", other),
    }
}

fn is_alphanumeric_salt(salt: &str) -> bool {
    salt.chars().count() == 16 && salt.chars().all(|c| c.is_ascii_alphanumeric())
}

#[test]
fn fresh_server_is_empty_and_ready_to_beat() {
    let s = server(true);
    assert!(s.world.is_accepting());
    assert_eq!(s.world.store().capacity(), 255);
    assert_eq!(s.world.players_online(), 0);
    assert!(s.mo_heartbeat.is_due(0));
    assert!(s.m_heartbeat.is_due(0));
    assert!(!s.m_heartbeat.in_flight());
    assert_eq!(s.m_heartbeat.next_due(), 0);
    assert!(s.whitelisted_users.is_empty() && s.banned_ips.is_empty());
    assert_eq!(s.mo_heartbeat.record().get_url(), "http://mineonline.example/beat");
    assert_eq!(s.m_heartbeat.record().get_url(), "http://mojang.example/heartbeat.jsp");
}

#[test]
fn fresh_server_has_its_requests_built() {
    let s = server(true);
    let expected = |salt: &str| {
        vec![
            pair("ip", "203.0.113.7"),
            pair("port", "25565"),
            pair("users", "0"),
            pair("max", "20"),
            pair("name", "A Classic Server"),
            pair("public", "true"),
            pair("version", "7"),
            pair("salt", salt),
        ]
    };
    assert_eq!(s.mo_heartbeat.record().get_request(), expected("AAAAAAAAAAAAAAAA"));
    assert_eq!(s.m_heartbeat.record().get_request(), expected("BBBBBBBBBBBBBBBB"));
}

#[test]
fn max_players_turns_no_connection_away() {
    let mut cfg = settings(true);
    cfg.max_players = 2;
    let mut s = Server::with_salts(&cfg, "a", "b");
    assert_eq!(MAX_CONNECTIONS, 255);
    assert_eq!(s.world.store().capacity(), 255);
    for stream in 0..5 {
        identify(&mut s, stream, "p");
    }
    assert_eq!(s.world.players_online(), 5);
    let (_, m) = s.heartbeats(0);
    let form = form_of(m).1;
    assert_eq!(form[2], pair("users", "5"));
    assert_eq!(form[3], pair("max", "2"));
    cfg.max_players = 1000;
    let s = Server::with_salts(&cfg, "a", "b");
    assert_eq!(s.world.store().capacity(), 255);
    assert_eq!(s.m_heartbeat.record().get_request()[3], pair("max", "1000"));
}

#[test]
fn server_starts_whatever_the_name_and_motd_are() {
    let mut cfg = settings(true);
    cfg.name = "x".repeat(70);
    cfg.motd = "Caf\u{e9} ends in a space ".to_string();
    let mut s = Server::with_salts(&cfg, "a", "b");
    assert_eq!(s.m_heartbeat.record().get_request()[4], pair("name", &"x".repeat(70)));
    assert!(s.world.is_accepting());
    let id = s.world.accept(1).expect("room");
    let actions = s.receive(id, identification("Notch"));
    assert_eq!(
        actions,
        vec![classic_server::world::Action::Send {
            to: id,
            message: classic_server::client_bound::ClientBound::ServerIdentification {
                protocol: 7,
                name: text(&"x".repeat(64)),
                motd: text("Caf?? ends in a space"),
                user_type: 0,
            }
        }]
    );
    let random = Server::new(&cfg);
    assert!(random.world.is_accepting());
    assert!(random.m_heartbeat.is_due(0));
}

#[test]
fn registry_that_fails_at_start_up_does_not_stop_the_server() {
    let mut cfg = settings(true);
    cfg.mineonline.url = "no url at all".to_string();
    let mut s = Server::with_salts(&cfg, "a", "b");
    let (mo, m) = s.heartbeats(0);
    assert_eq!(mo, Tick::Failed(BeatError::InvalidUrl));
    assert!(matches!(m, Tick::Post(_)));
    assert_eq!(s.answered(Registry::Mojang, 0, Reply::Status(500)), Err(BeatError::Rejected(500)));
    assert!(s.world.is_accepting());
    assert_eq!(s.world.accept(1), Ok(0));
    assert_eq!(s.world.accept(2), Ok(1));
    identify(&mut s, 3, "alice");
    assert_eq!(s.world.players_online(), 1);
    assert_eq!(s.m_heartbeat.next_due(), 45);
    assert_eq!(s.mo_heartbeat.next_due(), 45);
    let (mo, m) = s.heartbeats(45);
    assert_eq!(mo, Tick::Failed(BeatError::InvalidUrl));
    assert_eq!(form_of(m).1[2], pair("users", "1"));
}

#[test]
fn server_tells_clients_its_name_and_motd() {
    let mut s = server(true);
    let id = s.world.accept(1).expect("room");
    let actions = s.world.receive(
        id,
        ServerBound::PlayerIdentification {
            protocol: 7,
            username: text("Notch"),
            key: Text::empty(),
            unused: 0,
        },
    );
    let mut expected = vec![0x00, 7];
    let mut name = b"A Classic Server".to_vec();
    name.resize(64, b' ');
    let mut motd = b"Be nice".to_vec();
    motd.resize(64, b' ');
    expected.extend(name);
    expected.extend(motd);
    expected.push(0);
    match &actions[0] {
        classic_server::world::Action::Send { to, message } => {
            assert_eq!(*to, id);
            assert_eq!(message.encode(), expected);
        }
        other => panic!("not a send: {:?}", other),
    }
}

#[test]
fn new_server_draws_a_salt_for_each_registry() {
    let s = Server::new(&settings(true));
    let mo = s.mo_heartbeat.record().get_request()[7].1.clone();
    let m = s.m_heartbeat.record().get_request()[7].1.clone();
    assert!(is_alphanumeric_salt(&mo));
    assert!(is_alphanumeric_salt(&m));
    assert_ne!(mo, m);
    assert_eq!(s.world.store().capacity(), 255);
}

#[test]
fn fresh_salts_are_sixteen_letters_and_digits() {
    assert_eq!(SALT_LENGTH, 16);
    let mut seen = Vec::new();
    for _ in 0..50 {
        let salt = fresh_salt();
        assert!(is_alphanumeric_salt(&salt));
        seen.push(salt);
    }
    seen.sort();
    seen.dedup();
    assert!(seen.len() > 1);
}

#[test]
fn salt_of_one_registry_is_never_that_of_another() {
    let taken = "AAAAAAAAAAAAAAAA".to_string();
    assert_eq!(distinct_from(&taken, "BAAAAAAAAAAAAAAA".to_string()), "BAAAAAAAAAAAAAAA");
    assert_eq!(distinct_from(&taken, "AAAAAAAAAAAAAAAA".to_string()), "BAAAAAAAAAAAAAAA");
    let taken = "zAAAAAAAAAAAAAA9".to_string();
    assert_eq!(distinct_from(&taken, "zAAAAAAAAAAAAAA9".to_string()), "AAAAAAAAAAAAAAA9");
    assert_eq!(distinct_from(&String::new(), String::new()), "A");
    assert_eq!(distinct_from(&"é".to_string(), "é".to_string()), "A");
    for _ in 0..20 {
        let salt = fresh_salt_unlike(&taken);
        assert!(is_alphanumeric_salt(&salt));
        assert_ne!(salt, taken);
    }
}

#[test]
fn heartbeat_reports_three_identified_clients() {
    for public in [true, false] {
        let mut s = server(public);
        identify(&mut s, 1, "alice");
        identify(&mut s, 2, "bob");
        identify(&mut s, 3, "carol");
        assert_eq!(s.world.players_online(), 3);
        let (mo, m) = s.heartbeats(0);
        let (url, form) = form_of(m);
        assert_eq!(url, "http://mojang.example/heartbeat.jsp");
        assert_eq!(
            form,
            vec![
                pair("ip", "203.0.113.7"),
                pair("port", "25565"),
                pair("users", "3"),
                pair("max", "20"),
                pair("name", "A Classic Server"),
                pair("public", if public { "true" } else { "false" }),
                pair("version", "7"),
                pair("salt", "BBBBBBBBBBBBBBBB"),
            ]
        );
        let (url, form) = form_of(mo);
        assert_eq!(url, "http://mineonline.example/beat");
        assert_eq!(form[2], pair("users", "3"));
        assert_eq!(form[3], pair("max", "20"));
        assert_eq!(form[6], pair("version", "7"));
        assert_eq!(form[7], pair("salt", "AAAAAAAAAAAAAAAA"));
        assert_eq!(s.m_heartbeat.record().get_user_count(), 3);
    }
}

#[test]
fn connections_that_have_not_joined_are_not_counted() {
    let mut s = server(true);
    identify(&mut s, 1, "alice");
    let waiting = s.world.accept(2).expect("room");
    let named = s.world.accept(3).expect("room");
    s.world.receive(
        named,
        ServerBound::PlayerIdentification {
            protocol: 7,
            username: text("bob"),
            key: Text::empty(),
            unused: 0,
        },
    );
    assert_eq!(s.world.store().phase(waiting), Phase::Connecting);
    assert_eq!(s.snapshot().users, 1);
    let (_, m) = s.heartbeats(0);
    assert_eq!(form_of(m).1[2], pair("users", "1"));
}

#[test]
fn failed_beat_is_followed_by_the_next_scheduled_beat() {
    let mut s = server(true);
    let a = identify(&mut s, 1, "alice");
    let b = identify(&mut s, 2, "bob");
    let (mo, m) = s.heartbeats(0);
    assert!(matches!(mo, Tick::Post(_)));
    assert!(matches!(m, Tick::Post(_)));

    assert_eq!(s.answered(Registry::Mojang, 1, Reply::Status(500)), Err(BeatError::Rejected(500)));
    assert_eq!(s.answered(Registry::MineOnline, 1, Reply::Status(200)), Ok(()));

    assert_eq!(s.world.players_online(), 2);
    assert_eq!(s.world.store().phase(a), Phase::Active);
    assert_eq!(s.world.store().phase(b), Phase::Active);
    assert_eq!(s.world.store().get(a).expect("live").stream, 1);
    assert!(s.world.is_accepting());

    assert_eq!(s.m_heartbeat.next_due(), 46);
    assert_eq!(s.heartbeats(2), (Tick::Idle, Tick::Idle));
    assert_eq!(s.heartbeats(45), (Tick::Idle, Tick::Idle));
    let (mo, m) = s.heartbeats(46);
    assert!(matches!(mo, Tick::Post(_)));
    let (_, form) = form_of(m);
    assert_eq!(form[2], pair("users", "2"));
    assert_eq!(s.answered(Registry::Mojang, 47, Reply::Status(200)), Ok(()));
    assert_eq!(s.m_heartbeat.next_due(), 92);
}

#[test]
fn unreachable_registry_does_not_hold_up_the_other() {
    let mut s = server(true);
    let (mo, m) = s.heartbeats(0);
    assert!(matches!(mo, Tick::Post(_)) && matches!(m, Tick::Post(_)));
    assert_eq!(s.answered(Registry::MineOnline, 5, Reply::Status(200)), Ok(()));
    assert!(s.m_heartbeat.in_flight());
    let (mo, m) = s.heartbeats(50);
    assert!(matches!(mo, Tick::Post(_)));
    assert_eq!(m, Tick::Idle);
    assert_eq!(s.answered(Registry::Mojang, 60, Reply::Failed), Err(BeatError::Transport));
    assert!(!s.m_heartbeat.in_flight());
    assert_eq!(s.m_heartbeat.next_due(), 105);
    assert!(s.mo_heartbeat.in_flight());
}

#[test]
fn inactive_registry_never_beats() {
    let mut cfg = settings(true);
    cfg.mojang.active = false;
    let mut s = Server::with_salts(&cfg, "a", "b");
    assert!(!s.m_heartbeat.is_due(0));
    let (mo, m) = s.heartbeats(0);
    assert!(matches!(mo, Tick::Post(_)));
    assert_eq!(m, Tick::Idle);
    assert_eq!(s.heartbeats(u64::MAX).1, Tick::Idle);
}

#[test]
fn beat_to_an_address_that_is_no_url_fails_and_is_rescheduled() {
    let mut cfg = settings(true);
    cfg.mojang.url = "no url at all".to_string();
    let mut s = Server::with_salts(&cfg, "a", "b");
    let (mo, m) = s.heartbeats(10);
    assert!(matches!(mo, Tick::Post(_)));
    assert_eq!(m, Tick::Failed(BeatError::InvalidUrl));
    assert!(!s.m_heartbeat.in_flight());
    assert_eq!(s.m_heartbeat.next_due(), 55);
    assert_eq!(s.heartbeats(54).1, Tick::Idle);
    assert_eq!(s.heartbeats(55).1, Tick::Failed(BeatError::InvalidUrl));
}

#[test]
fn snapshot_carries_the_lists() {
    let mut s = server(true);
    s.whitelisted_users = vec!["alice".to_string()];
    s.whitelisted_ips = vec!["198.51.100.1".to_string(), "198.51.100.2".to_string()];
    s.banned_users = vec!["mallory".to_string()];
    let snap = s.snapshot();
    assert_eq!(snap.users, 0);
    assert_eq!(snap.whitelisted_users, vec!["alice".to_string()]);
    assert_eq!(snap.whitelisted_ips.len(), 2);
    assert_eq!(snap.banned_users, vec!["mallory".to_string()]);
    assert!(snap.banned_ips.is_empty());
    s.heartbeats(0);
    let record = s.m_heartbeat.record();
    assert_eq!(*record.get_whitelist().0, vec!["alice".to_string()]);
    assert_eq!(record.get_whitelist().1.len(), 2);
}

#[test]
fn publisher_beats_at_once_and_then_every_interval() {
    let record = Heartbeat::new("http://r.example/", "h", 1, "n", true, 9, false, "s", 7, false);
    let mut p = Publisher::new(record, true, 45);
    assert!(p.is_due(0));
    assert!(matches!(p.tick(0, empty_snapshot(4)), Tick::Post(_)));
    assert!(p.in_flight());
    assert!(!p.is_due(1000));
    assert_eq!(p.tick(1000, empty_snapshot(5)), Tick::Idle);
    assert_eq!(p.record().get_user_count(), 4);
    assert_eq!(p.answered(3, Reply::Status(200)), Ok(()));
    assert_eq!(p.next_due(), 48);
    assert!(!p.is_due(47));
    assert!(p.is_due(48));
    let (_, form) = form_of(p.tick(48, empty_snapshot(6)));
    assert_eq!(form[2], pair("users", "6"));
}

#[test]
fn answer_without_a_beat_in_flight_changes_nothing() {
    let record = Heartbeat::new("http://r.example/", "h", 1, "n", true, 9, false, "s", 7, false);
    let mut p = Publisher::new(record, true, 45);
    assert_eq!(p.answered(100, Reply::Status(503)), Err(BeatError::Rejected(503)));
    assert_eq!(p.next_due(), 0);
    assert!(p.is_due(0));
}

#[test]
fn next_beat_time_saturates() {
    let record = Heartbeat::new("http://r.example/", "h", 1, "n", true, 9, false, "s", 7, false);
    let mut p = Publisher::new(record, true, 45);
    assert!(matches!(p.tick(u64::MAX - 10, empty_snapshot(0)), Tick::Post(_)));
    assert_eq!(p.answered(u64::MAX - 10, Reply::Failed), Err(BeatError::Transport));
    assert_eq!(p.next_due(), u64::MAX);
    assert!(p.is_due(u64::MAX));
}

#[test]
fn tick_given_follows_the_verdict_on_the_url() {
    let record = Heartbeat::new("http://r.example/", "h", 1, "n", true, 9, false, "s", 7, false);
    let mut p = Publisher::new(record, true, 10);
    assert_eq!(p.tick_given(5, empty_snapshot(1), false), Tick::Failed(BeatError::InvalidUrl));
    assert_eq!(p.next_due(), 15);
    assert_eq!(p.tick_given(14, empty_snapshot(1), true), Tick::Idle);
    let (url, form) = form_of(p.tick_given(15, empty_snapshot(2), true));
    assert_eq!(url, "http://r.example/");
    assert_eq!(form[2], pair("users", "2"));
    assert!(p.in_flight());
}

fn identification(name: &str) -> ServerBound {
    ServerBound::PlayerIdentification {
        protocol: 7,
        username: text(name),
        key: Text::empty(),
        unused: 0,
    }
}

#[test]
fn identification_looks_the_player_up_in_the_lists() {
    let mut s = server(true);
    s.whitelisted_users = vec!["alice".to_string(), "carol".to_string()];
    s.banned_users = vec!["mallory".to_string(), "carol".to_string()];
    let expected = [
        ("alice", true, false),
        ("mallory", false, true),
        ("carol", true, true),
        ("bob", false, false),
        ("Alice", false, false),
        ("alic", false, false),
    ];
    for (stream, (name, whitelisted, banned)) in expected.iter().enumerate() {
        let id = s.world.accept(stream as u64).expect("room");
        let actions = s.receive(id, identification(name));
        assert_eq!(actions.len(), 1);
        let e = s.world.store().get(id).expect("live");
        assert_eq!(e.phase, Phase::Identified);
        assert_eq!(e.player.username, text(name));
        assert_eq!((e.player.whitelisted, e.player.banned), (*whitelisted, *banned));
    }
}

#[test]
fn lists_are_consulted_at_identification_only() {
    let mut s = server(true);
    let id = s.world.accept(1).expect("room");
    s.receive(id, identification("alice"));
    s.banned_users = vec!["alice".to_string()];
    let actions = s.receive(
        id,
        ServerBound::Message { unused: 0xff, text: text("still here") },
    );
    assert_eq!(actions.len(), 1);
    let e = s.world.store().get(id).expect("live");
    assert_eq!((e.player.whitelisted, e.player.banned), (false, false));
}

#[test]
fn server_receive_rejects_as_the_world_does() {
    let mut s = server(true);
    s.whitelisted_users = vec!["alice".to_string()];
    let id = s.world.accept(9).expect("room");
    let actions = s.receive(id, ServerBound::Message { unused: 0, text: text("too early") });
    assert_eq!(actions, vec![classic_server::world::Action::Close { stream: 9 }]);
    assert_eq!(s.world.store().phase(id), Phase::Disconnected);
    assert_eq!(s.receive(id, identification("alice")), vec![]);
    assert!(s.world.store().get(id).is_none());
}
