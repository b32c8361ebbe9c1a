use classic_server::components::{DeltaVel, Player, Pos, Rotation};
use classic_server::store::{Phase, Store, StoreError};
use classic_server::text::Text;

fn text(s: &str) -> Text {
    Text::new(s.as_bytes().to_vec()).expect("a text")
}

#[test]
fn new_store_is_empty() {
    let store = Store::new(20);
    assert_eq!(store.capacity(), 20);
    assert!(store.ids().is_empty());
    assert!(store.active_ids().is_empty());
    assert_eq!(store.active_count(), 0);
    assert!(store.get(0).is_none());
    assert_eq!(store.phase(0), Phase::Disconnected);
}

#[test]
fn created_entity_has_default_components() {
    let mut store = Store::new(4);
    let id = store.create(77).expect("room");
    assert_eq!(id, 0);
    let e = store.get(id).expect("live");
    assert_eq!(e.pos, Pos { x: 0, y: 0, z: 0 });
    assert_eq!(e.rot, Rotation { yaw: 0, pitch: 0 });
    assert_eq!(e.delta, DeltaVel { dx: 0, dy: 0, dz: 0 });
    assert_eq!(e.player, Player { username: Text::empty(), whitelisted: false, banned: false });
    assert_eq!(e.stream, 77);
    assert_eq!(e.phase, Phase::Connecting);
    assert_eq!(store.phase(id), Phase::Connecting);
}

#[test]
fn identities_are_handed_out_lowest_first() {
    let mut store = Store::new(4);
    assert_eq!(store.create(100), Ok(0));
    assert_eq!(store.create(101), Ok(1));
    assert_eq!(store.create(102), Ok(2));
    assert_eq!(store.ids(), vec![0, 1, 2]);
}

#[test]
fn identity_is_reused_only_after_destroy() {
    let mut store = Store::new(4);
    for stream in 0..3 {
        store.create(stream).expect("room");
    }
    assert_eq!(store.destroy(1), Some(1));
    assert_eq!(store.ids(), vec![0, 2]);
    assert_eq!(store.create(50), Ok(1));
    assert_eq!(store.create(51), Ok(3));
    assert_eq!(store.ids(), vec![0, 1, 2, 3]);
    assert_eq!(store.get(1).expect("live").stream, 50);
    assert_eq!(store.get(1).expect("live").phase, Phase::Connecting);
}

#[test]
fn full_store_takes_no_more() {
    let mut store = Store::new(2);
    assert_eq!(store.create(1), Ok(0));
    assert_eq!(store.create(2), Ok(1));
    assert_eq!(store.create(3), Err(StoreError::Full));
    assert_eq!(store.ids(), vec![0, 1]);
    let mut none = Store::new(0);
    assert_eq!(none.create(1), Err(StoreError::Full));
}

#[test]
fn stream_has_one_owner() {
    let mut store = Store::new(3);
    assert_eq!(store.create(9), Ok(0));
    assert_eq!(store.create(9), Err(StoreError::StreamInUse));
    assert_eq!(store.ids(), vec![0]);
    assert_eq!(store.destroy(0), Some(9));
    assert_eq!(store.create(9), Ok(0));
}

#[test]
fn stream_in_use_is_reported_even_when_full() {
    let mut store = Store::new(1);
    assert_eq!(store.create(9), Ok(0));
    assert_eq!(store.create(9), Err(StoreError::StreamInUse));
    assert_eq!(store.create(8), Err(StoreError::Full));
}

#[test]
fn destroy_hands_the_stream_back_once() {
    let mut store = Store::new(3);
    store.create(41).expect("room");
    store.create(42).expect("room");
    assert_eq!(store.destroy(1), Some(42));
    assert_eq!(store.destroy(1), None);
    assert_eq!(store.phase(1), Phase::Disconnected);
    assert!(store.get(1).is_none());
    assert_eq!(store.get(0).expect("live").stream, 41);
    assert_eq!(store.destroy(2), None);
    assert_eq!(store.destroy(200), None);
}

#[test]
fn largest_store_has_255_identities() {
    let mut store = Store::new(255);
    assert_eq!(store.capacity(), 255);
    for stream in 0..255u64 {
        assert_eq!(store.create(1000 + stream), Ok(stream as u8));
    }
    assert_eq!(store.create(5), Err(StoreError::Full));
    assert_eq!(store.ids().len(), 255);
    assert_eq!(store.phase(255), Phase::Disconnected);
    assert_eq!(store.destroy(254), Some(1254));
    assert_eq!(store.create(5), Ok(254));
}

#[test]
fn no_identity_is_listed_twice_whatever_happens() {
    let mut store = Store::new(8);
    let mut next_stream = 0u64;
    let mut closed = Vec::new();
    for round in 0..40u8 {
        if round % 3 != 2 {
            let _ = store.create(next_stream);
            next_stream += 1;
        } else if let Some(stream) = store.destroy(round % 8) {
            closed.push(stream);
        }
        let ids = store.ids();
        for pair in ids.windows(2) {
            assert!(pair[0] < pair[1]);
        }
        let mut streams: Vec<u64> = ids.iter().map(|id| store.get(*id).expect("live").stream).collect();
        streams.sort();
        streams.dedup();
        assert_eq!(streams.len(), ids.len());
        for stream in &closed {
            assert!(!streams.contains(stream));
        }
    }
    let mut once = closed.clone();
    once.sort();
    once.dedup();
    assert_eq!(once.len(), closed.len());
}

#[test]
fn identify_names_a_connecting_entity() {
    let mut store = Store::new(2);
    store.create(1).expect("room");
    assert!(store.identify(0, text("Notch")));
    let e = store.get(0).expect("live");
    assert_eq!(e.player.username, text("Notch"));
    assert_eq!(e.phase, Phase::Identified);
    assert_eq!(e.stream, 1);
}

#[test]
fn identify_happens_once() {
    let mut store = Store::new(2);
    store.create(1).expect("room");
    assert!(store.identify(0, text("Notch")));
    assert!(!store.identify(0, text("Other")));
    assert_eq!(store.get(0).expect("live").player.username, text("Notch"));
    assert!(store.activate(0));
    assert!(!store.identify(0, text("Other")));
    assert_eq!(store.get(0).expect("live").player.username, text("Notch"));
    assert!(!store.identify(1, text("Nobody")));
    assert!(store.get(1).is_none());
}

#[test]
fn phases_follow_one_another() {
    let mut store = Store::new(2);
    store.create(1).expect("room");
    assert_eq!(store.phase(0), Phase::Connecting);
    assert!(!store.activate(0));
    assert_eq!(store.phase(0), Phase::Connecting);
    assert!(store.identify(0, text("a")));
    assert_eq!(store.phase(0), Phase::Identified);
    assert!(store.activate(0));
    assert_eq!(store.phase(0), Phase::Active);
    assert!(!store.activate(0));
    assert_eq!(store.phase(0), Phase::Active);
    assert_eq!(store.destroy(0), Some(1));
    assert_eq!(store.phase(0), Phase::Disconnected);
    assert!(!store.activate(0));
}

#[test]
fn relocate_records_the_step() {
    let mut store = Store::new(2);
    store.create(1).expect("room");
    let step = store.relocate(0, Pos { x: 100, y: -50, z: 7 }, Rotation { yaw: 9, pitch: 8 });
    assert_eq!(step, Some(DeltaVel { dx: 100, dy: -50, dz: 7 }));
    let step = store.relocate(0, Pos { x: 90, y: -50, z: 10 }, Rotation { yaw: 1, pitch: 2 });
    assert_eq!(step, Some(DeltaVel { dx: -10, dy: 0, dz: 3 }));
    let e = store.get(0).expect("live");
    assert_eq!(e.pos, Pos { x: 90, y: -50, z: 10 });
    assert_eq!(e.rot, Rotation { yaw: 1, pitch: 2 });
    assert_eq!(e.delta, DeltaVel { dx: -10, dy: 0, dz: 3 });
    assert_eq!(e.phase, Phase::Connecting);
    assert_eq!(store.relocate(1, Pos { x: 0, y: 0, z: 0 }, Rotation { yaw: 0, pitch: 0 }), None);
}

#[test]
fn relocate_across_the_whole_range() {
    let mut store = Store::new(1);
    store.create(1).expect("room");
    let far = Pos { x: i16::MAX, y: i16::MIN, z: i16::MAX };
    let back = Pos { x: i16::MIN, y: i16::MAX, z: i16::MAX };
    store.relocate(0, far, Rotation { yaw: 0, pitch: 0 });
    let step = store.relocate(0, back, Rotation { yaw: 0, pitch: 0 });
    assert_eq!(step, Some(DeltaVel { dx: -65535, dy: 65535, dz: 0 }));
}

#[test]
fn eligibility_is_recorded() {
    let mut store = Store::new(2);
    store.create(1).expect("room");
    store.identify(0, text("Notch"));
    assert!(store.set_eligibility(0, true, false));
    let p = &store.get(0).expect("live").player;
    assert_eq!((p.whitelisted, p.banned), (true, false));
    assert_eq!(p.username, text("Notch"));
    assert!(store.set_eligibility(0, false, true));
    let p = &store.get(0).expect("live").player;
    assert_eq!((p.whitelisted, p.banned), (false, true));
    assert!(!store.set_eligibility(1, true, true));
}

#[test]
fn only_active_entities_count_as_players() {
    let mut store = Store::new(5);
    for stream in 0..5 {
        store.create(stream).expect("room");
    }
    for id in 1..5 {
        store.identify(id, text("p"));
    }
    for id in 2..5 {
        store.activate(id);
    }
    store.destroy(3);
    assert_eq!(store.ids(), vec![0, 1, 2, 4]);
    assert_eq!(store.active_ids(), vec![2, 4]);
    assert_eq!(store.active_count(), 2);
}

#[test]
fn delta_fits_in_bytes_at_the_edges() {
    assert!(DeltaVel { dx: 127, dy: -128, dz: 0 }.fits_in_bytes());
    assert!(!DeltaVel { dx: 128, dy: 0, dz: 0 }.fits_in_bytes());
    assert!(!DeltaVel { dx: 0, dy: -129, dz: 0 }.fits_in_bytes());
    assert!(!DeltaVel { dx: 0, dy: 0, dz: 65535 }.fits_in_bytes());
    assert_eq!(
        Pos { x: 5, y: 5, z: 5 }.since(&Pos { x: 7, y: 5, z: -5 }),
        DeltaVel { dx: -2, dy: 0, dz: 10 }
    );
}

#[test]
fn owner_of_a_stream_is_found() {
    let mut store = Store::new(4);
    store.create(70).expect("room");
    store.create(71).expect("room");
    store.create(72).expect("room");
    assert_eq!(store.owner_of(71), Some(1));
    assert_eq!(store.owner_of(73), None);
    store.destroy(1);
    assert_eq!(store.owner_of(71), None);
    assert_eq!(store.create(80), Ok(1));
    assert_eq!(store.owner_of(80), Some(1));
    assert_eq!(store.owner_of(72), Some(2));
}
