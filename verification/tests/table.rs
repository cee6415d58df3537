//! The player table and the probe monitor, taken on their own.

use ironvein_client::heartbeat::HeartbeatMonitor;
use ironvein_client::world::WorldState;
use ironvein_client::Player;

fn player(name: &str, x: u32, y: u32) -> Player {
    Player {
        username: name.to_string(),
        x,
        y,
        room: "r1".to_string(),
        health: 100,
        resources: 0,
    }
}

#[test]
fn upsert_overwrites_by_username() {
    let mut w = WorldState::new();
    w.upsert(player("bob", 1, 1));
    w.upsert(player("bob", 2, 2));
    w.upsert(player("carol", 3, 3));
    assert_eq!(w.len(), 2);
    let bob = w.get(&"bob".to_string()).unwrap();
    assert_eq!((bob.x, bob.y), (2, 2));
}

#[test]
fn remove_then_lookup_misses() {
    let mut w = WorldState::new();
    w.upsert(player("bob", 1, 1));
    w.remove_player(&"bob".to_string());
    assert!(w.get(&"bob".to_string()).is_none());
    assert_eq!(w.len(), 0);
    // removing an absent name is harmless
    w.remove_player(&"bob".to_string());
    assert_eq!(w.len(), 0);
}

#[test]
fn replace_all_keeps_the_last_record_of_a_repeated_username() {
    let mut w = WorldState::new();
    w.upsert(player("zed", 9, 9));
    w.replace_all(vec![player("a", 1, 1), player("a", 2, 2), player("b", 3, 3)]);
    assert_eq!(w.len(), 2);
    let a = w.get(&"a".to_string()).unwrap();
    assert_eq!((a.x, a.y), (2, 2));
    assert!(w.get(&"zed".to_string()).is_none());
}

#[test]
fn snapshot_lists_each_username_once() {
    let mut w = WorldState::new();
    w.upsert(player("a", 1, 1));
    w.upsert(player("b", 2, 2));
    w.upsert(player("a", 4, 4));
    let s = w.players_snapshot();
    assert_eq!(s.len(), 2);
    assert_ne!(s[0].username, s[1].username);
}

#[test]
fn probes_are_serialized_and_measured() {
    let mut m = HeartbeatMonitor::new();
    assert!(m.try_begin_probe(1000));
    assert!(!m.try_begin_probe(1500));
    assert_eq!(m.on_echo(1800), Some(800));
    // resolved: a new probe may go out
    assert!(m.try_begin_probe(2000));
    // a clock that stepped backwards yields zero, not nonsense
    assert_eq!(m.on_echo(1999), Some(0));
    // an echo with nothing in flight measures nothing
    assert_eq!(m.on_echo(3000), None);
    // a reset forgets the probe in flight
    assert!(m.try_begin_probe(4000));
    m.reset();
    assert_eq!(m.on_echo(5000), None);
}
