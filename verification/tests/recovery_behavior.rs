use persistent_kameo::counter::{Counter, CounterArgs, CounterSnapshot, LocalRuntime};
use persistent_kameo::errors::PersistenceError;
use persistent_kameo::keys::PersistenceKey;
use persistent_kameo::recovery::{respawn_persistent, save_snapshot, spawn_persistent,
    try_respawn_persistent};
use persistent_kameo::registry::Registry;
use persistent_kameo::runtime::ActorRuntime;
use persistent_kameo::snapshot::snapshot_round_trip;
use persistent_kameo::storage::{MemStorage, PathState, StorageBackend, payload_path, plan_read,
    plan_write};

fn key(path: &str) -> PersistenceKey {
    PersistenceKey::new("file".to_string(), path.to_string())
}

#[test]
fn snapshot_round_trips_through_the_codec() {
    let s = CounterSnapshot { x: 42 };
    assert_eq!(snapshot_round_trip::<Counter>(&s), Some(s));
    let s = CounterSnapshot { x: 0 };
    assert_eq!(snapshot_round_trip::<Counter>(&s), Some(s));
    let s = CounterSnapshot { x: u64::MAX };
    assert_eq!(snapshot_round_trip::<Counter>(&s), Some(s));
}

#[test]
fn try_respawn_starts_fresh_then_recovers_saved_state() {
    let mut rt = LocalRuntime::new();
    let mut reg = Registry::new();
    let mut st = MemStorage::new();
    // no prior snapshot: the caller's arguments back the new actor
    let h = try_respawn_persistent::<Counter, LocalRuntime, MemStorage>(
        &mut rt,
        &st,
        &mut reg,
        key("/tmp/t1"),
        CounterArgs { x: 1 },
    )
    .unwrap();
    assert_eq!(rt.last_args_of(h.id), Some(CounterArgs { x: 1 }));
    // nothing was written automatically
    assert!(st.read(&key("/tmp/t1")).is_err());
    // an explicit save stores the encoded snapshot
    save_snapshot::<Counter, MemStorage>(&Counter { x: 1 }, &reg, &mut st, &h).unwrap();
    assert!(st.read(&key("/tmp/t1")).is_ok());
    // a cleared registry recovers the state from storage alone
    let mut reg2 = Registry::new();
    let h2 = respawn_persistent::<Counter, LocalRuntime, MemStorage>(
        &mut rt,
        &st,
        &mut reg2,
        key("/tmp/t1"),
    )
    .unwrap();
    assert_eq!(rt.last_args_of(h2.id), Some(CounterArgs { x: 1 }));
    assert_ne!(h2.id, h.id);
}

#[test]
fn respawn_reuses_a_live_actor_without_storage() {
    let mut rt = LocalRuntime::new();
    let mut reg = Registry::new();
    let st = MemStorage::new();
    let h = spawn_persistent::<Counter, LocalRuntime>(
        &mut rt,
        &mut reg,
        key("/tmp/live"),
        CounterArgs { x: 9 },
    )
    .unwrap();
    // storage holds nothing, yet the live actor is found and reused
    let again = respawn_persistent::<Counter, LocalRuntime, MemStorage>(
        &mut rt,
        &st,
        &mut reg,
        key("/tmp/live"),
    )
    .unwrap();
    assert_eq!(again.id, h.id);
}

#[test]
fn try_respawn_prefers_the_live_actor_over_defaults() {
    let mut rt = LocalRuntime::new();
    let mut reg = Registry::new();
    let st = MemStorage::new();
    let h = spawn_persistent::<Counter, LocalRuntime>(
        &mut rt,
        &mut reg,
        key("/tmp/live"),
        CounterArgs { x: 9 },
    )
    .unwrap();
    let again = try_respawn_persistent::<Counter, LocalRuntime, MemStorage>(
        &mut rt,
        &st,
        &mut reg,
        key("/tmp/live"),
        CounterArgs { x: 100 },
    )
    .unwrap();
    // the live actor is reused: same handle, nothing spawned from defaults
    assert_eq!(again.id, h.id);
    assert_eq!(rt.last_args_of(h.id), Some(CounterArgs { x: 9 }));
}

#[test]
fn respawn_fails_without_snapshot_or_live_actor() {
    let mut rt = LocalRuntime::new();
    let mut reg = Registry::new();
    let st = MemStorage::new();
    let r = respawn_persistent::<Counter, LocalRuntime, MemStorage>(
        &mut rt,
        &st,
        &mut reg,
        key("/tmp/absent"),
    );
    assert_eq!(r.unwrap_err(), PersistenceError::StorageRead);
}

#[test]
fn respawn_rejects_an_unsupported_scheme() {
    let mut rt = LocalRuntime::new();
    let mut reg = Registry::new();
    let st = MemStorage::new();
    let k = PersistenceKey::new("s3".to_string(), "/bucket/x".to_string());
    let r = respawn_persistent::<Counter, LocalRuntime, MemStorage>(&mut rt, &st, &mut reg, k);
    assert_eq!(r.unwrap_err(), PersistenceError::UnsupportedLocator);
}

#[test]
fn respawn_reports_undecodable_bytes() {
    let mut rt = LocalRuntime::new();
    let mut reg = Registry::new();
    let mut st = MemStorage::new();
    // an empty payload is not a valid snapshot encoding
    st.write(&key("/tmp/bad"), &Vec::new()).unwrap();
    let r = respawn_persistent::<Counter, LocalRuntime, MemStorage>(
        &mut rt,
        &st,
        &mut reg,
        key("/tmp/bad"),
    );
    assert_eq!(r.unwrap_err(), PersistenceError::Decode);
}

#[test]
fn try_respawn_absorbs_every_failure() {
    let mut rt = LocalRuntime::new();
    let mut reg = Registry::new();
    let mut st = MemStorage::new();
    st.write(&key("/tmp/bad"), &Vec::new()).unwrap();
    // corrupt snapshot: degrades to the caller's arguments, no error
    let h = try_respawn_persistent::<Counter, LocalRuntime, MemStorage>(
        &mut rt,
        &st,
        &mut reg,
        key("/tmp/bad"),
        CounterArgs { x: 3 },
    )
    .unwrap();
    assert_eq!(rt.last_args_of(h.id), Some(CounterArgs { x: 3 }));
    // unsupported scheme: same graceful fallback
    let k = PersistenceKey::new("s3".to_string(), "/b/x".to_string());
    let h = try_respawn_persistent::<Counter, LocalRuntime, MemStorage>(
        &mut rt,
        &st,
        &mut reg,
        k,
        CounterArgs { x: 4 },
    )
    .unwrap();
    assert_eq!(rt.last_args_of(h.id), Some(CounterArgs { x: 4 }));
}

#[test]
fn save_snapshot_on_nonpersistent_actor_is_a_noop() {
    let mut rt = LocalRuntime::new();
    let reg = Registry::new();
    let mut st = MemStorage::new();
    let h = rt.spawn(CounterArgs { x: 8 });
    // no registry entry: success, and nothing reaches storage
    save_snapshot::<Counter, MemStorage>(&Counter { x: 8 }, &reg, &mut st, &h).unwrap();
    assert!(st.read(&key("/tmp/none")).is_err());
}

#[test]
fn save_snapshot_rejects_an_unsupported_scheme() {
    let mut rt = LocalRuntime::new();
    let mut reg = Registry::new();
    let mut st = MemStorage::new();
    let h = rt.spawn(CounterArgs { x: 2 });
    let k = PersistenceKey::new("s3".to_string(), "/b/x".to_string());
    reg.register_persistent(k, &h).unwrap();
    let r = save_snapshot::<Counter, MemStorage>(&Counter { x: 2 }, &reg, &mut st, &h);
    assert_eq!(r.unwrap_err(), PersistenceError::UnsupportedLocator);
}

#[test]
fn write_plans_guard_the_path_state() {
    let k = key("/tmp/t1");
    // a path that exists as a plain file fails before anything is written
    let r = plan_write(&k, &PathState::OtherFile);
    assert_eq!(r.unwrap_err(), PersistenceError::NotADirectory);
    let plan = plan_write(&k, &PathState::Missing).unwrap();
    assert!(plan.create_directory);
    assert_eq!(plan.payload_file, "/tmp/t1/index.bin");
    let plan = plan_write(&k, &PathState::Directory).unwrap();
    assert!(!plan.create_directory);
    let s3 = PersistenceKey::new("s3".to_string(), "/b".to_string());
    let r = plan_write(&s3, &PathState::Directory);
    assert_eq!(r.unwrap_err(), PersistenceError::UnsupportedLocator);
}

#[test]
fn read_plans_guard_the_path_state() {
    let k = key("/tmp/t1");
    assert_eq!(plan_read(&k, &PathState::Directory).unwrap(), "/tmp/t1/index.bin");
    assert_eq!(plan_read(&k, &PathState::Missing).unwrap_err(), PersistenceError::StorageRead);
    let s3 = PersistenceKey::new("s3".to_string(), "/b".to_string());
    assert_eq!(
        plan_read(&s3, &PathState::Directory).unwrap_err(),
        PersistenceError::UnsupportedLocator
    );
    assert_eq!(payload_path(&k), "/tmp/t1/index.bin");
}

#[test]
fn stored_bytes_read_back_exactly() {
    let mut st = MemStorage::new();
    let payload: Vec<u8> = vec![1, 2, 3];
    st.write(&key("/a"), &payload).unwrap();
    assert_eq!(st.read(&key("/a")).unwrap(), vec![1, 2, 3]);
    // the latest write wins
    let payload: Vec<u8> = vec![9];
    st.write(&key("/a"), &payload).unwrap();
    assert_eq!(st.read(&key("/a")).unwrap(), vec![9]);
    assert!(st.read(&key("/b")).is_err());
}
