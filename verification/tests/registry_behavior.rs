use persistent_kameo::bimap::{BiKey, BiMap};
use persistent_kameo::counter::{CounterArgs, LocalRuntime};
use persistent_kameo::handles::WeakHandle;
use persistent_kameo::keys::PersistenceKey;
use persistent_kameo::registry::Registry;
use persistent_kameo::runtime::ActorRuntime;

fn key(path: &str) -> PersistenceKey {
    PersistenceKey::new("file".to_string(), path.to_string())
}

#[test]
fn bimap_insert_reports_evictions() {
    let mut m: BiMap<PersistenceKey, WeakHandle> = BiMap::new();
    assert!(m.insert(key("/a"), WeakHandle { id: 1 }).is_none());
    assert!(m.insert(key("/b"), WeakHandle { id: 2 }).is_none());
    assert_eq!(m.len(), 2);
    // replacing the handle under /a evicts the old pair
    let evicted = m.insert(key("/a"), WeakHandle { id: 3 }).unwrap();
    assert_eq!(evicted.0.path, "/a");
    assert_eq!(evicted.1, WeakHandle { id: 1 });
    assert_eq!(m.len(), 2);
    // moving handle 2 to a new key evicts its old pair by the right side
    let evicted = m.insert(key("/c"), WeakHandle { id: 2 }).unwrap();
    assert_eq!(evicted.0.path, "/b");
    assert_eq!(evicted.1, WeakHandle { id: 2 });
    assert_eq!(m.len(), 2);
}

#[test]
fn bimap_insert_evicts_both_sides_at_once() {
    let mut m: BiMap<PersistenceKey, WeakHandle> = BiMap::new();
    m.insert(key("/a"), WeakHandle { id: 1 });
    m.insert(key("/b"), WeakHandle { id: 2 });
    // the new pair shares its key with one pair and its handle with the
    // other: both are evicted, the one sharing the key is returned
    let evicted = m.insert(key("/a"), WeakHandle { id: 2 }).unwrap();
    assert_eq!(evicted.0.path, "/a");
    assert_eq!(evicted.1, WeakHandle { id: 1 });
    assert_eq!(m.len(), 1);
    assert!(m.get_by_right(&WeakHandle { id: 1 }).is_none());
    assert_eq!(m.get_by_left(&key("/a")), Some(&WeakHandle { id: 2 }));
    assert!(m.get_by_left(&key("/b")).is_none());
}

#[test]
fn bimap_lookup_both_sides() {
    let mut m: BiMap<PersistenceKey, WeakHandle> = BiMap::new();
    m.insert(key("/a"), WeakHandle { id: 7 });
    assert_eq!(m.get_by_left(&key("/a")), Some(&WeakHandle { id: 7 }));
    assert!(m.get_by_left(&key("/b")).is_none());
    assert_eq!(m.get_by_right(&WeakHandle { id: 7 }).unwrap().path, "/a");
    assert!(m.get_by_right(&WeakHandle { id: 8 }).is_none());
}

#[test]
fn distinct_keys_resolve_independently() {
    let mut rt = LocalRuntime::new();
    let mut reg = Registry::new();
    let h1 = rt.spawn(CounterArgs { x: 1 });
    let h2 = rt.spawn(CounterArgs { x: 2 });
    reg.register_persistent(key("/k1"), &h1).unwrap();
    reg.register_persistent(key("/k2"), &h2).unwrap();
    let f1 = reg.lookup_persistent(&rt, &key("/k1")).unwrap();
    let f2 = reg.lookup_persistent(&rt, &key("/k2")).unwrap();
    assert_eq!(f1.id, h1.id);
    assert_eq!(f2.id, h2.id);
}

#[test]
fn same_key_resolves_to_latest_handle_only() {
    let mut rt = LocalRuntime::new();
    let mut reg = Registry::new();
    let h1 = rt.spawn(CounterArgs { x: 1 });
    let h2 = rt.spawn(CounterArgs { x: 2 });
    reg.register_persistent(key("/k"), &h1).unwrap();
    reg.register_persistent(key("/k"), &h2).unwrap();
    let found = reg.lookup_persistent(&rt, &key("/k")).unwrap();
    assert_eq!(found.id, h2.id);
    // the evicted handle is gone from both directions, h1 still alive
    assert!(reg.persistence_key(&h1).is_none());
    assert_eq!(reg.persistence_key(&h2).unwrap().path, "/k");
}

#[test]
fn lookup_is_none_after_termination_though_entry_remains() {
    let mut rt = LocalRuntime::new();
    let mut reg = Registry::new();
    let h = rt.spawn(CounterArgs { x: 5 });
    reg.register_persistent(key("/k"), &h).unwrap();
    assert!(reg.lookup_persistent(&rt, &key("/k")).is_some());
    rt.terminate(h.id);
    // the entry is still physically present, but it no longer upgrades
    assert_eq!(reg.lookup_weak(&key("/k")), Some(WeakHandle { id: h.id }));
    assert!(reg.lookup_persistent(&rt, &key("/k")).is_none());
}

#[test]
fn keys_parse_into_scheme_and_path() {
    let k = PersistenceKey::from_locator("file:///tmp/t1").unwrap();
    assert_eq!(k.scheme, "file");
    assert_eq!(k.path, "/tmp/t1");
    assert!(k.is_file_scheme());
    let k = PersistenceKey::from_locator("s3://bucket/obj").unwrap();
    assert_eq!(k.scheme, "s3");
    assert!(!k.is_file_scheme());
    assert!(PersistenceKey::from_locator("not a locator").is_none());
}

#[test]
fn key_duplicates_compare_equal() {
    let k = key("/tmp/x");
    let d = k.dup();
    assert!(k.exact_eq(&d));
    assert!(!k.exact_eq(&key("/tmp/y")));
}
