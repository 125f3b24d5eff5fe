use akd_quorum::storage::{CacheStats, InMemoryDbWithCache, StorageError, Table};

fn s(x: &str) -> String {
    x.to_string()
}

#[test]
fn set_then_get() {
    let mut db = InMemoryDbWithCache::new();
    assert_eq!(db.set(s("a"), s("1")), Ok(()));
    assert_eq!(db.set(s("a"), s("2")), Ok(()));
    assert_eq!(db.get(s("a")), Ok(s("2")));
    assert_eq!(db.get(s("b")), Err(StorageError::GetError));
    assert_eq!(
        db.stats(),
        CacheStats { calls_to_cache_set: 2, calls_to_cache_get: 2, calls_to_db_get: 1 }
    );
}

#[test]
fn clear_stats_flushes_cache() {
    let mut db = InMemoryDbWithCache::new();
    db.set(s("k"), s("v")).unwrap();
    db.set(s("j"), s("w")).unwrap();
    db.clear_stats();
    assert_eq!(db.stats(), CacheStats { calls_to_cache_set: 0, calls_to_cache_get: 0, calls_to_db_get: 0 });
    assert_eq!(db.cache.len(), 0);
    assert_eq!(db.db.len(), 2);
    assert_eq!(db.get(s("k")), Ok(s("v")));
    assert_eq!(db.stats().calls_to_db_get, 1);
    assert_eq!(db.cache.len(), 1);
    assert_eq!(db.get(s("k")), Ok(s("v")));
    assert_eq!(db.stats().calls_to_db_get, 1);
    assert_eq!(db.stats().calls_to_cache_get, 2);
}

#[test]
fn cache_overrides_table() {
    let mut db = InMemoryDbWithCache::new();
    db.set(s("k"), s("old")).unwrap();
    db.clear_stats();
    db.set(s("k"), s("new")).unwrap();
    assert_eq!(db.get(s("k")), Ok(s("new")));
    db.clear_stats();
    assert_eq!(db.db.get(&s("k")), Some(s("new")));
    assert_eq!(db.db.len(), 1);
}

#[test]
fn table_replaces_values() {
    let mut t = Table::new();
    t.insert(s("x"), s("1"));
    t.insert(s("y"), s("2"));
    t.insert(s("x"), s("3"));
    assert_eq!(t.len(), 2);
    assert_eq!(t.get(&s("x")), Some(s("3")));
    assert_eq!(t.get(&s("z")), None);
    t.clear();
    assert_eq!(t.len(), 0);
}

#[test]
fn length_distribution_by_bytes() {
    let mut db = InMemoryDbWithCache::new();
    assert_eq!(db.length_distribution(), vec![]);
    db.set(s("p"), s("bb")).unwrap();
    db.set(s("q"), s("a")).unwrap();
    db.set(s("r"), s("cc")).unwrap();
    db.set(s("t"), s("\u{e9}")).unwrap();
    db.set(s("u"), s("dddd")).unwrap();
    assert_eq!(db.length_distribution(), vec![(1, 1), (2, 3), (4, 1)]);
}

#[test]
fn evmap_store_replaces_values() {
    let mut db = akd_quorum::memory::InMemoryDatabase::new();
    assert_eq!(db.get(s("a")), Err(StorageError::GetError));
    assert_eq!(db.set(s("a"), s("1")), Ok(()));
    assert_eq!(db.get(s("a")), Ok(s("1")));
    assert_eq!(db.set(s("a"), s("2")), Ok(()));
    assert_eq!(db.set(s("b"), s("3")), Ok(()));
    assert_eq!(db.get(s("a")), Ok(s("2")));
    assert_eq!(db.get(s("b")), Ok(s("3")));
    assert_eq!(db.get(s("c")), Err(StorageError::GetError));
}

#[test]
fn set_writes_through_to_table() {
    let mut db = InMemoryDbWithCache::new();
    db.set(s("k"), s("v")).unwrap();
    assert_eq!(db.db.get(&s("k")), Some(s("v")));
    assert_eq!(db.cache.get(&s("k")), Some(s("v")));
    db.set(s("k"), s("w")).unwrap();
    assert_eq!(db.db.get(&s("k")), Some(s("w")));
    assert_eq!(db.db.len(), 1);
    assert_eq!(db.stats().calls_to_db_get, 0);
}
