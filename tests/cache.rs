use zone_stream::room_graph::RoomGraph;
use zone_stream::zone_cache::{CacheEffect, ZoneCache};

fn cache_all_loadable() -> ZoneCache {
    ZoneCache::new(RoomGraph::new(), vec![true, true, true])
}

fn preload_keys(c: &ZoneCache) -> Vec<usize> {
    (0..3).filter(|z| c.preloaded(*z).is_some()).collect()
}

fn destroys(effects: &[CacheEffect], handle: u64) -> usize {
    effects
        .iter()
        .filter(|e| **e == CacheEffect::Destroy { handle })
        .count()
}

#[test]
fn first_activation_instantiates_attaches_and_preloads() {
    let mut c = cache_all_loadable();
    let mut log = Vec::new();
    let h = c.activate(0, &mut log);
    assert_eq!(h, Some(0));
    assert_eq!(c.current_zone(), Some(0));
    assert_eq!(c.current_instance(), Some(0));
    assert_eq!(
        log,
        vec![
            CacheEffect::Instantiate { zone: 0, handle: 0 },
            CacheEffect::Attach { handle: 0 },
            CacheEffect::Instantiate { zone: 1, handle: 1 },
        ]
    );
    assert_eq!(preload_keys(&c), vec![1]);
}

#[test]
fn activating_the_current_zone_does_nothing() {
    let mut c = cache_all_loadable();
    let mut log = Vec::new();
    let h = c.activate(1, &mut log);
    let before = log.len();
    let again = c.activate(1, &mut log);
    assert_eq!(again, h);
    assert_eq!(log.len(), before);
    assert_eq!(c.current_instance(), h);
}

#[test]
fn activation_reuses_a_preloaded_neighbor() {
    let mut c = cache_all_loadable();
    let mut log = Vec::new();
    c.activate(0, &mut log);
    log.clear();
    let h = c.activate(1, &mut log);
    assert_eq!(h, Some(1));
    assert_eq!(
        log,
        vec![
            CacheEffect::Destroy { handle: 0 },
            CacheEffect::Attach { handle: 1 },
            CacheEffect::Instantiate { zone: 0, handle: 2 },
            CacheEffect::Instantiate { zone: 2, handle: 3 },
        ]
    );
}

#[test]
fn preloads_are_exactly_the_neighbors() {
    let mut c = cache_all_loadable();
    let mut log = Vec::new();
    c.activate(1, &mut log);
    assert_eq!(preload_keys(&c), vec![0, 2]);
    c.activate(2, &mut log);
    assert_eq!(preload_keys(&c), vec![1]);
    c.activate(0, &mut log);
    assert_eq!(preload_keys(&c), vec![1]);
}

#[test]
fn far_preload_is_destroyed_exactly_once() {
    let mut c = cache_all_loadable();
    let mut log = Vec::new();
    c.activate(1, &mut log);
    let stale = c.preloaded(0).unwrap();
    let start = log.len();
    c.activate(2, &mut log);
    assert_eq!(destroys(&log[start..], stale), 1);
    assert_eq!(c.preloaded(0), None);
    assert_ne!(c.current_instance(), Some(stale));
    let after = log.len();
    c.activate(1, &mut log);
    c.activate(0, &mut log);
    assert!(log[after..].iter().all(|e| match e {
        CacheEffect::Instantiate { handle, .. }
        | CacheEffect::Destroy { handle }
        | CacheEffect::Attach { handle } => *handle != stale,
    }));
}

#[test]
fn adjacency_is_unchanged_by_activations() {
    let mut c = cache_all_loadable();
    let before: Vec<_> = (0..4).map(|z| c.graph_ref().zone_links(z)).collect();
    let mut log = Vec::new();
    for z in [0, 1, 2, 1, 0, 5, 2] {
        c.activate(z, &mut log);
    }
    let after: Vec<_> = (0..4).map(|z| c.graph_ref().zone_links(z)).collect();
    assert_eq!(before, after);
}

#[test]
fn missing_template_fails_without_change() {
    let mut c = ZoneCache::new(RoomGraph::new(), vec![true, true, false]);
    let mut log = Vec::new();
    c.activate(1, &mut log);
    assert_eq!(preload_keys(&c), vec![0]);
    let len = log.len();
    assert_eq!(c.activate(2, &mut log), None);
    assert_eq!(log.len(), len);
    assert_eq!(c.current_zone(), Some(1));
    assert_eq!(c.activate(9, &mut log), None);
    assert_eq!(c.current_zone(), Some(1));
    assert!(!c.is_loadable(2));
    assert!(c.is_loadable(0));
}

#[test]
fn fresh_activation_replaces_the_preloaded_instance() {
    let mut c = cache_all_loadable();
    let mut log = Vec::new();
    c.activate(0, &mut log);
    log.clear();
    let h = c.activate_fresh(1, &mut log);
    assert_eq!(h, Some(2));
    assert_eq!(
        log,
        vec![
            CacheEffect::Destroy { handle: 1 },
            CacheEffect::Instantiate { zone: 1, handle: 2 },
            CacheEffect::Destroy { handle: 0 },
            CacheEffect::Attach { handle: 2 },
            CacheEffect::Instantiate { zone: 0, handle: 3 },
            CacheEffect::Instantiate { zone: 2, handle: 4 },
        ]
    );
    assert_eq!(preload_keys(&c), vec![0, 2]);
}
