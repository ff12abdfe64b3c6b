use bevy_voronoi::cache::ViewRenderCache;

#[test]
fn empty_cache_has_no_pipeline() {
    let cache = ViewRenderCache::new();
    assert_eq!(cache.get(1, 0), None);
}

#[test]
fn entry_is_valid_until_something_changes_after_it() {
    let mut cache = ViewRenderCache::new();
    cache.record(1, 10, 700);
    assert_eq!(cache.get(1, 0), Some(700));
    assert_eq!(cache.get(1, 9), Some(700));
    assert_eq!(cache.get(1, 10), Some(700));
    assert_eq!(cache.get(1, 11), None);
    assert_eq!(cache.get(2, 0), None);
}

#[test]
fn recording_anew_refreshes_the_entry() {
    let mut cache = ViewRenderCache::new();
    cache.record(1, 10, 700);
    cache.record(2, 10, 701);
    assert_eq!(cache.get(1, 12), None);
    cache.record(1, 12, 702);
    assert_eq!(cache.get(1, 12), Some(702));
    assert_eq!(cache.get(2, 10), Some(701));
    assert_eq!(cache.get(2, 12), None);
    cache.record(1, u64::MAX, 703);
    assert_eq!(cache.get(1, u64::MAX), Some(703));
}

#[test]
fn cleared_cache_forgets_every_mesh() {
    let mut cache = ViewRenderCache::new();
    cache.record(1, 10, 700);
    cache.record(2, 11, 701);
    cache.clear();
    assert_eq!(cache.get(1, 0), None);
    assert_eq!(cache.get(2, 0), None);
    cache.record(2, 1, 5);
    assert_eq!(cache.get(2, 1), Some(5));
}
