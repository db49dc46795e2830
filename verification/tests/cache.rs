use sequent_gateway::cache::OutputCache;

#[test]
fn new_cache_always_needs_update() {
    let cache = OutputCache::from_groups(&[4, 8]);
    assert!(cache.should_update(0, 0, 1));
    assert!(cache.should_update(0, 0, 0));
    assert!(cache.should_update(1, 7, 1));
}

#[test]
fn confirmed_state_skips_update() {
    let mut cache = OutputCache::from_groups(&[4]);
    cache.confirm(0, 0, 1);
    assert!(!cache.should_update(0, 0, 1)); // same → skip
    assert!(cache.should_update(0, 0, 0)); // different → update
}

#[test]
fn invalidated_state_forces_retry() {
    let mut cache = OutputCache::from_groups(&[4]);
    cache.confirm(0, 3, 1);
    cache.invalidate(0, 3);
    assert!(cache.should_update(0, 3, 1)); // unknown → retry
}

#[test]
fn out_of_range_returns_false() {
    let cache = OutputCache::from_groups(&[4]);
    assert!(!cache.should_update(5, 0, 1)); // bad group
    assert!(!cache.should_update(0, 99, 1)); // bad channel
}

#[test]
fn analog_write_on_change() {
    let mut cache = OutputCache::from_groups(&[4]);
    assert!(cache.should_update(0, 0, 500));
    cache.confirm(0, 0, 500);
    assert!(!cache.should_update(0, 0, 500));
    assert!(cache.should_update(0, 0, 750));
}

#[test]
fn bitmask_from_confirmed() {
    let mut cache = OutputCache::from_groups(&[16]);
    cache.confirm(0, 0, 1); // relay 1 ON
    cache.confirm(0, 2, 1); // relay 3 ON
    cache.confirm(0, 5, 0); // relay 6 OFF
    assert_eq!(cache.bitmask(0, 16), 0x0005);
}

#[test]
fn bitmask_respects_count() {
    let mut cache = OutputCache::from_groups(&[16]);
    cache.confirm(0, 0, 1);
    cache.confirm(0, 8, 1); // beyond count=8
    assert_eq!(cache.bitmask(0, 8), 0x0001);
}

#[test]
fn has_confirmed_tracks_state() {
    let mut cache = OutputCache::from_groups(&[4]);
    assert!(!cache.has_confirmed(0, 3));
    cache.confirm(0, 3, 1);
    assert!(cache.has_confirmed(0, 3));
    cache.invalidate(0, 3);
    assert!(!cache.has_confirmed(0, 3));
}

#[test]
fn multi_group_independence() {
    let mut cache = OutputCache::from_groups(&[4, 8]);
    cache.confirm(0, 0, 1);
    cache.confirm(1, 0, 500);
    assert!(!cache.should_update(0, 0, 1));
    assert!(!cache.should_update(1, 0, 500));
    assert!(cache.should_update(0, 0, 0));
    assert!(cache.should_update(1, 0, 501));
}

#[test]
fn mismatch_invalidation() {
    let mut cache = OutputCache::from_groups(&[4]);
    for i in 0..4 {
        cache.confirm(0, i, if i % 2 == 0 { 1 } else { 0 });
    }
    assert_eq!(cache.bitmask(0, 4), 0b0101);

    let actual: u16 = 0b0100; // only relay 2 is ON
    let expected = cache.bitmask(0, 4);
    let diff = actual ^ expected;
    for i in 0..4 {
        if diff & (1 << i) != 0 && cache.has_confirmed(0, i) {
            cache.invalidate(0, i);
        }
    }
    assert!(!cache.has_confirmed(0, 0)); // was ON, actual OFF → invalidated
    assert!(cache.has_confirmed(0, 1)); // both OFF → ok
    assert!(cache.has_confirmed(0, 2)); // both ON → ok
}

#[test]
fn bitmask_of_unknown_group_is_zero() {
    let mut cache = OutputCache::from_groups(&[4]);
    cache.confirm(0, 1, 1);
    assert_eq!(cache.bitmask(3, 4), 0);
    assert_eq!(cache.bitmask(0, 4), 0b0010);
}
