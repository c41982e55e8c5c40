use esnode_core::tsdb::{plan_prune, StoredRecord};

fn rec(ts_ms: u64, size_bytes: u64) -> StoredRecord {
    StoredRecord { ts_ms, size_bytes }
}

#[test]
fn prune_drops_expired_then_oldest_until_it_fits() {
    let rs = vec![rec(0, 10), rec(1_000, 10), rec(5_000, 10), rec(6_000, 10)];
    // Retention 2 s at t = 6 s: the first two are expired; 20 bytes left fit in 25.
    assert_eq!(plan_prune(&rs, 6_000, 2_000, 25), 2);
    // Only 15 bytes allowed: one more of the oldest goes.
    assert_eq!(plan_prune(&rs, 6_000, 2_000, 15), 3);
    // Nothing expired, everything fits.
    assert_eq!(plan_prune(&rs, 6_000, 10_000, 100), 0);
    // Nothing fits at all.
    assert_eq!(plan_prune(&rs, 6_000, 10_000, 0), 4);
    assert_eq!(plan_prune(&vec![], 0, 0, 0), 0);
}
