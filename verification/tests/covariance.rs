use physure::covariance::{age_limit, block_key, expired_ids, prune_blocks, prune_ledger};

#[test]
fn prune_by_age_removes_stale_blocks() {
    let ledger = vec![(0u64, 1u64), (1u64, 9u64)];
    let limit = age_limit(10, 2);
    assert_eq!(limit, 8);
    let expired = expired_ids(&ledger, limit);
    assert_eq!(expired, vec![0]);
    let mut blocks = vec![((0u64, 0u64), "b00"), ((0, 1), "b01"), ((1, 1), "b11")];
    prune_blocks(&mut blocks, &expired);
    assert_eq!(blocks, vec![((1, 1), "b11")]);
    assert_eq!(prune_ledger(&ledger, &expired), vec![(1, 9)]);
}

#[test]
fn prune_by_age_no_op_when_nothing_expired() {
    let ledger = vec![(0u64, 5u64)];
    let expired = expired_ids(&ledger, age_limit(5, 100));
    assert!(expired.is_empty());
    let mut blocks = vec![((0u64, 0u64), 1.0f64)];
    prune_blocks(&mut blocks, &expired);
    assert_eq!(blocks.len(), 1);
}

#[test]
fn block_keys_put_the_smaller_id_first() {
    assert_eq!(block_key(3, 7), ((3, 7), false));
    assert_eq!(block_key(7, 3), ((3, 7), true));
    assert_eq!(block_key(4, 4), ((4, 4), false));
    assert_eq!(age_limit(3, 10), 0);
}
