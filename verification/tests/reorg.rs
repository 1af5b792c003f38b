use rindexer_core::reorg::{reorg_safe_distance_for_chain, ChainId, MAINNET_SAFE_DISTANCE};

#[test]
fn safe_distance_by_chain() {
    assert_eq!(MAINNET_SAFE_DISTANCE, 12);
    assert_eq!(reorg_safe_distance_for_chain(&ChainId::from_u64(1)), 12);
    assert_eq!(reorg_safe_distance_for_chain(&ChainId::from_u64(10)), 5);
    assert_eq!(reorg_safe_distance_for_chain(&ChainId::from_u64(8453)), 5);
    assert_eq!(reorg_safe_distance_for_chain(&ChainId::from_u64(42161)), 3);
    assert_eq!(reorg_safe_distance_for_chain(&ChainId::from_u64(324)), 1);
    assert_eq!(reorg_safe_distance_for_chain(&ChainId::from_u64(0)), 0);
    assert_eq!(reorg_safe_distance_for_chain(&ChainId::from_u64(137)), 0);
    assert_eq!(reorg_safe_distance_for_chain(&ChainId::from_u64(u64::MAX)), 0);
}

#[test]
fn chain_ids_above_64_bits_are_unknown_chains() {
    assert_eq!(ChainId::from_u64(1), ChainId { words: [1, 0, 0, 0] });
    assert_eq!(reorg_safe_distance_for_chain(&ChainId { words: [1, 1, 0, 0] }), 0);
    assert_eq!(reorg_safe_distance_for_chain(&ChainId { words: [1, 0, 1, 0] }), 0);
    assert_eq!(reorg_safe_distance_for_chain(&ChainId { words: [1, 0, 0, 1] }), 0);
}
