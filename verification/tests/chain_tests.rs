use nightshade::chain::{
    Block, BlockHeader, BlockStatus, Bytes, ChainAdapter, CryptoHash, NoopAdapter, Tip, Weight,
};
use nightshade::throttling::ThrottlingHandler;

#[test]
fn test_tip_from_header() {
    let header = BlockHeader {
        height: 10,
        prev_hash: CryptoHash { value: 7 },
        prev_state_root: CryptoHash { value: 9 },
        timestamp: 123,
        signatures: vec![0, 0],
        total_weight: Weight { num: 3 },
    };
    let tip = Tip::from_header(&header);
    assert_eq!(tip.height, 10);
    assert_eq!(tip.prev_block_hash, CryptoHash { value: 7 });
    assert_eq!(tip.last_block_hash, CryptoHash::default());
    assert_eq!(tip.total_weight, Weight { num: 3 });
}

#[test]
fn test_block_hash_zero() {
    let header = BlockHeader {
        height: 0,
        prev_hash: CryptoHash::default(),
        prev_state_root: CryptoHash::default(),
        timestamp: 0,
        signatures: vec![],
        total_weight: Weight { num: 0 },
    };
    let block = Block { header, transactions: vec![Bytes(vec![1, 2, 3])] };
    assert_eq!(block.hash(), CryptoHash { value: 0 });
    let adapter = NoopAdapter {};
    adapter.block_accepted(&block, BlockStatus::Next);
}

#[test]
fn test_weight_ordering() {
    assert!(Weight { num: 2 } > Weight { num: 1 });
    assert_eq!(Weight { num: 2 }, Weight { num: 2 });
}

#[test]
fn test_throttling_handler_new() {
    let handler = ThrottlingHandler::new(250);
    assert_eq!(handler.max_delay_ms, 250);
}
