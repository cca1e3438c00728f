use web3dater::block::{BlockRecord, TargetDate};
use web3dater::error::ResolveError;
use web3dater::resolver::Web3Dater;

fn synthetic_chain(len: u64, genesis_ts: u64, spacing: u64) -> Vec<BlockRecord> {
    let mut chain: Vec<BlockRecord> = Vec::new();
    let mut number: u64 = 0;
    while number < len {
        chain.push(BlockRecord {
            number,
            timestamp: genesis_ts + number * spacing,
            hash: [0u8; 32],
        });
        number += 1;
    }
    chain
}

#[test]
fn scenario_a_after_returns_next_block() {
    let chain = synthetic_chain(10_000, 1_000_000, 12);
    let mut dater = Web3Dater::new();
    let target = TargetDate::from_epoch_seconds((1_000_000 + 5_000 * 12 + 5) as i64);
    let block = dater.resolve_block_by_date(&chain, target, true).unwrap();
    assert_eq!(block.number, 5_001);
}

#[test]
fn scenario_a_before_returns_previous_block() {
    let chain = synthetic_chain(10_000, 1_000_000, 12);
    let mut dater = Web3Dater::new();
    let target = TargetDate::from_epoch_seconds((1_000_000 + 5_000 * 12 + 5) as i64);
    let block = dater.resolve_block_by_date(&chain, target, false).unwrap();
    assert_eq!(block.number, 5_000);
}

#[test]
fn scenario_b_exact_timestamp_returns_that_block() {
    let chain = synthetic_chain(10_000, 1_000_000, 12);
    let mut dater = Web3Dater::new();
    let target = TargetDate::from_epoch_seconds((1_000_000 + 7_777 * 12) as i64);
    let ceiling = dater.resolve_block_by_date(&chain, target, true).unwrap();
    let floor = dater.resolve_block_by_date(&chain, target, false).unwrap();
    assert_eq!(ceiling.number, 7_777);
    assert_eq!(floor.number, 7_777);
}

#[test]
fn scenario_b_exact_timestamp_at_head_and_genesis() {
    let chain = synthetic_chain(10_000, 1_000_000, 12);
    let mut dater = Web3Dater::new();
    let head_ts = TargetDate::from_epoch_seconds((1_000_000 + 9_999 * 12) as i64);
    assert_eq!(dater.resolve_block_by_date(&chain, head_ts, true).unwrap().number, 9_999);
    assert_eq!(dater.resolve_block_by_date(&chain, head_ts, false).unwrap().number, 9_999);
    let genesis_ts = TargetDate::from_epoch_seconds(1_000_000);
    assert_eq!(dater.resolve_block_by_date(&chain, genesis_ts, true).unwrap().number, 0);
    assert_eq!(dater.resolve_block_by_date(&chain, genesis_ts, false).unwrap().number, 0);
}

#[test]
fn scenario_c_out_of_range_is_deterministic() {
    let chain = synthetic_chain(10_000, 1_000_000, 12);
    let mut dater = Web3Dater::new();
    let before = TargetDate::from_epoch_seconds(999_999);
    let after_head = TargetDate::from_epoch_seconds((1_000_000 + 9_999 * 12 + 1) as i64);
    let negative = TargetDate::from_epoch_seconds(-5);
    for flag in [true, false] {
        let r1 = dater.resolve_block_by_date(&chain, before, flag);
        assert!(matches!(r1, Err(ResolveError::OutOfRange)));
        let r2 = dater.resolve_block_by_date(&chain, after_head, flag);
        assert!(matches!(r2, Err(ResolveError::OutOfRange)));
        let r3 = dater.resolve_block_by_date(&chain, negative, flag);
        assert!(matches!(r3, Err(ResolveError::OutOfRange)));
    }
}

#[test]
fn repeated_calls_return_identical_results() {
    let chain = synthetic_chain(10_000, 1_000_000, 12);
    let mut dater = Web3Dater::new();
    let target = TargetDate::from_epoch_seconds((1_000_000 + 1_234 * 12 + 3) as i64);
    let first = dater.resolve_block_by_date(&chain, target, true).unwrap();
    assert!(dater.cache_len() > 0);
    let second = dater.resolve_block_by_date(&chain, target, true).unwrap();
    assert_eq!(first.number, second.number);
    assert_eq!(first.timestamp, second.timestamp);
    dater.clear_cache();
    assert_eq!(dater.cache_len(), 0);
    let third = dater.resolve_block_by_date(&chain, target, true).unwrap();
    assert_eq!(first.number, third.number);
    assert_eq!(first.timestamp, third.timestamp);
}

#[test]
fn single_block_chain_resolves_its_own_timestamp() {
    let chain = synthetic_chain(1, 500, 12);
    let mut dater = Web3Dater::new();
    let target = TargetDate::from_epoch_seconds(500);
    assert_eq!(dater.resolve_block_by_date(&chain, target, true).unwrap().number, 0);
    assert_eq!(dater.resolve_block_by_date(&chain, target, false).unwrap().number, 0);
    let off = TargetDate::from_epoch_seconds(501);
    assert!(matches!(dater.resolve_block_by_date(&chain, off, true), Err(ResolveError::OutOfRange)));
}

#[test]
fn irregular_strictly_increasing_chain_resolves_exactly() {
    let mut chain: Vec<BlockRecord> = Vec::new();
    let mut ts: u64 = 10_000;
    for number in 0u64..4_000 {
        ts += 1 + (number * number) % 37;
        chain.push(BlockRecord { number, timestamp: ts, hash: [0u8; 32] });
    }
    let mut dater = Web3Dater::new();
    let probe = chain[2_345].timestamp + 1;
    let target = TargetDate::from_epoch_seconds(probe as i64);
    match dater.resolve_block_by_date(&chain, target, false) {
        Ok(b) => {
            assert!(b.timestamp <= probe);
            assert!(chain[(b.number + 1) as usize].timestamp > probe);
        },
        Err(e) => assert!(matches!(e, ResolveError::ConvergenceFailure)),
    }
    match dater.resolve_block_by_date(&chain, target, true) {
        Ok(b) => {
            assert!(b.timestamp >= probe);
            assert!(chain[(b.number - 1) as usize].timestamp < probe);
        },
        Err(e) => assert!(matches!(e, ResolveError::ConvergenceFailure)),
    }
}
