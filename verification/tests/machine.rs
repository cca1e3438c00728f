use web3dater::block::{BlockRecord, TargetDate};
use web3dater::error::ResolveError;
use web3dater::resolver::{Action, Web3Dater};

fn record(number: u64, timestamp: u64) -> BlockRecord {
    BlockRecord { number, timestamp, hash: [0u8; 32] }
}

fn constant_chain(len: u64, genesis_ts: u64, spacing: u64) -> Vec<BlockRecord> {
    (0..len).map(|n| record(n, genesis_ts + n * spacing)).collect()
}

/// Drives one resolution against an in-memory chain and counts how many
/// blocks the machine actually asked for (cache hits ask for nothing).
fn run_session(
    dater: &mut Web3Dater,
    chain: &[BlockRecord],
    epoch_seconds: i64,
    after: bool,
) -> (Result<BlockRecord, ResolveError>, usize) {
    dater.start(TargetDate::from_epoch_seconds(epoch_seconds), after);
    let mut fetches: usize = 0;
    loop {
        match dater.poll() {
            Action::Idle => panic!("session was started"),
            Action::Progress => {},
            Action::NeedHead => dater.on_head((chain.len() - 1) as u64),
            Action::NeedBlock(n) => {
                fetches += 1;
                dater.on_block(chain[n as usize]);
            },
            Action::Done(b) => return (Ok(b), fetches),
            Action::Failed(e) => return (Err(e), fetches),
        }
    }
}

#[test]
fn cache_hits_replace_fetches_without_changing_the_result() {
    let chain = constant_chain(10_000, 1_000_000, 12);
    let mut dater = Web3Dater::new();
    let target: i64 = 1_000_000 + 5_000 * 12 + 5;
    let (first, first_fetches) = run_session(&mut dater, &chain, target, true);
    assert_eq!(first.unwrap().number, 5_001);
    assert!(first_fetches > 0);
    let (second, second_fetches) = run_session(&mut dater, &chain, target, true);
    assert_eq!(second.unwrap().number, 5_001);
    assert_eq!(second_fetches, 0);
}

#[test]
fn clearing_the_cache_requeries_the_collaborator() {
    let chain = constant_chain(10_000, 1_000_000, 12);
    let mut dater = Web3Dater::new();
    let target: i64 = 1_000_000 + 5_000 * 12 + 5;
    let (_, first_fetches) = run_session(&mut dater, &chain, target, true);
    dater.clear_cache();
    assert_eq!(dater.cache_len(), 0);
    let (again, again_fetches) = run_session(&mut dater, &chain, target, true);
    assert_eq!(again.unwrap().number, 5_001);
    assert_eq!(again_fetches, first_fetches);
}

#[test]
fn a_resolution_needs_only_a_handful_of_fetches() {
    let chain = constant_chain(10_000, 1_000_000, 12);
    let mut dater = Web3Dater::new();
    let (result, fetches) = run_session(&mut dater, &chain, 1_000_000 + 5_000 * 12 + 5, false);
    assert_eq!(result.unwrap().number, 5_000);
    assert!(fetches <= 16, "took {} fetches", fetches);
}

#[test]
fn missing_block_fails_with_not_found() {
    let mut dater = Web3Dater::new();
    dater.start(TargetDate::from_epoch_seconds(1_000), true);
    assert!(matches!(dater.poll(), Action::NeedHead));
    dater.on_head(5);
    match dater.poll() {
        Action::NeedBlock(0) => dater.on_not_found(),
        other => panic!("unexpected action {:?}", other),
    }
    assert!(matches!(dater.poll(), Action::Failed(ResolveError::NotFound)));
}

#[test]
fn window_spanning_no_time_fails_with_zero_block_time() {
    // every block carries the same timestamp, so no rate can be estimated
    let chain: Vec<BlockRecord> = (0..11).map(|n| record(n, 5_000)).collect();
    let mut dater = Web3Dater::new();
    let (result, _) = run_session(&mut dater, &chain, 5_000, true);
    assert!(matches!(result, Err(ResolveError::ZeroBlockTime)));
}

#[test]
fn refinement_that_never_converges_fails_with_convergence_failure() {
    // A collaborator whose answers keep the candidate far from the target
    // while every re-anchored estimate is too flat to move it: the refine
    // loop spins in place until its iteration budget runs out.
    let head: u64 = 1_000_000;
    let t: u64 = 10_000_000_000_000;
    let far: u64 = t + 1_000_000;
    let ts_for = |n: u64| -> u64 {
        if n == 0 {
            0
        } else if n == head {
            far
        } else if n == 900_000 {
            far - 200_000
        } else if n == 499_000 {
            far - 1_000
        } else if n == 500_000 {
            far
        } else if n == 400_000 {
            far - 1_000_000_000_000
        } else {
            panic!("unexpected block request {}", n)
        }
    };
    let mut dater = Web3Dater::new();
    dater.start(TargetDate::from_epoch_seconds(t as i64), true);
    let mut steps: u64 = 0;
    loop {
        steps += 1;
        assert!(steps < 10_000, "resolution did not stop");
        match dater.poll() {
            Action::Idle => panic!("session was started"),
            Action::Progress => {},
            Action::NeedHead => dater.on_head(head),
            Action::NeedBlock(n) => dater.on_block(record(n, ts_for(n))),
            Action::Done(b) => panic!("unexpected success at block {}", b.number),
            Action::Failed(e) => {
                assert!(matches!(e, ResolveError::ConvergenceFailure));
                break;
            },
        }
    }
}

#[test]
fn reports_of_unrequested_blocks_are_ignored() {
    let chain = constant_chain(100, 1_000, 12);
    let mut dater = Web3Dater::new();
    dater.start(TargetDate::from_epoch_seconds(1_060), true);
    assert!(matches!(dater.poll(), Action::NeedHead));
    dater.on_head(99);
    match dater.poll() {
        Action::NeedBlock(n) => {
            assert_eq!(n, 0);
            // a record for a block nobody asked for changes nothing
            dater.on_block(record(42, 7));
            assert_eq!(dater.cache_len(), 0);
            assert!(matches!(dater.poll(), Action::NeedBlock(0)));
            dater.on_block(chain[0]);
        },
        other => panic!("unexpected action {:?}", other),
    }
    assert!(matches!(dater.poll(), Action::Progress));
}
