use web3dater::block::{BlockRecord, TargetDate};
use web3dater::error::ResolveError;
use web3dater::estimator::{average_block_time, diff_at_least, diff_more_than, window_start, AvgBlockTime};
use web3dater::num::round_div;
use web3dater::predictor::predict_block_number;

#[test]
fn constant_spacing_estimate_is_exactly_twelve() {
    // blocks 12 seconds apart: a window of any placement yields 12.0
    let chain: Vec<BlockRecord> = (0u64..2_000)
        .map(|n| BlockRecord { number: n, timestamp: 1_000_000 + n * 12, hash: [0u8; 32] })
        .collect();
    for (first, reference, window) in [(0u64, 1_000u64, 1_000u64), (500, 1_999, 1_499), (37, 38, 1)] {
        let bt = average_block_time(
            chain[first as usize].timestamp,
            chain[reference as usize].timestamp,
            window,
        )
        .unwrap();
        assert_eq!(bt.span_seconds, 12 * bt.window_blocks);
        let rate: f64 = bt.span_seconds as f64 / bt.window_blocks as f64;
        assert!((rate - 12.0).abs() < 1e-12);
    }
}

#[test]
fn window_spanning_no_time_admits_no_rate() {
    assert!(matches!(average_block_time(5_000, 5_000, 10), Err(ResolveError::ZeroBlockTime)));
    assert!(matches!(average_block_time(6_000, 5_000, 10), Err(ResolveError::ZeroBlockTime)));
}

#[test]
fn window_below_genesis_is_an_invalid_range() {
    assert!(matches!(window_start(5, 10), Err(ResolveError::InvalidRange)));
    assert!(matches!(window_start(0, 1), Err(ResolveError::InvalidRange)));
    assert!(matches!(window_start(7, 0), Err(ResolveError::InvalidRange)));
    assert_eq!(window_start(100_000, 100_000).unwrap(), 0);
    assert_eq!(window_start(100, 10).unwrap(), 90);
}

#[test]
fn rounding_is_half_away_from_zero() {
    assert_eq!(round_div(5, 2), 3);
    assert_eq!(round_div(-5, 2), -3);
    assert_eq!(round_div(7, 2), 4);
    assert_eq!(round_div(-7, 2), -4);
    assert_eq!(round_div(59_983, 12), 4_999);
    assert_eq!(round_div(-59_983, 12), -4_999);
    assert_eq!(round_div(0, 7), 0);
    assert_eq!(round_div(1, 3), 0);
    assert_eq!(round_div(2, 3), 1);
}

#[test]
fn prediction_lands_on_the_linear_extrapolation() {
    let bt = AvgBlockTime { span_seconds: 12, window_blocks: 1 };
    // anchor at the head of a 12-second chain, target 5 seconds past block 5000
    let anchor_ts: u64 = 1_000_000 + 9_999 * 12;
    let target_ts: u64 = 1_000_000 + 5_000 * 12 + 5;
    assert_eq!(predict_block_number(9_999, anchor_ts, target_ts, &bt, 9_999), 5_000);
    // a target after the anchor moves the prediction forward, clamped at the head
    assert_eq!(predict_block_number(9_000, 1_000_000, 1_000_240, &bt, 9_999), 9_020);
    assert_eq!(predict_block_number(9_999, 1_000_000, 2_000_000, &bt, 9_999), 9_999);
    // a wildly early target clamps at genesis
    assert_eq!(predict_block_number(50, 1_000_000, 10, &bt, 9_999), 0);
}

#[test]
fn threshold_comparisons_are_exact() {
    let bt = AvgBlockTime { span_seconds: 12, window_blocks: 1 };
    // |diff| == 1200 == 100 block times: at least, but not more than
    assert!(diff_at_least(2_200, 1_000, &bt, 100));
    assert!(!diff_more_than(2_200, 1_000, &bt, 100));
    assert!(!diff_at_least(2_199, 1_000, &bt, 100));
    assert!(diff_at_least(1_000, 2_200, &bt, 100));
    // the fine threshold: 60 seconds is 5 block times exactly
    assert!(!diff_more_than(1_060, 1_000, &bt, 5));
    assert!(diff_more_than(1_061, 1_000, &bt, 5));
}

#[test]
fn target_dates_compare_by_epoch_seconds() {
    let parsed = chrono::DateTime::parse_from_rfc3339("2022-08-01T00:00:00+00:00").unwrap();
    let date = TargetDate::from_epoch_seconds(parsed.timestamp());
    assert_eq!(date.epoch_seconds, 1_659_312_000);
    let shifted = chrono::DateTime::parse_from_rfc3339("2022-08-01T02:00:00+02:00").unwrap();
    assert_eq!(TargetDate::from_epoch_seconds(shifted.timestamp()).epoch_seconds, date.epoch_seconds);
}
