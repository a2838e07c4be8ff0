//! Fees, groups of transactions and vote thresholds.

use timevote::fees::{FeeSchedule, MIN_TX_FEE, SATOSHIS_PER_TIME};
use timevote::partition::partition_non_conflicting;
use timevote::thresholds::{alert_threshold, fallback_quorum, vote_finality_threshold};
use timevote::types::{OutPoint, Transaction, TxInput};

fn sched() -> FeeSchedule {
    FeeSchedule::default()
}

fn assert_subtract_fee_valid(amount: u64) {
    let s = sched();
    let fee = s.required_fee_subtract(amount);
    let output = amount - fee;
    let required = s.required_fee(output);
    assert!(
        fee >= required,
        "amount={} fee={} output={} required={}",
        amount,
        fee,
        output,
        required
    );
    assert_eq!(fee + output, amount);
}

#[test]
fn test_subtract_fee_boundary_100_time() {
    let amount = 100 * SATOSHIS_PER_TIME;
    assert_subtract_fee_valid(amount);
}

#[test]
fn test_subtract_fee_boundary_1000_time() {
    assert_subtract_fee_valid(1_000 * SATOSHIS_PER_TIME);
}

#[test]
fn test_subtract_fee_boundary_10000_time() {
    assert_subtract_fee_valid(10_000 * SATOSHIS_PER_TIME);
}

#[test]
fn test_subtract_fee_various_amounts() {
    for &time in &[
        1u64, 50, 99, 100, 101, 500, 999, 1000, 1001, 5000, 9999, 10000, 50000,
    ] {
        assert_subtract_fee_valid(time * SATOSHIS_PER_TIME);
    }
}

#[test]
fn test_subtract_fee_min_fee_floor() {
    let s = sched();
    let fee = s.required_fee_subtract(MIN_TX_FEE + 1);
    assert!(fee >= MIN_TX_FEE);
}

#[test]
fn deductions_above_every_tier() {
    let bare = FeeSchedule {
        tiers: vec![],
        min_fee: 7,
    };
    assert_eq!(bare.required_fee_subtract(100_000), 100);
    assert_eq!(bare.required_fee(99_900), 99);
    assert_eq!(bare.required_fee_subtract(1_000), 7);
    let short = FeeSchedule {
        tiers: vec![(1_000, 100)],
        min_fee: 7,
    };
    assert_eq!(short.required_fee_subtract(1_000), 10);
    assert_eq!(short.required_fee_subtract(1_000_000), 1_000);
    assert_eq!(short.required_fee(999_000), 999);
}

#[test]
fn required_fee_by_tier() {
    let s = sched();
    assert_eq!(s.required_fee(0), MIN_TX_FEE);
    assert_eq!(s.required_fee(50 * SATOSHIS_PER_TIME), 50_000_000);
    assert_eq!(s.required_fee(100 * SATOSHIS_PER_TIME), 50_000_000);
    assert_eq!(s.required_fee(1_000 * SATOSHIS_PER_TIME), 250_000_000);
    assert_eq!(s.required_fee(10_000 * SATOSHIS_PER_TIME), 1_000_000_000);
}

fn make_tx(inputs: &[(u8, u32)]) -> Transaction {
    Transaction {
        version: 1,
        inputs: inputs
            .iter()
            .map(|(txid_byte, vout)| TxInput {
                previous_output: OutPoint {
                    txid: [*txid_byte; 32],
                    vout: *vout,
                },
                script_sig: vec![],
                sequence: 0,
            })
            .collect(),
        outputs: vec![],
        lock_time: 0,
        timestamp: 0,
        special_data: None,
        encrypted_memo: None,
    }
}

#[test]
fn test_partition_all_independent() {
    let txs = vec![make_tx(&[(1, 0)]), make_tx(&[(2, 0)]), make_tx(&[(3, 0)])];
    let groups = partition_non_conflicting(txs);
    assert_eq!(groups.len(), 1);
    assert_eq!(groups[0].len(), 3);
}

#[test]
fn test_partition_conflict_splits_groups() {
    let tx_a = make_tx(&[(1, 0)]);
    let tx_b = make_tx(&[(1, 0)]);
    let tx_c = make_tx(&[(2, 0)]);
    let groups = partition_non_conflicting(vec![tx_a, tx_b, tx_c]);
    assert_eq!(groups.len(), 2);
    assert_eq!(groups[0].len(), 2);
    assert_eq!(groups[1].len(), 1);
}

#[test]
fn test_partition_empty() {
    let groups = partition_non_conflicting(vec![]);
    assert!(groups.is_empty());
}

#[test]
fn test_partition_single_tx() {
    let groups = partition_non_conflicting(vec![make_tx(&[(1, 0)])]);
    assert_eq!(groups.len(), 1);
    assert_eq!(groups[0].len(), 1);
}

#[test]
fn test_partition_multi_input_tx() {
    let tx_a = make_tx(&[(1, 0), (2, 0)]);
    let tx_b = make_tx(&[(3, 0)]);
    let groups = partition_non_conflicting(vec![tx_a, tx_b]);
    assert_eq!(groups.len(), 1);
    assert_eq!(groups[0].len(), 2);
}

#[test]
fn test_partition_multi_input_conflict() {
    let tx_a = make_tx(&[(1, 0), (2, 0)]);
    let tx_b = make_tx(&[(2, 0)]);
    let groups = partition_non_conflicting(vec![tx_a, tx_b]);
    assert_eq!(groups.len(), 2);
}

fn shape(groups: &[Vec<Transaction>]) -> Vec<Vec<Vec<u8>>> {
    groups
        .iter()
        .map(|group| {
            group
                .iter()
                .map(|tx| tx.inputs.iter().map(|i| i.previous_output.txid[0]).collect())
                .collect()
        })
        .collect()
}

#[test]
fn groups_are_stable() {
    let inputs: [&[(u8, u32)]; 6] = [
        &[(1, 0)],
        &[(1, 0), (2, 0)],
        &[(2, 0)],
        &[(3, 0)],
        &[(2, 0), (3, 0)],
        &[(1, 0)],
    ];
    let groups = partition_non_conflicting(inputs.iter().map(|i| make_tx(i)).collect());
    let expected = vec![
        vec![vec![1u8], vec![2], vec![3]],
        vec![vec![1, 2]],
        vec![vec![2, 3], vec![1]],
    ];
    assert_eq!(shape(&groups), expected);
    let flat: Vec<Transaction> = groups.iter().flatten().cloned().collect();
    assert_eq!(shape(&partition_non_conflicting(flat)), expected);
    for (place, group) in groups.into_iter().enumerate() {
        let again = partition_non_conflicting(group);
        assert_eq!(shape(&again), vec![expected[place].clone()]);
    }
}

#[test]
fn test_vote_finality_threshold_requires_quorum() {
    let (threshold, floor) = vote_finality_threshold(1000, 0);
    assert_eq!(threshold, 670);
    assert_eq!(floor, 168);
    assert!(0 < threshold, "zero votes must not satisfy quorum");
    assert!(669 < threshold);
    assert!(670 >= threshold);

    let (fallback, _) = vote_finality_threshold(1000, 30);
    assert_eq!(fallback, 510);
}

#[test]
fn thresholds_of_small_networks() {
    assert_eq!(alert_threshold(1), 1);
    assert_eq!(alert_threshold(4), 2);
    assert_eq!(fallback_quorum(6_000_000_000), 4_000_000_000);
    assert_eq!(fallback_quorum(10_000_000_000), 6_666_666_666);
}
