//! Transactions: signing, validation, processing and upkeep of the pool.

use ed25519_dalek::{Signer, SigningKey};
use sha2::{Digest, Sha256, Sha512};
use timevote::engine::ConsensusEngine;
use timevote::fallback::PendingInputs;
use timevote::fees::{FeeSchedule, SATOSHIS_PER_TIME};
use timevote::keys::unsigned_copy;
use timevote::messages::NetworkMessage;
use timevote::partition::same_outpoint;
use timevote::processing::{
    MonitorAction, ProcessPlan, ProcessView, VoteMonitor, MAX_MEMPOOL_TRANSACTIONS,
};
use timevote::timevote::Preference;
use timevote::types::{
    Masternode, MasternodeInfo, MasternodeRegistry, MasternodeTier, OutPoint, SpecialData,
    SpecialKind, TierWeights, Transaction, TransactionStatus, TxInput, TxOutput, UTXOState,
    VoteDecision, UTXO,
};
use timevote::upkeep::{
    purge_touched, retry_order, BannedOutput, PooledTransaction, RetryDecision, RetryStart,
};
use timevote::validation::{InputView, TransactionView};

const OWN: &str = "TIME0own";
const OTHER: &str = "TIME0other";
const TXID: [u8; 32] = [5u8; 32];
const HASH: [u8; 32] = [6u8; 32];

fn weights() -> TierWeights {
    TierWeights {
        free: 1,
        bronze: 10,
        silver: 100,
        gold: 1000,
    }
}

fn node(i: u8) -> MasternodeInfo {
    MasternodeInfo {
        masternode: Masternode::new_legacy(
            format!("10.0.0.{}", i),
            format!("wallet{}", i),
            1000,
            SigningKey::from_bytes(&[i; 32]).verifying_key().to_bytes(),
            MasternodeTier::Bronze,
            0,
        ),
        reward_address: format!("reward{}", i),
        is_active: true,
    }
}

fn engine_with(nodes: u8) -> ConsensusEngine {
    let mut registry = MasternodeRegistry::new(weights());
    for i in 0..nodes {
        registry.nodes.push(node(i + 1));
    }
    let mut engine = ConsensusEngine::new(registry, 7);
    engine.set_wallet_signing_key([7u8; 32]).unwrap();
    engine
}

fn outpoint(byte: u8) -> OutPoint {
    OutPoint {
        txid: [byte; 32],
        vout: 0,
    }
}

fn payment(inputs: &[u8], outputs: &[(u64, &str)]) -> Transaction {
    Transaction {
        version: 2,
        inputs: inputs
            .iter()
            .map(|b| TxInput {
                previous_output: outpoint(*b),
                script_sig: vec![],
                sequence: 0,
            })
            .collect(),
        outputs: outputs
            .iter()
            .map(|(value, to)| TxOutput {
                value: *value,
                script_pubkey: to.as_bytes().to_vec(),
            })
            .collect(),
        lock_time: 0,
        timestamp: 0,
        special_data: None,
        encrypted_memo: None,
    }
}

fn input(byte: u8, value: u64, state: Option<UTXOState>) -> InputView {
    InputView {
        outpoint_text: format!("out{}", byte),
        outpoint_debug: format!("Out {}", byte),
        collateral_locked: false,
        tombstoned: false,
        state,
        state_text: "Locked".to_string(),
        utxo: Some(UTXO {
            outpoint: outpoint(byte),
            value,
            script_pubkey: OWN.as_bytes().to_vec(),
            address: OWN.to_string(),
        }),
        utxo_error: "missing".to_string(),
        derived_testnet: OWN.to_string(),
        derived_mainnet: "TIME1own".to_string(),
    }
}

fn view(inputs: Vec<InputView>) -> TransactionView {
    TransactionView {
        inspection: None,
        size: Ok(250),
        signing_hash: HASH,
        inputs,
    }
}

fn signed_payment(engine: &ConsensusEngine) -> Transaction {
    let mut tx = payment(&[1], &[(100 * SATOSHIS_PER_TIME, OTHER)]);
    engine.sign_transaction(&mut tx, &HASH).unwrap();
    tx
}

fn funded(state: Option<UTXOState>) -> TransactionView {
    view(vec![input(1, 101 * SATOSHIS_PER_TIME, state)])
}

fn verdict(engine: &ConsensusEngine, tx: &Transaction, view: &TransactionView) -> Result<u64, String> {
    engine.validate_transaction_with_locks(tx, TXID, view).0
}

#[test]
fn signatures_are_those_of_the_key() {
    let engine = engine_with(0);
    let tx = signed_payment(&engine);
    let key = SigningKey::from_bytes(&[7u8; 32]);
    let mut content = 7u32.to_le_bytes().to_vec();
    content.extend_from_slice(&HASH);
    content.extend_from_slice(&0u32.to_le_bytes());
    let pairs: Vec<(u64, Vec<u8>)> = tx
        .outputs
        .iter()
        .map(|o| (o.value, o.script_pubkey.clone()))
        .collect();
    let encoded = bincode::serialize(&pairs).unwrap();
    content.extend_from_slice(&Sha256::digest(&encoded));
    let message = Sha256::digest(&content).to_vec();
    assert_eq!(
        engine.create_signature_message(&tx, 0, &HASH),
        Ok(message.clone())
    );
    let mut script = key.verifying_key().to_bytes().to_vec();
    script.extend_from_slice(&key.sign(&message).to_bytes());
    assert_eq!(tx.inputs[0].script_sig, script);
}

#[test]
fn first_version_signs_without_the_chain() {
    let engine = engine_with(0);
    let mut tx = payment(&[1], &[(1, OTHER)]);
    tx.version = 1;
    let mut content = HASH.to_vec();
    content.extend_from_slice(&3u32.to_le_bytes());
    let pairs: Vec<(u64, Vec<u8>)> = vec![(1, OTHER.as_bytes().to_vec())];
    content.extend_from_slice(&Sha256::digest(&bincode::serialize(&pairs).unwrap()));
    assert_eq!(
        engine.create_signature_message(&tx, 3, &HASH),
        Ok(Sha256::digest(&content).to_vec())
    );
    assert_ne!(
        engine.create_signature_message(&tx, 3, &HASH),
        engine.create_signature_message(&tx, 4, &HASH)
    );
}

#[test]
fn memo_is_not_signed() {
    let engine = engine_with(0);
    let mut tx = signed_payment(&engine);
    let plain = unsigned_copy(&tx);
    tx.encrypted_memo = Some(vec![1, 2, 3]);
    let with_memo = unsigned_copy(&tx);
    assert_eq!(plain.encrypted_memo, None);
    assert_eq!(with_memo.encrypted_memo, None);
    assert!(with_memo.inputs[0].script_sig.is_empty());
}

#[test]
fn derived_keys_follow_from_the_master_key() {
    let mut engine = engine_with(0);
    let mut material = b"TIMECOIN-KEY-DERIVATION".to_vec();
    material.extend_from_slice(&[7u8; 32]);
    material.extend_from_slice(&9u32.to_le_bytes());
    let digest = Sha512::digest(&material);
    let child = engine.derive_child_key_at(9).unwrap();
    assert_eq!(child[..], digest[..32]);
    assert_eq!(
        engine.child_public_key_at(9),
        Some(SigningKey::from_bytes(&child).verifying_key().to_bytes())
    );
    engine.register_derived_address("TIME0nine".to_string(), 9);
    assert_eq!(engine.get_signing_key_for_address("TIME0nine"), Some(child));
    assert_eq!(
        engine.get_signing_key_for_address("TIME0else"),
        Some([7u8; 32])
    );
    engine.preload_derived_addresses(vec!["a".to_string(), "b".to_string()]);
    assert!(engine.is_derived_address("b"));
    assert_eq!(
        engine.list_derived_addresses(),
        vec![
            (0, "a".to_string()),
            (1, "b".to_string()),
            (9, "TIME0nine".to_string())
        ]
    );
}

#[test]
fn payment_is_valid() {
    let engine = engine_with(0);
    let tx = signed_payment(&engine);
    assert_eq!(
        verdict(&engine, &tx, &funded(Some(UTXOState::Unspent))),
        Ok(SATOSHIS_PER_TIME)
    );
    assert_eq!(
        engine.validate_transaction_with_locks(&tx, TXID, &funded(Some(UTXOState::Unspent))),
        (Ok(SATOSHIS_PER_TIME), 1)
    );
    let own_lock = UTXOState::Locked {
        txid: TXID,
        locked_at: 0,
    };
    assert_eq!(
        verdict(&engine, &tx, &funded(Some(own_lock))),
        Ok(SATOSHIS_PER_TIME)
    );
    assert_eq!(
        engine.validate_transaction(&tx, TXID, &funded(Some(UTXOState::Unspent))),
        (Ok(()), 1)
    );
}

#[test]
fn every_fault_is_told() {
    let engine = engine_with(0);
    let tx = signed_payment(&engine);
    let unspent = Some(UTXOState::Unspent);

    let mut v = funded(unspent);
    v.inspection = Some("looks wrong".to_string());
    assert_eq!(verdict(&engine, &tx, &v), Err("looks wrong".to_string()));

    let mut v = funded(unspent);
    v.size = Err("no bytes".to_string());
    assert_eq!(
        verdict(&engine, &tx, &v),
        Err("Failed to serialize transaction: no bytes".to_string())
    );

    let mut v = funded(unspent);
    v.size = Ok(10_000_001);
    assert_eq!(
        verdict(&engine, &tx, &v),
        Err("Transaction too large: 10000001 bytes (max 10000000 bytes)".to_string())
    );

    let mut v = funded(unspent);
    v.inputs[0].collateral_locked = true;
    assert_eq!(
        verdict(&engine, &tx, &v),
        Err("UTXO out1 is locked as masternode collateral".to_string())
    );

    let foreign = Some(UTXOState::Locked {
        txid: [9u8; 32],
        locked_at: 0,
    });
    assert_eq!(
        verdict(&engine, &tx, &funded(foreign)),
        Err("UTXO not unspent: Locked".to_string())
    );

    let mut v = funded(None);
    v.inputs[0].utxo = None;
    assert_eq!(verdict(&engine, &tx, &v), Err("UTXO not found".to_string()));

    let mut dusty = payment(&[1], &[(100 * SATOSHIS_PER_TIME, OTHER), (999, OTHER)]);
    engine.sign_transaction(&mut dusty, &HASH).unwrap();
    assert_eq!(
        verdict(&engine, &dusty, &funded(unspent)),
        Err("Dust output detected: 999 satoshis (minimum 1000)".to_string())
    );

    let small = payment(&[1], &[(SATOSHIS_PER_TIME - 1, OTHER)]);
    assert_eq!(
        verdict(&engine, &small, &funded(unspent)),
        Err(
            "Send amount too small: 99999999 satoshis (minimum 1 TIME = 100000000 satoshis)"
                .to_string()
        )
    );

    let v = view(vec![input(1, 100 * SATOSHIS_PER_TIME + 999_999, unspent)]);
    assert_eq!(
        verdict(&engine, &tx, &v),
        Err("Transaction fee too low: 999999 satoshis (minimum 1000000)".to_string())
    );

    let v = view(vec![input(1, 100 * SATOSHIS_PER_TIME + 49_999_999, unspent)]);
    assert_eq!(
        verdict(&engine, &tx, &v),
        Err(
            "Insufficient fee: 49999999 satoshis < 50000000 satoshis required for send amount \
             10000000000"
                .to_string()
        )
    );

    let unsigned = payment(&[1], &[(100 * SATOSHIS_PER_TIME, OTHER)]);
    assert_eq!(
        verdict(&engine, &unsigned, &funded(unspent)),
        Err(
            "Input 0 has empty script_sig — unsigned transactions are not allowed".to_string()
        )
    );

    let mut short = signed_payment(&engine);
    short.inputs[0].script_sig.truncate(95);
    assert_eq!(
        verdict(&engine, &short, &funded(unspent)),
        Err(
            "Invalid script_sig length: 95 (expected 96: 32-byte pubkey + 64-byte signature)"
                .to_string()
        )
    );

    let mut forged = signed_payment(&engine);
    forged.inputs[0].script_sig[95] ^= 1;
    assert_eq!(
        verdict(&engine, &forged, &funded(unspent)),
        Err(
            "Signature verification FAILED for input 0: signature doesn't match message"
                .to_string()
        )
    );

    let mut bad_key = signed_payment(&engine);
    for i in 0..32 {
        bad_key.inputs[0].script_sig[i] = if i == 0 { 2 } else { 0 };
    }
    assert!(verdict(&engine, &bad_key, &funded(unspent))
        .unwrap_err()
        .starts_with("Invalid public key: "));

    let mut v = funded(unspent);
    v.inputs[0].derived_testnet = "TIME0someone".to_string();
    assert_eq!(
        verdict(&engine, &tx, &v),
        Err(
            "Public key doesn't match UTXO address: derived TIME0someone vs stored TIME0own"
                .to_string()
        )
    );

    let mut v = funded(unspent);
    v.inputs[0].utxo.as_mut().unwrap().script_pubkey = b"NOTIME".to_vec();
    assert_eq!(
        verdict(&engine, &tx, &v),
        Err("Invalid address prefix in UTXO script_pubkey".to_string())
    );

    let mut v = funded(unspent);
    v.inputs[0].utxo.as_mut().unwrap().script_pubkey = vec![0xff];
    assert_eq!(
        verdict(&engine, &tx, &v),
        Err("Invalid UTF-8 in UTXO script_pubkey".to_string())
    );

    let mut special = signed_payment(&engine);
    special.special_data = Some(SpecialData {
        kind: SpecialKind::MasternodeReg,
        field_error: Some("bad field".to_string()),
        signature_valid: true,
        address_bound: true,
    });
    assert_eq!(
        verdict(&engine, &special, &funded(unspent)),
        Err("Invalid special_data fields (AV41): bad field".to_string())
    );
    special.special_data = Some(SpecialData {
        kind: SpecialKind::MasternodeReg,
        field_error: None,
        signature_valid: true,
        address_bound: true,
    });
    assert_eq!(verdict(&engine, &special, &funded(unspent)), Ok(0));
}

#[test]
fn consolidation_pays_the_least_fee() {
    let engine = engine_with(0);
    let mut tx = payment(&[1], &[(100 * SATOSHIS_PER_TIME, OWN)]);
    engine.sign_transaction(&mut tx, &HASH).unwrap();
    let v = view(vec![input(
        1,
        100 * SATOSHIS_PER_TIME + 1_000_000,
        Some(UTXOState::Unspent),
    )]);
    assert_eq!(verdict(&engine, &tx, &v), Ok(1_000_000));
}

#[test]
fn final_transactions_pay_nothing_again() {
    let engine = engine_with(0);
    let tx = signed_payment(&engine);
    let spent = Some(UTXOState::SpentFinalized { txid: TXID });
    assert_eq!(verdict(&engine, &tx, &funded(spent)), Ok(0));
}

#[test]
fn governance_changes_the_fees() {
    let mut engine = engine_with(0);
    assert_eq!(engine.current_fee_schedule().min_fee, 1_000_000);
    engine
        .apply_fee_schedule(FeeSchedule {
            tiers: vec![(u64::MAX, 1000)],
            min_fee: 5,
        })
        .unwrap();
    assert_eq!(engine.current_fee_schedule().required_fee(1000), 100);
}

fn process_view(inputs: Vec<InputView>) -> ProcessView {
    ProcessView {
        inputs,
        pool_fee: None,
        pending_count: 0,
        pool_conflict: false,
    }
}

#[test]
fn uncontested_transactions_are_final_at_once() {
    let mut engine = engine_with(3);
    let tx = signed_payment(&engine);
    let v = process_view(vec![input(1, 101 * SATOSHIS_PER_TIME, Some(UTXOState::Unspent))]);
    let plan = engine
        .process_transaction_at(&tx, TXID, Some(SATOSHIS_PER_TIME), &v, Ok(()), b"tx", 1, 2, 3)
        .unwrap();
    match plan {
        ProcessPlan::Finalize(finish) => {
            assert_eq!(finish.spent.len(), 1);
            assert!(same_outpoint(&finish.spent[0], &outpoint(1)));
            assert_eq!(finish.created.len(), 1);
            assert_eq!(finish.created[0].address, OTHER);
            assert_eq!(finish.created[0].value, 100 * SATOSHIS_PER_TIME);
        }
        ProcessPlan::Vote(_) => panic!("no vote is needed"),
    }
    assert_eq!(
        engine.timevote.get_finalized_preference(&TXID),
        Some(Preference::Accept)
    );
}

#[test]
fn contested_transactions_are_voted_on() {
    let mut engine = engine_with(3);
    let tx = signed_payment(&engine);
    let mut v = process_view(vec![input(1, 101 * SATOSHIS_PER_TIME, Some(UTXOState::Unspent))]);
    v.pool_conflict = true;
    let plan = engine
        .process_transaction_at(
            &tx,
            TXID,
            Some(SATOSHIS_PER_TIME),
            &v,
            Ok(()),
            b"tx",
            1,
            2_000,
            1_200,
        )
        .unwrap();
    match plan {
        ProcessPlan::Vote(vote) => {
            assert_eq!(vote.tx_hash_commitment[..], Sha256::digest(b"tx")[..]);
            assert_eq!(vote.slot_index, 2);
            assert_eq!(vote.updates.len(), 1);
        }
        ProcessPlan::Finalize(_) => panic!("a vote is needed"),
    }
    assert!(matches!(
        engine.get_tx_status(&TXID),
        Some(TransactionStatus::Voting {
            started_at: 2_000,
            ..
        })
    ));
    assert_eq!(
        engine.timevote.get_tx_state(&TXID),
        Some((Preference::Accept, false))
    );
}

#[test]
fn processing_faults_are_told() {
    let mut engine = engine_with(3);
    let tx = signed_payment(&engine);
    let good = || process_view(vec![input(1, 101 * SATOSHIS_PER_TIME, Some(UTXOState::Unspent))]);
    let mut full = good();
    full.pending_count = MAX_MEMPOOL_TRANSACTIONS;
    assert_eq!(
        engine.admit_transaction(&tx, &TXID, Some(5), &full),
        Err("Mempool full: 10000 transactions (max 10000)".to_string())
    );
    let ghost = payment(&[], &[]);
    assert_eq!(
        engine.admit_transaction(&ghost, &TXID, Some(5), &process_view(vec![])),
        Err("Ghost TX rejected: no inputs/outputs and no valid special_data".to_string())
    );
    let empty = payment(&[], &[(1, OTHER)]);
    assert_eq!(
        engine.admit_transaction(&empty, &TXID, Some(5), &process_view(vec![])),
        Err("Transaction has no inputs".to_string())
    );
    let silent = payment(&[1], &[]);
    assert_eq!(
        engine.admit_transaction(&silent, &TXID, Some(5), &good()),
        Err("Transaction has no outputs".to_string())
    );
    let refused = engine.process_transaction_at(
        &tx,
        TXID,
        Some(5),
        &good(),
        Err("taken".to_string()),
        b"tx",
        1,
        2,
        3,
    );
    assert_eq!(
        refused.err(),
        Some("Failed to add to pool: taken".to_string())
    );
    assert!(engine.get_tx_status(&TXID).is_none());
}

fn accept_votes(engine: &mut ConsensusEngine, voters: u8) {
    let snapshot = engine.timevote.create_avs_snapshot(4);
    assert_eq!(snapshot.validators.len(), 3);
    for i in 0..voters {
        let mut voter = engine_with(3);
        voter
            .set_identity(format!("10.0.0.{}", i + 1), [i + 1; 32])
            .unwrap();
        let vote = voter
            .sign_timevote(TXID, [8u8; 32], 4, VoteDecision::Accept)
            .unwrap();
        engine.timevote.accumulate_timevote(vote).unwrap();
    }
}

#[test]
fn votes_make_a_quorum() {
    const SECOND: u64 = 1_000_000_000;
    let mut engine = engine_with(3);
    engine.timevote.initiate_consensus(TXID, Preference::Accept);
    let mut pending: PendingInputs = PendingInputs::new();
    pending.insert(TXID, vec![Some(UTXOState::Unspent)]);
    let mut monitor = VoteMonitor::new(0);
    let mut step = |engine: &ConsensusEngine, monitor: &mut VoteMonitor, now: u64| {
        engine.monitor_vote(&TXID, monitor, false, &pending, now)
    };
    assert!(matches!(
        step(&engine, &mut monitor, SECOND),
        MonitorAction::Wait
    ));
    assert!(matches!(
        step(&engine, &mut monitor, 5 * SECOND),
        MonitorAction::Extended
    ));
    accept_votes(&mut engine, 2);
    assert_eq!(engine.timevote.get_accumulated_weight(&TXID), 20);
    match step(&engine, &mut monitor, 16 * SECOND) {
        MonitorAction::Reject(reason) => {
            assert_eq!(reason, "TimeVote quorum not reached: 20 < 21 (67% of AVS)")
        }
        other => panic!("{:?}", other),
    }
    match step(&engine, &mut monitor, 30 * SECOND) {
        MonitorAction::Finalize(weight) => assert_eq!(weight, 20),
        other => panic!("{:?}", other),
    }
    engine.conclude_vote_at(TXID, Some(20), 1, 2);
    assert!(engine.timevote.is_finalized(&TXID));
    assert!(engine.timevote.get_tx_state(&TXID).is_none());
}

#[test]
fn locking_and_submitting() {
    let engine = engine_with(0);
    let tx = signed_payment(&engine);
    let good = funded(Some(UTXOState::Unspent));
    let states = vec![Some(UTXOState::Locked {
        txid: TXID,
        locked_at: 0,
    })];

    let (outcome, message) = engine.submit_transaction(&tx, TXID, false, Ok(()), &states, &good, 9);
    assert_eq!(
        outcome.result,
        Err("Network not initialized - broadcast callback not available".to_string())
    );
    assert_eq!(outcome.verified, 0);
    assert!(message.is_none());

    let (outcome, message) = engine.submit_transaction(
        &tx,
        TXID,
        true,
        Err("busy".to_string()),
        &states,
        &good,
        9,
    );
    assert_eq!(
        outcome.result,
        Err("UTXO double-spend prevented: busy".to_string())
    );
    assert_eq!(outcome.released.len(), 1);
    assert_eq!(outcome.verified, 0);
    assert!(message.is_none());

    let (outcome, message) = engine.submit_transaction(&tx, TXID, true, Ok(()), &states, &good, 9);
    assert_eq!(outcome.result, Ok(SATOSHIS_PER_TIME));
    assert_eq!(outcome.verified, 1);
    assert_eq!(outcome.announced.len(), 1);
    assert!(matches!(
        outcome.announced[0].state,
        UTXOState::Locked { locked_at: 9, .. }
    ));
    assert!(matches!(
        message,
        Some(NetworkMessage::TransactionBroadcast(_))
    ));

    let mut bad = funded(Some(UTXOState::Unspent));
    bad.inspection = Some("no".to_string());
    let outcome = engine.lock_and_validate_transaction(&tx, TXID, Ok(()), &states, &bad, 9);
    assert_eq!(outcome.result, Err("no".to_string()));
    assert_eq!(outcome.released.len(), 1);
    assert!(matches!(outcome.released[0].state, UTXOState::Unspent));
}

#[test]
fn failed_locking_is_undone() {
    let engine = engine_with(0);
    let tx = payment(&[1, 2], &[(100 * SATOSHIS_PER_TIME, OTHER)]);
    let states = vec![
        Some(UTXOState::Locked {
            txid: TXID,
            locked_at: 0,
        }),
        Some(UTXOState::Locked {
            txid: [1u8; 32],
            locked_at: 0,
        }),
    ];
    let outcome = engine.lock_and_validate_transaction(
        &tx,
        TXID,
        Err("output 2 is taken".to_string()),
        &states,
        &view(vec![]),
        9,
    );
    assert_eq!(
        outcome.result,
        Err("UTXO double-spend prevented: output 2 is taken".to_string())
    );
    assert_eq!(outcome.verified, 0);
    assert_eq!(outcome.released.len(), 1);
    assert!(same_outpoint(&outcome.released[0].outpoint, &outpoint(1)));
    assert!(matches!(outcome.released[0].state, UTXOState::Unspent));
    assert!(outcome.announced.is_empty());
}

#[test]
fn resumed_voting_holds_the_inputs() {
    let mut engine = engine_with(3);
    let tx = payment(&[1, 2], &[]);
    assert_eq!(
        engine.resume_sampling_after_fallback(TXID, Some(&tx)).err(),
        Some(format!("Transaction {} not found", hex::encode(TXID)))
    );
    engine.transition_to_fallback_resolution(TXID, 2);
    let updates = engine.resume_sampling_after_fallback(TXID, Some(&tx)).unwrap();
    assert_eq!(updates.len(), 2);
    assert!(same_outpoint(&updates[0].outpoint, &outpoint(1)));
    assert!(same_outpoint(&updates[1].outpoint, &outpoint(2)));
    assert!(updates
        .iter()
        .all(|u| matches!(u.state, UTXOState::SpentPending { txid: TXID, .. })));
    assert_eq!(
        engine.resume_sampling_after_fallback(TXID, Some(&tx)).err(),
        Some(format!(
            "Transaction {} not in FallbackResolution state",
            hex::encode(TXID)
        ))
    );
}

#[test]
fn unlocking_spares_the_locks_of_others() {
    let engine = engine_with(0);
    let tx = payment(&[1, 2, 3], &[]);
    let states = vec![
        Some(UTXOState::Locked {
            txid: TXID,
            locked_at: 0,
        }),
        Some(UTXOState::Locked {
            txid: [1u8; 32],
            locked_at: 0,
        }),
        Some(UTXOState::Unspent),
    ];
    let updates = engine.unlock_transaction_inputs(&tx, &TXID, &states);
    assert_eq!(updates.len(), 1);
    assert!(same_outpoint(&updates[0].outpoint, &outpoint(1)));
}

#[test]
fn rejecting_frees_the_inputs() {
    let mut engine = engine_with(0);
    let tx = payment(&[1], &[]);
    let states = vec![Some(UTXOState::Locked {
        txid: TXID,
        locked_at: 0,
    })];
    let updates = engine.reject_failed_voting_transaction_at(
        TXID,
        "no quorum".to_string(),
        Some((&tx, &states)),
        77,
    );
    assert_eq!(updates.len(), 1);
    match engine.get_tx_status(&TXID) {
        Some(TransactionStatus::Rejected {
            rejected_at,
            reason,
        }) => {
            assert_eq!(rejected_at, 77);
            assert_eq!(reason, "no quorum");
        }
        other => panic!("{:?}", other),
    }
}

#[test]
fn stuck_transactions_are_tried_by_fee_and_age() {
    assert_eq!(
        retry_order(&vec![(5, 30), (9, 20), (5, 10), (9, 20), (1, 1)]),
        vec![1, 3, 2, 0, 4]
    );
}

#[test]
fn stuck_transactions_are_retried() {
    let engine = engine_with(0);
    let tx = signed_payment(&engine);
    let free = vec![input(1, 101 * SATOSHIS_PER_TIME, Some(UTXOState::Unspent))];
    assert!(matches!(
        engine.retry_stuck_pending_transactions(&tx, &TXID, false, &free, false),
        RetryStart::Skip
    ));
    let gone = vec![input(
        1,
        101 * SATOSHIS_PER_TIME,
        Some(UTXOState::SpentFinalized { txid: [1u8; 32] }),
    )];
    match engine.retry_stuck_pending_transactions(&tx, &TXID, true, &gone, false) {
        RetryStart::Reject(reason) => {
            assert_eq!(reason, "Inputs already spent by another transaction")
        }
        other => panic!("{:?}", other),
    }
    match engine.retry_stuck_pending_transactions(&tx, &TXID, true, &free, false) {
        RetryStart::Relock(outpoints) => assert_eq!(outpoints.len(), 1),
        other => panic!("{:?}", other),
    }
    let locked = funded(Some(UTXOState::Locked {
        txid: TXID,
        locked_at: 0,
    }));
    match engine.retry_after_relock(&tx, TXID, 0, &locked, false) {
        (RetryDecision::Finalize { repaired_fee, plan }, 1) => {
            assert_eq!(repaired_fee, Some(SATOSHIS_PER_TIME));
            assert_eq!(plan.created.len(), 1);
        }
        other => panic!("{:?}", other),
    }
    assert!(matches!(
        engine.retry_after_relock(&tx, TXID, 3, &locked, true),
        (RetryDecision::Leave { repaired_fee: None }, 1)
    ));
    let unsigned = payment(&[1], &[(100 * SATOSHIS_PER_TIME, OTHER)]);
    assert!(matches!(
        engine.retry_after_relock(&unsigned, TXID, 3, &locked, false),
        (RetryDecision::Reject(_), 0)
    ));
}

#[test]
fn competing_stuck_transactions_both_stay() {
    let mut engine = engine_with(0);
    engine.fee_schedule = FeeSchedule {
        tiers: vec![],
        min_fee: 1_000_000,
    };
    let free = || vec![input(1, 102_000_000, Some(UTXOState::Unspent))];
    for (txid, fee) in [([1u8; 32], 2_000_000u64), ([2u8; 32], 1_000_000)] {
        let mut tx = payment(&[1], &[(102_000_000 - fee, OTHER)]);
        engine.sign_transaction(&mut tx, &HASH).unwrap();
        match engine.retry_stuck_pending_transactions(&tx, &txid, true, &free(), true) {
            RetryStart::Relock(outpoints) => assert!(outpoints.is_empty()),
            other => panic!("{:?}", other),
        }
        match engine.retry_after_relock(&tx, txid, 0, &view(free()), true) {
            (RetryDecision::Leave { repaired_fee }, 1) => assert_eq!(repaired_fee, Some(fee)),
            other => panic!("{:?}", other),
        }
    }
}

#[test]
fn transactions_with_phantom_inputs_are_evicted() {
    let engine = engine_with(0);
    let tx = payment(&[1, 2, 3], &[(1, OTHER), (2, OTHER)]);
    let spent = Some(UTXOState::SpentFinalized { txid: TXID });
    let mut phantom = input(2, 5, None);
    phantom.utxo = None;
    let mut collateral = input(3, 5, spent);
    collateral.collateral_locked = true;
    let inputs = vec![input(1, 5, spent), phantom, collateral];
    let plan = engine
        .evict_finalized_with_missing_inputs(&tx, &TXID, &inputs, &vec![false, true])
        .unwrap();
    assert_eq!(plan.restored.len(), 1);
    assert!(same_outpoint(&plan.restored[0].outpoint, &outpoint(1)));
    assert_eq!(plan.removed.len(), 1);
    assert_eq!(plan.removed[0].vout, 1);

    let mut tombstoned = input(2, 5, None);
    tombstoned.utxo = None;
    tombstoned.tombstoned = true;
    let inputs = vec![input(1, 5, spent), tombstoned, input(3, 5, spent)];
    assert!(engine
        .evict_finalized_with_missing_inputs(&tx, &TXID, &inputs, &vec![true, true])
        .is_none());
    let marked = engine.tombstone_confirmed_inputs_on_startup(&tx, &inputs);
    assert_eq!(marked.len(), 2);
    assert!(same_outpoint(&marked[1], &outpoint(3)));
}

#[test]
fn banned_transactions_are_purged() {
    let engine = engine_with(0);
    let spent = Some(UTXOState::SpentFinalized { txid: TXID });
    let entry = |byte: u8, collateral_locked: bool, state: Option<UTXOState>| BannedOutput {
        outpoint: outpoint(byte),
        collateral_locked,
        state,
    };
    let plan = engine.purge_banned_transactions(
        &vec![
            entry(1, false, spent),
            entry(2, true, spent),
            entry(3, false, Some(UTXOState::Unspent)),
        ],
        &vec![entry(4, false, Some(UTXOState::Unspent)), entry(5, false, None)],
    );
    assert_eq!(plan.restored.len(), 1);
    assert_eq!(plan.removed.len(), 1);
    assert!(same_outpoint(&plan.removed[0], &outpoint(4)));
    let again = engine.purge_banned_transactions(
        &vec![
            entry(1, false, Some(UTXOState::Unspent)),
            entry(2, true, spent),
            entry(3, false, Some(UTXOState::Unspent)),
        ],
        &vec![entry(4, false, None), entry(5, false, None)],
    );
    assert!(again.restored.is_empty());
    assert!(again.removed.is_empty());
    assert!(purge_touched(1, 0, false));
    assert!(!purge_touched(0, 0, false));
}

#[test]
fn stale_transactions_leave_nothing_behind() {
    let mut engine = engine_with(3);
    accept_votes(&mut engine, 2);
    engine.timevote.initiate_consensus(TXID, Preference::Accept);
    engine.register_proposal([1u8; 32], TXID);
    engine.register_proposal([2u8; 32], [3u8; 32]);
    let pending = SpentPendingInput::new(TXID);
    let (updates, count) = engine.evict_stale_pending_transactions_at(
        &vec![PooledTransaction {
            tx: payment(&[1, 2], &[]),
            txid: TXID,
            inputs: vec![pending.view(1), input(2, 5, Some(UTXOState::Unspent))],
        }],
        3600,
        50,
    );
    assert_eq!(count, 1);
    assert_eq!(updates.len(), 1);
    assert_eq!(engine.timevote.get_accumulated_weight(&TXID), 0);
    assert!(engine.timevote.get_tx_state(&TXID).is_none());
    assert!(engine.get_proposal_txid(&[1u8; 32]).is_none());
    assert_eq!(engine.get_proposal_txid(&[2u8; 32]), Some([3u8; 32]));
    match engine.get_tx_status(&TXID) {
        Some(TransactionStatus::Rejected { reason, .. }) => assert_eq!(
            reason,
            "Pending transaction evicted after exceeding stale age (3600s)"
        ),
        other => panic!("{:?}", other),
    }
}

struct SpentPendingInput {
    txid: [u8; 32],
}

impl SpentPendingInput {
    fn new(txid: [u8; 32]) -> Self {
        SpentPendingInput { txid }
    }

    fn view(&self, byte: u8) -> InputView {
        input(
            byte,
            5,
            Some(UTXOState::SpentPending {
                txid: self.txid,
                votes: 0,
                total_nodes: 3,
                spent_at: 0,
            }),
        )
    }
}
