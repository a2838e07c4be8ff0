//! Votes, proofs of finality, rounds on blocks, statuses and payment requests.

use ed25519_dalek::{Signer, SigningKey};
use timevote::ballots::{PrecommitVoteAccumulator, PrepareVoteAccumulator};
use timevote::clock::Clock;
use timevote::engine::ConsensusEngine;
use timevote::fallback::PendingInputs;
use timevote::identity::NodeIdentity;
use timevote::messages::NetworkMessage;
use timevote::table::Table;
use timevote::timevote::{Preference, TimeVoteError, VotingState};
use timevote::types::{
    FallbackDecision, FallbackVote, FallbackVoteDecision, LivenessAlert, Masternode,
    MasternodeInfo, MasternodeRegistry, MasternodeTier, PaymentRequest, TierWeights, TimeProof,
    TimeVote, Transaction, TransactionStatus, UTXOState, VoteDecision,
};

const TXID: [u8; 32] = [5u8; 32];
const COMMITMENT: [u8; 32] = [6u8; 32];
const SECOND: u64 = 1_000_000_000;

fn address(i: u8) -> String {
    format!("10.0.0.{}", i)
}

fn registry(count: u8) -> MasternodeRegistry {
    let mut registry = MasternodeRegistry::new(TierWeights {
        free: 1,
        bronze: 10,
        silver: 100,
        gold: 1000,
    });
    for i in 1..=count {
        registry.nodes.push(MasternodeInfo {
            masternode: Masternode::new_legacy(
                address(i),
                format!("wallet{}", i),
                1000,
                SigningKey::from_bytes(&[i; 32]).verifying_key().to_bytes(),
                MasternodeTier::Bronze,
                0,
            ),
            reward_address: format!("reward{}", i),
            is_active: i != 9,
        });
    }
    registry
}

fn engine(count: u8, me: u8) -> ConsensusEngine {
    let mut engine = ConsensusEngine::new(registry(count), 1);
    engine.set_identity(address(me), [me; 32]).unwrap();
    engine
}

fn vote_of(i: u8, decision: VoteDecision) -> TimeVote {
    engine(4, i)
        .sign_timevote(TXID, COMMITMENT, 8, decision)
        .unwrap()
}

#[test]
fn votes_are_signed_over_what_they_say() {
    let identity = NodeIdentity {
        address: "me".to_string(),
        signing_key: [3u8; 32],
    };
    let vote = identity.sign_finality_vote(
        2,
        TXID,
        COMMITMENT,
        4,
        VoteDecision::Reject,
        "me".to_string(),
        77,
    );
    let key = SigningKey::from_bytes(&[3u8; 32]);
    let mut message = 2u32.to_le_bytes().to_vec();
    message.extend_from_slice(&TXID);
    message.extend_from_slice(&COMMITMENT);
    message.extend_from_slice(&4u64.to_le_bytes());
    message.push(0);
    message.extend_from_slice(b"me");
    message.extend_from_slice(&77u64.to_le_bytes());
    assert_eq!(vote.signature, key.sign(&message).to_bytes().to_vec());
    let public = key.verifying_key().to_bytes();
    assert_eq!(vote.verify(&public), Ok(()));
    let mut turned = vote.clone();
    turned.decision = VoteDecision::Accept;
    assert!(turned.verify(&public).is_err());
    let mut short = vote.clone();
    short.signature.pop();
    assert!(short.verify(&public).is_err());
}

#[test]
fn each_validator_votes_once() {
    let mut engine = engine(4, 1);
    let votes = &mut engine.timevote;
    assert_eq!(
        votes.accumulate_timevote(vote_of(1, VoteDecision::Accept)),
        Ok(10)
    );
    assert_eq!(
        votes.accumulate_timevote(vote_of(1, VoteDecision::Accept)),
        Err(format!(
            "Duplicate vote from 10.0.0.1 for TX {}",
            hex::encode(TXID)
        ))
    );
    assert_eq!(
        votes.accumulate_timevote(vote_of(2, VoteDecision::Reject)),
        Ok(10)
    );
    let mut foreign = vote_of(3, VoteDecision::Accept);
    foreign.voter_mn_id = "nobody".to_string();
    assert_eq!(
        votes.accumulate_timevote(foreign),
        Err("Voter nobody not in active validator set".to_string())
    );
    let mut forged = vote_of(3, VoteDecision::Accept);
    forged.voter_weight = 1_000;
    assert!(votes
        .accumulate_timevote(forged)
        .unwrap_err()
        .starts_with("Vote signature verification failed: "));
    assert_eq!(votes.get_accumulated_votes(&TXID).len(), 2);
    assert_eq!(votes.get_accumulated_weight(&TXID), 10);
    votes.clear_vfp_votes(&TXID);
    assert_eq!(votes.get_accumulated_weight(&TXID), 0);
}

#[test]
fn finality_needs_the_threshold() {
    let mut engine = engine(4, 1);
    let snapshot = engine.timevote.create_avs_snapshot(8);
    assert_eq!(snapshot.voting_threshold(), 27);
    assert_eq!(snapshot.get_validator_weight("10.0.0.2"), Some(10));
    assert!(!snapshot.contains_validator("10.0.0.5"));
    assert_eq!(
        engine.timevote.check_timeproof_finality(&TXID, &snapshot),
        Ok(false)
    );
    for i in 1..=2 {
        engine
            .timevote
            .accumulate_timevote(vote_of(i, VoteDecision::Accept))
            .unwrap();
    }
    assert_eq!(
        engine.timevote.check_vfp_finality(&TXID, &snapshot),
        Ok(false)
    );
    engine
        .timevote
        .accumulate_finality_vote(vote_of(3, VoteDecision::Accept))
        .unwrap();
    assert_eq!(
        engine.timevote.check_timeproof_finality(&TXID, &snapshot),
        Ok(true)
    );
    let made = engine.timevote.assemble_timeproof(TXID).unwrap();
    assert_eq!(made.votes.len(), 3);
    assert_eq!(engine.timevote.verify_timeproof(&made), Ok(30));
    let mut thin = made.clone();
    thin.votes.truncate(2);
    assert_eq!(
        engine.timevote.verify_timeproof(&thin),
        Err("Insufficient weight in TimeProof: 20".to_string())
    );
    let mut twice = made.clone();
    twice.votes[1] = twice.votes[0].clone();
    assert_eq!(
        engine.timevote.verify_timeproof(&twice),
        Err("Duplicate voter in TimeProof".to_string())
    );
    assert!(engine.timevote.assemble_timeproof([1u8; 32]).is_err());
}

#[test]
fn heavier_proof_wins() {
    let mut engine = engine(4, 1);
    let light = TimeProof {
        txid: TXID,
        slot_index: 8,
        votes: vec![vote_of(1, VoteDecision::Accept)],
    };
    let heavy = TimeProof {
        txid: TXID,
        slot_index: 8,
        votes: vec![
            vote_of(2, VoteDecision::Accept),
            vote_of(3, VoteDecision::Accept),
        ],
    };
    let tv = &mut engine.timevote;
    assert_eq!(tv.calculate_timeproof_weight(&heavy), Ok(20));
    assert_eq!(tv.detect_competing_timeproof_at(light, 10, 100), Ok(0));
    assert_eq!(tv.conflicts_detected_count(), 0);
    assert_eq!(tv.detect_competing_timeproof_at(heavy, 20, 101), Ok(1));
    assert_eq!(tv.conflicts_detected_count(), 1);
    let info = tv.get_conflict_info(TXID, 8).unwrap();
    assert_eq!(info.proof_weights, vec![10, 20]);
    assert_eq!(info.max_weight, 20);
    let winner = tv.resolve_timeproof_fork(TXID).unwrap().unwrap();
    assert_eq!(winner.votes.len(), 2);
    tv.clear_competing_timeproofs(TXID);
    assert!(tv.get_competing_timeproofs(TXID).is_empty());
}

#[test]
fn snapshots_are_kept_for_a_hundred_slots() {
    let mut engine = engine(2, 1);
    engine.timevote.create_avs_snapshot(1);
    engine.timevote.create_avs_snapshot(101);
    assert!(engine.timevote.get_avs_snapshot(1).is_none());
    assert!(engine.timevote.get_avs_snapshot(101).is_some());
    assert_eq!(engine.memory_stats().avs_snapshots, 1);
}

#[test]
fn old_finalised_state_is_dropped() {
    let mut engine = engine(2, 1);
    engine.timevote.initiate_consensus(TXID, Preference::Accept);
    engine.timevote.record_finalization_at(TXID, 20, 5 * SECOND, 1);
    assert!(engine.timevote.is_finalized(&TXID));
    assert_eq!(
        engine.timevote.cleanup_old_finalized_at(10, 14 * SECOND),
        0
    );
    assert_eq!(
        engine.timevote.cleanup_old_finalized_at(10, 16 * SECOND),
        1
    );
    assert!(!engine.timevote.is_finalized(&TXID));
}

#[test]
fn prepare_majority_is_announced_once() {
    let mut box_ = PrepareVoteAccumulator::new();
    let (a, b) = ([1u8; 32], [2u8; 32]);
    box_.add_vote(a, "one".to_string(), 10);
    assert!(!box_.check_consensus(a, 4));
    box_.add_vote(a, "two".to_string(), 10);
    box_.add_vote(b, "two".to_string(), 10);
    assert_eq!(box_.get_weight(a), 20);
    assert_eq!(box_.get_weight(b), 0);
    assert!(box_.check_consensus(a, 4));
    assert!(!box_.check_consensus(a, 4));
    assert_eq!(box_.get_voters(a).len(), 2);
    box_.remove_voter("two");
    assert_eq!(box_.get_weight(a), 10);
    box_.clear(a);
    assert!(box_.get_all_voters().is_empty());
}

#[test]
fn precommit_votes_keep_signatures() {
    let mut box_ = PrecommitVoteAccumulator::new();
    let a = [1u8; 32];
    box_.add_vote(a, "one".to_string(), vec![1], 10);
    box_.add_vote(a, "two".to_string(), vec![2], 10);
    box_.add_vote(a, "two".to_string(), vec![3], 10);
    assert_eq!(
        box_.get_signatures(a),
        vec![("one".to_string(), vec![1]), ("two".to_string(), vec![2])]
    );
    assert!(box_.check_consensus(a, 4));
    box_.clear_all();
    assert_eq!(box_.get_weight(a), 0);
}

#[test]
fn rounds_on_blocks() {
    let mut engine = engine(3, 1);
    let block = [1u8; 32];
    let tv = &mut engine.timevote;
    tv.generate_prepare_vote(block, "10.0.0.1", 10);
    tv.accumulate_prepare_vote(block, address(2), 10);
    assert_eq!(tv.get_prepare_weight(block), 20);
    assert!(tv.check_prepare_consensus(block));
    tv.generate_precommit_vote(block, "10.0.0.1", 10, vec![1]);
    tv.accumulate_precommit_vote(block, address(2), 10, vec![2]);
    assert_eq!(tv.get_precommit_weight(block), 20);
    assert!(tv.check_precommit_consensus(block));
    assert_eq!(tv.get_precommit_signatures(block).len(), 2);
    tv.cleanup_block_votes(block);
    assert_eq!(tv.get_precommit_weight(block), 0);
    assert_eq!(tv.get_finalized_block_voters(block).len(), 2);
}

#[test]
fn status_moves_through_its_stages() {
    let mut engine = engine(4, 1);
    engine.transition_to_voting_at(TXID, None, 1_000, 1, 0);
    assert!(!engine.check_stall_timeout_at(&TXID, 30 * SECOND));
    assert!(engine.check_stall_timeout_at(&TXID, 30 * SECOND + 1));
    assert_eq!(
        engine.get_stalled_transactions_at(31 * SECOND),
        vec![TXID]
    );
    engine.transition_to_fallback_resolution_at(TXID, 2, 2_000, 600, 40 * SECOND);
    assert!(engine.has_pending_fallback_transactions());
    assert!(engine.timevote.fallback_rounds.get(&TXID).is_some());
    let resumed = engine.resume_sampling_after_fallback_at(TXID, None, 3_000, 3, 50 * SECOND);
    assert_eq!(resumed.unwrap().len(), 0);
    assert!(engine
        .resume_sampling_after_fallback_at(TXID, None, 3_000, 3, 50 * SECOND)
        .unwrap_err()
        .ends_with("not in FallbackResolution state"));
    engine.transition_to_finalized_at(TXID, 30, 5_000);
    assert!(matches!(
        engine.get_tx_status(&TXID),
        Some(TransactionStatus::Finalized {
            finalized_at: 5_000,
            vfp_weight: 30
        })
    ));
    assert_eq!(engine.get_avg_finality_time_ms(), 2_000);
    assert!(engine.timevote.stall_timers.get(&TXID).is_none());
}

fn alert(i: u8) -> LivenessAlert {
    LivenessAlert {
        chain_id: 1,
        txid: TXID,
        tx_hash_commitment: TXID,
        slot_index: 9,
        poll_history: vec![],
        current_confidence: 0,
        stall_duration_ms: 31_000,
        reporter_mn_id: address(i),
        reporter_signature: vec![],
    }
}

fn fallback_vote(i: u8, vote: FallbackVoteDecision) -> FallbackVote {
    FallbackVote {
        chain_id: 1,
        proposal_hash: [8u8; 32],
        vote,
        voter_mn_id: address(i),
        voter_weight: 10,
        voter_signature: vec![],
    }
}

#[test]
fn alerts_and_fallback_votes_decide() {
    let mut engine = engine(4, 1);
    engine.transition_to_voting_at(TXID, None, 1_000, 1, 0);
    assert!(!engine.accumulate_liveness_alert(alert(1), 4));
    assert!(!engine.accumulate_liveness_alert(alert(1), 4));
    assert_eq!(engine.get_alert_count(&TXID), 1);
    assert!(engine.accumulate_liveness_alert(alert(2), 4));

    engine.register_proposal([8u8; 32], TXID);
    assert_eq!(
        engine.accumulate_fallback_vote(fallback_vote(1, FallbackVoteDecision::Approve), 40),
        None
    );
    assert_eq!(
        engine.accumulate_fallback_vote(fallback_vote(2, FallbackVoteDecision::Approve), 40),
        None
    );
    assert_eq!(
        engine.accumulate_fallback_vote(fallback_vote(3, FallbackVoteDecision::Approve), 40),
        Some(FallbackVoteDecision::Approve)
    );
    assert_eq!(engine.get_vote_status(&[8u8; 32]), Some((30, 0, 3)));
    assert_eq!(engine.validate_vote_weight(&[8u8; 32], 40), Ok(()));
    assert!(engine.validate_vote_weight(&[8u8; 32], 27).is_err());
    assert!(!engine.detect_vote_equivocation(&[8u8; 32], "10.0.0.1"));
    engine.finalize_from_fallback_at(TXID, FallbackVoteDecision::Approve, 30, 9_000);
    assert!(matches!(
        engine.get_tx_status(&TXID),
        Some(TransactionStatus::Finalized { .. })
    ));
    engine.flag_byzantine("10.0.0.4", "two votes");
    assert!(engine.is_byzantine_flagged("10.0.0.4"));
    assert_eq!(engine.get_byzantine_count(), 1);
}

#[test]
fn rounds_rotate_and_run_out() {
    let mut engine = engine(4, 1);
    engine.timevote.create_avs_snapshot(1);
    engine.transition_to_fallback_resolution_at(TXID, 2, 2_000, 600, 0);
    assert_eq!(engine.timevote.fallback_rounds.get(&TXID), Some(&(1, 0, 0)));
    let (handled, _) = engine.check_fallback_timeouts_at(&[0u8; 32], 10 * SECOND, 3_000);
    assert_eq!(handled, 0);
    let (handled, _) = engine.check_fallback_timeouts_at(&[0u8; 32], 10 * SECOND + 1, 3_000);
    assert_eq!(handled, 1);
    let round = *engine.timevote.fallback_rounds.get(&TXID).unwrap();
    assert_eq!(round.1, 1);
    assert_eq!(round.2, 10 * SECOND + 1);

    let pending: PendingInputs = PendingInputs::new();
    assert!(engine.resolve_stalls_via_timelock_at(9_000, &pending));
    assert!(engine.timevote.fallback_rounds.get(&TXID).is_none());
}

#[test]
fn rounds_run_in_the_fallback_only() {
    let mut engine = engine(4, 1);
    engine.transition_to_voting_at(TXID, None, 1_000, 1, 0);
    engine.timevote.fallback_rounds.insert(TXID, (7, 0, 0));
    let (handled, proposals) =
        engine.check_fallback_timeouts_at(&[0u8; 32], 60 * SECOND, 3_000);
    assert_eq!(handled, 0);
    assert!(proposals.is_empty());
    assert_eq!(engine.timevote.fallback_rounds.get(&TXID), Some(&(7, 0, 0)));
}

#[test]
fn stalls_are_detected_and_reported() {
    let mut engine = engine(4, 1);
    engine.transition_to_voting_at(TXID, None, 1_000, 1, 0);
    let mut pending: PendingInputs = PendingInputs::new();
    pending.insert(TXID, vec![Some(UTXOState::Unspent)]);
    assert!(engine.detect_stalled_transactions_at(31_000, &pending).is_empty());
    assert_eq!(
        engine.detect_stalled_transactions_at(31_001, &pending),
        vec![TXID]
    );
    let report = engine
        .broadcast_liveness_alert_at(TXID, 9, b"signed bytes", 32_000)
        .unwrap();
    assert_eq!(report.stall_duration_ms, 31_000);
    assert_eq!(report.reporter_mn_id, address(1));
    assert_eq!(
        report.reporter_signature,
        SigningKey::from_bytes(&[1u8; 32])
            .sign(b"signed bytes")
            .to_bytes()
            .to_vec()
    );
    assert!(engine
        .broadcast_liveness_alert_at([1u8; 32], 9, b"", 32_000)
        .unwrap_err()
        .ends_with("not found"));
    let nobody = ConsensusEngine::new(registry(4), 1);
    assert_eq!(
        nobody
            .broadcast_fallback_vote([1u8; 32], FallbackVoteDecision::Approve, 1, b"")
            .err(),
        Some("Node identity not set".to_string())
    );
    let proposal = engine
        .broadcast_finality_proposal(TXID, 9, FallbackDecision::Accept, b"proposal")
        .unwrap();
    assert_eq!(proposal.justification, "Fallback decision for slot 9");
}

#[test]
fn payment_requests_are_kept_until_they_expire() {
    let mut engine = engine(1, 1);
    let request = |id: &str, expires: i64| PaymentRequest {
        id: id.to_string(),
        from_address: "asker".to_string(),
        to_address: "payer".to_string(),
        expires,
    };
    assert!(!engine.store_payment_request_at(request("old", 10), 10));
    assert!(engine.store_payment_request_at(request("a", 11), 10));
    assert!(!engine.store_payment_request_at(request("a", 20), 10));
    assert!(engine.store_payment_request_at(request("b", 20), 10));
    let payer = vec!["payer".to_string()];
    assert_eq!(engine.get_payment_requests_for_at(&payer, 10).len(), 2);
    assert_eq!(engine.get_payment_requests_for_at(&payer, 11).len(), 1);
    assert_eq!(
        engine.get_payment_request_payer("b"),
        Some("payer".to_string())
    );
    assert_eq!(
        engine.get_payment_request_requester("b"),
        Some("asker".to_string())
    );
    engine.cleanup_expired_payment_requests_at(11);
    assert!(engine.get_payment_request_payer("a").is_none());
    assert!(engine.remove_payment_request("b"));
    assert!(!engine.remove_payment_request("b"));
    assert!(ConsensusEngine::payment_clock() > 1_600_000_000);
}

#[test]
fn tables_hold_what_was_put_in() {
    let mut table: Table<String, u32> = Table::new();
    for i in 0..100u32 {
        table.insert(format!("key{}", i), i);
    }
    for i in (0..100u32).step_by(3) {
        assert_eq!(table.remove(&format!("key{}", i)), Some(i));
    }
    assert_eq!(table.len(), 66);
    for i in 0..100u32 {
        let expected = if i % 3 == 0 { None } else { Some(&i) };
        assert_eq!(table.get(&format!("key{}", i)), expected);
    }
    table.insert("key1".to_string(), 1_000);
    assert_eq!(table.get(&"key1".to_string()), Some(&1_000));
    assert_eq!(table.len(), 66);
    table.clear();
    assert!(!table.contains_key(&"key1".to_string()));
}

#[test]
fn clocks_run_forward() {
    let clock = Clock::new();
    let first = clock.nanos();
    let second = clock.nanos();
    assert!(first <= second);
    let engine = engine(1, 1);
    assert!(engine.get_current_slot_index() > 40_000);
}

#[test]
fn errors_and_preferences_have_texts() {
    assert_eq!(Preference::Accept.name(), "Accept");
    assert_eq!(Preference::Reject.name(), "Reject");
    assert_eq!(
        TimeVoteError::TransactionNotFound.message(),
        "Transaction not found"
    );
    assert_eq!(
        TimeVoteError::InsufficientConfidence {
            got: 1,
            threshold: 2
        }
        .message(),
        "Insufficient confidence: got 1, need 2"
    );
    let mut state = VotingState::new(Preference::Accept);
    assert!(state.last_finalized.is_none());
    state.finalize();
    assert_eq!(state.last_finalized, Some(Preference::Accept));
}

#[test]
fn finished_transactions_are_sent_again() {
    let engine = engine(1, 1);
    let tx = || Transaction {
        version: 2,
        inputs: vec![],
        outputs: vec![],
        lock_time: 0,
        timestamp: 0,
        special_data: None,
        encrypted_memo: None,
    };
    assert!(matches!(
        engine.rebroadcast_transaction(TXID, Some(tx()), true, true),
        Some(NetworkMessage::TransactionFinalized { txid: TXID, .. })
    ));
    assert!(engine
        .rebroadcast_transaction(TXID, Some(tx()), false, true)
        .is_none());
    assert!(engine.rebroadcast_transaction(TXID, None, true, true).is_none());
    let plan = engine.generate_deterministic_block(5, &vec![(tx(), 3), (tx(), 4)]);
    assert_eq!(plan.fees, vec![3, 4]);
    assert_eq!(plan.masternodes.len(), 1);
    assert_eq!(plan.base_reward, 100);
}
