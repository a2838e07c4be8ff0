//! The node's smaller calls, on the machine's own clock where they read one.

use ed25519_dalek::SigningKey;
use sha2::{Digest, Sha256};
use timevote::connections::{ConnectionManager, PeerConnectionState};
use timevote::dialer::NetworkClient;
use timevote::engine::ConsensusEngine;
use timevote::fallback::PendingInputs;
use timevote::messages::NetworkMessage;
use timevote::ping::{ForkResolutionAttempt, PingState};
use timevote::types::{
    AVSSnapshot, FallbackDecision, FallbackVote, FallbackVoteDecision, LivenessAlert,
    Masternode, MasternodeInfo, MasternodeRegistry, MasternodeTier, NetworkType, OutPoint, PaymentRequest,
    TierWeights, TimeProof, Transaction, TransactionStatus, TxInput, TxOutput, ValidatorInfo,
    VoteDecision,
};

const TXID: [u8; 32] = [5u8; 32];

fn address(i: u8) -> String {
    format!("10.0.0.{}", i)
}

fn engine(count: u8) -> ConsensusEngine {
    let mut registry = MasternodeRegistry::new(TierWeights {
        free: 1,
        bronze: 10,
        silver: 100,
        gold: 1000,
    });
    for i in 1..=count {
        registry.nodes.push(MasternodeInfo {
            masternode: Masternode::new_legacy(
                address(i),
                format!("wallet{}", i),
                1000,
                SigningKey::from_bytes(&[i; 32]).verifying_key().to_bytes(),
                MasternodeTier::Bronze,
                0,
            ),
            reward_address: format!("reward{}", i),
            is_active: i != 4,
        });
    }
    let mut engine = ConsensusEngine::new(registry, 1);
    engine.set_identity(address(1), [1u8; 32]).unwrap();
    engine
}

#[test]
fn masternodes_are_listed() {
    let engine = engine(4);
    assert_eq!(engine.get_masternodes().len(), 3);
    assert_eq!(engine.get_active_masternodes().len(), 3);
    assert_eq!(engine.timevote.masternode_registry.list_all().len(), 4);
    assert!(engine.is_masternode("10.0.0.3"));
    assert!(!engine.is_masternode("10.0.0.9"));
    assert_eq!(
        engine.timevote.get_validator_addresses(),
        vec![address(1), address(2), address(3)]
    );
    let rewards: Vec<String> = engine
        .get_masternodes_with_rewards()
        .into_iter()
        .map(|(_, reward)| reward)
        .collect();
    assert_eq!(rewards, vec!["reward1", "reward2", "reward3"]);
}

#[test]
fn blocks_are_timed() {
    let mut engine = engine(2);
    let block = [7u8; 32];
    engine.update_prev_block_hash(block);
    assert_eq!(engine.get_prev_block_hash(), block);
    engine.record_block_finalized(block);
    assert!(engine.finality_times.get(&block).is_none());
    engine.record_block_received(block);
    assert!(engine.finality_times.get(&block).unwrap().1.is_none());
    engine.record_block_finalized(block);
    let (received, finished) = *engine.finality_times.get(&block).unwrap();
    assert!(finished.unwrap() >= received);
    assert_eq!(engine.avg_finality_ms.len(), 1);
}

#[test]
fn blocks_count_toward_the_average() {
    let mut engine = engine(2);
    assert_eq!(engine.get_avg_finality_time_ms(), 750);
    for i in 0..25u8 {
        let block = [i; 32];
        engine.record_block_received_at(block, 5_000_000);
        engine.record_block_finalized_at(block, 5_999_999 + 10_000_000 * i as u64);
    }
    let kept: Vec<u64> = (5..25u64).map(|i| 10 * i).collect();
    assert_eq!(engine.avg_finality_ms, kept);
    assert_eq!(engine.get_avg_finality_time_ms(), 145);
    engine.record_block_finalized_at([99u8; 32], 9_000_000);
    assert_eq!(engine.avg_finality_ms, kept);
    engine.transition_to_voting_at(TXID, None, 1_000, 1, 0);
    engine.transition_to_finalized_at(TXID, 1, 1_450);
    assert_eq!(engine.avg_finality_ms.len(), 20);
    assert_eq!(engine.get_avg_finality_time_ms(), 165);
}

fn round_digest(slot: u64, round: u32, prev: &[u8; 32], candidate: &[u8]) -> Vec<u8> {
    let mut data = TXID.to_vec();
    data.extend_from_slice(&slot.to_le_bytes());
    data.extend_from_slice(&round.to_le_bytes());
    data.extend_from_slice(prev);
    data.extend_from_slice(candidate);
    Sha256::digest(&data).to_vec()
}

#[test]
fn rounds_are_led_by_the_least_key() {
    let engine = engine(3);
    let prev = [8u8; 32];
    let mut snapshot = AVSSnapshot {
        slot_index: 4,
        validators: vec![],
    };
    assert!(engine
        .elect_fallback_leader(TXID, 4, 0, &snapshot, &prev)
        .is_none());
    let mut candidates: Vec<(String, Vec<u8>)> = (1..=3u8)
        .map(|i| {
            let key = SigningKey::from_bytes(&[i; 32]).verifying_key();
            (address(i), key.to_bytes().to_vec())
        })
        .collect();
    candidates.push((address(9), address(9).into_bytes()));
    for (who, _) in &candidates {
        snapshot.validators.push(ValidatorInfo {
            address: who.clone(),
            weight: 10,
        });
    }
    let mut leaders: Vec<String> = vec![];
    for round in 0..20u32 {
        let expected = candidates
            .iter()
            .min_by_key(|(_, id)| round_digest(4, round, &prev, id))
            .unwrap()
            .0
            .clone();
        let leader = engine.elect_fallback_leader(TXID, 4, round, &snapshot, &prev);
        assert_eq!(leader, Some(expected.clone()));
        assert_eq!(
            engine.is_fallback_leader(TXID, 4, round, &snapshot, &prev),
            expected == address(1)
        );
        snapshot.validators.reverse();
        assert_eq!(
            engine.elect_fallback_leader(TXID, 4, round, &snapshot, &prev),
            leader
        );
        leaders.push(expected);
    }
    leaders.sort();
    leaders.dedup();
    assert!(leaders.len() > 1);
}

#[test]
fn validators_vote_for_what_they_know() {
    let mut engine = engine(2);
    let snapshot = engine.timevote.create_avs_snapshot(3);
    let vote = engine
        .generate_finality_vote(TXID, Some(b"transaction"), 3, &snapshot)
        .unwrap();
    assert_eq!(vote.decision, VoteDecision::Accept);
    assert_eq!(vote.voter_weight, 10);
    let public = SigningKey::from_bytes(&[1u8; 32]).verifying_key().to_bytes();
    assert_eq!(vote.verify(&public), Ok(()));
    assert!(engine
        .generate_finality_vote(TXID, None, 3, &snapshot)
        .is_none());
    let other = ConsensusEngine::new(engine.timevote.masternode_registry.clone(), 1);
    assert!(other
        .generate_finality_vote(TXID, Some(b"transaction"), 3, &snapshot)
        .is_none());
}

#[test]
fn wallets_sign_for_their_addresses() {
    let mut engine = engine(1);
    engine.set_wallet_signing_key([9u8; 32]).unwrap();
    let child = engine.derive_child_key_at(2).unwrap();
    engine.register_derived_address("derived".to_string(), 2);
    let mut tx = Transaction {
        version: 2,
        inputs: vec![TxInput {
            previous_output: OutPoint {
                txid: [1u8; 32],
                vout: 0,
            },
            script_sig: vec![],
            sequence: 0,
        }],
        outputs: vec![TxOutput {
            value: 1,
            script_pubkey: vec![],
        }],
        lock_time: 0,
        timestamp: 0,
        special_data: None,
        encrypted_memo: None,
    };
    let hash = [4u8; 32];
    engine
        .sign_transaction_for_address(&mut tx, "derived", &hash)
        .unwrap();
    let public = SigningKey::from_bytes(&child).verifying_key().to_bytes();
    assert_eq!(&tx.inputs[0].script_sig[..32], &public);
    engine
        .sign_transaction_for_address(&mut tx, "elsewhere", &hash)
        .unwrap();
    let own = SigningKey::from_bytes(&[9u8; 32]).verifying_key().to_bytes();
    assert_eq!(&tx.inputs[0].script_sig[..32], &own);
    let nobody = ConsensusEngine::new(engine.timevote.masternode_registry.clone(), 1);
    assert_eq!(
        nobody.sign_transaction_for_address(&mut tx, "derived", &hash),
        Err("No signing key for address derived".to_string())
    );
}

#[test]
fn messages_carry_what_was_handed_in() {
    let engine = engine(2);
    let vote = engine
        .sign_timevote(TXID, [6u8; 32], 1, VoteDecision::Accept)
        .unwrap();
    assert!(matches!(
        engine.broadcast_finality_vote(vote.clone()),
        NetworkMessage::FinalityVoteBroadcast { vote } if vote.txid == TXID
    ));
    let shown = TimeProof {
        txid: TXID,
        slot_index: 1,
        votes: vec![vote],
    };
    assert!(matches!(
        engine.broadcast_timeproof(shown),
        NetworkMessage::TimeProofBroadcast { proof } if proof.votes.len() == 1
    ));
    let request = PaymentRequest {
        id: "id".to_string(),
        from_address: "asker".to_string(),
        to_address: "payer".to_string(),
        expires: 1,
    };
    assert!(matches!(
        engine.broadcast_payment_request(request),
        NetworkMessage::PaymentRequestRelay(request) if request.id == "id"
    ));
    assert!(matches!(
        engine.broadcast_payment_request_response(
            "id".to_string(),
            "asker".to_string(),
            "payer".to_string(),
            true,
            None,
        ),
        NetworkMessage::PaymentRequestResponse { accepted: true, payer_address, .. }
            if payer_address == "payer"
    ));
    assert!(matches!(
        engine.broadcast_payment_request_cancelled("id".to_string(), "asker".to_string()),
        NetworkMessage::PaymentRequestCancelled { requester_address, .. }
            if requester_address == "asker"
    ));
    assert!(matches!(
        engine.broadcast_payment_request_viewed(
            "id".to_string(),
            "asker".to_string(),
            "payer".to_string(),
        ),
        NetworkMessage::PaymentRequestViewed { payer_address, .. } if payer_address == "payer"
    ));
    let chosen = vec![(
        Masternode::new_legacy(
            address(7),
            "wallet".to_string(),
            1,
            [0u8; 32],
            MasternodeTier::Gold,
            0,
        ),
        "reward".to_string(),
    )];
    let plan = engine.generate_deterministic_block_with_masternodes(9, &vec![], chosen.clone());
    assert_eq!(plan.height, 9);
    assert_eq!(plan.masternodes[0].1, "reward");
    let plan = engine.generate_deterministic_block_with_eligible(8, &vec![], chosen);
    assert_eq!(plan.masternodes[0].0.address, address(7));
}

#[test]
fn statuses_change_on_the_clock() {
    let mut engine = engine(4);
    assert!(engine.transition_to_voting(TXID, None).is_empty());
    assert!(!engine.check_stall_timeout(&TXID));
    assert!(engine.get_stalled_transactions().is_empty());
    assert_eq!(
        engine.decide_fallback_vote(&TXID),
        FallbackVoteDecision::Approve
    );
    let voting = engine.get_tx_status(&TXID).unwrap();
    assert_eq!(engine.get_transactions_by_status(&voting), vec![TXID]);
    engine.transition_to_fallback_resolution(TXID, 2);
    assert!(engine.has_pending_fallback_transactions());
    assert!(engine.resume_sampling_after_fallback(TXID, None).is_ok());
    engine.transition_to_finalized(TXID, 30);
    assert!(matches!(
        engine.get_tx_status(&TXID),
        Some(TransactionStatus::Finalized { vfp_weight: 30, .. })
    ));
    assert_eq!(
        engine.decide_fallback_vote(&TXID),
        FallbackVoteDecision::Reject
    );
    let other = [6u8; 32];
    engine.start_stall_timer(other);
    engine.stop_stall_timer(&other);
    assert!(engine.timevote.stall_timers.get(&other).is_none());
    engine.set_tx_status(
        other,
        TransactionStatus::Rejected {
            rejected_at: 1,
            reason: "no".to_string(),
        },
    );
    engine.transition_to_rejected(other, "again".to_string());
    assert!(matches!(
        engine.get_tx_status(&other),
        Some(TransactionStatus::Rejected { reason, .. }) if reason == "again"
    ));
    engine.finalize_from_fallback(other, FallbackVoteDecision::Approve, 40);
    assert!(matches!(
        engine.get_tx_status(&other),
        Some(TransactionStatus::Finalized { vfp_weight: 40, .. })
    ));
    assert!(engine
        .broadcast_liveness_alert(other, 1, b"")
        .unwrap_err()
        .ends_with("not in Voting state"));
}

#[test]
fn counters_count() {
    let mut engine = engine(4);
    engine.record_fallback_activation();
    engine.record_stall_detection();
    engine.record_timelock_resolution();
    let metrics = engine.get_fallback_metrics();
    assert_eq!(metrics.total_fallback_activations, 1);
    assert_eq!(metrics.total_stall_detections, 1);
    assert_eq!(metrics.total_timelock_resolutions, 1);
    assert_eq!(metrics.total_fallback_votes, 0);
    assert_eq!(engine.timevote.get_metrics().txs_finalized, 0);
    engine.timevote.record_finalization(TXID, 9);
    assert_eq!(engine.timevote.get_metrics().txs_finalized, 1);
    assert_eq!(engine.cleanup_old_finalized(3600), 0);
    assert!(!engine.resolve_stalls_via_timelock(&PendingInputs::new()));
    let (handled, proposals) = engine.check_fallback_timeouts(&[0u8; 32]);
    assert_eq!(handled, 0);
    assert!(proposals.is_empty());
}

#[test]
fn double_dealing_is_seen() {
    let mut engine = engine(4);
    let alert = || LivenessAlert {
        chain_id: 1,
        txid: TXID,
        tx_hash_commitment: TXID,
        slot_index: 9,
        poll_history: vec![],
        current_confidence: 0,
        stall_duration_ms: 31_000,
        reporter_mn_id: address(2),
        reporter_signature: vec![],
    };
    engine.accumulate_liveness_alert(alert(), 4);
    assert_eq!(engine.validate_alert_threshold(&TXID, 4), Ok(false));
    assert_eq!(
        engine.validate_alert_threshold(&TXID, 0),
        Err("No masternodes in network".to_string())
    );
    assert!(!engine.detect_alert_equivocation(&TXID, "10.0.0.2"));
    engine
        .timevote
        .liveness_alerts
        .insert(TXID, vec![alert(), alert()]);
    assert!(engine.detect_alert_equivocation(&TXID, "10.0.0.2"));
    let vote = |decision| FallbackVote {
        chain_id: 1,
        proposal_hash: [8u8; 32],
        vote: decision,
        voter_mn_id: address(2),
        voter_weight: 10,
        voter_signature: vec![],
    };
    engine.accumulate_fallback_vote(vote(FallbackVoteDecision::Approve), 40);
    engine.accumulate_fallback_vote(vote(FallbackVoteDecision::Reject), 40);
    assert!(engine.detect_vote_equivocation(&[8u8; 32], "10.0.0.2"));
    engine.register_proposal([8u8; 32], TXID);
    engine.register_proposal([9u8; 32], TXID);
    assert_eq!(engine.detect_multiple_proposals(&TXID).len(), 2);
    assert_eq!(engine.get_proposal_txid(&[9u8; 32]), Some(TXID));
}

#[test]
fn leaders_propose_by_preference() {
    let mut engine = engine(2);
    assert_eq!(
        engine.determine_fallback_decision(&TXID),
        FallbackDecision::Reject
    );
    let prev = engine.get_prev_block_hash();
    let avs = engine.timevote.create_avs_snapshot(4);
    let led = |engine: &ConsensusEngine, round: u32| {
        engine.is_fallback_leader(TXID, 4, round, &avs, &prev)
    };
    let round = (0..100).find(|r| led(&engine, *r)).unwrap();
    let other = (0..100).find(|r| !led(&engine, *r)).unwrap();
    assert_eq!(
        engine
            .execute_fallback_as_leader(TXID, 4, other, &avs, b"proposal")
            .err(),
        Some(format!(
            "Not the fallback leader of transaction {}",
            hex::encode(TXID)
        ))
    );
    assert!(engine.timevote.fallback_rounds.get(&TXID).is_none());
    let made = engine
        .execute_fallback_as_leader_at(TXID, 4, round, &avs, b"proposal", 77)
        .unwrap();
    assert_eq!(made.decision, FallbackDecision::Reject);
    assert_eq!(
        engine.timevote.fallback_rounds.get(&TXID),
        Some(&(4, round, 77))
    );
    engine.transition_to_fallback_resolution(TXID, 2);
    engine.timevote.fallback_rounds.insert(TXID, (4, round, 78));
    assert_eq!(engine.leader_duties(4, &vec![]), vec![(TXID, 4, round)]);
    let elsewhere = vec![(TXID, 3, round), (TXID, 4, round + 1), ([1u8; 32], 4, round)];
    assert_eq!(engine.leader_duties(4, &elsewhere).len(), 1);
    assert!(engine.leader_duties(4, &vec![(TXID, 4, round)]).is_empty());
    assert!(engine.leader_duties(5, &vec![]).is_empty());
    engine.timevote.fallback_rounds.insert(TXID, (4, other, 78));
    assert!(engine.leader_duties(4, &vec![]).is_empty());
    let mut nobody = ConsensusEngine::new(engine.timevote.masternode_registry.clone(), 1);
    assert_eq!(
        nobody
            .execute_fallback_as_leader(TXID, 4, round, &avs, b"proposal")
            .err(),
        Some("Node identity not set".to_string())
    );
}

#[test]
fn higher_blocks_start_over() {
    let mut engine = engine(3);
    let block = [1u8; 32];
    let tv = &mut engine.timevote;
    tv.advance_vote_height(5);
    tv.accumulate_prepare_vote(block, address(1), 10);
    tv.advance_vote_height(5);
    assert_eq!(tv.get_prepare_weight(block), 10);
    tv.advance_vote_height(6);
    assert_eq!(tv.get_prepare_weight(block), 0);
    assert_eq!(tv.get_finalized_block_voters(block), vec![address(1)]);
}

#[test]
fn requests_expire_on_the_clock() {
    let mut engine = engine(1);
    let request = PaymentRequest {
        id: "id".to_string(),
        from_address: "asker".to_string(),
        to_address: "payer".to_string(),
        expires: i64::MAX,
    };
    assert!(engine.store_payment_request(request));
    engine.cleanup_expired_payment_requests();
    let mine = engine.get_payment_requests_for(&vec!["payer".to_string()]);
    assert_eq!(mine.len(), 1);
    assert_eq!(mine[0].id, "id");
}

#[test]
fn competing_proofs_are_dated() {
    let mut engine = engine(2);
    for weight in [1u64, 2] {
        let vote = engine
            .sign_timevote(TXID, [6u8; 32], 1, VoteDecision::Accept)
            .unwrap();
        let shown = TimeProof {
            txid: TXID,
            slot_index: 1,
            votes: vec![vote],
        };
        engine
            .timevote
            .detect_competing_timeproof(shown, weight)
            .unwrap();
    }
    let info = engine.timevote.get_conflict_info(TXID, 1).unwrap();
    assert!(info.detected_at > 1_600_000_000);
    assert_eq!(info.proof_weights, vec![10, 2]);
}

#[test]
fn connections_come_and_go() {
    let mut manager = ConnectionManager::new();
    manager.set_local_ip("10.0.0.5".to_string());
    assert!(manager.mark_connecting("10.0.0.1"));
    assert_eq!(manager.get_connecting_peers(), vec!["10.0.0.1".to_string()]);
    assert!(manager.abort_connecting("10.0.0.1"));
    assert!(manager.mark_connecting("10.0.0.1"));
    assert!(manager.mark_failed("10.0.0.1"));
    assert!(manager.mark_connecting("10.0.0.1"));
    let session = manager.mark_connected("10.0.0.1").unwrap();
    manager.record_activity("10.0.0.1");
    assert!(manager.get_unresponsive_peers(3_600_000_000_000).is_empty());
    assert!(manager.time_since_disconnect("10.0.0.1").is_some());
    assert!(manager.time_since_disconnect("10.0.0.9").is_none());
    assert!(!manager.mark_outbound_disconnected("10.0.0.1", session + 1));
    manager.mark_disconnected("10.0.0.1");
    assert!(!manager.is_connected("10.0.0.1"));
    manager.mark_reconnecting("10.0.0.1", 5, 2);
    assert!(manager.is_reconnecting("10.0.0.1"));
    assert!(!manager.passive_wait_expired("10.0.0.9"));
    let info = manager.connections.get(&"10.0.0.1".to_string()).unwrap();
    assert_eq!(info.state, PeerConnectionState::Reconnecting);
}

#[test]
fn clients_learn_of_trusted_peers() {
    let mut client = NetworkClient::new(NetworkType::Mainnet, 24000, 50, None, vec![]);
    client.set_discovered_peer_ips(vec!["10.0.0.1".to_string()]);
    assert_eq!(client.discovered_peer_ips, vec!["10.0.0.1".to_string()]);
}

#[test]
fn attempts_and_pings_run_on_the_clock() {
    let mut attempt = ForkResolutionAttempt::new(5, 6);
    assert!(!attempt.should_give_up());
    attempt.increment();
    assert_eq!(attempt.attempt_count, 2);
    let mut state = PingState::new();
    state.record_ping_sent(1);
    assert!(!state.check_timeout(10, 300_000_000_000));
    assert!(state.record_pong_received(1));
}
