//! The liveness fallback: alerts, leaders, rounds, proposals and votes.

use ed25519_dalek::SigningKey;
use sha2::{Digest, Sha256};
use std::time::Duration;
use timevote::fallback::compute_fallback_leader;
use timevote::status::{
    FALLBACK_MIN_DURATION, FALLBACK_ROUND_TIMEOUT, MAX_FALLBACK_ROUNDS, STALL_TIMEOUT,
};
use timevote::table::Table;
use timevote::thresholds::{alert_threshold, fallback_quorum};
use timevote::timevote::{Preference, TimeVoteConfig, TimeVoteConsensus, TimeVoteError};
use timevote::types::{
    FallbackVote, FallbackVoteDecision, LivenessAlert, Masternode, MasternodeRegistry,
    MasternodeTier, TierWeights,
};

fn create_test_registry() -> MasternodeRegistry {
    MasternodeRegistry::new(TierWeights {
        free: 1,
        bronze: 10,
        silver: 100,
        gold: 1000,
    })
}

fn test_txid(byte: u8) -> [u8; 32] {
    [byte; 32]
}

fn push_alert(table: &mut Table<[u8; 32], Vec<LivenessAlert>>, txid: [u8; 32], alert: LivenessAlert) {
    let mut alerts = table.remove(&txid).unwrap_or_default();
    alerts.push(alert);
    table.insert(txid, alerts);
}

fn push_vote(table: &mut Table<[u8; 32], Vec<FallbackVote>>, hash: [u8; 32], vote: FallbackVote) {
    let mut votes = table.remove(&hash).unwrap_or_default();
    votes.push(vote);
    table.insert(hash, votes);
}

fn alert_from(txid: [u8; 32], reporter: String) -> LivenessAlert {
    LivenessAlert {
        chain_id: 1,
        txid,
        tx_hash_commitment: [0u8; 32],
        slot_index: 1000,
        poll_history: vec![],
        current_confidence: 5,
        stall_duration_ms: 30000,
        reporter_mn_id: reporter,
        reporter_signature: vec![],
    }
}

fn vote_from(proposal_hash: [u8; 32], vote: FallbackVoteDecision, voter: String) -> FallbackVote {
    FallbackVote {
        chain_id: 1,
        proposal_hash,
        vote,
        voter_mn_id: voter,
        voter_weight: 1_000_000_000,
        voter_signature: vec![],
    }
}

fn weight_of(votes: &[FallbackVote], decision: FallbackVoteDecision) -> u64 {
    votes
        .iter()
        .filter(|v| v.vote == decision)
        .map(|v| v.voter_weight)
        .sum()
}

fn reporters(alerts: &[LivenessAlert]) -> usize {
    let unique: std::collections::HashSet<&String> =
        alerts.iter().map(|a| &a.reporter_mn_id).collect();
    unique.len()
}

#[test]
fn test_timevote_init() {
    let config = TimeVoteConfig::default();
    let registry = create_test_registry();
    let av = TimeVoteConsensus::new(config, registry).unwrap();
    assert_eq!(av.masternode_registry.list_active().len(), 0);
}

#[test]
fn test_validator_management() {
    let config = TimeVoteConfig::default();
    let registry = create_test_registry();
    let av = TimeVoteConsensus::new(config, registry).unwrap();
    assert_eq!(av.masternode_registry.list_active().len(), 0);
    assert_eq!(av.get_validators().len(), 0);
}

#[test]
fn test_initiate_consensus() {
    let config = TimeVoteConfig::default();
    let registry = create_test_registry();
    let mut av = TimeVoteConsensus::new(config, registry).unwrap();
    let txid = test_txid(1);

    assert!(av.initiate_consensus(txid, Preference::Accept));
    assert!(!av.initiate_consensus(txid, Preference::Accept));

    let (pref, finalized) = av.get_tx_state(&txid).unwrap();
    assert_eq!(pref, Preference::Accept);
    assert!(!finalized);
}

#[test]
fn test_invalid_config() {
    let config = TimeVoteConfig {
        sample_size: 0,
        ..Default::default()
    };
    assert!(TimeVoteConsensus::new(config, create_test_registry()).is_err());

    let config = TimeVoteConfig {
        finality_confidence: 0,
        ..Default::default()
    };
    assert!(TimeVoteConsensus::new(config, create_test_registry()).is_err());
}

#[test]
fn config_errors_are_told_apart() {
    let config = TimeVoteConfig {
        sample_size: 0,
        ..Default::default()
    };
    let error = TimeVoteConsensus::new(config, create_test_registry())
        .err()
        .unwrap();
    assert!(matches!(error, TimeVoteError::ConfigError(_)));
    assert!(error.message().starts_with("Configuration error"));
}

#[test]
fn test_compute_fallback_leader_deterministic() {
    let mut avs = Vec::new();
    for i in 0..5 {
        let signing_key = SigningKey::from_bytes(&[i; 32]);
        avs.push(Masternode::new_legacy(
            format!("mn{}", i),
            format!("wallet{}", i),
            1000,
            signing_key.verifying_key().to_bytes(),
            MasternodeTier::Bronze,
            0,
        ));
    }

    let txid = [1u8; 32];
    let slot_index = 100;

    let prev_hash = [0u8; 32];
    let leader1 = compute_fallback_leader(&txid, slot_index, &avs, &prev_hash);
    let leader2 = compute_fallback_leader(&txid, slot_index, &avs, &prev_hash);
    assert_eq!(leader1, leader2);
    assert!(leader1.is_some());

    let leader3 = compute_fallback_leader(&txid, slot_index + 1, &avs, &prev_hash);
    assert!(leader3.is_some());

    let txid2 = [2u8; 32];
    let leader4 = compute_fallback_leader(&txid2, slot_index, &avs, &prev_hash);
    assert!(leader4.is_some());
}

#[test]
fn test_compute_fallback_leader_empty_avs() {
    let txid = [1u8; 32];
    let slot_index = 100;
    let avs: Vec<Masternode> = Vec::new();

    let leader = compute_fallback_leader(&txid, slot_index, &avs, &[0u8; 32]);
    assert!(leader.is_none());
}

#[test]
fn leader_has_the_least_digest() {
    let txid = [7u8; 32];
    let prev_hash = [9u8; 32];
    let slot_index = 12u64;
    let avs: Vec<Masternode> = (0..6u8)
        .map(|i| {
            Masternode::new_legacy(
                format!("mn{}", i),
                format!("wallet{}", i),
                1000,
                SigningKey::from_bytes(&[i; 32]).verifying_key().to_bytes(),
                MasternodeTier::Bronze,
                0,
            )
        })
        .collect();
    let mut best: Option<(Vec<u8>, String)> = None;
    for mn in &avs {
        let mut hasher = Sha256::new();
        hasher.update(txid);
        hasher.update(slot_index.to_le_bytes());
        hasher.update(prev_hash);
        hasher.update(mn.public_key);
        let score = hasher.finalize().to_vec();
        if best.is_none() || score < best.as_ref().unwrap().0 {
            best = Some((score, mn.address.clone()));
        }
    }
    assert_eq!(
        compute_fallback_leader(&txid, slot_index, &avs, &prev_hash),
        Some(best.unwrap().1)
    );
}

#[test]
fn test_fallback_tracking_lifecycle() {
    let config = TimeVoteConfig::default();
    let registry = create_test_registry();
    let mut consensus = TimeVoteConsensus::new(config, registry).unwrap();
    let txid = [99u8; 32];

    assert!(consensus.fallback_rounds.get(&txid).is_none());

    let now = consensus.clock.nanos();
    consensus.fallback_rounds.insert(txid, (100, 0, now));

    assert!(consensus.fallback_rounds.get(&txid).is_some());

    consensus.fallback_rounds.remove(&txid);

    assert!(consensus.fallback_rounds.get(&txid).is_none());
}

#[test]
fn test_q_finality_calculation() {
    let total1 = 6_000_000_000u64;
    let q1 = fallback_quorum(total1);
    assert_eq!(q1, 4_000_000_000u64);

    let total2 = 10_000_000_000u64;
    let q2 = fallback_quorum(total2);
    assert!((6_666_666_666u64..=6_666_666_667u64).contains(&q2));

    let total3 = 3_000_000_000u64;
    let q3 = fallback_quorum(total3);
    assert_eq!(q3, 2_000_000_000u64);
}

#[test]
fn test_f_plus_1_threshold() {
    let n4 = 4;
    let f4 = (n4 - 1) / 3;
    assert_eq!(f4, 1);
    assert_eq!(alert_threshold(n4), 2);
    assert_eq!(f4 + 1, 2);

    let n10 = 10;
    let f10 = (n10 - 1) / 3;
    assert_eq!(f10, 3);
    assert_eq!(alert_threshold(n10), 4);
    assert_eq!(f10 + 1, 4);

    let n100 = 100;
    let f100 = (n100 - 1) / 3;
    assert_eq!(f100, 33);
    assert_eq!(alert_threshold(n100), 34);
    assert_eq!(f100 + 1, 34);
}

#[test]
fn test_fallback_timeout_constant() {
    assert_eq!(
        Duration::from_secs(FALLBACK_ROUND_TIMEOUT),
        Duration::from_secs(10)
    );
}

#[test]
fn test_max_fallback_rounds_constant() {
    assert_eq!(MAX_FALLBACK_ROUNDS, 5);

    let worst_case_ms = (MAX_FALLBACK_ROUNDS as u64) * 10 * 1000;
    assert_eq!(worst_case_ms, 50_000);
}

#[test]
fn stall_and_resolution_times() {
    assert_eq!(STALL_TIMEOUT, 30);
    assert_eq!(FALLBACK_MIN_DURATION, 20);
}

#[test]
fn test_proposal_tx_mapping_operations() {
    let config = TimeVoteConfig::default();
    let registry = create_test_registry();
    let mut consensus = TimeVoteConsensus::new(config, registry).unwrap();

    let txid = [100u8; 32];
    let proposal_hash = [200u8; 32];

    assert!(consensus.proposal_to_tx.get(&proposal_hash).is_none());

    consensus.proposal_to_tx.insert(proposal_hash, txid);

    let retrieved = consensus.proposal_to_tx.get(&proposal_hash);
    assert!(retrieved.is_some());
    assert_eq!(*retrieved.unwrap(), txid);

    consensus.proposal_to_tx.remove(&proposal_hash);

    assert!(consensus.proposal_to_tx.get(&proposal_hash).is_none());
}

#[test]
fn test_liveness_alerts_accumulation() {
    let config = TimeVoteConfig::default();
    let registry = create_test_registry();
    let mut consensus = TimeVoteConsensus::new(config, registry).unwrap();

    let txid = [101u8; 32];

    assert!(consensus.liveness_alerts.get(&txid).is_none());

    let alerts = Vec::new();
    consensus.liveness_alerts.insert(txid, alerts);

    assert!(consensus.liveness_alerts.get(&txid).is_some());

    consensus.liveness_alerts.remove(&txid);
    assert!(consensus.liveness_alerts.get(&txid).is_none());
}

#[test]
fn test_fallback_votes_accumulation() {
    let config = TimeVoteConfig::default();
    let registry = create_test_registry();
    let mut consensus = TimeVoteConsensus::new(config, registry).unwrap();

    let proposal_hash = [202u8; 32];

    assert!(consensus.fallback_votes.get(&proposal_hash).is_none());

    let votes = Vec::new();
    consensus.fallback_votes.insert(proposal_hash, votes);

    assert!(consensus.fallback_votes.get(&proposal_hash).is_some());

    consensus.fallback_votes.remove(&proposal_hash);
    assert!(consensus.fallback_votes.get(&proposal_hash).is_none());
}

#[test]
fn test_leader_election_determinism() {
    let txid = [123u8; 32];
    let slot_index = 456u64;

    let avs: Vec<Masternode> = (0..5)
        .map(|i| {
            let signing_key = SigningKey::from_bytes(&[i; 32]);
            Masternode::new_legacy(
                format!("mn{}", i),
                format!("wallet{}", i),
                1_000_000_000,
                signing_key.verifying_key().to_bytes(),
                MasternodeTier::Bronze,
                0,
            )
        })
        .collect();

    let prev_hash = [0u8; 32];
    let leader1 = compute_fallback_leader(&txid, slot_index, &avs, &prev_hash);
    let leader2 = compute_fallback_leader(&txid, slot_index, &avs, &prev_hash);
    let leader3 = compute_fallback_leader(&txid, slot_index, &avs, &prev_hash);

    assert_eq!(leader1, leader2);
    assert_eq!(leader2, leader3);
}

#[test]
fn test_phase6_alert_accumulation() {
    let config = TimeVoteConfig::default();
    let registry = create_test_registry();
    let mut consensus = TimeVoteConsensus::new(config, registry).unwrap();

    let txid = [42u8; 32];

    assert!(consensus.liveness_alerts.get(&txid).is_none());

    for i in 0..3 {
        let alert = alert_from(txid, format!("mn_{}", i));
        push_alert(&mut consensus.liveness_alerts, txid, alert);
    }

    let alerts = consensus.liveness_alerts.get(&txid).unwrap();
    assert_eq!(alerts.len(), 3);
    assert_eq!(reporters(alerts), 3);
}

#[test]
fn test_phase6_vote_accumulation() {
    let config = TimeVoteConfig::default();
    let registry = create_test_registry();
    let mut consensus = TimeVoteConsensus::new(config, registry).unwrap();

    let proposal_hash = [42u8; 32];

    assert!(consensus.fallback_votes.get(&proposal_hash).is_none());

    for i in 0..5 {
        let vote = vote_from(
            proposal_hash,
            FallbackVoteDecision::Approve,
            format!("mn_{}", i),
        );
        push_vote(&mut consensus.fallback_votes, proposal_hash, vote);
    }

    let votes = consensus.fallback_votes.get(&proposal_hash).unwrap();
    assert_eq!(votes.len(), 5);
    assert_eq!(
        weight_of(votes, FallbackVoteDecision::Approve),
        5_000_000_000
    );
}

#[test]
fn test_phase6_proposal_tracking() {
    let config = TimeVoteConfig::default();
    let registry = create_test_registry();
    let mut consensus = TimeVoteConsensus::new(config, registry).unwrap();

    let txid = [42u8; 32];
    let proposal_hash = [1u8; 32];

    consensus.proposal_to_tx.insert(proposal_hash, txid);

    let found_txid = consensus.proposal_to_tx.get(&proposal_hash).map(|v| *v);
    assert_eq!(found_txid, Some(txid));

    let fake_hash = [99u8; 32];
    assert!(consensus.proposal_to_tx.get(&fake_hash).is_none());
}

#[test]
fn test_phase6_fallback_round_tracking() {
    let config = TimeVoteConfig::default();
    let registry = create_test_registry();
    let mut consensus = TimeVoteConsensus::new(config, registry).unwrap();

    let txid = [42u8; 32];
    let slot_index = 1000u64;
    let round = 2u32;

    assert!(consensus.fallback_rounds.get(&txid).is_none());

    let now = consensus.clock.nanos();
    consensus
        .fallback_rounds
        .insert(txid, (slot_index, round, now));

    let (stored_slot, stored_round, _) = *consensus.fallback_rounds.get(&txid).unwrap();
    assert_eq!(stored_slot, slot_index);
    assert_eq!(stored_round, round);
}

#[test]
fn test_phase6_q_finality_threshold() {
    let config = TimeVoteConfig::default();
    let registry = create_test_registry();
    let mut consensus = TimeVoteConsensus::new(config, registry).unwrap();

    let proposal_hash = [42u8; 32];
    let total_weight = 9_000_000_000u64;
    let q_finality = fallback_quorum(total_weight);

    for i in 0..5 {
        let vote = vote_from(
            proposal_hash,
            FallbackVoteDecision::Approve,
            format!("mn_{}", i),
        );
        push_vote(&mut consensus.fallback_votes, proposal_hash, vote);
    }

    let approve_weight = weight_of(
        consensus.fallback_votes.get(&proposal_hash).unwrap(),
        FallbackVoteDecision::Approve,
    );
    assert_eq!(approve_weight, 5_000_000_000);
    assert!(approve_weight < q_finality, "5B < 6B, should not finalize");

    for i in 5..7 {
        let vote = vote_from(
            proposal_hash,
            FallbackVoteDecision::Approve,
            format!("mn_{}", i),
        );
        push_vote(&mut consensus.fallback_votes, proposal_hash, vote);
    }

    let approve_weight = weight_of(
        consensus.fallback_votes.get(&proposal_hash).unwrap(),
        FallbackVoteDecision::Approve,
    );
    assert_eq!(approve_weight, 7_000_000_000);
    assert!(approve_weight >= q_finality, "7B >= 6B, should finalize");
}

#[test]
fn test_phase6_reject_reaches_quorum() {
    let config = TimeVoteConfig::default();
    let registry = create_test_registry();
    let mut consensus = TimeVoteConsensus::new(config, registry).unwrap();

    let proposal_hash = [43u8; 32];
    let total_weight = 10_000_000_000u64;
    let q_finality = fallback_quorum(total_weight);

    for i in 0..7 {
        let vote = vote_from(
            proposal_hash,
            FallbackVoteDecision::Reject,
            format!("mn_{}", i),
        );
        push_vote(&mut consensus.fallback_votes, proposal_hash, vote);
    }

    let reject_weight = weight_of(
        consensus.fallback_votes.get(&proposal_hash).unwrap(),
        FallbackVoteDecision::Reject,
    );
    assert_eq!(reject_weight, 7_000_000_000);
    assert!(
        reject_weight >= q_finality,
        "Reject should reach Q_finality"
    );
}

#[test]
fn test_phase6_f_plus_1_various_sizes() {
    let config = TimeVoteConfig::default();
    let registry = create_test_registry();
    let mut consensus = TimeVoteConsensus::new(config, registry).unwrap();

    let txid1 = [1u8; 32];
    for i in 0..4 {
        let alert = alert_from(txid1, format!("mn_{}", i));
        push_alert(&mut consensus.liveness_alerts, txid1, alert);
    }
    assert_eq!(
        reporters(consensus.liveness_alerts.get(&txid1).unwrap()),
        4,
        "Should have 4 unique reporters"
    );

    let txid2 = [2u8; 32];
    for i in 0..34 {
        let alert = alert_from(txid2, format!("mn_{}", i));
        push_alert(&mut consensus.liveness_alerts, txid2, alert);
    }
    assert_eq!(
        reporters(consensus.liveness_alerts.get(&txid2).unwrap()),
        34,
        "Should have 34 unique reporters"
    );
}

#[test]
fn test_phase6_mixed_votes() {
    let config = TimeVoteConfig::default();
    let registry = create_test_registry();
    let mut consensus = TimeVoteConsensus::new(config, registry).unwrap();

    let proposal_hash = [44u8; 32];

    for i in 0..4 {
        let vote = vote_from(
            proposal_hash,
            FallbackVoteDecision::Approve,
            format!("mn_approve_{}", i),
        );
        push_vote(&mut consensus.fallback_votes, proposal_hash, vote);
    }

    for i in 0..3 {
        let vote = vote_from(
            proposal_hash,
            FallbackVoteDecision::Reject,
            format!("mn_reject_{}", i),
        );
        push_vote(&mut consensus.fallback_votes, proposal_hash, vote);
    }

    let votes = consensus.fallback_votes.get(&proposal_hash).unwrap();
    assert_eq!(votes.len(), 7);
    assert_eq!(
        weight_of(votes, FallbackVoteDecision::Approve),
        4_000_000_000
    );
    assert_eq!(
        weight_of(votes, FallbackVoteDecision::Reject),
        3_000_000_000
    );
}

#[test]
fn test_phase6_byzantine_tracking() {
    let config = TimeVoteConfig::default();
    let registry = create_test_registry();
    let mut consensus = TimeVoteConsensus::new(config, registry).unwrap();

    assert_eq!(consensus.byzantine_nodes.len(), 0);

    consensus.byzantine_nodes.insert("mn_bad".to_string(), true);

    assert_eq!(consensus.byzantine_nodes.len(), 1);
    assert!(*consensus
        .byzantine_nodes
        .get(&"mn_bad".to_string())
        .unwrap());
}
