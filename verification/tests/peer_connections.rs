//! Connections with peers and pings.

use timevote::connections::{
    ConnectionDirection, ConnectionManager, PeerConnectionState, MAX_NEW_CONNECTIONS_PER_WINDOW,
};
use timevote::ping::{ForkResolutionAttempt, PingState};

const MILLI: u64 = 1_000_000;
const SECOND: u64 = 1_000_000_000;

#[test]
fn accept_inbound_yields_outbound_when_local_ip_is_lower() {
    let mut manager = ConnectionManager::new();
    manager.set_local_ip("10.0.0.1".to_string());

    assert!(manager.mark_connecting("10.0.0.2"));
    let out_gen = manager.mark_connected("10.0.0.2").expect("outbound gen");
    let in_gen = manager
        .accept_inbound("10.0.0.2", true)
        .expect("inbound accepted");
    assert_ne!(out_gen, in_gen);

    let entry = *manager.connections.get(&"10.0.0.2".to_string()).unwrap();
    assert_eq!(entry.direction, ConnectionDirection::Inbound);
    assert_eq!(entry.state, PeerConnectionState::Connected);
    assert_eq!(entry.generation, in_gen);
    assert!(entry.is_whitelisted);
    assert_eq!(manager.connected_count(), 1);
    assert_eq!(manager.outbound_count(), 0);
    assert_eq!(manager.inbound_count(), 1);

    assert!(!manager.mark_outbound_disconnected("10.0.0.2", out_gen));
    assert_eq!(manager.connected_count(), 1);
    assert_eq!(manager.inbound_count(), 1);
}

#[test]
fn session_numbers_are_not_used_twice() {
    let mut manager = ConnectionManager::default();
    assert_eq!(manager.next_generation, 1);
    assert_eq!(manager.last_cleanup, 0);
    assert_eq!(manager.connected_count(), 0);
    assert_eq!(manager.recent_connections.len(), 0);
    assert_eq!(manager.zombie_since.len(), 0);
    assert_eq!(manager.passive_wait_since.len(), 0);
    let mut given: Vec<u64> = vec![];
    given.push(manager.accept_inbound("10.0.0.2", true).unwrap());
    given.push(manager.accept_inbound("10.0.0.2", true).unwrap());
    assert!(manager.mark_connecting("10.0.0.3"));
    given.push(manager.connection_generation("10.0.0.3").unwrap());
    given.push(manager.mark_connected("10.0.0.3").unwrap());
    manager.mark_disconnected("10.0.0.3");
    manager.remove("10.0.0.2");
    given.push(manager.mark_inbound("10.0.0.2").unwrap());
    assert!(manager.mark_failed("10.0.0.4"));
    given.push(manager.connection_generation("10.0.0.4").unwrap());
    assert_eq!(given, vec![1, 2, 3, 4, 5, 6]);
}

#[test]
fn accept_inbound_rejects_when_local_ip_should_keep_outbound() {
    let mut manager = ConnectionManager::new();
    manager.set_local_ip("10.0.0.9".to_string());

    assert!(manager.mark_connecting("10.0.0.2"));
    let out_gen = manager.mark_connected("10.0.0.2").expect("outbound gen");
    assert!(manager.accept_inbound("10.0.0.2", false).is_none());

    let entry = *manager.connections.get(&"10.0.0.2".to_string()).unwrap();
    assert_eq!(entry.direction, ConnectionDirection::Outbound);
    assert_eq!(entry.state, PeerConnectionState::Connected);
    assert_eq!(entry.generation, out_gen);
    assert_eq!(manager.connected_count(), 1);
    assert_eq!(manager.outbound_count(), 1);
    assert_eq!(manager.inbound_count(), 0);
}

#[test]
fn accept_inbound_replaces_connecting_outbound_without_underflow() {
    let mut manager = ConnectionManager::new();
    manager.set_local_ip("10.0.0.1".to_string());

    assert!(manager.mark_connecting("10.0.0.2"));
    let in_gen = manager
        .accept_inbound("10.0.0.2", true)
        .expect("inbound accepted");

    let entry = *manager.connections.get(&"10.0.0.2".to_string()).unwrap();
    assert_eq!(entry.direction, ConnectionDirection::Inbound);
    assert_eq!(entry.state, PeerConnectionState::Connected);
    assert_eq!(entry.generation, in_gen);
    assert_eq!(manager.connected_count(), 1);
    assert_eq!(manager.outbound_count(), 0);
    assert_eq!(manager.inbound_count(), 1);

    assert!(manager.mark_inbound_disconnected("10.0.0.2", in_gen));
    assert_eq!(manager.connected_count(), 0);
    assert_eq!(manager.outbound_count(), 0);
    assert_eq!(manager.inbound_count(), 0);
}

#[test]
fn stale_inbound_cleanup_does_not_clear_replacement() {
    let mut manager = ConnectionManager::new();
    manager.set_local_ip("10.0.0.1".to_string());

    let gen1 = manager
        .accept_inbound("10.0.0.2", true)
        .expect("first inbound");
    let gen2 = manager
        .accept_inbound("10.0.0.2", true)
        .expect("whitelisted replace");
    assert_ne!(gen1, gen2);

    assert!(!manager.mark_inbound_disconnected("10.0.0.2", gen1));
    assert_eq!(manager.connected_count(), 1);
    assert_eq!(manager.inbound_count(), 1);

    assert!(manager.mark_inbound_disconnected("10.0.0.2", gen2));
    assert_eq!(manager.connected_count(), 0);
    assert_eq!(manager.inbound_count(), 0);
}

#[test]
fn count_getters_reconcile_corrupted_counters() {
    let mut manager = ConnectionManager::new();
    manager.connected_count = usize::MAX - 4;
    manager.inbound_count = usize::MAX - 5;
    manager.outbound_count = usize::MAX - 6;

    assert_eq!(manager.connected_count(), 0);
    assert_eq!(manager.inbound_count(), 0);
    assert_eq!(manager.outbound_count(), 0);
    assert!(manager.can_accept_inbound("10.0.0.2", false).is_ok());
}

#[test]
fn count_connections_from_ip_is_exact_match() {
    let mut manager = ConnectionManager::new();
    assert!(manager.mark_connecting("10.0.0.10"));
    assert!(manager.mark_connected("10.0.0.10").is_some());
    assert_eq!(manager.count_connections_from_ip("10.0.0.1"), 0);
    assert_eq!(manager.count_connections_from_ip("10.0.0.10"), 1);
}

#[test]
fn inbound_reservation_blocks_outbound_dial_race() {
    let mut manager = ConnectionManager::new();
    manager.set_local_ip("10.0.0.9".to_string());

    let in_gen = manager
        .accept_inbound("10.0.0.2", false)
        .expect("inbound reserved");
    assert!(manager.is_active("10.0.0.2"));
    assert!(manager.is_connected("10.0.0.2"));
    assert!(!manager.mark_connecting("10.0.0.2"));
    assert!(manager.mark_connected("10.0.0.2").is_none());

    let entry = *manager.connections.get(&"10.0.0.2".to_string()).unwrap();
    assert_eq!(entry.direction, ConnectionDirection::Inbound);
    assert_eq!(entry.generation, in_gen);
    assert_eq!(manager.inbound_count(), 1);
    assert_eq!(manager.outbound_count(), 0);
}

#[test]
fn preferred_dialer_is_higher_ip() {
    let mut manager = ConnectionManager::new();
    manager.set_local_ip("10.0.0.9".to_string());
    assert!(manager.is_preferred_dialer("10.0.0.2"));
    assert!(!manager.is_preferred_dialer("10.0.0.20"));
}

#[test]
fn preferred_dialer_falls_back_to_dialing_on_unspecified_local_ip() {
    let mut manager = ConnectionManager::new();
    manager.set_local_ip("0.0.0.0".to_string());
    assert!(manager.is_preferred_dialer("10.0.0.2"));
    assert!(manager.is_preferred_dialer("255.255.255.255"));
}

#[test]
fn passive_wait_expires_and_forces_dial() {
    let mut manager = ConnectionManager::new();
    manager.set_local_ip("10.0.0.2".to_string());
    assert!(!manager.is_preferred_dialer("10.0.0.9"));

    let begun = manager.clock.nanos();
    assert!(!manager.passive_wait_expired_after_at("10.0.0.9", 20 * MILLI, begun));
    assert!(manager.passive_wait_expired_after_at("10.0.0.9", 20 * MILLI, begun + 30 * MILLI));
    assert!(!manager.passive_wait_expired_after_at("10.0.0.9", 30 * MILLI, begun + 30 * MILLI));
}

#[test]
fn passive_wait_clears_on_successful_connection() {
    let mut manager = ConnectionManager::new();
    manager.set_local_ip("10.0.0.2".to_string());
    let begun = manager.clock.nanos();
    assert!(!manager.passive_wait_expired_after_at("10.0.0.9", 10 * MILLI, begun));
    let later = begun + 20 * MILLI;

    assert!(manager
        .accept_inbound_at("10.0.0.9", false, later)
        .is_some());
    assert!(!manager
        .passive_wait_since
        .contains_key(&"10.0.0.9".to_string()));

    assert!(!manager.passive_wait_expired_after_at("10.0.0.9", 10 * MILLI, later));
}

#[test]
fn heal_connected_without_writers_requires_two_confirmations() {
    let mut manager = ConnectionManager::new();
    assert!(manager.mark_connecting("10.0.0.2"));
    assert!(manager.mark_connected("10.0.0.2").is_some());
    assert!(manager.mark_connecting("10.0.0.3"));
    assert!(manager.mark_connected("10.0.0.3").is_some());
    assert_eq!(manager.connected_count(), 2);

    let live = vec!["10.0.0.2".to_string()];

    let healed = manager.heal_connected_without_writers_with_window(&live, 0);
    assert!(healed.is_empty());
    assert!(manager.is_connected("10.0.0.3"));

    let healed = manager.heal_connected_without_writers_with_window(&live, 0);
    assert_eq!(healed, vec!["10.0.0.3".to_string()]);
    assert!(manager.is_connected("10.0.0.2"));
    assert!(!manager.is_connected("10.0.0.3"));
    assert_eq!(manager.connected_count(), 1);
    assert!(manager.mark_connecting("10.0.0.3"));
}

#[test]
fn heal_connected_without_writers_spares_fresh_handshakes() {
    let mut manager = ConnectionManager::new();
    let gen = manager
        .accept_inbound("10.0.0.2", false)
        .expect("inbound reserved");
    assert!(manager.is_connected("10.0.0.2"));

    let live: Vec<String> = Vec::new();
    let healed = manager.heal_connected_without_writers_with_window(&live, 15 * SECOND);
    assert!(healed.is_empty());
    assert!(manager.is_connected("10.0.0.2"));

    let live = vec!["10.0.0.2".to_string()];
    let healed = manager.heal_connected_without_writers_with_window(&live, 0);
    assert!(healed.is_empty());
    assert!(manager.is_connected("10.0.0.2"));

    assert!(manager.mark_inbound_disconnected("10.0.0.2", gen));
}

#[test]
fn rate_of_new_connections_is_limited() {
    let mut manager = ConnectionManager::new();
    let mut now = SECOND;
    for i in 0..MAX_NEW_CONNECTIONS_PER_WINDOW {
        let ip = format!("10.1.0.{}", i + 1);
        assert!(manager.accept_inbound_at(&ip, false, now).is_some());
        now += SECOND / 10;
    }
    assert_eq!(
        manager.can_accept_inbound_at("10.2.0.1", false, now),
        Err("Connection rate limit exceeded: 25 connections in last minute".to_string())
    );
    assert!(manager.accept_inbound_at("10.2.0.1", false, now).is_none());
    assert!(manager.accept_inbound_at("10.2.0.1", true, now).is_some());
    assert!(manager
        .accept_inbound_at("10.2.0.2", false, now + 61 * SECOND)
        .is_some());
}

#[test]
fn regular_peers_have_a_limit_of_their_own() {
    let mut manager = ConnectionManager::new();
    let mut now = SECOND;
    for i in 0..150usize {
        let ip = format!("10.3.{}.{}", i / 100, i % 100);
        assert!(manager.accept_inbound_at(&ip, false, now).is_some());
        now += 20 * SECOND;
    }
    assert_eq!(
        manager.can_accept_inbound_at("10.4.0.1", false, now),
        Err(
            "Max regular peer connections reached: 150/150 (reserved 100 slots for masternodes)"
                .to_string()
        )
    );
    assert!(manager.accept_inbound_at("10.4.0.1", true, now).is_some());
    assert_eq!(manager.count_whitelisted_connections(), 1);
}

#[test]
fn outbound_connections_are_limited() {
    let mut manager = ConnectionManager::new();
    for i in 0..250usize {
        let ip = format!("10.5.{}.{}", i / 100, i % 100);
        assert!(manager.mark_connecting_at(&ip, 1));
        assert!(manager.mark_connected_at(&ip, 2).is_some());
    }
    assert_eq!(
        manager.can_connect_outbound(),
        Err("Max outbound connections reached: 250/250".to_string())
    );
    for i in 0..250usize {
        let ip = format!("10.6.{}.{}", i / 100, i % 100);
        assert!(manager.accept_inbound_at(&ip, true, 3).is_some());
    }
    assert_eq!(
        manager.can_connect_outbound(),
        Err("Max total connections reached: 500/500".to_string())
    );
    assert!(manager.accept_inbound_at("10.7.0.1", true, 3).is_none());
}

#[test]
fn dials_end_in_every_way() {
    let mut manager = ConnectionManager::new();
    assert!(manager.should_connect_to("10.0.0.5"));
    assert!(manager.mark_connecting_at("10.0.0.5", 10));
    assert!(manager.is_connecting("10.0.0.5"));
    assert!(!manager.should_connect_to("10.0.0.5"));
    assert!(manager.abort_connecting_at("10.0.0.5", 11));
    assert!(!manager.abort_connecting_at("10.0.0.5", 12));
    assert_eq!(manager.time_since_disconnect_at("10.0.0.5", 20), Some(9));

    assert!(manager.mark_failed_at("10.0.0.5", 21));
    assert!(manager.is_reconnecting("10.0.0.5"));
    manager.clear_reconnecting("10.0.0.5");
    assert!(!manager.is_active("10.0.0.5"));

    assert!(manager.mark_connecting_at("10.0.0.5", 30));
    assert_eq!(manager.cleanup_stale_connecting_at(5, 35), 0);
    assert_eq!(manager.cleanup_stale_connecting_at(5, 36), 1);
    assert!(!manager.is_active("10.0.0.5"));

    assert!(manager.mark_connecting_at("10.0.0.5", 40));
    let session = manager.mark_connected_at("10.0.0.5", 41).unwrap();
    assert!(manager.has_outbound_connection("10.0.0.5"));
    assert_eq!(
        manager.direction_if_connected("10.0.0.5"),
        Some(ConnectionDirection::Outbound)
    );
    assert_eq!(manager.connection_generation("10.0.0.5"), Some(session));
    assert_eq!(
        manager.get_unresponsive_peers_at(100, 141),
        Vec::<String>::new()
    );
    assert_eq!(
        manager.get_unresponsive_peers_at(100, 142),
        vec!["10.0.0.5".to_string()]
    );
    manager.record_activity_at("10.0.0.5", 142);
    assert_eq!(
        manager.get_unresponsive_peers_at(100, 142),
        Vec::<String>::new()
    );
    let quality = manager.get_connection_quality_at("10.0.0.5", 51).unwrap();
    assert_eq!(quality.uptime, 10);
    assert_eq!(quality.connection_count, 1);
    assert_eq!(quality.messages, 0);
    assert_eq!(manager.get_connected_peers(), vec!["10.0.0.5".to_string()]);
    assert!(manager.mark_outbound_disconnected_at("10.0.0.5", session, 60));
    assert_eq!(manager.connected_count(), 0);
    manager.remove("10.0.0.5");
    assert!(manager.connection_direction("10.0.0.5").is_none());
}

#[test]
fn whitelist_follows_the_register() {
    let mut manager = ConnectionManager::new();
    assert!(manager.accept_inbound("10.0.0.1", false).is_some());
    assert!(manager.accept_inbound("10.0.0.2", true).is_some());
    manager.sync_whitelist_from_registry(&vec!["10.0.0.1".to_string()]);
    assert!(manager.is_whitelisted("10.0.0.1"));
    assert!(!manager.should_protect("10.0.0.2"));
    manager.update_whitelist_status("10.0.0.1", false);
    assert!(!manager.is_whitelisted("10.0.0.1"));
    manager.mark_whitelisted("10.0.0.1");
    assert!(manager.is_whitelisted("10.0.0.1"));
}

#[test]
fn addresses_of_both_versions_are_ranked() {
    let mut manager = ConnectionManager::new();
    manager.set_local_ip("2001:db8::2".to_string());
    assert!(manager.is_preferred_dialer("10.0.0.2"));
    assert!(manager.is_preferred_dialer("2001:db8::1"));
    assert!(!manager.is_preferred_dialer("2001:db8:0:0:0:0:0:ff"));
    assert!(!manager.is_preferred_dialer("2001:db8::1.2.3.4"));
    assert!(manager.is_preferred_dialer("::1"));
    assert!(!manager.is_preferred_dialer("node.example"));
    manager.set_local_ip("10.0.0.1".to_string());
    assert_eq!(manager.get_local_ip(), Some("2001:db8::2".to_string()));

    let mut any = ConnectionManager::new();
    any.set_local_ip("::".to_string());
    assert!(any.is_preferred_dialer("ffff::1"));

    let mut malformed = ConnectionManager::new();
    malformed.set_local_ip("010.0.0.9".to_string());
    assert!(!malformed.is_preferred_dialer("10.0.0.2"));
}

#[test]
fn test_ping_state_new() {
    let state = PingState::new();
    assert_eq!(state.missed_pongs, 0);
    assert!(state.pending_pings.is_empty());
    assert!(state.last_ping_sent.is_none());
    assert!(state.last_pong_received.is_none());
}

#[test]
fn test_record_ping_sent() {
    let mut state = PingState::new();
    state.record_ping_sent(12345);

    assert_eq!(state.pending_pings.len(), 1);
    assert_eq!(state.pending_pings[0].0, 12345);
    assert!(state.last_ping_sent.is_some());
}

#[test]
fn test_record_pong_matching() {
    let mut state = PingState::new();
    state.record_ping_sent(12345);

    let matched = state.record_pong_received(12345);

    assert!(matched);
    assert!(state.pending_pings.is_empty());
    assert_eq!(state.missed_pongs, 0);
}

#[test]
fn test_record_pong_non_matching() {
    let mut state = PingState::new();
    state.record_ping_sent(12345);

    let matched = state.record_pong_received(99999);

    assert!(!matched);
    assert_eq!(state.pending_pings.len(), 1);
}

#[test]
fn test_multiple_pending_pings() {
    let mut state = PingState::new();

    for i in 1..=5 {
        state.record_ping_sent(i);
    }

    assert_eq!(state.pending_pings.len(), 5);

    let matched = state.record_pong_received(3);
    assert!(matched);
    assert_eq!(state.pending_pings.len(), 4);
}

#[test]
fn test_pending_pings_timeout_cleanup() {
    let mut state = PingState::new();

    for i in 1..=7 {
        state.record_ping_sent(i);
    }

    assert_eq!(state.pending_pings.len(), 7);

    let nonces: Vec<u64> = state.pending_pings.iter().map(|(n, _)| *n).collect();
    assert_eq!(nonces, vec![1, 2, 3, 4, 5, 6, 7]);
}

#[test]
fn test_direction_inbound() {
    let dir = ConnectionDirection::Inbound;
    assert_eq!(dir, ConnectionDirection::Inbound);
    assert_ne!(dir, ConnectionDirection::Outbound);
}

#[test]
fn test_direction_outbound() {
    let dir = ConnectionDirection::Outbound;
    assert_eq!(dir, ConnectionDirection::Outbound);
    assert_ne!(dir, ConnectionDirection::Inbound);
}

#[test]
fn test_ping_state_reset_on_pong() {
    let mut state = PingState::new();
    state.missed_pongs = 5;

    state.record_ping_sent(100);
    let matched = state.record_pong_received(100);

    assert!(matched);
    assert_eq!(state.missed_pongs, 0);
}

#[test]
fn pings_expire_and_stay_bounded() {
    let mut state = PingState::new();
    state.record_ping_sent_at(1, 0);
    state.record_ping_sent_at(2, 60 * SECOND);
    state.record_ping_sent_at(3, 121 * SECOND);
    let nonces: Vec<u64> = state.pending_pings.iter().map(|(n, _)| *n).collect();
    assert_eq!(nonces, vec![2, 3]);
    assert!(state.record_pong_received_at(3, 122 * SECOND));
    assert_eq!(state.last_rtt, Some(SECOND / 2));

    let mut state = PingState::new();
    for i in 0..100 {
        state.record_ping_sent_at(i, i);
    }
    assert_eq!(state.pending_pings.len(), 100);
    state.record_ping_sent_at(100, 100);
    assert_eq!(state.pending_pings.len(), 51);
    assert_eq!(state.pending_pings[0].0, 50);

    assert!(!state.check_timeout_at(52, 10, 111));
    assert_eq!(state.missed_pongs, 51);
    assert!(state.pending_pings.is_empty());
    assert!(state.check_timeout_at(51, 10, 111));
}

#[test]
fn fork_attempts_are_told_apart() {
    let mut attempt = ForkResolutionAttempt::new(100, 200);
    assert!(attempt.is_same_fork(110, 190));
    assert!(!attempt.is_same_fork(111, 200));
    assert!(!attempt.is_same_fork(100, 211));
    assert!(!attempt.should_give_up_at(60 * SECOND + SECOND / 2));
    assert!(attempt.should_give_up_at(61 * SECOND));
    attempt.update_depth(100, 90);
    attempt.update_depth(100, 95);
    attempt.update_depth(90, 100);
    assert_eq!(attempt.max_depth_searched, 10);
    attempt.increment_at(5 * SECOND);
    assert_eq!(attempt.attempt_count, 2);
    assert!(!attempt.should_give_up_at(65 * SECOND));
    assert!(attempt.should_give_up_at(66 * SECOND));
}
