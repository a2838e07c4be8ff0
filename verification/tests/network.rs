//! One peer's connection, and whom a node dials.

use timevote::connections::{ConnectionDirection, ConnectionManager};
use timevote::dialer::{
    begins_with_trusted, chain_tip_queries, conclude_session, dedup_peers, hold_expansion,
    may_dial, phase1_targets, plan_targets, read_subnet, MasternodeCandidate, NetworkClient,
    PeerCandidate, PeerStep, SessionRecord,
};
use timevote::ip::parse_address;
use timevote::messages::{rate_limit_key, NetworkMessage};
use timevote::peer::{
    admit_message, after_handler, after_opening, dial_address, own_announcement,
    plan_genesis_check, Admission, Ban, DialOutcome, GenesisPlan, LoopAction, LoopEvent,
    PeerConnection, Receipt,
};
use timevote::scan::{contains_text, find_size};
use timevote::types::{Masternode, MasternodeInfo, MasternodeTier, NetworkType};

const SECOND: u64 = 1_000_000_000;

fn peer(whitelisted: bool) -> PeerConnection {
    PeerConnection::new_outbound(
        "10.0.0.2".to_string(),
        24000,
        whitelisted,
        NetworkType::Testnet,
        DialOutcome::Open {
            local_port: 1,
            remote_port: 2,
        },
    )
    .unwrap()
}

#[test]
fn dialing_fails_in_words() {
    let try_dial = |outcome: DialOutcome| {
        PeerConnection::new_outbound(
            "10.0.0.2".to_string(),
            24000,
            false,
            NetworkType::Mainnet,
            outcome,
        )
        .err()
        .unwrap()
    };
    assert_eq!(dial_address("10.0.0.2", 24000), "10.0.0.2:24000");
    assert_eq!(
        try_dial(DialOutcome::TimedOut),
        "Connection to 10.0.0.2:24000 timed out (10s)"
    );
    assert_eq!(
        try_dial(DialOutcome::Refused("no".to_string())),
        "Failed to connect to 10.0.0.2:24000: no"
    );
    assert_eq!(
        try_dial(DialOutcome::NoPeerAddress("x".to_string())),
        "Failed to get peer address: x"
    );
    assert_eq!(
        try_dial(DialOutcome::NoLocalAddress("x".to_string())),
        "Failed to get local address: x"
    );
    assert_eq!(
        try_dial(DialOutcome::TlsFailed("eof".to_string())),
        "TLS handshake failed with 10.0.0.2:24000: eof"
    );
}

#[test]
fn new_connections_say_hello() {
    let mut out = peer(false);
    assert_eq!(out.peer_ip(), "10.0.0.2");
    assert_eq!(out.direction(), ConnectionDirection::Outbound);
    assert_eq!(out.remote_port(), 2);
    let messages = out.opening_messages_at(
        [1, 2, 3, 4],
        "testnet".to_string(),
        77,
        Some(5),
        None,
        11,
        12,
        13,
    );
    assert_eq!(messages.len(), 4);
    assert!(matches!(
        messages[0],
        NetworkMessage::Handshake {
            protocol_version: 2,
            commit_count: 77,
            ..
        }
    ));
    assert!(matches!(
        messages[1],
        NetworkMessage::Ping {
            nonce: 11,
            timestamp: 12,
            height: Some(5)
        }
    ));
    assert_eq!(out.ping_state.pending_pings, vec![(11, 13)]);

    let mut inbound = PeerConnection::new_inbound(
        "10.0.0.3".to_string(),
        5,
        6,
        false,
        NetworkType::Mainnet,
    )
    .unwrap();
    let messages = inbound.opening_messages_at(
        [1, 2, 3, 4],
        "mainnet".to_string(),
        77,
        None,
        Some(NetworkMessage::Ack),
        1,
        2,
        3,
    );
    assert_eq!(messages.len(), 2);
}

#[test]
fn greetings_need_a_handshake_and_a_ping() {
    let lost = || Err("Writer channel closed".to_string());
    assert_eq!(after_opening(0, lost()), lost());
    assert_eq!(after_opening(1, lost()), lost());
    assert_eq!(after_opening(2, lost()), Ok(()));
    assert_eq!(after_opening(4, lost()), Ok(()));
    assert_eq!(after_opening(0, Ok(())), Ok(()));
}

#[test]
fn pings_are_answered_and_matched() {
    let mut a = peer(false);
    let mut b = peer(false);
    let ping = a.send_ping(Some(10));
    let nonce = match ping {
        NetworkMessage::Ping { nonce, .. } => nonce,
        _ => panic!("a ping"),
    };
    let other = match a.send_ping(None) {
        NetworkMessage::Ping { nonce, .. } => nonce,
        _ => panic!("a ping"),
    };
    assert_ne!(nonce, other);
    let pong = match b.handle_message_unified_at(&ping, Some(20), 5, 6) {
        Receipt::Reply(pong) => pong,
        other => panic!("{:?}", other),
    };
    assert_eq!(b.get_peer_height(), Some(10));
    match a.handle_message_unified(&pong, None) {
        Receipt::Ponged { nonce: n, rtt } => {
            assert_eq!(n, nonce);
            assert!(rtt.is_some());
        }
        other => panic!("{:?}", other),
    }
    assert_eq!(a.get_peer_height(), Some(20));
    assert!(a.get_ping_rtt().is_some());
}

#[test]
fn messages_are_sorted() {
    let mut p = peer(false);
    assert!(matches!(
        p.handle_message_unified_at(&NetworkMessage::Ack, None, 0, 0),
        Receipt::Done
    ));
    match p.handle_message_unified_at(&NetworkMessage::GetPeers, None, 0, 0) {
        Receipt::Pass(bucket) => assert_eq!(bucket, "get_peers"),
        other => panic!("{:?}", other),
    }
    assert_eq!(rate_limit_key(&NetworkMessage::BlocksResponse), "sync");
    assert_eq!(rate_limit_key(&NetworkMessage::TimeVotePrepare), "vote");
    assert_eq!(
        rate_limit_key(&NetworkMessage::MasternodeAnnouncementV2),
        "masternode_announce"
    );
    assert_eq!(rate_limit_key(&NetworkMessage::GetChainTip), "general");
    assert!(matches!(
        admit_message(false, true, true),
        Admission::Dropped
    ));
    assert!(matches!(
        admit_message(true, true, true),
        Admission::Handled
    ));
    match admit_message(true, false, true) {
        Admission::Refused(text) => assert_eq!(text, "Cannot create context without blockchain"),
        other => panic!("{:?}", other),
    }
    match admit_message(true, false, false) {
        Admission::Refused(text) => {
            assert_eq!(text, "Cannot create context without masternode registry")
        }
        other => panic!("{:?}", other),
    }
    assert!(after_handler(Err("peer is banned for a day".to_string())).is_err());
    assert!(matches!(
        after_handler(Err("odd message".to_string())),
        Ok(None)
    ));
    assert!(matches!(
        after_handler(Ok(Some(NetworkMessage::Ack))),
        Ok(Some(NetworkMessage::Ack))
    ));
}

#[test]
fn connections_end_for_a_reason() {
    let mut p = peer(false);
    let mut w = peer(true);
    let handled = |text: &str| LoopEvent::Handled(Err(text.to_string()));
    assert!(matches!(
        p.run_message_loop_unified_at(LoopEvent::Handled(Ok(())), 0),
        LoopAction::Continue
    ));
    assert!(matches!(
        w.run_message_loop_unified_at(handled("it is banned"), 0),
        LoopAction::Stop
    ));
    assert!(matches!(
        p.run_message_loop_unified_at(handled("DISCONNECT: flood"), 0),
        LoopAction::Stop
    ));
    assert!(matches!(
        w.run_message_loop_unified_at(handled("DISCONNECT: flood"), 0),
        LoopAction::Continue
    ));
    assert!(matches!(
        p.run_message_loop_unified_at(handled("whatever"), 0),
        LoopAction::Continue
    ));
    assert!(matches!(
        p.run_message_loop_unified_at(LoopEvent::Ended, 0),
        LoopAction::Stop
    ));
    assert!(matches!(
        p.run_message_loop_unified_at(LoopEvent::ReaderClosed, 0),
        LoopAction::Stop
    ));
    let bomb = || LoopEvent::ReadFailed("Frame too large: 104857601 bytes".to_string());
    assert!(matches!(
        p.run_message_loop_unified_at(bomb(), 0),
        LoopAction::StopAndBan(Ban::FrameBomb)
    ));
    assert!(matches!(
        w.run_message_loop_unified_at(bomb(), 0),
        LoopAction::Stop
    ));
    assert!(matches!(
        p.run_message_loop_unified_at(
            LoopEvent::ReadFailed("Frame too large: 104857600 bytes".to_string()),
            0
        ),
        LoopAction::Stop
    ));
    match w.run_message_loop_unified_at(LoopEvent::GenesisChecked { compatible: false }, 0) {
        LoopAction::StopAndBan(Ban::Genesis(ip)) => assert_eq!(ip, "10.0.0.2"),
        other => panic!("{:?}", other),
    }
    assert!(matches!(
        p.run_message_loop_unified_at(LoopEvent::GenesisChecked { compatible: true }, 0),
        LoopAction::Continue
    ));
    assert!(matches!(
        p.run_message_loop_unified_at(LoopEvent::Forwarded { sent: false }, 0),
        LoopAction::Stop
    ));
    assert!(matches!(
        p.run_message_loop_unified_at(LoopEvent::Pinged { sent: true }, 0),
        LoopAction::Continue
    ));
}

#[test]
fn silent_peers_are_left_unless_whitelisted() {
    let mut p = peer(false);
    let mut w = peer(true);
    for i in 0..10 {
        p.send_ping_at(i, 0, None, i);
        w.send_ping_at(i, 0, None, i);
    }
    assert!(matches!(
        p.run_message_loop_unified_at(LoopEvent::TimeoutTick, 300 * SECOND),
        LoopAction::Continue
    ));
    assert!(matches!(
        p.run_message_loop_unified_at(LoopEvent::TimeoutTick, 300 * SECOND + 10),
        LoopAction::Stop
    ));
    assert!(matches!(
        w.run_message_loop_unified_at(LoopEvent::TimeoutTick, 900 * SECOND),
        LoopAction::Continue
    ));
}

#[test]
fn forks_need_others_to_agree() {
    let p = peer(false);
    let near = |ip: &str, h: Option<u64>| (ip.to_string(), h);
    assert_eq!(
        p.check_fork_agreement(&vec![near("a", Some(100))], 100, "x"),
        0
    );
    assert_eq!(
        p.check_fork_agreement(
            &vec![
                near("a", Some(110)),
                near("b", Some(111)),
                near("c", None),
                near("x", Some(100)),
                near("d", Some(90))
            ],
            100,
            "x"
        ),
        2
    );
}

fn info(address: &str, tier: MasternodeTier) -> MasternodeInfo {
    MasternodeInfo {
        masternode: Masternode::new_legacy(
            address.to_string(),
            "wallet".to_string(),
            1000,
            [1u8; 32],
            tier,
            0,
        ),
        reward_address: "reward".to_string(),
        is_active: true,
    }
}

#[test]
fn masternodes_announce_themselves() {
    let nodes = vec![
        info("10.0.0.1", MasternodeTier::Gold),
        info("10.0.0.2", MasternodeTier::Silver),
    ];
    let own = Some("10.0.0.2".to_string());
    match own_announcement(&nodes, &own, None, vec![1], 9, vec![]) {
        Some(NetworkMessage::MasternodeAnnouncementV3(told)) => {
            assert_eq!(told.tier, MasternodeTier::Silver);
            assert_eq!(told.started_at, 9);
        }
        other => panic!("{:?}", other),
    }
    assert!(matches!(
        own_announcement(&nodes, &own, None, vec![1], 9, vec![7]),
        Some(NetworkMessage::MasternodeAnnouncementV4(_, _))
    ));
    assert!(own_announcement(&nodes, &None, None, vec![], 0, vec![]).is_none());
    assert!(own_announcement(&nodes, &Some("else".to_string()), None, vec![], 0, vec![]).is_none());
    assert!(matches!(
        plan_genesis_check(true, true, Some([1u8; 32])),
        GenesisPlan::Check(hash) if hash == [1u8; 32]
    ));
    assert!(matches!(
        plan_genesis_check(true, true, None),
        GenesisPlan::Release
    ));
    assert!(matches!(
        plan_genesis_check(true, false, None),
        GenesisPlan::Skip
    ));
}

#[test]
fn words_and_numbers_are_found() {
    assert!(contains_text("peer is banned", "is banned"));
    assert!(!contains_text("is banne", "is banned"));
    assert!(contains_text("", ""));
    assert_eq!(find_size("Frame too large: 12 bytes"), Some(12));
    assert_eq!(find_size("frame of 77:bytes +5"), Some(77));
    assert_eq!(find_size("frame of 77bytes: +5"), Some(5));
    assert_eq!(find_size("+5:: 6"), Some(5));
    assert_eq!(find_size("18446744073709551616 1"), Some(1));
    assert_eq!(find_size("none at\u{3000}all"), None);
}

#[test]
fn addresses_are_read() {
    for good in [
        "0.0.0.0",
        "255.255.255.255",
        "::",
        "1::",
        "::1.2.3.4",
        "1:2:3:4:5:6:7:8",
        "1:2:3:4:5:6:7::",
        "::ffff:192.168.0.1",
        "ABCD:ef01::1",
        "1:2:3:4:5:6:1.2.3.4",
    ] {
        assert!(parse_address(good).is_some(), "{}", good);
    }
    for bad in [
        "",
        "1.2.3",
        "1.2.3.4.5",
        "256.1.1.1",
        "01.2.3.4",
        "1.2.3.4 ",
        ":",
        ":::",
        "1:2:3:4:5:6:7",
        "1:2:3:4:5:6:7:8:9",
        "1:2:3:4:5:6:7:8::",
        "1::2::3",
        "12345::",
        "g::",
        "1.2.3.4::",
        "1:2:3:4:5:6:7:1.2.3.4",
    ] {
        assert!(parse_address(bad).is_none(), "{}", bad);
    }
}

fn texts(list: &[&str]) -> Vec<String> {
    list.iter().map(|t| t.to_string()).collect()
}

fn many(prefix: &str, n: usize) -> Vec<String> {
    (0..n).map(|i| format!("{}{}", prefix, i)).collect()
}

#[test]
fn tiers_form_a_pyramid() {
    let none: Vec<String> = Vec::new();
    let (gold, silver, bronze, free) = (many("g", 2), many("s", 10), many("b", 20), many("f", 30));
    let plan = |tier| plan_targets(tier, &gold, &silver, &bronze, &free);
    assert_eq!(
        plan(Some(MasternodeTier::Gold)),
        texts(&["g0", "g1", "s0", "s1", "s2"])
    );
    assert_eq!(
        plan(Some(MasternodeTier::Silver)),
        texts(&["g0", "g1", "s0", "s1", "s2", "s3"])
    );
    assert_eq!(
        plan(Some(MasternodeTier::Bronze)),
        texts(&["s0", "s1", "s2", "s3", "s4", "b0", "b1", "b2"])
    );
    assert_eq!(plan(None), texts(&["b0", "b1", "b2", "b3", "b4", "s0"]));
    assert_eq!(
        plan_targets(Some(MasternodeTier::Silver), &none, &many("s", 60), &none, &none).len(),
        60
    );
    assert_eq!(
        plan_targets(Some(MasternodeTier::Bronze), &none, &none, &many("b", 60), &none).len(),
        60
    );
    assert_eq!(
        plan_targets(Some(MasternodeTier::Bronze), &gold, &none, &many("b", 60), &none).len(),
        5
    );
    assert_eq!(
        plan_targets(None, &none, &none, &none, &many("f", 51)).len(),
        51
    );
    assert_eq!(plan_targets(None, &gold, &none, &none, &many("f", 51)), gold);
    assert_eq!(plan_targets(None, &gold, &silver, &none, &none).len(), 12);

    let mut nodes: Vec<MasternodeInfo> = Vec::new();
    for i in 0..40 {
        nodes.push(info(&format!("s{}", i), MasternodeTier::Silver));
    }
    nodes.push(info("g", MasternodeTier::Gold));
    let planned = phase1_targets(&nodes, None);
    assert_eq!(planned[0], "g");
    let mut sorted = planned.clone();
    sorted.sort();
    let mut expected = many("s", 40);
    expected.push("g".to_string());
    expected.sort();
    assert_eq!(sorted, expected);
}

fn client() -> NetworkClient {
    NetworkClient::new(
        NetworkType::Testnet,
        24100,
        100,
        Some("10.0.0.5".to_string()),
        texts(&["10.6.6.6"]),
    )
}

#[test]
fn slots_are_kept_for_masternodes() {
    let slots = |max| {
        NetworkClient::new(NetworkType::Mainnet, 24000, max, None, vec![]).reserved_masternode_slots
    };
    assert_eq!(slots(10), 20);
    assert_eq!(slots(100), 40);
    assert_eq!(slots(1000), 100);
}

#[test]
fn hosts_are_told_apart() {
    assert_eq!(
        dedup_peers(&texts(&["10.0.0.1:1", "10.0.0.2", "10.0.0.1:2", "a:b:3"])),
        texts(&["10.0.0.1", "10.0.0.2", "a:b"])
    );
    assert_eq!(read_subnet("10.1.2.3:24000"), "10.1.2");
    assert_eq!(read_subnet("10.1.2"), "10.1.2");
    assert_eq!(read_subnet("host"), "host");
}

#[test]
fn dials_at_the_start() {
    let c = client();
    let mut manager = ConnectionManager::new();
    manager.set_local_ip("10.0.0.5".to_string());
    let live = texts(&["10.0.0.4"]);
    let ips = texts(&[
        "10.0.0.5", "10.6.6.6", "10.0.0.4", "10.0.0.3", "10.0.0.3", "10.0.0.9",
    ]);
    assert_eq!(
        c.dial_trusted_at(&ips, &texts(&["10.0.0.9"]), &live, &mut manager, 1),
        texts(&["10.0.0.3"])
    );

    let mut manager = ConnectionManager::new();
    manager.set_local_ip("10.0.0.5".to_string());
    assert!(manager.accept_inbound("10.0.0.4", false).is_some());
    let (dials, count) = c.dial_masternodes_at(&ips, &live, &mut manager, 2);
    assert_eq!(dials, texts(&["10.0.0.3"]));
    assert_eq!(count, 2);
    let (dials, _) = c.dial_masternodes_at(&texts(&["10.0.0.9"]), &live, &mut manager, 180 * SECOND + 2);
    assert!(dials.is_empty());
    let (dials, _) = c.dial_masternodes_at(&texts(&["10.0.0.9"]), &live, &mut manager, 180 * SECOND + 3);
    assert_eq!(dials, texts(&["10.0.0.9"]));

    let mut manager = ConnectionManager::new();
    manager.set_local_ip("10.0.0.5".to_string());
    let dials = c.fill_slots_at(
        &texts(&["10.0.0.1", "10.0.0.2", "10.0.0.3"]),
        98,
        &texts(&["10.0.0.2"]),
        &texts(&["10.0.0.1"]),
        &live,
        &mut manager,
        3,
    );
    assert_eq!(dials, vec![("10.0.0.1".to_string(), true)]);
    assert!(begins_with_trusted(false, &ips));
    assert!(!begins_with_trusted(true, &ips));
    assert!(hold_expansion(false, false, 599));
    assert!(!hold_expansion(false, false, 600));
    assert!(!hold_expansion(true, false, 0));
    assert!(hold_expansion(true, true, 0));
}

fn candidate(address: &str, tier: MasternodeTier) -> MasternodeCandidate {
    MasternodeCandidate {
        address: address.to_string(),
        tier,
        on_chain: false,
        incompatible: false,
        whitelisted: false,
        banned: false,
        failures: 0,
        advised: true,
    }
}

fn reconnect(
    candidates: Vec<MasternodeCandidate>,
    startup: bool,
    priority: bool,
) -> Vec<String> {
    let mut manager = ConnectionManager::new();
    manager.set_local_ip("10.0.0.5".to_string());
    client().reconnect_masternodes_at(&candidates, startup, priority, &vec![], &mut manager, SECOND)
}

#[test]
fn lost_masternodes_are_dialed_again() {
    let gold = || candidate("10.0.0.9", MasternodeTier::Gold);
    assert!(reconnect(vec![gold()], true, false).is_empty());
    assert_eq!(reconnect(vec![gold()], false, true), texts(&["10.0.0.9"]));

    let low = |failures: u32, advised: bool, whitelisted: bool| MasternodeCandidate {
        failures,
        advised,
        whitelisted,
        ..candidate("10.0.0.1", MasternodeTier::Gold)
    };
    assert_eq!(reconnect(vec![low(5, false, false)], true, false).len(), 1);
    assert_eq!(reconnect(vec![low(6, false, false)], true, true).len(), 0);
    assert_eq!(reconnect(vec![low(6, true, false)], false, false).len(), 1);
    assert_eq!(reconnect(vec![low(3, false, false)], false, false).len(), 0);
    assert_eq!(reconnect(vec![low(3, false, true)], false, false).len(), 1);
    assert_eq!(reconnect(vec![low(6, false, true)], false, true).len(), 0);

    let banned = MasternodeCandidate {
        banned: true,
        ..candidate("10.0.0.1", MasternodeTier::Gold)
    };
    assert!(reconnect(vec![banned], true, true).is_empty());
    let strange = MasternodeCandidate {
        incompatible: true,
        ..candidate("10.0.0.1", MasternodeTier::Gold)
    };
    assert!(reconnect(vec![strange], true, true).is_empty());
}

#[test]
fn whitelisted_peers_rest_briefly() {
    let mut manager = ConnectionManager::new();
    manager.set_local_ip("10.0.0.5".to_string());
    assert!(manager.mark_connecting_at("10.0.0.1", 0));
    assert!(manager.abort_connecting_at("10.0.0.1", 0));
    let tried = |failures: u32, now: u64, manager: &mut ConnectionManager| {
        let c = MasternodeCandidate {
            failures,
            whitelisted: true,
            ..candidate("10.0.0.1", MasternodeTier::Gold)
        };
        client()
            .reconnect_masternodes_at(&vec![c], false, false, &vec![], manager, now)
            .len()
    };
    assert_eq!(tried(1, 5 * SECOND - 1, &mut manager), 0);
    assert_eq!(tried(2, 10 * SECOND - 1, &mut manager), 0);
    assert_eq!(tried(1, 5 * SECOND, &mut manager), 1);
}

#[test]
fn subnets_are_not_crowded() {
    let crowd: Vec<MasternodeCandidate> = (1..5)
        .map(|i| candidate(&format!("10.0.0.{}", i), MasternodeTier::Free))
        .collect();
    assert_eq!(reconnect(crowd, true, false).len(), 3);
    let on_chain: Vec<MasternodeCandidate> = (1..5)
        .map(|i| MasternodeCandidate {
            on_chain: true,
            ..candidate(&format!("10.0.0.{}", i), MasternodeTier::Free)
        })
        .collect();
    assert_eq!(reconnect(on_chain, true, false).len(), 4);
}

#[test]
fn free_slots_go_to_the_least_loaded() {
    let mut manager = ConnectionManager::new();
    manager.set_local_ip("10.0.0.5".to_string());
    let peer_of = |ip: &str, load: u16, failures: u32| PeerCandidate {
        ip: ip.to_string(),
        load,
        is_masternode: false,
        failures,
        advised: true,
        banned: false,
    };
    let candidates = vec![
        peer_of("10.0.0.1", 9, 0),
        peer_of("10.0.0.2", 3, 5),
        peer_of("10.0.0.3", 3, 0),
        peer_of("10.0.0.4", 1, 0),
    ];
    let steps = client().reconnect_peers_at(&candidates, 97, &vec![], &mut manager, 1);
    let told: Vec<String> = steps
        .iter()
        .map(|s| match s {
            PeerStep::Dial(ip) => format!("dial {}", ip),
            PeerStep::Forget(ip) => format!("forget {}", ip),
        })
        .collect();
    assert_eq!(
        told,
        texts(&["dial 10.0.0.4", "forget 10.0.0.2", "dial 10.0.0.3"])
    );
}

#[test]
fn sessions_are_judged() {
    assert!(may_dial(true, false));
    assert!(!may_dial(false, false));
    let end = conclude_session(Ok(9 * SECOND), true, false, false);
    match end.record {
        SessionRecord::Failure(text) => assert_eq!(text, "short-lived session"),
        other => panic!("{:?}", other),
    }
    assert!(end.report_loss);
    assert!(end.forget);
    let end = conclude_session(Ok(10 * SECOND), true, true, false);
    assert!(matches!(
        end.record,
        SessionRecord::Success { millis: 10_000 }
    ));
    assert!(!end.report_loss);
    assert!(!end.forget);
    let end = conclude_session(Err("refused".to_string()), true, false, true);
    assert!(!end.report_loss);
    assert!(!end.forget);
    let tips = chain_tip_queries(1, &texts(&["a", "b"]));
    assert_eq!(tips.len(), 2);
    assert!(chain_tip_queries(0, &texts(&["a"])).is_empty());
}
