//! The connection with one peer: what is sent at its start, what becomes of each
//! message, and when it ends.

use crate::chance::random_number;
use crate::clock::utc_seconds;
use crate::connections::ConnectionDirection;
use crate::ip::{address, parse_address};
use crate::messages::{rate_limit_key, Announcement, AnnouncementV, MessageV, NetworkMessage};
use crate::ping::{
    comparable, heights_near, lemma_still_open_len, near, ForkAttemptV, ForkResolutionAttempt,
    PingState, PingV,
};
use crate::scan::{contains_text, find_size, first_size, has_part, stretches};
use crate::sums::views;
use crate::text::{decimal, decimal_text, join3, join4, same_text, told};
use crate::types::{
    option_view, Hash256, MasternodeInfo, MasternodeInfoV, NetworkType, OutPoint, OutPointV,
};
use vstd::prelude::*;
use vstd::utf8::encode_utf8;

verus! {

/// How often a ping is sent, in seconds.
pub const PING_INTERVAL: u64 = 30;

/// How often a connection is looked at for a timeout, in seconds.
pub const TIMEOUT_CHECK_INTERVAL: u64 = 10;

/// How long a pong may take, in nanoseconds.
pub const PONG_TIMEOUT: u64 = 300_000_000_000;

/// How many pongs may be missing before a connection ends.
pub const MAX_MISSED_PONGS: u32 = 10;

/// How large a frame can be before its sender is banned, in bytes.
pub const MALICIOUS_FRAME_BYTES: u64 = 104_857_600;

/// The version of the protocol that is told in a handshake.
pub const PROTOCOL_VERSION: u32 = 2;

/// What came of dialing a peer.
#[derive(Debug)]
pub enum DialOutcome {
    TimedOut,
    Refused(String),
    NoPeerAddress(String),
    NoLocalAddress(String),
    TlsFailed(String),
    Open { local_port: u16, remote_port: u16 },
}

/// The connection with one peer, in either direction.
#[derive(Debug)]
pub struct PeerConnection {
    pub peer_ip: String,
    pub direction: ConnectionDirection,
    pub ping_state: PingState,
    pub invalid_block_count: u32,
    pub local_port: u16,
    pub remote_port: u16,
    pub peer_height: Option<u64>,
    pub fork_resolution_tracker: Option<ForkResolutionAttempt>,
    pub last_opportunistic_sync: Option<u64>,
    pub is_whitelisted: bool,
    pub network_type: NetworkType,
    pub ping_excess_streak: u32,
}

/// What a connection holds.
#[verifier::ext_equal]
pub struct PeerV {
    pub peer_ip: Seq<char>,
    pub direction: ConnectionDirection,
    pub ping_state: PingV,
    pub invalid_block_count: u32,
    pub local_port: u16,
    pub remote_port: u16,
    pub peer_height: Option<u64>,
    pub fork_resolution_tracker: Option<ForkAttemptV>,
    pub last_opportunistic_sync: Option<u64>,
    pub is_whitelisted: bool,
    pub network_type: NetworkType,
    pub ping_excess_streak: u32,
}

impl View for PeerConnection {
    type V = PeerV;

    open spec fn view(&self) -> PeerV {
        PeerV {
            peer_ip: self.peer_ip@,
            direction: self.direction,
            ping_state: self.ping_state@,
            invalid_block_count: self.invalid_block_count,
            local_port: self.local_port,
            remote_port: self.remote_port,
            peer_height: self.peer_height,
            fork_resolution_tracker: option_view(self.fork_resolution_tracker),
            last_opportunistic_sync: self.last_opportunistic_sync,
            is_whitelisted: self.is_whitelisted,
            network_type: self.network_type,
            ping_excess_streak: self.ping_excess_streak,
        }
    }
}

/// A connection that has just been made.
pub open spec fn fresh_peer(
    peer_ip: Seq<char>,
    direction: ConnectionDirection,
    local_port: u16,
    remote_port: u16,
    is_whitelisted: bool,
    network_type: NetworkType,
) -> PeerV {
    PeerV {
        peer_ip,
        direction,
        ping_state: PingV::empty(),
        invalid_block_count: 0,
        local_port,
        remote_port,
        peer_height: None,
        fork_resolution_tracker: None,
        last_opportunistic_sync: None,
        is_whitelisted,
        network_type,
        ping_excess_streak: 0,
    }
}

/// The text of a host and a port.
pub open spec fn dial_text(ip: Seq<char>, port: u16) -> Seq<char> {
    ip + ":"@ + decimal(port as nat)
}

/// Why a dial came to nothing, if it did.
pub open spec fn dial_fault(ip: Seq<char>, port: u16, outcome: DialOutcome) -> Option<Seq<char>> {
    let host = dial_text(ip, port);
    match outcome {
        DialOutcome::TimedOut => Some("Connection to "@ + host + " timed out (10s)"@),
        DialOutcome::Refused(text) => Some("Failed to connect to "@ + host + ": "@ + text@),
        DialOutcome::NoPeerAddress(text) => Some("Failed to get peer address: "@ + text@),
        DialOutcome::NoLocalAddress(text) => Some("Failed to get local address: "@ + text@),
        DialOutcome::TlsFailed(text) => Some("TLS handshake failed with "@ + host + ": "@ + text@),
        DialOutcome::Open { .. } => None,
    }
}

/// What to do with a message, at first.
#[derive(Debug)]
pub enum Receipt {
    /// Send this answer.
    Reply(NetworkMessage),
    /// A pong was noted; the latest round trip goes with it.
    Ponged { nonce: u64, rtt: Option<u64> },
    /// There is nothing more to do.
    Done,
    /// The message is for the node's other parts, if the rate in a bucket allows.
    Pass(String),
}

/// What is to be done with a message, at first.
#[allow(inconsistent_fields)]
pub enum ReceiptV {
    Reply(MessageV),
    Ponged { nonce: u64, rtt: Option<u64> },
    Done,
    Pass(Seq<char>),
}

impl View for Receipt {
    type V = ReceiptV;

    open spec fn view(&self) -> ReceiptV {
        match self {
            Receipt::Reply(message) => ReceiptV::Reply(message@),
            Receipt::Ponged { nonce, rtt } => ReceiptV::Ponged { nonce: *nonce, rtt: *rtt },
            Receipt::Done => ReceiptV::Done,
            Receipt::Pass(bucket) => ReceiptV::Pass(bucket@),
        }
    }
}

/// What happened on a connection.
#[derive(Debug)]
pub enum LoopEvent {
    /// The reader is gone.
    ReaderClosed,
    /// The peer ended the connection.
    Ended,
    /// A message was handled.
    Handled(Result<(), String>),
    /// Reading failed.
    ReadFailed(String),
    /// A message from the node was passed on to the peer, or could not be.
    Forwarded { sent: bool },
    /// The peer's first block was compared with the node's own.
    GenesisChecked { compatible: bool },
    /// A ping was sent, or could not be.
    Pinged { sent: bool },
    /// It is time to look for a timeout.
    TimeoutTick,
}

/// Why a peer is banned.
#[derive(Debug)]
pub enum Ban {
    /// It sent a frame that is far too large.
    FrameBomb,
    /// It is on another chain.
    Genesis(String),
}

/// What to do after something happened on a connection.
#[derive(Debug)]
pub enum LoopAction {
    Continue,
    Stop,
    StopAndBan(Ban),
}

/// What is to be done after something happened on a connection.
pub enum ActionV {
    Continue,
    Stop,
    BanForFrame,
    BanForGenesis(Seq<char>),
}

impl View for LoopAction {
    type V = ActionV;

    open spec fn view(&self) -> ActionV {
        match self {
            LoopAction::Continue => ActionV::Continue,
            LoopAction::Stop => ActionV::Stop,
            LoopAction::StopAndBan(Ban::FrameBomb) => ActionV::BanForFrame,
            LoopAction::StopAndBan(Ban::Genesis(ip)) => ActionV::BanForGenesis(ip@),
        }
    }
}

/// What to do about comparing the first block of a chain with a peer's.
#[derive(Debug, Clone, Copy)]
pub enum GenesisPlan {
    /// Another connection does it, or there is no chain.
    Skip,
    /// The claim is given back, as the node's own first block cannot be read.
    Release,
    /// The peer's is compared with this hash.
    Check(Hash256),
}

/// What stands before the first colon of a text.
pub open spec fn before_colon(text: Seq<char>) -> Seq<char>
    decreases text.len(),
{
    if text.len() == 0 || text[0] == ':' {
        seq![]
    } else {
        seq![text[0]] + before_colon(text.skip(1))
    }
}

/// Whether the report of a failed read tells of a frame that is far too large.
pub open spec fn is_frame_bomb(report: Seq<char>) -> bool {
    has_part(report, "Frame too large"@) && (first_size(stretches(report)) matches Some(size)
        && size > MALICIOUS_FRAME_BYTES)
}

impl PeerV {
    /// Knowing a height of the peer, if one was told.
    pub open spec fn told_height(self, height: Option<u64>) -> PeerV {
        match height {
            Some(h) => PeerV { peer_height: Some(h), ..self },
            None => self,
        }
    }

    /// After a ping was sent.
    pub open spec fn pinging(self, nonce: u64, now: u64) -> PeerV {
        PeerV { ping_state: self.ping_state.sent(nonce, now), ..self }
    }

    /// After a pong came, and whether it answers an open ping.
    pub open spec fn ponged(self, nonce: u64, height: Option<u64>, now: u64) -> (PeerV, bool) {
        let (state, matched) = self.ping_state.answered(nonce, now);
        (PeerV { ping_state: state, ..self.told_height(height) }, matched)
    }

    /// After a message came, and what to do with it at first.
    pub open spec fn received(
        self,
        message: MessageV,
        our_height: Option<u64>,
        timestamp: i64,
        now: u64,
    ) -> (PeerV, ReceiptV) {
        match message {
            MessageV::Ping { nonce, height, .. } => (
                self.told_height(height),
                ReceiptV::Reply(MessageV::Pong { nonce, timestamp, height: our_height }),
            ),
            MessageV::Pong { nonce, height, .. } => {
                let after = self.ponged(nonce, height, now).0;
                (after, ReceiptV::Ponged { nonce, rtt: after.ping_state.last_rtt })
            },
            MessageV::Handshake { .. } => (self, ReceiptV::Done),
            MessageV::Version { .. } => (self, ReceiptV::Done),
            MessageV::Ack => (self, ReceiptV::Done),
            _ => (self, ReceiptV::Pass(message.bucket())),
        }
    }

    /// Whether the pongs that may be missing can be counted, if they have to be.
    pub open spec fn can_be_timed(self) -> bool {
        self.is_whitelisted || self.ping_state.missed_pongs + self.ping_state.pending_pings.len()
            <= u32::MAX
    }

    /// After a look for a timeout, and whether the connection is to end. That with
    /// a whitelisted peer never is.
    pub open spec fn timed(self, now: u64) -> (PeerV, bool) {
        if self.is_whitelisted {
            (self, false)
        } else {
            let (state, over) = self.ping_state.timed_out(MAX_MISSED_PONGS, PONG_TIMEOUT, now);
            (PeerV { ping_state: state, ..self }, over)
        }
    }

    /// What to do after a message was handled.
    pub open spec fn after_handling(self, handled: Result<(), Seq<char>>) -> ActionV {
        match handled {
            Ok(_) => ActionV::Continue,
            Err(text) => if has_part(text, "is banned"@) {
                ActionV::Stop
            } else if has_part(text, "DISCONNECT:"@) && !self.is_whitelisted {
                ActionV::Stop
            } else {
                ActionV::Continue
            },
        }
    }

    /// What to do after reading failed.
    pub open spec fn after_read_failure(self, report: Seq<char>) -> ActionV {
        if is_frame_bomb(report) && !self.is_whitelisted && address(encode_utf8(self.peer_ip))
            is Some {
            ActionV::BanForFrame
        } else {
            ActionV::Stop
        }
    }

    /// What to do after the first blocks were compared.
    pub open spec fn after_genesis(self, compatible: bool) -> ActionV {
        let bare = before_colon(self.peer_ip);
        if compatible {
            ActionV::Continue
        } else if address(encode_utf8(bare)) is Some {
            ActionV::BanForGenesis(bare)
        } else {
            ActionV::Stop
        }
    }

    /// After something happened, and what to do.
    pub open spec fn stepped(self, event: LoopEvent, now: u64) -> (PeerV, ActionV) {
        match event {
            LoopEvent::ReaderClosed => (self, ActionV::Stop),
            LoopEvent::Ended => (self, ActionV::Stop),
            LoopEvent::Handled(handled) => (self, self.after_handling(told(handled))),
            LoopEvent::ReadFailed(report) => (self, self.after_read_failure(report@)),
            LoopEvent::Forwarded { sent } => (
                self,
                if sent {
                    ActionV::Continue
                } else {
                    ActionV::Stop
                },
            ),
            LoopEvent::GenesisChecked { compatible } => (self, self.after_genesis(compatible)),
            LoopEvent::Pinged { sent } => (
                self,
                if sent {
                    ActionV::Continue
                } else {
                    ActionV::Stop
                },
            ),
            LoopEvent::TimeoutTick => {
                let (after, over) = self.timed(now);
                (
                    after,
                    if over {
                        ActionV::Stop
                    } else {
                        ActionV::Continue
                    },
                )
            },
        }
    }
}

/// Whether another peer counts as agreeing with a fork at a height.
pub open spec fn agrees(peer: (String, Option<u64>), fork_height: u64, exclude: Seq<char>) -> bool {
    peer.0@ != exclude && (peer.1 matches Some(height) && near(height, fork_height))
}

/// Whether the heights of all peers but one can be compared with that of a fork.
pub open spec fn all_comparable(
    peers: Seq<(String, Option<u64>)>,
    fork_height: u64,
    exclude_peer: Seq<char>,
) -> bool {
    forall|i: int|
        0 <= i < peers.len() && (#[trigger] peers[i]).0@ != exclude_peer ==> (peers[i].1 matches Some(
            h,
        ) ==> comparable(h, fork_height))
}

/// How many peers agree with a fork at a height.
pub open spec fn agreeing(
    peers: Seq<(String, Option<u64>)>,
    fork_height: u64,
    exclude: Seq<char>,
) -> nat
    decreases peers.len(),
{
    if peers.len() == 0 {
        0
    } else {
        agreeing(peers.drop_last(), fork_height, exclude) + (if agrees(
            peers.last(),
            fork_height,
            exclude,
        ) {
            1nat
        } else {
            0
        })
    }
}

/// How many peers agree with a fork at a height, none where there are fewer than two.
pub open spec fn agreement(
    peers: Seq<(String, Option<u64>)>,
    fork_height: u64,
    exclude: Seq<char>,
) -> nat {
    if peers.len() < 2 {
        0
    } else {
        agreeing(peers, fork_height, exclude)
    }
}

/// The first masternode of a list with an address.
pub open spec fn own_entry(nodes: Seq<MasternodeInfoV>, address: Seq<char>) -> Option<MasternodeInfoV>
    decreases nodes.len(),
{
    if nodes.len() == 0 {
        None
    } else {
        match own_entry(nodes.drop_last(), address) {
            Some(found) => Some(found),
            None => if nodes.last().masternode.address == address {
                Some(nodes.last())
            } else {
                None
            },
        }
    }
}

/// What a masternode announces of itself; with a proof of its collateral if there
/// is one.
pub open spec fn announcement_for(
    node: MasternodeInfoV,
    collateral_outpoint: Option<OutPointV>,
    certificate: Seq<u8>,
    started_at: u64,
    collateral_proof: Seq<u8>,
) -> MessageV {
    let announced = AnnouncementV {
        address: node.masternode.address,
        reward_address: node.reward_address,
        tier: node.masternode.tier,
        public_key: node.masternode.public_key,
        collateral_outpoint,
        certificate,
        started_at,
    };
    if collateral_proof.len() > 0 {
        MessageV::MasternodeAnnouncementV4(announced, collateral_proof)
    } else {
        MessageV::MasternodeAnnouncementV3(announced)
    }
}

/// The message with which a masternode announces itself to a peer, if the node is
/// one.
pub fn own_announcement(
    nodes: &Vec<MasternodeInfo>,
    our_address: &Option<String>,
    collateral_outpoint: Option<OutPoint>,
    certificate: Vec<u8>,
    started_at: u64,
    collateral_proof: Vec<u8>,
) -> (message: Option<NetworkMessage>)
    ensures
        match our_address {
            None => message is None,
            Some(known) => match own_entry(views(nodes@), known@) {
                None => message is None,
                Some(node) => message matches Some(sent) && sent@ == announcement_for(
                    node,
                    option_view(collateral_outpoint),
                    certificate@,
                    started_at,
                    collateral_proof@,
                ),
            },
        },
{
    let own: &String = match our_address {
        Some(own) => own,
        None => {
            return None;
        },
    };
    let ghost all = views(nodes@);
    let mut i: usize = 0;
    assert(all.take(0) =~= seq![]);
    while i < nodes.len()
        invariant
            i <= nodes@.len(),
            all == views(nodes@),
            own_entry(all.take(i as int), own@) is None,
            our_address matches Some(known) && known == own,
        decreases nodes@.len() - i,
    {
        proof {
            assert(all.take(i + 1).drop_last() =~= all.take(i as int));
            assert(all.take(i + 1).last() == nodes@[i as int]@);
        }
        if same_text(nodes[i].masternode.address.as_str(), own.as_str()) {
            proof {
                lemma_own_entry_stays(all, own@, i + 1);
            }
            let node = &nodes[i];
            let announced = Announcement {
                address: node.masternode.address.clone(),
                reward_address: node.reward_address.clone(),
                tier: node.masternode.tier,
                public_key: node.masternode.public_key,
                collateral_outpoint,
                certificate,
                started_at,
            };
            return if collateral_proof.len() > 0 {
                Some(NetworkMessage::MasternodeAnnouncementV4(announced, collateral_proof))
            } else {
                Some(NetworkMessage::MasternodeAnnouncementV3(announced))
            };
        }
        i = i + 1;
    }
    assert(all.take(i as int) =~= all);
    None
}

proof fn lemma_own_entry_stays(nodes: Seq<MasternodeInfoV>, address: Seq<char>, n: int)
    requires
        0 <= n <= nodes.len(),
        own_entry(nodes.take(n), address) is Some,
    ensures
        own_entry(nodes, address) == own_entry(nodes.take(n), address),
    decreases nodes.len() - n,
{
    if n < nodes.len() {
        assert(nodes.take(n + 1).drop_last() =~= nodes.take(n));
        lemma_own_entry_stays(nodes, address, n + 1);
    } else {
        assert(nodes.take(n) =~= nodes);
    }
}

/// What to do about comparing the first block with a peer's. The node's own first
/// block has to be known: a made-up hash would differ from everyone's.
pub fn plan_genesis_check(has_blockchain: bool, claimed: bool, genesis_hash: Option<Hash256>) -> (plan:
    GenesisPlan)
    ensures
        match plan {
            GenesisPlan::Skip => !has_blockchain || !claimed,
            GenesisPlan::Release => has_blockchain && claimed && genesis_hash is None,
            GenesisPlan::Check(hash) => has_blockchain && claimed && genesis_hash == Some(hash),
        },
{
    if !has_blockchain || !claimed {
        return GenesisPlan::Skip;
    }
    match genesis_hash {
        Some(hash) => GenesisPlan::Check(hash),
        None => GenesisPlan::Release,
    }
}

/// Whether a message goes on to the node's other parts.
#[derive(Debug)]
pub enum Admission {
    /// The peer sends too many of its sort.
    Dropped,
    Handled,
    Refused(String),
}

/// How many of the messages at the start of a connection have to get out: the
/// handshake and the ping.
pub const REQUIRED_OPENINGS: usize = 2;

/// Decides whether a connection goes on after one of the messages at its start was
/// sent, by its place among them. Without a handshake and a ping there is no
/// connection; what comes behind them may get lost.
pub fn after_opening(place: usize, sent: Result<(), String>) -> (going_on: Result<(), String>)
    ensures
        going_on == (if place < REQUIRED_OPENINGS {
            sent
        } else {
            Ok(())
        }),
{
    if place < REQUIRED_OPENINGS {
        sent
    } else {
        Ok(())
    }
}

/// Decides whether a message goes on to the node's other parts: if the rate allows
/// and the chain is there. A chain comes with the register of masternodes.
pub fn admit_message(allowed: bool, has_blockchain: bool, has_registry: bool) -> (admission: Admission)
    requires
        has_blockchain ==> has_registry,
    ensures
        match admission {
            Admission::Dropped => !allowed,
            Admission::Handled => allowed && has_blockchain,
            Admission::Refused(text) => allowed && !has_blockchain && text@ == (if has_registry {
                "Cannot create context without blockchain"@
            } else {
                "Cannot create context without masternode registry"@
            }),
        },
{
    if !allowed {
        Admission::Dropped
    } else if has_blockchain {
        Admission::Handled
    } else if has_registry {
        Admission::Refused(String::from_str("Cannot create context without blockchain"))
    } else {
        Admission::Refused(String::from_str("Cannot create context without masternode registry"))
    }
}

/// What the connection makes of a handler's result: an answer to send, or the
/// report that the peer is banned. Other errors do not concern the connection.
pub fn after_handler(result: Result<Option<NetworkMessage>, String>) -> (outcome: Result<
    Option<NetworkMessage>,
    String,
>)
    ensures
        match (result, outcome) {
            (Ok(answer), Ok(sent)) => sent == answer,
            (Ok(_), Err(_)) => false,
            (Err(text), Ok(sent)) => !has_part(text@, "is banned"@) && sent is None,
            (Err(text), Err(kept)) => has_part(text@, "is banned"@) && kept@ == text@,
        },
{
    match result {
        Ok(answer) => Ok(answer),
        Err(text) => if contains_text(text.as_str(), "is banned") {
            Err(text)
        } else {
            Ok(None)
        },
    }
}

/// The text of a host and a port.
pub fn dial_address(ip: &str, port: u16) -> (text: String)
    ensures
        text@ == dial_text(ip@, port),
{
    let number = decimal_text(port as u64);
    join3(ip, ":", number.as_str())
}

fn bare_host(text: &str) -> (bare: String)
    ensures
        bare@ == before_colon(text@),
{
    let n: usize = text.unicode_len();
    let mut i: usize = 0;
    proof {
        assert(text@.skip(0) =~= text@);
        assert(text@.take(0) + before_colon(text@.skip(0)) =~= before_colon(text@));
    }
    while i < n && text.get_char(i) != ':'
        invariant
            i <= n,
            n == text@.len(),
            before_colon(text@) == text@.take(i as int) + before_colon(text@.skip(i as int)),
        decreases n - i,
    {
        proof {
            let rest = text@.skip(i as int);
            assert(rest[0] == text@[i as int]);
            assert(rest.skip(1) =~= text@.skip(i + 1));
            assert(text@.take(i as int) + (seq![rest[0]] + before_colon(text@.skip(i + 1)))
                =~= text@.take(i + 1) + before_colon(text@.skip(i + 1)));
        }
        i = i + 1;
    }
    let bare = String::from_str(text.substring_char(0, i));
    proof {
        assert(text@.take(i as int) + Seq::<char>::empty() =~= text@.take(i as int));
        assert(text@.subrange(0, i as int) =~= text@.take(i as int));
    }
    bare
}

impl PeerConnection {
    fn fresh(
        peer_ip: String,
        direction: ConnectionDirection,
        local_port: u16,
        remote_port: u16,
        is_whitelisted: bool,
        network_type: NetworkType,
    ) -> (made: Self)
        ensures
            made@ == fresh_peer(
                peer_ip@,
                direction,
                local_port,
                remote_port,
                is_whitelisted,
                network_type,
            ),
    {
        PeerConnection {
            peer_ip,
            direction,
            ping_state: PingState::new(),
            invalid_block_count: 0,
            local_port,
            remote_port,
            peer_height: None,
            fork_resolution_tracker: None,
            last_opportunistic_sync: None,
            is_whitelisted,
            network_type,
            ping_excess_streak: 0,
        }
    }

    /// A connection that the node opened, or why there is none.
    pub fn new_outbound(
        peer_ip: String,
        port: u16,
        is_whitelisted: bool,
        network_type: NetworkType,
        outcome: DialOutcome,
    ) -> (made: Result<Self, String>)
        ensures
            match made {
                Ok(peer) => outcome matches DialOutcome::Open { local_port, remote_port }
                    && peer@ == fresh_peer(
                    peer_ip@,
                    ConnectionDirection::Outbound,
                    local_port,
                    remote_port,
                    is_whitelisted,
                    network_type,
                ),
                Err(text) => dial_fault(peer_ip@, port, outcome) == Some(text@),
            },
    {
        let host = dial_address(peer_ip.as_str(), port);
        match outcome {
            DialOutcome::TimedOut => Err(
                join3("Connection to ", host.as_str(), " timed out (10s)"),
            ),
            DialOutcome::Refused(text) => Err(
                join4("Failed to connect to ", host.as_str(), ": ", text.as_str()),
            ),
            DialOutcome::NoPeerAddress(text) => Err(
                crate::text::join2("Failed to get peer address: ", text.as_str()),
            ),
            DialOutcome::NoLocalAddress(text) => Err(
                crate::text::join2("Failed to get local address: ", text.as_str()),
            ),
            DialOutcome::TlsFailed(text) => Err(
                join4("TLS handshake failed with ", host.as_str(), ": ", text.as_str()),
            ),
            DialOutcome::Open { local_port, remote_port } => Ok(
                PeerConnection::fresh(
                    peer_ip,
                    ConnectionDirection::Outbound,
                    local_port,
                    remote_port,
                    is_whitelisted,
                    network_type,
                ),
            ),
        }
    }

    /// A connection that a peer opened.
    pub fn new_inbound(
        peer_ip: String,
        remote_port: u16,
        local_port: u16,
        is_whitelisted: bool,
        network_type: NetworkType,
    ) -> (made: Result<Self, String>)
        ensures
            made matches Ok(peer) && peer@ == fresh_peer(
                peer_ip@,
                ConnectionDirection::Inbound,
                local_port,
                remote_port,
                is_whitelisted,
                network_type,
            ),
    {
        Ok(
            PeerConnection::fresh(
                peer_ip,
                ConnectionDirection::Inbound,
                local_port,
                remote_port,
                is_whitelisted,
                network_type,
            ),
        )
    }

    /// The peer's address.
    pub fn peer_ip(&self) -> (ip: &str)
        ensures
            ip@ == self@.peer_ip,
    {
        self.peer_ip.as_str()
    }

    /// Who opened the connection.
    pub fn direction(&self) -> (direction: ConnectionDirection)
        ensures
            direction == self@.direction,
    {
        self.direction
    }

    /// The peer's port.
    pub fn remote_port(&self) -> (port: u16)
        ensures
            port == self@.remote_port,
    {
        self.remote_port
    }

    /// The height that the peer told last.
    pub fn get_peer_height(&self) -> (height: Option<u64>)
        ensures
            height == self@.peer_height,
    {
        self.peer_height
    }

    /// How long a message takes one way, in nanoseconds: half of the latest round
    /// trip.
    pub fn get_ping_rtt(&self) -> (rtt: Option<u64>)
        ensures
            rtt == self@.ping_state.last_rtt,
    {
        self.ping_state.last_rtt
    }

    /// Notes a ping with a number, at given times, and gives the message.
    pub fn send_ping_at(&mut self, nonce: u64, timestamp: i64, height: Option<u64>, now: u64) -> (message:
        NetworkMessage)
        ensures
            final(self)@ == old(self)@.pinging(nonce, now),
            message@ == (MessageV::Ping { nonce, timestamp, height }),
    {
        self.ping_state.record_ping_sent_at(nonce, now);
        NetworkMessage::Ping { nonce, timestamp, height }
    }

    /// Notes a ping with a number picked at random, and gives the message.
    pub fn send_ping(&mut self, height: Option<u64>) -> (message: NetworkMessage)
        ensures
            exists|nonce: u64, timestamp: i64, now: u64|
                final(self)@ == (#[trigger] old(self)@.pinging(nonce, now)) && message@
                    == #[trigger] ping_message(nonce, timestamp, height),
    {
        let nonce: u64 = random_number();
        let timestamp: i64 = utc_seconds();
        let now: u64 = self.ping_state.clock.nanos();
        let message = self.send_ping_at(nonce, timestamp, height, now);
        assert(message@ == ping_message(nonce, timestamp, height));
        message
    }

    /// Notes the height that came with a ping, at a time, and gives the answer.
    pub fn handle_ping_at(
        &mut self,
        nonce: u64,
        peer_height: Option<u64>,
        our_height: Option<u64>,
        timestamp: i64,
    ) -> (answer: NetworkMessage)
        ensures
            final(self)@ == old(self)@.told_height(peer_height),
            answer@ == (MessageV::Pong { nonce, timestamp, height: our_height }),
    {
        if peer_height.is_some() {
            self.peer_height = peer_height;
        }
        NetworkMessage::Pong { nonce, timestamp, height: our_height }
    }

    /// Notes a pong and the height that came with it, at a time.
    pub fn handle_pong_at(&mut self, nonce: u64, peer_height: Option<u64>, now: u64) -> (matched: bool)
        ensures
            (final(self)@, matched) == old(self)@.ponged(nonce, peer_height, now),
    {
        if peer_height.is_some() {
            self.peer_height = peer_height;
        }
        self.ping_state.record_pong_received_at(nonce, now)
    }

    /// How many other peers are near the height of a fork. Fewer than two peers
    /// say nothing. Each peer is given with the height that is known of it.
    pub fn check_fork_agreement(
        &self,
        peers: &Vec<(String, Option<u64>)>,
        fork_height: u64,
        exclude_peer: &str,
    ) -> (count: usize)
        requires
            peers@.len() >= 2 ==> all_comparable(peers@, fork_height, exclude_peer@),
        ensures
            count == agreement(peers@, fork_height, exclude_peer@),
    {
        if peers.len() < 2 {
            return 0;
        }
        let mut count: usize = 0;
        let mut i: usize = 0;
        assert(peers@.take(0) =~= seq![]);
        while i < peers.len()
            invariant
                i <= peers@.len(),
                count == agreeing(peers@.take(i as int), fork_height, exclude_peer@),
                count <= i,
                all_comparable(peers@, fork_height, exclude_peer@),
            decreases peers@.len() - i,
        {
            proof {
                assert(peers@.take(i + 1).drop_last() =~= peers@.take(i as int));
                assert(peers@.take(i + 1).last() == peers@[i as int]);
            }
            let peer = &peers[i];
            if !same_text(peer.0.as_str(), exclude_peer) {
                match peer.1 {
                    Some(height) => {
                        if heights_near(height, fork_height) {
                            count = count + 1;
                        }
                    },
                    None => {},
                }
            }
            i = i + 1;
        }
        assert(peers@.take(i as int) =~= peers@);
        count
    }

    /// Whether the connection is to end as the peer does not answer, at a time.
    /// That with a whitelisted peer never is.
    pub fn should_disconnect_at(&mut self, now: u64) -> (over: bool)
        requires
            old(self)@.can_be_timed(),
        ensures
            (final(self)@, over) == old(self)@.timed(now),
    {
        if self.is_whitelisted {
            return false;
        }
        proof {
            lemma_still_open_len(self.ping_state@.pending_pings, PONG_TIMEOUT, now);
        }
        self.ping_state.check_timeout_at(MAX_MISSED_PONGS, PONG_TIMEOUT, now)
    }

    /// Takes a message, at given times. Messages that concern the connection are
    /// dealt with here; the others are to be passed on.
    pub fn handle_message_unified_at(
        &mut self,
        message: &NetworkMessage,
        our_height: Option<u64>,
        timestamp: i64,
        now: u64,
    ) -> (receipt: Receipt)
        ensures
            (final(self)@, receipt@) == old(self)@.received(message@, our_height, timestamp, now),
    {
        match message {
            NetworkMessage::Ping { nonce, height, .. } => Receipt::Reply(
                self.handle_ping_at(*nonce, *height, our_height, timestamp),
            ),
            NetworkMessage::Pong { nonce, height, .. } => {
                let _ = self.handle_pong_at(*nonce, *height, now);
                Receipt::Ponged { nonce: *nonce, rtt: self.ping_state.last_rtt }
            },
            NetworkMessage::Handshake { .. } => Receipt::Done,
            NetworkMessage::Version { .. } => Receipt::Done,
            NetworkMessage::Ack => Receipt::Done,
            _ => Receipt::Pass(String::from_str(rate_limit_key(message))),
        }
    }

    /// Takes a message.
    pub fn handle_message_unified(&mut self, message: &NetworkMessage, our_height: Option<u64>) -> (receipt:
        Receipt)
        ensures
            exists|timestamp: i64, now: u64|
                (final(self)@, receipt@) == #[trigger] old(self)@.received(
                    message@,
                    our_height,
                    timestamp,
                    now,
                ),
    {
        let timestamp: i64 = utc_seconds();
        let now: u64 = self.ping_state.clock.nanos();
        self.handle_message_unified_at(message, our_height, timestamp, now)
    }

    /// The messages at the start of a connection, at given times: a handshake and a
    /// ping; from the side that dialed also what it wants to know and what it
    /// announces of itself.
    pub fn opening_messages_at(
        &mut self,
        magic: [u8; 4],
        network: String,
        commit_count: u32,
        height: Option<u64>,
        announcement: Option<NetworkMessage>,
        nonce: u64,
        timestamp: i64,
        now: u64,
    ) -> (messages: Vec<NetworkMessage>)
        ensures
            final(self)@ == old(self)@.pinging(nonce, now),
            views(messages@) == opening(
                old(self)@.direction,
                magic@,
                network@,
                commit_count,
                ping_message(nonce, timestamp, height),
                option_view(announcement),
            ),
    {
        let mut messages: Vec<NetworkMessage> = Vec::new();
        let ghost told_of = option_view(announcement);
        messages.push(
            NetworkMessage::Handshake {
                magic,
                protocol_version: PROTOCOL_VERSION,
                network,
                commit_count,
            },
        );
        let ping = self.send_ping_at(nonce, timestamp, height, now);
        messages.push(ping);
        if self.direction == ConnectionDirection::Outbound {
            messages.push(NetworkMessage::GetPeers);
            messages.push(NetworkMessage::GetMasternodes);
            match announcement {
                Some(message) => {
                    messages.push(message);
                },
                None => {},
            }
        }
        assert(views(messages@) =~= opening(
            self@.direction,
            magic@,
            network@,
            commit_count,
            ping_message(nonce, timestamp, height),
            told_of,
        ));
        messages
    }

    /// Decides what to do after something happened on the connection, at a time.
    pub fn run_message_loop_unified_at(&mut self, event: LoopEvent, now: u64) -> (action: LoopAction)
        requires
            event is TimeoutTick ==> old(self)@.can_be_timed(),
        ensures
            (final(self)@, action@) == old(self)@.stepped(event, now),
    {
        match event {
            LoopEvent::ReaderClosed => LoopAction::Stop,
            LoopEvent::Ended => LoopAction::Stop,
            LoopEvent::Handled(handled) => match handled {
                Ok(_) => LoopAction::Continue,
                Err(text) => if contains_text(text.as_str(), "is banned") {
                    LoopAction::Stop
                } else if contains_text(text.as_str(), "DISCONNECT:") && !self.is_whitelisted {
                    LoopAction::Stop
                } else {
                    LoopAction::Continue
                },
            },
            LoopEvent::ReadFailed(report) => {
                if contains_text(report.as_str(), "Frame too large") {
                    match find_size(report.as_str()) {
                        Some(size) => {
                            if size > MALICIOUS_FRAME_BYTES && !self.is_whitelisted
                                && parse_address(self.peer_ip.as_str()).is_some() {
                                return LoopAction::StopAndBan(Ban::FrameBomb);
                            }
                        },
                        None => {},
                    }
                }
                LoopAction::Stop
            },
            LoopEvent::Forwarded { sent } => if sent {
                LoopAction::Continue
            } else {
                LoopAction::Stop
            },
            LoopEvent::GenesisChecked { compatible } => {
                if compatible {
                    return LoopAction::Continue;
                }
                let bare = bare_host(self.peer_ip.as_str());
                if parse_address(bare.as_str()).is_some() {
                    LoopAction::StopAndBan(Ban::Genesis(bare))
                } else {
                    LoopAction::Stop
                }
            },
            LoopEvent::Pinged { sent } => if sent {
                LoopAction::Continue
            } else {
                LoopAction::Stop
            },
            LoopEvent::TimeoutTick => if self.should_disconnect_at(now) {
                LoopAction::Stop
            } else {
                LoopAction::Continue
            },
        }
    }

    /// Decides what to do after something happened on the connection.
    pub fn run_message_loop_unified(&mut self, event: LoopEvent) -> (action: LoopAction)
        requires
            event is TimeoutTick ==> old(self)@.can_be_timed(),
        ensures
            exists|now: u64| (final(self)@, action@) == #[trigger] old(self)@.stepped(event, now),
    {
        let now: u64 = self.ping_state.clock.nanos();
        self.run_message_loop_unified_at(event, now)
    }
}

/// A ping.
pub open spec fn ping_message(nonce: u64, timestamp: i64, height: Option<u64>) -> MessageV {
    MessageV::Ping { nonce, timestamp, height }
}

/// What is sent at the start of a connection.
pub open spec fn opening(
    direction: ConnectionDirection,
    magic: Seq<u8>,
    network: Seq<char>,
    commit_count: u32,
    ping: MessageV,
    announcement: Option<MessageV>,
) -> Seq<MessageV> {
    let handshake = MessageV::Handshake {
        magic,
        protocol_version: PROTOCOL_VERSION,
        network,
        commit_count,
    };
    match (direction, announcement) {
        (ConnectionDirection::Inbound, _) => seq![handshake, ping],
        (ConnectionDirection::Outbound, None) => {
            seq![handshake, ping, MessageV::GetPeers, MessageV::GetMasternodes]
        },
        (ConnectionDirection::Outbound, Some(message)) => {
            seq![handshake, ping, MessageV::GetPeers, MessageV::GetMasternodes, message]
        },
    }
}

/// The connection with a whitelisted peer is never ended for want of answers, nor
/// for a breach of the protocol, nor is the peer banned for a frame.
pub proof fn whitelisted_peers_are_kept(peer: PeerV, report: Seq<char>, now: u64)
    requires
        peer.is_whitelisted,
    ensures
        peer.stepped(LoopEvent::TimeoutTick, now) == (peer, ActionV::Continue),
        !has_part(report, "is banned"@) ==> peer.after_handling(Err(report)) == ActionV::Continue,
        peer.after_read_failure(report) == ActionV::Stop,
{
}

/// A peer on another chain is never kept, whitelisted or not.
pub proof fn other_chains_are_left(peer: PeerV, now: u64)
    ensures
        peer.stepped((LoopEvent::GenesisChecked { compatible: false }), now).1 !is Continue,
        peer.stepped((LoopEvent::GenesisChecked { compatible: true }), now) == (
            peer,
            ActionV::Continue,
        ),
{
}

/// Every ping is answered with its own number, so its sender can match the two.
pub proof fn pings_are_answered(
    sender: PeerV,
    receiver: PeerV,
    nonce: u64,
    timestamp: i64,
    height: Option<u64>,
    our_height: Option<u64>,
    now: u64,
)
    requires
        !crate::ping::has_nonce(sender.ping_state.pending_pings, nonce),
    ensures
        ({
            let (after, receipt) = receiver.received(
                ping_message(nonce, timestamp, height),
                our_height,
                timestamp,
                now,
            );
            &&& receipt == ReceiptV::Reply(
                MessageV::Pong { nonce, timestamp, height: our_height },
            )
            &&& height is Some ==> after.peer_height == height
            &&& sender.pinging(nonce, now).ponged(nonce, our_height, now).1
        }),
{
    crate::ping::pong_answers_its_ping(sender.ping_state, nonce, now, now);
}

/// A connection goes on after a message that was handled, whatever went wrong, unless
/// the report says that the peer is banned or, from a peer that is not whitelisted, that
/// it is to be disconnected.
pub proof fn handled_messages_end_nothing(peer: PeerV, report: Seq<char>)
    ensures
        peer.after_handling(Ok(())) == ActionV::Continue,
        peer.after_handling(Err(report)) == ActionV::Stop <==> has_part(report, "is banned"@) || (
        has_part(report, "DISCONNECT:"@) && !peer.is_whitelisted),
        peer.after_handling(Err(report)) == ActionV::Continue <==> !has_part(
            report,
            "is banned"@,
        ) && (!has_part(report, "DISCONNECT:"@) || peer.is_whitelisted),
{
}

/// A failed read ends the connection. A peer that sent a frame of more than a hundred
/// megabytes is banned besides, unless it is whitelisted or its address cannot be read.
pub proof fn frame_bombs_are_banned(peer: PeerV, report: Seq<char>)
    ensures
        peer.after_read_failure(report) == ActionV::BanForFrame <==> {
            &&& has_part(report, "Frame too large"@)
            &&& first_size(stretches(report)) matches Some(size) && size > 104_857_600
            &&& !peer.is_whitelisted
            &&& address(encode_utf8(peer.peer_ip)) is Some
        },
        peer.after_read_failure(report) == ActionV::BanForFrame || peer.after_read_failure(report)
            == ActionV::Stop,
{
}

/// A peer on another chain is banned by its bare address where that can be read.
pub proof fn other_chains_are_banned(peer: PeerV)
    ensures
        address(encode_utf8(before_colon(peer.peer_ip))) is Some ==> peer.after_genesis(false)
            == ActionV::BanForGenesis(before_colon(peer.peer_ip)),
        address(encode_utf8(before_colon(peer.peer_ip))) is None ==> peer.after_genesis(false)
            == ActionV::Stop,
        peer.after_genesis(true) == ActionV::Continue,
{
}

/// A connection ends when either side is gone, or when something could not be sent; as
/// long as things are sent it goes on. None of this changes what is known of the peer.
pub proof fn connections_live_while_things_are_sent(peer: PeerV, sent: bool, now: u64)
    ensures
        peer.stepped(LoopEvent::ReaderClosed, now) == (peer, ActionV::Stop),
        peer.stepped(LoopEvent::Ended, now) == (peer, ActionV::Stop),
        peer.stepped((LoopEvent::Forwarded { sent }), now).0 == peer,
        peer.stepped((LoopEvent::Forwarded { sent }), now).1 == ActionV::Continue <==> sent,
        peer.stepped((LoopEvent::Forwarded { sent }), now).1 == ActionV::Stop <==> !sent,
        peer.stepped((LoopEvent::Pinged { sent }), now).0 == peer,
        peer.stepped((LoopEvent::Pinged { sent }), now).1 == ActionV::Continue <==> sent,
        peer.stepped((LoopEvent::Pinged { sent }), now).1 == ActionV::Stop <==> !sent,
{
}

/// The connection with a peer that is not whitelisted ends when ten pongs are missing,
/// counting each ping that has been open for more than five minutes.
pub proof fn silent_peers_are_dropped(peer: PeerV, now: u64)
    requires
        !peer.is_whitelisted,
        peer.ping_state.missed_pongs + peer.ping_state.pending_pings.len() <= u32::MAX,
    ensures
        ({
            let (after, action) = peer.stepped(LoopEvent::TimeoutTick, now);
            let open_ones = crate::ping::still_open(
                peer.ping_state.pending_pings,
                300_000_000_000,
                now,
            );
            let missing = peer.ping_state.missed_pongs + peer.ping_state.pending_pings.len()
                - open_ones.len();
            &&& action == ActionV::Stop <==> missing >= 10
            &&& action == ActionV::Continue <==> missing < 10
            &&& after.ping_state.missed_pongs == missing
            &&& after.ping_state.pending_pings == open_ones
            &&& after.peer_height == peer.peer_height
        }),
{
    crate::ping::unanswered_pings_are_missed(
        peer.ping_state,
        MAX_MISSED_PONGS,
        PONG_TIMEOUT,
        now,
    );
}

/// What the peer says of its height is kept, from pings and from pongs; a message that
/// does not speak of it leaves it as it was. A handshake asks for nothing more.
pub proof fn heights_are_learned(
    peer: PeerV,
    nonce: u64,
    timestamp: i64,
    height: Option<u64>,
    our_height: Option<u64>,
    now: u64,
)
    ensures
        ({
            let ping = MessageV::Ping { nonce, timestamp, height };
            let pong = MessageV::Pong { nonce, timestamp, height };
            let known = if height is Some {
                height
            } else {
                peer.peer_height
            };
            &&& peer.received(ping, our_height, timestamp, now).0.peer_height == known
            &&& peer.received(pong, our_height, timestamp, now).0.peer_height == known
            &&& peer.received(pong, our_height, timestamp, now).1 is Ponged
            &&& peer.received(MessageV::Ack, our_height, timestamp, now) == (
                peer,
                ReceiptV::Done,
            )
            &&& peer.received(MessageV::GetPeers, our_height, timestamp, now) == (
                peer,
                ReceiptV::Pass("get_peers"@),
            )
        }),
{
}

/// Peers agree with a fork when they are at most ten blocks from it. The peer in
/// question is not asked, nor one whose height is unknown, and it takes two peers to ask
/// anyone.
pub proof fn near_peers_agree(
    peers: Seq<(String, Option<u64>)>,
    peer: (String, Option<u64>),
    fork_height: u64,
    exclude: Seq<char>,
)
    requires
        fork_height <= i64::MAX,
        peer.1 matches Some(height) ==> height <= i64::MAX,
    ensures
        agreement(seq![], fork_height, exclude) == 0,
        agreement(seq![peer], fork_height, exclude) == 0,
        peers.len() >= 1 ==> agreement(peers.push(peer), fork_height, exclude) == agreeing(
            peers,
            fork_height,
            exclude,
        ) + (match peer.1 {
            Some(height) => if peer.0@ != exclude && height <= fork_height + 10 && fork_height
                <= height + 10 {
                1int
            } else {
                0
            },
            None => 0,
        }),
{
    assert(peers.push(peer).drop_last() =~= peers);
}

/// A masternode announces what is on record under its own address, with a proof of its
/// collateral where it has one.
pub proof fn announcements_tell_what_is_on_record(
    nodes: Seq<MasternodeInfoV>,
    node: MasternodeInfoV,
    address: Seq<char>,
    outpoint: Option<OutPointV>,
    certificate: Seq<u8>,
    started_at: u64,
    shown: Seq<u8>,
)
    ensures
        own_entry(seq![], address) is None,
        own_entry(nodes.push(node), address) == (match own_entry(nodes, address) {
            Some(found) => Some(found),
            None => if node.masternode.address == address {
                Some(node)
            } else {
                None
            },
        }),
        ({
            let message = announcement_for(node, outpoint, certificate, started_at, shown);
            let told_of = match message {
                MessageV::MasternodeAnnouncementV4(announced, _) => announced,
                MessageV::MasternodeAnnouncementV3(announced) => announced,
                _ => arbitrary(),
            };
            &&& shown.len() > 0 <==> (message matches MessageV::MasternodeAnnouncementV4(
                _,
                sent,
            ) && sent == shown)
            &&& shown.len() == 0 <==> message is MasternodeAnnouncementV3
            &&& told_of.address == node.masternode.address
            &&& told_of.reward_address == node.reward_address
            &&& told_of.tier == node.masternode.tier
            &&& told_of.public_key == node.masternode.public_key
            &&& told_of.collateral_outpoint == outpoint
            &&& told_of.certificate == certificate
            &&& told_of.started_at == started_at
        }),
{
    assert(nodes.push(node).drop_last() =~= nodes);
}

/// A connection begins with a handshake and a ping. The side that dialed also asks for
/// peers and masternodes, and announces itself where it has something to announce.
pub proof fn connections_begin_with_a_handshake(
    direction: ConnectionDirection,
    magic: Seq<u8>,
    network: Seq<char>,
    commit_count: u32,
    ping: MessageV,
    announcement: Option<MessageV>,
)
    ensures
        ({
            let sent = opening(direction, magic, network, commit_count, ping, announcement);
            let dialed = direction == ConnectionDirection::Outbound;
            &&& sent[0] == (MessageV::Handshake {
                magic,
                protocol_version: 2,
                network,
                commit_count,
            })
            &&& sent[1] == ping
            &&& sent.len() == (if !dialed {
                2int
            } else if announcement is None {
                4
            } else {
                5
            })
            &&& dialed ==> sent[2] == MessageV::GetPeers && sent[3] == MessageV::GetMasternodes
            &&& dialed && announcement is Some ==> Some(sent[4]) == announcement
        }),
{
}

/// The bare host of a text is what stands before its first colon.
pub proof fn bare_hosts_end_at_the_colon(host: Seq<char>, rest: Seq<char>)
    requires
        forall|i: int| 0 <= i < host.len() ==> host[i] != ':',
    ensures
        before_colon(host + seq![':'] + rest) == host,
        before_colon(host) == host,
    decreases host.len(),
{
    let text = host + seq![':'] + rest;
    if host.len() == 0 {
        assert(text[0] == ':');
        assert(before_colon(text) =~= host);
        assert(before_colon(host) =~= host);
    } else {
        let tail = host.skip(1);
        assert forall|i: int| 0 <= i < tail.len() implies tail[i] != ':' by {
            assert(tail[i] == host[i + 1]);
        }
        bare_hosts_end_at_the_colon(tail, rest);
        assert(text.skip(1) =~= tail + seq![':'] + rest);
        assert(text[0] == host[0]);
        assert(seq![host[0]] + tail =~= host);
    }
}

/// A new connection is with the peer and from the side that it was made for, and nothing
/// is known of the peer yet. It is there exactly when dialing came through.
pub proof fn new_connections_know_nothing(
    ip: Seq<char>,
    direction: ConnectionDirection,
    port: u16,
    remote: u16,
    whitelisted: bool,
    network: NetworkType,
    outcome: DialOutcome,
)
    ensures
        ({
            let peer = fresh_peer(ip, direction, port, remote, whitelisted, network);
            &&& peer.peer_ip == ip
            &&& peer.direction == direction
            &&& peer.local_port == port
            &&& peer.remote_port == remote
            &&& peer.is_whitelisted == whitelisted
            &&& peer.network_type == network
            &&& peer.peer_height is None
            &&& peer.invalid_block_count == 0
            &&& peer.ping_excess_streak == 0
            &&& peer.ping_state.pending_pings.len() == 0
            &&& peer.ping_state.missed_pongs == 0
            &&& peer.ping_state.last_rtt is None
        }),
        dial_fault(ip, port, outcome) is None <==> outcome is Open,
{
}

} // verus!
