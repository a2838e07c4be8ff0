//! The messages that nodes send each other.

use crate::engine::ConsensusEngine;
use crate::types::{
    option_view, FallbackVote, FallbackVoteV, FinalityProposal, FinalityProposalV, Hash256,
    LivenessAlert, LivenessAlertV, Masternode, MasternodeTier, OutPoint, OutPointV,
    PaymentRequest, PaymentRequestV, TimeProof, TimeProofV, TimeVote, TimeVoteV, Transaction,
    TransactionV, UTXOState,
};
use vstd::prelude::*;

verus! {

/// What a masternode tells of itself.
#[derive(Debug)]
pub struct Announcement {
    pub address: String,
    pub reward_address: String,
    pub tier: MasternodeTier,
    pub public_key: Hash256,
    pub collateral_outpoint: Option<OutPoint>,
    pub certificate: Vec<u8>,
    pub started_at: u64,
}

/// What an announcement says.
pub struct AnnouncementV {
    pub address: Seq<char>,
    pub reward_address: Seq<char>,
    pub tier: MasternodeTier,
    pub public_key: Seq<u8>,
    pub collateral_outpoint: Option<OutPointV>,
    pub certificate: Seq<u8>,
    pub started_at: u64,
}

impl View for Announcement {
    type V = AnnouncementV;

    open spec fn view(&self) -> AnnouncementV {
        AnnouncementV {
            address: self.address@,
            reward_address: self.reward_address@,
            tier: self.tier,
            public_key: self.public_key@,
            collateral_outpoint: option_view(self.collateral_outpoint),
            certificate: self.certificate@,
            started_at: self.started_at,
        }
    }
}

/// A message between nodes. Of a message that is passed on to the node's other
/// parts as it came, only its sort is told.
#[derive(Debug)]
#[allow(inconsistent_fields)]
pub enum NetworkMessage {
    Ping { nonce: u64, timestamp: i64, height: Option<u64> },
    Pong { nonce: u64, timestamp: i64, height: Option<u64> },
    Handshake { magic: [u8; 4], protocol_version: u32, network: String, commit_count: u32 },
    Version { commit_count: String },
    Ack,
    GetPeers,
    GetMasternodes,
    GetChainTip,
    GetBlocks,
    MasternodesResponse,
    MasternodeAnnouncement,
    MasternodeAnnouncementV2,
    MasternodeAnnouncementV3(Announcement),
    MasternodeAnnouncementV4(Announcement, Vec<u8>),
    BlockAnnouncement,
    BlockResponse,
    BlocksResponse,
    BlockRangeResponse,
    TimeLockBlockProposal,
    TransactionBroadcast(Transaction),
    TransactionFinalized { txid: Hash256, tx: Transaction },
    TimeVoteRequest {
        txid: Hash256,
        tx_hash_commitment: Hash256,
        slot_index: u64,
        tx: Option<Transaction>,
    },
    TimeVoteResponse,
    TimeVoteBroadcast,
    TimeVotePrepare,
    TimeVotePrecommit,
    TransactionVoteRequest,
    TransactionVoteResponse,
    FinalityVoteRequest,
    FinalityVoteResponse,
    FinalityVoteBroadcast { vote: TimeVote },
    TimeProofBroadcast { proof: TimeProof },
    UTXOStateUpdate { outpoint: OutPoint, state: UTXOState },
    UTXOSetResponse,
    UTXOSetChunk,
    UtxoReconciliationResponse,
    UtxoReconciliationChunk,
    LivenessAlert { alert: LivenessAlert },
    FinalityProposal { proposal: FinalityProposal },
    FallbackVote { vote: FallbackVote },
    PaymentRequestRelay(PaymentRequest),
    PaymentRequestResponse {
        id: String,
        requester_address: String,
        payer_address: String,
        accepted: bool,
        txid: Option<String>,
    },
    PaymentRequestCancelled { id: String, requester_address: String },
    PaymentRequestViewed { id: String, requester_address: String, payer_address: String },
    Other,
}

/// What a message says.
#[allow(inconsistent_fields)]
pub enum MessageV {
    Ping { nonce: u64, timestamp: i64, height: Option<u64> },
    Pong { nonce: u64, timestamp: i64, height: Option<u64> },
    Handshake { magic: Seq<u8>, protocol_version: u32, network: Seq<char>, commit_count: u32 },
    Version { commit_count: Seq<char> },
    Ack,
    GetPeers,
    GetMasternodes,
    GetChainTip,
    GetBlocks,
    MasternodesResponse,
    MasternodeAnnouncement,
    MasternodeAnnouncementV2,
    MasternodeAnnouncementV3(AnnouncementV),
    MasternodeAnnouncementV4(AnnouncementV, Seq<u8>),
    BlockAnnouncement,
    BlockResponse,
    BlocksResponse,
    BlockRangeResponse,
    TimeLockBlockProposal,
    TransactionBroadcast(TransactionV),
    TransactionFinalized { txid: Seq<u8>, tx: TransactionV },
    TimeVoteRequest {
        txid: Seq<u8>,
        tx_hash_commitment: Seq<u8>,
        slot_index: u64,
        tx: Option<TransactionV>,
    },
    TimeVoteResponse,
    TimeVoteBroadcast,
    TimeVotePrepare,
    TimeVotePrecommit,
    TransactionVoteRequest,
    TransactionVoteResponse,
    FinalityVoteRequest,
    FinalityVoteResponse,
    FinalityVoteBroadcast { vote: TimeVoteV },
    TimeProofBroadcast { proof: TimeProofV },
    UTXOStateUpdate { outpoint: OutPointV, state: UTXOState },
    UTXOSetResponse,
    UTXOSetChunk,
    UtxoReconciliationResponse,
    UtxoReconciliationChunk,
    LivenessAlert { alert: LivenessAlertV },
    FinalityProposal { proposal: FinalityProposalV },
    FallbackVote { vote: FallbackVoteV },
    PaymentRequestRelay(PaymentRequestV),
    PaymentRequestResponse {
        id: Seq<char>,
        requester_address: Seq<char>,
        payer_address: Seq<char>,
        accepted: bool,
        txid: Option<Seq<char>>,
    },
    PaymentRequestCancelled { id: Seq<char>, requester_address: Seq<char> },
    PaymentRequestViewed {
        id: Seq<char>,
        requester_address: Seq<char>,
        payer_address: Seq<char>,
    },
    Other,
}

impl View for NetworkMessage {
    type V = MessageV;

    open spec fn view(&self) -> MessageV {
        match self {
            NetworkMessage::Ping { nonce, timestamp, height } => MessageV::Ping {
                nonce: *nonce,
                timestamp: *timestamp,
                height: *height,
            },
            NetworkMessage::Pong { nonce, timestamp, height } => MessageV::Pong {
                nonce: *nonce,
                timestamp: *timestamp,
                height: *height,
            },
            NetworkMessage::Handshake { magic, protocol_version, network, commit_count } => {
                MessageV::Handshake {
                    magic: magic@,
                    protocol_version: *protocol_version,
                    network: network@,
                    commit_count: *commit_count,
                }
            },
            NetworkMessage::Version { commit_count } => MessageV::Version {
                commit_count: commit_count@,
            },
            NetworkMessage::Ack => MessageV::Ack,
            NetworkMessage::GetPeers => MessageV::GetPeers,
            NetworkMessage::GetMasternodes => MessageV::GetMasternodes,
            NetworkMessage::GetChainTip => MessageV::GetChainTip,
            NetworkMessage::GetBlocks => MessageV::GetBlocks,
            NetworkMessage::MasternodesResponse => MessageV::MasternodesResponse,
            NetworkMessage::MasternodeAnnouncement => MessageV::MasternodeAnnouncement,
            NetworkMessage::MasternodeAnnouncementV2 => MessageV::MasternodeAnnouncementV2,
            NetworkMessage::MasternodeAnnouncementV3(told) => MessageV::MasternodeAnnouncementV3(
                told@,
            ),
            NetworkMessage::MasternodeAnnouncementV4(told, proven) => {
                MessageV::MasternodeAnnouncementV4(told@, proven@)
            },
            NetworkMessage::BlockAnnouncement => MessageV::BlockAnnouncement,
            NetworkMessage::BlockResponse => MessageV::BlockResponse,
            NetworkMessage::BlocksResponse => MessageV::BlocksResponse,
            NetworkMessage::BlockRangeResponse => MessageV::BlockRangeResponse,
            NetworkMessage::TimeLockBlockProposal => MessageV::TimeLockBlockProposal,
            NetworkMessage::TransactionBroadcast(tx) => MessageV::TransactionBroadcast(tx@),
            NetworkMessage::TransactionFinalized { txid, tx } => MessageV::TransactionFinalized {
                txid: txid@,
                tx: tx@,
            },
            NetworkMessage::TimeVoteRequest { txid, tx_hash_commitment, slot_index, tx } => {
                MessageV::TimeVoteRequest {
                    txid: txid@,
                    tx_hash_commitment: tx_hash_commitment@,
                    slot_index: *slot_index,
                    tx: option_view(*tx),
                }
            },
            NetworkMessage::TimeVoteResponse => MessageV::TimeVoteResponse,
            NetworkMessage::TimeVoteBroadcast => MessageV::TimeVoteBroadcast,
            NetworkMessage::TimeVotePrepare => MessageV::TimeVotePrepare,
            NetworkMessage::TimeVotePrecommit => MessageV::TimeVotePrecommit,
            NetworkMessage::TransactionVoteRequest => MessageV::TransactionVoteRequest,
            NetworkMessage::TransactionVoteResponse => MessageV::TransactionVoteResponse,
            NetworkMessage::FinalityVoteRequest => MessageV::FinalityVoteRequest,
            NetworkMessage::FinalityVoteResponse => MessageV::FinalityVoteResponse,
            NetworkMessage::FinalityVoteBroadcast { vote } => MessageV::FinalityVoteBroadcast {
                vote: vote@,
            },
            NetworkMessage::TimeProofBroadcast { proof: proven } => MessageV::TimeProofBroadcast {
                proof: proven@,
            },
            NetworkMessage::UTXOStateUpdate { outpoint, state } => MessageV::UTXOStateUpdate {
                outpoint: outpoint@,
                state: *state,
            },
            NetworkMessage::UTXOSetResponse => MessageV::UTXOSetResponse,
            NetworkMessage::UTXOSetChunk => MessageV::UTXOSetChunk,
            NetworkMessage::UtxoReconciliationResponse => MessageV::UtxoReconciliationResponse,
            NetworkMessage::UtxoReconciliationChunk => MessageV::UtxoReconciliationChunk,
            NetworkMessage::LivenessAlert { alert } => MessageV::LivenessAlert { alert: alert@ },
            NetworkMessage::FinalityProposal { proposal } => MessageV::FinalityProposal {
                proposal: proposal@,
            },
            NetworkMessage::FallbackVote { vote } => MessageV::FallbackVote { vote: vote@ },
            NetworkMessage::PaymentRequestRelay(request) => MessageV::PaymentRequestRelay(
                request@,
            ),
            NetworkMessage::PaymentRequestResponse {
                id,
                requester_address,
                payer_address,
                accepted,
                txid,
            } => MessageV::PaymentRequestResponse {
                id: id@,
                requester_address: requester_address@,
                payer_address: payer_address@,
                accepted: *accepted,
                txid: option_view(*txid),
            },
            NetworkMessage::PaymentRequestCancelled { id, requester_address } => {
                MessageV::PaymentRequestCancelled {
                    id: id@,
                    requester_address: requester_address@,
                }
            },
            NetworkMessage::PaymentRequestViewed { id, requester_address, payer_address } => {
                MessageV::PaymentRequestViewed {
                    id: id@,
                    requester_address: requester_address@,
                    payer_address: payer_address@,
                }
            },
            NetworkMessage::Other => MessageV::Other,
        }
    }
}

impl MessageV {
    /// The bucket in which a message counts towards a peer's rate.
    pub open spec fn bucket(self) -> Seq<char> {
        match self {
            MessageV::TransactionBroadcast(_) => "tx"@,
            MessageV::TransactionFinalized { .. } => "tx_finalized"@,
            MessageV::GetBlocks => "get_blocks"@,
            MessageV::GetPeers => "get_peers"@,
            MessageV::GetMasternodes => "get_masternodes"@,
            MessageV::MasternodesResponse => "masternodes_response"@,
            MessageV::MasternodeAnnouncement => "masternode_announce"@,
            MessageV::MasternodeAnnouncementV2 => "masternode_announce"@,
            MessageV::MasternodeAnnouncementV3(_) => "masternode_announce"@,
            MessageV::MasternodeAnnouncementV4(_, _) => "masternode_announce"@,
            MessageV::BlockAnnouncement => "block"@,
            MessageV::BlockResponse => "block"@,
            MessageV::TimeLockBlockProposal => "block"@,
            MessageV::TimeVoteRequest { .. } => "vote"@,
            MessageV::TimeVoteResponse => "vote"@,
            MessageV::TimeVoteBroadcast => "vote"@,
            MessageV::TimeVotePrepare => "vote"@,
            MessageV::TimeVotePrecommit => "vote"@,
            MessageV::TransactionVoteRequest => "vote"@,
            MessageV::TransactionVoteResponse => "vote"@,
            MessageV::FinalityVoteRequest => "vote"@,
            MessageV::FinalityVoteResponse => "vote"@,
            MessageV::FinalityVoteBroadcast { .. } => "vote"@,
            MessageV::BlocksResponse => "sync"@,
            MessageV::BlockRangeResponse => "sync"@,
            MessageV::UTXOSetResponse => "sync"@,
            MessageV::UTXOSetChunk => "sync"@,
            MessageV::UtxoReconciliationResponse => "sync"@,
            MessageV::UtxoReconciliationChunk => "sync"@,
            _ => "general"@,
        }
    }
}

/// The bucket in which a message counts towards a peer's rate. Bulk answers have
/// one of their own, as they come in bursts.
pub fn rate_limit_key(msg: &NetworkMessage) -> (key: &'static str)
    ensures
        key@ == msg@.bucket(),
{
    match msg {
        NetworkMessage::TransactionBroadcast(_) => "tx",
        NetworkMessage::TransactionFinalized { .. } => "tx_finalized",
        NetworkMessage::GetBlocks => "get_blocks",
        NetworkMessage::GetPeers => "get_peers",
        NetworkMessage::GetMasternodes => "get_masternodes",
        NetworkMessage::MasternodesResponse => "masternodes_response",
        NetworkMessage::MasternodeAnnouncement => "masternode_announce",
        NetworkMessage::MasternodeAnnouncementV2 => "masternode_announce",
        NetworkMessage::MasternodeAnnouncementV3(_) => "masternode_announce",
        NetworkMessage::MasternodeAnnouncementV4(_, _) => "masternode_announce",
        NetworkMessage::BlockAnnouncement => "block",
        NetworkMessage::BlockResponse => "block",
        NetworkMessage::TimeLockBlockProposal => "block",
        NetworkMessage::TimeVoteRequest { .. } => "vote",
        NetworkMessage::TimeVoteResponse => "vote",
        NetworkMessage::TimeVoteBroadcast => "vote",
        NetworkMessage::TimeVotePrepare => "vote",
        NetworkMessage::TimeVotePrecommit => "vote",
        NetworkMessage::TransactionVoteRequest => "vote",
        NetworkMessage::TransactionVoteResponse => "vote",
        NetworkMessage::FinalityVoteRequest => "vote",
        NetworkMessage::FinalityVoteResponse => "vote",
        NetworkMessage::FinalityVoteBroadcast { .. } => "vote",
        NetworkMessage::BlocksResponse => "sync",
        NetworkMessage::BlockRangeResponse => "sync",
        NetworkMessage::UTXOSetResponse => "sync",
        NetworkMessage::UTXOSetChunk => "sync",
        NetworkMessage::UtxoReconciliationResponse => "sync",
        NetworkMessage::UtxoReconciliationChunk => "sync",
        _ => "general",
    }
}

/// What a block is made of: the transactions with their fees, and who is rewarded.
#[derive(Debug)]
pub struct BlockPlan {
    pub height: u64,
    pub previous_hash: Hash256,
    pub transactions: Vec<Transaction>,
    pub fees: Vec<u64>,
    pub masternodes: Vec<(Masternode, String)>,
    pub base_reward: u64,
}

/// The reward of a block before fees.
pub const BASE_REWARD: u64 = 100;

/// Whether a plan is the one for a height: every transaction and its fee, in
/// order, and the rewarded nodes as they are.
pub open spec fn plans_block(
    plan: BlockPlan,
    height: u64,
    finalized: Seq<(Transaction, u64)>,
    masternodes: Seq<(Masternode, String)>,
) -> bool {
    &&& plan.height == height
    &&& plan.previous_hash@ =~= Seq::new(32, |i: int| 0u8)
    &&& plan.base_reward == BASE_REWARD
    &&& plan.masternodes@ == masternodes
    &&& plan.transactions@.len() == finalized.len()
    &&& plan.fees@.len() == finalized.len()
    &&& forall|i: int|
        0 <= i < finalized.len() ==> (#[trigger] plan.transactions@[i])@ == finalized[i].0@
            && plan.fees@[i] == finalized[i].1
}

fn plan_block(
    height: u64,
    finalized: &Vec<(Transaction, u64)>,
    masternodes: Vec<(Masternode, String)>,
) -> (plan: BlockPlan)
    ensures
        plans_block(plan, height, finalized@, masternodes@),
{
    let mut transactions: Vec<Transaction> = Vec::new();
    let mut fees: Vec<u64> = Vec::new();
    let mut i: usize = 0;
    while i < finalized.len()
        invariant
            i <= finalized@.len(),
            transactions@.len() == i,
            fees@.len() == i,
            forall|j: int|
                0 <= j < i ==> (#[trigger] transactions@[j])@ == finalized@[j].0@ && fees@[j]
                    == finalized@[j].1,
        decreases finalized@.len() - i,
    {
        let entry = &finalized[i];
        let tx = entry.0.clone();
        let fee: u64 = entry.1;
        assert(tx@ == finalized@[i as int].0@);
        transactions.push(tx);
        fees.push(fee);
        i = i + 1;
    }
    BlockPlan {
        height,
        previous_hash: [0u8; 32],
        transactions,
        fees,
        masternodes,
        base_reward: BASE_REWARD,
    }
}

impl ConsensusEngine {
    /// The message that spreads a vote.
    pub fn broadcast_finality_vote(&self, vote: TimeVote) -> (message: NetworkMessage)
        ensures
            message@ == (MessageV::FinalityVoteBroadcast { vote: vote@ }),
    {
        NetworkMessage::FinalityVoteBroadcast { vote }
    }

    /// The message that spreads a proof of finality.
    pub fn broadcast_timeproof(&self, timeproof: TimeProof) -> (message: NetworkMessage)
        ensures
            message@ == (MessageV::TimeProofBroadcast { proof: timeproof@ }),
    {
        NetworkMessage::TimeProofBroadcast { proof: timeproof }
    }

    /// The message that passes a payment request on.
    pub fn broadcast_payment_request(&self, request: PaymentRequest) -> (message: NetworkMessage)
        ensures
            message@ == MessageV::PaymentRequestRelay(request@),
    {
        NetworkMessage::PaymentRequestRelay(request)
    }

    /// The message that answers a payment request.
    pub fn broadcast_payment_request_response(
        &self,
        id: String,
        requester_address: String,
        payer_address: String,
        accepted: bool,
        txid: Option<String>,
    ) -> (message: NetworkMessage)
        ensures
            message@ == (MessageV::PaymentRequestResponse {
                id: id@,
                requester_address: requester_address@,
                payer_address: payer_address@,
                accepted,
                txid: option_view(txid),
            }),
    {
        NetworkMessage::PaymentRequestResponse {
            id,
            requester_address,
            payer_address,
            accepted,
            txid,
        }
    }

    /// The message that takes a payment request back.
    pub fn broadcast_payment_request_cancelled(&self, id: String, requester_address: String) -> (
        message: NetworkMessage)
        ensures
            message@ == (MessageV::PaymentRequestCancelled {
                id: id@,
                requester_address: requester_address@,
            }),
    {
        NetworkMessage::PaymentRequestCancelled { id, requester_address }
    }

    /// The message that a payment request was seen.
    pub fn broadcast_payment_request_viewed(
        &self,
        id: String,
        requester_address: String,
        payer_address: String,
    ) -> (message: NetworkMessage)
        ensures
            message@ == (MessageV::PaymentRequestViewed {
                id: id@,
                requester_address: requester_address@,
                payer_address: payer_address@,
            }),
    {
        NetworkMessage::PaymentRequestViewed { id, requester_address, payer_address }
    }

    /// The message that spreads a transaction again, if the pool has it as final
    /// and there is a way to send it.
    pub fn rebroadcast_transaction(
        &self,
        txid: Hash256,
        tx: Option<Transaction>,
        is_finalized: bool,
        can_send: bool,
    ) -> (message: Option<NetworkMessage>)
        ensures
            match (tx, message) {
                (Some(found), Some(sent)) => is_finalized && can_send && sent@ == (
                MessageV::TransactionFinalized { txid: txid@, tx: found@ }),
                (Some(_), None) => !is_finalized || !can_send,
                (None, sent) => sent is None,
            },
    {
        match tx {
            Some(tx) => if is_finalized && can_send {
                Some(NetworkMessage::TransactionFinalized { txid, tx })
            } else {
                None
            },
            None => None,
        }
    }

    /// What the block at a height is made of, with all masternodes rewarded.
    pub fn generate_deterministic_block(&self, height: u64, finalized: &Vec<(Transaction, u64)>) -> (
        plan: BlockPlan)
        ensures
            plans_block(plan, height, finalized@, plan.masternodes@),
            plan.masternodes@.len() == self@.timevote.registry.active().len(),
            forall|i: int|
                0 <= i < plan.masternodes@.len() ==> (#[trigger] plan.masternodes@[i]).0@
                    == self@.timevote.registry.active()[i].masternode && plan.masternodes@[i].1@
                    == self@.timevote.registry.active()[i].reward_address,
    {
        let masternodes = self.get_masternodes_with_rewards();
        plan_block(height, finalized, masternodes)
    }

    /// What the block at a height is made of, with eligible masternodes rewarded.
    pub fn generate_deterministic_block_with_eligible(
        &self,
        height: u64,
        finalized: &Vec<(Transaction, u64)>,
        eligible: Vec<(Masternode, String)>,
    ) -> (plan: BlockPlan)
        ensures
            plans_block(plan, height, finalized@, eligible@),
    {
        plan_block(height, finalized, eligible)
    }

    /// What the block at a height is made of, with given masternodes rewarded.
    pub fn generate_deterministic_block_with_masternodes(
        &self,
        height: u64,
        finalized: &Vec<(Transaction, u64)>,
        masternodes: Vec<(Masternode, String)>,
    ) -> (plan: BlockPlan)
        ensures
            plans_block(plan, height, finalized@, masternodes@),
    {
        plan_block(height, finalized, masternodes)
    }
}

/// Messages of one sort count in one bucket: votes of every round, blocks, bulk answers,
/// and announcements of masternodes; transactions have one each, and so have the common
/// questions.
pub proof fn messages_are_sorted_into_buckets(vote: crate::types::TimeVoteV, tx: TransactionV)
    ensures
        (MessageV::FinalityVoteBroadcast { vote }).bucket() == "vote"@,
        MessageV::TimeVoteResponse.bucket() == "vote"@,
        MessageV::TimeVoteBroadcast.bucket() == "vote"@,
        MessageV::TimeVotePrepare.bucket() == MessageV::TimeVotePrecommit.bucket(),
        MessageV::TimeVotePrecommit.bucket() == "vote"@,
        MessageV::FinalityVoteRequest.bucket() == MessageV::FinalityVoteResponse.bucket(),
        MessageV::FinalityVoteResponse.bucket() == "vote"@,
        MessageV::TransactionVoteRequest.bucket() == MessageV::TransactionVoteResponse.bucket(),
        MessageV::TransactionVoteResponse.bucket() == "vote"@,
        MessageV::BlockAnnouncement.bucket() == "block"@,
        MessageV::BlockResponse.bucket() == MessageV::TimeLockBlockProposal.bucket(),
        MessageV::TimeLockBlockProposal.bucket() == "block"@,
        MessageV::BlocksResponse.bucket() == MessageV::BlockRangeResponse.bucket(),
        MessageV::UTXOSetResponse.bucket() == MessageV::UTXOSetChunk.bucket(),
        MessageV::UTXOSetChunk.bucket() == MessageV::BlocksResponse.bucket(),
        MessageV::BlocksResponse.bucket() == "sync"@,
        MessageV::MasternodeAnnouncement.bucket() == MessageV::MasternodeAnnouncementV2.bucket(),
        MessageV::MasternodeAnnouncementV2.bucket() == "masternode_announce"@,
        MessageV::TransactionBroadcast(tx).bucket() == "tx"@,
        MessageV::GetPeers.bucket() == "get_peers"@,
        MessageV::GetMasternodes.bucket() == "get_masternodes"@,
        MessageV::GetBlocks.bucket() == "get_blocks"@,
        MessageV::GetChainTip.bucket() == "general"@,
{
}

/// A block takes every final transaction with its own fee, in order, on top of a reward of
/// a hundred.
pub proof fn blocks_take_every_transaction(
    plan: BlockPlan,
    height: u64,
    finalized: Seq<(Transaction, u64)>,
    masternodes: Seq<(Masternode, String)>,
    i: int,
)
    requires
        plans_block(plan, height, finalized, masternodes),
    ensures
        plan.height == height,
        plan.base_reward == 100,
        plan.previous_hash@.len() == 32,
        forall|k: int| 0 <= k < 32 ==> plan.previous_hash@[k] == 0,
        plan.masternodes@ == masternodes,
        plan.transactions@.len() == finalized.len(),
        plan.fees@.len() == finalized.len(),
        0 <= i < finalized.len() ==> plan.transactions@[i]@ == finalized[i].0@ && plan.fees@[i]
            == finalized[i].1,
{
}

} // verus!
