//! The consensus engine of a node: its keys, its fee schedule, and the voting state.

use crate::clock::utc_seconds;
use crate::fees::{default_tiers, FeeSchedule, MIN_TX_FEE};
use crate::identity::NodeIdentity;
use crate::sums::{lists, views};
use crate::table::Table;
use crate::timevote::{ConsensusV, TimeVoteConfig, TimeVoteConsensus};
use crate::types::{
    Hash256, Masternode, MasternodeRegistry, MasternodeRegistryV, PaymentRequest, PaymentRequestV,
};
use vstd::prelude::*;

verus! {

/// When the first slot begins: 2025-01-01 00:00:00 UTC.
pub const GENESIS_TIME: i64 = 1_735_689_600;

/// How long a slot lasts, in seconds.
pub const SLOT_SECONDS: i64 = 600;

/// How many finality times are averaged.
pub const FINALITY_SAMPLES: usize = 20;

/// A node's address and its secret key, as plain values.
#[verifier::ext_equal]
pub struct IdentityV {
    pub address: Seq<char>,
    pub signing_key: Seq<u8>,
}

impl View for NodeIdentity {
    type V = IdentityV;

    open spec fn view(&self) -> IdentityV {
        IdentityV { address: self.address@, signing_key: self.signing_key@ }
    }
}

/// What the engine holds.
#[verifier::ext_equal]
pub struct EngineV {
    pub chain_id: u32,
    pub identity: Option<IdentityV>,
    pub wallet_signing_key: Option<Seq<u8>>,
    pub timevote: ConsensusV,
    pub finality_times: Map<Seq<u8>, (u64, Option<u64>)>,
    pub avg_finality_ms: Seq<u64>,
    pub prev_block_hash: Seq<u8>,
    pub payment_requests: Map<Seq<char>, Seq<PaymentRequestV>>,
    pub fee_tiers: Seq<(u64, u64)>,
    pub min_fee: u64,
    pub derived_addresses: Map<Seq<char>, u32>,
}

/// The consensus engine of a node.
pub struct ConsensusEngine {
    /// Goes into what transactions are signed over.
    pub chain_id: u32,
    /// The node's address and consensus key; set once.
    pub identity: Option<NodeIdentity>,
    /// The key that spends the wallet's outputs; set once.
    pub wallet_signing_key: Option<[u8; 32]>,
    pub timevote: TimeVoteConsensus,
    /// When each block came in and when it became final, in clock readings.
    pub finality_times: Table<Hash256, (u64, Option<u64>)>,
    /// How long the latest transactions took from voting to finality.
    pub avg_finality_ms: Vec<u64>,
    /// The latest block hash, which goes into leader election.
    pub prev_block_hash: Hash256,
    /// Open requests by the address that is asked to pay.
    pub payment_requests: Table<String, Vec<PaymentRequest>>,
    pub fee_schedule: FeeSchedule,
    /// The derivation index of each of the wallet's derived addresses.
    pub derived_address_map: Table<String, u32>,
}

impl View for ConsensusEngine {
    type V = EngineV;

    open spec fn view(&self) -> EngineV {
        EngineV {
            chain_id: self.chain_id,
            identity: match self.identity {
                Some(identity) => Some(identity@),
                None => None,
            },
            wallet_signing_key: match self.wallet_signing_key {
                Some(key) => Some(key@),
                None => None,
            },
            timevote: self.timevote@,
            finality_times: self.finality_times@,
            avg_finality_ms: self.avg_finality_ms@,
            prev_block_hash: self.prev_block_hash@,
            payment_requests: lists(self.payment_requests@),
            fee_tiers: self.fee_schedule.tiers@,
            min_fee: self.fee_schedule.min_fee,
            derived_addresses: self.derived_address_map@,
        }
    }
}

/// The slot at a time: zero before the first slot begins.
pub open spec fn slot_at(now: i64) -> int {
    if now <= GENESIS_TIME {
        0
    } else {
        (now - GENESIS_TIME) / SLOT_SECONDS as int
    }
}

/// Finality times with one more: the oldest goes where there are too many.
pub open spec fn with_sample(samples: Seq<u64>, took_ms: u64) -> Seq<u64> {
    let longer = samples.push(took_ms);
    if longer.len() > FINALITY_SAMPLES {
        longer.drop_first()
    } else {
        longer
    }
}

/// The whole milliseconds between two clock readings in nanoseconds.
pub open spec fn millis_between(from: u64, to: u64) -> u64 {
    if to > from {
        ((to - from) / 1_000_000) as u64
    } else {
        0
    }
}

/// The sum of some numbers.
pub open spec fn sum_of(s: Seq<u64>) -> nat
    decreases s.len(),
{
    if s.len() == 0 {
        0
    } else {
        sum_of(s.drop_last()) + s.last() as nat
    }
}

impl EngineV {
    /// An engine in which nothing has happened.
    pub open spec fn fresh(registry: MasternodeRegistryV, chain_id: u32) -> EngineV {
        EngineV {
            chain_id,
            identity: None,
            wallet_signing_key: None,
            timevote: ConsensusV::fresh(
                TimeVoteConfig {
                    sample_size: 20,
                    quorum_size: 14,
                    finality_confidence: 20,
                    q_finality_percent: 67,
                    query_timeout_ms: 2000,
                    max_rounds: 100,
                },
                registry,
            ),
            finality_times: Map::empty(),
            avg_finality_ms: Seq::empty(),
            prev_block_hash: Seq::new(32, |i: int| 0u8),
            payment_requests: Map::empty(),
            fee_tiers: default_tiers(),
            min_fee: MIN_TX_FEE,
            derived_addresses: Map::empty(),
        }
    }

    /// The average of the latest finality times, 750 before there is one.
    pub open spec fn average_finality(self) -> int {
        if self.avg_finality_ms.len() == 0 {
            750
        } else {
            sum_of(self.avg_finality_ms) as int / self.avg_finality_ms.len() as int
        }
    }
}

proof fn lemma_sum_bound(s: Seq<u64>)
    ensures
        sum_of(s) <= s.len() * u64::MAX,
    decreases s.len(),
{
    if s.len() > 0 {
        lemma_sum_bound(s.drop_last());
        assert((s.len() - 1) * u64::MAX + u64::MAX == s.len() * u64::MAX) by (nonlinear_arith);
    }
}

impl ConsensusEngine {
    /// The tables are sound, and at most twenty finality times are kept.
    pub open spec fn wf(&self) -> bool {
        &&& self.timevote.wf()
        &&& self.finality_times.wf()
        &&& self.payment_requests.wf()
        &&& self.derived_address_map.wf()
        &&& self.avg_finality_ms@.len() <= FINALITY_SAMPLES
    }

    /// An engine in which nothing has happened.
    pub fn new(masternode_registry: MasternodeRegistry, chain_id: u32) -> (made: Self)
        ensures
            made.wf(),
            made@ == EngineV::fresh(masternode_registry@, chain_id),
    {
        let config = TimeVoteConfig::default();
        let timevote = match TimeVoteConsensus::new(config, masternode_registry) {
            Ok(timevote) => timevote,
            Err(_) => {
                assert(false);
                vstd::pervasive::unreached()
            },
        };
        let zero: Hash256 = [0u8;32];
        let made = ConsensusEngine {
            chain_id,
            identity: None,
            wallet_signing_key: None,
            timevote,
            finality_times: Table::new(),
            avg_finality_ms: Vec::new(),
            prev_block_hash: zero,
            payment_requests: Table::new(),
            fee_schedule: FeeSchedule::default(),
            derived_address_map: Table::new(),
        };
        assert(made@ =~= EngineV::fresh(masternode_registry@, chain_id));
        made
    }

    /// The fee schedule that is in force.
    pub fn current_fee_schedule(&self) -> (schedule: FeeSchedule)
        ensures
            schedule.tiers@ == self@.fee_tiers,
            schedule.min_fee == self@.min_fee,
    {
        self.fee_schedule.clone()
    }

    /// Puts another fee schedule in force.
    pub fn apply_fee_schedule(&mut self, new_schedule: FeeSchedule) -> (applied: Result<(), String>)
        requires
            old(self).wf(),
        ensures
            final(self).wf(),
            applied is Ok,
            final(self)@ == (EngineV {
                fee_tiers: new_schedule.tiers@,
                min_fee: new_schedule.min_fee,
                ..old(self)@
            }),
    {
        self.fee_schedule = new_schedule;
        Ok(())
    }

    /// Takes note of the latest block hash.
    pub fn update_prev_block_hash(&mut self, hash: Hash256)
        requires
            old(self).wf(),
        ensures
            final(self).wf(),
            final(self)@ == (EngineV { prev_block_hash: hash@, ..old(self)@ }),
    {
        self.prev_block_hash = hash;
    }

    /// The latest block hash.
    pub fn get_prev_block_hash(&self) -> (hash: Hash256)
        ensures
            hash@ == self@.prev_block_hash,
    {
        self.prev_block_hash
    }

    /// Takes note of a block that came in, at a clock reading.
    pub fn record_block_received_at(&mut self, block_hash: [u8; 32], now_nanos: u64)
        requires
            old(self).wf(),
        ensures
            final(self).wf(),
            final(self)@ == (EngineV {
                finality_times: old(self)@.finality_times.insert(block_hash@, (now_nanos, None)),
                ..old(self)@
            }),
    {
        self.finality_times.insert(block_hash, (now_nanos, None));
    }

    /// Takes note of a block that came in now.
    pub fn record_block_received(&mut self, block_hash: [u8; 32])
        requires
            old(self).wf(),
        ensures
            final(self).wf(),
            exists|now: u64|
                final(self)@ == (EngineV {
                    finality_times: #[trigger] old(self)@.finality_times.insert(
                        block_hash@,
                        (now, None),
                    ),
                    ..old(self)@
                }),
    {
        let now: u64 = self.timevote.clock.nanos();
        self.record_block_received_at(block_hash, now);
    }

    /// Keeps one more finality time, and drops the oldest where there are too many.
    pub fn add_finality_time(&mut self, took_ms: u64)
        requires
            old(self).wf(),
        ensures
            final(self).wf(),
            final(self)@ == (EngineV {
                avg_finality_ms: with_sample(old(self)@.avg_finality_ms, took_ms),
                ..old(self)@
            }),
    {
        let ghost held = self.avg_finality_ms@;
        self.avg_finality_ms.push(took_ms);
        if self.avg_finality_ms.len() > FINALITY_SAMPLES {
            let _ = self.avg_finality_ms.remove(0);
            assert(self.avg_finality_ms@ =~= held.push(took_ms).drop_first());
        }
    }

    /// Takes note that a block became final, at a clock reading, and counts how
    /// long that took, in whole milliseconds, toward the average. Only blocks that
    /// were seen coming in are known.
    pub fn record_block_finalized_at(&mut self, block_hash: [u8; 32], now_nanos: u64)
        requires
            old(self).wf(),
        ensures
            final(self).wf(),
            final(self)@ == old(self)@.with_block_final(block_hash@, now_nanos),
    {
        let ghost before = self@;
        match self.finality_times.get(&block_hash) {
            Some(times) => {
                let received_at: u64 = times.0;
                self.finality_times.insert(block_hash, (received_at, Some(now_nanos)));
                self.add_finality_time(now_nanos.saturating_sub(received_at) / 1_000_000);
            },
            None => {},
        }
        assert(self@ =~= before.with_block_final(block_hash@, now_nanos));
    }

    /// Takes note that a block became final now.
    pub fn record_block_finalized(&mut self, block_hash: [u8; 32])
        requires
            old(self).wf(),
        ensures
            final(self).wf(),
            exists|now: u64|
                final(self)@ == #[trigger] old(self)@.with_block_final(block_hash@, now),
    {
        let now: u64 = self.timevote.clock.nanos();
        self.record_block_finalized_at(block_hash, now);
    }

    /// The slot at a time in seconds since the Unix epoch.
    pub fn get_current_slot_index_at(&self, now: i64) -> (slot: u64)
        ensures
            slot == slot_at(now),
    {
        if now <= GENESIS_TIME {
            0
        } else {
            let since: u64 = (now - GENESIS_TIME) as u64;
            since / 600
        }
    }

    /// The slot now.
    pub fn get_current_slot_index(&self) -> (slot: u64)
        ensures
            exists|now: i64| slot == #[trigger] slot_at(now),
    {
        let now: i64 = utc_seconds();
        self.get_current_slot_index_at(now)
    }

    /// The average of the latest finality times, in milliseconds.
    pub fn get_avg_finality_time_ms(&self) -> (average: u64)
        requires
            self.wf(),
        ensures
            average == self@.average_finality(),
    {
        let n: usize = self.avg_finality_ms.len();
        if n == 0 {
            return 750;
        }
        let ghost all = self.avg_finality_ms@;
        let mut sum: u128 = 0;
        let mut i: usize = 0;
        while i < n
            invariant
                i <= n,
                n == all.len(),
                n <= FINALITY_SAMPLES,
                all == self.avg_finality_ms@,
                sum == sum_of(all.take(i as int)),
                sum <= i * u64::MAX,
            decreases n - i,
        {
            assert(all.take(i + 1).drop_last() =~= all.take(i as int));
            assert(i * u64::MAX + u64::MAX == (i + 1) * u64::MAX) by (nonlinear_arith);
            assert((i + 1) * u64::MAX <= 20 * u64::MAX) by (nonlinear_arith)
                requires
                    i + 1 <= 20,
            ;
            sum = sum + self.avg_finality_ms[i] as u128;
            i = i + 1;
        }
        proof {
            assert(all.take(i as int) =~= all);
            let (s, m) = (sum as int, n as int);
            assert(s / m <= u64::MAX) by (nonlinear_arith)
                requires
                    s <= m * u64::MAX,
                    m >= 1,
                    s >= 0,
            ;
        }
        (sum / (n as u128)) as u64
    }

    /// The active masternodes.
    pub fn get_masternodes(&self) -> (nodes: Vec<Masternode>)
        ensures
            nodes@.len() == self@.timevote.registry.active().len(),
            forall|i: int|
                0 <= i < nodes@.len() ==> (#[trigger] nodes@[i])@
                    == self@.timevote.registry.active()[i].masternode,
    {
        let active = self.timevote.masternode_registry.list_active();
        let mut nodes: Vec<Masternode> = Vec::new();
        let mut i: usize = 0;
        while i < active.len()
            invariant
                i <= active@.len(),
                nodes@.len() == i,
                forall|j: int|
                    0 <= j < i ==> (#[trigger] nodes@[j])@ == views(active@)[j].masternode,
            decreases active@.len() - i,
        {
            nodes.push(active[i].masternode.clone());
            i = i + 1;
        }
        nodes
    }

    /// The active masternodes.
    pub fn get_active_masternodes(&self) -> (nodes: Vec<Masternode>)
        ensures
            nodes@.len() == self@.timevote.registry.active().len(),
            forall|i: int|
                0 <= i < nodes@.len() ==> (#[trigger] nodes@[i])@
                    == self@.timevote.registry.active()[i].masternode,
    {
        self.get_masternodes()
    }

    /// The active masternodes with the addresses that their rewards go to.
    pub fn get_masternodes_with_rewards(&self) -> (nodes: Vec<(Masternode, String)>)
        ensures
            nodes@.len() == self@.timevote.registry.active().len(),
            forall|i: int|
                0 <= i < nodes@.len() ==> (#[trigger] nodes@[i]).0@
                    == self@.timevote.registry.active()[i].masternode && nodes@[i].1@
                    == self@.timevote.registry.active()[i].reward_address,
    {
        let active = self.timevote.masternode_registry.list_active();
        let mut nodes: Vec<(Masternode, String)> = Vec::new();
        let mut i: usize = 0;
        while i < active.len()
            invariant
                i <= active@.len(),
                nodes@.len() == i,
                forall|j: int|
                    0 <= j < i ==> (#[trigger] nodes@[j]).0@ == views(active@)[j].masternode
                        && nodes@[j].1@ == views(active@)[j].reward_address,
            decreases active@.len() - i,
        {
            nodes.push((active[i].masternode.clone(), active[i].reward_address.clone()));
            i = i + 1;
        }
        nodes
    }

    /// Whether an address is that of an active masternode.
    pub fn is_masternode(&self, address: &str) -> (found: bool)
        ensures
            found == (crate::timevote::node_at(self@.timevote.registry.active(), address@) is Some),
    {
        let active = self.timevote.masternode_registry.list_active();
        crate::timevote::find_node(&active, address).is_some()
    }

    /// How much the voting state holds.
    pub fn memory_stats(&self) -> (stats: crate::timevote::ConsensusMemoryStats)
        requires
            self.wf(),
        ensures
            stats.tx_state_entries == self@.timevote.tx_state.dom().len(),
            stats.finalized_txs == self@.timevote.finalized_txs.dom().len(),
            stats.avs_snapshots == self@.timevote.avs_snapshots.dom().len(),
            stats.vfp_votes == self@.timevote.timeproof_votes.dom().len(),
    {
        self.timevote.memory_stats()
    }

    /// Forgets transactions that became final longer ago than a number of
    /// seconds. Says how many.
    pub fn cleanup_old_finalized(&mut self, retention_secs: u64) -> (removed: usize)
        requires
            old(self).wf(),
        ensures
            final(self).wf(),
            exists|now: u64|
                final(self)@ == (EngineV {
                    timevote: #[trigger] old(self)@.timevote.without_old(retention_secs, now),
                    ..old(self)@
                }) && removed == old(self)@.timevote.finalized_before(retention_secs, now).len(),
    {
        let ghost before = self@;
        let removed: usize = self.timevote.cleanup_old_finalized(retention_secs);
        proof {
            let now = choose|now: u64|
                self.timevote@ == #[trigger] before.timevote.without_old(retention_secs, now)
                    && removed == before.timevote.finalized_before(retention_secs, now).len();
            assert(self@ =~= EngineV {
                timevote: before.timevote.without_old(retention_secs, now),
                ..before
            });
        }
        removed
    }
}

impl EngineV {
    /// After a block became final.
    pub open spec fn with_block_final(self, block: Seq<u8>, now_nanos: u64) -> EngineV {
        if self.finality_times.contains_key(block) {
            EngineV {
                finality_times: self.finality_times.insert(
                    block,
                    (self.finality_times[block].0, Some(now_nanos)),
                ),
                avg_finality_ms: with_sample(
                    self.avg_finality_ms,
                    millis_between(self.finality_times[block].0, now_nanos),
                ),
                ..self
            }
        } else {
            self
        }
    }
}

/// Slots last ten minutes each, from the beginning of 2025 on; before that it is slot
/// zero.
pub proof fn slots_last_ten_minutes(now: i64)
    ensures
        now >= 1_735_689_600 ==> 600 * slot_at(now) <= now - 1_735_689_600 < 600 * (slot_at(now)
            + 1),
        now < 1_735_689_600 ==> slot_at(now) == 0,
{
}

/// The average is that of the kept times, rounded down; before there is any it is 750.
/// Each time adds its length to the sum.
pub proof fn average_is_that_of_the_kept_times(held: EngineV, times: Seq<u64>, time: u64)
    ensures
        sum_of(seq![]) == 0,
        sum_of(times.push(time)) == sum_of(times) + time,
        held.avg_finality_ms.len() == 0 ==> held.average_finality() == 750,
        held.avg_finality_ms.len() > 0 ==> {
            let n = held.avg_finality_ms.len();
            let average = held.average_finality();
            n * average <= sum_of(held.avg_finality_ms) < n * (average + 1)
        },
{
    assert(times.push(time).drop_last() =~= times);
    if held.avg_finality_ms.len() > 0 {
        let (s, n) = (sum_of(held.avg_finality_ms) as int, held.avg_finality_ms.len() as int);
        let q = s / n;
        assert(n * q <= s < n * (q + 1)) by (nonlinear_arith)
            requires
                q == s / n,
                n > 0,
                s >= 0,
        ;
    }
}

/// A block that was seen coming in is final from then on, and how long it took counts
/// toward the average; a block that was never seen changes nothing.
pub proof fn known_blocks_are_timed(held: EngineV, block: Seq<u8>, now_nanos: u64)
    requires
        held.avg_finality_ms.len() <= 20,
    ensures
        ({
            let after = held.with_block_final(block, now_nanos);
            &&& !held.finality_times.contains_key(block) ==> after == held
            &&& held.finality_times.contains_key(block) ==> {
                let came = held.finality_times[block].0;
                &&& after.finality_times[block] == (came, Some(now_nanos))
                &&& 1 <= after.avg_finality_ms.len() <= 20
                &&& came <= now_nanos ==> 1_000_000 * after.avg_finality_ms.last() <= now_nanos
                    - came < 1_000_000 * (after.avg_finality_ms.last() + 1)
            }
        }),
{
}

} // verus!
