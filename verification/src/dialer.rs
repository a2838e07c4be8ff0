//! Which peers a node dials: at its start and from time to time after.
//!
//! A pass over candidates works with what is known of them when it begins; `live`
//! lists the peers with a writer.

use crate::chance::shuffle;
use crate::connections::{ConnectionManager, ManagerV, PeerConnectionState, PASSIVE_WAIT_TIMEOUT};
use crate::messages::{MessageV, NetworkMessage};
use crate::names::holds_name;
use crate::peer::before_colon;
use crate::sums::views;
use crate::text::same_text;
use crate::types::{option_view, MasternodeInfo, MasternodeInfoV, MasternodeTier, NetworkType};
use vstd::prelude::*;

verus! {

/// How many silver nodes a gold node dials besides all gold ones.
pub const GOLD_SILVER_EXTRAS: usize = 3;

/// How many silver nodes a silver node dials besides all gold ones.
pub const SILVER_LATERAL: usize = 4;

/// How many silver nodes a bronze node dials.
pub const BRONZE_UPWARD: usize = 5;

/// How many bronze nodes a bronze node dials besides.
pub const BRONZE_LATERAL: usize = 3;

/// How many bronze nodes any other node dials.
pub const FREE_UPWARD: usize = 5;

/// Up to how many masternodes everyone dials everyone.
pub const FULL_MESH_THRESHOLD: usize = 50;

/// How many free nodes of one subnet are dialed or connected at most.
pub const MAX_FREE_TIER_RECONNECT_PER_SUBNET: usize = 3;

/// Up to how many failures in a row a peer may be dialed without delay.
pub const FAST_RETRY_FAILURE_LIMIT: u32 = 5;

/// After how many failures in a row a peer is forgotten.
pub const FORGET_THRESHOLD: u32 = 5;

/// How long to wait for the first synchronisation, in seconds.
pub const PHASE0_SYNC_TIMEOUT_SECS: u64 = 600;

/// How short a session counts as a failure, in nanoseconds.
pub const SHORT_SESSION: u64 = 10_000_000_000;

/// How long a dial may take before it is given up, in nanoseconds.
pub const STALE_DIAL: u64 = 30_000_000_000;

/// The side of a node that dials.
#[derive(Debug)]
pub struct NetworkClient {
    pub p2p_port: u16,
    pub max_peers: usize,
    pub reserved_masternode_slots: usize,
    pub local_ip: Option<String>,
    pub banned_peers: Vec<String>,
    pub network_type: NetworkType,
    pub discovered_peer_ips: Vec<String>,
}

/// What a client holds.
#[verifier::ext_equal]
pub struct ClientV {
    pub p2p_port: u16,
    pub max_peers: usize,
    pub reserved_masternode_slots: usize,
    pub local_ip: Option<Seq<char>>,
    pub banned_peers: Seq<Seq<char>>,
    pub network_type: NetworkType,
    pub discovered_peer_ips: Seq<Seq<char>>,
}

impl View for NetworkClient {
    type V = ClientV;

    open spec fn view(&self) -> ClientV {
        ClientV {
            p2p_port: self.p2p_port,
            max_peers: self.max_peers,
            reserved_masternode_slots: self.reserved_masternode_slots,
            local_ip: option_view(self.local_ip),
            banned_peers: views(self.banned_peers@),
            network_type: self.network_type,
            discovered_peer_ips: views(self.discovered_peer_ips@),
        }
    }
}

/// A masternode that may be dialed.
#[derive(Debug)]
pub struct MasternodeCandidate {
    pub address: String,
    pub tier: MasternodeTier,
    /// Whether it is registered on the chain.
    pub on_chain: bool,
    /// Whether it is known to be on another network.
    pub incompatible: bool,
    pub whitelisted: bool,
    pub banned: bool,
    /// How often dialing it failed in a row.
    pub failures: u32,
    /// Whether dialing it now is advised.
    pub advised: bool,
}

/// What is known of a masternode that may be dialed.
pub struct MasternodeCandidateV {
    pub address: Seq<char>,
    pub tier: MasternodeTier,
    pub on_chain: bool,
    pub incompatible: bool,
    pub whitelisted: bool,
    pub banned: bool,
    pub failures: u32,
    pub advised: bool,
}

impl View for MasternodeCandidate {
    type V = MasternodeCandidateV;

    open spec fn view(&self) -> MasternodeCandidateV {
        MasternodeCandidateV {
            address: self.address@,
            tier: self.tier,
            on_chain: self.on_chain,
            incompatible: self.incompatible,
            whitelisted: self.whitelisted,
            banned: self.banned,
            failures: self.failures,
            advised: self.advised,
        }
    }
}

/// Another peer that may be dialed.
#[derive(Debug)]
pub struct PeerCandidate {
    pub ip: String,
    /// How many connections it is known to have.
    pub load: u16,
    pub is_masternode: bool,
    pub failures: u32,
    pub advised: bool,
    pub banned: bool,
}

/// What is known of another peer that may be dialed.
pub struct PeerCandidateV {
    pub ip: Seq<char>,
    pub load: u16,
    pub is_masternode: bool,
    pub failures: u32,
    pub advised: bool,
    pub banned: bool,
}

impl View for PeerCandidate {
    type V = PeerCandidateV;

    open spec fn view(&self) -> PeerCandidateV {
        PeerCandidateV {
            ip: self.ip@,
            load: self.load,
            is_masternode: self.is_masternode,
            failures: self.failures,
            advised: self.advised,
            banned: self.banned,
        }
    }
}

/// What to do about a peer.
#[derive(Debug)]
pub enum PeerStep {
    Dial(String),
    Forget(String),
}

/// What is to be done about a peer.
pub enum PeerStepV {
    Dial(Seq<char>),
    Forget(Seq<char>),
}

impl View for PeerStep {
    type V = PeerStepV;

    open spec fn view(&self) -> PeerStepV {
        match self {
            PeerStep::Dial(ip) => PeerStepV::Dial(ip@),
            PeerStep::Forget(ip) => PeerStepV::Forget(ip@),
        }
    }
}

/// How many of the connections are kept for masternodes.
pub open spec fn reserved_slots(max_peers: usize) -> int {
    let share = max_peers * 40 / 100;
    if share < 20 {
        20
    } else if share > 100 {
        100
    } else {
        share
    }
}

/// How many slots are free.
pub open spec fn free_slots(max_peers: int, used: int) -> int {
    if max_peers > used {
        max_peers - used
    } else {
        0
    }
}

/// Whether to go on waiting for the first synchronisation.
pub open spec fn waits_for_sync(has_genesis: bool, is_syncing: bool, waited_secs: u64) -> bool {
    !((has_genesis && !is_syncing) || waited_secs >= PHASE0_SYNC_TIMEOUT_SECS)
}

/// The first elements of a list, at most so many.
pub open spec fn first<T>(list: Seq<T>, n: int) -> Seq<T> {
    if n < list.len() {
        list.take(n)
    } else {
        list
    }
}

/// The peers that a node dials first, by its own tier. In a small network that is
/// everyone; otherwise the tiers form a pyramid in which nodes reach upwards and
/// sideways.
pub open spec fn targets(
    our_tier: Option<MasternodeTier>,
    gold: Seq<Seq<char>>,
    silver: Seq<Seq<char>>,
    bronze: Seq<Seq<char>>,
    free: Seq<Seq<char>>,
) -> Seq<Seq<char>> {
    if gold.len() + silver.len() + bronze.len() + free.len() <= FULL_MESH_THRESHOLD {
        gold + silver + bronze + free
    } else {
        match our_tier {
            Some(MasternodeTier::Gold) => gold + first(silver, GOLD_SILVER_EXTRAS as int),
            Some(MasternodeTier::Silver) => gold + first(
                silver,
                if gold.len() == 0 {
                    silver.len() as int
                } else {
                    SILVER_LATERAL as int
                },
            ),
            Some(MasternodeTier::Bronze) => {
                let upward = if silver.len() > 0 {
                    first(silver, BRONZE_UPWARD as int)
                } else {
                    gold
                };
                upward + first(
                    bronze,
                    if upward.len() == 0 {
                        bronze.len() as int
                    } else {
                        BRONZE_LATERAL as int
                    },
                )
            },
            _ => {
                let upward = first(bronze, FREE_UPWARD as int) + first(silver, 1);
                if upward.len() > 0 {
                    upward
                } else if gold.len() > 0 {
                    gold
                } else {
                    free
                }
            },
        }
    }
}

/// The addresses of the masternodes of a tier, in order.
pub open spec fn of_tier(nodes: Seq<MasternodeInfoV>, tier: MasternodeTier) -> Seq<Seq<char>>
    decreases nodes.len(),
{
    if nodes.len() == 0 {
        seq![]
    } else if nodes.last().masternode.tier == tier {
        of_tier(nodes.drop_last(), tier).push(nodes.last().masternode.address)
    } else {
        of_tier(nodes.drop_last(), tier)
    }
}

/// The host of an address: what stands before its last colon, if it has one.
pub open spec fn host_of(text: Seq<char>) -> Seq<char> {
    if exists|i: int| last_colon(text, i) {
        text.take(choose|i: int| last_colon(text, i))
    } else {
        text
    }
}

/// Whether the last colon of a text stands at a place.
pub open spec fn last_colon(text: Seq<char>, i: int) -> bool {
    &&& 0 <= i < text.len()
    &&& text[i] == ':'
    &&& forall|j: int| i < j < text.len() ==> text[j] != ':'
}

/// The hosts of addresses, each once, where it first occurs.
pub open spec fn hosts(addresses: Seq<Seq<char>>) -> Seq<Seq<char>>
    decreases addresses.len(),
{
    if addresses.len() == 0 {
        seq![]
    } else {
        let front = hosts(addresses.drop_last());
        let host = host_of(addresses.last());
        if front.contains(host) {
            front
        } else {
            front.push(host)
        }
    }
}

/// What stands before a dot of a text, counted from one.
pub open spec fn before_dot(text: Seq<char>, n: nat) -> Seq<char>
    decreases text.len(),
{
    if text.len() == 0 {
        seq![]
    } else if text[0] == '.' && n <= 1 {
        seq![]
    } else {
        seq![text[0]] + before_dot(
            text.skip(1),
            if text[0] == '.' {
                (n - 1) as nat
            } else {
                n
            },
        )
    }
}

/// The subnet of an address: the first three numbers of its host.
pub open spec fn subnet_of(address: Seq<char>) -> Seq<char> {
    before_dot(before_colon(address), 3)
}

/// How many of a list are equal to a text.
pub open spec fn occurrences(list: Seq<Seq<char>>, text: Seq<char>) -> nat
    decreases list.len(),
{
    if list.len() == 0 {
        0
    } else {
        occurrences(list.drop_last(), text) + (if list.last() == text {
            1nat
        } else {
            0
        })
    }
}

/// How long a whitelisted peer rests after failures in a row, in nanoseconds.
pub open spec fn short_rest(failures: u32) -> u64 {
    if failures <= 1 {
        5_000_000_000
    } else {
        10_000_000_000
    }
}

/// Whether a peer is ready to be dialed: the node is the one to dial, or has waited
/// long enough for the peer to do it.
pub open spec fn ready(manager: ManagerV, ip: Seq<char>, now: u64) -> (ManagerV, bool) {
    if manager.ranks_above(ip) {
        (manager, true)
    } else {
        manager.waited(ip, PASSIVE_WAIT_TIMEOUT, now)
    }
}

impl ClientV {
    /// Whether a peer is not dialed whatever else holds: it is the node itself or
    /// banned, there is a writer for it, or a dial is in flight.
    pub open spec fn skips(self, ip: Seq<char>, live: Seq<Seq<char>>, manager: ManagerV) -> bool {
        ||| self.local_ip == Some(ip)
        ||| self.banned_peers.contains(ip)
        ||| live.contains(ip)
        ||| manager.in_state(ip, PeerConnectionState::Connecting)
    }

    /// After dialing trusted peers, and those that were dialed.
    pub open spec fn trusted_pass(
        self,
        ips: Seq<Seq<char>>,
        banned: Seq<Seq<char>>,
        live: Seq<Seq<char>>,
        manager: ManagerV,
        now: u64,
    ) -> (ManagerV, Seq<Seq<char>>)
        decreases ips.len(),
    {
        if ips.len() == 0 {
            (manager, seq![])
        } else {
            let (m, dials) = self.trusted_pass(ips.drop_last(), banned, live, manager, now);
            let ip = ips.last();
            if self.skips(ip, live, m) || banned.contains(ip) {
                (m, dials)
            } else {
                let (after, begun) = m.dialed(ip, now);
                (
                    after,
                    if begun {
                        dials.push(ip)
                    } else {
                        dials
                    },
                )
            }
        }
    }

    /// After dialing the masternodes of the start, those that were dialed, and how
    /// many of them are or will be connected.
    pub open spec fn masternode_pass(
        self,
        ips: Seq<Seq<char>>,
        live: Seq<Seq<char>>,
        manager: ManagerV,
        now: u64,
    ) -> (ManagerV, Seq<Seq<char>>, nat)
        decreases ips.len(),
    {
        if ips.len() == 0 {
            (manager, seq![], 0)
        } else {
            let (m, dials, n) = self.masternode_pass(ips.drop_last(), live, manager, now);
            let ip = ips.last();
            if self.skips(ip, live, m) {
                (
                    m,
                    dials,
                    if m.in_state(ip, PeerConnectionState::Connected) {
                        n + 1
                    } else {
                        n
                    },
                )
            } else {
                let (waited, go) = ready(m, ip, now);
                let (after, begun) = waited.dialed(ip, now);
                if !go {
                    (waited, dials, n)
                } else if begun {
                    (after, dials.push(ip), n + 1)
                } else {
                    (after, dials, n)
                }
            }
        }
    }

    /// After filling up with other peers, and those that were dialed.
    pub open spec fn filling_pass(
        self,
        ips: Seq<Seq<char>>,
        banned: Seq<Seq<char>>,
        live: Seq<Seq<char>>,
        manager: ManagerV,
        now: u64,
    ) -> (ManagerV, Seq<Seq<char>>)
        decreases ips.len(),
    {
        if ips.len() == 0 {
            (manager, seq![])
        } else {
            let (m, dials) = self.filling_pass(ips.drop_last(), banned, live, manager, now);
            let ip = ips.last();
            if self.skips(ip, live, m) || banned.contains(ip) {
                (m, dials)
            } else {
                let (waited, go) = ready(m, ip, now);
                let (after, begun) = waited.dialed(ip, now);
                if !go {
                    (waited, dials)
                } else if begun {
                    (after, dials.push(ip))
                } else {
                    (after, dials)
                }
            }
        }
    }

    /// Whether a masternode rests before it is dialed again. The delays for failures
    /// are passed over at the start and when a paid node has just been lost, but
    /// not for a peer that fails again and again; a whitelisted peer has short ones
    /// until then.
    pub open spec fn rests(
        candidate: MasternodeCandidateV,
        startup: bool,
        priority: bool,
        gone_for: Option<u64>,
    ) -> bool {
        if candidate.whitelisted {
            if candidate.failures == 0 {
                false
            } else if candidate.failures <= FAST_RETRY_FAILURE_LIMIT {
                gone_for matches Some(nanos) && nanos < short_rest(candidate.failures)
            } else {
                !candidate.advised
            }
        } else {
            let bypass = (startup || (priority && candidate.tier != MasternodeTier::Free))
                && candidate.failures <= FAST_RETRY_FAILURE_LIMIT;
            !bypass && !candidate.advised
        }
    }

    /// Whether a masternode is held to the limit on its subnet.
    pub open spec fn capped(candidate: MasternodeCandidateV) -> bool {
        &&& candidate.tier == MasternodeTier::Free
        &&& !candidate.on_chain
        &&& !candidate.whitelisted
    }

    /// After one masternode was looked at: the connections, those that were dialed
    /// and the subnets that count towards the limits.
    pub open spec fn mesh_step(
        self,
        candidate: MasternodeCandidateV,
        startup: bool,
        priority: bool,
        live: Seq<Seq<char>>,
        held: (ManagerV, Seq<Seq<char>>, Seq<Seq<char>>),
        now: u64,
    ) -> (ManagerV, Seq<Seq<char>>, Seq<Seq<char>>) {
        let (m, dials, subnets) = held;
        let ip = candidate.address;
        let forced = priority && candidate.tier != MasternodeTier::Free;
        if self.skips(ip, live, m) || candidate.incompatible {
            held
        } else {
            let (waited, go) = if forced {
                (m, true)
            } else {
                ready(m, ip, now)
            };
            if !go || ClientV::rests(candidate, startup, priority, waited.gone_for(ip, now))
                || candidate.banned || (ClientV::capped(candidate) && occurrences(
                subnets,
                subnet_of(ip),
            ) >= MAX_FREE_TIER_RECONNECT_PER_SUBNET) {
                (waited, dials, subnets)
            } else {
                let (after, begun) = waited.dialed(ip, now);
                if !begun {
                    (after, dials, subnets)
                } else if candidate.tier == MasternodeTier::Free {
                    (after, dials.push(ip), subnets.push(subnet_of(ip)))
                } else {
                    (after, dials.push(ip), subnets)
                }
            }
        }
    }

    /// After a pass over the masternodes.
    pub open spec fn mesh_pass(
        self,
        candidates: Seq<MasternodeCandidateV>,
        startup: bool,
        priority: bool,
        live: Seq<Seq<char>>,
        begun: (ManagerV, Seq<Seq<char>>, Seq<Seq<char>>),
        now: u64,
    ) -> (ManagerV, Seq<Seq<char>>, Seq<Seq<char>>)
        decreases candidates.len(),
    {
        if candidates.len() == 0 {
            begun
        } else {
            self.mesh_step(
                candidates.last(),
                startup,
                priority,
                live,
                self.mesh_pass(candidates.drop_last(), startup, priority, live, begun, now),
                now,
            )
        }
    }

    /// After one other peer was looked at: the connections, and what to do.
    pub open spec fn peer_step(
        self,
        candidate: PeerCandidateV,
        live: Seq<Seq<char>>,
        held: (ManagerV, Seq<PeerStepV>),
        now: u64,
    ) -> (ManagerV, Seq<PeerStepV>) {
        let (m, steps) = held;
        let ip = candidate.ip;
        if self.skips(ip, live, m) || candidate.is_masternode || m.in_state(
            ip,
            PeerConnectionState::Reconnecting,
        ) {
            held
        } else {
            let (waited, go) = ready(m, ip, now);
            let (after, begun) = waited.dialed(ip, now);
            if !go {
                (waited, steps)
            } else if candidate.failures >= FORGET_THRESHOLD {
                (waited, steps.push(PeerStepV::Forget(ip)))
            } else if !candidate.advised || candidate.banned {
                (waited, steps)
            } else if begun {
                (after, steps.push(PeerStepV::Dial(ip)))
            } else {
                (after, steps)
            }
        }
    }

    /// After a pass over other peers.
    pub open spec fn peer_pass(
        self,
        candidates: Seq<PeerCandidateV>,
        live: Seq<Seq<char>>,
        manager: ManagerV,
        now: u64,
    ) -> (ManagerV, Seq<PeerStepV>)
        decreases candidates.len(),
    {
        if candidates.len() == 0 {
            (manager, seq![])
        } else {
            self.peer_step(
                candidates.last(),
                live,
                self.peer_pass(candidates.drop_last(), live, manager, now),
                now,
            )
        }
    }
}

/// The subnets of the masternodes that are connected or being dialed, one for each.
pub open spec fn busy_subnets(
    candidates: Seq<MasternodeCandidateV>,
    live: Seq<Seq<char>>,
    manager: ManagerV,
) -> Seq<Seq<char>>
    decreases candidates.len(),
{
    if candidates.len() == 0 {
        seq![]
    } else {
        let front = busy_subnets(candidates.drop_last(), live, manager);
        let ip = candidates.last().address;
        if live.contains(ip) || manager.in_state(ip, PeerConnectionState::Connecting) {
            front.push(subnet_of(ip))
        } else {
            front
        }
    }
}

/// Whether an order of candidates is by load, those that are alike in their own
/// order.
pub open spec fn is_load_order(candidates: Seq<PeerCandidateV>, order: Seq<usize>) -> bool {
    &&& order.len() == candidates.len()
    &&& order.no_duplicates()
    &&& forall|i: int| 0 <= i < order.len() ==> (#[trigger] order[i]) < candidates.len()
    &&& forall|i: int, j: int|
        0 <= i < j < order.len() ==> candidates[#[trigger] order[i] as int].load
            <= candidates[#[trigger] order[j] as int].load && (candidates[order[i] as int].load
            == candidates[order[j] as int].load ==> order[i] < order[j])
}

/// Candidates in an order.
pub open spec fn in_order(candidates: Seq<PeerCandidateV>, order: Seq<usize>) -> Seq<PeerCandidateV> {
    Seq::new(order.len(), |i: int| candidates[order[i] as int])
}

fn append_first(list: &mut Vec<String>, more: &Vec<String>, n: usize)
    ensures
        views(final(list)@) == views(old(list)@) + first(views(more@), n as int),
{
    let ghost before = views(list@);
    let ghost all = views(more@);
    let mut i: usize = 0;
    assert(before + all.take(0) =~= before);
    while i < more.len() && i < n
        invariant
            i <= more@.len(),
            i <= n,
            all == views(more@),
            views(list@) == before + all.take(i as int),
        decreases more@.len() - i,
    {
        let ghost held = views(list@);
        let text = more[i].clone();
        list.push(text);
        proof {
            assert(views(list@) =~= held.push(text@));
            assert(all[i as int] == text@);
            assert(all.take(i + 1) =~= all.take(i as int).push(text@));
            assert(views(list@) =~= before + all.take(i + 1));
        }
        i = i + 1;
    }
    assert(all.take(i as int) =~= first(all, n as int));
}

/// The peers that a node dials first, by its own tier.
pub fn plan_targets(
    our_tier: Option<MasternodeTier>,
    gold: &Vec<String>,
    silver: &Vec<String>,
    bronze: &Vec<String>,
    free: &Vec<String>,
) -> (planned: Vec<String>)
    requires
        gold@.len() + silver@.len() + bronze@.len() + free@.len() <= usize::MAX,
    ensures
        views(planned@) == targets(
            our_tier,
            views(gold@),
            views(silver@),
            views(bronze@),
            views(free@),
        ),
{
    let total: usize = gold.len() + silver.len() + bronze.len() + free.len();
    let mut planned: Vec<String> = Vec::new();
    proof {
        assert(views(planned@) =~= Seq::<Seq<char>>::empty());
        assert(Seq::<Seq<char>>::empty() + views(gold@) =~= views(gold@));
        assert(Seq::<Seq<char>>::empty() + first(views(silver@), BRONZE_UPWARD as int) =~= first(
            views(silver@),
            BRONZE_UPWARD as int,
        ));
        assert(Seq::<Seq<char>>::empty() + first(views(bronze@), FREE_UPWARD as int) =~= first(
            views(bronze@),
            FREE_UPWARD as int,
        ));
        assert(Seq::<Seq<char>>::empty() + views(free@) =~= views(free@));
    }
    if total <= FULL_MESH_THRESHOLD {
        append_first(&mut planned, gold, gold.len());
        append_first(&mut planned, silver, silver.len());
        append_first(&mut planned, bronze, bronze.len());
        append_first(&mut planned, free, free.len());
        return planned;
    }
    match our_tier {
        Some(MasternodeTier::Gold) => {
            append_first(&mut planned, gold, gold.len());
            append_first(&mut planned, silver, GOLD_SILVER_EXTRAS);
        },
        Some(MasternodeTier::Silver) => {
            append_first(&mut planned, gold, gold.len());
            let limit: usize = if planned.len() == 0 {
                silver.len()
            } else {
                SILVER_LATERAL
            };
            assert(views(planned@).len() == planned@.len());
            append_first(&mut planned, silver, limit);
        },
        Some(MasternodeTier::Bronze) => {
            append_first(&mut planned, silver, BRONZE_UPWARD);
            assert(views(planned@).len() == planned@.len());
            if planned.len() == 0 {
                append_first(&mut planned, gold, gold.len());
                assert(views(planned@) =~= views(gold@));
            }
            let ghost upward = views(planned@);
            assert(upward.len() == planned@.len());
            let limit: usize = if planned.len() == 0 {
                bronze.len()
            } else {
                BRONZE_LATERAL
            };
            append_first(&mut planned, bronze, limit);
        },
        _ => {
            append_first(&mut planned, bronze, FREE_UPWARD);
            append_first(&mut planned, silver, 1);
            assert(views(planned@).len() == planned@.len());
            if planned.len() == 0 {
                append_first(&mut planned, gold, gold.len());
                assert(views(planned@) =~= views(gold@));
                assert(views(planned@).len() == planned@.len());
                if planned.len() == 0 {
                    append_first(&mut planned, free, free.len());
                    assert(views(planned@) =~= views(free@));
                }
            }
        },
    }
    planned
}

fn tier_list(nodes: &Vec<MasternodeInfo>, tier: MasternodeTier) -> (list: Vec<String>)
    ensures
        views(list@) == of_tier(views(nodes@), tier),
        list@.len() <= nodes@.len(),
{
    let ghost all = views(nodes@);
    let mut list: Vec<String> = Vec::new();
    let mut i: usize = 0;
    assert(all.take(0) =~= seq![]);
    assert(views(list@) =~= seq![]);
    while i < nodes.len()
        invariant
            i <= nodes@.len(),
            all == views(nodes@),
            views(list@) == of_tier(all.take(i as int), tier),
            list@.len() <= i,
        decreases nodes@.len() - i,
    {
        proof {
            assert(all.take(i + 1).drop_last() =~= all.take(i as int));
            assert(all.take(i + 1).last() == nodes@[i as int]@);
        }
        if nodes[i].masternode.tier == tier {
            let ghost held = views(list@);
            let text = nodes[i].masternode.address.clone();
            list.push(text);
            assert(views(list@) =~= held.push(text@));
        }
        i = i + 1;
    }
    assert(all.take(i as int) =~= all);
    list
}

proof fn lemma_tiers_fit(nodes: Seq<MasternodeInfoV>)
    ensures
        of_tier(nodes, MasternodeTier::Gold).len() + of_tier(nodes, MasternodeTier::Silver).len()
            + of_tier(nodes, MasternodeTier::Bronze).len() + of_tier(
            nodes,
            MasternodeTier::Free,
        ).len() <= nodes.len(),
    decreases nodes.len(),
{
    if nodes.len() > 0 {
        lemma_tiers_fit(nodes.drop_last());
    }
}

/// Whether a list is another in some order.
pub open spec fn reordered(list: Seq<Seq<char>>, other: Seq<Seq<char>>) -> bool {
    list.to_multiset() == other.to_multiset()
}

/// The peers that a node dials first: the lower tiers in random order.
pub fn phase1_targets(nodes: &Vec<MasternodeInfo>, our_tier: Option<MasternodeTier>) -> (planned: Vec<
    String,
>)
    ensures
        exists|silver: Seq<Seq<char>>, bronze: Seq<Seq<char>>, free: Seq<Seq<char>>|
            #![trigger targets(our_tier, of_tier(views(nodes@), MasternodeTier::Gold), silver, bronze, free)]
            reordered(silver, of_tier(views(nodes@), MasternodeTier::Silver)) && reordered(
                bronze,
                of_tier(views(nodes@), MasternodeTier::Bronze),
            ) && reordered(free, of_tier(views(nodes@), MasternodeTier::Free)) && views(planned@)
                == targets(
                our_tier,
                of_tier(views(nodes@), MasternodeTier::Gold),
                silver,
                bronze,
                free,
            ),
{
    let total: usize = nodes.len();
    let gold = tier_list(nodes, MasternodeTier::Gold);
    let mut silver = tier_list(nodes, MasternodeTier::Silver);
    let mut bronze = tier_list(nodes, MasternodeTier::Bronze);
    let mut free = tier_list(nodes, MasternodeTier::Free);
    let ghost (s, b, f) = (views(silver@), views(bronze@), views(free@));
    shuffle(&mut silver);
    shuffle(&mut bronze);
    shuffle(&mut free);
    proof {
        s.to_multiset_ensures();
        b.to_multiset_ensures();
        f.to_multiset_ensures();
        views(silver@).to_multiset_ensures();
        views(bronze@).to_multiset_ensures();
        views(free@).to_multiset_ensures();
        lemma_tiers_fit(views(nodes@));
        assert(views(gold@).len() == gold@.len());
        assert(views(silver@).len() == silver@.len());
        assert(views(bronze@).len() == bronze@.len());
        assert(views(free@).len() == free@.len());
        assert(views(nodes@).len() == nodes@.len());
        assert(nodes@.len() == total);
    }
    plan_targets(our_tier, &gold, &silver, &bronze, &free)
}

fn read_host(text: &str) -> (host: String)
    ensures
        host@ == host_of(text@),
{
    let n: usize = text.unicode_len();
    let mut i: usize = n;
    while i > 0 && text.get_char(i - 1) != ':'
        invariant
            i <= n,
            n == text@.len(),
            forall|j: int| i <= j < n ==> text@[j] != ':',
        decreases i,
    {
        i = i - 1;
    }
    if i == 0 {
        proof {
            assert forall|k: int| !last_colon(text@, k) by {}
        }
        String::from_str(text)
    } else {
        proof {
            assert(last_colon(text@, i - 1));
            let c = choose|c: int| last_colon(text@, c);
            assert(c == i - 1);
        }
        let host = String::from_str(text.substring_char(0, i - 1));
        assert(text@.subrange(0, i - 1) =~= text@.take(i - 1));
        host
    }
}

/// The hosts of addresses, each once.
pub fn dedup_peers(peers: &Vec<String>) -> (unique: Vec<String>)
    ensures
        views(unique@) == hosts(views(peers@)),
{
    let ghost all = views(peers@);
    let mut unique: Vec<String> = Vec::new();
    let mut i: usize = 0;
    assert(all.take(0) =~= seq![]);
    assert(views(unique@) =~= seq![]);
    while i < peers.len()
        invariant
            i <= peers@.len(),
            all == views(peers@),
            views(unique@) == hosts(all.take(i as int)),
        decreases peers@.len() - i,
    {
        proof {
            assert(all.take(i + 1).drop_last() =~= all.take(i as int));
            assert(all.take(i + 1).last() == peers@[i as int]@);
        }
        let host = read_host(peers[i].as_str());
        if !holds_name(&unique, host.as_str()) {
            let ghost held = views(unique@);
            unique.push(host);
            assert(views(unique@) =~= held.push(host@));
        }
        i = i + 1;
    }
    assert(all.take(i as int) =~= all);
    unique
}

proof fn lemma_before_dot(text: Seq<char>, n: nat, i: int, left: nat)
    requires
        0 <= i <= text.len(),
        before_dot(text, n) == text.take(i) + before_dot(text.skip(i), left),
        i < text.len() ==> !(text[i] == '.' && left <= 1),
    ensures
        i < text.len() ==> before_dot(text, n) == text.take(i + 1) + before_dot(
            text.skip(i + 1),
            if text[i] == '.' {
                (left - 1) as nat
            } else {
                left
            },
        ),
        i == text.len() ==> before_dot(text, n) == text.take(i),
{
    let rest = text.skip(i);
    if i < text.len() {
        assert(rest[0] == text[i]);
        assert(rest.skip(1) =~= text.skip(i + 1));
        let tail = before_dot(
            rest.skip(1),
            if text[i] == '.' {
                (left - 1) as nat
            } else {
                left
            },
        );
        assert(text.take(i) + (seq![rest[0]] + tail) =~= text.take(i + 1) + tail);
    } else {
        assert(text.take(i) + Seq::<char>::empty() =~= text.take(i));
    }
}

proof fn lemma_before_colon(text: Seq<char>, i: int)
    requires
        0 <= i <= text.len(),
        before_colon(text) == text.take(i) + before_colon(text.skip(i)),
    ensures
        i < text.len() && text[i] != ':' ==> before_colon(text) == text.take(i + 1)
            + before_colon(text.skip(i + 1)),
        i == text.len() || text[i] == ':' ==> before_colon(text) == text.take(i),
{
    let rest = text.skip(i);
    if i < text.len() && text[i] != ':' {
        assert(rest[0] == text[i]);
        assert(rest.skip(1) =~= text.skip(i + 1));
        assert(text.take(i) + (seq![rest[0]] + before_colon(text.skip(i + 1))) =~= text.take(i + 1)
            + before_colon(text.skip(i + 1)));
    } else {
        assert(before_colon(rest) =~= Seq::<char>::empty()) by {
            if i < text.len() {
                assert(rest[0] == ':');
            }
        }
        assert(text.take(i) + Seq::<char>::empty() =~= text.take(i));
    }
}

/// The subnet of an address.
pub fn read_subnet(address: &str) -> (subnet: String)
    ensures
        subnet@ == subnet_of(address@),
{
    let n: usize = address.unicode_len();
    let mut end: usize = 0;
    proof {
        assert(address@.skip(0) =~= address@);
        assert(address@.take(0) + before_colon(address@) =~= before_colon(address@));
    }
    while end < n && address.get_char(end) != ':'
        invariant
            end <= n,
            n == address@.len(),
            before_colon(address@) == address@.take(end as int) + before_colon(
                address@.skip(end as int),
            ),
        decreases n - end,
    {
        proof {
            lemma_before_colon(address@, end as int);
        }
        end = end + 1;
    }
    let ghost host = before_colon(address@);
    proof {
        lemma_before_colon(address@, end as int);
        assert(host == address@.take(end as int));
        assert(host.skip(0) =~= host);
        assert(host.take(0) + before_dot(host, 3) =~= before_dot(host, 3));
    }
    let mut left: u8 = 3;
    let mut i: usize = 0;
    while i < end && !(address.get_char(i) == '.' && left <= 1)
        invariant
            i <= end <= n,
            n == address@.len(),
            host == address@.take(end as int),
            1 <= left <= 3,
            before_dot(host, 3) == host.take(i as int) + before_dot(
                host.skip(i as int),
                left as nat,
            ),
        decreases end - i,
    {
        proof {
            assert(host[i as int] == address@[i as int]);
            lemma_before_dot(host, 3, i as int, left as nat);
        }
        if address.get_char(i) == '.' {
            left = left - 1;
        }
        i = i + 1;
    }
    proof {
        let rest = host.skip(i as int);
        assert(before_dot(rest, left as nat) =~= Seq::<char>::empty()) by {
            if i < end {
                assert(host[i as int] == address@[i as int]);
                assert(rest[0] == host[i as int]);
            }
        }
        assert(host.take(i as int) + Seq::<char>::empty() =~= host.take(i as int));
        assert(host.take(i as int) =~= address@.subrange(0, i as int));
    }
    String::from_str(address.substring_char(0, i))
}

fn count_of(list: &Vec<String>, text: &str) -> (n: usize)
    ensures
        n == occurrences(views(list@), text@),
{
    let ghost all = views(list@);
    let mut n: usize = 0;
    let mut i: usize = 0;
    assert(all.take(0) =~= seq![]);
    while i < list.len()
        invariant
            i <= list@.len(),
            all == views(list@),
            n <= i,
            n == occurrences(all.take(i as int), text@),
        decreases list@.len() - i,
    {
        proof {
            assert(all.take(i + 1).drop_last() =~= all.take(i as int));
            assert(all.take(i + 1).last() == list@[i as int]@);
        }
        if same_text(list[i].as_str(), text) {
            n = n + 1;
        }
        i = i + 1;
    }
    assert(all.take(i as int) =~= all);
    n
}

fn make_ready(manager: &mut ConnectionManager, ip: &str, now: u64) -> (go: bool)
    requires
        old(manager).wf(),
    ensures
        final(manager).wf(),
        (final(manager)@, go) == ready(old(manager)@, ip@, now),
{
    if manager.is_preferred_dialer(ip) {
        true
    } else {
        manager.passive_wait_expired_after_at(ip, PASSIVE_WAIT_TIMEOUT, now)
    }
}

fn push_text(list: &mut Vec<String>, text: &String)
    ensures
        views(final(list)@) == views(old(list)@).push(text@),
{
    let ghost held = views(list@);
    let copy = text.clone();
    list.push(copy);
    assert(views(list@) =~= held.push(copy@));
}

/// Whether to go on waiting for the first synchronisation before peers outside
/// the trusted ones are dialed.
pub fn hold_expansion(has_genesis: bool, is_syncing: bool, waited_secs: u64) -> (wait: bool)
    ensures
        wait == waits_for_sync(has_genesis, is_syncing, waited_secs),
{
    !((has_genesis && !is_syncing) || waited_secs >= PHASE0_SYNC_TIMEOUT_SECS)
}

/// Whether the trusted peers are dialed first: there are some, and no chain yet.
pub fn begins_with_trusted(has_genesis: bool, trusted: &Vec<String>) -> (yes: bool)
    ensures
        yes == (!has_genesis && trusted@.len() > 0),
{
    !has_genesis && trusted.len() > 0
}

/// The question for the tip of their chain, once for each connected peer, if the
/// node has a chain itself.
pub fn chain_tip_queries(our_height: u64, connected: &Vec<String>) -> (queries: Vec<(String, NetworkMessage)>)
    ensures
        queries@.len() == (if our_height > 0 {
            connected@.len()
        } else {
            0
        }),
        forall|i: int|
            0 <= i < queries@.len() ==> (#[trigger] queries@[i]).0@ == connected@[i]@
                && queries@[i].1@ == MessageV::GetChainTip,
{
    let mut queries: Vec<(String, NetworkMessage)> = Vec::new();
    if our_height == 0 {
        return queries;
    }
    let mut i: usize = 0;
    while i < connected.len()
        invariant
            i <= connected@.len(),
            queries@.len() == i,
            forall|j: int|
                0 <= j < i ==> (#[trigger] queries@[j]).0@ == connected@[j]@ && queries@[j].1@
                    == MessageV::GetChainTip,
        decreases connected@.len() - i,
    {
        let ip = connected[i].clone();
        queries.push((ip, NetworkMessage::GetChainTip));
        i = i + 1;
    }
    queries
}

/// The order of candidates by load.
fn order_by_load(candidates: &Vec<PeerCandidate>) -> (order: Vec<usize>)
    ensures
        is_load_order(views(candidates@), order@),
{
    let ghost all = views(candidates@);
    let mut order: Vec<usize> = Vec::new();
    let mut k: usize = 0;
    while k < candidates.len()
        invariant
            k <= candidates@.len(),
            all == views(candidates@),
            order@.len() == k,
            order@.no_duplicates(),
            forall|i: int| 0 <= i < order@.len() ==> (#[trigger] order@[i]) < k,
            forall|i: int, j: int|
                0 <= i < j < order@.len() ==> all[#[trigger] order@[i] as int].load
                    <= all[#[trigger] order@[j] as int].load && (all[order@[i] as int].load
                    == all[order@[j] as int].load ==> order@[i] < order@[j]),
        decreases candidates@.len() - k,
    {
        let load: u16 = candidates[k].load;
        let mut place: usize = 0;
        while place < order.len() && candidates[order[place]].load <= load
            invariant
                place <= order@.len(),
                k < candidates@.len(),
                all == views(candidates@),
                load == all[k as int].load,
                forall|i: int| 0 <= i < order@.len() ==> (#[trigger] order@[i]) < k,
                forall|i: int| 0 <= i < place ==> all[#[trigger] order@[i] as int].load <= load,
            decreases order@.len() - place,
        {
            place = place + 1;
        }
        let ghost before = order@;
        proof {
            assert forall|i: int| place <= i < before.len() implies all[#[trigger] before[i] as int].load
                > load by {
                assert(all[before[place as int] as int].load > load);
                if i > place {
                    assert(all[before[place as int] as int].load <= all[before[i] as int].load);
                }
            }
        }
        order.insert(place, k);
        proof {
            let p = place as int;
            assert(order@ == before.insert(p, k));
            assert forall|i: int, j: int| 0 <= i < j < order@.len() implies all[#[trigger] order@[i] as int].load
                <= all[#[trigger] order@[j] as int].load && (all[order@[i] as int].load
                == all[order@[j] as int].load ==> order@[i] < order@[j]) by {
                let a = if i < p {
                    i
                } else {
                    i - 1
                };
                let b = if j < p {
                    j
                } else {
                    j - 1
                };
                if i != p {
                    assert(order@[i] == before[a]);
                }
                if j != p {
                    assert(order@[j] == before[b]);
                }
            }
            assert(order@.no_duplicates()) by {
                assert forall|i: int, j: int|
                    0 <= i < order@.len() && 0 <= j < order@.len() && i != j implies order@[i]
                    != order@[j] by {
                    let a = if i < p {
                        i
                    } else {
                        i - 1
                    };
                    let b = if j < p {
                        j
                    } else {
                        j - 1
                    };
                    if i != p {
                        assert(order@[i] == before[a]);
                    }
                    if j != p {
                        assert(order@[j] == before[b]);
                    }
                }
            }
        }
        k = k + 1;
    }
    order
}

impl NetworkClient {
    /// A client for a node.
    pub fn new(
        network_type: NetworkType,
        p2p_port: u16,
        max_peers: usize,
        local_ip: Option<String>,
        banned_peers: Vec<String>,
    ) -> (client: Self)
        requires
            max_peers * 40 <= usize::MAX,
        ensures
            client@ == (ClientV {
                p2p_port,
                max_peers,
                reserved_masternode_slots: reserved_slots(max_peers) as usize,
                local_ip: option_view(local_ip),
                banned_peers: views(banned_peers@),
                network_type,
                discovered_peer_ips: seq![],
            }),
    {
        let share: usize = max_peers * 40 / 100;
        let reserved_masternode_slots: usize = if share < 20 {
            20
        } else if share > 100 {
            100
        } else {
            share
        };
        let client = NetworkClient {
            p2p_port,
            max_peers,
            reserved_masternode_slots,
            local_ip,
            banned_peers,
            network_type,
            discovered_peer_ips: Vec::new(),
        };
        assert(client@.discovered_peer_ips =~= seq![]);
        client
    }

    /// Tells the client of trusted peers.
    pub fn set_discovered_peer_ips(&mut self, peers: Vec<String>)
        ensures
            final(self)@ == (ClientV { discovered_peer_ips: views(peers@), ..old(self)@ }),
    {
        self.discovered_peer_ips = peers;
    }

    /// Whether a peer is not dialed whatever else holds.
    pub fn should_skip(&self, ip: &str, live: &Vec<String>, manager: &ConnectionManager) -> (skip: bool)
        requires
            manager.wf(),
        ensures
            skip == self@.skips(ip@, views(live@), manager@),
    {
        let own = match &self.local_ip {
            Some(local) => same_text(local.as_str(), ip),
            None => false,
        };
        own || holds_name(&self.banned_peers, ip) || holds_name(live, ip) || manager.is_connecting(
            ip,
        )
    }

    /// Dials trusted peers at the start, at a time, and lists those that were
    /// dialed.
    pub fn dial_trusted_at(
        &self,
        ips: &Vec<String>,
        banned: &Vec<String>,
        live: &Vec<String>,
        manager: &mut ConnectionManager,
        now: u64,
    ) -> (dials: Vec<String>)
        requires
            old(manager).wf(),
        ensures
            final(manager).wf(),
            (final(manager)@, views(dials@)) == self@.trusted_pass(
                views(ips@),
                views(banned@),
                views(live@),
                old(manager)@,
                now,
            ),
    {
        let ghost all = views(ips@);
        let ghost before = manager@;
        let mut dials: Vec<String> = Vec::new();
        let mut i: usize = 0;
        assert(all.take(0) =~= seq![]);
        assert(views(dials@) =~= seq![]);
        while i < ips.len()
            invariant
                manager.wf(),
                i <= ips@.len(),
                all == views(ips@),
                (manager@, views(dials@)) == self@.trusted_pass(
                    all.take(i as int),
                    views(banned@),
                    views(live@),
                    before,
                    now,
                ),
            decreases ips@.len() - i,
        {
            proof {
                assert(all.take(i + 1).drop_last() =~= all.take(i as int));
                assert(all.take(i + 1).last() == ips@[i as int]@);
            }
            let ip = &ips[i];
            if !self.should_skip(ip.as_str(), live, manager) && !holds_name(banned, ip.as_str()) {
                if manager.mark_connecting_at(ip.as_str(), now) {
                    push_text(&mut dials, ip);
                }
            }
            i = i + 1;
        }
        assert(all.take(i as int) =~= all);
        dials
    }

    /// Dials the masternodes of the start, at a time, as many as slots are kept for
    /// them; lists those that were dialed and counts those that are or will be
    /// connected.
    pub fn dial_masternodes_at(
        &self,
        planned: &Vec<String>,
        live: &Vec<String>,
        manager: &mut ConnectionManager,
        now: u64,
    ) -> (done: (Vec<String>, usize))
        requires
            old(manager).wf(),
        ensures
            final(manager).wf(),
            (final(manager)@, views(done.0@), done.1 as nat) == self@.masternode_pass(
                first(views(planned@), self@.reserved_masternode_slots as int),
                views(live@),
                old(manager)@,
                now,
            ),
    {
        let ghost all = views(planned@);
        let ghost before = manager@;
        let ghost few = first(all, self@.reserved_masternode_slots as int);
        let mut dials: Vec<String> = Vec::new();
        let mut connected: usize = 0;
        let mut i: usize = 0;
        assert(few.take(0) =~= seq![]);
        assert(views(dials@) =~= seq![]);
        while i < planned.len() && i < self.reserved_masternode_slots
            invariant
                manager.wf(),
                i <= planned@.len(),
                i <= self.reserved_masternode_slots,
                all == views(planned@),
                few == first(all, self@.reserved_masternode_slots as int),
                connected <= i,
                (manager@, views(dials@), connected as nat) == self@.masternode_pass(
                    few.take(i as int),
                    views(live@),
                    before,
                    now,
                ),
            decreases planned@.len() - i,
        {
            proof {
                assert(few.take(i + 1).drop_last() =~= few.take(i as int));
                assert(few.take(i + 1).last() == planned@[i as int]@);
            }
            let ip = &planned[i];
            if self.should_skip(ip.as_str(), live, manager) {
                if manager.is_connected(ip.as_str()) {
                    connected = connected + 1;
                }
            } else if make_ready(manager, ip.as_str(), now) {
                if manager.mark_connecting_at(ip.as_str(), now) {
                    connected = connected + 1;
                    push_text(&mut dials, ip);
                }
            }
            i = i + 1;
        }
        assert(few.take(i as int) =~= few);
        (dials, connected)
    }

    /// Fills the slots that the masternodes left with other peers, at a time, and
    /// lists those that were dialed, each with whether it is a masternode.
    pub fn fill_slots_at(
        &self,
        unique: &Vec<String>,
        masternode_connections: usize,
        banned: &Vec<String>,
        registered: &Vec<String>,
        live: &Vec<String>,
        manager: &mut ConnectionManager,
        now: u64,
    ) -> (dials: Vec<(String, bool)>)
        requires
            old(manager).wf(),
        ensures
            final(manager).wf(),
            ({
                let (after, dialed) = self@.filling_pass(
                    first(
                        views(unique@),
                        free_slots(self@.max_peers as int, masternode_connections as int),
                    ),
                    views(banned@),
                    views(live@),
                    old(manager)@,
                    now,
                );
                &&& final(manager)@ == after
                &&& dials@.len() == dialed.len()
                &&& forall|k: int|
                    0 <= k < dials@.len() ==> (#[trigger] dials@[k]).0@ == dialed[k] && dials@[k].1
                        == views(registered@).contains(dialed[k])
            }),
    {
        let slots: usize = if self.max_peers > masternode_connections {
            self.max_peers - masternode_connections
        } else {
            0
        };
        let ghost all = views(unique@);
        let ghost few = first(all, slots as int);
        let ghost before = manager@;
        let mut dials: Vec<(String, bool)> = Vec::new();
        let mut i: usize = 0;
        assert(few.take(0) =~= seq![]);
        while i < unique.len() && i < slots
            invariant
                manager.wf(),
                i <= unique@.len(),
                i <= slots,
                all == views(unique@),
                few == first(all, slots as int),
                ({
                    let (after, dialed) = self@.filling_pass(
                        few.take(i as int),
                        views(banned@),
                        views(live@),
                        before,
                        now,
                    );
                    &&& manager@ == after
                    &&& dials@.len() == dialed.len()
                    &&& forall|k: int|
                        0 <= k < dials@.len() ==> (#[trigger] dials@[k]).0@ == dialed[k]
                            && dials@[k].1 == views(registered@).contains(dialed[k])
                }),
            decreases unique@.len() - i,
        {
            proof {
                assert(few.take(i + 1).drop_last() =~= few.take(i as int));
                assert(few.take(i + 1).last() == unique@[i as int]@);
            }
            let ip = &unique[i];
            if !self.should_skip(ip.as_str(), live, manager) && !holds_name(banned, ip.as_str()) {
                if make_ready(manager, ip.as_str(), now) {
                    if manager.mark_connecting_at(ip.as_str(), now) {
                        let is_masternode = holds_name(registered, ip.as_str());
                        let copy = ip.clone();
                        dials.push((copy, is_masternode));
                    }
                }
            }
            i = i + 1;
        }
        assert(few.take(i as int) =~= few);
        dials
    }

    /// Looks at one masternode in a pass.
    fn consider_masternode(
        &self,
        candidate: &MasternodeCandidate,
        startup: bool,
        priority: bool,
        live: &Vec<String>,
        manager: &mut ConnectionManager,
        dials: &mut Vec<String>,
        subnets: &mut Vec<String>,
        now: u64,
    )
        requires
            old(manager).wf(),
        ensures
            final(manager).wf(),
            (final(manager)@, views(final(dials)@), views(final(subnets)@)) == self@.mesh_step(
                candidate@,
                startup,
                priority,
                views(live@),
                (old(manager)@, views(old(dials)@), views(old(subnets)@)),
                now,
            ),
    {
        let ip = candidate.address.as_str();
        let paid = candidate.tier != MasternodeTier::Free;
        if self.should_skip(ip, live, manager) || candidate.incompatible {
            return;
        }
        let forced = priority && paid;
        if !forced && !make_ready(manager, ip, now) {
            return;
        }
        let rests = if candidate.whitelisted {
            if candidate.failures == 0 {
                false
            } else if candidate.failures <= FAST_RETRY_FAILURE_LIMIT {
                let rest: u64 = if candidate.failures <= 1 {
                    5_000_000_000
                } else {
                    10_000_000_000
                };
                match manager.time_since_disconnect_at(ip, now) {
                    Some(nanos) => nanos < rest,
                    None => false,
                }
            } else {
                !candidate.advised
            }
        } else {
            let bypass = (startup || (priority && paid)) && candidate.failures
                <= FAST_RETRY_FAILURE_LIMIT;
            !bypass && !candidate.advised
        };
        if rests || candidate.banned {
            return;
        }
        let subnet = read_subnet(ip);
        if candidate.tier == MasternodeTier::Free && !candidate.on_chain && !candidate.whitelisted
            && count_of(subnets, subnet.as_str()) >= MAX_FREE_TIER_RECONNECT_PER_SUBNET {
            return;
        }
        if manager.mark_connecting_at(ip, now) {
            push_text(dials, &candidate.address);
            if candidate.tier == MasternodeTier::Free {
                push_text(subnets, &subnet);
            }
        }
    }

    /// Dials masternodes that are not connected, at a time, and lists those that
    /// were dialed. `startup` is set in the first pass and `priority` when a paid
    /// node has just been lost.
    pub fn reconnect_masternodes_at(
        &self,
        candidates: &Vec<MasternodeCandidate>,
        startup: bool,
        priority: bool,
        live: &Vec<String>,
        manager: &mut ConnectionManager,
        now: u64,
    ) -> (dials: Vec<String>)
        requires
            old(manager).wf(),
        ensures
            final(manager).wf(),
            ({
                let begun = (
                    old(manager)@,
                    Seq::<Seq<char>>::empty(),
                    busy_subnets(views(candidates@), views(live@), old(manager)@),
                );
                let after = self@.mesh_pass(
                    views(candidates@),
                    startup,
                    priority,
                    views(live@),
                    begun,
                    now,
                );
                &&& final(manager)@ == after.0
                &&& views(dials@) == after.1
            }),
    {
        let ghost all = views(candidates@);
        let ghost before = manager@;
        let mut dials: Vec<String> = Vec::new();
        let mut subnets: Vec<String> = Vec::new();
        let mut k: usize = 0;
        assert(all.take(0) =~= seq![]);
        assert(views(subnets@) =~= seq![]);
        while k < candidates.len()
            invariant
                manager.wf(),
                manager@ == before,
                k <= candidates@.len(),
                all == views(candidates@),
                views(subnets@) == busy_subnets(all.take(k as int), views(live@), before),
            decreases candidates@.len() - k,
        {
            proof {
                assert(all.take(k + 1).drop_last() =~= all.take(k as int));
                assert(all.take(k + 1).last() == candidates@[k as int]@);
            }
            let ip = &candidates[k].address;
            if holds_name(live, ip.as_str()) || manager.is_connecting(ip.as_str()) {
                let subnet = read_subnet(ip.as_str());
                push_text(&mut subnets, &subnet);
            }
            k = k + 1;
        }
        assert(all.take(k as int) =~= all);
        let ghost begun = (before, Seq::<Seq<char>>::empty(), views(subnets@));
        let mut i: usize = 0;
        assert(views(dials@) =~= Seq::<Seq<char>>::empty());
        while i < candidates.len()
            invariant
                manager.wf(),
                i <= candidates@.len(),
                all == views(candidates@),
                (manager@, views(dials@), views(subnets@)) == self@.mesh_pass(
                    all.take(i as int),
                    startup,
                    priority,
                    views(live@),
                    begun,
                    now,
                ),
            decreases candidates@.len() - i,
        {
            proof {
                assert(all.take(i + 1).drop_last() =~= all.take(i as int));
                assert(all.take(i + 1).last() == candidates@[i as int]@);
            }
            self.consider_masternode(
                &candidates[i],
                startup,
                priority,
                live,
                manager,
                &mut dials,
                &mut subnets,
                now,
            );
            i = i + 1;
        }
        assert(all.take(i as int) =~= all);
        dials
    }

    /// Fills the slots that are free with other peers, at a time: the least loaded
    /// first. A peer that fails again and again is to be forgotten.
    pub fn reconnect_peers_at(
        &self,
        candidates: &Vec<PeerCandidate>,
        live_total: usize,
        live: &Vec<String>,
        manager: &mut ConnectionManager,
        now: u64,
    ) -> (steps: Vec<PeerStep>)
        requires
            old(manager).wf(),
        ensures
            final(manager).wf(),
            exists|order: Seq<usize>| #[trigger]
                is_load_order(views(candidates@), order) && (final(manager)@, views(steps@))
                    == self@.peer_pass(
                    first(
                        in_order(views(candidates@), order),
                        free_slots(self@.max_peers as int, live_total as int),
                    ),
                    views(live@),
                    old(manager)@,
                    now,
                ),
    {
        let slots: usize = if self.max_peers > live_total {
            self.max_peers - live_total
        } else {
            0
        };
        let order = order_by_load(candidates);
        let ghost all = in_order(views(candidates@), order@);
        let ghost few = first(all, slots as int);
        let ghost before = manager@;
        let mut steps: Vec<PeerStep> = Vec::new();
        let mut i: usize = 0;
        assert(few.take(0) =~= seq![]);
        assert(views(steps@) =~= seq![]);
        while i < order.len() && i < slots
            invariant
                manager.wf(),
                i <= order@.len(),
                i <= slots,
                is_load_order(views(candidates@), order@),
                all == in_order(views(candidates@), order@),
                few == first(all, slots as int),
                (manager@, views(steps@)) == self@.peer_pass(
                    few.take(i as int),
                    views(live@),
                    before,
                    now,
                ),
            decreases order@.len() - i,
        {
            proof {
                assert(few.take(i + 1).drop_last() =~= few.take(i as int));
                assert(few.take(i + 1).last() == views(candidates@)[order@[i as int] as int]);
            }
            let candidate = &candidates[order[i]];
            let ip = candidate.ip.as_str();
            let ghost held = views(steps@);
            if !self.should_skip(ip, live, manager) && !candidate.is_masternode
                && !manager.is_reconnecting(ip) {
                if make_ready(manager, ip, now) {
                    if candidate.failures >= FORGET_THRESHOLD {
                        let copy = candidate.ip.clone();
                        steps.push(PeerStep::Forget(copy));
                        assert(views(steps@) =~= held.push(PeerStepV::Forget(ip@)));
                    } else if candidate.advised && !candidate.banned {
                        if manager.mark_connecting_at(ip, now) {
                            let copy = candidate.ip.clone();
                            steps.push(PeerStep::Dial(copy));
                            assert(views(steps@) =~= held.push(PeerStepV::Dial(ip@)));
                        }
                    }
                }
            }
            i = i + 1;
        }
        assert(few.take(i as int) =~= few);
        steps
    }
}

/// What to note of a session that is over.
#[derive(Debug)]
pub enum SessionRecord {
    Failure(String),
    Success { millis: u64 },
}

/// What to do after a session.
#[derive(Debug)]
pub struct SessionEnd {
    pub record: SessionRecord,
    /// Whether the loss counts towards losses at the same time.
    pub report_loss: bool,
    /// Whether the peer is forgotten.
    pub forget: bool,
}

/// Whether a peer is dialed after all when its turn comes: if it is whitelisted, or
/// advised.
pub fn may_dial(whitelisted: bool, advised: bool) -> (yes: bool)
    ensures
        yes == is_dialed(whitelisted, advised),
{
    whitelisted || advised
}

/// Whether a peer is dialed when its turn comes.
pub open spec fn is_dialed(whitelisted: bool, advised: bool) -> bool {
    whitelisted || advised
}

/// Whether the end of a session counts as the loss of a masternode.
pub open spec fn counts_as_loss(is_masternode: bool, was_live: bool, still_connected: bool) -> bool {
    is_masternode && was_live && !still_connected
}

/// Whether a peer is forgotten at the end of a session.
pub open spec fn is_forgotten(is_masternode: bool, still_connected: bool, registered: bool) -> bool {
    is_masternode && !still_connected && !registered
}

/// Whether a session of so many nanoseconds counts as a failure.
pub open spec fn is_short(nanos: u64) -> bool {
    nanos < SHORT_SESSION
}

/// What to do after a session of so many nanoseconds, or a failed one. A short
/// session counts as a failure. Only a loss of a masternode that was connected and
/// is not any more is reported, and a masternode that is not registered any more
/// is forgotten.
pub fn conclude_session(
    outcome: Result<u64, String>,
    is_masternode: bool,
    still_connected: bool,
    registered: bool,
) -> (end: SessionEnd)
    ensures
        match outcome {
            Ok(nanos) => if is_short(nanos) {
                end.record matches SessionRecord::Failure(text) && text@ == "short-lived session"@
            } else {
                end.record == (SessionRecord::Success { millis: nanos / 1_000_000 })
            },
            Err(why) => end.record matches SessionRecord::Failure(text) && text@ == why@,
        },
        end.report_loss == counts_as_loss(is_masternode, outcome is Ok, still_connected),
        end.forget == is_forgotten(is_masternode, still_connected, registered),
{
    let was_live = outcome.is_ok();
    let record = match outcome {
        Ok(nanos) => if nanos < SHORT_SESSION {
            SessionRecord::Failure(String::from_str("short-lived session"))
        } else {
            SessionRecord::Success { millis: nanos / 1_000_000 }
        },
        Err(text) => SessionRecord::Failure(text),
    };
    SessionEnd {
        record,
        report_loss: is_masternode && was_live && !still_connected,
        forget: is_masternode && !still_connected && !registered,
    }
}

/// In a small network everyone dials everyone.
pub proof fn small_networks_are_full_meshes(
    our_tier: Option<MasternodeTier>,
    gold: Seq<Seq<char>>,
    silver: Seq<Seq<char>>,
    bronze: Seq<Seq<char>>,
    free: Seq<Seq<char>>,
    ip: Seq<char>,
)
    requires
        gold.len() + silver.len() + bronze.len() + free.len() <= FULL_MESH_THRESHOLD,
        gold.contains(ip) || silver.contains(ip) || bronze.contains(ip) || free.contains(ip),
    ensures
        targets(our_tier, gold, silver, bronze, free).contains(ip),
{
    let all = gold + silver + bronze + free;
    if gold.contains(ip) {
        let i = choose|i: int| 0 <= i < gold.len() && gold[i] == ip;
        assert(all[i] == ip);
    } else if silver.contains(ip) {
        let i = choose|i: int| 0 <= i < silver.len() && silver[i] == ip;
        assert(all[gold.len() + i] == ip);
    } else if bronze.contains(ip) {
        let i = choose|i: int| 0 <= i < bronze.len() && bronze[i] == ip;
        assert(all[gold.len() + silver.len() + i] == ip);
    } else {
        let i = choose|i: int| 0 <= i < free.len() && free[i] == ip;
        assert(all[gold.len() + silver.len() + bronze.len() + i] == ip);
    }
}

/// No tier is left alone: a node that is registered in its tier, or in none, has
/// someone to dial as long as there is anyone.
pub proof fn no_tier_is_left_alone(
    our_tier: Option<MasternodeTier>,
    gold: Seq<Seq<char>>,
    silver: Seq<Seq<char>>,
    bronze: Seq<Seq<char>>,
    free: Seq<Seq<char>>,
)
    requires
        match our_tier {
            Some(MasternodeTier::Gold) => gold.len() > 0,
            Some(MasternodeTier::Silver) => silver.len() > 0,
            Some(MasternodeTier::Bronze) => bronze.len() > 0,
            _ => gold.len() + silver.len() + bronze.len() + free.len() > 0,
        },
    ensures
        targets(our_tier, gold, silver, bronze, free).len() > 0,
{
}

/// The hosts that are dialed are all different.
pub proof fn hosts_differ(addresses: Seq<Seq<char>>)
    ensures
        hosts(addresses).no_duplicates(),
    decreases addresses.len(),
{
    if addresses.len() > 0 {
        hosts_differ(addresses.drop_last());
        let front = hosts(addresses.drop_last());
        let host = host_of(addresses.last());
        if !front.contains(host) {
            let all = front.push(host);
            assert forall|i: int, j: int|
                0 <= i < all.len() && 0 <= j < all.len() && i != j implies all[i] != all[j] by {
                if i == front.len() {
                    assert(front.contains(all[j]));
                } else if j == front.len() {
                    assert(front.contains(all[i]));
                }
            }
        }
    }
}

/// A peer that has failed again and again is not dialed against advice, however
/// much it is trusted and whatever just happened.
pub proof fn failing_peers_rest(
    candidate: MasternodeCandidateV,
    startup: bool,
    priority: bool,
    gone_for: Option<u64>,
)
    requires
        candidate.failures > FAST_RETRY_FAILURE_LIMIT,
        !candidate.advised,
    ensures
        ClientV::rests(candidate, startup, priority, gone_for),
{
}

/// Whether peers were rightly dialed: none is the node itself or banned or has a
/// writer, and each is being connected to.
pub open spec fn rightly_dialed(
    client: ClientV,
    dials: Seq<Seq<char>>,
    live: Seq<Seq<char>>,
    manager: ManagerV,
) -> bool {
    forall|i: int|
        0 <= i < dials.len() ==> client.local_ip != Some(#[trigger] dials[i])
            && !client.banned_peers.contains(dials[i]) && !live.contains(dials[i])
            && manager.in_state(dials[i], PeerConnectionState::Connecting)
}

proof fn lemma_dial_keeps(
    client: ClientV,
    dials: Seq<Seq<char>>,
    live: Seq<Seq<char>>,
    manager: ManagerV,
    ip: Seq<char>,
    now: u64,
)
    requires
        rightly_dialed(client, dials, live, manager),
        !client.skips(ip, live, manager),
    ensures
        rightly_dialed(client, dials, live, ready(manager, ip, now).0),
        rightly_dialed(client, dials, live, manager.dialed(ip, now).0),
        rightly_dialed(client, dials, live, ready(manager, ip, now).0.dialed(ip, now).0),
        manager.dialed(ip, now).1 ==> rightly_dialed(
            client,
            dials.push(ip),
            live,
            manager.dialed(ip, now).0,
        ),
        ready(manager, ip, now).0.dialed(ip, now).1 ==> rightly_dialed(
            client,
            dials.push(ip),
            live,
            ready(manager, ip, now).0.dialed(ip, now).0,
        ),
{
    let waited = ready(manager, ip, now).0;
    assert(waited.connections == manager.connections);
    assert forall|i: int| 0 <= i < dials.len() implies (#[trigger] dials[i]) != ip by {
        assert(manager.in_state(dials[i], PeerConnectionState::Connecting));
    }
}

/// Whoever is dialed is rightly dialed: in the passes at the start, in the pass over
/// masternodes and in filling up.
pub proof fn dialed_peers_are_rightly_dialed(
    client: ClientV,
    ips: Seq<Seq<char>>,
    candidates: Seq<MasternodeCandidateV>,
    startup: bool,
    priority: bool,
    banned: Seq<Seq<char>>,
    subnets: Seq<Seq<char>>,
    live: Seq<Seq<char>>,
    manager: ManagerV,
    now: u64,
)
    ensures
        ({
            let (m, dials) = client.trusted_pass(ips, banned, live, manager, now);
            rightly_dialed(client, dials, live, m)
        }),
        ({
            let (m, dials, n) = client.masternode_pass(ips, live, manager, now);
            rightly_dialed(client, dials, live, m) && dials.len() <= n <= ips.len()
        }),
        ({
            let (m, dials) = client.filling_pass(ips, banned, live, manager, now);
            rightly_dialed(client, dials, live, m) && dials.len() <= ips.len()
        }),
        ({
            let (m, dials, s) = client.mesh_pass(
                candidates,
                startup,
                priority,
                live,
                (manager, seq![], subnets),
                now,
            );
            rightly_dialed(client, dials, live, m)
        }),
    decreases ips.len() + candidates.len(),
{
    if ips.len() > 0 {
        dialed_peers_are_rightly_dialed(
            client,
            ips.drop_last(),
            candidates,
            startup,
            priority,
            banned,
            subnets,
            live,
            manager,
            now,
        );
        let ip = ips.last();
        let (m0, d0) = client.trusted_pass(ips.drop_last(), banned, live, manager, now);
        if !client.skips(ip, live, m0) {
            lemma_dial_keeps(client, d0, live, m0, ip, now);
        }
        let (m1, d1, n1) = client.masternode_pass(ips.drop_last(), live, manager, now);
        if !client.skips(ip, live, m1) {
            lemma_dial_keeps(client, d1, live, m1, ip, now);
        }
        let (m2, d2) = client.filling_pass(ips.drop_last(), banned, live, manager, now);
        if !client.skips(ip, live, m2) {
            lemma_dial_keeps(client, d2, live, m2, ip, now);
        }
    } else if candidates.len() > 0 {
        dialed_peers_are_rightly_dialed(
            client,
            ips,
            candidates.drop_last(),
            startup,
            priority,
            banned,
            subnets,
            live,
            manager,
            now,
        );
        let (m, dials, s) = client.mesh_pass(
            candidates.drop_last(),
            startup,
            priority,
            live,
            (manager, seq![], subnets),
            now,
        );
        let ip = candidates.last().address;
        if !client.skips(ip, live, m) {
            lemma_dial_keeps(client, dials, live, m, ip, now);
        }
    }
}

/// Free nodes that are neither on the chain nor whitelisted do not crowd: a pass
/// over such nodes brings no subnet above the limit.
pub proof fn subnets_are_not_crowded(
    client: ClientV,
    candidates: Seq<MasternodeCandidateV>,
    startup: bool,
    priority: bool,
    live: Seq<Seq<char>>,
    begun: (ManagerV, Seq<Seq<char>>, Seq<Seq<char>>),
    now: u64,
    subnet: Seq<char>,
)
    requires
        forall|i: int| 0 <= i < candidates.len() ==> ClientV::capped(#[trigger] candidates[i]),
    ensures
        ({
            let before = occurrences(begun.2, subnet);
            let after = occurrences(
                client.mesh_pass(candidates, startup, priority, live, begun, now).2,
                subnet,
            );
            after <= before || after <= MAX_FREE_TIER_RECONNECT_PER_SUBNET
        }),
    decreases candidates.len(),
{
    if candidates.len() > 0 {
        subnets_are_not_crowded(
            client,
            candidates.drop_last(),
            startup,
            priority,
            live,
            begun,
            now,
            subnet,
        );
        let held = client.mesh_pass(candidates.drop_last(), startup, priority, live, begun, now);
        let ip = candidates.last().address;
        let grown = held.2.push(subnet_of(ip));
        assert(grown.drop_last() =~= held.2);
        assert(grown.last() == subnet_of(ip));
        assert(ClientV::capped(candidates[candidates.len() - 1]));
    }
}

/// Whether a step is right about a peer: only a peer that is advised, not banned, no
/// masternode and has failed fewer than five times is dialed, and only one that has
/// failed five times is forgotten.
pub open spec fn step_fits(step: PeerStepV, candidate: PeerCandidateV) -> bool {
    match step {
        PeerStepV::Dial(ip) => {
            &&& candidate.ip == ip
            &&& candidate.advised
            &&& !candidate.banned
            &&& !candidate.is_masternode
            &&& candidate.failures < 5
        },
        PeerStepV::Forget(ip) => {
            &&& candidate.ip == ip
            &&& !candidate.is_masternode
            &&& candidate.failures >= 5
        },
    }
}

/// The peer that a step is about.
pub open spec fn subject_of(step: PeerStepV) -> Seq<char> {
    match step {
        PeerStepV::Dial(ip) => ip,
        PeerStepV::Forget(ip) => ip,
    }
}

/// Every step of a pass over other peers is right about one of the candidates, and
/// none is about the node itself, a peer that the node has banned or one that it has a
/// writer for. Whoever is dialed is being connected to. There are no more steps than
/// candidates.
pub proof fn peer_steps_are_right(
    client: ClientV,
    candidates: Seq<PeerCandidateV>,
    live: Seq<Seq<char>>,
    manager: ManagerV,
    now: u64,
)
    ensures
        ({
            let (after, steps) = client.peer_pass(candidates, live, manager, now);
            &&& steps.len() <= candidates.len()
            &&& forall|i: int|
                0 <= i < steps.len() ==> {
                    let ip = subject_of(#[trigger] steps[i]);
                    &&& exists|k: int|
                        0 <= k < candidates.len() && step_fits(steps[i], #[trigger] candidates[k])
                    &&& client.local_ip != Some(ip)
                    &&& !client.banned_peers.contains(ip)
                    &&& !live.contains(ip)
                    &&& steps[i] is Dial ==> after.in_state(ip, PeerConnectionState::Connecting)
                }
        }),
    decreases candidates.len(),
{
    if candidates.len() > 0 {
        let front = candidates.drop_last();
        peer_steps_are_right(client, front, live, manager, now);
        let (m, earlier) = client.peer_pass(front, live, manager, now);
        let (after, steps) = client.peer_pass(candidates, live, manager, now);
        let last = candidates.last();
        let waited = ready(m, last.ip, now).0;
        assert(waited.connections == m.connections);
        assert forall|i: int| 0 <= i < steps.len() implies {
            let ip = subject_of(#[trigger] steps[i]);
            &&& exists|k: int|
                0 <= k < candidates.len() && step_fits(steps[i], #[trigger] candidates[k])
            &&& client.local_ip != Some(ip)
            &&& !client.banned_peers.contains(ip)
            &&& !live.contains(ip)
            &&& steps[i] is Dial ==> after.in_state(ip, PeerConnectionState::Connecting)
        } by {
            if i < earlier.len() {
                assert(steps[i] == earlier[i]);
                let k = choose|k: int|
                    0 <= k < front.len() && step_fits(earlier[i], #[trigger] front[k]);
                assert(candidates[k] == front[k]);
                if earlier[i] is Dial {
                    assert(m.in_state(subject_of(earlier[i]), PeerConnectionState::Connecting));
                }
            } else {
                assert(candidates[candidates.len() - 1] == last);
                assert(step_fits(steps[i], candidates[candidates.len() - 1]));
            }
        }
    }
}

/// A peer that is fit to be dialed is dialed: one that the node has nothing against,
/// that it is the one to dial, and that it is not connected with.
pub proof fn fit_peers_are_dialed(
    client: ClientV,
    candidates: Seq<PeerCandidateV>,
    candidate: PeerCandidateV,
    live: Seq<Seq<char>>,
    manager: ManagerV,
    now: u64,
)
    requires
        ({
            let held = client.peer_pass(candidates, live, manager, now).0;
            &&& client.local_ip != Some(candidate.ip)
            &&& !client.banned_peers.contains(candidate.ip)
            &&& !live.contains(candidate.ip)
            &&& held.ranks_above(candidate.ip)
            &&& !held.connections.contains_key(candidate.ip) || held.connections[candidate.ip].state
                == PeerConnectionState::Disconnected
        }),
        candidate.advised,
        !candidate.banned,
        !candidate.is_masternode,
    ensures
        client.peer_pass(candidates.push(candidate), live, manager, now).1 == client.peer_pass(
            candidates,
            live,
            manager,
            now,
        ).1.push(
            if candidate.failures < 5 {
                PeerStepV::Dial(candidate.ip)
            } else {
                PeerStepV::Forget(candidate.ip)
            },
        ),
{
    assert(candidates.push(candidate).drop_last() =~= candidates);
}

/// Whoever is dialed at the start or in filling up is one of those who were to be
/// dialed, and nobody who is banned.
pub proof fn only_planned_peers_are_dialed(
    client: ClientV,
    ips: Seq<Seq<char>>,
    banned: Seq<Seq<char>>,
    live: Seq<Seq<char>>,
    manager: ManagerV,
    now: u64,
)
    ensures
        forall|i: int|
            0 <= i < client.trusted_pass(ips, banned, live, manager, now).1.len() ==> {
                let ip = #[trigger] client.trusted_pass(ips, banned, live, manager, now).1[i];
                ips.contains(ip) && !banned.contains(ip)
            },
        forall|i: int|
            0 <= i < client.filling_pass(ips, banned, live, manager, now).1.len() ==> {
                let ip = #[trigger] client.filling_pass(ips, banned, live, manager, now).1[i];
                ips.contains(ip) && !banned.contains(ip)
            },
        forall|i: int|
            0 <= i < client.masternode_pass(ips, live, manager, now).1.len() ==> ips.contains(
                #[trigger] client.masternode_pass(ips, live, manager, now).1[i],
            ),
    decreases ips.len(),
{
    if ips.len() > 0 {
        let front = ips.drop_last();
        only_planned_peers_are_dialed(client, front, banned, live, manager, now);
        assert forall|x: Seq<char>| front.contains(x) implies #[trigger] ips.contains(x) by {
            let k = choose|k: int| 0 <= k < front.len() && front[k] == x;
            assert(ips[k] == x);
        }
        assert(ips.contains(ips.last())) by {
            assert(ips[ips.len() - 1] == ips.last());
        }
        let (m0, d0) = client.trusted_pass(front, banned, live, manager, now);
        let (m1, d1) = client.filling_pass(front, banned, live, manager, now);
        let (m2, d2, n2) = client.masternode_pass(front, live, manager, now);
        assert forall|i: int|
            0 <= i < client.trusted_pass(ips, banned, live, manager, now).1.len() implies {
            let ip = #[trigger] client.trusted_pass(ips, banned, live, manager, now).1[i];
            ips.contains(ip) && !banned.contains(ip)
        } by {
            if i < d0.len() {
                assert(client.trusted_pass(ips, banned, live, manager, now).1[i] == d0[i]);
            }
        }
        assert forall|i: int|
            0 <= i < client.filling_pass(ips, banned, live, manager, now).1.len() implies {
            let ip = #[trigger] client.filling_pass(ips, banned, live, manager, now).1[i];
            ips.contains(ip) && !banned.contains(ip)
        } by {
            if i < d1.len() {
                assert(client.filling_pass(ips, banned, live, manager, now).1[i] == d1[i]);
            }
        }
        assert forall|i: int|
            0 <= i < client.masternode_pass(ips, live, manager, now).1.len() implies ips.contains(
            #[trigger] client.masternode_pass(ips, live, manager, now).1[i],
        ) by {
            if i < d2.len() {
                assert(client.masternode_pass(ips, live, manager, now).1[i] == d2[i]);
            }
        }
    }
}

/// A host that nothing speaks against is dialed when its turn comes: one that is
/// neither the node itself nor banned, that no writer and no connection is for, and,
/// except among trusted peers, that it is the node's part to dial.
pub proof fn planned_peers_are_dialed(
    client: ClientV,
    ips: Seq<Seq<char>>,
    ip: Seq<char>,
    banned: Seq<Seq<char>>,
    live: Seq<Seq<char>>,
    manager: ManagerV,
    now: u64,
)
    requires
        client.local_ip != Some(ip),
        !client.banned_peers.contains(ip),
        !banned.contains(ip),
        !live.contains(ip),
    ensures
        ({
            let (m, dials) = client.trusted_pass(ips, banned, live, manager, now);
            !m.connections.contains_key(ip) ==> client.trusted_pass(
                ips.push(ip),
                banned,
                live,
                manager,
                now,
            ).1 == dials.push(ip)
        }),
        ({
            let (m, dials) = client.filling_pass(ips, banned, live, manager, now);
            !m.connections.contains_key(ip) && m.ranks_above(ip) ==> client.filling_pass(
                ips.push(ip),
                banned,
                live,
                manager,
                now,
            ).1 == dials.push(ip)
        }),
        ({
            let (m, dials, n) = client.masternode_pass(ips, live, manager, now);
            &&& !m.connections.contains_key(ip) && m.ranks_above(ip) ==> {
                let next = client.masternode_pass(ips.push(ip), live, manager, now);
                next.1 == dials.push(ip) && next.2 == n + 1
            }
        }),
{
    assert(ips.push(ip).drop_last() =~= ips);
}

/// A masternode that the pass looks at is dialed only if it is not banned, not on
/// another network, and not resting, and if its subnet has room where it needs some;
/// and nobody else is.
pub proof fn mesh_dials_fit_masternodes(
    client: ClientV,
    candidates: Seq<MasternodeCandidateV>,
    candidate: MasternodeCandidateV,
    startup: bool,
    priority: bool,
    live: Seq<Seq<char>>,
    begun: (ManagerV, Seq<Seq<char>>, Seq<Seq<char>>),
    now: u64,
)
    ensures
        ({
            let held = client.mesh_pass(candidates, startup, priority, live, begun, now);
            let next = client.mesh_pass(
                candidates.push(candidate),
                startup,
                priority,
                live,
                begun,
                now,
            );
            let ip = candidate.address;
            let known = held.0.connections.contains_key(ip);
            let paid = candidate.tier != MasternodeTier::Free;
            let unlisted = !paid && !candidate.on_chain && !candidate.whitelisted;
            &&& next.1 == held.1 || next.1 == held.1.push(ip)
            &&& next.1.len() > held.1.len() ==> {
                &&& !candidate.banned
                &&& !candidate.incompatible
                &&& client.local_ip != Some(ip)
                &&& !client.banned_peers.contains(ip)
                &&& !live.contains(ip)
                &&& candidate.failures > 5 ==> candidate.advised
                &&& !startup && !priority && !candidate.whitelisted ==> candidate.advised
                &&& unlisted ==> occurrences(held.2, subnet_of(ip)) < 3
                &&& next.2 == (if paid {
                    held.2
                } else {
                    held.2.push(subnet_of(ip))
                })
            }
            &&& {
                &&& !candidate.banned
                &&& !candidate.incompatible
                &&& client.local_ip != Some(ip)
                &&& !client.banned_peers.contains(ip)
                &&& !live.contains(ip)
                &&& !known
                &&& held.0.ranks_above(ip) || (priority && paid)
                &&& candidate.advised || (candidate.whitelisted && candidate.failures == 0) || (
                candidate.failures <= 5 && (startup || (priority && paid)))
                &&& unlisted ==> occurrences(held.2, subnet_of(ip)) < 3
            } ==> next.1 == held.1.push(ip)
        }),
{
    assert(candidates.push(candidate).drop_last() =~= candidates);
    let held = client.mesh_pass(candidates, startup, priority, live, begun, now);
    let waited = ready(held.0, candidate.address, now).0;
    assert(waited.connections == held.0.connections);
}

/// How long a masternode rests. A whitelisted one: not at all without a failure, five
/// seconds after one, ten after two to five, and then until dialing it is advised. Any
/// other: until it is advised, except at the start or, for a paid node, after a loss,
/// as long as it has failed five times at most.
pub proof fn rests_depend_on_failures(
    candidate: MasternodeCandidateV,
    startup: bool,
    priority: bool,
    gone: u64,
)
    ensures
        ({
            let rests = ClientV::rests(candidate, startup, priority, Some(gone));
            let excused = startup || (priority && candidate.tier != MasternodeTier::Free);
            &&& candidate.whitelisted && candidate.failures == 0 ==> !rests
            &&& candidate.whitelisted && candidate.failures == 1 ==> (rests <==> gone
                < 5_000_000_000)
            &&& candidate.whitelisted && 2 <= candidate.failures <= 5 ==> (rests <==> gone
                < 10_000_000_000)
            &&& candidate.failures > 5 ==> (rests <==> !candidate.advised)
            &&& !candidate.whitelisted && candidate.failures <= 5 ==> (rests <==> !excused
                && !candidate.advised)
        }),
{
}

/// A peer that ranks below the node is the node's to dial; for one that ranks above it
/// the node waits more than three minutes first.
pub proof fn higher_peers_are_waited_for(manager: ManagerV, ip: Seq<char>, now: u64)
    ensures
        manager.ranks_above(ip) ==> ready(manager, ip, now) == (manager, true),
        !manager.ranks_above(ip) && !manager.passive_wait_since.contains_key(ip) ==> !ready(
            manager,
            ip,
            now,
        ).1 && ready(manager, ip, now).0.passive_wait_since[ip] == now,
        !manager.ranks_above(ip) && manager.passive_wait_since.contains_key(ip) ==> (ready(
            manager,
            ip,
            now,
        ).1 <==> now - manager.passive_wait_since[ip] > 180_000_000_000),
{
}

/// Two fifths of the slots are kept for masternodes, but no fewer than 20 and no more
/// than 100. What is free is what the limit leaves.
pub proof fn slots_are_shared_out(max_peers: usize, used: int)
    requires
        used >= 0,
    ensures
        20 <= reserved_slots(max_peers) <= 100,
        50 <= max_peers <= 250 ==> 5 * reserved_slots(max_peers) <= 2 * max_peers < 5 * (
        reserved_slots(max_peers) + 1),
        max_peers < 50 ==> reserved_slots(max_peers) == 20,
        max_peers > 250 ==> reserved_slots(max_peers) == 100,
        used <= max_peers ==> used + free_slots(max_peers as int, used) == max_peers,
        used > max_peers ==> free_slots(max_peers as int, used) == 0,
{
}

/// Nothing is put off once the chain is there and in step, or after ten minutes. A
/// session of less than ten seconds is a short one.
pub proof fn waits_and_sessions_are_timed(
    has_genesis: bool,
    is_syncing: bool,
    waited_secs: u64,
    nanos: u64,
)
    ensures
        waits_for_sync(has_genesis, is_syncing, waited_secs) <==> waited_secs < 600 && (
        !has_genesis || is_syncing),
        is_short(nanos) <==> nanos < 10_000_000_000,
{
}

/// In a network of more than fifty masternodes a gold node dials every gold node and
/// three silver ones; a silver node every gold node and four silver ones; a bronze node
/// five silver ones, or every gold node where there is no silver one, and three bronze
/// ones; any other five bronze nodes and a silver one, or every gold node where there
/// are neither.
pub proof fn tiers_form_a_pyramid(
    gold: Seq<Seq<char>>,
    silver: Seq<Seq<char>>,
    bronze: Seq<Seq<char>>,
    free: Seq<Seq<char>>,
)
    requires
        gold.len() + silver.len() + bronze.len() + free.len() > 50,
        silver.len() >= 5,
        bronze.len() >= 5,
    ensures
        targets(Some(MasternodeTier::Gold), gold, silver, bronze, free) == gold + silver.take(3),
        gold.len() > 0 ==> targets(Some(MasternodeTier::Silver), gold, silver, bronze, free) == gold
            + silver.take(4),
        gold.len() == 0 ==> targets(Some(MasternodeTier::Silver), gold, silver, bronze, free)
            == silver,
        targets(Some(MasternodeTier::Bronze), gold, silver, bronze, free) == silver.take(5)
            + bronze.take(3),
        gold.len() > 0 ==> targets(Some(MasternodeTier::Bronze), gold, seq![], bronze, free.push(
            seq![],
        ) + silver) == gold + bronze.take(3),
        targets(None, gold, silver, bronze, free) == bronze.take(5) + silver.take(1),
        targets(Some(MasternodeTier::Free), gold, silver, bronze, free) == bronze.take(5)
            + silver.take(1),
        gold.len() > 0 ==> targets(None, gold, seq![], seq![], free + silver + bronze) == gold,
        targets(None, seq![], seq![], seq![], free + gold + silver + bronze) == free + gold + silver
            + bronze,
{
    assert(silver.take(silver.len() as int) =~= silver);
    assert(Seq::<Seq<char>>::empty() + silver =~= silver);
    assert(first(silver, 5) =~= silver.take(5));
    assert(first(bronze, 5) =~= bronze.take(5));
    let none = Seq::<Seq<char>>::empty();
    assert(first(none, 5) + first(none, 1) =~= none);
}

/// The list of a tier has the addresses of just the masternodes of that tier.
pub proof fn tiers_are_told_apart(
    nodes: Seq<MasternodeInfoV>,
    node: MasternodeInfoV,
    tier: MasternodeTier,
)
    ensures
        of_tier(seq![], tier).len() == 0,
        node.masternode.tier == tier ==> of_tier(nodes.push(node), tier) == of_tier(
            nodes,
            tier,
        ).push(node.masternode.address),
        node.masternode.tier != tier ==> of_tier(nodes.push(node), tier) == of_tier(nodes, tier),
{
    assert(nodes.push(node).drop_last() =~= nodes);
}

/// The host of an address with a port is what stands before the port; an address
/// without one is its own host.
pub proof fn hosts_come_without_ports(host: Seq<char>, port: Seq<char>)
    requires
        forall|i: int| 0 <= i < port.len() ==> port[i] != ':',
    ensures
        host_of(host + seq![':'] + port) == host,
        host_of(port) == port,
{
    let text = host + seq![':'] + port;
    let n = host.len() as int;
    assert forall|j: int| n < j < text.len() implies text[j] != ':' by {
        assert(text[j] == port[j - n - 1]);
    }
    assert(text[n] == ':');
    assert(last_colon(text, n));
    let c = choose|i: int| last_colon(text, i);
    if c < n {
        assert(text[n] != ':');
    }
    assert(c == n);
    assert(text.take(n) =~= host);
    assert forall|i: int| !last_colon(port, i) by {}
}

/// The hosts of a list are those of its addresses, and no others.
pub proof fn hosts_are_those_of_the_addresses(addresses: Seq<Seq<char>>, host: Seq<char>)
    ensures
        hosts(addresses).contains(host) <==> exists|i: int|
            0 <= i < addresses.len() && host_of(#[trigger] addresses[i]) == host,
    decreases addresses.len(),
{
    if addresses.len() > 0 {
        let front = addresses.drop_last();
        hosts_are_those_of_the_addresses(front, host);
        let earlier = hosts(front);
        let all = hosts(addresses);
        let last = host_of(addresses.last());
        if all.contains(host) {
            let k = choose|k: int| 0 <= k < all.len() && all[k] == host;
            if k < earlier.len() {
                assert(earlier[k] == host);
                let i = choose|i: int|
                    0 <= i < front.len() && host_of(#[trigger] front[i]) == host;
                assert(addresses[i] == front[i]);
            } else {
                assert(host_of(addresses[addresses.len() - 1]) == host);
            }
        }
        if exists|i: int| 0 <= i < addresses.len() && host_of(#[trigger] addresses[i]) == host {
            let i = choose|i: int|
                0 <= i < addresses.len() && host_of(#[trigger] addresses[i]) == host;
            if i < front.len() {
                assert(front[i] == addresses[i]);
                let k = choose|k: int| 0 <= k < earlier.len() && earlier[k] == host;
                assert(all[k] == host);
            } else if earlier.contains(last) {
                assert(all.contains(host));
            } else {
                assert(all[earlier.len() as int] == host);
            }
        }
    }
}

/// A count of subnets goes up by one with each of the same, and with no other.
pub proof fn subnets_are_counted(list: Seq<Seq<char>>, more: Seq<char>, subnet: Seq<char>)
    ensures
        occurrences(seq![], subnet) == 0,
        occurrences(list.push(more), subnet) == occurrences(list, subnet) + (if more == subnet {
            1int
        } else {
            0
        }),
{
    assert(list.push(more).drop_last() =~= list);
}

proof fn lemma_up_to_dot(head: Seq<char>, rest: Seq<char>, n: nat)
    requires
        n >= 1,
        forall|i: int| 0 <= i < head.len() ==> head[i] != '.',
    ensures
        n == 1 ==> before_dot(head + seq!['.'] + rest, n) == head,
        n > 1 ==> before_dot(head + seq!['.'] + rest, n) == head + seq!['.'] + before_dot(
            rest,
            (n - 1) as nat,
        ),
    decreases head.len(),
{
    let text = head + seq!['.'] + rest;
    if head.len() == 0 {
        assert(text[0] == '.');
        assert(text.skip(1) =~= rest);
        assert(before_dot(text, 1) =~= head);
        if n > 1 {
            assert(before_dot(text, n) =~= head + seq!['.'] + before_dot(rest, (n - 1) as nat));
        }
    } else {
        let tail = head.skip(1);
        assert forall|i: int| 0 <= i < tail.len() implies tail[i] != '.' by {
            assert(tail[i] == head[i + 1]);
        }
        lemma_up_to_dot(tail, rest, n);
        assert(text.skip(1) =~= tail + seq!['.'] + rest);
        assert(text[0] == head[0]);
        assert(seq![head[0]] + tail =~= head);
        if n > 1 {
            assert(before_dot(text, n) =~= head + seq!['.'] + before_dot(rest, (n - 1) as nat));
        }
    }
}

proof fn lemma_no_colon(text: Seq<char>)
    requires
        forall|i: int| 0 <= i < text.len() ==> text[i] != ':',
    ensures
        before_colon(text) == text,
    decreases text.len(),
{
    if text.len() > 0 {
        let tail = text.skip(1);
        assert forall|i: int| 0 <= i < tail.len() implies tail[i] != ':' by {
            assert(tail[i] == text[i + 1]);
        }
        lemma_no_colon(tail);
        assert(seq![text[0]] + tail =~= text);
    } else {
        assert(before_colon(text) =~= text);
    }
}

/// The subnet of an address of four numbers is the first three of them.
pub proof fn subnets_are_the_first_three_numbers(
    a: Seq<char>,
    b: Seq<char>,
    c: Seq<char>,
    d: Seq<char>,
)
    requires
        forall|i: int| 0 <= i < a.len() ==> a[i] != '.' && a[i] != ':',
        forall|i: int| 0 <= i < b.len() ==> b[i] != '.' && b[i] != ':',
        forall|i: int| 0 <= i < c.len() ==> c[i] != '.' && c[i] != ':',
        forall|i: int| 0 <= i < d.len() ==> d[i] != ':',
    ensures
        subnet_of(a + seq!['.'] + (b + seq!['.'] + (c + seq!['.'] + d))) == a + seq!['.'] + (b
            + seq!['.'] + c),
{
    let tail = c + seq!['.'] + d;
    let middle = b + seq!['.'] + tail;
    let all = a + seq!['.'] + middle;
    assert forall|i: int| 0 <= i < all.len() implies all[i] != ':' by {
        if i > a.len() {
            let j = i - a.len() - 1;
            assert(all[i] == middle[j]);
            if j > b.len() {
                let k = j - b.len() - 1;
                assert(middle[j] == tail[k]);
                if k > c.len() {
                    assert(tail[k] == d[k - c.len() - 1]);
                }
            }
        }
    }
    lemma_no_colon(all);
    lemma_up_to_dot(a, middle, 3);
    lemma_up_to_dot(b, tail, 2);
    lemma_up_to_dot(c, d, 1);
}

/// The subnets that are busy are those of the masternodes with a writer or with a dial in
/// flight, one for each.
pub proof fn busy_subnets_are_counted(
    candidates: Seq<MasternodeCandidateV>,
    candidate: MasternodeCandidateV,
    live: Seq<Seq<char>>,
    manager: ManagerV,
)
    ensures
        busy_subnets(seq![], live, manager).len() == 0,
        ({
            let busy = live.contains(candidate.address) || manager.in_state(
                candidate.address,
                PeerConnectionState::Connecting,
            );
            busy_subnets(candidates.push(candidate), live, manager) == (if busy {
                busy_subnets(candidates, live, manager).push(subnet_of(candidate.address))
            } else {
                busy_subnets(candidates, live, manager)
            })
        }),
{
    assert(candidates.push(candidate).drop_last() =~= candidates);
}

/// As many as there is room for come first, in their order.
pub proof fn first_come_first_served(list: Seq<Seq<char>>, n: int, i: int)
    requires
        0 <= n,
    ensures
        n <= list.len() ==> first(list, n).len() == n,
        n > list.len() ==> first(list, n) == list,
        0 <= i < n && i < list.len() ==> first(list, n)[i] == list[i],
{
}

/// No more other peers are dialed than slots are free, and the least loaded come first.
pub proof fn free_slots_are_not_exceeded(
    client: ClientV,
    candidates: Seq<PeerCandidateV>,
    order: Seq<usize>,
    live_total: int,
    live: Seq<Seq<char>>,
    manager: ManagerV,
    now: u64,
    i: int,
    j: int,
)
    requires
        is_load_order(candidates, order),
        0 <= live_total,
    ensures
        ({
            let looked_at = first(
                in_order(candidates, order),
                free_slots(client.max_peers as int, live_total),
            );
            let steps = client.peer_pass(looked_at, live, manager, now).1;
            &&& live_total <= client.max_peers ==> live_total + steps.len() <= client.max_peers
            &&& live_total > client.max_peers ==> steps.len() == 0
            &&& 0 <= i < j < looked_at.len() ==> looked_at[i].load <= looked_at[j].load
        }),
{
    let looked_at = first(
        in_order(candidates, order),
        free_slots(client.max_peers as int, live_total),
    );
    peer_steps_are_right(client, looked_at, live, manager, now);
    if 0 <= i < j < looked_at.len() {
        assert(looked_at[i] == candidates[order[i] as int]);
        assert(looked_at[j] == candidates[order[j] as int]);
    }
}

/// At the end of a session nothing is lost or forgotten while the peer is connected, nor
/// where it is no masternode. A masternode is lost if the session was live, and forgotten
/// if it is not registered any more. Advice is passed over for whitelisted peers only.
pub proof fn only_masternodes_are_lost(
    is_masternode: bool,
    was_live: bool,
    still_connected: bool,
    registered: bool,
    advised: bool,
)
    ensures
        still_connected || !is_masternode ==> !counts_as_loss(
            is_masternode,
            was_live,
            still_connected,
        ) && !is_forgotten(is_masternode, still_connected, registered),
        counts_as_loss(true, was_live, false) <==> was_live,
        is_forgotten(true, false, registered) <==> !registered,
        is_dialed(true, advised),
        is_dialed(false, advised) <==> advised,
{
}

} // verus!
