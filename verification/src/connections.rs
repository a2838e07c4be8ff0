//! Which peers a node is connected to, and which connections it takes or makes.
//!
//! Times are nanoseconds of the manager's own monotonic clock. A function whose
//! name ends in `_at` takes the time as an argument; its namesake reads the clock.

use crate::clock::Clock;
use crate::ip::{host_ranks_above, text_outranks};
use crate::names::holds_name;
use crate::select::{count, drop_all, picked, select, select_entries, Condition, EntryCondition};
use crate::sums::{viewed, views};
use crate::table::Table;
use crate::text::{decimal, decimal_text, join3, told};
use crate::types::duplicate_text;
use vstd::prelude::*;

verus! {

/// The most connections in all.
pub const MAX_TOTAL_CONNECTIONS: usize = 500;

/// The most connections that peers opened.
pub const MAX_INBOUND_CONNECTIONS: usize = 250;

/// The most connections that the node opened.
pub const MAX_OUTBOUND_CONNECTIONS: usize = 250;

/// The most connections with peers that are not whitelisted.
pub const MAX_REGULAR_PEER_CONNECTIONS: usize = 150;

/// The most connections with one address.
pub const MAX_CONNECTIONS_PER_IP: usize = 3;

/// How long a new connection counts towards the rate, in nanoseconds.
pub const CONNECTION_RATE_LIMIT_WINDOW: u64 = 60_000_000_000;

/// The most new connections within that time.
pub const MAX_NEW_CONNECTIONS_PER_WINDOW: usize = 25;

/// How often the list of new connections is cleared, in nanoseconds.
pub const RATE_CLEANUP_INTERVAL: u64 = 10_000_000_000;

/// How long to wait for a peer that ranks higher to dial, in nanoseconds.
pub const PASSIVE_WAIT_TIMEOUT: u64 = 180_000_000_000;

/// How long a connection without a writer has to be seen before it is given up,
/// in nanoseconds.
pub const ZOMBIE_CONFIRM_WINDOW: u64 = 15_000_000_000;

/// Who opened a connection.
#[derive(Clone, Copy, Debug, PartialEq, Eq, Structural)]
pub enum ConnectionDirection {
    Inbound,
    Outbound,
}

/// How far a connection has come.
#[derive(Clone, Copy, Debug, PartialEq, Eq, Structural)]
pub enum PeerConnectionState {
    Disconnected,
    Connecting,
    Connected,
    Reconnecting,
}

/// What is known of the connection with a peer. `generation` tells the sessions
/// of one peer apart.
#[derive(Clone, Copy, Debug)]
pub struct ConnectionInfo {
    pub state: PeerConnectionState,
    pub direction: ConnectionDirection,
    pub generation: u64,
    pub connected_at: Option<u64>,
    pub disconnected_at: Option<u64>,
    pub connection_count: usize,
    pub last_message_at: Option<u64>,
    pub bytes_sent: u64,
    pub bytes_received: u64,
    pub messages_sent: u64,
    pub messages_received: u64,
    pub is_whitelisted: bool,
}

/// How good a connection is: how long it stands, how often it was opened, and what
/// went over it.
#[derive(Clone, Copy, Debug)]
pub struct ConnectionQuality {
    pub uptime: u64,
    pub connection_count: usize,
    pub messages: u128,
    pub bytes_sent: u64,
    pub bytes_received: u64,
}

/// Manages the connections with peers, in both directions.
pub struct ConnectionManager {
    pub connections: Table<String, ConnectionInfo>,
    pub connected_count: usize,
    pub inbound_count: usize,
    pub outbound_count: usize,
    pub next_generation: u64,
    pub local_ip: Option<String>,
    pub recent_connections: Table<u64, String>,
    pub last_cleanup: u64,
    pub zombie_since: Table<String, u64>,
    pub passive_wait_since: Table<String, u64>,
    pub clock: Clock,
}

/// What a manager holds.
#[verifier::ext_equal]
pub struct ManagerV {
    pub connections: Map<Seq<char>, ConnectionInfo>,
    pub connected_count: usize,
    pub inbound_count: usize,
    pub outbound_count: usize,
    pub next_generation: u64,
    pub local_ip: Option<Seq<char>>,
    pub recent_connections: Map<u64, Seq<char>>,
    pub last_cleanup: u64,
    pub zombie_since: Map<Seq<char>, u64>,
    pub passive_wait_since: Map<Seq<char>, u64>,
}

impl View for ConnectionManager {
    type V = ManagerV;

    open spec fn view(&self) -> ManagerV {
        ManagerV {
            connections: self.connections@,
            connected_count: self.connected_count,
            inbound_count: self.inbound_count,
            outbound_count: self.outbound_count,
            next_generation: self.next_generation,
            local_ip: match self.local_ip {
                Some(ip) => Some(ip@),
                None => None,
            },
            recent_connections: viewed(self.recent_connections@),
            last_cleanup: self.last_cleanup,
            zombie_since: self.zombie_since@,
            passive_wait_since: self.passive_wait_since@,
        }
    }
}

/// The time from one moment to a later one; none if the second is not later.
pub open spec fn since(then: u64, now: u64) -> u64 {
    if now >= then {
        (now - then) as u64
    } else {
        0
    }
}

/// One more, going round at the end of the range.
pub open spec fn one_more(n: usize) -> usize {
    if n == usize::MAX {
        0
    } else {
        (n + 1) as usize
    }
}

/// One less, but not below zero.
pub open spec fn one_less(n: usize) -> usize {
    if n == 0 {
        0
    } else {
        (n - 1) as usize
    }
}

/// The number after a session's, going round at the end of the range.
pub open spec fn next_session(n: u64) -> u64 {
    if n == u64::MAX {
        0
    } else {
        (n + 1) as u64
    }
}

/// One more, but not above the end of the range.
pub open spec fn counted_up(n: usize) -> usize {
    if n == usize::MAX {
        n
    } else {
        (n + 1) as usize
    }
}

/// A connection that has just been made.
pub open spec fn opened(
    direction: ConnectionDirection,
    generation: u64,
    now: u64,
    connection_count: usize,
    is_whitelisted: bool,
) -> ConnectionInfo {
    ConnectionInfo {
        state: PeerConnectionState::Connected,
        direction,
        generation,
        connected_at: Some(now),
        disconnected_at: None,
        connection_count,
        last_message_at: Some(now),
        bytes_sent: 0,
        bytes_received: 0,
        messages_sent: 0,
        messages_received: 0,
        is_whitelisted,
    }
}

/// An outbound connection that is not there yet.
pub open spec fn attempted(
    state: PeerConnectionState,
    generation: u64,
    disconnected_at: Option<u64>,
    last_message_at: Option<u64>,
) -> ConnectionInfo {
    ConnectionInfo {
        state,
        direction: ConnectionDirection::Outbound,
        generation,
        connected_at: None,
        disconnected_at,
        connection_count: 0,
        last_message_at,
        bytes_sent: 0,
        bytes_received: 0,
        messages_sent: 0,
        messages_received: 0,
        is_whitelisted: false,
    }
}

/// Whether a connection stands.
pub open spec fn stands(info: ConnectionInfo) -> bool {
    info.state == PeerConnectionState::Connected
}

/// Whether a connection stands and was opened from one side.
pub open spec fn stands_from(info: ConnectionInfo, direction: ConnectionDirection) -> bool {
    info.state == PeerConnectionState::Connected && info.direction == direction
}

impl ManagerV {
    /// What is known of the connection with a peer.
    pub open spec fn slot(self, ip: Seq<char>) -> Option<ConnectionInfo> {
        if self.connections.contains_key(ip) {
            Some(self.connections[ip])
        } else {
            None
        }
    }

    /// Whether a peer's connection is in a state.
    pub open spec fn in_state(self, ip: Seq<char>, state: PeerConnectionState) -> bool {
        self.connections.contains_key(ip) && self.connections[ip].state == state
    }

    /// How many connections stand.
    pub open spec fn standing(self) -> nat {
        picked(self.connections, |info: ConnectionInfo| stands(info)).len()
    }

    /// How many connections stand that were opened from one side.
    pub open spec fn standing_from(self, direction: ConnectionDirection) -> nat {
        picked(self.connections, |info: ConnectionInfo| stands_from(info, direction)).len()
    }

    /// How many connections stand with peers that are whitelisted, or that are not.
    pub open spec fn standing_listed(self, whitelisted: bool) -> nat {
        picked(
            self.connections,
            |info: ConnectionInfo| stands(info) && info.is_whitelisted == whitelisted,
        ).len()
    }

    /// How many connections stand with one address.
    pub open spec fn standing_with(self, ip: Seq<char>) -> nat {
        if self.in_state(ip, PeerConnectionState::Connected) {
            1
        } else {
            0
        }
    }

    /// With the counters set to what they count.
    pub open spec fn reconciled(self) -> ManagerV {
        ManagerV {
            connected_count: self.standing() as usize,
            inbound_count: self.standing_from(ConnectionDirection::Inbound) as usize,
            outbound_count: self.standing_from(ConnectionDirection::Outbound) as usize,
            ..self
        }
    }

    /// Whether the counters say what they count.
    pub open spec fn counts_hold(self) -> bool {
        &&& self.connections.dom().finite()
        &&& self.connected_count == self.standing()
        &&& self.inbound_count == self.standing_from(ConnectionDirection::Inbound)
        &&& self.outbound_count == self.standing_from(ConnectionDirection::Outbound)
    }

    /// With another entry for a peer.
    pub open spec fn with(self, ip: Seq<char>, info: ConnectionInfo) -> ManagerV {
        ManagerV { connections: self.connections.insert(ip, info), ..self }
    }

    /// With one more connection counted.
    pub open spec fn grown(self, direction: ConnectionDirection) -> ManagerV {
        let more = ManagerV { connected_count: one_more(self.connected_count), ..self };
        match direction {
            ConnectionDirection::Inbound => ManagerV {
                inbound_count: one_more(self.inbound_count),
                ..more
            },
            ConnectionDirection::Outbound => ManagerV {
                outbound_count: one_more(self.outbound_count),
                ..more
            },
        }
    }

    /// With one connection less counted.
    pub open spec fn shrunk(self, direction: ConnectionDirection) -> ManagerV {
        let less = ManagerV { connected_count: one_less(self.connected_count), ..self };
        match direction {
            ConnectionDirection::Inbound => ManagerV {
                inbound_count: one_less(self.inbound_count),
                ..less
            },
            ConnectionDirection::Outbound => ManagerV {
                outbound_count: one_less(self.outbound_count),
                ..less
            },
        }
    }

    /// With the next session number given out.
    pub open spec fn numbered(self) -> ManagerV {
        ManagerV { next_generation: next_session(self.next_generation), ..self }
    }

    /// With a new connection on the list for the rate.
    pub open spec fn noted(self, ip: Seq<char>, now: u64) -> ManagerV {
        ManagerV { recent_connections: self.recent_connections.insert(now, ip), ..self }
    }

    /// With no wait for a peer to dial.
    pub open spec fn not_waiting(self, ip: Seq<char>) -> ManagerV {
        ManagerV { passive_wait_since: self.passive_wait_since.remove(ip), ..self }
    }

    /// Whether a moment is too old for the rate.
    pub open spec fn too_old(moment: u64, now: u64) -> bool {
        moment <= now - CONNECTION_RATE_LIMIT_WINDOW
    }

    /// With old entries off the list for the rate, unless that was done lately.
    pub open spec fn pruned(self, now: u64) -> ManagerV {
        if since(self.last_cleanup, now) < RATE_CLEANUP_INTERVAL {
            self
        } else {
            ManagerV {
                recent_connections: self.recent_connections.remove_keys(
                    self.recent_connections.dom().filter(|t: u64| ManagerV::too_old(t, now)),
                ),
                last_cleanup: now,
                ..self
            }
        }
    }

    /// Whether the node ranks above a peer, and so is the one to dial.
    pub open spec fn ranks_above(self, ip: Seq<char>) -> bool {
        match self.local_ip {
            Some(local) => text_outranks(local, ip),
            None => true,
        }
    }

    /// Whether the rate decides on an inbound connection.
    pub open spec fn asks_rate(self, ip: Seq<char>, whitelisted: bool) -> bool {
        &&& !whitelisted
        &&& self.standing() < MAX_TOTAL_CONNECTIONS
        &&& self.standing_listed(false) < MAX_REGULAR_PEER_CONNECTIONS
        &&& self.standing_from(ConnectionDirection::Inbound) < MAX_INBOUND_CONNECTIONS
        &&& self.standing_with(ip) < MAX_CONNECTIONS_PER_IP
    }

    /// After the limits on inbound connections were looked at.
    pub open spec fn after_check(self, ip: Seq<char>, whitelisted: bool, now: u64) -> ManagerV {
        if self.asks_rate(ip, whitelisted) {
            self.reconciled().pruned(now)
        } else {
            self.reconciled()
        }
    }

    /// Whether one more connection with a peer can be counted, if a dial is in
    /// flight.
    pub open spec fn countable(self, ip: Seq<char>) -> bool {
        match self.slot(ip) {
            Some(info) => info.state == PeerConnectionState::Connecting ==> info.connection_count
                < usize::MAX,
            None => true,
        }
    }

    /// Whether there is room for an inbound connection. A whitelisted peer is held
    /// to the limit on all connections only.
    pub open spec fn room(self, ip: Seq<char>, whitelisted: bool, now: u64) -> Result<(), Seq<char>> {
        let recent = self.pruned(now).recent_connections.dom().len();
        if self.standing() >= MAX_TOTAL_CONNECTIONS {
            Err("Max total connections reached: "@ + decimal(self.standing()) + "/500"@)
        } else if whitelisted {
            Ok(())
        } else if self.standing_listed(false) >= MAX_REGULAR_PEER_CONNECTIONS {
            Err(
                "Max regular peer connections reached: "@ + decimal(self.standing_listed(false))
                    + "/150 (reserved 100 slots for masternodes)"@,
            )
        } else if self.standing_from(ConnectionDirection::Inbound) >= MAX_INBOUND_CONNECTIONS {
            Err(
                "Max inbound connections reached: "@ + decimal(
                    self.standing_from(ConnectionDirection::Inbound),
                ) + "/250"@,
            )
        } else if self.standing_with(ip) >= MAX_CONNECTIONS_PER_IP {
            Err("Max connections per IP reached: "@ + decimal(self.standing_with(ip)) + "/3"@)
        } else if recent >= MAX_NEW_CONNECTIONS_PER_WINDOW {
            Err(
                "Connection rate limit exceeded: "@ + decimal(recent)
                    + " connections in last minute"@,
            )
        } else {
            Ok(())
        }
    }

    /// Whether there is room for an outbound connection.
    pub open spec fn room_outbound(self) -> Result<(), Seq<char>> {
        if self.standing() >= MAX_TOTAL_CONNECTIONS {
            Err("Max total connections reached: "@ + decimal(self.standing()) + "/500"@)
        } else if self.standing_from(ConnectionDirection::Outbound) >= MAX_OUTBOUND_CONNECTIONS {
            Err(
                "Max outbound connections reached: "@ + decimal(
                    self.standing_from(ConnectionDirection::Outbound),
                ) + "/250"@,
            )
        } else {
            Ok(())
        }
    }

    /// After a peer opened a connection, and the number of the session if it was
    /// accepted.
    pub open spec fn accepted(self, ip: Seq<char>, whitelisted: bool, now: u64) -> (
        ManagerV,
        Option<u64>,
    ) {
        let checked = self.after_check(ip, whitelisted, now);
        let session = self.next_generation;
        let ready = checked.not_waiting(ip).numbered();
        let inbound = ConnectionDirection::Inbound;
        if self.room(ip, whitelisted, now) is Err {
            (checked, None)
        } else {
            match self.slot(ip) {
                None => (
                    ready.with(ip, opened(inbound, session, now, 1, whitelisted)).noted(
                        ip,
                        now,
                    ).grown(inbound),
                    Some(session),
                ),
                Some(info) => {
                    let again = opened(
                        inbound,
                        session,
                        now,
                        counted_up(info.connection_count),
                        whitelisted,
                    );
                    if info.state == PeerConnectionState::Disconnected {
                        (
                            ready.with(ip, opened(inbound, session, now, 1, whitelisted)).noted(
                                ip,
                                now,
                            ).grown(inbound),
                            Some(session),
                        )
                    } else if info.direction == ConnectionDirection::Outbound {
                        if !whitelisted && self.ranks_above(ip) {
                            (ready, None)
                        } else if stands(info) {
                            (
                                ManagerV {
                                    outbound_count: one_less(ready.outbound_count),
                                    inbound_count: one_more(ready.inbound_count),
                                    ..ready.with(ip, again)
                                },
                                Some(session),
                            )
                        } else {
                            (ready.with(ip, again).grown(inbound), Some(session))
                        }
                    } else if whitelisted {
                        if stands(info) {
                            (ready.with(ip, again).noted(ip, now), Some(session))
                        } else {
                            (ready.with(ip, again).grown(inbound).noted(ip, now), Some(session))
                        }
                    } else {
                        (ready, None)
                    }
                },
            }
        }
    }

    /// After a connection was taken as inbound.
    pub open spec fn taken_inbound(self, ip: Seq<char>, now: u64) -> (ManagerV, Option<u64>) {
        let noted = self.noted(ip, now);
        let session = self.next_generation;
        match self.slot(ip) {
            Some(info) => if info.state == PeerConnectionState::Connecting {
                (
                    noted.numbered().with(
                        ip,
                        ConnectionInfo {
                            state: PeerConnectionState::Connected,
                            direction: ConnectionDirection::Inbound,
                            generation: session,
                            connected_at: Some(now),
                            connection_count: (info.connection_count + 1) as usize,
                            ..info
                        },
                    ).grown(ConnectionDirection::Inbound),
                    Some(session),
                )
            } else {
                (noted, None)
            },
            None => (
                noted.numbered().with(
                    ip,
                    opened(ConnectionDirection::Inbound, session, now, 1, false),
                ).grown(ConnectionDirection::Inbound),
                Some(session),
            ),
        }
    }

    /// After an inbound session ended, and whether it still held the peer's place.
    pub open spec fn inbound_ended(self, ip: Seq<char>, session: u64, now: u64) -> (ManagerV, bool) {
        match self.slot(ip) {
            Some(info) => if info.generation == session && stands(info) {
                let gone = self.with(
                    ip,
                    ConnectionInfo {
                        state: PeerConnectionState::Disconnected,
                        disconnected_at: Some(now),
                        ..info
                    },
                );
                (
                    if info.direction == ConnectionDirection::Inbound {
                        gone.shrunk(ConnectionDirection::Inbound)
                    } else {
                        ManagerV { connected_count: one_less(self.connected_count), ..gone }
                    },
                    true,
                )
            } else {
                (self, false)
            },
            None => (self, false),
        }
    }

    /// After an outbound session ended, and whether it still held the peer's place.
    pub open spec fn outbound_ended(self, ip: Seq<char>, session: u64, now: u64) -> (
        ManagerV,
        bool,
    ) {
        match self.slot(ip) {
            Some(info) => if info.direction == ConnectionDirection::Outbound && info.generation
                == session {
                (self.dropped(ip, now), true)
            } else {
                (self, false)
            },
            None => (self, false),
        }
    }

    /// After a peer was taken as disconnected.
    pub open spec fn dropped(self, ip: Seq<char>, now: u64) -> ManagerV {
        match self.slot(ip) {
            Some(info) => {
                let gone = self.with(
                    ip,
                    ConnectionInfo {
                        state: PeerConnectionState::Disconnected,
                        disconnected_at: Some(now),
                        ..info
                    },
                );
                if stands(info) {
                    gone.shrunk(info.direction)
                } else {
                    gone
                }
            },
            None => self,
        }
    }

    /// After peers were taken as disconnected, one after the other.
    pub open spec fn all_dropped(self, ips: Seq<Seq<char>>, now: u64) -> ManagerV
        decreases ips.len(),
    {
        if ips.len() == 0 {
            self
        } else {
            self.all_dropped(ips.drop_last(), now).dropped(ips.last(), now)
        }
    }

    /// After a dial was begun, and whether it may go on.
    pub open spec fn dialed(self, ip: Seq<char>, now: u64) -> (ManagerV, bool) {
        let session = self.next_generation;
        match self.slot(ip) {
            Some(info) => if info.state == PeerConnectionState::Disconnected || info.state
                == PeerConnectionState::Reconnecting {
                (
                    self.numbered().with(
                        ip,
                        ConnectionInfo {
                            state: PeerConnectionState::Connecting,
                            direction: ConnectionDirection::Outbound,
                            generation: session,
                            last_message_at: Some(now),
                            ..info
                        },
                    ),
                    true,
                )
            } else {
                (self, false)
            },
            None => (
                self.numbered().with(
                    ip,
                    attempted(PeerConnectionState::Connecting, session, None, Some(now)),
                ),
                true,
            ),
        }
    }

    /// After a dial succeeded, and the number of the session if the place was still
    /// free.
    pub open spec fn reached(self, ip: Seq<char>, now: u64) -> (ManagerV, Option<u64>) {
        let session = self.next_generation;
        match self.slot(ip) {
            Some(info) => if info.state == PeerConnectionState::Connecting {
                let made = self.not_waiting(ip).numbered().with(
                    ip,
                    ConnectionInfo {
                        state: PeerConnectionState::Connected,
                        generation: session,
                        connected_at: Some(now),
                        last_message_at: Some(now),
                        connection_count: (info.connection_count + 1) as usize,
                        ..info
                    },
                );
                (
                    if info.direction == ConnectionDirection::Outbound {
                        made.grown(ConnectionDirection::Outbound)
                    } else {
                        ManagerV { connected_count: one_more(self.connected_count), ..made }
                    },
                    Some(session),
                )
            } else {
                (self, None)
            },
            None => (self, None),
        }
    }

    /// After a dial failed.
    pub open spec fn failed(self, ip: Seq<char>, now: u64) -> ManagerV {
        match self.slot(ip) {
            Some(info) => self.with(
                ip,
                ConnectionInfo {
                    state: PeerConnectionState::Reconnecting,
                    disconnected_at: Some(now),
                    ..info
                },
            ),
            None => self.numbered().with(
                ip,
                attempted(
                    PeerConnectionState::Reconnecting,
                    self.next_generation,
                    Some(now),
                    None,
                ),
            ),
        }
    }

    /// After a dial in flight was given up, and whether there was one.
    pub open spec fn aborted(self, ip: Seq<char>, now: u64) -> (ManagerV, bool) {
        match self.slot(ip) {
            Some(info) => if info.state == PeerConnectionState::Connecting {
                (
                    self.with(
                        ip,
                        ConnectionInfo {
                            state: PeerConnectionState::Disconnected,
                            disconnected_at: Some(now),
                            ..info
                        },
                    ),
                    true,
                )
            } else {
                (self, false)
            },
            None => (self, false),
        }
    }

    /// Without a peer.
    pub open spec fn forgotten(self, ip: Seq<char>) -> ManagerV {
        let without = ManagerV { connections: self.connections.remove(ip), ..self };
        match self.slot(ip) {
            Some(info) => if stands(info) {
                without.shrunk(info.direction)
            } else {
                without
            },
            None => without,
        }
    }

    /// After a look whether a wait for a peer to dial has lasted long enough; the
    /// first look starts it.
    pub open spec fn waited(self, ip: Seq<char>, timeout: u64, now: u64) -> (ManagerV, bool) {
        if self.passive_wait_since.contains_key(ip) {
            (self, since(self.passive_wait_since[ip], now) > timeout)
        } else {
            (
                ManagerV { passive_wait_since: self.passive_wait_since.insert(ip, now), ..self },
                false,
            )
        }
    }

    /// Whether a connection stands that has no writer.
    pub open spec fn suspect(self, ip: Seq<char>, live: Seq<Seq<char>>) -> bool {
        self.in_state(ip, PeerConnectionState::Connected) && !live.contains(ip)
    }

    /// Whether a connection was without a writer before, and long enough ago.
    pub open spec fn confirmed(self, ip: Seq<char>, live: Seq<Seq<char>>, window: u64, now: u64) -> bool {
        &&& self.suspect(ip, live)
        &&& self.zombie_since.contains_key(ip)
        &&& since(self.zombie_since[ip], now) >= window
    }

    /// The connections without a writer that are watched on.
    pub open spec fn watched(self, live: Seq<Seq<char>>, window: u64, now: u64) -> Map<
        Seq<char>,
        u64,
    > {
        Map::new(
            |ip: Seq<char>| self.suspect(ip, live) && !self.confirmed(ip, live, window, now),
            |ip: Seq<char>|
                if self.zombie_since.contains_key(ip) {
                    self.zombie_since[ip]
                } else {
                    now
                },
        )
    }

    /// Whether a dial has been in flight for too long.
    pub open spec fn stuck(info: ConnectionInfo, timeout: u64, now: u64) -> bool {
        &&& info.state == PeerConnectionState::Connecting
        &&& info.last_message_at matches Some(started) && since(started, now) > timeout
    }

    /// With dials given up that have been in flight for too long.
    pub open spec fn unstuck(self, timeout: u64, now: u64) -> ManagerV {
        ManagerV {
            connections: Map::new(
                |ip: Seq<char>| self.connections.contains_key(ip),
                |ip: Seq<char>|
                    if ManagerV::stuck(self.connections[ip], timeout, now) {
                        ConnectionInfo {
                            state: PeerConnectionState::Disconnected,
                            disconnected_at: Some(now),
                            ..self.connections[ip]
                        }
                    } else {
                        self.connections[ip]
                    },
            ),
            ..self
        }
    }

    /// With peers whitelisted that are on a list, and no others.
    pub open spec fn listed(self, ips: Seq<Seq<char>>) -> ManagerV {
        ManagerV {
            connections: Map::new(
                |ip: Seq<char>| self.connections.contains_key(ip),
                |ip: Seq<char>|
                    ConnectionInfo { is_whitelisted: ips.contains(ip), ..self.connections[ip] },
            ),
            ..self
        }
    }

    /// Whether a standing connection has been silent for too long.
    pub open spec fn silent(info: ConnectionInfo, timeout: u64, now: u64) -> bool {
        &&& stands(info)
        &&& info.last_message_at matches Some(last) && since(last, now) > timeout
    }

    /// After a message from a peer.
    pub open spec fn heard(self, ip: Seq<char>, now: u64) -> ManagerV {
        match self.slot(ip) {
            Some(info) => self.with(ip, ConnectionInfo { last_message_at: Some(now), ..info }),
            None => self,
        }
    }

    /// With a peer whitelisted or not, if it is known.
    pub open spec fn marked(self, ip: Seq<char>, whitelisted: bool) -> ManagerV {
        match self.slot(ip) {
            Some(info) => self.with(ip, ConnectionInfo { is_whitelisted: whitelisted, ..info }),
            None => self,
        }
    }

    /// With a peer in a state, if it is known.
    pub open spec fn moved(self, ip: Seq<char>, state: PeerConnectionState) -> ManagerV {
        match self.slot(ip) {
            Some(info) => self.with(ip, ConnectionInfo { state, ..info }),
            None => self,
        }
    }

    /// How good the connection with a peer is.
    pub open spec fn quality(self, ip: Seq<char>, now: u64) -> Option<ConnectionQuality> {
        match self.slot(ip) {
            Some(info) => Some(
                ConnectionQuality {
                    uptime: match info.connected_at {
                        Some(at) => since(at, now),
                        None => 0,
                    },
                    connection_count: info.connection_count,
                    messages: (info.messages_received + info.messages_sent) as u128,
                    bytes_sent: info.bytes_sent,
                    bytes_received: info.bytes_received,
                },
            ),
            None => None,
        }
    }

    /// How long ago a peer left.
    pub open spec fn gone_for(self, ip: Seq<char>, now: u64) -> Option<u64> {
        match self.slot(ip) {
            Some(info) => match info.disconnected_at {
                Some(at) => Some(since(at, now)),
                None => None,
            },
            None => None,
        }
    }
}

struct Standing {}

impl Condition<ConnectionInfo> for Standing {
    closed spec fn holds(&self, value: ConnectionInfo) -> bool {
        stands(value)
    }

    fn check(&self, value: &ConnectionInfo) -> (held: bool) {
        value.state == PeerConnectionState::Connected
    }
}

struct StandingFrom {
    direction: ConnectionDirection,
}

impl Condition<ConnectionInfo> for StandingFrom {
    closed spec fn holds(&self, value: ConnectionInfo) -> bool {
        stands_from(value, self.direction)
    }

    fn check(&self, value: &ConnectionInfo) -> (held: bool) {
        value.state == PeerConnectionState::Connected && value.direction == self.direction
    }
}

struct StandingListed {
    whitelisted: bool,
}

impl Condition<ConnectionInfo> for StandingListed {
    closed spec fn holds(&self, value: ConnectionInfo) -> bool {
        stands(value) && value.is_whitelisted == self.whitelisted
    }

    fn check(&self, value: &ConnectionInfo) -> (held: bool) {
        value.state == PeerConnectionState::Connected && value.is_whitelisted == self.whitelisted
    }
}

struct InState {
    state: PeerConnectionState,
}

impl Condition<ConnectionInfo> for InState {
    closed spec fn holds(&self, value: ConnectionInfo) -> bool {
        value.state == self.state
    }

    fn check(&self, value: &ConnectionInfo) -> (held: bool) {
        value.state == self.state
    }
}

struct Silent {
    timeout: u64,
    now: u64,
}

impl Condition<ConnectionInfo> for Silent {
    closed spec fn holds(&self, value: ConnectionInfo) -> bool {
        ManagerV::silent(value, self.timeout, self.now)
    }

    fn check(&self, value: &ConnectionInfo) -> (held: bool) {
        match value.last_message_at {
            Some(last) => value.state == PeerConnectionState::Connected && elapsed(last, self.now)
                > self.timeout,
            None => false,
        }
    }
}

struct TooOld {
    now: u64,
}

impl EntryCondition<u64, String> for TooOld {
    closed spec fn holds(&self, key: u64, value: String) -> bool {
        ManagerV::too_old(key, self.now)
    }

    fn check(&self, key: &u64, value: &String) -> (held: bool) {
        self.now >= CONNECTION_RATE_LIMIT_WINDOW && *key <= self.now - CONNECTION_RATE_LIMIT_WINDOW
    }
}

struct Suspect<'a> {
    live: &'a Vec<String>,
}

impl<'a> EntryCondition<String, ConnectionInfo> for Suspect<'a> {
    closed spec fn holds(&self, key: Seq<char>, value: ConnectionInfo) -> bool {
        stands(value) && !views(self.live@).contains(key)
    }

    fn check(&self, key: &String, value: &ConnectionInfo) -> (held: bool) {
        value.state == PeerConnectionState::Connected && !holds_name(self.live, key.as_str())
    }
}

fn elapsed(then: u64, now: u64) -> (nanos: u64)
    ensures
        nanos == since(then, now),
{
    if now >= then {
        now - then
    } else {
        0
    }
}

fn increased(n: usize) -> (more: usize)
    ensures
        more == one_more(n),
{
    if n == usize::MAX {
        0
    } else {
        n + 1
    }
}

fn decreased(n: usize) -> (less: usize)
    ensures
        less == one_less(n),
{
    if n == 0 {
        0
    } else {
        n - 1
    }
}

fn open_connection(
    direction: ConnectionDirection,
    generation: u64,
    now: u64,
    connection_count: usize,
    is_whitelisted: bool,
) -> (info: ConnectionInfo)
    ensures
        info == opened(direction, generation, now, connection_count, is_whitelisted),
{
    ConnectionInfo {
        state: PeerConnectionState::Connected,
        direction,
        generation,
        connected_at: Some(now),
        disconnected_at: None,
        connection_count,
        last_message_at: Some(now),
        bytes_sent: 0,
        bytes_received: 0,
        messages_sent: 0,
        messages_received: 0,
        is_whitelisted,
    }
}

fn attempt_connection(
    state: PeerConnectionState,
    generation: u64,
    disconnected_at: Option<u64>,
    last_message_at: Option<u64>,
) -> (info: ConnectionInfo)
    ensures
        info == attempted(state, generation, disconnected_at, last_message_at),
{
    ConnectionInfo {
        state,
        direction: ConnectionDirection::Outbound,
        generation,
        connected_at: None,
        disconnected_at,
        connection_count: 0,
        last_message_at,
        bytes_sent: 0,
        bytes_received: 0,
        messages_sent: 0,
        messages_received: 0,
        is_whitelisted: false,
    }
}

fn limit_text(start: &str, n: usize, end: &str) -> (text: String)
    ensures
        text@ == start@ + decimal(n as nat) + end@,
{
    let number = decimal_text(n as u64);
    join3(start, number.as_str(), end)
}

/// The keys of a map of texts are those of the map that was viewed.
proof fn lemma_viewed_dom(m: Map<u64, String>)
    ensures
        viewed(m).dom() == m.dom(),
{
    assert(viewed(m).dom() =~= m.dom());
}

impl ConnectionManager {
    /// What every operation keeps.
    pub open spec fn wf(&self) -> bool {
        &&& self.connections.wf()
        &&& self.recent_connections.wf()
        &&& self.zombie_since.wf()
        &&& self.passive_wait_since.wf()
    }

    /// A manager without connections.
    pub fn new() -> (manager: Self)
        ensures
            manager.wf(),
            manager@ == (ManagerV {
                connections: Map::empty(),
                connected_count: 0,
                inbound_count: 0,
                outbound_count: 0,
                next_generation: 1,
                local_ip: None,
                recent_connections: Map::empty(),
                last_cleanup: 0,
                zombie_since: Map::empty(),
                passive_wait_since: Map::empty(),
            }),
    {
        let manager = ConnectionManager {
            connections: Table::new(),
            connected_count: 0,
            inbound_count: 0,
            outbound_count: 0,
            next_generation: 1,
            local_ip: None,
            recent_connections: Table::new(),
            last_cleanup: 0,
            zombie_since: Table::new(),
            passive_wait_since: Table::new(),
            clock: Clock::new(),
        };
        assert(manager@.recent_connections =~= Map::empty());
        manager
    }

    fn slot(&self, peer_ip: &str) -> (info: Option<ConnectionInfo>)
        requires
            self.wf(),
        ensures
            info == self@.slot(peer_ip@),
    {
        let key = String::from_str(peer_ip);
        match self.connections.get(&key) {
            Some(info) => Some(*info),
            None => None,
        }
    }

    fn put(&mut self, peer_ip: &str, info: ConnectionInfo)
        requires
            old(self).wf(),
        ensures
            final(self).wf(),
            final(self)@ == old(self)@.with(peer_ip@, info),
    {
        self.connections.insert(String::from_str(peer_ip), info);
    }

    fn alloc_generation(&mut self) -> (generation: u64)
        requires
            old(self).wf(),
        ensures
            final(self).wf(),
            generation == old(self)@.next_generation,
            final(self)@ == old(self)@.numbered(),
    {
        let generation: u64 = self.next_generation;
        self.next_generation = if generation == u64::MAX {
            0
        } else {
            generation + 1
        };
        generation
    }

    fn grow(&mut self, direction: ConnectionDirection)
        requires
            old(self).wf(),
        ensures
            final(self).wf(),
            final(self)@ == old(self)@.grown(direction),
    {
        self.connected_count = increased(self.connected_count);
        match direction {
            ConnectionDirection::Inbound => {
                self.inbound_count = increased(self.inbound_count);
            },
            ConnectionDirection::Outbound => {
                self.outbound_count = increased(self.outbound_count);
            },
        }
    }

    fn shrink(&mut self, direction: ConnectionDirection)
        requires
            old(self).wf(),
        ensures
            final(self).wf(),
            final(self)@ == old(self)@.shrunk(direction),
    {
        self.connected_count = decreased(self.connected_count);
        match direction {
            ConnectionDirection::Inbound => {
                self.inbound_count = decreased(self.inbound_count);
            },
            ConnectionDirection::Outbound => {
                self.outbound_count = decreased(self.outbound_count);
            },
        }
    }

    fn record_new_connection(&mut self, peer_ip: &str, now: u64)
        requires
            old(self).wf(),
        ensures
            final(self).wf(),
            final(self)@ == old(self)@.noted(peer_ip@, now),
    {
        let ghost before = self@;
        self.recent_connections.insert(now, String::from_str(peer_ip));
        assert(self@.recent_connections =~= before.recent_connections.insert(now, peer_ip@));
    }

    fn clear_passive_wait(&mut self, peer_ip: &str)
        requires
            old(self).wf(),
        ensures
            final(self).wf(),
            final(self)@ == old(self)@.not_waiting(peer_ip@),
    {
        let key = String::from_str(peer_ip);
        let _ = self.passive_wait_since.remove(&key);
    }

    fn cleanup_old_connections(&mut self, now: u64)
        requires
            old(self).wf(),
        ensures
            final(self).wf(),
            final(self)@ == old(self)@.pruned(now),
    {
        if elapsed(self.last_cleanup, now) < RATE_CLEANUP_INTERVAL {
            return;
        }
        let ghost before = self@;
        let condition = TooOld { now };
        let old_ones = select_entries(&self.recent_connections, &condition);
        drop_all(&mut self.recent_connections, &old_ones);
        self.last_cleanup = now;
        proof {
            let gone = before.recent_connections.dom().filter(|t: u64| ManagerV::too_old(t, now));
            assert forall|t: u64| views(old_ones@).to_set().contains(t) <==> gone.contains(t) by {
                assert(views(old_ones@).contains(t) <==> views(old_ones@).to_set().contains(t));
            }
            assert(views(old_ones@).to_set() =~= gone);
            assert(self@.recent_connections =~= before.recent_connections.remove_keys(gone));
        }
    }

    fn recalculate_counts(&self) -> (counts: (usize, usize, usize))
        requires
            self.wf(),
        ensures
            counts.0 == self@.standing(),
            counts.1 == self@.standing_from(ConnectionDirection::Inbound),
            counts.2 == self@.standing_from(ConnectionDirection::Outbound),
    {
        let (all, from, to) = (
            Standing {  },
            StandingFrom { direction: ConnectionDirection::Inbound },
            StandingFrom { direction: ConnectionDirection::Outbound },
        );
        let connected: usize = count(&self.connections, &all);
        let inbound: usize = count(&self.connections, &from);
        let outbound: usize = count(&self.connections, &to);
        proof {
            let m = self.connections@;
            assert(picked(m, |v: ConnectionInfo| all.holds(v)) =~= picked(
                m,
                |info: ConnectionInfo| stands(info),
            ));
            assert(picked(m, |v: ConnectionInfo| from.holds(v)) =~= picked(
                m,
                |info: ConnectionInfo| stands_from(info, ConnectionDirection::Inbound),
            ));
            assert(picked(m, |v: ConnectionInfo| to.holds(v)) =~= picked(
                m,
                |info: ConnectionInfo| stands_from(info, ConnectionDirection::Outbound),
            ));
        }
        (connected, inbound, outbound)
    }

    fn reconcile_counts(&mut self) -> (counts: (usize, usize, usize))
        requires
            old(self).wf(),
        ensures
            final(self).wf(),
            final(self)@ == old(self)@.reconciled(),
            counts.0 == old(self)@.standing(),
            counts.1 == old(self)@.standing_from(ConnectionDirection::Inbound),
            counts.2 == old(self)@.standing_from(ConnectionDirection::Outbound),
    {
        let counts = self.recalculate_counts();
        self.connected_count = counts.0;
        self.inbound_count = counts.1;
        self.outbound_count = counts.2;
        counts
    }

    fn count_listed(&self, whitelisted: bool) -> (n: usize)
        requires
            self.wf(),
        ensures
            n == self@.standing_listed(whitelisted),
    {
        let condition = StandingListed { whitelisted };
        let n: usize = count(&self.connections, &condition);
        assert(picked(self.connections@, |v: ConnectionInfo| condition.holds(v)) =~= picked(
            self.connections@,
            |info: ConnectionInfo| stands(info) && info.is_whitelisted == whitelisted,
        ));
        n
    }

    fn list_in_state(&self, state: PeerConnectionState) -> (peers: Vec<String>)
        requires
            self.wf(),
        ensures
            views(peers@).no_duplicates(),
            forall|ip: Seq<char>| #[trigger] views(peers@).contains(ip) <==> self@.in_state(ip, state),
    {
        select(&self.connections, &InState { state })
    }

    /// The number of the session with a peer.
    pub fn connection_generation(&self, peer_ip: &str) -> (generation: Option<u64>)
        requires
            self.wf(),
        ensures
            generation == (match self@.slot(peer_ip@) {
                Some(info) => Some(info.generation),
                None => None,
            }),
    {
        match self.slot(peer_ip) {
            Some(info) => Some(info.generation),
            None => None,
        }
    }

    /// Sets the node's own address, once.
    pub fn set_local_ip(&mut self, ip: String)
        requires
            old(self).wf(),
        ensures
            final(self).wf(),
            final(self)@ == (ManagerV {
                local_ip: match old(self)@.local_ip {
                    Some(known) => Some(known),
                    None => Some(ip@),
                },
                ..old(self)@
            }),
    {
        if self.local_ip.is_none() {
            self.local_ip = Some(ip);
        }
    }

    /// The node's own address.
    pub fn get_local_ip(&self) -> (ip: Option<String>)
        ensures
            match ip {
                Some(text) => self@.local_ip == Some(text@),
                None => self@.local_ip is None,
            },
    {
        duplicate_text(&self.local_ip)
    }

    /// Who opened the connection with a peer.
    pub fn connection_direction(&self, peer_ip: &str) -> (direction: Option<ConnectionDirection>)
        requires
            self.wf(),
        ensures
            direction == (match self@.slot(peer_ip@) {
                Some(info) => Some(info.direction),
                None => None,
            }),
    {
        match self.slot(peer_ip) {
            Some(info) => Some(info.direction),
            None => None,
        }
    }

    /// Who opened the connection with a peer, if it stands.
    pub fn direction_if_connected(&self, peer_ip: &str) -> (direction: Option<ConnectionDirection>)
        requires
            self.wf(),
        ensures
            direction == (match self@.slot(peer_ip@) {
                Some(info) => if stands(info) {
                    Some(info.direction)
                } else {
                    None
                },
                None => None,
            }),
    {
        match self.slot(peer_ip) {
            Some(info) => if info.state == PeerConnectionState::Connected {
                Some(info.direction)
            } else {
                None
            },
            None => None,
        }
    }

    fn ip_ranks_above_peer(&self, peer_ip: &str) -> (above: bool)
        ensures
            above == self@.ranks_above(peer_ip@),
    {
        match &self.local_ip {
            Some(local) => host_ranks_above(local.as_str(), peer_ip),
            None => true,
        }
    }

    /// Whether the node is the one to dial a peer: the higher address dials the
    /// lower one. An unknown or unspecified address of one's own dials.
    pub fn is_preferred_dialer(&self, peer_ip: &str) -> (preferred: bool)
        ensures
            preferred == self@.ranks_above(peer_ip@),
    {
        self.ip_ranks_above_peer(peer_ip)
    }

    /// Whether a peer that ranks higher has not dialed for longer than a timeout.
    /// The first call starts the wait.
    pub fn passive_wait_expired_after_at(&mut self, peer_ip: &str, timeout: u64, now: u64) -> (expired:
        bool)
        requires
            old(self).wf(),
        ensures
            final(self).wf(),
            (final(self)@, expired) == old(self)@.waited(peer_ip@, timeout, now),
    {
        let key = String::from_str(peer_ip);
        match self.passive_wait_since.get(&key) {
            Some(begun) => elapsed(*begun, now) > timeout,
            None => {
                self.passive_wait_since.insert(key, now);
                false
            },
        }
    }

    /// Whether a peer that ranks higher has not dialed for longer than a timeout.
    pub fn passive_wait_expired_after(&mut self, peer_ip: &str, timeout: u64) -> (expired: bool)
        requires
            old(self).wf(),
        ensures
            final(self).wf(),
            exists|now: u64|
                (final(self)@, expired) == #[trigger] old(self)@.waited(peer_ip@, timeout, now),
    {
        let now: u64 = self.clock.nanos();
        self.passive_wait_expired_after_at(peer_ip, timeout, now)
    }

    /// Whether a peer that ranks higher has not dialed for so long that the node
    /// dials it after all.
    pub fn passive_wait_expired(&mut self, peer_ip: &str) -> (expired: bool)
        requires
            old(self).wf(),
        ensures
            final(self).wf(),
            exists|now: u64|
                (final(self)@, expired) == #[trigger] old(self)@.waited(
                    peer_ip@,
                    PASSIVE_WAIT_TIMEOUT,
                    now,
                ),
    {
        self.passive_wait_expired_after(peer_ip, PASSIVE_WAIT_TIMEOUT)
    }

    /// Whether there is room for an inbound connection, at a time.
    pub fn can_accept_inbound_at(&mut self, peer_ip: &str, is_whitelisted: bool, now: u64) -> (room:
        Result<(), String>)
        requires
            old(self).wf(),
        ensures
            final(self).wf(),
            final(self)@ == old(self)@.after_check(peer_ip@, is_whitelisted, now),
            told(room) == old(self)@.room(peer_ip@, is_whitelisted, now),
    {
        let ghost before = self@;
        let (total, inbound, _) = self.reconcile_counts();
        if total >= MAX_TOTAL_CONNECTIONS {
            return Err(limit_text("Max total connections reached: ", total, "/500"));
        }
        if is_whitelisted {
            return Ok(());
        }
        let regular: usize = self.count_listed(false);
        assert(self@.connections == before.connections);
        if regular >= MAX_REGULAR_PEER_CONNECTIONS {
            return Err(
                limit_text(
                    "Max regular peer connections reached: ",
                    regular,
                    "/150 (reserved 100 slots for masternodes)",
                ),
            );
        }
        if inbound >= MAX_INBOUND_CONNECTIONS {
            return Err(limit_text("Max inbound connections reached: ", inbound, "/250"));
        }
        let from_ip: usize = self.count_connections_from_ip(peer_ip);
        if from_ip >= MAX_CONNECTIONS_PER_IP {
            return Err(limit_text("Max connections per IP reached: ", from_ip, "/3"));
        }
        self.cleanup_old_connections(now);
        let recent: usize = self.recent_connections.len();
        proof {
            lemma_viewed_dom(self.recent_connections@);
            assert(self@.recent_connections == before.pruned(now).recent_connections);
        }
        if recent >= MAX_NEW_CONNECTIONS_PER_WINDOW {
            return Err(
                limit_text(
                    "Connection rate limit exceeded: ",
                    recent,
                    " connections in last minute",
                ),
            );
        }
        Ok(())
    }

    /// Whether there is room for an inbound connection.
    pub fn can_accept_inbound(&mut self, peer_ip: &str, is_whitelisted: bool) -> (room: Result<
        (),
        String,
    >)
        requires
            old(self).wf(),
        ensures
            final(self).wf(),
            exists|now: u64|
                final(self)@ == (#[trigger] old(self)@.after_check(peer_ip@, is_whitelisted, now))
                    && told(room) == old(self)@.room(peer_ip@, is_whitelisted, now),
    {
        let now: u64 = self.clock.nanos();
        self.can_accept_inbound_at(peer_ip, is_whitelisted, now)
    }

    /// Whether there is room for an outbound connection.
    pub fn can_connect_outbound(&mut self) -> (room: Result<(), String>)
        requires
            old(self).wf(),
        ensures
            final(self).wf(),
            final(self)@ == old(self)@.reconciled(),
            told(room) == old(self)@.room_outbound(),
    {
        let (total, _, outbound) = self.reconcile_counts();
        if total >= MAX_TOTAL_CONNECTIONS {
            return Err(limit_text("Max total connections reached: ", total, "/500"));
        }
        if outbound >= MAX_OUTBOUND_CONNECTIONS {
            return Err(limit_text("Max outbound connections reached: ", outbound, "/250"));
        }
        Ok(())
    }

    /// How many connections stand with an address, one at most.
    pub fn count_connections_from_ip(&self, peer_ip: &str) -> (n: usize)
        requires
            self.wf(),
        ensures
            n == self@.standing_with(peer_ip@),
    {
        match self.slot(peer_ip) {
            Some(info) => if info.state == PeerConnectionState::Connected {
                1
            } else {
                0
            },
            None => 0,
        }
    }

    /// How many connections stand with peers that are whitelisted.
    pub fn count_whitelisted_connections(&self) -> (n: usize)
        requires
            self.wf(),
        ensures
            n == self@.standing_listed(true),
    {
        self.count_listed(true)
    }

    /// Whether the connection with a peer stands.
    pub fn is_connected(&self, peer_ip: &str) -> (yes: bool)
        requires
            self.wf(),
        ensures
            yes == self@.in_state(peer_ip@, PeerConnectionState::Connected),
    {
        match self.slot(peer_ip) {
            Some(info) => info.state == PeerConnectionState::Connected,
            None => false,
        }
    }

    /// Whether a connection with a peer stands or is being made.
    pub fn is_active(&self, peer_ip: &str) -> (yes: bool)
        requires
            self.wf(),
        ensures
            yes == (self@.slot(peer_ip@) matches Some(info) && info.state
                != PeerConnectionState::Disconnected),
    {
        match self.slot(peer_ip) {
            Some(info) => info.state != PeerConnectionState::Disconnected,
            None => false,
        }
    }

    /// Whether a dial to a peer is in flight.
    pub fn is_connecting(&self, peer_ip: &str) -> (yes: bool)
        requires
            self.wf(),
        ensures
            yes == self@.in_state(peer_ip@, PeerConnectionState::Connecting),
    {
        match self.slot(peer_ip) {
            Some(info) => info.state == PeerConnectionState::Connecting,
            None => false,
        }
    }

    /// Whether a peer is to be dialed again later.
    pub fn is_reconnecting(&self, peer_ip: &str) -> (yes: bool)
        requires
            self.wf(),
        ensures
            yes == self@.in_state(peer_ip@, PeerConnectionState::Reconnecting),
    {
        match self.slot(peer_ip) {
            Some(info) => info.state == PeerConnectionState::Reconnecting,
            None => false,
        }
    }

    /// Whether a connection to a peer stands that the node opened.
    pub fn has_outbound_connection(&self, peer_ip: &str) -> (yes: bool)
        requires
            self.wf(),
        ensures
            yes == (self@.slot(peer_ip@) matches Some(info) && stands_from(
                info,
                ConnectionDirection::Outbound,
            )),
    {
        match self.slot(peer_ip) {
            Some(info) => info.state == PeerConnectionState::Connected && info.direction
                == ConnectionDirection::Outbound,
            None => false,
        }
    }

    /// Whether a peer is free to be dialed: unknown or disconnected.
    pub fn should_connect_to(&self, peer_ip: &str) -> (yes: bool)
        requires
            self.wf(),
        ensures
            yes == (match self@.slot(peer_ip@) {
                Some(info) => info.state == PeerConnectionState::Disconnected,
                None => true,
            }),
    {
        match self.slot(peer_ip) {
            Some(info) => info.state == PeerConnectionState::Disconnected,
            None => true,
        }
    }

    /// Gives up a dial in flight, at a time.
    pub fn abort_connecting_at(&mut self, peer_ip: &str, now: u64) -> (aborted: bool)
        requires
            old(self).wf(),
        ensures
            final(self).wf(),
            (final(self)@, aborted) == old(self)@.aborted(peer_ip@, now),
    {
        match self.slot(peer_ip) {
            Some(info) => if info.state == PeerConnectionState::Connecting {
                self.put(
                    peer_ip,
                    ConnectionInfo {
                        state: PeerConnectionState::Disconnected,
                        disconnected_at: Some(now),
                        ..info
                    },
                );
                true
            } else {
                false
            },
            None => false,
        }
    }

    /// Accepts an inbound connection, or not, at a time. A peer that is already
    /// being dialed is accepted if it is the one to dial, or whitelisted.
    pub fn accept_inbound_at(&mut self, peer_ip: &str, is_whitelisted: bool, now: u64) -> (session:
        Option<u64>)
        requires
            old(self).wf(),
        ensures
            final(self).wf(),
            (final(self)@, session) == old(self)@.accepted(peer_ip@, is_whitelisted, now),
    {
        let ghost before = self@;
        if self.can_accept_inbound_at(peer_ip, is_whitelisted, now).is_err() {
            return None;
        }
        self.clear_passive_wait(peer_ip);
        let generation: u64 = self.alloc_generation();
        let ghost ready = before.after_check(peer_ip@, is_whitelisted, now).not_waiting(
            peer_ip@,
        ).numbered();
        assert(self@ == ready);
        let fresh = open_connection(
            ConnectionDirection::Inbound,
            generation,
            now,
            1,
            is_whitelisted,
        );
        let info: ConnectionInfo = match self.slot(peer_ip) {
            None => {
                self.put(peer_ip, fresh);
                self.record_new_connection(peer_ip, now);
                self.grow(ConnectionDirection::Inbound);
                return Some(generation);
            },
            Some(info) => info,
        };
        if info.state == PeerConnectionState::Disconnected {
            self.put(peer_ip, fresh);
            self.record_new_connection(peer_ip, now);
            self.grow(ConnectionDirection::Inbound);
            return Some(generation);
        }
        let was_connected = info.state == PeerConnectionState::Connected;
        let again = open_connection(
            ConnectionDirection::Inbound,
            generation,
            now,
            if info.connection_count == usize::MAX {
                usize::MAX
            } else {
                info.connection_count + 1
            },
            is_whitelisted,
        );
        if info.direction == ConnectionDirection::Outbound {
            if !is_whitelisted && self.ip_ranks_above_peer(peer_ip) {
                return None;
            }
            self.put(peer_ip, again);
            if was_connected {
                self.outbound_count = decreased(self.outbound_count);
                self.inbound_count = increased(self.inbound_count);
            } else {
                self.grow(ConnectionDirection::Inbound);
            }
            return Some(generation);
        }
        if is_whitelisted {
            self.put(peer_ip, again);
            if !was_connected {
                self.grow(ConnectionDirection::Inbound);
            }
            self.record_new_connection(peer_ip, now);
            return Some(generation);
        }
        None
    }

    /// Takes a connection as inbound, at a time.
    pub fn mark_inbound_at(&mut self, peer_ip: &str, now: u64) -> (session: Option<u64>)
        requires
            old(self).wf(),
            old(self)@.countable(peer_ip@),
        ensures
            final(self).wf(),
            (final(self)@, session) == old(self)@.taken_inbound(peer_ip@, now),
    {
        self.record_new_connection(peer_ip, now);
        match self.slot(peer_ip) {
            Some(info) => if info.state == PeerConnectionState::Connecting {
                let generation: u64 = self.alloc_generation();
                self.put(
                    peer_ip,
                    ConnectionInfo {
                        state: PeerConnectionState::Connected,
                        direction: ConnectionDirection::Inbound,
                        generation,
                        connected_at: Some(now),
                        connection_count: info.connection_count + 1,
                        ..info
                    },
                );
                self.grow(ConnectionDirection::Inbound);
                Some(generation)
            } else {
                None
            },
            None => {
                let generation: u64 = self.alloc_generation();
                self.put(
                    peer_ip,
                    open_connection(ConnectionDirection::Inbound, generation, now, 1, false),
                );
                self.grow(ConnectionDirection::Inbound);
                Some(generation)
            },
        }
    }

    /// Ends an inbound session, if it still holds the peer's place, at a time.
    pub fn mark_inbound_disconnected_at(&mut self, peer_ip: &str, generation: u64, now: u64) -> (ended:
        bool)
        requires
            old(self).wf(),
        ensures
            final(self).wf(),
            (final(self)@, ended) == old(self)@.inbound_ended(peer_ip@, generation, now),
    {
        match self.slot(peer_ip) {
            Some(info) => {
                if info.generation != generation || info.state != PeerConnectionState::Connected {
                    return false;
                }
                self.put(
                    peer_ip,
                    ConnectionInfo {
                        state: PeerConnectionState::Disconnected,
                        disconnected_at: Some(now),
                        ..info
                    },
                );
                if info.direction == ConnectionDirection::Inbound {
                    self.shrink(ConnectionDirection::Inbound);
                } else {
                    self.connected_count = decreased(self.connected_count);
                }
                true
            },
            None => false,
        }
    }

    /// Begins a dial, unless one is in flight or a connection stands, at a time.
    pub fn mark_connecting_at(&mut self, peer_ip: &str, now: u64) -> (begun: bool)
        requires
            old(self).wf(),
        ensures
            final(self).wf(),
            (final(self)@, begun) == old(self)@.dialed(peer_ip@, now),
    {
        match self.slot(peer_ip) {
            Some(info) => if info.state == PeerConnectionState::Disconnected || info.state
                == PeerConnectionState::Reconnecting {
                let generation: u64 = self.alloc_generation();
                self.put(
                    peer_ip,
                    ConnectionInfo {
                        state: PeerConnectionState::Connecting,
                        direction: ConnectionDirection::Outbound,
                        generation,
                        last_message_at: Some(now),
                        ..info
                    },
                );
                true
            } else {
                false
            },
            None => {
                let generation: u64 = self.alloc_generation();
                self.put(
                    peer_ip,
                    attempt_connection(
                        PeerConnectionState::Connecting,
                        generation,
                        None,
                        Some(now),
                    ),
                );
                true
            },
        }
    }

    /// Ends a dial with success, at a time. Without a dial in flight there is no
    /// session.
    pub fn mark_connected_at(&mut self, peer_ip: &str, now: u64) -> (session: Option<u64>)
        requires
            old(self).wf(),
            old(self)@.countable(peer_ip@),
        ensures
            final(self).wf(),
            (final(self)@, session) == old(self)@.reached(peer_ip@, now),
    {
        match self.slot(peer_ip) {
            Some(info) => if info.state == PeerConnectionState::Connecting {
                self.clear_passive_wait(peer_ip);
                let generation: u64 = self.alloc_generation();
                self.put(
                    peer_ip,
                    ConnectionInfo {
                        state: PeerConnectionState::Connected,
                        generation,
                        connected_at: Some(now),
                        last_message_at: Some(now),
                        connection_count: info.connection_count + 1,
                        ..info
                    },
                );
                if info.direction == ConnectionDirection::Outbound {
                    self.grow(ConnectionDirection::Outbound);
                } else {
                    self.connected_count = increased(self.connected_count);
                }
                Some(generation)
            } else {
                None
            },
            None => None,
        }
    }

    /// Ends a dial with failure, at a time; the peer is to be dialed again later.
    pub fn mark_failed_at(&mut self, peer_ip: &str, now: u64) -> (marked: bool)
        requires
            old(self).wf(),
        ensures
            final(self).wf(),
            final(self)@ == old(self)@.failed(peer_ip@, now),
            marked,
    {
        match self.slot(peer_ip) {
            Some(info) => {
                self.put(
                    peer_ip,
                    ConnectionInfo {
                        state: PeerConnectionState::Reconnecting,
                        disconnected_at: Some(now),
                        ..info
                    },
                );
            },
            None => {
                let generation: u64 = self.alloc_generation();
                self.put(
                    peer_ip,
                    attempt_connection(
                        PeerConnectionState::Reconnecting,
                        generation,
                        Some(now),
                        None,
                    ),
                );
            },
        }
        true
    }

    /// Forgets a peer.
    pub fn remove(&mut self, peer_ip: &str)
        requires
            old(self).wf(),
        ensures
            final(self).wf(),
            final(self)@ == old(self)@.forgotten(peer_ip@),
    {
        let key = String::from_str(peer_ip);
        match self.connections.remove(&key) {
            Some(info) => {
                if info.state == PeerConnectionState::Connected {
                    self.shrink(info.direction);
                }
            },
            None => {},
        }
    }

    /// How many connections stand. The counters are put right.
    pub fn connected_count(&mut self) -> (n: usize)
        requires
            old(self).wf(),
        ensures
            final(self).wf(),
            final(self)@ == old(self)@.reconciled(),
            n == old(self)@.standing(),
    {
        self.reconcile_counts().0
    }

    /// How many connections stand that peers opened. The counters are put right.
    pub fn inbound_count(&mut self) -> (n: usize)
        requires
            old(self).wf(),
        ensures
            final(self).wf(),
            final(self)@ == old(self)@.reconciled(),
            n == old(self)@.standing_from(ConnectionDirection::Inbound),
    {
        self.reconcile_counts().1
    }

    /// How many connections stand that the node opened. The counters are put right.
    pub fn outbound_count(&mut self) -> (n: usize)
        requires
            old(self).wf(),
        ensures
            final(self).wf(),
            final(self)@ == old(self)@.reconciled(),
            n == old(self)@.standing_from(ConnectionDirection::Outbound),
    {
        self.reconcile_counts().2
    }

    /// Takes a peer as disconnected, at a time.
    pub fn mark_disconnected_at(&mut self, peer_ip: &str, now: u64)
        requires
            old(self).wf(),
        ensures
            final(self).wf(),
            final(self)@ == old(self)@.dropped(peer_ip@, now),
    {
        match self.slot(peer_ip) {
            Some(info) => {
                self.put(
                    peer_ip,
                    ConnectionInfo {
                        state: PeerConnectionState::Disconnected,
                        disconnected_at: Some(now),
                        ..info
                    },
                );
                if info.state == PeerConnectionState::Connected {
                    self.shrink(info.direction);
                }
            },
            None => {},
        }
    }

    /// Ends an outbound session, if it still holds the peer's place, at a time.
    pub fn mark_outbound_disconnected_at(&mut self, peer_ip: &str, generation: u64, now: u64) -> (ended:
        bool)
        requires
            old(self).wf(),
        ensures
            final(self).wf(),
            (final(self)@, ended) == old(self)@.outbound_ended(peer_ip@, generation, now),
    {
        match self.slot(peer_ip) {
            Some(info) => {
                if info.direction != ConnectionDirection::Outbound || info.generation
                    != generation {
                    return false;
                }
                self.mark_disconnected_at(peer_ip, now);
                true
            },
            None => false,
        }
    }

    /// Allows a peer to be dialed at once.
    pub fn clear_reconnecting(&mut self, peer_ip: &str)
        requires
            old(self).wf(),
        ensures
            final(self).wf(),
            final(self)@ == (if old(self)@.in_state(peer_ip@, PeerConnectionState::Reconnecting) {
                old(self)@.moved(peer_ip@, PeerConnectionState::Disconnected)
            } else {
                old(self)@
            }),
    {
        match self.slot(peer_ip) {
            Some(info) => {
                if info.state == PeerConnectionState::Reconnecting {
                    self.put(
                        peer_ip,
                        ConnectionInfo { state: PeerConnectionState::Disconnected, ..info },
                    );
                }
            },
            None => {},
        }
    }

    /// Whitelists a peer, if it is known.
    pub fn mark_whitelisted(&mut self, peer_ip: &str)
        requires
            old(self).wf(),
        ensures
            final(self).wf(),
            final(self)@ == old(self)@.marked(peer_ip@, true),
    {
        self.update_whitelist_status(peer_ip, true);
    }

    /// Whether a peer is whitelisted.
    pub fn is_whitelisted(&self, peer_ip: &str) -> (yes: bool)
        requires
            self.wf(),
        ensures
            yes == (self@.slot(peer_ip@) matches Some(info) && info.is_whitelisted),
    {
        match self.slot(peer_ip) {
            Some(info) => info.is_whitelisted,
            None => false,
        }
    }

    /// Whether a peer is not to be disconnected.
    pub fn should_protect(&self, peer_ip: &str) -> (yes: bool)
        requires
            self.wf(),
        ensures
            yes == (self@.slot(peer_ip@) matches Some(info) && info.is_whitelisted),
    {
        self.is_whitelisted(peer_ip)
    }

    /// Takes a peer as one to be dialed again later, if it is known. The delay and
    /// the number of failures are not kept.
    pub fn mark_reconnecting(&mut self, peer_ip: &str, retry_delay: u64, consecutive_failures: u32)
        requires
            old(self).wf(),
        ensures
            final(self).wf(),
            final(self)@ == old(self)@.moved(peer_ip@, PeerConnectionState::Reconnecting),
    {
        match self.slot(peer_ip) {
            Some(info) => {
                self.put(
                    peer_ip,
                    ConnectionInfo { state: PeerConnectionState::Reconnecting, ..info },
                );
            },
            None => {},
        }
    }

    /// The peers with which a connection stands, in no fixed order.
    pub fn get_connected_peers(&self) -> (peers: Vec<String>)
        requires
            self.wf(),
        ensures
            views(peers@).no_duplicates(),
            forall|ip: Seq<char>| #[trigger]
                views(peers@).contains(ip) <==> self@.in_state(ip, PeerConnectionState::Connected),
    {
        self.list_in_state(PeerConnectionState::Connected)
    }

    /// The peers that are being dialed, in no fixed order.
    pub fn get_connecting_peers(&self) -> (peers: Vec<String>)
        requires
            self.wf(),
        ensures
            views(peers@).no_duplicates(),
            forall|ip: Seq<char>| #[trigger]
                views(peers@).contains(ip) <==> self@.in_state(ip, PeerConnectionState::Connecting),
    {
        self.list_in_state(PeerConnectionState::Connecting)
    }

    /// How long ago a peer left, at a time.
    pub fn time_since_disconnect_at(&self, peer_ip: &str, now: u64) -> (nanos: Option<u64>)
        requires
            self.wf(),
        ensures
            nanos == self@.gone_for(peer_ip@, now),
    {
        match self.slot(peer_ip) {
            Some(info) => match info.disconnected_at {
                Some(at) => Some(elapsed(at, now)),
                None => None,
            },
            None => None,
        }
    }

    /// Notes a message from a peer, at a time.
    pub fn record_activity_at(&mut self, peer_ip: &str, now: u64)
        requires
            old(self).wf(),
        ensures
            final(self).wf(),
            final(self)@ == old(self)@.heard(peer_ip@, now),
    {
        match self.slot(peer_ip) {
            Some(info) => {
                self.put(peer_ip, ConnectionInfo { last_message_at: Some(now), ..info });
            },
            None => {},
        }
    }

    /// The peers that have been silent for longer than a timeout, at a time, in no
    /// fixed order.
    pub fn get_unresponsive_peers_at(&self, timeout: u64, now: u64) -> (peers: Vec<String>)
        requires
            self.wf(),
        ensures
            views(peers@).no_duplicates(),
            forall|ip: Seq<char>| #[trigger]
                views(peers@).contains(ip) <==> self@.connections.contains_key(ip)
                    && ManagerV::silent(self@.connections[ip], timeout, now),
    {
        select(&self.connections, &Silent { timeout, now })
    }

    /// How good the connection with a peer is, at a time.
    pub fn get_connection_quality_at(&self, peer_ip: &str, now: u64) -> (quality: Option<
        ConnectionQuality,
    >)
        requires
            self.wf(),
        ensures
            quality == self@.quality(peer_ip@, now),
    {
        match self.slot(peer_ip) {
            Some(info) => Some(
                ConnectionQuality {
                    uptime: match info.connected_at {
                        Some(at) => elapsed(at, now),
                        None => 0,
                    },
                    connection_count: info.connection_count,
                    messages: info.messages_received as u128 + info.messages_sent as u128,
                    bytes_sent: info.bytes_sent,
                    bytes_received: info.bytes_received,
                },
            ),
            None => None,
        }
    }

    /// Whitelists a peer or takes it off the list, if it is known.
    pub fn update_whitelist_status(&mut self, peer_ip: &str, is_whitelisted: bool)
        requires
            old(self).wf(),
        ensures
            final(self).wf(),
            final(self)@ == old(self)@.marked(peer_ip@, is_whitelisted),
    {
        match self.slot(peer_ip) {
            Some(info) => {
                self.put(peer_ip, ConnectionInfo { is_whitelisted, ..info });
            },
            None => {},
        }
    }

    /// Whitelists the known peers that are on a list, and no others.
    pub fn sync_whitelist_from_registry(&mut self, masternode_ips: &Vec<String>)
        requires
            old(self).wf(),
        ensures
            final(self).wf(),
            final(self)@ == old(self)@.listed(views(masternode_ips@)),
    {
        let ghost before = self@;
        let ghost keys = self.connections.keys();
        let ghost ips = views(masternode_ips@);
        let n: usize = self.connections.len();
        let mut i: usize = 0;
        proof {
            self.connections.lemma_keys();
        }
        while i < n
            invariant
                self.wf(),
                i <= n,
                n == keys.len(),
                keys == self.connections.keys(),
                keys.no_duplicates(),
                ips == views(masternode_ips@),
                keys.to_set() == before.connections.dom(),
                self@ == (ManagerV { connections: self@.connections, ..before }),
                self@.connections.dom() == before.connections.dom(),
                forall|j: int|
                    0 <= j < keys.len() ==> before.connections.contains_key(#[trigger] keys[j])
                        && self@.connections[keys[j]] == (if j < i {
                        ConnectionInfo {
                            is_whitelisted: ips.contains(keys[j]),
                            ..before.connections[keys[j]]
                        }
                    } else {
                        before.connections[keys[j]]
                    }),
            decreases n - i,
        {
            let listed = holds_name(masternode_ips, self.connections.key_at(i).as_str());
            let info: ConnectionInfo = *self.connections.value_at(i);
            self.connections.set_value_at(i, ConnectionInfo { is_whitelisted: listed, ..info });
            proof {
                assert(self@.connections.dom() =~= before.connections.dom());
            }
            i = i + 1;
        }
        proof {
            let after = before.listed(ips);
            assert forall|ip: Seq<char>| before.connections.contains_key(ip) implies
                self@.connections[ip] == after.connections[ip] by {
                assert(keys.to_set().contains(ip));
                let j = choose|j: int| 0 <= j < keys.len() && keys[j] == ip;
                assert(keys[j] == ip);
            }
            assert(self@.connections =~= after.connections);
        }
    }

    /// Gives up dials that have been in flight for longer than a timeout, at a time,
    /// and says how many.
    pub fn cleanup_stale_connecting_at(&mut self, timeout: u64, now: u64) -> (cleaned: usize)
        requires
            old(self).wf(),
        ensures
            final(self).wf(),
            final(self)@ == old(self)@.unstuck(timeout, now),
            cleaned == picked(
                old(self)@.connections,
                |info: ConnectionInfo| ManagerV::stuck(info, timeout, now),
            ).len(),
    {
        let ghost before = self@;
        let condition = StuckDial { timeout, now };
        let found = select(&self.connections, &condition);
        let cleaned: usize = count(&self.connections, &condition);
        proof {
            assert(picked(before.connections, |v: ConnectionInfo| condition.holds(v)) =~= picked(
                before.connections,
                |info: ConnectionInfo| ManagerV::stuck(info, timeout, now),
            ));
        }
        let mut i: usize = 0;
        while i < found.len()
            invariant
                self.wf(),
                i <= found@.len(),
                views(found@).no_duplicates(),
                condition.timeout == timeout,
                condition.now == now,
                forall|ip: Seq<char>| #[trigger]
                    views(found@).contains(ip) <==> before.connections.contains_key(ip)
                        && condition.holds(before.connections[ip]),
                self@ == (ManagerV { connections: self@.connections, ..before }),
                self@.connections.dom() == before.connections.dom(),
                forall|ip: Seq<char>| #[trigger]
                    before.connections.contains_key(ip) ==> self@.connections[ip] == (
                    if views(found@).take(i as int).contains(ip) {
                        ConnectionInfo {
                            state: PeerConnectionState::Disconnected,
                            disconnected_at: Some(now),
                            ..before.connections[ip]
                        }
                    } else {
                        before.connections[ip]
                    }),
            decreases found@.len() - i,
        {
            let ghost seen = views(found@).take(i as int);
            let ghost next = views(found@).take(i + 1);
            let ghost here = found@[i as int]@;
            proof {
                assert(views(found@)[i as int] == here);
                assert(views(found@).contains(here));
                assert(next =~= seen.push(here));
                assert(!seen.contains(here)) by {
                    if seen.contains(here) {
                        let x = choose|x: int| 0 <= x < seen.len() && seen[x] == here;
                        assert(views(found@)[x] == here);
                    }
                }
            }
            match self.slot(found[i].as_str()) {
                Some(info) => {
                    self.put(
                        found[i].as_str(),
                        ConnectionInfo {
                            state: PeerConnectionState::Disconnected,
                            disconnected_at: Some(now),
                            ..info
                        },
                    );
                },
                None => {},
            }
            proof {
                assert(self@.connections.dom() =~= before.connections.dom());
                assert forall|ip: Seq<char>| next.contains(ip) <==> seen.contains(ip) || ip
                    == here by {
                    if seen.contains(ip) {
                        let x = choose|x: int| 0 <= x < seen.len() && seen[x] == ip;
                        assert(next[x] == ip);
                    }
                    if ip == here {
                        assert(next[i as int] == ip);
                    }
                    if next.contains(ip) {
                        let x = choose|x: int| 0 <= x < next.len() && next[x] == ip;
                        if x < seen.len() {
                            assert(seen[x] == ip);
                        }
                    }
                }
            }
            i = i + 1;
        }
        proof {
            assert(views(found@).take(i as int) =~= views(found@));
            let after = before.unstuck(timeout, now);
            assert forall|ip: Seq<char>| before.connections.contains_key(ip) implies
                self@.connections[ip] == after.connections[ip] by {
                assert(views(found@).contains(ip) <==> ManagerV::stuck(
                    before.connections[ip],
                    timeout,
                    now,
                ));
            }
            assert(self@.connections =~= after.connections);
        }
        cleaned
    }

    /// Gives up connections without a writer, at a time. A connection is given up
    /// only if it had none before either, long enough ago; one that is seen so for
    /// the first time is only watched. The peers are in no fixed order.
    pub fn heal_connected_without_writers_with_window_at(
        &mut self,
        live_writer_ips: &Vec<String>,
        confirm_window: u64,
        now: u64,
    ) -> (dead: Vec<String>)
        requires
            old(self).wf(),
        ensures
            final(self).wf(),
            views(dead@).no_duplicates(),
            forall|ip: Seq<char>| #[trigger]
                views(dead@).contains(ip) <==> old(self)@.confirmed(
                    ip,
                    views(live_writer_ips@),
                    confirm_window,
                    now,
                ),
            final(self)@ == (ManagerV {
                zombie_since: old(self)@.watched(views(live_writer_ips@), confirm_window, now),
                ..old(self)@.all_dropped(views(dead@), now)
            }),
    {
        let ghost before = self@;
        let ghost live = views(live_writer_ips@);
        let condition = Suspect { live: live_writer_ips };
        let suspects = select_entries(&self.connections, &condition);
        let mut dead: Vec<String> = Vec::new();
        let mut watched: Table<String, u64> = Table::new();
        let mut i: usize = 0;
        proof {
            assert forall|ip: Seq<char>| #[trigger] views(suspects@).contains(ip)
                <==> before.suspect(ip, live) by {}
        }
        while i < suspects.len()
            invariant
                self.wf(),
                self@ == before,
                watched.wf(),
                i <= suspects@.len(),
                views(suspects@).no_duplicates(),
                forall|ip: Seq<char>| #[trigger]
                    views(suspects@).contains(ip) <==> before.suspect(ip, live),
                views(dead@).no_duplicates(),
                forall|ip: Seq<char>| #[trigger]
                    views(dead@).contains(ip) <==> views(suspects@).take(i as int).contains(ip)
                        && before.confirmed(ip, live, confirm_window, now),
                forall|ip: Seq<char>| #[trigger]
                    watched@.contains_key(ip) <==> views(suspects@).take(i as int).contains(ip)
                        && !before.confirmed(ip, live, confirm_window, now),
                forall|ip: Seq<char>| #[trigger]
                    watched@.contains_key(ip) ==> watched@[ip] == (
                    if before.zombie_since.contains_key(ip) {
                        before.zombie_since[ip]
                    } else {
                        now
                    }),
            decreases suspects@.len() - i,
        {
            let ip = suspects[i].clone();
            let ghost seen = views(suspects@).take(i as int);
            let ghost next = views(suspects@).take(i + 1);
            let ghost held = views(dead@);
            proof {
                assert(views(suspects@)[i as int] == ip@);
                assert(views(suspects@).contains(ip@));
                assert(next =~= seen.push(ip@));
                assert(!seen.contains(ip@)) by {
                    if seen.contains(ip@) {
                        let x = choose|x: int| 0 <= x < seen.len() && seen[x] == ip@;
                        assert(views(suspects@)[x] == ip@);
                    }
                }
                assert forall|k: Seq<char>| next.contains(k) <==> seen.contains(k) || k == ip@ by {
                    if seen.contains(k) {
                        let x = choose|x: int| 0 <= x < seen.len() && seen[x] == k;
                        assert(next[x] == k);
                    }
                    if k == ip@ {
                        assert(next[i as int] == k);
                    }
                    if next.contains(k) {
                        let x = choose|x: int| 0 <= x < next.len() && next[x] == k;
                        if x < seen.len() {
                            assert(seen[x] == k);
                        }
                    }
                }
                assert(!held.contains(ip@));
            }
            let first: Option<u64> = match self.zombie_since.get(&ip) {
                Some(at) => Some(*at),
                None => None,
            };
            match first {
                Some(at) => if elapsed(at, now) >= confirm_window {
                    dead.push(ip);
                    proof {
                        let after = views(dead@);
                        assert(after =~= held.push(ip@));
                        assert forall|k: Seq<char>| after.contains(k) <==> held.contains(k) || k
                            == ip@ by {
                            if held.contains(k) {
                                let x = choose|x: int| 0 <= x < held.len() && held[x] == k;
                                assert(after[x] == k);
                            }
                            if k == ip@ {
                                assert(after[held.len() as int] == k);
                            }
                            if after.contains(k) {
                                let x = choose|x: int| 0 <= x < after.len() && after[x] == k;
                                if x < held.len() {
                                    assert(held[x] == k);
                                }
                            }
                        }
                    }
                } else {
                    watched.insert(ip, at);
                },
                None => {
                    watched.insert(ip, now);
                },
            }
            i = i + 1;
        }
        proof {
            assert(views(suspects@).take(i as int) =~= views(suspects@));
            assert forall|ip: Seq<char>| #[trigger] views(dead@).contains(ip)
                <==> before.confirmed(ip, live, confirm_window, now) by {
                assert(views(suspects@).contains(ip) <==> before.suspect(ip, live));
            }
            assert forall|ip: Seq<char>| #[trigger] watched@.contains_key(ip) <==> before.watched(
                live,
                confirm_window,
                now,
            ).contains_key(ip) by {
                assert(views(suspects@).contains(ip) <==> before.suspect(ip, live));
            }
            assert(watched@ =~= before.watched(live, confirm_window, now));
        }
        self.zombie_since = watched;
        let ghost watching = self@;
        let mut k: usize = 0;
        assert(views(dead@).take(0) =~= Seq::<Seq<char>>::empty());
        while k < dead.len()
            invariant
                self.wf(),
                k <= dead@.len(),
                self@ == watching.all_dropped(views(dead@).take(k as int), now),
            decreases dead@.len() - k,
        {
            proof {
                assert(views(dead@).take(k + 1).drop_last() =~= views(dead@).take(k as int));
                assert(views(dead@).take(k + 1).last() == dead@[k as int]@);
            }
            self.mark_disconnected_at(dead[k].as_str(), now);
            k = k + 1;
        }
        proof {
            assert(views(dead@).take(k as int) =~= views(dead@));
            lemma_all_dropped_apart(before, watching.zombie_since, views(dead@), now);
        }
        dead
    }

    /// Gives up a dial in flight.
    pub fn abort_connecting(&mut self, peer_ip: &str) -> (aborted: bool)
        requires
            old(self).wf(),
        ensures
            final(self).wf(),
            exists|now: u64| (final(self)@, aborted) == #[trigger] old(self)@.aborted(peer_ip@, now),
    {
        let now: u64 = self.clock.nanos();
        self.abort_connecting_at(peer_ip, now)
    }

    /// Accepts an inbound connection, or not. The number of the session is needed to
    /// end it.
    pub fn accept_inbound(&mut self, peer_ip: &str, is_whitelisted: bool) -> (session: Option<u64>)
        requires
            old(self).wf(),
        ensures
            final(self).wf(),
            exists|now: u64| (final(self)@, session) == #[trigger] old(self)@.accepted(peer_ip@, is_whitelisted, now),
    {
        let now: u64 = self.clock.nanos();
        self.accept_inbound_at(peer_ip, is_whitelisted, now)
    }

    /// Takes a connection as inbound.
    pub fn mark_inbound(&mut self, peer_ip: &str) -> (session: Option<u64>)
        requires
            old(self).wf(),
            old(self)@.countable(peer_ip@),
        ensures
            final(self).wf(),
            exists|now: u64| (final(self)@, session) == #[trigger] old(self)@.taken_inbound(peer_ip@, now),
    {
        let now: u64 = self.clock.nanos();
        self.mark_inbound_at(peer_ip, now)
    }

    /// Ends an inbound session, if it still holds the peer's place.
    pub fn mark_inbound_disconnected(&mut self, peer_ip: &str, generation: u64) -> (ended: bool)
        requires
            old(self).wf(),
        ensures
            final(self).wf(),
            exists|now: u64| (final(self)@, ended) == #[trigger] old(self)@.inbound_ended(peer_ip@, generation, now),
    {
        let now: u64 = self.clock.nanos();
        self.mark_inbound_disconnected_at(peer_ip, generation, now)
    }

    /// Begins a dial, unless one is in flight or a connection stands.
    pub fn mark_connecting(&mut self, peer_ip: &str) -> (begun: bool)
        requires
            old(self).wf(),
        ensures
            final(self).wf(),
            exists|now: u64| (final(self)@, begun) == #[trigger] old(self)@.dialed(peer_ip@, now),
    {
        let now: u64 = self.clock.nanos();
        self.mark_connecting_at(peer_ip, now)
    }

    /// Ends a dial with success. Without a dial in flight there is no session.
    pub fn mark_connected(&mut self, peer_ip: &str) -> (session: Option<u64>)
        requires
            old(self).wf(),
            old(self)@.countable(peer_ip@),
        ensures
            final(self).wf(),
            exists|now: u64| (final(self)@, session) == #[trigger] old(self)@.reached(peer_ip@, now),
    {
        let now: u64 = self.clock.nanos();
        self.mark_connected_at(peer_ip, now)
    }

    /// Ends a dial with failure; the peer is to be dialed again later.
    pub fn mark_failed(&mut self, peer_ip: &str) -> (marked: bool)
        requires
            old(self).wf(),
        ensures
            final(self).wf(),
            exists|now: u64| marked && final(self)@ == #[trigger] old(self)@.failed(peer_ip@, now),
    {
        let now: u64 = self.clock.nanos();
        self.mark_failed_at(peer_ip, now)
    }

    /// Takes a peer as disconnected.
    pub fn mark_disconnected(&mut self, peer_ip: &str)
        requires
            old(self).wf(),
        ensures
            final(self).wf(),
            exists|now: u64| final(self)@ == #[trigger] old(self)@.dropped(peer_ip@, now),
    {
        let now: u64 = self.clock.nanos();
        self.mark_disconnected_at(peer_ip, now);
    }

    /// Ends an outbound session, if it still holds the peer's place.
    pub fn mark_outbound_disconnected(&mut self, peer_ip: &str, generation: u64) -> (ended: bool)
        requires
            old(self).wf(),
        ensures
            final(self).wf(),
            exists|now: u64| (final(self)@, ended) == #[trigger] old(self)@.outbound_ended(peer_ip@, generation, now),
    {
        let now: u64 = self.clock.nanos();
        self.mark_outbound_disconnected_at(peer_ip, generation, now)
    }

    /// How long ago a peer left.
    pub fn time_since_disconnect(&self, peer_ip: &str) -> (nanos: Option<u64>)
        requires
            self.wf(),
        ensures
            exists|now: u64| nanos == #[trigger] self@.gone_for(peer_ip@, now),
    {
        let now: u64 = self.clock.nanos();
        self.time_since_disconnect_at(peer_ip, now)
    }

    /// Notes a message from a peer.
    pub fn record_activity(&mut self, peer_ip: &str)
        requires
            old(self).wf(),
        ensures
            final(self).wf(),
            exists|now: u64| final(self)@ == #[trigger] old(self)@.heard(peer_ip@, now),
    {
        let now: u64 = self.clock.nanos();
        self.record_activity_at(peer_ip, now);
    }

    /// How good the connection with a peer is.
    pub fn get_connection_quality(&self, peer_ip: &str) -> (quality: Option<ConnectionQuality>)
        requires
            self.wf(),
        ensures
            exists|now: u64| quality == #[trigger] self@.quality(peer_ip@, now),
    {
        let now: u64 = self.clock.nanos();
        self.get_connection_quality_at(peer_ip, now)
    }

    /// Gives up dials that have been in flight for longer than a timeout, and says
    /// how many.
    pub fn cleanup_stale_connecting(&mut self, timeout: u64) -> (cleaned: usize)
        requires
            old(self).wf(),
        ensures
            final(self).wf(),
            exists|now: u64|
                final(self)@ == (#[trigger] old(self)@.unstuck(timeout, now)) && cleaned == picked(
                    old(self)@.connections,
                    |info: ConnectionInfo| ManagerV::stuck(info, timeout, now),
                ).len(),
    {
        let now: u64 = self.clock.nanos();
        self.cleanup_stale_connecting_at(timeout, now)
    }

    /// The peers that have been silent for longer than a timeout, in no fixed order.
    pub fn get_unresponsive_peers(&self, timeout: u64) -> (peers: Vec<String>)
        requires
            self.wf(),
        ensures
            views(peers@).no_duplicates(),
            exists|now: u64| #[trigger] self@.lists_silent(views(peers@), timeout, now),
    {
        let now: u64 = self.clock.nanos();
        let peers = self.get_unresponsive_peers_at(timeout, now);
        assert(self@.lists_silent(views(peers@), timeout, now));
        peers
    }

    /// Gives up connections without a writer that had none a while ago either.
    pub fn heal_connected_without_writers_with_window(
        &mut self,
        live_writer_ips: &Vec<String>,
        confirm_window: u64,
    ) -> (dead: Vec<String>)
        requires
            old(self).wf(),
        ensures
            final(self).wf(),
            views(dead@).no_duplicates(),
            exists|now: u64| #[trigger]
                old(self)@.healed(
                    final(self)@,
                    views(dead@),
                    views(live_writer_ips@),
                    confirm_window,
                    now,
                ),
    {
        let now: u64 = self.clock.nanos();
        let ghost before = self@;
        let dead = self.heal_connected_without_writers_with_window_at(
            live_writer_ips,
            confirm_window,
            now,
        );
        assert(before.healed(self@, views(dead@), views(live_writer_ips@), confirm_window, now));
        dead
    }

    /// Gives up connections without a writer that had none a quarter of a minute
    /// ago either.
    pub fn heal_connected_without_writers(&mut self, live_writer_ips: &Vec<String>) -> (dead: Vec<
        String,
    >)
        requires
            old(self).wf(),
        ensures
            final(self).wf(),
            views(dead@).no_duplicates(),
            exists|now: u64| #[trigger]
                old(self)@.healed(
                    final(self)@,
                    views(dead@),
                    views(live_writer_ips@),
                    ZOMBIE_CONFIRM_WINDOW,
                    now,
                ),
    {
        self.heal_connected_without_writers_with_window(live_writer_ips, ZOMBIE_CONFIRM_WINDOW)
    }
}

impl Default for ConnectionManager {
    fn default() -> (manager: Self)
        ensures
            manager.wf(),
            manager@ == (ManagerV {
                connections: Map::empty(),
                connected_count: 0,
                inbound_count: 0,
                outbound_count: 0,
                next_generation: 1,
                local_ip: None,
                recent_connections: Map::empty(),
                last_cleanup: 0,
                zombie_since: Map::empty(),
                passive_wait_since: Map::empty(),
            }),
    {
        ConnectionManager::new()
    }
}

impl ManagerV {
    /// Whether a list has exactly the peers that have been silent for too long.
    pub open spec fn lists_silent(self, ips: Seq<Seq<char>>, timeout: u64, now: u64) -> bool {
        forall|ip: Seq<char>| #[trigger]
            ips.contains(ip) <==> self.connections.contains_key(ip) && ManagerV::silent(
                self.connections[ip],
                timeout,
                now,
            )
    }

    /// Whether another state comes from giving up connections without a writer.
    pub open spec fn healed(
        self,
        after: ManagerV,
        dead: Seq<Seq<char>>,
        live: Seq<Seq<char>>,
        window: u64,
        now: u64,
    ) -> bool {
        &&& forall|ip: Seq<char>| #[trigger]
            dead.contains(ip) <==> self.confirmed(ip, live, window, now)
        &&& after == (ManagerV {
            zombie_since: self.watched(live, window, now),
            ..self.all_dropped(dead, now)
        })
    }
}

struct StuckDial {
    timeout: u64,
    now: u64,
}

impl Condition<ConnectionInfo> for StuckDial {
    closed spec fn holds(&self, value: ConnectionInfo) -> bool {
        ManagerV::stuck(value, self.timeout, self.now)
    }

    fn check(&self, value: &ConnectionInfo) -> (held: bool) {
        match value.last_message_at {
            Some(started) => value.state == PeerConnectionState::Connecting && elapsed(
                started,
                self.now,
            ) > self.timeout,
            None => false,
        }
    }
}

/// Taking peers as disconnected has nothing to do with the list of connections
/// without a writer.
proof fn lemma_all_dropped_apart(
    held: ManagerV,
    zombies: Map<Seq<char>, u64>,
    ips: Seq<Seq<char>>,
    now: u64,
)
    ensures
        (ManagerV { zombie_since: zombies, ..held }).all_dropped(ips, now) == (ManagerV {
            zombie_since: zombies,
            ..held.all_dropped(ips, now)
        }),
    decreases ips.len(),
{
    if ips.len() > 0 {
        lemma_all_dropped_apart(held, zombies, ips.drop_last(), now);
    }
}

proof fn lemma_picked_without<K, V>(m: Map<K, V>, k: K, pick: spec_fn(V) -> bool)
    requires
        m.dom().finite(),
    ensures
        picked(m, pick).finite(),
        picked(m.remove(k), pick).finite(),
        picked(m, pick).len() == picked(m.remove(k), pick).len() + (if m.contains_key(k) && pick(
            m[k],
        ) {
            1nat
        } else {
            0
        }),
{
    let all = picked(m, pick);
    let rest = picked(m.remove(k), pick);
    m.dom().lemma_len_filter(|x: K| pick(m[x]));
    m.remove(k).dom().lemma_len_filter(|x: K| pick(m.remove(k)[x]));
    assert(rest =~= all.remove(k));
}

proof fn lemma_picked_with<K, V>(m: Map<K, V>, k: K, v: V, pick: spec_fn(V) -> bool)
    requires
        m.dom().finite(),
    ensures
        picked(m.insert(k, v), pick).len() == picked(m.remove(k), pick).len() + (if pick(v) {
            1nat
        } else {
            0
        }),
{
    lemma_picked_without(m.insert(k, v), k, pick);
    assert(m.insert(k, v).remove(k) =~= m.remove(k));
}

/// How the three counts change when the entry of one peer is replaced.
proof fn lemma_counts_with(held: ManagerV, ip: Seq<char>, info: ConnectionInfo)
    requires
        held.connections.dom().finite(),
    ensures
        ({
            let after = held.with(ip, info);
            let was = held.slot(ip);
            &&& after.connections.dom().finite()
            &&& after.standing() == held.standing() - (if was matches Some(old_info) && stands(
                old_info,
            ) {
                1int
            } else {
                0
            }) + (if stands(info) {
                1int
            } else {
                0
            })
            &&& forall|d: ConnectionDirection| #[trigger]
                after.standing_from(d) == held.standing_from(d) - (if was matches Some(old_info)
                    && stands_from(old_info, d) {
                    1int
                } else {
                    0
                }) + (if stands_from(info, d) {
                    1int
                } else {
                    0
                })
        }),
{
    let m = held.connections;
    let all = |x: ConnectionInfo| stands(x);
    lemma_picked_without(m, ip, all);
    lemma_picked_with(m, ip, info, all);
    assert forall|d: ConnectionDirection| #[trigger]
        held.with(ip, info).standing_from(d) == held.standing_from(d) - (if held.slot(ip) matches Some(
            old_info,
        ) && stands_from(old_info, d) {
            1int
        } else {
            0
        }) + (if stands_from(info, d) {
            1int
        } else {
            0
        }) by {
        let from = |x: ConnectionInfo| stands_from(x, d);
        lemma_picked_without(m, ip, from);
        lemma_picked_with(m, ip, info, from);
    }
}

/// The counters keep to what they count when a peer's connection is accepted,
/// begun, made, ended or taken as gone. (A dial that is marked as failed while
/// its connection stands is put right at the next look at the counters.)
pub proof fn counters_follow_connections(
    held: ManagerV,
    ip: Seq<char>,
    whitelisted: bool,
    session: u64,
    now: u64,
)
    requires
        held.counts_hold(),
        held.connected_count < usize::MAX,
        held.inbound_count < usize::MAX,
        held.outbound_count < usize::MAX,
    ensures
        held.accepted(ip, whitelisted, now).0.counts_hold(),
        held.dialed(ip, now).0.counts_hold(),
        held.slot(ip) matches Some(info) ==> info.direction == ConnectionDirection::Outbound
            ==> held.reached(ip, now).0.counts_hold(),
        held.slot(ip) matches Some(info) ==> info.direction == ConnectionDirection::Inbound
            ==> held.inbound_ended(ip, session, now).0.counts_hold(),
        held.outbound_ended(ip, session, now).0.counts_hold(),
        held.dropped(ip, now).counts_hold(),
        held.forgotten(ip).counts_hold(),
        held.reconciled().counts_hold(),
{
    let checked = held.after_check(ip, whitelisted, now);
    assert(checked.connections == held.connections);
    assert(checked.counts_hold());
    lemma_counts_after(held, ip, held.accepted(ip, whitelisted, now).0);
    lemma_counts_after(held, ip, held.dialed(ip, now).0);
    lemma_counts_after(held, ip, held.reached(ip, now).0);
    lemma_counts_after(held, ip, held.inbound_ended(ip, session, now).0);
    lemma_counts_after(held, ip, held.dropped(ip, now));
    let all = |x: ConnectionInfo| stands(x);
    let from = |x: ConnectionInfo| stands_from(x, ConnectionDirection::Inbound);
    let to = |x: ConnectionInfo| stands_from(x, ConnectionDirection::Outbound);
    lemma_picked_without(held.connections, ip, all);
    lemma_picked_without(held.connections, ip, from);
    lemma_picked_without(held.connections, ip, to);
}

/// The counts after a state in which at most the entry of one peer differs.
proof fn lemma_counts_after(held: ManagerV, ip: Seq<char>, after: ManagerV)
    requires
        held.connections.dom().finite(),
        after.connections == held.connections || (after.connections.contains_key(ip)
            && after.connections == held.connections.insert(ip, after.connections[ip])),
    ensures
        after.connections.dom().finite(),
        after.connections != held.connections ==> {
            let fresh = held.with(ip, after.connections[ip]);
            &&& after.standing() == fresh.standing()
            &&& forall|d: ConnectionDirection| #[trigger]
                after.standing_from(d) == held.standing_from(d) - (if held.slot(ip) matches Some(
                    info,
                ) && stands_from(info, d) {
                    1int
                } else {
                    0
                }) + (if stands_from(after.connections[ip], d) {
                    1int
                } else {
                    0
                })
            &&& after.standing() == held.standing() - (if held.slot(ip) matches Some(info)
                && stands(info) {
                1int
            } else {
                0
            }) + (if stands(after.connections[ip]) {
                1int
            } else {
                0
            })
        },
{
    if after.connections != held.connections {
        let info = after.connections[ip];
        lemma_counts_with(held, ip, info);
        assert forall|d: ConnectionDirection| #[trigger]
            after.standing_from(d) == held.standing_from(d) - (if held.slot(ip) matches Some(was)
                && stands_from(was, d) {
                1int
            } else {
                0
            }) + (if stands_from(info, d) {
                1int
            } else {
                0
            }) by {
            assert(held.with(ip, info).standing_from(d) == after.standing_from(d));
        }
    }
}

/// A session that was replaced cannot end the one that replaced it: once a newer
/// session was accepted, ending an older one of the same peer changes nothing.
pub proof fn replaced_session_ends_nothing(
    held: ManagerV,
    ip: Seq<char>,
    whitelisted: bool,
    now: u64,
    older: u64,
    later: u64,
)
    requires
        older != held.next_generation,
    ensures
        held.accepted(ip, whitelisted, now).1 is Some ==> {
            let after = held.accepted(ip, whitelisted, now).0;
            &&& after.inbound_ended(ip, older, later) == (after, false)
            &&& after.outbound_ended(ip, older, later) == (after, false)
        },
        held.reached(ip, now).1 is Some ==> {
            let after = held.reached(ip, now).0;
            &&& after.inbound_ended(ip, older, later) == (after, false)
            &&& after.outbound_ended(ip, older, later) == (after, false)
        },
{
}

/// An accepted connection holds the peer's place: until it ends the peer is not
/// dialed, and a dial that was in flight comes to nothing.
pub proof fn accepted_connection_blocks_dials(
    held: ManagerV,
    ip: Seq<char>,
    whitelisted: bool,
    now: u64,
    later: u64,
)
    requires
        held.accepted(ip, whitelisted, now).1 is Some,
    ensures
        ({
            let after = held.accepted(ip, whitelisted, now).0;
            &&& after.in_state(ip, PeerConnectionState::Connected)
            &&& after.dialed(ip, later) == (after, false)
            &&& after.reached(ip, later) == (after, None::<u64>)
        }),
{
}

/// Accepting connections keeps to the limit on all of them.
pub proof fn accepting_keeps_the_limit(held: ManagerV, ip: Seq<char>, whitelisted: bool, now: u64)
    requires
        held.connections.dom().finite(),
        held.standing() <= MAX_TOTAL_CONNECTIONS,
    ensures
        held.accepted(ip, whitelisted, now).0.standing() <= MAX_TOTAL_CONNECTIONS,
{
    lemma_counts_after(held, ip, held.accepted(ip, whitelisted, now).0);
}

/// A whitelisted peer is turned away only when the limit on all connections is
/// reached.
pub proof fn whitelisted_peers_are_let_in(held: ManagerV, ip: Seq<char>, now: u64)
    ensures
        held.standing() < MAX_TOTAL_CONNECTIONS <==> held.accepted(ip, true, now).1 is Some,
{
}

/// A connection that is seen without a writer for the first time stays, and so
/// does every connection that has one.
pub proof fn first_sighting_ends_nothing(
    held: ManagerV,
    after: ManagerV,
    dead: Seq<Seq<char>>,
    live: Seq<Seq<char>>,
    window: u64,
    now: u64,
    ip: Seq<char>,
)
    requires
        held.healed(after, dead, live, window, now),
        !held.zombie_since.contains_key(ip) || live.contains(ip),
    ensures
        !dead.contains(ip),
        after.slot(ip) == held.slot(ip),
        live.contains(ip) ==> !after.zombie_since.contains_key(ip),
{
    lemma_all_dropped_spares(held, dead, now, ip);
}

/// Taking some peers as disconnected leaves the others as they are.
proof fn lemma_all_dropped_spares(held: ManagerV, ips: Seq<Seq<char>>, now: u64, ip: Seq<char>)
    requires
        !ips.contains(ip),
    ensures
        held.all_dropped(ips, now).slot(ip) == held.slot(ip),
    decreases ips.len(),
{
    if ips.len() > 0 {
        assert(ips.contains(ips.last()));
        assert forall|k: Seq<char>| ips.drop_last().contains(k) implies ips.contains(k) by {
            let x = choose|x: int| 0 <= x < ips.drop_last().len() && ips.drop_last()[x] == k;
            assert(ips[x] == k);
        }
        lemma_all_dropped_spares(held, ips.drop_last(), now, ip);
    }
}

/// A wait for a peer to dial is over exactly when its timeout has passed, and an
/// accepted or made connection starts it anew.
pub proof fn waits_run_their_time(
    held: ManagerV,
    ip: Seq<char>,
    whitelisted: bool,
    timeout: u64,
    begun: u64,
    now: u64,
)
    requires
        !held.passive_wait_since.contains_key(ip),
        begun <= now,
    ensures
        !held.waited(ip, timeout, begun).1,
        held.waited(ip, timeout, begun).0.waited(ip, timeout, now).1 <==> now - begun > timeout,
        ({
            let waiting = held.waited(ip, timeout, begun).0;
            &&& waiting.accepted(ip, whitelisted, now).1 is Some ==> !waiting.accepted(
                ip,
                whitelisted,
                now,
            ).0.waited(ip, timeout, now).1
            &&& waiting.reached(ip, now).1 is Some ==> !waiting.reached(ip, now).0.waited(
                ip,
                timeout,
                now,
            ).1
        }),
{
}

/// What can happen to a manager: one for each operation that changes it.
pub enum ManagerStep {
    /// `set_local_ip`.
    SetLocalIp { ip: Seq<char> },
    /// `passive_wait_expired`, with any timeout.
    Wait { ip: Seq<char>, timeout: u64, now: u64 },
    /// `can_accept_inbound`.
    Check { ip: Seq<char>, whitelisted: bool, now: u64 },
    /// `can_connect_outbound` and the counts.
    Reconcile,
    /// `abort_connecting`.
    Abort { ip: Seq<char>, now: u64 },
    /// `accept_inbound`.
    Accept { ip: Seq<char>, whitelisted: bool, now: u64 },
    /// `mark_inbound`.
    TakeInbound { ip: Seq<char>, now: u64 },
    /// `mark_inbound_disconnected`.
    EndInbound { ip: Seq<char>, session: u64, now: u64 },
    /// `mark_connecting`.
    Dial { ip: Seq<char>, now: u64 },
    /// `mark_connected`.
    Reach { ip: Seq<char>, now: u64 },
    /// `mark_failed`.
    Fail { ip: Seq<char>, now: u64 },
    /// `remove`.
    Forget { ip: Seq<char> },
    /// `mark_disconnected`.
    Drop { ip: Seq<char>, now: u64 },
    /// `mark_outbound_disconnected`.
    EndOutbound { ip: Seq<char>, session: u64, now: u64 },
    /// `mark_reconnecting`, and `clear_reconnecting` of a peer in that state.
    Move { ip: Seq<char>, state: PeerConnectionState },
    /// `mark_whitelisted` and `update_whitelist_status`.
    Mark { ip: Seq<char>, whitelisted: bool },
    /// `sync_whitelist_from_registry`.
    List { ips: Seq<Seq<char>> },
    /// `record_activity`.
    Hear { ip: Seq<char>, now: u64 },
    /// `cleanup_stale_connecting`.
    Unstick { timeout: u64, now: u64 },
    /// `heal_connected_without_writers`, which gives up `dead`.
    Heal { dead: Seq<Seq<char>>, live: Seq<Seq<char>>, window: u64, now: u64 },
}

impl ManagerV {
    /// After a step.
    pub open spec fn after(self, step: ManagerStep) -> ManagerV {
        match step {
            ManagerStep::SetLocalIp { ip } => ManagerV {
                local_ip: match self.local_ip {
                    Some(known) => Some(known),
                    None => Some(ip),
                },
                ..self
            },
            ManagerStep::Wait { ip, timeout, now } => self.waited(ip, timeout, now).0,
            ManagerStep::Check { ip, whitelisted, now } => self.after_check(ip, whitelisted, now),
            ManagerStep::Reconcile => self.reconciled(),
            ManagerStep::Abort { ip, now } => self.aborted(ip, now).0,
            ManagerStep::Accept { ip, whitelisted, now } => self.accepted(ip, whitelisted, now).0,
            ManagerStep::TakeInbound { ip, now } => self.taken_inbound(ip, now).0,
            ManagerStep::EndInbound { ip, session, now } => self.inbound_ended(ip, session, now).0,
            ManagerStep::Dial { ip, now } => self.dialed(ip, now).0,
            ManagerStep::Reach { ip, now } => self.reached(ip, now).0,
            ManagerStep::Fail { ip, now } => self.failed(ip, now),
            ManagerStep::Forget { ip } => self.forgotten(ip),
            ManagerStep::Drop { ip, now } => self.dropped(ip, now),
            ManagerStep::EndOutbound { ip, session, now } => self.outbound_ended(
                ip,
                session,
                now,
            ).0,
            ManagerStep::Move { ip, state } => self.moved(ip, state),
            ManagerStep::Mark { ip, whitelisted } => self.marked(ip, whitelisted),
            ManagerStep::List { ips } => self.listed(ips),
            ManagerStep::Hear { ip, now } => self.heard(ip, now),
            ManagerStep::Unstick { timeout, now } => self.unstuck(timeout, now),
            ManagerStep::Heal { dead, live, window, now } => ManagerV {
                zombie_since: self.watched(live, window, now),
                ..self.all_dropped(dead, now)
            },
        }
    }

    /// After some steps, one after the other.
    pub open spec fn after_all(self, steps: Seq<ManagerStep>) -> ManagerV
        decreases steps.len(),
    {
        if steps.len() == 0 {
            self
        } else {
            self.after_all(steps.drop_last()).after(steps.last())
        }
    }

    /// The session number that a step hands out: that of the connection or of the
    /// dial that it enters for a peer.
    pub open spec fn hands_out(self, step: ManagerStep) -> Option<u64> {
        match step {
            ManagerStep::Accept { ip, whitelisted, now } => self.accepted(ip, whitelisted, now).1,
            ManagerStep::TakeInbound { ip, now } => self.taken_inbound(ip, now).1,
            ManagerStep::Reach { ip, now } => self.reached(ip, now).1,
            ManagerStep::Dial { ip, now } => if self.dialed(ip, now).1 {
                Some(self.dialed(ip, now).0.connections[ip].generation)
            } else {
                None
            },
            ManagerStep::Fail { ip, now } => if self.slot(ip) is None {
                Some(self.failed(ip, now).connections[ip].generation)
            } else {
                None
            },
            _ => None,
        }
    }
}

proof fn lemma_all_dropped_numbers(held: ManagerV, ips: Seq<Seq<char>>, now: u64)
    ensures
        held.all_dropped(ips, now).next_generation == held.next_generation,
    decreases ips.len(),
{
    if ips.len() > 0 {
        lemma_all_dropped_numbers(held, ips.drop_last(), now);
    }
}

/// No step lowers the next session number, short of the end of the range. What a
/// step hands out is the next number as it was, and the one after it comes next.
pub proof fn session_numbers_rise(held: ManagerV, step: ManagerStep)
    requires
        held.next_generation < u64::MAX,
    ensures
        held.next_generation <= held.after(step).next_generation <= held.next_generation + 1,
        held.hands_out(step) matches Some(session) ==> session == held.next_generation
            && held.after(step).next_generation == session + 1,
{
    match step {
        ManagerStep::Heal { dead, now, .. } => {
            lemma_all_dropped_numbers(held, dead, now);
        },
        _ => {},
    }
}

proof fn lemma_numbers_after_all(held: ManagerV, steps: Seq<ManagerStep>)
    requires
        held.next_generation + steps.len() <= u64::MAX,
    ensures
        held.next_generation <= held.after_all(steps).next_generation <= held.next_generation
            + steps.len(),
    decreases steps.len(),
{
    if steps.len() > 0 {
        lemma_numbers_after_all(held, steps.drop_last());
        session_numbers_rise(held.after_all(steps.drop_last()), steps.last());
    }
}

/// A session number is never handed out twice, as long as the range of numbers
/// lasts: of two steps that hand one out, the later hands out the larger.
pub proof fn session_numbers_differ(held: ManagerV, steps: Seq<ManagerStep>, i: int, j: int)
    requires
        held.next_generation + steps.len() <= u64::MAX,
        0 <= i < j < steps.len(),
        held.after_all(steps.take(i)).hands_out(steps[i]) is Some,
        held.after_all(steps.take(j)).hands_out(steps[j]) is Some,
    ensures
        held.after_all(steps.take(i)).hands_out(steps[i])->0 < held.after_all(
            steps.take(j),
        ).hands_out(steps[j])->0,
{
    let first = held.after_all(steps.take(i));
    let then = held.after_all(steps.take(j));
    lemma_numbers_after_all(held, steps.take(i));
    lemma_numbers_after_all(held, steps.take(j));
    session_numbers_rise(first, steps[i]);
    session_numbers_rise(then, steps[j]);
    lemma_rest_of_steps(held, steps, i + 1, j);
    assert(steps.take(i + 1).drop_last() =~= steps.take(i));
    assert(held.after_all(steps.take(i + 1)) == first.after(steps[i]));
}

proof fn lemma_rest_of_steps(held: ManagerV, steps: Seq<ManagerStep>, i: int, j: int)
    requires
        held.next_generation + steps.len() <= u64::MAX,
        0 <= i <= j <= steps.len(),
    ensures
        held.after_all(steps.take(i)).next_generation <= held.after_all(
            steps.take(j),
        ).next_generation,
    decreases j - i,
{
    if i < j {
        lemma_rest_of_steps(held, steps, i, j - 1);
        lemma_numbers_after_all(held, steps.take(j - 1));
        assert(steps.take(j).drop_last() =~= steps.take(j - 1));
        session_numbers_rise(held.after_all(steps.take(j - 1)), steps[j - 1]);
    }
}

/// Who is let in: nobody beyond 500 connections. Within that a whitelisted peer always
/// is; any other while fewer than 150 peers that are not whitelisted and fewer than 250
/// that dialed are connected, it has no three connections itself, and fewer than 25
/// connections are on the list for the rate. The node dials while fewer than 500 are
/// connected, and fewer than 250 that it dialed.
pub proof fn limits_let_in(held: ManagerV, ip: Seq<char>, whitelisted: bool, now: u64)
    ensures
        held.room(ip, whitelisted, now) is Ok <==> {
            &&& held.standing() < 500
            &&& whitelisted || {
                &&& held.standing_listed(false) < 150
                &&& held.standing_from(ConnectionDirection::Inbound) < 250
                &&& held.pruned(now).recent_connections.dom().len() < 25
            }
        },
        held.room_outbound() is Ok <==> held.standing() < 500 && held.standing_from(
            ConnectionDirection::Outbound,
        ) < 250,
{
}

/// What counts towards the rate is what came within the last minute: such an entry is
/// never dropped. An older one is, at the first look that comes ten seconds or more
/// after the last clearing.
pub proof fn rate_counts_the_last_minute(held: ManagerV, moment: u64, now: u64)
    requires
        held.recent_connections.contains_key(moment),
    ensures
        ({
            let kept = held.pruned(now).recent_connections;
            &&& now - moment < 60_000_000_000 ==> kept.contains_key(moment) && kept[moment]
                == held.recent_connections[moment]
            &&& now - moment >= 60_000_000_000 && now - held.last_cleanup >= 10_000_000_000
                ==> !kept.contains_key(moment)
            &&& now - held.last_cleanup >= 10_000_000_000 ==> held.pruned(now).last_cleanup == now
        }),
{
}

/// A new connection is entered as it is: connected, opened by the peer, with the next
/// session number. Where the node has one to the peer already or is dialing it, the one
/// of the lower side gives way: it is accepted unless the node ranks above the peer. A
/// second one from the same peer is not. A whitelisted peer is always accepted.
pub proof fn lower_side_gives_way(held: ManagerV, ip: Seq<char>, whitelisted: bool, now: u64)
    requires
        held.room(ip, whitelisted, now) is Ok,
    ensures
        ({
            let (after, session) = held.accepted(ip, whitelisted, now);
            let free = held.slot(ip) is None || held.in_state(
                ip,
                PeerConnectionState::Disconnected,
            );
            let ours = !free && held.connections[ip].direction == ConnectionDirection::Outbound;
            &&& session is Some <==> free || whitelisted || (ours && !held.ranks_above(ip))
            &&& session matches Some(n) ==> {
                let info = after.connections[ip];
                &&& n == held.next_generation
                &&& after.connections.contains_key(ip)
                &&& info.state == PeerConnectionState::Connected
                &&& info.direction == ConnectionDirection::Inbound
                &&& info.generation == n
                &&& info.is_whitelisted == whitelisted
                &&& info.connected_at == Some(now)
                &&& !after.passive_wait_since.contains_key(ip)
            }
            &&& session is None ==> after.connections == held.connections
        }),
{
}

/// Without room nobody is accepted.
pub proof fn full_nodes_accept_nobody(held: ManagerV, ip: Seq<char>, whitelisted: bool, now: u64)
    requires
        held.room(ip, whitelisted, now) is Err,
    ensures
        held.accepted(ip, whitelisted, now).1 is None,
        held.accepted(ip, whitelisted, now).0.connections == held.connections,
{
}

/// A dial is begun unless the peer is connected or being dialed, and is then in flight.
/// Only a dial in flight makes a connection, which then stands with a new session number.
/// A dial that failed is to be made again later, and one that was given up is gone.
pub proof fn dials_run_their_course(held: ManagerV, ip: Seq<char>, now: u64)
    requires
        held.next_generation < u64::MAX,
        held.slot(ip) matches Some(info) ==> info.connection_count < usize::MAX,
    ensures
        held.dialed(ip, now).1 <==> !held.in_state(ip, PeerConnectionState::Connected)
            && !held.in_state(ip, PeerConnectionState::Connecting),
        held.dialed(ip, now).1 ==> {
            let info = held.dialed(ip, now).0.connections[ip];
            &&& info.state == PeerConnectionState::Connecting
            &&& info.direction == ConnectionDirection::Outbound
            &&& info.generation == held.next_generation
            &&& info.last_message_at == Some(now)
        },
        !held.dialed(ip, now).1 ==> held.dialed(ip, now).0 == held,
        held.reached(ip, now).1 is Some <==> held.in_state(ip, PeerConnectionState::Connecting),
        held.reached(ip, now).1 matches Some(session) ==> {
            let info = held.reached(ip, now).0.connections[ip];
            &&& session == held.next_generation
            &&& info.state == PeerConnectionState::Connected
            &&& info.direction == held.connections[ip].direction
            &&& info.generation == session
            &&& info.connected_at == Some(now)
            &&& info.connection_count == held.connections[ip].connection_count + 1
            &&& !held.reached(ip, now).0.passive_wait_since.contains_key(ip)
        },
        held.reached(ip, now).1 is None ==> held.reached(ip, now).0 == held,
        held.failed(ip, now).in_state(ip, PeerConnectionState::Reconnecting),
        held.failed(ip, now).connections[ip].disconnected_at == Some(now),
        held.aborted(ip, now).1 <==> held.in_state(ip, PeerConnectionState::Connecting),
        held.aborted(ip, now).1 ==> held.aborted(ip, now).0.in_state(
            ip,
            PeerConnectionState::Disconnected,
        ) && held.aborted(ip, now).0.connections[ip].disconnected_at == Some(now),
        !held.aborted(ip, now).1 ==> held.aborted(ip, now).0 == held,
{
}

/// A session ends only by its own number: an inbound one while it stands, an outbound
/// one while the peer's entry is outbound. The peer is then disconnected since now; with
/// another number nothing happens.
pub proof fn sessions_end_by_their_number(held: ManagerV, ip: Seq<char>, session: u64, now: u64)
    ensures
        ({
            let (after, ended) = held.inbound_ended(ip, session, now);
            &&& ended <==> held.in_state(ip, PeerConnectionState::Connected)
                && held.connections[ip].generation == session
            &&& ended ==> after.in_state(ip, PeerConnectionState::Disconnected)
                && after.connections[ip].disconnected_at == Some(now)
            &&& !ended ==> after == held
        }),
        ({
            let (after, ended) = held.outbound_ended(ip, session, now);
            &&& ended <==> held.connections.contains_key(ip) && held.connections[ip].direction
                == ConnectionDirection::Outbound && held.connections[ip].generation == session
            &&& ended ==> after.in_state(ip, PeerConnectionState::Disconnected)
                && after.connections[ip].disconnected_at == Some(now)
            &&& !ended ==> after == held
        }),
        held.connections.contains_key(ip) ==> held.dropped(ip, now).in_state(
            ip,
            PeerConnectionState::Disconnected,
        ) && held.dropped(ip, now).connections[ip].disconnected_at == Some(now),
        !held.forgotten(ip).connections.contains_key(ip),
{
}

/// What is done about one peer leaves the entries of all others alone.
pub proof fn other_peers_are_left_alone(
    held: ManagerV,
    ip: Seq<char>,
    other: Seq<char>,
    whitelisted: bool,
    session: u64,
    timeout: u64,
    now: u64,
)
    requires
        other != ip,
    ensures
        held.accepted(ip, whitelisted, now).0.slot(other) == held.slot(other),
        held.taken_inbound(ip, now).0.slot(other) == held.slot(other),
        held.dialed(ip, now).0.slot(other) == held.slot(other),
        held.reached(ip, now).0.slot(other) == held.slot(other),
        held.failed(ip, now).slot(other) == held.slot(other),
        held.aborted(ip, now).0.slot(other) == held.slot(other),
        held.inbound_ended(ip, session, now).0.slot(other) == held.slot(other),
        held.outbound_ended(ip, session, now).0.slot(other) == held.slot(other),
        held.dropped(ip, now).slot(other) == held.slot(other),
        held.forgotten(ip).slot(other) == held.slot(other),
        held.heard(ip, now).slot(other) == held.slot(other),
        held.marked(ip, whitelisted).slot(other) == held.slot(other),
        held.waited(ip, timeout, now).0.connections == held.connections,
{
}

/// A standing connection is counted once in all, once for its side and once by whether
/// the peer is whitelisted; one that does not stand is not counted.
pub proof fn standing_connections_are_counted(held: ManagerV, ip: Seq<char>, info: ConnectionInfo)
    requires
        held.connections.dom().finite(),
        held.slot(ip) is None,
    ensures
        ({
            let after = held.with(ip, info);
            let one: int = if info.state == PeerConnectionState::Connected {
                1
            } else {
                0
            };
            &&& after.standing() == held.standing() + one
            &&& after.standing_from(info.direction) == held.standing_from(info.direction) + one
            &&& forall|d: ConnectionDirection|
                d != info.direction ==> #[trigger] after.standing_from(d) == held.standing_from(d)
            &&& after.standing_listed(info.is_whitelisted) == held.standing_listed(
                info.is_whitelisted,
            ) + one
            &&& after.standing_listed(!info.is_whitelisted) == held.standing_listed(
                !info.is_whitelisted,
            )
        }),
{
    lemma_counts_with(held, ip, info);
    let m = held.connections;
    assert(m.remove(ip) =~= m);
    let listed = |x: ConnectionInfo| stands(x) && x.is_whitelisted == info.is_whitelisted;
    let unlisted = |x: ConnectionInfo| stands(x) && x.is_whitelisted == !info.is_whitelisted;
    lemma_picked_with(m, ip, info, listed);
    lemma_picked_with(m, ip, info, unlisted);
}

/// With no connections nothing is counted.
pub proof fn nothing_is_counted_at_first(held: ManagerV, direction: ConnectionDirection)
    requires
        held.connections == Map::<Seq<char>, ConnectionInfo>::empty(),
    ensures
        held.standing() == 0,
        held.standing_from(direction) == 0,
{
    assert(picked(held.connections, |info: ConnectionInfo| stands(info)) =~= Set::empty());
    assert(picked(held.connections, |info: ConnectionInfo| stands_from(info, direction))
        =~= Set::empty());
}

/// A connection is given up when it has been without a writer for fifteen seconds, and
/// is then disconnected. One without a writer that is not given up is watched since it
/// was first seen so.
pub proof fn writerless_connections_are_given_up(
    held: ManagerV,
    after: ManagerV,
    dead: Seq<Seq<char>>,
    live: Seq<Seq<char>>,
    now: u64,
    ip: Seq<char>,
)
    requires
        held.healed(after, dead, live, ZOMBIE_CONFIRM_WINDOW, now),
    ensures
        ({
            let bare = held.in_state(ip, PeerConnectionState::Connected) && !live.contains(ip);
            let seen = held.zombie_since.contains_key(ip);
            &&& dead.contains(ip) <==> bare && seen && now - held.zombie_since[ip]
                >= 15_000_000_000
            &&& dead.contains(ip) ==> after.in_state(ip, PeerConnectionState::Disconnected)
                && !after.zombie_since.contains_key(ip)
            &&& !dead.contains(ip) ==> after.slot(ip) == held.slot(ip)
            &&& bare && !seen ==> after.zombie_since.contains_key(ip) && after.zombie_since[ip]
                == now
            &&& bare && seen && !dead.contains(ip) ==> after.zombie_since.contains_key(ip)
                && after.zombie_since[ip] == held.zombie_since[ip]
            &&& !bare ==> !after.zombie_since.contains_key(ip)
        }),
{
    if dead.contains(ip) {
        lemma_all_dropped_one(held, dead, now, ip);
    } else {
        lemma_all_dropped_spares(held, dead, now, ip);
    }
}

proof fn lemma_all_dropped_one(held: ManagerV, ips: Seq<Seq<char>>, now: u64, ip: Seq<char>)
    requires
        ips.contains(ip),
        held.connections.contains_key(ip),
    ensures
        held.all_dropped(ips, now).in_state(ip, PeerConnectionState::Disconnected),
    decreases ips.len(),
{
    let front = ips.drop_last();
    let before = held.all_dropped(front, now);
    if front.contains(ip) {
        lemma_all_dropped_one(held, front, now, ip);
    } else {
        lemma_all_dropped_spares(held, front, now, ip);
        let k = choose|k: int| 0 <= k < ips.len() && ips[k] == ip;
        if k < front.len() {
            assert(front[k] == ip);
        }
        assert(ips.last() == ip);
        assert(before.slot(ip) == held.slot(ip));
    }
}

/// Dials that have been in flight for longer than a timeout are given up, and nothing
/// else is touched. A standing connection is silent when nothing came over it for longer
/// than a timeout.
pub proof fn timeouts_are_strict(held: ManagerV, ip: Seq<char>, timeout: u64, now: u64)
    requires
        held.connections.contains_key(ip),
        held.connections[ip].last_message_at is Some,
    ensures
        ({
            let info = held.connections[ip];
            let idle = now - info.last_message_at->0 > timeout;
            let after = held.unstuck(timeout, now);
            &&& after.connections.contains_key(ip)
            &&& info.state == PeerConnectionState::Connecting && idle ==> after.connections[ip].state
                == PeerConnectionState::Disconnected && after.connections[ip].disconnected_at
                == Some(now)
            &&& !(info.state == PeerConnectionState::Connecting && idle) ==> after.connections[ip]
                == info
            &&& ManagerV::silent(info, timeout, now) <==> info.state
                == PeerConnectionState::Connected && idle
        }),
{
}

/// The whitelist is what the last list says: those on it are whitelisted, and no others.
/// A message from a peer is noted at its time, and how long ago a peer left is counted
/// from then.
pub proof fn peers_are_kept_up_to_date(
    held: ManagerV,
    ip: Seq<char>,
    ips: Seq<Seq<char>>,
    whitelisted: bool,
    now: u64,
)
    requires
        held.connections.contains_key(ip),
    ensures
        held.listed(ips).connections[ip].is_whitelisted <==> ips.contains(ip),
        held.listed(ips).connections[ip].state == held.connections[ip].state,
        held.marked(ip, whitelisted).connections[ip].is_whitelisted == whitelisted,
        held.heard(ip, now).connections[ip].last_message_at == Some(now),
        held.connections[ip].disconnected_at matches Some(left) ==> (left <= now ==> held.gone_for(
            ip,
            now,
        ) == Some((now - left) as u64)),
        held.connections[ip].disconnected_at is None ==> held.gone_for(ip, now) is None,
        held.quality(ip, now) matches Some(quality) && {
            let info = held.connections[ip];
            &&& quality.connection_count == info.connection_count
            &&& quality.bytes_sent == info.bytes_sent
            &&& quality.bytes_received == info.bytes_received
            &&& quality.messages == info.messages_sent + info.messages_received
            &&& info.connected_at matches Some(begun) ==> (begun <= now ==> quality.uptime == now
                - begun)
        },
{
}

/// A connection that is taken as inbound is entered where the peer is unknown or being
/// dialed, and only noted otherwise. The counters keep to what they count.
pub proof fn inbound_connections_are_taken(held: ManagerV, ip: Seq<char>, now: u64)
    requires
        held.counts_hold(),
        held.connected_count < usize::MAX,
        held.inbound_count < usize::MAX,
        held.slot(ip) matches Some(info) ==> info.connection_count < usize::MAX,
    ensures
        ({
            let (after, session) = held.taken_inbound(ip, now);
            &&& session is Some <==> held.slot(ip) is None || held.in_state(
                ip,
                PeerConnectionState::Connecting,
            )
            &&& session matches Some(n) ==> {
                let info = after.connections[ip];
                &&& n == held.next_generation
                &&& info.generation == n
                &&& info.state == PeerConnectionState::Connected
                &&& info.direction == ConnectionDirection::Inbound
                &&& info.connected_at == Some(now)
                &&& info.connection_count == (match held.slot(ip) {
                    Some(before) => before.connection_count + 1,
                    None => 1,
                })
            }
            &&& session is None ==> after.connections == held.connections
            &&& after.recent_connections.contains_key(now) && after.recent_connections[now] == ip
            &&& after.counts_hold()
        }),
{
    let after = held.taken_inbound(ip, now).0;
    lemma_counts_after(held, ip, after);
}

/// The counters are put right by counting.
pub proof fn counters_are_put_right(held: ManagerV)
    requires
        held.connections.dom().finite(),
        held.standing() <= usize::MAX,
    ensures
        held.reconciled().counts_hold(),
        held.reconciled().connections == held.connections,
        held.reconciled().next_generation == held.next_generation,
{
    let d = held.connections.dom();
    d.lemma_len_filter(|x: Seq<char>| stands(held.connections[x]));
    let all = picked(held.connections, |info: ConnectionInfo| stands(info));
    let inbound = picked(
        held.connections,
        |info: ConnectionInfo| stands_from(info, ConnectionDirection::Inbound),
    );
    let outbound = picked(
        held.connections,
        |info: ConnectionInfo| stands_from(info, ConnectionDirection::Outbound),
    );
    lemma_picked_without(held.connections, seq![], |info: ConnectionInfo| stands(info));
    vstd::set_lib::lemma_len_subset(inbound, all);
    vstd::set_lib::lemma_len_subset(outbound, all);
}

} // verus!
