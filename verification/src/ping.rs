//! Pings and pongs, and attempts at resolving a fork with a peer.

use crate::clock::Clock;
use crate::connections::since;
use vstd::prelude::*;

verus! {

/// The most pings that may be open; at that number the older half is given up.
pub const MAX_PENDING_PINGS: usize = 100;

/// How many of the oldest open pings are given up at once.
pub const DROPPED_PINGS: usize = 50;

/// How long a ping stays open while new ones are sent, in nanoseconds.
pub const PENDING_PING_TIMEOUT: u64 = 120_000_000_000;

/// How long an attempt at resolving a fork may take, in seconds.
pub const FORK_RESOLUTION_TIMEOUT_SECS: u64 = 60;

/// How far apart two heights of the same fork may be.
pub const SAME_FORK_DISTANCE: u64 = 10;

/// How the pings to a peer fare. Times are nanoseconds of the state's own clock.
#[derive(Debug)]
pub struct PingState {
    pub last_ping_sent: Option<u64>,
    pub last_pong_received: Option<u64>,
    /// Each open ping's number and when it was sent.
    pub pending_pings: Vec<(u64, u64)>,
    pub missed_pongs: u32,
    /// How long a message takes one way: half of the latest round trip.
    pub last_rtt: Option<u64>,
    pub clock: Clock,
}

/// What a ping state holds.
#[verifier::ext_equal]
pub struct PingV {
    pub last_ping_sent: Option<u64>,
    pub last_pong_received: Option<u64>,
    pub pending_pings: Seq<(u64, u64)>,
    pub missed_pongs: u32,
    pub last_rtt: Option<u64>,
}

impl View for PingState {
    type V = PingV;

    open spec fn view(&self) -> PingV {
        PingV {
            last_ping_sent: self.last_ping_sent,
            last_pong_received: self.last_pong_received,
            pending_pings: self.pending_pings@,
            missed_pongs: self.missed_pongs,
            last_rtt: self.last_rtt,
        }
    }
}

/// The pings that were sent no longer ago than a timeout, in order.
pub open spec fn still_open(pings: Seq<(u64, u64)>, timeout: u64, now: u64) -> Seq<(u64, u64)>
    decreases pings.len(),
{
    if pings.len() == 0 {
        seq![]
    } else if since(pings.last().1, now) <= timeout {
        still_open(pings.drop_last(), timeout, now).push(pings.last())
    } else {
        still_open(pings.drop_last(), timeout, now)
    }
}

/// Whether a place is the first with a number.
pub open spec fn first_with(pings: Seq<(u64, u64)>, nonce: u64, i: int) -> bool {
    &&& 0 <= i < pings.len()
    &&& pings[i].0 == nonce
    &&& forall|j: int| 0 <= j < i ==> (#[trigger] pings[j]).0 != nonce
}

/// Whether some ping has a number.
pub open spec fn has_nonce(pings: Seq<(u64, u64)>, nonce: u64) -> bool {
    exists|i: int| 0 <= i < pings.len() && (#[trigger] pings[i]).0 == nonce
}

impl PingV {
    /// A state before any ping.
    pub open spec fn empty() -> PingV {
        PingV {
            last_ping_sent: None,
            last_pong_received: None,
            pending_pings: seq![],
            missed_pongs: 0,
            last_rtt: None,
        }
    }

    /// After a ping was sent.
    pub open spec fn sent(self, nonce: u64, now: u64) -> PingV {
        let held = if self.pending_pings.len() >= MAX_PENDING_PINGS {
            self.pending_pings.skip(DROPPED_PINGS as int)
        } else {
            self.pending_pings
        };
        PingV {
            last_ping_sent: Some(now),
            pending_pings: still_open(held.push((nonce, now)), PENDING_PING_TIMEOUT, now),
            ..self
        }
    }

    /// After a pong came, and whether it answers an open ping.
    pub open spec fn answered(self, nonce: u64, now: u64) -> (PingV, bool) {
        let heard = PingV { last_pong_received: Some(now), ..self };
        if has_nonce(self.pending_pings, nonce) {
            let i = choose|i: int| first_with(self.pending_pings, nonce, i);
            (
                PingV {
                    pending_pings: self.pending_pings.remove(i),
                    missed_pongs: 0,
                    last_rtt: Some(one_way(self.pending_pings[i].1, now)),
                    ..heard
                },
                true,
            )
        } else {
            (heard, false)
        }
    }

    /// After pings were given up that are open for longer than a timeout, and
    /// whether too many pongs are missing.
    pub open spec fn timed_out(self, max_missed: u32, timeout: u64, now: u64) -> (PingV, bool) {
        let open_ones = still_open(self.pending_pings, timeout, now);
        let missed = (self.missed_pongs + (self.pending_pings.len() - open_ones.len())) as u32;
        (PingV { pending_pings: open_ones, missed_pongs: missed, ..self }, missed >= max_missed)
    }
}

pub(crate) proof fn lemma_still_open_len(pings: Seq<(u64, u64)>, timeout: u64, now: u64)
    ensures
        still_open(pings, timeout, now).len() <= pings.len(),
    decreases pings.len(),
{
    if pings.len() > 0 {
        lemma_still_open_len(pings.drop_last(), timeout, now);
    }
}

/// Half of the time from one moment to another, rounded down.
pub open spec fn one_way(then: u64, now: u64) -> u64 {
    (since(then, now) / 2) as u64
}

fn elapsed(then: u64, now: u64) -> (nanos: u64)
    ensures
        nanos == since(then, now),
{
    if now >= then {
        now - then
    } else {
        0
    }
}

fn keep_open(pings: &Vec<(u64, u64)>, from: usize, timeout: u64, now: u64) -> (kept: Vec<(u64, u64)>)
    requires
        from <= pings@.len(),
    ensures
        kept@ == still_open(pings@.skip(from as int), timeout, now),
{
    let ghost rest = pings@.skip(from as int);
    let mut kept: Vec<(u64, u64)> = Vec::new();
    let mut i: usize = from;
    assert(rest.take(0) =~= seq![]);
    assert(kept@ =~= seq![]);
    while i < pings.len()
        invariant
            from <= i <= pings@.len(),
            rest == pings@.skip(from as int),
            kept@ == still_open(rest.take(i - from), timeout, now),
        decreases pings@.len() - i,
    {
        proof {
            let upto = rest.take(i - from + 1);
            assert(upto.drop_last() =~= rest.take(i - from));
            assert(upto.last() == pings@[i as int]);
        }
        let ping: (u64, u64) = pings[i];
        if elapsed(ping.1, now) <= timeout {
            kept.push(ping);
        }
        i = i + 1;
    }
    assert(rest.take(i - from) =~= rest);
    kept
}

impl PingState {
    /// A state before any ping.
    pub fn new() -> (state: Self)
        ensures
            state@ == PingV::empty(),
    {
        let state = PingState {
            last_ping_sent: None,
            last_pong_received: None,
            pending_pings: Vec::new(),
            missed_pongs: 0,
            last_rtt: None,
            clock: Clock::new(),
        };
        assert(state@.pending_pings =~= seq![]);
        state
    }

    /// Notes a ping, at a time. Pings that are open for too long are given up.
    pub fn record_ping_sent_at(&mut self, nonce: u64, now: u64)
        ensures
            final(self)@ == old(self)@.sent(nonce, now),
    {
        let ghost before = self@;
        self.last_ping_sent = Some(now);
        let from: usize = if self.pending_pings.len() >= MAX_PENDING_PINGS {
            DROPPED_PINGS
        } else {
            0
        };
        self.pending_pings.push((nonce, now));
        let kept = keep_open(&self.pending_pings, from, PENDING_PING_TIMEOUT, now);
        proof {
            let held = if before.pending_pings.len() >= MAX_PENDING_PINGS {
                before.pending_pings.skip(DROPPED_PINGS as int)
            } else {
                before.pending_pings
            };
            assert(self.pending_pings@.skip(from as int) =~= held.push((nonce, now)));
        }
        self.pending_pings = kept;
    }

    /// Notes a pong, at a time. It matches if it has the number of an open ping,
    /// which is then closed.
    pub fn record_pong_received_at(&mut self, nonce: u64, now: u64) -> (matched: bool)
        ensures
            (final(self)@, matched) == old(self)@.answered(nonce, now),
    {
        let ghost pings = self.pending_pings@;
        self.last_pong_received = Some(now);
        let mut i: usize = 0;
        while i < self.pending_pings.len()
            invariant
                i <= self.pending_pings@.len(),
                pings == self.pending_pings@,
                self@ == (PingV { last_pong_received: Some(now), ..old(self)@ }),
                old(self)@.pending_pings == pings,
                forall|j: int| 0 <= j < i ==> (#[trigger] pings[j]).0 != nonce,
            decreases self.pending_pings@.len() - i,
        {
            if self.pending_pings[i].0 == nonce {
                proof {
                    assert(pings[i as int].0 == nonce);
                    assert(first_with(pings, nonce, i as int));
                    let c = choose|c: int| first_with(pings, nonce, c);
                    if c < i {
                        assert(pings[c].0 != nonce);
                    }
                    if i < c {
                        assert(pings[i as int].0 != nonce);
                    }
                    assert(c == i);
                }
                let ping: (u64, u64) = self.pending_pings.remove(i);
                self.last_rtt = Some(elapsed(ping.1, now) / 2);
                self.missed_pongs = 0;
                return true;
            }
            i = i + 1;
        }
        false
    }

    /// Gives up pings that are open for longer than a timeout, at a time, and says
    /// whether too many pongs are missing.
    pub fn check_timeout_at(&mut self, max_missed: u32, timeout: u64, now: u64) -> (over: bool)
        requires
            old(self)@.missed_pongs + (old(self)@.pending_pings.len() - still_open(
                old(self)@.pending_pings,
                timeout,
                now,
            ).len()) <= u32::MAX,
        ensures
            (final(self)@, over) == old(self)@.timed_out(max_missed, timeout, now),
    {
        let before: usize = self.pending_pings.len();
        let kept = keep_open(&self.pending_pings, 0, timeout, now);
        proof {
            assert(self.pending_pings@.skip(0) =~= self.pending_pings@);
            lemma_still_open_len(self.pending_pings@, timeout, now);
        }
        let expired: usize = before - kept.len();
        self.pending_pings = kept;
        self.missed_pongs = self.missed_pongs + expired as u32;
        self.missed_pongs >= max_missed
    }

    /// Notes a ping.
    pub fn record_ping_sent(&mut self, nonce: u64)
        ensures
            exists|now: u64| final(self)@ == #[trigger] old(self)@.sent(nonce, now),
    {
        let now: u64 = self.clock.nanos();
        self.record_ping_sent_at(nonce, now);
    }

    /// Notes a pong.
    pub fn record_pong_received(&mut self, nonce: u64) -> (matched: bool)
        ensures
            exists|now: u64| (final(self)@, matched) == #[trigger] old(self)@.answered(nonce, now),
    {
        let now: u64 = self.clock.nanos();
        self.record_pong_received_at(nonce, now)
    }

    /// Gives up pings that are open for longer than a timeout, and says whether too
    /// many pongs are missing.
    pub fn check_timeout(&mut self, max_missed: u32, timeout: u64) -> (over: bool)
        requires
            old(self)@.missed_pongs + old(self)@.pending_pings.len() <= u32::MAX,
        ensures
            exists|now: u64|
                (final(self)@, over) == #[trigger] old(self)@.timed_out(max_missed, timeout, now),
    {
        let now: u64 = self.clock.nanos();
        proof {
            lemma_still_open_len(self.pending_pings@, timeout, now);
        }
        self.check_timeout_at(max_missed, timeout, now)
    }
}

/// However many pings go unanswered, no more stay open than the limit.
pub proof fn open_pings_are_bounded(held: PingV, nonce: u64, now: u64)
    requires
        held.pending_pings.len() <= MAX_PENDING_PINGS,
    ensures
        held.sent(nonce, now).pending_pings.len() <= MAX_PENDING_PINGS,
{
    let from = if held.pending_pings.len() >= MAX_PENDING_PINGS {
        held.pending_pings.skip(DROPPED_PINGS as int)
    } else {
        held.pending_pings
    };
    lemma_still_open_len(from.push((nonce, now)), PENDING_PING_TIMEOUT, now);
}

/// A pong that answers the latest ping is taken as its answer: it matches, nothing
/// counts as missed, and a second one like it no longer matches.
pub proof fn pong_answers_its_ping(held: PingV, nonce: u64, now: u64, later: u64)
    requires
        !has_nonce(held.pending_pings, nonce),
    ensures
        ({
            let waiting = held.sent(nonce, now);
            let (after, matched) = waiting.answered(nonce, later);
            &&& matched
            &&& after.missed_pongs == 0
            &&& after.last_rtt == Some(one_way(now, later))
            &&& !after.answered(nonce, later).1
        }),
{
    let from = if held.pending_pings.len() >= MAX_PENDING_PINGS {
        held.pending_pings.skip(DROPPED_PINGS as int)
    } else {
        held.pending_pings
    };
    let all = from.push((nonce, now));
    let kept = still_open(all, PENDING_PING_TIMEOUT, now);
    let front = still_open(from, PENDING_PING_TIMEOUT, now);
    assert(all.drop_last() =~= from);
    assert(kept == front.push((nonce, now)));
    if has_nonce(from, nonce) {
        let i = choose|i: int| 0 <= i < from.len() && (#[trigger] from[i]).0 == nonce;
        if held.pending_pings.len() >= MAX_PENDING_PINGS {
            assert(held.pending_pings[i + DROPPED_PINGS as int].0 == nonce);
        } else {
            assert(held.pending_pings[i].0 == nonce);
        }
    }
    lemma_still_open_from(from, PENDING_PING_TIMEOUT, now, nonce);
    let last = front.len() as int;
    assert(kept[last].0 == nonce);
    assert forall|j: int| 0 <= j < last implies (#[trigger] kept[j]).0 != nonce by {
        assert(kept[j] == front[j]);
    }
    assert(first_with(kept, nonce, last));
    let c = choose|c: int| first_with(kept, nonce, c);
    assert(c == last) by {
        if c < last {
            assert(kept[c].0 != nonce);
        }
    }
    assert(kept.remove(last) =~= front);
}

proof fn lemma_still_open_from(pings: Seq<(u64, u64)>, timeout: u64, now: u64, nonce: u64)
    requires
        !has_nonce(pings, nonce),
    ensures
        !has_nonce(still_open(pings, timeout, now), nonce),
    decreases pings.len(),
{
    if pings.len() > 0 {
        let front = pings.drop_last();
        if has_nonce(front, nonce) {
            let i = choose|i: int| 0 <= i < front.len() && (#[trigger] front[i]).0 == nonce;
            assert(pings[i].0 == nonce);
        }
        lemma_still_open_from(front, timeout, now, nonce);
        let kept = still_open(pings, timeout, now);
        let earlier = still_open(front, timeout, now);
        if has_nonce(kept, nonce) {
            let i = choose|i: int| 0 <= i < kept.len() && (#[trigger] kept[i]).0 == nonce;
            if i < earlier.len() {
                assert(earlier[i].0 == nonce);
            } else {
                assert(pings[pings.len() - 1].0 == nonce);
            }
        }
    }
}

/// An attempt at resolving a fork with a peer.
#[derive(Debug)]
pub struct ForkResolutionAttempt {
    pub fork_height: u64,
    pub attempt_count: u32,
    pub last_attempt: u64,
    pub common_ancestor: Option<u64>,
    pub peer_height: u64,
    pub max_depth_searched: u64,
    pub clock: Clock,
}

/// What an attempt holds.
pub struct ForkAttemptV {
    pub fork_height: u64,
    pub attempt_count: u32,
    pub last_attempt: u64,
    pub common_ancestor: Option<u64>,
    pub peer_height: u64,
    pub max_depth_searched: u64,
}

impl View for ForkResolutionAttempt {
    type V = ForkAttemptV;

    open spec fn view(&self) -> ForkAttemptV {
        ForkAttemptV {
            fork_height: self.fork_height,
            attempt_count: self.attempt_count,
            last_attempt: self.last_attempt,
            common_ancestor: self.common_ancestor,
            peer_height: self.peer_height,
            max_depth_searched: self.max_depth_searched,
        }
    }
}

/// A height as a signed number of the same width.
pub open spec fn signed(height: u64) -> int {
    if height <= i64::MAX {
        height as int
    } else {
        height - 0x1_0000_0000_0000_0000
    }
}

/// Whether the difference of two heights has a place in a signed number.
pub open spec fn comparable(a: u64, b: u64) -> bool {
    -i64::MAX <= signed(a) - signed(b) <= i64::MAX
}

/// Whether a latest try was so long ago that an attempt is over.
pub open spec fn attempt_over(last_attempt: u64, now: u64) -> bool {
    since(last_attempt, now) / 1_000_000_000 > FORK_RESOLUTION_TIMEOUT_SECS
}

/// Whether two heights are near enough for the same fork.
pub open spec fn near(a: u64, b: u64) -> bool {
    -SAME_FORK_DISTANCE <= signed(a) - signed(b) <= SAME_FORK_DISTANCE
}

/// Whether two heights are near enough for the same fork.
pub fn heights_near(a: u64, b: u64) -> (yes: bool)
    requires
        comparable(a, b),
    ensures
        yes == near(a, b),
{
    let x: i128 = if a <= i64::MAX as u64 {
        a as i128
    } else {
        a as i128 - 0x1_0000_0000_0000_0000
    };
    let y: i128 = if b <= i64::MAX as u64 {
        b as i128
    } else {
        b as i128 - 0x1_0000_0000_0000_0000
    };
    let distance: i128 = x - y;
    -(SAME_FORK_DISTANCE as i128) <= distance && distance <= SAME_FORK_DISTANCE as i128
}

impl ForkResolutionAttempt {
    /// A first attempt.
    pub fn new(fork_height: u64, peer_height: u64) -> (attempt: Self)
        ensures
            attempt@ == (ForkAttemptV {
                fork_height,
                attempt_count: 1,
                last_attempt: 0,
                common_ancestor: None,
                peer_height,
                max_depth_searched: 0,
            }),
    {
        ForkResolutionAttempt {
            fork_height,
            attempt_count: 1,
            last_attempt: 0,
            common_ancestor: None,
            peer_height,
            max_depth_searched: 0,
            clock: Clock::new(),
        }
    }

    /// Whether heights belong to the same fork.
    pub fn is_same_fork(&self, fork_height: u64, peer_height: u64) -> (same: bool)
        requires
            comparable(self@.fork_height, fork_height),
            near(self@.fork_height, fork_height) ==> comparable(self@.peer_height, peer_height),
        ensures
            same == (near(self@.fork_height, fork_height) && near(self@.peer_height, peer_height)),
    {
        heights_near(self.fork_height, fork_height) && heights_near(self.peer_height, peer_height)
    }

    /// Whether the latest try was so long ago that the attempt is over, at a time.
    pub fn should_give_up_at(&self, now: u64) -> (over: bool)
        ensures
            over == attempt_over(self@.last_attempt, now),
    {
        elapsed(self.last_attempt, now) / 1_000_000_000 > FORK_RESOLUTION_TIMEOUT_SECS
    }

    /// Whether the latest try was so long ago that the attempt is over.
    pub fn should_give_up(&self) -> (over: bool)
        ensures
            exists|now: u64|
                over == #[trigger] attempt_over(self@.last_attempt, now),
    {
        let now: u64 = self.clock.nanos();
        self.should_give_up_at(now)
    }

    /// Notes how far back was searched; the furthest counts.
    pub fn update_depth(&mut self, current_height: u64, search_height: u64)
        ensures
            final(self)@ == (ForkAttemptV {
                max_depth_searched: if current_height - search_height
                    > old(self)@.max_depth_searched {
                    (current_height - search_height) as u64
                } else {
                    old(self)@.max_depth_searched
                },
                ..old(self)@
            }),
    {
        let depth: u64 = current_height.saturating_sub(search_height);
        if depth > self.max_depth_searched {
            self.max_depth_searched = depth;
        }
    }

    /// Counts another try, at a time.
    pub fn increment_at(&mut self, now: u64)
        requires
            old(self)@.attempt_count < u32::MAX,
        ensures
            final(self)@ == (ForkAttemptV {
                attempt_count: (old(self)@.attempt_count + 1) as u32,
                last_attempt: now,
                ..old(self)@
            }),
    {
        self.attempt_count = self.attempt_count + 1;
        self.last_attempt = now;
    }

    /// Counts another try.
    pub fn increment(&mut self)
        requires
            old(self)@.attempt_count < u32::MAX,
        ensures
            final(self)@ == (ForkAttemptV {
                attempt_count: (old(self)@.attempt_count + 1) as u32,
                last_attempt: final(self)@.last_attempt,
                ..old(self)@
            }),
    {
        let now: u64 = self.clock.nanos();
        self.increment_at(now);
    }
}

/// A ping stays open for a timeout and not longer: it is kept exactly when it was sent
/// no longer ago than that, and the order is kept.
pub proof fn pings_stay_open_for_a_while(
    pings: Seq<(u64, u64)>,
    ping: (u64, u64),
    timeout: u64,
    now: u64,
)
    ensures
        still_open(seq![], timeout, now).len() == 0,
        now - ping.1 <= timeout ==> still_open(pings.push(ping), timeout, now) == still_open(
            pings,
            timeout,
            now,
        ).push(ping),
        now - ping.1 > timeout ==> still_open(pings.push(ping), timeout, now) == still_open(
            pings,
            timeout,
            now,
        ),
{
    assert(pings.push(ping).drop_last() =~= pings);
}

/// A ping that was sent is open and the latest. Open ones for more than two minutes are
/// given up, and at a hundred the older half.
pub proof fn sent_pings_are_open(held: PingV, nonce: u64, now: u64)
    ensures
        held.sent(nonce, now).last_ping_sent == Some(now),
        held.sent(nonce, now).pending_pings.len() > 0,
        held.sent(nonce, now).pending_pings.last() == (nonce, now),
        held.sent(nonce, now).missed_pongs == held.missed_pongs,
        held.pending_pings.len() < 100 ==> held.sent(nonce, now).pending_pings == still_open(
            held.pending_pings,
            120_000_000_000,
            now,
        ).push((nonce, now)),
        held.pending_pings.len() >= 100 ==> held.sent(nonce, now).pending_pings == still_open(
            held.pending_pings.skip(50),
            120_000_000_000,
            now,
        ).push((nonce, now)),
{
    let from = if held.pending_pings.len() >= MAX_PENDING_PINGS {
        held.pending_pings.skip(DROPPED_PINGS as int)
    } else {
        held.pending_pings
    };
    assert(from.push((nonce, now)).drop_last() =~= from);
}

/// A pong with the number of no open ping changes nothing but when a pong last came. One
/// with the number of an open ping closes that one and no other, makes up for all that
/// were missed, and tells half of the time since the ping was sent.
pub proof fn pongs_close_their_pings(held: PingV, nonce: u64, now: u64, i: int)
    requires
        0 <= i < held.pending_pings.len(),
        held.pending_pings[i].0 == nonce,
        forall|j: int| 0 <= j < i ==> (#[trigger] held.pending_pings[j]).0 != nonce,
        held.pending_pings[i].1 <= now,
    ensures
        ({
            let (after, matched) = held.answered(nonce, now);
            &&& matched
            &&& after.pending_pings == held.pending_pings.remove(i)
            &&& after.missed_pongs == 0
            &&& after.last_pong_received == Some(now)
            &&& after.last_rtt matches Some(half) && 2 * half <= now - held.pending_pings[i].1 < 2
                * half + 2
        }),
        forall|other: u64|
            !has_nonce(held.pending_pings, other) ==> #[trigger] held.answered(other, now) == (
                PingV { last_pong_received: Some(now), ..held },
                false,
            ),
{
    assert(first_with(held.pending_pings, nonce, i));
    let c = choose|c: int| first_with(held.pending_pings, nonce, c);
    if c < i {
        assert(held.pending_pings[c].0 != nonce);
    }
    if i < c {
        assert(held.pending_pings[i].0 != nonce);
    }
}

/// Every ping that is given up counts as missed, and too many are missing from the
/// given number on.
pub proof fn unanswered_pings_are_missed(held: PingV, max_missed: u32, timeout: u64, now: u64)
    requires
        held.missed_pongs + held.pending_pings.len() <= u32::MAX,
    ensures
        ({
            let (after, over) = held.timed_out(max_missed, timeout, now);
            &&& after.pending_pings == still_open(held.pending_pings, timeout, now)
            &&& after.missed_pongs + after.pending_pings.len() == held.missed_pongs
                + held.pending_pings.len()
            &&& over <==> after.missed_pongs >= max_missed
            &&& after.last_pong_received == held.last_pong_received
        }),
{
    lemma_still_open_len(held.pending_pings, timeout, now);
}

/// Two heights are near when they are at most ten apart. An attempt at resolving a fork
/// is over when 61 seconds have passed since the latest try.
pub proof fn forks_are_near_and_soon(a: u64, b: u64, last_attempt: u64, now: u64)
    requires
        a <= i64::MAX,
        b <= i64::MAX,
    ensures
        near(a, b) <==> a <= b + 10 && b <= a + 10,
        attempt_over(last_attempt, now) <==> now - last_attempt >= 61_000_000_000,
{
}

} // verus!
