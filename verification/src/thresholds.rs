//! How much agreement is enough.

use crate::fees::ceil_div;
use vstd::prelude::*;

verus! {

/// The share of the weight that a vote needs, in percent: 67 at first, 51 once
/// the vote has been stuck for half a minute.
pub open spec fn quorum_percent(elapsed_secs: u64) -> int {
    if elapsed_secs >= 30 {
        51
    } else {
        67
    }
}

/// The weight that makes a transaction final, rounded up.
pub open spec fn finality_weight(total: int, elapsed_secs: u64) -> int {
    ceil_div(total * quorum_percent(elapsed_secs), 100)
}

fn rounded_up(a: u64, b: u64) -> (quotient: u64)
    requires
        b >= 1,
    ensures
        quotient == ceil_div(a as int, b as int),
        quotient <= a,
{
    let q: u64 = a / b;
    let r: u64 = a % b;
    proof {
        let (x, d) = (a as int, b as int);
        assert(x == q * d + r && 0 <= r < d && 0 <= q <= x) by (nonlinear_arith)
            requires
                q == x / d,
                r == x % d,
                x >= 0,
                d >= 1,
        ;
        if r == 0 {
            assert((x + d - 1) / d == q) by (nonlinear_arith)
                requires
                    x == q * d,
                    d >= 1,
            ;
        } else {
            assert((x + d - 1) / d == q + 1 && q + 1 <= x) by (nonlinear_arith)
                requires
                    x == q * d + r,
                    1 <= r < d,
                    q >= 0,
            ;
        }
    }
    if r == 0 {
        q
    } else {
        q + 1
    }
}

/// The weight that makes a transaction final, and a quarter of it, below which
/// a vote that ran out of time is given more.
pub fn vote_finality_threshold(total_avs_weight: u64, elapsed_secs: u64) -> (limits: (u64, u64))
    requires
        total_avs_weight * quorum_percent(elapsed_secs) <= u64::MAX,
    ensures
        limits.0 == finality_weight(total_avs_weight as int, elapsed_secs),
        limits.1 == ceil_div(limits.0 as int, 4),
{
    let q_percent: u64 = if elapsed_secs >= 30 {
        51
    } else {
        67
    };
    let threshold: u64 = rounded_up(total_avs_weight * q_percent, 100);
    (threshold, rounded_up(threshold, 4))
}

/// 67% of a weight, rounded up.
pub fn two_thirds_majority(total: u64) -> (threshold: u64)
    ensures
        threshold == ceil_div(total * 67, 100),
{
    let product: u128 = (total as u128) * 67;
    let threshold: u128 = (product + 99) / 100;
    threshold as u64
}

/// With `n` validators, the number of reports of which one must be honest:
/// a third of `n - 1`, rounded down, and one.
pub open spec fn honest_reports(n: int) -> int {
    if n == 0 {
        1
    } else {
        (n - 1) / 3 + 1
    }
}

/// The number of different reporters that starts the fallback.
pub fn alert_threshold(total_masternodes: usize) -> (threshold: usize)
    ensures
        threshold == honest_reports(total_masternodes as int),
{
    total_masternodes.saturating_sub(1) / 3 + 1
}

/// Two thirds of a weight, rounded down.
pub open spec fn deciding_weight(total: int) -> int {
    total * 2 / 3
}

/// The weight that decides a fallback proposal: two thirds, rounded down.
pub fn fallback_quorum(total_avs_weight: u64) -> (quorum: u64)
    requires
        total_avs_weight * 2 <= u64::MAX,
    ensures
        quorum == deciding_weight(total_avs_weight as int),
{
    total_avs_weight * 2 / 3
}

/// The share never grows while a vote waits.
pub proof fn quorum_falls_with_time(total: int, earlier: u64, later: u64)
    requires
        0 <= total,
        earlier <= later,
    ensures
        finality_weight(total, later) <= finality_weight(total, earlier),
{
}

/// Whatever the time, final means more than half of the weight.
pub proof fn final_means_more_than_half(total: int, elapsed_secs: u64)
    requires
        total > 0,
    ensures
        2 * finality_weight(total, elapsed_secs) > total,
{
}

/// No weight reaches the quorum of a network with any weight at all without votes.
pub proof fn no_votes_no_quorum(total: int, elapsed_secs: u64)
    requires
        total > 0,
    ensures
        finality_weight(total, elapsed_secs) > 0,
{
}

/// There are always enough validators to start the fallback.
pub proof fn alert_threshold_is_reachable(n: int)
    requires
        n > 0,
    ensures
        0 < honest_reports(n) <= n,
{
}

/// More reports than there are faulty validators: with at most a third faulty,
/// one reporter at the threshold is honest.
pub proof fn alert_threshold_exceeds_faulty(n: int, faulty: int)
    requires
        n > 0,
        3 * faulty < n,
    ensures
        honest_reports(n) > faulty,
{
}

/// Before half a minute has passed a transaction needs 67 hundredths of the weight,
/// afterwards 51, and no more than that: one unit less is below the share.
pub proof fn finality_weight_is_the_share(total: int, elapsed_secs: u64)
    requires
        total >= 0,
    ensures
        elapsed_secs < 30 ==> 67 * total <= 100 * finality_weight(total, elapsed_secs) < 67 * total
            + 100,
        elapsed_secs >= 30 ==> 51 * total <= 100 * finality_weight(total, elapsed_secs) < 51 * total
            + 100,
{
    let share = total * quorum_percent(elapsed_secs);
    assert(share <= 100 * ((share + 99) / 100) < share + 100);
}

/// A fallback proposal is decided by two thirds of the weight, and one unit less
/// than the quorum is below two thirds.
pub proof fn fallback_quorum_is_two_thirds(total: int)
    requires
        total >= 0,
    ensures
        3 * deciding_weight(total) <= 2 * total < 3 * (deciding_weight(total) + 1),
{
}

/// The fallback starts with the least number of reports that is above a third of
/// all masternodes but one: one report less is not enough.
pub proof fn alert_threshold_is_least(n: int)
    requires
        n > 0,
    ensures
        3 * (honest_reports(n) - 1) < n <= 3 * honest_reports(n),
{
}

} // verus!
