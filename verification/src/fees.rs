//! Fees: a tiered rate on the amount sent, and never less than a floor.

use vstd::prelude::*;

verus! {

/// 0.01 TIME, the least fee of a transaction.
pub const MIN_TX_FEE: u64 = 1_000_000;

/// Satoshis in one TIME.
pub const SATOSHIS_PER_TIME: u64 = 100_000_000;

/// The rate above every tier, in basis points.
pub const TOP_RATE: u64 = 10;

/// Governance-adjustable fee schedule.
#[derive(Debug)]
pub struct FeeSchedule {
    /// (upper bound in satoshis, rate in basis points), smallest bound first.
    pub tiers: Vec<(u64, u64)>,
    pub min_fee: u64,
}

/// The rate of the first tier whose bound is above the amount, or the rate above
/// every tier where there is none.
pub open spec fn rate_for(tiers: Seq<(u64, u64)>, amount: u64) -> u64
    decreases tiers.len(),
{
    if tiers.len() == 0 {
        TOP_RATE
    } else if amount < tiers[0].0 {
        tiers[0].1
    } else {
        rate_for(tiers.drop_first(), amount)
    }
}

/// `amount * rate / 10_000`, rounded down.
pub open spec fn proportional_fee(amount: u64, rate: u64) -> int {
    amount * rate / 10_000
}

/// The larger of two numbers.
pub open spec fn larger(a: int, b: int) -> int {
    if a >= b {
        a
    } else {
        b
    }
}

/// A product held at the largest `u64`.
pub open spec fn capped_product(a: u64, b: u64) -> int {
    if a * b <= u64::MAX {
        a * b
    } else {
        u64::MAX as int
    }
}

/// A quotient rounded up.
pub open spec fn ceil_div(a: int, b: int) -> int {
    (a + b - 1) / b
}

/// The fee taken out of a gross amount at one tier's rate:
/// `amount * rate / (10_000 + rate)` rounded up, and at least the floor.
pub open spec fn tier_deduction(amount: u64, rate: u64, min_fee: u64) -> int {
    larger(ceil_div(capped_product(amount, rate), 10_000 + rate), min_fee as int)
}

/// What is left of an amount, never below zero.
pub open spec fn left_after(amount: u64, fee: int) -> int {
    larger(amount - fee, 0)
}

/// Whether what is left after a tier's deduction stays below the tier's bound.
pub open spec fn tier_takes(tier: (u64, u64), amount: u64, min_fee: u64) -> bool {
    left_after(amount, tier_deduction(amount, tier.1, min_fee)) < tier.0
}

/// The deduction of the first tier that takes the amount, or the one at the rate
/// above every tier where none does.
pub open spec fn deduction(tiers: Seq<(u64, u64)>, amount: u64, min_fee: u64) -> int
    decreases tiers.len(),
{
    if tiers.len() == 0 {
        tier_deduction(amount, TOP_RATE, min_fee)
    } else if tier_takes(tiers[0], amount, min_fee) {
        tier_deduction(amount, tiers[0].1, min_fee)
    } else {
        deduction(tiers.drop_first(), amount, min_fee)
    }
}

impl FeeSchedule {
    /// Every rate leaves room for `10_000 + rate` in a `u64`.
    pub open spec fn rates_fit(&self) -> bool {
        forall|i: int|
            0 <= i < self.tiers@.len() ==> (#[trigger] self.tiers@[i]).1 <= u64::MAX - 10_000
    }

    /// The fee that sending an amount requires.
    pub open spec fn fee_of(&self, send_amount: u64) -> int {
        larger(
            proportional_fee(send_amount, rate_for(self.tiers@, send_amount)),
            self.min_fee as int,
        )
    }

    /// The fee that a gross amount leaves room for.
    pub open spec fn fee_within(&self, amount: u64) -> int {
        deduction(self.tiers@, amount, self.min_fee)
    }

    /// The rate for an amount.
    pub fn rate_of(&self, send_amount: u64) -> (rate: u64)
        ensures
            rate == rate_for(self.tiers@, send_amount),
    {
        let mut i: usize = 0;
        assert(self.tiers@.skip(0) =~= self.tiers@);
        while i < self.tiers.len()
            invariant
                i <= self.tiers@.len(),
                rate_for(self.tiers@, send_amount) == rate_for(
                    self.tiers@.skip(i as int),
                    send_amount,
                ),
            decreases self.tiers@.len() - i,
        {
            assert(self.tiers@.skip(i as int).drop_first() =~= self.tiers@.skip(i + 1));
            let tier = self.tiers[i];
            assert(self.tiers@.skip(i as int)[0] == tier);
            if send_amount < tier.0 {
                return tier.1;
            }
            i = i + 1;
        }
        TOP_RATE
    }

    /// The least fee for sending an amount.
    pub fn required_fee(&self, send_amount: u64) -> (fee: u64)
        requires
            send_amount * rate_for(self.tiers@, send_amount) <= u64::MAX,
        ensures
            fee == self.fee_of(send_amount),
    {
        let rate_bps: u64 = self.rate_of(send_amount);
        let proportional: u64 = send_amount * rate_bps / 10_000;
        if proportional >= self.min_fee {
            proportional
        } else {
            self.min_fee
        }
    }

    /// The fee to deduct from a gross amount so that the recipient gets
    /// `amount - fee` and the fee is enough for that.
    pub fn required_fee_subtract(&self, amount: u64) -> (fee: u64)
        requires
            self.rates_fit(),
        ensures
            fee == self.fee_within(amount),
    {
        let mut i: usize = 0;
        assert(self.tiers@.skip(0) =~= self.tiers@);
        while i < self.tiers.len()
            invariant
                i <= self.tiers@.len(),
                self.rates_fit(),
                self.fee_within(amount) == deduction(
                    self.tiers@.skip(i as int),
                    amount,
                    self.min_fee,
                ),
            decreases self.tiers@.len() - i,
        {
            let tier = self.tiers[i];
            assert(self.tiers@[i as int] == tier);
            assert(self.tiers@.skip(i as int)[0] == tier);
            assert(self.tiers@.skip(i as int).drop_first() =~= self.tiers@.skip(i + 1));
            let f: u64 = deduct_at(amount, tier.1, self.min_fee);
            let send_amount: u64 = amount.saturating_sub(f);
            if send_amount < tier.0 {
                return f;
            }
            i = i + 1;
        }
        deduct_at(amount, TOP_RATE, self.min_fee)
    }
}

fn deduct_at(amount: u64, rate: u64, min_fee: u64) -> (fee: u64)
    requires
        rate <= u64::MAX - 10_000,
    ensures
        fee == tier_deduction(amount, rate, min_fee),
{
    let divisor: u64 = 10_000 + rate;
    let product: u64 = match amount.checked_mul(rate) {
        Some(p) => p,
        None => u64::MAX,
    };
    let wide: u128 = (product as u128 + divisor as u128 - 1) / (divisor as u128);
    proof {
        let p = product as int;
        let d = divisor as int;
        if p == 0 {
            assert((d - 1) / d == 0) by (nonlinear_arith)
                requires
                    d >= 1,
            ;
        } else {
            assert((p + d - 1) / d <= p) by (nonlinear_arith)
                requires
                    p >= 1,
                    d >= 1,
            ;
        }
    }
    let f: u64 = wide as u64;
    if f >= min_fee {
        f
    } else {
        min_fee
    }
}

proof fn lemma_deduction_covers(amount: int, rate: int, min_fee: int, fee: int, sent: int)
    requires
        amount >= 0,
        rate >= 0,
        fee >= ceil_div(amount * rate, 10_000 + rate),
        0 <= sent,
        sent <= amount - fee || sent == 0,
    ensures
        sent * rate / 10_000 <= larger(fee, 0),
{
    let d = 10_000 + rate;
    let q = ceil_div(amount * rate, d);
    assert(amount * rate >= 0) by (nonlinear_arith)
        requires
            amount >= 0,
            rate >= 0,
    ;
    assert(q * d >= amount * rate) by (nonlinear_arith)
        requires
            q == (amount * rate + d - 1) / d,
            d >= 1,
    ;
    if sent == 0 {
        assert(sent * rate == 0) by (nonlinear_arith)
            requires
                sent == 0,
        ;
        assert(q >= 0) by (nonlinear_arith)
            requires
                q * d >= 0,
                d >= 1,
        ;
    } else {
        assert(fee * d >= amount * rate) by (nonlinear_arith)
            requires
                fee >= q,
                q * d >= amount * rate,
                d >= 1,
        ;
        assert(sent * rate <= fee * 10_000) by (nonlinear_arith)
            requires
                fee * (10_000 + rate) >= amount * rate,
                sent <= amount - fee,
                rate >= 0,
        ;
    }
}

proof fn lemma_subtract_valid(tiers: Seq<(u64, u64)>, amount: u64, min_fee: u64)
    requires
        forall|i: int|
            0 <= i < tiers.len() ==> amount * (#[trigger] tiers[i]).1 <= u64::MAX,
        amount * TOP_RATE <= u64::MAX,
    ensures
        ({
            let fee = deduction(tiers, amount, min_fee);
            let sent = left_after(amount, fee) as u64;
            fee >= larger(proportional_fee(sent, rate_for(tiers, sent)), min_fee as int)
        }),
    decreases tiers.len(),
{
    let fee = deduction(tiers, amount, min_fee);
    let sent = left_after(amount, fee) as u64;
    let rate = if tiers.len() == 0 {
        TOP_RATE
    } else {
        tiers[0].1
    };
    assert(amount * rate >= 0) by (nonlinear_arith)
        requires
            amount >= 0,
            rate >= 0,
    ;
    if tiers.len() == 0 || tier_takes(tiers[0], amount, min_fee) {
        lemma_deduction_covers(
            amount as int,
            rate as int,
            min_fee as int,
            fee,
            left_after(amount, fee),
        );
        if tiers.len() > 0 {
            assert(sent < tiers[0].0);
        }
    } else {
        let first = tiers[0];
        let at_first = tier_deduction(amount, first.1, min_fee);
        let rest = tiers.drop_first();
        assert forall|i: int| 0 <= i < rest.len() implies amount * (#[trigger] rest[i]).1
            <= u64::MAX by {
            let t = tiers[i + 1];
        }
        lemma_subtract_valid(rest, amount, min_fee);
        if sent < first.0 {
            // The first tier turned the amount down, so its deduction is the smaller.
            assert(at_first < fee);
            lemma_deduction_covers(
                amount as int,
                first.1 as int,
                min_fee as int,
                at_first,
                left_after(amount, fee),
            );
        }
    }
}

/// A fee taken out of an amount is enough for what is left: where no product of
/// the amount with a rate overflows, `required_fee` of `amount - fee` is at most
/// the fee, and the two parts make up the amount unless the floor alone is above
/// it.
pub proof fn subtracted_fee_is_sufficient(schedule: FeeSchedule, amount: u64)
    requires
        forall|i: int|
            0 <= i < schedule.tiers@.len() ==> amount * (#[trigger] schedule.tiers@[i]).1
                <= u64::MAX,
        amount * TOP_RATE <= u64::MAX,
    ensures
        ({
            let fee = schedule.fee_within(amount);
            let sent = left_after(amount, fee);
            &&& fee >= schedule.fee_of(sent as u64)
            &&& fee <= amount ==> sent + fee == amount
        }),
{
    lemma_subtract_valid(schedule.tiers@, amount, schedule.min_fee);
}

/// No fee is below the schedule's floor.
pub proof fn fees_keep_the_floor(schedule: FeeSchedule, amount: u64)
    ensures
        schedule.fee_of(amount) >= schedule.min_fee,
        schedule.fee_within(amount) >= schedule.min_fee,
{
    lemma_deduction_floor(schedule.tiers@, amount, schedule.min_fee);
}

proof fn lemma_deduction_floor(tiers: Seq<(u64, u64)>, amount: u64, min_fee: u64)
    ensures
        deduction(tiers, amount, min_fee) >= min_fee,
    decreases tiers.len(),
{
    if tiers.len() > 0 && !tier_takes(tiers[0], amount, min_fee) {
        lemma_deduction_floor(tiers.drop_first(), amount, min_fee);
    }
}

/// The tiers of the schedule that a node starts with.
pub open spec fn default_tiers() -> Seq<(u64, u64)> {
    seq![
        (10_000_000_000, 100),
        (100_000_000_000, 50),
        (1_000_000_000_000, 25),
        (u64::MAX, 10),
    ]
}

impl Default for FeeSchedule {
    /// 1% below 100 TIME, 0.5% below 1 000, 0.25% below 10 000, 0.1% from there on.
    fn default() -> (schedule: Self)
        ensures
            schedule.tiers@ == default_tiers(),
            schedule.min_fee == MIN_TX_FEE,
    {
        let tiers: Vec<(u64, u64)> = vec![
            (100 * SATOSHIS_PER_TIME, 100),
            (1_000 * SATOSHIS_PER_TIME, 50),
            (10_000 * SATOSHIS_PER_TIME, 25),
            (u64::MAX, 10),
        ];
        assert(tiers@ =~= default_tiers());
        FeeSchedule { tiers, min_fee: MIN_TX_FEE }
    }
}

impl Clone for FeeSchedule {
    fn clone(&self) -> (copy: Self)
        ensures
            copy.tiers@ == self.tiers@,
            copy.min_fee == self.min_fee,
    {
        let mut tiers: Vec<(u64, u64)> = Vec::new();
        let mut i: usize = 0;
        while i < self.tiers.len()
            invariant
                i <= self.tiers.len(),
                tiers@ =~= self.tiers@.take(i as int),
            decreases self.tiers.len() - i,
        {
            tiers.push(self.tiers[i]);
            i = i + 1;
        }
        FeeSchedule { tiers, min_fee: self.min_fee }
    }
}

/// On the starting schedule the deducted fee is enough for every amount whose
/// product with the highest rate fits in 64 bits.
pub proof fn default_schedule_subtracts_enough(schedule: FeeSchedule, amount: u64)
    requires
        schedule.tiers@ == default_tiers(),
        amount * 100 <= u64::MAX,
    ensures
        schedule.fee_within(amount) >= schedule.fee_of(
            left_after(amount, schedule.fee_within(amount)) as u64,
        ),
{
    subtracted_fee_is_sufficient(schedule, amount);
}

/// A quotient is rounded up: it is the least number that is large enough.
pub proof fn quotients_are_rounded_up(a: int, b: int)
    requires
        a >= 0,
        b > 0,
    ensures
        a <= b * ceil_div(a, b) < a + b,
{
    let q = ceil_div(a, b);
    assert(a <= b * q < a + b) by (nonlinear_arith)
        requires
            q == (a + b - 1) / b,
            b > 0,
    ;
}

/// The rate is that of the first tier whose bound is above the amount, and 10
/// basis points where every bound is reached.
pub proof fn rate_is_that_of_the_bracket(tiers: Seq<(u64, u64)>, amount: u64, i: int)
    requires
        0 <= i <= tiers.len(),
        forall|j: int| 0 <= j < i ==> (#[trigger] tiers[j]).0 <= amount,
        i < tiers.len() ==> amount < tiers[i].0,
    ensures
        rate_for(tiers, amount) == (if i < tiers.len() {
            tiers[i].1
        } else {
            10
        }),
    decreases i,
{
    if i > 0 {
        let rest = tiers.drop_first();
        assert(tiers[0].0 <= amount);
        assert forall|j: int| 0 <= j < i - 1 implies (#[trigger] rest[j]).0 <= amount by {
            assert(rest[j] == tiers[j + 1]);
        }
        rate_is_that_of_the_bracket(rest, amount, i - 1);
    }
}

/// The fee for an amount is its share at the rate, in ten-thousandths and rounded
/// down, or the floor where that is more.
pub proof fn fee_is_the_share_or_the_floor(schedule: FeeSchedule, amount: u64)
    ensures
        ({
            let fee = schedule.fee_of(amount);
            let rate = rate_for(schedule.tiers@, amount);
            &&& fee >= schedule.min_fee
            &&& amount * rate < 10_000 * (fee + 1)
            &&& fee == schedule.min_fee || 10_000 * fee <= amount * rate
        }),
{
    let rate = rate_for(schedule.tiers@, amount);
    assert(amount * rate >= 0) by (nonlinear_arith)
        requires
            amount >= 0,
            rate >= 0,
    ;
}

/// On the starting schedule the rate is 1% below 100 TIME, 0.5% below 1 000, 0.25%
/// below 10 000 and 0.1% from there on, and the floor is 0.01 TIME.
pub proof fn starting_rates(amount: u64)
    ensures
        rate_for(default_tiers(), amount) == (if amount < 10_000_000_000 {
            100u64
        } else if amount < 100_000_000_000 {
            50
        } else if amount < 1_000_000_000_000 {
            25
        } else {
            10
        }),
        MIN_TX_FEE == 1_000_000,
        SATOSHIS_PER_TIME == 100_000_000,
{
    let tiers = default_tiers();
    let i: int = if amount < 10_000_000_000 {
        0
    } else if amount < 100_000_000_000 {
        1
    } else if amount < 1_000_000_000_000 {
        2
    } else if amount < u64::MAX {
        3
    } else {
        4
    };
    rate_is_that_of_the_bracket(tiers, amount, i);
}

/// What one tier deducts is the floor, or the least fee that is large enough for
/// its rate on top of what is left: one less would not do.
pub proof fn tier_deducts_the_least(amount: u64, rate: u64, min_fee: u64)
    requires
        amount * rate <= u64::MAX,
    ensures
        ({
            let fee = tier_deduction(amount, rate, min_fee);
            &&& fee >= min_fee
            &&& fee * (10_000 + rate) >= amount * rate
            &&& fee == min_fee || (fee - 1) * (10_000 + rate) < amount * rate
        }),
{
    let (p, d) = (amount * rate, 10_000 + rate);
    assert(p >= 0) by (nonlinear_arith)
        requires
            p == amount * rate,
            amount >= 0,
            rate >= 0,
    ;
    quotients_are_rounded_up(p, d);
    let q = ceil_div(p, d);
    let fee = tier_deduction(amount, rate, min_fee);
    assert(fee * d >= p) by (nonlinear_arith)
        requires
            fee >= q,
            d * q >= p,
            d > 0,
    ;
    assert((q - 1) * d < p) by (nonlinear_arith)
        requires
            d * q < p + d,
    ;
}

/// The fee taken out of an amount is what the first tier deducts that leaves less
/// than its bound, or what 10 basis points make where no tier does.
pub proof fn first_fitting_tier_deducts(tiers: Seq<(u64, u64)>, amount: u64, min_fee: u64, i: int)
    requires
        0 <= i <= tiers.len(),
        forall|j: int|
            0 <= j < i ==> {
                let fee = tier_deduction(amount, (#[trigger] tiers[j]).1, min_fee);
                &&& amount - fee >= tiers[j].0 || tiers[j].0 == 0
            },
        i < tiers.len() ==> {
            let fee = tier_deduction(amount, tiers[i].1, min_fee);
            &&& amount - fee < tiers[i].0
            &&& tiers[i].0 > 0
        },
    ensures
        deduction(tiers, amount, min_fee) == tier_deduction(
            amount,
            if i < tiers.len() {
                tiers[i].1
            } else {
                10
            },
            min_fee,
        ),
    decreases i,
{
    if i > 0 {
        let rest = tiers.drop_first();
        assert(!tier_takes(tiers[0], amount, min_fee));
        assert forall|j: int| 0 <= j < i - 1 implies {
            let fee = tier_deduction(amount, (#[trigger] rest[j]).1, min_fee);
            &&& amount - fee >= rest[j].0 || rest[j].0 == 0
        } by {
            assert(rest[j] == tiers[j + 1]);
        }
        if i < tiers.len() {
            assert(rest[i - 1] == tiers[i]);
        }
        first_fitting_tier_deducts(rest, amount, min_fee, i - 1);
    }
}

} // verus!
