//! Scoring of originators: the running on-time rate and the risk score that
//! follows from it.

use vstd::prelude::*;
use crate::address::Address;
use crate::types::{SmeReputation, MAX_INVOICE_AMOUNT};

verus! {

/// The on-time rate with which every originator starts, in basis points.
pub const INITIAL_ON_TIME_RATE_BPS: u32 = 10000;

/// The risk score with which every originator starts.
pub const INITIAL_RISK_SCORE: u32 = 500;

/// The settled volume above which the risk score is lowered.
pub const VOLUME_BONUS_THRESHOLD: i128 = 100000_0000000;

/// The number of settlements above which the risk score is lowered.
pub const HISTORY_BONUS_THRESHOLD: u32 = 10;

/// The on-time rate after a settlement, where `settled` counts that
/// settlement too. The number of earlier on-time settlements is recovered
/// from the old rate, rounded down; the new settlement is added if it was
/// on time; the sum is taken as a fraction of all settlements, rounded down.
/// The first settlement leaves the rate as it was.
pub open spec fn next_on_time_rate(rate_bps: u32, settled: u32, on_time: bool) -> int {
    if settled > 1 {
        let earlier = rate_bps * (settled - 1) / 10000;
        let now = if on_time { earlier + 1 } else { earlier };
        now * 10000 / (settled as int)
    } else {
        rate_bps as int
    }
}

/// The risk score that an on-time rate, a settled volume and a number of
/// settlements determine: 1000 less a tenth of the rate, less 100 for a
/// volume above the threshold, less 100 for a history above the threshold,
/// and never below zero.
pub open spec fn risk_score(rate_bps: u32, total_volume: i128, settled: u32) -> int {
    let base = 1000 - rate_bps / 10;
    let volume_bonus: int = if total_volume > VOLUME_BONUS_THRESHOLD { 100 } else { 0 };
    let history_bonus: int = if settled > HISTORY_BONUS_THRESHOLD { 100 } else { 0 };
    if base >= volume_bonus + history_bonus {
        base - volume_bonus - history_bonus
    } else {
        0
    }
}

/// Computes the risk score that an on-time rate, a settled volume and a
/// number of settlements determine.
pub fn risk_score_of(rate_bps: u32, total_volume: i128, settled: u32) -> (score: u32)
    requires
        rate_bps <= 10000,
    ensures
        score == risk_score(rate_bps, total_volume, settled),
        score <= 1000,
{
    let base: u32 = 1000 - rate_bps / 10;
    let volume_bonus: u32 = if total_volume > VOLUME_BONUS_THRESHOLD {
        100
    } else {
        0
    };
    let history_bonus: u32 = if settled > HISTORY_BONUS_THRESHOLD {
        100
    } else {
        0
    };
    let bonus: u32 = volume_bonus + history_bonus;
    if base >= bonus {
        base - bonus
    } else {
        0
    }
}

impl SmeReputation {
    /// The record of an originator of whom nothing is known yet.
    pub open spec fn fresh(sme: Address) -> SmeReputation {
        SmeReputation {
            sme,
            total_invoices: 0,
            settled_invoices: 0,
            total_volume: 0,
            avg_settlement_days: 0,
            on_time_rate_bps: 10000,
            risk_score: 500,
        }
    }

    /// This record after one more invoice was created.
    pub open spec fn with_created(self) -> SmeReputation {
        SmeReputation { total_invoices: (self.total_invoices + 1) as u32, ..self }
    }

    /// This record after an invoice of the given face amount was settled, on
    /// time or late.
    pub open spec fn with_settled(self, amount: i128, on_time: bool) -> SmeReputation {
        let settled = (self.settled_invoices + 1) as u32;
        let volume = (self.total_volume + amount) as i128;
        let rate = next_on_time_rate(self.on_time_rate_bps, settled, on_time) as u32;
        SmeReputation {
            settled_invoices: settled,
            total_volume: volume,
            on_time_rate_bps: rate,
            risk_score: risk_score(rate, volume, settled) as u32,
            ..self
        }
    }

    /// Starts the record of an originator: nothing created, nothing settled,
    /// a perfect on-time rate and a medium risk score.
    pub fn new(sme: Address) -> (reputation: SmeReputation)
        ensures
            reputation == SmeReputation::fresh(sme),
            reputation.wf(),
    {
        SmeReputation {
            sme,
            total_invoices: 0,
            settled_invoices: 0,
            total_volume: 0,
            avg_settlement_days: 0,
            on_time_rate_bps: INITIAL_ON_TIME_RATE_BPS,
            risk_score: INITIAL_RISK_SCORE,
        }
    }

    /// Counts one more invoice created.
    pub fn record_created(&mut self)
        requires
            old(self).total_invoices < u32::MAX,
        ensures
            *final(self) == old(self).with_created(),
            old(self).wf() ==> final(self).wf(),
    {
        self.total_invoices = self.total_invoices + 1;
    }

    /// Counts one more invoice settled, adds its face amount to the volume,
    /// and brings the on-time rate and the risk score up to date.
    pub fn record_settled(&mut self, amount: i128, on_time: bool)
        requires
            old(self).wf(),
            old(self).settled_invoices < old(self).total_invoices,
            0 < amount <= MAX_INVOICE_AMOUNT,
        ensures
            *final(self) == old(self).with_settled(amount, on_time),
            final(self).wf(),
    {
        proof {
            lemma_with_settled_wf(*self, amount, on_time);
        }
        self.settled_invoices = self.settled_invoices + 1;
        self.total_volume = self.total_volume + amount;
        if self.settled_invoices > 1 {
            proof {
                lemma_next_on_time_rate_bounds(
                    self.on_time_rate_bps,
                    self.settled_invoices,
                    on_time,
                );
            }
            let earlier: u64 = self.on_time_rate_bps as u64 * (self.settled_invoices - 1) as u64
                / 10000;
            let timely: u64 = if on_time {
                earlier + 1
            } else {
                earlier
            };
            assert(timely * 10000 <= self.settled_invoices * 10000) by (nonlinear_arith)
                requires
                    timely <= self.settled_invoices,
            ;
            self.on_time_rate_bps = (timely * 10000 / self.settled_invoices as u64) as u32;
        }
        self.risk_score = risk_score_of(
            self.on_time_rate_bps,
            self.total_volume,
            self.settled_invoices,
        );
    }
}

/// The on-time rate never leaves the range of a fraction.
pub proof fn lemma_next_on_time_rate_bounds(rate_bps: u32, settled: u32, on_time: bool)
    requires
        rate_bps <= 10000,
        settled >= 1,
    ensures
        0 <= next_on_time_rate(rate_bps, settled, on_time) <= 10000,
        settled > 1 ==> 0 <= rate_bps * (settled - 1) / 10000 <= settled - 1,
        settled > 1 ==> rate_bps * (settled - 1) <= 10000 * (settled - 1),
{
    if settled > 1 {
        let n = settled - 1;
        assert(0 <= rate_bps * n <= 10000 * n) by (nonlinear_arith)
            requires
                0 <= rate_bps <= 10000,
                n >= 1,
        ;
        let earlier = rate_bps * n / 10000;
        assert(10000 * n / 10000 == n);
        assert(0 <= earlier <= n);
        let timely = if on_time {
            earlier + 1
        } else {
            earlier
        };
        assert(0 <= timely * 10000 <= settled * 10000) by (nonlinear_arith)
            requires
                0 <= timely <= settled,
        ;
        assert(settled * 10000 / (settled as int) == 10000) by (nonlinear_arith)
            requires
                settled > 0,
        ;
        assert(timely * 10000 / (settled as int) <= settled * 10000 / (settled as int))
            by (nonlinear_arith)
            requires
                timely * 10000 <= settled * 10000,
                settled > 0,
        ;
        assert(0 <= timely * 10000 / (settled as int)) by (nonlinear_arith)
            requires
                0 <= timely * 10000,
                settled > 0,
        ;
    }
}

/// The risk score never leaves its range.
pub proof fn lemma_risk_score_bounds(rate_bps: u32, total_volume: i128, settled: u32)
    requires
        rate_bps <= 10000,
    ensures
        0 <= risk_score(rate_bps, total_volume, settled) <= 1000,
{
}

/// Settling one more invoice keeps a valid record valid, as long as an
/// invoice was left to settle.
pub proof fn lemma_with_settled_wf(reputation: SmeReputation, amount: i128, on_time: bool)
    requires
        reputation.wf(),
        reputation.settled_invoices < reputation.total_invoices,
        0 < amount <= MAX_INVOICE_AMOUNT,
    ensures
        reputation.with_settled(amount, on_time).wf(),
        reputation.total_volume + amount <= i128::MAX,
{
    let settled = (reputation.settled_invoices + 1) as u32;
    let n = reputation.settled_invoices as int;
    assert(n * MAX_INVOICE_AMOUNT + MAX_INVOICE_AMOUNT == (n + 1) * MAX_INVOICE_AMOUNT)
        by (nonlinear_arith);
    assert((n + 1) * MAX_INVOICE_AMOUNT <= 0x1_0000_0000 * MAX_INVOICE_AMOUNT) by (nonlinear_arith)
        requires
            n + 1 <= 0x1_0000_0000,
    ;
    lemma_next_on_time_rate_bounds(reputation.on_time_rate_bps, settled, on_time);
    let rate = next_on_time_rate(reputation.on_time_rate_bps, settled, on_time) as u32;
    let volume = (reputation.total_volume + amount) as i128;
    lemma_risk_score_bounds(rate, volume, settled);
}

} // verus!
