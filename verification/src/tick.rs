//! Inbound tick events and their validity rule.

use vstd::prelude::*;
use vstd::arithmetic::div_mod::{lemma_fundamental_div_mod, lemma_mod_multiples_basic};

verus! {

/// Milliseconds in one day: the spacing of midnight boundaries.
pub const MS_PER_DAY: i64 = 24 * 60 * 60 * 1000;

/// A number and its negation are divisible by `d` together.
proof fn lemma_neg_mod_zero(t: int, d: int)
    requires
        0 < d,
    ensures
        (t % d == 0) <==> ((-t) % d == 0),
{
    if t % d == 0 {
        let q = t / d;
        lemma_fundamental_div_mod(t, d);
        assert(-t == (-q) * d) by (nonlinear_arith)
            requires
                t == d * q,
        ;
        lemma_mod_multiples_basic(-q, d);
    }
    if (-t) % d == 0 {
        let q = (-t) / d;
        lemma_fundamental_div_mod(-t, d);
        assert(t == (-q) * d) by (nonlinear_arith)
            requires
                -t == d * q,
        ;
        lemma_mod_multiples_basic(-q, d);
    }
}

/// One decoded per-instrument price observation.
pub struct TickEvent {
    /// The traded price, if the feed carried one.
    pub last: Option<u64>,
    /// When the trade happened (ms epoch), if the feed carried it.
    pub trading_timestamp: Option<i64>,
    /// The instrument this tick belongs to.
    pub id: String,
    /// The instrument's class, carried through to the results.
    pub equity_type: String,
}

impl TickEvent {
    /// A tick is eligible when both the price and the timestamp are
    /// present and the timestamp does not fall exactly on a midnight
    /// boundary (00:00:00 UTC), which the source feed uses as a sentinel
    /// for "no trade yet".
    pub open spec fn valid_spec(self) -> bool {
        &&& self.last is Some
        &&& self.trading_timestamp is Some
        &&& (self.trading_timestamp.unwrap() as int) % (MS_PER_DAY as int) != 0
    }

    /// Accepts or rejects the tick; no side effects.
    pub fn is_valid(&self) -> (r: bool)
        ensures
            r == self.valid_spec(),
    {
        if self.last.is_none() || self.trading_timestamp.is_none() {
            return false;
        }
        match self.trading_timestamp {
            Some(t) => {
                let on_midnight: bool = if t >= 0 {
                    (t as u64) % (MS_PER_DAY as u64) == 0
                } else {
                    let u: u64 = ((-(t + 1)) as u64) + 1;
                    proof {
                        assert(u as int == -(t as int));
                        lemma_neg_mod_zero(t as int, MS_PER_DAY as int);
                    }
                    u % (MS_PER_DAY as u64) == 0
                };
                !on_midnight
            },
            None => false,
        }
    }
}

} // verus!
