//! Five-dimensional costs: what a turn may reserve, what it is charged and
//! what is credited back.
use vstd::prelude::*;

verus! {

/// A cost in each of the five accounted dimensions.
#[derive(Clone, Copy, Debug, PartialEq, Eq, Structural)]
pub struct CostTuple {
    pub tokens_in: u64,
    pub tokens_out: u64,
    pub cents: u64,
    pub wall_ms: u64,
    pub attention_score: u64,
}

/// Upper bounds on the cost of one round.
#[derive(Clone, Copy, Debug, PartialEq, Eq, Structural)]
pub struct CostEnvelope {
    pub tokens_in_max: u64,
    pub tokens_out_max: u64,
    pub cents_max: u64,
    pub wall_ms_max: u64,
    pub attention_score_max: u64,
}

/// The generous per-turn ceiling used when no envelope is configured.
#[verifier::allow_in_spec]
pub fn default_envelope() -> CostEnvelope
    returns
        (CostEnvelope {
            tokens_in_max: 100_000,
            tokens_out_max: 100_000,
            cents_max: 1_000_000,
            wall_ms_max: 600_000,
            attention_score_max: 1_000_000,
        }),
{
    CostEnvelope {
        tokens_in_max: 100_000,
        tokens_out_max: 100_000,
        cents_max: 1_000_000,
        wall_ms_max: 600_000,
        attention_score_max: 1_000_000,
    }
}

/// The larger of `a - b` and zero.
pub open spec fn monus(a: u64, b: u64) -> u64 {
    if a >= b {
        (a - b) as u64
    } else {
        0
    }
}

/// The smaller of `a + b` and the largest `u64`.
pub open spec fn capped_sum(a: u64, b: u64) -> u64 {
    if a + b <= u64::MAX {
        (a + b) as u64
    } else {
        u64::MAX
    }
}

impl CostTuple {
    /// No cost in any dimension.
    #[verifier::allow_in_spec]
    pub fn zero() -> CostTuple
        returns
            (CostTuple { tokens_in: 0, tokens_out: 0, cents: 0, wall_ms: 0, attention_score: 0 }),
    {
        CostTuple { tokens_in: 0, tokens_out: 0, cents: 0, wall_ms: 0, attention_score: 0 }
    }

    /// Every dimension of `self` is at least that of `other`.
    pub open spec fn at_least(self, other: CostTuple) -> bool {
        &&& self.tokens_in >= other.tokens_in
        &&& self.tokens_out >= other.tokens_out
        &&& self.cents >= other.cents
        &&& self.wall_ms >= other.wall_ms
        &&& self.attention_score >= other.attention_score
    }

    /// No dimension of `self + other` leaves the range of `u64`.
    pub open spec fn sum_fits(self, other: CostTuple) -> bool {
        &&& self.tokens_in + other.tokens_in <= u64::MAX
        &&& self.tokens_out + other.tokens_out <= u64::MAX
        &&& self.cents + other.cents <= u64::MAX
        &&& self.wall_ms + other.wall_ms <= u64::MAX
        &&& self.attention_score + other.attention_score <= u64::MAX
    }

    /// The sum in each dimension.
    pub open spec fn plus(self, other: CostTuple) -> CostTuple {
        CostTuple {
            tokens_in: (self.tokens_in + other.tokens_in) as u64,
            tokens_out: (self.tokens_out + other.tokens_out) as u64,
            cents: (self.cents + other.cents) as u64,
            wall_ms: (self.wall_ms + other.wall_ms) as u64,
            attention_score: (self.attention_score + other.attention_score) as u64,
        }
    }

    /// The difference in each dimension.
    pub open spec fn minus(self, other: CostTuple) -> CostTuple {
        CostTuple {
            tokens_in: (self.tokens_in - other.tokens_in) as u64,
            tokens_out: (self.tokens_out - other.tokens_out) as u64,
            cents: (self.cents - other.cents) as u64,
            wall_ms: (self.wall_ms - other.wall_ms) as u64,
            attention_score: (self.attention_score - other.attention_score) as u64,
        }
    }

    /// The difference in each dimension, never below zero.
    pub open spec fn monus(self, other: CostTuple) -> CostTuple {
        CostTuple {
            tokens_in: monus(self.tokens_in, other.tokens_in),
            tokens_out: monus(self.tokens_out, other.tokens_out),
            cents: monus(self.cents, other.cents),
            wall_ms: monus(self.wall_ms, other.wall_ms),
            attention_score: monus(self.attention_score, other.attention_score),
        }
    }

    /// The sum in each dimension, held at the largest `u64`.
    pub open spec fn capped_plus(self, other: CostTuple) -> CostTuple {
        CostTuple {
            tokens_in: capped_sum(self.tokens_in, other.tokens_in),
            tokens_out: capped_sum(self.tokens_out, other.tokens_out),
            cents: capped_sum(self.cents, other.cents),
            wall_ms: capped_sum(self.wall_ms, other.wall_ms),
            attention_score: capped_sum(self.attention_score, other.attention_score),
        }
    }

    /// A cost of `n` cents and nothing else.
    pub fn cents(n: u64) -> (r: CostTuple)
        ensures
            r == (CostTuple { cents: n, ..CostTuple::zero() }),
    {
        CostTuple { tokens_in: 0, tokens_out: 0, cents: n, wall_ms: 0, attention_score: 0 }
    }

    /// The cost that an envelope allows at most.
    pub fn from_envelope(envelope: &CostEnvelope) -> (r: CostTuple)
        ensures
            r == envelope.as_cost(),
    {
        CostTuple {
            tokens_in: envelope.tokens_in_max,
            tokens_out: envelope.tokens_out_max,
            cents: envelope.cents_max,
            wall_ms: envelope.wall_ms_max,
            attention_score: envelope.attention_score_max,
        }
    }

    /// Whether every dimension of `self` is at least that of `other`.
    pub fn covers(&self, other: &CostTuple) -> (r: bool)
        ensures
            r == self.at_least(*other),
    {
        self.tokens_in >= other.tokens_in && self.tokens_out >= other.tokens_out && self.cents
            >= other.cents && self.wall_ms >= other.wall_ms && self.attention_score
            >= other.attention_score
    }

    /// The sum, or `None` if some dimension overflows.
    pub fn checked_add(&self, other: &CostTuple) -> (r: Option<CostTuple>)
        ensures
            r == (if self.sum_fits(*other) {
                Some(self.plus(*other))
            } else {
                None::<CostTuple>
            }),
    {
        match (
            self.tokens_in.checked_add(other.tokens_in),
            self.tokens_out.checked_add(other.tokens_out),
            self.cents.checked_add(other.cents),
            self.wall_ms.checked_add(other.wall_ms),
            self.attention_score.checked_add(other.attention_score),
        ) {
            (
                Some(tokens_in),
                Some(tokens_out),
                Some(cents),
                Some(wall_ms),
                Some(attention_score),
            ) => Some(CostTuple { tokens_in, tokens_out, cents, wall_ms, attention_score }),
            _ => None,
        }
    }

    /// The difference, or `None` if `self` does not cover `other`.
    pub fn checked_sub(&self, other: &CostTuple) -> (r: Option<CostTuple>)
        ensures
            r == (if self.at_least(*other) {
                Some(self.minus(*other))
            } else {
                None::<CostTuple>
            }),
    {
        if !self.covers(other) {
            return None;
        }
        Some(
            CostTuple {
                tokens_in: self.tokens_in - other.tokens_in,
                tokens_out: self.tokens_out - other.tokens_out,
                cents: self.cents - other.cents,
                wall_ms: self.wall_ms - other.wall_ms,
                attention_score: self.attention_score - other.attention_score,
            },
        )
    }

    /// The sum, each dimension held at the largest `u64`.
    pub fn saturating_add(&self, other: &CostTuple) -> (r: CostTuple)
        ensures
            r == self.capped_plus(*other),
    {
        CostTuple {
            tokens_in: self.tokens_in.saturating_add(other.tokens_in),
            tokens_out: self.tokens_out.saturating_add(other.tokens_out),
            cents: self.cents.saturating_add(other.cents),
            wall_ms: self.wall_ms.saturating_add(other.wall_ms),
            attention_score: self.attention_score.saturating_add(other.attention_score),
        }
    }
}

impl CostEnvelope {
    /// The cost that this envelope allows at most.
    pub open spec fn as_cost(self) -> CostTuple {
        CostTuple {
            tokens_in: self.tokens_in_max,
            tokens_out: self.tokens_out_max,
            cents: self.cents_max,
            wall_ms: self.wall_ms_max,
            attention_score: self.attention_score_max,
        }
    }
}

/// What `a` exceeds `b` by in each dimension.
pub fn positive_difference(a: CostTuple, b: CostTuple) -> (r: CostTuple)
    ensures
        r == a.monus(b),
{
    CostTuple {
        tokens_in: a.tokens_in.saturating_sub(b.tokens_in),
        tokens_out: a.tokens_out.saturating_sub(b.tokens_out),
        cents: a.cents.saturating_sub(b.cents),
        wall_ms: a.wall_ms.saturating_sub(b.wall_ms),
        attention_score: a.attention_score.saturating_sub(b.attention_score),
    }
}

/// One of the accounted dimensions.
pub ghost enum Dimension {
    TokensIn,
    TokensOut,
    Cents,
    WallMs,
    Attention,
}

/// What a cost is in one dimension.
pub open spec fn amount(cost: CostTuple, d: Dimension) -> int {
    match d {
        Dimension::TokensIn => cost.tokens_in as int,
        Dimension::TokensOut => cost.tokens_out as int,
        Dimension::Cents => cost.cents as int,
        Dimension::WallMs => cost.wall_ms as int,
        Dimension::Attention => cost.attention_score as int,
    }
}

/// The smaller of a number and the largest amount.
pub open spec fn held_at_most(n: int) -> int {
    if n <= u64::MAX {
        n
    } else {
        u64::MAX as int
    }
}

/// Costs are added and subtracted in each dimension for itself: a sum that is
/// held is the sum as far as it can be written down, an exact sum is the sum,
/// and a difference is never below zero.
pub proof fn law_costs_are_counted_in_each_dimension(a: CostTuple, b: CostTuple)
    ensures
        forall|d: Dimension| #[trigger] amount(a.capped_plus(b), d) == held_at_most(
            amount(a, d) + amount(b, d),
        ),
        a.sum_fits(b) <==> forall|d: Dimension| #[trigger]
            amount(a, d) + amount(b, d) <= u64::MAX,
        a.sum_fits(b) ==> forall|d: Dimension| #[trigger]
            amount(a.plus(b), d) == amount(a, d) + amount(b, d),
        forall|d: Dimension| #[trigger]
            amount(a.monus(b), d) == (if amount(a, d) >= amount(b, d) {
                amount(a, d) - amount(b, d)
            } else {
                0
            }),
        a.at_least(b) <==> forall|d: Dimension| #[trigger] amount(a, d) >= amount(b, d),
        a.at_least(b) ==> forall|d: Dimension| #[trigger]
            amount(a.minus(b), d) == amount(a, d) - amount(b, d),
        forall|d: Dimension| #[trigger] amount(CostTuple::zero(), d) == 0,
        (forall|d: Dimension| #[trigger] amount(a, d) == amount(b, d)) ==> a == b,
{
    assert(amount(a, Dimension::TokensIn) == a.tokens_in && amount(b, Dimension::TokensIn)
        == b.tokens_in);
    assert(amount(a, Dimension::TokensOut) == a.tokens_out && amount(b, Dimension::TokensOut)
        == b.tokens_out);
    assert(amount(a, Dimension::Cents) == a.cents && amount(b, Dimension::Cents) == b.cents);
    assert(amount(a, Dimension::WallMs) == a.wall_ms && amount(b, Dimension::WallMs) == b.wall_ms);
    assert(amount(a, Dimension::Attention) == a.attention_score && amount(b, Dimension::Attention)
        == b.attention_score);
}

/// An envelope allows in each dimension what it names as that dimension's
/// bound.
pub proof fn law_an_envelope_bounds_each_dimension(e: CostEnvelope)
    ensures
        amount(e.as_cost(), Dimension::TokensIn) == e.tokens_in_max,
        amount(e.as_cost(), Dimension::TokensOut) == e.tokens_out_max,
        amount(e.as_cost(), Dimension::Cents) == e.cents_max,
        amount(e.as_cost(), Dimension::WallMs) == e.wall_ms_max,
        amount(e.as_cost(), Dimension::Attention) == e.attention_score_max,
{
}

/// A hold splits without remainder: crediting back what a charge leaves of it
/// and keeping the charge accounts for exactly the hold.
pub proof fn law_hold_splits_into_charge_and_credit(held: CostTuple, charged: CostTuple)
    requires
        held.at_least(charged),
    ensures
        charged.sum_fits(held.monus(charged)),
        charged.plus(held.monus(charged)) == held,
        held.monus(charged) == held.minus(charged),
{
}

/// Covering is a partial order on costs.
pub proof fn law_covering_is_a_partial_order(a: CostTuple, b: CostTuple, c: CostTuple)
    ensures
        a.at_least(a),
        a.at_least(b) && b.at_least(a) ==> a == b,
        a.at_least(b) && b.at_least(c) ==> a.at_least(c),
{
}

} // verus!
