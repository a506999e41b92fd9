//! The mathematical model of ingredient vectors: four integers, one per tier.

use vstd::prelude::*;

verus! {

/// Applying `delta` to `inventory` leaves no tier negative.
pub open spec fn covers(inventory: Seq<int>, delta: Seq<int>) -> bool {
    forall|t: int| 0 <= t < 4 ==> #[trigger] inventory[t] + delta[t] >= 0
}

/// Every tier that `delta` consumes is held in at least the consumed amount;
/// a tier that `delta` leaves alone or produces never blocks.
pub open spec fn affordable(inventory: Seq<int>, delta: Seq<int>) -> bool {
    forall|t: int| 0 <= t < 4 ==> delta[t] >= 0 || #[trigger] inventory[t] >= -delta[t]
}

/// How much of one tier is missing once `delta` is applied to `held`.
pub open spec fn shortfall_at(held: int, delta: int) -> int {
    if held + delta >= 0 {
        0
    } else {
        -(held + delta)
    }
}

/// The deficit vector: per tier, what `inventory` lacks to pay for `delta`.
pub open spec fn shortfall(inventory: Seq<int>, delta: Seq<int>) -> Seq<int> {
    Seq::new(4, |t: int| shortfall_at(inventory[t], delta[t]))
}

/// What one tier of `delta` contributes towards a deficit: its production,
/// counted only where something is missing.
pub open spec fn gain_at(missing: int, delta: int) -> int {
    if missing > 0 && delta > 0 {
        delta
    } else {
        0
    }
}

/// Usefulness of `delta` against `deficit`: the production summed over the
/// tiers in deficit.
pub open spec fn usefulness(deficit: Seq<int>, delta: Seq<int>) -> int {
    gain_at(deficit[0], delta[0]) + gain_at(deficit[1], delta[1]) + gain_at(deficit[2], delta[2])
        + gain_at(deficit[3], delta[3])
}

/// The entries of a deficit array as mathematical integers.
pub open spec fn amounts(v: [i64; 4]) -> Seq<int> {
    Seq::new(4, |t: int| v@[t] as int)
}

/// A deficit is never negative, and it is zero in every tier in which the
/// stock covers what `delta` consumes.
pub proof fn lemma_shortfall_is_clipped(inventory: Seq<int>, delta: Seq<int>)
    ensures
        shortfall(inventory, delta).len() == 4,
        forall|t: int| 0 <= t < 4 ==> #[trigger] shortfall(inventory, delta)[t] >= 0,
        forall|t: int|
            0 <= t < 4 && inventory[t] + delta[t] >= 0 ==> #[trigger] shortfall(inventory, delta)[t]
                == 0,
        forall|t: int|
            0 <= t < 4 && inventory[t] + delta[t] < 0 ==> #[trigger] shortfall(inventory, delta)[t]
                == -(inventory[t] + delta[t]),
{
}

/// Nothing is missing exactly when the stock covers `delta`.
pub proof fn lemma_no_shortfall_iff_covered(inventory: Seq<int>, delta: Seq<int>)
    ensures
        covers(inventory, delta) <==> forall|t: int|
            0 <= t < 4 ==> #[trigger] shortfall(inventory, delta)[t] == 0,
{
    if covers(inventory, delta) {
        assert forall|t: int| 0 <= t < 4 implies #[trigger] shortfall(inventory, delta)[t]
            == 0 by {
            assert(inventory[t] + delta[t] >= 0);
        }
    }
    if forall|t: int| 0 <= t < 4 ==> #[trigger] shortfall(inventory, delta)[t] == 0 {
        assert forall|t: int| 0 <= t < 4 implies #[trigger] inventory[t] + delta[t] >= 0 by {
            assert(shortfall(inventory, delta)[t] == 0);
        }
    }
}

/// A usefulness score is never negative, and it is zero where no tier is
/// in deficit and where `delta` produces nothing.
pub proof fn lemma_usefulness_is_nonnegative(deficit: Seq<int>, delta: Seq<int>)
    ensures
        usefulness(deficit, delta) >= 0,
        (forall|t: int| 0 <= t < 4 ==> #[trigger] deficit[t] <= 0) ==> usefulness(deficit, delta)
            == 0,
        (forall|t: int| 0 <= t < 4 ==> #[trigger] delta[t] <= 0) ==> usefulness(deficit, delta)
            == 0,
{
}

/// One tier of a deficit, computed without overflow.
pub fn missing_of(held: i32, delta: i32) -> (m: i64)
    ensures
        m == shortfall_at(held as int, delta as int),
{
    let left: i64 = held as i64 + delta as i64;
    if left >= 0 {
        0
    } else {
        -left
    }
}

/// Whether one tier of a stock pays for what `delta` consumes of it.
pub fn pays_for(held: i32, delta: i32) -> (b: bool)
    ensures
        b == (delta >= 0 || held >= -delta),
{
    delta >= 0 || held as i64 >= -(delta as i64)
}

/// One tier's contribution to a usefulness score.
pub fn gain_of(missing: i64, delta: i32) -> (g: i64)
    ensures
        g == gain_at(missing as int, delta as int),
{
    if missing > 0 && delta > 0 {
        delta as i64
    } else {
        0
    }
}

} // verus!
