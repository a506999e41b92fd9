//! Potions, spells and the acting party, with the predicates and scores that
//! the decision rests on.

use vstd::prelude::*;
use crate::tiers::{
    affordable, amounts, covers, gain_of, missing_of, pays_for, shortfall, usefulness,
};

verus! {

/// One party's stock of ingredients and its score.
#[derive(Clone, Copy, Debug, PartialEq, Eq)]
pub struct Witch {
    pub tiers_0_inventory: i32,
    pub tiers_1_inventory: i32,
    pub tiers_2_inventory: i32,
    pub tiers_3_inventory: i32,
    pub score: i32,
}

/// A recipe that consumes ingredients for a reward.
#[derive(Clone, Copy, Debug, PartialEq, Eq)]
pub struct Potion {
    pub id: i32,
    pub tiers_0_ingredient: i32,
    pub tiers_1_ingredient: i32,
    pub tiers_2_ingredient: i32,
    pub tiers_3_ingredient: i32,
    pub price: i32,
}

/// A recipe that turns ingredients into others. `tome_index`, `tax_count`
/// and `repeatable` are carried along and play no part in the decision.
#[derive(Clone, Copy, Debug, PartialEq, Eq)]
pub struct Spell {
    pub id: i32,
    pub tiers_0_ingredient: i32,
    pub tiers_1_ingredient: i32,
    pub tiers_2_ingredient: i32,
    pub tiers_3_ingredient: i32,
    pub price: i32,
    pub tome_index: i32,
    pub tax_count: i32,
    pub castable: bool,
    pub repeatable: bool,
}

impl Witch {
    /// The stock as a vector of four integers.
    pub open spec fn inventory(&self) -> Seq<int> {
        seq![
            self.tiers_0_inventory as int,
            self.tiers_1_inventory as int,
            self.tiers_2_inventory as int,
            self.tiers_3_inventory as int,
        ]
    }
}

impl Potion {
    /// The per-tier change that brewing applies to a stock.
    pub open spec fn delta(&self) -> Seq<int> {
        seq![
            self.tiers_0_ingredient as int,
            self.tiers_1_ingredient as int,
            self.tiers_2_ingredient as int,
            self.tiers_3_ingredient as int,
        ]
    }

    /// The surplus-weighted score: the price plus ten times what would be
    /// left of the lowest tier after brewing, a shortage counting as nothing.
    pub open spec fn appeal_of(&self, witch: &Witch) -> int {
        let left = witch.inventory()[0] + self.delta()[0];
        self.price + 10 * (if left < 0 { 0 } else { left })
    }

    /// Whether `witch` holds what brewing consumes.
    pub fn brewable(&self, witch: &Witch) -> (b: bool)
        ensures
            b == covers(witch.inventory(), self.delta()),
    {
        let b = witch.tiers_0_inventory as i64 + self.tiers_0_ingredient as i64 >= 0
            && witch.tiers_1_inventory as i64 + self.tiers_1_ingredient as i64 >= 0
            && witch.tiers_2_inventory as i64 + self.tiers_2_ingredient as i64 >= 0
            && witch.tiers_3_inventory as i64 + self.tiers_3_ingredient as i64 >= 0;
        proof {
            let inv = witch.inventory();
            let d = self.delta();
            assert(inv[0] + d[0] == witch.tiers_0_inventory + self.tiers_0_ingredient);
            assert(inv[1] + d[1] == witch.tiers_1_inventory + self.tiers_1_ingredient);
            assert(inv[2] + d[2] == witch.tiers_2_inventory + self.tiers_2_ingredient);
            assert(inv[3] + d[3] == witch.tiers_3_inventory + self.tiers_3_ingredient);
        }
        b
    }

    /// The score by which potions are ranked.
    pub fn appeal(&self, witch: &Witch) -> (a: i64)
        ensures
            a == self.appeal_of(witch),
    {
        let left: i64 = witch.tiers_0_inventory as i64 + self.tiers_0_ingredient as i64;
        let surplus: i64 = if left < 0 { 0 } else { left };
        self.price as i64 + 10 * surplus
    }

    /// What `witch` lacks, tier by tier, to brew this potion.
    pub fn missing_ingredients(&self, witch: &Witch) -> (deficit: [i64; 4])
        ensures
            amounts(deficit) == shortfall(witch.inventory(), self.delta()),
            forall|t: int| 0 <= t < 4 ==> #[trigger] deficit@[t] >= 0,
            forall|t: int|
                0 <= t < 4 && witch.inventory()[t] + self.delta()[t] >= 0 ==> #[trigger] deficit@[t]
                    == 0,
    {
        let deficit = [
            missing_of(witch.tiers_0_inventory, self.tiers_0_ingredient),
            missing_of(witch.tiers_1_inventory, self.tiers_1_ingredient),
            missing_of(witch.tiers_2_inventory, self.tiers_2_ingredient),
            missing_of(witch.tiers_3_inventory, self.tiers_3_ingredient),
        ];
        assert(amounts(deficit) =~= shortfall(witch.inventory(), self.delta()));
        assert forall|t: int| 0 <= t < 4 implies #[trigger] deficit@[t] == shortfall(
            witch.inventory(),
            self.delta(),
        )[t] by {
            assert(amounts(deficit)[t] == deficit@[t]);
        }
        deficit
    }
}

impl Spell {
    /// The per-tier change that casting applies to a stock.
    pub open spec fn delta(&self) -> Seq<int> {
        seq![
            self.tiers_0_ingredient as int,
            self.tiers_1_ingredient as int,
            self.tiers_2_ingredient as int,
            self.tiers_3_ingredient as int,
        ]
    }

    /// Whether the spell can be cast right now to good effect: it is ready,
    /// `inventory` pays for it, and it produces something that `deficit` asks for.
    pub open spec fn usable_with(&self, inventory: Seq<int>, deficit: Seq<int>) -> bool {
        &&& self.castable
        &&& affordable(inventory, self.delta())
        &&& usefulness(deficit, self.delta()) > 0
    }

    /// Whether `witch` holds what casting consumes.
    pub fn enough_ingredient(&self, witch: &Witch) -> (b: bool)
        ensures
            b == affordable(witch.inventory(), self.delta()),
    {
        let b = pays_for(witch.tiers_0_inventory, self.tiers_0_ingredient)
            && pays_for(witch.tiers_1_inventory, self.tiers_1_ingredient)
            && pays_for(witch.tiers_2_inventory, self.tiers_2_ingredient)
            && pays_for(witch.tiers_3_inventory, self.tiers_3_ingredient);
        proof {
            let inv = witch.inventory();
            let d = self.delta();
            assert(inv[0] == witch.tiers_0_inventory && d[0] == self.tiers_0_ingredient);
            assert(inv[1] == witch.tiers_1_inventory && d[1] == self.tiers_1_ingredient);
            assert(inv[2] == witch.tiers_2_inventory && d[2] == self.tiers_2_ingredient);
            assert(inv[3] == witch.tiers_3_inventory && d[3] == self.tiers_3_ingredient);
        }
        b
    }

    /// How much this spell produces of what `ingredients` records as missing.
    pub fn useful_ingredient_added(&self, ingredients: [i64; 4]) -> (added: i64)
        ensures
            added == usefulness(amounts(ingredients), self.delta()),
            added >= 0,
            (forall|t: int| 0 <= t < 4 ==> #[trigger] ingredients@[t] <= 0) ==> added == 0,
    {
        gain_of(ingredients[0], self.tiers_0_ingredient) + gain_of(
            ingredients[1],
            self.tiers_1_ingredient,
        ) + gain_of(ingredients[2], self.tiers_2_ingredient) + gain_of(
            ingredients[3],
            self.tiers_3_ingredient,
        )
    }

    /// What `witch` lacks, tier by tier, to cast this spell.
    pub fn missing_ingredients(&self, witch: &Witch) -> (deficit: [i64; 4])
        ensures
            amounts(deficit) == shortfall(witch.inventory(), self.delta()),
            forall|t: int| 0 <= t < 4 ==> #[trigger] deficit@[t] >= 0,
            forall|t: int|
                0 <= t < 4 && witch.inventory()[t] + self.delta()[t] >= 0 ==> #[trigger] deficit@[t]
                    == 0,
    {
        let deficit = [
            missing_of(witch.tiers_0_inventory, self.tiers_0_ingredient),
            missing_of(witch.tiers_1_inventory, self.tiers_1_ingredient),
            missing_of(witch.tiers_2_inventory, self.tiers_2_ingredient),
            missing_of(witch.tiers_3_inventory, self.tiers_3_ingredient),
        ];
        assert(amounts(deficit) =~= shortfall(witch.inventory(), self.delta()));
        assert forall|t: int| 0 <= t < 4 implies #[trigger] deficit@[t] == shortfall(
            witch.inventory(),
            self.delta(),
        )[t] by {
            assert(amounts(deficit)[t] == deficit@[t]);
        }
        deficit
    }

    /// Whether the spell ends a search for a bridge over `deficit`.
    pub fn usable(&self, witch: &Witch, deficit: [i64; 4]) -> (b: bool)
        ensures
            b == self.usable_with(witch.inventory(), amounts(deficit)),
    {
        self.enough_ingredient(witch) && self.castable && self.useful_ingredient_added(deficit) > 0
    }
}

} // verus!
