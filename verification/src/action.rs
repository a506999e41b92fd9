//! The decision of a turn.
//!
//! The policy is conservative: a spell is cast only if the search found it
//! and it is ready; whenever spells exist and none can be cast, the agent
//! rests, which makes them ready again.

use vstd::prelude::*;
use crate::catalog::{build_catalog, potions_of, spells_of, Record};
use crate::recipe::{Potion, Spell, Witch};
use crate::tiers::{affordable, covers, shortfall};
use crate::ranking::{best_potion, get_best_potion};
use crate::search::{bridging_search, get_best_spell, lemma_search_is_bounded};

verus! {

/// The one action that a turn ends with.
#[derive(Clone, Copy, Debug, PartialEq, Eq, Structural)]
pub enum Action {
    /// Brew the potion with this id.
    Brew(i32),
    /// Cast the spell with this id.
    Cast(i32),
    /// Make every spell ready again.
    Rest,
    /// Do nothing.
    Wait,
}

/// What the agent does when it cannot brew the potion at position `target`.
pub open spec fn fallback(potions: Seq<Potion>, spells: Seq<Spell>, witch: &Witch, target: int)
    -> Action {
    let deficit = shortfall(witch.inventory(), potions[target].delta());
    match bridging_search(spells, witch.inventory(), deficit).0 {
        Some(s) => if spells[s].castable {
            Action::Cast(spells[s].id)
        } else {
            Action::Rest
        },
        None => if spells.len() == 0 {
            Action::Wait
        } else {
            Action::Rest
        },
    }
}

/// The action for a turn: wait when there is no potion; brew the best
/// potion when the stock covers it; otherwise cast the spell that the
/// bridging search finds, or rest when it finds none among the spells
/// there are, or wait when there are no spells.
pub open spec fn decision(potions: Seq<Potion>, spells: Seq<Spell>, witch: &Witch) -> Action {
    match best_potion(potions, witch) {
        None => Action::Wait,
        Some(target) => if covers(witch.inventory(), potions[target].delta()) {
            Action::Brew(potions[target].id)
        } else {
            fallback(potions, spells, witch, target)
        },
    }
}

/// A spell that the bridging search finds is always ready, so the agent
/// casts whatever the search finds, and rests only when it finds nothing.
pub proof fn lemma_fallback_casts_what_is_found(
    potions: Seq<Potion>,
    spells: Seq<Spell>,
    witch: &Witch,
    target: int,
)
    ensures
        match bridging_search(
            spells,
            witch.inventory(),
            shortfall(witch.inventory(), potions[target].delta()),
        ).0 {
            Some(s) => 0 <= s < spells.len() && fallback(potions, spells, witch, target)
                == Action::Cast(spells[s].id),
            None => fallback(potions, spells, witch, target) == (if spells.len() == 0 {
                Action::Wait
            } else {
                Action::Rest
            }),
        },
{
    lemma_search_is_bounded(
        spells,
        witch.inventory(),
        Seq::new(spells.len(), |i: int| false),
        shortfall(witch.inventory(), potions[target].delta()),
    );
}

/// Without a potion to aim for the agent waits, whatever it holds and
/// whatever spells there are.
pub proof fn lemma_no_potion_means_wait(potions: Seq<Potion>, spells: Seq<Spell>, witch: &Witch)
    requires
        potions.len() == 0,
    ensures
        decision(potions, spells, witch) == Action::Wait,
{
}

/// When the best potion cannot be brewed and, of the spells there are, none
/// is both ready and paid for by the stock, the agent rests.
pub proof fn lemma_nothing_castable_means_rest(
    potions: Seq<Potion>,
    spells: Seq<Spell>,
    witch: &Witch,
)
    requires
        spells.len() > 0,
        best_potion(potions, witch) matches Some(target) && !covers(
            witch.inventory(),
            potions[target].delta(),
        ),
        forall|i: int|
            0 <= i < spells.len() ==> !(#[trigger] spells[i]).castable || !affordable(
                witch.inventory(),
                spells[i].delta(),
            ),
    ensures
        decision(potions, spells, witch) == Action::Rest,
{
    let target = best_potion(potions, witch).unwrap();
    lemma_search_is_bounded(
        spells,
        witch.inventory(),
        Seq::new(spells.len(), |i: int| false),
        shortfall(witch.inventory(), potions[target].delta()),
    );
}

/// Decides the turn's action from the potions and spells on offer and the
/// acting party's state.
pub fn decide(potions: &Vec<Potion>, spells: &Vec<Spell>, witch: &Witch) -> (action: Action)
    ensures
        action == decision(potions@, spells@, witch),
        potions@.len() == 0 ==> action == Action::Wait,
{
    match get_best_potion(potions, witch) {
        None => Action::Wait,
        Some(target) => {
            let potion = &potions[target];
            if potion.brewable(witch) {
                Action::Brew(potion.id)
            } else {
                let deficit = potion.missing_ingredients(witch);
                match get_best_spell(spells, witch, deficit).spell {
                    Some(s) => if spells[s].castable {
                        Action::Cast(spells[s].id)
                    } else {
                        Action::Rest
                    },
                    None => if spells.len() == 0 {
                        Action::Wait
                    } else {
                        Action::Rest
                    },
                }
            }
        },
    }
}

/// Decides the turn's action straight from the records of the feed.
pub fn choose_action(records: &Vec<Record>, witch: &Witch) -> (action: Action)
    ensures
        action == decision(potions_of(records@), spells_of(records@), witch),
{
    let catalog = build_catalog(records);
    decide(&catalog.potions, &catalog.spells, witch)
}

} // verus!
