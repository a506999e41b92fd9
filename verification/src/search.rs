//! The bridging search: finding the one spell to cast when the potion aimed
//! for cannot be brewed yet.
//!
//! The search keeps a mask of discarded spells. Each round it picks, among
//! the spells still open, the one most useful against the current deficit.
//! A pick that can be cast to good effect ends the search. Any other pick is
//! discarded for good and becomes the next thing to bridge to: the deficit
//! is from then on what the stock lacks to cast it.

use vstd::prelude::*;
use crate::recipe::{Spell, Witch};
use crate::tiers::{affordable, amounts, shortfall, usefulness};
use crate::ranking::index_of;

verus! {

/// What a search came to: the position of the spell to cast, if one was
/// found, and how many spells were discarded on the way.
#[derive(Clone, Copy, Debug, PartialEq, Eq)]
pub struct Bridge {
    pub spell: Option<usize>,
    pub discarded: usize,
}

/// The position of the most useful of the first `n` spells that `excluded`
/// leaves open. Among equally useful spells the one that stands later wins.
pub open spec fn pick_among(
    spells: Seq<Spell>,
    excluded: Seq<bool>,
    deficit: Seq<int>,
    n: nat,
) -> Option<int>
    decreases n,
{
    if n == 0 {
        None
    } else {
        let last = n - 1;
        let earlier = pick_among(spells, excluded, deficit, (n - 1) as nat);
        if excluded[last] {
            earlier
        } else {
            match earlier {
                None => Some(last),
                Some(e) => if usefulness(deficit, spells[e].delta()) > usefulness(
                    deficit,
                    spells[last].delta(),
                ) {
                    Some(e)
                } else {
                    Some(last)
                },
            }
        }
    }
}

/// `i` is the position of an open spell that no other open spell beats.
pub open spec fn is_top_spell(
    spells: Seq<Spell>,
    excluded: Seq<bool>,
    deficit: Seq<int>,
    n: int,
    i: int,
) -> bool {
    &&& 0 <= i < n
    &&& !excluded[i]
    &&& forall|j: int|
        0 <= j < n && !#[trigger] excluded[j] ==> usefulness(deficit, spells[j].delta())
            <= usefulness(deficit, spells[i].delta())
    &&& forall|j: int|
        i < j < n && !#[trigger] excluded[j] ==> usefulness(deficit, spells[j].delta())
            < usefulness(deficit, spells[i].delta())
}

/// How many spells the mask leaves open.
pub open spec fn open_count(excluded: Seq<bool>) -> nat
    decreases excluded.len(),
{
    if excluded.len() == 0 {
        0
    } else if excluded.last() {
        open_count(excluded.drop_last())
    } else {
        open_count(excluded.drop_last()) + 1
    }
}

/// The search from a given mask and deficit on: the position of the spell
/// found, if any, and the number of spells discarded before the end.
pub open spec fn search_from(
    spells: Seq<Spell>,
    inventory: Seq<int>,
    excluded: Seq<bool>,
    deficit: Seq<int>,
) -> (Option<int>, nat)
    decreases open_count(excluded),
    when excluded.len() == spells.len()
{
    match pick_among(spells, excluded, deficit, spells.len()) {
        None => (None, 0),
        Some(i) => if spells[i].usable_with(inventory, deficit) {
            (Some(i), 0)
        } else {
            proof {
                lemma_pick_is_top(spells, excluded, deficit, spells.len());
                lemma_discard_closes_one(excluded, i);
            }
            let rest = search_from(
                spells,
                inventory,
                excluded.update(i, true),
                shortfall(inventory, spells[i].delta()),
            );
            (rest.0, rest.1 + 1)
        },
    }
}

/// The whole search: every spell open, `deficit` what the potion lacks.
pub open spec fn bridging_search(spells: Seq<Spell>, inventory: Seq<int>, deficit: Seq<int>) -> (
    Option<int>,
    nat,
) {
    search_from(spells, inventory, Seq::new(spells.len(), |i: int| false), deficit)
}

/// A round picks nothing only when no spell is open, and otherwise an open
/// spell of maximal usefulness, the last such in catalog order.
pub proof fn lemma_pick_is_top(spells: Seq<Spell>, excluded: Seq<bool>, deficit: Seq<int>, n: nat)
    ensures
        pick_among(spells, excluded, deficit, n) is None <==> forall|j: int|
            0 <= j < n ==> #[trigger] excluded[j],
        pick_among(spells, excluded, deficit, n) matches Some(i) ==> is_top_spell(
            spells,
            excluded,
            deficit,
            n as int,
            i,
        ),
    decreases n,
{
    if n > 0 {
        lemma_pick_is_top(spells, excluded, deficit, (n - 1) as nat);
    }
}

/// Discarding an open spell leaves one open spell fewer.
pub proof fn lemma_discard_closes_one(excluded: Seq<bool>, i: int)
    requires
        0 <= i < excluded.len(),
        !excluded[i],
    ensures
        open_count(excluded.update(i, true)) + 1 == open_count(excluded),
    decreases excluded.len(),
{
    let after = excluded.update(i, true);
    if i == excluded.len() - 1 {
        assert(after.drop_last() =~= excluded.drop_last());
    } else {
        assert(after.drop_last() =~= excluded.drop_last().update(i, true));
        lemma_discard_closes_one(excluded.drop_last(), i);
    }
}

/// A mask leaves no more spells open than it has entries: all of them
/// exactly when it excludes none, and none exactly when it excludes all.
pub proof fn lemma_open_count_bounds(excluded: Seq<bool>)
    ensures
        open_count(excluded) <= excluded.len(),
        open_count(excluded) == excluded.len() <==> forall|j: int|
            0 <= j < excluded.len() ==> !#[trigger] excluded[j],
        open_count(excluded) == 0 <==> forall|j: int|
            0 <= j < excluded.len() ==> #[trigger] excluded[j],
    decreases excluded.len(),
{
    if excluded.len() > 0 {
        let front = excluded.drop_last();
        lemma_open_count_bounds(front);
        assert(forall|j: int| 0 <= j < front.len() ==> front[j] == excluded[j]);
        if open_count(excluded) == excluded.len() {
            assert forall|j: int| 0 <= j < excluded.len() implies !#[trigger] excluded[j] by {
                if j < front.len() {
                    assert(!front[j]);
                }
            }
        }
        if open_count(excluded) == 0 {
            assert forall|j: int| 0 <= j < excluded.len() implies #[trigger] excluded[j] by {
                if j < front.len() {
                    assert(front[j]);
                }
            }
        }
        if forall|j: int| 0 <= j < excluded.len() ==> !#[trigger] excluded[j] {
            assert forall|j: int| 0 <= j < front.len() implies !#[trigger] front[j] by {
                assert(!excluded[j]);
            }
        }
        if forall|j: int| 0 <= j < excluded.len() ==> #[trigger] excluded[j] {
            assert forall|j: int| 0 <= j < front.len() implies #[trigger] front[j] by {
                assert(excluded[j]);
            }
        }
    }
}

/// The search discards each spell at most once: it never discards more
/// spells than were open when it started, so it ends within as many rounds
/// as there are spells. A spell it finds is ready and paid for by the stock.
pub proof fn lemma_search_is_bounded(
    spells: Seq<Spell>,
    inventory: Seq<int>,
    excluded: Seq<bool>,
    deficit: Seq<int>,
)
    requires
        excluded.len() == spells.len(),
    ensures
        search_from(spells, inventory, excluded, deficit).1 <= open_count(excluded),
        open_count(excluded) <= spells.len(),
        search_from(spells, inventory, excluded, deficit).0 matches Some(i) ==> 0 <= i
            < spells.len() && !excluded[i] && spells[i].castable && affordable(
            inventory,
            spells[i].delta(),
        ),
    decreases open_count(excluded),
{
    lemma_open_count_bounds(excluded);
    lemma_pick_is_top(spells, excluded, deficit, spells.len());
    match pick_among(spells, excluded, deficit, spells.len()) {
        None => {},
        Some(i) => {
            if !spells[i].usable_with(inventory, deficit) {
                lemma_discard_closes_one(excluded, i);
                lemma_search_is_bounded(
                    spells,
                    inventory,
                    excluded.update(i, true),
                    shortfall(inventory, spells[i].delta()),
                );
            }
        },
    }
}

/// One round's pick: the position of the most useful spell that `excluded`
/// leaves open, the last such where several tie, or nothing when none is open.
pub fn pick_spell(spells: &Vec<Spell>, excluded: &Vec<bool>, deficit: [i64; 4]) -> (best: Option<
    usize,
>)
    requires
        excluded@.len() == spells@.len(),
    ensures
        index_of(best) == pick_among(spells@, excluded@, amounts(deficit), spells@.len()),
        best is None <==> forall|j: int| 0 <= j < spells@.len() ==> #[trigger] excluded@[j],
        best matches Some(i) ==> is_top_spell(
            spells@,
            excluded@,
            amounts(deficit),
            spells@.len() as int,
            i as int,
        ),
{
    let mut best: Option<usize> = None;
    let mut best_score: i64 = 0;
    let mut i: usize = 0;
    while i < spells.len()
        invariant
            i <= spells@.len(),
            excluded@.len() == spells@.len(),
            index_of(best) == pick_among(spells@, excluded@, amounts(deficit), i as nat),
            best matches Some(p) ==> p < i && best_score == usefulness(
                amounts(deficit),
                spells@[p as int].delta(),
            ),
        decreases spells@.len() - i,
    {
        if !excluded[i] {
            let score = spells[i].useful_ingredient_added(deficit);
            if best.is_none() || best_score <= score {
                best = Some(i);
                best_score = score;
            }
        }
        i += 1;
    }
    proof {
        lemma_pick_is_top(spells@, excluded@, amounts(deficit), spells@.len());
    }
    best
}

/// A mask of `n` entries that excludes nothing.
pub fn all_open(n: usize) -> (excluded: Vec<bool>)
    ensures
        excluded@ == Seq::new(n as nat, |i: int| false),
{
    let mut excluded: Vec<bool> = Vec::new();
    while excluded.len() < n
        invariant
            excluded@.len() <= n,
            forall|j: int| 0 <= j < excluded@.len() ==> !#[trigger] excluded@[j],
        decreases n - excluded@.len(),
    {
        excluded.push(false);
    }
    assert(excluded@ =~= Seq::new(n as nat, |i: int| false));
    excluded
}

/// Searches `spells` for the one to cast so as to come closer to covering
/// `missing_ingredients`. Returns its position, or nothing when every spell
/// was discarded, together with the number of spells discarded, which is
/// never more than there are spells.
pub fn get_best_spell(spells: &Vec<Spell>, witch: &Witch, missing_ingredients: [i64; 4]) -> (bridge:
    Bridge)
    ensures
        index_of(bridge.spell) == bridging_search(
            spells@,
            witch.inventory(),
            amounts(missing_ingredients),
        ).0,
        bridge.discarded == bridging_search(
            spells@,
            witch.inventory(),
            amounts(missing_ingredients),
        ).1,
        bridge.discarded <= spells@.len(),
        bridge.spell is None ==> bridge.discarded == spells@.len(),
        bridge.spell matches Some(i) ==> i < spells@.len() && spells@[i as int].castable
            && affordable(witch.inventory(), spells@[i as int].delta()),
{
    let n = spells.len();
    let mut excluded = all_open(n);
    let mut deficit = missing_ingredients;
    let mut discarded: usize = 0;
    let ghost whole = bridging_search(spells@, witch.inventory(), amounts(missing_ingredients));
    proof {
        lemma_open_count_bounds(excluded@);
    }
    while discarded < n
        invariant
            n == spells@.len(),
            excluded@.len() == n,
            discarded + open_count(excluded@) == n,
            whole == bridging_search(spells@, witch.inventory(), amounts(missing_ingredients)),
            whole.0 == search_from(spells@, witch.inventory(), excluded@, amounts(deficit)).0,
            whole.1 == search_from(spells@, witch.inventory(), excluded@, amounts(deficit)).1
                + discarded,
        decreases n - discarded,
    {
        match pick_spell(spells, &excluded, deficit) {
            None => {
                proof {
                    lemma_open_count_bounds(excluded@);
                }
                return Bridge { spell: None, discarded };
            },
            Some(i) => {
                if spells[i].usable(witch, deficit) {
                    return Bridge { spell: Some(i), discarded };
                }
                proof {
                    lemma_discard_closes_one(excluded@, i as int);
                }
                excluded.set(i, true);
                deficit = spells[i].missing_ingredients(witch);
                discarded += 1;
            },
        }
    }
    proof {
        lemma_open_count_bounds(excluded@);
        lemma_pick_is_top(spells@, excluded@, amounts(deficit), spells@.len());
    }
    Bridge { spell: None, discarded }
}

} // verus!
