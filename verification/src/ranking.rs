//! Choosing the potion to aim for.

use vstd::prelude::*;
use crate::recipe::{Potion, Witch};

verus! {

/// An optional position in a catalog, as a mathematical integer.
pub open spec fn index_of(position: Option<usize>) -> Option<int> {
    match position {
        Some(i) => Some(i as int),
        None => None,
    }
}

/// The position of the most appealing of the first `n` potions. Among
/// equally appealing potions the one that stands later in the catalog wins.
pub open spec fn best_among(potions: Seq<Potion>, witch: &Witch, n: nat) -> Option<int>
    decreases n,
{
    if n == 0 {
        None
    } else {
        let last = n - 1;
        match best_among(potions, witch, (n - 1) as nat) {
            None => Some(last),
            Some(earlier) => if potions[earlier].appeal_of(witch) > potions[last].appeal_of(witch) {
                Some(earlier)
            } else {
                Some(last)
            },
        }
    }
}

/// The position of the potion to aim for, if the catalog holds any.
pub open spec fn best_potion(potions: Seq<Potion>, witch: &Witch) -> Option<int> {
    best_among(potions, witch, potions.len())
}

/// `i` is the position of a potion that no other beats: none is more
/// appealing, and none that stands later is as appealing.
pub open spec fn is_top_potion(potions: Seq<Potion>, witch: &Witch, n: int, i: int) -> bool {
    &&& 0 <= i < n
    &&& forall|j: int|
        0 <= j < n ==> (#[trigger] potions[j]).appeal_of(witch) <= potions[i].appeal_of(witch)
    &&& forall|j: int|
        i < j < n ==> (#[trigger] potions[j]).appeal_of(witch) < potions[i].appeal_of(witch)
}

/// The ranking picks nothing only from an empty catalog, and otherwise a
/// potion of maximal appeal, the last such in catalog order.
pub proof fn lemma_best_is_top(potions: Seq<Potion>, witch: &Witch, n: nat)
    ensures
        n == 0 <==> best_among(potions, witch, n) is None,
        best_among(potions, witch, n) matches Some(i) ==> is_top_potion(potions, witch, n as int, i),
    decreases n,
{
    if n > 0 {
        lemma_best_is_top(potions, witch, (n - 1) as nat);
    }
}

/// Picks the potion to aim for: the position in `potions` of the most
/// appealing one, the last such where several tie, or nothing when there
/// is no potion at all.
pub fn get_best_potion(potions: &Vec<Potion>, witch: &Witch) -> (best: Option<usize>)
    ensures
        index_of(best) == best_potion(potions@, witch),
        best is None <==> potions@.len() == 0,
        best matches Some(i) ==> is_top_potion(potions@, witch, potions@.len() as int, i as int),
{
    let mut best: Option<usize> = None;
    let mut best_appeal: i64 = 0;
    let mut i: usize = 0;
    while i < potions.len()
        invariant
            i <= potions@.len(),
            index_of(best) == best_among(potions@, witch, i as nat),
            best matches Some(p) ==> p < i && best_appeal == potions@[p as int].appeal_of(witch),
        decreases potions@.len() - i,
    {
        let appeal = potions[i].appeal(witch);
        if best.is_none() || best_appeal <= appeal {
            best = Some(i);
            best_appeal = appeal;
        }
        i += 1;
    }
    proof {
        lemma_best_is_top(potions@, witch, potions@.len());
    }
    best
}

} // verus!
