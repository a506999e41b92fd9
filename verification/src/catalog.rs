//! Building the turn's catalogs of potions and spells from the records of
//! the state feed.

use vstd::prelude::*;
use crate::recipe::{Potion, Spell};

verus! {

/// What a record of the feed describes.
#[derive(Clone, Copy, Debug, PartialEq, Eq, Structural)]
pub enum RecordKind {
    /// A potion on offer.
    Brew,
    /// A spell of the acting party.
    Cast,
    /// A spell of the opponent.
    OpponentCast,
    /// A spell that could be learnt.
    Learn,
    /// Anything else.
    Unknown,
}

/// One record of the feed, its numbers as they were read.
#[derive(Clone, Copy, Debug, PartialEq, Eq)]
pub struct Record {
    pub id: i32,
    pub kind: RecordKind,
    pub tiers_0_ingredient: i32,
    pub tiers_1_ingredient: i32,
    pub tiers_2_ingredient: i32,
    pub tiers_3_ingredient: i32,
    pub price: i32,
    pub tome_index: i32,
    pub tax_count: i32,
    pub castable: i32,
    pub repeatable: i32,
}

/// The potions and spells that a turn's decision is made on.
#[derive(Debug, PartialEq, Eq)]
pub struct Catalog {
    pub potions: Vec<Potion>,
    pub spells: Vec<Spell>,
}

/// The letters `BREW`.
pub open spec fn brew_token() -> Seq<u8> {
    seq![66u8, 82u8, 69u8, 87u8]
}

/// The letters `CAST`.
pub open spec fn cast_token() -> Seq<u8> {
    seq![67u8, 65u8, 83u8, 84u8]
}

/// The letters `OPPONENT_CAST`.
pub open spec fn opponent_cast_token() -> Seq<u8> {
    seq![79u8, 80u8, 80u8, 79u8, 78u8, 69u8, 78u8, 84u8, 95u8, 67u8, 65u8, 83u8, 84u8]
}

/// The letters `LEARN`.
pub open spec fn learn_token() -> Seq<u8> {
    seq![76u8, 69u8, 65u8, 82u8, 78u8]
}

/// The kind that a token of the feed names. Tokens are matched letter for
/// letter, in upper case.
pub open spec fn kind_named(token: Seq<u8>) -> RecordKind {
    if token == brew_token() {
        RecordKind::Brew
    } else if token == cast_token() {
        RecordKind::Cast
    } else if token == opponent_cast_token() {
        RecordKind::OpponentCast
    } else if token == learn_token() {
        RecordKind::Learn
    } else {
        RecordKind::Unknown
    }
}

/// The potion that a record describes.
pub open spec fn potion_of(record: Record) -> Potion {
    Potion {
        id: record.id,
        tiers_0_ingredient: record.tiers_0_ingredient,
        tiers_1_ingredient: record.tiers_1_ingredient,
        tiers_2_ingredient: record.tiers_2_ingredient,
        tiers_3_ingredient: record.tiers_3_ingredient,
        price: record.price,
    }
}

/// The spell that a record describes. A flag is set by any number but zero.
pub open spec fn spell_of(record: Record) -> Spell {
    Spell {
        id: record.id,
        tiers_0_ingredient: record.tiers_0_ingredient,
        tiers_1_ingredient: record.tiers_1_ingredient,
        tiers_2_ingredient: record.tiers_2_ingredient,
        tiers_3_ingredient: record.tiers_3_ingredient,
        price: record.price,
        tome_index: record.tome_index,
        tax_count: record.tax_count,
        castable: record.castable != 0,
        repeatable: record.repeatable != 0,
    }
}

/// The potions among `records`, in the order of the feed.
pub open spec fn potions_of(records: Seq<Record>) -> Seq<Potion>
    decreases records.len(),
{
    if records.len() == 0 {
        Seq::empty()
    } else if records.last().kind == RecordKind::Brew {
        potions_of(records.drop_last()).push(potion_of(records.last()))
    } else {
        potions_of(records.drop_last())
    }
}

/// The acting party's spells among `records`, in the order of the feed.
pub open spec fn spells_of(records: Seq<Record>) -> Seq<Spell>
    decreases records.len(),
{
    if records.len() == 0 {
        Seq::empty()
    } else if records.last().kind == RecordKind::Cast {
        spells_of(records.drop_last()).push(spell_of(records.last()))
    } else {
        spells_of(records.drop_last())
    }
}

/// Some `Brew` record among `records` describes `potion`.
pub open spec fn is_offered(records: Seq<Record>, potion: Potion) -> bool {
    exists|j: int|
        0 <= j < records.len() && (#[trigger] records[j]).kind == RecordKind::Brew && potion_of(
            records[j],
        ) == potion
}

/// Some `Cast` record among `records` describes `spell`.
pub open spec fn is_known(records: Seq<Record>, spell: Spell) -> bool {
    exists|j: int|
        0 <= j < records.len() && (#[trigger] records[j]).kind == RecordKind::Cast && spell_of(
            records[j],
        ) == spell
}

/// A catalog holds nothing but what the feed offered: each potion is that
/// of a `Brew` record and each spell that of a `Cast` record, and there are
/// no more of them than records.
pub proof fn lemma_catalog_comes_from_records(records: Seq<Record>)
    ensures
        potions_of(records).len() + spells_of(records).len() <= records.len(),
        forall|i: int|
            0 <= i < potions_of(records).len() ==> is_offered(
                records,
                #[trigger] potions_of(records)[i],
            ),
        forall|i: int|
            0 <= i < spells_of(records).len() ==> is_known(
                records,
                #[trigger] spells_of(records)[i],
            ),
    decreases records.len(),
{
    if records.len() > 0 {
        let front = records.drop_last();
        let last = records.len() - 1;
        lemma_catalog_comes_from_records(front);
        assert forall|i: int| 0 <= i < potions_of(records).len() implies is_offered(
            records,
            #[trigger] potions_of(records)[i],
        ) by {
            if i < potions_of(front).len() {
                assert(potions_of(records)[i] == potions_of(front)[i]);
                assert(is_offered(front, potions_of(front)[i]));
                let j = choose|j: int|
                    0 <= j < front.len() && (#[trigger] front[j]).kind == RecordKind::Brew
                        && potion_of(front[j]) == potions_of(front)[i];
                assert(records[j] == front[j]);
            } else {
                assert(records[last].kind == RecordKind::Brew);
            }
        }
        assert forall|i: int| 0 <= i < spells_of(records).len() implies is_known(
            records,
            #[trigger] spells_of(records)[i],
        ) by {
            if i < spells_of(front).len() {
                assert(spells_of(records)[i] == spells_of(front)[i]);
                assert(is_known(front, spells_of(front)[i]));
                let j = choose|j: int|
                    0 <= j < front.len() && (#[trigger] front[j]).kind == RecordKind::Cast
                        && spell_of(front[j]) == spells_of(front)[i];
                assert(records[j] == front[j]);
            } else {
                assert(records[last].kind == RecordKind::Cast);
            }
        }
    }
}

/// Whether two byte strings are the same.
pub fn same_bytes(a: &[u8], b: &[u8]) -> (same: bool)
    ensures
        same == (a@ == b@),
{
    if a.len() != b.len() {
        return false;
    }
    let mut i: usize = 0;
    while i < a.len()
        invariant
            i <= a@.len(),
            a@.len() == b@.len(),
            forall|j: int| 0 <= j < i ==> a@[j] == b@[j],
        decreases a@.len() - i,
    {
        if a[i] != b[i] {
            return false;
        }
        i += 1;
    }
    assert(a@ =~= b@);
    true
}

impl RecordKind {
    /// Reads the kind off a token of the feed. A token that names none of
    /// the four kinds gives `Unknown`.
    pub fn from_token(token: &[u8]) -> (kind: RecordKind)
        ensures
            kind == kind_named(token@),
    {
        let brew: [u8; 4] = [66, 82, 69, 87];
        let cast: [u8; 4] = [67, 65, 83, 84];
        let opponent_cast: [u8; 13] = [79, 80, 80, 79, 78, 69, 78, 84, 95, 67, 65, 83, 84];
        let learn: [u8; 5] = [76, 69, 65, 82, 78];
        assert(brew@ =~= brew_token());
        assert(cast@ =~= cast_token());
        assert(opponent_cast@ =~= opponent_cast_token());
        assert(learn@ =~= learn_token());
        if same_bytes(token, brew.as_slice()) {
            RecordKind::Brew
        } else if same_bytes(token, cast.as_slice()) {
            RecordKind::Cast
        } else if same_bytes(token, opponent_cast.as_slice()) {
            RecordKind::OpponentCast
        } else if same_bytes(token, learn.as_slice()) {
            RecordKind::Learn
        } else {
            RecordKind::Unknown
        }
    }
}

impl Record {
    /// Reads the record as a potion.
    pub fn to_potion(&self) -> (potion: Potion)
        ensures
            potion == potion_of(*self),
    {
        Potion {
            id: self.id,
            tiers_0_ingredient: self.tiers_0_ingredient,
            tiers_1_ingredient: self.tiers_1_ingredient,
            tiers_2_ingredient: self.tiers_2_ingredient,
            tiers_3_ingredient: self.tiers_3_ingredient,
            price: self.price,
        }
    }

    /// Reads the record as a spell.
    pub fn to_spell(&self) -> (spell: Spell)
        ensures
            spell == spell_of(*self),
    {
        Spell {
            id: self.id,
            tiers_0_ingredient: self.tiers_0_ingredient,
            tiers_1_ingredient: self.tiers_1_ingredient,
            tiers_2_ingredient: self.tiers_2_ingredient,
            tiers_3_ingredient: self.tiers_3_ingredient,
            price: self.price,
            tome_index: self.tome_index,
            tax_count: self.tax_count,
            castable: self.castable != 0,
            repeatable: self.repeatable != 0,
        }
    }
}

/// Sorts the records of a turn into potions and spells, each in the order
/// of the feed. Records of any other kind are left out.
pub fn build_catalog(records: &Vec<Record>) -> (catalog: Catalog)
    ensures
        catalog.potions@ == potions_of(records@),
        catalog.spells@ == spells_of(records@),
{
    let mut potions: Vec<Potion> = Vec::new();
    let mut spells: Vec<Spell> = Vec::new();
    let mut i: usize = 0;
    while i < records.len()
        invariant
            i <= records@.len(),
            potions@ == potions_of(records@.take(i as int)),
            spells@ == spells_of(records@.take(i as int)),
        decreases records@.len() - i,
    {
        proof {
            assert(records@.take(i + 1).drop_last() =~= records@.take(i as int));
        }
        let record = &records[i];
        match record.kind {
            RecordKind::Brew => potions.push(record.to_potion()),
            RecordKind::Cast => spells.push(record.to_spell()),
            _ => {},
        }
        i += 1;
    }
    proof {
        assert(records@.take(records@.len() as int) =~= records@);
    }
    Catalog { potions, spells }
}

} // verus!
