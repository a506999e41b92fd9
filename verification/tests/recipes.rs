use potion_agent::recipe::{Potion, Spell, Witch};
use potion_agent::tiers::{gain_of, missing_of, pays_for};

fn witch(t0: i32, t1: i32, t2: i32, t3: i32) -> Witch {
    Witch {
        tiers_0_inventory: t0,
        tiers_1_inventory: t1,
        tiers_2_inventory: t2,
        tiers_3_inventory: t3,
        score: 0,
    }
}

fn potion(id: i32, d: [i32; 4], price: i32) -> Potion {
    Potion {
        id,
        tiers_0_ingredient: d[0],
        tiers_1_ingredient: d[1],
        tiers_2_ingredient: d[2],
        tiers_3_ingredient: d[3],
        price,
    }
}

fn spell(id: i32, d: [i32; 4], castable: bool) -> Spell {
    Spell {
        id,
        tiers_0_ingredient: d[0],
        tiers_1_ingredient: d[1],
        tiers_2_ingredient: d[2],
        tiers_3_ingredient: d[3],
        price: 0,
        tome_index: 0,
        tax_count: 0,
        castable,
        repeatable: false,
    }
}

#[test]
fn brewable_when_every_tier_is_covered() {
    assert!(potion(1, [-3, 0, 0, 0], 10).brewable(&witch(3, 0, 0, 0)));
    assert!(potion(1, [-1, -2, -3, -4], 10).brewable(&witch(1, 2, 3, 4)));
    assert!(potion(1, [0, 0, 0, 0], 10).brewable(&witch(0, 0, 0, 0)));
}

#[test]
fn not_brewable_when_one_tier_is_short() {
    assert!(!potion(1, [-3, 0, 0, 0], 10).brewable(&witch(2, 9, 9, 9)));
    assert!(!potion(1, [0, -1, 0, 0], 10).brewable(&witch(9, 0, 9, 9)));
    assert!(!potion(1, [0, 0, -5, 0], 10).brewable(&witch(9, 9, 4, 9)));
    assert!(!potion(1, [0, 0, 0, -1], 10).brewable(&witch(9, 9, 9, 0)));
}

#[test]
fn brewable_agrees_with_the_sum_test_on_a_grid() {
    let values = [-3, -1, 0, 1, 3];
    for &inv in values.iter() {
        for &d in values.iter() {
            for tier in 0..4 {
                let mut stock = [5, 5, 5, 5];
                let mut delta = [-1, -1, -1, -1];
                stock[tier] = inv;
                delta[tier] = d;
                let expected = (0..4).all(|t| stock[t] + delta[t] >= 0);
                let w = witch(stock[0], stock[1], stock[2], stock[3]);
                assert_eq!(potion(1, delta, 0).brewable(&w), expected);
            }
        }
    }
}

#[test]
fn brewable_does_not_overflow() {
    let all_max = [i32::MAX, i32::MAX, i32::MAX, i32::MAX];
    assert!(potion(1, all_max, 0).brewable(&witch(i32::MAX, i32::MAX, i32::MAX, i32::MAX)));
    assert!(!potion(1, [i32::MIN, 0, 0, 0], 0).brewable(&witch(i32::MAX, 0, 0, 0)));
    assert!(!potion(1, [0, 0, 0, -1], 0).brewable(&witch(0, 0, 0, i32::MIN)));
}

#[test]
fn appeal_is_price_plus_ten_times_lowest_tier_surplus() {
    assert_eq!(potion(1, [-3, 0, 0, 0], 10).appeal(&witch(3, 0, 0, 0)), 10);
    assert_eq!(potion(1, [-1, 0, 0, 0], 10).appeal(&witch(3, 0, 0, 0)), 30);
    assert_eq!(potion(1, [-5, 0, 0, 0], 7).appeal(&witch(3, 0, 0, 0)), 7);
    assert_eq!(potion(1, [2, -9, -9, -9], 4).appeal(&witch(1, 8, 8, 8)), 34);
}

#[test]
fn appeal_does_not_overflow() {
    let p = potion(1, [i32::MAX, 0, 0, 0], i32::MAX);
    let expected = i32::MAX as i64 + 10 * (2 * (i32::MAX as i64));
    assert_eq!(p.appeal(&witch(i32::MAX, 0, 0, 0)), expected);
    let q = potion(1, [i32::MIN, 0, 0, 0], i32::MIN);
    assert_eq!(q.appeal(&witch(i32::MIN, 0, 0, 0)), i32::MIN as i64);
}

#[test]
fn missing_ingredients_are_the_clipped_shortfall() {
    let w = witch(1, 0, 5, 2);
    assert_eq!(potion(1, [-3, -2, -1, -2], 0).missing_ingredients(&w), [2, 2, 0, 0]);
    assert_eq!(potion(1, [0, 0, 0, 0], 0).missing_ingredients(&w), [0, 0, 0, 0]);
    assert_eq!(potion(1, [4, 1, -6, -3], 0).missing_ingredients(&w), [0, 0, 1, 1]);
    assert_eq!(spell(1, [-3, 2, 0, -3], true).missing_ingredients(&w), [2, 0, 0, 1]);
}

#[test]
fn missing_ingredients_are_never_negative() {
    let values = [i32::MIN, -7, -1, 0, 1, 7, i32::MAX];
    for &inv in values.iter() {
        for &d in values.iter() {
            let deficit = potion(1, [d, d, d, d], 0).missing_ingredients(&witch(inv, inv, inv, inv));
            for t in 0..4 {
                assert!(deficit[t] >= 0);
                if inv as i64 + d as i64 >= 0 {
                    assert_eq!(deficit[t], 0);
                } else {
                    assert_eq!(deficit[t], -(inv as i64 + d as i64));
                }
            }
        }
    }
}

#[test]
fn missing_of_handles_the_extremes() {
    assert_eq!(missing_of(0, i32::MIN), 2147483648);
    assert_eq!(missing_of(i32::MIN, i32::MIN), 4294967296);
    assert_eq!(missing_of(i32::MAX, i32::MAX), 0);
    assert_eq!(missing_of(2, -2), 0);
    assert_eq!(missing_of(2, -3), 1);
}

#[test]
fn gain_counts_production_only_where_something_is_missing() {
    assert_eq!(gain_of(1, 5), 5);
    assert_eq!(gain_of(0, 5), 0);
    assert_eq!(gain_of(3, 0), 0);
    assert_eq!(gain_of(3, -2), 0);
    assert_eq!(gain_of(-1, 4), 0);
}

#[test]
fn enough_ingredient_when_consumed_tiers_are_held() {
    let w = witch(2, 0, 1, 0);
    assert!(spell(1, [-2, 1, 0, 0], true).enough_ingredient(&w));
    assert!(spell(1, [2, 0, 0, 0], true).enough_ingredient(&w));
    assert!(spell(1, [-1, 3, -1, 5], false).enough_ingredient(&w));
    assert!(!spell(1, [-3, 1, 0, 0], true).enough_ingredient(&w));
    assert!(!spell(1, [0, -1, 0, 0], true).enough_ingredient(&w));
    assert!(!spell(1, [0, 0, 0, -1], true).enough_ingredient(&w));
}

#[test]
fn enough_ingredient_does_not_overflow() {
    assert!(!spell(1, [i32::MIN, 0, 0, 0], true).enough_ingredient(&witch(i32::MAX, 0, 0, 0)));
    assert!(spell(1, [-i32::MAX, 0, 0, 0], true).enough_ingredient(&witch(i32::MAX, 0, 0, 0)));
}

#[test]
fn a_tier_that_is_not_consumed_never_blocks() {
    assert!(spell(1, [0, 1, 0, 0], true).enough_ingredient(&witch(-1, -1, 0, 0)));
}

#[test]
fn usefulness_sums_production_in_deficit_tiers() {
    let s = spell(1, [2, 3, -1, 4], true);
    assert_eq!(s.useful_ingredient_added([1, 1, 1, 1]), 9);
    assert_eq!(s.useful_ingredient_added([1, 0, 1, 0]), 2);
    assert_eq!(s.useful_ingredient_added([0, 5, 0, 7]), 7);
    assert_eq!(s.useful_ingredient_added([0, 0, 9, 0]), 0);
}

#[test]
fn usefulness_is_zero_without_a_deficit() {
    assert_eq!(spell(1, [2, 3, 1, 4], true).useful_ingredient_added([0, 0, 0, 0]), 0);
    assert_eq!(spell(1, [-2, -3, -1, -4], true).useful_ingredient_added([0, 0, 0, 0]), 0);
    assert_eq!(spell(1, [i32::MAX, i32::MAX, i32::MAX, i32::MAX], true).useful_ingredient_added([0, 0, 0, 0]), 0);
}

#[test]
fn usefulness_is_never_negative() {
    let values = [i32::MIN, -2, 0, 2, i32::MAX];
    let deficits = [0i64, 1, i64::MAX];
    for &d in values.iter() {
        for &m in deficits.iter() {
            assert!(spell(1, [d, d, d, d], true).useful_ingredient_added([m, m, m, m]) >= 0);
        }
    }
}

#[test]
fn usefulness_does_not_overflow() {
    let s = spell(1, [i32::MAX, i32::MAX, i32::MAX, i32::MAX], true);
    assert_eq!(s.useful_ingredient_added([1, 1, 1, 1]), 4 * (i32::MAX as i64));
}

#[test]
fn usable_needs_ready_paid_and_useful() {
    let w = witch(2, 0, 0, 0);
    assert!(spell(1, [-2, 1, 0, 0], true).usable(&w, [0, 1, 0, 0]));
    assert!(!spell(1, [-2, 1, 0, 0], false).usable(&w, [0, 1, 0, 0]));
    assert!(!spell(1, [-3, 1, 0, 0], true).usable(&w, [0, 1, 0, 0]));
    assert!(!spell(1, [-2, 1, 0, 0], true).usable(&w, [0, 0, 1, 0]));
}

#[test]
fn a_tier_pays_when_it_holds_what_is_consumed() {
    assert!(pays_for(2, -2));
    assert!(pays_for(3, -2));
    assert!(!pays_for(1, -2));
    assert!(pays_for(0, 0));
    assert!(pays_for(0, 5));
    assert!(pays_for(-4, 0));
    assert!(pays_for(-4, 1));
    assert!(!pays_for(i32::MAX, i32::MIN));
    assert!(pays_for(i32::MAX, -i32::MAX));
}
