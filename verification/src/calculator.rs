//! The new-card probability engine.
//!
//! A pack has five card slots. The first three draw from the lowest rarity
//! tier; slots four and five draw a rarity tier according to the offering-rate
//! table and then a card of that tier, uniformly. Opening yields nothing new
//! only if all five slots produce already-owned cards, so the probability of
//! something new is one minus the product of the five per-slot duplicate
//! probabilities. All probabilities are exact integers in parts per million;
//! each division rounds down.

use vstd::arithmetic::div_mod::{
    lemma_div_is_ordered, lemma_div_multiples_vanish, lemma_div_pos_is_pos,
};
use vstd::arithmetic::mul::{lemma_mul_inequality, lemma_mul_upper_bound};
use vstd::prelude::*;

use crate::card::{Card, CardView};
use crate::collection::{contains_number, number_set};
use crate::errors::EngineError;
use crate::offering_rates::{rate_sum, OfferingRates, RATE_SCALE};
use crate::rarity::{Rarity, RARITY_COUNT};

verus! {

/// How many cards of a rarity tier a pool holds.
pub open spec fn pool_count(pool: Seq<CardView>, rarity: Rarity) -> nat
    decreases pool.len(),
{
    if pool.len() == 0 {
        0
    } else {
        pool_count(pool.drop_last(), rarity) + if pool.last().rarity == rarity {
            1nat
        } else {
            0nat
        }
    }
}

/// How many cards of a rarity tier in a pool are already owned.
pub open spec fn owned_count(pool: Seq<CardView>, rarity: Rarity, owned: Set<int>) -> nat
    decreases pool.len(),
{
    if pool.len() == 0 {
        0
    } else {
        owned_count(pool.drop_last(), rarity, owned) + if pool.last().rarity == rarity
            && owned.contains(pool.last().number) {
            1nat
        } else {
            0nat
        }
    }
}

/// The fraction of a rarity tier's cards in a pool that are already owned,
/// in parts per million, rounded down. Meaningful only for a tier the pool
/// holds at least one card of.
pub open spec fn owned_fraction_ppm(pool: Seq<CardView>, rarity: Rarity, owned: Set<int>) -> int {
    owned_count(pool, rarity, owned) * RATE_SCALE / pool_count(pool, rarity) as int
}

/// The probability that the first three card slots all produce duplicates:
/// each draws from the lowest tier, so it is the owned fraction of that tier
/// cubed. A pool without lowest-tier cards has no such guaranteed draws and
/// contributes no duplicate mass.
pub open spec fn first_slots_dup_ppm(pool: Seq<CardView>, owned: Set<int>) -> int {
    if pool_count(pool, Rarity::OneDiamond) == 0 {
        0
    } else {
        let f = owned_fraction_ppm(pool, Rarity::OneDiamond, owned);
        f * f * f / (RATE_SCALE * RATE_SCALE) as int
    }
}

/// The offering-rate-weighted owned fractions of the first `k` rarity tiers,
/// each still scaled by one whole unit. A tier with no cards in the pool is
/// excluded from the summation.
pub open spec fn slot_dup_sum(pool: Seq<CardView>, rates: Seq<u64>, owned: Set<int>, k: int) -> int
    decreases k,
{
    if k <= 0 {
        0
    } else {
        slot_dup_sum(pool, rates, owned, k - 1) + rarity_dup_term(pool, rates, owned, k - 1)
    }
}

/// One tier's contribution to a rare slot's duplicate probability: its
/// offering rate times its owned fraction, or nothing if the pool holds no
/// card of the tier.
pub open spec fn rarity_dup_term(pool: Seq<CardView>, rates: Seq<u64>, owned: Set<int>, i: int) -> int {
    let rarity = Rarity::spec_from_index(i);
    if pool_count(pool, rarity) == 0 {
        0
    } else {
        rates[i] * owned_fraction_ppm(pool, rarity, owned)
    }
}

/// The probability, in parts per million, that a rare slot with the given
/// rates produces a duplicate.
pub open spec fn slot_dup_ppm(pool: Seq<CardView>, rates: Seq<u64>, owned: Set<int>) -> int {
    slot_dup_sum(pool, rates, owned, RARITY_COUNT as int) / RATE_SCALE as int
}

/// The probability, in parts per million, that all five slots of one opened
/// pack produce already-owned cards.
pub open spec fn duplicate_ppm(
    pool: Seq<CardView>,
    fourth_rates: Seq<u64>,
    fifth_rates: Seq<u64>,
    owned: Set<int>,
) -> int {
    first_slots_dup_ppm(pool, owned) * slot_dup_ppm(pool, fourth_rates, owned) * slot_dup_ppm(
        pool,
        fifth_rates,
        owned,
    ) / (RATE_SCALE * RATE_SCALE) as int
}

/// The probability, in parts per million, that one opened pack from the pool
/// yields at least one card outside the owned set.
pub open spec fn new_card_probability_ppm(
    pool: Seq<CardView>,
    fourth_rates: Seq<u64>,
    fifth_rates: Seq<u64>,
    owned: Set<int>,
) -> int {
    RATE_SCALE - duplicate_ppm(pool, fourth_rates, fifth_rates, owned)
}

/// A pool never holds more cards of one tier than cards.
pub proof fn lemma_pool_count_le_len(pool: Seq<CardView>, rarity: Rarity)
    ensures
        pool_count(pool, rarity) <= pool.len(),
    decreases pool.len(),
{
    if pool.len() > 0 {
        lemma_pool_count_le_len(pool.drop_last(), rarity);
    }
}

/// A tier's owned cards are among its cards.
pub proof fn lemma_owned_le_pool_count(pool: Seq<CardView>, rarity: Rarity, owned: Set<int>)
    ensures
        owned_count(pool, rarity, owned) <= pool_count(pool, rarity),
    decreases pool.len(),
{
    if pool.len() > 0 {
        lemma_owned_le_pool_count(pool.drop_last(), rarity, owned);
    }
}

/// Extending a pool by one card raises exactly that card's tier counts.
proof fn lemma_count_step(pool: Seq<CardView>, i: int, owned: Set<int>)
    requires
        0 <= i < pool.len(),
    ensures
        forall|rarity: Rarity|
            #[trigger] pool_count(pool.take(i + 1), rarity) == pool_count(pool.take(i), rarity) + (
            if pool[i].rarity == rarity {
                1nat
            } else {
                0nat
            }),
        forall|rarity: Rarity|
            #[trigger] owned_count(pool.take(i + 1), rarity, owned) == owned_count(
                pool.take(i),
                rarity,
                owned,
            ) + (
            if pool[i].rarity == rarity && owned.contains(pool[i].number) {
                1nat
            } else {
                0nat
            }),
{
    assert(pool.take(i + 1).drop_last() =~= pool.take(i));
    assert(pool.take(i + 1).last() == pool[i]);
}

/// An owned fraction is a probability: at most one whole unit.
pub proof fn lemma_fraction_le_scale(pool: Seq<CardView>, rarity: Rarity, owned: Set<int>)
    requires
        pool_count(pool, rarity) > 0,
    ensures
        0 <= owned_fraction_ppm(pool, rarity, owned) <= RATE_SCALE,
{
    let o = owned_count(pool, rarity, owned) as int;
    let t = pool_count(pool, rarity) as int;
    lemma_owned_le_pool_count(pool, rarity, owned);
    lemma_mul_inequality(o, t, RATE_SCALE as int);
    lemma_div_is_ordered(o * RATE_SCALE, t * RATE_SCALE, t);
    lemma_div_multiples_vanish(RATE_SCALE as int, t);
    lemma_div_pos_is_pos(o * RATE_SCALE, t);
    vstd::arithmetic::mul::lemma_mul_nonnegative(o, RATE_SCALE as int);
}

/// A nonnegative value at most `bound` times `scale` stays at most `bound`
/// after dividing by `scale`.
proof fn lemma_scaled_div_le(x: int, bound: int, scale: int)
    requires
        0 <= x,
        x <= bound * scale,
        scale > 0,
        bound >= 0,
    ensures
        0 <= x / scale <= bound,
{
    lemma_div_is_ordered(x, bound * scale, scale);
    lemma_div_multiples_vanish(bound, scale);
    vstd::arithmetic::mul::lemma_mul_is_commutative(bound, scale);
    lemma_div_pos_is_pos(x, scale);
}

/// A rare slot's duplicate sum is a probability mass: between zero and the
/// slot's total offering rate, all scaled by one whole unit.
pub proof fn lemma_slot_dup_sum_bounds(pool: Seq<CardView>, rates: Seq<u64>, owned: Set<int>, k: int)
    requires
        0 <= k <= RARITY_COUNT,
    ensures
        0 <= slot_dup_sum(pool, rates, owned, k),
        slot_dup_sum(pool, rates, owned, k) <= rate_sum(rates, k) * RATE_SCALE,
    decreases k,
{
    if k > 0 {
        lemma_slot_dup_sum_bounds(pool, rates, owned, k - 1);
        let rarity = Rarity::spec_from_index(k - 1);
        if pool_count(pool, rarity) > 0 {
            lemma_fraction_le_scale(pool, rarity, owned);
            lemma_mul_inequality(
                owned_fraction_ppm(pool, rarity, owned),
                RATE_SCALE as int,
                rates[k - 1] as int,
            );
            vstd::arithmetic::mul::lemma_mul_nonnegative(
                rates[k - 1] as int,
                owned_fraction_ppm(pool, rarity, owned),
            );
            assert(rates[k - 1] * owned_fraction_ppm(pool, rarity, owned) <= rates[k - 1]
                * RATE_SCALE) by {
                lemma_mul_inequality(
                    owned_fraction_ppm(pool, rarity, owned),
                    RATE_SCALE as int,
                    rates[k - 1] as int,
                );
                vstd::arithmetic::mul::lemma_mul_is_commutative(
                    rates[k - 1] as int,
                    owned_fraction_ppm(pool, rarity, owned),
                );
                vstd::arithmetic::mul::lemma_mul_is_commutative(
                    rates[k - 1] as int,
                    RATE_SCALE as int,
                );
            }
        }
        assert(rate_sum(rates, k) * RATE_SCALE == rate_sum(rates, k - 1) * RATE_SCALE + rates[k
            - 1] * RATE_SCALE) by {
            vstd::arithmetic::mul::lemma_mul_is_distributive_add_other_way(
                RATE_SCALE as int,
                rate_sum(rates, k - 1),
                rates[k - 1] as int,
            );
        }
    }
}

/// Estimates the probability that opening one pack drawn from the given card
/// pool yields at least one card whose number is outside the owned set. The
/// result is in parts per million of certainty. An empty pool is a hard
/// error: there is nothing to draw.
pub fn calculate_probability_of_new_card(
    pool: &Vec<Card>,
    offering_rates: &OfferingRates,
    owned_numbers: &Vec<usize>,
) -> (result: Result<u64, EngineError>)
    ensures
        match result {
            Ok(p) => {
                &&& pool@.len() > 0
                &&& p == new_card_probability_ppm(
                    pool.deep_view(),
                    offering_rates.fourth(),
                    offering_rates.fifth(),
                    number_set(owned_numbers@),
                )
                &&& p <= RATE_SCALE
            },
            Err(e) => {
                &&& e matches EngineError::EmptyCardPool
                &&& pool@.len() == 0
            },
        },
{
    let ghost pool_dv = pool.deep_view();
    let ghost owned = number_set(owned_numbers@);
    let ghost rates4 = offering_rates.fourth();
    let ghost rates5 = offering_rates.fifth();
    proof {
        use_type_invariant(offering_rates);
        offering_rates.lemma_well_formed();
    }

    if pool.len() == 0 {
        return Err(EngineError::EmptyCardPool);
    }

    // Partition the pool by rarity tier, counting total and owned cards.
    let mut totals: [usize; 8] = [0; 8];
    let mut owneds: [usize; 8] = [0; 8];
    let mut i: usize = 0;
    proof {
        assert(pool_dv.take(0) =~= Seq::<CardView>::empty());
    }
    while i < pool.len()
        invariant
            i <= pool@.len(),
            pool_dv == pool.deep_view(),
            pool_dv.len() == pool@.len(),
            owned == number_set(owned_numbers@),
            forall|k: int|
                0 <= k < 8 ==> #[trigger] totals@[k] == pool_count(
                    pool_dv.take(i as int),
                    Rarity::spec_from_index(k),
                ),
            forall|k: int|
                0 <= k < 8 ==> #[trigger] owneds@[k] == owned_count(
                    pool_dv.take(i as int),
                    Rarity::spec_from_index(k),
                    owned,
                ),
        decreases pool@.len() - i,
    {
        let card = &pool[i];
        let k = card.rarity.index();
        proof {
            crate::rarity::lemma_rarity_index_bijective(card.rarity);
            lemma_count_step(pool_dv, i as int, owned);
            lemma_pool_count_le_len(pool_dv.take(i as int), card.rarity);
            assert(pool_dv.take(i as int).len() == i);
            lemma_owned_le_pool_count(pool_dv.take(i as int), card.rarity, owned);
            assert(pool_dv[i as int] == pool@[i as int].deep_view());
            assert(pool_dv[i as int].rarity == card.rarity);
            assert(pool_dv[i as int].number == card.number as int);
        }
        totals[k] = totals[k] + 1;
        if contains_number(owned_numbers, card.number) {
            owneds[k] = owneds[k] + 1;
        }
        i = i + 1;
    }
    proof {
        assert(pool_dv.take(pool@.len() as int) =~= pool_dv);
    }

    // The owned fraction of each tier present in the pool.
    let mut fracs: [u64; 8] = [0; 8];
    let mut k: usize = 0;
    while k < 8
        invariant
            k <= 8,
            pool_dv == pool.deep_view(),
            owned == number_set(owned_numbers@),
            forall|j: int|
                0 <= j < 8 ==> #[trigger] totals@[j] == pool_count(
                    pool_dv,
                    Rarity::spec_from_index(j),
                ),
            forall|j: int|
                0 <= j < 8 ==> #[trigger] owneds@[j] == owned_count(
                    pool_dv,
                    Rarity::spec_from_index(j),
                    owned,
                ),
            forall|j: int|
                0 <= j < k && totals@[j] > 0 ==> #[trigger] fracs@[j] == owned_fraction_ppm(
                    pool_dv,
                    Rarity::spec_from_index(j),
                    owned,
                ),
            forall|j: int| 0 <= j < 8 ==> #[trigger] fracs@[j] <= RATE_SCALE,
        decreases 8 - k,
    {
        if totals[k] > 0 {
            let ghost rarity = Rarity::spec_from_index(k as int);
            proof {
                lemma_owned_le_pool_count(pool_dv, rarity, owned);
                lemma_fraction_le_scale(pool_dv, rarity, owned);
                assert(owneds@[k as int] <= 0xFFFF_FFFF_FFFF_FFFFu64);
                lemma_mul_upper_bound(
                    owneds@[k as int] as int,
                    0xFFFF_FFFF_FFFF_FFFFu64 as int,
                    RATE_SCALE as int,
                    RATE_SCALE as int,
                );
            }
            let numerator: u128 = (owneds[k] as u128) * (RATE_SCALE as u128);
            let fraction: u128 = numerator / (totals[k] as u128);
            fracs[k] = fraction as u64;
        }
        k = k + 1;
    }

    // The first three slots draw from the lowest tier.
    let dup3: u64 = if totals[0] == 0 {
        0
    } else {
        let f = fracs[0];
        proof {
            lemma_mul_upper_bound(f as int, RATE_SCALE as int, f as int, RATE_SCALE as int);
            lemma_mul_upper_bound(
                (f * f) as int,
                (RATE_SCALE * RATE_SCALE) as int,
                f as int,
                RATE_SCALE as int,
            );
            lemma_scaled_div_le(
                (f * f * f) as int,
                RATE_SCALE as int,
                (RATE_SCALE * RATE_SCALE) as int,
            );
        }
        f * f * f / (RATE_SCALE * RATE_SCALE)
    };
    assert(dup3 == first_slots_dup_ppm(pool_dv, owned));
    assert(0 <= dup3 <= RATE_SCALE);

    // The fourth and fifth slots draw a tier by its offering rate.
    let sum4 = weighted_dup_sum(offering_rates, true, &totals, &fracs, Ghost(pool_dv), Ghost(owned));
    let sum5 = weighted_dup_sum(
        offering_rates,
        false,
        &totals,
        &fracs,
        Ghost(pool_dv),
        Ghost(owned),
    );
    let dup4: u64 = sum4 / RATE_SCALE;
    let dup5: u64 = sum5 / RATE_SCALE;
    proof {
        lemma_scaled_div_le(sum4 as int, RATE_SCALE as int, RATE_SCALE as int);
        lemma_scaled_div_le(sum5 as int, RATE_SCALE as int, RATE_SCALE as int);
    }

    // All five slots must produce duplicates for a pack to yield nothing new.
    proof {
        lemma_mul_upper_bound(dup3 as int, RATE_SCALE as int, dup4 as int, RATE_SCALE as int);
        lemma_mul_upper_bound(
            (dup3 * dup4) as int,
            (RATE_SCALE * RATE_SCALE) as int,
            dup5 as int,
            RATE_SCALE as int,
        );
        lemma_scaled_div_le(
            (dup3 * dup4 * dup5) as int,
            RATE_SCALE as int,
            (RATE_SCALE * RATE_SCALE) as int,
        );
    }
    let duplicate: u64 = dup3 * dup4 * dup5 / (RATE_SCALE * RATE_SCALE);
    Ok(RATE_SCALE - duplicate)
}

/// Estimates the same probability from the complement record: the caller
/// lists the card numbers *not yet owned*, and every other number counts as
/// owned. The engine accepts whichever form the collection data supplies.
pub fn calculate_probability_of_new_card_from_unowned(
    pool: &Vec<Card>,
    offering_rates: &OfferingRates,
    unowned_numbers: &Vec<usize>,
) -> (result: Result<u64, EngineError>)
    ensures
        match result {
            Ok(p) => {
                &&& pool@.len() > 0
                &&& p == new_card_probability_ppm(
                    pool.deep_view(),
                    offering_rates.fourth(),
                    offering_rates.fifth(),
                    number_set(unowned_numbers@).complement(),
                )
                &&& p <= RATE_SCALE
            },
            Err(e) => {
                &&& e matches EngineError::EmptyCardPool
                &&& pool@.len() == 0
            },
        },
{
    let ghost pool_dv = pool.deep_view();
    let ghost unowned = number_set(unowned_numbers@);

    // Materialise the owned numbers of this pool: those not listed unowned.
    let mut owned_numbers: Vec<usize> = Vec::new();
    let mut i: usize = 0;
    while i < pool.len()
        invariant
            i <= pool@.len(),
            pool_dv == pool.deep_view(),
            pool_dv.len() == pool@.len(),
            unowned == number_set(unowned_numbers@),
            forall|x: int| number_set(owned_numbers@).contains(x) ==> !unowned.contains(x),
            forall|j: int|
                0 <= j < i && !unowned.contains(pool_dv[j].number) ==> number_set(
                    owned_numbers@,
                ).contains(#[trigger] pool_dv[j].number),
        decreases pool@.len() - i,
    {
        let card = &pool[i];
        proof {
            assert(pool_dv[i as int] == pool@[i as int].deep_view());
        }
        if !contains_number(unowned_numbers, card.number) {
            let ghost before = owned_numbers@;
            owned_numbers.push(card.number);
            proof {
                assert(number_set(owned_numbers@) =~= number_set(before).insert(
                    card.number as int,
                )) by {
                    assert forall|x: int|
                        number_set(owned_numbers@).contains(x) <==> number_set(before).insert(
                            card.number as int,
                        ).contains(x) by {
                        if number_set(before).contains(x) {
                            let j = choose|j: int|
                                0 <= j < before.len() && before[j] as int == x;
                            assert(owned_numbers@[j] as int == x);
                        }
                        if x == card.number as int {
                            assert(owned_numbers@[before.len() as int] as int == x);
                        }
                        if number_set(owned_numbers@).contains(x) {
                            let j = choose|j: int|
                                0 <= j < owned_numbers@.len() && owned_numbers@[j] as int == x;
                            if j < before.len() {
                                assert(before[j] as int == x);
                            } else {
                                assert(x == card.number as int);
                            }
                        }
                    }
                }
            }
        }
        i = i + 1;
    }

    let result = calculate_probability_of_new_card(pool, offering_rates, &owned_numbers);
    proof {
        if pool_dv.len() > 0 {
            assert forall|j: int| 0 <= j < pool_dv.len() implies (number_set(
                owned_numbers@,
            ).contains(#[trigger] pool_dv[j].number) <==> unowned.complement().contains(
                pool_dv[j].number,
            )) by {
                assert(unowned.complement().contains(pool_dv[j].number) == !unowned.contains(
                    pool_dv[j].number,
                ));
            }
            lemma_probability_membership_congruent(
                pool_dv,
                offering_rates.fourth(),
                offering_rates.fifth(),
                number_set(owned_numbers@),
                unowned.complement(),
            );
        }
    }
    result
}

/// Two ownership records that agree on every card of the pool count the same.
proof fn lemma_owned_count_congruent(
    pool: Seq<CardView>,
    rarity: Rarity,
    owned_a: Set<int>,
    owned_b: Set<int>,
)
    requires
        forall|j: int|
            0 <= j < pool.len() ==> (owned_a.contains(#[trigger] pool[j].number) <==> owned_b.contains(
                pool[j].number,
            )),
    ensures
        owned_count(pool, rarity, owned_a) == owned_count(pool, rarity, owned_b),
    decreases pool.len(),
{
    if pool.len() > 0 {
        assert(pool[pool.len() - 1] == pool.last());
        lemma_owned_count_congruent(pool.drop_last(), rarity, owned_a, owned_b);
    }
}

/// Only membership of the pool's own card numbers matters: two owned sets
/// that agree on every card of the pool give the same probability. In
/// particular, recording an already-owned number again changes nothing.
pub proof fn lemma_probability_membership_congruent(
    pool: Seq<CardView>,
    fourth_rates: Seq<u64>,
    fifth_rates: Seq<u64>,
    owned_a: Set<int>,
    owned_b: Set<int>,
)
    requires
        forall|j: int|
            0 <= j < pool.len() ==> (owned_a.contains(#[trigger] pool[j].number) <==> owned_b.contains(
                pool[j].number,
            )),
    ensures
        new_card_probability_ppm(pool, fourth_rates, fifth_rates, owned_a)
            == new_card_probability_ppm(pool, fourth_rates, fifth_rates, owned_b),
{
    assert forall|rarity: Rarity|
        #[trigger] owned_count(pool, rarity, owned_a) == owned_count(pool, rarity, owned_b) by {
        lemma_owned_count_congruent(pool, rarity, owned_a, owned_b);
    }
    lemma_slot_dup_sum_congruent(pool, fourth_rates, owned_a, owned_b, RARITY_COUNT as int);
    lemma_slot_dup_sum_congruent(pool, fifth_rates, owned_a, owned_b, RARITY_COUNT as int);
}

/// The slot sums of two ownership records that count alike are equal.
proof fn lemma_slot_dup_sum_congruent(
    pool: Seq<CardView>,
    rates: Seq<u64>,
    owned_a: Set<int>,
    owned_b: Set<int>,
    k: int,
)
    requires
        forall|rarity: Rarity|
            #[trigger] owned_count(pool, rarity, owned_a) == owned_count(pool, rarity, owned_b),
    ensures
        slot_dup_sum(pool, rates, owned_a, k) == slot_dup_sum(pool, rates, owned_b, k),
    decreases k,
{
    if k > 0 {
        lemma_slot_dup_sum_congruent(pool, rates, owned_a, owned_b, k - 1);
    }
}

/// The total offering rate a table assigns, among the first `k` rarity
/// tiers, to the tiers the pool actually holds cards of.
pub open spec fn present_rate_sum(pool: Seq<CardView>, rates: Seq<u64>, k: int) -> int
    decreases k,
{
    if k <= 0 {
        0
    } else {
        present_rate_sum(pool, rates, k - 1) + if pool_count(
            pool,
            Rarity::spec_from_index(k - 1),
        ) == 0 {
            0
        } else {
            rates[k - 1] as int
        }
    }
}

/// The slot sums of two rate rows that agree on every tier present in the
/// pool are equal.
proof fn lemma_slot_dup_sum_rates_agree(
    pool: Seq<CardView>,
    rates_a: Seq<u64>,
    rates_b: Seq<u64>,
    owned: Set<int>,
    k: int,
)
    requires
        forall|i: int|
            0 <= i < k && pool_count(pool, #[trigger] Rarity::spec_from_index(i)) > 0
                ==> rates_a[i] == rates_b[i],
    ensures
        slot_dup_sum(pool, rates_a, owned, k) == slot_dup_sum(pool, rates_b, owned, k),
    decreases k,
{
    if k > 0 {
        lemma_slot_dup_sum_rates_agree(pool, rates_a, rates_b, owned, k - 1);
    }
}

/// A rarity tier with no cards in the pool never enters the summations: the
/// probability does not depend on what rate any such tier is offered at.
pub proof fn lemma_absent_rarity_rate_irrelevant(
    pool: Seq<CardView>,
    fourth_a: Seq<u64>,
    fourth_b: Seq<u64>,
    fifth_a: Seq<u64>,
    fifth_b: Seq<u64>,
    owned: Set<int>,
)
    requires
        forall|i: int|
            0 <= i < RARITY_COUNT && pool_count(pool, #[trigger] Rarity::spec_from_index(i)) > 0
                ==> fourth_a[i] == fourth_b[i],
        forall|i: int|
            0 <= i < RARITY_COUNT && pool_count(pool, #[trigger] Rarity::spec_from_index(i)) > 0
                ==> fifth_a[i] == fifth_b[i],
    ensures
        new_card_probability_ppm(pool, fourth_a, fifth_a, owned) == new_card_probability_ppm(
            pool,
            fourth_b,
            fifth_b,
            owned,
        ),
{
    lemma_slot_dup_sum_rates_agree(pool, fourth_a, fourth_b, owned, RARITY_COUNT as int);
    lemma_slot_dup_sum_rates_agree(pool, fifth_a, fifth_b, owned, RARITY_COUNT as int);
}

/// In a pool whose every card is owned, each tier's owned count is its count.
proof fn lemma_all_owned_counts(pool: Seq<CardView>, rarity: Rarity, owned: Set<int>)
    requires
        forall|j: int| 0 <= j < pool.len() ==> owned.contains(#[trigger] pool[j].number),
    ensures
        owned_count(pool, rarity, owned) == pool_count(pool, rarity),
    decreases pool.len(),
{
    if pool.len() > 0 {
        assert(owned.contains(pool[pool.len() - 1].number));
        lemma_all_owned_counts(pool.drop_last(), rarity, owned);
    }
}

/// In a pool whose every card is owned, a present tier's owned fraction is
/// one whole unit.
proof fn lemma_all_owned_fraction(pool: Seq<CardView>, rarity: Rarity, owned: Set<int>)
    requires
        pool_count(pool, rarity) > 0,
        forall|j: int| 0 <= j < pool.len() ==> owned.contains(#[trigger] pool[j].number),
    ensures
        owned_fraction_ppm(pool, rarity, owned) == RATE_SCALE,
{
    lemma_all_owned_counts(pool, rarity, owned);
    let t = pool_count(pool, rarity) as int;
    lemma_div_multiples_vanish(RATE_SCALE as int, t);
    vstd::arithmetic::mul::lemma_mul_is_commutative(t, RATE_SCALE as int);
}

/// In a pool whose every card is owned, a slot's duplicate sum is the whole
/// unit times the offering rate present in the pool.
proof fn lemma_slot_dup_sum_fully_owned(
    pool: Seq<CardView>,
    rates: Seq<u64>,
    owned: Set<int>,
    k: int,
)
    requires
        forall|j: int| 0 <= j < pool.len() ==> owned.contains(#[trigger] pool[j].number),
    ensures
        slot_dup_sum(pool, rates, owned, k) == present_rate_sum(pool, rates, k) * RATE_SCALE,
    decreases k,
{
    if k <= 0 {
        assert(present_rate_sum(pool, rates, k) * RATE_SCALE == 0) by {
            vstd::arithmetic::mul::lemma_mul_basics(RATE_SCALE as int);
        }
    } else {
        lemma_slot_dup_sum_fully_owned(pool, rates, owned, k - 1);
        let rarity = Rarity::spec_from_index(k - 1);
        if pool_count(pool, rarity) > 0 {
            lemma_all_owned_fraction(pool, rarity, owned);
        }
        assert(present_rate_sum(pool, rates, k) * RATE_SCALE == present_rate_sum(pool, rates, k - 1)
            * RATE_SCALE + (if pool_count(pool, rarity) == 0 {
            0int
        } else {
            rates[k - 1] as int
        }) * RATE_SCALE) by {
            vstd::arithmetic::mul::lemma_mul_is_distributive_add_other_way(
                RATE_SCALE as int,
                present_rate_sum(pool, rates, k - 1),
                if pool_count(pool, rarity) == 0 {
                    0int
                } else {
                    rates[k - 1] as int
                },
            );
        }
    }
}

/// A pool of which every card is already owned yields nothing new, provided
/// the lowest tier is present and each rare slot assigns the tiers present in
/// the pool its whole offering mass.
pub proof fn lemma_fully_owned_yields_nothing(
    pool: Seq<CardView>,
    fourth_rates: Seq<u64>,
    fifth_rates: Seq<u64>,
    owned: Set<int>,
)
    requires
        pool_count(pool, Rarity::OneDiamond) > 0,
        forall|j: int| 0 <= j < pool.len() ==> owned.contains(#[trigger] pool[j].number),
        present_rate_sum(pool, fourth_rates, RARITY_COUNT as int) == RATE_SCALE,
        present_rate_sum(pool, fifth_rates, RARITY_COUNT as int) == RATE_SCALE,
    ensures
        new_card_probability_ppm(pool, fourth_rates, fifth_rates, owned) == 0,
{
    lemma_all_owned_fraction(pool, Rarity::OneDiamond, owned);
    lemma_slot_dup_sum_fully_owned(pool, fourth_rates, owned, RARITY_COUNT as int);
    lemma_slot_dup_sum_fully_owned(pool, fifth_rates, owned, RARITY_COUNT as int);
}

/// In a pool none of whose cards is owned, every tier's owned count is zero.
proof fn lemma_none_owned_counts(pool: Seq<CardView>, rarity: Rarity, owned: Set<int>)
    requires
        forall|j: int| 0 <= j < pool.len() ==> !owned.contains(#[trigger] pool[j].number),
    ensures
        owned_count(pool, rarity, owned) == 0,
    decreases pool.len(),
{
    if pool.len() > 0 {
        assert(!owned.contains(pool[pool.len() - 1].number));
        lemma_none_owned_counts(pool.drop_last(), rarity, owned);
    }
}

/// A pool none of whose cards is owned — in particular, any pool against an
/// empty collection — yields something new with certainty, provided the
/// lowest tier is present.
pub proof fn lemma_nothing_owned_certain(
    pool: Seq<CardView>,
    fourth_rates: Seq<u64>,
    fifth_rates: Seq<u64>,
    owned: Set<int>,
)
    requires
        pool_count(pool, Rarity::OneDiamond) > 0,
        forall|j: int| 0 <= j < pool.len() ==> !owned.contains(#[trigger] pool[j].number),
    ensures
        new_card_probability_ppm(pool, fourth_rates, fifth_rates, owned) == RATE_SCALE,
{
    lemma_none_owned_counts(pool, Rarity::OneDiamond, owned);
    let t = pool_count(pool, Rarity::OneDiamond) as int;
    assert(owned_fraction_ppm(pool, Rarity::OneDiamond, owned) == 0) by {
        vstd::arithmetic::div_mod::lemma_div_of0(t);
    }
    let ss = (RATE_SCALE * RATE_SCALE) as int;
    assert(first_slots_dup_ppm(pool, owned) == 0) by {
        vstd::arithmetic::div_mod::lemma_div_of0(ss);
    }
    assert(duplicate_ppm(pool, fourth_rates, fifth_rates, owned) == 0) by {
        vstd::arithmetic::mul::lemma_mul_by_zero_is_zero(
            slot_dup_ppm(pool, fourth_rates, owned),
        );
        vstd::arithmetic::mul::lemma_mul_by_zero_is_zero(slot_dup_ppm(pool, fifth_rates, owned));
        vstd::arithmetic::div_mod::lemma_div_of0(ss);
    }
}

/// A record that owns at most what another owns, card for card, never counts
/// more of any tier.
proof fn lemma_owned_count_monotone(
    pool: Seq<CardView>,
    rarity: Rarity,
    fewer: Set<int>,
    more: Set<int>,
)
    requires
        forall|j: int|
            0 <= j < pool.len() && fewer.contains(#[trigger] pool[j].number) ==> more.contains(
                pool[j].number,
            ),
    ensures
        owned_count(pool, rarity, fewer) <= owned_count(pool, rarity, more),
    decreases pool.len(),
{
    if pool.len() > 0 {
        assert(pool[pool.len() - 1] == pool.last());
        lemma_owned_count_monotone(pool.drop_last(), rarity, fewer, more);
    }
}

/// Owning less never lowers a tier's owned fraction below the larger record's.
proof fn lemma_fraction_monotone(pool: Seq<CardView>, rarity: Rarity, fewer: Set<int>, more: Set<int>)
    requires
        pool_count(pool, rarity) > 0,
        forall|j: int|
            0 <= j < pool.len() && fewer.contains(#[trigger] pool[j].number) ==> more.contains(
                pool[j].number,
            ),
    ensures
        owned_fraction_ppm(pool, rarity, fewer) <= owned_fraction_ppm(pool, rarity, more),
{
    let t = pool_count(pool, rarity) as int;
    lemma_owned_count_monotone(pool, rarity, fewer, more);
    lemma_mul_inequality(
        owned_count(pool, rarity, fewer) as int,
        owned_count(pool, rarity, more) as int,
        RATE_SCALE as int,
    );
    lemma_div_is_ordered(
        owned_count(pool, rarity, fewer) * RATE_SCALE,
        owned_count(pool, rarity, more) * RATE_SCALE,
        t,
    );
}

/// Owning less never lowers a slot's duplicate sum below the larger record's.
proof fn lemma_slot_dup_sum_monotone(
    pool: Seq<CardView>,
    rates: Seq<u64>,
    fewer: Set<int>,
    more: Set<int>,
    k: int,
)
    requires
        forall|j: int|
            0 <= j < pool.len() && fewer.contains(#[trigger] pool[j].number) ==> more.contains(
                pool[j].number,
            ),
    ensures
        slot_dup_sum(pool, rates, fewer, k) <= slot_dup_sum(pool, rates, more, k),
    decreases k,
{
    if k > 0 {
        lemma_slot_dup_sum_monotone(pool, rates, fewer, more, k - 1);
        let rarity = Rarity::spec_from_index(k - 1);
        if pool_count(pool, rarity) > 0 {
            lemma_fraction_monotone(pool, rarity, fewer, more);
            lemma_fraction_le_scale(pool, rarity, fewer);
            lemma_mul_inequality(
                owned_fraction_ppm(pool, rarity, fewer),
                owned_fraction_ppm(pool, rarity, more),
                rates[k - 1] as int,
            );
            vstd::arithmetic::mul::lemma_mul_is_commutative(
                rates[k - 1] as int,
                owned_fraction_ppm(pool, rarity, fewer),
            );
            vstd::arithmetic::mul::lemma_mul_is_commutative(
                rates[k - 1] as int,
                owned_fraction_ppm(pool, rarity, more),
            );
        }
    }
}

/// Removing card numbers from the owned record never lowers the probability
/// of drawing something new: the fewer cards owned, the better the odds.
pub proof fn lemma_probability_antitone_in_owned(
    pool: Seq<CardView>,
    fourth_rates: Seq<u64>,
    fifth_rates: Seq<u64>,
    fewer: Set<int>,
    more: Set<int>,
)
    requires
        forall|j: int|
            0 <= j < pool.len() && fewer.contains(#[trigger] pool[j].number) ==> more.contains(
                pool[j].number,
            ),
    ensures
        new_card_probability_ppm(pool, fourth_rates, fifth_rates, fewer)
            >= new_card_probability_ppm(pool, fourth_rates, fifth_rates, more),
{
    let s = RATE_SCALE as int;
    let d3_f = first_slots_dup_ppm(pool, fewer);
    let d3_m = first_slots_dup_ppm(pool, more);
    assert(0 <= d3_f <= d3_m) by {
        if pool_count(pool, Rarity::OneDiamond) > 0 {
            lemma_fraction_monotone(pool, Rarity::OneDiamond, fewer, more);
            lemma_fraction_le_scale(pool, Rarity::OneDiamond, fewer);
            lemma_fraction_le_scale(pool, Rarity::OneDiamond, more);
            let ff = owned_fraction_ppm(pool, Rarity::OneDiamond, fewer);
            let fm = owned_fraction_ppm(pool, Rarity::OneDiamond, more);
            assert(0 <= ff * ff * ff <= fm * fm * fm) by (nonlinear_arith)
                requires
                    0 <= ff <= fm,
            ;
            lemma_div_is_ordered(ff * ff * ff, fm * fm * fm, s * s);
            lemma_div_pos_is_pos(ff * ff * ff, s * s);
        }
    }
    let d4_f = slot_dup_ppm(pool, fourth_rates, fewer);
    let d4_m = slot_dup_ppm(pool, fourth_rates, more);
    let d5_f = slot_dup_ppm(pool, fifth_rates, fewer);
    let d5_m = slot_dup_ppm(pool, fifth_rates, more);
    assert(0 <= d4_f <= d4_m) by {
        lemma_slot_dup_sum_monotone(pool, fourth_rates, fewer, more, RARITY_COUNT as int);
        lemma_slot_dup_sum_bounds(pool, fourth_rates, fewer, RARITY_COUNT as int);
        lemma_div_is_ordered(
            slot_dup_sum(pool, fourth_rates, fewer, RARITY_COUNT as int),
            slot_dup_sum(pool, fourth_rates, more, RARITY_COUNT as int),
            s,
        );
        lemma_div_pos_is_pos(slot_dup_sum(pool, fourth_rates, fewer, RARITY_COUNT as int), s);
    }
    assert(0 <= d5_f <= d5_m) by {
        lemma_slot_dup_sum_monotone(pool, fifth_rates, fewer, more, RARITY_COUNT as int);
        lemma_slot_dup_sum_bounds(pool, fifth_rates, fewer, RARITY_COUNT as int);
        lemma_div_is_ordered(
            slot_dup_sum(pool, fifth_rates, fewer, RARITY_COUNT as int),
            slot_dup_sum(pool, fifth_rates, more, RARITY_COUNT as int),
            s,
        );
        lemma_div_pos_is_pos(slot_dup_sum(pool, fifth_rates, fewer, RARITY_COUNT as int), s);
    }
    assert(0 <= d3_f * d4_f * d5_f <= d3_m * d4_m * d5_m) by (nonlinear_arith)
        requires
            0 <= d3_f <= d3_m,
            0 <= d4_f <= d4_m,
            0 <= d5_f <= d5_m,
    ;
    lemma_div_is_ordered(d3_f * d4_f * d5_f, d3_m * d4_m * d5_m, s * s);
}

/// One rare slot's duplicate probability mass: the sum, over the rarity
/// tiers present in the pool, of the slot's offering rate times the tier's
/// owned fraction.
fn weighted_dup_sum(
    offering_rates: &OfferingRates,
    fourth: bool,
    totals: &[usize; 8],
    fracs: &[u64; 8],
    Ghost(pool_dv): Ghost<Seq<CardView>>,
    Ghost(owned): Ghost<Set<int>>,
) -> (sum: u64)
    requires
        forall|j: int|
            0 <= j < 8 ==> #[trigger] totals@[j] == pool_count(
                pool_dv,
                Rarity::spec_from_index(j),
            ),
        forall|j: int|
            0 <= j < 8 && totals@[j] > 0 ==> #[trigger] fracs@[j] == owned_fraction_ppm(
                pool_dv,
                Rarity::spec_from_index(j),
                owned,
            ),
        forall|j: int| 0 <= j < 8 ==> #[trigger] fracs@[j] <= RATE_SCALE,
    ensures
        fourth ==> sum == slot_dup_sum(pool_dv, offering_rates.fourth(), owned, RARITY_COUNT as int),
        !fourth ==> sum == slot_dup_sum(pool_dv, offering_rates.fifth(), owned, RARITY_COUNT as int),
        sum <= RATE_SCALE * RATE_SCALE,
{
    proof {
        use_type_invariant(offering_rates);
        offering_rates.lemma_well_formed();
    }
    let ghost rates = if fourth {
        offering_rates.fourth()
    } else {
        offering_rates.fifth()
    };
    let mut sum: u64 = 0;
    let mut k: usize = 0;
    while k < 8
        invariant
            k <= 8,
            rates == if fourth {
                offering_rates.fourth()
            } else {
                offering_rates.fifth()
            },
            rates.len() == 8,
            rate_sum(rates, RARITY_COUNT as int) <= RATE_SCALE,
            forall|j: int|
                0 <= j < 8 ==> #[trigger] totals@[j] == pool_count(
                    pool_dv,
                    Rarity::spec_from_index(j),
                ),
            forall|j: int|
                0 <= j < 8 && totals@[j] > 0 ==> #[trigger] fracs@[j] == owned_fraction_ppm(
                    pool_dv,
                    Rarity::spec_from_index(j),
                    owned,
                ),
            forall|j: int| 0 <= j < 8 ==> #[trigger] fracs@[j] <= RATE_SCALE,
            sum == slot_dup_sum(pool_dv, rates, owned, k as int),
            sum <= rate_sum(rates, k as int) * RATE_SCALE,
        decreases 8 - k,
    {
        let rarity = Rarity::from_index(k);
        proof {
            crate::offering_rates::lemma_rate_sum_nonnegative(rates, k as int);
            crate::offering_rates::lemma_rate_sum_nondecreasing(
                rates,
                k as int + 1,
                RARITY_COUNT as int,
            );
            lemma_slot_dup_sum_bounds(pool_dv, rates, owned, k as int + 1);
            assert(rate_sum(rates, k as int + 1) * RATE_SCALE <= RATE_SCALE * RATE_SCALE) by {
                lemma_mul_inequality(
                    rate_sum(rates, k as int + 1),
                    RATE_SCALE as int,
                    RATE_SCALE as int,
                );
            }
        }
        if totals[k] > 0 {
            let rate = if fourth {
                offering_rates.fourth_card_offering_rate(&rarity)
            } else {
                offering_rates.fifth_card_offering_rate(&rarity)
            };
            proof {
                lemma_mul_upper_bound(
                    rate as int,
                    RATE_SCALE as int,
                    fracs@[k as int] as int,
                    RATE_SCALE as int,
                );
                lemma_slot_dup_sum_bounds(pool_dv, rates, owned, k as int);
            }
            sum = sum + rate * fracs[k];
        }
        k = k + 1;
    }
    proof {
        lemma_mul_inequality(rate_sum(rates, 8), RATE_SCALE as int, RATE_SCALE as int);
    }
    sum
}

} // verus!
