//! Per-rarity offering rates for the two rare draw slots of a pack.
//!
//! A rate is the probability, in parts per million, that a draw slot offers a
//! given rarity tier. A table keeps one rate per tier and slot; a tier absent
//! from the configuration simply keeps rate zero. The rates of one slot may
//! sum to less than the whole probability mass, never to more.

use vstd::prelude::*;

use crate::errors::EngineError;
use crate::rarity::{Rarity, RARITY_COUNT};

verus! {

/// One whole unit of probability, in parts per million.
pub const RATE_SCALE: u64 = 1_000_000;

/// The sum of the rates at positions `0 .. k` of a per-tier rate row.
pub open spec fn rate_sum(rates: Seq<u64>, k: int) -> int
    decreases k,
{
    if k <= 0 {
        0
    } else {
        rate_sum(rates, k - 1) + rates[k - 1]
    }
}

/// The rate row that a list of (tier, rate) entries configures: every tier
/// starts at zero and a later entry for a tier replaces an earlier one.
pub open spec fn configured_rates(entries: Seq<(Rarity, u64)>) -> Seq<u64>
    decreases entries.len(),
{
    if entries.len() == 0 {
        Seq::new(RARITY_COUNT as nat, |i: int| 0u64)
    } else {
        let last = entries.last();
        configured_rates(entries.drop_last()).update(last.0.spec_index(), last.1)
    }
}

/// The offering rates an expansion draws with: for each rarity tier, the
/// probability (in parts per million) that the fourth or the fifth card
/// slot of a pack offers that tier.
pub struct OfferingRates {
    fourth_card: [u64; 8],
    fifth_card: [u64; 8],
}

impl OfferingRates {
    /// The rates of the fourth-card slot, indexed by rarity tier.
    pub closed spec fn fourth(self) -> Seq<u64> {
        self.fourth_card@
    }

    /// The rates of the fifth-card slot, indexed by rarity tier.
    pub closed spec fn fifth(self) -> Seq<u64> {
        self.fifth_card@
    }

    /// Each slot's rates are one per tier and sum to at most the whole mass.
    #[verifier::type_invariant]
    pub closed spec fn well_formed(self) -> bool {
        &&& self.fourth_card@.len() == RARITY_COUNT
        &&& self.fifth_card@.len() == RARITY_COUNT
        &&& rate_sum(self.fourth_card@, RARITY_COUNT as int) <= RATE_SCALE
        &&& rate_sum(self.fifth_card@, RARITY_COUNT as int) <= RATE_SCALE
    }

    /// What well-formedness gives: the slot rates are one per tier and sum
    /// to at most the whole mass.
    pub proof fn lemma_well_formed(self)
        requires
            self.well_formed(),
        ensures
            self.fourth().len() == RARITY_COUNT,
            self.fifth().len() == RARITY_COUNT,
            rate_sum(self.fourth(), RARITY_COUNT as int) <= RATE_SCALE,
            rate_sum(self.fifth(), RARITY_COUNT as int) <= RATE_SCALE,
    {
    }

    /// Builds a table from the configured (tier, rate) entries of each slot.
    /// A slot whose configured rates sum to more than the whole probability
    /// mass is rejected: such a table would not describe a draw.
    pub fn new(fourth: &Vec<(Rarity, u64)>, fifth: &Vec<(Rarity, u64)>) -> (result: Result<
        OfferingRates,
        EngineError,
    >)
        ensures
            match result {
                Ok(table) => {
                    &&& table.fourth() == configured_rates(fourth@)
                    &&& table.fifth() == configured_rates(fifth@)
                    &&& rate_sum(configured_rates(fourth@), RARITY_COUNT as int) <= RATE_SCALE
                    &&& rate_sum(configured_rates(fifth@), RARITY_COUNT as int) <= RATE_SCALE
                },
                Err(e) => {
                    &&& e matches EngineError::RateMassTooLarge
                    &&& (rate_sum(configured_rates(fourth@), RARITY_COUNT as int) > RATE_SCALE
                        || rate_sum(configured_rates(fifth@), RARITY_COUNT as int) > RATE_SCALE)
                },
            },
    {
        let fourth_row = collect_rate_row(fourth);
        let fifth_row = collect_rate_row(fifth);
        if !rate_row_fits(&fourth_row) || !rate_row_fits(&fifth_row) {
            return Err(EngineError::RateMassTooLarge);
        }
        Ok(OfferingRates { fourth_card: fourth_row, fifth_card: fifth_row })
    }

    /// The probability, in parts per million, that the fourth card slot
    /// offers the given rarity tier.
    pub fn fourth_card_offering_rate(&self, rarity: &Rarity) -> (rate: u64)
        ensures
            rate == self.fourth()[rarity.spec_index()],
            rate <= RATE_SCALE,
    {
        proof {
            use_type_invariant(self);
            lemma_rate_sum_bounds_entry(self.fourth_card@, rarity.spec_index());
        }
        self.fourth_card[rarity.index()]
    }

    /// The probability, in parts per million, that the fifth card slot
    /// offers the given rarity tier.
    pub fn fifth_card_offering_rate(&self, rarity: &Rarity) -> (rate: u64)
        ensures
            rate == self.fifth()[rarity.spec_index()],
            rate <= RATE_SCALE,
    {
        proof {
            use_type_invariant(self);
            lemma_rate_sum_bounds_entry(self.fifth_card@, rarity.spec_index());
        }
        self.fifth_card[rarity.index()]
    }
}

impl Rarity {
    /// The game's base rate, in parts per million, at which the fourth card
    /// slot offers this tier.
    pub open spec fn spec_fourth_card_offering_rate(self) -> u64 {
        match self {
            Rarity::OneDiamond => 0,
            Rarity::TwoDiamonds => 900_000,
            Rarity::ThreeDiamonds => 50_000,
            Rarity::FourDiamonds => 16_660,
            Rarity::OneStar => 25_720,
            Rarity::TwoStars => 5_000,
            Rarity::ThreeStars => 2_220,
            Rarity::Crown => 400,
        }
    }

    /// The game's base rate, in parts per million, at which the fifth card
    /// slot offers this tier.
    pub open spec fn spec_fifth_card_offering_rate(self) -> u64 {
        match self {
            Rarity::OneDiamond => 0,
            Rarity::TwoDiamonds => 600_000,
            Rarity::ThreeDiamonds => 200_000,
            Rarity::FourDiamonds => 66_640,
            Rarity::OneStar => 102_880,
            Rarity::TwoStars => 20_000,
            Rarity::ThreeStars => 8_880,
            Rarity::Crown => 1_600,
        }
    }

    /// The game's base rate, in parts per million, at which the fourth card
    /// slot offers this tier.
    pub fn fourth_card_offering_rate(&self) -> (rate: u64)
        ensures
            rate == self.spec_fourth_card_offering_rate(),
            rate <= RATE_SCALE,
    {
        match self {
            Rarity::OneDiamond => 0,
            Rarity::TwoDiamonds => 900_000,
            Rarity::ThreeDiamonds => 50_000,
            Rarity::FourDiamonds => 16_660,
            Rarity::OneStar => 25_720,
            Rarity::TwoStars => 5_000,
            Rarity::ThreeStars => 2_220,
            Rarity::Crown => 400,
        }
    }

    /// The game's base rate, in parts per million, at which the fifth card
    /// slot offers this tier.
    pub fn fifth_card_offering_rate(&self) -> (rate: u64)
        ensures
            rate == self.spec_fifth_card_offering_rate(),
            rate <= RATE_SCALE,
    {
        match self {
            Rarity::OneDiamond => 0,
            Rarity::TwoDiamonds => 600_000,
            Rarity::ThreeDiamonds => 200_000,
            Rarity::FourDiamonds => 66_640,
            Rarity::OneStar => 102_880,
            Rarity::TwoStars => 20_000,
            Rarity::ThreeStars => 8_880,
            Rarity::Crown => 1_600,
        }
    }
}

/// Folds configured (tier, rate) entries into one rate per tier.
fn collect_rate_row(entries: &Vec<(Rarity, u64)>) -> (row: [u64; 8])
    ensures
        row@ == configured_rates(entries@),
{
    let mut row: [u64; 8] = [0u64; 8];
    proof {
        assert(row@ =~= configured_rates(Seq::<(Rarity, u64)>::empty()));
        assert(entries@.take(0) =~= Seq::<(Rarity, u64)>::empty());
    }
    let mut i: usize = 0;
    while i < entries.len()
        invariant
            i <= entries@.len(),
            row@.len() == RARITY_COUNT,
            row@ == configured_rates(entries@.take(i as int)),
        decreases entries@.len() - i,
    {
        let (rarity, rate) = entries[i];
        row[rarity.index()] = rate;
        proof {
            assert(entries@.take(i + 1).drop_last() =~= entries@.take(i as int));
            assert(row@ =~= configured_rates(entries@.take(i + 1)));
        }
        i = i + 1;
    }
    proof {
        assert(entries@.take(entries@.len() as int) =~= entries@);
    }
    row
}

/// Whether a rate row's total mass stays within one whole unit.
fn rate_row_fits(row: &[u64; 8]) -> (fits: bool)
    ensures
        fits == (rate_sum(row@, RARITY_COUNT as int) <= RATE_SCALE),
{
    let mut total: u64 = 0;
    let mut k: usize = 0;
    while k < 8
        invariant
            k <= 8,
            total == rate_sum(row@, k as int),
            total <= RATE_SCALE,
        decreases 8 - k,
    {
        let rate = row[k];
        if rate > RATE_SCALE - total {
            proof {
                lemma_rate_sum_nondecreasing(row@, k + 1, RARITY_COUNT as int);
            }
            return false;
        }
        total = total + rate;
        k = k + 1;
    }
    true
}

/// A prefix sum of rates never exceeds a longer one.
pub proof fn lemma_rate_sum_nondecreasing(rates: Seq<u64>, j: int, k: int)
    requires
        j <= k,
    ensures
        rate_sum(rates, j) <= rate_sum(rates, k),
    decreases k - j,
{
    if j < k {
        lemma_rate_sum_nondecreasing(rates, j, k - 1);
    }
}

/// A sum of rates is never negative.
pub proof fn lemma_rate_sum_nonnegative(rates: Seq<u64>, k: int)
    ensures
        rate_sum(rates, k) >= 0,
    decreases k,
{
    if k > 0 {
        lemma_rate_sum_nonnegative(rates, k - 1);
    }
}

/// Each rate is at most the sum of the whole row.
pub proof fn lemma_rate_sum_bounds_entry(rates: Seq<u64>, i: int)
    requires
        0 <= i < RARITY_COUNT,
    ensures
        rates[i] <= rate_sum(rates, RARITY_COUNT as int),
{
    lemma_rate_sum_nonnegative(rates, i);
    lemma_rate_sum_nondecreasing(rates, i + 1, RARITY_COUNT as int);
}

} // verus!
