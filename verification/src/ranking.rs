//! Ranking packs by the probability of drawing something new.
//!
//! For each expansion the collection records, every pack of the expansion
//! (or the whole expansion when it has no sub-packs) is scored with the
//! calculator, and the scored packs are listed in descending order of
//! probability.

use vstd::prelude::*;

use crate::calculator::{calculate_probability_of_new_card, new_card_probability_ppm};
use crate::card::CardView;
use crate::collection::{number_set, Collection};
use crate::errors::EngineError;
use crate::expansion::{pack_pool, Expansion};
use crate::offering_rates::OfferingRates;
use crate::text::str_eq;

verus! {

/// One scored pack: which expansion, which pack of it (none when the whole
/// expansion is its one implicit pack), and the probability, in parts per
/// million, that opening it yields a new card.
pub struct PackRanking {
    /// The display name of the expansion the pack belongs to.
    pub expansion_name: String,
    /// The pack's name, or nothing for an expansion without sub-packs.
    pub pack_name: Option<String>,
    /// The probability of drawing at least one new card, in parts per million.
    pub probability_ppm: u64,
}

/// What one scored pack is, mathematically.
pub ghost struct PackRankingView {
    /// The display name of the expansion the pack belongs to.
    pub expansion_name: Seq<char>,
    /// The pack's name, or nothing for an expansion without sub-packs.
    pub pack_name: Option<Seq<char>>,
    /// The probability of drawing at least one new card, in parts per million.
    pub probability_ppm: int,
}

impl View for PackRanking {
    type V = PackRankingView;

    open spec fn view(&self) -> PackRankingView {
        PackRankingView {
            expansion_name: self.expansion_name@,
            pack_name: match self.pack_name {
                Some(name) => Some(name@),
                None => None,
            },
            probability_ppm: self.probability_ppm as int,
        }
    }
}

impl DeepView for PackRanking {
    type V = PackRankingView;

    open spec fn deep_view(&self) -> PackRankingView {
        self.view()
    }
}

/// What ranking every recorded expansion's packs comes to: the scored packs,
/// or the first failure.
pub ghost enum RankOutcome {
    /// Every considered pool was scored.
    Ranked(Seq<PackRankingView>),
    /// An expansion references an offering-rate table name with no match.
    UnresolvedTable(Seq<char>),
    /// A considered pool held no cards.
    EmptyPool,
}

/// The position of the first table with the given name, if any.
pub open spec fn table_index_for(tables: Seq<(String, OfferingRates)>, name: Seq<char>) -> Option<
    int,
> {
    if exists|j: int| 0 <= j < tables.len() && tables[j].0@ == name {
        Some(
            choose|j: int|
                #![auto]
                0 <= j < tables.len() && tables[j].0@ == name && forall|k: int|
                    0 <= k < j ==> tables[k].0@ != name,
        )
    } else {
        None
    }
}

/// The score of one pool: the expansion's name, the pack drawn from, and the
/// calculator's probability for the pool.
pub open spec fn scored(
    expansion_name: Seq<char>,
    pack_name: Option<Seq<char>>,
    pool: Seq<CardView>,
    rates: OfferingRates,
    owned: Seq<usize>,
) -> PackRankingView {
    PackRankingView {
        expansion_name,
        pack_name,
        probability_ppm: new_card_probability_ppm(
            pool,
            rates.fourth(),
            rates.fifth(),
            number_set(owned),
        ),
    }
}

/// The scores of an expansion's first `k` packs, or nothing if one of those
/// packs' pools holds no cards.
pub open spec fn pack_scores(e: Expansion, rates: OfferingRates, owned: Seq<usize>, k: int) -> Option<
    Seq<PackRankingView>,
>
    decreases k,
{
    if k <= 0 {
        Some(Seq::empty())
    } else {
        match pack_scores(e, rates, owned, k - 1) {
            None => None,
            Some(scores) => {
                let pool = pack_pool(e.cards.deep_view(), e.packs@[k - 1]@);
                if pool.len() == 0 {
                    None
                } else {
                    Some(
                        scores.push(scored(e.name@, Some(e.packs@[k - 1]@), pool, rates, owned)),
                    )
                }
            },
        }
    }
}

/// The scores one expansion contributes: one per pack, or one for the whole
/// expansion when it has no sub-packs; nothing if a considered pool is empty.
pub open spec fn expansion_scores(e: Expansion, rates: OfferingRates, owned: Seq<usize>) -> Option<
    Seq<PackRankingView>,
> {
    if e.packs@.len() == 0 {
        if e.cards@.len() == 0 {
            None
        } else {
            Some(seq![scored(e.name@, None, e.cards.deep_view(), rates, owned)])
        }
    } else {
        pack_scores(e, rates, owned, e.packs@.len() as int)
    }
}

/// What ranking the first `i` expansions comes to: an expansion the
/// collection does not record is skipped; a missing offering-rate table or an
/// empty pool stops the run with that failure.
pub open spec fn rank_outcome_upto(
    expansions: Seq<Expansion>,
    tables: Seq<(String, OfferingRates)>,
    collection: Collection,
    i: int,
) -> RankOutcome
    decreases i,
{
    if i <= 0 {
        RankOutcome::Ranked(Seq::empty())
    } else {
        match rank_outcome_upto(expansions, tables, collection, i - 1) {
            RankOutcome::Ranked(scores) => {
                let e = expansions[i - 1];
                match collection.spec_entry_index_for(e.id@) {
                    None => RankOutcome::Ranked(scores),
                    Some(ci) => {
                        let owned = collection.entries()[ci].card_numbers@;
                        match table_index_for(tables, e.offering_rate_table@) {
                            None => RankOutcome::UnresolvedTable(e.offering_rate_table@),
                            Some(ti) => match expansion_scores(e, tables[ti].1, owned) {
                                None => RankOutcome::EmptyPool,
                                Some(more) => RankOutcome::Ranked(scores + more),
                            },
                        }
                    },
                }
            },
            failure => failure,
        }
    }
}

/// What ranking all the expansions comes to.
pub open spec fn rank_outcome(
    expansions: Seq<Expansion>,
    tables: Seq<(String, OfferingRates)>,
    collection: Collection,
) -> RankOutcome {
    rank_outcome_upto(expansions, tables, collection, expansions.len() as int)
}

/// Whether the scores are in non-increasing order of probability.
pub open spec fn sorted_descending(scores: Seq<PackRankingView>) -> bool {
    forall|i: int, j: int|
        0 <= i < j < scores.len() ==> scores[i].probability_ppm >= scores[j].probability_ppm
}

/// A failed ranking stays failed however many further expansions follow.
proof fn lemma_rank_failure_persists(
    expansions: Seq<Expansion>,
    tables: Seq<(String, OfferingRates)>,
    collection: Collection,
    i: int,
    j: int,
)
    requires
        0 <= i <= j,
        !(rank_outcome_upto(expansions, tables, collection, i) matches RankOutcome::Ranked(_)),
    ensures
        rank_outcome_upto(expansions, tables, collection, j) == rank_outcome_upto(
            expansions,
            tables,
            collection,
            i,
        ),
    decreases j - i,
{
    if i < j {
        lemma_rank_failure_persists(expansions, tables, collection, i, j - 1);
    }
}

/// An expansion that failed on one pack's pool fails however many further
/// packs follow.
proof fn lemma_pack_scores_none_persists(
    e: Expansion,
    rates: OfferingRates,
    owned: Seq<usize>,
    k: int,
    j: int,
)
    requires
        0 <= k <= j,
        pack_scores(e, rates, owned, k) is None,
    ensures
        pack_scores(e, rates, owned, j) is None,
    decreases j - k,
{
    if k < j {
        lemma_pack_scores_none_persists(e, rates, owned, k, j - 1);
    }
}

/// Scores every pack of every expansion the collection records, and ranks
/// them in descending order of the probability that opening the pack yields
/// a new card. An expansion the collection does not record is skipped; an
/// expansion whose offering-rate table is not among the loaded tables, or
/// whose considered pool holds no cards, stops the run with that failure.
#[verifier::rlimit(100)]
pub fn rank_new_card_probabilities(
    expansions: &Vec<Expansion>,
    tables: &Vec<(String, OfferingRates)>,
    collection: &Collection,
) -> (result: Result<Vec<PackRanking>, EngineError>)
    ensures
        match result {
            Ok(rankings) => {
                &&& rank_outcome(expansions@, tables@, *collection) matches RankOutcome::Ranked(
                    scores,
                )
                &&& (rank_outcome(expansions@, tables@, *collection) matches RankOutcome::Ranked(
                    scores,
                ) ==> rankings.deep_view().to_multiset() == scores.to_multiset())
                &&& sorted_descending(rankings.deep_view())
            },
            Err(e) => match rank_outcome(expansions@, tables@, *collection) {
                RankOutcome::Ranked(_) => false,
                RankOutcome::UnresolvedTable(name) => e matches EngineError::UnresolvedOfferingTable {
                    table_name,
                } && table_name@ == name,
                RankOutcome::EmptyPool => e matches EngineError::EmptyCardPool,
            },
        },
{
    let ghost exps = expansions@;
    let mut acc: Vec<PackRanking> = Vec::new();
    let mut i: usize = 0;
    proof {
        assert(acc.deep_view() =~= Seq::<PackRankingView>::empty());
    }
    while i < expansions.len()
        invariant
            i <= exps.len(),
            exps == expansions@,
            rank_outcome_upto(exps, tables@, *collection, i as int) == RankOutcome::Ranked(
                acc.deep_view(),
            ),
        decreases exps.len() - i,
    {
        let e = &expansions[i];
        let ghost scores_so_far = acc.deep_view();
        match collection.numbers_for(e.id.as_str()) {
            None => {
                proof {
                    assert(rank_outcome_upto(exps, tables@, *collection, i + 1)
                        == RankOutcome::Ranked(scores_so_far));
                }
            },
            Some(owned_numbers) => {
                match find_table(tables, e.offering_rate_table.as_str()) {
                    None => {
                        proof {
                            assert(rank_outcome_upto(exps, tables@, *collection, i + 1)
                                == RankOutcome::UnresolvedTable(e.offering_rate_table@));
                            lemma_rank_failure_persists(
                                exps,
                                tables@,
                                *collection,
                                i + 1,
                                exps.len() as int,
                            );
                        }
                        return Err(
                            EngineError::UnresolvedOfferingTable {
                                table_name: e.offering_rate_table.clone(),
                            },
                        );
                    },
                    Some(rates) => {
                        if e.packs.len() == 0 {
                            let pool = e.cards_in(None);
                            proof {
                                assert(pool.deep_view().len() == pool@.len());
                                assert(e.cards.deep_view().len() == e.cards@.len());
                            }
                            match calculate_probability_of_new_card(&pool, rates, owned_numbers) {
                                Err(_) => {
                                    proof {
                                        assert(expansion_scores(*e, *rates, owned_numbers@)
                                            is None);
                                        assert(rank_outcome_upto(exps, tables@, *collection, i + 1)
                                            == RankOutcome::EmptyPool);
                                        lemma_rank_failure_persists(
                                            exps,
                                            tables@,
                                            *collection,
                                            i + 1,
                                            exps.len() as int,
                                        );
                                    }
                                    return Err(EngineError::EmptyCardPool);
                                },
                                Ok(probability) => {
                                    acc.push(
                                        PackRanking {
                                            expansion_name: e.name.clone(),
                                            pack_name: None,
                                            probability_ppm: probability,
                                        },
                                    );
                                    proof {
                                        let one = scored(
                                            e.name@,
                                            None,
                                            e.cards.deep_view(),
                                            *rates,
                                            owned_numbers@,
                                        );
                                        assert(acc.deep_view() =~= scores_so_far.push(one));
                                        assert(expansion_scores(*e, *rates, owned_numbers@)
                                            == Some(seq![one]));
                                        assert(scores_so_far + seq![one] =~= scores_so_far.push(
                                            one,
                                        ));
                                        assert(rank_outcome_upto(exps, tables@, *collection, i + 1)
                                            == RankOutcome::Ranked(acc.deep_view()));
                                    }
                                },
                            }
                        } else {
                            let mut k: usize = 0;
                            while k < e.packs.len()
                                invariant
                                    k <= e.packs@.len(),
                                    exps == expansions@,
                                    i < exps.len(),
                                    e == &expansions@[i as int],
                                    rank_outcome_upto(exps, tables@, *collection, i as int)
                                        == RankOutcome::Ranked(scores_so_far),
                                    collection.spec_entry_index_for(e.id@) matches Some(ci)
                                        && collection.entries()[ci].card_numbers@
                                        == owned_numbers@,
                                    table_index_for(tables@, e.offering_rate_table@) matches Some(
                                        ti,
                                    ) && tables@[ti].1 == *rates,
                                    pack_scores(*e, *rates, owned_numbers@, k as int) matches Some(
                                        partial,
                                    ) && acc.deep_view() == scores_so_far + partial,
                                decreases e.packs@.len() - k,
                            {
                                let pool = e.cards_in(Some(e.packs[k].as_str()));
                                proof {
                                    assert(pool.deep_view().len() == pool@.len());
                                }
                                match calculate_probability_of_new_card(
                                    &pool,
                                    rates,
                                    owned_numbers,
                                ) {
                                    Err(_) => {
                                        proof {
                                            assert(pack_scores(
                                                *e,
                                                *rates,
                                                owned_numbers@,
                                                k as int + 1,
                                            ) is None);
                                            lemma_pack_scores_none_persists(
                                                *e,
                                                *rates,
                                                owned_numbers@,
                                                k as int + 1,
                                                e.packs@.len() as int,
                                            );
                                            assert(expansion_scores(*e, *rates, owned_numbers@)
                                                is None);
                                            assert(rank_outcome_upto(
                                                exps,
                                                tables@,
                                                *collection,
                                                i + 1,
                                            ) == RankOutcome::EmptyPool);
                                            lemma_rank_failure_persists(
                                                exps,
                                                tables@,
                                                *collection,
                                                i + 1,
                                                exps.len() as int,
                                            );
                                        }
                                        return Err(EngineError::EmptyCardPool);
                                    },
                                    Ok(probability) => {
                                        let ghost before = acc.deep_view();
                                        acc.push(
                                            PackRanking {
                                                expansion_name: e.name.clone(),
                                                pack_name: Some(e.packs[k].clone()),
                                                probability_ppm: probability,
                                            },
                                        );
                                        proof {
                                            let one = scored(
                                                e.name@,
                                                Some(e.packs@[k as int]@),
                                                pack_pool(e.cards.deep_view(), e.packs@[k as int]@),
                                                *rates,
                                                owned_numbers@,
                                            );
                                            assert(acc.deep_view() =~= before.push(one));
                                            let partial = pack_scores(
                                                *e,
                                                *rates,
                                                owned_numbers@,
                                                k as int,
                                            )->Some_0;
                                            assert(pack_scores(
                                                *e,
                                                *rates,
                                                owned_numbers@,
                                                k as int + 1,
                                            ) == Some(partial.push(one)));
                                            assert(scores_so_far + partial.push(one)
                                                =~= (scores_so_far + partial).push(one));
                                        }
                                    },
                                }
                                k = k + 1;
                            }
                            proof {
                                let partial = pack_scores(
                                    *e,
                                    *rates,
                                    owned_numbers@,
                                    e.packs@.len() as int,
                                )->Some_0;
                                assert(expansion_scores(*e, *rates, owned_numbers@) == Some(
                                    partial,
                                ));
                                assert(rank_outcome_upto(exps, tables@, *collection, i + 1)
                                    == RankOutcome::Ranked(acc.deep_view()));
                            }
                        }
                    },
                }
            },
        }
        i = i + 1;
    }
    proof {
        assert(rank_outcome(exps, tables@, *collection) == RankOutcome::Ranked(acc.deep_view()));
    }
    let rankings = sort_rankings(acc);
    Ok(rankings)
}

/// The first table with the given name, if any.
pub fn find_table<'a>(tables: &'a Vec<(String, OfferingRates)>, name: &str) -> (found: Option<
    &'a OfferingRates,
>)
    ensures
        match found {
            Some(rates) => {
                &&& table_index_for(tables@, name@) matches Some(j)
                &&& (table_index_for(tables@, name@) matches Some(j) ==> *rates == tables@[j].1)
            },
            None => table_index_for(tables@, name@) is None,
        },
{
    let mut j: usize = 0;
    while j < tables.len()
        invariant
            j <= tables@.len(),
            forall|k: int| 0 <= k < j ==> #[trigger] tables@[k].0@ != name@,
        decreases tables@.len() - j,
    {
        if str_eq(tables[j].0.as_str(), name) {
            return Some(&tables[j].1);
        }
        j = j + 1;
    }
    None
}

/// Reorders scored packs into non-increasing order of probability. The same
/// scores come out as went in, ranked best first.
pub fn sort_rankings(rankings: Vec<PackRanking>) -> (sorted: Vec<PackRanking>)
    ensures
        sorted.deep_view().to_multiset() == rankings.deep_view().to_multiset(),
        sorted_descending(sorted.deep_view()),
{
    broadcast use vstd::seq_lib::group_to_multiset_ensures;

    let ghost unsorted = rankings.deep_view();
    let mut remaining = rankings;
    let mut sorted: Vec<PackRanking> = Vec::new();
    while remaining.len() > 0
        invariant
            sorted.deep_view().to_multiset().add(remaining.deep_view().to_multiset())
                =~= unsorted.to_multiset(),
            sorted_descending(sorted.deep_view()),
            forall|a: int, b: int|
                0 <= a < sorted.deep_view().len() && 0 <= b < remaining.deep_view().len()
                    ==> sorted.deep_view()[a].probability_ppm
                    >= remaining.deep_view()[b].probability_ppm,
        decreases remaining@.len(),
    {
        // The best remaining score.
        let mut best: usize = 0;
        let mut j: usize = 1;
        while j < remaining.len()
            invariant
                best < j <= remaining@.len(),
                remaining@.len() > 0,
                forall|k: int|
                    0 <= k < j ==> remaining.deep_view()[k].probability_ppm
                        <= remaining.deep_view()[best as int].probability_ppm,
            decreases remaining@.len() - j,
        {
            if remaining[j].probability_ppm > remaining[best].probability_ppm {
                best = j;
            }
            j = j + 1;
        }
        let ghost before_remaining = remaining.deep_view();
        let ghost before_sorted = sorted.deep_view();
        let item = remaining.remove(best);
        sorted.push(item);
        proof {
            assert(remaining.deep_view() =~= before_remaining.remove(best as int));
            assert(sorted.deep_view() =~= before_sorted.push(item@));
            assert(item@ == before_remaining[best as int]);
            before_remaining.to_multiset_ensures();
            before_sorted.to_multiset_ensures();
            assert(before_remaining.contains(item@));
            assert(before_remaining.to_multiset().count(item@) > 0);
            assert(remaining.deep_view().to_multiset() =~= before_remaining.to_multiset().remove(
                item@,
            ));
            assert(sorted.deep_view().to_multiset() =~= before_sorted.to_multiset().insert(item@));
            assert(sorted.deep_view().to_multiset().add(remaining.deep_view().to_multiset())
                =~= unsorted.to_multiset());
        }
    }
    sorted
}

} // verus!
