//! Weighted random choice of an index.

use rand::distributions::{Distribution, WeightedError, WeightedIndex};
use rand::rngs::ThreadRng;
use vstd::prelude::*;

verus! {

/// The sum of all weights of a row.
pub open spec fn total_weight(weights: Seq<i64>) -> int
    decreases weights.len(),
{
    if weights.len() == 0 {
        0
    } else {
        total_weight(weights.drop_last()) + weights.last()
    }
}

/// No weight of the row is negative.
pub open spec fn all_non_negative(weights: Seq<i64>) -> bool {
    forall|i: int| 0 <= i < weights.len() ==> weights[i] >= 0
}

/// A row that a choice can be drawn from: it has no negative weight, and its
/// total is positive and within the range of a weight.
pub open spec fn is_distribution(weights: Seq<i64>) -> bool {
    &&& all_non_negative(weights)
    &&& 0 < total_weight(weights) <= i64::MAX
}

/// rand's `ThreadRng`, the generator that a thread keeps for itself.
#[verifier::external_type_specification]
#[verifier::external_body]
pub struct ExThreadRng(ThreadRng);

/// rand's `WeightedError`, the reason why a row was refused.
#[verifier::external_type_specification]
#[verifier::external_body]
pub struct ExWeightedError(WeightedError);

/// A `WeightedIndex` over whole-number weights, ready to be drawn from.
#[verifier::external_body]
pub struct WeightTable {
    index: WeightedIndex<i64>,
}

/// The weights that a table was built from, in their order.
pub uninterp spec fn indexed_weights(table: WeightTable) -> Seq<i64>;

/// `rand::thread_rng`: the calling thread's generator. Nothing is claimed of it.
#[verifier::external_body]
fn local_rng() -> (rng: ThreadRng) {
    rand::thread_rng()
}

/// `WeightedIndex::new` over a row without negative weights whose total fits a
/// weight: it succeeds exactly when the row is not empty and its total is not
/// zero, and the index then stands for that row.
#[verifier::external_body]
fn build_index(weights: &Vec<i64>) -> (r: Result<WeightTable, WeightedError>)
    requires
        all_non_negative(weights@),
        total_weight(weights@) <= i64::MAX,
    ensures
        r.is_ok() <==> total_weight(weights@) > 0,
        r matches Ok(table) ==> indexed_weights(table) == weights@,
{
    WeightedIndex::new(weights).map(|index| WeightTable { index })
}

/// `WeightedIndex::sample`: the position drawn lies inside the row and carries
/// a positive weight. Which of those positions comes is left to chance.
#[verifier::external_body]
fn draw_index(table: &WeightTable, rng: &mut ThreadRng) -> (i: usize)
    ensures
        i < indexed_weights(*table).len(),
        indexed_weights(*table)[i as int] > 0,
{
    table.index.sample(rng)
}

/// The total of the first `n` weights of a row without negative weights is
/// at most the total of the whole row.
pub proof fn lemma_prefix_total_bounded(weights: Seq<i64>, n: int)
    requires
        all_non_negative(weights),
        0 <= n <= weights.len(),
    ensures
        0 <= total_weight(weights.take(n)) <= total_weight(weights),
    decreases weights.len(),
{
    if n == weights.len() {
        assert(weights.take(n) =~= weights);
        if weights.len() > 0 {
            lemma_prefix_total_bounded(weights.drop_last(), n - 1);
            assert(weights.drop_last().take(n - 1) =~= weights.drop_last());
        }
    } else {
        lemma_prefix_total_bounded(weights.drop_last(), n);
        assert(weights.drop_last().take(n) =~= weights.take(n));
    }
}

/// A row with a positive total holds a positive weight, and a row without
/// negative weights that holds a positive weight has a positive total.
pub proof fn lemma_positive_total_has_positive_weight(weights: Seq<i64>)
    requires
        all_non_negative(weights),
    ensures
        total_weight(weights) > 0 <==> exists|i: int| 0 <= i < weights.len() && weights[i] > 0,
    decreases weights.len(),
{
    if weights.len() > 0 {
        let front = weights.drop_last();
        lemma_positive_total_has_positive_weight(front);
        lemma_prefix_total_bounded(front, front.len() as int);
        assert(front.take(front.len() as int) =~= front);
        if total_weight(weights) > 0 {
            if weights.last() > 0 {
                assert(weights[weights.len() - 1] > 0);
            } else {
                let i = choose|i: int| 0 <= i < front.len() && front[i] > 0;
                assert(weights[i] > 0);
            }
        }
        if exists|i: int| 0 <= i < weights.len() && weights[i] > 0 {
            let i = choose|i: int| 0 <= i < weights.len() && weights[i] > 0;
            if i < front.len() {
                assert(front[i] > 0);
            }
        }
    }
}

/// The total of a row, or `None` where the row holds a negative weight or
/// its total lies beyond the range of a weight.
pub fn row_total(weights: &Vec<i64>) -> (total: Option<i64>)
    ensures
        total.is_some() <==> all_non_negative(weights@) && total_weight(weights@) <= i64::MAX,
        total matches Some(t) ==> t == total_weight(weights@) && t >= 0,
{
    let mut sum: i64 = 0;
    let mut i: usize = 0;
    proof {
        assert(weights@.take(0) =~= Seq::<i64>::empty());
    }
    while i < weights.len()
        invariant
            i <= weights.len(),
            forall|j: int| 0 <= j < i ==> weights[j] >= 0,
            sum == total_weight(weights@.take(i as int)),
            0 <= sum,
        decreases weights.len() - i,
    {
        let w: i64 = weights[i];
        if w < 0 {
            return None;
        }
        proof {
            assert(weights@.take(i + 1).drop_last() =~= weights@.take(i as int));
            assert(weights@.take(i + 1).last() == w);
            if all_non_negative(weights@) {
                lemma_prefix_total_bounded(weights@, i + 1);
            }
        }
        if w > i64::MAX - sum {
            return None;
        }
        sum = sum + w;
        i += 1;
    }
    proof {
        assert(weights@.take(i as int) =~= weights@);
    }
    Some(sum)
}

/// Draws an index from `weights` with the given generator, each index with a
/// chance in proportion to its weight.
///
/// The draw is made exactly when the row is a distribution; the index that
/// comes back then carries a positive weight. A row with a negative weight,
/// an empty row, a row of zeros and a row whose total is out of range all
/// give `None`, and leave the generator as it was.
pub fn sample_index_from_weights_with_rng(rng: &mut ThreadRng, weights: Vec<i64>) -> (r: Option<
    usize,
>)
    ensures
        r.is_some() <==> is_distribution(weights@),
        !all_non_negative(weights@) ==> r.is_none(),
        r matches Some(i) ==> i < weights.len() && weights[i as int] > 0,
        r.is_none() ==> *final(rng) == *old(rng),
{
    if row_total(&weights).is_none() {
        return None;
    }
    match build_index(&weights) {
        Ok(table) => Some(draw_index(&table, rng)),
        Err(_) => None,
    }
}

/// Draws an index from `weights` with the calling thread's generator.
pub fn sample_index_from_weights(weights: Vec<i64>) -> (r: Option<usize>)
    ensures
        r.is_some() <==> is_distribution(weights@),
        !all_non_negative(weights@) ==> r.is_none(),
        r matches Some(i) ==> i < weights.len() && weights[i as int] > 0,
{
    let mut rng = local_rng();
    sample_index_from_weights_with_rng(&mut rng, weights)
}

/// An index drawn for the next state, and the row it was drawn from.
#[derive(Debug, Clone, Copy, PartialEq, Eq)]
pub enum Draw {
    /// Drawn from the blended row.
    Sampled(usize),
    /// Drawn from the league row, because the blended row gave nothing.
    Fallback(usize),
}

impl Draw {
    /// The index that was drawn.
    pub open spec fn index_spec(self) -> usize {
        match self {
            Draw::Sampled(i) => i,
            Draw::Fallback(i) => i,
        }
    }

    /// The index that was drawn.
    pub fn index(&self) -> (i: usize)
        ensures
            i == self.index_spec(),
    {
        match self {
            Draw::Sampled(i) => *i,
            Draw::Fallback(i) => *i,
        }
    }
}

/// Whether a blended row is there and is a distribution.
pub open spec fn usable(blended: Option<Vec<i64>>) -> bool {
    blended matches Some(row) && is_distribution(row@)
}

/// Draws an index from the blended row, or from the league row where the
/// blended row is missing or is no distribution. Gives `None` where neither
/// row is a distribution.
pub fn sample_or_fall_back(blended: Option<Vec<i64>>, baseline: &Vec<i64>) -> (r: Option<Draw>)
    ensures
        r.is_some() <==> usable(blended) || is_distribution(baseline@),
        r matches Some(Draw::Sampled(i)) ==> usable(blended) && i < blended.unwrap().len()
            && blended.unwrap()[i as int] > 0,
        r matches Some(Draw::Fallback(i)) ==> !usable(blended) && i < baseline.len()
            && baseline[i as int] > 0,
{
    let first: Option<usize> = match blended {
        Some(row) => sample_index_from_weights(row),
        None => None,
    };
    match first {
        Some(i) => Some(Draw::Sampled(i)),
        None => {
            let copy: Vec<i64> = baseline.clone();
            assert(copy@ =~= baseline@);
            match sample_index_from_weights(copy) {
                Some(i) => Some(Draw::Fallback(i)),
                None => None,
            }
        },
    }
}

} // verus!
