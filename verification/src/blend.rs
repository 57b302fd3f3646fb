//! Blending a batter's, the league's and a pitcher's transition rows.
//!
//! A blended weight is a third of three weighted entries, and the league
//! entry may enter at a hundredth of its weight. So that nothing is rounded,
//! a blended row is kept as numerators over the denominator 300: a position
//! is zero only where its exact value is zero, and the proportions of the
//! row are exact.

use crate::sampler::{all_non_negative, row_total, total_weight};
use vstd::prelude::*;

verus! {

/// The denominator of every blended weight.
pub const BLEND_DENOMINATOR: i64 = 300;

/// Whether the league weight is damped: it is, where it is more than five
/// times the batter's and the pitcher's weights together. A damped league
/// weight counts a hundredth, so that it cannot drown the other two rows.
pub open spec fn is_damped(w1: int, w2: int, w3: int) -> bool {
    w2 > (w1 + w3) * 5
}

/// An entry times its weight as it enters a numerator: a hundred times the
/// product, or the product itself where the weight counts a hundredth.
pub open spec fn weighted_term(v: int, w: int, hundredth: bool) -> int {
    if hundredth {
        v * w
    } else {
        100 * (v * w)
    }
}

/// The numerator of one position of the blended row. Over the denominator
/// 300 it is a third of `v1 * w1 + v2 * w + v3 * w3`, where `w` is the league
/// weight `w2`, or a hundredth of it where it is damped.
pub open spec fn blended_numerator(v1: int, v2: int, v3: int, w1: int, w2: int, w3: int) -> int {
    weighted_term(v1, w1, false) + weighted_term(v2, w2, is_damped(w1, w2, w3)) + weighted_term(
        v3,
        w3,
        false,
    )
}

/// Whether a number lies in the range of a weight.
pub open spec fn fits_weight(x: int) -> bool {
    i64::MIN <= x <= i64::MAX
}

/// Whether one position can be blended inside the range of a weight: its
/// three weighted entries fit, and so does their sum.
pub open spec fn entry_in_range(v1: int, v2: int, v3: int, w1: int, w2: int, w3: int) -> bool {
    &&& fits_weight(weighted_term(v1, w1, false))
    &&& fits_weight(weighted_term(v2, w2, is_damped(w1, w2, w3)))
    &&& fits_weight(weighted_term(v3, w3, false))
    &&& fits_weight(blended_numerator(v1, v2, v3, w1, w2, w3))
}

/// Every position at which all three rows have an entry can be blended
/// inside the range of a weight.
pub open spec fn blend_in_range(
    vec1: Seq<i64>,
    vec2: Seq<i64>,
    vec3: Seq<i64>,
    w1: int,
    w2: int,
    w3: int,
) -> bool {
    forall|i: int|
        0 <= i < vec1.len() && i < vec2.len() && i < vec3.len() ==> #[trigger] entry_in_range(
            vec1[i] as int,
            vec2[i] as int,
            vec3[i] as int,
            w1,
            w2,
            w3,
        )
}

/// The league weight of a plate appearance, from the totals of the batter's
/// and the pitcher's rows: ten times the two totals, each raised by one.
pub open spec fn baseline_weight_spec(batter_sum: int, pitcher_sum: int) -> int {
    ((batter_sum + 1) + (pitcher_sum + 1)) * 10
}

/// A blended row: position `i` has the weight `numerators[i] / 300`.
#[derive(Debug, Clone, PartialEq, Eq)]
pub struct BlendedRow {
    /// The numerators of the weights, position by position.
    pub numerators: Vec<i64>,
}

impl BlendedRow {
    /// Whether the blended row is, position by position, exactly `row`.
    pub open spec fn equals_row_spec(self, row: Seq<i64>) -> bool {
        &&& self.numerators@.len() == row.len()
        &&& forall|i: int| 0 <= i < row.len() ==> self.numerators@[i] == 300 * row[i]
    }

    /// Whether the blended row is, position by position, exactly `row`.
    pub fn equals_row(&self, row: &[i64]) -> (same: bool)
        ensures
            same == self.equals_row_spec(row@),
    {
        if self.numerators.len() != row.len() {
            return false;
        }
        let mut i: usize = 0;
        while i < row.len()
            invariant
                self.numerators.len() == row.len(),
                i <= row.len(),
                forall|j: int| 0 <= j < i ==> self.numerators@[j] == 300 * row@[j],
            decreases row.len() - i,
        {
            let same: bool = match row[i].checked_mul(BLEND_DENOMINATOR) {
                Some(scaled) => scaled == self.numerators[i],
                None => false,
            };
            if !same {
                assert(self.numerators@[i as int] != 300 * row@[i as int]);
                return false;
            }
            i += 1;
        }
        true
    }
}

/// Three rows that agree, blended with weights of one, give the row they
/// agree on: the numerator is 300 times the entry.
pub proof fn lemma_unit_blend_keeps_entry(v: int)
    ensures
        blended_numerator(v, v, v, 1, 1, 1) == 300 * v,
{
}

/// A damped league weight enters the blend with a hundredth of its value:
/// over the denominator 300 the blended position is exactly a third of
/// `v1 * w1 + v2 * (w2 / 100) + v3 * w3`. A league weight that is not damped
/// enters as it is.
pub proof fn lemma_damping_rule(v1: int, v2: int, v3: int, w1: int, w2: int, w3: int)
    ensures
        w2 > 5 * (w1 + w3) ==> blended_numerator(v1, v2, v3, w1, w2, w3) == 100 * (v1 * w1) + v2
            * w2 + 100 * (v3 * w3),
        w2 > 5 * (w1 + w3) ==> blended_numerator(0, v2, 0, w1, w2, w3) == v2 * w2,
        w2 <= 5 * (w1 + w3) ==> blended_numerator(v1, v2, v3, w1, w2, w3) == 100 * (v1 * w1 + v2
            * w2 + v3 * w3),
{
    assert(100 * (v1 * w1 + v2 * w2 + v3 * w3) == 100 * (v1 * w1) + 100 * (v2 * w2) + 100 * (v3
        * w3)) by (nonlinear_arith);
    assert(0 * w1 == 0 && 0 * w3 == 0) by (nonlinear_arith);
}

/// The league weight of a plate appearance is positive and always damped.
pub proof fn lemma_baseline_weight_is_damped(batter_sum: int, pitcher_sum: int)
    requires
        batter_sum >= 0,
        pitcher_sum >= 0,
    ensures
        baseline_weight_spec(batter_sum, pitcher_sum) >= 20,
        is_damped(batter_sum, baseline_weight_spec(batter_sum, pitcher_sum), pitcher_sum),
{
}

/// No positive weight is lost in the blend: where nothing is negative, a
/// position is positive wherever one of the three entries is positive under
/// a positive weight, and zero only where all three weighted entries are
/// zero.
pub proof fn lemma_blend_keeps_positive_weights(
    v1: int,
    v2: int,
    v3: int,
    w1: int,
    w2: int,
    w3: int,
)
    requires
        v1 >= 0 && v2 >= 0 && v3 >= 0,
        w1 >= 0 && w2 >= 0 && w3 >= 0,
    ensures
        blended_numerator(v1, v2, v3, w1, w2, w3) >= 0,
        blended_numerator(v1, v2, v3, w1, w2, w3) > 0 <==> (v1 > 0 && w1 > 0) || (v2 > 0 && w2 > 0)
            || (v3 > 0 && w3 > 0),
{
    lemma_product_sign(v1, w1);
    lemma_product_sign(v2, w2);
    lemma_product_sign(v3, w3);
}

/// The product of two numbers that are not negative is not negative, and it
/// is positive exactly where both are.
proof fn lemma_product_sign(a: int, b: int)
    requires
        a >= 0,
        b >= 0,
    ensures
        a * b >= 0,
        a * b > 0 <==> a > 0 && b > 0,
{
    assert(a * b >= 0) by (nonlinear_arith)
        requires
            a >= 0,
            b >= 0,
    ;
    if a > 0 && b > 0 {
        assert(a * b > 0) by (nonlinear_arith)
            requires
                a > 0,
                b > 0,
        ;
    } else {
        assert(a * b == 0) by (nonlinear_arith)
            requires
                a == 0 || b == 0,
        ;
    }
}

/// Whether the league weight is damped.
fn damped(w1: i64, w2: i64, w3: i64) -> (d: bool)
    ensures
        d == is_damped(w1 as int, w2 as int, w3 as int),
{
    let rest: i128 = (w1 as i128 + w3 as i128) * 5;
    w2 as i128 > rest
}

/// An entry times its weight as it enters a numerator, or `None` where that
/// does not fit a weight.
fn term(v: i64, w: i64, hundredth: bool) -> (r: Option<i64>)
    ensures
        r.is_some() <==> fits_weight(weighted_term(v as int, w as int, hundredth)),
        r matches Some(x) ==> x == weighted_term(v as int, w as int, hundredth),
{
    match v.checked_mul(w) {
        None => None,
        Some(product) => {
            if hundredth {
                Some(product)
            } else {
                product.checked_mul(100)
            }
        },
    }
}

/// The numerator of one position of the blended row, or `None` where the
/// position cannot be blended inside the range of a weight.
fn blend_entry(v1: i64, v2: i64, v3: i64, w1: i64, w2: i64, w3: i64) -> (r: Option<i64>)
    ensures
        r.is_some() <==> entry_in_range(
            v1 as int,
            v2 as int,
            v3 as int,
            w1 as int,
            w2 as int,
            w3 as int,
        ),
        r matches Some(x) ==> x == blended_numerator(
            v1 as int,
            v2 as int,
            v3 as int,
            w1 as int,
            w2 as int,
            w3 as int,
        ),
{
    let a: i64 = match term(v1, w1, false) {
        Some(a) => a,
        None => {
            return None;
        },
    };
    let b: i64 = match term(v2, w2, damped(w1, w2, w3)) {
        Some(b) => b,
        None => {
            return None;
        },
    };
    let c: i64 = match term(v3, w3, false) {
        Some(c) => c,
        None => {
            return None;
        },
    };
    let n: i128 = a as i128 + b as i128 + c as i128;
    if n > i64::MAX as i128 || n < i64::MIN as i128 {
        None
    } else {
        Some(n as i64)
    }
}

/// Whether three rows can be blended with the given weights inside the range
/// of a weight.
pub fn blend_fits(vec1: &[i64], vec2: &[i64], vec3: &[i64], w1: i64, w2: i64, w3: i64) -> (ok:
    bool)
    ensures
        ok == blend_in_range(vec1@, vec2@, vec3@, w1 as int, w2 as int, w3 as int),
{
    let mut i: usize = 0;
    while i < vec1.len() && i < vec2.len() && i < vec3.len()
        invariant
            forall|j: int|
                0 <= j < i ==> #[trigger] entry_in_range(
                    vec1@[j] as int,
                    vec2@[j] as int,
                    vec3@[j] as int,
                    w1 as int,
                    w2 as int,
                    w3 as int,
                ),
        decreases vec1.len() - i,
    {
        if blend_entry(vec1[i], vec2[i], vec3[i], w1, w2, w3).is_none() {
            assert(!entry_in_range(
                vec1@[i as int] as int,
                vec2@[i as int] as int,
                vec3@[i as int] as int,
                w1 as int,
                w2 as int,
                w3 as int,
            ));
            return false;
        }
        i += 1;
    }
    true
}

/// Blends three rows of equal length into one. Position by position the
/// result is a third of `vec1[i] * w1 + vec2[i] * w + vec3[i] * w3`, where
/// `w` is `w2`, or a hundredth of `w2` where `w2` is more than five times
/// `w1 + w3`. The result is exact: it is given as numerators over the
/// denominator 300. Rows of different lengths give `None`.
pub fn weighted_avg(vec1: &[i64], vec2: &[i64], vec3: &[i64], w1: i64, w2: i64, w3: i64) -> (r:
    Option<BlendedRow>)
    requires
        blend_in_range(vec1@, vec2@, vec3@, w1 as int, w2 as int, w3 as int),
    ensures
        r.is_some() <==> vec1.len() == vec2.len() && vec1.len() == vec3.len(),
        r matches Some(row) ==> {
            &&& row.numerators.len() == vec1.len()
            &&& forall|i: int|
                0 <= i < row.numerators.len() ==> row.numerators[i] == blended_numerator(
                    vec1[i] as int,
                    vec2[i] as int,
                    vec3[i] as int,
                    w1 as int,
                    w2 as int,
                    w3 as int,
                )
        },
{
    if vec1.len() != vec2.len() || vec1.len() != vec3.len() {
        return None;
    }
    let mut numerators: Vec<i64> = Vec::new();
    let mut i: usize = 0;
    while i < vec1.len()
        invariant
            i <= vec1.len(),
            vec1.len() == vec2.len(),
            vec1.len() == vec3.len(),
            blend_in_range(vec1@, vec2@, vec3@, w1 as int, w2 as int, w3 as int),
            numerators.len() == i,
            forall|j: int|
                0 <= j < i ==> numerators[j] == blended_numerator(
                    vec1[j] as int,
                    vec2[j] as int,
                    vec3[j] as int,
                    w1 as int,
                    w2 as int,
                    w3 as int,
                ),
        decreases vec1.len() - i,
    {
        proof {
            assert(entry_in_range(
                vec1[i as int] as int,
                vec2[i as int] as int,
                vec3[i as int] as int,
                w1 as int,
                w2 as int,
                w3 as int,
            ));
        }
        let entry: Option<i64> = blend_entry(vec1[i], vec2[i], vec3[i], w1, w2, w3);
        numerators.push(entry.unwrap());
        i += 1;
    }
    Some(BlendedRow { numerators })
}

/// The numerators of the three rows blended into one as a plate appearance
/// does it: the batter's row and the pitcher's row each weigh as much as
/// their own total, the league row ten times the two totals, each raised by
/// one.
pub open spec fn blended_row(batter: Seq<i64>, baseline: Seq<i64>, pitcher: Seq<i64>) -> Seq<i64> {
    Seq::new(
        batter.len(),
        |i: int|
            blended_numerator(
                batter[i] as int,
                baseline[i] as int,
                pitcher[i] as int,
                total_weight(batter),
                baseline_weight_spec(total_weight(batter), total_weight(pitcher)),
                total_weight(pitcher),
            ) as i64,
    )
}

/// Whether three rows can be blended as a plate appearance does it: they are
/// equally long, the batter's and the pitcher's rows hold nothing negative,
/// and their totals, the league weight and every blended position fit a
/// weight.
pub open spec fn blendable(batter: Seq<i64>, baseline: Seq<i64>, pitcher: Seq<i64>) -> bool {
    &&& batter.len() == baseline.len() && batter.len() == pitcher.len()
    &&& all_non_negative(batter) && all_non_negative(pitcher)
    &&& total_weight(batter) <= i64::MAX && total_weight(pitcher) <= i64::MAX
    &&& baseline_weight_spec(total_weight(batter), total_weight(pitcher)) <= i64::MAX
    &&& blend_in_range(
        batter,
        baseline,
        pitcher,
        total_weight(batter),
        baseline_weight_spec(total_weight(batter), total_weight(pitcher)),
        total_weight(pitcher),
    )
}

/// The league weight of a plate appearance: ten times the two totals, each
/// raised by one. `None` where it does not fit a weight.
pub fn baseline_weight(batter_sum: i64, pitcher_sum: i64) -> (w: Option<i64>)
    ensures
        w.is_some() <==> fits_weight(baseline_weight_spec(batter_sum as int, pitcher_sum as int)),
        w matches Some(x) ==> x == baseline_weight_spec(batter_sum as int, pitcher_sum as int),
{
    let wide: i128 = ((batter_sum as i128 + 1) + (pitcher_sum as i128 + 1)) * 10;
    if wide > i64::MAX as i128 || wide < i64::MIN as i128 {
        None
    } else {
        Some(wide as i64)
    }
}

/// Blends the batter's, the league's and the pitcher's rows as a plate
/// appearance does it, or gives `None` where they cannot be blended. Every
/// state to which the league row gives a positive weight keeps a positive
/// weight in the blend.
pub fn blend_rows(batter: &Vec<i64>, baseline: &Vec<i64>, pitcher: &Vec<i64>) -> (r: Option<
    BlendedRow,
>)
    ensures
        r.is_some() <==> blendable(batter@, baseline@, pitcher@),
        r matches Some(row) ==> row.numerators@ == blended_row(batter@, baseline@, pitcher@),
        r matches Some(row) ==> forall|i: int|
            0 <= i < baseline.len() && baseline[i] > 0 ==> #[trigger] row.numerators[i] > 0,
{
    if batter.len() != baseline.len() || batter.len() != pitcher.len() {
        return None;
    }
    let batter_sum: i64 = match row_total(batter) {
        Some(sum) => sum,
        None => {
            return None;
        },
    };
    let pitcher_sum: i64 = match row_total(pitcher) {
        Some(sum) => sum,
        None => {
            return None;
        },
    };
    let league: i64 = match baseline_weight(batter_sum, pitcher_sum) {
        Some(w) => w,
        None => {
            return None;
        },
    };
    if !blend_fits(
        batter.as_slice(),
        baseline.as_slice(),
        pitcher.as_slice(),
        batter_sum,
        league,
        pitcher_sum,
    ) {
        return None;
    }
    match weighted_avg(
        batter.as_slice(),
        baseline.as_slice(),
        pitcher.as_slice(),
        batter_sum,
        league,
        pitcher_sum,
    ) {
        Some(row) => {
            assert(row.numerators@ =~= blended_row(batter@, baseline@, pitcher@));
            assert forall|i: int| 0 <= i < baseline.len() && baseline[i] > 0 implies #[trigger]
                row.numerators[i] > 0 by {
                lemma_blend_keeps_positive_weights(
                    batter[i] as int,
                    baseline[i] as int,
                    pitcher[i] as int,
                    batter_sum as int,
                    league as int,
                    pitcher_sum as int,
                );
            }
            Some(row)
        },
        None => None,
    }
}

} // verus!
