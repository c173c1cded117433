//! Aggregate statistics over a set of points: how many there are, their
//! average, their smallest and their largest.

use vstd::prelude::*;

verus! {

/// One measurement. Values are integers on purpose; averages round toward
/// zero.
pub type Point = i64;

/// Sum of the points.
pub open spec fn sum(values: Seq<Point>) -> int
    decreases values.len(),
{
    if values.len() == 0 {
        0
    } else {
        sum(values.drop_last()) + values.last()
    }
}

/// Largest of the points; meaningful on a sequence that is not empty.
pub open spec fn maximum(values: Seq<Point>) -> Point
    recommends
        values.len() > 0,
    decreases values.len(),
{
    if values.len() <= 1 {
        values[0]
    } else if values.last() > maximum(values.drop_last()) {
        values.last()
    } else {
        maximum(values.drop_last())
    }
}

/// Smallest of the points; meaningful on a sequence that is not empty.
pub open spec fn minimum(values: Seq<Point>) -> Point
    recommends
        values.len() > 0,
    decreases values.len(),
{
    if values.len() <= 1 {
        values[0]
    } else if values.last() < minimum(values.drop_last()) {
        values.last()
    } else {
        minimum(values.drop_last())
    }
}

/// Quotient of `total` by a positive `count`, rounded toward zero.
pub open spec fn truncating_quotient(total: int, count: int) -> int
    recommends
        count > 0,
{
    if total >= 0 {
        total / count
    } else {
        -((-total) / count)
    }
}

/// Count, average, minimum and maximum of the points of one bucket.
#[derive(Clone, Copy, Debug, PartialEq, Eq)]
pub struct Statistics {
    pub average: Point,
    pub count: usize,
    pub max: Option<Point>,
    pub min: Option<Point>,
}

impl Statistics {
    /// Minimum and maximum are absent exactly when nothing was counted, and
    /// otherwise the average lies between them.
    pub open spec fn wf(self) -> bool {
        &&& self.count == 0 <==> self.min is None
        &&& self.count == 0 <==> self.max is None
        &&& self.count > 0 ==> self.min->0 <= self.average <= self.max->0
    }

    /// The statistics of a sequence of points that is not empty.
    pub open spec fn of(values: Seq<Point>) -> Statistics
        recommends
            0 < values.len() <= usize::MAX,
    {
        Statistics {
            average: truncating_quotient(sum(values), values.len() as int) as Point,
            count: values.len() as usize,
            max: Some(maximum(values)),
            min: Some(minimum(values)),
        }
    }

    /// Computes the statistics of `values` in one pass. The sum is taken
    /// exactly, so no input overflows.
    pub fn from_points(values: &[Point]) -> (r: Statistics)
        requires
            values@.len() > 0,
        ensures
            r == Statistics::of(values@),
            r.wf(),
    {
        let n: usize = values.len();
        let mut total: i128 = values[0] as i128;
        let mut max: Point = values[0];
        let mut min: Point = values[0];
        let mut i: usize = 1;
        proof {
            assert(sum(values@.take(1)) == values@[0]) by {
                reveal_with_fuel(sum, 2);
            }
        }
        while i < n
            invariant
                1 <= i <= n,
                n == values@.len(),
                total == sum(values@.take(i as int)),
                max == maximum(values@.take(i as int)),
                min == minimum(values@.take(i as int)),
                -(i * 0x8000_0000_0000_0000) <= total <= i * 0x8000_0000_0000_0000,
            decreases n - i,
        {
            let value: Point = values[i];
            proof {
                assert(values@.take(i + 1).drop_last() =~= values@.take(i as int));
            }
            total = total + value as i128;
            if max < value {
                max = value;
            }
            if min > value {
                min = value;
            }
            i = i + 1;
        }
        proof {
            assert(values@.take(n as int) =~= values@);
            lemma_average_in_range(values@);
        }
        let average: i128 = total / (n as i128);
        Statistics { average: average as Point, count: n, max: Some(max), min: Some(min) }
    }
}

/// The maximum is one of the points and none is larger; likewise the
/// minimum.
pub proof fn lemma_extremes(values: Seq<Point>)
    requires
        values.len() > 0,
    ensures
        values.contains(maximum(values)),
        values.contains(minimum(values)),
        forall|i: int|
            0 <= i < values.len() ==> minimum(values) <= #[trigger] values[i] <= maximum(values),
    decreases values.len(),
{
    if values.len() > 1 {
        let front = values.drop_last();
        lemma_extremes(front);
        let hi = choose|i: int| 0 <= i < front.len() && front[i] == maximum(front);
        let lo = choose|i: int| 0 <= i < front.len() && front[i] == minimum(front);
        assert(values[hi] == front[hi] && values[lo] == front[lo]);
        assert forall|i: int| 0 <= i < values.len() implies minimum(values) <= #[trigger] values[i]
            <= maximum(values) by {
            if i < front.len() {
                assert(values[i] == front[i]);
            }
        }
    }
}

/// The sum lies between the count times the minimum and the count times the
/// maximum.
pub proof fn lemma_sum_bounds(values: Seq<Point>)
    requires
        values.len() > 0,
    ensures
        values.len() * minimum(values) <= sum(values) <= values.len() * maximum(values),
    decreases values.len(),
{
    if values.len() > 1 {
        let front = values.drop_last();
        lemma_sum_bounds(front);
        assert(front.len() * minimum(values) <= front.len() * minimum(front)) by (nonlinear_arith)
            requires
                minimum(values) <= minimum(front),
                front.len() >= 0,
        ;
        assert(front.len() * maximum(front) <= front.len() * maximum(values)) by (nonlinear_arith)
            requires
                maximum(front) <= maximum(values),
                front.len() >= 0,
        ;
        assert(values.len() * minimum(values) == front.len() * minimum(values) + minimum(values))
            by (nonlinear_arith)
            requires
                values.len() == front.len() + 1,
        ;
        assert(values.len() * maximum(values) == front.len() * maximum(values) + maximum(values))
            by (nonlinear_arith)
            requires
                values.len() == front.len() + 1,
        ;
    } else {
        assert(sum(values) == values[0]) by {
            reveal_with_fuel(sum, 2);
        }
    }
}

/// The average of points lies between their minimum and their maximum.
pub proof fn lemma_average_in_range(values: Seq<Point>)
    requires
        values.len() > 0,
    ensures
        minimum(values) <= truncating_quotient(sum(values), values.len() as int) <= maximum(values),
{
    lemma_sum_bounds(values);
    let n: int = values.len() as int;
    let total: int = sum(values);
    let lo: int = minimum(values) as int;
    let hi: int = maximum(values) as int;
    assert(lo <= hi) by {
        lemma_extremes(values);
    }
    if total >= 0 {
        assert(total / n <= hi && (lo <= 0 || lo <= total / n)) by (nonlinear_arith)
            requires
                n > 0,
                0 <= total <= n * hi,
                n * lo <= total,
        ;
    } else {
        assert(-((-total) / n) >= lo && (hi >= 0 || -((-total) / n) <= hi)) by (nonlinear_arith)
            requires
                n > 0,
                total < 0,
                n * lo <= total <= n * hi,
        ;
    }
}

/// The statistics of a single point count one point and have it as
/// average, minimum and maximum.
pub proof fn lemma_single_point(value: Point)
    ensures
        Statistics::of(seq![value]) == (Statistics {
            average: value,
            count: 1,
            max: Some(value),
            min: Some(value),
        }),
{
    let values = seq![value];
    assert(sum(values) == value) by {
        reveal_with_fuel(sum, 2);
    }
}

} // verus!
