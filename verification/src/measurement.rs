//! Height readings of the three sensors, their validation and their mean.

use vstd::prelude::*;
use vstd::arithmetic::div_mod::{
    lemma_div_is_ordered, lemma_div_multiples_vanish, lemma_fundamental_div_mod,
    lemma_fundamental_div_mod_converse, lemma_mod_bound,
};
use crate::error::Error;

verus! {

/// One height per sensor, in the order of the points of the plane.
#[derive(Clone, Copy, Debug, PartialEq, Eq, Structural)]
pub struct Measurement(pub i64, pub i64, pub i64);

/// What to do with a data row that is not three numbers.
#[derive(Clone, Copy, Debug, PartialEq, Eq, Structural)]
pub enum RowPolicy {
    /// Refuse the whole input.
    Abort,
    /// Drop the row and go on.
    Skip,
}

impl Default for RowPolicy {
    fn default() -> (r: RowPolicy)
        ensures
            r == RowPolicy::Abort,
    {
        RowPolicy::Abort
    }
}

impl Measurement {
    /// The height of sensor `k` (0, 1 or 2).
    pub open spec fn height(self, k: int) -> int {
        if k == 0 {
            self.0 as int
        } else if k == 1 {
            self.1 as int
        } else {
            self.2 as int
        }
    }

    /// A row is valid when it holds exactly three fields, each a number.
    pub open spec fn row_is_valid(fields: Seq<Option<i64>>) -> bool {
        &&& fields.len() == 3
        &&& fields[0] is Some
        &&& fields[1] is Some
        &&& fields[2] is Some
    }

    /// The reading that a valid row holds.
    pub open spec fn row_value(fields: Seq<Option<i64>>) -> Measurement {
        Measurement(fields[0]->0, fields[1]->0, fields[2]->0)
    }

    /// The reading with these three heights, in their order.
    pub fn new(measurements: (i64, i64, i64)) -> (r: Measurement)
        ensures
            r == Measurement(measurements.0, measurements.1, measurements.2),
    {
        let (x, y, z) = measurements;
        Measurement(x, y, z)
    }

    /// Reads one data row; a field that is not a number arrives as `None`.
    pub fn from_fields(fields: &Vec<Option<i64>>) -> (r: Option<Measurement>)
        ensures
            r is Some <==> Measurement::row_is_valid(fields@),
            r matches Some(m) ==> m == Measurement::row_value(fields@),
    {
        if fields.len() != 3 {
            return None;
        }
        match (fields[0], fields[1], fields[2]) {
            (Some(a), Some(b), Some(c)) => Some(Measurement(a, b, c)),
            _ => None,
        }
    }
}

/// The readings of the valid rows, in the order of the rows.
pub open spec fn valid_rows(rows: Seq<Vec<Option<i64>>>) -> Seq<Measurement>
    decreases rows.len(),
{
    if rows.len() == 0 {
        Seq::empty()
    } else if Measurement::row_is_valid(rows.last()@) {
        valid_rows(rows.drop_last()).push(Measurement::row_value(rows.last()@))
    } else {
        valid_rows(rows.drop_last())
    }
}

/// Row `i` is the first one that is not valid.
pub open spec fn first_malformed(rows: Seq<Vec<Option<i64>>>, i: int) -> bool {
    &&& 0 <= i < rows.len()
    &&& !Measurement::row_is_valid(rows[i]@)
    &&& forall|j: int| 0 <= j < i ==> Measurement::row_is_valid(#[trigger] rows[j]@)
}

/// Where every row is valid, nothing is left out: there is one reading per
/// row, and the reading at an index is the one of the row at that index.
pub proof fn lemma_valid_rows_are_kept(rows: Seq<Vec<Option<i64>>>)
    requires
        forall|i: int| 0 <= i < rows.len() ==> Measurement::row_is_valid(#[trigger] rows[i]@),
    ensures
        valid_rows(rows).len() == rows.len(),
        forall|i: int|
            0 <= i < rows.len() ==> valid_rows(rows)[i] == Measurement::row_value(
                #[trigger] rows[i]@,
            ),
    decreases rows.len(),
{
    if rows.len() > 0 {
        let front = rows.drop_last();
        assert forall|i: int| 0 <= i < front.len() implies Measurement::row_is_valid(
            #[trigger] front[i]@,
        ) by {
            assert(front[i] == rows[i]);
        }
        lemma_valid_rows_are_kept(front);
        assert forall|i: int| 0 <= i < rows.len() implies valid_rows(rows)[i]
            == Measurement::row_value(#[trigger] rows[i]@) by {
            if i < front.len() {
                assert(front[i] == rows[i]);
            }
        }
    }
}

/// Turns data rows into readings.
///
/// Under `RowPolicy::Abort` the first row that is not valid is reported;
/// under `RowPolicy::Skip` such rows are left out. Input without any valid
/// row is refused in either case.
pub fn collect_rows(rows: &Vec<Vec<Option<i64>>>, policy: RowPolicy) -> (r: Result<
    Vec<Measurement>,
    Error,
>)
    ensures
        forall|i: usize|
            r == Err::<Vec<Measurement>, Error>(Error::MalformedRow(i)) <==> policy
                == RowPolicy::Abort && first_malformed(rows@, i as int),
        r == Err::<Vec<Measurement>, Error>(Error::NoValidData) <==> valid_rows(rows@).len() == 0
            && (policy == RowPolicy::Skip || forall|i: int| !first_malformed(rows@, i)),
        r matches Ok(v) ==> v@ == valid_rows(rows@),
        r matches Err(e) ==> e == Error::NoValidData || e is MalformedRow,
{
    let mut out: Vec<Measurement> = Vec::new();
    let mut i: usize = 0;
    while i < rows.len()
        invariant
            i <= rows.len(),
            out@ == valid_rows(rows@.take(i as int)),
            policy == RowPolicy::Abort ==> forall|j: int|
                0 <= j < i ==> Measurement::row_is_valid(#[trigger] rows@[j]@),
        decreases rows.len() - i,
    {
        assert(rows@.take(i as int + 1).drop_last() == rows@.take(i as int));
        assert(rows@.take(i as int + 1).last() == rows@[i as int]);
        match Measurement::from_fields(&rows[i]) {
            Some(m) => {
                out.push(m);
            },
            None => {
                if policy == RowPolicy::Abort {
                    assert(first_malformed(rows@, i as int));
                    return Err(Error::MalformedRow(i));
                }
            },
        }
        i += 1;
    }
    assert(rows@.take(i as int) == rows@);
    if out.len() == 0 {
        Err(Error::NoValidData)
    } else {
        Ok(out)
    }
}

/// The sum of the heights of sensor `k` over all readings.
pub open spec fn height_sum(readings: Seq<Measurement>, k: int) -> int
    decreases readings.len(),
{
    if readings.len() == 0 {
        0
    } else {
        height_sum(readings.drop_last(), k) + readings.last().height(k)
    }
}

/// The quotient `sum / count` rounded to the nearest integer, a tie upward.
pub open spec fn rounded_mean(sum: int, count: int) -> int {
    (2 * sum + count) / (2 * count)
}

/// The mean of the readings, sensor by sensor, each rounded to the nearest
/// integer.
pub open spec fn mean_of(readings: Seq<Measurement>) -> Measurement {
    Measurement(
        rounded_mean(height_sum(readings, 0), readings.len() as int) as i64,
        rounded_mean(height_sum(readings, 1), readings.len() as int) as i64,
        rounded_mean(height_sum(readings, 2), readings.len() as int) as i64,
    )
}

proof fn lemma_height_sum_bounds(readings: Seq<Measurement>, k: int)
    ensures
        readings.len() * i64::MIN <= height_sum(readings, k) <= readings.len() * i64::MAX,
    decreases readings.len(),
{
    if readings.len() > 0 {
        lemma_height_sum_bounds(readings.drop_last(), k);
        assert(readings.len() * i64::MIN == readings.drop_last().len() * i64::MIN + i64::MIN)
            by (nonlinear_arith)
            requires
                readings.len() == readings.drop_last().len() + 1,
        ;
        assert(readings.len() * i64::MAX == readings.drop_last().len() * i64::MAX + i64::MAX)
            by (nonlinear_arith)
            requires
                readings.len() == readings.drop_last().len() + 1,
        ;
    }
}

/// The heights of equal readings add up to a multiple of the one height.
proof fn lemma_height_sum_of_equal(readings: Seq<Measurement>, reading: Measurement, k: int)
    requires
        forall|i: int| 0 <= i < readings.len() ==> readings[i] == reading,
    ensures
        height_sum(readings, k) == readings.len() * reading.height(k),
    decreases readings.len(),
{
    if readings.len() > 0 {
        lemma_height_sum_of_equal(readings.drop_last(), reading, k);
        assert(readings.len() * reading.height(k) == readings.drop_last().len() * reading.height(
            k,
        ) + reading.height(k)) by (nonlinear_arith)
            requires
                readings.len() == readings.drop_last().len() + 1,
        ;
    }
}

/// The mean of readings that are all equal is that reading; so is the mean
/// of a single reading.
pub proof fn lemma_mean_of_equal_readings(readings: Seq<Measurement>, reading: Measurement)
    requires
        readings.len() > 0,
        forall|i: int| 0 <= i < readings.len() ==> readings[i] == reading,
    ensures
        mean_of(readings) == reading,
{
    let n = readings.len() as int;
    assert forall|k: int| 0 <= k < 3 implies rounded_mean(height_sum(readings, k), n)
        == reading.height(k) by {
        lemma_height_sum_of_equal(readings, reading, k);
        let h = reading.height(k);
        assert(2 * (n * h) + n == (2 * n) * h + n) by (nonlinear_arith);
        lemma_fundamental_div_mod_converse(2 * (n * h) + n, 2 * n, h, n);
    }
    assert(rounded_mean(height_sum(readings, 0), n) == reading.height(0));
    assert(rounded_mean(height_sum(readings, 1), n) == reading.height(1));
    assert(rounded_mean(height_sum(readings, 2), n) == reading.height(2));
}

/// The mean lies within a half of the true quotient: `2 * count` times the
/// mean differs from twice the sum by at most `count`.
pub proof fn lemma_rounded_mean_is_nearest(sum: int, count: int)
    requires
        count > 0,
    ensures
        2 * sum - count < 2 * count * rounded_mean(sum, count) <= 2 * sum + count,
{
    lemma_fundamental_div_mod(2 * sum + count, 2 * count);
    lemma_mod_bound(2 * sum + count, 2 * count);
}

/// Divides `sum` by `count`, rounding to the nearest integer.
fn mean_of_sum(sum: i128, count: usize) -> (r: i64)
    requires
        count > 0,
        count * i64::MIN <= sum <= count * i64::MAX,
    ensures
        r == rounded_mean(sum as int, count as int),
{
    let n: i128 = count as i128;
    let lower: i128 = i64::MIN as i128;
    let upper: i128 = i64::MAX as i128;
    proof {
        lemma_fundamental_div_mod(sum as int, n as int);
        lemma_mod_bound(sum as int, n as int);
        lemma_div_is_ordered(n * lower, sum as int, n as int);
        lemma_div_is_ordered(sum as int, n * upper, n as int);
        lemma_div_multiples_vanish(lower as int, n as int);
        lemma_div_multiples_vanish(upper as int, n as int);
    }
    // `n` is positive and the quotient lies between `lower` and `upper`, so
    // both operations give a value.
    let floor: i128 = match sum.checked_div_euclid(n) {
        Some(q) => q,
        None => 0,
    };
    let rest: i128 = match sum.checked_rem_euclid(n) {
        Some(m) => m,
        None => 0,
    };
    assert(floor == sum as int / n as int);
    assert(rest == sum as int % n as int);
    assert(sum == n * floor + rest);
    assert(lower <= floor <= upper);
    if 2 * rest >= n {
        proof {
            assert(2 * sum + n == (2 * n) * (floor + 1) + (2 * rest - n)) by (nonlinear_arith)
                requires
                    sum == n * floor + rest,
            ;
            lemma_fundamental_div_mod_converse(
                2 * sum + n,
                2 * n,
                floor + 1,
                2 * rest - n,
            );
            if floor == upper {
                assert(n * floor + rest > n * upper) by (nonlinear_arith)
                    requires
                        floor == upper,
                        rest > 0,
                ;
            }
        }
        (floor + 1) as i64
    } else {
        proof {
            assert(2 * sum + n == (2 * n) * floor + (2 * rest + n)) by (nonlinear_arith)
                requires
                    sum == n * floor + rest,
            ;
            lemma_fundamental_div_mod_converse(2 * sum + n, 2 * n, floor as int, 2 * rest + n);
        }
        floor as i64
    }
}

/// The mean of the readings, sensor by sensor, each rounded to the nearest
/// integer. Without readings there is no mean.
pub fn average(measurements: &[Measurement]) -> (r: Result<Measurement, Error>)
    ensures
        r is Err <==> measurements@.len() == 0,
        r matches Err(e) ==> e == Error::EmptyCalibration,
        r matches Ok(m) ==> m == mean_of(measurements@),
        r matches Ok(m) ==> forall|k: int|
            0 <= k < 3 ==> #[trigger] m.height(k) == rounded_mean(
                height_sum(measurements@, k),
                measurements@.len() as int,
            ),
{
    let count = measurements.len();
    if count == 0 {
        return Err(Error::EmptyCalibration);
    }
    let mut sums: (i128, i128, i128) = (0, 0, 0);
    let mut i: usize = 0;
    while i < count
        invariant
            i <= count,
            count == measurements@.len(),
            sums.0 == height_sum(measurements@.take(i as int), 0),
            sums.1 == height_sum(measurements@.take(i as int), 1),
            sums.2 == height_sum(measurements@.take(i as int), 2),
        decreases count - i,
    {
        let m = measurements[i];
        proof {
            let next = measurements@.take(i as int + 1);
            assert(next.drop_last() == measurements@.take(i as int));
            assert(next.last() == m);
            lemma_height_sum_bounds(next, 0);
            lemma_height_sum_bounds(next, 1);
            lemma_height_sum_bounds(next, 2);
            assert(next.len() * i64::MAX <= usize::MAX * i64::MAX) by (nonlinear_arith)
                requires
                    next.len() <= usize::MAX,
            ;
            assert(next.len() * i64::MIN >= usize::MAX * i64::MIN) by (nonlinear_arith)
                requires
                    next.len() <= usize::MAX,
            ;
        }
        sums = (sums.0 + m.0 as i128, sums.1 + m.1 as i128, sums.2 + m.2 as i128);
        i += 1;
    }
    proof {
        assert(measurements@.take(i as int) == measurements@);
        lemma_height_sum_bounds(measurements@, 0);
        lemma_height_sum_bounds(measurements@, 1);
        lemma_height_sum_bounds(measurements@, 2);
    }
    let m = Measurement(
        mean_of_sum(sums.0, count),
        mean_of_sum(sums.1, count),
        mean_of_sum(sums.2, count),
    );
    assert(m.height(0) == m.0 && m.height(1) == m.1 && m.height(2) == m.2);
    Ok(m)
}

} // verus!
