//! The fixed percentile points of a latency table and the reduction of a
//! sample set to one representative latency per point.
use vstd::prelude::*;
use vstd::relations::{sorted_by, total_ordering};

verus! {

/// Number of points in a percentile table.
pub const PERCENTILE_COUNT: usize = 15;

/// Denominator of a percentile fraction: fractions are kept in ten-thousandths.
pub const FRACTION_SCALE: u64 = 10000;

/// A latency table: one duration, in nanoseconds, per percentile point, in
/// the order of `Percentile`.
pub type Percentiles = [u64; 15];

/// The percentile points, from the smallest sample to the largest.
#[derive(Clone, Copy, Debug, PartialEq, Eq, Structural)]
pub enum Percentile {
    Min,
    P1,
    P2,
    P5,
    P10,
    P25,
    P50,
    P75,
    P90,
    P95,
    P98,
    P99,
    P99_9,
    P99_99,
    Max,
}

/// Fraction of the point at `position` in a table, in ten-thousandths.
pub open spec fn fraction_at(position: int) -> int {
    if position == 0 {
        0
    } else if position == 1 {
        100
    } else if position == 2 {
        200
    } else if position == 3 {
        500
    } else if position == 4 {
        1000
    } else if position == 5 {
        2500
    } else if position == 6 {
        5000
    } else if position == 7 {
        7500
    } else if position == 8 {
        9000
    } else if position == 9 {
        9500
    } else if position == 10 {
        9800
    } else if position == 11 {
        9900
    } else if position == 12 {
        9990
    } else if position == 13 {
        9999
    } else {
        10000
    }
}

/// The point at `position` in a table.
pub open spec fn percentile_at(position: int) -> Percentile {
    if position == 0 {
        Percentile::Min
    } else if position == 1 {
        Percentile::P1
    } else if position == 2 {
        Percentile::P2
    } else if position == 3 {
        Percentile::P5
    } else if position == 4 {
        Percentile::P10
    } else if position == 5 {
        Percentile::P25
    } else if position == 6 {
        Percentile::P50
    } else if position == 7 {
        Percentile::P75
    } else if position == 8 {
        Percentile::P90
    } else if position == 9 {
        Percentile::P95
    } else if position == 10 {
        Percentile::P98
    } else if position == 11 {
        Percentile::P99
    } else if position == 12 {
        Percentile::P99_9
    } else if position == 13 {
        Percentile::P99_99
    } else {
        Percentile::Max
    }
}

impl Percentile {
    /// Position of the point in a table.
    pub open spec fn position(self) -> int {
        match self {
            Percentile::Min => 0,
            Percentile::P1 => 1,
            Percentile::P2 => 2,
            Percentile::P5 => 3,
            Percentile::P10 => 4,
            Percentile::P25 => 5,
            Percentile::P50 => 6,
            Percentile::P75 => 7,
            Percentile::P90 => 8,
            Percentile::P95 => 9,
            Percentile::P98 => 10,
            Percentile::P99 => 11,
            Percentile::P99_9 => 12,
            Percentile::P99_99 => 13,
            Percentile::Max => 14,
        }
    }

    /// Position of the point in a table.
    pub fn index(&self) -> (r: usize)
        ensures
            r == self.position(),
            r < PERCENTILE_COUNT,
    {
        match self {
            Percentile::Min => 0,
            Percentile::P1 => 1,
            Percentile::P2 => 2,
            Percentile::P5 => 3,
            Percentile::P10 => 4,
            Percentile::P25 => 5,
            Percentile::P50 => 6,
            Percentile::P75 => 7,
            Percentile::P90 => 8,
            Percentile::P95 => 9,
            Percentile::P98 => 10,
            Percentile::P99 => 11,
            Percentile::P99_9 => 12,
            Percentile::P99_99 => 13,
            Percentile::Max => 14,
        }
    }

    /// The fraction of samples at or below the point, in ten-thousandths
    /// (`Min` is 0, `P99_9` is 9990, `Max` is 10000).
    pub fn fraction(&self) -> (r: u64)
        ensures
            r == fraction_at(self.position()),
    {
        match self {
            Percentile::Min => 0,
            Percentile::P1 => 100,
            Percentile::P2 => 200,
            Percentile::P5 => 500,
            Percentile::P10 => 1000,
            Percentile::P25 => 2500,
            Percentile::P50 => 5000,
            Percentile::P75 => 7500,
            Percentile::P90 => 9000,
            Percentile::P95 => 9500,
            Percentile::P98 => 9800,
            Percentile::P99 => 9900,
            Percentile::P99_9 => 9990,
            Percentile::P99_99 => 9999,
            Percentile::Max => 10000,
        }
    }

    /// The label shown for the point in a results table.
    pub fn name(&self) -> (r: &'static str)
        ensures
            r@ == match self {
                Percentile::Min => "Min   "@,
                Percentile::P1 => "1   "@,
                Percentile::P2 => "2   "@,
                Percentile::P5 => "5   "@,
                Percentile::P10 => "10   "@,
                Percentile::P25 => "25   "@,
                Percentile::P50 => "50   "@,
                Percentile::P75 => "75   "@,
                Percentile::P90 => "90   "@,
                Percentile::P95 => "95   "@,
                Percentile::P98 => "98   "@,
                Percentile::P99 => "99   "@,
                Percentile::P99_9 => "99.9 "@,
                Percentile::P99_99 => "99.99"@,
                Percentile::Max => "Max   "@,
            },
    {
        match self {
            Percentile::Min => "Min   ",
            Percentile::P1 => "1   ",
            Percentile::P2 => "2   ",
            Percentile::P5 => "5   ",
            Percentile::P10 => "10   ",
            Percentile::P25 => "25   ",
            Percentile::P50 => "50   ",
            Percentile::P75 => "75   ",
            Percentile::P90 => "90   ",
            Percentile::P95 => "95   ",
            Percentile::P98 => "98   ",
            Percentile::P99 => "99   ",
            Percentile::P99_9 => "99.9 ",
            Percentile::P99_99 => "99.99",
            Percentile::Max => "Max   ",
        }
    }

    /// The point at a position of a table.
    pub fn from_index(position: usize) -> (r: Percentile)
        requires
            position < PERCENTILE_COUNT,
        ensures
            r == percentile_at(position as int),
            r.position() == position,
    {
        if position == 0 {
            Percentile::Min
        } else if position == 1 {
            Percentile::P1
        } else if position == 2 {
            Percentile::P2
        } else if position == 3 {
            Percentile::P5
        } else if position == 4 {
            Percentile::P10
        } else if position == 5 {
            Percentile::P25
        } else if position == 6 {
            Percentile::P50
        } else if position == 7 {
            Percentile::P75
        } else if position == 8 {
            Percentile::P90
        } else if position == 9 {
            Percentile::P95
        } else if position == 10 {
            Percentile::P98
        } else if position == 11 {
            Percentile::P99
        } else if position == 12 {
            Percentile::P99_9
        } else if position == 13 {
            Percentile::P99_99
        } else {
            Percentile::Max
        }
    }

    /// Every point, in table order.
    pub fn all() -> (r: Vec<Percentile>)
        ensures
            r@.len() == PERCENTILE_COUNT,
            forall|i: int| 0 <= i < PERCENTILE_COUNT ==> (#[trigger] r@[i]).position() == i,
    {
        let mut r: Vec<Percentile> = Vec::new();
        let mut i: usize = 0;
        while i < PERCENTILE_COUNT
            invariant
                i <= PERCENTILE_COUNT,
                r@.len() == i,
                forall|j: int| 0 <= j < i ==> (#[trigger] r@[j]).position() == j,
            decreases PERCENTILE_COUNT - i,
        {
            r.push(Percentile::from_index(i));
            i = i + 1;
        }
        r
    }
}

/// Ascending order on samples.
pub open spec fn ascending() -> spec_fn(u64, u64) -> bool {
    |a: u64, b: u64| a <= b
}

/// The samples in ascending order.
pub open spec fn sorted_samples(times: Seq<u64>) -> Seq<u64> {
    times.sort_by(ascending())
}

/// Index of the sample read for the point at `position` in a sorted set of
/// `n` samples: `floor(fraction * n)`, capped at the last sample.
pub open spec fn sample_index(position: int, n: int) -> int {
    let raw = fraction_at(position) * n / (FRACTION_SCALE as int);
    if raw < n - 1 {
        raw
    } else {
        n - 1
    }
}

/// The percentile table of a set of samples: all zero for no samples, else
/// for each point the sorted sample at its index.
pub open spec fn percentile_table(times: Seq<u64>) -> Seq<u64> {
    if times.len() == 0 {
        Seq::new(PERCENTILE_COUNT as nat, |i: int| 0u64)
    } else {
        Seq::new(
            PERCENTILE_COUNT as nat,
            |i: int| sorted_samples(times)[sample_index(i, times.len() as int)],
        )
    }
}

/// Relies on `slice::sort` of std: the slice ends up holding the same
/// items, in ascending order.
#[verifier::external_body]
fn sort_ascending(v: &mut Vec<u64>)
    ensures
        final(v)@.to_multiset() == old(v)@.to_multiset(),
        sorted_by(final(v)@, ascending()),
{
    v.sort();
}

proof fn lemma_ascending_total()
    ensures
        total_ordering(ascending()),
{
}

/// Two ascending sequences with the same items are equal.
proof fn lemma_sorted_unique(a: Seq<u64>, b: Seq<u64>)
    requires
        sorted_by(a, ascending()),
        sorted_by(b, ascending()),
        a.to_multiset() == b.to_multiset(),
    ensures
        a == b,
    decreases a.len(),
{
    broadcast use vstd::seq_lib::group_to_multiset_ensures;

    assert(a.len() == a.to_multiset().len());
    assert(b.len() == b.to_multiset().len());
    if a.len() > 0 {
        assert(a.to_multiset().count(a[0]) > 0) by {
            assert(a.contains(a[0]));
        }
        assert(b.contains(a[0]));
        assert(b.to_multiset().count(b[0]) > 0) by {
            assert(b.contains(b[0]));
        }
        assert(a.contains(b[0]));
        let ia = choose|i: int| 0 <= i < a.len() && a[i] == b[0];
        let ib = choose|i: int| 0 <= i < b.len() && b[i] == a[0];
        if ia > 0 {
            assert(ascending()(a[0], a[ia]));
        }
        if ib > 0 {
            assert(ascending()(b[0], b[ib]));
        }
        assert(a[0] == b[0]);
        let ra = a.remove(0);
        let rb = b.remove(0);
        assert(ra.to_multiset() == b.to_multiset().remove(b[0]));
        assert forall|i: int, j: int| 0 <= i < j < ra.len() implies #[trigger] ascending()(
            ra[i],
            ra[j],
        ) by {
            assert(ascending()(a[i + 1], a[j + 1]));
        }
        assert forall|i: int, j: int| 0 <= i < j < rb.len() implies #[trigger] ascending()(
            rb[i],
            rb[j],
        ) by {
            assert(ascending()(b[i + 1], b[j + 1]));
        }
        lemma_sorted_unique(ra, rb);
        assert(a =~= seq![a[0]] + ra);
        assert(b =~= seq![b[0]] + rb);
    } else {
        assert(a =~= b);
    }
}

/// The sorted sample that a sort leaves is the one the table is defined by.
proof fn lemma_sorted_is_canonical(times: Seq<u64>, sorted: Seq<u64>)
    requires
        sorted.to_multiset() == times.to_multiset(),
        sorted_by(sorted, ascending()),
    ensures
        sorted == sorted_samples(times),
        sorted.len() == times.len(),
{
    broadcast use vstd::seq_lib::group_to_multiset_ensures;

    lemma_ascending_total();
    times.lemma_sort_by_ensures(ascending());
    lemma_sorted_unique(sorted, sorted_samples(times));
    assert(sorted.len() == sorted.to_multiset().len());
    assert(times.len() == times.to_multiset().len());
}

/// Reduces a set of latency samples (nanoseconds) to a percentile table.
///
/// The samples are sorted ascending; the point with fraction `f` takes the
/// sample at `floor(f * n)`, capped at the last one. With no samples every
/// entry is zero.
pub fn calculate_percentiles(times: Vec<u64>) -> (r: Percentiles)
    ensures
        r@ == percentile_table(times@),
{
    let ghost original = times@;
    let mut times = times;
    let mut percentiles: Percentiles = [0u64; 15];
    sort_ascending(&mut times);
    proof {
        lemma_sorted_is_canonical(original, times@);
    }
    let n = times.len();
    if n > 0 {
        let mut i: usize = 0;
        while i < PERCENTILE_COUNT
            invariant
                i <= PERCENTILE_COUNT,
                n == times@.len(),
                n > 0,
                times@ == sorted_samples(original),
                original.len() == n,
                forall|j: int|
                    0 <= j < i ==> percentiles@[j] == sorted_samples(original)[sample_index(
                        j,
                        n as int,
                    )],
            decreases PERCENTILE_COUNT - i,
        {
            let fraction = Percentile::from_index(i).fraction();
            assert(0 <= fraction <= FRACTION_SCALE);
            let raw: u128 = (fraction as u128) * (n as u128) / (FRACTION_SCALE as u128);
            proof {
                assert((fraction as int) * (n as int) <= 10000 * (n as int)) by (nonlinear_arith)
                    requires
                        fraction <= 10000,
                ;
                assert((fraction as int) * (n as int) >= 0) by (nonlinear_arith)
                    requires
                        fraction >= 0,
                        n >= 0,
                ;
                assert(((fraction as int) * (n as int)) / 10000 <= n) by (nonlinear_arith)
                    requires
                        (fraction as int) * (n as int) <= 10000 * (n as int),
                ;
            }
            let index: usize = if raw < (n - 1) as u128 {
                raw as usize
            } else {
                n - 1
            };
            percentiles[i] = times[index];
            i = i + 1;
        }
    }
    assert(percentiles@ =~= percentile_table(original));
    percentiles
}

/// Percentile correctness: the table of a non-empty sample set is ascending,
/// starts at the smallest sample, ends at the largest, and takes for each
/// point the sorted sample at `min(floor(f * n), n - 1)`; the table of no
/// samples is all zero.
pub proof fn lemma_percentile_table(times: Seq<u64>)
    ensures
        percentile_table(times).len() == PERCENTILE_COUNT,
        times.len() == 0 ==> forall|i: int|
            0 <= i < PERCENTILE_COUNT ==> #[trigger] percentile_table(times)[i] == 0,
        times.len() > 0 ==> {
            let t = percentile_table(times);
            &&& forall|i: int, j: int|
                0 <= i <= j < PERCENTILE_COUNT ==> #[trigger] t[i] <= #[trigger] t[j]
            &&& times.contains(t[0])
            &&& forall|k: int| 0 <= k < times.len() ==> t[0] <= #[trigger] times[k]
            &&& times.contains(t[PERCENTILE_COUNT - 1])
            &&& forall|k: int| 0 <= k < times.len() ==> #[trigger] times[k] <= t[PERCENTILE_COUNT - 1]
            &&& forall|i: int|
                0 <= i < PERCENTILE_COUNT ==> #[trigger] t[i] == sorted_samples(times)[sample_index(
                    i,
                    times.len() as int,
                )]
        },
{
    broadcast use vstd::seq_lib::group_to_multiset_ensures;

    if times.len() > 0 {
        let n = times.len() as int;
        let s = sorted_samples(times);
        let t = percentile_table(times);
        lemma_ascending_total();
        times.lemma_sort_by_ensures(ascending());
        assert(s.len() == n) by {
            assert(s.len() == s.to_multiset().len());
            assert(times.len() == times.to_multiset().len());
        }
        assert forall|i: int, j: int| 0 <= i <= j < PERCENTILE_COUNT implies #[trigger] t[i]
            <= #[trigger] t[j] by {
            let fi = fraction_at(i);
            let fj = fraction_at(j);
            assert(fi <= fj);
            assert(fi * n <= fj * n) by (nonlinear_arith)
                requires
                    fi <= fj,
                    n > 0,
            ;
            assert(fi * n / 10000 <= fj * n / 10000) by (nonlinear_arith)
                requires
                    fi * n <= fj * n,
            ;
            assert(0 <= fi * n) by (nonlinear_arith)
                requires
                    0 <= fi,
                    n > 0,
            ;
            let a = sample_index(i, n);
            let b = sample_index(j, n);
            assert(0 <= a <= b < n);
            if a < b {
                assert(ascending()(s[a], s[b]));
            }
        }
        assert(sample_index(0, n) == 0);
        assert(sample_index(PERCENTILE_COUNT - 1, n) == n - 1) by {
            assert(10000 * n / 10000 == n) by (nonlinear_arith);
        }
        assert(s.contains(s[0]));
        assert(s.contains(s[n - 1]));
        assert forall|k: int| 0 <= k < n implies t[0] <= #[trigger] times[k]
            && times[k] <= t[PERCENTILE_COUNT - 1] by {
            assert(times.contains(times[k]));
            assert(times.to_multiset().count(times[k]) > 0);
            assert(s.contains(times[k]));
            let m = choose|m: int| 0 <= m < n && s[m] == times[k];
            if m > 0 {
                assert(ascending()(s[0], s[m]));
            }
            if m < n - 1 {
                assert(ascending()(s[m], s[n - 1]));
            }
        }
        assert(s.to_multiset().count(s[0]) > 0);
        assert(s.to_multiset().count(s[n - 1]) > 0);
    }
}

} // verus!
