//! The two built-in point datasets.
//!
//! Each resolution tier is backed by one fixed, ordered table of world
//! coordinates. A coordinate is a pair of integers in tenths of a degree:
//! the first component ranges over `[-1800, 1800]` (longitude), the second
//! over `[-900, 900]` (latitude). The tables are pre-baked: they are
//! generated by a fixed integer recurrence, so every call enumerates the
//! identical ordered sequence, and nothing ever mutates them.

use vstd::assert_seqs_equal;
use vstd::prelude::*;

use crate::resolution::MapResolution;

verus! {

/// How many points back a tier: a fixed count, about a thousand for the
/// low tier and about five thousand for the high one.
pub open spec fn dataset_len(r: MapResolution) -> nat {
    match r {
        MapResolution::Low => 1000,
        MapResolution::High => 5000,
    }
}

/// The first coordinate (tenths of a degree of longitude) of point `i` of
/// the dataset behind tier `r`.
pub open spec fn dataset_x(r: MapResolution, i: int) -> int {
    match r {
        MapResolution::Low => (i * 7) % 3601 - 1800,
        MapResolution::High => (i * 11) % 3601 - 1800,
    }
}

/// The second coordinate (tenths of a degree of latitude) of point `i` of
/// the dataset behind tier `r`.
pub open spec fn dataset_y(r: MapResolution, i: int) -> int {
    match r {
        MapResolution::Low => (i * 13) % 1801 - 900,
        MapResolution::High => (i * 29) % 1801 - 900,
    }
}

/// The whole dataset behind a tier, in the order a draw enumerates it.
pub open spec fn spec_data(r: MapResolution) -> Seq<(int, int)> {
    Seq::new(dataset_len(r), |i: int| (dataset_x(r, i), dataset_y(r, i)))
}

/// Holds when an executable point table is exactly the dataset behind `r`,
/// point for point and in the same order.
pub open spec fn data_matches(r: MapResolution, s: Seq<(i64, i64)>) -> bool {
    &&& s.len() == dataset_len(r)
    &&& forall|i: int|
        #![trigger s[i]]
        0 <= i < s.len() ==> s[i].0 == dataset_x(r, i) && s[i].1 == dataset_y(r, i)
}

impl MapResolution {
    /// The point dataset backing this tier.
    ///
    /// Total and error-free: every tier maps to a non-empty table, and the
    /// table is the same ordered sequence on every call.
    pub fn data(self) -> (r: Vec<(i64, i64)>)
        ensures
            data_matches(self, r@),
    {
        let n: usize = match self {
            MapResolution::Low => 1000,
            MapResolution::High => 5000,
        };
        let mut v: Vec<(i64, i64)> = Vec::new();
        let mut i: usize = 0;
        while i < n
            invariant
                i <= n,
                n == dataset_len(self),
                v@.len() == i,
                forall|j: int|
                    #![trigger v@[j]]
                    0 <= j < i ==> v@[j].0 == dataset_x(self, j) && v@[j].1 == dataset_y(self, j),
            decreases n - i,
        {
            let k: i64 = i as i64;
            let p: (i64, i64) = match self {
                MapResolution::Low => ((k * 7) % 3601 - 1800, (k * 13) % 1801 - 900),
                MapResolution::High => ((k * 11) % 3601 - 1800, (k * 29) % 1801 - 900),
            };
            v.push(p);
            i = i + 1;
        }
        v
    }
}

/// The two datasets have fixed, non-empty lengths, and the high tier is
/// strictly larger than the low one.
pub proof fn lemma_datasets_fixed_and_distinct()
    ensures
        spec_data(MapResolution::Low).len() == 1000,
        spec_data(MapResolution::High).len() == 5000,
        0 < spec_data(MapResolution::Low).len(),
        spec_data(MapResolution::Low).len() < spec_data(MapResolution::High).len(),
{
}

/// The dataset behind a tier is stable: any two tables that a tier's
/// accessor may hand out are the same sequence, point for point.
pub proof fn lemma_data_stable(r: MapResolution, a: Seq<(i64, i64)>, b: Seq<(i64, i64)>)
    requires
        data_matches(r, a),
        data_matches(r, b),
    ensures
        a == b,
{
    assert_seqs_equal!(a == b, i => {
        assert(a[i].0 == dataset_x(r, i) && a[i].1 == dataset_y(r, i));
        assert(b[i].0 == dataset_x(r, i) && b[i].1 == dataset_y(r, i));
    });
}

} // verus!
