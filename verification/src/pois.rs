//! The reference set of points of interest, and the nearest-within-threshold
//! query used to annotate stopped rows.

use vstd::prelude::*;
use crate::geo::Coordinate;

verus! {

/// An ordered set of reference coordinates; a point's identity is its index.
pub struct Pois {
    pub pois: Vec<Coordinate>,
}

/// `i` is the position of the minimum of `s`, taking the first position
/// on ties: no element is smaller, and every earlier element is strictly
/// larger.
pub open spec fn min_at_first(s: Seq<i64>, i: int) -> bool {
    &&& 0 <= i < s.len()
    &&& forall|j: int| 0 <= j < s.len() ==> s[i] <= #[trigger] s[j]
    &&& forall|j: int| 0 <= j < i ==> s[i] < #[trigger] s[j]
}

impl Pois {
    pub fn new(pois: Vec<Coordinate>) -> (r: Pois)
        ensures
            r.pois@ == pois@,
    {
        Pois { pois }
    }

    pub fn len(&self) -> (r: usize)
        ensures
            r == self.pois@.len(),
    {
        self.pois.len()
    }

    /// Identity of the point of interest nearest to a query position, or
    /// minus one when even the nearest lies at or beyond `threshold`.
    /// `dists` holds the great-circle distance from the query position to
    /// each point of interest, in micro-nautical-miles, in index order; on
    /// equally distant points the earlier index wins.
    pub fn nearest(&self, dists: &Vec<i64>, threshold: i64) -> (r: i32)
        requires
            dists@.len() == self.pois@.len(),
            dists@.len() > 0,
            dists@.len() <= i32::MAX,
        ensures
            r == -1 || 0 <= r < dists@.len(),
            r == -1 <==> forall|j: int| 0 <= j < dists@.len() ==> #[trigger] dists@[j] >= threshold,
            r != -1 ==> min_at_first(dists@, r as int) && dists@[r as int] < threshold,
    {
        let n = dists.len();
        let mut best: usize = 0;
        let mut j: usize = 1;
        while j < n
            invariant
                1 <= j <= n,
                n == dists@.len(),
                0 <= best < j,
                forall|q: int| 0 <= q < j ==> dists@[best as int] <= #[trigger] dists@[q],
                forall|q: int| 0 <= q < best ==> dists@[best as int] < #[trigger] dists@[q],
            decreases n - j,
        {
            if dists[j] < dists[best] {
                best = j;
            }
            j = j + 1;
        }
        if dists[best] < threshold {
            best as i32
        } else {
            -1
        }
    }
}

} // verus!
