//! The guest computation: validates a candidate tour against a distance
//! matrix and computes the exact total length of the closed tour. This is
//! the deterministic, side-effect-free core whose outputs are committed as
//! the public journal.

use vstd::prelude::*;

verus! {

/// True when `tour` visits each of the cities `0..n` exactly once:
/// every entry is in range and no city repeats.
pub open spec fn tour_is_permutation(n: int, tour: Seq<usize>) -> bool {
    &&& tour.len() == n
    &&& forall|i: int| 0 <= i < tour.len() ==> (#[trigger] tour[i]) < n
    &&& forall|i: int, j: int| 0 <= i < j < tour.len() ==> tour[i] != tour[j]
}

/// The distance of the edge leaving position `i` of the tour: from city
/// `tour[i]` to its cyclic successor (the tour is a closed loop, so the
/// successor of the last position is position 0).
pub open spec fn edge_cost(dist: Seq<u64>, n: int, tour: Seq<usize>, i: int) -> int {
    let from = tour[i] as int;
    let to = tour[if i + 1 == n { 0 } else { i + 1 }] as int;
    dist[from * n + to] as int
}

/// The sum of the first `k` edge costs of the closed tour.
pub open spec fn prefix_cost(dist: Seq<u64>, n: int, tour: Seq<usize>, k: int) -> int
    decreases k,
{
    if k <= 0 {
        0
    } else {
        prefix_cost(dist, n, tour, k - 1) + edge_cost(dist, n, tour, k - 1)
    }
}

/// The total length of the closed tour: the cyclic sum over all `n` edges,
/// including the wrap-around edge from the last city back to the first.
pub open spec fn total_cost(dist: Seq<u64>, n: int, tour: Seq<usize>) -> int {
    prefix_cost(dist, n, tour, n)
}

proof fn lemma_prefix_cost_monotonic(dist: Seq<u64>, n: int, tour: Seq<usize>, k1: int, k2: int)
    requires
        k1 <= k2,
    ensures
        prefix_cost(dist, n, tour, k1) <= prefix_cost(dist, n, tour, k2),
    decreases k2 - k1,
{
    if k1 < k2 {
        lemma_prefix_cost_monotonic(dist, n, tour, k1, k2 - 1);
    }
}

/// Checks that `tour` is a permutation of the cities `0..n`, by a single
/// linear pass that keeps a visited marker per city and rejects any entry
/// that is out of range or already marked.
pub fn validate_tour(n: usize, tour: &Vec<usize>) -> (ok: bool)
    requires
        tour@.len() == n,
    ensures
        ok == tour_is_permutation(n as int, tour@),
{
    let mut visited: Vec<bool> = Vec::new();
    let mut c: usize = 0;
    while c < n
        invariant
            c <= n,
            visited@.len() == c,
            forall|x: int| 0 <= x < c ==> !(#[trigger] visited@[x]),
        decreases n - c,
    {
        visited.push(false);
        c = c + 1;
    }
    let mut k: usize = 0;
    while k < n
        invariant
            k <= n,
            n == tour@.len(),
            visited@.len() == n,
            forall|j: int| 0 <= j < k ==> (#[trigger] tour@[j]) < n,
            forall|i: int, j: int| 0 <= i < j < k ==> tour@[i] != tour@[j],
            forall|x: int|
                0 <= x < n ==> ((#[trigger] visited@[x]) <==> exists|j: int|
                    0 <= j < k && tour@[j] == x),
        decreases n - k,
    {
        let city = tour[k];
        if city >= n {
            assert(!tour_is_permutation(n as int, tour@)) by {
                assert(tour@[k as int] >= n);
            }
            return false;
        }
        if visited[city] {
            assert(!tour_is_permutation(n as int, tour@)) by {
                let j = choose|j: int| 0 <= j < k && tour@[j] == city as int;
                assert(tour@[j] == tour@[k as int]);
            }
            return false;
        }
        visited.set(city, true);
        proof {
            assert forall|x: int|
                0 <= x < n implies ((#[trigger] visited@[x]) <==> exists|j: int|
                    0 <= j < k + 1 && tour@[j] == x) by {
                if x == city as int {
                    assert(tour@[k as int] == x);
                } else {
                    if exists|j: int| 0 <= j < k + 1 && tour@[j] == x {
                        let j = choose|j: int| 0 <= j < k + 1 && tour@[j] == x;
                        assert(j < k);
                    }
                }
            }
        }
        k = k + 1;
    }
    true
}

/// Computes the total length of the closed tour, adding the matrix entry of
/// every consecutive pair of cities (wrap-around edge included) with
/// overflow-checked addition. Returns `None` exactly when the mathematical
/// sum does not fit in 64 bits.
pub fn tour_length(n: usize, dist: &Vec<u64>, tour: &Vec<usize>) -> (r: Option<u64>)
    requires
        dist@.len() == n * n,
        tour_is_permutation(n as int, tour@),
    ensures
        match r {
            Some(t) => t == total_cost(dist@, n as int, tour@),
            None => total_cost(dist@, n as int, tour@) > u64::MAX,
        },
{
    let dl = dist.len();
    let mut total: u64 = 0;
    let mut i: usize = 0;
    while i < n
        invariant
            i <= n,
            n == tour@.len(),
            dl == dist@.len(),
            dist@.len() == n * n,
            tour_is_permutation(n as int, tour@),
            total == prefix_cost(dist@, n as int, tour@, i as int),
        decreases n - i,
    {
        let from = tour[i];
        let to = if i + 1 == n {
            tour[0]
        } else {
            tour[i + 1]
        };
        proof {
            assert(from * n + to < n * n) by (nonlinear_arith)
                requires
                    (from as int) < n as int,
                    (to as int) < n as int,
            ;
        }
        let idx = from * n + to;
        let d = dist[idx];
        assert(d == edge_cost(dist@, n as int, tour@, i as int));
        match total.checked_add(d) {
            Some(t) => {
                total = t;
            }
            None => {
                proof {
                    lemma_prefix_cost_monotonic(
                        dist@,
                        n as int,
                        tour@,
                        i as int + 1,
                        n as int,
                    );
                }
                return None;
            }
        }
        i = i + 1;
    }
    Some(total)
}

/// Failure of the guest computation: the tour is not a permutation of the
/// cities, or the total-length accumulator overflowed.
#[derive(Clone, Copy, Debug, PartialEq, Eq)]
pub enum GuestError {
    InvalidTour,
    Overflow,
}

/// The public outputs committed by the guest computation, in commit order:
/// first the distance matrix, verbatim, then the total tour length.
#[derive(Debug)]
pub struct GuestOutput {
    pub distances: Vec<u64>,
    pub total: u64,
}

impl GuestOutput {
    /// The journal of this run: the committed outputs in commit order, in
    /// the byte form the proving engine carries them.
    pub fn journal(&self) -> (j: Vec<u8>)
        requires
            self.distances@.len() < 0x1_0000_0000,
        ensures
            j@ == crate::codec::journal_bytes(self.distances@, self.total),
    {
        crate::codec::encode_journal(&self.distances, self.total)
    }
}

/// Copies a distance matrix entry for entry.
fn copy_distances(dist: &Vec<u64>) -> (c: Vec<u64>)
    ensures
        c@ == dist@,
{
    let mut out: Vec<u64> = Vec::new();
    let mut k: usize = 0;
    while k < dist.len()
        invariant
            k <= dist@.len(),
            out@ == dist@.take(k as int),
        decreases dist@.len() - k,
    {
        out.push(dist[k]);
        proof {
            assert(out@ =~= dist@.take(k as int + 1));
        }
        k = k + 1;
    }
    proof {
        assert(dist@.take(dist@.len() as int) =~= dist@);
    }
    out
}

/// The whole guest computation: commits the distance matrix as the first
/// public output, validates the tour, computes the total closed-tour length
/// with overflow-checked addition, and commits it as the second public
/// output. Succeeds exactly when the tour is a permutation of the cities and
/// the total fits in 64 bits; a failed run commits nothing.
pub fn run_guest(n: usize, dist: &Vec<u64>, tour: &Vec<usize>) -> (r: Result<
    GuestOutput,
    GuestError,
>)
    requires
        dist@.len() == n * n,
        tour@.len() == n,
    ensures
        match r {
            Ok(out) => {
                &&& tour_is_permutation(n as int, tour@)
                &&& out.distances@ == dist@
                &&& out.total == total_cost(dist@, n as int, tour@)
            },
            Err(GuestError::InvalidTour) => !tour_is_permutation(n as int, tour@),
            Err(GuestError::Overflow) => tour_is_permutation(n as int, tour@)
                && total_cost(dist@, n as int, tour@) > u64::MAX,
        },
{
    if !validate_tour(n, tour) {
        return Err(GuestError::InvalidTour);
    }
    match tour_length(n, dist, tour) {
        Some(total) => Ok(GuestOutput { distances: copy_distances(dist), total }),
        None => Err(GuestError::Overflow),
    }
}

} // verus!
