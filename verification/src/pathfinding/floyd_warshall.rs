use vstd::prelude::*;
use crate::pathfinding::bfs::unreached_map;
use crate::pathfinding::flow::{Exits, UNREACHED, graph_ok, is_first_highest, is_first_lowest};

verus! {

/// An all-pairs distance map: `depth_map[start * n + end]` is the lowest cost
/// found from tile `start` to tile `end`, where `n = size_x * size_y`.
pub struct FloydWarshallMap {
    pub depth_map: Vec<u32>,
    pub size_x: usize,
    pub size_y: usize,
    pub max_depth: u32,
}

/// The entry for the pair `(s, e)` in a flattened `n` by `n` matrix.
pub open spec fn at(d: Seq<u32>, n: int, s: int, e: int) -> u32 {
    d[s * n + e]
}

/// The row of distances from `p` in a flattened `n` by `n` matrix.
pub open spec fn row_of(d: Seq<u32>, n: int, p: int) -> Seq<u32> {
    Seq::new(n as nat, |t: int| at(d, n, p, t))
}

/// The lesser of two integers.
pub open spec fn min_int(a: int, b: int) -> int {
    if a <= b {
        a
    } else {
        b
    }
}

/// The matrix before the relaxation rounds: each exit sets the entry from
/// its tile to its target (a later exit to the same target wins), each tile
/// is at distance 0 from itself unless it has an exit to itself, and every
/// other entry keeps what it held.
pub open spec fn initial_matrix(g: Seq<Vec<(usize, u32)>>, n: int, before: Seq<u32>, s: int, e: int) -> int {
    last_exit_cost(g[s]@, e, diagonal_base(n, before, s, e))
}

/// The cost of the last exit in `edges` that leads to `e`, or `default` when
/// none does.
pub open spec fn last_exit_cost(edges: Seq<(usize, u32)>, e: int, default: int) -> int
    decreases edges.len(),
{
    if edges.len() == 0 {
        default
    } else if edges.last().0 == e {
        edges.last().1 as int
    } else {
        last_exit_cost(edges.drop_last(), e, default)
    }
}

/// The entry before any exit is applied: 0 on the diagonal, the old entry
/// elsewhere.
pub open spec fn diagonal_base(n: int, before: Seq<u32>, s: int, e: int) -> int {
    if s == e {
        0
    } else {
        before[s * n + e] as int
    }
}

/// Flattened indices of distinct pairs are distinct and in range.
proof fn lemma_flat_index(n: int, s: int, e: int, s2: int, e2: int)
    requires
        0 <= s < n,
        0 <= e < n,
        0 <= s2 < n,
        0 <= e2 < n,
    ensures
        0 <= s * n + e < n * n,
        (s * n + e == s2 * n + e2) <==> (s == s2 && e == e2),
{
    assert(0 <= s * n + e < n * n) by (nonlinear_arith)
        requires 0 <= s < n, 0 <= e < n;
    if s * n + e == s2 * n + e2 {
        if s < s2 {
            assert(s * n + e < s2 * n + e2) by (nonlinear_arith)
                requires s < s2, 0 <= e < n, 0 <= e2;
        }
        if s2 < s {
            assert(s2 * n + e2 < s * n + e) by (nonlinear_arith)
                requires s2 < s, 0 <= e2 < n, 0 <= e;
        }
    }
}

/// Distances are never negative.
pub(crate) proof fn lemma_fw_nonneg(g: Seq<Vec<(usize, u32)>>, n: int, before: Seq<u32>, k: int, s: int, e: int)
    ensures
        fw_dist(g, n, before, k, s, e) >= 0,
    decreases k,
{
    if k <= 0 {
        lemma_last_exit_nonneg(g[s]@, e, diagonal_base(n, before, s, e));
    } else {
        lemma_fw_nonneg(g, n, before, k - 1, s, e);
        lemma_fw_nonneg(g, n, before, k - 1, s, k - 1);
        lemma_fw_nonneg(g, n, before, k - 1, k - 1, e);
    }
}

proof fn lemma_last_exit_nonneg(edges: Seq<(usize, u32)>, e: int, default: int)
    requires
        default >= 0,
    ensures
        last_exit_cost(edges, e, default) >= 0,
    decreases edges.len(),
{
    if edges.len() > 0 {
        lemma_last_exit_nonneg(edges.drop_last(), e, default);
    }
}

/// Allowing tile `m` as a midpoint does not change distances from or to `m`.
pub(crate) proof fn lemma_fw_pivot_stable(g: Seq<Vec<(usize, u32)>>, n: int, before: Seq<u32>, m: int, x: int)
    requires
        m >= 0,
    ensures
        fw_dist(g, n, before, m + 1, x, m) == fw_dist(g, n, before, m, x, m),
        fw_dist(g, n, before, m + 1, m, x) == fw_dist(g, n, before, m, m, x),
{
    lemma_fw_nonneg(g, n, before, m, m, m);
}

/// The distance from `s` to `e` once the tiles `0..k` may be passed through:
/// either the distance without tile `k - 1`, or the way through it.
pub open spec fn fw_dist(g: Seq<Vec<(usize, u32)>>, n: int, before: Seq<u32>, k: int, s: int, e: int) -> int
    decreases k,
{
    if k <= 0 {
        initial_matrix(g, n, before, s, e)
    } else {
        min_int(
            fw_dist(g, n, before, k - 1, s, e),
            fw_dist(g, n, before, k - 1, s, k - 1) + fw_dist(g, n, before, k - 1, k - 1, e),
        )
    }
}

impl FloydWarshallMap {
    /// The matrix holds one entry per pair of tiles.
    pub open spec fn wf(&self) -> bool {
        &&& self.size_x * self.size_y <= usize::MAX
        &&& self.size_x * self.size_y * (self.size_x * self.size_y) <= usize::MAX
        &&& self.depth_map@.len() == self.tiles() * self.tiles()
    }

    /// The number of tiles, `size_x * size_y`.
    pub open spec fn tiles(&self) -> int {
        self.size_x * self.size_y
    }

    /// The entries of the matrix.
    pub open spec fn depths(&self) -> Seq<u32> {
        self.depth_map@
    }

    /// The depth beyond which no exit is preferred.
    pub open spec fn max_depth_spec(&self) -> u32 {
        self.max_depth
    }

    /// Builds a new Floyd-Warshall map for the given exits.
    pub fn new(size_x: usize, size_y: usize, exits: &Exits, max_depth: u32) -> (fm: FloydWarshallMap)
        requires
            size_x * size_y <= usize::MAX,
            size_x * size_y * (size_x * size_y) <= usize::MAX,
            graph_ok(exits@, size_x * size_y),
        ensures
            fm.wf(),
            fm.tiles() == size_x * size_y,
            fm.max_depth_spec() == max_depth,
            fm.depths().len() == fm.tiles() * fm.tiles(),
            forall|s: int, e: int|
                0 <= s < fm.tiles() && 0 <= e < fm.tiles() ==> at(fm.depths(), fm.tiles(), s, e)
                    == fw_dist(
                    exits@,
                    fm.tiles(),
                    Seq::new((fm.tiles() * fm.tiles()) as nat, |i: int| UNREACHED),
                    fm.tiles(),
                    s,
                    e,
                ),
    {
        let n = size_x * size_y;
        proof {
            assert(n * n <= usize::MAX);
        }
        let mut fm = FloydWarshallMap { depth_map: unreached_map(n * n), size_x, size_y, max_depth };
        FloydWarshallMap::build(&mut fm, exits);
        fm
    }

    /// Converts a start tile and an end tile into an index in the flattened
    /// matrix.
    pub fn idx_helper(&self, start_idx: usize, end_idx: usize) -> (idx: usize)
        requires
            self.wf(),
            start_idx < self.tiles(),
            end_idx < self.tiles(),
        ensures
            idx == start_idx * self.tiles() + end_idx,
            idx < self.depths().len(),
    {
        let n = self.size_x * self.size_y;
        proof {
            assert(start_idx * n + end_idx < n * n) by (nonlinear_arith)
                requires start_idx < n, end_idx < n;
        }
        start_idx * n + end_idx
    }

    /// Builds the map: each tile is at 0 from itself, each exit sets the
    /// entry from its tile to its target, then every tile in turn is allowed
    /// as a midpoint.
    pub fn build(fm: &mut FloydWarshallMap, exits: &Exits)
        requires
            old(fm).wf(),
            graph_ok(exits@, old(fm).tiles()),
        ensures
            final(fm).wf(),
            final(fm).tiles() == old(fm).tiles(),
            final(fm).max_depth_spec() == old(fm).max_depth_spec(),
            final(fm).depths().len() == old(fm).tiles() * old(fm).tiles(),
            forall|s: int, e: int|
                0 <= s < old(fm).tiles() && 0 <= e < old(fm).tiles() ==> at(final(fm).depths(), old(fm).tiles(), s, e) == fw_dist(
                    exits@,
                    old(fm).tiles(),
                    old(fm).depths(),
                    old(fm).tiles(),
                    s,
                    e,
                ),
    {
        let n = fm.size_x * fm.size_y;
        let ghost g = exits@;
        let ghost before = fm.depth_map@;
        let ghost nn = n as int;
        // Each tile starts at distance 0 from itself.
        let mut i: usize = 0;
        while i < n
            invariant
                fm.wf(),
                n == fm.tiles(),
                fm.size_x == old(fm).size_x,
                fm.size_y == old(fm).size_y,
                fm.max_depth == old(fm).max_depth,
                before == old(fm).depth_map@,
                nn == n,
                i <= n,
                forall|s: int, e: int|
                    0 <= s < n && 0 <= e < n ==> #[trigger] at(fm.depth_map@, nn, s, e) == if s == e && s
                        < i {
                        0
                    } else {
                        before[s * nn + e] as int
                    },
            decreases n - i,
        {
            let idx = fm.idx_helper(i, i);
            let ghost prev = fm.depth_map@;
            fm.depth_map.set(idx, 0);
            proof {
                assert forall|s: int, e: int| 0 <= s < n && 0 <= e < n implies #[trigger] at(fm.depth_map@, nn, s, e) == if s == e && s < i + 1 {
                    0
                } else {
                    before[s * nn + e] as int
                } by {
                    lemma_flat_index(nn, s, e, i as int, i as int);
                    assert(at(prev, nn, s, e) == if s == e && s < i {
                        0
                    } else {
                        before[s * nn + e] as int
                    });
                }
            }
            i = i + 1;
        }
        // Each exit sets the entry from its tile to its target.
        let mut s: usize = 0;
        while s < n
            invariant
                fm.wf(),
                n == fm.tiles(),
                fm.size_x == old(fm).size_x,
                fm.size_y == old(fm).size_y,
                fm.max_depth == old(fm).max_depth,
                before == old(fm).depth_map@,
                nn == n,
                g == exits@,
                graph_ok(g, nn),
                s <= n,
                forall|s2: int, e: int|
                    0 <= s2 < n && 0 <= e < n ==> #[trigger] at(fm.depth_map@, nn, s2, e) == if s2 < s {
                        initial_matrix(g, nn, before, s2, e)
                    } else {
                        diagonal_base(nn, before, s2, e)
                    },
            decreases n - s,
        {
            let row = &exits[s];
            let mut k: usize = 0;
            while k < row.len()
                invariant
                    fm.wf(),
                    n == fm.tiles(),
                    fm.size_x == old(fm).size_x,
                    fm.size_y == old(fm).size_y,
                    fm.max_depth == old(fm).max_depth,
                    before == old(fm).depth_map@,
                    nn == n,
                    g == exits@,
                    graph_ok(g, nn),
                    s < n,
                    row@ == g[s as int]@,
                    k <= row@.len(),
                    forall|s2: int, e: int|
                        0 <= s2 < n && 0 <= e < n ==> #[trigger] at(fm.depth_map@, nn, s2, e) == if s2
                            < s {
                            initial_matrix(g, nn, before, s2, e)
                        } else if s2 == s {
                            last_exit_cost(row@.take(k as int), e, diagonal_base(nn, before, s2, e))
                        } else {
                            diagonal_base(nn, before, s2, e)
                        },
                decreases row.len() - k,
            {
                let (target, cost) = row[k];
                assert(g[s as int]@[k as int] == (target, cost));
                let idx = fm.idx_helper(s, target);
                let ghost prev = fm.depth_map@;
                fm.depth_map.set(idx, cost);
                proof {
                    assert(row@.take(k + 1).drop_last() =~= row@.take(k as int));
                    assert forall|s2: int, e: int| 0 <= s2 < n && 0 <= e < n implies #[trigger] at(fm.depth_map@, nn, s2, e) == if s2 < s {
                        initial_matrix(g, nn, before, s2, e)
                    } else if s2 == s {
                        last_exit_cost(row@.take(k + 1), e, diagonal_base(nn, before, s2, e))
                    } else {
                        diagonal_base(nn, before, s2, e)
                    } by {
                        lemma_flat_index(nn, s2, e, s as int, target as int);
                        assert(at(prev, nn, s2, e) == if s2 < s {
                            initial_matrix(g, nn, before, s2, e)
                        } else if s2 == s {
                            last_exit_cost(row@.take(k as int), e, diagonal_base(nn, before, s2, e))
                        } else {
                            diagonal_base(nn, before, s2, e)
                        });
                    }
                }
                k = k + 1;
            }
            proof {
                assert(row@.take(row@.len() as int) =~= row@);
            }
            s = s + 1;
        }
        // Relaxation rounds: tile `m` becomes an allowed midpoint.
        let mut m: usize = 0;
        while m < n
            invariant
                fm.wf(),
                n == fm.tiles(),
                fm.size_x == old(fm).size_x,
                fm.size_y == old(fm).size_y,
                fm.max_depth == old(fm).max_depth,
                before == old(fm).depth_map@,
                nn == n,
                g == exits@,
                m <= n,
                forall|s2: int, e: int|
                    0 <= s2 < n && 0 <= e < n ==> #[trigger] at(fm.depth_map@, nn, s2, e) == fw_dist(
                        g,
                        nn,
                        before,
                        m as int,
                        s2,
                        e,
                    ),
            decreases n - m,
        {
            let mut s: usize = 0;
            while s < n
                invariant
                    fm.wf(),
                    n == fm.tiles(),
                    fm.size_x == old(fm).size_x,
                    fm.size_y == old(fm).size_y,
                    fm.max_depth == old(fm).max_depth,
                    before == old(fm).depth_map@,
                    nn == n,
                    g == exits@,
                    m < n,
                    s <= n,
                    forall|s2: int, e: int|
                        0 <= s2 < n && 0 <= e < n ==> #[trigger] at(fm.depth_map@, nn, s2, e) == fw_dist(
                            g,
                            nn,
                            before,
                            if s2 < s { m + 1 } else { m as int },
                            s2,
                            e,
                        ),
                decreases n - s,
            {
                let stm_idx = fm.idx_helper(s, m);
                let mut e: usize = 0;
                while e < n
                    invariant
                        fm.wf(),
                        n == fm.tiles(),
                        fm.size_x == old(fm).size_x,
                        fm.size_y == old(fm).size_y,
                        fm.max_depth == old(fm).max_depth,
                        before == old(fm).depth_map@,
                        nn == n,
                        g == exits@,
                        m < n,
                        s < n,
                        e <= n,
                        stm_idx == s * nn + m,
                        forall|s2: int, e2: int|
                            0 <= s2 < n && 0 <= e2 < n ==> #[trigger] at(fm.depth_map@, nn, s2, e2)
                                == fw_dist(
                                g,
                                nn,
                                before,
                                if s2 < s || (s2 == s && e2 < e) { m + 1 } else { m as int },
                                s2,
                                e2,
                            ),
                    decreases n - e,
                {
                    let ste_idx = fm.idx_helper(s, e);
                    let mte_idx = fm.idx_helper(m, e);
                    proof {
                        lemma_flat_index(nn, s as int, m as int, m as int, e as int);
                        lemma_flat_index(nn, s as int, e as int, m as int, e as int);
                        lemma_fw_pivot_stable(g, nn, before, m as int, s as int);
                        lemma_fw_pivot_stable(g, nn, before, m as int, e as int);
                        assert(at(fm.depth_map@, nn, s as int, m as int) == fw_dist(g, nn, before, m as int, s as int, m as int));
                        assert(at(fm.depth_map@, nn, m as int, e as int) == fw_dist(g, nn, before, m as int, m as int, e as int));
                        assert(at(fm.depth_map@, nn, s as int, e as int) == fw_dist(g, nn, before, m as int, s as int, e as int));
                    }
                    let via: u64 = fm.depth_map[stm_idx] as u64 + fm.depth_map[mte_idx] as u64;
                    let prev_depth = fm.depth_map[ste_idx];
                    let new_depth: u32 = if via < prev_depth as u64 { via as u32 } else { prev_depth };
                    let ghost prev = fm.depth_map@;
                    fm.depth_map.set(ste_idx, new_depth);
                    proof {
                        assert forall|s2: int, e2: int| 0 <= s2 < n && 0 <= e2 < n implies #[trigger] at(fm.depth_map@, nn, s2, e2) == fw_dist(
                            g,
                            nn,
                            before,
                            if s2 < s || (s2 == s && e2 < e + 1) { m + 1 } else { m as int },
                            s2,
                            e2,
                        ) by {
                            lemma_flat_index(nn, s2, e2, s as int, e as int);
                            assert(at(prev, nn, s2, e2) == fw_dist(
                                g,
                                nn,
                                before,
                                if s2 < s || (s2 == s && e2 < e) { m + 1 } else { m as int },
                                s2,
                                e2,
                            ));
                        }
                    }
                    e = e + 1;
                }
                s = s + 1;
            }
            m = m + 1;
        }
    }

    /// The tile to step to from `position` towards the cheapest target: the
    /// target of the first exit whose distance from `position` is lowest, or
    /// `None` when `position` has no exits.
    pub fn find_lowest_exit(fm: &FloydWarshallMap, position: usize, exits: &Exits) -> (r: Option<usize>)
        requires
            fm.wf(),
            graph_ok(exits@, fm.tiles()),
            position < fm.tiles(),
        ensures
            exits@[position as int]@.len() == 0 <==> r is None,
            r matches Some(t) ==> exists|i: int|
                is_first_lowest(row_of(fm.depths(), fm.tiles(), position as int), exits@[position as int]@, i)
                    && exits@[position as int]@[i].0 == t,
    {
        let e = &exits[position];
        if e.len() == 0 {
            return None;
        }
        let ghost row = row_of(fm.depth_map@, fm.tiles(), position as int);
        assert(e@[0].0 < fm.tiles());
        let first = fm.idx_helper(position, e[0].0);
        let mut lowest_depth = fm.depth_map[first];
        let mut lowest_exit: usize = e[0].0;
        let mut best: usize = 0;
        let mut k: usize = 1;
        while k < e.len()
            invariant
                fm.wf(),
                graph_ok(exits@, fm.tiles()),
                position < fm.tiles(),
                e@ == exits@[position as int]@,
                row == row_of(fm.depth_map@, fm.tiles(), position as int),
                best < k <= e@.len(),
                lowest_exit == e@[best as int].0,
                lowest_depth == row[lowest_exit as int],
                forall|j: int| 0 <= j < k ==> lowest_depth <= row[(#[trigger] e@[j]).0 as int],
                forall|j: int| 0 <= j < best ==> lowest_depth < row[(#[trigger] e@[j]).0 as int],
            decreases e.len() - k,
        {
            let (exit, _cost) = e[k];
            assert(e@[k as int].0 < fm.tiles());
            let pos = fm.idx_helper(position, exit);
            if lowest_depth > fm.depth_map[pos] {
                lowest_exit = exit;
                lowest_depth = fm.depth_map[pos];
                best = k;
            }
            k = k + 1;
        }
        assert(is_first_lowest(row, e@, best as int));
        Some(lowest_exit)
    }

    /// The tile to step to from `position` towards the farthest target: the
    /// target of the first exit whose distance from `position` is highest, or
    /// `None` when `position` has no exits.
    pub fn find_highest_exit(fm: &FloydWarshallMap, position: usize, exits: &Exits) -> (r: Option<usize>)
        requires
            fm.wf(),
            graph_ok(exits@, fm.tiles()),
            position < fm.tiles(),
        ensures
            exits@[position as int]@.len() == 0 <==> r is None,
            r matches Some(t) ==> exists|i: int|
                is_first_highest(row_of(fm.depths(), fm.tiles(), position as int), exits@[position as int]@, i)
                    && exits@[position as int]@[i].0 == t,
    {
        let e = &exits[position];
        if e.len() == 0 {
            return None;
        }
        let ghost row = row_of(fm.depth_map@, fm.tiles(), position as int);
        assert(e@[0].0 < fm.tiles());
        let first = fm.idx_helper(position, e[0].0);
        let mut highest_depth = fm.depth_map[first];
        let mut highest_exit: usize = e[0].0;
        let mut best: usize = 0;
        let mut k: usize = 1;
        while k < e.len()
            invariant
                fm.wf(),
                graph_ok(exits@, fm.tiles()),
                position < fm.tiles(),
                e@ == exits@[position as int]@,
                row == row_of(fm.depth_map@, fm.tiles(), position as int),
                best < k <= e@.len(),
                highest_exit == e@[best as int].0,
                highest_depth == row[highest_exit as int],
                forall|j: int| 0 <= j < k ==> highest_depth >= row[(#[trigger] e@[j]).0 as int],
                forall|j: int| 0 <= j < best ==> highest_depth > row[(#[trigger] e@[j]).0 as int],
            decreases e.len() - k,
        {
            let (exit, _cost) = e[k];
            assert(e@[k as int].0 < fm.tiles());
            let pos = fm.idx_helper(position, exit);
            if highest_depth < fm.depth_map[pos] {
                highest_exit = exit;
                highest_depth = fm.depth_map[pos];
                best = k;
            }
            k = k + 1;
        }
        assert(is_first_highest(row, e@, best as int));
        Some(highest_exit)
    }
}

} // verus!
