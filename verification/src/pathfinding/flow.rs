use vstd::prelude::*;

verus! {

/// The depth of a tile that no search has reached.
pub const UNREACHED: u32 = 0xffff_ffff;

/// The exits of every tile, seen as sequences.
pub type Exits = Vec<Vec<(usize, u32)>>;

/// Every tile has an exit list, and every exit leads to a tile.
pub open spec fn graph_ok(g: Seq<Vec<(usize, u32)>>, n: int) -> bool {
    &&& g.len() == n
    &&& forall|u: int, k: int|
        0 <= u < n && 0 <= k < g[u]@.len() ==> (#[trigger] g[u]@[k]).0 < n
}

/// The cost of one step: one for a breadth-first search, the exit's cost
/// otherwise.
pub open spec fn step_cost(c: u32, unit: bool) -> int {
    if unit {
        1
    } else {
        c as int
    }
}

/// The cost of the first `i` steps of a walk that begins at depth `d0`.
pub open spec fn prefix_cost(d0: int, costs: Seq<u32>, unit: bool, i: int) -> int
    decreases i,
{
    if i <= 0 {
        d0
    } else {
        prefix_cost(d0, costs, unit, i - 1) + step_cost(costs[i - 1], unit)
    }
}

/// A walk through the graph: it leaves `starts[start]` and takes, at step
/// `i`, the exit `(nodes[i + 1], costs[i])` of `nodes[i]`.
pub struct Walk {
    pub start: int,
    pub nodes: Seq<usize>,
    pub costs: Seq<u32>,
}

/// `w` is a walk from one of the starts that ends at `v`.
pub open spec fn is_walk(g: Seq<Vec<(usize, u32)>>, starts: Seq<(usize, u32)>, w: Walk, v: int) -> bool {
    &&& 0 <= w.start < starts.len()
    &&& w.nodes.len() == w.costs.len() + 1
    &&& w.nodes[0] == starts[w.start].0
    &&& w.nodes.last() == v
    &&& forall|i: int|
        0 <= i < w.costs.len() ==> #[trigger] g[w.nodes[i] as int]@.contains(
            (w.nodes[i + 1], w.costs[i]),
        )
}

/// The total cost of a walk.
pub open spec fn walk_cost(starts: Seq<(usize, u32)>, w: Walk, unit: bool) -> int {
    prefix_cost(starts[w.start].1 as int, w.costs, unit, w.costs.len() as int)
}

/// Each tile of the walk is reached more cheaply than the depth it held
/// before the search began.
pub open spec fn improves_all(starts: Seq<(usize, u32)>, w: Walk, unit: bool, before: Seq<u32>) -> bool {
    forall|i: int|
        0 <= i < w.nodes.len() ==> prefix_cost(starts[w.start].1 as int, w.costs, unit, i)
            < before[#[trigger] w.nodes[i] as int]
}

/// `w` is a walk to `v` of cost `value` along which every tile improved.
pub open spec fn witnesses(
    g: Seq<Vec<(usize, u32)>>,
    starts: Seq<(usize, u32)>,
    before: Seq<u32>,
    unit: bool,
    w: Walk,
    v: int,
    value: int,
) -> bool {
    &&& is_walk(g, starts, w, v)
    &&& improves_all(starts, w, unit, before)
    &&& walk_cost(starts, w, unit) == value
}

/// The exits of `u` all hold a depth no greater than `u`'s depth plus the
/// step cost, wherever that sum is below `max_depth`.
pub open spec fn settled(g: Seq<Vec<(usize, u32)>>, f: Seq<u32>, max_depth: int, unit: bool, u: int) -> bool {
    forall|k: int|
        0 <= k < g[u]@.len() && f[u] + step_cost((#[trigger] g[u]@[k]).1, unit) < max_depth
            ==> f[g[u]@[k].0 as int] <= f[u] + step_cost(g[u]@[k].1, unit)
}

/// What a flow search leaves in a map that held `before`: depths only
/// decrease; every start below `max_depth` holds at most its depth; every
/// improved tile passes its depth on through its exits; and every improved
/// depth is below `max_depth` and is the cost of a walk from a start along
/// which every tile improved. These conditions fix the result: each tile
/// holds the lesser of its old depth and the cheapest such walk below
/// `max_depth`.
pub open spec fn flow_result(
    g: Seq<Vec<(usize, u32)>>,
    starts: Seq<(usize, u32)>,
    before: Seq<u32>,
    max_depth: int,
    unit: bool,
    f: Seq<u32>,
) -> bool {
    &&& f.len() == before.len()
    &&& forall|v: int| 0 <= v < f.len() ==> #[trigger] f[v] <= before[v]
    &&& forall|j: int|
        0 <= j < starts.len() && (#[trigger] starts[j]).1 < max_depth ==> f[starts[j].0 as int]
            <= starts[j].1
    &&& forall|u: int| 0 <= u < f.len() && #[trigger] f[u] < before[u] ==> settled(g, f, max_depth, unit, u)
    &&& forall|v: int|
        0 <= v < f.len() && #[trigger] f[v] < before[v] ==> f[v] < max_depth && exists|w: Walk|
            witnesses(g, starts, before, unit, w, v, f[v] as int)
}

/// The sum of a sequence of depths.
pub open spec fn seq_sum(s: Seq<u32>) -> int
    decreases s.len(),
{
    if s.len() == 0 {
        0
    } else {
        seq_sum(s.drop_last()) + s.last()
    }
}

/// Lowering one entry lowers the sum by the same amount.
pub proof fn lemma_sum_update(s: Seq<u32>, i: int, x: u32)
    requires
        0 <= i < s.len(),
    ensures
        seq_sum(s.update(i, x)) == seq_sum(s) - s[i] + x,
        seq_sum(s) >= 0,
    decreases s.len(),
{
    if i == s.len() - 1 {
        assert(s.update(i, x).drop_last() =~= s.drop_last());
        lemma_sum_nonneg(s.drop_last());
    } else {
        lemma_sum_update(s.drop_last(), i, x);
        assert(s.update(i, x).drop_last() =~= s.drop_last().update(i, x));
    }
}

/// A sum of depths is never negative.
pub proof fn lemma_sum_nonneg(s: Seq<u32>)
    ensures
        seq_sum(s) >= 0,
    decreases s.len(),
{
    if s.len() > 0 {
        lemma_sum_nonneg(s.drop_last());
    }
}

/// Step costs are never negative, so prefix costs only grow along a walk.
pub proof fn lemma_prefix_monotone(d0: int, costs: Seq<u32>, unit: bool, i: int, j: int)
    requires
        0 <= i <= j,
    ensures
        prefix_cost(d0, costs, unit, i) <= prefix_cost(d0, costs, unit, j),
    decreases j - i,
{
    if i < j {
        lemma_prefix_monotone(d0, costs, unit, i, j - 1);
    }
}

/// Extending a walk by one exit.
pub open spec fn extend(w: Walk, v: usize, c: u32) -> Walk {
    Walk { start: w.start, nodes: w.nodes.push(v), costs: w.costs.push(c) }
}

/// Extending a witness walk by an exit whose target improves gives a
/// witness for the target.
pub proof fn lemma_extend_witness(
    g: Seq<Vec<(usize, u32)>>,
    starts: Seq<(usize, u32)>,
    before: Seq<u32>,
    unit: bool,
    w: Walk,
    u: int,
    d: int,
    k: int,
)
    requires
        witnesses(g, starts, before, unit, w, u, d),
        0 <= u < g.len(),
        0 <= k < g[u]@.len(),
        d + step_cost(g[u]@[k].1, unit) < before[g[u]@[k].0 as int],
    ensures
        witnesses(
            g,
            starts,
            before,
            unit,
            extend(w, g[u]@[k].0, g[u]@[k].1),
            g[u]@[k].0 as int,
            d + step_cost(g[u]@[k].1, unit),
        ),
{
    let e = g[u]@[k];
    let w2 = extend(w, e.0, e.1);
    let d0 = starts[w.start].1 as int;
    assert forall|i: int| 0 <= i <= w.costs.len() implies prefix_cost(d0, w2.costs, unit, i)
        == prefix_cost(d0, w.costs, unit, i) by {
        lemma_prefix_prefix(d0, w.costs, w2.costs, unit, i);
    }
    assert(prefix_cost(d0, w2.costs, unit, w2.costs.len() as int) == d + step_cost(e.1, unit));
    assert forall|i: int| 0 <= i < w2.costs.len() implies #[trigger] g[w2.nodes[i] as int]@.contains(
        (w2.nodes[i + 1], w2.costs[i]),
    ) by {
        if i == w.costs.len() {
            assert(g[u]@[k] == (w2.nodes[i + 1], w2.costs[i]));
        } else {
            assert(g[w.nodes[i] as int]@.contains((w.nodes[i + 1], w.costs[i])));
        }
    }
    assert forall|i: int| 0 <= i < w2.nodes.len() implies prefix_cost(d0, w2.costs, unit, i)
        < before[#[trigger] w2.nodes[i] as int] by {
        if i < w.nodes.len() {
            assert(w2.nodes[i] == w.nodes[i]);
        }
    }
}

/// Prefix costs depend only on the steps they cover.
proof fn lemma_prefix_prefix(d0: int, a: Seq<u32>, b: Seq<u32>, unit: bool, i: int)
    requires
        0 <= i <= a.len(),
        i <= b.len(),
        forall|j: int| 0 <= j < i ==> a[j] == b[j],
    ensures
        prefix_cost(d0, a, unit, i) == prefix_cost(d0, b, unit, i),
    decreases i,
{
    if i > 0 {
        lemma_prefix_prefix(d0, a, b, unit, i - 1);
    }
}

/// The walk of one tile: a start on its own.
pub open spec fn start_walk(starts: Seq<(usize, u32)>, j: int) -> Walk {
    Walk { start: j, nodes: seq![starts[j].0], costs: Seq::empty() }
}

/// Along any walk from a start, every tile visited so far holds at most the
/// cost of the walk up to it, as long as the whole walk stays below
/// `max_depth` and every tile started out unreached.
proof fn lemma_walk_prefix_bound(
    g: Seq<Vec<(usize, u32)>>,
    starts: Seq<(usize, u32)>,
    n: int,
    max_depth: int,
    unit: bool,
    f: Seq<u32>,
    w: Walk,
    v: int,
    i: int,
)
    requires
        flow_result(g, starts, Seq::new(n as nat, |k: int| UNREACHED), max_depth, unit, f),
        max_depth <= UNREACHED,
        graph_ok(g, n),
        forall|j: int| 0 <= j < starts.len() ==> (#[trigger] starts[j]).0 < n,
        is_walk(g, starts, w, v),
        walk_cost(starts, w, unit) < max_depth,
        0 <= i <= w.costs.len(),
    ensures
        0 <= w.nodes[i] < n,
        f[w.nodes[i] as int] <= prefix_cost(starts[w.start].1 as int, w.costs, unit, i),
    decreases i,
{
    let d0 = starts[w.start].1 as int;
    let before = Seq::new(n as nat, |k: int| UNREACHED);
    lemma_prefix_monotone(d0, w.costs, unit, i, w.costs.len() as int);
    if i == 0 {
        assert(starts[w.start].1 < max_depth);
    } else {
        lemma_walk_prefix_bound(g, starts, n, max_depth, unit, f, w, v, i - 1);
        let j = i - 1;
        let u = w.nodes[j] as int;
        assert(g[w.nodes[j] as int]@.contains((w.nodes[j + 1], w.costs[j])));
        let e = (w.nodes[i], w.costs[i - 1]);
        assert(g[u]@.contains(e));
        let k = choose|k: int| 0 <= k < g[u]@.len() && g[u]@[k] == e;
        assert(g[u]@[k].0 < n);
        lemma_prefix_monotone(d0, w.costs, unit, i - 1, i);
        assert(f[u] < before[u]);
        assert(settled(g, f, max_depth, unit, u));
        assert(f[u] + step_cost(g[u]@[k].1, unit) < max_depth);
    }
}

/// Flow maps built on a map where every tile is unreached hold shortest
/// distances: each reached tile holds the cost of some walk from a start,
/// and no walk from a start that stays below `max_depth` is cheaper than
/// what its last tile holds.
pub proof fn lemma_fresh_flow_is_shortest(
    g: Seq<Vec<(usize, u32)>>,
    starts: Seq<(usize, u32)>,
    n: int,
    max_depth: int,
    unit: bool,
    f: Seq<u32>,
)
    requires
        flow_result(g, starts, Seq::new(n as nat, |k: int| UNREACHED), max_depth, unit, f),
        max_depth <= UNREACHED,
        graph_ok(g, n),
        forall|j: int| 0 <= j < starts.len() ==> (#[trigger] starts[j]).0 < n,
    ensures
        forall|v: int|
            0 <= v < n && #[trigger] f[v] != UNREACHED ==> f[v] < max_depth && exists|w: Walk|
                is_walk(g, starts, w, v) && walk_cost(starts, w, unit) == f[v],
        forall|w: Walk, v: int|
            #[trigger] is_walk(g, starts, w, v) && walk_cost(starts, w, unit) < max_depth ==> f[v]
                <= walk_cost(starts, w, unit),
{
    let before = Seq::new(n as nat, |k: int| UNREACHED);
    assert forall|v: int| 0 <= v < n && #[trigger] f[v] != UNREACHED implies f[v] < max_depth
        && exists|w: Walk| is_walk(g, starts, w, v) && walk_cost(starts, w, unit) == f[v] by {
        assert(f[v] <= before[v]);
        assert(f[v] < before[v]);
        let w = choose|w: Walk| witnesses(g, starts, before, unit, w, v, f[v] as int);
        assert(is_walk(g, starts, w, v) && walk_cost(starts, w, unit) == f[v]);
    }
    assert forall|w: Walk, v: int|
        #[trigger] is_walk(g, starts, w, v) && walk_cost(starts, w, unit) < max_depth implies f[v]
            <= walk_cost(starts, w, unit) by {
        lemma_walk_prefix_bound(g, starts, n, max_depth, unit, f, w, v, w.costs.len() as int);
    }
}

/// Two flow maps built from the same starts on a map where every tile is
/// unreached are the same: the result is fixed by the graph, the starts and
/// the depth limit. In particular a parallel build, which merges the maps
/// of chunks of the starts, gives what the sequential build gives.
pub proof fn lemma_fresh_flow_unique(
    g: Seq<Vec<(usize, u32)>>,
    starts: Seq<(usize, u32)>,
    n: int,
    max_depth: int,
    unit: bool,
    f1: Seq<u32>,
    f2: Seq<u32>,
)
    requires
        flow_result(g, starts, Seq::new(n as nat, |k: int| UNREACHED), max_depth, unit, f1),
        flow_result(g, starts, Seq::new(n as nat, |k: int| UNREACHED), max_depth, unit, f2),
        max_depth <= UNREACHED,
        graph_ok(g, n),
        forall|j: int| 0 <= j < starts.len() ==> (#[trigger] starts[j]).0 < n,
    ensures
        f1 == f2,
{
    lemma_fresh_flow_is_shortest(g, starts, n, max_depth, unit, f1);
    lemma_fresh_flow_is_shortest(g, starts, n, max_depth, unit, f2);
    assert forall|v: int| 0 <= v < n implies f1[v] == f2[v] by {
        if f1[v] != UNREACHED {
            let w = choose|w: Walk| is_walk(g, starts, w, v) && walk_cost(starts, w, unit) == f1[v];
            assert(f2[v] <= walk_cost(starts, w, unit));
        }
        if f2[v] != UNREACHED {
            let w = choose|w: Walk| is_walk(g, starts, w, v) && walk_cost(starts, w, unit) == f2[v];
            assert(f1[v] <= walk_cost(starts, w, unit));
        }
    }
    assert(f1 =~= f2);
}

/// A map of `n` tiles, every one unreached.
pub open spec fn unreached_seq(n: int) -> Seq<u32> {
    Seq::new(n as nat, |i: int| UNREACHED)
}

/// Chunk `c` of the starts when they are cut into runs of `k`: the starts
/// from `c * k` up to `c * k + k`, or to the end.
pub open spec fn chunk(starts: Seq<(usize, u32)>, k: int, c: int) -> Seq<(usize, u32)> {
    starts.subrange(c * k, if c * k + k <= starts.len() { c * k + k } else { starts.len() as int })
}

/// The smaller of two depths.
pub open spec fn min_depth(a: u32, b: u32) -> u32 {
    if a <= b {
        a
    } else {
        b
    }
}

/// The lowest depth the layers hold for tile `v`, or `UNREACHED` when there
/// are no layers.
pub open spec fn min_over(layers: Seq<Seq<u32>>, v: int) -> u32
    decreases layers.len(),
{
    if layers.len() == 0 {
        UNREACHED
    } else {
        min_depth(min_over(layers.drop_last(), v), layers.last()[v])
    }
}

/// The layers merged tile by tile: each tile takes its lowest depth.
pub open spec fn merged(layers: Seq<Seq<u32>>, n: int) -> Seq<u32> {
    Seq::new(n as nat, |v: int| min_over(layers, v))
}

/// The merged depth is no greater than any layer's, and it is one of the
/// layers' depths unless it is `UNREACHED`.
proof fn lemma_min_over(layers: Seq<Seq<u32>>, v: int)
    ensures
        forall|c: int| 0 <= c < layers.len() ==> min_over(layers, v) <= #[trigger] layers[c][v],
        min_over(layers, v) == UNREACHED || exists|c: int|
            0 <= c < layers.len() && min_over(layers, v) == #[trigger] layers[c][v],
    decreases layers.len(),
{
    if layers.len() > 0 {
        let rest = layers.drop_last();
        lemma_min_over(rest, v);
        assert forall|c: int| 0 <= c < layers.len() implies min_over(layers, v) <= #[trigger] layers[c][v] by {
            if c < rest.len() {
                assert(rest[c] == layers[c]);
            }
        }
        if min_over(layers, v) != UNREACHED && min_over(layers, v) != layers.last()[v] {
            let c = choose|c: int| 0 <= c < rest.len() && min_over(rest, v) == #[trigger] rest[c][v];
            assert(layers[c] == rest[c]);
        }
    }
}

/// Merging the maps built, on maps where every tile is unreached, from each
/// chunk of the starts gives a map built from all the starts.
pub proof fn lemma_merged_layers_flow(
    g: Seq<Vec<(usize, u32)>>,
    starts: Seq<(usize, u32)>,
    k: int,
    n: int,
    max_depth: int,
    unit: bool,
    layers: Seq<Seq<u32>>,
)
    requires
        k > 0,
        layers.len() * k >= starts.len(),
        forall|c: int|
            0 <= c < layers.len() ==> c * k <= starts.len() && flow_result(
                g,
                #[trigger] chunk(starts, k, c),
                Seq::new(n as nat, |i: int| UNREACHED),
                max_depth,
                unit,
                layers[c],
            ),
        max_depth <= UNREACHED,
        graph_ok(g, n),
        forall|j: int| 0 <= j < starts.len() ==> (#[trigger] starts[j]).0 < n,
    ensures
        flow_result(g, starts, Seq::new(n as nat, |i: int| UNREACHED), max_depth, unit, merged(layers, n)),
{
    let before = Seq::new(n as nat, |i: int| UNREACHED);
    let f = merged(layers, n);
    assert forall|v: int| 0 <= v < f.len() implies #[trigger] f[v] <= before[v] by {
        lemma_min_over(layers, v);
    }
    assert forall|j: int| 0 <= j < starts.len() && (#[trigger] starts[j]).1 < max_depth implies f[starts[j].0 as int]
        <= starts[j].1 by {
        let c = j / k;
        let o = j % k;
        vstd::arithmetic::div_mod::lemma_fundamental_div_mod(j, k);
        assert(0 <= c < layers.len()) by (nonlinear_arith)
            requires j == k * c + o, 0 <= o < k, 0 <= j < starts.len(), layers.len() * k >= starts.len(), k > 0;
        assert(c * k + o == j) by (nonlinear_arith)
            requires j == k * c + o;
        let ch = chunk(starts, k, c);
        assert(flow_result(g, ch, before, max_depth, unit, layers[c]));
        assert(ch[o] == starts[j]);
        assert(layers[c][starts[j].0 as int] <= starts[j].1);
        lemma_min_over(layers, starts[j].0 as int);
        assert(min_over(layers, starts[j].0 as int) <= layers[c][starts[j].0 as int]);
    }
    assert forall|u: int| 0 <= u < f.len() && #[trigger] f[u] < before[u] implies settled(g, f, max_depth, unit, u) by {
        lemma_min_over(layers, u);
        let c = choose|c: int| 0 <= c < layers.len() && min_over(layers, u) == #[trigger] layers[c][u];
        let lc = layers[c];
        let ch = chunk(starts, k, c);
        assert(flow_result(g, ch, before, max_depth, unit, lc));
        assert(lc[u] < before[u]);
        assert(settled(g, lc, max_depth, unit, u));
        assert forall|e: int|
            0 <= e < g[u]@.len() && f[u] + step_cost((#[trigger] g[u]@[e]).1, unit) < max_depth implies f[g[u]@[e].0 as int]
            <= f[u] + step_cost(g[u]@[e].1, unit) by {
            let t = g[u]@[e].0 as int;
            assert(t < n);
            lemma_min_over(layers, t);
            assert(min_over(layers, t) <= layers[c][t]);
        }
    }
    assert forall|v: int| 0 <= v < f.len() && #[trigger] f[v] < before[v] implies f[v] < max_depth && exists|w: Walk|
        witnesses(g, starts, before, unit, w, v, f[v] as int) by {
        lemma_min_over(layers, v);
        let c = choose|c: int| 0 <= c < layers.len() && min_over(layers, v) == #[trigger] layers[c][v];
        let lc = layers[c];
        let ch = chunk(starts, k, c);
        assert(flow_result(g, ch, before, max_depth, unit, lc));
        assert(lc[v] < before[v]);
        let w = choose|w: Walk| witnesses(g, ch, before, unit, w, v, lc[v] as int);
        let w2 = Walk { start: c * k + w.start, nodes: w.nodes, costs: w.costs };
        assert(ch[w.start] == starts[c * k + w.start]);
        assert(is_walk(g, starts, w2, v));
        assert(witnesses(g, starts, before, unit, w2, v, f[v] as int));
    }
}

/// `i` is the first exit in `e` whose target holds the lowest depth.
pub open spec fn is_first_lowest(f: Seq<u32>, e: Seq<(usize, u32)>, i: int) -> bool {
    &&& 0 <= i < e.len()
    &&& forall|k: int| 0 <= k < e.len() ==> f[e[i].0 as int] <= f[(#[trigger] e[k]).0 as int]
    &&& forall|k: int| 0 <= k < i ==> f[e[i].0 as int] < f[(#[trigger] e[k]).0 as int]
}

/// `i` is the first exit in `e` whose target holds the highest depth.
pub open spec fn is_first_highest(f: Seq<u32>, e: Seq<(usize, u32)>, i: int) -> bool {
    &&& 0 <= i < e.len()
    &&& forall|k: int| 0 <= k < e.len() ==> f[e[i].0 as int] >= f[(#[trigger] e[k]).0 as int]
    &&& forall|k: int| 0 <= k < i ==> f[e[i].0 as int] > f[(#[trigger] e[k]).0 as int]
}

/// The exit to follow towards a start: `None` when there are no exits,
/// otherwise the target of the first exit whose depth is lowest (a stable
/// sort by depth keeps that exit first).
pub fn lowest_exit(f: &Vec<u32>, e: &Vec<(usize, u32)>) -> (r: Option<usize>)
    requires
        forall|k: int| 0 <= k < e@.len() ==> (#[trigger] e@[k]).0 < f@.len(),
    ensures
        e@.len() == 0 <==> r is None,
        r matches Some(t) ==> exists|i: int| is_first_lowest(f@, e@, i) && e@[i].0 == t,
{
    if e.len() == 0 {
        return None;
    }
    let mut best: usize = 0;
    let mut k: usize = 1;
    while k < e.len()
        invariant
            forall|k: int| 0 <= k < e@.len() ==> (#[trigger] e@[k]).0 < f@.len(),
            0 <= best < k <= e@.len(),
            forall|j: int| 0 <= j < k ==> f@[e@[best as int].0 as int] <= f@[(#[trigger] e@[j]).0 as int],
            forall|j: int| 0 <= j < best ==> f@[e@[best as int].0 as int] < f@[(#[trigger] e@[j]).0 as int],
        decreases e.len() - k,
    {
        if f[e[k].0] < f[e[best].0] {
            best = k;
        }
        k = k + 1;
    }
    assert(is_first_lowest(f@, e@, best as int));
    Some(e[best].0)
}

/// The exit to follow away from a start: `None` when there are no exits,
/// otherwise the target of the first exit whose depth is highest.
pub fn highest_exit(f: &Vec<u32>, e: &Vec<(usize, u32)>) -> (r: Option<usize>)
    requires
        forall|k: int| 0 <= k < e@.len() ==> (#[trigger] e@[k]).0 < f@.len(),
    ensures
        e@.len() == 0 <==> r is None,
        r matches Some(t) ==> exists|i: int| is_first_highest(f@, e@, i) && e@[i].0 == t,
{
    if e.len() == 0 {
        return None;
    }
    let mut best: usize = 0;
    let mut k: usize = 1;
    while k < e.len()
        invariant
            forall|k: int| 0 <= k < e@.len() ==> (#[trigger] e@[k]).0 < f@.len(),
            0 <= best < k <= e@.len(),
            forall|j: int| 0 <= j < k ==> f@[e@[best as int].0 as int] >= f@[(#[trigger] e@[j]).0 as int],
            forall|j: int| 0 <= j < best ==> f@[e@[best as int].0 as int] > f@[(#[trigger] e@[j]).0 as int],
        decreases e.len() - k,
    {
        if f[e[k].0] > f[e[best].0] {
            best = k;
        }
        k = k + 1;
    }
    assert(is_first_highest(f@, e@, best as int));
    Some(e[best].0)
}

/// A queue entry names a tile, a depth that is no lower than the tile's
/// current depth and below `max_depth`, and a walk that reaches the tile at
/// exactly that depth.
pub open spec fn entry_ok(
    g: Seq<Vec<(usize, u32)>>,
    starts: Seq<(usize, u32)>,
    before: Seq<u32>,
    f: Seq<u32>,
    max_depth: int,
    unit: bool,
    e: (usize, u32),
    w: Walk,
) -> bool {
    &&& e.0 < f.len()
    &&& f[e.0 as int] <= e.1
    &&& e.1 < max_depth
    &&& witnesses(g, starts, before, unit, w, e.0 as int, e.1 as int)
}

} // verus!
