use vstd::prelude::*;
use std::collections::VecDeque;
use crate::pathfinding::parallel::{
    THREADED_REQUIRED_STARTS, chunk_starts, merge_layers, par_fresh_layers, thread_count,
};
use crate::pathfinding::flow::{
    chunk, lemma_merged_layers_flow, merged, min_depth, unreached_seq,
    Exits, UNREACHED, entry_ok, Walk, highest_exit, is_first_highest, is_first_lowest, lowest_exit, extend, flow_result, graph_ok, lemma_extend_witness, lemma_sum_nonneg, lemma_sum_update,
    prefix_cost, seq_sum, settled, start_walk, step_cost, witnesses,
};

verus! {

/// A breadth-first flow map: `map[idx]` is the number of steps from the
/// nearest start to tile `idx`, or `UNREACHED`. Searches stop at
/// `max_depth`.
pub struct BfsMap {
    pub map: Vec<u32>,
    pub size_x: usize,
    pub size_y: usize,
    pub max_depth: u32,
}

impl BfsMap {
    /// The map holds one depth per tile.
    pub open spec fn wf(&self) -> bool {
        self.map@.len() == self.size_x * self.size_y
    }

    /// The depth held for each tile.
    pub open spec fn depths(&self) -> Seq<u32> {
        self.map@
    }

    /// The width of the map.
    pub open spec fn size_x_spec(&self) -> usize {
        self.size_x
    }

    /// The height of the map.
    pub open spec fn size_y_spec(&self) -> usize {
        self.size_y
    }

    /// The depth at which searches stop.
    pub open spec fn max_depth_spec(&self) -> u32 {
        self.max_depth
    }

    /// Creates an empty BFS map: every tile unreached.
    pub fn new_empty(size_x: usize, size_y: usize, max_depth: u32) -> (bfs: BfsMap)
        requires
            size_x * size_y <= usize::MAX,
        ensures
            bfs.wf(),
            bfs.size_x_spec() == size_x,
            bfs.size_y_spec() == size_y,
            bfs.max_depth_spec() == max_depth,
            bfs.depths() == Seq::new((size_x * size_y) as nat, |i: int| UNREACHED),
    {
        let n = size_x * size_y;
        let map = unreached_map(n);
        BfsMap { map, size_x, size_y, max_depth }
    }

    /// Builds a new BFS map from the given starting tiles, each at depth 0.
    pub fn new(size_x: usize, size_y: usize, starts: &[usize], exits: &Exits, max_depth: u32) -> (bfs: BfsMap)
        requires
            size_x * size_y <= usize::MAX,
            graph_ok(exits@, size_x * size_y),
            forall|j: int| 0 <= j < starts@.len() ==> starts@[j] < size_x * size_y,
        ensures
            bfs.wf(),
            bfs.size_x_spec() == size_x,
            bfs.size_y_spec() == size_y,
            bfs.max_depth_spec() == max_depth,
            flow_result(
                exits@,
                zero_depths(starts@),
                Seq::new((size_x * size_y) as nat, |i: int| UNREACHED),
                max_depth as int,
                true,
                bfs.depths(),
            ),
    {
        let mut bfs = BfsMap::new_empty(size_x, size_y, max_depth);
        BfsMap::build(&mut bfs, starts, exits);
        bfs
    }

    /// Builds a new BFS map; each start is a tile and the depth it starts at.
    pub fn new_weighted(
        size_x: usize,
        size_y: usize,
        starts: &[(usize, u32)],
        exits: &Exits,
        max_depth: u32,
    ) -> (bfs: BfsMap)
        requires
            size_x * size_y <= usize::MAX,
            graph_ok(exits@, size_x * size_y),
            forall|j: int| 0 <= j < starts@.len() ==> starts@[j].0 < size_x * size_y,
        ensures
            bfs.wf(),
            bfs.size_x_spec() == size_x,
            bfs.size_y_spec() == size_y,
            bfs.max_depth_spec() == max_depth,
            flow_result(
                exits@,
                starts@,
                Seq::new((size_x * size_y) as nat, |i: int| UNREACHED),
                max_depth as int,
                true,
                bfs.depths(),
            ),
    {
        let mut bfs = BfsMap::new_empty(size_x, size_y, max_depth);
        BfsMap::build_weighted(&mut bfs, starts, exits);
        bfs
    }

    /// Builds the map from the given starting tiles, each at depth 0, the
    /// way a threaded build does: the starts are cut into one run per
    /// thread, a layer is built from each run on an unreached map in
    /// parallel, and every tile takes the lowest of its depth and the
    /// layers' depths. The layers merge into the map a sequential build
    /// would make on an unreached map (see `lemma_fresh_flow_unique`).
    pub fn build_parallel(bfs: &mut BfsMap, starts: &[usize], exits: &Exits)
        requires
            old(bfs).wf(),
            graph_ok(exits@, old(bfs).depths().len() as int),
            forall|j: int| 0 <= j < starts@.len() ==> starts@[j] < old(bfs).depths().len(),
        ensures
            final(bfs).wf(),
            final(bfs).size_x_spec() == old(bfs).size_x_spec(),
            final(bfs).size_y_spec() == old(bfs).size_y_spec(),
            final(bfs).max_depth_spec() == old(bfs).max_depth_spec(),
            final(bfs).depths().len() == old(bfs).depths().len(),
            exists|m: Seq<u32>|
                {
                    &&& #[trigger] flow_result(
                        exits@,
                        zero_depths(starts@),
                        unreached_seq(old(bfs).depths().len() as int),
                        old(bfs).max_depth_spec() as int,
                        true,
                        m,
                    )
                    &&& forall|v: int|
                        0 <= v < old(bfs).depths().len() ==> final(bfs).depths()[v] == min_depth(
                            old(bfs).depths()[v],
                            #[trigger] m[v],
                        )
                },
    {
        let n_threads = thread_count();
        let weighted = with_zero_depth(starts);
        let chunks = chunk_starts(weighted.as_slice(), n_threads);
        let ghost cv = chunks@;
        let map_len = bfs.map.len();
        let ghost n = bfs.map@.len() as int;
        proof {
            assert(map_len == n);
            assert(bfs.size_x * bfs.size_y <= usize::MAX);
            assert forall|c: int, j: int| 0 <= c < chunks@.len() && 0 <= j < chunks@[c]@.len() implies (
            #[trigger] chunks@[c]@[j]).0 < bfs.size_x * bfs.size_y by {
                assert(chunks@[c]@ == chunk(weighted@, n_threads as int, c));
                assert(chunks@[c]@[j] == weighted@[c * n_threads + j]);
            }
        }
        let layers = par_fresh_layers(chunks, bfs.size_x, bfs.size_y, exits, bfs.max_depth, true);
        let ghost lv = layers@.map_values(|l: Vec<u32>| l@);
        proof {
            assert forall|c: int| 0 <= c < lv.len() implies c * n_threads <= weighted@.len() && flow_result(
                exits@,
                #[trigger] chunk(weighted@, n_threads as int, c),
                Seq::new(n as nat, |i: int| UNREACHED),
                bfs.max_depth as int,
                true,
                lv[c],
            ) by {
                assert(cv[c]@ == chunk(weighted@, n_threads as int, c));
                assert(c * n_threads < weighted@.len());
                assert(flow_result(
                    exits@,
                    cv[c]@,
                    Seq::new((bfs.size_x * bfs.size_y) as nat, |i: int| UNREACHED),
                    bfs.max_depth as int,
                    true,
                    layers@[c]@,
                ));
            }
            lemma_merged_layers_flow(exits@, weighted@, n_threads as int, n, bfs.max_depth as int, true, lv);
            assert forall|c: int| 0 <= c < layers@.len() implies (#[trigger] layers@[c])@.len() == bfs.map@.len() by {
                assert(cv[c]@ == chunk(weighted@, n_threads as int, c));
                assert(flow_result(
                    exits@,
                    cv[c]@,
                    Seq::new((bfs.size_x * bfs.size_y) as nat, |i: int| UNREACHED),
                    bfs.max_depth as int,
                    true,
                    layers@[c]@,
                ));
            }
        }
        merge_layers(&mut bfs.map, &layers);
        proof {
            let m = merged(lv, n);
            assert(flow_result(
                exits@,
                zero_depths(starts@),
                unreached_seq(old(bfs).depths().len() as int),
                old(bfs).max_depth_spec() as int,
                true,
                m,
            ));
            assert(forall|v: int| 0 <= v < n ==> bfs.map@[v] == min_depth(old(bfs).map@[v], #[trigger] m[v]));
        }
    }

    /// Builds the map as a threaded build does: in parallel from
    /// more than `THREADED_REQUIRED_STARTS` starts (see [`BfsMap::build_parallel`]),
    /// sequentially otherwise (see [`BfsMap::build`]).
    pub fn build_threaded(bfs: &mut BfsMap, starts: &[usize], exits: &Exits)
        requires
            old(bfs).wf(),
            graph_ok(exits@, old(bfs).depths().len() as int),
            forall|j: int| 0 <= j < starts@.len() ==> starts@[j] < old(bfs).depths().len(),
        ensures
            final(bfs).wf(),
            final(bfs).size_x_spec() == old(bfs).size_x_spec(),
            final(bfs).size_y_spec() == old(bfs).size_y_spec(),
            final(bfs).max_depth_spec() == old(bfs).max_depth_spec(),
            final(bfs).depths().len() == old(bfs).depths().len(),
            starts@.len() <= THREADED_REQUIRED_STARTS ==> flow_result(
                exits@,
                zero_depths(starts@),
                old(bfs).depths(),
                old(bfs).max_depth_spec() as int,
                true,
                final(bfs).depths(),
            ),
            starts@.len() > THREADED_REQUIRED_STARTS ==> exists|m: Seq<u32>|
                {
                    &&& #[trigger] flow_result(
                        exits@,
                        zero_depths(starts@),
                        unreached_seq(old(bfs).depths().len() as int),
                        old(bfs).max_depth_spec() as int,
                        true,
                        m,
                    )
                    &&& forall|v: int|
                        0 <= v < old(bfs).depths().len() ==> final(bfs).depths()[v] == min_depth(
                            old(bfs).depths()[v],
                            #[trigger] m[v],
                        )
                },
    {
        if starts.len() > THREADED_REQUIRED_STARTS {
            BfsMap::build_parallel(bfs, starts, exits);
        } else {
            BfsMap::build(bfs, starts, exits);
        }
    }

    /// The depths of a map where every tile starts unreached, built from
    /// the weighted starts: one layer of a parallel build.
    pub fn fresh_layer(
        size_x: usize,
        size_y: usize,
        starts: &[(usize, u32)],
        exits: &Exits,
        max_depth: u32,
    ) -> (layer: Vec<u32>)
        requires
            size_x * size_y <= usize::MAX,
            graph_ok(exits@, size_x * size_y),
            forall|j: int| 0 <= j < starts@.len() ==> starts@[j].0 < size_x * size_y,
        ensures
            flow_result(
                exits@,
                starts@,
                Seq::new((size_x * size_y) as nat, |i: int| UNREACHED),
                max_depth as int,
                true,
                layer@,
            ),
    {
        let bfs = BfsMap::new_weighted(size_x, size_y, starts, exits, max_depth);
        bfs.map
    }

    /// Clears the BFS map: every tile becomes unreached.
    pub fn clear(bfs: &mut BfsMap)
        ensures
            final(bfs).size_x_spec() == old(bfs).size_x_spec(),
            final(bfs).size_y_spec() == old(bfs).size_y_spec(),
            final(bfs).max_depth_spec() == old(bfs).max_depth_spec(),
            final(bfs).depths() == Seq::new(old(bfs).depths().len(), |i: int| UNREACHED),
    {
        let n = bfs.map.len();
        let mut i: usize = 0;
        while i < n
            invariant
                n == bfs.map@.len(),
                i <= n,
                bfs.size_x == old(bfs).size_x,
                bfs.size_y == old(bfs).size_y,
                bfs.max_depth == old(bfs).max_depth,
                n == old(bfs).map@.len(),
                forall|k: int| 0 <= k < i ==> bfs.map@[k] == UNREACHED,
            decreases n - i,
        {
            bfs.map.set(i, UNREACHED);
            i = i + 1;
        }
        assert(bfs.map@ =~= Seq::new(old(bfs).map@.len(), |i: int| UNREACHED));
    }

    /// Builds the BFS map from the given starting tiles, each at depth 0.
    /// Each step adds one to the depth, whatever the exit's cost.
    pub fn build(bfs: &mut BfsMap, starts: &[usize], exits: &Exits)
        requires
            old(bfs).wf(),
            graph_ok(exits@, old(bfs).depths().len() as int),
            forall|j: int| 0 <= j < starts@.len() ==> starts@[j] < old(bfs).depths().len(),
        ensures
            final(bfs).wf(),
            final(bfs).size_x_spec() == old(bfs).size_x_spec(),
            final(bfs).size_y_spec() == old(bfs).size_y_spec(),
            final(bfs).max_depth_spec() == old(bfs).max_depth_spec(),
            flow_result(
                exits@,
                zero_depths(starts@),
                old(bfs).depths(),
                old(bfs).max_depth_spec() as int,
                true,
                final(bfs).depths(),
            ),
    {
        let weighted = with_zero_depth(starts);
        BfsMap::build_weighted(bfs, weighted.as_slice(), exits);
    }

    /// Builds the BFS map: each start is a tile and the depth it starts at.
    /// Each step adds one to the depth, whatever the exit's cost; a tile is
    /// only updated when its depth decreases and stays below `max_depth`.
    pub fn build_weighted(bfs: &mut BfsMap, starts: &[(usize, u32)], exits: &Exits)
        requires
            old(bfs).wf(),
            graph_ok(exits@, old(bfs).depths().len() as int),
            forall|j: int| 0 <= j < starts@.len() ==> starts@[j].0 < old(bfs).depths().len(),
        ensures
            final(bfs).wf(),
            final(bfs).size_x_spec() == old(bfs).size_x_spec(),
            final(bfs).size_y_spec() == old(bfs).size_y_spec(),
            final(bfs).max_depth_spec() == old(bfs).max_depth_spec(),
            flow_result(
                exits@,
                starts@,
                old(bfs).depths(),
                old(bfs).max_depth_spec() as int,
                true,
                final(bfs).depths(),
            ),
    {
        let max_depth = bfs.max_depth;
        let n = bfs.map.len();
        let ghost g = exits@;
        let ghost st = starts@;
        let ghost before = bfs.map@;
        let ghost mut node_w: Seq<Walk> = Seq::new(n as nat, |i: int| start_walk(st, 0));
        let ghost mut queue_w: Seq<Walk> = Seq::empty();
        let mut open_list: VecDeque<(usize, u32)> = VecDeque::new();

        let mut j: usize = 0;
        while j < starts.len()
            invariant
                bfs.wf(),
                bfs.size_x == old(bfs).size_x,
                bfs.size_y == old(bfs).size_y,
                bfs.max_depth == max_depth,
                max_depth == old(bfs).max_depth,
                n == bfs.map@.len(),
                g == exits@,
                st == starts@,
                before == old(bfs).map@,
                graph_ok(g, n as int),
                forall|j: int| 0 <= j < st.len() ==> st[j].0 < n,
                j <= st.len(),
                node_w.len() == n,
                queue_w.len() == open_list@.len(),
                forall|v: int| 0 <= v < n ==> #[trigger] bfs.map@[v] <= before[v],
                forall|i: int|
                    0 <= i < j && (#[trigger] st[i]).1 < max_depth ==> bfs.map@[st[i].0 as int]
                        <= st[i].1,
                forall|v: int|
                    0 <= v < n && #[trigger] bfs.map@[v] < before[v] ==> bfs.map@[v] < max_depth
                        && witnesses(g, st, before, true, node_w[v], v, bfs.map@[v] as int),
                forall|i: int|
                    0 <= i < open_list@.len() ==> entry_ok(
                        g,
                        st,
                        before,
                        bfs.map@,
                        max_depth as int,
                        true,
                        #[trigger] open_list@[i],
                        queue_w[i],
                    ),
                forall|u: int|
                    0 <= u < n && #[trigger] bfs.map@[u] < before[u] ==> open_list@.contains(
                        (u as usize, bfs.map@[u]),
                    ) || settled(g, bfs.map@, max_depth as int, true, u),
            decreases st.len() - j,
        {
            let (start, depth) = starts[j];
            if depth < bfs.map[start] && depth < max_depth {
                proof {
                    let w = start_walk(st, j as int);
                    assert(prefix_cost(st[j as int].1 as int, w.costs, true, 0) == depth);
                    assert(witnesses(g, st, before, true, w, start as int, depth as int));
                    node_w = node_w.update(start as int, w);
                    queue_w = queue_w.push(w);
                }
                let ghost prev = open_list@;
                bfs.map.set(start, depth);
                open_list.push_back((start, depth));
                proof {
                    assert forall|i: int| 0 <= i < open_list@.len() implies entry_ok(
                        g,
                        st,
                        before,
                        bfs.map@,
                        max_depth as int,
                        true,
                        #[trigger] open_list@[i],
                        queue_w[i],
                    ) by {
                        if i < prev.len() {
                            assert(open_list@[i] == prev[i]);
                        }
                    }
                    assert forall|u: int|
                        0 <= u < n && #[trigger] bfs.map@[u] < before[u] implies open_list@.contains(
                            (u as usize, bfs.map@[u]),
                        ) || settled(g, bfs.map@, max_depth as int, true, u) by {
                        if u == start {
                            assert(open_list@[open_list@.len() - 1] == (u as usize, bfs.map@[u]));
                        } else if prev.contains((u as usize, bfs.map@[u])) {
                            let k = choose|k: int| 0 <= k < prev.len() && prev[k] == (u as usize, bfs.map@[u]);
                            assert(open_list@[k] == prev[k]);
                        }
                    }
                }
            }
            j = j + 1;
        }

        while open_list.len() > 0
            invariant
                bfs.wf(),
                bfs.size_x == old(bfs).size_x,
                bfs.size_y == old(bfs).size_y,
                bfs.max_depth == max_depth,
                max_depth == old(bfs).max_depth,
                n == bfs.map@.len(),
                g == exits@,
                st == starts@,
                before == old(bfs).map@,
                graph_ok(g, n as int),
                forall|j: int| 0 <= j < st.len() ==> st[j].0 < n,
                node_w.len() == n,
                queue_w.len() == open_list@.len(),
                forall|v: int| 0 <= v < n ==> #[trigger] bfs.map@[v] <= before[v],
                forall|i: int|
                    0 <= i < st.len() && (#[trigger] st[i]).1 < max_depth ==> bfs.map@[st[i].0 as int]
                        <= st[i].1,
                forall|v: int|
                    0 <= v < n && #[trigger] bfs.map@[v] < before[v] ==> bfs.map@[v] < max_depth
                        && witnesses(g, st, before, true, node_w[v], v, bfs.map@[v] as int),
                forall|i: int|
                    0 <= i < open_list@.len() ==> entry_ok(
                        g,
                        st,
                        before,
                        bfs.map@,
                        max_depth as int,
                        true,
                        #[trigger] open_list@[i],
                        queue_w[i],
                    ),
                forall|u: int|
                    0 <= u < n && #[trigger] bfs.map@[u] < before[u] ==> open_list@.contains(
                        (u as usize, bfs.map@[u]),
                    ) || settled(g, bfs.map@, max_depth as int, true, u),
            decreases seq_sum(bfs.map@), open_list@.len(),
        {
            let ghost sum0 = seq_sum(bfs.map@);
            let ghost len0 = open_list@.len();
            let ghost q0 = open_list@;
            let (tile_idx, depth) = open_list.pop_front().unwrap();
            let ghost wu = queue_w[0];
            proof {
                assert(entry_ok(g, st, before, bfs.map@, max_depth as int, true, q0[0], queue_w[0]));
                queue_w = queue_w.drop_first();
                assert forall|u: int|
                    0 <= u < n && #[trigger] bfs.map@[u] < before[u] && u != tile_idx implies open_list@.contains(
                        (u as usize, bfs.map@[u]),
                    ) || settled(g, bfs.map@, max_depth as int, true, u) by {
                    if q0.contains((u as usize, bfs.map@[u])) {
                        let k = choose|k: int| 0 <= k < q0.len() && q0[k] == (u as usize, bfs.map@[u]);
                        assert(k != 0);
                        assert(open_list@[k - 1] == q0[k]);
                    }
                }
                if depth != bfs.map@[tile_idx as int] && bfs.map@[tile_idx as int] < before[tile_idx as int] {
                    let u = tile_idx as int;
                    if q0.contains((u as usize, bfs.map@[u])) {
                        let k = choose|k: int| 0 <= k < q0.len() && q0[k] == (u as usize, bfs.map@[u]);
                        assert(k != 0);
                        assert(open_list@[k - 1] == q0[k]);
                    }
                }
            }
            let ghost pending = depth != bfs.map@[tile_idx as int];
            let tile_exits = &exits[tile_idx];
            let mut k: usize = 0;
            let ghost mut pushes: int = 0;
            while k < tile_exits.len()
                invariant
                    bfs.wf(),
                    bfs.size_x == old(bfs).size_x,
                    bfs.size_y == old(bfs).size_y,
                    bfs.max_depth == max_depth,
                    max_depth == old(bfs).max_depth,
                    n == bfs.map@.len(),
                    g == exits@,
                    st == starts@,
                    before == old(bfs).map@,
                    graph_ok(g, n as int),
                    forall|j: int| 0 <= j < st.len() ==> st[j].0 < n,
                    0 <= tile_idx < n,
                    tile_exits@ == g[tile_idx as int]@,
                    k <= tile_exits@.len(),
                    node_w.len() == n,
                    queue_w.len() == open_list@.len(),
                    witnesses(g, st, before, true, wu, tile_idx as int, depth as int),
                    depth < max_depth,
                    bfs.map@[tile_idx as int] <= depth,
                    pending == (depth != bfs.map@[tile_idx as int]),
                    pending ==> open_list@.contains((tile_idx, bfs.map@[tile_idx as int])) || settled(
                        g,
                        bfs.map@,
                        max_depth as int,
                        true,
                        tile_idx as int,
                    ),
                    forall|v: int| 0 <= v < n ==> #[trigger] bfs.map@[v] <= before[v],
                    forall|i: int|
                        0 <= i < st.len() && (#[trigger] st[i]).1 < max_depth ==> bfs.map@[st[i].0 as int]
                            <= st[i].1,
                    forall|v: int|
                        0 <= v < n && #[trigger] bfs.map@[v] < before[v] ==> bfs.map@[v] < max_depth
                            && witnesses(g, st, before, true, node_w[v], v, bfs.map@[v] as int),
                    forall|i: int|
                        0 <= i < open_list@.len() ==> entry_ok(
                            g,
                            st,
                            before,
                            bfs.map@,
                            max_depth as int,
                            true,
                            #[trigger] open_list@[i],
                            queue_w[i],
                        ),
                    forall|u: int|
                        0 <= u < n && #[trigger] bfs.map@[u] < before[u] && u != tile_idx ==> open_list@.contains(
                            (u as usize, bfs.map@[u]),
                        ) || settled(g, bfs.map@, max_depth as int, true, u),
                    forall|kk: int|
                        0 <= kk < k && depth + 1 < max_depth ==> bfs.map@[(#[trigger] g[tile_idx as int]@[kk]).0 as int]
                            <= depth + 1,
                    pushes >= 0,
                    open_list@.len() == len0 - 1 + pushes,
                    seq_sum(bfs.map@) <= sum0 - pushes,
                decreases tile_exits.len() - k,
            {
                let (new_idx, cost) = tile_exits[k];
                assert(g[tile_idx as int]@[k as int] == (new_idx, cost));
                let new_depth = depth + 1;
                let prev_depth = bfs.map[new_idx];
                if new_depth < prev_depth && new_depth < max_depth {
                    let ghost prev_q = open_list@;
                    let ghost prev_map = bfs.map@;
                    proof {
                        lemma_extend_witness(g, st, before, true, wu, tile_idx as int, depth as int, k as int);
                        let w2 = extend(wu, new_idx, cost);
                        node_w = node_w.update(new_idx as int, w2);
                        queue_w = queue_w.push(w2);
                        lemma_sum_update(bfs.map@, new_idx as int, new_depth);
                    }
                    bfs.map.set(new_idx, new_depth);
                    open_list.push_back((new_idx, new_depth));
                    proof {
                        pushes = pushes + 1;
                        assert forall|i: int|
                            0 <= i < st.len() && (#[trigger] st[i]).1 < max_depth implies bfs.map@[st[i].0 as int]
                                <= st[i].1 by {
                            assert(prev_map[st[i].0 as int] <= st[i].1);
                        }
                        assert forall|i: int| 0 <= i < open_list@.len() implies entry_ok(
                            g,
                            st,
                            before,
                            bfs.map@,
                            max_depth as int,
                            true,
                            #[trigger] open_list@[i],
                            queue_w[i],
                        ) by {
                            if i < prev_q.len() {
                                assert(open_list@[i] == prev_q[i]);
                            }
                        }
                        assert forall|u: int|
                            0 <= u < n && #[trigger] bfs.map@[u] < before[u] && u != tile_idx implies open_list@.contains(
                                (u as usize, bfs.map@[u]),
                            ) || settled(g, bfs.map@, max_depth as int, true, u) by {
                            if u == new_idx {
                                assert(open_list@[open_list@.len() - 1] == (u as usize, bfs.map@[u]));
                            } else if prev_q.contains((u as usize, bfs.map@[u])) {
                                let kq = choose|kq: int| 0 <= kq < prev_q.len() && prev_q[kq] == (u as usize, bfs.map@[u]);
                                assert(open_list@[kq] == prev_q[kq]);
                            } else {
                                assert(settled(g, prev_map, max_depth as int, true, u));
                                assert forall|kk: int|
                                    0 <= kk < g[u]@.len() && bfs.map@[u] + step_cost((#[trigger] g[u]@[kk]).1, true)
                                        < max_depth implies bfs.map@[g[u]@[kk].0 as int] <= bfs.map@[u]
                                        + step_cost(g[u]@[kk].1, true) by {
                                    assert(prev_map[g[u]@[kk].0 as int] <= prev_map[u] + step_cost(g[u]@[kk].1, true));
                                }
                            }
                        }
                        if pending {
                            let u = tile_idx as int;
                            if prev_q.contains((tile_idx, bfs.map@[u])) {
                                let kq = choose|kq: int| 0 <= kq < prev_q.len() && prev_q[kq] == (tile_idx, bfs.map@[u]);
                                assert(open_list@[kq] == prev_q[kq]);
                            } else {
                                assert forall|kk: int|
                                    0 <= kk < g[u]@.len() && bfs.map@[u] + step_cost((#[trigger] g[u]@[kk]).1, true)
                                        < max_depth implies bfs.map@[g[u]@[kk].0 as int] <= bfs.map@[u]
                                        + step_cost(g[u]@[kk].1, true) by {
                                    assert(prev_map[g[u]@[kk].0 as int] <= prev_map[u] + step_cost(g[u]@[kk].1, true));
                                }
                            }
                        }
                    }
                }
                k = k + 1;
            }
            proof {
                lemma_sum_nonneg(bfs.map@);
                if !pending && bfs.map@[tile_idx as int] < before[tile_idx as int] {
                    let u = tile_idx as int;
                    assert forall|kk: int|
                        0 <= kk < g[u]@.len() && bfs.map@[u] + step_cost((#[trigger] g[u]@[kk]).1, true)
                            < max_depth implies bfs.map@[g[u]@[kk].0 as int] <= bfs.map@[u]
                            + step_cost(g[u]@[kk].1, true) by {
                    }
                }
            }
        }
        proof {
            assert forall|u: int|
                0 <= u < n && #[trigger] bfs.map@[u] < before[u] implies settled(
                g,
                bfs.map@,
                max_depth as int,
                true,
                u,
            ) by {
                assert(!open_list@.contains((u as usize, bfs.map@[u])));
            }
            assert forall|v: int|
                0 <= v < n && #[trigger] bfs.map@[v] < before[v] implies bfs.map@[v] < max_depth
                    && exists|w: Walk| witnesses(g, st, before, true, w, v, bfs.map@[v] as int) by {
                assert(witnesses(g, st, before, true, node_w[v], v, bfs.map@[v] as int));
            }
        }
    }

    /// The tile to step to when pathing towards a start: the target of the
    /// first exit of `position` with the lowest depth, or `None` when
    /// `position` has no exits.
    pub fn find_lowest_exit(bfs: &BfsMap, position: usize, exits: &Exits) -> (r: Option<usize>)
        requires
            bfs.wf(),
            graph_ok(exits@, bfs.depths().len() as int),
            position < exits@.len(),
        ensures
            exits@[position as int]@.len() == 0 <==> r is None,
            r matches Some(t) ==> exists|i: int|
                is_first_lowest(bfs.depths(), exits@[position as int]@, i)
                    && exits@[position as int]@[i].0 == t,
    {
        lowest_exit(&bfs.map, &exits[position])
    }

    /// The tile to step to when pathing away from a start: the target of
    /// the first exit of `position` with the highest depth, or `None` when
    /// `position` has no exits.
    pub fn find_highest_exit(bfs: &BfsMap, position: usize, exits: &Exits) -> (r: Option<usize>)
        requires
            bfs.wf(),
            graph_ok(exits@, bfs.depths().len() as int),
            position < exits@.len(),
        ensures
            exits@[position as int]@.len() == 0 <==> r is None,
            r matches Some(t) ==> exists|i: int|
                is_first_highest(bfs.depths(), exits@[position as int]@, i)
                    && exits@[position as int]@[i].0 == t,
    {
        highest_exit(&bfs.map, &exits[position])
    }
}

/// Each start at depth 0.
pub open spec fn zero_depths(starts: Seq<usize>) -> Seq<(usize, u32)> {
    starts.map_values(|s: usize| (s, 0u32))
}

/// Pairs each start with depth 0.
pub(crate) fn with_zero_depth(starts: &[usize]) -> (out: Vec<(usize, u32)>)
    ensures
        out@ == zero_depths(starts@),
{
    let mut out: Vec<(usize, u32)> = Vec::new();
    let mut i: usize = 0;
    while i < starts.len()
        invariant
            i <= starts@.len(),
            out@ == zero_depths(starts@.take(i as int)),
        decreases starts.len() - i,
    {
        proof {
            assert(starts@.take(i + 1) =~= starts@.take(i as int).push(starts@[i as int]));
        }
        out.push((starts[i], 0));
        proof {
            assert(out@ =~= zero_depths(starts@.take(i + 1)));
        }
        i = i + 1;
    }
    proof {
        assert(starts@.take(starts@.len() as int) =~= starts@);
    }
    out
}

/// A map of `n` unreached tiles.
pub fn unreached_map(n: usize) -> (map: Vec<u32>)
    ensures
        map@ == Seq::new(n as nat, |i: int| UNREACHED),
{
    let mut map: Vec<u32> = Vec::new();
    let mut i: usize = 0;
    while i < n
        invariant
            i <= n,
            map@ == Seq::new(i as nat, |i: int| UNREACHED),
        decreases n - i,
    {
        map.push(UNREACHED);
        proof {
            assert(map@ =~= Seq::new((i + 1) as nat, |i: int| UNREACHED));
        }
        i = i + 1;
    }
    map
}

} // verus!
