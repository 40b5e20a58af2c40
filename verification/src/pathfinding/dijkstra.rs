use vstd::prelude::*;
use crate::pathfinding::bfs::{unreached_map, with_zero_depth, zero_depths};
use crate::pathfinding::parallel::{
    THREADED_REQUIRED_STARTS, chunk_starts, merge_layers, par_fresh_layers, thread_count,
};
use crate::pathfinding::flow::{
    chunk, lemma_merged_layers_flow, merged, min_depth, unreached_seq,
    Exits, UNREACHED, entry_ok, Walk, highest_exit, is_first_highest, is_first_lowest, lowest_exit, extend, flow_result, graph_ok, lemma_extend_witness, lemma_sum_nonneg, lemma_sum_update,
    prefix_cost, seq_sum, settled, start_walk, step_cost, witnesses,
};

verus! {

/// A Dijkstra flow map: `map[idx]` is the lowest total exit cost from a
/// start to tile `idx`, or `UNREACHED`. Searches stop at `max_depth`.
pub struct DijkstraMap {
    pub map: Vec<u32>,
    pub size_x: usize,
    pub size_y: usize,
    pub max_depth: u32,
}

impl DijkstraMap {
    /// The map holds one depth per tile.
    pub open spec fn wf(&self) -> bool {
        self.map@.len() == self.size_x * self.size_y
    }

    /// The depth held for each tile.
    pub open spec fn depths(&self) -> Seq<u32> {
        self.map@
    }

    /// The width of the map.
    pub open spec fn size_x_spec(&self) -> usize {
        self.size_x
    }

    /// The height of the map.
    pub open spec fn size_y_spec(&self) -> usize {
        self.size_y
    }

    /// The depth at which searches stop.
    pub open spec fn max_depth_spec(&self) -> u32 {
        self.max_depth
    }

    /// Creates an empty Dijkstra map: every tile unreached.
    pub fn new_empty(size_x: usize, size_y: usize, max_depth: u32) -> (dm: DijkstraMap)
        requires
            size_x * size_y <= usize::MAX,
        ensures
            dm.wf(),
            dm.size_x_spec() == size_x,
            dm.size_y_spec() == size_y,
            dm.max_depth_spec() == max_depth,
            dm.depths() == Seq::new((size_x * size_y) as nat, |i: int| UNREACHED),
    {
        let n = size_x * size_y;
        let map = unreached_map(n);
        DijkstraMap { map, size_x, size_y, max_depth }
    }

    /// Builds a new Dijkstra map from the given starting tiles, each at depth 0.
    pub fn new(size_x: usize, size_y: usize, starts: &[usize], exits: &Exits, max_depth: u32) -> (dm: DijkstraMap)
        requires
            size_x * size_y <= usize::MAX,
            graph_ok(exits@, size_x * size_y),
            forall|j: int| 0 <= j < starts@.len() ==> starts@[j] < size_x * size_y,
        ensures
            dm.wf(),
            dm.size_x_spec() == size_x,
            dm.size_y_spec() == size_y,
            dm.max_depth_spec() == max_depth,
            flow_result(
                exits@,
                zero_depths(starts@),
                Seq::new((size_x * size_y) as nat, |i: int| UNREACHED),
                max_depth as int,
                false,
                dm.depths(),
            ),
    {
        let mut dm = DijkstraMap::new_empty(size_x, size_y, max_depth);
        DijkstraMap::build(&mut dm, starts, exits);
        dm
    }

    /// Builds a new Dijkstra map; each start is a tile and the depth it starts at.
    pub fn new_weighted(
        size_x: usize,
        size_y: usize,
        starts: &[(usize, u32)],
        exits: &Exits,
        max_depth: u32,
    ) -> (dm: DijkstraMap)
        requires
            size_x * size_y <= usize::MAX,
            graph_ok(exits@, size_x * size_y),
            forall|j: int| 0 <= j < starts@.len() ==> starts@[j].0 < size_x * size_y,
        ensures
            dm.wf(),
            dm.size_x_spec() == size_x,
            dm.size_y_spec() == size_y,
            dm.max_depth_spec() == max_depth,
            flow_result(
                exits@,
                starts@,
                Seq::new((size_x * size_y) as nat, |i: int| UNREACHED),
                max_depth as int,
                false,
                dm.depths(),
            ),
    {
        let mut dm = DijkstraMap::new_empty(size_x, size_y, max_depth);
        DijkstraMap::build_weighted(&mut dm, starts, exits);
        dm
    }

    /// Builds the map from the given starting tiles, each at depth 0, the
    /// way a threaded build does: the starts are cut into one run per
    /// thread, a layer is built from each run on an unreached map in
    /// parallel, and every tile takes the lowest of its depth and the
    /// layers' depths. The layers merge into the map a sequential build
    /// would make on an unreached map (see `lemma_fresh_flow_unique`).
    pub fn build_parallel(dm: &mut DijkstraMap, starts: &[usize], exits: &Exits)
        requires
            old(dm).wf(),
            graph_ok(exits@, old(dm).depths().len() as int),
            forall|j: int| 0 <= j < starts@.len() ==> starts@[j] < old(dm).depths().len(),
        ensures
            final(dm).wf(),
            final(dm).size_x_spec() == old(dm).size_x_spec(),
            final(dm).size_y_spec() == old(dm).size_y_spec(),
            final(dm).max_depth_spec() == old(dm).max_depth_spec(),
            final(dm).depths().len() == old(dm).depths().len(),
            exists|m: Seq<u32>|
                {
                    &&& #[trigger] flow_result(
                        exits@,
                        zero_depths(starts@),
                        unreached_seq(old(dm).depths().len() as int),
                        old(dm).max_depth_spec() as int,
                        false,
                        m,
                    )
                    &&& forall|v: int|
                        0 <= v < old(dm).depths().len() ==> final(dm).depths()[v] == min_depth(
                            old(dm).depths()[v],
                            #[trigger] m[v],
                        )
                },
    {
        let n_threads = thread_count();
        let weighted = with_zero_depth(starts);
        let chunks = chunk_starts(weighted.as_slice(), n_threads);
        let ghost cv = chunks@;
        let map_len = dm.map.len();
        let ghost n = dm.map@.len() as int;
        proof {
            assert(map_len == n);
            assert(dm.size_x * dm.size_y <= usize::MAX);
            assert forall|c: int, j: int| 0 <= c < chunks@.len() && 0 <= j < chunks@[c]@.len() implies (
            #[trigger] chunks@[c]@[j]).0 < dm.size_x * dm.size_y by {
                assert(chunks@[c]@ == chunk(weighted@, n_threads as int, c));
                assert(chunks@[c]@[j] == weighted@[c * n_threads + j]);
            }
        }
        let layers = par_fresh_layers(chunks, dm.size_x, dm.size_y, exits, dm.max_depth, false);
        let ghost lv = layers@.map_values(|l: Vec<u32>| l@);
        proof {
            assert forall|c: int| 0 <= c < lv.len() implies c * n_threads <= weighted@.len() && flow_result(
                exits@,
                #[trigger] chunk(weighted@, n_threads as int, c),
                Seq::new(n as nat, |i: int| UNREACHED),
                dm.max_depth as int,
                false,
                lv[c],
            ) by {
                assert(cv[c]@ == chunk(weighted@, n_threads as int, c));
                assert(c * n_threads < weighted@.len());
                assert(flow_result(
                    exits@,
                    cv[c]@,
                    Seq::new((dm.size_x * dm.size_y) as nat, |i: int| UNREACHED),
                    dm.max_depth as int,
                    false,
                    layers@[c]@,
                ));
            }
            lemma_merged_layers_flow(exits@, weighted@, n_threads as int, n, dm.max_depth as int, false, lv);
            assert forall|c: int| 0 <= c < layers@.len() implies (#[trigger] layers@[c])@.len() == dm.map@.len() by {
                assert(cv[c]@ == chunk(weighted@, n_threads as int, c));
                assert(flow_result(
                    exits@,
                    cv[c]@,
                    Seq::new((dm.size_x * dm.size_y) as nat, |i: int| UNREACHED),
                    dm.max_depth as int,
                    false,
                    layers@[c]@,
                ));
            }
        }
        merge_layers(&mut dm.map, &layers);
        proof {
            let m = merged(lv, n);
            assert(flow_result(
                exits@,
                zero_depths(starts@),
                unreached_seq(old(dm).depths().len() as int),
                old(dm).max_depth_spec() as int,
                false,
                m,
            ));
            assert(forall|v: int| 0 <= v < n ==> dm.map@[v] == min_depth(old(dm).map@[v], #[trigger] m[v]));
        }
    }

    /// Builds the map as a threaded build does: in parallel from
    /// more than `THREADED_REQUIRED_STARTS` starts (see [`DijkstraMap::build_parallel`]),
    /// sequentially otherwise (see [`DijkstraMap::build`]).
    pub fn build_threaded(dm: &mut DijkstraMap, starts: &[usize], exits: &Exits)
        requires
            old(dm).wf(),
            graph_ok(exits@, old(dm).depths().len() as int),
            forall|j: int| 0 <= j < starts@.len() ==> starts@[j] < old(dm).depths().len(),
        ensures
            final(dm).wf(),
            final(dm).size_x_spec() == old(dm).size_x_spec(),
            final(dm).size_y_spec() == old(dm).size_y_spec(),
            final(dm).max_depth_spec() == old(dm).max_depth_spec(),
            final(dm).depths().len() == old(dm).depths().len(),
            starts@.len() <= THREADED_REQUIRED_STARTS ==> flow_result(
                exits@,
                zero_depths(starts@),
                old(dm).depths(),
                old(dm).max_depth_spec() as int,
                false,
                final(dm).depths(),
            ),
            starts@.len() > THREADED_REQUIRED_STARTS ==> exists|m: Seq<u32>|
                {
                    &&& #[trigger] flow_result(
                        exits@,
                        zero_depths(starts@),
                        unreached_seq(old(dm).depths().len() as int),
                        old(dm).max_depth_spec() as int,
                        false,
                        m,
                    )
                    &&& forall|v: int|
                        0 <= v < old(dm).depths().len() ==> final(dm).depths()[v] == min_depth(
                            old(dm).depths()[v],
                            #[trigger] m[v],
                        )
                },
    {
        if starts.len() > THREADED_REQUIRED_STARTS {
            DijkstraMap::build_parallel(dm, starts, exits);
        } else {
            DijkstraMap::build(dm, starts, exits);
        }
    }

    /// The depths of a map where every tile starts unreached, built from
    /// the weighted starts: one layer of a parallel build.
    pub fn fresh_layer(
        size_x: usize,
        size_y: usize,
        starts: &[(usize, u32)],
        exits: &Exits,
        max_depth: u32,
    ) -> (layer: Vec<u32>)
        requires
            size_x * size_y <= usize::MAX,
            graph_ok(exits@, size_x * size_y),
            forall|j: int| 0 <= j < starts@.len() ==> starts@[j].0 < size_x * size_y,
        ensures
            flow_result(
                exits@,
                starts@,
                Seq::new((size_x * size_y) as nat, |i: int| UNREACHED),
                max_depth as int,
                false,
                layer@,
            ),
    {
        let dm = DijkstraMap::new_weighted(size_x, size_y, starts, exits, max_depth);
        dm.map
    }

    /// Clears the Dijkstra map: every tile becomes unreached.
    pub fn clear(dm: &mut DijkstraMap)
        ensures
            final(dm).size_x_spec() == old(dm).size_x_spec(),
            final(dm).size_y_spec() == old(dm).size_y_spec(),
            final(dm).max_depth_spec() == old(dm).max_depth_spec(),
            final(dm).depths() == Seq::new(old(dm).depths().len(), |i: int| UNREACHED),
    {
        let n = dm.map.len();
        let mut i: usize = 0;
        while i < n
            invariant
                n == dm.map@.len(),
                i <= n,
                dm.size_x == old(dm).size_x,
                dm.size_y == old(dm).size_y,
                dm.max_depth == old(dm).max_depth,
                n == old(dm).map@.len(),
                forall|k: int| 0 <= k < i ==> dm.map@[k] == UNREACHED,
            decreases n - i,
        {
            dm.map.set(i, UNREACHED);
            i = i + 1;
        }
        assert(dm.map@ =~= Seq::new(old(dm).map@.len(), |i: int| UNREACHED));
    }

    /// Builds the Dijkstra map from the given starting tiles, each at depth 0.
    /// Each step adds the exit's cost to the depth.
    pub fn build(dm: &mut DijkstraMap, starts: &[usize], exits: &Exits)
        requires
            old(dm).wf(),
            graph_ok(exits@, old(dm).depths().len() as int),
            forall|j: int| 0 <= j < starts@.len() ==> starts@[j] < old(dm).depths().len(),
        ensures
            final(dm).wf(),
            final(dm).size_x_spec() == old(dm).size_x_spec(),
            final(dm).size_y_spec() == old(dm).size_y_spec(),
            final(dm).max_depth_spec() == old(dm).max_depth_spec(),
            flow_result(
                exits@,
                zero_depths(starts@),
                old(dm).depths(),
                old(dm).max_depth_spec() as int,
                false,
                final(dm).depths(),
            ),
    {
        let weighted = with_zero_depth(starts);
        DijkstraMap::build_weighted(dm, weighted.as_slice(), exits);
    }

    /// Builds the Dijkstra map: each start is a tile and the depth it starts at.
    /// Each step adds the exit's cost to the depth; a tile is only updated
    /// when its depth decreases and stays below `max_depth`. Queued tiles are
    /// expanded cheapest first, and a queued depth that has since been
    /// beaten is skipped.
    pub fn build_weighted(dm: &mut DijkstraMap, starts: &[(usize, u32)], exits: &Exits)
        requires
            old(dm).wf(),
            graph_ok(exits@, old(dm).depths().len() as int),
            forall|j: int| 0 <= j < starts@.len() ==> starts@[j].0 < old(dm).depths().len(),
        ensures
            final(dm).wf(),
            final(dm).size_x_spec() == old(dm).size_x_spec(),
            final(dm).size_y_spec() == old(dm).size_y_spec(),
            final(dm).max_depth_spec() == old(dm).max_depth_spec(),
            flow_result(
                exits@,
                starts@,
                old(dm).depths(),
                old(dm).max_depth_spec() as int,
                false,
                final(dm).depths(),
            ),
    {
        let max_depth = dm.max_depth;
        let n = dm.map.len();
        let ghost g = exits@;
        let ghost st = starts@;
        let ghost before = dm.map@;
        let ghost mut node_w: Seq<Walk> = Seq::new(n as nat, |i: int| start_walk(st, 0));
        let ghost mut queue_w: Seq<Walk> = Seq::empty();
        let mut open_list: Vec<(usize, u32)> = Vec::new();

        let mut j: usize = 0;
        while j < starts.len()
            invariant
                dm.wf(),
                dm.size_x == old(dm).size_x,
                dm.size_y == old(dm).size_y,
                dm.max_depth == max_depth,
                max_depth == old(dm).max_depth,
                n == dm.map@.len(),
                g == exits@,
                st == starts@,
                before == old(dm).map@,
                graph_ok(g, n as int),
                forall|j: int| 0 <= j < st.len() ==> st[j].0 < n,
                j <= st.len(),
                node_w.len() == n,
                queue_w.len() == open_list@.len(),
                forall|v: int| 0 <= v < n ==> #[trigger] dm.map@[v] <= before[v],
                forall|i: int|
                    0 <= i < j && (#[trigger] st[i]).1 < max_depth ==> dm.map@[st[i].0 as int]
                        <= st[i].1,
                forall|v: int|
                    0 <= v < n && #[trigger] dm.map@[v] < before[v] ==> dm.map@[v] < max_depth
                        && witnesses(g, st, before, false, node_w[v], v, dm.map@[v] as int),
                forall|i: int|
                    0 <= i < open_list@.len() ==> entry_ok(
                        g,
                        st,
                        before,
                        dm.map@,
                        max_depth as int,
                        false,
                        #[trigger] open_list@[i],
                        queue_w[i],
                    ),
                forall|u: int|
                    0 <= u < n && #[trigger] dm.map@[u] < before[u] ==> open_list@.contains(
                        (u as usize, dm.map@[u]),
                    ) || settled(g, dm.map@, max_depth as int, false, u),
            decreases st.len() - j,
        {
            let (start, depth) = starts[j];
            if depth < dm.map[start] && depth < max_depth {
                proof {
                    let w = start_walk(st, j as int);
                    assert(prefix_cost(st[j as int].1 as int, w.costs, false, 0) == depth);
                    assert(witnesses(g, st, before, false, w, start as int, depth as int));
                    node_w = node_w.update(start as int, w);
                    queue_w = queue_w.push(w);
                }
                let ghost prev = open_list@;
                dm.map.set(start, depth);
                open_list.push((start, depth));
                proof {
                    assert forall|i: int| 0 <= i < open_list@.len() implies entry_ok(
                        g,
                        st,
                        before,
                        dm.map@,
                        max_depth as int,
                        false,
                        #[trigger] open_list@[i],
                        queue_w[i],
                    ) by {
                        if i < prev.len() {
                            assert(open_list@[i] == prev[i]);
                        }
                    }
                    assert forall|u: int|
                        0 <= u < n && #[trigger] dm.map@[u] < before[u] implies open_list@.contains(
                            (u as usize, dm.map@[u]),
                        ) || settled(g, dm.map@, max_depth as int, false, u) by {
                        if u == start {
                            assert(open_list@[open_list@.len() - 1] == (u as usize, dm.map@[u]));
                        } else if prev.contains((u as usize, dm.map@[u])) {
                            let k = choose|k: int| 0 <= k < prev.len() && prev[k] == (u as usize, dm.map@[u]);
                            assert(open_list@[k] == prev[k]);
                        }
                    }
                }
            }
            j = j + 1;
        }

        while open_list.len() > 0
            invariant
                dm.wf(),
                dm.size_x == old(dm).size_x,
                dm.size_y == old(dm).size_y,
                dm.max_depth == max_depth,
                max_depth == old(dm).max_depth,
                n == dm.map@.len(),
                g == exits@,
                st == starts@,
                before == old(dm).map@,
                graph_ok(g, n as int),
                forall|j: int| 0 <= j < st.len() ==> st[j].0 < n,
                node_w.len() == n,
                queue_w.len() == open_list@.len(),
                forall|v: int| 0 <= v < n ==> #[trigger] dm.map@[v] <= before[v],
                forall|i: int|
                    0 <= i < st.len() && (#[trigger] st[i]).1 < max_depth ==> dm.map@[st[i].0 as int]
                        <= st[i].1,
                forall|v: int|
                    0 <= v < n && #[trigger] dm.map@[v] < before[v] ==> dm.map@[v] < max_depth
                        && witnesses(g, st, before, false, node_w[v], v, dm.map@[v] as int),
                forall|i: int|
                    0 <= i < open_list@.len() ==> entry_ok(
                        g,
                        st,
                        before,
                        dm.map@,
                        max_depth as int,
                        false,
                        #[trigger] open_list@[i],
                        queue_w[i],
                    ),
                forall|u: int|
                    0 <= u < n && #[trigger] dm.map@[u] < before[u] ==> open_list@.contains(
                        (u as usize, dm.map@[u]),
                    ) || settled(g, dm.map@, max_depth as int, false, u),
            decreases seq_sum(dm.map@), open_list@.len(),
        {
            let ghost sum0 = seq_sum(dm.map@);
            let ghost len0 = open_list@.len();
            let ghost q0 = open_list@;
            let pick = cheapest_entry(&open_list);
            let (tile_idx, depth) = open_list.remove(pick);
            let ghost wu = queue_w[pick as int];
            proof {
                assert(entry_ok(g, st, before, dm.map@, max_depth as int, false, q0[pick as int], queue_w[pick as int]));
                let qw0 = queue_w;
                queue_w = queue_w.remove(pick as int);
                assert forall|i: int| 0 <= i < open_list@.len() implies entry_ok(
                    g,
                    st,
                    before,
                    dm.map@,
                    max_depth as int,
                    false,
                    #[trigger] open_list@[i],
                    queue_w[i],
                ) by {
                    if i < pick {
                        assert(open_list@[i] == q0[i] && queue_w[i] == qw0[i]);
                    } else {
                        assert(open_list@[i] == q0[i + 1] && queue_w[i] == qw0[i + 1]);
                    }
                }
                assert forall|u: int|
                    0 <= u < n && #[trigger] dm.map@[u] < before[u] && (u != tile_idx || depth != dm.map@[u])
                        implies open_list@.contains((u as usize, dm.map@[u])) || settled(
                        g,
                        dm.map@,
                        max_depth as int,
                        false,
                        u,
                    ) by {
                    if q0.contains((u as usize, dm.map@[u])) {
                        let k = choose|k: int| 0 <= k < q0.len() && q0[k] == (u as usize, dm.map@[u]);
                        assert(k != pick);
                        if k < pick {
                            assert(open_list@[k] == q0[k]);
                        } else {
                            assert(open_list@[k - 1] == q0[k]);
                        }
                    }
                }
            }
            if depth > dm.map[tile_idx] {
                proof {
                    lemma_sum_nonneg(dm.map@);
                }
                continue;
            }
            let ghost pending = false;
            let tile_exits = &exits[tile_idx];
            let mut k: usize = 0;
            let ghost mut pushes: int = 0;
            while k < tile_exits.len()
                invariant
                    dm.wf(),
                    dm.size_x == old(dm).size_x,
                    dm.size_y == old(dm).size_y,
                    dm.max_depth == max_depth,
                    max_depth == old(dm).max_depth,
                    n == dm.map@.len(),
                    g == exits@,
                    st == starts@,
                    before == old(dm).map@,
                    graph_ok(g, n as int),
                    forall|j: int| 0 <= j < st.len() ==> st[j].0 < n,
                    0 <= tile_idx < n,
                    tile_exits@ == g[tile_idx as int]@,
                    k <= tile_exits@.len(),
                    node_w.len() == n,
                    queue_w.len() == open_list@.len(),
                    witnesses(g, st, before, false, wu, tile_idx as int, depth as int),
                    depth < max_depth,
                    dm.map@[tile_idx as int] <= depth,
                    pending == (depth != dm.map@[tile_idx as int]),
                    pending ==> open_list@.contains((tile_idx, dm.map@[tile_idx as int])) || settled(
                        g,
                        dm.map@,
                        max_depth as int,
                        false,
                        tile_idx as int,
                    ),
                    forall|v: int| 0 <= v < n ==> #[trigger] dm.map@[v] <= before[v],
                    forall|i: int|
                        0 <= i < st.len() && (#[trigger] st[i]).1 < max_depth ==> dm.map@[st[i].0 as int]
                            <= st[i].1,
                    forall|v: int|
                        0 <= v < n && #[trigger] dm.map@[v] < before[v] ==> dm.map@[v] < max_depth
                            && witnesses(g, st, before, false, node_w[v], v, dm.map@[v] as int),
                    forall|i: int|
                        0 <= i < open_list@.len() ==> entry_ok(
                            g,
                            st,
                            before,
                            dm.map@,
                            max_depth as int,
                            false,
                            #[trigger] open_list@[i],
                            queue_w[i],
                        ),
                    forall|u: int|
                        0 <= u < n && #[trigger] dm.map@[u] < before[u] && u != tile_idx ==> open_list@.contains(
                            (u as usize, dm.map@[u]),
                        ) || settled(g, dm.map@, max_depth as int, false, u),
                    forall|kk: int|
                        0 <= kk < k && depth + (#[trigger] g[tile_idx as int]@[kk]).1 < max_depth ==> dm.map@[g[tile_idx as int]@[kk].0 as int]
                            <= depth + g[tile_idx as int]@[kk].1,
                    pushes >= 0,
                    open_list@.len() == len0 - 1 + pushes,
                    seq_sum(dm.map@) <= sum0 - pushes,
                decreases tile_exits.len() - k,
            {
                let (new_idx, cost) = tile_exits[k];
                assert(g[tile_idx as int]@[k as int] == (new_idx, cost));
                let new_depth_wide: u64 = depth as u64 + cost as u64;
                let prev_depth = dm.map[new_idx];
                if new_depth_wide < prev_depth as u64 && new_depth_wide < max_depth as u64 {
                    let new_depth = new_depth_wide as u32;
                    let ghost prev_q = open_list@;
                    let ghost prev_map = dm.map@;
                    proof {
                        lemma_extend_witness(g, st, before, false, wu, tile_idx as int, depth as int, k as int);
                        let w2 = extend(wu, new_idx, cost);
                        node_w = node_w.update(new_idx as int, w2);
                        queue_w = queue_w.push(w2);
                        lemma_sum_update(dm.map@, new_idx as int, new_depth);
                    }
                    dm.map.set(new_idx, new_depth);
                    open_list.push((new_idx, new_depth));
                    proof {
                        pushes = pushes + 1;
                        assert forall|i: int|
                            0 <= i < st.len() && (#[trigger] st[i]).1 < max_depth implies dm.map@[st[i].0 as int]
                                <= st[i].1 by {
                            assert(prev_map[st[i].0 as int] <= st[i].1);
                        }
                        assert forall|i: int| 0 <= i < open_list@.len() implies entry_ok(
                            g,
                            st,
                            before,
                            dm.map@,
                            max_depth as int,
                            false,
                            #[trigger] open_list@[i],
                            queue_w[i],
                        ) by {
                            if i < prev_q.len() {
                                assert(open_list@[i] == prev_q[i]);
                            }
                        }
                        assert forall|u: int|
                            0 <= u < n && #[trigger] dm.map@[u] < before[u] && u != tile_idx implies open_list@.contains(
                                (u as usize, dm.map@[u]),
                            ) || settled(g, dm.map@, max_depth as int, false, u) by {
                            if u == new_idx {
                                assert(open_list@[open_list@.len() - 1] == (u as usize, dm.map@[u]));
                            } else if prev_q.contains((u as usize, dm.map@[u])) {
                                let kq = choose|kq: int| 0 <= kq < prev_q.len() && prev_q[kq] == (u as usize, dm.map@[u]);
                                assert(open_list@[kq] == prev_q[kq]);
                            } else {
                                assert(settled(g, prev_map, max_depth as int, false, u));
                                assert forall|kk: int|
                                    0 <= kk < g[u]@.len() && dm.map@[u] + step_cost((#[trigger] g[u]@[kk]).1, false)
                                        < max_depth implies dm.map@[g[u]@[kk].0 as int] <= dm.map@[u]
                                        + step_cost(g[u]@[kk].1, false) by {
                                    assert(prev_map[g[u]@[kk].0 as int] <= prev_map[u] + step_cost(g[u]@[kk].1, false));
                                }
                            }
                        }
                        if pending {
                            let u = tile_idx as int;
                            if prev_q.contains((tile_idx, dm.map@[u])) {
                                let kq = choose|kq: int| 0 <= kq < prev_q.len() && prev_q[kq] == (tile_idx, dm.map@[u]);
                                assert(open_list@[kq] == prev_q[kq]);
                            } else {
                                assert forall|kk: int|
                                    0 <= kk < g[u]@.len() && dm.map@[u] + step_cost((#[trigger] g[u]@[kk]).1, false)
                                        < max_depth implies dm.map@[g[u]@[kk].0 as int] <= dm.map@[u]
                                        + step_cost(g[u]@[kk].1, false) by {
                                    assert(prev_map[g[u]@[kk].0 as int] <= prev_map[u] + step_cost(g[u]@[kk].1, false));
                                }
                            }
                        }
                    }
                }
                k = k + 1;
            }
            proof {
                lemma_sum_nonneg(dm.map@);
                if !pending && dm.map@[tile_idx as int] < before[tile_idx as int] {
                    let u = tile_idx as int;
                    assert forall|kk: int|
                        0 <= kk < g[u]@.len() && dm.map@[u] + step_cost((#[trigger] g[u]@[kk]).1, false)
                            < max_depth implies dm.map@[g[u]@[kk].0 as int] <= dm.map@[u]
                            + step_cost(g[u]@[kk].1, false) by {
                    }
                }
            }
        }
        proof {
            assert forall|u: int|
                0 <= u < n && #[trigger] dm.map@[u] < before[u] implies settled(
                g,
                dm.map@,
                max_depth as int,
                false,
                u,
            ) by {
                assert(!open_list@.contains((u as usize, dm.map@[u])));
            }
            assert forall|v: int|
                0 <= v < n && #[trigger] dm.map@[v] < before[v] implies dm.map@[v] < max_depth
                    && exists|w: Walk| witnesses(g, st, before, false, w, v, dm.map@[v] as int) by {
                assert(witnesses(g, st, before, false, node_w[v], v, dm.map@[v] as int));
            }
        }
    }

    /// The tile to step to when pathing towards a start: the target of the
    /// first exit of `position` with the lowest depth, or `None` when
    /// `position` has no exits.
    pub fn find_lowest_exit(dm: &DijkstraMap, position: usize, exits: &Exits) -> (r: Option<usize>)
        requires
            dm.wf(),
            graph_ok(exits@, dm.depths().len() as int),
            position < exits@.len(),
        ensures
            exits@[position as int]@.len() == 0 <==> r is None,
            r matches Some(t) ==> exists|i: int|
                is_first_lowest(dm.depths(), exits@[position as int]@, i)
                    && exits@[position as int]@[i].0 == t,
    {
        lowest_exit(&dm.map, &exits[position])
    }

    /// The tile to step to when pathing away from a start: the target of
    /// the first exit of `position` with the highest depth, or `None` when
    /// `position` has no exits.
    pub fn find_highest_exit(dm: &DijkstraMap, position: usize, exits: &Exits) -> (r: Option<usize>)
        requires
            dm.wf(),
            graph_ok(exits@, dm.depths().len() as int),
            position < exits@.len(),
        ensures
            exits@[position as int]@.len() == 0 <==> r is None,
            r matches Some(t) ==> exists|i: int|
                is_first_highest(dm.depths(), exits@[position as int]@, i)
                    && exits@[position as int]@[i].0 == t,
    {
        highest_exit(&dm.map, &exits[position])
    }
}

/// The index of the queued entry to expand next: the lowest depth, and among
/// equal depths the highest tile index.
fn cheapest_entry(q: &Vec<(usize, u32)>) -> (pick: usize)
    requires
        q@.len() > 0,
    ensures
        pick < q@.len(),
        forall|i: int| 0 <= i < q@.len() ==> q@[pick as int].1 <= (#[trigger] q@[i]).1,
{
    let mut pick: usize = 0;
    let mut i: usize = 1;
    while i < q.len()
        invariant
            pick < i <= q@.len(),
            forall|j: int| 0 <= j < i ==> q@[pick as int].1 <= (#[trigger] q@[j]).1,
        decreases q.len() - i,
    {
        if q[i].1 < q[pick].1 || (q[i].1 == q[pick].1 && q[i].0 > q[pick].0) {
            pick = i;
        }
        i = i + 1;
    }
    pick
}

} // verus!
