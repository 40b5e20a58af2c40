use vstd::prelude::*;
use rayon::iter::{IntoParallelIterator, ParallelIterator};
use crate::pathfinding::bfs::BfsMap;
use crate::pathfinding::dijkstra::DijkstraMap;
use crate::pathfinding::flow::{Exits, UNREACHED, chunk, flow_result, graph_ok, min_depth, min_over};

verus! {

/// A threaded build splits its work when it has more starts than this.
pub const THREADED_REQUIRED_STARTS: usize = 4;

/// Calls `rayon::current_num_threads`, the number of threads in the current
/// thread pool. Rayon's pool builder never makes a pool without a thread,
/// so it is at least one; which number comes back depends on the machine
/// and the environment and is not stated.
#[verifier::external_body]
fn rayon_thread_count() -> (n: usize)
    ensures
        n >= 1,
{
    rayon::current_num_threads()
}

/// The number of threads a parallel build splits its starts over.
pub fn thread_count() -> (n: usize)
    ensures
        n >= 1,
{
    rayon_thread_count()
}

/// One layer of a parallel build: a breadth-first (`unit`) or Dijkstra
/// flow map built from `starts` on a map where every tile is unreached.
pub fn fresh_layer(
    size_x: usize,
    size_y: usize,
    starts: &[(usize, u32)],
    exits: &Exits,
    max_depth: u32,
    unit: bool,
) -> (layer: Vec<u32>)
    requires
        size_x * size_y <= usize::MAX,
        graph_ok(exits@, size_x * size_y),
        forall|j: int| 0 <= j < starts@.len() ==> starts@[j].0 < size_x * size_y,
    ensures
        flow_result(
            exits@,
            starts@,
            Seq::new((size_x * size_y) as nat, |i: int| UNREACHED),
            max_depth as int,
            unit,
            layer@,
        ),
{
    if unit {
        BfsMap::fresh_layer(size_x, size_y, starts, exits, max_depth)
    } else {
        DijkstraMap::fresh_layer(size_x, size_y, starts, exits, max_depth)
    }
}

/// Builds one layer per chunk of starts on rayon's thread pool, with
/// `into_par_iter().map(..).collect()`: each chunk is handed to
/// [`fresh_layer`], and the layers come back in the chunks' order, as
/// rayon's indexed collect keeps it.
#[verifier::external_body]
pub(crate) fn par_fresh_layers(
    chunks: Vec<Vec<(usize, u32)>>,
    size_x: usize,
    size_y: usize,
    exits: &Exits,
    max_depth: u32,
    unit: bool,
) -> (layers: Vec<Vec<u32>>)
    requires
        size_x * size_y <= usize::MAX,
        graph_ok(exits@, size_x * size_y),
        forall|c: int, j: int|
            0 <= c < chunks@.len() && 0 <= j < chunks@[c]@.len() ==> (#[trigger] chunks@[c]@[j]).0 < size_x
                * size_y,
    ensures
        layers@.len() == chunks@.len(),
        forall|c: int|
            0 <= c < chunks@.len() ==> flow_result(
                exits@,
                chunks@[c]@,
                Seq::new((size_x * size_y) as nat, |i: int| UNREACHED),
                max_depth as int,
                unit,
                #[trigger] layers@[c]@,
            ),
{
    chunks.into_par_iter().map(|c| fresh_layer(size_x, size_y, &c, exits, max_depth, unit)).collect()
}

/// Cuts the starts into runs of `k`, the last one possibly shorter: chunk
/// `c` holds the starts from `c * k` on.
pub fn chunk_starts(starts: &[(usize, u32)], k: usize) -> (chunks: Vec<Vec<(usize, u32)>>)
    requires
        k > 0,
    ensures
        chunks@.len() * k >= starts@.len(),
        forall|c: int| 0 <= c < chunks@.len() ==> (#[trigger] chunks@[c])@ == chunk(starts@, k as int, c),
        forall|c: int| 0 <= c < chunks@.len() ==> #[trigger] (c * k) < starts@.len(),
{
    let mut chunks: Vec<Vec<(usize, u32)>> = Vec::new();
    let mut start: usize = 0;
    let ghost mut covered: int = 0;
    proof {
        assert(chunks@.len() * k == 0) by (nonlinear_arith)
            requires chunks@.len() == 0;
    }
    while start < starts.len()
        invariant
            k > 0,
            start <= starts@.len(),
            covered == chunks@.len() * k,
            start == covered || start == starts@.len(),
            covered >= start,
            forall|c: int| 0 <= c < chunks@.len() ==> (#[trigger] chunks@[c])@ == chunk(starts@, k as int, c),
            forall|c: int| 0 <= c < chunks@.len() ==> #[trigger] (c * k) < starts@.len(),
        decreases starts@.len() - start,
    {
        let end = if starts.len() - start > k { start + k } else { starts.len() };
        let mut piece: Vec<(usize, u32)> = Vec::new();
        let mut i = start;
        while i < end
            invariant
                start <= i <= end,
                end <= starts@.len(),
                piece@ == starts@.subrange(start as int, i as int),
            decreases end - i,
        {
            piece.push(starts[i]);
            proof {
                assert(piece@ =~= starts@.subrange(start as int, i + 1));
            }
            i = i + 1;
        }
        let ghost c = chunks@.len() as int;
        proof {
            assert(c * k == start);
            assert(piece@ =~= chunk(starts@, k as int, c));
            assert((c + 1) * k == c * k + k) by (nonlinear_arith);
        }
        let ghost prev = chunks@;
        let ghost piece_view = piece@;
        chunks.push(piece);
        proof {
            covered = covered + k;
            assert forall|c2: int| 0 <= c2 < chunks@.len() implies #[trigger] (c2 * k) < starts@.len() by {
                if c2 == c {
                    assert(c2 * k == start);
                }
            }
            assert forall|c2: int| 0 <= c2 < chunks@.len() implies (#[trigger] chunks@[c2])@
                == chunk(starts@, k as int, c2) by {
                if c2 < c {
                    assert(chunks@[c2] == prev[c2]);
                } else {
                    assert(c2 == c);
                    assert(chunks@[c2]@ == piece_view);
                }
            }
        }
        start = end;
    }
    chunks
}

/// Lowers each depth of `map` to the lowest depth the layers hold for that
/// tile.
pub fn merge_layers(map: &mut Vec<u32>, layers: &Vec<Vec<u32>>)
    requires
        forall|c: int| 0 <= c < layers@.len() ==> (#[trigger] layers@[c])@.len() == old(map)@.len(),
    ensures
        final(map)@.len() == old(map)@.len(),
        forall|v: int|
            0 <= v < old(map)@.len() ==> final(map)@[v] == min_depth(
                old(map)@[v],
                min_over(layers@.map_values(|l: Vec<u32>| l@), v),
            ),
{
    let ghost all = layers@.map_values(|l: Vec<u32>| l@);
    let n = map.len();
    let mut c: usize = 0;
    while c < layers.len()
        invariant
            n == map@.len(),
            n == old(map)@.len(),
            c <= layers@.len(),
            all == layers@.map_values(|l: Vec<u32>| l@),
            forall|c2: int| 0 <= c2 < layers@.len() ==> (#[trigger] layers@[c2])@.len() == n,
            forall|v: int|
                0 <= v < n ==> map@[v] == min_depth(old(map)@[v], min_over(all.take(c as int), v)),
        decreases layers@.len() - c,
    {
        let layer = &layers[c];
        let ghost before = map@;
        proof {
            assert(all.take(c + 1).drop_last() =~= all.take(c as int));
            assert(all.take(c + 1).last() == layer@);
        }
        let mut v: usize = 0;
        while v < n
            invariant
                n == map@.len(),
                n == old(map)@.len(),
                layer@.len() == n,
                v <= n,
                forall|u: int| v <= u < n ==> map@[u] == before[u],
                forall|u: int| 0 <= u < v ==> map@[u] == min_depth(before[u], layer@[u]),
            decreases n - v,
        {
            let d = layer[v];
            if d < map[v] {
                map.set(v, d);
            }
            v = v + 1;
        }
        c = c + 1;
    }
    proof {
        assert(all.take(layers@.len() as int) =~= all);
    }
}

} // verus!
