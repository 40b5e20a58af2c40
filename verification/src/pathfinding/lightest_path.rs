use vstd::prelude::*;
use crate::pathfinding::floyd_warshall::{fw_dist, initial_matrix, lemma_fw_nonneg, lemma_fw_pivot_stable};

verus! {

/// The total weight of the path through `nodes`, each step from `a` to `b`
/// weighing `initial_matrix(.., a, b)`: what the matrix held for the pair
/// before the relaxation rounds.
pub open spec fn path_weight(g: Seq<Vec<(usize, u32)>>, n: int, before: Seq<u32>, nodes: Seq<int>) -> int
    decreases nodes.len(),
{
    if nodes.len() < 2 {
        0
    } else {
        path_weight(g, n, before, nodes.drop_last()) + initial_matrix(
            g,
            n,
            before,
            nodes[nodes.len() - 2],
            nodes.last(),
        )
    }
}

/// `nodes` is a path of at least one step from `s` to `e` whose inner
/// tiles all lie in `0..k`.
pub open spec fn path_within(nodes: Seq<int>, s: int, e: int, k: int) -> bool {
    &&& nodes.len() >= 2
    &&& nodes[0] == s
    &&& nodes.last() == e
    &&& forall|i: int| 0 < i < nodes.len() - 1 ==> 0 <= #[trigger] nodes[i] < k
}

proof fn lemma_path_weight_nonneg(g: Seq<Vec<(usize, u32)>>, n: int, before: Seq<u32>, nodes: Seq<int>)
    ensures
        path_weight(g, n, before, nodes) >= 0,
    decreases nodes.len(),
{
    if nodes.len() >= 2 {
        lemma_path_weight_nonneg(g, n, before, nodes.drop_last());
        lemma_fw_nonneg(g, n, before, 0, nodes[nodes.len() - 2], nodes.last());
    }
}

/// The weight of a path is the weight up to any of its tiles plus the
/// weight from there.
proof fn lemma_path_weight_split(g: Seq<Vec<(usize, u32)>>, n: int, before: Seq<u32>, nodes: Seq<int>, i: int)
    requires
        0 <= i < nodes.len(),
    ensures
        path_weight(g, n, before, nodes) == path_weight(g, n, before, nodes.take(i + 1)) + path_weight(
            g,
            n,
            before,
            nodes.skip(i),
        ),
    decreases nodes.len(),
{
    if i == nodes.len() - 1 {
        assert(nodes.take(i + 1) =~= nodes);
        assert(nodes.skip(i).len() == 1);
    } else {
        let d = nodes.drop_last();
        lemma_path_weight_split(g, n, before, d, i);
        assert(d.take(i + 1) =~= nodes.take(i + 1));
        assert(nodes.skip(i).drop_last() =~= d.skip(i));
        let t = nodes.skip(i);
        assert(t[t.len() - 2] == nodes[nodes.len() - 2]);
        assert(t.last() == nodes.last());
    }
}

/// Joining a path that ends where a second one starts adds their weights.
proof fn lemma_path_weight_join(g: Seq<Vec<(usize, u32)>>, n: int, before: Seq<u32>, a: Seq<int>, b: Seq<int>)
    requires
        a.len() >= 1,
        b.len() >= 1,
        a.last() == b[0],
    ensures
        path_weight(g, n, before, a + b.drop_first()) == path_weight(g, n, before, a) + path_weight(
            g,
            n,
            before,
            b,
        ),
{
    let j = a + b.drop_first();
    let i = a.len() - 1;
    lemma_path_weight_split(g, n, before, j, i);
    assert(j.take(i + 1) =~= a);
    assert(j.skip(i) =~= b);
}

/// Some path with inner tiles in `0..k` has exactly the weight
/// `fw_dist(.., k, s, e)`.
proof fn lemma_fw_witness(g: Seq<Vec<(usize, u32)>>, n: int, before: Seq<u32>, k: int, s: int, e: int)
    requires
        0 <= k <= n,
        0 <= s < n,
        0 <= e < n,
    ensures
        exists|nodes: Seq<int>|
            path_within(nodes, s, e, k) && #[trigger] path_weight(g, n, before, nodes) == fw_dist(g, n, before, k, s, e),
    decreases k,
{
    if k == 0 {
        let nodes = seq![s, e];
        assert(nodes.drop_last() =~= seq![s]);
        assert(path_weight(g, n, before, seq![s]) == 0);
        assert(nodes[nodes.len() - 2] == s && nodes.last() == e);
        assert(path_within(nodes, s, e, k));
        assert(path_weight(g, n, before, nodes) == fw_dist(g, n, before, k, s, e));
    } else {
        let m = k - 1;
        lemma_fw_witness(g, n, before, m, s, e);
        lemma_fw_witness(g, n, before, m, s, m);
        lemma_fw_witness(g, n, before, m, m, e);
        if fw_dist(g, n, before, m, s, e) <= fw_dist(g, n, before, m, s, m) + fw_dist(g, n, before, m, m, e) {
            let p = choose|p: Seq<int>| path_within(p, s, e, m) && #[trigger] path_weight(g, n, before, p) == fw_dist(g, n, before, m, s, e);
            assert(path_within(p, s, e, k));
        } else {
            let p1 = choose|p: Seq<int>| path_within(p, s, m, m) && #[trigger] path_weight(g, n, before, p) == fw_dist(g, n, before, m, s, m);
            let p2 = choose|p: Seq<int>| path_within(p, m, e, m) && #[trigger] path_weight(g, n, before, p) == fw_dist(g, n, before, m, m, e);
            lemma_path_weight_join(g, n, before, p1, p2);
            let j = p1 + p2.drop_first();
            assert forall|i: int| 0 < i < j.len() - 1 implies 0 <= #[trigger] j[i] < k by {
                if i < p1.len() - 1 {
                    assert(j[i] == p1[i]);
                } else if i == p1.len() - 1 {
                    assert(j[i] == p1.last());
                } else {
                    assert(j[i] == p2[i - p1.len() + 1]);
                }
            }
            assert(j.last() == p2.last());
            assert(path_within(j, s, e, k));
            assert(path_weight(g, n, before, j) == fw_dist(g, n, before, k, s, e));
        }
    }
}

/// No path with inner tiles in `0..k` weighs less than
/// `fw_dist(.., k, s, e)`.
proof fn lemma_fw_optimal(
    g: Seq<Vec<(usize, u32)>>,
    n: int,
    before: Seq<u32>,
    k: int,
    s: int,
    e: int,
    nodes: Seq<int>,
)
    requires
        0 <= k <= n,
        path_within(nodes, s, e, k),
    ensures
        fw_dist(g, n, before, k, s, e) <= path_weight(g, n, before, nodes),
    decreases k, nodes.len(),
{
    if k == 0 {
        if nodes.len() > 2 {
            let x: int = 1;
            assert(0 < x < nodes.len() - 1);
            assert(0 <= nodes[x] < k);
        }
        assert(nodes.len() == 2);
        assert(nodes.drop_last() =~= seq![s]);
        assert(path_weight(g, n, before, seq![s]) == 0);
    } else {
        let m = k - 1;
        if exists|i: int| 0 < i < nodes.len() - 1 && #[trigger] nodes[i] == m {
            let i = choose|i: int| 0 < i < nodes.len() - 1 && #[trigger] nodes[i] == m;
            let pre = nodes.take(i + 1);
            let suf = nodes.skip(i);
            lemma_path_weight_split(g, n, before, nodes, i);
            assert forall|x: int| 0 < x < pre.len() - 1 implies 0 <= #[trigger] pre[x] < k by {
                assert(pre[x] == nodes[x]);
            }
            assert forall|x: int| 0 < x < suf.len() - 1 implies 0 <= #[trigger] suf[x] < k by {
                assert(suf[x] == nodes[x + i]);
            }
            assert(suf.last() == nodes.last());
            lemma_fw_optimal(g, n, before, k, s, m, pre);
            lemma_fw_optimal(g, n, before, k, m, e, suf);
            lemma_fw_pivot_stable(g, n, before, m, s);
            lemma_fw_pivot_stable(g, n, before, m, e);
        } else {
            assert forall|x: int| 0 < x < nodes.len() - 1 implies 0 <= #[trigger] nodes[x] < m by {
                assert(nodes[x] != m);
            }
            lemma_fw_optimal(g, n, before, m, s, e, nodes);
        }
    }
}

/// After the relaxation rounds each entry is the weight of the lightest
/// path between its two tiles, where a step from `a` to `b` weighs what the
/// matrix held for that pair before the rounds: the cost of the last exit
/// from `a` to `b`, 0 from a tile to itself when it has no such exit, and
/// the old entry otherwise (`UNREACHED` for a new map).
pub proof fn lemma_fw_lightest_path(g: Seq<Vec<(usize, u32)>>, n: int, before: Seq<u32>, s: int, e: int)
    requires
        0 <= s < n,
        0 <= e < n,
    ensures
        exists|nodes: Seq<int>|
            path_within(nodes, s, e, n) && #[trigger] path_weight(g, n, before, nodes) == fw_dist(g, n, before, n, s, e),
        forall|nodes: Seq<int>|
            path_within(nodes, s, e, n) ==> fw_dist(g, n, before, n, s, e) <= #[trigger] path_weight(
                g,
                n,
                before,
                nodes,
            ),
{
    lemma_fw_witness(g, n, before, n, s, e);
    assert forall|nodes: Seq<int>| path_within(nodes, s, e, n) implies fw_dist(g, n, before, n, s, e)
        <= #[trigger] path_weight(g, n, before, nodes) by {
        lemma_fw_optimal(g, n, before, n, s, e, nodes);
    }
}

} // verus!
