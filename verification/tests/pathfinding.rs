use bracket::pathfinding::bfs::BfsMap;
use bracket::pathfinding::dijkstra::DijkstraMap;
use bracket::pathfinding::floyd_warshall::FloydWarshallMap;
use bracket::pathfinding::flow::{Exits, UNREACHED};
use bracket::pathfinding::parallel::{chunk_starts, merge_layers};

// 1 by 3 stripe of tiles.
//
// [0] --1--> [1] --2--> [2]
// [0] <--1-- [1] <--1-- [2]
fn mini_map() -> Exits {
    vec![vec![(1, 1)], vec![(0, 1), (2, 2)], vec![(1, 1)]]
}

fn weighted_shortcut_map() -> Exits {
    vec![vec![(1, 10), (2, 1)], vec![], vec![(1, 1)]]
}

#[test]
fn bfs_counts_edges_not_costs() {
    let map = weighted_shortcut_map();
    let bfs = BfsMap::new(3, 1, &[0], &map, 10);

    assert_eq!(bfs.map[0], 0);
    assert_eq!(bfs.map[1], 1);
    assert_eq!(bfs.map[2], 1);
}

#[test]
fn bfs_weighted_starts_add_their_cost() {
    let map = mini_map();
    let bfs = BfsMap::new_weighted(3, 1, &[(0, 1)], &map, 10);
    assert_eq!(bfs.map, vec![1, 2, 3]);
}

#[test]
fn bfs_stops_at_max_depth() {
    let map = mini_map();
    let bfs = BfsMap::new(3, 1, &[0], &map, 1);
    assert_eq!(bfs.map, vec![0, UNREACHED, UNREACHED]);
}

#[test]
fn bfs_exits_follow_the_depths() {
    let map = mini_map();
    let bfs = BfsMap::new(3, 1, &[0], &map, 10);
    assert_eq!(BfsMap::find_lowest_exit(&bfs, 1, &map), Some(0));
    assert_eq!(BfsMap::find_highest_exit(&bfs, 1, &map), Some(2));
    let none: Exits = vec![vec![], vec![], vec![]];
    assert_eq!(BfsMap::find_lowest_exit(&bfs, 1, &none), None);
    assert_eq!(BfsMap::find_highest_exit(&bfs, 1, &none), None);
}

#[test]
fn bfs_clear_forgets_depths() {
    let map = mini_map();
    let mut bfs = BfsMap::new(3, 1, &[0], &map, 10);
    BfsMap::clear(&mut bfs);
    assert_eq!(bfs.map, vec![UNREACHED; 3]);
}

#[test]
fn dijkstra_test_new() {
    let map = mini_map();
    let from_zero = DijkstraMap::new(3, 1, &[0], &map, 10);
    let from_one = DijkstraMap::new(3, 1, &[1], &map, 10);
    let from_both = DijkstraMap::new(3, 1, &[0, 1], &map, 10);

    assert_eq!(from_zero.map, vec![0, 1, 3]);
    assert_eq!(from_one.map, vec![1, 0, 2]);
    assert_eq!(from_both.map, vec![0, 0, 2]);
}

#[test]
fn test_new_weighted() {
    let map = mini_map();
    let from_zero = DijkstraMap::new_weighted(3, 1, &[(0, 1)], &map, 10);
    let from_one = DijkstraMap::new_weighted(3, 1, &[(1, 0)], &map, 10);
    let from_both = DijkstraMap::new_weighted(3, 1, &[(0, 1), (1, 0)], &map, 10);

    assert_eq!(from_zero.map, vec![1, 2, 4]);
    assert_eq!(from_one.map, vec![1, 0, 2]);
    assert_eq!(from_both.map, vec![1, 0, 2]);
}

#[test]
fn test_new_empty() {
    let map = DijkstraMap::new_empty(4, 1, 10);

    assert_eq!(map.map.len(), 4);
    assert!(map.map.iter().all(|depth| *depth == UNREACHED));
}

#[test]
fn test_clear() {
    let mut map = DijkstraMap::new_empty(4, 1, 10);
    map.map[1] = 1;
    map.map[3] = 3;

    DijkstraMap::clear(&mut map);

    assert_eq!(map.map.len(), 4);
    assert!(map.map.iter().all(|depth| *depth == UNREACHED));
}

#[test]
fn dijkstra_test_lowest_exit() {
    let map = mini_map();
    let exits_map = DijkstraMap::new(3, 1, &[0], &map, 10);
    let target = DijkstraMap::find_lowest_exit(&exits_map, 0, &map);
    assert_eq!(target, Some(1));
    let target = DijkstraMap::find_lowest_exit(&exits_map, 1, &map);
    assert_eq!(target, Some(0));
}

#[test]
fn dijkstra_test_highest_exit() {
    let map = mini_map();
    let exits_map = DijkstraMap::new(3, 1, &[0], &map, 10);
    let target = DijkstraMap::find_highest_exit(&exits_map, 0, &map);
    assert_eq!(target, Some(1));
    let target = DijkstraMap::find_highest_exit(&exits_map, 1, &map);
    assert_eq!(target, Some(2));
}

#[test]
fn dijkstra_follows_lowest_total_cost() {
    let map = weighted_shortcut_map();
    let dijkstra = DijkstraMap::new(3, 1, &[0], &map, 10);

    assert_eq!(dijkstra.map[0], 0);
    assert_eq!(dijkstra.map[1], 2);
    assert_eq!(dijkstra.map[2], 1);
}

#[test]
fn dijkstra_leaves_tiles_past_max_depth_unreached() {
    let map = mini_map();
    let dijkstra = DijkstraMap::new(3, 1, &[0], &map, 2);
    assert_eq!(dijkstra.map, vec![0, 1, UNREACHED]);
}

#[test]
fn dijkstra_rebuild_starts_from_new_sources() {
    let map = mini_map();
    let mut dijkstra = DijkstraMap::new(3, 1, &[0], &map, 10);
    DijkstraMap::clear(&mut dijkstra);
    DijkstraMap::build(&mut dijkstra, &[2], &map);
    assert_eq!(dijkstra.map, vec![2, 1, 0]);
}

#[test]
fn floyd_warshall_test_new() {
    let map = mini_map();

    let test_map = FloydWarshallMap::new(3, 1, &map, 10);
    assert_eq!(test_map.depth_map, vec![0, 1, 3, 1, 0, 2, 2, 1, 0]);
}

#[test]
fn floyd_warshall_test_lowest_exit() {
    let map = mini_map();
    let exits_map = FloydWarshallMap::new(3, 1, &map, 10);
    let target = FloydWarshallMap::find_lowest_exit(&exits_map, 0, &map);
    assert_eq!(target, Some(1));
    let target = FloydWarshallMap::find_lowest_exit(&exits_map, 1, &map);
    assert_eq!(target, Some(0));
}

#[test]
fn floyd_warshall_lowest_exit_is_an_exit_beyond_max_depth() {
    let map = mini_map();
    let exits_map = FloydWarshallMap::new(3, 1, &map, 0);
    assert_eq!(FloydWarshallMap::find_lowest_exit(&exits_map, 2, &map), Some(1));
    assert_eq!(FloydWarshallMap::find_lowest_exit(&exits_map, 1, &map), Some(0));
}

#[test]
fn floyd_warshall_test_highest_exit() {
    let map = mini_map();
    let exits_map = FloydWarshallMap::new(3, 1, &map, 10);
    let target = FloydWarshallMap::find_highest_exit(&exits_map, 0, &map);
    assert_eq!(target, Some(1));
    let target = FloydWarshallMap::find_highest_exit(&exits_map, 1, &map);
    assert_eq!(target, Some(2));
}

#[test]
fn floyd_warshall_index_is_row_major() {
    let map = mini_map();
    let fm = FloydWarshallMap::new(3, 1, &map, 10);
    assert_eq!(fm.idx_helper(2, 1), 7);
    assert_eq!(fm.depth_map[fm.idx_helper(2, 0)], 2);
}

fn grid_exits(w: usize, h: usize) -> Exits {
    let mut exits = Vec::new();
    for y in 0..h {
        for x in 0..w {
            let mut e = Vec::new();
            if x > 0 {
                e.push((y * w + x - 1, 2));
            }
            if x + 1 < w {
                e.push((y * w + x + 1, 1));
            }
            if y > 0 {
                e.push(((y - 1) * w + x, 3));
            }
            if y + 1 < h {
                e.push(((y + 1) * w + x, 1));
            }
            exits.push(e);
        }
    }
    exits
}

#[test]
fn bfs_parallel_build_matches_sequential_build() {
    let exits = grid_exits(6, 5);
    let starts = [0, 7, 13, 29, 22, 4];
    let sequential = BfsMap::new(6, 5, &starts, &exits, 100);
    let mut parallel = BfsMap::new_empty(6, 5, 100);
    BfsMap::build_parallel(&mut parallel, &starts, &exits);
    assert_eq!(parallel.map, sequential.map);
}

#[test]
fn dijkstra_parallel_build_matches_sequential_build() {
    let exits = grid_exits(6, 5);
    let starts = [0, 7, 13, 29, 22, 4];
    let sequential = DijkstraMap::new(6, 5, &starts, &exits, 9);
    let mut parallel = DijkstraMap::new_empty(6, 5, 9);
    DijkstraMap::build_parallel(&mut parallel, &starts, &exits);
    assert_eq!(parallel.map, sequential.map);
    let shallow = DijkstraMap::new(6, 5, &[0, 29, 3, 26], &exits, 2);
    let mut shallow_parallel = DijkstraMap::new_empty(6, 5, 2);
    DijkstraMap::build_parallel(&mut shallow_parallel, &[0, 29, 3, 26], &exits);
    assert_eq!(shallow_parallel.map, shallow.map);
    assert!(shallow.map.iter().any(|d| *d == UNREACHED));
}

#[test]
fn parallel_build_keeps_lower_existing_depths() {
    let exits = mini_map();
    let mut dm = DijkstraMap::new_empty(3, 1, 10);
    dm.map[2] = 1;
    DijkstraMap::build_parallel(&mut dm, &[0], &exits);
    assert_eq!(dm.map, vec![0, 1, 1]);
}

#[test]
fn starts_are_chunked_in_runs() {
    let starts = [(1, 0), (2, 0), (3, 0), (4, 0), (5, 0)];
    let chunks = chunk_starts(&starts, 2);
    assert_eq!(chunks, vec![vec![(1, 0), (2, 0)], vec![(3, 0), (4, 0)], vec![(5, 0)]]);
    assert!(chunk_starts(&[], 3).is_empty());
    let mut map = vec![5, UNREACHED, 2];
    merge_layers(&mut map, &vec![vec![7, 3, UNREACHED], vec![4, UNREACHED, 9]]);
    assert_eq!(map, vec![4, 3, 2]);
}

#[test]
fn threaded_build_picks_parallel_above_four_starts() {
    let exits = grid_exits(4, 4);
    let mut few = BfsMap::new_empty(4, 4, 50);
    BfsMap::build_threaded(&mut few, &[0, 15], &exits);
    assert_eq!(few.map, BfsMap::new(4, 4, &[0, 15], &exits, 50).map);
    let mut many = DijkstraMap::new_empty(4, 4, 50);
    DijkstraMap::build_threaded(&mut many, &[0, 5, 10, 15, 3], &exits);
    assert_eq!(many.map, DijkstraMap::new(4, 4, &[0, 5, 10, 15, 3], &exits, 50).map);
    let mut four = BfsMap::new_empty(4, 4, 50);
    BfsMap::build_threaded(&mut four, &[0, 5, 10, 15], &exits);
    assert_eq!(four.map, BfsMap::new(4, 4, &[0, 5, 10, 15], &exits, 50).map);
}
