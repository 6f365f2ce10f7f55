//! Iterative-deepening A* below a list of first moves.
use vstd::prelude::*;
use std::sync::atomic::{AtomicBool, AtomicU32, Ordering};
use crate::cube::{all_moves, apply, apply_all, is_solved_cube, move_at, move_number, Move, RubiksCube};
use crate::solver::endgame::EndgameTable;
use crate::solver::heuristic::heuristic_of;
use crate::solver::{should_prune_spec, Solver};

verus! {

/// Whether the pairs in `s` are in non-decreasing order of their estimate.
pub open spec fn sorted_by_estimate(s: Seq<(Move, u32)>) -> bool {
    forall|a: int, b: int| 0 <= a < b < s.len() ==> s[a].1 <= s[b].1
}

/// Sorts candidate moves by their estimate, lowest first (insertion sort;
/// pairs with equal estimates may change places).
fn sort_by_estimate(v: &mut Vec<(Move, u32)>)
    ensures
        final(v)@.to_multiset() == old(v)@.to_multiset(),
        final(v)@.len() == old(v)@.len(),
        sorted_by_estimate(final(v)@),
{
    broadcast use vstd::seq_lib::to_multiset_update;
    broadcast use vstd::multiset::group_multiset_properties;
    let n = v.len();
    if n == 0 {
        return;
    }
    let mut i: usize = 1;
    while i < n
        invariant
            1 <= i <= n,
            n == v@.len(),
            v@.to_multiset() == old(v)@.to_multiset(),
            forall|a: int, b: int| 0 <= a < b < i ==> v@[a].1 <= v@[b].1,
        decreases n - i,
    {
        let mut j: usize = i;
        while j > 0 && v[j - 1].1 > v[j].1
            invariant
                0 <= j <= i < n,
                n == v@.len(),
                v@.to_multiset() == old(v)@.to_multiset(),
                forall|a: int, b: int| 0 <= a < b < j ==> v@[a].1 <= v@[b].1,
                forall|a: int, b: int| j <= a < b <= i ==> v@[a].1 <= v@[b].1,
                forall|a: int, b: int| 0 <= a < j && j < b <= i ==> v@[a].1 <= v@[b].1,
            decreases j,
        {
            let x = v[j - 1];
            let y = v[j];
            let ghost before = v@;
            v.set(j - 1, y);
            v.set(j, x);
            proof {
                let mid = before.update(j - 1, y);
                let m0 = before.to_multiset();
                assert(v@ == mid.update(j as int, x));
                assert(mid[j as int] == y);
                vstd::seq_lib::to_multiset_update(before, j - 1, y);
                vstd::seq_lib::to_multiset_update(mid, j as int, x);
                assert(mid.to_multiset() == m0.insert(y).remove(x));
                assert(v@.to_multiset() == m0.insert(y).remove(x).insert(x).remove(y));
                assert(m0.count(x) > 0) by {
                    assert(before.contains(x)) by {
                        assert(before[j - 1] == x);
                    }
                    vstd::seq_lib::to_multiset_contains(before, x);
                }
                assert(m0.insert(y).remove(x).insert(x).remove(y) =~= m0);
            }
            j -= 1;
        }
        i += 1;
    }
}


/// Node budget of the search below each first move.
pub const IDA_NODES_PER_THREAD: u64 = 30_000_000;

/// Initial bound on the solution length shared by the search workers.
pub const IDA_MAX_DEPTH: u32 = 50;

/// Largest threshold the search runs with, so that `g + h` fits in a `u32`.
pub const IDA_THRESHOLD_LIMIT: u32 = 4_294_966_995;

/// Outcome of one depth-bounded search.
pub enum SearchResult {
    /// The cube was solved; the path holds the moves.
    Found,
    /// Not solved within the threshold; carries the smallest estimate that
    /// exceeded it (`u32::MAX` when none, or when the node budget ran out).
    NotFound(u32),
}

/// The best solution length found so far by any worker. Other threads
/// write it at any time, so nothing is stated of the value read; the
/// searches are proved for every value it may hold.
fn load_best(best: &AtomicU32) -> u32 {
    best.load(Ordering::Relaxed)
}

/// Whether the caller asked the search to stop. Another thread sets the
/// flag at any time, so nothing is stated of the value read; the searches
/// are proved for either answer.
fn is_cancelled(cancel: &AtomicBool) -> bool {
    cancel.load(Ordering::Relaxed)
}

/// Whether a node with estimate `f` is cut off: its estimate passes the
/// threshold, or reaches the best solution length found so far.
pub fn over_bound(f: u32, threshold: u32, best: u32) -> (cut: bool)
    ensures
        cut == (f > threshold || f >= best),
{
    f > threshold || f >= best
}

/// At most six moves are pruned after any move (its own face and the
/// opposite face), so some move always remains.
proof fn lemma_some_move_kept(last: Option<Move>)
    ensures
        exists|i: int| 0 <= i < 18 && !should_prune_spec(#[trigger] all_moves()[i], last),
{
    match last {
        Some(l) => {
            if crate::cube::face_number(crate::cube::move_face(l)) < 2 {
                assert(!should_prune_spec(all_moves()[6], last));
            } else {
                assert(!should_prune_spec(all_moves()[0], last));
            }
        },
        None => {
            assert(!should_prune_spec(all_moves()[0], last));
        },
    }
}

/// No move of `path` after position `from` is one the search prunes after
/// the move before it.
pub open spec fn no_pruned_pairs(path: Seq<Move>, from: int) -> bool {
    forall|j: int| from <= j < path.len() && j >= 1 ==> !should_prune_spec(#[trigger] path[j], Some(path[j - 1]))
}

/// Reordering a list keeps a property held by every move in it.
proof fn lemma_reorder_keeps_unpruned(a: Seq<(Move, u32)>, b: Seq<(Move, u32)>, last: Option<Move>)
    requires
        a.to_multiset() == b.to_multiset(),
        forall|i: int| 0 <= i < a.len() ==> !should_prune_spec(#[trigger] a[i].0, last),
    ensures
        forall|i: int| 0 <= i < b.len() ==> !should_prune_spec(#[trigger] b[i].0, last),
{
    broadcast use vstd::seq_lib::group_to_multiset_ensures;
    assert forall|i: int| 0 <= i < b.len() implies !should_prune_spec(#[trigger] b[i].0, last) by {
        let x = b[i];
        assert(exists|k: int| 0 <= k < b.len() && b[k] == x);
        assert(b.contains(x));
        assert(b.to_multiset().count(x) > 0);
        assert(a.contains(x));
        let j = choose|j: int| 0 <= j < a.len() && a[j] == b[i];
        assert(!should_prune_spec(a[j].0, last));
    }
}

/// Each move of `ext` is one the search tries after the move before it
/// (after `last` for the first move).
pub open spec fn unpruned_from(ext: Seq<Move>, last: Option<Move>) -> bool {
    forall|j: int|
        0 <= j < ext.len() ==> !should_prune_spec(
            #[trigger] ext[j],
            if j == 0 {
                last
            } else {
                Some(ext[j - 1])
            },
        )
}

/// `ext` solves `c` along a path the search started at depth `g` after
/// `last` would follow to its end: no move is pruned, and at every cube on
/// the way (the first and the last included) the depth plus the estimate is
/// at most `threshold` and below `bound`.
pub open spec fn admitted_solution(
    table: EndgameTable,
    c: RubiksCube,
    g: int,
    threshold: int,
    bound: int,
    last: Option<Move>,
    ext: Seq<Move>,
) -> bool {
    &&& unpruned_from(ext, last)
    &&& is_solved_cube(apply_all(c, ext))
    &&& forall|k: int|
        0 <= k <= ext.len() ==> g + k + heuristic_of(table, #[trigger] apply_all(c, ext.take(k)))
            <= threshold && g + k + heuristic_of(table, apply_all(c, ext.take(k))) < bound
}

/// Whether `f` is cut off against `threshold` and `best` (see `over_bound`).
pub open spec fn over_bound_spec(f: int, threshold: int, best: int) -> bool {
    f > threshold || f >= best
}

/// What a search leaves behind: on `Found`, `path` grew by unpruned moves
/// (after `last`) that take the starting cube to the solved cube within
/// `threshold - g` moves, and the cube is left solved; on `NotFound`, cube
/// and path are as they were.
pub open spec fn search_outcome(
    r: SearchResult,
    c_old: RubiksCube,
    c_new: RubiksCube,
    p_old: Seq<Move>,
    p_new: Seq<Move>,
    g: u32,
    threshold: u32,
    last: Option<Move>,
) -> bool {
    match r {
        SearchResult::Found => {
            &&& p_new.len() >= p_old.len()
            &&& p_new.take(p_old.len() as int) == p_old
            &&& c_new == apply_all(c_old, p_new.skip(p_old.len() as int))
            &&& is_solved_cube(c_new)
            &&& p_new.len() - p_old.len() + g <= threshold
            &&& unpruned_from(p_new.skip(p_old.len() as int), last)
        },
        SearchResult::NotFound(_) => p_new == p_old && c_new == c_old,
    }
}

/// Reordering a list keeps every move that it holds.
proof fn lemma_reorder_keeps_moves(a: Seq<(Move, u32)>, b: Seq<(Move, u32)>, last: Option<Move>)
    requires
        a.to_multiset() == b.to_multiset(),
        forall|m: Move|
            !should_prune_spec(m, last) ==> exists|q: int| 0 <= q < a.len() && #[trigger] a[q].0 == m,
    ensures
        forall|m: Move|
            !should_prune_spec(m, last) ==> exists|q: int| 0 <= q < b.len() && #[trigger] b[q].0 == m,
{
    broadcast use vstd::seq_lib::group_to_multiset_ensures;
    assert forall|m: Move| !should_prune_spec(m, last) implies exists|q: int|
        0 <= q < b.len() && #[trigger] b[q].0 == m by {
        let q = choose|q: int| 0 <= q < a.len() && #[trigger] a[q].0 == m;
        let x = a[q];
        assert(a.contains(x));
        assert(b.to_multiset().count(x) > 0);
        assert(b.contains(x));
        let q2 = choose|q2: int| 0 <= q2 < b.len() && b[q2] == x;
        assert(b[q2].0 == m);
    }
}

/// An admitted solution goes through its first move to an admitted solution
/// one level deeper.
proof fn lemma_admitted_tail(
    table: EndgameTable,
    c: RubiksCube,
    g: int,
    threshold: int,
    bound: int,
    last: Option<Move>,
    ext: Seq<Move>,
)
    requires
        admitted_solution(table, c, g, threshold, bound, last, ext),
        ext.len() > 0,
    ensures
        !should_prune_spec(ext[0], last),
        admitted_solution(
            table,
            apply(c, ext[0]),
            g + 1,
            threshold,
            bound,
            Some(ext[0]),
            ext.skip(1),
        ),
{
    let m = ext[0];
    let rest = ext.skip(1);
    let c1 = apply(c, m);
    assert(apply_all(c, seq![m]) == c1) by {
        reveal_with_fuel(apply_all, 2);
        assert(seq![m].drop_last() =~= Seq::<Move>::empty());
    }
    assert(!should_prune_spec(ext[0], last));
    assert forall|k: int| 0 <= k <= rest.len() implies apply_all(c1, #[trigger] rest.take(k))
        == apply_all(c, ext.take(k + 1)) by {
        assert(ext.take(k + 1) =~= seq![m] + rest.take(k));
        crate::cube::lemma_apply_all_concat(c, seq![m], rest.take(k));
    }
    assert forall|k: int| 0 <= k <= rest.len() implies g + 1 + k + heuristic_of(
        table,
        #[trigger] apply_all(c1, rest.take(k)),
    ) <= threshold && g + 1 + k + heuristic_of(table, apply_all(c1, rest.take(k))) < bound by {
        assert(apply_all(c1, rest.take(k)) == apply_all(c, ext.take(k + 1)));
    }
    assert(apply_all(c1, rest) == apply_all(c, ext)) by {
        assert(rest.take(rest.len() as int) =~= rest);
        assert(ext.take(ext.len() as int) =~= ext);
        assert(apply_all(c1, rest.take(rest.len() as int)) == apply_all(c, ext.take(rest.len() as int + 1)));
    }
    assert forall|j: int| 0 <= j < rest.len() implies !should_prune_spec(
        #[trigger] rest[j],
        if j == 0 {
            Some(m)
        } else {
            Some(rest[j - 1])
        },
    ) by {
        assert(rest[j] == ext[j + 1]);
        assert(!should_prune_spec(
            ext[j + 1],
            if j + 1 == 0 {
                last
            } else {
                Some(ext[j])
            },
        ));
        if j > 0 {
            assert(rest[j - 1] == ext[j]);
        }
    }
}

/// A solution admitted below one bound is admitted below any larger bound.
proof fn lemma_admitted_bound(
    table: EndgameTable,
    c: RubiksCube,
    g: int,
    threshold: int,
    b1: int,
    b2: int,
    last: Option<Move>,
    ext: Seq<Move>,
)
    requires
        admitted_solution(table, c, g, threshold, b1, last, ext),
        b1 <= b2,
    ensures
        admitted_solution(table, c, g, threshold, b2, last, ext),
{
}

impl Solver {
    /// Depth-first search below `cube`, bounded by `threshold` on
    /// `g + heuristic`, trying children in order of their estimate; each
    /// node counts against the node budget and reads the best length found
    /// so far by any worker.
    ///
    /// On `Found` the moves appended to `path` take the starting cube to the
    /// solved cube, and `cube` is left solved; otherwise `cube` and `path`
    /// are as they were. The ghost result is the least best length read.
    fn ida_search_parallel(
        cube: &mut RubiksCube,
        g: u32,
        threshold: u32,
        path: &mut Vec<Move>,
        last_move: Option<Move>,
        nodes: &mut u64,
        best_len: &AtomicU32,
        table: &EndgameTable,
    ) -> (r: (SearchResult, Ghost<int>))
        requires
            g <= IDA_THRESHOLD_LIMIT + 1,
            threshold <= IDA_THRESHOLD_LIMIT,
            table.depth() < 255,
            *old(nodes) < u64::MAX,
        ensures
            *final(nodes) > *old(nodes),
            *old(nodes) + 1 >= IDA_NODES_PER_THREAD ==> (r.0 matches SearchResult::NotFound(t) && t
                == u32::MAX) && *final(nodes) == *old(nodes) + 1,
            r.0 matches SearchResult::NotFound(t) && t == u32::MAX ==> *final(nodes)
                >= IDA_NODES_PER_THREAD,
            r.0 matches SearchResult::NotFound(t) ==> t >= g && (t == u32::MAX || t > threshold || t
                >= r.1@),
            *old(nodes) < IDA_NODES_PER_THREAD && g <= threshold + 1 ==> *final(nodes)
                <= IDA_NODES_PER_THREAD + 18 * (threshold + 2 - g),
            search_outcome(r.0, *old(cube), *final(cube), old(path)@, final(path)@, g, threshold, last_move),
            r.0 is NotFound && *final(nodes) < IDA_NODES_PER_THREAD ==> forall|ext: Seq<Move>|
                !#[trigger] admitted_solution(*table, *old(cube), g as int, threshold as int, r.1@, last_move, ext),
        decreases threshold + 1 - g, 1int,
    {
        *nodes += 1;
        if *nodes >= IDA_NODES_PER_THREAD {
            return (SearchResult::NotFound(u32::MAX), Ghost(0));
        }
        let global_best = load_best(best_len);
        Self::search_node(cube, g, threshold, path, last_move, nodes, global_best, best_len, table)
    }

    /// The search at one node, given the best length `best` read for it:
    /// the node is cut off when `g` plus its estimate passes the threshold or
    /// reaches `best`; a solved cube that is not cut off is a solution;
    /// otherwise every move not pruned after `last_move` is searched one
    /// level deeper, lowest estimate first. The ghost result is the least of
    /// `best` and the best lengths read below.
    #[verifier::spinoff_prover]
    #[verifier::rlimit(100)]
    fn search_node(
        cube: &mut RubiksCube,
        g: u32,
        threshold: u32,
        path: &mut Vec<Move>,
        last_move: Option<Move>,
        nodes: &mut u64,
        best: u32,
        best_len: &AtomicU32,
        table: &EndgameTable,
    ) -> (r: (SearchResult, Ghost<int>))
        requires
            g <= IDA_THRESHOLD_LIMIT + 1,
            threshold <= IDA_THRESHOLD_LIMIT,
            table.depth() < 255,
            *old(nodes) < IDA_NODES_PER_THREAD,
        ensures
            *final(nodes) >= *old(nodes),
            r.1@ <= best,
            over_bound_spec(g + heuristic_of(*table, *old(cube)), threshold as int, best as int)
                ==> r.0 == SearchResult::NotFound((g + heuristic_of(*table, *old(cube))) as u32)
                && *final(nodes) == *old(nodes),
            !over_bound_spec(g + heuristic_of(*table, *old(cube)), threshold as int, best as int)
                && is_solved_cube(*old(cube)) ==> r.0 is Found && final(path)@ == old(path)@
                && *final(nodes) == *old(nodes),
            r.0 matches SearchResult::NotFound(t) && t == u32::MAX ==> *final(nodes)
                >= IDA_NODES_PER_THREAD,
            r.0 matches SearchResult::NotFound(t) ==> t >= g && (t == u32::MAX || t > threshold || t
                >= r.1@),
            g <= threshold + 1 ==> *final(nodes) <= IDA_NODES_PER_THREAD + 18 * (threshold + 2 - g),
            search_outcome(r.0, *old(cube), *final(cube), old(path)@, final(path)@, g, threshold, last_move),
            r.0 is NotFound && *final(nodes) < IDA_NODES_PER_THREAD ==> forall|ext: Seq<Move>|
                !#[trigger] admitted_solution(*table, *old(cube), g as int, threshold as int, r.1@, last_move, ext),
        decreases threshold + 1 - g, 0int,
    {
        let h = Self::heuristic_with_table(cube, table);
        let f = g + h;
        if over_bound(f, threshold, best) {
            proof {
                assert forall|ext: Seq<Move>|
                    !#[trigger] admitted_solution(*table, *cube, g as int, threshold as int, best as int, last_move, ext) by {
                    if admitted_solution(*table, *cube, g as int, threshold as int, best as int, last_move, ext) {
                        assert(ext.take(0) =~= Seq::<Move>::empty());
                        assert(apply_all(*cube, ext.take(0)) == *cube);
                    }
                }
            }
            return (SearchResult::NotFound(f), Ghost(best as int));
        }
        if cube.is_solved() {
            proof {
                assert(path@.skip(path@.len() as int) =~= Seq::<Move>::empty());
                assert(path@.take(path@.len() as int) =~= path@);
            }
            return (SearchResult::Found, Ghost(best as int));
        }
        let ghost c0 = *cube;
        let ghost p0 = path@;
        let ghost n0 = *old(nodes);
        // Candidate children with their estimates, lowest estimate first.
        let mut children: Vec<(Move, u32)> = Vec::new();
        let mut k: usize = 0;
        while k < 18
            invariant
                k <= 18,
                children@.len() <= k,
                *cube == c0,
                table.depth() < 255,
                forall|j: int|
                    0 <= j < k && !should_prune_spec(#[trigger] all_moves()[j], last_move)
                        ==> exists|q: int| 0 <= q < children@.len() && children@[q].0 == all_moves()[j],
                forall|j: int|
                    0 <= j < children@.len() ==> !should_prune_spec(#[trigger] children@[j].0, last_move),
            decreases 18 - k,
        {
            let m = move_at(k);
            let ghost before = children@;
            if !Self::should_prune(m, last_move) {
                cube.apply_move(m);
                let ch = Self::heuristic_with_table(cube, table);
                cube.apply_move(m.inverse());
                proof {
                    crate::cube::lemma_apply_inverse(c0, m);
                }
                children.push((m, ch));
            }
            proof {
                assert forall|j: int|
                    0 <= j < k + 1 && !should_prune_spec(#[trigger] all_moves()[j], last_move)
                        implies exists|q: int| 0 <= q < children@.len() && children@[q].0 == all_moves()[j] by {
                    if j < k {
                        let q = choose|q: int| 0 <= q < before.len() && before[q].0 == all_moves()[j];
                        assert(children@[q] == before[q]);
                    } else {
                        assert(children@[before.len() as int].0 == all_moves()[j]);
                    }
                }
            }
            k += 1;
        }
        proof {
            lemma_some_move_kept(last_move);
            let j = choose|j: int| 0 <= j < 18 && !should_prune_spec(#[trigger] all_moves()[j], last_move);
            assert(exists|q: int| 0 <= q < children@.len() && children@[q].0 == all_moves()[j]);
        }
        assert(children@.len() > 0);
        let ghost unsorted = children@;
        proof {
            assert forall|mv: Move| !should_prune_spec(mv, last_move) implies exists|q: int|
                0 <= q < unsorted.len() && #[trigger] unsorted[q].0 == mv by {
                crate::cube::lemma_move_number_range(mv);
                let j = move_number(mv);
                assert(!should_prune_spec(all_moves()[j], last_move));
            }
        }
        sort_by_estimate(&mut children);
        proof {
            lemma_reorder_keeps_unpruned(unsorted, children@, last_move);
            lemma_reorder_keeps_moves(unsorted, children@, last_move);
        }
        let mut min_next = u32::MAX;
        let ghost mut min_read: int = best as int;
        let mut i: usize = 0;
        while i < children.len()
            invariant
                i <= children@.len() <= 18,
                g <= threshold,
                threshold <= IDA_THRESHOLD_LIMIT,
                table.depth() < 255,
                *cube == c0,
                path@ == p0,
                n0 == *old(nodes),
                p0 == old(path)@,
                c0 == *old(cube),
                !is_solved_cube(c0),
                !over_bound_spec(g + heuristic_of(*table, c0), threshold as int, best as int),
                n0 < IDA_NODES_PER_THREAD,
                *nodes >= n0,
                *nodes < IDA_NODES_PER_THREAD || *nodes <= IDA_NODES_PER_THREAD + 18 * (threshold
                    + 1 - g) + i,
                children@.len() > 0,
                forall|j: int|
                    0 <= j < children@.len() ==> !should_prune_spec(#[trigger] children@[j].0, last_move),
                forall|m: Move|
                    !should_prune_spec(m, last_move) ==> exists|q: int|
                        0 <= q < children@.len() && #[trigger] children@[q].0 == m,
                min_next == u32::MAX ==> (i == 0 || *nodes >= IDA_NODES_PER_THREAD),
                min_next >= g,
                min_read <= best,
                min_next == u32::MAX || min_next > threshold || min_next >= min_read,
                *nodes < IDA_NODES_PER_THREAD ==> forall|q: int, ext: Seq<Move>|
                    0 <= q < i ==> !#[trigger] admitted_solution(
                        *table,
                        apply(c0, children@[q].0),
                        g + 1,
                        threshold as int,
                        min_read,
                        Some(children@[q].0),
                        ext,
                    ),
            decreases children@.len() - i,
        {
            let (m, _) = children[i];
            cube.apply_move(m);
            path.push(m);
            let ghost c1 = *cube;
            let ghost p1 = path@;
            let ghost nodes_before = *nodes;
            let (res, Ghost(child_min)) = Self::ida_search_parallel(
                cube,
                g + 1,
                threshold,
                path,
                Some(m),
                nodes,
                best_len,
                table,
            );
            match res {
                SearchResult::Found => {
                    proof {
                        let ext = path@.skip(p1.len() as int);
                        assert(path@.take(p0.len() as int) =~= p0) by {
                            assert(path@.take(p1.len() as int) == p1);
                        }
                        assert(path@.skip(p0.len() as int) =~= seq![m] + ext) by {
                            assert(path@.take(p1.len() as int) == p1);
                            assert(path@[p0.len() as int] == p1[p0.len() as int]);
                        }
                        crate::cube::lemma_apply_all_concat(c0, seq![m], ext);
                        reveal_with_fuel(apply_all, 2);
                        assert(seq![m].drop_last() =~= Seq::<Move>::empty());
                        assert(!should_prune_spec(children@[i as int].0, last_move));
                        let full = path@.skip(p0.len() as int);
                        assert forall|j: int| 0 <= j < full.len() implies !should_prune_spec(
                            #[trigger] full[j],
                            if j == 0 {
                                last_move
                            } else {
                                Some(full[j - 1])
                            },
                        ) by {
                            if j == 0 {
                                assert(full[0] == m);
                            } else {
                                assert(full[j] == ext[j - 1]);
                                if j == 1 {
                                    assert(full[0] == m);
                                } else {
                                    assert(full[j - 1] == ext[j - 2]);
                                }
                            }
                        }
                    }
                    return (SearchResult::Found, Ghost(min_read));
                },
                SearchResult::NotFound(t) => {
                    if t < min_next {
                        min_next = t;
                    }
                    proof {
                        let old_min = min_read;
                        if child_min < min_read {
                            min_read = child_min;
                        }
                        if *nodes < IDA_NODES_PER_THREAD {
                            assert forall|q: int, ext: Seq<Move>| 0 <= q < i + 1 implies !#[trigger] admitted_solution(
                                *table,
                                apply(c0, children@[q].0),
                                g + 1,
                                threshold as int,
                                min_read,
                                Some(children@[q].0),
                                ext,
                            ) by {
                                if admitted_solution(*table, apply(c0, children@[q].0), g + 1, threshold as int, min_read, Some(children@[q].0), ext) {
                                    if q < i {
                                        lemma_admitted_bound(*table, apply(c0, children@[q].0), g + 1, threshold as int, min_read, old_min, Some(children@[q].0), ext);
                                    } else {
                                        assert(children@[q].0 == m);
                                        lemma_admitted_bound(*table, c1, g + 1, threshold as int, min_read, child_min, Some(m), ext);
                                    }
                                }
                            }
                        }
                    }
                },
            }
            path.pop();
            cube.apply_move(m.inverse());
            proof {
                crate::cube::lemma_apply_inverse(c0, m);
                assert(path@ =~= p0);
            }
            i += 1;
        }
        proof {
            if *nodes < IDA_NODES_PER_THREAD {
                assert forall|ext: Seq<Move>|
                    !#[trigger] admitted_solution(*table, c0, g as int, threshold as int, min_read, last_move, ext) by {
                    if admitted_solution(*table, c0, g as int, threshold as int, min_read, last_move, ext) {
                        if ext.len() == 0 {
                            assert(apply_all(c0, ext) == c0);
                        } else {
                            lemma_admitted_tail(*table, c0, g as int, threshold as int, min_read, last_move, ext);
                            let q = choose|q: int| 0 <= q < children@.len() && #[trigger] children@[q].0 == ext[0];
                            assert(!admitted_solution(*table, apply(c0, children@[q].0), g + 1, threshold as int, min_read, Some(children@[q].0), ext.skip(1)));
                        }
                    }
                }
            }
        }
        (SearchResult::NotFound(min_next), Ghost(min_read))
    }
}

/// Whether a worker gives up its current first move: the threshold has
/// reached the best solution length found so far, the node budget is spent,
/// the search was cancelled, or the threshold is past the largest one run.
pub open spec fn gives_up_spec(threshold: u32, best: u32, total_nodes: u64, cancelled: bool) -> bool {
    threshold >= best || total_nodes >= IDA_NODES_PER_THREAD || cancelled || threshold
        > IDA_THRESHOLD_LIMIT
}

/// Whether a worker gives up its current first move (see `gives_up_spec`).
pub fn gives_up(threshold: u32, best: u32, total_nodes: u64, cancelled: bool) -> (stop: bool)
    ensures
        stop == gives_up_spec(threshold, best, total_nodes, cancelled),
{
    threshold >= best || total_nodes >= IDA_NODES_PER_THREAD || cancelled
        || threshold > IDA_THRESHOLD_LIMIT
}

/// What one step of an `IdaWorker` produced.
pub enum WorkerEvent {
    /// The search below `first_move` found nothing within threshold `from`;
    /// the next iteration will use threshold `to`.
    Raised { first_move: Move, from: u32, to: u32, total_nodes: u64, iter_nodes: u64 },
    /// A solution, first move included.
    Found(Vec<Move>),
    /// Every assigned first move has been searched (or the search was cancelled).
    Finished,
}

/// Iterative-deepening search below a list of first moves, one
/// threshold iteration per step.
pub struct IdaWorker {
    cube: RubiksCube,
    first_moves: Vec<Move>,
    next: usize,
    active: bool,
    state: RubiksCube,
    threshold: u32,
    total_nodes: u64,
}

impl IdaWorker {
    /// The cube being solved.
    pub closed spec fn start(&self) -> RubiksCube {
        self.cube
    }

    /// The first moves assigned to this worker.
    pub closed spec fn assigned(&self) -> Seq<Move> {
        self.first_moves@
    }

    /// The threshold of the current iteration.
    pub closed spec fn threshold(&self) -> u32 {
        self.threshold
    }

    /// Position, in the assigned list, of the first move being searched.
    pub closed spec fn position(&self) -> nat {
        self.next as nat
    }

    /// Nodes visited below the current first move.
    pub closed spec fn nodes_used(&self) -> u64 {
        self.total_nodes
    }

    /// Whether a first move is being searched.
    pub closed spec fn searching(&self) -> bool {
        self.active
    }

    /// Whether every assigned first move has been searched.
    pub closed spec fn finished(&self) -> bool {
        !self.active && self.next == self.first_moves@.len()
    }

    /// The worker's internal consistency.
    pub closed spec fn wf(&self) -> bool {
        &&& self.next <= self.first_moves@.len()
        &&& self.active ==> self.next < self.first_moves@.len() && self.state == apply(
            self.cube,
            self.first_moves@[self.next as int],
        )
        &&& self.total_nodes <= 2 * IDA_NODES_PER_THREAD + 18 * (IDA_THRESHOLD_LIMIT as int + 2)
    }

    /// A worker that will search below each of `first_moves` in turn.
    pub fn new(cube: RubiksCube, first_moves: Vec<Move>) -> (w: Self)
        ensures
            w.wf(),
            w.start() == cube,
            w.assigned() == first_moves@,
            w.finished() == (first_moves@.len() == 0),
    {
        IdaWorker {
            cube,
            first_moves,
            next: 0,
            active: false,
            state: cube,
            threshold: 0,
            total_nodes: 0,
        }
    }

    /// One threshold iteration for the current first move, given the best
    /// length `best` and the cancel state `cancelled` read for it. The move
    /// is given up (and the worker moves on) when `gives_up_spec` holds;
    /// otherwise the move is searched with the current threshold: a solution
    /// is returned, or the threshold is raised to the estimate the search
    /// returned, or, when the search spent its node budget, the worker moves
    /// on. The ghost result is the least best length read by the search.
    fn advance(&mut self, table: &EndgameTable, best_len: &AtomicU32, best: u32, cancelled: bool) -> (r: (
        Option<WorkerEvent>,
        Ghost<int>,
    ))
        requires
            old(self).wf(),
            old(self).searching(),
            table.depth() < 255,
        ensures
            final(self).wf(),
            final(self).start() == old(self).start(),
            final(self).assigned() == old(self).assigned(),
            gives_up_spec(old(self).threshold(), best, old(self).nodes_used(), cancelled) ==> r.0 is None,
            match r.0 {
                None => {
                    &&& !final(self).searching()
                    &&& final(self).position() == old(self).position() + 1
                    &&& !gives_up_spec(old(self).threshold(), best, old(self).nodes_used(), cancelled)
                        ==> final(self).nodes_used() >= IDA_NODES_PER_THREAD
                },
                Some(WorkerEvent::Found(p)) => {
                    &&& p@.len() >= 1
                    &&& p@[0] == old(self).assigned()[old(self).position() as int]
                    &&& is_solved_cube(apply_all(old(self).start(), p@))
                    &&& no_pruned_pairs(p@, 0)
                    &&& p@.len() <= old(self).threshold()
                    &&& p@.len() < best
                    &&& !final(self).searching()
                    &&& final(self).position() == old(self).position() + 1
                },
                Some(WorkerEvent::Raised { first_move, from, to, iter_nodes, .. }) => {
                    &&& final(self).searching()
                    &&& final(self).position() == old(self).position()
                    &&& first_move == old(self).assigned()[old(self).position() as int]
                    &&& from == old(self).threshold()
                    &&& to == final(self).threshold()
                    &&& to < u32::MAX
                    &&& (to > from || to >= r.1@)
                    &&& iter_nodes < IDA_NODES_PER_THREAD ==> forall|ext: Seq<Move>|
                        !#[trigger] admitted_solution(
                            *table,
                            apply(old(self).start(), first_move),
                            1,
                            from as int,
                            r.1@,
                            Some(first_move),
                            ext,
                        )
                },
                Some(WorkerEvent::Finished) => false,
            },
    {
        let n_moves = self.first_moves.len();
        assert(self.next < n_moves);
        if gives_up(self.threshold, best, self.total_nodes, cancelled) {
            self.active = false;
            self.next += 1;
            return (None, Ghost(0));
        }
        let fm = self.first_moves[self.next];
        let mut path = vec![fm];
        let mut iter_nodes: u64 = 0;
        let mut search_cube = self.state;
        let (result, Ghost(min_read)) = Solver::ida_search_parallel(
            &mut search_cube,
            1,
            self.threshold,
            &mut path,
            Some(fm),
            &mut iter_nodes,
            best_len,
            table,
        );
        self.total_nodes = self.total_nodes + iter_nodes;
        match result {
            SearchResult::Found => {
                proof {
                    let ext = path@.skip(1);
                    assert(path@ =~= seq![fm] + ext) by {
                        assert(path@.take(1) == seq![fm]);
                        assert(path@[0] == path@.take(1)[0]);
                    }
                    crate::cube::lemma_apply_all_concat(self.cube, seq![fm], ext);
                    reveal_with_fuel(apply_all, 2);
                    assert(seq![fm].drop_last() =~= Seq::<Move>::empty());
                    assert forall|j: int| 0 <= j < path@.len() && j >= 1 implies !should_prune_spec(
                        #[trigger] path@[j],
                        Some(path@[j - 1]),
                    ) by {
                        assert(path@[j] == ext[j - 1]);
                        if j >= 2 {
                            assert(path@[j - 1] == ext[j - 2]);
                        }
                    }
                }
                self.active = false;
                self.next += 1;
                (Some(WorkerEvent::Found(path)), Ghost(min_read))
            },
            SearchResult::NotFound(t) => {
                if t == u32::MAX {
                    self.active = false;
                    self.next += 1;
                    return (None, Ghost(min_read));
                }
                let from = self.threshold;
                self.threshold = t;
                (
                    Some(
                        WorkerEvent::Raised {
                            first_move: fm,
                            from,
                            to: t,
                            total_nodes: self.total_nodes,
                            iter_nodes,
                        },
                    ),
                    Ghost(min_read),
                )
            },
        }
    }

    /// Runs until the next event: a raised threshold, a solution, or the end
    /// of the assigned first moves. A first move is given up when its
    /// threshold reaches the best length found so far, when its node budget
    /// is spent, or when `cancel` is set; `cancel` also ends the worker.
    pub fn step(&mut self, table: &EndgameTable, best_len: &AtomicU32, cancel: &AtomicBool) -> (e:
        WorkerEvent)
        requires
            old(self).wf(),
            table.depth() < 255,
        ensures
            final(self).wf(),
            final(self).start() == old(self).start(),
            final(self).assigned() == old(self).assigned(),
            old(self).finished() ==> e is Finished,
            match e {
                WorkerEvent::Found(p) => p@.len() >= 1 && is_solved_cube(
                    apply_all(old(self).start(), p@),
                ) && no_pruned_pairs(p@, 0) && p@.len() <= IDA_THRESHOLD_LIMIT,
                WorkerEvent::Finished => final(self).finished(),
                WorkerEvent::Raised { first_move, to, .. } => {
                    &&& !final(self).finished()
                    &&& final(self).position() < final(self).assigned().len()
                    &&& first_move == final(self).assigned()[final(self).position() as int]
                    &&& to == final(self).threshold()
                    &&& to < u32::MAX
                },
            },
    {
        loop
            invariant
                self.wf(),
                self.cube == old(self).cube,
                self.first_moves@ == old(self).first_moves@,
                table.depth() < 255,
                old(self).finished() ==> !self.active && self.next == self.first_moves@.len(),
            decreases (self.first_moves@.len() - self.next) * 2 + (if self.active {
                0int
            } else {
                1int
            }),
        {
            let n_moves = self.first_moves.len();
            if !self.active {
                if self.next >= n_moves {
                    return WorkerEvent::Finished;
                }
                if is_cancelled(cancel) {
                    self.next = self.first_moves.len();
                    return WorkerEvent::Finished;
                }
                let fm = self.first_moves[self.next];
                let mut state = self.cube;
                state.apply_move(fm);
                self.state = state;
                self.threshold = 1 + Solver::heuristic_with_table(&self.state, table);
                self.total_nodes = 0;
                self.active = true;
            }
            let global_best = load_best(best_len);
            let cancelled = is_cancelled(cancel);
            let (event, Ghost(_min_read)) = self.advance(table, best_len, global_best, cancelled);
            if let Some(e) = event {
                return e;
            }
        }
    }
}

} // verus!
