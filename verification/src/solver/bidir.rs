//! Bidirectional breadth-first search between a cube and the solved cube.
use vstd::prelude::*;
use std::collections::HashMap;
use crate::cube::{
    all_moves, apply, apply_all, is_solved_cube, move_at, undo_moves, Move, RubiksCube,
};
use crate::solver::heuristic::cube_hash_of;
use crate::solver::Solver;

verus! {

broadcast use vstd::std_specs::hash::group_hash_axioms;

/// Breadth-first parent links: hash ↦ (parent hash, index of the move in
/// `all_moves()` that led from the parent). The root maps to itself with
/// move index 255.
pub type ParentMap = HashMap<u64, (u64, u8)>;

/// Search stops once the two parent maps hold more than this many hashes together.
pub const BFS_MAX_STATES: usize = 6_000_000;

/// The moves recorded from `root` to `h` by following parent links back,
/// first move first. `rank` orders the keys so that parents come first.
pub open spec fn parent_chain(p: Map<u64, (u64, u8)>, rank: Map<u64, nat>, root: u64, h: u64) -> Seq<
    Move,
>
    decreases rank[h],
{
    if h != root && p.contains_key(h) && rank.contains_key(p[h].0) && rank[p[h].0] < rank[h] {
        parent_chain(p, rank, root, p[h].0).push(all_moves()[p[h].1 as int])
    } else {
        Seq::empty()
    }
}

/// The parent links form a tree rooted at `root`: every non-root key has a
/// recorded parent of smaller rank and a valid move index.
pub open spec fn parents_wf(p: Map<u64, (u64, u8)>, rank: Map<u64, nat>, root: u64) -> bool {
    &&& p.dom().finite()
    &&& p.contains_key(root)
    &&& p[root] == (root, 255u8)
    &&& rank.dom() == p.dom()
    &&& forall|h: u64| #[trigger]
        p.contains_key(h) ==> rank[h] < p.len() && (h != root ==> p.contains_key(p[h].0) && rank[p[h].0]
            < rank[h] && p[h].1 < 18)
}

/// Following the links from any key replays a move sequence from `origin`
/// to a cube with that hash.
pub open spec fn parents_sound(
    p: Map<u64, (u64, u8)>,
    rank: Map<u64, nat>,
    root: u64,
    origin: RubiksCube,
) -> bool {
    forall|h: u64| #[trigger]
        p.contains_key(h) ==> cube_hash_of(apply_all(origin, parent_chain(p, rank, root, h))) == h
}

/// Each frontier entry is a cube with its hash, recorded in `p`, reached
/// from `origin` by the recorded chain.
pub open spec fn frontier_sound(
    front: Seq<(RubiksCube, u64)>,
    p: Map<u64, (u64, u8)>,
    rank: Map<u64, nat>,
    root: u64,
    origin: RubiksCube,
) -> bool {
    forall|i: int|
        0 <= i < front.len() ==> {
            &&& (#[trigger] front[i]).1 == cube_hash_of(front[i].0)
            &&& p.contains_key(front[i].1)
            &&& front[i].0 == apply_all(origin, parent_chain(p, rank, root, front[i].1))
        }
}

/// `path` goes forward from `start` along `f` and then undoes `b`, where
/// `f` from `start` and `b` from the solved cube reach equal hashes.
pub open spec fn meets_at(start: RubiksCube, path: Seq<Move>) -> bool {
    exists|f: Seq<Move>, b: Seq<Move>|
        path == f + undo_moves(b) && #[trigger] cube_hash_of(apply_all(start, f)) == #[trigger] cube_hash_of(
            apply_all(RubiksCube::solved(), b),
        )
}

/// When the forward and backward halves reach the same cube (not merely the
/// same hash), the whole path solves the cube.
pub proof fn lemma_meeting_solves(start: RubiksCube, f: Seq<Move>, b: Seq<Move>)
    requires
        apply_all(start, f) == apply_all(RubiksCube::solved(), b),
    ensures
        is_solved_cube(apply_all(start, f + undo_moves(b))),
{
    crate::cube::lemma_apply_all_concat(start, f, undo_moves(b));
    crate::cube::lemma_undo_moves(RubiksCube::solved(), b);
}

/// The chains of the keys of `p0` read the same in `p`.
#[verifier::opaque]
pub open spec fn chains_agree(
    p: Map<u64, (u64, u8)>,
    rk: Map<u64, nat>,
    p0: Map<u64, (u64, u8)>,
    rank0: Map<u64, nat>,
    root: u64,
) -> bool {
    forall|h: u64| p0.contains_key(h) ==> #[trigger] parent_chain(p, rk, root, h) == parent_chain(p0, rank0, root, h)
}

/// Every recorded chain has at most `n` moves.
#[verifier::opaque]
pub open spec fn chains_within(p: Map<u64, (u64, u8)>, rank: Map<u64, nat>, root: u64, n: nat) -> bool {
    forall|h: u64| #[trigger] p.contains_key(h) ==> parent_chain(p, rank, root, h).len() <= n
}

/// Recording a child of a key whose chain has at most `lv` moves keeps
/// every chain within `lv + 1` moves and the chains of the keys of `own0`.
proof fn lemma_chains_after_insert(
    p: Map<u64, (u64, u8)>,
    rk: Map<u64, nat>,
    root: u64,
    own0: Map<u64, (u64, u8)>,
    rank: Map<u64, nat>,
    lv: nat,
    k: u64,
    parent_h: u64,
    mi: u8,
)
    requires
        parents_wf(p, rk, root),
        !p.contains_key(k),
        p.contains_key(parent_h),
        own0.contains_key(parent_h),
        own0.submap_of(p),
        chains_within(p, rk, root, lv + 1),
        chains_within(own0, rank, root, lv),
        chains_agree(p, rk, own0, rank, root),
        k != root,
        rk.contains_key(parent_h),
    ensures
        ({
            let p2 = p.insert(k, (parent_h, mi));
            let rk2 = rk.insert(k, p.len());
            &&& chains_within(p2, rk2, root, lv + 1)
            &&& chains_agree(p2, rk2, own0, rank, root)
        }),
{
    reveal(chains_within);
    reveal(chains_agree);
    let p2 = p.insert(k, (parent_h, mi));
    let rk2 = rk.insert(k, p.len());
    assert forall|h: u64| p.contains_key(h) implies #[trigger] parent_chain(p2, rk2, root, h) == parent_chain(p, rk, root, h) by {
        lemma_chain_stable(p, rk, root, k, (parent_h, mi), p.len(), h);
    }
    assert(parent_chain(p, rk, root, parent_h).len() <= lv);
    assert(rk2[parent_h] < rk2[k]);
    assert(parent_chain(p2, rk2, root, k) == parent_chain(p2, rk2, root, parent_h).push(all_moves()[mi as int]));
    assert forall|h: u64| #[trigger] p2.contains_key(h) implies parent_chain(p2, rk2, root, h).len() <= lv + 1 by {
        if h != k {
            assert(p.contains_key(h));
        }
    }
    assert forall|h: u64| own0.contains_key(h) implies #[trigger] parent_chain(p2, rk2, root, h) == parent_chain(own0, rank, root, h) by {
        assert(p.contains_key(h));
    }
}

/// Undoing a sequence takes as many moves as the sequence.
proof fn lemma_undo_len(ms: Seq<Move>)
    ensures
        undo_moves(ms).len() == ms.len(),
    decreases ms.len(),
{
    if ms.len() > 0 {
        lemma_undo_len(ms.drop_last());
    }
}

/// Adding a fresh key leaves the chains of the existing keys unchanged.
proof fn lemma_chain_stable(
    p: Map<u64, (u64, u8)>,
    rank: Map<u64, nat>,
    root: u64,
    k: u64,
    v: (u64, u8),
    r: nat,
    h: u64,
)
    requires
        parents_wf(p, rank, root),
        !p.contains_key(k),
        p.contains_key(h),
    ensures
        parent_chain(p.insert(k, v), rank.insert(k, r), root, h) == parent_chain(p, rank, root, h),
    decreases rank[h],
{
    if h != root {
        lemma_chain_stable(p, rank, root, k, v, r, p[h].0);
    }
}


/// Recording a child of a recorded cube keeps the parent links a sound tree.
proof fn lemma_insert_child(
    p: Map<u64, (u64, u8)>,
    rank: Map<u64, nat>,
    root: u64,
    origin: RubiksCube,
    parent_h: u64,
    parent: RubiksCube,
    mi: u8,
    child: RubiksCube,
)
    requires
        parents_wf(p, rank, root),
        parents_sound(p, rank, root, origin),
        p.contains_key(parent_h),
        parent == apply_all(origin, parent_chain(p, rank, root, parent_h)),
        mi < 18,
        child == apply(parent, all_moves()[mi as int]),
        !p.contains_key(cube_hash_of(child)),
    ensures
        ({
            let k = cube_hash_of(child);
            let p2 = p.insert(k, (parent_h, mi));
            let rank2 = rank.insert(k, p.len());
            &&& parents_wf(p2, rank2, root)
            &&& parents_sound(p2, rank2, root, origin)
            &&& p2.len() == p.len() + 1
            &&& child == apply_all(origin, parent_chain(p2, rank2, root, k))
            &&& forall|h: u64|
                p.contains_key(h) ==> #[trigger] parent_chain(p2, rank2, root, h) == parent_chain(
                    p,
                    rank,
                    root,
                    h,
                )
        }),
{
    let k = cube_hash_of(child);
    let v = (parent_h, mi);
    let r = p.len();
    let p2 = p.insert(k, v);
    let rank2 = rank.insert(k, r);
    assert(p2.len() == p.len() + 1);
    assert forall|h: u64| p.contains_key(h) implies #[trigger] parent_chain(p2, rank2, root, h)
        == parent_chain(p, rank, root, h) by {
        lemma_chain_stable(p, rank, root, k, v, r, h);
    }
    assert(rank2.dom() =~= p2.dom());
    assert(k != root);
    assert(parent_chain(p2, rank2, root, k) == parent_chain(p2, rank2, root, parent_h).push(
        all_moves()[mi as int],
    ));
    crate::cube::lemma_apply_all_push(
        origin,
        parent_chain(p, rank, root, parent_h),
        all_moves()[mi as int],
    );
    assert forall|h: u64| #[trigger] p2.contains_key(h) implies cube_hash_of(
        apply_all(origin, parent_chain(p2, rank2, root, h)),
    ) == h by {
        if h != k {
            assert(p.contains_key(h));
        }
    }
    assert forall|h: u64| #[trigger] p2.contains_key(h) implies rank2[h] < p2.len() && (h != root
        ==> p2.contains_key(p2[h].0) && rank2[p2[h].0] < rank2[h] && p2[h].1 < 18) by {
        if h != k {
            assert(p.contains_key(h));
        }
    }
}

/// Recording a fresh key keeps a frontier sound.
proof fn lemma_frontier_after_insert(
    front: Seq<(RubiksCube, u64)>,
    p: Map<u64, (u64, u8)>,
    rank: Map<u64, nat>,
    root: u64,
    origin: RubiksCube,
    k: u64,
    v: (u64, u8),
)
    requires
        parents_wf(p, rank, root),
        frontier_sound(front, p, rank, root, origin),
        !p.contains_key(k),
    ensures
        frontier_sound(front, p.insert(k, v), rank.insert(k, p.len()), root, origin),
{
    let p2 = p.insert(k, v);
    let rk2 = rank.insert(k, p.len());
    assert forall|j: int| 0 <= j < front.len() implies {
        &&& (#[trigger] front[j]).1 == cube_hash_of(front[j].0)
        &&& p2.contains_key(front[j].1)
        &&& front[j].0 == apply_all(origin, parent_chain(p2, rk2, root, front[j].1))
    } by {
        lemma_chain_stable(p, rank, root, k, v, p.len(), front[j].1);
    }
}

/// Appending a recorded cube keeps a frontier sound.
proof fn lemma_frontier_push(
    front: Seq<(RubiksCube, u64)>,
    p: Map<u64, (u64, u8)>,
    rank: Map<u64, nat>,
    root: u64,
    origin: RubiksCube,
    c: RubiksCube,
    h: u64,
)
    requires
        frontier_sound(front, p, rank, root, origin),
        h == cube_hash_of(c),
        p.contains_key(h),
        c == apply_all(origin, parent_chain(p, rank, root, h)),
    ensures
        frontier_sound(front.push((c, h)), p, rank, root, origin),
{
    assert forall|j: int| 0 <= j < front.len() + 1 implies {
        &&& (#[trigger] front.push((c, h))[j]).1 == cube_hash_of(front.push((c, h))[j].0)
        &&& p.contains_key(front.push((c, h))[j].1)
        &&& front.push((c, h))[j].0 == apply_all(origin, parent_chain(p, rank, root, front.push((c, h))[j].1))
    } by {
        if j < front.len() {
            assert(front.push((c, h))[j] == front[j]);
        }
    }
}

/// Hash of the cube reached from frontier entry `i` by move number `mi`.
pub open spec fn child_hash(front: Seq<(RubiksCube, u64)>, i: int, mi: int) -> u64 {
    cube_hash_of(apply(front[i].0, all_moves()[mi]))
}

impl Solver {
    /// Expands every frontier cube by all eighteen moves, recording each new
    /// hash with its parent. Stops at the first new hash that `other_map`
    /// also holds and returns it (the frontier is then emptied); otherwise the
    /// frontier becomes the newly recorded cubes.
    #[verifier::spinoff_prover]
    #[verifier::rlimit(100)]
    fn expand_bfs_level(
        frontier: &mut Vec<(RubiksCube, u64)>,
        own_map: &mut ParentMap,
        other_map: &ParentMap,
        total_nodes: &mut u64,
        Ghost(rank): Ghost<Map<u64, nat>>,
        Ghost(root): Ghost<u64>,
        Ghost(origin): Ghost<RubiksCube>,
        Ghost(lv): Ghost<nat>,
    ) -> (r: (Option<u64>, Ghost<Map<u64, nat>>))
        requires
            parents_wf(old(own_map)@, rank, root),
            parents_sound(old(own_map)@, rank, root, origin),
            frontier_sound(old(frontier)@, old(own_map)@, rank, root, origin),
            *old(total_nodes) + 18 * old(frontier)@.len() <= u64::MAX,
            old(own_map)@.len() + 18 * old(frontier)@.len() <= usize::MAX,
            chains_within(old(own_map)@, rank, root, lv),
        ensures
            parents_wf(final(own_map)@, r.1@, root),
            chains_within(final(own_map)@, r.1@, root, lv + 1),
            parents_sound(final(own_map)@, r.1@, root, origin),
            old(own_map)@.submap_of(final(own_map)@),
            final(own_map)@.len() <= old(own_map)@.len() + 18 * old(frontier)@.len(),
            *final(total_nodes) <= *old(total_nodes) + 18 * old(frontier)@.len(),
            match r.0 {
                Some(m) => {
                    &&& !old(own_map)@.contains_key(m)
                    &&& final(own_map)@.contains_key(m)
                    &&& exists|i: int, mi: int|
                        0 <= i < old(frontier)@.len() && 0 <= mi < 18 && m == child_hash(
                            old(frontier)@,
                            i,
                            mi,
                        ) && final(own_map)@[m] == (old(frontier)@[i].1, mi as u8)
                    &&& other_map@.contains_key(m)
                    &&& final(frontier)@.len() == 0
                },
                None => {
                    &&& frontier_sound(final(frontier)@, final(own_map)@, r.1@, root, origin)
                    &&& final(own_map)@.len() == old(own_map)@.len() + final(frontier)@.len()
                    &&& *final(total_nodes) == *old(total_nodes) + 18 * old(frontier)@.len()
                    &&& forall|i: int, mi: int|
                        0 <= i < old(frontier)@.len() && 0 <= mi < 18
                            ==> final(own_map)@.contains_key(#[trigger] child_hash(old(frontier)@, i, mi))
                    &&& forall|j: int|
                        0 <= j < final(frontier)@.len() ==> !old(own_map)@.contains_key(
                            #[trigger] final(frontier)@[j].1,
                        )
                    &&& forall|k: u64| #[trigger]
                        final(own_map)@.contains_key(k) && !old(own_map)@.contains_key(k) ==> {
                            &&& !other_map@.contains_key(k)
                            &&& exists|j: int|
                                0 <= j < final(frontier)@.len() && #[trigger] final(frontier)@[j].1
                                    == k
                            &&& exists|i: int, mi: int|
                                0 <= i < old(frontier)@.len() && 0 <= mi < 18 && k == child_hash(
                                    old(frontier)@,
                                    i,
                                    mi,
                                ) && final(own_map)@[k] == (old(frontier)@[i].1, mi as u8)
                        }
                },
            },
    {
        let ghost mut rk = rank;
        let ghost o0 = own_map@.len();
        let ghost own0 = own_map@;
        let ghost t0 = *total_nodes;
        let ghost front0 = frontier@;
        let mut new_frontier: Vec<(RubiksCube, u64)> = Vec::new();
        proof {
            reveal(chains_within);
            reveal(chains_agree);
        }
        let n = frontier.len();
        let mut i: usize = 0;
        while i < n
            invariant
                n == front0.len(),
                frontier@ == front0,
                o0 == old(own_map)@.len(),
                own0 == old(own_map)@,
                t0 == *old(total_nodes),
                front0 == old(frontier)@,
                i <= n,
                parents_wf(own_map@, rk, root),
                parents_sound(own_map@, rk, root, origin),
                frontier_sound(front0, own_map@, rk, root, origin),
                frontier_sound(new_frontier@, own_map@, rk, root, origin),
                own_map@.len() == o0 + new_frontier@.len(),
                new_frontier@.len() <= 18 * i,
                *total_nodes == t0 + 18 * i,
                t0 + 18 * n <= u64::MAX,
                o0 + 18 * n <= usize::MAX,
                chains_within(own_map@, rk, root, lv + 1),
                chains_within(own0, rank, root, lv),
                frontier_sound(front0, own0, rank, root, origin),
                chains_agree(own_map@, rk, own0, rank, root),
                own0.submap_of(own_map@),
                forall|ii: int, mm: int|
                    0 <= ii < i && 0 <= mm < 18 ==> own_map@.contains_key(
                        #[trigger] child_hash(front0, ii, mm),
                    ),
                forall|j: int|
                    0 <= j < new_frontier@.len() ==> !own0.contains_key(
                        #[trigger] new_frontier@[j].1,
                    ),
                forall|k: u64| #[trigger]
                    own_map@.contains_key(k) && !own0.contains_key(k) ==> {
                        &&& !other_map@.contains_key(k)
                        &&& exists|j: int|
                            0 <= j < new_frontier@.len() && #[trigger] new_frontier@[j].1 == k
                        &&& exists|ii: int, mm: int|
                            0 <= ii < n && 0 <= mm < 18 && k == child_hash(front0, ii, mm)
                                && own_map@[k] == (front0[ii].1, mm as u8)
                    },
            decreases n - i,
        {
            let (state, parent_hash) = frontier[i];
            let mut mi: usize = 0;
            while mi < 18
                invariant
                    n == front0.len(),
                    frontier@ == front0,
                    o0 == old(own_map)@.len(),
                    own0 == old(own_map)@,
                    t0 == *old(total_nodes),
                    front0 == old(frontier)@,
                    i < n,
                    mi <= 18,
                    (state, parent_hash) == front0[i as int],
                    parents_wf(own_map@, rk, root),
                    parents_sound(own_map@, rk, root, origin),
                    frontier_sound(front0, own_map@, rk, root, origin),
                    frontier_sound(new_frontier@, own_map@, rk, root, origin),
                    own_map@.len() == o0 + new_frontier@.len(),
                    new_frontier@.len() <= 18 * i + mi,
                    *total_nodes == t0 + 18 * i + mi,
                    t0 + 18 * n <= u64::MAX,
                    o0 + 18 * n <= usize::MAX,
                    chains_within(own_map@, rk, root, lv + 1),
                    chains_within(own0, rank, root, lv),
                    frontier_sound(front0, own0, rank, root, origin),
                    chains_agree(own_map@, rk, own0, rank, root),
                    own0.submap_of(own_map@),
                    forall|ii: int, mm: int|
                        (0 <= ii < i && 0 <= mm < 18) || (ii == i && 0 <= mm < mi)
                            ==> own_map@.contains_key(#[trigger] child_hash(front0, ii, mm)),
                    forall|j: int|
                        0 <= j < new_frontier@.len() ==> !own0.contains_key(
                            #[trigger] new_frontier@[j].1,
                        ),
                    forall|k: u64| #[trigger]
                        own_map@.contains_key(k) && !own0.contains_key(k) ==> {
                            &&& !other_map@.contains_key(k)
                            &&& exists|j: int|
                                0 <= j < new_frontier@.len() && #[trigger] new_frontier@[j].1
                                    == k
                            &&& exists|ii: int, mm: int|
                                0 <= ii < n && 0 <= mm < 18 && k == child_hash(front0, ii, mm)
                                    && own_map@[k] == (front0[ii].1, mm as u8)
                        },
                decreases 18 - mi,
            {
                let m = move_at(mi);
                let mut child = state.clone();
                child.apply_move(m);
                let ch = Self::cube_hash(&child);
                assert(ch == child_hash(front0, i as int, mi as int));
                *total_nodes += 1;
                if own_map.contains_key(&ch) {
                    mi += 1;
                    continue ;
                }
                let ghost before = own_map@;
                proof {
                    assert(frontier_sound(front0, own_map@, rk, root, origin));
                    assert(own_map@.contains_key(parent_hash));
                    lemma_insert_child(
                        own_map@,
                        rk,
                        root,
                        origin,
                        parent_hash,
                        state,
                        mi as u8,
                        child,
                    );
                    let p2 = own_map@.insert(ch, (parent_hash, mi as u8));
                    let rk2 = rk.insert(ch, own_map@.len());
                    assert(own0.contains_key(parent_hash));
                    lemma_chains_after_insert(
                        own_map@,
                        rk,
                        root,
                        own0,
                        rank,
                        lv,
                        ch,
                        parent_hash,
                        mi as u8,
                    );
                    lemma_frontier_after_insert(front0, own_map@, rk, root, origin, ch, (parent_hash, mi as u8));
                    lemma_frontier_after_insert(new_frontier@, own_map@, rk, root, origin, ch, (parent_hash, mi as u8));
                    rk = rk2;
                }
                own_map.insert(ch, (parent_hash, mi as u8));
                proof {
                    assert(!own0.contains_key(ch));
                    assert(own0.submap_of(own_map@));
                }
                if other_map.contains_key(&ch) {
                    proof {
                        assert(own_map@[ch] == (front0[i as int].1, mi as u8));
                    }
                    frontier.clear();
                    return (Some(ch), Ghost(rk));
                }
                let ghost nf = new_frontier@;
                new_frontier.push((child, ch));
                proof {
                    lemma_frontier_push(nf, own_map@, rk, root, origin, child, ch);
                    assert(new_frontier@[nf.len() as int].1 == ch);
                    assert forall|j: int| 0 <= j < new_frontier@.len() implies !own0.contains_key(
                        #[trigger] new_frontier@[j].1,
                    ) by {
                        if j < nf.len() {
                            assert(new_frontier@[j] == nf[j]);
                        }
                    }
                    assert forall|k: u64| #[trigger]
                        own_map@.contains_key(k) && !own0.contains_key(k) implies {
                            &&& !other_map@.contains_key(k)
                            &&& exists|j: int|
                                0 <= j < new_frontier@.len() && #[trigger] new_frontier@[j].1
                                    == k
                        } by {
                        if k != ch {
                            assert(before.contains_key(k));
                            let j = choose|j: int| 0 <= j < nf.len() && #[trigger] nf[j].1 == k;
                            assert(new_frontier@[j] == nf[j]);
                        } else {
                            assert(own_map@[k] == (front0[i as int].1, mi as u8));
                        }
                    }
                }
                mi += 1;
            }
            i += 1;
        }
        *frontier = new_frontier;
        (None, Ghost(rk))
    }
}


impl Solver {
    /// The move sequence from the forward root to the meeting hash (forward
    /// links, first move first), followed by the moves that undo the backward
    /// chain from the solved cube to the meeting hash.
    #[verifier::spinoff_prover]
    #[verifier::rlimit(40)]
    fn reconstruct(
        fwd: &ParentMap,
        bwd: &ParentMap,
        meeting: u64,
        start_hash: u64,
        solved_hash: u64,
        Ghost(frank): Ghost<Map<u64, nat>>,
        Ghost(brank): Ghost<Map<u64, nat>>,
    ) -> (path: Vec<Move>)
        requires
            parents_wf(fwd@, frank, start_hash),
            parents_wf(bwd@, brank, solved_hash),
            fwd@.contains_key(meeting),
            bwd@.contains_key(meeting),
        ensures
            path@ == parent_chain(fwd@, frank, start_hash, meeting) + undo_moves(
                parent_chain(bwd@, brank, solved_hash, meeting),
            ),
    {
        // Forward: trace meeting back to the start, then reverse.
        let ghost fchain = parent_chain(fwd@, frank, start_hash, meeting);
        let mut fwd_path: Vec<Move> = Vec::new();
        let mut curr = meeting;
        while curr != start_hash
            invariant
                parents_wf(fwd@, frank, start_hash),
                fwd@.contains_key(curr),
                fchain == parent_chain(fwd@, frank, start_hash, curr) + fwd_path@.reverse(),
            decreases frank[curr],
        {
            let (parent, mi) = match fwd.get(&curr) {
                Some(e) => *e,
                None => {
                    proof {
                        assert(false);
                    }
                    (curr, 0)
                },
            };
            let m = move_at(mi as usize);
            proof {
                let c = parent_chain(fwd@, frank, start_hash, parent);
                assert(parent_chain(fwd@, frank, start_hash, curr) == c.push(m));
                assert(fwd_path@.push(m).reverse() =~= seq![m] + fwd_path@.reverse());
                assert(c.push(m) + fwd_path@.reverse() =~= c + fwd_path@.push(m).reverse());
            }
            fwd_path.push(m);
            curr = parent;
        }
        proof {
            assert(parent_chain(fwd@, frank, start_hash, curr) == Seq::<Move>::empty());
            assert(fchain =~= fwd_path@.reverse());
        }
        let mut result: Vec<Move> = Vec::new();
        let n = fwd_path.len();
        let mut j: usize = n;
        while j > 0
            invariant
                j <= n,
                n == fwd_path@.len(),
                result@ =~= fwd_path@.reverse().take((n - j) as int),
            decreases j,
        {
            j -= 1;
            result.push(fwd_path[j]);
            proof {
                assert(fwd_path@.reverse()[(n - 1 - j) as int] == fwd_path@[j as int]);
                assert(result@ =~= fwd_path@.reverse().take((n - j) as int));
            }
        }
        proof {
            assert(fwd_path@.reverse().take(n as int) =~= fwd_path@.reverse());
        }
        // Backward: trace meeting back to solved, inverting each move.
        let ghost bchain = parent_chain(bwd@, brank, solved_hash, meeting);
        let mut bwd_path: Vec<Move> = Vec::new();
        let mut curr = meeting;
        proof {
            assert(undo_moves(bchain) =~= bwd_path@ + undo_moves(bchain));
        }
        while curr != solved_hash
            invariant
                parents_wf(bwd@, brank, solved_hash),
                bwd@.contains_key(curr),
                undo_moves(bchain) == bwd_path@ + undo_moves(
                    parent_chain(bwd@, brank, solved_hash, curr),
                ),
            decreases brank[curr],
        {
            let (parent, mi) = match bwd.get(&curr) {
                Some(e) => *e,
                None => {
                    proof {
                        assert(false);
                    }
                    (curr, 0)
                },
            };
            let m = move_at(mi as usize);
            let inv = m.inverse();
            proof {
                let c = parent_chain(bwd@, brank, solved_hash, parent);
                assert(parent_chain(bwd@, brank, solved_hash, curr) == c.push(m));
                assert(c.push(m).drop_last() =~= c);
                assert(undo_moves(c.push(m)) == seq![inv] + undo_moves(c));
                assert(bwd_path@ + (seq![inv] + undo_moves(c)) =~= bwd_path@.push(inv) + undo_moves(c));
            }
            bwd_path.push(inv);
            curr = parent;
        }
        proof {
            assert(parent_chain(bwd@, brank, solved_hash, curr) == Seq::<Move>::empty());
            assert(undo_moves(Seq::<Move>::empty()) == Seq::<Move>::empty());
            assert(bwd_path@ + Seq::<Move>::empty() =~= bwd_path@);
        }
        result.append(&mut bwd_path);
        result
    }
}


/// What one level of the bidirectional search produced.
pub enum BfsStep {
    /// The two searches met; `path` leads from the cube towards solved.
    Found { path: Vec<Move>, depth: u32, nodes: u64 },
    /// One more level was expanded without the searches meeting.
    Level { depth: u32, nodes: u64 },
    /// The two parent maps together hold `states` hashes, more than the
    /// budget; the search stops.
    OverBudget { states: usize },
    /// The search stops without a path: a frontier ran empty, the cube hashes
    /// like the solved cube, or the search had already stopped.
    NoPath,
}

/// Bidirectional breadth-first search between a cube and the solved cube,
/// over cube hashes, one level per step; the smaller frontier is expanded.
pub struct BidirSearch {
    start: RubiksCube,
    start_hash: u64,
    solved_hash: u64,
    fwd: ParentMap,
    bwd: ParentMap,
    fwd_front: Vec<(RubiksCube, u64)>,
    bwd_front: Vec<(RubiksCube, u64)>,
    total_nodes: u64,
    depth: u32,
    done: bool,
    fwd_rank: Ghost<Map<u64, nat>>,
    bwd_rank: Ghost<Map<u64, nat>>,
    fwd_levels: Ghost<nat>,
    bwd_levels: Ghost<nat>,
}

impl BidirSearch {
    /// The cube the forward search starts from.
    pub closed spec fn start(&self) -> RubiksCube {
        self.start
    }

    /// Whether the search has stopped.
    pub closed spec fn stopped(&self) -> bool {
        self.done
    }

    /// Number of levels expanded so far.
    pub closed spec fn levels(&self) -> u32 {
        self.depth
    }

    /// Number of child cubes generated so far.
    pub closed spec fn explored(&self) -> u64 {
        self.total_nodes
    }

    /// Number of hashes the two searches have recorded together.
    pub closed spec fn recorded(&self) -> nat {
        self.fwd@.len() + self.bwd@.len()
    }

    /// Hashes recorded by the search from the cube.
    pub closed spec fn forward_hashes(&self) -> Set<u64> {
        self.fwd@.dom()
    }

    /// Hashes recorded by the search from the solved cube.
    pub closed spec fn backward_hashes(&self) -> Set<u64> {
        self.bwd@.dom()
    }

    /// The cubes (with their hashes) waiting in the forward frontier.
    pub closed spec fn forward_frontier(&self) -> Seq<(RubiksCube, u64)> {
        self.fwd_front@
    }

    /// The cubes (with their hashes) waiting in the backward frontier.
    pub closed spec fn backward_frontier(&self) -> Seq<(RubiksCube, u64)> {
        self.bwd_front@
    }

    /// Number of cubes waiting in the forward frontier.
    pub open spec fn forward_frontier_len(&self) -> nat {
        self.forward_frontier().len()
    }

    /// Number of cubes waiting in the backward frontier.
    pub open spec fn backward_frontier_len(&self) -> nat {
        self.backward_frontier().len()
    }

    /// The search's internal consistency.
    pub closed spec fn wf(&self) -> bool {
        &&& self.start_hash == cube_hash_of(self.start)
        &&& self.solved_hash == cube_hash_of(RubiksCube::solved())
        &&& !self.done ==> {
            &&& parents_wf(self.fwd@, self.fwd_rank@, self.start_hash)
            &&& parents_sound(self.fwd@, self.fwd_rank@, self.start_hash, self.start)
            &&& parents_wf(self.bwd@, self.bwd_rank@, self.solved_hash)
            &&& parents_sound(self.bwd@, self.bwd_rank@, self.solved_hash, RubiksCube::solved())
            &&& frontier_sound(
                self.fwd_front@,
                self.fwd@,
                self.fwd_rank@,
                self.start_hash,
                self.start,
            )
            &&& frontier_sound(
                self.bwd_front@,
                self.bwd@,
                self.bwd_rank@,
                self.solved_hash,
                RubiksCube::solved(),
            )
            &&& self.fwd@.dom().disjoint(self.bwd@.dom())
            &&& self.fwd_levels@ + self.bwd_levels@ == self.depth
            &&& chains_within(self.fwd@, self.fwd_rank@, self.start_hash, self.fwd_levels@)
            &&& chains_within(self.bwd@, self.bwd_rank@, self.solved_hash, self.bwd_levels@)
            &&& self.fwd_front@.len() <= self.fwd@.len()
            &&& self.bwd_front@.len() <= self.bwd@.len()
            &&& self.fwd@.len() + self.bwd@.len() <= 200_000_000
            &&& self.total_nodes + 18 * (self.fwd_front@.len() + self.bwd_front@.len()) <= 18 * (
            self.fwd@.len() + self.bwd@.len())
            &&& (self.depth < self.fwd@.len() + self.bwd@.len() || self.fwd_front@.len() == 0
                || self.bwd_front@.len() == 0)
        }
    }

    /// A search from `cube`; it has stopped at once when `cube` hashes like
    /// the solved cube.
    pub fn new(cube: &RubiksCube) -> (s: Self)
        ensures
            s.wf(),
            s.start() == *cube,
            s.stopped() == (cube_hash_of(*cube) == cube_hash_of(RubiksCube::solved())),
            s.levels() == 0,
            s.explored() == 0,
    {
        let solved = RubiksCube::new();
        let sh = Solver::cube_hash(cube);
        let eh = Solver::cube_hash(&solved);
        let mut fwd: ParentMap = HashMap::new();
        let mut bwd: ParentMap = HashMap::new();
        if sh == eh {
            return BidirSearch {
                start: *cube,
                start_hash: sh,
                solved_hash: eh,
                fwd,
                bwd,
                fwd_front: Vec::new(),
                bwd_front: Vec::new(),
                total_nodes: 0,
                depth: 0,
                done: true,
                fwd_rank: Ghost(Map::empty()),
                bwd_rank: Ghost(Map::empty()),
                fwd_levels: Ghost(0),
                bwd_levels: Ghost(0),
            };
        }
        fwd.insert(sh, (sh, 255));
        bwd.insert(eh, (eh, 255));
        let ghost frank = Map::<u64, nat>::empty().insert(sh, 0nat);
        let ghost brank = Map::<u64, nat>::empty().insert(eh, 0nat);
        proof {
            reveal(chains_within);
        }
        let fwd_front = vec![(*cube, sh)];
        let bwd_front = vec![(solved, eh)];
        proof {
            assert(fwd@ == Map::<u64, (u64, u8)>::empty().insert(sh, (sh, 255u8)));
            assert(bwd@ == Map::<u64, (u64, u8)>::empty().insert(eh, (eh, 255u8)));
            assert(frank.dom() =~= fwd@.dom());
            assert(brank.dom() =~= bwd@.dom());
            assert(fwd@.len() == 1);
            assert(bwd@.len() == 1);
            assert(parent_chain(fwd@, frank, sh, sh) == Seq::<Move>::empty());
            assert(parent_chain(bwd@, brank, eh, eh) == Seq::<Move>::empty());
            assert(apply_all(*cube, Seq::<Move>::empty()) == *cube);
            assert(apply_all(RubiksCube::solved(), Seq::<Move>::empty()) == RubiksCube::solved());
            assert(fwd_front@[0] == (*cube, sh));
            assert(bwd_front@[0] == (solved, eh));
        }
        BidirSearch {
            start: *cube,
            start_hash: sh,
            solved_hash: eh,
            fwd,
            bwd,
            fwd_front,
            bwd_front,
            total_nodes: 0,
            depth: 0,
            done: false,
            fwd_rank: Ghost(frank),
            bwd_rank: Ghost(brank),
            fwd_levels: Ghost(0),
            bwd_levels: Ghost(0),
        }
    }

    /// Expands one level of the smaller frontier (the forward one on ties).
    /// A `Found` path follows recorded links from the cube to a hash also
    /// reached from the solved cube, then undoes the backward links.
    pub fn step(&mut self) -> (r: BfsStep)
        requires
            old(self).wf(),
        ensures
            final(self).wf(),
            final(self).start() == old(self).start(),
            old(self).stopped() ==> r is NoPath,
            !old(self).stopped() && old(self).recorded() > BFS_MAX_STATES ==> r is OverBudget,
            (r is NoPath) <==> (old(self).stopped() || (old(self).recorded() <= BFS_MAX_STATES && (
            old(self).forward_frontier_len() == 0 || old(self).backward_frontier_len() == 0))),
            !old(self).stopped() && old(self).recorded() <= BFS_MAX_STATES
                && old(self).forward_frontier_len() > 0 && old(self).backward_frontier_len() > 0
                ==> (r is Found || r is Level),
            !(r is Level) ==> final(self).stopped(),
            r is Level ==> !final(self).stopped(),
            r is Level ==> {
                &&& (final(self).recorded() > old(self).recorded()
                    || final(self).forward_frontier_len() == 0
                    || final(self).backward_frontier_len() == 0)
                &&& old(self).forward_hashes().subset_of(final(self).forward_hashes())
                &&& old(self).backward_hashes().subset_of(final(self).backward_hashes())
                &&& final(self).forward_hashes().disjoint(final(self).backward_hashes())
                &&& old(self).forward_frontier_len() <= old(self).backward_frontier_len() ==> {
                    &&& forall|i: int, mi: int|
                        0 <= i < old(self).forward_frontier_len() && 0 <= mi < 18
                            ==> final(self).forward_hashes().contains(
                            #[trigger] child_hash(old(self).forward_frontier(), i, mi),
                        )
                    &&& forall|j: int|
                        0 <= j < final(self).forward_frontier_len() ==> !old(
                            self,
                        ).forward_hashes().contains(#[trigger] final(self).forward_frontier()[j].1)
                    &&& final(self).backward_frontier() == old(self).backward_frontier()
                }
                &&& old(self).forward_frontier_len() > old(self).backward_frontier_len() ==> {
                    &&& forall|i: int, mi: int|
                        0 <= i < old(self).backward_frontier_len() && 0 <= mi < 18
                            ==> final(self).backward_hashes().contains(
                            #[trigger] child_hash(old(self).backward_frontier(), i, mi),
                        )
                    &&& forall|j: int|
                        0 <= j < final(self).backward_frontier_len() ==> !old(
                            self,
                        ).backward_hashes().contains(#[trigger] final(self).backward_frontier()[j].1)
                    &&& final(self).forward_frontier() == old(self).forward_frontier()
                }
            },
            match r {
                BfsStep::Found { path, depth, nodes } => {
                    &&& meets_at(old(self).start(), path@)
                    &&& path@.len() <= depth
                    &&& depth == old(self).levels() + 1
                    &&& nodes == final(self).explored()
                },
                BfsStep::Level { depth, nodes } => {
                    &&& depth == old(self).levels() + 1
                    &&& depth == final(self).levels()
                    &&& nodes == final(self).explored()
                },
                BfsStep::OverBudget { states } => states == old(self).recorded() && states
                    > BFS_MAX_STATES,
                BfsStep::NoPath => true,
            },
    {
        if self.done {
            return BfsStep::NoPath;
        }
        let states = self.fwd.len() + self.bwd.len();
        if states > BFS_MAX_STATES {
            self.done = true;
            return BfsStep::OverBudget { states };
        }
        if self.fwd_front.len() == 0 || self.bwd_front.len() == 0 {
            self.done = true;
            return BfsStep::NoPath;
        }
        self.depth = self.depth + 1;
        let expand_fwd = self.fwd_front.len() <= self.bwd_front.len();
        if expand_fwd {
            let (res, Ghost(rk)) = Solver::expand_bfs_level(
                &mut self.fwd_front,
                &mut self.fwd,
                &self.bwd,
                &mut self.total_nodes,
                Ghost(self.fwd_rank@),
                Ghost(self.start_hash),
                Ghost(self.start),
                Ghost(self.fwd_levels@),
            );
            self.fwd_rank = Ghost(rk);
            self.fwd_levels = Ghost(self.fwd_levels@ + 1);
            if let Some(meeting) = res {
                let path = Solver::reconstruct(
                    &self.fwd,
                    &self.bwd,
                    meeting,
                    self.start_hash,
                    self.solved_hash,
                    Ghost(self.fwd_rank@),
                    Ghost(self.bwd_rank@),
                );
                proof {
                    self.lemma_meets(meeting, path@);
                    lemma_undo_len(parent_chain(self.bwd@, self.bwd_rank@, self.solved_hash, meeting));
                    reveal(chains_within);
                    assert(self.fwd@.contains_key(meeting) && self.bwd@.contains_key(meeting));
                }
                self.done = true;
                return BfsStep::Found { path, depth: self.depth, nodes: self.total_nodes };
            }
        } else {
            let (res, Ghost(rk)) = Solver::expand_bfs_level(
                &mut self.bwd_front,
                &mut self.bwd,
                &self.fwd,
                &mut self.total_nodes,
                Ghost(self.bwd_rank@),
                Ghost(self.solved_hash),
                Ghost(RubiksCube::solved()),
                Ghost(self.bwd_levels@),
            );
            self.bwd_rank = Ghost(rk);
            self.bwd_levels = Ghost(self.bwd_levels@ + 1);
            if let Some(meeting) = res {
                let path = Solver::reconstruct(
                    &self.fwd,
                    &self.bwd,
                    meeting,
                    self.start_hash,
                    self.solved_hash,
                    Ghost(self.fwd_rank@),
                    Ghost(self.bwd_rank@),
                );
                proof {
                    self.lemma_meets(meeting, path@);
                    lemma_undo_len(parent_chain(self.bwd@, self.bwd_rank@, self.solved_hash, meeting));
                    reveal(chains_within);
                    assert(self.fwd@.contains_key(meeting) && self.bwd@.contains_key(meeting));
                }
                self.done = true;
                return BfsStep::Found { path, depth: self.depth, nodes: self.total_nodes };
            }
        }
        BfsStep::Level { depth: self.depth, nodes: self.total_nodes }
    }

    proof fn lemma_meets(&self, meeting: u64, path: Seq<Move>)
        requires
            parents_sound(self.fwd@, self.fwd_rank@, self.start_hash, self.start),
            parents_sound(self.bwd@, self.bwd_rank@, self.solved_hash, RubiksCube::solved()),
            self.fwd@.contains_key(meeting),
            self.bwd@.contains_key(meeting),
            path == parent_chain(self.fwd@, self.fwd_rank@, self.start_hash, meeting) + undo_moves(
                parent_chain(self.bwd@, self.bwd_rank@, self.solved_hash, meeting),
            ),
        ensures
            meets_at(self.start, path),
    {
        let f = parent_chain(self.fwd@, self.fwd_rank@, self.start_hash, meeting);
        let b = parent_chain(self.bwd@, self.bwd_rank@, self.solved_hash, meeting);
        assert(cube_hash_of(apply_all(self.start, f)) == meeting);
        assert(cube_hash_of(apply_all(RubiksCube::solved(), b)) == meeting);
    }
}

} // verus!
