//! A table of distances from the solved cube, by cube hash.
use vstd::prelude::*;
use std::collections::HashMap;
use std::sync::Arc;
use crate::cube::{all_moves, apply, apply_all, move_at, move_number, Move, RubiksCube};
use crate::solver::heuristic::cube_hash_of;
use crate::solver::Solver;

verus! {

broadcast use vstd::std_specs::hash::group_hash_axioms;


/// Depth of the endgame table the solver builds.
pub const ENDGAME_DEPTH: u8 = 5;

/// Whether some sequence of `n` moves takes the solved cube to a cube
/// whose hash is `h`.
pub open spec fn hash_reachable_in(h: u64, n: nat) -> bool {
    exists|ms: Seq<Move>|
        ms.len() == n && cube_hash_of(#[trigger] apply_all(RubiksCube::solved(), ms)) == h
}

/// Whether some sequence of `n` moves takes the solved cube to `c`.
pub open spec fn reachable_in(c: RubiksCube, n: nat) -> bool {
    exists|ms: Seq<Move>| ms.len() == n && #[trigger] apply_all(RubiksCube::solved(), ms) == c
}

/// Every entry of `dist` maps a hash to at most `bound` moves, and some
/// sequence of that many moves from the solved cube reaches that hash.
pub open spec fn distances_sound(dist: Map<u64, u8>, bound: int) -> bool {
    forall|h: u64|
        #[trigger] dist.contains_key(h) ==> dist[h] <= bound && hash_reachable_in(h, dist[h] as nat)
}


/// The cube hash tells apart every two cubes within `n` moves of solved.
pub open spec fn hash_injective_within(n: int) -> bool {
    forall|a: Seq<Move>, b: Seq<Move>|
        a.len() <= n && b.len() <= n && #[trigger] cube_hash_of(apply_all(RubiksCube::solved(), a))
            == #[trigger] cube_hash_of(apply_all(RubiksCube::solved(), b)) ==> apply_all(
            RubiksCube::solved(),
            a,
        ) == apply_all(RubiksCube::solved(), b)
}

/// Every cube within `n` moves of solved has its hash recorded, at a
/// distance no larger than the length of any sequence reaching it.
pub open spec fn distances_complete(dist: Map<u64, u8>, n: int) -> bool {
    forall|ms: Seq<Move>|
        ms.len() <= n ==> dist.contains_key(
            #[trigger] cube_hash_of(apply_all(RubiksCube::solved(), ms)),
        ) && dist[cube_hash_of(apply_all(RubiksCube::solved(), ms))] <= ms.len()
}

/// Hash of the cube reached by `ms` from solved.
spec fn hash_of_seq(ms: Seq<Move>) -> u64 {
    cube_hash_of(apply_all(RubiksCube::solved(), ms))
}

/// Cubes met at fewer than `lim` moves have had all their children recorded,
/// one move further.
spec fn expanded_below(dist: Map<u64, u8>, n: int, lim: int) -> bool {
    forall|ms: Seq<Move>, m: Move|
        ms.len() <= n && dist.contains_key(hash_of_seq(ms)) && dist[hash_of_seq(ms)] < lim
            ==> dist.contains_key(#[trigger] hash_of_seq(ms.push(m))) && dist[hash_of_seq(
            ms.push(m),
        )] <= dist[hash_of_seq(ms)] + 1
}

/// Cubes met at exactly `lev` moves are in the frontier.
spec fn frontier_holds(dist: Map<u64, u8>, front: Seq<RubiksCube>, n: int, lev: int) -> bool {
    forall|ms: Seq<Move>|
        ms.len() <= n && dist.contains_key(#[trigger] hash_of_seq(ms)) && dist[hash_of_seq(ms)]
            == lev ==> exists|i: int|
            0 <= i < front.len() && #[trigger] front[i] == apply_all(RubiksCube::solved(), ms)
}

/// One level of the search, from frontier `front` at `d - 1` moves, keeps the
/// table complete and expanded, provided the hash is injective.
proof fn lemma_level_done(
    dist0: Map<u64, u8>,
    dist: Map<u64, u8>,
    front: Seq<RubiksCube>,
    next: Seq<RubiksCube>,
    d: int,
    max_d: int,
)
    requires
        1 <= d <= max_d,
        hash_injective_within(max_d),
        distances_sound(dist0, d - 1),
        distances_sound(dist, d),
        distances_complete(dist0, d - 1),
        expanded_below(dist0, d - 1, d - 1),
        frontier_holds(dist0, front, d - 1, d - 1),
        dist0.submap_of(dist),
        forall|k: u64|
            #[trigger] dist.contains_key(k) && !dist0.contains_key(k) ==> dist[k] == d && exists|
                j: int,
            |
                0 <= j < next.len() && #[trigger] cube_hash_of(next[j]) == k,
        forall|ii: int, kk: int|
            0 <= ii < front.len() && 0 <= kk < 18 ==> dist.contains_key(
                #[trigger] cube_hash_of(apply(front[ii], #[trigger] all_moves()[kk])),
            ),
        forall|j: int| 0 <= j < next.len() ==> reachable_in(#[trigger] next[j], d as nat),
    ensures
        distances_complete(dist, d),
        expanded_below(dist, d, d),
        frontier_holds(dist, next, d, d),
{
    assert forall|ms: Seq<Move>| ms.len() <= d implies dist.contains_key(
        #[trigger] cube_hash_of(apply_all(RubiksCube::solved(), ms)),
    ) && dist[cube_hash_of(apply_all(RubiksCube::solved(), ms))] <= ms.len() by {
        if ms.len() <= d - 1 {
            assert(dist0.contains_key(hash_of_seq(ms)));
        } else {
            let p = ms.drop_last();
            let m = ms.last();
            assert(ms =~= p.push(m));
            crate::cube::lemma_apply_all_push(RubiksCube::solved(), p, m);
            assert(dist0.contains_key(cube_hash_of(apply_all(RubiksCube::solved(), p))));
            if dist0[hash_of_seq(p)] < d - 1 {
                assert(dist.contains_key(hash_of_seq(p.push(m))));
            } else {
                let i = choose|i: int|
                    0 <= i < front.len() && #[trigger] front[i] == apply_all(
                        RubiksCube::solved(),
                        p,
                    );
                crate::cube::lemma_move_number_range(m);
                let kk = move_number(m);
                assert(dist.contains_key(cube_hash_of(apply(front[i], all_moves()[kk]))));
            }
        }
    }
    assert forall|ms: Seq<Move>, m: Move|
        ms.len() <= d && dist.contains_key(hash_of_seq(ms)) && dist[hash_of_seq(ms)] < d
            implies dist.contains_key(#[trigger] hash_of_seq(ms.push(m))) && dist[hash_of_seq(
            ms.push(m),
        )] <= dist[hash_of_seq(ms)] + 1 by {
        let h = hash_of_seq(ms);
        assert(dist0.contains_key(h));
        let j = dist0[h];
        assert(hash_reachable_in(h, j as nat));
        let w = choose|w: Seq<Move>|
            w.len() == j as nat && cube_hash_of(#[trigger] apply_all(RubiksCube::solved(), w))
                == h;
        assert(apply_all(RubiksCube::solved(), w) == apply_all(RubiksCube::solved(), ms));
        crate::cube::lemma_apply_all_push(RubiksCube::solved(), w, m);
        crate::cube::lemma_apply_all_push(RubiksCube::solved(), ms, m);
        assert(hash_of_seq(w.push(m)) == hash_of_seq(ms.push(m)));
        assert(hash_of_seq(w) == h);
        if j < d - 1 {
            assert(dist0.contains_key(hash_of_seq(w.push(m))));
        } else {
            let i = choose|i: int|
                0 <= i < front.len() && #[trigger] front[i] == apply_all(RubiksCube::solved(), w);
            crate::cube::lemma_move_number_range(m);
            let kk = move_number(m);
            assert(dist.contains_key(cube_hash_of(apply(front[i], all_moves()[kk]))));
        }
    }
    assert forall|ms: Seq<Move>|
        ms.len() <= d && dist.contains_key(#[trigger] hash_of_seq(ms)) && dist[hash_of_seq(ms)]
            == d implies exists|i: int|
        0 <= i < next.len() && #[trigger] next[i] == apply_all(RubiksCube::solved(), ms) by {
        let h = hash_of_seq(ms);
        assert(!dist0.contains_key(h));
        let j = choose|j: int| 0 <= j < next.len() && #[trigger] cube_hash_of(next[j]) == h;
        assert(reachable_in(next[j], d as nat));
        let w = choose|w: Seq<Move>|
            w.len() == d as nat && #[trigger] apply_all(RubiksCube::solved(), w) == next[j];
        assert(cube_hash_of(apply_all(RubiksCube::solved(), w)) == cube_hash_of(
            apply_all(RubiksCube::solved(), ms),
        ));
        assert(next[j] == apply_all(RubiksCube::solved(), ms));
    }
}

/// The cube one move `m` from solved is recorded at distance 1, or at 0
/// when its hash is that of the solved cube.
pub open spec fn one_move_recorded(dist: Map<u64, u8>, m: Move) -> bool {
    let h = cube_hash_of(apply(RubiksCube::solved(), m));
    &&& dist.contains_key(h)
    &&& dist[h] == (if h == cube_hash_of(RubiksCube::solved()) {
        0u8
    } else {
        1u8
    })
}

/// Hashes of the cubes within `max_d` moves of solved, each with the
/// number of moves at which a breadth-first search from solved met it.
pub struct EndgameTable {
    dist: HashMap<u64, u8>,
    max_d: u8,
}

impl View for EndgameTable {
    type V = Map<u64, u8>;

    closed spec fn view(&self) -> Map<u64, u8> {
        self.dist@
    }
}

impl EndgameTable {
    /// The depth the table was built to.
    pub closed spec fn depth(&self) -> u8 {
        self.max_d
    }

    /// What `lookup` answers for hash `h`: the recorded distance, or one more
    /// than the table's depth when the hash is absent.
    pub open spec fn lookup_of(&self, h: u64) -> u32 {
        if self@.contains_key(h) {
            self@[h] as u32
        } else {
            (self.depth() + 1) as u32
        }
    }

    /// Breadth-first search from the solved cube to depth `max_d`, recording
    /// for each newly met hash the depth at which it was met.
    pub fn build(max_d: u8) -> (table: Arc<Self>)
        ensures
            table.depth() == max_d,
            table@.contains_key(cube_hash_of(RubiksCube::solved())),
            table@[cube_hash_of(RubiksCube::solved())] == 0,
            distances_sound(table@, max_d as int),
            hash_injective_within(max_d as int) ==> distances_complete(table@, max_d as int),
            max_d >= 1 ==> forall|mi: int|
                0 <= mi < 18 ==> one_move_recorded(table@, #[trigger] all_moves()[mi]),
    {
        let mut dist: HashMap<u64, u8> = HashMap::new();
        let solved = RubiksCube::new();
        let solved_hash = Solver::cube_hash(&solved);
        dist.insert(solved_hash, 0);
        proof {
            assert(apply_all(RubiksCube::solved(), Seq::<Move>::empty()) == RubiksCube::solved());
            assert(hash_reachable_in(solved_hash, 0));
        }
        let mut frontier: Vec<RubiksCube> = vec![solved];
        proof {
            assert(reachable_in(frontier@[0], 0)) by {
                assert(apply_all(RubiksCube::solved(), Seq::<Move>::empty()) == frontier@[0]);
            }
        }
        let ghost inj = hash_injective_within(max_d as int);
        proof {
            assert forall|ms: Seq<Move>| ms.len() <= 0 implies dist@.contains_key(
                #[trigger] cube_hash_of(apply_all(RubiksCube::solved(), ms)),
            ) && dist@[cube_hash_of(apply_all(RubiksCube::solved(), ms))] <= ms.len() by {
                assert(ms =~= Seq::<Move>::empty());
            }
            assert forall|ms: Seq<Move>|
                ms.len() <= 0 && dist@.contains_key(#[trigger] hash_of_seq(ms))
                    && dist@[hash_of_seq(ms)] == 0 implies exists|i: int|
                0 <= i < frontier@.len() && #[trigger] frontier@[i] == apply_all(
                    RubiksCube::solved(),
                    ms,
                ) by {
                assert(ms =~= Seq::<Move>::empty());
                assert(frontier@[0] == apply_all(RubiksCube::solved(), ms));
            }
        }
        let mut d: u16 = 1;
        while d <= max_d as u16
            invariant
                1 <= d <= max_d as u16 + 1,
                inj == hash_injective_within(max_d as int),
                inj ==> distances_complete(dist@, d - 1),
                inj ==> expanded_below(dist@, d - 1, d - 1),
                inj ==> frontier_holds(dist@, frontier@, d - 1, d - 1),
                d == 1 ==> frontier@ == seq![RubiksCube::solved()],
                forall|key: u64| #[trigger] dist@.contains_key(key) && dist@[key] == 0 ==> key == solved_hash,
                d >= 2 ==> forall|mi: int|
                    0 <= mi < 18 ==> one_move_recorded(dist@, #[trigger] all_moves()[mi]),
                dist@.contains_key(solved_hash),
                dist@[solved_hash] == 0,
                solved_hash == cube_hash_of(RubiksCube::solved()),
                distances_sound(dist@, d - 1),
                forall|i: int| 0 <= i < frontier@.len() ==> reachable_in(#[trigger] frontier@[i], (d - 1) as nat),
            decreases max_d as u16 + 1 - d,
        {
            let mut next: Vec<RubiksCube> = Vec::new();
            let ghost dist0 = dist@;
            let mut i: usize = 0;
            while i < frontier.len()
                invariant
                    1 <= d <= max_d,
                    i <= frontier@.len(),
                    distances_sound(dist0, d - 1),
                    dist0.submap_of(dist@),
                    forall|key: u64| #[trigger] dist0.contains_key(key) && dist0[key] == 0 ==> key == solved_hash,
                    forall|key: u64|
                        #[trigger] dist@.contains_key(key) && !dist0.contains_key(key) ==> dist@[key]
                            == d && exists|j: int|
                            0 <= j < next@.len() && #[trigger] cube_hash_of(next@[j]) == key,
                    forall|ii: int, kk: int|
                        0 <= ii < i && 0 <= kk < 18 ==> dist@.contains_key(
                            #[trigger] cube_hash_of(apply(frontier@[ii], #[trigger] all_moves()[kk])),
                        ),
                    dist@.contains_key(solved_hash),
                    dist@[solved_hash] == 0,
                    distances_sound(dist@, d as int),
                    forall|k: int| 0 <= k < frontier@.len() ==> reachable_in(#[trigger] frontier@[k], (d - 1) as nat),
                    forall|k: int| 0 <= k < next@.len() ==> reachable_in(#[trigger] next@[k], d as nat),
                decreases frontier@.len() - i,
            {
                let mut state = frontier[i];
                let ghost ms = choose|ms: Seq<Move>| ms.len() == (d - 1) as nat && #[trigger] apply_all(RubiksCube::solved(), ms) == state;
                assert(reachable_in(frontier@[i as int], (d - 1) as nat));
                let mut k: usize = 0;
                while k < 18
                    invariant
                        1 <= d <= max_d,
                        i < frontier@.len(),
                        k <= 18,
                        state == frontier@[i as int],
                        ms.len() == (d - 1) as nat,
                        apply_all(RubiksCube::solved(), ms) == state,
                        dist@.contains_key(solved_hash),
                        dist@[solved_hash] == 0,
                        distances_sound(dist@, d as int),
                        forall|k: int| 0 <= k < next@.len() ==> reachable_in(#[trigger] next@[k], d as nat),
                        dist0.submap_of(dist@),
                        distances_sound(dist0, d - 1),
                        forall|key: u64|
                            #[trigger] dist@.contains_key(key) && !dist0.contains_key(key) ==> dist@[key]
                                == d && exists|j: int|
                                0 <= j < next@.len() && #[trigger] cube_hash_of(next@[j]) == key,
                        forall|ii: int, kk: int|
                            (0 <= ii < i && 0 <= kk < 18) || (ii == i && 0 <= kk < k)
                                ==> dist@.contains_key(
                                #[trigger] cube_hash_of(apply(frontier@[ii], #[trigger] all_moves()[kk])),
                            ),
                    decreases 18 - k,
                {
                    let m = move_at(k);
                    let ghost before = state;
                    state.apply_move(m);
                    proof {
                        crate::cube::lemma_apply_all_push(RubiksCube::solved(), ms, m);
                    }
                    let h = Solver::cube_hash(&state);
                    assert(h == cube_hash_of(apply(frontier@[i as int], all_moves()[k as int])));
                    let ghost dist_before = dist@;
                    let ghost next_before = next@;
                    if !dist.contains_key(&h) {
                        proof {
                            assert(hash_reachable_in(h, d as nat)) by {
                                assert(ms.push(m).len() == d as nat);
                                assert(cube_hash_of(apply_all(RubiksCube::solved(), ms.push(m))) == h);
                            }
                        }
                        dist.insert(h, d as u8);
                        next.push(state.clone());
                        proof {
                            assert(cube_hash_of(next@[next@.len() - 1]) == h);
                            assert forall|key: u64|
                                #[trigger] dist@.contains_key(key) && !dist0.contains_key(key)
                                    implies dist@[key] == d && exists|j: int|
                                0 <= j < next@.len() && #[trigger] cube_hash_of(next@[j]) == key by {
                                if key != h {
                                    assert(dist_before.contains_key(key));
                                    let j = choose|j: int|
                                        0 <= j < next_before.len() && #[trigger] cube_hash_of(
                                            next_before[j],
                                        ) == key;
                                    assert(next@[j] == next_before[j]);
                                }
                            }
                            assert(reachable_in(next@[next@.len() - 1], d as nat)) by {
                                assert(apply_all(RubiksCube::solved(), ms.push(m)) == next@[next@.len() - 1]);
                            }
                        }
                    }
                    state.apply_move(m.inverse());
                    proof {
                        crate::cube::lemma_apply_inverse(before, m);
                    }
                    k += 1;
                }
                i += 1;
            }
            proof {
                if inj {
                    lemma_level_done(dist0, dist@, frontier@, next@, d as int, max_d as int);
                }
                assert forall|key: u64| #[trigger] dist@.contains_key(key) && dist@[key] == 0
                    implies key == solved_hash by {
                    if !dist0.contains_key(key) {
                        assert(dist@[key] == d);
                    }
                }
                assert forall|mi: int| 0 <= mi < 18 implies one_move_recorded(
                    dist@,
                    #[trigger] all_moves()[mi],
                ) by {
                    let h = cube_hash_of(apply(RubiksCube::solved(), all_moves()[mi]));
                    if d == 1 {
                        assert(frontier@[0] == RubiksCube::solved());
                        assert(dist@.contains_key(cube_hash_of(apply(frontier@[0], all_moves()[mi]))));
                        assert(dist@[h] <= 1);
                    } else {
                        assert(one_move_recorded(dist0, all_moves()[mi]));
                    }
                }
            }
            frontier = next;
            d += 1;
        }
        Arc::new(Self { dist, max_d })
    }

    /// The recorded distance of hash `h`, or `depth + 1` when absent.
    pub fn lookup(&self, h: u64) -> (d: u32)
        requires
            self.depth() < 255 || self@.contains_key(h),
        ensures
            d == self.lookup_of(h),
    {
        match self.dist.get(&h) {
            Some(v) => *v as u32,
            None => (self.max_d + 1) as u32,
        }
    }

    /// Number of hashes recorded.
    pub fn len(&self) -> (n: usize)
        ensures
            n == self@.len(),
    {
        self.dist.len()
    }
}

} // verus!
