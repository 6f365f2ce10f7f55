//! Search for a move sequence that solves a cube: a bidirectional
//! breadth-first search first, then iterative-deepening A* over threads,
//! guided by an endgame table.
use vstd::prelude::*;
use crate::cube::{
    all_moves, apply, face_number, move_at, move_face, move_number, Move,
    RubiksCube,
};

pub mod bidir;
pub mod endgame;
pub mod heuristic;
pub mod ida;

pub use self::bidir::{BfsStep, BidirSearch, ParentMap, BFS_MAX_STATES};
pub use self::endgame::{EndgameTable, ENDGAME_DEPTH};
pub use self::heuristic::{FNV_OFFSET, FNV_PRIME};
pub use self::ida::{IdaWorker, SearchResult, WorkerEvent, IDA_MAX_DEPTH, IDA_NODES_PER_THREAD};

verus! {

/// Entry point of the solver and its helpers.
pub struct Solver;

/// Largest number of threads the solver splits its work over (one per first move).
pub const MAX_SOLVER_THREADS: usize = 18;


/// Whether face numbers `a` and `b` name opposite faces (0-1, 2-3, 4-5).
pub open spec fn ids_opposite_spec(a: u8, b: u8) -> bool {
    (a == 0 && b == 1) || (a == 1 && b == 0) || (a == 2 && b == 3) || (a == 3 && b == 2) || (a
        == 4 && b == 5) || (a == 5 && b == 4)
}

/// Whether `m` is skipped after `last`: same face, or the opposite face with
/// the smaller number (so commuting pairs are tried in one order only).
pub open spec fn should_prune_spec(m: Move, last: Option<Move>) -> bool {
    match last {
        Some(l) => {
            let mf = face_number(move_face(m));
            let lf = face_number(move_face(l));
            mf == lf || (ids_opposite_spec(mf as u8, lf as u8) && mf < lf)
        },
        None => false,
    }
}

/// 80 % of `logical`, rounded up, at least 1 and at most 18.
pub open spec fn solver_threads_for(logical: int) -> int {
    let t = (logical * 4 + 4) / 5;
    if t < 1 {
        1
    } else if t > 18 {
        18
    } else {
        t
    }
}

/// The thread budget is 80 % of the logical threads rounded up, kept
/// within 1..=18: below the cap, `t` is the least number with `5 t >= 4 n`.
pub proof fn lemma_solver_threads_round_up(n: int)
    requires
        0 <= n,
    ensures
        1 <= solver_threads_for(n) <= 18,
        n >= 1 && solver_threads_for(n) < 18 ==> 5 * solver_threads_for(n) >= 4 * n && 5 * (
        solver_threads_for(n) - 1) < 4 * n,
        n >= 22 ==> solver_threads_for(n) == 18,
{
    let q = (n * 4 + 4) / 5;
    assert(5 * q <= n * 4 + 4 < 5 * q + 5) by (nonlinear_arith)
        requires
            q == (n * 4 + 4) / 5,
            n >= 0,
    ;
}

impl Solver {
    /// Returns 80 % of `logical` threads, rounded up, at least 1 and at most
    /// 18 (the number of first moves the search splits over).
    pub fn compute_solver_threads_from(logical: usize) -> (n: usize)
        requires
            logical <= (usize::MAX - 4) / 4,
        ensures
            n == solver_threads_for(logical as int),
            1 <= n <= MAX_SOLVER_THREADS,
    {
        let t = (logical * 4 + 4) / 5;
        let t = if t < 1 {
            1
        } else {
            t
        };
        if t > 18 {
            18
        } else {
            t
        }
    }


    fn ids_opposite(a: u8, b: u8) -> (o: bool)
        ensures
            o == ids_opposite_spec(a, b),
    {
        (a == 0 && b == 1) || (a == 1 && b == 0) || (a == 2 && b == 3) || (a == 3 && b == 2) || (
        a == 4 && b == 5) || (a == 5 && b == 4)
    }

    /// Whether the search skips move `m` right after `last`.
    pub fn should_prune(m: Move, last: Option<Move>) -> (p: bool)
        ensures
            p == should_prune_spec(m, last),
    {
        if let Some(last) = last {
            let mf = m.face_id();
            let lf = last.face_id();
            if mf == lf {
                return true;
            }
            if Self::ids_opposite(mf, lf) && mf < lf {
                return true;
            }
        }
        false
    }
}


/// The phases of a solve, in order.
#[derive(Clone, Copy, Debug, PartialEq, Eq, Structural)]
pub enum SolveStage {
    /// Bidirectional breadth-first search.
    Breadth,
    /// Building the endgame table.
    Endgame,
    /// Parallel iterative-deepening search.
    Threshold,
    /// Nothing more to do; the result so far is the answer.
    Done,
}

/// The stage after `stage` ends: a solved cube needs no search; the
/// breadth-first search ends the solve when it found a path or the solve
/// was cancelled; after the table is built, a cancelled solve ends empty;
/// the threshold search is the last stage.
pub open spec fn next_stage_of(stage: SolveStage, cube_solved: bool, found: bool, cancelled: bool) -> SolveStage {
    match stage {
        SolveStage::Breadth => if cube_solved || found || cancelled {
            SolveStage::Done
        } else {
            SolveStage::Endgame
        },
        SolveStage::Endgame => if cancelled {
            SolveStage::Done
        } else {
            SolveStage::Threshold
        },
        _ => SolveStage::Done,
    }
}

/// The stage after `stage` (see `next_stage_of`).
pub fn next_stage(stage: SolveStage, cube_solved: bool, found: bool, cancelled: bool) -> (n: SolveStage)
    ensures
        n == next_stage_of(stage, cube_solved, found, cancelled),
{
    match stage {
        SolveStage::Breadth => if cube_solved || found || cancelled {
            SolveStage::Done
        } else {
            SolveStage::Endgame
        },
        SolveStage::Endgame => if cancelled {
            SolveStage::Done
        } else {
            SolveStage::Threshold
        },
        _ => SolveStage::Done,
    }
}

/// Progress of a solve, as shown to the user.
pub struct SolverStats {
    pub status: &'static str,
    /// Milliseconds since the solver started.
    pub elapsed_ms: u64,
    /// Current search depth (bidirectional search) or threshold (IDA*).
    pub depth: u32,
    pub nodes_explored: u64,
    pub solution_len: usize,
    /// Logical CPU threads available.
    pub cpu_logical: usize,
    /// Threads the solver uses (80 % of logical, rounded up, at most 18).
    pub solver_threads: usize,
}

impl SolverStats {
    /// Fresh statistics for a machine with `cpu_logical` logical threads.
    pub fn new(cpu_logical: usize) -> (s: Self)
        requires
            cpu_logical <= (usize::MAX - 4) / 4,
        ensures
            s.status@ == "starting"@,
            s.elapsed_ms == 0,
            s.depth == 0,
            s.nodes_explored == 0,
            s.solution_len == 0,
            s.cpu_logical == cpu_logical,
            s.solver_threads == solver_threads_for(cpu_logical as int),
    {
        let solver_threads = Solver::compute_solver_threads_from(cpu_logical);
        SolverStats {
            status: "starting",
            elapsed_ms: 0,
            depth: 0,
            nodes_explored: 0,
            solution_len: 0,
            cpu_logical,
            solver_threads,
        }
    }
}

/// The moves among the first `k` of `all_moves()` whose position leaves
/// remainder `ti` when divided by `n`, in order.
pub open spec fn assigned_moves(ti: int, n: int, k: int) -> Seq<Move>
    decreases k,
{
    if k <= 0 {
        Seq::empty()
    } else if (k - 1) % n == ti {
        assigned_moves(ti, n, k - 1).push(all_moves()[k - 1])
    } else {
        assigned_moves(ti, n, k - 1)
    }
}

impl Solver {
    /// The first moves handled by thread `ti` of `n_threads`: those at
    /// positions `ti`, `ti + n_threads`, `ti + 2 n_threads`, ... of the
    /// canonical move order.
    pub fn first_moves_for_thread(ti: usize, n_threads: usize) -> (moves: Vec<Move>)
        requires
            n_threads > 0,
        ensures
            moves@ == assigned_moves(ti as int, n_threads as int, 18),
    {
        let mut moves: Vec<Move> = Vec::new();
        let mut i: usize = 0;
        while i < 18
            invariant
                i <= 18,
                n_threads > 0,
                moves@ == assigned_moves(ti as int, n_threads as int, i as int),
            decreases 18 - i,
        {
            if i % n_threads == ti {
                moves.push(move_at(i));
            }
            i += 1;
        }
        moves
    }
}

/// Membership in `assigned_moves` by position.
proof fn lemma_assigned_contains(ti: int, n: int, k: int, m: Move)
    requires
        n > 0,
        0 <= k <= 18,
    ensures
        assigned_moves(ti, n, k).contains(m) <==> (move_number(m) < k && move_number(m) % n == ti),
    decreases k,
{
    if k > 0 {
        lemma_assigned_contains(ti, n, k - 1, m);
        crate::cube::lemma_all_moves_number(k - 1);
        let prev = assigned_moves(ti, n, k - 1);
        if (k - 1) % n == ti {
            assert(prev.push(all_moves()[k - 1]).contains(m) <==> (prev.contains(m) || m
                == all_moves()[k - 1])) by {
                if prev.push(all_moves()[k - 1]).contains(m) {
                    let q = prev.push(all_moves()[k - 1]);
                    let j = choose|j: int| 0 <= j < q.len() && #[trigger] q[j] == m;
                    if j < prev.len() {
                        assert(prev[j] == m);
                    }
                }
                if prev.contains(m) {
                    let j = choose|j: int| 0 <= j < prev.len() && #[trigger] prev[j] == m;
                    assert(prev.push(all_moves()[k - 1])[j] == m);
                }
                if m == all_moves()[k - 1] {
                    assert(prev.push(all_moves()[k - 1])[prev.len() as int] == m);
                }
            }
        }
    }
}

/// Splitting the first moves over `n` threads covers every move exactly
/// once: a move is assigned to thread `ti` exactly when its position leaves
/// remainder `ti` on division by `n`.
pub proof fn lemma_first_moves_partition(n: int, ti: int, m: Move)
    requires
        n > 0,
    ensures
        assigned_moves(ti, n, 18).contains(m) <==> move_number(m) % n == ti,
{
    lemma_assigned_contains(ti, n, 18, m);
    crate::cube::lemma_move_number_range(m);
}


/// The search loses nothing by pruning: a pruned move after `last` either
/// merges with `last` into a single move of the same face (or into no move),
/// or commutes with it, and the swapped order is not pruned.
pub proof fn lemma_pruned_pair_redundant(c: RubiksCube, last: Move, m: Move)
    requires
        should_prune_spec(m, Some(last)),
    ensures
        move_face(m) == move_face(last) ==> (apply(apply(c, last), m) == c || exists|m2: Move|
            move_face(m2) == move_face(last) && #[trigger] apply(c, m2) == apply(apply(c, last), m)),
        move_face(m) != move_face(last) ==> apply(apply(c, last), m) == apply(apply(c, m), last)
            && !should_prune_spec(last, Some(m)),
{
    if move_face(m) == move_face(last) {
        crate::cube::lemma_same_face_moves_combine(c, last, m);
    } else {
        crate::cube::lemma_opposite_moves_commute(c, last, m);
    }
}

} // verus!
