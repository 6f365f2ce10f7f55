use rubiks_cube::cube::{Face, Move, RubiksCube};
use rubiks_cube::solver::{
    BfsStep, BidirSearch, EndgameTable, IdaWorker, Solver, SolverStats, WorkerEvent, ENDGAME_DEPTH,
    IDA_MAX_DEPTH, IDA_NODES_PER_THREAD,
};
use rubiks_cube::solver::ida::{gives_up, over_bound};
use rubiks_cube::solver::{next_stage, SolveStage};
use std::sync::atomic::{AtomicBool, AtomicU32};

fn after(moves: &[Move]) -> RubiksCube {
    let mut c = RubiksCube::new();
    for &m in moves {
        c.apply_move(m);
    }
    c
}

fn fnv_of_stickers(c: &RubiksCube) -> u64 {
    let mut h: u64 = 0xcbf29ce484222325;
    for f in [Face::Up, Face::Down, Face::Front, Face::Back, Face::Right, Face::Left] {
        for row in c.get_face(f) {
            for &cell in row {
                h ^= cell as u64;
                h = h.wrapping_mul(0x100000001b3);
            }
        }
    }
    h
}

fn opposite(a: Face, b: Face) -> bool {
    matches!(
        (a, b),
        (Face::Up, Face::Down)
            | (Face::Down, Face::Up)
            | (Face::Front, Face::Back)
            | (Face::Back, Face::Front)
            | (Face::Right, Face::Left)
            | (Face::Left, Face::Right)
    )
}

fn raw_distance_by_hand(c: &RubiksCube) -> u32 {
    let mut total = 0;
    for f in [Face::Up, Face::Down, Face::Front, Face::Back, Face::Right, Face::Left] {
        for row in c.get_face(f) {
            for &cell in row {
                if cell != f {
                    total += if opposite(cell, f) { 2 } else { 1 };
                }
            }
        }
    }
    total
}

fn solves(cube: &RubiksCube, path: &[Move]) -> bool {
    let mut c = cube.clone();
    for &m in path {
        c.apply_move(m);
    }
    c.is_solved()
}

#[test]
fn cube_hash_is_fnv1a_of_stickers() {
    let solved = RubiksCube::new();
    assert_eq!(Solver::cube_hash(&solved), fnv_of_stickers(&solved));
    let c = after(&[Move::R, Move::U2, Move::FPrime]);
    assert_eq!(Solver::cube_hash(&c), fnv_of_stickers(&c));
    assert_ne!(Solver::cube_hash(&c), Solver::cube_hash(&solved));
}

#[test]
fn raw_distance_counts_misplaced_stickers() {
    assert_eq!(Solver::raw_distance(&RubiksCube::new()), 0);
    // A quarter turn moves twelve stickers to adjacent faces.
    assert_eq!(Solver::raw_distance(&after(&[Move::U])), 12);
    // A half turn moves them to the opposite faces.
    assert_eq!(Solver::raw_distance(&after(&[Move::U2])), 24);
}

#[test]
fn thread_budget_is_eighty_percent_rounded_up() {
    assert_eq!(Solver::compute_solver_threads_from(0), 1);
    assert_eq!(Solver::compute_solver_threads_from(1), 1);
    assert_eq!(Solver::compute_solver_threads_from(4), 4);
    assert_eq!(Solver::compute_solver_threads_from(5), 4);
    assert_eq!(Solver::compute_solver_threads_from(8), 7);
    assert_eq!(Solver::compute_solver_threads_from(16), 13);
    assert_eq!(Solver::compute_solver_threads_from(22), 18);
    assert_eq!(Solver::compute_solver_threads_from(64), 18);
}

#[test]
fn solver_stats_start_empty() {
    let s = SolverStats::new(16);
    assert_eq!(s.status, "starting");
    assert_eq!(s.elapsed_ms, 0);
    assert_eq!(s.depth, 0);
    assert_eq!(s.nodes_explored, 0);
    assert_eq!(s.solution_len, 0);
    assert_eq!(s.cpu_logical, 16);
    assert_eq!(s.solver_threads, 13);
}

#[test]
fn pruning_rules() {
    assert!(!Solver::should_prune(Move::U, None));
    assert!(Solver::should_prune(Move::U2, Some(Move::U)));
    assert!(Solver::should_prune(Move::U, Some(Move::D)));
    assert!(!Solver::should_prune(Move::D, Some(Move::U)));
    assert!(Solver::should_prune(Move::F, Some(Move::BPrime)));
    assert!(!Solver::should_prune(Move::B, Some(Move::F)));
    assert!(Solver::should_prune(Move::R2, Some(Move::L)));
    assert!(!Solver::should_prune(Move::R, Some(Move::U)));
}

#[test]
fn first_moves_split_round_robin() {
    let t0 = Solver::first_moves_for_thread(0, 4);
    assert_eq!(t0, vec![Move::U, Move::D2, Move::FPrime, Move::R, Move::L2]);
    let t3 = Solver::first_moves_for_thread(3, 4);
    assert_eq!(t3, vec![Move::D, Move::F2, Move::BPrime, Move::L]);
    let mut seen = 0;
    for ti in 0..7 {
        seen += Solver::first_moves_for_thread(ti, 7).len();
    }
    assert_eq!(seen, 18);
    assert_eq!(Solver::first_moves_for_thread(0, 1), Move::all());
}

#[test]
fn endgame_table_depth_two() {
    let table = EndgameTable::build(2);
    // 1 solved + 18 at one move + 243 distinct cubes at two moves.
    assert_eq!(table.len(), 262);
    assert_eq!(table.lookup(Solver::cube_hash(&RubiksCube::new())), 0);
    assert_eq!(table.lookup(Solver::cube_hash(&after(&[Move::F]))), 1);
    assert_eq!(table.lookup(Solver::cube_hash(&after(&[Move::F, Move::R]))), 2);
    assert_eq!(table.lookup(Solver::cube_hash(&after(&[Move::F, Move::R, Move::U]))), 3);
}

#[test]
fn heuristic_takes_the_larger_estimate() {
    let table = EndgameTable::build(1);
    assert_eq!(Solver::heuristic_with_table(&RubiksCube::new(), &table), 0);
    // Table says 1, raw distance 12 gives 3.
    assert_eq!(Solver::heuristic_with_table(&after(&[Move::U]), &table), 3);
    // Not in the table (depth + 1 = 2); the raw distance dominates.
    let c = after(&[Move::U2, Move::R]);
    let raw = raw_distance_by_hand(&c);
    assert_eq!(Solver::raw_distance(&c), raw);
    assert_eq!(Solver::heuristic_with_table(&c, &table), ((raw + 3) / 4).max(2));
}

fn bfs_solve(cube: &RubiksCube) -> Option<Vec<Move>> {
    let mut search = BidirSearch::new(cube);
    loop {
        match search.step() {
            BfsStep::Found { path, .. } => return Some(path),
            BfsStep::Level { .. } => {}
            BfsStep::OverBudget { .. } | BfsStep::NoPath => return None,
        }
    }
}

#[test]
fn bidirectional_search_solves_3_moves() {
    let cube = after(&[Move::R, Move::U, Move::F]);
    assert!(!cube.is_solved());
    let path = bfs_solve(&cube).expect("search must find a path");
    assert_eq!(path.len(), 3);
    assert!(solves(&cube, &path));
}

#[test]
fn bidirectional_search_solves_5_moves() {
    let cube = after(&[Move::R, Move::U, Move::F, Move::D, Move::L]);
    let path = bfs_solve(&cube).expect("search must find a path");
    assert!(!path.is_empty() && path.len() <= 5);
    assert!(solves(&cube, &path));
}

#[test]
fn bidirectional_search_on_solved_cube_finds_nothing() {
    let mut search = BidirSearch::new(&RubiksCube::new());
    assert!(matches!(search.step(), BfsStep::NoPath));
}

#[test]
fn bidirectional_search_reports_levels() {
    let cube = after(&[Move::R, Move::U, Move::F, Move::D]);
    let mut search = BidirSearch::new(&cube);
    match search.step() {
        BfsStep::Level { depth, nodes } => {
            assert_eq!(depth, 1);
            assert_eq!(nodes, 18);
        }
        _ => panic!("first level cannot meet"),
    }
}

#[test]
fn ida_worker_finds_a_solution() {
    let scramble = [Move::R, Move::U, Move::F, Move::D];
    let cube = after(&scramble);
    let table = EndgameTable::build(3);
    let best = AtomicU32::new(IDA_MAX_DEPTH);
    let cancel = AtomicBool::new(false);
    let mut worker = IdaWorker::new(cube.clone(), Move::all());
    let mut found: Option<Vec<Move>> = None;
    loop {
        match worker.step(&table, &best, &cancel) {
            WorkerEvent::Found(path) => {
                assert!(solves(&cube, &path));
                found = Some(path);
                break;
            }
            WorkerEvent::Raised { from, to, .. } => assert!(to > from),
            WorkerEvent::Finished => break,
        }
    }
    let path = found.expect("worker must find a solution");
    assert!(path.len() <= 12);
    for j in 1..path.len() {
        assert!(!Solver::should_prune(path[j], Some(path[j - 1])));
    }
}

#[test]
fn ida_worker_with_nothing_to_do_finishes() {
    let table = EndgameTable::build(1);
    let best = AtomicU32::new(IDA_MAX_DEPTH);
    let cancel = AtomicBool::new(false);
    let mut worker = IdaWorker::new(after(&[Move::U]), Vec::new());
    assert!(matches!(worker.step(&table, &best, &cancel), WorkerEvent::Finished));
}

#[test]
fn ida_worker_stops_when_cancelled() {
    let table = EndgameTable::build(1);
    let best = AtomicU32::new(IDA_MAX_DEPTH);
    let cancel = AtomicBool::new(true);
    let mut worker = IdaWorker::new(after(&[Move::U, Move::R]), Move::all());
    assert!(matches!(worker.step(&table, &best, &cancel), WorkerEvent::Finished));
}

#[test]
fn solve_10_moves() {
    let cube = after(&[
        Move::R, Move::U, Move::F, Move::D, Move::L,
        Move::B, Move::R2, Move::UPrime, Move::FPrime, Move::D2,
    ]);
    assert!(!cube.is_solved());
    let path = match bfs_solve(&cube) {
        Some(path) => path,
        None => {
            // Past the breadth-first budget: the threshold search takes over.
            let table = EndgameTable::build(ENDGAME_DEPTH);
            let best = AtomicU32::new(IDA_MAX_DEPTH);
            let cancel = AtomicBool::new(false);
            let mut worker = IdaWorker::new(cube.clone(), Move::all());
            loop {
                match worker.step(&table, &best, &cancel) {
                    WorkerEvent::Found(path) => break path,
                    WorkerEvent::Raised { .. } => {}
                    WorkerEvent::Finished => panic!("solver must find a solution"),
                }
            }
        }
    };
    assert!(!path.is_empty());
    assert!(solves(&cube, &path));
}

#[test]
fn heuristic_is_zero_only_when_solved() {
    let table = EndgameTable::build(2);
    let solved = RubiksCube::new();
    assert_eq!(Solver::raw_distance(&solved), 0);
    assert_eq!(Solver::heuristic_with_table(&solved, &table), 0);
    for m in Move::all() {
        let c = after(&[m]);
        assert!(Solver::raw_distance(&c) > 0);
        assert!(Solver::heuristic_with_table(&c, &table) >= 1);
    }
}

#[test]
fn endgame_table_depth_one_is_exact() {
    let t = EndgameTable::build(1);
    assert_eq!(t.len(), 19);
    assert_eq!(t.lookup(Solver::cube_hash(&RubiksCube::new())), 0);
    for m in Move::all() {
        assert_eq!(t.lookup(Solver::cube_hash(&after(&[m]))), 1);
    }
    assert_eq!(t.lookup(Solver::cube_hash(&after(&[Move::R, Move::U]))), 2);
    let c = after(&[Move::R]);
    assert_eq!(Solver::raw_distance(&c), 12);
    assert_eq!(Solver::heuristic_with_table(&c, &EndgameTable::build(ENDGAME_DEPTH)), 3);
}

#[test]
fn cut_and_give_up_tests() {
    assert!(over_bound(11, 10, 50));
    assert!(over_bound(7, 10, 7));
    assert!(!over_bound(10, 10, 50));
    assert!(gives_up(20, 20, 0, false));
    assert!(gives_up(5, 20, IDA_NODES_PER_THREAD, false));
    assert!(gives_up(5, 20, 0, true));
    assert!(!gives_up(5, 20, 0, false));
}

#[test]
fn bidirectional_path_fits_in_levels() {
    let cube = after(&[Move::R, Move::U, Move::F]);
    let mut search = BidirSearch::new(&cube);
    loop {
        match search.step() {
            BfsStep::Found { path, depth, .. } => {
                assert!(path.len() as u32 <= depth);
                assert_eq!(path, vec![Move::FPrime, Move::UPrime, Move::RPrime]);
                assert!(solves(&cube, &path));
                break;
            }
            BfsStep::Level { .. } => {}
            _ => panic!("search must meet"),
        }
    }
}

#[test]
fn solve_stages() {
    assert_eq!(next_stage(SolveStage::Breadth, true, false, false), SolveStage::Done);
    assert_eq!(next_stage(SolveStage::Breadth, false, true, false), SolveStage::Done);
    assert_eq!(next_stage(SolveStage::Breadth, false, false, true), SolveStage::Done);
    assert_eq!(next_stage(SolveStage::Breadth, false, false, false), SolveStage::Endgame);
    assert_eq!(next_stage(SolveStage::Endgame, false, false, true), SolveStage::Done);
    assert_eq!(next_stage(SolveStage::Endgame, false, false, false), SolveStage::Threshold);
    assert_eq!(next_stage(SolveStage::Threshold, false, true, false), SolveStage::Done);
}
