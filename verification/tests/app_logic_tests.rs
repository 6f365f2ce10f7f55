use rubiks_cube::control::{
    button_labels, buttons_enabled, phase_after_pause_resume, phase_on_move_received,
    phase_on_solver_finished, phase_when_settled, solve_allowed, MoveQueue, SolvePhase,
};
use rubiks_cube::cube::{Face, Move, RubiksCube};
use rubiks_cube::scene::{
    compact_count, CompactCount, CountUnit,
    cubie_stickers, font_glyph, frame_rate, glyph_cells, in_turning_layer, thread_percent,
    FrameRate,
};

#[test]
fn buttons_follow_phase() {
    assert_eq!(buttons_enabled(SolvePhase::Idle, false), [true, true, false, false, true]);
    assert_eq!(buttons_enabled(SolvePhase::Idle, true), [true, false, false, false, true]);
    assert_eq!(buttons_enabled(SolvePhase::Solving, false), [true, false, false, true, true]);
    assert_eq!(buttons_enabled(SolvePhase::Animating, false), [true, false, true, true, true]);
    assert_eq!(buttons_enabled(SolvePhase::Paused, true), [true, false, true, true, true]);
    assert_eq!(button_labels(SolvePhase::Paused), ["SCRAMBLE", "SOLVE", "RESUME", "STOP", "RESET"]);
    assert_eq!(button_labels(SolvePhase::Idle)[2], "PAUSE");
}

#[test]
fn phase_transitions() {
    assert_eq!(phase_after_pause_resume(SolvePhase::Animating), SolvePhase::Paused);
    assert_eq!(phase_after_pause_resume(SolvePhase::Paused), SolvePhase::Animating);
    assert_eq!(phase_after_pause_resume(SolvePhase::Idle), SolvePhase::Idle);
    assert!(solve_allowed(SolvePhase::Idle, false));
    assert!(!solve_allowed(SolvePhase::Idle, true));
    assert!(!solve_allowed(SolvePhase::Solving, false));
    assert_eq!(phase_on_move_received(SolvePhase::Solving), SolvePhase::Animating);
    assert_eq!(phase_on_move_received(SolvePhase::Paused), SolvePhase::Paused);
    assert_eq!(phase_on_solver_finished(SolvePhase::Solving, false), SolvePhase::Idle);
    assert_eq!(phase_on_solver_finished(SolvePhase::Solving, true), SolvePhase::Animating);
    assert_eq!(phase_on_solver_finished(SolvePhase::Paused, false), SolvePhase::Paused);
    assert_eq!(phase_when_settled(SolvePhase::Animating, false, true, true), SolvePhase::Idle);
    assert_eq!(phase_when_settled(SolvePhase::Animating, true, true, true), SolvePhase::Animating);
    assert_eq!(phase_when_settled(SolvePhase::Animating, false, true, false), SolvePhase::Animating);
}

#[test]
fn queue_animates_moves_in_order() {
    let mut cube = RubiksCube::new();
    cube.apply_move(Move::R);
    cube.apply_move(Move::U);
    let mut q = MoveQueue::new();
    q.push(Move::UPrime);
    q.push(Move::RPrime);
    assert_eq!(q.len(), 2);
    assert!(!q.start_next(SolvePhase::Paused));
    assert!(q.start_next(SolvePhase::Animating));
    assert_eq!(q.current(), Some(Move::UPrime));
    assert!(!q.start_next(SolvePhase::Animating));
    assert!(q.finish_current(&mut cube));
    assert!(!q.finish_current(&mut cube));
    assert!(q.start_next(SolvePhase::Animating));
    assert!(q.finish_current(&mut cube));
    assert!(q.is_empty());
    assert!(cube.is_solved());
    q.push(Move::F);
    q.clear();
    assert!(q.is_empty() && q.current().is_none());
}

#[test]
fn corner_cubie_shows_three_stickers() {
    let c = RubiksCube::new();
    assert_eq!(
        cubie_stickers(&c, 2, 2, 2),
        [Some(Face::Front), None, None, Some(Face::Right), Some(Face::Up), None]
    );
    assert_eq!(cubie_stickers(&c, 1, 1, 1), [None; 6]);
    assert_eq!(
        cubie_stickers(&c, 0, 0, 0),
        [None, Some(Face::Back), Some(Face::Left), None, None, Some(Face::Down)]
    );
}

#[test]
fn turned_cubie_stickers_follow_the_move() {
    let mut c = RubiksCube::new();
    c.apply_move(Move::U);
    // The front grid's first row now carries the right face's colour; the
    // renderer shows front[x][2 - y] on the small cube at (x, y, z = 2).
    assert_eq!(cubie_stickers(&c, 0, 2, 2)[0], Some(Face::Right));
    assert_eq!(cubie_stickers(&c, 1, 2, 2)[0], Some(Face::Front));
}

#[test]
fn turning_layers() {
    assert!(in_turning_layer(Move::U, 0, 2, 1));
    assert!(!in_turning_layer(Move::U, 0, 1, 1));
    assert!(in_turning_layer(Move::DPrime, 2, 0, 2));
    assert!(in_turning_layer(Move::F2, 1, 1, 2));
    assert!(in_turning_layer(Move::B, 1, 1, 0));
    assert!(in_turning_layer(Move::R, 2, 0, 0));
    assert!(in_turning_layer(Move::L, 0, 2, 2));
    assert!(!in_turning_layer(Move::L, 1, 2, 2));
}

#[test]
fn glyphs() {
    assert_eq!(font_glyph('A'), [0x0E, 0x11, 0x11, 0x1F, 0x11, 0x11, 0x11]);
    assert_eq!(font_glyph(' '), [0; 7]);
    assert_eq!(font_glyph('\''), [0x04, 0x04, 0x08, 0x00, 0x00, 0x00, 0x00]);
    assert_eq!(font_glyph('~'), [0x1F, 0x11, 0x11, 0x11, 0x11, 0x11, 0x1F]);
    for c in "SCRAMBLE solve 0123456789:./-+()!%=[]#<>*@|".chars() {
        assert!(font_glyph(c).iter().all(|&row| row < 32));
    }
}

#[test]
fn cpu_percentage() {
    assert_eq!(thread_percent(13, 16), 81);
    assert_eq!(thread_percent(18, 18), 100);
    assert_eq!(thread_percent(4, 0), 0);
}

#[test]
fn glyph_cells_list_lit_pixels_in_reading_order() {
    assert_eq!(
        glyph_cells('1'),
        vec![(0, 2), (1, 1), (1, 2), (2, 2), (3, 2), (4, 2), (5, 2), (6, 1), (6, 2), (6, 3)]
    );
    assert!(glyph_cells(' ').is_empty());
    // An unknown character draws the hollow box: 5 + 2*5 + 5 pixels.
    assert_eq!(glyph_cells('~').len(), 20);
}

#[test]
fn frame_rate_grades() {
    assert_eq!(frame_rate(144), FrameRate::Smooth);
    assert_eq!(frame_rate(60), FrameRate::Smooth);
    assert_eq!(frame_rate(59), FrameRate::Fair);
    assert_eq!(frame_rate(30), FrameRate::Fair);
    assert_eq!(frame_rate(29), FrameRate::Slow);
    assert_eq!(frame_rate(0), FrameRate::Slow);
}

#[test]
fn pause_resume_twice_and_solve_button() {
    for p in [SolvePhase::Idle, SolvePhase::Solving, SolvePhase::Animating, SolvePhase::Paused] {
        assert_eq!(phase_after_pause_resume(phase_after_pause_resume(p)), p);
        for solved in [false, true] {
            assert_eq!(buttons_enabled(p, solved)[1], solve_allowed(p, solved));
        }
    }
}

#[test]
fn compact_counts() {
    let c = |whole, tenths, unit| CompactCount { whole, tenths, unit };
    assert_eq!(compact_count(1_086_366), c(1, 0, CountUnit::Mega));
    assert_eq!(compact_count(25_990_000), c(25, 9, CountUnit::Mega));
    assert_eq!(compact_count(3_456_789_012), c(3, 4, CountUnit::Giga));
    assert_eq!(compact_count(1_500), c(2, 0, CountUnit::Kilo));
    assert_eq!(compact_count(2_500), c(2, 0, CountUnit::Kilo));
    assert_eq!(compact_count(2_501), c(3, 0, CountUnit::Kilo));
    assert_eq!(compact_count(999), c(999, 0, CountUnit::One));
}
