use rubiks_cube::cube::{move_for_draw, Face, Move, RubiksCube};

const FACES: [Face; 6] = [Face::Up, Face::Down, Face::Front, Face::Back, Face::Right, Face::Left];

fn same_cube(a: &RubiksCube, b: &RubiksCube) -> bool {
    FACES.iter().all(|&f| a.get_face(f) == b.get_face(f))
}

fn after(moves: &[Move]) -> RubiksCube {
    let mut c = RubiksCube::new();
    for &m in moves {
        c.apply_move(m);
    }
    c
}

#[test]
fn all_lists_eighteen_moves_in_order() {
    let all = Move::all();
    assert_eq!(all.len(), 18);
    assert_eq!(all[0], Move::U);
    assert_eq!(all[2], Move::UPrime);
    assert_eq!(all[7], Move::F2);
    assert_eq!(all[17], Move::LPrime);
    for i in 0..18 {
        for j in 0..18 {
            if i != j {
                assert_ne!(all[i], all[j]);
            }
        }
    }
}

#[test]
fn inverse_pairs() {
    assert_eq!(Move::U.inverse(), Move::UPrime);
    assert_eq!(Move::UPrime.inverse(), Move::U);
    assert_eq!(Move::R2.inverse(), Move::R2);
    assert_eq!(Move::L.inverse(), Move::LPrime);
    for m in Move::all() {
        assert_eq!(m.inverse().inverse(), m);
        assert_eq!(m.inverse().face_id(), m.face_id());
    }
}

#[test]
fn face_ids_and_layers() {
    assert_eq!(Move::U2.face_id(), 0);
    assert_eq!(Move::DPrime.face_id(), 1);
    assert_eq!(Move::F.face_id(), 2);
    assert_eq!(Move::B2.face_id(), 3);
    assert_eq!(Move::R.face_id(), 4);
    assert_eq!(Move::LPrime.face_id(), 5);
    assert_eq!(Move::U.layer_index(), 2);
    assert_eq!(Move::D.layer_index(), 0);
    assert_eq!(Move::F2.layer_index(), 2);
    assert_eq!(Move::B.layer_index(), 0);
    assert_eq!(Move::RPrime.layer_index(), 2);
    assert_eq!(Move::L.layer_index(), 0);
}

#[test]
fn notation_strings() {
    assert_eq!(Move::U.notation(), "U");
    assert_eq!(Move::D2.notation(), "D2");
    assert_eq!(Move::FPrime.notation(), "F'");
    assert_eq!(Move::LPrime.notation(), "L'");
    let joined: Vec<&str> = Move::all().iter().map(|m| m.notation()).collect();
    assert_eq!(joined.join(" "), "U U2 U' D D2 D' F F2 F' B B2 B' R R2 R' L L2 L'");
}

#[test]
fn new_cube_is_solved() {
    let c = RubiksCube::new();
    assert!(c.is_solved());
    assert_eq!(*c.get_face(Face::Left), [[Face::Left; 3]; 3]);
}

#[test]
fn single_moves_unsolve_and_inverse_restores() {
    for m in Move::all() {
        let mut c = RubiksCube::new();
        c.apply_move(m);
        assert!(!c.is_solved(), "{} leaves the cube solved", m.notation());
        c.apply_move(m.inverse());
        assert!(c.is_solved());
    }
}

#[test]
fn four_quarter_turns_restore() {
    for m in [Move::U, Move::D, Move::F, Move::B, Move::R, Move::L] {
        let c = after(&[Move::R, Move::U, Move::F2, m, m, m, m]);
        assert!(same_cube(&c, &after(&[Move::R, Move::U, Move::F2])));
    }
}

#[test]
fn half_and_prime_turns_are_repeated_quarters() {
    assert!(same_cube(&after(&[Move::F2]), &after(&[Move::F, Move::F])));
    assert!(same_cube(&after(&[Move::BPrime]), &after(&[Move::B, Move::B, Move::B])));
}

#[test]
fn opposite_faces_commute() {
    assert!(same_cube(&after(&[Move::U, Move::D2]), &after(&[Move::D2, Move::U])));
    assert!(same_cube(&after(&[Move::F, Move::BPrime]), &after(&[Move::BPrime, Move::F])));
    assert!(same_cube(&after(&[Move::R2, Move::L]), &after(&[Move::L, Move::R2])));
    assert!(!same_cube(&after(&[Move::U, Move::R]), &after(&[Move::R, Move::U])));
}

#[test]
fn u_turn_moves_top_rows() {
    let c = after(&[Move::U]);
    assert_eq!(c.get_face(Face::Front)[0], [Face::Right; 3]);
    assert_eq!(c.get_face(Face::Right)[0], [Face::Back; 3]);
    assert_eq!(c.get_face(Face::Back)[0], [Face::Left; 3]);
    assert_eq!(c.get_face(Face::Left)[0], [Face::Front; 3]);
    assert_eq!(c.get_face(Face::Front)[1], [Face::Front; 3]);
    assert_eq!(*c.get_face(Face::Up), [[Face::Up; 3]; 3]);
}

#[test]
fn r_turn_moves_columns() {
    let c = after(&[Move::R]);
    let up = c.get_face(Face::Up);
    assert_eq!([up[0][2], up[1][2], up[2][2]], [Face::Front; 3]);
    let back = c.get_face(Face::Back);
    assert_eq!([back[0][0], back[1][0], back[2][0]], [Face::Up; 3]);
    let down = c.get_face(Face::Down);
    assert_eq!([down[0][2], down[1][2], down[2][2]], [Face::Back; 3]);
}

#[test]
fn undoing_a_sequence_restores() {
    let seq = [Move::R, Move::U, Move::F, Move::D, Move::L, Move::B, Move::R2, Move::UPrime];
    let mut c = after(&seq);
    assert!(!c.is_solved());
    for m in seq.iter().rev() {
        c.apply_move(m.inverse());
    }
    assert!(c.is_solved());
}

#[test]
fn scrambled_cube_is_not_solved() {
    for n in [0usize, 1, 2, 10, 25] {
        let c = RubiksCube::scrambled(n);
        assert!(!c.is_solved());
    }
}

#[test]
fn two_move_scrambles_turn_two_different_faces() {
    // Two turns of different faces never reduce to a single move.
    let singles: Vec<RubiksCube> = Move::all().iter().map(|&m| after(&[m])).collect();
    for _ in 0..50 {
        let c = RubiksCube::scrambled(2);
        assert!(!c.is_solved());
        assert!(singles.iter().all(|s| !same_cube(s, &c)));
    }
}

#[test]
fn draws_map_to_moves_of_other_faces() {
    let all = Move::all();
    for r in 0..18 {
        assert_eq!(move_for_draw(r, None), all[r]);
    }
    // After a U move (face 0) the fifteen draws skip U, U2 and U'.
    assert_eq!(move_for_draw(0, Some(0)), Move::D);
    assert_eq!(move_for_draw(14, Some(0)), Move::LPrime);
    // After an F move (face 2) draws 0..6 keep their place and 6.. skip three.
    assert_eq!(move_for_draw(5, Some(2)), Move::DPrime);
    assert_eq!(move_for_draw(6, Some(2)), Move::B);
    for f in 0u8..6 {
        for r in 0..15 {
            assert_ne!(move_for_draw(r, Some(f)).face_id(), f);
        }
    }
}

#[test]
fn moves_keep_centres_colour_counts_and_opposite_face() {
    let c = after(&[Move::R, Move::U, Move::F, Move::D, Move::L, Move::B2, Move::UPrime]);
    for (i, &f) in FACES.iter().enumerate() {
        assert_eq!(c.get_face(f)[1][1], f);
        let mut n = 0;
        for &g in FACES.iter() {
            for row in c.get_face(g) {
                n += row.iter().filter(|&&s| s == FACES[i]).count();
            }
        }
        assert_eq!(n, 9);
    }
    let solved = RubiksCube::new();
    let r = after(&[Move::R]);
    assert_eq!(r.get_face(Face::Left), solved.get_face(Face::Left));
}
