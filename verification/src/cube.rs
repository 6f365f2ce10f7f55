//! Cube state, face turns and their algebra.
use vstd::prelude::*;
use rand::rngs::ThreadRng;
use rand::Rng;

verus! {

/// The six faces of the cube; a sticker is identified by the face whose
/// centre it matches on a solved cube.
#[derive(Debug, Clone, Copy, PartialEq, Eq, Hash, Structural)]
pub enum Face {
    Up,
    Down,
    Front,
    Back,
    Right,
    Left,
}

/// The eighteen face turns of the half-turn metric: a quarter turn
/// clockwise, a half turn and a quarter turn anticlockwise (`Prime`)
/// for each face.
#[derive(Debug, Clone, Copy, PartialEq, Eq, Structural)]
pub enum Move {
    U,
    U2,
    UPrime,
    D,
    D2,
    DPrime,
    F,
    F2,
    FPrime,
    B,
    B2,
    BPrime,
    R,
    R2,
    RPrime,
    L,
    L2,
    LPrime,
}

/// A 3x3 grid of stickers, indexed `[row][column]`.
pub type Grid = [[Face; 3]; 3];

/// Number of a face: Up 0, Down 1, Front 2, Back 3, Right 4, Left 5.
pub open spec fn face_number(f: Face) -> int {
    match f {
        Face::Up => 0,
        Face::Down => 1,
        Face::Front => 2,
        Face::Back => 3,
        Face::Right => 4,
        Face::Left => 5,
    }
}

/// The face with a given number (inverse of `face_number`).
pub open spec fn face_with_number(n: int) -> Face {
    if n == 0 {
        Face::Up
    } else if n == 1 {
        Face::Down
    } else if n == 2 {
        Face::Front
    } else if n == 3 {
        Face::Back
    } else if n == 4 {
        Face::Right
    } else {
        Face::Left
    }
}

/// The eighteen moves in their canonical order: for each face U, D, F, B,
/// R, L the quarter turn, the half turn and the inverse quarter turn.
pub open spec fn all_moves() -> Seq<Move> {
    seq![
        Move::U, Move::U2, Move::UPrime,
        Move::D, Move::D2, Move::DPrime,
        Move::F, Move::F2, Move::FPrime,
        Move::B, Move::B2, Move::BPrime,
        Move::R, Move::R2, Move::RPrime,
        Move::L, Move::L2, Move::LPrime,
    ]
}

/// Position of a move in `all_moves()`.
pub open spec fn move_number(m: Move) -> int {
    match m {
        Move::U => 0,
        Move::U2 => 1,
        Move::UPrime => 2,
        Move::D => 3,
        Move::D2 => 4,
        Move::DPrime => 5,
        Move::F => 6,
        Move::F2 => 7,
        Move::FPrime => 8,
        Move::B => 9,
        Move::B2 => 10,
        Move::BPrime => 11,
        Move::R => 12,
        Move::R2 => 13,
        Move::RPrime => 14,
        Move::L => 15,
        Move::L2 => 16,
        Move::LPrime => 17,
    }
}

/// The face a move turns.
pub open spec fn move_face(m: Move) -> Face {
    match m {
        Move::U | Move::U2 | Move::UPrime => Face::Up,
        Move::D | Move::D2 | Move::DPrime => Face::Down,
        Move::F | Move::F2 | Move::FPrime => Face::Front,
        Move::B | Move::B2 | Move::BPrime => Face::Back,
        Move::R | Move::R2 | Move::RPrime => Face::Right,
        Move::L | Move::L2 | Move::LPrime => Face::Left,
    }
}

/// How many clockwise quarter turns of its face a move makes (1, 2 or 3).
pub open spec fn quarter_turns(m: Move) -> int {
    match m {
        Move::U | Move::D | Move::F | Move::B | Move::R | Move::L => 1,
        Move::U2 | Move::D2 | Move::F2 | Move::B2 | Move::R2 | Move::L2 => 2,
        _ => 3,
    }
}

/// The move that turns face `f` clockwise by `q` quarter turns (`q` in 1..=3).
pub open spec fn move_of(f: Face, q: int) -> Move {
    match f {
        Face::Up => if q == 1 { Move::U } else if q == 2 { Move::U2 } else { Move::UPrime },
        Face::Down => if q == 1 { Move::D } else if q == 2 { Move::D2 } else { Move::DPrime },
        Face::Front => if q == 1 { Move::F } else if q == 2 { Move::F2 } else { Move::FPrime },
        Face::Back => if q == 1 { Move::B } else if q == 2 { Move::B2 } else { Move::BPrime },
        Face::Right => if q == 1 { Move::R } else if q == 2 { Move::R2 } else { Move::RPrime },
        Face::Left => if q == 1 { Move::L } else if q == 2 { Move::L2 } else { Move::LPrime },
    }
}

/// The move that undoes `m`: same face, `4 - q` quarter turns.
pub open spec fn inverse_move(m: Move) -> Move {
    move_of(move_face(m), 4 - quarter_turns(m))
}

/// Up and Down, Front and Back, Right and Left face each other.
pub open spec fn opposite_faces(a: Face, b: Face) -> bool {
    match (a, b) {
        (Face::Up, Face::Down) | (Face::Down, Face::Up) | (Face::Front, Face::Back) | (
            Face::Back,
            Face::Front,
        ) | (Face::Right, Face::Left) | (Face::Left, Face::Right) => true,
        _ => false,
    }
}

/// `all_moves()` lists each move at its own number.
pub proof fn lemma_all_moves_number(i: int)
    requires
        0 <= i < 18,
    ensures
        move_number(all_moves()[i]) == i,
        all_moves().len() == 18,
{
}

/// Move numbers range over 0..18 and index `all_moves()`.
pub proof fn lemma_move_number_range(m: Move)
    ensures
        0 <= move_number(m) < 18,
        all_moves()[move_number(m)] == m,
{
}

/// A move is determined by its face and its number of quarter turns.
pub proof fn lemma_move_of_parts(m: Move)
    ensures
        move_of(move_face(m), quarter_turns(m)) == m,
        1 <= quarter_turns(m) <= 3,
{
}

impl Move {
    /// All eighteen moves in canonical order.
    pub fn all() -> (moves: Vec<Move>)
        ensures
            moves@ == all_moves(),
    {
        let moves = vec![
            Move::U, Move::U2, Move::UPrime,
            Move::D, Move::D2, Move::DPrime,
            Move::F, Move::F2, Move::FPrime,
            Move::B, Move::B2, Move::BPrime,
            Move::R, Move::R2, Move::RPrime,
            Move::L, Move::L2, Move::LPrime,
        ];
        assert(moves@ =~= all_moves());
        moves
    }

    /// The move that undoes this one.
    pub fn inverse(&self) -> (inv: Move)
        ensures
            inv == inverse_move(*self),
    {
        match self {
            Move::U => Move::UPrime,
            Move::U2 => Move::U2,
            Move::UPrime => Move::U,
            Move::D => Move::DPrime,
            Move::D2 => Move::D2,
            Move::DPrime => Move::D,
            Move::F => Move::FPrime,
            Move::F2 => Move::F2,
            Move::FPrime => Move::F,
            Move::B => Move::BPrime,
            Move::B2 => Move::B2,
            Move::BPrime => Move::B,
            Move::R => Move::RPrime,
            Move::R2 => Move::R2,
            Move::RPrime => Move::R,
            Move::L => Move::LPrime,
            Move::L2 => Move::L2,
            Move::LPrime => Move::L,
        }
    }

    /// Number of the face this move turns (Up 0, Down 1, Front 2, Back 3,
    /// Right 4, Left 5).
    pub fn face_id(&self) -> (id: u8)
        ensures
            id == face_number(move_face(*self)),
    {
        match self {
            Move::U | Move::U2 | Move::UPrime => 0,
            Move::D | Move::D2 | Move::DPrime => 1,
            Move::F | Move::F2 | Move::FPrime => 2,
            Move::B | Move::B2 | Move::BPrime => 3,
            Move::R | Move::R2 | Move::RPrime => 4,
            Move::L | Move::L2 | Move::LPrime => 5,
        }
    }

    /// Index, along the move's rotation axis, of the layer it turns:
    /// 2 for U, F and R, 0 for D, B and L.
    pub fn layer_index(&self) -> (idx: usize)
        ensures
            idx == (match move_face(*self) {
                Face::Up | Face::Front | Face::Right => 2usize,
                _ => 0usize,
            }),
    {
        match self {
            Move::U | Move::U2 | Move::UPrime => 2,
            Move::D | Move::D2 | Move::DPrime => 0,
            Move::F | Move::F2 | Move::FPrime => 2,
            Move::B | Move::B2 | Move::BPrime => 0,
            Move::R | Move::R2 | Move::RPrime => 2,
            Move::L | Move::L2 | Move::LPrime => 0,
        }
    }
}

/// Inverting twice gives the move back.
pub proof fn lemma_inverse_involution(m: Move)
    ensures
        inverse_move(inverse_move(m)) == m,
        move_face(inverse_move(m)) == move_face(m),
        quarter_turns(inverse_move(m)) == 4 - quarter_turns(m),
{
}


/// A grid whose nine stickers all show `f`.
pub open spec fn uniform(f: Face) -> Grid {
    [[f, f, f], [f, f, f], [f, f, f]]
}

/// The grid turned a quarter turn clockwise (seen from outside the face).
pub open spec fn clockwise(g: Grid) -> Grid {
    [[g[2][0], g[1][0], g[0][0]], [g[2][1], g[1][1], g[0][1]], [g[2][2], g[1][2], g[0][2]]]
}

/// `g` with row `i` replaced by `row`.
pub open spec fn with_row(g: Grid, i: int, row: [Face; 3]) -> Grid {
    if i == 0 {
        [row, g[1], g[2]]
    } else if i == 1 {
        [g[0], row, g[2]]
    } else {
        [g[0], g[1], row]
    }
}

/// `row` with entry `j` replaced by `v`.
pub open spec fn with_entry(row: [Face; 3], j: int, v: Face) -> [Face; 3] {
    if j == 0 {
        [v, row[1], row[2]]
    } else if j == 1 {
        [row[0], v, row[2]]
    } else {
        [row[0], row[1], v]
    }
}

/// `g` with column `j` replaced, top to bottom, by `a`, `b`, `c`.
pub open spec fn with_column(g: Grid, j: int, a: Face, b: Face, c: Face) -> Grid {
    [with_entry(g[0], j, a), with_entry(g[1], j, b), with_entry(g[2], j, c)]
}

/// Two grids are equal when their nine stickers are.
pub proof fn lemma_grid_ext(a: Grid, b: Grid)
    requires
        a[0][0] == b[0][0], a[0][1] == b[0][1], a[0][2] == b[0][2],
        a[1][0] == b[1][0], a[1][1] == b[1][1], a[1][2] == b[1][2],
        a[2][0] == b[2][0], a[2][1] == b[2][1], a[2][2] == b[2][2],
    ensures
        a == b,
{
    assert(a[0] =~= b[0]);
    assert(a[1] =~= b[1]);
    assert(a[2] =~= b[2]);
    assert(a =~= b);
}

/// Four clockwise quarter turns of a grid restore it.
pub proof fn lemma_clockwise_four(g: Grid)
    ensures
        clockwise(clockwise(clockwise(clockwise(g)))) == g,
{
    lemma_grid_ext(clockwise(clockwise(clockwise(clockwise(g)))), g);
}

fn rotate_face_clockwise(face: &mut Grid)
    ensures
        *final(face) == clockwise(*old(face)),
{
    let g = *face;
    *face = [[g[2][0], g[1][0], g[0][0]], [g[2][1], g[1][1], g[0][1]], [g[2][2], g[1][2], g[0][2]]];
}

fn set_row(g: Grid, i: usize, row: [Face; 3]) -> (r: Grid)
    requires
        i < 3,
    ensures
        r == with_row(g, i as int, row),
{
    if i == 0 {
        [row, g[1], g[2]]
    } else if i == 1 {
        [g[0], row, g[2]]
    } else {
        [g[0], g[1], row]
    }
}

fn set_entry(row: [Face; 3], j: usize, v: Face) -> (r: [Face; 3])
    requires
        j < 3,
    ensures
        r == with_entry(row, j as int, v),
{
    if j == 0 {
        [v, row[1], row[2]]
    } else if j == 1 {
        [row[0], v, row[2]]
    } else {
        [row[0], row[1], v]
    }
}

fn set_column(g: Grid, j: usize, a: Face, b: Face, c: Face) -> (r: Grid)
    requires
        j < 3,
    ensures
        r == with_column(g, j as int, a, b, c),
{
    [set_entry(g[0], j, a), set_entry(g[1], j, b), set_entry(g[2], j, c)]
}


/// A cube: one 3x3 grid of stickers per face.
#[derive(Debug, Clone, Copy)]
pub struct RubiksCube {
    up: Grid,
    down: Grid,
    front: Grid,
    back: Grid,
    right: Grid,
    left: Grid,
}

impl RubiksCube {
    /// The stickers on face `f`.
    pub closed spec fn grid(self, f: Face) -> Grid {
        match f {
            Face::Up => self.up,
            Face::Down => self.down,
            Face::Front => self.front,
            Face::Back => self.back,
            Face::Right => self.right,
            Face::Left => self.left,
        }
    }

    /// The solved cube: every face shows its own colour.
    pub closed spec fn solved() -> RubiksCube {
        RubiksCube {
            up: uniform(Face::Up),
            down: uniform(Face::Down),
            front: uniform(Face::Front),
            back: uniform(Face::Back),
            right: uniform(Face::Right),
            left: uniform(Face::Left),
        }
    }

    /// One clockwise quarter turn of face `f`.
    pub closed spec fn quarter_turn(self, f: Face) -> RubiksCube {
        let c = self;
        match f {
            Face::Up => RubiksCube {
                up: clockwise(c.up),
                down: c.down,
                front: with_row(c.front, 0, c.right[0]),
                right: with_row(c.right, 0, c.back[0]),
                back: with_row(c.back, 0, c.left[0]),
                left: with_row(c.left, 0, c.front[0]),
            },
            Face::Down => RubiksCube {
                up: c.up,
                down: clockwise(c.down),
                front: with_row(c.front, 2, c.left[2]),
                left: with_row(c.left, 2, c.back[2]),
                back: with_row(c.back, 2, c.right[2]),
                right: with_row(c.right, 2, c.front[2]),
            },
            Face::Front => RubiksCube {
                front: clockwise(c.front),
                back: c.back,
                up: with_row(c.up, 2, [c.left[2][2], c.left[1][2], c.left[0][2]]),
                left: with_column(c.left, 2, c.down[0][0], c.down[0][1], c.down[0][2]),
                down: with_row(c.down, 0, [c.right[2][0], c.right[1][0], c.right[0][0]]),
                right: with_column(c.right, 0, c.up[2][0], c.up[2][1], c.up[2][2]),
            },
            Face::Back => RubiksCube {
                back: clockwise(c.back),
                front: c.front,
                up: with_row(c.up, 0, [c.right[0][2], c.right[1][2], c.right[2][2]]),
                right: with_column(c.right, 2, c.down[2][2], c.down[2][1], c.down[2][0]),
                down: with_row(c.down, 2, [c.left[2][0], c.left[1][0], c.left[0][0]]),
                left: with_column(c.left, 0, c.up[0][0], c.up[0][1], c.up[0][2]),
            },
            Face::Right => RubiksCube {
                right: clockwise(c.right),
                left: c.left,
                up: with_column(c.up, 2, c.front[0][2], c.front[1][2], c.front[2][2]),
                front: with_column(c.front, 2, c.down[0][2], c.down[1][2], c.down[2][2]),
                down: with_column(c.down, 2, c.back[2][0], c.back[1][0], c.back[0][0]),
                back: with_column(c.back, 0, c.up[2][2], c.up[1][2], c.up[0][2]),
            },
            Face::Left => RubiksCube {
                left: clockwise(c.left),
                right: c.right,
                up: with_column(c.up, 0, c.back[2][2], c.back[1][2], c.back[0][2]),
                back: with_column(c.back, 2, c.down[2][0], c.down[1][0], c.down[0][0]),
                down: with_column(c.down, 0, c.front[0][0], c.front[1][0], c.front[2][0]),
                front: with_column(c.front, 0, c.up[0][0], c.up[1][0], c.up[2][0]),
            },
        }
    }

    /// The solved cube shows each face's own colour on all nine stickers, and
    /// it is the only cube that does.
    pub proof fn lemma_solved_grids(c: RubiksCube)
        ensures
            forall|f: Face| #[trigger] RubiksCube::solved().grid(f) == uniform(f),
            (forall|f: Face| #[trigger] c.grid(f) == uniform(f)) <==> c == RubiksCube::solved(),
    {
        if forall|f: Face| #[trigger] c.grid(f) == uniform(f) {
            assert(c.grid(Face::Up) == uniform(Face::Up));
            assert(c.grid(Face::Down) == uniform(Face::Down));
            assert(c.grid(Face::Front) == uniform(Face::Front));
            assert(c.grid(Face::Back) == uniform(Face::Back));
            assert(c.grid(Face::Right) == uniform(Face::Right));
            assert(c.grid(Face::Left) == uniform(Face::Left));
            Self::lemma_ext(c, RubiksCube::solved());
        }
    }

    /// Two cubes with the same six grids are equal.
    pub proof fn lemma_ext(a: RubiksCube, b: RubiksCube)
        requires
            a.grid(Face::Up) == b.grid(Face::Up),
            a.grid(Face::Down) == b.grid(Face::Down),
            a.grid(Face::Front) == b.grid(Face::Front),
            a.grid(Face::Back) == b.grid(Face::Back),
            a.grid(Face::Right) == b.grid(Face::Right),
            a.grid(Face::Left) == b.grid(Face::Left),
        ensures
            a == b,
    {
    }

    /// Two cubes agreeing on all 54 stickers are equal.
    proof fn lemma_stickers_ext(a: RubiksCube, b: RubiksCube)
        requires
            a.up[0][0] == b.up[0][0], a.up[0][1] == b.up[0][1], a.up[0][2] == b.up[0][2], a.up[1][0] == b.up[1][0], a.up[1][1] == b.up[1][1], a.up[1][2] == b.up[1][2], a.up[2][0] == b.up[2][0], a.up[2][1] == b.up[2][1], a.up[2][2] == b.up[2][2],
            a.down[0][0] == b.down[0][0], a.down[0][1] == b.down[0][1], a.down[0][2] == b.down[0][2], a.down[1][0] == b.down[1][0], a.down[1][1] == b.down[1][1], a.down[1][2] == b.down[1][2], a.down[2][0] == b.down[2][0], a.down[2][1] == b.down[2][1], a.down[2][2] == b.down[2][2],
            a.front[0][0] == b.front[0][0], a.front[0][1] == b.front[0][1], a.front[0][2] == b.front[0][2], a.front[1][0] == b.front[1][0], a.front[1][1] == b.front[1][1], a.front[1][2] == b.front[1][2], a.front[2][0] == b.front[2][0], a.front[2][1] == b.front[2][1], a.front[2][2] == b.front[2][2],
            a.back[0][0] == b.back[0][0], a.back[0][1] == b.back[0][1], a.back[0][2] == b.back[0][2], a.back[1][0] == b.back[1][0], a.back[1][1] == b.back[1][1], a.back[1][2] == b.back[1][2], a.back[2][0] == b.back[2][0], a.back[2][1] == b.back[2][1], a.back[2][2] == b.back[2][2],
            a.right[0][0] == b.right[0][0], a.right[0][1] == b.right[0][1], a.right[0][2] == b.right[0][2], a.right[1][0] == b.right[1][0], a.right[1][1] == b.right[1][1], a.right[1][2] == b.right[1][2], a.right[2][0] == b.right[2][0], a.right[2][1] == b.right[2][1], a.right[2][2] == b.right[2][2],
            a.left[0][0] == b.left[0][0], a.left[0][1] == b.left[0][1], a.left[0][2] == b.left[0][2], a.left[1][0] == b.left[1][0], a.left[1][1] == b.left[1][1], a.left[1][2] == b.left[1][2], a.left[2][0] == b.left[2][0], a.left[2][1] == b.left[2][1], a.left[2][2] == b.left[2][2],
        ensures
            a == b,
    {
        lemma_grid_ext(a.up, b.up);
        lemma_grid_ext(a.down, b.down);
        lemma_grid_ext(a.front, b.front);
        lemma_grid_ext(a.back, b.back);
        lemma_grid_ext(a.right, b.right);
        lemma_grid_ext(a.left, b.left);
    }

    /// Four quarter turns of any face restore the cube.
    #[verifier::spinoff_prover]
    #[verifier::rlimit(40)]
    pub proof fn lemma_four_quarter_turns(c: RubiksCube, f: Face)
        ensures
            c.quarter_turn(f).quarter_turn(f).quarter_turn(f).quarter_turn(f) == c,
    {
        let d = c.quarter_turn(f).quarter_turn(f).quarter_turn(f).quarter_turn(f);
        match f {
            Face::Up => Self::lemma_stickers_ext(d, c),
            Face::Down => Self::lemma_stickers_ext(d, c),
            Face::Front => Self::lemma_stickers_ext(d, c),
            Face::Back => Self::lemma_stickers_ext(d, c),
            Face::Right => Self::lemma_stickers_ext(d, c),
            Face::Left => Self::lemma_stickers_ext(d, c),
        }
    }


    /// Quarter turns of opposite faces commute: they move disjoint stickers.
    pub proof fn lemma_opposite_quarter_turns_commute(c: RubiksCube, f: Face, g: Face)
        requires
            opposite_faces(f, g),
        ensures
            c.quarter_turn(f).quarter_turn(g) == c.quarter_turn(g).quarter_turn(f),
    {
        let a = c.quarter_turn(f).quarter_turn(g);
        let b = c.quarter_turn(g).quarter_turn(f);
        match f {
            Face::Up => Self::lemma_stickers_ext(a, b),
            Face::Down => Self::lemma_stickers_ext(a, b),
            Face::Front => Self::lemma_stickers_ext(a, b),
            Face::Back => Self::lemma_stickers_ext(a, b),
            Face::Right => Self::lemma_stickers_ext(a, b),
            Face::Left => Self::lemma_stickers_ext(a, b),
        }
    }
}


/// `n` clockwise quarter turns of face `f`.
pub open spec fn turns(c: RubiksCube, f: Face, n: nat) -> RubiksCube
    decreases n,
{
    if n == 0 {
        c
    } else {
        turns(c, f, (n - 1) as nat).quarter_turn(f)
    }
}

/// The cube after move `m`.
pub open spec fn apply(c: RubiksCube, m: Move) -> RubiksCube {
    turns(c, move_face(m), quarter_turns(m) as nat)
}

/// The cube after the moves of `ms`, first to last.
pub open spec fn apply_all(c: RubiksCube, ms: Seq<Move>) -> RubiksCube
    decreases ms.len(),
{
    if ms.len() == 0 {
        c
    } else {
        apply(apply_all(c, ms.drop_last()), ms.last())
    }
}

/// The moves that undo `ms`: the inverses of its moves, last to first.
pub open spec fn undo_moves(ms: Seq<Move>) -> Seq<Move>
    decreases ms.len(),
{
    if ms.len() == 0 {
        ms
    } else {
        seq![inverse_move(ms.last())] + undo_moves(ms.drop_last())
    }
}

/// Whether `c` is the solved cube.
pub open spec fn is_solved_cube(c: RubiksCube) -> bool {
    c == RubiksCube::solved()
}

/// Grid `g` of `c` after a clockwise quarter turn of face `f`, in terms of
/// the grids of `c`: the turned face rotates, its four neighbours pass the
/// adjoining row or column on, and the opposite face stays.
pub open spec fn turned_grid(c: RubiksCube, f: Face, g: Face) -> Grid {
    let up = c.grid(Face::Up);
    let down = c.grid(Face::Down);
    let front = c.grid(Face::Front);
    let back = c.grid(Face::Back);
    let right = c.grid(Face::Right);
    let left = c.grid(Face::Left);
    if g == f {
        clockwise(c.grid(f))
    } else {
        match f {
            Face::Up => match g {
                Face::Front => with_row(front, 0, right[0]),
                Face::Right => with_row(right, 0, back[0]),
                Face::Back => with_row(back, 0, left[0]),
                Face::Left => with_row(left, 0, front[0]),
                _ => c.grid(g),
            },
            Face::Down => match g {
                Face::Front => with_row(front, 2, left[2]),
                Face::Left => with_row(left, 2, back[2]),
                Face::Back => with_row(back, 2, right[2]),
                Face::Right => with_row(right, 2, front[2]),
                _ => c.grid(g),
            },
            Face::Front => match g {
                Face::Up => with_row(up, 2, [left[2][2], left[1][2], left[0][2]]),
                Face::Left => with_column(left, 2, down[0][0], down[0][1], down[0][2]),
                Face::Down => with_row(down, 0, [right[2][0], right[1][0], right[0][0]]),
                Face::Right => with_column(right, 0, up[2][0], up[2][1], up[2][2]),
                _ => c.grid(g),
            },
            Face::Back => match g {
                Face::Up => with_row(up, 0, [right[0][2], right[1][2], right[2][2]]),
                Face::Right => with_column(right, 2, down[2][2], down[2][1], down[2][0]),
                Face::Down => with_row(down, 2, [left[2][0], left[1][0], left[0][0]]),
                Face::Left => with_column(left, 0, up[0][0], up[0][1], up[0][2]),
                _ => c.grid(g),
            },
            Face::Right => match g {
                Face::Up => with_column(up, 2, front[0][2], front[1][2], front[2][2]),
                Face::Front => with_column(front, 2, down[0][2], down[1][2], down[2][2]),
                Face::Down => with_column(down, 2, back[2][0], back[1][0], back[0][0]),
                Face::Back => with_column(back, 0, up[2][2], up[1][2], up[0][2]),
                _ => c.grid(g),
            },
            Face::Left => match g {
                Face::Up => with_column(up, 0, back[2][2], back[1][2], back[0][2]),
                Face::Back => with_column(back, 2, down[2][0], down[1][0], down[0][0]),
                Face::Down => with_column(down, 0, front[0][0], front[1][0], front[2][0]),
                Face::Front => with_column(front, 0, up[0][0], up[1][0], up[2][0]),
                _ => c.grid(g),
            },
        }
    }
}

/// What a quarter turn does to each grid, as `turned_grid` states it.
pub proof fn lemma_quarter_turn_grid(c: RubiksCube, f: Face, g: Face)
    ensures
        c.quarter_turn(f).grid(g) == turned_grid(c, f, g),
{
}

/// Where a U quarter turn puts each sticker, as (face, row, column)
/// positions of the cube before the turn: the Up grid turns a quarter
/// clockwise and the adjoining rows or columns of the four neighbouring faces
/// pass one face on; every other sticker stays.
#[verifier::spinoff_prover]
pub proof fn lemma_u_turn_stickers(c: RubiksCube)
    ensures
        apply(c, Move::U).grid(Face::Up)[0][0] == c.grid(Face::Up)[2][0],
        apply(c, Move::U).grid(Face::Up)[0][1] == c.grid(Face::Up)[1][0],
        apply(c, Move::U).grid(Face::Up)[0][2] == c.grid(Face::Up)[0][0],
        apply(c, Move::U).grid(Face::Up)[1][0] == c.grid(Face::Up)[2][1],
        apply(c, Move::U).grid(Face::Up)[1][1] == c.grid(Face::Up)[1][1],
        apply(c, Move::U).grid(Face::Up)[1][2] == c.grid(Face::Up)[0][1],
        apply(c, Move::U).grid(Face::Up)[2][0] == c.grid(Face::Up)[2][2],
        apply(c, Move::U).grid(Face::Up)[2][1] == c.grid(Face::Up)[1][2],
        apply(c, Move::U).grid(Face::Up)[2][2] == c.grid(Face::Up)[0][2],
        apply(c, Move::U).grid(Face::Down)[0][0] == c.grid(Face::Down)[0][0],
        apply(c, Move::U).grid(Face::Down)[0][1] == c.grid(Face::Down)[0][1],
        apply(c, Move::U).grid(Face::Down)[0][2] == c.grid(Face::Down)[0][2],
        apply(c, Move::U).grid(Face::Down)[1][0] == c.grid(Face::Down)[1][0],
        apply(c, Move::U).grid(Face::Down)[1][1] == c.grid(Face::Down)[1][1],
        apply(c, Move::U).grid(Face::Down)[1][2] == c.grid(Face::Down)[1][2],
        apply(c, Move::U).grid(Face::Down)[2][0] == c.grid(Face::Down)[2][0],
        apply(c, Move::U).grid(Face::Down)[2][1] == c.grid(Face::Down)[2][1],
        apply(c, Move::U).grid(Face::Down)[2][2] == c.grid(Face::Down)[2][2],
        apply(c, Move::U).grid(Face::Front)[0][0] == c.grid(Face::Right)[0][0],
        apply(c, Move::U).grid(Face::Front)[0][1] == c.grid(Face::Right)[0][1],
        apply(c, Move::U).grid(Face::Front)[0][2] == c.grid(Face::Right)[0][2],
        apply(c, Move::U).grid(Face::Front)[1][0] == c.grid(Face::Front)[1][0],
        apply(c, Move::U).grid(Face::Front)[1][1] == c.grid(Face::Front)[1][1],
        apply(c, Move::U).grid(Face::Front)[1][2] == c.grid(Face::Front)[1][2],
        apply(c, Move::U).grid(Face::Front)[2][0] == c.grid(Face::Front)[2][0],
        apply(c, Move::U).grid(Face::Front)[2][1] == c.grid(Face::Front)[2][1],
        apply(c, Move::U).grid(Face::Front)[2][2] == c.grid(Face::Front)[2][2],
        apply(c, Move::U).grid(Face::Back)[0][0] == c.grid(Face::Left)[0][0],
        apply(c, Move::U).grid(Face::Back)[0][1] == c.grid(Face::Left)[0][1],
        apply(c, Move::U).grid(Face::Back)[0][2] == c.grid(Face::Left)[0][2],
        apply(c, Move::U).grid(Face::Back)[1][0] == c.grid(Face::Back)[1][0],
        apply(c, Move::U).grid(Face::Back)[1][1] == c.grid(Face::Back)[1][1],
        apply(c, Move::U).grid(Face::Back)[1][2] == c.grid(Face::Back)[1][2],
        apply(c, Move::U).grid(Face::Back)[2][0] == c.grid(Face::Back)[2][0],
        apply(c, Move::U).grid(Face::Back)[2][1] == c.grid(Face::Back)[2][1],
        apply(c, Move::U).grid(Face::Back)[2][2] == c.grid(Face::Back)[2][2],
        apply(c, Move::U).grid(Face::Right)[0][0] == c.grid(Face::Back)[0][0],
        apply(c, Move::U).grid(Face::Right)[0][1] == c.grid(Face::Back)[0][1],
        apply(c, Move::U).grid(Face::Right)[0][2] == c.grid(Face::Back)[0][2],
        apply(c, Move::U).grid(Face::Right)[1][0] == c.grid(Face::Right)[1][0],
        apply(c, Move::U).grid(Face::Right)[1][1] == c.grid(Face::Right)[1][1],
        apply(c, Move::U).grid(Face::Right)[1][2] == c.grid(Face::Right)[1][2],
        apply(c, Move::U).grid(Face::Right)[2][0] == c.grid(Face::Right)[2][0],
        apply(c, Move::U).grid(Face::Right)[2][1] == c.grid(Face::Right)[2][1],
        apply(c, Move::U).grid(Face::Right)[2][2] == c.grid(Face::Right)[2][2],
        apply(c, Move::U).grid(Face::Left)[0][0] == c.grid(Face::Front)[0][0],
        apply(c, Move::U).grid(Face::Left)[0][1] == c.grid(Face::Front)[0][1],
        apply(c, Move::U).grid(Face::Left)[0][2] == c.grid(Face::Front)[0][2],
        apply(c, Move::U).grid(Face::Left)[1][0] == c.grid(Face::Left)[1][0],
        apply(c, Move::U).grid(Face::Left)[1][1] == c.grid(Face::Left)[1][1],
        apply(c, Move::U).grid(Face::Left)[1][2] == c.grid(Face::Left)[1][2],
        apply(c, Move::U).grid(Face::Left)[2][0] == c.grid(Face::Left)[2][0],
        apply(c, Move::U).grid(Face::Left)[2][1] == c.grid(Face::Left)[2][1],
        apply(c, Move::U).grid(Face::Left)[2][2] == c.grid(Face::Left)[2][2],
{
    reveal_with_fuel(turns, 2);
    assert(apply(c, Move::U) == c.quarter_turn(Face::Up));
    lemma_quarter_turn_grid(c, Face::Up, Face::Up);
    lemma_quarter_turn_grid(c, Face::Up, Face::Down);
    lemma_quarter_turn_grid(c, Face::Up, Face::Front);
    lemma_quarter_turn_grid(c, Face::Up, Face::Back);
    lemma_quarter_turn_grid(c, Face::Up, Face::Right);
    lemma_quarter_turn_grid(c, Face::Up, Face::Left);
}

/// Where a D quarter turn puts each sticker, as (face, row, column)
/// positions of the cube before the turn: the Down grid turns a quarter
/// clockwise and the adjoining rows or columns of the four neighbouring faces
/// pass one face on; every other sticker stays.
#[verifier::spinoff_prover]
pub proof fn lemma_d_turn_stickers(c: RubiksCube)
    ensures
        apply(c, Move::D).grid(Face::Up)[0][0] == c.grid(Face::Up)[0][0],
        apply(c, Move::D).grid(Face::Up)[0][1] == c.grid(Face::Up)[0][1],
        apply(c, Move::D).grid(Face::Up)[0][2] == c.grid(Face::Up)[0][2],
        apply(c, Move::D).grid(Face::Up)[1][0] == c.grid(Face::Up)[1][0],
        apply(c, Move::D).grid(Face::Up)[1][1] == c.grid(Face::Up)[1][1],
        apply(c, Move::D).grid(Face::Up)[1][2] == c.grid(Face::Up)[1][2],
        apply(c, Move::D).grid(Face::Up)[2][0] == c.grid(Face::Up)[2][0],
        apply(c, Move::D).grid(Face::Up)[2][1] == c.grid(Face::Up)[2][1],
        apply(c, Move::D).grid(Face::Up)[2][2] == c.grid(Face::Up)[2][2],
        apply(c, Move::D).grid(Face::Down)[0][0] == c.grid(Face::Down)[2][0],
        apply(c, Move::D).grid(Face::Down)[0][1] == c.grid(Face::Down)[1][0],
        apply(c, Move::D).grid(Face::Down)[0][2] == c.grid(Face::Down)[0][0],
        apply(c, Move::D).grid(Face::Down)[1][0] == c.grid(Face::Down)[2][1],
        apply(c, Move::D).grid(Face::Down)[1][1] == c.grid(Face::Down)[1][1],
        apply(c, Move::D).grid(Face::Down)[1][2] == c.grid(Face::Down)[0][1],
        apply(c, Move::D).grid(Face::Down)[2][0] == c.grid(Face::Down)[2][2],
        apply(c, Move::D).grid(Face::Down)[2][1] == c.grid(Face::Down)[1][2],
        apply(c, Move::D).grid(Face::Down)[2][2] == c.grid(Face::Down)[0][2],
        apply(c, Move::D).grid(Face::Front)[0][0] == c.grid(Face::Front)[0][0],
        apply(c, Move::D).grid(Face::Front)[0][1] == c.grid(Face::Front)[0][1],
        apply(c, Move::D).grid(Face::Front)[0][2] == c.grid(Face::Front)[0][2],
        apply(c, Move::D).grid(Face::Front)[1][0] == c.grid(Face::Front)[1][0],
        apply(c, Move::D).grid(Face::Front)[1][1] == c.grid(Face::Front)[1][1],
        apply(c, Move::D).grid(Face::Front)[1][2] == c.grid(Face::Front)[1][2],
        apply(c, Move::D).grid(Face::Front)[2][0] == c.grid(Face::Left)[2][0],
        apply(c, Move::D).grid(Face::Front)[2][1] == c.grid(Face::Left)[2][1],
        apply(c, Move::D).grid(Face::Front)[2][2] == c.grid(Face::Left)[2][2],
        apply(c, Move::D).grid(Face::Back)[0][0] == c.grid(Face::Back)[0][0],
        apply(c, Move::D).grid(Face::Back)[0][1] == c.grid(Face::Back)[0][1],
        apply(c, Move::D).grid(Face::Back)[0][2] == c.grid(Face::Back)[0][2],
        apply(c, Move::D).grid(Face::Back)[1][0] == c.grid(Face::Back)[1][0],
        apply(c, Move::D).grid(Face::Back)[1][1] == c.grid(Face::Back)[1][1],
        apply(c, Move::D).grid(Face::Back)[1][2] == c.grid(Face::Back)[1][2],
        apply(c, Move::D).grid(Face::Back)[2][0] == c.grid(Face::Right)[2][0],
        apply(c, Move::D).grid(Face::Back)[2][1] == c.grid(Face::Right)[2][1],
        apply(c, Move::D).grid(Face::Back)[2][2] == c.grid(Face::Right)[2][2],
        apply(c, Move::D).grid(Face::Right)[0][0] == c.grid(Face::Right)[0][0],
        apply(c, Move::D).grid(Face::Right)[0][1] == c.grid(Face::Right)[0][1],
        apply(c, Move::D).grid(Face::Right)[0][2] == c.grid(Face::Right)[0][2],
        apply(c, Move::D).grid(Face::Right)[1][0] == c.grid(Face::Right)[1][0],
        apply(c, Move::D).grid(Face::Right)[1][1] == c.grid(Face::Right)[1][1],
        apply(c, Move::D).grid(Face::Right)[1][2] == c.grid(Face::Right)[1][2],
        apply(c, Move::D).grid(Face::Right)[2][0] == c.grid(Face::Front)[2][0],
        apply(c, Move::D).grid(Face::Right)[2][1] == c.grid(Face::Front)[2][1],
        apply(c, Move::D).grid(Face::Right)[2][2] == c.grid(Face::Front)[2][2],
        apply(c, Move::D).grid(Face::Left)[0][0] == c.grid(Face::Left)[0][0],
        apply(c, Move::D).grid(Face::Left)[0][1] == c.grid(Face::Left)[0][1],
        apply(c, Move::D).grid(Face::Left)[0][2] == c.grid(Face::Left)[0][2],
        apply(c, Move::D).grid(Face::Left)[1][0] == c.grid(Face::Left)[1][0],
        apply(c, Move::D).grid(Face::Left)[1][1] == c.grid(Face::Left)[1][1],
        apply(c, Move::D).grid(Face::Left)[1][2] == c.grid(Face::Left)[1][2],
        apply(c, Move::D).grid(Face::Left)[2][0] == c.grid(Face::Back)[2][0],
        apply(c, Move::D).grid(Face::Left)[2][1] == c.grid(Face::Back)[2][1],
        apply(c, Move::D).grid(Face::Left)[2][2] == c.grid(Face::Back)[2][2],
{
    reveal_with_fuel(turns, 2);
    assert(apply(c, Move::D) == c.quarter_turn(Face::Down));
    lemma_quarter_turn_grid(c, Face::Down, Face::Up);
    lemma_quarter_turn_grid(c, Face::Down, Face::Down);
    lemma_quarter_turn_grid(c, Face::Down, Face::Front);
    lemma_quarter_turn_grid(c, Face::Down, Face::Back);
    lemma_quarter_turn_grid(c, Face::Down, Face::Right);
    lemma_quarter_turn_grid(c, Face::Down, Face::Left);
}

/// Where a F quarter turn puts each sticker, as (face, row, column)
/// positions of the cube before the turn: the Front grid turns a quarter
/// clockwise and the adjoining rows or columns of the four neighbouring faces
/// pass one face on; every other sticker stays.
#[verifier::spinoff_prover]
pub proof fn lemma_f_turn_stickers(c: RubiksCube)
    ensures
        apply(c, Move::F).grid(Face::Up)[0][0] == c.grid(Face::Up)[0][0],
        apply(c, Move::F).grid(Face::Up)[0][1] == c.grid(Face::Up)[0][1],
        apply(c, Move::F).grid(Face::Up)[0][2] == c.grid(Face::Up)[0][2],
        apply(c, Move::F).grid(Face::Up)[1][0] == c.grid(Face::Up)[1][0],
        apply(c, Move::F).grid(Face::Up)[1][1] == c.grid(Face::Up)[1][1],
        apply(c, Move::F).grid(Face::Up)[1][2] == c.grid(Face::Up)[1][2],
        apply(c, Move::F).grid(Face::Up)[2][0] == c.grid(Face::Left)[2][2],
        apply(c, Move::F).grid(Face::Up)[2][1] == c.grid(Face::Left)[1][2],
        apply(c, Move::F).grid(Face::Up)[2][2] == c.grid(Face::Left)[0][2],
        apply(c, Move::F).grid(Face::Down)[0][0] == c.grid(Face::Right)[2][0],
        apply(c, Move::F).grid(Face::Down)[0][1] == c.grid(Face::Right)[1][0],
        apply(c, Move::F).grid(Face::Down)[0][2] == c.grid(Face::Right)[0][0],
        apply(c, Move::F).grid(Face::Down)[1][0] == c.grid(Face::Down)[1][0],
        apply(c, Move::F).grid(Face::Down)[1][1] == c.grid(Face::Down)[1][1],
        apply(c, Move::F).grid(Face::Down)[1][2] == c.grid(Face::Down)[1][2],
        apply(c, Move::F).grid(Face::Down)[2][0] == c.grid(Face::Down)[2][0],
        apply(c, Move::F).grid(Face::Down)[2][1] == c.grid(Face::Down)[2][1],
        apply(c, Move::F).grid(Face::Down)[2][2] == c.grid(Face::Down)[2][2],
        apply(c, Move::F).grid(Face::Front)[0][0] == c.grid(Face::Front)[2][0],
        apply(c, Move::F).grid(Face::Front)[0][1] == c.grid(Face::Front)[1][0],
        apply(c, Move::F).grid(Face::Front)[0][2] == c.grid(Face::Front)[0][0],
        apply(c, Move::F).grid(Face::Front)[1][0] == c.grid(Face::Front)[2][1],
        apply(c, Move::F).grid(Face::Front)[1][1] == c.grid(Face::Front)[1][1],
        apply(c, Move::F).grid(Face::Front)[1][2] == c.grid(Face::Front)[0][1],
        apply(c, Move::F).grid(Face::Front)[2][0] == c.grid(Face::Front)[2][2],
        apply(c, Move::F).grid(Face::Front)[2][1] == c.grid(Face::Front)[1][2],
        apply(c, Move::F).grid(Face::Front)[2][2] == c.grid(Face::Front)[0][2],
        apply(c, Move::F).grid(Face::Back)[0][0] == c.grid(Face::Back)[0][0],
        apply(c, Move::F).grid(Face::Back)[0][1] == c.grid(Face::Back)[0][1],
        apply(c, Move::F).grid(Face::Back)[0][2] == c.grid(Face::Back)[0][2],
        apply(c, Move::F).grid(Face::Back)[1][0] == c.grid(Face::Back)[1][0],
        apply(c, Move::F).grid(Face::Back)[1][1] == c.grid(Face::Back)[1][1],
        apply(c, Move::F).grid(Face::Back)[1][2] == c.grid(Face::Back)[1][2],
        apply(c, Move::F).grid(Face::Back)[2][0] == c.grid(Face::Back)[2][0],
        apply(c, Move::F).grid(Face::Back)[2][1] == c.grid(Face::Back)[2][1],
        apply(c, Move::F).grid(Face::Back)[2][2] == c.grid(Face::Back)[2][2],
        apply(c, Move::F).grid(Face::Right)[0][0] == c.grid(Face::Up)[2][0],
        apply(c, Move::F).grid(Face::Right)[0][1] == c.grid(Face::Right)[0][1],
        apply(c, Move::F).grid(Face::Right)[0][2] == c.grid(Face::Right)[0][2],
        apply(c, Move::F).grid(Face::Right)[1][0] == c.grid(Face::Up)[2][1],
        apply(c, Move::F).grid(Face::Right)[1][1] == c.grid(Face::Right)[1][1],
        apply(c, Move::F).grid(Face::Right)[1][2] == c.grid(Face::Right)[1][2],
        apply(c, Move::F).grid(Face::Right)[2][0] == c.grid(Face::Up)[2][2],
        apply(c, Move::F).grid(Face::Right)[2][1] == c.grid(Face::Right)[2][1],
        apply(c, Move::F).grid(Face::Right)[2][2] == c.grid(Face::Right)[2][2],
        apply(c, Move::F).grid(Face::Left)[0][0] == c.grid(Face::Left)[0][0],
        apply(c, Move::F).grid(Face::Left)[0][1] == c.grid(Face::Left)[0][1],
        apply(c, Move::F).grid(Face::Left)[0][2] == c.grid(Face::Down)[0][0],
        apply(c, Move::F).grid(Face::Left)[1][0] == c.grid(Face::Left)[1][0],
        apply(c, Move::F).grid(Face::Left)[1][1] == c.grid(Face::Left)[1][1],
        apply(c, Move::F).grid(Face::Left)[1][2] == c.grid(Face::Down)[0][1],
        apply(c, Move::F).grid(Face::Left)[2][0] == c.grid(Face::Left)[2][0],
        apply(c, Move::F).grid(Face::Left)[2][1] == c.grid(Face::Left)[2][1],
        apply(c, Move::F).grid(Face::Left)[2][2] == c.grid(Face::Down)[0][2],
{
    reveal_with_fuel(turns, 2);
    assert(apply(c, Move::F) == c.quarter_turn(Face::Front));
    lemma_quarter_turn_grid(c, Face::Front, Face::Up);
    lemma_quarter_turn_grid(c, Face::Front, Face::Down);
    lemma_quarter_turn_grid(c, Face::Front, Face::Front);
    lemma_quarter_turn_grid(c, Face::Front, Face::Back);
    lemma_quarter_turn_grid(c, Face::Front, Face::Right);
    lemma_quarter_turn_grid(c, Face::Front, Face::Left);
}

/// Where a B quarter turn puts each sticker, as (face, row, column)
/// positions of the cube before the turn: the Back grid turns a quarter
/// clockwise and the adjoining rows or columns of the four neighbouring faces
/// pass one face on; every other sticker stays.
#[verifier::spinoff_prover]
pub proof fn lemma_b_turn_stickers(c: RubiksCube)
    ensures
        apply(c, Move::B).grid(Face::Up)[0][0] == c.grid(Face::Right)[0][2],
        apply(c, Move::B).grid(Face::Up)[0][1] == c.grid(Face::Right)[1][2],
        apply(c, Move::B).grid(Face::Up)[0][2] == c.grid(Face::Right)[2][2],
        apply(c, Move::B).grid(Face::Up)[1][0] == c.grid(Face::Up)[1][0],
        apply(c, Move::B).grid(Face::Up)[1][1] == c.grid(Face::Up)[1][1],
        apply(c, Move::B).grid(Face::Up)[1][2] == c.grid(Face::Up)[1][2],
        apply(c, Move::B).grid(Face::Up)[2][0] == c.grid(Face::Up)[2][0],
        apply(c, Move::B).grid(Face::Up)[2][1] == c.grid(Face::Up)[2][1],
        apply(c, Move::B).grid(Face::Up)[2][2] == c.grid(Face::Up)[2][2],
        apply(c, Move::B).grid(Face::Down)[0][0] == c.grid(Face::Down)[0][0],
        apply(c, Move::B).grid(Face::Down)[0][1] == c.grid(Face::Down)[0][1],
        apply(c, Move::B).grid(Face::Down)[0][2] == c.grid(Face::Down)[0][2],
        apply(c, Move::B).grid(Face::Down)[1][0] == c.grid(Face::Down)[1][0],
        apply(c, Move::B).grid(Face::Down)[1][1] == c.grid(Face::Down)[1][1],
        apply(c, Move::B).grid(Face::Down)[1][2] == c.grid(Face::Down)[1][2],
        apply(c, Move::B).grid(Face::Down)[2][0] == c.grid(Face::Left)[2][0],
        apply(c, Move::B).grid(Face::Down)[2][1] == c.grid(Face::Left)[1][0],
        apply(c, Move::B).grid(Face::Down)[2][2] == c.grid(Face::Left)[0][0],
        apply(c, Move::B).grid(Face::Front)[0][0] == c.grid(Face::Front)[0][0],
        apply(c, Move::B).grid(Face::Front)[0][1] == c.grid(Face::Front)[0][1],
        apply(c, Move::B).grid(Face::Front)[0][2] == c.grid(Face::Front)[0][2],
        apply(c, Move::B).grid(Face::Front)[1][0] == c.grid(Face::Front)[1][0],
        apply(c, Move::B).grid(Face::Front)[1][1] == c.grid(Face::Front)[1][1],
        apply(c, Move::B).grid(Face::Front)[1][2] == c.grid(Face::Front)[1][2],
        apply(c, Move::B).grid(Face::Front)[2][0] == c.grid(Face::Front)[2][0],
        apply(c, Move::B).grid(Face::Front)[2][1] == c.grid(Face::Front)[2][1],
        apply(c, Move::B).grid(Face::Front)[2][2] == c.grid(Face::Front)[2][2],
        apply(c, Move::B).grid(Face::Back)[0][0] == c.grid(Face::Back)[2][0],
        apply(c, Move::B).grid(Face::Back)[0][1] == c.grid(Face::Back)[1][0],
        apply(c, Move::B).grid(Face::Back)[0][2] == c.grid(Face::Back)[0][0],
        apply(c, Move::B).grid(Face::Back)[1][0] == c.grid(Face::Back)[2][1],
        apply(c, Move::B).grid(Face::Back)[1][1] == c.grid(Face::Back)[1][1],
        apply(c, Move::B).grid(Face::Back)[1][2] == c.grid(Face::Back)[0][1],
        apply(c, Move::B).grid(Face::Back)[2][0] == c.grid(Face::Back)[2][2],
        apply(c, Move::B).grid(Face::Back)[2][1] == c.grid(Face::Back)[1][2],
        apply(c, Move::B).grid(Face::Back)[2][2] == c.grid(Face::Back)[0][2],
        apply(c, Move::B).grid(Face::Right)[0][0] == c.grid(Face::Right)[0][0],
        apply(c, Move::B).grid(Face::Right)[0][1] == c.grid(Face::Right)[0][1],
        apply(c, Move::B).grid(Face::Right)[0][2] == c.grid(Face::Down)[2][2],
        apply(c, Move::B).grid(Face::Right)[1][0] == c.grid(Face::Right)[1][0],
        apply(c, Move::B).grid(Face::Right)[1][1] == c.grid(Face::Right)[1][1],
        apply(c, Move::B).grid(Face::Right)[1][2] == c.grid(Face::Down)[2][1],
        apply(c, Move::B).grid(Face::Right)[2][0] == c.grid(Face::Right)[2][0],
        apply(c, Move::B).grid(Face::Right)[2][1] == c.grid(Face::Right)[2][1],
        apply(c, Move::B).grid(Face::Right)[2][2] == c.grid(Face::Down)[2][0],
        apply(c, Move::B).grid(Face::Left)[0][0] == c.grid(Face::Up)[0][0],
        apply(c, Move::B).grid(Face::Left)[0][1] == c.grid(Face::Left)[0][1],
        apply(c, Move::B).grid(Face::Left)[0][2] == c.grid(Face::Left)[0][2],
        apply(c, Move::B).grid(Face::Left)[1][0] == c.grid(Face::Up)[0][1],
        apply(c, Move::B).grid(Face::Left)[1][1] == c.grid(Face::Left)[1][1],
        apply(c, Move::B).grid(Face::Left)[1][2] == c.grid(Face::Left)[1][2],
        apply(c, Move::B).grid(Face::Left)[2][0] == c.grid(Face::Up)[0][2],
        apply(c, Move::B).grid(Face::Left)[2][1] == c.grid(Face::Left)[2][1],
        apply(c, Move::B).grid(Face::Left)[2][2] == c.grid(Face::Left)[2][2],
{
    reveal_with_fuel(turns, 2);
    assert(apply(c, Move::B) == c.quarter_turn(Face::Back));
    lemma_quarter_turn_grid(c, Face::Back, Face::Up);
    lemma_quarter_turn_grid(c, Face::Back, Face::Down);
    lemma_quarter_turn_grid(c, Face::Back, Face::Front);
    lemma_quarter_turn_grid(c, Face::Back, Face::Back);
    lemma_quarter_turn_grid(c, Face::Back, Face::Right);
    lemma_quarter_turn_grid(c, Face::Back, Face::Left);
}

/// Where a R quarter turn puts each sticker, as (face, row, column)
/// positions of the cube before the turn: the Right grid turns a quarter
/// clockwise and the adjoining rows or columns of the four neighbouring faces
/// pass one face on; every other sticker stays.
#[verifier::spinoff_prover]
pub proof fn lemma_r_turn_stickers(c: RubiksCube)
    ensures
        apply(c, Move::R).grid(Face::Up)[0][0] == c.grid(Face::Up)[0][0],
        apply(c, Move::R).grid(Face::Up)[0][1] == c.grid(Face::Up)[0][1],
        apply(c, Move::R).grid(Face::Up)[0][2] == c.grid(Face::Front)[0][2],
        apply(c, Move::R).grid(Face::Up)[1][0] == c.grid(Face::Up)[1][0],
        apply(c, Move::R).grid(Face::Up)[1][1] == c.grid(Face::Up)[1][1],
        apply(c, Move::R).grid(Face::Up)[1][2] == c.grid(Face::Front)[1][2],
        apply(c, Move::R).grid(Face::Up)[2][0] == c.grid(Face::Up)[2][0],
        apply(c, Move::R).grid(Face::Up)[2][1] == c.grid(Face::Up)[2][1],
        apply(c, Move::R).grid(Face::Up)[2][2] == c.grid(Face::Front)[2][2],
        apply(c, Move::R).grid(Face::Down)[0][0] == c.grid(Face::Down)[0][0],
        apply(c, Move::R).grid(Face::Down)[0][1] == c.grid(Face::Down)[0][1],
        apply(c, Move::R).grid(Face::Down)[0][2] == c.grid(Face::Back)[2][0],
        apply(c, Move::R).grid(Face::Down)[1][0] == c.grid(Face::Down)[1][0],
        apply(c, Move::R).grid(Face::Down)[1][1] == c.grid(Face::Down)[1][1],
        apply(c, Move::R).grid(Face::Down)[1][2] == c.grid(Face::Back)[1][0],
        apply(c, Move::R).grid(Face::Down)[2][0] == c.grid(Face::Down)[2][0],
        apply(c, Move::R).grid(Face::Down)[2][1] == c.grid(Face::Down)[2][1],
        apply(c, Move::R).grid(Face::Down)[2][2] == c.grid(Face::Back)[0][0],
        apply(c, Move::R).grid(Face::Front)[0][0] == c.grid(Face::Front)[0][0],
        apply(c, Move::R).grid(Face::Front)[0][1] == c.grid(Face::Front)[0][1],
        apply(c, Move::R).grid(Face::Front)[0][2] == c.grid(Face::Down)[0][2],
        apply(c, Move::R).grid(Face::Front)[1][0] == c.grid(Face::Front)[1][0],
        apply(c, Move::R).grid(Face::Front)[1][1] == c.grid(Face::Front)[1][1],
        apply(c, Move::R).grid(Face::Front)[1][2] == c.grid(Face::Down)[1][2],
        apply(c, Move::R).grid(Face::Front)[2][0] == c.grid(Face::Front)[2][0],
        apply(c, Move::R).grid(Face::Front)[2][1] == c.grid(Face::Front)[2][1],
        apply(c, Move::R).grid(Face::Front)[2][2] == c.grid(Face::Down)[2][2],
        apply(c, Move::R).grid(Face::Back)[0][0] == c.grid(Face::Up)[2][2],
        apply(c, Move::R).grid(Face::Back)[0][1] == c.grid(Face::Back)[0][1],
        apply(c, Move::R).grid(Face::Back)[0][2] == c.grid(Face::Back)[0][2],
        apply(c, Move::R).grid(Face::Back)[1][0] == c.grid(Face::Up)[1][2],
        apply(c, Move::R).grid(Face::Back)[1][1] == c.grid(Face::Back)[1][1],
        apply(c, Move::R).grid(Face::Back)[1][2] == c.grid(Face::Back)[1][2],
        apply(c, Move::R).grid(Face::Back)[2][0] == c.grid(Face::Up)[0][2],
        apply(c, Move::R).grid(Face::Back)[2][1] == c.grid(Face::Back)[2][1],
        apply(c, Move::R).grid(Face::Back)[2][2] == c.grid(Face::Back)[2][2],
        apply(c, Move::R).grid(Face::Right)[0][0] == c.grid(Face::Right)[2][0],
        apply(c, Move::R).grid(Face::Right)[0][1] == c.grid(Face::Right)[1][0],
        apply(c, Move::R).grid(Face::Right)[0][2] == c.grid(Face::Right)[0][0],
        apply(c, Move::R).grid(Face::Right)[1][0] == c.grid(Face::Right)[2][1],
        apply(c, Move::R).grid(Face::Right)[1][1] == c.grid(Face::Right)[1][1],
        apply(c, Move::R).grid(Face::Right)[1][2] == c.grid(Face::Right)[0][1],
        apply(c, Move::R).grid(Face::Right)[2][0] == c.grid(Face::Right)[2][2],
        apply(c, Move::R).grid(Face::Right)[2][1] == c.grid(Face::Right)[1][2],
        apply(c, Move::R).grid(Face::Right)[2][2] == c.grid(Face::Right)[0][2],
        apply(c, Move::R).grid(Face::Left)[0][0] == c.grid(Face::Left)[0][0],
        apply(c, Move::R).grid(Face::Left)[0][1] == c.grid(Face::Left)[0][1],
        apply(c, Move::R).grid(Face::Left)[0][2] == c.grid(Face::Left)[0][2],
        apply(c, Move::R).grid(Face::Left)[1][0] == c.grid(Face::Left)[1][0],
        apply(c, Move::R).grid(Face::Left)[1][1] == c.grid(Face::Left)[1][1],
        apply(c, Move::R).grid(Face::Left)[1][2] == c.grid(Face::Left)[1][2],
        apply(c, Move::R).grid(Face::Left)[2][0] == c.grid(Face::Left)[2][0],
        apply(c, Move::R).grid(Face::Left)[2][1] == c.grid(Face::Left)[2][1],
        apply(c, Move::R).grid(Face::Left)[2][2] == c.grid(Face::Left)[2][2],
{
    reveal_with_fuel(turns, 2);
    assert(apply(c, Move::R) == c.quarter_turn(Face::Right));
    lemma_quarter_turn_grid(c, Face::Right, Face::Up);
    lemma_quarter_turn_grid(c, Face::Right, Face::Down);
    lemma_quarter_turn_grid(c, Face::Right, Face::Front);
    lemma_quarter_turn_grid(c, Face::Right, Face::Back);
    lemma_quarter_turn_grid(c, Face::Right, Face::Right);
    lemma_quarter_turn_grid(c, Face::Right, Face::Left);
}

/// Where a L quarter turn puts each sticker, as (face, row, column)
/// positions of the cube before the turn: the Left grid turns a quarter
/// clockwise and the adjoining rows or columns of the four neighbouring faces
/// pass one face on; every other sticker stays.
#[verifier::spinoff_prover]
pub proof fn lemma_l_turn_stickers(c: RubiksCube)
    ensures
        apply(c, Move::L).grid(Face::Up)[0][0] == c.grid(Face::Back)[2][2],
        apply(c, Move::L).grid(Face::Up)[0][1] == c.grid(Face::Up)[0][1],
        apply(c, Move::L).grid(Face::Up)[0][2] == c.grid(Face::Up)[0][2],
        apply(c, Move::L).grid(Face::Up)[1][0] == c.grid(Face::Back)[1][2],
        apply(c, Move::L).grid(Face::Up)[1][1] == c.grid(Face::Up)[1][1],
        apply(c, Move::L).grid(Face::Up)[1][2] == c.grid(Face::Up)[1][2],
        apply(c, Move::L).grid(Face::Up)[2][0] == c.grid(Face::Back)[0][2],
        apply(c, Move::L).grid(Face::Up)[2][1] == c.grid(Face::Up)[2][1],
        apply(c, Move::L).grid(Face::Up)[2][2] == c.grid(Face::Up)[2][2],
        apply(c, Move::L).grid(Face::Down)[0][0] == c.grid(Face::Front)[0][0],
        apply(c, Move::L).grid(Face::Down)[0][1] == c.grid(Face::Down)[0][1],
        apply(c, Move::L).grid(Face::Down)[0][2] == c.grid(Face::Down)[0][2],
        apply(c, Move::L).grid(Face::Down)[1][0] == c.grid(Face::Front)[1][0],
        apply(c, Move::L).grid(Face::Down)[1][1] == c.grid(Face::Down)[1][1],
        apply(c, Move::L).grid(Face::Down)[1][2] == c.grid(Face::Down)[1][2],
        apply(c, Move::L).grid(Face::Down)[2][0] == c.grid(Face::Front)[2][0],
        apply(c, Move::L).grid(Face::Down)[2][1] == c.grid(Face::Down)[2][1],
        apply(c, Move::L).grid(Face::Down)[2][2] == c.grid(Face::Down)[2][2],
        apply(c, Move::L).grid(Face::Front)[0][0] == c.grid(Face::Up)[0][0],
        apply(c, Move::L).grid(Face::Front)[0][1] == c.grid(Face::Front)[0][1],
        apply(c, Move::L).grid(Face::Front)[0][2] == c.grid(Face::Front)[0][2],
        apply(c, Move::L).grid(Face::Front)[1][0] == c.grid(Face::Up)[1][0],
        apply(c, Move::L).grid(Face::Front)[1][1] == c.grid(Face::Front)[1][1],
        apply(c, Move::L).grid(Face::Front)[1][2] == c.grid(Face::Front)[1][2],
        apply(c, Move::L).grid(Face::Front)[2][0] == c.grid(Face::Up)[2][0],
        apply(c, Move::L).grid(Face::Front)[2][1] == c.grid(Face::Front)[2][1],
        apply(c, Move::L).grid(Face::Front)[2][2] == c.grid(Face::Front)[2][2],
        apply(c, Move::L).grid(Face::Back)[0][0] == c.grid(Face::Back)[0][0],
        apply(c, Move::L).grid(Face::Back)[0][1] == c.grid(Face::Back)[0][1],
        apply(c, Move::L).grid(Face::Back)[0][2] == c.grid(Face::Down)[2][0],
        apply(c, Move::L).grid(Face::Back)[1][0] == c.grid(Face::Back)[1][0],
        apply(c, Move::L).grid(Face::Back)[1][1] == c.grid(Face::Back)[1][1],
        apply(c, Move::L).grid(Face::Back)[1][2] == c.grid(Face::Down)[1][0],
        apply(c, Move::L).grid(Face::Back)[2][0] == c.grid(Face::Back)[2][0],
        apply(c, Move::L).grid(Face::Back)[2][1] == c.grid(Face::Back)[2][1],
        apply(c, Move::L).grid(Face::Back)[2][2] == c.grid(Face::Down)[0][0],
        apply(c, Move::L).grid(Face::Right)[0][0] == c.grid(Face::Right)[0][0],
        apply(c, Move::L).grid(Face::Right)[0][1] == c.grid(Face::Right)[0][1],
        apply(c, Move::L).grid(Face::Right)[0][2] == c.grid(Face::Right)[0][2],
        apply(c, Move::L).grid(Face::Right)[1][0] == c.grid(Face::Right)[1][0],
        apply(c, Move::L).grid(Face::Right)[1][1] == c.grid(Face::Right)[1][1],
        apply(c, Move::L).grid(Face::Right)[1][2] == c.grid(Face::Right)[1][2],
        apply(c, Move::L).grid(Face::Right)[2][0] == c.grid(Face::Right)[2][0],
        apply(c, Move::L).grid(Face::Right)[2][1] == c.grid(Face::Right)[2][1],
        apply(c, Move::L).grid(Face::Right)[2][2] == c.grid(Face::Right)[2][2],
        apply(c, Move::L).grid(Face::Left)[0][0] == c.grid(Face::Left)[2][0],
        apply(c, Move::L).grid(Face::Left)[0][1] == c.grid(Face::Left)[1][0],
        apply(c, Move::L).grid(Face::Left)[0][2] == c.grid(Face::Left)[0][0],
        apply(c, Move::L).grid(Face::Left)[1][0] == c.grid(Face::Left)[2][1],
        apply(c, Move::L).grid(Face::Left)[1][1] == c.grid(Face::Left)[1][1],
        apply(c, Move::L).grid(Face::Left)[1][2] == c.grid(Face::Left)[0][1],
        apply(c, Move::L).grid(Face::Left)[2][0] == c.grid(Face::Left)[2][2],
        apply(c, Move::L).grid(Face::Left)[2][1] == c.grid(Face::Left)[1][2],
        apply(c, Move::L).grid(Face::Left)[2][2] == c.grid(Face::Left)[0][2],
{
    reveal_with_fuel(turns, 2);
    assert(apply(c, Move::L) == c.quarter_turn(Face::Left));
    lemma_quarter_turn_grid(c, Face::Left, Face::Up);
    lemma_quarter_turn_grid(c, Face::Left, Face::Down);
    lemma_quarter_turn_grid(c, Face::Left, Face::Front);
    lemma_quarter_turn_grid(c, Face::Left, Face::Back);
    lemma_quarter_turn_grid(c, Face::Left, Face::Right);
    lemma_quarter_turn_grid(c, Face::Left, Face::Left);
}

/// A half turn is two quarter turns of the same face, and a counter-clockwise
/// turn is three.
pub proof fn lemma_half_and_prime_turns(c: RubiksCube)
    ensures
        apply(c, Move::U2) == apply(apply(c, Move::U), Move::U),
        apply(c, Move::UPrime) == apply(apply(apply(c, Move::U), Move::U), Move::U),
        apply(c, Move::D2) == apply(apply(c, Move::D), Move::D),
        apply(c, Move::DPrime) == apply(apply(apply(c, Move::D), Move::D), Move::D),
        apply(c, Move::F2) == apply(apply(c, Move::F), Move::F),
        apply(c, Move::FPrime) == apply(apply(apply(c, Move::F), Move::F), Move::F),
        apply(c, Move::B2) == apply(apply(c, Move::B), Move::B),
        apply(c, Move::BPrime) == apply(apply(apply(c, Move::B), Move::B), Move::B),
        apply(c, Move::R2) == apply(apply(c, Move::R), Move::R),
        apply(c, Move::RPrime) == apply(apply(apply(c, Move::R), Move::R), Move::R),
        apply(c, Move::L2) == apply(apply(c, Move::L), Move::L),
        apply(c, Move::LPrime) == apply(apply(apply(c, Move::L), Move::L), Move::L),
{
    reveal_with_fuel(turns, 4);
}

/// A quarter turn leaves the face opposite the turned one unchanged, and
/// the centre sticker of every face in place.
pub proof fn lemma_quarter_turn_fixes(c: RubiksCube, f: Face, g: Face)
    ensures
        opposite_faces(f, g) ==> c.quarter_turn(f).grid(g) == c.grid(g),
        c.quarter_turn(f).grid(g)[1][1] == c.grid(g)[1][1],
{
}

/// Any number of turns of a face leaves the opposite face unchanged and
/// every centre sticker in place.
pub proof fn lemma_turns_fix(c: RubiksCube, f: Face, n: nat, g: Face)
    ensures
        opposite_faces(f, g) ==> turns(c, f, n).grid(g) == c.grid(g),
        turns(c, f, n).grid(g)[1][1] == c.grid(g)[1][1],
    decreases n,
{
    if n > 0 {
        lemma_turns_fix(c, f, (n - 1) as nat, g);
        lemma_quarter_turn_fixes(turns(c, f, (n - 1) as nat), f, g);
    }
}

/// A move leaves the face opposite its own unchanged, and every centre
/// sticker in place.
pub proof fn lemma_move_fixes(c: RubiksCube, m: Move, g: Face)
    ensures
        opposite_faces(move_face(m), g) ==> apply(c, m).grid(g) == c.grid(g),
        apply(c, m).grid(g)[1][1] == c.grid(g)[1][1],
{
    lemma_turns_fix(c, move_face(m), quarter_turns(m) as nat, g);
}

/// Every cube reached from the solved cube keeps each face's centre sticker
/// in that face's colour.
pub proof fn lemma_reachable_centres(ms: Seq<Move>, g: Face)
    ensures
        apply_all(RubiksCube::solved(), ms).grid(g)[1][1] == g,
    decreases ms.len(),
{
    if ms.len() == 0 {
        RubiksCube::lemma_solved_grids(RubiksCube::solved());
    } else {
        lemma_reachable_centres(ms.drop_last(), g);
        lemma_move_fixes(apply_all(RubiksCube::solved(), ms.drop_last()), ms.last(), g);
    }
}

/// 1 when sticker `s` shows colour `col`, else 0.
pub open spec fn shows(s: Face, col: Face) -> int {
    if s == col {
        1
    } else {
        0
    }
}

/// Number of stickers of colour `col` in a row.
pub open spec fn row_count(r: [Face; 3], col: Face) -> int {
    shows(r[0], col) + shows(r[1], col) + shows(r[2], col)
}

/// Number of stickers of colour `col` in a grid.
pub open spec fn grid_count(g: Grid, col: Face) -> int {
    row_count(g[0], col) + row_count(g[1], col) + row_count(g[2], col)
}

/// Number of stickers of colour `col` on the whole cube.
pub open spec fn color_count(c: RubiksCube, col: Face) -> int {
    grid_count(c.grid(Face::Up), col) + grid_count(c.grid(Face::Down), col) + grid_count(
        c.grid(Face::Front),
        col,
    ) + grid_count(c.grid(Face::Back), col) + grid_count(c.grid(Face::Right), col) + grid_count(
        c.grid(Face::Left),
        col,
    )
}

proof fn lemma_count_clockwise(g: Grid, col: Face)
    ensures
        grid_count(clockwise(g), col) == grid_count(g, col),
{
    let h = clockwise(g);
    assert(row_count(h[0], col) == shows(g[2][0], col) + shows(g[1][0], col) + shows(g[0][0], col));
    assert(row_count(h[1], col) == shows(g[2][1], col) + shows(g[1][1], col) + shows(g[0][1], col));
    assert(row_count(h[2], col) == shows(g[2][2], col) + shows(g[1][2], col) + shows(g[0][2], col));
}

proof fn lemma_count_row(g: Grid, col: Face, i: int, r: [Face; 3])
    requires
        0 <= i < 3,
    ensures
        grid_count(with_row(g, i, r), col) == grid_count(g, col) - row_count(g[i], col)
            + row_count(r, col),
{
    let h = with_row(g, i, r);
    if i == 0 {
        assert(h[0] == r && h[1] == g[1] && h[2] == g[2]);
    } else if i == 1 {
        assert(h[0] == g[0] && h[1] == r && h[2] == g[2]);
    } else {
        assert(h[0] == g[0] && h[1] == g[1] && h[2] == r);
    }
}

proof fn lemma_count_column(g: Grid, col: Face, j: int, a: Face, b: Face, d: Face)
    requires
        0 <= j < 3,
    ensures
        grid_count(with_column(g, j, a, b, d), col) == grid_count(g, col) - shows(g[0][j], col)
            - shows(g[1][j], col) - shows(g[2][j], col) + shows(a, col) + shows(b, col) + shows(
            d,
            col,
        ),
{
    let h = with_column(g, j, a, b, d);
    assert(row_count(h[0], col) == row_count(g[0], col) - shows(g[0][j], col) + shows(a, col))
        by {
        lemma_count_entry(g[0], col, j, a);
    }
    assert(row_count(h[1], col) == row_count(g[1], col) - shows(g[1][j], col) + shows(b, col))
        by {
        lemma_count_entry(g[1], col, j, b);
    }
    assert(row_count(h[2], col) == row_count(g[2], col) - shows(g[2][j], col) + shows(d, col))
        by {
        lemma_count_entry(g[2], col, j, d);
    }
}

proof fn lemma_count_entry(r: [Face; 3], col: Face, j: int, a: Face)
    requires
        0 <= j < 3,
    ensures
        row_count(with_entry(r, j, a), col) == row_count(r, col) - shows(r[j], col) + shows(a, col),
{
    let h = with_entry(r, j, a);
    if j == 0 {
        assert(h[0] == a && h[1] == r[1] && h[2] == r[2]);
    } else if j == 1 {
        assert(h[0] == r[0] && h[1] == a && h[2] == r[2]);
    } else {
        assert(h[0] == r[0] && h[1] == r[1] && h[2] == a);
    }
}

/// Sum of the counts of colour `col` over the grids `turned_grid(c, f, _)`.
pub open spec fn turned_count(c: RubiksCube, f: Face, col: Face) -> int {
    grid_count(turned_grid(c, f, Face::Up), col) + grid_count(turned_grid(c, f, Face::Down), col)
        + grid_count(turned_grid(c, f, Face::Front), col) + grid_count(
        turned_grid(c, f, Face::Back),
        col,
    ) + grid_count(turned_grid(c, f, Face::Right), col) + grid_count(
        turned_grid(c, f, Face::Left),
        col,
    )
}

#[verifier::spinoff_prover]
#[verifier::rlimit(60)]
proof fn lemma_turned_count_up(c: RubiksCube, col: Face)
    ensures
        turned_count(c, Face::Up, col) == color_count(c, col),
{
    let up = c.grid(Face::Up);
    let down = c.grid(Face::Down);
    let front = c.grid(Face::Front);
    let back = c.grid(Face::Back);
    let right = c.grid(Face::Right);
    let left = c.grid(Face::Left);
    lemma_count_clockwise(up, col);
    lemma_count_row(front, col, 0, right[0]);
    lemma_count_row(right, col, 0, back[0]);
    lemma_count_row(back, col, 0, left[0]);
    lemma_count_row(left, col, 0, front[0]);
}

#[verifier::spinoff_prover]
#[verifier::rlimit(60)]
proof fn lemma_turned_count_down(c: RubiksCube, col: Face)
    ensures
        turned_count(c, Face::Down, col) == color_count(c, col),
{
    let up = c.grid(Face::Up);
    let down = c.grid(Face::Down);
    let front = c.grid(Face::Front);
    let back = c.grid(Face::Back);
    let right = c.grid(Face::Right);
    let left = c.grid(Face::Left);
    lemma_count_clockwise(down, col);
    lemma_count_row(front, col, 2, left[2]);
    lemma_count_row(left, col, 2, back[2]);
    lemma_count_row(back, col, 2, right[2]);
    lemma_count_row(right, col, 2, front[2]);
}

#[verifier::spinoff_prover]
#[verifier::rlimit(60)]
proof fn lemma_turned_count_front(c: RubiksCube, col: Face)
    ensures
        turned_count(c, Face::Front, col) == color_count(c, col),
{
    let up = c.grid(Face::Up);
    let down = c.grid(Face::Down);
    let front = c.grid(Face::Front);
    let back = c.grid(Face::Back);
    let right = c.grid(Face::Right);
    let left = c.grid(Face::Left);
    assert(turned_grid(c, Face::Front, Face::Front) == clockwise(front));
    assert(turned_grid(c, Face::Front, Face::Back) == back);
    assert(turned_grid(c, Face::Front, Face::Up) == with_row(up, 2, [left[2][2], left[1][2], left[0][2]]));
    assert(turned_grid(c, Face::Front, Face::Left) == with_column(left, 2, down[0][0], down[0][1], down[0][2]));
    assert(turned_grid(c, Face::Front, Face::Down) == with_row(down, 0, [right[2][0], right[1][0], right[0][0]]));
    assert(turned_grid(c, Face::Front, Face::Right) == with_column(right, 0, up[2][0], up[2][1], up[2][2]));
    lemma_count_clockwise(front, col);
    lemma_count_row(up, col, 2, [left[2][2], left[1][2], left[0][2]]);
    lemma_count_column(left, col, 2, down[0][0], down[0][1], down[0][2]);
    lemma_count_row(down, col, 0, [right[2][0], right[1][0], right[0][0]]);
    lemma_count_column(right, col, 0, up[2][0], up[2][1], up[2][2]);
}

#[verifier::spinoff_prover]
#[verifier::rlimit(60)]
proof fn lemma_turned_count_back(c: RubiksCube, col: Face)
    ensures
        turned_count(c, Face::Back, col) == color_count(c, col),
{
    let up = c.grid(Face::Up);
    let down = c.grid(Face::Down);
    let front = c.grid(Face::Front);
    let back = c.grid(Face::Back);
    let right = c.grid(Face::Right);
    let left = c.grid(Face::Left);
    lemma_count_clockwise(back, col);
    lemma_count_row(up, col, 0, [right[0][2], right[1][2], right[2][2]]);
    lemma_count_column(right, col, 2, down[2][2], down[2][1], down[2][0]);
    lemma_count_row(down, col, 2, [left[2][0], left[1][0], left[0][0]]);
    lemma_count_column(left, col, 0, up[0][0], up[0][1], up[0][2]);
}

#[verifier::spinoff_prover]
#[verifier::rlimit(60)]
proof fn lemma_turned_count_right(c: RubiksCube, col: Face)
    ensures
        turned_count(c, Face::Right, col) == color_count(c, col),
{
    let up = c.grid(Face::Up);
    let down = c.grid(Face::Down);
    let front = c.grid(Face::Front);
    let back = c.grid(Face::Back);
    let right = c.grid(Face::Right);
    let left = c.grid(Face::Left);
    assert(turned_grid(c, Face::Right, Face::Right) == clockwise(right));
    assert(turned_grid(c, Face::Right, Face::Left) == left);
    assert(turned_grid(c, Face::Right, Face::Up) == with_column(up, 2, front[0][2], front[1][2], front[2][2]));
    assert(turned_grid(c, Face::Right, Face::Front) == with_column(front, 2, down[0][2], down[1][2], down[2][2]));
    assert(turned_grid(c, Face::Right, Face::Down) == with_column(down, 2, back[2][0], back[1][0], back[0][0]));
    assert(turned_grid(c, Face::Right, Face::Back) == with_column(back, 0, up[2][2], up[1][2], up[0][2]));
    lemma_count_clockwise(right, col);
    lemma_count_column(up, col, 2, front[0][2], front[1][2], front[2][2]);
    lemma_count_column(front, col, 2, down[0][2], down[1][2], down[2][2]);
    lemma_count_column(down, col, 2, back[2][0], back[1][0], back[0][0]);
    lemma_count_column(back, col, 0, up[2][2], up[1][2], up[0][2]);
}

#[verifier::spinoff_prover]
#[verifier::rlimit(60)]
proof fn lemma_turned_count_left(c: RubiksCube, col: Face)
    ensures
        turned_count(c, Face::Left, col) == color_count(c, col),
{
    let up = c.grid(Face::Up);
    let down = c.grid(Face::Down);
    let front = c.grid(Face::Front);
    let back = c.grid(Face::Back);
    let right = c.grid(Face::Right);
    let left = c.grid(Face::Left);
    lemma_count_clockwise(left, col);
    lemma_count_column(up, col, 0, back[2][2], back[1][2], back[0][2]);
    lemma_count_column(back, col, 2, down[2][0], down[1][0], down[0][0]);
    lemma_count_column(down, col, 0, front[0][0], front[1][0], front[2][0]);
    lemma_count_column(front, col, 0, up[0][0], up[1][0], up[2][0]);
}

proof fn lemma_turned_count(c: RubiksCube, f: Face, col: Face)
    ensures
        turned_count(c, f, col) == color_count(c, col),
{
    match f {
        Face::Up => lemma_turned_count_up(c, col),
        Face::Down => lemma_turned_count_down(c, col),
        Face::Front => lemma_turned_count_front(c, col),
        Face::Back => lemma_turned_count_back(c, col),
        Face::Right => lemma_turned_count_right(c, col),
        Face::Left => lemma_turned_count_left(c, col),
    }
}

/// A quarter turn only moves stickers around: each colour keeps its count.
pub proof fn lemma_quarter_turn_keeps_colors(c: RubiksCube, f: Face, col: Face)
    ensures
        color_count(c.quarter_turn(f), col) == color_count(c, col),
{
    lemma_quarter_turn_grid(c, f, Face::Up);
    lemma_quarter_turn_grid(c, f, Face::Down);
    lemma_quarter_turn_grid(c, f, Face::Front);
    lemma_quarter_turn_grid(c, f, Face::Back);
    lemma_quarter_turn_grid(c, f, Face::Right);
    lemma_quarter_turn_grid(c, f, Face::Left);
    lemma_turned_count(c, f, col);
}

/// A move keeps the number of stickers of each colour; every cube reached
/// from the solved cube shows nine stickers of each colour.
pub proof fn lemma_moves_keep_colors(ms: Seq<Move>, col: Face)
    ensures
        color_count(apply_all(RubiksCube::solved(), ms), col) == 9,
    decreases ms.len(),
{
    if ms.len() == 0 {
        RubiksCube::lemma_solved_grids(RubiksCube::solved());
    } else {
        lemma_moves_keep_colors(ms.drop_last(), col);
        let c = apply_all(RubiksCube::solved(), ms.drop_last());
        lemma_turns_keep_colors(c, move_face(ms.last()), quarter_turns(ms.last()) as nat, col);
    }
}

proof fn lemma_turns_keep_colors(c: RubiksCube, f: Face, n: nat, col: Face)
    ensures
        color_count(turns(c, f, n), col) == color_count(c, col),
    decreases n,
{
    if n > 0 {
        lemma_turns_keep_colors(c, f, (n - 1) as nat, col);
        lemma_quarter_turn_keeps_colors(turns(c, f, (n - 1) as nat), f, col);
    }
}

/// Turning a face `a` and then `b` quarter turns is turning it `a + b`.
pub proof fn lemma_turns_add(c: RubiksCube, f: Face, a: nat, b: nat)
    ensures
        turns(turns(c, f, a), f, b) == turns(c, f, a + b),
    decreases b,
{
    if b > 0 {
        lemma_turns_add(c, f, a, (b - 1) as nat);
    }
}

/// Four quarter turns of a face restore the cube.
pub proof fn lemma_turns_four(c: RubiksCube, f: Face)
    ensures
        turns(c, f, 4) == c,
{
    reveal_with_fuel(turns, 5);
    RubiksCube::lemma_four_quarter_turns(c, f);
}

/// A move followed by its inverse leaves the cube unchanged.
pub proof fn lemma_apply_inverse(c: RubiksCube, m: Move)
    ensures
        apply(apply(c, m), inverse_move(m)) == c,
{
    lemma_inverse_involution(m);
    lemma_move_of_parts(inverse_move(m));
    let f = move_face(m);
    let q = quarter_turns(m) as nat;
    lemma_turns_add(c, f, q, (4 - q) as nat);
    lemma_turns_four(c, f);
}

/// The inverse of a move followed by the move leaves the cube unchanged.
pub proof fn lemma_inverse_apply(c: RubiksCube, m: Move)
    ensures
        apply(apply(c, inverse_move(m)), m) == c,
{
    lemma_inverse_involution(m);
    lemma_apply_inverse(c, inverse_move(m));
}

proof fn lemma_turns_then_quarter(c: RubiksCube, f: Face, g: Face, a: nat)
    requires
        opposite_faces(f, g),
    ensures
        turns(c, f, a).quarter_turn(g) == turns(c.quarter_turn(g), f, a),
    decreases a,
{
    if a > 0 {
        lemma_turns_then_quarter(c, f, g, (a - 1) as nat);
        RubiksCube::lemma_opposite_quarter_turns_commute(turns(c, f, (a - 1) as nat), f, g);
    }
}

proof fn lemma_turns_commute(c: RubiksCube, f: Face, g: Face, a: nat, b: nat)
    requires
        opposite_faces(f, g),
    ensures
        turns(turns(c, f, a), g, b) == turns(turns(c, g, b), f, a),
    decreases b,
{
    if b > 0 {
        lemma_turns_commute(c, f, g, a, (b - 1) as nat);
        lemma_turns_then_quarter(turns(c, g, (b - 1) as nat), f, g, a);
    }
}

/// Moves of opposite faces commute.
pub proof fn lemma_opposite_moves_commute(c: RubiksCube, m1: Move, m2: Move)
    requires
        opposite_faces(move_face(m1), move_face(m2)),
    ensures
        apply(apply(c, m1), m2) == apply(apply(c, m2), m1),
{
    lemma_turns_commute(
        c,
        move_face(m1),
        move_face(m2),
        quarter_turns(m1) as nat,
        quarter_turns(m2) as nat,
    );
}

/// Doing `a` then `b` is doing their concatenation.
pub proof fn lemma_apply_all_concat(c: RubiksCube, a: Seq<Move>, b: Seq<Move>)
    ensures
        apply_all(apply_all(c, a), b) == apply_all(c, a + b),
    decreases b.len(),
{
    if b.len() == 0 {
        assert(a + b =~= a);
    } else {
        lemma_apply_all_concat(c, a, b.drop_last());
        assert((a + b).drop_last() =~= a + b.drop_last());
        assert((a + b).last() == b.last());
    }
}

/// Appending one move.
pub proof fn lemma_apply_all_push(c: RubiksCube, ms: Seq<Move>, m: Move)
    ensures
        apply_all(c, ms.push(m)) == apply(apply_all(c, ms), m),
{
    assert(ms.push(m).drop_last() =~= ms);
}

/// Undoing a sequence of moves restores the cube it started from.
pub proof fn lemma_undo_moves(c: RubiksCube, ms: Seq<Move>)
    ensures
        apply_all(apply_all(c, ms), undo_moves(ms)) == c,
    decreases ms.len(),
{
    if ms.len() > 0 {
        let init = ms.drop_last();
        let m = ms.last();
        let mid = apply_all(c, init);
        // apply_all(c, ms) = apply(mid, m); undo = [inv m] + undo(init)
        lemma_apply_all_concat(apply(mid, m), seq![inverse_move(m)], undo_moves(init));
        reveal_with_fuel(apply_all, 2);
        assert(seq![inverse_move(m)].drop_last() =~= Seq::<Move>::empty());
        lemma_apply_inverse(mid, m);
        lemma_undo_moves(c, init);
    }
}


fn uniform_grid(f: Face) -> (g: Grid)
    ensures
        g == uniform(f),
{
    [[f, f, f], [f, f, f], [f, f, f]]
}

impl RubiksCube {
    /// A solved cube.
    pub fn new() -> (c: Self)
        ensures
            c == RubiksCube::solved(),
    {
        Self {
            up: uniform_grid(Face::Up),
            down: uniform_grid(Face::Down),
            front: uniform_grid(Face::Front),
            back: uniform_grid(Face::Back),
            right: uniform_grid(Face::Right),
            left: uniform_grid(Face::Left),
        }
    }

    /// Applies move `m` to the cube.
    pub fn apply_move(&mut self, m: Move)
        ensures
            *final(self) == apply(*old(self), m),
    {
        proof {
            reveal_with_fuel(turns, 4);
        }
        match m {
            Move::U => self.rotate_u(),
            Move::U2 => {
                self.rotate_u();
                self.rotate_u();
            },
            Move::UPrime => {
                self.rotate_u();
                self.rotate_u();
                self.rotate_u();
            },
            Move::D => self.rotate_d(),
            Move::D2 => {
                self.rotate_d();
                self.rotate_d();
            },
            Move::DPrime => {
                self.rotate_d();
                self.rotate_d();
                self.rotate_d();
            },
            Move::F => self.rotate_f(),
            Move::F2 => {
                self.rotate_f();
                self.rotate_f();
            },
            Move::FPrime => {
                self.rotate_f();
                self.rotate_f();
                self.rotate_f();
            },
            Move::B => self.rotate_b(),
            Move::B2 => {
                self.rotate_b();
                self.rotate_b();
            },
            Move::BPrime => {
                self.rotate_b();
                self.rotate_b();
                self.rotate_b();
            },
            Move::R => self.rotate_r(),
            Move::R2 => {
                self.rotate_r();
                self.rotate_r();
            },
            Move::RPrime => {
                self.rotate_r();
                self.rotate_r();
                self.rotate_r();
            },
            Move::L => self.rotate_l(),
            Move::L2 => {
                self.rotate_l();
                self.rotate_l();
            },
            Move::LPrime => {
                self.rotate_l();
                self.rotate_l();
                self.rotate_l();
            },
        }
    }

    fn rotate_u(&mut self)
        ensures
            *final(self) == old(self).quarter_turn(Face::Up),
    {
        rotate_face_clockwise(&mut self.up);
        let temp = self.front[0];
        self.front = set_row(self.front, 0, self.right[0]);
        self.right = set_row(self.right, 0, self.back[0]);
        self.back = set_row(self.back, 0, self.left[0]);
        self.left = set_row(self.left, 0, temp);
    }

    fn rotate_d(&mut self)
        ensures
            *final(self) == old(self).quarter_turn(Face::Down),
    {
        rotate_face_clockwise(&mut self.down);
        let temp = self.front[2];
        self.front = set_row(self.front, 2, self.left[2]);
        self.left = set_row(self.left, 2, self.back[2]);
        self.back = set_row(self.back, 2, self.right[2]);
        self.right = set_row(self.right, 2, temp);
    }

    fn rotate_f(&mut self)
        ensures
            *final(self) == old(self).quarter_turn(Face::Front),
    {
        rotate_face_clockwise(&mut self.front);
        let temp_up = self.up[2];
        self.up = set_row(self.up, 2, [self.left[2][2], self.left[1][2], self.left[0][2]]);
        self.left = set_column(self.left, 2, self.down[0][0], self.down[0][1], self.down[0][2]);
        self.down = set_row(self.down, 0, [self.right[2][0], self.right[1][0], self.right[0][0]]);
        self.right = set_column(self.right, 0, temp_up[0], temp_up[1], temp_up[2]);
    }

    fn rotate_b(&mut self)
        ensures
            *final(self) == old(self).quarter_turn(Face::Back),
    {
        rotate_face_clockwise(&mut self.back);
        let temp_up = self.up[0];
        self.up = set_row(self.up, 0, [self.right[0][2], self.right[1][2], self.right[2][2]]);
        self.right = set_column(self.right, 2, self.down[2][2], self.down[2][1], self.down[2][0]);
        self.down = set_row(self.down, 2, [self.left[2][0], self.left[1][0], self.left[0][0]]);
        self.left = set_column(self.left, 0, temp_up[0], temp_up[1], temp_up[2]);
    }

    fn rotate_r(&mut self)
        ensures
            *final(self) == old(self).quarter_turn(Face::Right),
    {
        rotate_face_clockwise(&mut self.right);
        let temp_up = [self.up[0][2], self.up[1][2], self.up[2][2]];
        self.up = set_column(self.up, 2, self.front[0][2], self.front[1][2], self.front[2][2]);
        self.front = set_column(self.front, 2, self.down[0][2], self.down[1][2], self.down[2][2]);
        self.down = set_column(self.down, 2, self.back[2][0], self.back[1][0], self.back[0][0]);
        self.back = set_column(self.back, 0, temp_up[2], temp_up[1], temp_up[0]);
    }

    fn rotate_l(&mut self)
        ensures
            *final(self) == old(self).quarter_turn(Face::Left),
    {
        rotate_face_clockwise(&mut self.left);
        let temp_up = [self.up[0][0], self.up[1][0], self.up[2][0]];
        self.up = set_column(self.up, 0, self.back[2][2], self.back[1][2], self.back[0][2]);
        self.back = set_column(self.back, 2, self.down[2][0], self.down[1][0], self.down[0][0]);
        self.down = set_column(self.down, 0, self.front[0][0], self.front[1][0], self.front[2][0]);
        self.front = set_column(self.front, 0, temp_up[0], temp_up[1], temp_up[2]);
    }

    /// Whether every face shows a single colour, its own.
    pub fn is_solved(&self) -> (solved: bool)
        ensures
            solved == is_solved_cube(*self),
    {
        let r = self.check_face(&self.up, Face::Up) && self.check_face(&self.down, Face::Down)
            && self.check_face(&self.front, Face::Front) && self.check_face(&self.back, Face::Back)
            && self.check_face(&self.right, Face::Right) && self.check_face(&self.left, Face::Left);
        proof {
            if r {
                Self::lemma_ext(*self, RubiksCube::solved());
            }
        }
        r
    }

    fn check_face(&self, face: &Grid, expected: Face) -> (all: bool)
        ensures
            all == (*face == uniform(expected)),
    {
        let mut i: usize = 0;
        while i < 3
            invariant
                i <= 3,
                forall|a: int, b: int| 0 <= a < i && 0 <= b < 3 ==> face[a][b] == expected,
            decreases 3 - i,
        {
            let mut j: usize = 0;
            while j < 3
                invariant
                    i < 3,
                    j <= 3,
                    forall|a: int, b: int| 0 <= a < i && 0 <= b < 3 ==> face[a][b] == expected,
                    forall|b: int| 0 <= b < j ==> face[i as int][b] == expected,
                decreases 3 - j,
            {
                if face[i][j] != expected {
                    assert(face[i as int][j as int] != uniform(expected)[i as int][j as int]);
                    return false;
                }
                j += 1;
            }
            i += 1;
        }
        proof {
            lemma_grid_ext(*face, uniform(expected));
        }
        true
    }

    /// The stickers of face `face`.
    pub fn get_face(&self, face: Face) -> (g: &Grid)
        ensures
            *g == self.grid(face),
    {
        match face {
            Face::Up => &self.up,
            Face::Down => &self.down,
            Face::Front => &self.front,
            Face::Back => &self.back,
            Face::Right => &self.right,
            Face::Left => &self.left,
        }
    }
}


/// Standard notation of a move: the face letter, then `2` for a half turn
/// or `'` for an anticlockwise quarter turn.
pub open spec fn move_notation(m: Move) -> Seq<char> {
    match m {
        Move::U => "U"@,
        Move::U2 => "U2"@,
        Move::UPrime => "U'"@,
        Move::D => "D"@,
        Move::D2 => "D2"@,
        Move::DPrime => "D'"@,
        Move::F => "F"@,
        Move::F2 => "F2"@,
        Move::FPrime => "F'"@,
        Move::B => "B"@,
        Move::B2 => "B2"@,
        Move::BPrime => "B'"@,
        Move::R => "R"@,
        Move::R2 => "R2"@,
        Move::RPrime => "R'"@,
        Move::L => "L"@,
        Move::L2 => "L2"@,
        Move::LPrime => "L'"@,
    }
}

impl Move {
    /// The move in standard notation (`U`, `U2`, `U'`, ...).
    pub fn notation(&self) -> (s: &'static str)
        ensures
            s@ == move_notation(*self),
    {
        match self {
            Move::U => "U",
            Move::U2 => "U2",
            Move::UPrime => "U'",
            Move::D => "D",
            Move::D2 => "D2",
            Move::DPrime => "D'",
            Move::F => "F",
            Move::F2 => "F2",
            Move::FPrime => "F'",
            Move::B => "B",
            Move::B2 => "B2",
            Move::BPrime => "B'",
            Move::R => "R",
            Move::R2 => "R2",
            Move::RPrime => "R'",
            Move::L => "L",
            Move::L2 => "L2",
            Move::LPrime => "L'",
        }
    }
}

/// No single move leaves the solved cube solved.
pub proof fn lemma_one_move_unsolves(m: Move)
    ensures
        !is_solved_cube(apply(RubiksCube::solved(), m)),
{
    let s = RubiksCube::solved();
    let c = apply(s, m);
    reveal_with_fuel(turns, 4);
    match move_face(m) {
        Face::Up | Face::Down => {
            assert(c.grid(Face::Front) != s.grid(Face::Front)) by {
                if move_face(m) == Face::Up {
                    assert(c.grid(Face::Front)[0][0] != Face::Front);
                } else {
                    assert(c.grid(Face::Front)[2][0] != Face::Front);
                }
            }
        },
        Face::Front | Face::Back => {
            assert(c.grid(Face::Up) != s.grid(Face::Up)) by {
                if move_face(m) == Face::Front {
                    assert(c.grid(Face::Up)[2][0] != Face::Up);
                } else {
                    assert(c.grid(Face::Up)[0][0] != Face::Up);
                }
            }
        },
        Face::Right | Face::Left => {
            assert(c.grid(Face::Up) != s.grid(Face::Up)) by {
                if move_face(m) == Face::Right {
                    assert(c.grid(Face::Up)[0][2] != Face::Up);
                } else {
                    assert(c.grid(Face::Up)[0][0] != Face::Up);
                }
            }
        },
    }
}

/// A thread-local random number generator.
#[verifier::external_type_specification]
#[verifier::external_body]
pub struct ExThreadRng(ThreadRng);

/// Calls `rand::rng()`: a handle to the thread-local generator. Nothing is
/// promised of its state.
#[verifier::external_body]
fn thread_rng() -> ThreadRng {
    rand::rng()
}

/// Calls `Rng::random_range(0..n)` on `rng`: a number below `n` (the range
/// is not empty since `n > 0`); which one is left to chance.
#[verifier::external_body]
fn random_below(rng: &mut ThreadRng, n: usize) -> (i: usize)
    requires
        n > 0,
    ensures
        i < n,
{
    rng.random_range(0..n)
}

/// Whether `ms` turns a different face at every step of its first `k` moves.
pub open spec fn no_face_repeats(ms: Seq<Move>, k: int) -> bool {
    forall|i: int| 0 < i < k && i < ms.len() ==> move_face(#[trigger] ms[i]) != move_face(ms[i - 1])
}

/// The move at position `i` of `all_moves()`.
pub fn move_at(i: usize) -> (m: Move)
    requires
        i < 18,
    ensures
        m == all_moves()[i as int],
{
    match i {
        0 => Move::U,
        1 => Move::U2,
        2 => Move::UPrime,
        3 => Move::D,
        4 => Move::D2,
        5 => Move::DPrime,
        6 => Move::F,
        7 => Move::F2,
        8 => Move::FPrime,
        9 => Move::B,
        10 => Move::B2,
        11 => Move::BPrime,
        12 => Move::R,
        13 => Move::R2,
        14 => Move::RPrime,
        15 => Move::L,
        16 => Move::L2,
        _ => Move::LPrime,
    }
}

/// Each face's three moves sit together in `all_moves()`, in face order.
proof fn lemma_all_moves_faces(i: int)
    requires
        0 <= i < 18,
    ensures
        face_number(move_face(all_moves()[i])) == i / 3,
        move_number(all_moves()[i]) == i,
{
}

/// The move that draw `r` stands for: with no previous face, move `r` of
/// `all_moves()`; after face `f`, the `r`-th of the fifteen moves of the
/// other faces, in the order of `all_moves()`.
pub open spec fn move_for_draw_spec(r: int, last_face: Option<u8>) -> Move {
    match last_face {
        Some(f) => if f < 6 && r >= 3 * f {
            all_moves()[r + 3]
        } else {
            all_moves()[r]
        },
        None => all_moves()[r],
    }
}

/// The move for draw `r` (see `move_for_draw_spec`): `r` is below 18 with
/// no previous face and below 15 after one.
pub fn move_for_draw(r: usize, last_face: Option<u8>) -> (m: Move)
    requires
        last_face is None ==> r < 18,
        last_face is Some ==> r < 15,
    ensures
        m == move_for_draw_spec(r as int, last_face),
        last_face matches Some(f) ==> face_number(move_face(m)) != f,
{
    match last_face {
        None => move_at(r),
        Some(f) => {
            // Skip the three moves of face `f`.
            let i = if f < 6 && r >= 3 * (f as usize) {
                r + 3
            } else {
                r
            };
            proof {
                lemma_all_moves_faces(i as int);
            }
            move_at(i)
        },
    }
}

/// A random move of a face other than `last_face` (any move when `None`),
/// uniform among the allowed ones: a uniform draw below 18 (or 15), returned
/// beside the move, turned into the move by `move_for_draw`.
fn random_move_avoiding(rng: &mut ThreadRng, last_face: Option<u8>) -> (res: (Move, usize))
    ensures
        last_face matches Some(f) ==> face_number(move_face(res.0)) != f,
        exists|r: int|
            0 <= r < (if last_face is None {
                18int
            } else {
                15int
            }) && res.0 == #[trigger] move_for_draw_spec(r, last_face),
        res.1 < (if last_face is None {
            18int
        } else {
            15int
        }),
        res.0 == move_for_draw_spec(res.1 as int, last_face),
{
    let n: usize = match last_face {
        None => 18,
        Some(_) => 15,
    };
    let r = random_below(rng, n);
    (move_for_draw(r, last_face), r)
}

/// Drawing is fair: with no previous face the 18 draws give the 18 moves one
/// to one, and after face `f` the 15 draws give the 15 moves of the other
/// faces one to one, so a uniform draw gives a uniform move.
pub proof fn lemma_draws_match_moves(f: u8)
    requires
        f < 6,
    ensures
        forall|r1: int, r2: int|
            0 <= r1 < 15 && 0 <= r2 < 15 && #[trigger] move_for_draw_spec(r1, Some(f))
                == #[trigger] move_for_draw_spec(r2, Some(f)) ==> r1 == r2,
        forall|m: Move|
            face_number(move_face(m)) != f ==> exists|r: int|
                0 <= r < 15 && #[trigger] move_for_draw_spec(r, Some(f)) == m,
        forall|r: int|
            0 <= r < 15 ==> face_number(move_face(#[trigger] move_for_draw_spec(r, Some(f)))) != f,
        forall|r1: int, r2: int|
            0 <= r1 < 18 && 0 <= r2 < 18 && #[trigger] move_for_draw_spec(r1, None)
                == #[trigger] move_for_draw_spec(r2, None) ==> r1 == r2,
        forall|m: Move|
            #[trigger] move_number(m) >= 0 ==> exists|r: int|
                0 <= r < 18 && #[trigger] move_for_draw_spec(r, None) == m,
{
    assert forall|r: int| 0 <= r < 15 implies face_number(move_face(#[trigger] move_for_draw_spec(r, Some(f)))) != f
        && move_number(move_for_draw_spec(r, Some(f))) == (if r >= 3 * f { r + 3 } else { r }) by {
        let i = if r >= 3 * f { r + 3 } else { r };
        lemma_all_moves_faces(i);
    }
    assert forall|r1: int, r2: int|
        0 <= r1 < 15 && 0 <= r2 < 15 && #[trigger] move_for_draw_spec(r1, Some(f))
            == #[trigger] move_for_draw_spec(r2, Some(f)) implies r1 == r2 by {
        assert(move_number(move_for_draw_spec(r1, Some(f))) == (if r1 >= 3 * f { r1 + 3 } else { r1 }));
        assert(move_number(move_for_draw_spec(r2, Some(f))) == (if r2 >= 3 * f { r2 + 3 } else { r2 }));
    }
    assert forall|m: Move| face_number(move_face(m)) != f implies exists|r: int|
        0 <= r < 15 && #[trigger] move_for_draw_spec(r, Some(f)) == m by {
        lemma_move_number_range(m);
        let k = move_number(m);
        lemma_all_moves_faces(k);
        let r = if k < 3 * f { k } else { k - 3 };
        assert(move_for_draw_spec(r, Some(f)) == all_moves()[k]);
    }
    assert forall|r1: int, r2: int|
        0 <= r1 < 18 && 0 <= r2 < 18 && #[trigger] move_for_draw_spec(r1, None)
            == #[trigger] move_for_draw_spec(r2, None) implies r1 == r2 by {
        lemma_all_moves_number(r1);
        lemma_all_moves_number(r2);
    }
    assert forall|m: Move| #[trigger] move_number(m) >= 0 implies exists|r: int|
        0 <= r < 18 && #[trigger] move_for_draw_spec(r, None) == m by {
        lemma_move_number_range(m);
        assert(move_for_draw_spec(move_number(m), None) == m);
    }
}

impl RubiksCube {
    /// A random scrambled cube: `num_moves` random moves from solved, never
    /// turning the same face twice in a row (each move is drawn uniformly
    /// among those of the other faces), plus one more random move in the
    /// rare case that the result is solved.
    #[verifier::spinoff_prover]
    #[verifier::rlimit(30)]
    pub fn scrambled(num_moves: usize) -> (cube: Self)
        ensures
            !is_solved_cube(cube),
            exists|ms: Seq<Move>|
                #![trigger apply_all(RubiksCube::solved(), ms)]
                cube == apply_all(RubiksCube::solved(), ms) && num_moves <= ms.len() <= num_moves
                    + 1 && no_face_repeats(ms, num_moves as int),
    {
        let mut rng = thread_rng();
        let mut cube = Self::new();
        let moves = Move::all();
        let ghost mut applied: Seq<Move> = Seq::empty();
        let mut last_face: Option<u8> = None;
        let mut n: usize = 0;
        while n < num_moves
            invariant
                n <= num_moves,
                moves@ == all_moves(),
                applied.len() == n,
                cube == apply_all(RubiksCube::solved(), applied),
                no_face_repeats(applied, n as int),
                n > 0 ==> last_face == Some(face_number(move_face(applied[n - 1])) as u8),
                n == 0 ==> last_face is None,
            decreases num_moves - n,
        {
            let (m, _draw) = random_move_avoiding(&mut rng, last_face);
            cube.apply_move(m);
            proof {
                crate::cube::lemma_apply_all_push(RubiksCube::solved(), applied, m);
                applied = applied.push(m);
            }
            last_face = Some(m.face_id());
            n += 1;
        }
        if cube.is_solved() {
            let m = moves[random_below(&mut rng, moves.len())];
            proof {
                lemma_one_move_unsolves(m);
                crate::cube::lemma_apply_all_push(RubiksCube::solved(), applied, m);
                applied = applied.push(m);
            }
            cube.apply_move(m);
        }
        assert(cube == apply_all(RubiksCube::solved(), applied));
        cube
    }
}


proof fn lemma_move_of_face_turns(f: Face, q: int)
    requires
        1 <= q <= 3,
    ensures
        move_face(move_of(f, q)) == f,
        quarter_turns(move_of(f, q)) == q,
{
}

/// Two moves of the same face amount to a single move of that face, or to
/// no change at all.
pub proof fn lemma_same_face_moves_combine(c: RubiksCube, m1: Move, m2: Move)
    requires
        move_face(m1) == move_face(m2),
    ensures
        apply(apply(c, m1), m2) == c || exists|m: Move|
            move_face(m) == move_face(m1) && #[trigger] apply(c, m) == apply(apply(c, m1), m2),
{
    let f = move_face(m1);
    let a = quarter_turns(m1) as nat;
    let b = quarter_turns(m2) as nat;
    lemma_move_of_parts(m1);
    lemma_move_of_parts(m2);
    lemma_turns_add(c, f, a, b);
    if a + b < 4 {
        lemma_move_of_face_turns(f, (a + b) as int);
        assert(apply(c, move_of(f, (a + b) as int)) == apply(apply(c, m1), m2));
    } else if a + b > 4 {
        let r = (a + b - 4) as nat;
        lemma_turns_add(c, f, 4, r);
        lemma_turns_four(c, f);
        lemma_move_of_face_turns(f, r as int);
        assert(apply(c, move_of(f, r as int)) == apply(apply(c, m1), m2));
    } else {
        lemma_turns_four(c, f);
    }
}

} // verus!
