//! What the renderer draws, in integers: which sticker shows on each side
//! of each small cube, which small cubes a move turns, and the pixel font.
use vstd::prelude::*;
use crate::cube::{
    apply, lemma_b_turn_stickers, lemma_d_turn_stickers, lemma_f_turn_stickers,
    lemma_l_turn_stickers, lemma_r_turn_stickers, lemma_u_turn_stickers, move_face, Face, Move,
    RubiksCube,
};

verus! {

/// Sides of a small cube, in the order the renderer colours them.
pub const SIDE_FRONT: usize = 0;
pub const SIDE_BACK: usize = 1;
pub const SIDE_LEFT: usize = 2;
pub const SIDE_RIGHT: usize = 3;
pub const SIDE_UP: usize = 4;
pub const SIDE_DOWN: usize = 5;

/// The sticker on each side of the small cube at grid position
/// (`x`, `y`, `z`) (each 0..3; `x` grows to the right, `y` upwards, `z`
/// towards the front), or `None` for an inner side. Sides are in the order
/// front, back, left, right, up, down.
pub open spec fn cubie_stickers_of(c: RubiksCube, x: int, y: int, z: int) -> Seq<Option<Face>> {
    seq![
        if z == 2 { Some(c.grid(Face::Front)[x][2 - y]) } else { None },
        if z == 0 { Some(c.grid(Face::Back)[x][y]) } else { None },
        if x == 0 { Some(c.grid(Face::Left)[z][2 - y]) } else { None },
        if x == 2 { Some(c.grid(Face::Right)[2 - z][2 - y]) } else { None },
        if y == 2 { Some(c.grid(Face::Up)[x][z]) } else { None },
        if y == 0 { Some(c.grid(Face::Down)[x][2 - z]) } else { None },
    ]
}

/// Whether the small cube at (`x`, `y`, `z`) lies in the layer that move
/// `m` turns: U and D turn along `y`, F and B along `z`, R and L along `x`;
/// U, F and R turn layer 2, the others layer 0.
pub open spec fn in_turning_layer_of(m: Move, x: int, y: int, z: int) -> bool {
    let layer: int = match move_face(m) {
        Face::Up | Face::Front | Face::Right => 2,
        _ => 0,
    };
    match move_face(m) {
        Face::Up | Face::Down => y == layer,
        Face::Front | Face::Back => z == layer,
        Face::Right | Face::Left => x == layer,
    }
}

/// Index of the side that faces outwards on face `f`, in the order front,
/// back, left, right, up, down.
pub open spec fn side_of(f: Face) -> int {
    match f {
        Face::Front => SIDE_FRONT as int,
        Face::Back => SIDE_BACK as int,
        Face::Left => SIDE_LEFT as int,
        Face::Right => SIDE_RIGHT as int,
        Face::Up => SIDE_UP as int,
        Face::Down => SIDE_DOWN as int,
    }
}

/// The coordinate of (`x`, `y`, `z`) along the axis that move `m` turns
/// about: `y` for U and D, `z` for F and B, `x` for R and L.
pub open spec fn axis_coordinate(m: Move, x: int, y: int, z: int) -> int {
    match move_face(m) {
        Face::Up | Face::Down => y,
        Face::Front | Face::Back => z,
        Face::Right | Face::Left => x,
    }
}

/// Number of small cubes among the first `t` positions (in the order x,
/// then y, then z) that turn with move `m`.
pub open spec fn turning_count(m: Move, t: nat) -> nat
    decreases t,
{
    if t == 0 {
        0
    } else {
        let i = (t - 1) as int;
        turning_count(m, (t - 1) as nat) + if in_turning_layer_of(m, i / 9, (i / 3) % 3, i % 3) {
            1nat
        } else {
            0nat
        }
    }
}

/// A move turns exactly the small cubes that carry a sticker of its face.
pub proof fn lemma_turning_layer_carries_face(m: Move, c: RubiksCube, x: int, y: int, z: int)
    requires
        0 <= x < 3,
        0 <= y < 3,
        0 <= z < 3,
    ensures
        in_turning_layer_of(m, x, y, z) <==> cubie_stickers_of(c, x, y, z)[side_of(move_face(m))] is Some,
{
}

/// Each move turns exactly nine of the twenty-seven small cubes, all at one
/// coordinate along the move's axis.
pub proof fn lemma_turning_layer_is_one_slice(m: Move)
    ensures
        turning_count(m, 27) == 9,
        forall|x1: int, y1: int, z1: int, x2: int, y2: int, z2: int|
            #[trigger] in_turning_layer_of(m, x1, y1, z1) && #[trigger] in_turning_layer_of(m, x2, y2, z2)
                ==> axis_coordinate(m, x1, y1, z1) == axis_coordinate(m, x2, y2, z2),
{
    reveal_with_fuel(turning_count, 28);
    match move_face(m) {
        Face::Up => {},
        Face::Down => {},
        Face::Front => {},
        Face::Back => {},
        Face::Right => {},
        Face::Left => {},
    }
}

/// Which grid entry each side of a small cube shows, on every cube: the up
/// side of the small cube at (x, 2, z) shows row x, column z of the Up grid;
/// the down side at (x, 0, z) row x, column 2 - z of Down; the front side at
/// (x, y, 2) row x, column 2 - y of Front; the back side at (x, y, 0) row x,
/// column y of Back; the right side at (2, y, z) row 2 - z, column 2 - y of
/// Right; the left side at (0, y, z) row z, column 2 - y of Left. Sides
/// inside the cube show nothing.
pub proof fn lemma_cubie_sides(c: RubiksCube, x: int, y: int, z: int)
    requires
        0 <= x < 3,
        0 <= y < 3,
        0 <= z < 3,
    ensures
        cubie_stickers_of(c, x, y, z).len() == 6,
        cubie_stickers_of(c, x, y, z)[SIDE_UP as int] == (if y == 2 { Some(c.grid(Face::Up)[x][z]) } else { None }),
        cubie_stickers_of(c, x, y, z)[SIDE_DOWN as int] == (if y == 0 { Some(c.grid(Face::Down)[x][2 - z]) } else { None }),
        cubie_stickers_of(c, x, y, z)[SIDE_FRONT as int] == (if z == 2 { Some(c.grid(Face::Front)[x][2 - y]) } else { None }),
        cubie_stickers_of(c, x, y, z)[SIDE_BACK as int] == (if z == 0 { Some(c.grid(Face::Back)[x][y]) } else { None }),
        cubie_stickers_of(c, x, y, z)[SIDE_RIGHT as int] == (if x == 2 { Some(c.grid(Face::Right)[2 - z][2 - y]) } else { None }),
        cubie_stickers_of(c, x, y, z)[SIDE_LEFT as int] == (if x == 0 { Some(c.grid(Face::Left)[z][2 - y]) } else { None }),
{
}

/// A quarter turn of a face rotates that face's stickers with the small
/// cubes that carry them: after the turn, the small cube at each position
/// of the turned layer shows, on the turned face's side, the sticker that
/// the small cube a quarter turn back showed before (clockwise as seen from
/// outside that face).
pub proof fn lemma_turn_rotates_own_face(c: RubiksCube, a: int, b: int)
    requires
        0 <= a < 3,
        0 <= b < 3,
    ensures
        cubie_stickers_of(apply(c, Move::U), a, 2, b)[SIDE_UP as int] == cubie_stickers_of(c, 2 - b, 2, a)[SIDE_UP as int],
        cubie_stickers_of(apply(c, Move::D), a, 0, b)[SIDE_DOWN as int] == cubie_stickers_of(c, b, 0, 2 - a)[SIDE_DOWN as int],
        cubie_stickers_of(apply(c, Move::F), a, b, 2)[SIDE_FRONT as int] == cubie_stickers_of(c, b, 2 - a, 2)[SIDE_FRONT as int],
        cubie_stickers_of(apply(c, Move::B), a, b, 0)[SIDE_BACK as int] == cubie_stickers_of(c, 2 - b, a, 0)[SIDE_BACK as int],
        cubie_stickers_of(apply(c, Move::R), 2, a, b)[SIDE_RIGHT as int] == cubie_stickers_of(c, 2, b, 2 - a)[SIDE_RIGHT as int],
        cubie_stickers_of(apply(c, Move::L), 0, a, b)[SIDE_LEFT as int] == cubie_stickers_of(c, 0, 2 - b, a)[SIDE_LEFT as int],
{
    lemma_u_turn_stickers(c);
    lemma_d_turn_stickers(c);
    lemma_f_turn_stickers(c);
    lemma_b_turn_stickers(c);
    lemma_r_turn_stickers(c);
    lemma_l_turn_stickers(c);
    assert(a == 0 || a == 1 || a == 2);
    assert(b == 0 || b == 1 || b == 2);
}

/// The stickers of the small cube at (`x`, `y`, `z`); see `cubie_stickers_of`.
pub fn cubie_stickers(cube: &RubiksCube, x: usize, y: usize, z: usize) -> (s: [Option<Face>; 6])
    requires
        x < 3,
        y < 3,
        z < 3,
    ensures
        s@ == cubie_stickers_of(*cube, x as int, y as int, z as int),
{
    let front = if z == 2 {
        Some(cube.get_face(Face::Front)[x][2 - y])
    } else {
        None
    };
    let back = if z == 0 {
        Some(cube.get_face(Face::Back)[x][y])
    } else {
        None
    };
    let left = if x == 0 {
        Some(cube.get_face(Face::Left)[z][2 - y])
    } else {
        None
    };
    let right = if x == 2 {
        Some(cube.get_face(Face::Right)[2 - z][2 - y])
    } else {
        None
    };
    let up = if y == 2 {
        Some(cube.get_face(Face::Up)[x][z])
    } else {
        None
    };
    let down = if y == 0 {
        Some(cube.get_face(Face::Down)[x][2 - z])
    } else {
        None
    };
    let s = [front, back, left, right, up, down];
    assert(s@ =~= cubie_stickers_of(*cube, x as int, y as int, z as int));
    s
}

/// Whether the small cube at (`x`, `y`, `z`) turns with move `m`.
pub fn in_turning_layer(m: Move, x: usize, y: usize, z: usize) -> (b: bool)
    ensures
        b == in_turning_layer_of(m, x as int, y as int, z as int),
{
    let layer = m.layer_index();
    match m {
        Move::U | Move::U2 | Move::UPrime | Move::D | Move::D2 | Move::DPrime => y == layer,
        Move::F | Move::F2 | Move::FPrime | Move::B | Move::B2 | Move::BPrime => z == layer,
        Move::R | Move::R2 | Move::RPrime | Move::L | Move::L2 | Move::LPrime => x == layer,
    }
}

/// How the HUD grades the frame rate: smooth from 60 frames a second,
/// fair from 30, slow below.
#[derive(Clone, Copy, Debug, PartialEq, Eq, Structural)]
pub enum FrameRate {
    Smooth,
    Fair,
    Slow,
}

/// The grade of `fps` frames a second.
pub open spec fn frame_rate_of(fps: u32) -> FrameRate {
    if fps >= 60 {
        FrameRate::Smooth
    } else if fps >= 30 {
        FrameRate::Fair
    } else {
        FrameRate::Slow
    }
}

/// The grade of `fps` frames a second (see `frame_rate_of`).
pub fn frame_rate(fps: u32) -> (r: FrameRate)
    ensures
        r == frame_rate_of(fps),
{
    if fps >= 60 {
        FrameRate::Smooth
    } else if fps >= 30 {
        FrameRate::Fair
    } else {
        FrameRate::Slow
    }
}

/// Unit suffix of a compact count.
#[derive(Clone, Copy, Debug, PartialEq, Eq, Structural)]
pub enum CountUnit {
    /// Shown as is.
    One,
    /// Thousands, "K", no decimal.
    Kilo,
    /// Millions, "M", one decimal.
    Mega,
    /// Billions, "G", one decimal.
    Giga,
}

/// A count shown as `whole`, then for millions and billions `.` and
/// `tenths`, then the unit's suffix.
#[derive(Clone, Copy, Debug, PartialEq, Eq, Structural)]
pub struct CompactCount {
    pub whole: u64,
    pub tenths: u64,
    pub unit: CountUnit,
}

/// `n` in compact form: billions and millions cut to one decimal (so
/// 1_086_366 reads 1.0M), thousands rounded to the nearest whole thousand
/// (halves to even), smaller counts as they are.
pub open spec fn compact_count_of(n: u64) -> CompactCount {
    if n >= 1_000_000_000 {
        CompactCount {
            whole: n / 1_000_000_000,
            tenths: (n / 100_000_000) % 10,
            unit: CountUnit::Giga,
        }
    } else if n >= 1_000_000 {
        CompactCount { whole: n / 1_000_000, tenths: (n / 100_000) % 10, unit: CountUnit::Mega }
    } else if n >= 1_000 {
        let q = n / 1000;
        let r = n % 1000;
        CompactCount {
            whole: if r > 500 || (r == 500 && q % 2 == 1) {
                (q + 1) as u64
            } else {
                q
            },
            tenths: 0,
            unit: CountUnit::Kilo,
        }
    } else {
        CompactCount { whole: n, tenths: 0, unit: CountUnit::One }
    }
}

/// `n` in compact form (see `compact_count_of`).
pub fn compact_count(n: u64) -> (c: CompactCount)
    ensures
        c == compact_count_of(n),
{
    if n >= 1_000_000_000 {
        CompactCount {
            whole: n / 1_000_000_000,
            tenths: (n / 100_000_000) % 10,
            unit: CountUnit::Giga,
        }
    } else if n >= 1_000_000 {
        CompactCount { whole: n / 1_000_000, tenths: (n / 100_000) % 10, unit: CountUnit::Mega }
    } else if n >= 1_000 {
        let q = n / 1000;
        let r = n % 1000;
        let whole = if r > 500 || (r == 500 && q % 2 == 1) {
            q + 1
        } else {
            q
        };
        CompactCount { whole, tenths: 0, unit: CountUnit::Kilo }
    } else {
        CompactCount { whole: n, tenths: 0, unit: CountUnit::One }
    }
}

/// Share of the logical threads the solver uses, in whole percent (0 when
/// there are no logical threads).
pub fn thread_percent(solver_threads: u32, cpu_logical: u32) -> (p: u32)
    requires
        solver_threads <= 42_949_672,
    ensures
        p == (if cpu_logical > 0 {
            ((solver_threads * 100) as int / (cpu_logical as int)) as u32
        } else {
            0u32
        }),
{
    if cpu_logical > 0 {
        solver_threads * 100 / cpu_logical
    } else {
        0
    }
}


/// The 5x7 pixel glyph of `c`, one byte per row from the top, the five
/// low bits giving the pixels left to right. Characters without a glyph
/// show as a hollow box.
pub open spec fn glyph_of(c: char) -> [u8; 7] {
    match c {
        '0' => [0x0E, 0x11, 0x13, 0x15, 0x19, 0x11, 0x0E],
        '1' => [0x04, 0x0C, 0x04, 0x04, 0x04, 0x04, 0x0E],
        '2' => [0x0E, 0x11, 0x01, 0x02, 0x04, 0x08, 0x1F],
        '3' => [0x1F, 0x02, 0x04, 0x02, 0x01, 0x11, 0x0E],
        '4' => [0x02, 0x06, 0x0A, 0x12, 0x1F, 0x02, 0x02],
        '5' => [0x1F, 0x10, 0x1E, 0x01, 0x01, 0x11, 0x0E],
        '6' => [0x06, 0x08, 0x10, 0x1E, 0x11, 0x11, 0x0E],
        '7' => [0x1F, 0x01, 0x02, 0x04, 0x08, 0x08, 0x08],
        '8' => [0x0E, 0x11, 0x11, 0x0E, 0x11, 0x11, 0x0E],
        '9' => [0x0E, 0x11, 0x11, 0x0F, 0x01, 0x02, 0x0C],
        'A' => [0x0E, 0x11, 0x11, 0x1F, 0x11, 0x11, 0x11],
        'B' => [0x1E, 0x11, 0x11, 0x1E, 0x11, 0x11, 0x1E],
        'C' => [0x0E, 0x11, 0x10, 0x10, 0x10, 0x11, 0x0E],
        'D' => [0x1C, 0x12, 0x11, 0x11, 0x11, 0x12, 0x1C],
        'E' => [0x1F, 0x10, 0x10, 0x1E, 0x10, 0x10, 0x1F],
        'F' => [0x1F, 0x10, 0x10, 0x1E, 0x10, 0x10, 0x10],
        'G' => [0x0E, 0x11, 0x10, 0x17, 0x11, 0x11, 0x0F],
        'H' => [0x11, 0x11, 0x11, 0x1F, 0x11, 0x11, 0x11],
        'I' => [0x0E, 0x04, 0x04, 0x04, 0x04, 0x04, 0x0E],
        'J' => [0x07, 0x02, 0x02, 0x02, 0x02, 0x12, 0x0C],
        'K' => [0x11, 0x12, 0x14, 0x18, 0x14, 0x12, 0x11],
        'L' => [0x10, 0x10, 0x10, 0x10, 0x10, 0x10, 0x1F],
        'M' => [0x11, 0x1B, 0x15, 0x15, 0x11, 0x11, 0x11],
        'N' => [0x11, 0x11, 0x19, 0x15, 0x13, 0x11, 0x11],
        'O' => [0x0E, 0x11, 0x11, 0x11, 0x11, 0x11, 0x0E],
        'P' => [0x1E, 0x11, 0x11, 0x1E, 0x10, 0x10, 0x10],
        'Q' => [0x0E, 0x11, 0x11, 0x11, 0x15, 0x12, 0x0D],
        'R' => [0x1E, 0x11, 0x11, 0x1E, 0x14, 0x12, 0x11],
        'S' => [0x0F, 0x10, 0x10, 0x0E, 0x01, 0x01, 0x1E],
        'T' => [0x1F, 0x04, 0x04, 0x04, 0x04, 0x04, 0x04],
        'U' => [0x11, 0x11, 0x11, 0x11, 0x11, 0x11, 0x0E],
        'V' => [0x11, 0x11, 0x11, 0x11, 0x11, 0x0A, 0x04],
        'W' => [0x11, 0x11, 0x11, 0x15, 0x15, 0x15, 0x0A],
        'X' => [0x11, 0x11, 0x0A, 0x04, 0x0A, 0x11, 0x11],
        'Y' => [0x11, 0x11, 0x0A, 0x04, 0x04, 0x04, 0x04],
        'Z' => [0x1F, 0x01, 0x02, 0x04, 0x08, 0x10, 0x1F],
        'a' => [0x00, 0x00, 0x0E, 0x01, 0x0F, 0x11, 0x0F],
        'b' => [0x10, 0x10, 0x16, 0x19, 0x11, 0x11, 0x1E],
        'c' => [0x00, 0x00, 0x0E, 0x10, 0x10, 0x11, 0x0E],
        'd' => [0x01, 0x01, 0x0D, 0x13, 0x11, 0x11, 0x0F],
        'e' => [0x00, 0x00, 0x0E, 0x11, 0x1F, 0x10, 0x0E],
        'f' => [0x06, 0x09, 0x08, 0x1C, 0x08, 0x08, 0x08],
        'g' => [0x00, 0x0F, 0x11, 0x11, 0x0F, 0x01, 0x0E],
        'h' => [0x10, 0x10, 0x16, 0x19, 0x11, 0x11, 0x11],
        'i' => [0x04, 0x00, 0x0C, 0x04, 0x04, 0x04, 0x0E],
        'j' => [0x02, 0x00, 0x06, 0x02, 0x02, 0x12, 0x0C],
        'k' => [0x10, 0x10, 0x12, 0x14, 0x18, 0x14, 0x12],
        'l' => [0x0C, 0x04, 0x04, 0x04, 0x04, 0x04, 0x0E],
        'm' => [0x00, 0x00, 0x1A, 0x15, 0x15, 0x11, 0x11],
        'n' => [0x00, 0x00, 0x16, 0x19, 0x11, 0x11, 0x11],
        'o' => [0x00, 0x00, 0x0E, 0x11, 0x11, 0x11, 0x0E],
        'p' => [0x00, 0x00, 0x1E, 0x11, 0x1E, 0x10, 0x10],
        'q' => [0x00, 0x00, 0x0D, 0x13, 0x0F, 0x01, 0x01],
        'r' => [0x00, 0x00, 0x16, 0x19, 0x10, 0x10, 0x10],
        's' => [0x00, 0x00, 0x0E, 0x10, 0x0E, 0x01, 0x1E],
        't' => [0x08, 0x08, 0x1C, 0x08, 0x08, 0x09, 0x06],
        'u' => [0x00, 0x00, 0x11, 0x11, 0x11, 0x13, 0x0D],
        'v' => [0x00, 0x00, 0x11, 0x11, 0x11, 0x0A, 0x04],
        'w' => [0x00, 0x00, 0x11, 0x11, 0x15, 0x15, 0x0A],
        'x' => [0x00, 0x00, 0x11, 0x0A, 0x04, 0x0A, 0x11],
        'y' => [0x00, 0x00, 0x11, 0x11, 0x0F, 0x01, 0x0E],
        'z' => [0x00, 0x00, 0x1F, 0x02, 0x04, 0x08, 0x1F],
        ' ' => [0x00, 0x00, 0x00, 0x00, 0x00, 0x00, 0x00],
        ':' => [0x00, 0x0C, 0x0C, 0x00, 0x0C, 0x0C, 0x00],
        '.' => [0x00, 0x00, 0x00, 0x00, 0x00, 0x0C, 0x0C],
        ',' => [0x00, 0x00, 0x00, 0x00, 0x04, 0x04, 0x08],
        '/' => [0x00, 0x01, 0x02, 0x04, 0x08, 0x10, 0x00],
        '-' => [0x00, 0x00, 0x00, 0x1F, 0x00, 0x00, 0x00],
        '+' => [0x00, 0x04, 0x04, 0x1F, 0x04, 0x04, 0x00],
        '(' => [0x02, 0x04, 0x08, 0x08, 0x08, 0x04, 0x02],
        ')' => [0x08, 0x04, 0x02, 0x02, 0x02, 0x04, 0x08],
        '!' => [0x04, 0x04, 0x04, 0x04, 0x00, 0x00, 0x04],
        '\'' => [0x04, 0x04, 0x08, 0x00, 0x00, 0x00, 0x00],
        '%' => [0x18, 0x19, 0x02, 0x04, 0x08, 0x13, 0x03],
        '=' => [0x00, 0x00, 0x1F, 0x00, 0x1F, 0x00, 0x00],
        '[' => [0x0C, 0x08, 0x08, 0x08, 0x08, 0x08, 0x0C],
        ']' => [0x06, 0x02, 0x02, 0x02, 0x02, 0x02, 0x06],
        '#' => [0x0A, 0x0A, 0x1F, 0x0A, 0x1F, 0x0A, 0x0A],
        '>' => [0x10, 0x08, 0x04, 0x02, 0x04, 0x08, 0x10],
        '<' => [0x01, 0x02, 0x04, 0x08, 0x04, 0x02, 0x01],
        '*' => [0x00, 0x0A, 0x04, 0x1F, 0x04, 0x0A, 0x00],
        '@' => [0x0E, 0x11, 0x17, 0x15, 0x17, 0x10, 0x0E],
        '|' => [0x04, 0x04, 0x04, 0x04, 0x04, 0x04, 0x04],
        _ => [0x1F, 0x11, 0x11, 0x11, 0x11, 0x11, 0x1F],
    }
}

/// The glyph of `c` (see `glyph_of`).
pub fn font_glyph(c: char) -> (g: [u8; 7])
    ensures
        g == glyph_of(c),
{
    match c {
        '0' => [0x0E, 0x11, 0x13, 0x15, 0x19, 0x11, 0x0E],
        '1' => [0x04, 0x0C, 0x04, 0x04, 0x04, 0x04, 0x0E],
        '2' => [0x0E, 0x11, 0x01, 0x02, 0x04, 0x08, 0x1F],
        '3' => [0x1F, 0x02, 0x04, 0x02, 0x01, 0x11, 0x0E],
        '4' => [0x02, 0x06, 0x0A, 0x12, 0x1F, 0x02, 0x02],
        '5' => [0x1F, 0x10, 0x1E, 0x01, 0x01, 0x11, 0x0E],
        '6' => [0x06, 0x08, 0x10, 0x1E, 0x11, 0x11, 0x0E],
        '7' => [0x1F, 0x01, 0x02, 0x04, 0x08, 0x08, 0x08],
        '8' => [0x0E, 0x11, 0x11, 0x0E, 0x11, 0x11, 0x0E],
        '9' => [0x0E, 0x11, 0x11, 0x0F, 0x01, 0x02, 0x0C],
        'A' => [0x0E, 0x11, 0x11, 0x1F, 0x11, 0x11, 0x11],
        'B' => [0x1E, 0x11, 0x11, 0x1E, 0x11, 0x11, 0x1E],
        'C' => [0x0E, 0x11, 0x10, 0x10, 0x10, 0x11, 0x0E],
        'D' => [0x1C, 0x12, 0x11, 0x11, 0x11, 0x12, 0x1C],
        'E' => [0x1F, 0x10, 0x10, 0x1E, 0x10, 0x10, 0x1F],
        'F' => [0x1F, 0x10, 0x10, 0x1E, 0x10, 0x10, 0x10],
        'G' => [0x0E, 0x11, 0x10, 0x17, 0x11, 0x11, 0x0F],
        'H' => [0x11, 0x11, 0x11, 0x1F, 0x11, 0x11, 0x11],
        'I' => [0x0E, 0x04, 0x04, 0x04, 0x04, 0x04, 0x0E],
        'J' => [0x07, 0x02, 0x02, 0x02, 0x02, 0x12, 0x0C],
        'K' => [0x11, 0x12, 0x14, 0x18, 0x14, 0x12, 0x11],
        'L' => [0x10, 0x10, 0x10, 0x10, 0x10, 0x10, 0x1F],
        'M' => [0x11, 0x1B, 0x15, 0x15, 0x11, 0x11, 0x11],
        'N' => [0x11, 0x11, 0x19, 0x15, 0x13, 0x11, 0x11],
        'O' => [0x0E, 0x11, 0x11, 0x11, 0x11, 0x11, 0x0E],
        'P' => [0x1E, 0x11, 0x11, 0x1E, 0x10, 0x10, 0x10],
        'Q' => [0x0E, 0x11, 0x11, 0x11, 0x15, 0x12, 0x0D],
        'R' => [0x1E, 0x11, 0x11, 0x1E, 0x14, 0x12, 0x11],
        'S' => [0x0F, 0x10, 0x10, 0x0E, 0x01, 0x01, 0x1E],
        'T' => [0x1F, 0x04, 0x04, 0x04, 0x04, 0x04, 0x04],
        'U' => [0x11, 0x11, 0x11, 0x11, 0x11, 0x11, 0x0E],
        'V' => [0x11, 0x11, 0x11, 0x11, 0x11, 0x0A, 0x04],
        'W' => [0x11, 0x11, 0x11, 0x15, 0x15, 0x15, 0x0A],
        'X' => [0x11, 0x11, 0x0A, 0x04, 0x0A, 0x11, 0x11],
        'Y' => [0x11, 0x11, 0x0A, 0x04, 0x04, 0x04, 0x04],
        'Z' => [0x1F, 0x01, 0x02, 0x04, 0x08, 0x10, 0x1F],
        'a' => [0x00, 0x00, 0x0E, 0x01, 0x0F, 0x11, 0x0F],
        'b' => [0x10, 0x10, 0x16, 0x19, 0x11, 0x11, 0x1E],
        'c' => [0x00, 0x00, 0x0E, 0x10, 0x10, 0x11, 0x0E],
        'd' => [0x01, 0x01, 0x0D, 0x13, 0x11, 0x11, 0x0F],
        'e' => [0x00, 0x00, 0x0E, 0x11, 0x1F, 0x10, 0x0E],
        'f' => [0x06, 0x09, 0x08, 0x1C, 0x08, 0x08, 0x08],
        'g' => [0x00, 0x0F, 0x11, 0x11, 0x0F, 0x01, 0x0E],
        'h' => [0x10, 0x10, 0x16, 0x19, 0x11, 0x11, 0x11],
        'i' => [0x04, 0x00, 0x0C, 0x04, 0x04, 0x04, 0x0E],
        'j' => [0x02, 0x00, 0x06, 0x02, 0x02, 0x12, 0x0C],
        'k' => [0x10, 0x10, 0x12, 0x14, 0x18, 0x14, 0x12],
        'l' => [0x0C, 0x04, 0x04, 0x04, 0x04, 0x04, 0x0E],
        'm' => [0x00, 0x00, 0x1A, 0x15, 0x15, 0x11, 0x11],
        'n' => [0x00, 0x00, 0x16, 0x19, 0x11, 0x11, 0x11],
        'o' => [0x00, 0x00, 0x0E, 0x11, 0x11, 0x11, 0x0E],
        'p' => [0x00, 0x00, 0x1E, 0x11, 0x1E, 0x10, 0x10],
        'q' => [0x00, 0x00, 0x0D, 0x13, 0x0F, 0x01, 0x01],
        'r' => [0x00, 0x00, 0x16, 0x19, 0x10, 0x10, 0x10],
        's' => [0x00, 0x00, 0x0E, 0x10, 0x0E, 0x01, 0x1E],
        't' => [0x08, 0x08, 0x1C, 0x08, 0x08, 0x09, 0x06],
        'u' => [0x00, 0x00, 0x11, 0x11, 0x11, 0x13, 0x0D],
        'v' => [0x00, 0x00, 0x11, 0x11, 0x11, 0x0A, 0x04],
        'w' => [0x00, 0x00, 0x11, 0x11, 0x15, 0x15, 0x0A],
        'x' => [0x00, 0x00, 0x11, 0x0A, 0x04, 0x0A, 0x11],
        'y' => [0x00, 0x00, 0x11, 0x11, 0x0F, 0x01, 0x0E],
        'z' => [0x00, 0x00, 0x1F, 0x02, 0x04, 0x08, 0x1F],
        ' ' => [0x00, 0x00, 0x00, 0x00, 0x00, 0x00, 0x00],
        ':' => [0x00, 0x0C, 0x0C, 0x00, 0x0C, 0x0C, 0x00],
        '.' => [0x00, 0x00, 0x00, 0x00, 0x00, 0x0C, 0x0C],
        ',' => [0x00, 0x00, 0x00, 0x00, 0x04, 0x04, 0x08],
        '/' => [0x00, 0x01, 0x02, 0x04, 0x08, 0x10, 0x00],
        '-' => [0x00, 0x00, 0x00, 0x1F, 0x00, 0x00, 0x00],
        '+' => [0x00, 0x04, 0x04, 0x1F, 0x04, 0x04, 0x00],
        '(' => [0x02, 0x04, 0x08, 0x08, 0x08, 0x04, 0x02],
        ')' => [0x08, 0x04, 0x02, 0x02, 0x02, 0x04, 0x08],
        '!' => [0x04, 0x04, 0x04, 0x04, 0x00, 0x00, 0x04],
        '\'' => [0x04, 0x04, 0x08, 0x00, 0x00, 0x00, 0x00],
        '%' => [0x18, 0x19, 0x02, 0x04, 0x08, 0x13, 0x03],
        '=' => [0x00, 0x00, 0x1F, 0x00, 0x1F, 0x00, 0x00],
        '[' => [0x0C, 0x08, 0x08, 0x08, 0x08, 0x08, 0x0C],
        ']' => [0x06, 0x02, 0x02, 0x02, 0x02, 0x02, 0x06],
        '#' => [0x0A, 0x0A, 0x1F, 0x0A, 0x1F, 0x0A, 0x0A],
        '>' => [0x10, 0x08, 0x04, 0x02, 0x04, 0x08, 0x10],
        '<' => [0x01, 0x02, 0x04, 0x08, 0x04, 0x02, 0x01],
        '*' => [0x00, 0x0A, 0x04, 0x1F, 0x04, 0x0A, 0x00],
        '@' => [0x0E, 0x11, 0x17, 0x15, 0x17, 0x10, 0x0E],
        '|' => [0x04, 0x04, 0x04, 0x04, 0x04, 0x04, 0x04],
        _ => [0x1F, 0x11, 0x11, 0x11, 0x11, 0x11, 0x1F],
    }
}

/// Every glyph row uses only its five low bits.
pub proof fn lemma_glyph_rows_fit(c: char)
    ensures
        forall|r: int| 0 <= r < 7 ==> #[trigger] glyph_of(c)[r] < 32,
{
}

/// Place value of pixel column `col` (0 is the leftmost) in a glyph row.
pub open spec fn column_weight(col: int) -> int {
    if col == 0 {
        16
    } else if col == 1 {
        8
    } else if col == 2 {
        4
    } else if col == 3 {
        2
    } else {
        1
    }
}

/// Whether the pixel in row `row` and column `col` of the glyph of `c` is lit.
pub open spec fn glyph_lit(c: char, row: int, col: int) -> bool {
    &&& 0 <= row < 7
    &&& 0 <= col < 5
    &&& (glyph_of(c)[row] as int / column_weight(col)) % 2 == 1
}

/// The test `glyph_lit` as a predicate on (row, column) pairs.
pub open spec fn lit_in(c: char) -> spec_fn((int, int)) -> bool {
    |p: (int, int)| glyph_lit(c, p.0, p.1)
}

/// The 35 pixel positions of a glyph as (row, column), row by row from
/// the top, each row left to right.
pub open spec fn glyph_positions() -> Seq<(int, int)> {
    Seq::new(35, |i: int| (i / 5, i % 5))
}

/// The lit pixels of the glyph of `c`, in the order of `glyph_positions`.
pub open spec fn glyph_cells_of(c: char) -> Seq<(int, int)> {
    glyph_positions().filter(lit_in(c))
}

/// A pixel position taken as a pair of integers.
pub open spec fn cell_as_int(p: (usize, usize)) -> (int, int) {
    (p.0 as int, p.1 as int)
}

/// The lit pixels of the glyph of `c` as (row, column) pairs, row by row
/// from the top and left to right within a row.
pub fn glyph_cells(c: char) -> (cells: Vec<(usize, usize)>)
    ensures
        cells@.map_values(|p: (usize, usize)| cell_as_int(p)) == glyph_cells_of(c),
{
    let g = font_glyph(c);
    let mut cells: Vec<(usize, usize)> = Vec::new();
    let mut row: usize = 0;
    while row < 7
        invariant
            row <= 7,
            g == glyph_of(c),
            cells@.map_values(|p: (usize, usize)| cell_as_int(p))
                == glyph_positions().take(5 * row as int).filter(lit_in(c)),
        decreases 7 - row,
    {
        let mut col: usize = 0;
        while col < 5
            invariant
                row < 7,
                col <= 5,
                g == glyph_of(c),
                cells@.map_values(|p: (usize, usize)| cell_as_int(p))
                    == glyph_positions().take(5 * row + col).filter(lit_in(c)),
            decreases 5 - col,
        {
            let weight: u8 = if col == 0 {
                16
            } else if col == 1 {
                8
            } else if col == 2 {
                4
            } else if col == 3 {
                2
            } else {
                1
            };
            let lit = (g[row] / weight) % 2 == 1;
            let ghost k: int = 5 * row + col;
            let ghost before = cells@;
            proof {
                assert(k / 5 == row as int && k % 5 == col as int) by (nonlinear_arith)
                    requires
                        k == 5 * row + col,
                        col < 5,
                ;
                let ps = glyph_positions().take(k + 1);
                assert(ps.drop_last() =~= glyph_positions().take(k));
                assert(ps.last() == (row as int, col as int));
                assert(lit == glyph_lit(c, row as int, col as int));
                assert(ps.len() == k + 1);
                reveal(Seq::filter);
                if lit {
                    assert(ps.filter(lit_in(c)) == glyph_positions().take(k).filter(lit_in(c)).push(
                        (row as int, col as int),
                    ));
                } else {
                    assert(ps.filter(lit_in(c)) == glyph_positions().take(k).filter(lit_in(c)));
                }
            }
            if lit {
                cells.push((row, col));
                proof {
                    assert(cells@.map_values(|p: (usize, usize)| cell_as_int(p)) =~= before.map_values(
                        |p: (usize, usize)| cell_as_int(p),
                    ).push((row as int, col as int)));
                }
            }
            col = col + 1;
        }
        row = row + 1;
    }
    proof {
        assert(glyph_positions().take(35) =~= glyph_positions());
    }
    cells
}

} // verus!
