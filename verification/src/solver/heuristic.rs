//! Cube hashing and the search heuristic.
use vstd::prelude::*;
use crate::cube::{
    apply_all, face_number, face_with_number, is_solved_cube, Move, lemma_grid_ext, opposite_faces, uniform, Face,
    Grid, RubiksCube,
};
use crate::solver::endgame::EndgameTable;
use crate::solver::Solver;

verus! {

/// FNV-1a offset basis.
pub const FNV_OFFSET: u64 = 0xcbf29ce484222325;

/// FNV-1a prime.
pub const FNV_PRIME: u64 = 0x100000001b3;

/// One FNV-1a step over a sticker, coded by its face number.
pub open spec fn fnv_step(h: u64, f: Face) -> u64 {
    (h ^ (face_number(f) as u64)).wrapping_mul(FNV_PRIME)
}

/// Hash state after the first `k` stickers of a row.
pub open spec fn hash_cells(h: u64, row: [Face; 3], k: int) -> u64
    decreases k,
{
    if k <= 0 {
        h
    } else {
        fnv_step(hash_cells(h, row, k - 1), row[k - 1])
    }
}

/// Hash state after the first `k` rows of a grid.
pub open spec fn hash_rows(h: u64, g: Grid, k: int) -> u64
    decreases k,
{
    if k <= 0 {
        h
    } else {
        hash_cells(hash_rows(h, g, k - 1), g[k - 1], 3)
    }
}

/// Hash state after the first `k` faces, taken in the order Up, Down,
/// Front, Back, Right, Left.
pub open spec fn hash_faces(c: RubiksCube, k: int) -> u64
    decreases k,
{
    if k <= 0 {
        FNV_OFFSET
    } else {
        hash_rows(hash_faces(c, k - 1), c.grid(face_with_number(k - 1)), 3)
    }
}

/// FNV-1a hash of the 54 stickers, face by face, row by row.
pub open spec fn cube_hash_of(c: RubiksCube) -> u64 {
    hash_faces(c, 6)
}

/// Cost of one sticker: 0 on its own face, 2 on the opposite face, else 1.
pub open spec fn sticker_cost(cell: Face, home: Face) -> int {
    if cell == home {
        0
    } else if opposite_faces(cell, home) {
        2
    } else {
        1
    }
}

/// Cost of the first `k` stickers of a row on face `home`.
pub open spec fn row_cost(row: [Face; 3], home: Face, k: int) -> int
    decreases k,
{
    if k <= 0 {
        0
    } else {
        row_cost(row, home, k - 1) + sticker_cost(row[k - 1], home)
    }
}

/// Cost of the first `k` rows of a grid on face `home`.
pub open spec fn grid_cost(g: Grid, home: Face, k: int) -> int
    decreases k,
{
    if k <= 0 {
        0
    } else {
        grid_cost(g, home, k - 1) + row_cost(g[k - 1], home, 3)
    }
}

/// Cost of the first `k` faces.
pub open spec fn faces_cost(c: RubiksCube, k: int) -> int
    decreases k,
{
    if k <= 0 {
        0
    } else {
        faces_cost(c, k - 1) + grid_cost(c.grid(face_with_number(k - 1)), face_with_number(k - 1), 3)
    }
}

/// Sum of sticker costs over the whole cube.
pub open spec fn raw_distance_of(c: RubiksCube) -> int {
    faces_cost(c, 6)
}

proof fn lemma_row_cost_bounds(row: [Face; 3], home: Face, k: int)
    requires
        0 <= k <= 3,
    ensures
        0 <= row_cost(row, home, k) <= 2 * k,
    decreases k,
{
    if k > 0 {
        lemma_row_cost_bounds(row, home, k - 1);
    }
}

proof fn lemma_grid_cost_bounds(g: Grid, home: Face, k: int)
    requires
        0 <= k <= 3,
    ensures
        0 <= grid_cost(g, home, k) <= 6 * k,
    decreases k,
{
    if k > 0 {
        lemma_grid_cost_bounds(g, home, k - 1);
        lemma_row_cost_bounds(g[k - 1], home, 3);
    }
}

proof fn lemma_faces_cost_bounds(c: RubiksCube, k: int)
    requires
        0 <= k <= 6,
    ensures
        0 <= faces_cost(c, k) <= 18 * k,
    decreases k,
{
    if k > 0 {
        lemma_faces_cost_bounds(c, k - 1);
        lemma_grid_cost_bounds(c.grid(face_with_number(k - 1)), face_with_number(k - 1), 3);
    }
}

/// The raw distance lies between 0 and 108.
pub proof fn lemma_raw_distance_bounds(c: RubiksCube)
    ensures
        0 <= raw_distance_of(c) <= 108,
{
    lemma_faces_cost_bounds(c, 6);
}

proof fn lemma_row_cost_zero(row: [Face; 3], home: Face, k: int)
    requires
        0 <= k <= 3,
    ensures
        row_cost(row, home, k) == 0 <==> forall|j: int| 0 <= j < k ==> #[trigger] row[j] == home,
    decreases k,
{
    if k > 0 {
        lemma_row_cost_zero(row, home, k - 1);
        lemma_row_cost_bounds(row, home, k - 1);
    }
}

proof fn lemma_grid_cost_zero(g: Grid, home: Face, k: int)
    requires
        0 <= k <= 3,
    ensures
        grid_cost(g, home, k) == 0 <==> forall|i: int, j: int|
            0 <= i < k && 0 <= j < 3 ==> #[trigger] g[i][j] == home,
    decreases k,
{
    if k > 0 {
        lemma_grid_cost_zero(g, home, k - 1);
        lemma_grid_cost_bounds(g, home, k - 1);
        lemma_row_cost_zero(g[k - 1], home, 3);
        lemma_row_cost_bounds(g[k - 1], home, 3);
        if grid_cost(g, home, k) == 0 {
            assert forall|i: int, j: int| 0 <= i < k && 0 <= j < 3 implies #[trigger] g[i][j]
                == home by {
                if i == k - 1 {
                    assert(g[k - 1][j] == home);
                }
            }
        }
        if forall|i: int, j: int| 0 <= i < k && 0 <= j < 3 ==> #[trigger] g[i][j] == home {
            assert forall|j: int| 0 <= j < 3 implies #[trigger] g[k - 1][j] == home by {
                assert(g[k - 1][j] == home);
            }
            assert forall|i: int, j: int| 0 <= i < k - 1 && 0 <= j < 3 implies #[trigger] g[i][j]
                == home by {
                assert(g[i][j] == home);
            }
        }
    }
}

proof fn lemma_faces_cost_zero(c: RubiksCube, k: int)
    requires
        0 <= k <= 6,
    ensures
        faces_cost(c, k) == 0 <==> forall|fi: int|
            0 <= fi < k ==> #[trigger] c.grid(face_with_number(fi)) == uniform(face_with_number(fi)),
    decreases k,
{
    if k > 0 {
        lemma_faces_cost_zero(c, k - 1);
        lemma_faces_cost_bounds(c, k - 1);
        let f = face_with_number(k - 1);
        let g = c.grid(f);
        lemma_grid_cost_bounds(g, f, 3);
        lemma_grid_cost_zero(g, f, 3);
        if grid_cost(g, f, 3) == 0 {
            lemma_grid_ext(g, uniform(f));
        }
        if g == uniform(f) {
            assert forall|i: int, j: int| 0 <= i < 3 && 0 <= j < 3 implies #[trigger] g[i][j]
                == f by {
                assert(uniform(f)[i][j] == f);
            }
        }
    }
}

proof fn lemma_grid_cost_centred(g: Grid, home: Face)
    requires
        g[1][1] == home,
    ensures
        grid_cost(g, home, 3) <= 16,
{
    lemma_row_cost_bounds(g[0], home, 3);
    lemma_row_cost_bounds(g[2], home, 3);
    lemma_row_cost_bounds(g[1], home, 1);
    assert(row_cost(g[1], home, 2) == row_cost(g[1], home, 1));
    assert(row_cost(g[1], home, 3) == row_cost(g[1], home, 2) + sticker_cost(g[1][2], home));
    assert(grid_cost(g, home, 0) == 0);
    assert(grid_cost(g, home, 1) == row_cost(g[0], home, 3));
    assert(grid_cost(g, home, 2) == grid_cost(g, home, 1) + row_cost(g[1], home, 3));
    assert(grid_cost(g, home, 3) == grid_cost(g, home, 2) + row_cost(g[2], home, 3));
}

proof fn lemma_faces_cost_centred(c: RubiksCube, k: int)
    requires
        0 <= k <= 6,
        forall|f: Face| #[trigger] c.grid(f)[1][1] == f,
    ensures
        faces_cost(c, k) <= 16 * k,
    decreases k,
{
    if k > 0 {
        lemma_faces_cost_centred(c, k - 1);
        let f = face_with_number(k - 1);
        assert(c.grid(f)[1][1] == f);
        lemma_grid_cost_centred(c.grid(f), f);
    }
}

/// Every cube reached from the solved cube has a raw distance of at most 96:
/// its six centre stickers never move, and each other sticker costs at most 2.
pub proof fn lemma_raw_distance_reachable(ms: Seq<Move>)
    ensures
        raw_distance_of(apply_all(RubiksCube::solved(), ms)) <= 96,
{
    let c = apply_all(RubiksCube::solved(), ms);
    assert forall|f: Face| #[trigger] c.grid(f)[1][1] == f by {
        crate::cube::lemma_reachable_centres(ms, f);
    }
    lemma_faces_cost_centred(c, 6);
}

/// The raw distance is zero exactly on the solved cube.
pub proof fn lemma_raw_distance_zero_iff_solved(c: RubiksCube)
    ensures
        raw_distance_of(c) == 0 <==> is_solved_cube(c),
{
    lemma_faces_cost_zero(c, 6);
    RubiksCube::lemma_solved_grids(c);
    if raw_distance_of(c) == 0 {
        assert forall|f: Face| #[trigger] c.grid(f) == uniform(f) by {
            assert(c.grid(face_with_number(face_number(f))) == uniform(face_with_number(
                face_number(f),
            )));
        }
    }
    if is_solved_cube(c) {
        assert forall|fi: int| 0 <= fi < 6 implies #[trigger] c.grid(face_with_number(fi))
            == uniform(face_with_number(fi)) by {
            assert(RubiksCube::solved().grid(face_with_number(fi)) == uniform(face_with_number(fi)));
        }
    }
}

/// The estimate is zero exactly on the solved cube, for any table that
/// records the solved cube at distance zero (as `EndgameTable::build` does):
/// the search stops at the solved cube and nowhere else.
pub proof fn lemma_heuristic_zero_iff_solved(table: EndgameTable, c: RubiksCube)
    requires
        table@.contains_key(cube_hash_of(RubiksCube::solved())),
        table@[cube_hash_of(RubiksCube::solved())] == 0,
    ensures
        heuristic_of(table, c) == 0 <==> is_solved_cube(c),
{
    lemma_raw_distance_zero_iff_solved(c);
    lemma_raw_distance_bounds(c);
}

/// Number 0..6 of a face, as the hash codes it.
fn face_code(f: Face) -> (code: u64)
    ensures
        code == face_number(f),
{
    match f {
        Face::Up => 0,
        Face::Down => 1,
        Face::Front => 2,
        Face::Back => 3,
        Face::Right => 4,
        Face::Left => 5,
    }
}

/// The face with number `i`, in the order Up, Down, Front, Back, Right, Left.
fn face_at(i: usize) -> (f: Face)
    requires
        i < 6,
    ensures
        f == face_with_number(i as int),
{
    if i == 0 {
        Face::Up
    } else if i == 1 {
        Face::Down
    } else if i == 2 {
        Face::Front
    } else if i == 3 {
        Face::Back
    } else if i == 4 {
        Face::Right
    } else {
        Face::Left
    }
}

impl Solver {
    /// FNV-1a hash of the cube's stickers.
    pub fn cube_hash(cube: &RubiksCube) -> (h: u64)
        ensures
            h == cube_hash_of(*cube),
    {
        let mut h: u64 = FNV_OFFSET;
        let mut fi: usize = 0;
        while fi < 6
            invariant
                fi <= 6,
                h == hash_faces(*cube, fi as int),
            decreases 6 - fi,
        {
            let face = face_at(fi);
            let grid = cube.get_face(face);
            let ghost h_face = h;
            let mut r: usize = 0;
            while r < 3
                invariant
                    r <= 3,
                    h == hash_rows(h_face, *grid, r as int),
                decreases 3 - r,
            {
                let row = grid[r];
                let ghost h_row = h;
                let mut j: usize = 0;
                while j < 3
                    invariant
                        j <= 3,
                        row == grid[r as int],
                        h == hash_cells(h_row, row, j as int),
                    decreases 3 - j,
                {
                    h = h ^ face_code(row[j]);
                    h = h.wrapping_mul(FNV_PRIME);
                    j += 1;
                }
                r += 1;
            }
            fi += 1;
        }
        h
    }

    /// Whether `a` and `b` are opposite faces.
    fn faces_opposite(a: Face, b: Face) -> (o: bool)
        ensures
            o == opposite_faces(a, b),
    {
        match (a, b) {
            (Face::Up, Face::Down) | (Face::Down, Face::Up) | (Face::Front, Face::Back) | (
                Face::Back,
                Face::Front,
            ) | (Face::Right, Face::Left) | (Face::Left, Face::Right) => true,
            _ => false,
        }
    }

    /// Sum over all stickers of 0 (home), 1 (adjacent face) or 2 (opposite face).
    pub fn raw_distance(cube: &RubiksCube) -> (total: u32)
        ensures
            total == raw_distance_of(*cube),
    {
        let mut total: u32 = 0;
        let mut fi: usize = 0;
        while fi < 6
            invariant
                fi <= 6,
                total == faces_cost(*cube, fi as int),
                total <= 18 * fi,
            decreases 6 - fi,
        {
            let face = face_at(fi);
            let grid = cube.get_face(face);
            let ghost t_face = total as int;
            let mut r: usize = 0;
            while r < 3
                invariant
                    r <= 3,
                    fi < 6,
                    face == face_with_number(fi as int),
                    *grid == cube.grid(face),
                    t_face == faces_cost(*cube, fi as int),
                    t_face <= 18 * fi,
                    total == t_face + grid_cost(*grid, face, r as int),
                    total <= t_face + 6 * r,
                decreases 3 - r,
            {
                let row = grid[r];
                let ghost t_row = total as int;
                let mut j: usize = 0;
                while j < 3
                    invariant
                        j <= 3,
                        r < 3,
                        row == grid[r as int],
                        t_face <= 18 * fi,
                        fi < 6,
                        t_row <= t_face + 6 * r,
                        total == t_row + row_cost(row, face, j as int),
                        total <= t_row + 2 * j,
                    decreases 3 - j,
                {
                    let cell = row[j];
                    if cell != face {
                        total += if Self::faces_opposite(cell, face) {
                            2
                        } else {
                            1
                        };
                    }
                    j += 1;
                }
                r += 1;
            }
            fi += 1;
        }
        total
    }

    /// The heuristic estimate for `cube` (see `heuristic_of`).
    pub fn heuristic_with_table(cube: &RubiksCube, table: &EndgameTable) -> (h: u32)
        requires
            table.depth() < 255 || table@.contains_key(cube_hash_of(*cube)),
        ensures
            h == heuristic_of(*table, *cube),
            h <= 256,
    {
        let h_table = table.lookup(Self::cube_hash(cube));
        proof {
            lemma_raw_distance_bounds(*cube);
        }
        let h_raw = (Self::raw_distance(cube) + 3) / 4;
        if h_table >= h_raw {
            h_table
        } else {
            h_raw
        }
    }
}

/// The heuristic estimate: the larger of the endgame-table entry and the
/// raw distance divided by four, rounded up.
pub open spec fn heuristic_of(table: EndgameTable, c: RubiksCube) -> u32 {
    let t = table.lookup_of(cube_hash_of(c));
    let r = ((raw_distance_of(c) + 3) / 4) as u32;
    if t >= r {
        t
    } else {
        r
    }
}

} // verus!
