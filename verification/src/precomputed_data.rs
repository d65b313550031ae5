use vstd::prelude::*;

use crate::directions::{dir_offset, file_delta, rank_delta, DirectionName};

verus! {

/// Rank of a row-major square index.
pub open spec fn rank_of(pos: int) -> int {
    pos / 8
}

/// File of a row-major square index.
pub open spec fn file_of(pos: int) -> int {
    pos % 8
}

pub open spec fn on_board(rank: int, file: int) -> bool {
    0 <= rank < 8 && 0 <= file < 8
}

pub open spec fn min_int(a: int, b: int) -> int {
    if a <= b {
        a
    } else {
        b
    }
}

/// Steps from a square to the board edge in one direction: the four
/// primary distances come straight from the rank and file, and each
/// diagonal distance is the minimum of its two primary neighbours.
pub open spec fn edge_dist(pos: int, d: DirectionName) -> int {
    let n = rank_of(pos);
    let s = 7 - rank_of(pos);
    let e = 7 - file_of(pos);
    let w = file_of(pos);
    match d {
        DirectionName::North => n,
        DirectionName::South => s,
        DirectionName::East => e,
        DirectionName::West => w,
        DirectionName::NorthEast => min_int(n, e),
        DirectionName::NorthWest => min_int(n, w),
        DirectionName::SouthEast => min_int(s, e),
        DirectionName::SouthWest => min_int(s, w),
    }
}

/// Rank of the square n same-direction steps away.
pub open spec fn step_rank(pos: int, d: DirectionName, n: int) -> int {
    rank_of(pos) + n * rank_delta(d)
}

/// File of the square n same-direction steps away.
pub open spec fn step_file(pos: int, d: DirectionName, n: int) -> int {
    file_of(pos) + n * file_delta(d)
}

/// Edge distances are exact: every distance lies in 0..=7, each of that
/// many same-direction steps stays inside the 8-by-8 bounds, and one step
/// more leaves them.
pub proof fn lemma_edge_distance_exact(pos: int, d: DirectionName)
    requires
        0 <= pos < 64,
    ensures
        0 <= edge_dist(pos, d) <= 7,
        forall|n: int|
            0 <= n <= edge_dist(pos, d) ==> on_board(
                #[trigger] step_rank(pos, d, n),
                step_file(pos, d, n),
            ),
        !on_board(
            step_rank(pos, d, edge_dist(pos, d) + 1),
            step_file(pos, d, edge_dist(pos, d) + 1),
        ),
{
    let r = rank_of(pos);
    let f = file_of(pos);
    assert(0 <= r < 8 && 0 <= f < 8);
    let dr = rank_delta(d);
    let df = file_delta(d);
    assert forall|n: int| 0 <= n <= edge_dist(pos, d) implies on_board(
        #[trigger] step_rank(pos, d, n),
        step_file(pos, d, n),
    ) by {
        assert(n * dr == if dr == 1 {
            n
        } else if dr == -1 {
            -n
        } else {
            0
        });
        assert(n * df == if df == 1 {
            n
        } else if df == -1 {
            -n
        } else {
            0
        });
    }
    let m = edge_dist(pos, d) + 1;
    assert(m * dr == if dr == 1 {
        m
    } else if dr == -1 {
        -m
    } else {
        0
    });
    assert(m * df == if df == 1 {
        m
    } else if df == -1 {
        -m
    } else {
        0
    });
}

/// Stepping n times within the edge distance keeps the row-major index on
/// the board, and the rank and file of the target decompose as the start
/// plus n direction deltas.
pub proof fn lemma_step_in_bounds(pos: int, d: DirectionName, n: int)
    requires
        0 <= pos < 64,
        0 <= n <= edge_dist(pos, d),
    ensures
        0 <= pos + n * dir_offset(d) < 64,
        rank_of(pos + n * dir_offset(d)) == rank_of(pos) + n * rank_delta(d),
        file_of(pos + n * dir_offset(d)) == file_of(pos) + n * file_delta(d),
{
    let r = rank_of(pos);
    let f = file_of(pos);
    let dr = rank_delta(d);
    let df = file_delta(d);
    lemma_edge_distance_exact(pos, d);
    assert(on_board(r + n * dr, f + n * df));
    assert(pos == 8 * r + f);
    assert(n * dir_offset(d) == 8 * (n * dr) + n * df) by {
        assert(n * (8 * dr + df) == 8 * (n * dr) + n * df) by (nonlinear_arith);
    }
    let r2 = r + n * dr;
    let f2 = f + n * df;
    let pos2 = pos + n * dir_offset(d);
    assert(pos2 == 8 * r2 + f2);
    assert(rank_of(pos2) == r2 && file_of(pos2) == f2) by {
        assert((8 * r2 + f2) / 8 == r2 && (8 * r2 + f2) % 8 == f2) by (nonlinear_arith)
            requires
                0 <= f2 < 8,
        ;
    }
}

/// The eight edge distances of one square, kept as plain fields.
#[derive(Debug, Clone, Copy, PartialEq, Eq, Structural)]
pub struct MovesToEdge {
    pub north: i32,
    pub north_west: i32,
    pub north_east: i32,
    pub south: i32,
    pub south_east: i32,
    pub south_west: i32,
    pub east: i32,
    pub west: i32,
}

impl MovesToEdge {
    /// The entry holds the edge distances of the square `pos`.
    pub open spec fn is_for(self, pos: int) -> bool {
        &&& self.north == edge_dist(pos, DirectionName::North)
        &&& self.north_west == edge_dist(pos, DirectionName::NorthWest)
        &&& self.north_east == edge_dist(pos, DirectionName::NorthEast)
        &&& self.south == edge_dist(pos, DirectionName::South)
        &&& self.south_east == edge_dist(pos, DirectionName::SouthEast)
        &&& self.south_west == edge_dist(pos, DirectionName::SouthWest)
        &&& self.east == edge_dist(pos, DirectionName::East)
        &&& self.west == edge_dist(pos, DirectionName::West)
    }

    pub fn new(file: i32, rank: i32) -> (r: Self)
        requires
            0 <= file < 8,
            0 <= rank < 8,
        ensures
            r.is_for(rank * 8 + file),
    {
        let south = 7 - rank;
        let north = rank;
        let east = 7 - file;
        let west = file;
        let r = MovesToEdge {
            north,
            south,
            east,
            west,
            north_east: if north <= east { north } else { east },
            north_west: if north <= west { north } else { west },
            south_west: if south <= west { south } else { west },
            south_east: if south <= east { south } else { east },
        };
        proof {
            let pos = rank * 8 + file;
            assert(rank_of(pos) == rank && file_of(pos) == file) by {
                assert((rank * 8 + file) / 8 == rank && (rank * 8 + file) % 8 == file)
                    by (nonlinear_arith)
                    requires
                        0 <= file < 8,
                        0 <= rank < 8,
                ;
            }
        }
        r
    }

    pub fn get(&self, key: DirectionName) -> (r: i32)
        ensures
            forall|pos: int| self.is_for(pos) ==> r == edge_dist(pos, key),
    {
        match key {
            DirectionName::North => self.north,
            DirectionName::NorthWest => self.north_west,
            DirectionName::NorthEast => self.north_east,
            DirectionName::South => self.south,
            DirectionName::SouthEast => self.south_east,
            DirectionName::SouthWest => self.south_west,
            DirectionName::East => self.east,
            DirectionName::West => self.west,
        }
    }
}

/// The geometry table: per-square edge distances for all eight compass
/// directions, built once and immutable thereafter.
pub struct PrecomputedData {
    pub moves_to_edge: Vec<MovesToEdge>,
}

impl PrecomputedData {
    /// The table holds one correct entry for each of the 64 squares.
    pub open spec fn wf(self) -> bool {
        &&& self.moves_to_edge@.len() == 64
        &&& forall|pos: int|
            0 <= pos < 64 ==> (#[trigger] self.moves_to_edge@[pos]).is_for(pos)
    }

    pub fn calculate() -> (r: Self)
        ensures
            r.wf(),
    {
        let mut table: Vec<MovesToEdge> = Vec::new();
        let mut rank: i32 = 0;
        while rank < 8
            invariant
                0 <= rank <= 8,
                table@.len() == rank * 8,
                forall|pos: int| 0 <= pos < table@.len() ==> (#[trigger] table@[pos]).is_for(pos),
            decreases 8 - rank,
        {
            let mut file: i32 = 0;
            while file < 8
                invariant
                    0 <= rank < 8,
                    0 <= file <= 8,
                    table@.len() == rank * 8 + file,
                    forall|pos: int|
                        0 <= pos < table@.len() ==> (#[trigger] table@[pos]).is_for(pos),
                decreases 8 - file,
            {
                let entry = MovesToEdge::new(file, rank);
                table.push(entry);
                file = file + 1;
            }
            rank = rank + 1;
        }
        PrecomputedData { moves_to_edge: table }
    }

    /// O(1) lookup of the precomputed edge distance of a square.
    pub fn get_edge_distance(&self, pos: i32, direction: DirectionName) -> (r: i32)
        requires
            self.wf(),
            0 <= pos < 64,
        ensures
            r == edge_dist(pos as int, direction),
    {
        self.moves_to_edge[pos as usize].get(direction)
    }
}

impl Default for PrecomputedData {
    fn default() -> (r: Self)
        ensures
            r.wf(),
    {
        PrecomputedData::calculate()
    }
}

} // verus!
