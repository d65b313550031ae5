use vstd::prelude::*;

use crate::piece::PieceType;

verus! {

pub const EAST: i32 = 1;

pub const WEST: i32 = -1;

pub const NORTH: i32 = -8;

pub const NORTH_WEST: i32 = NORTH + WEST;

pub const NORTH_EAST: i32 = NORTH + EAST;

pub const SOUTH: i32 = 8;

pub const SOUTH_WEST: i32 = SOUTH + WEST;

pub const SOUTH_EAST: i32 = SOUTH + EAST;

/// A closed tag for the eight compass directions. Board storage is
/// row-major starting at rank 0, so north (toward rank 0) steps by -8
/// and south by +8.
#[derive(Debug, Clone, Copy, PartialEq, Eq, Structural)]
pub enum DirectionName {
    North,
    NorthEast,
    East,
    SouthEast,
    South,
    SouthWest,
    West,
    NorthWest,
}

/// How one step in the direction changes the rank.
pub open spec fn rank_delta(d: DirectionName) -> int {
    match d {
        DirectionName::North => -1,
        DirectionName::NorthEast => -1,
        DirectionName::East => 0,
        DirectionName::SouthEast => 1,
        DirectionName::South => 1,
        DirectionName::SouthWest => 1,
        DirectionName::West => 0,
        DirectionName::NorthWest => -1,
    }
}

/// How one step in the direction changes the file.
pub open spec fn file_delta(d: DirectionName) -> int {
    match d {
        DirectionName::North => 0,
        DirectionName::NorthEast => 1,
        DirectionName::East => 1,
        DirectionName::SouthEast => 1,
        DirectionName::South => 0,
        DirectionName::SouthWest => -1,
        DirectionName::West => -1,
        DirectionName::NorthWest => -1,
    }
}

/// How one step in the direction changes a row-major square index.
pub open spec fn dir_offset(d: DirectionName) -> int {
    8 * rank_delta(d) + file_delta(d)
}

/// A travel direction a piece may take: its compass tag, the index offset
/// of one step, and how many consecutive steps the owning piece may take.
#[derive(Debug, Clone, Copy, PartialEq, Eq, Structural)]
pub struct Direction {
    pub name: DirectionName,
    pub offset: i32,
    pub limit: i32,
}

/// A direction entry whose offset matches its compass tag.
pub open spec fn mk_dir(name: DirectionName, limit: int) -> Direction {
    Direction { name, offset: dir_offset(name) as i32, limit: limit as i32 }
}

impl Direction {
    pub fn new(name: DirectionName, offset: i32, limit: i32) -> (r: Self)
        ensures
            r == (Direction { name, offset, limit }),
    {
        Direction { name, offset, limit }
    }
}

pub open spec fn rook_directions() -> Seq<Direction> {
    seq![
        mk_dir(DirectionName::North, 8),
        mk_dir(DirectionName::East, 8),
        mk_dir(DirectionName::South, 8),
        mk_dir(DirectionName::West, 8),
    ]
}

pub open spec fn bishop_directions() -> Seq<Direction> {
    seq![
        mk_dir(DirectionName::NorthEast, 8),
        mk_dir(DirectionName::NorthWest, 8),
        mk_dir(DirectionName::SouthEast, 8),
        mk_dir(DirectionName::SouthWest, 8),
    ]
}

/// The direction catalogue per piece kind and colour. Pawns get one
/// forward direction with limit 2 (push and conditional double push) and
/// two diagonals with limit 1; white pawns sit at low ranks and move
/// south (+8), black pawns move north (-8). Knights reuse the rook
/// directions as an orthogonal basis for the 2-then-1 decomposition.
/// Sliders get an effectively unbounded limit; the king all eight
/// directions with limit 1.
pub open spec fn piece_directions(piece_type: PieceType, is_white: bool) -> Seq<Direction> {
    match piece_type {
        PieceType::Pawn => if is_white {
            seq![
                mk_dir(DirectionName::South, 2),
                mk_dir(DirectionName::SouthEast, 1),
                mk_dir(DirectionName::SouthWest, 1),
            ]
        } else {
            seq![
                mk_dir(DirectionName::North, 2),
                mk_dir(DirectionName::NorthEast, 1),
                mk_dir(DirectionName::NorthWest, 1),
            ]
        },
        PieceType::Knight => rook_directions(),
        PieceType::Bishop => bishop_directions(),
        PieceType::Rook => rook_directions(),
        PieceType::Queen => bishop_directions() + rook_directions(),
        PieceType::King => seq![
            mk_dir(DirectionName::North, 1),
            mk_dir(DirectionName::East, 1),
            mk_dir(DirectionName::South, 1),
            mk_dir(DirectionName::West, 1),
            mk_dir(DirectionName::NorthEast, 1),
            mk_dir(DirectionName::NorthWest, 1),
            mk_dir(DirectionName::SouthEast, 1),
            mk_dir(DirectionName::SouthWest, 1),
        ],
        PieceType::Empty => Seq::empty(),
    }
}

/// Every catalogue entry carries the offset of its own compass tag and a
/// step limit between 1 and 8.
pub proof fn lemma_piece_directions_wf(piece_type: PieceType, is_white: bool)
    ensures
        forall|i: int|
            0 <= i < piece_directions(piece_type, is_white).len()
                ==> (#[trigger] piece_directions(piece_type, is_white)[i]).offset == dir_offset(
                piece_directions(piece_type, is_white)[i].name,
            ) && 1 <= piece_directions(piece_type, is_white)[i].limit <= 8,
{
    let pd = piece_directions(piece_type, is_white);
    assert forall|i: int| 0 <= i < pd.len() implies (#[trigger] pd[i]).offset == dir_offset(
        pd[i].name,
    ) && 1 <= pd[i].limit <= 8 by {
        match piece_type {
            PieceType::Queen => {
                if i < 4 {
                    assert(pd[i] == bishop_directions()[i]);
                } else {
                    assert(pd[i] == rook_directions()[i - 4]);
                }
            },
            _ => {},
        }
    }
}

/// The executable direction catalogue; returns exactly the entries of
/// `piece_directions`, in order.
pub fn allowed_directions(piece_type: PieceType, is_white: bool) -> (r: Vec<Direction>)
    ensures
        r@ == piece_directions(piece_type, is_white),
{
    let mut r: Vec<Direction> = Vec::new();
    match piece_type {
        PieceType::Pawn => {
            if is_white {
                r.push(Direction::new(DirectionName::South, SOUTH, 2));
                r.push(Direction::new(DirectionName::SouthEast, SOUTH_EAST, 1));
                r.push(Direction::new(DirectionName::SouthWest, SOUTH_WEST, 1));
            } else {
                r.push(Direction::new(DirectionName::North, NORTH, 2));
                r.push(Direction::new(DirectionName::NorthEast, NORTH_EAST, 1));
                r.push(Direction::new(DirectionName::NorthWest, NORTH_WEST, 1));
            }
        },
        PieceType::Knight | PieceType::Rook => {
            push_rook_directions(&mut r);
        },
        PieceType::Bishop => {
            push_bishop_directions(&mut r);
        },
        PieceType::Queen => {
            push_bishop_directions(&mut r);
            push_rook_directions(&mut r);
        },
        PieceType::King => {
            r.push(Direction::new(DirectionName::North, NORTH, 1));
            r.push(Direction::new(DirectionName::East, EAST, 1));
            r.push(Direction::new(DirectionName::South, SOUTH, 1));
            r.push(Direction::new(DirectionName::West, WEST, 1));
            r.push(Direction::new(DirectionName::NorthEast, NORTH_EAST, 1));
            r.push(Direction::new(DirectionName::NorthWest, NORTH_WEST, 1));
            r.push(Direction::new(DirectionName::SouthEast, SOUTH_EAST, 1));
            r.push(Direction::new(DirectionName::SouthWest, SOUTH_WEST, 1));
        },
        PieceType::Empty => {},
    }
    assert(r@ =~= piece_directions(piece_type, is_white));
    r
}

fn push_rook_directions(r: &mut Vec<Direction>)
    ensures
        final(r)@ == old(r)@ + rook_directions(),
{
    r.push(Direction::new(DirectionName::North, NORTH, 8));
    r.push(Direction::new(DirectionName::East, EAST, 8));
    r.push(Direction::new(DirectionName::South, SOUTH, 8));
    r.push(Direction::new(DirectionName::West, WEST, 8));
    assert(r@ =~= old(r)@ + rook_directions());
}

fn push_bishop_directions(r: &mut Vec<Direction>)
    ensures
        final(r)@ == old(r)@ + bishop_directions(),
{
    r.push(Direction::new(DirectionName::NorthEast, NORTH_EAST, 8));
    r.push(Direction::new(DirectionName::NorthWest, NORTH_WEST, 8));
    r.push(Direction::new(DirectionName::SouthEast, SOUTH_EAST, 8));
    r.push(Direction::new(DirectionName::SouthWest, SOUTH_WEST, 8));
    assert(r@ =~= old(r)@ + bishop_directions());
}

} // verus!
