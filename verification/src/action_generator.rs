use vstd::prelude::*;

use crate::action::{normal_action, Action};
use crate::board::{lemma_occ_in_range, occ_squares, piece_is_color, Board};
use crate::directions::{
    allowed_directions, dir_offset, lemma_piece_directions_wf, piece_directions, Direction,
    DirectionName, EAST, NORTH, NORTH_EAST, NORTH_WEST, SOUTH, SOUTH_EAST, SOUTH_WEST, WEST,
};
use crate::error::ChessError;
use crate::piece::{Piece, PieceType};
use crate::precomputed_data::{
    edge_dist, lemma_edge_distance_exact, lemma_step_in_bounds, min_int, PrecomputedData,
};

verus! {

/// Neither colour occupies the square: the target of a pawn push must be
/// unoccupied by either side.
pub open spec fn square_free(cur: Seq<i32>, opp: Seq<i32>, sq: int) -> bool {
    !cur.contains(sq as i32) && !opp.contains(sq as i32)
}

/// Pawn actions from `pos`, in generation order: single push when the
/// push square is free of both colours, double push additionally when the
/// further square is also free and the pawn has never moved, then the two
/// diagonal captures, each only when its target is opponent-occupied.
/// Targets are plain offset arithmetic from the square index, as the
/// obstruction tests are membership tests against the occupancy lists.
pub open spec fn pawn_actions(
    cur: Seq<i32>,
    opp: Seq<i32>,
    pos: int,
    is_white: bool,
    has_moved: bool,
) -> Seq<Action> {
    let fwd: int = if is_white {
        8
    } else {
        -8
    };
    let diag_e: int = if is_white {
        9
    } else {
        -7
    };
    let diag_w: int = if is_white {
        7
    } else {
        -9
    };
    (if square_free(cur, opp, pos + fwd) {
        seq![normal_action(pos, pos + fwd)] + (if square_free(cur, opp, pos + 2 * fwd)
            && !has_moved {
            seq![normal_action(pos, pos + 2 * fwd)]
        } else {
            Seq::empty()
        })
    } else {
        Seq::empty()
    }) + (if opp.contains((pos + diag_e) as i32) {
        seq![normal_action(pos, pos + diag_e)]
    } else {
        Seq::empty()
    }) + (if opp.contains((pos + diag_w) as i32) {
        seq![normal_action(pos, pos + diag_w)]
    } else {
        Seq::empty()
    })
}

/// The first perpendicular of a knight's 2-step orthogonal basis
/// direction (west of a north/south step, north of an east/west step).
pub open spec fn knight_perp1(d: DirectionName) -> DirectionName {
    match d {
        DirectionName::North | DirectionName::South => DirectionName::West,
        _ => DirectionName::North,
    }
}

/// The second perpendicular of a knight's basis direction.
pub open spec fn knight_perp2(d: DirectionName) -> DirectionName {
    match d {
        DirectionName::North | DirectionName::South => DirectionName::East,
        _ => DirectionName::South,
    }
}

/// Knight actions through one orthogonal basis direction: the 2-square
/// step needs edge clearance of at least 2; each perpendicular 1-square
/// continuation needs nonzero clearance at the intermediate square and a
/// target not friendly-occupied (opponent-occupied targets are captures
/// and stay).
pub open spec fn knight_dir_actions(cur: Seq<i32>, pos: int, d: DirectionName) -> Seq<Action> {
    if edge_dist(pos, d) >= 2 {
        let mid = pos + 2 * dir_offset(d);
        let t1 = mid + dir_offset(knight_perp1(d));
        let t2 = mid + dir_offset(knight_perp2(d));
        (if edge_dist(mid, knight_perp1(d)) > 0 && !cur.contains(t1 as i32) {
            seq![normal_action(pos, t1)]
        } else {
            Seq::empty()
        }) + (if edge_dist(mid, knight_perp2(d)) > 0 && !cur.contains(t2 as i32) {
            seq![normal_action(pos, t2)]
        } else {
            Seq::empty()
        })
    } else {
        Seq::empty()
    }
}

/// All knight actions from `pos`, basis directions in rook order.
pub open spec fn knight_actions(cur: Seq<i32>, pos: int) -> Seq<Action> {
    knight_dir_actions(cur, pos, DirectionName::North) + knight_dir_actions(
        cur,
        pos,
        DirectionName::East,
    ) + knight_dir_actions(cur, pos, DirectionName::South) + knight_dir_actions(
        cur,
        pos,
        DirectionName::West,
    )
}

/// The knight targets from an intermediate square: each perpendicular
/// offset applies only where its clearance is positive.
pub open spec fn knight_targets_of(pos: int, o1: int, o2: int, d1: int, d2: int) -> Seq<i32> {
    (if d1 > 0 {
        seq![(pos + o1) as i32]
    } else {
        Seq::empty()
    }) + (if d2 > 0 {
        seq![(pos + o2) as i32]
    } else {
        Seq::empty()
    })
}

/// The first k targets turned into actions, skipping friendly-occupied
/// squares.
spec fn filtered_targets(cur: Seq<i32>, pos: int, ts: Seq<i32>, k: int) -> Seq<Action>
    decreases k,
{
    if k <= 0 {
        Seq::empty()
    } else {
        filtered_targets(cur, pos, ts, k - 1) + (if !cur.contains(ts[k - 1]) {
            seq![normal_action(pos, ts[k - 1] as int)]
        } else {
            Seq::empty()
        })
    }
}

/// The executable offset of one step in a compass direction.
fn direction_offset(d: DirectionName) -> (r: i32)
    ensures
        r as int == dir_offset(d),
{
    match d {
        DirectionName::North => NORTH,
        DirectionName::NorthEast => NORTH_EAST,
        DirectionName::East => EAST,
        DirectionName::SouthEast => SOUTH_EAST,
        DirectionName::South => SOUTH,
        DirectionName::SouthWest => SOUTH_WEST,
        DirectionName::West => WEST,
        DirectionName::NorthWest => NORTH_WEST,
    }
}

/// The square n steps along a direction.
pub open spec fn step_sq(pos: int, d: DirectionName, n: int) -> int {
    pos + n * dir_offset(d)
}

/// Actions a slider emits along one ray, from step k through step m: a
/// friendly-occupied square stops the ray without emitting, an
/// opponent-occupied square is emitted and stops the ray (a capture), and
/// an empty square is emitted and the ray continues.
pub open spec fn ray_actions(
    cur: Seq<i32>,
    opp: Seq<i32>,
    pos: int,
    d: DirectionName,
    k: int,
    m: int,
) -> Seq<Action>
    decreases m + 1 - k,
{
    if k > m {
        Seq::empty()
    } else {
        let t = step_sq(pos, d, k);
        if cur.contains(t as i32) {
            Seq::empty()
        } else if opp.contains(t as i32) {
            seq![normal_action(pos, t)]
        } else {
            seq![normal_action(pos, t)] + ray_actions(cur, opp, pos, d, k + 1, m)
        }
    }
}

/// Ray steps available to one catalogue entry: the smaller of the step
/// limit and the edge distance.
pub open spec fn dir_ray_len(pos: int, dir: Direction) -> int {
    min_int(edge_dist(pos, dir.name), dir.limit as int)
}

/// Actions from the first i catalogue directions of a slider or king.
pub open spec fn sliding_prefix(
    cur: Seq<i32>,
    opp: Seq<i32>,
    pos: int,
    piece_type: PieceType,
    is_white: bool,
    i: int,
) -> Seq<Action>
    decreases i,
{
    if i <= 0 {
        Seq::empty()
    } else {
        let dirs = piece_directions(piece_type, is_white);
        sliding_prefix(cur, opp, pos, piece_type, is_white, i - 1) + ray_actions(
            cur,
            opp,
            pos,
            dirs[i - 1].name,
            1,
            dir_ray_len(pos, dirs[i - 1]),
        )
    }
}

/// All sliding actions of a piece: each of its catalogue directions
/// walked step by step within both the step limit and the edge distance.
pub open spec fn sliding_actions(
    cur: Seq<i32>,
    opp: Seq<i32>,
    pos: int,
    piece_type: PieceType,
    is_white: bool,
) -> Seq<Action> {
    sliding_prefix(cur, opp, pos, piece_type, is_white, piece_directions(
        piece_type,
        is_white,
    ).len() as int)
}

/// The actions of the piece on `pos`, dispatched on its kind: pawns and
/// knights by their own geometry, everything else (bishop, rook, queen,
/// king) as a slider over its catalogue directions.
pub open spec fn piece_actions(s: Seq<Piece>, cur: Seq<i32>, opp: Seq<i32>, pos: int) -> Seq<
    Action,
> {
    let p = s[pos];
    match p.piece_type {
        PieceType::Pawn => pawn_actions(cur, opp, pos, p.is_white, p.has_moved),
        PieceType::Knight => knight_actions(cur, pos),
        _ => sliding_actions(cur, opp, pos, p.piece_type, p.is_white),
    }
}

/// Actions of the first k pieces of the side to move, in occupancy-list
/// order.
pub open spec fn actions_upto(s: Seq<Piece>, cur: Seq<i32>, opp: Seq<i32>, k: int) -> Seq<Action>
    decreases k,
{
    if k <= 0 {
        Seq::empty()
    } else {
        actions_upto(s, cur, opp, k - 1) + piece_actions(s, cur, opp, cur[k - 1] as int)
    }
}

/// Every pseudo-legal action of a side on a board snapshot: each occupied
/// square of the side, in scan order, dispatched to its piece's
/// generation. Obstruction tests run against the occupancy lists captured
/// at generation start.
pub open spec fn board_actions(s: Seq<Piece>, for_white: bool) -> Seq<Action> {
    let cur = occ_squares(s, for_white, 64);
    let opp = occ_squares(s, !for_white, 64);
    actions_upto(s, cur, opp, cur.len() as int)
}

proof fn lemma_contains_concat<A>(a: Seq<A>, b: Seq<A>, x: A)
    ensures
        (a + b).contains(x) <==> a.contains(x) || b.contains(x),
{
    if (a + b).contains(x) {
        let i = choose|i: int| 0 <= i < (a + b).len() && (a + b)[i] == x;
        if i < a.len() {
            assert(a[i] == x);
        } else {
            assert(b[i - a.len()] == x);
        }
    }
    if a.contains(x) {
        let i = choose|i: int| 0 <= i < a.len() && a[i] == x;
        assert((a + b)[i] == x);
    }
    if b.contains(x) {
        let i = choose|i: int| 0 <= i < b.len() && b[i] == x;
        assert((a + b)[a.len() + i] == x);
    }
}

proof fn lemma_ray_contains(
    cur: Seq<i32>,
    opp: Seq<i32>,
    pos: int,
    d: DirectionName,
    k: int,
    m: int,
    n: int,
)
    requires
        0 <= pos < 64,
        m <= edge_dist(pos, d),
        1 <= k <= n <= m,
    ensures
        ray_actions(cur, opp, pos, d, k, m).contains(normal_action(pos, step_sq(pos, d, n))) <==> ((
        forall|j: int| k <= j < n ==> square_free(cur, opp, #[trigger] step_sq(pos, d, j)))
            && !cur.contains(step_sq(pos, d, n) as i32)),
    decreases m - k,
{
    let act = normal_action(pos, step_sq(pos, d, n));
    let t = step_sq(pos, d, k);
    lemma_step_in_bounds(pos, d, k);
    lemma_step_in_bounds(pos, d, n);
    if k < n {
        assert(step_sq(pos, d, n) - step_sq(pos, d, k) == (n - k) * dir_offset(d)) by {
            assert(n * dir_offset(d) - k * dir_offset(d) == (n - k) * dir_offset(d))
                by (nonlinear_arith);
        }
        assert((n - k) * dir_offset(d) != 0) by (nonlinear_arith)
            requires
                n - k >= 1,
                dir_offset(d) != 0,
        ;
        assert(normal_action(pos, t) != act);
        if cur.contains(t as i32) {
            assert(!square_free(cur, opp, step_sq(pos, d, k)));
        } else if opp.contains(t as i32) {
            assert(!square_free(cur, opp, step_sq(pos, d, k)));
            assert(ray_actions(cur, opp, pos, d, k, m) == seq![normal_action(pos, t)]);
            assert(!ray_actions(cur, opp, pos, d, k, m).contains(act)) by {
                if ray_actions(cur, opp, pos, d, k, m).contains(act) {
                    let i = choose|i: int|
                        0 <= i < ray_actions(cur, opp, pos, d, k, m).len() && ray_actions(
                            cur,
                            opp,
                            pos,
                            d,
                            k,
                            m,
                        )[i] == act;
                    assert(i == 0);
                }
            }
        } else {
            let rest = ray_actions(cur, opp, pos, d, k + 1, m);
            lemma_ray_contains(cur, opp, pos, d, k + 1, m, n);
            lemma_contains_concat(seq![normal_action(pos, t)], rest, act);
            assert(!seq![normal_action(pos, t)].contains(act)) by {
                if seq![normal_action(pos, t)].contains(act) {
                    let i = choose|i: int|
                        0 <= i < 1 && seq![normal_action(pos, t)][i] == act;
                    assert(i == 0);
                }
            }
            assert(square_free(cur, opp, step_sq(pos, d, k)));
            assert((forall|j: int|
                k <= j < n ==> square_free(cur, opp, #[trigger] step_sq(pos, d, j))) <==> (forall|
                j: int,
            |
                k + 1 <= j < n ==> square_free(cur, opp, #[trigger] step_sq(pos, d, j))));
        }
    } else {
        assert(k == n);
        if cur.contains(t as i32) {
        } else if opp.contains(t as i32) {
            assert(ray_actions(cur, opp, pos, d, k, m)[0] == act);
        } else {
            assert((seq![act] + ray_actions(cur, opp, pos, d, k + 1, m))[0] == act);
        }
    }
}

/// Slider generation never emits past a friendly blocker and terminates
/// exactly at (inclusive of) the first opponent blocker: along a ray of
/// m available steps, the action for step n is emitted if and only if
/// every square strictly before it is unoccupied by either side and the
/// step-n square itself is not friendly-occupied.
pub proof fn lemma_slider_blockers(
    cur: Seq<i32>,
    opp: Seq<i32>,
    pos: int,
    d: DirectionName,
    m: int,
    n: int,
)
    requires
        0 <= pos < 64,
        m <= edge_dist(pos, d),
        1 <= n <= m,
    ensures
        ray_actions(cur, opp, pos, d, 1, m).contains(normal_action(pos, step_sq(pos, d, n))) <==> ((
        forall|j: int| 1 <= j < n ==> square_free(cur, opp, #[trigger] step_sq(pos, d, j)))
            && !cur.contains(step_sq(pos, d, n) as i32)),
{
    lemma_ray_contains(cur, opp, pos, d, 1, m, n);
}

/// Generating actions twice from an unmodified board and side yields
/// identical action sequences: generation is a pure function of the
/// board snapshot and the side to move, with no other state.
pub proof fn lemma_generation_deterministic(
    s: Seq<Piece>,
    for_white: bool,
    first: Seq<Action>,
    second: Seq<Action>,
)
    requires
        first == board_actions(s, for_white),
        second == board_actions(s, for_white),
    ensures
        first == second,
{
}

/// The piece has the given colour and one of the two given kinds.
pub open spec fn piece_matches(p: Piece, white: bool, k1: PieceType, k2: PieceType) -> bool {
    piece_is_color(p, white) && (p.piece_type == k1 || p.piece_type == k2)
}

/// Every square strictly before step n along the ray is empty.
pub open spec fn ray_clear_to(s: Seq<Piece>, pos: int, d: DirectionName, n: int) -> bool {
    forall|j: int| 1 <= j < n ==> s[#[trigger] step_sq(pos, d, j)].piece_type == PieceType::Empty
}

/// The first non-empty square along the ray holds a piece of the given
/// colour and one of the two given kinds.
pub open spec fn ray_attack(
    s: Seq<Piece>,
    k: int,
    d: DirectionName,
    white: bool,
    k1: PieceType,
    k2: PieceType,
) -> bool {
    exists|n: int|
        1 <= n <= edge_dist(k, d) && #[trigger] ray_clear_to(s, k, d, n) && piece_matches(
            s[step_sq(k, d, n)],
            white,
            k1,
            k2,
        )
}

/// A bishop or queen of the attacking colour reaches the square along a
/// diagonal ray.
pub open spec fn bishop_ray_attack(s: Seq<Piece>, k: int, white: bool) -> bool {
    ||| ray_attack(s, k, DirectionName::NorthEast, white, PieceType::Bishop, PieceType::Queen)
    ||| ray_attack(s, k, DirectionName::NorthWest, white, PieceType::Bishop, PieceType::Queen)
    ||| ray_attack(s, k, DirectionName::SouthEast, white, PieceType::Bishop, PieceType::Queen)
    ||| ray_attack(s, k, DirectionName::SouthWest, white, PieceType::Bishop, PieceType::Queen)
}

/// A rook or queen of the attacking colour reaches the square along an
/// orthogonal ray.
pub open spec fn rook_ray_attack(s: Seq<Piece>, k: int, white: bool) -> bool {
    ||| ray_attack(s, k, DirectionName::North, white, PieceType::Rook, PieceType::Queen)
    ||| ray_attack(s, k, DirectionName::East, white, PieceType::Rook, PieceType::Queen)
    ||| ray_attack(s, k, DirectionName::South, white, PieceType::Rook, PieceType::Queen)
    ||| ray_attack(s, k, DirectionName::West, white, PieceType::Rook, PieceType::Queen)
}

/// A piece of the given colour and kind stands one step away in the
/// given direction.
pub open spec fn adjacent_piece(
    s: Seq<Piece>,
    k: int,
    d: DirectionName,
    white: bool,
    pt: PieceType,
) -> bool {
    edge_dist(k, d) >= 1 && piece_matches(s[step_sq(k, d, 1)], white, pt, pt)
}

/// The opposing king stands on one of the up to eight neighbouring
/// squares.
pub open spec fn king_adjacent_attack(s: Seq<Piece>, k: int, white: bool) -> bool {
    ||| adjacent_piece(s, k, DirectionName::North, white, PieceType::King)
    ||| adjacent_piece(s, k, DirectionName::NorthEast, white, PieceType::King)
    ||| adjacent_piece(s, k, DirectionName::East, white, PieceType::King)
    ||| adjacent_piece(s, k, DirectionName::SouthEast, white, PieceType::King)
    ||| adjacent_piece(s, k, DirectionName::South, white, PieceType::King)
    ||| adjacent_piece(s, k, DirectionName::SouthWest, white, PieceType::King)
    ||| adjacent_piece(s, k, DirectionName::West, white, PieceType::King)
    ||| adjacent_piece(s, k, DirectionName::NorthWest, white, PieceType::King)
}

/// A knight of the attacking colour stands on a knight-move square
/// reached through one orthogonal basis direction.
pub open spec fn knight_dir_attack(s: Seq<Piece>, k: int, d: DirectionName, white: bool) -> bool {
    edge_dist(k, d) >= 2 && {
        let mid = k + 2 * dir_offset(d);
        ||| (edge_dist(mid, knight_perp1(d)) > 0 && piece_matches(
            s[mid + dir_offset(knight_perp1(d))],
            white,
            PieceType::Knight,
            PieceType::Knight,
        ))
        ||| (edge_dist(mid, knight_perp2(d)) > 0 && piece_matches(
            s[mid + dir_offset(knight_perp2(d))],
            white,
            PieceType::Knight,
            PieceType::Knight,
        ))
    }
}

/// A knight of the attacking colour attacks the square.
pub open spec fn knight_attack(s: Seq<Piece>, k: int, white: bool) -> bool {
    ||| knight_dir_attack(s, k, DirectionName::North, white)
    ||| knight_dir_attack(s, k, DirectionName::East, white)
    ||| knight_dir_attack(s, k, DirectionName::South, white)
    ||| knight_dir_attack(s, k, DirectionName::West, white)
}

/// A pawn of the attacking colour attacks the square diagonally: white
/// pawns sit one step to the north-west or north-east of their targets,
/// black pawns one step to the south-west or south-east.
pub open spec fn pawn_attack(s: Seq<Piece>, k: int, white: bool) -> bool {
    if white {
        adjacent_piece(s, k, DirectionName::NorthWest, white, PieceType::Pawn) || adjacent_piece(
            s,
            k,
            DirectionName::NorthEast,
            white,
            PieceType::Pawn,
        )
    } else {
        adjacent_piece(s, k, DirectionName::SouthWest, white, PieceType::Pawn) || adjacent_piece(
            s,
            k,
            DirectionName::SouthEast,
            white,
            PieceType::Pawn,
        )
    }
}

/// Some piece of the attacking colour attacks the square: slider rays,
/// king adjacency, knight moves, and pawn captures all considered.
pub open spec fn square_attacked(s: Seq<Piece>, k: int, by_white: bool) -> bool {
    ||| bishop_ray_attack(s, k, by_white)
    ||| rook_ray_attack(s, k, by_white)
    ||| king_adjacent_attack(s, k, by_white)
    ||| knight_attack(s, k, by_white)
    ||| pawn_attack(s, k, by_white)
}

/// The first square at or after i holding a king of the given colour,
/// or -1 when there is none.
pub open spec fn first_king(s: Seq<Piece>, white: bool, i: int) -> int
    decreases s.len() - i,
{
    if i < 0 || i >= s.len() {
        -1
    } else if s[i].piece_type == PieceType::King && s[i].is_white == white {
        i
    } else {
        first_king(s, white, i + 1)
    }
}

/// The square of the given colour's king found by linear scan, or -1.
pub open spec fn king_square(s: Seq<Piece>, white: bool) -> int {
    first_king(s, white, 0)
}

/// The move generator: the shared geometry table and the two occupancy
/// snapshots (side to move first) that obstruction tests run against.
pub struct ActionGenerator {
    pub precomputed: PrecomputedData,
    pub current_indices: Vec<i32>,
    pub opposition_indicies: Vec<i32>,
}

impl ActionGenerator {
    /// Every pseudo-legal action of the given side on the board
    /// snapshot, with no filtering for self-check: captures the side's
    /// occupancy lists, then dispatches per occupied square to pawn,
    /// knight, or slider generation. The result is a function of the
    /// board snapshot and side alone.
    pub fn generate_valid_actions(&mut self, board: Board, for_white: bool) -> (r: Vec<Action>)
        requires
            old(self).precomputed.wf(),
            board.wf(),
        ensures
            r@ == board_actions(board.array@, for_white),
            final(self).precomputed == old(self).precomputed,
            final(self).current_indices@ == occ_squares(board.array@, for_white, 64),
            final(self).opposition_indicies@ == occ_squares(board.array@, !for_white, 64),
    {
        let (current_indices, opposition_indicies) = match for_white {
            true => (board.white_pieces, board.black_pieces),
            _ => (board.black_pieces, board.white_pieces),
        };
        self.opposition_indicies = opposition_indicies;
        self.current_indices = current_indices;

        let ghost s = board.array@;
        let ghost cur = occ_squares(s, for_white, 64);
        let ghost opp = occ_squares(s, !for_white, 64);
        let mut actions: Vec<Action> = Vec::new();
        let mut i: usize = 0;
        while i < self.current_indices.len()
            invariant
                0 <= i <= self.current_indices@.len(),
                self.precomputed == old(self).precomputed,
                self.precomputed.wf(),
                self.current_indices@ == cur,
                self.opposition_indicies@ == opp,
                cur == occ_squares(s, for_white, 64),
                opp == occ_squares(s, !for_white, 64),
                s == board.array@,
                board.wf(),
                actions@ == actions_upto(s, cur, opp, i as int),
            decreases self.current_indices@.len() - i,
        {
            let pos = self.current_indices[i];
            proof {
                lemma_occ_in_range(s, for_white, 64, i as int);
            }
            let piece = board.array[pos as usize];
            let mut new_actions = match piece.piece_type {
                PieceType::Pawn => self.generate_pawn_moves(pos, piece.is_white, piece.has_moved),
                PieceType::Knight => self.generate_knight_moves(pos),
                _ => self.generate_sliding_moves(pos, piece.piece_type, piece.is_white),
            };
            actions.append(&mut new_actions);
            i = i + 1;
        }
        actions
    }

    /// Whether the given colour's king is attacked: locates the king by
    /// linear scan, then runs a complete attacker scan from its square,
    /// covering bishop/queen and rook/queen rays, king adjacency, knight
    /// moves, and pawn captures. A board without that king is reported
    /// as `KingNotFound`.
    pub fn king_in_check(&self, board: &Board, check_for_white: bool) -> (r: Result<
        bool,
        ChessError,
    >)
        requires
            self.precomputed.wf(),
            board.array@.len() == 64,
        ensures
            r is Ok <==> king_square(board.array@, check_for_white) >= 0,
            r is Ok ==> r->Ok_0 == square_attacked(
                board.array@,
                king_square(board.array@, check_for_white),
                !check_for_white,
            ),
            r is Err ==> r == Err::<bool, ChessError>(ChessError::KingNotFound),
    {
        let king_index = find_king(board, check_for_white);
        if king_index < 0 {
            return Err(ChessError::KingNotFound);
        }
        let by_white = !check_for_white;
        let attacked = self.scan_ray(
            board,
            king_index,
            DirectionName::NorthEast,
            PieceType::Bishop,
            PieceType::Queen,
            by_white,
        ) || self.scan_ray(
            board,
            king_index,
            DirectionName::NorthWest,
            PieceType::Bishop,
            PieceType::Queen,
            by_white,
        ) || self.scan_ray(
            board,
            king_index,
            DirectionName::SouthEast,
            PieceType::Bishop,
            PieceType::Queen,
            by_white,
        ) || self.scan_ray(
            board,
            king_index,
            DirectionName::SouthWest,
            PieceType::Bishop,
            PieceType::Queen,
            by_white,
        ) || self.scan_ray(
            board,
            king_index,
            DirectionName::North,
            PieceType::Rook,
            PieceType::Queen,
            by_white,
        ) || self.scan_ray(
            board,
            king_index,
            DirectionName::East,
            PieceType::Rook,
            PieceType::Queen,
            by_white,
        ) || self.scan_ray(
            board,
            king_index,
            DirectionName::South,
            PieceType::Rook,
            PieceType::Queen,
            by_white,
        ) || self.scan_ray(
            board,
            king_index,
            DirectionName::West,
            PieceType::Rook,
            PieceType::Queen,
            by_white,
        ) || self.adjacent_matches(board, king_index, DirectionName::North, PieceType::King, by_white)
            || self.adjacent_matches(
            board,
            king_index,
            DirectionName::NorthEast,
            PieceType::King,
            by_white,
        ) || self.adjacent_matches(board, king_index, DirectionName::East, PieceType::King, by_white)
            || self.adjacent_matches(
            board,
            king_index,
            DirectionName::SouthEast,
            PieceType::King,
            by_white,
        ) || self.adjacent_matches(board, king_index, DirectionName::South, PieceType::King, by_white)
            || self.adjacent_matches(
            board,
            king_index,
            DirectionName::SouthWest,
            PieceType::King,
            by_white,
        ) || self.adjacent_matches(board, king_index, DirectionName::West, PieceType::King, by_white)
            || self.adjacent_matches(
            board,
            king_index,
            DirectionName::NorthWest,
            PieceType::King,
            by_white,
        ) || self.knight_attack_in_direction(board, king_index, DirectionName::North, by_white)
            || self.knight_attack_in_direction(board, king_index, DirectionName::East, by_white)
            || self.knight_attack_in_direction(board, king_index, DirectionName::South, by_white)
            || self.knight_attack_in_direction(board, king_index, DirectionName::West, by_white)
            || (if by_white {
            self.adjacent_matches(
                board,
                king_index,
                DirectionName::NorthWest,
                PieceType::Pawn,
                by_white,
            ) || self.adjacent_matches(
                board,
                king_index,
                DirectionName::NorthEast,
                PieceType::Pawn,
                by_white,
            )
        } else {
            self.adjacent_matches(
                board,
                king_index,
                DirectionName::SouthWest,
                PieceType::Pawn,
                by_white,
            ) || self.adjacent_matches(
                board,
                king_index,
                DirectionName::SouthEast,
                PieceType::Pawn,
                by_white,
            )
        });
        Ok(attacked)
    }

    /// Whether the first non-empty square along the ray holds an
    /// attacker of one of the two kinds.
    fn scan_ray(
        &self,
        board: &Board,
        k: i32,
        d: DirectionName,
        k1: PieceType,
        k2: PieceType,
        attacker_white: bool,
    ) -> (r: bool)
        requires
            self.precomputed.wf(),
            board.array@.len() == 64,
            0 <= k < 64,
        ensures
            r == ray_attack(board.array@, k as int, d, attacker_white, k1, k2),
    {
        let limit = self.precomputed.get_edge_distance(k, d);
        let offset = direction_offset(d);
        let ghost s = board.array@;
        let mut n: i32 = 1;
        while n <= limit
            invariant
                1 <= n <= limit + 1,
                limit == edge_dist(k as int, d),
                0 <= k < 64,
                s == board.array@,
                s.len() == 64,
                offset as int == dir_offset(d),
                ray_clear_to(s, k as int, d, n as int),
            decreases limit + 1 - n,
        {
            proof {
                lemma_step_in_bounds(k as int, d, n as int);
            }
            let t = k + offset * n;
            proof {
                assert(t as int == step_sq(k as int, d, n as int));
            }
            let p = board.array[t as usize];
            if p.piece_type == PieceType::Empty {
                proof {
                    assert forall|j: int| 1 <= j < n + 1 implies s[#[trigger] step_sq(
                        k as int,
                        d,
                        j,
                    )].piece_type == PieceType::Empty by {
                        if j == n {
                            assert(s[step_sq(k as int, d, j)] == p);
                        }
                    }
                }
                n = n + 1;
            } else {
                let matched = p.is_white == attacker_white && (p.piece_type == k1 || p.piece_type
                    == k2);
                proof {
                    if matched {
                        assert(piece_matches(s[step_sq(k as int, d, n as int)], attacker_white, k1, k2));
                        assert(ray_attack(s, k as int, d, attacker_white, k1, k2));
                    } else {
                        assert forall|n2: int| 1 <= n2 <= limit implies !(ray_clear_to(
                            s,
                            k as int,
                            d,
                            n2,
                        ) && piece_matches(s[step_sq(k as int, d, n2)], attacker_white, k1, k2)) by {
                            if n2 < n {
                                assert(s[step_sq(k as int, d, n2)].piece_type == PieceType::Empty);
                            } else if n2 == n {
                                assert(s[step_sq(k as int, d, n2)] == p);
                            } else {
                                if ray_clear_to(s, k as int, d, n2) {
                                    assert(s[step_sq(k as int, d, n as int)].piece_type
                                        == PieceType::Empty);
                                    assert(false);
                                }
                            }
                        }
                    }
                }
                return matched;
            }
        }
        proof {
            assert forall|n2: int| 1 <= n2 <= limit implies !(ray_clear_to(s, k as int, d, n2)
                && piece_matches(s[step_sq(k as int, d, n2)], attacker_white, k1, k2)) by {
                assert(s[step_sq(k as int, d, n2)].piece_type == PieceType::Empty);
            }
        }
        false
    }

    /// Whether a piece of the given colour and kind stands one step away
    /// in the given direction.
    fn adjacent_matches(
        &self,
        board: &Board,
        k: i32,
        d: DirectionName,
        pt: PieceType,
        attacker_white: bool,
    ) -> (r: bool)
        requires
            self.precomputed.wf(),
            board.array@.len() == 64,
            0 <= k < 64,
        ensures
            r == adjacent_piece(board.array@, k as int, d, attacker_white, pt),
    {
        let dist = self.precomputed.get_edge_distance(k, d);
        if dist < 1 {
            return false;
        }
        proof {
            lemma_step_in_bounds(k as int, d, 1);
        }
        let t = k + direction_offset(d);
        proof {
            assert(t as int == step_sq(k as int, d, 1));
        }
        let p = board.array[t as usize];
        p.piece_type != PieceType::Empty && p.is_white == attacker_white && p.piece_type == pt
    }

    /// Whether an attacking knight stands on a knight-move square
    /// reached through one orthogonal basis direction.
    fn knight_attack_in_direction(
        &self,
        board: &Board,
        k: i32,
        d: DirectionName,
        attacker_white: bool,
    ) -> (r: bool)
        requires
            self.precomputed.wf(),
            board.array@.len() == 64,
            0 <= k < 64,
        ensures
            r == knight_dir_attack(board.array@, k as int, d, attacker_white),
    {
        let dist = self.precomputed.get_edge_distance(k, d);
        if dist < 2 {
            return false;
        }
        proof {
            lemma_step_in_bounds(k as int, d, 2);
            assert(2 * dir_offset(d) == dir_offset(d) * 2);
        }
        let mid = k + direction_offset(d) * 2;
        let dist_mid = self.precomputed.moves_to_edge[mid as usize];
        let (d1, d2) = match d {
            DirectionName::North | DirectionName::South => (dist_mid.west, dist_mid.east),
            _ => (dist_mid.north, dist_mid.south),
        };
        let mut hit = false;
        if d1 > 0 {
            proof {
                lemma_step_in_bounds(mid as int, knight_perp1(d), 1);
            }
            let t1 = mid + direction_offset_of_perp1(d);
            let p = board.array[t1 as usize];
            if p.piece_type != PieceType::Empty && p.is_white == attacker_white && p.piece_type
                == PieceType::Knight {
                hit = true;
            }
        }
        if !hit && d2 > 0 {
            proof {
                lemma_step_in_bounds(mid as int, knight_perp2(d), 1);
            }
            let t2 = mid + direction_offset_of_perp2(d);
            let p = board.array[t2 as usize];
            if p.piece_type != PieceType::Empty && p.is_white == attacker_white && p.piece_type
                == PieceType::Knight {
                hit = true;
            }
        }
        hit
    }

    /// A friendly piece stands on the target square.
    pub fn friendly_obstruction(&self, target: &i32) -> (r: bool)
        ensures
            r == self.current_indices@.contains(*target),
    {
        contains_square(&self.current_indices, *target)
    }

    /// An opponent piece stands on the target square.
    pub fn enemy_obstruction(&self, target: &i32) -> (r: bool)
        ensures
            r == self.opposition_indicies@.contains(*target),
    {
        contains_square(&self.opposition_indicies, *target)
    }

    /// Knight actions from `pos`: per orthogonal basis direction, a
    /// 2-square step (requiring edge clearance of at least 2) followed by
    /// the two perpendicular 1-square continuations whose own clearance
    /// is nonzero and whose targets are not friendly-occupied.
    pub fn generate_knight_moves(&self, pos: i32) -> (r: Vec<Action>)
        requires
            self.precomputed.wf(),
            0 <= pos < 64,
        ensures
            r@ == knight_actions(self.current_indices@, pos as int),
    {
        let mut actions = self.knight_moves_in_direction(pos, DirectionName::North);
        let mut more = self.knight_moves_in_direction(pos, DirectionName::East);
        actions.append(&mut more);
        let mut more = self.knight_moves_in_direction(pos, DirectionName::South);
        actions.append(&mut more);
        let mut more = self.knight_moves_in_direction(pos, DirectionName::West);
        actions.append(&mut more);
        actions
    }

    /// The knight targets reachable from the intermediate square: each
    /// perpendicular offset applies only where its clearance is nonzero.
    pub fn get_knight_targets(&self, pos: i32, offsets: (i32, i32), distances: (i32, i32)) -> (r:
        Vec<i32>)
        requires
            0 <= pos < 64,
            -9 <= offsets.0 <= 9,
            -9 <= offsets.1 <= 9,
        ensures
            r@ == knight_targets_of(
                pos as int,
                offsets.0 as int,
                offsets.1 as int,
                distances.0 as int,
                distances.1 as int,
            ),
    {
        let mut targets: Vec<i32> = Vec::new();
        if distances.0 > 0 {
            targets.push(pos + offsets.0);
        }
        if distances.1 > 0 {
            targets.push(pos + offsets.1);
        }
        proof {
            assert(targets@ =~= knight_targets_of(
                pos as int,
                offsets.0 as int,
                offsets.1 as int,
                distances.0 as int,
                distances.1 as int,
            ));
        }
        targets
    }

    /// Knight actions through one basis direction.
    fn knight_moves_in_direction(&self, pos: i32, d: DirectionName) -> (r: Vec<Action>)
        requires
            self.precomputed.wf(),
            0 <= pos < 64,
        ensures
            r@ == knight_dir_actions(self.current_indices@, pos as int, d),
    {
        let mut actions: Vec<Action> = Vec::new();
        let dist = self.precomputed.get_edge_distance(pos, d);
        if dist < 2 {
            return actions;
        }
        proof {
            lemma_step_in_bounds(pos as int, d, 2);
            assert(2 * dir_offset(d) == dir_offset(d) * 2);
        }
        let offset = direction_offset(d);
        let mid = pos + offset * 2;
        let dist_mid = self.precomputed.moves_to_edge[mid as usize];
        let targets = match d {
            DirectionName::North | DirectionName::South => self.get_knight_targets(
                mid,
                (WEST, EAST),
                (dist_mid.west, dist_mid.east),
            ),
            _ => self.get_knight_targets(mid, (NORTH, SOUTH), (dist_mid.north, dist_mid.south)),
        };
        let mut k: usize = 0;
        let ghost cur = self.current_indices@;
        let ghost all = knight_dir_actions(cur, pos as int, d);
        proof {
            reveal_with_fuel(filtered_targets, 3);
            assert(mid == pos + 2 * dir_offset(d));
            if edge_dist(mid as int, knight_perp1(d)) > 0 {
                lemma_step_in_bounds(mid as int, knight_perp1(d), 1);
            }
            if edge_dist(mid as int, knight_perp2(d)) > 0 {
                lemma_step_in_bounds(mid as int, knight_perp2(d), 1);
            }
            assert(all =~= filtered_targets(cur, pos as int, targets@, targets@.len() as int));
        }
        while k < targets.len()
            invariant
                0 <= k <= targets@.len(),
                cur == self.current_indices@,
                actions@ == filtered_targets(cur, pos as int, targets@, k as int),
            decreases targets@.len() - k,
        {
            let t = targets[k];
            if !self.friendly_obstruction(&t) {
                actions.push(Action::new(pos, t, None));
            }
            k = k + 1;
        }
        actions
    }

    /// Sliding actions (bishop, rook, queen, and the king with step
    /// limit 1) from `pos`: each catalogue direction is walked step by
    /// step while within both the direction's limit and the edge
    /// distance, stopping without emitting on a friendly-occupied square
    /// and emitting then stopping on an opponent-occupied one.
    pub fn generate_sliding_moves(&self, pos: i32, piece_type: PieceType, is_white: bool) -> (r:
        Vec<Action>)
        requires
            self.precomputed.wf(),
            0 <= pos < 64,
        ensures
            r@ == sliding_actions(
                self.current_indices@,
                self.opposition_indicies@,
                pos as int,
                piece_type,
                is_white,
            ),
    {
        let mut moves: Vec<Action> = Vec::new();
        let directions = allowed_directions(piece_type, is_white);
        proof {
            lemma_piece_directions_wf(piece_type, is_white);
        }
        let ghost cur = self.current_indices@;
        let ghost opp = self.opposition_indicies@;
        let mut i: usize = 0;
        while i < directions.len()
            invariant
                0 <= i <= directions@.len(),
                directions@ == piece_directions(piece_type, is_white),
                forall|j: int|
                    0 <= j < directions@.len() ==> (#[trigger] directions@[j]).offset == dir_offset(
                        directions@[j].name,
                    ) && 1 <= directions@[j].limit <= 8,
                self.precomputed.wf(),
                0 <= pos < 64,
                cur == self.current_indices@,
                opp == self.opposition_indicies@,
                moves@ == sliding_prefix(cur, opp, pos as int, piece_type, is_white, i as int),
            decreases directions@.len() - i,
        {
            let direction = directions[i];
            let dist_from_edge = self.precomputed.get_edge_distance(pos, direction.name);
            proof {
                lemma_edge_distance_exact(pos as int, direction.name);
            }
            let limit = if dist_from_edge <= direction.limit {
                dist_from_edge
            } else {
                direction.limit
            };
            let ghost base = moves@;
            let ghost dname = direction.name;
            let mut n: i32 = 1;
            let mut blocked = false;
            while n <= limit && !blocked
                invariant
                    1 <= n <= limit + 1,
                    limit == dir_ray_len(pos as int, direction),
                    0 <= limit <= edge_dist(pos as int, dname),
                    dname == direction.name,
                    direction.offset == dir_offset(dname),
                    0 <= pos < 64,
                    cur == self.current_indices@,
                    opp == self.opposition_indicies@,
                    !blocked ==> base + ray_actions(cur, opp, pos as int, dname, 1, limit as int)
                        == moves@ + ray_actions(cur, opp, pos as int, dname, n as int, limit as int),
                    blocked ==> base + ray_actions(cur, opp, pos as int, dname, 1, limit as int)
                        == moves@,
                decreases limit + 1 - n, (if blocked {
                    0int
                } else {
                    1int
                }),
            {
                proof {
                    lemma_step_in_bounds(pos as int, dname, n as int);
                }
                let target_pos: i32 = pos + direction.offset * n;
                proof {
                    assert(target_pos as int == step_sq(pos as int, dname, n as int));
                }
                if self.friendly_obstruction(&target_pos) {
                    blocked = true;
                } else {
                    moves.push(Action::new(pos, target_pos, None));
                    if self.enemy_obstruction(&target_pos) {
                        blocked = true;
                    } else {
                        n = n + 1;
                    }
                }
            }
            proof {
                if !blocked {
                    assert(ray_actions(cur, opp, pos as int, dname, n as int, limit as int)
                        =~= Seq::<Action>::empty());
                    assert(base + ray_actions(cur, opp, pos as int, dname, 1, limit as int)
                        =~= moves@);
                }
                assert(moves@ =~= sliding_prefix(
                    cur,
                    opp,
                    pos as int,
                    piece_type,
                    is_white,
                    i + 1,
                ));
            }
            i = i + 1;
        }
        moves
    }

    /// Pawn actions from `pos` against the current occupancy snapshots:
    /// push, conditional double push, then the two diagonal captures.
    pub fn generate_pawn_moves(&self, pos: i32, is_white: bool, has_moved: bool) -> (r: Vec<
        Action,
    >)
        requires
            0 <= pos < 64,
        ensures
            r@ == pawn_actions(
                self.current_indices@,
                self.opposition_indicies@,
                pos as int,
                is_white,
                has_moved,
            ),
    {
        let mut actions: Vec<Action> = Vec::new();
        let fwd: i32 = if is_white {
            SOUTH
        } else {
            NORTH
        };
        let diag_e: i32 = if is_white {
            SOUTH_EAST
        } else {
            NORTH_EAST
        };
        let diag_w: i32 = if is_white {
            SOUTH_WEST
        } else {
            NORTH_WEST
        };
        let push = pos + fwd;
        if !self.friendly_obstruction(&push) && !self.enemy_obstruction(&push) {
            actions.push(Action::new(pos, push, None));
            let double_push = push + fwd;
            if !self.friendly_obstruction(&double_push) && !self.enemy_obstruction(&double_push)
                && !has_moved {
                actions.push(Action::new(pos, double_push, None));
            }
        }
        let cap_e = pos + diag_e;
        if self.enemy_obstruction(&cap_e) {
            actions.push(Action::new(pos, cap_e, None));
        }
        let cap_w = pos + diag_w;
        if self.enemy_obstruction(&cap_w) {
            actions.push(Action::new(pos, cap_w, None));
        }
        proof {
            assert(actions@ =~= pawn_actions(
                self.current_indices@,
                self.opposition_indicies@,
                pos as int,
                is_white,
                has_moved,
            ));
        }
        actions
    }
}

impl Default for ActionGenerator {
    /// A generator with a freshly built geometry table and empty
    /// occupancy snapshots.
    fn default() -> (r: ActionGenerator)
        ensures
            r.precomputed.wf(),
            r.current_indices@ == Seq::<i32>::empty(),
            r.opposition_indicies@ == Seq::<i32>::empty(),
    {
        ActionGenerator {
            precomputed: PrecomputedData::calculate(),
            current_indices: Vec::new(),
            opposition_indicies: Vec::new(),
        }
    }
}

/// The square of the given colour's king, found by linear scan, or -1
/// when the board has no such king.
fn find_king(board: &Board, white: bool) -> (r: i32)
    requires
        board.array@.len() == 64,
    ensures
        r as int == king_square(board.array@, white),
        -1 <= r < 64,
{
    let ghost s = board.array@;
    let mut i: usize = 0;
    while i < 64
        invariant
            0 <= i <= 64,
            s == board.array@,
            s.len() == 64,
            king_square(s, white) == first_king(s, white, i as int),
        decreases 64 - i,
    {
        let p = board.array[i];
        if p.piece_type == PieceType::King && p.is_white == white {
            return i as i32;
        }
        i = i + 1;
    }
    -1
}

/// The executable offset of a knight basis direction's first
/// perpendicular.
fn direction_offset_of_perp1(d: DirectionName) -> (r: i32)
    ensures
        r as int == dir_offset(knight_perp1(d)),
{
    match d {
        DirectionName::North | DirectionName::South => WEST,
        _ => NORTH,
    }
}

/// The executable offset of a knight basis direction's second
/// perpendicular.
fn direction_offset_of_perp2(d: DirectionName) -> (r: i32)
    ensures
        r as int == dir_offset(knight_perp2(d)),
{
    match d {
        DirectionName::North | DirectionName::South => EAST,
        _ => SOUTH,
    }
}

/// Linear membership test against an occupancy list.
fn contains_square(v: &Vec<i32>, target: i32) -> (r: bool)
    ensures
        r == v@.contains(target),
{
    let mut i: usize = 0;
    while i < v.len()
        invariant
            0 <= i <= v.len(),
            forall|j: int| 0 <= j < i ==> v@[j] != target,
        decreases v.len() - i,
    {
        if v[i] == target {
            return true;
        }
        i = i + 1;
    }
    false
}

} // verus!
