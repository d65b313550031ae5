use vstd::prelude::*;
use vstd::string::StringSliceAdditionalSpecFns;

use crate::action::Action;
use crate::action_generator::{
    actions_upto, board_actions, dir_ray_len, piece_actions, ray_actions, sliding_prefix,
    ActionGenerator,
};
use crate::board::{
    apply_action_spec, fen_board, lemma_occ_in_range, lemma_occ_len, occ_squares, Board,
};
use crate::directions::{piece_directions, DirectionName};
use crate::error::ChessError;
use crate::piece::{Piece, PieceType};
use crate::precomputed_data::lemma_edge_distance_exact;

verus! {

/// Both squares of the action lie on the board.
pub open spec fn action_in_range(a: Action) -> bool {
    0 <= a.from < 64 && 0 <= a.to < 64
}

/// The number of actions generated across all nodes visited by a
/// fixed-depth search: at each node below the depth limit, the side to
/// move's actions are counted and each is applied to a copy of the board
/// before recursing with the opposite side.
pub open spec fn search_count(s: Seq<Piece>, for_white: bool, depth: int, max_depth: int) -> int
    decreases max_depth - depth, 1int, 0int,
{
    if depth >= max_depth {
        0
    } else {
        board_actions(s, for_white).len() + search_list(
            s,
            board_actions(s, for_white),
            for_white,
            depth,
            max_depth,
            0,
        )
    }
}

/// The nodes contributed by the actions from index i on.
pub open spec fn search_list(
    s: Seq<Piece>,
    acts: Seq<Action>,
    for_white: bool,
    depth: int,
    max_depth: int,
    i: int,
) -> int
    decreases max_depth - depth, 0int, acts.len() - i,
{
    if depth >= max_depth || i < 0 || i >= acts.len() {
        0
    } else {
        search_count(
            apply_action_spec(s, acts[i].from as int, acts[i].to as int),
            !for_white,
            depth + 1,
            max_depth,
        ) + search_list(s, acts, for_white, depth, max_depth, i + 1)
    }
}

/// Every action the search would apply, at every visited node, has both
/// squares on the board (a pawn standing on its own last rank generates
/// a push off the board, which the driver surfaces as an error).
pub open spec fn search_safe(s: Seq<Piece>, for_white: bool, depth: int, max_depth: int) -> bool
    decreases max_depth - depth, 1int, 0int,
{
    if depth >= max_depth {
        true
    } else {
        safe_list(s, board_actions(s, for_white), for_white, depth, max_depth, 0)
    }
}

/// Every action from index i on is in range and leads to a safe subtree.
pub open spec fn safe_list(
    s: Seq<Piece>,
    acts: Seq<Action>,
    for_white: bool,
    depth: int,
    max_depth: int,
    i: int,
) -> bool
    decreases max_depth - depth, 0int, acts.len() - i,
{
    if depth >= max_depth || i < 0 || i >= acts.len() {
        true
    } else {
        action_in_range(acts[i]) && search_safe(
            apply_action_spec(s, acts[i].from as int, acts[i].to as int),
            !for_white,
            depth + 1,
            max_depth,
        ) && safe_list(s, acts, for_white, depth, max_depth, i + 1)
    }
}

/// An upper bound on the node count of a search k plies deep: one board
/// generates at most 3584 actions (64 occupied squares, at most 56
/// actions each), and each action opens a subtree one ply shallower.
pub open spec fn count_bound(k: int) -> int
    decreases k,
{
    if k <= 0 {
        0
    } else {
        3584 + 3584 * count_bound(k - 1)
    }
}

proof fn lemma_count_bound_nonneg(k: int)
    ensures
        count_bound(k) >= 0,
    decreases (if k >= 0 {
        k
    } else {
        0
    }),
{
    if k > 0 {
        lemma_count_bound_nonneg(k - 1);
    }
}

proof fn lemma_ray_len(
    cur: Seq<i32>,
    opp: Seq<i32>,
    pos: int,
    d: DirectionName,
    k: int,
    m: int,
)
    ensures
        ray_actions(cur, opp, pos, d, k, m).len() <= (if m + 1 - k >= 0 {
            m + 1 - k
        } else {
            0
        }),
    decreases m + 1 - k,
{
    if k <= m {
        lemma_ray_len(cur, opp, pos, d, k + 1, m);
    }
}

proof fn lemma_sliding_prefix_len(
    cur: Seq<i32>,
    opp: Seq<i32>,
    pos: int,
    piece_type: PieceType,
    is_white: bool,
    i: int,
)
    requires
        0 <= pos < 64,
        0 <= i <= piece_directions(piece_type, is_white).len(),
    ensures
        sliding_prefix(cur, opp, pos, piece_type, is_white, i).len() <= 7
            * i,
    decreases i,
{
    if i > 0 {
        lemma_sliding_prefix_len(cur, opp, pos, piece_type, is_white, i - 1);
        let dir = piece_directions(piece_type, is_white)[i - 1];
        lemma_edge_distance_exact(pos, dir.name);
        lemma_ray_len(
            cur,
            opp,
            pos,
            dir.name,
            1,
            dir_ray_len(pos, dir),
        );
    }
}

proof fn lemma_piece_actions_len(s: Seq<Piece>, cur: Seq<i32>, opp: Seq<i32>, pos: int)
    requires
        0 <= pos < 64,
    ensures
        piece_actions(s, cur, opp, pos).len() <= 56,
{
    let pt = s[pos].piece_type;
    let w = s[pos].is_white;
    assert(piece_directions(pt, w).len() <= 8);
    lemma_sliding_prefix_len(cur, opp, pos, pt, w, piece_directions(
        pt,
        w,
    ).len() as int);
}

proof fn lemma_actions_upto_len(s: Seq<Piece>, cur: Seq<i32>, opp: Seq<i32>, k: int)
    requires
        0 <= k <= cur.len(),
        forall|j: int| 0 <= j < k ==> 0 <= #[trigger] cur[j] < 64,
    ensures
        actions_upto(s, cur, opp, k).len() <= 56 * k,
    decreases k,
{
    if k > 0 {
        lemma_actions_upto_len(s, cur, opp, k - 1);
        lemma_piece_actions_len(s, cur, opp, cur[k - 1] as int);
    }
}

/// A 64-square board generates at most 3584 actions for one side.
pub proof fn lemma_board_actions_len(s: Seq<Piece>, for_white: bool)
    requires
        s.len() == 64,
    ensures
        board_actions(s, for_white).len() <= 3584,
{
    let cur = occ_squares(s, for_white, 64);
    let opp = occ_squares(s, !for_white, 64);
    lemma_occ_len(s, for_white, 64);
    assert forall|j: int| 0 <= j < cur.len() implies 0 <= #[trigger] cur[j] < 64 by {
        lemma_occ_in_range(s, for_white, 64, j);
    }
    lemma_actions_upto_len(s, cur, opp, cur.len() as int);
}

/// The node count of a search never exceeds the per-ply bound.
pub proof fn lemma_search_count_bound(s: Seq<Piece>, for_white: bool, depth: int, max_depth: int)
    requires
        s.len() == 64,
    ensures
        0 <= search_count(s, for_white, depth, max_depth) <= count_bound(max_depth - depth),
    decreases max_depth - depth, 1int, 0int,
{
    if depth < max_depth {
        let acts = board_actions(s, for_white);
        lemma_board_actions_len(s, for_white);
        lemma_search_list_bound(s, acts, for_white, depth, max_depth, 0);
        lemma_count_bound_nonneg(max_depth - depth - 1);
        let cb = count_bound(max_depth - depth - 1);
        let n = acts.len() as int;
        assert(n * cb <= 3584 * cb) by (nonlinear_arith)
            requires
                0 <= n <= 3584,
                cb >= 0,
        ;
    }
}

proof fn lemma_search_list_bound(
    s: Seq<Piece>,
    acts: Seq<Action>,
    for_white: bool,
    depth: int,
    max_depth: int,
    i: int,
)
    requires
        s.len() == 64,
        0 <= i <= acts.len(),
        depth < max_depth,
    ensures
        0 <= search_list(s, acts, for_white, depth, max_depth, i) <= (acts.len() - i)
            * count_bound(max_depth - depth - 1),
    decreases max_depth - depth, 0int, acts.len() - i,
{
    let cb = count_bound(max_depth - depth - 1);
    lemma_count_bound_nonneg(max_depth - depth - 1);
    if i >= acts.len() {
        assert((acts.len() - i) * cb == 0) by (nonlinear_arith)
            requires
                acts.len() - i == 0,
        ;
    } else {
        let child = apply_action_spec(s, acts[i].from as int, acts[i].to as int);
        lemma_search_count_bound(child, !for_white, depth + 1, max_depth);
        lemma_search_list_bound(s, acts, for_white, depth, max_depth, i + 1);
        let a = acts.len() - i;
        assert(a * cb == cb + (a - 1) * cb) by (nonlinear_arith);
    }
}

/// The search driver: a board, a generator, the fixed depth limit, and
/// the running node count.
pub struct Engine {
    pub board: Board,
    pub generator: ActionGenerator,
    pub max_depth: i32,
    pub nodes: i64,
}

impl Engine {
    /// An engine over the board a position string denotes, with depth
    /// limit 4 and a zero node count. A malformed position string is
    /// rejected as `InvalidPosition`.
    pub fn new(fen: &str) -> (r: Result<Engine, ChessError>)
        ensures
            r is Ok <==> fen_board(fen.spec_bytes()) is Some,
            r is Ok ==> {
                let e = r->Ok_0;
                e.board.wf() && e.board.array@ == fen_board(fen.spec_bytes())->0
                    && e.generator.precomputed.wf() && e.max_depth == 4 && e.nodes == 0
            },
            r is Err ==> r == Err::<Engine, ChessError>(ChessError::InvalidPosition),
    {
        let board = match Board::new(fen) {
            Ok(b) => b,
            Err(e) => {
                return Err(e);
            },
        };
        let generator = ActionGenerator::default();
        Ok(Engine { board, generator, max_depth: 4, nodes: 0 })
    }

    /// The driver's demonstration move: a copy of the engine's board
    /// with the piece on square 0 relocated to square 32.
    pub fn move_piece(&self) -> (r: Board)
        requires
            self.board.wf(),
        ensures
            r.wf(),
            r.array@ == apply_action_spec(self.board.array@, 0, 32),
    {
        let mut new_board = self.board.clone();
        let result = new_board.perform_action(Action::new(0, 32, None));
        match result {
            Ok(()) => {},
            Err(_) => {
                proof {
                    assert(false);
                }
            },
        }
        new_board
    }

    /// Runs the fixed-depth search from the engine's board with white to
    /// move, accumulating into the node count, and returns the count.
    /// An out-of-range action encountered anywhere in the tree is
    /// surfaced as `IndexOutOfRange`.
    pub fn evaluate(&mut self) -> (r: Result<i64, ChessError>)
        requires
            old(self).generator.precomputed.wf(),
            old(self).board.wf(),
            0 <= old(self).max_depth <= 4,
            0 <= old(self).nodes <= 0x7000_0000_0000_0000,
        ensures
            final(self).board == old(self).board,
            final(self).max_depth == old(self).max_depth,
            final(self).generator.precomputed == old(self).generator.precomputed,
            r is Ok <==> search_safe(
                old(self).board.array@,
                true,
                0,
                old(self).max_depth as int,
            ),
            r is Ok ==> r->Ok_0 == final(self).nodes && final(self).nodes == old(self).nodes
                + search_count(old(self).board.array@, true, 0, old(self).max_depth as int),
            r is Err ==> r == Err::<i64, ChessError>(ChessError::IndexOutOfRange),
    {
        proof {
            assert(count_bound(0) == 0);
            assert(count_bound(1) == 3584);
            assert(count_bound(2) == 12848640);
            assert(count_bound(3) == 46049529344);
            assert(count_bound(4) == 165041513172480);
        }
        let mut search_board = self.board.clone();
        let result = self.recurse_moves(&mut search_board, true, 0);
        match result {
            Ok(()) => Ok(self.nodes),
            Err(e) => Err(e),
        }
    }

    /// The recursive walk: at each node below the depth limit, generate
    /// the side's actions, count them, and recurse on a board copy per
    /// action with the opposite side.
    fn recurse_moves(&mut self, board: &mut Board, for_white: bool, depth: i32) -> (r: Result<
        (),
        ChessError,
    >)
        requires
            old(self).generator.precomputed.wf(),
            old(board).wf(),
            0 <= depth <= old(self).max_depth,
            0 <= old(self).nodes,
            old(self).nodes + count_bound(old(self).max_depth - depth) <= i64::MAX,
        ensures
            *final(board) == *old(board),
            final(self).board == old(self).board,
            final(self).max_depth == old(self).max_depth,
            final(self).generator.precomputed == old(self).generator.precomputed,
            final(self).nodes >= old(self).nodes,
            r is Ok <==> search_safe(
                old(board).array@,
                for_white,
                depth as int,
                old(self).max_depth as int,
            ),
            r is Ok ==> final(self).nodes == old(self).nodes + search_count(
                old(board).array@,
                for_white,
                depth as int,
                old(self).max_depth as int,
            ),
            r is Err ==> r == Err::<(), ChessError>(ChessError::IndexOutOfRange),
        decreases old(self).max_depth - depth,
    {
        let ghost s = board.array@;
        let ghost max = old(self).max_depth as int;
        if depth == self.max_depth {
            return Ok(());
        }
        let snapshot = board.clone();
        let valid_actions = self.generator.generate_valid_actions(snapshot, for_white);
        let ghost acts = board_actions(s, for_white);
        proof {
            lemma_board_actions_len(s, for_white);
            lemma_count_bound_nonneg(max - depth - 1);
            assert(count_bound(max - depth) == 3584 + 3584 * count_bound(max - depth - 1));
        }
        let ghost nodes_entry = self.nodes as int;
        self.nodes = self.nodes + (valid_actions.len() as i64);
        let ghost cb = count_bound(max - depth - 1);
        let mut i: usize = 0;
        while i < valid_actions.len()
            invariant
                0 <= i <= acts.len(),
                valid_actions@ == acts,
                acts == board_actions(s, for_white),
                acts.len() <= 3584,
                s == board.array@,
                board.wf(),
                s.len() == 64,
                0 <= depth < max,
                max == self.max_depth,
                max == old(self).max_depth,
                nodes_entry == old(self).nodes,
                self.nodes >= nodes_entry,
                self.generator.precomputed.wf(),
                self.board == old(self).board,
                self.generator.precomputed == old(self).generator.precomputed,
                cb == count_bound(max - depth - 1),
                cb >= 0,
                nodes_entry >= 0,
                nodes_entry + count_bound(max - depth) <= i64::MAX,
                count_bound(max - depth) == 3584 + 3584 * cb,
                self.nodes == nodes_entry + acts.len() + (search_list(s, acts, for_white, depth as int, max, 0) - search_list(s, acts, for_white, depth as int, max, i as int)),
                self.nodes <= nodes_entry + acts.len() + i * cb,
                safe_list(s, acts, for_white, depth as int, max, 0) == safe_list(s, acts, for_white, depth as int, max, i as int),
            decreases acts.len() - i,
        {
            let action = valid_actions[i];
            let mut board_after_move = board.clone();
            proof {
                lemma_search_list_bound_step(s, acts, for_white, depth as int, max, i as int);
                assert((i + 1) * cb <= 3584 * cb && i * cb + cb == (i + 1) * cb)
                    by (nonlinear_arith)
                    requires
                        0 <= i + 1 <= 3584,
                        cb >= 0,
                ;
            }
            match board_after_move.perform_action(action) {
                Ok(()) => {},
                Err(e) => {
                    proof {
                        assert(!safe_list(s, acts, for_white, depth as int, max, i as int));
                    }
                    return Err(e);
                },
            }
            match self.recurse_moves(&mut board_after_move, !for_white, depth + 1) {
                Ok(()) => {},
                Err(e) => {
                    proof {
                        assert(!safe_list(s, acts, for_white, depth as int, max, i as int));
                    }
                    return Err(e);
                },
            }
            i = i + 1;
        }
        proof {
            assert(search_list(s, acts, for_white, depth as int, max, i as int) == 0);
            assert(safe_list(s, acts, for_white, depth as int, max, i as int));
        }
        Ok(())
    }
}

/// One step of the per-action bound: the subtree of any single action
/// stays within the one-ply-shallower bound.
proof fn lemma_search_list_bound_step(
    s: Seq<Piece>,
    acts: Seq<Action>,
    for_white: bool,
    depth: int,
    max_depth: int,
    i: int,
)
    requires
        s.len() == 64,
        0 <= i < acts.len(),
        depth < max_depth,
    ensures
        search_list(s, acts, for_white, depth, max_depth, i) == search_count(
            apply_action_spec(s, acts[i].from as int, acts[i].to as int),
            !for_white,
            depth + 1,
            max_depth,
        ) + search_list(s, acts, for_white, depth, max_depth, i + 1),
        0 <= search_count(
            apply_action_spec(s, acts[i].from as int, acts[i].to as int),
            !for_white,
            depth + 1,
            max_depth,
        ) <= count_bound(max_depth - depth - 1),
        0 <= search_list(s, acts, for_white, depth, max_depth, i + 1),
{
    let child = apply_action_spec(s, acts[i].from as int, acts[i].to as int);
    lemma_search_count_bound(child, !for_white, depth + 1, max_depth);
    if i + 1 < acts.len() {
        lemma_search_list_bound(s, acts, for_white, depth, max_depth, i + 1);
    }
}

} // verus!
