use vstd::prelude::*;
use vstd::string::StringSliceAdditionalSpecFns;

use crate::action::Action;
use crate::error::ChessError;
use crate::piece::{empty_piece, piece_of_char, Piece, PieceType};

verus! {

/// The square holds a piece of the given colour.
pub open spec fn piece_is_color(p: Piece, white: bool) -> bool {
    p.piece_type != PieceType::Empty && p.is_white == white
}

/// The scan-ordered list of squares below `n` occupied by the given
/// colour: the partition a full board rescan produces.
pub open spec fn occ_squares(s: Seq<Piece>, white: bool, n: int) -> Seq<i32>
    decreases n,
{
    if n <= 0 {
        Seq::empty()
    } else if piece_is_color(s[n - 1], white) {
        occ_squares(s, white, n - 1).push((n - 1) as i32)
    } else {
        occ_squares(s, white, n - 1)
    }
}

/// An occupancy list contains exactly the indices of the squares the
/// colour occupies: together with a board's cache invariant this reads
/// the generator's membership tests as statements about board squares.
pub proof fn lemma_occ_contains(s: Seq<Piece>, white: bool, n: int, t: i32)
    requires
        0 <= n <= s.len() <= 64,
    ensures
        occ_squares(s, white, n).contains(t) <==> (0 <= t < n && piece_is_color(
            s[t as int],
            white,
        )),
    decreases n,
{
    if n > 0 {
        lemma_occ_contains(s, white, n - 1, t);
        let prev = occ_squares(s, white, n - 1);
        if piece_is_color(s[n - 1], white) {
            let cur = prev.push((n - 1) as i32);
            if 0 <= t < n && piece_is_color(s[t as int], white) {
                if t == n - 1 {
                    assert(cur[cur.len() - 1] == t);
                    assert(cur.contains(t));
                } else {
                    let i = choose|i: int| 0 <= i < prev.len() && prev[i] == t;
                    assert(cur[i] == t);
                    assert(cur.contains(t));
                }
            }
            if cur.contains(t) {
                let i = choose|i: int| 0 <= i < cur.len() && cur[i] == t;
                if i < prev.len() {
                    assert(prev[i] == t);
                    assert(prev.contains(t));
                }
            }
        }
    }
}

/// Every entry of an occupancy list is a square index in 0..64.
pub proof fn lemma_occ_in_range(s: Seq<Piece>, white: bool, n: int, i: int)
    requires
        0 <= n <= s.len() <= 64,
        0 <= i < occ_squares(s, white, n).len(),
    ensures
        0 <= occ_squares(s, white, n)[i] < n,
        piece_is_color(s[occ_squares(s, white, n)[i] as int], white),
    decreases n,
{
    if n > 0 {
        let prev = occ_squares(s, white, n - 1);
        if i < prev.len() {
            lemma_occ_in_range(s, white, n - 1, i);
        }
    }
}

/// A board whose first n squares are empty has an empty occupancy prefix.
pub proof fn lemma_occ_all_empty(s: Seq<Piece>, white: bool, n: int)
    requires
        forall|i: int| 0 <= i < n ==> #[trigger] s[i] == empty_piece(),
    ensures
        occ_squares(s, white, n) == Seq::<i32>::empty(),
    decreases n,
{
    if n > 0 {
        lemma_occ_all_empty(s, white, n - 1);
    }
}

/// An occupancy list is never longer than the scanned prefix.
pub proof fn lemma_occ_len(s: Seq<Piece>, white: bool, n: int)
    requires
        n >= 0,
    ensures
        occ_squares(s, white, n).len() <= n,
    decreases n,
{
    if n > 0 {
        lemma_occ_len(s, white, n - 1);
    }
}

/// Relocation of the piece on `from` to `to`: the source square is
/// cleared, then the destination overwritten with the moved piece
/// (captures are implicit overwrite). Squares off the board leave the
/// array unchanged; the executable driver rejects such actions.
pub open spec fn apply_action_spec(s: Seq<Piece>, from: int, to: int) -> Seq<Piece> {
    if 0 <= from < s.len() && 0 <= to < s.len() {
        s.update(from, empty_piece()).update(to, s[from])
    } else {
        s
    }
}

/// The 64-square board: the piece array, the two cached per-colour
/// occupancy lists, and two check flags the generator does not maintain.
#[derive(Debug)]
pub struct Board {
    pub array: Vec<Piece>,
    pub white_pieces: Vec<i32>,
    pub black_pieces: Vec<i32>,
    pub white_in_check: bool,
    pub black_in_check: bool,
}

impl Board {
    /// The cache invariant: both occupancy lists equal the scan-ordered
    /// partition of non-empty squares by colour.
    pub open spec fn wf(self) -> bool {
        &&& self.array@.len() == 64
        &&& self.white_pieces@ == occ_squares(self.array@, true, 64)
        &&& self.black_pieces@ == occ_squares(self.array@, false, 64)
    }

    /// Relocates the action's source piece to its destination, then
    /// rebuilds both occupancy lists by a full rescan. Rejects square
    /// indices outside the board rather than reading out of bounds.
    pub fn perform_action(&mut self, action: Action) -> (r: Result<(), ChessError>)
        requires
            old(self).wf(),
        ensures
            r is Ok <==> (0 <= action.from < 64 && 0 <= action.to < 64),
            r is Ok ==> final(self).array@ == apply_action_spec(
                old(self).array@,
                action.from as int,
                action.to as int,
            ),
            r is Err ==> r == Err::<(), ChessError>(ChessError::IndexOutOfRange) && *final(self)
                == *old(self),
            final(self).wf(),
            final(self).white_in_check == old(self).white_in_check,
            final(self).black_in_check == old(self).black_in_check,
    {
        if !(0 <= action.from && action.from < 64 && 0 <= action.to && action.to < 64) {
            return Err(ChessError::IndexOutOfRange);
        }
        self.move_piece_in_array(action.to, action.from);
        self.filter_pieces();
        Ok(())
    }

    /// Rebuilds both occupancy lists from the piece array: a full
    /// 64-slot rescan partitioned by colour.
    pub fn filter_pieces(&mut self)
        requires
            old(self).array@.len() == 64,
        ensures
            final(self).array@ == old(self).array@,
            final(self).white_in_check == old(self).white_in_check,
            final(self).black_in_check == old(self).black_in_check,
            final(self).wf(),
    {
        let mut white_pieces: Vec<i32> = Vec::new();
        let mut black_pieces: Vec<i32> = Vec::new();
        let mut i: usize = 0;
        while i < 64
            invariant
                0 <= i <= 64,
                self.array@.len() == 64,
                white_pieces@ == occ_squares(self.array@, true, i as int),
                black_pieces@ == occ_squares(self.array@, false, i as int),
            decreases 64 - i,
        {
            let piece = self.array[i];
            match piece.piece_type {
                PieceType::Empty => {},
                _ => {
                    if piece.is_white {
                        white_pieces.push(i as i32);
                    } else {
                        black_pieces.push(i as i32);
                    }
                },
            }
            i = i + 1;
        }
        self.white_pieces = white_pieces;
        self.black_pieces = black_pieces;
    }

    /// Moves the piece on `from` to `to` in the array alone, leaving the
    /// cached lists to a following rescan.
    pub fn move_piece_in_array(&mut self, to: i32, from: i32)
        requires
            old(self).array@.len() == 64,
            0 <= to < 64,
            0 <= from < 64,
        ensures
            final(self).array@ == apply_action_spec(old(self).array@, from as int, to as int),
            final(self).white_pieces == old(self).white_pieces,
            final(self).black_pieces == old(self).black_pieces,
            final(self).white_in_check == old(self).white_in_check,
            final(self).black_in_check == old(self).black_in_check,
    {
        let piece_to_move = self.array[from as usize];
        self.array[from as usize] = Piece::new_empty();
        self.array[to as usize] = piece_to_move;
    }

    pub fn pos_has_king(&self, pos: i32) -> (r: bool)
        requires
            self.array@.len() == 64,
            0 <= pos < 64,
        ensures
            r == (self.array@[pos as int].piece_type == PieceType::King),
    {
        self.array[pos as usize].is_king()
    }
}

impl Default for Board {
    /// An all-empty board with empty occupancy lists and clear flags.
    fn default() -> (r: Board)
        ensures
            r.wf(),
            r.array@ == empty_board(),
            r.white_pieces@ == Seq::<i32>::empty(),
            r.black_pieces@ == Seq::<i32>::empty(),
            !r.white_in_check,
            !r.black_in_check,
    {
        let mut array: Vec<Piece> = Vec::new();
        let mut i: usize = 0;
        while i < 64
            invariant
                0 <= i <= 64,
                array@.len() == i,
                forall|j: int| 0 <= j < i ==> #[trigger] array@[j] == empty_piece(),
            decreases 64 - i,
        {
            array.push(Piece::new_empty());
            i = i + 1;
        }
        proof {
            assert(array@ =~= empty_board());
            lemma_occ_all_empty(array@, true, 64);
            lemma_occ_all_empty(array@, false, 64);
        }
        Board {
            array,
            white_pieces: Vec::new(),
            black_pieces: Vec::new(),
            white_in_check: false,
            black_in_check: false,
        }
    }
}

/// The 64 empty squares a board starts from.
pub open spec fn empty_board() -> Seq<Piece> {
    Seq::new(64, |i: int| empty_piece())
}

/// The byte ends the placement field of a position string.
pub open spec fn is_ws_byte(c: u8) -> bool {
    c == 32 || c == 9 || c == 10 || c == 13
}

/// The byte is a digit run-length 1..=8.
pub open spec fn is_run_byte(c: u8) -> bool {
    49 <= c <= 56
}

/// The byte is a letter of the piece catalogue, either case.
pub open spec fn is_piece_byte(c: u8) -> bool {
    c == 112 || c == 80  // p P
    || c == 110 || c == 78  // n N
    || c == 98 || c == 66  // b B
    || c == 114 || c == 82  // r R
    || c == 113 || c == 81  // q Q
    || c == 107 || c == 75  // k K
}

/// The piece a placement byte places, never moved yet.
pub open spec fn piece_of_byte(c: u8) -> Piece {
    piece_of_char(c as char, false)
}

/// The meaning of a placement field, read from byte `i` with the cursor
/// at the given rank and file over the squares `s`: rank-by-rank piece
/// placement starting at rank 7, `/` stepping one rank down, a digit
/// skipping that many files, ending at the first whitespace or the end.
/// `None` when a byte is not in the placement alphabet or the cursor
/// would leave the board.
pub open spec fn parse_placement(b: Seq<u8>, i: int, rank: int, file: int, s: Seq<Piece>) -> Option<
    Seq<Piece>,
>
    decreases b.len() - i,
{
    if i < 0 || i >= b.len() || is_ws_byte(b[i]) {
        Some(s)
    } else if b[i] == 47 {  // '/'
        if rank >= 1 {
            parse_placement(b, i + 1, rank - 1, 0, s)
        } else {
            None
        }
    } else if is_run_byte(b[i]) {
        if file + (b[i] - 48) <= 8 {
            parse_placement(b, i + 1, rank, file + (b[i] - 48), s)
        } else {
            None
        }
    } else if is_piece_byte(b[i]) {
        if file <= 7 {
            parse_placement(b, i + 1, rank, file + 1, s.update(rank * 8 + file, piece_of_byte(b[i])))
        } else {
            None
        }
    } else {
        None
    }
}

/// The board a position string denotes: its placement field read over an
/// all-empty board, from rank 7 file 0.
pub open spec fn fen_board(bytes: Seq<u8>) -> Option<Seq<Piece>> {
    parse_placement(bytes, 0, 7, 0, empty_board())
}

impl Board {
    /// Constructs a board from a single-line positional-notation string:
    /// rank-by-rank piece placement with letters for pieces and digit
    /// run-lengths for empty squares; auxiliary fields after the first
    /// whitespace are accepted and ignored. A malformed placement field
    /// is rejected as `InvalidPosition`.
    pub fn new(fen: &str) -> (r: Result<Board, ChessError>)
        ensures
            r is Ok <==> fen_board(fen.spec_bytes()) is Some,
            r is Ok ==> (r->Ok_0).wf() && (r->Ok_0).array@ == fen_board(fen.spec_bytes())->0
                && !(r->Ok_0).white_in_check && !(r->Ok_0).black_in_check,
            r is Err ==> r == Err::<Board, ChessError>(ChessError::InvalidPosition),
    {
        let mut board = Board::default();
        match Self::initialise_board(&mut board, fen) {
            Ok(()) => {},
            Err(e) => {
                return Err(e);
            },
        }
        Self::filter_pieces(&mut board);
        Ok(board)
    }

    /// Reads the placement field of the position string into the piece
    /// array, leaving the occupancy lists to a following rescan.
    pub fn initialise_board(board: &mut Board, fen: &str) -> (r: Result<(), ChessError>)
        requires
            old(board).array@.len() == 64,
        ensures
            r is Ok <==> parse_placement(fen.spec_bytes(), 0, 7, 0, old(board).array@) is Some,
            r is Ok ==> final(board).array@ == parse_placement(
                fen.spec_bytes(),
                0,
                7,
                0,
                old(board).array@,
            )->0,
            r is Err ==> r == Err::<(), ChessError>(ChessError::InvalidPosition),
            final(board).white_pieces == old(board).white_pieces,
            final(board).black_pieces == old(board).black_pieces,
            final(board).white_in_check == old(board).white_in_check,
            final(board).black_in_check == old(board).black_in_check,
            final(board).array@.len() == 64,
    {
        let bytes: &[u8] = fen.as_bytes();
        let ghost b: Seq<u8> = fen.spec_bytes();
        let mut i: usize = 0;
        let mut rank: i32 = 7;
        let mut file: i32 = 0;
        let n = bytes.len();
        while i < n
            invariant
                bytes@ == b,
                b == fen.spec_bytes(),
                n == b.len(),
                0 <= i <= n,
                0 <= rank <= 7,
                0 <= file <= 8,
                board.array@.len() == 64,
                board.white_pieces == old(board).white_pieces,
                board.black_pieces == old(board).black_pieces,
                board.white_in_check == old(board).white_in_check,
                board.black_in_check == old(board).black_in_check,
                parse_placement(b, 0, 7, 0, old(board).array@) == parse_placement(
                    b,
                    i as int,
                    rank as int,
                    file as int,
                    board.array@,
                ),
            decreases n - i,
        {
            let c = bytes[i];
            if c == 32 || c == 9 || c == 10 || c == 13 {
                proof {
                    assert(parse_placement(b, i as int, rank as int, file as int, board.array@)
                        == Some(board.array@));
                }
                return Ok(());
            } else if c == 47 {
                if rank >= 1 {
                    rank = rank - 1;
                    file = 0;
                } else {
                    return Err(ChessError::InvalidPosition);
                }
            } else if 49 <= c && c <= 56 {
                let run = (c - 48) as i32;
                if file + run <= 8 {
                    file = file + run;
                } else {
                    return Err(ChessError::InvalidPosition);
                }
            } else if c == 112 || c == 80 || c == 110 || c == 78 || c == 98 || c == 66 || c == 114
                || c == 82 || c == 113 || c == 81 || c == 107 || c == 75 {
                if file <= 7 {
                    let piece = Piece::new(c as char, false);
                    let idx = rank * 8 + file;
                    board.array[idx as usize] = piece;
                    file = file + 1;
                } else {
                    return Err(ChessError::InvalidPosition);
                }
            } else {
                return Err(ChessError::InvalidPosition);
            }
            i = i + 1;
        }
        proof {
            assert(parse_placement(b, i as int, rank as int, file as int, board.array@) == Some(
                board.array@,
            ));
        }
        Ok(())
    }
}

impl Clone for Board {
    /// Copying a board duplicates all 64 slots and both cached lists.
    fn clone(&self) -> (r: Board)
        ensures
            r.array@ == self.array@,
            r.white_pieces@ == self.white_pieces@,
            r.black_pieces@ == self.black_pieces@,
            r.white_in_check == self.white_in_check,
            r.black_in_check == self.black_in_check,
    {
        Board {
            array: copy_piece_vec(&self.array),
            white_pieces: copy_index_vec(&self.white_pieces),
            black_pieces: copy_index_vec(&self.black_pieces),
            white_in_check: self.white_in_check,
            black_in_check: self.black_in_check,
        }
    }
}

fn copy_piece_vec(v: &Vec<Piece>) -> (r: Vec<Piece>)
    ensures
        r@ == v@,
{
    let mut r: Vec<Piece> = Vec::new();
    let mut i: usize = 0;
    while i < v.len()
        invariant
            0 <= i <= v.len(),
            r@ == v@.take(i as int),
        decreases v.len() - i,
    {
        r.push(v[i]);
        proof {
            assert(r@ =~= v@.take(i + 1));
        }
        i = i + 1;
    }
    proof {
        assert(v@.take(v@.len() as int) =~= v@);
    }
    r
}

fn copy_index_vec(v: &Vec<i32>) -> (r: Vec<i32>)
    ensures
        r@ == v@,
{
    let mut r: Vec<i32> = Vec::new();
    let mut i: usize = 0;
    while i < v.len()
        invariant
            0 <= i <= v.len(),
            r@ == v@.take(i as int),
        decreases v.len() - i,
    {
        r.push(v[i]);
        proof {
            assert(r@ =~= v@.take(i + 1));
        }
        i = i + 1;
    }
    proof {
        assert(v@.take(v@.len() as int) =~= v@);
    }
    r
}

} // verus!
