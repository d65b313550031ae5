use vstd::prelude::*;

verus! {

/// One board slot: a piece kind, its colour, and whether it has moved.
/// The colour is meaningful only when the kind is not `Empty`; the
/// has-moved flag gates pawn double-push eligibility only.
#[derive(Debug, Clone, Copy, PartialEq, Eq, Structural)]
pub struct Piece {
    pub has_moved: bool,
    pub piece_type: PieceType,
    pub is_white: bool,
}

#[derive(Debug, Clone, Copy, Eq, PartialEq, Structural)]
pub enum PieceType {
    Pawn,
    Knight,
    Bishop,
    Rook,
    Queen,
    King,
    Empty,
}

/// The piece kind written as a given letter: upper or lower case selects
/// the same kind, and any letter outside the catalogue reads as `Empty`.
pub open spec fn piece_type_of_char(c: char) -> PieceType {
    match c {
        'p' | 'P' => PieceType::Pawn,
        'b' | 'B' => PieceType::Bishop,
        'n' | 'N' => PieceType::Knight,
        'r' | 'R' => PieceType::Rook,
        'q' | 'Q' => PieceType::Queen,
        'k' | 'K' => PieceType::King,
        _ => PieceType::Empty,
    }
}

pub open spec fn char_is_uppercase(c: char) -> bool {
    'A' as int <= c as int && c as int <= 'Z' as int
}

/// The piece a position-string letter denotes: kind from the letter,
/// white if and only if the letter is upper case.
pub open spec fn piece_of_char(c: char, has_moved: bool) -> Piece {
    Piece {
        has_moved,
        piece_type: piece_type_of_char(c),
        is_white: char_is_uppercase(c),
    }
}

/// The piece that fills an unoccupied slot.
pub open spec fn empty_piece() -> Piece {
    Piece { has_moved: false, piece_type: PieceType::Empty, is_white: false }
}

pub open spec fn piece_type_value(pt: PieceType) -> int {
    match pt {
        PieceType::Pawn => 1,
        PieceType::Rook => 5,
        PieceType::King => 15,
        PieceType::Queen => 9,
        PieceType::Bishop => 3,
        PieceType::Knight => 3,
        PieceType::Empty => 0,
    }
}

impl Piece {
    pub fn new(c: char, has_moved: bool) -> (r: Piece)
        ensures
            r == piece_of_char(c, has_moved),
    {
        let u = c as u32;
        Piece {
            has_moved,
            piece_type: PieceType::new_from_char(&c),
            is_white: 65 <= u && u <= 90,
        }
    }

    pub fn new_empty() -> (r: Piece)
        ensures
            r == empty_piece(),
    {
        Piece { has_moved: false, piece_type: PieceType::Empty, is_white: false }
    }

    pub fn get_value(&self) -> (r: i32)
        ensures
            r == piece_type_value(self.piece_type),
    {
        self.piece_type.value()
    }

    pub fn get_char(&self) -> (r: char)
        ensures
            self.is_white ==> r == fancy_char_white(self.piece_type),
            !self.is_white ==> r == plain_char(self.piece_type),
    {
        if self.is_white {
            return self.piece_type.get_fancy_char_white();
        }
        self.piece_type.get_char()
    }

    pub fn is_king(&self) -> (r: bool)
        ensures
            r == (self.piece_type == PieceType::King),
    {
        self.piece_type == PieceType::King
    }
}

pub open spec fn plain_char(pt: PieceType) -> char {
    match pt {
        PieceType::Pawn => 'p',
        PieceType::Bishop => 'b',
        PieceType::Knight => 'n',
        PieceType::Rook => 'r',
        PieceType::Queen => 'q',
        PieceType::King => 'k',
        PieceType::Empty => ' ',
    }
}

pub open spec fn fancy_char_white(pt: PieceType) -> char {
    match pt {
        PieceType::Pawn => '♙',
        PieceType::Bishop => '♗',
        PieceType::Knight => '♘',
        PieceType::Rook => '♖',
        PieceType::Queen => '♕',
        PieceType::King => '♚',
        PieceType::Empty => ' ',
    }
}

impl PieceType {
    pub fn new_from_char(c: &char) -> (r: PieceType)
        ensures
            r == piece_type_of_char(*c),
    {
        match *c {
            'p' | 'P' => PieceType::Pawn,
            'b' | 'B' => PieceType::Bishop,
            'n' | 'N' => PieceType::Knight,
            'r' | 'R' => PieceType::Rook,
            'q' | 'Q' => PieceType::Queen,
            'k' | 'K' => PieceType::King,
            _ => PieceType::Empty,
        }
    }

    pub fn get_char(&self) -> (r: char)
        ensures
            r == plain_char(*self),
    {
        match self {
            PieceType::Pawn => 'p',
            PieceType::Bishop => 'b',
            PieceType::Knight => 'n',
            PieceType::Rook => 'r',
            PieceType::Queen => 'q',
            PieceType::King => 'k',
            PieceType::Empty => ' ',
        }
    }

    pub fn get_fancy_char_white(&self) -> (r: char)
        ensures
            r == fancy_char_white(*self),
    {
        match self {
            PieceType::Pawn => '♙',
            PieceType::Bishop => '♗',
            PieceType::Knight => '♘',
            PieceType::Rook => '♖',
            PieceType::Queen => '♕',
            PieceType::King => '♚',
            PieceType::Empty => ' ',
        }
    }

    pub fn value(&self) -> (r: i32)
        ensures
            r == piece_type_value(*self),
    {
        match self {
            PieceType::Pawn => 1,
            PieceType::Rook => 5,
            PieceType::King => 15,
            PieceType::Queen => 9,
            PieceType::Bishop => 3,
            PieceType::Knight => 3,
            PieceType::Empty => 0,
        }
    }
}

impl Default for PieceType {
    fn default() -> (r: PieceType)
        ensures
            r == PieceType::Empty,
    {
        PieceType::Empty
    }
}

} // verus!
