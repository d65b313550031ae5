use rust_krabs::action_generator::ActionGenerator;
use rust_krabs::board::Board;
use rust_krabs::precomputed_data::PrecomputedData;

// KNIGHT MOVES

#[test]
fn generate_knight_moves_at_center_board() {
    let gen = ActionGenerator::default();

    let moves = gen.generate_knight_moves(27);

    assert_eq!(moves.len(), 8);
}

#[test]
fn generate_knight_moves_at_corner() {
    let gen = ActionGenerator::default();

    let mut moves = gen.generate_knight_moves(0); // bottom left
    moves.extend(gen.generate_knight_moves(7)); // bottom right
    moves.extend(gen.generate_knight_moves(63)); // top right
    moves.extend(gen.generate_knight_moves(56)); // top left

    assert_eq!(moves.len(), 8);
}

#[test]
fn generate_knight_moves_at_center_edge() {
    let gen = ActionGenerator::default();

    let moves = gen.generate_knight_moves(24);

    assert_eq!(moves.len(), 4);
}

#[test]
fn generate_knight_moves_at_corner_edge() {
    let gen = ActionGenerator::default();

    let moves = gen.generate_knight_moves(15);

    assert_eq!(moves.len(), 3);
}

#[test]
fn generate_knight_moves_with_blocks() {
    let gen = ActionGenerator {
        current_indices: vec![10, 17],
        opposition_indicies: vec![],
        precomputed: PrecomputedData::default(),
    };
    let moves = gen.generate_knight_moves(0);

    assert_eq!(moves.len(), 0);
}

#[test]
fn generate_knight_moves_with_with_captures() {
    let gen = ActionGenerator {
        opposition_indicies: vec![10, 17],
        current_indices: vec![],
        precomputed: PrecomputedData::default(),
    };

    let moves = gen.generate_knight_moves(0);

    assert_eq!(moves.len(), 2);
}

// PAWN MOVES - WHITE

#[test]
fn generate_pawn_moves_white_when_not_moved_and_no_captures() {
    let gen = ActionGenerator::default();
    let moves = gen.generate_pawn_moves(8, true, false);

    assert_eq!(moves.len(), 2);
}

#[test]
fn generate_pawn_moves_white_when_has_moved_and_no_caps() {
    let gen = ActionGenerator::default();
    let moves = gen.generate_pawn_moves(8, true, true);

    assert_eq!(moves.len(), 1);
}

#[test]
fn generate_pawn_moves_white_when_not_moved_and_captures() {
    let gen = ActionGenerator {
        opposition_indicies: vec![10, 17],
        current_indices: vec![],
        precomputed: PrecomputedData::default(),
    };
    let moves = gen.generate_pawn_moves(8, true, false);

    assert_eq!(moves.len(), 3);
}

#[test]
fn generate_pawn_moves_white_when_not_moved_and_captures_and_blocks() {
    let gen = ActionGenerator {
        opposition_indicies: vec![10, 17],
        current_indices: vec![16],
        precomputed: PrecomputedData::default(),
    };
    let moves = gen.generate_pawn_moves(8, true, false);

    assert_eq!(moves.len(), 1);
}

// PAWN MOVES - BLACK

#[test]
fn generate_pawn_moves_black_when_not_moved_and_no_captures() {
    let gen = ActionGenerator::default();
    let moves = gen.generate_pawn_moves(43, false, false);

    assert_eq!(moves.len(), 2);
}

#[test]
fn generate_pawn_moves_black_when_has_moved_and_no_caps() {
    let gen = ActionGenerator::default();
    let moves = gen.generate_pawn_moves(43, false, true);

    assert_eq!(moves.len(), 1);
}

#[test]
fn generate_pawn_moves_black_when_not_moved_and_captures() {
    let gen = ActionGenerator {
        opposition_indicies: vec![8],
        current_indices: vec![],
        precomputed: PrecomputedData::default(),
    };

    let moves = gen.generate_pawn_moves(17, false, false);
    assert_eq!(moves.len(), 3);
}

#[test]
fn generate_pawn_moves_black_when_not_moved_and_captures_and_blocks() {
    let gen = ActionGenerator {
        opposition_indicies: vec![10, 8],
        current_indices: vec![9],
        precomputed: PrecomputedData::default(),
    };
    let moves = gen.generate_pawn_moves(17, false, false);

    assert_eq!(moves.len(), 2);
}

#[test]
fn king_in_check_white_complex_no_check() {
    let gen = ActionGenerator {
        opposition_indicies: vec![10, 8],
        current_indices: vec![9],
        precomputed: PrecomputedData::default(),
    };
    let board = Board::new("b2r2b1/1B3B2/3R4/2RK2Rr/r3B3/1B1R1b2/8/3r4 w - - 0 1").unwrap();
    let actual = gen.king_in_check(&board, true).unwrap();
    assert!(!actual);
}

#[test]
fn king_in_check_white_rook_s() {
    let gen = ActionGenerator {
        opposition_indicies: vec![10, 8],
        current_indices: vec![9],
        precomputed: PrecomputedData::default(),
    };
    let board = Board::new("8/8/8/8/8/8/1r2K3/8 w - - 0 1").unwrap();
    let actual = gen.king_in_check(&board, true).unwrap();
    assert!(actual);
}

#[test]
fn king_in_check_white_rook_w() {
    let gen = ActionGenerator {
        opposition_indicies: vec![10, 8],
        current_indices: vec![9],
        precomputed: PrecomputedData::default(),
    };
    let board = Board::new("8/8/8/8/8/8/1r2K3/8 w - - 0 1").unwrap();
    let actual = gen.king_in_check(&board, true).unwrap();
    assert!(actual);
}

#[test]
fn king_in_check_white_bishop_nw() {
    let gen = ActionGenerator {
        opposition_indicies: vec![10, 8],
        current_indices: vec![9],
        precomputed: PrecomputedData::default(),
    };
    let board = Board::new("8/8/8/8/b7/8/2K5/8 w - - 0 1").unwrap();
    let actual = gen.king_in_check(&board, true).unwrap();
    assert!(actual);
}

#[test]
fn king_in_check_white_bishop_ne() {
    let gen = ActionGenerator {
        opposition_indicies: vec![10, 8],
        current_indices: vec![9],
        precomputed: PrecomputedData::default(),
    };
    let board = Board::new("8/8/8/5b2/8/8/2K5/8 w - - 0 1").unwrap();
    let actual = gen.king_in_check(&board, true).unwrap();
    assert!(actual);
}
