use rust_krabs::action::{Action, ActionType};
use rust_krabs::action_generator::ActionGenerator;
use rust_krabs::board::Board;
use rust_krabs::directions::{allowed_directions, DirectionName, EAST, NORTH, SOUTH, WEST};
use rust_krabs::engine::Engine;
use rust_krabs::error::ChessError;
use rust_krabs::piece::{Piece, PieceType};
use rust_krabs::precomputed_data::{MovesToEdge, PrecomputedData};

const START_FEN: &str = "rnbqkbnr/pppppppp/8/8/8/8/PPPPPPPP/RNBQKBNR w KQkq - 0 1";

// GEOMETRY TABLE

#[test]
fn edge_distances_at_center() {
    let data = PrecomputedData::calculate();
    assert_eq!(data.get_edge_distance(27, DirectionName::North), 3);
    assert_eq!(data.get_edge_distance(27, DirectionName::South), 4);
    assert_eq!(data.get_edge_distance(27, DirectionName::East), 4);
    assert_eq!(data.get_edge_distance(27, DirectionName::West), 3);
    assert_eq!(data.get_edge_distance(27, DirectionName::NorthEast), 3);
    assert_eq!(data.get_edge_distance(27, DirectionName::SouthWest), 3);
}

#[test]
fn edge_distances_at_corners() {
    let data = PrecomputedData::calculate();
    assert_eq!(data.get_edge_distance(0, DirectionName::North), 0);
    assert_eq!(data.get_edge_distance(0, DirectionName::South), 7);
    assert_eq!(data.get_edge_distance(0, DirectionName::East), 7);
    assert_eq!(data.get_edge_distance(0, DirectionName::SouthEast), 7);
    assert_eq!(data.get_edge_distance(0, DirectionName::NorthWest), 0);
    assert_eq!(data.get_edge_distance(63, DirectionName::South), 0);
    assert_eq!(data.get_edge_distance(63, DirectionName::North), 7);
    assert_eq!(data.get_edge_distance(63, DirectionName::NorthWest), 7);
}

#[test]
fn moves_to_edge_entry_fields() {
    let entry = MovesToEdge::new(0, 0);
    assert_eq!(entry.get(DirectionName::South), 7);
    assert_eq!(entry.get(DirectionName::North), 0);
    assert_eq!(entry.get(DirectionName::East), 7);
    assert_eq!(entry.get(DirectionName::SouthEast), 7);
    assert_eq!(entry.get(DirectionName::SouthWest), 0);
}

// DIRECTION CATALOGUE

#[test]
fn allowed_directions_per_piece() {
    assert_eq!(allowed_directions(PieceType::Rook, true).len(), 4);
    assert_eq!(allowed_directions(PieceType::Bishop, true).len(), 4);
    assert_eq!(allowed_directions(PieceType::Queen, true).len(), 8);
    assert_eq!(allowed_directions(PieceType::King, true).len(), 8);
    assert_eq!(allowed_directions(PieceType::Knight, true).len(), 4);
    assert_eq!(allowed_directions(PieceType::Empty, true).len(), 0);

    let white_pawn = allowed_directions(PieceType::Pawn, true);
    assert_eq!(white_pawn.len(), 3);
    assert_eq!(white_pawn[0].offset, SOUTH);
    assert_eq!(white_pawn[0].limit, 2);
    assert_eq!(white_pawn[1].limit, 1);

    let black_pawn = allowed_directions(PieceType::Pawn, false);
    assert_eq!(black_pawn[0].offset, NORTH);

    let rook = allowed_directions(PieceType::Rook, true);
    assert_eq!(rook[0].offset, NORTH);
    assert_eq!(rook[1].offset, EAST);
    assert_eq!(rook[2].offset, SOUTH);
    assert_eq!(rook[3].offset, WEST);
}

// SLIDER GENERATION

#[test]
fn slider_stops_at_friendly_and_captures_first_enemy() {
    let gen = ActionGenerator {
        current_indices: vec![0, 2],
        opposition_indicies: vec![16],
        precomputed: PrecomputedData::default(),
    };
    let moves = gen.generate_sliding_moves(0, PieceType::Rook, true);
    // east: square 1 only (2 is friendly); south: 8, then the capture on
    // 16 ends the ray; north and west are on the edge
    assert_eq!(moves.len(), 3);
    assert_eq!(moves[0].from, 0);
    assert_eq!(moves[0].to, 1);
    assert_eq!(moves[1].to, 8);
    assert_eq!(moves[2].to, 16);
}

#[test]
fn king_moves_single_step() {
    let gen = ActionGenerator {
        current_indices: vec![27, 28],
        opposition_indicies: vec![19],
        precomputed: PrecomputedData::default(),
    };
    let moves = gen.generate_sliding_moves(27, PieceType::King, true);
    // seven neighbours, minus the friendly square 28; the opponent on 19
    // is a capture
    assert_eq!(moves.len(), 7);
}

// OCCUPANCY LISTS

#[test]
fn occupancy_lists_follow_action_application() {
    let mut board = Board::new("8/8/8/8/8/8/P7/8 w - - 0 1").unwrap();
    assert_eq!(board.white_pieces, vec![8]);
    assert!(board.black_pieces.is_empty());

    board.perform_action(Action::new(8, 16, None)).unwrap();
    assert_eq!(board.white_pieces, vec![16]);
    assert!(board.black_pieces.is_empty());
    assert_eq!(board.array[16].piece_type, PieceType::Pawn);
    assert_eq!(board.array[8].piece_type, PieceType::Empty);
}

#[test]
fn capture_removes_opponent_from_lists() {
    let mut board = Board::new("8/8/8/8/8/1p6/P7/8 w - - 0 1").unwrap();
    assert_eq!(board.white_pieces, vec![8]);
    assert_eq!(board.black_pieces, vec![17]);

    board.perform_action(Action::new(8, 17, None)).unwrap();
    assert_eq!(board.white_pieces, vec![17]);
    assert!(board.black_pieces.is_empty());
}

#[test]
fn perform_action_rejects_out_of_range_squares() {
    let mut board = Board::new("8/8/8/8/8/8/P7/8 w - - 0 1").unwrap();
    let result = board.perform_action(Action::new(8, 99, None));
    assert_eq!(result, Err(ChessError::IndexOutOfRange));
    assert_eq!(board.white_pieces, vec![8]);
}

// STARTING POSITION

#[test]
fn starting_position_first_ply_action_count() {
    let board = Board::new(START_FEN).unwrap();
    let mut gen = ActionGenerator::default();
    let actions = gen.generate_valid_actions(board, true);
    assert_eq!(actions.len(), 20);
}

#[test]
fn search_at_depth_one_counts_twenty_nodes() {
    let mut engine = Engine::new(START_FEN).unwrap();
    engine.max_depth = 1;
    assert_eq!(engine.evaluate(), Ok(20));
}

#[test]
fn search_at_depth_two_counts_both_plies() {
    let mut engine = Engine::new(START_FEN).unwrap();
    engine.max_depth = 2;
    assert_eq!(engine.evaluate(), Ok(420));
}

// DETERMINISM

#[test]
fn generating_twice_yields_identical_actions() {
    let board = Board::new(START_FEN).unwrap();
    let mut gen = ActionGenerator::default();
    let first = gen.generate_valid_actions(board.clone(), true);
    let second = gen.generate_valid_actions(board, true);
    assert_eq!(first, second);
}

// ERRORS

#[test]
fn malformed_position_is_rejected() {
    assert!(matches!(Board::new("x7/8"), Err(ChessError::InvalidPosition)));
    assert!(matches!(Board::new("9/8"), Err(ChessError::InvalidPosition)));
    assert!(matches!(
        Board::new("8/8/8/8/8/8/8/8/8"),
        Err(ChessError::InvalidPosition)
    ));
    assert!(matches!(
        Board::new("ppppppppp"),
        Err(ChessError::InvalidPosition)
    ));
}

#[test]
fn missing_king_is_reported() {
    let gen = ActionGenerator::default();
    let board = Board::new("8/8/8/8/8/8/P7/8 w - - 0 1").unwrap();
    assert_eq!(gen.king_in_check(&board, true), Err(ChessError::KingNotFound));
}

#[test]
fn search_surfaces_pawn_push_off_the_board() {
    // a white pawn on its own last rank generates a push off the board
    let mut engine = Engine::new("P7/8/8/8/8/8/8/8 w - - 0 1").unwrap();
    engine.max_depth = 1;
    assert_eq!(engine.evaluate(), Err(ChessError::IndexOutOfRange));
}

// KING SAFETY: THE COMPLETE ATTACKER SCAN

#[test]
fn king_in_check_by_queen_on_rook_ray() {
    let gen = ActionGenerator::default();
    let board = Board::new("8/8/8/8/8/8/1q2K3/8 w - - 0 1").unwrap();
    assert!(gen.king_in_check(&board, true).unwrap());
}

#[test]
fn king_in_check_by_knight() {
    let gen = ActionGenerator::default();
    let board = Board::new("8/8/8/3n4/8/2K5/8/8 w - - 0 1").unwrap();
    assert!(gen.king_in_check(&board, true).unwrap());
}

#[test]
fn king_in_check_by_pawn() {
    let gen = ActionGenerator::default();
    let board = Board::new("8/8/8/8/1p6/2K5/8/8 w - - 0 1").unwrap();
    assert!(gen.king_in_check(&board, true).unwrap());
}

#[test]
fn king_in_check_by_adjacent_king() {
    let gen = ActionGenerator::default();
    let board = Board::new("8/8/8/8/3k4/2K5/8/8 w - - 0 1").unwrap();
    assert!(gen.king_in_check(&board, true).unwrap());
}

#[test]
fn king_not_in_check_behind_blocker() {
    let gen = ActionGenerator::default();
    let board = Board::new("8/8/8/8/8/8/1r1PK3/8 w - - 0 1").unwrap();
    assert!(!gen.king_in_check(&board, true).unwrap());
}

#[test]
fn black_king_in_check_by_white_pawn() {
    let gen = ActionGenerator::default();
    let board = Board::new("8/8/8/3k4/2P5/8/8/8 w - - 0 1").unwrap();
    assert!(gen.king_in_check(&board, false).unwrap());
}

// PIECES AND ACTIONS

#[test]
fn piece_values() {
    assert_eq!(Piece::new('P', false).get_value(), 1);
    assert_eq!(Piece::new('n', false).get_value(), 3);
    assert_eq!(Piece::new('b', false).get_value(), 3);
    assert_eq!(Piece::new('R', false).get_value(), 5);
    assert_eq!(Piece::new('q', false).get_value(), 9);
    assert_eq!(Piece::new('K', false).get_value(), 15);
    assert_eq!(Piece::new_empty().get_value(), 0);
}

#[test]
fn piece_letters_round_trip() {
    assert_eq!(PieceType::new_from_char(&'p'), PieceType::Pawn);
    assert_eq!(PieceType::new_from_char(&'N'), PieceType::Knight);
    assert_eq!(PieceType::new_from_char(&'z'), PieceType::Empty);
    assert_eq!(PieceType::Rook.get_char(), 'r');
    assert_eq!(PieceType::Queen.get_fancy_char_white(), '♕');
    assert!(Piece::new('K', false).is_king());
    assert!(!Piece::new('Q', false).is_king());
    assert!(Piece::new('K', false).is_white);
    assert!(!Piece::new('k', false).is_white);
}

#[test]
fn action_construction() {
    let plain = Action::new(3, 11, None);
    assert_eq!(plain.from, 3);
    assert_eq!(plain.to, 11);
    assert!(matches!(plain.action_type, ActionType::Normal));

    let castle = Action::new(4, 6, Some(ActionType::Castle));
    assert!(matches!(castle.action_type, ActionType::Castle));
}

#[test]
fn board_reports_king_squares() {
    let board = Board::new(START_FEN).unwrap();
    assert!(board.pos_has_king(4));
    assert!(board.pos_has_king(60));
    assert!(!board.pos_has_king(0));
}

#[test]
fn engine_demonstration_move() {
    let engine = Engine::new("8/8/8/8/8/8/8/R7 w - - 0 1").unwrap();
    let moved = engine.move_piece();
    assert_eq!(moved.array[32].piece_type, PieceType::Rook);
    assert_eq!(moved.array[0].piece_type, PieceType::Empty);
    // the engine's own board is untouched
    assert_eq!(engine.board.array[0].piece_type, PieceType::Rook);
}

// PAWN EDGE CASES

#[test]
fn pawn_blocked_double_square_gets_single_push_only() {
    let gen = ActionGenerator {
        current_indices: vec![],
        opposition_indicies: vec![24],
        precomputed: PrecomputedData::default(),
    };
    let moves = gen.generate_pawn_moves(8, true, false);
    assert_eq!(moves.len(), 1);
    assert_eq!(moves[0].to, 16);
}

#[test]
fn pawn_push_targets_are_in_order() {
    let gen = ActionGenerator::default();
    let moves = gen.generate_pawn_moves(8, true, false);
    assert_eq!(moves[0].to, 16);
    assert_eq!(moves[1].to, 24);
}
