use chess_rules::board::Board;
use chess_rules::board::Colour;
use chess_rules::board::Piece;
use chess_rules::board::PieceType;
use chess_rules::logic::get_valid_moves;
use chess_rules::logic::is_valid_move;
use chess_rules::logic::Move;

fn empty_squares() -> Vec<Option<Piece>> {
    vec![None; 64]
}

#[test]
fn test_valid_pawn_move() {
    let mut squares = empty_squares();
    squares[8] = Some(Piece::new(Colour::Black, PieceType::Pawn));
    let board = Board::new(squares);

    assert!(is_valid_move(&board, 8, 16));
}

#[test]
fn test_valid_pawn_double_move() {
    let mut squares = empty_squares();
    squares[8] = Some(Piece::new(Colour::Black, PieceType::Pawn));
    let board = Board::new(squares);
    assert!(is_valid_move(&board, 8, 16));
}

#[test]
fn test_valid_rook_move() {
    let mut squares = empty_squares();
    squares[0] = Some(Piece::new(Colour::White, PieceType::Rook));
    let board = Board::new(squares);
    assert!(is_valid_move(&board, 0, 7)); // Horizontal move
}

#[test]
fn test_valid_queen_move() {
    let mut squares = empty_squares();
    squares[3] = Some(Piece::new(Colour::Black, PieceType::Queen));
    let board = Board::new(squares);
    assert!(is_valid_move(&board, 3, 59));
}

#[test]
fn test_valid_king_move() {
    let mut squares = empty_squares();
    squares[4] = Some(Piece::new(Colour::White, PieceType::King));
    let board = Board::new(squares);
    assert!(is_valid_move(&board, 4, 5)); // One-square move
}

#[test]
fn test_knight_moves() {
    let mut squares = empty_squares();
    squares[1] = Some(Piece::new(Colour::White, PieceType::Knight));
    let board = Board::new(squares);
    // (row, col) differences of (1, 2) and (2, 1) are knight offsets
    assert!(is_valid_move(&board, 1, 11));
    assert!(is_valid_move(&board, 1, 16));
    assert!(is_valid_move(&board, 1, 18));
    // a diagonal step is not a knight offset
    assert!(!is_valid_move(&board, 1, 10));
}

#[test]
fn test_knight_capture() {
    let mut squares = empty_squares();
    squares[1] = Some(Piece::new(Colour::White, PieceType::Knight));
    squares[11] = Some(Piece::new(Colour::Black, PieceType::Pawn));
    squares[16] = Some(Piece::new(Colour::White, PieceType::Pawn));
    let board = Board::new(squares);
    // capturing the opposite colour is allowed, landing on one's own is not
    assert!(is_valid_move(&board, 1, 11));
    assert!(!is_valid_move(&board, 1, 16));
}

#[test]
fn test_bishop_moves() {
    let mut squares = empty_squares();
    squares[28] = Some(Piece::new(Colour::White, PieceType::Bishop));
    let board = Board::new(squares);
    // index differences that are multiples of 7 or 9 pass the delta test
    assert!(is_valid_move(&board, 28, 37));
    assert!(is_valid_move(&board, 28, 42));
    assert!(is_valid_move(&board, 28, 21));
    // 28 -> 9 differs by 19, a multiple of neither 7 nor 9
    assert!(!is_valid_move(&board, 28, 9));
}

#[test]
fn test_blocked_bishop() {
    let mut squares = empty_squares();
    squares[28] = Some(Piece::new(Colour::White, PieceType::Bishop));
    squares[30] = Some(Piece::new(Colour::White, PieceType::Pawn));
    let board = Board::new(squares);
    // the walk from 28 towards 42 meets the piece on 30, whatever its colour
    assert!(!is_valid_move(&board, 28, 42));

    let mut squares = empty_squares();
    squares[28] = Some(Piece::new(Colour::White, PieceType::Bishop));
    squares[30] = Some(Piece::new(Colour::Black, PieceType::Pawn));
    let board = Board::new(squares);
    assert!(!is_valid_move(&board, 28, 42));
}

#[test]
fn test_blocked_rook() {
    let mut squares = empty_squares();
    squares[0] = Some(Piece::new(Colour::White, PieceType::Rook));
    squares[3] = Some(Piece::new(Colour::Black, PieceType::Knight));
    let board = Board::new(squares);
    assert!(!is_valid_move(&board, 0, 7));
    // up to the blocker the rank stays reachable, and the blocker itself
    // can be captured
    assert!(is_valid_move(&board, 0, 2));
    assert!(is_valid_move(&board, 0, 3));
}

#[test]
fn test_rook_same_file() {
    let mut squares = empty_squares();
    squares[0] = Some(Piece::new(Colour::White, PieceType::Rook));
    let board = Board::new(squares);
    // aiming within the same file, the walk steps by zero and is blocked
    // by the rook itself
    assert!(!is_valid_move(&board, 0, 8));
    assert!(!is_valid_move(&board, 0, 56));
}

#[test]
fn test_blocked_queen() {
    let mut squares = empty_squares();
    squares[3] = Some(Piece::new(Colour::Black, PieceType::Queen));
    squares[4] = Some(Piece::new(Colour::Black, PieceType::Rook));
    let board = Board::new(squares);
    // both walks from 3 towards 59 are blocked: the same-file walk by the
    // queen itself, the linear walk by the piece on 4
    assert!(!is_valid_move(&board, 3, 59));
}

#[test]
fn test_pawn_capture() {
    let mut squares = empty_squares();
    squares[8] = Some(Piece::new(Colour::Black, PieceType::Pawn));
    squares[17] = Some(Piece::new(Colour::White, PieceType::Knight));
    let board = Board::new(squares);
    assert!(is_valid_move(&board, 8, 17));

    let mut squares = empty_squares();
    squares[8] = Some(Piece::new(Colour::Black, PieceType::Pawn));
    squares[17] = Some(Piece::new(Colour::Black, PieceType::Knight));
    let board = Board::new(squares);
    // a pawn cannot capture its own colour
    assert!(!is_valid_move(&board, 8, 17));

    let mut squares = empty_squares();
    squares[8] = Some(Piece::new(Colour::Black, PieceType::Pawn));
    let board = Board::new(squares);
    // the diagonal step needs a capture
    assert!(!is_valid_move(&board, 8, 17));
}

#[test]
fn test_white_pawn_moves() {
    let mut squares = empty_squares();
    squares[48] = Some(Piece::new(Colour::White, PieceType::Pawn));
    let board = Board::new(squares);
    // White advances towards lower squares; row 6 is its double-step row
    assert!(is_valid_move(&board, 48, 40));
    assert!(is_valid_move(&board, 48, 32));
    assert!(!is_valid_move(&board, 48, 56));

    let mut squares = empty_squares();
    squares[48] = Some(Piece::new(Colour::White, PieceType::Pawn));
    squares[40] = Some(Piece::new(Colour::Black, PieceType::Pawn));
    let board = Board::new(squares);
    // the double step needs both squares empty
    assert!(!is_valid_move(&board, 48, 32));
    assert!(!is_valid_move(&board, 48, 40));

    let mut squares = empty_squares();
    squares[40] = Some(Piece::new(Colour::White, PieceType::Pawn));
    let board = Board::new(squares);
    // no double step away from row 6
    assert!(!is_valid_move(&board, 40, 24));
}

#[test]
fn test_black_pawn_double_move() {
    let mut squares = empty_squares();
    squares[8] = Some(Piece::new(Colour::Black, PieceType::Pawn));
    let board = Board::new(squares);
    // row 1 is Black's double-step row
    assert!(is_valid_move(&board, 8, 24));

    let mut squares = empty_squares();
    squares[8] = Some(Piece::new(Colour::Black, PieceType::Pawn));
    squares[16] = Some(Piece::new(Colour::White, PieceType::Pawn));
    let board = Board::new(squares);
    // both the crossed square and the destination must be empty
    assert!(!is_valid_move(&board, 8, 24));
    assert!(!is_valid_move(&board, 8, 16));

    let mut squares = empty_squares();
    squares[16] = Some(Piece::new(Colour::Black, PieceType::Pawn));
    let board = Board::new(squares);
    // no double step away from row 1
    assert!(!is_valid_move(&board, 16, 32));
}

#[test]
fn test_rejects_degenerate_pairs() {
    let board = Board::default();
    // same square, off-board destination, empty source
    assert!(!is_valid_move(&board, 0, 0));
    assert!(!is_valid_move(&board, 0, 64));
    assert!(!is_valid_move(&board, 0, 1000));
    assert!(!is_valid_move(&board, 20, 28));
}

#[test]
fn test_get_valid_moves_matches_is_valid_move() {
    let board = Board::default();
    for from in 0..64 {
        let moves = get_valid_moves(&board, from);
        let brute: Vec<usize> = (0..64).filter(|&to| is_valid_move(&board, from, to)).collect();
        assert_eq!(moves, brute);
        // ascending order, hence no duplicates
        for w in moves.windows(2) {
            assert!(w[0] < w[1]);
        }
    }
}

#[test]
fn test_get_valid_moves_knight() {
    let mut squares = empty_squares();
    squares[1] = Some(Piece::new(Colour::White, PieceType::Knight));
    let board = Board::new(squares);
    let moves = get_valid_moves(&board, 1);
    assert_eq!(moves, vec![11, 16, 18]);
}

#[test]
fn test_move_accessors() {
    let m = Move::new(12, 28);
    assert_eq!(m.from(), 12);
    assert_eq!(m.to(), 28);
}
