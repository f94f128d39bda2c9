//! What this library asks of the `chess` crate. Nothing here is proved: each
//! function is believed to do what its contract says, on the strength of the
//! crate's source.
//!
//! A board is known to the rest of the library by the FEN text that the crate
//! writes for it. What the crate computes from a board is named as a function
//! of that text: the text shows the pieces, the side to move, the castling
//! rights and the en passant square, which is all that the rules of chess
//! read. The side to move is read off the text itself.

use vstd::prelude::*;
use crate::position::{Move, Piece, Side, Status};

verus! {

/// `chess::Board`, carried through as an opaque value.
#[verifier::external_type_specification]
#[verifier::external_body]
pub struct ExBoard(chess::Board);

/// The FEN text that `chess::Board` writes for a board through `Display`.
pub uninterp spec fn board_text(board: chess::Board) -> Seq<char>;

/// The legal moves in the position with the given text, in the order in which
/// `chess::MoveGen::new_legal` hands them out.
pub uninterp spec fn moves_of(text: Seq<char>) -> Seq<Move>;

/// The text of the position that `chess::Board::make_move_new` reaches from
/// the position with the given text by the given move.
pub uninterp spec fn text_after(text: Seq<char>, m: Move) -> Seq<char>;

/// What `chess::Board::status` says of the position with the given text.
pub uninterp spec fn status_of(text: Seq<char>) -> Status;

/// What follows the first space of a text, and nothing where it has none.
pub open spec fn after_space(text: Seq<char>) -> Seq<char>
    decreases text.len(),
{
    if text.len() == 0 {
        text
    } else if text[0] == ' ' {
        text.drop_first()
    } else {
        after_space(text.drop_first())
    }
}

/// The side to move that a FEN text shows: White where the letter `w`
/// follows the first space, and Black otherwise.
pub open spec fn side_of(text: Seq<char>) -> Side {
    if after_space(text).len() > 0 && after_space(text)[0] == 'w' {
        Side::White
    } else {
        Side::Black
    }
}

/// The text of the initial position.
pub open spec fn start_text() -> Seq<char> {
    "rnbqkbnr/pppppppp/8/8/8/8/PPPPPPPP/RNBQKBNR w KQkq - 0 1"@
}

/// The longest text that `Display` can write for a board: 64 squares and 7
/// rank separators, then the side, the castling rights, the en passant
/// square and the two fixed counters, each after one space.
pub const MAX_TEXT_LEN: usize = 85;

/// No position has more legal moves than this: the move generator keeps at
/// most 18 departure squares, each with at most 64 arrival squares, and a
/// promotion counts four times.
pub const MAX_MOVES: usize = 4608;

/// Trusted: calls `<chess::Board as Default>::default`, which parses the
/// FEN of the initial position; the board's text is that FEN again.
#[verifier::external_body]
pub(crate) fn initial_board() -> (board: chess::Board)
    ensures
        board_text(board) == start_text(),
{
    chess::Board::default()
}

/// Trusted: calls `<chess::Board as Display>::fmt` through `to_string`. The
/// result is the board's text, at most `MAX_TEXT_LEN` characters long.
#[verifier::external_body]
pub(crate) fn write_board(board: &chess::Board) -> (s: String)
    ensures
        s@ == board_text(*board),
        s@.len() <= MAX_TEXT_LEN,
{
    board.to_string()
}

/// Trusted: calls `chess::MoveGen::new_legal` and collects what it iterates,
/// each `chess::ChessMove` turned into a `Move` field by field. The result
/// depends on nothing but what the board's text shows, and is at most
/// `MAX_MOVES` long.
#[verifier::external_body]
pub(crate) fn board_moves(board: &chess::Board) -> (moves: Vec<Move>)
    ensures
        moves@ == moves_of(board_text(*board)),
        moves@.len() <= MAX_MOVES,
{
    chess::MoveGen::new_legal(board)
        .map(|m| Move {
            from: m.get_source().to_int(),
            to: m.get_dest().to_int(),
            promotion: m.get_promotion().map(|p| match p {
                chess::Piece::Pawn => Piece::Pawn,
                chess::Piece::Knight => Piece::Knight,
                chess::Piece::Bishop => Piece::Bishop,
                chess::Piece::Rook => Piece::Rook,
                chess::Piece::Queen => Piece::Queen,
                chess::Piece::King => Piece::King,
            }),
        })
        .collect()
}

/// Trusted: calls `chess::Board::make_move_new` with the `chess::ChessMove`
/// that has the fields of `m`. That function is only defined for a legal
/// move, which `requires` demands. The new board's text depends on nothing
/// but the old text and the move, and the turn passes to the other side.
#[verifier::external_body]
pub(crate) fn board_after(board: &chess::Board, m: Move) -> (next: chess::Board)
    requires
        moves_of(board_text(*board)).contains(m),
    ensures
        board_text(next) == text_after(board_text(*board), m),
        side_of(board_text(next)) == side_of(board_text(*board)).other(),
{
    let promotion = m.promotion.map(|p| match p {
        Piece::Pawn => chess::Piece::Pawn,
        Piece::Knight => chess::Piece::Knight,
        Piece::Bishop => chess::Piece::Bishop,
        Piece::Rook => chess::Piece::Rook,
        Piece::Queen => chess::Piece::Queen,
        Piece::King => chess::Piece::King,
    });
    let from = chess::ALL_SQUARES[m.from as usize];
    let to = chess::ALL_SQUARES[m.to as usize];
    board.make_move_new(chess::ChessMove::new(from, to, promotion))
}

/// Trusted: calls `chess::Board::status`, which counts the legal moves: the
/// game goes on exactly if there is one, and otherwise it is checkmate or
/// stalemate.
#[verifier::external_body]
pub(crate) fn board_status(board: &chess::Board) -> (status: Status)
    ensures
        status == status_of(board_text(*board)),
        status == Status::Ongoing <==> moves_of(board_text(*board)).len() > 0,
{
    match board.status() {
        chess::BoardStatus::Ongoing => Status::Ongoing,
        chess::BoardStatus::Stalemate => Status::Stalemate,
        chess::BoardStatus::Checkmate => Status::Checkmate,
    }
}

/// Trusted: calls `chess::Board::side_to_move`. The result is the side that
/// the board's text shows: `Display` writes the squares without a space, then
/// a space, and then `w` for White and `b` for Black.
#[verifier::external_body]
pub(crate) fn board_side(board: &chess::Board) -> (side: Side)
    ensures
        side == side_of(board_text(*board)),
{
    match board.side_to_move() {
        chess::Color::White => Side::White,
        chess::Color::Black => Side::Black,
    }
}

} // verus!
