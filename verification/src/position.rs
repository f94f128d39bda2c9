//! Positions and moves.

use vstd::prelude::*;
use crate::oracle::{
    board_after, board_moves, board_side, board_status, board_text, initial_board, moves_of,
    side_of, start_text, status_of, text_after, write_board, MAX_MOVES, MAX_TEXT_LEN,
};

verus! {

/// The two players.
#[derive(Clone, Copy, PartialEq, Eq, Debug, Structural)]
pub enum Side {
    White,
    Black,
}

impl Side {
    /// The opponent of this side.
    pub open spec fn other(self) -> Side {
        match self {
            Side::White => Side::Black,
            Side::Black => Side::White,
        }
    }
}

/// Whether a game goes on, and how it ended if it does not.
#[derive(Clone, Copy, PartialEq, Eq, Debug, Structural)]
pub enum Status {
    Ongoing,
    Stalemate,
    Checkmate,
}

/// The kinds of chess pieces.
#[derive(Clone, Copy, PartialEq, Eq, Debug, Structural)]
pub enum Piece {
    Pawn,
    Knight,
    Bishop,
    Rook,
    Queen,
    King,
}

/// One move: the square a piece leaves, the square it reaches, and the piece
/// a pawn turns into on the last rank. Squares count from 0 (a1) along the
/// ranks to 63 (h8).
#[derive(Clone, Copy, PartialEq, Eq, Debug, Structural)]
pub struct Move {
    pub from: u8,
    pub to: u8,
    pub promotion: Option<Piece>,
}

/// The letter of a square's file, from `a`.
pub open spec fn file_letter(square: u8) -> char {
    (('a' as int) + square % 8) as char
}

/// The digit of a square's rank, from `1`.
pub open spec fn rank_digit(square: u8) -> char {
    (('1' as int) + square / 8) as char
}

/// The letter that stands for a piece in a move's text.
pub open spec fn piece_letter(piece: Piece) -> char {
    match piece {
        Piece::Pawn => 'p',
        Piece::Knight => 'n',
        Piece::Bishop => 'b',
        Piece::Rook => 'r',
        Piece::Queen => 'q',
        Piece::King => 'k',
    }
}

/// A move in coordinate notation: the two squares, each as file letter and
/// rank digit, and then the letter of the promotion piece if there is one.
pub open spec fn move_text(m: Move) -> Seq<char> {
    let squares = seq![
        file_letter(m.from),
        rank_digit(m.from),
        file_letter(m.to),
        rank_digit(m.to),
    ];
    match m.promotion {
        None => squares,
        Some(piece) => squares.push(piece_letter(piece)),
    }
}

/// Two moves written alike are one move.
pub proof fn lemma_move_text_is_one_to_one(a: Move, b: Move)
    requires
        move_text(a) == move_text(b),
    ensures
        a == b,
{
    let ta = move_text(a);
    let tb = move_text(b);
    assert(ta.len() == tb.len());
    assert(ta[0] == tb[0] && ta[1] == tb[1] && ta[2] == tb[2] && ta[3] == tb[3]);
    assert(a.from % 8 == b.from % 8 && a.from / 8 == b.from / 8);
    assert(a.to % 8 == b.to % 8 && a.to / 8 == b.to / 8);
    if a.promotion is Some {
        assert(ta[4] == tb[4]);
    }
}

/// Trusted: calls `<String as FromIterator<&char>>::from_iter` through
/// `collect`: the string holds the given characters in their order.
#[verifier::external_body]
pub(crate) fn string_of(chars: &Vec<char>) -> (s: String)
    ensures
        s@ == chars@,
{
    chars.iter().collect()
}

impl Move {
    /// The move in coordinate notation, such as `e2e4` or `e7e8q`.
    pub fn text(&self) -> (s: String)
        ensures
            s@ == move_text(*self),
    {
        let mut chars: Vec<char> = Vec::new();
        chars.push((97u8 + self.from % 8) as char);
        chars.push((49u8 + self.from / 8) as char);
        chars.push((97u8 + self.to % 8) as char);
        chars.push((49u8 + self.to / 8) as char);
        match self.promotion {
            None => {},
            Some(Piece::Pawn) => chars.push('p'),
            Some(Piece::Knight) => chars.push('n'),
            Some(Piece::Bishop) => chars.push('b'),
            Some(Piece::Rook) => chars.push('r'),
            Some(Piece::Queen) => chars.push('q'),
            Some(Piece::King) => chars.push('k'),
        }
        string_of(&chars)
    }
}

/// A chess position. Its view is its FEN text.
#[derive(Clone, Copy, Debug)]
pub struct Position {
    board: chess::Board,
}

impl View for Position {
    type V = Seq<char>;

    closed spec fn view(&self) -> Seq<char> {
        board_text(self.board)
    }
}

impl Position {
    /// The initial position of a game.
    pub fn start() -> (p: Position)
        ensures
            p@ == start_text(),
    {
        Position { board: initial_board() }
    }

    /// The position as FEN text.
    pub fn text(&self) -> (s: String)
        ensures
            s@ == self@,
            s@.len() <= MAX_TEXT_LEN,
    {
        write_board(&self.board)
    }

    /// The legal moves, in the order of the move generator.
    pub fn legal_moves(&self) -> (moves: Vec<Move>)
        ensures
            moves@ == moves_of(self@),
            moves@.len() <= MAX_MOVES,
    {
        board_moves(&self.board)
    }

    /// Whether the game goes on from here, which it does exactly if there is
    /// a legal move.
    pub fn status(&self) -> (status: Status)
        ensures
            status == status_of(self@),
            status == Status::Ongoing <==> moves_of(self@).len() > 0,
    {
        board_status(&self.board)
    }

    /// The side whose turn it is.
    pub fn side_to_move(&self) -> (side: Side)
        ensures
            side == side_of(self@),
    {
        board_side(&self.board)
    }

    /// The position after a legal move, in which it is the other side's turn.
    pub fn make_move(&self, m: Move) -> (next: Position)
        requires
            moves_of(self@).contains(m),
        ensures
            next@ == text_after(self@, m),
            side_of(next@) == side_of(self@).other(),
    {
        Position { board: board_after(&self.board, m) }
    }

    /// The position after `m` if `m` is legal here, and `None` if it is not.
    pub fn try_move(&self, m: Move) -> (next: Option<Position>)
        ensures
            next is Some <==> moves_of(self@).contains(m),
            next matches Some(p) ==> p@ == text_after(self@, m) && side_of(p@) == side_of(
                self@,
            ).other(),
    {
        let moves = self.legal_moves();
        let mut i: usize = 0;
        while i < moves.len()
            invariant
                i <= moves.len(),
                moves@ == moves_of(self@),
                forall|j: int| 0 <= j < i ==> moves@[j] != m,
            decreases moves.len() - i,
        {
            if moves[i] == m {
                return Some(self.make_move(m));
            }
            i += 1;
        }
        None
    }
}

} // verus!
