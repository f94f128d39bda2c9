//! The players against a plain search written on the chess crate's own board.

use chess::{Board, BoardStatus, ChessMove, Color, MoveGen};
use chess_players::player::{get_player, GreedyPlayer, Player, TreePlayer};
use chess_players::position::{Position, Side, Status};
use chess_players::score::{board_score, material_score};

fn plain_score(board: &Board) -> i32 {
    if board.status() == BoardStatus::Checkmate {
        return match board.side_to_move() {
            Color::White => i32::MIN,
            Color::Black => i32::MAX,
        };
    }
    let mut score = 0;
    for c in format!("{}", board).chars() {
        match c {
            'p' => score -= 1,
            'n' | 'b' => score -= 3,
            'r' => score -= 5,
            'q' => score -= 9,
            'P' => score += 1,
            'N' | 'B' => score += 3,
            'R' => score += 5,
            'Q' => score += 9,
            ' ' => break,
            _ => (),
        }
    }
    score * 100 + MoveGen::new_legal(board).len() as i32
}

fn plain_better(board: &Board, new: &Board, old: &Board) -> bool {
    match board.side_to_move() {
        Color::White => plain_score(new) > plain_score(old),
        Color::Black => plain_score(new) < plain_score(old),
    }
}

fn plain_greedy(board: &Board) -> ChessMove {
    let mut moves = MoveGen::new_legal(board);
    let mut best = moves.next().unwrap();
    for m in moves {
        if plain_better(board, &board.make_move_new(m), &board.make_move_new(best)) {
            best = m;
        }
    }
    best
}

fn plain_outcome(depth: i32, board: &Board, m: ChessMove) -> Board {
    let own = board.make_move_new(m);
    if own.status() == BoardStatus::Checkmate {
        own
    } else {
        own.make_move_new(plain_tree(depth - 1, &own))
    }
}

fn plain_tree(depth: i32, board: &Board) -> ChessMove {
    if depth == 0 {
        return plain_greedy(board);
    }
    let mut moves = MoveGen::new_legal(board);
    let mut best = moves.next().unwrap();
    let mut best_outcome = plain_outcome(depth, board, best);
    for m in moves {
        let outcome = plain_outcome(depth, board, m);
        if plain_better(board, &outcome, &best_outcome) {
            best = m;
            best_outcome = outcome;
        }
    }
    best
}

/// Plays `plies` moves from the start, each picked by the plain search of the
/// depth given for its place, and holds every step against the library.
fn play_along(depths: &[i32], plies: usize) {
    let mut board = Board::default();
    let mut position = Position::start();
    for ply in 0..plies {
        assert_eq!(position.text(), format!("{}", board));
        assert_eq!(board_score(&position), plain_score(&board));
        assert_eq!(position.status() == Status::Checkmate, board.status() == BoardStatus::Checkmate);
        assert_eq!(position.status() == Status::Stalemate, board.status() == BoardStatus::Stalemate);
        assert_eq!(position.side_to_move() == Side::White, board.side_to_move() == Color::White);
        if board.status() != BoardStatus::Ongoing {
            break;
        }
        let depth = depths[ply % depths.len()];
        let theirs = plain_tree(depth, &board);
        let ours = TreePlayer { depth }.get_move(&position);
        assert_eq!(ours.text(), theirs.to_string(), "ply {} at depth {}", ply, depth);
        assert_eq!(get_player(depth).get_move(&position), ours);
        assert_eq!(GreedyPlayer.get_move(&position).text(), plain_greedy(&board).to_string());
        board = board.make_move_new(theirs);
        position = position.try_move(ours).unwrap();
    }
}

#[test]
fn greedy_games_agree_with_the_plain_search() {
    play_along(&[0], 120);
}

#[test]
fn games_one_reply_deep_agree_with_the_plain_search() {
    play_along(&[1], 40);
}

#[test]
fn games_of_mixed_depth_agree_with_the_plain_search() {
    play_along(&[1, 0], 60);
    play_along(&[0, 1], 60);
}

#[test]
fn a_game_two_replies_deep_agrees_with_the_plain_search() {
    play_along(&[2, 0], 6);
}

#[test]
fn material_alone_leaves_out_the_mobility() {
    let mut position = Position::start();
    for _ in 0..60 {
        if position.status() != Status::Ongoing {
            break;
        }
        let moves = position.legal_moves().len() as i32;
        assert_eq!(board_score(&position), material_score(&position) * 100 + moves);
        position = position.try_move(GreedyPlayer.get_move(&position)).unwrap();
    }
}
