//! The static evaluator: what a position is worth, seen from White's side.

use vstd::prelude::*;
use crate::oracle::{moves_of, side_of, status_of};
use crate::position::{Position, Side, Status};

verus! {

/// The weight of material against mobility in `board_score`.
pub const MATERIAL_WEIGHT: i32 = 100;

/// What a FEN letter counts for: a white piece is worth its usual points, a
/// black piece the same points taken off, and kings, digits and separators
/// nothing.
pub open spec fn piece_value(c: char) -> int {
    if c == 'P' {
        1
    } else if c == 'N' || c == 'B' {
        3
    } else if c == 'R' {
        5
    } else if c == 'Q' {
        9
    } else if c == 'p' {
        -1
    } else if c == 'n' || c == 'b' {
        -3
    } else if c == 'r' {
        -5
    } else if c == 'q' {
        -9
    } else {
        0
    }
}

/// The material balance that a FEN text shows: the sum of `piece_value` over
/// its first field, the characters before the first space.
pub open spec fn material(text: Seq<char>) -> int
    decreases text.len(),
{
    if text.len() == 0 || text[0] == ' ' {
        0
    } else {
        piece_value(text[0]) + material(text.drop_first())
    }
}

/// The score of a position in which `side` is to move and checkmated: the
/// lowest score if White has lost, the highest if Black has.
pub open spec fn mate_score(side: Side) -> int {
    match side {
        Side::White => i32::MIN as int,
        Side::Black => i32::MAX as int,
    }
}

/// The score of a position by material and mobility: `mate_score` if it is
/// checkmate, and otherwise the material balance weighted by
/// `MATERIAL_WEIGHT` plus the number of legal moves of the side to move.
pub open spec fn score(text: Seq<char>) -> int {
    if status_of(text) == Status::Checkmate {
        mate_score(side_of(text))
    } else {
        material(text) * MATERIAL_WEIGHT + moves_of(text).len()
    }
}

/// The score of a position by material alone: `mate_score` if it is
/// checkmate, and otherwise the material balance.
pub open spec fn material_score_of(text: Seq<char>) -> int {
    if status_of(text) == Status::Checkmate {
        mate_score(side_of(text))
    } else {
        material(text)
    }
}

/// The material balance of the suffix of `text` that starts at `i` unfolds by
/// one character.
proof fn lemma_material_step(text: Seq<char>, i: int)
    requires
        0 <= i <= text.len(),
    ensures
        material(text.skip(i)) == if i == text.len() || text[i] == ' ' {
            0
        } else {
            piece_value(text[i]) + material(text.skip(i + 1))
        },
{
    if i < text.len() {
        assert(text.skip(i).drop_first() =~= text.skip(i + 1));
    }
}

/// No text shows more material than nine points for each of its characters.
pub proof fn lemma_material_bound(text: Seq<char>)
    ensures
        -9 * text.len() <= material(text) <= 9 * text.len(),
    decreases text.len(),
{
    if text.len() > 0 && text[0] != ' ' {
        lemma_material_bound(text.drop_first());
    }
}

/// What the letter `c` counts for.
pub fn letter_value(c: char) -> (v: i32)
    ensures
        v == piece_value(c),
{
    match c {
        'P' => 1,
        'N' => 3,
        'B' => 3,
        'R' => 5,
        'Q' => 9,
        'p' => -1,
        'n' => -3,
        'b' => -3,
        'r' => -5,
        'q' => -9,
        _ => 0,
    }
}

/// The material balance that the FEN text `text` shows.
pub fn count_material(text: &str) -> (sum: i32)
    requires
        9 * text@.len() <= i32::MAX,
    ensures
        sum == material(text@),
{
    let mut sum: i32 = 0;
    let mut counting = true;
    proof {
        assert(text@.skip(0) =~= text@);
    }
    for c in it: text.chars()
        invariant
            it.seq() == text@,
            9 * text@.len() <= i32::MAX,
            -9 * it.index() <= sum <= 9 * it.index(),
            material(text@) == sum + if counting {
                material(text@.skip(it.index() as int))
            } else {
                0
            },
    {
        proof {
            lemma_material_step(text@, it.index() as int);
        }
        if c == ' ' {
            counting = false;
        }
        if counting {
            sum = sum + letter_value(c);
        }
    }
    proof {
        lemma_material_step(text@, text@.len() as int);
    }
    sum
}

/// The score of a position in which `side` is to move and checkmated.
pub fn mate_value(side: Side) -> (v: i32)
    ensures
        v == mate_score(side),
{
    match side {
        Side::White => i32::MIN,
        Side::Black => i32::MAX,
    }
}

/// The score of `position` by material and mobility. A position that is not
/// checkmate scores strictly between the two mate scores.
pub fn board_score(position: &Position) -> (value: i32)
    ensures
        value == score(position@),
        status_of(position@) != Status::Checkmate ==> i32::MIN < value < i32::MAX,
{
    if position.status() == Status::Checkmate {
        return mate_value(position.side_to_move());
    }
    let text = position.text();
    let balance = count_material(text.as_str());
    let moves = position.legal_moves();
    proof {
        lemma_material_bound(text@);
    }
    balance * MATERIAL_WEIGHT + moves.len() as i32
}

/// The score of `position` by material alone. A position that is not
/// checkmate scores strictly between the two mate scores.
pub fn material_score(position: &Position) -> (value: i32)
    ensures
        value == material_score_of(position@),
        status_of(position@) != Status::Checkmate ==> i32::MIN < value < i32::MAX,
{
    if position.status() == Status::Checkmate {
        return mate_value(position.side_to_move());
    }
    let text = position.text();
    proof {
        lemma_material_bound(text@);
    }
    count_material(text.as_str())
}

} // verus!
