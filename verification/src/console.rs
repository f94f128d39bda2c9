//! The player at the keyboard: which move a typed line stands for.

use vstd::prelude::*;
use crate::oracle::moves_of;
use crate::position::{lemma_move_text_is_one_to_one, move_text, Move, Position};

verus! {

/// Whether a character is white space: the characters that Unicode gives the
/// property `White_Space`.
pub open spec fn is_space(c: char) -> bool {
    ||| '\u{9}' <= c <= '\u{D}'
    ||| c == ' '
    ||| c == '\u{85}'
    ||| c == '\u{A0}'
    ||| c == '\u{1680}'
    ||| '\u{2000}' <= c <= '\u{200A}'
    ||| c == '\u{2028}'
    ||| c == '\u{2029}'
    ||| c == '\u{202F}'
    ||| c == '\u{205F}'
    ||| c == '\u{3000}'
}

/// Whether `start` and `end` bound what is left of a text without the white
/// space at its two ends: only white space lies outside them, and none
/// stands at either end between them. A text of white space alone has empty
/// bounds at its end.
pub open spec fn is_trim(text: Seq<char>, start: int, end: int) -> bool {
    &&& 0 <= start <= end <= text.len()
    &&& forall|i: int| 0 <= i < start ==> is_space(#[trigger] text[i])
    &&& forall|i: int| end <= i < text.len() ==> is_space(#[trigger] text[i])
    &&& start < end ==> !is_space(text[start]) && !is_space(text[end - 1])
    &&& start == end ==> start == text.len()
}

/// A text without the white space at its two ends.
pub open spec fn trimmed(text: Seq<char>) -> Seq<char> {
    let (start, end) = choose|start: int, end: int| is_trim(text, start, end);
    text.subrange(start, end)
}

/// Whether a character is a decimal digit.
pub open spec fn is_digit(c: char) -> bool {
    '0' <= c <= '9'
}

/// Whether a text holds decimal digits and nothing else.
pub open spec fn all_digits(text: Seq<char>) -> bool {
    forall|i: int| 0 <= i < text.len() ==> is_digit(#[trigger] text[i])
}

/// The number that a text of decimal digits writes.
pub open spec fn digits_value(text: Seq<char>) -> nat
    decreases text.len(),
{
    if text.len() == 0 {
        0
    } else {
        digits_value(text.drop_last()) * 10 + (text.last() as int - '0' as int) as nat
    }
}

/// The number that a text writes: one decimal digit or more, after a plus
/// sign or none. A text of any other form writes no number.
pub open spec fn number_of(text: Seq<char>) -> Option<nat> {
    let body = if text.len() > 0 && text[0] == '+' {
        text.drop_first()
    } else {
        text
    };
    if body.len() > 0 && all_digits(body) {
        Some(digits_value(body))
    } else {
        None
    }
}

/// The number that a text writes, where it fits a `usize`.
pub open spec fn parsed_number(text: Seq<char>) -> Option<usize> {
    match number_of(text) {
        Some(v) if v <= usize::MAX => Some(v as usize),
        _ => None,
    }
}

/// Whether `i` is the first place in `moves` of a move written `word`.
pub open spec fn is_first_written(moves: Seq<Move>, word: Seq<char>, i: int) -> bool {
    &&& 0 <= i < moves.len()
    &&& move_text(moves[i]) == word
    &&& forall|j: int| 0 <= j < i ==> move_text(#[trigger] moves[j]) != word
}

/// Whether an answer picks the move at place `i` of `moves`: either the
/// number read is `i`, or no number below the count of moves was read and
/// `i` is the first place of a move written as the word.
pub open spec fn chooses(number: Option<usize>, word: Seq<char>, moves: Seq<Move>, i: int) -> bool {
    match number {
        Some(n) if n < moves.len() => i == n,
        _ => is_first_written(moves, word, i),
    }
}

/// Whether an answer picks no move: no number below the count of moves was
/// read, and no move is written as the word.
pub open spec fn chooses_none(number: Option<usize>, word: Seq<char>, moves: Seq<Move>) -> bool {
    &&& !(number matches Some(n) && n < moves.len())
    &&& forall|j: int| 0 <= j < moves.len() ==> move_text(#[trigger] moves[j]) != word
}

/// The place among `moves` that a typed line picks, if it picks one: the
/// line counts without the white space at its ends, and picks by number,
/// from 0, or by the move's text.
pub open spec fn line_chooses(line: Seq<char>, moves: Seq<Move>, place: Option<usize>) -> bool {
    match place {
        Some(i) => chooses(parsed_number(trimmed(line)), trimmed(line), moves, i as int),
        None => chooses_none(parsed_number(trimmed(line)), trimmed(line), moves),
    }
}

/// Whether `m` is one of `moves` and written `word`.
pub open spec fn is_written(moves: Seq<Move>, word: Seq<char>, m: Move) -> bool {
    moves.contains(m) && move_text(m) == word
}

/// The move that an answer picks among `moves`: the move at the place of the
/// number read, where that is below the count of moves; otherwise the one
/// of `moves` that is written as the word; and none where no move is.
pub open spec fn answer_move(number: Option<usize>, word: Seq<char>, moves: Seq<Move>) -> Option<
    Move,
> {
    match number {
        Some(n) if n < moves.len() => Some(moves[n as int]),
        _ => if exists|m: Move| is_written(moves, word, m) {
            Some(choose|m: Move| is_written(moves, word, m))
        } else {
            None
        },
    }
}

/// The move that a typed line picks among `moves`.
pub open spec fn line_move(line: Seq<char>, moves: Seq<Move>) -> Option<Move> {
    answer_move(parsed_number(trimmed(line)), trimmed(line), moves)
}

/// The place that an answer picks holds the move that it picks, and an
/// answer that picks no place picks no move.
pub proof fn lemma_place_holds_answer(
    number: Option<usize>,
    word: Seq<char>,
    moves: Seq<Move>,
    place: Option<usize>,
)
    requires
        match place {
            Some(i) => chooses(number, word, moves, i as int),
            None => chooses_none(number, word, moves),
        },
    ensures
        answer_move(number, word, moves) == match place {
            Some(i) => Some(moves[i as int]),
            None => None,
        },
{
    if !(number matches Some(n) && n < moves.len()) {
        match place {
            Some(i) => {
                assert(is_written(moves, word, moves[i as int]));
                let m = choose|m: Move| is_written(moves, word, m);
                lemma_move_text_is_one_to_one(m, moves[i as int]);
            },
            None => {
                assert forall|m: Move| !is_written(moves, word, m) by {
                    if moves.contains(m) {
                        let j = choose|j: int| 0 <= j < moves.len() && moves[j] == m;
                        assert(move_text(moves[j]) != word);
                    }
                }
            },
        }
    }
}

/// A text has one pair of trim bounds and no other.
pub proof fn lemma_trim_unique(text: Seq<char>, s1: int, e1: int, s2: int, e2: int)
    requires
        is_trim(text, s1, e1),
        is_trim(text, s2, e2),
    ensures
        s1 == s2,
        e1 == e2,
{
}

/// The number written grows with each digit added, so that a text whose
/// front writes too large a number does so itself.
proof fn lemma_digits_value_grows(text: Seq<char>, k: int)
    requires
        0 <= k <= text.len(),
        all_digits(text),
    ensures
        digits_value(text.take(k)) <= digits_value(text),
    decreases text.len() - k,
{
    if k == text.len() {
        assert(text.take(k) =~= text);
    } else {
        lemma_digits_value_grows(text, k + 1);
        assert(text.take(k + 1).drop_last() =~= text.take(k));
    }
}

/// Whether `c` is white space.
pub fn is_white(c: char) -> (r: bool)
    ensures
        r == is_space(c),
{
    ('\u{9}' <= c && c <= '\u{D}') || c == ' ' || c == '\u{85}' || c == '\u{A0}' || c == '\u{1680}'
        || ('\u{2000}' <= c && c <= '\u{200A}') || c == '\u{2028}' || c == '\u{2029}' || c
        == '\u{202F}' || c == '\u{205F}' || c == '\u{3000}'
}

/// `text` without the white space at its two ends.
pub fn trim(text: &str) -> (word: &str)
    ensures
        word@ == trimmed(text@),
{
    let n = text.unicode_len();
    let mut start: usize = n;
    let mut end: usize = n;
    let mut found = false;
    let mut i: usize = 0;
    for c in it: text.chars()
        invariant
            it.seq() == text@,
            n == text@.len(),
            i == it.index(),
            !found ==> start == n && end == n && forall|j: int|
                0 <= j < i ==> is_space(#[trigger] text@[j]),
            found ==> start < end <= i && !is_space(text@[start as int]) && !is_space(
                text@[end - 1],
            ) && (forall|j: int| 0 <= j < start ==> is_space(#[trigger] text@[j])) && (forall|
                j: int,
            | end <= j < i ==> is_space(#[trigger] text@[j])),
    {
        if !is_white(c) {
            if !found {
                start = i;
                found = true;
            }
            end = i + 1;
        }
        i += 1;
    }
    proof {
        assert(is_trim(text@, start as int, end as int));
        let (s, e) = choose|s: int, e: int| is_trim(text@, s, e);
        lemma_trim_unique(text@, start as int, end as int, s, e);
    }
    text.substring_char(start, end)
}

/// The number that `text` writes, where it writes one that fits a `usize`.
pub fn parse_number(text: &str) -> (number: Option<usize>)
    ensures
        number == parsed_number(text@),
{
    let ghost first: int = if text@.len() > 0 && text@[0] == '+' {
        1
    } else {
        0
    };
    let ghost body = text@.subrange(first, text@.len() as int);
    proof {
        if first == 1 {
            assert(body =~= text@.drop_first());
        } else {
            assert(body =~= text@);
        }
    }
    let mut value: usize = 0;
    let mut at_start = true;
    let mut any_digit = false;
    for c in it: text.chars()
        invariant
            it.seq() == text@,
            first == if text@.len() > 0 && text@[0] == '+' {
                1int
            } else {
                0int
            },
            body == text@.subrange(first, text@.len() as int),
            number_of(text@) == if body.len() > 0 && all_digits(body) {
                Some(digits_value(body))
            } else {
                None
            },
            at_start <==> it.index() == 0,
            any_digit <==> it.index() > first,
            it.index() <= first ==> value == 0,
            it.index() >= first ==> value == digits_value(body.take(it.index() - first)),
            forall|j: int| 0 <= j < it.index() - first ==> is_digit(#[trigger] body[j]),
    {
        if at_start && c == '+' {
            at_start = false;
        } else {
            at_start = false;
            assert(c == body[it.index() - first]);
            if !('0' <= c && c <= '9') {
                return None;
            }
            let digit = (c as u32 - '0' as u32) as usize;
            proof {
                assert(body.take(it.index() - first + 1).drop_last() =~= body.take(
                    it.index() - first,
                ));
            }
            if value > (usize::MAX - digit) / 10 {
                proof {
                    assert(digits_value(body.take(it.index() - first + 1)) == value * 10 + digit);
                    if all_digits(body) {
                        lemma_digits_value_grows(body, it.index() - first + 1);
                    }
                }
                return None;
            }
            value = value * 10 + digit;
            any_digit = true;
        }
    }
    proof {
        assert(body.take(body.len() as int) =~= body);
    }
    if any_digit {
        Some(value)
    } else {
        None
    }
}

/// The place in `moves` that an answer picks, the answer being given as the
/// number read from it, if any, and as a word.
pub fn pick_place(number: Option<usize>, word: &str, moves: &Vec<Move>) -> (place: Option<usize>)
    ensures
        match place {
            Some(i) => chooses(number, word@, moves@, i as int),
            None => chooses_none(number, word@, moves@),
        },
{
    if let Some(n) = number {
        if n < moves.len() {
            return Some(n);
        }
    }
    let wanted = word.to_owned();
    let mut i: usize = 0;
    while i < moves.len()
        invariant
            i <= moves.len(),
            wanted@ == word@,
            !(number matches Some(n) && n < moves.len()),
            forall|j: int| 0 <= j < i ==> move_text(#[trigger] moves@[j]) != word@,
        decreases moves.len() - i,
    {
        if moves[i].text() == wanted {
            return Some(i);
        }
        i += 1;
    }
    None
}

/// A player who is asked for each move.
#[derive(Clone, Copy, Debug)]
pub struct ConsolePlayer;

/// The place among the legal moves of `position` that the typed `line`
/// picks, or `None` where the player has to be asked again.
pub fn get_input(position: &Position, line: &str) -> (place: Option<usize>)
    ensures
        line_chooses(line@, moves_of(position@), place),
{
    let moves = position.legal_moves();
    let word = trim(line);
    pick_place(parse_number(word), word, &moves)
}

impl ConsolePlayer {
    /// The legal move of `position` that the typed `line` picks, or `None`
    /// where the player has to be asked again.
    pub fn get_move(&self, position: &Position, line: &str) -> (picked: Option<Move>)
        ensures
            picked == line_move(line@, moves_of(position@)),
            match picked {
                Some(m) => exists|i: int|
                    0 <= i < moves_of(position@).len() && #[trigger] moves_of(position@)[i] == m
                        && line_chooses(line@, moves_of(position@), Some(i as usize)),
                None => line_chooses(line@, moves_of(position@), None),
            },
    {
        let moves = position.legal_moves();
        let place = get_input(position, line);
        proof {
            lemma_place_holds_answer(
                parsed_number(trimmed(line@)),
                trimmed(line@),
                moves@,
                place,
            );
        }
        match place {
            Some(i) => Some(moves[i]),
            None => None,
        }
    }
}

} // verus!
