//! The board as text for a terminal: a grid with one cell for each square,
//! the score and the side to move below it.

use vstd::prelude::*;
use crate::oracle::side_of;
use crate::position::{string_of, Position, Side};
use crate::score::{board_score, score};

verus! {

/// The character of a decimal digit.
pub open spec fn digit_char(d: nat) -> char {
    (('0' as int) + d) as char
}

/// A natural number in decimal digits, without leading zeros.
pub open spec fn digits(n: nat) -> Seq<char>
    decreases n,
{
    if n < 10 {
        seq![digit_char(n)]
    } else {
        digits(n / 10).push(digit_char(n % 10))
    }
}

/// An integer in decimal digits, with a minus sign before a negative one.
pub open spec fn decimal(v: int) -> Seq<char> {
    if v < 0 {
        seq!['-'] + digits((-v) as nat)
    } else {
        digits(v as nat)
    }
}

/// The line of file letters above and below the grid.
pub open spec fn files_line() -> Seq<char> {
    "    a   b   c   d   e   f   g   h\n"@
}

/// The line that separates two ranks of the grid.
pub open spec fn rule_line() -> Seq<char> {
    "  ---------------------------------\n"@
}

/// `count` empty cells.
pub open spec fn empty_cells(count: nat) -> Seq<char>
    decreases count,
{
    if count == 0 {
        seq![]
    } else {
        "   |"@ + empty_cells((count - 1) as nat)
    }
}

/// The end of the rank numbered `rank`: its number after a space, and the
/// rule below it.
pub open spec fn rank_end(rank: int) -> Seq<char> {
    seq![' '] + decimal(rank) + seq!['\n'] + rule_line()
}

/// The start of the rank numbered `rank`: its number, a space and the left
/// border.
pub open spec fn rank_start(rank: int) -> Seq<char> {
    decimal(rank) + " |"@
}

/// What one character of a FEN text's first field adds to the grid, in the
/// rank numbered `rank`: a digit stands for that many empty cells, a slash
/// ends the rank and starts the one below, and any other character fills a
/// cell.
pub open spec fn cell(c: char, rank: int) -> Seq<char> {
    if '0' <= c <= '9' {
        empty_cells((c as int - '0' as int) as nat)
    } else if c == '/' {
        rank_end(rank) + rank_start(rank - 1)
    } else {
        seq![' ', c, ' ', '|']
    }
}

/// The grid from some place in a FEN text on, that place lying in the rank
/// numbered `rank`: the cells up to the first space or the end of the text,
/// the end of the last rank, and the line of file letters.
pub open spec fn grid_rest(text: Seq<char>, rank: int) -> Seq<char>
    decreases text.len(),
{
    if text.len() == 0 || text[0] == ' ' {
        rank_end(rank) + files_line()
    } else {
        cell(text[0], rank) + grid_rest(
            text.drop_first(),
            if text[0] == '/' {
                rank - 1
            } else {
                rank
            },
        )
    }
}

/// The grid for a FEN text: the file letters, a rule, and the ranks from the
/// eighth down, each between its number and closed by a rule.
pub open spec fn grid(text: Seq<char>) -> Seq<char> {
    files_line() + rule_line() + rank_start(8) + grid_rest(text, 8)
}

/// The name of a side.
pub open spec fn side_name(side: Side) -> Seq<char> {
    match side {
        Side::White => "White"@,
        Side::Black => "Black"@,
    }
}

/// The two lines below the grid: the score, and whose turn it is, with an
/// empty line after them.
pub open spec fn caption(value: int, side: Side) -> Seq<char> {
    "Current board score: "@ + decimal(value) + seq!['\n'] + side_name(side)
        + "'s turn to move.\n\n"@
}

/// The grid from place `i` of `text` on unfolds by one character.
proof fn lemma_grid_step(text: Seq<char>, i: int, rank: int)
    requires
        0 <= i <= text.len(),
    ensures
        grid_rest(text.skip(i), rank) == if i == text.len() || text[i] == ' ' {
            rank_end(rank) + files_line()
        } else {
            cell(text[i], rank) + grid_rest(
                text.skip(i + 1),
                if text[i] == '/' {
                    rank - 1
                } else {
                    rank
                },
            )
        },
{
    if i < text.len() {
        assert(text.skip(i).drop_first() =~= text.skip(i + 1));
    }
}

/// Appends the characters of `piece` to `out`.
fn push_text(out: &mut Vec<char>, piece: &str)
    ensures
        final(out)@ == old(out)@ + piece@,
{
    for c in it: piece.chars()
        invariant
            it.seq() == piece@,
            out@ == old(out)@ + piece@.take(it.index() as int),
    {
        out.push(c);
        assert(piece@.take(it.index() + 1) =~= piece@.take(it.index() as int).push(c));
    }
    assert(piece@.take(piece@.len() as int) =~= piece@);
}

/// Appends the decimal digits of `n` to `out`.
fn push_digits(out: &mut Vec<char>, n: u32)
    ensures
        final(out)@ == old(out)@ + digits(n as nat),
    decreases n,
{
    if n >= 10 {
        push_digits(out, n / 10);
    }
    out.push((48u8 + (n % 10) as u8) as char);
}

/// Appends `v` in decimal to `out`.
fn push_decimal(out: &mut Vec<char>, v: i32)
    ensures
        final(out)@ == old(out)@ + decimal(v as int),
{
    if v < 0 {
        out.push('-');
        let size: i64 = -(v as i64);
        push_digits(out, size as u32);
    } else {
        push_digits(out, v as u32);
    }
}

/// Appends `count` empty cells to `out`.
fn push_empty_cells(out: &mut Vec<char>, count: u8)
    ensures
        final(out)@ == old(out)@ + empty_cells(count as nat),
{
    let mut left = count;
    while left > 0
        invariant
            old(out)@ + empty_cells(count as nat) == out@ + empty_cells(left as nat),
        decreases left,
    {
        push_text(out, "   |");
        left -= 1;
    }
}

/// The grid for the FEN text `text`.
pub fn draw_grid(text: &str) -> (picture: String)
    requires
        text@.len() <= i32::MAX,
    ensures
        picture@ == grid(text@),
{
    let mut out: Vec<char> = Vec::new();
    push_text(&mut out, "    a   b   c   d   e   f   g   h\n");
    push_text(&mut out, "  ---------------------------------\n");
    push_decimal(&mut out, 8);
    push_text(&mut out, " |");
    let mut rank: i32 = 8;
    let mut drawing = true;
    proof {
        assert(text@.skip(0) =~= text@);
    }
    for c in it: text.chars()
        invariant
            it.seq() == text@,
            text@.len() <= i32::MAX,
            8 - it.index() <= rank <= 8,
            grid(text@) == out@ + if drawing {
                grid_rest(text@.skip(it.index() as int), rank as int)
            } else {
                rank_end(rank as int) + files_line()
            },
    {
        let ghost before = out@;
        let ghost was = rank as int;
        let ghost rest = grid_rest(
            text@.skip(it.index() + 1),
            if c == '/' {
                rank - 1
            } else {
                rank as int
            },
        );
        proof {
            lemma_grid_step(text@, it.index() as int, rank as int);
        }
        if c == ' ' {
            drawing = false;
        }
        if drawing {
            if '0' <= c && c <= '9' {
                push_empty_cells(&mut out, (c as u32 - '0' as u32) as u8);
            } else if c == '/' {
                out.push(' ');
                push_decimal(&mut out, rank);
                out.push('\n');
                push_text(&mut out, "  ---------------------------------\n");
                push_decimal(&mut out, rank - 1);
                push_text(&mut out, " |");
                rank -= 1;
            } else {
                out.push(' ');
                out.push(c);
                out.push(' ');
                out.push('|');
            }
            proof {
                assert((before + cell(c, was)) + rest =~= before + (cell(c, was) + rest));
            }
        }
    }
    proof {
        lemma_grid_step(text@, text@.len() as int, rank as int);
    }
    out.push(' ');
    push_decimal(&mut out, rank);
    out.push('\n');
    push_text(&mut out, "  ---------------------------------\n");
    push_text(&mut out, "    a   b   c   d   e   f   g   h\n");
    string_of(&out)
}

/// The two lines below the grid for a score and a side to move.
pub fn draw_caption(value: i32, side: Side) -> (lines: String)
    ensures
        lines@ == caption(value as int, side),
{
    let mut out: Vec<char> = Vec::new();
    push_text(&mut out, "Current board score: ");
    push_decimal(&mut out, value);
    out.push('\n');
    match side {
        Side::White => push_text(&mut out, "White"),
        Side::Black => push_text(&mut out, "Black"),
    }
    push_text(&mut out, "'s turn to move.\n\n");
    string_of(&out)
}

/// What is shown of `position`: its grid, its score and the side to move.
pub fn board_picture(position: &Position) -> (picture: String)
    ensures
        picture@ == grid(position@) + caption(score(position@), side_of(position@)),
{
    let text = position.text();
    let mut picture = draw_grid(text.as_str());
    let lines = draw_caption(board_score(position), position.side_to_move());
    picture.append(lines.as_str());
    picture
}

} // verus!
