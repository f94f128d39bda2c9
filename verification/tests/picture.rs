use chess_players::picture::{board_picture, draw_caption, draw_grid};
use chess_players::position::{Position, Side};

#[test]
fn the_start_is_drawn_as_a_grid() {
    let rule = "  ---------------------------------\n";
    let files = "    a   b   c   d   e   f   g   h\n";
    let mut expected = String::new();
    expected += files;
    expected += rule;
    expected += "8 | r | n | b | q | k | b | n | r | 8\n";
    expected += rule;
    expected += "7 | p | p | p | p | p | p | p | p | 7\n";
    expected += rule;
    for rank in ["6", "5", "4", "3"] {
        expected += &format!("{} |   |   |   |   |   |   |   |   | {}\n", rank, rank);
        expected += rule;
    }
    expected += "2 | P | P | P | P | P | P | P | P | 2\n";
    expected += rule;
    expected += "1 | R | N | B | Q | K | B | N | R | 1\n";
    expected += rule;
    expected += files;
    assert_eq!(rule.len(), 2 + 33 + 1);
    assert_eq!(
        draw_grid("rnbqkbnr/pppppppp/8/8/8/8/PPPPPPPP/RNBQKBNR w KQkq - 0 1"),
        expected
    );
    expected += "Current board score: 20\nWhite's turn to move.\n\n";
    assert_eq!(board_picture(&Position::start()), expected);
}

#[test]
fn a_grid_follows_the_text_as_it_stands() {
    let rule = "  ---------------------------------\n";
    let files = "    a   b   c   d   e   f   g   h\n";
    assert_eq!(draw_grid(""), format!("{}{}8 | 8\n{}{}", files, rule, rule, files));
    assert_eq!(draw_grid(" Q"), format!("{}{}8 | 8\n{}{}", files, rule, rule, files));
    assert_eq!(
        draw_grid("2x0/"),
        format!("{}{}8 |   |   | x | 8\n{}7 | 7\n{}{}", files, rule, rule, rule, files)
    );
    // Below the first rank the numbers go on counting down.
    assert_eq!(
        draw_grid("////////K/"),
        format!(
            "{f}{r}8 | 8\n{r}7 | 7\n{r}6 | 6\n{r}5 | 5\n{r}4 | 4\n{r}3 | 3\n{r}2 | 2\n{r}1 | 1\n{r}0 | K | 0\n{r}-1 | -1\n{r}{f}",
            f = files,
            r = rule
        )
    );
}

#[test]
fn the_caption_names_the_score_and_the_side() {
    assert_eq!(draw_caption(0, Side::White), "Current board score: 0\nWhite's turn to move.\n\n");
    assert_eq!(
        draw_caption(-1234, Side::Black),
        "Current board score: -1234\nBlack's turn to move.\n\n"
    );
    assert_eq!(
        draw_caption(i32::MIN, Side::White),
        "Current board score: -2147483648\nWhite's turn to move.\n\n"
    );
    assert_eq!(
        draw_caption(i32::MAX, Side::Black),
        "Current board score: 2147483647\nBlack's turn to move.\n\n"
    );
    assert_eq!(draw_caption(10, Side::Black), "Current board score: 10\nBlack's turn to move.\n\n");
}
