use chess_players::console::{get_input, is_white, parse_number, pick_place, trim};
use chess_players::player::ConsolePlayer;
use chess_players::position::{Move, Position};

#[test]
fn an_answer_picks_by_number_or_by_text() {
    let moves = Position::start().legal_moves();
    assert_eq!(pick_place(Some(3), "3", &moves), Some(3));
    assert_eq!(pick_place(Some(19), "19", &moves), Some(19));
    assert_eq!(pick_place(Some(20), "20", &moves), None);
    assert_eq!(pick_place(None, "a2a4", &moves), Some(1));
    assert_eq!(pick_place(None, "e2e5", &moves), None);
    assert_eq!(pick_place(None, "", &moves), None);
    // A number that picks wins over the text.
    assert_eq!(pick_place(Some(0), "a2a4", &moves), Some(0));
    // A number that picks nothing leaves the text to pick.
    assert_eq!(pick_place(Some(99), "a2a4", &moves), Some(1));
}

#[test]
fn the_first_of_two_moves_with_one_text_is_picked() {
    let m = Move { from: 12, to: 28, promotion: None };
    assert_eq!(pick_place(None, "e2e4", &vec![m, m]), Some(0));
    assert_eq!(pick_place(None, "e2e4", &vec![]), None);
}

#[test]
fn a_typed_line_is_read_without_its_ends() {
    let start = Position::start();
    assert_eq!(get_input(&start, "5\n"), Some(5));
    assert_eq!(get_input(&start, "  e2e4 \r\n"), Some(9));
    assert_eq!(get_input(&start, "20\n"), None);
    assert_eq!(get_input(&start, "-1\n"), None);
    assert_eq!(get_input(&start, "e2 e4\n"), None);
    assert_eq!(get_input(&start, "\n"), None);
    assert_eq!(get_input(&start, "+7\n"), Some(7));
}

#[test]
fn the_console_player_hands_out_the_move_picked() {
    let start = Position::start();
    let moves = start.legal_moves();
    assert_eq!(ConsolePlayer.get_move(&start, "0\n"), Some(moves[0]));
    assert_eq!(ConsolePlayer.get_move(&start, "g1f3\n").unwrap().text(), "g1f3");
    assert_eq!(ConsolePlayer.get_move(&start, "castle\n"), None);
}

#[test]
fn white_space_is_what_the_standard_library_takes_for_it() {
    for code in 0..=0x10FFFFu32 {
        if let Some(c) = char::from_u32(code) {
            assert_eq!(is_white(c), c.is_whitespace(), "U+{:04X}", code);
        }
    }
}

#[test]
fn trimming_takes_the_white_space_off_both_ends() {
    assert_eq!(trim("  e2e4 \r\n"), "e2e4");
    assert_eq!(trim("e2e4"), "e2e4");
    assert_eq!(trim(""), "");
    assert_eq!(trim(" \t\n"), "");
    assert_eq!(trim(" a b "), "a b");
    assert_eq!(trim("\u{2003}5\u{3000}"), "5");
    assert_eq!(trim("\u{a0}\u{e9}t\u{e9}\u{85}"), "\u{e9}t\u{e9}");
    for text in ["", " ", "x", " x", "x ", "  x y  ", "\n\n", "\u{1680}q\u{205f}", "\u{feff}a"] {
        assert_eq!(trim(text), text.trim());
    }
}

#[test]
fn a_number_is_digits_after_a_plus_sign_or_none() {
    assert_eq!(parse_number("0"), Some(0));
    assert_eq!(parse_number("19"), Some(19));
    assert_eq!(parse_number("007"), Some(7));
    assert_eq!(parse_number("+7"), Some(7));
    assert_eq!(parse_number(""), None);
    assert_eq!(parse_number("+"), None);
    assert_eq!(parse_number("++1"), None);
    assert_eq!(parse_number("-1"), None);
    assert_eq!(parse_number("1+"), None);
    assert_eq!(parse_number("12a"), None);
    assert_eq!(parse_number("1 2"), None);
    assert_eq!(parse_number(" 1"), None);
    assert_eq!(parse_number("1_0"), None);
    assert_eq!(parse_number("\u{663}"), None);
    let most = usize::MAX.to_string();
    assert_eq!(parse_number(&most), Some(usize::MAX));
    assert_eq!(parse_number(&format!("000{}", most)), Some(usize::MAX));
    assert_eq!(parse_number(&format!("{}0", most)), None);
    assert_eq!(parse_number("18446744073709551616"), "18446744073709551616".parse::<usize>().ok());
    assert_eq!(parse_number("99999999999999999999999999"), None);
    for text in ["", "+", "0", "+0", "42", "4 2", "-0", "0x10", "1e3", "18446744073709551615", "18446744073709551619"] {
        assert_eq!(parse_number(text), text.parse::<usize>().ok(), "{:?}", text);
    }
}

#[test]
fn a_move_picked_by_text_is_the_move_so_written() {
    let start = Position::start();
    for m in start.legal_moves() {
        let line = format!(" {}\n", m.text());
        assert_eq!(ConsolePlayer.get_move(&start, &line), Some(m));
    }
    assert_eq!(ConsolePlayer.get_move(&start, "e7e5\n"), None);
}
