use game_lobby::code::{game_code_charset_char, is_game_code_char, GameCode, GAME_CODE_SPACE};

#[test]
fn test_game_code_from_string() {
    assert_eq!("ABCD-1234", GameCode::from_string("ABCD-1234").unwrap().to_string());
}

#[test]
fn code_round_trip_keeps_characters() {
    let chars = ['Z', '0', '9', 'A', 'W', 'K', '5', 'Q'];
    let code = GameCode::new(chars).unwrap();
    let text = code.to_string();
    assert_eq!(text, "Z09A-WK5Q");
    assert_eq!(GameCode::from_string(&text), Some(code));
}

#[test]
fn code_parse_rejects_wrong_length() {
    assert_eq!(GameCode::from_string("ABCD-123"), None);
    assert_eq!(GameCode::from_string("ABCD-12345"), None);
    assert_eq!(GameCode::from_string(""), None);
}

#[test]
fn code_parse_rejects_wrong_separator() {
    assert_eq!(GameCode::from_string("ABCD_1234"), None);
    assert_eq!(GameCode::from_string("ABC-D1234"), None);
    assert_eq!(GameCode::from_string("ABCD12345"), None);
}

#[test]
fn code_parse_rejects_characters_outside_alphabet() {
    assert_eq!(GameCode::from_string("abcd-1234"), None);
    assert_eq!(GameCode::from_string("ABCX-1234"), None);
    assert_eq!(GameCode::from_string("ABCD-12Y4"), None);
    assert_eq!(GameCode::from_string("\u{c4}BCD-1234"), None);
}

#[test]
fn code_new_rejects_characters_outside_alphabet() {
    assert_eq!(GameCode::new(['A', 'B', 'C', 'D', '1', '2', '3', 'x']), None);
    assert!(GameCode::new(['A', 'B', 'C', 'D', '1', '2', '3', '4']).is_some());
}

#[test]
fn charset_has_digits_then_letters() {
    assert_eq!(game_code_charset_char(0), '0');
    assert_eq!(game_code_charset_char(9), '9');
    assert_eq!(game_code_charset_char(10), 'A');
    assert_eq!(game_code_charset_char(32), 'W');
    assert_eq!(game_code_charset_char(33), 'Z');
    assert!(is_game_code_char('Z'));
    assert!(!is_game_code_char('X'));
    assert!(!is_game_code_char('Y'));
    assert!(!is_game_code_char('-'));
}

#[test]
fn ordinal_reads_base_34_digits_least_significant_first() {
    assert_eq!(GameCode::from_string("0000-0000").unwrap().ordinal(), 0);
    assert_eq!(GameCode::from_string("1000-0000").unwrap().ordinal(), 1);
    assert_eq!(GameCode::from_string("Z000-0000").unwrap().ordinal(), 33);
    assert_eq!(GameCode::from_string("0100-0000").unwrap().ordinal(), 34);
    assert_eq!(GameCode::from_string("ZZZZ-ZZZZ").unwrap().ordinal(), GAME_CODE_SPACE - 1);
}

#[test]
fn from_ordinal_inverts_ordinal() {
    assert_eq!(GameCode::from_ordinal(0).to_string(), "0000-0000");
    assert_eq!(GameCode::from_ordinal(35).to_string(), "1100-0000");
    assert_eq!(GameCode::from_ordinal(GAME_CODE_SPACE - 1).to_string(), "ZZZZ-ZZZZ");
    let code = GameCode::from_string("K2M4-P6R8").unwrap();
    assert_eq!(GameCode::from_ordinal(code.ordinal()), code);
}
