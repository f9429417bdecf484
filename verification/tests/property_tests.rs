use chess_parser::parse_pgn;
use chess_parser::Expected;

#[test]
fn test_metadata_overwrite_last_wins() {
    let pgn_text = r#"
    [Event "First"]
    [Event "Second"]

    1.e4 e5 1-0
    "#;
    let game = parse_pgn(pgn_text).unwrap();
    assert_eq!(game.metadata.get("Event"), Some(&"Second".to_string()));
    assert_eq!(game.metadata.len(), 1);
}

#[test]
fn test_whitespace_variants_parse_identically() {
    let a = parse_pgn("1.e4 e5 2.Nf3 Nc6 1-0").unwrap();
    let b = parse_pgn("  1.e4\n\te5   2.Nf3\r\nNc6\n1-0  ").unwrap();
    assert_eq!(a.turns.len(), b.turns.len());
    assert_eq!(a.result, b.result);
    for k in 0..a.turns.len() {
        let ta = &a.turns[k];
        let tb = &b.turns[k];
        assert_eq!(ta.turn_number, tb.turn_number);
        assert_eq!(
            ta.white_move.as_ref().unwrap().full_str,
            tb.white_move.as_ref().unwrap().full_str
        );
        assert_eq!(
            ta.black_move.as_ref().unwrap().full_str,
            tb.black_move.as_ref().unwrap().full_str
        );
    }
}

#[test]
fn test_result_alone_is_a_game() {
    let game = parse_pgn("1-0").unwrap();
    assert_eq!(game.turns.len(), 0);
    assert_eq!(game.metadata.len(), 0);
    assert_eq!(game.result, "1-0");
}

#[test]
fn test_empty_input_fails() {
    let r = parse_pgn("");
    assert!(r.is_err());
    let e = r.unwrap_err();
    assert_eq!(e.offset, 0);
    assert_eq!(e.expected, Expected::TurnOrResult);

    assert!(parse_pgn("   \n\t  ").is_err());
}

#[test]
fn test_missing_result_after_half_turn() {
    let r = parse_pgn("1.e4");
    assert!(r.is_err());
    assert_eq!(r.unwrap_err().expected, Expected::GameResult);
}

#[test]
fn test_trailing_text_after_result() {
    let r = parse_pgn("1.e4 e5 1-0 x");
    assert!(r.is_err());
    assert_eq!(r.unwrap_err().expected, Expected::EndOfInput);
}

#[test]
fn test_error_messages_name_the_construct() {
    let e1 = parse_pgn("").unwrap_err();
    assert!(!e1.message().is_empty());
    let e2 = parse_pgn("1.e4").unwrap_err();
    assert!(!e2.message().is_empty());
    let e3 = parse_pgn("1-0 junk").unwrap_err();
    assert!(!e3.message().is_empty());
}

#[test]
fn test_turn_number_too_large_fails() {
    let r = parse_pgn("99999999999999999999999.e4 e5 1-0");
    assert!(r.is_err());
}

#[test]
fn test_mixed_two_character_annotation() {
    // Any two characters from the closed symbol set are accepted.
    let game = parse_pgn("1.e4+! e5#? 1-0").unwrap();
    let turn = &game.turns[0];
    assert_eq!(turn.white_move.as_ref().unwrap().annotation, "+!");
    assert_eq!(turn.black_move.as_ref().unwrap().annotation, "#?");
}

#[test]
fn test_promotion_each_legal_piece() {
    let game = parse_pgn("1.e8=Q a1=R 2.h8=B c1=N 0-1").unwrap();
    assert_eq!(game.turns[0].white_move.as_ref().unwrap().promotion, 'Q');
    assert_eq!(game.turns[0].black_move.as_ref().unwrap().promotion, 'R');
    assert_eq!(game.turns[1].white_move.as_ref().unwrap().promotion, 'B');
    assert_eq!(game.turns[1].black_move.as_ref().unwrap().promotion, 'N');
}

#[test]
fn test_metadata_empty_value() {
    let game = parse_pgn("[Key \"\"] 1.e4 e5 1-0").unwrap();
    assert_eq!(game.metadata.get("Key"), Some(&"".to_string()));
}

#[test]
fn test_metadata_missing_key() {
    let r = parse_pgn("[\"value\"] 1.e4 e5 1-0");
    assert!(r.is_err());
}

#[test]
fn test_castling_both_sides() {
    let game = parse_pgn("1.O-O O-O-O 1-0").unwrap();
    let white = game.turns[0].white_move.as_ref().unwrap();
    let black = game.turns[0].black_move.as_ref().unwrap();
    assert!(white.special);
    assert_eq!(white.full_str, "O-O");
    assert_eq!(white.loc_col, '-');
    assert_eq!(white.loc_row, 0);
    assert!(black.special);
    assert_eq!(black.full_str, "O-O-O");
}

#[test]
fn test_annotation_stays_in_full_str() {
    let game = parse_pgn("1.Nf3!? d5 1-0").unwrap();
    let mv = game.turns[0].white_move.as_ref().unwrap();
    assert_eq!(mv.full_str, "Nf3!?");
    assert_eq!(mv.annotation, "!?");
    assert_eq!(mv.piece, 'N');
}

#[test]
fn test_closing_half_turn_black_absent() {
    let game = parse_pgn("1.e4 e5 2.Nf3 1-0").unwrap();
    assert_eq!(game.turns.len(), 2);
    assert!(game.turns[0].black_move.is_some());
    assert_eq!(game.turns[1].turn_number, 2);
    assert_eq!(game.turns[1].white_move.as_ref().unwrap().full_str, "Nf3");
    assert!(game.turns[1].black_move.is_none());
}

#[test]
fn test_metadata_enumeration() {
    let pgn_text = r#"
    [Event "Test Event"]
    [Site "Test Site"]

    1.e4 e5 1-0
    "#;
    let game = parse_pgn(pgn_text).unwrap();
    assert_eq!(game.metadata.len(), 2);
    let mut seen = Vec::new();
    for i in 0..game.metadata.len() {
        let key = game.metadata.key_at(i).clone();
        let value = game.metadata.value_at(i).clone();
        assert_eq!(game.metadata.get(&key), Some(&value));
        seen.push((key, value));
    }
    assert_eq!(seen[0], ("Event".to_string(), "Test Event".to_string()));
    assert_eq!(seen[1], ("Site".to_string(), "Test Site".to_string()));
}

#[test]
fn test_error_payload_deterministic() {
    let e1 = parse_pgn("1.e4 e5 1-0 x").unwrap_err();
    let e2 = parse_pgn("1.e4   e5\n1-0 x").unwrap_err();
    assert_eq!(e1, e2);
    assert_eq!(e1.expected, Expected::EndOfInput);
    // normalized text: "1.e4 e5 1-0 x"; the result ends at offset 11 and
    // the unparsed remainder begins after the separating space
    assert_eq!(e1.offset, 12);
}

#[test]
fn test_turn_numbers_kept_verbatim() {
    let game = parse_pgn("7.e4 e5 9.Nf3 Nc6 1-0").unwrap();
    assert_eq!(game.turns.len(), 2);
    assert_eq!(game.turns[0].turn_number, 7);
    assert_eq!(game.turns[1].turn_number, 9);
}
