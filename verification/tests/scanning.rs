use rlox::scanner::Scanner;
use rlox::token::Token;
use rlox::token_type::TokenType;
use rlox::Lox;

fn scan(source: &str) -> (Vec<Token>, Lox) {
    let mut lox = Lox::new();
    let mut scanner = Scanner::new(source.to_string());
    scanner.scan_tokens(&mut lox);
    (scanner.tokens, lox)
}

fn kinds(tokens: &[Token]) -> Vec<String> {
    tokens
        .iter()
        .map(|t| {
            let debug = format!("{:?}", t.kind);
            debug.split_whitespace().next().unwrap().to_string()
        })
        .collect()
}

#[test]
fn empty_source_scans_to_single_end_marker() {
    let (tokens, lox) = scan("");
    assert_eq!(tokens.len(), 1);
    assert!(matches!(tokens[0].kind, TokenType::Eof));
    assert_eq!(tokens[0].lexeme, "");
    assert_eq!(tokens[0].line, 1);
    assert!(!lox.had_error);
    assert!(lox.diagnostics.is_empty());
}

#[test]
fn every_scan_ends_with_exactly_one_end_marker() {
    for source in ["", "1 + 2", "\"open", "@#\n%", "/* a", "and or while"] {
        let (tokens, _) = scan(source);
        assert!(!tokens.is_empty(), "scan of {:?} was empty", source);
        assert!(matches!(tokens.last().unwrap().kind, TokenType::Eof));
        let eofs = tokens
            .iter()
            .filter(|t| matches!(t.kind, TokenType::Eof))
            .count();
        assert_eq!(eofs, 1, "scan of {:?} had {} end markers", source, eofs);
    }
}

#[test]
fn maximal_munch_equal_equal_is_one_token() {
    let (tokens, lox) = scan("==");
    assert_eq!(tokens.len(), 2);
    assert!(matches!(tokens[0].kind, TokenType::EqualEqual));
    assert_eq!(tokens[0].lexeme, "==");
    assert!(!lox.had_error);
}

#[test]
fn maximal_munch_for_all_two_character_operators() {
    let (tokens, _) = scan("!= == <= >=");
    assert_eq!(
        kinds(&tokens),
        vec!["BangEqual", "EqualEqual", "LessEqual", "GreaterEqual", "Eof"]
    );
}

#[test]
fn separated_characters_stay_single_tokens() {
    let (tokens, _) = scan("! = < >");
    assert_eq!(kinds(&tokens), vec!["Bang", "Equal", "Less", "Greater", "Eof"]);
}

#[test]
fn single_character_tokens() {
    let (tokens, _) = scan("(){},.-+;*/");
    assert_eq!(
        kinds(&tokens),
        vec![
            "LeftParen",
            "RightParen",
            "LeftBrace",
            "RightBrace",
            "Comma",
            "Dot",
            "Minus",
            "Plus",
            "Semicolon",
            "Star",
            "Slash",
            "Eof"
        ]
    );
}

#[test]
fn nested_block_comment_is_fully_consumed() {
    let (tokens, lox) = scan("/* a /* b */ c */");
    assert_eq!(tokens.len(), 1);
    assert!(matches!(tokens[0].kind, TokenType::Eof));
    assert!(!lox.had_error);
    assert!(lox.diagnostics.is_empty());
}

#[test]
fn block_comment_between_tokens() {
    let (tokens, lox) = scan("1 /* gone /* deeper */ still gone */ 2");
    assert_eq!(kinds(&tokens), vec!["Number", "Number", "Eof"]);
    assert!(!lox.had_error);
}

#[test]
fn unterminated_block_comment_reports_one_error() {
    let (tokens, lox) = scan("/* a");
    assert_eq!(tokens.len(), 1);
    assert!(matches!(tokens[0].kind, TokenType::Eof));
    assert!(lox.had_error);
    assert_eq!(
        lox.diagnostics,
        vec!["[line 1] Error : Unterminated block comment".to_string()]
    );
}

#[test]
fn line_comment_runs_to_end_of_line() {
    let (tokens, lox) = scan("// nothing here\n5");
    assert_eq!(tokens.len(), 2);
    assert!(matches!(tokens[0].kind, TokenType::Number { .. }));
    assert_eq!(tokens[0].line, 2);
    assert!(!lox.had_error);
}

#[test]
fn string_literal_payload_drops_the_quotes() {
    let (tokens, _) = scan("\"hi\"");
    match &tokens[0].kind {
        TokenType::String { literal } => assert_eq!(literal, "hi"),
        other => panic!("expected a string token, got {:?}", other),
    }
    assert_eq!(tokens[0].lexeme, "\"hi\"");
}

#[test]
fn string_with_newline_counts_lines() {
    let (tokens, lox) = scan("\"a\nb\" 9");
    assert!(matches!(tokens[0].kind, TokenType::String { .. }));
    assert_eq!(tokens[0].line, 2);
    assert_eq!(tokens[1].line, 2);
    assert!(!lox.had_error);
}

#[test]
fn unterminated_string_reports_one_error() {
    let (tokens, lox) = scan("\"abc");
    assert_eq!(tokens.len(), 1);
    assert!(lox.had_error);
    assert_eq!(
        lox.diagnostics,
        vec!["[line 1] Error : Unterminated string".to_string()]
    );
}

#[test]
fn number_with_fraction() {
    let (tokens, _) = scan("123.45");
    match &tokens[0].kind {
        TokenType::Number { text } => assert_eq!(text, "123.45"),
        other => panic!("expected a number token, got {:?}", other),
    }
    assert_eq!(tokens[0].lexeme, "123.45");
}

#[test]
fn number_text_is_canonical_decimal() {
    for (source, expected) in [
        ("007", "7"),
        ("1.50", "1.5"),
        ("12.00", "12"),
        ("0.5", "0.5"),
        ("000.50", "0.5"),
        ("0", "0"),
        ("0.0", "0"),
        ("42", "42"),
    ] {
        let (tokens, _) = scan(source);
        match &tokens[0].kind {
            TokenType::Number { text } => assert_eq!(text, expected, "for {:?}", source),
            other => panic!("expected a number token for {:?}, got {:?}", source, other),
        }
        assert_eq!(tokens[0].lexeme, source);
    }
}

#[test]
fn trailing_dot_is_not_part_of_a_number() {
    let (tokens, _) = scan("123.");
    assert_eq!(kinds(&tokens), vec!["Number", "Dot", "Eof"]);
}

#[test]
fn keywords_and_identifiers() {
    let (tokens, _) = scan("foo and while classy _bar nil");
    assert_eq!(
        kinds(&tokens),
        vec!["Identifier", "And", "While", "Identifier", "Identifier", "Nil", "Eof"]
    );
    assert_eq!(tokens[0].lexeme, "foo");
    assert_eq!(tokens[3].lexeme, "classy");
}

#[test]
fn all_keywords_are_recognized() {
    let (tokens, _) = scan(
        "and or class else false true for fun if nil print return this super var while",
    );
    assert_eq!(
        kinds(&tokens),
        vec![
            "And", "Or", "Class", "Else", "False", "True", "For", "Fun", "If", "Nil",
            "Print", "Return", "This", "Super", "Var", "While", "Eof"
        ]
    );
}

#[test]
fn unexpected_character_is_reported_and_skipped() {
    let (tokens, lox) = scan("@1");
    assert_eq!(kinds(&tokens), vec!["Number", "Eof"]);
    assert!(lox.had_error);
    assert_eq!(
        lox.diagnostics,
        vec!["[line 1] Error : Unexpected character".to_string()]
    );
}

#[test]
fn newlines_advance_the_line_counter() {
    let (tokens, _) = scan("1\n2\n\n3");
    assert_eq!(tokens[0].line, 1);
    assert_eq!(tokens[1].line, 2);
    assert_eq!(tokens[2].line, 4);
}

#[test]
fn report_formats_the_diagnostic_line() {
    assert_eq!(
        rlox::error::report(3, " at end", "boom"),
        "[line 3] Error  at end: boom"
    );
    assert_eq!(rlox::error::report(1, "", "msg"), "[line 1] Error : msg");
}

#[test]
fn usize_to_string_gives_decimal_digits() {
    assert_eq!(rlox::error::usize_to_string(0), "0");
    assert_eq!(rlox::error::usize_to_string(7), "7");
    assert_eq!(rlox::error::usize_to_string(12345), "12345");
}

#[test]
fn error_records_into_the_lox_state() {
    let mut lox = Lox::new();
    rlox::error::error(&mut lox, 7, "bad");
    assert!(lox.had_error);
    assert_eq!(lox.diagnostics, vec!["[line 7] Error : bad".to_string()]);
}

#[test]
fn parser_error_locates_the_offending_token() {
    let mut lox = Lox::new();
    let star = Token::new(TokenType::Star, "*".to_string(), 2);
    rlox::error::parser_error(&mut lox, &star, "msg");
    let eof = Token::new(TokenType::Eof, "".to_string(), 4);
    rlox::error::parser_error(&mut lox, &eof, "msg");
    assert_eq!(
        lox.diagnostics,
        vec![
            "[line 2] Error  at '*': msg".to_string(),
            "[line 4] Error  at end: msg".to_string()
        ]
    );
}

#[test]
fn canonical_number_strips_zeros() {
    assert_eq!(rlox::scanner::canonical_number("00123.4500"), "123.45");
    assert_eq!(rlox::scanner::canonical_number("10"), "10");
}
