use icps::icps::{redundant_semicolon, warn};
use icps::scanner::{Loc, LocToken, Scanner};
use icps::token::{Token, TokenKind};

fn scan(source: &str) -> Vec<LocToken> {
    Scanner::new(source).scan().unwrap()
}

fn kinds(source: &str) -> Vec<TokenKind> {
    scan(source).iter().map(|t| t.token.kind()).collect()
}

fn texts(source: &str) -> Vec<String> {
    scan(source).iter().map(|t| t.token.text()).collect()
}

fn at(line: usize, col: usize, idx: usize) -> Loc {
    Loc { line, col, idx }
}

#[test]
fn empty_source_is_one_end_token() {
    let tokens = scan("");
    assert_eq!(tokens.len(), 1);
    assert_eq!(tokens[0].token.kind(), TokenKind::Eof);
    assert_eq!(tokens[0].loc, at(1, 1, 0));
}

#[test]
fn single_characters_map_to_their_tokens() {
    assert_eq!(
        kinds("(){}@,+-*/;?:"),
        vec![
            TokenKind::LeftParen,
            TokenKind::RightParen,
            TokenKind::LeftBrace,
            TokenKind::RightBrace,
            TokenKind::At,
            TokenKind::Comma,
            TokenKind::Plus,
            TokenKind::Minus,
            TokenKind::Star,
            TokenKind::Slash,
            TokenKind::Semicolon,
            TokenKind::QuestionMark,
            TokenKind::Colon,
            TokenKind::Eof,
        ]
    );
}

#[test]
fn two_character_operators_need_their_second_character() {
    assert_eq!(
        kinds("!= == >= <= .. ! = > <"),
        vec![
            TokenKind::BangEqual,
            TokenKind::EqualEqual,
            TokenKind::GreaterEqual,
            TokenKind::LessEqual,
            TokenKind::Range,
            TokenKind::Bang,
            TokenKind::Equal,
            TokenKind::Greater,
            TokenKind::Less,
            TokenKind::Eof,
        ]
    );
    assert_eq!(kinds("=!"), vec![TokenKind::Equal, TokenKind::Bang, TokenKind::Eof]);
}

#[test]
fn white_space_is_skipped_and_newline_is_a_token() {
    assert_eq!(
        kinds(" \t\r1 \n 2"),
        vec![TokenKind::Number, TokenKind::Newline, TokenKind::Number, TokenKind::Eof]
    );
}

#[test]
fn tokens_are_located_at_their_first_character() {
    let tokens = scan("ab  12\n  \"x\ny\" z");
    let locs: Vec<Loc> = tokens.iter().map(|t| t.loc).collect();
    assert_eq!(
        locs,
        vec![at(1, 1, 0), at(1, 5, 4), at(1, 7, 6), at(2, 3, 9), at(3, 4, 15), at(3, 5, 16)]
    );
}

#[test]
fn numbers_carry_their_literal() {
    let tokens = scan("12 3.50 007");
    assert!(matches!(&tokens[0].token, Token::Number(s) if s == "12"));
    assert!(matches!(&tokens[1].token, Token::Number(s) if s == "3.50"));
    assert!(matches!(&tokens[2].token, Token::Number(s) if s == "007"));
    assert_eq!(tokens.len(), 4);
}

#[test]
fn a_fraction_joins_the_number_before_it() {
    let tokens = scan("1 .5");
    assert_eq!(tokens.len(), 2);
    assert!(matches!(&tokens[0].token, Token::Number(s) if s == "1.5"));
    assert_eq!(tokens[0].loc, at(1, 1, 0));
}

#[test]
fn a_second_fraction_is_an_error() {
    let e = Scanner::new("1.5.5").scan().unwrap_err();
    assert_eq!(e.message(), "Invalid number");
    assert_eq!(e.loc(), at(1, 4, 3));
    assert_eq!(Scanner::new("1.5 .5").scan().unwrap_err().to_text(), "[1:5] Invalid number");
}

#[test]
fn a_fraction_without_a_number_is_an_error() {
    let e = Scanner::new("x .5").scan().unwrap_err();
    assert_eq!(e.message(), "Unexpected character '.'");
    assert_eq!(e.loc(), at(1, 3, 2));
    let e = Scanner::new(".5").scan().unwrap_err();
    assert_eq!(e.to_text(), "[1:1] Unexpected character '.'");
}

#[test]
fn a_lone_dot_is_an_error() {
    let e = Scanner::new("a . b").scan().unwrap_err();
    assert_eq!(e.message(), "Unexpected character '.'");
    assert_eq!(e.loc(), at(1, 3, 2));
    let e = Scanner::new("1 ...").scan().unwrap_err();
    assert_eq!(e.loc(), at(1, 5, 4));
}

#[test]
fn a_range_between_numbers() {
    assert_eq!(texts("0..3"), vec!["0", "..", "3", "EOF"]);
}

#[test]
fn strings_carry_what_stands_between_the_quotes() {
    let tokens = scan("\"a b\" \"\"");
    assert!(matches!(&tokens[0].token, Token::String(s) if s == "a b"));
    assert!(matches!(&tokens[1].token, Token::String(s) if s.is_empty()));
    assert_eq!(tokens[1].loc, at(1, 7, 6));
}

#[test]
fn an_unterminated_string_is_an_error() {
    let e = Scanner::new("x = \"abc").scan().unwrap_err();
    assert_eq!(e.message(), "Unterminated string");
    assert_eq!(e.loc(), at(1, 5, 4));
}

#[test]
fn an_unexpected_character_is_an_error() {
    let e = Scanner::new("1 # 2").scan().unwrap_err();
    assert_eq!(e.message(), "Unexpected character #");
    assert_eq!(e.loc(), at(1, 3, 2));
}

#[test]
fn words_are_keywords_or_identifiers() {
    assert_eq!(
        kinds("and or xor not true false class if else while for null log return super this fn use var"),
        vec![
            TokenKind::And,
            TokenKind::Or,
            TokenKind::Xor,
            TokenKind::Not,
            TokenKind::True,
            TokenKind::False,
            TokenKind::Class,
            TokenKind::If,
            TokenKind::Else,
            TokenKind::While,
            TokenKind::For,
            TokenKind::Null,
            TokenKind::Log,
            TokenKind::Return,
            TokenKind::Super,
            TokenKind::This,
            TokenKind::Fn,
            TokenKind::Use,
            TokenKind::Var,
            TokenKind::Eof,
        ]
    );
    let tokens = scan("iffy x1 é2");
    assert!(matches!(&tokens[0].token, Token::Identifier(s) if s == "iffy"));
    assert!(matches!(&tokens[1].token, Token::Identifier(s) if s == "x1"));
    assert!(matches!(&tokens[2].token, Token::Identifier(s) if s == "é2"));
}

#[test]
fn an_underscore_is_no_part_of_a_word() {
    let e = Scanner::new("a_b").scan().unwrap_err();
    assert_eq!(e.message(), "Unexpected character _");
    assert_eq!(e.loc(), at(1, 2, 1));
}

#[test]
fn a_line_comment_ends_the_statement() {
    assert_eq!(
        kinds("1 // one\n2"),
        vec![TokenKind::Number, TokenKind::Newline, TokenKind::Number, TokenKind::Eof]
    );
    assert_eq!(kinds("1 // one"), vec![TokenKind::Number, TokenKind::Newline, TokenKind::Eof]);
}

#[test]
fn a_block_comment_leaves_no_token() {
    assert_eq!(kinds("1 /* a\n * b */ 2"), vec![TokenKind::Number, TokenKind::Number, TokenKind::Eof]);
    assert_eq!(kinds("1 /*/ 2"), vec![TokenKind::Number, TokenKind::Number, TokenKind::Eof]);
    assert_eq!(kinds("1 /* never closed"), vec![TokenKind::Number, TokenKind::Eof]);
    let tokens = scan("/* a\nb */ x");
    assert_eq!(tokens[0].loc, at(2, 6, 10));
}

#[test]
fn a_semicolon_before_a_newline_is_noted() {
    let mut scanner = Scanner::new("a;\nb; c;\n");
    scanner.scan().unwrap();
    assert_eq!(scanner.warnings(), &vec![at(1, 2, 1), at(2, 5, 7)]);
    assert_eq!(redundant_semicolon(at(1, 2, 1)), "[line 1, column 2] Warning: Redundant semicolon.");
    assert_eq!(warn(12, 345, "x"), "[line 12, column 345] Warning: x");
}

#[test]
fn tokens_are_equal_by_kind() {
    assert!(Token::Identifier("a".to_string()) == Token::Identifier("b".to_string()));
    assert!(Token::Number("1".to_string()) == Token::Number("2".to_string()));
    assert!(Token::Unknown('a') == Token::Unknown('b'));
    assert!(Token::Plus == Token::Plus);
    assert!(Token::Plus != Token::Minus);
    assert!(Token::String("a".to_string()) != Token::Identifier("a".to_string()));
}

#[test]
fn literal_tokens_are_values() {
    assert!(Token::Number("1".to_string()).is_valid_value());
    assert!(Token::String("s".to_string()).is_valid_value());
    assert!(Token::True.is_valid_value());
    assert!(Token::False.is_valid_value());
    assert!(Token::Null.is_valid_value());
    assert!(!Token::Identifier("x".to_string()).is_valid_value());
    assert!(!Token::Plus.is_valid_value());
    assert!(!Token::Eof.is_valid_value());
}

#[test]
fn tokens_are_written_as_in_the_source() {
    assert_eq!(Token::Newline.text(), "\\n");
    assert_eq!(Token::Range.text(), "..");
    assert_eq!(Token::Eof.text(), "EOF");
    assert_eq!(Token::UnterminatedString.text(), "unterminated string");
    assert_eq!(Token::Unknown('x').text(), "unknown");
    assert_eq!(Token::Identifier("name".to_string()).text(), "name");
    assert_eq!(Token::LessEqual.text(), "<=");
    assert_eq!(Token::keyword(&"while".to_string()), Some(Token::While));
    assert_eq!(Token::keyword(&"whale".to_string()), None);
}

#[test]
fn pieces_of_the_scanner_work_alone() {
    let mut scanner = Scanner::new("23+");
    assert!(matches!(scanner.number('1'), Ok(Token::Number(s)) if s == "123"));
    let mut scanner = Scanner::new("bc d");
    assert!(matches!(scanner.identifier('a'), Token::Identifier(s) if s == "abc"));
    let mut scanner = Scanner::new("or");
    assert!(matches!(scanner.identifier('f'), Token::For));
    let mut scanner = Scanner::new("abc\" x");
    assert!(matches!(scanner.string('"'), Ok(Token::String(s)) if s == "abc"));
    let mut scanner = Scanner::new("abc");
    assert_eq!(scanner.string('"').unwrap_err().message(), "Unterminated string");
}
