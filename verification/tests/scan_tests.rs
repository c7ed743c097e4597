use acwj_rs::scan::{Scanner, Token, TokenType};

fn to_vec_tokentype(v: Vec<Token>) -> Vec<TokenType> {
    v.into_iter().map(|t| t.ttype).collect()
}

fn scanner_from(input: &str) -> Scanner {
    Scanner::new(input.as_bytes().to_vec())
}

fn scan_all_mem(input: &str) -> Vec<Token> {
    let mut scanner = scanner_from(input);
    let mut tokens = vec![];
    while let Some(tok) = scanner.scan().unwrap() {
        tokens.push(tok);
    }
    tokens
}

#[test]
fn scan_plus() {
    assert_eq!(to_vec_tokentype(scan_all_mem("+")), vec![TokenType::Plus]);
}

#[test]
fn scan_minus() {
    assert_eq!(to_vec_tokentype(scan_all_mem("-")), vec![TokenType::Minus]);
}

#[test]
fn scan_star() {
    assert_eq!(to_vec_tokentype(scan_all_mem("*")), vec![TokenType::Star]);
}

#[test]
fn scan_slash() {
    assert_eq!(to_vec_tokentype(scan_all_mem("/")), vec![TokenType::Slash]);
}

#[test]
fn scan_single_digit_intlit() {
    assert_eq!(to_vec_tokentype(scan_all_mem("7")), vec![TokenType::IntLit(7)]);
}

#[test]
fn scan_multidigit_intlit() {
    assert_eq!(to_vec_tokentype(scan_all_mem("1234")), vec![TokenType::IntLit(1234)]);
}

#[test]
fn scan_skips_leading_and_trailing_whitespace() {
    assert_eq!(to_vec_tokentype(scan_all_mem("  +  ")), vec![TokenType::Plus]);
}

#[test]
fn scan_returns_none_at_eof() {
    let mut scanner = scanner_from("");
    assert!(scanner.scan().unwrap().is_none());
}

#[test]
fn scan_tracks_newlines() {
    let mut scanner = scanner_from("1\n2");
    scanner.scan().unwrap(); // reads '1', then '\n' (line 2), which it puts back
    assert_eq!(scanner.get_line(), 2);
    scanner.scan().unwrap(); // reads the put-back '\n', then '2'
    assert_eq!(scanner.get_line(), 2);
}

#[test]
fn scan_newline_then_eof() {
    let mut scanner = scanner_from("1\n");
    assert_eq!(scanner.scan().unwrap().map(|t| t.ttype), Some(TokenType::IntLit(1)));
    assert_eq!(scanner.get_line(), 2);
    assert!(scanner.scan().unwrap().is_none());
}

#[test]
fn scan_sequence_of_mixed_tokens() {
    assert_eq!(
        to_vec_tokentype(scan_all_mem("1 + 2")),
        vec![TokenType::IntLit(1), TokenType::Plus, TokenType::IntLit(2)],
    );
}

#[test]
fn scan_int_keyword() {
    assert_eq!(to_vec_tokentype(scan_all_mem("int")), vec![TokenType::Int]);
}

#[test]
fn scan_identifier() {
    assert_eq!(to_vec_tokentype(scan_all_mem("x")), vec![TokenType::Ident("x".to_string())]);
    assert_eq!(to_vec_tokentype(scan_all_mem("foo")), vec![TokenType::Ident("foo".to_string())]);
    assert_eq!(to_vec_tokentype(scan_all_mem("_bar")), vec![TokenType::Ident("_bar".to_string())]);
}

#[test]
fn scan_equals() {
    assert_eq!(to_vec_tokentype(scan_all_mem("=")), vec![TokenType::Assign]);
}

#[test]
fn scan_double_eq() {
    assert_eq!(to_vec_tokentype(scan_all_mem("==")), vec![TokenType::EQ]);
}

#[test]
fn scan_ne() {
    assert_eq!(to_vec_tokentype(scan_all_mem("!=")), vec![TokenType::NE]);
}

#[test]
fn scan_le() {
    assert_eq!(to_vec_tokentype(scan_all_mem("<=")), vec![TokenType::LE]);
}

#[test]
fn scan_ge() {
    assert_eq!(to_vec_tokentype(scan_all_mem(">=")), vec![TokenType::GE]);
}

#[test]
fn scan_single_char_lt_and_gt() {
    assert_eq!(to_vec_tokentype(scan_all_mem("<")), vec![TokenType::LT]);
    assert_eq!(to_vec_tokentype(scan_all_mem(">")), vec![TokenType::GT]);
}

#[test]
fn scan_braces_and_parens() {
    assert_eq!(to_vec_tokentype(scan_all_mem("{")), vec![TokenType::LeftBrace]);
    assert_eq!(to_vec_tokentype(scan_all_mem("}")), vec![TokenType::RightBrace]);
    assert_eq!(to_vec_tokentype(scan_all_mem("(")), vec![TokenType::LeftParen]);
    assert_eq!(to_vec_tokentype(scan_all_mem(")")), vec![TokenType::RightParen]);
}

#[test]
fn scan_keywords() {
    assert_eq!(to_vec_tokentype(scan_all_mem("char")), vec![TokenType::Char]);
    assert_eq!(to_vec_tokentype(scan_all_mem("else")), vec![TokenType::Else]);
    assert_eq!(to_vec_tokentype(scan_all_mem("for")), vec![TokenType::For]);
    assert_eq!(to_vec_tokentype(scan_all_mem("if")), vec![TokenType::If]);
    assert_eq!(to_vec_tokentype(scan_all_mem("int")), vec![TokenType::Int]);
    assert_eq!(to_vec_tokentype(scan_all_mem("long")), vec![TokenType::Long]);
    assert_eq!(to_vec_tokentype(scan_all_mem("return")), vec![TokenType::Return]);
    assert_eq!(to_vec_tokentype(scan_all_mem("void")), vec![TokenType::Void]);
    assert_eq!(to_vec_tokentype(scan_all_mem("while")), vec![TokenType::While]);
}

#[test]
fn matches_succeeds_on_correct_token() {
    let mut scanner = scanner_from("+");
    let tok = scanner.matches(TokenType::Plus).unwrap();
    assert_eq!(tok.ttype, TokenType::Plus);
}

#[test]
fn ident_returns_identifier_name() {
    let mut scanner = scanner_from("foo");
    assert_eq!(scanner.ident().unwrap(), "foo");
}

#[test]
fn maybe_token_true_consumes_token() {
    let mut scanner = scanner_from("+");
    assert!(scanner.maybe_token(TokenType::Plus).unwrap());
    assert!(scanner.scan().unwrap().is_none());
}

#[test]
fn maybe_token_false_puts_back_token() {
    let mut scanner = scanner_from("+");
    assert!(!scanner.maybe_token(TokenType::Minus).unwrap());
    assert_eq!(scanner.scan().unwrap().map(|t| t.ttype), Some(TokenType::Plus));
}

#[test]
fn is_eof_false_with_putback_token() {
    let mut scanner = scanner_from("");
    scanner.putback_token(Token { line: 1, col: 1, ttype: TokenType::Semi });
    assert!(!scanner.is_eof());
}

#[test]
fn is_eof_true_on_empty_input() {
    let mut scanner = scanner_from("");
    assert!(scanner.is_eof());
}

#[test]
fn is_eof_false_on_non_empty_input() {
    let mut scanner = scanner_from("+");
    assert!(!scanner.is_eof());
}
