use easy_config::lexer::token::{Kind, Token};
use easy_config::lexer::{lex, Lexer};

#[test]
fn mod_eat_rocket() {
    let mut x = Lexer::new("rocket beans");
    assert_eq!(x.next_token(), Some(Token::new(Kind::Text, 0, "rocket")));
}

#[test]
fn mod_lparen() {
    let text = "(";
    let mut lexer = Lexer::new(text);
    assert_eq!(lexer.next_token(), Some(Token::new(Kind::LParen, 0, "(")))
}

#[test]
fn mod_rparen() {
    let text = ")";
    let mut lexer = Lexer::new(text);
    assert_eq!(lexer.next_token(), Some(Token::new(Kind::RParen, 0, ")")))
}

#[test]
fn mod_lparen_rparen() {
    let text = "()";
    let mut lexer = Lexer::new(text);
    assert_eq!(lexer.next_token(), Some(Token::new(Kind::LParen, 0, "(")));
    assert_eq!(lexer.next_token(), Some(Token::new(Kind::RParen, 1, ")")));
}

#[test]
fn mod_lparen_rparen_inline_comment() {
    let text = "(#comment in line\n)";
    let tokens: Vec<Token> = lex(text);

    let expected = vec![
        Token::new(Kind::LParen, 0, "("),
        Token::new(Kind::RParen, 18, ")"),
    ];

    assert_eq!(tokens, expected);
}

#[test]
fn mod_lparen_rparen_comment() {
    let text = "#comment not inline\n()";
    let mut lexer = Lexer::new(text);
    assert_eq!(lexer.next_token(), Some(Token::new(Kind::LParen, 20, "(")));
    assert_eq!(lexer.next_token(), Some(Token::new(Kind::RParen, 21, ")")));
}

#[test]
fn mod_rocket() {
    let text = "rocket";
    let mut lexer = Lexer::new(text);
    assert_eq!(lexer.next_token(), Some(Token::new(Kind::Text, 0, "rocket")));
}

#[test]
fn mod_lparen_rocket_rparen() {
    let text = "(rocket)";
    let mut lexer = Lexer::new(text);
    assert_eq!(lexer.next_token(), Some(Token::new(Kind::LParen, 0, "(")));
    assert_eq!(lexer.next_token(), Some(Token::new(Kind::Text, 1, "rocket")));
    assert_eq!(lexer.next_token(), Some(Token::new(Kind::RParen, 7, ")")));
}

#[test]
fn mod_escaped_l_paren() {
    let text = r"\(";
    let mut lexer = Lexer::new(text);
    assert_eq!(lexer.next_token(), Some(Token::new(Kind::Text, 0, "\\(")));
}

#[test]
fn mod_escaped_lparen_b() {
    let text = r"\(b";
    let mut lexer = Lexer::new(text);
    assert_eq!(lexer.next_token(), Some(Token::new(Kind::Text, 0, "\\(b")));
}

#[test]
fn mod_b_escaped_lparen() {
    let text = r"b\(";
    let mut lexer = Lexer::new(text);
    assert_eq!(lexer.next_token(), Some(Token::new(Kind::Text, 0, "b\\(")));
}

#[test]
fn mod_a_escaped_lparen_b() {
    let text = r"a\(b";
    let mut lexer = Lexer::new(text);
    assert_eq!(lexer.next_token(), Some(Token::new(Kind::Text, 0, "a\\(b")));
}

#[test]
fn mod_newline_inside() {
    let text = "a\nb";
    let mut tokens = Lexer::new(text);
    assert_eq!(tokens.next_token().unwrap(), Token::new(Kind::Text, 0, "a"));
    assert_eq!(tokens.next_token().unwrap(), Token::new(Kind::Text, 2, "b"));
}

#[test]
fn mod_long_test_1() {
    let text = r"symbols = (\( \= \#) letters = (a b c)";
    let tokens: Vec<Token> = lex(text);
    let expected = vec![
        Token::new(Kind::Text, 0, "symbols"),
        Token::new(Kind::Equals, 8, "="),
        Token::new(Kind::LParen, 10, "("),
        Token::new(Kind::Text, 11, "\\("),
        Token::new(Kind::Text, 14, "\\="),
        Token::new(Kind::Text, 17, "\\#"),
        Token::new(Kind::RParen, 19, ")"),
        Token::new(Kind::Text, 21, "letters"),
        Token::new(Kind::Equals, 29, "="),
        Token::new(Kind::LParen, 31, "("),
        Token::new(Kind::Text, 32, "a"),
        Token::new(Kind::Text, 34, "b"),
        Token::new(Kind::Text, 36, "c"),
        Token::new(Kind::RParen, 37, ")"),
    ];

    assert_eq!(tokens, expected);
}

#[test]
fn valid_identifier() {
    assert!(Token::new(Kind::Text, 0, "some_name")
        .invalid_identifier_char_index()
        .is_none());
}

#[test]
fn invalid_identifier() {
    assert_eq!(
        Token::new(Kind::Text, 0, "some-name").invalid_identifier_char_index(),
        Some(4)
    );
}

#[test]
fn number_token() {
    // a numeric token starts with a digit and continues through the
    // hex/binary/exponent/float literal characters
    let text = "0x1b 12.5 1e9";
    let tokens: Vec<Token> = lex(text);
    assert_eq!(
        tokens,
        vec![
            Token::new(Kind::Number, 0, "0x1b"),
            Token::new(Kind::Number, 5, "12.5"),
            Token::new(Kind::Number, 10, "1e9"),
        ]
    );
}

#[test]
fn whitespace_and_comments_interleave() {
    // any run of whitespace and line comments between tokens is skipped
    let text = "# one\n  # two\n  x";
    let tokens: Vec<Token> = lex(text);
    assert_eq!(tokens, vec![Token::new(Kind::Text, 16, "x")]);
}

#[test]
fn lparen_rparen_terminating_comment() {
    let text = "()//comment not inline";
    let mut lexer = Lexer::new(text);
    assert_eq!(lexer.next_token(), Some(Token::new(Kind::LParen, 0, "(")));
    assert_eq!(lexer.next_token(), Some(Token::new(Kind::RParen, 1, ")")));
}

#[test]
fn no_escape() {
    let text = r"a\b";
    let mut tokens = Lexer::new(text);
    assert_eq!(tokens.next_token().unwrap(), Token::new(Kind::Text, 0, "a\\b"));
}
