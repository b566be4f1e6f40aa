use winzig::lexer::{Keyword, LexError, Lexer, Operator, Token};

fn lex(text: &str) -> Result<Vec<Token>, LexError> {
    Lexer::new(text.to_string()).lex()
}

#[test]
fn test_lex_keyword() {
    let mut lexer = Lexer::new("program".to_string());
    let tokens = lexer.lex().unwrap();
    assert_eq!(tokens, vec![Token::Keyword(Keyword::Program)]);
}

#[test]
fn test_lex_operator() {
    let mut lexer = Lexer::new("+".to_string());
    let tokens = lexer.lex().unwrap();
    assert_eq!(tokens, vec![Token::Operator(Operator::Plus)]);
}

#[test]
fn test_lex_integer() {
    let mut lexer = Lexer::new("12345".to_string());
    let tokens = lexer.lex().unwrap();
    assert_eq!(tokens, vec![Token::Integer(12345)]);
}

#[test]
fn test_lex_identifier() {
    let mut lexer = Lexer::new("myVariable".to_string());
    let tokens = lexer.lex().unwrap();
    assert_eq!(tokens, vec![Token::Identifier("myVariable".to_string())]);
}

#[test]
fn test_lex_string() {
    let mut lexer = Lexer::new("\"hello world\"".to_string());
    let tokens = lexer.lex().unwrap();
    assert_eq!(tokens, vec![Token::String("\"hello world\"".to_string())]);
}

#[test]
fn test_lex_comment() {
    let mut lexer = Lexer::new("# this is a comment".to_string());
    let tokens = lexer.lex().unwrap();
    assert_eq!(tokens, vec![Token::Comment]);
}

#[test]
fn test_lex_whitespace() {
    let mut lexer = Lexer::new("   ".to_string());
    let tokens = lexer.lex().unwrap();
    assert_eq!(tokens, vec![Token::Whitespace]);
}

#[test]
fn test_lex_special_token() {
    let mut lexer = Lexer::new(";\n,".to_string());
    let tokens = lexer.lex().unwrap();
    assert_eq!(tokens, vec![Token::Semicolon, Token::Newline, Token::Comma]);
}

#[test]
fn test_lex_complex() {
    let mut lexer = Lexer::new("program test; var a := 10; # comment".to_string());
    let tokens = lexer.lex().unwrap();
    assert_eq!(
        tokens,
        vec![
            Token::Keyword(Keyword::Program),
            Token::Whitespace,
            Token::Identifier("test".to_string()),
            Token::Semicolon,
            Token::Whitespace,
            Token::Keyword(Keyword::Var),
            Token::Whitespace,
            Token::Identifier("a".to_string()),
            Token::Whitespace,
            Token::Operator(Operator::Assignment),
            Token::Whitespace,
            Token::Integer(10),
            Token::Semicolon,
            Token::Whitespace,
            Token::Comment
        ]
    );
}

#[test]
fn keyword_needs_the_whole_word() {
    assert_eq!(lex("program").unwrap(), vec![Token::Keyword(Keyword::Program)]);
    assert_eq!(lex("programX").unwrap(), vec![Token::Identifier("programX".to_string())]);
    assert_eq!(lex("_end1").unwrap(), vec![Token::Identifier("_end1".to_string())]);
}

#[test]
fn colon_forms_take_the_longest_match() {
    assert_eq!(lex(":").unwrap(), vec![Token::Colon]);
    assert_eq!(lex(":=").unwrap(), vec![Token::Operator(Operator::Assignment)]);
    assert_eq!(lex(":=:").unwrap(), vec![Token::Operator(Operator::Swap)]);
    assert_eq!(
        lex(":=X").unwrap(),
        vec![Token::Operator(Operator::Assignment), Token::Identifier("X".to_string())]
    );
    assert_eq!(lex(":x").unwrap(), vec![Token::Colon, Token::Identifier("x".to_string())]);
}

#[test]
fn comparison_operators() {
    assert_eq!(
        lex("< <= <> > >= =").unwrap(),
        vec![
            Token::Operator(Operator::LessThan),
            Token::Whitespace,
            Token::Operator(Operator::LessEqual),
            Token::Whitespace,
            Token::Operator(Operator::NotEqual),
            Token::Whitespace,
            Token::Operator(Operator::GreaterThan),
            Token::Whitespace,
            Token::Operator(Operator::GreaterEqual),
            Token::Whitespace,
            Token::Operator(Operator::Equal),
        ]
    );
}

#[test]
fn dots_char_and_block_comment() {
    assert_eq!(
        lex("1..'z'{a\nb}.").unwrap(),
        vec![
            Token::Integer(1),
            Token::Dots,
            Token::Char('z'),
            Token::Comment,
            Token::Dot,
        ]
    );
}

#[test]
fn line_counter_follows_newlines() {
    let mut lexer = Lexer::new("a\n{x\ny}\nb".to_string());
    assert_eq!(lexer.line(), 1);
    lexer.lex().unwrap();
    assert_eq!(lexer.line(), 4);
}

#[test]
fn unexpected_character_is_reported() {
    assert_eq!(lex("hello!"), Err(LexError::UnexpectedCharacter('!')));
}

#[test]
fn lexical_errors() {
    assert_eq!(lex("'a"), Err(LexError::UnterminatedChar));
    assert_eq!(lex("\"ab\ncd\""), Err(LexError::UnterminatedString));
    assert_eq!(lex("\"ab"), Err(LexError::UnterminatedString));
    assert_eq!(lex("{ abc"), Err(LexError::UnterminatedComment));
    assert_eq!(lex("99999999999999999999"), Err(LexError::IntegerOverflow));
    assert_eq!(lex("9223372036854775807").unwrap(), vec![Token::Integer(i64::MAX)]);
}

#[test]
fn each_token_rescans_alone() {
    let text = "x:=:y; z := 'q' + 12 <= \"s\"..";
    let tokens = lex(text).unwrap();
    let pieces = ["x", ":=:", "y", ";", " ", "z", " ", ":=", " ", "'q'", " ", "+", " ", "12", " ", "<=", " ", "\"s\"", ".."];
    assert_eq!(tokens.len(), pieces.len());
    for (token, piece) in tokens.iter().zip(pieces.iter()) {
        assert_eq!(lex(piece).unwrap(), vec![token.clone()]);
    }
}
