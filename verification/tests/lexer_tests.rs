use strawberry::lexer::{tokenize, Lexer};
use strawberry::error::ParserError;
use strawberry::token::{get_precedence, Token};

fn toks(input: &str) -> Vec<Token> {
    tokenize(input).expect("tokenization failed")
}

#[test]
fn single_keyword_lexemes() {
    assert_eq!(toks("func"), vec![Token::Function]);
    assert_eq!(toks("lambda"), vec![Token::Lambda]);
    assert_eq!(toks("if"), vec![Token::If]);
    assert_eq!(toks("unless"), vec![Token::Unless]);
    assert_eq!(toks("else"), vec![Token::Else]);
    assert_eq!(toks("return"), vec![Token::Return]);
    assert_eq!(toks("end"), vec![Token::End]);
    assert_eq!(toks("true"), vec![Token::True]);
    assert_eq!(toks("false"), vec![Token::False]);
}

#[test]
fn single_operator_lexemes() {
    assert_eq!(toks("="), vec![Token::Assign]);
    assert_eq!(toks("=="), vec![Token::EqualTo]);
    assert_eq!(toks("~"), vec![Token::Denial]);
    assert_eq!(toks("~="), vec![Token::NotEqualTo]);
    assert_eq!(toks("&"), vec![Token::BinaryAnd]);
    assert_eq!(toks("&&"), vec![Token::And]);
    assert_eq!(toks("+"), vec![Token::Plus]);
    assert_eq!(toks("-"), vec![Token::Minus]);
    assert_eq!(toks("->"), vec![Token::Arrow]);
    assert_eq!(toks("*"), vec![Token::Asterix]);
    assert_eq!(toks("/"), vec![Token::Slash]);
    assert_eq!(toks("<"), vec![Token::LessThan]);
    assert_eq!(toks(">"), vec![Token::GreaterThan]);
}

#[test]
fn single_punctuation_lexemes() {
    assert_eq!(toks(","), vec![Token::Comma]);
    assert_eq!(toks("."), vec![Token::Period]);
    assert_eq!(toks(":"), vec![Token::Colon]);
    assert_eq!(toks("("), vec![Token::LParen]);
    assert_eq!(toks(")"), vec![Token::RParen]);
    assert_eq!(toks("{"), vec![Token::LBrace]);
    assert_eq!(toks("}"), vec![Token::RBrace]);
}

#[test]
fn lexeme_then_end_of_input() {
    let mut lx = Lexer::new("func");
    assert_eq!(lx.next_token(), Ok(Some(Token::Function)));
    assert_eq!(lx.next_token(), Ok(None));
    assert_eq!(lx.next_token(), Ok(None));
}

#[test]
fn equal_equal_is_one_token() {
    assert_eq!(toks("=="), vec![Token::EqualTo]);
    assert_ne!(toks("=="), vec![Token::Assign, Token::Assign]);
}

#[test]
fn assign_preserves_lookahead() {
    assert_eq!(toks("=a"), vec![Token::Assign, Token::Identifier("a".to_string())]);
    assert_eq!(toks("=+"), vec![Token::Assign, Token::Plus]);
}

#[test]
fn minus_arrow_pairing() {
    assert_eq!(toks("->"), vec![Token::Arrow]);
    assert_eq!(toks("-a"), vec![Token::Minus, Token::Identifier("a".to_string())]);
    assert_eq!(toks("- >"), vec![Token::Minus, Token::GreaterThan]);
}

#[test]
fn denial_pairing() {
    assert_eq!(toks("~="), vec![Token::NotEqualTo]);
    assert_eq!(toks("~a"), vec![Token::Denial, Token::Identifier("a".to_string())]);
}

#[test]
fn ampersand_pairing() {
    assert_eq!(toks("&&"), vec![Token::And]);
    assert_eq!(toks("&a"), vec![Token::BinaryAnd, Token::Identifier("a".to_string())]);
}

#[test]
fn float_and_integer_literals() {
    assert_eq!(toks("133.7"), vec![Token::Float("133.7".to_string())]);
    match &toks("133.7")[0] {
        Token::Float(tx) => assert_eq!(tx.parse::<f64>().unwrap(), 133.7),
        other => panic!("expected a float token, got {:?}", other),
    }
    assert_eq!(toks("133"), vec![Token::Integer(133)]);
}

#[test]
fn integer_edge_values() {
    assert_eq!(toks("0"), vec![Token::Integer(0)]);
    assert_eq!(
        toks("9223372036854775807"),
        vec![Token::Integer(9223372036854775807)]
    );
    // One past i64::MAX no longer reads as an integer; the run falls
    // back to its float reading.
    assert_eq!(
        toks("9223372036854775808"),
        vec![Token::Float("9223372036854775808".to_string())]
    );
}

#[test]
fn trailing_point_is_part_of_the_run() {
    assert_eq!(toks("133."), vec![Token::Float("133.".to_string())]);
    match &toks("133.")[0] {
        Token::Float(tx) => assert_eq!(tx.parse::<f64>().unwrap(), 133.0),
        other => panic!("expected a float token, got {:?}", other),
    }
}

#[test]
fn two_points_are_a_bad_number() {
    assert_eq!(tokenize("1.2.3"), Err(ParserError::BadNumber));
    assert_eq!(tokenize("1..2"), Err(ParserError::BadNumber));
}

#[test]
fn invalid_character_does_not_stop_the_scan() {
    assert_eq!(
        toks("a $ b"),
        vec![
            Token::Identifier("a".to_string()),
            Token::Invalid('$'),
            Token::Identifier("b".to_string()),
        ]
    );
}

#[test]
fn identifiers_and_keyword_boundaries() {
    assert_eq!(toks("funky"), vec![Token::Identifier("funky".to_string())]);
    assert_eq!(toks("_x1?"), vec![Token::Identifier("_x1?".to_string())]);
    assert_eq!(toks("done!"), vec![Token::Identifier("done!".to_string())]);
    assert_eq!(toks("Func"), vec![Token::Identifier("Func".to_string())]);
}

#[test]
fn identifiers_beyond_ascii() {
    // An alphabetic character outside ASCII opens and continues an
    // identifier; a non-alphabetic symbol is an invalid character.
    assert_eq!(toks("héllo"), vec![Token::Identifier("héllo".to_string())]);
    assert_eq!(toks("λx"), vec![Token::Identifier("λx".to_string())]);
    assert_eq!(
        toks("a♥b"),
        vec![
            Token::Identifier("a".to_string()),
            Token::Invalid('♥'),
            Token::Identifier("b".to_string()),
        ]
    );
}

#[test]
fn whitespace_is_skipped() {
    assert_eq!(
        toks("  \t\n x \r\n y "),
        vec![
            Token::Identifier("x".to_string()),
            Token::Identifier("y".to_string()),
        ]
    );
}

#[test]
fn sample_line_tokenizes() {
    assert_eq!(
        toks("func foo(x: int) -> int"),
        vec![
            Token::Function,
            Token::Identifier("foo".to_string()),
            Token::LParen,
            Token::Identifier("x".to_string()),
            Token::Colon,
            Token::Identifier("int".to_string()),
            Token::RParen,
            Token::Arrow,
            Token::Identifier("int".to_string()),
        ]
    );
}

#[test]
fn precedence_table() {
    assert_eq!(get_precedence(&Token::Assign), 10);
    assert_eq!(get_precedence(&Token::And), 12);
    assert_eq!(get_precedence(&Token::LessThan), 15);
    assert_eq!(get_precedence(&Token::GreaterThan), 15);
    assert_eq!(get_precedence(&Token::EqualTo), 15);
    assert_eq!(get_precedence(&Token::NotEqualTo), 15);
    assert_eq!(get_precedence(&Token::Plus), 20);
    assert_eq!(get_precedence(&Token::Minus), 20);
    assert_eq!(get_precedence(&Token::Slash), 40);
    assert_eq!(get_precedence(&Token::Asterix), 40);
    assert_eq!(get_precedence(&Token::Period), 100);
    assert_eq!(get_precedence(&Token::Comma), -1);
    assert_eq!(get_precedence(&Token::Identifier("x".to_string())), -1);
}

#[test]
fn error_descriptions() {
    assert_eq!(
        ParserError::BadInput.description(),
        "Illegal characters found in input stream"
    );
    assert_eq!(ParserError::UnknownOperator.description(), "Unknown operator");
    assert_eq!(ParserError::MissingRParen.description(), "Expected ')'");
    assert_eq!(
        ParserError::FnMissingName.description(),
        "Function declaration is missing name"
    );
    assert_eq!(
        ParserError::FnMissingParameters.description(),
        "Function declaration is missing parameters"
    );
    assert_eq!(ParserError::OutOfInput.description(), "Unexpected end of input");
    assert_eq!(ParserError::BadNumber.description(), "Invalid number");
}
