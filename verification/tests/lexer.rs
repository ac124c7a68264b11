use rlang::lexer::{is_alpha, is_alphanum, is_digit, LexStep, Lexer, LiteralValue, Token, TokenType};
use rlang::number::Number;

fn lexer_number(x: f64) -> Number {
    Number::new(x.to_bits(), x.to_string())
}

/// Scans `source` to its end, supplying the value of each number literal.
fn scan(source: &str) -> Result<Vec<Token>, String> {
    let mut lexer = Lexer::new(source);
    loop {
        match lexer.scan_tokens() {
            LexStep::NeedNumber(text) => {
                lexer.supply_number(lexer_number(text.parse::<f64>().unwrap()))
            }
            LexStep::Done(result) => return result,
        }
    }
}

fn kinds(tokens: &[Token]) -> Vec<TokenType> {
    tokens.iter().map(|t| t.token_t).collect()
}

#[test]
fn handle_one_char_tokens() {
    let source = "(( )) }{";
    let tokens = scan(source).unwrap();
    assert_eq!(tokens.len(), 6 + 1); // Plus one because of eof
    assert_eq!(tokens[0].token_t, TokenType::LeftParen);
    assert_eq!(tokens[1].token_t, TokenType::LeftParen);

    assert_eq!(tokens[2].token_t, TokenType::RightParen);
    assert_eq!(tokens[3].token_t, TokenType::RightParen);

    assert_eq!(tokens[4].token_t, TokenType::RightBrace);
    assert_eq!(tokens[5].token_t, TokenType::LeftBrace);

    assert_eq!(tokens[6].token_t, TokenType::Eof);
}

#[test]
fn handle_two_char_tokens() {
    let source = "! != == >=";
    let tokens = scan(source).unwrap();
    assert_eq!(tokens.len(), 4 + 1); // Plus one because of eof
    assert_eq!(tokens[0].token_t, TokenType::Bang);
    assert_eq!(tokens[1].token_t, TokenType::BangEqual);

    assert_eq!(tokens[2].token_t, TokenType::EqualEqual);
    assert_eq!(tokens[3].token_t, TokenType::GreaterEqual);

    assert_eq!(tokens[4].token_t, TokenType::Eof);
}

#[test]
fn handle_string_lit() {
    let source = "\"ABC\"";
    let tokens = scan(source).unwrap();
    assert_eq!(tokens.len(), 1 + 1); // Plus one because of eof
    assert_eq!(tokens[0].token_t, TokenType::String);
    assert_eq!(
        tokens[0].literal.as_ref().unwrap(),
        &LiteralValue::StringValue("ABC".into())
    );
}

#[test]
fn handle_string_lit_unterminated() {
    let source = "\"ABC";
    let res = scan(source);
    assert!(res.is_err()); // Will fail because its unterminated
}

#[test]
fn handle_string_lit_multiline() {
    let source = "\"ABC\nhi\"";
    let res = scan(source);
    assert!(!res.is_err()); // Wont fail because it supports multiple lines !
    let tokens = res.unwrap();
    assert_eq!(tokens.len(), 1 + 1); // Plus one because of eof
    assert_eq!(tokens[0].token_t, TokenType::String);
    assert_eq!(
        tokens[0].literal.as_ref().unwrap(),
        &LiteralValue::StringValue("ABC\nhi".into())
    );
}

#[test]
fn num_literals() {
    let source = "123.123\n321.0\n5";
    let tokens = scan(source).unwrap();
    assert_eq!(tokens.len(), 4);

    for i in 0..3 {
        assert_eq!(tokens[i].token_t, TokenType::Number);
    }

    assert_eq!(
        tokens[0].literal.as_ref().unwrap(),
        &LiteralValue::FloatValue(lexer_number(123.123))
    );
    assert_eq!(
        tokens[1].literal.as_ref().unwrap(),
        &LiteralValue::FloatValue(lexer_number(321.0))
    );
    assert_eq!(
        tokens[2].literal.as_ref().unwrap(),
        &LiteralValue::FloatValue(lexer_number(5.0))
    );
}

#[test]
fn get_ident() {
    let source = "this_is_var = 12;";
    let tokens = scan(source).unwrap();

    assert_eq!(tokens.len(), 5);

    assert_eq!(tokens[0].token_t, TokenType::Identifier);
    assert_eq!(tokens[1].token_t, TokenType::Equal);
    assert_eq!(tokens[2].token_t, TokenType::Number);
    assert_eq!(tokens[3].token_t, TokenType::Semicolon);
    assert_eq!(tokens[4].token_t, TokenType::Eof);
}

#[test]
fn get_keywords() {
    let source = "var this_a_var = 12;\nwhile true { print 3 };";
    let tokens = scan(source).unwrap();

    assert_eq!(tokens.len(), 13);

    assert_eq!(tokens[0].token_t, TokenType::Var);
    assert_eq!(tokens[1].token_t, TokenType::Identifier);
    assert_eq!(tokens[2].token_t, TokenType::Equal);
    assert_eq!(tokens[3].token_t, TokenType::Number);
    assert_eq!(tokens[4].token_t, TokenType::Semicolon);
    assert_eq!(tokens[5].token_t, TokenType::While);
    assert_eq!(tokens[6].token_t, TokenType::True);
    assert_eq!(tokens[7].token_t, TokenType::LeftBrace);
    assert_eq!(tokens[8].token_t, TokenType::Print);
    assert_eq!(tokens[9].token_t, TokenType::Number);
    assert_eq!(tokens[10].token_t, TokenType::RightBrace);
    assert_eq!(tokens[11].token_t, TokenType::Semicolon);
    assert_eq!(tokens[12].token_t, TokenType::Eof);
}

#[test]
fn empty_source_is_one_eof() {
    let tokens = scan("").unwrap();
    assert_eq!(tokens.len(), 1);
    assert_eq!(tokens[0], Token::new(TokenType::Eof, String::new(), None, 1));
}

#[test]
fn every_single_character_token() {
    let tokens = scan("(){},.-+;*/").unwrap();
    assert_eq!(
        kinds(&tokens),
        vec![
            TokenType::LeftParen,
            TokenType::RightParen,
            TokenType::LeftBrace,
            TokenType::RightBrace,
            TokenType::Comma,
            TokenType::Dot,
            TokenType::Minus,
            TokenType::Plus,
            TokenType::Semicolon,
            TokenType::Star,
            TokenType::Slash,
            TokenType::Eof,
        ]
    );
    assert_eq!(tokens[0].lexme, "(");
    assert_eq!(tokens[10].lexme, "/");
}

#[test]
fn operators_fall_back_to_one_character() {
    let tokens = scan("! = < > != == <= >= =>").unwrap();
    assert_eq!(
        kinds(&tokens),
        vec![
            TokenType::Bang,
            TokenType::Equal,
            TokenType::Less,
            TokenType::Greater,
            TokenType::BangEqual,
            TokenType::EqualEqual,
            TokenType::LessEqual,
            TokenType::GreaterEqual,
            TokenType::Equal,
            TokenType::Greater,
            TokenType::Eof,
        ]
    );
    assert_eq!(tokens[4].lexme, "!=");
    assert_eq!(tokens[7].lexme, ">=");
}

#[test]
fn comment_runs_to_the_end_of_its_line() {
    let tokens = scan("1 // two three\n4 // five").unwrap();
    assert_eq!(
        kinds(&tokens),
        vec![TokenType::Number, TokenType::Number, TokenType::Eof]
    );
    assert_eq!(tokens[0].line_number, 1);
    assert_eq!(tokens[1].line_number, 2);
    assert_eq!(tokens[1].lexme, "4");
    assert_eq!(tokens[2].line_number, 2);
}

#[test]
fn lines_are_counted_from_one() {
    let tokens = scan("a\n\nb \r\t\nc").unwrap();
    assert_eq!(tokens[0].line_number, 1);
    assert_eq!(tokens[1].line_number, 3);
    assert_eq!(tokens[2].line_number, 4);
    assert_eq!(tokens[3].token_t, TokenType::Eof);
    assert_eq!(tokens[3].line_number, 4);
}

#[test]
fn string_token_keeps_quotes_in_lexeme_and_starts_on_its_first_line() {
    let tokens = scan("\n\"a\nb\" x").unwrap();
    assert_eq!(tokens[0].token_t, TokenType::String);
    assert_eq!(tokens[0].lexme, "\"a\nb\"");
    assert_eq!(tokens[0].line_number, 2);
    assert_eq!(tokens[1].token_t, TokenType::Identifier);
    assert_eq!(tokens[1].line_number, 3);
}

#[test]
fn empty_string_literal() {
    let tokens = scan("\"\"").unwrap();
    assert_eq!(
        tokens[0].literal,
        Some(LiteralValue::StringValue(String::new()))
    );
    assert_eq!(tokens[0].lexme, "\"\"");
}

#[test]
fn number_shapes() {
    let tokens = scan("12.5.x 7. 3").unwrap();
    assert_eq!(
        kinds(&tokens),
        vec![
            TokenType::Number,
            TokenType::Dot,
            TokenType::Identifier,
            TokenType::Number,
            TokenType::Dot,
            TokenType::Number,
            TokenType::Eof,
        ]
    );
    assert_eq!(tokens[0].lexme, "12.5");
    assert_eq!(tokens[3].lexme, "7");
    assert_eq!(
        tokens[0].literal,
        Some(LiteralValue::FloatValue(lexer_number(12.5)))
    );
}

#[test]
fn the_lexer_names_the_text_of_a_number_and_waits() {
    let mut lexer = Lexer::new("x 42.5 y");
    match lexer.scan_tokens() {
        LexStep::NeedNumber(text) => assert_eq!(text, "42.5"),
        other => panic!("{:?}", other),
    }
    // Without the number the lexer asks again.
    match lexer.scan_tokens() {
        LexStep::NeedNumber(text) => assert_eq!(text, "42.5"),
        other => panic!("{:?}", other),
    }
    lexer.supply_number(lexer_number(42.5));
    match lexer.scan_tokens() {
        LexStep::Done(Ok(tokens)) => {
            assert_eq!(
                kinds(&tokens),
                vec![
                    TokenType::Identifier,
                    TokenType::Number,
                    TokenType::Identifier,
                    TokenType::Eof
                ]
            );
            assert_eq!(tokens[1].lexme, "42.5");
        }
        other => panic!("{:?}", other),
    }
}

#[test]
fn identifiers_carry_their_spelling() {
    let tokens = scan("_a1 Zed").unwrap();
    assert_eq!(tokens[0].token_t, TokenType::Identifier);
    assert_eq!(tokens[0].lexme, "_a1");
    assert_eq!(
        tokens[0].literal,
        Some(LiteralValue::IdentifierValue("_a1".to_string()))
    );
    assert_eq!(tokens[1].lexme, "Zed");
}

#[test]
fn every_keyword() {
    let tokens =
        scan("and class else false true fn for if nil or print return super this var while")
            .unwrap();
    assert_eq!(
        kinds(&tokens),
        vec![
            TokenType::And,
            TokenType::Class,
            TokenType::Else,
            TokenType::False,
            TokenType::True,
            TokenType::Fn,
            TokenType::For,
            TokenType::If,
            TokenType::Nil,
            TokenType::Or,
            TokenType::Print,
            TokenType::Return,
            TokenType::Super,
            TokenType::This,
            TokenType::Var,
            TokenType::While,
            TokenType::Eof,
        ]
    );
    assert_eq!(tokens[0].literal, None);
    // A keyword inside a longer word is an identifier.
    assert_eq!(scan("android").unwrap()[0].token_t, TokenType::Identifier);
}

#[test]
fn unrecognized_character_message() {
    assert_eq!(
        scan("\n\n  @").unwrap_err(),
        "Unrecognized char at line 3: '@'"
    );
}

#[test]
fn unterminated_string_message() {
    assert_eq!(scan("\"ABC").unwrap_err(), "Unterminated string");
}

#[test]
fn lexical_errors_are_collected_and_joined() {
    assert_eq!(
        scan("# 1 $\n\"open").unwrap_err(),
        "Unrecognized char at line 1: '#'\nUnrecognized char at line 1: '$'\nUnterminated string"
    );
}

#[test]
fn a_character_outside_ascii_is_one_error() {
    assert_eq!(
        scan("é").unwrap_err(),
        "Unrecognized char at line 1: 'é'"
    );
    // Inside a string it is content.
    assert_eq!(
        scan("\"é\"").unwrap()[0].literal,
        Some(LiteralValue::StringValue("é".to_string()))
    );
}

#[test]
fn character_classes() {
    assert!(is_digit('0') && is_digit('9') && !is_digit('a') && !is_digit('/'));
    assert!(is_alpha('a') && is_alpha('Z') && is_alpha('_') && !is_alpha('1') && !is_alpha('-'));
    assert!(is_alphanum('a') && is_alphanum('7') && is_alphanum('_') && !is_alphanum(' '));
    // A character beyond one byte is none of them.
    assert!(!is_digit('\u{130}') && !is_alpha('\u{161}') && !is_alphanum('\u{130}'));
}

#[test]
fn token_kinds_have_names() {
    assert_eq!(TokenType::LeftParen.name(), "LeftParen");
    assert_eq!(TokenType::GreaterEqual.name(), "GreaterEqual");
    assert_eq!(TokenType::Eof.name(), "Eof");
}
