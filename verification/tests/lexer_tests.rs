use script_go::compiler::lexer::{Lexer, Position, Token};

fn lex(input: &str) -> Result<Vec<script_go::compiler::lexer::SpannedToken>, String> {
    let mut lexer = Lexer::new(input);
    lexer.tokenize()
}

fn kinds(input: &str) -> Vec<Token> {
    lex(input).expect("Lexing failed").into_iter().map(|t| t.token).collect()
}

#[test]
fn test_valid_tokens_and_positions() {
    let input = "let x = 123;\nfn foo() -> Int { return x + 4.5; }";
    let tokens = lex(input).expect("Lexing failed");

    assert_eq!(tokens[0].token, Token::Let);
    assert_eq!(tokens[0].pos, Position::new(1, 1));
    assert_eq!(tokens[1].token, Token::Identifier("x".into()));
    assert_eq!(tokens[1].pos, Position::new(1, 5));
    assert_eq!(tokens[2].token, Token::Equal);
    assert_eq!(tokens[3].token, Token::IntLiteral(123));
    assert_eq!(tokens[4].token, Token::Semicolon);
    assert_eq!(tokens[5].token, Token::Fn);
    assert_eq!(tokens[5].pos, Position::new(2, 1));
    assert_eq!(tokens[6].token, Token::Identifier("foo".into()));
    assert_eq!(tokens[7].token, Token::LParen);
    assert_eq!(tokens[8].token, Token::RParen);
    assert_eq!(tokens[9].token, Token::Arrow);
    assert_eq!(tokens[10].token, Token::Identifier("Int".into()));
    assert_eq!(tokens[11].token, Token::LBrace);
    assert_eq!(tokens[12].token, Token::Return);
    assert_eq!(tokens[13].token, Token::Identifier("x".into()));
    assert_eq!(tokens[14].token, Token::Plus);
    // A float literal keeps its digits; 4.5 is written "4.5".
    assert_eq!(tokens[15].token, Token::FloatLiteral("4.5".into()));
    assert_eq!("4.5".parse::<f64>().unwrap(), 4.5);
    assert_eq!(tokens[16].token, Token::Semicolon);
    assert_eq!(tokens[17].token, Token::RBrace);
    assert_eq!(tokens[18].token, Token::EOF);
}

#[test]
fn test_string_literals_and_escapes() {
    let input = r#""hello world" "escaped \" quotes \\ and \n newline""#;
    let tokens = lex(input).expect("Lexing failed");
    assert_eq!(tokens[0].token, Token::StringLiteral("hello world".into()));
    assert_eq!(
        tokens[1].token,
        Token::StringLiteral("escaped \" quotes \\ and \n newline".into())
    );
}

#[test]
fn test_compound_operators() {
    let expected = vec![
        Token::Le,
        Token::Ge,
        Token::NotEqual,
        Token::AndAnd,
        Token::OrOr,
        Token::Arrow,
        Token::PlusEqual,
        Token::MinusEqual,
        Token::EOF,
    ];
    assert_eq!(kinds("<= >= != && || -> += -="), expected);
}

#[test]
fn test_comments() {
    let input = "// line comment\nlet x = 1; /* block comment */ let y = 2;";
    assert_eq!(
        kinds(input),
        vec![
            Token::Let,
            Token::Identifier("x".into()),
            Token::Equal,
            Token::IntLiteral(1),
            Token::Semicolon,
            Token::Let,
            Token::Identifier("y".into()),
            Token::Equal,
            Token::IntLiteral(2),
            Token::Semicolon,
            Token::EOF,
        ]
    );
}

#[test]
fn test_reject_unrecognized_char() {
    let res = lex("let x = @10;");
    assert!(res.is_err());
    let err = res.unwrap_err();
    assert!(err.contains("Unrecognized character '@'"));
    assert!(err.contains("line 1, column 9"));
}

#[test]
fn test_reject_unterminated_string() {
    let res = lex("let s = \"unterminated string;");
    assert!(res.is_err());
    assert!(res.unwrap_err().contains("Unterminated string literal"));
}

#[test]
fn test_reject_malformed_float() {
    let res = lex("let f = 1.2.3;");
    assert!(res.is_err());
    assert!(res.unwrap_err().contains("Malformed float literal '1.2.3'"));
}

#[test]
fn test_number_method_call_disambiguation() {
    let expected = vec![
        Token::IntLiteral(123),
        Token::Dot,
        Token::Identifier("foo".into()),
        Token::LParen,
        Token::RParen,
        Token::EOF,
    ];
    assert_eq!(kinds("123.foo()"), expected);
}

#[test]
fn test_all_compound_and_logical_operators_tokenization() {
    let expected = vec![
        Token::Le,
        Token::Ge,
        Token::NotEqual,
        Token::AndAnd,
        Token::OrOr,
        Token::Percent,
        Token::Plus,
        Token::Minus,
        Token::Star,
        Token::Slash,
        Token::EqualEqual,
        Token::Lt,
        Token::Gt,
        Token::PlusEqual,
        Token::MinusEqual,
        Token::EOF,
    ];
    assert_eq!(kinds("<= >= != && || % + - * / == < > += -="), expected);
}

#[test]
fn test_syntax_error_unrecognized_chars() {
    let invalid_inputs = [
        ("let x = @10;", "@"),
        ("let y = #foo;", "#"),
        ("let z = $bar;", "$"),
        ("let w = ^2;", "^"),
        ("let q = ?;", "?"),
    ];
    for (input, ch) in invalid_inputs {
        let res = lex(input);
        assert!(res.is_err(), "Expected error for unrecognized char '{}'", ch);
        let err = res.unwrap_err();
        assert!(err.contains("Unrecognized character"), "Error message should mention Unrecognized character: {}", err);
    }
}

#[test]
fn test_syntax_error_unterminated_strings() {
    let invalid_strings = [
        "let s = \"unterminated string;",
        "let s = \"missing closing quote\n;",
        "let s = \"escaped quote at end \\\"",
    ];
    for input in invalid_strings {
        let res = lex(input);
        assert!(res.is_err(), "Expected error for unterminated string in: {}", input);
        let err = res.unwrap_err();
        assert!(err.contains("Unterminated string literal"), "Error message should mention Unterminated string literal: {}", err);
    }
}

#[test]
fn test_syntax_error_bad_floats() {
    let bad_floats = ["let f = 1.2.3;", "let f = 10.20.30.40;", "let f = 0.1.2;"];
    for input in bad_floats {
        let res = lex(input);
        assert!(res.is_err(), "Expected error for bad float in: {}", input);
        let err = res.unwrap_err();
        assert!(err.contains("Malformed float literal"), "Error message should mention Malformed float literal: {}", err);
    }
}

#[test]
fn test_method_call_tokenization_number_disambiguation() {
    let expected = vec![
        Token::IntLiteral(123),
        Token::Dot,
        Token::Identifier("foo".into()),
        Token::LParen,
        Token::RParen,
        Token::EOF,
    ];
    assert_eq!(kinds("123.foo()"), expected);
}

#[test]
fn lexer_reports_full_messages() {
    assert_eq!(
        lex("let x = @10;").unwrap_err(),
        "Syntax error at line 1, column 9: Unrecognized character '@'"
    );
    assert_eq!(
        lex("let s = \"abc").unwrap_err(),
        "Syntax error at line 1, column 9: Unterminated string literal"
    );
    assert_eq!(
        lex("\"a\\q\"").unwrap_err(),
        "Syntax error at line 1, column 4: Invalid escape sequence '\\q'"
    );
    assert_eq!(
        lex("x = 99999999999999999999;").unwrap_err(),
        "Syntax error at line 1, column 5: Invalid integer literal '99999999999999999999'"
    );
    assert_eq!(
        lex("a /* never closed").unwrap_err(),
        "Syntax error at line 1, column 3: Unterminated block comment"
    );
    assert_eq!(lex("a & b").unwrap_err(), "Syntax error at line 1, column 3: Unrecognized character '&'");
}

#[test]
fn lexer_keywords_positions_and_eof() {
    let tokens = lex("  if\n\telse while return").unwrap();
    assert_eq!(tokens[0].token, Token::If);
    assert_eq!(tokens[0].pos, Position::new(1, 3));
    assert_eq!(tokens[1].token, Token::Else);
    assert_eq!(tokens[1].pos, Position::new(2, 2));
    assert_eq!(tokens[2].token, Token::While);
    assert_eq!(tokens[3].token, Token::Return);
    assert_eq!(tokens[4].token, Token::EOF);
    assert_eq!(tokens[4].pos, Position::new(2, 19));
    let empty = lex("").unwrap();
    assert_eq!(empty.len(), 1);
    assert_eq!(empty[0].token, Token::EOF);
    assert_eq!(empty[0].pos, Position::new(1, 1));
    assert_eq!(
        kinds("_a9 := !"),
        vec![Token::Identifier("_a9".into()), Token::Colon, Token::Equal, Token::Bang, Token::EOF]
    );
    assert_eq!(kinds("9223372036854775807"), vec![Token::IntLiteral(i64::MAX), Token::EOF]);
}
