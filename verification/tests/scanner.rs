use izanami::interpreter::is_equal;
use izanami::scanner::{get_identified_keyword, is_alpha_numeric, Scanner};
use izanami::token::{LiteralType, Token, TokenType};
use izanami::RloxError;

fn read_number(text: &str) -> u64 {
    text.parse::<f64>().unwrap().to_bits()
}

fn do_cols_match<T: PartialEq>(a: &[T], b: &[T]) -> bool {
    let matching = a.iter().zip(b.iter()).filter(|&(a, b)| a == b).count();
    matching == a.len() && matching == b.len()
}

fn kinds(source: &str) -> Vec<TokenType> {
    let mut scanner = Scanner::new(source.to_string());
    scanner.scan_tokens(read_number).unwrap().iter().map(|x| x.t_type).collect()
}

fn lexemes(source: &str) -> Vec<String> {
    let mut scanner = Scanner::new(source.to_string());
    scanner.scan_tokens(read_number).unwrap().iter().map(|x| x.lexeme.clone()).collect()
}

#[test]
fn should_be_equal() {
    let value = r#"
            // this is a comment
            (( )){} // grouping stuff
            !*+-/=<> <= == // operators
        "#;

    let mut scanner = Scanner::new(value.to_string());

    let expected_tokens = vec![
        TokenType::LeftParen, TokenType::LeftParen, TokenType::RightParen, TokenType::RightParen, TokenType::LeftBrace, TokenType::RightBrace, TokenType::Bang, TokenType::Star, TokenType::Plus,
        TokenType::Minus, TokenType::Slash, TokenType::Equal, TokenType::Less, TokenType::Greater, TokenType::LessEqual, TokenType::EqualEqual, TokenType::EOF,
    ];

    let actual_tokens: Vec<TokenType> =
        scanner.scan_tokens(read_number).unwrap().iter().map(|x| x.t_type).collect();

    assert!(do_cols_match(&actual_tokens, &expected_tokens));
}

#[test]
fn correct_string_scan() {
    let value = r#"
            // string!
            "salam!""#;

    let mut scanner = Scanner::new(value.to_string());

    let scanned = scanner.scan_tokens(read_number).expect("Should not be an error!");
    let tokens: Vec<&Token> =
        scanned.iter().filter(|x| matches!(x.t_type, TokenType::String)).collect();

    let actual = tokens[0];

    let expected = LiteralType::String("salam!".to_string());

    assert!(is_equal(&expected, &actual.literal.as_ref().unwrap().clone(),))
}

#[test]
fn error_string_scan() {
    let value = r#"
            // Unterminated string bro wtf
            "salam

            (){} {}"#
        .to_string();

    let mut scanner = Scanner::new(value);

    let expected_error = RloxError { msg: "Unterminated string".to_string(), line: 3 };

    let tokens = scanner.scan_tokens(read_number).expect_err("Should be an error");

    let actual_error = tokens
        .errors
        .iter()
        .find(|e| e.msg == "Unterminated string")
        .expect("Error not found. There should be an error");

    assert_eq!(expected_error, actual_error.clone());
}

#[test]
fn correct_whole_number_scan() {
    let value = r#"
            // number test
            123"#
        .to_string();

    let mut scanner = Scanner::new(value);

    let expected_value = LiteralType::Number(123.0f64.to_bits());

    let tokens = scanner.scan_tokens(read_number).expect("There shouldn't be an error");

    let token = tokens
        .iter()
        .find(|t| matches!(t.t_type, TokenType::Number))
        .expect("There should be a number here. Couldn't find it");

    let actual_value = &token.literal;

    assert!(is_equal(&expected_value, &actual_value.as_ref().unwrap().clone()))
}

#[test]
fn correct_fractional_number_scan() {
    let value = r#"
            // number test
            123.aaa"#
        .to_string();

    let mut scanner = Scanner::new(value);

    let expected_value = LiteralType::Number(123.0f64.to_bits());

    let tokens = scanner.scan_tokens(read_number).expect("There shouldn't be an error");

    let token = tokens
        .iter()
        .find(|t| matches!(t.t_type, TokenType::Number))
        .expect("There should be a number here. Couldn't find it");

    let actual_value = &token.literal;

    assert!(is_equal(&expected_value, &actual_value.as_ref().unwrap().clone()))
}

#[test]
fn operators_on_one_line() {
    assert_eq!(
        kinds("(( )){} !*+-/=<> <= =="),
        vec![
            TokenType::LeftParen, TokenType::LeftParen, TokenType::RightParen, TokenType::RightParen, TokenType::LeftBrace, TokenType::RightBrace, TokenType::Bang, TokenType::Star,
            TokenType::Plus, TokenType::Minus, TokenType::Slash, TokenType::Equal, TokenType::Less, TokenType::Greater, TokenType::LessEqual, TokenType::EqualEqual, TokenType::EOF,
        ]
    );
}

#[test]
fn two_character_operators() {
    assert_eq!(kinds("!= == <= >= ! = < >"), vec![
        TokenType::BangEqual, TokenType::EqualEqual, TokenType::LessEqual, TokenType::GreaterEqual, TokenType::Bang, TokenType::Equal, TokenType::Less, TokenType::Greater, TokenType::EOF
    ]);
    assert_eq!(kinds(", . ; ? :"), vec![TokenType::Comma, TokenType::Dot, TokenType::Semicolon, TokenType::Question, TokenType::Colon, TokenType::EOF]);
}

#[test]
fn keywords_and_identifiers() {
    assert_eq!(
        kinds("and class else false for fun if nil or print return super this true var while break"),
        vec![
            TokenType::And, TokenType::Class, TokenType::Else, TokenType::False, TokenType::For, TokenType::Fun, TokenType::If, TokenType::Nil, TokenType::OR, TokenType::Print, TokenType::Return, TokenType::Super, TokenType::This, TokenType::True,
            TokenType::Var, TokenType::While, TokenType::Break, TokenType::EOF,
        ]
    );
    assert_eq!(kinds("andy _x x1 Var"), vec![TokenType::Identifier, TokenType::Identifier, TokenType::Identifier, TokenType::Identifier, TokenType::EOF]);
    assert_eq!(get_identified_keyword("while"), Some(TokenType::While));
    assert_eq!(get_identified_keyword("whil"), None);
    assert_eq!(get_identified_keyword(""), None);
}

#[test]
fn alpha_numeric_characters() {
    assert!(is_alpha_numeric('a'));
    assert!(is_alpha_numeric('Z'));
    assert!(is_alpha_numeric('_'));
    assert!(is_alpha_numeric('7'));
    assert!(!is_alpha_numeric(' '));
    assert!(!is_alpha_numeric('-'));
    assert!(!is_alpha_numeric('é'));
}

#[test]
fn lexemes_are_the_text_of_the_tokens() {
    assert_eq!(
        lexemes("var answer = 4.25; // done\nprint \"a b\";"),
        vec!["var", "answer", "=", "4.25", ";", "print", "\"a b\"", ";", ""]
    );
}

#[test]
fn lexemes_and_what_is_skipped_make_up_the_text() {
    let source = "var a = 1; /* two\nlines */ print a; // end";
    let mut scanner = Scanner::new(source.to_string());
    let tokens = scanner.scan_tokens(read_number).unwrap();
    let mut rest = source;
    for token in tokens.iter() {
        let at = rest.find(token.lexeme.as_str()).unwrap();
        let skipped = &rest[..at];
        assert!(
            skipped.trim().is_empty() || skipped.trim().starts_with("/*")
                || skipped.trim().starts_with("//")
        );
        rest = &rest[at + token.lexeme.len()..];
    }
    assert_eq!(rest, " // end");
}

#[test]
fn numbers_with_and_without_fraction() {
    let mut scanner = Scanner::new("12.5 7. .5 3.x".to_string());
    let tokens = scanner.scan_tokens(read_number).unwrap();
    let kinds: Vec<TokenType> = tokens.iter().map(|t| t.t_type).collect();
    assert_eq!(kinds, vec![TokenType::Number, TokenType::Number, TokenType::Dot, TokenType::Dot, TokenType::Number, TokenType::Number, TokenType::Dot, TokenType::Identifier, TokenType::EOF]);
    assert_eq!(tokens[0].lexeme, "12.5");
    assert!(matches!(tokens[0].literal, Some(LiteralType::Number(b)) if f64::from_bits(b) == 12.5));
    assert_eq!(tokens[1].lexeme, "7");
    assert!(matches!(tokens[4].literal, Some(LiteralType::Number(b)) if f64::from_bits(b) == 5.0));
}

#[test]
fn lines_are_counted() {
    let mut scanner = Scanner::new("a\nb /* x\ny */ c\n\"s\nt\" d".to_string());
    let tokens = scanner.scan_tokens(read_number).unwrap();
    let lines: Vec<usize> = tokens.iter().map(|t| t.line).collect();
    assert_eq!(lines, vec![1, 2, 3, 5, 5, 5]);
}

#[test]
fn block_comment_ends_at_its_end_only() {
    assert_eq!(kinds("1 /* a * b / c */ 2"), vec![TokenType::Number, TokenType::Number, TokenType::EOF]);
    assert_eq!(kinds("1 /* never closed"), vec![TokenType::Number, TokenType::EOF]);
    assert_eq!(kinds("/**/x"), vec![TokenType::Identifier, TokenType::EOF]);
}

#[test]
fn every_lexical_error_is_reported() {
    let mut scanner = Scanner::new("@ var\n# x \"open\nstill".to_string());
    let error = scanner.scan_tokens(read_number).expect_err("three errors");
    assert_eq!(
        error.errors,
        vec![
            RloxError { msg: "Unexpected character".to_string(), line: 1 },
            RloxError { msg: "Unexpected character".to_string(), line: 2 },
            RloxError { msg: "Unterminated string".to_string(), line: 2 },
        ]
    );
}

#[test]
fn unterminated_string_gives_one_error_at_its_first_line() {
    let mut scanner = Scanner::new("\n\n\"abc\n\n\n".to_string());
    let error = scanner.scan_tokens(read_number).expect_err("one error");
    assert_eq!(error.errors, vec![RloxError { msg: "Unterminated string".to_string(), line: 3 }]);
}

#[test]
fn empty_text_is_one_token() {
    let mut scanner = Scanner::new(String::new());
    let tokens = scanner.scan_tokens(read_number).unwrap();
    assert_eq!(tokens.len(), 1);
    assert_eq!(tokens[0].t_type, TokenType::EOF);
    assert_eq!(tokens[0].line, 1);
    assert_eq!(tokens[0].lexeme, "");
}

#[test]
fn token_new_keeps_its_parts() {
    let token = Token::new(TokenType::Minus, "-", None, 4);
    assert_eq!(token.t_type, TokenType::Minus);
    assert_eq!(token.lexeme, "-");
    assert!(token.literal.is_none());
    assert_eq!(token.line, 4);
    assert!(matches!(LiteralType::string_literal("x"), LiteralType::String(s) if s == "x"));
    assert!(matches!(LiteralType::number_literal(3), LiteralType::Number(3)));
}
