use izanami::ast::{Expr, Stmt};
use izanami::parser::{ParseError, Parser};
use izanami::scanner::Scanner;
use izanami::token::{LiteralType, Token, TokenType};

fn read_number(text: &str) -> u64 {
    text.parse::<f64>().unwrap().to_bits()
}

fn tokens(source: &str) -> Vec<Token> {
    Scanner::new(source.to_string()).scan_tokens(read_number).unwrap()
}

fn parse(source: &str) -> Vec<Result<Stmt, ParseError>> {
    let tokens = tokens(source);
    let mut parser = Parser::new(&tokens);
    parser.parse()
}

/// The expression in the manner of a list: an operator and its operands in parentheses.
fn show(expr: &Expr) -> String {
    match expr {
        Expr::Ternary { first, second, third } => {
            format!("(?: {} {} {})", show(first), show(second), show(third))
        }
        Expr::Binary { left, op, right } => {
            format!("({} {} {})", op.lexeme, show(left), show(right))
        }
        Expr::Logical { left, op, right } => {
            format!("[{} {} {}]", op.lexeme, show(left), show(right))
        }
        Expr::Call { callee, args, .. } => {
            let args: Vec<String> = args.iter().map(show).collect();
            format!("(call {} {}", show(callee), args.join(" ")).trim_end().to_string() + ")"
        }
        Expr::Grouping { expression } => format!("(group {})", show(expression)),
        Expr::Literal { value } => match value {
            LiteralType::String(s) => format!("{s:?}"),
            LiteralType::Number(bits) => format!("{}", f64::from_bits(*bits)),
            LiteralType::Bool(b) => format!("{b}"),
            LiteralType::Nil => "nil".to_string(),
            LiteralType::Callable(_) => "<fn>".to_string(),
        },
        Expr::Unary { op, right } => format!("({} {})", op.lexeme, show(right)),
        Expr::Variable { name } => name.lexeme.clone(),
        Expr::Assign { name, value } => format!("(= {} {})", name.lexeme, show(value)),
    }
}

fn show_stmt(stmt: &Stmt) -> String {
    match stmt {
        Stmt::Block { statements } => {
            let inner: Vec<String> = statements.iter().map(show_stmt).collect();
            format!("{{{}}}", inner.join(" "))
        }
        Stmt::Break => "break".to_string(),
        Stmt::Expression { expression } => format!("{};", show(expression)),
        Stmt::Function { name, params, body } => {
            let params: Vec<String> = params.iter().map(|p| p.lexeme.clone()).collect();
            let body: Vec<String> = body.iter().map(show_stmt).collect();
            format!("fun {}({}) {{{}}}", name.lexeme, params.join(","), body.join(" "))
        }
        Stmt::If { condition, then_branch, else_branch } => match else_branch {
            Some(other) => format!(
                "if {} {} else {}",
                show(condition),
                show_stmt(then_branch),
                show_stmt(other)
            ),
            None => format!("if {} {}", show(condition), show_stmt(then_branch)),
        },
        Stmt::Print { expression } => format!("print {};", show(expression)),
        Stmt::Return { value, .. } => match value {
            Some(v) => format!("return {};", show(v)),
            None => "return;".to_string(),
        },
        Stmt::Var { name, initializer } => match initializer {
            Some(v) => format!("var {} = {};", name.lexeme, show(v)),
            None => format!("var {};", name.lexeme),
        },
        Stmt::While { condition, body } => {
            format!("while {} {}", show(condition), show_stmt(body))
        }
    }
}

fn expression(source: &str) -> String {
    let mut results = parse(&format!("{source};"));
    assert_eq!(results.len(), 1);
    match results.remove(0) {
        Ok(Stmt::Expression { expression }) => show(&expression),
        Ok(other) => panic!("not an expression: {other:?}"),
        Err(error) => panic!("error: {}", error.msg),
    }
}

fn program(source: &str) -> Vec<String> {
    parse(source)
        .iter()
        .map(|r| match r {
            Ok(stmt) => show_stmt(stmt),
            Err(error) => format!("error at '{}': {}", error.token.lexeme, error.msg),
        })
        .collect()
}

fn error(source: &str) -> (String, TokenType, String) {
    let results = parse(source);
    let first = results.into_iter().find_map(|r| r.err()).expect("an error");
    (first.msg, first.token.t_type, first.token.lexeme)
}

#[test]
fn binary_operators_group_from_the_left() {
    assert_eq!(expression("1 - 2 - 3"), "(- (- 1 2) 3)");
    assert_eq!(expression("1 / 2 * 3"), "(* (/ 1 2) 3)");
    assert_eq!(expression("1 < 2 <= 3"), "(<= (< 1 2) 3)");
    assert_eq!(expression("1 == 2 != 3"), "(!= (== 1 2) 3)");
    assert_eq!(expression("1, 2, 3"), "(, (, 1 2) 3)");
}

#[test]
fn precedence_goes_from_factor_up_to_comma() {
    assert_eq!(expression("1 + 2 * 3"), "(+ 1 (* 2 3))");
    assert_eq!(expression("(1 + 2) * 3"), "(* (group (+ 1 2)) 3)");
    assert_eq!(expression("1 + 2 < 3 * 4 == true"), "(== (< (+ 1 2) (* 3 4)) true)");
    assert_eq!(expression("a or b and c == d"), "[or a [and b (== c d)]]");
    assert_eq!(expression("a = b or c"), "(= a [or b c])");
    assert_eq!(expression("a = 1, b = 2"), "(, (= a 1) (= b 2))");
    assert_eq!(expression("a ? b : c, d"), "(, (?: a b c) d)");
    assert_eq!(expression("-a * !b"), "(* (- a) (! b))");
    assert_eq!(expression("- - a"), "(- (- a))");
}

#[test]
fn assignment_and_ternary_group_from_the_right() {
    assert_eq!(expression("a = b = c"), "(= a (= b c))");
    assert_eq!(expression("a ? b : c ? d : e"), "(?: a b (?: c d e))");
    assert_eq!(expression("a ? b, c : d"), "(?: a (, b c) d)");
    assert_eq!(expression("a = b ? c : d"), "(= a (?: b c d))");
}

#[test]
fn literals() {
    assert_eq!(expression("12.5"), "12.5");
    assert_eq!(expression("\"hi\""), "\"hi\"");
    assert_eq!(expression("true"), "true");
    assert_eq!(expression("false"), "false");
    assert_eq!(expression("nil"), "nil");
}

#[test]
fn calls_chain_and_take_assignments_as_arguments() {
    assert_eq!(expression("f()"), "(call f)");
    assert_eq!(expression("f(1, 2)"), "(call f 1 2)");
    assert_eq!(expression("f(1)(2)"), "(call (call f 1) 2)");
    assert_eq!(expression("f(a = 1, b or c, d ? 1 : 2)"), "(call f (= a 1) [or b c] (?: d 1 2))");
    assert_eq!(expression("-f(1)"), "(- (call f 1))");
}

#[test]
fn call_keeps_its_closing_parenthesis() {
    let mut results = parse("f(1,\n2\n);");
    match results.remove(0) {
        Ok(Stmt::Expression { expression: Expr::Call { paren, .. } }) => {
            assert_eq!(paren.t_type, TokenType::RightParen);
            assert_eq!(paren.line, 3);
        }
        other => panic!("not a call: {other:?}"),
    }
}

#[test]
fn at_most_255_arguments_and_parameters() {
    let arguments = vec!["1"; 255].join(", ");
    assert_eq!(parse(&format!("f({arguments});")).iter().filter(|r| r.is_err()).count(), 0);
    let arguments = vec!["1"; 256].join(", ");
    let (message, kind, _) = error(&format!("f({arguments});"));
    assert_eq!(message, "Can't have more than 255 arguments");
    assert_eq!(kind, TokenType::Number);
    let parameters = vec!["a"; 255].join(", ");
    assert_eq!(parse(&format!("fun f({parameters}) {{}}")).iter().filter(|r| r.is_err()).count(), 0);
    let parameters = vec!["a"; 256].join(", ");
    let (message, kind, _) = error(&format!("fun f({parameters}) {{}}"));
    assert_eq!(message, "Can't have more than 255 parameters");
    assert_eq!(kind, TokenType::Identifier);
}

#[test]
fn invalid_assignment_target() {
    let (message, _, lexeme) = error("1 = 2;");
    assert_eq!(message, "Invalid assignment target.");
    assert_eq!(lexeme, "2");
    let (message, _, _) = error("a + b = c;");
    assert_eq!(message, "Invalid assignment target.");
    let (message, _, _) = error("(a) = 1;");
    assert_eq!(message, "Invalid assignment target.");
}

#[test]
fn operator_without_left_operand() {
    for source in ["== 1;", "!= 1;", "= 1;", "< 1;", "<= 1;", "> 1;", ">= 1;", "+ 1;", "* 1;", "/ 1;"] {
        let (message, _, lexeme) = error(source);
        assert_eq!(message, "Missing left-hand operand.", "in {source}");
        assert_eq!(lexeme, "1", "in {source}");
    }
    assert_eq!(program("+ 1 * 2; print 3;"), vec![
        "error at '2': Missing left-hand operand.",
        "print 3;"
    ]);
}

#[test]
fn expression_is_expected() {
    let (message, kind, _) = error("print ;");
    assert_eq!(message, "Expect expression.");
    assert_eq!(kind, TokenType::Semicolon);
    let (message, kind, _) = error("1 +");
    assert_eq!(message, "Expect expression.");
    assert_eq!(kind, TokenType::EOF);
    let (message, _, _) = error("(1 + 2;");
    assert_eq!(message, "Expect ')' after expression");
    let (message, _, _) = error("a ? b ;");
    assert_eq!(message, "Expected : after ternary operator ?");
    let (message, _, _) = error("f(1;");
    assert_eq!(message, "Expect ')' after arguments");
}

#[test]
fn statements() {
    assert_eq!(program("print 1; 2; var a; var b = 3; { 4; } return; return 5;"), vec![
        "print 1;",
        "2;",
        "var a;",
        "var b = 3;",
        "{4;}",
        "return;",
        "return 5;"
    ]);
    assert_eq!(program("if (a) b; if (a) b; else c; if (a) if (b) c; else d;"), vec![
        "if a b;",
        "if a b; else c;",
        "if a if b c; else d;"
    ]);
    assert_eq!(program("while (a) b; fun f(x, y) { return x; } fun g() {}"), vec![
        "while a b;",
        "fun f(x,y) {return x;}",
        "fun g() {}"
    ]);
}

#[test]
fn for_is_read_as_while() {
    assert_eq!(program("for (var i = 0; i < 3; i = i + 1) print i;"), vec![
        "{var i = 0; while (< i 3) {print i; (= i (+ i 1));}}"
    ]);
    assert_eq!(program("for (i = 0; i < 3;) print i;"), vec!["{(= i 0); while (< i 3) print i;}"]);
    assert_eq!(program("for (;;) print i;"), vec!["while true print i;"]);
    assert_eq!(program("for (;; i = 1) {}"), vec!["while true {{} (= i 1);}"]);
}

#[test]
fn statement_errors() {
    let (message, _, _) = error("1");
    assert_eq!(message, "Expect ';' after expression.");
    let (message, _, _) = error("print 1");
    assert_eq!(message, "Expect ';' after value.");
    let (message, _, _) = error("var 1;");
    assert_eq!(message, "Expect variable name");
    let (message, _, _) = error("var a = 1");
    assert_eq!(message, "Expect ';' after variable declaration.");
    let (message, _, _) = error("{ 1;");
    assert_eq!(message, "Expect '}' after block.");
    let (message, _, _) = error("if a) b;");
    assert_eq!(message, "Expect '(' after 'if'.");
    let (message, _, _) = error("if (a b;");
    assert_eq!(message, "Expect ')' after if condition.");
    let (message, _, _) = error("while a) b;");
    assert_eq!(message, "Expect '(' after 'while'.");
    let (message, _, _) = error("while (a b;");
    assert_eq!(message, "Expect ')' after while condition.");
    let (message, _, _) = error("for a;;) b;");
    assert_eq!(message, "Expect '(' after 'for'.");
    let (message, _, _) = error("for (;a) b;");
    assert_eq!(message, "Expect ';' after loop condition");
    let (message, _, _) = error("for (;;a b;");
    assert_eq!(message, "Expect ')' after for clauses.");
    let (message, _, _) = error("return 1");
    assert_eq!(message, "Expect ';' after return value.");
    let (message, _, _) = error("fun (a) {}");
    assert_eq!(message, "Expect function name.");
    let (message, _, _) = error("fun f a) {}");
    assert_eq!(message, "Expect '(' after function name.");
    let (message, _, _) = error("fun f(1) {}");
    assert_eq!(message, "Expect parameter name.");
    let (message, _, _) = error("fun f(a {}");
    assert_eq!(message, "Expect ')' after parameters");
    let (message, _, _) = error("fun f(a) 1;");
    assert_eq!(message, "Expect '{' before function body.");
}

#[test]
fn break_is_read_inside_loops_only() {
    let (message, kind, _) = error("break;");
    assert_eq!(message, "Must be inside a loop to use 'break'");
    assert_eq!(kind, TokenType::Break);
    assert_eq!(program("while (a) break;"), vec!["while a break"]);
    assert_eq!(program("while (a) { if (b) break; }"), vec!["while a {if b break}"]);
    assert_eq!(program("for (;;) break;"), vec!["while true break"]);
    let (message, _, _) = error("while (a) break");
    assert_eq!(message, "Expect ';' after 'break'");
    let results = program("while (a) b; break;");
    assert_eq!(results[0], "while a b;");
    assert_eq!(results[1], "error at 'break': Must be inside a loop to use 'break'");
    let results = program("while (a) { while (b) c; break; } break;");
    assert_eq!(results[0], "while a {while b c; break}");
    assert_eq!(results[1], "error at 'break': Must be inside a loop to use 'break'");
    let results = program("while (a) 1 break; break;");
    assert_eq!(results.len(), 2);
    assert_eq!(results[1], "error at 'break': Must be inside a loop to use 'break'");
}

#[test]
fn loop_depth_can_be_read_and_set() {
    let tokens = tokens("break;");
    let mut parser = Parser::new(&tokens);
    assert_eq!(*parser.loop_depth(), 0);
    *parser.loop_depth() = 1;
    let results = parser.parse();
    assert!(matches!(results[0], Ok(Stmt::Break)));
    assert_eq!(*parser.loop_depth(), 1);
}

#[test]
fn parser_goes_on_behind_an_error() {
    assert_eq!(program("var = 1; print 2; 3 +; print 4;"), vec![
        "error at '=': Expect variable name",
        "print 2;",
        "error at ';': Expect expression.",
        "print 4;"
    ]);
    assert_eq!(program("1 2 3 var a; print"), vec![
        "error at '2': Expect ';' after expression.",
        "var a;",
        "error at '': Expect expression."
    ]);
    assert_eq!(program("( ; ) print 1;"), vec!["error at ';': Expect expression.", "error at ')': Expect expression.", "print 1;"]);
}

#[test]
fn empty_program_has_no_statement() {
    assert!(parse("").is_empty());
    assert!(parse("  // nothing\n").is_empty());
}

#[test]
fn parser_accepts_what_the_lexer_gives() {
    assert!(Parser::accepts(&tokens("var a = 1 + \"s\";")));
    assert!(Parser::accepts(&tokens("")));
    assert!(!Parser::accepts(&Vec::new()));
    assert!(!Parser::accepts(&vec![Token::new(TokenType::Semicolon, ";", None, 1)]));
    let no_literal = vec![
        Token::new(TokenType::Number, "1", None, 1),
        Token::new(TokenType::EOF, "", None, 1),
    ];
    assert!(!Parser::accepts(&no_literal));
    let literal = vec![
        Token::new(TokenType::Number, "1", Some(LiteralType::Number(1.0f64.to_bits())), 1),
        Token::new(TokenType::EOF, "", None, 1),
    ];
    assert!(Parser::accepts(&literal));
}
