use izanami::ast::Expr;
use izanami::environment::Environment;
use izanami::interpreter::{
    interpret, Action, Event, Interpreter, InterpreterEnvironment, InterpreterSignal,
};
use izanami::parser::Parser;
use izanami::scanner::Scanner;
use izanami::token::LiteralType;
use izanami::value::{ArithmeticOp, Printable};
use izanami::{run, RunError};

fn read_number(text: &str) -> u64 {
    text.parse::<f64>().unwrap().to_bits()
}

/// Drives the machine to its end as a host would, with the lines it prints.
fn drive(machine: &mut Interpreter, lines: &mut Vec<String>) -> Action {
    let mut event = Event::Resume;
    let mut steps = 0;
    loop {
        steps += 1;
        assert!(steps < 1_000_000, "the program does not end");
        let action = machine.step(event);
        event = Event::Resume;
        match action {
            Action::Continue => {}
            Action::Arithmetic { op, left, right } => {
                let (a, b) = (f64::from_bits(left), f64::from_bits(right));
                let result = match op {
                    ArithmeticOp::Add => a + b,
                    ArithmeticOp::Subtract => a - b,
                    ArithmeticOp::Multiply => a * b,
                    ArithmeticOp::Divide => a / b,
                };
                event = Event::Number(result.to_bits());
            }
            Action::Format { number } => {
                event = Event::Text(format!("{}", f64::from_bits(number)));
            }
            Action::Print(Printable::Text(text)) => lines.push(text),
            Action::Print(Printable::Number(bits)) => {
                lines.push(format!("{:.2}", f64::from_bits(bits)))
            }
            Action::CallNative { name, args } => {
                assert!(args.is_empty());
                event = Event::Returned(match name.as_str() {
                    "clock" => Ok(LiteralType::Number(1.5f64.to_bits())),
                    "read_input" => Ok(LiteralType::String("typed\n".to_string())),
                    _ => Err(format!("no native function {name}")),
                });
            }
            end => return end,
        }
    }
}

/// Runs a program and gives the lines it prints and how it ends.
fn execute(source: &str) -> (Vec<String>, Action) {
    let mut machine = match run(source, Environment::new(), read_number) {
        Ok(machine) => machine,
        Err((error, _)) => panic!("the program is not read: {error:?}"),
    };
    let mut lines = Vec::new();
    let end = drive(&mut machine, &mut lines);
    (lines, end)
}

fn prints(source: &str) -> Vec<String> {
    let (lines, end) = execute(source);
    assert!(matches!(end, Action::Finished), "the program ends with {end:?}");
    lines
}

fn fails(source: &str) -> (Vec<String>, String, usize) {
    let (lines, end) = execute(source);
    match end {
        Action::Failed(InterpreterSignal::RuntimeError(error)) => {
            let line = error.token.map(|t| t.line).unwrap_or(0);
            (lines, error.message, line)
        }
        other => panic!("the program ends with {other:?}"),
    }
}

/// Parses one expression and evaluates it.
fn value_of(source: &str) -> Result<LiteralType, String> {
    let text = format!("{source};");
    let mut scanner = Scanner::new(text);
    let tokens = scanner.scan_tokens(read_number).unwrap();
    let mut parser = Parser::new(&tokens);
    let mut statements = parser.parse();
    assert_eq!(statements.len(), 1);
    let expression: Expr = match statements.remove(0) {
        Ok(izanami::ast::Stmt::Expression { expression }) => expression,
        other => panic!("not an expression: {other:?}"),
    };
    let scopes = InterpreterEnvironment { globals: 0, environment: 0 };
    let mut machine = Interpreter::evaluation(expression, Environment::new(), scopes);
    let mut lines = Vec::new();
    match drive(&mut machine, &mut lines) {
        Action::Result(value) => Ok(value),
        Action::Failed(InterpreterSignal::RuntimeError(error)) => Err(error.message),
        other => panic!("the evaluation ends with {other:?}"),
    }
}

fn number(source: &str) -> f64 {
    match value_of(source) {
        Ok(LiteralType::Number(bits)) => f64::from_bits(bits),
        other => panic!("not a number: {other:?}"),
    }
}

fn boolean(source: &str) -> bool {
    match value_of(source) {
        Ok(LiteralType::Bool(b)) => b,
        other => panic!("not a boolean: {other:?}"),
    }
}

fn text(source: &str) -> String {
    match value_of(source) {
        Ok(LiteralType::String(s)) => s,
        other => panic!("not a string: {other:?}"),
    }
}

#[test]
fn precedence_of_arithmetic() {
    assert_eq!(number("1 + 2 * 3"), 7.0);
    assert_eq!(number("(1 + 2) * 3"), 9.0);
    assert_eq!(number("10 - 4 - 3"), 3.0);
    assert_eq!(number("8 / 4 / 2"), 1.0);
    assert_eq!(number("-2 * -3"), 6.0);
    assert_eq!(number("1 / 4"), 0.25);
}

#[test]
fn evaluating_twice_gives_the_same() {
    for source in ["1 + 2 * 3", "(7 - 2) / 4", "-(3 * 3) + 0.5", "1 / 3"] {
        assert_eq!(number(source).to_bits(), number(source).to_bits());
    }
}

#[test]
fn block_shadows_and_leaves_outer_untouched() {
    assert_eq!(prints("var a = 1; { var a = 2; print a; } print a;"), vec!["2.00", "1.00"]);
}

#[test]
fn inner_block_assigns_to_outer_variable() {
    assert_eq!(prints("var a = 1; { a = 5; } print a;"), vec!["5.00"]);
}

#[test]
fn closure_keeps_the_variable_of_its_function() {
    assert_eq!(
        prints(
            "fun make(){ var i = 0; fun inc(){ i = i + 1; return i; } return inc; } var c = make(); print c(); print c();"
        ),
        vec!["1.00", "2.00"]
    );
}

#[test]
fn break_leaves_the_for_loop() {
    assert_eq!(
        prints("for (var i = 0; i < 3; i = i + 1) { if (i == 1) break; print i; }"),
        vec!["0.00"]
    );
}

#[test]
fn break_leaves_the_inner_loop_only() {
    assert_eq!(
        prints(
            "var i = 0; while (i < 2) { var j = 0; while (true) { j = j + 1; if (j > 1) break; print j; } i = i + 1; } print i;"
        ),
        vec!["1.00", "1.00", "2.00"]
    );
}

#[test]
fn for_loop_counts() {
    assert_eq!(
        prints("for (var i = 0; i < 3; i = i + 1) print i;"),
        vec!["0.00", "1.00", "2.00"]
    );
    assert_eq!(prints("var i = 0; for (; i < 2;) i = i + 1; print i;"), vec!["2.00"]);
    assert_eq!(prints("for (;;) { print 1; break; }"), vec!["1.00"]);
}

#[test]
fn wrong_argument_count_names_both_counts() {
    let (lines, message, line) = fails("fun f(a, b) { return a; }\nprint 1;\nf(1);");
    assert_eq!(lines, vec!["1.00"]);
    assert_eq!(message, "Expected 2 arguments but got 1.");
    assert_eq!(line, 3);
    let (_, message, _) = fails("fun g() {} g(1, 2, 3);");
    assert_eq!(message, "Expected 0 arguments but got 3.");
    let (_, message, _) = fails("clock(1);");
    assert_eq!(message, "Expected 0 arguments but got 1.");
}

#[test]
fn plus_joins_strings_and_numbers() {
    assert_eq!(text("1 + \"a\""), "1a");
    assert_eq!(text("\"a\" + 1.5"), "a1.5");
    assert_eq!(text("\"a\" + \"b\""), "ab");
    assert_eq!(value_of("true + 1").err(), Some("Operands must be two numbers or two strings".to_string()));
    assert_eq!(value_of("nil + \"a\"").err(), Some("Operands must be two numbers or two strings".to_string()));
}

#[test]
fn equality_is_total() {
    assert!(!boolean("\"a\" == 1"));
    assert!(boolean("\"a\" != 1"));
    assert!(boolean("nil == nil"));
    assert!(!boolean("nil == false"));
    assert!(boolean("1 == 1"));
    assert!(boolean("\"x\" == \"x\""));
    assert!(boolean("true == true"));
    assert!(!boolean("true == false"));
    assert!(!boolean("0 == \"\""));
}

#[test]
fn comparisons_take_numbers() {
    assert!(boolean("1 < 2"));
    assert!(boolean("2 <= 2"));
    assert!(!boolean("2 > 2"));
    assert!(boolean("3 >= 2"));
    assert_eq!(value_of("1 < \"a\"").err(), Some("Operands must be numbers".to_string()));
    assert_eq!(value_of("\"a\" - 1").err(), Some("Operands must be numbers".to_string()));
    assert_eq!(value_of("nil * 2").err(), Some("Operands must be numbers".to_string()));
    assert_eq!(value_of("-\"a\"").err(), Some("Operand must be a number".to_string()));
}

#[test]
fn truthiness() {
    assert!(boolean("!nil"));
    assert!(boolean("!false"));
    assert!(!boolean("!0"));
    assert!(!boolean("!\"\""));
    assert!(!boolean("!true"));
}

#[test]
fn logical_operators_short_circuit() {
    assert_eq!(number("nil or 2"), 2.0);
    assert_eq!(number("1 or 2"), 1.0);
    assert_eq!(number("1 and 2"), 2.0);
    assert!(matches!(value_of("nil and 2"), Ok(LiteralType::Nil)));
    assert_eq!(prints("var a = 1; true or (a = 2); print a; false and (a = 3); print a;"), vec![
        "1.00", "1.00"
    ]);
}

#[test]
fn ternary_evaluates_one_branch() {
    assert_eq!(number("true ? 1 : 2"), 1.0);
    assert_eq!(number("nil ? 1 : 2"), 2.0);
    assert_eq!(prints("var a = 0; true ? (a = 1) : (a = 2); print a;"), vec!["1.00"]);
}

#[test]
fn comma_gives_the_right_operand() {
    assert_eq!(number("1, 2"), 2.0);
    assert_eq!(prints("var a = 0; var b = (a = 1, a + 1); print a; print b;"), vec![
        "1.00", "2.00"
    ]);
}

#[test]
fn assignment_is_an_expression() {
    assert_eq!(prints("var a; var b; a = b = 3; print a; print b;"), vec!["3.00", "3.00"]);
}

#[test]
fn undefined_and_uninitialized_variables_differ() {
    let (_, message, line) = fails("print 1;\nprint x;");
    assert_eq!(message, "Undefined variable x.");
    assert_eq!(line, 2);
    let (_, message, _) = fails("var x; print x;");
    assert_eq!(message, "Uninitialized variable x.");
    let (_, message, _) = fails("y = 1;");
    assert_eq!(message, "Undefined variable y.");
}

#[test]
fn only_callables_are_called() {
    let (_, message, _) = fails("var a = 1; a();");
    assert_eq!(message, "Can only call functions and classes");
    let (_, message, _) = fails("\"f\"(1);");
    assert_eq!(message, "Can only call functions and classes");
}

#[test]
fn arguments_are_evaluated_before_the_call_is_checked() {
    let (lines, message, _) = fails("fun p(x) { print x; return x; } var a = 1; a(p(1), p(2));");
    assert_eq!(lines, vec!["1.00", "2.00"]);
    assert_eq!(message, "Can only call functions and classes");
}

#[test]
fn print_renders_each_kind_of_value() {
    assert_eq!(
        prints("print 1; print 2.5; print 1/3; print \"hi\"; print true; print false; print nil;"),
        vec!["1.00", "2.50", "0.33", "hi", "true", "false", "nil"]
    );
    assert_eq!(prints("fun f() {} print f; print clock;"), vec!["<fn f>", "<fn clock>"]);
}

#[test]
fn function_returns_nil_without_return() {
    assert_eq!(prints("fun f() {} print f(); fun g() { return; } print g();"), vec![
        "nil", "nil"
    ]);
}

#[test]
fn return_leaves_nested_blocks_and_loops() {
    assert_eq!(
        prints("fun f() { while (true) { { if (true) { return 7; } } } } print f(); print 8;"),
        vec!["7.00", "8.00"]
    );
}

#[test]
fn recursion() {
    assert_eq!(
        prints("fun fib(n) { if (n < 2) return n; return fib(n - 1) + fib(n - 2); } print fib(10);"),
        vec!["55.00"]
    );
}

#[test]
fn scoping_is_lexical() {
    assert_eq!(
        prints(
            "var a = \"global\"; fun show() { print a; } fun other() { var a = \"local\"; show(); } other();"
        ),
        vec!["global"]
    );
}

#[test]
fn parameters_shadow_by_position() {
    assert_eq!(
        prints("var a = 1; fun f(a, b) { print a; print b; a = 9; } f(2, 3); print a;"),
        vec!["2.00", "3.00", "1.00"]
    );
}

#[test]
fn runtime_error_in_a_loop_ends_the_program() {
    let (lines, message, _) = fails("var i = 0; while (true) { print i; i = i + nil; } print 9;");
    assert_eq!(lines, vec!["0.00"]);
    assert_eq!(message, "Operands must be two numbers or two strings");
}

#[test]
fn return_passes_through_a_loop() {
    assert_eq!(
        prints("fun f() { for (var i = 0; i < 5; i = i + 1) { if (i == 2) return i; } } print f();"),
        vec!["2.00"]
    );
}

#[test]
fn return_outside_a_function_leaves_the_program() {
    let (lines, end) = execute("print 1; return 2; print 3;");
    assert_eq!(lines, vec!["1.00"]);
    assert!(matches!(
        end,
        Action::Failed(InterpreterSignal::Return(LiteralType::Number(b))) if f64::from_bits(b) == 2.0
    ));
}

#[test]
fn native_functions_are_the_hosts() {
    assert_eq!(prints("print clock(); print read_input();"), vec!["1.50", "typed\n"]);
}

#[test]
fn native_function_may_fail() {
    let mut machine = run("read_input();", Environment::new(), read_number).ok().unwrap();
    let mut event = Event::Resume;
    let end = loop {
        match machine.step(event) {
            Action::Continue => event = Event::Resume,
            Action::CallNative { .. } => {
                event = Event::Returned(Err("Error reading from stdin".to_string()))
            }
            other => break other,
        }
    };
    match end {
        Action::Failed(InterpreterSignal::RuntimeError(error)) => {
            assert_eq!(error.message, "Error reading from stdin");
            assert!(error.token.is_none());
        }
        other => panic!("ends with {other:?}"),
    }
}

#[test]
fn wrong_answer_of_the_host_is_an_error() {
    let mut machine = run("1 + 2;", Environment::new(), read_number).ok().unwrap();
    let end = loop {
        match machine.step(Event::Text("3".to_string())) {
            Action::Continue | Action::Arithmetic { .. } => {}
            other => break other,
        }
    };
    match end {
        Action::Failed(InterpreterSignal::RuntimeError(error)) => {
            assert_eq!(error.message, "Unexpected answer from the host");
        }
        other => panic!("ends with {other:?}"),
    }
}

#[test]
fn machine_stays_at_its_end() {
    let mut machine = run("print 1;", Environment::new(), read_number).ok().unwrap();
    let mut lines = Vec::new();
    assert!(matches!(drive(&mut machine, &mut lines), Action::Finished));
    assert!(matches!(machine.step(Event::Resume), Action::Finished));
    assert!(matches!(machine.step(Event::Number(0)), Action::Finished));
}

#[test]
fn environment_outlives_the_machine() {
    let mut machine = run("var a = 1; fun f() { return a + 1; }", Environment::new(), read_number)
        .ok()
        .unwrap();
    let mut lines = Vec::new();
    assert!(matches!(drive(&mut machine, &mut lines), Action::Finished));
    let environment = machine.into_environment();
    let mut machine = run("print f();", environment, read_number).ok().unwrap();
    assert!(matches!(drive(&mut machine, &mut lines), Action::Finished));
    assert_eq!(lines, vec!["2.00"]);
}

#[test]
fn errors_of_the_text_stop_the_run() {
    match run("var a = @;", Environment::new(), read_number) {
        Err((RunError::ScanError(error), _)) => {
            assert_eq!(error.errors.len(), 1);
            assert_eq!(error.errors[0].msg, "Unexpected character");
        }
        _ => panic!("a lexical error"),
    }
    match run("print 1; var = 2; print ;", Environment::new(), read_number) {
        Err((RunError::ParseError(errors), environment)) => {
            assert_eq!(errors.len(), 2);
            assert_eq!(errors[0].msg, "Expect variable name");
            assert_eq!(errors[1].msg, "Expect expression.");
            assert_eq!(environment.len(), 1);
        }
        _ => panic!("two parse errors"),
    }
}

#[test]
fn interpret_defines_the_native_functions() {
    let mut machine = interpret(Vec::new(), Environment::new());
    assert!(matches!(machine.step(Event::Resume), Action::Continue));
    assert!(matches!(machine.step(Event::Resume), Action::Finished));
    let environment = machine.into_environment();
    let clock = izanami::token::Token::new(izanami::token::TokenType::Identifier, "clock", None, 1);
    assert!(matches!(environment.get(0, &clock), Some(Some(LiteralType::Callable(_)))));
}

#[test]
fn scopes_that_are_left_are_given_up() {
    let mut machine = run(
        "var i = 0; while (i < 1000) { var j = i; { j = j + 1; } i = i + 1; } fun f(a) { return a; } f(1); f(2);",
        Environment::new(),
        read_number,
    )
    .ok()
    .unwrap();
    let mut lines = Vec::new();
    assert!(matches!(drive(&mut machine, &mut lines), Action::Finished));
    assert_eq!(machine.into_environment().len(), 1);
}

#[test]
fn scopes_that_functions_hold_on_to_stay() {
    assert_eq!(
        prints(
            "fun make(n) { fun f() { n = n + 1; return n; } return f; } var a = make(10); var b = make(20); { var x = 0; { var y = 1; } } print a(); print b(); print a(); { var z = 5; print z; } print b();"
        ),
        vec!["11.00", "21.00", "12.00", "5.00", "22.00"]
    );
}

#[test]
fn closures_made_in_a_loop_keep_their_own_scope() {
    assert_eq!(
        prints(
            "var first; var second; for (var i = 0; i < 2; i = i + 1) { var own = i * 10; fun get() { return own; } if (i == 0) first = get; else second = get; } { var filler = 99; } print first(); print second();"
        ),
        vec!["0.00", "10.00"]
    );
}

#[test]
fn signals_are_made_of_runtime_errors() {
    let error = izanami::interpreter::RuntimeError::no_token("wrong".to_string());
    let signal = InterpreterSignal::from(error);
    assert!(matches!(&signal, InterpreterSignal::RuntimeError(e) if e.message == "wrong"));
    assert_eq!(signal.into_error().message, "wrong");
}

#[test]
fn function_of_another_environment_is_not_entered() {
    let name = izanami::token::Token::new(izanami::token::TokenType::Identifier, "f", None, 1);
    let paren = izanami::token::Token::new(izanami::token::TokenType::RightParen, ")", None, 2);
    let function = izanami::callable::Callable::Function {
        name: Box::new(name),
        params: Vec::new(),
        body: Vec::new(),
        closure: 99,
    };
    let call = Expr::Call {
        callee: Box::new(Expr::Literal { value: LiteralType::Callable(function) }),
        paren,
        args: Vec::new(),
    };
    let scopes = InterpreterEnvironment { globals: 0, environment: 0 };
    let mut machine = Interpreter::evaluation(call, Environment::new(), scopes);
    let mut lines = Vec::new();
    match drive(&mut machine, &mut lines) {
        Action::Failed(InterpreterSignal::RuntimeError(error)) => {
            assert_eq!(error.message, "Function of another environment");
            assert_eq!(error.token.unwrap().line, 2);
        }
        other => panic!("ends with {other:?}"),
    }
}
