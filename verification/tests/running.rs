use icps::ast::{Expr, Stmt};
use icps::environment::Environment;
use icps::icps::{load, Error};
use icps::interpreter::{Action, Arith, Event, Interpreter};
use icps::number::Number;
use icps::scanner::{Loc, LocToken};
use icps::token::Token;
use icps::value::Value;

fn number(x: f64) -> Number {
    Number::from_bits(x.to_bits())
}

fn float(n: Number) -> f64 {
    f64::from_bits(n.to_bits())
}

fn answer(action: Action, lines: &mut Vec<String>) -> Result<Event, Result<Value, Error>> {
    Ok(match action {
        Action::Continue => Event::Resume,
        Action::Parse(text) => Event::Number(number(text.parse().unwrap())),
        Action::Show(n) => Event::Text(float(n).to_string()),
        Action::Compute(op, a, b) => {
            let (x, y) = (float(a), float(b));
            Event::Number(number(match op {
                Arith::Add => x + y,
                Arith::Subtract => x - y,
                Arith::Multiply => x * y,
                Arith::Divide => x / y,
            }))
        }
        Action::Print(line) => {
            lines.push(line);
            Event::Resume
        }
        Action::Done(result) => return Err(result),
    })
}

fn finish(interpreter: &mut Interpreter, lines: &mut Vec<String>) -> Result<Value, Error> {
    let mut event = Event::Resume;
    loop {
        match answer(interpreter.advance(event, 1000), lines) {
            Ok(next) => event = next,
            Err(result) => return result,
        }
    }
}

fn run_in(env: Environment, source: &str) -> (Result<Value, Error>, Vec<String>, Environment) {
    let mut lines = Vec::new();
    let program = load(source).unwrap();
    let mut interpreter = Interpreter::with_env(env);
    interpreter.interpret(&program.statements);
    let result = finish(&mut interpreter, &mut lines);
    (result, lines, interpreter.into_env())
}

fn printed(source: &str) -> Vec<String> {
    let (result, lines, _) = run_in(Environment::new(), source);
    assert_eq!(result.unwrap(), Value::Null);
    lines
}

fn failure(source: &str) -> Error {
    run_in(Environment::new(), source).0.unwrap_err()
}

fn value_of(source: &str) -> Result<Value, Error> {
    let program = load(source).unwrap();
    let mut interpreter = Interpreter::new();
    let mut lines = Vec::new();
    match &program.statements[0] {
        Stmt::Expression(e) => {
            let first = interpreter.evaluate(e);
            match answer(first, &mut lines) {
                Ok(Event::Resume) => finish(&mut interpreter, &mut lines),
                Ok(event) => {
                    let next = interpreter.step(event);
                    match answer(next, &mut lines) {
                        Ok(event) => {
                            assert!(matches!(event, Event::Resume));
                            finish(&mut interpreter, &mut lines)
                        }
                        Err(result) => result,
                    }
                }
                Err(result) => result,
            }
        }
        other => panic!("{:?}", other),
    }
}

fn text(s: &str) -> Value {
    Value::String(s.to_string())
}

fn num(x: f64) -> Value {
    Value::Number(number(x))
}

fn at(line: usize, col: usize, idx: usize) -> Loc {
    Loc { line, col, idx }
}

#[test]
fn a_numeric_literal_is_its_number() {
    assert_eq!(value_of("12.5").unwrap(), num(12.5));
    assert_eq!(value_of("007").unwrap(), num(7.0));
    assert_eq!(value_of("0.1").unwrap(), num(0.1));
    assert_eq!(value_of("123456789012345678901234567890").unwrap(), num(123456789012345678901234567890.0));
}

#[test]
fn a_numeric_literal_is_asked_for_as_written() {
    let program = load("3.50").unwrap();
    let mut interpreter = Interpreter::new();
    interpreter.interpret(&program.statements);
    let mut asked = Vec::new();
    let mut event = Event::Resume;
    loop {
        event = match interpreter.step(event) {
            Action::Parse(text) => {
                asked.push(text);
                Event::Number(number(9.0))
            }
            Action::Done(result) => {
                assert_eq!(result.unwrap(), Value::Null);
                break;
            }
            Action::Continue => Event::Resume,
            other => panic!("{:?}", other),
        };
    }
    assert_eq!(asked, vec!["3.50"]);
}

#[test]
fn other_literals() {
    assert_eq!(value_of("\"a b\"").unwrap(), text("a b"));
    assert_eq!(value_of("true").unwrap(), Value::Boolean(true));
    assert_eq!(value_of("false").unwrap(), Value::Boolean(false));
    assert_eq!(value_of("null").unwrap(), Value::Null);
    assert_eq!(value_of("(((2)))").unwrap(), num(2.0));
}

#[test]
fn arithmetic() {
    assert_eq!(value_of("1 + 2 * 3").unwrap(), num(7.0));
    assert_eq!(value_of("(1 + 2) * 3").unwrap(), num(9.0));
    assert_eq!(value_of("7 - 10").unwrap(), num(-3.0));
    assert_eq!(value_of("1 / 4").unwrap(), num(0.25));
    assert_eq!(value_of("0.1 + 0.2").unwrap(), num(0.1 + 0.2));
    assert_eq!(value_of("-3 - -3").unwrap(), num(0.0));
}

#[test]
fn sums_that_are_no_sums() {
    assert_eq!(value_of("\"a\" + \"b\"").unwrap(), text("ab"));
    assert_eq!(value_of("\"a\" + 1.50").unwrap(), text("a1.5"));
    assert_eq!(value_of("1 / 3 + \"\"").unwrap(), text("0.3333333333333333"));
    assert_eq!(
        value_of("1 + true").unwrap_err().message(),
        "Runtime Error: Cannot add 'Number' with anything but 'Number' or 'String' or an expression evaluating to it"
    );
    assert_eq!(
        value_of("\"a\" + null").unwrap_err().message(),
        "Runtime Error: Cannot add 'String' with anything but 'String' or 'Number' or an expression evaluating to it"
    );
    let e = value_of("true + 1").unwrap_err();
    assert_eq!(e.message(), "Runtime Error: Cannot add anything to a non 'Number' or 'String' expression.");
    assert_eq!(e.loc(), at(1, 6, 5));
}

#[test]
fn differences_are_of_numbers() {
    assert_eq!(
        value_of("1 - \"a\"").unwrap_err().message(),
        "Runtime Error: Cannot subtract 'Number' with anything but 'Number' or an expression evaluating to it"
    );
    assert_eq!(
        value_of("\"a\" - 1").unwrap_err().message(),
        "Runtime Error: Cannot subtract anything from a non 'Number' expression."
    );
}

#[test]
fn a_string_is_repeated_a_rounded_number_of_times() {
    assert_eq!(value_of("\"ab\" * 2.5").unwrap(), text("ababab"));
    assert_eq!(value_of("2.4 * \"ab\"").unwrap(), text("abab"));
    assert_eq!(value_of("\"ab\" * 0.4").unwrap(), text(""));
    assert_eq!(value_of("\"ab\" * -1").unwrap(), text(""));
    assert_eq!(value_of("\"ab\" * 0").unwrap(), text(""));
    assert_eq!(value_of("\"\" * 100000000000000000000000000000").unwrap(), text(""));
    assert_eq!(
        value_of("\"ab\" * 100000000000000000000000000000").unwrap_err().message(),
        "Runtime Error: Cannot repeat a 'String' that many times."
    );
}

#[test]
fn products_that_are_none() {
    assert_eq!(
        value_of("2 * true").unwrap_err().message(),
        "Runtime Error: Cannot multiply 'Number' with anything but 'Number' or 'String' or an expression evaluating to it"
    );
    assert_eq!(
        value_of("\"a\" * \"b\"").unwrap_err().message(),
        "Runtime Error: Cannot multiply 'String' with anything but 'Number' or an expression evaluating to it"
    );
    assert_eq!(
        value_of("null * 2").unwrap_err().message(),
        "Runtime Error: Cannot multiply anything with a non 'Number' or 'String' expression."
    );
}

#[test]
fn quotients() {
    assert_eq!(value_of("0 / 0").unwrap_err().message(), "Runtime Error: Division by zero.");
    assert_eq!(value_of("\"a\" / 0").unwrap_err().message(), "Runtime Error: Division by zero.");
    assert_eq!(value_of("1 / -0").unwrap_err().message(), "Runtime Error: Division by zero.");
    assert_eq!(value_of("1 / (1 - 1)").unwrap_err().message(), "Runtime Error: Division by zero.");
    assert_eq!(
        value_of("1 / \"a\"").unwrap_err().message(),
        "Runtime Error: Cannot divide by anything but 'Number' or an expression evaluating to it"
    );
    assert_eq!(
        value_of("\"a\" / 2").unwrap_err().message(),
        "Runtime Error: Cannot divide anything but 'Number' or an expression evaluating to it"
    );
}

#[test]
fn ranges() {
    assert_eq!(value_of("0..3").unwrap(), Value::Range(number(0.0), number(3.0)));
    assert_eq!(
        value_of("0..\"a\"").unwrap_err().message(),
        "Runtime Error: Cannot create a range with anything but 'Number' or an expression evaluating to it"
    );
    assert_eq!(
        value_of("true..1").unwrap_err().message(),
        "Runtime Error: Cannot create a range with anything but 'Number' or an expression evaluating to it"
    );
}

#[test]
fn equality_within_a_variant() {
    assert_eq!(value_of("1 == 1").unwrap(), Value::Boolean(true));
    assert_eq!(value_of("1 != 1").unwrap(), Value::Boolean(false));
    assert_eq!(value_of("1 == 2").unwrap(), Value::Boolean(false));
    assert_eq!(value_of("0 == -0").unwrap(), Value::Boolean(true));
    assert_eq!(value_of("\"a\" == \"a\"").unwrap(), Value::Boolean(true));
    assert_eq!(value_of("\"a\" != \"b\"").unwrap(), Value::Boolean(true));
    assert_eq!(value_of("true == false").unwrap(), Value::Boolean(false));
    assert_eq!(value_of("null == null").unwrap(), Value::Boolean(true));
    assert_eq!(value_of("null != null").unwrap(), Value::Boolean(false));
    assert_eq!(value_of("(0..1) == (0..1)").unwrap(), Value::Boolean(true));
    assert_eq!(value_of("(0..1) == (0..2)").unwrap(), Value::Boolean(false));
}

#[test]
fn equality_across_variants_is_an_error() {
    for source in ["1 == \"1\"", "null != false", "\"\" == null", "(0..1) == 0", "true != 1"] {
        let e = value_of(source).unwrap_err();
        assert_eq!(e.message(), "Runtime Error: Cannot compare values of different types.", "{}", source);
    }
    assert_eq!(value_of("true == 1").unwrap_err().loc(), at(1, 6, 5));
}

#[test]
fn order_is_of_numbers() {
    assert_eq!(value_of("1 < 2").unwrap(), Value::Boolean(true));
    assert_eq!(value_of("2 < 2").unwrap(), Value::Boolean(false));
    assert_eq!(value_of("2 <= 2").unwrap(), Value::Boolean(true));
    assert_eq!(value_of("3 > 2").unwrap(), Value::Boolean(true));
    assert_eq!(value_of("2 >= 3").unwrap(), Value::Boolean(false));
    assert_eq!(value_of("-1 < 0.5").unwrap(), Value::Boolean(true));
    assert_eq!(
        value_of("1 < \"2\"").unwrap_err().message(),
        "Runtime Error: Cannot compare 'Number' with anything but 'Number' or an expression evaluating to it"
    );
    assert_eq!(
        value_of("\"1\" >= 2").unwrap_err().message(),
        "Runtime Error: Cannot compare anything with a non 'Number' expression."
    );
}

#[test]
fn unary_operators() {
    assert_eq!(value_of("-3").unwrap(), num(-3.0));
    assert_eq!(value_of("--3").unwrap(), num(3.0));
    assert_eq!(value_of("-0").unwrap(), Value::Number(number(-0.0)));
    assert_eq!(value_of("!true").unwrap(), Value::Boolean(false));
    assert_eq!(value_of("!!false").unwrap(), Value::Boolean(false));
    let e = value_of("-\"a\"").unwrap_err();
    assert_eq!(e.message(), "Runtime Error: Cannot negate non 'Number' expression.");
    assert_eq!(e.loc(), at(1, 1, 0));
    assert_eq!(value_of("!1").unwrap_err().message(), "Runtime Error: Cannot negate non 'Boolean' expression.");
    assert_eq!(value_of("!null").unwrap_err().message(), "Runtime Error: Cannot negate non 'Boolean' expression.");
}

#[test]
fn logical_operators_go_by_truthiness() {
    assert_eq!(value_of("\"\" or 0").unwrap(), Value::Boolean(true));
    assert_eq!(value_of("null or \"\"").unwrap(), Value::Boolean(false));
    assert_eq!(value_of("1 and \"a\"").unwrap(), Value::Boolean(true));
    assert_eq!(value_of("1 and null").unwrap(), Value::Boolean(false));
    assert_eq!(value_of("true xor 1").unwrap(), Value::Boolean(false));
    assert_eq!(value_of("true xor null").unwrap(), Value::Boolean(true));
    assert_eq!(value_of("false xor false").unwrap(), Value::Boolean(false));
}

#[test]
fn or_and_and_stop_early() {
    assert_eq!(printed("var x = 1\ntrue or (x = 2)\nlog x\n"), vec!["1"]);
    assert_eq!(printed("var x = 1\nfalse or (x = 2)\nlog x\n"), vec!["2"]);
    assert_eq!(printed("var x = 1\nfalse and (x = 2)\nlog x\n"), vec!["1"]);
    assert_eq!(printed("var x = 1\ntrue and (x = 2)\nlog x\n"), vec!["2"]);
    assert_eq!(printed("var x = 1\ntrue xor (x = 2)\nlog x\n"), vec!["2"]);
    assert_eq!(value_of("true or y").unwrap(), Value::Boolean(true));
    assert_eq!(value_of("false and y").unwrap(), Value::Boolean(false));
    assert_eq!(value_of("false or y").unwrap_err().message(), "Undefined variable 'y'.");
}

#[test]
fn an_assignment_is_its_value() {
    assert_eq!(printed("var x = 1\nlog x = 5\nlog x\n"), vec!["5", "5"]);
    assert_eq!(printed("var x = 1\nvar y = 2\nx = y = 7\nlog x + y\n"), vec!["14"]);
}

#[test]
fn values_are_logged_as_text() {
    assert_eq!(
        printed("log 1.50\nlog \"a b\"\nlog true\nlog false\nlog null\nlog 0..3\nlog 1 / 3\nlog -0\nlog 100000000000000000000000\n"),
        vec!["1.5", "a b", "true", "false", "null", "0..3", "0.3333333333333333", "-0", "100000000000000000000000"]
    );
    assert_eq!(printed("log 0.5..2.25"), vec!["0.5..2.25"]);
}

#[test]
fn a_declaration_without_a_value_is_null() {
    let (result, _, mut env) = run_in(Environment::new(), "var x\n");
    assert_eq!(result.unwrap(), Value::Null);
    let name = LocToken { token: Token::Identifier("x".to_string()), loc: at(1, 1, 0) };
    assert_eq!(env.get(&name).unwrap(), Value::Null);
    env.assign(name, num(1.0)).unwrap();
    assert_eq!(run_in(env, "log x").1, vec!["1"]);
}

#[test]
fn a_variable_can_be_set_after_it_was_declared() {
    assert_eq!(printed("var x\nx = 3\nlog x\n"), vec!["3"]);
}

#[test]
fn reading_an_undeclared_name_fails() {
    let e = failure("log 1\nlog y\n");
    assert_eq!(e.message(), "Undefined variable 'y'.");
    assert_eq!(e.loc(), at(2, 5, 10));
}

#[test]
fn a_block_has_its_own_scope() {
    assert_eq!(printed("var x = 1\n{\n x = 2\n var y = 3\n log x + y\n}\nlog x\n"), vec!["5", "2"]);
    assert_eq!(failure("{\n var y = 3\n}\nlog y\n").message(), "Undefined variable 'y'.");
    assert_eq!(printed("var x = 1\n{\n var x = 2\n {\n var x = 3\n log x\n }\n log x\n}\nlog x"), vec!["3", "2", "1"]);
}

#[test]
fn a_block_is_the_value_of_its_last_statement() {
    let program = load("{\n 1\n 2 + 3\n}\n").unwrap();
    let mut interpreter = Interpreter::new();
    let mut lines = Vec::new();
    interpreter.execute(&program.statements[0]);
    assert_eq!(finish(&mut interpreter, &mut lines).unwrap(), num(5.0));
    let program = load("{ }").unwrap();
    interpreter.execute(&program.statements[0]);
    assert_eq!(finish(&mut interpreter, &mut lines).unwrap(), Value::Null);
}

#[test]
fn a_block_stops_at_its_first_error() {
    let (result, lines, env) = run_in(Environment::new(), "log 1\n{\n log 2\n log z\n log 3\n}\nlog 4\n");
    assert_eq!(result.unwrap_err().message(), "Undefined variable 'z'.");
    assert_eq!(lines, vec!["1", "2"]);
    assert_eq!(env.depth(), 1);
}

#[test]
fn scopes_are_given_back_after_an_error() {
    let (result, lines, env) =
        run_in(Environment::new(), "var a = 1\n{\n {\n for i 0..3 {\n log i\n a = a + 1\n log 1 / 0\n }\n }\n}\n");
    assert_eq!(result.unwrap_err().message(), "Runtime Error: Division by zero.");
    assert_eq!(lines, vec!["0"]);
    assert_eq!(env.depth(), 1);
    assert_eq!(run_in(env, "log a\n").1, vec!["2"]);
}

#[test]
fn conditions_of_if_are_booleans() {
    assert_eq!(printed("if 1 < 2 log \"yes\" else log \"no\"\nif 2 < 1 log \"yes\" else log \"no\"\n"), vec!["yes", "no"]);
    assert_eq!(printed("if false log 1\nlog 2\n"), vec!["2"]);
    let e = failure("if 1 log 2\n");
    assert_eq!(e.message(), "Runtime Error: Invalid condition.");
    assert_eq!(e.loc(), at(1, 4, 3));
    assert_eq!(failure("if \"a\" + \"b\" log 2\n").loc(), at(1, 8, 7));
    assert_eq!(failure("if null log 2\n").message(), "Runtime Error: Invalid condition.");
}

#[test]
fn while_goes_by_truthiness() {
    assert_eq!(printed("var i = 0\nwhile i < 3 {\n log i\n i = i + 1\n}\n"), vec!["0", "1", "2"]);
    assert_eq!(printed("var s = \"a\"\nvar n = 0\nwhile s {\n n = n + 1\n if n >= 2 s = \"\"\n}\nlog n\n"), vec!["2"]);
    assert_eq!(printed("while null log 1\nlog 2\n"), vec!["2"]);
}

#[test]
fn for_counts_up_to_the_end() {
    assert_eq!(printed("for i 0..3 {\n log i\n}\n"), vec!["0", "1", "2"]);
    assert_eq!(printed("for 1..3 log i\n"), vec!["1", "2"]);
    assert_eq!(printed("for i 0.5..2 log i\n"), vec!["0.5", "1.5"]);
    assert_eq!(printed("var n = 2\nfor k n..4 log k * k\n"), vec!["4", "9"]);
}

#[test]
fn for_runs_its_body_before_it_looks_at_the_end() {
    assert_eq!(printed("for i 0..0 log i\n"), vec!["0"]);
    assert_eq!(printed("for i 5..1 log i\n"), vec!["5"]);
}

#[test]
fn the_loop_variable_lives_in_the_loop() {
    assert_eq!(failure("for i 0..2 log i\nlog i\n").message(), "Undefined variable 'i'.");
    assert_eq!(printed("var i = 9\nfor i 0..2 log i\nlog i\n"), vec!["0", "1", "9"]);
    assert_eq!(printed("for i 0..10 {\n log i\n i = i + 4\n}\n"), vec!["0", "5"]);
}

#[test]
fn for_needs_a_range_and_a_number() {
    let e = failure("for i 3 log i\n");
    assert_eq!(e.message(), "Runtime Error: For loop iterable must be a range.");
    assert_eq!(e.loc(), at(1, 7, 6));
    let (result, lines, env) = run_in(Environment::new(), "for i 0..3 i = \"x\"\n");
    let e = result.unwrap_err();
    assert_eq!(e.message(), "Runtime Error: For loop variable must be a number.");
    assert_eq!(e.loc(), at(1, 8, 7));
    assert!(lines.is_empty());
    assert_eq!(env.depth(), 1);
}

#[test]
fn the_environment_outlives_the_run() {
    let (_, _, env) = run_in(Environment::new(), "var x = 1\n");
    let (_, lines, env) = run_in(env, "x = x + 1\nlog x\n");
    assert_eq!(lines, vec!["2"]);
    assert_eq!(run_in(env, "log x * 2\n").1, vec!["4"]);
}

#[test]
fn nodes_without_a_meaning_are_null_with_a_warning() {
    let token = LocToken { token: Token::This, loc: at(1, 1, 0) };
    let callee = Expr::Variable(LocToken { token: Token::Identifier("f".to_string()), loc: at(1, 1, 0) });
    let nodes = vec![
        Expr::This(token.clone()),
        Expr::Super(token.clone()),
        Expr::Call(Box::new(callee), Vec::new()),
        Expr::Get(Box::new(Expr::This(token.clone())), token.clone()),
        Expr::SetProperty(Box::new(Expr::This(token.clone())), token.clone(), Box::new(Expr::This(token.clone()))),
    ];
    for node in &nodes {
        let mut interpreter = Interpreter::new();
        let mut lines = Vec::new();
        match interpreter.evaluate(node) {
            Action::Print(line) => lines.push(line),
            other => panic!("{:?}", other),
        }
        assert_eq!(finish(&mut interpreter, &mut lines).unwrap(), Value::Null);
        assert_eq!(lines, vec!["Warning: Called evaluate expr on a non implemented operation!"]);
    }
}

#[test]
fn statements_without_a_meaning_are_refused() {
    let name = LocToken { token: Token::Identifier("f".to_string()), loc: at(1, 1, 0) };
    let statements = vec![
        Stmt::Return(None),
        Stmt::Function(name.clone(), Vec::new(), Vec::new()),
        Stmt::Class(name.clone(), Box::new(Expr::Variable(name.clone())), Vec::new()),
    ];
    for statement in &statements {
        let mut interpreter = Interpreter::new();
        match interpreter.execute(statement) {
            Action::Done(Err(e)) => {
                assert_eq!(e.message(), "Runtime Error: Not Implemented.");
                assert_eq!(e.loc(), at(0, 0, 0));
            }
            other => panic!("{:?}", other),
        }
    }
}

#[test]
fn a_literal_must_be_a_value() {
    let node = Expr::Literal(LocToken { token: Token::Plus, loc: at(2, 3, 4) });
    let mut interpreter = Interpreter::new();
    match interpreter.evaluate(&node) {
        Action::Done(Err(e)) => assert_eq!(e.to_text(), "[2:3] Runtime Error: Invalid literal value."),
        other => panic!("{:?}", other),
    }
}

#[test]
fn operators_must_be_operators() {
    let one = || Box::new(Expr::Literal(LocToken { token: Token::True, loc: at(1, 1, 0) }));
    let op = LocToken { token: Token::Comma, loc: at(1, 3, 2) };
    let mut lines = Vec::new();
    for (node, message) in [
        (Expr::Binary(one(), op.clone(), one()), "Runtime Error: Invalid binary operator"),
        (Expr::Unary(op.clone(), one()), "Runtime Error: Invalid unary operator"),
        (Expr::Logical(one(), op.clone(), one()), "Runtime Error: Invalid logical operator."),
    ] {
        let mut interpreter = Interpreter::new();
        interpreter.evaluate(&node);
        let e = finish(&mut interpreter, &mut lines).unwrap_err();
        assert_eq!(e.message(), message);
        assert_eq!(e.loc(), at(1, 3, 2));
    }
}

#[test]
fn an_answer_of_the_wrong_kind_ends_the_run() {
    let program = load("{\n log 1 + 2\n}\n").unwrap();
    let mut interpreter = Interpreter::new();
    interpreter.interpret(&program.statements);
    let mut event = Event::Resume;
    let result = loop {
        event = match interpreter.step(event) {
            Action::Parse(_) => Event::Number(number(1.0)),
            Action::Compute(_, _, _) => Event::Text("3".to_string()),
            Action::Done(result) => break result,
            Action::Continue => Event::Resume,
            other => panic!("{:?}", other),
        };
    };
    let e = result.unwrap_err();
    assert_eq!(e.message(), "Runtime Error: Unexpected reply.");
    assert_eq!(e.loc(), at(0, 0, 0));
    assert_eq!(interpreter.into_env().depth(), 1);
}

#[test]
fn an_idle_machine_is_done() {
    let mut interpreter = Interpreter::new();
    assert!(matches!(interpreter.step(Event::Resume), Action::Done(Ok(Value::Null))));
    let program = load("").unwrap();
    interpreter.interpret(&program.statements);
    let mut lines = Vec::new();
    assert_eq!(finish(&mut interpreter, &mut lines).unwrap(), Value::Null);
    assert!(matches!(interpreter.step(Event::Number(number(1.0))), Action::Done(Ok(Value::Null))));
}

#[test]
fn a_budget_bounds_the_steps() {
    let program = load("while true {\n}\n").unwrap();
    let mut interpreter = Interpreter::new();
    interpreter.interpret(&program.statements);
    for _ in 0..5 {
        assert!(matches!(interpreter.advance(Event::Resume, 1000), Action::Continue));
    }
    assert!(matches!(interpreter.advance(Event::Resume, 0), Action::Continue));
    interpreter.interpret(&program.statements);
    assert_eq!(interpreter.into_env().depth(), 1);
}

#[test]
fn loading_gives_up_what_was_under_way() {
    let first = load("{\n {\n log 1\n }\n}\n").unwrap();
    let second = load("log 2\n").unwrap();
    let mut interpreter = Interpreter::new();
    interpreter.interpret(&first.statements);
    let mut lines = Vec::new();
    loop {
        match interpreter.step(Event::Resume) {
            Action::Show(_) => break,
            Action::Parse(_) => {
                assert!(matches!(interpreter.step(Event::Number(number(1.0))), Action::Continue));
            }
            Action::Continue => {}
            other => panic!("{:?}", other),
        }
    }
    interpreter.interpret(&second.statements);
    assert_eq!(finish(&mut interpreter, &mut lines).unwrap(), Value::Null);
    assert_eq!(lines, vec!["2"]);
    assert_eq!(interpreter.into_env().depth(), 1);
}

#[test]
fn errors_are_written_with_their_place() {
    let e = Error::new(at(12, 3, 40), "went wrong");
    assert_eq!(e.to_text(), "[12:3] went wrong");
    assert_eq!(e.message(), "went wrong");
    assert_eq!(e.loc(), at(12, 3, 40));
    assert_eq!(Error::new(at(0, 0, 0), "").to_text(), "[0:0] ");
    assert_eq!(Error::new(at(1000, 20, 0), "x").clone().to_text(), "[1000:20] x");
}

#[test]
fn loading_reports_the_first_error_of_either_stage() {
    assert_eq!(load("1 # 2 )").unwrap_err().message(), "Unexpected character #");
    assert_eq!(load("1 ) #").unwrap_err().message(), "Unexpected character #");
    assert_eq!(load("1 )").unwrap_err().message(), "Expected ';' or newline after statement.");
    let program = load("a;\nb").unwrap();
    assert_eq!(program.warnings, vec![at(1, 2, 1)]);
    assert_eq!(program.tokens.len(), 5);
    assert_eq!(program.statements.len(), 2);
}
