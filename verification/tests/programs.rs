use icps::icps::{load, Error};
use icps::interpreter::{Action, Arith, Event, Interpreter};
use icps::number::Number;
use icps::scanner::Loc;
use icps::value::Value;

fn number(x: f64) -> Number {
    Number::from_bits(x.to_bits())
}

fn float(n: Number) -> f64 {
    f64::from_bits(n.to_bits())
}

fn drive(interpreter: &mut Interpreter, lines: &mut Vec<String>) -> Result<Value, Error> {
    let mut event = Event::Resume;
    loop {
        event = match interpreter.step(event) {
            Action::Continue => Event::Resume,
            Action::Parse(text) => Event::Number(number(text.parse().unwrap())),
            Action::Show(n) => Event::Text(float(n).to_string()),
            Action::Compute(op, a, b) => {
                let (x, y) = (float(a), float(b));
                Event::Number(number(match op {
                    Arith::Add => x + y,
                    Arith::Subtract => x - y,
                    Arith::Multiply => x * y,
                    Arith::Divide => x / y,
                }))
            }
            Action::Print(line) => {
                lines.push(line);
                Event::Resume
            }
            Action::Done(result) => return result,
        };
    }
}

fn run(source: &str) -> (Result<Value, Error>, Vec<String>) {
    let mut lines = Vec::new();
    let program = match load(source) {
        Ok(program) => program,
        Err(e) => return (Err(e), lines),
    };
    let mut interpreter = Interpreter::new();
    interpreter.interpret(&program.statements);
    let result = drive(&mut interpreter, &mut lines);
    (result, lines)
}

fn value_of(source: &str) -> Result<Value, Error> {
    let program = load(source).unwrap();
    let mut interpreter = Interpreter::new();
    let mut lines = Vec::new();
    match &program.statements[0] {
        icps::ast::Stmt::Expression(e) => {
            interpreter.evaluate(e);
            drive(&mut interpreter, &mut lines)
        }
        _ => panic!("not an expression"),
    }
}

fn printed(source: &str) -> Vec<String> {
    let (result, lines) = run(source);
    assert!(result.is_ok(), "{:?}", result);
    lines
}

fn failure(source: &str) -> Error {
    match run(source).0 {
        Ok(v) => panic!("no error, but {:?}", v),
        Err(e) => e,
    }
}

#[test]
fn adds_numbers() {
    assert_eq!(value_of("1 + 2").unwrap(), Value::Number(number(3.0)));
}

#[test]
fn joins_string_and_number() {
    assert_eq!(value_of("\"a\" + 1").unwrap(), Value::String("a1".to_string()));
    assert_eq!(value_of("1.5 + \"a\"").unwrap(), Value::String("1.5a".to_string()));
}

#[test]
fn repeats_string() {
    assert_eq!(value_of("2 * \"ab\"").unwrap(), Value::String("abab".to_string()));
    assert_eq!(value_of("\"ab\" * 3").unwrap(), Value::String("ababab".to_string()));
}

#[test]
fn division_by_zero_is_an_error() {
    let e = value_of("1 / 0").unwrap_err();
    assert_eq!(e.message(), "Runtime Error: Division by zero.");
    assert_eq!(e.loc(), Loc { line: 1, col: 3, idx: 2 });
}

#[test]
fn comparing_across_types_is_an_error() {
    let e = value_of("true == 1").unwrap_err();
    assert_eq!(e.message(), "Runtime Error: Cannot compare values of different types.");
}

#[test]
fn inner_shadow_does_not_leak() {
    assert_eq!(printed("var x = 5\n{ var x = 10\n log x\n}\n log x"), vec!["10", "5"]);
}

#[test]
fn for_loop_stops_before_the_end() {
    assert_eq!(printed("for i 0..3 {\n log i\n}\n"), vec!["0", "1", "2"]);
}

#[test]
fn assigning_to_an_undeclared_name_fails() {
    let e = failure("y = 1");
    assert_eq!(e.message(), "Undefined variable 'y'.");
    assert_eq!(e.to_text(), "[1:1] Undefined variable 'y'.");
}

#[test]
fn reading_an_unset_variable_fails_otherwise() {
    let e = failure("var x\nlog x\n");
    assert_eq!(e.message(), "Runtime Error: Cannot use variable 'x' before assignment.");
    assert_eq!(e.loc(), Loc { line: 2, col: 5, idx: 10 });
}
