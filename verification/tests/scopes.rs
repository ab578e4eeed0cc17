use icps::environment::{Environment, Scope};
use icps::number::Number;
use icps::scanner::{Loc, LocToken};
use icps::token::Token;
use icps::value::Value;

fn name(s: &str) -> LocToken {
    LocToken { token: Token::Identifier(s.to_string()), loc: Loc { line: 3, col: 4, idx: 20 } }
}

fn num(x: f64) -> Value {
    Value::Number(Number::from_bits(x.to_bits()))
}

#[test]
fn a_defined_name_is_read() {
    let mut env = Environment::new();
    assert_eq!(env.depth(), 1);
    env.define(&name("x"), num(1.0));
    assert_eq!(env.get(&name("x")).unwrap(), num(1.0));
}

#[test]
fn defining_again_overwrites() {
    let mut env = Environment::new();
    env.define(&name("x"), num(1.0));
    env.define(&name("y"), num(5.0));
    env.define(&name("x"), Value::String("s".to_string()));
    assert_eq!(env.get(&name("x")).unwrap(), Value::String("s".to_string()));
    assert_eq!(env.get(&name("y")).unwrap(), num(5.0));
    assert_eq!(env.scopes[0].bindings.len(), 2);
}

#[test]
fn an_unknown_name_is_undefined() {
    let mut env = Environment::new();
    let e = env.get(&name("x")).unwrap_err();
    assert_eq!(e.message(), "Undefined variable 'x'.");
    assert_eq!(e.loc(), Loc { line: 3, col: 4, idx: 20 });
    let e = env.assign(name("x"), num(1.0)).unwrap_err();
    assert_eq!(e.to_text(), "[3:4] Undefined variable 'x'.");
    assert!(env.get(&name("x")).is_err());
}

#[test]
fn defining_touches_the_innermost_scope_only() {
    let mut env = Environment::new();
    env.define(&name("x"), num(5.0));
    let mut env = Environment::new_local(env);
    assert_eq!(env.depth(), 2);
    env.define(&name("x"), num(10.0));
    assert_eq!(env.get(&name("x")).unwrap(), num(10.0));
    env.pop_scope();
    assert_eq!(env.get(&name("x")).unwrap(), num(5.0));
}

#[test]
fn assigning_reaches_the_first_scope_that_holds_the_name() {
    let mut env = Environment::new();
    env.define(&name("x"), num(1.0));
    env.define(&name("y"), num(2.0));
    env.push_scope();
    env.define(&name("y"), num(3.0));
    env.push_scope();
    env.assign(name("x"), num(10.0)).unwrap();
    env.assign(name("y"), num(30.0)).unwrap();
    assert_eq!(env.get(&name("y")).unwrap(), num(30.0));
    env.pop_scope();
    assert_eq!(env.get(&name("y")).unwrap(), num(30.0));
    env.pop_scope();
    assert_eq!(env.get(&name("y")).unwrap(), num(2.0));
    assert_eq!(env.get(&name("x")).unwrap(), num(10.0));
}

#[test]
fn the_outermost_scope_stays() {
    let mut env = Environment::new();
    env.define(&name("x"), num(1.0));
    env.pop_scope();
    env.pop_scope();
    assert_eq!(env.depth(), 1);
    assert_eq!(env.get(&name("x")).unwrap(), num(1.0));
}

#[test]
fn a_name_is_the_text_of_its_token() {
    let mut env = Environment::new();
    env.define(&LocToken { token: Token::Plus, loc: Loc { line: 1, col: 1, idx: 0 } }, num(1.0));
    assert_eq!(env.get(&name("+")).unwrap(), num(1.0));
}

#[test]
fn a_scope_is_a_map() {
    let mut scope = Scope::new();
    assert!(!scope.holds(&"a".to_string()));
    scope.insert("a".to_string(), num(1.0));
    scope.insert("b".to_string(), num(2.0));
    scope.insert("a".to_string(), num(3.0));
    assert!(scope.holds(&"a".to_string()));
    assert_eq!(scope.value(&"a".to_string()), Some(num(3.0)));
    assert_eq!(scope.value(&"b".to_string()), Some(num(2.0)));
    assert_eq!(scope.value(&"c".to_string()), None);
}
