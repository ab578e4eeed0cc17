use icps::ast::{Expr, Stmt};
use icps::icps::{load, Error};
use icps::parser::Parser;
use icps::scanner::{Loc, LocToken, Scanner};
use icps::token::Token;

fn rendered(source: &str) -> Vec<String> {
    load(source).unwrap().statements.iter().map(|s| s.render()).collect()
}

fn refused(source: &str) -> Error {
    let tokens = Scanner::new(source).scan().unwrap();
    let mut parser = Parser::new(&tokens);
    parser.parse().unwrap_err()
}

fn at(line: usize, col: usize, idx: usize) -> Loc {
    Loc { line, col, idx }
}

#[test]
fn product_binds_tighter_than_sum() {
    assert_eq!(rendered("1 + 2 * 3"), vec!["+ 1 * 2 3"]);
    assert_eq!(rendered("1 * 2 + 3"), vec!["+ * 1 2 3"]);
}

#[test]
fn chains_fold_to_the_left() {
    assert_eq!(rendered("1 - 2 - 3"), vec!["- - 1 2 3"]);
    assert_eq!(rendered("8 / 4 / 2"), vec!["/ / 8 4 2"]);
    assert_eq!(rendered("a xor b or c"), vec!["or xor a b c"]);
}

#[test]
fn levels_nest_in_order() {
    assert_eq!(rendered("1 < 2 == true"), vec!["== < 1 2 true"]);
    assert_eq!(rendered("a or b and c"), vec!["or a and b c"]);
    assert_eq!(rendered("a and b == c"), vec!["and a == b c"]);
    assert_eq!(rendered("1 + 2 >= 3 - 4"), vec![">= + 1 2 - 3 4"]);
    assert_eq!(rendered("1..3 * 2"), vec!["* .. 1 3 2"]);
}

#[test]
fn a_range_is_no_right_operand_of_a_product() {
    let e = refused("2 * 1..3");
    assert_eq!(e.message(), "Expected ';' or newline after statement.");
    assert_eq!(e.loc(), at(1, 6, 5));
}

#[test]
fn unary_operators_nest() {
    assert_eq!(rendered("!-x"), vec!["! - x"]);
    assert_eq!(rendered("- - 1"), vec!["- - 1"]);
    assert_eq!(rendered("1 - -2"), vec!["- 1 - 2"]);
}

#[test]
fn one_operator_stands_between_two_operands() {
    let e = refused("1 - + 2");
    assert_eq!(e.message(), "Expected expression, but found '+'.");
    assert_eq!(e.loc(), at(1, 5, 4));
}

#[test]
fn a_grouping_is_kept() {
    assert_eq!(rendered("(1 + 2) * 3"), vec!["* grouping + 1 2 3"]);
    assert_eq!(rendered("((a))"), vec!["grouping grouping a"]);
}

#[test]
fn a_grouping_must_be_closed() {
    let e = refused("(1");
    assert_eq!(e.message(), "Expected closing ')' after statement.");
    assert_eq!(e.loc(), at(1, 3, 2));
}

#[test]
fn assignment_nests_to_the_right() {
    assert_eq!(rendered("a = b = 1"), vec!["a = b = 1"]);
    assert_eq!(rendered("a = 1 + 2"), vec!["a = + 1 2"]);
}

#[test]
fn only_a_variable_can_be_assigned_to() {
    let e = refused("1 = 2");
    assert_eq!(e.message(), "Invalid assignment target.");
    assert_eq!(e.loc(), at(1, 3, 2));
    assert_eq!(refused("(a) = 1").message(), "Invalid assignment target.");
    assert_eq!(refused("a + b = 1").message(), "Invalid assignment target.");
}

#[test]
fn an_expression_is_expected() {
    let e = refused("+");
    assert_eq!(e.message(), "Expected expression, but found '+'.");
    assert_eq!(e.loc(), at(1, 1, 0));
    let e = refused("(");
    assert_eq!(e.message(), "Expected expression, but found 'EOF'.");
    assert_eq!(e.loc(), at(1, 2, 1));
    assert_eq!(refused("1 +\n2").message(), "Expected expression, but found '\\n'.");
}

#[test]
fn declarations() {
    assert_eq!(rendered("var x = 1\nvar y\nvar z = x + y;"), vec!["var x = 1", "var y = ", "var z = + x y"]);
    let e = refused("var 1");
    assert_eq!(e.message(), "Expected closing '' after statement.");
    assert_eq!(e.loc(), at(1, 5, 4));
    assert_eq!(refused("var x = 1 2").message(), "Expected ';' or newline after statement.");
}

#[test]
fn statements_end_at_a_terminator() {
    assert_eq!(rendered("log 1"), vec!["log 1"]);
    assert_eq!(rendered("log 1;"), vec!["log 1"]);
    assert_eq!(rendered("log 1;\nlog 2\n"), vec!["log 1", "log 2"]);
    assert_eq!(rendered(";;\n\n 1 \n\n;2"), vec!["1", "2"]);
    let e = refused("log 1 2");
    assert_eq!(e.message(), "Expected ';' or newline after statement.");
    assert_eq!(e.loc(), at(1, 7, 6));
    assert_eq!(refused("1 2").message(), "Expected ';' or newline after statement.");
}

#[test]
fn blocks() {
    assert_eq!(rendered("{\n\n var x = 1\n log x\n}"), vec!["block [ var x = 1, log x ]"]);
    assert_eq!(rendered("{ }"), vec!["block [  ]"]);
    assert_eq!(rendered("{ a;\n b;\n}"), vec!["block [ a, b ]"]);
    assert_eq!(rendered("{\n{\n}\n}"), vec!["block [ block [  ] ]"]);
    let e = refused("{ log 1 }");
    assert_eq!(e.message(), "Expected ';' or newline after statement.");
    assert_eq!(e.loc(), at(1, 9, 8));
    let e = refused("{ log 1\n");
    assert_eq!(e.message(), "Expected closing '}' after statement.");
    assert_eq!(e.loc(), at(2, 1, 8));
    assert_eq!(rendered("{ a\n\n b\n\n}"), vec!["block [ a, b ]"]);
    assert_eq!(rendered("{\n while a {\n b\n }\n c\n}"), vec!["block [ while a block [ b ], c ]"]);
    assert_eq!(refused("{ a;; }").message(), "Expected expression, but found ';'.");
}

#[test]
fn conditionals() {
    assert_eq!(rendered("if a log 1 else log 2"), vec!["if a then log 1 else log 2"]);
    assert_eq!(rendered("if a\n log 1\nelse\n log 2\n"), vec!["if a then log 1 else log 2"]);
    assert_eq!(rendered("if a log 1\nlog 2"), vec!["if a then log 1 else Nothing", "log 2"]);
    assert_eq!(
        rendered("if a {\n b\n} else if c {\n d\n}"),
        vec!["if a then block [ b ] else if c then block [ d ] else Nothing"]
    );
}

#[test]
fn loops() {
    assert_eq!(rendered("while a a = 1\n"), vec!["while a a = 1"]);
    assert_eq!(rendered("while i < 3\n{\n i = i + 1\n}"), vec!["while < i 3 block [ i = + i 1 ]"]);
    assert_eq!(rendered("for i 0..3 log i\n"), vec!["for i .. 0 3 log i"]);
    assert_eq!(rendered("for 0..3\n log 1"), vec!["for .. 0 3 log 1"]);
    assert_eq!(rendered("for i in 0..3"), vec!["for i in .. 0 3"]);
    assert_eq!(refused("for a..b log a").message(), "Expected expression, but found '..'.");
}

#[test]
fn parsing_stops_at_the_first_error() {
    let e = refused("log 1\nlog )\nlog (\n");
    assert_eq!(e.message(), "Expected expression, but found ')'.");
    assert_eq!(e.loc(), at(2, 5, 10));
}

#[test]
fn tokens_without_an_end_are_read_to_their_end() {
    let tokens = vec![
        LocToken { token: Token::Number("1".to_string()), loc: at(1, 1, 0) },
        LocToken { token: Token::Plus, loc: at(1, 3, 2) },
        LocToken { token: Token::Number("2".to_string()), loc: at(1, 5, 4) },
    ];
    let mut parser = Parser::new(&tokens);
    let statements = parser.parse().unwrap();
    assert_eq!(statements.len(), 1);
    assert_eq!(statements[0].render(), "+ 1 2");
    let tokens = vec![LocToken { token: Token::Plus, loc: at(1, 3, 2) }];
    let e = Parser::new(&tokens).parse().unwrap_err();
    assert_eq!(e.message(), "Expected expression, but found '+'.");
    let tokens = vec![LocToken { token: Token::LeftParen, loc: at(4, 3, 2) }];
    let e = Parser::new(&tokens).parse().unwrap_err();
    assert_eq!(e.loc(), at(4, 3, 2));
    let tokens: Vec<LocToken> = Vec::new();
    assert!(Parser::new(&tokens).parse().unwrap().is_empty());
}

#[test]
fn nodes_hold_their_tokens() {
    let program = load("x = 12.50").unwrap();
    match &program.statements[0] {
        Stmt::Expression(e) => match &**e {
            Expr::Assign(name, value) => {
                assert_eq!(name.loc, at(1, 1, 0));
                assert!(matches!(&name.token, Token::Identifier(s) if s == "x"));
                assert!(matches!(&**value, Expr::Literal(t) if matches!(&t.token, Token::Number(s) if s == "12.50")));
                assert_eq!(value.loc(), at(1, 5, 4));
                assert_eq!(e.loc(), at(1, 1, 0));
            }
            other => panic!("{:?}", other),
        },
        other => panic!("{:?}", other),
    }
}

#[test]
fn an_expression_is_cited_at_its_operator() {
    let program = load("(1 + 2)\n!x\n").unwrap();
    let locs: Vec<Loc> = program
        .statements
        .iter()
        .map(|s| match s {
            Stmt::Expression(e) => e.loc(),
            other => panic!("{:?}", other),
        })
        .collect();
    assert_eq!(locs, vec![at(1, 4, 3), at(2, 1, 8)]);
    let callee = Expr::Variable(LocToken { token: Token::Identifier("f".to_string()), loc: at(3, 3, 3) });
    assert_eq!(Expr::Call(Box::new(callee), Vec::new()).loc(), at(3, 3, 3));
}

#[test]
fn every_node_is_written_out() {
    let name = |s: &str| LocToken { token: Token::Identifier(s.to_string()), loc: at(1, 1, 0) };
    let var = |s: &str| Expr::Variable(name(s));
    assert_eq!(Expr::Call(Box::new(var("f")), vec![var("a"), var("b")]).render(), "Call f (a, b)");
    assert_eq!(Expr::Call(Box::new(var("f")), vec![]).render(), "Call f ()");
    assert_eq!(Expr::Get(Box::new(var("o")), name("p")).render(), "o.p");
    assert_eq!(Expr::SetProperty(Box::new(var("o")), name("p"), Box::new(var("v"))).render(), "o.p = v");
    assert_eq!(Expr::Super(name("m")).render(), "super.m");
    assert_eq!(Expr::This(name("m")).render(), "this.m");
    assert_eq!(
        Expr::Logical(
            Box::new(var("a")),
            LocToken { token: Token::And, loc: at(1, 1, 0) },
            Box::new(var("b"))
        )
        .render(),
        "and a b"
    );
    assert_eq!(Stmt::Return(None).render(), "return ");
    assert_eq!(Stmt::Return(Some(var("a"))).render(), "return a");
    assert_eq!(
        Stmt::Class(name("C"), Box::new(var("B")), vec![Box::new(Stmt::Return(None)), Box::new(Stmt::Log(Box::new(var("x"))))]).render(),
        "class C B return , log x"
    );
    assert_eq!(
        Stmt::Function(name("f"), vec![name("a"), name("b")], vec![Box::new(Stmt::Return(Some(var("a"))))]).render(),
        "fn f (a, b) [ return a ]"
    );
}

#[test]
fn a_number_literal_survives_rendering() {
    for source in ["12.50", "0", "007", "3.14159", "123456789012345678901234567890.5"] {
        let first = load(source).unwrap();
        let written = first.statements[0].render();
        assert_eq!(written, source);
        let second = load(&written).unwrap();
        assert_eq!(second.statements.len(), 1);
        match (&first.statements[0], &second.statements[0]) {
            (Stmt::Expression(a), Stmt::Expression(b)) => match (&**a, &**b) {
                (Expr::Literal(x), Expr::Literal(y)) => {
                    assert_eq!(x.token.text(), y.token.text());
                    assert!(matches!(&y.token, Token::Number(s) if s == source));
                }
                other => panic!("{:?}", other),
            },
            other => panic!("{:?}", other),
        }
    }
}

#[test]
fn unary_chains_survive_rendering() {
    for source in ["- 1", "! - x", "- - - 2.5"] {
        let first = load(source).unwrap();
        let written = first.statements[0].render();
        assert_eq!(written, source);
        assert_eq!(load(&written).unwrap().statements[0].render(), written);
    }
}

#[test]
fn words_survive_rendering() {
    for source in ["true", "false", "null", "x", "whale2", "! true", "- count"] {
        let first = load(source).unwrap();
        let written = first.statements[0].render();
        assert_eq!(written, source);
        let second = load(&written).unwrap();
        assert_eq!(second.statements.len(), 1);
        assert_eq!(format!("{:?}", second.statements[0]), format!("{:?}", first.statements[0]));
    }
}

#[test]
fn other_expressions_do_not_survive_rendering() {
    let sum = load("1 + 2").unwrap().statements[0].render();
    assert_eq!(sum, "+ 1 2");
    assert_eq!(load(&sum).unwrap_err().message(), "Expected expression, but found '+'.");
    let grouping = load("(1)").unwrap().statements[0].render();
    assert_eq!(grouping, "grouping 1");
    assert_eq!(load(&grouping).unwrap_err().message(), "Expected ';' or newline after statement.");
    let string = load("\"a\"").unwrap().statements[0].render();
    assert_eq!(string, "a");
    assert_eq!(format!("{:?}", load(&string).unwrap().statements[0]).contains("Variable"), true);
}
