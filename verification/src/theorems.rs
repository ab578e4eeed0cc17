//! What holds across the stages and over whole runs.
//!
//! - A numeric literal goes from source text to value unchanged: the scan
//!   is one number token, the parse one literal, and the machine asks for
//!   the number that exactly this text denotes (`theorem_numeral`).
//! - A name that no scope holds can be neither assigned to nor read, and a
//!   name that was declared without a value is refused with another error
//!   (`theorem_undefined_and_unset`).
//! - Scopes are given back: a run ends, with a value or an error, on as
//!   many scopes as it began (`theorem_scopes_restored`).
//! - The evaluation of an expression comes to an end, whatever the caller
//!   answers, and leaves frames and values as they were but for the value
//!   (`theorem_expression_returns`).
use vstd::prelude::*;
use crate::ast::{Expr, StmtView};
use crate::environment::{defined, lemma_assigned, lemma_defined_lookup, lookup, undefined, Scopes};
use crate::icps::ErrorView;
use crate::interpreter::{
    left, loop_variable, owns_scope, unset, unwound, ActionView, Control, EventView, Frame,
    Machine,
};
use crate::number::Number;
use crate::parser::{
    assignment, chain, chain_rest, declaration, expression, kind_at, operand, parsed, primary,
    program, statement, terminated, terminator_or_else, unary, Level,
};
use crate::scanner::{
    digits_end, lemma_run_end, lex, lexemes, loc_at, origin, scan_from, scan_step,
    scanned, Lexed, LocLexeme, LocToken, Run, Scan,
};
use crate::text::is_digit;
use crate::token::{Lexeme, TokenKind};
use crate::value::ValueView;

verus! {

/// Whether the text is a numeric literal: digits, and at most one `.` with
/// digits behind it.
pub open spec fn numeral(text: Seq<char>) -> bool {
    let k = digits_end(text, 0);
    &&& k >= 1
    &&& (k == text.len() || (text[k] == '.' && k + 1 < text.len() && digits_end(text, k + 1)
        == text.len()))
}

/// The scan of a numeric literal is one number token that carries the
/// literal, and the end-of-input token.
pub proof fn lemma_numeral_scans(text: Seq<char>)
    requires
        numeral(text),
    ensures
        scanned(text) == Ok::<Scan, ErrorView>(
            Scan {
                pos: text.len() as int,
                tokens: seq![
                    LocLexeme { token: Lexeme { kind: TokenKind::Number, text }, loc: origin() },
                    LocLexeme {
                        token: Lexeme::plain(TokenKind::Eof),
                        loc: loc_at(text, text.len() as int),
                    },
                ],
                warnings: Seq::empty(),
            },
        ),
{
    let k = digits_end(text, 0);
    let len = text.len() as int;
    lemma_run_end(text, 0, Run::Digits);
    assert(is_digit(text[0]));
    assert(digits_end(text, 1) == k);
    let st0 = Scan { pos: 0, tokens: Seq::empty(), warnings: Seq::empty() };
    let whole = text.subrange(0, k);
    let first = LocLexeme { token: Lexeme { kind: TokenKind::Number, text: whole }, loc: origin() };
    let st1 = Scan { pos: k, tokens: seq![first], warnings: Seq::empty() };
    assert(lex(text, 0) == Lexed::Emit(Lexeme { kind: TokenKind::Number, text: whole }, k));
    assert(st0.tokens.push(first) =~= seq![first]);
    assert(scan_step(text, st0) == Ok::<Scan, ErrorView>(st1));
    assert(scan_from(text, st0) == scan_from(text, st1));
    let eof = LocLexeme { token: Lexeme::plain(TokenKind::Eof), loc: loc_at(text, len) };
    if k == len {
        assert(whole =~= text);
        assert(st1.tokens.push(eof) =~= seq![first, eof]);
    } else {
        lemma_run_end(text, k + 1, Run::Digits);
        assert(is_digit(text[k + 1]));
        let fraction = text.subrange(k, len);
        assert(lex(text, k) == Lexed::Fraction(fraction, len));
        assert(!whole.contains('.')) by {
            if whole.contains('.') {
                let i = choose|i: int| 0 <= i < whole.len() && whole[i] == '.';
                assert(is_digit(text[i]));
            }
        }
        let joined = LocLexeme { token: Lexeme { kind: TokenKind::Number, text }, loc: origin() };
        assert(whole + fraction =~= text);
        assert(st1.tokens.drop_last().push(joined) =~= seq![joined]);
        let st2 = Scan { pos: len, tokens: seq![joined], warnings: Seq::empty() };
        assert(scan_step(text, st1) == Ok::<Scan, ErrorView>(st2));
        assert(scan_from(text, st1) == scan_from(text, st2));
        assert(st2.tokens.push(eof) =~= seq![joined, eof]);
    }
}

/// A literal that stands before a token that is no operator is a whole
/// chain of every level.
pub proof fn lemma_literal_chain(ts: Seq<LocToken>, level: Level, p: int)
    requires
        0 <= p < ts.len(),
        ts[p].token@.is_value(),
        kind_at(ts, p + 1) == TokenKind::Eof,
    ensures
        chain(ts, level, p) == Ok::<(Expr, nat), ErrorView>((Expr::Literal(ts[p]), 1)),
        operand(ts, level, false, p) == Ok::<(Expr, nat), ErrorView>((Expr::Literal(ts[p]), 1)),
    decreases level.rank(),
{
    let literal = Expr::Literal(ts[p]);
    assert(primary(ts, p) == Ok::<(Expr, nat), ErrorView>((literal, 1)));
    assert(unary(ts, p) == primary(ts, p));
    match level {
        Level::Range => {},
        Level::Factor => lemma_literal_chain(ts, Level::Range, p),
        Level::Term => lemma_literal_chain(ts, Level::Factor, p),
        Level::Comparison => lemma_literal_chain(ts, Level::Term, p),
        Level::Equality => lemma_literal_chain(ts, Level::Comparison, p),
        Level::And => lemma_literal_chain(ts, Level::Equality, p),
        Level::Or => lemma_literal_chain(ts, Level::And, p),
    }
    assert(chain_rest(ts, level, literal, p + 1) == Ok::<(Expr, nat), ErrorView>((literal, 0)));
}

/// One literal token, and the end of input behind it, is a program of one
/// expression statement: the literal.
pub proof fn lemma_literal_parses(ts: Seq<LocToken>)
    requires
        ts.len() == 2,
        ts[0].token@.is_value(),
        ts[1].token.kind() == TokenKind::Eof,
    ensures
        parsed(ts) == Ok::<Seq<StmtView>, ErrorView>(
            seq![StmtView::Expression(Expr::Literal(ts[0]))],
        ),
{
    let literal = Expr::Literal(ts[0]);
    lemma_literal_chain(ts, Level::Or, 0);
    assert(assignment(ts, 0) == Ok::<(Expr, nat), ErrorView>((literal, 1)));
    assert(expression(ts, 0) == assignment(ts, 0));
    assert(terminator_or_else(ts, 1) == Some(0nat));
    assert(terminated(ts, 0) == Ok::<(Expr, nat), ErrorView>((literal, 1)));
    let stmt = StmtView::Expression(literal);
    assert(statement(ts, 0) == Ok::<(StmtView, nat), ErrorView>((stmt, 1)));
    assert(declaration(ts, 0) == statement(ts, 0));
    assert(Seq::<StmtView>::empty().push(stmt) =~= seq![stmt]);
    assert(program(ts, 0, Seq::empty()) == program(ts, 1, seq![stmt]));
}

/// A machine that evaluates a number literal asks its caller for the
/// number that the literal denotes, and the answer is the value.
pub proof fn lemma_number_evaluates<'a>(m: Machine<'a>, expr: &'a Expr, answer: Number)
    requires
        expr matches Expr::Literal(t) && t.token is Number,
    ensures
        m.evaluated(expr) == m.asks(Frame::Number, ActionView::Parse(expr->Literal_0.token@.text)),
        m.evaluated(expr).0.replied(EventView::Number(answer)) == m.yields(
            ValueView::Number(answer),
        ),
{
    let waiting = m.evaluated(expr).0;
    assert(waiting.frames.drop_last() =~= m.frames);
}

/// From source text to value: the scan of a numeric literal is one number
/// token with the literal's text, the parse of the tokens is one
/// expression statement that holds the token, and the machine that
/// evaluates it asks for the number that exactly this text denotes and
/// takes the answer as the value.
pub proof fn theorem_numeral<'a>(
    text: Seq<char>,
    ts: Seq<LocToken>,
    expr: &'a Expr,
    m: Machine<'a>,
    answer: Number,
)
    requires
        numeral(text),
        scanned(text) matches Ok(end) && lexemes(ts) == end.tokens,
        *expr == Expr::Literal(ts[0]),
    ensures
        ts.len() == 2,
        parsed(ts) == Ok::<Seq<StmtView>, ErrorView>(seq![StmtView::Expression(*expr)]),
        m.evaluated(expr) == m.asks(Frame::Number, ActionView::Parse(text)),
        m.evaluated(expr).0.replied(EventView::Number(answer)) == m.yields(
            ValueView::Number(answer),
        ),
{
    lemma_numeral_scans(text);
    let end = scanned(text)->Ok_0;
    assert(lexemes(ts).len() == 2);
    assert(lexemes(ts)[0] == ts[0]@);
    assert(lexemes(ts)[1] == ts[1]@);
    lemma_literal_parses(ts);
    lemma_number_evaluates(m, expr, answer);
}

/// The number of frames that own a scope.
pub open spec fn owned(frames: Seq<Frame>) -> nat
    decreases frames.len(),
{
    if frames.len() == 0 {
        0
    } else {
        owned(frames.drop_last()) + if owns_scope(frames.last()) {
            1nat
        } else {
            0nat
        }
    }
}

/// Whether the machine holds `base` scopes besides those that its frames
/// own, and no frame where nothing is under way.
pub open spec fn balanced(m: Machine, base: nat) -> bool {
    &&& base >= 1
    &&& m.env.len() == base + owned(m.frames)
    &&& (m.control is Idle ==> m.frames.len() == 0)
}

/// One more frame owns one more scope, or none.
pub proof fn lemma_owned_push(frames: Seq<Frame>, frame: Frame)
    ensures
        owned(frames.push(frame)) == owned(frames) + if owns_scope(frame) {
            1nat
        } else {
            0nat
        },
{
    assert(frames.push(frame).drop_last() =~= frames);
}

/// Unwinding gives up exactly the scopes that the frames own.
pub proof fn lemma_unwound_len(env: Scopes, frames: Seq<Frame>)
    requires
        env.len() >= 1 + owned(frames),
    ensures
        unwound(env, frames).len() == env.len() - owned(frames),
    decreases frames.len(),
{
    if frames.len() > 0 {
        if owns_scope(frames.last()) {
            lemma_unwound_len(left(env), frames.drop_last());
        } else {
            lemma_unwound_len(env, frames.drop_last());
        }
    }
}

/// A machine that fails is left with its `base` scopes and no frame.
pub proof fn lemma_fails_balanced(m: Machine, error: ErrorView, base: nat)
    requires
        balanced(m, base),
    ensures
        balanced(m.fails(error).0, base),
        m.fails(error).0.frames.len() == 0,
{
    lemma_unwound_len(m.env, m.frames);
}

/// Beginning to evaluate an expression keeps the balance.
pub proof fn lemma_evaluated_balanced<'a>(m: Machine<'a>, expr: &'a Expr, base: nat)
    requires
        balanced(m, base),
    ensures
        balanced(m.evaluated(expr).0, base),
        m.evaluated(expr).1 is Done ==> m.evaluated(expr).0.frames.len() == 0,
{
    lemma_unwound_len(m.env, m.frames);
    match expr {
        Expr::Literal(_) => {
            lemma_owned_push(m.frames, Frame::Number);
        },
        Expr::Unary(op, _) => {
            lemma_owned_push(m.frames, Frame::Unary(op));
        },
        Expr::Binary(_, op, r) => {
            lemma_owned_push(m.frames, Frame::BinaryRight(op, &**r));
        },
        Expr::Assign(t, _) => {
            lemma_owned_push(m.frames, Frame::Assign(t));
        },
        Expr::Logical(_, op, r) => {
            lemma_owned_push(m.frames, Frame::LogicalRight(op, &**r));
        },
        Expr::Grouping(_) => {},
        Expr::Variable(_) => {},
        _ => {
            lemma_owned_push(m.frames, Frame::Warned);
        },
    }
}

/// Beginning to execute a statement keeps the balance.
pub proof fn lemma_executed_balanced<'a>(m: Machine<'a>, stmt: &'a crate::ast::Stmt, base: nat)
    requires
        balanced(m, base),
    ensures
        balanced(m.executed(stmt).0, base),
        m.executed(stmt).1 is Done ==> m.executed(stmt).0.frames.len() == 0,
{
    lemma_unwound_len(m.env, m.frames);
    match stmt {
        crate::ast::Stmt::Log(_) => {
            lemma_owned_push(m.frames, Frame::Log);
        },
        crate::ast::Stmt::Declaration(name, _) => {
            lemma_owned_push(m.frames, Frame::Declare(name));
        },
        crate::ast::Stmt::Block(stmts) => {
            lemma_owned_push(m.frames, Frame::Block(stmts, 0));
        },
        crate::ast::Stmt::If(c, t, e) => {
            lemma_owned_push(m.frames, Frame::If(&**c, &**t, e));
        },
        crate::ast::Stmt::While(c, body) => {
            lemma_owned_push(m.frames, Frame::WhileCondition(&**c, &**body));
        },
        crate::ast::Stmt::For(name, iterable, body) => {
            lemma_owned_push(m.frames, Frame::ForRange(name, &**iterable, &**body));
        },
        _ => {},
    }
}

/// Handing a value to the top frame keeps the balance.
pub proof fn lemma_resumed_balanced<'a>(m: Machine<'a>, base: nat)
    requires
        balanced(m, base),
    ensures
        balanced(m.resumed().0, base),
        m.resumed().1 is Done ==> m.resumed().0.frames.len() == 0,
{
    lemma_unwound_len(m.env, m.frames);
    if m.frames.len() > 0 {
        let under = m.unframe();
        let rest = under.pop();
        let value = m.top();
        lemma_unwound_len(under.env, under.frames);
        match m.frames.last() {
            Frame::BinaryRight(op, _) => {
                lemma_owned_push(under.frames, Frame::BinaryApply(op));
            },
            Frame::BinaryApply(_) => {
                lemma_owned_push(under.frames, Frame::Number);
                lemma_owned_push(under.frames, Frame::Concat(true));
                lemma_owned_push(under.frames, Frame::Concat(false));
            },
            Frame::LogicalRight(op, _) => {
                lemma_owned_push(under.frames, Frame::LogicalApply(op, value.truthy()));
            },
            Frame::Assign(name) => {
                lemma_assigned(under.env, name@.token.display(), value);
            },
            Frame::Log => {
                lemma_owned_push(under.frames, Frame::LogShown);
                lemma_owned_push(under.frames, Frame::LogRangeStart);
                lemma_owned_push(under.frames, Frame::Printed);
            },
            Frame::Block(stmts, next) => {
                lemma_owned_push(under.frames, Frame::Block(stmts, (next + 1) as usize));
            },
            Frame::Program(stmts, next) => {
                lemma_owned_push(under.frames, Frame::Program(stmts, (next + 1) as usize));
            },
            Frame::WhileCondition(c, body) => {
                lemma_owned_push(under.frames, Frame::WhileBody(c, body));
            },
            Frame::WhileBody(c, body) => {
                lemma_owned_push(under.frames, Frame::WhileCondition(c, body));
            },
            Frame::ForRange(name, iterable, body) => {
                match value {
                    ValueView::Range(_, end) => {
                        lemma_owned_push(under.frames, Frame::ForBody(name, iterable, body, end));
                    },
                    _ => {},
                }
            },
            Frame::ForBody(name, iterable, body, end) => {
                lemma_owned_push(under.frames, Frame::ForStep(name, iterable, body, end));
            },
            _ => {},
        }
    }
}

/// Taking the caller's answer keeps the balance.
pub proof fn lemma_replied_balanced<'a>(m: Machine<'a>, event: EventView, base: nat)
    requires
        balanced(m, base),
    ensures
        balanced(m.replied(event).0, base),
        m.replied(event).1 is Done ==> m.replied(event).0.frames.len() == 0,
{
    lemma_unwound_len(m.env, m.frames);
    if m.frames.len() > 0 {
        let under = m.unframe();
        lemma_owned_push(under.frames, Frame::Printed);
        lemma_owned_push(under.frames, Frame::LogRangeEnd);
        match m.frames.last() {
            Frame::ForStep(name, iterable, body, end) => {
                lemma_owned_push(under.frames, Frame::ForBody(name, iterable, body, end));
                match event {
                    EventView::Number(n) => {
                        lemma_assigned(
                            under.env,
                            loop_variable(name, iterable).token.display(),
                            ValueView::Number(n),
                        );
                    },
                    _ => {},
                }
            },
            _ => {},
        }
    }
}

/// Scopes are given back: whatever a step does, the machine holds the
/// scopes that it held before the run besides those that its frames own.
/// When the run is over, with a value or with an error, no frame is left,
/// and the environment has as many scopes as before the run.
pub proof fn theorem_scopes_restored<'a>(m: Machine<'a>, event: EventView, base: nat)
    requires
        balanced(m, base),
    ensures
        balanced(m.stepped(event).0, base),
        m.stepped(event).1 is Done ==> m.stepped(event).0.env.len() == base,
{
    match m.control {
        Control::Idle => {},
        Control::Evaluate(expr) => lemma_evaluated_balanced(m, expr, base),
        Control::Execute(stmt) => lemma_executed_balanced(m, stmt, base),
        Control::Return => lemma_resumed_balanced(m, base),
        Control::Wait => lemma_replied_balanced(m, event, base),
    }
}

/// A program that is loaded starts balanced on the scopes that the
/// machine held besides those of its frames.
pub proof fn lemma_loaded_balanced<'a>(m: Machine<'a>, stmts: &'a Vec<crate::ast::Stmt>, base: nat)
    requires
        balanced(m, base),
    ensures
        balanced(m.loaded(stmts), base),
{
    lemma_unwound_len(m.env, m.frames);
    lemma_owned_push(Seq::empty(), Frame::Program(stmts, 0));
    assert(Seq::<Frame>::empty().push(Frame::Program(stmts, 0)) =~= seq![
        Frame::Program(stmts, 0),
    ]);
}

/// A name that no scope holds cannot be assigned to and cannot be read:
/// both end the run with the error of an undefined variable. A name that
/// was declared without a value can be read no more, but the error is
/// another one: that of a variable used before assignment.
pub proof fn theorem_undefined_and_unset<'a>(m: Machine<'a>, name: &'a LocToken, expr: &'a Expr)
    requires
        *expr == Expr::Variable(*name),
    ensures
        lookup(m.env, name@.token.display()) is None ==> m.evaluated(expr) == m.fails(
            undefined(name@),
        ),
        lookup(m.env, name@.token.display()) is None && m.frames.len() > 0 && m.frames.last()
            == Frame::Assign(name) ==> m.resumed() == m.unframe().fails(undefined(name@)),
        lookup(m.env, name@.token.display()) == Some(ValueView::Null) ==> m.evaluated(expr)
            == m.fails(unset(name@)),
        lookup(
            defined(m.env, name@.token.display(), ValueView::Null),
            name@.token.display(),
        ) == Some(ValueView::Null),
        unset(name@) != undefined(name@),
{
    lemma_defined_lookup(m.env, name@.token.display(), ValueView::Null);
    reveal_strlit("Undefined variable '");
    reveal_strlit("Runtime Error: Cannot use variable '");
    let text = name@.token.display();
    assert(undefined(name@).message[0] == 'U');
    assert(unset(name@).message[0] == 'R');
}

/// The machine after `n` steps from `m`; the step with the number `k`,
/// counted from `from`, takes the event `events(k)`.
pub open spec fn after_steps<'a>(
    m: Machine<'a>,
    events: spec_fn(nat) -> EventView,
    from: nat,
    n: nat,
) -> Machine<'a>
    decreases n,
{
    if n == 0 {
        m
    } else {
        after_steps(m.stepped(events(from)).0, events, from + 1, (n - 1) as nat)
    }
}

/// Steps add up.
pub proof fn lemma_after_steps_add<'a>(
    m: Machine<'a>,
    events: spec_fn(nat) -> EventView,
    from: nat,
    a: nat,
    b: nat,
)
    ensures
        after_steps(m, events, from, a + b) == after_steps(
            after_steps(m, events, from, a),
            events,
            from + a,
            b,
        ),
    decreases a,
{
    if a > 0 {
        lemma_after_steps_add(m.stepped(events(from)).0, events, from + 1, (a - 1) as nat, b);
    }
}

/// A bound on the steps that the evaluation of an expression takes.
pub open spec fn cost(expr: &Expr) -> nat
    decreases expr,
{
    match expr {
        Expr::Grouping(e) => cost(&**e) + 1,
        Expr::Unary(_, e) => cost(&**e) + 2,
        Expr::Binary(l, _, r) => cost(&**l) + cost(&**r) + 4,
        Expr::Logical(l, _, r) => cost(&**l) + cost(&**r) + 3,
        Expr::Assign(_, e) => cost(&**e) + 2,
        Expr::Variable(_) => 1,
        _ => 2,
    }
}

/// Whether `end` is `m` with the value of an expression on top: the
/// frames, the values below and the number of scopes are as they were,
/// and the value is on its way to the top frame.
pub open spec fn returned(m: Machine, end: Machine) -> bool {
    &&& end.control is Return
    &&& end.frames == m.frames
    &&& end.values.len() == m.values.len() + 1
    &&& end.values.drop_last() == m.values
    &&& end.env.len() == m.env.len()
}

/// Whether `end` is a machine whose run was given up.
pub open spec fn given_up(end: Machine) -> bool {
    end.control is Idle && end.frames.len() == 0 && end.values.len() == 0
}

/// One more step is a step from where the steps before have led.
pub proof fn lemma_one_more_step<'a>(
    m: Machine<'a>,
    events: spec_fn(nat) -> EventView,
    from: nat,
    n: nat,
)
    ensures
        after_steps(m, events, from, n + 1) == after_steps(m, events, from, n).stepped(
            events(from + n),
        ).0,
{
    lemma_after_steps_add(m, events, from, n, 1);
    let mid = after_steps(m, events, from, n);
    assert(after_steps(mid, events, from + n, 1) == after_steps(
        mid.stepped(events(from + n)).0,
        events,
        from + n + 1,
        0,
    ));
}

/// Whether `end` is `m` below `frame`, with `extra` values more.
pub open spec fn above<'a>(m: Machine<'a>, end: Machine<'a>, frame: Frame<'a>, extra: nat) -> bool {
    &&& end.frames == m.frames.push(frame)
    &&& end.values.len() == m.values.len() + extra
    &&& end.values.take(m.values.len() as int) == m.values
    &&& end.env.len() == m.env.len()
}

/// Whether the machine is as `m` was, and waits for the caller's answer
/// that gives the value of an expression.
pub open spec fn waits<'a>(m: Machine<'a>, end: Machine<'a>) -> bool {
    &&& end.control is Wait
    &&& (above(m, end, Frame::Number, 0) || above(m, end, Frame::Warned, 0) || ((above(
        m,
        end,
        Frame::Concat(true),
        1,
    ) || above(m, end, Frame::Concat(false), 1)) && end.values.last() is String))
}

/// The answer to a machine that waits for the value of an expression
/// gives the value, or the run is given up.
pub proof fn lemma_waiting_replied<'a>(m: Machine<'a>, end: Machine<'a>, event: EventView)
    requires
        waits(m, end),
    ensures
        given_up(end.replied(event).0) || returned(m, end.replied(event).0),
{
    let under = end.unframe();
    assert(under.frames =~= m.frames);
    assert(end.values.take(m.values.len() as int) =~= end.values.subrange(
        0,
        m.values.len() as int,
    ));
    if end.values.len() == m.values.len() {
        assert(end.values =~= m.values);
        assert(forall|v: ValueView| #[trigger] m.values.push(v).drop_last() =~= m.values);
    } else {
        assert(end.values.drop_last() =~= m.values);
        assert(under.pop().values =~= m.values);
        assert(forall|v: ValueView| #[trigger] m.values.push(v).drop_last() =~= m.values);
    }
}

/// The first step of an evaluation: the value is there, or the run is
/// given up, or the machine waits for the value, or an operand is next
/// below a frame of the expression.
pub proof fn lemma_evaluated<'a>(m: Machine<'a>, expr: &'a Expr)
    ensures
        ({
            let next = m.evaluated(expr).0;
            match expr {
                Expr::Grouping(e) => next == (Machine { control: Control::Evaluate(&**e), ..m }),
                Expr::Unary(op, e) => next.control == Control::Evaluate(&**e) && above(
                    m,
                    next,
                    Frame::Unary(op),
                    0,
                ),
                Expr::Binary(l, op, r) => next.control == Control::Evaluate(&**l) && above(
                    m,
                    next,
                    Frame::BinaryRight(op, &**r),
                    0,
                ),
                Expr::Logical(l, op, r) => next.control == Control::Evaluate(&**l) && above(
                    m,
                    next,
                    Frame::LogicalRight(op, &**r),
                    0,
                ),
                Expr::Assign(t, e) => next.control == Control::Evaluate(&**e) && above(
                    m,
                    next,
                    Frame::Assign(t),
                    0,
                ),
                Expr::Variable(_) => given_up(next) || returned(m, next),
                _ => given_up(next) || returned(m, next) || waits(m, next),
            }
        }),
{
    assert(m.values.take(m.values.len() as int) =~= m.values);
    assert(forall|v: ValueView| #[trigger] m.values.push(v).drop_last() =~= m.values);
}

/// What `returned` says of a machine that was below a frame.
pub proof fn lemma_returned_above<'a>(
    m: Machine<'a>,
    start: Machine<'a>,
    end: Machine<'a>,
    frame: Frame<'a>,
    extra: nat,
)
    requires
        above(m, start, frame, extra),
        returned(start, end),
    ensures
        above(m, end, frame, extra + 1),
        end.control is Return,
        end.values.drop_last() == start.values,
{
    assert(end.values.take(m.values.len() as int) =~= end.values.drop_last().take(
        m.values.len() as int,
    ));
}

/// The operand of a unary operator has its value: the operator is
/// applied.
pub proof fn lemma_unary_resumed<'a>(m: Machine<'a>, end: Machine<'a>, op: &'a LocToken)
    requires
        end.control is Return,
        above(m, end, Frame::Unary(op), 1),
    ensures
        given_up(end.resumed().0) || returned(m, end.resumed().0),
{
    let rest = end.unframe().pop();
    assert(rest.frames =~= m.frames);
    assert(end.values.drop_last() =~= end.values.take(m.values.len() as int));
    assert(forall|v: ValueView| #[trigger] m.values.push(v).drop_last() =~= m.values);
}

/// The left operand of a binary operator has its value: the right one is
/// next.
pub proof fn lemma_binary_right_resumed<'a>(
    m: Machine<'a>,
    end: Machine<'a>,
    op: &'a LocToken,
    right: &'a Expr,
)
    requires
        end.control is Return,
        above(m, end, Frame::BinaryRight(op, right), 1),
    ensures
        end.resumed().0.control == Control::Evaluate(right),
        above(m, end.resumed().0, Frame::BinaryApply(op), 1),
{
    assert(end.unframe().frames =~= m.frames);
}

/// Both operands of a binary operator have their values: the operator is
/// applied.
pub proof fn lemma_binary_apply_resumed<'a>(m: Machine<'a>, end: Machine<'a>, op: &'a LocToken)
    requires
        end.control is Return,
        above(m, end, Frame::BinaryApply(op), 2),
    ensures
        given_up(end.resumed().0) || returned(m, end.resumed().0) || waits(m, end.resumed().0),
{
    let under = end.unframe();
    let rest = under.pop();
    let base = rest.pop();
    assert(under.frames =~= m.frames);
    assert(end.values.drop_last().drop_last() =~= end.values.take(m.values.len() as int));
    assert(base.values =~= m.values);
    assert(forall|v: ValueView| #[trigger] m.values.push(v).drop_last() =~= m.values);
    assert(forall|v: ValueView| #[trigger]
        m.values.push(v).take(m.values.len() as int) =~= m.values);
    assert(m.values.take(m.values.len() as int) =~= m.values);
    assert(end.resumed() == base.applied(op, rest.top(), end.top()));
    let next = end.resumed().0;
    match crate::interpreter::binary(op.token.kind(), rest.top(), end.top()) {
        crate::interpreter::Applied::Value(v) => {
            assert(returned(m, next));
        },
        crate::interpreter::Applied::Compute(_, _, _) => {
            assert(above(m, next, Frame::Number, 0));
        },
        crate::interpreter::Applied::Concat(_, text, first) => {
            assert(next.values == m.values.push(ValueView::String(text)));
            if first {
                assert(above(m, next, Frame::Concat(true), 1));
            } else {
                assert(above(m, next, Frame::Concat(false), 1));
            }
        },
        crate::interpreter::Applied::Fail(_) => {
            assert(given_up(next));
        },
    }
}

/// The left operand of a logical operator has its value: that settles the
/// result, or the right operand is next.
pub proof fn lemma_logical_right_resumed<'a>(
    m: Machine<'a>,
    end: Machine<'a>,
    op: &'a LocToken,
    right: &'a Expr,
)
    requires
        end.control is Return,
        above(m, end, Frame::LogicalRight(op, right), 1),
    ensures
        returned(m, end.resumed().0) || (end.resumed().0.control == Control::Evaluate(right)
            && exists|truth: bool| above(m, end.resumed().0, Frame::LogicalApply(op, truth), 0)),
{
    let rest = end.unframe().pop();
    assert(rest.frames =~= m.frames);
    assert(end.values.drop_last() =~= end.values.take(m.values.len() as int));
    assert(rest.values =~= m.values);
    assert(forall|v: ValueView| #[trigger] m.values.push(v).drop_last() =~= m.values);
    assert(m.values.take(m.values.len() as int) =~= m.values);
    let next = end.resumed().0;
    if !returned(m, next) {
        assert(above(m, next, Frame::LogicalApply(op, end.top().truthy()), 0));
    }
}

/// Both operands of a logical operator have their values: the operator
/// is applied.
pub proof fn lemma_logical_apply_resumed<'a>(
    m: Machine<'a>,
    end: Machine<'a>,
    op: &'a LocToken,
    truth: bool,
)
    requires
        end.control is Return,
        above(m, end, Frame::LogicalApply(op, truth), 1),
    ensures
        given_up(end.resumed().0) || returned(m, end.resumed().0),
{
    let rest = end.unframe().pop();
    assert(rest.frames =~= m.frames);
    assert(end.values.drop_last() =~= end.values.take(m.values.len() as int));
    assert(forall|v: ValueView| #[trigger] m.values.push(v).drop_last() =~= m.values);
}

/// The value to assign is there: it is assigned and stays as the value of
/// the assignment, or the run is given up.
pub proof fn lemma_assign_resumed<'a>(m: Machine<'a>, end: Machine<'a>, name: &'a LocToken)
    requires
        end.control is Return,
        above(m, end, Frame::Assign(name), 1),
    ensures
        given_up(end.resumed().0) || returned(m, end.resumed().0),
{
    let under = end.unframe();
    assert(under.frames =~= m.frames);
    assert(end.values.drop_last() =~= end.values.take(m.values.len() as int));
    lemma_assigned(under.env, name@.token.display(), end.top());
}

/// A step of a machine that is to evaluate an expression begins the
/// evaluation.
pub proof fn lemma_first_step<'a>(
    m: Machine<'a>,
    expr: &'a Expr,
    events: spec_fn(nat) -> EventView,
    from: nat,
    n: nat,
)
    requires
        m.control == Control::Evaluate(expr),
    ensures
        after_steps(m, events, from, n + 1) == after_steps(
            m.evaluated(expr).0,
            events,
            from + 1,
            n,
        ),
{
}

/// One more step of a machine that hands on a value, or waits.
pub proof fn lemma_next_step<'a>(
    m: Machine<'a>,
    events: spec_fn(nat) -> EventView,
    from: nat,
    n: nat,
)
    ensures
        after_steps(m, events, from, n).control is Return ==> after_steps(m, events, from, n + 1)
            == after_steps(m, events, from, n).resumed().0,
        after_steps(m, events, from, n).control is Wait ==> after_steps(m, events, from, n + 1)
            == after_steps(m, events, from, n).replied(events(from + n)).0,
{
    lemma_one_more_step(m, events, from, n);
}

/// The evaluation of an expression comes to an end, whatever the caller
/// answers: after at most `cost(expr)` steps the run is given up with an
/// error, or the machine is as it was with the value of the expression on
/// top of its values. Frames, the values below and the number of scopes
/// are as before.
pub proof fn theorem_expression_returns<'a>(
    m: Machine<'a>,
    expr: &'a Expr,
    events: spec_fn(nat) -> EventView,
    from: nat,
) -> (n: nat)
    requires
        m.control == Control::Evaluate(expr),
    ensures
        1 <= n <= cost(expr),
        given_up(after_steps(m, events, from, n)) || returned(
            m,
            after_steps(m, events, from, n),
        ),
    decreases expr, 1nat,
{
    match expr {
        Expr::Grouping(_) => lemma_grouping_returns(m, expr, events, from),
        Expr::Unary(_, _) => lemma_unary_returns(m, expr, events, from),
        Expr::Binary(_, _, _) => lemma_binary_returns(m, expr, events, from),
        Expr::Logical(_, _, _) => lemma_logical_returns(m, expr, events, from),
        Expr::Assign(_, _) => lemma_assign_returns(m, expr, events, from),
        _ => lemma_leaf_returns(m, expr, events, from),
    }
}

/// The evaluation of a literal, of a variable, or of a node without a
/// meaning comes to an end.
pub proof fn lemma_leaf_returns<'a>(
    m: Machine<'a>,
    expr: &'a Expr,
    events: spec_fn(nat) -> EventView,
    from: nat,
) -> (n: nat)
    requires
        m.control == Control::Evaluate(expr),
        !(expr is Grouping || expr is Unary || expr is Binary || expr is Logical || expr is Assign),
    ensures
        1 <= n <= cost(expr),
        given_up(after_steps(m, events, from, n)) || returned(
            m,
            after_steps(m, events, from, n),
        ),
{
    let m1 = m.evaluated(expr).0;
    lemma_evaluated(m, expr);
    lemma_first_step(m, expr, events, from, 0);
    assert(after_steps(m, events, from, 1) == m1);
    if given_up(m1) || returned(m, m1) {
        1
    } else {
        lemma_next_step(m, events, from, 1);
        lemma_waiting_replied(m, m1, events(from + 1));
        2
    }
}

/// The evaluation of a grouping comes to an end.
pub proof fn lemma_grouping_returns<'a>(
    m: Machine<'a>,
    expr: &'a Expr,
    events: spec_fn(nat) -> EventView,
    from: nat,
) -> (n: nat)
    requires
        m.control == Control::Evaluate(expr),
        expr is Grouping,
    ensures
        1 <= n <= cost(expr),
        given_up(after_steps(m, events, from, n)) || returned(
            m,
            after_steps(m, events, from, n),
        ),
    decreases expr, 0nat,
{
    let m1 = m.evaluated(expr).0;
    lemma_evaluated(m, expr);
    match expr {
        Expr::Grouping(e) => {
            let k = theorem_expression_returns(m1, &**e, events, from + 1);
            lemma_first_step(m, expr, events, from, k);
            k + 1
        },
        _ => 1,
    }
}

/// The evaluation of a unary operation comes to an end.
pub proof fn lemma_unary_returns<'a>(
    m: Machine<'a>,
    expr: &'a Expr,
    events: spec_fn(nat) -> EventView,
    from: nat,
) -> (n: nat)
    requires
        m.control == Control::Evaluate(expr),
        expr is Unary,
    ensures
        1 <= n <= cost(expr),
        given_up(after_steps(m, events, from, n)) || returned(
            m,
            after_steps(m, events, from, n),
        ),
    decreases expr, 0nat,
{
    let m1 = m.evaluated(expr).0;
    lemma_evaluated(m, expr);
    match expr {
        Expr::Unary(op, e) => {
            let k = theorem_expression_returns(m1, &**e, events, from + 1);
            lemma_first_step(m, expr, events, from, k);
            let end1 = after_steps(m, events, from, k + 1);
            if given_up(end1) {
                k + 1
            } else {
                lemma_returned_above(m, m1, end1, Frame::Unary(op), 0);
                lemma_next_step(m, events, from, k + 1);
                lemma_unary_resumed(m, end1, op);
                k + 2
            }
        },
        _ => 1,
    }
}

/// The evaluation of an assignment comes to an end.
pub proof fn lemma_assign_returns<'a>(
    m: Machine<'a>,
    expr: &'a Expr,
    events: spec_fn(nat) -> EventView,
    from: nat,
) -> (n: nat)
    requires
        m.control == Control::Evaluate(expr),
        expr is Assign,
    ensures
        1 <= n <= cost(expr),
        given_up(after_steps(m, events, from, n)) || returned(
            m,
            after_steps(m, events, from, n),
        ),
    decreases expr, 0nat,
{
    let m1 = m.evaluated(expr).0;
    lemma_evaluated(m, expr);
    match expr {
        Expr::Assign(name, e) => {
            let k = theorem_expression_returns(m1, &**e, events, from + 1);
            lemma_first_step(m, expr, events, from, k);
            let end1 = after_steps(m, events, from, k + 1);
            if given_up(end1) {
                k + 1
            } else {
                lemma_returned_above(m, m1, end1, Frame::Assign(name), 0);
                lemma_next_step(m, events, from, k + 1);
                lemma_assign_resumed(m, end1, name);
                k + 2
            }
        },
        _ => 1,
    }
}

/// The evaluation of a binary operation comes to an end.
pub proof fn lemma_binary_returns<'a>(
    m: Machine<'a>,
    expr: &'a Expr,
    events: spec_fn(nat) -> EventView,
    from: nat,
) -> (n: nat)
    requires
        m.control == Control::Evaluate(expr),
        expr is Binary,
    ensures
        1 <= n <= cost(expr),
        given_up(after_steps(m, events, from, n)) || returned(
            m,
            after_steps(m, events, from, n),
        ),
    decreases expr, 0nat,
{
    let m1 = m.evaluated(expr).0;
    lemma_evaluated(m, expr);
    match expr {
        Expr::Binary(l, op, r) => {
            let k1 = theorem_expression_returns(m1, &**l, events, from + 1);
            lemma_first_step(m, expr, events, from, k1);
            let end1 = after_steps(m, events, from, k1 + 1);
            if given_up(end1) {
                k1 + 1
            } else {
                lemma_returned_above(m, m1, end1, Frame::BinaryRight(op, &**r), 0);
                lemma_next_step(m, events, from, k1 + 1);
                lemma_binary_right_resumed(m, end1, op, &**r);
                let end2 = after_steps(m, events, from, k1 + 2);
                let k2 = theorem_expression_returns(end2, &**r, events, from + k1 + 2);
                lemma_after_steps_add(m, events, from, k1 + 2, k2);
                let end3 = after_steps(m, events, from, k1 + k2 + 2);
                if given_up(end3) {
                    k1 + k2 + 2
                } else {
                    lemma_returned_above(m, end2, end3, Frame::BinaryApply(op), 1);
                    lemma_next_step(m, events, from, k1 + k2 + 2);
                    lemma_binary_apply_resumed(m, end3, op);
                    let end4 = after_steps(m, events, from, k1 + k2 + 3);
                    if given_up(end4) || returned(m, end4) {
                        k1 + k2 + 3
                    } else {
                        lemma_next_step(m, events, from, k1 + k2 + 3);
                        lemma_waiting_replied(m, end4, events(from + k1 + k2 + 3));
                        k1 + k2 + 4
                    }
                }
            }
        },
        _ => 1,
    }
}

/// The evaluation of a logical operation comes to an end.
pub proof fn lemma_logical_returns<'a>(
    m: Machine<'a>,
    expr: &'a Expr,
    events: spec_fn(nat) -> EventView,
    from: nat,
) -> (n: nat)
    requires
        m.control == Control::Evaluate(expr),
        expr is Logical,
    ensures
        1 <= n <= cost(expr),
        given_up(after_steps(m, events, from, n)) || returned(
            m,
            after_steps(m, events, from, n),
        ),
    decreases expr, 0nat,
{
    let m1 = m.evaluated(expr).0;
    lemma_evaluated(m, expr);
    match expr {
        Expr::Logical(l, op, r) => {
            let k1 = theorem_expression_returns(m1, &**l, events, from + 1);
            lemma_first_step(m, expr, events, from, k1);
            let end1 = after_steps(m, events, from, k1 + 1);
            if given_up(end1) {
                k1 + 1
            } else {
                lemma_returned_above(m, m1, end1, Frame::LogicalRight(op, &**r), 0);
                lemma_next_step(m, events, from, k1 + 1);
                lemma_logical_right_resumed(m, end1, op, &**r);
                let end2 = after_steps(m, events, from, k1 + 2);
                if returned(m, end2) {
                    k1 + 2
                } else {
                    let truth = choose|truth: bool|
                        above(m, end2, Frame::LogicalApply(op, truth), 0);
                    let k2 = theorem_expression_returns(end2, &**r, events, from + k1 + 2);
                    lemma_after_steps_add(m, events, from, k1 + 2, k2);
                    let end3 = after_steps(m, events, from, k1 + k2 + 2);
                    if given_up(end3) {
                        k1 + k2 + 2
                    } else {
                        lemma_returned_above(m, end2, end3, Frame::LogicalApply(op, truth), 0);
                        lemma_next_step(m, events, from, k1 + k2 + 2);
                        lemma_logical_apply_resumed(m, end3, op, truth);
                        k1 + k2 + 3
                    }
                }
            }
        },
        _ => 1,
    }
}

} // verus!
