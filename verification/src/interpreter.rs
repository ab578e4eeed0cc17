//! The evaluator: a machine that walks the syntax tree one step at a time.
//!
//! The machine holds the environment, a stack of frames (what remains to
//! be done with the value of what is being run), a stack of values, and
//! its control: the node to run next, a value on its way to the top frame,
//! or a wait for its caller.
//!
//! What the machine cannot do, it asks of its caller: to add, subtract,
//! multiply or divide two numbers, to read a numeric literal, to write a
//! number out, and to print a line. Each `step` returns one `Action`; the
//! caller does what the action asks and hands the answer to the next
//! `step` as an `Event`. The machine never loops on its own: a program
//! that runs forever is a caller that steps forever.
use vstd::prelude::*;
use crate::ast::{Expr, Stmt};
use crate::environment::{
    assigned, defined, lemma_assigned, lookup, undefined, Environment, Scopes,
};
use crate::icps::{Error, ErrorView};
use crate::number::{Number, ONE_BITS};
use crate::scanner::{Loc, LocLexeme, LocToken};
use crate::token::{Lexeme, Token, TokenKind};
use crate::value::{Value, ValueView};

verus! {

/// The arithmetic that is asked of the caller.
#[derive(Clone, Copy, Debug, PartialEq, Eq, Structural)]
pub enum Arith {
    Add,
    Subtract,
    Multiply,
    Divide,
}

/// What the machine asks of its caller.
#[derive(Debug)]
pub enum Action {
    /// Nothing: step again.
    Continue,
    /// The number that the literal denotes, as `Event::Number`.
    Parse(String),
    /// The text of the number, as `Event::Text`.
    Show(Number),
    /// The result of the operation on the two numbers, as `Event::Number`.
    Compute(Arith, Number, Number),
    /// To print the line; then any event.
    Print(String),
    /// Nothing more: the run is over, with this value or this error.
    Done(Result<Value, Error>),
}

/// An action as a contract sees it.
pub enum ActionView {
    Continue,
    Parse(Seq<char>),
    Show(Number),
    Compute(Arith, Number, Number),
    Print(Seq<char>),
    Done(Result<ValueView, ErrorView>),
}

impl View for Action {
    type V = ActionView;

    open spec fn view(&self) -> ActionView {
        match self {
            Action::Continue => ActionView::Continue,
            Action::Parse(s) => ActionView::Parse(s@),
            Action::Show(n) => ActionView::Show(*n),
            Action::Compute(a, x, y) => ActionView::Compute(*a, *x, *y),
            Action::Print(s) => ActionView::Print(s@),
            Action::Done(r) => ActionView::Done(
                match r {
                    Ok(v) => Ok(v@),
                    Err(e) => Err(e@),
                },
            ),
        }
    }
}

/// What the caller hands to a step.
#[derive(Debug)]
pub enum Event {
    /// No answer: the last action asked for none.
    Resume,
    /// A number: the answer to `Parse` and `Compute`.
    Number(Number),
    /// A text: the answer to `Show`.
    Text(String),
}

/// An event as a contract sees it.
pub enum EventView {
    Resume,
    Number(Number),
    Text(Seq<char>),
}

impl View for Event {
    type V = EventView;

    open spec fn view(&self) -> EventView {
        match self {
            Event::Resume => EventView::Resume,
            Event::Number(n) => EventView::Number(*n),
            Event::Text(s) => EventView::Text(s@),
        }
    }
}

/// What remains to be done once the value of what is being run is there,
/// or once the caller has answered.
#[derive(Clone, Copy, Debug)]
pub enum Frame<'a> {
    /// The operand of a unary operator is being evaluated.
    Unary(&'a LocToken),
    /// The left operand of a binary operator is being evaluated.
    BinaryRight(&'a LocToken, &'a Expr),
    /// The right operand is being evaluated; the left is on the values.
    BinaryApply(&'a LocToken),
    /// The left operand of a logical operator is being evaluated.
    LogicalRight(&'a LocToken, &'a Expr),
    /// The right operand is being evaluated; the left was of this truth.
    LogicalApply(&'a LocToken, bool),
    /// The value to assign is being evaluated.
    Assign(&'a LocToken),
    /// The caller computes or reads a number.
    Number,
    /// The caller writes out a number that is to be joined with the string
    /// on the values: before it where the flag is set, behind it otherwise.
    Concat(bool),
    /// The caller prints a warning about a node that has no meaning yet.
    Warned,
    /// The expression to log is being evaluated.
    Log,
    /// The caller writes out the number that is logged.
    LogShown,
    /// The caller writes out the start of the range that is logged.
    LogRangeStart,
    /// The caller writes out the end of the range that is logged; the text
    /// of the start is on the values.
    LogRangeEnd,
    /// The caller prints the line of a log statement.
    Printed,
    /// The initializer of a declaration is being evaluated.
    Declare(&'a LocToken),
    /// A statement of a block is being run; the index is that of the next
    /// one. The frame owns the block's scope.
    Block(&'a Vec<Stmt>, usize),
    /// A statement of the program is being run; the index is that of the
    /// next one.
    Program(&'a Vec<Stmt>, usize),
    /// The condition of an `if` is being evaluated.
    If(&'a Expr, &'a Stmt, &'a Option<Box<Stmt>>),
    /// The condition of a `while` is being evaluated.
    WhileCondition(&'a Expr, &'a Stmt),
    /// The body of a `while` is being run.
    WhileBody(&'a Expr, &'a Stmt),
    /// The range of a `for` is being evaluated.
    ForRange(&'a Option<LocToken>, &'a Expr, &'a Stmt),
    /// The body of a `for` is being run; the number is the end of the
    /// range. The frame owns the loop's scope.
    ForBody(&'a Option<LocToken>, &'a Expr, &'a Stmt, Number),
    /// The caller adds one to the loop variable. The frame owns the loop's
    /// scope.
    ForStep(&'a Option<LocToken>, &'a Expr, &'a Stmt, Number),
}

/// What the machine does next.
#[derive(Clone, Copy, Debug)]
pub enum Control<'a> {
    /// Nothing: no run is under way.
    Idle,
    /// Evaluate the expression.
    Evaluate(&'a Expr),
    /// Execute the statement.
    Execute(&'a Stmt),
    /// Hand the value on top of the values to the top frame.
    Return,
    /// Take the caller's answer; the top frame says what it is for.
    Wait,
}

/// The machine as a contract sees it.
pub struct Machine<'a> {
    pub env: Scopes,
    pub frames: Seq<Frame<'a>>,
    pub values: Seq<ValueView>,
    pub control: Control<'a>,
}

/// Whether the frame owns a scope of the environment.
pub open spec fn owns_scope(frame: Frame) -> bool {
    frame is Block || frame is ForBody || frame is ForStep
}

/// The chain without its innermost scope; the outermost scope stays.
pub open spec fn left(scopes: Scopes) -> Scopes {
    if scopes.len() > 1 {
        scopes.drop_last()
    } else {
        scopes
    }
}

/// The chain once every frame has given up the scope that it owns.
pub open spec fn unwound(env: Scopes, frames: Seq<Frame>) -> Scopes
    decreases frames.len(),
{
    if frames.len() == 0 {
        env
    } else {
        unwound(
            if owns_scope(frames.last()) {
                left(env)
            } else {
                env
            },
            frames.drop_last(),
        )
    }
}

/// The place of an error that has none in the source.
pub open spec fn nowhere() -> Loc {
    Loc { line: 0, col: 0, idx: 0 }
}

/// `text`, `n` times in a row.
pub open spec fn repeated(text: Seq<char>, n: nat) -> Seq<char>
    decreases n,
{
    if n == 0 {
        Seq::empty()
    } else {
        repeated(text, (n - 1) as nat) + text
    }
}

/// What applying a binary operator to two values comes to.
pub enum Applied {
    /// The value.
    Value(ValueView),
    /// The value is the number that the caller computes.
    Compute(Arith, Number, Number),
    /// The value is the text of the number, which the caller writes out,
    /// joined with the text: before it where the flag is set, behind it
    /// otherwise.
    Concat(Number, Seq<char>, bool),
    /// An error with the message.
    Fail(Seq<char>),
}

/// `text` repeated as often as `n` says, rounded to the nearest count. An
/// error where the result would be longer than a `usize` can say.
pub open spec fn times(text: Seq<char>, n: Number) -> Applied {
    if text.len() == 0 {
        Applied::Value(ValueView::String(text))
    } else if n.count() * text.len() > usize::MAX {
        Applied::Fail("Runtime Error: Cannot repeat a 'String' that many times."@)
    } else {
        Applied::Value(ValueView::String(repeated(text, n.count())))
    }
}

/// `left + right`: the sum of two numbers; the concatenation of two
/// strings, or of a string and the text of a number.
pub open spec fn plus(left: ValueView, right: ValueView) -> Applied {
    match left {
        ValueView::Number(l) => match right {
            ValueView::Number(r) => Applied::Compute(Arith::Add, l, r),
            ValueView::String(r) => Applied::Concat(l, r, true),
            _ => Applied::Fail(
                "Runtime Error: Cannot add 'Number' with anything but 'Number' or 'String' or an expression evaluating to it"@,
            ),
        },
        ValueView::String(l) => match right {
            ValueView::Number(r) => Applied::Concat(r, l, false),
            ValueView::String(r) => Applied::Value(ValueView::String(l + r)),
            _ => Applied::Fail(
                "Runtime Error: Cannot add 'String' with anything but 'String' or 'Number' or an expression evaluating to it"@,
            ),
        },
        _ => Applied::Fail(
            "Runtime Error: Cannot add anything to a non 'Number' or 'String' expression."@,
        ),
    }
}

/// `left - right`: the difference of two numbers.
pub open spec fn minus(left: ValueView, right: ValueView) -> Applied {
    match left {
        ValueView::Number(l) => match right {
            ValueView::Number(r) => Applied::Compute(Arith::Subtract, l, r),
            _ => Applied::Fail(
                "Runtime Error: Cannot subtract 'Number' with anything but 'Number' or an expression evaluating to it"@,
            ),
        },
        _ => Applied::Fail(
            "Runtime Error: Cannot subtract anything from a non 'Number' expression."@,
        ),
    }
}

/// `left * right`: the product of two numbers; a string repeated.
pub open spec fn star(left: ValueView, right: ValueView) -> Applied {
    match left {
        ValueView::Number(l) => match right {
            ValueView::Number(r) => Applied::Compute(Arith::Multiply, l, r),
            ValueView::String(r) => times(r, l),
            _ => Applied::Fail(
                "Runtime Error: Cannot multiply 'Number' with anything but 'Number' or 'String' or an expression evaluating to it"@,
            ),
        },
        ValueView::String(l) => match right {
            ValueView::Number(r) => times(l, r),
            _ => Applied::Fail(
                "Runtime Error: Cannot multiply 'String' with anything but 'Number' or an expression evaluating to it"@,
            ),
        },
        _ => Applied::Fail(
            "Runtime Error: Cannot multiply anything with a non 'Number' or 'String' expression."@,
        ),
    }
}

/// `left / right`: the quotient of two numbers. A divisor that is zero is
/// an error.
pub open spec fn slash(left: ValueView, right: ValueView) -> Applied {
    match right {
        ValueView::Number(r) => if r.zero() {
            Applied::Fail("Runtime Error: Division by zero."@)
        } else {
            match left {
                ValueView::Number(l) => Applied::Compute(Arith::Divide, l, r),
                _ => Applied::Fail(
                    "Runtime Error: Cannot divide anything but 'Number' or an expression evaluating to it"@,
                ),
            }
        },
        _ => Applied::Fail(
            "Runtime Error: Cannot divide by anything but 'Number' or an expression evaluating to it"@,
        ),
    }
}

/// `left .. right`: the range between two numbers.
pub open spec fn range(left: ValueView, right: ValueView) -> Applied {
    match (left, right) {
        (ValueView::Number(l), ValueView::Number(r)) => Applied::Value(ValueView::Range(l, r)),
        _ => Applied::Fail(
            "Runtime Error: Cannot create a range with anything but 'Number' or an expression evaluating to it"@,
        ),
    }
}

/// Whether two values of one variant are equal; `None` where they are of
/// different variants.
pub open spec fn alike(left: ValueView, right: ValueView) -> Option<bool> {
    match (left, right) {
        (ValueView::Number(l), ValueView::Number(r)) => Some(l.equals(r)),
        (ValueView::Range(a, b), ValueView::Range(c, d)) => Some(a.equals(c) && b.equals(d)),
        (ValueView::String(l), ValueView::String(r)) => Some(l == r),
        (ValueView::Boolean(l), ValueView::Boolean(r)) => Some(l == r),
        (ValueView::Null, ValueView::Null) => Some(true),
        _ => None,
    }
}

/// `left == right`, or `left != right` where `negate` is set. Values of
/// different variants cannot be compared.
pub open spec fn equal(left: ValueView, right: ValueView, negate: bool) -> Applied {
    match alike(left, right) {
        Some(b) => Applied::Value(ValueView::Boolean(b != negate)),
        None => Applied::Fail("Runtime Error: Cannot compare values of different types."@),
    }
}

/// Whether `l op r` holds for an operator of order.
pub open spec fn ordered(op: TokenKind, l: Number, r: Number) -> bool {
    match op {
        TokenKind::Greater => r.below(l),
        TokenKind::GreaterEqual => r.at_most(l),
        TokenKind::Less => l.below(r),
        _ => l.at_most(r),
    }
}

/// `left op right` for an operator of order: numbers only.
pub open spec fn compared(op: TokenKind, left: ValueView, right: ValueView) -> Applied {
    match left {
        ValueView::Number(l) => match right {
            ValueView::Number(r) => Applied::Value(ValueView::Boolean(ordered(op, l, r))),
            _ => Applied::Fail(
                "Runtime Error: Cannot compare 'Number' with anything but 'Number' or an expression evaluating to it"@,
            ),
        },
        _ => Applied::Fail(
            "Runtime Error: Cannot compare anything with a non 'Number' expression."@,
        ),
    }
}

/// What a binary operator makes of two values.
pub open spec fn binary(op: TokenKind, left: ValueView, right: ValueView) -> Applied {
    match op {
        TokenKind::Plus => plus(left, right),
        TokenKind::Minus => minus(left, right),
        TokenKind::Star => star(left, right),
        TokenKind::Slash => slash(left, right),
        TokenKind::Range => range(left, right),
        TokenKind::EqualEqual => equal(left, right, false),
        TokenKind::BangEqual => equal(left, right, true),
        TokenKind::Greater | TokenKind::GreaterEqual | TokenKind::Less
        | TokenKind::LessEqual => compared(op, left, right),
        _ => Applied::Fail("Runtime Error: Invalid binary operator"@),
    }
}

/// What a unary operator makes of a value: `-` negates a number, `!`
/// inverts a boolean. The error is the message.
pub open spec fn unary(op: TokenKind, value: ValueView) -> Result<ValueView, Seq<char>> {
    match op {
        TokenKind::Minus => match value {
            ValueView::Number(n) => Ok(ValueView::Number(n.negated())),
            _ => Err("Runtime Error: Cannot negate non 'Number' expression."@),
        },
        TokenKind::Bang => match value {
            ValueView::Boolean(b) => Ok(ValueView::Boolean(!b)),
            _ => Err("Runtime Error: Cannot negate non 'Boolean' expression."@),
        },
        _ => Err("Runtime Error: Invalid unary operator"@),
    }
}

/// What a logical operator makes of the truth of its two operands.
pub open spec fn logical(op: TokenKind, left: bool, right: bool) -> Result<bool, Seq<char>> {
    match op {
        TokenKind::Or => Ok(left || right),
        TokenKind::Xor => Ok(left != right),
        TokenKind::And => Ok(left && right),
        _ => Err("Runtime Error: Invalid logical operator."@),
    }
}

/// Whether the left operand of a logical operator settles the result, so
/// that the right one is not evaluated.
pub open spec fn settled(op: TokenKind, left: bool) -> bool {
    (op == TokenKind::Or && left) || (op == TokenKind::And && !left)
}

/// The variable of a `for` loop: the name given, or `i` at the place of
/// the range.
pub open spec fn loop_variable(name: &Option<LocToken>, iterable: &Expr) -> LocLexeme {
    match name {
        Some(t) => t@,
        None => LocLexeme {
            token: Lexeme { kind: TokenKind::Identifier, text: "i"@ },
            loc: iterable.place(),
        },
    }
}

/// The line that a log statement prints for a value that is no number and
/// no range.
pub open spec fn plain_text(value: ValueView) -> Seq<char> {
    match value {
        ValueView::String(s) => s,
        ValueView::Boolean(b) => if b {
            "true"@
        } else {
            "false"@
        },
        _ => "null"@,
    }
}

/// The error of a variable that is read while it is bound to `null`: it
/// was declared and never set.
pub open spec fn unset(name: LocLexeme) -> ErrorView {
    ErrorView {
        loc: name.loc,
        message: "Runtime Error: Cannot use variable '"@ + name.token.display()
            + "' before assignment."@,
    }
}

/// The message of an answer that is not of the kind that was asked for, or
/// of a machine whose frames and control do not fit.
pub open spec fn out_of_step() -> Seq<char> {
    "Runtime Error: Unexpected reply."@
}

/// A state and the action that leads there.
pub type Next<'a> = (Machine<'a>, ActionView);

impl<'a> Machine<'a> {
    /// The value on top of the values; `null` where there is none.
    pub open spec fn top(self) -> ValueView {
        if self.values.len() > 0 {
            self.values.last()
        } else {
            ValueView::Null
        }
    }

    /// The machine without the value on top.
    pub open spec fn pop(self) -> Machine<'a> {
        Machine {
            values: if self.values.len() > 0 {
                self.values.drop_last()
            } else {
                self.values
            },
            ..self
        }
    }

    /// The machine with one more value.
    pub open spec fn push(self, value: ValueView) -> Machine<'a> {
        Machine { values: self.values.push(value), ..self }
    }

    /// The machine with one more frame.
    pub open spec fn frame(self, frame: Frame<'a>) -> Machine<'a> {
        Machine { frames: self.frames.push(frame), ..self }
    }

    /// The machine without its top frame.
    pub open spec fn unframe(self) -> Machine<'a> {
        Machine { frames: self.frames.drop_last(), ..self }
    }

    /// The machine with another environment.
    pub open spec fn with(self, env: Scopes) -> Machine<'a> {
        Machine { env, ..self }
    }

    /// The machine goes on with the control.
    pub open spec fn runs(self, control: Control<'a>) -> Next<'a> {
        (Machine { control, ..self }, ActionView::Continue)
    }

    /// The machine goes on with one more value, on its way to the top
    /// frame.
    pub open spec fn yields(self, value: ValueView) -> Next<'a> {
        self.push(value).runs(Control::Return)
    }

    /// The machine asks its caller and waits; the frame says what for.
    pub open spec fn asks(self, frame: Frame<'a>, action: ActionView) -> Next<'a> {
        (Machine { control: Control::Wait, ..self.frame(frame) }, action)
    }

    /// The run ends with the error: every frame gives up its scope, and
    /// nothing is left of frames and values.
    pub open spec fn fails(self, error: ErrorView) -> Next<'a> {
        (
            Machine {
                env: unwound(self.env, self.frames),
                frames: Seq::empty(),
                values: Seq::empty(),
                control: Control::Idle,
            },
            ActionView::Done(Err(error)),
        )
    }

    /// The run ends with an error at `loc`.
    pub open spec fn fails_at(self, loc: Loc, message: Seq<char>) -> Next<'a> {
        self.fails(ErrorView { loc, message })
    }

    /// The machine begins to evaluate `expr`.
    pub open spec fn evaluated(self, expr: &'a Expr) -> Next<'a> {
        match expr {
            Expr::Literal(t) => match t.token {
                Token::Number(text) => self.asks(Frame::Number, ActionView::Parse(text@)),
                Token::String(s) => self.yields(ValueView::String(s@)),
                Token::True => self.yields(ValueView::Boolean(true)),
                Token::False => self.yields(ValueView::Boolean(false)),
                Token::Null => self.yields(ValueView::Null),
                _ => self.fails_at(t.loc, "Runtime Error: Invalid literal value."@),
            },
            Expr::Grouping(e) => self.runs(Control::Evaluate(&**e)),
            Expr::Unary(op, e) => self.frame(Frame::Unary(op)).runs(Control::Evaluate(&**e)),
            Expr::Binary(l, op, r) => self.frame(Frame::BinaryRight(op, &**r)).runs(
                Control::Evaluate(&**l),
            ),
            Expr::Variable(t) => match lookup(self.env, t@.token.display()) {
                None => self.fails(undefined(t@)),
                Some(ValueView::Null) => self.fails(unset(t@)),
                Some(v) => self.yields(v),
            },
            Expr::Assign(t, e) => self.frame(Frame::Assign(t)).runs(Control::Evaluate(&**e)),
            Expr::Logical(l, op, r) => self.frame(Frame::LogicalRight(op, &**r)).runs(
                Control::Evaluate(&**l),
            ),
            _ => self.asks(
                Frame::Warned,
                ActionView::Print("Warning: Called evaluate expr on a non implemented operation!"@),
            ),
        }
    }

    /// The machine begins to execute `stmt`.
    pub open spec fn executed(self, stmt: &'a Stmt) -> Next<'a> {
        match stmt {
            Stmt::Expression(e) => self.runs(Control::Evaluate(&**e)),
            Stmt::Log(e) => self.frame(Frame::Log).runs(Control::Evaluate(&**e)),
            Stmt::Declaration(name, init) => match init {
                Some(e) => self.frame(Frame::Declare(name)).runs(Control::Evaluate(&**e)),
                None => self.with(
                    defined(self.env, name@.token.display(), ValueView::Null),
                ).yields(ValueView::Null),
            },
            Stmt::Block(stmts) => self.with(self.env.push(Map::empty())).frame(
                Frame::Block(stmts, 0),
            ).yields(ValueView::Null),
            Stmt::If(c, t, e) => self.frame(Frame::If(&**c, &**t, e)).runs(
                Control::Evaluate(&**c),
            ),
            Stmt::While(c, body) => self.frame(Frame::WhileCondition(&**c, &**body)).runs(
                Control::Evaluate(&**c),
            ),
            Stmt::For(name, iterable, body) => self.frame(
                Frame::ForRange(name, &**iterable, &**body),
            ).runs(Control::Evaluate(&**iterable)),
            _ => self.fails_at(nowhere(), "Runtime Error: Not Implemented."@),
        }
    }

    /// The machine applies a binary operator to the two values.
    pub open spec fn applied(self, op: &'a LocToken, left: ValueView, right: ValueView) -> Next<
        'a,
    > {
        match binary(op.token.kind(), left, right) {
            Applied::Value(v) => self.yields(v),
            Applied::Compute(a, x, y) => self.asks(Frame::Number, ActionView::Compute(a, x, y)),
            Applied::Concat(n, text, first) => self.push(ValueView::String(text)).asks(
                Frame::Concat(first),
                ActionView::Show(n),
            ),
            Applied::Fail(message) => self.fails_at(op.loc, message),
        }
    }

    /// The machine logs the value on top of the values.
    pub open spec fn logged(self) -> Next<'a> {
        match self.top() {
            ValueView::Number(n) => self.asks(Frame::LogShown, ActionView::Show(n)),
            ValueView::Range(a, _) => self.asks(Frame::LogRangeStart, ActionView::Show(a)),
            v => self.asks(Frame::Printed, ActionView::Print(plain_text(v))),
        }
    }

    /// The machine hands the value on top of the values to its top frame.
    /// Without a frame the run is over, and the value is its result.
    pub open spec fn resumed(self) -> Next<'a> {
        if self.frames.len() == 0 {
            (
                Machine { values: Seq::empty(), control: Control::Idle, ..self },
                ActionView::Done(Ok(self.top())),
            )
        } else {
            let under = self.unframe();
            let value = self.top();
            let rest = under.pop();
            match self.frames.last() {
                Frame::Unary(op) => match unary(op.token.kind(), value) {
                    Ok(v) => rest.yields(v),
                    Err(message) => rest.fails_at(op.loc, message),
                },
                Frame::BinaryRight(op, right) => under.frame(Frame::BinaryApply(op)).runs(
                    Control::Evaluate(right),
                ),
                Frame::BinaryApply(op) => rest.pop().applied(op, rest.top(), value),
                Frame::LogicalRight(op, right) => if settled(op.token.kind(), value.truthy()) {
                    rest.yields(ValueView::Boolean(value.truthy()))
                } else {
                    rest.frame(Frame::LogicalApply(op, value.truthy())).runs(
                        Control::Evaluate(right),
                    )
                },
                Frame::LogicalApply(op, l) => match logical(op.token.kind(), l, value.truthy()) {
                    Ok(b) => rest.yields(ValueView::Boolean(b)),
                    Err(message) => rest.fails_at(op.loc, message),
                },
                Frame::Assign(name) => match lookup(under.env, name@.token.display()) {
                    Some(_) => under.with(assigned(under.env, name@.token.display(), value)).runs(
                        Control::Return,
                    ),
                    None => under.fails(undefined(name@)),
                },
                Frame::Log => under.logged(),
                Frame::Declare(name) => rest.with(
                    defined(rest.env, name@.token.display(), value),
                ).yields(ValueView::Null),
                Frame::Block(stmts, next) => if next < stmts.len() {
                    rest.frame(Frame::Block(stmts, (next + 1) as usize)).runs(
                        Control::Execute(&stmts[next as int]),
                    )
                } else {
                    under.with(left(under.env)).runs(Control::Return)
                },
                Frame::Program(stmts, next) => if next < stmts.len() {
                    rest.frame(Frame::Program(stmts, (next + 1) as usize)).runs(
                        Control::Execute(&stmts[next as int]),
                    )
                } else {
                    rest.yields(ValueView::Null)
                },
                Frame::If(condition, then_branch, else_branch) => match value {
                    ValueView::Boolean(true) => rest.runs(Control::Execute(then_branch)),
                    ValueView::Boolean(false) => match else_branch {
                        Some(s) => rest.runs(Control::Execute(&**s)),
                        None => rest.yields(ValueView::Null),
                    },
                    _ => rest.fails_at(condition.place(), "Runtime Error: Invalid condition."@),
                },
                Frame::WhileCondition(condition, body) => if value.truthy() {
                    rest.frame(Frame::WhileBody(condition, body)).runs(Control::Execute(body))
                } else {
                    rest.yields(ValueView::Null)
                },
                Frame::WhileBody(condition, body) => rest.frame(
                    Frame::WhileCondition(condition, body),
                ).runs(Control::Evaluate(condition)),
                Frame::ForRange(name, iterable, body) => match value {
                    ValueView::Range(start, end) => rest.with(
                        defined(
                            rest.env.push(Map::empty()),
                            loop_variable(name, iterable).token.display(),
                            ValueView::Number(start),
                        ),
                    ).frame(Frame::ForBody(name, iterable, body, end)).runs(
                        Control::Execute(body),
                    ),
                    _ => rest.fails_at(
                        iterable.place(),
                        "Runtime Error: For loop iterable must be a range."@,
                    ),
                },
                Frame::ForBody(name, iterable, body, end) => match lookup(
                    rest.env,
                    loop_variable(name, iterable).token.display(),
                ) {
                    Some(ValueView::Number(i)) => rest.asks(
                        Frame::ForStep(name, iterable, body, end),
                        ActionView::Compute(Arith::Add, i, Number { bits: ONE_BITS }),
                    ),
                    _ => self.fails_at(
                        iterable.place(),
                        "Runtime Error: For loop variable must be a number."@,
                    ),
                },
                _ => self.fails_at(nowhere(), out_of_step()),
            }
        }
    }

    /// The machine takes the caller's answer to its last action.
    pub open spec fn replied(self, event: EventView) -> Next<'a> {
        if self.frames.len() == 0 {
            self.fails_at(nowhere(), out_of_step())
        } else {
            let under = self.unframe();
            match (self.frames.last(), event) {
                (Frame::Number, EventView::Number(n)) => under.yields(ValueView::Number(n)),
                (Frame::Concat(first), EventView::Text(t)) => match under.top() {
                    ValueView::String(s) => under.pop().yields(
                        ValueView::String(
                            if first {
                                t + s
                            } else {
                                s + t
                            },
                        ),
                    ),
                    _ => self.fails_at(nowhere(), out_of_step()),
                },
                (Frame::Warned, _) => under.yields(ValueView::Null),
                (Frame::LogShown, EventView::Text(t)) => under.asks(
                    Frame::Printed,
                    ActionView::Print(t),
                ),
                (Frame::LogRangeStart, EventView::Text(t)) => match under.top() {
                    ValueView::Range(_, end) => under.push(ValueView::String(t)).asks(
                        Frame::LogRangeEnd,
                        ActionView::Show(end),
                    ),
                    _ => self.fails_at(nowhere(), out_of_step()),
                },
                (Frame::LogRangeEnd, EventView::Text(t)) => match under.top() {
                    ValueView::String(s) => under.pop().asks(
                        Frame::Printed,
                        ActionView::Print(s + ".."@ + t),
                    ),
                    _ => self.fails_at(nowhere(), out_of_step()),
                },
                (Frame::Printed, _) => under.runs(Control::Return),
                (Frame::ForStep(name, iterable, body, end), EventView::Number(n)) => {
                    let variable = loop_variable(name, iterable);
                    match lookup(under.env, variable.token.display()) {
                        Some(_) => {
                            let env = assigned(
                                under.env,
                                variable.token.display(),
                                ValueView::Number(n),
                            );
                            if end.at_most(n) {
                                under.with(left(env)).yields(ValueView::Null)
                            } else {
                                under.with(env).frame(Frame::ForBody(name, iterable, body, end)).runs(
                                    Control::Execute(body),
                                )
                            }
                        },
                        None => self.fails(undefined(variable)),
                    }
                },
                _ => self.fails_at(nowhere(), out_of_step()),
            }
        }
    }

    /// One step of the machine.
    pub open spec fn stepped(self, event: EventView) -> Next<'a> {
        match self.control {
            Control::Idle => (self, ActionView::Done(Ok(ValueView::Null))),
            Control::Evaluate(expr) => self.evaluated(expr),
            Control::Execute(stmt) => self.executed(stmt),
            Control::Return => self.resumed(),
            Control::Wait => self.replied(event),
        }
    }

    /// Up to `budget` steps, the first with the event, as long as the
    /// actions ask for nothing.
    pub open spec fn advanced(self, event: EventView, budget: nat) -> Next<'a>
        decreases budget,
    {
        if budget == 0 {
            (self, ActionView::Continue)
        } else {
            let next = self.stepped(event);
            if next.1 is Continue {
                next.0.advanced(EventView::Resume, (budget - 1) as nat)
            } else {
                next
            }
        }
    }

    /// The machine at the start of a program: whatever was under way is
    /// given up, and the first statement is next.
    pub open spec fn loaded(self, stmts: &'a Vec<Stmt>) -> Machine<'a> {
        Machine {
            env: unwound(self.env, self.frames),
            frames: seq![Frame::Program(stmts, 0)],
            values: seq![ValueView::Null],
            control: Control::Return,
        }
    }
}

/// What applying a binary operator to two values comes to.
#[derive(Debug)]
pub enum Outcome {
    /// The value.
    Value(Value),
    /// The value is the number that the caller computes.
    Compute(Arith, Number, Number),
    /// The value is the text of the number, joined with the text: before
    /// it where the flag is set, behind it otherwise.
    Concat(Number, String, bool),
    /// An error with the message.
    Fail(String),
}

impl View for Outcome {
    type V = Applied;

    open spec fn view(&self) -> Applied {
        match self {
            Outcome::Value(v) => Applied::Value(v@),
            Outcome::Compute(a, x, y) => Applied::Compute(*a, *x, *y),
            Outcome::Concat(n, s, first) => Applied::Concat(*n, s@, *first),
            Outcome::Fail(s) => Applied::Fail(s@),
        }
    }
}

impl Outcome {
    fn fail(message: &str) -> (r: Outcome)
        ensures
            r@ == Applied::Fail(message@),
    {
        Outcome::Fail(String::from_str(message))
    }
}

impl Value {
    /// `text` repeated as often as `n` says.
    pub fn times(text: String, n: Number) -> (r: Outcome)
        ensures
            r@ == times(text@, n),
    {
        let len: usize = text.as_str().unicode_len();
        if len == 0 {
            return Outcome::Value(Value::String(text));
        }
        let count: u64 = n.round_count();
        assert((count as u128) * (len as u128) <= 0xFFFF_FFFF_FFFF_FFFF * 0xFFFF_FFFF_FFFF_FFFF)
            by (nonlinear_arith)
            requires
                count <= 0xFFFF_FFFF_FFFF_FFFF,
                len <= 0xFFFF_FFFF_FFFF_FFFF,
        ;
        if (count as u128) * (len as u128) > usize::MAX as u128 {
            return Outcome::fail("Runtime Error: Cannot repeat a 'String' that many times.");
        }
        let mut out = String::new();
        let mut i: u64 = 0;
        while i < count
            invariant
                i <= count,
                out@ == repeated(text@, i as nat),
            decreases count - i,
        {
            out.append(text.as_str());
            i += 1;
        }
        Outcome::Value(Value::String(out))
    }

    /// `self + right`.
    pub fn plus(self, right: Value) -> (r: Outcome)
        ensures
            r@ == plus(self@, right@),
    {
        match self {
            Value::Number(l) => match right {
                Value::Number(r) => Outcome::Compute(Arith::Add, l, r),
                Value::String(r) => Outcome::Concat(l, r, true),
                _ => Outcome::fail(
                    "Runtime Error: Cannot add 'Number' with anything but 'Number' or 'String' or an expression evaluating to it",
                ),
            },
            Value::String(l) => match right {
                Value::Number(r) => Outcome::Concat(r, l, false),
                Value::String(r) => {
                    let mut joined = l;
                    joined.append(r.as_str());
                    Outcome::Value(Value::String(joined))
                },
                _ => Outcome::fail(
                    "Runtime Error: Cannot add 'String' with anything but 'String' or 'Number' or an expression evaluating to it",
                ),
            },
            _ => Outcome::fail(
                "Runtime Error: Cannot add anything to a non 'Number' or 'String' expression.",
            ),
        }
    }

    /// `self - right`.
    pub fn minus(self, right: Value) -> (r: Outcome)
        ensures
            r@ == minus(self@, right@),
    {
        match self {
            Value::Number(l) => match right {
                Value::Number(r) => Outcome::Compute(Arith::Subtract, l, r),
                _ => Outcome::fail(
                    "Runtime Error: Cannot subtract 'Number' with anything but 'Number' or an expression evaluating to it",
                ),
            },
            _ => Outcome::fail(
                "Runtime Error: Cannot subtract anything from a non 'Number' expression.",
            ),
        }
    }

    /// `self * right`.
    pub fn star(self, right: Value) -> (r: Outcome)
        ensures
            r@ == star(self@, right@),
    {
        match self {
            Value::Number(l) => match right {
                Value::Number(r) => Outcome::Compute(Arith::Multiply, l, r),
                Value::String(r) => Value::times(r, l),
                _ => Outcome::fail(
                    "Runtime Error: Cannot multiply 'Number' with anything but 'Number' or 'String' or an expression evaluating to it",
                ),
            },
            Value::String(l) => match right {
                Value::Number(r) => Value::times(l, r),
                _ => Outcome::fail(
                    "Runtime Error: Cannot multiply 'String' with anything but 'Number' or an expression evaluating to it",
                ),
            },
            _ => Outcome::fail(
                "Runtime Error: Cannot multiply anything with a non 'Number' or 'String' expression.",
            ),
        }
    }

    /// `self / right`.
    pub fn slash(self, right: Value) -> (r: Outcome)
        ensures
            r@ == slash(self@, right@),
    {
        match right {
            Value::Number(r) => if r.is_zero() {
                Outcome::fail("Runtime Error: Division by zero.")
            } else {
                match self {
                    Value::Number(l) => Outcome::Compute(Arith::Divide, l, r),
                    _ => Outcome::fail(
                        "Runtime Error: Cannot divide anything but 'Number' or an expression evaluating to it",
                    ),
                }
            },
            _ => Outcome::fail(
                "Runtime Error: Cannot divide by anything but 'Number' or an expression evaluating to it",
            ),
        }
    }

    /// `self .. right`.
    pub fn range(self, right: Value) -> (r: Outcome)
        ensures
            r@ == range(self@, right@),
    {
        match self {
            Value::Number(l) => match right {
                Value::Number(r) => Outcome::Value(Value::Range(l, r)),
                _ => Outcome::fail(
                    "Runtime Error: Cannot create a range with anything but 'Number' or an expression evaluating to it",
                ),
            },
            _ => Outcome::fail(
                "Runtime Error: Cannot create a range with anything but 'Number' or an expression evaluating to it",
            ),
        }
    }

    /// Whether two values of one variant are equal.
    pub fn alike(&self, right: &Value) -> (r: Option<bool>)
        ensures
            r == alike(self@, right@),
    {
        match self {
            Value::Number(l) => match right {
                Value::Number(r) => Some(l.same(*r)),
                _ => None,
            },
            Value::Range(a, b) => match right {
                Value::Range(c, d) => Some(a.same(*c) && b.same(*d)),
                _ => None,
            },
            Value::String(l) => match right {
                Value::String(r) => Some(*l == *r),
                _ => None,
            },
            Value::Boolean(l) => match right {
                Value::Boolean(r) => Some(*l == *r),
                _ => None,
            },
            Value::Null => match right {
                Value::Null => Some(true),
                _ => None,
            },
        }
    }

    /// `self == right`, or `self != right` where `negate` is set.
    pub fn equal(self, right: Value, negate: bool) -> (r: Outcome)
        ensures
            r@ == equal(self@, right@, negate),
    {
        match self.alike(&right) {
            Some(b) => Outcome::Value(Value::Boolean(b != negate)),
            None => Outcome::fail("Runtime Error: Cannot compare values of different types."),
        }
    }

    /// `self op right` for an operator of order.
    pub fn compared(self, op: TokenKind, right: Value) -> (r: Outcome)
        ensures
            r@ == compared(op, self@, right@),
    {
        match self {
            Value::Number(l) => match right {
                Value::Number(r) => Outcome::Value(
                    Value::Boolean(
                        match op {
                            TokenKind::Greater => r.less(l),
                            TokenKind::GreaterEqual => r.less_or_same(l),
                            TokenKind::Less => l.less(r),
                            _ => l.less_or_same(r),
                        },
                    ),
                ),
                _ => Outcome::fail(
                    "Runtime Error: Cannot compare 'Number' with anything but 'Number' or an expression evaluating to it",
                ),
            },
            _ => Outcome::fail(
                "Runtime Error: Cannot compare anything with a non 'Number' expression.",
            ),
        }
    }

    /// What a binary operator makes of `self` and `right`.
    pub fn binary(self, op: TokenKind, right: Value) -> (r: Outcome)
        ensures
            r@ == binary(op, self@, right@),
    {
        match op {
            TokenKind::Plus => self.plus(right),
            TokenKind::Minus => self.minus(right),
            TokenKind::Star => self.star(right),
            TokenKind::Slash => self.slash(right),
            TokenKind::Range => self.range(right),
            TokenKind::EqualEqual => self.equal(right, false),
            TokenKind::BangEqual => self.equal(right, true),
            TokenKind::Greater | TokenKind::GreaterEqual | TokenKind::Less
            | TokenKind::LessEqual => self.compared(op, right),
            _ => Outcome::fail("Runtime Error: Invalid binary operator"),
        }
    }

    /// What a unary operator makes of the value.
    pub fn unary(self, op: TokenKind) -> (r: Result<Value, String>)
        ensures
            match unary(op, self@) {
                Ok(v) => r matches Ok(value) && value@ == v,
                Err(m) => r matches Err(message) && message@ == m,
            },
    {
        match op {
            TokenKind::Minus => match self {
                Value::Number(n) => Ok(Value::Number(n.negate())),
                _ => Err(String::from_str("Runtime Error: Cannot negate non 'Number' expression.")),
            },
            TokenKind::Bang => match self {
                Value::Boolean(b) => Ok(Value::Boolean(!b)),
                _ => Err(String::from_str("Runtime Error: Cannot negate non 'Boolean' expression.")),
            },
            _ => Err(String::from_str("Runtime Error: Invalid unary operator")),
        }
    }
}

/// The token of the variable of a `for` loop.
fn loop_token(name: &Option<LocToken>, iterable: &Expr) -> (r: LocToken)
    ensures
        r@ == loop_variable(name, iterable),
{
    match name {
        Some(t) => t.clone(),
        None => LocToken { token: Token::Identifier(String::from_str("i")), loc: iterable.loc() },
    }
}

/// The evaluator.
pub struct Interpreter<'a> {
    /// The chain of scopes.
    pub env: Environment,
    /// What remains to be done, the next thing last.
    pub frames: Vec<Frame<'a>>,
    /// The values that frames wait for or have put aside.
    pub values: Vec<Value>,
    /// What is done next.
    pub control: Control<'a>,
}

impl<'a> View for Interpreter<'a> {
    type V = Machine<'a>;

    open spec fn view(&self) -> Machine<'a> {
        Machine {
            env: self.env@,
            frames: self.frames@,
            values: self.values@.map_values(|v: Value| v@),
            control: self.control,
        }
    }
}

impl<'a> Interpreter<'a> {
    /// An evaluator with one empty scope and nothing to run.
    pub fn new() -> (r: Interpreter<'a>)
        ensures
            r@ == (Machine {
                env: seq![Map::<Seq<char>, ValueView>::empty()],
                frames: Seq::empty(),
                values: Seq::empty(),
                control: Control::Idle,
            }),
    {
        let r = Interpreter {
            env: Environment::new(),
            frames: Vec::new(),
            values: Vec::new(),
            control: Control::Idle,
        };
        assert(r@.values =~= Seq::empty());
        r
    }

    /// An evaluator over the given environment, with nothing to run.
    pub fn with_env(env: Environment) -> (r: Interpreter<'a>)
        ensures
            r@ == (Machine {
                env: env@,
                frames: Seq::empty(),
                values: Seq::empty(),
                control: Control::Idle,
            }),
    {
        let r = Interpreter { env, frames: Vec::new(), values: Vec::new(), control: Control::Idle };
        assert(r@.values =~= Seq::empty());
        r
    }

    /// Gives up the evaluator for its environment.
    pub fn into_env(self) -> (r: Environment)
        ensures
            r@ == self@.env,
    {
        self.env
    }

    fn push(&mut self, value: Value)
        ensures
            final(self)@ == old(self)@.push(value@),
    {
        self.values.push(value);
        assert(self@.values =~= old(self)@.values.push(value@));
    }

    fn pop(&mut self) -> (r: Value)
        ensures
            r@ == old(self)@.top(),
            final(self)@ == old(self)@.pop(),
    {
        match self.values.pop() {
            Some(v) => {
                assert(self@.values =~= old(self)@.values.drop_last());
                v
            },
            None => {
                assert(self@.values =~= old(self)@.values);
                Value::Null
            },
        }
    }

    fn top(&self) -> (r: Value)
        ensures
            r@ == self@.top(),
    {
        if self.values.len() > 0 {
            self.values[self.values.len() - 1].clone()
        } else {
            Value::Null
        }
    }

    fn frame(&mut self, frame: Frame<'a>)
        ensures
            final(self)@ == old(self)@.frame(frame),
    {
        self.frames.push(frame);
    }

    fn unframe(&mut self) -> (r: Frame<'a>)
        requires
            old(self).frames.len() > 0,
        ensures
            final(self)@ == old(self)@.unframe(),
            r == old(self)@.frames.last(),
    {
        match self.frames.pop() {
            Some(f) => f,
            None => Frame::Number,
        }
    }

    fn runs(&mut self, control: Control<'a>) -> (r: Action)
        ensures
            (final(self)@, r@) == old(self)@.runs(control),
    {
        self.control = control;
        Action::Continue
    }

    fn yields(&mut self, value: Value) -> (r: Action)
        ensures
            (final(self)@, r@) == old(self)@.yields(value@),
    {
        self.push(value);
        self.runs(Control::Return)
    }

    fn asks(&mut self, frame: Frame<'a>, action: Action) -> (r: Action)
        ensures
            (final(self)@, r@) == old(self)@.asks(frame, action@),
    {
        self.frame(frame);
        self.control = Control::Wait;
        action
    }

    /// Gives up the scope of every frame, and the frames.
    fn unwind(&mut self)
        ensures
            final(self)@ == (Machine {
                env: unwound(old(self)@.env, old(self)@.frames),
                frames: Seq::empty(),
                ..old(self)@
            }),
    {
        while self.frames.len() > 0
            invariant
                unwound(self@.env, self@.frames) == unwound(old(self)@.env, old(self)@.frames),
                self@.values == old(self)@.values,
                self@.control == old(self)@.control,
            decreases self.frames.len(),
        {
            let f = self.unframe();
            match f {
                Frame::Block(_, _) | Frame::ForBody(_, _, _, _) | Frame::ForStep(_, _, _, _) => {
                    self.env.pop_scope();
                },
                _ => {},
            }
        }
        assert(self@.frames =~= Seq::empty());
    }

    fn fails(&mut self, error: Error) -> (r: Action)
        ensures
            (final(self)@, r@) == old(self)@.fails(error@),
    {
        self.unwind();
        self.values = Vec::new();
        self.control = Control::Idle;
        assert(self@.values =~= Seq::empty());
        Action::Done(Err(error))
    }

    fn fails_at(&mut self, loc: Loc, message: &str) -> (r: Action)
        ensures
            (final(self)@, r@) == old(self)@.fails_at(loc, message@),
    {
        self.fails(Error::new(loc, message))
    }

    /// Fails as a machine whose top frame, taken off before, is `frame`.
    fn fails_under(&mut self, frame: Frame<'a>, loc: Loc, message: &str) -> (r: Action)
        ensures
            (final(self)@, r@) == old(self)@.frame(frame).fails_at(loc, message@),
    {
        self.frame(frame);
        self.fails_at(loc, message)
    }

    /// Loads a program: whatever was under way is given up, and the first
    /// statement is next. The run is then made by `step`, and ends with
    /// the action `Done`: with `null`, or with the first error.
    pub fn interpret(&mut self, stmts: &'a Vec<Stmt>)
        ensures
            final(self)@ == old(self)@.loaded(stmts),
    {
        self.unwind();
        self.values = Vec::new();
        self.values.push(Value::Null);
        self.frames.push(Frame::Program(stmts, 0));
        self.control = Control::Return;
        assert(self@.values =~= seq![ValueView::Null]);
        assert(self@.frames =~= seq![Frame::Program(stmts, 0)]);
    }

    /// Begins to evaluate an expression. What it comes to is on top of the
    /// values once the control is `Return` with the frames as they were.
    pub fn evaluate(&mut self, expr: &'a Expr) -> (r: Action)
        ensures
            (final(self)@, r@) == old(self)@.evaluated(expr),
    {
        match expr {
            Expr::Literal(t) => match &t.token {
                Token::Number(text) => self.asks(Frame::Number, Action::Parse(text.clone())),
                Token::String(s) => self.yields(Value::String(s.clone())),
                Token::True => self.yields(Value::Boolean(true)),
                Token::False => self.yields(Value::Boolean(false)),
                Token::Null => self.yields(Value::Null),
                _ => self.fails_at(t.loc, "Runtime Error: Invalid literal value."),
            },
            Expr::Grouping(e) => self.runs(Control::Evaluate(&**e)),
            Expr::Unary(op, e) => {
                self.frame(Frame::Unary(op));
                self.runs(Control::Evaluate(&**e))
            },
            Expr::Binary(l, op, r) => {
                self.frame(Frame::BinaryRight(op, &**r));
                self.runs(Control::Evaluate(&**l))
            },
            Expr::Variable(t) => match self.env.get(t) {
                Err(e) => self.fails(e),
                Ok(Value::Null) => {
                    let e = Error::quoting(
                        t.loc,
                        "Runtime Error: Cannot use variable '",
                        t.token.text().as_str(),
                        "' before assignment.",
                    );
                    self.fails(e)
                },
                Ok(v) => self.yields(v),
            },
            Expr::Assign(t, e) => {
                self.frame(Frame::Assign(t));
                self.runs(Control::Evaluate(&**e))
            },
            Expr::Logical(l, op, r) => {
                self.frame(Frame::LogicalRight(op, &**r));
                self.runs(Control::Evaluate(&**l))
            },
            _ => self.asks(
                Frame::Warned,
                Action::Print(
                    String::from_str("Warning: Called evaluate expr on a non implemented operation!"),
                ),
            ),
        }
    }

    /// Begins to execute a statement. Its value is on top of the values
    /// once the control is `Return` with the frames as they were.
    pub fn execute(&mut self, stmt: &'a Stmt) -> (r: Action)
        ensures
            (final(self)@, r@) == old(self)@.executed(stmt),
    {
        match stmt {
            Stmt::Expression(e) => self.runs(Control::Evaluate(&**e)),
            Stmt::Log(e) => {
                self.frame(Frame::Log);
                self.runs(Control::Evaluate(&**e))
            },
            Stmt::Declaration(name, init) => match init {
                Some(e) => {
                    self.frame(Frame::Declare(name));
                    self.runs(Control::Evaluate(&**e))
                },
                None => {
                    self.env.define(name, Value::Null);
                    self.yields(Value::Null)
                },
            },
            Stmt::Block(stmts) => {
                self.env.push_scope();
                self.frame(Frame::Block(stmts, 0));
                self.yields(Value::Null)
            },
            Stmt::If(c, t, e) => {
                self.frame(Frame::If(&**c, &**t, e));
                self.runs(Control::Evaluate(&**c))
            },
            Stmt::While(c, body) => {
                self.frame(Frame::WhileCondition(&**c, &**body));
                self.runs(Control::Evaluate(&**c))
            },
            Stmt::For(name, iterable, body) => {
                self.frame(Frame::ForRange(name, &**iterable, &**body));
                self.runs(Control::Evaluate(&**iterable))
            },
            _ => self.fails_at(Loc { line: 0, col: 0, idx: 0 }, "Runtime Error: Not Implemented."),
        }
    }

    /// Applies a binary operator to two values.
    fn apply(&mut self, op: &'a LocToken, left: Value, right: Value) -> (r: Action)
        ensures
            (final(self)@, r@) == old(self)@.applied(op, left@, right@),
    {
        match left.binary(op.token.kind(), right) {
            Outcome::Value(v) => self.yields(v),
            Outcome::Compute(a, x, y) => self.asks(Frame::Number, Action::Compute(a, x, y)),
            Outcome::Concat(n, text, first) => {
                self.push(Value::String(text));
                self.asks(Frame::Concat(first), Action::Show(n))
            },
            Outcome::Fail(message) => self.fails(Error { loc: op.loc, message }),
        }
    }

    /// Logs the value on top of the values.
    fn log(&mut self) -> (r: Action)
        ensures
            (final(self)@, r@) == old(self)@.logged(),
    {
        match self.top() {
            Value::Number(n) => self.asks(Frame::LogShown, Action::Show(n)),
            Value::Range(a, _) => self.asks(Frame::LogRangeStart, Action::Show(a)),
            Value::String(s) => self.asks(Frame::Printed, Action::Print(s)),
            Value::Boolean(b) => self.asks(
                Frame::Printed,
                Action::Print(
                    if b {
                        String::from_str("true")
                    } else {
                        String::from_str("false")
                    },
                ),
            ),
            Value::Null => self.asks(Frame::Printed, Action::Print(String::from_str("null"))),
        }
    }

    /// Hands the value on top of the values to the top frame. Without a
    /// frame the run is over, and the value is its result.
    pub fn resume(&mut self) -> (r: Action)
        ensures
            (final(self)@, r@) == old(self)@.resumed(),
    {
        if self.frames.len() == 0 {
            let v = self.pop();
            self.values = Vec::new();
            self.control = Control::Idle;
            assert(self@.values =~= Seq::empty());
            return Action::Done(Ok(v));
        }
        let f = self.unframe();
        assert(old(self)@.unframe().frame(f) == old(self)@) by {
            assert(old(self)@.frames.drop_last().push(f) =~= old(self)@.frames);
        }
        match f {
            Frame::Unary(op) => {
                let value = self.pop();
                match value.unary(op.token.kind()) {
                    Ok(v) => self.yields(v),
                    Err(message) => self.fails(Error { loc: op.loc, message }),
                }
            },
            Frame::BinaryRight(op, right) => {
                self.frame(Frame::BinaryApply(op));
                self.runs(Control::Evaluate(right))
            },
            Frame::BinaryApply(op) => {
                let right = self.pop();
                let left = self.pop();
                self.apply(op, left, right)
            },
            Frame::LogicalRight(op, right) => {
                let truth = self.pop().is_truthy();
                let kind = op.token.kind();
                if (kind == TokenKind::Or && truth) || (kind == TokenKind::And && !truth) {
                    self.yields(Value::Boolean(truth))
                } else {
                    self.frame(Frame::LogicalApply(op, truth));
                    self.runs(Control::Evaluate(right))
                }
            },
            Frame::LogicalApply(op, l) => {
                let r = self.pop().is_truthy();
                match op.token.kind() {
                    TokenKind::Or => self.yields(Value::Boolean(l || r)),
                    TokenKind::Xor => self.yields(Value::Boolean(l != r)),
                    TokenKind::And => self.yields(Value::Boolean(l && r)),
                    _ => self.fails_at(op.loc, "Runtime Error: Invalid logical operator."),
                }
            },
            Frame::Assign(name) => {
                let value = self.top();
                proof {
                    lemma_assigned(self@.env, name@.token.display(), value@);
                }
                match self.env.assign(name.clone(), value) {
                    Ok(()) => self.runs(Control::Return),
                    Err(e) => self.fails(e),
                }
            },
            Frame::Log => self.log(),
            Frame::Declare(name) => {
                let value = self.pop();
                self.env.define(name, value);
                self.yields(Value::Null)
            },
            Frame::Block(stmts, next) => {
                if next < stmts.len() {
                    self.pop();
                    self.frame(Frame::Block(stmts, next + 1));
                    self.runs(Control::Execute(&stmts[next]))
                } else {
                    self.env.pop_scope();
                    self.runs(Control::Return)
                }
            },
            Frame::Program(stmts, next) => {
                self.pop();
                if next < stmts.len() {
                    self.frame(Frame::Program(stmts, next + 1));
                    self.runs(Control::Execute(&stmts[next]))
                } else {
                    self.yields(Value::Null)
                }
            },
            Frame::If(condition, then_branch, else_branch) => {
                match self.pop() {
                    Value::Boolean(true) => self.runs(Control::Execute(then_branch)),
                    Value::Boolean(false) => match else_branch {
                        Some(s) => self.runs(Control::Execute(&**s)),
                        None => self.yields(Value::Null),
                    },
                    _ => self.fails_at(condition.loc(), "Runtime Error: Invalid condition."),
                }
            },
            Frame::WhileCondition(condition, body) => {
                if self.pop().is_truthy() {
                    self.frame(Frame::WhileBody(condition, body));
                    self.runs(Control::Execute(body))
                } else {
                    self.yields(Value::Null)
                }
            },
            Frame::WhileBody(condition, body) => {
                self.pop();
                self.frame(Frame::WhileCondition(condition, body));
                self.runs(Control::Evaluate(condition))
            },
            Frame::ForRange(name, iterable, body) => {
                match self.pop() {
                    Value::Range(start, end) => {
                        self.env.push_scope();
                        let variable = loop_token(name, iterable);
                        self.env.define(&variable, Value::Number(start));
                        self.frame(Frame::ForBody(name, iterable, body, end));
                        self.runs(Control::Execute(body))
                    },
                    _ => self.fails_at(
                        iterable.loc(),
                        "Runtime Error: For loop iterable must be a range.",
                    ),
                }
            },
            Frame::ForBody(name, iterable, body, end) => {
                self.pop();
                let variable = loop_token(name, iterable);
                match self.env.get(&variable) {
                    Ok(Value::Number(i)) => self.asks(
                        Frame::ForStep(name, iterable, body, end),
                        Action::Compute(Arith::Add, i, Number::one()),
                    ),
                    _ => {
                        self.env.pop_scope();
                        self.fails_at(
                            iterable.loc(),
                            "Runtime Error: For loop variable must be a number.",
                        )
                    },
                }
            },
            _ => self.fails_under(f, Loc { line: 0, col: 0, idx: 0 }, "Runtime Error: Unexpected reply."),
        }
    }

    /// Takes the caller's answer to the last action.
    pub fn reply(&mut self, event: Event) -> (r: Action)
        ensures
            (final(self)@, r@) == old(self)@.replied(event@),
    {
        if self.frames.len() == 0 {
            return self.fails_at(Loc { line: 0, col: 0, idx: 0 }, "Runtime Error: Unexpected reply.");
        }
        let f = self.unframe();
        assert(old(self)@.unframe().frame(f) == old(self)@) by {
            assert(old(self)@.frames.drop_last().push(f) =~= old(self)@.frames);
        }
        match f {
            Frame::Number => match event {
                Event::Number(n) => self.yields(Value::Number(n)),
                _ => self.fails_under(f, Loc { line: 0, col: 0, idx: 0 }, "Runtime Error: Unexpected reply."),
            },
            Frame::Concat(first) => match event {
                Event::Text(t) => {
                    match self.top() {
                        Value::String(s) => {
                            self.pop();
                            if first {
                                let mut joined = t;
                                joined.append(s.as_str());
                                self.yields(Value::String(joined))
                            } else {
                                let mut joined = s;
                                joined.append(t.as_str());
                                self.yields(Value::String(joined))
                            }
                        },
                        _ => {
                            self.fails_under(
                                f,
                                Loc { line: 0, col: 0, idx: 0 },
                                "Runtime Error: Unexpected reply.",
                            )
                        },
                    }
                },
                _ => self.fails_under(f, Loc { line: 0, col: 0, idx: 0 }, "Runtime Error: Unexpected reply."),
            },
            Frame::Warned => self.yields(Value::Null),
            Frame::LogShown => match event {
                Event::Text(t) => self.asks(Frame::Printed, Action::Print(t)),
                _ => self.fails_under(f, Loc { line: 0, col: 0, idx: 0 }, "Runtime Error: Unexpected reply."),
            },
            Frame::LogRangeStart => match event {
                Event::Text(t) => {
                    match self.top() {
                        Value::Range(_, end) => {
                            self.push(Value::String(t));
                            self.asks(Frame::LogRangeEnd, Action::Show(end))
                        },
                        _ => {
                            self.fails_under(
                                f,
                                Loc { line: 0, col: 0, idx: 0 },
                                "Runtime Error: Unexpected reply.",
                            )
                        },
                    }
                },
                _ => self.fails_under(f, Loc { line: 0, col: 0, idx: 0 }, "Runtime Error: Unexpected reply."),
            },
            Frame::LogRangeEnd => match event {
                Event::Text(t) => {
                    match self.top() {
                        Value::String(s) => {
                            self.pop();
                            let mut line = s;
                            line.append("..");
                            line.append(t.as_str());
                            self.asks(Frame::Printed, Action::Print(line))
                        },
                        _ => {
                            self.fails_under(
                                f,
                                Loc { line: 0, col: 0, idx: 0 },
                                "Runtime Error: Unexpected reply.",
                            )
                        },
                    }
                },
                _ => self.fails_under(f, Loc { line: 0, col: 0, idx: 0 }, "Runtime Error: Unexpected reply."),
            },
            Frame::Printed => self.runs(Control::Return),
            Frame::ForStep(name, iterable, body, end) => match event {
                Event::Number(n) => {
                    let variable = loop_token(name, iterable);
                    proof {
                        lemma_assigned(self@.env, variable@.token.display(), ValueView::Number(n));
                    }
                    match self.env.assign(variable, Value::Number(n)) {
                        Ok(()) => {
                            if end.less_or_same(n) {
                                self.env.pop_scope();
                                self.yields(Value::Null)
                            } else {
                                self.frame(Frame::ForBody(name, iterable, body, end));
                                self.runs(Control::Execute(body))
                            }
                        },
                        Err(e) => {
                            self.frame(f);
                            self.fails(e)
                        },
                    }
                },
                _ => self.fails_under(f, Loc { line: 0, col: 0, idx: 0 }, "Runtime Error: Unexpected reply."),
            },
            _ => self.fails_under(f, Loc { line: 0, col: 0, idx: 0 }, "Runtime Error: Unexpected reply."),
        }
    }

    /// One step of the run: what the control says is done, and the action
    /// says what the caller is to do before the next step. The event is
    /// the answer to the action of the step before; it is read only where
    /// the machine waits for one.
    pub fn step(&mut self, event: Event) -> (r: Action)
        ensures
            (final(self)@, r@) == old(self)@.stepped(event@),
    {
        match self.control {
            Control::Idle => Action::Done(Ok(Value::Null)),
            Control::Evaluate(expr) => self.evaluate(expr),
            Control::Execute(stmt) => self.execute(stmt),
            Control::Return => self.resume(),
            Control::Wait => self.reply(event),
        }
    }

    /// Steps until an action asks something of the caller, or ends the
    /// run, or `budget` steps are made; then the action is `Continue`.
    pub fn advance(&mut self, event: Event, budget: usize) -> (r: Action)
        ensures
            (final(self)@, r@) == old(self)@.advanced(event@, budget as nat),
    {
        let mut steps: usize = budget;
        let mut pending = event;
        while steps > 0
            invariant
                self@.advanced(pending@, steps as nat) == old(self)@.advanced(
                    event@,
                    budget as nat,
                ),
            decreases steps,
        {
            let action = self.step(pending);
            match action {
                Action::Continue => {
                    pending = Event::Resume;
                    steps -= 1;
                },
                _ => {
                    return action;
                },
            }
        }
        Action::Continue
    }
}

} // verus!
