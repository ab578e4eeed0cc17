//! The parser: located tokens to statements, by recursive descent with one
//! token of lookahead.
//!
//! The grammar is written twice. The specification functions read a
//! sequence of tokens at an index and give the tree and the number of
//! tokens that it took, or the first error. The parser's methods do the
//! same on a vector, and each is proved to agree with its specification.
use vstd::prelude::*;
use crate::ast::{stmt_views, Expr, Stmt, StmtView};
use crate::icps::{Error, ErrorView};
use crate::scanner::{origin, Loc, LocToken};
use crate::token::{Lexeme, Token, TokenKind};

verus! {

/// The outcome of a production: what was built and how many tokens it took,
/// or the first error.
pub type Parsed<T> = Result<(T, nat), ErrorView>;

/// The token at index `p`. Behind the last token stands an end-of-input
/// token at the last token's place.
pub open spec fn token_at(ts: Seq<LocToken>, p: int) -> LocToken {
    if 0 <= p < ts.len() {
        ts[p]
    } else {
        LocToken {
            token: Token::Eof,
            loc: if ts.len() > 0 {
                ts.last().loc
            } else {
                origin()
            },
        }
    }
}

/// The kind of the token at index `p`.
pub open spec fn kind_at(ts: Seq<LocToken>, p: int) -> TokenKind {
    token_at(ts, p).token.kind()
}

/// The number of tokens from index `p` on.
pub open spec fn remaining(ts: Seq<LocToken>, p: int) -> nat {
    if p < ts.len() {
        (ts.len() - p) as nat
    } else {
        0
    }
}

/// The outcome with `k` more tokens taken.
pub open spec fn after<T>(r: Parsed<T>, k: nat) -> Parsed<T> {
    match r {
        Ok((v, n)) => Ok((v, n + k)),
        Err(e) => Err(e),
    }
}

/// The error of a missing token.
pub open spec fn expected(token: Lexeme, loc: Loc) -> ErrorView {
    ErrorView { loc, message: "Expected closing '"@ + token.display() + "' after statement."@ }
}

/// The error of a statement that does not end where it should.
pub open spec fn unterminated(loc: Loc) -> ErrorView {
    ErrorView { loc, message: "Expected ';' or newline after statement."@ }
}

/// One token if a newline stands at index `p`, none otherwise.
pub open spec fn newline(ts: Seq<LocToken>, p: int) -> nat {
    if kind_at(ts, p) == TokenKind::Newline {
        1
    } else {
        0
    }
}

/// The tokens that end a statement at index `p`: a `;`, a newline, or a
/// `;` and a newline behind it; none at the end of input. `None` where the
/// statement does not end there.
pub open spec fn terminator(ts: Seq<LocToken>, p: int) -> Option<nat> {
    let s: nat = if kind_at(ts, p) == TokenKind::Semicolon {
        1
    } else {
        0
    };
    let n = s + newline(ts, p + s);
    if n > 0 || kind_at(ts, p) == TokenKind::Eof {
        Some(n)
    } else {
        None
    }
}

/// As `terminator`, but a statement also ends before `else`, which is left
/// in place.
pub open spec fn terminator_or_else(ts: Seq<LocToken>, p: int) -> Option<nat> {
    match terminator(ts, p) {
        Some(n) => Some(n),
        None => if kind_at(ts, p) == TokenKind::Else {
            Some(0)
        } else {
            None
        },
    }
}

/// The levels of binary operators, from the tightest to the loosest.
#[derive(Clone, Copy, Debug, PartialEq, Eq, Structural)]
pub enum Level {
    Range,
    Factor,
    Term,
    Comparison,
    Equality,
    And,
    Or,
}

impl Level {
    /// The position of the level, counted from the tightest.
    pub open spec fn rank(self) -> nat {
        match self {
            Level::Range => 0,
            Level::Factor => 1,
            Level::Term => 2,
            Level::Comparison => 3,
            Level::Equality => 4,
            Level::And => 5,
            Level::Or => 6,
        }
    }

    /// Whether a token of the kind is an operator of the level.
    pub open spec fn has(self, kind: TokenKind) -> bool {
        match self {
            Level::Range => kind == TokenKind::Range,
            Level::Factor => kind == TokenKind::Slash || kind == TokenKind::Star,
            Level::Term => kind == TokenKind::Minus || kind == TokenKind::Plus,
            Level::Comparison => kind == TokenKind::Greater || kind == TokenKind::GreaterEqual
                || kind == TokenKind::Less || kind == TokenKind::LessEqual,
            Level::Equality => kind == TokenKind::BangEqual || kind == TokenKind::EqualEqual,
            Level::And => kind == TokenKind::And,
            Level::Or => kind == TokenKind::Or || kind == TokenKind::Xor,
        }
    }

    /// The node for `left op right` at the level: a logical node for
    /// `and`, `or` and `xor`, a binary node otherwise.
    pub open spec fn node(self, left: Expr, op: LocToken, right: Expr) -> Expr {
        match self {
            Level::And | Level::Or => Expr::Logical(Box::new(left), op, Box::new(right)),
            _ => Expr::Binary(Box::new(left), op, Box::new(right)),
        }
    }
}

/// primary ::= literal | identifier | `(` expression `)`
pub open spec fn primary(ts: Seq<LocToken>, p: int) -> Parsed<Expr>
    decreases remaining(ts, p), 0nat,
{
    let t = token_at(ts, p);
    match t.token.kind() {
        TokenKind::False | TokenKind::True | TokenKind::Null | TokenKind::Number
        | TokenKind::String => Ok((Expr::Literal(t), 1)),
        TokenKind::Identifier => Ok((Expr::Variable(t), 1)),
        TokenKind::LeftParen => match expression(ts, p + 1) {
            Ok((e, n)) => if kind_at(ts, p + 1 + n) == TokenKind::RightParen {
                Ok((Expr::Grouping(Box::new(e)), n + 2))
            } else {
                Err(expected(Lexeme::plain(TokenKind::RightParen), token_at(ts, p + 1 + n).loc))
            },
            Err(x) => Err(x),
        },
        _ => Err(
            ErrorView {
                loc: t.loc,
                message: "Expected expression, but found '"@ + t.token@.display() + "'."@,
            },
        ),
    }
}

/// unary ::= (`!` | `-`) unary | primary
pub open spec fn unary(ts: Seq<LocToken>, p: int) -> Parsed<Expr>
    decreases remaining(ts, p), 1nat,
{
    if kind_at(ts, p) == TokenKind::Bang || kind_at(ts, p) == TokenKind::Minus {
        match unary(ts, p + 1) {
            Ok((right, n)) => Ok((Expr::Unary(token_at(ts, p), Box::new(right)), n + 1)),
            Err(x) => Err(x),
        }
    } else {
        primary(ts, p)
    }
}

/// An operand of a level: a production of the next tighter level. A range
/// is made of unaries, and so is what stands to the right of `*` and `/`.
pub open spec fn operand(ts: Seq<LocToken>, level: Level, right: bool, p: int) -> Parsed<Expr>
    decreases remaining(ts, p), 3 * level.rank() + 2,
{
    match level {
        Level::Range => unary(ts, p),
        Level::Factor => if right {
            unary(ts, p)
        } else {
            chain(ts, Level::Range, p)
        },
        Level::Term => chain(ts, Level::Factor, p),
        Level::Comparison => chain(ts, Level::Term, p),
        Level::Equality => chain(ts, Level::Comparison, p),
        Level::And => chain(ts, Level::Equality, p),
        Level::Or => chain(ts, Level::And, p),
    }
}

/// What follows the operand `left` at a level: operators of the level,
/// each with its right operand, folded to the left.
pub open spec fn chain_rest(ts: Seq<LocToken>, level: Level, left: Expr, p: int) -> Parsed<Expr>
    decreases remaining(ts, p), 3 * level.rank() + 3,
{
    if level.has(kind_at(ts, p)) {
        match operand(ts, level, true, p + 1) {
            Ok((right, n)) => after(
                chain_rest(ts, level, level.node(left, token_at(ts, p), right), p + 1 + n),
                n + 1,
            ),
            Err(x) => Err(x),
        }
    } else {
        Ok((left, 0))
    }
}

/// A left-associative chain of a level:
///
/// range ::= unary ( `..` unary )*
/// factor ::= range ( (`*` | `/`) unary )*
/// term ::= factor ( (`+` | `-`) factor )*
/// comparison ::= term ( (`>` | `>=` | `<` | `<=`) term )*
/// equality ::= comparison ( (`==` | `!=`) comparison )*
/// logical-and ::= equality ( `and` equality )*
/// logical-or ::= logical-and ( (`or` | `xor`) logical-and )*
pub open spec fn chain(ts: Seq<LocToken>, level: Level, p: int) -> Parsed<Expr>
    decreases remaining(ts, p), 3 * level.rank() + 4,
{
    match operand(ts, level, false, p) {
        Ok((left, n)) => after(chain_rest(ts, level, left, p + n), n),
        Err(x) => Err(x),
    }
}

/// assignment ::= logical-or ( `=` assignment )?
///
/// What stands left of `=` must be a variable.
pub open spec fn assignment(ts: Seq<LocToken>, p: int) -> Parsed<Expr>
    decreases remaining(ts, p), 23nat,
{
    match chain(ts, Level::Or, p) {
        Ok((target, n)) => if kind_at(ts, p + n) == TokenKind::Equal {
            match assignment(ts, p + n + 1) {
                Ok((value, m)) => match target {
                    Expr::Variable(name) => Ok((Expr::Assign(name, Box::new(value)), n + 1 + m)),
                    _ => Err(
                        ErrorView {
                            loc: token_at(ts, p + n).loc,
                            message: "Invalid assignment target."@,
                        },
                    ),
                },
                Err(x) => Err(x),
            }
        } else {
            Ok((target, n))
        },
        Err(x) => Err(x),
    }
}

/// expression ::= assignment
pub open spec fn expression(ts: Seq<LocToken>, p: int) -> Parsed<Expr>
    decreases remaining(ts, p), 24nat,
{
    assignment(ts, p)
}

/// An expression and the end of its statement.
pub open spec fn terminated(ts: Seq<LocToken>, p: int) -> Parsed<Expr>
    decreases remaining(ts, p), 25nat,
{
    match expression(ts, p) {
        Ok((e, n)) => match terminator_or_else(ts, p + n) {
            Some(k) => Ok((e, n + k)),
            None => Err(unterminated(token_at(ts, p + n).loc)),
        },
        Err(x) => Err(x),
    }
}

/// What follows `var`: a name, an initializer if `=` follows, and the end
/// of the statement.
pub open spec fn variable(ts: Seq<LocToken>, p: int) -> Parsed<StmtView>
    decreases remaining(ts, p), 25nat,
{
    if kind_at(ts, p) == TokenKind::Identifier {
        let name = token_at(ts, p);
        if kind_at(ts, p + 1) == TokenKind::Equal {
            match expression(ts, p + 2) {
                Ok((e, n)) => match terminator(ts, p + 2 + n) {
                    Some(k) => Ok((StmtView::Declaration(name, Some(e)), n + k + 2)),
                    None => Err(unterminated(token_at(ts, p + 2 + n).loc)),
                },
                Err(x) => Err(x),
            }
        } else {
            match terminator(ts, p + 1) {
                Some(k) => Ok((StmtView::Declaration(name, None), k + 1)),
                None => Err(unterminated(token_at(ts, p + 1).loc)),
            }
        }
    } else {
        Err(
            expected(
                Lexeme { kind: TokenKind::Identifier, text: Seq::empty() },
                token_at(ts, p).loc,
            ),
        )
    }
}

/// statement ::= `if` if-statement | `log` expression | `while` loop
///     | `for` loop | `{` block | expression
pub open spec fn statement(ts: Seq<LocToken>, p: int) -> Parsed<StmtView>
    decreases remaining(ts, p), 26nat,
{
    match kind_at(ts, p) {
        TokenKind::If => after(if_statement(ts, p + 1), 1),
        TokenKind::Log => match terminated(ts, p + 1) {
            Ok((e, n)) => Ok((StmtView::Log(e), n + 1)),
            Err(x) => Err(x),
        },
        TokenKind::While => after(while_loop(ts, p + 1), 1),
        TokenKind::For => after(for_loop(ts, p + 1), 1),
        TokenKind::LeftBrace => match block(ts, p + 1) {
            Ok((stmts, n)) => Ok((StmtView::Block(stmts), n + 1)),
            Err(x) => Err(x),
        },
        _ => match terminated(ts, p) {
            Ok((e, n)) => Ok((StmtView::Expression(e), n)),
            Err(x) => Err(x),
        },
    }
}

/// What follows `if`: a condition, a statement, and after `else` another
/// statement; a newline may stand before each of the three.
pub open spec fn if_statement(ts: Seq<LocToken>, p: int) -> Parsed<StmtView>
    decreases remaining(ts, p), 27nat,
{
    match expression(ts, p) {
        Ok((condition, n)) => {
            let then_at = p + n + newline(ts, p + n);
            match statement(ts, then_at) {
                Ok((then_branch, m)) => {
                    let else_at = then_at + m + newline(ts, then_at + m);
                    if kind_at(ts, else_at) == TokenKind::Else {
                        let other_at = else_at + 1 + newline(ts, else_at + 1);
                        match statement(ts, other_at) {
                            Ok((else_branch, k)) => Ok(
                                (
                                    StmtView::If(
                                        condition,
                                        Box::new(then_branch),
                                        Some(Box::new(else_branch)),
                                    ),
                                    (other_at + k - p) as nat,
                                ),
                            ),
                            Err(x) => Err(x),
                        }
                    } else {
                        Ok(
                            (
                                StmtView::If(condition, Box::new(then_branch), None),
                                (else_at - p) as nat,
                            ),
                        )
                    }
                },
                Err(x) => Err(x),
            }
        },
        Err(x) => Err(x),
    }
}

/// What follows `while`: a condition and, after a newline or none, a body.
pub open spec fn while_loop(ts: Seq<LocToken>, p: int) -> Parsed<StmtView>
    decreases remaining(ts, p), 27nat,
{
    match expression(ts, p) {
        Ok((condition, n)) => {
            let body_at = p + n + newline(ts, p + n);
            match statement(ts, body_at) {
                Ok((body, m)) => Ok(
                    (StmtView::While(condition, Box::new(body)), (body_at + m - p) as nat),
                ),
                Err(x) => Err(x),
            }
        },
        Err(x) => Err(x),
    }
}

/// What follows `for`: a name or none, a range and, after a newline or
/// none, a body.
pub open spec fn for_loop(ts: Seq<LocToken>, p: int) -> Parsed<StmtView>
    decreases remaining(ts, p), 27nat,
{
    let named = kind_at(ts, p) == TokenKind::Identifier;
    let name = if named {
        Some(token_at(ts, p))
    } else {
        None
    };
    let range_at = if named {
        p + 1
    } else {
        p
    };
    match chain(ts, Level::Range, range_at) {
        Ok((iterable, n)) => {
            let body_at = range_at + n + newline(ts, range_at + n);
            match statement(ts, body_at) {
                Ok((body, m)) => Ok(
                    (StmtView::For(name, iterable, Box::new(body)), (body_at + m - p) as nat),
                ),
                Err(x) => Err(x),
            }
        },
        Err(x) => Err(x),
    }
}

/// declaration ::= `var` variable | statement
pub open spec fn declaration(ts: Seq<LocToken>, p: int) -> Parsed<StmtView>
    decreases remaining(ts, p), 27nat,
{
    if kind_at(ts, p) == TokenKind::Var {
        after(variable(ts, p + 1), 1)
    } else {
        statement(ts, p)
    }
}

/// The declarations of a block after `acc`, up to and including the `}`.
/// Newlines between them are passed over. (A declaration takes at least
/// one token: `lemma_declaration_takes`.)
pub open spec fn block_rest(ts: Seq<LocToken>, p: int, acc: Seq<StmtView>) -> Parsed<
    Seq<StmtView>,
>
    decreases remaining(ts, p), 28nat,
{
    if kind_at(ts, p) == TokenKind::RightBrace {
        Ok((acc, 1))
    } else if kind_at(ts, p) == TokenKind::Newline {
        after(block_rest(ts, p + 1, acc), 1)
    } else if kind_at(ts, p) == TokenKind::Eof {
        Err(expected(Lexeme::plain(TokenKind::RightBrace), token_at(ts, p).loc))
    } else {
        match declaration(ts, p) {
            Ok((stmt, n)) => if n == 0 {
                Ok((acc.push(stmt), 0))
            } else {
                after(block_rest(ts, p + n, acc.push(stmt)), n)
            },
            Err(x) => Err(x),
        }
    }
}

/// What follows `{`: declarations, with newlines between them, and `}`.
pub open spec fn block(ts: Seq<LocToken>, p: int) -> Parsed<Seq<StmtView>>
    decreases remaining(ts, p), 29nat,
{
    block_rest(ts, p, Seq::empty())
}

/// The declarations of a program after `acc`, up to the end of input.
/// Semicolons and newlines between them are passed over.
pub open spec fn program(ts: Seq<LocToken>, p: int, acc: Seq<StmtView>) -> Result<
    Seq<StmtView>,
    ErrorView,
>
    decreases remaining(ts, p), 28nat,
{
    if kind_at(ts, p) == TokenKind::Eof {
        Ok(acc)
    } else if kind_at(ts, p) == TokenKind::Semicolon || kind_at(ts, p) == TokenKind::Newline {
        program(ts, p + 1, acc)
    } else {
        match declaration(ts, p) {
            Ok((stmt, n)) => if n == 0 {
                Ok(acc.push(stmt))
            } else {
                program(ts, p + n, acc.push(stmt))
            },
            Err(x) => Err(x),
        }
    }
}

/// The statements of a whole program.
pub open spec fn parsed(ts: Seq<LocToken>) -> Result<Seq<StmtView>, ErrorView> {
    program(ts, 0, Seq::empty())
}

/// A unary takes at least one token.
pub proof fn lemma_unary_takes(ts: Seq<LocToken>, p: int)
    ensures
        unary(ts, p) matches Ok((_, n)) ==> n >= 1,
{
    if !(kind_at(ts, p) == TokenKind::Bang || kind_at(ts, p) == TokenKind::Minus) {
        assert(unary(ts, p) == primary(ts, p));
    }
}

/// A chain takes at least one token.
pub proof fn lemma_chain_takes(ts: Seq<LocToken>, level: Level, p: int)
    ensures
        chain(ts, level, p) matches Ok((_, n)) ==> n >= 1,
        operand(ts, level, false, p) matches Ok((_, n)) ==> n >= 1,
    decreases level.rank(),
{
    match level {
        Level::Range => lemma_unary_takes(ts, p),
        Level::Factor => lemma_chain_takes(ts, Level::Range, p),
        Level::Term => lemma_chain_takes(ts, Level::Factor, p),
        Level::Comparison => lemma_chain_takes(ts, Level::Term, p),
        Level::Equality => lemma_chain_takes(ts, Level::Comparison, p),
        Level::And => lemma_chain_takes(ts, Level::Equality, p),
        Level::Or => lemma_chain_takes(ts, Level::And, p),
    }
}

/// A declaration takes at least one token.
pub proof fn lemma_declaration_takes(ts: Seq<LocToken>, p: int)
    ensures
        declaration(ts, p) matches Ok((_, n)) ==> n >= 1,
{
    lemma_chain_takes(ts, Level::Or, p);
}

/// One round of a block: after a declaration of `n` tokens the rest of the
/// block is read, and its count grows by `n`.
pub proof fn lemma_block_rest_step(
    ts: Seq<LocToken>,
    p: int,
    acc: Seq<StmtView>,
    first: int,
    done: nat,
)
    requires
        kind_at(ts, p) != TokenKind::RightBrace,
        kind_at(ts, p) != TokenKind::Eof,
        block_rest(ts, first, Seq::empty()) == after(block_rest(ts, p, acc), done),
    ensures
        kind_at(ts, p) == TokenKind::Newline ==> block_rest(ts, first, Seq::empty()) == after(
            block_rest(ts, p + 1, acc),
            done + 1,
        ),
        kind_at(ts, p) != TokenKind::Newline ==> match declaration(ts, p) {
            Ok((stmt, n)) => block_rest(ts, first, Seq::empty()) == after(
                block_rest(ts, p + n, acc.push(stmt)),
                done + n,
            ),
            Err(x) => block_rest(ts, first, Seq::empty()) == Err::<(Seq<StmtView>, nat), ErrorView>(
                x,
            ),
        },
{
    lemma_declaration_takes(ts, p);
}

impl Level {
    /// Whether a token of the kind is an operator of the level.
    pub fn holds(&self, kind: TokenKind) -> (r: bool)
        ensures
            r == self.has(kind),
    {
        match self {
            Level::Range => kind == TokenKind::Range,
            Level::Factor => kind == TokenKind::Slash || kind == TokenKind::Star,
            Level::Term => kind == TokenKind::Minus || kind == TokenKind::Plus,
            Level::Comparison => kind == TokenKind::Greater || kind == TokenKind::GreaterEqual
                || kind == TokenKind::Less || kind == TokenKind::LessEqual,
            Level::Equality => kind == TokenKind::BangEqual || kind == TokenKind::EqualEqual,
            Level::And => kind == TokenKind::And,
            Level::Or => kind == TokenKind::Or || kind == TokenKind::Xor,
        }
    }

    /// The node for `left op right` at the level.
    pub fn build(&self, left: Expr, op: LocToken, right: Expr) -> (r: Expr)
        ensures
            r == self.node(left, op, right),
    {
        match self {
            Level::And | Level::Or => Expr::Logical(Box::new(left), op, Box::new(right)),
            _ => Expr::Binary(Box::new(left), op, Box::new(right)),
        }
    }
}

/// The parser over one vector of tokens.
pub struct Parser<'a> {
    /// The tokens.
    pub tokens: &'a Vec<LocToken>,
    /// The index of the next token.
    pub cur: usize,
}

impl<'a> Parser<'a> {
    /// The parser stands within its tokens or right behind them.
    pub open spec fn wf(&self) -> bool {
        self.cur <= self.tokens.len()
    }

    /// Whether `next` and `r` are what a production leaves that was
    /// specified as `expected`: the value and the tokens taken, or the
    /// error.
    pub open spec fn gives<T>(&self, next: &Parser<'a>, r: Result<T, Error>, expected: Parsed<T>) -> bool {
        &&& next.tokens == self.tokens
        &&& next.wf()
        &&& match expected {
            Ok((v, n)) => r == Ok::<T, Error>(v) && next.cur == self.cur + n,
            Err(x) => r matches Err(e) && e@ == x,
        }
    }

    /// As `gives`, for a statement, which is compared by its view.
    pub open spec fn gives_stmt(
        &self,
        next: &Parser<'a>,
        r: Result<Stmt, Error>,
        expected: Parsed<StmtView>,
    ) -> bool {
        &&& next.tokens == self.tokens
        &&& next.wf()
        &&& match expected {
            Ok((v, n)) => r matches Ok(s) && s@ == v && next.cur == self.cur + n,
            Err(x) => r matches Err(e) && e@ == x,
        }
    }

    /// As `gives`, for the end of a statement.
    pub open spec fn gives_end(
        &self,
        next: &Parser<'a>,
        r: Result<(), Error>,
        expected: Option<nat>,
    ) -> bool {
        &&& next.tokens == self.tokens
        &&& next.wf()
        &&& match expected {
            Some(n) => r is Ok && next.cur == self.cur + n,
            None => r matches Err(e) && e@ == unterminated(
                token_at(self.tokens@, self.cur as int).loc,
            ),
        }
    }

    /// A parser at the first of the tokens.
    pub fn new(tokens: &'a Vec<LocToken>) -> (r: Parser<'a>)
        ensures
            r.tokens == tokens,
            r.cur == 0,
            r.wf(),
    {
        Parser { tokens, cur: 0 }
    }

    /// Parses the tokens from where the parser stands to the end of input.
    /// The result is the statements in order, or the first error; nothing
    /// is recovered after an error.
    pub fn parse(&mut self) -> (r: Result<Vec<Stmt>, Error>)
        requires
            old(self).wf(),
        ensures
            match program(old(self).tokens@, old(self).cur as int, Seq::empty()) {
                Ok(v) => r matches Ok(stmts) && stmt_views(stmts@) == v,
                Err(x) => r matches Err(e) && e@ == x,
            },
    {
        let mut statements: Vec<Stmt> = Vec::new();
        assert(stmt_views(statements@) =~= Seq::empty());
        while !self.is_at_end()
            invariant
                self.wf(),
                self.tokens == old(self).tokens,
                program(self.tokens@, self.cur as int, stmt_views(statements@)) == program(
                    old(self).tokens@,
                    old(self).cur as int,
                    Seq::empty(),
                ),
            decreases remaining(self.tokens@, self.cur as int),
        {
            if self.eat(TokenKind::Semicolon) || self.eat(TokenKind::Newline) {
                continue ;
            }
            proof {
                lemma_declaration_takes(self.tokens@, self.cur as int);
            }
            let ghost before = stmt_views(statements@);
            match self.declaration() {
                Ok(stmt) => {
                    statements.push(stmt);
                    assert(stmt_views(statements@) =~= before.push(stmt@));
                },
                Err(e) => {
                    return Err(e);
                },
            }
        }
        Ok(statements)
    }

    /// The kind of the next token.
    fn kind(&self) -> (r: TokenKind)
        ensures
            r == kind_at(self.tokens@, self.cur as int),
    {
        if self.cur < self.tokens.len() {
            self.tokens[self.cur].token.kind()
        } else {
            TokenKind::Eof
        }
    }

    /// Takes the next token, which is not the end of input.
    fn advance(&mut self) -> (r: LocToken)
        requires
            old(self).wf(),
            kind_at(old(self).tokens@, old(self).cur as int) != TokenKind::Eof,
        ensures
            final(self).tokens == old(self).tokens,
            final(self).cur == old(self).cur + 1,
            final(self).wf(),
            r == token_at(old(self).tokens@, old(self).cur as int),
    {
        self.cur = self.cur + 1;
        self.previous()
    }

    fn is_at_end(&self) -> (r: bool)
        ensures
            r == (kind_at(self.tokens@, self.cur as int) == TokenKind::Eof),
    {
        self.kind() == TokenKind::Eof
    }

    /// The next token.
    fn peek(&self) -> (r: LocToken)
        ensures
            r == token_at(self.tokens@, self.cur as int),
    {
        if self.cur < self.tokens.len() {
            self.tokens[self.cur].clone()
        } else if self.tokens.len() > 0 {
            LocToken { token: Token::Eof, loc: self.tokens[self.tokens.len() - 1].loc }
        } else {
            LocToken { token: Token::Eof, loc: Loc { line: 1, col: 1, idx: 0 } }
        }
    }

    /// The token before the next one.
    fn previous(&self) -> (r: LocToken)
        requires
            1 <= self.cur <= self.tokens.len(),
        ensures
            r == self.tokens@[self.cur - 1],
    {
        self.tokens[self.cur - 1].clone()
    }

    /// Whether the next token is of the kind and not the end of input.
    fn check(&self, kind: TokenKind) -> (r: bool)
        ensures
            r == (kind != TokenKind::Eof && kind_at(self.tokens@, self.cur as int) == kind),
    {
        if self.is_at_end() {
            false
        } else {
            self.kind() == kind
        }
    }

    /// Takes the next token if it is of the kind.
    fn eat(&mut self, kind: TokenKind) -> (r: bool)
        requires
            old(self).wf(),
        ensures
            final(self).tokens == old(self).tokens,
            final(self).wf(),
            r == (kind != TokenKind::Eof && kind_at(old(self).tokens@, old(self).cur as int)
                == kind),
            final(self).cur == if r {
                old(self).cur + 1
            } else {
                old(self).cur as int
            },
    {
        if self.check(kind) {
            self.advance();
            true
        } else {
            false
        }
    }

    /// Takes the next token, which must be of the kind of `token`.
    fn consume(&mut self, token: Token) -> (r: Result<LocToken, Error>)
        requires
            old(self).wf(),
            token.kind() != TokenKind::Eof,
        ensures
            final(self).tokens == old(self).tokens,
            final(self).wf(),
            kind_at(old(self).tokens@, old(self).cur as int) == token.kind() ==> r == Ok::<
                LocToken,
                Error,
            >(token_at(old(self).tokens@, old(self).cur as int)) && final(self).cur == old(
                self,
            ).cur + 1,
            kind_at(old(self).tokens@, old(self).cur as int) != token.kind() ==> (r matches Err(
                e,
            ) && e@ == expected(token@, token_at(old(self).tokens@, old(self).cur as int).loc)),
    {
        if self.check(token.kind()) {
            Ok(self.advance())
        } else {
            let found = self.peek();
            Err(
                Error::quoting(
                    found.loc,
                    "Expected closing '",
                    token.text().as_str(),
                    "' after statement.",
                ),
            )
        }
    }

    /// The end of a statement, or `else`, which is left in place.
    fn end_statement_if_not_else(&mut self) -> (r: Result<(), Error>)
        requires
            old(self).wf(),
        ensures
            old(self).gives_end(
                final(self),
                r,
                terminator_or_else(old(self).tokens@, old(self).cur as int),
            ),
    {
        let semicolon = self.eat(TokenKind::Semicolon);
        let newline = self.eat(TokenKind::Newline);
        if semicolon || newline || self.is_at_end() || self.kind() == TokenKind::Else {
            Ok(())
        } else {
            Err(Error::new(self.peek().loc, "Expected ';' or newline after statement."))
        }
    }

    /// The end of a statement: a `;`, a newline, both, or the end of input.
    fn end_statement(&mut self) -> (r: Result<(), Error>)
        requires
            old(self).wf(),
        ensures
            old(self).gives_end(final(self), r, terminator(old(self).tokens@, old(self).cur as int)),
    {
        let semicolon = self.eat(TokenKind::Semicolon);
        let newline = self.eat(TokenKind::Newline);
        if semicolon || newline || self.is_at_end() {
            Ok(())
        } else {
            Err(Error::new(self.peek().loc, "Expected ';' or newline after statement."))
        }
    }

    fn declaration(&mut self) -> (r: Result<Stmt, Error>)
        requires
            old(self).wf(),
        ensures
            old(self).gives_stmt(final(self), r, declaration(old(self).tokens@, old(self).cur as int)),
        decreases remaining(old(self).tokens@, old(self).cur as int), 44nat,
    {
        if self.eat(TokenKind::Var) {
            self.variable()
        } else {
            self.statement()
        }
    }

    fn statement(&mut self) -> (r: Result<Stmt, Error>)
        requires
            old(self).wf(),
        ensures
            old(self).gives_stmt(final(self), r, statement(old(self).tokens@, old(self).cur as int)),
        decreases remaining(old(self).tokens@, old(self).cur as int), 43nat,
    {
        if self.eat(TokenKind::If) {
            self.if_statement()
        } else if self.eat(TokenKind::Log) {
            self.log()
        } else if self.eat(TokenKind::While) {
            self.while_loop()
        } else if self.eat(TokenKind::For) {
            self.for_loop()
        } else if self.eat(TokenKind::LeftBrace) {
            match self.block() {
                Ok(stmts) => {
                    let stmt = Stmt::Block(stmts);
                    assert(stmt@ == StmtView::Block(stmt_views(stmts@))) by {
                        assert(stmt@->Block_0 =~= stmt_views(stmts@));
                    }
                    Ok(stmt)
                },
                Err(e) => Err(e),
            }
        } else {
            self.expression_statement()
        }
    }

    fn if_statement(&mut self) -> (r: Result<Stmt, Error>)
        requires
            old(self).wf(),
        ensures
            old(self).gives_stmt(
                final(self),
                r,
                if_statement(old(self).tokens@, old(self).cur as int),
            ),
        decreases remaining(old(self).tokens@, old(self).cur as int), 44nat,
    {
        let condition = match self.expression() {
            Ok(e) => e,
            Err(e) => {
                return Err(e);
            },
        };
        self.eat(TokenKind::Newline);
        let then_branch = match self.statement() {
            Ok(s) => s,
            Err(e) => {
                return Err(e);
            },
        };
        self.eat(TokenKind::Newline);
        let else_branch = if self.eat(TokenKind::Else) {
            self.eat(TokenKind::Newline);
            match self.statement() {
                Ok(s) => Some(Box::new(s)),
                Err(e) => {
                    return Err(e);
                },
            }
        } else {
            None
        };
        Ok(Stmt::If(Box::new(condition), Box::new(then_branch), else_branch))
    }

    fn while_loop(&mut self) -> (r: Result<Stmt, Error>)
        requires
            old(self).wf(),
        ensures
            old(self).gives_stmt(final(self), r, while_loop(old(self).tokens@, old(self).cur as int)),
        decreases remaining(old(self).tokens@, old(self).cur as int), 44nat,
    {
        let condition = match self.expression() {
            Ok(e) => e,
            Err(e) => {
                return Err(e);
            },
        };
        self.eat(TokenKind::Newline);
        match self.statement() {
            Ok(body) => Ok(Stmt::While(Box::new(condition), Box::new(body))),
            Err(e) => Err(e),
        }
    }

    fn for_loop(&mut self) -> (r: Result<Stmt, Error>)
        requires
            old(self).wf(),
        ensures
            old(self).gives_stmt(final(self), r, for_loop(old(self).tokens@, old(self).cur as int)),
        decreases remaining(old(self).tokens@, old(self).cur as int), 44nat,
    {
        let var = if self.kind() == TokenKind::Identifier {
            Some(self.advance())
        } else {
            None
        };
        let iterable = match self.range() {
            Ok(e) => e,
            Err(e) => {
                return Err(e);
            },
        };
        self.eat(TokenKind::Newline);
        match self.statement() {
            Ok(body) => Ok(Stmt::For(var, Box::new(iterable), Box::new(body))),
            Err(e) => Err(e),
        }
    }

    fn block(&mut self) -> (r: Result<Vec<Stmt>, Error>)
        requires
            old(self).wf(),
        ensures
            final(self).tokens == old(self).tokens,
            final(self).wf(),
            match block(old(self).tokens@, old(self).cur as int) {
                Ok((v, n)) => r matches Ok(stmts) && stmt_views(stmts@) == v && final(self).cur
                    == old(self).cur + n,
                Err(x) => r matches Err(e) && e@ == x,
            },
        decreases remaining(old(self).tokens@, old(self).cur as int), 46nat,
    {
        let mut statements: Vec<Stmt> = Vec::new();
        let ghost ts = self.tokens@;
        let ghost first: int = self.cur as int;
        assert(stmt_views(statements@) =~= Seq::empty());
        while !self.check(TokenKind::RightBrace) && !self.is_at_end()
            invariant
                self.wf(),
                self.tokens == old(self).tokens,
                ts == self.tokens@,
                first == old(self).cur,
                first <= self.cur,
                block_rest(ts, first, Seq::empty()) == after(
                    block_rest(ts, self.cur as int, stmt_views(statements@)),
                    (self.cur - first) as nat,
                ),
            decreases remaining(self.tokens@, self.cur as int),
        {
            let ghost before = stmt_views(statements@);
            proof {
                lemma_declaration_takes(ts, self.cur as int);
                lemma_block_rest_step(ts, self.cur as int, before, first, (self.cur - first) as nat);
            }
            if self.eat(TokenKind::Newline) {
                continue ;
            }
            match self.declaration() {
                Ok(stmt) => {
                    statements.push(stmt);
                    assert(stmt_views(statements@) =~= before.push(stmt@));
                },
                Err(e) => {
                    return Err(e);
                },
            }
        }
        match self.consume(Token::RightBrace) {
            Ok(_) => Ok(statements),
            Err(e) => Err(e),
        }
    }

    fn variable(&mut self) -> (r: Result<Stmt, Error>)
        requires
            old(self).wf(),
        ensures
            old(self).gives_stmt(final(self), r, variable(old(self).tokens@, old(self).cur as int)),
        decreases remaining(old(self).tokens@, old(self).cur as int), 42nat,
    {
        let name = match self.consume(Token::Identifier(String::new())) {
            Ok(t) => t,
            Err(e) => {
                return Err(e);
            },
        };
        let mut initializer: Option<Box<Expr>> = None;
        if self.eat(TokenKind::Equal) {
            match self.expression() {
                Ok(e) => {
                    initializer = Some(Box::new(e));
                },
                Err(e) => {
                    return Err(e);
                },
            }
        }
        match self.end_statement() {
            Ok(()) => Ok(Stmt::Declaration(name, initializer)),
            Err(e) => Err(e),
        }
    }

    /// An expression and the end of its statement.
    fn terminated(&mut self) -> (r: Result<Expr, Error>)
        requires
            old(self).wf(),
        ensures
            old(self).gives(final(self), r, terminated(old(self).tokens@, old(self).cur as int)),
        decreases remaining(old(self).tokens@, old(self).cur as int), 42nat,
    {
        let e = match self.expression() {
            Ok(e) => e,
            Err(e) => {
                return Err(e);
            },
        };
        match self.end_statement_if_not_else() {
            Ok(()) => Ok(e),
            Err(e) => Err(e),
        }
    }

    /// What follows `log`.
    fn log(&mut self) -> (r: Result<Stmt, Error>)
        requires
            old(self).wf(),
        ensures
            final(self).tokens == old(self).tokens,
            final(self).wf(),
            match terminated(old(self).tokens@, old(self).cur as int) {
                Ok((e, n)) => r matches Ok(s) && s@ == StmtView::Log(e) && final(self).cur == old(
                    self,
                ).cur + n,
                Err(x) => r matches Err(e) && e@ == x,
            },
        decreases remaining(old(self).tokens@, old(self).cur as int), 43nat,
    {
        match self.terminated() {
            Ok(e) => Ok(Stmt::Log(Box::new(e))),
            Err(e) => Err(e),
        }
    }

    fn expression_statement(&mut self) -> (r: Result<Stmt, Error>)
        requires
            old(self).wf(),
        ensures
            final(self).tokens == old(self).tokens,
            final(self).wf(),
            match terminated(old(self).tokens@, old(self).cur as int) {
                Ok((e, n)) => r matches Ok(s) && s@ == StmtView::Expression(e) && final(self).cur
                    == old(self).cur + n,
                Err(x) => r matches Err(e) && e@ == x,
            },
        decreases remaining(old(self).tokens@, old(self).cur as int), 43nat,
    {
        match self.terminated() {
            Ok(e) => Ok(Stmt::Expression(Box::new(e))),
            Err(e) => Err(e),
        }
    }

    fn expression(&mut self) -> (r: Result<Expr, Error>)
        requires
            old(self).wf(),
        ensures
            old(self).gives(final(self), r, expression(old(self).tokens@, old(self).cur as int)),
        decreases remaining(old(self).tokens@, old(self).cur as int), 41nat,
    {
        self.assignment()
    }

    fn assignment(&mut self) -> (r: Result<Expr, Error>)
        requires
            old(self).wf(),
        ensures
            old(self).gives(final(self), r, assignment(old(self).tokens@, old(self).cur as int)),
        decreases remaining(old(self).tokens@, old(self).cur as int), 40nat,
    {
        let expr = match self.or() {
            Ok(e) => e,
            Err(e) => {
                return Err(e);
            },
        };
        if self.kind() == TokenKind::Equal {
            let equals = self.advance();
            let value = match self.assignment() {
                Ok(v) => v,
                Err(e) => {
                    return Err(e);
                },
            };
            match expr {
                Expr::Variable(name) => Ok(Expr::Assign(name, Box::new(value))),
                _ => Err(Error::new(equals.loc, "Invalid assignment target.")),
            }
        } else {
            Ok(expr)
        }
    }

    /// An operand of a level.
    fn operand(&mut self, level: Level, right: bool) -> (r: Result<Expr, Error>)
        requires
            old(self).wf(),
        ensures
            old(self).gives(
                final(self),
                r,
                operand(old(self).tokens@, level, right, old(self).cur as int),
            ),
        decreases remaining(old(self).tokens@, old(self).cur as int), 4 * level.rank() + 2,
    {
        match level {
            Level::Range => self.unary(),
            Level::Factor => if right {
                self.unary()
            } else {
                self.range()
            },
            Level::Term => self.factor(),
            Level::Comparison => self.term(),
            Level::Equality => self.comparison(),
            Level::And => self.equality(),
            Level::Or => self.and(),
        }
    }

    /// A left-associative chain of a level: an operand, then operators of
    /// the level, each with its right operand.
    fn chain(&mut self, level: Level) -> (r: Result<Expr, Error>)
        requires
            old(self).wf(),
        ensures
            old(self).gives(final(self), r, chain(old(self).tokens@, level, old(self).cur as int)),
        decreases remaining(old(self).tokens@, old(self).cur as int), 4 * level.rank() + 4,
    {
        let ghost ts = self.tokens@;
        let ghost start: int = self.cur as int;
        let mut expr = match self.operand(level, false) {
            Ok(e) => e,
            Err(e) => {
                return Err(e);
            },
        };
        while level.holds(self.kind())
            invariant
                self.wf(),
                self.tokens == old(self).tokens,
                ts == self.tokens@,
                start == old(self).cur,
                start <= self.cur,
                chain(ts, level, start) == after(
                    chain_rest(ts, level, expr, self.cur as int),
                    (self.cur - start) as nat,
                ),
            decreases remaining(self.tokens@, self.cur as int),
        {
            let op = self.advance();
            match self.operand(level, true) {
                Ok(right) => {
                    expr = level.build(expr, op, right);
                },
                Err(e) => {
                    return Err(e);
                },
            }
        }
        Ok(expr)
    }

    fn or(&mut self) -> (r: Result<Expr, Error>)
        requires
            old(self).wf(),
        ensures
            old(self).gives(final(self), r, chain(old(self).tokens@, Level::Or, old(self).cur as int)),
        decreases remaining(old(self).tokens@, old(self).cur as int), 29nat,
    {
        self.chain(Level::Or)
    }

    fn and(&mut self) -> (r: Result<Expr, Error>)
        requires
            old(self).wf(),
        ensures
            old(self).gives(
                final(self),
                r,
                chain(old(self).tokens@, Level::And, old(self).cur as int),
            ),
        decreases remaining(old(self).tokens@, old(self).cur as int), 25nat,
    {
        self.chain(Level::And)
    }

    fn equality(&mut self) -> (r: Result<Expr, Error>)
        requires
            old(self).wf(),
        ensures
            old(self).gives(
                final(self),
                r,
                chain(old(self).tokens@, Level::Equality, old(self).cur as int),
            ),
        decreases remaining(old(self).tokens@, old(self).cur as int), 21nat,
    {
        self.chain(Level::Equality)
    }

    fn comparison(&mut self) -> (r: Result<Expr, Error>)
        requires
            old(self).wf(),
        ensures
            old(self).gives(
                final(self),
                r,
                chain(old(self).tokens@, Level::Comparison, old(self).cur as int),
            ),
        decreases remaining(old(self).tokens@, old(self).cur as int), 17nat,
    {
        self.chain(Level::Comparison)
    }

    fn term(&mut self) -> (r: Result<Expr, Error>)
        requires
            old(self).wf(),
        ensures
            old(self).gives(
                final(self),
                r,
                chain(old(self).tokens@, Level::Term, old(self).cur as int),
            ),
        decreases remaining(old(self).tokens@, old(self).cur as int), 13nat,
    {
        self.chain(Level::Term)
    }

    fn factor(&mut self) -> (r: Result<Expr, Error>)
        requires
            old(self).wf(),
        ensures
            old(self).gives(
                final(self),
                r,
                chain(old(self).tokens@, Level::Factor, old(self).cur as int),
            ),
        decreases remaining(old(self).tokens@, old(self).cur as int), 9nat,
    {
        self.chain(Level::Factor)
    }

    fn range(&mut self) -> (r: Result<Expr, Error>)
        requires
            old(self).wf(),
        ensures
            old(self).gives(
                final(self),
                r,
                chain(old(self).tokens@, Level::Range, old(self).cur as int),
            ),
        decreases remaining(old(self).tokens@, old(self).cur as int), 5nat,
    {
        self.chain(Level::Range)
    }

    fn unary(&mut self) -> (r: Result<Expr, Error>)
        requires
            old(self).wf(),
        ensures
            old(self).gives(final(self), r, unary(old(self).tokens@, old(self).cur as int)),
        decreases remaining(old(self).tokens@, old(self).cur as int), 1nat,
    {
        if self.kind() == TokenKind::Bang || self.kind() == TokenKind::Minus {
            let op = self.advance();
            match self.unary() {
                Ok(right) => Ok(Expr::Unary(op, Box::new(right))),
                Err(e) => Err(e),
            }
        } else {
            self.primary()
        }
    }

    fn primary(&mut self) -> (r: Result<Expr, Error>)
        requires
            old(self).wf(),
        ensures
            old(self).gives(final(self), r, primary(old(self).tokens@, old(self).cur as int)),
        decreases remaining(old(self).tokens@, old(self).cur as int), 0nat,
    {
        let token = self.peek();
        match token.token.kind() {
            TokenKind::False | TokenKind::True | TokenKind::Null | TokenKind::Number
            | TokenKind::String => {
                self.advance();
                Ok(Expr::Literal(token))
            },
            TokenKind::Identifier => {
                self.advance();
                Ok(Expr::Variable(token))
            },
            TokenKind::LeftParen => {
                self.advance();
                match self.expression() {
                    Ok(expr) => match self.consume(Token::RightParen) {
                        Ok(_) => Ok(Expr::Grouping(Box::new(expr))),
                        Err(e) => Err(e),
                    },
                    Err(e) => Err(e),
                }
            },
            _ => Err(
                Error::quoting(
                    token.loc,
                    "Expected expression, but found '",
                    token.token.text().as_str(),
                    "'.",
                ),
            ),
        }
    }
}

} // verus!
