//! Writing an expression out and reading it back.
//!
//! An expression is written with its operator before its operands, and a
//! string literal without its quotes. So only some expressions can be
//! read back from what was written: a number, `true`, `false`, `null`, a
//! variable, and `-` or `!` before such an expression. Of these the scan
//! and the parse of the rendering give the expression again, but for the
//! places of its tokens.
use vstd::prelude::*;
use crate::ast::{Expr, StmtView};
use crate::icps::ErrorView;
use crate::parser::{
    assignment, chain, chain_rest, declaration, expression, kind_at, operand, parsed, primary,
    program, statement, terminated, terminator_or_else, unary, Level,
};
use crate::scanner::{
    digits_end, lemma_run_end, lex, lexemes, loc_at, run_end, scan_from, scan_step, scanned,
    word_end, word_lexeme, Lexed, LocLexeme, LocToken, Run, Scan,
};
use crate::text::{alphanumeric, is_digit};
use crate::theorems::numeral;
use crate::token::{Lexeme, TokenKind};

verus! {

/// Whether the lexer reads the character before it looks for digits and
/// words: white space, punctuation, operators, the quote and the dot.
pub open spec fn special(c: char) -> bool {
    c == ' ' || c == '\r' || c == '\t' || c == '\n' || c == '(' || c == ')' || c == '{' || c == '}'
        || c == '@' || c == ',' || c == '+' || c == '-' || c == '/' || c == '*' || c == ';' || c
        == '?' || c == ':' || c == '!' || c == '=' || c == '>' || c == '<' || c == '"' || c == '.'
}

/// Whether the text is a word: alphanumeric characters, the first of which
/// is no digit and not special.
pub open spec fn word(text: Seq<char>) -> bool {
    &&& text.len() >= 1
    &&& !special(text[0])
    &&& !is_digit(text[0])
    &&& forall|i: int| 0 <= i < text.len() ==> alphanumeric(#[trigger] text[i])
}

/// Whether the text is read as the one token: a numeral as its number, a
/// word as its keyword or identifier.
pub open spec fn reads_as(text: Seq<char>, token: Lexeme) -> bool {
    ||| token.kind == TokenKind::Number && token.text == text && numeral(text)
    ||| token.kind != TokenKind::Number && word(text) && word_lexeme(text) == token
}

/// A run in the tail of a text ends where it ends in the tail alone.
pub proof fn lemma_run_end_tail(whole: Seq<char>, p: int, i: int, run: Run)
    requires
        0 <= p <= whole.len(),
        0 <= i <= whole.len() - p,
    ensures
        run_end(whole, p + i, run) == p + run_end(whole.subrange(p, whole.len() as int), i, run),
    decreases whole.len() - p - i,
{
    let tail = whole.subrange(p, whole.len() as int);
    if i < tail.len() {
        assert(tail[i] == whole[p + i]);
        if run.keeps(tail[i]) {
            lemma_run_end_tail(whole, p, i + 1, run);
        }
    }
}

/// A run that holds every character from `from` on ends at the end.
pub proof fn lemma_run_to_end(text: Seq<char>, from: int, run: Run)
    requires
        0 <= from <= text.len(),
        forall|i: int| from <= i < text.len() ==> run.keeps(#[trigger] text[i]),
    ensures
        run_end(text, from, run) == text.len(),
    decreases text.len() - from,
{
    if from < text.len() {
        lemma_run_to_end(text, from + 1, run);
    }
}

/// The tokens of a scan without their places.
pub open spec fn bare(tokens: Seq<LocLexeme>) -> Seq<Lexeme> {
    tokens.map_values(|t: LocLexeme| t.token)
}

/// Whether `end` is the end of a scan that began at `st` and read `read`
/// to the end of the source.
pub open spec fn scanned_on(src: Seq<char>, st: Scan, read: Seq<Lexeme>, end: Scan) -> bool {
    &&& end.pos == src.len()
    &&& bare(end.tokens) == bare(st.tokens) + read.push(Lexeme::plain(TokenKind::Eof))
    &&& end.warnings == st.warnings
}

/// The scan of a tail that is read as one token: that token, and the end
/// of input.
pub proof fn lemma_leaf_scans(whole: Seq<char>, st: Scan, token: Lexeme)
    requires
        0 <= st.pos < whole.len(),
        reads_as(whole.subrange(st.pos, whole.len() as int), token),
    ensures
        scan_from(whole, st) matches Ok(end) && scanned_on(whole, st, seq![token], end),
{
    let p = st.pos;
    let len = whole.len() as int;
    let leaf = whole.subrange(p, len);
    let loc = loc_at(whole, p);
    let eof = LocLexeme { token: Lexeme::plain(TokenKind::Eof), loc: loc_at(whole, len) };
    assert(leaf[0] == whole[p]);
    if token.kind == TokenKind::Number {
        let k = digits_end(leaf, 0);
        lemma_run_end(leaf, 0, Run::Digits);
        assert(is_digit(leaf[0]));
        lemma_run_end_tail(whole, p, 1, Run::Digits);
        assert(digits_end(leaf, 1) == k);
        assert(digits_end(whole, p + 1) == p + k);
        let integer = whole.subrange(p, p + k);
        let first = LocLexeme { token: Lexeme { kind: TokenKind::Number, text: integer }, loc };
        let st1 = Scan { pos: p + k, tokens: st.tokens.push(first), ..st };
        assert(lex(whole, p) == Lexed::Emit(first.token, p + k));
        assert(scan_step(whole, st) == Ok::<Scan, ErrorView>(st1));
        assert(scan_from(whole, st) == scan_from(whole, st1));
        if k == leaf.len() {
            assert(integer =~= leaf);
            let end = Scan { tokens: st1.tokens.push(eof), ..st1 };
            assert(scan_from(whole, st1) == Ok::<Scan, ErrorView>(end));
            assert(bare(end.tokens) =~= bare(st.tokens) + seq![token].push(
                Lexeme::plain(TokenKind::Eof),
            ));
        } else {
            assert(leaf[k] == whole[p + k]);
            assert(leaf[k + 1] == whole[p + k + 1]);
            lemma_run_end(leaf, k + 1, Run::Digits);
            lemma_run_end_tail(whole, p, k + 1, Run::Digits);
            assert(is_digit(leaf[k + 1]));
            assert(digits_end(whole, p + k + 1) == len);
            let fraction = whole.subrange(p + k, len);
            assert(lex(whole, p + k) == Lexed::Fraction(fraction, len));
            assert(!integer.contains('.')) by {
                if integer.contains('.') {
                    let i = choose|i: int| 0 <= i < integer.len() && integer[i] == '.';
                    assert(integer[i] == leaf[i]);
                    assert(is_digit(leaf[i]));
                }
            }
            let joined = LocLexeme { token: Lexeme { kind: TokenKind::Number, text: leaf }, loc };
            assert(integer + fraction =~= leaf);
            assert(st1.tokens.drop_last() =~= st.tokens);
            let st2 = Scan { pos: len, tokens: st.tokens.push(joined), ..st };
            assert(scan_step(whole, st1) == Ok::<Scan, ErrorView>(st2));
            assert(scan_from(whole, st1) == scan_from(whole, st2));
            let end = Scan { tokens: st2.tokens.push(eof), ..st2 };
            assert(scan_from(whole, st2) == Ok::<Scan, ErrorView>(end));
            assert(bare(end.tokens) =~= bare(st.tokens) + seq![token].push(
                Lexeme::plain(TokenKind::Eof),
            ));
        }
    } else {
        assert(alphanumeric(leaf[0]));
        lemma_run_to_end(leaf, 1, Run::Word);
        lemma_run_end_tail(whole, p, 1, Run::Word);
        assert(word_end(whole, p + 1) == len);
        let emitted = LocLexeme { token, loc };
        assert(lex(whole, p) == Lexed::Emit(token, len));
        let st1 = Scan { pos: len, tokens: st.tokens.push(emitted), ..st };
        assert(scan_step(whole, st) == Ok::<Scan, ErrorView>(st1));
        assert(scan_from(whole, st) == scan_from(whole, st1));
        let end = Scan { tokens: st1.tokens.push(eof), ..st1 };
        assert(scan_from(whole, st1) == Ok::<Scan, ErrorView>(end));
        assert(bare(end.tokens) =~= bare(st.tokens) + seq![token].push(
            Lexeme::plain(TokenKind::Eof),
        ));
    }
}

/// Whether the expression can be read back from its rendering: a number,
/// `true`, `false`, `null` or a variable whose text is read as its token,
/// or `-` or `!` before such an expression.
pub open spec fn readable(expr: Expr) -> bool
    decreases expr,
{
    match expr {
        Expr::Literal(t) => (t.token@.kind == TokenKind::Number || t.token@.kind
            == TokenKind::True || t.token@.kind == TokenKind::False || t.token@.kind
            == TokenKind::Null) && reads_as(t.token@.display(), t.token@),
        Expr::Variable(t) => t.token@.kind == TokenKind::Identifier && reads_as(
            t.token@.display(),
            t.token@,
        ),
        Expr::Unary(op, e) => (op.token@ == Lexeme::plain(TokenKind::Minus) || op.token@
            == Lexeme::plain(TokenKind::Bang)) && readable(*e),
        _ => false,
    }
}

/// The tokens of a readable expression, in the order of its rendering.
pub open spec fn tokens_of(expr: Expr) -> Seq<Lexeme>
    decreases expr,
{
    match expr {
        Expr::Literal(t) => seq![t.token@],
        Expr::Variable(t) => seq![t.token@],
        Expr::Unary(op, e) => seq![op.token@] + tokens_of(*e),
        _ => Seq::empty(),
    }
}

/// The rendering of a readable expression is not empty, and so are its
/// tokens.
pub proof fn lemma_readable_is_something(expr: Expr)
    requires
        readable(expr),
    ensures
        expr.rendering().len() >= 1,
        tokens_of(expr).len() >= 1,
    decreases expr,
{
    match expr {
        Expr::Unary(op, e) => {
            lemma_readable_is_something(*e);
        },
        _ => {},
    }
}

/// The scan of what follows `head` in `head + rendering`, for a readable
/// expression: its tokens, and the end of input.
pub proof fn lemma_readable_scans(expr: Expr, head: Seq<char>, st: Scan)
    requires
        readable(expr),
        st.pos == head.len(),
    ensures
        scan_from(head + expr.rendering(), st) matches Ok(end) && scanned_on(
            head + expr.rendering(),
            st,
            tokens_of(expr),
            end,
        ),
    decreases expr,
{
    let whole = head + expr.rendering();
    let p = st.pos;
    lemma_readable_is_something(expr);
    match expr {
        Expr::Unary(op, e) => {
            reveal_strlit("-");
            reveal_strlit("!");
            reveal_strlit(" ");
            let sign = op.token@.display();
            assert(sign.len() == 1);
            let rest = e.rendering();
            lemma_readable_is_something(*e);
            assert(expr.rendering() == sign + " "@ + rest);
            assert(whole[p] == sign[0]);
            assert(whole[p + 1] == ' ');
            let emitted = LocLexeme { token: op.token@, loc: loc_at(whole, p) };
            let st1 = Scan { pos: p + 1, tokens: st.tokens.push(emitted), ..st };
            assert(lex(whole, p) == Lexed::Emit(op.token@, p + 1));
            assert(scan_step(whole, st) == Ok::<Scan, ErrorView>(st1));
            assert(scan_from(whole, st) == scan_from(whole, st1));
            let st2 = Scan { pos: p + 2, ..st1 };
            assert(lex(whole, p + 1) == Lexed::Skip(p + 2));
            assert(scan_step(whole, st1) == Ok::<Scan, ErrorView>(st2));
            assert(scan_from(whole, st1) == scan_from(whole, st2));
            let head2 = head + sign + " "@;
            assert(whole =~= head2 + rest);
            lemma_readable_scans(*e, head2, st2);
            let end = scan_from(whole, st2)->Ok_0;
            assert(bare(st2.tokens) =~= bare(st.tokens).push(op.token@));
            assert(bare(end.tokens) =~= bare(st.tokens) + tokens_of(expr).push(
                Lexeme::plain(TokenKind::Eof),
            ));
        },
        Expr::Literal(t) => {
            assert(whole.subrange(p, whole.len() as int) =~= expr.rendering());
            lemma_leaf_scans(whole, st, t.token@);
        },
        Expr::Variable(t) => {
            assert(whole.subrange(p, whole.len() as int) =~= expr.rendering());
            lemma_leaf_scans(whole, st, t.token@);
        },
        _ => {},
    }
}

/// Whether two expressions are the same but for the places of their
/// tokens.
pub open spec fn alike(a: Expr, b: Expr) -> bool
    decreases a,
{
    match (a, b) {
        (Expr::Literal(x), Expr::Literal(y)) => x.token@ == y.token@,
        (Expr::Variable(x), Expr::Variable(y)) => x.token@ == y.token@,
        (Expr::Unary(o, e), Expr::Unary(q, f)) => o.token@ == q.token@ && alike(*e, *f),
        _ => false,
    }
}

/// Whether the tokens from index `p` on are those of the expression.
pub open spec fn stands_at(ts: Seq<LocToken>, p: int, expr: Expr) -> bool {
    &&& 0 <= p
    &&& p + tokens_of(expr).len() <= ts.len()
    &&& forall|i: int|
        0 <= i < tokens_of(expr).len() ==> (#[trigger] ts[p + i]).token@ == tokens_of(expr)[i]
}

/// The tokens of a readable expression are parsed as a unary that is the
/// expression again, but for the places.
pub proof fn lemma_readable_unary(expr: Expr, ts: Seq<LocToken>, p: int)
    requires
        readable(expr),
        stands_at(ts, p, expr),
    ensures
        unary(ts, p) matches Ok((tree, n)) && n == tokens_of(expr).len() && alike(tree, expr),
    decreases expr,
{
    lemma_readable_is_something(expr);
    assert(ts[p + 0].token@ == tokens_of(expr)[0]);
    match expr {
        Expr::Unary(op, e) => {
            let rest = tokens_of(*e);
            assert forall|i: int| 0 <= i < rest.len() implies (#[trigger] ts[p + 1 + i]).token@
                == rest[i] by {
                assert(ts[p + (i + 1)].token@ == tokens_of(expr)[i + 1]);
            }
            lemma_readable_unary(*e, ts, p + 1);
        },
        Expr::Literal(_) => {
            assert(unary(ts, p) == primary(ts, p));
        },
        Expr::Variable(_) => {
            assert(unary(ts, p) == primary(ts, p));
        },
        _ => {},
    }
}

/// A unary that stands before the end of input is a whole chain of every
/// level.
pub proof fn lemma_unary_chain(ts: Seq<LocToken>, level: Level, p: int)
    requires
        unary(ts, p) matches Ok((_, n)) && kind_at(ts, p + n) == TokenKind::Eof,
    ensures
        chain(ts, level, p) == unary(ts, p),
        operand(ts, level, false, p) == unary(ts, p),
    decreases level.rank(),
{
    let tree = unary(ts, p)->Ok_0.0;
    let n = unary(ts, p)->Ok_0.1;
    match level {
        Level::Range => {},
        Level::Factor => lemma_unary_chain(ts, Level::Range, p),
        Level::Term => lemma_unary_chain(ts, Level::Factor, p),
        Level::Comparison => lemma_unary_chain(ts, Level::Term, p),
        Level::Equality => lemma_unary_chain(ts, Level::Comparison, p),
        Level::And => lemma_unary_chain(ts, Level::Equality, p),
        Level::Or => lemma_unary_chain(ts, Level::And, p),
    }
    assert(chain_rest(ts, level, tree, p + n) == Ok::<(Expr, nat), ErrorView>((tree, 0)));
}

/// A unary that is all there is before the end of input is a program of
/// one expression statement.
pub proof fn lemma_unary_parses(ts: Seq<LocToken>)
    requires
        unary(ts, 0) matches Ok((_, n)) && n >= 1 && kind_at(ts, n as int) == TokenKind::Eof
            && kind_at(ts, 0) != TokenKind::Eof,
    ensures
        parsed(ts) == Ok::<Seq<StmtView>, ErrorView>(
            seq![StmtView::Expression(unary(ts, 0)->Ok_0.0)],
        ),
{
    let tree = unary(ts, 0)->Ok_0.0;
    let n = unary(ts, 0)->Ok_0.1;
    lemma_unary_chain(ts, Level::Or, 0);
    assert(assignment(ts, 0) == Ok::<(Expr, nat), ErrorView>((tree, n)));
    assert(expression(ts, 0) == assignment(ts, 0));
    assert(terminator_or_else(ts, n as int) == Some(0nat));
    assert(terminated(ts, 0) == Ok::<(Expr, nat), ErrorView>((tree, n)));
    let stmt = StmtView::Expression(tree);
    assert(kind_at(ts, 0) == TokenKind::Minus || kind_at(ts, 0) == TokenKind::Bang || primary(
        ts,
        0,
    ) is Ok);
    assert(statement(ts, 0) == Ok::<(StmtView, nat), ErrorView>((stmt, n)));
    assert(declaration(ts, 0) == statement(ts, 0));
    assert(Seq::<StmtView>::empty().push(stmt) =~= seq![stmt]);
    assert(program(ts, 0, Seq::empty()) == program(ts, n as int, seq![stmt]));
}

/// An expression that is made of a number, `true`, `false`, `null` or a
/// variable, with `-` and `!` before it, survives being written out and
/// read again: the scan of its rendering succeeds, and the parse of the
/// tokens is one expression statement that holds the expression again,
/// but for the places of its tokens.
pub proof fn theorem_round_trip(expr: Expr, ts: Seq<LocToken>)
    requires
        readable(expr),
        scanned(expr.rendering()) matches Ok(end) && lexemes(ts) == end.tokens,
    ensures
        parsed(ts) matches Ok(stmts) && stmts.len() == 1 && (stmts[0] matches StmtView::Expression(
            tree,
        ) && alike(tree, expr)),
{
    let text = expr.rendering();
    let st = Scan { pos: 0, tokens: Seq::empty(), warnings: Seq::empty() };
    assert(Seq::<char>::empty() + text =~= text);
    lemma_readable_scans(expr, Seq::empty(), st);
    let end = scanned(text)->Ok_0;
    let read = tokens_of(expr);
    let n = read.len() as int;
    lemma_readable_is_something(expr);
    assert(bare(st.tokens) =~= Seq::<Lexeme>::empty());
    assert(bare(end.tokens) =~= read.push(Lexeme::plain(TokenKind::Eof)));
    assert(ts.len() == n + 1) by {
        assert(lexemes(ts).len() == ts.len());
        assert(bare(end.tokens).len() == end.tokens.len());
    }
    assert forall|i: int| 0 <= i <= n implies (#[trigger] ts[i]).token@ == read.push(
        Lexeme::plain(TokenKind::Eof),
    )[i] by {
        assert(lexemes(ts)[i] == ts[i]@);
        assert(bare(end.tokens)[i] == end.tokens[i].token);
    }
    assert(stands_at(ts, 0, expr)) by {
        assert forall|i: int| 0 <= i < n implies (#[trigger] ts[0 + i]).token@ == read[i] by {
            assert(ts[i].token@ == read.push(Lexeme::plain(TokenKind::Eof))[i]);
        }
    }
    lemma_readable_unary(expr, ts, 0);
    assert(ts[n].token@ == Lexeme::plain(TokenKind::Eof));
    assert(ts[0].token@ == read[0]);
    assert(kind_at(ts, 0) != TokenKind::Eof) by {
        match expr {
            Expr::Unary(_, _) => {},
            _ => {},
        }
    }
    lemma_unary_parses(ts);
}

} // verus!
