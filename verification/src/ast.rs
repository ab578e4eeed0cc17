//! The syntax tree: expressions and statements.
use vstd::prelude::*;
use crate::scanner::{Loc, LocToken};
use crate::text::push_text;

verus! {

/// An expression. `Call`, `Get`, `SetProperty`, `Super` and `This` are part
/// of the tree's shape; the parser builds none of them and the evaluator
/// gives each the value `null`.
#[derive(Debug)]
pub enum Expr {
    Assign(LocToken, Box<Expr>),
    Unary(LocToken, Box<Expr>),
    Binary(Box<Expr>, LocToken, Box<Expr>),
    Call(Box<Expr>, Vec<Expr>),
    Get(Box<Expr>, LocToken),
    SetProperty(Box<Expr>, LocToken, Box<Expr>),
    Grouping(Box<Expr>),
    Literal(LocToken),
    Logical(Box<Expr>, LocToken, Box<Expr>),
    Super(LocToken),
    This(LocToken),
    Variable(LocToken),
}

/// A statement. `Class`, `Function` and `Return` are part of the tree's
/// shape; the parser builds none of them and the evaluator refuses them.
#[derive(Debug)]
pub enum Stmt {
    Block(Vec<Stmt>),
    Class(LocToken, Box<Expr>, Vec<Box<Stmt>>),
    Expression(Box<Expr>),
    Function(LocToken, Vec<LocToken>, Vec<Box<Stmt>>),
    If(Box<Expr>, Box<Stmt>, Option<Box<Stmt>>),
    Log(Box<Expr>),
    Return(Option<Expr>),
    Declaration(LocToken, Option<Box<Expr>>),
    While(Box<Expr>, Box<Stmt>),
    For(Option<LocToken>, Box<Expr>, Box<Stmt>),
}

/// A statement as a contract sees it: the same tree, with sequences in
/// place of vectors.
pub enum StmtView {
    Block(Seq<StmtView>),
    Class(LocToken, Expr, Seq<StmtView>),
    Expression(Expr),
    Function(LocToken, Seq<LocToken>, Seq<StmtView>),
    If(Expr, Box<StmtView>, Option<Box<StmtView>>),
    Log(Expr),
    Return(Option<Expr>),
    Declaration(LocToken, Option<Expr>),
    While(Expr, Box<StmtView>),
    For(Option<LocToken>, Expr, Box<StmtView>),
}

impl View for Stmt {
    type V = StmtView;

    open spec fn view(&self) -> StmtView {
        self.shape()
    }
}

impl Stmt {
    /// The statement as a contract sees it.
    pub open spec fn shape(&self) -> StmtView
        decreases self,
    {
        match self {
            Stmt::Block(stmts) => StmtView::Block(
                Seq::new(
                    stmts.len() as nat,
                    |i: int|
                        if 0 <= i < stmts.len() {
                            stmts[i].shape()
                        } else {
                            StmtView::Return(None)
                        },
                ),
            ),
            Stmt::Class(name, parent, methods) => StmtView::Class(
                *name,
                **parent,
                Seq::new(
                    methods.len() as nat,
                    |i: int|
                        if 0 <= i < methods.len() {
                            methods[i].shape()
                        } else {
                            StmtView::Return(None)
                        },
                ),
            ),
            Stmt::Expression(e) => StmtView::Expression(**e),
            Stmt::Function(name, params, body) => StmtView::Function(
                *name,
                params@,
                Seq::new(
                    body.len() as nat,
                    |i: int|
                        if 0 <= i < body.len() {
                            body[i].shape()
                        } else {
                            StmtView::Return(None)
                        },
                ),
            ),
            Stmt::If(c, t, e) => StmtView::If(
                **c,
                Box::new(t.shape()),
                match e {
                    Some(s) => Some(Box::new(s.shape())),
                    None => None,
                },
            ),
            Stmt::Log(e) => StmtView::Log(**e),
            Stmt::Return(e) => StmtView::Return(*e),
            Stmt::Declaration(name, init) => StmtView::Declaration(
                *name,
                match init {
                    Some(e) => Some(**e),
                    None => None,
                },
            ),
            Stmt::While(c, body) => StmtView::While(**c, Box::new(body.shape())),
            Stmt::For(name, range, body) => StmtView::For(*name, **range, Box::new(body.shape())),
        }
    }
}

/// The statements of a vector, as contracts see them.
pub open spec fn stmt_views(stmts: Seq<Stmt>) -> Seq<StmtView> {
    Seq::new(stmts.len(), |i: int| stmts[i]@)
}

impl Expr {
    /// The place that an error about the expression cites: that of its
    /// operator or name, for a grouping that of what it holds, for a call
    /// that of what is called.
    pub open spec fn place(&self) -> Loc
        decreases self,
    {
        match self {
            Expr::Assign(t, _) => t.loc,
            Expr::Unary(t, _) => t.loc,
            Expr::Binary(_, t, _) => t.loc,
            Expr::Call(callee, _) => callee.place(),
            Expr::Get(_, t) => t.loc,
            Expr::SetProperty(_, t, _) => t.loc,
            Expr::Grouping(e) => e.place(),
            Expr::Literal(t) => t.loc,
            Expr::Logical(_, t, _) => t.loc,
            Expr::Super(t) => t.loc,
            Expr::This(t) => t.loc,
            Expr::Variable(t) => t.loc,
        }
    }

    /// The place that an error about the expression cites.
    pub fn loc(&self) -> (r: Loc)
        ensures
            r == self.place(),
        decreases self,
    {
        match self {
            Expr::Assign(t, _) => t.loc,
            Expr::Unary(t, _) => t.loc,
            Expr::Binary(_, t, _) => t.loc,
            Expr::Call(callee, _) => callee.loc(),
            Expr::Get(_, t) => t.loc,
            Expr::SetProperty(_, t, _) => t.loc,
            Expr::Grouping(e) => e.loc(),
            Expr::Literal(t) => t.loc,
            Expr::Logical(_, t, _) => t.loc,
            Expr::Super(t) => t.loc,
            Expr::This(t) => t.loc,
            Expr::Variable(t) => t.loc,
        }
    }
}

/// The texts, with `, ` between one and the next.
pub open spec fn joined(texts: Seq<Seq<char>>) -> Seq<char>
    decreases texts.len(),
{
    if texts.len() == 0 {
        Seq::empty()
    } else if texts.len() == 1 {
        texts[0]
    } else {
        joined(texts.drop_last()) + ", "@ + texts.last()
    }
}

/// The texts of the strings.
pub open spec fn texts(parts: Seq<String>) -> Seq<Seq<char>> {
    parts.map_values(|s: String| s@)
}

/// The strings, with `, ` between one and the next.
fn join(parts: &Vec<String>) -> (r: String)
    ensures
        r@ == joined(texts(parts@)),
{
    let mut out = String::new();
    let mut i: usize = 0;
    while i < parts.len()
        invariant
            i <= parts.len(),
            out@ == joined(texts(parts@).take(i as int)),
        decreases parts.len() - i,
    {
        let ghost before = texts(parts@).take(i as int);
        if i > 0 {
            push_text(&mut out, ", ");
        }
        push_text(&mut out, parts[i].as_str());
        i += 1;
        assert(texts(parts@).take(i as int).drop_last() =~= before);
        assert(texts(parts@).take(i as int).last() == parts@[i - 1]@);
    }
    assert(texts(parts@).take(i as int) =~= texts(parts@));
    out
}

impl Expr {
    /// The expression written out: an operator before its operands, a
    /// grouping in words.
    pub open spec fn rendering(&self) -> Seq<char>
        decreases self,
    {
        match self {
            Expr::Assign(name, value) => name.token@.display() + " = "@ + value.rendering(),
            Expr::Unary(op, right) => op.token@.display() + " "@ + right.rendering(),
            Expr::Binary(l, op, r) => op.token@.display() + " "@ + l.rendering() + " "@
                + r.rendering(),
            Expr::Call(callee, args) => "Call "@ + callee.rendering() + " ("@ + joined(
                Expr::renderings(args),
            ) + ")"@,
            Expr::Get(object, name) => object.rendering() + "."@ + name.token@.display(),
            Expr::SetProperty(object, name, value) => object.rendering() + "."@
                + name.token@.display() + " = "@ + value.rendering(),
            Expr::Grouping(e) => "grouping "@ + e.rendering(),
            Expr::Literal(value) => value.token@.display(),
            Expr::Logical(l, op, r) => op.token@.display() + " "@ + l.rendering() + " "@
                + r.rendering(),
            Expr::Super(keyword) => "super."@ + keyword.token@.display(),
            Expr::This(keyword) => "this."@ + keyword.token@.display(),
            Expr::Variable(name) => name.token@.display(),
        }
    }

    /// The expressions written out, one by one.
    pub open spec fn renderings(exprs: &Vec<Expr>) -> Seq<Seq<char>>
        decreases exprs,
    {
        Seq::new(
            exprs.len() as nat,
            |i: int|
                if 0 <= i < exprs.len() {
                    exprs[i].rendering()
                } else {
                    Seq::empty()
                },
        )
    }

    /// The expression written out.
    #[verifier::loop_isolation(false)]
    pub fn render(&self) -> (r: String)
        ensures
            r@ == self.rendering(),
        decreases self,
    {
        match self {
            Expr::Assign(name, value) => {
                let mut out = name.token.text();
                push_text(&mut out, " = ");
                push_text(&mut out, value.render().as_str());
                out
            },
            Expr::Unary(op, right) => {
                let mut out = op.token.text();
                push_text(&mut out, " ");
                push_text(&mut out, right.render().as_str());
                out
            },
            Expr::Binary(l, op, r) => {
                let mut out = op.token.text();
                push_text(&mut out, " ");
                push_text(&mut out, l.render().as_str());
                push_text(&mut out, " ");
                push_text(&mut out, r.render().as_str());
                out
            },
            Expr::Call(callee, args) => {
                let mut parts: Vec<String> = Vec::new();
                let mut i: usize = 0;
                while i < args.len()
                    invariant
                        i <= args.len(),
                        parts.len() == i,
                        forall|j: int| 0 <= j < i ==> parts@[j]@ == (#[trigger] args@[j]).rendering(),
                    decreases args.len() - i,
                {
                    parts.push(args[i].render());
                    i += 1;
                }
                assert(texts(parts@) =~= Expr::renderings(args));
                let mut out = String::from_str("Call ");
                push_text(&mut out, callee.render().as_str());
                push_text(&mut out, " (");
                push_text(&mut out, join(&parts).as_str());
                push_text(&mut out, ")");
                out
            },
            Expr::Get(object, name) => {
                let mut out = object.render();
                push_text(&mut out, ".");
                push_text(&mut out, name.token.text().as_str());
                out
            },
            Expr::SetProperty(object, name, value) => {
                let mut out = object.render();
                push_text(&mut out, ".");
                push_text(&mut out, name.token.text().as_str());
                push_text(&mut out, " = ");
                push_text(&mut out, value.render().as_str());
                out
            },
            Expr::Grouping(e) => {
                let mut out = String::from_str("grouping ");
                push_text(&mut out, e.render().as_str());
                out
            },
            Expr::Literal(value) => value.token.text(),
            Expr::Logical(l, op, r) => {
                let mut out = op.token.text();
                push_text(&mut out, " ");
                push_text(&mut out, l.render().as_str());
                push_text(&mut out, " ");
                push_text(&mut out, r.render().as_str());
                out
            },
            Expr::Super(keyword) => {
                let mut out = String::from_str("super.");
                push_text(&mut out, keyword.token.text().as_str());
                out
            },
            Expr::This(keyword) => {
                let mut out = String::from_str("this.");
                push_text(&mut out, keyword.token.text().as_str());
                out
            },
            Expr::Variable(name) => name.token.text(),
        }
    }
}

/// The names of the tokens, one by one.
pub open spec fn names(tokens: Seq<LocToken>) -> Seq<Seq<char>> {
    tokens.map_values(|t: LocToken| t.token@.display())
}

impl Stmt {
    /// The statements written out, one by one.
    pub open spec fn renderings(stmts: &Vec<Stmt>) -> Seq<Seq<char>>
        decreases stmts,
    {
        Seq::new(
            stmts.len() as nat,
            |i: int|
                if 0 <= i < stmts.len() {
                    stmts[i].rendering()
                } else {
                    Seq::empty()
                },
        )
    }

    /// The boxed statements written out, one by one.
    pub open spec fn boxed_renderings(stmts: &Vec<Box<Stmt>>) -> Seq<Seq<char>>
        decreases stmts,
    {
        Seq::new(
            stmts.len() as nat,
            |i: int|
                if 0 <= i < stmts.len() {
                    stmts[i].rendering()
                } else {
                    Seq::empty()
                },
        )
    }

    /// The statement written out in words.
    pub open spec fn rendering(&self) -> Seq<char>
        decreases self,
    {
        match self {
            Stmt::Block(stmts) => "block [ "@ + joined(Stmt::renderings(stmts)) + " ]"@,
            Stmt::Class(name, parent, methods) => "class "@ + name.token@.display() + " "@
                + parent.rendering() + " "@ + joined(Stmt::boxed_renderings(methods)),
            Stmt::Expression(e) => e.rendering(),
            Stmt::Function(name, params, body) => "fn "@ + name.token@.display() + " ("@ + joined(
                names(params@),
            ) + ") [ "@ + joined(Stmt::boxed_renderings(body)) + " ]"@,
            Stmt::If(c, t, e) => "if "@ + c.rendering() + " then "@ + t.rendering() + " else "@
                + match e {
                Some(s) => s.rendering(),
                None => "Nothing"@,
            },
            Stmt::Log(e) => "log "@ + e.rendering(),
            Stmt::Return(e) => "return "@ + match e {
                Some(x) => x.rendering(),
                None => Seq::empty(),
            },
            Stmt::Declaration(name, init) => "var "@ + name.token@.display() + " = "@ + match init {
                Some(x) => x.rendering(),
                None => Seq::empty(),
            },
            Stmt::While(c, body) => "while "@ + c.rendering() + " "@ + body.rendering(),
            Stmt::For(name, range, body) => "for "@ + match name {
                Some(t) => t.token@.display() + " "@,
                None => Seq::empty(),
            } + range.rendering() + " "@ + body.rendering(),
        }
    }

    /// The statement written out in words.
    #[verifier::loop_isolation(false)]
    pub fn render(&self) -> (r: String)
        ensures
            r@ == self.rendering(),
        decreases self,
    {
        match self {
            Stmt::Block(stmts) => {
                let mut parts: Vec<String> = Vec::new();
                let mut i: usize = 0;
                while i < stmts.len()
                    invariant
                        i <= stmts.len(),
                        parts.len() == i,
                        forall|j: int|
                            0 <= j < i ==> parts@[j]@ == (#[trigger] stmts@[j]).rendering(),
                    decreases stmts.len() - i,
                {
                    parts.push(stmts[i].render());
                    i += 1;
                }
                assert(texts(parts@) =~= Stmt::renderings(stmts));
                let mut out = String::from_str("block [ ");
                push_text(&mut out, join(&parts).as_str());
                push_text(&mut out, " ]");
                out
            },
            Stmt::Class(name, parent, methods) => {
                let mut out = String::from_str("class ");
                push_text(&mut out, name.token.text().as_str());
                push_text(&mut out, " ");
                push_text(&mut out, parent.render().as_str());
                push_text(&mut out, " ");
                push_text(&mut out, Stmt::render_boxed(methods).as_str());
                out
            },
            Stmt::Expression(e) => e.render(),
            Stmt::Function(name, params, body) => {
                let mut parts: Vec<String> = Vec::new();
                let mut i: usize = 0;
                while i < params.len()
                    invariant
                        i <= params.len(),
                        parts.len() == i,
                        forall|j: int|
                            0 <= j < i ==> parts@[j]@ == (#[trigger] params@[j]).token@.display(),
                    decreases params.len() - i,
                {
                    parts.push(params[i].token.text());
                    i += 1;
                }
                assert(texts(parts@) =~= names(params@));
                let mut out = String::from_str("fn ");
                push_text(&mut out, name.token.text().as_str());
                push_text(&mut out, " (");
                push_text(&mut out, join(&parts).as_str());
                push_text(&mut out, ") [ ");
                push_text(&mut out, Stmt::render_boxed(body).as_str());
                push_text(&mut out, " ]");
                out
            },
            Stmt::If(c, t, e) => {
                let mut out = String::from_str("if ");
                push_text(&mut out, c.render().as_str());
                push_text(&mut out, " then ");
                push_text(&mut out, t.render().as_str());
                push_text(&mut out, " else ");
                match e {
                    Some(s) => push_text(&mut out, s.render().as_str()),
                    None => push_text(&mut out, "Nothing"),
                }
                out
            },
            Stmt::Log(e) => {
                let mut out = String::from_str("log ");
                push_text(&mut out, e.render().as_str());
                out
            },
            Stmt::Return(e) => {
                let mut out = String::from_str("return ");
                match e {
                    Some(x) => push_text(&mut out, x.render().as_str()),
                    None => {
                        assert(out@ + Seq::<char>::empty() =~= out@);
                    },
                }
                out
            },
            Stmt::Declaration(name, init) => {
                let mut out = String::from_str("var ");
                push_text(&mut out, name.token.text().as_str());
                push_text(&mut out, " = ");
                match init {
                    Some(x) => push_text(&mut out, x.render().as_str()),
                    None => {
                        assert(out@ + Seq::<char>::empty() =~= out@);
                    },
                }
                out
            },
            Stmt::While(c, body) => {
                let mut out = String::from_str("while ");
                push_text(&mut out, c.render().as_str());
                push_text(&mut out, " ");
                push_text(&mut out, body.render().as_str());
                out
            },
            Stmt::For(name, range, body) => {
                let mut out = String::from_str("for ");
                match name {
                    Some(t) => {
                        let ghost before = out@;
                        push_text(&mut out, t.token.text().as_str());
                        push_text(&mut out, " ");
                        assert(out@ =~= before + (t.token@.display() + " "@));
                    },
                    None => {
                        assert(out@ + Seq::<char>::empty() =~= out@);
                    },
                }
                push_text(&mut out, range.render().as_str());
                push_text(&mut out, " ");
                push_text(&mut out, body.render().as_str());
                out
            },
        }
    }

    /// The boxed statements written out, with `, ` between them.
    #[verifier::loop_isolation(false)]
    fn render_boxed(stmts: &Vec<Box<Stmt>>) -> (r: String)
        ensures
            r@ == joined(Stmt::boxed_renderings(stmts)),
        decreases stmts,
    {
        let mut parts: Vec<String> = Vec::new();
        let mut i: usize = 0;
        while i < stmts.len()
            invariant
                i <= stmts.len(),
                parts.len() == i,
                forall|j: int| 0 <= j < i ==> parts@[j]@ == (#[trigger] stmts@[j]).rendering(),
            decreases stmts.len() - i,
        {
            parts.push(stmts[i].render());
            i += 1;
        }
        assert(texts(parts@) =~= Stmt::boxed_renderings(stmts));
        join(&parts)
    }
}

} // verus!
