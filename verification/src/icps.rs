//! Errors and warnings: what every stage reports, and how it is written.
use vstd::prelude::*;
use crate::ast::{stmt_views, Stmt};
use crate::parser::{parsed, Parser};
use crate::scanner::{lexemes, scanned, Loc, LocToken, Scanner};
use crate::text::{decimal, push_decimal, push_text};

verus! {

/// An error of any stage: where it arose and what went wrong.
#[derive(Debug)]
pub struct Error {
    pub loc: Loc,
    pub message: String,
}

/// An error as a contract sees it.
pub struct ErrorView {
    pub loc: Loc,
    pub message: Seq<char>,
}

impl ErrorView {
    /// The display form: `[<line>:<column>] <message>`.
    pub open spec fn display(self) -> Seq<char> {
        "["@ + decimal(self.loc.line as nat) + ":"@ + decimal(self.loc.col as nat) + "] "@
            + self.message
    }
}

impl View for Error {
    type V = ErrorView;

    open spec fn view(&self) -> ErrorView {
        ErrorView { loc: self.loc, message: self.message@ }
    }
}

impl Clone for Error {
    fn clone(&self) -> (r: Error)
        ensures
            r == *self,
    {
        Error { loc: self.loc, message: self.message.clone() }
    }
}

impl Error {
    /// An error at `loc` with the given message.
    pub fn new(loc: Loc, message: &str) -> (r: Error)
        ensures
            r@ == (ErrorView { loc, message: message@ }),
    {
        Error { loc, message: String::from_str(message) }
    }

    /// An error at `loc` whose message is `before`, then `middle`, then
    /// `after`.
    pub fn quoting(loc: Loc, before: &str, middle: &str, after: &str) -> (r: Error)
        ensures
            r@ == (ErrorView { loc, message: before@ + middle@ + after@ }),
    {
        let mut message = String::from_str(before);
        push_text(&mut message, middle);
        push_text(&mut message, after);
        Error { loc, message }
    }

    /// Where the error arose.
    pub fn loc(&self) -> (r: Loc)
        ensures
            r == self.loc,
    {
        self.loc
    }

    /// What went wrong.
    pub fn message(&self) -> (r: &str)
        ensures
            r@ == self.message@,
    {
        self.message.as_str()
    }

    /// The display form: `[<line>:<column>] <message>`.
    pub fn to_text(&self) -> (r: String)
        ensures
            r@ == self@.display(),
    {
        let mut out = String::from_str("[");
        push_decimal(&mut out, self.loc.line);
        push_text(&mut out, ":");
        push_decimal(&mut out, self.loc.col);
        push_text(&mut out, "] ");
        push_text(&mut out, self.message.as_str());
        out
    }
}

/// The text of a warning: `[line <line>, column <col>] Warning: <message>`.
pub open spec fn warning_text(line: nat, col: nat, message: Seq<char>) -> Seq<char> {
    "[line "@ + decimal(line) + ", column "@ + decimal(col) + "] Warning: "@ + message
}

/// Writes out a warning about a lexical oddity that does not stop the run.
pub fn warn(line: usize, col: usize, message: &str) -> (r: String)
    ensures
        r@ == warning_text(line as nat, col as nat, message@),
{
    let mut out = String::from_str("[line ");
    push_decimal(&mut out, line);
    push_text(&mut out, ", column ");
    push_decimal(&mut out, col);
    push_text(&mut out, "] Warning: ");
    push_text(&mut out, message);
    out
}

/// The warning about a semicolon at `loc` that a newline follows at once.
pub fn redundant_semicolon(loc: Loc) -> (r: String)
    ensures
        r@ == warning_text(loc.line as nat, loc.col as nat, "Redundant semicolon."@),
{
    warn(loc.line, loc.col, "Redundant semicolon.")
}

/// A program read from source text.
#[derive(Debug)]
pub struct Program {
    /// The tokens of the source, closed by the end-of-input token.
    pub tokens: Vec<LocToken>,
    /// The statements that the tokens make.
    pub statements: Vec<Stmt>,
    /// The places of the semicolons that a newline follows at once.
    pub warnings: Vec<Loc>,
}

/// Scans and parses a source. The result is the program, or the first
/// error of either stage.
pub fn load(source: &str) -> (r: Result<Program, Error>)
    ensures
        match scanned(source@) {
            Ok(end) => match r {
                Ok(program) => {
                    &&& lexemes(program.tokens@) == end.tokens
                    &&& program.warnings@ == end.warnings
                    &&& parsed(program.tokens@) == Ok::<_, ErrorView>(
                        stmt_views(program.statements@),
                    )
                },
                Err(e) => exists|tokens: Seq<LocToken>|
                    lexemes(tokens) == end.tokens && parsed(tokens) == Err::<
                        Seq<crate::ast::StmtView>,
                        ErrorView,
                    >(e@),
            },
            Err(e) => r matches Err(err) && err@ == e,
        },
{
    let mut scanner = Scanner::new(source);
    assert(scanner.state() == (crate::scanner::Scan {
        pos: 0,
        tokens: Seq::empty(),
        warnings: Seq::empty(),
    })) by {
        assert(lexemes(scanner.tokens@) =~= Seq::empty());
        assert(scanner.warnings@ =~= Seq::empty());
    }
    let tokens = match scanner.scan() {
        Ok(tokens) => tokens,
        Err(e) => {
            return Err(e);
        },
    };
    let mut warnings: Vec<Loc> = Vec::new();
    std::mem::swap(&mut scanner.warnings, &mut warnings);
    let outcome = {
        let mut parser = Parser::new(&tokens);
        parser.parse()
    };
    match outcome {
        Ok(statements) => Ok(Program { tokens, statements, warnings }),
        Err(e) => {
            assert(lexemes(tokens@) == scanned(source@)->Ok_0.tokens && parsed(tokens@) == Err::<
                Seq<crate::ast::StmtView>,
                ErrorView,
            >(e@));
            Err(e)
        },
    }
}

} // verus!
