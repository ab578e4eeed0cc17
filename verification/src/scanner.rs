//! The lexer: source text to located tokens.
//!
//! Every character read moves the current place: a newline starts the next
//! line at column 1, any other character moves one column on. A token is
//! located at its first character.
use vstd::prelude::*;
use crate::icps::{Error, ErrorView};
use crate::text::{alphanumeric, chars_of, digit, is_alphanumeric, is_digit, push_char, string_of};
use crate::token::{keyword_kind, Lexeme, Token, TokenKind};

verus! {

/// A place in the source: line and column count from 1, `idx` is the number
/// of characters before it.
#[derive(Clone, Copy, Debug, PartialEq, Eq, Structural)]
pub struct Loc {
    pub line: usize,
    pub col: usize,
    pub idx: usize,
}

/// A token and the place of its first character.
#[derive(Debug)]
pub struct LocToken {
    pub token: Token,
    pub loc: Loc,
}

/// A located token as a contract sees it.
pub struct LocLexeme {
    pub token: Lexeme,
    pub loc: Loc,
}

impl View for LocToken {
    type V = LocLexeme;

    open spec fn view(&self) -> LocLexeme {
        LocLexeme { token: self.token@, loc: self.loc }
    }
}

impl Clone for LocToken {
    fn clone(&self) -> (r: LocToken)
        ensures
            r == *self,
    {
        LocToken { token: self.token.clone(), loc: self.loc }
    }
}

/// The located tokens of a vector, as contracts see them.
pub open spec fn lexemes(tokens: Seq<LocToken>) -> Seq<LocLexeme> {
    tokens.map_values(|t: LocToken| t@)
}

/// The place of the first character of a source.
pub open spec fn origin() -> Loc {
    Loc { line: 1, col: 1, idx: 0 }
}

/// The number after `n`; `usize::MAX` stays.
pub open spec fn next_count(n: usize) -> usize {
    if n < usize::MAX {
        (n + 1) as usize
    } else {
        n
    }
}

/// The place after `c`, read at `loc`.
pub open spec fn after_char(loc: Loc, c: char) -> Loc {
    if c == '\n' {
        Loc { line: next_count(loc.line), col: 1, idx: next_count(loc.idx) }
    } else {
        Loc { line: loc.line, col: next_count(loc.col), idx: next_count(loc.idx) }
    }
}

/// The place of the character at index `n`: where the scan stands once it
/// has read `n` characters.
pub open spec fn loc_at(src: Seq<char>, n: int) -> Loc
    decreases n,
{
    if n <= 0 || n > src.len() {
        origin()
    } else {
        after_char(loc_at(src, n - 1), src[n - 1])
    }
}

/// The place at index `n` counts `n` characters, and neither its line nor
/// its column is beyond `n + 1`.
pub proof fn lemma_loc_at(src: Seq<char>, n: int)
    requires
        0 <= n <= src.len(),
        n < usize::MAX,
    ensures
        loc_at(src, n).idx == n,
        1 <= loc_at(src, n).line <= n + 1,
        1 <= loc_at(src, n).col <= n + 1,
    decreases n,
{
    if n > 0 {
        lemma_loc_at(src, n - 1);
    }
}

/// A run of characters of one sort.
#[derive(Clone, Copy, Debug)]
pub enum Run {
    /// Decimal digits.
    Digits,
    /// Alphanumeric characters.
    Word,
    /// Everything but the given character.
    Until(char),
}

impl Run {
    /// Whether the character belongs to the run.
    pub open spec fn keeps(self, c: char) -> bool {
        match self {
            Run::Digits => is_digit(c),
            Run::Word => alphanumeric(c),
            Run::Until(stop) => c != stop,
        }
    }

    /// Whether the character belongs to the run.
    pub fn accepts(&self, c: char) -> (r: bool)
        ensures
            r == self.keeps(c),
    {
        match self {
            Run::Digits => digit(c),
            Run::Word => is_alphanumeric(c),
            Run::Until(stop) => c != *stop,
        }
    }
}

/// Where the run that starts at `from` ends: the first index at or after
/// `from` whose character is not of the run, or the length of the source.
pub open spec fn run_end(src: Seq<char>, from: int, run: Run) -> int
    decreases src.len() - from,
{
    if from < 0 || from >= src.len() {
        src.len() as int
    } else if run.keeps(src[from]) {
        run_end(src, from + 1, run)
    } else {
        from
    }
}

/// A run ends within the source, not before `from`, at a character that is
/// not of the run, and every character before that is of the run.
pub proof fn lemma_run_end(src: Seq<char>, from: int, run: Run)
    requires
        0 <= from <= src.len(),
    ensures
        from <= run_end(src, from, run) <= src.len(),
        run_end(src, from, run) < src.len() ==> !run.keeps(src[run_end(src, from, run)]),
        forall|i: int| from <= i < run_end(src, from, run) ==> run.keeps(#[trigger] src[i]),
    decreases src.len() - from,
{
    if from < src.len() && run.keeps(src[from]) {
        lemma_run_end(src, from + 1, run);
    }
}

/// Where a run of digits that starts at `from` ends.
pub open spec fn digits_end(src: Seq<char>, from: int) -> int {
    run_end(src, from, Run::Digits)
}

/// Where a run of alphanumeric characters that starts at `from` ends.
pub open spec fn word_end(src: Seq<char>, from: int) -> int {
    run_end(src, from, Run::Word)
}

/// The index of the first `"` at or after `from`, or the length of the
/// source where there is none.
pub open spec fn quote_at(src: Seq<char>, from: int) -> int {
    run_end(src, from, Run::Until('"'))
}

/// Where the line that holds index `from` ends: behind its newline, or at
/// the end of the source.
pub open spec fn line_end(src: Seq<char>, from: int) -> int {
    let q = run_end(src, from, Run::Until('\n'));
    if q < src.len() {
        q + 1
    } else {
        src.len() as int
    }
}

/// Where a block comment ends that is read from index `from` on: behind
/// the first `*` that a `/` follows, or at the end of the source.
pub open spec fn comment_end(src: Seq<char>, from: int) -> int
    decreases src.len() - from,
{
    if from >= src.len() {
        src.len() as int
    } else if src[from as int] == '*' && from + 1 < src.len() && src[from + 1] == '/' {
        from + 2
    } else {
        comment_end(src, from + 1)
    }
}

/// A block comment ends within the source, behind where it was read from.
pub proof fn lemma_comment_end(src: Seq<char>, from: int)
    requires
        0 <= from <= src.len(),
    ensures
        from <= comment_end(src, from) <= src.len(),
        from < src.len() ==> from < comment_end(src, from),
    decreases src.len() - from,
{
    if from < src.len() && !(src[from as int] == '*' && from + 1 < src.len() && src[from + 1]
        == '/') {
        lemma_comment_end(src, from + 1);
    }
}

/// What the lexer makes of the characters at one index.
pub enum Lexed {
    /// Nothing is emitted; the scan goes on at the index.
    Skip(int),
    /// A token is emitted; the scan goes on at the index.
    Emit(Lexeme, int),
    /// A `.` and digits, to be joined to the number before them.
    Fraction(Seq<char>, int),
    /// The scan fails with the message.
    Fail(Seq<char>),
}

/// The character behind index `p`, if there is one.
pub open spec fn lookahead(src: Seq<char>, p: int) -> Option<char> {
    if p + 1 < src.len() {
        Some(src[p + 1])
    } else {
        None
    }
}

/// A one-character token, or the two-character token `second` where `=`
/// follows.
pub open spec fn with_equal(src: Seq<char>, p: int, first: TokenKind, second: TokenKind) -> Lexed {
    if lookahead(src, p) == Some('=') {
        Lexed::Emit(Lexeme::plain(second), p + 2)
    } else {
        Lexed::Emit(Lexeme::plain(first), p + 1)
    }
}

/// The token for a word: its keyword, or an identifier.
pub open spec fn word_lexeme(word: Seq<char>) -> Lexeme {
    match keyword_kind(word) {
        Some(k) => Lexeme::plain(k),
        None => Lexeme { kind: TokenKind::Identifier, text: word },
    }
}

/// What the lexer makes of the characters at index `p`.
pub open spec fn lex(src: Seq<char>, p: int) -> Lexed
    recommends
        p < src.len(),
{
    let c = src[p as int];
    if c == ' ' || c == '\r' || c == '\t' {
        Lexed::Skip(p + 1)
    } else if c == '\n' {
        Lexed::Emit(Lexeme::plain(TokenKind::Newline), p + 1)
    } else if c == '(' {
        Lexed::Emit(Lexeme::plain(TokenKind::LeftParen), p + 1)
    } else if c == ')' {
        Lexed::Emit(Lexeme::plain(TokenKind::RightParen), p + 1)
    } else if c == '{' {
        Lexed::Emit(Lexeme::plain(TokenKind::LeftBrace), p + 1)
    } else if c == '}' {
        Lexed::Emit(Lexeme::plain(TokenKind::RightBrace), p + 1)
    } else if c == '@' {
        Lexed::Emit(Lexeme::plain(TokenKind::At), p + 1)
    } else if c == ',' {
        Lexed::Emit(Lexeme::plain(TokenKind::Comma), p + 1)
    } else if c == '+' {
        Lexed::Emit(Lexeme::plain(TokenKind::Plus), p + 1)
    } else if c == '-' {
        Lexed::Emit(Lexeme::plain(TokenKind::Minus), p + 1)
    } else if c == '/' {
        if lookahead(src, p) == Some('/') {
            Lexed::Emit(Lexeme::plain(TokenKind::Newline), line_end(src, p + 1))
        } else if lookahead(src, p) == Some('*') {
            Lexed::Skip(comment_end(src, p + 1))
        } else {
            Lexed::Emit(Lexeme::plain(TokenKind::Slash), p + 1)
        }
    } else if c == '*' {
        Lexed::Emit(Lexeme::plain(TokenKind::Star), p + 1)
    } else if c == ';' {
        Lexed::Emit(Lexeme::plain(TokenKind::Semicolon), p + 1)
    } else if c == '?' {
        Lexed::Emit(Lexeme::plain(TokenKind::QuestionMark), p + 1)
    } else if c == ':' {
        Lexed::Emit(Lexeme::plain(TokenKind::Colon), p + 1)
    } else if c == '!' {
        with_equal(src, p, TokenKind::Bang, TokenKind::BangEqual)
    } else if c == '=' {
        with_equal(src, p, TokenKind::Equal, TokenKind::EqualEqual)
    } else if c == '>' {
        with_equal(src, p, TokenKind::Greater, TokenKind::GreaterEqual)
    } else if c == '<' {
        with_equal(src, p, TokenKind::Less, TokenKind::LessEqual)
    } else if c == '"' {
        let q = quote_at(src, p + 1);
        if q < src.len() {
            Lexed::Emit(
                Lexeme { kind: TokenKind::String, text: src.subrange(p + 1, q as int) },
                q + 1,
            )
        } else {
            Lexed::Fail("Unterminated string"@)
        }
    } else if c == '.' {
        match lookahead(src, p) {
            Some(d) => if d == '.' {
                Lexed::Emit(Lexeme::plain(TokenKind::Range), p + 2)
            } else if is_digit(d) {
                Lexed::Fraction(
                    src.subrange(p as int, digits_end(src, p + 1) as int),
                    digits_end(src, p + 1),
                )
            } else {
                Lexed::Fail("Unexpected character '.'"@)
            },
            None => Lexed::Fail("Unexpected character '.'"@),
        }
    } else if is_digit(c) {
        Lexed::Emit(
            Lexeme {
                kind: TokenKind::Number,
                text: src.subrange(p as int, digits_end(src, p + 1) as int),
            },
            digits_end(src, p + 1),
        )
    } else if alphanumeric(c) {
        Lexed::Emit(
            word_lexeme(src.subrange(p as int, word_end(src, p + 1) as int)),
            word_end(src, p + 1),
        )
    } else {
        Lexed::Fail("Unexpected character "@.push(c))
    }
}

/// Where the scan stands: the index of the next character, the tokens so
/// far, and the places of the semicolons that a newline follows at once.
pub struct Scan {
    pub pos: int,
    pub tokens: Seq<LocLexeme>,
    pub warnings: Seq<Loc>,
}

/// Whether the `;` at index `p` is redundant: a newline follows it at once.
pub open spec fn redundant_semicolon(src: Seq<char>, p: int) -> bool {
    src[p as int] == ';' && lookahead(src, p) == Some('\n')
}

/// Whether a fraction can be joined to the last token: it is a number that
/// has no fraction yet.
pub open spec fn takes_fraction(tokens: Seq<LocLexeme>) -> bool {
    tokens.len() > 0 && tokens.last().token.kind == TokenKind::Number
        && !tokens.last().token.text.contains('.')
}

/// The message for a fraction that cannot be joined to the last token: the
/// number before it has a fraction already, or no number stands before it.
pub open spec fn stray_fraction(tokens: Seq<LocLexeme>) -> Seq<char> {
    if tokens.len() > 0 && tokens.last().token.kind == TokenKind::Number {
        "Invalid number"@
    } else {
        "Unexpected character '.'"@
    }
}

/// The tokens with `fraction` joined to the text of the last one.
pub open spec fn join_fraction(tokens: Seq<LocLexeme>, fraction: Seq<char>) -> Seq<LocLexeme> {
    tokens.drop_last().push(
        LocLexeme {
            token: Lexeme { kind: TokenKind::Number, text: tokens.last().token.text + fraction },
            loc: tokens.last().loc,
        },
    )
}

/// One step of the scan: what is at `st.pos` is read.
pub open spec fn scan_step(src: Seq<char>, st: Scan) -> Result<Scan, ErrorView>
    recommends
        st.pos < src.len(),
{
    let loc = loc_at(src, st.pos);
    match lex(src, st.pos) {
        Lexed::Skip(q) => Ok(Scan { pos: q, ..st }),
        Lexed::Emit(token, q) => Ok(
            Scan {
                pos: q,
                tokens: st.tokens.push(LocLexeme { token, loc }),
                warnings: if redundant_semicolon(src, st.pos) {
                    st.warnings.push(loc)
                } else {
                    st.warnings
                },
            },
        ),
        Lexed::Fraction(fraction, q) => if takes_fraction(st.tokens) {
            Ok(Scan { pos: q, tokens: join_fraction(st.tokens, fraction), ..st })
        } else {
            Err(ErrorView { loc, message: stray_fraction(st.tokens) })
        },
        Lexed::Fail(message) => Err(ErrorView { loc, message }),
    }
}

/// Whatever is read at an index within the source, the scan goes on behind
/// it, within the source.
pub proof fn lemma_scan_step_advances(src: Seq<char>, st: Scan)
    requires
        0 <= st.pos < src.len(),
    ensures
        scan_step(src, st) matches Ok(next) ==> st.pos < next.pos <= src.len(),
{
    let p = st.pos;
    lemma_run_end(src, p + 1, Run::Digits);
    lemma_run_end(src, p + 1, Run::Word);
    lemma_run_end(src, p + 1, Run::Until('"'));
    lemma_run_end(src, p + 1, Run::Until('\n'));
    lemma_comment_end(src, p + 1);
}

/// The scan from `st` to the end of the source: the first error, or the
/// final state, whose last token is the end-of-input token.
pub open spec fn scan_from(src: Seq<char>, st: Scan) -> Result<Scan, ErrorView>
    decreases src.len() - st.pos,
{
    if st.pos < 0 || st.pos >= src.len() {
        Ok(
            Scan {
                tokens: st.tokens.push(
                    LocLexeme { token: Lexeme::plain(TokenKind::Eof), loc: loc_at(src, src.len() as int) },
                ),
                ..st
            },
        )
    } else {
        match scan_step(src, st) {
            Ok(next) => {
                proof {
                    lemma_scan_step_advances(src, st);
                }
                scan_from(src, next)
            },
            Err(e) => Err(e),
        }
    }
}

/// The scan of a whole source.
pub open spec fn scanned(src: Seq<char>) -> Result<Scan, ErrorView> {
    scan_from(src, Scan { pos: 0, tokens: Seq::empty(), warnings: Seq::empty() })
}

/// The lexer over one source.
pub struct Scanner {
    /// The characters of the source.
    pub chars: Vec<char>,
    /// The index of the next character.
    pub pos: usize,
    /// The tokens so far.
    pub tokens: Vec<LocToken>,
    /// The place of the next character.
    pub cur: Loc,
    /// The place of the first character of the token that is being read.
    pub start: Loc,
    /// The places of the semicolons that a newline follows at once.
    pub warnings: Vec<Loc>,
}

/// The number after `n`; `usize::MAX` stays.
fn count_on(n: usize) -> (r: usize)
    ensures
        r == next_count(n),
{
    if n < usize::MAX {
        n + 1
    } else {
        n
    }
}

/// Whether the text holds a `.`.
fn has_fraction(text: &String) -> (r: bool)
    ensures
        r == text@.contains('.'),
{
    let chars = chars_of(text.as_str());
    let mut i: usize = 0;
    while i < chars.len()
        invariant
            i <= chars.len(),
            chars@ == text@,
            forall|j: int| 0 <= j < i ==> chars@[j] != '.',
        decreases chars.len() - i,
    {
        if chars[i] == '.' {
            return true;
        }
        i += 1;
    }
    false
}

impl Scanner {
    /// The scanner stands within its source, and its place is that of the
    /// next character.
    pub open spec fn wf(&self) -> bool {
        &&& self.pos <= self.chars.len()
        &&& self.cur == loc_at(self.chars@, self.pos as int)
    }

    /// Where the scan stands.
    pub open spec fn state(&self) -> Scan {
        Scan { pos: self.pos as int, tokens: lexemes(self.tokens@), warnings: self.warnings@ }
    }

    /// Whether `next` is the scanner moved to index `pos`, all else kept.
    pub open spec fn moved_to(&self, next: &Scanner, pos: int) -> bool {
        &&& next.wf()
        &&& next.pos == pos
        &&& next.chars == self.chars
        &&& next.tokens == self.tokens
        &&& next.start == self.start
        &&& next.warnings == self.warnings
    }

    /// A scanner at the start of `source`.
    pub fn new(source: &str) -> (r: Scanner)
        ensures
            r.chars@ == source@,
            r.pos == 0,
            r.tokens@.len() == 0,
            r.warnings@.len() == 0,
            r.cur == origin(),
            r.start == origin(),
            r.wf(),
    {
        Scanner {
            chars: chars_of(source),
            pos: 0,
            tokens: Vec::new(),
            cur: Loc { line: 1, col: 1, idx: 0 },
            start: Loc { line: 1, col: 1, idx: 0 },
            warnings: Vec::new(),
        }
    }

    /// The places of the semicolons that a newline follows at once, as
    /// found so far.
    pub fn warnings(&self) -> (r: &Vec<Loc>)
        ensures
            r@ == self.warnings@,
    {
        &self.warnings
    }

    fn peek(&self) -> (r: Option<char>)
        ensures
            r == (if self.pos < self.chars.len() {
                Some(self.chars@[self.pos as int])
            } else {
                None
            }),
    {
        if self.pos < self.chars.len() {
            Some(self.chars[self.pos])
        } else {
            None
        }
    }

    fn next(&mut self) -> (r: Option<char>)
        requires
            old(self).wf(),
        ensures
            old(self).pos < old(self).chars.len() ==> (r == Some(
                old(self).chars@[old(self).pos as int],
            ) && old(self).moved_to(final(self), old(self).pos + 1)),
            old(self).pos >= old(self).chars.len() ==> (r is None && *final(self) == *old(self)),
    {
        if self.pos < self.chars.len() {
            let c = self.chars[self.pos];
            self.pos = self.pos + 1;
            if c == '\n' {
                self.cur = Loc {
                    line: count_on(self.cur.line),
                    col: 1,
                    idx: count_on(self.cur.idx),
                };
            } else {
                self.cur = Loc {
                    line: self.cur.line,
                    col: count_on(self.cur.col),
                    idx: count_on(self.cur.idx),
                };
            }
            Some(c)
        } else {
            None
        }
    }

    fn emit(&mut self, token: Token)
        ensures
            final(self).tokens@ == old(self).tokens@.push(
                LocToken { token, loc: old(self).start },
            ),
            final(self).chars == old(self).chars,
            final(self).pos == old(self).pos,
            final(self).cur == old(self).cur,
            final(self).start == old(self).start,
            final(self).warnings == old(self).warnings,
    {
        self.tokens.push(LocToken { token, loc: self.start });
    }

    /// Reads to the end of the run that starts at the next character.
    fn skip_run(&mut self, run: Run)
        requires
            old(self).wf(),
        ensures
            old(self).moved_to(
                final(self),
                run_end(old(self).chars@, old(self).pos as int, run),
            ),
    {
        while self.pos < self.chars.len() && run.accepts(self.chars[self.pos])
            invariant
                old(self).moved_to(self, self.pos as int),
                run_end(self.chars@, self.pos as int, run) == run_end(
                    old(self).chars@,
                    old(self).pos as int,
                    run,
                ),
            decreases self.chars.len() - self.pos,
        {
            self.next();
        }
    }

    /// Reads a run that `first` began: the text is `first` and the run that
    /// starts at the next character.
    fn take_run(&mut self, first: char, run: Run) -> (r: String)
        requires
            old(self).wf(),
        ensures
            old(self).moved_to(
                final(self),
                run_end(old(self).chars@, old(self).pos as int, run),
            ),
            r@ == seq![first] + old(self).chars@.subrange(
                old(self).pos as int,
                run_end(old(self).chars@, old(self).pos as int, run),
            ),
    {
        let from = self.pos;
        proof {
            lemma_run_end(self.chars@, self.pos as int, run);
        }
        self.skip_run(run);
        let rest = string_of(&self.chars, from, self.pos);
        let mut text = String::new();
        push_char(&mut text, first);
        text.append(rest.as_str());
        assert(text@ =~= seq![first] + rest@);
        text
    }

    /// Reads a block comment from the next character on.
    fn skip_comment(&mut self)
        requires
            old(self).wf(),
        ensures
            old(self).moved_to(final(self), comment_end(old(self).chars@, old(self).pos as int)),
    {
        loop
            invariant_except_break
                comment_end(self.chars@, self.pos as int) == comment_end(
                    old(self).chars@,
                    old(self).pos as int,
                ),
            invariant
                old(self).moved_to(self, self.pos as int),
            ensures
                old(self).moved_to(self, comment_end(old(self).chars@, old(self).pos as int)),
            decreases self.chars.len() - self.pos,
        {
            match self.next() {
                None => {
                    break ;
                },
                Some(c) => {
                    if c == '*' && self.peek() == Some('/') {
                        self.next();
                        break ;
                    }
                },
            }
        }
    }

    /// Reads a string literal whose opening quote `c` has been read: up to
    /// and including the closing quote. Without one the string is
    /// unterminated, which is an error at the opening quote.
    pub fn string(&mut self, c: char) -> (r: Result<Token, Error>)
        requires
            old(self).wf(),
        ensures
            ({
                let src = old(self).chars@;
                let from = old(self).pos as int;
                let q = quote_at(src, from);
                if q < src.len() {
                    &&& r matches Ok(t)
                    &&& t@ == (Lexeme { kind: TokenKind::String, text: src.subrange(from, q) })
                    &&& old(self).moved_to(final(self), q + 1)
                } else {
                    &&& r matches Err(e)
                    &&& e@ == (ErrorView { loc: old(self).start, message: "Unterminated string"@ })
                }
            }),
    {
        let from = self.pos;
        proof {
            lemma_run_end(self.chars@, self.pos as int, Run::Until('"'));
        }
        self.skip_run(Run::Until('"'));
        if self.pos < self.chars.len() {
            let text = string_of(&self.chars, from, self.pos);
            self.next();
            Ok(Token::String(text))
        } else {
            Err(Error::new(self.start, "Unterminated string"))
        }
    }

    /// Reads a numeric literal whose first digit `start_char` has been
    /// read: that digit and the digits that follow.
    pub fn number(&mut self, start_char: char) -> (r: Result<Token, Error>)
        requires
            old(self).wf(),
        ensures
            ({
                let src = old(self).chars@;
                let from = old(self).pos as int;
                &&& r matches Ok(t)
                &&& t@ == (Lexeme {
                    kind: TokenKind::Number,
                    text: seq![start_char] + src.subrange(from, digits_end(src, from)),
                })
                &&& old(self).moved_to(final(self), digits_end(src, from))
            }),
    {
        let text = self.take_run(start_char, Run::Digits);
        Ok(Token::Number(text))
    }

    /// Reads the fraction of a numeric literal whose `.` has been read: the
    /// `.` and the digits that follow.
    fn collect_decimal_part(&mut self) -> (r: String)
        requires
            old(self).wf(),
        ensures
            ({
                let src = old(self).chars@;
                let from = old(self).pos as int;
                &&& r@ == seq!['.'] + src.subrange(from, digits_end(src, from))
                &&& old(self).moved_to(final(self), digits_end(src, from))
            }),
    {
        self.take_run('.', Run::Digits)
    }

    /// Reads a word whose first character `c` has been read: that character
    /// and the alphanumeric characters that follow. The token is the
    /// keyword that the word is, or an identifier.
    pub fn identifier(&mut self, c: char) -> (r: Token)
        requires
            old(self).wf(),
        ensures
            ({
                let src = old(self).chars@;
                let from = old(self).pos as int;
                &&& r@ == word_lexeme(seq![c] + src.subrange(from, word_end(src, from)))
                &&& old(self).moved_to(final(self), word_end(src, from))
            }),
    {
        let word = self.take_run(c, Run::Word);
        match Token::keyword(&word) {
            Some(token) => token,
            None => Token::Identifier(word),
        }
    }

    /// A one-character token, or the two-character token `second` where
    /// `=` follows.
    fn with_equal(&mut self, first: Token, second: Token) -> (r: Token)
        requires
            old(self).wf(),
            old(self).pos >= 1,
        ensures
            ({
                let src = old(self).chars@;
                let p = old(self).pos - 1;
                if lookahead(src, p) == Some('=') {
                    r == second && old(self).moved_to(final(self), p + 2)
                } else {
                    r == first && old(self).moved_to(final(self), p + 1)
                }
            }),
    {
        if self.peek() == Some('=') {
            self.next();
            second
        } else {
            first
        }
    }

    /// Joins a fraction to the last token, which must be a number without
    /// one.
    fn join_fraction(&mut self, fraction: String, loc: Loc) -> (r: Result<(), Error>)
        ensures
            final(self).chars == old(self).chars,
            final(self).pos == old(self).pos,
            final(self).cur == old(self).cur,
            final(self).start == old(self).start,
            final(self).warnings == old(self).warnings,
            takes_fraction(lexemes(old(self).tokens@)) ==> (r is Ok && lexemes(final(self).tokens@)
                == join_fraction(lexemes(old(self).tokens@), fraction@)),
            !takes_fraction(lexemes(old(self).tokens@)) ==> (r matches Err(e) && e@ == (ErrorView {
                loc,
                message: stray_fraction(lexemes(old(self).tokens@)),
            })),
    {
        let ghost before = self.tokens@;
        match self.tokens.pop() {
            Some(last) => {
                assert(last == before.last());
                assert(self.tokens@ == before.drop_last());
                let place = last.loc;
                match last.token {
                    Token::Number(text) => {
                        if has_fraction(&text) {
                            Err(Error::new(loc, "Invalid number"))
                        } else {
                            let mut joined = text;
                            joined.append(fraction.as_str());
                            self.tokens.push(LocToken { token: Token::Number(joined), loc: place });
                            assert(lexemes(self.tokens@) =~= join_fraction(
                                lexemes(before),
                                fraction@,
                            ));
                            Ok(())
                        }
                    },
                    _ => Err(Error::new(loc, "Unexpected character '.'")),
                }
            },
            None => Err(Error::new(loc, "Unexpected character '.'")),
        }
    }

    /// Reads what stands at the next character: white space, a comment, a
    /// token, or the fraction of the number before it.
    pub fn scan_token(&mut self) -> (r: Result<(), Error>)
        requires
            old(self).wf(),
            old(self).pos < old(self).chars.len(),
        ensures
            match scan_step(old(self).chars@, old(self).state()) {
                Ok(next) => {
                    &&& r is Ok
                    &&& final(self).wf()
                    &&& final(self).chars == old(self).chars
                    &&& final(self).state() == next
                },
                Err(e) => r matches Err(err) && err@ == e,
            },
    {
        let ghost src = self.chars@;
        let ghost p = self.pos as int;
        let ghost before = lexemes(self.tokens@);
        proof {
            lemma_run_end(src, p + 1, Run::Digits);
            lemma_run_end(src, p + 1, Run::Word);
            lemma_run_end(src, p + 1, Run::Until('"'));
            lemma_run_end(src, p + 1, Run::Until('\n'));
            lemma_comment_end(src, p + 1);
        }
        self.start = self.cur;
        let c = self.chars[self.pos];
        self.next();
        let token = if c == ' ' || c == '\r' || c == '\t' {
            return Ok(());
        } else if c == '\n' {
            Token::Newline
        } else if c == '(' {
            Token::LeftParen
        } else if c == ')' {
            Token::RightParen
        } else if c == '{' {
            Token::LeftBrace
        } else if c == '}' {
            Token::RightBrace
        } else if c == '@' {
            Token::At
        } else if c == ',' {
            Token::Comma
        } else if c == '+' {
            Token::Plus
        } else if c == '-' {
            Token::Minus
        } else if c == '/' {
            match self.peek() {
                Some('/') => {
                    self.skip_run(Run::Until('\n'));
                    self.next();
                    Token::Newline
                },
                Some('*') => {
                    self.skip_comment();
                    return Ok(());
                },
                _ => Token::Slash,
            }
        } else if c == '*' {
            Token::Star
        } else if c == ';' {
            if self.peek() == Some('\n') {
                self.warnings.push(self.start);
            }
            Token::Semicolon
        } else if c == '?' {
            Token::QuestionMark
        } else if c == ':' {
            Token::Colon
        } else if c == '!' {
            self.with_equal(Token::Bang, Token::BangEqual)
        } else if c == '=' {
            self.with_equal(Token::Equal, Token::EqualEqual)
        } else if c == '>' {
            self.with_equal(Token::Greater, Token::GreaterEqual)
        } else if c == '<' {
            self.with_equal(Token::Less, Token::LessEqual)
        } else if c == '"' {
            match self.string(c) {
                Ok(token) => token,
                Err(e) => {
                    return Err(e);
                },
            }
        } else if c == '.' {
            match self.peek() {
                Some(d) => {
                    if d == '.' {
                        self.next();
                        Token::Range
                    } else if digit(d) {
                        let fraction = self.collect_decimal_part();
                        assert(fraction@ =~= src.subrange(p, digits_end(src, p + 1)));
                        return self.join_fraction(fraction, self.start);
                    } else {
                        return Err(Error::new(self.start, "Unexpected character '.'"));
                    }
                },
                None => {
                    return Err(Error::new(self.start, "Unexpected character '.'"));
                },
            }
        } else if digit(c) {
            match self.number(c) {
                Ok(token) => {
                    assert(token@.text =~= src.subrange(p, digits_end(src, p + 1)));
                    token
                },
                Err(e) => {
                    return Err(e);
                },
            }
        } else if is_alphanumeric(c) {
            assert(seq![c] + src.subrange(p + 1, word_end(src, p + 1)) =~= src.subrange(
                p,
                word_end(src, p + 1),
            ));
            self.identifier(c)
        } else {
            let mut message = String::from_str("Unexpected character ");
            push_char(&mut message, c);
            return Err(Error { loc: self.start, message });
        };
        self.emit(token);
        assert(lexemes(self.tokens@) =~= before.push(
            LocLexeme { token: token@, loc: loc_at(src, p) },
        ));
        Ok(())
    }

    /// Scans the source from where the scanner stands to its end. The
    /// result is the tokens in order, closed by one end-of-input token, or
    /// the first error.
    pub fn scan(&mut self) -> (r: Result<Vec<LocToken>, Error>)
        requires
            old(self).wf(),
        ensures
            match scan_from(old(self).chars@, old(self).state()) {
                Ok(end) => {
                    &&& r matches Ok(tokens)
                    &&& lexemes(tokens@) == end.tokens
                    &&& final(self).warnings@ == end.warnings
                },
                Err(e) => r matches Err(err) && err@ == e,
            },
    {
        while self.pos < self.chars.len()
            invariant
                self.wf(),
                self.chars == old(self).chars,
                scan_from(self.chars@, self.state()) == scan_from(
                    old(self).chars@,
                    old(self).state(),
                ),
            decreases self.chars.len() - self.pos,
        {
            proof {
                lemma_scan_step_advances(self.chars@, self.state());
            }
            match self.scan_token() {
                Ok(()) => {},
                Err(e) => {
                    return Err(e);
                },
            }
        }
        self.start = self.cur;
        let ghost before = lexemes(self.tokens@);
        self.emit(Token::Eof);
        assert(lexemes(self.tokens@) =~= before.push(
            LocLexeme { token: Lexeme::plain(TokenKind::Eof), loc: self.cur },
        ));
        let mut tokens: Vec<LocToken> = Vec::new();
        std::mem::swap(&mut self.tokens, &mut tokens);
        Ok(tokens)
    }
}

} // verus!
