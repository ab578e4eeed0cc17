//! Tokens: the closed set of lexical units, their kinds and their texts.
use vstd::prelude::*;

verus! {

/// The kind of a token: which variant it is, without what it carries.
#[derive(Clone, Copy, Debug, PartialEq, Eq, Structural)]
pub enum TokenKind {
    LeftParen,
    RightParen,
    LeftBrace,
    RightBrace,
    At,
    Comma,
    Plus,
    Minus,
    Slash,
    Star,
    Range,
    Semicolon,
    Newline,
    QuestionMark,
    Colon,
    Bang,
    BangEqual,
    Equal,
    EqualEqual,
    Greater,
    GreaterEqual,
    Less,
    LessEqual,
    Identifier,
    String,
    Number,
    And,
    Or,
    Xor,
    Not,
    True,
    False,
    Class,
    If,
    Else,
    While,
    For,
    Null,
    Log,
    Return,
    Super,
    This,
    Fn,
    Use,
    Var,
    Eof,
    UnterminatedString,
    Unknown,
}

/// A lexical unit. Identifiers, strings and numbers carry their text; a
/// number carries its literal as it was written (digits, and at most one
/// `.` followed by digits).
#[derive(Debug)]
pub enum Token {
    // Single-character tokens
    LeftParen,
    RightParen,
    LeftBrace,
    RightBrace,
    At,
    Comma,
    Plus,
    Minus,
    Slash,
    Star,
    Range,
    Semicolon,
    Newline,
    QuestionMark,
    Colon,
    // Comparisons
    Bang,
    BangEqual,
    Equal,
    EqualEqual,
    Greater,
    GreaterEqual,
    Less,
    LessEqual,
    // Literals
    Identifier(String),
    String(String),
    Number(String),
    // Keywords
    And,
    Or,
    Xor,
    Not,
    True,
    False,
    Class,
    If,
    Else,
    While,
    For,
    Null,
    Log,
    Return,
    Super,
    This,
    Fn,
    Use,
    Var,
    // Special
    Eof,
    UnterminatedString,
    Unknown(char),
}

/// What a token is to a contract: its kind and the text it carries (empty
/// for a token that carries none, the one character for `Unknown`).
pub struct Lexeme {
    pub kind: TokenKind,
    pub text: Seq<char>,
}

impl Lexeme {
    /// The lexeme of a token that carries no text.
    pub open spec fn plain(kind: TokenKind) -> Lexeme {
        Lexeme { kind, text: Seq::empty() }
    }

    /// How the token is written in a message.
    pub open spec fn display(self) -> Seq<char> {
        match self.kind {
            TokenKind::LeftParen => "("@,
            TokenKind::RightParen => ")"@,
            TokenKind::LeftBrace => "{"@,
            TokenKind::RightBrace => "}"@,
            TokenKind::At => "@"@,
            TokenKind::Comma => ","@,
            TokenKind::Plus => "+"@,
            TokenKind::Minus => "-"@,
            TokenKind::Slash => "/"@,
            TokenKind::Star => "*"@,
            TokenKind::Range => ".."@,
            TokenKind::Semicolon => ";"@,
            TokenKind::Newline => "\\n"@,
            TokenKind::QuestionMark => "?"@,
            TokenKind::Colon => ":"@,
            TokenKind::Bang => "!"@,
            TokenKind::BangEqual => "!="@,
            TokenKind::Equal => "="@,
            TokenKind::EqualEqual => "=="@,
            TokenKind::Greater => ">"@,
            TokenKind::GreaterEqual => ">="@,
            TokenKind::Less => "<"@,
            TokenKind::LessEqual => "<="@,
            TokenKind::And => "and"@,
            TokenKind::Or => "or"@,
            TokenKind::Xor => "xor"@,
            TokenKind::Not => "not"@,
            TokenKind::True => "true"@,
            TokenKind::False => "false"@,
            TokenKind::Class => "class"@,
            TokenKind::If => "if"@,
            TokenKind::Else => "else"@,
            TokenKind::While => "while"@,
            TokenKind::For => "for"@,
            TokenKind::Null => "null"@,
            TokenKind::Log => "log"@,
            TokenKind::Return => "return"@,
            TokenKind::Super => "super"@,
            TokenKind::This => "this"@,
            TokenKind::Fn => "fn"@,
            TokenKind::Use => "use"@,
            TokenKind::Var => "var"@,
            TokenKind::Eof => "EOF"@,
            TokenKind::UnterminatedString => "unterminated string"@,
            TokenKind::Identifier => self.text,
            TokenKind::String => self.text,
            TokenKind::Number => self.text,
            TokenKind::Unknown => "unknown"@,
        }
    }

    /// Whether the token can stand as a literal value.
    pub open spec fn is_value(self) -> bool {
        self.kind == TokenKind::Number || self.kind == TokenKind::String || self.kind
            == TokenKind::True || self.kind == TokenKind::False || self.kind == TokenKind::Null
    }
}

/// The keyword that a word is, if it is one.
pub open spec fn keyword_kind(word: Seq<char>) -> Option<TokenKind> {
    if word == "and"@ {
        Some(TokenKind::And)
    } else if word == "or"@ {
        Some(TokenKind::Or)
    } else if word == "xor"@ {
        Some(TokenKind::Xor)
    } else if word == "not"@ {
        Some(TokenKind::Not)
    } else if word == "true"@ {
        Some(TokenKind::True)
    } else if word == "false"@ {
        Some(TokenKind::False)
    } else if word == "class"@ {
        Some(TokenKind::Class)
    } else if word == "if"@ {
        Some(TokenKind::If)
    } else if word == "else"@ {
        Some(TokenKind::Else)
    } else if word == "while"@ {
        Some(TokenKind::While)
    } else if word == "for"@ {
        Some(TokenKind::For)
    } else if word == "null"@ {
        Some(TokenKind::Null)
    } else if word == "log"@ {
        Some(TokenKind::Log)
    } else if word == "return"@ {
        Some(TokenKind::Return)
    } else if word == "super"@ {
        Some(TokenKind::Super)
    } else if word == "this"@ {
        Some(TokenKind::This)
    } else if word == "fn"@ {
        Some(TokenKind::Fn)
    } else if word == "use"@ {
        Some(TokenKind::Use)
    } else if word == "var"@ {
        Some(TokenKind::Var)
    } else {
        None
    }
}

impl View for Token {
    type V = Lexeme;

    open spec fn view(&self) -> Lexeme {
        Lexeme { kind: self.kind(), text: self.payload() }
    }
}

impl Clone for Token {
    fn clone(&self) -> (r: Token)
        ensures
            r == *self,
    {
        match self {
            Token::LeftParen => Token::LeftParen,
            Token::RightParen => Token::RightParen,
            Token::LeftBrace => Token::LeftBrace,
            Token::RightBrace => Token::RightBrace,
            Token::At => Token::At,
            Token::Comma => Token::Comma,
            Token::Plus => Token::Plus,
            Token::Minus => Token::Minus,
            Token::Slash => Token::Slash,
            Token::Star => Token::Star,
            Token::Range => Token::Range,
            Token::Semicolon => Token::Semicolon,
            Token::Newline => Token::Newline,
            Token::QuestionMark => Token::QuestionMark,
            Token::Colon => Token::Colon,
            Token::Bang => Token::Bang,
            Token::BangEqual => Token::BangEqual,
            Token::Equal => Token::Equal,
            Token::EqualEqual => Token::EqualEqual,
            Token::Greater => Token::Greater,
            Token::GreaterEqual => Token::GreaterEqual,
            Token::Less => Token::Less,
            Token::LessEqual => Token::LessEqual,
            Token::And => Token::And,
            Token::Or => Token::Or,
            Token::Xor => Token::Xor,
            Token::Not => Token::Not,
            Token::True => Token::True,
            Token::False => Token::False,
            Token::Class => Token::Class,
            Token::If => Token::If,
            Token::Else => Token::Else,
            Token::While => Token::While,
            Token::For => Token::For,
            Token::Null => Token::Null,
            Token::Log => Token::Log,
            Token::Return => Token::Return,
            Token::Super => Token::Super,
            Token::This => Token::This,
            Token::Fn => Token::Fn,
            Token::Use => Token::Use,
            Token::Var => Token::Var,
            Token::Eof => Token::Eof,
            Token::UnterminatedString => Token::UnterminatedString,
            Token::Identifier(s) => Token::Identifier(s.clone()),
            Token::String(s) => Token::String(s.clone()),
            Token::Number(s) => Token::Number(s.clone()),
            Token::Unknown(c) => Token::Unknown(*c),
        }
    }
}

impl PartialEq for Token {
    /// Tokens are equal when they are of the same kind, whatever they carry.
    fn eq(&self, other: &Token) -> (r: bool) {
        self.kind() == other.kind()
    }
}

impl vstd::std_specs::cmp::PartialEqSpecImpl for Token {
    open spec fn obeys_eq_spec() -> bool {
        true
    }

    open spec fn eq_spec(&self, other: &Token) -> bool {
        self.kind() == other.kind()
    }
}

impl Token {
    /// The kind of the token.
    pub open spec fn spec_kind(&self) -> TokenKind {
        match self {
            Token::LeftParen => TokenKind::LeftParen,
            Token::RightParen => TokenKind::RightParen,
            Token::LeftBrace => TokenKind::LeftBrace,
            Token::RightBrace => TokenKind::RightBrace,
            Token::At => TokenKind::At,
            Token::Comma => TokenKind::Comma,
            Token::Plus => TokenKind::Plus,
            Token::Minus => TokenKind::Minus,
            Token::Slash => TokenKind::Slash,
            Token::Star => TokenKind::Star,
            Token::Range => TokenKind::Range,
            Token::Semicolon => TokenKind::Semicolon,
            Token::Newline => TokenKind::Newline,
            Token::QuestionMark => TokenKind::QuestionMark,
            Token::Colon => TokenKind::Colon,
            Token::Bang => TokenKind::Bang,
            Token::BangEqual => TokenKind::BangEqual,
            Token::Equal => TokenKind::Equal,
            Token::EqualEqual => TokenKind::EqualEqual,
            Token::Greater => TokenKind::Greater,
            Token::GreaterEqual => TokenKind::GreaterEqual,
            Token::Less => TokenKind::Less,
            Token::LessEqual => TokenKind::LessEqual,
            Token::Identifier(_) => TokenKind::Identifier,
            Token::String(_) => TokenKind::String,
            Token::Number(_) => TokenKind::Number,
            Token::And => TokenKind::And,
            Token::Or => TokenKind::Or,
            Token::Xor => TokenKind::Xor,
            Token::Not => TokenKind::Not,
            Token::True => TokenKind::True,
            Token::False => TokenKind::False,
            Token::Class => TokenKind::Class,
            Token::If => TokenKind::If,
            Token::Else => TokenKind::Else,
            Token::While => TokenKind::While,
            Token::For => TokenKind::For,
            Token::Null => TokenKind::Null,
            Token::Log => TokenKind::Log,
            Token::Return => TokenKind::Return,
            Token::Super => TokenKind::Super,
            Token::This => TokenKind::This,
            Token::Fn => TokenKind::Fn,
            Token::Use => TokenKind::Use,
            Token::Var => TokenKind::Var,
            Token::Eof => TokenKind::Eof,
            Token::UnterminatedString => TokenKind::UnterminatedString,
            Token::Unknown(_) => TokenKind::Unknown,
        }
    }

    /// The text that the token carries.
    pub open spec fn payload(&self) -> Seq<char> {
        match self {
            Token::Identifier(s) => s@,
            Token::String(s) => s@,
            Token::Number(s) => s@,
            Token::Unknown(c) => seq![*c],
            _ => Seq::empty(),
        }
    }

    /// The kind of the token.
    #[verifier::when_used_as_spec(spec_kind)]
    pub fn kind(&self) -> (r: TokenKind)
        ensures
            r == self.spec_kind(),
    {
        match self {
            Token::LeftParen => TokenKind::LeftParen,
            Token::RightParen => TokenKind::RightParen,
            Token::LeftBrace => TokenKind::LeftBrace,
            Token::RightBrace => TokenKind::RightBrace,
            Token::At => TokenKind::At,
            Token::Comma => TokenKind::Comma,
            Token::Plus => TokenKind::Plus,
            Token::Minus => TokenKind::Minus,
            Token::Slash => TokenKind::Slash,
            Token::Star => TokenKind::Star,
            Token::Range => TokenKind::Range,
            Token::Semicolon => TokenKind::Semicolon,
            Token::Newline => TokenKind::Newline,
            Token::QuestionMark => TokenKind::QuestionMark,
            Token::Colon => TokenKind::Colon,
            Token::Bang => TokenKind::Bang,
            Token::BangEqual => TokenKind::BangEqual,
            Token::Equal => TokenKind::Equal,
            Token::EqualEqual => TokenKind::EqualEqual,
            Token::Greater => TokenKind::Greater,
            Token::GreaterEqual => TokenKind::GreaterEqual,
            Token::Less => TokenKind::Less,
            Token::LessEqual => TokenKind::LessEqual,
            Token::Identifier(_) => TokenKind::Identifier,
            Token::String(_) => TokenKind::String,
            Token::Number(_) => TokenKind::Number,
            Token::And => TokenKind::And,
            Token::Or => TokenKind::Or,
            Token::Xor => TokenKind::Xor,
            Token::Not => TokenKind::Not,
            Token::True => TokenKind::True,
            Token::False => TokenKind::False,
            Token::Class => TokenKind::Class,
            Token::If => TokenKind::If,
            Token::Else => TokenKind::Else,
            Token::While => TokenKind::While,
            Token::For => TokenKind::For,
            Token::Null => TokenKind::Null,
            Token::Log => TokenKind::Log,
            Token::Return => TokenKind::Return,
            Token::Super => TokenKind::Super,
            Token::This => TokenKind::This,
            Token::Fn => TokenKind::Fn,
            Token::Use => TokenKind::Use,
            Token::Var => TokenKind::Var,
            Token::Eof => TokenKind::Eof,
            Token::UnterminatedString => TokenKind::UnterminatedString,
            Token::Unknown(_) => TokenKind::Unknown,
        }
    }

    /// Whether the token can stand as a literal value: a number, a string,
    /// `true`, `false` or `null`.
    pub fn is_valid_value(&self) -> (r: bool)
        ensures
            r == self@.is_value(),
    {
        match self {
            Token::Number(_) | Token::String(_) | Token::True | Token::False | Token::Null => true,
            _ => false,
        }
    }

    /// How the token is written in a message.
    pub fn text(&self) -> (r: String)
        ensures
            r@ == self@.display(),
    {
        match self {
            Token::LeftParen => String::from_str("("),
            Token::RightParen => String::from_str(")"),
            Token::LeftBrace => String::from_str("{"),
            Token::RightBrace => String::from_str("}"),
            Token::At => String::from_str("@"),
            Token::Comma => String::from_str(","),
            Token::Plus => String::from_str("+"),
            Token::Minus => String::from_str("-"),
            Token::Slash => String::from_str("/"),
            Token::Star => String::from_str("*"),
            Token::Range => String::from_str(".."),
            Token::Semicolon => String::from_str(";"),
            Token::Newline => String::from_str("\\n"),
            Token::QuestionMark => String::from_str("?"),
            Token::Colon => String::from_str(":"),
            Token::Bang => String::from_str("!"),
            Token::BangEqual => String::from_str("!="),
            Token::Equal => String::from_str("="),
            Token::EqualEqual => String::from_str("=="),
            Token::Greater => String::from_str(">"),
            Token::GreaterEqual => String::from_str(">="),
            Token::Less => String::from_str("<"),
            Token::LessEqual => String::from_str("<="),
            Token::And => String::from_str("and"),
            Token::Or => String::from_str("or"),
            Token::Xor => String::from_str("xor"),
            Token::Not => String::from_str("not"),
            Token::True => String::from_str("true"),
            Token::False => String::from_str("false"),
            Token::Class => String::from_str("class"),
            Token::If => String::from_str("if"),
            Token::Else => String::from_str("else"),
            Token::While => String::from_str("while"),
            Token::For => String::from_str("for"),
            Token::Null => String::from_str("null"),
            Token::Log => String::from_str("log"),
            Token::Return => String::from_str("return"),
            Token::Super => String::from_str("super"),
            Token::This => String::from_str("this"),
            Token::Fn => String::from_str("fn"),
            Token::Use => String::from_str("use"),
            Token::Var => String::from_str("var"),
            Token::Eof => String::from_str("EOF"),
            Token::UnterminatedString => String::from_str("unterminated string"),
            Token::Identifier(s) => s.clone(),
            Token::String(s) => s.clone(),
            Token::Number(s) => s.clone(),
            Token::Unknown(_) => String::from_str("unknown"),
        }
    }

    /// The keyword token for a word, or `None` where the word is no keyword.
    pub fn keyword(word: &String) -> (r: Option<Token>)
        ensures
            match keyword_kind(word@) {
                Some(k) => r matches Some(t) && t@ == Lexeme::plain(k),
                None => r is None,
            },
    {
        if *word == String::from_str("and") {
            Some(Token::And)
        } else if *word == String::from_str("or") {
            Some(Token::Or)
        } else if *word == String::from_str("xor") {
            Some(Token::Xor)
        } else if *word == String::from_str("not") {
            Some(Token::Not)
        } else if *word == String::from_str("true") {
            Some(Token::True)
        } else if *word == String::from_str("false") {
            Some(Token::False)
        } else if *word == String::from_str("class") {
            Some(Token::Class)
        } else if *word == String::from_str("if") {
            Some(Token::If)
        } else if *word == String::from_str("else") {
            Some(Token::Else)
        } else if *word == String::from_str("while") {
            Some(Token::While)
        } else if *word == String::from_str("for") {
            Some(Token::For)
        } else if *word == String::from_str("null") {
            Some(Token::Null)
        } else if *word == String::from_str("log") {
            Some(Token::Log)
        } else if *word == String::from_str("return") {
            Some(Token::Return)
        } else if *word == String::from_str("super") {
            Some(Token::Super)
        } else if *word == String::from_str("this") {
            Some(Token::This)
        } else if *word == String::from_str("fn") {
            Some(Token::Fn)
        } else if *word == String::from_str("use") {
            Some(Token::Use)
        } else if *word == String::from_str("var") {
            Some(Token::Var)
        } else {
            None
        }
    }
}

} // verus!
