//! Token kinds and tokens produced by the scanner.

use vstd::prelude::*;

verus! {

/// The kind of a token, including the decoded payload for string and
/// number literals.
pub enum TokenType {
    // single character tokens
    LeftParen,
    RightParen,
    LeftBrace,
    RightBrace,
    Comma,
    Dot,
    Minus,
    Plus,
    Semicolon,
    Slash,
    Star,
    // one or two character tokens
    Bang,
    BangEqual,
    Equal,
    EqualEqual,
    Greater,
    GreaterEqual,
    Less,
    LessEqual,
    // literals
    Identifier,
    Str(String),
    Number(i64),
    // keywords
    And,
    Class,
    Else,
    False,
    Fun,
    For,
    If,
    Nil,
    Or,
    Print,
    Return,
    Super,
    This,
    True,
    Var,
    While,
    Break,
    Eof,
}

/// The view of a token kind: string payloads are seen as character
/// sequences.
pub enum TokenTypeV {
    LeftParen,
    RightParen,
    LeftBrace,
    RightBrace,
    Comma,
    Dot,
    Minus,
    Plus,
    Semicolon,
    Slash,
    Star,
    Bang,
    BangEqual,
    Equal,
    EqualEqual,
    Greater,
    GreaterEqual,
    Less,
    LessEqual,
    Identifier,
    Str(Seq<char>),
    Number(i64),
    And,
    Class,
    Else,
    False,
    Fun,
    For,
    If,
    Nil,
    Or,
    Print,
    Return,
    Super,
    This,
    True,
    Var,
    While,
    Break,
    Eof,
}

impl View for TokenType {
    type V = TokenTypeV;

    open spec fn view(&self) -> TokenTypeV {
        match self {
            TokenType::LeftParen => TokenTypeV::LeftParen,
            TokenType::RightParen => TokenTypeV::RightParen,
            TokenType::LeftBrace => TokenTypeV::LeftBrace,
            TokenType::RightBrace => TokenTypeV::RightBrace,
            TokenType::Comma => TokenTypeV::Comma,
            TokenType::Dot => TokenTypeV::Dot,
            TokenType::Minus => TokenTypeV::Minus,
            TokenType::Plus => TokenTypeV::Plus,
            TokenType::Semicolon => TokenTypeV::Semicolon,
            TokenType::Slash => TokenTypeV::Slash,
            TokenType::Star => TokenTypeV::Star,
            TokenType::Bang => TokenTypeV::Bang,
            TokenType::BangEqual => TokenTypeV::BangEqual,
            TokenType::Equal => TokenTypeV::Equal,
            TokenType::EqualEqual => TokenTypeV::EqualEqual,
            TokenType::Greater => TokenTypeV::Greater,
            TokenType::GreaterEqual => TokenTypeV::GreaterEqual,
            TokenType::Less => TokenTypeV::Less,
            TokenType::LessEqual => TokenTypeV::LessEqual,
            TokenType::Identifier => TokenTypeV::Identifier,
            TokenType::Str(s) => TokenTypeV::Str(s@),
            TokenType::Number(n) => TokenTypeV::Number(*n),
            TokenType::And => TokenTypeV::And,
            TokenType::Class => TokenTypeV::Class,
            TokenType::Else => TokenTypeV::Else,
            TokenType::False => TokenTypeV::False,
            TokenType::Fun => TokenTypeV::Fun,
            TokenType::For => TokenTypeV::For,
            TokenType::If => TokenTypeV::If,
            TokenType::Nil => TokenTypeV::Nil,
            TokenType::Or => TokenTypeV::Or,
            TokenType::Print => TokenTypeV::Print,
            TokenType::Return => TokenTypeV::Return,
            TokenType::Super => TokenTypeV::Super,
            TokenType::This => TokenTypeV::This,
            TokenType::True => TokenTypeV::True,
            TokenType::Var => TokenTypeV::Var,
            TokenType::While => TokenTypeV::While,
            TokenType::Break => TokenTypeV::Break,
            TokenType::Eof => TokenTypeV::Eof,
        }
    }
}

/// A small number distinguishing the variants of a token kind, ignoring
/// the payload of string and number literals.
#[verifier::opaque]
pub open spec fn spec_variant_id(t: TokenTypeV) -> u32 {
    match t {
        TokenTypeV::LeftParen => 0,
        TokenTypeV::RightParen => 1,
        TokenTypeV::LeftBrace => 2,
        TokenTypeV::RightBrace => 3,
        TokenTypeV::Comma => 4,
        TokenTypeV::Dot => 5,
        TokenTypeV::Minus => 6,
        TokenTypeV::Plus => 7,
        TokenTypeV::Semicolon => 8,
        TokenTypeV::Slash => 9,
        TokenTypeV::Star => 10,
        TokenTypeV::Bang => 11,
        TokenTypeV::BangEqual => 12,
        TokenTypeV::Equal => 13,
        TokenTypeV::EqualEqual => 14,
        TokenTypeV::Greater => 15,
        TokenTypeV::GreaterEqual => 16,
        TokenTypeV::Less => 17,
        TokenTypeV::LessEqual => 18,
        TokenTypeV::Identifier => 19,
        TokenTypeV::Str(_) => 20,
        TokenTypeV::Number(_) => 21,
        TokenTypeV::And => 22,
        TokenTypeV::Class => 23,
        TokenTypeV::Else => 24,
        TokenTypeV::False => 25,
        TokenTypeV::Fun => 26,
        TokenTypeV::For => 27,
        TokenTypeV::If => 28,
        TokenTypeV::Nil => 29,
        TokenTypeV::Or => 30,
        TokenTypeV::Print => 31,
        TokenTypeV::Return => 32,
        TokenTypeV::Super => 33,
        TokenTypeV::This => 34,
        TokenTypeV::True => 35,
        TokenTypeV::Var => 36,
        TokenTypeV::While => 37,
        TokenTypeV::Break => 38,
        TokenTypeV::Eof => 39,
    }
}

impl TokenType {
    /// The variant number of this kind.
    pub fn variant_id(&self) -> (r: u32)
        ensures
            r == spec_variant_id(self@),
    {
        proof {
            reveal(spec_variant_id);
        }
        match self {
            TokenType::LeftParen => 0,
            TokenType::RightParen => 1,
            TokenType::LeftBrace => 2,
            TokenType::RightBrace => 3,
            TokenType::Comma => 4,
            TokenType::Dot => 5,
            TokenType::Minus => 6,
            TokenType::Plus => 7,
            TokenType::Semicolon => 8,
            TokenType::Slash => 9,
            TokenType::Star => 10,
            TokenType::Bang => 11,
            TokenType::BangEqual => 12,
            TokenType::Equal => 13,
            TokenType::EqualEqual => 14,
            TokenType::Greater => 15,
            TokenType::GreaterEqual => 16,
            TokenType::Less => 17,
            TokenType::LessEqual => 18,
            TokenType::Identifier => 19,
            TokenType::Str(_) => 20,
            TokenType::Number(_) => 21,
            TokenType::And => 22,
            TokenType::Class => 23,
            TokenType::Else => 24,
            TokenType::False => 25,
            TokenType::Fun => 26,
            TokenType::For => 27,
            TokenType::If => 28,
            TokenType::Nil => 29,
            TokenType::Or => 30,
            TokenType::Print => 31,
            TokenType::Return => 32,
            TokenType::Super => 33,
            TokenType::This => 34,
            TokenType::True => 35,
            TokenType::Var => 36,
            TokenType::While => 37,
            TokenType::Break => 38,
            TokenType::Eof => 39,
        }
    }

    /// True when the two kinds are the same variant, whatever the payloads
    /// of string or number literals are.
    pub fn same_variant(&self, other: &TokenType) -> (r: bool)
        ensures
            r == (spec_variant_id(self@) == spec_variant_id(other@)),
    {
        self.variant_id() == other.variant_id()
    }
}

/// The reserved word spelled by `s`, if any: keywords are lower case and
/// matched exactly.
pub open spec fn spec_keyword(s: Seq<char>) -> Option<TokenTypeV> {
    if s == "and"@ {
        Some(TokenTypeV::And)
    } else if s == "class"@ {
        Some(TokenTypeV::Class)
    } else if s == "else"@ {
        Some(TokenTypeV::Else)
    } else if s == "false"@ {
        Some(TokenTypeV::False)
    } else if s == "fun"@ {
        Some(TokenTypeV::Fun)
    } else if s == "for"@ {
        Some(TokenTypeV::For)
    } else if s == "if"@ {
        Some(TokenTypeV::If)
    } else if s == "nil"@ {
        Some(TokenTypeV::Nil)
    } else if s == "or"@ {
        Some(TokenTypeV::Or)
    } else if s == "print"@ {
        Some(TokenTypeV::Print)
    } else if s == "return"@ {
        Some(TokenTypeV::Return)
    } else if s == "super"@ {
        Some(TokenTypeV::Super)
    } else if s == "this"@ {
        Some(TokenTypeV::This)
    } else if s == "true"@ {
        Some(TokenTypeV::True)
    } else if s == "var"@ {
        Some(TokenTypeV::Var)
    } else if s == "while"@ {
        Some(TokenTypeV::While)
    } else if s == "break"@ {
        Some(TokenTypeV::Break)
    } else {
        None
    }
}

/// Looks a word up in the reserved-word table.
pub fn get_reserved_keyword(keyword: &String) -> (r: Option<TokenType>)
    ensures
        match r {
            Some(t) => spec_keyword(keyword@) == Some(t@),
            None => spec_keyword(keyword@) is None,
        },
{
    if *keyword == String::from_str("and") {
        Some(TokenType::And)
    } else if *keyword == String::from_str("class") {
        Some(TokenType::Class)
    } else if *keyword == String::from_str("else") {
        Some(TokenType::Else)
    } else if *keyword == String::from_str("false") {
        Some(TokenType::False)
    } else if *keyword == String::from_str("fun") {
        Some(TokenType::Fun)
    } else if *keyword == String::from_str("for") {
        Some(TokenType::For)
    } else if *keyword == String::from_str("if") {
        Some(TokenType::If)
    } else if *keyword == String::from_str("nil") {
        Some(TokenType::Nil)
    } else if *keyword == String::from_str("or") {
        Some(TokenType::Or)
    } else if *keyword == String::from_str("print") {
        Some(TokenType::Print)
    } else if *keyword == String::from_str("return") {
        Some(TokenType::Return)
    } else if *keyword == String::from_str("super") {
        Some(TokenType::Super)
    } else if *keyword == String::from_str("this") {
        Some(TokenType::This)
    } else if *keyword == String::from_str("true") {
        Some(TokenType::True)
    } else if *keyword == String::from_str("var") {
        Some(TokenType::Var)
    } else if *keyword == String::from_str("while") {
        Some(TokenType::While)
    } else if *keyword == String::from_str("break") {
        Some(TokenType::Break)
    } else {
        None
    }
}

/// A kind-tagged token: the kind, the original (or synthesized) lexeme,
/// and the source line it came from.
pub struct Token {
    pub ttype: TokenType,
    pub lexeme: String,
    pub line_num: u32,
}

/// The view of a token.
pub struct TokenV {
    pub ttype: TokenTypeV,
    pub lexeme: Seq<char>,
    pub line_num: u32,
}

impl View for Token {
    type V = TokenV;

    open spec fn view(&self) -> TokenV {
        TokenV { ttype: self.ttype@, lexeme: self.lexeme@, line_num: self.line_num }
    }
}

/// A token of the given kind with an empty, synthesized lexeme.
pub fn new_token(ttype: TokenType) -> (r: Token)
    ensures
        r.ttype == ttype,
        r.lexeme@ == Seq::<char>::empty(),
        r.line_num == 0,
{
    Token { ttype, lexeme: String::new(), line_num: 0 }
}

} // verus!
