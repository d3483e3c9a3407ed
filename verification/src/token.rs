use vstd::prelude::*;

verus! {

/// The kinds of token of the language.
///
/// A float literal keeps the digits it was written with; the host turns
/// them into a floating-point number when the program runs.
#[derive(Debug)]
pub enum TokenKind {
    IntegerLiteral(i64),
    FloatLiteral(String),
    True,
    False,
    StringLiteral(String),
    Identifier(String),

    Plus,
    Minus,
    Star,
    Slash,
    Percent,
    Exclaim,

    Equals,

    LAngle,
    RAngle,
    LAngleEquals,
    RAngleEquals,

    DEquals,
    NotEquals,
    DAmpersand,
    DPipe,

    LParen,
    RParen,
    LBracket,
    RBracket,
    Comma,
    Colon,

    SetKeyword,
    Del,
    In,
    Out,
    If,
    Else,
    EndIf,
    While,
    EndWhile,
    Int,
    Float,
    Bool,
    Str,

    Newline,
    EOF,
}

/// The mathematical model of a token kind: texts become sequences of characters.
pub enum SpecTokenKind {
    IntegerLiteral(i64),
    FloatLiteral(Seq<char>),
    True,
    False,
    StringLiteral(Seq<char>),
    Identifier(Seq<char>),
    Plus,
    Minus,
    Star,
    Slash,
    Percent,
    Exclaim,
    Equals,
    LAngle,
    RAngle,
    LAngleEquals,
    RAngleEquals,
    DEquals,
    NotEquals,
    DAmpersand,
    DPipe,
    LParen,
    RParen,
    LBracket,
    RBracket,
    Comma,
    Colon,
    SetKeyword,
    Del,
    In,
    Out,
    If,
    Else,
    EndIf,
    While,
    EndWhile,
    Int,
    Float,
    Bool,
    Str,
    Newline,
    EOF,
}

impl View for TokenKind {
    type V = SpecTokenKind;

    open spec fn view(&self) -> SpecTokenKind {
        match self {
            TokenKind::IntegerLiteral(n) => SpecTokenKind::IntegerLiteral(*n),
            TokenKind::FloatLiteral(s) => SpecTokenKind::FloatLiteral(s@),
            TokenKind::True => SpecTokenKind::True,
            TokenKind::False => SpecTokenKind::False,
            TokenKind::StringLiteral(s) => SpecTokenKind::StringLiteral(s@),
            TokenKind::Identifier(s) => SpecTokenKind::Identifier(s@),
            TokenKind::Plus => SpecTokenKind::Plus,
            TokenKind::Minus => SpecTokenKind::Minus,
            TokenKind::Star => SpecTokenKind::Star,
            TokenKind::Slash => SpecTokenKind::Slash,
            TokenKind::Percent => SpecTokenKind::Percent,
            TokenKind::Exclaim => SpecTokenKind::Exclaim,
            TokenKind::Equals => SpecTokenKind::Equals,
            TokenKind::LAngle => SpecTokenKind::LAngle,
            TokenKind::RAngle => SpecTokenKind::RAngle,
            TokenKind::LAngleEquals => SpecTokenKind::LAngleEquals,
            TokenKind::RAngleEquals => SpecTokenKind::RAngleEquals,
            TokenKind::DEquals => SpecTokenKind::DEquals,
            TokenKind::NotEquals => SpecTokenKind::NotEquals,
            TokenKind::DAmpersand => SpecTokenKind::DAmpersand,
            TokenKind::DPipe => SpecTokenKind::DPipe,
            TokenKind::LParen => SpecTokenKind::LParen,
            TokenKind::RParen => SpecTokenKind::RParen,
            TokenKind::LBracket => SpecTokenKind::LBracket,
            TokenKind::RBracket => SpecTokenKind::RBracket,
            TokenKind::Comma => SpecTokenKind::Comma,
            TokenKind::Colon => SpecTokenKind::Colon,
            TokenKind::SetKeyword => SpecTokenKind::SetKeyword,
            TokenKind::Del => SpecTokenKind::Del,
            TokenKind::In => SpecTokenKind::In,
            TokenKind::Out => SpecTokenKind::Out,
            TokenKind::If => SpecTokenKind::If,
            TokenKind::Else => SpecTokenKind::Else,
            TokenKind::EndIf => SpecTokenKind::EndIf,
            TokenKind::While => SpecTokenKind::While,
            TokenKind::EndWhile => SpecTokenKind::EndWhile,
            TokenKind::Int => SpecTokenKind::Int,
            TokenKind::Float => SpecTokenKind::Float,
            TokenKind::Bool => SpecTokenKind::Bool,
            TokenKind::Str => SpecTokenKind::Str,
            TokenKind::Newline => SpecTokenKind::Newline,
            TokenKind::EOF => SpecTokenKind::EOF,
        }
    }
}

/// A token with the line and column (both counted from 1) where it starts.
#[derive(Debug)]
pub struct Token {
    pub kind: TokenKind,
    pub line: usize,
    pub column: usize,
}

/// The model of a token.
pub struct SpecToken {
    pub kind: SpecTokenKind,
    pub line: int,
    pub column: int,
}

impl View for Token {
    type V = SpecToken;

    open spec fn view(&self) -> SpecToken {
        SpecToken { kind: self.kind@, line: self.line as int, column: self.column as int }
    }
}

impl Token {
    pub fn new(kind: TokenKind, line: usize, column: usize) -> (r: Self)
        ensures
            r@ == (SpecToken { kind: kind@, line: line as int, column: column as int }),
    {
        Token { kind, line, column }
    }
}

} // verus!
