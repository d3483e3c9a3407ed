use vstd::prelude::*;
use crate::text::decimal;

verus! {

/// The kinds of error that the lexer reports.
#[derive(Debug, Clone, Copy, PartialEq, Eq, Structural)]
pub enum LexerErrorKind {
    UnidentifiedCharacter,
    UnexpectedCharacter,
    InvalidNumber,
    InvalidString,
}

/// An error found while splitting the source text into tokens.
#[derive(Debug, Clone)]
pub struct LexerError {
    pub kind: LexerErrorKind,
    pub msg: String,
    pub line: usize,
    pub column: usize,
}

/// The model of a lexer error.
pub struct SpecLexerError {
    pub kind: LexerErrorKind,
    pub msg: Seq<char>,
    pub line: int,
    pub column: int,
}

impl View for LexerError {
    type V = SpecLexerError;

    open spec fn view(&self) -> SpecLexerError {
        SpecLexerError {
            kind: self.kind,
            msg: self.msg@,
            line: self.line as int,
            column: self.column as int,
        }
    }
}

impl LexerError {
    pub fn new(kind: LexerErrorKind, msg: String, line: usize, column: usize) -> (r: Self)
        ensures
            r@ == (SpecLexerError { kind, msg: msg@, line: line as int, column: column as int }),
    {
        LexerError { kind, msg, line, column }
    }

    /// What the error displays: its message.
    pub fn to_message(&self) -> (r: String)
        ensures
            r@ == self.msg@,
    {
        self.msg.clone()
    }
}

/// The kinds of error that the parser reports.
#[derive(Debug, Clone, Copy, PartialEq, Eq, Structural)]
pub enum ParserErrorKind {
    MissingDelimiter,
    UnidentifiedToken,
    ExpectedStatement,
    UnexpectedToken,
    MissingSemicolon,
}

/// An error found while reading the tokens as a program.
#[derive(Debug, Clone)]
pub struct ParserError {
    pub kind: ParserErrorKind,
    pub msg: String,
    pub line: usize,
    pub column: usize,
}

/// The model of a parser error.
pub struct SpecParserError {
    pub kind: ParserErrorKind,
    pub msg: Seq<char>,
    pub line: int,
    pub column: int,
}

impl View for ParserError {
    type V = SpecParserError;

    open spec fn view(&self) -> SpecParserError {
        SpecParserError {
            kind: self.kind,
            msg: self.msg@,
            line: self.line as int,
            column: self.column as int,
        }
    }
}

impl ParserError {
    pub fn new(kind: ParserErrorKind, msg: String, line: usize, column: usize) -> (r: Self)
        ensures
            r@ == (SpecParserError { kind, msg: msg@, line: line as int, column: column as int }),
    {
        ParserError { kind, msg, line, column }
    }

    /// What the error displays: its message.
    pub fn to_message(&self) -> (r: String)
        ensures
            r@ == self.msg@,
    {
        self.msg.clone()
    }
}

/// The kinds of error that running a program reports.
#[derive(Debug, Clone, Copy, PartialEq, Eq, Structural)]
pub enum RuntimeErrorKind {
    UndefinedVariable,
    TypeMismatch,
    DivisionByZero,
    InvalidIndex,
}

/// An error found while running a program.
#[derive(Debug, Clone)]
pub struct RuntimeError {
    pub kind: RuntimeErrorKind,
    pub msg: String,
}

/// The model of a runtime error.
pub struct SpecRuntimeError {
    pub kind: RuntimeErrorKind,
    pub msg: Seq<char>,
}

impl View for RuntimeError {
    type V = SpecRuntimeError;

    open spec fn view(&self) -> SpecRuntimeError {
        SpecRuntimeError { kind: self.kind, msg: self.msg@ }
    }
}

impl RuntimeError {
    pub fn new(kind: RuntimeErrorKind, msg: String) -> (r: Self)
        ensures
            r@ == (SpecRuntimeError { kind, msg: msg@ }),
    {
        Self { kind, msg }
    }

    /// What the error displays: its message.
    pub fn to_message(&self) -> (r: String)
        ensures
            r@ == self.msg@,
    {
        self.msg.clone()
    }
}

/// Any error of the three stages.
#[derive(Debug, Clone)]
pub enum Error {
    Lex(LexerError),
    Parse(ParserError),
    Runtime(RuntimeError),
}

/// The model of an error.
pub enum SpecError {
    Lex(SpecLexerError),
    Parse(SpecParserError),
    Runtime(SpecRuntimeError),
}

impl View for Error {
    type V = SpecError;

    open spec fn view(&self) -> SpecError {
        match self {
            Error::Lex(e) => SpecError::Lex(e@),
            Error::Parse(e) => SpecError::Parse(e@),
            Error::Runtime(e) => SpecError::Runtime(e@),
        }
    }
}

/// The text that an error displays.
pub open spec fn error_text(e: SpecError) -> Seq<char> {
    match e {
        SpecError::Lex(l) => "Lexer error at line "@ + decimal(l.line as nat) + ", column "@
            + decimal(l.column as nat) + ": "@ + l.msg,
        SpecError::Parse(p) => "Parser error at line "@ + decimal(p.line as nat) + ", column "@
            + decimal(p.column as nat) + ": "@ + p.msg,
        SpecError::Runtime(r) => "Runtime error: "@ + r.msg,
    }
}

impl Error {
    /// The text that the error displays, naming the stage and, for the
    /// lexer and the parser, the line and column.
    pub fn to_message(&self) -> (r: String)
        ensures
            r@ == error_text(self@),
    {
        match self {
            Error::Lex(l) => located_message("Lexer error at line ", l.line, l.column, &l.msg),
            Error::Parse(p) => located_message("Parser error at line ", p.line, p.column, &p.msg),
            Error::Runtime(r) => {
                let s = String::from_str("Runtime error: ");
                s.concat(r.msg.as_str())
            },
        }
    }
}

fn located_message(head: &str, line: usize, column: usize, msg: &String) -> (r: String)
    ensures
        r@ == head@ + decimal(line as nat) + ", column "@ + decimal(column as nat) + ": "@ + msg@,
{
    let s = String::from_str(head);
    let line_text = crate::text::usize_to_text(line);
    let s = s.concat(line_text.as_str());
    let s = s.concat(", column ");
    let column_text = crate::text::usize_to_text(column);
    let s = s.concat(column_text.as_str());
    let s = s.concat(": ");
    s.concat(msg.as_str())
}

impl From<LexerError> for Error {
    fn from(value: LexerError) -> (r: Self) {
        Error::Lex(value)
    }
}

impl vstd::std_specs::convert::FromSpecImpl<LexerError> for Error {
    open spec fn obeys_from_spec() -> bool {
        true
    }

    open spec fn from_spec(v: LexerError) -> Self {
        Error::Lex(v)
    }
}

impl From<ParserError> for Error {
    fn from(value: ParserError) -> (r: Self) {
        Error::Parse(value)
    }
}

impl vstd::std_specs::convert::FromSpecImpl<ParserError> for Error {
    open spec fn obeys_from_spec() -> bool {
        true
    }

    open spec fn from_spec(v: ParserError) -> Self {
        Error::Parse(v)
    }
}

impl From<RuntimeError> for Error {
    fn from(value: RuntimeError) -> (r: Self) {
        Error::Runtime(value)
    }
}

impl vstd::std_specs::convert::FromSpecImpl<RuntimeError> for Error {
    open spec fn obeys_from_spec() -> bool {
        true
    }

    open spec fn from_spec(v: RuntimeError) -> Self {
        Error::Runtime(v)
    }
}

} // verus!
