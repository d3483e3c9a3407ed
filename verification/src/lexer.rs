//! Splitting source text into tokens.
use vstd::prelude::*;
use crate::error::{LexerError, LexerErrorKind, SpecLexerError};
use crate::text::{ascii_text, shown_char, parse_int, push_char, string_from_utf8, debug_char, parse_int_text};
use crate::token::{SpecToken, SpecTokenKind, Token, TokenKind};

verus! {

/// A position in the source: the byte index and the line and column
/// (both counted from 1) of that byte.
pub struct LexPos {
    pub idx: int,
    pub line: int,
    pub column: int,
}

/// Classes of bytes that the lexer skips over.
#[derive(Clone, Copy)]
pub enum ByteClass {
    /// Whitespace other than a newline.
    Blank,
    Digit,
    /// A letter, a digit or `_`.
    WordChar,
    NotNewline,
    NotQuote,
}

pub open spec fn in_class(b: u8, c: ByteClass) -> bool {
    match c {
        ByteClass::Blank => b == 32 || b == 9 || b == 12 || b == 13,
        ByteClass::Digit => 48 <= b <= 57,
        ByteClass::WordChar => (48 <= b <= 57) || (65 <= b <= 90) || (97 <= b <= 122) || b == 95,
        ByteClass::NotNewline => b != 10,
        ByteClass::NotQuote => b != 34,
    }
}

/// Whether a byte can start a word (a keyword or an identifier).
pub open spec fn is_word_start(b: u8) -> bool {
    (65 <= b <= 90) || (97 <= b <= 122) || b == 95
}

/// The first index at or after `i` whose byte is not of the class.
pub open spec fn scan(s: Seq<u8>, i: int, c: ByteClass) -> int
    decreases s.len() - i,
{
    if 0 <= i < s.len() && in_class(s[i], c) {
        scan(s, i + 1, c)
    } else {
        i
    }
}

pub proof fn lemma_scan(s: Seq<u8>, i: int, c: ByteClass)
    ensures
        i <= scan(s, i, c),
        0 <= i <= s.len() ==> scan(s, i, c) <= s.len(),
        forall|j: int| i <= j < scan(s, i, c) ==> in_class(#[trigger] s[j], c),
        0 <= i ==> scan(s, i, c) < s.len() ==> !in_class(s[scan(s, i, c)], c),
    decreases s.len() - i,
{
    if 0 <= i < s.len() && in_class(s[i], c) {
        lemma_scan(s, i + 1, c);
    }
}

/// The position `n` bytes further on the same line.
pub open spec fn shift(p: LexPos, n: int) -> LexPos {
    LexPos { idx: p.idx + n, line: p.line, column: p.column + n }
}

/// The position after the blanks that start at `p`.
pub open spec fn skip_blanks(s: Seq<u8>, p: LexPos) -> LexPos {
    shift(p, scan(s, p.idx, ByteClass::Blank) - p.idx)
}

pub open spec fn token_at(kind: SpecTokenKind, p: LexPos) -> SpecToken {
    SpecToken { kind, line: p.line, column: p.column }
}

pub open spec fn error_at(kind: LexerErrorKind, msg: Seq<char>, p: LexPos) -> SpecLexerError {
    SpecLexerError { kind, msg, line: p.line, column: p.column }
}

/// What one request for a token gives: a token and the position after it, or an error.
pub enum LexStep {
    Token(SpecToken, LexPos),
    Failure(SpecLexerError),
}

/// The token that a word denotes: a keyword, a boolean, or an identifier.
pub open spec fn word_kind(w: Seq<char>) -> SpecTokenKind {
    if w == "set"@ {
        SpecTokenKind::SetKeyword
    } else if w == "del"@ {
        SpecTokenKind::Del
    } else if w == "in"@ {
        SpecTokenKind::In
    } else if w == "out"@ {
        SpecTokenKind::Out
    } else if w == "if"@ {
        SpecTokenKind::If
    } else if w == "else"@ {
        SpecTokenKind::Else
    } else if w == "endif"@ {
        SpecTokenKind::EndIf
    } else if w == "while"@ {
        SpecTokenKind::While
    } else if w == "endwhile"@ {
        SpecTokenKind::EndWhile
    } else if w == "true"@ {
        SpecTokenKind::True
    } else if w == "false"@ {
        SpecTokenKind::False
    } else if w == "int"@ {
        SpecTokenKind::Int
    } else if w == "float"@ {
        SpecTokenKind::Float
    } else if w == "bool"@ {
        SpecTokenKind::Bool
    } else if w == "str"@ {
        SpecTokenKind::Str
    } else {
        SpecTokenKind::Identifier(w)
    }
}

/// A word starting at `q`: the longest run of letters, digits and `_`.
pub open spec fn lex_word(s: Seq<u8>, q: LexPos) -> LexStep {
    let e = scan(s, q.idx + 1, ByteClass::WordChar);
    LexStep::Token(token_at(word_kind(ascii_text(s.subrange(q.idx, e))), q), shift(q, e - q.idx))
}

/// A number starting at `q`: digits, optionally followed by `.` and digits.
pub open spec fn lex_number(s: Seq<u8>, q: LexPos) -> LexStep {
    let j = scan(s, q.idx + 1, ByteClass::Digit);
    if j < s.len() && s[j] == 46 {
        let k = scan(s, j + 1, ByteClass::Digit);
        if k < s.len() && s[k] == 46 {
            LexStep::Failure(
                error_at(LexerErrorKind::UnexpectedCharacter, "expected digit after `.`"@, shift(q, k - q.idx)),
            )
        } else if k == j + 1 {
            LexStep::Failure(error_at(LexerErrorKind::InvalidNumber, "expected digit after `.`"@, q))
        } else {
            LexStep::Token(
                token_at(SpecTokenKind::FloatLiteral(ascii_text(s.subrange(q.idx, k))), q),
                shift(q, k - q.idx),
            )
        }
    } else {
        match parse_int(ascii_text(s.subrange(q.idx, j))) {
            Some(v) => LexStep::Token(token_at(SpecTokenKind::IntegerLiteral(v), q), shift(q, j - q.idx)),
            None => LexStep::Failure(error_at(LexerErrorKind::InvalidNumber, "integer literal out of range"@, q)),
        }
    }
}

/// A string literal whose opening quote is at `q`.
pub open spec fn lex_string(s: Seq<u8>, q: LexPos) -> LexStep {
    let e = scan(s, q.idx + 1, ByteClass::NotQuote);
    if e >= s.len() {
        LexStep::Failure(error_at(LexerErrorKind::InvalidString, "unterminated string"@, q))
    } else {
        let content = s.subrange(q.idx + 1, e);
        if vstd::utf8::valid_utf8(content) {
            LexStep::Token(
                token_at(SpecTokenKind::StringLiteral(vstd::utf8::decode_utf8(content)), q),
                shift(q, e + 1 - q.idx),
            )
        } else {
            LexStep::Failure(error_at(LexerErrorKind::InvalidString, "invalid UTF-8 in string"@, q))
        }
    }
}

/// A token of one byte at `q`.
pub open spec fn single(kind: SpecTokenKind, q: LexPos) -> LexStep {
    LexStep::Token(token_at(kind, q), shift(q, 1))
}

/// A token of one byte, or of two when the next byte is `second`.
pub open spec fn one_or_two(s: Seq<u8>, q: LexPos, second: u8, one: SpecTokenKind, two: SpecTokenKind) -> LexStep {
    if q.idx + 1 < s.len() && s[q.idx + 1] == second {
        LexStep::Token(token_at(two, q), shift(q, 2))
    } else {
        single(one, q)
    }
}

/// A token of two equal bytes such as `&&`; the first alone is an error.
pub open spec fn doubled(s: Seq<u8>, q: LexPos, b: u8, kind: SpecTokenKind, msg: Seq<char>) -> LexStep {
    if q.idx + 1 < s.len() && s[q.idx + 1] == b {
        LexStep::Token(token_at(kind, q), shift(q, 2))
    } else {
        LexStep::Failure(error_at(LexerErrorKind::UnidentifiedCharacter, msg, q))
    }
}

/// A punctuation token, a newline, or an error, at `q`.
pub open spec fn lex_symbol(s: Seq<u8>, q: LexPos) -> LexStep {
    let c = s[q.idx];
    if c == 61 {
        one_or_two(s, q, 61, SpecTokenKind::Equals, SpecTokenKind::DEquals)
    } else if c == 40 {
        single(SpecTokenKind::LParen, q)
    } else if c == 41 {
        single(SpecTokenKind::RParen, q)
    } else if c == 91 {
        single(SpecTokenKind::LBracket, q)
    } else if c == 93 {
        single(SpecTokenKind::RBracket, q)
    } else if c == 44 {
        single(SpecTokenKind::Comma, q)
    } else if c == 58 {
        single(SpecTokenKind::Colon, q)
    } else if c == 43 {
        single(SpecTokenKind::Plus, q)
    } else if c == 45 {
        single(SpecTokenKind::Minus, q)
    } else if c == 42 {
        single(SpecTokenKind::Star, q)
    } else if c == 47 {
        single(SpecTokenKind::Slash, q)
    } else if c == 37 {
        single(SpecTokenKind::Percent, q)
    } else if c == 60 {
        one_or_two(s, q, 61, SpecTokenKind::LAngle, SpecTokenKind::LAngleEquals)
    } else if c == 62 {
        one_or_two(s, q, 61, SpecTokenKind::RAngle, SpecTokenKind::RAngleEquals)
    } else if c == 33 {
        one_or_two(s, q, 61, SpecTokenKind::Exclaim, SpecTokenKind::NotEquals)
    } else if c == 38 {
        doubled(s, q, 38, SpecTokenKind::DAmpersand, "expected `&&`"@)
    } else if c == 124 {
        doubled(s, q, 124, SpecTokenKind::DPipe, "expected `||`"@)
    } else if c == 10 {
        LexStep::Token(token_at(SpecTokenKind::Newline, q), LexPos { idx: q.idx + 1, line: q.line + 1, column: 1 })
    } else {
        LexStep::Failure(
            error_at(LexerErrorKind::UnidentifiedCharacter, "unidentified character "@ + shown_char(c as char), q),
        )
    }
}

/// The next token from position `p`: blanks and comments (from `#` to the
/// end of the line) are skipped; at the end of the input the token is `EOF`.
pub open spec fn lex_token(s: Seq<u8>, p: LexPos) -> LexStep
    decreases s.len() - p.idx,
{
    let q = skip_blanks(s, p);
    if q.idx >= s.len() || q.idx < 0 {
        LexStep::Token(token_at(SpecTokenKind::EOF, q), q)
    } else if s[q.idx] == 35 {
        let e = scan(s, q.idx + 1, ByteClass::NotNewline);
        proof {
            lemma_scan(s, p.idx, ByteClass::Blank);
            lemma_scan(s, q.idx + 1, ByteClass::NotNewline);
        }
        lex_token(s, shift(q, e - q.idx))
    } else if in_class(s[q.idx], ByteClass::Digit) {
        lex_number(s, q)
    } else if is_word_start(s[q.idx]) {
        lex_word(s, q)
    } else if s[q.idx] == 34 {
        lex_string(s, q)
    } else {
        lex_symbol(s, q)
    }
}

/// Every token but `EOF` moves the position forward; `EOF` comes only at the
/// end of the input, and the position stays in the input.
pub proof fn lemma_lex_progress(s: Seq<u8>, p: LexPos)
    requires
        0 <= p.idx <= s.len(),
    ensures
        lex_token(s, p) matches LexStep::Token(t, p2) ==> {
            &&& p.idx <= p2.idx <= s.len()
            &&& (t.kind is EOF ==> p2.idx == s.len())
            &&& (!(t.kind is EOF) ==> p.idx < p2.idx)
        },
    decreases s.len() - p.idx,
{
    let q = skip_blanks(s, p);
    lemma_scan(s, p.idx, ByteClass::Blank);
    if q.idx >= s.len() {
    } else if s[q.idx] == 35 {
        let e = scan(s, q.idx + 1, ByteClass::NotNewline);
        lemma_scan(s, q.idx + 1, ByteClass::NotNewline);
        lemma_lex_progress(s, shift(q, e - q.idx));
    } else if in_class(s[q.idx], ByteClass::Digit) {
        lemma_scan(s, q.idx + 1, ByteClass::Digit);
        let j = scan(s, q.idx + 1, ByteClass::Digit);
        if j < s.len() && s[j] == 46 {
            lemma_scan(s, j + 1, ByteClass::Digit);
        }
    } else if is_word_start(s[q.idx]) {
        lemma_scan(s, q.idx + 1, ByteClass::WordChar);
    } else if s[q.idx] == 34 {
        lemma_scan(s, q.idx + 1, ByteClass::NotQuote);
    }
}

/// At the end of the input, every request gives `EOF` at the same place.
pub proof fn lemma_lex_eof_repeats(s: Seq<u8>, p: LexPos)
    requires
        0 <= p.idx <= s.len(),
        lex_token(s, p) matches LexStep::Token(t, _) && t.kind is EOF,
    ensures
        lex_token(s, p) matches LexStep::Token(t, p2) && lex_token(s, p2) == lex_token(s, p),
    decreases s.len() - p.idx,
{
    let q = skip_blanks(s, p);
    lemma_scan(s, p.idx, ByteClass::Blank);
    if q.idx >= s.len() {
        lemma_scan(s, q.idx, ByteClass::Blank);
        assert(skip_blanks(s, q) == q);
    } else if s[q.idx] == 35 {
        let e = scan(s, q.idx + 1, ByteClass::NotNewline);
        lemma_scan(s, q.idx + 1, ByteClass::NotNewline);
        lemma_lex_eof_repeats(s, shift(q, e - q.idx));
    } else if in_class(s[q.idx], ByteClass::Digit) {
        let j = scan(s, q.idx + 1, ByteClass::Digit);
    }
}

/// Reads tokens from the bytes of a source text.
pub struct Lexer<'a> {
    pub input: &'a [u8],
    pub idx: usize,
    pub line: usize,
    pub column: usize,
}

impl<'a> Lexer<'a> {
    pub open spec fn pos(&self) -> LexPos {
        LexPos { idx: self.idx as int, line: self.line as int, column: self.column as int }
    }

    /// The position lies in the input, and the line and column counters
    /// cannot pass the number of bytes read.
    pub open spec fn wf(&self) -> bool {
        &&& self.idx <= self.input@.len()
        &&& self.input@.len() < usize::MAX
        &&& 1 <= self.line <= self.idx + 1
        &&& 1 <= self.column <= self.idx + 1
    }

    /// A lexer at the start of the text.
    pub fn new(input: &'a str) -> (r: Self)
        requires
            vstd::utf8::encode_utf8(input@).len() < usize::MAX,
        ensures
            r.input@ == vstd::utf8::encode_utf8(input@),
            r.idx == 0,
            r.line == 1,
            r.column == 1,
            r.wf(),
    {
        Lexer { input: input.as_bytes(), idx: 0, line: 1, column: 1 }
    }

    fn consume(&mut self) -> (r: Option<u8>)
        requires
            old(self).wf(),
        ensures
            final(self).wf(),
            final(self).input == old(self).input,
            old(self).idx <= final(self).idx,
            old(self).line <= final(self).line,
            old(self).idx < old(self).input@.len() ==> r == Some(old(self).input@[old(self).idx as int])
                && final(self).pos() == shift(old(self).pos(), 1),
            old(self).idx >= old(self).input@.len() ==> r is None && final(self).pos() == old(self).pos(),
    {
        if self.idx < self.input.len() {
            let c = self.input[self.idx];
            self.idx = self.idx + 1;
            self.column = self.column + 1;
            Some(c)
        } else {
            None
        }
    }

    fn peek(&self) -> (r: Option<u8>)
        requires
            self.wf(),
        ensures
            self.idx < self.input@.len() ==> r == Some(self.input@[self.idx as int]),
            self.idx >= self.input@.len() ==> r is None,
    {
        if self.idx < self.input.len() {
            Some(self.input[self.idx])
        } else {
            None
        }
    }

    /// Advances over the bytes of a class.
    fn skip_class(&mut self, c: ByteClass)
        requires
            old(self).wf(),
        ensures
            final(self).wf(),
            final(self).input == old(self).input,
            final(self).pos() == shift(
                old(self).pos(),
                scan(old(self).input@, old(self).idx as int, c) - old(self).idx,
            ),
    {
        let ghost s = self.input@;
        let ghost start = self.pos();
        proof {
            lemma_scan(s, start.idx, c);
        }
        while self.idx < self.input.len() && byte_in_class(self.input[self.idx], c)
            invariant
                self.wf(),
                self.input@ == s,
                start.idx <= self.idx,
                self.pos() == shift(start, self.idx - start.idx),
                scan(s, start.idx, c) == scan(s, self.idx as int, c),
            decreases s.len() - self.idx,
        {
            self.consume();
        }
    }

    fn skip_whitespace(&mut self)
        requires
            old(self).wf(),
        ensures
            final(self).wf(),
            final(self).input == old(self).input,
            final(self).pos() == skip_blanks(old(self).input@, old(self).pos()),
    {
        self.skip_class(ByteClass::Blank);
    }

    fn construct_token(&self, kind: TokenKind, line: usize, column: usize) -> (r: Token)
        ensures
            r@ == (SpecToken { kind: kind@, line: line as int, column: column as int }),
    {
        Token { kind, line, column }
    }

    /// The next token. Blanks and comments are skipped; at the end of the
    /// input every request gives `EOF`. The position never goes back, an
    /// error included, and every token but `EOF` moves it forward.
    pub fn next_token(&mut self) -> (res: Result<Token, LexerError>)
        requires
            old(self).wf(),
        ensures
            final(self).wf(),
            final(self).input == old(self).input,
            old(self).idx <= final(self).idx,
            old(self).line <= final(self).line,
            step_matches(lex_token(old(self).input@, old(self).pos()), res, final(self).pos()),
            res matches Ok(t) && t.kind is EOF ==> final(self).idx == final(self).input@.len(),
            res matches Ok(t) && !(t.kind is EOF) ==> old(self).idx < final(self).idx,
    {
        let ghost s = self.input@;
        let ghost goal = lex_token(s, self.pos());
        proof {
            lemma_lex_progress(s, self.pos());
        }
        loop
            invariant
                self.wf(),
                self.input == old(self).input,
                self.input@ == s,
                lex_token(s, self.pos()) == goal,
                goal == lex_token(old(self).input@, old(self).pos()),
                s == old(self).input@,
                old(self).idx <= self.idx,
                old(self).line <= self.line,
            decreases s.len() - self.idx,
        {
            let ghost p = self.pos();
            self.skip_whitespace();
            let ghost q = self.pos();
            proof {
                lemma_scan(s, p.idx, ByteClass::Blank);
            }
            let start_line = self.line;
            let start_col = self.column;
            let c = match self.consume() {
                None => {
                    return Ok(self.construct_token(TokenKind::EOF, start_line, start_col));
                },
                Some(c) => c,
            };
            if c == 35 {
                while self.idx < self.input.len() && self.input[self.idx] != 10
                    invariant
                        self.wf(),
                        self.input@ == s,
                        q.idx < self.idx,
                        self.pos() == shift(q, self.idx - q.idx),
                        scan(s, q.idx + 1, ByteClass::NotNewline) == scan(s, self.idx as int, ByteClass::NotNewline),
                    decreases s.len() - self.idx,
                {
                    self.consume();
                }
                continue;
            }
            if byte_in_class(c, ByteClass::Digit) {
                return self.number(start_line, start_col);
            }
            if is_word_start_byte(c) {
                return self.word(start_line, start_col);
            }
            if c == 34 {
                return self.string(start_line, start_col);
            }
            return self.symbol(c, start_line, start_col);
        }
    }

    /// A word whose first byte was just read.
    fn word(&mut self, start_line: usize, start_col: usize) -> (res: Result<Token, LexerError>)
        requires
            old(self).wf(),
            old(self).idx >= 1,
            start_line == old(self).line,
            start_col + 1 == old(self).column,
            old(self).line <= old(self).idx,
        ensures
            final(self).wf(),
            final(self).input == old(self).input,
            old(self).idx <= final(self).idx,
            old(self).line <= final(self).line,
            step_matches(
                lex_word(old(self).input@, LexPos { idx: old(self).idx - 1, line: start_line as int, column: start_col as int }),
                res,
                final(self).pos(),
            ),
    {
        let start = self.idx - 1;
        proof {
            lemma_scan(self.input@, self.idx as int, ByteClass::WordChar);
        }
        self.skip_class(ByteClass::WordChar);
        let text = ascii_string(self.input, start, self.idx);
        let kind = word_token_kind(text);
        Ok(self.construct_token(kind, start_line, start_col))
    }

    /// A number whose first digit was just read.
    fn number(&mut self, start_line: usize, start_col: usize) -> (res: Result<Token, LexerError>)
        requires
            old(self).wf(),
            old(self).idx >= 1,
            start_line == old(self).line,
            start_col + 1 == old(self).column,
            old(self).line <= old(self).idx,
        ensures
            final(self).wf(),
            final(self).input == old(self).input,
            old(self).idx <= final(self).idx,
            old(self).line <= final(self).line,
            step_matches(
                lex_number(old(self).input@, LexPos { idx: old(self).idx - 1, line: start_line as int, column: start_col as int }),
                res,
                final(self).pos(),
            ),
    {
        let ghost s = self.input@;
        let ghost q = LexPos { idx: self.idx - 1, line: start_line as int, column: start_col as int };
        let start = self.idx - 1;
        proof {
            lemma_scan(s, q.idx + 1, ByteClass::Digit);
        }
        self.skip_class(ByteClass::Digit);
        let j = self.idx;
        if j < self.input.len() && self.input[j] == 46 {
            self.consume();
            proof {
                lemma_scan(s, j + 1, ByteClass::Digit);
            }
            self.skip_class(ByteClass::Digit);
            let k = self.idx;
            if k < self.input.len() && self.input[k] == 46 {
                return Err(
                    LexerError::new(
                        LexerErrorKind::UnexpectedCharacter,
                        String::from_str("expected digit after `.`"),
                        self.line,
                        self.column,
                    ),
                );
            }
            if k == j + 1 {
                return Err(
                    LexerError::new(
                        LexerErrorKind::InvalidNumber,
                        String::from_str("expected digit after `.`"),
                        start_line,
                        start_col,
                    ),
                );
            }
            let text = ascii_string(self.input, start, k);
            Ok(self.construct_token(TokenKind::FloatLiteral(text), start_line, start_col))
        } else {
            let text = ascii_string(self.input, start, j);
            let digits = crate::text::chars_of(text.as_str());
            match parse_int_text(&digits) {
                Some(v) => Ok(self.construct_token(TokenKind::IntegerLiteral(v), start_line, start_col)),
                None => Err(
                    LexerError::new(
                        LexerErrorKind::InvalidNumber,
                        String::from_str("integer literal out of range"),
                        start_line,
                        start_col,
                    ),
                ),
            }
        }
    }

    /// A string literal whose opening quote was just read.
    fn string(&mut self, start_line: usize, start_col: usize) -> (res: Result<Token, LexerError>)
        requires
            old(self).wf(),
            old(self).idx >= 1,
            start_line == old(self).line,
            start_col + 1 == old(self).column,
            old(self).line <= old(self).idx,
        ensures
            final(self).wf(),
            final(self).input == old(self).input,
            old(self).idx <= final(self).idx,
            old(self).line <= final(self).line,
            step_matches(
                lex_string(old(self).input@, LexPos { idx: old(self).idx - 1, line: start_line as int, column: start_col as int }),
                res,
                final(self).pos(),
            ),
    {
        let ghost s = self.input@;
        let start = self.idx;
        proof {
            lemma_scan(s, start as int, ByteClass::NotQuote);
        }
        self.skip_class(ByteClass::NotQuote);
        let end = self.idx;
        if end >= self.input.len() {
            return Err(
                LexerError::new(
                    LexerErrorKind::InvalidString,
                    String::from_str("unterminated string"),
                    start_line,
                    start_col,
                ),
            );
        }
        self.consume();
        let bytes = byte_range(self.input, start, end);
        match string_from_utf8(bytes) {
            Some(text) => {
                proof {
                    vstd::utf8::encode_utf8_decode_utf8(text@);
                }
                Ok(self.construct_token(TokenKind::StringLiteral(text), start_line, start_col))
            },
            None => Err(
                LexerError::new(
                    LexerErrorKind::InvalidString,
                    String::from_str("invalid UTF-8 in string"),
                    start_line,
                    start_col,
                ),
            ),
        }
    }

    /// A token of one byte, or of two when the next byte is `second`.
    fn one_or_two(&mut self, second: u8, one: TokenKind, two: TokenKind, start_line: usize, start_col: usize) -> (res: Result<Token, LexerError>)
        requires
            old(self).wf(),
            old(self).idx >= 1,
            start_line == old(self).line,
            start_col + 1 == old(self).column,
            old(self).line <= old(self).idx,
        ensures
            final(self).wf(),
            final(self).input == old(self).input,
            old(self).idx <= final(self).idx,
            old(self).line <= final(self).line,
            step_matches(
                one_or_two(old(self).input@, LexPos { idx: old(self).idx - 1, line: start_line as int, column: start_col as int }, second, one@, two@),
                res,
                final(self).pos(),
            ),
    {
        if self.peek() == Some(second) {
            self.consume();
            Ok(self.construct_token(two, start_line, start_col))
        } else {
            Ok(self.construct_token(one, start_line, start_col))
        }
    }

    /// A token of two equal bytes; the first alone is an error.
    fn doubled(&mut self, b: u8, kind: TokenKind, msg: &str, start_line: usize, start_col: usize) -> (res: Result<Token, LexerError>)
        requires
            old(self).wf(),
            old(self).idx >= 1,
            start_line == old(self).line,
            start_col + 1 == old(self).column,
            old(self).line <= old(self).idx,
        ensures
            final(self).wf(),
            final(self).input == old(self).input,
            old(self).idx <= final(self).idx,
            old(self).line <= final(self).line,
            step_matches(
                doubled(old(self).input@, LexPos { idx: old(self).idx - 1, line: start_line as int, column: start_col as int }, b, kind@, msg@),
                res,
                final(self).pos(),
            ),
    {
        if self.peek() == Some(b) {
            self.consume();
            Ok(self.construct_token(kind, start_line, start_col))
        } else {
            Err(LexerError::new(LexerErrorKind::UnidentifiedCharacter, String::from_str(msg), start_line, start_col))
        }
    }

    /// A punctuation token, a newline or an error, whose byte `c` was just read.
    fn symbol(&mut self, c: u8, start_line: usize, start_col: usize) -> (res: Result<Token, LexerError>)
        requires
            old(self).wf(),
            old(self).idx >= 1,
            c == old(self).input@[old(self).idx - 1],
            start_line == old(self).line,
            start_col + 1 == old(self).column,
            old(self).line <= old(self).idx,
        ensures
            final(self).wf(),
            final(self).input == old(self).input,
            old(self).idx <= final(self).idx,
            old(self).line <= final(self).line,
            step_matches(
                lex_symbol(old(self).input@, LexPos { idx: old(self).idx - 1, line: start_line as int, column: start_col as int }),
                res,
                final(self).pos(),
            ),
    {
        if c == 61 {
            self.one_or_two(61, TokenKind::Equals, TokenKind::DEquals, start_line, start_col)
        } else if c == 40 {
            Ok(self.construct_token(TokenKind::LParen, start_line, start_col))
        } else if c == 41 {
            Ok(self.construct_token(TokenKind::RParen, start_line, start_col))
        } else if c == 91 {
            Ok(self.construct_token(TokenKind::LBracket, start_line, start_col))
        } else if c == 93 {
            Ok(self.construct_token(TokenKind::RBracket, start_line, start_col))
        } else if c == 44 {
            Ok(self.construct_token(TokenKind::Comma, start_line, start_col))
        } else if c == 58 {
            Ok(self.construct_token(TokenKind::Colon, start_line, start_col))
        } else if c == 43 {
            Ok(self.construct_token(TokenKind::Plus, start_line, start_col))
        } else if c == 45 {
            Ok(self.construct_token(TokenKind::Minus, start_line, start_col))
        } else if c == 42 {
            Ok(self.construct_token(TokenKind::Star, start_line, start_col))
        } else if c == 47 {
            Ok(self.construct_token(TokenKind::Slash, start_line, start_col))
        } else if c == 37 {
            Ok(self.construct_token(TokenKind::Percent, start_line, start_col))
        } else if c == 60 {
            self.one_or_two(61, TokenKind::LAngle, TokenKind::LAngleEquals, start_line, start_col)
        } else if c == 62 {
            self.one_or_two(61, TokenKind::RAngle, TokenKind::RAngleEquals, start_line, start_col)
        } else if c == 33 {
            self.one_or_two(61, TokenKind::Exclaim, TokenKind::NotEquals, start_line, start_col)
        } else if c == 38 {
            self.doubled(38, TokenKind::DAmpersand, "expected `&&`", start_line, start_col)
        } else if c == 124 {
            self.doubled(124, TokenKind::DPipe, "expected `||`", start_line, start_col)
        } else if c == 10 {
            let newline = self.construct_token(TokenKind::Newline, start_line, start_col);
            self.line = self.line + 1;
            self.column = 1;
            Ok(newline)
        } else {
            let shown = debug_char(c as char);
            let msg = String::from_str("unidentified character ").concat(shown.as_str());
            Err(LexerError::new(LexerErrorKind::UnidentifiedCharacter, msg, start_line, start_col))
        }
    }
}

/// Whether a lexer step gave `res` and left the lexer at `after`.
pub open spec fn step_matches(step: LexStep, res: Result<Token, LexerError>, after: LexPos) -> bool {
    match step {
        LexStep::Token(t, p) => res matches Ok(tok) && tok@ == t && after == p,
        LexStep::Failure(e) => res matches Err(err) && err@ == e,
    }
}

fn is_word_start_byte(b: u8) -> (r: bool)
    ensures
        r == is_word_start(b),
{
    (65 <= b && b <= 90) || (97 <= b && b <= 122) || b == 95
}

/// The bytes `s[from..to]`, each read as a character.
fn ascii_string(s: &[u8], from: usize, to: usize) -> (r: String)
    requires
        from <= to <= s@.len(),
    ensures
        r@ == ascii_text(s@.subrange(from as int, to as int)),
{
    let mut r = String::new();
    let mut i = from;
    while i < to
        invariant
            from <= i <= to <= s@.len(),
            r@ == ascii_text(s@.subrange(from as int, i as int)),
        decreases to - i,
    {
        push_char(&mut r, s[i] as char);
        i = i + 1;
        assert(r@ =~= ascii_text(s@.subrange(from as int, i as int)));
    }
    r
}

/// The bytes `s[from..to]`.
fn byte_range(s: &[u8], from: usize, to: usize) -> (r: Vec<u8>)
    requires
        from <= to <= s@.len(),
    ensures
        r@ == s@.subrange(from as int, to as int),
{
    let mut r: Vec<u8> = Vec::new();
    let mut i = from;
    while i < to
        invariant
            from <= i <= to <= s@.len(),
            r@ == s@.subrange(from as int, i as int),
        decreases to - i,
    {
        r.push(s[i]);
        i = i + 1;
        assert(r@ =~= s@.subrange(from as int, i as int));
    }
    r
}

/// The token that a word denotes.
fn word_token_kind(w: String) -> (k: TokenKind)
    ensures
        k@ == word_kind(w@),
{
    if w == String::from_str("set") {
        TokenKind::SetKeyword
    } else if w == String::from_str("del") {
        TokenKind::Del
    } else if w == String::from_str("in") {
        TokenKind::In
    } else if w == String::from_str("out") {
        TokenKind::Out
    } else if w == String::from_str("if") {
        TokenKind::If
    } else if w == String::from_str("else") {
        TokenKind::Else
    } else if w == String::from_str("endif") {
        TokenKind::EndIf
    } else if w == String::from_str("while") {
        TokenKind::While
    } else if w == String::from_str("endwhile") {
        TokenKind::EndWhile
    } else if w == String::from_str("true") {
        TokenKind::True
    } else if w == String::from_str("false") {
        TokenKind::False
    } else if w == String::from_str("int") {
        TokenKind::Int
    } else if w == String::from_str("float") {
        TokenKind::Float
    } else if w == String::from_str("bool") {
        TokenKind::Bool
    } else if w == String::from_str("str") {
        TokenKind::Str
    } else {
        TokenKind::Identifier(w)
    }
}


fn byte_in_class(b: u8, c: ByteClass) -> (r: bool)
    ensures
        r == in_class(b, c),
{
    match c {
        ByteClass::Blank => b == 32 || b == 9 || b == 12 || b == 13,
        ByteClass::Digit => 48 <= b && b <= 57,
        ByteClass::WordChar => (48 <= b && b <= 57) || (65 <= b && b <= 90) || (97 <= b && b <= 122) || b == 95,
        ByteClass::NotNewline => b != 10,
        ByteClass::NotQuote => b != 34,
    }
}

} // verus!
