//! A simple line-counting scanner that keeps raw lexemes: source text in,
//! a flat token list out, with malformed input marked by error tokens
//! rather than a failing result.

use vstd::prelude::*;

use crate::strutil::{bytes_to_string, chars_of_bytes, copy_byte_range};
use vstd::string::StringSliceAdditionalSpecFns;

verus! {

broadcast use vstd::seq::group_seq_axioms, vstd::std_specs::vec::axiom_spec_len;

/// The kind of a token.
#[derive(Debug, Clone, PartialEq)]
pub enum TokenType {
    Add,
    Sub,
    Mul,
    Div,
    Neg,
    Lt,
    Lteq,
    Gt,
    Gteq,
    Eq,
    If,
    Fi,
    Else,
    True,
    False,
    In,
    Loop,
    Pool,
    Let,
    While,
    Then,
    Case,
    Esac,
    New,
    Of,
    Not,
    Class,
    IsVoid,
    Inherits,
    Identifier,
    Type,
    String,
    Number,
    Error,
    Colon,
    Semicolon,
    Comma,
    Dot,
    Lparen,
    Rparen,
    Lbracket,
    Rbracket,
    At,
    Assign,
    CaseAssign,
    OpenMc,
    CloseMc,
}

/// A literal value carried by a string or number token.
#[derive(Debug, Clone, PartialEq)]
pub enum Literal {
    Str(String),
    Number(i32),
}

/// One token: its kind, the raw bytes of its lexeme, an optional literal
/// value, and the 1-based line it starts on.
#[derive(Debug, Clone, PartialEq)]
pub struct Token {
    pub ty: TokenType,
    pub lexeme: Vec<u8>,
    pub literal: Option<Literal>,
    pub line: usize,
}

/// The keyword (or built-in type name) a lexeme spells, if any; the match
/// here is case-sensitive.
pub open spec fn keyword_ty_spec(s: Seq<char>) -> Option<TokenType> {
    if s == "if"@ {
        Some(TokenType::If)
    } else if s == "fi"@ {
        Some(TokenType::Fi)
    } else if s == "else"@ {
        Some(TokenType::Else)
    } else if s == "true"@ {
        Some(TokenType::True)
    } else if s == "false"@ {
        Some(TokenType::False)
    } else if s == "in"@ {
        Some(TokenType::In)
    } else if s == "loop"@ {
        Some(TokenType::Loop)
    } else if s == "pool"@ {
        Some(TokenType::Pool)
    } else if s == "let"@ {
        Some(TokenType::Let)
    } else if s == "while"@ {
        Some(TokenType::While)
    } else if s == "then"@ {
        Some(TokenType::Then)
    } else if s == "case"@ {
        Some(TokenType::Case)
    } else if s == "esac"@ {
        Some(TokenType::Esac)
    } else if s == "new"@ {
        Some(TokenType::New)
    } else if s == "of"@ {
        Some(TokenType::Of)
    } else if s == "not"@ {
        Some(TokenType::Not)
    } else if s == "class"@ {
        Some(TokenType::Class)
    } else if s == "isvoid"@ {
        Some(TokenType::IsVoid)
    } else if s == "inherits"@ {
        Some(TokenType::Inherits)
    } else if s == "Int"@ {
        Some(TokenType::Type)
    } else if s == "String"@ {
        Some(TokenType::Type)
    } else if s == "Bool"@ {
        Some(TokenType::Type)
    } else {
        None
    }
}

fn keyword_ty(text: &str) -> (r: Option<TokenType>)
    ensures
        r == keyword_ty_spec(text@),
{
    if crate::strutil::str_eq(text, "if") {
        Some(TokenType::If)
    } else if crate::strutil::str_eq(text, "fi") {
        Some(TokenType::Fi)
    } else if crate::strutil::str_eq(text, "else") {
        Some(TokenType::Else)
    } else if crate::strutil::str_eq(text, "true") {
        Some(TokenType::True)
    } else if crate::strutil::str_eq(text, "false") {
        Some(TokenType::False)
    } else if crate::strutil::str_eq(text, "in") {
        Some(TokenType::In)
    } else if crate::strutil::str_eq(text, "loop") {
        Some(TokenType::Loop)
    } else if crate::strutil::str_eq(text, "pool") {
        Some(TokenType::Pool)
    } else if crate::strutil::str_eq(text, "let") {
        Some(TokenType::Let)
    } else if crate::strutil::str_eq(text, "while") {
        Some(TokenType::While)
    } else if crate::strutil::str_eq(text, "then") {
        Some(TokenType::Then)
    } else if crate::strutil::str_eq(text, "case") {
        Some(TokenType::Case)
    } else if crate::strutil::str_eq(text, "esac") {
        Some(TokenType::Esac)
    } else if crate::strutil::str_eq(text, "new") {
        Some(TokenType::New)
    } else if crate::strutil::str_eq(text, "of") {
        Some(TokenType::Of)
    } else if crate::strutil::str_eq(text, "not") {
        Some(TokenType::Not)
    } else if crate::strutil::str_eq(text, "class") {
        Some(TokenType::Class)
    } else if crate::strutil::str_eq(text, "isvoid") {
        Some(TokenType::IsVoid)
    } else if crate::strutil::str_eq(text, "inherits") {
        Some(TokenType::Inherits)
    } else if crate::strutil::str_eq(text, "Int") {
        Some(TokenType::Type)
    } else if crate::strutil::str_eq(text, "String") {
        Some(TokenType::Type)
    } else if crate::strutil::str_eq(text, "Bool") {
        Some(TokenType::Type)
    } else {
        None
    }
}

/// The kind a single recognized byte spells on its own, with no second
/// byte to consider.
pub open spec fn single_byte_ty(b: u8) -> Option<TokenType> {
    if b == 41 {
        Some(TokenType::Rparen)
    } else if b == 123 {
        Some(TokenType::Lbracket)
    } else if b == 125 {
        Some(TokenType::Rbracket)
    } else if b == 44 {
        Some(TokenType::Comma)
    } else if b == 46 {
        Some(TokenType::Dot)
    } else if b == 59 {
        Some(TokenType::Semicolon)
    } else if b == 58 {
        Some(TokenType::Colon)
    } else if b == 126 {
        Some(TokenType::Neg)
    } else if b == 43 {
        Some(TokenType::Add)
    } else if b == 47 {
        Some(TokenType::Div)
    } else if b == 64 {
        Some(TokenType::At)
    } else {
        None
    }
}

/// The scanner's state: the source bytes, the tokens scanned so far, the
/// current lexeme's start, the read position, and the 1-based line.
pub struct Scanner {
    source: Vec<u8>,
    pub tokens: Vec<Token>,
    start: usize,
    current: usize,
    line: usize,
}

impl Scanner {
    /// The lexeme start never passes the read position and the line count
    /// stays bounded by how much has been read.
    pub closed spec fn wf(self) -> bool {
        &&& self.start <= self.current
        &&& self.line <= self.current + 1
    }

    /// The source bytes being scanned.
    pub closed spec fn spec_source(self) -> Seq<u8> {
        self.source@
    }

    /// The read position.
    pub closed spec fn spec_current(self) -> int {
        self.current as int
    }

    /// The tokens scanned so far.
    pub closed spec fn spec_tokens(self) -> Seq<Token> {
        self.tokens@
    }
}

impl Default for Scanner {
    /// A fresh scanner with no source and no tokens, at line one.
    fn default() -> (r: Scanner)
        ensures
            r.wf(),
            r.spec_source().len() == 0,
            r.spec_current() == 0,
            r.spec_tokens().len() == 0,
    {
        Scanner { source: Vec::new(), tokens: Vec::new(), start: 0, current: 0, line: 1 }
    }
}

impl Scanner {
    /// Scan the given source text to its end, appending every token found
    /// to the token list; unrecognized bytes are skipped and malformed
    /// literals become error tokens, so scanning itself never fails.
    pub fn scan_tokens(&mut self, input: String)
        requires
            old(self).wf(),
            old(self).spec_current() == 0,
            vstd::utf8::encode_utf8(input@).len() < usize::MAX,
        ensures
            final(self).wf(),
            final(self).spec_source() == vstd::utf8::encode_utf8(input@),
            final(self).spec_current() >= final(self).spec_source().len(),
            old(self).spec_tokens().len() <= final(self).spec_tokens().len(),
            forall|i: int|
                0 <= i < old(self).spec_tokens().len() ==> final(self).spec_tokens()[i] == old(self).spec_tokens()[i],
    {
        self.source = input.as_str().as_bytes_vec();
        proof {
            assert(self.source@.len() == self.source.len());
        }
        while self.current < self.source.len()
            invariant
                self.wf(),
                self.source@ == vstd::utf8::encode_utf8(input@),
                self.source@.len() < usize::MAX,
                self.current <= self.source@.len(),
                old(self).tokens@.len() <= self.tokens@.len(),
                forall|i: int|
                    0 <= i < old(self).tokens@.len() ==> self.tokens@[i] == old(self).tokens@[i],
            decreases self.source@.len() - self.current,
        {
            self.start = self.current;
            self.scan_token();
        }
    }

    /// Scan one token (or skip whitespace, a comment, or an unrecognized
    /// byte): the read position advances, at most one token is appended,
    /// and the tokens already scanned stay as they were.
    fn scan_token(&mut self)
        requires
            old(self).wf(),
            old(self).start == old(self).current,
            old(self).current < old(self).source@.len(),
            old(self).source@.len() < usize::MAX,
        ensures
            final(self).wf(),
            final(self).source == old(self).source,
            final(self).current > old(self).current,
            final(self).current <= final(self).source@.len(),
            old(self).tokens@.len() <= final(self).tokens@.len() <= old(self).tokens@.len() + 1,
            forall|i: int|
                0 <= i < old(self).tokens@.len() ==> final(self).tokens@[i] == old(self).tokens@[i],
            ({
                let b = old(self).source@[old(self).current as int];
                &&& (single_byte_ty(b) is Some ==> final(self).tokens@.len() == old(self).tokens@.len() + 1 && final(self).tokens@.last().ty == single_byte_ty(b)->Some_0
                    && final(self).current == old(self).current + 1)
                &&& (b == 61 ==> final(self).tokens@.len() == old(self).tokens@.len() + 1 && final(self).tokens@.last().ty == (if old(self).current + 1 < old(self).source@.len() && old(self).source@[old(self).current + 1] == 62 {
                    TokenType::CaseAssign
                } else {
                    TokenType::Eq
                }))
                &&& (b == 62 ==> final(self).tokens@.len() == old(self).tokens@.len() + 1 && final(self).tokens@.last().ty == (if old(self).current + 1 < old(self).source@.len() && old(self).source@[old(self).current + 1] == 61 {
                    TokenType::Gteq
                } else {
                    TokenType::Gt
                }))
                &&& (b == 32 || b == 13 || b == 9 ==> final(self).tokens@ == old(self).tokens@
                    && final(self).current == old(self).current + 1)
                &&& (b == 10 ==> final(self).tokens@ == old(self).tokens@ && final(self).current
                    == old(self).current + 1)
                &&& (!(single_byte_ty(b) is Some || b == 60 || b == 62 || b == 61 || b == 40
                    || b == 42 || b == 45 || b == 32 || b == 13 || b == 9 || b == 10 || b == 34
                    || (48 <= b <= 57) || old(self).spec_is_alpha(b)) ==> final(self).tokens@ == old(self).tokens@ && final(self).current == old(self).current + 1)
            }),
    {
        let c = self.advance();
        match c {
            41 => self.add_token(TokenType::Rparen),
            123 => self.add_token(TokenType::Lbracket),
            125 => self.add_token(TokenType::Rbracket),
            44 => self.add_token(TokenType::Comma),
            46 => self.add_token(TokenType::Dot),
            59 => self.add_token(TokenType::Semicolon),
            58 => self.add_token(TokenType::Colon),
            126 => self.add_token(TokenType::Neg),
            43 => self.add_token(TokenType::Add),
            47 => self.add_token(TokenType::Div),
            64 => self.add_token(TokenType::At),
            60 => {
                if self.match_next(61) {
                    self.add_token(TokenType::Lteq);
                } else if self.match_next(45) {
                    self.add_token(TokenType::Assign);
                } else {
                    self.add_token(TokenType::Lt);
                }
            },
            62 => {
                if self.match_next(61) {
                    self.add_token(TokenType::Gteq);
                } else {
                    self.add_token(TokenType::Gt);
                }
            },
            61 => {
                if self.match_next(62) {
                    self.add_token(TokenType::CaseAssign);
                } else {
                    self.add_token(TokenType::Eq);
                }
            },
            40 => {
                if self.match_next(42) {
                    self.add_token(TokenType::OpenMc);
                } else {
                    self.add_token(TokenType::Lparen);
                }
            },
            42 => {
                if self.match_next(41) {
                    self.add_token(TokenType::CloseMc);
                } else {
                    self.add_token(TokenType::Mul);
                }
            },
            45 => {
                if self.match_next(45) {
                    // A line comment runs to the end of the line.
                    while self.peek() != 10 && !self.is_at_end()
                        invariant
                            self.wf(),
                            self.source == old(self).source,
                            self.source@.len() < usize::MAX,
                            self.current <= self.source@.len(),
                            self.tokens == old(self).tokens,
                            self.current > old(self).current,
                        decreases self.source@.len() - self.current,
                    {
                        let _ = self.advance();
                    }
                } else {
                    self.add_token(TokenType::Sub);
                }
            },
            32 | 13 | 9 => {},
            10 => {
                self.line = self.line + 1;
            },
            34 => {
                self.handle_string();
            },
            _ => {
                if 48 <= c && c <= 57 {
                    self.handle_number();
                } else if self.is_alpha(c) {
                    self.handle_identifier();
                }
                // Any other byte is skipped; the analysis never sees it.
            },
        }
    }

    fn add_token(&mut self, ty: TokenType)
        requires
            old(self).wf(),
            old(self).current <= old(self).source@.len(),
        ensures
            final(self).wf(),
            final(self).source == old(self).source,
            final(self).current == old(self).current,
            final(self).start == old(self).start,
            final(self).line == old(self).line,
            final(self).tokens@.len() == old(self).tokens@.len() + 1,
            final(self).tokens@.last().ty == ty,
            final(self).tokens@.last().literal is None,
            forall|i: int|
                0 <= i < old(self).tokens@.len() ==> final(self).tokens@[i] == old(self).tokens@[i],
    {
        self.add_token_literal(ty, None);
    }

    /// Append one token whose lexeme is the byte range scanned so far.
    fn add_token_literal(&mut self, ty: TokenType, literal: Option<Literal>)
        requires
            old(self).wf(),
            old(self).current <= old(self).source@.len(),
        ensures
            final(self).wf(),
            final(self).source == old(self).source,
            final(self).current == old(self).current,
            final(self).start == old(self).start,
            final(self).line == old(self).line,
            final(self).tokens@.len() == old(self).tokens@.len() + 1,
            final(self).tokens@.last().ty == ty,
            final(self).tokens@.last().lexeme@ == final(self).source@.subrange(
                final(self).start as int,
                final(self).current as int,
            ),
            final(self).tokens@.last().literal == literal,
            forall|i: int|
                0 <= i < old(self).tokens@.len() ==> final(self).tokens@[i] == old(self).tokens@[i],
    {
        let text = copy_byte_range(&self.source, self.start, self.current);
        self.tokens.push(Token { ty, lexeme: text, literal, line: self.line });
    }

    fn match_next(&mut self, expected: u8) -> (r: bool)
        requires
            old(self).wf(),
            old(self).current <= old(self).source@.len(),
        ensures
            final(self).wf(),
            final(self).source == old(self).source,
            final(self).tokens == old(self).tokens,
            final(self).start == old(self).start,
            final(self).line == old(self).line,
            r == (old(self).current < old(self).source@.len() && old(self).source@[old(self).current as int] == expected),
            r ==> final(self).current == old(self).current + 1,
            !r ==> final(self).current == old(self).current,
    {
        if self.is_at_end() {
            return false;
        }
        proof {
            assert(self.source@.len() == self.source.len());
        }
        let c = self.source[self.current];
        if c == expected {
            self.current = self.current + 1;
            return true;
        }
        false
    }

    fn advance(&mut self) -> (c: u8)
        requires
            old(self).wf(),
            old(self).current < old(self).source@.len(),
        ensures
            final(self).wf(),
            c == old(self).source@[old(self).current as int],
            final(self).current == old(self).current + 1,
            final(self).source == old(self).source,
            final(self).tokens == old(self).tokens,
            final(self).start == old(self).start,
            final(self).line == old(self).line,
    {
        proof {
            assert(self.source@.len() == self.source.len());
        }
        self.current = self.current + 1;
        self.source[self.current - 1]
    }

    /// The byte at the read position, or zero at the end, not consumed.
    fn peek(&self) -> (c: u8)
        ensures
            c == (if self.current < self.source@.len() {
                self.source@[self.current as int]
            } else {
                0
            }),
    {
        if self.is_at_end() {
            0
        } else {
            self.source[self.current]
        }
    }

    /// Consume a string literal after its opening quote; a literal that
    /// never closes becomes an error token.
    fn handle_string(&mut self)
        requires
            old(self).wf(),
            old(self).start < old(self).current,
            old(self).current <= old(self).source@.len(),
            old(self).source@.len() < usize::MAX,
        ensures
            final(self).wf(),
            final(self).source == old(self).source,
            final(self).current >= old(self).current,
            final(self).current <= final(self).source@.len(),
            final(self).tokens@.len() == old(self).tokens@.len() + 1,
            forall|i: int|
                0 <= i < old(self).tokens@.len() ==> final(self).tokens@[i] == old(self).tokens@[i],
    {
        while self.peek() != 34 && !self.is_at_end()
            invariant
                self.wf(),
                self.source == old(self).source,
                self.source@.len() < usize::MAX,
                self.current <= self.source@.len(),
                self.tokens == old(self).tokens,
                self.start == old(self).start,
                self.current >= old(self).current,
                self.start < self.current,
            decreases self.source@.len() - self.current,
        {
            let c = self.advance();
            if c == 10 {
                self.line = self.line + 1;
            }
        }
        if self.is_at_end() {
            self.add_token_literal(TokenType::Error, None);
            return ;
        }
        let _ = self.advance();
        let bytes = copy_byte_range(&self.source, self.start + 1, self.current - 1);
        let substring = bytes_to_string(&bytes);
        self.add_token_literal(TokenType::String, Some(Literal::Str(substring)));
    }

    /// Consume the rest of a digit run and keep its numeric value; a value
    /// beyond the 32-bit signed range becomes an error token.
    fn handle_number(&mut self)
        requires
            old(self).wf(),
            old(self).start < old(self).current,
            old(self).current <= old(self).source@.len(),
            old(self).source@.len() < usize::MAX,
        ensures
            final(self).wf(),
            final(self).source == old(self).source,
            final(self).current >= old(self).current,
            final(self).current <= final(self).source@.len(),
            final(self).line == old(self).line,
            final(self).tokens@.len() == old(self).tokens@.len() + 1,
            forall|i: int|
                0 <= i < old(self).tokens@.len() ==> final(self).tokens@[i] == old(self).tokens@[i],
    {
        while !self.is_at_end() && 48 <= self.peek() && self.peek() <= 57
            invariant
                self.wf(),
                self.source == old(self).source,
                self.source@.len() < usize::MAX,
                self.current <= self.source@.len(),
                self.tokens == old(self).tokens,
                self.start == old(self).start,
                self.line == old(self).line,
                self.current >= old(self).current,
                self.start < self.current,
            decreases self.source@.len() - self.current,
        {
            let _ = self.advance();
        }
        let bytes = copy_byte_range(&self.source, self.start, self.current);
        let mut acc: u64 = 0;
        let mut k: usize = 0;
        while k < bytes.len()
            invariant
                k <= bytes.len(),
                acc <= 0x7FFF_FFFF * 10 + 9,
            decreases bytes.len() - k,
        {
            let d = bytes[k];
            let dv: u64 = if 48 <= d && d <= 57 {
                (d - 48) as u64
            } else {
                0
            };
            if acc <= 0x7FFF_FFFF {
                acc = acc * 10 + dv;
            }
            k += 1;
        }
        if acc <= 0x7FFF_FFFF {
            self.add_token_literal(TokenType::Number, Some(Literal::Number(acc as i32)));
        } else {
            self.add_token_literal(TokenType::Error, None);
        }
    }

    /// Consume the rest of an identifier and classify it: a keyword or
    /// built-in type name when it matches one exactly, otherwise a plain
    /// identifier.
    fn handle_identifier(&mut self)
        requires
            old(self).wf(),
            old(self).start < old(self).current,
            old(self).current <= old(self).source@.len(),
            old(self).source@.len() < usize::MAX,
        ensures
            final(self).wf(),
            final(self).source == old(self).source,
            final(self).current >= old(self).current,
            final(self).current <= final(self).source@.len(),
            final(self).line == old(self).line,
            final(self).tokens@.len() == old(self).tokens@.len() + 1,
            forall|i: int|
                0 <= i < old(self).tokens@.len() ==> final(self).tokens@[i] == old(self).tokens@[i],
            ({
                let run = final(self).source@.subrange(final(self).start as int, final(self).current as int);
                let t = final(self).tokens@.last().ty;
                match keyword_ty_spec(chars_of_bytes(run)) {
                    Some(k) => t == k,
                    None => t == TokenType::Identifier,
                }
            }),
    {
        while !self.is_at_end() && self.is_alphanumeric(self.peek())
            invariant
                self.wf(),
                self.source == old(self).source,
                self.source@.len() < usize::MAX,
                self.current <= self.source@.len(),
                self.tokens == old(self).tokens,
                self.start == old(self).start,
                self.line == old(self).line,
                self.current >= old(self).current,
                self.start < self.current,
            decreases self.source@.len() - self.current,
        {
            let _ = self.advance();
        }
        let bytes = copy_byte_range(&self.source, self.start, self.current);
        let text = bytes_to_string(&bytes);
        let ty = match keyword_ty(text.as_str()) {
            Some(ty) => ty,
            None => TokenType::Identifier,
        };
        self.add_token(ty);
    }

    /// A letter, an underscore, or an ASCII digit.
    fn is_alphanumeric(&self, c: u8) -> (r: bool)
        ensures
            r == (self.spec_is_alpha(c) || (48 <= c <= 57)),
    {
        self.is_alpha(c) || (48 <= c && c <= 57)
    }

    /// A lowercase ASCII letter, anything from uppercase A through
    /// lowercase z in the ASCII table, or an underscore.
    fn is_alpha(&self, c: u8) -> (r: bool)
        ensures
            r == self.spec_is_alpha(c),
    {
        (97 <= c && c <= 122) || (65 <= c && c <= 122) || c == 95
    }

    /// The identifier alphabet this scanner accepts.
    pub open spec fn spec_is_alpha(self, c: u8) -> bool {
        (97 <= c <= 122) || (65 <= c <= 122) || c == 95
    }

    /// Whether the whole source has been read.
    fn is_at_end(&self) -> (r: bool)
        ensures
            r == (self.current >= self.source@.len()),
    {
        self.current >= self.source.len()
    }
}

} // verus!
