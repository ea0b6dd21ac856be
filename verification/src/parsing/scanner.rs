//! The location-tracking scanner: source text in, tokens with line and
//! column out, or a lexical error. Scanning is a boundary component: its
//! helpers carry exact contracts, and the token stream itself is consumed
//! by an upstream grammar stage that is not part of this system.

use vstd::prelude::*;

use crate::parsing::token::{LexicalError, Loc, Token};
use crate::strutil::{bytes_to_string, chars_of_bytes, copy_byte_range};
use vstd::string::StringSliceAdditionalSpecFns;

verus! {

broadcast use vstd::seq::group_seq_axioms, vstd::std_specs::vec::axiom_spec_len;

/// A lowercase ASCII letter, an uppercase ASCII letter, or an underscore.
pub open spec fn is_alpha_byte(c: u8) -> bool {
    (97 <= c <= 122) || (65 <= c <= 90) || c == 95
}

/// A letter, an underscore, or an ASCII digit.
pub open spec fn is_alnum_byte(c: u8) -> bool {
    is_alpha_byte(c) || (48 <= c <= 57)
}

/// Whether a byte begins a letter-or-underscore identifier.
fn is_alpha(c: u8) -> (r: bool)
    ensures
        r == is_alpha_byte(c),
{
    (97 <= c && c <= 122) || (65 <= c && c <= 90) || c == 95
}

/// Whether a byte continues an identifier.
fn is_alphanumeric(c: u8) -> (r: bool)
    ensures
        r == is_alnum_byte(c),
{
    is_alpha(c) || (48 <= c && c <= 57)
}

/// ASCII-lowercase a byte sequence: uppercase letters gain 32, everything
/// else is unchanged.
pub open spec fn lower_bytes(s: Seq<u8>) -> Seq<u8> {
    s.map_values(|c: u8| if 65 <= c <= 90 { (c + 32) as u8 } else { c })
}

/// The keyword or boolean constant a lowercased identifier spells, if any.
pub open spec fn keyword_spec(s: Seq<char>) -> Option<Token> {
    if s == "class"@ {
        Some(Token::Class_)
    } else if s == "else"@ {
        Some(Token::Else)
    } else if s == "fi"@ {
        Some(Token::Fi)
    } else if s == "if"@ {
        Some(Token::If)
    } else if s == "in"@ {
        Some(Token::In)
    } else if s == "inherits"@ {
        Some(Token::Inherits)
    } else if s == "let"@ {
        Some(Token::Let)
    } else if s == "loop"@ {
        Some(Token::Loop)
    } else if s == "pool"@ {
        Some(Token::Pool)
    } else if s == "then"@ {
        Some(Token::Then)
    } else if s == "while"@ {
        Some(Token::While)
    } else if s == "case"@ {
        Some(Token::Case)
    } else if s == "esac"@ {
        Some(Token::Esac)
    } else if s == "of"@ {
        Some(Token::Of)
    } else if s == "new"@ {
        Some(Token::New)
    } else if s == "isvoid"@ {
        Some(Token::Isvoid)
    } else if s == "not"@ {
        Some(Token::Not)
    } else if s == "true"@ {
        Some(Token::BoolConst(true))
    } else if s == "false"@ {
        Some(Token::BoolConst(false))
    } else {
        None
    }
}

/// Look a lowercased identifier up among the keywords.
fn keyword_for(text: &str) -> (r: Option<Token>)
    ensures
        r == keyword_spec(text@),
{
    if crate::strutil::str_eq(text, "class") {
        Some(Token::Class_)
    } else if crate::strutil::str_eq(text, "else") {
        Some(Token::Else)
    } else if crate::strutil::str_eq(text, "fi") {
        Some(Token::Fi)
    } else if crate::strutil::str_eq(text, "if") {
        Some(Token::If)
    } else if crate::strutil::str_eq(text, "in") {
        Some(Token::In)
    } else if crate::strutil::str_eq(text, "inherits") {
        Some(Token::Inherits)
    } else if crate::strutil::str_eq(text, "let") {
        Some(Token::Let)
    } else if crate::strutil::str_eq(text, "loop") {
        Some(Token::Loop)
    } else if crate::strutil::str_eq(text, "pool") {
        Some(Token::Pool)
    } else if crate::strutil::str_eq(text, "then") {
        Some(Token::Then)
    } else if crate::strutil::str_eq(text, "while") {
        Some(Token::While)
    } else if crate::strutil::str_eq(text, "case") {
        Some(Token::Case)
    } else if crate::strutil::str_eq(text, "esac") {
        Some(Token::Esac)
    } else if crate::strutil::str_eq(text, "of") {
        Some(Token::Of)
    } else if crate::strutil::str_eq(text, "new") {
        Some(Token::New)
    } else if crate::strutil::str_eq(text, "isvoid") {
        Some(Token::Isvoid)
    } else if crate::strutil::str_eq(text, "not") {
        Some(Token::Not)
    } else if crate::strutil::str_eq(text, "true") {
        Some(Token::BoolConst(true))
    } else if crate::strutil::str_eq(text, "false") {
        Some(Token::BoolConst(false))
    } else {
        None
    }
}

/// The token a single recognized byte spells on its own, with no second
/// byte to consider.
pub open spec fn single_byte_token(b: u8) -> Option<Token> {
    if b == 59 {
        Some(Token::Semicolon)
    } else if b == 58 {
        Some(Token::Colon)
    } else if b == 123 {
        Some(Token::Lbrace)
    } else if b == 125 {
        Some(Token::Rbrace)
    } else if b == 40 {
        Some(Token::Lparen)
    } else if b == 41 {
        Some(Token::Rparen)
    } else if b == 44 {
        Some(Token::Comma)
    } else if b == 46 {
        Some(Token::Period)
    } else if b == 64 {
        Some(Token::At)
    } else if b == 126 {
        Some(Token::Neg)
    } else if b == 43 {
        Some(Token::Plus)
    } else if b == 42 {
        Some(Token::Mul)
    } else if b == 47 {
        Some(Token::Divide)
    } else {
        None
    }
}

/// The numeric value a digit-byte sequence spells.
pub open spec fn digits_val(s: Seq<u8>, k: int) -> nat
    decreases k,
{
    if k <= 0 {
        0
    } else {
        digits_val(s, k - 1) * 10 + (if 48 <= s[k - 1] <= 57 {
            (s[k - 1] - 48) as nat
        } else {
            0
        })
    }
}

/// Clone one token; string payloads are copied character for character.
fn clone_token(t: &Token) -> (r: Token)
    ensures
        r == *t,
{
    match t {
        Token::Class_ => Token::Class_,
        Token::Else => Token::Else,
        Token::Fi => Token::Fi,
        Token::If => Token::If,
        Token::In => Token::In,
        Token::Inherits => Token::Inherits,
        Token::Let => Token::Let,
        Token::Loop => Token::Loop,
        Token::Pool => Token::Pool,
        Token::Then => Token::Then,
        Token::While => Token::While,
        Token::Case => Token::Case,
        Token::Esac => Token::Esac,
        Token::Of => Token::Of,
        Token::New => Token::New,
        Token::Isvoid => Token::Isvoid,
        Token::Not => Token::Not,
        Token::StrConst(s) => Token::StrConst(s.clone()),
        Token::IntConst(s) => Token::IntConst(s.clone()),
        Token::BoolConst(b) => Token::BoolConst(*b),
        Token::Typeid(s) => Token::Typeid(s.clone()),
        Token::Objectid(s) => Token::Objectid(s.clone()),
        Token::Darrow => Token::Darrow,
        Token::Assign => Token::Assign,
        Token::Le => Token::Le,
        Token::Lbrace => Token::Lbrace,
        Token::Rbrace => Token::Rbrace,
        Token::Lparen => Token::Lparen,
        Token::Rparen => Token::Rparen,
        Token::Colon => Token::Colon,
        Token::Semicolon => Token::Semicolon,
        Token::At => Token::At,
        Token::Plus => Token::Plus,
        Token::Minus => Token::Minus,
        Token::Divide => Token::Divide,
        Token::Mul => Token::Mul,
        Token::Neg => Token::Neg,
        Token::Equal => Token::Equal,
        Token::Lt => Token::Lt,
        Token::Period => Token::Period,
        Token::Comma => Token::Comma,
        Token::Error(s) => Token::Error(s.clone()),
    }
}

fn clone_token_list(v: &Vec<(Token, Loc)>) -> (r: Vec<(Token, Loc)>)
    ensures
        r@ == v@,
{
    let mut r: Vec<(Token, Loc)> = Vec::new();
    let mut i: usize = 0;
    while i < v.len()
        invariant
            i <= v.len(),
            r@ == v@.take(i as int),
        decreases v.len() - i,
    {
        r.push((clone_token(&v[i].0), v[i].1));
        proof {
            assert(r@ =~= v@.take(i as int + 1));
        }
        i += 1;
    }
    proof {
        assert(v@.take(v@.len() as int) =~= v@);
    }
    r
}

/// The location-tracking scanner's state: the source bytes, the tokens
/// scanned so far, the current lexeme's start, the read position, and the
/// 1-based line. The column marks the start of the current line; token
/// locations carry the line, which is all the downstream stages read.
pub struct Scanner {
    source: Vec<u8>,
    tokens: Vec<(Token, Loc)>,
    start: usize,
    current: usize,
    line: usize,
    column: usize,
}

impl Scanner {
    /// The positions stay inside the source and the line count stays
    /// bounded by how much has been read.
    pub closed spec fn wf(self) -> bool {
        &&& self.start <= self.current <= self.source@.len()
        &&& self.line <= self.current + 1
        &&& self.column <= self.current
    }

    /// The source bytes being scanned.
    pub closed spec fn spec_source(self) -> Seq<u8> {
        self.source@
    }

    /// The tokens scanned so far, each with its location.
    pub closed spec fn spec_tokens(self) -> Seq<(Token, Loc)> {
        self.tokens@
    }

    /// The read position.
    pub closed spec fn spec_current(self) -> int {
        self.current as int
    }

    /// A fresh scanner over the given source text, at its beginning.
    pub fn new(source: &str) -> (r: Self)
        ensures
            r.wf(),
            r.spec_source() == source.spec_bytes(),
            r.spec_tokens().len() == 0,
            r.spec_current() == 0,
    {
        Scanner {
            source: source.as_bytes_vec(),
            tokens: Vec::new(),
            start: 0,
            current: 0,
            line: 1,
            column: 0,
        }
    }

    /// Scan the whole source, consuming every byte, and hand back the token
    /// stream, or stop at the first lexical error.
    pub fn scan_tokens(&mut self) -> (r: Result<Vec<(Token, Loc)>, LexicalError>)
        requires
            old(self).wf(),
            old(self).spec_source().len() < usize::MAX,
        ensures
            final(self).wf(),
            final(self).spec_source() == old(self).spec_source(),
            r matches Ok(ts) ==> final(self).spec_current() == final(self).spec_source().len()
                && ts@ == final(self).spec_tokens(),
            old(self).spec_tokens().len() <= final(self).spec_tokens().len(),
            forall|i: int|
                0 <= i < old(self).spec_tokens().len() ==> final(self).spec_tokens()[i] == old(self).spec_tokens()[i],
    {
        while self.current < self.source.len()
            invariant
                self.wf(),
                self.source == old(self).source,
                self.source@.len() < usize::MAX,
                old(self).tokens@.len() <= self.tokens@.len(),
                forall|i: int|
                    0 <= i < old(self).tokens@.len() ==> self.tokens@[i] == old(self).tokens@[i],
            decreases self.source@.len() - self.current,
        {
            self.start = self.current;
            let step = self.scan_token();
            match step {
                Ok(()) => {},
                Err(e) => {
                    return Err(e);
                },
            }
        }
        Ok(clone_token_list(&self.tokens))
    }

    /// Scan one token (or skip whitespace or a comment): the read position
    /// advances, at most one token is appended, and the tokens already
    /// scanned stay as they were; an error appends nothing.
    fn scan_token(&mut self) -> (r: Result<(), LexicalError>)
        requires
            old(self).wf(),
            old(self).start == old(self).current,
            old(self).current < old(self).source@.len(),
            old(self).source@.len() < usize::MAX,
        ensures
            final(self).wf(),
            final(self).source == old(self).source,
            final(self).current > old(self).current,
            old(self).tokens@.len() <= final(self).tokens@.len() <= old(self).tokens@.len() + 1,
            forall|i: int|
                0 <= i < old(self).tokens@.len() ==> final(self).tokens@[i] == old(self).tokens@[i],
            r is Err ==> final(self).tokens@ == old(self).tokens@,
            ({
                let b = old(self).source@[old(self).current as int];
                let loc0 = Loc { line: old(self).line, column: old(self).column };
                &&& (single_byte_token(b) is Some ==> r is Ok && final(self).current == old(self).current + 1 && final(self).tokens@ == old(self).tokens@.push(
                    (single_byte_token(b)->Some_0, loc0),
                ))
                &&& (b == 61 ==> r is Ok && final(self).tokens@ == old(self).tokens@.push(
                    (
                        if old(self).current + 1 < old(self).source@.len() && old(self).source@[old(self).current + 1] == 62 {
                            Token::Darrow
                        } else {
                            Token::Equal
                        },
                        loc0,
                    ),
                ))
                &&& (b == 32 || b == 13 || b == 9 ==> r is Ok && final(self).tokens@ == old(self).tokens@ && final(self).current == old(self).current + 1)
                &&& (b == 10 ==> r is Ok && final(self).tokens@ == old(self).tokens@ && final(self).line == old(self).line + 1 && final(self).current == old(self).current + 1)
                &&& (!(single_byte_token(b) is Some || b == 61 || b == 60 || b == 34 || b == 32
                    || b == 13 || b == 9 || b == 10 || b == 45 || (48 <= b <= 57)
                    || is_alpha_byte(b)) ==> r == Err::<(), LexicalError>(
                    LexicalError::InvalidChar(b as char, loc0),
                ))
            }),
    {
        let c = self.advance();
        let loc = Loc { line: self.line, column: self.column };
        match c {
            59 => {
                self.add_token(Token::Semicolon, loc);
                Ok(())
            },
            58 => {
                self.add_token(Token::Colon, loc);
                Ok(())
            },
            123 => {
                self.add_token(Token::Lbrace, loc);
                Ok(())
            },
            125 => {
                self.add_token(Token::Rbrace, loc);
                Ok(())
            },
            40 => {
                self.add_token(Token::Lparen, loc);
                Ok(())
            },
            41 => {
                self.add_token(Token::Rparen, loc);
                Ok(())
            },
            44 => {
                self.add_token(Token::Comma, loc);
                Ok(())
            },
            46 => {
                self.add_token(Token::Period, loc);
                Ok(())
            },
            64 => {
                self.add_token(Token::At, loc);
                Ok(())
            },
            126 => {
                self.add_token(Token::Neg, loc);
                Ok(())
            },
            61 => {
                if self.match_next(62) {
                    self.add_token(Token::Darrow, loc);
                } else {
                    self.add_token(Token::Equal, loc);
                }
                Ok(())
            },
            43 => {
                self.add_token(Token::Plus, loc);
                Ok(())
            },
            42 => {
                self.add_token(Token::Mul, loc);
                Ok(())
            },
            47 => {
                self.add_token(Token::Divide, loc);
                Ok(())
            },
            60 => {
                if self.match_next(61) {
                    self.add_token(Token::Le, loc);
                } else if self.match_next(45) {
                    self.add_token(Token::Assign, loc);
                } else {
                    self.add_token(Token::Lt, loc);
                }
                Ok(())
            },
            34 => self.handle_string(loc),
            32 | 13 | 9 => Ok(()),
            10 => {
                self.line = self.line + 1;
                self.column = 0;
                Ok(())
            },
            45 => {
                if self.match_next(45) {
                    while self.peek() != 10 && !self.is_at_end()
                        invariant
                            self.wf(),
                            self.source == old(self).source,
                            self.tokens == old(self).tokens,
                            self.current > old(self).current,
                            self.line == old(self).line,
                            self.column <= self.current,
                        decreases self.source@.len() - self.current,
                    {
                        let _ = self.advance();
                    }
                    Ok(())
                } else {
                    self.add_token(Token::Minus, loc);
                    Ok(())
                }
            },
            _ => {
                if 48 <= c && c <= 57 {
                    self.handle_number(loc)
                } else if is_alpha(c) {
                    self.handle_identifier(loc)
                } else {
                    Err(LexicalError::InvalidChar(c as char, loc))
                }
            },
        }
    }

    /// Consume a string literal after its opening quote. The token holds
    /// the bytes between the quotes, as characters; a literal that never
    /// closes is an error and appends nothing.
    fn handle_string(&mut self, loc: Loc) -> (r: Result<(), LexicalError>)
        requires
            old(self).wf(),
            old(self).start < old(self).current,
            old(self).source@.len() < usize::MAX,
        ensures
            final(self).wf(),
            final(self).source == old(self).source,
            final(self).current >= old(self).current,
            old(self).tokens@.len() <= final(self).tokens@.len() <= old(self).tokens@.len() + 1,
            forall|i: int|
                0 <= i < old(self).tokens@.len() ==> final(self).tokens@[i] == old(self).tokens@[i],
            r matches Ok(_) ==> final(self).tokens@.len() == old(self).tokens@.len() + 1 && final(self).tokens@.last().0 is StrConst && final(self).tokens@.last().0->StrConst_0@
                == chars_of_bytes(final(self).source@.subrange(old(self).start as int + 1, final(self).current as int - 1)),
            r is Err ==> final(self).tokens@ == old(self).tokens@,
    {
        while self.peek() != 34 && !self.is_at_end()
            invariant
                self.wf(),
                self.source == old(self).source,
                self.source@.len() < usize::MAX,
                self.tokens == old(self).tokens,
                self.start == old(self).start,
                self.current >= old(self).current,
            decreases self.source@.len() - self.current,
        {
            let c = self.advance();
            if c == 10 {
                self.line = self.line + 1;
                self.column = 0;
            }
        }
        if self.is_at_end() {
            return Err(LexicalError::UnterminatedString(loc));
        }
        let _ = self.advance();
        let bytes = copy_byte_range(&self.source, self.start + 1, self.current - 1);
        let value = bytes_to_string(&bytes);
        self.add_token(Token::StrConst(value), loc);
        Ok(())
    }

    /// Consume the rest of a digit run. The token holds the digits as a
    /// string; a value beyond the 32-bit signed range is an error and
    /// appends nothing.
    fn handle_number(&mut self, loc: Loc) -> (r: Result<(), LexicalError>)
        requires
            old(self).wf(),
            old(self).start < old(self).current,
            48 <= old(self).source@[old(self).start as int] <= 57,
        ensures
            final(self).wf(),
            final(self).source == old(self).source,
            final(self).current >= old(self).current,
            final(self).line == old(self).line,
            old(self).tokens@.len() <= final(self).tokens@.len() <= old(self).tokens@.len() + 1,
            forall|i: int|
                0 <= i < old(self).tokens@.len() ==> final(self).tokens@[i] == old(self).tokens@[i],
            r matches Ok(_) ==> final(self).tokens@.len() == old(self).tokens@.len() + 1 && final(self).tokens@.last().0 is IntConst && final(self).tokens@.last().0->IntConst_0@
                == chars_of_bytes(final(self).source@.subrange(old(self).start as int, final(self).current as int)),
            r is Err ==> final(self).tokens@ == old(self).tokens@,
    {
        while !self.is_at_end() && 48 <= self.peek() && self.peek() <= 57
            invariant
                self.wf(),
                self.source == old(self).source,
                self.tokens == old(self).tokens,
                self.start == old(self).start,
                self.line == old(self).line,
                self.current >= old(self).current,
            decreases self.source@.len() - self.current,
        {
            let _ = self.advance();
        }
        let bytes = copy_byte_range(&self.source, self.start, self.current);
        // The digit string is kept, not its value; the range check mirrors
        // parsing it as a 32-bit signed integer.
        let mut acc: u64 = 0;
        let mut k: usize = 0;
        while k < bytes.len()
            invariant
                k <= bytes.len(),
                acc <= 0x7FFF_FFFFu64 ==> acc as nat == digits_val(bytes@, k as int),
                acc > 0x7FFF_FFFFu64 ==> digits_val(bytes@, k as int) > 0x7FFF_FFFF,
                acc <= 0x7FFF_FFFF * 10 + 9,
            decreases bytes.len() - k,
        {
            let d = bytes[k];
            let dv: u64 = if 48 <= d && d <= 57 {
                (d - 48) as u64
            } else {
                0
            };
            if acc <= 0x7FFF_FFFF {
                acc = acc * 10 + dv;
                proof {
                    assert(digits_val(bytes@, k as int + 1) == digits_val(bytes@, k as int) * 10
                        + (if 48 <= bytes@[k as int] <= 57 {
                        (bytes@[k as int] - 48) as nat
                    } else {
                        0
                    }));
                }
            } else {
                proof {
                    assert(digits_val(bytes@, k as int + 1) == digits_val(bytes@, k as int) * 10
                        + (if 48 <= bytes@[k as int] <= 57 {
                        (bytes@[k as int] - 48) as nat
                    } else {
                        0
                    }));
                }
            }
            k += 1;
        }
        if acc <= 0x7FFF_FFFF {
            let value = bytes_to_string(&bytes);
            self.add_token(Token::IntConst(value), loc);
            Ok(())
        } else {
            let value = bytes_to_string(&bytes);
            Err(LexicalError::InvalidNumber(value, loc))
        }
    }

    /// Consume the rest of an identifier. A lowercased match against the
    /// keywords wins; otherwise an uppercase first letter makes a type
    /// identifier and anything else an object identifier.
    fn handle_identifier(&mut self, loc: Loc) -> (r: Result<(), LexicalError>)
        requires
            old(self).wf(),
            old(self).start < old(self).current,
            is_alpha_byte(old(self).source@[old(self).start as int]),
        ensures
            final(self).wf(),
            final(self).source == old(self).source,
            final(self).current >= old(self).current,
            final(self).line == old(self).line,
            final(self).tokens@.len() == old(self).tokens@.len() + 1,
            forall|i: int|
                0 <= i < old(self).tokens@.len() ==> final(self).tokens@[i] == old(self).tokens@[i],
            r is Ok,
            ({
                let run = final(self).source@.subrange(old(self).start as int, final(self).current as int);
                let t = final(self).tokens@.last().0;
                match keyword_spec(chars_of_bytes(lower_bytes(run))) {
                    Some(k) => t == k,
                    None => if 65 <= run[0] <= 90 {
                        t is Typeid && t->Typeid_0@ == chars_of_bytes(run)
                    } else {
                        t is Objectid && t->Objectid_0@ == chars_of_bytes(run)
                    },
                }
            }),
    {
        while !self.is_at_end() && is_alphanumeric(self.peek())
            invariant
                self.wf(),
                self.source == old(self).source,
                self.tokens == old(self).tokens,
                self.start == old(self).start,
                self.line == old(self).line,
                self.current >= old(self).current,
            decreases self.source@.len() - self.current,
        {
            let _ = self.advance();
        }
        let bytes = copy_byte_range(&self.source, self.start, self.current);
        let mut lowered: Vec<u8> = Vec::new();
        let mut k: usize = 0;
        while k < bytes.len()
            invariant
                k <= bytes.len(),
                lowered@ == lower_bytes(bytes@).take(k as int),
            decreases bytes.len() - k,
        {
            let b = bytes[k];
            if 65 <= b && b <= 90 {
                lowered.push(b + 32);
            } else {
                lowered.push(b);
            }
            proof {
                assert(lowered@ =~= lower_bytes(bytes@).take(k as int + 1));
            }
            k += 1;
        }
        proof {
            assert(lower_bytes(bytes@).take(bytes@.len() as int) =~= lower_bytes(bytes@));
        }
        let lowered_text = bytes_to_string(&lowered);
        let text = bytes_to_string(&bytes);
        match keyword_for(lowered_text.as_str()) {
            Some(token) => {
                self.add_token(token, loc);
            },
            None => {
                if 65 <= bytes[0] && bytes[0] <= 90 {
                    self.add_token(Token::Typeid(text), loc);
                } else {
                    self.add_token(Token::Objectid(text), loc);
                }
            },
        }
        Ok(())
    }

    /// Append one token at a location.
    fn add_token(&mut self, token: Token, loc: Loc)
        ensures
            final(self).tokens@ == old(self).tokens@.push((token, loc)),
            final(self).source == old(self).source,
            final(self).start == old(self).start,
            final(self).current == old(self).current,
            final(self).line == old(self).line,
            final(self).column == old(self).column,
    {
        self.tokens.push((token, loc));
    }

    /// Consume and return the byte at the read position.
    fn advance(&mut self) -> (c: u8)
        requires
            old(self).wf(),
            old(self).current < old(self).source@.len(),
        ensures
            final(self).wf(),
            c == old(self).source@[old(self).current as int],
            final(self).current == old(self).current + 1,
            final(self).column == old(self).column,
            final(self).source == old(self).source,
            final(self).tokens == old(self).tokens,
            final(self).start == old(self).start,
            final(self).line == old(self).line,
    {
        proof {
            assert(self.source@.len() == self.source.len());
        }
        self.current = self.current + 1;
        self.source[self.current - 1]
    }

    /// The byte at the read position, or zero at the end, not consumed.
    fn peek(&self) -> (c: u8)
        requires
            self.wf(),
        ensures
            c == (if self.current < self.source@.len() {
                self.source@[self.current as int]
            } else {
                0
            }),
    {
        if self.is_at_end() {
            0
        } else {
            self.source[self.current]
        }
    }

    /// Consume the next byte only when it is the expected one.
    fn match_next(&mut self, expected: u8) -> (r: bool)
        requires
            old(self).wf(),
        ensures
            final(self).wf(),
            final(self).source == old(self).source,
            final(self).tokens == old(self).tokens,
            final(self).start == old(self).start,
            final(self).line == old(self).line,
            r == (old(self).current < old(self).source@.len() && old(self).source@[old(self).current as int] == expected),
            r ==> final(self).current == old(self).current + 1,
            !r ==> final(self).current == old(self).current,
    {
        if self.is_at_end() || self.source[self.current] != expected {
            false
        } else {
            proof {
                assert(self.source@.len() == self.source.len());
            }
            self.current = self.current + 1;
            true
        }
    }

    /// Whether the whole source has been read.
    fn is_at_end(&self) -> (r: bool)
        ensures
            r == (self.current >= self.source@.len()),
    {
        self.current >= self.source.len()
    }
}

} // verus!
