use vstd::prelude::*;
use crate::error::{CompileError, ErrorKind};

verus! {

/// Maximum length of an identifier in the input.
pub const TEXTLEN: usize = 512;

/// The kinds of token, generic over the representation of identifier names
/// (`String` at run time, `Seq<char>` in specifications).
#[derive(Debug, Clone, PartialEq, Eq)]
pub enum TokenTypeG<S> {
    Amper,
    Plus,
    Minus,
    Star,
    Slash,
    Assign,
    EQ,
    NE,
    LT,
    GT,
    LE,
    GE,
    LogAnd,
    Ident(S),
    LeftBrace,
    RightBrace,
    LeftParen,
    RightParen,
    Semi,
    Else,
    For,
    If,
    Char,
    Int,
    Long,
    Return,
    Void,
    While,
    IntLit(i64),
}

pub type TokenType = TokenTypeG<String>;

/// A token type as specifications see it.
pub type TokenTypeV = TokenTypeG<Seq<char>>;

impl<S> TokenTypeG<S> {
    /// Tokens that name a type.
    pub open spec fn spec_is_type(&self) -> bool {
        self is Void || self is Char || self is Int || self is Long
    }

    /// A number for each variant, ignoring payloads.
    pub open spec fn kind(&self) -> int {
        match self {
            TokenTypeG::Amper => 0,
            TokenTypeG::Plus => 1,
            TokenTypeG::Minus => 2,
            TokenTypeG::Star => 3,
            TokenTypeG::Slash => 4,
            TokenTypeG::Assign => 5,
            TokenTypeG::EQ => 6,
            TokenTypeG::NE => 7,
            TokenTypeG::LT => 8,
            TokenTypeG::GT => 9,
            TokenTypeG::LE => 10,
            TokenTypeG::GE => 11,
            TokenTypeG::LogAnd => 12,
            TokenTypeG::Ident(_) => 13,
            TokenTypeG::LeftBrace => 14,
            TokenTypeG::RightBrace => 15,
            TokenTypeG::LeftParen => 16,
            TokenTypeG::RightParen => 17,
            TokenTypeG::Semi => 18,
            TokenTypeG::Else => 19,
            TokenTypeG::For => 20,
            TokenTypeG::If => 21,
            TokenTypeG::Char => 22,
            TokenTypeG::Int => 23,
            TokenTypeG::Long => 24,
            TokenTypeG::Return => 25,
            TokenTypeG::Void => 26,
            TokenTypeG::While => 27,
            TokenTypeG::IntLit(_) => 28,
        }
    }
}

impl View for TokenTypeG<String> {
    type V = TokenTypeV;

    open spec fn view(&self) -> TokenTypeV {
        match self {
            TokenTypeG::Amper => TokenTypeG::Amper,
            TokenTypeG::Plus => TokenTypeG::Plus,
            TokenTypeG::Minus => TokenTypeG::Minus,
            TokenTypeG::Star => TokenTypeG::Star,
            TokenTypeG::Slash => TokenTypeG::Slash,
            TokenTypeG::Assign => TokenTypeG::Assign,
            TokenTypeG::EQ => TokenTypeG::EQ,
            TokenTypeG::NE => TokenTypeG::NE,
            TokenTypeG::LT => TokenTypeG::LT,
            TokenTypeG::GT => TokenTypeG::GT,
            TokenTypeG::LE => TokenTypeG::LE,
            TokenTypeG::GE => TokenTypeG::GE,
            TokenTypeG::LogAnd => TokenTypeG::LogAnd,
            TokenTypeG::Ident(s) => TokenTypeG::Ident(s@),
            TokenTypeG::LeftBrace => TokenTypeG::LeftBrace,
            TokenTypeG::RightBrace => TokenTypeG::RightBrace,
            TokenTypeG::LeftParen => TokenTypeG::LeftParen,
            TokenTypeG::RightParen => TokenTypeG::RightParen,
            TokenTypeG::Semi => TokenTypeG::Semi,
            TokenTypeG::Else => TokenTypeG::Else,
            TokenTypeG::For => TokenTypeG::For,
            TokenTypeG::If => TokenTypeG::If,
            TokenTypeG::Char => TokenTypeG::Char,
            TokenTypeG::Int => TokenTypeG::Int,
            TokenTypeG::Long => TokenTypeG::Long,
            TokenTypeG::Return => TokenTypeG::Return,
            TokenTypeG::Void => TokenTypeG::Void,
            TokenTypeG::While => TokenTypeG::While,
            TokenTypeG::IntLit(v) => TokenTypeG::IntLit(*v),
        }
    }
}

impl TokenTypeG<String> {
    /// Whether the token names a type (`void`, `char`, `int`, `long`).
    pub fn is_type(&self) -> (r: bool)
        ensures
            r == self.spec_is_type(),
    {
        match self {
            TokenTypeG::Void | TokenTypeG::Char | TokenTypeG::Int | TokenTypeG::Long => true,
            _ => false,
        }
    }

    /// Token equality: same variant and same payload.
    pub fn same_as(&self, other: &TokenType) -> (r: bool)
        ensures
            r == (self@ == other@),
    {
        match self {
            TokenTypeG::Ident(a) => match other {
                TokenTypeG::Ident(b) => (*a).eq(b),
                _ => false,
            },
            TokenTypeG::IntLit(a) => match other {
                TokenTypeG::IntLit(b) => *a == *b,
                _ => false,
            },
            TokenTypeG::Amper => matches!(other, TokenTypeG::Amper),
            TokenTypeG::Plus => matches!(other, TokenTypeG::Plus),
            TokenTypeG::Minus => matches!(other, TokenTypeG::Minus),
            TokenTypeG::Star => matches!(other, TokenTypeG::Star),
            TokenTypeG::Slash => matches!(other, TokenTypeG::Slash),
            TokenTypeG::Assign => matches!(other, TokenTypeG::Assign),
            TokenTypeG::EQ => matches!(other, TokenTypeG::EQ),
            TokenTypeG::NE => matches!(other, TokenTypeG::NE),
            TokenTypeG::LT => matches!(other, TokenTypeG::LT),
            TokenTypeG::GT => matches!(other, TokenTypeG::GT),
            TokenTypeG::LE => matches!(other, TokenTypeG::LE),
            TokenTypeG::GE => matches!(other, TokenTypeG::GE),
            TokenTypeG::LogAnd => matches!(other, TokenTypeG::LogAnd),
            TokenTypeG::LeftBrace => matches!(other, TokenTypeG::LeftBrace),
            TokenTypeG::RightBrace => matches!(other, TokenTypeG::RightBrace),
            TokenTypeG::LeftParen => matches!(other, TokenTypeG::LeftParen),
            TokenTypeG::RightParen => matches!(other, TokenTypeG::RightParen),
            TokenTypeG::Semi => matches!(other, TokenTypeG::Semi),
            TokenTypeG::Else => matches!(other, TokenTypeG::Else),
            TokenTypeG::For => matches!(other, TokenTypeG::For),
            TokenTypeG::If => matches!(other, TokenTypeG::If),
            TokenTypeG::Char => matches!(other, TokenTypeG::Char),
            TokenTypeG::Int => matches!(other, TokenTypeG::Int),
            TokenTypeG::Long => matches!(other, TokenTypeG::Long),
            TokenTypeG::Return => matches!(other, TokenTypeG::Return),
            TokenTypeG::Void => matches!(other, TokenTypeG::Void),
            TokenTypeG::While => matches!(other, TokenTypeG::While),
        }
    }

    /// A copy of the token type.
    pub fn duplicate(&self) -> (r: TokenType)
        ensures
            r == *self,
    {
        match self {
            TokenTypeG::Ident(s) => TokenTypeG::Ident(s.clone()),
            TokenTypeG::IntLit(v) => TokenTypeG::IntLit(*v),
            TokenTypeG::Amper => TokenTypeG::Amper,
            TokenTypeG::Plus => TokenTypeG::Plus,
            TokenTypeG::Minus => TokenTypeG::Minus,
            TokenTypeG::Star => TokenTypeG::Star,
            TokenTypeG::Slash => TokenTypeG::Slash,
            TokenTypeG::Assign => TokenTypeG::Assign,
            TokenTypeG::EQ => TokenTypeG::EQ,
            TokenTypeG::NE => TokenTypeG::NE,
            TokenTypeG::LT => TokenTypeG::LT,
            TokenTypeG::GT => TokenTypeG::GT,
            TokenTypeG::LE => TokenTypeG::LE,
            TokenTypeG::GE => TokenTypeG::GE,
            TokenTypeG::LogAnd => TokenTypeG::LogAnd,
            TokenTypeG::LeftBrace => TokenTypeG::LeftBrace,
            TokenTypeG::RightBrace => TokenTypeG::RightBrace,
            TokenTypeG::LeftParen => TokenTypeG::LeftParen,
            TokenTypeG::RightParen => TokenTypeG::RightParen,
            TokenTypeG::Semi => TokenTypeG::Semi,
            TokenTypeG::Else => TokenTypeG::Else,
            TokenTypeG::For => TokenTypeG::For,
            TokenTypeG::If => TokenTypeG::If,
            TokenTypeG::Char => TokenTypeG::Char,
            TokenTypeG::Int => TokenTypeG::Int,
            TokenTypeG::Long => TokenTypeG::Long,
            TokenTypeG::Return => TokenTypeG::Return,
            TokenTypeG::Void => TokenTypeG::Void,
            TokenTypeG::While => TokenTypeG::While,
        }
    }
}

/// Which tokens a scanner call accepts.
pub enum TokenPattern {
    /// Exactly this token type.
    Exactly(TokenType),
    /// Any identifier.
    AnyIdent,
}

impl TokenPattern {
    pub open spec fn accepts(&self, t: TokenTypeV) -> bool {
        match self {
            TokenPattern::Exactly(tt) => t == tt@,
            TokenPattern::AnyIdent => t is Ident,
        }
    }
}

/// A token with the scanner's line and column at the moment it was scanned.
#[derive(Debug, Clone, PartialEq, Eq)]
pub struct TokenG<S> {
    pub ttype: TokenTypeG<S>,
    pub line: usize,
    pub col: usize,
}

pub type Token = TokenG<String>;

pub type TokenV = TokenG<Seq<char>>;

impl View for TokenG<String> {
    type V = TokenV;

    open spec fn view(&self) -> TokenV {
        TokenG { ttype: self.ttype@, line: self.line, col: self.col }
    }
}

impl TokenG<String> {
    /// Whether the token names a type.
    pub fn is_type(&self) -> (r: bool)
        ensures
            r == self.ttype.spec_is_type(),
    {
        self.ttype.is_type()
    }
}

} // verus!

verus! {

// ---------------------------------------------------------------------------
// The lexical grammar, as specifications over the input bytes.
// ---------------------------------------------------------------------------

/// Bytes that, read as characters, are white space (`char::is_whitespace`).
pub open spec fn is_ws(c: u8) -> bool {
    c == 9 || c == 10 || c == 11 || c == 12 || c == 13 || c == 32 || c == 0x85 || c == 0xA0
}

pub open spec fn is_digit(c: u8) -> bool {
    48 <= c <= 57
}

pub open spec fn is_alpha(c: u8) -> bool {
    (65 <= c <= 90) || (97 <= c <= 122)
}

/// Bytes that may continue an identifier.
pub open spec fn is_ident_char(c: u8) -> bool {
    is_digit(c) || is_alpha(c) || c == 95
}

/// The line number after reading `s`: one plus the number of newlines.
pub open spec fn line_of(s: Seq<u8>) -> int
    decreases s.len(),
{
    if s.len() == 0 {
        1
    } else {
        line_of(s.drop_last()) + if s.last() == 10 {
            1int
        } else {
            0int
        }
    }
}

/// The column after reading `s`: one plus the bytes read since the last newline.
pub open spec fn col_of(s: Seq<u8>) -> int
    decreases s.len(),
{
    if s.len() == 0 {
        1
    } else if s.last() == 10 {
        1
    } else {
        col_of(s.drop_last()) + 1
    }
}

/// The line the scanner is on once it has read the first `p` bytes.
pub open spec fn line_at(inp: Seq<u8>, p: int) -> usize {
    line_of(inp.take(p)) as usize
}

/// The first position at or after `p` that does not hold white space.
pub open spec fn skip_ws(inp: Seq<u8>, p: int) -> int
    decreases inp.len() - p,
{
    if 0 <= p < inp.len() && is_ws(inp[p]) {
        skip_ws(inp, p + 1)
    } else {
        p
    }
}

/// The first position at or after `p` that does not hold a digit.
pub open spec fn digits_end(inp: Seq<u8>, p: int) -> int
    decreases inp.len() - p,
{
    if 0 <= p < inp.len() && is_digit(inp[p]) {
        digits_end(inp, p + 1)
    } else {
        p
    }
}

/// The first position at or after `p` that does not hold an identifier byte.
pub open spec fn ident_end(inp: Seq<u8>, p: int) -> int
    decreases inp.len() - p,
{
    if 0 <= p < inp.len() && is_ident_char(inp[p]) {
        ident_end(inp, p + 1)
    } else {
        p
    }
}

/// The decimal value of the digits `inp[a..b]`.
pub open spec fn dec_value(inp: Seq<u8>, a: int, b: int) -> int
    decreases b - a,
{
    if b <= a {
        0
    } else {
        dec_value(inp, a, b - 1) * 10 + (inp[b - 1] - 48)
    }
}

/// The keyword that the bytes `w` spell, if any.
pub open spec fn keyword_of(w: Seq<u8>) -> Option<TokenTypeV> {
    if w =~= seq![99u8, 104, 97, 114] {
        Some(TokenTypeG::Char)
    } else if w =~= seq![101u8, 108, 115, 101] {
        Some(TokenTypeG::Else)
    } else if w =~= seq![102u8, 111, 114] {
        Some(TokenTypeG::For)
    } else if w =~= seq![105u8, 102] {
        Some(TokenTypeG::If)
    } else if w =~= seq![105u8, 110, 116] {
        Some(TokenTypeG::Int)
    } else if w =~= seq![108u8, 111, 110, 103] {
        Some(TokenTypeG::Long)
    } else if w =~= seq![114u8, 101, 116, 117, 114, 110] {
        Some(TokenTypeG::Return)
    } else if w =~= seq![118u8, 111, 105, 100] {
        Some(TokenTypeG::Void)
    } else if w =~= seq![119u8, 104, 105, 108, 101] {
        Some(TokenTypeG::While)
    } else {
        None
    }
}

pub open spec fn bytes_to_chars(w: Seq<u8>) -> Seq<char> {
    w.map_values(|b: u8| b as char)
}

/// The token that a word spells: a keyword or an identifier.
pub open spec fn word_token(w: Seq<u8>) -> TokenTypeV {
    match keyword_of(w) {
        Some(k) => k,
        None => TokenTypeG::Ident(bytes_to_chars(w)),
    }
}

/// The outcome of lexing one token.
pub enum Lexed {
    /// Only white space is left.
    Eof,
    /// A token that ends at `end`; `la` tells whether the byte at `end` was
    /// read ahead (and put back).
    Tok { tt: TokenTypeV, end: int, la: bool },
    Fail { err: CompileError },
}

pub open spec fn one(tt: TokenTypeV, q: int) -> Lexed {
    Lexed::Tok { tt, end: q + 1, la: false }
}

/// A token that may be one byte or, followed by `second`, two bytes.
pub open spec fn one_or_two(inp: Seq<u8>, q: int, second: u8, short: TokenTypeV, long: TokenTypeV) -> Lexed {
    if q + 1 < inp.len() && inp[q + 1] == second {
        Lexed::Tok { tt: long, end: q + 2, la: false }
    } else {
        Lexed::Tok { tt: short, end: q + 1, la: q + 1 < inp.len() }
    }
}

pub open spec fn lex_err(kind: ErrorKind, line: usize) -> Lexed {
    Lexed::Fail { err: CompileError { kind, line } }
}

/// The token that starts at (or after white space at) logical position `p`.
#[verifier::opaque]
pub open spec fn lex_at(inp: Seq<u8>, p: int) -> Lexed {
    let q = skip_ws(inp, p);
    if q >= inp.len() {
        Lexed::Eof
    } else {
        let c = inp[q];
        if c == 40 {
            one(TokenTypeG::LeftParen, q)
        } else if c == 41 {
            one(TokenTypeG::RightParen, q)
        } else if c == 123 {
            one(TokenTypeG::LeftBrace, q)
        } else if c == 125 {
            one(TokenTypeG::RightBrace, q)
        } else if c == 43 {
            one(TokenTypeG::Plus, q)
        } else if c == 45 {
            one(TokenTypeG::Minus, q)
        } else if c == 42 {
            one(TokenTypeG::Star, q)
        } else if c == 47 {
            one(TokenTypeG::Slash, q)
        } else if c == 59 {
            one(TokenTypeG::Semi, q)
        } else if c == 61 {
            one_or_two(inp, q, 61, TokenTypeG::Assign, TokenTypeG::EQ)
        } else if c == 60 {
            one_or_two(inp, q, 61, TokenTypeG::LT, TokenTypeG::LE)
        } else if c == 62 {
            one_or_two(inp, q, 61, TokenTypeG::GT, TokenTypeG::GE)
        } else if c == 38 {
            one_or_two(inp, q, 38, TokenTypeG::Amper, TokenTypeG::LogAnd)
        } else if c == 33 {
            if q + 1 < inp.len() {
                if inp[q + 1] == 61 {
                    Lexed::Tok { tt: TokenTypeG::NE, end: q + 2, la: false }
                } else {
                    lex_err(ErrorKind::UnrecognisedChar(inp[q + 1]), line_at(inp, q + 2))
                }
            } else {
                lex_err(ErrorKind::EofAfterBang, line_at(inp, inp.len() as int))
            }
        } else if is_digit(c) {
            let e = digits_end(inp, q + 1);
            if dec_value(inp, q, e) > i64::MAX {
                lex_err(ErrorKind::IntegerOverflow, line_at(inp, q))
            } else {
                Lexed::Tok {
                    tt: TokenTypeG::IntLit(dec_value(inp, q, e) as i64),
                    end: e,
                    la: e < inp.len(),
                }
            }
        } else if is_alpha(c) || c == 95 {
            let e = ident_end(inp, q);
            if e - q > TEXTLEN {
                lex_err(ErrorKind::IdentifierTooLong, line_at(inp, q + TEXTLEN + 1))
            } else {
                Lexed::Tok { tt: word_token(inp.subrange(q, e)), end: e, la: e < inp.len() }
            }
        } else {
            lex_err(ErrorKind::UnrecognisedChar(c), line_at(inp, q + 1))
        }
    }
}

/// The scanner as specifications see it: a token that was put back, the logical
/// position (the next byte to lex) and the number of bytes read from the input.
pub struct ScanState {
    pub pb: Option<TokenV>,
    pub lpos: int,
    pub pos: int,
}

/// A token with the line and column that the scanner was at when asked for it.
pub open spec fn token_at(inp: Seq<u8>, tt: TokenTypeV, pos: int) -> TokenV {
    TokenG { ttype: tt, line: line_of(inp.take(pos)) as usize, col: col_of(inp.take(pos)) as usize }
}

/// One call of `scan`: the put-back token if there is one, else the next token
/// of the input.
pub open spec fn scan_step(inp: Seq<u8>, s: ScanState) -> (Result<Option<TokenV>, CompileError>, ScanState) {
    match s.pb {
        Some(t) => (Ok(Some(t)), ScanState { pb: None, lpos: s.lpos, pos: s.pos }),
        None => match lex_at(inp, s.lpos) {
            Lexed::Eof => (Ok(None), ScanState { pb: None, lpos: inp.len() as int, pos: inp.len() as int }),
            Lexed::Tok { tt, end, la } => (
                Ok(Some(token_at(inp, tt, s.pos))),
                ScanState { pb: None, lpos: end, pos: if la { end + 1 } else { end } },
            ),
            Lexed::Fail { err } => (Err(err), s),
        },
    }
}

/// `is_eof`: whether only white space is left; it reads past that white space.
pub open spec fn spec_is_eof(inp: Seq<u8>, s: ScanState) -> (bool, ScanState) {
    if s.pb is Some {
        (false, s)
    } else {
        let q = skip_ws(inp, s.lpos);
        if q < inp.len() {
            (false, ScanState { pb: None, lpos: q, pos: q + 1 })
        } else {
            (true, ScanState { pb: None, lpos: inp.len() as int, pos: inp.len() as int })
        }
    }
}

/// `maybe_token`: consume the next token if it is `tt`, else put it back.
pub open spec fn spec_maybe_token(inp: Seq<u8>, s: ScanState, tt: TokenTypeV) -> (Result<bool, CompileError>, ScanState) {
    let (r, s2) = scan_step(inp, s);
    match r {
        Err(e) => (Err(e), s2),
        Ok(None) => (Err(CompileError { kind: ErrorKind::UnexpectedEof, line: line_at(inp, s2.pos) }), s2),
        Ok(Some(t)) => if t.ttype == tt {
            (Ok(true), s2)
        } else {
            (Ok(false), ScanState { pb: Some(t), lpos: s2.lpos, pos: s2.pos })
        },
    }
}

/// `matches`: consume the next token, which must be `tt`.
pub open spec fn spec_expect(inp: Seq<u8>, s: ScanState, tt: TokenTypeV) -> (Result<TokenV, CompileError>, ScanState) {
    let (r, s2) = scan_step(inp, s);
    match r {
        Err(e) => (Err(e), s2),
        Ok(None) => (Err(CompileError { kind: ErrorKind::UnexpectedEof, line: line_at(inp, s2.pos) }), s2),
        Ok(Some(t)) => if t.ttype == tt {
            (Ok(t), s2)
        } else {
            (Err(CompileError { kind: ErrorKind::UnexpectedToken, line: line_at(inp, s2.pos) }), s2)
        },
    }
}

/// `ident`: consume the next token, which must be an identifier; its name.
pub open spec fn spec_ident(inp: Seq<u8>, s: ScanState) -> (Result<Seq<char>, CompileError>, ScanState) {
    let (r, s2) = scan_step(inp, s);
    match r {
        Err(e) => (Err(e), s2),
        Ok(None) => (Err(CompileError { kind: ErrorKind::UnexpectedEof, line: line_at(inp, s2.pos) }), s2),
        Ok(Some(t)) => match t.ttype {
            TokenTypeG::Ident(name) => (Ok(name), s2),
            _ => (Err(CompileError { kind: ErrorKind::UnexpectedToken, line: line_at(inp, s2.pos) }), s2),
        },
    }
}

pub open spec fn opt_token_view(r: Result<Option<Token>, CompileError>) -> Result<Option<TokenV>, CompileError> {
    match r {
        Ok(Some(t)) => Ok(Some(t@)),
        Ok(None) => Ok(None),
        Err(e) => Err(e),
    }
}

// ---------------------------------------------------------------------------
// Lemmas about the lexical grammar.
// ---------------------------------------------------------------------------

pub proof fn lemma_line_col_bound(s: Seq<u8>)
    ensures
        1 <= line_of(s) <= s.len() + 1,
        1 <= col_of(s) <= s.len() + 1,
    decreases s.len(),
{
    if s.len() > 0 {
        lemma_line_col_bound(s.drop_last());
    }
}

pub proof fn lemma_take_push(s: Seq<u8>, p: int)
    requires
        0 <= p < s.len(),
    ensures
        s.take(p + 1).drop_last() == s.take(p),
        s.take(p + 1).last() == s[p],
{
    assert(s.take(p + 1).drop_last() =~= s.take(p));
}

/// Reading bytes that are not newlines leaves the line unchanged.
pub proof fn lemma_line_stable(s: Seq<u8>, a: int, b: int)
    requires
        0 <= a <= b <= s.len(),
        forall|i: int| a <= i < b ==> s[i] != 10,
    ensures
        line_of(s.take(b)) == line_of(s.take(a)),
    decreases b - a,
{
    if b > a {
        lemma_line_stable(s, a, b - 1);
        lemma_take_push(s, b - 1);
    }
}

pub proof fn lemma_skip_ws_bounds(inp: Seq<u8>, p: int)
    requires
        0 <= p <= inp.len(),
    ensures
        p <= skip_ws(inp, p) <= inp.len(),
        skip_ws(inp, p) < inp.len() ==> !is_ws(inp[skip_ws(inp, p)]),
    decreases inp.len() - p,
{
    if p < inp.len() && is_ws(inp[p]) {
        lemma_skip_ws_bounds(inp, p + 1);
    }
}

pub proof fn lemma_digits_end_bounds(inp: Seq<u8>, p: int)
    requires
        0 <= p <= inp.len(),
    ensures
        p <= digits_end(inp, p) <= inp.len(),
        forall|i: int| p <= i < digits_end(inp, p) ==> is_digit(#[trigger] inp[i]),
        digits_end(inp, p) < inp.len() ==> !is_digit(inp[digits_end(inp, p)]),
    decreases inp.len() - p,
{
    if p < inp.len() && is_digit(inp[p]) {
        lemma_digits_end_bounds(inp, p + 1);
    }
}

pub proof fn lemma_ident_end_bounds(inp: Seq<u8>, p: int)
    requires
        0 <= p <= inp.len(),
    ensures
        p <= ident_end(inp, p) <= inp.len(),
        forall|i: int| p <= i < ident_end(inp, p) ==> is_ident_char(#[trigger] inp[i]),
        ident_end(inp, p) < inp.len() ==> !is_ident_char(inp[ident_end(inp, p)]),
    decreases inp.len() - p,
{
    if p < inp.len() && is_ident_char(inp[p]) {
        lemma_ident_end_bounds(inp, p + 1);
    }
}

pub proof fn lemma_dec_value_nonneg(inp: Seq<u8>, a: int, b: int)
    requires
        0 <= a,
        b <= inp.len(),
        forall|i: int| a <= i < b ==> is_digit(#[trigger] inp[i]),
    ensures
        dec_value(inp, a, b) >= 0,
    decreases b - a,
{
    if b > a {
        lemma_dec_value_nonneg(inp, a, b - 1);
    }
}

/// Appending digits never makes a decimal value smaller.
pub proof fn lemma_dec_value_mono(inp: Seq<u8>, a: int, b: int, c: int)
    requires
        0 <= a <= b <= c <= inp.len(),
        forall|i: int| a <= i < c ==> is_digit(#[trigger] inp[i]),
    ensures
        dec_value(inp, a, b) <= dec_value(inp, a, c),
    decreases c - b,
{
    if c > b {
        lemma_dec_value_mono(inp, a, b, c - 1);
        lemma_dec_value_nonneg(inp, a, c - 1);
    }
}

/// Every token consumes at least one byte.
pub proof fn lemma_lex_progress(inp: Seq<u8>, p: int)
    requires
        0 <= p <= inp.len(),
    ensures
        lex_at(inp, p) matches Lexed::Tok { end, la, .. } ==> p < end <= inp.len() && (la ==> end
            < inp.len()),
{
    reveal(lex_at);
    lemma_skip_ws_bounds(inp, p);
    let q = skip_ws(inp, p);
    if q < inp.len() {
        lemma_digits_end_bounds(inp, q + 1);
        lemma_ident_end_bounds(inp, q);
    }
}

// ---------------------------------------------------------------------------
// The scanner.
// ---------------------------------------------------------------------------

/// A scanner over the bytes of a source text. It reads one byte at a time,
/// can put back one byte and one token, and tracks line and column.
pub struct Scanner {
    input: Vec<u8>,
    pos: usize,
    putback_char: bool,
    putback_token: Option<Token>,
    line: usize,
    col: usize,
}

impl View for Scanner {
    type V = ScanState;

    closed spec fn view(&self) -> ScanState {
        ScanState {
            pb: match self.putback_token {
                Some(t) => Some(t@),
                None => None,
            },
            lpos: self.lpos(),
            pos: self.pos as int,
        }
    }
}

impl Scanner {
    /// The source text.
    pub closed spec fn text(&self) -> Seq<u8> {
        self.input@
    }

    /// The position of the next byte to lex.
    closed spec fn lpos(&self) -> int {
        if self.putback_char {
            self.pos - 1
        } else {
            self.pos as int
        }
    }

    pub closed spec fn wf(&self) -> bool {
        &&& self.input@.len() < usize::MAX
        &&& self.pos <= self.input@.len()
        &&& self.putback_char ==> self.pos >= 1
        &&& self.line == line_of(self.input@.take(self.pos as int))
        &&& self.col == col_of(self.input@.take(self.pos as int))
    }

    /// Every reachable state keeps its positions in range.
    pub proof fn lemma_view_bounds(&self)
        requires
            self.wf(),
        ensures
            0 <= self@.lpos <= self@.pos <= self.text().len(),
            self@.pos <= self@.lpos + 1,
            self.text().len() < usize::MAX,
    {
    }

    /// A scanner at the start of `input`.
    pub fn new(input: Vec<u8>) -> (s: Scanner)
        requires
            input@.len() < usize::MAX,
        ensures
            s.wf(),
            s.text() == input@,
            s@ == (ScanState { pb: None, lpos: 0, pos: 0 }),
    {
        let s = Scanner { input, pos: 0, putback_char: false, putback_token: None, line: 1, col: 1 };
        assert(s.input@.take(0) =~= Seq::<u8>::empty());
        s
    }

    /// The current line.
    pub fn get_line(&self) -> (r: usize)
        requires
            self.wf(),
        ensures
            r == line_at(self.text(), self@.pos),
    {
        self.line
    }

    /// The current column.
    pub fn get_col(&self) -> (r: usize)
        requires
            self.wf(),
        ensures
            r == col_of(self.text().take(self@.pos)),
    {
        self.col
    }

    fn putback_char(&mut self)
        requires
            old(self).wf(),
            !old(self).putback_char,
            old(self).pos >= 1,
        ensures
            final(self).wf(),
            final(self).input == old(self).input,
            final(self).pos == old(self).pos,
            final(self).putback_char,
            final(self).putback_token == old(self).putback_token,
    {
        self.putback_char = true;
    }

    /// Put a token back; the next `scan` returns it.
    pub fn putback_token(&mut self, t: Token)
        requires
            old(self).wf(),
        ensures
            final(self).wf(),
            final(self).text() == old(self).text(),
            final(self)@ == (ScanState { pb: Some(t@), lpos: old(self)@.lpos, pos: old(self)@.pos }),
    {
        self.putback_token = Some(t);
    }

    /// The next byte, if any.
    fn next(&mut self) -> (r: Option<u8>)
        requires
            old(self).wf(),
        ensures
            final(self).wf(),
            final(self).input == old(self).input,
            final(self).putback_token == old(self).putback_token,
            old(self).lpos() < old(self).input@.len() ==> r == Some(old(self).input@[old(self).lpos()])
                && final(self).pos == old(self).lpos() + 1 && !final(self).putback_char,
            old(self).lpos() >= old(self).input@.len() ==> r is None && final(self).pos == old(
                self,
            ).pos && final(self).putback_char == old(self).putback_char,
    {
        if self.putback_char {
            self.putback_char = false;
            Some(self.input[self.pos - 1])
        } else if self.pos < self.input.len() {
            let c = self.input[self.pos];
            proof {
                lemma_take_push(self.input@, self.pos as int);
                lemma_line_col_bound(self.input@.take(self.pos as int));
            }
            if c == 10 {
                self.line = self.line + 1;
                self.col = 1;
            } else {
                self.col = self.col + 1;
            }
            self.pos = self.pos + 1;
            Some(c)
        } else {
            None
        }
    }

    /// The next byte, left in place.
    fn peek(&mut self) -> (r: Option<u8>)
        requires
            old(self).wf(),
        ensures
            final(self).wf(),
            final(self).input == old(self).input,
            final(self).putback_token == old(self).putback_token,
            final(self).lpos() == old(self).lpos(),
            old(self).lpos() < old(self).input@.len() ==> r == Some(old(self).input@[old(self).lpos()])
                && final(self).pos == old(self).lpos() + 1,
            old(self).lpos() >= old(self).input@.len() ==> r is None && final(self).pos == old(
                self,
            ).pos,
    {
        if let Some(c) = self.next() {
            self.putback_char();
            Some(c)
        } else {
            None
        }
    }

    fn clear_putback_char(&mut self)
        requires
            old(self).wf(),
        ensures
            final(self).wf(),
            final(self).input == old(self).input,
            final(self).putback_token == old(self).putback_token,
            final(self).pos == old(self).pos,
            !final(self).putback_char,
    {
        self.putback_char = false;
    }

    /// The next byte that is not white space, if any.
    fn skip(&mut self) -> (r: Option<u8>)
        requires
            old(self).wf(),
        ensures
            final(self).wf(),
            final(self).input == old(self).input,
            final(self).putback_token == old(self).putback_token,
            !final(self).putback_char,
            r is Some ==> final(self).pos >= 1,
            ({
                let q = skip_ws(old(self).input@, old(self).lpos());
                &&& q < old(self).input@.len() ==> r == Some(old(self).input@[q]) && final(self).pos
                    == q + 1
                &&& q >= old(self).input@.len() ==> r is None && final(self).pos == old(
                    self,
                ).input@.len()
            }),
    {
        let ghost q = skip_ws(self.input@, self.lpos());
        proof {
            lemma_skip_ws_bounds(self.input@, self.lpos());
        }
        loop
            invariant
                self.wf(),
                self.input == old(self).input,
                self.putback_token == old(self).putback_token,
                q == skip_ws(self.input@, self.lpos()),
                q == skip_ws(old(self).input@, old(self).lpos()),
                self.lpos() <= q <= self.input@.len(),
                q < self.input@.len() ==> !is_ws(self.input@[q]),
            decreases self.input@.len() - self.lpos(),
        {
            let ghost before = self.lpos();
            match self.next() {
                Some(c) => {
                    assert(c == self.input@[before]);
                    if !(c == 9 || c == 10 || c == 11 || c == 12 || c == 13 || c == 32 || c == 0x85
                        || c == 0xA0) {
                        assert(skip_ws(self.input@, before) == before);
                        return Some(c);
                    }
                    assert(skip_ws(self.input@, before) == skip_ws(self.input@, before + 1));
                },
                None => {
                    assert(before == self.input@.len());
                    assert(!self.putback_char);
                    return None;
                },
            }
        }
    }

    /// The digits of an integer literal whose first digit was just read.
    fn scan_int(&mut self, first: u8) -> (r: Result<i64, CompileError>)
        requires
            old(self).wf(),
            !old(self).putback_char,
            old(self).pos >= 1,
            first == old(self).input@[old(self).pos - 1],
            is_digit(first),
        ensures
            final(self).wf(),
            final(self).input == old(self).input,
            final(self).putback_token == old(self).putback_token,
            ({
                let inp = old(self).input@;
                let q = old(self).pos - 1;
                let e = digits_end(inp, q + 1);
                &&& dec_value(inp, q, e) > i64::MAX ==> r == Err::<i64, CompileError>(
                    CompileError { kind: ErrorKind::IntegerOverflow, line: line_at(inp, q) },
                )
                &&& dec_value(inp, q, e) <= i64::MAX ==> r == Ok::<i64, CompileError>(
                    dec_value(inp, q, e) as i64,
                ) && final(self).lpos() == e && final(self).pos == (if e < inp.len() {
                    e + 1
                } else {
                    e
                })
            }),
    {
        let ghost inp = self.input@;
        let ghost q = self.pos - 1;
        let line0 = self.line;
        proof {
            lemma_take_push(inp, q);
            lemma_digits_end_bounds(inp, q + 1);
            assert(dec_value(inp, q, q + 1) == first - 48) by {
                assert(dec_value(inp, q, q) == 0);
            }
        }
        let mut value: i64 = (first - 48) as i64;
        loop
            invariant
                self.wf(),
                self.input == old(self).input,
                inp == self.input@,
                inp == old(self).input@,
                q == old(self).pos - 1,
                self.putback_token == old(self).putback_token,
                !self.putback_char,
                0 <= q,
                q + 1 <= self.pos <= digits_end(inp, q + 1),
                digits_end(inp, q + 1) <= inp.len(),
                forall|i: int| q <= i < digits_end(inp, q + 1) ==> is_digit(#[trigger] inp[i]),
                digits_end(inp, q + 1) < inp.len() ==> !is_digit(inp[digits_end(inp, q + 1)]),
                value == dec_value(inp, q, self.pos as int),
                line0 == line_at(inp, q),
            decreases inp.len() - self.pos,
        {
            let ghost before = self.pos as int;
            match self.next() {
                Some(c) => {
                    if 48 <= c && c <= 57 {
                        assert(before < digits_end(inp, q + 1));
                        proof {
                            lemma_digits_end_bounds(inp, q + 1);
                            lemma_dec_value_nonneg(inp, q, before + 1);
                        }
                        let d: i64 = (c - 48) as i64;
                        match value.checked_mul(10) {
                            Some(v10) => match v10.checked_add(d) {
                                Some(v) => {
                                    value = v;
                                },
                                None => {
                                    proof {
                                        lemma_dec_value_mono(inp, q, before + 1, digits_end(inp, q + 1));
                                    }
                                    return Err(CompileError { kind: ErrorKind::IntegerOverflow, line: line0 });
                                },
                            },
                            None => {
                                proof {
                                    lemma_dec_value_nonneg(inp, q, before);
                                    lemma_dec_value_mono(inp, q, before + 1, digits_end(inp, q + 1));
                                }
                                return Err(CompileError { kind: ErrorKind::IntegerOverflow, line: line0 });
                            },
                        }
                    } else {
                        assert(before == digits_end(inp, q + 1)) by {
                            if before < digits_end(inp, q + 1) {
                                assert(is_digit(inp[before]));
                            }
                        }
                        self.putback_char();
                        return Ok(value);
                    }
                },
                None => {
                    return Ok(value);
                },
            }
        }
    }

    /// The bytes of an identifier whose first byte was just put back.
    fn scan_ident(&mut self) -> (r: Result<Vec<u8>, CompileError>)
        requires
            old(self).wf(),
            old(self).putback_char,
            is_ident_char(old(self).input@[old(self).pos - 1]),
        ensures
            final(self).wf(),
            final(self).input == old(self).input,
            final(self).putback_token == old(self).putback_token,
            ({
                let inp = old(self).input@;
                let q = old(self).pos - 1;
                let e = ident_end(inp, q);
                &&& e - q > TEXTLEN ==> r == Err::<Vec<u8>, CompileError>(
                    CompileError { kind: ErrorKind::IdentifierTooLong, line: line_at(inp, q + TEXTLEN + 1) },
                )
                &&& e - q <= TEXTLEN ==> (r matches Ok(w) && w@ == inp.subrange(q, e)
                    && final(self).lpos() == e && final(self).pos == (if e < inp.len() {
                    e + 1
                } else {
                    e
                }))
            }),
    {
        let ghost inp = self.input@;
        let ghost q = self.pos - 1;
        proof {
            lemma_ident_end_bounds(inp, q);
        }
        let mut buffer: Vec<u8> = Vec::new();
        loop
            invariant
                self.wf(),
                self.input == old(self).input,
                inp == self.input@,
                inp == old(self).input@,
                q == old(self).pos - 1,
                self.putback_token == old(self).putback_token,
                0 <= q,
                self.lpos() == q + buffer@.len(),
                buffer@.len() == 0 ==> self.putback_char && self.pos == q + 1,
                buffer@.len() > 0 ==> !self.putback_char,
                buffer@.len() <= TEXTLEN,
                q + buffer@.len() <= ident_end(inp, q) <= inp.len(),
                buffer@ == inp.subrange(q, q + buffer@.len()),
                forall|i: int| q <= i < ident_end(inp, q) ==> is_ident_char(#[trigger] inp[i]),
                ident_end(inp, q) < inp.len() ==> !is_ident_char(inp[ident_end(inp, q)]),
            decreases inp.len() - self.lpos(),
        {
            let ghost before = self.lpos();
            match self.next() {
                Some(c) => {
                    if (48 <= c && c <= 57) || (65 <= c && c <= 90) || (97 <= c && c <= 122) || c == 95 {
                        assert(before < ident_end(inp, q)) by {
                            if before >= ident_end(inp, q) {
                                assert(before == ident_end(inp, q));
                            }
                        }
                        if buffer.len() == TEXTLEN {
                            return Err(CompileError { kind: ErrorKind::IdentifierTooLong, line: self.line });
                        }
                        buffer.push(c);
                        assert(buffer@ =~= inp.subrange(q, q + buffer@.len()));
                    } else {
                        assert(before == ident_end(inp, q)) by {
                            if before < ident_end(inp, q) {
                                assert(is_ident_char(inp[before]));
                            }
                        }
                        self.putback_char();
                        return Ok(buffer);
                    }
                },
                None => {
                    return Ok(buffer);
                },
            }
        }
    }

    /// The keyword that `w` spells, if any.
    fn keyword(&self, w: &Vec<u8>) -> (r: Option<TokenType>)
        ensures
            match r {
                Some(t) => keyword_of(w@) == Some(t@),
                None => keyword_of(w@) is None,
            },
    {
        let n = w.len();
        if n == 4 && w[0] == 99 && w[1] == 104 && w[2] == 97 && w[3] == 114 {
            assert(w@ =~= seq![99u8, 104, 97, 114]);
            Some(TokenTypeG::Char)
        } else if n == 4 && w[0] == 101 && w[1] == 108 && w[2] == 115 && w[3] == 101 {
            assert(w@ =~= seq![101u8, 108, 115, 101]);
            Some(TokenTypeG::Else)
        } else if n == 3 && w[0] == 102 && w[1] == 111 && w[2] == 114 {
            assert(w@ =~= seq![102u8, 111, 114]);
            Some(TokenTypeG::For)
        } else if n == 2 && w[0] == 105 && w[1] == 102 {
            assert(w@ =~= seq![105u8, 102]);
            Some(TokenTypeG::If)
        } else if n == 3 && w[0] == 105 && w[1] == 110 && w[2] == 116 {
            assert(w@ =~= seq![105u8, 110, 116]);
            Some(TokenTypeG::Int)
        } else if n == 4 && w[0] == 108 && w[1] == 111 && w[2] == 110 && w[3] == 103 {
            assert(w@ =~= seq![108u8, 111, 110, 103]);
            Some(TokenTypeG::Long)
        } else if n == 6 && w[0] == 114 && w[1] == 101 && w[2] == 116 && w[3] == 117 && w[4] == 114
            && w[5] == 110 {
            assert(w@ =~= seq![114u8, 101, 116, 117, 114, 110]);
            Some(TokenTypeG::Return)
        } else if n == 4 && w[0] == 118 && w[1] == 111 && w[2] == 105 && w[3] == 100 {
            assert(w@ =~= seq![118u8, 111, 105, 100]);
            Some(TokenTypeG::Void)
        } else if n == 5 && w[0] == 119 && w[1] == 104 && w[2] == 105 && w[3] == 108 && w[4] == 101 {
            assert(w@ =~= seq![119u8, 104, 105, 108, 101]);
            Some(TokenTypeG::While)
        } else {
            None
        }
    }

    /// The next token: the put-back token if there is one, else the next token
    /// of the input; `None` at the end of the input.
    /// Input it cannot take is a fatal error: it returns `Err` with the kind
    /// and the line, and the caller stops there. A byte that starts no token,
    /// or follows a lone `!`, gives `UnrecognisedChar`; `!` at the end of the
    /// input gives `EofAfterBang`; a name longer than `TEXTLEN` bytes gives
    /// `IdentifierTooLong`; a literal beyond `i64` gives `IntegerOverflow`.
    pub fn scan(&mut self) -> (res: Result<Option<Token>, CompileError>)
        requires
            old(self).wf(),
        ensures
            final(self).wf(),
            final(self).text() == old(self).text(),
            ({
                let (r, s2) = scan_step(old(self).text(), old(self)@);
                &&& opt_token_view(res) == r
                &&& r is Ok ==> final(self)@ == s2
            }),
    {
        if self.putback_token.is_some() {
            let t = self.putback_token.take();
            return Ok(t);
        }
        let ghost inp = self.input@;
        let ghost p = self.lpos();
        proof {
            reveal(lex_at);
            lemma_skip_ws_bounds(inp, p);
            lemma_lex_progress(inp, p);
        }
        let line = self.line;
        let col = self.col;
        let c = match self.skip() {
            Some(c) => c,
            None => {
                return Ok(None);
            },
        };
        let ghost q = skip_ws(inp, p);
        assert(c == inp[q]);
        let ttype = if c == 40 {
            TokenTypeG::LeftParen
        } else if c == 41 {
            TokenTypeG::RightParen
        } else if c == 123 {
            TokenTypeG::LeftBrace
        } else if c == 125 {
            TokenTypeG::RightBrace
        } else if c == 43 {
            TokenTypeG::Plus
        } else if c == 45 {
            TokenTypeG::Minus
        } else if c == 42 {
            TokenTypeG::Star
        } else if c == 47 {
            TokenTypeG::Slash
        } else if c == 59 {
            TokenTypeG::Semi
        } else if c == 61 {
            match self.peek() {
                Some(c2) => if c2 == 61 {
                    self.clear_putback_char();
                    TokenTypeG::EQ
                } else {
                    TokenTypeG::Assign
                },
                None => TokenTypeG::Assign,
            }
        } else if c == 60 {
            match self.peek() {
                Some(c2) => if c2 == 61 {
                    self.clear_putback_char();
                    TokenTypeG::LE
                } else {
                    TokenTypeG::LT
                },
                None => TokenTypeG::LT,
            }
        } else if c == 62 {
            match self.peek() {
                Some(c2) => if c2 == 61 {
                    self.clear_putback_char();
                    TokenTypeG::GE
                } else {
                    TokenTypeG::GT
                },
                None => TokenTypeG::GT,
            }
        } else if c == 38 {
            match self.peek() {
                Some(c2) => if c2 == 38 {
                    self.clear_putback_char();
                    TokenTypeG::LogAnd
                } else {
                    TokenTypeG::Amper
                },
                None => TokenTypeG::Amper,
            }
        } else if c == 33 {
            match self.peek() {
                Some(c2) => if c2 == 61 {
                    self.clear_putback_char();
                    TokenTypeG::NE
                } else {
                    return Err(CompileError { kind: ErrorKind::UnrecognisedChar(c2), line: self.line });
                },
                None => {
                    return Err(CompileError { kind: ErrorKind::EofAfterBang, line: self.line });
                },
            }
        } else if 48 <= c && c <= 57 {
            match self.scan_int(c) {
                Ok(v) => TokenTypeG::IntLit(v),
                Err(e) => {
                    return Err(e);
                },
            }
        } else if (65 <= c && c <= 90) || (97 <= c && c <= 122) || c == 95 {
            self.putback_char();
            match self.scan_ident() {
                Ok(w) => {
                    proof {
                        lemma_ident_end_bounds(inp, q);
                    }
                    match self.keyword(&w) {
                        Some(k) => k,
                        None => {
                            assert forall|i: int| 0 <= i < w@.len() implies w@[i] < 128 by {
                                assert(w@[i] == inp[q + i]);
                            }
                            TokenTypeG::Ident(string_from_ascii(w))
                        },
                    }
                },
                Err(e) => {
                    return Err(e);
                },
            }
        } else {
            return Err(CompileError { kind: ErrorKind::UnrecognisedChar(c), line: self.line });
        };
        Ok(Some(TokenG { ttype, line, col }))
    }

    /// Whether only white space is left; reads past that white space.
    pub fn is_eof(&mut self) -> (r: bool)
        requires
            old(self).wf(),
        ensures
            final(self).wf(),
            final(self).text() == old(self).text(),
            (r, final(self)@) == spec_is_eof(old(self).text(), old(self)@),
    {
        if self.putback_token.is_some() {
            false
        } else if let Some(_c) = self.skip() {
            self.putback_char();
            false
        } else {
            true
        }
    }

    /// Consume the next token if `expected` accepts it; fail if it does not;
    /// `None` at the end of the input.
    /// Input it cannot take is a fatal error: it returns `Err` with the kind
    /// and the line, and the caller stops there. A token that `expected`
    /// rejects gives `UnexpectedToken`.
    pub fn if_not_eof_matches(&mut self, expected: &TokenPattern) -> (res: Result<
        Option<Token>,
        CompileError,
    >)
        requires
            old(self).wf(),
        ensures
            final(self).wf(),
            final(self).text() == old(self).text(),
            ({
                let (r, s2) = scan_step(old(self).text(), old(self)@);
                &&& r matches Err(e) ==> res == Err::<Option<Token>, CompileError>(e)
                &&& r == Ok::<Option<TokenV>, CompileError>(None) ==> res == Ok::<
                    Option<Token>,
                    CompileError,
                >(None) && final(self)@ == s2
                &&& r matches Ok(Some(t)) ==> (if expected.accepts(t.ttype) {
                    res matches Ok(Some(tok)) && tok@ == t && final(self)@ == s2
                } else {
                    res == Err::<Option<Token>, CompileError>(
                        CompileError {
                            kind: ErrorKind::UnexpectedToken,
                            line: line_at(old(self).text(), s2.pos),
                        },
                    )
                })
            }),
    {
        match self.scan() {
            Ok(Some(tok)) => {
                let ok = match expected {
                    TokenPattern::Exactly(tt) => tok.ttype.same_as(tt),
                    TokenPattern::AnyIdent => matches!(tok.ttype, TokenTypeG::Ident(_)),
                };
                if ok {
                    Ok(Some(tok))
                } else {
                    Err(CompileError { kind: ErrorKind::UnexpectedToken, line: self.line })
                }
            },
            Ok(None) => Ok(None),
            Err(e) => Err(e),
        }
    }

    /// Consume the next token, which must be `expected`.
    /// Input it cannot take is a fatal error: it returns `Err` with the kind
    /// and the line, and the caller stops there. Another token gives
    /// `UnexpectedToken`, the end of the input `UnexpectedEof`.
    pub fn matches(&mut self, expected: TokenType) -> (res: Result<Token, CompileError>)
        requires
            old(self).wf(),
        ensures
            final(self).wf(),
            final(self).text() == old(self).text(),
            ({
                let (r, s2) = spec_expect(old(self).text(), old(self)@, expected@);
                &&& match res {
                    Ok(t) => r == Ok::<TokenV, CompileError>(t@),
                    Err(e) => r == Err::<TokenV, CompileError>(e),
                }
                &&& r is Ok ==> final(self)@ == s2
            }),
    {
        match self.if_not_eof_matches(&TokenPattern::Exactly(expected)) {
            Ok(Some(tok)) => Ok(tok),
            Ok(None) => Err(CompileError { kind: ErrorKind::UnexpectedEof, line: self.line }),
            Err(e) => Err(e),
        }
    }

    /// Consume the next token, which must be an identifier; its name.
    /// Input it cannot take is a fatal error: it returns `Err` with the kind
    /// and the line, and the caller stops there. Another token gives
    /// `UnexpectedToken`, the end of the input `UnexpectedEof`.
    pub fn ident(&mut self) -> (res: Result<String, CompileError>)
        requires
            old(self).wf(),
        ensures
            final(self).wf(),
            final(self).text() == old(self).text(),
            ({
                let (r, s2) = spec_ident(old(self).text(), old(self)@);
                &&& match res {
                    Ok(n) => r == Ok::<Seq<char>, CompileError>(n@),
                    Err(e) => r == Err::<Seq<char>, CompileError>(e),
                }
                &&& r is Ok ==> final(self)@ == s2
            }),
    {
        match self.if_not_eof_matches(&TokenPattern::AnyIdent) {
            Ok(Some(TokenG { ttype: TokenTypeG::Ident(name), .. })) => Ok(name),
            Ok(Some(_)) => Err(CompileError { kind: ErrorKind::UnexpectedToken, line: self.line }),
            Ok(None) => Err(CompileError { kind: ErrorKind::UnexpectedEof, line: self.line }),
            Err(e) => Err(e),
        }
    }

    /// Consume the next token if it is `token`; otherwise put it back.
    /// Input it cannot take is a fatal error: it returns `Err` with the kind
    /// and the line, and the caller stops there. The end of the input gives
    /// `UnexpectedEof`.
    pub fn maybe_token(&mut self, token: TokenType) -> (res: Result<bool, CompileError>)
        requires
            old(self).wf(),
        ensures
            final(self).wf(),
            final(self).text() == old(self).text(),
            ({
                let (r, s2) = spec_maybe_token(old(self).text(), old(self)@, token@);
                &&& res == r
                &&& r is Ok ==> final(self)@ == s2
            }),
    {
        match self.scan() {
            Ok(Some(tok)) => {
                if tok.ttype.same_as(&token) {
                    Ok(true)
                } else {
                    self.putback_token(tok);
                    Ok(false)
                }
            },
            Ok(None) => Err(CompileError { kind: ErrorKind::UnexpectedEof, line: self.line }),
            Err(e) => Err(e),
        }
    }

    /// Consume a `;`.
    pub fn semi(&mut self) -> (res: Result<Token, CompileError>)
        requires
            old(self).wf(),
        ensures
            final(self).wf(),
            final(self).text() == old(self).text(),
            ({
                let (r, s2) = spec_expect(old(self).text(), old(self)@, TokenTypeG::Semi);
                &&& match res {
                    Ok(t) => r == Ok::<TokenV, CompileError>(t@),
                    Err(e) => r == Err::<TokenV, CompileError>(e),
                }
                &&& r is Ok ==> final(self)@ == s2
            }),
    {
        self.matches(TokenTypeG::Semi)
    }

    /// Consume a `{`.
    pub fn lbrace(&mut self) -> (res: Result<Token, CompileError>)
        requires
            old(self).wf(),
        ensures
            final(self).wf(),
            final(self).text() == old(self).text(),
            ({
                let (r, s2) = spec_expect(old(self).text(), old(self)@, TokenTypeG::LeftBrace);
                &&& match res {
                    Ok(t) => r == Ok::<TokenV, CompileError>(t@),
                    Err(e) => r == Err::<TokenV, CompileError>(e),
                }
                &&& r is Ok ==> final(self)@ == s2
            }),
    {
        self.matches(TokenTypeG::LeftBrace)
    }

    /// Consume a `(`.
    pub fn lparen(&mut self) -> (res: Result<Token, CompileError>)
        requires
            old(self).wf(),
        ensures
            final(self).wf(),
            final(self).text() == old(self).text(),
            ({
                let (r, s2) = spec_expect(old(self).text(), old(self)@, TokenTypeG::LeftParen);
                &&& match res {
                    Ok(t) => r == Ok::<TokenV, CompileError>(t@),
                    Err(e) => r == Err::<TokenV, CompileError>(e),
                }
                &&& r is Ok ==> final(self)@ == s2
            }),
    {
        self.matches(TokenTypeG::LeftParen)
    }

    /// Consume a `)`.
    pub fn rparen(&mut self) -> (res: Result<Token, CompileError>)
        requires
            old(self).wf(),
        ensures
            final(self).wf(),
            final(self).text() == old(self).text(),
            ({
                let (r, s2) = spec_expect(old(self).text(), old(self)@, TokenTypeG::RightParen);
                &&& match res {
                    Ok(t) => r == Ok::<TokenV, CompileError>(t@),
                    Err(e) => r == Err::<TokenV, CompileError>(e),
                }
                &&& r is Ok ==> final(self)@ == s2
            }),
    {
        self.matches(TokenTypeG::RightParen)
    }

    /// An error of kind `kind` at the current line and column.
    pub fn fatal(&self, kind: ErrorKind) -> (e: CompileError)
        requires
            self.wf(),
        ensures
            e == (CompileError { kind, line: line_at(self.text(), self@.pos) }),
    {
        CompileError { kind, line: self.line }
    }

    /// An error of kind `kind`, about a value read, at the current line.
    pub fn fatal_extra(&self, kind: ErrorKind) -> (e: CompileError)
        requires
            self.wf(),
        ensures
            e == (CompileError { kind, line: line_at(self.text(), self@.pos) }),
    {
        CompileError { kind, line: self.line }
    }
}


/// `String::from_utf8` on bytes that are all ASCII: such bytes are valid UTF-8,
/// so the call succeeds and each byte becomes the character with that code.
#[verifier::external_body]
fn string_from_ascii(bytes: Vec<u8>) -> (s: String)
    requires
        forall|i: int| 0 <= i < bytes@.len() ==> bytes@[i] < 128,
    ensures
        s@ == bytes_to_chars(bytes@),
{
    String::from_utf8(bytes).unwrap_or_default()
}

} // verus!
