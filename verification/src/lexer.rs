//! The lexer: turns source text into a demand-driven stream of tokens.
//!
//! Offsets in a `TextSpan` count Unicode scalar values (characters), not
//! bytes.  The behaviour of `next_token` is pinned down exactly by
//! `spec_next_token`, a specification-level tokenizer over the sequence of
//! characters of the input.

use vstd::prelude::*;
use vstd::string::StrSliceExecFns;
use crate::chars::{alphabetic, alphanumeric, whitespace};
use crate::chars::{char_alphabetic, char_alphanumeric, char_whitespace};
use crate::chars::{is_dec_digit, is_oct_digit, is_hex_digit, digit_val};
use crate::chars::{dec_digit, oct_digit, hex_digit, digit_value};
use crate::text::str_eq;

verus! {

/// A floating literal as accumulated by the lexer: the digits before the
/// decimal point, the digits after it, and the power of ten that divides
/// them.  The value denoted is `whole + frac / denom`.  Accumulation wraps
/// on overflow, so pathological literals may leave any values here.
#[derive(Debug, Clone, Copy, PartialEq, Eq, Structural)]
pub struct FloatLiteral {
    pub whole: i64,
    pub frac: i64,
    pub denom: i64,
}

/// The closed set of token kinds.
#[derive(Debug, Clone, Copy, PartialEq, Eq, Structural)]
pub enum TokenKind {
    Integer(i64),
    Floating(FloatLiteral),
    Identifier,
    Let,
    Func,
    Return,
    Plus,
    Minus,
    Astrisk,
    Slash,
    Equal,
    BitwiseOR,
    BitwiseAND,
    BitwiseXOR,
    BitwiseNOT,
    ExclemationMark,
    EqualTo,
    NotEqualTo,
    LogicAND,
    LogicOR,
    GreaterThan,
    GreaterThanOrEqual,
    LessThan,
    LessThanOrEqual,
    LeftParen,
    RightParen,
    LeftBrace,
    RightBrace,
    LeftBracket,
    RightBracket,
    LeftAngleBracket,
    RightAngleBracket,
    Comma,
    SemiColon,
    Whitespace,
    Bad,
    Eof,
}

/// The display text of a token kind: literal kinds by their class name,
/// operators and delimiters by their symbol.
pub open spec fn spec_kind_text(k: TokenKind) -> Seq<char> {
    match k {
        TokenKind::Integer(_) => "Integer"@,
        TokenKind::Floating(_) => "Floating"@,
        TokenKind::Identifier => "Identifier"@,
        TokenKind::Let => "Let"@,
        TokenKind::Func => "Func"@,
        TokenKind::Return => "Return"@,
        TokenKind::Plus => "+"@,
        TokenKind::Minus => "-"@,
        TokenKind::Astrisk => "*"@,
        TokenKind::Slash => "/"@,
        TokenKind::Equal => "="@,
        TokenKind::BitwiseOR => "|"@,
        TokenKind::BitwiseAND => "&"@,
        TokenKind::BitwiseXOR => "^"@,
        TokenKind::BitwiseNOT => "~"@,
        TokenKind::ExclemationMark => "!"@,
        TokenKind::EqualTo => "=="@,
        TokenKind::NotEqualTo => "!="@,
        TokenKind::LogicAND => "&&"@,
        TokenKind::LogicOR => "||"@,
        TokenKind::GreaterThan => ">"@,
        TokenKind::GreaterThanOrEqual => ">="@,
        TokenKind::LessThan => "<"@,
        TokenKind::LessThanOrEqual => "<="@,
        TokenKind::LeftParen => "("@,
        TokenKind::RightParen => ")"@,
        TokenKind::LeftBrace => "{"@,
        TokenKind::RightBrace => "}"@,
        TokenKind::LeftBracket => "["@,
        TokenKind::RightBracket => "]"@,
        TokenKind::LeftAngleBracket => "<"@,
        TokenKind::RightAngleBracket => ">"@,
        TokenKind::Comma => ","@,
        TokenKind::SemiColon => ";"@,
        TokenKind::Whitespace => "Whitespace"@,
        TokenKind::Bad => "Bad"@,
        TokenKind::Eof => "Eof"@,
    }
}

impl TokenKind {
    /// The display text of this kind, as `spec_kind_text` gives it.
    pub fn text(&self) -> (r: &'static str)
        ensures
            r@ == spec_kind_text(*self),
    {
        match self {
            TokenKind::Integer(_) => "Integer",
            TokenKind::Floating(_) => "Floating",
            TokenKind::Identifier => "Identifier",
            TokenKind::Let => "Let",
            TokenKind::Func => "Func",
            TokenKind::Return => "Return",
            TokenKind::Plus => "+",
            TokenKind::Minus => "-",
            TokenKind::Astrisk => "*",
            TokenKind::Slash => "/",
            TokenKind::Equal => "=",
            TokenKind::BitwiseOR => "|",
            TokenKind::BitwiseAND => "&",
            TokenKind::BitwiseXOR => "^",
            TokenKind::BitwiseNOT => "~",
            TokenKind::ExclemationMark => "!",
            TokenKind::EqualTo => "==",
            TokenKind::NotEqualTo => "!=",
            TokenKind::LogicAND => "&&",
            TokenKind::LogicOR => "||",
            TokenKind::GreaterThan => ">",
            TokenKind::GreaterThanOrEqual => ">=",
            TokenKind::LessThan => "<",
            TokenKind::LessThanOrEqual => "<=",
            TokenKind::LeftParen => "(",
            TokenKind::RightParen => ")",
            TokenKind::LeftBrace => "{",
            TokenKind::RightBrace => "}",
            TokenKind::LeftBracket => "[",
            TokenKind::RightBracket => "]",
            TokenKind::LeftAngleBracket => "<",
            TokenKind::RightAngleBracket => ">",
            TokenKind::Comma => ",",
            TokenKind::SemiColon => ";",
            TokenKind::Whitespace => "Whitespace",
            TokenKind::Bad => "Bad",
            TokenKind::Eof => "Eof",
        }
    }
}

/// A region of the source text: start and end character offsets and the
/// text in between.
#[derive(Debug)]
pub struct TextSpan {
    pub start: usize,
    pub end: usize,
    pub literal: String,
}

/// The mathematical value of a `TextSpan`.
pub ghost struct SpanView {
    pub start: int,
    pub end: int,
    pub literal: Seq<char>,
}

impl View for TextSpan {
    type V = SpanView;

    open spec fn view(&self) -> SpanView {
        SpanView { start: self.start as int, end: self.end as int, literal: self.literal@ }
    }
}

impl TextSpan {
    pub fn new(start: usize, end: usize, literal: String) -> (r: TextSpan)
        ensures
            r@ == (SpanView { start: start as int, end: end as int, literal: literal@ }),
    {
        TextSpan { start, end, literal }
    }

    /// An exact copy.
    pub fn duplicate(&self) -> (r: TextSpan)
        ensures
            r@ == self@,
    {
        TextSpan { start: self.start, end: self.end, literal: self.literal.clone() }
    }
}

/// A token: a kind plus the span it came from.
#[derive(Debug)]
pub struct Token {
    pub kind: TokenKind,
    pub span: TextSpan,
}

/// The mathematical value of a `Token`.
pub ghost struct TokenView {
    pub kind: TokenKind,
    pub span: SpanView,
}

impl View for Token {
    type V = TokenView;

    open spec fn view(&self) -> TokenView {
        TokenView { kind: self.kind, span: self.span@ }
    }
}

impl Token {
    pub fn new(kind: TokenKind, span: TextSpan) -> (r: Token)
        ensures
            r@ == (TokenView { kind, span: span@ }),
    {
        Token { kind, span }
    }

    /// An exact copy.
    pub fn duplicate(&self) -> (r: Token)
        ensures
            r@ == self@,
    {
        Token { kind: self.kind, span: self.span.duplicate() }
    }
}

/// The token kind produced for a single punctuation or operator character;
/// anything unknown becomes `Bad`.
pub open spec fn spec_punct(c: char) -> TokenKind {
    if c == '+' { TokenKind::Plus }
    else if c == '-' { TokenKind::Minus }
    else if c == '*' { TokenKind::Astrisk }
    else if c == '/' { TokenKind::Slash }
    else if c == '=' { TokenKind::Equal }
    else if c == '|' { TokenKind::BitwiseOR }
    else if c == '&' { TokenKind::BitwiseAND }
    else if c == '^' { TokenKind::BitwiseXOR }
    else if c == '~' { TokenKind::BitwiseNOT }
    else if c == '!' { TokenKind::ExclemationMark }
    else if c == '(' { TokenKind::LeftParen }
    else if c == ')' { TokenKind::RightParen }
    else if c == '[' { TokenKind::LeftBracket }
    else if c == ']' { TokenKind::RightBracket }
    else if c == '<' { TokenKind::LeftAngleBracket }
    else if c == '>' { TokenKind::RightAngleBracket }
    else if c == '{' { TokenKind::LeftBrace }
    else if c == '}' { TokenKind::RightBrace }
    else if c == ',' { TokenKind::Comma }
    else if c == ';' { TokenKind::SemiColon }
    else { TokenKind::Bad }
}

fn punct_kind(c: char) -> (r: TokenKind)
    ensures
        r == spec_punct(c),
{
    if c == '+' { TokenKind::Plus }
    else if c == '-' { TokenKind::Minus }
    else if c == '*' { TokenKind::Astrisk }
    else if c == '/' { TokenKind::Slash }
    else if c == '=' { TokenKind::Equal }
    else if c == '|' { TokenKind::BitwiseOR }
    else if c == '&' { TokenKind::BitwiseAND }
    else if c == '^' { TokenKind::BitwiseXOR }
    else if c == '~' { TokenKind::BitwiseNOT }
    else if c == '!' { TokenKind::ExclemationMark }
    else if c == '(' { TokenKind::LeftParen }
    else if c == ')' { TokenKind::RightParen }
    else if c == '[' { TokenKind::LeftBracket }
    else if c == ']' { TokenKind::RightBracket }
    else if c == '<' { TokenKind::LeftAngleBracket }
    else if c == '>' { TokenKind::RightAngleBracket }
    else if c == '{' { TokenKind::LeftBrace }
    else if c == '}' { TokenKind::RightBrace }
    else if c == ',' { TokenKind::Comma }
    else if c == ';' { TokenKind::SemiColon }
    else { TokenKind::Bad }
}

/// Keyword reclassification for an identifier's text.
pub open spec fn spec_keyword(lit: Seq<char>) -> TokenKind {
    if lit == "let"@ { TokenKind::Let }
    else if lit == "func"@ { TokenKind::Func }
    else if lit == "return"@ { TokenKind::Return }
    else { TokenKind::Identifier }
}

fn keyword_kind(lit: &str) -> (r: TokenKind)
    ensures
        r == spec_keyword(lit@),
{
    if str_eq(lit, "let") { TokenKind::Let }
    else if str_eq(lit, "func") { TokenKind::Func }
    else if str_eq(lit, "return") { TokenKind::Return }
    else { TokenKind::Identifier }
}

/// The end of the maximal run of alphanumeric or underscore characters
/// starting at `i`.
pub open spec fn spec_ident_end(s: Seq<char>, i: int) -> int
    decreases s.len() - i,
{
    if 0 <= i < s.len() && (alphanumeric(s[i]) || s[i] == '_') {
        spec_ident_end(s, i + 1)
    } else {
        i
    }
}

/// The accumulator state of number lexing.
pub ghost struct NumState {
    pub ip: i64,
    pub fp: i64,
    pub div: i64,
    pub oct: bool,
    pub hex: bool,
    pub dot: bool,
}

/// One pass of the digit-accumulation loop, starting at position `i`;
/// returns the position after the literal and the final accumulators.
/// Octal digits bind only in octal mode and hexadecimal digits only in
/// hexadecimal mode; a decimal digit always binds, after the first decimal
/// point into the fractional accumulator; a second decimal point is
/// consumed and ends the literal.  All accumulation wraps on overflow.
pub open spec fn spec_num_loop(s: Seq<char>, i: int, st: NumState) -> (int, NumState)
    decreases s.len() - i,
{
    if i < 0 || i >= s.len() {
        (i, st)
    } else {
        let c = s[i];
        if st.oct && is_oct_digit(c) {
            spec_num_loop(s, i + 1, NumState {
                ip: st.ip.wrapping_mul(8).wrapping_add(digit_val(c)), ..st
            })
        } else if st.hex && is_hex_digit(c) {
            spec_num_loop(s, i + 1, NumState {
                ip: st.ip.wrapping_mul(16).wrapping_add(digit_val(c)), ..st
            })
        } else if is_dec_digit(c) {
            if !st.dot {
                spec_num_loop(s, i + 1, NumState {
                    ip: st.ip.wrapping_mul(10).wrapping_add(digit_val(c)), ..st
                })
            } else {
                spec_num_loop(s, i + 1, NumState {
                    fp: st.fp.wrapping_mul(10).wrapping_add(digit_val(c)),
                    div: st.div.wrapping_mul(10),
                    ..st
                })
            }
        } else if c == '.' {
            if st.dot {
                (i + 1, st)
            } else {
                spec_num_loop(s, i + 1, NumState { dot: true, ..st })
            }
        } else {
            (i, st)
        }
    }
}

/// Number lexing from position `start`: an optional leading `0` selects
/// octal mode and a following `x` hexadecimal mode, then the digit loop
/// runs; the result is a floating kind exactly when a decimal point was
/// seen.
pub open spec fn spec_consume_number(s: Seq<char>, start: int) -> (TokenKind, int) {
    let oct0 = 0 <= start < s.len() && s[start] == '0';
    let i1 = if oct0 { start + 1 } else { start };
    let hex0 = oct0 && 0 <= i1 < s.len() && s[i1] == 'x';
    let i2 = if hex0 { i1 + 1 } else { i1 };
    let st0 = NumState {
        ip: 0,
        fp: 0,
        div: 1,
        oct: oct0 && !hex0,
        hex: hex0,
        dot: false,
    };
    let end_st = spec_num_loop(s, i2, st0);
    let kind = if end_st.1.dot {
        TokenKind::Floating(FloatLiteral {
            whole: end_st.1.ip,
            frac: end_st.1.fp,
            denom: end_st.1.div,
        })
    } else {
        TokenKind::Integer(end_st.1.ip)
    };
    (kind, end_st.0)
}

/// The token for the span at `cursor` in `s`.
pub open spec fn spec_token_at(s: Seq<char>, cursor: int) -> (TokenView, int) {
    let c = s[cursor];
    let kind_end: (TokenKind, int) = if is_dec_digit(c) {
        spec_consume_number(s, cursor)
    } else if alphabetic(c) {
        let e = spec_ident_end(s, cursor + 1);
        (spec_keyword(s.subrange(cursor, e)), e)
    } else if whitespace(c) {
        (TokenKind::Whitespace, cursor + 1)
    } else {
        (spec_punct(c), cursor + 1)
    };
    (TokenView {
        kind: kind_end.0,
        span: SpanView {
            start: cursor,
            end: kind_end.1,
            literal: s.subrange(cursor, kind_end.1),
        },
    }, kind_end.1)
}

/// The digit loop never moves backwards.
pub proof fn lemma_num_loop_ge(s: Seq<char>, i: int, st: NumState)
    ensures
        spec_num_loop(s, i, st).0 >= i,
    decreases s.len() - i,
{
    if i < 0 || i >= s.len() {
    } else {
        let c = s[i];
        if st.oct && is_oct_digit(c) {
            lemma_num_loop_ge(s, i + 1, NumState {
                ip: st.ip.wrapping_mul(8).wrapping_add(digit_val(c)), ..st
            });
        } else if st.hex && is_hex_digit(c) {
            lemma_num_loop_ge(s, i + 1, NumState {
                ip: st.ip.wrapping_mul(16).wrapping_add(digit_val(c)), ..st
            });
        } else if is_dec_digit(c) {
            if !st.dot {
                lemma_num_loop_ge(s, i + 1, NumState {
                    ip: st.ip.wrapping_mul(10).wrapping_add(digit_val(c)), ..st
                });
            } else {
                lemma_num_loop_ge(s, i + 1, NumState {
                    fp: st.fp.wrapping_mul(10).wrapping_add(digit_val(c)),
                    div: st.div.wrapping_mul(10),
                    ..st
                });
            }
        } else if c == '.' {
            if !st.dot {
                lemma_num_loop_ge(s, i + 1, NumState { dot: true, ..st });
            }
        }
    }
}

/// The identifier scan never moves backwards.
pub proof fn lemma_ident_end_ge(s: Seq<char>, i: int)
    ensures
        spec_ident_end(s, i) >= i,
    decreases s.len() - i,
{
    if 0 <= i < s.len() && (alphanumeric(s[i]) || s[i] == '_') {
        lemma_ident_end_ge(s, i + 1);
    }
}

/// Every token inside the text ends strictly past where it starts.
pub proof fn lemma_token_progress(s: Seq<char>, cursor: int)
    requires
        0 <= cursor < s.len(),
    ensures
        spec_token_at(s, cursor).1 > cursor,
        spec_token_at(s, cursor).1 <= s.len(),
{
    let c = s[cursor];
    if is_dec_digit(c) {
        let oct0 = s[cursor] == '0';
        let i1 = if oct0 { cursor + 1 } else { cursor };
        let hex0 = oct0 && 0 <= i1 < s.len() && s[i1] == 'x';
        let i2 = if hex0 { i1 + 1 } else { i1 };
        let st0 = NumState { ip: 0, fp: 0, div: 1, oct: oct0 && !hex0, hex: hex0, dot: false };
        if i2 > cursor {
            lemma_num_loop_ge(s, i2, st0);
        } else {
            lemma_num_loop_ge(s, cursor + 1, NumState {
                ip: st0.ip.wrapping_mul(10).wrapping_add(digit_val(c)), ..st0
            });
        }
        lemma_num_loop_le(s, i2, st0);
    } else if alphabetic(c) {
        lemma_ident_end_ge(s, cursor + 1);
        lemma_ident_end_le(s, cursor + 1);
    }
}

/// The digit loop never leaves the text by more than where it began.
pub proof fn lemma_num_loop_le(s: Seq<char>, i: int, st: NumState)
    requires
        i <= s.len(),
    ensures
        spec_num_loop(s, i, st).0 <= s.len(),
    decreases s.len() - i,
{
    if i < 0 || i >= s.len() {
    } else {
        let c = s[i];
        if st.oct && is_oct_digit(c) {
            lemma_num_loop_le(s, i + 1, NumState {
                ip: st.ip.wrapping_mul(8).wrapping_add(digit_val(c)), ..st
            });
        } else if st.hex && is_hex_digit(c) {
            lemma_num_loop_le(s, i + 1, NumState {
                ip: st.ip.wrapping_mul(16).wrapping_add(digit_val(c)), ..st
            });
        } else if is_dec_digit(c) {
            if !st.dot {
                lemma_num_loop_le(s, i + 1, NumState {
                    ip: st.ip.wrapping_mul(10).wrapping_add(digit_val(c)), ..st
                });
            } else {
                lemma_num_loop_le(s, i + 1, NumState {
                    fp: st.fp.wrapping_mul(10).wrapping_add(digit_val(c)),
                    div: st.div.wrapping_mul(10),
                    ..st
                });
            }
        } else if c == '.' {
            if !st.dot {
                lemma_num_loop_le(s, i + 1, NumState { dot: true, ..st });
            }
        }
    }
}

/// The identifier scan stays inside the text.
pub proof fn lemma_ident_end_le(s: Seq<char>, i: int)
    requires
        i <= s.len(),
    ensures
        spec_ident_end(s, i) <= s.len(),
    decreases s.len() - i,
{
    if 0 <= i < s.len() && (alphanumeric(s[i]) || s[i] == '_') {
        lemma_ident_end_le(s, i + 1);
    }
}

/// The token used to mark the end of the input.
pub open spec fn spec_eof_token() -> TokenView {
    TokenView { kind: TokenKind::Eof, span: SpanView { start: 0, end: 0, literal: "\0"@ } }
}

/// The state of the lexer after one `next_token` step.
pub ghost struct LexStep {
    pub token: Option<TokenView>,
    pub cursor: int,
    pub finished: bool,
}

/// One step of the lexer: `None` after the end-of-input token has been
/// handed out, the end-of-input token at the end of the text, and
/// otherwise the token starting at the cursor.
pub open spec fn spec_next_token(s: Seq<char>, cursor: int, finished: bool) -> LexStep {
    if finished {
        LexStep { token: None, cursor, finished }
    } else if cursor >= s.len() {
        LexStep { token: Some(spec_eof_token()), cursor, finished: true }
    } else {
        let te = spec_token_at(s, cursor);
        LexStep { token: Some(te.0), cursor: te.1, finished: false }
    }
}

/// The lexer: the source text, a character cursor, and whether the
/// end-of-input token has already been produced.
pub struct Lexer {
    input: String,
    cursor: usize,
    finished: bool,
}

impl Lexer {
    /// The cursor never leaves the text.
    pub closed spec fn wf(&self) -> bool {
        self.cursor <= self.input@.len()
    }

    /// The characters of the source text.
    pub closed spec fn text(&self) -> Seq<char> {
        self.input@
    }

    /// The current character position.
    pub closed spec fn at(&self) -> int {
        self.cursor as int
    }

    /// Whether the end-of-input token has been handed out.
    pub closed spec fn done(&self) -> bool {
        self.finished
    }

    pub fn new(input: String) -> (r: Lexer)
        ensures
            r.wf(),
            r.text() == input@,
            r.at() == 0,
            !r.done(),
    {
        Lexer { input, cursor: 0, finished: false }
    }

    fn current_char(&self) -> (c: char)
        requires
            self.wf(),
            self.at() < self.text().len(),
        ensures
            c == self.text()[self.at()],
    {
        self.input.as_str().get_char(self.cursor)
    }

    /// Lexes the number starting at the cursor.
    fn consume_number(&mut self) -> (kind: TokenKind)
        requires
            old(self).wf(),
        ensures
            final(self).wf(),
            final(self).text() == old(self).text(),
            final(self).done() == old(self).done(),
            old(self).at() <= final(self).at(),
            (kind, final(self).at()) == spec_consume_number(old(self).text(), old(self).at()),
    {
        let n = self.input.as_str().unicode_len();
        let mut oct = false;
        let mut hex = false;
        if self.cursor < n && self.current_char() == '0' {
            self.cursor = self.cursor + 1;
            oct = true;
            if self.cursor < n && self.current_char() == 'x' {
                self.cursor = self.cursor + 1;
                hex = true;
                oct = false;
            }
        }
        let ghost s = self.text();
        let ghost i2 = self.at();
        let ghost st0 = NumState { ip: 0, fp: 0, div: 1, oct, hex, dot: false };
        proof {
            assert(old(self).at() <= i2);
        }
        let mut ip: i64 = 0;
        let mut fp: i64 = 0;
        let mut div: i64 = 1;
        let mut dot = false;
        loop
            invariant_except_break
                self.wf(),
                self.text() == s,
                self.done() == old(self).done(),
                n == s.len(),
                i2 <= self.at() <= s.len(),
                spec_num_loop(s, self.at(), NumState { ip, fp, div, oct, hex, dot })
                    == spec_num_loop(s, i2, st0),
            ensures
                self.wf(),
                self.text() == s,
                self.done() == old(self).done(),
                i2 <= self.at(),
                spec_num_loop(s, i2, st0) == (self.at(), NumState { ip, fp, div, oct, hex, dot }),
            decreases s.len() - self.at(),
        {
            if self.cursor >= n {
                break;
            }
            let c = self.current_char();
            if oct && oct_digit(c) {
                ip = ip.wrapping_mul(8).wrapping_add(digit_value(c));
                self.cursor = self.cursor + 1;
            } else if hex && hex_digit(c) {
                ip = ip.wrapping_mul(16).wrapping_add(digit_value(c));
                self.cursor = self.cursor + 1;
            } else if dec_digit(c) {
                if !dot {
                    ip = ip.wrapping_mul(10).wrapping_add(digit_value(c));
                } else {
                    fp = fp.wrapping_mul(10).wrapping_add(digit_value(c));
                    div = div.wrapping_mul(10);
                }
                self.cursor = self.cursor + 1;
            } else if c == '.' {
                self.cursor = self.cursor + 1;
                if dot {
                    break;
                }
                dot = true;
            } else {
                break;
            }
        }
        if dot {
            TokenKind::Floating(FloatLiteral { whole: ip, frac: fp, denom: div })
        } else {
            TokenKind::Integer(ip)
        }
    }

    /// Advances the cursor over the alphanumeric-or-underscore run at the
    /// cursor and returns the identifier text from `start`.
    fn consume_identifier(&mut self, start: usize) -> (lit: String)
        requires
            old(self).wf(),
            start <= old(self).at(),
        ensures
            final(self).wf(),
            final(self).text() == old(self).text(),
            final(self).done() == old(self).done(),
            final(self).at() == spec_ident_end(old(self).text(), old(self).at()),
            old(self).at() <= final(self).at(),
            lit@ == old(self).text().subrange(start as int, final(self).at()),
    {
        let n = self.input.as_str().unicode_len();
        let ghost s = self.text();
        while self.cursor < n
            && (char_alphanumeric(self.input.as_str().get_char(self.cursor))
                || self.input.as_str().get_char(self.cursor) == '_')
            invariant
                self.wf(),
                self.text() == s,
                self.done() == old(self).done(),
                n == s.len(),
                start <= self.cursor,
                old(self).at() <= self.at(),
                spec_ident_end(s, self.at()) == spec_ident_end(s, old(self).at()),
            decreases s.len() - self.at(),
        {
            self.cursor = self.cursor + 1;
        }
        self.input.as_str().substring_char(start, self.cursor).to_owned()
    }

    /// Produces the next token: the token at the cursor, the end-of-input
    /// token once the text is exhausted, and nothing after that.
    pub fn next_token(&mut self) -> (r: Option<Token>)
        requires
            old(self).wf(),
        ensures
            final(self).wf(),
            final(self).text() == old(self).text(),
            ({
                let step = spec_next_token(old(self).text(), old(self).at(), old(self).done());
                &&& final(self).at() == step.cursor
                &&& final(self).done() == step.finished
                &&& match r {
                    Some(t) => step.token == Some(t@),
                    None => step.token is None,
                }
            }),
    {
        if self.finished {
            return None;
        }
        let n = self.input.as_str().unicode_len();
        if self.cursor >= n {
            self.finished = true;
            return Some(Token {
                kind: TokenKind::Eof,
                span: TextSpan { start: 0, end: 0, literal: "\0".to_owned() },
            });
        }
        let start = self.cursor;
        let c = self.current_char();
        let kind: TokenKind;
        if dec_digit(c) {
            kind = self.consume_number();
        } else if char_alphabetic(c) {
            self.cursor = self.cursor + 1;
            let lit = self.consume_identifier(start);
            kind = keyword_kind(lit.as_str());
        } else if char_whitespace(c) {
            self.cursor = self.cursor + 1;
            kind = TokenKind::Whitespace;
        } else {
            self.cursor = self.cursor + 1;
            kind = punct_kind(c);
        }
        let end = self.cursor;
        let literal = self.input.as_str().substring_char(start, end).to_owned();
        Some(Token { kind, span: TextSpan { start, end, literal } })
    }
}

} // verus!
