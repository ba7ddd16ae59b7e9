//! The scanner: source text to a flat sequence of positioned tokens.
//!
//! Scanning is a single left-to-right pass with one character of lookahead.
//! Two-character operators are maximal-munch; `//` comments and whitespace
//! are skipped; newlines advance the line counter. The scanner records
//! every lexical error it meets and keeps going, so a scan always produces
//! a token sequence ending in the end-of-input marker; the caller receives
//! the first error, if any. The ghost function [`scan_from`] defines the
//! whole scan, and the executable scanner is proved equal to it.

use vstd::prelude::*;
use vstd::string::StrSliceExecFns;
use vstd::string::StringExecFns;

use crate::error::{Error, ErrorV};
use crate::num::{bits_of_str, num_parse};

verus! {

/// Every kind of token, including the end-of-input marker. Literal values
/// ride in the token's `literal` field, not in the kind.
#[derive(Debug, Clone, Copy, PartialEq, Eq, Structural)]
pub enum TokenType {
    LeftParen,
    RightParen,
    LeftBrace,
    RightBrace,
    Comma,
    Dot,
    Minus,
    Plus,
    Semicolon,
    Slash,
    Star,
    Bang,
    BangEqual,
    Equal,
    EqualEqual,
    Greater,
    GreaterEqual,
    Less,
    LessEqual,
    Identifier,
    QuotedString,
    Number,
    And,
    Class,
    Else,
    False,
    Fun,
    For,
    If,
    Nil,
    Or,
    Print,
    Return,
    Super,
    This,
    True,
    Var,
    While,
    Break,
    Eof,
}

/// The payload of a literal token: number bits or string contents.
#[derive(Debug, PartialEq)]
pub enum TokenLit {
    Num(u64),
    Str(String),
}

/// The ghost value of a [`TokenLit`].
pub enum TokenLitV {
    Num(u64),
    Str(Seq<char>),
}

impl View for TokenLit {
    type V = TokenLitV;

    open spec fn view(&self) -> TokenLitV {
        match self {
            TokenLit::Num(b) => TokenLitV::Num(*b),
            TokenLit::Str(s) => TokenLitV::Str(s@),
        }
    }
}

impl Clone for TokenLit {
    fn clone(&self) -> (r: Self)
        ensures
            r@ == self@,
    {
        match self {
            TokenLit::Num(b) => TokenLit::Num(*b),
            TokenLit::Str(s) => TokenLit::Str(s.clone()),
        }
    }
}

/// A token: its kind, the source text it was scanned from, an optional
/// literal payload, and the line and column it begins at.
#[derive(Debug, PartialEq)]
pub struct Token {
    pub ty: TokenType,
    pub lexeme: String,
    pub literal: Option<TokenLit>,
    pub line: usize,
    pub col: i64,
}

/// The ghost value of a [`Token`].
pub struct TokenS {
    pub ty: TokenType,
    pub lexeme: Seq<char>,
    pub literal: Option<TokenLitV>,
    pub line: int,
    pub col: int,
}

impl View for Token {
    type V = TokenS;

    open spec fn view(&self) -> TokenS {
        TokenS {
            ty: self.ty,
            lexeme: self.lexeme@,
            literal: match self.literal {
                Option::Some(l) => Option::Some(l@),
                Option::None => Option::None,
            },
            line: self.line as int,
            col: self.col as int,
        }
    }
}

impl Clone for Token {
    fn clone(&self) -> (r: Self)
        ensures
            r@ == self@,
    {
        Token {
            ty: self.ty,
            lexeme: self.lexeme.clone(),
            literal: match &self.literal {
                Option::Some(l) => Option::Some(l.clone()),
                Option::None => Option::None,
            },
            line: self.line,
            col: self.col,
        }
    }
}

impl Token {
    /// A bare token of the given kind: no lexeme, no literal, column zero.
    /// The scanner uses it for the end-of-input marker.
    pub fn generate_token(token_type: TokenType, line: usize) -> (r: Token)
        ensures
            r@ == (TokenS {
                ty: token_type,
                lexeme: Seq::<char>::empty(),
                literal: Option::None,
                line: line as int,
                col: 0,
            }),
    {
        Token { ty: token_type, lexeme: String::new(), literal: Option::None, line, col: 0 }
    }
}

/// An ASCII decimal digit.
pub open spec fn is_digit(c: char) -> bool {
    48 <= c as u32 && c as u32 <= 57
}

/// An ASCII letter: the characters an identifier may begin with.
pub open spec fn is_alpha(c: char) -> bool {
    (65 <= c as u32 && c as u32 <= 90) || (97 <= c as u32 && c as u32 <= 122)
}

/// An ASCII letter or underscore: the characters an identifier continues with.
pub open spec fn is_ident_char(c: char) -> bool {
    is_alpha(c) || c as u32 == 95
}

/// Whether `c` has Unicode's Alphabetic property: what `char::is_alphabetic`
/// decides, a function of the character alone whose table takes pages to
/// state.
pub uninterp spec fn char_alphabetic(c: char) -> bool;

/// A character an identifier may begin with: any alphabetic character,
/// ASCII or not. (Identifiers continue with ASCII letters and underscores
/// only; see [`is_ident_char`].)
pub open spec fn is_ident_start(c: char) -> bool {
    is_alpha(c) || char_alphabetic(c)
}

/// Relies on `char::is_alphabetic`: the Unicode Alphabetic property of the
/// character alone.
#[verifier::external_body]
fn ch_is_unicode_alpha(c: char) -> (r: bool)
    ensures
        r == char_alphabetic(c),
{
    c.is_alphabetic()
}

/// The keyword a lexeme spells, if any.
pub open spec fn keyword_ty(s: Seq<char>) -> Option<TokenType> {
    if s == "and"@ {
        Option::Some(TokenType::And)
    } else if s == "class"@ {
        Option::Some(TokenType::Class)
    } else if s == "else"@ {
        Option::Some(TokenType::Else)
    } else if s == "false"@ {
        Option::Some(TokenType::False)
    } else if s == "fun"@ {
        Option::Some(TokenType::Fun)
    } else if s == "for"@ {
        Option::Some(TokenType::For)
    } else if s == "if"@ {
        Option::Some(TokenType::If)
    } else if s == "nil"@ {
        Option::Some(TokenType::Nil)
    } else if s == "or"@ {
        Option::Some(TokenType::Or)
    } else if s == "print"@ {
        Option::Some(TokenType::Print)
    } else if s == "return"@ {
        Option::Some(TokenType::Return)
    } else if s == "super"@ {
        Option::Some(TokenType::Super)
    } else if s == "this"@ {
        Option::Some(TokenType::This)
    } else if s == "true"@ {
        Option::Some(TokenType::True)
    } else if s == "var"@ {
        Option::Some(TokenType::Var)
    } else if s == "while"@ {
        Option::Some(TokenType::While)
    } else if s == "break"@ {
        Option::Some(TokenType::Break)
    } else {
        Option::None
    }
}

/// The index just past the maximal run of digits beginning at `i`.
pub open spec fn digits_end(src: Seq<char>, i: int) -> int
    decreases src.len() - i,
{
    if 0 <= i < src.len() && is_digit(src[i]) {
        digits_end(src, i + 1)
    } else {
        i
    }
}

/// The index just past the maximal run of identifier characters beginning at `i`.
pub open spec fn ident_end(src: Seq<char>, i: int) -> int
    decreases src.len() - i,
{
    if 0 <= i < src.len() && is_ident_char(src[i]) {
        ident_end(src, i + 1)
    } else {
        i
    }
}

/// The index of the next newline at or after `i`, or the end of the input.
pub open spec fn line_end(src: Seq<char>, i: int) -> int
    decreases src.len() - i,
{
    if 0 <= i < src.len() && src[i] != '\n' {
        line_end(src, i + 1)
    } else {
        i
    }
}

/// Walks a string literal's body from `k`: returns the index of the closing
/// quote (or the end of the input), the line counter after the newlines the
/// literal spans, and the index the current line begins at.
pub open spec fn scan_string(src: Seq<char>, k: int, line: int, ls: int) -> (int, int, int)
    decreases src.len() - k,
{
    if 0 <= k < src.len() {
        if src[k] == '"' {
            (k, line, ls)
        } else if src[k] == '\n' {
            scan_string(src, k + 1, line + 1, k + 1)
        } else {
            scan_string(src, k + 1, line, ls)
        }
    } else {
        (k, line, ls)
    }
}

/// What a scan produces: the tokens and the lexical errors, each in source
/// order.
pub struct ScanOut {
    pub toks: Seq<TokenS>,
    pub errs: Seq<ErrorV>,
}

/// Prepends a token to a scan result.
pub open spec fn cons_tok(t: TokenS, rest: ScanOut) -> ScanOut {
    ScanOut { toks: seq![t] + rest.toks, errs: rest.errs }
}

/// Prepends an error to a scan result.
pub open spec fn cons_err(e: ErrorV, rest: ScanOut) -> ScanOut {
    ScanOut { toks: rest.toks, errs: seq![e] + rest.errs }
}

/// A token of `n` characters starting at `i`, with no literal payload.
pub open spec fn plain_tok(src: Seq<char>, i: int, ty: TokenType, n: int, line: int, ls: int) -> TokenS {
    TokenS { ty, lexeme: src.subrange(i, i + n), literal: Option::None, line, col: i - ls }
}

/// The entire scan of `src` from position `i` on, with the current line
/// number and the index that line begins at. Always ends in the
/// end-of-input token.
pub open spec fn scan_from(src: Seq<char>, i: int, line: int, ls: int) -> ScanOut
    decreases src.len() - i
        when 0 <= i
        via scan_from_dec
{
    if i >= src.len() {
        ScanOut {
            toks: seq![
                TokenS {
                    ty: TokenType::Eof,
                    lexeme: Seq::<char>::empty(),
                    literal: Option::None,
                    line,
                    col: 0,
                },
            ],
            errs: seq![],
        }
    } else {
        let c = src[i];
        let col = i - ls;
        if c == '(' {
            cons_tok(plain_tok(src, i, TokenType::LeftParen, 1, line, ls), scan_from(src, i + 1, line, ls))
        } else if c == ')' {
            cons_tok(plain_tok(src, i, TokenType::RightParen, 1, line, ls), scan_from(src, i + 1, line, ls))
        } else if c == '{' {
            cons_tok(plain_tok(src, i, TokenType::LeftBrace, 1, line, ls), scan_from(src, i + 1, line, ls))
        } else if c == '}' {
            cons_tok(plain_tok(src, i, TokenType::RightBrace, 1, line, ls), scan_from(src, i + 1, line, ls))
        } else if c == ',' {
            cons_tok(plain_tok(src, i, TokenType::Comma, 1, line, ls), scan_from(src, i + 1, line, ls))
        } else if c == '.' {
            cons_tok(plain_tok(src, i, TokenType::Dot, 1, line, ls), scan_from(src, i + 1, line, ls))
        } else if c == '-' {
            cons_tok(plain_tok(src, i, TokenType::Minus, 1, line, ls), scan_from(src, i + 1, line, ls))
        } else if c == '+' {
            cons_tok(plain_tok(src, i, TokenType::Plus, 1, line, ls), scan_from(src, i + 1, line, ls))
        } else if c == ';' {
            cons_tok(plain_tok(src, i, TokenType::Semicolon, 1, line, ls), scan_from(src, i + 1, line, ls))
        } else if c == '*' {
            cons_tok(plain_tok(src, i, TokenType::Star, 1, line, ls), scan_from(src, i + 1, line, ls))
        } else if c == '!' {
            if i + 1 < src.len() && src[i + 1] == '=' {
                cons_tok(plain_tok(src, i, TokenType::BangEqual, 2, line, ls), scan_from(src, i + 2, line, ls))
            } else {
                cons_tok(plain_tok(src, i, TokenType::Bang, 1, line, ls), scan_from(src, i + 1, line, ls))
            }
        } else if c == '=' {
            if i + 1 < src.len() && src[i + 1] == '=' {
                cons_tok(plain_tok(src, i, TokenType::EqualEqual, 2, line, ls), scan_from(src, i + 2, line, ls))
            } else {
                cons_tok(plain_tok(src, i, TokenType::Equal, 1, line, ls), scan_from(src, i + 1, line, ls))
            }
        } else if c == '<' {
            if i + 1 < src.len() && src[i + 1] == '=' {
                cons_tok(plain_tok(src, i, TokenType::LessEqual, 2, line, ls), scan_from(src, i + 2, line, ls))
            } else {
                cons_tok(plain_tok(src, i, TokenType::Less, 1, line, ls), scan_from(src, i + 1, line, ls))
            }
        } else if c == '>' {
            if i + 1 < src.len() && src[i + 1] == '=' {
                cons_tok(plain_tok(src, i, TokenType::GreaterEqual, 2, line, ls), scan_from(src, i + 2, line, ls))
            } else {
                cons_tok(plain_tok(src, i, TokenType::Greater, 1, line, ls), scan_from(src, i + 1, line, ls))
            }
        } else if c == '/' {
            if i + 1 < src.len() && src[i + 1] == '/' {
                scan_from(src, line_end(src, i + 2), line, ls)
            } else {
                cons_tok(plain_tok(src, i, TokenType::Slash, 1, line, ls), scan_from(src, i + 1, line, ls))
            }
        } else if c == ' ' || c == '\r' || c == '\t' {
            scan_from(src, i + 1, line, ls)
        } else if c == '\n' {
            scan_from(src, i + 1, line + 1, i + 1)
        } else if c == '"' {
            let (j, line2, ls2) = scan_string(src, i + 1, line, ls);
            if j >= src.len() {
                cons_err(
                    ErrorV::UnterminatedString { line: line2, col },
                    scan_from(src, j, line2, ls2),
                )
            } else {
                let lex = src.subrange(i + 1, j);
                cons_tok(
                    TokenS {
                        ty: TokenType::QuotedString,
                        lexeme: lex,
                        literal: Option::Some(TokenLitV::Str(lex)),
                        line,
                        col,
                    },
                    scan_from(src, j + 1, line2, ls2),
                )
            }
        } else if is_digit(c) {
            let j1 = digits_end(src, i);
            let j2 = if j1 < src.len() && src[j1] == '.' && j1 + 1 < src.len() && is_digit(
                src[j1 + 1],
            ) {
                digits_end(src, j1 + 1)
            } else {
                j1
            };
            let lex = src.subrange(i, j2);
            cons_tok(
                TokenS {
                    ty: TokenType::Number,
                    lexeme: lex,
                    literal: Option::Some(TokenLitV::Num(bits_of_str(lex))),
                    line,
                    col,
                },
                scan_from(src, j2, line, ls),
            )
        } else if is_ident_start(c) {
            let j = ident_end(src, i + 1);
            let lex = src.subrange(i, j);
            let ty = match keyword_ty(lex) {
                Option::Some(t) => t,
                Option::None => TokenType::Identifier,
            };
            cons_tok(
                TokenS { ty, lexeme: lex, literal: Option::None, line, col },
                scan_from(src, j, line, ls),
            )
        } else {
            cons_err(ErrorV::UnexpectedCharacter { line, col }, scan_from(src, i + 1, line, ls))
        }
    }
}

#[via_fn]
proof fn scan_from_dec(src: Seq<char>, i: int, line: int, ls: int) {
    if 0 <= i < src.len() {
        let c = src[i];
        if c == '/' && i + 1 < src.len() && src[i + 1] == '/' {
            lemma_line_end(src, i + 2);
        } else if c == '"' {
            lemma_scan_string(src, i + 1, line, ls);
        } else if is_digit(c) {
            lemma_digits_end(src, i + 1);
            assert(digits_end(src, i) == digits_end(src, i + 1));
            let j1 = digits_end(src, i);
            if j1 < src.len() && src[j1] == '.' && j1 + 1 < src.len() && is_digit(src[j1 + 1]) {
                lemma_digits_end(src, j1 + 1);
            }
        } else if is_ident_start(c) {
            lemma_ident_end(src, i + 1);
        }
    }
}

/// A digit run ends at or after where it begins, and within the input.
pub proof fn lemma_digits_end(src: Seq<char>, i: int)
    requires
        0 <= i <= src.len(),
    ensures
        i <= digits_end(src, i) <= src.len(),
    decreases src.len() - i,
{
    if i < src.len() && is_digit(src[i]) {
        lemma_digits_end(src, i + 1);
    }
}

/// An identifier run ends at or after where it begins, and within the input.
pub proof fn lemma_ident_end(src: Seq<char>, i: int)
    requires
        0 <= i <= src.len(),
    ensures
        i <= ident_end(src, i) <= src.len(),
    decreases src.len() - i,
{
    if i < src.len() && is_ident_char(src[i]) {
        lemma_ident_end(src, i + 1);
    }
}

/// The next newline is at or after the start, and within the input.
pub proof fn lemma_line_end(src: Seq<char>, i: int)
    requires
        0 <= i <= src.len(),
    ensures
        i <= line_end(src, i) <= src.len(),
    decreases src.len() - i,
{
    if i < src.len() && src[i] != '\n' {
        lemma_line_end(src, i + 1);
    }
}

/// Bounds for a string literal walk: the closing index lies between the
/// start and the end of input, and the line bookkeeping stays consistent.
pub proof fn lemma_scan_string(src: Seq<char>, k: int, line: int, ls: int)
    requires
        0 <= k <= src.len(),
    ensures
        ({
            let (j, l2, s2) = scan_string(src, k, line, ls);
            &&& k <= j <= src.len()
            &&& line <= l2
            &&& (line <= k + 1 ==> l2 <= j + 1)
            &&& (0 <= ls <= k ==> 0 <= s2 <= j)
        }),
    decreases src.len() - k,
{
    if k < src.len() {
        if src[k] == '"' {
        } else if src[k] == '\n' {
            lemma_scan_string(src, k + 1, line + 1, k + 1);
        } else {
            lemma_scan_string(src, k + 1, line, ls);
        }
    }
}

/// Scanning is total: from any position it yields a token sequence that is
/// nonempty and ends in the end-of-input marker.
pub proof fn lemma_scan_total_eof(src: Seq<char>, i: int, line: int, ls: int)
    requires
        0 <= i,
        1 <= line <= i + 1,
        0 <= ls <= i,
    ensures
        scan_from(src, i, line, ls).toks.len() >= 1,
        scan_from(src, i, line, ls).toks.last().ty == TokenType::Eof,
    decreases src.len() - i,
{
    if i >= src.len() {
    } else {
        let c = src[i];
        if c == '(' || c == ')' || c == '{' || c == '}' || c == ',' || c == '.' || c == '-' || c
            == '+' || c == ';' || c == '*' {
            lemma_scan_total_eof(src, i + 1, line, ls);
        } else if c == '!' || c == '=' || c == '<' || c == '>' {
            if i + 1 < src.len() && src[i + 1] == '=' {
                lemma_scan_total_eof(src, i + 2, line, ls);
            } else {
                lemma_scan_total_eof(src, i + 1, line, ls);
            }
        } else if c == '/' {
            if i + 1 < src.len() && src[i + 1] == '/' {
                lemma_line_end(src, i + 2);
                lemma_scan_total_eof(src, line_end(src, i + 2), line, ls);
            } else {
                lemma_scan_total_eof(src, i + 1, line, ls);
            }
        } else if c == ' ' || c == '\r' || c == '\t' {
            lemma_scan_total_eof(src, i + 1, line, ls);
        } else if c == '\n' {
            lemma_scan_total_eof(src, i + 1, line + 1, i + 1);
        } else if c == '"' {
            lemma_scan_string(src, i + 1, line, ls);
            let (j, line2, ls2) = scan_string(src, i + 1, line, ls);
            if j >= src.len() {
                lemma_scan_total_eof(src, j, line2, ls2);
            } else {
                lemma_scan_total_eof(src, j + 1, line2, ls2);
            }
        } else if is_digit(c) {
            lemma_digits_end(src, i);
            let j1 = digits_end(src, i);
            let j2 = if j1 < src.len() && src[j1] == '.' && j1 + 1 < src.len() && is_digit(
                src[j1 + 1],
            ) {
                digits_end(src, j1 + 1)
            } else {
                j1
            };
            if j2 != j1 {
                lemma_digits_end(src, j1 + 1);
            }
            lemma_scan_total_eof(src, j2, line, ls);
        } else if is_ident_start(c) {
            lemma_ident_end(src, i + 1);
            lemma_scan_total_eof(src, ident_end(src, i + 1), line, ls);
        } else {
            lemma_scan_total_eof(src, i + 1, line, ls);
        }
    }
}


/// The token views of a token sequence.
pub open spec fn toks_view(ts: Seq<Token>) -> Seq<TokenS> {
    ts.map_values(|t: Token| t@)
}

/// The error views of an error sequence.
pub open spec fn errs_view(es: Seq<Error>) -> Seq<ErrorV> {
    es.map_values(|e: Error| e@)
}

proof fn lemma_push_concat<T>(a: Seq<T>, x: T, b: Seq<T>)
    ensures
        a.push(x) + b == a + (seq![x] + b),
{
    assert(a.push(x) + b =~= a + (seq![x] + b));
}

proof fn lemma_toks_view_push(ts: Seq<Token>, t: Token)
    ensures
        toks_view(ts.push(t)) == toks_view(ts).push(t@),
{
    assert(toks_view(ts.push(t)) =~= toks_view(ts).push(t@));
}

proof fn lemma_errs_view_push(es: Seq<Error>, e: Error)
    ensures
        errs_view(es.push(e)) == errs_view(es).push(e@),
{
    assert(errs_view(es.push(e)) =~= errs_view(es).push(e@));
}

fn ch_is_digit(c: char) -> (r: bool)
    ensures
        r == is_digit(c),
{
    let u = c as u32;
    u >= 48 && u <= 57
}

fn ch_is_alpha(c: char) -> (r: bool)
    ensures
        r == is_alpha(c),
{
    let u = c as u32;
    (u >= 65 && u <= 90) || (u >= 97 && u <= 122)
}

fn ch_is_ident(c: char) -> (r: bool)
    ensures
        r == is_ident_char(c),
{
    let u = c as u32;
    (u >= 65 && u <= 90) || (u >= 97 && u <= 122) || u == 95
}

fn ch_is_ident_start(c: char) -> (r: bool)
    ensures
        r == is_ident_start(c),
{
    ch_is_alpha(c) || ch_is_unicode_alpha(c)
}

/// The keyword a lexeme spells, if any.
fn keyword_lookup(lex: &String) -> (r: Option<TokenType>)
    ensures
        r == keyword_ty(lex@),
{
    if *lex == String::from_str("and") {
        Option::Some(TokenType::And)
    } else if *lex == String::from_str("class") {
        Option::Some(TokenType::Class)
    } else if *lex == String::from_str("else") {
        Option::Some(TokenType::Else)
    } else if *lex == String::from_str("false") {
        Option::Some(TokenType::False)
    } else if *lex == String::from_str("fun") {
        Option::Some(TokenType::Fun)
    } else if *lex == String::from_str("for") {
        Option::Some(TokenType::For)
    } else if *lex == String::from_str("if") {
        Option::Some(TokenType::If)
    } else if *lex == String::from_str("nil") {
        Option::Some(TokenType::Nil)
    } else if *lex == String::from_str("or") {
        Option::Some(TokenType::Or)
    } else if *lex == String::from_str("print") {
        Option::Some(TokenType::Print)
    } else if *lex == String::from_str("return") {
        Option::Some(TokenType::Return)
    } else if *lex == String::from_str("super") {
        Option::Some(TokenType::Super)
    } else if *lex == String::from_str("this") {
        Option::Some(TokenType::This)
    } else if *lex == String::from_str("true") {
        Option::Some(TokenType::True)
    } else if *lex == String::from_str("var") {
        Option::Some(TokenType::Var)
    } else if *lex == String::from_str("while") {
        Option::Some(TokenType::While)
    } else if *lex == String::from_str("break") {
        Option::Some(TokenType::Break)
    } else {
        Option::None
    }
}

/// The scanner's cursor state over a borrowed source text.
#[derive(Debug)]
pub struct Lexer<'a> {
    pub source: &'a str,
    pub len: usize,
    pub tokens: Vec<Token>,
    pub errors: Vec<Error>,
    pub current: usize,
    pub line: usize,
    pub line_start: usize,
}

impl<'a> Lexer<'a> {
    /// The source as a character sequence.
    pub open spec fn src(&self) -> Seq<char> {
        self.source@
    }

    /// The cursor bookkeeping the scanner maintains: the length is the
    /// source's, the cursor and line-start indices are in bounds, and the
    /// line counter never outruns the characters consumed.
    pub open spec fn wf(&self) -> bool {
        &&& self.len == self.source@.len()
        &&& self.source@.len() <= 0x7fff_ffff
        &&& self.current <= self.len
        &&& self.line_start <= self.current
        &&& 1 <= self.line
        &&& self.line <= self.current + 1
    }

    fn find_digits_end(&self, from: usize) -> (r: usize)
        requires
            self.wf(),
            from <= self.len,
        ensures
            from <= r <= self.len,
            r as int == digits_end(self.src(), from as int),
    {
        let mut k = from;
        loop
            invariant
                self.wf(),
                from <= k <= self.len,
                digits_end(self.src(), from as int) == digits_end(self.src(), k as int),
            ensures
                from <= k <= self.len,
                digits_end(self.src(), from as int) == k as int,
            decreases self.len - k,
        {
            if k >= self.len {
                break;
            }
            let c = self.source.get_char(k);
            if !ch_is_digit(c) {
                break;
            }
            proof {
                assert(digits_end(self.src(), k as int) == digits_end(self.src(), k + 1));
            }
            k = k + 1;
        }
        k
    }

    fn find_ident_end(&self, from: usize) -> (r: usize)
        requires
            self.wf(),
            from <= self.len,
        ensures
            from <= r <= self.len,
            r as int == ident_end(self.src(), from as int),
    {
        let mut k = from;
        loop
            invariant
                self.wf(),
                from <= k <= self.len,
                ident_end(self.src(), from as int) == ident_end(self.src(), k as int),
            ensures
                from <= k <= self.len,
                ident_end(self.src(), from as int) == k as int,
            decreases self.len - k,
        {
            if k >= self.len {
                break;
            }
            let c = self.source.get_char(k);
            if !ch_is_ident(c) {
                break;
            }
            proof {
                assert(ident_end(self.src(), k as int) == ident_end(self.src(), k + 1));
            }
            k = k + 1;
        }
        k
    }

    fn find_line_end(&self, from: usize) -> (r: usize)
        requires
            self.wf(),
            from <= self.len,
        ensures
            from <= r <= self.len,
            r as int == line_end(self.src(), from as int),
    {
        let mut k = from;
        loop
            invariant
                self.wf(),
                from <= k <= self.len,
                line_end(self.src(), from as int) == line_end(self.src(), k as int),
            ensures
                from <= k <= self.len,
                line_end(self.src(), from as int) == k as int,
            decreases self.len - k,
        {
            if k >= self.len {
                break;
            }
            let c = self.source.get_char(k);
            if c == '\n' {
                break;
            }
            proof {
                assert(line_end(self.src(), k as int) == line_end(self.src(), k + 1));
            }
            k = k + 1;
        }
        k
    }

    /// Walks a string literal's body; see [`scan_string`].
    pub fn handle_string(&self, k0: usize, line0: usize, ls0: usize) -> (r: (usize, usize, usize))
        requires
            self.wf(),
            k0 <= self.len,
            1 <= line0,
            line0 <= k0 + 1,
            ls0 <= k0,
        ensures
            ({
                let (j, l2, s2) = scan_string(self.src(), k0 as int, line0 as int, ls0 as int);
                &&& r.0 as int == j
                &&& r.1 as int == l2
                &&& r.2 as int == s2
                &&& k0 <= r.0 <= self.len
                &&& 1 <= r.1
                &&& r.1 <= r.0 + 1
                &&& r.2 <= r.0
            }),
    {
        let mut k = k0;
        let mut line = line0;
        let mut ls = ls0;
        loop
            invariant
                self.wf(),
                k0 <= k <= self.len,
                1 <= line,
                line <= k + 1,
                ls <= k,
                scan_string(self.src(), k0 as int, line0 as int, ls0 as int) == scan_string(
                    self.src(),
                    k as int,
                    line as int,
                    ls as int,
                ),
            ensures
                k0 <= k <= self.len,
                1 <= line,
                line <= k + 1,
                ls <= k,
                scan_string(self.src(), k0 as int, line0 as int, ls0 as int) == (
                    k as int,
                    line as int,
                    ls as int,
                ),
            decreases self.len - k,
        {
            if k >= self.len {
                break;
            }
            let c = self.source.get_char(k);
            if c == '"' {
                break;
            }
            if c == '\n' {
                line = line + 1;
                ls = k + 1;
            }
            k = k + 1;
        }
        (k, line, ls)
    }

    fn push_simple(&mut self, ty: TokenType, n: usize)
        requires
            old(self).wf(),
            1 <= n,
            old(self).current + n <= old(self).len,
        ensures
            final(self).wf(),
            final(self).src() == old(self).src(),
            final(self).len == old(self).len,
            final(self).current == old(self).current + n,
            final(self).line == old(self).line,
            final(self).line_start == old(self).line_start,
            final(self).errors == old(self).errors,
            toks_view(final(self).tokens@) == toks_view(old(self).tokens@).push(
                plain_tok(
                    old(self).src(),
                    old(self).current as int,
                    ty,
                    n as int,
                    old(self).line as int,
                    old(self).line_start as int,
                ),
            ),
    {
        let lex = self.source.substring_char(self.current, self.current + n).to_owned();
        let t = Token {
            ty,
            lexeme: lex,
            literal: Option::None,
            line: self.line,
            col: (self.current - self.line_start) as i64,
        };
        proof {
            lemma_toks_view_push(self.tokens@, t);
        }
        self.tokens.push(t);
        self.current = self.current + n;
    }

    /// Scans a single lexical item at the cursor: it advances past one
    /// token, one skipped stretch (whitespace, newline or comment) or one
    /// lexical error, keeping the scan's outcome unchanged.
    pub fn scan_token(&mut self)
        requires
            old(self).wf(),
            old(self).current < old(self).len,
        ensures
            final(self).wf(),
            final(self).src() == old(self).src(),
            final(self).len == old(self).len,
            old(self).current < final(self).current,
            ({
                let src = old(self).src();
                let pre = scan_from(
                    src,
                    old(self).current as int,
                    old(self).line as int,
                    old(self).line_start as int,
                );
                let post = scan_from(
                    src,
                    final(self).current as int,
                    final(self).line as int,
                    final(self).line_start as int,
                );
                &&& toks_view(final(self).tokens@) + post.toks == toks_view(old(self).tokens@)
                    + pre.toks
                &&& errs_view(final(self).errors@) + post.errs == errs_view(old(self).errors@)
                    + pre.errs
            }),
    {
        let ghost src = self.src();
        let ghost i0 = self.current as int;
        let ghost line0 = self.line as int;
        let ghost ls0 = self.line_start as int;
        let ghost pre = scan_from(src, i0, line0, ls0);
        let c = self.source.get_char(self.current);
        match c {
            '(' => {
                self.push_simple(TokenType::LeftParen, 1);
                proof {
                    lemma_push_concat(toks_view(old(self).tokens@), pre.toks[0], scan_from(src, i0 + 1, line0, ls0).toks);
                }
            },
            ')' => {
                self.push_simple(TokenType::RightParen, 1);
                proof {
                    lemma_push_concat(toks_view(old(self).tokens@), pre.toks[0], scan_from(src, i0 + 1, line0, ls0).toks);
                }
            },
            '{' => {
                self.push_simple(TokenType::LeftBrace, 1);
                proof {
                    lemma_push_concat(toks_view(old(self).tokens@), pre.toks[0], scan_from(src, i0 + 1, line0, ls0).toks);
                }
            },
            '}' => {
                self.push_simple(TokenType::RightBrace, 1);
                proof {
                    lemma_push_concat(toks_view(old(self).tokens@), pre.toks[0], scan_from(src, i0 + 1, line0, ls0).toks);
                }
            },
            ',' => {
                self.push_simple(TokenType::Comma, 1);
                proof {
                    lemma_push_concat(toks_view(old(self).tokens@), pre.toks[0], scan_from(src, i0 + 1, line0, ls0).toks);
                }
            },
            '.' => {
                self.push_simple(TokenType::Dot, 1);
                proof {
                    lemma_push_concat(toks_view(old(self).tokens@), pre.toks[0], scan_from(src, i0 + 1, line0, ls0).toks);
                }
            },
            '-' => {
                self.push_simple(TokenType::Minus, 1);
                proof {
                    lemma_push_concat(toks_view(old(self).tokens@), pre.toks[0], scan_from(src, i0 + 1, line0, ls0).toks);
                }
            },
            '+' => {
                self.push_simple(TokenType::Plus, 1);
                proof {
                    lemma_push_concat(toks_view(old(self).tokens@), pre.toks[0], scan_from(src, i0 + 1, line0, ls0).toks);
                }
            },
            ';' => {
                self.push_simple(TokenType::Semicolon, 1);
                proof {
                    lemma_push_concat(toks_view(old(self).tokens@), pre.toks[0], scan_from(src, i0 + 1, line0, ls0).toks);
                }
            },
            '*' => {
                self.push_simple(TokenType::Star, 1);
                proof {
                    lemma_push_concat(toks_view(old(self).tokens@), pre.toks[0], scan_from(src, i0 + 1, line0, ls0).toks);
                }
            },
            '!' => {
                if self.match_next('=') {
                    self.push_simple(TokenType::BangEqual, 2);
                    proof {
                        lemma_push_concat(toks_view(old(self).tokens@), pre.toks[0], scan_from(src, i0 + 2, line0, ls0).toks);
                    }
                } else {
                    self.push_simple(TokenType::Bang, 1);
                    proof {
                        lemma_push_concat(toks_view(old(self).tokens@), pre.toks[0], scan_from(src, i0 + 1, line0, ls0).toks);
                    }
                }
            },
            '=' => {
                if self.match_next('=') {
                    self.push_simple(TokenType::EqualEqual, 2);
                    proof {
                        lemma_push_concat(toks_view(old(self).tokens@), pre.toks[0], scan_from(src, i0 + 2, line0, ls0).toks);
                    }
                } else {
                    self.push_simple(TokenType::Equal, 1);
                    proof {
                        lemma_push_concat(toks_view(old(self).tokens@), pre.toks[0], scan_from(src, i0 + 1, line0, ls0).toks);
                    }
                }
            },
            '<' => {
                if self.match_next('=') {
                    self.push_simple(TokenType::LessEqual, 2);
                    proof {
                        lemma_push_concat(toks_view(old(self).tokens@), pre.toks[0], scan_from(src, i0 + 2, line0, ls0).toks);
                    }
                } else {
                    self.push_simple(TokenType::Less, 1);
                    proof {
                        lemma_push_concat(toks_view(old(self).tokens@), pre.toks[0], scan_from(src, i0 + 1, line0, ls0).toks);
                    }
                }
            },
            '>' => {
                if self.match_next('=') {
                    self.push_simple(TokenType::GreaterEqual, 2);
                    proof {
                        lemma_push_concat(toks_view(old(self).tokens@), pre.toks[0], scan_from(src, i0 + 2, line0, ls0).toks);
                    }
                } else {
                    self.push_simple(TokenType::Greater, 1);
                    proof {
                        lemma_push_concat(toks_view(old(self).tokens@), pre.toks[0], scan_from(src, i0 + 1, line0, ls0).toks);
                    }
                }
            },
            '/' => {
                if self.match_next('/') {
                    let j = self.find_line_end(self.current + 2);
                    self.current = j;
                } else {
                    self.push_simple(TokenType::Slash, 1);
                    proof {
                        lemma_push_concat(toks_view(old(self).tokens@), pre.toks[0], scan_from(src, i0 + 1, line0, ls0).toks);
                    }
                }
            },
            ' ' | '\r' | '\t' => {
                self.current = self.current + 1;
            },
            '\n' => {
                self.line = self.line + 1;
                self.line_start = self.current + 1;
                self.current = self.current + 1;
            },
            '"' => {
                let (j, l2, s2) = self.handle_string(self.current + 1, self.line, self.line_start);
                let col = (self.current - self.line_start) as i64;
                if j >= self.len {
                    let e = Error::UnterminatedString { line: l2, col };
                    proof {
                        lemma_errs_view_push(self.errors@, e);
                    }
                    self.errors.push(e);
                    self.current = j;
                    self.line = l2;
                    self.line_start = s2;
                    proof {
                        lemma_push_concat(
                            errs_view(old(self).errors@),
                            pre.errs[0],
                            scan_from(src, j as int, l2 as int, s2 as int).errs,
                        );
                    }
                } else {
                    let lex = self.source.substring_char(self.current + 1, j).to_owned();
                    let t = Token {
                        ty: TokenType::QuotedString,
                        lexeme: lex.clone(),
                        literal: Option::Some(TokenLit::Str(lex)),
                        line: self.line,
                        col,
                    };
                    proof {
                        lemma_toks_view_push(self.tokens@, t);
                    }
                    self.tokens.push(t);
                    self.current = j + 1;
                    self.line = l2;
                    self.line_start = s2;
                    proof {
                        lemma_push_concat(
                            toks_view(old(self).tokens@),
                            pre.toks[0],
                            scan_from(src, j + 1 as int, l2 as int, s2 as int).toks,
                        );
                    }
                }
            },
            _ => {
                if ch_is_digit(c) {
                    proof {
                        lemma_digits_end(src, i0 + 1);
                        assert(digits_end(src, i0) == digits_end(src, i0 + 1));
                    }
                    let j1 = self.find_digits_end(self.current);
                    let frac = j1 < self.len && self.source.get_char(j1) == '.' && j1 + 1
                        < self.len && ch_is_digit(self.source.get_char(j1 + 1));
                    let j2 = if frac {
                        self.find_digits_end(j1 + 1)
                    } else {
                        j1
                    };
                    let lex = self.source.substring_char(self.current, j2).to_owned();
                    let bits = num_parse(lex.as_str());
                    let t = Token {
                        ty: TokenType::Number,
                        lexeme: lex,
                        literal: Option::Some(TokenLit::Num(bits)),
                        line: self.line,
                        col: (self.current - self.line_start) as i64,
                    };
                    proof {
                        lemma_toks_view_push(self.tokens@, t);
                    }
                    self.tokens.push(t);
                    self.current = j2;
                    proof {
                        lemma_push_concat(
                            toks_view(old(self).tokens@),
                            pre.toks[0],
                            scan_from(src, j2 as int, line0, ls0).toks,
                        );
                    }
                } else if ch_is_ident_start(c) {
                    let j = self.find_ident_end(self.current + 1);
                    let lex = self.source.substring_char(self.current, j).to_owned();
                    let ty = match keyword_lookup(&lex) {
                        Option::Some(t) => t,
                        Option::None => TokenType::Identifier,
                    };
                    let t = Token {
                        ty,
                        lexeme: lex,
                        literal: Option::None,
                        line: self.line,
                        col: (self.current - self.line_start) as i64,
                    };
                    proof {
                        lemma_toks_view_push(self.tokens@, t);
                    }
                    self.tokens.push(t);
                    self.current = j;
                    proof {
                        lemma_push_concat(
                            toks_view(old(self).tokens@),
                            pre.toks[0],
                            scan_from(src, j as int, line0, ls0).toks,
                        );
                    }
                } else {
                    let e = Error::UnexpectedCharacter {
                        line: self.line,
                        col: (self.current - self.line_start) as i64,
                    };
                    proof {
                        lemma_errs_view_push(self.errors@, e);
                    }
                    self.errors.push(e);
                    self.current = self.current + 1;
                    proof {
                        lemma_push_concat(
                            errs_view(old(self).errors@),
                            pre.errs[0],
                            scan_from(src, i0 + 1, line0, ls0).errs,
                        );
                    }
                }
            },
        }
    }

    /// Whether the character after the cursor is `expected` (the scanner's
    /// one-token lookahead for two-character operators).
    pub fn match_next(&self, expected: char) -> (r: bool)
        requires
            self.wf(),
        ensures
            r == (self.current + 1 < self.src().len() && self.src()[self.current + 1]
                == expected),
    {
        if self.current + 1 < self.len {
            self.source.get_char(self.current + 1) == expected
        } else {
            false
        }
    }

    /// Whether the cursor is past the last character.
    pub fn is_at_end(&self) -> (r: bool)
        requires
            self.wf(),
        ensures
            r == (self.current as int >= self.src().len()),
    {
        self.current >= self.len
    }

    /// Scans the whole source: afterwards the token and error vectors hold
    /// exactly what [`scan_from`] assigns to the text, the tokens ending in
    /// the end-of-input marker.
    pub fn scan_tokens(&mut self)
        requires
            old(self).wf(),
            old(self).tokens@.len() == 0,
            old(self).errors@.len() == 0,
            old(self).current == 0,
            old(self).line == 1,
            old(self).line_start == 0,
        ensures
            final(self).src() == old(self).src(),
            toks_view(final(self).tokens@) == scan_from(old(self).src(), 0, 1, 0).toks,
            errs_view(final(self).errors@) == scan_from(old(self).src(), 0, 1, 0).errs,
    {
        let ghost src = self.src();
        let ghost full = scan_from(src, 0, 1, 0);
        loop
            invariant
                self.wf(),
                self.src() == src,
                toks_view(self.tokens@) + scan_from(
                    src,
                    self.current as int,
                    self.line as int,
                    self.line_start as int,
                ).toks == full.toks,
                errs_view(self.errors@) + scan_from(
                    src,
                    self.current as int,
                    self.line as int,
                    self.line_start as int,
                ).errs == full.errs,
            ensures
                self.wf(),
                self.src() == src,
                self.current == self.len,
                toks_view(self.tokens@) + scan_from(
                    src,
                    self.current as int,
                    self.line as int,
                    self.line_start as int,
                ).toks == full.toks,
                errs_view(self.errors@) + scan_from(
                    src,
                    self.current as int,
                    self.line as int,
                    self.line_start as int,
                ).errs == full.errs,
            decreases self.len - self.current,
        {
            if self.is_at_end() {
                break;
            }
            let ghost cur_t = toks_view(self.tokens@);
            let ghost cur_e = errs_view(self.errors@);
            let ghost pre = scan_from(
                src,
                self.current as int,
                self.line as int,
                self.line_start as int,
            );
            self.scan_token();
            proof {
                let post = scan_from(
                    src,
                    self.current as int,
                    self.line as int,
                    self.line_start as int,
                );
                assert(toks_view(self.tokens@) + post.toks == cur_t + pre.toks);
                assert(errs_view(self.errors@) + post.errs == cur_e + pre.errs);
            }
        }
        let t = Token::generate_token(TokenType::Eof, self.line);
        proof {
            lemma_toks_view_push(self.tokens@, t);
            assert(toks_view(self.tokens@).push(t@) =~= toks_view(self.tokens@) + seq![t@]);
        }
        self.tokens.push(t);
    }
}

/// Scans `source` in full. On a clean scan the result is the token
/// sequence, which always ends in the end-of-input marker; otherwise it is
/// the first lexical error, as [`scan_from`] orders them.
pub fn scan(source: &str) -> (r: Result<Vec<Token>, Error>)
    requires
        source@.len() <= 0x7fff_ffff,
    ensures
        ({
            let out = scan_from(source@, 0, 1, 0);
            match r {
                Result::Ok(toks) => {
                    &&& out.errs.len() == 0
                    &&& toks_view(toks@) == out.toks
                    &&& toks@.len() >= 1
                    &&& toks@.last()@.ty == TokenType::Eof
                },
                Result::Err(e) => {
                    &&& out.errs.len() >= 1
                    &&& e@ == out.errs[0]
                },
            }
        }),
{
    let len = source.unicode_len();
    let mut lexer = Lexer {
        source,
        len,
        tokens: Vec::new(),
        errors: Vec::new(),
        current: 0,
        line: 1,
        line_start: 0,
    };
    lexer.scan_tokens();
    proof {
        lemma_scan_total_eof(source@, 0, 1, 0);
    }
    let Lexer { tokens, errors, .. } = lexer;
    let mut errors = errors;
    if errors.len() > 0 {
        Result::Err(errors.remove(0))
    } else {
        Result::Ok(tokens)
    }
}


} // verus!
