use vstd::prelude::*;
use crate::text::{digits_value, lemma_digits_value_prefix, is_ascii_digit, is_white_space, syntax_error, syntax_error_text, unicode_alphabetic, unicode_alphanumeric, str_chars, string_from_chars, char_is_whitespace, char_is_alphabetic, char_is_alphanumeric, chars_eq};

verus! {

/// A line and column in the source text, both counted from 1.
#[derive(Debug, Clone, Copy, PartialEq, Eq, Structural)]
pub struct Position {
    pub line: usize,
    pub column: usize,
}

impl Position {
    pub fn new(line: usize, column: usize) -> (r: Self)
        ensures
            r.line == line,
            r.column == column,
    {
        Self { line, column }
    }
}

/// The tokens of SGL. A float literal keeps the digits it was written with.
#[derive(Debug, Clone, PartialEq)]
pub enum Token {
    IntLiteral(i64),
    FloatLiteral(String),
    StringLiteral(String),
    Identifier(String),
    Let,
    Fn,
    If,
    Else,
    While,
    Return,
    Equal,
    EqualEqual,
    Plus,
    Minus,
    Star,
    Slash,
    Percent,
    Lt,
    Gt,
    Le,
    Ge,
    NotEqual,
    AndAnd,
    OrOr,
    Arrow,
    PlusEqual,
    MinusEqual,
    LParen,
    RParen,
    LBrace,
    RBrace,
    LBracket,
    RBracket,
    Comma,
    Colon,
    Semicolon,
    Dot,
    Bang,
    EOF,
}

/// The mathematical value of a token.
pub enum TokenV {
    IntLiteral(i64),
    FloatLiteral(Seq<char>),
    StringLiteral(Seq<char>),
    Identifier(Seq<char>),
    Let,
    Fn,
    If,
    Else,
    While,
    Return,
    Equal,
    EqualEqual,
    Plus,
    Minus,
    Star,
    Slash,
    Percent,
    Lt,
    Gt,
    Le,
    Ge,
    NotEqual,
    AndAnd,
    OrOr,
    Arrow,
    PlusEqual,
    MinusEqual,
    LParen,
    RParen,
    LBrace,
    RBrace,
    LBracket,
    RBracket,
    Comma,
    Colon,
    Semicolon,
    Dot,
    Bang,
    EOF,
}

impl View for Token {
    type V = TokenV;

    open spec fn view(&self) -> TokenV {
        match self {
            Token::IntLiteral(v) => TokenV::IntLiteral(*v),
            Token::FloatLiteral(s) => TokenV::FloatLiteral(s@),
            Token::StringLiteral(s) => TokenV::StringLiteral(s@),
            Token::Identifier(s) => TokenV::Identifier(s@),
            Token::Let => TokenV::Let,
            Token::Fn => TokenV::Fn,
            Token::If => TokenV::If,
            Token::Else => TokenV::Else,
            Token::While => TokenV::While,
            Token::Return => TokenV::Return,
            Token::Equal => TokenV::Equal,
            Token::EqualEqual => TokenV::EqualEqual,
            Token::Plus => TokenV::Plus,
            Token::Minus => TokenV::Minus,
            Token::Star => TokenV::Star,
            Token::Slash => TokenV::Slash,
            Token::Percent => TokenV::Percent,
            Token::Lt => TokenV::Lt,
            Token::Gt => TokenV::Gt,
            Token::Le => TokenV::Le,
            Token::Ge => TokenV::Ge,
            Token::NotEqual => TokenV::NotEqual,
            Token::AndAnd => TokenV::AndAnd,
            Token::OrOr => TokenV::OrOr,
            Token::Arrow => TokenV::Arrow,
            Token::PlusEqual => TokenV::PlusEqual,
            Token::MinusEqual => TokenV::MinusEqual,
            Token::LParen => TokenV::LParen,
            Token::RParen => TokenV::RParen,
            Token::LBrace => TokenV::LBrace,
            Token::RBrace => TokenV::RBrace,
            Token::LBracket => TokenV::LBracket,
            Token::RBracket => TokenV::RBracket,
            Token::Comma => TokenV::Comma,
            Token::Colon => TokenV::Colon,
            Token::Semicolon => TokenV::Semicolon,
            Token::Dot => TokenV::Dot,
            Token::Bang => TokenV::Bang,
            Token::EOF => TokenV::EOF,
        }
    }
}

/// A token and the position of its first character.
#[derive(Debug, Clone, PartialEq)]
pub struct SpannedToken {
    pub token: Token,
    pub pos: Position,
}

pub struct SpannedTokenV {
    pub token: TokenV,
    pub pos: Position,
}

impl View for SpannedToken {
    type V = SpannedTokenV;

    open spec fn view(&self) -> SpannedTokenV {
        SpannedTokenV { token: self.token@, pos: self.pos }
    }
}

/// The line and column of the character at index `i`: lines start at 1 and
/// each newline starts a new one at column 1.
pub open spec fn line_col(s: Seq<char>, i: int) -> (int, int)
    decreases i,
{
    if i <= 0 {
        (1, 1)
    } else {
        let lc = line_col(s, i - 1);
        if s[i - 1] == '\n' {
            (lc.0 + 1, 1)
        } else {
            (lc.0, lc.1 + 1)
        }
    }
}

pub open spec fn pos_at(s: Seq<char>, i: int) -> Position {
    Position { line: line_col(s, i).0 as usize, column: line_col(s, i).1 as usize }
}

/// The index after the newline that ends a line comment whose text starts at
/// `j`, or the end of the input.
pub open spec fn line_comment_end(s: Seq<char>, j: int) -> int
    decreases s.len() - j,
{
    if j >= s.len() {
        j
    } else if s[j] == '\n' {
        j + 1
    } else {
        line_comment_end(s, j + 1)
    }
}

/// The index after the first `*/` at or after `j`.
pub open spec fn block_comment_end(s: Seq<char>, j: int) -> Option<int>
    decreases s.len() - j,
{
    if j < 0 || j >= s.len() {
        None
    } else if s[j] == '*' && j + 1 < s.len() && s[j + 1] == '/' {
        Some(j + 2)
    } else {
        block_comment_end(s, j + 1)
    }
}

pub proof fn lemma_line_comment_end(s: Seq<char>, j: int)
    ensures
        line_comment_end(s, j) >= j,
        j <= s.len() ==> line_comment_end(s, j) <= s.len(),
    decreases s.len() - j,
{
    if j < s.len() && s[j] != '\n' {
        lemma_line_comment_end(s, j + 1);
    }
}

pub proof fn lemma_block_comment_end(s: Seq<char>, j: int)
    ensures
        block_comment_end(s, j) matches Some(k) ==> j + 2 <= k <= s.len(),
    decreases s.len() - j,
{
    if 0 <= j < s.len() && !(s[j] == '*' && j + 1 < s.len() && s[j + 1] == '/') {
        lemma_block_comment_end(s, j + 1);
    }
}

/// The first index at or after `i` that is not white space or inside a
/// comment, or `Err` with the start of an unterminated block comment.
pub open spec fn skip_trivia(s: Seq<char>, i: int) -> Result<int, int>
    decreases s.len() - i,
{
    if i < 0 || i >= s.len() {
        Ok(i)
    } else if is_white_space(s[i]) {
        skip_trivia(s, i + 1)
    } else if s[i] == '/' && i + 1 < s.len() && s[i + 1] == '/' {
        proof {
            lemma_line_comment_end(s, i + 2);
        }
        skip_trivia(s, line_comment_end(s, i + 2))
    } else if s[i] == '/' && i + 1 < s.len() && s[i + 1] == '*' {
        proof {
            lemma_block_comment_end(s, i + 2);
        }
        match block_comment_end(s, i + 2) {
            Some(j) => skip_trivia(s, j),
            None => Err(i),
        }
    } else {
        Ok(i)
    }
}

pub proof fn lemma_skip_trivia(s: Seq<char>, i: int)
    ensures
        0 <= i <= s.len() ==> (skip_trivia(s, i) matches Ok(j) ==> i <= j <= s.len()),
        0 <= i <= s.len() ==> (skip_trivia(s, i) matches Err(k) ==> i <= k < s.len()),
    decreases s.len() - i,
{
    if 0 <= i < s.len() {
        if is_white_space(s[i]) {
            lemma_skip_trivia(s, i + 1);
        } else if s[i] == '/' && i + 1 < s.len() && s[i + 1] == '/' {
            lemma_line_comment_end(s, i + 2);
            lemma_skip_trivia(s, line_comment_end(s, i + 2));
        } else if s[i] == '/' && i + 1 < s.len() && s[i + 1] == '*' {
            lemma_block_comment_end(s, i + 2);
            match block_comment_end(s, i + 2) {
                Some(j) => lemma_skip_trivia(s, j),
                None => {},
            }
        }
    }
}

/// The character that an escape `\e` stands for.
pub open spec fn escape_char(e: char) -> Option<char> {
    if e == '"' {
        Some('"')
    } else if e == '\\' {
        Some('\\')
    } else if e == 'n' {
        Some('\n')
    } else if e == 't' {
        Some('\t')
    } else if e == 'r' {
        Some('\r')
    } else if e == '0' {
        Some('\0')
    } else {
        None
    }
}

/// The message for an escape `\e` that names no character.
pub open spec fn invalid_escape_message(e: char) -> Seq<char> {
    "Invalid escape sequence '"@ + seq!['\u{5c}', e, '\u{27}']
}

/// A failure: the index whose position the message reports, and the message.
pub type LexFail = (int, Seq<char>);

/// The contents of a string literal whose text continues at `k` (its opening
/// quote is at `start`) and the index after the closing quote.
pub open spec fn string_body(s: Seq<char>, start: int, k: int) -> Result<(Seq<char>, int), LexFail>
    decreases s.len() - k,
{
    if k < 0 || k >= s.len() {
        Err((start, "Unterminated string literal"@))
    } else if s[k] == '"' {
        Ok((Seq::empty(), k + 1))
    } else if s[k] == '\\' {
        if k + 1 >= s.len() {
            Err((start, "Unterminated string literal"@))
        } else {
            match escape_char(s[k + 1]) {
                Some(ch) => match string_body(s, start, k + 2) {
                    Ok((rest, j)) => Ok((seq![ch] + rest, j)),
                    Err(e) => Err(e),
                },
                None => Err((k + 1, invalid_escape_message(s[k + 1]))),
            }
        }
    } else {
        match string_body(s, start, k + 1) {
            Ok((rest, j)) => Ok((seq![s[k]] + rest, j)),
            Err(e) => Err(e),
        }
    }
}

pub proof fn lemma_string_body(s: Seq<char>, start: int, k: int)
    ensures
        string_body(s, start, k) matches Ok((b, j)) ==> k < j <= s.len(),
    decreases s.len() - k,
{
    if 0 <= k < s.len() && s[k] != '"' {
        if s[k] == '\\' {
            if k + 1 < s.len() {
                lemma_string_body(s, start, k + 2);
            }
        } else {
            lemma_string_body(s, start, k + 1);
        }
    }
}

/// The code point that an escape letter stands for in a string literal, as
/// Rust writes it: `\t` tab (9), `\n` line feed (10), `\r` carriage return
/// (13), `\0` NUL (0), `\"` the quote (34) and `\\` the backslash (92).
pub open spec fn escape_code(e: char) -> Option<u32> {
    let u = e as u32;
    if u == 0x74 {
        Some(9)
    } else if u == 0x6E {
        Some(10)
    } else if u == 0x72 {
        Some(13)
    } else if u == 0x30 {
        Some(0)
    } else if u == 0x22 {
        Some(34)
    } else if u == 0x5C {
        Some(92)
    } else {
        None
    }
}

/// An escape in a string literal contributes the character it stands for:
/// where the text from `k` is a backslash and a letter, the literal's
/// contents from `k` are that character followed by the contents after the
/// escape; a letter that stands for nothing makes the literal fail there.
pub proof fn lemma_escape_contributes(s: Seq<char>, start: int, k: int)
    requires
        0 <= k,
        k + 1 < s.len(),
        s[k] as u32 == 0x5C,
    ensures
        match escape_code(s[k + 1]) {
            Some(code) => match string_body(s, start, k) {
                Ok((b, j)) => b.len() >= 1 && b[0] as u32 == code && string_body(s, start, k + 2) == Ok::<
                    (Seq<char>, int),
                    LexFail,
                >((b.drop_first(), j)),
                Err(f) => string_body(s, start, k + 2) == Err::<(Seq<char>, int), LexFail>(f),
            },
            None => string_body(s, start, k) is Err,
        },
{
    let e = s[k + 1];
    vstd::utf8::char_u32_cast(e, e as u32);
    assert(s[k] == '\\') by {
        vstd::utf8::char_u32_cast(s[k], s[k] as u32);
        vstd::utf8::char_u32_cast('\\', '\\' as u32);
    }
    assert('\t' as u32 == 9 && '\n' as u32 == 10 && '\r' as u32 == 13 && '\0' as u32 == 0 && '"' as u32 == 34
        && '\\' as u32 == 92 && 't' as u32 == 0x74 && 'n' as u32 == 0x6E && 'r' as u32 == 0x72 && '0' as u32
        == 0x30);
    match string_body(s, start, k + 2) {
        Ok((rest, j)) => {
            if escape_code(e) is Some {
                let b = string_body(s, start, k)->Ok_0.0;
                assert(b.drop_first() =~= rest);
            }
        },
        Err(_) => {},
    }
}

/// Characters other than the quote and the backslash stand for themselves
/// in a string literal: the contents from `k` are the character at `k`
/// followed by the contents from `k + 1`.
pub proof fn lemma_plain_char_contributes(s: Seq<char>, start: int, k: int)
    requires
        0 <= k < s.len(),
        s[k] != '"',
        s[k] != '\\',
    ensures
        match string_body(s, start, k + 1) {
            Ok((rest, j)) => string_body(s, start, k) == Ok::<(Seq<char>, int), LexFail>((seq![s[k]] + rest, j)),
            Err(f) => string_body(s, start, k) == Err::<(Seq<char>, int), LexFail>(f),
        },
{
}

/// The end of a number literal: digits, and dots that a digit follows.
pub open spec fn number_end(s: Seq<char>, k: int) -> int
    decreases s.len() - k,
{
    if 0 <= k < s.len() && is_ascii_digit(s[k]) {
        number_end(s, k + 1)
    } else if 0 <= k < s.len() && s[k] == '.' && k + 1 < s.len() && is_ascii_digit(s[k + 1]) {
        number_end(s, k + 1)
    } else {
        k
    }
}

pub proof fn lemma_number_end(s: Seq<char>, k: int)
    requires
        0 <= k <= s.len(),
    ensures
        k <= number_end(s, k) <= s.len(),
        forall|m: int|
            k <= m < number_end(s, k) ==> is_ascii_digit(#[trigger] s[m]) || s[m] == '.',
    decreases s.len() - k,
{
    if k < s.len() && (is_ascii_digit(s[k]) || (s[k] == '.' && k + 1 < s.len() && is_ascii_digit(
        s[k + 1],
    ))) {
        lemma_number_end(s, k + 1);
    }
}

/// The number of dots in a text.
pub open spec fn count_dots(t: Seq<char>) -> nat
    decreases t.len(),
{
    if t.len() == 0 {
        0
    } else {
        count_dots(t.drop_last()) + if t.last() == '.' { 1nat } else { 0nat }
    }
}

/// The token of a number literal written as `t` at index `i`.
pub open spec fn number_token(t: Seq<char>, i: int) -> Result<TokenV, LexFail> {
    if count_dots(t) == 0 {
        if digits_value(t) <= i64::MAX {
            Ok(TokenV::IntLiteral(digits_value(t) as i64))
        } else {
            Err((i, "Invalid integer literal '"@ + t + seq!['\u{27}']))
        }
    } else if count_dots(t) == 1 {
        Ok(TokenV::FloatLiteral(t))
    } else {
        Err((i, "Malformed float literal '"@ + t + seq!['\u{27}']))
    }
}

/// The end of an identifier: alphanumeric characters and underscores.
pub open spec fn ident_end(s: Seq<char>, k: int) -> int
    decreases s.len() - k,
{
    if 0 <= k < s.len() && (unicode_alphanumeric(s[k]) || s[k] == '_') {
        ident_end(s, k + 1)
    } else {
        k
    }
}

pub proof fn lemma_ident_end(s: Seq<char>, k: int)
    requires
        0 <= k <= s.len(),
    ensures
        k <= ident_end(s, k) <= s.len(),
    decreases s.len() - k,
{
    if k < s.len() && (unicode_alphanumeric(s[k]) || s[k] == '_') {
        lemma_ident_end(s, k + 1);
    }
}

/// The keyword that a word spells, or an identifier.
pub open spec fn word_token(t: Seq<char>) -> TokenV {
    if t == "let"@ {
        TokenV::Let
    } else if t == "fn"@ {
        TokenV::Fn
    } else if t == "if"@ {
        TokenV::If
    } else if t == "else"@ {
        TokenV::Else
    } else if t == "while"@ {
        TokenV::While
    } else if t == "return"@ {
        TokenV::Return
    } else {
        TokenV::Identifier(t)
    }
}

/// A one- or two-character operator starting at `i`, its token and length.
pub open spec fn operator_token(s: Seq<char>, i: int) -> Option<(TokenV, int)> {
    let c = s[i];
    let next_is = |x: char| i + 1 < s.len() && s[i + 1] == x;
    if c == '+' {
        if next_is('=') { Some((TokenV::PlusEqual, 2)) } else { Some((TokenV::Plus, 1)) }
    } else if c == '-' {
        if next_is('>') {
            Some((TokenV::Arrow, 2))
        } else if next_is('=') {
            Some((TokenV::MinusEqual, 2))
        } else {
            Some((TokenV::Minus, 1))
        }
    } else if c == '*' {
        Some((TokenV::Star, 1))
    } else if c == '/' {
        Some((TokenV::Slash, 1))
    } else if c == '%' {
        Some((TokenV::Percent, 1))
    } else if c == '<' {
        if next_is('=') { Some((TokenV::Le, 2)) } else { Some((TokenV::Lt, 1)) }
    } else if c == '>' {
        if next_is('=') { Some((TokenV::Ge, 2)) } else { Some((TokenV::Gt, 1)) }
    } else if c == '=' {
        if next_is('=') { Some((TokenV::EqualEqual, 2)) } else { Some((TokenV::Equal, 1)) }
    } else if c == '!' {
        if next_is('=') { Some((TokenV::NotEqual, 2)) } else { Some((TokenV::Bang, 1)) }
    } else if c == '&' && next_is('&') {
        Some((TokenV::AndAnd, 2))
    } else if c == '|' && next_is('|') {
        Some((TokenV::OrOr, 2))
    } else if c == '(' {
        Some((TokenV::LParen, 1))
    } else if c == ')' {
        Some((TokenV::RParen, 1))
    } else if c == '{' {
        Some((TokenV::LBrace, 1))
    } else if c == '}' {
        Some((TokenV::RBrace, 1))
    } else if c == '[' {
        Some((TokenV::LBracket, 1))
    } else if c == ']' {
        Some((TokenV::RBracket, 1))
    } else if c == ',' {
        Some((TokenV::Comma, 1))
    } else if c == ':' {
        Some((TokenV::Colon, 1))
    } else if c == ';' {
        Some((TokenV::Semicolon, 1))
    } else if c == '.' {
        Some((TokenV::Dot, 1))
    } else {
        None
    }
}

pub open spec fn unrecognized(i: int, c: char) -> LexFail {
    (i, "Unrecognized character '"@ + seq![c, '\u{27}'])
}

/// The token that starts at index `i` and the index after it.
pub open spec fn scan_token(s: Seq<char>, i: int) -> Result<(TokenV, int), LexFail> {
    let c = s[i];
    match operator_token(s, i) {
        Some((t, n)) => Ok((t, i + n)),
        None => if c == '&' || c == '|' {
            Err(unrecognized(i, c))
        } else if c == '"' {
            match string_body(s, i, i + 1) {
                Ok((body, j)) => Ok((TokenV::StringLiteral(body), j)),
                Err(e) => Err(e),
            }
        } else if is_ascii_digit(c) {
            let j = number_end(s, i);
            match number_token(s.subrange(i, j), i) {
                Ok(t) => Ok((t, j)),
                Err(e) => Err(e),
            }
        } else if unicode_alphabetic(c) || c == '_' {
            let j = ident_end(s, i + 1);
            Ok((word_token(s.subrange(i, j)), j))
        } else {
            Err(unrecognized(i, c))
        },
    }
}

pub proof fn lemma_scan_token(s: Seq<char>, i: int)
    requires
        0 <= i < s.len(),
    ensures
        scan_token(s, i) matches Ok((t, j)) ==> i < j <= s.len(),
{
    lemma_string_body(s, i, i + 1);
    lemma_number_end(s, i);
    lemma_ident_end(s, i + 1);
    if is_ascii_digit(s[i]) {
        lemma_number_end(s, i + 1);
    }
}

pub open spec fn block_comment_fail(k: int) -> LexFail {
    (k, "Unterminated block comment"@)
}

/// The tokens from index `i` (after trivia) to the end, closed by `EOF` at
/// the end position.
pub open spec fn lex_from(s: Seq<char>, i: int) -> Result<Seq<SpannedTokenV>, LexFail>
    decreases s.len() - i,
{
    if i < 0 || i >= s.len() {
        Ok(seq![SpannedTokenV { token: TokenV::EOF, pos: pos_at(s, i) }])
    } else {
        proof {
            lemma_scan_token(s, i);
        }
        match scan_token(s, i) {
            Err(e) => Err(e),
            Ok((t, j)) => {
                proof {
                    lemma_skip_trivia(s, j);
                }
                match skip_trivia(s, j) {
                    Err(k) => Err(block_comment_fail(k)),
                    Ok(j2) => match lex_from(s, j2) {
                        Ok(rest) => Ok(seq![SpannedTokenV { token: t, pos: pos_at(s, i) }] + rest),
                        Err(e) => Err(e),
                    },
                }
            },
        }
    }
}

/// The tokens of the text from index `i` on, or the failure that stops them.
pub open spec fn spec_tokenize(s: Seq<char>, i: int) -> Result<Seq<SpannedTokenV>, LexFail> {
    match skip_trivia(s, i) {
        Err(k) => Err(block_comment_fail(k)),
        Ok(j) => lex_from(s, j),
    }
}

/// The message of a failure, as the lexer reports it.
pub open spec fn fail_text(s: Seq<char>, f: LexFail) -> Seq<char> {
    syntax_error_text(line_col(s, f.0).0 as nat, line_col(s, f.0).1 as nat, f.1)
}

pub proof fn lemma_line_col_bound(s: Seq<char>, i: int)
    requires
        0 <= i,
    ensures
        1 <= line_col(s, i).0 <= i + 1,
        1 <= line_col(s, i).1 <= i + 1,
    decreases i,
{
    if i > 0 {
        lemma_line_col_bound(s, i - 1);
    }
}

/// The lexer: the characters of the source and the position reached.
pub struct Lexer {
    chars: Vec<char>,
    index: usize,
    line: usize,
    column: usize,
}

pub fn message(text: &str) -> (r: Vec<char>)
    ensures
        r@ == text@,
{
    str_chars(text)
}

fn escape(e: char) -> (r: Option<char>)
    ensures
        r == escape_char(e),
{
    if e == '"' {
        Some('"')
    } else if e == '\\' {
        Some('\\')
    } else if e == 'n' {
        Some('\n')
    } else if e == 't' {
        Some('\t')
    } else if e == 'r' {
        Some('\r')
    } else if e == '0' {
        Some('\0')
    } else {
        None
    }
}

impl Lexer {
    /// The source text.
    pub closed spec fn text(&self) -> Seq<char> {
        self.chars@
    }

    /// The index of the next character to read.
    pub closed spec fn at(&self) -> int {
        self.index as int
    }

    /// The position fields agree with the index.
    pub closed spec fn inv(&self) -> bool {
        &&& self.index <= self.chars@.len()
        &&& self.chars@.len() <= isize::MAX
        &&& self.line == line_col(self.chars@, self.index as int).0
        &&& self.column == line_col(self.chars@, self.index as int).1
    }

    /// A lexer at the start of `input`.
    pub fn new(input: &str) -> (r: Self)
        ensures
            r.text() == input@,
            r.at() == 0,
            r.inv(),
            r.text().len() <= isize::MAX,
    {
        let chars = str_chars(input);
        Self { chars, index: 0, line: 1, column: 1 }
    }

    fn current_char(&self) -> (r: Option<char>)
        requires
            self.inv(),
        ensures
            r == (if self.at() < self.text().len() { Some(self.text()[self.at()]) } else { None }),
    {
        if self.index < self.chars.len() {
            Some(self.chars[self.index])
        } else {
            None
        }
    }

    fn peek_is(&self, x: char) -> (r: bool)
        requires
            self.inv(),
        ensures
            r == (self.at() + 1 < self.text().len() && self.text()[self.at() + 1] == x),
    {
        self.index < self.chars.len() && self.index + 1 < self.chars.len() && self.chars[self.index + 1] == x
    }

    fn current_is(&self, x: char) -> (r: bool)
        requires
            self.inv(),
        ensures
            r == (self.at() < self.text().len() && self.text()[self.at()] == x),
    {
        self.index < self.chars.len() && self.chars[self.index] == x
    }

    fn current_pos(&self) -> (r: Position)
        requires
            self.inv(),
        ensures
            r == pos_at(self.text(), self.at()),
    {
        Position::new(self.line, self.column)
    }

    fn advance(&mut self) -> (r: Option<char>)
        requires
            old(self).inv(),
        ensures
            final(self).inv(),
            final(self).text() == old(self).text(),
            old(self).at() < old(self).text().len() ==> final(self).at() == old(self).at() + 1 && r
                == Some(old(self).text()[old(self).at()]),
            old(self).at() >= old(self).text().len() ==> final(self).at() == old(self).at() && r
                is None,
    {
        if self.index < self.chars.len() {
            let c = self.chars[self.index];
            proof {
                lemma_line_col_bound(self.chars@, self.index as int);
            }
            self.index = self.index + 1;
            if c == '\n' {
                self.line = self.line + 1;
                self.column = 1;
            } else {
                self.column = self.column + 1;
            }
            Some(c)
        } else {
            None
        }
    }

    fn advance_by(&mut self, n: usize)
        requires
            old(self).inv(),
            old(self).at() + n <= old(self).text().len(),
        ensures
            final(self).inv(),
            final(self).text() == old(self).text(),
            final(self).at() == old(self).at() + n,
    {
        let mut k: usize = 0;
        while k < n
            invariant
                self.inv(),
                self.text() == old(self).text(),
                k <= n,
                self.at() == old(self).at() + k,
                old(self).at() + n <= old(self).text().len(),
            decreases n - k,
        {
            self.advance();
            k = k + 1;
        }
    }

    fn error_here(&self, msg: &[char]) -> (r: String)
        requires
            self.inv(),
        ensures
            r@ == fail_text(self.text(), (self.at(), msg@)),
    {
        syntax_error(self.line, self.column, msg)
    }

    /// Skips white space, line comments and block comments.
    fn skip_whitespace_and_comments(&mut self) -> (r: Result<(), String>)
        requires
            old(self).inv(),
        ensures
            final(self).inv(),
            final(self).text() == old(self).text(),
            match skip_trivia(old(self).text(), old(self).at()) {
                Ok(j) => r is Ok && final(self).at() == j,
                Err(k) => r is Err && r->Err_0@ == fail_text(old(self).text(), block_comment_fail(k)),
            },
    {
        loop
            invariant
                self.inv(),
                self.text() == old(self).text(),
                skip_trivia(self.text(), self.at()) == skip_trivia(old(self).text(), old(self).at()),
            decreases self.text().len() - self.at(),
        {
            let c = match self.current_char() {
                None => {
                    return Ok(());
                },
                Some(c) => c,
            };
            let ghost i0 = self.at();
            proof {
                lemma_line_comment_end(self.text(), i0 + 2);
                lemma_block_comment_end(self.text(), i0 + 2);
            }
            if char_is_whitespace(c) {
                self.advance();
            } else if c == '/' && self.peek_is('/') {
                let ghost from = self.at() + 2;
                self.advance();
                self.advance();
                loop
                    invariant_except_break
                        line_comment_end(self.text(), self.at()) == line_comment_end(self.text(), from),
                    invariant
                        self.inv(),
                        self.text() == old(self).text(),
                        from <= self.at() <= self.text().len(),
                    ensures
                        self.inv(),
                        self.text() == old(self).text(),
                        self.at() == line_comment_end(self.text(), from),
                    decreases self.text().len() - self.at(),
                {
                    match self.current_char() {
                        None => {
                            break;
                        },
                        Some(ch) => {
                            self.advance();
                            if ch == '\n' {
                                break;
                            }
                        },
                    }
                }
            } else if c == '/' && self.peek_is('*') {
                let start_pos = self.current_pos();
                let ghost start = self.at();
                self.advance();
                self.advance();
                let mut closed = false;
                loop
                    invariant_except_break
                        !closed,
                        block_comment_end(self.text(), self.at()) == block_comment_end(
                            self.text(),
                            start + 2,
                        ),
                    invariant
                        self.inv(),
                        self.text() == old(self).text(),
                        start + 2 <= self.at() <= self.text().len(),
                    ensures
                        self.inv(),
                        self.text() == old(self).text(),
                        closed ==> block_comment_end(self.text(), start + 2) == Some(self.at()),
                        !closed ==> block_comment_end(self.text(), start + 2) is None,
                    decreases self.text().len() - self.at(),
                {
                    match self.current_char() {
                        None => {
                            break;
                        },
                        Some(ch) => {
                            if ch == '*' && self.peek_is('/') {
                                self.advance();
                                self.advance();
                                closed = true;
                                break;
                            }
                            self.advance();
                        },
                    }
                }
                if !closed {
                    let msg = message("Unterminated block comment");
                    return Err(syntax_error(start_pos.line, start_pos.column, &msg));
                }
            } else {
                return Ok(());
            }
        }
    }
}

/// A text without dots has no dot at any index.
pub proof fn lemma_count_dots_zero(t: Seq<char>)
    ensures
        count_dots(t) == 0 ==> forall|m: int| 0 <= m < t.len() ==> t[m] != '.',
    decreases t.len(),
{
    if t.len() > 0 && count_dots(t) == 0 {
        lemma_count_dots_zero(t.drop_last());
        assert forall|m: int| 0 <= m < t.len() implies t[m] != '.' by {
            if m < t.len() - 1 {
                assert(t[m] == t.drop_last()[m]);
            }
        }
    }
}

/// The value of a digit string when it fits an `i64`.
fn parse_decimal(num: &Vec<char>) -> (r: Option<i64>)
    requires
        forall|m: int| 0 <= m < num@.len() ==> is_ascii_digit(#[trigger] num@[m]),
    ensures
        match r {
            Some(v) => v as int == digits_value(num@) && digits_value(num@) <= i64::MAX,
            None => digits_value(num@) > i64::MAX,
        },
{
    let mut val: i64 = 0;
    let mut k: usize = 0;
    while k < num.len()
        invariant
            k <= num@.len(),
            forall|m: int| 0 <= m < num@.len() ==> is_ascii_digit(#[trigger] num@[m]),
            val as int == digits_value(num@.take(k as int)),
            0 <= val,
        decreases num@.len() - k,
    {
        let d = (num[k] as u32 - '0' as u32) as i64;
        proof {
            assert(num@.take(k + 1).drop_last() =~= num@.take(k as int));
        }
        if val > (i64::MAX - d) / 10 {
            proof {
                assert(val * 10 + d > i64::MAX) by (nonlinear_arith)
                    requires val > (i64::MAX - d) / 10, 0 <= d <= 9;
                lemma_digits_value_prefix(num@, k + 1);
            }
            return None;
        }
        proof {
            assert(val * 10 + d <= i64::MAX) by (nonlinear_arith)
                requires val <= (i64::MAX - d) / 10, 0 <= d <= 9;
            assert(val * 10 + d >= 0) by (nonlinear_arith)
                requires val >= 0, 0 <= d;
        }
        val = val * 10 + d;
        k = k + 1;
    }
    proof {
        assert(num@.take(num@.len() as int) =~= num@);
    }
    Some(val)
}

/// `prefix`, then `body`, then a closing quote.
fn quoted_message(prefix: &str, body: &[char]) -> (r: Vec<char>)
    ensures
        r@ == prefix@ + body@ + seq!['\u{27}'],
{
    let mut msg = message(prefix);
    let ghost m0 = msg@;
    let mut q: usize = 0;
    while q < body.len()
        invariant
            q <= body@.len(),
            msg@ == m0 + body@.take(q as int),
        decreases body@.len() - q,
    {
        msg.push(body[q]);
        q = q + 1;
        proof {
            assert(body@.take(q as int) =~= body@.take(q - 1).push(body@[q - 1]));
            assert(msg@ =~= m0 + body@.take(q as int));
        }
    }
    msg.push('\u{27}');
    proof {
        assert(body@.take(body@.len() as int) =~= body@);
        assert(msg@ =~= m0 + body@ + seq!['\u{27}']);
    }
    msg
}

impl Lexer {
    fn operator_at(&self) -> (r: Option<(Token, usize)>)
        requires
            self.inv(),
            self.at() < self.text().len(),
        ensures
            match operator_token(self.text(), self.at()) {
                Some((t, n)) => r is Some && r->Some_0.0@ == t && r->Some_0.1 == n,
                None => r is None,
            },
    {
        let c = self.chars[self.index];
        if c == '+' {
            if self.peek_is('=') { Some((Token::PlusEqual, 2)) } else { Some((Token::Plus, 1)) }
        } else if c == '-' {
            if self.peek_is('>') {
                Some((Token::Arrow, 2))
            } else if self.peek_is('=') {
                Some((Token::MinusEqual, 2))
            } else {
                Some((Token::Minus, 1))
            }
        } else if c == '*' {
            Some((Token::Star, 1))
        } else if c == '/' {
            Some((Token::Slash, 1))
        } else if c == '%' {
            Some((Token::Percent, 1))
        } else if c == '<' {
            if self.peek_is('=') { Some((Token::Le, 2)) } else { Some((Token::Lt, 1)) }
        } else if c == '>' {
            if self.peek_is('=') { Some((Token::Ge, 2)) } else { Some((Token::Gt, 1)) }
        } else if c == '=' {
            if self.peek_is('=') { Some((Token::EqualEqual, 2)) } else { Some((Token::Equal, 1)) }
        } else if c == '!' {
            if self.peek_is('=') { Some((Token::NotEqual, 2)) } else { Some((Token::Bang, 1)) }
        } else if c == '&' && self.peek_is('&') {
            Some((Token::AndAnd, 2))
        } else if c == '|' && self.peek_is('|') {
            Some((Token::OrOr, 2))
        } else if c == '(' {
            Some((Token::LParen, 1))
        } else if c == ')' {
            Some((Token::RParen, 1))
        } else if c == '{' {
            Some((Token::LBrace, 1))
        } else if c == '}' {
            Some((Token::RBrace, 1))
        } else if c == '[' {
            Some((Token::LBracket, 1))
        } else if c == ']' {
            Some((Token::RBracket, 1))
        } else if c == ',' {
            Some((Token::Comma, 1))
        } else if c == ':' {
            Some((Token::Colon, 1))
        } else if c == ';' {
            Some((Token::Semicolon, 1))
        } else if c == '.' {
            Some((Token::Dot, 1))
        } else {
            None
        }
    }

    fn scan_string(&mut self) -> (r: Result<Token, String>)
        requires
            old(self).inv(),
            old(self).at() < old(self).text().len(),
            old(self).text()[old(self).at()] == '"',
        ensures
            final(self).inv(),
            final(self).text() == old(self).text(),
            match string_body(old(self).text(), old(self).at(), old(self).at() + 1) {
                Ok((body, j)) => r is Ok && r->Ok_0@ == TokenV::StringLiteral(body) && final(self).at() == j,
                Err(f) => r is Err && r->Err_0@ == fail_text(old(self).text(), f),
            },
    {
        let pos = self.current_pos();
        let ghost start = self.at();
        proof {
            lemma_line_col_bound(self.text(), start);
        }
        self.advance();
        let mut body: Vec<char> = Vec::new();
        loop
            invariant
                self.inv(),
                self.text() == old(self).text(),
                start == old(self).at(),
                pos == pos_at(self.text(), start),
                start < self.at() <= self.text().len(),
                string_body(self.text(), start, start + 1) == match string_body(self.text(), start, self.at()) {
                    Ok((rest, j)) => Ok((body@ + rest, j)),
                    Err(e) => Err::<(Seq<char>, int), LexFail>(e),
                },
            decreases self.text().len() - self.at(),
        {
            let ch = match self.current_char() {
                None => {
                    let msg = message("Unterminated string literal");
                    proof {
                        lemma_line_col_bound(self.text(), start);
                    }
                    return Err(syntax_error(pos.line, pos.column, &msg));
                },
                Some(ch) => ch,
            };
            if ch == '"' {
                self.advance();
                proof {
                    assert(body@ + Seq::<char>::empty() =~= body@);
                }
                return Ok(Token::StringLiteral(string_from_chars(&body)));
            } else if ch == '\\' {
                let ghost k = self.at();
                self.advance();
                let e = match self.current_char() {
                    None => {
                        let msg = message("Unterminated string literal");
                        proof {
                            lemma_line_col_bound(self.text(), start);
                            assert(string_body(self.text(), start, k) == Err::<(Seq<char>, int), LexFail>((start, "Unterminated string literal"@)));
                        }
                        return Err(syntax_error(pos.line, pos.column, &msg));
                    },
                    Some(e) => e,
                };
                match escape(e) {
                    Some(x) => {
                        proof {
                            let rest = string_body(self.text(), start, self.at() + 1);
                            if rest is Ok {
                                assert(body@.push(x) + rest->Ok_0.0 =~= body@ + (seq![x] + rest->Ok_0.0));
                            }
                        }
                        body.push(x);
                        self.advance();
                    },
                    None => {
                        let mut msg = message("Invalid escape sequence '");
                        let ghost m0 = msg@;
                        msg.push('\u{5c}');
                        msg.push(e);
                        msg.push('\u{27}');
                        proof {
                            assert(msg@ =~= m0 + seq!['\u{5c}', e, '\u{27}']);
                        }
                        return Err(self.error_here(&msg));
                    },
                }
            } else {
                proof {
                    let rest = string_body(self.text(), start, self.at() + 1);
                    if rest is Ok {
                        assert(body@.push(ch) + rest->Ok_0.0 =~= body@ + (seq![ch] + rest->Ok_0.0));
                    }
                }
                body.push(ch);
                self.advance();
            }
        }
    }

    fn scan_number(&mut self) -> (r: Result<Token, String>)
        requires
            old(self).inv(),
            old(self).at() < old(self).text().len(),
            is_ascii_digit(old(self).text()[old(self).at()]),
        ensures
            final(self).inv(),
            final(self).text() == old(self).text(),
            ({
                let i = old(self).at();
                let j = number_end(old(self).text(), i);
                match number_token(old(self).text().subrange(i, j), i) {
                    Ok(t) => r is Ok && r->Ok_0@ == t && final(self).at() == j,
                    Err(f) => r is Err && r->Err_0@ == fail_text(old(self).text(), f),
                }
            }),
    {
        let pos = self.current_pos();
        let ghost start = self.at();
        let ghost end = number_end(self.text(), start);
        proof {
            lemma_line_col_bound(self.text(), start);
        }
        proof {
            lemma_number_end(self.text(), start);
        }
        let mut num: Vec<char> = Vec::new();
        let mut dots: usize = 0;
        loop
            invariant
                self.inv(),
                self.text() == old(self).text(),
                start == old(self).at(),
                end == number_end(self.text(), start),
                pos == pos_at(self.text(), start),
                start <= self.at() <= end <= self.text().len(),
                number_end(self.text(), self.at()) == end,
                num@ =~= self.text().subrange(start, self.at()),
                dots == count_dots(num@),
                dots <= num@.len(),
            ensures
                self.at() == end,
            decreases self.text().len() - self.at(),
        {
            let ch = match self.current_char() {
                None => {
                    break;
                },
                Some(ch) => ch,
            };
            let ghost before = num@;
            proof {
                lemma_number_end(self.text(), self.at() + 1);
            }
            if '0' <= ch && ch <= '9' {
                num.push(ch);
                self.advance();
            } else if ch == '.' && self.index + 1 < self.chars.len() && '0' <= self.chars[self.index + 1]
                && self.chars[self.index + 1] <= '9' {
                dots = dots + 1;
                num.push(ch);
                self.advance();
            } else {
                proof {
                    assert(number_end(self.text(), self.at()) == self.at());
                }
                break;
            }
            proof {
                assert(num@.drop_last() =~= before);
            }
        }
        proof {
            lemma_count_dots_zero(num@);
            lemma_line_col_bound(self.text(), start);
            assert(num@ =~= self.text().subrange(start, end));
        }
        if dots == 0 {
            proof {
                assert forall|m: int| 0 <= m < num@.len() implies is_ascii_digit(#[trigger] num@[m]) by {
                    assert(num@[m] == self.text()[start + m]);
                }
            }
            match parse_decimal(&num) {
                Some(v) => Ok(Token::IntLiteral(v)),
                None => {
                    let msg = quoted_message("Invalid integer literal '", &num);
                    Err(syntax_error(pos.line, pos.column, &msg))
                },
            }
        } else if dots == 1 {
            Ok(Token::FloatLiteral(string_from_chars(&num)))
        } else {
            let msg = quoted_message("Malformed float literal '", &num);
            Err(syntax_error(pos.line, pos.column, &msg))
        }
    }

    fn scan_word(&mut self) -> (r: Token)
        requires
            old(self).inv(),
            old(self).at() < old(self).text().len(),
        ensures
            final(self).inv(),
            final(self).text() == old(self).text(),
            ({
                let i = old(self).at();
                let j = ident_end(old(self).text(), i + 1);
                r@ == word_token(old(self).text().subrange(i, j)) && final(self).at() == j
            }),
    {
        let ghost start = self.at();
        let mut ident: Vec<char> = Vec::new();
        let first = self.chars[self.index];
        ident.push(first);
        self.advance();
        proof {
            lemma_ident_end(self.text(), start + 1);
        }
        loop
            invariant
                self.inv(),
                self.text() == old(self).text(),
                start == old(self).at(),
                start < self.at() <= ident_end(self.text(), start + 1),
                ident_end(self.text(), self.at()) == ident_end(self.text(), start + 1),
                ident@ =~= self.text().subrange(start, self.at()),
            ensures
                self.at() == ident_end(self.text(), start + 1),
            decreases self.text().len() - self.at(),
        {
            let ch = match self.current_char() {
                None => {
                    break;
                },
                Some(ch) => ch,
            };
            proof {
                lemma_ident_end(self.text(), self.at() + 1);
            }
            if char_is_alphanumeric(ch) || ch == '_' {
                ident.push(ch);
                self.advance();
            } else {
                proof {
                    assert(ident_end(self.text(), self.at()) == self.at());
                }
                break;
            }
        }
        proof {
            assert(ident@ =~= self.text().subrange(start, ident_end(self.text(), start + 1)));
        }
        if chars_eq(&ident, "let") {
            Token::Let
        } else if chars_eq(&ident, "fn") {
            Token::Fn
        } else if chars_eq(&ident, "if") {
            Token::If
        } else if chars_eq(&ident, "else") {
            Token::Else
        } else if chars_eq(&ident, "while") {
            Token::While
        } else if chars_eq(&ident, "return") {
            Token::Return
        } else {
            Token::Identifier(string_from_chars(&ident))
        }
    }

    fn scan_token(&mut self) -> (r: Result<Token, String>)
        requires
            old(self).inv(),
            old(self).at() < old(self).text().len(),
        ensures
            final(self).inv(),
            final(self).text() == old(self).text(),
            match scan_token(old(self).text(), old(self).at()) {
                Ok((t, j)) => r is Ok && r->Ok_0@ == t && final(self).at() == j,
                Err(f) => r is Err && r->Err_0@ == fail_text(old(self).text(), f),
            },
    {
        let c = self.chars[self.index];
        if let Some((t, n)) = self.operator_at() {
            self.advance_by(n);
            return Ok(t);
        }
        if c == '&' || c == '|' || !(c == '"' || ('0' <= c && c <= '9') || char_is_alphabetic(c) || c == '_') {
            let mut msg = message("Unrecognized character '");
            let ghost m0 = msg@;
            msg.push(c);
            msg.push('\u{27}');
            proof {
                assert(msg@ =~= m0 + seq![c, '\u{27}']);
            }
            return Err(self.error_here(&msg));
        }
        if c == '"' {
            self.scan_string()
        } else if '0' <= c && c <= '9' {
            self.scan_number()
        } else {
            Ok(self.scan_word())
        }
    }

    /// Splits the rest of the source into tokens, each with the position of
    /// its first character, closed by `EOF`; white space and comments
    /// separate tokens.
    pub fn tokenize(&mut self) -> (r: Result<Vec<SpannedToken>, String>)
        requires
            old(self).inv(),
        ensures
            final(self).inv(),
            match spec_tokenize(old(self).text(), old(self).at()) {
                Ok(ts) => r is Ok && r->Ok_0@.map_values(|t: SpannedToken| t@) =~= ts,
                Err(f) => r is Err && r->Err_0@ == fail_text(old(self).text(), f),
            },
    {
        let mut tokens: Vec<SpannedToken> = Vec::new();
        proof {
            lemma_skip_trivia(self.text(), self.at());
        }
        self.skip_whitespace_and_comments()?;
        while self.index < self.chars.len()
            invariant
                self.inv(),
                self.text() == old(self).text(),
                old(self).at() <= self.at(),
                spec_tokenize(old(self).text(), old(self).at()) == match lex_from(self.text(), self.at()) {
                    Ok(rest) => Ok(tokens@.map_values(|t: SpannedToken| t@) + rest),
                    Err(e) => Err::<Seq<SpannedTokenV>, LexFail>(e),
                },
            decreases self.text().len() - self.at(),
        {
            let pos = self.current_pos();
            let ghost i = self.at();
            proof {
                lemma_scan_token(self.text(), i);
            }
            let tok = self.scan_token()?;
            let ghost j = self.at();
            proof {
                lemma_skip_trivia(self.text(), j);
            }
            let ghost before = tokens@.map_values(|t: SpannedToken| t@);
            tokens.push(SpannedToken { token: tok, pos });
            proof {
                let after = tokens@.map_values(|t: SpannedToken| t@);
                assert(after =~= before.push(SpannedTokenV { token: tok@, pos: pos_at(self.text(), i) }));
                match skip_trivia(self.text(), j) {
                    Ok(j2) => match lex_from(self.text(), j2) {
                        Ok(rest) => {
                            assert(before + (seq![SpannedTokenV { token: tok@, pos: pos_at(self.text(), i) }] + rest) =~= after + rest);
                        },
                        Err(_) => {},
                    },
                    Err(_) => {},
                }
            }
            self.skip_whitespace_and_comments()?;
        }
        let eof_pos = self.current_pos();
        let ghost before = tokens@.map_values(|t: SpannedToken| t@);
        tokens.push(SpannedToken { token: Token::EOF, pos: eof_pos });
        proof {
            assert(tokens@.map_values(|t: SpannedToken| t@) =~= before + seq![SpannedTokenV { token: TokenV::EOF, pos: pos_at(self.text(), self.at()) }]);
        }
        Ok(tokens)
    }
}
} // verus!
