//! The Void lexer: source text to a token stream.
//!
//! A number literal keeps the text it was written with; turning that text into
//! a floating-point value is left to the evaluator.
use vstd::prelude::*;

use crate::text::{alnum, alpha, chars_of, decimal, digit, is_alnum, is_alpha, is_digit, push_decimal};

verus! {

pub struct Token {
    pub kind: TokenKind,
    pub line: usize,
}

pub enum TokenKind {
    Ident(String),
    Number(String),
    String(String),
    Use,
    As,
    Let,
    Fn,
    Return,
    If,
    Else,
    While,
    Repeat,
    True,
    False,
    Null,
    LParen,
    RParen,
    LBrace,
    RBrace,
    LBracket,
    RBracket,
    Comma,
    Colon,
    Dot,
    Plus,
    Minus,
    Star,
    Slash,
    Bang,
    Equal,
    EqualEqual,
    BangEqual,
    Less,
    LessEqual,
    Greater,
    GreaterEqual,
    AndAnd,
    OrOr,
    Semicolon,
    Eof,
}

/// The mathematical form of a token kind: text payloads become `Seq<char>`.
pub enum Kind {
    Ident(Seq<char>),
    Number(Seq<char>),
    Str(Seq<char>),
    Use,
    As,
    Let,
    Fn,
    Return,
    If,
    Else,
    While,
    Repeat,
    True,
    False,
    Null,
    LParen,
    RParen,
    LBrace,
    RBrace,
    LBracket,
    RBracket,
    Comma,
    Colon,
    Dot,
    Plus,
    Minus,
    Star,
    Slash,
    Bang,
    Equal,
    EqualEqual,
    BangEqual,
    Less,
    LessEqual,
    Greater,
    GreaterEqual,
    AndAnd,
    OrOr,
    Semicolon,
    Eof,
}

/// The mathematical form of a token.
pub struct Tok {
    pub kind: Kind,
    pub line: nat,
}

impl View for TokenKind {
    type V = Kind;

    open spec fn view(&self) -> Kind {
        match self {
            TokenKind::Ident(s) => Kind::Ident(s@),
            TokenKind::Number(s) => Kind::Number(s@),
            TokenKind::String(s) => Kind::Str(s@),
            TokenKind::Use => Kind::Use,
            TokenKind::As => Kind::As,
            TokenKind::Let => Kind::Let,
            TokenKind::Fn => Kind::Fn,
            TokenKind::Return => Kind::Return,
            TokenKind::If => Kind::If,
            TokenKind::Else => Kind::Else,
            TokenKind::While => Kind::While,
            TokenKind::Repeat => Kind::Repeat,
            TokenKind::True => Kind::True,
            TokenKind::False => Kind::False,
            TokenKind::Null => Kind::Null,
            TokenKind::LParen => Kind::LParen,
            TokenKind::RParen => Kind::RParen,
            TokenKind::LBrace => Kind::LBrace,
            TokenKind::RBrace => Kind::RBrace,
            TokenKind::LBracket => Kind::LBracket,
            TokenKind::RBracket => Kind::RBracket,
            TokenKind::Comma => Kind::Comma,
            TokenKind::Colon => Kind::Colon,
            TokenKind::Dot => Kind::Dot,
            TokenKind::Plus => Kind::Plus,
            TokenKind::Minus => Kind::Minus,
            TokenKind::Star => Kind::Star,
            TokenKind::Slash => Kind::Slash,
            TokenKind::Bang => Kind::Bang,
            TokenKind::Equal => Kind::Equal,
            TokenKind::EqualEqual => Kind::EqualEqual,
            TokenKind::BangEqual => Kind::BangEqual,
            TokenKind::Less => Kind::Less,
            TokenKind::LessEqual => Kind::LessEqual,
            TokenKind::Greater => Kind::Greater,
            TokenKind::GreaterEqual => Kind::GreaterEqual,
            TokenKind::AndAnd => Kind::AndAnd,
            TokenKind::OrOr => Kind::OrOr,
            TokenKind::Semicolon => Kind::Semicolon,
            TokenKind::Eof => Kind::Eof,
        }
    }
}

impl View for Token {
    type V = Tok;

    open spec fn view(&self) -> Tok {
        Tok { kind: self.kind@, line: self.line as nat }
    }
}

pub open spec fn toks(v: Seq<Token>) -> Seq<Tok> {
    v.map_values(|t: Token| t@)
}

pub open spec fn tok(kind: Kind, line: nat) -> Tok {
    Tok { kind, line }
}

// ---------------------------------------------------------------------------
// The token grammar
// ---------------------------------------------------------------------------

/// The kind of a token that is always one character long.
pub open spec fn single_kind(c: char) -> Option<Kind> {
    if c == '(' {
        Some(Kind::LParen)
    } else if c == ')' {
        Some(Kind::RParen)
    } else if c == '{' {
        Some(Kind::LBrace)
    } else if c == '}' {
        Some(Kind::RBrace)
    } else if c == '[' {
        Some(Kind::LBracket)
    } else if c == ']' {
        Some(Kind::RBracket)
    } else if c == ',' {
        Some(Kind::Comma)
    } else if c == ':' {
        Some(Kind::Colon)
    } else if c == '.' {
        Some(Kind::Dot)
    } else if c == '+' {
        Some(Kind::Plus)
    } else if c == '-' {
        Some(Kind::Minus)
    } else if c == '*' {
        Some(Kind::Star)
    } else if c == ';' {
        Some(Kind::Semicolon)
    } else {
        None
    }
}

/// The kind of `c`, or of `c` followed by `=`, for `=`, `!`, `<` and `>`.
pub open spec fn compare_kind(c: char, with_equal: bool) -> Kind {
    if c == '=' {
        if with_equal { Kind::EqualEqual } else { Kind::Equal }
    } else if c == '!' {
        if with_equal { Kind::BangEqual } else { Kind::Bang }
    } else if c == '<' {
        if with_equal { Kind::LessEqual } else { Kind::Less }
    } else {
        if with_equal { Kind::GreaterEqual } else { Kind::Greater }
    }
}

pub open spec fn is_compare_start(c: char) -> bool {
    c == '=' || c == '!' || c == '<' || c == '>'
}

/// A word: a keyword, or else an identifier.
pub open spec fn word_kind(w: Seq<char>) -> Kind {
    if w == seq!['u', 's', 'e'] {
        Kind::Use
    } else if w == seq!['a', 's'] {
        Kind::As
    } else if w == seq!['l', 'e', 't'] {
        Kind::Let
    } else if w == seq!['f', 'n'] {
        Kind::Fn
    } else if w == seq!['r', 'e', 't', 'u', 'r', 'n'] {
        Kind::Return
    } else if w == seq!['i', 'f'] {
        Kind::If
    } else if w == seq!['e', 'l', 's', 'e'] {
        Kind::Else
    } else if w == seq!['w', 'h', 'i', 'l', 'e'] {
        Kind::While
    } else if w == seq!['r', 'e', 'p', 'e', 'a', 't'] {
        Kind::Repeat
    } else if w == seq!['t', 'r', 'u', 'e'] {
        Kind::True
    } else if w == seq!['f', 'a', 'l', 's', 'e'] {
        Kind::False
    } else if w == seq!['n', 'u', 'l', 'l'] {
        Kind::Null
    } else {
        Kind::Ident(w)
    }
}

pub open spec fn ident_start_char(c: char) -> bool {
    is_alpha(c) || c == '_'
}

pub open spec fn ident_part_char(c: char) -> bool {
    is_alnum(c) || c == '_'
}

/// A character that may begin a name.
pub fn is_ident_start(c: char) -> (b: bool)
    ensures
        b == ident_start_char(c),
{
    alpha(c) || c == '_'
}

/// A character that may continue a name.
pub fn is_ident_part(c: char) -> (b: bool)
    ensures
        b == ident_part_char(c),
{
    alnum(c) || c == '_'
}

pub open spec fn is_number_part(c: char) -> bool {
    is_digit(c) || c == '.'
}

/// The end of the run of digits and points that starts at `i`.
pub open spec fn number_end(s: Seq<char>, i: int) -> int
    decreases s.len() - i,
{
    if 0 <= i < s.len() && is_number_part(s[i]) {
        number_end(s, i + 1)
    } else {
        i
    }
}

/// The end of the run of identifier characters that starts at `i`.
pub open spec fn ident_end(s: Seq<char>, i: int) -> int
    decreases s.len() - i,
{
    if 0 <= i < s.len() && ident_part_char(s[i]) {
        ident_end(s, i + 1)
    } else {
        i
    }
}

/// The index of the first newline at or after `i`, or the length of `s`.
pub open spec fn newline_from(s: Seq<char>, i: int) -> int
    decreases s.len() - i,
{
    if 0 <= i < s.len() {
        if s[i] == '\n' {
            i
        } else {
            newline_from(s, i + 1)
        }
    } else {
        s.len() as int
    }
}

/// A number literal is accepted when it holds at most one decimal point.
pub open spec fn number_ok(t: Seq<char>) -> bool {
    forall|a: int, b: int| 0 <= a < b < t.len() ==> !(t[a] == '.' && t[b] == '.')
}

/// The character that `\c` stands for inside a string literal.
pub open spec fn unescape(c: char) -> char {
    if c == 'n' {
        '\n'
    } else if c == 't' {
        '\t'
    } else if c == 'r' {
        '\r'
    } else {
        c
    }
}

/// How far a string literal reaches.
pub struct StrScan {
    pub closed: bool,
    pub end: int,
    pub content: Seq<char>,
    pub line: nat,
}

/// Scans the body of a string literal from `j` (just past the opening quote `q`),
/// having read `acc` so far on line `line`.
pub open spec fn scan_str(s: Seq<char>, j: int, q: char, line: nat, acc: Seq<char>) -> StrScan
    decreases s.len() - j,
{
    if j < 0 || j >= s.len() {
        StrScan { closed: false, end: s.len() as int, content: acc, line }
    } else if s[j] == q {
        StrScan { closed: true, end: j + 1, content: acc, line }
    } else if s[j] == '\\' {
        if j + 1 < s.len() {
            scan_str(s, j + 2, q, line, acc.push(unescape(s[j + 1])))
        } else {
            StrScan { closed: false, end: s.len() as int, content: acc, line }
        }
    } else {
        scan_str(s, j + 1, q, if s[j] == '\n' { line + 1 } else { line }, acc.push(s[j]))
    }
}

pub proof fn lemma_number_end(s: Seq<char>, i: int)
    requires
        0 <= i <= s.len(),
    ensures
        i <= number_end(s, i) <= s.len(),
        i < s.len() && is_number_part(s[i]) ==> i < number_end(s, i),
        forall|k: int| i <= k < number_end(s, i) ==> is_number_part(#[trigger] s[k]),
    decreases s.len() - i,
{
    if i < s.len() && is_number_part(s[i]) {
        lemma_number_end(s, i + 1);
    }
}

pub proof fn lemma_ident_end(s: Seq<char>, i: int)
    requires
        0 <= i <= s.len(),
    ensures
        i <= ident_end(s, i) <= s.len(),
        i < s.len() && ident_part_char(s[i]) ==> i < ident_end(s, i),
    decreases s.len() - i,
{
    if i < s.len() && ident_part_char(s[i]) {
        lemma_ident_end(s, i + 1);
    }
}

pub proof fn lemma_newline_from(s: Seq<char>, i: int)
    requires
        0 <= i <= s.len(),
    ensures
        i <= newline_from(s, i) <= s.len(),
        newline_from(s, i) < s.len() ==> s[newline_from(s, i)] == '\n',
    decreases s.len() - i,
{
    if i < s.len() && s[i] != '\n' {
        lemma_newline_from(s, i + 1);
    }
}

pub proof fn lemma_scan_str(s: Seq<char>, j: int, q: char, line: nat, acc: Seq<char>)
    requires
        0 <= j <= s.len(),
    ensures
        j <= scan_str(s, j, q, line, acc).end <= s.len(),
        scan_str(s, j, q, line, acc).line <= line + (scan_str(s, j, q, line, acc).end - j),
    decreases s.len() - j,
{
    if j < s.len() && s[j] != q {
        if s[j] == '\\' {
            if j + 1 < s.len() {
                lemma_scan_str(s, j + 2, q, line, acc.push(unescape(s[j + 1])));
            }
        } else {
            lemma_scan_str(
                s,
                j + 1,
                q,
                if s[j] == '\n' { line + 1 } else { line },
                acc.push(s[j]),
            );
        }
    }
}

pub open spec fn unexpected_msg(c: char, line: nat) -> Seq<char> {
    "Unexpected character '"@ + seq![c] + "' at line "@ + decimal(line)
}

pub open spec fn unterminated_msg(line: nat) -> Seq<char> {
    "Unterminated string at line "@ + decimal(line)
}

pub open spec fn invalid_number_msg(t: Seq<char>, line: nat) -> Seq<char> {
    "Invalid number '"@ + t + "' at line "@ + decimal(line)
}

/// Lexes `s` from index `i` on line `line`, after the tokens `acc`.
pub open spec fn lex_from(s: Seq<char>, i: int, line: nat, acc: Seq<Tok>) -> Result<
    Seq<Tok>,
    Seq<char>,
>
    decreases s.len() - i,
{
    if i < 0 || i >= s.len() {
        Ok(acc.push(tok(Kind::Eof, line)))
    } else {
        let c = s[i];
        if c == ' ' || c == '\t' || c == '\r' {
            lex_from(s, i + 1, line, acc)
        } else if c == '\n' {
            lex_from(s, i + 1, line + 1, acc.push(tok(Kind::Semicolon, line)))
        } else if c == '/' {
            if i + 1 < s.len() && s[i + 1] == '/' {
                let e = newline_from(s, i + 1);
                proof {
                    lemma_newline_from(s, i + 1);
                }
                if e < s.len() {
                    lex_from(s, e + 1, line + 1, acc.push(tok(Kind::Semicolon, line)))
                } else {
                    lex_from(s, e, line, acc)
                }
            } else {
                lex_from(s, i + 1, line, acc.push(tok(Kind::Slash, line)))
            }
        } else if single_kind(c) is Some {
            lex_from(s, i + 1, line, acc.push(tok(single_kind(c)->0, line)))
        } else if is_compare_start(c) {
            if i + 1 < s.len() && s[i + 1] == '=' {
                lex_from(s, i + 2, line, acc.push(tok(compare_kind(c, true), line)))
            } else {
                lex_from(s, i + 1, line, acc.push(tok(compare_kind(c, false), line)))
            }
        } else if c == '&' || c == '|' {
            if i + 1 < s.len() && s[i + 1] == c {
                lex_from(
                    s,
                    i + 2,
                    line,
                    acc.push(tok(if c == '&' { Kind::AndAnd } else { Kind::OrOr }, line)),
                )
            } else {
                Err(unexpected_msg(c, line))
            }
        } else if c == '"' || c == '\'' {
            let r = scan_str(s, i + 1, c, line, Seq::empty());
            proof {
                lemma_scan_str(s, i + 1, c, line, Seq::empty());
            }
            if !r.closed {
                Err(unterminated_msg(r.line))
            } else {
                lex_from(s, r.end, r.line, acc.push(tok(Kind::Str(r.content), r.line)))
            }
        } else if is_digit(c) {
            let e = number_end(s, i);
            proof {
                lemma_number_end(s, i);
            }
            let t = s.subrange(i, e);
            if number_ok(t) {
                lex_from(s, e, line, acc.push(tok(Kind::Number(t), line)))
            } else {
                Err(invalid_number_msg(t, line))
            }
        } else if ident_start_char(c) {
            let e = ident_end(s, i);
            proof {
                lemma_ident_end(s, i);
            }
            lex_from(s, e, line, acc.push(tok(word_kind(s.subrange(i, e)), line)))
        } else {
            Err(unexpected_msg(c, line))
        }
    }
}

/// The tokens of `s`, or the message of the first error in it.
pub open spec fn lex_spec(s: Seq<char>) -> Result<Seq<Tok>, Seq<char>> {
    lex_from(s, 0, 1, Seq::empty())
}


/// Tokens read so far, up to line `line`: none is `Eof`, every line is at
/// least 1 and at most `line`, and lines never go back.
pub open spec fn ordered_before(t: Seq<Tok>, line: nat) -> bool {
    &&& line >= 1
    &&& forall|i: int| 0 <= i < t.len() ==> !(#[trigger] t[i].kind is Eof)
    &&& forall|i: int| 0 <= i < t.len() ==> 1 <= #[trigger] t[i].line <= line
    &&& forall|i: int, j: int| 0 <= i <= j < t.len() ==> #[trigger] t[i].line <= #[trigger] t[j].line
}

proof fn lemma_ordered_push(t: Seq<Tok>, line: nat, k: Kind, l2: nat, line2: nat)
    requires
        ordered_before(t, line),
        line <= l2 <= line2,
        !(k is Eof),
    ensures
        ordered_before(t.push(tok(k, l2)), line2),
{
    let u = t.push(tok(k, l2));
    assert forall|i: int, j: int| 0 <= i <= j < u.len() implies #[trigger] u[i].line <= #[trigger] u[j].line by {
        if j < t.len() {
            assert(u[i] == t[i] && u[j] == t[j]);
        } else if i < t.len() {
            assert(u[i] == t[i]);
        }
    }
    assert forall|i: int| 0 <= i < u.len() implies !(#[trigger] u[i].kind is Eof) by {
        if i < t.len() {
            assert(u[i] == t[i]);
        }
    }
    assert forall|i: int| 0 <= i < u.len() implies 1 <= #[trigger] u[i].line <= line2 by {
        if i < t.len() {
            assert(u[i] == t[i]);
        }
    }
}

proof fn lemma_scan_str_line(s: Seq<char>, j: int, q: char, line: nat, acc: Seq<char>)
    ensures
        scan_str(s, j, q, line, acc).line >= line,
    decreases s.len() - j,
{
    if 0 <= j < s.len() && s[j] != q {
        if s[j] == '\\' {
            if j + 1 < s.len() {
                lemma_scan_str_line(s, j + 2, q, line, acc.push(unescape(s[j + 1])));
            }
        } else {
            lemma_scan_str_line(
                s,
                j + 1,
                q,
                if s[j] == '\n' { line + 1 } else { line },
                acc.push(s[j]),
            );
        }
    }
}

proof fn lemma_lex_from_ordered(s: Seq<char>, i: int, line: nat, acc: Seq<Tok>)
    requires
        ordered_before(acc, line),
    ensures
        lex_from(s, i, line, acc) matches Ok(t) ==> {
            &&& t.len() > 0
            &&& t.last().kind is Eof
            &&& t.last().line >= line
            &&& ordered_before(t.drop_last(), t.last().line)
        },
    decreases s.len() - i,
{
    if i < 0 || i >= s.len() {
        assert(acc.push(tok(Kind::Eof, line)).drop_last() =~= acc);
    } else {
        let c = s[i];
        if c == ' ' || c == '\t' || c == '\r' {
            lemma_lex_from_ordered(s, i + 1, line, acc);
        } else if c == '\n' {
            lemma_ordered_push(acc, line, Kind::Semicolon, line, line + 1);
            lemma_lex_from_ordered(s, i + 1, line + 1, acc.push(tok(Kind::Semicolon, line)));
        } else if c == '/' {
            if i + 1 < s.len() && s[i + 1] == '/' {
                let e = newline_from(s, i + 1);
                lemma_newline_from(s, i + 1);
                if e < s.len() {
                    lemma_ordered_push(acc, line, Kind::Semicolon, line, line + 1);
                    lemma_lex_from_ordered(s, e + 1, line + 1, acc.push(tok(Kind::Semicolon, line)));
                } else {
                    lemma_lex_from_ordered(s, e, line, acc);
                }
            } else {
                lemma_ordered_push(acc, line, Kind::Slash, line, line);
                lemma_lex_from_ordered(s, i + 1, line, acc.push(tok(Kind::Slash, line)));
            }
        } else if single_kind(c) is Some {
            lemma_ordered_push(acc, line, single_kind(c)->0, line, line);
            lemma_lex_from_ordered(s, i + 1, line, acc.push(tok(single_kind(c)->0, line)));
        } else if is_compare_start(c) {
            let w = i + 1 < s.len() && s[i + 1] == '=';
            lemma_ordered_push(acc, line, compare_kind(c, w), line, line);
            if w {
                lemma_lex_from_ordered(s, i + 2, line, acc.push(tok(compare_kind(c, true), line)));
            } else {
                lemma_lex_from_ordered(s, i + 1, line, acc.push(tok(compare_kind(c, false), line)));
            }
        } else if c == '&' || c == '|' {
            if i + 1 < s.len() && s[i + 1] == c {
                let k = if c == '&' { Kind::AndAnd } else { Kind::OrOr };
                lemma_ordered_push(acc, line, k, line, line);
                lemma_lex_from_ordered(s, i + 2, line, acc.push(tok(k, line)));
            }
        } else if c == '"' || c == '\'' {
            let r = scan_str(s, i + 1, c, line, Seq::empty());
            lemma_scan_str(s, i + 1, c, line, Seq::empty());
            lemma_scan_str_line(s, i + 1, c, line, Seq::empty());
            if r.closed {
                lemma_ordered_push(acc, line, Kind::Str(r.content), r.line, r.line);
                lemma_lex_from_ordered(s, r.end, r.line, acc.push(tok(Kind::Str(r.content), r.line)));
            }
        } else if is_digit(c) {
            let e = number_end(s, i);
            lemma_number_end(s, i);
            let t = s.subrange(i, e);
            if number_ok(t) {
                lemma_ordered_push(acc, line, Kind::Number(t), line, line);
                lemma_lex_from_ordered(s, e, line, acc.push(tok(Kind::Number(t), line)));
            }
        } else if ident_start_char(c) {
            let e = ident_end(s, i);
            lemma_ident_end(s, i);
            let k = word_kind(s.subrange(i, e));
            lemma_ordered_push(acc, line, k, line, line);
            lemma_lex_from_ordered(s, e, line, acc.push(tok(k, line)));
        }
    }
}

/// A text that lexes gives a stream that ends with one `Eof` token and has
/// no other; token lines start at 1 and never go back.
pub proof fn law_tokens_end_with_eof(s: Seq<char>)
    ensures
        lex_spec(s) matches Ok(t) ==> {
            &&& t.len() > 0
            &&& t.last().kind is Eof
            &&& forall|i: int| 0 <= i < t.len() - 1 ==> !(#[trigger] t[i].kind is Eof)
            &&& forall|i: int| 0 <= i < t.len() ==> 1 <= #[trigger] t[i].line
            &&& forall|i: int, j: int|
                0 <= i <= j < t.len() ==> #[trigger] t[i].line <= #[trigger] t[j].line
        },
{
    assert(ordered_before(Seq::<Tok>::empty(), 1));
    lemma_lex_from_ordered(s, 0, 1, Seq::empty());
    if let Ok(t) = lex_spec(s) {
        let d = t.drop_last();
        assert forall|i: int| 0 <= i < t.len() - 1 implies !(#[trigger] t[i].kind is Eof) by {
            assert(t[i] == d[i]);
        }
        assert forall|i: int| 0 <= i < t.len() implies 1 <= #[trigger] t[i].line by {
            if i < t.len() - 1 {
                assert(t[i] == d[i]);
            }
        }
        assert forall|i: int, j: int| 0 <= i <= j < t.len() implies #[trigger] t[i].line
            <= #[trigger] t[j].line by {
            if j < t.len() - 1 {
                assert(t[i] == d[i] && t[j] == d[j]);
            } else if i < t.len() - 1 {
                assert(t[i] == d[i]);
            }
        }
    }
}

/// The number of newlines in `s` from index `i` on.
pub open spec fn newlines_from(s: Seq<char>, i: int) -> nat
    decreases s.len() - i,
{
    if 0 <= i < s.len() {
        (if s[i] == '\n' { 1nat } else { 0nat }) + newlines_from(s, i + 1)
    } else {
        0
    }
}

/// No backslash in `s` stands directly before a newline.
pub open spec fn no_escaped_newline(s: Seq<char>) -> bool {
    forall|k: int| 0 <= k < s.len() - 1 ==> #[trigger] s[k] == '\\' ==> s[k + 1] != '\n'
}

proof fn lemma_newlines_step(s: Seq<char>, i: int)
    requires
        0 <= i < s.len(),
    ensures
        newlines_from(s, i) == (if s[i] == '\n' { 1nat } else { 0nat }) + newlines_from(s, i + 1),
{
}

proof fn lemma_newline_from_count(s: Seq<char>, i: int)
    requires
        0 <= i <= s.len(),
    ensures
        newlines_from(s, i) == newlines_from(s, newline_from(s, i)),
    decreases s.len() - i,
{
    if i < s.len() && s[i] != '\n' {
        lemma_newline_from_count(s, i + 1);
    }
}

proof fn lemma_number_end_count(s: Seq<char>, i: int)
    requires
        0 <= i <= s.len(),
    ensures
        newlines_from(s, i) == newlines_from(s, number_end(s, i)),
    decreases s.len() - i,
{
    if i < s.len() && is_number_part(s[i]) {
        lemma_number_end_count(s, i + 1);
    }
}

proof fn lemma_ident_end_count(s: Seq<char>, i: int)
    requires
        0 <= i <= s.len(),
    ensures
        newlines_from(s, i) == newlines_from(s, ident_end(s, i)),
    decreases s.len() - i,
{
    if i < s.len() && ident_part_char(s[i]) {
        lemma_ident_end_count(s, i + 1);
    }
}

proof fn lemma_scan_str_count(s: Seq<char>, j: int, q: char, line: nat, acc: Seq<char>)
    requires
        0 <= j <= s.len(),
        q != '\n',
    ensures
        scan_str(s, j, q, line, acc).line + newlines_from(s, scan_str(s, j, q, line, acc).end)
            <= line + newlines_from(s, j),
        no_escaped_newline(s) ==> scan_str(s, j, q, line, acc).line + newlines_from(
            s,
            scan_str(s, j, q, line, acc).end,
        ) == line + newlines_from(s, j),
    decreases s.len() - j,
{
    lemma_scan_str(s, j, q, line, acc);
    if j < s.len() {
        lemma_newlines_step(s, j);
    }
    if j < s.len() && s[j] != q {
        if s[j] == '\\' {
            if j + 1 < s.len() {
                lemma_newlines_step(s, j + 1);
                lemma_scan_str_count(s, j + 2, q, line, acc.push(unescape(s[j + 1])));
                assert(s[j] == '\\');
            }
        } else {
            lemma_scan_str_count(
                s,
                j + 1,
                q,
                if s[j] == '\n' { line + 1 } else { line },
                acc.push(s[j]),
            );
        }
    }
}

proof fn lemma_lex_from_lines(s: Seq<char>, i: int, line: nat, acc: Seq<Tok>)
    requires
        0 <= i <= s.len(),
    ensures
        lex_from(s, i, line, acc) matches Ok(t) ==> t.len() > 0 && t.last().line <= line
            + newlines_from(s, i) && (no_escaped_newline(s) ==> t.last().line == line
            + newlines_from(s, i)),
    decreases s.len() - i,
{
    if i < s.len() {
        lemma_newlines_step(s, i);
        if i + 1 < s.len() {
            lemma_newlines_step(s, i + 1);
        }
        let c = s[i];
        if c == ' ' || c == '\t' || c == '\r' {
            lemma_lex_from_lines(s, i + 1, line, acc);
        } else if c == '\n' {
            lemma_lex_from_lines(s, i + 1, line + 1, acc.push(tok(Kind::Semicolon, line)));
        } else if c == '/' {
            if i + 1 < s.len() && s[i + 1] == '/' {
                let e = newline_from(s, i + 1);
                lemma_newline_from(s, i + 1);
                lemma_newline_from_count(s, i + 1);
                if e < s.len() {
                    lemma_lex_from_lines(s, e + 1, line + 1, acc.push(tok(Kind::Semicolon, line)));
                } else {
                    lemma_lex_from_lines(s, e, line, acc);
                }
            } else {
                lemma_lex_from_lines(s, i + 1, line, acc.push(tok(Kind::Slash, line)));
            }
        } else if single_kind(c) is Some {
            lemma_lex_from_lines(s, i + 1, line, acc.push(tok(single_kind(c)->0, line)));
        } else if is_compare_start(c) {
            if i + 1 < s.len() && s[i + 1] == '=' {
                lemma_lex_from_lines(s, i + 2, line, acc.push(tok(compare_kind(c, true), line)));
            } else {
                lemma_lex_from_lines(s, i + 1, line, acc.push(tok(compare_kind(c, false), line)));
            }
        } else if c == '&' || c == '|' {
            if i + 1 < s.len() && s[i + 1] == c {
                let k = if c == '&' { Kind::AndAnd } else { Kind::OrOr };
                lemma_lex_from_lines(s, i + 2, line, acc.push(tok(k, line)));
            }
        } else if c == '"' || c == '\'' {
            let r = scan_str(s, i + 1, c, line, Seq::empty());
            lemma_scan_str(s, i + 1, c, line, Seq::empty());
            lemma_scan_str_count(s, i + 1, c, line, Seq::empty());
            if r.closed {
                lemma_lex_from_lines(s, r.end, r.line, acc.push(tok(Kind::Str(r.content), r.line)));
            }
        } else if is_digit(c) {
            let e = number_end(s, i);
            lemma_number_end(s, i);
            lemma_number_end_count(s, i);
            let t = s.subrange(i, e);
            if number_ok(t) {
                lemma_lex_from_lines(s, e, line, acc.push(tok(Kind::Number(t), line)));
            }
        } else if ident_start_char(c) {
            let e = ident_end(s, i);
            lemma_ident_end(s, i);
            lemma_ident_end_count(s, i);
            let k = word_kind(s.subrange(i, e));
            lemma_lex_from_lines(s, e, line, acc.push(tok(k, line)));
        }
    }
}

/// The `Eof` token of a text that lexes stands on line 1 plus the number of
/// newlines in the text, or earlier; exactly there when no backslash escapes
/// a newline inside a string literal, which is the one newline the lexer
/// does not count.
pub proof fn law_last_line_counts_newlines(s: Seq<char>)
    ensures
        lex_spec(s) matches Ok(t) ==> t.len() > 0 && t.last().line <= 1 + newlines_from(s, 0)
            && (no_escaped_newline(s) ==> t.last().line == 1 + newlines_from(s, 0)),
{
    lemma_lex_from_lines(s, 0, 1, Seq::empty());
}

proof fn lemma_shift_newline_from(p: Seq<char>, s: Seq<char>, i: int)
    requires
        0 <= i <= s.len(),
    ensures
        newline_from(p + s, p.len() + i) == p.len() + newline_from(s, i),
    decreases s.len() - i,
{
    if i < s.len() {
        assert((p + s)[p.len() + i] == s[i]);
        if s[i] != '\n' {
            lemma_shift_newline_from(p, s, i + 1);
        }
    }
}

proof fn lemma_shift_number_end(p: Seq<char>, s: Seq<char>, i: int)
    requires
        0 <= i <= s.len(),
    ensures
        number_end(p + s, p.len() + i) == p.len() + number_end(s, i),
    decreases s.len() - i,
{
    if i < s.len() {
        assert((p + s)[p.len() + i] == s[i]);
        if is_number_part(s[i]) {
            lemma_shift_number_end(p, s, i + 1);
        }
    }
}

proof fn lemma_shift_ident_end(p: Seq<char>, s: Seq<char>, i: int)
    requires
        0 <= i <= s.len(),
    ensures
        ident_end(p + s, p.len() + i) == p.len() + ident_end(s, i),
    decreases s.len() - i,
{
    if i < s.len() {
        assert((p + s)[p.len() + i] == s[i]);
        if ident_part_char(s[i]) {
            lemma_shift_ident_end(p, s, i + 1);
        }
    }
}

proof fn lemma_shift_scan_str(p: Seq<char>, s: Seq<char>, j: int, q: char, line: nat, acc: Seq<char>)
    requires
        0 <= j <= s.len(),
    ensures
        scan_str(p + s, p.len() + j, q, line, acc) == (StrScan {
            end: p.len() + scan_str(s, j, q, line, acc).end,
            ..scan_str(s, j, q, line, acc)
        }),
    decreases s.len() - j,
{
    let u = p + s;
    if j < s.len() {
        assert(u[p.len() + j] == s[j]);
        if j + 1 < s.len() {
            assert(u[p.len() + j + 1] == s[j + 1]);
        }
        if s[j] != q {
            if s[j] == '\\' {
                if j + 1 < s.len() {
                    lemma_shift_scan_str(p, s, j + 2, q, line, acc.push(unescape(s[j + 1])));
                }
            } else {
                lemma_shift_scan_str(
                    p,
                    s,
                    j + 1,
                    q,
                    if s[j] == '\n' { line + 1 } else { line },
                    acc.push(s[j]),
                );
            }
        }
    }
}

/// Lexing from a position depends only on the text from there on.
proof fn lemma_shift_lex_from(p: Seq<char>, s: Seq<char>, i: int, line: nat, acc: Seq<Tok>)
    requires
        0 <= i <= s.len(),
    ensures
        lex_from(p + s, p.len() + i, line, acc) == lex_from(s, i, line, acc),
    decreases s.len() - i,
{
    let u = p + s;
    let n = p.len() as int;
    if i < s.len() {
        let c = s[i];
        assert(u[n + i] == c);
        if i + 1 < s.len() {
            assert(u[n + i + 1] == s[i + 1]);
        }
        if c == ' ' || c == '\t' || c == '\r' {
            lemma_shift_lex_from(p, s, i + 1, line, acc);
        } else if c == '\n' {
            lemma_shift_lex_from(p, s, i + 1, line + 1, acc.push(tok(Kind::Semicolon, line)));
        } else if c == '/' {
            if i + 1 < s.len() && s[i + 1] == '/' {
                let e = newline_from(s, i + 1);
                lemma_newline_from(s, i + 1);
                lemma_shift_newline_from(p, s, i + 1);
                if e < s.len() {
                    lemma_shift_lex_from(p, s, e + 1, line + 1, acc.push(tok(Kind::Semicolon, line)));
                } else {
                    lemma_shift_lex_from(p, s, e, line, acc);
                }
            } else {
                lemma_shift_lex_from(p, s, i + 1, line, acc.push(tok(Kind::Slash, line)));
            }
        } else if single_kind(c) is Some {
            lemma_shift_lex_from(p, s, i + 1, line, acc.push(tok(single_kind(c)->0, line)));
        } else if is_compare_start(c) {
            if i + 1 < s.len() && s[i + 1] == '=' {
                lemma_shift_lex_from(p, s, i + 2, line, acc.push(tok(compare_kind(c, true), line)));
            } else {
                lemma_shift_lex_from(p, s, i + 1, line, acc.push(tok(compare_kind(c, false), line)));
            }
        } else if c == '&' || c == '|' {
            if i + 1 < s.len() && s[i + 1] == c {
                let k = if c == '&' { Kind::AndAnd } else { Kind::OrOr };
                lemma_shift_lex_from(p, s, i + 2, line, acc.push(tok(k, line)));
            }
        } else if c == '"' || c == '\'' {
            let r = scan_str(s, i + 1, c, line, Seq::empty());
            lemma_scan_str(s, i + 1, c, line, Seq::empty());
            lemma_shift_scan_str(p, s, i + 1, c, line, Seq::empty());
            if r.closed {
                lemma_shift_lex_from(p, s, r.end, r.line, acc.push(tok(Kind::Str(r.content), r.line)));
            }
        } else if is_digit(c) {
            let e = number_end(s, i);
            lemma_number_end(s, i);
            lemma_shift_number_end(p, s, i);
            let t = s.subrange(i, e);
            assert(u.subrange(n + i, n + e) =~= t);
            if number_ok(t) {
                lemma_shift_lex_from(p, s, e, line, acc.push(tok(Kind::Number(t), line)));
            }
        } else if ident_start_char(c) {
            let e = ident_end(s, i);
            lemma_ident_end(s, i);
            lemma_shift_ident_end(p, s, i);
            assert(u.subrange(n + i, n + e) =~= s.subrange(i, e));
            let k = word_kind(s.subrange(i, e));
            lemma_shift_lex_from(p, s, e, line, acc.push(tok(k, line)));
        }
    }
}

/// The run of name characters that starts a word `w` ends where `w` does,
/// when a character that cannot continue a name follows it.
proof fn lemma_ident_end_word(x: Seq<char>, w_len: int, i: int)
    requires
        0 <= i <= w_len < x.len(),
        forall|j: int| 0 <= j < w_len ==> ident_part_char(#[trigger] x[j]),
        !ident_part_char(x[w_len]),
    ensures
        ident_end(x, i) == w_len,
    decreases w_len - i,
{
    if i < w_len {
        lemma_ident_end_word(x, w_len, i + 1);
    }
}

/// A tab is a blank like a space: wherever the lexer comes to one, it goes
/// on as it would at a space, and the rest of the text alone decides what
/// follows.
pub proof fn law_tabs_are_blanks(p: Seq<char>, s: Seq<char>, line: nat, acc: Seq<Tok>)
    ensures
        lex_from(p + seq!['\t'] + s, p.len() as int, line, acc) == lex_from(
            p + seq![' '] + s,
            p.len() as int,
            line,
            acc,
        ),
        lex_from(p + seq!['\t'] + s, p.len() as int, line, acc) == lex_from(s, 0, line, acc),
{
    let pt = p + seq!['\t'];
    let ps = p + seq![' '];
    assert((pt + s)[p.len() as int] == '\t');
    assert((ps + s)[p.len() as int] == ' ');
    lemma_shift_lex_from(pt, s, 0, line, acc);
    lemma_shift_lex_from(ps, s, 0, line, acc);
}

/// Leading tabs and spaces change nothing, and a word followed by a tab
/// lexes as the same word followed by a space: in particular `a\tb` gives
/// the tokens of `a b`.
pub proof fn law_tab_separates_like_space(w: Seq<char>, s: Seq<char>)
    ensures
        lex_spec(seq!['\t'] + s) == lex_spec(s),
        lex_spec(seq![' '] + s) == lex_spec(s),
        w.len() > 0 && ident_start_char(w[0]) && (forall|j: int|
            0 <= j < w.len() ==> ident_part_char(#[trigger] w[j])) ==> lex_spec(w + seq!['\t'] + s)
            == lex_spec(w + seq![' '] + s),
{
    law_tabs_are_blanks(Seq::empty(), s, 1, Seq::empty());
    assert(Seq::<char>::empty() + seq!['\t'] + s =~= seq!['\t'] + s);
    assert(Seq::<char>::empty() + seq![' '] + s =~= seq![' '] + s);
    lemma_shift_lex_from(Seq::<char>::empty(), s, 0, 1, Seq::empty());
    assert(Seq::<char>::empty() + s =~= s);
    if w.len() > 0 && ident_start_char(w[0]) && (forall|j: int|
        0 <= j < w.len() ==> ident_part_char(#[trigger] w[j])) {
        let xt = w + seq!['\t'] + s;
        let xs = w + seq![' '] + s;
        let n = w.len() as int;
        assert forall|j: int| 0 <= j < n implies ident_part_char(#[trigger] xt[j]) by {
            assert(xt[j] == w[j]);
        }
        assert forall|j: int| 0 <= j < n implies ident_part_char(#[trigger] xs[j]) by {
            assert(xs[j] == w[j]);
        }
        assert(xt[n] == '\t');
        assert(xs[n] == ' ');
        lemma_ident_end_word(xt, n, 0);
        lemma_ident_end_word(xs, n, 0);
        assert(xt[0] == w[0] && xs[0] == w[0]);
        assert(xt.subrange(0, n) =~= w);
        assert(xs.subrange(0, n) =~= w);
        assert(!is_digit(w[0]));
        let acc = Seq::<Tok>::empty().push(tok(word_kind(w), 1));
        law_tabs_are_blanks(w, s, 1, acc);
    }
}

// ---------------------------------------------------------------------------
// The lexer
// ---------------------------------------------------------------------------

fn emit(out: &mut Vec<Token>, kind: TokenKind, line: usize)
    ensures
        toks(final(out)@) == toks(old(out)@).push(tok(kind@, line as nat)),
{
    let ghost before = out@;
    let t = Token { kind, line };
    out.push(t);
    assert(toks(before.push(t)) =~= toks(before).push(t@));
}

fn single_token(c: char) -> (r: Option<TokenKind>)
    ensures
        match r {
            Some(k) => single_kind(c) == Some(k@),
            None => single_kind(c) is None,
        },
{
    if c == '(' {
        Some(TokenKind::LParen)
    } else if c == ')' {
        Some(TokenKind::RParen)
    } else if c == '{' {
        Some(TokenKind::LBrace)
    } else if c == '}' {
        Some(TokenKind::RBrace)
    } else if c == '[' {
        Some(TokenKind::LBracket)
    } else if c == ']' {
        Some(TokenKind::RBracket)
    } else if c == ',' {
        Some(TokenKind::Comma)
    } else if c == ':' {
        Some(TokenKind::Colon)
    } else if c == '.' {
        Some(TokenKind::Dot)
    } else if c == '+' {
        Some(TokenKind::Plus)
    } else if c == '-' {
        Some(TokenKind::Minus)
    } else if c == '*' {
        Some(TokenKind::Star)
    } else if c == ';' {
        Some(TokenKind::Semicolon)
    } else {
        None
    }
}

fn compare_token(c: char, with_equal: bool) -> (k: TokenKind)
    ensures
        k@ == compare_kind(c, with_equal),
{
    if c == '=' {
        if with_equal {
            TokenKind::EqualEqual
        } else {
            TokenKind::Equal
        }
    } else if c == '!' {
        if with_equal {
            TokenKind::BangEqual
        } else {
            TokenKind::Bang
        }
    } else if c == '<' {
        if with_equal {
            TokenKind::LessEqual
        } else {
            TokenKind::Less
        }
    } else {
        if with_equal {
            TokenKind::GreaterEqual
        } else {
            TokenKind::Greater
        }
    }
}

fn same_word(s: &[char], lo: usize, hi: usize, w: &[char]) -> (b: bool)
    requires
        lo <= hi <= s@.len(),
    ensures
        b == (s@.subrange(lo as int, hi as int) == w@),
{
    if hi - lo != w.len() {
        return false;
    }
    let mut k: usize = 0;
    while k < w.len()
        invariant
            hi - lo == w@.len(),
            lo <= hi <= s@.len(),
            k <= w@.len(),
            forall|j: int| 0 <= j < k ==> s@[lo + j] == w@[j],
        decreases w.len() - k,
    {
        if s[lo + k] != w[k] {
            assert(s@.subrange(lo as int, hi as int)[k as int] != w@[k as int]);
            return false;
        }
        k = k + 1;
    }
    assert(s@.subrange(lo as int, hi as int) =~= w@);
    true
}

fn word_token(s: &[char], lo: usize, hi: usize) -> (k: TokenKind)
    requires
        lo <= hi <= s@.len(),
    ensures
        k@ == word_kind(s@.subrange(lo as int, hi as int)),
{
    if same_word(s, lo, hi, &['u', 's', 'e']) {
        TokenKind::Use
    } else if same_word(s, lo, hi, &['a', 's']) {
        TokenKind::As
    } else if same_word(s, lo, hi, &['l', 'e', 't']) {
        TokenKind::Let
    } else if same_word(s, lo, hi, &['f', 'n']) {
        TokenKind::Fn
    } else if same_word(s, lo, hi, &['r', 'e', 't', 'u', 'r', 'n']) {
        TokenKind::Return
    } else if same_word(s, lo, hi, &['i', 'f']) {
        TokenKind::If
    } else if same_word(s, lo, hi, &['e', 'l', 's', 'e']) {
        TokenKind::Else
    } else if same_word(s, lo, hi, &['w', 'h', 'i', 'l', 'e']) {
        TokenKind::While
    } else if same_word(s, lo, hi, &['r', 'e', 'p', 'e', 'a', 't']) {
        TokenKind::Repeat
    } else if same_word(s, lo, hi, &['t', 'r', 'u', 'e']) {
        TokenKind::True
    } else if same_word(s, lo, hi, &['f', 'a', 'l', 's', 'e']) {
        TokenKind::False
    } else if same_word(s, lo, hi, &['n', 'u', 'l', 'l']) {
        TokenKind::Null
    } else {
        TokenKind::Ident(crate::text::string_of(s, lo, hi))
    }
}

fn number_end_at(s: &[char], i: usize) -> (e: usize)
    requires
        i <= s@.len(),
    ensures
        e == number_end(s@, i as int),
{
    let mut e = i;
    while e < s.len() && (digit(s[e]) || s[e] == '.')
        invariant
            i <= e <= s@.len(),
            number_end(s@, e as int) == number_end(s@, i as int),
        decreases s.len() - e,
    {
        e = e + 1;
    }
    e
}

fn ident_end_at(s: &[char], i: usize) -> (e: usize)
    requires
        i <= s@.len(),
    ensures
        e == ident_end(s@, i as int),
{
    let mut e = i;
    while e < s.len() && is_ident_part(s[e])
        invariant
            i <= e <= s@.len(),
            ident_end(s@, e as int) == ident_end(s@, i as int),
        decreases s.len() - e,
    {
        e = e + 1;
    }
    e
}

fn newline_at(s: &[char], i: usize) -> (e: usize)
    requires
        i <= s@.len(),
    ensures
        e == newline_from(s@, i as int),
{
    let mut e = i;
    while e < s.len() && s[e] != '\n'
        invariant
            i <= e <= s@.len(),
            newline_from(s@, e as int) == newline_from(s@, i as int),
        decreases s.len() - e,
    {
        e = e + 1;
    }
    e
}

fn number_text_ok(s: &[char], lo: usize, hi: usize) -> (b: bool)
    requires
        lo <= hi <= s@.len(),
    ensures
        b == number_ok(s@.subrange(lo as int, hi as int)),
{
    let ghost t = s@.subrange(lo as int, hi as int);
    let mut seen = false;
    let ghost mut dot: int = 0;
    let mut k = lo;
    while k < hi
        invariant
            lo <= k <= hi <= s@.len(),
            t == s@.subrange(lo as int, hi as int),
            seen ==> 0 <= dot < k - lo && t[dot] == '.',
            !seen ==> forall|a: int| 0 <= a < k - lo ==> t[a] != '.',
            forall|a: int, b: int| 0 <= a < b < k - lo ==> !(t[a] == '.' && t[b] == '.'),
        decreases hi - k,
    {
        if s[k] == '.' {
            if seen {
                assert(t[dot] == '.' && t[k - lo] == '.');
                return false;
            }
            seen = true;
            proof {
                dot = k - lo;
            }
        }
        k = k + 1;
    }
    true
}

fn unescape_char(c: char) -> (r: char)
    ensures
        r == unescape(c),
{
    if c == 'n' {
        '\n'
    } else if c == 't' {
        '\t'
    } else if c == 'r' {
        '\r'
    } else {
        c
    }
}

fn scan_string(s: &[char], j: usize, q: char, line: usize) -> (r: (bool, usize, String, usize))
    requires
        j <= s@.len(),
        line + (s@.len() - j) <= usize::MAX,
    ensures
        ({
            let sc = scan_str(s@, j as int, q, line as nat, Seq::empty());
            r.0 == sc.closed && r.1 == sc.end && r.2@ == sc.content && r.3 == sc.line
        }),
{
    let mut acc = String::new();
    let mut k = j;
    let mut ln = line;
    loop
        invariant
            j <= k <= s@.len(),
            ln <= line + (k - j),
            line + (s@.len() - j) <= usize::MAX,
            scan_str(s@, k as int, q, ln as nat, acc@) == scan_str(
                s@,
                j as int,
                q,
                line as nat,
                Seq::empty(),
            ),
        decreases s@.len() - k,
    {
        if k >= s.len() {
            return (false, s.len(), acc, ln);
        }
        let c = s[k];
        if c == q {
            return (true, k + 1, acc, ln);
        }
        if c == '\\' {
            if k + 1 < s.len() {
                acc.push(unescape_char(s[k + 1]));
                k = k + 2;
            } else {
                return (false, s.len(), acc, ln);
            }
        } else {
            acc.push(c);
            if c == '\n' {
                ln = ln + 1;
            }
            k = k + 1;
        }
    }
}

fn unexpected(c: char, line: usize) -> (m: String)
    ensures
        m@ == unexpected_msg(c, line as nat),
{
    let mut m = String::from_str("Unexpected character '");
    m.push(c);
    m.append("' at line ");
    push_decimal(&mut m, line as u128);
    m
}

fn unterminated(line: usize) -> (m: String)
    ensures
        m@ == unterminated_msg(line as nat),
{
    let mut m = String::from_str("Unterminated string at line ");
    push_decimal(&mut m, line as u128);
    m
}

fn invalid_number(s: &[char], lo: usize, hi: usize, line: usize) -> (m: String)
    requires
        lo <= hi <= s@.len(),
    ensures
        m@ == invalid_number_msg(s@.subrange(lo as int, hi as int), line as nat),
{
    let mut m = String::from_str("Invalid number '");
    crate::text::push_range(&mut m, s, lo, hi);
    m.append("' at line ");
    push_decimal(&mut m, line as u128);
    m
}

/// Reads the token (or the skipped text) that starts at `i`.
fn lex_step(s: &[char], i: usize, line: usize, out: &mut Vec<Token>) -> (r: Result<
    (usize, usize),
    String,
>)
    requires
        i < s@.len(),
        line <= i + 1,
        s@.len() < usize::MAX,
    ensures
        match r {
            Ok((i2, l2)) => {
                &&& i < i2 <= s@.len()
                &&& l2 <= i2 + 1
                &&& lex_from(s@, i as int, line as nat, toks(old(out)@)) == lex_from(
                    s@,
                    i2 as int,
                    l2 as nat,
                    toks(final(out)@),
                )
            },
            Err(e) => lex_from(s@, i as int, line as nat, toks(old(out)@)) == Err::<
                Seq<Tok>,
                Seq<char>,
            >(e@),
        },
{
    let c = s[i];
    if c == ' ' || c == '\t' || c == '\r' {
        Ok((i + 1, line))
    } else if c == '\n' {
        emit(out, TokenKind::Semicolon, line);
        Ok((i + 1, line + 1))
    } else if c == '/' {
        if i + 1 < s.len() && s[i + 1] == '/' {
            let e = newline_at(s, i + 1);
            proof {
                lemma_newline_from(s@, i + 1);
            }
            if e < s.len() {
                emit(out, TokenKind::Semicolon, line);
                Ok((e + 1, line + 1))
            } else {
                Ok((e, line))
            }
        } else {
            emit(out, TokenKind::Slash, line);
            Ok((i + 1, line))
        }
    } else if let Some(k) = single_token(c) {
        emit(out, k, line);
        Ok((i + 1, line))
    } else if c == '=' || c == '!' || c == '<' || c == '>' {
        if i + 1 < s.len() && s[i + 1] == '=' {
            emit(out, compare_token(c, true), line);
            Ok((i + 2, line))
        } else {
            emit(out, compare_token(c, false), line);
            Ok((i + 1, line))
        }
    } else if c == '&' || c == '|' {
        if i + 1 < s.len() && s[i + 1] == c {
            if c == '&' {
                emit(out, TokenKind::AndAnd, line);
            } else {
                emit(out, TokenKind::OrOr, line);
            }
            Ok((i + 2, line))
        } else {
            Err(unexpected(c, line))
        }
    } else if c == '"' || c == '\'' {
        proof {
            lemma_scan_str(s@, i + 1, c, line as nat, Seq::empty());
        }
        let (closed, end, content, l2) = scan_string(s, i + 1, c, line);
        if !closed {
            Err(unterminated(l2))
        } else {
            emit(out, TokenKind::String(content), l2);
            Ok((end, l2))
        }
    } else if digit(c) {
        proof {
            lemma_number_end(s@, i as int);
        }
        let e = number_end_at(s, i);
        if number_text_ok(s, i, e) {
            emit(out, TokenKind::Number(crate::text::string_of(s, i, e)), line);
            Ok((e, line))
        } else {
            Err(invalid_number(s, i, e, line))
        }
    } else if is_ident_start(c) {
        proof {
            lemma_ident_end(s@, i as int);
        }
        let e = ident_end_at(s, i);
        emit(out, word_token(s, i, e), line);
        Ok((e, line))
    } else {
        Err(unexpected(c, line))
    }
}

/// Splits Void source text into tokens. Every newline outside a string literal
/// (including the one that ends a `//` comment) becomes a `Semicolon`, and the
/// stream always ends with `Eof`.
pub fn lex(input: &str) -> (r: Result<Vec<Token>, String>)
    requires
        input@.len() < usize::MAX,
    ensures
        match r {
            Ok(v) => lex_spec(input@) == Ok::<Seq<Tok>, Seq<char>>(toks(v@)),
            Err(e) => lex_spec(input@) == Err::<Seq<Tok>, Seq<char>>(e@),
        },
{
    let s = chars_of(input);
    let mut out: Vec<Token> = Vec::new();
    let mut i: usize = 0;
    let mut line: usize = 1;
    assert(toks(out@) =~= Seq::<Tok>::empty());
    while i < s.len()
        invariant
            s@ == input@,
            s@.len() < usize::MAX,
            i <= s@.len(),
            line <= i + 1,
            lex_from(s@, i as int, line as nat, toks(out@)) == lex_spec(input@),
        decreases s.len() - i,
    {
        match lex_step(s.as_slice(), i, line, &mut out) {
            Ok((i2, l2)) => {
                i = i2;
                line = l2;
            },
            Err(e) => {
                return Err(e);
            },
        }
    }
    emit(&mut out, TokenKind::Eof, line);
    Ok(out)
}

} // verus!
